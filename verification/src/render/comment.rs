//! The text of a comment: names of emoji in round brackets become images,
//! everything else is shown as it was written.

use vstd::prelude::*;
use vstd::string::StringExecFns;
use crate::render::markup::{escape_html, escaped};
use crate::text::{decimal, push_decimal, str_eq};

verus! {

/// Whether `char::is_alphanumeric` holds of a character: whether Unicode
/// lists it as alphabetic or as a number.
pub uninterp spec fn alphanumeric(c: char) -> bool;

/// `char::is_alphanumeric` is a function of the character alone.
pub assume_specification[ char::is_alphanumeric ](c: char) -> (b: bool)
    ensures
        b == alphanumeric(c),
;

/// The number of the emoji that a name stands for, if it stands for one.
pub open spec fn emoji_id(name: Seq<char>) -> Option<u16> {
    if name == "normal"@ {
        Some(101u16)
    } else if name == "surprise"@ {
        Some(102u16)
    } else if name == "serious"@ {
        Some(103u16)
    } else if name == "heaven"@ {
        Some(104u16)
    } else if name == "happy"@ {
        Some(105u16)
    } else if name == "excited"@ {
        Some(106u16)
    } else if name == "sing"@ {
        Some(107u16)
    } else if name == "cry"@ {
        Some(108u16)
    } else if name == "normal2"@ {
        Some(201u16)
    } else if name == "shame2"@ {
        Some(202u16)
    } else if name == "love2"@ {
        Some(203u16)
    } else if name == "interesting2"@ {
        Some(204u16)
    } else if name == "blush2"@ {
        Some(205u16)
    } else if name == "fire2"@ {
        Some(206u16)
    } else if name == "angry2"@ {
        Some(207u16)
    } else if name == "shine2"@ {
        Some(208u16)
    } else if name == "panic2"@ {
        Some(209u16)
    } else if name == "normal3"@ {
        Some(301u16)
    } else if name == "satisfaction3"@ {
        Some(302u16)
    } else if name == "surprise3"@ {
        Some(303u16)
    } else if name == "smile3"@ {
        Some(304u16)
    } else if name == "shock3"@ {
        Some(305u16)
    } else if name == "gaze3"@ {
        Some(306u16)
    } else if name == "wink3"@ {
        Some(307u16)
    } else if name == "happy3"@ {
        Some(308u16)
    } else if name == "excited3"@ {
        Some(309u16)
    } else if name == "love3"@ {
        Some(310u16)
    } else if name == "normal4"@ {
        Some(401u16)
    } else if name == "surprise4"@ {
        Some(402u16)
    } else if name == "serious4"@ {
        Some(403u16)
    } else if name == "love4"@ {
        Some(404u16)
    } else if name == "shine4"@ {
        Some(405u16)
    } else if name == "sweat4"@ {
        Some(406u16)
    } else if name == "shame4"@ {
        Some(407u16)
    } else if name == "sleep4"@ {
        Some(408u16)
    } else if name == "heart"@ {
        Some(501u16)
    } else if name == "teardrop"@ {
        Some(502u16)
    } else if name == "star"@ {
        Some(503u16)
    } else {
        None
    }
}

/// Looks an emoji's number up by its name.
pub fn find_emoji(name: &str) -> (id: Option<u16>)
    ensures
        id == emoji_id(name@),
{
    if str_eq(name, "normal") {
        Some(101)
    } else if str_eq(name, "surprise") {
        Some(102)
    } else if str_eq(name, "serious") {
        Some(103)
    } else if str_eq(name, "heaven") {
        Some(104)
    } else if str_eq(name, "happy") {
        Some(105)
    } else if str_eq(name, "excited") {
        Some(106)
    } else if str_eq(name, "sing") {
        Some(107)
    } else if str_eq(name, "cry") {
        Some(108)
    } else if str_eq(name, "normal2") {
        Some(201)
    } else if str_eq(name, "shame2") {
        Some(202)
    } else if str_eq(name, "love2") {
        Some(203)
    } else if str_eq(name, "interesting2") {
        Some(204)
    } else if str_eq(name, "blush2") {
        Some(205)
    } else if str_eq(name, "fire2") {
        Some(206)
    } else if str_eq(name, "angry2") {
        Some(207)
    } else if str_eq(name, "shine2") {
        Some(208)
    } else if str_eq(name, "panic2") {
        Some(209)
    } else if str_eq(name, "normal3") {
        Some(301)
    } else if str_eq(name, "satisfaction3") {
        Some(302)
    } else if str_eq(name, "surprise3") {
        Some(303)
    } else if str_eq(name, "smile3") {
        Some(304)
    } else if str_eq(name, "shock3") {
        Some(305)
    } else if str_eq(name, "gaze3") {
        Some(306)
    } else if str_eq(name, "wink3") {
        Some(307)
    } else if str_eq(name, "happy3") {
        Some(308)
    } else if str_eq(name, "excited3") {
        Some(309)
    } else if str_eq(name, "love3") {
        Some(310)
    } else if str_eq(name, "normal4") {
        Some(401)
    } else if str_eq(name, "surprise4") {
        Some(402)
    } else if str_eq(name, "serious4") {
        Some(403)
    } else if str_eq(name, "love4") {
        Some(404)
    } else if str_eq(name, "shine4") {
        Some(405)
    } else if str_eq(name, "sweat4") {
        Some(406)
    } else if str_eq(name, "shame4") {
        Some(407)
    } else if str_eq(name, "sleep4") {
        Some(408)
    } else if str_eq(name, "heart") {
        Some(501)
    } else if str_eq(name, "teardrop") {
        Some(502)
    } else if str_eq(name, "star") {
        Some(503)
    } else {
        None
    }
}

/// The path of the image of emoji number `id`.
pub open spec fn emoji_path(id: u16) -> Seq<char> {
    "/simg/common/images/emoji/"@ + decimal(id as nat) + ".png"@
}

/// The path of the image of emoji number `id`.
pub fn emoji_image(id: u16) -> (path: String)
    ensures
        path@ == emoji_path(id),
{
    let mut path = String::from_str("/simg/common/images/emoji/");
    push_decimal(&mut path, id as u64);
    path.append(".png");
    path
}

/// The path of the image that an emoji's name stands for, if it stands
/// for one.
pub fn lookup_emoji(name: &str) -> (path: Option<String>)
    ensures
        match path {
            Some(p) => emoji_id(name@) is Some && p@ == emoji_path(emoji_id(name@).unwrap()),
            None => emoji_id(name@) is None,
        },
{
    match find_emoji(name) {
        Some(id) => Some(emoji_image(id)),
        None => None,
    }
}

/// One piece of a comment's text.
#[derive(Debug)]
pub enum CommentPiece {
    /// Text to show as written.
    Text(String),
    /// An emoji to show as an image: its name and its number.
    Emoji(String, u16),
}

/// A piece as mathematics.
pub enum PieceView {
    Text(Seq<char>),
    Emoji(Seq<char>, u16),
}

impl View for CommentPiece {
    type V = PieceView;

    open spec fn view(&self) -> PieceView {
        match self {
            CommentPiece::Text(t) => PieceView::Text(t@),
            CommentPiece::Emoji(name, id) => PieceView::Emoji(name@, *id),
        }
    }
}

/// Where the scan of a comment stands: the pieces that are complete, the
/// text gathered since the last of them, and, inside a round bracket, the
/// name gathered since it opened.
pub struct Scan {
    pub pieces: Seq<PieceView>,
    pub text: Seq<char>,
    pub in_name: bool,
    pub name: Seq<char>,
}

impl Scan {
    pub open spec fn start() -> Scan {
        Scan { pieces: Seq::empty(), text: Seq::empty(), in_name: false, name: Seq::empty() }
    }

    /// `pieces` with the gathered text added as a piece, if there is any.
    pub open spec fn flushed(pieces: Seq<PieceView>, text: Seq<char>) -> Seq<PieceView> {
        if text.len() == 0 {
            pieces
        } else {
            pieces.push(PieceView::Text(text))
        }
    }

    /// The scan after one more character. An opening bracket ends the text
    /// before it and begins a name; a bracket that opens inside a name
    /// turns what was gathered of the name back into text. Inside a name,
    /// letters and digits are gathered; a closing bracket makes the name an
    /// emoji if it names one, and text if not; any other character turns
    /// the name back into text.
    pub open spec fn step(self, c: char) -> Scan {
        if c == '(' {
            let text = if self.in_name {
                self.text.push('(') + self.name
            } else {
                self.text
            };
            Scan {
                pieces: Self::flushed(self.pieces, text),
                text: Seq::empty(),
                in_name: true,
                name: Seq::empty(),
            }
        } else if !self.in_name {
            Scan { text: self.text.push(c), ..self }
        } else if alphanumeric(c) {
            Scan { name: self.name.push(c), ..self }
        } else if c == ')' {
            match emoji_id(self.name) {
                Some(id) => Scan {
                    pieces: self.pieces.push(PieceView::Emoji(self.name, id)),
                    text: self.text,
                    in_name: false,
                    name: Seq::empty(),
                },
                None => Scan {
                    pieces: self.pieces,
                    text: (self.text.push('(') + self.name).push(')'),
                    in_name: false,
                    name: Seq::empty(),
                },
            }
        } else {
            Scan {
                pieces: self.pieces,
                text: (self.text.push('(') + self.name).push(c),
                in_name: false,
                name: Seq::empty(),
            }
        }
    }

    /// The scan after all of `s`.
    pub open spec fn of(s: Seq<char>) -> Scan
        decreases s.len(),
    {
        if s.len() == 0 {
            Self::start()
        } else {
            Self::of(s.drop_last()).step(s.last())
        }
    }

    /// The pieces when the comment ends here: a name that was begun and
    /// not closed is text again, its bracket before it; a bracket that
    /// opened as the last character is dropped.
    pub open spec fn finish(self) -> Seq<PieceView> {
        if self.in_name && self.name.len() > 0 {
            self.pieces.push(PieceView::Text(seq!['('] + self.name))
        } else {
            Self::flushed(self.pieces, self.text)
        }
    }
}

/// The pieces of a comment.
pub open spec fn pieces_of(comment: Seq<char>) -> Seq<PieceView> {
    Scan::of(comment).finish()
}

/// The views of the pieces, in order.
pub open spec fn piece_views(pieces: Seq<CommentPiece>) -> Seq<PieceView> {
    Seq::new(pieces.len(), |i: int| pieces[i]@)
}

/// Cuts a comment into text and emoji.
pub fn comment_pieces(comment: &str) -> (pieces: Vec<CommentPiece>)
    ensures
        piece_views(pieces@) == pieces_of(comment@),
{
    let mut pieces: Vec<CommentPiece> = Vec::new();
    let mut text = String::new();
    let mut name = String::new();
    let mut in_name = false;
    proof {
        assert(comment@.take(0) =~= Seq::<char>::empty());
        assert(piece_views(pieces@) =~= Seq::<PieceView>::empty());
    }
    for c in iter: comment.chars()
        invariant
            iter.seq() == comment@,
            Scan::of(comment@.take(iter.index() as int)) == (Scan {
                pieces: piece_views(pieces@),
                text: text@,
                in_name,
                name: name@,
            }),
    {
        let ghost before = Scan::of(comment@.take(iter.index() as int));
        proof {
            let next = comment@.take(iter.index() + 1);
            assert(next.drop_last() =~= comment@.take(iter.index() as int));
            assert(next.last() == c);
        }
        if c == '(' {
            if in_name {
                text.push('(');
                text.append(name.as_str());
            }
            if !text.as_str().is_empty() {
                let ghost old_pieces = pieces@;
                pieces.push(CommentPiece::Text(text));
                assert(piece_views(pieces@) =~= piece_views(old_pieces).push(
                    PieceView::Text(text@),
                ));
            }
            text = String::new();
            name = String::new();
            in_name = true;
        } else if !in_name {
            text.push(c);
        } else if c.is_alphanumeric() {
            name.push(c);
        } else if c == ')' {
            match find_emoji(name.as_str()) {
                Some(id) => {
                    let ghost old_pieces = pieces@;
                    pieces.push(CommentPiece::Emoji(name, id));
                    assert(piece_views(pieces@) =~= piece_views(old_pieces).push(
                        PieceView::Emoji(name@, id),
                    ));
                },
                None => {
                    text.push('(');
                    text.append(name.as_str());
                    text.push(')');
                },
            }
            name = String::new();
            in_name = false;
        } else {
            text.push('(');
            text.append(name.as_str());
            text.push(c);
            name = String::new();
            in_name = false;
        }
    }
    assert(comment@.take(comment@.len() as int) =~= comment@);
    let ghost old_pieces = pieces@;
    if in_name && !name.as_str().is_empty() {
        let mut last = String::from_str("(");
        proof {
            reveal_strlit("(");
        }
        last.append(name.as_str());
        assert(last@ =~= seq!['('] + name@);
        pieces.push(CommentPiece::Text(last));
        assert(piece_views(pieces@) =~= piece_views(old_pieces).push(PieceView::Text(last@)));
    } else if !text.as_str().is_empty() {
        pieces.push(CommentPiece::Text(text));
        assert(piece_views(pieces@) =~= piece_views(old_pieces).push(PieceView::Text(text@)));
    }
    pieces
}

/// The markup of one piece: text escaped, an emoji as an image of 24 by
/// 24 with its path as source and its name as alternative text.
pub open spec fn piece_html(piece: PieceView) -> Seq<char> {
    match piece {
        PieceView::Text(t) => escaped(t),
        PieceView::Emoji(name, id) => "<img class=\"emoji\" src=\""@ + escaped(emoji_path(id))
            + "\" alt=\""@ + escaped(name) + "\" width=\"24\" height=\"24\"></img>"@,
    }
}

/// The markup of the pieces, one after another.
pub open spec fn pieces_html(pieces: Seq<PieceView>) -> Seq<char>
    decreases pieces.len(),
{
    if pieces.len() == 0 {
        Seq::empty()
    } else {
        pieces_html(pieces.drop_last()) + piece_html(pieces.last())
    }
}

/// The markup of a comment: a paragraph of class `content` around its
/// pieces.
pub open spec fn comment_html(comment: Seq<char>) -> Seq<char> {
    "<p class=\"content\">"@ + pieces_html(pieces_of(comment)) + "</p>"@
}

/// Appends the markup of one piece.
fn push_piece(out: &mut String, piece: &CommentPiece)
    ensures
        final(out)@ == old(out)@ + piece_html(piece@),
{
    match piece {
        CommentPiece::Text(t) => {
            let e = escape_html(t.as_str());
            out.append(e.as_str());
        },
        CommentPiece::Emoji(name, id) => {
            out.append("<img class=\"emoji\" src=\"");
            let path = emoji_image(*id);
            let src = escape_html(path.as_str());
            out.append(src.as_str());
            out.append("\" alt=\"");
            let alt = escape_html(name.as_str());
            out.append(alt.as_str());
            out.append("\" width=\"24\" height=\"24\"></img>");
            assert(out@ =~= old(out)@ + piece_html(piece@));
        },
    }
}

/// Writes a comment's text as markup.
pub fn render_comment_text(comment: &str) -> (html: String)
    ensures
        html@ == comment_html(comment@),
{
    let pieces = comment_pieces(comment);
    let mut html = String::from_str("<p class=\"content\">");
    let n: usize = pieces.len();
    let mut i: usize = 0;
    assert(piece_views(pieces@).take(0) =~= Seq::<PieceView>::empty());
    while i < n
        invariant
            0 <= i <= n,
            n == pieces@.len(),
            html@ == "<p class=\"content\">"@ + pieces_html(piece_views(pieces@).take(i as int)),
        decreases n - i,
    {
        proof {
            let next = piece_views(pieces@).take(i + 1);
            assert(next.drop_last() =~= piece_views(pieces@).take(i as int));
            assert(next.last() == pieces@[i as int]@);
        }
        push_piece(&mut html, &pieces[i]);
        i += 1;
        assert(html@ =~= "<p class=\"content\">"@ + pieces_html(
            piece_views(pieces@).take(i as int),
        ));
    }
    assert(piece_views(pieces@).take(n as int) =~= piece_views(pieces@));
    html.append("</p>");
    html
}

} // verus!
