use pixiv_proxy::render::comment::{
    comment_pieces, emoji_image, find_emoji, lookup_emoji, render_comment_text, CommentPiece,
};

#[test]
fn basic_comment() {
    let comment = "Basic Comment without any emoji";
    let markup = render_comment_text(comment);
    assert_eq!(
        markup,
        r#"<p class="content">Basic Comment without any emoji</p>"#
    );
}

#[test]
fn simple_emoji() {
    let comment = "Basic Comment with (normal) emoji";
    let markup = render_comment_text(comment);
    assert_eq!(
        markup,
        r#"<p class="content">Basic Comment with <img class="emoji" src="/simg/common/images/emoji/101.png" alt="normal" width="24" height="24"></img> emoji</p>"#
    );
}

#[test]
fn end_emoji() {
    let comment = "Basic comment with the emoji at the end (love3)";
    let markup = render_comment_text(comment);
    assert_eq!(
        markup,
        r#"<p class="content">Basic comment with the emoji at the end <img class="emoji" src="/simg/common/images/emoji/310.png" alt="love3" width="24" height="24"></img></p>"#
    );
}

#[test]
fn unterminated_emoji() {
    let comment = "Unterminated (normal";
    let markup = render_comment_text(comment);
    assert_eq!(
        markup,
        r#"<p class="content">Unterminated (normal</p>"#
    )
}

#[test]
fn emoji_nested_simple() {
    let comment = "Emoji ((normal)) nested";
    let markup = render_comment_text(comment);
    assert_eq!(
        markup,
        r#"<p class="content">Emoji (<img class="emoji" src="/simg/common/images/emoji/101.png" alt="normal" width="24" height="24"></img>) nested</p>"#
    );
}

#[test]
fn emoji_nested() {
    let comment = "Emoji (in colons (normal) nested)";
    let markup = render_comment_text(comment);
    assert_eq!(
        markup,
        r#"<p class="content">Emoji (in colons <img class="emoji" src="/simg/common/images/emoji/101.png" alt="normal" width="24" height="24"></img> nested)</p>"#
    );
}

#[test]
fn non_existant_stamp() {
    let comment = "Emoji that is (nonexistant)";
    let markup = render_comment_text(comment);
    assert_eq!(
        markup,
        r#"<p class="content">Emoji that is (nonexistant)</p>"#
    );
}

#[test]
fn comment_text_is_escaped() {
    assert_eq!(
        render_comment_text(r#"<b>"a" & 'b'</b>"#),
        r#"<p class="content">&lt;b&gt;&quot;a&quot; &amp; 'b'&lt;/b&gt;</p>"#
    );
}

#[test]
fn empty_comment_is_an_empty_paragraph() {
    assert_eq!(render_comment_text(""), r#"<p class="content"></p>"#);
    assert!(comment_pieces("").is_empty());
}

#[test]
fn bracket_at_the_end_is_dropped() {
    assert_eq!(render_comment_text("abc("), r#"<p class="content">abc</p>"#);
    assert_eq!(render_comment_text("("), r#"<p class="content"></p>"#);
}

#[test]
fn name_ended_by_another_character_is_text() {
    assert_eq!(render_comment_text("a (normal b) c"), r#"<p class="content">a (normal b) c</p>"#);
    assert_eq!(render_comment_text("()"), r#"<p class="content">()</p>"#);
}

#[test]
fn unicode_letters_are_gathered_as_names() {
    assert_eq!(render_comment_text("(世話)"), r#"<p class="content">(世話)</p>"#);
    assert_eq!(render_comment_text("絵 (star) 絵"), r#"<p class="content">絵 <img class="emoji" src="/simg/common/images/emoji/503.png" alt="star" width="24" height="24"></img> 絵</p>"#);
}

#[test]
fn pieces_of_a_comment() {
    let pieces = comment_pieces("hi (heart)(cry) (nope) (sin");
    assert_eq!(pieces.len(), 6);
    assert!(matches!(&pieces[0], CommentPiece::Text(t) if t == "hi "));
    assert!(matches!(&pieces[1], CommentPiece::Emoji(n, 501) if n == "heart"));
    assert!(matches!(&pieces[2], CommentPiece::Emoji(n, 108) if n == "cry"));
    assert!(matches!(&pieces[3], CommentPiece::Text(t) if t == " "));
    assert!(matches!(&pieces[4], CommentPiece::Text(t) if t == "(nope) "));
    assert!(matches!(&pieces[5], CommentPiece::Text(t) if t == "(sin"));
}

#[test]
fn every_emoji_is_found() {
    let table: [(&str, u16); 38] = [
        ("normal", 101), ("surprise", 102), ("serious", 103), ("heaven", 104), ("happy", 105),
        ("excited", 106), ("sing", 107), ("cry", 108), ("normal2", 201), ("shame2", 202),
        ("love2", 203), ("interesting2", 204), ("blush2", 205), ("fire2", 206), ("angry2", 207),
        ("shine2", 208), ("panic2", 209), ("normal3", 301), ("satisfaction3", 302),
        ("surprise3", 303), ("smile3", 304), ("shock3", 305), ("gaze3", 306), ("wink3", 307),
        ("happy3", 308), ("excited3", 309), ("love3", 310), ("normal4", 401), ("surprise4", 402),
        ("serious4", 403), ("love4", 404), ("shine4", 405), ("sweat4", 406), ("shame4", 407),
        ("sleep4", 408), ("heart", 501), ("teardrop", 502), ("star", 503),
    ];
    for (name, id) in table {
        assert_eq!(find_emoji(name), Some(id));
        assert_eq!(lookup_emoji(name), Some(format!("/simg/common/images/emoji/{}.png", id)));
    }
    assert_eq!(find_emoji("Normal"), None);
    assert_eq!(find_emoji(""), None);
    assert_eq!(lookup_emoji("normal5"), None);
    assert_eq!(emoji_image(7), "/simg/common/images/emoji/7.png");
}
