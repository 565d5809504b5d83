//! Forward-only reading of an archive of frames: local file headers in
//! stream order, one entry open at a time, nothing read from the index that
//! ends the archive.

use vstd::prelude::*;
use crate::ugoira::bytes::{copy_range, copy_to_front, overlay};
use crate::ugoira::error::ArchiveError;

verus! {

/// Length of a local file header up to the file name.
pub const LOCAL_HEADER_LEN: usize = 30;

/// How an entry's data is packed.
#[derive(Clone, Copy, Debug, PartialEq, Eq, Structural)]
pub enum Compression {
    Stored,
    Deflated,
}

/// The two bytes of `s` from `at` on, read as a little-endian number.
pub open spec fn le16(s: Seq<u8>, at: int) -> nat {
    (s[at] as nat) + 256 * (s[at + 1] as nat)
}

/// The four bytes of `s` from `at` on, read as a little-endian number.
pub open spec fn le32(s: Seq<u8>, at: int) -> nat {
    (s[at] as nat) + 256 * (s[at + 1] as nat) + 65536 * (s[at + 2] as nat) + 16777216 * (s[at
        + 3] as nat)
}

/// The four bytes of `s` from `at` on are the signature of a local file
/// header.
pub open spec fn has_local_signature(s: Seq<u8>, at: int) -> bool {
    &&& 0 <= at
    &&& at + 4 <= s.len()
    &&& s[at] == 0x50u8
    &&& s[at + 1] == 0x4bu8
    &&& s[at + 2] == 0x03u8
    &&& s[at + 3] == 0x04u8
}

/// What a local file header says of its entry, and where the entry's data
/// begins in the stream.
pub struct HeaderView {
    pub method: Compression,
    pub compressed_size: nat,
    pub uncompressed_size: nat,
    pub data_start: nat,
}

impl HeaderView {
    /// The offset behind the entry's data, where the next header is due.
    pub open spec fn data_end(self) -> nat {
        self.data_start + self.compressed_size
    }

    /// The header can stand in `stream`: the entry's data begins inside the
    /// stream, and a stored entry is as long packed as unpacked.
    pub open spec fn fits(self, stream: Seq<u8>) -> bool {
        &&& self.data_start <= stream.len()
        &&& self.method == Compression::Stored ==> self.compressed_size == self.uncompressed_size
    }
}

/// The header that stands at `pos` in `stream`, or why none is accepted
/// there. In this order: the stream must hold the thirty fixed bytes; they
/// must begin with the signature; the entry must not be encrypted; its sizes
/// must stand in the header and not behind the data; its method must be
/// store or deflate; a stored entry must declare one size twice; and the
/// stream must hold the file name and the extra field. The checksum that
/// the header carries is not read: no entry is refused for it.
pub open spec fn header_at(stream: Seq<u8>, pos: nat) -> Result<HeaderView, ArchiveError> {
    let p = pos as int;
    if stream.len() < pos + LOCAL_HEADER_LEN {
        Err(ArchiveError::Truncated)
    } else if !has_local_signature(stream, p) {
        Err(ArchiveError::MalformedHeader)
    } else if stream[p + 6] & 0x01u8 != 0u8 {
        Err(ArchiveError::UnsupportedCompression)
    } else if stream[p + 6] & 0x08u8 != 0u8 {
        Err(ArchiveError::MalformedHeader)
    } else if le16(stream, p + 8) != 0 && le16(stream, p + 8) != 8 {
        Err(ArchiveError::UnsupportedCompression)
    } else if le16(stream, p + 8) == 0 && le32(stream, p + 18) != le32(stream, p + 22) {
        Err(ArchiveError::MalformedHeader)
    } else if stream.len() < pos + LOCAL_HEADER_LEN + le16(stream, p + 26) + le16(stream, p + 28) {
        Err(ArchiveError::Truncated)
    } else {
        Ok(
            HeaderView {
                method: if le16(stream, p + 8) == 0 {
                    Compression::Stored
                } else {
                    Compression::Deflated
                },
                compressed_size: le32(stream, p + 18),
                uncompressed_size: le32(stream, p + 22),
                data_start: (pos + LOCAL_HEADER_LEN + le16(stream, p + 26) + le16(stream, p + 28)) as nat,
            },
        )
    }
}

/// A local file header as parsed from the stream.
#[derive(Clone, Copy, Debug)]
pub struct LocalHeader {
    pub method: Compression,
    pub compressed_size: u32,
    pub uncompressed_size: u32,
    pub data_start: usize,
}

impl View for LocalHeader {
    type V = HeaderView;

    open spec fn view(&self) -> HeaderView {
        HeaderView {
            method: self.method,
            compressed_size: self.compressed_size as nat,
            uncompressed_size: self.uncompressed_size as nat,
            data_start: self.data_start as nat,
        }
    }
}

fn read_le16(s: &[u8], at: usize) -> (v: u16)
    requires
        at + 2 <= s@.len(),
    ensures
        v == le16(s@, at as int),
{
    let lo: u16 = s[at] as u16;
    let hi: u16 = s[at + 1] as u16;
    lo + 256 * hi
}

fn read_le32(s: &[u8], at: usize) -> (v: u32)
    requires
        at + 4 <= s@.len(),
    ensures
        v == le32(s@, at as int),
{
    let b0: u32 = s[at] as u32;
    let b1: u32 = s[at + 1] as u32;
    let b2: u32 = s[at + 2] as u32;
    let b3: u32 = s[at + 3] as u32;
    b0 + 256 * b1 + 65536 * b2 + 16777216 * b3
}

/// Whether a local file header's signature stands at `pos`.
pub fn local_signature_at(stream: &[u8], pos: usize) -> (b: bool)
    ensures
        b == has_local_signature(stream@, pos as int),
{
    let len: usize = stream.len();
    if len < 4 || pos > len - 4 {
        return false;
    }
    stream[pos] == 0x50 && stream[pos + 1] == 0x4b && stream[pos + 2] == 0x03 && stream[pos + 3]
        == 0x04
}

/// Parses the local file header at `pos`.
pub fn parse_local_header(stream: &[u8], pos: usize) -> (r: Result<LocalHeader, ArchiveError>)
    ensures
        match r {
            Ok(h) => header_at(stream@, pos as nat) == Ok::<HeaderView, ArchiveError>(h@),
            Err(e) => header_at(stream@, pos as nat) == Err::<HeaderView, ArchiveError>(e),
        },
{
    let len: usize = stream.len();
    if len < LOCAL_HEADER_LEN || pos > len - LOCAL_HEADER_LEN {
        return Err(ArchiveError::Truncated);
    }
    if !local_signature_at(stream, pos) {
        return Err(ArchiveError::MalformedHeader);
    }
    let flags: u8 = stream[pos + 6];
    if flags & 0x01 != 0 {
        return Err(ArchiveError::UnsupportedCompression);
    }
    if flags & 0x08 != 0 {
        return Err(ArchiveError::MalformedHeader);
    }
    let method: u16 = read_le16(stream, pos + 8);
    if method != 0 && method != 8 {
        return Err(ArchiveError::UnsupportedCompression);
    }
    let compressed_size: u32 = read_le32(stream, pos + 18);
    let uncompressed_size: u32 = read_le32(stream, pos + 22);
    if method == 0 && compressed_size != uncompressed_size {
        return Err(ArchiveError::MalformedHeader);
    }
    let name_len: usize = read_le16(stream, pos + 26) as usize;
    let extra_len: usize = read_le16(stream, pos + 28) as usize;
    let rest: usize = len - pos - LOCAL_HEADER_LEN;
    if rest < name_len + extra_len {
        return Err(ArchiveError::Truncated);
    }
    Ok(
        LocalHeader {
            method: if method == 0 {
                Compression::Stored
            } else {
                Compression::Deflated
            },
            compressed_size,
            uncompressed_size,
            data_start: pos + LOCAL_HEADER_LEN + name_len + extra_len,
        },
    )
}

/// The result of `miniz_oxide::inflate::decompress_to_vec_with_limit` on a
/// raw deflate stream and an output limit: the bytes it unpacks to, or
/// nothing where the stream is not a complete deflate stream or unpacks to
/// more than `limit` bytes.
pub uninterp spec fn inflated(input: Seq<u8>, limit: usize) -> Option<Seq<u8>>;

/// Unpacks a raw deflate stream with
/// `miniz_oxide::inflate::decompress_to_vec_with_limit`. Trusted: that the
/// call's result depends on `input` and `limit` alone, and that its output
/// is never longer than `limit`, to which that function caps the buffer it
/// grows.
#[verifier::external_body]
fn inflate(input: &[u8], limit: usize) -> (out: Option<Vec<u8>>)
    ensures
        match out {
            Some(v) => inflated(input@, limit) == Some(v@) && v@.len() <= limit,
            None => inflated(input@, limit) is None,
        },
{
    miniz_oxide::inflate::decompress_to_vec_with_limit(input, limit).ok()
}

/// What counts as the content of a deflated entry: unpacked data of exactly
/// the declared length.
pub open spec fn accepted_inflation(out: Option<Seq<u8>>, declared: nat) -> Option<Seq<u8>> {
    match out {
        Some(v) => if v.len() == declared {
            Some(v)
        } else {
            None
        },
        None => None,
    }
}

/// Keeps unpacked data only if it has the length that the header declared.
pub fn accept_inflation(out: Option<Vec<u8>>, declared: u32) -> (r: Option<Vec<u8>>)
    ensures
        match r {
            Some(v) => out.is_some() && out.unwrap()@ == v@ && accepted_inflation(
                Some(out.unwrap()@),
                declared as nat,
            ) == Some(v@),
            None => match out {
                Some(w) => accepted_inflation(Some(w@), declared as nat) is None,
                None => true,
            },
        },
{
    match out {
        Some(v) => if v.len() == declared as usize {
            Some(v)
        } else {
            None
        },
        None => None,
    }
}

/// The stream holds all the bytes that the header declares for the entry.
pub open spec fn data_present(stream: Seq<u8>, h: HeaderView) -> bool {
    h.data_end() <= stream.len()
}

/// The entry's packed bytes as far as the stream holds them.
pub open spec fn packed_part(stream: Seq<u8>, h: HeaderView) -> Seq<u8> {
    let end = if data_present(stream, h) {
        h.data_end()
    } else {
        stream.len()
    };
    stream.subrange(h.data_start as int, end as int)
}

/// The offset up to which the stream must reach for the entry whose
/// header is due at `pos` to be there with all its declared data: the end
/// of the header's thirty fixed bytes while the stream does not hold them,
/// then the end of what they declare as name, extra field and data.
pub open spec fn needed_end(stream: Seq<u8>, pos: nat) -> nat {
    if stream.len() < pos + LOCAL_HEADER_LEN {
        (pos + LOCAL_HEADER_LEN) as nat
    } else {
        let p = pos as int;
        (pos + LOCAL_HEADER_LEN + le16(stream, p + 26) + le16(stream, p + 28) + le32(
            stream,
            p + 18,
        )) as nat
    }
}

/// The whole content of the entry, where the stream holds it: the declared
/// bytes of a stored entry; of a deflated entry what its declared bytes
/// unpack to, if that has the declared length.
pub open spec fn payload(stream: Seq<u8>, h: HeaderView) -> Option<Seq<u8>> {
    if !data_present(stream, h) {
        None
    } else {
        match h.method {
            Compression::Stored => Some(packed_part(stream, h)),
            Compression::Deflated => accepted_inflation(
                inflated(packed_part(stream, h), h.uncompressed_size as usize),
                h.uncompressed_size,
            ),
        }
    }
}

/// The bytes that reads of the entry hand out before they end or fail: the
/// whole content where there is one; else, of a stored entry, the part that
/// arrived, and of a deflated entry nothing.
pub open spec fn deliverable(stream: Seq<u8>, h: HeaderView) -> Seq<u8> {
    match payload(stream, h) {
        Some(v) => v,
        None => match h.method {
            Compression::Stored => packed_part(stream, h),
            Compression::Deflated => Seq::empty(),
        },
    }
}

/// The offset at which the header of entry `k` is due: 0 for the first
/// entry, and for each later one right behind the declared data of the
/// entry before it. Where that entry has no header, no later one has.
pub open spec fn header_offset(stream: Seq<u8>, k: nat) -> nat
    decreases k,
{
    if k == 0 {
        0
    } else {
        match header_at(stream, header_offset(stream, (k - 1) as nat)) {
            Ok(h) => h.data_end(),
            Err(_) => header_offset(stream, (k - 1) as nat),
        }
    }
}

/// The header of entry `k`, or why it has none.
pub open spec fn entry_header(stream: Seq<u8>, k: nat) -> Result<HeaderView, ArchiveError> {
    header_at(stream, header_offset(stream, k))
}

/// The content of entry `k`, or why it cannot be had: the error of its
/// header, or `Truncated` where the stream does not hold what the header
/// declares. The content is not held against the header's checksum: bytes
/// that were damaged on the way are for the decoder to refuse.
pub open spec fn entry_content(stream: Seq<u8>, k: nat) -> Result<Seq<u8>, ArchiveError> {
    match entry_header(stream, k) {
        Ok(h) => match payload(stream, h) {
            Some(content) => Ok(content),
            None => Err(ArchiveError::Truncated),
        },
        Err(e) => Err(e),
    }
}

/// An open entry: its header and how many of its bytes have been read.
pub struct EntryView {
    pub header: HeaderView,
    pub consumed: nat,
}

/// An archive source as mathematics: the stream, the offset at which the
/// next header is due, and the entry that is open, if one is.
pub struct SourceView {
    pub stream: Seq<u8>,
    pub next_header: nat,
    pub entry: Option<EntryView>,
}

impl SourceView {
    /// The source over `stream` before anything was read.
    pub open spec fn opened(stream: Seq<u8>) -> SourceView {
        SourceView { stream, next_header: 0, entry: None }
    }

    /// An open entry belongs to the stream: its header lets its data begin
    /// inside the stream, no more was read of it than it can hand out, and
    /// the next header is due right behind its declared data.
    pub open spec fn wf(self) -> bool {
        match self.entry {
            Some(e) => {
                &&& e.header.fits(self.stream)
                &&& e.consumed <= deliverable(self.stream, e.header).len()
                &&& self.next_header == e.header.data_end()
            },
            None => true,
        }
    }

    /// What `advance` returns.
    pub open spec fn advance_result(self) -> Result<HeaderView, ArchiveError> {
        header_at(self.stream, self.next_header)
    }

    /// The source after `advance`: the entry whose header stands where one
    /// was due is open and unread, and the next header is due behind its
    /// declared data, whatever is read of it; or, where no header is
    /// accepted, no entry is open.
    pub open spec fn advance(self) -> SourceView {
        match header_at(self.stream, self.next_header) {
            Ok(h) => SourceView {
                stream: self.stream,
                next_header: h.data_end(),
                entry: Some(EntryView { header: h, consumed: 0 }),
            },
            Err(_) => SourceView { stream: self.stream, next_header: self.next_header, entry: None },
        }
    }

    /// How many bytes the stream lacks before `advance` can open the next
    /// entry with all its declared data: none where the stream holds them,
    /// and none where no header is accepted for a reason that more bytes
    /// do not mend.
    pub open spec fn wanted(self) -> nat {
        match header_at(self.stream, self.next_header) {
            Err(ArchiveError::MalformedHeader) => 0,
            Err(ArchiveError::UnsupportedCompression) => 0,
            _ => if needed_end(self.stream, self.next_header) > self.stream.len() {
                (needed_end(self.stream, self.next_header) - self.stream.len()) as nat
            } else {
                0
            },
        }
    }

    /// The open entry, if one is open, has its whole content in the
    /// stream, so that bytes that arrive are not its own.
    pub open spec fn takes_more(self) -> bool {
        match self.entry {
            Some(e) => payload(self.stream, e.header) is Some,
            None => true,
        }
    }

    /// The source after more bytes of the stream arrived: they stand
    /// behind the bytes it held. A source whose open entry was cut short
    /// takes no more.
    pub open spec fn extend(self, more: Seq<u8>) -> SourceView {
        if self.takes_more() {
            SourceView { stream: self.stream + more, ..self }
        } else {
            self
        }
    }

    /// The bytes of the open entry that have not been read and can be.
    pub open spec fn pending(self) -> Seq<u8> {
        match self.entry {
            Some(e) => deliverable(self.stream, e.header).skip(e.consumed as int),
            None => Seq::empty(),
        }
    }

    /// The open entry cannot hand out the content that its header declares,
    /// and what it can hand out has been read.
    pub open spec fn cut_short(self) -> bool {
        match self.entry {
            Some(e) => payload(self.stream, e.header) is None && self.pending().len() == 0,
            None => false,
        }
    }

    /// The bytes that a read into a buffer of `room` bytes hands out.
    pub open spec fn read_bytes(self, room: nat) -> Seq<u8> {
        if room < self.pending().len() {
            self.pending().take(room as int)
        } else {
            self.pending()
        }
    }

    /// What `read` returns for a buffer of `room` bytes.
    pub open spec fn read_result(self, room: nat) -> Result<nat, ArchiveError> {
        if self.cut_short() {
            Err(ArchiveError::Truncated)
        } else {
            Ok(self.read_bytes(room).len())
        }
    }

    /// The source after a read into a buffer of `room` bytes: only the
    /// count of bytes read changes.
    pub open spec fn read(self, room: nat) -> SourceView {
        match self.entry {
            Some(e) => SourceView {
                stream: self.stream,
                next_header: self.next_header,
                entry: Some(
                    EntryView {
                        header: e.header,
                        consumed: e.consumed + self.read_bytes(room).len(),
                    },
                ),
            },
            None => self,
        }
    }
}

/// An entry never hands out more bytes than its header declares, and hands
/// out exactly that many where the stream holds its content.
pub proof fn law_reads_stay_within_declared_size(stream: Seq<u8>, h: HeaderView)
    requires
        h.fits(stream),
    ensures
        deliverable(stream, h).len() <= h.uncompressed_size,
        payload(stream, h) matches Some(v) ==> v.len() == h.uncompressed_size && deliverable(
            stream,
            h,
        ) == v,
{
}

/// Every header that is accepted fits the stream it stands in, and its
/// entry's data begins behind the thirty fixed bytes of the header.
pub proof fn law_accepted_header_fits(stream: Seq<u8>, pos: nat)
    ensures
        header_at(stream, pos) matches Ok(h) ==> h.fits(stream) && h.data_start >= pos
            + LOCAL_HEADER_LEN,
{
}

/// Bytes that follow an entry's declared data are not the entry's: whatever
/// is read of the open entry, much, little or nothing, the stream stays as
/// it is and the next header is parsed right behind the declared data.
pub proof fn law_trailing_bytes_wait_for_next_header(s: SourceView, room: nat)
    requires
        s.wf(),
        s.entry is Some,
    ensures
        s.read(room).wf(),
        s.read(room).stream == s.stream,
        s.read(room).next_header == s.entry.unwrap().header.data_end(),
        s.read(room).advance_result() == header_at(s.stream, s.entry.unwrap().header.data_end()),
        s.read(room).advance() == s.advance(),
        s.read(room).entry.unwrap().consumed <= s.entry.unwrap().header.uncompressed_size,
{
    law_reads_stay_within_declared_size(s.stream, s.entry.unwrap().header);
}

/// An entry is what the stream says up to the end of its declared data, and
/// nothing behind that is consulted: two streams that agree up to there
/// give the same header and the same content.
pub proof fn law_entry_depends_on_its_prefix(a: Seq<u8>, b: Seq<u8>, pos: nat, n: nat)
    requires
        n <= a.len(),
        n <= b.len(),
        a.take(n as int) == b.take(n as int),
        header_at(a, pos) matches Ok(h) && h.data_end() <= n,
    ensures
        header_at(b, pos) == header_at(a, pos),
        payload(b, header_at(a, pos).unwrap()) == payload(a, header_at(a, pos).unwrap()),
{
    let h = header_at(a, pos).unwrap();
    assert forall|i: int| 0 <= i < n implies a[i] == b[i] by {
        assert(a.take(n as int)[i] == a[i]);
        assert(b.take(n as int)[i] == b[i]);
    }
    assert(packed_part(a, h) =~= packed_part(b, h));
}

/// A header that was accepted stays accepted, the same, when more bytes
/// arrive, and so does the content of an entry that the stream held
/// whole.
pub proof fn law_arrivals_change_no_entry(stream: Seq<u8>, more: Seq<u8>, pos: nat)
    requires
        header_at(stream, pos) is Ok,
    ensures
        header_at(stream + more, pos) == header_at(stream, pos),
        payload(stream, header_at(stream, pos)->Ok_0) is Some ==> payload(
            stream + more,
            header_at(stream, pos)->Ok_0,
        ) == payload(stream, header_at(stream, pos)->Ok_0),
{
    let longer = stream + more;
    let h = header_at(stream, pos)->Ok_0;
    assert forall|i: int| 0 <= i < stream.len() implies longer[i] == stream[i] by {}
    if payload(stream, h) is Some {
        assert(packed_part(longer, h) =~= packed_part(stream, h));
    }
}

/// The entries that were opened are where they were when more bytes
/// arrive: the first `k` headers, all accepted, are the same headers at
/// the same offsets, and the next header is due at the same offset.
pub proof fn law_arrivals_keep_the_entries(stream: Seq<u8>, more: Seq<u8>, k: nat)
    requires
        forall|j: nat| j < k ==> (#[trigger] entry_header(stream, j)) is Ok,
    ensures
        forall|j: nat| j < k ==> #[trigger] entry_header(stream + more, j) == entry_header(stream, j),
        forall|j: nat| j <= k ==> #[trigger] header_offset(stream + more, j) == header_offset(stream, j),
    decreases k,
{
    if k > 0 {
        let before = (k - 1) as nat;
        law_arrivals_keep_the_entries(stream, more, before);
        assert(entry_header(stream, before) is Ok);
        law_arrivals_change_no_entry(stream, more, header_offset(stream, before));
        assert(header_offset(stream + more, before) == header_offset(stream, before));
        assert(entry_header(stream + more, before) == entry_header(stream, before));
        assert(header_offset(stream + more, k) == header_offset(stream, k));
        assert forall|j: nat| j < k implies #[trigger] entry_header(stream + more, j)
            == entry_header(stream, j) by {
            if j < before {
            }
        }
        assert forall|j: nat| j <= k implies #[trigger] header_offset(stream + more, j)
            == header_offset(stream, j) by {
            if j <= before {
            }
        }
    }
}

/// The entry that is open: a cursor into the stream that is bounded by the
/// size its header declares. It lives inside the source, and is gone when
/// the source advances.
pub struct ArchiveEntry {
    header: LocalHeader,
    consumed: usize,
    whole: bool,
    unpacked: Vec<u8>,
}

impl View for ArchiveEntry {
    type V = EntryView;

    closed spec fn view(&self) -> EntryView {
        EntryView { header: self.header@, consumed: self.consumed as nat }
    }
}

impl ArchiveEntry {
    /// The entry belongs to `stream`: it knows whether the stream holds
    /// its content, and holds what a deflated entry unpacks to.
    closed spec fn belongs_to(&self, stream: Seq<u8>) -> bool {
        &&& self.whole == (payload(stream, self.header@) is Some)
        &&& self.header.method == Compression::Deflated ==> self.unpacked@ == deliverable(
            stream,
            self.header@,
        )
    }

    /// The header that the entry was opened with.
    pub fn header(&self) -> (h: LocalHeader)
        ensures
            h@ == self@.header,
    {
        self.header
    }

    /// How many bytes of the entry have been read.
    pub fn consumed(&self) -> (n: usize)
        ensures
            n == self@.consumed,
    {
        self.consumed
    }
}

/// A forward-only reader over the bytes of an archive stream. It holds the
/// bytes of the stream that have arrived, takes more as they arrive, reads
/// them in order, and has at most one entry open. Bytes that arrive change
/// nothing of what was opened before them.
pub struct ArchiveFrameSource {
    stream: Vec<u8>,
    base: usize,
    skip: u32,
    entry: Option<ArchiveEntry>,
}

impl View for ArchiveFrameSource {
    type V = SourceView;

    closed spec fn view(&self) -> SourceView {
        SourceView {
            stream: self.stream@,
            next_header: (self.base + self.skip) as nat,
            entry: match self.entry {
                Some(e) => Some(e@),
                None => None,
            },
        }
    }
}

impl ArchiveFrameSource {
    /// The invariant of every source that this module hands out.
    pub closed spec fn wf(&self) -> bool {
        &&& self@.wf()
        &&& self.base <= self.stream@.len()
        &&& self.entry matches Some(e) ==> {
            &&& self.base == e.header.data_start
            &&& self.skip == e.header.compressed_size
            &&& e.belongs_to(self.stream@)
        }
    }

    /// A source that keeps its invariant is well-formed as mathematics.
    pub proof fn lemma_wf(&self)
        requires
            self.wf(),
        ensures
            self@.wf(),
    {
    }

    /// Opens a source over the bytes of a stream that have arrived so far,
    /// which may be none, at its first byte, with no entry open.
    pub fn open(stream: Vec<u8>) -> (s: ArchiveFrameSource)
        ensures
            s.wf(),
            s@ == SourceView::opened(stream@),
    {
        ArchiveFrameSource { stream, base: 0, skip: 0, entry: None }
    }

    /// The entry that is open, if one is.
    pub fn entry(&self) -> (e: Option<&ArchiveEntry>)
        ensures
            match e {
                Some(entry) => self@.entry == Some(entry@),
                None => self@.entry is None,
            },
    {
        self.entry.as_ref()
    }

    /// Whether a local file header's signature stands where the next header
    /// is due.
    pub fn at_local_header(&self) -> (b: bool)
        requires
            self.wf(),
        ensures
            b == has_local_signature(self@.stream, self@.next_header as int),
    {
        let len: usize = self.stream.len();
        if self.skip as usize > len || self.base > len - self.skip as usize {
            return false;
        }
        local_signature_at(self.stream.as_slice(), self.base + self.skip as usize)
    }

    /// How many bytes the stream lacks before `advance` can open the next
    /// entry with all its declared data, as far as a `usize` counts.
    pub fn wanted(&self) -> (n: usize)
        requires
            self.wf(),
        ensures
            n == if self@.wanted() <= usize::MAX {
                self@.wanted()
            } else {
                usize::MAX as nat
            },
    {
        let len: usize = self.stream.len();
        let room: usize = len - self.base;
        if self.skip as usize > room {
            let short: u64 = (self.skip as usize - room) as u64 + LOCAL_HEADER_LEN as u64;
            return if short > usize::MAX as u64 { usize::MAX } else { short as usize };
        }
        let pos: usize = self.base + self.skip as usize;
        let held: usize = len - pos;
        if held < LOCAL_HEADER_LEN {
            return LOCAL_HEADER_LEN - held;
        }
        match parse_local_header(self.stream.as_slice(), pos) {
            Err(ArchiveError::MalformedHeader) => 0,
            Err(ArchiveError::UnsupportedCompression) => 0,
            _ => {
                let name: u64 = read_le16(self.stream.as_slice(), pos + 26) as u64;
                let extra: u64 = read_le16(self.stream.as_slice(), pos + 28) as u64;
                let data: u64 = read_le32(self.stream.as_slice(), pos + 18) as u64;
                let need: u64 = LOCAL_HEADER_LEN as u64 + name + extra + data;
                if need <= held as u64 {
                    0
                } else {
                    let short: u64 = need - held as u64;
                    if short > usize::MAX as u64 { usize::MAX } else { short as usize }
                }
            },
        }
    }

    /// Takes bytes of the stream that arrived: they are put behind the
    /// bytes held, and what was opened and read stays as it is. Returns
    /// whether they were taken: a source whose open entry was cut short
    /// takes no more, since the stream was said to have ended.
    pub fn extend(&mut self, more: &[u8]) -> (taken: bool)
        requires
            old(self).wf(),
        ensures
            final(self).wf(),
            taken == old(self)@.takes_more(),
            final(self)@ == old(self)@.extend(more@),
    {
        match &self.entry {
            Some(entry) => {
                if !entry.whole {
                    return false;
                }
            },
            None => {},
        }
        let n: usize = more.len();
        let mut i: usize = 0;
        while i < n
            invariant
                0 <= i <= n,
                n == more@.len(),
                self.base == old(self).base,
                self.skip == old(self).skip,
                self.entry == old(self).entry,
                self.stream@ =~= old(self).stream@ + more@.take(i as int),
            decreases n - i,
        {
            self.stream.push(more[i]);
            i += 1;
        }
        proof {
            assert(more@.take(n as int) =~= more@);
            match old(self).entry {
                Some(entry) => {
                    let h = entry.header@;
                    let longer = old(self).stream@ + more@;
                    assert(packed_part(longer, h) =~= packed_part(old(self).stream@, h));
                },
                None => {},
            }
        }
        true
    }

    /// Closes the open entry, unread bytes and all, and opens the entry
    /// whose header stands behind the declared data of the last one. Fails
    /// as `header_at` says, and then leaves no entry open.
    pub fn advance(&mut self) -> (r: Result<LocalHeader, ArchiveError>)
        requires
            old(self).wf(),
        ensures
            final(self).wf(),
            final(self)@ == old(self)@.advance(),
            match r {
                Ok(h) => old(self)@.advance_result() == Ok::<HeaderView, ArchiveError>(h@),
                Err(e) => old(self)@.advance_result() == Err::<HeaderView, ArchiveError>(e),
            },
    {
        self.entry = None;
        let len: usize = self.stream.len();
        if self.skip as usize > len || self.base > len - self.skip as usize {
            return Err(ArchiveError::Truncated);
        }
        let pos: usize = self.base + self.skip as usize;
        match parse_local_header(self.stream.as_slice(), pos) {
            Err(e) => Err(e),
            Ok(h) => {
                let present: bool = h.compressed_size as usize <= len - h.data_start;
                let mut whole: bool = present;
                let mut unpacked: Vec<u8> = Vec::new();
                if present {
                    match h.method {
                        Compression::Stored => {},
                        Compression::Deflated => {
                            let packed = vstd::slice::slice_subrange(
                                self.stream.as_slice(),
                                h.data_start,
                                h.data_start + h.compressed_size as usize,
                            );
                            let out = inflate(packed, h.uncompressed_size as usize);
                            match accept_inflation(out, h.uncompressed_size) {
                                Some(v) => {
                                    unpacked = v;
                                },
                                None => {
                                    whole = false;
                                },
                            }
                        },
                    }
                }
                self.base = h.data_start;
                self.skip = h.compressed_size;
                self.entry = Some(ArchiveEntry { header: h, consumed: 0, whole, unpacked });
                Ok(h)
            },
        }
    }

    /// Copies unread bytes of the open entry into `buf`, as many as there
    /// are and as `buf` holds, and returns their number: 0 at the entry's
    /// end, and where no entry is open. Never hands out more than the
    /// header declared. Fails with `Truncated` once the stream has ended
    /// before the entry's declared data.
    pub fn read(&mut self, buf: &mut [u8]) -> (r: Result<usize, ArchiveError>)
        requires
            old(self).wf(),
        ensures
            final(self).wf(),
            match r {
                Ok(n) => {
                    &&& old(self)@.read_result(old(buf)@.len()) == Ok::<nat, ArchiveError>(n as nat)
                    &&& final(self)@ == old(self)@.read(old(buf)@.len())
                    &&& final(buf)@ == overlay(
                        old(buf)@,
                        0,
                        old(self)@.read_bytes(old(buf)@.len()),
                    )
                },
                Err(e) => {
                    &&& old(self)@.read_result(old(buf)@.len()) == Err::<nat, ArchiveError>(e)
                    &&& final(self)@ == old(self)@
                    &&& final(buf)@ == old(buf)@
                },
            },
    {
        let mut entry = match self.entry.take() {
            Some(entry) => entry,
            None => {
                assert(buf@ =~= overlay(buf@, 0, Seq::empty()));
                return Ok(0);
            },
        };
        let ghost before = old(self)@;
        let avail: usize = self.available(&entry);
        let rest: usize = avail - entry.consumed;
        if rest == 0 && !entry.whole {
            self.entry = Some(entry);
            return Err(ArchiveError::Truncated);
        }
        let n: usize = if buf.len() < rest { buf.len() } else { rest };
        match entry.header.method {
            Compression::Stored => {
                copy_to_front(
                    buf,
                    self.stream.as_slice(),
                    entry.header.data_start + entry.consumed,
                    n,
                );
            },
            Compression::Deflated => {
                copy_to_front(buf, entry.unpacked.as_slice(), entry.consumed, n);
            },
        }
        assert(before.read_bytes(old(buf)@.len()) =~= deliverable(
            self.stream@,
            entry.header@,
        ).subrange(entry.consumed as int, entry.consumed + n));
        entry.consumed = entry.consumed + n;
        self.entry = Some(entry);
        Ok(n)
    }

    /// Reads what is left of the open entry. Fails with `Truncated`, all
    /// that could be read being read, where the stream does not hold the
    /// entry's declared content.
    pub fn read_to_end(&mut self) -> (r: Result<Vec<u8>, ArchiveError>)
        requires
            old(self).wf(),
        ensures
            final(self).wf(),
            final(self)@ == old(self)@.read(old(self)@.pending().len()),
            match r {
                Ok(bytes) => {
                    &&& bytes@ == old(self)@.pending()
                    &&& old(self)@.entry matches Some(e) ==> payload(old(self)@.stream, e.header)
                        is Some
                },
                Err(e) => {
                    &&& e == ArchiveError::Truncated
                    &&& old(self)@.entry matches Some(e) && payload(old(self)@.stream, e.header)
                        is None
                },
            },
    {
        let mut entry = match self.entry.take() {
            Some(entry) => entry,
            None => {
                return Ok(Vec::new());
            },
        };
        let avail: usize = self.available(&entry);
        let out: Vec<u8> = match entry.header.method {
            Compression::Stored => copy_range(
                self.stream.as_slice(),
                entry.header.data_start + entry.consumed,
                entry.header.data_start + avail,
            ),
            Compression::Deflated => copy_range(entry.unpacked.as_slice(), entry.consumed, avail),
        };
        assert(out@ =~= old(self)@.pending());
        assert(old(self)@.read_bytes(old(self)@.pending().len()) =~= old(self)@.pending());
        entry.consumed = avail;
        let whole: bool = entry.whole;
        self.entry = Some(entry);
        if whole {
            Ok(out)
        } else {
            Err(ArchiveError::Truncated)
        }
    }

    /// A copy of the whole content of the open entry, read or not, without
    /// reading it; no bytes where no entry is open. Fails with `Truncated`
    /// where the stream does not hold the entry's declared content.
    pub fn content(&self) -> (r: Result<Vec<u8>, ArchiveError>)
        requires
            self.wf(),
        ensures
            match r {
                Ok(bytes) => match self@.entry {
                    Some(e) => payload(self@.stream, e.header) == Some(bytes@),
                    None => bytes@.len() == 0,
                },
                Err(e) => {
                    &&& e == ArchiveError::Truncated
                    &&& self@.entry matches Some(open) && payload(self@.stream, open.header)
                        is None
                },
            },
    {
        match &self.entry {
            None => Ok(Vec::new()),
            Some(entry) => {
                if !entry.whole {
                    return Err(ArchiveError::Truncated);
                }
                let avail: usize = self.available(entry);
                let out: Vec<u8> = match entry.header.method {
                    Compression::Stored => copy_range(
                        self.stream.as_slice(),
                        entry.header.data_start,
                        entry.header.data_start + avail,
                    ),
                    Compression::Deflated => copy_range(entry.unpacked.as_slice(), 0, avail),
                };
                assert(out@ =~= deliverable(self.stream@, entry.header@));
                Ok(out)
            },
        }
    }

    /// How many bytes an entry of this source can hand out in all.
    fn available(&self, entry: &ArchiveEntry) -> (n: usize)
        requires
            entry.belongs_to(self.stream@),
            entry@.header.fits(self.stream@),
            entry@.consumed <= deliverable(self.stream@, entry@.header).len(),
        ensures
            n == deliverable(self.stream@, entry.header@).len(),
            entry.header.method == Compression::Stored ==> entry.header.data_start + n
                <= self.stream@.len() <= usize::MAX,
            entry.header.method == Compression::Stored ==> deliverable(self.stream@, entry.header@)
                == self.stream@.subrange(
                entry.header.data_start as int,
                entry.header.data_start + n,
            ),
            entry.consumed <= n,
    {
        match entry.header.method {
            Compression::Stored => {
                let room: usize = self.stream.len() - entry.header.data_start;
                if entry.header.compressed_size as usize <= room {
                    entry.header.compressed_size as usize
                } else {
                    room
                }
            },
            Compression::Deflated => entry.unpacked.len(),
        }
    }
}

} // verus!
