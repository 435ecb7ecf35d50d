//! The metadata of scanned audio files: read from ID3v2 tags through the
//! `id3` crate, or taken from ID3v1 fields.

use vstd::prelude::*;
use vstd::string::StrSliceExecFns;
use crate::rekordbox::library::model::Metadata;

verus! {

#[verifier::external_type_specification]
#[verifier::external_body]
pub struct ExId3Tag(id3::Tag);

#[verifier::external_type_specification]
#[verifier::external_body]
pub struct ExId3Frame(id3::Frame);

#[verifier::external_type_specification]
#[verifier::external_body]
pub struct ExIoErrorKind(std::io::ErrorKind);

#[derive(Debug)]
pub enum LibraryError {
    ParseError,
    FileNotFound,
    Other(std::io::ErrorKind),
}

/// What `Tag::get` answers for a tag and a frame id: its first frame with
/// that id.
pub uninterp spec fn id3_frame(t: id3::Tag, id: Seq<char>) -> Option<id3::Frame>;

/// Whether an I/O error kind is `NotFound`.
pub uninterp spec fn is_not_found(k: std::io::ErrorKind) -> bool;

/// Calls `id3::Tag::artist`, which answers the text of the tag's first
/// TPE1 frame when that frame is a text frame (`Content::Text`).
#[verifier::external_body]
fn tag_artist(tag: &id3::Tag) -> (r: Option<String>)
    ensures
        match r {
            Some(s) => frame_text_of(*tag, "TPE1"@) == Some(s@),
            None => frame_text_of(*tag, "TPE1"@) is None,
        },
{
    match tag.artist() {
        Some(s) => Some(s.to_string()),
        None => None,
    }
}

/// Calls `id3::Tag::title`, which answers the text of the tag's first
/// TIT2 frame when that frame is a text frame (`Content::Text`).
#[verifier::external_body]
fn tag_title(tag: &id3::Tag) -> (r: Option<String>)
    ensures
        match r {
            Some(s) => frame_text_of(*tag, "TIT2"@) == Some(s@),
            None => frame_text_of(*tag, "TIT2"@) is None,
        },
{
    match tag.title() {
        Some(s) => Some(s.to_string()),
        None => None,
    }
}

/// Calls `id3::Tag::album`, which answers the text of the tag's first
/// TALB frame when that frame is a text frame (`Content::Text`).
#[verifier::external_body]
fn tag_album(tag: &id3::Tag) -> (r: Option<String>)
    ensures
        match r {
            Some(s) => frame_text_of(*tag, "TALB"@) == Some(s@),
            None => frame_text_of(*tag, "TALB"@) is None,
        },
{
    match tag.album() {
        Some(s) => Some(s.to_string()),
        None => None,
    }
}

/// Calls `id3::Tag::get`; its result is named `id3_frame`.
#[verifier::external_body]
fn tag_get<'a>(tag: &'a id3::Tag, id: &str) -> (r: Option<&'a id3::Frame>)
    ensures
        match r {
            Some(f) => id3_frame(*tag, id@) == Some(*f),
            None => id3_frame(*tag, id@) is None,
        },
{
    tag.get(id)
}

/// The text of a text frame (`Content::Text`), if it is one.
pub uninterp spec fn id3_frame_text(f: id3::Frame) -> Option<Seq<char>>;

/// Calls `id3::Frame::content` and tells a text frame from the others; the
/// result is named `id3_frame_text`.
#[verifier::external_body]
fn frame_text(frame: &id3::Frame) -> (r: Option<String>)
    ensures
        match r {
            Some(s) => id3_frame_text(*frame) == Some(s@),
            None => id3_frame_text(*frame) is None,
        },
{
    match frame.content() {
        id3::Content::Text(text) => Some(text.clone()),
        _ => None,
    }
}

/// The text of the first frame of `tag` with frame id `id`, when that frame
/// is a text frame.
pub open spec fn frame_text_of(tag: id3::Tag, id: Seq<char>) -> Option<Seq<char>> {
    match id3_frame(tag, id) {
        Some(f) => id3_frame_text(f),
        None => None,
    }
}

/// Calls `==` on `std::io::ErrorKind` against `NotFound`; the result is
/// named `is_not_found`.
#[verifier::external_body]
fn io_kind_is_not_found(kind: &std::io::ErrorKind) -> (r: bool)
    ensures
        r == is_not_found(*kind),
{
    *kind == std::io::ErrorKind::NotFound
}

impl LibraryError {
    /// The library error of an I/O error kind: a missing file, or another
    /// failure.
    pub fn from_io_kind(kind: std::io::ErrorKind) -> (e: LibraryError)
        ensures
            is_not_found(kind) ==> e is FileNotFound,
            !is_not_found(kind) ==> e == LibraryError::Other(kind),
    {
        if io_kind_is_not_found(&kind) {
            LibraryError::FileNotFound
        } else {
            LibraryError::Other(kind)
        }
    }
}

// ---------------------------------------------------------------------------
// Decimal numbers

pub open spec fn is_digit(c: char) -> bool {
    '0' <= c && c <= '9'
}

pub open spec fn digit_value(c: char) -> int {
    c as int - '0' as int
}

/// The value of a string of decimal digits.
pub open spec fn decimal_value(cs: Seq<char>) -> int
    decreases cs.len(),
{
    if cs.len() == 0 {
        0
    } else {
        decimal_value(cs.drop_last()) * 10 + digit_value(cs.last())
    }
}

/// What `str::parse::<u32>` answers: an optional `+` followed by at least
/// one decimal digit and nothing else, with a value that fits in a `u32`.
pub open spec fn parse_u32(cs: Seq<char>) -> Option<u32> {
    let body = unsigned_body(cs);
    if body.len() > 0 && all_digits(body) && decimal_value(body) <= u32::MAX {
        Some(decimal_value(body) as u32)
    } else {
        None
    }
}

/// The text after an optional leading `+`.
pub open spec fn unsigned_body(cs: Seq<char>) -> Seq<char> {
    if cs.len() > 0 && cs[0] == '+' {
        cs.drop_first()
    } else {
        cs
    }
}

pub open spec fn all_digits(b: Seq<char>) -> bool {
    forall|i: int| 0 <= i < b.len() ==> is_digit(#[trigger] b[i])
}

proof fn lemma_decimal_value_nonneg(cs: Seq<char>)
    requires
        forall|i: int| 0 <= i < cs.len() ==> is_digit(#[trigger] cs[i]),
    ensures
        decimal_value(cs) >= 0,
    decreases cs.len(),
{
    if cs.len() > 0 {
        lemma_decimal_value_nonneg(cs.drop_last());
    }
}

proof fn lemma_decimal_value_grows(cs: Seq<char>, i: int)
    requires
        0 <= i <= cs.len(),
        forall|k: int| 0 <= k < cs.len() ==> is_digit(#[trigger] cs[k]),
    ensures
        decimal_value(cs.take(i)) <= decimal_value(cs),
    decreases cs.len() - i,
{
    if i < cs.len() {
        lemma_decimal_value_grows(cs, i + 1);
        assert(cs.take(i + 1).drop_last() =~= cs.take(i));
        lemma_decimal_value_nonneg(cs.take(i));
    } else {
        assert(cs.take(i) =~= cs);
    }
}

/// Parses a decimal `u32` as `str::parse::<u32>` does.
pub fn parse_decimal_u32(s: &str) -> (r: Option<u32>)
    ensures
        r == parse_u32(s@),
{
    let n = s.unicode_len();
    let mut start: usize = 0;
    if n > 0 && s.get_char(0) == '+' {
        start = 1;
    }
    let ghost body = unsigned_body(s@);
    assert(body =~= s@.skip(start as int));
    if start == n {
        return None;
    }
    let mut value: u64 = 0;
    let mut i: usize = start;
    while i < n
        invariant
            n == s@.len(),
            start <= i <= n,
            body == s@.skip(start as int),
            body == unsigned_body(s@),
            forall|k: int| 0 <= k < i - start ==> is_digit(#[trigger] body[k]),
            value == decimal_value(body.take(i - start)),
            value <= u32::MAX,
        decreases n - i,
    {
        let c = s.get_char(i);
        assert(c == body[i - start]);
        if c < '0' || c > '9' {
            assert(!is_digit(body[i - start]));
            assert(!all_digits(body));
            return None;
        }
        let d = (c as u32 - '0' as u32) as u64;
        assert(body.take(i - start + 1).drop_last() =~= body.take(i - start));
        value = value * 10 + d;
        i = i + 1;
        if value > 0xffff_ffff {
            proof {
                if all_digits(body) {
                    lemma_decimal_value_grows(body, i - start);
                }
            }
            return None;
        }
    }
    assert(body.take(n - start) =~= body);
    Some(value as u32)
}

// ---------------------------------------------------------------------------
// Tags

/// The BPM frame's text parses to a number too large to be scaled by 100.
pub open spec fn bpm_overflows(tag: id3::Tag) -> bool {
    match id3_frame(tag, "TBPM"@) {
        Some(f) => match id3_frame_text(f) {
            Some(t) => match parse_u32(t) {
                Some(v) => v * 100 > u32::MAX,
                None => false,
            },
            None => false,
        },
        None => false,
    }
}

/// The BPM of a tag times one hundred: the text of its TBPM frame, parsed.
pub open spec fn tag_bpm(tag: id3::Tag) -> Option<u32> {
    match id3_frame(tag, "TBPM"@) {
        Some(f) => match id3_frame_text(f) {
            Some(t) => match parse_u32(t) {
                Some(v) => Some((v * 100) as u32),
                None => None,
            },
            None => None,
        },
        None => None,
    }
}

pub open spec fn text_or_empty(t: Option<Seq<char>>) -> Seq<char> {
    match t {
        Some(s) => s,
        None => Seq::empty(),
    }
}

/// The beats per minute of a tag times one hundred.
fn extract_bpm(tag: &id3::Tag) -> (r: Option<u32>)
    requires
        !bpm_overflows(*tag),
    ensures
        r == tag_bpm(*tag),
{
    proof {
        reveal_strlit("TBPM");
    }
    match tag_get(tag, "TBPM") {
        Some(frame) => match frame_text(frame) {
            Some(text) => match parse_decimal_u32(text.as_str()) {
                Some(value) => Some(value * 100),
                None => None,
            },
            None => None,
        },
        None => None,
    }
}

fn text_or_default(t: Option<String>) -> (s: String)
    ensures
        s@ == text_or_empty(
            match t {
                Some(x) => Some(x@),
                None => None,
            },
        ),
{
    match t {
        Some(s) => s,
        None => {
            let s = String::new();
            s
        },
    }
}

/// The metadata of an ID3v2 tag: artist, title and album (empty where the
/// tag has none) and the BPM.
pub fn extract_id3v2(tag: id3::Tag) -> (m: Metadata)
    requires
        !bpm_overflows(tag),
    ensures
        m.artist@ == text_or_empty(frame_text_of(tag, "TPE1"@)),
        m.title@ == text_or_empty(frame_text_of(tag, "TIT2"@)),
        m.album@ == text_or_empty(frame_text_of(tag, "TALB"@)),
        m.bpm == tag_bpm(tag),
{
    Metadata {
        artist: text_or_default(tag_artist(&tag)),
        title: text_or_default(tag_title(&tag)),
        bpm: extract_bpm(&tag),
        album: text_or_default(tag_album(&tag)),
    }
}

/// The metadata of an ID3v2 tag, or `None` when its BPM is too large to be
/// scaled by 100.
pub fn try_extract_id3v2(tag: id3::Tag) -> (m: Option<Metadata>)
    ensures
        bpm_overflows(tag) <==> m is None,
        m matches Some(m) ==> m.artist@ == text_or_empty(frame_text_of(tag, "TPE1"@)) && m.title@
            == text_or_empty(frame_text_of(tag, "TIT2"@)) && m.album@ == text_or_empty(
            frame_text_of(tag, "TALB"@),
        ) && m.bpm == tag_bpm(tag),
{
    proof {
        reveal_strlit("TBPM");
    }
    let overflows = match tag_get(&tag, "TBPM") {
        Some(frame) => match frame_text(frame) {
            Some(text) => match parse_decimal_u32(text.as_str()) {
                Some(value) => value > 42949672,
                None => false,
            },
            None => false,
        },
        None => false,
    };
    if overflows {
        None
    } else {
        Some(extract_id3v2(tag))
    }
}

/// A hidden entry: its name (when it is valid UTF-8) starts with a dot.
pub fn is_hidden(file_name: Option<&str>) -> (b: bool)
    ensures
        b == (file_name matches Some(s) && s@.len() > 0 && s@[0] == '.'),
{
    match file_name {
        Some(s) => s.unicode_len() > 0 && s.get_char(0) == '.',
        None => false,
    }
}

/// An MP3 file: its extension is exactly `mp3`.
pub fn has_mp3_extension(extension: Option<&str>) -> (b: bool)
    ensures
        b == (extension matches Some(e) && e@ == seq!['m', 'p', '3']),
{
    match extension {
        Some(e) => {
            if e.unicode_len() != 3 {
                return false;
            }
            let r = e.get_char(0) == 'm' && e.get_char(1) == 'p' && e.get_char(2) == '3';
            proof {
                if r {
                    assert(e@ =~= seq!['m', 'p', '3']);
                }
            }
            r
        },
        None => false,
    }
}

/// The metadata of ID3v1 fields; ID3v1 has no BPM.
pub fn extract_id3v1(artist: String, title: String, album: String) -> (m: Metadata)
    ensures
        m.artist == artist,
        m.title == title,
        m.album == album,
        m.bpm is None,
{
    Metadata { artist, title, bpm: None, album }
}

} // verus!
