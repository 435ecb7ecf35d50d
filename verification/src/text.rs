//! Text on the wire: UTF-16 code units (big- and little-endian), UTF-8, and
//! NUL padding.

use vstd::prelude::*;
use vstd::string::StrSliceExecFns;
use vstd::utf8::{decode_utf8, valid_utf8};
use crate::wire::{be16, le16_value, be16_value, push_be16, push_le16};

verus! {

// ---------------------------------------------------------------------------
// UTF-16 (specification)

/// The UTF-16 code units of one character.
pub open spec fn utf16_units(c: char) -> Seq<u16> {
    let u = c as u32;
    if u < 0x1_0000 {
        seq![u as u16]
    } else {
        seq![
            (0xD800 + (u - 0x1_0000) / 0x400) as u16,
            (0xDC00 + (u - 0x1_0000) % 0x400) as u16,
        ]
    }
}

/// The UTF-16 code units of a character sequence (what `str::encode_utf16`
/// yields).
pub open spec fn encode_utf16(cs: Seq<char>) -> Seq<u16>
    decreases cs.len(),
{
    if cs.len() == 0 {
        Seq::empty()
    } else {
        encode_utf16(cs.drop_last()) + utf16_units(cs.last())
    }
}

/// Code units laid out big-endian, two bytes each.
pub open spec fn units_be(us: Seq<u16>) -> Seq<u8>
    decreases us.len(),
{
    if us.len() == 0 {
        Seq::empty()
    } else {
        units_be(us.drop_last()) + be16(us.last())
    }
}

/// Code units laid out little-endian, two bytes each.
pub open spec fn units_le(us: Seq<u16>) -> Seq<u8>
    decreases us.len(),
{
    if us.len() == 0 {
        Seq::empty()
    } else {
        units_le(us.drop_last()) + seq![(us.last() % 256) as u8, (us.last() / 256) as u8]
    }
}

/// The UTF-16BE bytes of a text.
pub open spec fn utf16_be(cs: Seq<char>) -> Seq<u8> {
    units_be(encode_utf16(cs))
}

/// The UTF-16LE bytes of a text.
pub open spec fn utf16_le(cs: Seq<char>) -> Seq<u8> {
    units_le(encode_utf16(cs))
}

pub open spec fn is_high_surrogate(u: u16) -> bool {
    0xD800 <= u < 0xDC00
}

pub open spec fn is_low_surrogate(u: u16) -> bool {
    0xDC00 <= u < 0xE000
}

/// The character that a surrogate pair stands for.
pub open spec fn pair_scalar(hi: u16, lo: u16) -> u32 {
    (0x1_0000 + (hi - 0xD800) * 0x400 + (lo - 0xDC00)) as u32
}

/// Decoding of UTF-16 code units, as `String::from_utf16` does it: `None`
/// where a surrogate is unpaired.
pub open spec fn decode_utf16(us: Seq<u16>) -> Option<Seq<char>>
    decreases us.len(),
{
    if us.len() == 0 {
        Some(Seq::empty())
    } else if !is_high_surrogate(us[0]) && !is_low_surrogate(us[0]) {
        match decode_utf16(us.drop_first()) {
            Some(r) => Some(seq![(us[0] as u32) as char] + r),
            None => None,
        }
    } else if is_high_surrogate(us[0]) && us.len() >= 2 && is_low_surrogate(us[1]) {
        match decode_utf16(us.subrange(2, us.len() as int)) {
            Some(r) => Some(seq![pair_scalar(us[0], us[1]) as char] + r),
            None => None,
        }
    } else {
        None
    }
}

/// Big-endian byte pairs read as code units.
pub open spec fn be_units(b: Seq<u8>) -> Seq<u16>
    recommends
        b.len() % 2 == 0,
{
    Seq::new(b.len() / 2, |i: int| be16_value(b[2 * i], b[2 * i + 1]))
}

/// Little-endian byte pairs read as code units.
pub open spec fn le_units(b: Seq<u8>) -> Seq<u16>
    recommends
        b.len() % 2 == 0,
{
    Seq::new(b.len() / 2, |i: int| le16_value(b[2 * i], b[2 * i + 1]))
}

/// A text with its trailing NUL characters removed.
pub open spec fn trim_nul_end(cs: Seq<char>) -> Seq<char>
    decreases cs.len(),
{
    if cs.len() > 0 && cs.last() == '\0' {
        trim_nul_end(cs.drop_last())
    } else {
        cs
    }
}

// ---------------------------------------------------------------------------
// Facts

pub proof fn lemma_units_be_append(a: Seq<u16>, b: Seq<u16>)
    ensures
        units_be(a + b) == units_be(a) + units_be(b),
    decreases b.len(),
{
    if b.len() == 0 {
        assert(a + b =~= a);
        assert(units_be(b) =~= Seq::<u8>::empty());
        assert(units_be(a) + units_be(b) =~= units_be(a));
    } else {
        lemma_units_be_append(a, b.drop_last());
        assert((a + b).drop_last() =~= a + b.drop_last());
        assert(units_be(a + b) =~= units_be(a) + units_be(b));
    }
}

pub proof fn lemma_units_le_append(a: Seq<u16>, b: Seq<u16>)
    ensures
        units_le(a + b) == units_le(a) + units_le(b),
    decreases b.len(),
{
    if b.len() == 0 {
        assert(a + b =~= a);
        assert(units_le(b) =~= Seq::<u8>::empty());
        assert(units_le(a) + units_le(b) =~= units_le(a));
    } else {
        lemma_units_le_append(a, b.drop_last());
        assert((a + b).drop_last() =~= a + b.drop_last());
        assert(units_le(a + b) =~= units_le(a) + units_le(b));
    }
}

pub proof fn lemma_units_be_len(us: Seq<u16>)
    ensures
        units_be(us).len() == 2 * us.len(),
    decreases us.len(),
{
    if us.len() > 0 {
        lemma_units_be_len(us.drop_last());
    }
}

pub proof fn lemma_units_le_len(us: Seq<u16>)
    ensures
        units_le(us).len() == 2 * us.len(),
    decreases us.len(),
{
    if us.len() > 0 {
        lemma_units_le_len(us.drop_last());
    }
}

pub proof fn lemma_units_be_small(a: u16, b: u16)
    ensures
        units_be(seq![a]) == be16(a),
        units_be(seq![a, b]) == be16(a) + be16(b),
{
    assert(seq![a].drop_last() =~= Seq::<u16>::empty());
    assert(seq![a, b].drop_last() =~= seq![a]);
    assert(units_be(Seq::<u16>::empty()) + be16(a) =~= be16(a));
    assert(units_be(seq![a]) + be16(b) =~= be16(a) + be16(b));
}

pub proof fn lemma_units_le_small(a: u16, b: u16)
    ensures
        units_le(seq![a]) == seq![(a % 256) as u8, (a / 256) as u8],
        units_le(seq![a, b]) == seq![(a % 256) as u8, (a / 256) as u8, (b % 256) as u8, (b / 256) as u8],
{
    assert(seq![a].drop_last() =~= Seq::<u16>::empty());
    assert(seq![a, b].drop_last() =~= seq![a]);
    assert(units_le(Seq::<u16>::empty()) + seq![(a % 256) as u8, (a / 256) as u8] =~= seq![(a % 256) as u8, (a / 256) as u8]);
    assert(units_le(seq![a]) + seq![(b % 256) as u8, (b / 256) as u8] =~= seq![(a % 256) as u8, (a / 256) as u8, (b % 256) as u8, (b / 256) as u8]);
}

pub proof fn lemma_encode_utf16_step(cs: Seq<char>, i: int)
    requires
        0 <= i < cs.len(),
    ensures
        encode_utf16(cs.take(i + 1)) == encode_utf16(cs.take(i)) + utf16_units(cs[i]),
{
    assert(cs.take(i + 1).drop_last() =~= cs.take(i));
}

/// Reading the big-endian bytes of code units back gives the code units.
pub proof fn lemma_be_units_of_units_be(us: Seq<u16>)
    ensures
        be_units(units_be(us)) == us,
    decreases us.len(),
{
    lemma_units_be_len(us);
    if us.len() > 0 {
        lemma_be_units_of_units_be(us.drop_last());
        lemma_units_be_len(us.drop_last());
        let b = units_be(us);
        let n = us.len() - 1;
        assert forall|i: int| 0 <= i < us.len() implies #[trigger] be_units(b)[i] == us[i] by {
            if i < n {
                assert(be_units(units_be(us.drop_last()))[i] == us.drop_last()[i]);
            } else {
                crate::wire::lemma_be16_roundtrip(us.last());
            }
        }
        assert(be_units(b) =~= us);
    }
}

/// Reading the little-endian bytes of code units back gives the code units.
pub proof fn lemma_le_units_of_units_le(us: Seq<u16>)
    ensures
        le_units(units_le(us)) == us,
    decreases us.len(),
{
    lemma_units_le_len(us);
    if us.len() > 0 {
        lemma_le_units_of_units_le(us.drop_last());
        lemma_units_le_len(us.drop_last());
        let b = units_le(us);
        let n = us.len() - 1;
        assert forall|i: int| 0 <= i < us.len() implies #[trigger] le_units(b)[i] == us[i] by {
            if i < n {
                assert(le_units(units_le(us.drop_last()))[i] == us.drop_last()[i]);
            } else {
                crate::wire::lemma_le16_roundtrip(us.last());
            }
        }
        assert(le_units(b) =~= us);
    }
}

// ---------------------------------------------------------------------------
// Trusted conversions of std

/// Calls `String::from_utf8`, which std documents as succeeding exactly on
/// valid UTF-8 and then holding the characters that the bytes encode.
#[verifier::external_body]
pub fn string_from_utf8(v: Vec<u8>) -> (r: Option<String>)
    ensures
        r is Some <==> valid_utf8(v@),
        r matches Some(s) ==> s@ == decode_utf8(v@),
{
    String::from_utf8(v).ok()
}

/// Calls `<String as FromIterator<char>>::from_iter` on the characters of
/// `cs`, which builds the string holding exactly those characters in order.
#[verifier::external_body]
pub fn string_from_chars(cs: &Vec<char>) -> (s: String)
    ensures
        s@ == cs@,
{
    cs.iter().collect::<String>()
}

/// Calls `char::from_u32`, which std documents as giving the character with
/// that scalar value when the value is a Unicode scalar (not a surrogate, at
/// most 0x10FFFF).
#[verifier::external_body]
pub fn char_from_scalar(u: u32) -> (c: char)
    requires
        u < 0xD800 || (0xE000 <= u && u <= 0x10FFFF),
    ensures
        c == u as char,
        c as u32 == u,
{
    char::from_u32(u).unwrap()
}

// ---------------------------------------------------------------------------
// Code

/// Appends the UTF-16BE encoding of `s`.
pub fn push_utf16_be(out: &mut Vec<u8>, s: &str)
    ensures
        final(out)@ == old(out)@ + utf16_be(s@),
{
    let n = s.unicode_len();
    let mut i: usize = 0;
    while i < n
        invariant
            n == s@.len(),
            i <= n,
            out@ == old(out)@ + units_be(encode_utf16(s@.take(i as int))),
        decreases n - i,
    {
        let c = s.get_char(i);
        let u = c as u32;
        let ghost before = encode_utf16(s@.take(i as int));
        proof {
            lemma_encode_utf16_step(s@, i as int);
            lemma_units_be_append(before, utf16_units(c));
        }
        if u < 0x1_0000 {
            push_be16(out, u as u16);
            proof {
                assert(utf16_units(c) == seq![u as u16]);
                lemma_units_be_small(u as u16, 0);
            }
        } else {
            let v = u - 0x1_0000;
            let hi = (0xD800 + v / 0x400) as u16;
            let lo = (0xDC00 + v % 0x400) as u16;
            push_be16(out, hi);
            push_be16(out, lo);
            proof {
                assert(utf16_units(c) == seq![hi, lo]);
                lemma_units_be_small(hi, lo);
            }
        }
        i = i + 1;
        assert(out@ =~= old(out)@ + units_be(encode_utf16(s@.take(i as int))));
    }
    assert(s@.take(n as int) =~= s@);
}

/// Appends the UTF-16LE encoding of `s`.
pub fn push_utf16_le(out: &mut Vec<u8>, s: &str)
    ensures
        final(out)@ == old(out)@ + utf16_le(s@),
{
    let n = s.unicode_len();
    let mut i: usize = 0;
    while i < n
        invariant
            n == s@.len(),
            i <= n,
            out@ == old(out)@ + units_le(encode_utf16(s@.take(i as int))),
        decreases n - i,
    {
        let c = s.get_char(i);
        let u = c as u32;
        let ghost before = encode_utf16(s@.take(i as int));
        proof {
            lemma_encode_utf16_step(s@, i as int);
            lemma_units_le_append(before, utf16_units(c));
        }
        if u < 0x1_0000 {
            push_le16(out, u as u16);
            proof {
                assert(utf16_units(c) == seq![u as u16]);
                lemma_units_le_small(u as u16, 0);
            }
        } else {
            let v = u - 0x1_0000;
            let hi = (0xD800 + v / 0x400) as u16;
            let lo = (0xDC00 + v % 0x400) as u16;
            push_le16(out, hi);
            push_le16(out, lo);
            proof {
                assert(utf16_units(c) == seq![hi, lo]);
                lemma_units_le_small(hi, lo);
                assert(old(out)@ + units_le(before) + seq![(hi % 256) as u8, (hi / 256) as u8] + seq![(lo % 256) as u8, (lo / 256) as u8] =~= old(out)@ + units_le(before) + units_le(utf16_units(c)));
            }
        }
        i = i + 1;
        assert(out@ =~= old(out)@ + units_le(encode_utf16(s@.take(i as int))));
    }
    assert(s@.take(n as int) =~= s@);
}

/// The number of UTF-16 code units of `s`.
pub fn utf16_len(s: &str) -> (n: u128)
    ensures
        n == encode_utf16(s@).len(),
        n <= 2 * (usize::MAX as int),
{
    let m = s.unicode_len();
    let mut i: usize = 0;
    let mut n: u128 = 0;
    while i < m
        invariant
            m == s@.len(),
            i <= m,
            n == encode_utf16(s@.take(i as int)).len(),
            n <= 2 * i,
        decreases m - i,
    {
        let c = s.get_char(i);
        proof {
            lemma_encode_utf16_step(s@, i as int);
        }
        if (c as u32) < 0x1_0000 {
            n = n + 1;
        } else {
            n = n + 2;
        }
        i = i + 1;
    }
    assert(s@.take(m as int) =~= s@);
    n
}

pub proof fn lemma_encode_utf16_prefix_len(cs: Seq<char>, i: int)
    requires
        0 <= i <= cs.len(),
    ensures
        encode_utf16(cs.take(i)).len() <= encode_utf16(cs).len(),
    decreases cs.len() - i,
{
    if i < cs.len() {
        lemma_encode_utf16_step(cs, i);
        lemma_encode_utf16_prefix_len(cs, i + 1);
    } else {
        assert(cs.take(i) =~= cs);
    }
}

/// Decodes UTF-16 code units into characters, as `String::from_utf16` does.
pub fn decode_utf16_units(us: &Vec<u16>) -> (r: Option<String>)
    ensures
        match (r, decode_utf16(us@)) {
            (Some(s), Some(cs)) => s@ == cs,
            (None, None) => true,
            _ => false,
        },
{
    let mut chars: Vec<char> = Vec::new();
    let mut i: usize = 0;
    assert(us@.skip(0) =~= us@);
    proof {
        match decode_utf16(us@) {
            Some(r) => {
                assert(chars@ + r =~= r);
            },
            None => {},
        }
    }
    while i < us.len()
        invariant
            i <= us.len(),
            decode_utf16(us@) == match decode_utf16(us@.skip(i as int)) {
                Some(r) => Some(chars@ + r),
                None => None,
            },
        decreases us.len() - i,
    {
        let u = us[i];
        let ghost rest = us@.skip(i as int);
        let ghost before = chars@;
        assert(rest[0] == u);
        if u < 0xD800 || u >= 0xE000 {
            let c = char_from_scalar(u as u32);
            assert(rest.drop_first() =~= us@.skip(i + 1));
            chars.push(c);
            proof {
                match decode_utf16(us@.skip(i + 1)) {
                    Some(r) => {
                        assert(before + (seq![c] + r) =~= chars@ + r);
                    },
                    None => {},
                }
            }
            i = i + 1;
        } else if u < 0xDC00 && i + 1 < us.len() && us[i + 1] >= 0xDC00 && us[i + 1] < 0xE000 {
            let lo = us[i + 1];
            assert(rest[1] == lo);
            let scalar: u32 = 0x1_0000 + ((u - 0xD800) as u32) * 0x400 + ((lo - 0xDC00) as u32);
            assert(scalar == pair_scalar(u, lo));
            let c = char_from_scalar(scalar);
            assert(rest.subrange(2, rest.len() as int) =~= us@.skip(i + 2));
            chars.push(c);
            proof {
                match decode_utf16(us@.skip(i + 2)) {
                    Some(r) => {
                        assert(before + (seq![c] + r) =~= chars@ + r);
                    },
                    None => {},
                }
            }
            i = i + 2;
        } else {
            return None;
        }
    }
    assert(us@.skip(i as int) =~= Seq::<u16>::empty());
    assert(chars@ + Seq::<char>::empty() =~= chars@);
    Some(string_from_chars(&chars))
}

/// Reads `n` big-endian code units starting at `p`.
pub fn read_be_units(s: &[u8], p: usize, n: usize) -> (us: Vec<u16>)
    requires
        p + 2 * n <= s@.len(),
    ensures
        us@ == be_units(s@.subrange(p as int, p + 2 * n)),
{
    let mut us: Vec<u16> = Vec::new();
    let mut i: usize = 0;
    let mut j: usize = p;
    let ghost b = s@.subrange(p as int, p + 2 * n);
    while i < n
        invariant
            i <= n,
            j == p + 2 * i,
            p + 2 * n <= s@.len(),
            b == s@.subrange(p as int, p + 2 * n),
            us@ == be_units(b).take(i as int),
        decreases n - i,
    {
        let v: u16 = (s[j] as u16) * 256 + (s[j + 1] as u16);
        us.push(v);
        i = i + 1;
        j = j + 2;
        assert(us@ =~= be_units(b).take(i as int));
    }
    assert(be_units(b).take(n as int) =~= be_units(b));
    us
}

/// Reads `n` little-endian code units starting at `p`.
pub fn read_le_units(s: &[u8], p: usize, n: usize) -> (us: Vec<u16>)
    requires
        p + 2 * n <= s@.len(),
    ensures
        us@ == le_units(s@.subrange(p as int, p + 2 * n)),
{
    let mut us: Vec<u16> = Vec::new();
    let mut i: usize = 0;
    let mut j: usize = p;
    let ghost b = s@.subrange(p as int, p + 2 * n);
    while i < n
        invariant
            i <= n,
            j == p + 2 * i,
            p + 2 * n <= s@.len(),
            b == s@.subrange(p as int, p + 2 * n),
            us@ == le_units(b).take(i as int),
        decreases n - i,
    {
        let slen = s.len();
        assert(j + 1 < slen);
        let hi_byte = s[j + 1];
        let lo_byte = s[j];
        let v: u16 = (hi_byte as u16) * 256 + (lo_byte as u16);
        us.push(v);
        i = i + 1;
        j = j + 2;
        assert(us@ =~= le_units(b).take(i as int));
    }
    assert(le_units(b).take(n as int) =~= le_units(b));
    us
}

/// Removes the trailing NUL characters of `s` (as `trim_end_matches('\0')`).
pub fn trim_nul(s: &str) -> (r: String)
    ensures
        r@ == trim_nul_end(s@),
{
    let mut n = s.unicode_len();
    assert(s@.take(n as int) =~= s@);
    while n > 0 && s.get_char(n - 1) == '\0'
        invariant
            n <= s@.len(),
            trim_nul_end(s@) == trim_nul_end(s@.take(n as int)),
        decreases n,
    {
        assert(s@.take(n as int).drop_last() =~= s@.take(n - 1));
        n = n - 1;
    }
    assert(s@.take(n as int) =~= s@.subrange(0, n as int));
    s.substring_char(0, n).to_owned()
}

} // verus!
