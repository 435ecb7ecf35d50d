//! Big-endian wire primitives: the readers that the packet decoders are built
//! from, the writers that the encoders are built from, and the facts that tie
//! the two together.
//!
//! A reader takes the whole input and an offset into it, and answers either
//! the value read and the offset just after it, or the error with the offset at
//! which reading failed.

use vstd::prelude::*;

verus! {

/// Why a decoder stopped.
#[derive(Debug, PartialEq, Eq, Clone, Copy)]
pub enum ErrorKind {
    /// The input ended before the value did.
    Eof,
    /// A fixed marker did not match.
    Tag,
    /// A discriminant had no known meaning.
    Switch,
    /// A value could not be converted (for instance invalid text).
    MapRes,
}

/// A decoding failure: what went wrong and at which offset of the input.
#[derive(Debug, PartialEq, Eq, Clone, Copy)]
pub struct ParseError {
    pub kind: ErrorKind,
    pub position: usize,
}

impl ParseError {
    pub fn new(kind: ErrorKind, position: usize) -> (e: ParseError)
        ensures
            e == (ParseError { kind, position }),
    {
        ParseError { kind, position }
    }
}

/// The outcome of a reader: the value and the offset after it.
pub type PResult<T> = Result<(T, usize), ParseError>;

pub open spec fn fail<T>(kind: ErrorKind, position: usize) -> PResult<T> {
    Err(ParseError { kind, position })
}

/// An outcome of a reader agrees with an outcome of its specification: the
/// same value (by view) and offset, or the same error.
pub open spec fn agrees<T: View>(r: PResult<T>, m: PResult<T::V>) -> bool {
    match (r, m) {
        (Ok((v, q)), Ok((w, q2))) => v@ == w && q == q2,
        (Err(e), Err(e2)) => e == e2,
        _ => false,
    }
}

// ---------------------------------------------------------------------------
// Values of byte groups

pub open spec fn be16_value(a: u8, b: u8) -> u16 {
    (a as int * 256 + b as int) as u16
}

pub open spec fn le16_value(a: u8, b: u8) -> u16 {
    (b as int * 256 + a as int) as u16
}

pub open spec fn be32_value(a: u8, b: u8, c: u8, d: u8) -> u32 {
    (a as int * 0x100_0000 + b as int * 0x1_0000 + c as int * 0x100 + d as int) as u32
}

pub open spec fn be64_value(hi: u32, lo: u32) -> u64 {
    (hi as int * 0x1_0000_0000 + lo as int) as u64
}

/// The big-endian encoding of a `u16`.
pub open spec fn be16(x: u16) -> Seq<u8> {
    seq![(x / 256) as u8, (x % 256) as u8]
}

/// The big-endian encoding of a `u32`.
pub open spec fn be32(x: u32) -> Seq<u8> {
    seq![
        (x / 0x100_0000) as u8,
        ((x / 0x1_0000) % 256) as u8,
        ((x / 0x100) % 256) as u8,
        (x % 256) as u8,
    ]
}

/// The big-endian encoding of a `u64`.
pub open spec fn be64(x: u64) -> Seq<u8> {
    be32((x / 0x1_0000_0000) as u32) + be32((x % 0x1_0000_0000) as u32)
}

/// `n` zero bytes.
pub open spec fn zeros(n: nat) -> Seq<u8> {
    Seq::new(n, |i: int| 0u8)
}

// ---------------------------------------------------------------------------
// Readers (specification)

pub open spec fn spec_u8(s: Seq<u8>, p: usize) -> PResult<u8> {
    if p < s.len() {
        Ok((s[p as int], (p + 1) as usize))
    } else {
        fail(ErrorKind::Eof, p)
    }
}

pub open spec fn spec_be_u16(s: Seq<u8>, p: usize) -> PResult<u16> {
    if p + 2 <= s.len() {
        Ok((be16_value(s[p as int], s[p + 1]), (p + 2) as usize))
    } else {
        fail(ErrorKind::Eof, p)
    }
}

pub open spec fn spec_le_u16(s: Seq<u8>, p: usize) -> PResult<u16> {
    if p + 2 <= s.len() {
        Ok((le16_value(s[p as int], s[p + 1]), (p + 2) as usize))
    } else {
        fail(ErrorKind::Eof, p)
    }
}

pub open spec fn spec_be_u32(s: Seq<u8>, p: usize) -> PResult<u32> {
    if p + 4 <= s.len() {
        Ok((be32_value(s[p as int], s[p + 1], s[p + 2], s[p + 3]), (p + 4) as usize))
    } else {
        fail(ErrorKind::Eof, p)
    }
}

pub open spec fn spec_be_u64(s: Seq<u8>, p: usize) -> PResult<u64> {
    if p + 8 <= s.len() {
        Ok((
            be64_value(
                be32_value(s[p as int], s[p + 1], s[p + 2], s[p + 3]),
                be32_value(s[p + 4], s[p + 5], s[p + 6], s[p + 7]),
            ),
            (p + 8) as usize,
        ))
    } else {
        fail(ErrorKind::Eof, p)
    }
}

/// Takes `n` bytes.
pub open spec fn spec_take(s: Seq<u8>, p: usize, n: usize) -> PResult<Seq<u8>> {
    if p + n <= s.len() {
        Ok((s.subrange(p as int, p + n), (p + n) as usize))
    } else {
        fail(ErrorKind::Eof, p)
    }
}

/// Matches the fixed bytes `t`.
pub open spec fn spec_tag(s: Seq<u8>, p: usize, t: Seq<u8>) -> PResult<()> {
    if p + t.len() <= s.len() && s.subrange(p as int, p + t.len()) == t {
        Ok(((), (p + t.len()) as usize))
    } else {
        fail(ErrorKind::Tag, p)
    }
}

// ---------------------------------------------------------------------------
// Readers (code)

pub fn read_u8(s: &[u8], p: usize) -> (r: PResult<u8>)
    ensures
        r == spec_u8(s@, p),
{
    if p < s.len() {
        Ok((s[p], p + 1))
    } else {
        Err(ParseError::new(ErrorKind::Eof, p))
    }
}

pub fn read_be_u16(s: &[u8], p: usize) -> (r: PResult<u16>)
    ensures
        r == spec_be_u16(s@, p),
{
    if p <= s.len() && s.len() - p >= 2 {
        let v: u16 = (s[p] as u16) * 256 + (s[p + 1] as u16);
        Ok((v, p + 2))
    } else {
        Err(ParseError::new(ErrorKind::Eof, p))
    }
}

pub fn read_le_u16(s: &[u8], p: usize) -> (r: PResult<u16>)
    ensures
        r == spec_le_u16(s@, p),
{
    if p <= s.len() && s.len() - p >= 2 {
        let v: u16 = (s[p + 1] as u16) * 256 + (s[p] as u16);
        Ok((v, p + 2))
    } else {
        Err(ParseError::new(ErrorKind::Eof, p))
    }
}

pub fn read_be_u32(s: &[u8], p: usize) -> (r: PResult<u32>)
    ensures
        r == spec_be_u32(s@, p),
{
    if p <= s.len() && s.len() - p >= 4 {
        let v: u32 = (s[p] as u32) * 0x100_0000 + (s[p + 1] as u32) * 0x1_0000 + (s[p + 2] as u32)
            * 0x100 + (s[p + 3] as u32);
        Ok((v, p + 4))
    } else {
        Err(ParseError::new(ErrorKind::Eof, p))
    }
}

pub fn read_be_u64(s: &[u8], p: usize) -> (r: PResult<u64>)
    ensures
        r == spec_be_u64(s@, p),
{
    if p <= s.len() && s.len() - p >= 8 {
        let (hi, q) = match read_be_u32(s, p) {
            Ok(v) => v,
            Err(e) => { return Err(e); },
        };
        let (lo, q) = match read_be_u32(s, q) {
            Ok(v) => v,
            Err(e) => { return Err(e); },
        };
        let v: u64 = (hi as u64) * 0x1_0000_0000 + (lo as u64);
        Ok((v, q))
    } else {
        Err(ParseError::new(ErrorKind::Eof, p))
    }
}

pub fn take_bytes(s: &[u8], p: usize, n: usize) -> (r: PResult<Vec<u8>>)
    ensures
        match (r, spec_take(s@, p, n)) {
            (Ok((v, q)), Ok((w, q2))) => v@ == w && q == q2,
            (Err(e), Err(e2)) => e == e2,
            _ => false,
        },
{
    if p <= s.len() && s.len() - p >= n {
        let v = vstd::slice::slice_to_vec(vstd::slice::slice_subrange(s, p, p + n));
        Ok((v, p + n))
    } else {
        Err(ParseError::new(ErrorKind::Eof, p))
    }
}

pub fn match_tag(s: &[u8], p: usize, t: &[u8]) -> (r: PResult<()>)
    ensures
        r == spec_tag(s@, p, t@),
{
    if p <= s.len() && s.len() - p >= t.len() {
        let mut i: usize = 0;
        while i < t.len()
            invariant
                i <= t.len(),
                p + t.len() <= s.len(),
                forall|j: int| 0 <= j < i ==> s@[p + j] == t@[j],
            decreases t.len() - i,
        {
            if s[p + i] != t[i] {
                assert(s@.subrange(p as int, p + t@.len())[i as int] != t@[i as int]);
                return Err(ParseError::new(ErrorKind::Tag, p));
            }
            i = i + 1;
        }
        assert(s@.subrange(p as int, p + t@.len()) =~= t@);
        Ok(((), p + t.len()))
    } else {
        Err(ParseError::new(ErrorKind::Tag, p))
    }
}

/// The part of the input from `p` on.
pub fn rest_of(s: &[u8], p: usize) -> (r: &[u8])
    requires
        p <= s.len(),
    ensures
        r@ == s@.subrange(p as int, s@.len() as int),
{
    vstd::slice::slice_subrange(s, p, s.len())
}

// ---------------------------------------------------------------------------
// Writers

pub fn push_u8(out: &mut Vec<u8>, x: u8)
    ensures
        final(out)@ == old(out)@.push(x),
{
    out.push(x);
}

pub fn push_be16(out: &mut Vec<u8>, x: u16)
    ensures
        final(out)@ == old(out)@ + be16(x),
{
    out.push((x / 256) as u8);
    out.push((x % 256) as u8);
    assert(out@ =~= old(out)@ + be16(x));
}

pub fn push_le16(out: &mut Vec<u8>, x: u16)
    ensures
        final(out)@ == old(out)@ + seq![(x % 256) as u8, (x / 256) as u8],
{
    out.push((x % 256) as u8);
    out.push((x / 256) as u8);
}

pub fn push_be32(out: &mut Vec<u8>, x: u32)
    ensures
        final(out)@ == old(out)@ + be32(x),
{
    out.push((x / 0x100_0000) as u8);
    out.push(((x / 0x1_0000) % 256) as u8);
    out.push(((x / 0x100) % 256) as u8);
    out.push((x % 256) as u8);
    assert(out@ =~= old(out)@ + be32(x));
}

pub fn push_be64(out: &mut Vec<u8>, x: u64)
    ensures
        final(out)@ == old(out)@ + be64(x),
{
    push_be32(out, (x / 0x1_0000_0000) as u32);
    push_be32(out, (x % 0x1_0000_0000) as u32);
    assert(out@ =~= old(out)@ + be64(x));
}

pub fn push_slice(out: &mut Vec<u8>, s: &[u8])
    ensures
        final(out)@ == old(out)@ + s@,
{
    let mut i: usize = 0;
    while i < s.len()
        invariant
            i <= s.len(),
            out@ == old(out)@ + s@.subrange(0, i as int),
        decreases s.len() - i,
    {
        out.push(s[i]);
        i = i + 1;
        assert(out@ =~= old(out)@ + s@.subrange(0, i as int));
    }
    assert(s@.subrange(0, s@.len() as int) =~= s@);
}

pub fn push_zeros(out: &mut Vec<u8>, n: usize)
    ensures
        final(out)@ == old(out)@ + zeros(n as nat),
{
    let mut i: usize = 0;
    while i < n
        invariant
            i <= n,
            out@ == old(out)@ + zeros(i as nat),
        decreases n - i,
    {
        out.push(0u8);
        i = i + 1;
        assert(out@ =~= old(out)@ + zeros(i as nat));
    }
}

// ---------------------------------------------------------------------------
// Facts

/// Reading back a written `u16` gives the value.
pub proof fn lemma_be16_roundtrip(x: u16)
    ensures
        be16_value(be16(x)[0], be16(x)[1]) == x,
        be16(x).len() == 2,
{
}

/// Reading back a written little-endian `u16` gives the value.
pub proof fn lemma_le16_roundtrip(x: u16)
    ensures
        le16_value((x % 256) as u8, (x / 256) as u8) == x,
{
}

/// Reading back a written `u32` gives the value.
pub proof fn lemma_be32_roundtrip(x: u32)
    ensures
        be32_value(be32(x)[0], be32(x)[1], be32(x)[2], be32(x)[3]) == x,
        be32(x).len() == 4,
{
}

/// Reading back a written `u64` gives the value.
pub proof fn lemma_be64_roundtrip(x: u64)
    ensures
        be64(x).len() == 8,
        be64_value(
            be32_value(be64(x)[0], be64(x)[1], be64(x)[2], be64(x)[3]),
            be32_value(be64(x)[4], be64(x)[5], be64(x)[6], be64(x)[7]),
        ) == x,
{
    lemma_be32_roundtrip((x / 0x1_0000_0000) as u32);
    lemma_be32_roundtrip((x % 0x1_0000_0000) as u32);
}

/// Writing back a read `u16` gives the bytes.
pub proof fn lemma_be16_from_bytes(a: u8, b: u8)
    ensures
        be16(be16_value(a, b)) == seq![a, b],
{
    assert(be16(be16_value(a, b)) =~= seq![a, b]);
}

/// Writing back a read `u32` gives the bytes.
pub proof fn lemma_be32_from_bytes(a: u8, b: u8, c: u8, d: u8)
    ensures
        be32(be32_value(a, b, c, d)) == seq![a, b, c, d],
{
    let v: int = a as int * 0x100_0000 + b as int * 0x1_0000 + c as int * 0x100 + d as int;
    assert(0 <= v < 0x1_0000_0000) by (nonlinear_arith)
        requires
            v == a as int * 0x100_0000 + b as int * 0x1_0000 + c as int * 0x100 + d as int,
            0 <= a < 256,
            0 <= b < 256,
            0 <= c < 256,
            0 <= d < 256,
    ;
    assert(v / 0x100_0000 == a) by (nonlinear_arith)
        requires
            v == a as int * 0x100_0000 + b as int * 0x1_0000 + c as int * 0x100 + d as int,
            0 <= b < 256,
            0 <= c < 256,
            0 <= d < 256,
    ;
    assert((v / 0x1_0000) % 256 == b) by (nonlinear_arith)
        requires
            v == a as int * 0x100_0000 + b as int * 0x1_0000 + c as int * 0x100 + d as int,
            0 <= a < 256,
            0 <= b < 256,
            0 <= c < 256,
            0 <= d < 256,
    ;
    assert((v / 0x100) % 256 == c) by (nonlinear_arith)
        requires
            v == a as int * 0x100_0000 + b as int * 0x1_0000 + c as int * 0x100 + d as int,
            0 <= a < 256,
            0 <= b < 256,
            0 <= c < 256,
            0 <= d < 256,
    ;
    assert(v % 256 == d) by (nonlinear_arith)
        requires
            v == a as int * 0x100_0000 + b as int * 0x1_0000 + c as int * 0x100 + d as int,
            0 <= a < 256,
            0 <= b < 256,
            0 <= c < 256,
            0 <= d < 256,
    ;
    assert(be32(be32_value(a, b, c, d)) =~= seq![a, b, c, d]);
}

} // verus!
