//! Byte buffers shared with the networking side (`bytes::Bytes`).

use vstd::prelude::*;

verus! {

#[verifier::external_type_specification]
#[verifier::external_body]
pub struct ExBytes(bytes::Bytes);

/// The bytes that a `Bytes` buffer holds.
pub uninterp spec fn bytes_view(b: bytes::Bytes) -> Seq<u8>;

/// Calls `Bytes::from(Vec<u8>)`, which takes the vector over as the buffer's
/// contents: the result holds exactly the bytes of `v`.
#[verifier::external_body]
pub fn bytes_from_vec(v: Vec<u8>) -> (b: bytes::Bytes)
    ensures
        bytes_view(b) == v@,
{
    bytes::Bytes::from(v)
}

/// Calls `<Bytes as AsRef<[u8]>>::as_ref`, which borrows the buffer's
/// contents as a slice.
#[verifier::external_body]
pub fn bytes_as_slice(b: &bytes::Bytes) -> (s: &[u8])
    ensures
        s@ == bytes_view(*b),
{
    b.as_ref()
}

/// Specifies `<Bytes as Clone>::clone`: the clone shares the same contents.
pub assume_specification[ <bytes::Bytes as Clone>::clone ](b: &bytes::Bytes) -> (c: bytes::Bytes)
    ensures
        bytes_view(c) == bytes_view(*b),
;

/// Copies a slice into a new vector.
pub fn slice_to_vec(s: &[u8]) -> (v: Vec<u8>)
    ensures
        v@ == s@,
{
    let mut v: Vec<u8> = Vec::new();
    let mut i: usize = 0;
    while i < s.len()
        invariant
            i <= s.len(),
            v@ == s@.subrange(0, i as int),
        decreases s.len() - i,
    {
        v.push(s[i]);
        i = i + 1;
    }
    v
}

} // verus!
