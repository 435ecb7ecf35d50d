//! This application's name as it is written in UTF-16.

use vstd::prelude::*;
use crate::buffer::{bytes_view, bytes_from_vec};
use crate::text::{push_utf16_be, utf16_be};

verus! {

pub struct Name;

impl Name {
    /// "TermDJ" in UTF-16BE.
    pub fn to_bytes(self) -> (b: bytes::Bytes)
        ensures
            bytes_view(b) == utf16_be("TermDJ"@),
    {
        let mut out: Vec<u8> = Vec::new();
        push_utf16_be(&mut out, "TermDJ");
        assert(out@ =~= utf16_be("TermDJ"@));
        bytes_from_vec(out)
    }
}

} // verus!
