//! Typed fields of the remote database protocol: a type tag byte followed by
//! the field's payload.

use vstd::prelude::*;
use crate::buffer::{bytes_view, bytes_from_vec, bytes_as_slice};
use crate::text::{utf16_be, push_utf16_be};
use crate::wire::{be16, be32, push_be16, push_be32, push_slice, push_u8};

verus! {

/// A blob argument; on the wire it becomes a field of type `Binary`.
#[derive(Debug, PartialEq)]
pub struct Binary {
    pub value: bytes::Bytes,
}

impl Binary {
    pub fn new(value: bytes::Bytes) -> (b: Binary)
        ensures
            bytes_view(b.value) == bytes_view(value),
    {
        Binary { value }
    }
}

#[derive(Debug, PartialEq, Eq, Structural, Clone, Copy)]
pub enum DBFieldType {
    U8,
    U16,
    U32,
    String,
    Binary,
}

/// The tag byte of each field type.
pub open spec fn field_tag(kind: DBFieldType) -> u8 {
    match kind {
        DBFieldType::U8 => 0x0f,
        DBFieldType::U16 => 0x10,
        DBFieldType::U32 => 0x11,
        DBFieldType::Binary => 0x14,
        DBFieldType::String => 0x26,
    }
}

/// The field type that a tag byte names, if any.
pub open spec fn field_type_of(tag: u8) -> Option<DBFieldType> {
    if tag == 0x0f {
        Some(DBFieldType::U8)
    } else if tag == 0x10 {
        Some(DBFieldType::U16)
    } else if tag == 0x11 {
        Some(DBFieldType::U32)
    } else if tag == 0x14 {
        Some(DBFieldType::Binary)
    } else if tag == 0x26 {
        Some(DBFieldType::String)
    } else {
        None
    }
}

impl DBFieldType {
    /// The field type of a tag byte; the error "unmatched type." for any
    /// other byte.
    pub fn name(value: u8) -> (r: Result<DBFieldType, &'static str>)
        ensures
            match field_type_of(value) {
                Some(t) => r == Ok::<DBFieldType, &'static str>(t),
                None => r == Err::<DBFieldType, &'static str>("unmatched type."),
            },
    {
        if value == 0x0f {
            Ok(DBFieldType::U8)
        } else if value == 0x10 {
            Ok(DBFieldType::U16)
        } else if value == 0x11 {
            Ok(DBFieldType::U32)
        } else if value == 0x14 {
            Ok(DBFieldType::Binary)
        } else if value == 0x26 {
            Ok(DBFieldType::String)
        } else {
            Err("unmatched type.")
        }
    }

    /// The tag byte of this field type.
    pub fn value(&self) -> (b: u8)
        ensures
            b == field_tag(*self),
    {
        match *self {
            DBFieldType::U8 => 0x0f,
            DBFieldType::U16 => 0x10,
            DBFieldType::U32 => 0x11,
            DBFieldType::Binary => 0x14,
            DBFieldType::String => 0x26,
        }
    }
}

/// Every field type is named by its own tag byte, and a tag byte that names a
/// type is that type's tag.
pub proof fn lemma_field_tag_roundtrip(kind: DBFieldType, tag: u8)
    ensures
        field_type_of(field_tag(kind)) == Some(kind),
        field_type_of(tag) matches Some(k) ==> field_tag(k) == tag,
{
}

/// The protocol's field tags, read both ways: 0x0f is a one-byte number,
/// 0x10 a two-byte one, 0x11 a four-byte one, 0x14 a binary blob and 0x26 a
/// UTF-16 string; no other byte names a field type.
pub proof fn lemma_field_tag_table(tag: u8)
    ensures
        (field_type_of(tag) == Some(DBFieldType::U8)) <==> tag == 0x0f,
        (field_type_of(tag) == Some(DBFieldType::U16)) <==> tag == 0x10,
        (field_type_of(tag) == Some(DBFieldType::U32)) <==> tag == 0x11,
        (field_type_of(tag) == Some(DBFieldType::Binary)) <==> tag == 0x14,
        (field_type_of(tag) == Some(DBFieldType::String)) <==> tag == 0x26,
        field_tag(DBFieldType::U8) == 0x0f,
        field_tag(DBFieldType::U16) == 0x10,
        field_tag(DBFieldType::U32) == 0x11,
        field_tag(DBFieldType::Binary) == 0x14,
        field_tag(DBFieldType::String) == 0x26,
{
}

#[derive(Debug, PartialEq)]
pub struct DBField {
    pub kind: DBFieldType,
    pub value: bytes::Bytes,
}

/// A field as a type and a payload.
pub type FieldModel = (DBFieldType, Seq<u8>);

impl View for DBField {
    type V = FieldModel;

    open spec fn view(&self) -> FieldModel {
        (self.kind, bytes_view(self.value))
    }
}

/// The length byte of a string field: half the payload length (taken modulo
/// 256) plus one for the terminating code unit.
pub open spec fn string_length_byte(len: nat) -> u8 {
    (((len % 256) / 2) + 1) as u8
}

/// The wire form of a field of type `kind` with payload `v`.
pub open spec fn field_bytes(kind: DBFieldType, v: Seq<u8>) -> Seq<u8> {
    match kind {
        DBFieldType::String => seq![0x26u8, 0, 0, 0, string_length_byte(v.len())] + v + seq![0u8, 0],
        DBFieldType::Binary => if v.len() > 0 {
            seq![0x14u8] + be32((v.len() % 0x1_0000_0000) as u32) + v
        } else {
            Seq::empty()
        },
        _ => seq![field_tag(kind)] + v,
    }
}

impl DBField {
    /// The payload of this field.
    pub open spec fn payload(&self) -> Seq<u8> {
        bytes_view(self.value)
    }

    /// The wire form of this field.
    pub open spec fn spec_bytes(&self) -> Seq<u8> {
        field_bytes(self.kind, self.payload())
    }

    pub fn new(kind: DBFieldType, value: &[u8]) -> (f: DBField)
        ensures
            f.kind == kind,
            f.payload() == value@,
    {
        DBField { kind, value: bytes_from_vec(vstd::slice::slice_to_vec(value)) }
    }

    /// A copy of this field.
    pub fn clone(&self) -> (f: DBField)
        ensures
            f.kind == self.kind,
            f.payload() == self.payload(),
    {
        DBField { kind: self.kind, value: self.value.clone() }
    }

    /// A `U32` field holding the big-endian bytes of `value`.
    pub fn from_u32(value: u32) -> (f: DBField)
        ensures
            f.kind == DBFieldType::U32,
            f.payload() == be32(value),
    {
        let mut v: Vec<u8> = Vec::new();
        push_be32(&mut v, value);
        DBField { kind: DBFieldType::U32, value: bytes_from_vec(v) }
    }

    /// A `U16` field holding the big-endian bytes of `value`.
    pub fn from_u16(value: u16) -> (f: DBField)
        ensures
            f.kind == DBFieldType::U16,
            f.payload() == be16(value),
    {
        let mut v: Vec<u8> = Vec::new();
        push_be16(&mut v, value);
        DBField { kind: DBFieldType::U16, value: bytes_from_vec(v) }
    }

    /// A `U8` field holding `value`.
    pub fn from_u8(value: u8) -> (f: DBField)
        ensures
            f.kind == DBFieldType::U8,
            f.payload() == seq![value],
    {
        let mut v: Vec<u8> = Vec::new();
        v.push(value);
        DBField { kind: DBFieldType::U8, value: bytes_from_vec(v) }
    }

    /// A `U32` field holding four raw bytes.
    pub fn from_u32_bytes(value: [u8; 4]) -> (f: DBField)
        ensures
            f.kind == DBFieldType::U32,
            f.payload() == value@,
    {
        DBField::new(DBFieldType::U32, &value)
    }

    /// A `U16` field holding two raw bytes.
    pub fn from_u16_bytes(value: [u8; 2]) -> (f: DBField)
        ensures
            f.kind == DBFieldType::U16,
            f.payload() == value@,
    {
        DBField::new(DBFieldType::U16, &value)
    }

    /// A `String` field holding the UTF-16BE encoding of `value`.
    pub fn from_str(value: &str) -> (f: DBField)
        ensures
            f.kind == DBFieldType::String,
            f.payload() == utf16_be(value@),
    {
        let mut v: Vec<u8> = Vec::new();
        push_utf16_be(&mut v, value);
        assert(v@ =~= utf16_be(value@));
        DBField { kind: DBFieldType::String, value: bytes_from_vec(v) }
    }

    /// A `Binary` field holding the blob's bytes.
    pub fn from_binary(value: Binary) -> (f: DBField)
        ensures
            f.kind == DBFieldType::Binary,
            f.payload() == bytes_view(value.value),
    {
        DBField::new(DBFieldType::Binary, bytes_as_slice(&value.value))
    }

    /// Appends the wire form of this field.
    pub fn push_bytes(&self, out: &mut Vec<u8>)
        ensures
            final(out)@ == old(out)@ + self.spec_bytes(),
    {
        let v = bytes_as_slice(&self.value);
        match self.kind {
            DBFieldType::String => {
                let len_byte: u8 = (((v.len() % 256) / 2) + 1) as u8;
                push_u8(out, 0x26);
                push_u8(out, 0);
                push_u8(out, 0);
                push_u8(out, 0);
                push_u8(out, len_byte);
                push_slice(out, v);
                push_u8(out, 0);
                push_u8(out, 0);
            },
            DBFieldType::Binary => {
                if v.len() > 0 {
                    push_u8(out, 0x14);
                    push_be32(out, ((v.len() as u64) % 0x1_0000_0000) as u32);
                    push_slice(out, v);
                }
            },
            _ => {
                push_u8(out, self.kind.value());
                push_slice(out, v);
            },
        }
        assert(out@ =~= old(out)@ + self.spec_bytes());
    }

    /// The wire form of this field.
    pub fn as_bytes(&self) -> (b: bytes::Bytes)
        ensures
            bytes_view(b) == self.spec_bytes(),
    {
        let mut out: Vec<u8> = Vec::new();
        self.push_bytes(&mut out);
        assert(out@ =~= self.spec_bytes());
        bytes_from_vec(out)
    }
}

} // verus!
