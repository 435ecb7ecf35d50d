//! Messages of the remote database protocol (TCP): a marker byte, the
//! magic, a transaction id field, the request kind, and an argument list.

pub mod term_dj;

use vstd::prelude::*;
use crate::buffer::{bytes_view, bytes_from_vec, bytes_as_slice};
use crate::rekordbox::db_field::{DBField, DBFieldType, FieldModel, field_type_of, field_bytes};
use crate::rekordbox::db_request_type::{
    DBRequestType, request_type_of, request_type_code, has_own_code,
};
use crate::rekordbox::db_message_argument::{
    ArgumentCollection, spec_collection, collection_bytes, wf_argument, holds_at,
    lemma_collection_roundtrip, lemma_holds_at_split, lemma_byte_at, lemma_sub_at,
};
use crate::rekordbox::library::metadata_type::{MetadataType, ROOT_ARTIST};
use crate::text::{utf16_be, encode_utf16, utf16_len};
use crate::wire::{
    ErrorKind, ParseError, PResult, agrees, spec_take, spec_tag, spec_be_u16, be16, be32,
    be16_value, take_bytes, match_tag, read_be_u16, read_u8, rest_of, push_u8, push_be16,
    push_slice, lemma_be16_roundtrip,
};

verus! {

/// The four bytes that follow the marker byte of every message.
pub const DB_MESSAGE_MAGIC: [u8; 4] = [0x87, 0x23, 0x49, 0xae];

pub open spec fn magic_seq() -> Seq<u8> {
    seq![0x87u8, 0x23, 0x49, 0xae]
}

/// A message as values.
pub struct DBMessageModel {
    pub transaction_id: FieldModel,
    pub request_type: DBRequestType,
    pub arguments: Seq<FieldModel>,
}

#[derive(Debug, PartialEq)]
pub struct DBMessage {
    pub transaction_id: DBField,
    pub request_type: DBRequestType,
    pub arguments: ArgumentCollection,
}

impl View for DBMessage {
    type V = DBMessageModel;

    open spec fn view(&self) -> DBMessageModel {
        DBMessageModel {
            transaction_id: self.transaction_id@,
            request_type: self.request_type,
            arguments: self.arguments@,
        }
    }
}

// ---------------------------------------------------------------------------
// Specification

/// The marker byte (any value) and the magic.
pub open spec fn spec_magic(s: Seq<u8>, p: usize) -> PResult<Seq<u8>> {
    match spec_take(s, p, 1) {
        Err(e) => Err(e),
        Ok((_, q)) => match spec_tag(s, q, magic_seq()) {
            Err(e) => Err(e),
            Ok((_, r)) => Ok((magic_seq(), r)),
        },
    }
}

/// The transaction id: a type tag and four bytes. Reading it stops the
/// program when the tag names no field type; callers rule that out.
pub open spec fn spec_transaction_id(s: Seq<u8>, p: usize) -> PResult<FieldModel> {
    match spec_take(s, p, 1) {
        Err(e) => Err(e),
        Ok((kind, q)) => match spec_take(s, q, 4) {
            Err(e) => Err(e),
            Ok((v, r)) => Ok(((field_type_of(kind[0]).unwrap(), v), r)),
        },
    }
}

/// The request kind: a type tag (not checked) and a 16-bit code.
pub open spec fn spec_request_type(s: Seq<u8>, p: usize) -> PResult<DBRequestType> {
    match spec_take(s, p, 1) {
        Err(e) => Err(e),
        Ok((_, q)) => match spec_be_u16(s, q) {
            Err(e) => Err(e),
            Ok((code, r)) => Ok((request_type_of(code), r)),
        },
    }
}

/// A whole message.
pub open spec fn spec_message(s: Seq<u8>, p: usize) -> PResult<DBMessageModel> {
    match spec_magic(s, p) {
        Err(e) => Err(e),
        Ok((_, q)) => match spec_transaction_id(s, q) {
            Err(e) => Err(e),
            Ok((tid, r)) => match spec_request_type(s, r) {
                Err(e) => Err(e),
                Ok((rt, t)) => match spec_collection(s, t) {
                    Err(e) => Err(e),
                    Ok((args, u)) => Ok(
                        (DBMessageModel { transaction_id: tid, request_type: rt, arguments: args }, u),
                    ),
                },
            },
        },
    }
}

/// Reading the transaction id at `p` would stop the program: the magic
/// matched, the id's five bytes are there, and its tag names no field type.
pub open spec fn transaction_kind_panics_at(s: Seq<u8>, p: usize) -> bool {
    p + 5 <= s.len() && field_type_of(s[p as int]) is None
}

/// Parsing `s` would stop the program on its transaction id.
pub open spec fn parse_panics(s: Seq<u8>) -> bool {
    spec_magic(s, 0) is Ok && transaction_kind_panics_at(s, 5)
}

/// The header of a response: marker, magic, transaction id.
pub open spec fn response_header(tid: FieldModel) -> Seq<u8> {
    seq![0x11u8] + magic_seq() + field_bytes(tid.0, tid.1)
}

/// The wire form of a message.
pub open spec fn message_bytes(m: DBMessageModel) -> Seq<u8> {
    response_header(m.transaction_id) + seq![0x10u8] + be16(request_type_code(m.request_type))
        + collection_bytes(m.arguments)
}

/// A message that reads back as itself: a four-byte `U32` transaction id, a
/// kind with a code of its own, at most twelve well-formed arguments.
pub open spec fn wf_message(m: DBMessageModel) -> bool {
    &&& m.transaction_id.0 == DBFieldType::U32
    &&& m.transaction_id.1.len() == 4
    &&& has_own_code(m.request_type)
    &&& m.arguments.len() <= 12
    &&& forall|k: int| 0 <= k < m.arguments.len() ==> wf_argument(#[trigger] m.arguments[k])
}

// ---------------------------------------------------------------------------
// Code

fn magic_at(s: &[u8], p: usize) -> (r: PResult<()>)
    ensures
        match (r, spec_magic(s@, p)) {
            (Ok((_, q)), Ok((_, q2))) => q == q2,
            (Err(e), Err(e2)) => e == e2,
            _ => false,
        },
        r matches Ok((_, e)) ==> e <= s@.len(),
{
    let q = match take_bytes(s, p, 1) {
        Ok((_, q)) => q,
        Err(e) => { return Err(e); },
    };
    assert(DB_MESSAGE_MAGIC@ =~= magic_seq());
    match match_tag(s, q, &DB_MESSAGE_MAGIC) {
        Ok((_, r)) => Ok(((), r)),
        Err(e) => Err(e),
    }
}

fn transaction_id_at(s: &[u8], p: usize) -> (r: PResult<DBField>)
    requires
        !transaction_kind_panics_at(s@, p),
    ensures
        agrees(r, spec_transaction_id(s@, p)),
        r matches Ok((_, e)) ==> e <= s@.len(),
{
    let _len = s.len();
    let (kind, q) = match take_bytes(s, p, 1) {
        Ok(v) => v,
        Err(e) => { return Err(e); },
    };
    let (v, r) = match take_bytes(s, q, 4) {
        Ok(v) => v,
        Err(e) => { return Err(e); },
    };
    assert(kind@[0] == s@[p as int]);
    let t = match DBFieldType::name(kind[0]) {
        Ok(t) => t,
        Err(_) => {
            assert(false);
            return Err(ParseError::new(ErrorKind::Switch, p));
        },
    };
    Ok((DBField { kind: t, value: bytes_from_vec(v) }, r))
}

fn request_type_at(s: &[u8], p: usize) -> (r: PResult<DBRequestType>)
    ensures
        r == spec_request_type(s@, p),
        r matches Ok((_, e)) ==> e <= s@.len(),
{
    let q = match take_bytes(s, p, 1) {
        Ok((_, q)) => q,
        Err(e) => { return Err(e); },
    };
    match read_be_u16(s, q) {
        Ok((code, r)) => Ok((DBRequestType::new(code), r)),
        Err(e) => Err(e),
    }
}

fn message_at(s: &[u8], p: usize) -> (r: PResult<DBMessage>)
    requires
        !(spec_magic(s@, p) matches Ok((_, q)) && transaction_kind_panics_at(s@, q)),
    ensures
        agrees(r, spec_message(s@, p)),
        r matches Ok((_, e)) ==> e <= s@.len(),
{
    let (_, q) = match magic_at(s, p) {
        Ok(v) => v,
        Err(e) => { return Err(e); },
    };
    let (transaction_id, r) = match transaction_id_at(s, q) {
        Ok(v) => v,
        Err(e) => { return Err(e); },
    };
    let (request_type, t) = match request_type_at(s, r) {
        Ok(v) => v,
        Err(e) => { return Err(e); },
    };
    match ArgumentCollection::decode_at(s, t) {
        Ok((arguments, u)) => Ok((DBMessage { transaction_id, request_type, arguments }, u)),
        Err(e) => Err(e),
    }
}

impl DBMessage {
    pub fn new(
        transaction_id: DBField,
        request_type: DBRequestType,
        arguments: ArgumentCollection,
    ) -> (m: DBMessage)
        ensures
            m@ == (DBMessageModel {
                transaction_id: transaction_id@,
                request_type,
                arguments: arguments@,
            }),
    {
        DBMessage { transaction_id, request_type, arguments }
    }

    /// Reads the marker byte and the magic; answers the rest of the input
    /// and the magic.
    pub fn magic(i: &[u8]) -> (r: Result<(&[u8], &[u8]), ParseError>)
        ensures
            match (r, spec_magic(i@, 0)) {
                (Ok((rest, m)), Ok((m2, q))) => m@ == m2 && rest@ == i@.subrange(
                    q as int,
                    i@.len() as int,
                ),
                (Err(e), Err(e2)) => e == e2,
                _ => false,
            },
    {
        match magic_at(i, 0) {
            Ok((_, q)) => {
                let m: &[u8] = &DB_MESSAGE_MAGIC;
                assert(DB_MESSAGE_MAGIC@ =~= magic_seq());
                Ok((rest_of(i, q), m))
            },
            Err(e) => Err(e),
        }
    }

    /// Reads the transaction id field.
    pub fn transaction_id(input: &[u8]) -> (r: Result<(&[u8], DBField), ParseError>)
        requires
            !transaction_kind_panics_at(input@, 0),
        ensures
            match (r, spec_transaction_id(input@, 0)) {
                (Ok((rest, f)), Ok((m, q))) => f@ == m && rest@ == input@.subrange(
                    q as int,
                    input@.len() as int,
                ),
                (Err(e), Err(e2)) => e == e2,
                _ => false,
            },
    {
        match transaction_id_at(input, 0) {
            Ok((f, q)) => Ok((rest_of(input, q), f)),
            Err(e) => Err(e),
        }
    }

    /// Reads the request kind.
    pub fn request_type(input: &[u8]) -> (r: Result<(&[u8], DBRequestType), ParseError>)
        ensures
            match (r, spec_request_type(input@, 0)) {
                (Ok((rest, t)), Ok((t2, q))) => t == t2 && rest@ == input@.subrange(
                    q as int,
                    input@.len() as int,
                ),
                (Err(e), Err(e2)) => e == e2,
                _ => false,
            },
    {
        match request_type_at(input, 0) {
            Ok((t, q)) => Ok((rest_of(input, q), t)),
            Err(e) => Err(e),
        }
    }

    /// Reads a whole message; answers the unread rest and the message.
    pub fn parse(i: &[u8]) -> (r: Result<(&[u8], DBMessage), ParseError>)
        requires
            !parse_panics(i@),
        ensures
            match (r, spec_message(i@, 0)) {
                (Ok((rest, m)), Ok((m2, q))) => m@ == m2 && rest@ == i@.subrange(
                    q as int,
                    i@.len() as int,
                ),
                (Err(e), Err(e2)) => e == e2,
                _ => false,
            },
    {
        proof {
            if spec_magic(i@, 0) is Ok {
                assert(spec_magic(i@, 0).unwrap().1 == 5);
            }
        }
        match message_at(i, 0) {
            Ok((m, q)) => Ok((rest_of(i, q), m)),
            Err(e) => Err(e),
        }
    }

    /// Whether `parse` may be called on `i` (its transaction id tag, when
    /// reached, names a field type).
    pub fn can_parse(i: &[u8]) -> (b: bool)
        ensures
            b == !parse_panics(i@),
    {
        let m = magic_at(i, 0);
        match m {
            Ok(_) => {
                proof {
                    assert(spec_magic(i@, 0).unwrap().1 == 5);
                }
                if i.len() >= 10 {
                    match DBFieldType::name(i[5]) {
                        Ok(_) => true,
                        Err(_) => false,
                    }
                } else {
                    true
                }
            },
            Err(_) => true,
        }
    }

    /// Decodes a buffer that holds one message.
    pub fn try_from(message: bytes::Bytes) -> (r: Result<DBMessage, &'static str>)
        requires
            !parse_panics(bytes_view(message)),
        ensures
            match spec_message(bytes_view(message), 0) {
                Ok((m, _)) => r matches Ok(v) && v@ == m,
                Err(_) => r is Err,
            },
    {
        match DBMessage::parse(bytes_as_slice(&message)) {
            Ok((_, m)) => Ok(m),
            Err(_) => Err("Failed decoding DBMessage."),
        }
    }

    /// The header of a response to this message: marker, magic, and this
    /// message's transaction id.
    pub fn to_response(&self) -> (v: Vec<u8>)
        ensures
            v@ == response_header(self.transaction_id@),
    {
        let mut v: Vec<u8> = Vec::new();
        push_u8(&mut v, 0x11);
        push_slice(&mut v, &DB_MESSAGE_MAGIC);
        self.transaction_id.push_bytes(&mut v);
        assert(DB_MESSAGE_MAGIC@ =~= magic_seq());
        assert(v@ =~= response_header(self.transaction_id@));
        v
    }

    /// Appends the wire form of this message.
    pub fn push_bytes(&self, out: &mut Vec<u8>)
        ensures
            final(out)@ == old(out)@ + message_bytes(self@),
    {
        push_u8(out, 0x11);
        push_slice(out, &DB_MESSAGE_MAGIC);
        self.transaction_id.push_bytes(out);
        push_u8(out, 0x10);
        push_be16(out, self.request_type.code());
        self.arguments.push_bytes(out);
        assert(DB_MESSAGE_MAGIC@ =~= magic_seq());
        assert(out@ =~= old(out)@ + message_bytes(self@));
    }

    /// The wire form of this message.
    pub fn encode(&self) -> (b: bytes::Bytes)
        ensures
            bytes_view(b) == message_bytes(self@),
    {
        let mut out: Vec<u8> = Vec::new();
        self.push_bytes(&mut out);
        assert(out@ =~= message_bytes(self@));
        bytes_from_vec(out)
    }
}

/// Several messages sent as one response.
#[derive(Debug, PartialEq)]
pub struct ManyDBMessages(pub Vec<DBMessage>);

pub open spec fn message_models(ms: Seq<DBMessage>) -> Seq<DBMessageModel> {
    ms.map_values(|m: DBMessage| m@)
}

/// Messages one after another.
pub open spec fn messages_bytes(ms: Seq<DBMessageModel>) -> Seq<u8>
    decreases ms.len(),
{
    if ms.len() == 0 {
        Seq::empty()
    } else {
        messages_bytes(ms.drop_last()) + message_bytes(ms.last())
    }
}

impl View for ManyDBMessages {
    type V = Seq<DBMessageModel>;

    open spec fn view(&self) -> Seq<DBMessageModel> {
        message_models(self.0@)
    }
}

impl ManyDBMessages {
    pub fn new(messages: Vec<DBMessage>) -> (m: ManyDBMessages)
        ensures
            m@ == message_models(messages@),
    {
        ManyDBMessages(messages)
    }

    pub fn push(&mut self, message: DBMessage)
        ensures
            final(self)@ == old(self)@.push(message@),
    {
        self.0.push(message);
        assert(self@ =~= old(self)@.push(message@));
    }

    pub fn extend(&mut self, iter: Vec<DBMessage>)
        ensures
            final(self)@ == old(self)@ + message_models(iter@),
    {
        let mut iter = iter;
        let ghost orig = iter@;
        self.0.append(&mut iter);
        assert(self@ =~= old(self)@ + message_models(orig));
    }

    /// The wire form of all messages, one after another.
    pub fn encode(&self) -> (b: bytes::Bytes)
        ensures
            bytes_view(b) == messages_bytes(self@),
    {
        let mut out: Vec<u8> = Vec::new();
        let mut i: usize = 0;
        while i < self.0.len()
            invariant
                i <= self.0@.len(),
                out@ == messages_bytes(self@.take(i as int)),
            decreases self.0@.len() - i,
        {
            self.0[i].push_bytes(&mut out);
            proof {
                assert(self@.take(i + 1).drop_last() =~= self@.take(i as int));
            }
            i = i + 1;
        }
        assert(self@.take(self.0@.len() as int) =~= self@);
        bytes_from_vec(out)
    }
}

} // verus!

verus! {

/// The twelve arguments of a menu item message.
pub struct Arguments<'a> {
    pub entry_id1: u32,
    pub entry_id2: u32,
    pub entry_id3: u32,
    pub entry_id4: u32,
    pub value1: &'a str,
    pub value2: &'a str,
    pub _type: MetadataType,
}

impl<'a> Arguments<'a> {
    /// All ids zero, both texts empty, type `ROOT_ARTIST`.
    pub fn default() -> (a: Arguments<'a>)
        ensures
            a.entry_id1 == 0 && a.entry_id2 == 0 && a.entry_id3 == 0 && a.entry_id4 == 0,
            a.value1@ == Seq::<char>::empty(),
            a.value2@ == Seq::<char>::empty(),
            a._type == ROOT_ARTIST,
    {
        let empty: &'a str = "";
        proof {
            reveal_strlit("");
        }
        assert(empty@ =~= Seq::<char>::empty());
        Arguments {
            entry_id1: 0,
            entry_id2: 0,
            entry_id3: 0,
            entry_id4: 0,
            value1: empty,
            value2: empty,
            _type: ROOT_ARTIST,
        }
    }
}

/// The byte length (with terminator) of a text's UTF-16 form, as a `u32`.
pub open spec fn text_size(cs: Seq<char>) -> u32 {
    ((encode_utf16(cs).len() * 2 + 2) % 0x1_0000_0000) as u32
}

/// The argument list of a menu item message.
pub open spec fn arguments_fields(
    entry_id1: u32,
    entry_id2: u32,
    entry_id3: u32,
    entry_id4: u32,
    value1: Seq<char>,
    value2: Seq<char>,
    t: u32,
) -> Seq<FieldModel> {
    seq![
        (DBFieldType::U32, be32(entry_id1)),
        (DBFieldType::U32, be32(entry_id2)),
        (DBFieldType::U32, be32(text_size(value1))),
        (DBFieldType::String, utf16_be(value1)),
        (DBFieldType::U32, be32(text_size(value2))),
        (DBFieldType::String, utf16_be(value2)),
        (DBFieldType::U32, be32(t)),
        (DBFieldType::U32, be32(0)),
        (DBFieldType::U32, be32(entry_id3)),
        (DBFieldType::U32, be32(0)),
        (DBFieldType::U32, be32(entry_id4)),
        (DBFieldType::U32, be32(0)),
    ]
}

pub fn text_size_of(s: &str) -> (n: u32)
    ensures
        n == text_size(s@),
{
    let units = utf16_len(s);
    ((units * 2 + 2) % 0x1_0000_0000) as u32
}

impl ArgumentCollection {
    /// The argument list of a menu item message.
    pub fn from_arguments(arguments: Arguments) -> (c: ArgumentCollection)
        ensures
            c@ == arguments_fields(
                arguments.entry_id1,
                arguments.entry_id2,
                arguments.entry_id3,
                arguments.entry_id4,
                arguments.value1@,
                arguments.value2@,
                arguments._type,
            ),
    {
        let mut v: Vec<DBField> = Vec::new();
        v.push(DBField::from_u32(arguments.entry_id1));
        v.push(DBField::from_u32(arguments.entry_id2));
        v.push(DBField::from_u32(text_size_of(arguments.value1)));
        v.push(DBField::from_str(arguments.value1));
        v.push(DBField::from_u32(text_size_of(arguments.value2)));
        v.push(DBField::from_str(arguments.value2));
        v.push(DBField::from_u32(arguments._type));
        v.push(DBField::from_u32(0));
        v.push(DBField::from_u32(arguments.entry_id3));
        v.push(DBField::from_u32(0));
        v.push(DBField::from_u32(arguments.entry_id4));
        v.push(DBField::from_u32(0));
        let c = ArgumentCollection::new(v);
        assert(c@ =~= arguments_fields(
            arguments.entry_id1,
            arguments.entry_id2,
            arguments.entry_id3,
            arguments.entry_id4,
            arguments.value1@,
            arguments.value2@,
            arguments._type,
        ));
        c
    }
}

} // verus!

verus! {

/// What a message's wire form reads back as: a well-formed message, written
/// at the start of an input (with anything after it), is read back as
/// itself, and reading stops exactly at its end.
#[verifier::rlimit(40)]
pub proof fn lemma_message_roundtrip(s: Seq<u8>, m: DBMessageModel)
    requires
        wf_message(m),
        holds_at(s, 0, message_bytes(m)),
        s.len() <= usize::MAX,
    ensures
        spec_message(s, 0) == Ok::<(DBMessageModel, usize), ParseError>(
            (m, message_bytes(m).len() as usize),
        ),
        !parse_panics(s),
{
    let tid = m.transaction_id;
    let code = request_type_code(m.request_type);
    let b = message_bytes(m);
    let head = seq![0x11u8] + magic_seq() + field_bytes(tid.0, tid.1) + seq![0x10u8] + be16(code);
    let coll = collection_bytes(m.arguments);
    assert(b == head + coll);
    assert(head.len() == 13);
    lemma_holds_at_split(s, 0, head, coll);
    // marker and magic
    lemma_sub_at(s, 0, b, 1, 5);
    assert(b.subrange(1, 5) =~= magic_seq());
    // transaction id
    lemma_byte_at(s, 0, b, 5);
    assert(b[5] == 0x11u8);
    lemma_sub_at(s, 0, b, 6, 10);
    assert(b.subrange(6, 10) =~= tid.1);
    assert(s.subrange(5, 6)[0] == s[5]);
    // request type
    lemma_byte_at(s, 0, b, 11);
    lemma_byte_at(s, 0, b, 12);
    lemma_be16_roundtrip(code);
    assert(be16_value(s[11], s[12]) == code);
    assert(request_type_of(code) == m.request_type);
    // arguments
    lemma_collection_roundtrip(s, 13, m.arguments);
}

/// The law stated on a message's own wire form.
pub proof fn lemma_parse_encoded_message(m: DBMessageModel)
    requires
        wf_message(m),
        message_bytes(m).len() <= usize::MAX,
    ensures
        spec_message(message_bytes(m), 0) == Ok::<(DBMessageModel, usize), ParseError>(
            (m, message_bytes(m).len() as usize),
        ),
        !parse_panics(message_bytes(m)),
{
    let b = message_bytes(m);
    assert(b.subrange(0, b.len() as int) =~= b);
    lemma_message_roundtrip(b, m);
}

} // verus!
