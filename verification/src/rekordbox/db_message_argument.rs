//! The argument list of a remote database message.
//!
//! On the wire the list is: a `U8` field with the number of arguments, a
//! `Binary` field of twelve argument-type bytes (`0x06` number, `0x02`
//! string, `0x03` blob; unused slots are zero), then the arguments as
//! fields. A blob argument may come with its field tag, with only its
//! length, or not at all (an absent blob is an empty one).

use vstd::prelude::*;
use crate::buffer::{bytes_view, bytes_from_vec};
use crate::rekordbox::db_field::{DBField, DBFieldType, FieldModel, field_bytes, string_length_byte};
use crate::wire::{
    ErrorKind, ParseError, PResult, fail, agrees, spec_u8, spec_tag, spec_be_u32, spec_take,
    read_u8, match_tag, read_be_u32, take_bytes, push_u8, be32, zeros, push_zeros,
};

verus! {

#[derive(Debug, PartialEq)]
pub struct ArgumentCollection {
    pub arguments: Vec<DBField>,
}

pub open spec fn field_models(fs: Seq<DBField>) -> Seq<FieldModel> {
    fs.map_values(|f: DBField| f@)
}

impl View for ArgumentCollection {
    type V = Seq<FieldModel>;

    open spec fn view(&self) -> Seq<FieldModel> {
        field_models(self.arguments@)
    }
}

// ---------------------------------------------------------------------------
// Specification of the wire form

/// The argument-type byte of a field.
pub open spec fn arg_type_byte(kind: DBFieldType) -> u8 {
    match kind {
        DBFieldType::String => 0x02,
        DBFieldType::Binary => 0x03,
        _ => 0x06,
    }
}

/// The twelve argument-type bytes of a list.
pub open spec fn type_bytes(fs: Seq<FieldModel>) -> Seq<u8> {
    Seq::new(12, |i: int| if i < fs.len() { arg_type_byte(fs[i].0) } else { 0u8 })
}

/// The fields of a list, one after another.
pub open spec fn fields_bytes(fs: Seq<FieldModel>) -> Seq<u8>
    decreases fs.len(),
{
    if fs.len() == 0 {
        Seq::empty()
    } else {
        fields_bytes(fs.drop_last()) + field_bytes(fs.last().0, fs.last().1)
    }
}

/// The wire form of an argument list.
pub open spec fn collection_bytes(fs: Seq<FieldModel>) -> Seq<u8> {
    seq![0x0fu8, (fs.len() % 256) as u8, 0x14u8, 0, 0, 0, 0x0c] + type_bytes(fs) + fields_bytes(fs)
}

/// A number argument: a numeric field read by its own tag.
pub open spec fn spec_number_field(s: Seq<u8>, p: usize) -> PResult<FieldModel> {
    match spec_u8(s, p) {
        Err(e) => Err(e),
        Ok((tag, q)) => if tag == 0x0f {
            match spec_take(s, q, 1) {
                Ok((v, r)) => Ok(((DBFieldType::U8, v), r)),
                Err(e) => Err(e),
            }
        } else if tag == 0x10 {
            match spec_take(s, q, 2) {
                Ok((v, r)) => Ok(((DBFieldType::U16, v), r)),
                Err(e) => Err(e),
            }
        } else if tag == 0x11 {
            match spec_take(s, q, 4) {
                Ok((v, r)) => Ok(((DBFieldType::U32, v), r)),
                Err(e) => Err(e),
            }
        } else {
            fail(ErrorKind::Switch, p)
        },
    }
}

/// The number of payload bytes of a string of `n` code units (the last unit
/// is the terminator).
pub open spec fn string_payload_len(n: u32) -> nat {
    if n == 0 {
        0
    } else {
        (2 * (n - 1)) as nat
    }
}

/// A string argument: tag, code-unit count, code units; the terminating
/// unit is not part of the payload.
pub open spec fn spec_string_field(s: Seq<u8>, p: usize) -> PResult<FieldModel> {
    match spec_tag(s, p, seq![0x26u8]) {
        Err(e) => Err(e),
        Ok((_, q)) => match spec_be_u32(s, q) {
            Err(e) => Err(e),
            Ok((n, r)) => if r + 2 * (n as int) <= s.len() {
                Ok(
                    (
                        (DBFieldType::String, s.subrange(r as int, r + string_payload_len(n))),
                        (r + 2 * (n as int)) as usize,
                    ),
                )
            } else {
                fail(ErrorKind::Eof, r)
            },
        },
    }
}

/// A blob read from its length on.
pub open spec fn spec_sized_blob(s: Seq<u8>, q: usize) -> PResult<FieldModel> {
    match spec_be_u32(s, q) {
        Err(e) => Err(e),
        Ok((len, r)) => match spec_take(s, r, len as usize) {
            Ok((v, t)) => Ok(((DBFieldType::Binary, v), t)),
            Err(e) => Err(e),
        },
    }
}

/// A blob argument: tagged, bare (length first), or absent.
pub open spec fn spec_binary_field(s: Seq<u8>, p: usize) -> PResult<FieldModel> {
    if p < s.len() && s[p as int] == 0x14 {
        spec_sized_blob(s, (p + 1) as usize)
    } else if p < s.len() && s[p as int] == 0x00 {
        spec_sized_blob(s, p)
    } else {
        Ok(((DBFieldType::Binary, Seq::empty()), p))
    }
}

/// An argument of the given argument type.
pub open spec fn spec_argument(s: Seq<u8>, p: usize, t: u8) -> PResult<FieldModel> {
    if t == 0x06 {
        spec_number_field(s, p)
    } else if t == 0x02 {
        spec_string_field(s, p)
    } else if t == 0x03 {
        spec_binary_field(s, p)
    } else {
        fail(ErrorKind::Switch, p)
    }
}

/// The arguments `i..n` of a list whose argument types are `types`.
pub open spec fn spec_arguments_from(
    s: Seq<u8>,
    p: usize,
    types: Seq<u8>,
    i: nat,
    n: nat,
) -> PResult<Seq<FieldModel>>
    decreases n - i,
{
    if i >= n || i >= types.len() {
        Ok((Seq::empty(), p))
    } else {
        match spec_argument(s, p, types[i as int]) {
            Err(e) => Err(e),
            Ok((f, q)) => match spec_arguments_from(s, q, types, i + 1, n) {
                Err(e) => Err(e),
                Ok((fs, r)) => Ok((seq![f] + fs, r)),
            },
        }
    }
}

/// A whole argument list.
pub open spec fn spec_collection(s: Seq<u8>, p: usize) -> PResult<Seq<FieldModel>> {
    match spec_tag(s, p, seq![0x0fu8]) {
        Err(e) => Err(e),
        Ok((_, q)) => match spec_u8(s, q) {
            Err(e) => Err(e),
            Ok((n, r)) => match spec_tag(s, r, seq![0x14u8]) {
                Err(e) => Err(e),
                Ok((_, r2)) => match spec_be_u32(s, r2) {
                    Err(e) => Err(e),
                    Ok((len, r3)) => match spec_take(s, r3, len as usize) {
                        Err(e) => Err(e),
                        Ok((types, r4)) => if (n as nat) > types.len() {
                            fail(ErrorKind::Switch, q)
                        } else {
                            spec_arguments_from(s, r4, types, 0, n as nat)
                        },
                    },
                },
            },
        },
    }
}

// ---------------------------------------------------------------------------
// Code

fn number_field(s: &[u8], p: usize) -> (r: PResult<DBField>)
    requires
        p <= s@.len(),
    ensures
        agrees(r, spec_number_field(s@, p)),
        r matches Ok((_, e)) ==> e <= s@.len(),
{
    let (tag, q) = match read_u8(s, p) {
        Ok(v) => v,
        Err(e) => { return Err(e); },
    };
    let (kind, width): (DBFieldType, usize) = if tag == 0x0f {
        (DBFieldType::U8, 1)
    } else if tag == 0x10 {
        (DBFieldType::U16, 2)
    } else if tag == 0x11 {
        (DBFieldType::U32, 4)
    } else {
        return Err(ParseError::new(ErrorKind::Switch, p));
    };
    match take_bytes(s, q, width) {
        Ok((v, r)) => Ok((DBField { kind, value: bytes_from_vec(v) }, r)),
        Err(e) => Err(e),
    }
}

fn string_field(s: &[u8], p: usize) -> (r: PResult<DBField>)
    requires
        p <= s@.len(),
    ensures
        agrees(r, spec_string_field(s@, p)),
        r matches Ok((_, e)) ==> e <= s@.len(),
{
    assert(seq![0x26u8] =~= [0x26u8]@);
    let (_, q) = match match_tag(s, p, &[0x26u8]) {
        Ok(v) => v,
        Err(e) => { return Err(e); },
    };
    let (n, r) = match read_be_u32(s, q) {
        Ok(v) => v,
        Err(e) => { return Err(e); },
    };
    if ((s.len() - r) as u64) < 2 * (n as u64) {
        return Err(ParseError::new(ErrorKind::Eof, r));
    }
    let total = 2 * (n as usize);
    let payload_len: usize = if n == 0 { 0 } else { total - 2 };
    let v = vstd::slice::slice_to_vec(vstd::slice::slice_subrange(s, r, r + payload_len));
    Ok((DBField { kind: DBFieldType::String, value: bytes_from_vec(v) }, r + total))
}

fn sized_blob(s: &[u8], q: usize) -> (r: PResult<DBField>)
    requires
        q <= s@.len(),
    ensures
        agrees(r, spec_sized_blob(s@, q)),
        r matches Ok((_, e)) ==> e <= s@.len(),
{
    let (len, r) = match read_be_u32(s, q) {
        Ok(v) => v,
        Err(e) => { return Err(e); },
    };
    match take_bytes(s, r, len as usize) {
        Ok((v, t)) => Ok((DBField { kind: DBFieldType::Binary, value: bytes_from_vec(v) }, t)),
        Err(e) => Err(e),
    }
}

fn binary_field(s: &[u8], p: usize) -> (r: PResult<DBField>)
    requires
        p <= s@.len(),
    ensures
        agrees(r, spec_binary_field(s@, p)),
        r matches Ok((_, e)) ==> e <= s@.len(),
{
    if p < s.len() && s[p] == 0x14 {
        sized_blob(s, p + 1)
    } else if p < s.len() && s[p] == 0x00 {
        sized_blob(s, p)
    } else {
        let v: Vec<u8> = Vec::new();
        Ok((DBField { kind: DBFieldType::Binary, value: bytes_from_vec(v) }, p))
    }
}

fn argument(s: &[u8], p: usize, t: u8) -> (r: PResult<DBField>)
    requires
        p <= s@.len(),
    ensures
        agrees(r, spec_argument(s@, p, t)),
        r matches Ok((_, e)) ==> e <= s@.len(),
{
    if t == 0x06 {
        number_field(s, p)
    } else if t == 0x02 {
        string_field(s, p)
    } else if t == 0x03 {
        binary_field(s, p)
    } else {
        Err(ParseError::new(ErrorKind::Switch, p))
    }
}

pub open spec fn join(
    acc: Seq<FieldModel>,
    rest: PResult<Seq<FieldModel>>,
) -> PResult<Seq<FieldModel>> {
    match rest {
        Ok((fs, q)) => Ok((acc + fs, q)),
        Err(e) => Err(e),
    }
}

fn arguments_from(s: &[u8], p0: usize, types: &Vec<u8>, n: usize) -> (r: PResult<Vec<DBField>>)
    requires
        n <= types@.len(),
        p0 <= s@.len(),
    ensures
        match (r, spec_arguments_from(s@, p0, types@, 0, n as nat)) {
            (Ok((v, q)), Ok((w, q2))) => field_models(v@) == w && q == q2,
            (Err(e), Err(e2)) => e == e2,
            _ => false,
        },
        r matches Ok((_, e)) ==> e <= s@.len(),
{
    let mut fields: Vec<DBField> = Vec::new();
    let mut p = p0;
    let mut i: usize = 0;
    while i < n
        invariant
            i <= n,
            p <= s@.len(),
            n <= types@.len(),
            spec_arguments_from(s@, p0, types@, 0, n as nat) == join(
                field_models(fields@),
                spec_arguments_from(s@, p, types@, i as nat, n as nat),
            ),
        decreases n - i,
    {
        let f = argument(s, p, types[i]);
        match f {
            Ok((field, q)) => {
                let ghost before = field_models(fields@);
                let ghost m = field@;
                fields.push(field);
                proof {
                    assert(field_models(fields@) =~= before.push(m));
                    match spec_arguments_from(s@, q, types@, (i + 1) as nat, n as nat) {
                        Ok((fs, r)) => {
                            assert(before + (seq![m] + fs) =~= before.push(m) + fs);
                        },
                        Err(_) => {},
                    }
                }
                p = q;
                i = i + 1;
            },
            Err(e) => {
                return Err(e);
            },
        }
    }
    assert(field_models(fields@) + Seq::<FieldModel>::empty() =~= field_models(fields@));
    Ok((fields, p))
}

impl ArgumentCollection {
    pub fn new(arguments: Vec<DBField>) -> (c: ArgumentCollection)
        ensures
            c.arguments@ == arguments@,
    {
        ArgumentCollection { arguments }
    }

    pub fn len(&self) -> (n: usize)
        ensures
            n == self@.len(),
    {
        self.arguments.len()
    }

    /// The argument at `index`.
    pub fn get(&self, index: usize) -> (f: &DBField)
        requires
            index < self@.len(),
        ensures
            f@ == self@[index as int],
    {
        &self.arguments[index]
    }

    /// Reads an argument list at offset `p`.
    pub fn decode_at(s: &[u8], p: usize) -> (r: PResult<ArgumentCollection>)
        ensures
            agrees(r, spec_collection(s@, p)),
            r matches Ok((_, e)) ==> e <= s@.len(),
    {
        assert(seq![0x0fu8] =~= [0x0fu8]@);
        let (_, q) = match match_tag(s, p, &[0x0fu8]) {
            Ok(v) => v,
            Err(e) => { return Err(e); },
        };
            let (n, r) = match read_u8(s, q) {
            Ok(v) => v,
            Err(e) => { return Err(e); },
        };
        assert(seq![0x14u8] =~= [0x14u8]@);
        let (_, r2) = match match_tag(s, r, &[0x14u8]) {
            Ok(v) => v,
            Err(e) => { return Err(e); },
        };
            let (len, r3) = match read_be_u32(s, r2) {
            Ok(v) => v,
            Err(e) => { return Err(e); },
        };
        let (types, r4) = match take_bytes(s, r3, len as usize) {
            Ok(v) => v,
            Err(e) => { return Err(e); },
        };
        if (n as usize) > types.len() {
            return Err(ParseError::new(ErrorKind::Switch, q));
        }
        match arguments_from(s, r4, &types, n as usize) {
            Ok((arguments, t)) => Ok((ArgumentCollection { arguments }, t)),
            Err(e) => Err(e),
        }
    }

    /// Reads an argument list; answers the unread rest of the input and the
    /// list.
    pub fn decode(s: &[u8]) -> (r: Result<(&[u8], ArgumentCollection), ParseError>)
        ensures
            match (r, spec_collection(s@, 0)) {
                (Ok((rest, c)), Ok((m, q))) => c@ == m && rest@ == s@.subrange(
                    q as int,
                    s@.len() as int,
                ),
                (Err(e), Err(e2)) => e == e2,
                _ => false,
            },
    {
        match Self::decode_at(s, 0) {
            Ok((c, q)) => {
                Ok((crate::wire::rest_of(s, q), c))
            },
            Err(e) => Err(e),
        }
    }

    /// Appends the wire form of this list.
    pub fn push_bytes(&self, out: &mut Vec<u8>)
        ensures
            final(out)@ == old(out)@ + collection_bytes(self@),
    {
        let n = self.arguments.len();
        push_u8(out, 0x0f);
        push_u8(out, (n % 256) as u8);
        push_u8(out, 0x14);
        push_u8(out, 0);
        push_u8(out, 0);
        push_u8(out, 0);
        push_u8(out, 0x0c);
        let ghost head = out@;
        let mut i: usize = 0;
        while i < 12
            invariant
                i <= 12,
                n == self@.len(),
                out@ == head + type_bytes(self@).take(i as int),
            decreases 12 - i,
        {
            let b: u8 = if i < n {
                match self.arguments[i].kind {
                    DBFieldType::String => 0x02,
                    DBFieldType::Binary => 0x03,
                    _ => 0x06,
                }
            } else {
                0
            };
            out.push(b);
            i = i + 1;
            assert(out@ =~= head + type_bytes(self@).take(i as int));
        }
        assert(type_bytes(self@).take(12) =~= type_bytes(self@));
        let ghost mid = out@;
        let mut j: usize = 0;
        while j < n
            invariant
                j <= n,
                n == self@.len(),
                out@ == mid + fields_bytes(self@.take(j as int)),
            decreases n - j,
        {
            self.arguments[j].push_bytes(out);
            proof {
                assert(self@.take(j + 1).drop_last() =~= self@.take(j as int));
            }
            j = j + 1;
        }
        assert(self@.take(n as int) =~= self@);
        assert(out@ =~= old(out)@ + collection_bytes(self@));
    }

    /// The wire form of this list.
    pub fn encode(&self) -> (b: bytes::Bytes)
        ensures
            bytes_view(b) == collection_bytes(self@),
    {
        let mut out: Vec<u8> = Vec::new();
        self.push_bytes(&mut out);
        assert(out@ =~= collection_bytes(self@));
        bytes_from_vec(out)
    }
}

} // verus!

verus! {

// ---------------------------------------------------------------------------
// Reading back what was written

/// `t` stands in `s` at offset `p`.
pub open spec fn holds_at(s: Seq<u8>, p: int, t: Seq<u8>) -> bool {
    0 <= p && p + t.len() <= s.len() && s.subrange(p, p + t.len()) == t
}

/// An argument that reads back as itself: numbers of their width, strings
/// of whole code units short enough for their length byte, non-empty blobs.
pub open spec fn wf_argument(f: FieldModel) -> bool {
    match f.0 {
        DBFieldType::U8 => f.1.len() == 1,
        DBFieldType::U16 => f.1.len() == 2,
        DBFieldType::U32 => f.1.len() == 4,
        DBFieldType::String => f.1.len() % 2 == 0 && f.1.len() <= 254,
        DBFieldType::Binary => 0 < f.1.len() < 0x1_0000_0000,
    }
}

pub proof fn lemma_holds_at_split(s: Seq<u8>, p: int, a: Seq<u8>, b: Seq<u8>)
    requires
        holds_at(s, p, a + b),
    ensures
        holds_at(s, p, a),
        holds_at(s, p + a.len(), b),
{
    let w = s.subrange(p, p + (a + b).len());
    assert(w == a + b);
    assert(s.subrange(p, p + a.len()) =~= w.subrange(0, a.len() as int));
    assert(w.subrange(0, a.len() as int) =~= a);
    assert(s.subrange(p + a.len(), p + a.len() + b.len()) =~= w.subrange(
        a.len() as int,
        (a.len() + b.len()) as int,
    ));
    assert(w.subrange(a.len() as int, (a.len() + b.len()) as int) =~= b);
}

pub proof fn lemma_fields_bytes_first(fs: Seq<FieldModel>)
    requires
        fs.len() > 0,
    ensures
        fields_bytes(fs) == field_bytes(fs[0].0, fs[0].1) + fields_bytes(fs.drop_first()),
    decreases fs.len(),
{
    if fs.len() == 1 {
        assert(fs.drop_last() =~= Seq::<FieldModel>::empty());
        assert(fs.drop_first() =~= Seq::<FieldModel>::empty());
        assert(fields_bytes(fs) =~= field_bytes(fs[0].0, fs[0].1) + fields_bytes(fs.drop_first()));
    } else {
        lemma_fields_bytes_first(fs.drop_last());
        assert(fs.drop_last().drop_first() =~= fs.drop_first().drop_last());
        assert(fs.drop_last()[0] == fs[0]);
        assert(fs.drop_first().last() == fs.last());
        assert(fields_bytes(fs) =~= field_bytes(fs[0].0, fs[0].1) + fields_bytes(fs.drop_first()));
    }
}

pub proof fn lemma_byte_at(s: Seq<u8>, p: int, t: Seq<u8>, k: int)
    requires
        holds_at(s, p, t),
        0 <= k < t.len(),
    ensures
        s[p + k] == t[k],
{
    assert(s.subrange(p, p + t.len())[k] == t[k]);
}

pub proof fn lemma_sub_at(s: Seq<u8>, p: int, t: Seq<u8>, a: int, b: int)
    requires
        holds_at(s, p, t),
        0 <= a <= b <= t.len(),
    ensures
        s.subrange(p + a, p + b) == t.subrange(a, b),
{
    assert(s.subrange(p + a, p + b) =~= s.subrange(p, p + t.len()).subrange(a, b));
}

proof fn lemma_number_roundtrip(s: Seq<u8>, p: usize, f: FieldModel)
    requires
        wf_argument(f),
        f.0 != DBFieldType::String && f.0 != DBFieldType::Binary,
        holds_at(s, p as int, field_bytes(f.0, f.1)),
        s.len() <= usize::MAX,
    ensures
        spec_number_field(s, p) == Ok::<(FieldModel, usize), ParseError>(
            (f, (p + field_bytes(f.0, f.1).len()) as usize),
        ),
{
    let b = field_bytes(f.0, f.1);
    lemma_byte_at(s, p as int, b, 0);
    lemma_sub_at(s, p as int, b, 1, b.len() as int);
    assert(b.subrange(1, b.len() as int) =~= f.1);
}

proof fn lemma_string_roundtrip(s: Seq<u8>, p: usize, f: FieldModel)
    requires
        wf_argument(f),
        f.0 == DBFieldType::String,
        holds_at(s, p as int, field_bytes(f.0, f.1)),
        s.len() <= usize::MAX,
    ensures
        spec_string_field(s, p) == Ok::<(FieldModel, usize), ParseError>(
            (f, (p + field_bytes(f.0, f.1).len()) as usize),
        ),
{
    let b = field_bytes(f.0, f.1);
    let v = f.1;
    let lb = string_length_byte(v.len());
    assert(b == seq![0x26u8, 0, 0, 0, lb] + v + seq![0u8, 0]);
    lemma_sub_at(s, p as int, b, 0, 1);
    assert(b.subrange(0, 1) =~= seq![0x26u8]);
    lemma_byte_at(s, p as int, b, 1);
    lemma_byte_at(s, p as int, b, 2);
    lemma_byte_at(s, p as int, b, 3);
    lemma_byte_at(s, p as int, b, 4);
    assert(lb as int == v.len() / 2 + 1);
    lemma_sub_at(s, p as int, b, 5, 5 + v.len() as int);
    assert(b.subrange(5, 5 + v.len() as int) =~= v);
}

proof fn lemma_binary_roundtrip(s: Seq<u8>, p: usize, f: FieldModel)
    requires
        wf_argument(f),
        f.0 == DBFieldType::Binary,
        holds_at(s, p as int, field_bytes(f.0, f.1)),
        s.len() <= usize::MAX,
    ensures
        spec_binary_field(s, p) == Ok::<(FieldModel, usize), ParseError>(
            (f, (p + field_bytes(f.0, f.1).len()) as usize),
        ),
{
    let b = field_bytes(f.0, f.1);
    let v = f.1;
    let lenw = (v.len() % 0x1_0000_0000) as u32;
    assert(b == seq![0x14u8] + be32(lenw) + v);
    crate::wire::lemma_be32_roundtrip(lenw);
    lemma_byte_at(s, p as int, b, 0);
    lemma_byte_at(s, p as int, b, 1);
    lemma_byte_at(s, p as int, b, 2);
    lemma_byte_at(s, p as int, b, 3);
    lemma_byte_at(s, p as int, b, 4);
    lemma_sub_at(s, p as int, b, 5, 5 + v.len() as int);
    assert(b.subrange(5, 5 + v.len() as int) =~= v);
}

/// A well-formed argument written at `p` reads back as itself.
pub proof fn lemma_argument_roundtrip(s: Seq<u8>, p: usize, f: FieldModel)
    requires
        wf_argument(f),
        holds_at(s, p as int, field_bytes(f.0, f.1)),
        s.len() <= usize::MAX,
    ensures
        spec_argument(s, p, arg_type_byte(f.0)) == Ok::<(FieldModel, usize), ParseError>(
            (f, (p + field_bytes(f.0, f.1).len()) as usize),
        ),
{
    match f.0 {
        DBFieldType::String => lemma_string_roundtrip(s, p, f),
        DBFieldType::Binary => lemma_binary_roundtrip(s, p, f),
        _ => lemma_number_roundtrip(s, p, f),
    }
}

/// Well-formed arguments `i..n` written at `p` read back as themselves.
pub proof fn lemma_arguments_roundtrip(
    s: Seq<u8>,
    p: usize,
    fs: Seq<FieldModel>,
    types: Seq<u8>,
    i: nat,
)
    requires
        i <= fs.len(),
        fs.len() <= types.len(),
        forall|k: int| 0 <= k < fs.len() ==> wf_argument(#[trigger] fs[k]),
        forall|k: int| 0 <= k < fs.len() ==> types[k] == arg_type_byte(#[trigger] fs[k].0),
        holds_at(s, p as int, fields_bytes(fs.subrange(i as int, fs.len() as int))),
        s.len() <= usize::MAX,
    ensures
        spec_arguments_from(s, p, types, i, fs.len()) == Ok::<(Seq<FieldModel>, usize), ParseError>(
            (
                fs.subrange(i as int, fs.len() as int),
                (p + fields_bytes(fs.subrange(i as int, fs.len() as int)).len()) as usize,
            ),
        ),
    decreases fs.len() - i,
{
    let rest = fs.subrange(i as int, fs.len() as int);
    if i == fs.len() {
        assert(rest =~= Seq::<FieldModel>::empty());
    } else {
        lemma_fields_bytes_first(rest);
        let f = fs[i as int];
        assert(rest[0] == f);
        assert(rest.drop_first() =~= fs.subrange(i as int + 1, fs.len() as int));
        let fb = field_bytes(f.0, f.1);
        lemma_holds_at_split(s, p as int, fb, fields_bytes(rest.drop_first()));
        lemma_argument_roundtrip(s, p, f);
        lemma_arguments_roundtrip(s, (p + fb.len()) as usize, fs, types, i + 1);
        assert(seq![f] + fs.subrange(i as int + 1, fs.len() as int) =~= rest);
    }
}

/// A list of at most twelve well-formed arguments, written at `p`, reads
/// back as itself and ends where its wire form ends.
#[verifier::rlimit(40)]
pub proof fn lemma_collection_roundtrip(s: Seq<u8>, p: usize, fs: Seq<FieldModel>)
    requires
        fs.len() <= 12,
        forall|k: int| 0 <= k < fs.len() ==> wf_argument(#[trigger] fs[k]),
        holds_at(s, p as int, collection_bytes(fs)),
        s.len() <= usize::MAX,
    ensures
        spec_collection(s, p) == Ok::<(Seq<FieldModel>, usize), ParseError>(
            (fs, (p + collection_bytes(fs).len()) as usize),
        ),
{
    let head = seq![0x0fu8, (fs.len() % 256) as u8, 0x14u8, 0, 0, 0, 0x0c];
    let tb = type_bytes(fs);
    let fb = fields_bytes(fs);
    let c = collection_bytes(fs);
    assert(c == head + tb + fb);
    lemma_holds_at_split(s, p as int, head + tb, fb);
    lemma_sub_at(s, p as int, c, 0, 1);
    assert(c.subrange(0, 1) =~= seq![0x0fu8]);
    lemma_byte_at(s, p as int, c, 1);
    lemma_sub_at(s, p as int, c, 2, 3);
    assert(c.subrange(2, 3) =~= seq![0x14u8]);
    lemma_byte_at(s, p as int, c, 3);
    lemma_byte_at(s, p as int, c, 4);
    lemma_byte_at(s, p as int, c, 5);
    lemma_byte_at(s, p as int, c, 6);
    lemma_sub_at(s, p as int, c, 7, 19);
    assert(c.subrange(7, 19) =~= tb);
    assert(fs.subrange(0, fs.len() as int) =~= fs);
    lemma_arguments_roundtrip(s, (p + 19) as usize, fs, tb, 0);
    let n = (fs.len() % 256) as u8;
    assert(n as nat == fs.len());
    assert(spec_tag(s, p, seq![0x0fu8]) == Ok::<((), usize), ParseError>(((), (p + 1) as usize)));
    assert(spec_u8(s, (p + 1) as usize) == Ok::<(u8, usize), ParseError>((n, (p + 2) as usize)));
    assert(spec_tag(s, (p + 2) as usize, seq![0x14u8]) == Ok::<((), usize), ParseError>(
        ((), (p + 3) as usize),
    ));
    assert(crate::wire::be32_value(0, 0, 0, 0x0c) == 12);
    assert(spec_be_u32(s, (p + 3) as usize) == Ok::<(u32, usize), ParseError>((12, (p + 7) as usize)));
    assert(spec_take(s, (p + 7) as usize, 12) == Ok::<(Seq<u8>, usize), ParseError>(
        (tb, (p + 19) as usize),
    ));
    assert(c.len() == 19 + fb.len());
}

} // verus!
