//! Status packets (UDP port 50002): the magic, a packet kind, the sender's
//! model name, two bytes about the sender, and a kind-specific content.

use vstd::prelude::*;
use vstd::utf8::{decode_utf8, valid_utf8, encode_utf8};
use crate::buffer::{bytes_view, bytes_from_vec, bytes_as_slice};
use crate::rekordbox::SOFTWARE_IDENTIFICATION;
use crate::text::{
    decode_utf16, be_units, utf16_be, trim_nul_end, string_from_utf8, trim_nul, read_be_units,
    decode_utf16_units, push_utf16_be, encode_utf16, lemma_units_be_len, utf16_len,
};
use crate::utils::network::Ipv4;
use crate::wire::{
    ErrorKind, ParseError, PResult, agrees, fail, spec_u8, spec_be_u16, spec_be_u32, spec_be_u64,
    spec_take, spec_tag, read_u8, read_be_u16, read_be_u32, read_be_u64, take_bytes, match_tag,
    rest_of, push_u8, push_be16, push_be32, push_be64, push_slice, push_zeros, be16, be32, be64,
    zeros, be32_value,
};

verus! {

pub open spec fn udp_magic() -> Seq<u8> {
    seq![0x51u8, 0x73, 0x70, 0x74, 0x31, 0x57, 0x6d, 0x4a, 0x4f, 0x4c]
}

pub proof fn lemma_udp_magic()
    ensures
        SOFTWARE_IDENTIFICATION@ == udp_magic(),
{
    assert(SOFTWARE_IDENTIFICATION@ =~= udp_magic());
}

// ---------------------------------------------------------------------------
// Magic

#[derive(Debug, PartialEq, Eq)]
pub struct UdpMagic;

impl UdpMagic {
    pub fn decode(input: &[u8]) -> (r: Result<(&[u8], UdpMagic), ParseError>)
        ensures
            match (r, spec_tag(input@, 0, udp_magic())) {
                (Ok((rest, _)), Ok((_, q))) => rest@ == input@.subrange(q as int, input@.len() as int),
                (Err(e), Err(e2)) => e == e2,
                _ => false,
            },
    {
        proof {
            lemma_udp_magic();
        }
        match match_tag(input, 0, &SOFTWARE_IDENTIFICATION) {
            Ok((_, q)) => {
                let _len = input.len();
                Ok((rest_of(input, q), UdpMagic))
            },
            Err(e) => Err(e),
        }
    }

    pub fn encode(self) -> (b: bytes::Bytes)
        ensures
            bytes_view(b) == udp_magic(),
    {
        proof {
            lemma_udp_magic();
        }
        bytes_from_vec(vstd::slice::slice_to_vec(&SOFTWARE_IDENTIFICATION))
    }
}

// ---------------------------------------------------------------------------
// Model name

/// A device's model name: twenty bytes of UTF-8, NUL padded.
#[derive(Debug, PartialEq)]
pub struct ModelName(pub String);

impl View for ModelName {
    type V = Seq<char>;

    open spec fn view(&self) -> Seq<char> {
        self.0@
    }
}

pub open spec fn spec_model_name(s: Seq<u8>, p: usize) -> PResult<Seq<char>> {
    match spec_take(s, p, 20) {
        Err(e) => Err(e),
        Ok((b, q)) => if valid_utf8(b) {
            Ok((trim_nul_end(decode_utf8(b)), q))
        } else {
            fail(ErrorKind::Tag, q)
        },
    }
}

/// The twenty bytes of a model name.
pub open spec fn model_name_bytes(name: Seq<char>) -> Seq<u8> {
    encode_utf8(name) + zeros((20 - encode_utf8(name).len()) as nat)
}

pub open spec fn model_name_fits(name: Seq<char>) -> bool {
    encode_utf8(name).len() <= 20
}

impl ModelName {
    pub fn new(name: String) -> (m: ModelName)
        ensures
            m@ == name@,
    {
        ModelName(name)
    }

    pub fn decode_at(input: &[u8], p: usize) -> (r: PResult<ModelName>)
        ensures
            agrees(r, spec_model_name(input@, p)),
            r matches Ok((_, e)) ==> e <= input@.len(),
    {
        let (b, q) = match take_bytes(input, p, 20) {
            Ok(v) => v,
            Err(e) => { return Err(e); },
        };
        match string_from_utf8(b) {
            Some(model) => Ok((ModelName(trim_nul(model.as_str())), q)),
            None => Err(ParseError::new(ErrorKind::Tag, q)),
        }
    }

    pub fn decode(input: &[u8]) -> (r: Result<(&[u8], ModelName), ParseError>)
        ensures
            match (r, spec_model_name(input@, 0)) {
                (Ok((rest, m)), Ok((w, q))) => m@ == w && rest@ == input@.subrange(
                    q as int,
                    input@.len() as int,
                ),
                (Err(e), Err(e2)) => e == e2,
                _ => false,
            },
    {
        match Self::decode_at(input, 0) {
            Ok((m, q)) => Ok((rest_of(input, q), m)),
            Err(e) => Err(e),
        }
    }

    /// Appends the twenty bytes of this name.
    pub fn push_bytes(&self, out: &mut Vec<u8>)
        requires
            model_name_fits(self@),
        ensures
            final(out)@ == old(out)@ + model_name_bytes(self@),
    {
        let bytes = self.0.as_str().as_bytes();
        push_slice(out, bytes);
        push_zeros(out, 20 - bytes.len());
    }

    pub fn encode(self) -> (b: bytes::Bytes)
        requires
            model_name_fits(self@),
        ensures
            bytes_view(b) == model_name_bytes(self@),
    {
        let mut out: Vec<u8> = Vec::new();
        self.push_bytes(&mut out);
        assert(out@ =~= model_name_bytes(self@));
        bytes_from_vec(out)
    }

    pub fn to_string(&self) -> (s: &String)
        ensures
            s@ == self@,
    {
        &self.0
    }

    /// Whether the name fits its twenty bytes.
    pub fn fits(&self) -> (b: bool)
        ensures
            b == model_name_fits(self@),
    {
        self.0.as_str().as_bytes().len() <= 20
    }
}

/// A name that reads back as itself: it fits its twenty bytes and does not
/// end with a NUL (trailing NULs are the padding).
pub open spec fn name_roundtrips(name: Seq<char>) -> bool {
    &&& model_name_fits(name)
    &&& (name.len() == 0 || name.last() != '\0')
}

/// `n` NUL characters.
pub open spec fn nuls(n: nat) -> Seq<char> {
    Seq::new(n, |i: int| '\0')
}

proof fn lemma_encode_utf8_append(a: Seq<char>, b: Seq<char>)
    ensures
        encode_utf8(a + b) == encode_utf8(a) + encode_utf8(b),
    decreases a.len(),
{
    if a.len() == 0 {
        assert(a + b =~= b);
        assert(encode_utf8(a) + encode_utf8(b) =~= encode_utf8(b));
    } else {
        lemma_encode_utf8_append(a.drop_first(), b);
        assert((a + b).drop_first() =~= a.drop_first() + b);
        assert((a + b)[0] == a[0]);
        assert(encode_utf8(a + b) =~= encode_utf8(a) + encode_utf8(b));
    }
}

proof fn lemma_encode_nuls(n: nat)
    ensures
        encode_utf8(nuls(n)) == zeros(n),
    decreases n,
{
    if n > 0 {
        lemma_encode_nuls((n - 1) as nat);
        assert(nuls(n).drop_first() =~= nuls((n - 1) as nat));
        assert(nuls(n)[0] == '\0');
        assert(('\0' as u32) == 0);
        assert((0u32 & 0x7F) as u8 == 0) by (bit_vector);
        assert(encode_utf8(nuls(n)) =~= zeros(n));
    } else {
        assert(encode_utf8(nuls(n)) =~= zeros(n));
    }
}

proof fn lemma_trim_nuls(name: Seq<char>, n: nat)
    requires
        name.len() == 0 || name.last() != '\0',
    ensures
        trim_nul_end(name + nuls(n)) == name,
    decreases n,
{
    if n == 0 {
        assert(name + nuls(0) =~= name);
    } else {
        let s = name + nuls(n);
        assert(s.last() == '\0');
        assert(s.drop_last() =~= name + nuls((n - 1) as nat));
        lemma_trim_nuls(name, (n - 1) as nat);
    }
}

/// A name that fits and does not end with a NUL reads back from its twenty
/// bytes as itself.
pub proof fn lemma_model_name_roundtrip(name: Seq<char>)
    requires
        name_roundtrips(name),
    ensures
        model_name_bytes(name).len() == 20,
        valid_utf8(model_name_bytes(name)),
        trim_nul_end(decode_utf8(model_name_bytes(name))) == name,
        spec_model_name(model_name_bytes(name), 0) == Ok::<(Seq<char>, usize), ParseError>((name, 20usize)),
{
    let k = (20 - encode_utf8(name).len()) as nat;
    lemma_encode_nuls(k);
    lemma_encode_utf8_append(name, nuls(k));
    vstd::utf8::encode_utf8_valid_utf8(name + nuls(k));
    vstd::utf8::encode_utf8_decode_utf8(name + nuls(k));
    lemma_trim_nuls(name, k);
    assert(model_name_bytes(name).subrange(0, 20) =~= model_name_bytes(name));
}

// ---------------------------------------------------------------------------
// Player slot

#[derive(Debug, PartialEq, Eq, Structural, Clone, Copy)]
pub enum PlayerSlot {
    Empty,
    Cd,
    Sd,
    Usb,
    Rekordbox,
    Unknown(u8),
}

pub open spec fn slot_of(b: u8) -> PlayerSlot {
    if b == 0 {
        PlayerSlot::Empty
    } else if b == 1 {
        PlayerSlot::Cd
    } else if b == 2 {
        PlayerSlot::Sd
    } else if b == 3 {
        PlayerSlot::Usb
    } else if b == 4 {
        PlayerSlot::Rekordbox
    } else {
        PlayerSlot::Unknown(b)
    }
}

pub open spec fn slot_byte(slot: PlayerSlot) -> u8 {
    match slot {
        PlayerSlot::Empty => 0,
        PlayerSlot::Cd => 1,
        PlayerSlot::Sd => 2,
        PlayerSlot::Usb => 3,
        PlayerSlot::Rekordbox => 4,
        PlayerSlot::Unknown(v) => v,
    }
}

pub open spec fn spec_slot(s: Seq<u8>, p: usize) -> PResult<PlayerSlot> {
    match spec_u8(s, p) {
        Ok((b, q)) => Ok((slot_of(b), q)),
        Err(e) => Err(e),
    }
}

impl PlayerSlot {
    pub fn decode_at(input: &[u8], p: usize) -> (r: PResult<PlayerSlot>)
        ensures
            r == spec_slot(input@, p),
    {
        match read_u8(input, p) {
            Ok((b, q)) => Ok((PlayerSlot::from_byte(b), q)),
            Err(e) => Err(e),
        }
    }

    pub fn from_byte(value: u8) -> (s: PlayerSlot)
        ensures
            s == slot_of(value),
    {
        match value {
            0 => PlayerSlot::Empty,
            1 => PlayerSlot::Cd,
            2 => PlayerSlot::Sd,
            3 => PlayerSlot::Usb,
            4 => PlayerSlot::Rekordbox,
            _ => PlayerSlot::Unknown(value),
        }
    }

    pub fn to_byte(&self) -> (b: u8)
        ensures
            b == slot_byte(*self),
    {
        match *self {
            PlayerSlot::Empty => 0,
            PlayerSlot::Cd => 1,
            PlayerSlot::Sd => 2,
            PlayerSlot::Usb => 3,
            PlayerSlot::Rekordbox => 4,
            PlayerSlot::Unknown(value) => value,
        }
    }

    pub fn encode(self) -> (b: bytes::Bytes)
        ensures
            bytes_view(b) == seq![slot_byte(self)],
    {
        let mut v: Vec<u8> = Vec::new();
        v.push(self.to_byte());
        bytes_from_vec(v)
    }
}

/// A slot is written as its byte and read back as itself, unless it is an
/// `Unknown` slot holding the byte of a known one.
pub proof fn lemma_slot_roundtrip(slot: PlayerSlot, b: u8)
    ensures
        !(slot matches PlayerSlot::Unknown(v) && v <= 4) ==> slot_of(slot_byte(slot)) == slot,
        slot_byte(slot_of(b)) == b,
{
}

// ---------------------------------------------------------------------------
// Packet kind

#[derive(Debug, PartialEq, Eq, Structural, Clone, Copy)]
pub enum StatusPacketType {
    Cdj,
    Djm,
    LoadCmd,
    LoadCmdReply,
    LinkQuery,
    LinkReply,
    RekordboxHello,
    RekordboxReply,
    Unknown(u8),
}

pub open spec fn status_type_of(b: u8) -> StatusPacketType {
    if b == 0x0a {
        StatusPacketType::Cdj
    } else if b == 0x29 {
        StatusPacketType::Djm
    } else if b == 0x19 {
        StatusPacketType::LoadCmd
    } else if b == 0x1a {
        StatusPacketType::LoadCmdReply
    } else if b == 0x05 {
        StatusPacketType::LinkQuery
    } else if b == 0x06 {
        StatusPacketType::LinkReply
    } else if b == 0x10 {
        StatusPacketType::RekordboxHello
    } else if b == 0x11 {
        StatusPacketType::RekordboxReply
    } else {
        StatusPacketType::Unknown(b)
    }
}

pub open spec fn status_type_byte(t: StatusPacketType) -> u8 {
    match t {
        StatusPacketType::Cdj => 0x0a,
        StatusPacketType::Djm => 0x29,
        StatusPacketType::LoadCmd => 0x19,
        StatusPacketType::LoadCmdReply => 0x1a,
        StatusPacketType::LinkQuery => 0x05,
        StatusPacketType::LinkReply => 0x06,
        StatusPacketType::RekordboxHello => 0x10,
        StatusPacketType::RekordboxReply => 0x11,
        StatusPacketType::Unknown(v) => v,
    }
}

/// The kinds whose content can be read.
pub open spec fn has_content_decoder(t: StatusPacketType) -> bool {
    match t {
        StatusPacketType::LinkQuery | StatusPacketType::RekordboxHello
        | StatusPacketType::LinkReply | StatusPacketType::Cdj | StatusPacketType::Djm => true,
        _ => false,
    }
}

pub open spec fn spec_status_type(s: Seq<u8>, p: usize) -> PResult<StatusPacketType> {
    match spec_take(s, p, 1) {
        Ok((b, q)) => Ok((status_type_of(b[0]), q)),
        Err(e) => Err(e),
    }
}

impl StatusPacketType {
    pub fn from_byte(b: u8) -> (t: StatusPacketType)
        ensures
            t == status_type_of(b),
    {
        match b {
            0x0a => StatusPacketType::Cdj,
            0x29 => StatusPacketType::Djm,
            0x19 => StatusPacketType::LoadCmd,
            0x1a => StatusPacketType::LoadCmdReply,
            0x05 => StatusPacketType::LinkQuery,
            0x06 => StatusPacketType::LinkReply,
            0x10 => StatusPacketType::RekordboxHello,
            0x11 => StatusPacketType::RekordboxReply,
            _ => StatusPacketType::Unknown(b),
        }
    }

    pub fn to_byte(&self) -> (b: u8)
        ensures
            b == status_type_byte(*self),
    {
        match *self {
            StatusPacketType::Cdj => 0x0a,
            StatusPacketType::Djm => 0x29,
            StatusPacketType::LoadCmd => 0x19,
            StatusPacketType::LoadCmdReply => 0x1a,
            StatusPacketType::LinkQuery => 0x05,
            StatusPacketType::LinkReply => 0x06,
            StatusPacketType::RekordboxHello => 0x10,
            StatusPacketType::RekordboxReply => 0x11,
            StatusPacketType::Unknown(val) => val,
        }
    }

    pub fn decode_at(input: &[u8], p: usize) -> (r: PResult<StatusPacketType>)
        ensures
            r == spec_status_type(input@, p),
    {
        match take_bytes(input, p, 1) {
            Ok((b, q)) => Ok((StatusPacketType::from_byte(b[0]), q)),
            Err(e) => Err(e),
        }
    }

    /// Whether packets of this kind have a readable content.
    pub fn has_content_decoder(&self) -> (b: bool)
        ensures
            b == has_content_decoder(*self),
    {
        match *self {
            StatusPacketType::LinkQuery | StatusPacketType::RekordboxHello
            | StatusPacketType::LinkReply | StatusPacketType::Cdj | StatusPacketType::Djm => true,
            _ => false,
        }
    }

    pub fn encode(self) -> (b: bytes::Bytes)
        ensures
            bytes_view(b) == seq![status_type_byte(self)],
    {
        let mut v: Vec<u8> = Vec::new();
        v.push(self.to_byte());
        bytes_from_vec(v)
    }
}

/// A kind is written as its byte and read back as itself, unless it is an
/// `Unknown` kind holding the byte of a known one.
pub proof fn lemma_status_type_roundtrip(t: StatusPacketType, b: u8)
    ensures
        (t matches StatusPacketType::Unknown(v) ==> status_type_of(v) == t) ==> status_type_of(
            status_type_byte(t),
        ) == t,
        status_type_byte(status_type_of(b)) == b,
{
}

// ---------------------------------------------------------------------------
// Fixed-size UTF-16 text

/// A text stored in a fixed number of bytes of UTF-16BE, NUL padded.
#[derive(Debug, PartialEq)]
pub struct Utf16FixedString {
    pub capacity: usize,
    pub value: String,
}

pub struct Utf16Model {
    pub capacity: usize,
    pub value: Seq<char>,
}

impl View for Utf16FixedString {
    type V = Utf16Model;

    open spec fn view(&self) -> Utf16Model {
        Utf16Model { capacity: self.capacity, value: self.value@ }
    }
}

pub open spec fn spec_utf16_fixed(s: Seq<u8>, p: usize, capacity: usize) -> PResult<Utf16Model> {
    let n = capacity / 2;
    if p + 2 * n <= s.len() {
        let end = (p + 2 * n) as usize;
        match decode_utf16(be_units(s.subrange(p as int, end as int))) {
            Some(cs) => Ok((Utf16Model { capacity, value: cs }, end)),
            None => fail(ErrorKind::Tag, end),
        }
    } else if p <= s.len() {
        fail(ErrorKind::Eof, (p + 2 * ((s.len() - p) / 2)) as usize)
    } else {
        fail(ErrorKind::Eof, p)
    }
}

/// The bytes of a fixed-size text.
pub open spec fn utf16_fixed_bytes(m: Utf16Model) -> Seq<u8> {
    utf16_be(m.value) + zeros((m.capacity - utf16_be(m.value).len()) as nat)
}

pub open spec fn utf16_fits(m: Utf16Model) -> bool {
    utf16_be(m.value).len() <= m.capacity
}

impl Utf16FixedString {
    pub fn new(value: String, capacity: usize) -> (f: Utf16FixedString)
        ensures
            f@ == (Utf16Model { capacity, value: value@ }),
    {
        Utf16FixedString { value, capacity }
    }

    pub fn decode_at(input: &[u8], p: usize, capacity: usize) -> (r: PResult<Utf16FixedString>)
        ensures
            agrees(r, spec_utf16_fixed(input@, p, capacity)),
            r matches Ok((_, e)) ==> e <= input@.len(),
    {
        let n = capacity / 2;
        let len = input.len();
        if p <= len && (len - p) / 2 >= n {
            let units = read_be_units(input, p, n);
            match decode_utf16_units(&units) {
                Some(value) => Ok((Utf16FixedString { value, capacity }, p + 2 * n)),
                None => Err(ParseError::new(ErrorKind::Tag, p + 2 * n)),
            }
        } else if p <= len {
            Err(ParseError::new(ErrorKind::Eof, p + 2 * ((len - p) / 2)))
        } else {
            Err(ParseError::new(ErrorKind::Eof, p))
        }
    }

    /// Appends the bytes of this text.
    pub fn push_bytes(&self, out: &mut Vec<u8>)
        requires
            utf16_fits(self@),
        ensures
            final(out)@ == old(out)@ + utf16_fixed_bytes(self@),
    {
        let start = out.len();
        push_utf16_be(out, self.value.as_str());
        let written = out.len() - start;
        push_zeros(out, self.capacity - written);
        assert(out@ =~= old(out)@ + utf16_fixed_bytes(self@));
    }

    pub fn encode(self) -> (b: bytes::Bytes)
        requires
            utf16_fits(self@),
        ensures
            bytes_view(b) == utf16_fixed_bytes(self@),
    {
        let mut out: Vec<u8> = Vec::new();
        self.push_bytes(&mut out);
        assert(out@ =~= utf16_fixed_bytes(self@));
        bytes_from_vec(out)
    }
}

} // verus!

verus! {

// ---------------------------------------------------------------------------
// Contents

#[derive(Debug, PartialEq, Eq, Structural, Clone, Copy)]
pub enum TrackAnalyzeType {
    Unknown,
    Rekordbox,
    File,
    Cd,
}

pub open spec fn analyze_type_of(b: u8) -> TrackAnalyzeType {
    if b == 1 {
        TrackAnalyzeType::Rekordbox
    } else if b == 2 {
        TrackAnalyzeType::File
    } else if b == 5 {
        TrackAnalyzeType::Cd
    } else {
        TrackAnalyzeType::Unknown
    }
}

impl TrackAnalyzeType {
    pub fn decode_at(input: &[u8], p: usize) -> (r: PResult<TrackAnalyzeType>)
        ensures
            r == match spec_u8(input@, p) {
                Ok((b, q)) => Ok((analyze_type_of(b), q)),
                Err(e) => Err(e),
            },
    {
        match read_u8(input, p) {
            Ok((b, q)) => {
                let t = if b == 1 {
                    TrackAnalyzeType::Rekordbox
                } else if b == 2 {
                    TrackAnalyzeType::File
                } else if b == 5 {
                    TrackAnalyzeType::Cd
                } else {
                    TrackAnalyzeType::Unknown
                };
                Ok((t, q))
            },
            Err(e) => Err(e),
        }
    }
}

/// What a player reports about itself.
#[derive(Debug, PartialEq, Eq, Structural, Clone, Copy)]
pub struct Cdj {
    pub activity: u16,
    pub loaded_player_number: u16,
    pub loaded_slot: PlayerSlot,
    pub track_analyze_type: TrackAnalyzeType,
    pub track_id: u32,
    pub track_number: u32,
}

pub open spec fn spec_cdj(s: Seq<u8>, p: usize) -> PResult<Cdj> {
    match spec_be_u16(s, p) {
        Err(e) => Err(e),
        Ok((activity, p1)) => match spec_be_u16(s, p1) {
            Err(e) => Err(e),
            Ok((loaded_player_number, p2)) => match spec_slot(s, p2) {
                Err(e) => Err(e),
                Ok((loaded_slot, p3)) => match spec_u8(s, p3) {
                    Err(e) => Err(e),
                    Ok((ta, p4)) => match spec_take(s, p4, 1) {
                        Err(e) => Err(e),
                        Ok((_, p5)) => match spec_be_u32(s, p5) {
                            Err(e) => Err(e),
                            Ok((track_id, p6)) => match spec_be_u32(s, p6) {
                                Err(e) => Err(e),
                                Ok((track_number, p7)) => Ok(
                                    (
                                        Cdj {
                                            activity,
                                            loaded_player_number,
                                            loaded_slot,
                                            track_analyze_type: analyze_type_of(ta),
                                            track_id,
                                            track_number,
                                        },
                                        p7,
                                    ),
                                ),
                            },
                        },
                    },
                },
            },
        },
    }
}

impl Cdj {
    pub fn decode_at(input: &[u8], p: usize) -> (r: PResult<Cdj>)
        ensures
            r == spec_cdj(input@, p),
            r matches Ok((_, e)) ==> e <= input@.len(),
    {
        let _len = input.len();
        let (activity, p1) = match read_be_u16(input, p) {
            Ok(v) => v,
            Err(e) => { return Err(e); },
        };
        let (loaded_player_number, p2) = match read_be_u16(input, p1) {
            Ok(v) => v,
            Err(e) => { return Err(e); },
        };
        let (loaded_slot, p3) = match PlayerSlot::decode_at(input, p2) {
            Ok(v) => v,
            Err(e) => { return Err(e); },
        };
        let (track_analyze_type, p4) = match TrackAnalyzeType::decode_at(input, p3) {
            Ok(v) => v,
            Err(e) => { return Err(e); },
        };
        let p5 = match take_bytes(input, p4, 1) {
            Ok((_, q)) => q,
            Err(e) => { return Err(e); },
        };
        let (track_id, p6) = match read_be_u32(input, p5) {
            Ok(v) => v,
            Err(e) => { return Err(e); },
        };
        let (track_number, p7) = match read_be_u32(input, p6) {
            Ok(v) => v,
            Err(e) => { return Err(e); },
        };
        Ok(
            (
                Cdj {
                    activity,
                    loaded_player_number,
                    loaded_slot,
                    track_analyze_type,
                    track_id,
                    track_number,
                },
                p7,
            ),
        )
    }
}

/// A player's status content is read from fixed places: the big-endian
/// activity at bytes 0..2, the loaded player's number at 2..4, the slot byte
/// at 4, the analyze type byte at 5, one pad byte at 6, the big-endian track
/// id at 7..11 and the big-endian track number at 11..15. With these 15
/// bytes present it decodes to exactly those values and ends after them;
/// with fewer it fails.
pub proof fn lemma_cdj_layout(s: Seq<u8>, p: usize)
    requires
        s.len() <= usize::MAX,
    ensures
        p + 15 <= s.len() ==> spec_cdj(s, p) == Ok::<(Cdj, usize), ParseError>(
            (
                (Cdj {
                    activity: crate::wire::be16_value(s[p as int], s[p + 1]),
                    loaded_player_number: crate::wire::be16_value(s[p + 2], s[p + 3]),
                    loaded_slot: slot_of(s[p + 4]),
                    track_analyze_type: analyze_type_of(s[p + 5]),
                    track_id: be32_value(s[p + 7], s[p + 8], s[p + 9], s[p + 10]),
                    track_number: be32_value(s[p + 11], s[p + 12], s[p + 13], s[p + 14]),
                }),
                (p + 15) as usize,
            ),
        ),
        p + 15 > s.len() ==> spec_cdj(s, p) is Err,
{
}

/// A mixer's report (no content is read).
#[derive(Debug, PartialEq, Eq, Structural, Clone, Copy)]
pub struct Djm;

/// A link query from a player.
#[derive(Debug, PartialEq, Eq, Structural, Clone, Copy)]
pub struct LinkQuery {
    pub source_ip: Ipv4,
    pub remote_player_number: u8,
    pub slot: PlayerSlot,
}

pub open spec fn spec_link_query(s: Seq<u8>, p: usize) -> PResult<LinkQuery> {
    match spec_be_u16(s, p) {
        Err(e) => Err(e),
        Ok((_, p1)) => match spec_take(s, p1, 4) {
            Err(e) => Err(e),
            Ok((ip, p2)) => match spec_take(s, p2, 3) {
                Err(e) => Err(e),
                Ok((_, p3)) => match spec_u8(s, p3) {
                    Err(e) => Err(e),
                    Ok((remote_player_number, p4)) => match spec_take(s, p4, 3) {
                        Err(e) => Err(e),
                        Ok((_, p5)) => match spec_slot(s, p5) {
                            Err(e) => Err(e),
                            Ok((slot, p6)) => Ok(
                                (
                                    LinkQuery {
                                        source_ip: Ipv4 { a: ip[0], b: ip[1], c: ip[2], d: ip[3] },
                                        remote_player_number,
                                        slot,
                                    },
                                    p6,
                                ),
                            ),
                        },
                    },
                },
            },
        },
    }
}

/// A link query is read from fixed places: two ignored bytes, the source's
/// IPv4 address at bytes 2..6, three pad bytes, the remote player number at
/// byte 9, three pad bytes and the slot byte at 13. With these 14 bytes
/// present it decodes to exactly those values and ends after them; with
/// fewer it fails.
pub proof fn lemma_link_query_layout(s: Seq<u8>, p: usize)
    requires
        s.len() <= usize::MAX,
    ensures
        p + 14 <= s.len() ==> spec_link_query(s, p) == Ok::<(LinkQuery, usize), ParseError>(
            (
                (LinkQuery {
                    source_ip: Ipv4 { a: s[p + 2], b: s[p + 3], c: s[p + 4], d: s[p + 5] },
                    remote_player_number: s[p + 9],
                    slot: slot_of(s[p + 13]),
                }),
                (p + 14) as usize,
            ),
        ),
        p + 14 > s.len() ==> spec_link_query(s, p) is Err,
{
}

impl LinkQuery {
    pub fn decode_at(input: &[u8], p: usize) -> (r: PResult<LinkQuery>)
        ensures
            r == spec_link_query(input@, p),
            r matches Ok((_, e)) ==> e <= input@.len(),
    {
        let _len = input.len();
        let p1 = match read_be_u16(input, p) {
            Ok((_, q)) => q,
            Err(e) => { return Err(e); },
        };
        let (ip, p2) = match take_bytes(input, p1, 4) {
            Ok(v) => v,
            Err(e) => { return Err(e); },
        };
        let p3 = match take_bytes(input, p2, 3) {
            Ok((_, q)) => q,
            Err(e) => { return Err(e); },
        };
        let (remote_player_number, p4) = match read_u8(input, p3) {
            Ok(v) => v,
            Err(e) => { return Err(e); },
        };
        let p5 = match take_bytes(input, p4, 3) {
            Ok((_, q)) => q,
            Err(e) => { return Err(e); },
        };
        let (slot, p6) = match PlayerSlot::decode_at(input, p5) {
            Ok(v) => v,
            Err(e) => { return Err(e); },
        };
        Ok(
            (
                LinkQuery {
                    source_ip: Ipv4::new(ip[0], ip[1], ip[2], ip[3]),
                    remote_player_number,
                    slot,
                },
                p6,
            ),
        )
    }
}

/// The answer to a link query: what this library offers.
#[derive(Debug, PartialEq)]
pub struct LinkReply {
    pub source_player_number: u8,
    pub slot: PlayerSlot,
    pub name: Utf16FixedString,
    pub date: Utf16FixedString,
    pub unknown5: Utf16FixedString,
    pub track_count: u32,
    pub unknown6: u16,
    pub unknown7: u16,
    pub playlist_count: u32,
    pub bytes_total: u64,
    pub bytes_free: u64,
}

pub struct LinkReplyModel {
    pub source_player_number: u8,
    pub slot: PlayerSlot,
    pub name: Utf16Model,
    pub date: Utf16Model,
    pub unknown5: Utf16Model,
    pub track_count: u32,
    pub unknown6: u16,
    pub unknown7: u16,
    pub playlist_count: u32,
    pub bytes_total: u64,
    pub bytes_free: u64,
}

impl View for LinkReply {
    type V = LinkReplyModel;

    open spec fn view(&self) -> LinkReplyModel {
        LinkReplyModel {
            source_player_number: self.source_player_number,
            slot: self.slot,
            name: self.name@,
            date: self.date@,
            unknown5: self.unknown5@,
            track_count: self.track_count,
            unknown6: self.unknown6,
            unknown7: self.unknown7,
            playlist_count: self.playlist_count,
            bytes_total: self.bytes_total,
            bytes_free: self.bytes_free,
        }
    }
}

/// The content of a link reply as it is read: the slot, three texts of 64,
/// 24 and 32 bytes, then the counts; the source player number is always
/// `0x11`.
pub open spec fn spec_link_reply(s: Seq<u8>, p: usize) -> PResult<LinkReplyModel> {
    match spec_slot(s, p) {
        Err(e) => Err(e),
        Ok((slot, p1)) => match spec_utf16_fixed(s, p1, 64) {
            Err(e) => Err(e),
            Ok((name, p2)) => match spec_utf16_fixed(s, p2, 24) {
                Err(e) => Err(e),
                Ok((date, p3)) => match spec_utf16_fixed(s, p3, 32) {
                    Err(e) => Err(e),
                    Ok((unknown5, p4)) => match spec_be_u32(s, p4) {
                        Err(e) => Err(e),
                        Ok((track_count, p5)) => match spec_be_u16(s, p5) {
                            Err(e) => Err(e),
                            Ok((unknown6, p6)) => match spec_be_u16(s, p6) {
                                Err(e) => Err(e),
                                Ok((unknown7, p7)) => match spec_be_u32(s, p7) {
                                    Err(e) => Err(e),
                                    Ok((playlist_count, p8)) => match spec_be_u64(s, p8) {
                                        Err(e) => Err(e),
                                        Ok((bytes_total, p9)) => match spec_be_u64(s, p9) {
                                            Err(e) => Err(e),
                                            Ok((bytes_free, p10)) => Ok(
                                                (
                                                    LinkReplyModel {
                                                        source_player_number: 0x11,
                                                        slot,
                                                        name,
                                                        date,
                                                        unknown5,
                                                        track_count,
                                                        unknown6,
                                                        unknown7,
                                                        playlist_count,
                                                        bytes_total,
                                                        bytes_free,
                                                    },
                                                    p10,
                                                ),
                                            ),
                                        },
                                    },
                                },
                            },
                        },
                    },
                },
            },
        },
    }
}

/// A link reply's numbers are read from fixed places after the slot byte
/// and the three texts (64, 24 and 32 bytes): the big-endian track count at
/// bytes 121..125, two 16-bit words at 125..129, the playlist count at
/// 129..133, the total bytes at 133..141 and the free bytes at 141..149.
/// Whatever the reply decodes to holds exactly those, and ends after them.
pub proof fn lemma_link_reply_layout(s: Seq<u8>, p: usize)
    requires
        s.len() <= usize::MAX,
    ensures
        spec_link_reply(s, p) matches Ok((m, q)) ==> {
            &&& q == p + 149
            &&& m.source_player_number == 0x11
            &&& m.slot == slot_of(s[p as int])
            &&& m.name.capacity == 64 && m.date.capacity == 24 && m.unknown5.capacity == 32
            &&& m.track_count == be32_value(s[p + 121], s[p + 122], s[p + 123], s[p + 124])
            &&& m.unknown6 == crate::wire::be16_value(s[p + 125], s[p + 126])
            &&& m.unknown7 == crate::wire::be16_value(s[p + 127], s[p + 128])
            &&& m.playlist_count == be32_value(s[p + 129], s[p + 130], s[p + 131], s[p + 132])
            &&& m.bytes_total == crate::wire::be64_value(
                be32_value(s[p + 133], s[p + 134], s[p + 135], s[p + 136]),
                be32_value(s[p + 137], s[p + 138], s[p + 139], s[p + 140]),
            )
            &&& m.bytes_free == crate::wire::be64_value(
                be32_value(s[p + 141], s[p + 142], s[p + 143], s[p + 144]),
                be32_value(s[p + 145], s[p + 146], s[p + 147], s[p + 148]),
            )
        },
{
}

/// The texts of a link reply fit their fixed sizes.
pub open spec fn link_reply_fits(m: LinkReplyModel) -> bool {
    &&& m.name.capacity == 64 && utf16_fits(m.name)
    &&& m.date.capacity == 24 && utf16_fits(m.date)
    &&& m.unknown5.capacity == 32 && utf16_fits(m.unknown5)
}

/// The content of a link reply as it is written.
pub open spec fn link_reply_bytes(m: LinkReplyModel) -> Seq<u8> {
    be16(156) + seq![0u8, 0, 0, m.source_player_number, 0, 0, 0, slot_byte(m.slot)]
        + utf16_fixed_bytes(m.name) + utf16_fixed_bytes(m.date) + utf16_fixed_bytes(m.unknown5)
        + be32(m.track_count) + be16(m.unknown6) + be16(m.unknown7) + be32(m.playlist_count)
        + be64(m.bytes_total) + be64(m.bytes_free)
}

/// A link reply is written with its numbers at fixed places: the length
/// word 156, the source player number at byte 5, the slot byte at 9, the
/// three texts filling bytes 10..130, then the big-endian track count at
/// 130..134, two 16-bit words at 134..138, the playlist count at 138..142,
/// the total bytes at 142..150 and the free bytes at 150..158.
pub proof fn lemma_link_reply_bytes_layout(m: LinkReplyModel)
    requires
        link_reply_fits(m),
    ensures
        link_reply_bytes(m).len() == 158,
        link_reply_bytes(m).subrange(0, 2) == be16(156),
        link_reply_bytes(m)[5] == m.source_player_number,
        link_reply_bytes(m)[9] == slot_byte(m.slot),
        link_reply_bytes(m).subrange(10, 74) == utf16_fixed_bytes(m.name),
        link_reply_bytes(m).subrange(74, 98) == utf16_fixed_bytes(m.date),
        link_reply_bytes(m).subrange(98, 130) == utf16_fixed_bytes(m.unknown5),
        link_reply_bytes(m).subrange(130, 134) == be32(m.track_count),
        link_reply_bytes(m).subrange(134, 136) == be16(m.unknown6),
        link_reply_bytes(m).subrange(136, 138) == be16(m.unknown7),
        link_reply_bytes(m).subrange(138, 142) == be32(m.playlist_count),
        link_reply_bytes(m).subrange(142, 150) == be64(m.bytes_total),
        link_reply_bytes(m).subrange(150, 158) == be64(m.bytes_free),
{
    let b = link_reply_bytes(m);
    let n = utf16_fixed_bytes(m.name);
    let d = utf16_fixed_bytes(m.date);
    let u = utf16_fixed_bytes(m.unknown5);
    assert(n.len() == 64 && d.len() == 24 && u.len() == 32);
    assert(b.subrange(0, 2) =~= be16(156));
    assert(b.subrange(10, 74) =~= n);
    assert(b.subrange(74, 98) =~= d);
    assert(b.subrange(98, 130) =~= u);
    assert(b.subrange(130, 134) =~= be32(m.track_count));
    assert(b.subrange(134, 136) =~= be16(m.unknown6));
    assert(b.subrange(136, 138) =~= be16(m.unknown7));
    assert(b.subrange(138, 142) =~= be32(m.playlist_count));
    assert(b.subrange(142, 150) =~= be64(m.bytes_total));
    assert(b.subrange(150, 158) =~= be64(m.bytes_free));
}

impl LinkReply {
    pub fn decode_at(input: &[u8], p: usize) -> (r: PResult<LinkReply>)
        ensures
            agrees(r, spec_link_reply(input@, p)),
            r matches Ok((_, e)) ==> e <= input@.len(),
    {
        let _len = input.len();
        let (slot, p1) = match PlayerSlot::decode_at(input, p) {
            Ok(v) => v,
            Err(e) => { return Err(e); },
        };
        let (name, p2) = match Utf16FixedString::decode_at(input, p1, 64) {
            Ok(v) => v,
            Err(e) => { return Err(e); },
        };
        let (date, p3) = match Utf16FixedString::decode_at(input, p2, 24) {
            Ok(v) => v,
            Err(e) => { return Err(e); },
        };
        let (unknown5, p4) = match Utf16FixedString::decode_at(input, p3, 32) {
            Ok(v) => v,
            Err(e) => { return Err(e); },
        };
        let (track_count, p5) = match read_be_u32(input, p4) {
            Ok(v) => v,
            Err(e) => { return Err(e); },
        };
        let (unknown6, p6) = match read_be_u16(input, p5) {
            Ok(v) => v,
            Err(e) => { return Err(e); },
        };
        let (unknown7, p7) = match read_be_u16(input, p6) {
            Ok(v) => v,
            Err(e) => { return Err(e); },
        };
        let (playlist_count, p8) = match read_be_u32(input, p7) {
            Ok(v) => v,
            Err(e) => { return Err(e); },
        };
        let (bytes_total, p9) = match read_be_u64(input, p8) {
            Ok(v) => v,
            Err(e) => { return Err(e); },
        };
        let (bytes_free, p10) = match read_be_u64(input, p9) {
            Ok(v) => v,
            Err(e) => { return Err(e); },
        };
        Ok(
            (
                LinkReply {
                    source_player_number: 0x11,
                    slot,
                    name,
                    date,
                    unknown5,
                    track_count,
                    unknown6,
                    unknown7,
                    playlist_count,
                    bytes_total,
                    bytes_free,
                },
                p10,
            ),
        )
    }

    pub fn push_bytes(&self, out: &mut Vec<u8>)
        requires
            link_reply_fits(self@),
        ensures
            final(out)@ == old(out)@ + link_reply_bytes(self@),
    {
        push_be16(out, 156);
        push_u8(out, 0);
        push_u8(out, 0);
        push_u8(out, 0);
        push_u8(out, self.source_player_number);
        push_u8(out, 0);
        push_u8(out, 0);
        push_u8(out, 0);
        push_u8(out, self.slot.to_byte());
        self.name.push_bytes(out);
        self.date.push_bytes(out);
        self.unknown5.push_bytes(out);
        push_be32(out, self.track_count);
        push_be16(out, self.unknown6);
        push_be16(out, self.unknown7);
        push_be32(out, self.playlist_count);
        push_be64(out, self.bytes_total);
        push_be64(out, self.bytes_free);
        assert(out@ =~= old(out)@ + link_reply_bytes(self@));
    }
}

/// This application's answer to a hello.
#[derive(Debug, PartialEq)]
pub struct RekordboxReply {
    pub name: String,
}

/// The content of a reply to a hello: a fixed header and the name as 256
/// bytes of UTF-16BE.
pub open spec fn rekordbox_reply_bytes(name: Seq<char>) -> Seq<u8> {
    seq![0x01u8, 0x04, 0x11, 0x01, 0x00, 0x00] + utf16_be(name) + zeros(
        (256 - utf16_be(name).len()) as nat,
    )
}

impl RekordboxReply {
    pub fn push_bytes(&self, out: &mut Vec<u8>)
        requires
            utf16_be(self.name@).len() <= 256,
        ensures
            final(out)@ == old(out)@ + rekordbox_reply_bytes(self.name@),
    {
        push_u8(out, 0x01);
        push_u8(out, 0x04);
        push_u8(out, 0x11);
        push_u8(out, 0x01);
        push_u8(out, 0x00);
        push_u8(out, 0x00);
        let start = out.len();
        push_utf16_be(out, self.name.as_str());
        let written = out.len() - start;
        push_zeros(out, 256 - written);
        assert(out@ =~= old(out)@ + rekordbox_reply_bytes(self.name@));
    }

    pub fn encode(self) -> (b: bytes::Bytes)
        requires
            utf16_be(self.name@).len() <= 256,
        ensures
            bytes_view(b) == rekordbox_reply_bytes(self.name@),
    {
        let mut out: Vec<u8> = Vec::new();
        self.push_bytes(&mut out);
        assert(out@ =~= rekordbox_reply_bytes(self.name@));
        bytes_from_vec(out)
    }
}

} // verus!

verus! {

#[derive(Debug, PartialEq)]
pub enum StatusContentType {
    Cdj(Cdj),
    Djm(Djm),
    LoadCmd,
    LoadCmdReply,
    LinkQuery(LinkQuery),
    LinkReply(LinkReply),
    RekordboxHello,
    RekordboxReply(RekordboxReply),
    Unknown(u8),
}

pub enum StatusContentModel {
    Cdj(Cdj),
    Djm,
    LoadCmd,
    LoadCmdReply,
    LinkQuery(LinkQuery),
    LinkReply(LinkReplyModel),
    RekordboxHello,
    RekordboxReply(Seq<char>),
    Unknown(u8),
}

impl View for StatusContentType {
    type V = StatusContentModel;

    open spec fn view(&self) -> StatusContentModel {
        match self {
            StatusContentType::Cdj(c) => StatusContentModel::Cdj(*c),
            StatusContentType::Djm(_) => StatusContentModel::Djm,
            StatusContentType::LoadCmd => StatusContentModel::LoadCmd,
            StatusContentType::LoadCmdReply => StatusContentModel::LoadCmdReply,
            StatusContentType::LinkQuery(q) => StatusContentModel::LinkQuery(*q),
            StatusContentType::LinkReply(r) => StatusContentModel::LinkReply(r@),
            StatusContentType::RekordboxHello => StatusContentModel::RekordboxHello,
            StatusContentType::RekordboxReply(r) => StatusContentModel::RekordboxReply(r.name@),
            StatusContentType::Unknown(v) => StatusContentModel::Unknown(*v),
        }
    }
}

/// The content of a packet of a kind that has a content decoder.
pub open spec fn spec_content(s: Seq<u8>, p: usize, t: StatusPacketType) -> PResult<StatusContentModel> {
    match t {
        StatusPacketType::LinkQuery => match spec_link_query(s, p) {
            Ok((q, r)) => Ok((StatusContentModel::LinkQuery(q), r)),
            Err(e) => Err(e),
        },
        StatusPacketType::RekordboxHello => Ok((StatusContentModel::RekordboxHello, p)),
        StatusPacketType::LinkReply => match spec_link_reply(s, p) {
            Ok((m, r)) => Ok((StatusContentModel::LinkReply(m), r)),
            Err(e) => Err(e),
        },
        StatusPacketType::Cdj => match spec_cdj(s, p) {
            Ok((c, r)) => Ok((StatusContentModel::Cdj(c), r)),
            Err(e) => Err(e),
        },
        _ => Ok((StatusContentModel::Djm, p)),
    }
}

/// The contents that can be written.
pub open spec fn content_encodable(c: StatusContentModel) -> bool {
    match c {
        StatusContentModel::RekordboxReply(name) => utf16_be(name).len() <= 256,
        StatusContentModel::LinkReply(m) => link_reply_fits(m),
        _ => false,
    }
}

pub open spec fn content_bytes(c: StatusContentModel) -> Seq<u8> {
    match c {
        StatusContentModel::RekordboxReply(name) => rekordbox_reply_bytes(name),
        StatusContentModel::LinkReply(m) => link_reply_bytes(m),
        _ => Seq::empty(),
    }
}

impl StatusContentType {
    pub fn decode_at(input: &[u8], p: usize, t: StatusPacketType) -> (r: PResult<StatusContentType>)
        requires
            has_content_decoder(t),
        ensures
            agrees(r, spec_content(input@, p, t)),
            r matches Ok((_, e)) ==> e <= input@.len() || e == p,
    {
        match t {
            StatusPacketType::LinkQuery => match LinkQuery::decode_at(input, p) {
                Ok((q, r)) => Ok((StatusContentType::LinkQuery(q), r)),
                Err(e) => Err(e),
            },
            StatusPacketType::RekordboxHello => Ok((StatusContentType::RekordboxHello, p)),
            StatusPacketType::LinkReply => match LinkReply::decode_at(input, p) {
                Ok((m, r)) => Ok((StatusContentType::LinkReply(m), r)),
                Err(e) => Err(e),
            },
            StatusPacketType::Cdj => match Cdj::decode_at(input, p) {
                Ok((c, r)) => Ok((StatusContentType::Cdj(c), r)),
                Err(e) => Err(e),
            },
            _ => Ok((StatusContentType::Djm(Djm), p)),
        }
    }

    pub fn push_bytes(&self, out: &mut Vec<u8>)
        requires
            content_encodable(self@),
        ensures
            final(out)@ == old(out)@ + content_bytes(self@),
    {
        match self {
            StatusContentType::RekordboxReply(reply) => reply.push_bytes(out),
            StatusContentType::LinkReply(reply) => reply.push_bytes(out),
            _ => {},
        }
    }
}

// ---------------------------------------------------------------------------
// Packet

#[derive(Debug, PartialEq)]
pub struct StatusPacket {
    pub kind: StatusPacketType,
    pub model: ModelName,
    pub unknown1: u8,
    pub player_number: u8,
    pub content: StatusContentType,
}

pub struct StatusPacketModel {
    pub kind: StatusPacketType,
    pub model: Seq<char>,
    pub unknown1: u8,
    pub player_number: u8,
    pub content: StatusContentModel,
}

impl View for StatusPacket {
    type V = StatusPacketModel;

    open spec fn view(&self) -> StatusPacketModel {
        StatusPacketModel {
            kind: self.kind,
            model: self.model@,
            unknown1: self.unknown1,
            player_number: self.player_number,
            content: self.content@,
        }
    }
}

/// The fixed part of a packet: magic, kind, model name, one ignored byte,
/// `unknown1`, the player number; answers the kind, the name, the two bytes.
pub open spec fn spec_status_header(s: Seq<u8>, p: usize) -> PResult<
    (StatusPacketType, Seq<char>, u8, u8),
> {
    match spec_tag(s, p, udp_magic()) {
        Err(e) => Err(e),
        Ok((_, p1)) => match spec_status_type(s, p1) {
            Err(e) => Err(e),
            Ok((kind, p2)) => match spec_model_name(s, p2) {
                Err(e) => Err(e),
                Ok((model, p3)) => match spec_u8(s, p3) {
                    Err(e) => Err(e),
                    Ok((_, p4)) => match spec_u8(s, p4) {
                        Err(e) => Err(e),
                        Ok((unknown1, p5)) => match spec_u8(s, p5) {
                            Err(e) => Err(e),
                            Ok((player_number, p6)) => Ok(
                                ((kind, model, unknown1, player_number), p6),
                            ),
                        },
                    },
                },
            },
        },
    }
}

/// Reading `s` would stop the program: the fixed part is read and the kind
/// has no content decoder.
pub open spec fn status_decode_panics(s: Seq<u8>) -> bool {
    spec_status_header(s, 0) matches Ok((h, _)) && !has_content_decoder(h.0)
}

pub open spec fn spec_status_packet(s: Seq<u8>, p: usize) -> PResult<StatusPacketModel> {
    match spec_status_header(s, p) {
        Err(e) => Err(e),
        Ok((h, q)) => match spec_content(s, q, h.0) {
            Err(e) => Err(e),
            Ok((content, r)) => Ok(
                (
                    StatusPacketModel {
                        kind: h.0,
                        model: h.1,
                        unknown1: h.2,
                        player_number: h.3,
                        content,
                    },
                    r,
                ),
            ),
        },
    }
}

/// The packets that can be written.
pub open spec fn status_encodable(m: StatusPacketModel) -> bool {
    model_name_fits(m.model) && content_encodable(m.content)
}

/// A packet as it is written: the sender's player number is always written
/// as `0x11` (this application).
pub open spec fn status_packet_bytes(m: StatusPacketModel) -> Seq<u8> {
    udp_magic() + seq![status_type_byte(m.kind)] + model_name_bytes(m.model) + seq![
        0x01u8,
        m.unknown1,
        0x11,
    ] + content_bytes(m.content)
}

impl StatusPacket {
    /// A packet from this application (model name "Linux").
    pub fn new(
        kind: StatusPacketType,
        unknown1: u8,
        player_number: u8,
        content: StatusContentType,
    ) -> (p: StatusPacket)
        ensures
            p.kind == kind,
            p.model@ == "Linux"@,
            p.unknown1 == unknown1,
            p.player_number == player_number,
            p@.content == content@,
    {
        StatusPacket {
            kind,
            model: ModelName("Linux".to_string()),
            unknown1,
            player_number,
            content,
        }
    }

    pub fn decode_at(input: &[u8], p: usize) -> (r: PResult<StatusPacket>)
        requires
            !(spec_status_header(input@, p) matches Ok((h, _)) && !has_content_decoder(h.0)),
        ensures
            agrees(r, spec_status_packet(input@, p)),
            r matches Ok((_, e)) ==> e <= input@.len(),
    {
        proof {
            lemma_udp_magic();
        }
        let (_, p1) = match match_tag(input, p, &SOFTWARE_IDENTIFICATION) {
            Ok(v) => v,
            Err(e) => { return Err(e); },
        };
        let (kind, p2) = match StatusPacketType::decode_at(input, p1) {
            Ok(v) => v,
            Err(e) => { return Err(e); },
        };
        let (model, p3) = match ModelName::decode_at(input, p2) {
            Ok(v) => v,
            Err(e) => { return Err(e); },
        };
        let p4 = match read_u8(input, p3) {
            Ok((_, q)) => q,
            Err(e) => { return Err(e); },
        };
        let (unknown1, p5) = match read_u8(input, p4) {
            Ok(v) => v,
            Err(e) => { return Err(e); },
        };
        let (player_number, p6) = match read_u8(input, p5) {
            Ok(v) => v,
            Err(e) => { return Err(e); },
        };
        match StatusContentType::decode_at(input, p6, kind) {
            Ok((content, q)) => Ok((StatusPacket { kind, model, unknown1, player_number, content }, q)),
            Err(e) => Err(e),
        }
    }

    /// Reads a packet; answers the unread rest and the packet.
    pub fn decode(input: &[u8]) -> (r: Result<(&[u8], StatusPacket), ParseError>)
        requires
            !status_decode_panics(input@),
        ensures
            match (r, spec_status_packet(input@, 0)) {
                (Ok((rest, m)), Ok((w, q))) => m@ == w && rest@ == input@.subrange(
                    q as int,
                    input@.len() as int,
                ),
                (Err(e), Err(e2)) => e == e2,
                _ => false,
            },
    {
        match Self::decode_at(input, 0) {
            Ok((m, q)) => {
                Ok((rest_of(input, q), m))
            },
            Err(e) => Err(e),
        }
    }

    /// Whether `decode` may be called on `input`.
    pub fn can_decode(input: &[u8]) -> (b: bool)
        ensures
            b == !status_decode_panics(input@),
    {
        proof {
            lemma_udp_magic();
        }
        let p1 = match match_tag(input, 0, &SOFTWARE_IDENTIFICATION) {
            Ok((_, q)) => q,
            Err(_) => { return true; },
        };
        let (kind, p2) = match StatusPacketType::decode_at(input, p1) {
            Ok(v) => v,
            Err(_) => { return true; },
        };
        let p3 = match ModelName::decode_at(input, p2) {
            Ok((_, q)) => q,
            Err(_) => { return true; },
        };
        if p3 < input.len() && input.len() - p3 >= 3 {
            kind.has_content_decoder()
        } else {
            true
        }
    }

    pub fn kind(&self) -> (k: &StatusPacketType)
        ensures
            *k == self.kind,
    {
        &self.kind
    }

    /// Whether the packet can be written: its model name fits, and its
    /// content is a reply whose texts fit their fields.
    pub fn is_encodable(&self) -> (b: bool)
        ensures
            b == status_encodable(self@),
    {
        if !self.model.fits() {
            return false;
        }
        match &self.content {
            StatusContentType::RekordboxReply(reply) => {
                proof {
                    lemma_units_be_len(encode_utf16(reply.name@));
                }
                utf16_len(reply.name.as_str()) * 2 <= 256
            },
            StatusContentType::LinkReply(reply) => {
                proof {
                    lemma_units_be_len(encode_utf16(reply.name.value@));
                    lemma_units_be_len(encode_utf16(reply.date.value@));
                    lemma_units_be_len(encode_utf16(reply.unknown5.value@));
                }
                reply.name.capacity == 64 && utf16_len(reply.name.value.as_str()) * 2 <= 64
                    && reply.date.capacity == 24 && utf16_len(reply.date.value.as_str()) * 2 <= 24
                    && reply.unknown5.capacity == 32 && utf16_len(reply.unknown5.value.as_str()) * 2
                    <= 32
            },
            _ => false,
        }
    }

    pub fn push_bytes(&self, out: &mut Vec<u8>)
        requires
            status_encodable(self@),
        ensures
            final(out)@ == old(out)@ + status_packet_bytes(self@),
    {
        proof {
            lemma_udp_magic();
        }
        push_slice(out, &SOFTWARE_IDENTIFICATION);
        push_u8(out, self.kind.to_byte());
        self.model.push_bytes(out);
        push_u8(out, 0x01);
        push_u8(out, self.unknown1);
        push_u8(out, 0x11);
        self.content.push_bytes(out);
        assert(out@ =~= old(out)@ + status_packet_bytes(self@));
    }

    pub fn encode(self) -> (b: bytes::Bytes)
        requires
            status_encodable(self@),
        ensures
            bytes_view(b) == status_packet_bytes(self@),
    {
        let mut out: Vec<u8> = Vec::new();
        self.push_bytes(&mut out);
        assert(out@ =~= status_packet_bytes(self@));
        bytes_from_vec(out)
    }

    /// Decodes a buffer that holds one packet.
    pub fn try_from(message: bytes::Bytes) -> (r: Result<StatusPacket, &'static str>)
        requires
            !status_decode_panics(bytes_view(message)),
        ensures
            match spec_status_packet(bytes_view(message), 0) {
                Ok((m, _)) => r matches Ok(v) && v@ == m,
                Err(_) => r is Err,
            },
    {
        Self::try_from_slice(bytes_as_slice(&message))
    }

    /// Decodes a slice that holds one packet.
    pub fn try_from_slice(message: &[u8]) -> (r: Result<StatusPacket, &'static str>)
        requires
            !status_decode_panics(message@),
        ensures
            match spec_status_packet(message@, 0) {
                Ok((m, _)) => r matches Ok(v) && v@ == m,
                Err(_) => r is Err,
            },
    {
        match Self::decode_at(message, 0) {
            Ok((m, _)) => Ok(m),
            Err(_) => Err("Failed decoding StatusPacket."),
        }
    }
}

} // verus!
