//! Keep-alive packets (UDP port 50000): how devices announce themselves and
//! negotiate player numbers.

use vstd::prelude::*;
use crate::buffer::{bytes_view, bytes_from_vec, bytes_as_slice};
use crate::rekordbox::SOFTWARE_IDENTIFICATION;
use crate::rekordbox::status_packet::{
    ModelName, spec_model_name, model_name_bytes, model_name_fits, udp_magic, lemma_udp_magic,
    name_roundtrips, lemma_model_name_roundtrip,
};
use crate::utils::network::{Ipv4, MacAddr};
use crate::wire::{
    ErrorKind, ParseError, PResult, agrees, fail, spec_u8, spec_be_u16, spec_be_u32, spec_take,
    spec_tag, read_u8, read_be_u16, read_be_u32, take_bytes, match_tag, rest_of, push_u8,
    push_be16, push_slice, be16, be32,
};

verus! {

// ---------------------------------------------------------------------------
// Addresses on the wire

pub open spec fn spec_mac(s: Seq<u8>, p: usize) -> PResult<MacAddr> {
    if p + 6 <= s.len() {
        Ok(
            (
                MacAddr {
                    a: s[p as int],
                    b: s[p + 1],
                    c: s[p + 2],
                    d: s[p + 3],
                    e: s[p + 4],
                    f: s[p + 5],
                },
                (p + 6) as usize,
            ),
        )
    } else {
        spec_eof_at_byte(s, p)
    }
}

/// Where reading single bytes from `p` runs out of input.
pub open spec fn spec_eof_at_byte<T>(s: Seq<u8>, p: usize) -> PResult<T> {
    if p <= s.len() {
        fail(ErrorKind::Eof, s.len() as usize)
    } else {
        fail(ErrorKind::Eof, p)
    }
}

pub open spec fn spec_ipv4(s: Seq<u8>, p: usize) -> PResult<Ipv4> {
    match spec_be_u32(s, p) {
        Ok((_, q)) => Ok((Ipv4 { a: s[p as int], b: s[p + 1], c: s[p + 2], d: s[p + 3] }, q)),
        Err(e) => Err(e),
    }
}

fn decode_mac(s: &[u8], p: usize) -> (r: PResult<MacAddr>)
    ensures
        r == spec_mac(s@, p),
{
    let len = s.len();
    if p <= len && len - p >= 6 {
        Ok((MacAddr::new(s[p], s[p + 1], s[p + 2], s[p + 3], s[p + 4], s[p + 5]), p + 6))
    } else if p <= len {
        Err(ParseError::new(ErrorKind::Eof, len))
    } else {
        Err(ParseError::new(ErrorKind::Eof, p))
    }
}

fn decode_ipv4(s: &[u8], p: usize) -> (r: PResult<Ipv4>)
    ensures
        r == spec_ipv4(s@, p),
{
    match read_be_u32(s, p) {
        Ok((_, q)) => Ok((Ipv4::new(s[p], s[p + 1], s[p + 2], s[p + 3]), q)),
        Err(e) => Err(e),
    }
}

fn push_mac(out: &mut Vec<u8>, m: &MacAddr)
    ensures
        final(out)@ == old(out)@ + m.spec_octets(),
{
    push_slice(out, &m.octets());
}

fn push_ipv4(out: &mut Vec<u8>, ip: &Ipv4)
    ensures
        final(out)@ == old(out)@ + ip.spec_octets(),
{
    push_slice(out, &ip.octets());
}

// ---------------------------------------------------------------------------
// Device type

#[derive(Debug, PartialEq, Eq, Structural, Clone, Copy)]
pub enum DeviceType {
    Djm,
    Cdj,
    Rekordbox,
}

pub open spec fn device_type_byte(d: DeviceType) -> u8 {
    match d {
        DeviceType::Djm => 1,
        DeviceType::Cdj => 2,
        DeviceType::Rekordbox => 3,
    }
}

pub open spec fn spec_device_type(s: Seq<u8>, p: usize) -> PResult<DeviceType> {
    match spec_u8(s, p) {
        Err(e) => Err(e),
        Ok((b, q)) => if b == 1 {
            Ok((DeviceType::Djm, q))
        } else if b == 2 {
            Ok((DeviceType::Cdj, q))
        } else if b == 3 {
            Ok((DeviceType::Rekordbox, q))
        } else {
            fail(ErrorKind::Switch, q)
        },
    }
}

impl DeviceType {
    pub fn decode_at(input: &[u8], p: usize) -> (r: PResult<DeviceType>)
        ensures
            r == spec_device_type(input@, p),
    {
        let (b, q) = match read_u8(input, p) {
            Ok(v) => v,
            Err(e) => { return Err(e); },
        };
        match b {
            1 => Ok((DeviceType::Djm, q)),
            2 => Ok((DeviceType::Cdj, q)),
            3 => Ok((DeviceType::Rekordbox, q)),
            _ => Err(ParseError::new(ErrorKind::Switch, q)),
        }
    }

    pub fn to_byte(&self) -> (b: u8)
        ensures
            b == device_type_byte(*self),
    {
        match *self {
            DeviceType::Djm => 1,
            DeviceType::Cdj => 2,
            DeviceType::Rekordbox => 3,
        }
    }
}

// ---------------------------------------------------------------------------
// Packet kinds

#[derive(Debug, PartialEq, Eq, Structural, Clone, Copy)]
pub enum KeepAlivePacketType {
    Hello,
    Number,
    Mac,
    Ip,
    Status,
    Change,
}

pub open spec fn keepalive_type_byte(t: KeepAlivePacketType) -> u8 {
    match t {
        KeepAlivePacketType::Hello => 0x0a,
        KeepAlivePacketType::Number => 0x04,
        KeepAlivePacketType::Mac => 0x00,
        KeepAlivePacketType::Ip => 0x02,
        KeepAlivePacketType::Status => 0x06,
        KeepAlivePacketType::Change => 0x08,
    }
}

pub open spec fn keepalive_type_of(b: u8) -> Option<KeepAlivePacketType> {
    if b == 0x0a {
        Some(KeepAlivePacketType::Hello)
    } else if b == 0x04 {
        Some(KeepAlivePacketType::Number)
    } else if b == 0x00 {
        Some(KeepAlivePacketType::Mac)
    } else if b == 0x02 {
        Some(KeepAlivePacketType::Ip)
    } else if b == 0x06 {
        Some(KeepAlivePacketType::Status)
    } else if b == 0x08 {
        Some(KeepAlivePacketType::Change)
    } else {
        None
    }
}

pub open spec fn spec_keepalive_type(s: Seq<u8>, p: usize) -> PResult<KeepAlivePacketType> {
    match spec_take(s, p, 1) {
        Err(e) => Err(e),
        Ok((b, q)) => match keepalive_type_of(b[0]) {
            Some(t) => Ok((t, q)),
            None => fail(ErrorKind::Switch, q),
        },
    }
}

impl KeepAlivePacketType {
    pub fn decode_at(input: &[u8], p: usize) -> (r: PResult<KeepAlivePacketType>)
        ensures
            r == spec_keepalive_type(input@, p),
    {
        let (b, q) = match take_bytes(input, p, 1) {
            Ok(v) => v,
            Err(e) => { return Err(e); },
        };
        match b[0] {
            0x0a => Ok((KeepAlivePacketType::Hello, q)),
            0x04 => Ok((KeepAlivePacketType::Number, q)),
            0x00 => Ok((KeepAlivePacketType::Mac, q)),
            0x02 => Ok((KeepAlivePacketType::Ip, q)),
            0x06 => Ok((KeepAlivePacketType::Status, q)),
            0x08 => Ok((KeepAlivePacketType::Change, q)),
            _ => Err(ParseError::new(ErrorKind::Switch, q)),
        }
    }

    pub fn to_byte(&self) -> (b: u8)
        ensures
            b == keepalive_type_byte(*self),
    {
        match *self {
            KeepAlivePacketType::Hello => 0x0a,
            KeepAlivePacketType::Number => 0x04,
            KeepAlivePacketType::Mac => 0x00,
            KeepAlivePacketType::Ip => 0x02,
            KeepAlivePacketType::Status => 0x06,
            KeepAlivePacketType::Change => 0x08,
        }
    }
}

#[derive(Debug, PartialEq, Eq, Structural, Clone, Copy)]
pub enum KeepAlivePacketSubType {
    Hello,
    Number,
    Mac,
    Ip,
    Status,
    Change,
    StatusMixer,
    Unknown(u8),
}

pub open spec fn subtype_of(b: u8) -> KeepAlivePacketSubType {
    if b == 0x25 {
        KeepAlivePacketSubType::Hello
    } else if b == 0x26 {
        KeepAlivePacketSubType::Number
    } else if b == 0x2c {
        KeepAlivePacketSubType::Mac
    } else if b == 0x32 {
        KeepAlivePacketSubType::Ip
    } else if b == 0x36 {
        KeepAlivePacketSubType::Status
    } else if b == 0x29 {
        KeepAlivePacketSubType::Change
    } else if b == 0x00 {
        KeepAlivePacketSubType::StatusMixer
    } else {
        KeepAlivePacketSubType::Unknown(b)
    }
}

pub open spec fn subtype_byte(t: KeepAlivePacketSubType) -> u8 {
    match t {
        KeepAlivePacketSubType::Hello => 0x25,
        KeepAlivePacketSubType::Number => 0x26,
        KeepAlivePacketSubType::Mac => 0x2c,
        KeepAlivePacketSubType::Ip => 0x32,
        KeepAlivePacketSubType::Status => 0x36,
        KeepAlivePacketSubType::Change => 0x29,
        KeepAlivePacketSubType::StatusMixer => 0x00,
        KeepAlivePacketSubType::Unknown(v) => v,
    }
}

impl KeepAlivePacketSubType {
    pub fn decode_at(input: &[u8], p: usize) -> (r: PResult<KeepAlivePacketSubType>)
        ensures
            r == match spec_take(input@, p, 1) {
                Ok((b, q)) => Ok((subtype_of(b[0]), q)),
                Err(e) => Err(e),
            },
    {
        let (b, q) = match take_bytes(input, p, 1) {
            Ok(v) => v,
            Err(e) => { return Err(e); },
        };
        let t = match b[0] {
            0x25 => KeepAlivePacketSubType::Hello,
            0x26 => KeepAlivePacketSubType::Number,
            0x2c => KeepAlivePacketSubType::Mac,
            0x32 => KeepAlivePacketSubType::Ip,
            0x36 => KeepAlivePacketSubType::Status,
            0x29 => KeepAlivePacketSubType::Change,
            0x00 => KeepAlivePacketSubType::StatusMixer,
            v => KeepAlivePacketSubType::Unknown(v),
        };
        Ok((t, q))
    }

    pub fn to_byte(&self) -> (b: u8)
        ensures
            b == subtype_byte(*self),
    {
        match *self {
            KeepAlivePacketSubType::Hello => 0x25,
            KeepAlivePacketSubType::Number => 0x26,
            KeepAlivePacketSubType::Mac => 0x2c,
            KeepAlivePacketSubType::Ip => 0x32,
            KeepAlivePacketSubType::Status => 0x36,
            KeepAlivePacketSubType::Change => 0x29,
            KeepAlivePacketSubType::StatusMixer => 0x00,
            KeepAlivePacketSubType::Unknown(value) => value,
        }
    }
}

// ---------------------------------------------------------------------------
// Contents

#[derive(Debug, PartialEq, Eq, Structural, Clone, Copy)]
pub struct Mac {
    pub iteration: u8,
    pub unknown2: u8,
    pub mac_addr: MacAddr,
}

#[derive(Debug, PartialEq, Eq, Structural, Clone, Copy)]
pub enum PlayerNumberAssignment {
    Auto,
    Manual,
}

pub open spec fn assignment_byte(a: PlayerNumberAssignment) -> u8 {
    match a {
        PlayerNumberAssignment::Auto => 1,
        PlayerNumberAssignment::Manual => 2,
    }
}

#[derive(Debug, PartialEq, Eq, Structural, Clone, Copy)]
pub struct Ip {
    pub ip_addr: Ipv4,
    pub mac_addr: MacAddr,
    pub iteration: u8,
    pub index: u8,
    pub player_number_assignment: PlayerNumberAssignment,
}

/// The byte that stands for the position of an IP packet in its round.
pub open spec fn sequence_byte(index: u8) -> u8 {
    if index == 1 {
        0x11
    } else if index == 2 {
        0x12
    } else if index == 3 {
        0x29
    } else if index == 4 {
        0x2a
    } else if index == 5 {
        0x2b
    } else {
        0x2c
    }
}

impl Ip {
    pub fn map_sequence_byte(&self) -> (b: u8)
        ensures
            b == sequence_byte(self.index),
    {
        if self.index == 1 {
            0x11
        } else if self.index == 2 {
            0x12
        } else if self.index == 3 {
            0x29
        } else if self.index == 4 {
            0x2a
        } else if self.index == 5 {
            0x2b
        } else {
            0x2c
        }
    }
}

#[derive(Debug, PartialEq, Eq, Structural, Clone, Copy)]
pub struct Change {
    pub old_player_number: u8,
    pub ip_addr: Ipv4,
}

#[derive(Debug, PartialEq, Eq, Structural, Clone, Copy)]
pub struct Number {
    pub proposed_player_number: u8,
    pub iteration: u8,
}

#[derive(Debug, PartialEq, Eq, Structural, Clone, Copy)]
pub struct Hello {
    pub unknown2: u8,
}

#[derive(Debug, PartialEq, Eq, Structural, Clone, Copy)]
pub struct Status {
    pub player_number: u8,
    pub unknown2: u8,
    pub mac_addr: MacAddr,
    pub ip_addr: Ipv4,
    pub device_count: u8,
    pub unknown3: u16,
    pub unknown4: u8,
}

impl Status {
    pub fn ip_addr(&self) -> (ip: &Ipv4)
        ensures
            *ip == self.ip_addr,
    {
        &self.ip_addr
    }

    pub fn player_number(&self) -> (n: &u8)
        ensures
            *n == self.player_number,
    {
        &self.player_number
    }
}

#[derive(Debug, PartialEq, Eq, Structural, Clone, Copy)]
pub enum KeepAliveContentType {
    Hello(Hello),
    Number(Number),
    Mac(Mac),
    Ip(Ip),
    Status(Status),
    Change(Change),
}

pub open spec fn spec_keepalive_content(
    s: Seq<u8>,
    p: usize,
    t: KeepAlivePacketType,
) -> PResult<KeepAliveContentType> {
    match t {
        KeepAlivePacketType::Mac => match spec_u8(s, p) {
            Err(e) => Err(e),
            Ok((iteration, p1)) => match spec_u8(s, p1) {
                Err(e) => Err(e),
                Ok((unknown2, p2)) => match spec_mac(s, p2) {
                    Err(e) => Err(e),
                    Ok((mac_addr, p3)) => Ok(
                        (KeepAliveContentType::Mac(Mac { iteration, unknown2, mac_addr }), p3),
                    ),
                },
            },
        },
        KeepAlivePacketType::Ip => match spec_ipv4(s, p) {
            Err(e) => Err(e),
            Ok((ip_addr, p1)) => match spec_mac(s, p1) {
                Err(e) => Err(e),
                Ok((mac_addr, p2)) => match spec_u8(s, p2) {
                    Err(e) => Err(e),
                    Ok((iteration, p3)) => match spec_u8(s, p3) {
                        Err(e) => Err(e),
                        Ok((index, p4)) => match spec_u8(s, p4) {
                            Err(e) => Err(e),
                            Ok((_, p5)) => match spec_u8(s, p5) {
                                Err(e) => Err(e),
                                Ok((a, p6)) => if a == 1 || a == 2 {
                                    Ok(
                                        (
                                            KeepAliveContentType::Ip(
                                                Ip {
                                                    ip_addr,
                                                    mac_addr,
                                                    iteration,
                                                    index,
                                                    player_number_assignment: if a == 1 {
                                                        PlayerNumberAssignment::Auto
                                                    } else {
                                                        PlayerNumberAssignment::Manual
                                                    },
                                                },
                                            ),
                                            p6,
                                        ),
                                    )
                                } else {
                                    fail(ErrorKind::Switch, p6)
                                },
                            },
                        },
                    },
                },
            },
        },
        KeepAlivePacketType::Change => match spec_u8(s, p) {
            Err(e) => Err(e),
            Ok((old_player_number, p1)) => match spec_ipv4(s, p1) {
                Err(e) => Err(e),
                Ok((ip_addr, p2)) => Ok(
                    (KeepAliveContentType::Change(Change { old_player_number, ip_addr }), p2),
                ),
            },
        },
        KeepAlivePacketType::Number => match spec_u8(s, p) {
            Err(e) => Err(e),
            Ok((proposed_player_number, p1)) => match spec_u8(s, p1) {
                Err(e) => Err(e),
                Ok((iteration, p2)) => Ok(
                    (
                        KeepAliveContentType::Number(Number { proposed_player_number, iteration }),
                        p2,
                    ),
                ),
            },
        },
        KeepAlivePacketType::Hello => match spec_u8(s, p) {
            Err(e) => Err(e),
            Ok((unknown2, p1)) => Ok((KeepAliveContentType::Hello(Hello { unknown2 }), p1)),
        },
        KeepAlivePacketType::Status => match spec_u8(s, p) {
            Err(e) => Err(e),
            Ok((player_number, p1)) => match spec_u8(s, p1) {
                Err(e) => Err(e),
                Ok((unknown2, p2)) => match spec_mac(s, p2) {
                    Err(e) => Err(e),
                    Ok((mac_addr, p3)) => match spec_ipv4(s, p3) {
                        Err(e) => Err(e),
                        Ok((ip_addr, p4)) => match spec_u8(s, p4) {
                            Err(e) => Err(e),
                            Ok((device_count, p5)) => match spec_take(s, p5, 2) {
                                Err(e) => Err(e),
                                Ok((_, p6)) => match spec_be_u16(s, p6) {
                                    Err(e) => Err(e),
                                    Ok((unknown3, p7)) => match spec_u8(s, p7) {
                                        Err(e) => Err(e),
                                        Ok((unknown4, p8)) => Ok(
                                            (
                                                KeepAliveContentType::Status(
                                                    Status {
                                                        player_number,
                                                        unknown2,
                                                        mac_addr,
                                                        ip_addr,
                                                        device_count,
                                                        unknown3,
                                                        unknown4,
                                                    },
                                                ),
                                                p8,
                                            ),
                                        ),
                                    },
                                },
                            },
                        },
                    },
                },
            },
        },
    }
}

/// The bytes of a content as it is written: an IP content is written with
/// its sequence byte in place of its iteration and its iteration in place of
/// its index; a status content with fixed padding bytes `1, 0` and `8` in
/// place of `unknown4`.
pub open spec fn keepalive_content_bytes(c: KeepAliveContentType) -> Seq<u8> {
    match c {
        KeepAliveContentType::Hello(h) => seq![h.unknown2],
        KeepAliveContentType::Number(n) => seq![n.proposed_player_number, n.iteration],
        KeepAliveContentType::Mac(m) => seq![m.iteration, m.unknown2] + m.mac_addr.spec_octets(),
        KeepAliveContentType::Ip(ip) => ip.ip_addr.spec_octets() + ip.mac_addr.spec_octets() + seq![
            sequence_byte(ip.index),
            ip.iteration,
            4u8,
            assignment_byte(ip.player_number_assignment),
        ],
        KeepAliveContentType::Status(st) => seq![st.player_number, st.unknown2]
            + st.mac_addr.spec_octets() + st.ip_addr.spec_octets() + seq![st.device_count, 1u8, 0u8]
            + be16(st.unknown3) + seq![8u8],
        KeepAliveContentType::Change(ch) => seq![ch.old_player_number] + ch.ip_addr.spec_octets(),
    }
}

impl KeepAliveContentType {
    pub fn decode_at(input: &[u8], p: usize, t: KeepAlivePacketType) -> (r: PResult<
        KeepAliveContentType,
    >)
        ensures
            r == spec_keepalive_content(input@, p, t),
    {
        match t {
            KeepAlivePacketType::Mac => {
                let (iteration, p1) = match read_u8(input, p) {
                    Ok(v) => v,
                    Err(e) => { return Err(e); },
                };
                let (unknown2, p2) = match read_u8(input, p1) {
                    Ok(v) => v,
                    Err(e) => { return Err(e); },
                };
                match decode_mac(input, p2) {
                    Ok((mac_addr, p3)) => Ok(
                        (KeepAliveContentType::Mac(Mac { iteration, unknown2, mac_addr }), p3),
                    ),
                    Err(e) => Err(e),
                }
            },
            KeepAlivePacketType::Ip => {
                let (ip_addr, p1) = match decode_ipv4(input, p) {
                    Ok(v) => v,
                    Err(e) => { return Err(e); },
                };
                let (mac_addr, p2) = match decode_mac(input, p1) {
                    Ok(v) => v,
                    Err(e) => { return Err(e); },
                };
                let (iteration, p3) = match read_u8(input, p2) {
                    Ok(v) => v,
                    Err(e) => { return Err(e); },
                };
                let (index, p4) = match read_u8(input, p3) {
                    Ok(v) => v,
                    Err(e) => { return Err(e); },
                };
                let p5 = match read_u8(input, p4) {
                    Ok((_, q)) => q,
                    Err(e) => { return Err(e); },
                };
                let (a, p6) = match read_u8(input, p5) {
                    Ok(v) => v,
                    Err(e) => { return Err(e); },
                };
                let player_number_assignment = if a == 1 {
                    PlayerNumberAssignment::Auto
                } else if a == 2 {
                    PlayerNumberAssignment::Manual
                } else {
                    return Err(ParseError::new(ErrorKind::Switch, p6));
                };
                Ok(
                    (
                        KeepAliveContentType::Ip(
                            Ip { ip_addr, mac_addr, iteration, index, player_number_assignment },
                        ),
                        p6,
                    ),
                )
            },
            KeepAlivePacketType::Change => {
                let (old_player_number, p1) = match read_u8(input, p) {
                    Ok(v) => v,
                    Err(e) => { return Err(e); },
                };
                match decode_ipv4(input, p1) {
                    Ok((ip_addr, p2)) => Ok(
                        (KeepAliveContentType::Change(Change { old_player_number, ip_addr }), p2),
                    ),
                    Err(e) => Err(e),
                }
            },
            KeepAlivePacketType::Number => {
                let (proposed_player_number, p1) = match read_u8(input, p) {
                    Ok(v) => v,
                    Err(e) => { return Err(e); },
                };
                match read_u8(input, p1) {
                    Ok((iteration, p2)) => Ok(
                        (
                            KeepAliveContentType::Number(
                                Number { proposed_player_number, iteration },
                            ),
                            p2,
                        ),
                    ),
                    Err(e) => Err(e),
                }
            },
            KeepAlivePacketType::Hello => match read_u8(input, p) {
                Ok((unknown2, p1)) => Ok((KeepAliveContentType::Hello(Hello { unknown2 }), p1)),
                Err(e) => Err(e),
            },
            KeepAlivePacketType::Status => {
                let (player_number, p1) = match read_u8(input, p) {
                    Ok(v) => v,
                    Err(e) => { return Err(e); },
                };
                let (unknown2, p2) = match read_u8(input, p1) {
                    Ok(v) => v,
                    Err(e) => { return Err(e); },
                };
                let (mac_addr, p3) = match decode_mac(input, p2) {
                    Ok(v) => v,
                    Err(e) => { return Err(e); },
                };
                let (ip_addr, p4) = match decode_ipv4(input, p3) {
                    Ok(v) => v,
                    Err(e) => { return Err(e); },
                };
                let (device_count, p5) = match read_u8(input, p4) {
                    Ok(v) => v,
                    Err(e) => { return Err(e); },
                };
                let p6 = match take_bytes(input, p5, 2) {
                    Ok((_, q)) => q,
                    Err(e) => { return Err(e); },
                };
                let (unknown3, p7) = match read_be_u16(input, p6) {
                    Ok(v) => v,
                    Err(e) => { return Err(e); },
                };
                match read_u8(input, p7) {
                    Ok((unknown4, p8)) => Ok(
                        (
                            KeepAliveContentType::Status(
                                Status {
                                    player_number,
                                    unknown2,
                                    mac_addr,
                                    ip_addr,
                                    device_count,
                                    unknown3,
                                    unknown4,
                                },
                            ),
                            p8,
                        ),
                    ),
                    Err(e) => Err(e),
                }
            },
        }
    }

    pub fn push_bytes(&self, out: &mut Vec<u8>)
        ensures
            final(out)@ == old(out)@ + keepalive_content_bytes(*self),
    {
        match self {
            KeepAliveContentType::Hello(h) => {
                push_u8(out, h.unknown2);
            },
            KeepAliveContentType::Number(n) => {
                push_u8(out, n.proposed_player_number);
                push_u8(out, n.iteration);
            },
            KeepAliveContentType::Mac(m) => {
                push_u8(out, m.iteration);
                push_u8(out, m.unknown2);
                push_mac(out, &m.mac_addr);
            },
            KeepAliveContentType::Ip(ip) => {
                push_ipv4(out, &ip.ip_addr);
                push_mac(out, &ip.mac_addr);
                push_u8(out, ip.map_sequence_byte());
                push_u8(out, ip.iteration);
                push_u8(out, 4);
                push_u8(
                    out,
                    match ip.player_number_assignment {
                        PlayerNumberAssignment::Auto => 1,
                        PlayerNumberAssignment::Manual => 2,
                    },
                );
            },
            KeepAliveContentType::Status(st) => {
                push_u8(out, st.player_number);
                push_u8(out, st.unknown2);
                push_mac(out, &st.mac_addr);
                push_ipv4(out, &st.ip_addr);
                push_u8(out, st.device_count);
                push_u8(out, 1);
                push_u8(out, 0);
                push_be16(out, st.unknown3);
                push_u8(out, 8);
            },
            KeepAliveContentType::Change(ch) => {
                push_u8(out, ch.old_player_number);
                push_ipv4(out, &ch.ip_addr);
            },
        }
        assert(out@ =~= old(out)@ + keepalive_content_bytes(*self));
    }
}

} // verus!

verus! {

// ---------------------------------------------------------------------------
// Packet

#[derive(Debug, PartialEq)]
pub struct KeepAlivePacket {
    pub kind: KeepAlivePacketType,
    pub subkind: KeepAlivePacketSubType,
    pub model: ModelName,
    pub unknown1: u8,
    pub device_type: DeviceType,
    pub content: KeepAliveContentType,
}

pub struct KeepAliveModel {
    pub kind: KeepAlivePacketType,
    pub subkind: KeepAlivePacketSubType,
    pub model: Seq<char>,
    pub unknown1: u8,
    pub device_type: DeviceType,
    pub content: KeepAliveContentType,
}

impl View for KeepAlivePacket {
    type V = KeepAliveModel;

    open spec fn view(&self) -> KeepAliveModel {
        KeepAliveModel {
            kind: self.kind,
            subkind: self.subkind,
            model: self.model@,
            unknown1: self.unknown1,
            device_type: self.device_type,
            content: self.content,
        }
    }
}

pub open spec fn spec_keepalive(s: Seq<u8>, p: usize) -> PResult<KeepAliveModel> {
    match spec_tag(s, p, udp_magic()) {
        Err(e) => Err(e),
        Ok((_, p1)) => match spec_keepalive_type(s, p1) {
            Err(e) => Err(e),
            Ok((kind, p2)) => match spec_take(s, p2, 1) {
                Err(e) => Err(e),
                Ok((_, p3)) => match spec_model_name(s, p3) {
                    Err(e) => Err(e),
                    Ok((model, p4)) => match spec_u8(s, p4) {
                        Err(e) => Err(e),
                        Ok((unknown1, p5)) => match spec_device_type(s, p5) {
                            Err(e) => Err(e),
                            Ok((device_type, p6)) => match spec_take(s, p6, 1) {
                                Err(e) => Err(e),
                                Ok((_, p7)) => match spec_take(s, p7, 1) {
                                    Err(e) => Err(e),
                                    Ok((sb, p8)) => match spec_keepalive_content(s, p8, kind) {
                                        Err(e) => Err(e),
                                        Ok((content, p9)) => Ok(
                                            (
                                                KeepAliveModel {
                                                    kind,
                                                    subkind: subtype_of(sb[0]),
                                                    model,
                                                    unknown1,
                                                    device_type,
                                                    content,
                                                },
                                                p9,
                                            ),
                                        ),
                                    },
                                },
                            },
                        },
                    },
                },
            },
        },
    }
}

/// A packet as it is written.
pub open spec fn keepalive_bytes(m: KeepAliveModel) -> Seq<u8> {
    udp_magic() + seq![keepalive_type_byte(m.kind), 0u8] + model_name_bytes(m.model) + seq![
        m.unknown1,
        device_type_byte(m.device_type),
        0u8,
        subtype_byte(m.subkind),
    ] + keepalive_content_bytes(m.content)
}

impl KeepAlivePacket {
    pub fn kind(&self) -> (k: &KeepAlivePacketType)
        ensures
            *k == self.kind,
    {
        &self.kind
    }

    pub fn content(&self) -> (c: &KeepAliveContentType)
        ensures
            *c == self.content,
    {
        &self.content
    }

    pub fn model(&self) -> (m: &ModelName)
        ensures
            m@ == self.model@,
    {
        &self.model
    }

    pub fn decode_at(input: &[u8], p: usize) -> (r: PResult<KeepAlivePacket>)
        ensures
            agrees(r, spec_keepalive(input@, p)),
    {
        proof {
            lemma_udp_magic();
        }
        let (_, p1) = match match_tag(input, p, &SOFTWARE_IDENTIFICATION) {
            Ok(v) => v,
            Err(e) => { return Err(e); },
        };
        let (kind, p2) = match KeepAlivePacketType::decode_at(input, p1) {
            Ok(v) => v,
            Err(e) => { return Err(e); },
        };
        let p3 = match take_bytes(input, p2, 1) {
            Ok((_, q)) => q,
            Err(e) => { return Err(e); },
        };
        let (model, p4) = match ModelName::decode_at(input, p3) {
            Ok(v) => v,
            Err(e) => { return Err(e); },
        };
        let (unknown1, p5) = match read_u8(input, p4) {
            Ok(v) => v,
            Err(e) => { return Err(e); },
        };
        let (device_type, p6) = match DeviceType::decode_at(input, p5) {
            Ok(v) => v,
            Err(e) => { return Err(e); },
        };
        let p7 = match take_bytes(input, p6, 1) {
            Ok((_, q)) => q,
            Err(e) => { return Err(e); },
        };
        let (subkind, p8) = match KeepAlivePacketSubType::decode_at(input, p7) {
            Ok(v) => v,
            Err(e) => { return Err(e); },
        };
        match KeepAliveContentType::decode_at(input, p8, kind) {
            Ok((content, p9)) => Ok(
                (KeepAlivePacket { kind, subkind, model, unknown1, device_type, content }, p9),
            ),
            Err(e) => Err(e),
        }
    }

    /// Reads a packet; answers the unread rest and the packet.
    pub fn decode(input: &[u8]) -> (r: Result<(&[u8], KeepAlivePacket), ParseError>)
        ensures
            match (r, spec_keepalive(input@, 0)) {
                (Ok((rest, m)), Ok((w, q))) => m@ == w && q <= input@.len() && rest@ == input@.subrange(
                    q as int,
                    input@.len() as int,
                ),
                (Err(e), Err(e2)) => e == e2,
                _ => false,
            },
    {
        match Self::decode_at(input, 0) {
            Ok((m, q)) => {
                if q <= input.len() {
                    Ok((rest_of(input, q), m))
                } else {
                    proof {
                        lemma_keepalive_end(input@, 0);
                    }
                    Err(ParseError::new(ErrorKind::Eof, q))
                }
            },
            Err(e) => Err(e),
        }
    }

    /// Decodes a buffer that holds one packet.
    pub fn try_from(message: bytes::Bytes) -> (r: Result<KeepAlivePacket, &'static str>)
        ensures
            match spec_keepalive(bytes_view(message), 0) {
                Ok((m, _)) => r matches Ok(v) && v@ == m,
                Err(_) => r is Err,
            },
    {
        match KeepAlivePacket::decode_at(bytes_as_slice(&message), 0) {
            Ok((m, _)) => Ok(m),
            Err(_) => Err("Failed decoding KeepAlivePacket."),
        }
    }

    pub fn push_bytes(&self, out: &mut Vec<u8>)
        requires
            model_name_fits(self.model@),
        ensures
            final(out)@ == old(out)@ + keepalive_bytes(self@),
    {
        proof {
            lemma_udp_magic();
        }
        push_slice(out, &SOFTWARE_IDENTIFICATION);
        push_u8(out, self.kind.to_byte());
        push_u8(out, 0);
        self.model.push_bytes(out);
        push_u8(out, self.unknown1);
        push_u8(out, self.device_type.to_byte());
        push_u8(out, 0);
        push_u8(out, self.subkind.to_byte());
        self.content.push_bytes(out);
        assert(out@ =~= old(out)@ + keepalive_bytes(self@));
    }

    pub fn encode(self) -> (b: bytes::Bytes)
        requires
            model_name_fits(self.model@),
        ensures
            bytes_view(b) == keepalive_bytes(self@),
    {
        let mut out: Vec<u8> = Vec::new();
        self.push_bytes(&mut out);
        assert(out@ =~= keepalive_bytes(self@));
        bytes_from_vec(out)
    }
}

/// A successful read ends inside the input.
pub proof fn lemma_keepalive_end(s: Seq<u8>, p: usize)
    ensures
        spec_keepalive(s, p) matches Ok((_, q)) ==> q <= s.len(),
{
}

/// The name that this library announces itself with.
pub open spec fn rekordbox_name() -> Seq<char> {
    seq!['r', 'e', 'k', 'o', 'r', 'd', 'b', 'o', 'x']
}

fn rekordbox_model() -> (m: ModelName)
    ensures
        m@ == rekordbox_name(),
{
    proof {
        reveal_strlit("rekordbox");
    }
    let m = ModelName::new("rekordbox".to_string());
    assert(m@ =~= rekordbox_name());
    m
}

pub struct KeepAliveMacPackage;

impl KeepAliveMacPackage {
    /// The MAC announcement of this library in round `iteration`.
    pub fn new(iteration: u8, mac_addr: MacAddr) -> (p: KeepAlivePacket)
        ensures
            p@ == (KeepAliveModel {
                kind: KeepAlivePacketType::Mac,
                subkind: KeepAlivePacketSubType::Mac,
                model: rekordbox_name(),
                unknown1: 1,
                device_type: DeviceType::Rekordbox,
                content: KeepAliveContentType::Mac(Mac { iteration, unknown2: 4, mac_addr }),
            }),
    {
        KeepAlivePacket {
            kind: KeepAlivePacketType::Mac,
            subkind: KeepAlivePacketSubType::Mac,
            model: rekordbox_model(),
            unknown1: 1,
            device_type: DeviceType::Rekordbox,
            content: KeepAliveContentType::Mac(Mac { iteration, unknown2: 4, mac_addr }),
        }
    }
}

pub struct KeepAliveIpPackage;

impl KeepAliveIpPackage {
    /// The IP announcement of this library, packet `index` of round
    /// `iteration`.
    pub fn new(iteration: u8, index: u8, ip_addr: Ipv4, mac_addr: MacAddr) -> (p: KeepAlivePacket)
        ensures
            p@ == (KeepAliveModel {
                kind: KeepAlivePacketType::Ip,
                subkind: KeepAlivePacketSubType::Ip,
                model: rekordbox_name(),
                unknown1: 1,
                device_type: DeviceType::Rekordbox,
                content: KeepAliveContentType::Ip(
                    Ip {
                        ip_addr,
                        mac_addr,
                        iteration,
                        index,
                        player_number_assignment: PlayerNumberAssignment::Auto,
                    },
                ),
            }),
    {
        KeepAlivePacket {
            kind: KeepAlivePacketType::Ip,
            subkind: KeepAlivePacketSubType::Ip,
            model: rekordbox_model(),
            unknown1: 1,
            device_type: DeviceType::Rekordbox,
            content: KeepAliveContentType::Ip(
                Ip {
                    ip_addr,
                    mac_addr,
                    iteration,
                    index,
                    player_number_assignment: PlayerNumberAssignment::Auto,
                },
            ),
        }
    }
}

pub struct KeepAliveStatusPackage;

impl KeepAliveStatusPackage {
    /// The status announcement of this library (player number 17).
    pub fn new(ip_addr: Ipv4, mac_addr: MacAddr, unknown3: u16, unknown4: u8) -> (p: KeepAlivePacket)
        ensures
            p@ == (KeepAliveModel {
                kind: KeepAlivePacketType::Status,
                subkind: KeepAlivePacketSubType::Status,
                model: rekordbox_name(),
                unknown1: 1,
                device_type: DeviceType::Rekordbox,
                content: KeepAliveContentType::Status(
                    Status {
                        player_number: 17,
                        unknown2: 1,
                        ip_addr,
                        mac_addr,
                        device_count: 1,
                        unknown3,
                        unknown4,
                    },
                ),
            }),
    {
        KeepAlivePacket {
            kind: KeepAlivePacketType::Status,
            subkind: KeepAlivePacketSubType::Status,
            model: rekordbox_model(),
            unknown1: 1,
            device_type: DeviceType::Rekordbox,
            content: KeepAliveContentType::Status(
                Status {
                    player_number: 17,
                    unknown2: 1,
                    ip_addr,
                    mac_addr,
                    device_count: 1,
                    unknown3,
                    unknown4,
                },
            ),
        }
    }
}


/// The contents whose written form reads back as themselves under their
/// packet's kind. An IP content is written with its position byte in place
/// of its round and its round in place of its index, so it reads back only
/// when those agree; a status content is written with `8` in place of its
/// last byte.
pub open spec fn content_roundtrips(k: KeepAlivePacketType, c: KeepAliveContentType) -> bool {
    match c {
        KeepAliveContentType::Hello(_) => k == KeepAlivePacketType::Hello,
        KeepAliveContentType::Number(_) => k == KeepAlivePacketType::Number,
        KeepAliveContentType::Mac(_) => k == KeepAlivePacketType::Mac,
        KeepAliveContentType::Change(_) => k == KeepAlivePacketType::Change,
        KeepAliveContentType::Status(st) => k == KeepAlivePacketType::Status && st.unknown4 == 8,
        KeepAliveContentType::Ip(ip) => k == KeepAlivePacketType::Ip && ip.iteration == sequence_byte(
            ip.index,
        ) && ip.index == ip.iteration,
    }
}

proof fn lemma_status_roundtrip(s: Seq<u8>, p: usize, st: Status)
    requires
        st.unknown4 == 8,
        s.len() <= usize::MAX,
        p + 18 == s.len(),
        s.subrange(p as int, s.len() as int) == keepalive_content_bytes(KeepAliveContentType::Status(st)),
    ensures
        spec_keepalive_content(s, p, KeepAlivePacketType::Status) == Ok::<(KeepAliveContentType, usize), ParseError>(
            (KeepAliveContentType::Status(st), s.len() as usize),
        ),
{
    crate::wire::lemma_be16_roundtrip(st.unknown3);
    let w = be16(st.unknown3);
    let (mac, ip) = (st.mac_addr, st.ip_addr);
    let cb = seq![
        st.player_number, st.unknown2, mac.a, mac.b, mac.c, mac.d, mac.e, mac.f, ip.a, ip.b, ip.c,
        ip.d, st.device_count, 1u8, 0u8, w[0], w[1], 8u8,
    ];
    assert(keepalive_content_bytes(KeepAliveContentType::Status(st)) =~= cb);
    let t = s.subrange(p as int, s.len() as int);
    assert(forall|i: int| 0 <= i < 18 ==> #[trigger] t[i] == s[p + i]);
    assert(spec_mac(s, (p + 2) as usize) == Ok::<(MacAddr, usize), ParseError>((mac, (p + 8) as usize)));
    assert(spec_ipv4(s, (p + 8) as usize) == Ok::<(Ipv4, usize), ParseError>((ip, (p + 12) as usize)));
    assert(spec_be_u16(s, (p + 15) as usize) == Ok::<(u16, usize), ParseError>(
        (st.unknown3, (p + 17) as usize),
    ));
}

proof fn lemma_ip_roundtrip(s: Seq<u8>, p: usize, ip: Ip)
    requires
        ip.iteration == sequence_byte(ip.index) && ip.index == ip.iteration,
        s.len() <= usize::MAX,
        p + 14 == s.len(),
        s.subrange(p as int, s.len() as int) == keepalive_content_bytes(KeepAliveContentType::Ip(ip)),
    ensures
        spec_keepalive_content(s, p, KeepAlivePacketType::Ip) == Ok::<(KeepAliveContentType, usize), ParseError>(
            (KeepAliveContentType::Ip(ip), s.len() as usize),
        ),
{
    let (mac, a) = (ip.mac_addr, ip.ip_addr);
    let cb = seq![
        a.a, a.b, a.c, a.d, mac.a, mac.b, mac.c, mac.d, mac.e, mac.f, sequence_byte(ip.index),
        ip.iteration, 4u8, assignment_byte(ip.player_number_assignment),
    ];
    assert(keepalive_content_bytes(KeepAliveContentType::Ip(ip)) =~= cb);
    let t = s.subrange(p as int, s.len() as int);
    assert(forall|i: int| 0 <= i < 14 ==> #[trigger] t[i] == s[p + i]);
    assert(spec_ipv4(s, p) == Ok::<(Ipv4, usize), ParseError>((a, (p + 4) as usize)));
    assert(spec_mac(s, (p + 4) as usize) == Ok::<(MacAddr, usize), ParseError>((mac, (p + 10) as usize)));
}

proof fn lemma_mac_roundtrip(s: Seq<u8>, p: usize, m: Mac)
    requires
        s.len() <= usize::MAX,
        p + 8 == s.len(),
        s.subrange(p as int, s.len() as int) == keepalive_content_bytes(KeepAliveContentType::Mac(m)),
    ensures
        spec_keepalive_content(s, p, KeepAlivePacketType::Mac) == Ok::<(KeepAliveContentType, usize), ParseError>(
            (KeepAliveContentType::Mac(m), s.len() as usize),
        ),
{
    let mac = m.mac_addr;
    let cb = seq![m.iteration, m.unknown2, mac.a, mac.b, mac.c, mac.d, mac.e, mac.f];
    assert(keepalive_content_bytes(KeepAliveContentType::Mac(m)) =~= cb);
    let t = s.subrange(p as int, s.len() as int);
    assert(forall|i: int| 0 <= i < 8 ==> #[trigger] t[i] == s[p + i]);
    assert(spec_mac(s, (p + 2) as usize) == Ok::<(MacAddr, usize), ParseError>((mac, (p + 8) as usize)));
}

proof fn lemma_change_roundtrip(s: Seq<u8>, p: usize, ch: Change)
    requires
        s.len() <= usize::MAX,
        p + 5 == s.len(),
        s.subrange(p as int, s.len() as int) == keepalive_content_bytes(KeepAliveContentType::Change(ch)),
    ensures
        spec_keepalive_content(s, p, KeepAlivePacketType::Change) == Ok::<(KeepAliveContentType, usize), ParseError>(
            (KeepAliveContentType::Change(ch), s.len() as usize),
        ),
{
    let a = ch.ip_addr;
    let cb = seq![ch.old_player_number, a.a, a.b, a.c, a.d];
    assert(keepalive_content_bytes(KeepAliveContentType::Change(ch)) =~= cb);
    let t = s.subrange(p as int, s.len() as int);
    assert(forall|i: int| 0 <= i < 5 ==> #[trigger] t[i] == s[p + i]);
    assert(spec_ipv4(s, (p + 1) as usize) == Ok::<(Ipv4, usize), ParseError>((a, (p + 5) as usize)));
}

proof fn lemma_content_roundtrip(s: Seq<u8>, p: usize, k: KeepAlivePacketType, c: KeepAliveContentType)
    requires
        content_roundtrips(k, c),
        s.len() <= usize::MAX,
        p + keepalive_content_bytes(c).len() == s.len(),
        s.subrange(p as int, s.len() as int) == keepalive_content_bytes(c),
    ensures
        spec_keepalive_content(s, p, k) == Ok::<(KeepAliveContentType, usize), ParseError>(
            (c, s.len() as usize),
        ),
{
    let t = s.subrange(p as int, s.len() as int);
    match c {
        KeepAliveContentType::Status(st) => {
            crate::wire::lemma_be16_roundtrip(st.unknown3);
            assert(keepalive_content_bytes(c).len() == 18);
            lemma_status_roundtrip(s, p, st);
        },
        KeepAliveContentType::Ip(ip) => {
            lemma_ip_roundtrip(s, p, ip);
        },
        KeepAliveContentType::Mac(m) => {
            lemma_mac_roundtrip(s, p, m);
        },
        KeepAliveContentType::Change(ch) => {
            lemma_change_roundtrip(s, p, ch);
        },
        KeepAliveContentType::Number(n) => {
            assert(t[0] == s[p + 0] && t[1] == s[p + 1]);
        },
        KeepAliveContentType::Hello(h) => {
            assert(t[0] == s[p + 0]);
        },
    }
}

/// Decoding the written form of a packet gives the packet back, when its
/// name fits and does not end with a NUL, its content reads back under its
/// kind, and its subkind byte names it.
pub proof fn lemma_keepalive_roundtrip(m: KeepAliveModel)
    requires
        name_roundtrips(m.model),
        content_roundtrips(m.kind, m.content),
        subtype_of(subtype_byte(m.subkind)) == m.subkind,
    ensures
        spec_keepalive(keepalive_bytes(m), 0) == Ok::<(KeepAliveModel, usize), ParseError>(
            (m, keepalive_bytes(m).len() as usize),
        ),
{
    let s = keepalive_bytes(m);
    let name = model_name_bytes(m.model);
    let cb = keepalive_content_bytes(m.content);
    lemma_model_name_roundtrip(m.model);
    assert(s.len() == 36 + cb.len());
    assert(s.subrange(0, 10) =~= udp_magic());
    assert(s[10] == keepalive_type_byte(m.kind));
    assert(s.subrange(10, 11) =~= seq![keepalive_type_byte(m.kind)]);
    assert(s.subrange(12, 32) =~= name);
    assert(spec_model_name(s, 12) == Ok::<(Seq<char>, usize), ParseError>((m.model, 32usize)));
    assert(s[32] == m.unknown1);
    assert(s[33] == device_type_byte(m.device_type));
    assert(s.subrange(35, 36) =~= seq![subtype_byte(m.subkind)]);
    assert(s.subrange(36, s.len() as int) =~= cb);
    lemma_content_roundtrip(s, 36, m.kind, m.content);
}

} // verus!
