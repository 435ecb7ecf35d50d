//! Classifying the UDP packets that arrive on the DJ Link ports.

use vstd::prelude::*;
use vstd::utf8::{decode_utf8, valid_utf8};
use crate::rekordbox::SOFTWARE_IDENTIFICATION;
use crate::rekordbox::message::magic;
use crate::rekordbox::player::{Player, PlayerModel};
use crate::text::{string_from_utf8, trim_nul, trim_nul_end};
use crate::utils::network::Ipv4;

verus! {

#[derive(Debug, PartialEq)]
pub enum Event {
    PlayerBroadcast(Player),
    ApplicationBroadcast,
    Unknown,
    Error,
    PlayerLinkingWaiting(Player),
    InitiateLink,
    Tick,
}

/// An event as values.
pub enum EventModel {
    PlayerBroadcast(PlayerModel),
    ApplicationBroadcast,
    Unknown,
    Error,
    PlayerLinkingWaiting(PlayerModel),
    InitiateLink,
    Tick,
}

impl View for Event {
    type V = EventModel;

    open spec fn view(&self) -> EventModel {
        match self {
            Event::PlayerBroadcast(p) => EventModel::PlayerBroadcast(p@),
            Event::ApplicationBroadcast => EventModel::ApplicationBroadcast,
            Event::Unknown => EventModel::Unknown,
            Event::Error => EventModel::Error,
            Event::PlayerLinkingWaiting(p) => EventModel::PlayerLinkingWaiting(p@),
            Event::InitiateLink => EventModel::InitiateLink,
            Event::Tick => EventModel::Tick,
        }
    }
}

/// The packet starts with the DJ Link magic.
pub open spec fn is_rekordbox(b: Seq<u8>) -> bool {
    b.len() >= 10 && b.subrange(0, 10) == magic()
}

/// The device name that starts at byte `start` of a packet: twenty bytes as
/// UTF-8, trailing NULs removed. A player's broadcast holds it at byte 12, a
/// linking request at byte 11.
pub open spec fn model_name_of(b: Seq<u8>, start: int) -> Seq<char> {
    trim_nul_end(decode_utf8(b.subrange(start, start + 20)))
}

/// The device name can be read: the packet holds it and it is UTF-8.
pub open spec fn name_readable(b: Seq<u8>, start: int) -> bool {
    b.len() >= start + 20 && valid_utf8(b.subrange(start, start + 20))
}

/// Classifying a packet of `n` bytes would index past its end or read a
/// device name that is not UTF-8.
pub open spec fn get_type_panics(b: Seq<u8>, n: usize) -> bool {
    is_rekordbox(b) && if n == 54 {
        b.len() < 12 || (b.subrange(10, 12) == seq![0x06u8, 0x00] && (b.len() < 35 || (b.subrange(
            32,
            35,
        ) == seq![0x01u8, 0x02, 0x00] && (!name_readable(b, 12) || b.len() < 48))))
    } else if n == 36 {
        b.len() < 11 || (b[10] == 0x10 && (!name_readable(b, 11) || b.len() < 34))
    } else {
        false
    }
}

/// The event that a packet of `n` bytes from `peer` stands for: a player's
/// broadcast (54 bytes, kind 06 00, subkind 01 02 00), this application's
/// own broadcast (subkind 01 03 00), or a player waiting to be linked (36
/// bytes, kind 10).
pub open spec fn spec_event(b: Seq<u8>, n: usize, peer: Ipv4) -> EventModel {
    if !is_rekordbox(b) {
        EventModel::Unknown
    } else if n == 54 && b.subrange(10, 12) == seq![0x06u8, 0x00] {
        if b.subrange(32, 35) == seq![0x01u8, 0x02, 0x00] {
            EventModel::PlayerBroadcast(
                PlayerModel {
                    model: model_name_of(b, 12),
                    address: Ipv4 { a: b[44], b: b[45], c: b[46], d: b[47] },
                    number: b[36],
                    linking: false,
                },
            )
        } else if b.subrange(32, 35) == seq![0x01u8, 0x03, 0x00] {
            EventModel::ApplicationBroadcast
        } else {
            EventModel::Unknown
        }
    } else if n == 36 && b[10] == 0x10 {
        EventModel::PlayerLinkingWaiting(
            PlayerModel { model: model_name_of(b, 11), address: peer, number: b[33], linking: false },
        )
    } else {
        EventModel::Unknown
    }
}

fn starts_with(data: &[u8], start: usize, pattern: &[u8]) -> (b: bool)
    requires
        start + pattern@.len() <= data@.len(),
    ensures
        b == (data@.subrange(start as int, start + pattern@.len()) == pattern@),
{
    let dlen = data.len();
    let mut i: usize = 0;
    while i < pattern.len()
        invariant
            i <= pattern@.len(),
            dlen == data@.len(),
            start + pattern@.len() <= data@.len(),
            forall|j: int| 0 <= j < i ==> data@[start + j] == pattern@[j],
        decreases pattern@.len() - i,
    {
        if data[start + i] != pattern[i] {
            assert(data@.subrange(start as int, start + pattern@.len())[i as int] != pattern@[i as int]);
            return false;
        }
        i = i + 1;
    }
    assert(data@.subrange(start as int, start + pattern@.len()) =~= pattern@);
    true
}

pub struct EventParser;

impl EventParser {
    /// Whether the packet starts with the DJ Link magic.
    pub fn is_rekordbox_event(data: &[u8]) -> (b: bool)
        ensures
            b == is_rekordbox(data@),
    {
        if data.len() < SOFTWARE_IDENTIFICATION.len() {
            return false;
        }
        assert(SOFTWARE_IDENTIFICATION@ =~= magic());
        starts_with(data, 0, &SOFTWARE_IDENTIFICATION)
    }

    fn name_is_readable(buffer: &[u8], start: usize) -> (b: bool)
        requires
            start <= 12,
        ensures
            b == name_readable(buffer@, start as int),
    {
        if buffer.len() < start + 20 {
            return false;
        }
        let raw = vstd::slice::slice_to_vec(vstd::slice::slice_subrange(buffer, start, start + 20));
        string_from_utf8(raw).is_some()
    }

    /// Whether `parse` can classify the first `metadata.0` bytes of
    /// `buffer` (they are there, and a packet that looks like a player's
    /// broadcast or linking request holds a readable name).
    pub fn can_parse(buffer: &[u8], metadata: (usize, Ipv4)) -> (b: bool)
        ensures
            b == (metadata.0 <= buffer@.len() && !get_type_panics(
                buffer@.subrange(0, metadata.0 as int),
                metadata.0,
            )),
    {
        let n = metadata.0;
        if n > buffer.len() {
            return false;
        }
        let b = vstd::slice::slice_subrange(buffer, 0, n);
        if !Self::is_rekordbox_event(b) {
            return true;
        }
        if n == 54 {
            let kind = starts_with(b, 10, &[0x06u8, 0x00u8]);
            assert([0x06u8, 0x00u8]@ =~= seq![0x06u8, 0x00]);
            if !kind {
                return true;
            }
            let subkind = starts_with(b, 32, &[0x01u8, 0x02u8, 0x00u8]);
            assert([0x01u8, 0x02u8, 0x00u8]@ =~= seq![0x01u8, 0x02, 0x00]);
            if !subkind {
                return true;
            }
            Self::name_is_readable(b, 12)
        } else if n == 36 {
            if b[10] != 0x10 {
                return true;
            }
            Self::name_is_readable(b, 11)
        } else {
            true
        }
    }

    fn parse_model_name(buffer: &[u8], start: usize) -> (s: String)
        requires
            start <= 12,
            name_readable(buffer@, start as int),
        ensures
            s@ == model_name_of(buffer@, start as int),
    {
        let raw = vstd::slice::slice_to_vec(vstd::slice::slice_subrange(buffer, start, start + 20));
        let text = string_from_utf8(raw).unwrap();
        trim_nul(text.as_str())
    }

    /// Classifies a packet of `metadata.0` bytes that came from
    /// `metadata.1`.
    pub fn get_type(buffer: &[u8], metadata: (usize, Ipv4)) -> (e: Event)
        requires
            !get_type_panics(buffer@, metadata.0),
        ensures
            e@ == spec_event(buffer@, metadata.0, metadata.1),
    {
        if !Self::is_rekordbox_event(buffer) {
            return Event::Unknown;
        }
        let number_of_bytes = metadata.0;
        if number_of_bytes == 54 && starts_with(buffer, 10, &[0x06, 0x00]) {
            if starts_with(buffer, 32, &[0x01, 0x02, 0x00]) {
                let name = Self::parse_model_name(buffer, 12);
                let address = Ipv4::new(buffer[44], buffer[45], buffer[46], buffer[47]);
                return Event::PlayerBroadcast(Player::new(name, buffer[36], address));
            } else if starts_with(buffer, 32, &[0x01, 0x03, 0x00]) {
                return Event::ApplicationBroadcast;
            }
        } else if number_of_bytes == 36 && buffer[10] == 0x10 {
            let name = Self::parse_model_name(buffer, 11);
            return Event::PlayerLinkingWaiting(Player::new(name, buffer[33], metadata.1));
        }
        Event::Unknown
    }

    /// Classifies the first `metadata.0` bytes of `buffer`.
    pub fn parse(buffer: &[u8], metadata: (usize, Ipv4)) -> (e: Event)
        requires
            metadata.0 <= buffer@.len(),
            !get_type_panics(buffer@.subrange(0, metadata.0 as int), metadata.0),
        ensures
            e@ == spec_event(buffer@.subrange(0, metadata.0 as int), metadata.0, metadata.1),
    {
        Self::get_type(vstd::slice::slice_subrange(buffer, 0, metadata.0), metadata)
    }
}

} // verus!

verus! {

/// This application's own announcement is classified as such (and so can be
/// told apart from the players' broadcasts): it is 54 bytes long, can be
/// classified without fault, and is an `ApplicationBroadcast`.
pub proof fn lemma_own_broadcast_recognized(n: crate::utils::network::PioneerNetwork, peer: Ipv4)
    ensures
        ({
            let b = crate::rekordbox::message::flatten(
                crate::rekordbox::message::application_broadcast_parts(n),
            );
            &&& b.len() == 54
            &&& !get_type_panics(b, 54)
            &&& spec_event(b, 54, peer) == EventModel::ApplicationBroadcast
        }),
{
    let parts = crate::rekordbox::message::application_broadcast_parts(n);
    reveal_with_fuel(crate::rekordbox::message::flatten, 8);
    let b = crate::rekordbox::message::flatten(parts);
    let expected = parts[0] + parts[1] + parts[2] + parts[3] + parts[4] + parts[5] + parts[6];
    assert(parts.drop_last().drop_last().drop_last().drop_last().drop_last().drop_last().drop_last()
        =~= Seq::<Seq<u8>>::empty());
    assert(b =~= expected);
    assert(b.subrange(0, 10) =~= magic());
    assert(b.subrange(10, 12) =~= seq![0x06u8, 0x00]);
    assert(b.subrange(32, 35) =~= seq![0x01u8, 0x03, 0x00]);
}

} // verus!
