//! What the status server answers the packets it receives.

use vstd::prelude::*;
use crate::rekordbox::status_packet::{
    StatusPacket, StatusPacketType, StatusContentType, StatusContentModel, RekordboxReply,
};

verus! {

/// Answers a received status packet: a rekordbox hello gets a reply from
/// the model "Linux" naming this application "Term DJ"; everything else
/// (player status included) gets none.
pub fn process_packet(packet: &StatusPacket) -> (r: Option<StatusPacket>)
    ensures
        packet.kind == StatusPacketType::RekordboxHello ==> (r matches Some(p) && p.kind
            == StatusPacketType::RekordboxReply && p.model@ == "Linux"@ && p.unknown1 == 1
            && p.player_number == 1
            && p@.content == StatusContentModel::RekordboxReply("Term DJ"@)),
        packet.kind != StatusPacketType::RekordboxHello ==> r is None,
{
    if packet.kind == StatusPacketType::Cdj {
        return None;
    }
    match packet.kind {
        StatusPacketType::RekordboxHello => Some(
            StatusPacket::new(
                StatusPacketType::RekordboxReply,
                1,
                1,
                StatusContentType::RekordboxReply(RekordboxReply { name: "Term DJ".to_string() }),
            ),
        ),
        _ => None,
    }
}

} // verus!
