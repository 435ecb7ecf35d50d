//! The decisions of the library server: what it remembers of the network and
//! the players, how it reacts to a player's status, and which packets it
//! broadcasts to be linked.

use vstd::prelude::*;
use crate::rekordbox::keepalive::{
    KeepAlivePacket, KeepAliveModel, KeepAlivePacketType, KeepAlivePacketSubType,
    KeepAliveContentType, KeepAliveMacPackage, KeepAliveIpPackage, KeepAliveStatusPackage, Status,
    Mac, Ip, DeviceType, PlayerNumberAssignment, rekordbox_name,
};
use crate::rekordbox::player::{Player, PlayerModel, PlayerCollection, added_or_updated};
use crate::utils::network::{PioneerNetwork, Ipv4, MacAddr};

verus! {

#[derive(Debug, PartialEq, Eq, Structural, Clone, Copy)]
pub enum ApplicationEvent {
    InitiateLink,
    DeviceChange,
}

/// The server's state as values.
pub struct ServerStateModel {
    pub linking: bool,
    pub discovery: bool,
    pub linked: bool,
    pub address: Option<PioneerNetwork>,
    pub players: Seq<PlayerModel>,
}

#[derive(Debug)]
pub struct ServerState {
    linking: bool,
    discovery: bool,
    linked: bool,
    address: Option<PioneerNetwork>,
    players: PlayerCollection,
}

impl View for ServerState {
    type V = ServerStateModel;

    closed spec fn view(&self) -> ServerStateModel {
        ServerStateModel {
            linking: self.linking,
            discovery: self.discovery,
            linked: self.linked,
            address: self.address,
            players: self.players@,
        }
    }
}

/// Linking can start: a player is known and linking has not started.
pub open spec fn linking_possible(s: ServerStateModel) -> bool {
    s.players.len() > 0 && !s.linking
}

/// The MAC announcement of round `k` (counting from zero).
pub open spec fn mac_model(a: PioneerNetwork, k: int) -> KeepAliveModel {
    KeepAliveModel {
        kind: KeepAlivePacketType::Mac,
        subkind: KeepAlivePacketSubType::Mac,
        model: rekordbox_name(),
        unknown1: 1,
        device_type: DeviceType::Rekordbox,
        content: KeepAliveContentType::Mac(Mac { iteration: (k + 1) as u8, unknown2: 4, mac_addr: a.mac }),
    }
}

/// The IP announcement of round `sequence`, packet `index`.
pub open spec fn ip_model(a: PioneerNetwork, sequence: int, index: int) -> KeepAliveModel {
    KeepAliveModel {
        kind: KeepAlivePacketType::Ip,
        subkind: KeepAlivePacketSubType::Ip,
        model: rekordbox_name(),
        unknown1: 1,
        device_type: DeviceType::Rekordbox,
        content: KeepAliveContentType::Ip(
            Ip {
                ip_addr: a.network.spec_ip(),
                mac_addr: a.mac,
                iteration: sequence as u8,
                index: index as u8,
                player_number_assignment: PlayerNumberAssignment::Auto,
            },
        ),
    }
}

/// The status announcement with the two trailing fields given.
pub open spec fn status_model(a: PioneerNetwork, unknown3: u16, unknown4: u8) -> KeepAliveModel {
    KeepAliveModel {
        kind: KeepAlivePacketType::Status,
        subkind: KeepAlivePacketSubType::Status,
        model: rekordbox_name(),
        unknown1: 1,
        device_type: DeviceType::Rekordbox,
        content: KeepAliveContentType::Status(
            Status {
                player_number: 17,
                unknown2: 1,
                ip_addr: a.network.spec_ip(),
                mac_addr: a.mac,
                device_count: 1,
                unknown3,
                unknown4,
            },
        ),
    }
}

/// The packets of the MAC/IP negotiation, in sending order: three MAC
/// announcements (rounds 1 to 3), six rounds of six IP announcements, and a
/// status announcement.
pub open spec fn negotiation_models(a: PioneerNetwork) -> Seq<KeepAliveModel> {
    Seq::new(
        40,
        |k: int|
            if k < 3 {
                mac_model(a, k)
            } else if k < 39 {
                ip_model(a, (k - 3) / 6 + 1, (k - 3) % 6 + 1)
            } else {
                status_model(a, 4, 8)
            },
    )
}

pub open spec fn packet_models(ps: Seq<KeepAlivePacket>) -> Seq<KeepAliveModel> {
    ps.map_values(|p: KeepAlivePacket| p@)
}

/// A status packet from a player (not from a rekordbox library).
pub open spec fn player_status(m: KeepAliveModel) -> Option<Status> {
    match m.content {
        KeepAliveContentType::Status(s) => if m.kind == KeepAlivePacketType::Status && m.model
            != rekordbox_name() {
            Some(s)
        } else {
            None
        },
        _ => None,
    }
}

/// The state after a player's status, with `network` the network found to
/// reach it: the network is remembered and the player added or updated.
pub open spec fn state_after_status(
    s: ServerStateModel,
    model: Seq<char>,
    status: Status,
    network: Option<PioneerNetwork>,
) -> ServerStateModel {
    ServerStateModel {
        address: network,
        players: added_or_updated(
            s.players,
            PlayerModel {
                model,
                address: status.ip_addr,
                number: status.player_number,
                linking: false,
            },
        ),
        ..s
    }
}

/// The events that a player's status gives rise to: a device change when
/// the number of players changed, then a link request when linking can start.
pub open spec fn status_events(before: ServerStateModel, after: ServerStateModel) -> Seq<ApplicationEvent> {
    (if before.players.len() != after.players.len() {
        seq![ApplicationEvent::DeviceChange]
    } else {
        Seq::empty()
    }) + (if linking_possible(after) {
        seq![ApplicationEvent::InitiateLink]
    } else {
        Seq::empty()
    })
}

impl ServerState {
    pub fn new() -> (s: ServerState)
        ensures
            s@ == (ServerStateModel {
                linking: false,
                discovery: false,
                linked: false,
                address: None,
                players: Seq::empty(),
            }),
    {
        ServerState {
            linking: false,
            linked: false,
            discovery: false,
            address: None,
            players: PlayerCollection::new(),
        }
    }

    /// Remembers the network on which rekordbox equipment was found.
    pub fn synchronize_player_broadcast_network(&mut self, network: Option<PioneerNetwork>)
        ensures
            final(self)@ == (ServerStateModel { address: network, ..old(self)@ }),
    {
        self.address = network;
    }

    pub fn is_linking_possible(&self) -> (b: bool)
        ensures
            b == linking_possible(self@),
    {
        if self.players.len() > 0 {
            if self.linking == false {
                return true;
            } else {
                return false;
            }
        }
        false
    }

    pub fn players(&self) -> (p: &PlayerCollection)
        ensures
            p@ == self@.players,
    {
        &self.players
    }

    pub fn set_linking(&mut self, value: bool)
        ensures
            final(self)@ == (ServerStateModel { linking: value, ..old(self)@ }),
    {
        self.linking = value;
    }

    pub fn set_discovery(&mut self, value: bool)
        ensures
            final(self)@ == (ServerStateModel { discovery: value, ..old(self)@ }),
    {
        self.discovery = value;
    }

    pub fn is_discovery(&self) -> (b: bool)
        ensures
            b == self@.discovery,
    {
        self.discovery
    }

    pub fn is_linking(&self) -> (b: bool)
        ensures
            b == self@.linking,
    {
        self.linking
    }

    pub fn set_address(&mut self, address: PioneerNetwork)
        ensures
            final(self)@ == (ServerStateModel { address: Some(address), ..old(self)@ }),
    {
        self.address = Some(address);
    }

    pub fn address(&self) -> (a: &Option<PioneerNetwork>)
        ensures
            *a == self@.address,
    {
        &self.address
    }

    /// Starts linking and answers the packets to broadcast, in order, on the
    /// remembered network; refused when no network is known.
    pub fn initiate_mac_ip_negotiation(&mut self) -> (r: Result<Vec<KeepAlivePacket>, &'static str>)
        ensures
            final(self)@ == (ServerStateModel { linking: true, ..old(self)@ }),
            match old(self)@.address {
                Some(a) => r matches Ok(ps) && packet_models(ps@) == negotiation_models(a),
                None => r == Err::<Vec<KeepAlivePacket>, &'static str>(
                    "No pioneer network has been discovered",
                ),
            },
    {
        self.linking = true;
        match self.address {
            Some(address) => {
                let ghost models = negotiation_models(address);
                let mut packets: Vec<KeepAlivePacket> = Vec::new();
                let mut sequence: u8 = 1;
                while sequence <= 3
                    invariant
                        1 <= sequence <= 4,
                        models == negotiation_models(address),
                        packet_models(packets@) == models.take(sequence - 1),
                    decreases 4 - sequence,
                {
                    let p = KeepAliveMacPackage::new(sequence, address.mac_address());
                    let ghost before = packets@;
                    assert(p@ == models[sequence - 1]);
                    packets.push(p);
                    assert(packet_models(packets@) =~= packet_models(before).push(p@));
                    assert(models.take(sequence as int) =~= models.take(sequence - 1).push(models[sequence - 1]));
                    assert(packet_models(packets@) =~= models.take(sequence as int));
                    sequence = sequence + 1;
                }
                let mut sequence: u8 = 1;
                while sequence <= 6
                    invariant
                        1 <= sequence <= 7,
                        models == negotiation_models(address),
                        packet_models(packets@) == models.take(3 + (sequence - 1) * 6),
                    decreases 7 - sequence,
                {
                    let mut index: u8 = 1;
                    while index <= 6
                        invariant
                            1 <= sequence <= 6,
                            1 <= index <= 7,
                            models == negotiation_models(address),
                            packet_models(packets@) == models.take(3 + (sequence - 1) * 6 + (index - 1)),
                        decreases 7 - index,
                    {
                        let p = KeepAliveIpPackage::new(
                            sequence,
                            index,
                            address.ip(),
                            address.mac_address(),
                        );
                        let ghost k: int = 3 + (sequence - 1) * 6 + (index - 1);
                        assert((k - 3) / 6 + 1 == sequence && (k - 3) % 6 + 1 == index) by (nonlinear_arith)
                            requires
                                k == 3 + (sequence - 1) * 6 + (index - 1),
                                1 <= sequence <= 6,
                                1 <= index <= 6,
                        ;
                        let ghost before = packets@;
                        assert(p@ == models[k]);
                        packets.push(p);
                        assert(packet_models(packets@) =~= packet_models(before).push(p@));
                        assert(models.take(k + 1) =~= models.take(k).push(models[k]));
                        assert(packet_models(packets@) =~= models.take(k + 1));
                        index = index + 1;
                    }
                    sequence = sequence + 1;
                }
                let p = KeepAliveStatusPackage::new(address.ip(), address.mac_address(), 4, 8);
                let ghost before = packets@;
                assert(p@ == models[39]);
                packets.push(p);
                assert(packet_models(packets@) =~= packet_models(before).push(p@));
                assert(models =~= models.take(39).push(models[39]));
                assert(packet_models(packets@) =~= models);
                Ok(packets)
            },
            None => Err("No pioneer network has been discovered"),
        }
    }

    /// The status packet broadcast every half second once a network is known.
    pub fn status_broadcast(&self) -> (r: Option<KeepAlivePacket>)
        ensures
            match self@.address {
                Some(a) => r matches Some(p) && p@ == status_model(a, 1, 0),
                None => r is None,
            },
    {
        match self.address {
            Some(address) => Some(KeepAliveStatusPackage::new(address.ip(), address.mac_address(), 1, 0)),
            None => None,
        }
    }
}

/// The status carried by a packet from a player (a status packet whose
/// model is not `rekordbox`).
pub fn player_status_of(packet: &KeepAlivePacket) -> (r: Option<Status>)
    ensures
        r == player_status(packet@),
{
    proof {
        reveal_strlit("rekordbox");
    }
    let own = "rekordbox".to_string();
    assert(own@ =~= rekordbox_name());
    match packet.content {
        KeepAliveContentType::Status(status) => {
            let from_library = *packet.model().to_string() == own;
            if packet.kind == KeepAlivePacketType::Status && !from_library {
                Some(status)
            } else {
                None
            }
        },
        _ => None,
    }
}

/// Reacts to a player's status: remembers `network` (the network found to
/// reach the player), adds or updates the player, and answers the events to
/// emit.
pub fn handle_keepalive_status(
    event: &KeepAlivePacket,
    status: &Status,
    state: &mut ServerState,
    network: Option<PioneerNetwork>,
) -> (events: Vec<ApplicationEvent>)
    ensures
        final(state)@ == state_after_status(old(state)@, event@.model, *status, network),
        events@ == status_events(old(state)@, final(state)@),
{
    let previous_number_of_players = state.players.len();
    state.synchronize_player_broadcast_network(network);
    let model = event.model().to_string().clone();
    state.players.add_or_update(Player::new(model, *status.player_number(), *status.ip_addr()));
    let mut events: Vec<ApplicationEvent> = Vec::new();
    if previous_number_of_players != state.players.len() {
        events.push(ApplicationEvent::DeviceChange);
    }
    if state.is_linking_possible() {
        events.push(ApplicationEvent::InitiateLink);
    }
    proof {
        assert(state@ =~= state_after_status(old(state)@, event@.model, *status, network));
    }
    assert(events@ =~= status_events(old(state)@, state@));
    events
}


/// Linking is asked for once: while linking has not started, a player's
/// status asks for it; once linking has started, no status asks for it
/// again, and linking stays started.
pub proof fn lemma_link_requested_until_linking(
    s: ServerStateModel,
    model: Seq<char>,
    status: Status,
    network: Option<PioneerNetwork>,
)
    ensures
        ({
            let after = state_after_status(s, model, status, network);
            let events = status_events(s, after);
            &&& after.linking == s.linking
            &&& !s.linking ==> events.contains(ApplicationEvent::InitiateLink)
            &&& s.linking ==> !events.contains(ApplicationEvent::InitiateLink)
        }),
{
    let p = PlayerModel {
        model,
        address: status.ip_addr,
        number: status.player_number,
        linking: false,
    };
    let after = state_after_status(s, model, status, network);
    let events = status_events(s, after);
    crate::rekordbox::player::lemma_first_with_address_found(s.players, p.address);
    assert(after.players.len() >= 1);
    if !s.linking {
        assert(events.last() == ApplicationEvent::InitiateLink);
        assert(events.contains(ApplicationEvent::InitiateLink));
    } else {
        assert forall|i: int| 0 <= i < events.len() implies events[i] != ApplicationEvent::InitiateLink by {
            if s.players.len() != after.players.len() {
                assert(events =~= seq![ApplicationEvent::DeviceChange]);
            } else {
                assert(events =~= Seq::<ApplicationEvent>::empty());
            }
        }
    }
}

} // verus!
