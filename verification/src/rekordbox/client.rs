//! The decisions of the linking client: what it remembers, how it reacts to
//! players' broadcasts and linking requests, and which discovery messages it
//! sends. Sending and receiving are left to the caller.

use vstd::prelude::*;
use crate::rekordbox::event::{Event, EventModel};
use crate::rekordbox::message::{
    ApplicationBroadcast, DiscoveryInitial, DiscoverySequence, InitiateRPCState,
    RekordboxMessageType, flatten, application_broadcast_parts, discovery_initial_parts,
    discovery_sequence_parts, rpc_state_parts,
};
use crate::rekordbox::player::{Player, PlayerModel, added_or_updated};
use crate::rekordbox::state::{ClientState, ClientStateModel};
use crate::utils::network::PioneerNetwork;

verus! {

#[derive(Debug)]
pub enum Error {
    Generic(String),
    Socket(String),
}

/// The discovery messages, in sending order: three initial messages
/// (steps 1 to 3), six rounds of six sequence messages, and the
/// application's announcement.
pub open spec fn discovery_messages(a: PioneerNetwork) -> Seq<Seq<u8>> {
    Seq::new(
        40,
        |k: int|
            if k < 3 {
                flatten(discovery_initial_parts(a, (k + 1) as u8))
            } else if k < 39 {
                flatten(
                    discovery_sequence_parts(a, ((k - 3) / 6 + 1) as u8, ((k - 3) % 6 + 1) as i32),
                )
            } else {
                flatten(application_broadcast_parts(a))
            },
    )
}

pub open spec fn message_views(ms: Seq<Vec<u8>>) -> Seq<Seq<u8>> {
    ms.map_values(|m: Vec<u8>| m@)
}

/// Starts discovery: marks it started and answers the messages to
/// broadcast on `address`, in order (the handler is then told
/// `InitiateLink`).
pub fn initiate_discovery(state: &mut ClientState, address: &PioneerNetwork) -> (messages: Vec<RekordboxMessageType>)
    ensures
        final(state)@ == (ClientStateModel { discovery: true, ..old(state)@ }),
        message_views(messages@) == discovery_messages(*address),
{
    state.set_discovery(true);
    let ghost all = discovery_messages(*address);
    let mut messages: Vec<Vec<u8>> = Vec::new();
    let mut sequence: u8 = 1;
    while sequence <= 3
        invariant
            1 <= sequence <= 4,
            all == discovery_messages(*address),
            message_views(messages@) == all.take(sequence - 1),
        decreases 4 - sequence,
    {
        let m = DiscoveryInitial::new(address, sequence).into_message();
        let ghost before = messages@;
        messages.push(m);
        assert(message_views(messages@) =~= message_views(before).push(m@));
        assert(all.take(sequence as int) =~= all.take(sequence - 1).push(all[sequence - 1]));
        sequence = sequence + 1;
    }
    let mut sequence: u8 = 1;
    while sequence <= 6
        invariant
            1 <= sequence <= 7,
            all == discovery_messages(*address),
            message_views(messages@) == all.take(3 + (sequence - 1) * 6),
        decreases 7 - sequence,
    {
        let mut index: i32 = 1;
        while index <= 6
            invariant
                1 <= sequence <= 6,
                1 <= index <= 7,
                all == discovery_messages(*address),
                message_views(messages@) == all.take(3 + (sequence - 1) * 6 + (index - 1)),
            decreases 7 - index,
        {
            let m = DiscoverySequence::new(address, sequence, index).into_message();
            let ghost k: int = 3 + (sequence - 1) * 6 + (index - 1);
            assert((k - 3) / 6 + 1 == sequence && (k - 3) % 6 + 1 == index) by (nonlinear_arith)
                requires
                    k == 3 + (sequence - 1) * 6 + (index - 1),
                    1 <= sequence <= 6,
                    1 <= index <= 6,
            ;
            let ghost before = messages@;
            assert(m@ == all[k]);
            messages.push(m);
            assert(message_views(messages@) =~= message_views(before).push(m@));
            assert(all.take(k + 1) =~= all.take(k).push(all[k]));
            index = index + 1;
        }
        sequence = sequence + 1;
    }
    let m = ApplicationBroadcast::new(address).into_message();
    let ghost before = messages@;
    messages.push(m);
    assert(message_views(messages@) =~= message_views(before).push(m@));
    assert(all =~= all.take(39).push(all[39]));
    messages
}

/// The state after a player's broadcast, with `network` the network found to
/// reach it: discovery starts when it has not and a player is already known;
/// the network is remembered; the player is added or updated.
pub open spec fn state_after_broadcast(
    s: ClientStateModel,
    player: PlayerModel,
    network: Option<PioneerNetwork>,
) -> ClientStateModel {
    let s1 = match network {
        Some(a) => ClientStateModel {
            discovery: if !s.discovery && s.players.len() >= 1 {
                true
            } else {
                s.discovery
            },
            address: Some(a),
            ..s
        },
        None => s,
    };
    ClientStateModel { players: added_or_updated(s1.players, player), ..s1 }
}

/// Discovery starts on this broadcast.
pub open spec fn starts_discovery(s: ClientStateModel, network: Option<PioneerNetwork>) -> bool {
    network is Some && !s.discovery && s.players.len() >= 1
}

/// Reacts to a player's broadcast; answers the discovery messages to send
/// when discovery starts.
pub fn on_player_broadcast(
    state: &mut ClientState,
    player: Player,
    network: Option<PioneerNetwork>,
) -> (r: Option<Vec<RekordboxMessageType>>)
    ensures
        final(state)@ == state_after_broadcast(old(state)@, player@, network),
        starts_discovery(old(state)@, network) ==> (r matches Some(ms) && message_views(ms@)
            == discovery_messages(network.unwrap())),
        !starts_discovery(old(state)@, network) ==> r is None,
{
    let mut messages: Option<Vec<Vec<u8>>> = None;
    if let Some(address) = network {
        if state.is_discovery() == false && state.players().len() >= 1 {
            messages = Some(initiate_discovery(state, &address));
        }
        state.set_address(address);
    }
    state.add_or_update_player(player);
    proof {
        assert(state@ =~= state_after_broadcast(old(state)@, player@, network));
    }
    messages
}

/// The message that answers a player waiting to be linked (sent to its
/// port 50002).
pub fn linking_message() -> (m: RekordboxMessageType)
    ensures
        m@ == flatten(rpc_state_parts()),
{
    InitiateRPCState::new().into_message()
}

/// After the linking message reached the player: it is marked linking and
/// added or updated.
pub fn on_linking_sent(state: &mut ClientState, player: Player)
    ensures
        final(state)@ == (ClientStateModel {
            players: added_or_updated(old(state)@.players, PlayerModel { linking: true, ..player@ }),
            ..old(state)@
        }),
{
    let mut player = player;
    player.set_linking(true);
    state.add_or_update_player(player);
    proof {
        assert(state@ =~= (ClientStateModel {
            players: added_or_updated(old(state)@.players, PlayerModel { linking: true, ..player@ }),
            ..old(state)@
        }));
    }
}

/// Whether the handler is told of an event: all but this application's own
/// broadcasts.
pub fn should_notify(evt: &Event) -> (b: bool)
    ensures
        b == !(evt@ is ApplicationBroadcast),
{
    match evt {
        Event::ApplicationBroadcast => false,
        _ => true,
    }
}

/// The periodic announcement, once a network is known.
pub fn announcement(state: &ClientState) -> (r: Option<RekordboxMessageType>)
    ensures
        match state@.address {
            Some(a) => r matches Some(m) && m@ == flatten(application_broadcast_parts(a)),
            None => r is None,
        },
{
    match state.address() {
        Some(address) => Some(ApplicationBroadcast::new(address).into_message()),
        None => None,
    }
}


/// Discovery starts once: after a broadcast that starts it, no later
/// broadcast starts it again.
pub proof fn lemma_discovery_starts_once(
    s: ClientStateModel,
    p1: PlayerModel,
    n1: Option<PioneerNetwork>,
    p2: PlayerModel,
    n2: Option<PioneerNetwork>,
)
    requires
        starts_discovery(s, n1),
    ensures
        state_after_broadcast(s, p1, n1).discovery,
        !starts_discovery(state_after_broadcast(s, p1, n1), n2),
        state_after_broadcast(state_after_broadcast(s, p1, n1), p2, n2).discovery,
{
}

} // verus!
