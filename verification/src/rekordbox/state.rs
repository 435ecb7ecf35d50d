//! What the linking client remembers: whether discovery and linking have
//! started, the network that reaches the players, and the players.

use vstd::prelude::*;
use crate::rekordbox::player::{Player, PlayerModel, PlayerCollection, added_or_updated};
use crate::utils::network::PioneerNetwork;

verus! {

/// The client's state as values.
pub struct ClientStateModel {
    pub linking: bool,
    pub discovery: bool,
    pub linked: bool,
    pub address: Option<PioneerNetwork>,
    pub players: Seq<PlayerModel>,
}

#[derive(Debug)]
pub struct ClientState {
    linking: bool,
    discovery: bool,
    linked: bool,
    address: Option<PioneerNetwork>,
    pub players: PlayerCollection,
}

impl View for ClientState {
    type V = ClientStateModel;

    closed spec fn view(&self) -> ClientStateModel {
        ClientStateModel {
            linking: self.linking,
            discovery: self.discovery,
            linked: self.linked,
            address: self.address,
            players: self.players@,
        }
    }
}

impl ClientState {
    pub fn new() -> (s: ClientState)
        ensures
            s@ == (ClientStateModel {
                linking: false,
                discovery: false,
                linked: false,
                address: None,
                players: Seq::empty(),
            }),
    {
        ClientState {
            address: None,
            discovery: false,
            linked: false,
            linking: false,
            players: PlayerCollection::new(),
        }
    }

    pub fn players(&self) -> (p: &PlayerCollection)
        ensures
            p@ == self@.players,
    {
        &self.players
    }

    pub fn set_linking(&mut self, value: bool)
        ensures
            final(self)@ == (ClientStateModel { linking: value, ..old(self)@ }),
    {
        self.linking = value;
    }

    pub fn set_discovery(&mut self, value: bool)
        ensures
            final(self)@ == (ClientStateModel { discovery: value, ..old(self)@ }),
    {
        self.discovery = value;
    }

    pub fn is_discovery(&self) -> (b: bool)
        ensures
            b == self@.discovery,
    {
        self.discovery
    }

    pub fn is_linking(&self) -> (b: bool)
        ensures
            b == self@.linking,
    {
        self.linking
    }

    pub fn set_address(&mut self, address: PioneerNetwork)
        ensures
            final(self)@ == (ClientStateModel { address: Some(address), ..old(self)@ }),
    {
        self.address = Some(address);
    }

    /// Adds the player, or updates the player with its address.
    pub(crate) fn add_or_update_player(&mut self, player: Player)
        ensures
            final(self)@ == (ClientStateModel {
                players: added_or_updated(old(self)@.players, player@),
                ..old(self)@
            }),
    {
        self.players.add_or_update(player);
        assert(self@ =~= (ClientStateModel {
            players: added_or_updated(old(self)@.players, player@),
            ..old(self)@
        }));
    }

    pub fn address(&self) -> (a: &Option<PioneerNetwork>)
        ensures
            *a == self@.address,
    {
        &self.address
    }
}

} // verus!
