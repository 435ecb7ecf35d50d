//! The players seen on the network, known by their address.

use vstd::prelude::*;
use crate::utils::network::Ipv4;
use crate::rekordbox::message::{ApplicationLinkRequest, RekordboxMessageType, flatten, link_request_parts};

verus! {

/// A player as values.
pub struct PlayerModel {
    pub model: Seq<char>,
    pub address: Ipv4,
    pub number: u8,
    pub linking: bool,
}

#[derive(Debug)]
pub struct Player {
    model: String,
    address: Ipv4,
    number: u8,
    linking: bool,
}

impl View for Player {
    type V = PlayerModel;

    closed spec fn view(&self) -> PlayerModel {
        PlayerModel {
            model: self.model@,
            address: self.address,
            number: self.number,
            linking: self.linking,
        }
    }
}

/// Two players are the same player when they have the same address.
impl PartialEq for Player {
    fn eq(&self, other: &Player) -> (r: bool) {
        self.address == other.address
    }
}

impl vstd::std_specs::cmp::PartialEqSpecImpl for Player {
    open spec fn obeys_eq_spec() -> bool {
        true
    }

    open spec fn eq_spec(&self, other: &Player) -> bool {
        self@.address == other@.address
    }
}

impl Clone for Player {
    fn clone(&self) -> (r: Player)
        ensures
            r@ == self@,
    {
        Player {
            model: self.model.clone(),
            address: self.address,
            number: self.number,
            linking: self.linking,
        }
    }
}

impl Player {
    pub fn new(model: String, number: u8, address: Ipv4) -> (p: Player)
        ensures
            p@ == (PlayerModel { model: model@, address, number, linking: false }),
    {
        Player { model, number, address, linking: false }
    }

    pub fn address(&self) -> (a: Ipv4)
        ensures
            a == self@.address,
    {
        self.address
    }

    pub fn number(&self) -> (n: u8)
        ensures
            n == self@.number,
    {
        self.number
    }

    pub fn model(&self) -> (m: &String)
        ensures
            m@ == self@.model,
    {
        &self.model
    }

    pub fn is_linking(&self) -> (b: bool)
        ensures
            b == self@.linking,
    {
        self.linking
    }

    pub fn set_linking(&mut self, val: bool)
        ensures
            final(self)@ == (PlayerModel { linking: val, ..old(self)@ }),
    {
        self.linking = val;
    }

    /// Marks the player as linking and answers the link request to send to
    /// it (port 50002).
    pub fn link(&mut self) -> (data: RekordboxMessageType)
        ensures
            final(self)@ == (PlayerModel { linking: true, ..old(self)@ }),
            data@ == flatten(link_request_parts()),
    {
        let data = ApplicationLinkRequest::new().into_message();
        self.linking = true;
        data
    }
}

/// The collection after `add_or_update(p)`: the first player with `p`'s
/// address takes `p`'s number and becomes linking if `p` is; without such a
/// player, `p` is added at the end.
pub open spec fn added_or_updated(players: Seq<PlayerModel>, p: PlayerModel) -> Seq<PlayerModel> {
    match first_with_address(players, p.address) {
        Some(i) => players.update(
            i,
            PlayerModel {
                number: p.number,
                linking: players[i].linking || p.linking,
                ..players[i]
            },
        ),
        None => players.push(p),
    }
}

/// The index of the first player with `address`.
pub open spec fn first_with_address(players: Seq<PlayerModel>, address: Ipv4) -> Option<int>
    decreases players.len(),
{
    if players.len() == 0 {
        None
    } else {
        match first_with_address(players.drop_last(), address) {
            Some(i) => Some(i),
            None => if players.last().address == address {
                Some(players.len() - 1)
            } else {
                None
            },
        }
    }
}

pub open spec fn player_models(players: Seq<Player>) -> Seq<PlayerModel> {
    players.map_values(|p: Player| p@)
}

#[derive(Debug)]
pub struct PlayerCollection {
    players: Vec<Player>,
}

impl View for PlayerCollection {
    type V = Seq<PlayerModel>;

    closed spec fn view(&self) -> Seq<PlayerModel> {
        player_models(self.players@)
    }
}

/// The players that an iteration hands out, last first.
pub struct PlayerIter {
    players: Vec<Player>,
}

impl View for PlayerIter {
    type V = Seq<PlayerModel>;

    closed spec fn view(&self) -> Seq<PlayerModel> {
        player_models(self.players@)
    }
}

impl PlayerIter {
    /// The next player: the last one left.
    pub fn next(&mut self) -> (r: Option<Player>)
        ensures
            old(self)@.len() == 0 ==> r is None && final(self)@ == old(self)@,
            old(self)@.len() > 0 ==> (r matches Some(p) && p@ == old(self)@.last() && final(self)@
                == old(self)@.drop_last()),
    {
        let r = self.players.pop();
        proof {
            if old(self)@.len() > 0 {
                assert(self@ =~= old(self)@.drop_last());
            }
        }
        r
    }

    pub fn len(&self) -> (n: usize)
        ensures
            n == self@.len(),
    {
        self.players.len()
    }
}

impl PlayerCollection {
    pub fn new() -> (c: PlayerCollection)
        ensures
            c@ == Seq::<PlayerModel>::empty(),
    {
        let c = PlayerCollection { players: Vec::new() };
        assert(c@ =~= Seq::<PlayerModel>::empty());
        c
    }

    /// An iteration over copies of the players.
    pub fn iter(&mut self) -> (it: PlayerIter)
        ensures
            it@ == old(self)@,
            final(self)@ == old(self)@,
    {
        let mut copies: Vec<Player> = Vec::new();
        let mut i: usize = 0;
        while i < self.players.len()
            invariant
                i <= self.players@.len(),
                player_models(copies@) == player_models(self.players@).take(i as int),
            decreases self.players@.len() - i,
        {
            let p = self.players[i].clone();
            let ghost before = copies@;
            copies.push(p);
            assert(player_models(copies@) =~= player_models(before).push(p@));
            assert(player_models(self.players@).take(i + 1) =~= player_models(self.players@).take(
                i as int,
            ).push(self.players@[i as int]@));
            i = i + 1;
        }
        assert(player_models(self.players@).take(i as int) =~= player_models(self.players@));
        PlayerIter { players: copies }
    }

    pub fn len(&self) -> (n: usize)
        ensures
            n == self@.len(),
    {
        self.players.len()
    }

    pub fn push(&mut self, player: Player)
        ensures
            final(self)@ == old(self)@.push(player@),
    {
        self.players.push(player);
        assert(self@ =~= old(self)@.push(player@));
    }

    /// The player at `idx`.
    pub fn get(&self, idx: usize) -> (p: &Player)
        requires
            idx < self@.len(),
        ensures
            p@ == self@[idx as int],
    {
        &self.players[idx]
    }

    /// The index of the first player with `address`.
    pub fn position(&self, address: &Ipv4) -> (r: Option<usize>)
        ensures
            match first_with_address(self@, *address) {
                Some(i) => r == Some(i as usize),
                None => r is None,
            },
    {
        let mut i: usize = 0;
        while i < self.players.len()
            invariant
                i <= self.players@.len(),
                first_with_address(self@.take(i as int), *address) is None,
            decreases self.players@.len() - i,
        {
            proof {
                assert(self@.take(i + 1).drop_last() =~= self@.take(i as int));
            }
            if self.players[i].address == *address {
                proof {
                    lemma_first_with_address_prefix(self@, i + 1, *address);
                }
                return Some(i);
            }
            i = i + 1;
        }
        assert(self@.take(i as int) =~= self@);
        None
    }

    /// Updates the player with the same address (its number, and its
    /// linking flag when the new one links), or adds the player.
    pub fn add_or_update(&mut self, player: Player)
        ensures
            final(self)@ == added_or_updated(old(self)@, player@),
    {
        match self.position(&player.address) {
            Some(i) => {
                proof {
                    lemma_first_with_address_found(old(self)@, player@.address);
                }
                let ghost before = self.players@;
                let mut p = self.players.remove(i);
                p.number = player.number;
                if p.linking == false && player.linking == true {
                    p.linking = player.linking;
                }
                self.players.insert(i, p);
                assert(self.players@ =~= before.update(i as int, p));
                assert(self@ =~= added_or_updated(old(self)@, player@));
            },
            None => {
                self.push(player);
            },
        }
    }
}

/// The first match is a player with that address.
pub proof fn lemma_first_with_address_found(players: Seq<PlayerModel>, address: Ipv4)
    ensures
        first_with_address(players, address) matches Some(i) ==> 0 <= i < players.len()
            && players[i].address == address,
    decreases players.len(),
{
    if players.len() > 0 {
        lemma_first_with_address_found(players.drop_last(), address);
    }
}

/// A first match within a prefix is the first match of the whole.
pub proof fn lemma_first_with_address_prefix(players: Seq<PlayerModel>, n: int, address: Ipv4)
    requires
        0 <= n <= players.len(),
        first_with_address(players.take(n), address) is Some,
    ensures
        first_with_address(players, address) == first_with_address(players.take(n), address),
    decreases players.len(),
{
    if n < players.len() {
        assert(players.drop_last().take(n) =~= players.take(n));
        lemma_first_with_address_prefix(players.drop_last(), n, address);
    } else {
        assert(players.take(n) =~= players);
    }
}

} // verus!

verus! {

/// No two players share an address.
pub open spec fn addresses_distinct(players: Seq<PlayerModel>) -> bool {
    forall|i: int, j: int|
        0 <= i < j < players.len() ==> players[i].address != players[j].address
}

/// What `add_or_update` keeps: addresses stay distinct, the collection grows
/// by at most one player, the player with the new player's address carries
/// its number afterwards, and no player stops linking.
pub proof fn lemma_add_or_update(players: Seq<PlayerModel>, p: PlayerModel)
    requires
        addresses_distinct(players),
    ensures
        ({
            let after = added_or_updated(players, p);
            &&& addresses_distinct(after)
            &&& players.len() <= after.len() <= players.len() + 1
            &&& first_with_address(after, p.address) matches Some(i) && after[i].number == p.number
                && (p.linking ==> after[i].linking)
            &&& forall|k: int| 0 <= k < players.len() ==> #[trigger] players[k].linking
                ==> after[k].linking
        }),
{
    lemma_first_with_address_found(players, p.address);
    let after = added_or_updated(players, p);
    match first_with_address(players, p.address) {
        Some(i) => {
            lemma_first_with_address_unique(after, p.address, i);
        },
        None => {
            lemma_first_with_address_none(players, p.address);
            lemma_first_with_address_unique(after, p.address, players.len() as int);
        },
    }
}

/// Without a first match, no player has the address.
pub proof fn lemma_first_with_address_none(players: Seq<PlayerModel>, address: Ipv4)
    requires
        first_with_address(players, address) is None,
    ensures
        forall|k: int| 0 <= k < players.len() ==> #[trigger] players[k].address != address,
    decreases players.len(),
{
    if players.len() > 0 {
        lemma_first_with_address_none(players.drop_last(), address);
        assert forall|k: int| 0 <= k < players.len() implies #[trigger] players[k].address
            != address by {
            if k < players.len() - 1 {
                assert(players.drop_last()[k] == players[k]);
            }
        }
    }
}

/// When the only player with an address is at `i`, the first match is `i`.
pub proof fn lemma_first_with_address_unique(players: Seq<PlayerModel>, address: Ipv4, i: int)
    requires
        0 <= i < players.len(),
        players[i].address == address,
        forall|k: int| 0 <= k < players.len() && k != i ==> #[trigger] players[k].address != address,
    ensures
        first_with_address(players, address) == Some(i),
    decreases players.len(),
{
    if i < players.len() - 1 {
        assert(players.drop_last()[i] == players[i]);
        assert forall|k: int| 0 <= k < players.drop_last().len() && k != i implies #[trigger] players.drop_last()[k].address
            != address by {
            assert(players.drop_last()[k] == players[k]);
        }
        lemma_first_with_address_unique(players.drop_last(), address, i);
    } else {
        assert forall|k: int| 0 <= k < players.drop_last().len() implies #[trigger] players.drop_last()[k].address
            != address by {
            assert(players.drop_last()[k] == players[k]);
        }
        lemma_first_with_address_none_rev(players.drop_last(), address);
    }
}

/// When no player has the address, there is no first match.
pub proof fn lemma_first_with_address_none_rev(players: Seq<PlayerModel>, address: Ipv4)
    requires
        forall|k: int| 0 <= k < players.len() ==> #[trigger] players[k].address != address,
    ensures
        first_with_address(players, address) is None,
    decreases players.len(),
{
    if players.len() > 0 {
        assert forall|k: int| 0 <= k < players.drop_last().len() implies #[trigger] players.drop_last()[k].address
            != address by {
            assert(players.drop_last()[k] == players[k]);
        }
        lemma_first_with_address_none_rev(players.drop_last(), address);
        assert(players.last() == players[players.len() - 1]);
    }
}

} // verus!
