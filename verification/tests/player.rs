use termdj::rekordbox::player::{Player, PlayerCollection};
use termdj::utils::network::Ipv4;

fn player(linking: bool, number: u8, address: Ipv4) -> Player {
    let mut p = Player::new(String::from("XDJ-700"), number, address);
    p.set_linking(linking);
    p
}

#[test]
fn it_support_pushing() {
    let mut players = PlayerCollection::new();
    players.push(player(false, 0x01, Ipv4::new(0x01, 0x00, 0x00, 0x01)));

    assert_eq!(players.len(), 1);
}

#[test]
fn it_can_update_matching_players() {
    let mut players = PlayerCollection::new();
    players.push(player(false, 0x01, Ipv4::new(0x01, 0x00, 0x00, 0x01)));
    assert_eq!(players.get(0).number(), 0x01);

    players.add_or_update(player(false, 0x02, Ipv4::new(0x01, 0x00, 0x00, 0x01)));
    assert_eq!(players.len(), 1);
    assert_eq!(players.get(0).number(), 0x02);

    players.add_or_update(player(true, 0x02, Ipv4::new(0x01, 0x00, 0x00, 0x01)));
    assert_eq!(players.len(), 1);
    assert_eq!(players.get(0).is_linking(), true);

    players.add_or_update(player(false, 0x03, Ipv4::new(0x01, 0x00, 0x00, 0x05)));
    assert_eq!(players.len(), 2);
    assert_eq!(players.get(0).number(), 0x02);
    assert_eq!(players.get(1).number(), 0x03);
}

#[test]
fn players_are_found_by_address() {
    let mut players = PlayerCollection::new();
    players.push(player(false, 1, Ipv4::new(169, 254, 17, 30)));
    players.push(player(false, 2, Ipv4::new(169, 254, 17, 31)));
    assert_eq!(players.position(&Ipv4::new(169, 254, 17, 31)), Some(1));
    assert_eq!(players.position(&Ipv4::new(169, 254, 17, 32)), None);
    let mut it = players.iter();
    assert_eq!(it.len(), 2);
    // The last player found comes out first.
    assert_eq!(it.next().map(|p| p.number()), Some(2));
    assert_eq!(it.next().map(|p| p.number()), Some(1));
    assert!(it.next().is_none());
}
