use termdj::rekordbox::event::{Event, EventParser};
use termdj::rekordbox::player::Player;
use termdj::rekordbox::{APPLICATION_NAME, SOFTWARE_IDENTIFICATION};
use termdj::utils::network::Ipv4;

const MOCKED_PLAYER_NAME: [u8; 20] = [
    0x58, 0x44, 0x4a, 0x2d, 0x37, 0x30, 0x30, 0x00, 0x00, 0x00, 0x00, 0x00, 0x00, 0x00, 0x00, 0x00,
    0x00, 0x00, 0x00, 0x00,
];

fn get_socket_metadata(size: usize) -> (usize, Ipv4) {
    (size, Ipv4::new(0xa9, 0xfe, 0x1e, 0xc4))
}

fn player_name() -> String {
    std::str::from_utf8(&MOCKED_PLAYER_NAME[..]).unwrap().trim_end_matches('\u{0}').to_string()
}

#[test]
fn it_should_identify_rekordbox_in_network() {
    assert_eq!(EventParser::is_rekordbox_event(&[0x00, 0x01]), false);
    assert_eq!(EventParser::is_rekordbox_event(&SOFTWARE_IDENTIFICATION), true);
}

#[test]
fn it_should_handle_unknown_packages() {
    let mut payload: Vec<u8> = Vec::with_capacity(13);
    payload.extend(&SOFTWARE_IDENTIFICATION.to_vec());
    payload.extend(vec![0x00, 0x00, 0x00]);
    assert_eq!(EventParser::get_type(&payload, get_socket_metadata(13)), Event::Unknown);
}

#[test]
fn it_should_handle_player_broadcasts() {
    let mut payload: Vec<u8> = Vec::with_capacity(54);
    payload.extend(&SOFTWARE_IDENTIFICATION.to_vec());
    payload.extend(vec![0x06, 0x00]);
    payload.extend(&MOCKED_PLAYER_NAME.to_vec());
    payload.extend(vec![0x01, 0x02, 0x00]);
    payload.extend(vec![
        0x36, 0x03, 0x01, 0xc8, 0x3d, 0xfc, 0x04, 0x1e, 0xc4, 0xa9, 0xfe, 0x1e, 0xc4, 0x02, 0x00,
        0x00, 0x00, 0x01, 0x00,
    ]);
    assert_eq!(payload.as_slice().len(), 54);
    let event = EventParser::get_type(&payload, get_socket_metadata(54));
    assert_eq!(
        event,
        Event::PlayerBroadcast(Player::new(player_name(), 0x03, Ipv4::new(0xa9, 0xfe, 0x1e, 0xc4)))
    );
    match event {
        Event::PlayerBroadcast(p) => {
            assert_eq!(p.model(), "XDJ-700");
            assert_eq!(p.number(), 0x03);
        }
        _ => panic!("not a player broadcast"),
    }
}

#[test]
fn it_should_handle_software_broadcasts() {
    let mut payload: Vec<u8> = Vec::with_capacity(54);
    payload.extend(&SOFTWARE_IDENTIFICATION.to_vec());
    payload.extend(vec![0x06, 0x00]);
    payload.extend(&APPLICATION_NAME.to_vec());
    payload.extend(vec![0x01, 0x03, 0x00]);
    payload.extend(vec![
        0x36, 0x03, 0x01, 0xc8, 0x3d, 0xfc, 0x04, 0x1e, 0xc4, 0xa9, 0xfe, 0x1e, 0xc4, 0x02, 0x00,
        0x00, 0x00, 0x01, 0x00,
    ]);
    assert_eq!(payload.as_slice().len(), 54);
    assert_eq!(EventParser::get_type(&payload, get_socket_metadata(54)), Event::ApplicationBroadcast);
}

#[test]
fn it_should_handle_player_linking_feedback() {
    let mut payload: Vec<u8> = Vec::with_capacity(36);
    payload.extend(&SOFTWARE_IDENTIFICATION.to_vec());
    payload.extend(vec![0x10]);
    payload.extend(&MOCKED_PLAYER_NAME.to_vec());
    payload.extend(vec![0x01, 0x00, 0x01, 0x00, 0x00]);
    assert_eq!(payload.as_slice().len(), 36);
    let event = EventParser::get_type(&payload, get_socket_metadata(36));
    assert_eq!(
        event,
        Event::PlayerLinkingWaiting(Player::new(player_name(), 0x01, Ipv4::new(0xa9, 0xfe, 0x1e, 0xc4)))
    );
    match event {
        Event::PlayerLinkingWaiting(p) => {
            assert_eq!(p.model(), "XDJ-700");
            assert_eq!(p.number(), 0x01);
            assert_eq!(p.address(), Ipv4::new(0xa9, 0xfe, 0x1e, 0xc4));
        }
        _ => panic!("not a linking request"),
    }
}

#[test]
fn parse_looks_at_the_received_bytes_only() {
    let mut payload = vec![0u8; 64];
    payload[..10].copy_from_slice(&SOFTWARE_IDENTIFICATION);
    payload[10] = 0x10;
    payload[11..31].copy_from_slice(&MOCKED_PLAYER_NAME);
    payload[33] = 0x02;
    assert_eq!(
        EventParser::parse(&payload, get_socket_metadata(36)),
        Event::PlayerLinkingWaiting(Player::new(player_name(), 0x02, Ipv4::new(0xa9, 0xfe, 0x1e, 0xc4)))
    );
    match EventParser::parse(&payload, get_socket_metadata(36)) {
        Event::PlayerLinkingWaiting(p) => assert_eq!(p.model(), "XDJ-700"),
        _ => panic!("not a linking request"),
    }
    assert_eq!(EventParser::parse(&payload, get_socket_metadata(40)), Event::Unknown);
}
