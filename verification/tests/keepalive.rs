use bytes::Bytes;
use termdj::rekordbox::keepalive::{
    DeviceType, Ip, KeepAliveContentType, KeepAliveIpPackage, KeepAliveMacPackage,
    KeepAlivePacket, KeepAlivePacketSubType, KeepAlivePacketType, KeepAliveStatusPackage, Mac,
    PlayerNumberAssignment, Status,
};
use termdj::rekordbox::status_packet::ModelName;
use termdj::utils::network::{Ipv4, Ipv4Network, MacAddr, PioneerNetwork};

fn get_pioneer_network() -> PioneerNetwork {
    let addr = Ipv4::new(192, 168, 10, 50);
    let network = Ipv4Network::new(addr, 24).unwrap();
    PioneerNetwork::new(network, MacAddr::new(0xff, 0xff, 0xff, 0xff, 0xff, 0xff))
}

#[test]
fn test_mac_iteration() {
    let discovery_sequence_1 = Bytes::from(vec![
        0x51, 0x73, 0x70, 0x74, 0x31, 0x57, 0x6d, 0x4a, 0x4f, 0x4c, 0x00, 0x00, 0x72, 0x65, 0x6b,
        0x6f, 0x72, 0x64, 0x62, 0x6f, 0x78, 0x00, 0x00, 0x00, 0x00, 0x00, 0x00, 0x00, 0x00, 0x00,
        0x00, 0x00, 0x01, 0x03, 0x00, 0x2c, 0x01, 0x04, 0xac, 0x87, 0xa3, 0x35, 0xbc, 0x4d,
    ]);

    assert_eq!(
        discovery_sequence_1,
        KeepAlivePacket {
            kind: KeepAlivePacketType::Mac,
            subkind: KeepAlivePacketSubType::Mac,
            model: ModelName::new("rekordbox".to_string()),
            unknown1: 1,
            device_type: DeviceType::Rekordbox,
            content: KeepAliveContentType::Mac(Mac {
                iteration: 1,
                unknown2: 4,
                mac_addr: MacAddr::from_octets([0xac, 0x87, 0xa3, 0x35, 0xbc, 0x4d]),
            },),
        }
        .encode()
    );
}

#[test]
fn test_keepalive_status_packet() {
    assert_eq!(
        KeepAlivePacket {
            kind: KeepAlivePacketType::Status,
            subkind: KeepAlivePacketSubType::Status,
            model: ModelName::new("Linux".to_string(),),
            unknown1: 1,
            device_type: DeviceType::Rekordbox,
            content: KeepAliveContentType::Status(Status {
                player_number: 17,
                unknown2: 1,
                ip_addr: Ipv4::new(192, 168, 10, 50),
                mac_addr: MacAddr::from_octets([0xff, 0xff, 0xff, 0xff, 0xff, 0xff]),
                device_count: 1,
                unknown3: 4,
                unknown4: 1,
            },),
        }
        .encode()
        .len(),
        54
    );
}

#[test]
fn test_decode_keepalive_ip_package() {
    let payload: [u8; 50] = [
        81, 115, 112, 116, 49, 87, 109, 74, 79, 76, 2, 0, 114, 101, 107, 111, 114, 100, 98, 111,
        120, 0, 0, 0, 0, 0, 0, 0, 0, 0, 0, 0, 1, 3, 0, 50, 192, 168, 10, 47, 156, 182, 208, 238,
        255, 9, 44, 6, 4, 1,
    ];

    assert_eq!(
        KeepAlivePacket {
            kind: KeepAlivePacketType::Ip,
            subkind: KeepAlivePacketSubType::Ip,
            model: ModelName::new("rekordbox".to_string(),),
            unknown1: 1,
            device_type: DeviceType::Rekordbox,
            content: KeepAliveContentType::Ip(Ip {
                ip_addr: Ipv4::new(192, 168, 10, 47),
                mac_addr: MacAddr::from_octets([0x9c, 0xb6, 0xd0, 0xee, 0xff, 0x09]),
                iteration: 44,
                index: 6,
                player_number_assignment: PlayerNumberAssignment::Auto,
            },),
        },
        KeepAlivePacket::decode(&payload).unwrap().1,
    );
}

#[test]
fn announcements_decode_to_what_was_encoded() {
    let network = get_pioneer_network();
    let packets = vec![
        KeepAliveMacPackage::new(2, network.mac_address()),
        KeepAliveStatusPackage::new(network.ip(), network.mac_address(), 4, 1),
    ];
    for packet in packets {
        let wire = packet.encode();
        let decoded = KeepAlivePacket::decode(&wire[..]).unwrap();
        assert!(decoded.0.is_empty());
        let again = KeepAlivePacket::try_from(wire.clone()).unwrap();
        assert_eq!(again, decoded.1);
        assert_eq!(again.encode(), wire);
    }
}

#[test]
fn ip_announcement_layout() {
    let network = get_pioneer_network();
    let wire = KeepAliveIpPackage::new(3, 4, network.ip(), network.mac_address()).encode();
    assert_eq!(wire.len(), 50);
    assert_eq!(&wire[36..40], &[192, 168, 10, 50][..]);
    assert_eq!(&wire[40..46], &[0xff; 6][..]);
    // The position byte, the round, a constant 4 and the automatic assignment.
    assert_eq!(&wire[46..50], &[0x2a, 0x03, 0x04, 0x01][..]);
}

#[test]
fn ip_announcement_sequence_bytes() {
    let network = get_pioneer_network();
    let expected = [0x11, 0x12, 0x29, 0x2a, 0x2b, 0x2c];
    for (i, b) in expected.iter().enumerate() {
        let ip = Ip {
            ip_addr: network.ip(),
            mac_addr: network.mac_address(),
            iteration: 1,
            index: (i + 1) as u8,
            player_number_assignment: PlayerNumberAssignment::Auto,
        };
        assert_eq!(ip.map_sequence_byte(), *b);
    }
}

#[test]
fn packets_read_back_as_written() {
    let network = get_pioneer_network();
    let mac = KeepAliveMacPackage::new(2, network.mac_address());
    let wire = KeepAliveMacPackage::new(2, network.mac_address()).encode();
    assert_eq!(KeepAlivePacket::decode(&wire[..]).unwrap().1, mac);

    // A status packet is written with 8 as its last byte.
    let status = KeepAliveStatusPackage::new(network.ip(), network.mac_address(), 4, 8);
    let wire = KeepAliveStatusPackage::new(network.ip(), network.mac_address(), 4, 8).encode();
    assert_eq!(KeepAlivePacket::decode(&wire[..]).unwrap().1, status);

    // An IP packet reads back when its round and index are both 44.
    let ip = KeepAliveIpPackage::new(44, 44, network.ip(), network.mac_address());
    let wire = KeepAliveIpPackage::new(44, 44, network.ip(), network.mac_address()).encode();
    assert_eq!(KeepAlivePacket::decode(&wire[..]).unwrap().1, ip);
}
