use termdj::rekordbox::client::{
    announcement, initiate_discovery, linking_message, on_linking_sent, on_player_broadcast,
    should_notify,
};
use termdj::rekordbox::state::ClientState;
use termdj::rekordbox::event::Event;
use termdj::rekordbox::keepalive::{
    KeepAliveContentType, KeepAlivePacketType, KeepAliveStatusPackage,
};
use termdj::rekordbox::message::{
    ApplicationBroadcast, ApplicationLinkRequest, DiscoveryInitial, DiscoverySequence,
    InitiateRPCState,
};
use termdj::rekordbox::player::Player;
use termdj::rekordbox::rpc::{mount_export_rpc_callback, on_event};
use termdj::rekordbox::server::{handle_keepalive_status, player_status_of, ApplicationEvent, ServerState};
use termdj::rekordbox::status_event_server::process_packet;
use termdj::rekordbox::status_packet::{
    ModelName, RekordboxReply, StatusContentType, StatusPacket, StatusPacketType,
};
use termdj::rekordbox::keepalive::{DeviceType, KeepAlivePacket, KeepAlivePacketSubType, Status};
use termdj::rpc::packets::{MountMnt, RpcProcedure, RpcReplyMessage};
use termdj::utils::network::{Ipv4, Ipv4Network, MacAddr, PioneerNetwork};

fn network() -> PioneerNetwork {
    PioneerNetwork::new(
        Ipv4Network::new(Ipv4::new(192, 168, 10, 5), 24).unwrap(),
        MacAddr::new(0xac, 0x87, 0xa3, 0x35, 0xbc, 0x4d),
    )
}

#[test]
fn message_lengths() {
    let n = network();
    assert_eq!(ApplicationBroadcast::new(&n).into_message().len(), 54);
    assert_eq!(DiscoveryInitial::new(&n, 1).into_message().len(), 44);
    assert_eq!(DiscoverySequence::new(&n, 1, 1).into_message().len(), 50);
    assert_eq!(ApplicationLinkRequest::new().into_message().len(), 48);
    assert_eq!(InitiateRPCState::new().into_message().len(), 296);
}

#[test]
fn application_broadcast_carries_address() {
    let n = network();
    let m = ApplicationBroadcast::new(&n).into_message();
    assert_eq!(&m[..10], &[0x51, 0x73, 0x70, 0x74, 0x31, 0x57, 0x6d, 0x4a, 0x4f, 0x4c][..]);
    assert_eq!(&m[12..17], b"Linux");
    assert_eq!(&m[38..44], &[0xac, 0x87, 0xa3, 0x35, 0xbc, 0x4d][..]);
    assert_eq!(&m[44..48], &[192, 168, 10, 5][..]);
}

#[test]
fn discovery_sends_forty_messages() {
    let n = network();
    let mut state = ClientState::new();
    let messages = initiate_discovery(&mut state, &n);
    assert!(state.is_discovery());
    assert_eq!(messages.len(), 40);
    assert_eq!(messages[0], DiscoveryInitial::new(&n, 1).into_message());
    assert_eq!(messages[2], DiscoveryInitial::new(&n, 3).into_message());
    assert_eq!(messages[3], DiscoverySequence::new(&n, 1, 1).into_message());
    assert_eq!(messages[38], DiscoverySequence::new(&n, 6, 6).into_message());
    assert_eq!(messages[39], ApplicationBroadcast::new(&n).into_message());
}

#[test]
fn discovery_starts_once_on_the_second_broadcast() {
    let n = network();
    let mut state = ClientState::new();
    let p1 = Player::new("XDJ-700".to_string(), 1, Ipv4::new(192, 168, 10, 40));
    let p2 = Player::new("XDJ-700".to_string(), 2, Ipv4::new(192, 168, 10, 41));
    assert!(on_player_broadcast(&mut state, p1.clone(), Some(n)).is_none());
    assert!(!state.is_discovery());
    assert_eq!(state.players().len(), 1);
    let started = on_player_broadcast(&mut state, p2.clone(), Some(n));
    assert_eq!(started.map(|ms| ms.len()), Some(40));
    assert!(state.is_discovery());
    assert!(on_player_broadcast(&mut state, p2, Some(n)).is_none());
    assert_eq!(state.players().len(), 2);
    assert_eq!(announcement(&state), Some(ApplicationBroadcast::new(&n).into_message()));
}

#[test]
fn linking_marks_the_player() {
    let mut state = ClientState::new();
    assert_eq!(announcement(&state), None);
    let p = Player::new("XDJ-700".to_string(), 3, Ipv4::new(192, 168, 10, 40));
    on_linking_sent(&mut state, p);
    assert!(state.players().get(0).is_linking());
    assert_eq!(linking_message(), InitiateRPCState::new().into_message());
    assert!(!should_notify(&Event::ApplicationBroadcast));
    assert!(should_notify(&Event::Unknown));
}

fn player_status(model: &str, number: u8, ip: Ipv4) -> KeepAlivePacket {
    KeepAlivePacket {
        kind: KeepAlivePacketType::Status,
        subkind: KeepAlivePacketSubType::Status,
        model: ModelName::new(model.to_string()),
        unknown1: 1,
        device_type: DeviceType::Cdj,
        content: KeepAliveContentType::Status(Status {
            player_number: number,
            unknown2: 1,
            mac_addr: MacAddr::new(1, 2, 3, 4, 5, 6),
            ip_addr: ip,
            device_count: 1,
            unknown3: 4,
            unknown4: 1,
        }),
    }
}

#[test]
fn negotiation_needs_a_network() {
    let mut state = ServerState::new();
    assert_eq!(
        state.initiate_mac_ip_negotiation().err(),
        Some("No pioneer network has been discovered")
    );
    assert!(state.is_linking());
    assert!(state.status_broadcast().is_none());
}

#[test]
fn negotiation_sends_forty_packets() {
    let mut state = ServerState::new();
    state.set_address(network());
    let packets = state.initiate_mac_ip_negotiation().unwrap();
    assert_eq!(packets.len(), 40);
    assert_eq!(packets[0].kind, KeepAlivePacketType::Mac);
    assert_eq!(packets[3].kind, KeepAlivePacketType::Ip);
    assert_eq!(packets[39].kind, KeepAlivePacketType::Status);
    let status = state.status_broadcast().unwrap();
    assert_eq!(status, KeepAliveStatusPackage::new(network().ip(), network().mac_address(), 1, 0));
}

#[test]
fn player_status_starts_linking_once_a_player_is_known() {
    let mut state = ServerState::new();
    let packet = player_status("XDJ-700", 2, Ipv4::new(192, 168, 10, 40));
    let status = player_status_of(&packet).unwrap();
    let events = handle_keepalive_status(&packet, &status, &mut state, Some(network()));
    assert_eq!(events, vec![ApplicationEvent::DeviceChange, ApplicationEvent::InitiateLink]);
    assert_eq!(state.players().len(), 1);
    assert_eq!(state.address(), &Some(network()));

    let _ = state.initiate_mac_ip_negotiation();
    let events = handle_keepalive_status(&packet, &status, &mut state, Some(network()));
    assert_eq!(events, vec![]);

    let own = player_status("rekordbox", 17, Ipv4::new(192, 168, 10, 5));
    assert!(player_status_of(&own).is_none());
}

#[test]
fn hello_gets_a_reply() {
    let hello = StatusPacket {
        kind: StatusPacketType::RekordboxHello,
        model: ModelName("XDJ-700".to_string()),
        unknown1: 0,
        player_number: 1,
        content: StatusContentType::RekordboxHello,
    };
    let reply = process_packet(&hello).unwrap();
    assert_eq!(reply.kind, StatusPacketType::RekordboxReply);
    assert_eq!(
        reply.content,
        StatusContentType::RekordboxReply(RekordboxReply { name: "Term DJ".to_string() })
    );
    let other = StatusPacket {
        kind: StatusPacketType::RekordboxReply,
        model: ModelName("XDJ-700".to_string()),
        unknown1: 0,
        player_number: 1,
        content: StatusContentType::RekordboxReply(RekordboxReply { name: "x".to_string() }),
    };
    assert!(process_packet(&other).is_none());
}

#[test]
fn export_list_names_the_network() {
    let mut state = ServerState::new();
    assert_eq!(mount_export_rpc_callback(&state).err(), Some("Duno"));
    state.set_address(network());
    let reply = mount_export_rpc_callback(&state).unwrap();
    assert_eq!(reply.export_list_entries.len(), 1);
    assert_eq!(reply.export_list_entries[0].directory, "/");
    assert_eq!(reply.export_list_entries[0].groups, vec!["192.168.10.5/255.255.255.0".to_string()]);

    match on_event(&state, &RpcProcedure::MountMnt(MountMnt { paths: vec!["/".to_string()] })) {
        Some(Ok(RpcReplyMessage::MountMnt(r))) => {
            assert_eq!(r.status, 0);
            assert_eq!(r.fhandle.data, vec![0u8; 32]);
        }
        other => panic!("unexpected answer {:?}", other),
    }
    assert!(on_event(&state, &RpcProcedure::NfsNull).is_none());
}
