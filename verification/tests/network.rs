use termdj::utils::network::{find_interface, Ipv4, Ipv4Network, MacAddr, NetworkInterface};

fn iface(name: &str, last: u8, ips: Vec<(Ipv4, u8)>) -> NetworkInterface {
    NetworkInterface {
        name: name.to_string(),
        mac: Some(MacAddr::new(0x00, 0x45, 0xcb, 0x9a, 0xa5, last)),
        ips: ips.into_iter().map(|(a, p)| Ipv4Network::new(a, p).unwrap()).collect(),
    }
}

fn interfaces() -> Vec<NetworkInterface> {
    vec![
        iface("eno1", 0x0b, vec![(Ipv4::new(0xc0, 0xa8, 0x0a, 0x32), 24)]),
        iface("eno1:1", 0x0c, vec![(Ipv4::new(0xc0, 0xa8, 0x0b, 0x32), 24)]),
        iface("eno1:2", 0x0c, vec![(Ipv4::new(0xc0, 0xa8, 0x0c, 0x32), 25)]),
        iface("eno1:3", 0x0c, vec![(Ipv4::new(0xc0, 0xa8, 0x0c, 0xc8), 25)]),
        iface("en4", 0x10, vec![(Ipv4::new(0xa9, 0xfe, 0x13, 0xe6), 16)]),
    ]
}

#[test]
fn it_finds_local_address_based_on_remote_address() {
    let remote_address = Ipv4::new(192, 168, 10, 52);
    let local_network_address = Ipv4::new(192, 168, 10, 50);
    let network = find_interface(interfaces(), remote_address);

    assert_eq!(network.is_none(), false);
    assert_eq!(network.unwrap().ip(), local_network_address);
}

#[test]
fn it_find_network_in_a_smaller_cidr() {
    let remote_address = Ipv4::new(192, 168, 12, 230);
    let local_network_address = Ipv4::new(192, 168, 12, 200);
    let network = find_interface(interfaces(), remote_address);

    assert_eq!(network.is_none(), false);
    assert_eq!(network.unwrap().ip(), local_network_address);

    let remote_address = Ipv4::new(192, 168, 12, 24);
    let local_network_address = Ipv4::new(192, 168, 12, 50);
    let network = find_interface(interfaces(), remote_address);

    assert_eq!(network.is_none(), false);
    assert_eq!(network.unwrap().ip(), local_network_address);
}

#[test]
fn no_network_holds_a_stranger() {
    assert!(find_interface(interfaces(), Ipv4::new(10, 0, 0, 1)).is_none());
}

#[test]
fn network_arithmetic() {
    let n = Ipv4Network::new(Ipv4::new(192, 168, 10, 50), 24).unwrap();
    assert_eq!(n.prefix(), 24);
    assert_eq!(n.mask(), Ipv4::new(255, 255, 255, 0));
    assert_eq!(n.broadcast(), Ipv4::new(192, 168, 10, 255));
    assert!(n.contains(Ipv4::new(192, 168, 10, 1)));
    assert!(!n.contains(Ipv4::new(192, 168, 11, 1)));
    assert!(Ipv4Network::new(Ipv4::new(1, 2, 3, 4), 33).is_err());
    let all = Ipv4Network::new(Ipv4::new(1, 2, 3, 4), 0).unwrap();
    assert!(all.contains(Ipv4::new(9, 9, 9, 9)));
    assert_eq!(Ipv4::new(192, 168, 10, 5).to_string(), "192.168.10.5");
    assert_eq!(Ipv4::from_u32(0xc0a80a05), Ipv4::new(192, 168, 10, 5));
    assert_eq!(Ipv4::new(192, 168, 10, 5).to_u32(), 0xc0a80a05);
}
