use warp_real_ip::{IpAddress, IpNetwork, IpNetworks};

fn v4(a: u8, b: u8, c: u8, d: u8) -> IpAddress {
    IpAddress::V4(u32::from_be_bytes([a, b, c, d]))
}

#[test]
fn network_of_24_bits_holds_its_256_addresses() {
    let net = IpNetwork::new(v4(127, 0, 0, 0), 24).unwrap();
    assert!(net.contains(v4(127, 0, 0, 70)));
    assert!(net.contains(v4(127, 0, 0, 0)));
    assert!(net.contains(v4(127, 0, 0, 255)));
    assert!(!net.contains(v4(127, 0, 1, 70)));
    assert!(!net.contains(v4(126, 255, 255, 255)));
}

#[test]
fn network_ignores_host_bits_of_its_own_address() {
    let net = IpNetwork::new(v4(10, 1, 2, 3), 8).unwrap();
    assert!(net.contains(v4(10, 200, 0, 1)));
    assert!(!net.contains(v4(11, 1, 2, 3)));
    assert_eq!(v4(10, 1, 2, 3), net.ip());
    assert_eq!(8, net.prefix());
}

#[test]
fn network_of_no_bits_holds_every_address_of_its_family() {
    let net = IpNetwork::new(v4(1, 2, 3, 4), 0).unwrap();
    assert!(net.contains(v4(0, 0, 0, 0)));
    assert!(net.contains(v4(255, 255, 255, 255)));
    assert!(!net.contains(IpAddress::V6(1)));
    let net6 = IpNetwork::new(IpAddress::V6(0), 0).unwrap();
    assert!(net6.contains(IpAddress::V6(u128::MAX)));
    assert!(!net6.contains(v4(0, 0, 0, 0)));
}

#[test]
fn host_network_holds_one_address() {
    let net = IpNetwork::host(v4(192, 168, 0, 1));
    assert_eq!(32, net.prefix());
    assert!(net.contains(v4(192, 168, 0, 1)));
    assert!(!net.contains(v4(192, 168, 0, 0)));
    assert!(!net.contains(v4(192, 168, 0, 3)));
    let net6 = IpNetwork::host(IpAddress::V6(1));
    assert_eq!(128, net6.prefix());
    assert!(net6.contains(IpAddress::V6(1)));
    assert!(!net6.contains(IpAddress::V6(3)));
    assert!(!net6.contains(IpAddress::V4(1)));
}

#[test]
fn v6_network_compares_the_prefix() {
    let base: u128 = 0xff01u128 << 112;
    let net = IpNetwork::new(IpAddress::V6(base), 32).unwrap();
    assert!(net.contains(IpAddress::V6(base | 1)));
    assert!(net.contains(IpAddress::V6(base | (0xffffu128 << 80))));
    assert!(!net.contains(IpAddress::V6((0xffffu128 << 112) | 1)));
    assert!(!net.contains(IpAddress::V6(base | (1u128 << 96))));
    let odd = IpNetwork::new(IpAddress::V6(base), 13).unwrap();
    assert!(odd.contains(IpAddress::V6((0xff07u128 << 112) | 5)));
    assert!(!odd.contains(IpAddress::V6(0xff09u128 << 112)));
}

#[test]
fn prefix_beyond_the_width_is_refused() {
    assert!(IpNetwork::new(v4(1, 2, 3, 4), 32).is_some());
    assert!(IpNetwork::new(v4(1, 2, 3, 4), 33).is_none());
    assert!(IpNetwork::new(IpAddress::V6(7), 128).is_some());
    assert!(IpNetwork::new(IpAddress::V6(7), 129).is_none());
}

#[test]
fn set_of_addresses_trusts_exactly_them() {
    let set = IpNetworks::from_ipaddr_iter(&[v4(127, 10, 0, 1), IpAddress::V6(1)]);
    assert!(set.contains(&v4(127, 10, 0, 1)));
    assert!(set.contains(&IpAddress::V6(1)));
    assert!(!set.contains(&v4(127, 10, 0, 2)));
    assert!(!set.contains(&IpAddress::V6(2)));
}

#[test]
fn set_from_vec_of_addresses() {
    let set = IpNetworks::from(vec![v4(10, 0, 0, 1)]);
    assert!(set.contains(&v4(10, 0, 0, 1)));
    assert!(!set.contains(&v4(10, 0, 0, 2)));
    let addrs = vec![v4(10, 0, 0, 3)];
    let by_ref = IpNetworks::from(&addrs);
    assert!(by_ref.contains(&v4(10, 0, 0, 3)));
    assert!(!by_ref.contains(&v4(10, 0, 0, 1)));
}

#[test]
fn set_of_networks_is_a_union() {
    let set = IpNetworks::from_networks(vec![
        IpNetwork::new(v4(10, 0, 0, 0), 8).unwrap(),
        IpNetwork::new(v4(192, 168, 0, 0), 16).unwrap(),
    ]);
    assert!(set.contains(&v4(10, 9, 8, 7)));
    assert!(set.contains(&v4(192, 168, 200, 1)));
    assert!(!set.contains(&v4(192, 169, 0, 1)));
    assert!(!IpNetworks::from_networks(vec![]).contains(&v4(10, 0, 0, 1)));
}
