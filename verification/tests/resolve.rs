use warp_real_ip::{real_ip, IpAddress, IpNetwork, IpNetworks};

fn v4(a: u8, b: u8, c: u8, d: u8) -> IpAddress {
    IpAddress::V4(u32::from_be_bytes([a, b, c, d]))
}

fn proxies() -> IpNetworks {
    IpNetworks::from_networks(vec![
        IpNetwork::new(v4(10, 0, 0, 0), 8).unwrap(),
        IpNetwork::host(v4(127, 0, 0, 1)),
    ])
}

#[test]
fn nothing_trusted_gives_the_peer() {
    let none = IpNetworks::from_networks(vec![]);
    let peer = v4(1, 2, 3, 4);
    assert_eq!(Some(peer), real_ip(&none, Some(peer), &vec![]));
    assert_eq!(Some(peer), real_ip(&none, Some(peer), &vec![v4(9, 9, 9, 9), v4(10, 0, 0, 1)]));
}

#[test]
fn untrusted_peer_is_the_client() {
    let peer = v4(8, 8, 8, 8);
    assert_eq!(Some(peer), real_ip(&proxies(), Some(peer), &vec![v4(10, 0, 0, 1)]));
}

#[test]
fn all_hops_trusted_gives_first_claimed() {
    let peer = v4(127, 0, 0, 1);
    let claimed = vec![v4(10, 1, 1, 1)];
    assert_eq!(Some(v4(10, 1, 1, 1)), real_ip(&proxies(), Some(peer), &claimed));
    let longer = vec![v4(10, 3, 3, 3), v4(10, 2, 2, 2), v4(10, 1, 1, 1)];
    assert_eq!(Some(v4(10, 3, 3, 3)), real_ip(&proxies(), Some(peer), &longer));
}

#[test]
fn untrusted_hop_next_to_trusted_peer_is_the_client() {
    let peer = v4(127, 0, 0, 1);
    let claimed = vec![v4(10, 1, 1, 1), v4(203, 0, 113, 7)];
    assert_eq!(Some(v4(203, 0, 113, 7)), real_ip(&proxies(), Some(peer), &claimed));
    let spoofed = vec![v4(6, 6, 6, 6), v4(203, 0, 113, 7)];
    assert_eq!(Some(v4(203, 0, 113, 7)), real_ip(&proxies(), Some(peer), &spoofed));
}

#[test]
fn walk_stops_at_the_hop_nearest_to_the_server() {
    let peer = v4(127, 0, 0, 1);
    let claimed = vec![v4(5, 5, 5, 5), v4(10, 0, 0, 9), v4(7, 7, 7, 7), v4(10, 0, 0, 2)];
    assert_eq!(Some(v4(7, 7, 7, 7)), real_ip(&proxies(), Some(peer), &claimed));
}

#[test]
fn trusted_peer_alone_is_the_client() {
    let peer = v4(127, 0, 0, 1);
    assert_eq!(Some(peer), real_ip(&proxies(), Some(peer), &vec![]));
}

#[test]
fn no_peer_gives_nothing() {
    assert_eq!(None, real_ip(&proxies(), None, &vec![]));
    assert_eq!(None, real_ip(&proxies(), None, &vec![v4(1, 1, 1, 1), v4(10, 0, 0, 1)]));
    assert_eq!(None, real_ip(&IpNetworks::from_networks(vec![]), None, &vec![v4(1, 1, 1, 1)]));
}
