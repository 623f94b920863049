use warp_real_ip::list::parse_value;
use warp_real_ip::{
    forwarded_addresses, forwarded_from, get_forwarded_for, CommaSeparated, IpAddress, ListError,
};

fn number(text: &str) -> Result<u32, String> {
    text.parse::<u32>().map_err(|_| text.to_string())
}

#[test]
fn list_parses_every_element() {
    let list = CommaSeparated::from_str("1, \"2\" ,\t[3],\"[4]\" x", &number);
    assert_eq!(vec![1, 2, 3, 4], list.unwrap().into_inner());
}

#[test]
fn list_of_blank_value_is_empty() {
    let list = CommaSeparated::from_str("  ", &number);
    assert_eq!(Vec::<u32>::new(), list.unwrap().into_inner());
}

#[test]
fn list_fails_on_first_bad_element() {
    match CommaSeparated::from_str("1,x,y", &number) {
        Err(ListError::Invalid(text)) => assert_eq!("x", text),
        _ => panic!("the list must fail on its second element"),
    }
    match CommaSeparated::from_str("1,[2,3", &number) {
        Err(ListError::Invalid(text)) => assert_eq!("[2", text),
        _ => panic!("the list must fail on its second element"),
    }
}

#[test]
fn list_fails_on_empty_element() {
    assert!(matches!(CommaSeparated::from_str("1,,2", &number), Err(ListError::EmptyToken)));
    assert!(matches!(CommaSeparated::from_str(",1", &number), Err(ListError::EmptyToken)));
    assert!(matches!(CommaSeparated::from_str("1,\"\"", &number), Err(ListError::EmptyToken)));
    match CommaSeparated::from_str("x,,2", &number) {
        Err(ListError::Invalid(text)) => assert_eq!("x", text),
        _ => panic!("the first element fails before the empty one"),
    }
}

#[test]
fn single_value_is_not_trimmed() {
    assert_eq!(Some(7), parse_value("\"[7]\"", &number).ok());
    assert!(matches!(parse_value(" 7", &number), Err(ListError::Invalid(_))));
    assert!(matches!(parse_value("", &number), Err(ListError::EmptyToken)));
}

#[test]
fn forwarded_elements_without_address_are_left_out() {
    assert_eq!(vec![1, 3], forwarded_addresses(&vec![Some(1), None, Some(3), None]));
    assert_eq!(Vec::<u32>::new(), forwarded_addresses(&vec![None, None]));
    assert_eq!(Vec::<u32>::new(), forwarded_addresses::<u32>(&vec![]));
}

fn address(text: &str) -> Result<IpAddress, String> {
    text.parse::<u32>().map(IpAddress::V4).map_err(|_| text.to_string())
}

fn v4(n: u32) -> IpAddress {
    IpAddress::V4(n)
}

#[test]
fn address_list_header_comes_first() {
    let fwd = Some("for=9.9.9.9");
    assert_eq!(vec![v4(1), v4(2)], get_forwarded_for(Some("1, 2"), Some("5"), fwd, &address));
    assert_eq!(Vec::<IpAddress>::new(), get_forwarded_for(Some(""), Some("5"), fwd, &address));
}

#[test]
fn single_address_header_comes_second() {
    let fwd = Some("for=9.9.9.9");
    assert_eq!(vec![v4(5)], get_forwarded_for(None, Some("[5]"), fwd, &address));
    assert_eq!(vec![v4(5)], get_forwarded_for(Some("1,,2"), Some("5"), fwd, &address));
    assert_eq!(vec![v4(5)], get_forwarded_for(Some("1,x"), Some("5"), None, &address));
}

#[test]
fn forwarded_header_comes_last() {
    let fwd = Some("for=unknown, for=192.0.2.60;proto=http;by=203.0.113.43,for=192.168.10.10");
    let expected = vec![v4(0xc000_023c), v4(0xc0a8_0a0a)];
    assert_eq!(expected, get_forwarded_for(None, None, fwd, &address));
    assert_eq!(expected, get_forwarded_for(Some("x"), Some("y"), fwd, &address));
    assert_eq!(expected, get_forwarded_for(Some("x"), Some(""), fwd, &address));
}

#[test]
fn no_header_gives_no_address() {
    assert_eq!(Vec::<IpAddress>::new(), get_forwarded_for(None, None, None, &address));
    assert_eq!(Vec::<IpAddress>::new(), get_forwarded_for(Some("x"), Some("y"), None, &address));
}

#[test]
fn forwarded_header_names_addresses_of_both_families() {
    assert_eq!(
        vec![v4(0x0102_0304), IpAddress::V6(0x2001_0db8_cafe_0000_0000_0000_0000_0017)],
        forwarded_from("for=1.2.3.4:8080;host=foo, For=\"[2001:db8:cafe::17]:4711\"")
    );
}

#[test]
fn forwarded_header_leaves_out_what_names_no_address() {
    assert_eq!(
        vec![v4(0x0102_0304)],
        forwarded_from("by=9.9.9.9, for=_hidden, for=1.2.3.4, for=1.2.3, nothing, for=unknown")
    );
    assert_eq!(Vec::<IpAddress>::new(), forwarded_from(""));
}
