use wg_manager::net::{parse_ipv4, parse_socket, Ipv4Addr, Ipv4Net, SocketAddrV4};
use wg_manager::text::{parse_number, push_decimal, same_text, split_str};

#[test]
fn block_text() {
    let n = Ipv4Net::new(Ipv4Addr::new(10, 200, 100, 2), 32).unwrap();
    assert_eq!(n.to_string(), "10.200.100.2/32");
    let n = Ipv4Net::new(Ipv4Addr::new(0, 0, 0, 0), 0).unwrap();
    assert_eq!(n.to_string(), "0.0.0.0/0");
}

#[test]
fn block_prefix_too_long() {
    assert_eq!(Ipv4Net::new(Ipv4Addr::new(1, 2, 3, 4), 33), None);
}

#[test]
fn address_parsing() {
    assert_eq!(parse_ipv4("192.168.0.1"), Some(Ipv4Addr::new(192, 168, 0, 1)));
    assert_eq!(parse_ipv4("255.255.255.255"), Some(Ipv4Addr::new(255, 255, 255, 255)));
    assert_eq!(parse_ipv4("256.1.1.1"), None);
    assert_eq!(parse_ipv4("1.2.3"), None);
    assert_eq!(parse_ipv4("1.2.3.4.5"), None);
    assert_eq!(parse_ipv4("1.2..4"), None);
    assert_eq!(parse_ipv4("0001.2.3.4"), None);
    assert_eq!(parse_ipv4(""), None);
}

#[test]
fn socket_parsing() {
    assert_eq!(
        parse_socket("203.0.113.5:51820"),
        Some(SocketAddrV4::new(Ipv4Addr::new(203, 0, 113, 5), 51820))
    );
    assert_eq!(parse_socket("203.0.113.5:65536"), None);
    assert_eq!(parse_socket("203.0.113.5"), None);
    assert_eq!(parse_socket("203.0.113.5:"), None);
    assert_eq!(parse_socket("a:b:c"), None);
}

#[test]
fn decimal_text() {
    let mut s = String::from("x");
    push_decimal(&mut s, 0);
    push_decimal(&mut s, 1234567);
    assert_eq!(s, "x01234567");
}

#[test]
fn number_parsing() {
    assert_eq!(parse_number("65535", 65535), Some(65535));
    assert_eq!(parse_number("65536", 65535), None);
    assert_eq!(parse_number("", 10), None);
    assert_eq!(parse_number("1x", 10), None);
    assert_eq!(parse_number("007", 10), Some(7));
}

#[test]
fn splitting_and_comparing() {
    assert_eq!(split_str("a\n\nb\n", '\n'), vec!["a", "", "b", ""]);
    assert_eq!(split_str("", '\n'), vec![""]);
    assert!(same_text("abc", "abc"));
    assert!(!same_text("abc", "abd"));
    assert!(!same_text("abc", "ab"));
}
