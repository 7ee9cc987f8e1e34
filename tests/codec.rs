use wg_manager::net::{Ipv4Addr, Ipv4Net, SocketAddrV4};
use wg_manager::wg_conf::{Interface, Peer, WireGuardConf};

fn block(a: u8, b: u8, c: u8, d: u8, len: u8) -> Ipv4Net {
    Ipv4Net { addr: Ipv4Addr::new(a, b, c, d), prefix_len: len }
}

fn peer(public_key: &str, allowed_ips: Ipv4Net) -> Peer {
    let mut p = Peer::new();
    p.public_key = public_key.to_string();
    p.allowed_ips = allowed_ips;
    p
}

fn sample() -> WireGuardConf {
    let mut conf = WireGuardConf::new();
    conf.interface.private_key = "SERVERPRIV=".to_string();
    conf.interface.address.port = 51821;
    conf.peers.push(peer("PKA=", block(10, 200, 100, 2, 32)));
    conf.peers.push(peer("PKB=", block(10, 200, 100, 3, 32)));
    conf
}

const SAMPLE_TEXT: &str = "[Interface]\nPrivateKey = SERVERPRIV=\nListenPort = 51821\n\n\
[Peer]\nPublicKey = PKA=\nAllowedIPs = 10.200.100.2/32\n\n\
[Peer]\nPublicKey = PKB=\nAllowedIPs = 10.200.100.3/32\n\n";

#[test]
fn encode_full_dump() {
    assert_eq!(sample().to_string(), SAMPLE_TEXT);
}

#[test]
fn encode_without_peers() {
    let conf = WireGuardConf::new();
    assert_eq!(conf.to_string(), "[Interface]\nPrivateKey = \nListenPort = 51820\n\n");
}

#[test]
fn peer_block_has_no_private_key() {
    let mut p = peer("PKA=", block(10, 200, 100, 7, 32));
    p.private_key = "SECRET".to_string();
    assert_eq!(p.to_string(), "[Peer]\nPublicKey = PKA=\nAllowedIPs = 10.200.100.7/32\n\n");
}

#[test]
fn client_config_text() {
    let mut conf = WireGuardConf::new();
    conf.interface.public_key = "SERVERPUB=".to_string();
    conf.interface.dns = Ipv4Addr::new(10, 200, 100, 1);
    conf.interface.address = SocketAddrV4::new(Ipv4Addr::new(192, 168, 1, 20), 51820);
    let mut p = peer("PKA=", block(10, 200, 100, 2, 32));
    p.private_key = "PEERPRIV=".to_string();
    let expected = "[Interface]\nDNS = 10.200.100.1\nAddress = 10.200.100.2/32\nPrivateKey = PEERPRIV=\n\n\
[Peer]\nPublicKey = SERVERPUB=\nAllowedIPs = 10.200.100.1/32\nEndpoint = 192.168.1.20:51820\n";
    assert_eq!(conf.peer_config(&p), expected);
}

#[test]
fn decode_kernel_dump() {
    let text = "[Interface]\nListenPort = 51820\nPrivateKey = SERVERPRIV=\n\n\
[Peer]\nPublicKey = PKA=\nAllowedIPs = 10.200.100.2/32\nEndpoint = 203.0.113.5:40000\n\n";
    let conf = WireGuardConf::from(text.to_string());
    assert_eq!(conf.interface.private_key, "SERVERPRIV=");
    assert_eq!(conf.interface.public_key, "");
    assert_eq!(conf.interface.address, SocketAddrV4::new(Ipv4Addr::new(0, 0, 0, 0), 51820));
    assert_eq!(conf.peers.len(), 1);
    assert_eq!(conf.peers[0].public_key, "PKA=");
    assert_eq!(conf.peers[0].allowed_ips, block(10, 200, 100, 2, 32));
    assert_eq!(
        conf.peers[0].endpoint,
        SocketAddrV4::new(Ipv4Addr::new(203, 0, 113, 5), 40000)
    );
    assert_eq!(conf.peers[0].name, "");
    assert_eq!(conf.peers[0].private_key, "");
}

#[test]
fn decode_address_line() {
    let text = "[Interface]\nAddress = 10.0.0.1:51999\n";
    let conf = WireGuardConf::from(text.to_string());
    assert_eq!(conf.interface.address, SocketAddrV4::new(Ipv4Addr::new(10, 0, 0, 1), 51999));
}

#[test]
fn decode_drops_malformed_and_unknown_lines() {
    let text = "garbage before any section\n[Interface]\nnot an attribute\nFwMark = 0x1\n\
ListenPort = notanumber\nListenPort = 70000\n\n\
[Peer]\nPresharedKey = abc\nAllowedIPs = 10.0.0.300/32\nAllowedIPs = 10.0.0.1/33\nEndpoint = nowhere\n";
    let conf = WireGuardConf::from(text.to_string());
    assert_eq!(conf.interface.address.port, 51820);
    assert_eq!(conf.interface.private_key, "");
    assert_eq!(conf.peers.len(), 1);
    assert_eq!(conf.peers[0], Peer::new());
}

#[test]
fn decode_value_is_everything_after_first_separator() {
    let text = "[Interface]\nPrivateKey = a = b\n";
    let conf = WireGuardConf::from(text.to_string());
    assert_eq!(conf.interface.private_key, "a = b");
}

#[test]
fn decode_blank_line_leaves_section() {
    let text = "[Peer]\nPublicKey = PKA=\n\nPublicKey = PKB=\n";
    let conf = WireGuardConf::from(text.to_string());
    assert_eq!(conf.peers.len(), 1);
    assert_eq!(conf.peers[0].public_key, "PKA=");
}

#[test]
fn decode_peer_header_starts_new_record() {
    let text = "[Peer]\n[Peer]\nPublicKey = PKB=\n";
    let conf = WireGuardConf::from(text.to_string());
    assert_eq!(conf.peers.len(), 2);
    assert_eq!(conf.peers[0].public_key, "");
    assert_eq!(conf.peers[1].public_key, "PKB=");
}

#[test]
fn decode_empty_text() {
    let conf = WireGuardConf::from(String::new());
    assert_eq!(conf, WireGuardConf::new());
    assert_eq!(conf, WireGuardConf::default());
}

#[test]
fn round_trip_keeps_wire_fields() {
    let mut written = sample();
    written.interface.public_key = "SERVERPUB=".to_string();
    written.interface.dns = Ipv4Addr::new(10, 200, 100, 1);
    written.peers[0].name = "office".to_string();
    written.peers[0].private_key = "PEERPRIV=".to_string();
    written.peers[1].endpoint = SocketAddrV4::new(Ipv4Addr::new(1, 2, 3, 4), 5);
    let decoded = WireGuardConf::from(written.to_string());
    assert_eq!(decoded.interface.private_key, written.interface.private_key);
    assert_eq!(decoded.interface.address.port, written.interface.address.port);
    assert_eq!(decoded.peers.len(), 2);
    for (d, o) in decoded.peers.iter().zip(written.peers.iter()) {
        assert_eq!(d.public_key, o.public_key);
        assert_eq!(d.allowed_ips, o.allowed_ips);
        assert_eq!(d.name, "");
        assert_eq!(d.private_key, "");
    }
    assert_eq!(decoded, sample());
}

#[test]
fn reencoding_is_stable() {
    let text = "junk\n[Interface]\nListenPort = 00051820\nPrivateKey = K\nDNS = 1.1.1.1\n\n\
[Peer]\nAllowedIPs = 010.200.100.02/32\nPublicKey = P\nEndpoint = 1.2.3.4:5\n";
    let once = WireGuardConf::from(text.to_string()).to_string();
    let twice = WireGuardConf::from(once.clone()).to_string();
    assert_eq!(once, twice);
    assert_eq!(
        once,
        "[Interface]\nPrivateKey = K\nListenPort = 51820\n\n[Peer]\nPublicKey = P\nAllowedIPs = 10.200.100.2/32\n\n"
    );
}

#[test]
fn interface_new_defaults() {
    let i = Interface::new();
    assert_eq!(i.address, SocketAddrV4::new(Ipv4Addr::new(0, 0, 0, 0), 51820));
    assert_eq!(i.dns, Ipv4Addr::new(0, 0, 0, 0));
    assert!(i.private_key.is_empty() && i.public_key.is_empty());
}

#[test]
fn peer_set_private_key_sets_pair() {
    let mut p = Peer::new();
    p.set_private_key("PRIV=".to_string(), "PUB=".to_string());
    assert_eq!(p.private_key, "PRIV=");
    assert_eq!(p.public_key, "PUB=");
}

#[test]
fn prefix_of_three_digits_is_not_read() {
    let conf = WireGuardConf::from("[Peer]\nAllowedIPs = 10.0.0.1/032\n".to_string());
    assert_eq!(conf.peers[0].allowed_ips, Peer::new().allowed_ips);
}
