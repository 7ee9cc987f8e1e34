use wg_manager::allocator::next_allocation;
use wg_manager::engine::{current_wg_config, EngineError, PeerMetadataRecord};
use wg_manager::net::{Ipv4Addr, Ipv4Net, SocketAddrV4};
use wg_manager::wg_conf::{Peer, WireGuardConf};

fn block(d: u8) -> Ipv4Net {
    Ipv4Net { addr: Ipv4Addr::new(10, 200, 100, d), prefix_len: 32 }
}

fn peer_at(public_key: &str, d: u8) -> Peer {
    let mut p = Peer::new();
    p.public_key = public_key.to_string();
    p.allowed_ips = block(d);
    p
}

fn record(private_key: &str, public_key: &str, name: &str) -> PeerMetadataRecord {
    PeerMetadataRecord {
        private_key: private_key.to_string(),
        public_key: public_key.to_string(),
        name: name.to_string(),
    }
}

#[test]
fn first_allocation() {
    assert_eq!(next_allocation(&vec![]), Some(block(2)));
}

#[test]
fn allocation_follows_last_peer() {
    let peers = vec![peer_at("A", 9), peer_at("B", 5)];
    assert_eq!(next_allocation(&peers), Some(block(6)));
}

#[test]
fn allocation_does_not_carry_past_255() {
    let peers = vec![peer_at("A", 2), peer_at("B", 255)];
    assert_eq!(next_allocation(&peers), None);
}

#[test]
fn new_peer_on_exhausted_pool() {
    let mut conf = WireGuardConf::new();
    conf.peers.push(peer_at("B", 255));
    let before = conf.clone();
    let r = conf.new_peer("PRIV".to_string(), "PUB".to_string(), Ipv4Addr::new(1, 1, 1, 1));
    assert_eq!(r, Err(EngineError::AddressPoolExhausted));
    assert_eq!(conf, before);
}

#[test]
fn new_peer_without_keys() {
    let mut conf = WireGuardConf::new();
    let r = conf.new_peer(String::new(), "PUB".to_string(), Ipv4Addr::new(1, 1, 1, 1));
    assert_eq!(r, Err(EngineError::MissingKey));
    let r = conf.new_peer("PRIV".to_string(), String::new(), Ipv4Addr::new(1, 1, 1, 1));
    assert_eq!(r, Err(EngineError::MissingKey));
    assert!(conf.peers.is_empty());
}

#[test]
fn metadata_overlay_by_public_key() {
    let kernel = WireGuardConf::from(
        "[Interface]\nPrivateKey = SPRIV\nListenPort = 51820\n\n[Peer]\nPublicKey = PK1\nAllowedIPs = 10.200.100.2/32\n\n[Peer]\nPublicKey = PK2\nAllowedIPs = 10.200.100.3/32\n\n"
            .to_string(),
    );
    let records = vec![record("X", "OTHER", "nobody"), record("PRIV1", "PK1", "office"), record("Y", "PK1", "later")];
    let snap = current_wg_config(
        kernel,
        "SPUB".to_string(),
        &records,
        Ipv4Addr::new(10, 200, 100, 1),
        Ipv4Addr::new(192, 168, 1, 20),
    );
    assert_eq!(snap.peers.len(), 2);
    assert_eq!(snap.peers[0].name, "office");
    assert_eq!(snap.peers[0].private_key, "PRIV1");
    assert_eq!(snap.peers[1].name, "");
    assert_eq!(snap.peers[1].private_key, "");
    assert_eq!(snap.interface.public_key, "SPUB");
    assert_eq!(snap.interface.dns, Ipv4Addr::new(10, 200, 100, 1));
    assert_eq!(snap.interface.address, SocketAddrV4::new(Ipv4Addr::new(192, 168, 1, 20), 51820));
}

#[test]
fn snapshot_redacts_interface_key_and_client_config_keeps_peer_key() {
    let kernel = WireGuardConf::from(
        "[Interface]\nPrivateKey = SERVERSECRET\n\n[Peer]\nPublicKey = PK1\nAllowedIPs = 10.200.100.2/32\n".to_string(),
    );
    let records = vec![record("PEERSECRET", "PK1", "phone")];
    let snap = current_wg_config(
        kernel,
        "SPUB".to_string(),
        &records,
        Ipv4Addr::new(10, 200, 100, 1),
        Ipv4Addr::new(192, 168, 1, 20),
    );
    assert_eq!(snap.interface.private_key, "(hidden)");
    let file = snap.peer_config(&snap.peers[0]);
    assert!(file.contains("PrivateKey = PEERSECRET\n"));
    assert!(!file.contains("SERVERSECRET"));
}

#[test]
fn new_peer_on_empty_interface() {
    let kernel = WireGuardConf::from("[Interface]\nPrivateKey = S\nListenPort = 51820\n\n".to_string());
    let mut snap = current_wg_config(
        kernel,
        "SPUB".to_string(),
        &vec![],
        Ipv4Addr::new(10, 200, 100, 1),
        Ipv4Addr::new(192, 168, 1, 20),
    );
    let added = snap
        .new_peer("PEERPRIV=".to_string(), "PEERPUB=".to_string(), Ipv4Addr::new(192, 168, 1, 20))
        .unwrap();
    assert_eq!(snap.peers.len(), 1);
    let p = &snap.peers[0];
    assert_eq!(p.allowed_ips.to_string(), "10.200.100.2/32");
    assert_eq!(p.public_key, "PEERPUB=");
    assert_eq!(p.private_key, "PEERPRIV=");
    assert_eq!(p.name, "Peer 1");
    assert_eq!(p.endpoint, SocketAddrV4::new(Ipv4Addr::new(192, 168, 1, 20), 51820));
    assert_eq!(added.entry.key, "10.200.100.2/32");
    assert_eq!(added.entry.record, record("PEERPRIV=", "PEERPUB=", "Peer 1"));
    assert_eq!(added.peer_block, "[Peer]\nPublicKey = PEERPUB=\nAllowedIPs = 10.200.100.2/32\n\n");
    assert!(!added.peer_block.contains("PEERPRIV="));
}

#[test]
fn second_new_peer_is_numbered_and_allocated_after_the_first() {
    let mut conf = WireGuardConf::new();
    conf.new_peer("A".to_string(), "B".to_string(), Ipv4Addr::new(1, 2, 3, 4)).unwrap();
    let added = conf.new_peer("C".to_string(), "D".to_string(), Ipv4Addr::new(1, 2, 3, 4)).unwrap();
    assert_eq!(conf.peers[1].name, "Peer 2");
    assert_eq!(added.entry.key, "10.200.100.3/32");
}

#[test]
fn remove_peer_by_index() {
    let mut conf = WireGuardConf::new();
    conf.peers.push(peer_at("A", 2));
    conf.peers.push(peer_at("B", 3));
    let removed = conf.remove_peer(0).unwrap();
    assert_eq!(removed.public_key, "A");
    assert_eq!(removed.allowed_ips.to_string(), "10.200.100.2/32");
    assert_eq!(conf.peers.len(), 1);
    assert_eq!(conf.peers[0].public_key, "B");
}

#[test]
fn remove_peer_out_of_range() {
    let mut conf = WireGuardConf::new();
    conf.peers.push(peer_at("A", 2));
    assert_eq!(conf.remove_peer(1), Err(EngineError::IndexOutOfRange));
    assert_eq!(conf.peers.len(), 1);
}

#[test]
fn rename_peer_rewrites_record() {
    let mut conf = WireGuardConf::new();
    let mut p = peer_at("A", 4);
    p.private_key = "PA".to_string();
    conf.peers.push(p);
    let entry = conf.rename_peer(0, "laptop".to_string()).unwrap();
    assert_eq!(conf.peers[0].name, "laptop");
    assert_eq!(entry.key, "10.200.100.4/32");
    assert_eq!(entry.record, record("PA", "A", "laptop"));
    assert_eq!(conf.rename_peer(3, "x".to_string()), Err(EngineError::IndexOutOfRange));
}

#[test]
fn engine_error_variants_are_distinct() {
    let all = [
        EngineError::AddressPoolExhausted,
        EngineError::MissingKey,
        EngineError::IndexOutOfRange,
        EngineError::TooManyPeers,
    ];
    for (i, a) in all.iter().enumerate() {
        for (j, b) in all.iter().enumerate() {
            assert_eq!(i == j, a == b);
        }
    }
}
