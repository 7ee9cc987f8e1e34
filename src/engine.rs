//! Reconciliation of kernel state with stored peer metadata, and the
//! changes that adding, removing and renaming a peer make to both.
use vstd::prelude::*;

use crate::allocator::{next_allocation, next_allocation_spec};
use crate::net::{cidr_text, Ipv4Addr, Ipv4Net, SocketAddrV4};
use crate::text::{dec_text, lines_text, push_decimal};
use crate::wg_conf::{
    peer_lines, peer_views, ConfView, Interface, InterfaceView, Peer, PeerView, WireGuardConf,
};

verus! {

/// What the store keeps of a peer, under the text of its address block.
#[derive(Clone, Debug, PartialEq, Eq)]
pub struct PeerMetadataRecord {
    pub private_key: String,
    pub public_key: String,
    pub name: String,
}

pub struct RecordView {
    pub private_key: Seq<char>,
    pub public_key: Seq<char>,
    pub name: Seq<char>,
}

impl View for PeerMetadataRecord {
    type V = RecordView;

    open spec fn view(&self) -> RecordView {
        RecordView {
            private_key: self.private_key@,
            public_key: self.public_key@,
            name: self.name@,
        }
    }
}

pub open spec fn record_views(v: Seq<PeerMetadataRecord>) -> Seq<RecordView> {
    v.map_values(|r: PeerMetadataRecord| r@)
}

/// A record to store and the key to store it under.
#[derive(Clone, Debug, PartialEq, Eq)]
pub struct MetadataEntry {
    pub key: String,
    pub record: PeerMetadataRecord,
}

/// What adding a peer asks of the outside: a record to store and a peer
/// block to hand to the kernel.
#[derive(Clone, Debug, PartialEq, Eq)]
pub struct PeerAddition {
    pub entry: MetadataEntry,
    pub peer_block: String,
}

#[derive(Clone, Copy, Debug, PartialEq, Eq, Structural)]
pub enum EngineError {
    /// The last peer's address ends in 255: no next block.
    AddressPoolExhausted,
    /// A key of the new peer's pair is empty.
    MissingKey,
    /// The index names no peer of the snapshot.
    IndexOutOfRange,
    /// The new peer's number does not fit in 64 bits.
    TooManyPeers,
}

/// What callers outside the engine see in place of the interface's private key.
pub open spec fn redacted() -> Seq<char> {
    "(hidden)"@
}

/// The first record with this public key, if any.
pub open spec fn record_for(records: Seq<RecordView>, public_key: Seq<char>) -> Option<RecordView>
    decreases records.len(),
{
    if records.len() == 0 {
        None
    } else if records[0].public_key == public_key {
        Some(records[0])
    } else {
        record_for(records.drop_first(), public_key)
    }
}

/// A kernel-reported peer with its name and private key from its record.
pub open spec fn overlay_peer(p: PeerView, records: Seq<RecordView>) -> PeerView {
    match record_for(records, p.public_key) {
        Some(r) => PeerView { private_key: r.private_key, name: r.name, ..p },
        None => p,
    }
}

/// The snapshot shown to callers: the kernel's configuration with the
/// stored names and private keys, the interface's public key, the tunnel
/// address as DNS, the discovered address as the interface's address, and
/// the interface's private key redacted.
pub open spec fn reconciled(
    kernel: ConfView,
    interface_public_key: Seq<char>,
    records: Seq<RecordView>,
    tunnel_ip: Ipv4Addr,
    discovered_ip: Ipv4Addr,
) -> ConfView {
    ConfView {
        interface: InterfaceView {
            address: SocketAddrV4 { ip: discovered_ip, port: kernel.interface.address.port },
            private_key: redacted(),
            public_key: interface_public_key,
            dns: tunnel_ip,
        },
        peers: kernel.peers.map_values(|p: PeerView| overlay_peer(p, records)),
    }
}

/// The name of the peer added after `count` others.
pub open spec fn peer_name(count: nat) -> Seq<char> {
    "Peer "@ + dec_text(count + 1)
}

/// The peer that `new_peer` appends.
pub open spec fn added_peer(
    c: ConfView,
    allowed_ips: Ipv4Net,
    private_key: Seq<char>,
    public_key: Seq<char>,
    discovered_ip: Ipv4Addr,
) -> PeerView {
    PeerView {
        public_key,
        private_key,
        endpoint: SocketAddrV4 { ip: discovered_ip, port: c.interface.address.port },
        allowed_ips,
        name: peer_name(c.peers.len()),
    }
}

pub open spec fn record_of(p: PeerView) -> RecordView {
    RecordView { private_key: p.private_key, public_key: p.public_key, name: p.name }
}

/// The first record whose public key is `public_key`.
fn find_record(records: &Vec<PeerMetadataRecord>, public_key: &String) -> (r: Option<usize>)
    ensures
        match r {
            Some(j) => j < records.len() && record_for(record_views(records@), public_key@) == Some(
                records@[j as int]@,
            ),
            None => record_for(record_views(records@), public_key@) is None,
        },
{
    let ghost all = record_views(records@);
    let mut j: usize = 0;
    assert(all.skip(0) =~= all);
    while j < records.len()
        invariant
            all == record_views(records@),
            j <= records.len(),
            record_for(all, public_key@) == record_for(all.skip(j as int), public_key@),
        decreases records.len() - j,
    {
        assert(all.skip(j as int)[0] == records@[j as int]@);
        if records[j].public_key == *public_key {
            return Some(j);
        }
        assert(all.skip(j as int).drop_first() =~= all.skip(j as int + 1));
        j = j + 1;
    }
    None
}

/// Builds the snapshot that callers see from the configuration the kernel
/// reported, the public key derived from its interface's private key, and the
/// stored records.
pub fn current_wg_config(
    kernel: WireGuardConf,
    interface_public_key: String,
    records: &Vec<PeerMetadataRecord>,
    tunnel_ip: Ipv4Addr,
    discovered_ip: Ipv4Addr,
) -> (r: WireGuardConf)
    ensures
        r@ == reconciled(
            kernel@,
            interface_public_key@,
            record_views(records@),
            tunnel_ip,
            discovered_ip,
        ),
        r@.interface.private_key == redacted(),
{
    let ghost rs = record_views(records@);
    let n = kernel.peers.len();
    let mut peers: Vec<Peer> = Vec::new();
    let mut i: usize = 0;
    while i < n
        invariant
            n == kernel.peers.len(),
            rs == record_views(records@),
            i <= n,
            peer_views(peers@) == peer_views(kernel.peers@).take(i as int).map_values(
                |p: PeerView| overlay_peer(p, rs),
            ),
        decreases n - i,
    {
        let p = &kernel.peers[i];
        assert(peer_views(kernel.peers@)[i as int] == p@);
        let q = match find_record(records, &p.public_key) {
            Some(j) => Peer {
                public_key: p.public_key.clone(),
                private_key: records[j].private_key.clone(),
                endpoint: p.endpoint,
                allowed_ips: p.allowed_ips,
                name: records[j].name.clone(),
            },
            None => Peer {
                public_key: p.public_key.clone(),
                private_key: p.private_key.clone(),
                endpoint: p.endpoint,
                allowed_ips: p.allowed_ips,
                name: p.name.clone(),
            },
        };
        let ghost before = peers@;
        peers.push(q);
        assert(peer_views(peers@) =~= peer_views(before).push(q@));
        assert(peer_views(kernel.peers@).take(i as int + 1) =~= peer_views(kernel.peers@).take(
            i as int,
        ).push(p@));
        assert(peer_views(peers@) =~= peer_views(kernel.peers@).take(i as int + 1).map_values(
            |p: PeerView| overlay_peer(p, rs),
        ));
        i = i + 1;
    }
    assert(peer_views(kernel.peers@).take(n as int) =~= peer_views(kernel.peers@));
    let port = kernel.interface.address.port;
    let interface = Interface {
        address: SocketAddrV4 { ip: discovered_ip, port },
        private_key: String::from_str("(hidden)"),
        public_key: interface_public_key,
        dns: tunnel_ip,
    };
    WireGuardConf { interface, peers }
}

impl WireGuardConf {
    /// Adds a peer with the next address block and the given key pair (the
    /// public key derived from the private one). The peer is named after the
    /// count of peers before it, reached at `discovered_ip` on the interface's
    /// port, and appended. Returns the metadata record to store under the
    /// block's text and the block to hand to the kernel.
    pub fn new_peer(
        &mut self,
        private_key: String,
        public_key: String,
        discovered_ip: Ipv4Addr,
    ) -> (r: Result<PeerAddition, EngineError>)
        requires
            old(self)@.valid(),
        ensures
            final(self)@.valid(),
            next_allocation_spec(old(self)@.peers) is Some && private_key@.len() > 0
                && public_key@.len() > 0 && old(self)@.peers.len() >= u64::MAX ==> r == Err::<
                PeerAddition,
                EngineError,
            >(EngineError::TooManyPeers) && final(self)@ == old(self)@,
            next_allocation_spec(old(self)@.peers) is None ==> r == Err::<
                PeerAddition,
                EngineError,
            >(EngineError::AddressPoolExhausted) && final(self)@ == old(self)@,
            next_allocation_spec(old(self)@.peers) is Some && (private_key@.len() == 0
                || public_key@.len() == 0) ==> r == Err::<PeerAddition, EngineError>(
                EngineError::MissingKey,
            ) && final(self)@ == old(self)@,
            next_allocation_spec(old(self)@.peers) is Some && private_key@.len() > 0
                && public_key@.len() > 0 && old(self)@.peers.len() < u64::MAX ==> ({
                let n = next_allocation_spec(old(self)@.peers)->Some_0;
                let p = added_peer(old(self)@, n, private_key@, public_key@, discovered_ip);
                &&& r is Ok
                &&& final(self)@ == (ConfView {
                    interface: old(self)@.interface,
                    peers: old(self)@.peers.push(p),
                })
                &&& r->Ok_0.entry.key@ == cidr_text(n)
                &&& r->Ok_0.entry.record@ == record_of(p)
                &&& r->Ok_0.peer_block@ == lines_text(peer_lines(p))
            }),
    {
        let allowed_ips = match next_allocation(&self.peers) {
            Some(n) => n,
            None => {
                return Err(EngineError::AddressPoolExhausted);
            },
        };
        if private_key.unicode_len() == 0 || public_key.unicode_len() == 0 {
            return Err(EngineError::MissingKey);
        }
        let count = self.peers.len() as u64;
        if count == u64::MAX {
            return Err(EngineError::TooManyPeers);
        }
        let mut name = String::from_str("Peer ");
        push_decimal(&mut name, count + 1);
        let mut peer = Peer::new();
        peer.allowed_ips = allowed_ips;
        peer.set_private_key(private_key, public_key);
        peer.name = name;
        peer.endpoint = SocketAddrV4 { ip: discovered_ip, port: self.interface.address.port };
        let key = allowed_ips.to_string();
        let record = PeerMetadataRecord {
            private_key: peer.private_key.clone(),
            public_key: peer.public_key.clone(),
            name: peer.name.clone(),
        };
        let peer_block = peer.to_string();
        let ghost before = self.peers@;
        self.peers.push(peer);
        assert(peer_views(self.peers@) =~= peer_views(before).push(peer@));
        Ok(PeerAddition { entry: MetadataEntry { key, record }, peer_block })
    }

    /// Removes the peer at `index` and returns it: the caller removes its
    /// public key from the kernel and its record from the store.
    pub fn remove_peer(&mut self, index: usize) -> (r: Result<Peer, EngineError>)
        ensures
            index < old(self)@.peers.len() ==> r is Ok && r->Ok_0@ == old(self)@.peers[index as int]
                && final(self)@ == (ConfView {
                interface: old(self)@.interface,
                peers: old(self)@.peers.remove(index as int),
            }),
            index >= old(self)@.peers.len() ==> r == Err::<Peer, EngineError>(
                EngineError::IndexOutOfRange,
            ) && final(self)@ == old(self)@,
    {
        if index >= self.peers.len() {
            return Err(EngineError::IndexOutOfRange);
        }
        let ghost before = self.peers@;
        let p = self.peers.remove(index);
        assert(peer_views(self.peers@) =~= peer_views(before).remove(index as int));
        Ok(p)
    }

    /// Renames the peer at `index` and returns the record to store again
    /// under its block's text. The kernel keeps no names.
    pub fn rename_peer(&mut self, index: usize, name: String) -> (r: Result<
        MetadataEntry,
        EngineError,
    >)
        requires
            old(self)@.valid(),
        ensures
            final(self)@.valid(),
            index < old(self)@.peers.len() ==> ({
                let p = (PeerView { name: name@, ..old(self)@.peers[index as int] });
                &&& r is Ok
                &&& final(self)@ == (ConfView {
                    interface: old(self)@.interface,
                    peers: old(self)@.peers.update(index as int, p),
                })
                &&& r->Ok_0.key@ == cidr_text(p.allowed_ips)
                &&& r->Ok_0.record@ == record_of(p)
            }),
            index >= old(self)@.peers.len() ==> r == Err::<MetadataEntry, EngineError>(
                EngineError::IndexOutOfRange,
            ) && final(self)@ == old(self)@,
    {
        if index >= self.peers.len() {
            return Err(EngineError::IndexOutOfRange);
        }
        let old_peer = &self.peers[index];
        assert(self@.peers[index as int] == old_peer@);
        assert(old_peer.allowed_ips.valid());
        let peer = Peer {
            public_key: old_peer.public_key.clone(),
            private_key: old_peer.private_key.clone(),
            endpoint: old_peer.endpoint,
            allowed_ips: old_peer.allowed_ips,
            name,
        };
        let key = peer.allowed_ips.to_string();
        let record = PeerMetadataRecord {
            private_key: peer.private_key.clone(),
            public_key: peer.public_key.clone(),
            name: peer.name.clone(),
        };
        let ghost before = self.peers@;
        self.peers.set(index, peer);
        assert(peer_views(self.peers@) =~= peer_views(before).update(index as int, peer@));
        Ok(MetadataEntry { key, record })
    }
}

} // verus!
