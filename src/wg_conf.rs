//! The tunnel configuration: the local interface, its peers, and the
//! line-oriented text format that the kernel tool reads and writes.
use vstd::prelude::*;

use crate::net::{
    cidr_text, parse_ipv4_net_spec, ipv4_text, parse_ipv4_net, parse_socket, parse_socket_spec,
    push_ipv4, push_socket, socket_text, Ipv4Addr, Ipv4Net, SocketAddrV4,
};
use crate::text::{
    attr_line, bounded_number, dec_text, find_sep, lines_text, parse_number, push_decimal, same_text,
    split_attr, split_on, split_str, views, lemma_lines_text_concat, lemma_lines_text_push,
};

verus! {

/// The local tunnel endpoint.
#[derive(Clone, Debug, PartialEq, Eq)]
pub struct Interface {
    pub address: SocketAddrV4,
    pub private_key: String,
    pub public_key: String,
    pub dns: Ipv4Addr,
}

/// A remote endpoint allowed to use the tunnel.
#[derive(Clone, Debug, PartialEq, Eq)]
pub struct Peer {
    pub public_key: String,
    pub private_key: String,
    pub endpoint: SocketAddrV4,
    pub allowed_ips: Ipv4Net,
    pub name: String,
}

/// An interface and its peers, in the order the kernel reports them.
#[derive(Clone, Debug, PartialEq, Eq)]
pub struct WireGuardConf {
    pub interface: Interface,
    pub peers: Vec<Peer>,
}

pub struct InterfaceView {
    pub address: SocketAddrV4,
    pub private_key: Seq<char>,
    pub public_key: Seq<char>,
    pub dns: Ipv4Addr,
}

pub struct PeerView {
    pub public_key: Seq<char>,
    pub private_key: Seq<char>,
    pub endpoint: SocketAddrV4,
    pub allowed_ips: Ipv4Net,
    pub name: Seq<char>,
}

pub struct ConfView {
    pub interface: InterfaceView,
    pub peers: Seq<PeerView>,
}

impl View for Interface {
    type V = InterfaceView;

    open spec fn view(&self) -> InterfaceView {
        InterfaceView {
            address: self.address,
            private_key: self.private_key@,
            public_key: self.public_key@,
            dns: self.dns,
        }
    }
}

impl View for Peer {
    type V = PeerView;

    open spec fn view(&self) -> PeerView {
        PeerView {
            public_key: self.public_key@,
            private_key: self.private_key@,
            endpoint: self.endpoint,
            allowed_ips: self.allowed_ips,
            name: self.name@,
        }
    }
}

pub open spec fn peer_views(v: Seq<Peer>) -> Seq<PeerView> {
    v.map_values(|p: Peer| p@)
}

impl View for WireGuardConf {
    type V = ConfView;

    open spec fn view(&self) -> ConfView {
        ConfView { interface: self.interface@, peers: peer_views(self.peers@) }
    }
}

pub open spec fn unspecified_ip() -> Ipv4Addr {
    Ipv4Addr { a: 0, b: 0, c: 0, d: 0 }
}

/// An interface before anything is known of it: port 51820, no keys.
pub open spec fn default_interface() -> InterfaceView {
    InterfaceView {
        address: SocketAddrV4 { ip: unspecified_ip(), port: 51820 },
        private_key: Seq::empty(),
        public_key: Seq::empty(),
        dns: unspecified_ip(),
    }
}

/// A peer before anything is known of it.
pub open spec fn default_peer() -> PeerView {
    PeerView {
        public_key: Seq::empty(),
        private_key: Seq::empty(),
        endpoint: SocketAddrV4 { ip: unspecified_ip(), port: 8080 },
        allowed_ips: Ipv4Net { addr: unspecified_ip(), prefix_len: 16 },
        name: Seq::empty(),
    }
}

pub open spec fn empty_conf() -> ConfView {
    ConfView { interface: default_interface(), peers: Seq::empty() }
}

impl ConfView {
    /// Every peer's address block has a prefix length of at most 32.
    pub open spec fn valid(self) -> bool {
        forall|i: int| 0 <= i < self.peers.len() ==> (#[trigger] self.peers[i]).allowed_ips.valid()
    }
}

// ---- encoding ----

/// The block that describes one peer to the kernel: its public key and
/// address block, never its private key.
pub open spec fn peer_lines(p: PeerView) -> Seq<Seq<char>> {
    seq![
        "[Peer]"@,
        attr_line("PublicKey"@, p.public_key),
        attr_line("AllowedIPs"@, cidr_text(p.allowed_ips)),
        Seq::empty(),
    ]
}

pub open spec fn peers_lines(ps: Seq<PeerView>) -> Seq<Seq<char>>
    decreases ps.len(),
{
    if ps.len() == 0 {
        Seq::empty()
    } else {
        peers_lines(ps.drop_last()) + peer_lines(ps.last())
    }
}

pub open spec fn interface_lines(i: InterfaceView) -> Seq<Seq<char>> {
    seq![
        "[Interface]"@,
        attr_line("PrivateKey"@, i.private_key),
        attr_line("ListenPort"@, dec_text(i.address.port as nat)),
        Seq::empty(),
    ]
}

/// The full interface dump: the interface block, then one block per peer.
pub open spec fn encode(c: ConfView) -> Seq<char> {
    lines_text(interface_lines(c.interface) + peers_lines(c.peers))
}

/// The file a peer downloads: its own side of the tunnel, then the server as its peer.
pub open spec fn client_config(c: ConfView, p: PeerView) -> Seq<char> {
    lines_text(
        seq![
            "[Interface]"@,
            attr_line("DNS"@, ipv4_text(c.interface.dns)),
            attr_line("Address"@, cidr_text(p.allowed_ips)),
            attr_line("PrivateKey"@, p.private_key),
            Seq::empty(),
            "[Peer]"@,
            attr_line("PublicKey"@, c.interface.public_key),
            attr_line("AllowedIPs"@, ipv4_text(c.interface.dns) + "/32"@),
            attr_line("Endpoint"@, socket_text(c.interface.address)),
        ],
    )
}

// ---- decoding ----

/// The section that the decoder is in.
#[derive(Clone, Copy, Debug, PartialEq, Eq, Structural)]
pub enum Block {
    Interface,
    Peer,
    Outside,
}

pub open spec fn apply_interface_attr(i: InterfaceView, line: Seq<char>) -> InterfaceView {
    match split_attr(line) {
        Some((key, value)) => if key == "ListenPort"@ {
            match bounded_number(value, 65535) {
                Some(port) => InterfaceView {
                    address: SocketAddrV4 { ip: i.address.ip, port: port as u16 },
                    private_key: i.private_key,
                    public_key: i.public_key,
                    dns: i.dns,
                },
                None => i,
            }
        } else if key == "PrivateKey"@ {
            InterfaceView {
                address: i.address,
                private_key: value,
                public_key: i.public_key,
                dns: i.dns,
            }
        } else if key == "Address"@ {
            match parse_socket_spec(value) {
                Some(a) => InterfaceView {
                    address: a,
                    private_key: i.private_key,
                    public_key: i.public_key,
                    dns: i.dns,
                },
                None => i,
            }
        } else {
            i
        },
        None => i,
    }
}

pub open spec fn apply_peer_attr(p: PeerView, line: Seq<char>) -> PeerView {
    match split_attr(line) {
        Some((key, value)) => if key == "PublicKey"@ {
            PeerView {
                public_key: value,
                private_key: p.private_key,
                endpoint: p.endpoint,
                allowed_ips: p.allowed_ips,
                name: p.name,
            }
        } else if key == "AllowedIPs"@ {
            match parse_ipv4_net_spec(value) {
                Some(n) => PeerView {
                    public_key: p.public_key,
                    private_key: p.private_key,
                    endpoint: p.endpoint,
                    allowed_ips: n,
                    name: p.name,
                },
                None => p,
            }
        } else if key == "Endpoint"@ {
            match parse_socket_spec(value) {
                Some(e) => PeerView {
                    public_key: p.public_key,
                    private_key: p.private_key,
                    endpoint: e,
                    allowed_ips: p.allowed_ips,
                    name: p.name,
                },
                None => p,
            }
        } else {
            p
        },
        None => p,
    }
}

/// One line of the decoder: section headers switch section (`[Peer]` starts a
/// new peer), a blank line leaves the section, other lines are attributes of
/// the section they stand in.
pub open spec fn decode_step(st: (Block, ConfView), line: Seq<char>) -> (Block, ConfView) {
    let (block, c) = st;
    if line == "[Interface]"@ {
        (Block::Interface, c)
    } else if line == "[Peer]"@ {
        (Block::Peer, ConfView { interface: c.interface, peers: c.peers.push(default_peer()) })
    } else if line.len() == 0 {
        (Block::Outside, c)
    } else {
        match block {
            Block::Interface => (
                block,
                ConfView { interface: apply_interface_attr(c.interface, line), peers: c.peers },
            ),
            Block::Peer => if c.peers.len() > 0 {
                (
                    block,
                    ConfView {
                        interface: c.interface,
                        peers: c.peers.update(
                            c.peers.len() - 1,
                            apply_peer_attr(c.peers.last(), line),
                        ),
                    },
                )
            } else {
                st
            },
            Block::Outside => st,
        }
    }
}

pub open spec fn decode_lines(st: (Block, ConfView), lines: Seq<Seq<char>>) -> (Block, ConfView)
    decreases lines.len(),
{
    if lines.len() == 0 {
        st
    } else {
        decode_lines(decode_step(st, lines[0]), lines.drop_first())
    }
}

/// The configuration that a text describes.
pub open spec fn decode(s: Seq<char>) -> ConfView {
    decode_lines((Block::Outside, empty_conf()), split_on(s, '\n')).1
}

// ---- executable ----

/// Appends a line and its newline.
fn push_line(out: &mut String, line: &str, Ghost(lines): Ghost<Seq<Seq<char>>>)
    requires
        old(out)@ == lines_text(lines),
    ensures
        final(out)@ == lines_text(lines.push(line@)),
{
    proof {
        lemma_lines_text_push(lines, line@);
        reveal_strlit("\n");
    }
    out.append(line);
    out.append("\n");
}

/// The text `key = value`.
fn attr_string(key: &str, value: &str) -> (r: String)
    ensures
        r@ == attr_line(key@, value@),
{
    let mut r = String::from_str(key);
    r.append(" = ");
    r.append(value);
    r
}

impl Interface {
    pub fn new() -> (r: Interface)
        ensures
            r@ == default_interface(),
    {
        Interface {
            address: SocketAddrV4 { ip: Ipv4Addr { a: 0, b: 0, c: 0, d: 0 }, port: 51820 },
            private_key: String::new(),
            public_key: String::new(),
            dns: Ipv4Addr { a: 0, b: 0, c: 0, d: 0 },
        }
    }
}

impl Peer {
    pub fn new() -> (r: Peer)
        ensures
            r@ == default_peer(),
    {
        Peer {
            public_key: String::new(),
            private_key: String::new(),
            endpoint: SocketAddrV4 { ip: Ipv4Addr { a: 0, b: 0, c: 0, d: 0 }, port: 8080 },
            allowed_ips: Ipv4Net { addr: Ipv4Addr { a: 0, b: 0, c: 0, d: 0 }, prefix_len: 16 },
            name: String::new(),
        }
    }

    /// Sets the peer's key pair; `public_key` is the one derived from `private_key`.
    pub fn set_private_key(&mut self, private_key: String, public_key: String)
        ensures
            final(self)@ == (PeerView {
                private_key: private_key@,
                public_key: public_key@,
                ..old(self)@
            }),
    {
        self.private_key = private_key;
        self.public_key = public_key;
    }

    /// The block that adds this peer to the kernel interface.
    pub fn to_string(&self) -> (r: String)
        requires
            self.allowed_ips.valid(),
        ensures
            r@ == lines_text(peer_lines(self@)),
    {
        let ghost l = Seq::<Seq<char>>::empty();
        let mut out = String::new();
        push_line(&mut out, "[Peer]", Ghost(l));
        let ghost l = l.push("[Peer]"@);
        let line = attr_string("PublicKey", self.public_key.as_str());
        push_line(&mut out, line.as_str(), Ghost(l));
        let ghost l = l.push(line@);
        let ips = self.allowed_ips.to_string();
        let line = attr_string("AllowedIPs", ips.as_str());
        push_line(&mut out, line.as_str(), Ghost(l));
        let ghost l = l.push(line@);
        push_line(&mut out, "", Ghost(l));
        proof {
            reveal_strlit("");
            assert(""@ =~= Seq::<char>::empty());
            assert(l.push(""@) =~= peer_lines(self@));
        }
        out
    }
}

impl WireGuardConf {
    pub fn new() -> (r: WireGuardConf)
        ensures
            r@ == empty_conf(),
            r.peers@.len() == 0,
    {
        let r = WireGuardConf { interface: Interface::new(), peers: Vec::new() };
        assert(r@.peers =~= Seq::<PeerView>::empty());
        r
    }

    /// The full interface dump.
    pub fn to_string(&self) -> (r: String)
        requires
            self@.valid(),
        ensures
            r@ == encode(self@),
    {
        let ghost l = Seq::<Seq<char>>::empty();
        let mut out = String::new();
        push_line(&mut out, "[Interface]", Ghost(l));
        let ghost l = l.push("[Interface]"@);
        let line = attr_string("PrivateKey", self.interface.private_key.as_str());
        push_line(&mut out, line.as_str(), Ghost(l));
        let ghost l = l.push(line@);
        let mut port = String::new();
        push_decimal(&mut port, self.interface.address.port as u64);
        let line = attr_string("ListenPort", port.as_str());
        push_line(&mut out, line.as_str(), Ghost(l));
        let ghost l = l.push(line@);
        push_line(&mut out, "", Ghost(l));
        proof {
            reveal_strlit("");
            assert(""@ =~= Seq::<char>::empty());
            assert(l.push(""@) =~= interface_lines(self.interface@));
        }
        let ghost head = interface_lines(self.interface@);
        let ghost ps = self@.peers;
        let mut i: usize = 0;
        assert(ps.take(0) =~= Seq::<PeerView>::empty());
        assert(head + peers_lines(ps.take(0)) =~= head);
        while i < self.peers.len()
            invariant
                i <= self.peers.len(),
                ps == self@.peers,
                head == interface_lines(self.interface@),
                self@.valid(),
                out@ == lines_text(head + peers_lines(ps.take(i as int))),
            decreases self.peers.len() - i,
        {
            let p = &self.peers[i];
            assert(ps[i as int] == p@);
            let block = p.to_string();
            let ghost before = out@;
            out.append(block.as_str());
            proof {
                let done = head + peers_lines(ps.take(i as int));
                lemma_lines_text_concat(done, peer_lines(p@));
                assert(ps.take(i as int + 1).drop_last() =~= ps.take(i as int));
                assert(head + peers_lines(ps.take(i as int + 1)) =~= done + peer_lines(p@));
            }
            i = i + 1;
        }
        assert(ps.take(i as int) =~= ps);
        out
    }

    /// The configuration file that `peer` downloads to connect to this interface.
    pub fn peer_config(&self, peer: &Peer) -> (r: String)
        requires
            peer.allowed_ips.valid(),
        ensures
            r@ == client_config(self@, peer@),
    {
        let ghost l = Seq::<Seq<char>>::empty();
        let mut out = String::new();
        push_line(&mut out, "[Interface]", Ghost(l));
        let ghost l = l.push("[Interface]"@);
        let mut dns = String::new();
        push_ipv4(&mut dns, self.interface.dns);
        let line = attr_string("DNS", dns.as_str());
        push_line(&mut out, line.as_str(), Ghost(l));
        let ghost l = l.push(line@);
        let ips = peer.allowed_ips.to_string();
        let line = attr_string("Address", ips.as_str());
        push_line(&mut out, line.as_str(), Ghost(l));
        let ghost l = l.push(line@);
        let line = attr_string("PrivateKey", peer.private_key.as_str());
        push_line(&mut out, line.as_str(), Ghost(l));
        let ghost l = l.push(line@);
        push_line(&mut out, "", Ghost(l));
        let ghost l = l.push(""@);
        push_line(&mut out, "[Peer]", Ghost(l));
        let ghost l = l.push("[Peer]"@);
        let line = attr_string("PublicKey", self.interface.public_key.as_str());
        push_line(&mut out, line.as_str(), Ghost(l));
        let ghost l = l.push(line@);
        let mut route = dns.clone();
        route.append("/32");
        let line = attr_string("AllowedIPs", route.as_str());
        push_line(&mut out, line.as_str(), Ghost(l));
        let ghost l = l.push(line@);
        let mut endpoint = String::new();
        push_socket(&mut endpoint, self.interface.address);
        let line = attr_string("Endpoint", endpoint.as_str());
        push_line(&mut out, line.as_str(), Ghost(l));
        proof {
            reveal_strlit("");
            assert(""@ =~= Seq::<char>::empty());
            assert(l.push(line@) =~= seq![
                "[Interface]"@,
                attr_line("DNS"@, ipv4_text(self.interface.dns)),
                attr_line("Address"@, cidr_text(peer.allowed_ips)),
                attr_line("PrivateKey"@, peer.private_key@),
                Seq::empty(),
                "[Peer]"@,
                attr_line("PublicKey"@, self.interface.public_key@),
                attr_line("AllowedIPs"@, ipv4_text(self.interface.dns) + "/32"@),
                attr_line("Endpoint"@, socket_text(self.interface.address)),
            ]);
        }
        out
    }

    /// Reads a configuration text. Lines that are not `key = value`, keys
    /// that are not known and values that do not parse are passed over.
    pub fn from(config: String) -> (r: WireGuardConf)
        ensures
            r@ == decode(config@),
            r@.valid(),
    {
        let lines = split_str(config.as_str(), '\n');
        let ghost all = split_on(config@, '\n');
        let mut block = Block::Outside;
        let mut interface = Interface::new();
        let mut peers: Vec<Peer> = Vec::new();
        let mut i: usize = 0;
        assert(all.skip(0) =~= all);
        assert(peer_views(peers@) =~= Seq::<PeerView>::empty());
        while i < lines.len()
            invariant
                views(lines@) == all,
                all == split_on(config@, '\n'),
                i <= lines.len(),
                decode_lines((Block::Outside, empty_conf()), all) == decode_lines(
                    (block, ConfView { interface: interface@, peers: peer_views(peers@) }),
                    all.skip(i as int),
                ),
                forall|k: int|
                    0 <= k < peers@.len() ==> (#[trigger] peers@[k]).allowed_ips.valid(),
                block == Block::Peer ==> peers@.len() > 0,
            decreases lines.len() - i,
        {
            let line = lines[i].as_str();
            let ghost st = (block, ConfView { interface: interface@, peers: peer_views(peers@) });
            proof {
                assert(views(lines@)[i as int] == line@);
                assert(all.skip(i as int)[0] == line@);
                assert(all.skip(i as int).drop_first() =~= all.skip(i as int + 1));
            }
            if same_text(line, "[Interface]") {
                block = Block::Interface;
            } else if same_text(line, "[Peer]") {
                block = Block::Peer;
                peers.push(Peer::new());
                assert(peer_views(peers@) =~= st.1.peers.push(default_peer()));
            } else if line.unicode_len() == 0 {
                block = Block::Outside;
            } else {
                match block {
                    Block::Interface => {
                        parse_interface_attribute(line, &mut interface);
                    },
                    Block::Peer => {
                        let ghost before = peers@;
                        match peers.pop() {
                            Some(mut last) => {
                                assert(last@ == st.1.peers.last());
                                parse_peer_attribute(line, &mut last);
                                peers.push(last);
                                assert(peer_views(peers@) =~= st.1.peers.update(
                                    st.1.peers.len() - 1,
                                    apply_peer_attr(st.1.peers.last(), line@),
                                ));
                                assert forall|k: int| 0 <= k < peers@.len() implies (
                                #[trigger] peers@[k]).allowed_ips.valid() by {
                                    if k < peers@.len() - 1 {
                                        assert(peers@[k] == before[k]);
                                    }
                                }
                            },
                            None => {},
                        }
                    },
                    Block::Outside => {},
                }
            }
            i = i + 1;
        }
        let r = WireGuardConf { interface, peers };
        assert(all.skip(i as int) =~= Seq::<Seq<char>>::empty());
        r
    }
}

impl Default for WireGuardConf {
    fn default() -> (r: WireGuardConf)
        ensures
            r@ == empty_conf(),
    {
        WireGuardConf::new()
    }
}

/// Applies one attribute line of the interface section.
fn parse_interface_attribute(attr: &str, interface: &mut Interface)
    ensures
        final(interface)@ == apply_interface_attr(old(interface)@, attr@),
{
    match find_sep(attr) {
        None => {},
        Some(i) => {
            let len = attr.unicode_len();
            let name = attr.substring_char(0, i);
            let value = attr.substring_char(i + 3, len);
            assert(value@ =~= attr@.skip(i as int + 3));
            assert(name@ =~= attr@.take(i as int));
            if same_text(name, "ListenPort") {
                match parse_number(value, 65535) {
                    Some(port) => {
                        interface.address = SocketAddrV4 {
                            ip: interface.address.ip,
                            port: port as u16,
                        };
                    },
                    None => {},
                }
            } else if same_text(name, "PrivateKey") {
                interface.private_key = String::from_str(value);
            } else if same_text(name, "Address") {
                match parse_socket(value) {
                    Some(a) => {
                        interface.address = a;
                    },
                    None => {},
                }
            }
        },
    }
}

/// Applies one attribute line of a peer section.
fn parse_peer_attribute(attr: &str, peer: &mut Peer)
    requires
        old(peer).allowed_ips.valid(),
    ensures
        final(peer)@ == apply_peer_attr(old(peer)@, attr@),
        final(peer).allowed_ips.valid(),
{
    match find_sep(attr) {
        None => {},
        Some(i) => {
            let len = attr.unicode_len();
            let name = attr.substring_char(0, i);
            let value = attr.substring_char(i + 3, len);
            assert(value@ =~= attr@.skip(i as int + 3));
            assert(name@ =~= attr@.take(i as int));
            if same_text(name, "PublicKey") {
                peer.public_key = String::from_str(value);
            } else if same_text(name, "AllowedIPs") {
                match parse_ipv4_net(value) {
                    Some(n) => {
                        peer.allowed_ips = n;
                    },
                    None => {},
                }
            } else if same_text(name, "Endpoint") {
                match parse_socket(value) {
                    Some(e) => {
                        peer.endpoint = e;
                    },
                    None => {},
                }
            }
        },
    }
}

} // verus!
