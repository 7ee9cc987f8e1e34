//! Laws of the configuration text: decoding the full dump of a configuration
//! gives back what the dump represents, and re-encoding settles at once.
use vstd::prelude::*;

use crate::net::{
    cidr_text, ipv4_text, lemma_cidr_text_lacks, lemma_parse_cidr_text, socket_text,
    SocketAddrV4,
};
use crate::text::{
    attr_line, bounded_number, dec_text, lacks, lemma_dec_text, lemma_lacks_concat,
    lemma_lines_text_concat, lemma_split_attr_line, lemma_split_lines_text,
    lemma_split_pieces_lack, lines_text, split_attr, split_on,
};
use crate::wg_conf::{
    client_config, decode, decode_lines, decode_step, default_interface, default_peer, empty_conf, encode,
    interface_lines, peer_lines, peers_lines, unspecified_ip, Block, ConfView, InterfaceView,
    PeerView,
};

verus! {

/// What the full dump keeps of a peer: its public key and address block.
pub open spec fn wire_peer(p: PeerView) -> PeerView {
    PeerView { public_key: p.public_key, allowed_ips: p.allowed_ips, ..default_peer() }
}

/// What the full dump keeps of the interface: its private key and port.
pub open spec fn wire_interface(i: InterfaceView) -> InterfaceView {
    InterfaceView {
        address: SocketAddrV4 { ip: unspecified_ip(), port: i.address.port },
        private_key: i.private_key,
        ..default_interface()
    }
}

/// What the full dump keeps of a configuration; the rest decodes to defaults.
pub open spec fn wire_form(c: ConfView) -> ConfView {
    ConfView {
        interface: wire_interface(c.interface),
        peers: c.peers.map_values(|p: PeerView| wire_peer(p)),
    }
}

/// A configuration whose dump can be read back: valid blocks and keys
/// without newlines.
pub open spec fn encodable(c: ConfView) -> bool {
    &&& c.valid()
    &&& lacks(c.interface.private_key, '\n')
    &&& forall|i: int| 0 <= i < c.peers.len() ==> lacks((#[trigger] c.peers[i]).public_key, '\n')
}

proof fn lemma_decode_concat(st: (Block, ConfView), a: Seq<Seq<char>>, b: Seq<Seq<char>>)
    ensures
        decode_lines(st, a + b) == decode_lines(decode_lines(st, a), b),
    decreases a.len(),
{
    if a.len() == 0 {
        assert(a + b =~= b);
    } else {
        assert((a + b)[0] == a[0]);
        assert((a + b).drop_first() =~= a.drop_first() + b);
        lemma_decode_concat(decode_step(st, a[0]), a.drop_first(), b);
    }
}

proof fn lemma_decode_four(
    st: (Block, ConfView),
    l0: Seq<char>,
    l1: Seq<char>,
    l2: Seq<char>,
    l3: Seq<char>,
)
    ensures
        decode_lines(st, seq![l0, l1, l2, l3]) == decode_step(
            decode_step(decode_step(decode_step(st, l0), l1), l2),
            l3,
        ),
{
    let s4 = seq![l0, l1, l2, l3];
    let s3 = seq![l1, l2, l3];
    let s2 = seq![l2, l3];
    let s1 = seq![l3];
    let e = Seq::<Seq<char>>::empty();
    assert(s4.drop_first() =~= s3);
    assert(s3.drop_first() =~= s2);
    assert(s2.drop_first() =~= s1);
    assert(s1.drop_first() =~= e);
    let a0 = decode_step(st, l0);
    let a1 = decode_step(a0, l1);
    let a2 = decode_step(a1, l2);
    let a3 = decode_step(a2, l3);
    assert(decode_lines(a3, e) == a3);
    assert(decode_lines(a2, s1) == decode_lines(a3, e));
    assert(decode_lines(a1, s2) == decode_lines(a2, s1));
    assert(decode_lines(a0, s3) == decode_lines(a1, s2));
    assert(decode_lines(st, s4) == decode_lines(a0, s3));
}

/// An attribute line of one of the dump's keys is no section header and not blank.
proof fn lemma_attr_line_facts(key: Seq<char>, value: Seq<char>)
    requires
        key == "PrivateKey"@ || key == "ListenPort"@ || key == "PublicKey"@ || key
            == "AllowedIPs"@,
    ensures
        attr_line(key, value) != "[Interface]"@,
        attr_line(key, value) != "[Peer]"@,
        attr_line(key, value).len() > 0,
        split_attr(attr_line(key, value)) == Some((key, value)),
{
    reveal_strlit("PrivateKey");
    reveal_strlit("ListenPort");
    reveal_strlit("PublicKey");
    reveal_strlit("AllowedIPs");
    reveal_strlit("[Interface]");
    reveal_strlit("[Peer]");
    let line = attr_line(key, value);
    assert(line[0] == key[0]);
    assert("[Interface]"@[0] == '[');
    assert("[Peer]"@[0] == '[');
    assert(lacks(key, ' '));
    lemma_split_attr_line(key, value);
}

proof fn lemma_keys_distinct()
    ensures
        "PrivateKey"@ != "ListenPort"@,
        "AllowedIPs"@ != "PublicKey"@,
        "[Interface]"@ != Seq::<char>::empty(),
        "[Peer]"@ != Seq::<char>::empty(),
        "[Peer]"@ != "[Interface]"@,
{
    reveal_strlit("PrivateKey");
    reveal_strlit("ListenPort");
    reveal_strlit("PublicKey");
    reveal_strlit("AllowedIPs");
    reveal_strlit("[Interface]");
    reveal_strlit("[Peer]");
    assert("PrivateKey"@[0] != "ListenPort"@[0]);
    assert("AllowedIPs"@[0] != "PublicKey"@[0]);
    assert("[Peer]"@.len() != "[Interface]"@.len());
}

proof fn lemma_decode_interface(i: InterfaceView)
    ensures
        decode_lines((Block::Outside, empty_conf()), interface_lines(i)) == (
            Block::Outside,
            ConfView { interface: wire_interface(i), peers: Seq::empty() },
        ),
{
    lemma_keys_distinct();
    let port_text = dec_text(i.address.port as nat);
    lemma_attr_line_facts("PrivateKey"@, i.private_key);
    lemma_attr_line_facts("ListenPort"@, port_text);
    lemma_dec_text(i.address.port as nat);
    assert(bounded_number(port_text, 65535) == Some(i.address.port as nat));
    lemma_decode_four(
        (Block::Outside, empty_conf()),
        "[Interface]"@,
        attr_line("PrivateKey"@, i.private_key),
        attr_line("ListenPort"@, port_text),
        Seq::empty(),
    );
}

proof fn lemma_decode_peer_block(c: ConfView, p: PeerView)
    requires
        p.allowed_ips.valid(),
    ensures
        decode_lines((Block::Outside, c), peer_lines(p)) == (
            Block::Outside,
            ConfView { interface: c.interface, peers: c.peers.push(wire_peer(p)) },
        ),
{
    lemma_keys_distinct();
    let ips = cidr_text(p.allowed_ips);
    lemma_attr_line_facts("PublicKey"@, p.public_key);
    lemma_attr_line_facts("AllowedIPs"@, ips);
    lemma_parse_cidr_text(p.allowed_ips);
    lemma_decode_four(
        (Block::Outside, c),
        "[Peer]"@,
        attr_line("PublicKey"@, p.public_key),
        attr_line("AllowedIPs"@, ips),
        Seq::empty(),
    );
    let s1 = decode_step((Block::Outside, c), "[Peer]"@);
    assert(s1.1.peers =~= c.peers.push(default_peer()));
    let s2 = decode_step(s1, attr_line("PublicKey"@, p.public_key));
    let s3 = decode_step(s2, attr_line("AllowedIPs"@, ips));
    assert(s3.1.peers =~= c.peers.push(wire_peer(p)));
}

proof fn lemma_decode_peers(c: ConfView, ps: Seq<PeerView>)
    requires
        forall|i: int| 0 <= i < ps.len() ==> (#[trigger] ps[i]).allowed_ips.valid(),
    ensures
        decode_lines((Block::Outside, c), peers_lines(ps)) == (
            Block::Outside,
            ConfView {
                interface: c.interface,
                peers: c.peers + ps.map_values(|p: PeerView| wire_peer(p)),
            },
        ),
    decreases ps.len(),
{
    if ps.len() == 0 {
        assert(c.peers + ps.map_values(|p: PeerView| wire_peer(p)) =~= c.peers);
    } else {
        let init = ps.drop_last();
        lemma_decode_peers(c, init);
        lemma_decode_concat((Block::Outside, c), peers_lines(init), peer_lines(ps.last()));
        let mid = ConfView {
            interface: c.interface,
            peers: c.peers + init.map_values(|p: PeerView| wire_peer(p)),
        };
        lemma_decode_peer_block(mid, ps.last());
        assert(mid.peers.push(wire_peer(ps.last())) =~= c.peers + ps.map_values(
            |p: PeerView| wire_peer(p),
        ));
    }
}

proof fn lemma_peers_lines_lack(ps: Seq<PeerView>)
    requires
        forall|i: int| 0 <= i < ps.len() ==> lacks((#[trigger] ps[i]).public_key, '\n'),
    ensures
        forall|i: int|
            0 <= i < peers_lines(ps).len() ==> lacks(#[trigger] peers_lines(ps)[i], '\n'),
    decreases ps.len(),
{
    if ps.len() > 0 {
        let init = ps.drop_last();
        assert forall|i: int| 0 <= i < init.len() implies lacks(
            (#[trigger] init[i]).public_key,
            '\n',
        ) by {
            assert(init[i] == ps[i]);
        }
        lemma_peers_lines_lack(init);
        let p = ps.last();
        lemma_lines_of_peer_lack(p);
        let a = peers_lines(init);
        let b = peer_lines(p);
        assert forall|i: int| 0 <= i < (a + b).len() implies lacks(#[trigger] (a + b)[i], '\n') by {
            if i < a.len() {
                assert((a + b)[i] == a[i]);
            } else {
                assert((a + b)[i] == b[i - a.len()]);
            }
        }
    }
}

proof fn lemma_lines_of_peer_lack(p: PeerView)
    requires
        lacks(p.public_key, '\n'),
    ensures
        forall|i: int| 0 <= i < peer_lines(p).len() ==> lacks(#[trigger] peer_lines(p)[i], '\n'),
{
    reveal_strlit("[Peer]");
    reveal_strlit("PublicKey");
    reveal_strlit("AllowedIPs");
    reveal_strlit(" = ");
    assert(lacks("[Peer]"@, '\n'));
    assert(lacks("PublicKey"@, '\n'));
    assert(lacks("AllowedIPs"@, '\n'));
    assert(lacks(" = "@, '\n'));
    lemma_lacks_concat("PublicKey"@, " = "@, '\n');
    lemma_lacks_concat("PublicKey"@ + " = "@, p.public_key, '\n');
    lemma_cidr_text_lacks(p.allowed_ips, '\n');
    lemma_lacks_concat("AllowedIPs"@, " = "@, '\n');
    lemma_lacks_concat("AllowedIPs"@ + " = "@, cidr_text(p.allowed_ips), '\n');
    assert(lacks(Seq::<char>::empty(), '\n'));
}

proof fn lemma_lines_of_interface_lack(i: InterfaceView)
    requires
        lacks(i.private_key, '\n'),
    ensures
        forall|k: int|
            0 <= k < interface_lines(i).len() ==> lacks(#[trigger] interface_lines(i)[k], '\n'),
{
    reveal_strlit("[Interface]");
    reveal_strlit("PrivateKey");
    reveal_strlit("ListenPort");
    reveal_strlit(" = ");
    assert(lacks("[Interface]"@, '\n'));
    assert(lacks("PrivateKey"@, '\n'));
    assert(lacks("ListenPort"@, '\n'));
    assert(lacks(" = "@, '\n'));
    lemma_lacks_concat("PrivateKey"@, " = "@, '\n');
    lemma_lacks_concat("PrivateKey"@ + " = "@, i.private_key, '\n');
    lemma_dec_text(i.address.port as nat);
    lemma_lacks_concat("ListenPort"@, " = "@, '\n');
    lemma_lacks_concat("ListenPort"@ + " = "@, dec_text(i.address.port as nat), '\n');
    assert(lacks(Seq::<char>::empty(), '\n'));
}

/// Decoding the full dump of a configuration gives back the configuration in
/// every field that the dump holds (the interface's private key and port,
/// each peer's public key and address block, in order); every other field
/// comes back with its default, so names and peers' private keys are empty.
pub proof fn lemma_decode_encode(c: ConfView)
    requires
        encodable(c),
    ensures
        decode(encode(c)) == wire_form(c),
{
    let il = interface_lines(c.interface);
    let pl = peers_lines(c.peers);
    let e = Seq::<char>::empty();
    lemma_lines_of_interface_lack(c.interface);
    lemma_peers_lines_lack(c.peers);
    let lines = il + pl;
    assert forall|i: int| 0 <= i < lines.len() implies lacks(#[trigger] lines[i], '\n') by {
        if i < il.len() {
            assert(lines[i] == il[i]);
        } else {
            assert(lines[i] == pl[i - il.len()]);
        }
    }
    lemma_split_lines_text(lines);
    assert(lines.push(e) =~= lines + seq![e]);
    let start = (Block::Outside, empty_conf());
    lemma_decode_concat(start, lines, seq![e]);
    lemma_decode_concat(start, il, pl);
    lemma_decode_interface(c.interface);
    let after_head = ConfView { interface: wire_interface(c.interface), peers: Seq::empty() };
    lemma_decode_peers(after_head, c.peers);
    let after_peers = ConfView {
        interface: wire_interface(c.interface),
        peers: Seq::<PeerView>::empty() + c.peers.map_values(|p: PeerView| wire_peer(p)),
    };
    lemma_keys_distinct();
    assert(seq![e].drop_first() =~= Seq::<Seq<char>>::empty());
    let last = decode_step((Block::Outside, after_peers), e);
    assert(last == (Block::Outside, after_peers));
    assert(decode_lines(last, Seq::<Seq<char>>::empty()) == last);
    assert(decode_lines((Block::Outside, after_peers), seq![e]) == (Block::Outside, after_peers));
    assert(after_peers.peers =~= wire_form(c).peers);
}

proof fn lemma_peers_lines_wire(ps: Seq<PeerView>)
    ensures
        peers_lines(ps.map_values(|p: PeerView| wire_peer(p))) == peers_lines(ps),
    decreases ps.len(),
{
    let ws = ps.map_values(|p: PeerView| wire_peer(p));
    if ps.len() > 0 {
        lemma_peers_lines_wire(ps.drop_last());
        assert(ws.drop_last() =~= ps.drop_last().map_values(|p: PeerView| wire_peer(p)));
        assert(ws.last() == wire_peer(ps.last()));
    }
}

/// The dump holds only what `wire_form` keeps.
proof fn lemma_encode_wire_form(c: ConfView)
    ensures
        encode(wire_form(c)) == encode(c),
{
    lemma_peers_lines_wire(c.peers);
    assert(interface_lines(wire_interface(c.interface)) == interface_lines(c.interface));
}

/// Every configuration that decoding yields can be dumped and read back.
proof fn lemma_decode_encodable(s: Seq<char>)
    ensures
        encodable(decode(s)),
{
    let lines = split_on(s, '\n');
    lemma_split_pieces_lack(s, '\n');
    lemma_decode_lines_encodable((Block::Outside, empty_conf()), lines);
}

proof fn lemma_decode_lines_encodable(st: (Block, ConfView), lines: Seq<Seq<char>>)
    requires
        encodable(st.1),
        forall|i: int| 0 <= i < lines.len() ==> lacks(#[trigger] lines[i], '\n'),
    ensures
        encodable(decode_lines(st, lines).1),
    decreases lines.len(),
{
    if lines.len() > 0 {
        let line = lines[0];
        let next = decode_step(st, line);
        assert(lacks(line, '\n'));
        lemma_step_encodable(st, line);
        let rest = lines.drop_first();
        assert forall|i: int| 0 <= i < rest.len() implies lacks(#[trigger] rest[i], '\n') by {
            assert(rest[i] == lines[i + 1]);
        }
        lemma_decode_lines_encodable(next, rest);
    }
}

proof fn lemma_value_lacks(line: Seq<char>)
    requires
        lacks(line, '\n'),
    ensures
        split_attr(line) matches Some((k, v)) ==> lacks(v, '\n'),
{
    if let Some((k, v)) = split_attr(line) {
        let i = crate::text::find_sep_from(line, 0)->0;
        crate::text::lemma_find_sep_bound(line, 0);
        assert forall|j: int| 0 <= j < v.len() implies #[trigger] v[j] != '\n' by {
            assert(v[j] == line[i + 3 + j]);
        }
    }
}

proof fn lemma_step_encodable(st: (Block, ConfView), line: Seq<char>)
    requires
        encodable(st.1),
        lacks(line, '\n'),
    ensures
        encodable(decode_step(st, line).1),
{
    lemma_value_lacks(line);
    let c = st.1;
    let next = decode_step(st, line).1;
    assert(lacks(Seq::<char>::empty(), '\n'));
    assert(default_peer().allowed_ips.valid());
    assert forall|i: int| 0 <= i < next.peers.len() implies lacks(
        (#[trigger] next.peers[i]).public_key,
        '\n',
    ) && next.peers[i].allowed_ips.valid() by {
        if i < c.peers.len() && (i < c.peers.len() - 1 || next.peers.len() > c.peers.len() || st.0
            != Block::Peer) {
            if next.peers.len() == c.peers.len() && st.0 == Block::Peer && i == c.peers.len() - 1 {
            } else {
                assert(next.peers[i] == c.peers[i]);
            }
        }
    }
}

/// Re-encoding a decoded configuration settles at once: dumping what
/// decoding a dump gives yields that dump again, byte for byte.
pub proof fn lemma_reencode_stable(s: Seq<char>)
    ensures
        encode(decode(encode(decode(s)))) == encode(decode(s)),
{
    let c = decode(s);
    lemma_decode_encodable(s);
    lemma_decode_encode(c);
    lemma_encode_wire_form(c);
}

/// Whether `part` occurs in `text`.
pub open spec fn occurs_in(part: Seq<char>, text: Seq<char>) -> bool {
    exists|k: int| 0 <= k && k + part.len() <= text.len() && #[trigger] text.subrange(k, k + part.len()) == part
}

/// The file a peer downloads holds that peer's own private key, on a line of its own.
pub proof fn lemma_client_config_private_key(c: ConfView, p: PeerView)
    ensures
        occurs_in(attr_line("PrivateKey"@, p.private_key) + seq!['\n'], client_config(c, p)),
{
    let a = seq![
        "[Interface]"@,
        attr_line("DNS"@, ipv4_text(c.interface.dns)),
        attr_line("Address"@, cidr_text(p.allowed_ips)),
    ];
    let b = seq![
        attr_line("PrivateKey"@, p.private_key),
        Seq::empty(),
        "[Peer]"@,
        attr_line("PublicKey"@, c.interface.public_key),
        attr_line("AllowedIPs"@, ipv4_text(c.interface.dns) + "/32"@),
        attr_line("Endpoint"@, socket_text(c.interface.address)),
    ];
    assert(a + b =~= seq![
        "[Interface]"@,
        attr_line("DNS"@, ipv4_text(c.interface.dns)),
        attr_line("Address"@, cidr_text(p.allowed_ips)),
        attr_line("PrivateKey"@, p.private_key),
        Seq::empty(),
        "[Peer]"@,
        attr_line("PublicKey"@, c.interface.public_key),
        attr_line("AllowedIPs"@, ipv4_text(c.interface.dns) + "/32"@),
        attr_line("Endpoint"@, socket_text(c.interface.address)),
    ]);
    lemma_lines_text_concat(a, b);
    let line = attr_line("PrivateKey"@, p.private_key) + seq!['\n'];
    let text = client_config(c, p);
    let k = lines_text(a).len() as int;
    assert(lines_text(b) == line + lines_text(b.drop_first()));
    assert(text == lines_text(a) + (line + lines_text(b.drop_first())));
    assert(text.subrange(k, k + line.len()) =~= line);
}

} // verus!
