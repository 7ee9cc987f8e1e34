//! IPv4 addresses, socket addresses and address blocks, with their text forms.
use vstd::prelude::*;

use crate::text::{
    bounded_number, dec_text, is_digit, lacks, lemma_dec_text, lemma_dec_text_lacks,
    lemma_dec_text_width, lemma_split_join, lemma_split_single, parse_number, push_decimal,
    split_on, split_str, views,
};

verus! {

/// An IPv4 address, octet by octet.
#[derive(Clone, Copy, Debug, PartialEq, Eq, Structural)]
pub struct Ipv4Addr {
    pub a: u8,
    pub b: u8,
    pub c: u8,
    pub d: u8,
}

/// An IPv4 address with a port.
#[derive(Clone, Copy, Debug, PartialEq, Eq, Structural)]
pub struct SocketAddrV4 {
    pub ip: Ipv4Addr,
    pub port: u16,
}

/// An IPv4 address block: an address and a prefix length of at most 32.
#[derive(Clone, Copy, Debug, PartialEq, Eq, Structural)]
pub struct Ipv4Net {
    pub addr: Ipv4Addr,
    pub prefix_len: u8,
}

impl Ipv4Addr {
    pub fn new(a: u8, b: u8, c: u8, d: u8) -> (r: Ipv4Addr)
        ensures
            r == (Ipv4Addr { a, b, c, d }),
    {
        Ipv4Addr { a, b, c, d }
    }
}

impl SocketAddrV4 {
    pub fn new(ip: Ipv4Addr, port: u16) -> (r: SocketAddrV4)
        ensures
            r == (SocketAddrV4 { ip, port }),
    {
        SocketAddrV4 { ip, port }
    }
}

impl Ipv4Net {
    pub open spec fn valid(self) -> bool {
        self.prefix_len <= 32
    }

    /// The block of `addr` with `prefix_len`, or `None` when the length exceeds 32.
    pub fn new(addr: Ipv4Addr, prefix_len: u8) -> (r: Option<Ipv4Net>)
        ensures
            prefix_len <= 32 ==> r == Some(Ipv4Net { addr, prefix_len }),
            prefix_len > 32 ==> r is None,
    {
        if prefix_len <= 32 {
            Some(Ipv4Net { addr, prefix_len })
        } else {
            None
        }
    }

    /// The block's text, as in `10.200.100.2/32`.
    pub fn to_string(&self) -> (r: String)
        requires
            self.valid(),
        ensures
            r@ == cidr_text(*self),
    {
        ipv4_net_text(*self)
    }
}

/// Dotted-decimal text of an address.
pub open spec fn ipv4_text(a: Ipv4Addr) -> Seq<char> {
    dec_text(a.a as nat) + seq!['.'] + dec_text(a.b as nat) + seq!['.'] + dec_text(a.c as nat)
        + seq!['.'] + dec_text(a.d as nat)
}

/// `address:port`.
pub open spec fn socket_text(s: SocketAddrV4) -> Seq<char> {
    ipv4_text(s.ip) + seq![':'] + dec_text(s.port as nat)
}

/// `address/prefix`.
pub open spec fn cidr_text(n: Ipv4Net) -> Seq<char> {
    ipv4_text(n.addr) + seq!['/'] + dec_text(n.prefix_len as nat)
}

/// A run of one to `width` decimal digits worth at most `max`.
pub open spec fn short_number(s: Seq<char>, width: nat, max: nat) -> Option<nat> {
    if s.len() <= width {
        bounded_number(s, max)
    } else {
        None
    }
}

/// Four dot-separated octets of one to three digits, each at most 255.
pub open spec fn parse_ipv4_spec(s: Seq<char>) -> Option<Ipv4Addr> {
    let parts = split_on(s, '.');
    if parts.len() == 4 && short_number(parts[0], 3, 255) is Some && short_number(parts[1], 3, 255)
        is Some && short_number(parts[2], 3, 255) is Some && short_number(parts[3], 3, 255) is Some {
        Some(
            Ipv4Addr {
                a: short_number(parts[0], 3, 255)->0 as u8,
                b: short_number(parts[1], 3, 255)->0 as u8,
                c: short_number(parts[2], 3, 255)->0 as u8,
                d: short_number(parts[3], 3, 255)->0 as u8,
            },
        )
    } else {
        None
    }
}

/// An address, a colon and a port of one to five digits.
pub open spec fn parse_socket_spec(s: Seq<char>) -> Option<SocketAddrV4> {
    let parts = split_on(s, ':');
    if parts.len() == 2 && parse_ipv4_spec(parts[0]) is Some && short_number(parts[1], 5, 65535)
        is Some {
        Some(
            SocketAddrV4 {
                ip: parse_ipv4_spec(parts[0])->0,
                port: short_number(parts[1], 5, 65535)->0 as u16,
            },
        )
    } else {
        None
    }
}

/// An address, a slash and a prefix length of one or two digits, at most 32.
pub open spec fn parse_ipv4_net_spec(s: Seq<char>) -> Option<Ipv4Net> {
    let parts = split_on(s, '/');
    if parts.len() == 2 && parse_ipv4_spec(parts[0]) is Some && short_number(parts[1], 2, 32)
        is Some {
        Some(
            Ipv4Net {
                addr: parse_ipv4_spec(parts[0])->0,
                prefix_len: short_number(parts[1], 2, 32)->0 as u8,
            },
        )
    } else {
        None
    }
}

proof fn lemma_short_number_dec(x: nat, width: nat, max: nat)
    requires
        x <= max,
        (width == 3 && max <= 255) || (width == 2 && max <= 32),
    ensures
        short_number(dec_text(x), width, max) == Some(x),
{
    lemma_dec_text(x);
    lemma_dec_text_width(x);
}

/// The text of an address contains no separator other than its dots.
pub proof fn lemma_ipv4_text_lacks(a: Ipv4Addr, c: char)
    requires
        !is_digit(c),
        c != '.',
    ensures
        lacks(ipv4_text(a), c),
{
    lemma_dec_text_lacks(a.a as nat, c);
    lemma_dec_text_lacks(a.b as nat, c);
    lemma_dec_text_lacks(a.c as nat, c);
    lemma_dec_text_lacks(a.d as nat, c);
    let t = ipv4_text(a);
    let (pa, pb, pc, pd) = (
        dec_text(a.a as nat),
        dec_text(a.b as nat),
        dec_text(a.c as nat),
        dec_text(a.d as nat),
    );
    assert forall|i: int| 0 <= i < t.len() implies #[trigger] t[i] != c by {
        if i < pa.len() {
            assert(t[i] == pa[i]);
        } else if i == pa.len() {
        } else if i < pa.len() + 1 + pb.len() {
            assert(t[i] == pb[i - pa.len() - 1]);
        } else if i == pa.len() + 1 + pb.len() {
        } else if i < pa.len() + 2 + pb.len() + pc.len() {
            assert(t[i] == pc[i - pa.len() - pb.len() - 2]);
        } else if i == pa.len() + 2 + pb.len() + pc.len() {
        } else {
            assert(t[i] == pd[i - pa.len() - pb.len() - pc.len() - 3]);
        }
    }
}

/// A block's text contains no newline.
pub proof fn lemma_cidr_text_lacks(n: Ipv4Net, c: char)
    requires
        !is_digit(c),
        c != '.',
        c != '/',
    ensures
        lacks(cidr_text(n), c),
{
    lemma_ipv4_text_lacks(n.addr, c);
    lemma_dec_text_lacks(n.prefix_len as nat, c);
    let t = cidr_text(n);
    let head = ipv4_text(n.addr);
    let tail = dec_text(n.prefix_len as nat);
    assert forall|i: int| 0 <= i < t.len() implies #[trigger] t[i] != c by {
        if i < head.len() {
            assert(t[i] == head[i]);
        } else if i > head.len() {
            assert(t[i] == tail[i - head.len() - 1]);
        }
    }
}

/// An address reads back from its text.
pub proof fn lemma_parse_ipv4_text(a: Ipv4Addr)
    ensures
        parse_ipv4_spec(ipv4_text(a)) == Some(a),
{
    let (pa, pb, pc, pd) = (
        dec_text(a.a as nat),
        dec_text(a.b as nat),
        dec_text(a.c as nat),
        dec_text(a.d as nat),
    );
    lemma_dec_text_lacks(a.a as nat, '.');
    lemma_dec_text_lacks(a.b as nat, '.');
    lemma_dec_text_lacks(a.c as nat, '.');
    lemma_dec_text_lacks(a.d as nat, '.');
    assert(ipv4_text(a) =~= pa + seq!['.'] + (pb + seq!['.'] + (pc + seq!['.'] + pd)));
    lemma_split_join(pa, '.', pb + seq!['.'] + (pc + seq!['.'] + pd));
    lemma_split_join(pb, '.', pc + seq!['.'] + pd);
    lemma_split_join(pc, '.', pd);
    lemma_split_single(pd, '.');
    let parts = split_on(ipv4_text(a), '.');
    assert(parts =~= seq![pa, pb, pc, pd]);
    lemma_short_number_dec(a.a as nat, 3, 255);
    lemma_short_number_dec(a.b as nat, 3, 255);
    lemma_short_number_dec(a.c as nat, 3, 255);
    lemma_short_number_dec(a.d as nat, 3, 255);
}

/// A block reads back from its text.
pub proof fn lemma_parse_cidr_text(n: Ipv4Net)
    requires
        n.valid(),
    ensures
        parse_ipv4_net_spec(cidr_text(n)) == Some(n),
{
    lemma_ipv4_text_lacks(n.addr, '/');
    lemma_dec_text_lacks(n.prefix_len as nat, '/');
    lemma_split_join(ipv4_text(n.addr), '/', dec_text(n.prefix_len as nat));
    lemma_split_single(dec_text(n.prefix_len as nat), '/');
    let parts = split_on(cidr_text(n), '/');
    assert(parts =~= seq![ipv4_text(n.addr), dec_text(n.prefix_len as nat)]);
    lemma_parse_ipv4_text(n.addr);
    lemma_short_number_dec(n.prefix_len as nat, 2, 32);
}

/// Relies on `<ipnet::Ipv4Net as FromStr>::from_str`: it accepts exactly
/// four dot-separated octets of one to three ASCII digits worth at most 255,
/// a `/`, and a prefix length of one or two digits worth at most 32, with
/// nothing before or after.
#[verifier::external_body]
pub(crate) fn parse_ipv4_net(s: &str) -> (r: Option<Ipv4Net>)
    ensures
        r == parse_ipv4_net_spec(s@),
{
    match s.parse::<ipnet::Ipv4Net>() {
        Ok(net) => {
            let o = net.addr().octets();
            let addr = Ipv4Addr { a: o[0], b: o[1], c: o[2], d: o[3] };
            Some(Ipv4Net { addr, prefix_len: net.prefix_len() })
        },
        Err(_) => None,
    }
}

/// Relies on `ipnet::Ipv4Net::new` and `ipnet::Ipv4Net`'s `Display`: the
/// address in dotted decimal, `/`, then the prefix length.
#[verifier::external_body]
fn ipv4_net_text(n: Ipv4Net) -> (r: String)
    requires
        n.valid(),
    ensures
        r@ == cidr_text(n),
{
    let addr = [n.addr.a, n.addr.b, n.addr.c, n.addr.d];
    match ipnet::Ipv4Net::new(addr.into(), n.prefix_len) {
        Ok(net) => net.to_string(),
        Err(_) => String::new(),
    }
}

/// Appends the dotted-decimal text of `a`.
pub fn push_ipv4(out: &mut String, a: Ipv4Addr)
    ensures
        final(out)@ == old(out)@ + ipv4_text(a),
{
    proof {
        reveal_strlit(".");
    }
    push_decimal(out, a.a as u64);
    out.append(".");
    push_decimal(out, a.b as u64);
    out.append(".");
    push_decimal(out, a.c as u64);
    out.append(".");
    push_decimal(out, a.d as u64);
    assert(final(out)@ =~= old(out)@ + ipv4_text(a));
}

/// Appends `address:port`.
pub fn push_socket(out: &mut String, s: SocketAddrV4)
    ensures
        final(out)@ == old(out)@ + socket_text(s),
{
    proof {
        reveal_strlit(":");
    }
    push_ipv4(out, s.ip);
    out.append(":");
    push_decimal(out, s.port as u64);
    assert(final(out)@ =~= old(out)@ + socket_text(s));
}

/// Reads one to `width` decimal digits worth at most `max`.
fn parse_short_number(s: &str, width: usize, max: u64) -> (r: Option<u64>)
    requires
        max <= 1_000_000,
    ensures
        match r {
            Some(v) => short_number(s@, width as nat, max as nat) == Some(v as nat),
            None => short_number(s@, width as nat, max as nat) is None,
        },
{
    if s.unicode_len() > width {
        None
    } else {
        parse_number(s, max)
    }
}

/// Reads a dotted-decimal address.
pub fn parse_ipv4(s: &str) -> (r: Option<Ipv4Addr>)
    ensures
        r == parse_ipv4_spec(s@),
{
    let parts = split_str(s, '.');
    proof {
        assert(views(parts@).len() == parts@.len());
    }
    if parts.len() != 4 {
        return None;
    }
    proof {
        assert forall|i: int| 0 <= i < 4 implies split_on(s@, '.')[i] == parts@[i]@ by {
            assert(views(parts@)[i] == parts@[i]@);
        }
    }
    let a = parse_short_number(parts[0].as_str(), 3, 255);
    let b = parse_short_number(parts[1].as_str(), 3, 255);
    let c = parse_short_number(parts[2].as_str(), 3, 255);
    let d = parse_short_number(parts[3].as_str(), 3, 255);
    match (a, b, c, d) {
        (Some(a), Some(b), Some(c), Some(d)) => Some(
            Ipv4Addr { a: a as u8, b: b as u8, c: c as u8, d: d as u8 },
        ),
        _ => None,
    }
}

/// Reads `address:port`.
pub fn parse_socket(s: &str) -> (r: Option<SocketAddrV4>)
    ensures
        r == parse_socket_spec(s@),
{
    let parts = split_str(s, ':');
    proof {
        assert(views(parts@).len() == parts@.len());
    }
    if parts.len() != 2 {
        return None;
    }
    proof {
        assert(views(parts@)[0] == parts@[0]@);
        assert(views(parts@)[1] == parts@[1]@);
    }
    let ip = parse_ipv4(parts[0].as_str());
    let port = parse_short_number(parts[1].as_str(), 5, 65535);
    match (ip, port) {
        (Some(ip), Some(port)) => Some(SocketAddrV4 { ip, port: port as u16 }),
        _ => None,
    }
}

} // verus!
