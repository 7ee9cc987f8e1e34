//! Address blocks for new peers.
use vstd::prelude::*;

use crate::net::{Ipv4Addr, Ipv4Net};
use crate::wg_conf::{peer_views, Peer, PeerView};

verus! {

/// The block handed to the first peer: `10.200.100.2/32`.
pub open spec fn first_allocation() -> Ipv4Net {
    Ipv4Net { addr: Ipv4Addr { a: 10, b: 200, c: 100, d: 2 }, prefix_len: 32 }
}

/// The block after the last peer's: its address with the last octet one
/// higher, as a `/32`. The last octet does not carry into the third: after
/// `x.y.z.255` the pool is exhausted and there is no next block.
pub open spec fn next_allocation_spec(peers: Seq<PeerView>) -> Option<Ipv4Net> {
    if peers.len() == 0 {
        Some(first_allocation())
    } else {
        let a = peers.last().allowed_ips.addr;
        if a.d == 255 {
            None
        } else {
            Some(
                Ipv4Net { addr: Ipv4Addr { a: a.a, b: a.b, c: a.c, d: (a.d + 1) as u8 }, prefix_len: 32 },
            )
        }
    }
}

/// The address block for the next peer, or `None` when the last peer's
/// address ends in 255.
pub fn next_allocation(peers: &Vec<Peer>) -> (r: Option<Ipv4Net>)
    ensures
        r == next_allocation_spec(peer_views(peers@)),
        r matches Some(n) ==> n.valid(),
{
    let n = peers.len();
    if n == 0 {
        return Some(Ipv4Net { addr: Ipv4Addr { a: 10, b: 200, c: 100, d: 2 }, prefix_len: 32 });
    }
    let a = peers[n - 1].allowed_ips.addr;
    assert(peer_views(peers@).last() == peers@[n - 1]@);
    if a.d == 255 {
        None
    } else {
        Some(Ipv4Net { addr: Ipv4Addr { a: a.a, b: a.b, c: a.c, d: a.d + 1 }, prefix_len: 32 })
    }
}

} // verus!
