//! The walk along the chain of hops that decides which address is the client.

use crate::network::{trusted_by, IpAddress, IpNetwork, IpNetworks};
use vstd::prelude::*;

verus! {

/// The result of walking the first `n` hops from the last of them to the
/// first: the first hop met that is not trusted, or, where every one of them is
/// trusted, the first hop of the chain.
pub open spec fn walk(networks: Seq<IpNetwork>, hops: Seq<IpAddress>, n: int) -> IpAddress
    recommends
        0 < hops.len(),
        n <= hops.len(),
    decreases n,
{
    if n <= 0 {
        hops[0]
    } else if !trusted_by(networks, hops[n - 1]) {
        hops[n - 1]
    } else {
        walk(networks, hops, n - 1)
    }
}

/// The client address of a connection from `peer` that claims to have been
/// forwarded for `claimed`, client first. Without a peer there is none.
pub open spec fn resolved(
    networks: Seq<IpNetwork>,
    peer: Option<IpAddress>,
    claimed: Seq<IpAddress>,
) -> Option<IpAddress> {
    match peer {
        Some(p) => Some(walk(networks, claimed.push(p), claimed.len() as int + 1)),
        None => None,
    }
}

/// Resolves the client address: the hop nearest to this server that is not a
/// trusted proxy, where the hops are the claimed addresses followed by the
/// peer; the first claimed address, or the peer where nothing is claimed, if
/// all hops are trusted.
pub fn real_ip(
    trusted_proxies: &IpNetworks,
    addr: Option<IpAddress>,
    forwarded_for: &Vec<IpAddress>,
) -> (r: Option<IpAddress>)
    ensures
        r == resolved(trusted_proxies@, addr, forwarded_for@),
{
    match addr {
        None => None,
        Some(peer) => {
            let ghost hops = forwarded_for@.push(peer);
            if !trusted_proxies.contains(&peer) {
                return Some(peer);
            }
            let mut i: usize = forwarded_for.len();
            while i > 0
                invariant
                    i <= forwarded_for@.len(),
                    addr == Some(peer),
                    hops == forwarded_for@.push(peer),
                    walk(trusted_proxies@, hops, i as int) == walk(
                        trusted_proxies@,
                        hops,
                        hops.len() as int,
                    ),
                decreases i,
            {
                i -= 1;
                let hop = forwarded_for[i];
                assert(hops[i as int] == hop);
                if !trusted_proxies.contains(&hop) {
                    return Some(hop);
                }
            }
            if forwarded_for.len() > 0 {
                Some(forwarded_for[0])
            } else {
                Some(peer)
            }
        },
    }
}

/// If hop `k` is not trusted and every hop behind it among the first `n` is,
/// the walk over the first `n` hops ends at hop `k`.
pub proof fn lemma_walk_stops(networks: Seq<IpNetwork>, hops: Seq<IpAddress>, n: int, k: int)
    requires
        0 <= k < n <= hops.len(),
        !trusted_by(networks, hops[k]),
        forall|j: int| k < j < n ==> trusted_by(networks, #[trigger] hops[j]),
    ensures
        walk(networks, hops, n) == hops[k],
    decreases n,
{
    if n - 1 > k {
        lemma_walk_stops(networks, hops, n - 1, k);
    }
}

/// If every one of the first `n` hops is trusted, the walk over them ends at
/// the first hop of the chain.
pub proof fn lemma_walk_exhausts(networks: Seq<IpNetwork>, hops: Seq<IpAddress>, n: int)
    requires
        n <= hops.len(),
        forall|j: int| 0 <= j < n ==> trusted_by(networks, #[trigger] hops[j]),
    ensures
        walk(networks, hops, n) == hops[0],
    decreases n,
{
    if n > 0 {
        lemma_walk_exhausts(networks, hops, n - 1);
    }
}

/// The walk over the first `n` hops ends at one of the hops, and every hop
/// behind that one among the first `n` is trusted.
pub proof fn lemma_walk_is_vouched(networks: Seq<IpNetwork>, hops: Seq<IpAddress>, n: int)
    requires
        0 < n <= hops.len(),
    ensures
        exists|k: int|
            0 <= k < n && #[trigger] hops[k] == walk(networks, hops, n) && forall|j: int|
                k < j < n ==> trusted_by(networks, #[trigger] hops[j]),
    decreases n,
{
    if !trusted_by(networks, hops[n - 1]) {
        assert(hops[n - 1] == walk(networks, hops, n));
    } else if n == 1 {
        assert(hops[0] == walk(networks, hops, n));
    } else {
        lemma_walk_is_vouched(networks, hops, n - 1);
        let k = choose|k: int|
            0 <= k < n - 1 && #[trigger] hops[k] == walk(networks, hops, n - 1) && forall|j: int|
                k < j < n - 1 ==> trusted_by(networks, #[trigger] hops[j]);
        assert(hops[k] == walk(networks, hops, n));
    }
}

/// The client of a connection with a peer is the peer or a claimed address,
/// and every hop between it and this server is trusted: no address is taken
/// on the word of a hop that is not trusted.
pub proof fn lemma_client_is_vouched(
    networks: Seq<IpNetwork>,
    peer: IpAddress,
    claimed: Seq<IpAddress>,
)
    ensures
        exists|k: int|
            0 <= k <= claimed.len() && Some(#[trigger] claimed.push(peer)[k]) == resolved(
                networks,
                Some(peer),
                claimed,
            ) && forall|j: int|
                k < j <= claimed.len() ==> trusted_by(networks, #[trigger] claimed.push(peer)[j]),
{
    let hops = claimed.push(peer);
    lemma_walk_is_vouched(networks, hops, hops.len() as int);
    let k = choose|k: int|
        0 <= k < hops.len() && #[trigger] hops[k] == walk(networks, hops, hops.len() as int)
            && forall|j: int| k < j < hops.len() ==> trusted_by(networks, #[trigger] hops[j]);
    assert(Some(hops[k]) == resolved(networks, Some(peer), claimed));
}

/// With nothing trusted the peer is the client, whatever is claimed.
pub proof fn lemma_nothing_trusted(
    networks: Seq<IpNetwork>,
    peer: IpAddress,
    claimed: Seq<IpAddress>,
)
    requires
        networks.len() == 0,
    ensures
        resolved(networks, Some(peer), claimed) == Some(peer),
{
}

/// A peer that is not trusted is the client, whatever is claimed.
pub proof fn lemma_untrusted_peer(
    networks: Seq<IpNetwork>,
    peer: IpAddress,
    claimed: Seq<IpAddress>,
)
    requires
        !trusted_by(networks, peer),
    ensures
        resolved(networks, Some(peer), claimed) == Some(peer),
{
}

/// Where the peer and every claimed address are trusted, the first claimed
/// address is the client.
pub proof fn lemma_all_trusted(networks: Seq<IpNetwork>, peer: IpAddress, claimed: Seq<IpAddress>)
    requires
        trusted_by(networks, peer),
        claimed.len() > 0,
        forall|j: int| 0 <= j < claimed.len() ==> trusted_by(networks, #[trigger] claimed[j]),
    ensures
        resolved(networks, Some(peer), claimed) == Some(claimed[0]),
{
    let hops = claimed.push(peer);
    assert forall|j: int| 0 <= j < hops.len() implies trusted_by(networks, #[trigger] hops[j]) by {
        if j < claimed.len() {
            assert(hops[j] == claimed[j]);
        }
    }
    lemma_walk_exhausts(networks, hops, hops.len() as int);
}

/// Where the peer is trusted, claimed address `k` is not, and every claimed
/// address behind it is, claimed address `k` is the client, whatever stands
/// before it.
pub proof fn lemma_untrusted_hop(
    networks: Seq<IpNetwork>,
    peer: IpAddress,
    claimed: Seq<IpAddress>,
    k: int,
)
    requires
        trusted_by(networks, peer),
        0 <= k < claimed.len(),
        !trusted_by(networks, claimed[k]),
        forall|j: int| k < j < claimed.len() ==> trusted_by(networks, #[trigger] claimed[j]),
    ensures
        resolved(networks, Some(peer), claimed) == Some(claimed[k]),
{
    let hops = claimed.push(peer);
    assert forall|j: int| k < j < hops.len() implies trusted_by(networks, #[trigger] hops[j]) by {
        if j < claimed.len() {
            assert(hops[j] == claimed[j]);
        }
    }
    assert(hops[k] == claimed[k]);
    lemma_walk_stops(networks, hops, hops.len() as int, k);
}

/// A trusted peer for which nothing is claimed is itself the client.
pub proof fn lemma_trusted_peer_alone(networks: Seq<IpNetwork>, peer: IpAddress)
    requires
        trusted_by(networks, peer),
    ensures
        resolved(networks, Some(peer), Seq::<IpAddress>::empty()) == Some(peer),
{
    let hops = Seq::<IpAddress>::empty().push(peer);
    assert(walk(networks, hops, 0) == hops[0]);
}

/// Without a peer address there is no client address, whatever is claimed.
pub proof fn lemma_no_peer(networks: Seq<IpNetwork>, claimed: Seq<IpAddress>)
    ensures
        resolved(networks, None, claimed) is None,
{
}

} // verus!
