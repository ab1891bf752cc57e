use vstd::prelude::*;

use crate::error::ApiError;
use crate::models::{Address, ApiConfig, NodeId, Slot, Version};
use crate::timeslots::{
    latest_base_slot, latest_slot_at_timestamp, next_slot, slot_cycle, slot_le, slot_timestamp,
    slot_valid,
};

verus! {

broadcast use vstd::seq_lib::to_multiset_build, vstd::seq_lib::to_multiset_insert;

/// Consensus-side statistics echoed by the status endpoint.
#[derive(Clone, Copy, PartialEq, Eq, Structural, Debug)]
pub struct ConsensusStats {
    pub start_timespan: u64,
    pub end_timespan: u64,
    pub final_block_count: u64,
    pub stale_block_count: u64,
    pub clique_count: u64,
}

/// Network-side statistics echoed by the status endpoint.
#[derive(Clone, Copy, PartialEq, Eq, Structural, Debug)]
pub struct NetworkStats {
    pub in_connection_count: u64,
    pub out_connection_count: u64,
    pub known_peer_count: u64,
    pub banned_peer_count: u64,
    pub active_node_count: u64,
}

/// Pool-side statistics echoed by the status endpoint.
#[derive(Clone, Copy, PartialEq, Eq, Structural, Debug)]
pub struct PoolStats {
    pub operation_count: u64,
    pub endorsement_count: u64,
}

/// One entry of the peer registry: a routable address and the node
/// identities currently connected through it, each with its connection
/// direction (`true` for outgoing).
pub struct Peer {
    pub ip: u64,
    pub active_nodes: Vec<(NodeId, bool)>,
}

/// The connected-node entries contributed by one peer: each of its active
/// nodes, keyed by node identity and carrying the peer's address and the
/// connection direction.
pub open spec fn peer_nodes(p: Peer) -> Seq<(NodeId, (u64, bool))> {
    p.active_nodes@.map_values(|n: (NodeId, bool)| (n.0, (p.ip, n.1)))
}

/// The full connected-node table: every peer's entries, in registry order.
pub open spec fn connected_nodes_of(peers: Seq<Peer>) -> Seq<(NodeId, (u64, bool))>
    decreases peers.len(),
{
    if peers.len() == 0 {
        Seq::empty()
    } else {
        connected_nodes_of(peers.drop_last()) + peer_nodes(peers.last())
    }
}

/// Flattens the peer registry into the connected-node table.
#[verifier::loop_isolation(false)]
pub fn flatten_peers(peers: &Vec<Peer>) -> (r: Vec<(NodeId, (u64, bool))>)
    ensures
        r@ == connected_nodes_of(peers@),
{
    let mut r: Vec<(NodeId, (u64, bool))> = Vec::new();
    let mut i: usize = 0;
    while i < peers.len()
        invariant
            i <= peers@.len(),
            r@ == connected_nodes_of(peers@.take(i as int)),
        decreases peers.len() - i,
    {
        let ghost pre = peers@.take(i as int);
        let ghost post = peers@.take(i as int + 1);
        proof {
            assert(post.drop_last() =~= pre);
            assert(post.last() == peers@[i as int]);
        }
        let p = &peers[i];
        let mut j: usize = 0;
        while j < p.active_nodes.len()
            invariant
                j <= p.active_nodes@.len(),
                r@ == connected_nodes_of(pre) + peer_nodes(peers@[i as int]).take(j as int),
            decreases p.active_nodes.len() - j,
        {
            let n = p.active_nodes[j];
            r.push((n.0, (p.ip, n.1)));
            proof {
                let nodes = peer_nodes(peers@[i as int]);
                assert(nodes[j as int] == (n.0, (p.ip, n.1)));
                assert(nodes.take(j as int + 1) =~= nodes.take(j as int).push(
                    (n.0, (p.ip, n.1)),
                ));
                assert(r@ =~= connected_nodes_of(pre) + nodes.take(j as int + 1));
            }
            j += 1;
        }
        proof {
            let nodes = peer_nodes(peers@[i as int]);
            assert(nodes.take(nodes.len() as int) =~= nodes);
        }
        i += 1;
    }
    proof {
        assert(peers@.take(peers@.len() as int) =~= peers@);
    }
    r
}

/// A point-in-time snapshot of the node, assembled fresh for every request
/// and never cached.
pub struct NodeStatus {
    pub node_id: NodeId,
    pub node_ip: Option<u64>,
    pub version: Version,
    pub current_time: u64,
    pub connected_nodes: Vec<(NodeId, (u64, bool))>,
    pub last_slot: Option<Slot>,
    pub next_slot: Slot,
    pub consensus_stats: ConsensusStats,
    pub network_stats: NetworkStats,
    pub pool_stats: PoolStats,
    pub config: ApiConfig,
    pub current_cycle: u64,
}

/// Assembles the status snapshot from the statistics the collaborators
/// reported, the peer registry, and the compensated wall-clock reading
/// `now`.  The last slot, next slot and current cycle come from the clock;
/// the cycle and next slot are taken at the zero slot while the clock still
/// stands before genesis.  Fails only when the next slot would leave the
/// representable period range.
pub fn assemble_status(
    cfg: &ApiConfig,
    now: u64,
    node_id: NodeId,
    node_ip: Option<u64>,
    version: Version,
    consensus_stats: ConsensusStats,
    network_stats: NetworkStats,
    pool_stats: PoolStats,
    peers: &Vec<Peer>,
) -> (r: Result<NodeStatus, ApiError>)
    requires
        cfg.wf(),
    ensures
        ({
            let base = latest_base_slot(*cfg, now);
            &&& (r is Ok <==> !(base.thread as int + 1 >= cfg.thread_count as int
                && base.period == u64::MAX))
            &&& (r is Err ==> r == Err::<NodeStatus, ApiError>(ApiError::TimeOverflow))
            &&& match r {
                Ok(st) => {
                    &&& st.node_id == node_id
                    &&& st.node_ip == node_ip
                    &&& st.version == version
                    &&& st.current_time == now
                    &&& st.consensus_stats == consensus_stats
                    &&& st.network_stats == network_stats
                    &&& st.pool_stats == pool_stats
                    &&& st.config == *cfg
                    &&& st.connected_nodes@ == connected_nodes_of(peers@)
                    &&& st.last_slot == (if (now as int) < cfg.genesis_timestamp as int {
                        Option::<Slot>::None
                    } else {
                        Option::<Slot>::Some(base)
                    })
                    &&& match st.last_slot {
                        Some(s) => slot_valid(*cfg, s) && slot_timestamp(*cfg, s) <= now as int
                            && forall|s2: Slot|
                            slot_valid(*cfg, s2) && slot_timestamp(*cfg, s2) <= now as int
                                ==> slot_le(s2, s),
                        None => true,
                    }
                    &&& st.next_slot == (if base.thread as int + 1 < cfg.thread_count as int {
                        Slot { period: base.period, thread: (base.thread + 1) as u8 }
                    } else {
                        Slot { period: (base.period + 1) as u64, thread: 0 }
                    })
                    &&& st.current_cycle == base.period as int / cfg.periods_per_cycle as int
                },
                Err(_) => true,
            }
        }),
{
    let last_slot = latest_slot_at_timestamp(cfg, now);
    let base = match last_slot {
        Some(s) => s,
        None => Slot { period: 0, thread: 0 },
    };
    let nxt = match next_slot(cfg, base) {
        Ok(s) => s,
        Err(e) => {
            return Err(e);
        },
    };
    let cycle = slot_cycle(cfg, base);
    let connected_nodes = flatten_peers(peers);
    Ok(
        NodeStatus {
            node_id,
            node_ip,
            version,
            current_time: now,
            connected_nodes,
            last_slot,
            next_slot: nxt,
            consensus_stats,
            network_stats,
            pool_stats,
            config: *cfg,
            current_cycle: cycle,
        },
    )
}

/// Sorts the cycle's staker roll counts ascending by roll count.  The
/// result holds exactly the input entries.
#[verifier::loop_isolation(false)]
pub fn sort_stakers(rolls: &Vec<(Address, u64)>) -> (r: Vec<(Address, u64)>)
    ensures
        r@.to_multiset() == rolls@.to_multiset(),
        r@.len() == rolls@.len(),
        forall|i: int, j: int| 0 <= i < j < r@.len() ==> r@[i].1 <= r@[j].1,
{
    let mut r: Vec<(Address, u64)> = Vec::new();
    let mut i: usize = 0;
    proof {
        assert(rolls@.take(0) =~= Seq::<(Address, u64)>::empty());
        assert(r@ =~= Seq::<(Address, u64)>::empty());
    }
    while i < rolls.len()
        invariant
            i <= rolls@.len(),
            r@.len() == i,
            r@.to_multiset() == rolls@.take(i as int).to_multiset(),
            forall|a: int, b: int| 0 <= a < b < r@.len() ==> r@[a].1 <= r@[b].1,
        decreases rolls.len() - i,
    {
        let e = rolls[i];
        let mut p: usize = 0;
        while p < r.len() && r[p].1 <= e.1
            invariant
                p <= r@.len(),
                forall|k: int| 0 <= k < p ==> r@[k].1 <= e.1,
            decreases r.len() - p,
        {
            p += 1;
        }
        let ghost r0 = r@;
        r.insert(p, e);
        proof {
            r0.insert_ensures(p as int, e);
            assert(r@.to_multiset() == r0.to_multiset().insert(e));
            assert(rolls@.take(i as int + 1) =~= rolls@.take(i as int).push(e));
            assert(rolls@.take(i as int).push(e).to_multiset() == rolls@.take(
                i as int,
            ).to_multiset().insert(e));
            assert forall|a: int, b: int| 0 <= a < b < r@.len() implies r@[a].1 <= r@[b].1 by {
                if b < p as int {
                    assert(r@[a] == r0[a]);
                    assert(r@[b] == r0[b]);
                } else if b == p as int {
                    assert(r@[a] == r0[a]);
                    assert(r@[b] == e);
                } else {
                    assert(r@[b] == r0[b - 1]);
                    if a < p as int {
                        assert(r@[a] == r0[a]);
                    } else if a == p as int {
                        assert(r@[a] == e);
                        assert((p as int) < r0.len());
                        assert(r0[p as int].1 > e.1);
                        assert(r0[p as int].1 <= r0[b - 1].1);
                    } else {
                        assert(r@[a] == r0[a - 1]);
                    }
                }
            }
        }
        i += 1;
    }
    proof {
        assert(rolls@.take(rolls@.len() as int) =~= rolls@);
    }
    r
}

} // verus!
