use massa_api::models::{Address, ApiConfig, NodeId, Slot, Version};
use massa_api::status::{
    assemble_status, flatten_peers, sort_stakers, ConsensusStats, NetworkStats, Peer, PoolStats,
};

fn cfg() -> ApiConfig {
    ApiConfig {
        thread_count: 2,
        t0: 1000,
        genesis_timestamp: 10_000,
        periods_per_cycle: 64,
        max_arguments: 128,
        draw_lookahead_period_count: 10,
    }
}

fn stats() -> (ConsensusStats, NetworkStats, PoolStats) {
    (
        ConsensusStats {
            start_timespan: 1,
            end_timespan: 2,
            final_block_count: 3,
            stale_block_count: 4,
            clique_count: 5,
        },
        NetworkStats {
            in_connection_count: 6,
            out_connection_count: 7,
            known_peer_count: 8,
            banned_peer_count: 0,
            active_node_count: 9,
        },
        PoolStats {
            operation_count: 10,
            endorsement_count: 11,
        },
    )
}

#[test]
fn snapshot_carries_clock_and_statistics() {
    let (c, n, p) = stats();
    let peers = vec![
        Peer {
            ip: 100,
            active_nodes: vec![(NodeId(1), true), (NodeId(2), false)],
        },
        Peer {
            ip: 200,
            active_nodes: vec![(NodeId(3), true)],
        },
    ];
    let st = assemble_status(
        &cfg(),
        141_000,
        NodeId(9),
        Some(100),
        Version(4),
        c,
        n,
        p,
        &peers,
    )
    .unwrap();
    assert_eq!(st.node_id, NodeId(9));
    assert_eq!(st.current_time, 141_000);
    // 131 full periods past genesis
    assert_eq!(st.last_slot, Some(Slot { period: 131, thread: 0 }));
    assert_eq!(st.next_slot, Slot { period: 131, thread: 1 });
    assert_eq!(st.current_cycle, 2);
    assert_eq!(st.pool_stats.operation_count, 10);
    assert_eq!(
        st.connected_nodes,
        vec![
            (NodeId(1), (100, true)),
            (NodeId(2), (100, false)),
            (NodeId(3), (200, true)),
        ]
    );
}

#[test]
fn snapshot_before_genesis_has_no_last_slot() {
    let (c, n, p) = stats();
    let st = assemble_status(&cfg(), 5, NodeId(1), None, Version(1), c, n, p, &vec![]).unwrap();
    assert_eq!(st.last_slot, None);
    // the next slot follows the zero slot
    assert_eq!(st.next_slot, Slot { period: 0, thread: 1 });
    assert_eq!(st.current_cycle, 0);
}

#[test]
fn peer_table_flattens_in_registry_order() {
    let peers = vec![Peer {
        ip: 7,
        active_nodes: vec![(NodeId(4), false)],
    }];
    assert_eq!(flatten_peers(&peers), vec![(NodeId(4), (7, false))]);
}

#[test]
fn stakers_sort_ascending_by_roll_count() {
    let rolls = vec![
        (Address(1), 30),
        (Address(2), 10),
        (Address(3), 20),
        (Address(4), 10),
    ];
    let sorted = sort_stakers(&rolls);
    assert_eq!(sorted.len(), 4);
    let counts: Vec<u64> = sorted.iter().map(|p| p.1).collect();
    assert_eq!(counts, vec![10, 10, 20, 30]);
    assert!(sorted.contains(&(Address(1), 30)));
    assert!(sorted.contains(&(Address(2), 10)));
    assert!(sorted.contains(&(Address(3), 20)));
    assert!(sorted.contains(&(Address(4), 10)));
}
