use massa_api::error::ApiError;
use massa_api::graph::{
    block_info, find_blockclique, graph_interval_summaries, Block, BlockExportStatus,
    BlockHeaderInfo, Clique, DiscardReason, ExportCompiledBlock, GraphExport,
};
use massa_api::models::{Address, BlockId, Slot};

fn clique(ids: Vec<BlockId>, is_blockclique: bool) -> Clique {
    Clique {
        block_ids: ids,
        fitness: 1,
        is_blockclique,
    }
}

fn block_at(period: u64) -> Block {
    Block {
        header: BlockHeaderInfo {
            slot: Slot { period, thread: 0 },
            creator: Address(9),
            parents: vec![BlockId(100)],
        },
        operations: vec![],
    }
}

#[test]
fn two_blockcliques_are_inconsistent() {
    let cliques = vec![
        clique(vec![BlockId(1)], true),
        clique(vec![BlockId(2)], true),
    ];
    assert_eq!(
        find_blockclique(&cliques),
        Err(ApiError::InconsistencyError)
    );
    let r = block_info(BlockId(1), &cliques, Some(BlockExportStatus::Active(block_at(1))));
    assert!(matches!(r, Err(ApiError::InconsistencyError)));
}

#[test]
fn missing_blockclique_is_inconsistent() {
    let cliques = vec![clique(vec![BlockId(1)], false)];
    assert_eq!(
        find_blockclique(&cliques),
        Err(ApiError::InconsistencyError)
    );
}

#[test]
fn unique_blockclique_is_found() {
    let cliques = vec![
        clique(vec![BlockId(1)], false),
        clique(vec![BlockId(2)], true),
    ];
    assert_eq!(find_blockclique(&cliques), Ok(1));
}

#[test]
fn pending_block_echoes_identity_with_empty_content() {
    let cliques = vec![clique(vec![BlockId(1)], true)];
    for status in [
        Some(BlockExportStatus::Incoming),
        Some(BlockExportStatus::WaitingForSlot),
        Some(BlockExportStatus::WaitingForDependencies),
        Some(BlockExportStatus::Discarded(DiscardReason::Stale)),
        None,
    ] {
        let info = block_info(BlockId(7), &cliques, status).unwrap();
        assert_eq!(info.id, BlockId(7));
        assert!(info.content.is_none());
    }
}

#[test]
fn active_block_is_not_final_and_tagged_against_blockclique() {
    let cliques = vec![clique(vec![BlockId(7)], true)];
    let info = block_info(BlockId(7), &cliques, Some(BlockExportStatus::Active(block_at(3))))
        .unwrap();
    let content = info.content.unwrap();
    assert!(!content.is_final);
    assert!(!content.is_stale);
    assert!(content.is_in_blockclique);
    assert_eq!(content.block.header.slot, Slot { period: 3, thread: 0 });
}

#[test]
fn final_block_is_final() {
    let cliques = vec![clique(vec![BlockId(1)], true)];
    let info = block_info(BlockId(7), &cliques, Some(BlockExportStatus::Final(block_at(4))))
        .unwrap();
    let content = info.content.unwrap();
    assert!(content.is_final);
    assert!(!content.is_in_blockclique);
}

#[test]
fn graph_interval_projects_active_and_stale_blocks() {
    // one final block, one active block in the blockclique, one
    // stale-discarded block, and one invalid-discarded block (excluded)
    let header = |p: u64| BlockHeaderInfo {
        slot: Slot { period: p, thread: 0 },
        creator: Address(1),
        parents: vec![],
    };
    let graph = GraphExport {
        active_blocks: vec![
            (
                BlockId(1),
                ExportCompiledBlock {
                    header: header(1),
                    is_final: true,
                },
            ),
            (
                BlockId(2),
                ExportCompiledBlock {
                    header: header(2),
                    is_final: false,
                },
            ),
        ],
        discarded_blocks: vec![
            (BlockId(3), (DiscardReason::Stale, header(3))),
            (BlockId(4), (DiscardReason::Invalid, header(4))),
        ],
        max_cliques: vec![clique(vec![BlockId(2)], true)],
    };
    let res = graph_interval_summaries(&graph).unwrap();
    assert_eq!(res.len(), 3);
    assert_eq!(res[0].id, BlockId(1));
    assert!(res[0].is_final && !res[0].is_stale && !res[0].is_in_blockclique);
    assert_eq!(res[1].id, BlockId(2));
    assert!(!res[1].is_final && !res[1].is_stale && res[1].is_in_blockclique);
    assert_eq!(res[2].id, BlockId(3));
    assert!(!res[2].is_final && res[2].is_stale && !res[2].is_in_blockclique);
}

#[test]
fn graph_interval_without_blockclique_fails() {
    let graph = GraphExport {
        active_blocks: vec![],
        discarded_blocks: vec![],
        max_cliques: vec![clique(vec![], false)],
    };
    assert!(matches!(
        graph_interval_summaries(&graph),
        Err(ApiError::InconsistencyError)
    ));
}
