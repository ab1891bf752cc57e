use vstd::prelude::*;

use crate::error::ApiError;
use crate::models::{contains_block_id, copy_vec, Address, BlockId, OperationId, Slot};

verus! {

/// A maximal clique of the block graph, as exported by the consensus
/// authority.  At most one clique of an export may be marked as the
/// blockclique.
pub struct Clique {
    pub block_ids: Vec<BlockId>,
    pub fitness: u64,
    pub is_blockclique: bool,
}

/// The header data of a block that the projections read.
pub struct BlockHeaderInfo {
    pub slot: Slot,
    pub creator: Address,
    pub parents: Vec<BlockId>,
}

/// A full block: header plus the identities of the operations it contains.
pub struct Block {
    pub header: BlockHeaderInfo,
    pub operations: Vec<OperationId>,
}

/// Why the consensus authority discarded a block.
#[derive(Clone, Copy, PartialEq, Eq, Structural, Debug)]
pub enum DiscardReason {
    Invalid,
    Stale,
    Final,
}

/// The export status of one block.
pub enum BlockExportStatus {
    Incoming,
    WaitingForSlot,
    WaitingForDependencies,
    Active(Block),
    Discarded(DiscardReason),
    Final(Block),
}

/// Full detail for one requested block.  `content` is absent when the block
/// is not currently resolvable; the requested identity is always echoed.
pub struct BlockInfo {
    pub id: BlockId,
    pub content: Option<BlockInfoContent>,
}

/// The resolved content of a block answer.
pub struct BlockInfoContent {
    pub is_final: bool,
    pub is_stale: bool,
    pub is_in_blockclique: bool,
    pub block: Block,
}

/// `i` points at the one clique marked as blockclique.
pub open spec fn is_unique_blockclique_at(cliques: Seq<Clique>, i: int) -> bool {
    &&& 0 <= i < cliques.len()
    &&& cliques[i].is_blockclique
    &&& forall|j: int| 0 <= j < cliques.len() && j != i ==> !cliques[j].is_blockclique
}

/// The export designates exactly one blockclique.
pub open spec fn has_unique_blockclique(cliques: Seq<Clique>) -> bool {
    exists|i: int| is_unique_blockclique_at(cliques, i)
}

/// Locates the unique blockclique of a clique export.  The aggregation
/// relies on there being exactly one: none, or more than one, is a
/// consistency failure of the collaborator, fatal to the request.
pub fn find_blockclique(cliques: &Vec<Clique>) -> (r: Result<usize, ApiError>)
    ensures
        r is Ok <==> has_unique_blockclique(cliques@),
        match r {
            Ok(i) => is_unique_blockclique_at(cliques@, i as int),
            Err(e) => e == ApiError::InconsistencyError,
        },
{
    let mut found: Option<usize> = None;
    let mut i: usize = 0;
    while i < cliques.len()
        invariant
            i <= cliques@.len(),
            match found {
                Some(j) => 0 <= j < i && cliques@[j as int].is_blockclique && (forall|k: int|
                    0 <= k < i && k != j ==> !cliques@[k].is_blockclique),
                None => forall|k: int| 0 <= k < i ==> !cliques@[k].is_blockclique,
            },
        decreases cliques.len() - i,
    {
        if cliques[i].is_blockclique {
            match found {
                Some(j) => {
                    proof {
                        assert forall|w: int| !is_unique_blockclique_at(cliques@, w) by {
                            if is_unique_blockclique_at(cliques@, w) {
                                if w != j as int {
                                    assert(!cliques@[j as int].is_blockclique);
                                } else {
                                    assert(!cliques@[i as int].is_blockclique);
                                }
                            }
                        }
                    }
                    return Err(ApiError::InconsistencyError);
                },
                None => {
                    found = Some(i);
                },
            }
        }
        i += 1;
    }
    match found {
        Some(j) => {
            proof {
                assert(is_unique_blockclique_at(cliques@, j as int));
            }
            Ok(j)
        },
        None => {
            proof {
                assert forall|w: int| !is_unique_blockclique_at(cliques@, w) by {}
            }
            Err(ApiError::InconsistencyError)
        },
    }
}

/// Classifies one block against the clique export and its export status:
/// an active block is resolved as not final, a final block as final; any
/// other status (pending, discarded, unknown) yields empty content with the
/// identity echoed.  Fails when the clique export designates no unique
/// blockclique.
pub fn block_info(id: BlockId, cliques: &Vec<Clique>, status: Option<BlockExportStatus>) -> (r:
    Result<BlockInfo, ApiError>)
    ensures
        r is Ok <==> has_unique_blockclique(cliques@),
        r is Err ==> r == Err::<BlockInfo, ApiError>(ApiError::InconsistencyError),
        match r {
            Ok(b) => {
                &&& b.id == id
                &&& match status {
                    Some(BlockExportStatus::Active(blk)) => match b.content {
                        Some(c) => {
                            &&& !c.is_final
                            &&& !c.is_stale
                            &&& c.block == blk
                            &&& forall|i: int|
                                is_unique_blockclique_at(cliques@, i)
                                    ==> c.is_in_blockclique == cliques@[i].block_ids@.contains(id)
                        },
                        None => false,
                    },
                    Some(BlockExportStatus::Final(blk)) => match b.content {
                        Some(c) => {
                            &&& c.is_final
                            &&& !c.is_stale
                            &&& c.block == blk
                            &&& forall|i: int|
                                is_unique_blockclique_at(cliques@, i)
                                    ==> c.is_in_blockclique == cliques@[i].block_ids@.contains(id)
                        },
                        None => false,
                    },
                    _ => b.content is None,
                }
            },
            Err(_) => true,
        },
{
    let ci = match find_blockclique(cliques) {
        Ok(ci) => ci,
        Err(e) => {
            return Err(e);
        },
    };
    let in_blockclique = contains_block_id(&cliques[ci].block_ids, id);
    match status {
        Some(BlockExportStatus::Active(blk)) => Ok(
            BlockInfo {
                id,
                content: Some(
                    BlockInfoContent {
                        is_final: false,
                        is_stale: false,
                        is_in_blockclique: in_blockclique,
                        block: blk,
                    },
                ),
            },
        ),
        Some(BlockExportStatus::Final(blk)) => Ok(
            BlockInfo {
                id,
                content: Some(
                    BlockInfoContent {
                        is_final: true,
                        is_stale: false,
                        is_in_blockclique: in_blockclique,
                        block: blk,
                    },
                ),
            },
        ),
        _ => Ok(BlockInfo { id, content: None }),
    }
}

/// One block of the graph-interval answer.
pub struct BlockSummary {
    pub id: BlockId,
    pub is_final: bool,
    pub is_stale: bool,
    pub is_in_blockclique: bool,
    pub slot: Slot,
    pub creator: Address,
    pub parents: Vec<BlockId>,
}

/// Mathematical model of a block summary.
pub ghost struct BlockSummaryModel {
    pub id: BlockId,
    pub is_final: bool,
    pub is_stale: bool,
    pub is_in_blockclique: bool,
    pub slot: Slot,
    pub creator: Address,
    pub parents: Seq<BlockId>,
}

impl View for BlockSummary {
    type V = BlockSummaryModel;

    open spec fn view(&self) -> BlockSummaryModel {
        BlockSummaryModel {
            id: self.id,
            is_final: self.is_final,
            is_stale: self.is_stale,
            is_in_blockclique: self.is_in_blockclique,
            slot: self.slot,
            creator: self.creator,
            parents: self.parents@,
        }
    }
}

/// An active block of a bounded graph export.
pub struct ExportCompiledBlock {
    pub header: BlockHeaderInfo,
    pub is_final: bool,
}

/// A bounded export of the block graph over a slot window.
pub struct GraphExport {
    pub active_blocks: Vec<(BlockId, ExportCompiledBlock)>,
    pub discarded_blocks: Vec<(BlockId, (DiscardReason, BlockHeaderInfo))>,
    pub max_cliques: Vec<Clique>,
}

/// The summary owed for one active block: tagged against the blockclique,
/// never stale.
pub open spec fn active_summary(
    entry: (BlockId, ExportCompiledBlock),
    clique_ids: Seq<BlockId>,
) -> BlockSummaryModel {
    BlockSummaryModel {
        id: entry.0,
        is_final: entry.1.is_final,
        is_stale: false,
        is_in_blockclique: clique_ids.contains(entry.0),
        slot: entry.1.header.slot,
        creator: entry.1.header.creator,
        parents: entry.1.header.parents@,
    }
}

/// The summaries owed for the active blocks, in export order.
pub open spec fn active_summaries(
    s: Seq<(BlockId, ExportCompiledBlock)>,
    clique_ids: Seq<BlockId>,
) -> Seq<BlockSummaryModel>
    decreases s.len(),
{
    if s.len() == 0 {
        Seq::empty()
    } else {
        active_summaries(s.drop_last(), clique_ids).push(active_summary(s.last(), clique_ids))
    }
}

/// The summary owed for one stale-discarded block: stale, not final, not in
/// the blockclique.
pub open spec fn stale_summary(
    entry: (BlockId, (DiscardReason, BlockHeaderInfo)),
) -> BlockSummaryModel {
    BlockSummaryModel {
        id: entry.0,
        is_final: false,
        is_stale: true,
        is_in_blockclique: false,
        slot: entry.1.1.slot,
        creator: entry.1.1.creator,
        parents: entry.1.1.parents@,
    }
}

/// The summaries owed for the discarded blocks: exactly those discarded as
/// stale, in export order; other discard reasons are excluded.
pub open spec fn stale_summaries(
    s: Seq<(BlockId, (DiscardReason, BlockHeaderInfo))>,
) -> Seq<BlockSummaryModel>
    decreases s.len(),
{
    if s.len() == 0 {
        Seq::empty()
    } else {
        let prefix = stale_summaries(s.drop_last());
        if s.last().1.0 == DiscardReason::Stale {
            prefix.push(stale_summary(s.last()))
        } else {
            prefix
        }
    }
}

/// Projects a bounded graph export into block summaries: every active block
/// first, then every stale-discarded block, both in export order.  Fails
/// when the export designates no unique blockclique.
#[verifier::loop_isolation(false)]
pub fn graph_interval_summaries(graph: &GraphExport) -> (r: Result<Vec<BlockSummary>, ApiError>)
    ensures
        r is Ok <==> has_unique_blockclique(graph.max_cliques@),
        r is Err ==> r == Err::<Vec<BlockSummary>, ApiError>(ApiError::InconsistencyError),
        match r {
            Ok(res) => forall|i: int|
                is_unique_blockclique_at(graph.max_cliques@, i) ==> res@.map_values(
                    |b: BlockSummary| b@,
                ) == active_summaries(
                    graph.active_blocks@,
                    graph.max_cliques@[i].block_ids@,
                ) + stale_summaries(graph.discarded_blocks@),
            Err(_) => true,
        },
{
    let ci = match find_blockclique(&graph.max_cliques) {
        Ok(ci) => ci,
        Err(e) => {
            return Err(e);
        },
    };
    let ghost view_of = |b: BlockSummary| b@;
    let ghost clique_ids = graph.max_cliques@[ci as int].block_ids@;
    let mut res: Vec<BlockSummary> = Vec::new();
    let mut i: usize = 0;
    while i < graph.active_blocks.len()
        invariant
            i <= graph.active_blocks@.len(),
            res@.map_values(view_of) == active_summaries(
                graph.active_blocks@.take(i as int),
                clique_ids,
            ),
        decreases graph.active_blocks.len() - i,
    {
        let entry = &graph.active_blocks[i];
        let in_blockclique = contains_block_id(&graph.max_cliques[ci].block_ids, entry.0);
        let s = BlockSummary {
            id: entry.0,
            is_final: entry.1.is_final,
            is_stale: false,
            is_in_blockclique: in_blockclique,
            slot: entry.1.header.slot,
            creator: entry.1.header.creator,
            parents: copy_vec(&entry.1.header.parents),
        };
        proof {
            let pre = graph.active_blocks@.take(i as int);
            let post = graph.active_blocks@.take(i as int + 1);
            assert(post.drop_last() =~= pre);
            assert(post.last() == graph.active_blocks@[i as int]);
            assert(s@ == active_summary(graph.active_blocks@[i as int], clique_ids));
            let lhs = res@.push(s).map_values(view_of);
            let rhs = res@.map_values(view_of).push(s@);
            assert forall|k: int| 0 <= k < lhs.len() implies lhs[k] == rhs[k] by {
                if k < res@.len() {
                    assert(res@.push(s)[k] == res@[k]);
                } else {
                    assert(res@.push(s)[k] == s);
                }
            }
            assert(lhs =~= rhs);
        }
        res.push(s);
        i += 1;
    }
    proof {
        assert(graph.active_blocks@.take(graph.active_blocks@.len() as int)
            =~= graph.active_blocks@);
    }
    let ghost actives = active_summaries(graph.active_blocks@, clique_ids);
    let mut j: usize = 0;
    while j < graph.discarded_blocks.len()
        invariant
            j <= graph.discarded_blocks@.len(),
            res@.map_values(view_of) == actives + stale_summaries(
                graph.discarded_blocks@.take(j as int),
            ),
        decreases graph.discarded_blocks.len() - j,
    {
        let entry = &graph.discarded_blocks[j];
        proof {
            let pre = graph.discarded_blocks@.take(j as int);
            let post = graph.discarded_blocks@.take(j as int + 1);
            assert(post.drop_last() =~= pre);
            assert(post.last() == graph.discarded_blocks@[j as int]);
        }
        if entry.1.0 == DiscardReason::Stale {
            let s = BlockSummary {
                id: entry.0,
                is_final: false,
                is_stale: true,
                is_in_blockclique: false,
                slot: entry.1.1.slot,
                creator: entry.1.1.creator,
                parents: copy_vec(&entry.1.1.parents),
            };
            proof {
                let pre = graph.discarded_blocks@.take(j as int);
                let post = graph.discarded_blocks@.take(j as int + 1);
                assert(s@ == stale_summary(graph.discarded_blocks@[j as int]));
                let lhs = res@.push(s).map_values(view_of);
                let rhs = res@.map_values(view_of).push(s@);
                assert forall|k: int| 0 <= k < lhs.len() implies lhs[k] == rhs[k] by {
                    if k < res@.len() {
                        assert(res@.push(s)[k] == res@[k]);
                    } else {
                        assert(res@.push(s)[k] == s);
                    }
                }
                assert(lhs =~= rhs);
                assert(actives + stale_summaries(post) =~= (actives + stale_summaries(pre)).push(
                    s@,
                ));
            }
            res.push(s);
        }
        j += 1;
    }
    proof {
        assert(graph.discarded_blocks@.take(graph.discarded_blocks@.len() as int)
            =~= graph.discarded_blocks@);
    }
    Ok(res)
}

} // verus!
