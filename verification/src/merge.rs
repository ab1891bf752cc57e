use vstd::prelude::*;

use crate::models::{
    copy_vec, lemma_lookup_absent, lemma_lookup_first_match, lookup, BlockId, EndorsementId,
    OperationId,
};

verus! {

/// What the consensus authority reports about one operation: its payload,
/// whether consensus also sees it pending, and the blocks containing it
/// together with each block's finality.
pub struct ConsensusOperationRecord {
    pub operation: Vec<u8>,
    pub in_pool: bool,
    pub in_blocks: Vec<(BlockId, bool)>,
}

/// The merged, caller-facing view of one operation.
pub struct OperationInfo {
    pub id: OperationId,
    pub operation: Vec<u8>,
    pub in_pool: bool,
    pub in_blocks: Vec<BlockId>,
    pub is_final: bool,
}

/// Mathematical model of a merged operation record: block membership is a
/// set, since the merge accumulates it without regard to order.
pub ghost struct OperationInfoModel {
    pub id: OperationId,
    pub operation: Seq<u8>,
    pub in_pool: bool,
    pub in_blocks: Set<BlockId>,
    pub is_final: bool,
}

impl View for OperationInfo {
    type V = OperationInfoModel;

    open spec fn view(&self) -> OperationInfoModel {
        OperationInfoModel {
            id: self.id,
            operation: self.operation@,
            in_pool: self.in_pool,
            in_blocks: self.in_blocks@.to_set(),
            is_final: self.is_final,
        }
    }
}

/// The record contributed by a pool sighting alone: pending, in no block,
/// not final.
pub open spec fn pool_operation_model(id: OperationId, payload: Seq<u8>) -> OperationInfoModel {
    OperationInfoModel {
        id,
        operation: payload,
        in_pool: true,
        in_blocks: Set::empty(),
        is_final: false,
    }
}

/// The block-identity set of a consensus report.
pub open spec fn report_blocks(b: Seq<(BlockId, bool)>) -> Set<BlockId> {
    b.map_values(|p: (BlockId, bool)| p.0).to_set()
}

/// A consensus report makes a record final iff some containing block is
/// final.
pub open spec fn report_any_final(b: Seq<(BlockId, bool)>) -> bool {
    exists|i: int| 0 <= i < b.len() && b[i].1
}

/// The record contributed by a consensus report alone.
pub open spec fn consensus_operation_model(
    id: OperationId,
    rec: ConsensusOperationRecord,
) -> OperationInfoModel {
    OperationInfoModel {
        id,
        operation: rec.operation@,
        in_pool: rec.in_pool,
        in_blocks: report_blocks(rec.in_blocks@),
        is_final: report_any_final(rec.in_blocks@),
    }
}

/// The pure combine function for records of the same identity: OR the
/// booleans, union the block sets, keep the first record's payload.
pub open spec fn merge_operation_models(
    a: OperationInfoModel,
    b: OperationInfoModel,
) -> OperationInfoModel {
    OperationInfoModel {
        id: a.id,
        operation: a.operation,
        in_pool: a.in_pool || b.in_pool,
        in_blocks: a.in_blocks.union(b.in_blocks),
        is_final: a.is_final || b.is_final,
    }
}

/// Law: on records of one identity carrying one payload, the combine
/// function is commutative.
pub proof fn lemma_merge_commutative(a: OperationInfoModel, b: OperationInfoModel)
    requires
        a.id == b.id,
        a.operation == b.operation,
    ensures
        merge_operation_models(a, b) == merge_operation_models(b, a),
{
    assert(a.in_blocks.union(b.in_blocks) =~= b.in_blocks.union(a.in_blocks));
}

/// Law: the combine function is associative.
pub proof fn lemma_merge_associative(
    a: OperationInfoModel,
    b: OperationInfoModel,
    c: OperationInfoModel,
)
    ensures
        merge_operation_models(merge_operation_models(a, b), c) == merge_operation_models(
            a,
            merge_operation_models(b, c),
        ),
{
    assert(a.in_blocks.union(b.in_blocks).union(c.in_blocks) =~= a.in_blocks.union(
        b.in_blocks.union(c.in_blocks),
    ));
}

/// What the merge engine owes for one requested identity: a record combined
/// from the sources holding it, or nothing when neither source holds it.
pub open spec fn merged_operation_for(
    id: OperationId,
    pool: Seq<(OperationId, Vec<u8>)>,
    cons: Seq<(OperationId, ConsensusOperationRecord)>,
) -> Option<OperationInfoModel> {
    match (lookup(pool, id), lookup(cons, id)) {
        (Some(p), Some(c)) => Some(
            merge_operation_models(pool_operation_model(id, p@), consensus_operation_model(id, c)),
        ),
        (Some(p), None) => Some(pool_operation_model(id, p@)),
        (None, Some(c)) => Some(consensus_operation_model(id, c)),
        (None, None) => None,
    }
}

/// The full expected output: one merged record per requested identity, in
/// request order, each identity served at its first occurrence only, and
/// identities found in neither source omitted.
pub open spec fn operation_merge_projection(
    ids: Seq<OperationId>,
    pool: Seq<(OperationId, Vec<u8>)>,
    cons: Seq<(OperationId, ConsensusOperationRecord)>,
) -> Seq<OperationInfoModel>
    decreases ids.len(),
{
    if ids.len() == 0 {
        Seq::empty()
    } else {
        let prefix = operation_merge_projection(ids.drop_last(), pool, cons);
        if ids.drop_last().contains(ids.last()) {
            prefix
        } else {
            match merged_operation_for(ids.last(), pool, cons) {
                Some(m) => prefix.push(m),
                None => prefix,
            }
        }
    }
}

/// Finds the first entry of an operation-keyed association list.
fn find_operation<V>(s: &Vec<(OperationId, V)>, id: OperationId) -> (r: Option<usize>)
    ensures
        match r {
            Some(i) => 0 <= i < s@.len() && s@[i as int].0 == id && (forall|k: int|
                0 <= k < i ==> s@[k].0 != id),
            None => forall|k: int| 0 <= k < s@.len() ==> s@[k].0 != id,
        },
{
    let mut i: usize = 0;
    while i < s.len()
        invariant
            i <= s.len(),
            forall|k: int| 0 <= k < i ==> s@[k].0 != id,
        decreases s.len() - i,
    {
        if s[i].0 == id {
            return Some(i);
        }
        i += 1;
    }
    None
}

/// Whether `id` occurs among the first `n` requested identities.
fn requested_before(ids: &Vec<OperationId>, n: usize, id: OperationId) -> (r: bool)
    requires
        n <= ids@.len(),
    ensures
        r == ids@.take(n as int).contains(id),
{
    let mut i: usize = 0;
    while i < n
        invariant
            i <= n <= ids@.len(),
            forall|k: int| 0 <= k < i ==> ids@[k] != id,
        decreases n - i,
    {
        if ids[i] == id {
            assert(ids@.take(n as int)[i as int] == id);
            return true;
        }
        i += 1;
    }
    assert(forall|k: int| 0 <= k < n ==> ids@.take(n as int)[k] != id);
    false
}

/// Builds the caller-facing record for one consensus report: every
/// containing block is listed, and finality holds iff some containing block
/// is final.
#[verifier::loop_isolation(false)]
fn operation_from_report(id: OperationId, rec: &ConsensusOperationRecord) -> (r: OperationInfo)
    ensures
        r@ == consensus_operation_model(id, *rec),
{
    let ghost f = |p: (BlockId, bool)| p.0;
    let mut blocks: Vec<BlockId> = Vec::new();
    let mut is_final: bool = false;
    let mut i: usize = 0;
    while i < rec.in_blocks.len()
        invariant
            i <= rec.in_blocks@.len(),
            blocks@ == rec.in_blocks@.take(i as int).map_values(f),
            is_final == report_any_final(rec.in_blocks@.take(i as int)),
        decreases rec.in_blocks.len() - i,
    {
        let (b, fin) = rec.in_blocks[i];
        blocks.push(b);
        is_final = is_final || fin;
        proof {
            let pre = rec.in_blocks@.take(i as int);
            let post = rec.in_blocks@.take(i as int + 1);
            assert(post =~= pre.push(rec.in_blocks@[i as int]));
            assert(post.map_values(f) =~= pre.map_values(f).push(b));
            if fin {
                assert(post[i as int].1);
            }
            if report_any_final(post) && !fin {
                let w = choose|j: int| 0 <= j < post.len() && post[j].1;
                if w < i {
                    assert(pre[w].1);
                }
            }
        }
        i += 1;
    }
    proof {
        assert(rec.in_blocks@.take(rec.in_blocks@.len() as int) =~= rec.in_blocks@);
    }
    let r = OperationInfo { id, operation: copy_vec(&rec.operation), in_pool: rec.in_pool, in_blocks: blocks, is_final };
    proof {
        assert(r@.in_blocks =~= consensus_operation_model(id, *rec).in_blocks);
    }
    r
}

/// The dual-source merge for operations.  `pool` and `cons` are the two
/// sources' full answers over the requested identity set; the result lists
/// one merged record per requested identity in request order, serving each
/// identity at its first occurrence and omitting identities found in
/// neither source.
#[verifier::loop_isolation(false)]
pub fn merge_operations(
    ids: &Vec<OperationId>,
    pool: &Vec<(OperationId, Vec<u8>)>,
    cons: &Vec<(OperationId, ConsensusOperationRecord)>,
) -> (res: Vec<OperationInfo>)
    ensures
        res@.map_values(|r: OperationInfo| r@) == operation_merge_projection(ids@, pool@, cons@),
{
    let ghost view_of = |r: OperationInfo| r@;
    let mut res: Vec<OperationInfo> = Vec::new();
    let mut i: usize = 0;
    while i < ids.len()
        invariant
            i <= ids@.len(),
            res@.map_values(view_of) == operation_merge_projection(
                ids@.take(i as int),
                pool@,
                cons@,
            ),
        decreases ids.len() - i,
    {
        let id = ids[i];
        let ghost pre = ids@.take(i as int);
        let ghost post = ids@.take(i as int + 1);
        proof {
            assert(post.drop_last() =~= pre);
            assert(post.last() == ids@[i as int]);
        }
        if !requested_before(ids, i, id) {
            let found = match find_operation(cons, id) {
                Some(ci) => {
                    proof {
                        lemma_lookup_first_match(cons@, id, ci as int);
                    }
                    let mut r = operation_from_report(id, &cons[ci].1);
                    match find_operation(pool, id) {
                        Some(pi) => {
                            proof {
                                lemma_lookup_first_match(pool@, id, pi as int);
                            }
                            r.operation = copy_vec(&pool[pi].1);
                            r.in_pool = true;
                            proof {
                                let m = merged_operation_for(id, pool@, cons@)->Some_0;
                                assert(r@.in_blocks =~= m.in_blocks);
                            }
                        },
                        None => {
                            proof {
                                lemma_lookup_absent(pool@, id);
                            }
                        },
                    }
                    Some(r)
                },
                None => {
                    proof {
                        lemma_lookup_absent(cons@, id);
                    }
                    match find_operation(pool, id) {
                        Some(pi) => {
                            proof {
                                lemma_lookup_first_match(pool@, id, pi as int);
                            }
                            Some(
                                OperationInfo {
                                    id,
                                    operation: copy_vec(&pool[pi].1),
                                    in_pool: true,
                                    in_blocks: Vec::new(),
                                    is_final: false,
                                },
                            )
                        },
                        None => {
                            proof {
                                lemma_lookup_absent(pool@, id);
                            }
                            None
                        },
                    }
                },
            };
            match found {
                Some(r) => {
                    proof {
                        match merged_operation_for(id, pool@, cons@) {
                            Some(m) => {
                                assert(r@.in_blocks =~= m.in_blocks);
                                let lhs = res@.push(r).map_values(view_of);
                                let rhs = res@.map_values(view_of).push(r@);
                                assert forall|k: int| 0 <= k < lhs.len() implies lhs[k] == rhs[k] by {
                                    if k < res@.len() {
                                        assert(res@.push(r)[k] == res@[k]);
                                    } else {
                                        assert(res@.push(r)[k] == r);
                                    }
                                }
                                assert(lhs =~= rhs);
                            },
                            None => {
                                assert(false);
                            },
                        }
                    }
                    res.push(r);
                },
                None => {},
            }
        }
        i += 1;
    }
    proof {
        assert(ids@.take(ids@.len() as int) =~= ids@);
    }
    res
}

/// The merged, caller-facing view of one endorsement.
pub struct EndorsementInfo {
    pub id: EndorsementId,
    pub endorsement: Vec<u8>,
    pub in_pool: bool,
    pub in_blocks: Vec<BlockId>,
    pub is_final: bool,
}

/// Mathematical model of a merged endorsement record.
pub ghost struct EndorsementInfoModel {
    pub id: EndorsementId,
    pub endorsement: Seq<u8>,
    pub in_pool: bool,
    pub in_blocks: Set<BlockId>,
    pub is_final: bool,
}

impl View for EndorsementInfo {
    type V = EndorsementInfoModel;

    open spec fn view(&self) -> EndorsementInfoModel {
        EndorsementInfoModel {
            id: self.id,
            endorsement: self.endorsement@,
            in_pool: self.in_pool,
            in_blocks: self.in_blocks@.to_set(),
            is_final: self.is_final,
        }
    }
}

/// The record contributed by a pool sighting of an endorsement.
pub open spec fn pool_endorsement_model(id: EndorsementId, payload: Seq<u8>) -> EndorsementInfoModel {
    EndorsementInfoModel {
        id,
        endorsement: payload,
        in_pool: true,
        in_blocks: Set::empty(),
        is_final: false,
    }
}

/// What the merge engine owes for one requested endorsement identity: the
/// consensus record wins and a pool sighting adds pendingness; a pool-only
/// identity yields a fresh pending record.
pub open spec fn merged_endorsement_for(
    id: EndorsementId,
    pool: Seq<(EndorsementId, Vec<u8>)>,
    cons: Seq<(EndorsementId, EndorsementInfo)>,
) -> Option<EndorsementInfoModel> {
    match (lookup(pool, id), lookup(cons, id)) {
        (Some(_), Some(c)) => Some(
            EndorsementInfoModel {
                id: c@.id,
                endorsement: c@.endorsement,
                in_pool: true,
                in_blocks: c@.in_blocks,
                is_final: c@.is_final,
            },
        ),
        (Some(p), None) => Some(pool_endorsement_model(id, p@)),
        (None, Some(c)) => Some(c@),
        (None, None) => None,
    }
}

/// The full expected endorsement output, in request order, each identity
/// served at its first occurrence, absent identities omitted.
pub open spec fn endorsement_merge_projection(
    ids: Seq<EndorsementId>,
    pool: Seq<(EndorsementId, Vec<u8>)>,
    cons: Seq<(EndorsementId, EndorsementInfo)>,
) -> Seq<EndorsementInfoModel>
    decreases ids.len(),
{
    if ids.len() == 0 {
        Seq::empty()
    } else {
        let prefix = endorsement_merge_projection(ids.drop_last(), pool, cons);
        if ids.drop_last().contains(ids.last()) {
            prefix
        } else {
            match merged_endorsement_for(ids.last(), pool, cons) {
                Some(m) => prefix.push(m),
                None => prefix,
            }
        }
    }
}

/// Finds the first entry of an endorsement-keyed association list.
fn find_endorsement<V>(s: &Vec<(EndorsementId, V)>, id: EndorsementId) -> (r: Option<usize>)
    ensures
        match r {
            Some(i) => 0 <= i < s@.len() && s@[i as int].0 == id && (forall|k: int|
                0 <= k < i ==> s@[k].0 != id),
            None => forall|k: int| 0 <= k < s@.len() ==> s@[k].0 != id,
        },
{
    let mut i: usize = 0;
    while i < s.len()
        invariant
            i <= s.len(),
            forall|k: int| 0 <= k < i ==> s@[k].0 != id,
        decreases s.len() - i,
    {
        if s[i].0 == id {
            return Some(i);
        }
        i += 1;
    }
    None
}

/// Whether `id` occurs among the first `n` requested endorsement identities.
fn endorsement_requested_before(ids: &Vec<EndorsementId>, n: usize, id: EndorsementId) -> (r: bool)
    requires
        n <= ids@.len(),
    ensures
        r == ids@.take(n as int).contains(id),
{
    let mut i: usize = 0;
    while i < n
        invariant
            i <= n <= ids@.len(),
            forall|k: int| 0 <= k < i ==> ids@[k] != id,
        decreases n - i,
    {
        if ids[i] == id {
            assert(ids@.take(n as int)[i as int] == id);
            return true;
        }
        i += 1;
    }
    assert(forall|k: int| 0 <= k < n ==> ids@.take(n as int)[k] != id);
    false
}

/// Copies an endorsement record.
fn copy_endorsement(e: &EndorsementInfo) -> (r: EndorsementInfo)
    ensures
        r@ == e@,
{
    EndorsementInfo {
        id: e.id,
        endorsement: copy_vec(&e.endorsement),
        in_pool: e.in_pool,
        in_blocks: copy_vec(&e.in_blocks),
        is_final: e.is_final,
    }
}

/// The dual-source merge for endorsements, mirroring `merge_operations`:
/// request order is kept, a consensus record found in the pool as well is
/// marked pending, and identities found in neither source are omitted.
#[verifier::loop_isolation(false)]
pub fn merge_endorsements(
    ids: &Vec<EndorsementId>,
    pool: &Vec<(EndorsementId, Vec<u8>)>,
    cons: &Vec<(EndorsementId, EndorsementInfo)>,
) -> (res: Vec<EndorsementInfo>)
    ensures
        res@.map_values(|r: EndorsementInfo| r@) == endorsement_merge_projection(
            ids@,
            pool@,
            cons@,
        ),
{
    let ghost view_of = |r: EndorsementInfo| r@;
    let mut res: Vec<EndorsementInfo> = Vec::new();
    let mut i: usize = 0;
    while i < ids.len()
        invariant
            i <= ids@.len(),
            res@.map_values(view_of) == endorsement_merge_projection(
                ids@.take(i as int),
                pool@,
                cons@,
            ),
        decreases ids.len() - i,
    {
        let id = ids[i];
        let ghost pre = ids@.take(i as int);
        let ghost post = ids@.take(i as int + 1);
        proof {
            assert(post.drop_last() =~= pre);
            assert(post.last() == ids@[i as int]);
        }
        if !endorsement_requested_before(ids, i, id) {
            let found = match find_endorsement(cons, id) {
                Some(ci) => {
                    proof {
                        lemma_lookup_first_match(cons@, id, ci as int);
                    }
                    let mut r = copy_endorsement(&cons[ci].1);
                    match find_endorsement(pool, id) {
                        Some(pi) => {
                            proof {
                                lemma_lookup_first_match(pool@, id, pi as int);
                            }
                            r.in_pool = true;
                        },
                        None => {
                            proof {
                                lemma_lookup_absent(pool@, id);
                            }
                        },
                    }
                    Some(r)
                },
                None => {
                    proof {
                        lemma_lookup_absent(cons@, id);
                    }
                    match find_endorsement(pool, id) {
                        Some(pi) => {
                            proof {
                                lemma_lookup_first_match(pool@, id, pi as int);
                            }
                            Some(
                                EndorsementInfo {
                                    id,
                                    endorsement: copy_vec(&pool[pi].1),
                                    in_pool: true,
                                    in_blocks: Vec::new(),
                                    is_final: false,
                                },
                            )
                        },
                        None => {
                            proof {
                                lemma_lookup_absent(pool@, id);
                            }
                            None
                        },
                    }
                },
            };
            match found {
                Some(r) => {
                    proof {
                        match merged_endorsement_for(id, pool@, cons@) {
                            Some(m) => {
                                assert(r@.in_blocks =~= m.in_blocks);
                            },
                            None => {
                                assert(false);
                            },
                        }
                        let lhs = res@.push(r).map_values(view_of);
                        let rhs = res@.map_values(view_of).push(r@);
                        assert forall|k: int| 0 <= k < lhs.len() implies lhs[k] == rhs[k] by {
                            if k < res@.len() {
                                assert(res@.push(r)[k] == res@[k]);
                            } else {
                                assert(res@.push(r)[k] == r);
                            }
                        }
                        assert(lhs =~= rhs);
                    }
                    res.push(r);
                },
                None => {},
            }
        }
        i += 1;
    }
    proof {
        assert(ids@.take(ids@.len() as int) =~= ids@);
    }
    res
}

} // verus!
