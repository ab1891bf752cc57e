use vstd::prelude::*;

use crate::error::ApiError;
use crate::models::{
    copy_vec, lemma_lookup_absent, lemma_lookup_first_match, lookup, Address, ApiConfig, BlockId,
    EndorsementId, OperationId, Slot,
};

verus! {

broadcast use vstd::prelude::Seq::lemma_push_to_set_commute;

/// Roll counts of one address.
#[derive(Clone, Copy, PartialEq, Eq, Structural, Debug)]
pub struct RollsInfo {
    pub active_rolls: u64,
    pub final_rolls: u64,
    pub candidate_rolls: u64,
}

/// Ledger balances of one address.
#[derive(Clone, Copy, PartialEq, Eq, Structural, Debug)]
pub struct LedgerInfo {
    pub final_balance: u64,
    pub candidate_balance: u64,
    pub locked_balance: u64,
}

/// Block-production statistics of one address.
#[derive(Clone, Copy, PartialEq, Eq, Structural, Debug)]
pub struct ProductionStats {
    pub ok_count: u64,
    pub nok_count: u64,
}

/// The ledger/roll state the consensus authority reports for one address
/// in the second, batched lookup.
#[derive(Clone, Copy, PartialEq, Eq, Structural, Debug)]
pub struct AddressState {
    pub ledger_info: LedgerInfo,
    pub rolls: RollsInfo,
    pub production_stats: ProductionStats,
}

/// What one per-address fan-out task gathers: authored blocks, operation
/// and endorsement involvement (each already unioned over pool and
/// consensus), balances, and datastore keys.
pub struct AddressParts {
    pub address: Address,
    pub blocks_created: Vec<BlockId>,
    pub involved_in_operations: Vec<OperationId>,
    pub involved_in_endorsements: Vec<EndorsementId>,
    pub final_balance: Option<u64>,
    pub candidate_balance: Option<u64>,
    pub final_datastore_keys: Vec<Vec<u8>>,
    pub candidate_datastore_keys: Vec<Vec<u8>>,
}

/// The producer draws the selector reports for one address over the
/// lookahead window: block draws, and endorsement draws with their index.
pub struct AddressDraws {
    pub block_draws: Vec<Slot>,
    pub endorsement_draws: Vec<(Slot, u32)>,
}

/// The composite per-address record.
pub struct AddressInfo {
    pub address: Address,
    pub thread: u8,
    pub ledger_info: LedgerInfo,
    pub rolls: RollsInfo,
    pub production_stats: ProductionStats,
    pub block_draws: Vec<Slot>,
    pub endorsement_draws: Vec<(Slot, u32)>,
    pub blocks_created: Vec<BlockId>,
    pub involved_in_operations: Vec<OperationId>,
    pub involved_in_endorsements: Vec<EndorsementId>,
    pub final_balance_info: Option<u64>,
    pub candidate_balance_info: Option<u64>,
    pub final_datastore_keys: Vec<Vec<u8>>,
    pub candidate_datastore_keys: Vec<Vec<u8>>,
}

/// Whether an operation identity occurs in a list.
fn contains_operation_id(v: &Vec<OperationId>, x: OperationId) -> (r: bool)
    ensures
        r == v@.contains(x),
{
    let mut i: usize = 0;
    while i < v.len()
        invariant
            i <= v.len(),
            forall|k: int| 0 <= k < i ==> v@[k] != x,
        decreases v.len() - i,
    {
        if v[i] == x {
            return true;
        }
        i += 1;
    }
    false
}

/// Whether an endorsement identity occurs in a list.
fn contains_endorsement_id(v: &Vec<EndorsementId>, x: EndorsementId) -> (r: bool)
    ensures
        r == v@.contains(x),
{
    let mut i: usize = 0;
    while i < v.len()
        invariant
            i <= v.len(),
            forall|k: int| 0 <= k < i ==> v@[k] != x,
        decreases v.len() - i,
    {
        if v[i] == x {
            return true;
        }
        i += 1;
    }
    false
}

/// Unions the operation identities two sources report for one address,
/// without duplicates.
#[verifier::loop_isolation(false)]
pub fn union_operation_ids(a: &Vec<OperationId>, b: &Vec<OperationId>) -> (r: Vec<OperationId>)
    ensures
        r@.to_set() == a@.to_set().union(b@.to_set()),
        forall|k1: int, k2: int| 0 <= k1 < k2 < r@.len() ==> r@[k1] != r@[k2],
{
    let mut r: Vec<OperationId> = Vec::new();
    proof {
        assert(r@.to_set() =~= Seq::<OperationId>::empty().to_set());
    }
    let mut i: usize = 0;
    while i < a.len()
        invariant
            i <= a@.len(),
            r@.to_set() == a@.take(i as int).to_set(),
            forall|k1: int, k2: int| 0 <= k1 < k2 < r@.len() ==> r@[k1] != r@[k2],
        decreases a.len() - i,
    {
        let x = a[i];
        let present = contains_operation_id(&r, x);
        proof {
            assert(r@.contains(x) <==> r@.to_set().contains(x));
            assert(a@.take(i as int + 1) =~= a@.take(i as int).push(x));
        }
        if !present {
            let ghost r0 = r@;
            r.push(x);
            proof {
                assert(r@ == r0.push(x));
                assert(r@.to_set() =~= a@.take(i as int + 1).to_set());
            }
        } else {
            proof {
                assert(r@.to_set() =~= a@.take(i as int + 1).to_set());
            }
        }
        i += 1;
    }
    proof {
        assert(a@.take(a@.len() as int) =~= a@);
    }
    let mut j: usize = 0;
    while j < b.len()
        invariant
            j <= b@.len(),
            r@.to_set() == a@.to_set().union(b@.take(j as int).to_set()),
            forall|k1: int, k2: int| 0 <= k1 < k2 < r@.len() ==> r@[k1] != r@[k2],
        decreases b.len() - j,
    {
        let x = b[j];
        let present = contains_operation_id(&r, x);
        proof {
            assert(r@.contains(x) <==> r@.to_set().contains(x));
            assert(b@.take(j as int + 1) =~= b@.take(j as int).push(x));
        }
        if !present {
            let ghost r0 = r@;
            r.push(x);
            proof {
                assert(r@ == r0.push(x));
                assert(r@.to_set() =~= a@.to_set().union(b@.take(j as int + 1).to_set()));
            }
        } else {
            proof {
                assert(r@.to_set() =~= a@.to_set().union(b@.take(j as int + 1).to_set()));
            }
        }
        j += 1;
    }
    proof {
        assert(b@.take(b@.len() as int) =~= b@);
    }
    r
}

/// Unions the endorsement identities two sources report for one address,
/// without duplicates.
#[verifier::loop_isolation(false)]
pub fn union_endorsement_ids(a: &Vec<EndorsementId>, b: &Vec<EndorsementId>) -> (r: Vec<
    EndorsementId,
>)
    ensures
        r@.to_set() == a@.to_set().union(b@.to_set()),
        forall|k1: int, k2: int| 0 <= k1 < k2 < r@.len() ==> r@[k1] != r@[k2],
{
    let mut r: Vec<EndorsementId> = Vec::new();
    proof {
        assert(r@.to_set() =~= Seq::<EndorsementId>::empty().to_set());
    }
    let mut i: usize = 0;
    while i < a.len()
        invariant
            i <= a@.len(),
            r@.to_set() == a@.take(i as int).to_set(),
            forall|k1: int, k2: int| 0 <= k1 < k2 < r@.len() ==> r@[k1] != r@[k2],
        decreases a.len() - i,
    {
        let x = a[i];
        let present = contains_endorsement_id(&r, x);
        proof {
            assert(r@.contains(x) <==> r@.to_set().contains(x));
            assert(a@.take(i as int + 1) =~= a@.take(i as int).push(x));
        }
        if !present {
            let ghost r0 = r@;
            r.push(x);
            proof {
                assert(r@ == r0.push(x));
                assert(r@.to_set() =~= a@.take(i as int + 1).to_set());
            }
        } else {
            proof {
                assert(r@.to_set() =~= a@.take(i as int + 1).to_set());
            }
        }
        i += 1;
    }
    proof {
        assert(a@.take(a@.len() as int) =~= a@);
    }
    let mut j: usize = 0;
    while j < b.len()
        invariant
            j <= b@.len(),
            r@.to_set() == a@.to_set().union(b@.take(j as int).to_set()),
            forall|k1: int, k2: int| 0 <= k1 < k2 < r@.len() ==> r@[k1] != r@[k2],
        decreases b.len() - j,
    {
        let x = b[j];
        let present = contains_endorsement_id(&r, x);
        proof {
            assert(r@.contains(x) <==> r@.to_set().contains(x));
            assert(b@.take(j as int + 1) =~= b@.take(j as int).push(x));
        }
        if !present {
            let ghost r0 = r@;
            r.push(x);
            proof {
                assert(r@ == r0.push(x));
                assert(r@.to_set() =~= a@.to_set().union(b@.take(j as int + 1).to_set()));
            }
        } else {
            proof {
                assert(r@.to_set() =~= a@.to_set().union(b@.take(j as int + 1).to_set()));
            }
        }
        j += 1;
    }
    proof {
        assert(b@.take(b@.len() as int) =~= b@);
    }
    r
}

/// The end of the producer-draw window: the lookahead period count ahead of
/// the current slot, on the same thread.  Fails when the window would leave
/// the representable period range.
pub fn draw_window_end(curr: Slot, lookahead: u64) -> (r: Result<Slot, ApiError>)
    ensures
        r is Ok <==> curr.period as int + lookahead as int <= u64::MAX as int,
        match r {
            Ok(s) => s == (Slot { period: (curr.period + lookahead) as u64, thread: curr.thread }),
            Err(e) => e == ApiError::TimeOverflow,
        },
{
    if curr.period <= u64::MAX - lookahead {
        Ok(Slot { period: curr.period + lookahead, thread: curr.thread })
    } else {
        Err(ApiError::TimeOverflow)
    }
}

/// Joins the completions of the per-address fan-out, in completion order:
/// if any one task failed, the whole request fails with that task's error —
/// partially gathered data for the other addresses is discarded, never
/// returned.
#[verifier::loop_isolation(false)]
pub fn collect_fanout(results: Vec<Result<AddressParts, ApiError>>) -> (r: Result<
    Vec<AddressParts>,
    ApiError,
>)
    ensures
        r is Ok <==> (forall|i: int| 0 <= i < results@.len() ==> results@[i] is Ok),
        match r {
            Ok(parts) => parts@.len() == results@.len() && (forall|i: int|
                0 <= i < parts@.len() ==> results@[i] == Ok::<AddressParts, ApiError>(
                    parts@[i],
                )),
            Err(e) => exists|i: int|
                #![auto]
                0 <= i < results@.len() && results@[i] == Err::<AddressParts, ApiError>(e),
        },
{
    let ghost orig = results@;
    let mut rest = results;
    let mut out: Vec<AddressParts> = Vec::new();
    while rest.len() > 0
        invariant
            out@.len() + rest@.len() == orig.len(),
            forall|k: int| 0 <= k < rest@.len() ==> rest@[k] == orig[out@.len() + k],
            forall|k: int|
                0 <= k < out@.len() ==> orig[k] == Ok::<AddressParts, ApiError>(out@[k]),
        decreases rest.len(),
    {
        let ghost rest0 = rest@;
        let item = rest.remove(0);
        proof {
            assert(rest@ =~= rest0.drop_first());
            assert(item == orig[out@.len() as int]);
        }
        match item {
            Ok(p) => {
                out.push(p);
            },
            Err(e) => {
                proof {
                    let w = out@.len() as int;
                    assert(out@.len() + rest0.len() == orig.len());
                    assert(w < orig.len());
                    assert(orig[w] == Err::<AddressParts, ApiError>(e));
                    assert(orig == results@);
                    assert(0 <= w < results@.len());
                    assert(results@[w] == Err::<AddressParts, ApiError>(e));
                    assert(!(results@[w] is Ok));
                }
                return Err(e);
            },
        }
    }
    Ok(out)
}

/// Byte-string lists match when they hold the same strings in order.
pub open spec fn keys_match(a: Seq<Vec<u8>>, b: Seq<Vec<u8>>) -> bool {
    a.len() == b.len() && (forall|k: int| #![auto] 0 <= k < a.len() ==> a[k]@ == b[k]@)
}

/// Copies a list of byte strings.
fn copy_keys(v: &Vec<Vec<u8>>) -> (r: Vec<Vec<u8>>)
    ensures
        keys_match(r@, v@),
{
    let mut r: Vec<Vec<u8>> = Vec::new();
    let mut i: usize = 0;
    while i < v.len()
        invariant
            i <= v@.len(),
            r@.len() == i,
            forall|k: int| #![auto] 0 <= k < i ==> r@[k]@ == v@[k]@,
        decreases v.len() - i,
    {
        r.push(copy_vec(&v[i]));
        i += 1;
    }
    r
}

/// The association view of the gathered parts, keyed by address.
pub open spec fn parts_assoc(parts: Seq<AddressParts>) -> Seq<(Address, AddressParts)> {
    parts.map_values(|p: AddressParts| (p.address, p))
}

/// The composite record owed for one address, given its looked-up state,
/// gathered parts and draws.
pub open spec fn info_matches(
    info: AddressInfo,
    a: Address,
    cfg: ApiConfig,
    state: AddressState,
    p: AddressParts,
    d: AddressDraws,
) -> bool {
    &&& info.address == a
    &&& info.thread == a.0 % (cfg.thread_count as u64)
    &&& info.ledger_info == state.ledger_info
    &&& info.rolls == state.rolls
    &&& info.production_stats == state.production_stats
    &&& info.block_draws@ == d.block_draws@
    &&& info.endorsement_draws@ == d.endorsement_draws@
    &&& info.blocks_created@ == p.blocks_created@
    &&& info.involved_in_operations@ == p.involved_in_operations@
    &&& info.involved_in_endorsements@ == p.involved_in_endorsements@
    &&& info.final_balance_info == p.final_balance
    &&& info.candidate_balance_info == p.candidate_balance
    &&& keys_match(info.final_datastore_keys@, p.final_datastore_keys@)
    &&& keys_match(info.candidate_datastore_keys@, p.candidate_datastore_keys@)
}

/// One address of the batch resolves when it is not a duplicate of an
/// earlier one and every source holds an entry for it.
pub open spec fn address_resolves(
    addresses: Seq<Address>,
    i: int,
    states: Seq<(Address, AddressState)>,
    parts: Seq<AddressParts>,
    draws: Seq<(Address, AddressDraws)>,
) -> bool {
    &&& !addresses.take(i).contains(addresses[i])
    &&& lookup(states, addresses[i]) is Some
    &&& lookup(parts_assoc(parts), addresses[i]) is Some
    &&& lookup(draws, addresses[i]) is Some
}

/// Finds the first gathered parts entry for an address.
fn find_parts(parts: &Vec<AddressParts>, a: Address) -> (r: Option<usize>)
    ensures
        match r {
            Some(i) => 0 <= i < parts@.len() && parts@[i as int].address == a && (forall|k: int|
                0 <= k < i ==> parts@[k].address != a),
            None => forall|k: int| 0 <= k < parts@.len() ==> parts@[k].address != a,
        },
{
    let mut i: usize = 0;
    while i < parts.len()
        invariant
            i <= parts@.len(),
            forall|k: int| 0 <= k < i ==> parts@[k].address != a,
        decreases parts.len() - i,
    {
        if parts[i].address == a {
            return Some(i);
        }
        i += 1;
    }
    None
}

/// Finds the first state entry for an address.
fn find_state(states: &Vec<(Address, AddressState)>, a: Address) -> (r: Option<usize>)
    ensures
        match r {
            Some(i) => 0 <= i < states@.len() && states@[i as int].0 == a && (forall|k: int|
                0 <= k < i ==> states@[k].0 != a),
            None => forall|k: int| 0 <= k < states@.len() ==> states@[k].0 != a,
        },
{
    let mut i: usize = 0;
    while i < states.len()
        invariant
            i <= states@.len(),
            forall|k: int| 0 <= k < i ==> states@[k].0 != a,
        decreases states.len() - i,
    {
        if states[i].0 == a {
            return Some(i);
        }
        i += 1;
    }
    None
}

/// Finds the first draws entry for an address.
fn find_draws(draws: &Vec<(Address, AddressDraws)>, a: Address) -> (r: Option<usize>)
    ensures
        match r {
            Some(i) => 0 <= i < draws@.len() && draws@[i as int].0 == a && (forall|k: int|
                0 <= k < i ==> draws@[k].0 != a),
            None => forall|k: int| 0 <= k < draws@.len() ==> draws@[k].0 != a,
        },
{
    let mut i: usize = 0;
    while i < draws.len()
        invariant
            i <= draws@.len(),
            forall|k: int| 0 <= k < i ==> draws@[k].0 != a,
        decreases draws.len() - i,
    {
        if draws[i].0 == a {
            return Some(i);
        }
        i += 1;
    }
    None
}

/// Whether an address occurs among the first `n` requested addresses.
fn address_requested_before(addresses: &Vec<Address>, n: usize, a: Address) -> (r: bool)
    requires
        n <= addresses@.len(),
    ensures
        r == addresses@.take(n as int).contains(a),
{
    let mut i: usize = 0;
    while i < n
        invariant
            i <= n <= addresses@.len(),
            forall|k: int| 0 <= k < i ==> addresses@[k] != a,
        decreases n - i,
    {
        if addresses[i] == a {
            assert(addresses@.take(n as int)[i as int] == a);
            return true;
        }
        i += 1;
    }
    assert(forall|k: int| 0 <= k < n ==> addresses@.take(n as int)[k] != a);
    false
}

/// The final join of the fan-out: for every requested address, in request
/// order, the looked-up ledger/roll state, the task-gathered parts, and the
/// selector's draws are combined into one composite record.  A missing
/// entry for any address — including one consumed by an earlier duplicate
/// of the same address — fails the whole request; nothing partial is
/// returned.
#[verifier::loop_isolation(false)]
pub fn assemble_address_infos(
    cfg: &ApiConfig,
    addresses: &Vec<Address>,
    states: &Vec<(Address, AddressState)>,
    parts: &Vec<AddressParts>,
    draws: &Vec<(Address, AddressDraws)>,
) -> (r: Result<Vec<AddressInfo>, ApiError>)
    requires
        cfg.wf(),
    ensures
        r is Ok <==> (forall|i: int|
            0 <= i < addresses@.len() ==> address_resolves(
                addresses@,
                i,
                states@,
                parts@,
                draws@,
            )),
        match r {
            Ok(res) => res@.len() == addresses@.len() && (forall|i: int|
                0 <= i < res@.len() ==> info_matches(
                    res@[i],
                    addresses@[i],
                    *cfg,
                    lookup(states@, addresses@[i])->Some_0,
                    lookup(parts_assoc(parts@), addresses@[i])->Some_0,
                    lookup(draws@, addresses@[i])->Some_0,
                )),
            Err(e) => e == ApiError::NotFound,
        },
{
    let mut res: Vec<AddressInfo> = Vec::new();
    let mut i: usize = 0;
    while i < addresses.len()
        invariant
            i <= addresses@.len(),
            res@.len() == i,
            forall|k: int|
                0 <= k < i ==> address_resolves(addresses@, k, states@, parts@, draws@),
            forall|k: int|
                0 <= k < i ==> info_matches(
                    res@[k],
                    addresses@[k],
                    *cfg,
                    lookup(states@, addresses@[k])->Some_0,
                    lookup(parts_assoc(parts@), addresses@[k])->Some_0,
                    lookup(draws@, addresses@[k])->Some_0,
                ),
        decreases addresses.len() - i,
    {
        let a = addresses[i];
        if address_requested_before(addresses, i, a) {
            proof {
                assert(!address_resolves(addresses@, i as int, states@, parts@, draws@));
            }
            return Err(ApiError::NotFound);
        }
        let si = match find_state(states, a) {
            Some(si) => {
                proof {
                    lemma_lookup_first_match(states@, a, si as int);
                }
                si
            },
            None => {
                proof {
                    lemma_lookup_absent(states@, a);
                    assert(!address_resolves(addresses@, i as int, states@, parts@, draws@));
                }
                return Err(ApiError::NotFound);
            },
        };
        let pi = match find_parts(parts, a) {
            Some(pi) => {
                proof {
                    assert(forall|k: int|
                        0 <= k < parts_assoc(parts@).len() ==> parts_assoc(parts@)[k] == (
                        parts@[k].address,
                        parts@[k],
                        ));
                    lemma_lookup_first_match(parts_assoc(parts@), a, pi as int);
                }
                pi
            },
            None => {
                proof {
                    assert(forall|k: int|
                        0 <= k < parts_assoc(parts@).len() ==> parts_assoc(parts@)[k] == (
                        parts@[k].address,
                        parts@[k],
                        ));
                    lemma_lookup_absent(parts_assoc(parts@), a);
                    assert(!address_resolves(addresses@, i as int, states@, parts@, draws@));
                }
                return Err(ApiError::NotFound);
            },
        };
        let di = match find_draws(draws, a) {
            Some(di) => {
                proof {
                    lemma_lookup_first_match(draws@, a, di as int);
                }
                di
            },
            None => {
                proof {
                    lemma_lookup_absent(draws@, a);
                    assert(!address_resolves(addresses@, i as int, states@, parts@, draws@));
                }
                return Err(ApiError::NotFound);
            },
        };
        let state = states[si].1;
        let p = &parts[pi];
        let d = &draws[di].1;
        let info = AddressInfo {
            address: a,
            thread: (a.0 % (cfg.thread_count as u64)) as u8,
            ledger_info: state.ledger_info,
            rolls: state.rolls,
            production_stats: state.production_stats,
            block_draws: copy_vec(&d.block_draws),
            endorsement_draws: copy_vec(&d.endorsement_draws),
            blocks_created: copy_vec(&p.blocks_created),
            involved_in_operations: copy_vec(&p.involved_in_operations),
            involved_in_endorsements: copy_vec(&p.involved_in_endorsements),
            final_balance_info: p.final_balance,
            candidate_balance_info: p.candidate_balance,
            final_datastore_keys: copy_keys(&p.final_datastore_keys),
            candidate_datastore_keys: copy_keys(&p.candidate_datastore_keys),
        };
        res.push(info);
        i += 1;
    }
    Ok(res)
}

} // verus!
