use vstd::prelude::*;

use crate::error::ApiError;
use crate::models::{copy_vec, OperationId};

verus! {

/// One submitted operation: a signature, the creator's public key, and the
/// serialized operation body.
pub struct OperationInput {
    pub signature: Vec<u8>,
    pub creator_public_key: Vec<u8>,
    pub serialized_content: Vec<u8>,
}

/// The canonical wire form of a submitted operation: signature, then
/// creator public key, then the serialized body.
pub open spec fn wire_of(op: OperationInput) -> Seq<u8> {
    op.signature@ + op.creator_public_key@ + op.serialized_content@
}

/// Appends the bytes of `src` to `dst`.
pub fn append_bytes(dst: &mut Vec<u8>, src: &Vec<u8>)
    ensures
        final(dst)@ == old(dst)@ + src@,
{
    let mut i: usize = 0;
    while i < src.len()
        invariant
            i <= src@.len(),
            dst@ == old(dst)@ + src@.take(i as int),
        decreases src.len() - i,
    {
        dst.push(src[i]);
        proof {
            assert(old(dst)@ + src@.take(i as int + 1) =~= (old(dst)@ + src@.take(i as int)).push(
                src@[i as int],
            ));
        }
        i += 1;
    }
    proof {
        assert(src@.take(src@.len() as int) =~= src@);
    }
}

/// First stage of the submission pipeline: rejects an oversized batch
/// before any further work, and otherwise reconstructs each operation's
/// canonical wire form, positionally aligned with the input.
pub fn assemble_operation_batch(ops: &Vec<OperationInput>, max_arguments: u64) -> (r: Result<
    Vec<Vec<u8>>,
    ApiError,
>)
    ensures
        r is Ok <==> ops@.len() as u64 <= max_arguments,
        r is Err ==> r == Err::<Vec<Vec<u8>>, ApiError>(ApiError::TooManyArguments),
        match r {
            Ok(wires) => wires@.len() == ops@.len() && (forall|i: int|
                0 <= i < wires@.len() ==> wires@[i]@ == wire_of(ops@[i])),
            Err(_) => true,
        },
{
    if ops.len() as u64 > max_arguments {
        return Err(ApiError::TooManyArguments);
    }
    let mut wires: Vec<Vec<u8>> = Vec::new();
    let mut i: usize = 0;
    while i < ops.len()
        invariant
            i <= ops@.len(),
            wires@.len() == i,
            forall|k: int| 0 <= k < i ==> wires@[k]@ == wire_of(ops@[k]),
        decreases ops.len() - i,
    {
        let mut wire: Vec<u8> = Vec::new();
        append_bytes(&mut wire, &ops[i].signature);
        append_bytes(&mut wire, &ops[i].creator_public_key);
        append_bytes(&mut wire, &ops[i].serialized_content);
        proof {
            assert(wire@ =~= wire_of(ops@[i as int]));
        }
        wires.push(wire);
        i += 1;
    }
    Ok(wires)
}

/// What the integrity check derived for one decoded operation: its
/// canonical identity, or a rejection.
#[derive(Clone, Copy, PartialEq, Eq, Structural, Debug)]
pub enum IntegrityOutcome {
    Valid(OperationId),
    Invalid,
}

/// What the deserializer reported for one wire form: an outright failure,
/// or a decoded operation together with how many bytes were consumed and
/// the integrity check's verdict on it.
pub enum DecodeOutcome {
    Failure,
    Decoded { consumed: usize, operation: Vec<u8>, integrity: IntegrityOutcome },
}

/// The error one item contributes, if any: a failed or incomplete decode is
/// a deserialization error — trailing undecoded bytes count as malformed —
/// and only then is the integrity verdict consulted.  The item's wire
/// length is carried as `.0`.
pub open spec fn item_error(item: (usize, DecodeOutcome)) -> Option<ApiError> {
    match item.1 {
        DecodeOutcome::Failure => Some(ApiError::DeserializeError),
        DecodeOutcome::Decoded { consumed, operation, integrity } => if consumed != item.0 {
            Some(ApiError::DeserializeError)
        } else {
            match integrity {
                IntegrityOutcome::Valid(_) => None,
                IntegrityOutcome::Invalid => Some(ApiError::IntegrityError),
            }
        },
    }
}

/// The first error of the batch, in input order: any single malformed
/// operation fails the entire submission.
pub open spec fn first_error(items: Seq<(usize, DecodeOutcome)>) -> Option<ApiError>
    decreases items.len(),
{
    if items.len() == 0 {
        None
    } else {
        match item_error(items[0]) {
            Some(e) => Some(e),
            None => first_error(items.drop_first()),
        }
    }
}

proof fn lemma_first_error_at(items: Seq<(usize, DecodeOutcome)>, i: int)
    requires
        0 <= i < items.len(),
        item_error(items[i]) is Some,
        forall|j: int| 0 <= j < i ==> item_error(items[j]) is None,
    ensures
        first_error(items) == item_error(items[i]),
    decreases i,
{
    if i == 0 {
    } else {
        assert(items.drop_first()[i - 1] == items[i]);
        assert(forall|j: int|
            0 <= j < i - 1 ==> items.drop_first()[j] == items[j + 1]);
        lemma_first_error_at(items.drop_first(), i - 1);
    }
}

proof fn lemma_first_error_none(items: Seq<(usize, DecodeOutcome)>)
    requires
        forall|j: int| 0 <= j < items.len() ==> item_error(items[j]) is None,
    ensures
        first_error(items) is None,
    decreases items.len(),
{
    if items.len() > 0 {
        assert(forall|j: int|
            0 <= j < items.drop_first().len() ==> items.drop_first()[j] == items[j + 1]);
        lemma_first_error_none(items.drop_first());
    }
}

/// The identity and payload of one well-formed item.
pub open spec fn item_pair(item: (usize, DecodeOutcome)) -> (OperationId, Seq<u8>) {
    match item.1 {
        DecodeOutcome::Decoded { consumed, operation, integrity } => match integrity {
            IntegrityOutcome::Valid(id) => (id, operation@),
            IntegrityOutcome::Invalid => (OperationId(0), Seq::empty()),
        },
        DecodeOutcome::Failure => (OperationId(0), Seq::empty()),
    }
}

/// The identity/payload pairs of a batch of well-formed items, in input
/// order.
pub open spec fn batch_pairs(items: Seq<(usize, DecodeOutcome)>) -> Seq<(OperationId, Seq<u8>)>
    decreases items.len(),
{
    if items.len() == 0 {
        Seq::empty()
    } else {
        batch_pairs(items.drop_last()).push(item_pair(items.last()))
    }
}

/// Deduplication by identity over identity/payload pairs: each identity
/// keeps the position of its first occurrence and the payload of its last.
pub open spec fn dedup_pairs(pairs: Seq<(OperationId, Seq<u8>)>) -> Seq<(OperationId, Seq<u8>)>
    decreases pairs.len(),
{
    if pairs.len() == 0 {
        Seq::empty()
    } else {
        let prev = dedup_pairs(pairs.drop_last());
        let last = pairs.last();
        if exists|k: int| 0 <= k < prev.len() && prev[k].0 == last.0 {
            prev.map_values(
                |p: (OperationId, Seq<u8>)|
                    if p.0 == last.0 {
                        last
                    } else {
                        p
                    },
            )
        } else {
            prev.push(last)
        }
    }
}

/// Finds the entry of an accumulated submission holding `id`.
fn find_pair(acc: &Vec<(OperationId, Vec<u8>)>, id: OperationId) -> (r: Option<usize>)
    ensures
        match r {
            Some(i) => 0 <= i < acc@.len() && acc@[i as int].0 == id,
            None => forall|k: int| 0 <= k < acc@.len() ==> acc@[k].0 != id,
        },
{
    let mut i: usize = 0;
    while i < acc.len()
        invariant
            i <= acc@.len(),
            forall|k: int| 0 <= k < i ==> acc@[k].0 != id,
        decreases acc.len() - i,
    {
        if acc[i].0 == id {
            return Some(i);
        }
        i += 1;
    }
    None
}

/// Second stage of the submission pipeline.  Given, for each wire form in
/// input order, its length and the deserializer's and integrity check's
/// outcome, either fails the whole batch on the first malformed item —
/// nothing may then be submitted — or yields the deduplicated batch to hand
/// to the pool: each operation keyed by its integrity-derived identity, in
/// first-occurrence order, later duplicates overwriting the payload.
#[verifier::loop_isolation(false)]
pub fn validate_operation_batch(items: &Vec<(usize, DecodeOutcome)>) -> (r: Result<
    Vec<(OperationId, Vec<u8>)>,
    ApiError,
>)
    ensures
        r is Ok <==> first_error(items@) is None,
        match r {
            Ok(acc) => {
                &&& acc@.map_values(|p: (OperationId, Vec<u8>)| (p.0, p.1@)) == dedup_pairs(
                    batch_pairs(items@),
                )
                &&& forall|k1: int, k2: int|
                    0 <= k1 < k2 < acc@.len() ==> acc@[k1].0 != acc@[k2].0
            },
            Err(e) => first_error(items@) == Some(e),
        },
{
    let ghost pair_of = |p: (OperationId, Vec<u8>)| (p.0, p.1@);
    let mut acc: Vec<(OperationId, Vec<u8>)> = Vec::new();
    let mut i: usize = 0;
    while i < items.len()
        invariant
            i <= items@.len(),
            forall|j: int| 0 <= j < i ==> item_error(items@[j]) is None,
            acc@.map_values(pair_of) == dedup_pairs(batch_pairs(items@.take(i as int))),
            forall|k1: int, k2: int| 0 <= k1 < k2 < acc@.len() ==> acc@[k1].0 != acc@[k2].0,
        decreases items.len() - i,
    {
        let ghost pre = items@.take(i as int);
        let ghost post = items@.take(i as int + 1);
        proof {
            assert(post.drop_last() =~= pre);
            assert(post.last() == items@[i as int]);
            assert(batch_pairs(post).drop_last() =~= batch_pairs(pre));
        }
        let item = &items[i];
        match &item.1 {
            DecodeOutcome::Failure => {
                proof {
                    lemma_first_error_at(items@, i as int);
                }
                return Err(ApiError::DeserializeError);
            },
            DecodeOutcome::Decoded { consumed, operation, integrity } => {
                if *consumed != item.0 {
                    proof {
                        lemma_first_error_at(items@, i as int);
                    }
                    return Err(ApiError::DeserializeError);
                }
                match integrity {
                    IntegrityOutcome::Invalid => {
                        proof {
                            lemma_first_error_at(items@, i as int);
                        }
                        return Err(ApiError::IntegrityError);
                    },
                    IntegrityOutcome::Valid(id) => {
                        let id = *id;
                        let payload = copy_vec(operation);
                        let ghost target = dedup_pairs(batch_pairs(post));
                        let ghost prev = dedup_pairs(batch_pairs(pre));
                        let ghost lastp = item_pair(items@[i as int]);
                        proof {
                            assert(lastp == (id, operation@));
                            assert(batch_pairs(post) == batch_pairs(pre).push(lastp));
                        }
                        match find_pair(&acc, id) {
                            Some(k) => {
                                let ghost acc0 = acc@;
                                acc[k] = (id, payload);
                                proof {
                                    let f = |p: (OperationId, Seq<u8>)|
                                        if p.0 == lastp.0 {
                                            lastp
                                        } else {
                                            p
                                        };
                                    assert(prev == acc0.map_values(pair_of));
                                    assert(prev[k as int] == pair_of(acc0[k as int]));
                                    assert(prev[k as int].0 == id);
                                    assert(target == prev.map_values(f));
                                    let lhs = acc@.map_values(pair_of);
                                    assert forall|w: int| 0 <= w < lhs.len() implies lhs[w]
                                        == target[w] by {
                                        assert(target[w] == f(prev[w]));
                                        assert(prev[w] == pair_of(acc0[w]));
                                        if w == k as int {
                                            assert(acc@[w] == (id, payload));
                                        } else {
                                            assert(acc@[w] == acc0[w]);
                                            assert(acc0[w].0 != id);
                                        }
                                    }
                                    assert(lhs =~= target);
                                }
                            },
                            None => {
                                let ghost acc0 = acc@;
                                acc.push((id, payload));
                                proof {
                                    assert(prev == acc0.map_values(pair_of));
                                    assert forall|w: int|
                                        0 <= w < prev.len() implies prev[w].0 != lastp.0 by {
                                        assert(prev[w] == pair_of(acc0[w]));
                                    }
                                    assert(target == prev.push(lastp));
                                    let lhs = acc@.map_values(pair_of);
                                    assert forall|w: int| 0 <= w < lhs.len() implies lhs[w]
                                        == target[w] by {
                                        if w < acc0.len() {
                                            assert(acc@[w] == acc0[w]);
                                        } else {
                                            assert(acc@[w] == (id, payload));
                                        }
                                    }
                                    assert(lhs =~= target);
                                }
                            },
                        }
                    },
                }
            },
        }
        i += 1;
    }
    proof {
        assert(items@.take(items@.len() as int) =~= items@);
        lemma_first_error_none(items@);
    }
    Ok(acc)
}

} // verus!
