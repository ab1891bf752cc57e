use vstd::prelude::*;

verus! {

/// Identity of an operation.
#[derive(Clone, Copy, PartialEq, Eq, Structural, Hash, Debug)]
pub struct OperationId(pub u64);

/// Identity of a block.
#[derive(Clone, Copy, PartialEq, Eq, Structural, Hash, Debug)]
pub struct BlockId(pub u64);

/// Identity of an endorsement.
#[derive(Clone, Copy, PartialEq, Eq, Structural, Hash, Debug)]
pub struct EndorsementId(pub u64);

/// A ledger address.
#[derive(Clone, Copy, PartialEq, Eq, Structural, Hash, Debug)]
pub struct Address(pub u64);

/// Identity of a peer node.
#[derive(Clone, Copy, PartialEq, Eq, Structural, Hash, Debug)]
pub struct NodeId(pub u64);

/// Node software version, as an opaque ordinal.
#[derive(Clone, Copy, PartialEq, Eq, Structural, Hash, Debug)]
pub struct Version(pub u64);

/// A point of the node's logical time: a period index and the thread within
/// that period.
#[derive(Clone, Copy, PartialEq, Eq, Structural, Hash, Debug)]
pub struct Slot {
    pub period: u64,
    pub thread: u8,
}

/// Immutable configuration shared by every component: logical-clock
/// parameters and request limits.  Passed explicitly into each function that
/// needs it; the core reads no ambient global state.
#[derive(Clone, Copy, PartialEq, Eq, Structural, Debug)]
pub struct ApiConfig {
    /// Number of execution threads per period; strictly positive.
    pub thread_count: u8,
    /// Duration of one period in milliseconds; strictly positive and a
    /// multiple of `thread_count`.
    pub t0: u64,
    /// Wall-clock timestamp (milliseconds) of slot (0, 0).
    pub genesis_timestamp: u64,
    /// Number of periods in one cycle; strictly positive.
    pub periods_per_cycle: u64,
    /// Maximum cardinality of a batched request.
    pub max_arguments: u64,
    /// How many periods ahead producer draws are reported.
    pub draw_lookahead_period_count: u64,
}

impl ApiConfig {
    /// Well-formedness: the clock parameters are usable.  `t0` divides
    /// evenly into `thread_count` sub-slots so every slot has an exact
    /// timestamp.
    pub open spec fn wf(self) -> bool {
        &&& self.thread_count > 0
        &&& self.t0 > 0
        &&& self.periods_per_cycle > 0
        &&& self.t0 % (self.thread_count as u64) == 0
    }
}

/// The thread an address belongs to, derived from the address and the
/// configured thread count alone.
pub fn address_thread(address: Address, thread_count: u8) -> (t: u8)
    requires
        thread_count > 0,
    ensures
        t == address.0 % (thread_count as u64),
        t < thread_count,
{
    (address.0 % (thread_count as u64)) as u8
}

/// A public key / signature pair, as returned by node-signing endpoints.
#[derive(PartialEq, Eq, Debug)]
pub struct PubkeySig {
    pub public_key: Vec<u8>,
    pub signature: Vec<u8>,
}

/// First-match lookup in an association list.  Collaborator responses are
/// maps keyed by identity; they are carried here as key/value pair lists.
pub open spec fn lookup<K, V>(s: Seq<(K, V)>, k: K) -> Option<V>
    decreases s.len(),
{
    if s.len() == 0 {
        None
    } else if s[0].0 == k {
        Some(s[0].1)
    } else {
        lookup(s.drop_first(), k)
    }
}

/// `lookup` returns the value at the first index whose key matches.
pub proof fn lemma_lookup_first_match<K, V>(s: Seq<(K, V)>, k: K, i: int)
    requires
        0 <= i < s.len(),
        s[i].0 == k,
        forall|j: int| 0 <= j < i ==> s[j].0 != k,
    ensures
        lookup(s, k) == Some(s[i].1),
    decreases i,
{
    if i == 0 {
    } else {
        assert(s[0].0 != k);
        assert(s.drop_first()[i - 1] == s[i]);
        lemma_lookup_first_match(s.drop_first(), k, i - 1);
    }
}

/// `lookup` misses exactly when no key matches.
pub proof fn lemma_lookup_absent<K, V>(s: Seq<(K, V)>, k: K)
    requires
        forall|j: int| 0 <= j < s.len() ==> s[j].0 != k,
    ensures
        lookup(s, k) is None,
    decreases s.len(),
{
    if s.len() > 0 {
        assert(forall|j: int| 0 <= j < s.drop_first().len() ==> s.drop_first()[j] == s[j + 1]);
        lemma_lookup_absent(s.drop_first(), k);
    }
}

/// Copies a vector of plain values.
pub fn copy_vec<T: Copy>(v: &Vec<T>) -> (r: Vec<T>)
    ensures
        r@ == v@,
{
    let mut r: Vec<T> = Vec::new();
    let mut i: usize = 0;
    while i < v.len()
        invariant
            i <= v.len(),
            r@ == v@.take(i as int),
        decreases v.len() - i,
    {
        r.push(v[i]);
        proof {
            assert(v@.take(i as int + 1) =~= v@.take(i as int).push(v@[i as int]));
        }
        i += 1;
    }
    proof {
        assert(v@.take(v@.len() as int) =~= v@);
    }
    r
}

/// Whether a block identity occurs in a list.
pub fn contains_block_id(v: &Vec<BlockId>, x: BlockId) -> (r: bool)
    ensures
        r == v@.contains(x),
{
    let mut i: usize = 0;
    while i < v.len()
        invariant
            i <= v.len(),
            forall|k: int| 0 <= k < i ==> v@[k] != x,
        decreases v.len() - i,
    {
        if v[i] == x {
            return true;
        }
        i += 1;
    }
    false
}

} // verus!
