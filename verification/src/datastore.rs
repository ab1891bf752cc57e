use vstd::prelude::*;

use crate::models::{copy_vec, Address};

verus! {

/// One requested datastore entry: an address and a key in its store.
pub struct DatastoreEntryInput {
    pub address: Address,
    pub key: Vec<u8>,
}

/// The answer for one datastore entry: the value under the final state and
/// under the candidate state, each absent when the key has no entry there.
pub struct DatastoreEntryOutput {
    pub final_value: Option<Vec<u8>>,
    pub candidate_value: Option<Vec<u8>>,
}

/// Copies an optional byte string.
fn copy_opt_bytes(o: &Option<Vec<u8>>) -> (r: Option<Vec<u8>>)
    ensures
        match o {
            Some(v) => r matches Some(w) && w@ == v@,
            None => r is None,
        },
{
    match o {
        Some(v) => Some(copy_vec(v)),
        None => None,
    }
}

/// Shapes a datastore batch into the execution ledger's query form: one
/// (address, key) pair per entry, positionally aligned.
pub fn datastore_query_pairs(entries: &Vec<DatastoreEntryInput>) -> (r: Vec<(Address, Vec<u8>)>)
    ensures
        r@.len() == entries@.len(),
        forall|i: int|
            0 <= i < r@.len() ==> r@[i].0 == entries@[i].address && r@[i].1@ == entries@[i].key@,
{
    let mut r: Vec<(Address, Vec<u8>)> = Vec::new();
    let mut i: usize = 0;
    while i < entries.len()
        invariant
            i <= entries@.len(),
            r@.len() == i,
            forall|k: int|
                0 <= k < i ==> r@[k].0 == entries@[k].address && r@[k].1@ == entries@[k].key@,
        decreases entries.len() - i,
    {
        r.push((entries[i].address, copy_vec(&entries[i].key)));
        i += 1;
    }
    r
}

/// The answer owed for one entry: `.0` of the ledger's pair is the final
/// value, `.1` the candidate value, each copied as is.
pub open spec fn entry_matches(
    out: DatastoreEntryOutput,
    res: (Option<Vec<u8>>, Option<Vec<u8>>),
) -> bool {
    &&& (match res.0 {
        Some(v) => out.final_value matches Some(w) && w@ == v@,
        None => out.final_value is None,
    })
    &&& (match res.1 {
        Some(v) => out.candidate_value matches Some(w) && w@ == v@,
        None => out.candidate_value is None,
    })
}

/// Shapes the ledger's answers back into caller-facing entries,
/// positionally aligned.
pub fn datastore_outputs(results: &Vec<(Option<Vec<u8>>, Option<Vec<u8>>)>) -> (r: Vec<
    DatastoreEntryOutput,
>)
    ensures
        r@.len() == results@.len(),
        forall|i: int|
            0 <= i < r@.len() ==> #[trigger] entry_matches(r@[i], results@[i]),
{
    let mut r: Vec<DatastoreEntryOutput> = Vec::new();
    let mut i: usize = 0;
    while i < results.len()
        invariant
            i <= results@.len(),
            r@.len() == i,
            forall|k: int|
                0 <= k < i ==> #[trigger] entry_matches(r@[k], results@[k]),
        decreases results.len() - i,
    {
        let entry = &results[i];
        r.push(
            DatastoreEntryOutput {
                final_value: copy_opt_bytes(&entry.0),
                candidate_value: copy_opt_bytes(&entry.1),
            },
        );
        i += 1;
    }
    r
}

} // verus!
