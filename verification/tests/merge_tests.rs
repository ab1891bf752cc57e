use massa_api::merge::{
    merge_endorsements, merge_operations, ConsensusOperationRecord, EndorsementInfo,
};
use massa_api::models::{BlockId, EndorsementId, OperationId};

#[test]
fn operations_merge_unions_blocks_and_ors_finality() {
    let ids = vec![OperationId(7), OperationId(9), OperationId(5)];
    let pool = vec![
        (OperationId(5), vec![1u8]),
        (OperationId(7), vec![2u8]),
    ];
    let cons = vec![(
        OperationId(7),
        ConsensusOperationRecord {
            operation: vec![2u8],
            in_pool: false,
            in_blocks: vec![(BlockId(1), false), (BlockId(2), true)],
        },
    )];
    let res = merge_operations(&ids, &pool, &cons);
    // output order equals input order; id 9, found nowhere, is omitted
    assert_eq!(res.len(), 2);
    assert_eq!(res[0].id, OperationId(7));
    assert!(res[0].in_pool);
    assert!(res[0].is_final);
    assert_eq!(res[0].in_blocks.len(), 2);
    assert!(res[0].in_blocks.contains(&BlockId(1)));
    assert!(res[0].in_blocks.contains(&BlockId(2)));
    assert_eq!(res[0].operation, vec![2u8]);
    assert_eq!(res[1].id, OperationId(5));
    assert!(res[1].in_pool);
    assert!(!res[1].is_final);
    assert!(res[1].in_blocks.is_empty());
    assert_eq!(res[1].operation, vec![1u8]);
}

#[test]
fn operations_consensus_only_keeps_reported_membership() {
    let ids = vec![OperationId(3)];
    let pool = vec![];
    let cons = vec![(
        OperationId(3),
        ConsensusOperationRecord {
            operation: vec![9u8],
            in_pool: false,
            in_blocks: vec![(BlockId(4), false)],
        },
    )];
    let res = merge_operations(&ids, &pool, &cons);
    assert_eq!(res.len(), 1);
    assert!(!res[0].in_pool);
    assert!(!res[0].is_final);
    assert_eq!(res[0].in_blocks, vec![BlockId(4)]);
}

#[test]
fn operations_absent_everywhere_are_omitted() {
    let ids = vec![OperationId(1), OperationId(2)];
    let res = merge_operations(&ids, &vec![], &vec![]);
    assert!(res.is_empty());
}

#[test]
fn endorsements_merge_marks_pool_presence() {
    let ids = vec![EndorsementId(2), EndorsementId(1), EndorsementId(8)];
    let pool = vec![
        (EndorsementId(1), vec![5u8]),
        (EndorsementId(2), vec![6u8]),
    ];
    let cons = vec![(
        EndorsementId(2),
        EndorsementInfo {
            id: EndorsementId(2),
            endorsement: vec![6u8],
            in_pool: false,
            in_blocks: vec![BlockId(3)],
            is_final: true,
        },
    )];
    let res = merge_endorsements(&ids, &pool, &cons);
    assert_eq!(res.len(), 2);
    // consensus record wins and gains pendingness
    assert_eq!(res[0].id, EndorsementId(2));
    assert!(res[0].in_pool);
    assert!(res[0].is_final);
    assert_eq!(res[0].in_blocks, vec![BlockId(3)]);
    // pool-only identity becomes a fresh pending record
    assert_eq!(res[1].id, EndorsementId(1));
    assert!(res[1].in_pool);
    assert!(!res[1].is_final);
    assert!(res[1].in_blocks.is_empty());
    assert_eq!(res[1].endorsement, vec![5u8]);
}
