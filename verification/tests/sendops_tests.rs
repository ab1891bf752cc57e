use massa_api::error::ApiError;
use massa_api::models::OperationId;
use massa_api::sendops::{
    assemble_operation_batch, validate_operation_batch, DecodeOutcome, IntegrityOutcome,
    OperationInput,
};

fn valid_item(len: usize, id: u64, payload: Vec<u8>) -> (usize, DecodeOutcome) {
    (
        len,
        DecodeOutcome::Decoded {
            consumed: len,
            operation: payload,
            integrity: IntegrityOutcome::Valid(OperationId(id)),
        },
    )
}

#[test]
fn wire_form_is_signature_key_body() {
    let ops = vec![OperationInput {
        signature: vec![1, 2],
        creator_public_key: vec![3],
        serialized_content: vec![4, 5],
    }];
    let wires = assemble_operation_batch(&ops, 16).unwrap();
    assert_eq!(wires, vec![vec![1, 2, 3, 4, 5]]);
}

#[test]
fn oversized_submission_is_rejected_before_decoding() {
    let op = OperationInput {
        signature: vec![1],
        creator_public_key: vec![2],
        serialized_content: vec![3],
    };
    let ops = vec![op];
    assert_eq!(
        assemble_operation_batch(&ops, 0),
        Err(ApiError::TooManyArguments)
    );
}

#[test]
fn trailing_bytes_fail_the_whole_batch() {
    let items = vec![
        valid_item(4, 1, vec![1]),
        (
            5,
            DecodeOutcome::Decoded {
                consumed: 3,
                operation: vec![2],
                integrity: IntegrityOutcome::Valid(OperationId(2)),
            },
        ),
        valid_item(4, 3, vec![3]),
    ];
    assert_eq!(
        validate_operation_batch(&items),
        Err(ApiError::DeserializeError)
    );
}

#[test]
fn decode_failure_fails_the_whole_batch() {
    let items = vec![valid_item(4, 1, vec![1]), (3, DecodeOutcome::Failure)];
    assert_eq!(
        validate_operation_batch(&items),
        Err(ApiError::DeserializeError)
    );
}

#[test]
fn integrity_failure_fails_the_whole_batch() {
    let items = vec![(
        4,
        DecodeOutcome::Decoded {
            consumed: 4,
            operation: vec![1],
            integrity: IntegrityOutcome::Invalid,
        },
    )];
    assert_eq!(
        validate_operation_batch(&items),
        Err(ApiError::IntegrityError)
    );
}

#[test]
fn first_malformed_item_decides_the_error() {
    let items = vec![
        (
            4,
            DecodeOutcome::Decoded {
                consumed: 4,
                operation: vec![1],
                integrity: IntegrityOutcome::Invalid,
            },
        ),
        (3, DecodeOutcome::Failure),
    ];
    assert_eq!(
        validate_operation_batch(&items),
        Err(ApiError::IntegrityError)
    );
}

#[test]
fn distinct_operations_return_their_derived_identities() {
    let items = vec![
        valid_item(4, 11, vec![1]),
        valid_item(6, 22, vec![2]),
        valid_item(5, 33, vec![3]),
    ];
    let accepted = validate_operation_batch(&items).unwrap();
    assert_eq!(accepted.len(), 3);
    assert_eq!(accepted[0], (OperationId(11), vec![1]));
    assert_eq!(accepted[1], (OperationId(22), vec![2]));
    assert_eq!(accepted[2], (OperationId(33), vec![3]));
}

#[test]
fn duplicate_identity_keeps_first_position_and_last_payload() {
    let items = vec![
        valid_item(4, 11, vec![1]),
        valid_item(6, 22, vec![2]),
        valid_item(5, 11, vec![9]),
    ];
    let accepted = validate_operation_batch(&items).unwrap();
    assert_eq!(accepted.len(), 2);
    assert_eq!(accepted[0], (OperationId(11), vec![9]));
    assert_eq!(accepted[1], (OperationId(22), vec![2]));
}
