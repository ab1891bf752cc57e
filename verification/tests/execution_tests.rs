use massa_api::error::ApiError;
use massa_api::execution::{
    build_bytecode_request, build_bytecode_requests, build_call_request, build_call_requests,
    map_execution_outcome, ExecutionOutput, ReadOnlyBytecodeExecution, ReadOnlyCall,
    ReadOnlyExecutionTarget, ReadOnlyResult, SCOutputEvent,
};
use massa_api::models::{Address, Slot};

fn bytecode_req(address: Option<Address>) -> ReadOnlyBytecodeExecution {
    ReadOnlyBytecodeExecution {
        max_gas: 100,
        address,
        simulated_gas_price: 3,
        bytecode: vec![1, 2, 3],
    }
}

#[test]
fn bytecode_request_uses_synthesized_address_when_none_supplied() {
    let r = build_bytecode_request(&bytecode_req(None), Address(42));
    assert_eq!(r.call_stack.len(), 1);
    assert_eq!(r.call_stack[0].address, Address(42));
    assert_eq!(r.call_stack[0].coins, 0);
    assert_eq!(r.call_stack[0].owned_addresses, vec![Address(42)]);
    assert!(matches!(r.target, ReadOnlyExecutionTarget::BytecodeExecution(ref b) if *b == vec![1, 2, 3]));
}

#[test]
fn bytecode_request_keeps_supplied_address() {
    let r = build_bytecode_request(&bytecode_req(Some(Address(7))), Address(42));
    assert_eq!(r.call_stack[0].address, Address(7));
}

#[test]
fn call_request_builds_caller_then_target_frames() {
    let req = ReadOnlyCall {
        max_gas: 5,
        simulated_gas_price: 1,
        target_address: Address(9),
        target_function: String::from("transfer"),
        parameter: vec![8],
        caller_address: None,
    };
    let r = build_call_request(&req, Address(33));
    assert_eq!(r.call_stack.len(), 2);
    assert_eq!(r.call_stack[0].address, Address(33));
    assert_eq!(r.call_stack[0].owned_addresses, vec![Address(33)]);
    assert_eq!(r.call_stack[1].address, Address(9));
    assert_eq!(r.call_stack[1].owned_addresses, vec![Address(9)]);
}

#[test]
fn oversized_execution_batch_is_rejected() {
    let reqs = vec![bytecode_req(None), bytecode_req(None)];
    let fresh = vec![Address(1), Address(2)];
    assert!(matches!(
        build_bytecode_requests(&reqs, &fresh, 1),
        Err(ApiError::TooManyArguments)
    ));
    let ok = build_bytecode_requests(&reqs, &fresh, 2).unwrap();
    assert_eq!(ok.len(), 2);
    let calls: Vec<ReadOnlyCall> = vec![];
    let none: Vec<Address> = vec![];
    assert!(build_call_requests(&calls, &none, 0).is_ok());
}

#[test]
fn engine_failure_becomes_an_error_value_at_zero_slot() {
    let r = map_execution_outcome(Err(String::from("out of gas")));
    assert_eq!(r.executed_at, Slot { period: 0, thread: 0 });
    match r.result {
        ReadOnlyResult::Error(m) => assert_eq!(m, "out of gas"),
        ReadOnlyResult::Success => panic!("failure must map to an error value"),
    }
    assert!(r.output_events.is_empty());
}

#[test]
fn engine_success_keeps_slot_and_events() {
    let out = ExecutionOutput {
        slot: Slot { period: 8, thread: 1 },
        events: vec![SCOutputEvent {
            slot: Slot { period: 8, thread: 1 },
            emitter_address: Address(1),
            caller_address: Address(2),
            operation_id: None,
            data: vec![7],
        }],
    };
    let r = map_execution_outcome(Ok(out));
    assert_eq!(r.executed_at, Slot { period: 8, thread: 1 });
    assert!(matches!(r.result, ReadOnlyResult::Success));
    assert_eq!(r.output_events.len(), 1);
    assert_eq!(r.output_events[0].data, vec![7]);
}
