use vstd::prelude::*;

use crate::error::ApiError;
use crate::models::{copy_vec, Address, OperationId, Slot};

verus! {

/// One externally supplied bytecode-execution request.
pub struct ReadOnlyBytecodeExecution {
    pub max_gas: u64,
    pub address: Option<Address>,
    pub simulated_gas_price: u64,
    pub bytecode: Vec<u8>,
}

/// One externally supplied function-call request.
pub struct ReadOnlyCall {
    pub max_gas: u64,
    pub simulated_gas_price: u64,
    pub target_address: Address,
    pub target_function: String,
    pub parameter: Vec<u8>,
    pub caller_address: Option<Address>,
}

/// One frame of the call stack handed to the execution engine.
pub struct ExecutionStackElement {
    pub address: Address,
    pub coins: u64,
    pub owned_addresses: Vec<Address>,
}

/// What a read-only execution runs: a raw bytecode blob, or a call into a
/// deployed contract.
pub enum ReadOnlyExecutionTarget {
    BytecodeExecution(Vec<u8>),
    FunctionCall { target_addr: Address, target_func: String, parameter: Vec<u8> },
}

/// The execution engine's request shape.
pub struct ReadOnlyExecutionRequest {
    pub max_gas: u64,
    pub simulated_gas_price: u64,
    pub target: ReadOnlyExecutionTarget,
    pub call_stack: Vec<ExecutionStackElement>,
}

/// An event emitted by simulated execution.
pub struct SCOutputEvent {
    pub slot: Slot,
    pub emitter_address: Address,
    pub caller_address: Address,
    pub operation_id: Option<OperationId>,
    pub data: Vec<u8>,
}

/// What a successful simulated execution yields.
pub struct ExecutionOutput {
    pub slot: Slot,
    pub events: Vec<SCOutputEvent>,
}

/// The result tag of a read-only response: success, or a typed error value
/// carrying the engine's message.  An execution failure is a value, never a
/// protocol failure.
pub enum ReadOnlyResult {
    Success,
    Error(String),
}

/// The caller-facing response for one read-only request.
pub struct ExecuteReadOnlyResponse {
    pub executed_at: Slot,
    pub result: ReadOnlyResult,
    pub output_events: Vec<SCOutputEvent>,
}

/// The request owed for one bytecode execution: the caller's gas settings,
/// the bytecode as target, and a single-frame call stack at the supplied
/// address, or at the synthesized one when none was supplied; the frame
/// carries no coins and owns exactly its own address.
pub open spec fn matches_bytecode_request(
    r: ReadOnlyExecutionRequest,
    q: ReadOnlyBytecodeExecution,
    fresh: Address,
) -> bool {
    let a = if q.address is Some {
        q.address->Some_0
    } else {
        fresh
    };
    &&& r.max_gas == q.max_gas
    &&& r.simulated_gas_price == q.simulated_gas_price
    &&& r.target matches ReadOnlyExecutionTarget::BytecodeExecution(b) && b@ == q.bytecode@
    &&& r.call_stack@.len() == 1
    &&& r.call_stack@[0].address == a
    &&& r.call_stack@[0].coins == 0
    &&& r.call_stack@[0].owned_addresses@ == seq![a]
}

/// Builds the execution-engine request for one bytecode execution.
/// `fresh_address` is the throwaway address synthesized by the caller for
/// this single request; it is used only when the request supplies none.
pub fn build_bytecode_request(req: &ReadOnlyBytecodeExecution, fresh_address: Address) -> (r:
    ReadOnlyExecutionRequest)
    ensures
        matches_bytecode_request(r, *req, fresh_address),
{
    let address = match req.address {
        Some(a) => a,
        None => fresh_address,
    };
    let mut owned: Vec<Address> = Vec::new();
    owned.push(address);
    proof {
        assert(owned@ =~= seq![address]);
    }
    let mut call_stack: Vec<ExecutionStackElement> = Vec::new();
    call_stack.push(ExecutionStackElement { address, coins: 0, owned_addresses: owned });
    ReadOnlyExecutionRequest {
        max_gas: req.max_gas,
        simulated_gas_price: req.simulated_gas_price,
        target: ReadOnlyExecutionTarget::BytecodeExecution(copy_vec(&req.bytecode)),
        call_stack,
    }
}

/// The request owed for one function call: a two-frame call stack, caller
/// frame first and target frame second, so the engine can resolve ownership;
/// the caller frame sits at the supplied caller address, or at the
/// synthesized one when none was supplied.
pub open spec fn matches_call_request(
    r: ReadOnlyExecutionRequest,
    q: ReadOnlyCall,
    fresh: Address,
) -> bool {
    let caller = if q.caller_address is Some {
        q.caller_address->Some_0
    } else {
        fresh
    };
    &&& r.max_gas == q.max_gas
    &&& r.simulated_gas_price == q.simulated_gas_price
    &&& r.target matches ReadOnlyExecutionTarget::FunctionCall {
        target_addr,
        target_func,
        parameter,
    } && target_addr == q.target_address && target_func@ == q.target_function@ && parameter@
        == q.parameter@
    &&& r.call_stack@.len() == 2
    &&& r.call_stack@[0].address == caller
    &&& r.call_stack@[0].coins == 0
    &&& r.call_stack@[0].owned_addresses@ == seq![caller]
    &&& r.call_stack@[1].address == q.target_address
    &&& r.call_stack@[1].coins == 0
    &&& r.call_stack@[1].owned_addresses@ == seq![q.target_address]
}

/// Builds the execution-engine request for one function call.
/// `fresh_caller` is the throwaway caller address synthesized for this
/// single request; it is used only when the request names no caller.
pub fn build_call_request(req: &ReadOnlyCall, fresh_caller: Address) -> (r:
    ReadOnlyExecutionRequest)
    ensures
        matches_call_request(r, *req, fresh_caller),
{
    let caller = match req.caller_address {
        Some(a) => a,
        None => fresh_caller,
    };
    let mut caller_owned: Vec<Address> = Vec::new();
    caller_owned.push(caller);
    let mut target_owned: Vec<Address> = Vec::new();
    target_owned.push(req.target_address);
    proof {
        assert(caller_owned@ =~= seq![caller]);
        assert(target_owned@ =~= seq![req.target_address]);
    }
    let mut call_stack: Vec<ExecutionStackElement> = Vec::new();
    call_stack.push(
        ExecutionStackElement { address: caller, coins: 0, owned_addresses: caller_owned },
    );
    call_stack.push(
        ExecutionStackElement {
            address: req.target_address,
            coins: 0,
            owned_addresses: target_owned,
        },
    );
    ReadOnlyExecutionRequest {
        max_gas: req.max_gas,
        simulated_gas_price: req.simulated_gas_price,
        target: ReadOnlyExecutionTarget::FunctionCall {
            target_addr: req.target_address,
            target_func: req.target_function.clone(),
            parameter: copy_vec(&req.parameter),
        },
        call_stack,
    }
}

/// Plans a whole bytecode-execution batch: rejects it up front when it
/// exceeds the configured maximum, and otherwise builds one engine request
/// per input, positionally aligned.  `fresh` supplies one synthesized
/// throwaway address per input, consumed only where an input names no
/// address.
pub fn build_bytecode_requests(
    reqs: &Vec<ReadOnlyBytecodeExecution>,
    fresh: &Vec<Address>,
    max_arguments: u64,
) -> (r: Result<Vec<ReadOnlyExecutionRequest>, ApiError>)
    requires
        fresh@.len() == reqs@.len(),
    ensures
        r is Ok <==> reqs@.len() as u64 <= max_arguments,
        r is Err ==> r == Err::<Vec<ReadOnlyExecutionRequest>, ApiError>(
            ApiError::TooManyArguments,
        ),
        match r {
            Ok(plans) => plans@.len() == reqs@.len() && (forall|i: int|
                0 <= i < plans@.len() ==> matches_bytecode_request(
                    plans@[i],
                    reqs@[i],
                    fresh@[i],
                )),
            Err(_) => true,
        },
{
    if reqs.len() as u64 > max_arguments {
        return Err(ApiError::TooManyArguments);
    }
    let mut plans: Vec<ReadOnlyExecutionRequest> = Vec::new();
    let mut i: usize = 0;
    while i < reqs.len()
        invariant
            i <= reqs@.len(),
            fresh@.len() == reqs@.len(),
            plans@.len() == i,
            forall|k: int|
                0 <= k < i ==> matches_bytecode_request(plans@[k], reqs@[k], fresh@[k]),
        decreases reqs.len() - i,
    {
        let plan = build_bytecode_request(&reqs[i], fresh[i]);
        plans.push(plan);
        i += 1;
    }
    Ok(plans)
}

/// Plans a whole function-call batch, mirroring `build_bytecode_requests`.
pub fn build_call_requests(reqs: &Vec<ReadOnlyCall>, fresh: &Vec<Address>, max_arguments: u64) -> (r:
    Result<Vec<ReadOnlyExecutionRequest>, ApiError>)
    requires
        fresh@.len() == reqs@.len(),
    ensures
        r is Ok <==> reqs@.len() as u64 <= max_arguments,
        r is Err ==> r == Err::<Vec<ReadOnlyExecutionRequest>, ApiError>(
            ApiError::TooManyArguments,
        ),
        match r {
            Ok(plans) => plans@.len() == reqs@.len() && (forall|i: int|
                0 <= i < plans@.len() ==> matches_call_request(plans@[i], reqs@[i], fresh@[i])),
            Err(_) => true,
        },
{
    if reqs.len() as u64 > max_arguments {
        return Err(ApiError::TooManyArguments);
    }
    let mut plans: Vec<ReadOnlyExecutionRequest> = Vec::new();
    let mut i: usize = 0;
    while i < reqs.len()
        invariant
            i <= reqs@.len(),
            fresh@.len() == reqs@.len(),
            plans@.len() == i,
            forall|k: int| 0 <= k < i ==> matches_call_request(plans@[k], reqs@[k], fresh@[k]),
        decreases reqs.len() - i,
    {
        let plan = build_call_request(&reqs[i], fresh[i]);
        plans.push(plan);
        i += 1;
    }
    Ok(plans)
}

/// Maps one engine outcome into the caller-facing response: a success
/// carries the slot it ran at and its events; a failure becomes a response
/// with the zero slot, an error-tagged result holding the engine's message,
/// and no events.  The failure is a value, so the enclosing batch succeeds.
pub fn map_execution_outcome(outcome: Result<ExecutionOutput, String>) -> (r:
    ExecuteReadOnlyResponse)
    ensures
        match outcome {
            Ok(out) => {
                &&& r.executed_at == out.slot
                &&& r.result is Success
                &&& r.output_events == out.events
            },
            Err(msg) => {
                &&& r.executed_at == (Slot { period: 0, thread: 0 })
                &&& r.result matches ReadOnlyResult::Error(m) && m@ == msg@
                &&& r.output_events@ == Seq::<SCOutputEvent>::empty()
            },
        },
{
    match outcome {
        Ok(out) => ExecuteReadOnlyResponse {
            executed_at: out.slot,
            result: ReadOnlyResult::Success,
            output_events: out.events,
        },
        Err(msg) => {
            let events: Vec<SCOutputEvent> = Vec::new();
            ExecuteReadOnlyResponse {
                executed_at: Slot { period: 0, thread: 0 },
                result: ReadOnlyResult::Error(msg),
                output_events: events,
            }
        },
    }
}

} // verus!
