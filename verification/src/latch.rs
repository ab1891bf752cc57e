use vstd::prelude::*;

verus! {

/// Declaration of `std::sync::Mutex`, which vstd gives no specification;
/// the latch holds its armed/triggered flag under one.
#[verifier::external_type_specification]
#[verifier::external_body]
#[verifier::reject_recursive_types(T)]
pub struct ExMutex<T: ?Sized>(std::sync::Mutex<T>);

/// Declaration of `std::sync::Condvar`, which vstd gives no specification;
/// the latch blocks its waiters on one.
#[verifier::external_type_specification]
#[verifier::external_body]
pub struct ExCondvar(std::sync::Condvar);

/// The shared state of a one-shot latch: a flag guarded by a mutex, and a
/// condition variable the waiters block on.
pub struct LatchState {
    pub flag: std::sync::Mutex<bool>,
    pub waiters: std::sync::Condvar,
}

/// Relies on std::sync::Mutex::new and Condvar::new: builds an armed latch
/// state, its flag not yet set.
#[verifier::external_body]
fn latch_state_new() -> LatchState {
    LatchState { flag: std::sync::Mutex::new(false), waiters: std::sync::Condvar::new() }
}

/// Relies on std::sync::Arc::clone: the returned handle refers to the same
/// latch state.
#[verifier::external_body]
fn latch_share(state: &std::sync::Arc<LatchState>) -> (r: std::sync::Arc<LatchState>)
    ensures
        *r == **state,
{
    std::sync::Arc::clone(state)
}

/// Relies on std::sync::Mutex::lock and Condvar::wait, in the standard
/// guarded-wait idiom: returns only once the latch flag has been set by a
/// trigger call, blocking (not spinning) until then.
#[verifier::external_body]
fn latch_block_until_set(state: &std::sync::Arc<LatchState>) {
    let mut started = state.flag.lock().unwrap();
    while !*started {
        started = state.waiters.wait(started).unwrap();
    }
}

/// Relies on std::sync::Mutex::lock and Condvar::notify_one: sets the latch
/// flag and wakes a blocked waiter.
#[verifier::external_body]
fn latch_set_and_notify(state: &std::sync::Arc<LatchState>) {
    let mut started = state.flag.lock().unwrap();
    *started = true;
    state.waiters.notify_one();
}

/// A one-shot cross-thread latch used for deterministic test sequencing: a
/// waiter blocks until a trigger handle signals, exactly once.  It is an
/// auxiliary for test harnesses and takes no part in request handling.
pub struct Breakpoint {
    state: std::sync::Arc<LatchState>,
}

impl Breakpoint {
    /// A fresh, untriggered latch.
    pub fn new() -> Breakpoint {
        Breakpoint { state: std::sync::Arc::new(latch_state_new()) }
    }

    /// A second handle on the same latch, to hand to the triggering thread.
    pub fn get_trigger_handle(&self) -> Breakpoint {
        Breakpoint { state: latch_share(&self.state) }
    }

    /// Blocks the calling thread until the latch is triggered.
    pub fn wait(&self) {
        latch_block_until_set(&self.state);
    }

    /// Triggers the latch, releasing its waiter.
    pub fn trigger(&self) {
        latch_set_and_notify(&self.state);
    }
}

} // verus!
