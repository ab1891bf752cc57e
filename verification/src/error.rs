use vstd::prelude::*;

verus! {

/// The collaborator subsystems a request may fan out to.  A pass-through
/// failure is tagged with the subsystem it came from so the caller can tell
/// which branch of an aggregation failed.
#[derive(Clone, Copy, PartialEq, Eq, Structural, Debug)]
pub enum Subsystem {
    Consensus,
    Network,
    Pool,
    Execution,
    Selector,
}

/// Failure taxonomy of the query surface.
///
/// Every error is fatal to the single request that raised it, never to the
/// process; concurrently in-flight requests are unaffected.
#[derive(Clone, Copy, PartialEq, Eq, Structural, Debug)]
pub enum ApiError {
    /// A batched request held more items than the configured maximum.
    /// Raised before any subsystem is contacted.
    TooManyArguments,
    /// A collaborator violated an invariant the aggregation relies on,
    /// e.g. it reported no unique blockclique.
    InconsistencyError,
    /// An expected per-address sub-result was missing when the fan-out
    /// results were joined.
    NotFound,
    /// The endpoint exists only on the node-administration personality of
    /// the interface; calling it here performs no work.
    WrongApiSurface,
    /// A submitted operation could not be deserialized, or deserialization
    /// left trailing undecoded bytes.
    DeserializeError,
    /// A submitted operation failed its cryptographic integrity check.
    IntegrityError,
    /// A logical-time computation left the representable range.
    TimeOverflow,
    /// A collaborator call itself failed; the tag names the subsystem.
    SubsystemFailure(Subsystem),
}

} // verus!
