//! Classified failures of the activity pipeline.
//!
//! Every stage fails fast with one of these; no stage commits a partial
//! state transition and then fails.

use vstd::prelude::*;

verus! {

/// Rejections raised while establishing the authenticity of an activity.
#[derive(Clone, Copy, Debug, PartialEq, Eq, Structural)]
pub enum VerificationError {
    /// The authority of the activity id, its actor or its embedded object
    /// differ from one another.
    DomainMismatch,
    /// The transport-level signature does not check out against the actor's key.
    SignatureInvalid,
    /// The claimed actor could not be resolved to a known identity.
    ActorUnresolvable,
}

/// Failures while turning a remote id into a locally stored entity.
#[derive(Clone, Copy, Debug, PartialEq, Eq, Structural)]
pub enum ResolutionError {
    /// The per-activity fetch budget ran out before resolution finished.
    RecursionLimitExceeded,
    /// The remote server did not hand the object over (missing or unreachable).
    FetchFailed,
    /// The remote payload could not be read as an entity of any kind.
    InvalidRemoteObject,
    /// The fetched object is not of the kind the caller expected.
    TypeMismatch,
}

/// A classified failure of the whole inbound pipeline.
#[derive(Clone, Copy, Debug, PartialEq, Eq, Structural)]
pub enum PipelineError {
    /// The envelope is malformed for its kind (e.g. a Create without a payload).
    Validation,
    /// The activity failed an authenticity check; nothing was mutated.
    Verification(VerificationError),
    /// A referenced remote object could not be resolved.
    Resolution(ResolutionError),
    /// The (activity kind, actor kind) pair has no handler; receipt is
    /// acknowledged and nothing is mutated.
    Unsupported,
}

} // verus!
