//! The connector's error taxonomy: configuration faults, lifecycle protocol
//! violations, encoding failures and publish failures.

use vstd::prelude::*;

verus! {

/// Every failure the connector core can report.
///
/// Connection-level faults (transport or authentication) never originate in
/// this core: the unverified shell that owns the network session maps them to
/// its own error type before they reach a caller.
#[derive(Clone, Copy, Debug, PartialEq, Eq, Structural)]
pub enum OutputError {
    /// Fault tolerance was requested without a JetStream configuration.
    MissingJetStreamConfig,
    /// A JetStream configuration was given but fault tolerance is disabled in it.
    FaultToleranceDisabled,
    /// An operation that needs an established session ran before `connect`.
    NotConnected,
    /// `batch_start` was called while a batch was still open.
    BatchAlreadyOpen,
    /// `batch_start` was called with a step other than the one expected next.
    StepMismatch { expected: u64, got: u64 },
    /// A push or `batch_end` was called while no batch was open.
    NotInBatch,
    /// `push_key` was called with neither a key nor a value.
    MissingKeyAndValue,
    /// The key bytes of a `push_key` call are not valid UTF-8.
    InvalidKey,
    /// The value bytes of a `push_key` call are not valid UTF-8.
    InvalidValue,
    /// A caller-supplied header value is not valid UTF-8.
    InvalidHeaderValue,
    /// Publishing or awaiting acknowledgment failed while flushing a batch.
    Publish,
}

} // verus!
