use vstd::prelude::*;

verus! {

/// Every way a router operation can fail.
///
/// An operation either fully succeeds or returns one of these and leaves the
/// whole router state exactly as it was.
#[derive(Clone, Copy, Debug, PartialEq, Eq, Structural)]
pub enum RouterError {
    /// A required adapter bit is clear, or a send found no enabled adapter.
    AdapterNotEnabled,
    /// An integrator already has the maximum number of adapters.
    TooManyAdapters,
    /// The named adapter is not registered for this integrator.
    UnknownAdapter,
    /// The adapter identity is already registered for this integrator.
    AdapterAlreadyRegistered,
    /// Enabling an adapter whose bit is already set.
    TransceiverAlreadyEnabled,
    /// Disabling an adapter whose bit is already clear.
    TransceiverAlreadyDisabled,
    /// The same adapter attested twice to the same message.
    DuplicateMessageAttestation,
    /// The caller is not the required admin, owner or pending admin, or the
    /// integrator configuration has become immutable.
    CallerNotAuthorized,
    /// A mutating call arrived while an admin transfer is pending.
    AdminTransferInProgress,
    /// A bitmap index of 128 or more.
    IndexOutOfRange,
    /// The per-integrator sequence counter is exhausted.
    SequenceOverflow,
    /// The integrator id counter is exhausted.
    IntegratorIdOverflow,
    /// The attestation record was already consumed by a release call.
    AlreadyExecuted,
}

} // verus!
