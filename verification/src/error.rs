//! Errors exposed by the probe API.
//!
//! All failures are small, copyable values so that they remain suitable for
//! bounded, allocation-free, embedded use. Every error surfaces synchronously
//! to the immediate caller; the engine never retries internally.

use vstd::prelude::*;

verus! {

/// An invalid event id was detected.
///
/// Event ids must be greater than 0 and at most `MAX_USER_EVENT_ID`.
#[derive(Debug, Clone, Copy, PartialEq, Eq, Structural)]
pub struct InvalidEventId;

/// An invalid probe id was detected.
///
/// Probe ids must be greater than 0 and at most `MAX_PROBE_ID`.
#[derive(Debug, Clone, Copy, PartialEq, Eq, Structural)]
pub struct InvalidProbeId;

/// An error relating to the initialization of a probe instance from parts.
#[derive(Debug, Clone, Copy, PartialEq, Eq, Structural)]
pub enum InitializationError {
    /// A provided primitive, unvalidated probe id turned out to be invalid.
    InvalidProbeId,
    /// A problem with the backing memory setup.
    StorageSetupError(StorageSetupError),
}

/// An error relating to the initialization of in-memory probe storage.
#[derive(Debug, Clone, Copy, PartialEq, Eq, Structural)]
pub enum StorageSetupError {
    /// The provided storage space was insufficient to support a minimally
    /// useful probe implementation.
    UnderMinimumAllowedSize,
    /// The provided space for clock entries and logging exceeded the number
    /// of units the probe implementation can track.
    ExceededMaximumAddressableSize,
    /// The provided or computed output pointer for probe data storage turned
    /// out to be null.
    NullDestination,
}

/// The errors that can occur when producing a probe's causal history
/// snapshot for use by some other probe instance.
#[derive(Debug, Clone, Copy, PartialEq, Eq, Structural)]
pub enum ProduceError {
    /// The destination that is receiving the history is not big enough.
    InsufficientDestinationSize,
}

/// The errors that can occur when merging in the causal history from some
/// other probe instance.
#[derive(Debug, Clone, Copy, PartialEq, Eq, Structural)]
pub enum MergeError {
    /// The local probe does not have enough space to track all of the direct
    /// neighbors attempting to communicate with it.
    ExceededAvailableClocks,
    /// The external history source buffer we attempted to merge was
    /// insufficiently sized for a valid causal snapshot.
    InsufficientSourceSize,
    /// The external history violated a semantic rule of the protocol, such
    /// as by having a probe id out of the allowed value range.
    ExternalHistorySemantics,
}

/// The error relating to producing a full causal history log report.
#[derive(Debug, Clone, Copy, PartialEq, Eq, Structural)]
pub enum ReportError {
    /// The destination that is receiving the report is not big enough.
    InsufficientDestinationSize,
}

/// General purpose error that captures all errors that arise from using the
/// probe APIs.
///
/// Not directly returned by any of the public APIs, but provided as a
/// convenience for catch-all error piping.
#[derive(Debug, Clone, Copy, PartialEq, Eq, Structural)]
pub enum ModalityProbeError {
    /// An invalid event id was detected.
    InvalidEventId,
    /// An invalid probe id was detected.
    InvalidProbeId,
    /// An error relating to the initialization of a probe instance.
    InitializationError(InitializationError),
    /// An error from producing a causal history snapshot.
    ProduceError(ProduceError),
    /// An error from merging an external causal history.
    MergeError(MergeError),
    /// An error from producing a full causal history log report.
    ReportError(ReportError),
}

impl From<InvalidEventId> for ModalityProbeError {
    fn from(_e: InvalidEventId) -> (r: Self)
        ensures
            r == ModalityProbeError::InvalidEventId,
    {
        ModalityProbeError::InvalidEventId
    }
}

impl vstd::std_specs::convert::FromSpecImpl<InvalidEventId> for ModalityProbeError {
    open spec fn obeys_from_spec() -> bool {
        true
    }

    open spec fn from_spec(v: InvalidEventId) -> ModalityProbeError {
        ModalityProbeError::InvalidEventId
    }
}

impl From<InvalidProbeId> for ModalityProbeError {
    fn from(_e: InvalidProbeId) -> (r: Self)
        ensures
            r == ModalityProbeError::InvalidProbeId,
    {
        ModalityProbeError::InvalidProbeId
    }
}

impl vstd::std_specs::convert::FromSpecImpl<InvalidProbeId> for ModalityProbeError {
    open spec fn obeys_from_spec() -> bool {
        true
    }

    open spec fn from_spec(v: InvalidProbeId) -> ModalityProbeError {
        ModalityProbeError::InvalidProbeId
    }
}

impl From<InitializationError> for ModalityProbeError {
    fn from(e: InitializationError) -> (r: Self)
        ensures
            r == ModalityProbeError::InitializationError(e),
    {
        ModalityProbeError::InitializationError(e)
    }
}

impl vstd::std_specs::convert::FromSpecImpl<InitializationError> for ModalityProbeError {
    open spec fn obeys_from_spec() -> bool {
        true
    }

    open spec fn from_spec(v: InitializationError) -> ModalityProbeError {
        ModalityProbeError::InitializationError(v)
    }
}

impl From<ProduceError> for ModalityProbeError {
    fn from(e: ProduceError) -> (r: Self)
        ensures
            r == ModalityProbeError::ProduceError(e),
    {
        ModalityProbeError::ProduceError(e)
    }
}

impl vstd::std_specs::convert::FromSpecImpl<ProduceError> for ModalityProbeError {
    open spec fn obeys_from_spec() -> bool {
        true
    }

    open spec fn from_spec(v: ProduceError) -> ModalityProbeError {
        ModalityProbeError::ProduceError(v)
    }
}

impl From<MergeError> for ModalityProbeError {
    fn from(e: MergeError) -> (r: Self)
        ensures
            r == ModalityProbeError::MergeError(e),
    {
        ModalityProbeError::MergeError(e)
    }
}

impl vstd::std_specs::convert::FromSpecImpl<MergeError> for ModalityProbeError {
    open spec fn obeys_from_spec() -> bool {
        true
    }

    open spec fn from_spec(v: MergeError) -> ModalityProbeError {
        ModalityProbeError::MergeError(v)
    }
}

impl From<ReportError> for ModalityProbeError {
    fn from(e: ReportError) -> (r: Self)
        ensures
            r == ModalityProbeError::ReportError(e),
    {
        ModalityProbeError::ReportError(e)
    }
}

impl vstd::std_specs::convert::FromSpecImpl<ReportError> for ModalityProbeError {
    open spec fn obeys_from_spec() -> bool {
        true
    }

    open spec fn from_spec(v: ReportError) -> ModalityProbeError {
        ModalityProbeError::ReportError(v)
    }
}

impl From<StorageSetupError> for ModalityProbeError {
    fn from(e: StorageSetupError) -> (r: Self)
        ensures
            r == ModalityProbeError::InitializationError(
                InitializationError::StorageSetupError(e),
            ),
    {
        ModalityProbeError::InitializationError(InitializationError::StorageSetupError(e))
    }
}

impl vstd::std_specs::convert::FromSpecImpl<StorageSetupError> for ModalityProbeError {
    open spec fn obeys_from_spec() -> bool {
        true
    }

    open spec fn from_spec(v: StorageSetupError) -> ModalityProbeError {
        ModalityProbeError::InitializationError(InitializationError::StorageSetupError(v))
    }
}

} // verus!
