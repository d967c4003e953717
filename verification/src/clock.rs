//! Logical clocks: one probe's view of another probe's progress.

use vstd::prelude::*;

verus! {

/// A (probe id, count) pair representing the count of events the local
/// probe has observed (directly or transitively) as having occurred at the
/// probe identified by `id`.
///
/// Note the use of a bare integer id rather than the safety-oriented
/// `ProbeId` wrapper, so that externally supplied clock entries can be
/// represented before they have been validated.
#[derive(Debug, Clone, Copy, Default, PartialEq, Eq, Structural)]
pub struct LogicalClock {
    /// The probe that this clock is tracking.
    pub id: u32,
    /// Clock tick count.
    pub count: u32,
}

} // verus!
