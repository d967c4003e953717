//! Identifiers critical to the probe system.
//!
//! Both identifier kinds are validated at construction: non-zero,
//! range-bounded, top bit clear. The invariant is enforced only at the point
//! of construction, not rechecked on every use.

use vstd::prelude::*;

use crate::error::InvalidEventId;
use crate::error::InvalidProbeId;

verus! {

/// The largest permissible backing probe id value: 31 usable bits, top bit
/// clear. The top bit is reserved by the compact log codec as a
/// discriminator and must never be set in a valid probe id.
pub const MAX_PROBE_ID: u32 = 0x7FFF_FFFF;

/// The maximum permissible id value for an event at all.
///
/// This value is different from `MAX_USER_EVENT_ID` in order to support a
/// reserved range of event ids for protocol use.
pub const MAX_INTERNAL_EVENT_ID: u32 = 0x7FFF_FFFF;

/// The number of id values that are reserved for use by the probe
/// implementation.
pub const NUM_RESERVED_EVENT_IDS: u32 = 256;

/// The maximum permissible id value for an event defined by end users.
pub const MAX_USER_EVENT_ID: u32 = MAX_INTERNAL_EVENT_ID - NUM_RESERVED_EVENT_IDS;

/// Well-known internal event: the probe produced a log report for
/// transmission to the backend for external analysis.
pub const EVENT_PRODUCED_EXTERNAL_REPORT: u32 = MAX_INTERNAL_EVENT_ID - 1;

/// Well-known internal event: there was not sufficient room in memory to
/// store all desired events.
pub const EVENT_LOG_OVERFLOWED: u32 = MAX_INTERNAL_EVENT_ID - 2;

/// Well-known internal event: a logical clock's count reached the maximum
/// trackable value.
pub const EVENT_LOGICAL_CLOCK_OVERFLOWED: u32 = MAX_INTERNAL_EVENT_ID - 3;

/// Well-known internal event: the local probe did not have enough memory
/// reserved to track all of the unique neighbors that attempt to
/// communicate with it.
pub const EVENT_NUM_CLOCKS_OVERFLOWED: u32 = MAX_INTERNAL_EVENT_ID - 4;

/// Well-known internal event: a causal snapshot was shared in-band with
/// another part of the system.
pub const EVENT_SNAPSHOT_SHARED: u32 = MAX_INTERNAL_EVENT_ID - 5;

/// Whether a raw value is acceptable as the backing value of a `ProbeId`.
pub open spec fn probe_id_raw_valid(raw: u32) -> bool {
    0 < raw <= MAX_PROBE_ID
}

/// Whether a raw value is acceptable as the backing value of an `EventId`,
/// internal protocol events included.
pub open spec fn event_id_raw_valid(raw: u32) -> bool {
    0 < raw <= MAX_INTERNAL_EVENT_ID
}

/// Whether a raw value is in the user-assignable event id range.
pub open spec fn user_event_id_raw_valid(raw: u32) -> bool {
    0 < raw <= MAX_USER_EVENT_ID
}

/// Uniquely identifies a location where events occur within a system under
/// test. Typically represents a single thread.
///
/// Backed by a value greater than 0 and at most `MAX_PROBE_ID`, so its top
/// bit is clear by construction.
#[derive(Debug, Clone, Copy, PartialEq, Eq, Structural)]
pub struct ProbeId {
    raw: u32,
}

/// The historical name of `ProbeId`, kept for callers of the older API.
pub type TracerId = ProbeId;

impl View for ProbeId {
    type V = u32;

    closed spec fn view(&self) -> u32 {
        self.raw
    }
}

impl ProbeId {
    #[verifier::type_invariant]
    spec fn type_inv(self) -> bool {
        probe_id_raw_valid(self.raw)
    }

    /// Validating constructor: succeeds exactly when `raw_id` is greater
    /// than 0 and at most `MAX_PROBE_ID`.
    pub fn new(raw_id: u32) -> (r: Option<Self>)
        ensures
            r is Some <==> probe_id_raw_valid(raw_id),
            r matches Some(id) ==> id@ == raw_id,
    {
        if raw_id == 0 || raw_id > MAX_PROBE_ID {
            None
        } else {
            Some(ProbeId { raw: raw_id })
        }
    }

    /// Get the underlying value, guaranteed non-zero and in range.
    pub fn get(self) -> (r: u32)
        ensures
            r == self@,
            probe_id_raw_valid(r),
    {
        proof {
            use_type_invariant(self);
        }
        self.raw
    }

    /// Get the underlying value as a convenient primitive.
    pub fn get_raw(self) -> (r: u32)
        ensures
            r == self@,
            probe_id_raw_valid(r),
    {
        proof {
            use_type_invariant(self);
        }
        self.raw
    }

    /// Fallible conversion from a `u32`.
    pub fn try_from_u32(raw_id: u32) -> (r: Result<Self, InvalidProbeId>)
        ensures
            r is Ok <==> probe_id_raw_valid(raw_id),
            r matches Ok(id) ==> id@ == raw_id,
    {
        match Self::new(raw_id) {
            Some(id) => Ok(id),
            None => Err(InvalidProbeId),
        }
    }

    /// Conversion from a `u8`: the width always fits, but zero is still
    /// rejected.
    pub fn try_from_u8(raw_id: u8) -> (r: Result<Self, InvalidProbeId>)
        ensures
            r is Ok <==> raw_id > 0,
            r matches Ok(id) ==> id@ == raw_id,
    {
        Self::try_from_u32(raw_id as u32)
    }

    /// Conversion from a `u16`: the width always fits, but zero is still
    /// rejected.
    pub fn try_from_u16(raw_id: u16) -> (r: Result<Self, InvalidProbeId>)
        ensures
            r is Ok <==> raw_id > 0,
            r matches Ok(id) ==> id@ == raw_id,
    {
        Self::try_from_u32(raw_id as u32)
    }

    /// Range-checked conversion from a `u64`.
    pub fn try_from_u64(raw_id: u64) -> (r: Result<Self, InvalidProbeId>)
        ensures
            r is Ok <==> 0 < raw_id <= MAX_PROBE_ID,
            r matches Ok(id) ==> id@ == raw_id,
    {
        if raw_id > MAX_PROBE_ID as u64 {
            Err(InvalidProbeId)
        } else {
            Self::try_from_u32(raw_id as u32)
        }
    }

    /// Range-checked conversion from a `usize`.
    pub fn try_from_usize(raw_id: usize) -> (r: Result<Self, InvalidProbeId>)
        ensures
            r is Ok <==> 0 < raw_id <= MAX_PROBE_ID,
            r matches Ok(id) ==> id@ == raw_id,
    {
        Self::try_from_u64(raw_id as u64)
    }

    /// Sign- and range-checked conversion from an `i32`.
    pub fn try_from_i32(raw_id: i32) -> (r: Result<Self, InvalidProbeId>)
        ensures
            r is Ok <==> 0 < raw_id,
            r matches Ok(id) ==> id@ == raw_id,
    {
        if raw_id <= 0 {
            Err(InvalidProbeId)
        } else {
            Self::try_from_u32(raw_id as u32)
        }
    }

    /// Sign- and range-checked conversion from an `i64`.
    pub fn try_from_i64(raw_id: i64) -> (r: Result<Self, InvalidProbeId>)
        ensures
            r is Ok <==> 0 < raw_id <= MAX_PROBE_ID,
            r matches Ok(id) ==> id@ == raw_id,
    {
        if raw_id <= 0 || raw_id > MAX_PROBE_ID as i64 {
            Err(InvalidProbeId)
        } else {
            Self::try_from_u32(raw_id as u32)
        }
    }

    /// Sign-checked conversion from an `i8`: the width always fits.
    pub fn try_from_i8(raw_id: i8) -> (r: Result<Self, InvalidProbeId>)
        ensures
            r is Ok <==> 0 < raw_id,
            r matches Ok(id) ==> id@ == raw_id,
    {
        if raw_id <= 0 {
            Err(InvalidProbeId)
        } else {
            Self::try_from_u32(raw_id as u32)
        }
    }

    /// Sign-checked conversion from an `i16`: the width always fits.
    pub fn try_from_i16(raw_id: i16) -> (r: Result<Self, InvalidProbeId>)
        ensures
            r is Ok <==> 0 < raw_id,
            r matches Ok(id) ==> id@ == raw_id,
    {
        if raw_id <= 0 {
            Err(InvalidProbeId)
        } else {
            Self::try_from_u32(raw_id as u32)
        }
    }

    /// Sign- and range-checked conversion from an `isize`.
    pub fn try_from_isize(raw_id: isize) -> (r: Result<Self, InvalidProbeId>)
        ensures
            r is Ok <==> 0 < raw_id <= MAX_PROBE_ID,
            r matches Ok(id) ==> id@ == raw_id,
    {
        if raw_id <= 0 {
            Err(InvalidProbeId)
        } else {
            Self::try_from_u64(raw_id as u64)
        }
    }

    /// Range-checked conversion from a `u128`.
    pub fn try_from_u128(raw_id: u128) -> (r: Result<Self, InvalidProbeId>)
        ensures
            r is Ok <==> 0 < raw_id <= MAX_PROBE_ID,
            r matches Ok(id) ==> id@ == raw_id,
    {
        if raw_id > MAX_PROBE_ID as u128 {
            Err(InvalidProbeId)
        } else {
            Self::try_from_u32(raw_id as u32)
        }
    }

    /// Sign- and range-checked conversion from an `i128`.
    pub fn try_from_i128(raw_id: i128) -> (r: Result<Self, InvalidProbeId>)
        ensures
            r is Ok <==> 0 < raw_id <= MAX_PROBE_ID,
            r matches Ok(id) ==> id@ == raw_id,
    {
        if raw_id <= 0 || raw_id > MAX_PROBE_ID as i128 {
            Err(InvalidProbeId)
        } else {
            Self::try_from_u32(raw_id as u32)
        }
    }
}

/// Uniquely identifies an event or kind of event.
///
/// Backed by a value greater than 0 and at most `MAX_INTERNAL_EVENT_ID`, so
/// its top bit is clear by construction. User-assignable ids stop at
/// `MAX_USER_EVENT_ID`; the ids above it are reserved for the probe
/// protocol itself.
#[derive(Debug, Clone, Copy, PartialEq, Eq, Structural)]
pub struct EventId {
    raw: u32,
}

impl View for EventId {
    type V = u32;

    closed spec fn view(&self) -> u32 {
        self.raw
    }
}

impl EventId {
    #[verifier::type_invariant]
    spec fn type_inv(self) -> bool {
        event_id_raw_valid(self.raw)
    }

    /// Validating constructor for user-assigned ids: succeeds exactly when
    /// `raw_id` is greater than 0 and at most `MAX_USER_EVENT_ID`.
    pub fn new(raw_id: u32) -> (r: Option<Self>)
        ensures
            r is Some <==> user_event_id_raw_valid(raw_id),
            r matches Some(id) ==> id@ == raw_id,
    {
        if raw_id == 0 || raw_id > MAX_USER_EVENT_ID {
            None
        } else {
            Some(EventId { raw: raw_id })
        }
    }

    /// Constructor for the reserved internal protocol ids.
    pub(crate) fn internal(raw_id: u32) -> (r: Self)
        requires
            MAX_USER_EVENT_ID < raw_id <= MAX_INTERNAL_EVENT_ID,
        ensures
            r@ == raw_id,
    {
        EventId { raw: raw_id }
    }

    /// Get the underlying value, guaranteed non-zero and in range.
    pub fn get(self) -> (r: u32)
        ensures
            r == self@,
            event_id_raw_valid(r),
    {
        proof {
            use_type_invariant(self);
        }
        self.raw
    }

    /// Get the underlying value as a convenient primitive.
    pub fn get_raw(self) -> (r: u32)
        ensures
            r == self@,
            event_id_raw_valid(r),
    {
        proof {
            use_type_invariant(self);
        }
        self.raw
    }

    /// Fallible conversion from a `u32`.
    pub fn try_from_u32(raw_id: u32) -> (r: Result<Self, InvalidEventId>)
        ensures
            r is Ok <==> user_event_id_raw_valid(raw_id),
            r matches Ok(id) ==> id@ == raw_id,
    {
        match Self::new(raw_id) {
            Some(id) => Ok(id),
            None => Err(InvalidEventId),
        }
    }

    /// Conversion from a `u8`: the width always fits, but zero is still
    /// rejected.
    pub fn try_from_u8(raw_id: u8) -> (r: Result<Self, InvalidEventId>)
        ensures
            r is Ok <==> raw_id > 0,
            r matches Ok(id) ==> id@ == raw_id,
    {
        Self::try_from_u32(raw_id as u32)
    }

    /// Conversion from a `u16`: the width always fits, but zero is still
    /// rejected.
    pub fn try_from_u16(raw_id: u16) -> (r: Result<Self, InvalidEventId>)
        ensures
            r is Ok <==> raw_id > 0,
            r matches Ok(id) ==> id@ == raw_id,
    {
        Self::try_from_u32(raw_id as u32)
    }

    /// Range-checked conversion from a `u64`.
    pub fn try_from_u64(raw_id: u64) -> (r: Result<Self, InvalidEventId>)
        ensures
            r is Ok <==> 0 < raw_id <= MAX_USER_EVENT_ID,
            r matches Ok(id) ==> id@ == raw_id,
    {
        if raw_id > MAX_USER_EVENT_ID as u64 {
            Err(InvalidEventId)
        } else {
            Self::try_from_u32(raw_id as u32)
        }
    }

    /// Range-checked conversion from a `usize`.
    pub fn try_from_usize(raw_id: usize) -> (r: Result<Self, InvalidEventId>)
        ensures
            r is Ok <==> 0 < raw_id <= MAX_USER_EVENT_ID,
            r matches Ok(id) ==> id@ == raw_id,
    {
        Self::try_from_u64(raw_id as u64)
    }

    /// Sign- and range-checked conversion from an `i32`.
    pub fn try_from_i32(raw_id: i32) -> (r: Result<Self, InvalidEventId>)
        ensures
            r is Ok <==> 0 < raw_id <= MAX_USER_EVENT_ID,
            r matches Ok(id) ==> id@ == raw_id,
    {
        if raw_id <= 0 {
            Err(InvalidEventId)
        } else {
            Self::try_from_u32(raw_id as u32)
        }
    }

    /// Sign- and range-checked conversion from an `i64`.
    pub fn try_from_i64(raw_id: i64) -> (r: Result<Self, InvalidEventId>)
        ensures
            r is Ok <==> 0 < raw_id <= MAX_USER_EVENT_ID,
            r matches Ok(id) ==> id@ == raw_id,
    {
        if raw_id <= 0 || raw_id > MAX_USER_EVENT_ID as i64 {
            Err(InvalidEventId)
        } else {
            Self::try_from_u32(raw_id as u32)
        }
    }

    /// Sign-checked conversion from an `i8`: the width always fits.
    pub fn try_from_i8(raw_id: i8) -> (r: Result<Self, InvalidEventId>)
        ensures
            r is Ok <==> 0 < raw_id,
            r matches Ok(id) ==> id@ == raw_id,
    {
        if raw_id <= 0 {
            Err(InvalidEventId)
        } else {
            Self::try_from_u32(raw_id as u32)
        }
    }

    /// Sign-checked conversion from an `i16`: the width always fits.
    pub fn try_from_i16(raw_id: i16) -> (r: Result<Self, InvalidEventId>)
        ensures
            r is Ok <==> 0 < raw_id,
            r matches Ok(id) ==> id@ == raw_id,
    {
        if raw_id <= 0 {
            Err(InvalidEventId)
        } else {
            Self::try_from_u32(raw_id as u32)
        }
    }

    /// Sign- and range-checked conversion from an `isize`.
    pub fn try_from_isize(raw_id: isize) -> (r: Result<Self, InvalidEventId>)
        ensures
            r is Ok <==> 0 < raw_id <= MAX_USER_EVENT_ID,
            r matches Ok(id) ==> id@ == raw_id,
    {
        if raw_id <= 0 {
            Err(InvalidEventId)
        } else {
            Self::try_from_u64(raw_id as u64)
        }
    }

    /// Range-checked conversion from a `u128`.
    pub fn try_from_u128(raw_id: u128) -> (r: Result<Self, InvalidEventId>)
        ensures
            r is Ok <==> 0 < raw_id <= MAX_USER_EVENT_ID,
            r matches Ok(id) ==> id@ == raw_id,
    {
        if raw_id > MAX_USER_EVENT_ID as u128 {
            Err(InvalidEventId)
        } else {
            Self::try_from_u32(raw_id as u32)
        }
    }

    /// Sign- and range-checked conversion from an `i128`.
    pub fn try_from_i128(raw_id: i128) -> (r: Result<Self, InvalidEventId>)
        ensures
            r is Ok <==> 0 < raw_id <= MAX_USER_EVENT_ID,
            r matches Ok(id) ==> id@ == raw_id,
    {
        if raw_id <= 0 || raw_id > MAX_USER_EVENT_ID as i128 {
            Err(InvalidEventId)
        } else {
            Self::try_from_u32(raw_id as u32)
        }
    }
}

} // verus!
