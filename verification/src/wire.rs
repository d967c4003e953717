//! The wire protocol for exchanging causal snapshots between probes.
//!
//! One logical clock entry travels as a fixed 12-byte little-endian record:
//! `probe_id: u32 | count: u32 | reserved_0: u16 | reserved_1: u16`.
//! The codec wraps a caller-owned byte buffer and offers read and write
//! accessors over the same layout. Every accessor first checks the buffer
//! length and fails with `MissingBytes` if it is undersized; reading the
//! probe id additionally validates it against the `ProbeId` range.

use vstd::prelude::*;

use crate::bytes::lemma_u16_le_round_trip;
use crate::bytes::lemma_u32_le_round_trip;
use crate::bytes::read_u16_le;
use crate::bytes::read_u16_le_at;
use crate::bytes::read_u32_le;
use crate::bytes::read_u32_le_at;
use crate::bytes::write_u16_le;
use crate::bytes::write_u16_le_at;
use crate::bytes::write_u32_le;
use crate::bytes::write_u32_le_at;
use crate::id::probe_id_raw_valid;
use crate::id::ProbeId;

verus! {

/// The size in bytes of one causal snapshot wire record.
pub const WIRE_SNAPSHOT_LEN: usize = 12;

/// Everything that can go wrong when interpreting a causal snapshot from
/// the wire representation.
#[derive(Debug, Clone, Copy, PartialEq, Eq, Hash, Structural)]
pub enum CausalSnapshotWireError {
    /// There weren't enough bytes for a full causal snapshot.
    MissingBytes,
    /// The stored probe id didn't follow the rules for a valid `ProbeId`.
    InvalidProbeId(u32),
}

/// A read/write wrapper around a causal snapshot buffer.
#[derive(Debug, Clone)]
pub struct CausalSnapshot {
    buffer: Vec<u8>,
}

impl View for CausalSnapshot {
    type V = Seq<u8>;

    closed spec fn view(&self) -> Seq<u8> {
        self.buffer@
    }
}

impl CausalSnapshot {
    /// Construct a causal snapshot wrapper from a byte buffer, without
    /// checking its length.
    pub fn new_unchecked(buffer: Vec<u8>) -> (r: CausalSnapshot)
        ensures
            r@ == buffer@,
    {
        CausalSnapshot { buffer }
    }

    /// Construct a causal snapshot wrapper from a byte buffer, with checks.
    ///
    /// A combination of [`new_unchecked`](Self::new_unchecked) and
    /// [`check_len`](Self::check_len).
    pub fn new(buffer: Vec<u8>) -> (r: Result<CausalSnapshot, CausalSnapshotWireError>)
        ensures
            match r {
                Ok(s) => buffer@.len() >= WIRE_SNAPSHOT_LEN && s@ == buffer@,
                Err(e) => buffer@.len() < WIRE_SNAPSHOT_LEN && e
                    == CausalSnapshotWireError::MissingBytes,
            },
    {
        let r = Self::new_unchecked(buffer);
        match r.check_len() {
            Ok(()) => Ok(r),
            Err(e) => Err(e),
        }
    }

    /// Ensure that no accessor will fail for want of bytes.
    ///
    /// Returns `Err(MissingBytes)` exactly when the buffer is too short.
    pub fn check_len(&self) -> (r: Result<(), CausalSnapshotWireError>)
        ensures
            match r {
                Ok(()) => self@.len() >= WIRE_SNAPSHOT_LEN,
                Err(e) => self@.len() < WIRE_SNAPSHOT_LEN && e
                    == CausalSnapshotWireError::MissingBytes,
            },
    {
        if self.buffer.len() < WIRE_SNAPSHOT_LEN {
            Err(CausalSnapshotWireError::MissingBytes)
        } else {
            Ok(())
        }
    }

    /// Consume the wrapper, returning the underlying buffer.
    pub fn into_inner(self) -> (r: Vec<u8>)
        ensures
            r@ == self@,
    {
        self.buffer
    }

    /// The length of a buffer required to hold one causal snapshot record.
    pub fn buffer_len() -> (r: usize)
        ensures
            r == WIRE_SNAPSHOT_LEN,
    {
        WIRE_SNAPSHOT_LEN
    }

    /// Return the `probe_id` field, validated against the `ProbeId` range.
    pub fn probe_id(&self) -> (r: Result<ProbeId, CausalSnapshotWireError>)
        ensures
            match r {
                Ok(id) => self@.len() >= WIRE_SNAPSHOT_LEN && probe_id_raw_valid(
                    read_u32_le(self@, 0),
                ) && id@ == read_u32_le(self@, 0),
                Err(CausalSnapshotWireError::MissingBytes) => self@.len() < WIRE_SNAPSHOT_LEN,
                Err(CausalSnapshotWireError::InvalidProbeId(raw)) => self@.len()
                    >= WIRE_SNAPSHOT_LEN && raw == read_u32_le(self@, 0) && !probe_id_raw_valid(
                    raw,
                ),
            },
    {
        if self.buffer.len() < WIRE_SNAPSHOT_LEN {
            return Err(CausalSnapshotWireError::MissingBytes);
        }
        let raw_probe_id = read_u32_le_at(&self.buffer, 0);
        match ProbeId::new(raw_probe_id) {
            Some(id) => Ok(id),
            None => Err(CausalSnapshotWireError::InvalidProbeId(raw_probe_id)),
        }
    }

    /// Return the `count` field.
    pub fn count(&self) -> (r: Result<u32, CausalSnapshotWireError>)
        ensures
            match r {
                Ok(v) => self@.len() >= WIRE_SNAPSHOT_LEN && v == read_u32_le(self@, 4),
                Err(e) => self@.len() < WIRE_SNAPSHOT_LEN && e
                    == CausalSnapshotWireError::MissingBytes,
            },
    {
        if self.buffer.len() < WIRE_SNAPSHOT_LEN {
            return Err(CausalSnapshotWireError::MissingBytes);
        }
        Ok(read_u32_le_at(&self.buffer, 4))
    }

    /// Return the `reserved_0` field.
    pub fn reserved_0(&self) -> (r: Result<u16, CausalSnapshotWireError>)
        ensures
            match r {
                Ok(v) => self@.len() >= WIRE_SNAPSHOT_LEN && v == read_u16_le(self@, 8),
                Err(e) => self@.len() < WIRE_SNAPSHOT_LEN && e
                    == CausalSnapshotWireError::MissingBytes,
            },
    {
        if self.buffer.len() < WIRE_SNAPSHOT_LEN {
            return Err(CausalSnapshotWireError::MissingBytes);
        }
        Ok(read_u16_le_at(&self.buffer, 8))
    }

    /// Return the `reserved_1` field.
    pub fn reserved_1(&self) -> (r: Result<u16, CausalSnapshotWireError>)
        ensures
            match r {
                Ok(v) => self@.len() >= WIRE_SNAPSHOT_LEN && v == read_u16_le(self@, 10),
                Err(e) => self@.len() < WIRE_SNAPSHOT_LEN && e
                    == CausalSnapshotWireError::MissingBytes,
            },
    {
        if self.buffer.len() < WIRE_SNAPSHOT_LEN {
            return Err(CausalSnapshotWireError::MissingBytes);
        }
        Ok(read_u16_le_at(&self.buffer, 10))
    }

    /// Set the `probe_id` field. Only a validated `ProbeId` can be stored.
    pub fn set_probe_id(&mut self, value: ProbeId) -> (r: Result<
        (),
        CausalSnapshotWireError,
    >)
        ensures
            match r {
                Ok(()) => old(self)@.len() >= WIRE_SNAPSHOT_LEN && final(self)@ == write_u32_le(
                    old(self)@,
                    0,
                    value@,
                ),
                Err(e) => old(self)@.len() < WIRE_SNAPSHOT_LEN && final(self)@ == old(self)@ && e
                    == CausalSnapshotWireError::MissingBytes,
            },
    {
        if self.buffer.len() < WIRE_SNAPSHOT_LEN {
            return Err(CausalSnapshotWireError::MissingBytes);
        }
        write_u32_le_at(&mut self.buffer, 0, value.get_raw());
        Ok(())
    }

    /// Set the `count` field.
    pub fn set_count(&mut self, value: u32) -> (r: Result<(), CausalSnapshotWireError>)
        ensures
            match r {
                Ok(()) => old(self)@.len() >= WIRE_SNAPSHOT_LEN && final(self)@ == write_u32_le(
                    old(self)@,
                    4,
                    value,
                ),
                Err(e) => old(self)@.len() < WIRE_SNAPSHOT_LEN && final(self)@ == old(self)@ && e
                    == CausalSnapshotWireError::MissingBytes,
            },
    {
        if self.buffer.len() < WIRE_SNAPSHOT_LEN {
            return Err(CausalSnapshotWireError::MissingBytes);
        }
        write_u32_le_at(&mut self.buffer, 4, value);
        Ok(())
    }

    /// Set the `reserved_0` field.
    pub fn set_reserved_0(&mut self, value: u16) -> (r: Result<(), CausalSnapshotWireError>)
        ensures
            match r {
                Ok(()) => old(self)@.len() >= WIRE_SNAPSHOT_LEN && final(self)@ == write_u16_le(
                    old(self)@,
                    8,
                    value,
                ),
                Err(e) => old(self)@.len() < WIRE_SNAPSHOT_LEN && final(self)@ == old(self)@ && e
                    == CausalSnapshotWireError::MissingBytes,
            },
    {
        if self.buffer.len() < WIRE_SNAPSHOT_LEN {
            return Err(CausalSnapshotWireError::MissingBytes);
        }
        write_u16_le_at(&mut self.buffer, 8, value);
        Ok(())
    }

    /// Set the `reserved_1` field.
    pub fn set_reserved_1(&mut self, value: u16) -> (r: Result<(), CausalSnapshotWireError>)
        ensures
            match r {
                Ok(()) => old(self)@.len() >= WIRE_SNAPSHOT_LEN && final(self)@ == write_u16_le(
                    old(self)@,
                    10,
                    value,
                ),
                Err(e) => old(self)@.len() < WIRE_SNAPSHOT_LEN && final(self)@ == old(self)@ && e
                    == CausalSnapshotWireError::MissingBytes,
            },
    {
        if self.buffer.len() < WIRE_SNAPSHOT_LEN {
            return Err(CausalSnapshotWireError::MissingBytes);
        }
        write_u16_le_at(&mut self.buffer, 10, value);
        Ok(())
    }
}

/// Wire round trip: writing the four record fields into any sufficiently
/// large buffer and reading them back yields the values that were written.
pub proof fn lemma_wire_round_trip(
    s: Seq<u8>,
    probe_id: u32,
    count: u32,
    reserved_0: u16,
    reserved_1: u16,
)
    requires
        s.len() >= 12,
    ensures
        ({
            let w = write_u16_le(
                write_u16_le(write_u32_le(write_u32_le(s, 0, probe_id), 4, count), 8, reserved_0),
                10,
                reserved_1,
            );
            w.len() == s.len() && read_u32_le(w, 0) == probe_id && read_u32_le(w, 4) == count
                && read_u16_le(w, 8) == reserved_0 && read_u16_le(w, 10) == reserved_1
        }),
{
    lemma_u32_le_round_trip(probe_id);
    lemma_u32_le_round_trip(count);
    lemma_u16_le_round_trip(reserved_0);
    lemma_u16_le_round_trip(reserved_1);
}

} // verus!
