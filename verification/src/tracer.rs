//! The public probe facade: initialize, record, snapshot, merge, service.
//!
//! A `Tracer` binds a probe id and an injected transmission collaborator
//! to a causal history store. It is single-owner by design: it performs no
//! internal locking, and exclusive ownership makes concurrent access from
//! two execution contexts a compile-time impossibility.

use vstd::prelude::*;

use crate::bytes::write_prefix;
use crate::clock::LogicalClock;
use crate::compact_log::CompactLogItem;
use crate::error::MergeError;
use crate::error::ProduceError;
use crate::error::ReportError;
use crate::history::all_buckets_valid;
use crate::history::clock_pairs_words;
use crate::history::clocks_wire_bytes;
use crate::history::saturating_inc;
use crate::history::wire_entries;
use crate::history::words_le_bytes;
use crate::history::History;
use crate::history::LOG_CAPACITY;
use crate::history::MAX_CLOCKS;
use crate::id::EventId;
use crate::id::TracerId;
use crate::id::EVENT_LOG_OVERFLOWED;
use crate::id::EVENT_SNAPSHOT_SHARED;
use crate::merge::merge_seq;

verus! {

/// Snapshot of causal history for transmission around the system.
///
/// Note the use of a bare integer probe id rather than the
/// safety-oriented `ProbeId` wrapper, so that snapshots received from
/// elsewhere can be represented before they have been validated.
#[derive(Debug, Clone)]
pub struct CausalSnapshot {
    /// The probe at which this history snapshot was created.
    pub tracer_id: u32,
    /// The (probe id, count) entries at each tracked location.
    pub buckets: Vec<LogicalClock>,
}

/// The historical name of [`LogicalClock`], kept for callers of the older
/// API.
pub type LogicalClockBucket = LogicalClock;

/// Trace data collection interface.
pub trait Backend {
    /// Transmits a probe's serialized state to some storage, presentation
    /// or retransmission backend.
    ///
    /// Returns `true` if the data was successfully transmitted.
    fn send_tracer_data(&mut self, data: &[u8]) -> bool;
}

/// Public interface to tracing: one instrumented location's causal
/// history engine, wired to an injected transmission collaborator.
pub struct Tracer<B: Backend> {
    id: TracerId,
    backend: B,
    history: History,
}

impl<B: Backend> Tracer<B> {
    /// The id of the probe this tracer records for.
    pub closed spec fn local_probe_id(&self) -> u32 {
        self.history.local_probe_id()
    }

    /// The tracked clock table: the local probe's own clock first, then
    /// every tracked neighbor.
    pub closed spec fn clocks(&self) -> Seq<LogicalClock> {
        self.history.clocks()
    }

    /// The buffered compact log words.
    pub closed spec fn log(&self) -> Seq<CompactLogItem> {
        self.history.log()
    }

    /// Whether the log has overflowed in the current episode.
    pub closed spec fn log_has_overflowed(&self) -> bool {
        self.history.log_has_overflowed()
    }

    /// Whether the clock table has ever overflowed.
    pub closed spec fn clock_table_has_overflowed(&self) -> bool {
        self.history.clock_table_has_overflowed()
    }

    /// Well-formedness of the underlying history store.
    pub closed spec fn wf(&self) -> bool {
        &&& self.history.wf()
        &&& self.id@ == self.history.local_probe_id()
    }

    /// Initialize tracing for this location. `tracer_id` ought to be
    /// unique throughout the system.
    pub fn initialize(tracer_id: TracerId, backend: B) -> (r: Tracer<B>)
        ensures
            r.wf(),
            r.local_probe_id() == tracer_id@,
            r.clocks() == seq![LogicalClock { id: tracer_id@, count: 0 }],
            r.log().len() == 0,
            !r.log_has_overflowed(),
            !r.clock_table_has_overflowed(),
    {
        Tracer { id: tracer_id, backend, history: History::new(tracer_id) }
    }

    /// Record that an event occurred. The end user is responsible for
    /// associating meaning with each event id.
    ///
    /// Appends a bare event word to the log and advances the local
    /// probe's own clock by one (saturating). When the log is exhausted,
    /// the reserved "log overflowed" event is recorded in the event's
    /// place, once per overflow episode.
    pub fn record_event(&mut self, event_id: EventId)
        requires
            old(self).wf(),
        ensures
            final(self).wf(),
            final(self).local_probe_id() == old(self).local_probe_id(),
            final(self).clock_table_has_overflowed() == old(self).clock_table_has_overflowed(),
            old(self).log_has_overflowed() ==> *final(self) == *old(self),
            !old(self).log_has_overflowed() && old(self).log().len() + 1 < LOG_CAPACITY ==> {
                &&& final(self).log() == old(self).log().push(CompactLogItem(event_id@))
                &&& final(self).clocks() == old(self).clocks().update(
                    0,
                    LogicalClock {
                        id: old(self).local_probe_id(),
                        count: saturating_inc(old(self).clocks()[0].count),
                    },
                )
                &&& !final(self).log_has_overflowed()
            },
            !old(self).log_has_overflowed() && old(self).log().len() + 1 >= LOG_CAPACITY ==> {
                &&& final(self).clocks() == old(self).clocks()
                &&& final(self).log_has_overflowed()
                &&& (old(self).log().len() < LOG_CAPACITY ==> final(self).log() == old(self).log().push(CompactLogItem(EVENT_LOG_OVERFLOWED)))
                &&& (old(self).log().len() >= LOG_CAPACITY ==> final(self).log() == old(self).log())
            },
    {
        self.history.record_event(event_id);
    }

    /// Convenience event that the end user can record when they manage to
    /// transmit a snapshot to another part of the system: the reserved
    /// "snapshot shared" event goes into the log like any other event.
    pub fn record_snapshot_shared(&mut self)
        requires
            old(self).wf(),
        ensures
            final(self).wf(),
            final(self).local_probe_id() == old(self).local_probe_id(),
            final(self).clock_table_has_overflowed() == old(self).clock_table_has_overflowed(),
            old(self).log_has_overflowed() ==> *final(self) == *old(self),
            !old(self).log_has_overflowed() && old(self).log().len() + 1 < LOG_CAPACITY ==> {
                &&& final(self).log() == old(self).log().push(
                    CompactLogItem(EVENT_SNAPSHOT_SHARED),
                )
                &&& final(self).clocks() == old(self).clocks().update(
                    0,
                    LogicalClock {
                        id: old(self).local_probe_id(),
                        count: saturating_inc(old(self).clocks()[0].count),
                    },
                )
                &&& !final(self).log_has_overflowed()
            },
            !old(self).log_has_overflowed() && old(self).log().len() + 1 >= LOG_CAPACITY ==> {
                &&& final(self).clocks() == old(self).clocks()
                &&& final(self).log_has_overflowed()
                &&& (old(self).log().len() < LOG_CAPACITY ==> final(self).log() == old(self).log().push(CompactLogItem(EVENT_LOG_OVERFLOWED)))
                &&& (old(self).log().len() >= LOG_CAPACITY ==> final(self).log() == old(self).log())
            },
    {
        self.history.record_event(EventId::internal(EVENT_SNAPSHOT_SHARED));
    }

    /// Conduct necessary background activities: transmit the recorded
    /// events to the collection backend.
    ///
    /// When the backend reports success the log is drained and the
    /// reserved "report produced" event opens the next episode; when it
    /// reports failure nothing is cleared, so no data is lost on a failed
    /// send. Returns whether the backend accepted the data.
    pub fn service(&mut self) -> (sent: bool)
        requires
            old(self).wf(),
        ensures
            final(self).wf(),
            final(self).local_probe_id() == old(self).local_probe_id(),
            final(self).clocks() == old(self).clocks(),
            final(self).clock_table_has_overflowed() == old(self).clock_table_has_overflowed(),
            !sent ==> final(self).log() == old(self).log() && final(self).log_has_overflowed()
                == old(self).log_has_overflowed(),
            sent ==> final(self).log() == seq![
                CompactLogItem(crate::id::EVENT_PRODUCED_EXTERNAL_REPORT),
            ] && !final(self).log_has_overflowed(),
    {
        self.history.send_to_backend(&mut self.backend)
    }

    /// Produce a transmittable summary of this tracer's causal history
    /// for use by another tracer elsewhere in the system.
    ///
    /// Pre-pruned to the causal history of just this node and its
    /// immediate inbound neighbors.
    pub fn snapshot(&mut self) -> (r: CausalSnapshot)
        requires
            old(self).wf(),
        ensures
            *final(self) == *old(self),
            r.tracer_id == old(self).local_probe_id(),
            r.buckets@ == old(self).clocks(),
    {
        self.history.snapshot()
    }

    /// Serialize this tracer's causal history snapshot into the caller's
    /// buffer, one fixed 12-byte wire record per tracked clock. A
    /// destination shorter than the full snapshot fails with
    /// `InsufficientDestinationSize` and nothing is written.
    pub fn produce_snapshot_bytes(&self, destination: &mut Vec<u8>) -> (r: Result<
        usize,
        ProduceError,
    >)
        requires
            self.wf(),
        ensures
            match r {
                Ok(n) => {
                    &&& n == 12 * self.clocks().len()
                    &&& old(destination)@.len() >= n
                    &&& final(destination)@.len() == old(destination)@.len()
                    &&& final(destination)@.subrange(0, n as int) == clocks_wire_bytes(
                        self.clocks(),
                    )
                    &&& final(destination)@.skip(n as int) == old(destination)@.skip(n as int)
                },
                Err(e) => {
                    &&& e == ProduceError::InsufficientDestinationSize
                    &&& old(destination)@.len() < 12 * self.clocks().len()
                    &&& final(destination)@ == old(destination)@
                },
            },
    {
        self.history.produce_snapshot_bytes(destination)
    }

    /// Consume a causal history summary structure provided by some other
    /// tracer, raising every tracked count to at least the incoming one.
    /// A failed merge applies no portion of the incoming snapshot.
    pub fn merge_history(&mut self, external: &CausalSnapshot) -> (r: Result<(), MergeError>)
        requires
            old(self).wf(),
        ensures
            final(self).wf(),
            final(self).local_probe_id() == old(self).local_probe_id(),
            final(self).log_has_overflowed() == old(self).log_has_overflowed(),
            r is Ok <==> all_buckets_valid(external.buckets@) && merge_seq(
                old(self).clocks(),
                external.buckets@,
            ).len() <= MAX_CLOCKS,
            r is Ok ==> {
                &&& final(self).clocks() == merge_seq(old(self).clocks(), external.buckets@)
                &&& final(self).log() == old(self).log()
                &&& final(self).clock_table_has_overflowed() == old(self).clock_table_has_overflowed()
            },
            r == Result::<(), MergeError>::Err(MergeError::ExternalHistorySemantics)
                <==> !all_buckets_valid(external.buckets@),
            r == Result::<(), MergeError>::Err(MergeError::ExternalHistorySemantics) ==> *final(self) == *old(self),
            r == Result::<(), MergeError>::Err(MergeError::ExceededAvailableClocks) <==> {
                &&& all_buckets_valid(external.buckets@)
                &&& merge_seq(old(self).clocks(), external.buckets@).len() > MAX_CLOCKS
            },
            r == Result::<(), MergeError>::Err(MergeError::ExceededAvailableClocks) ==> {
                &&& final(self).clocks() == old(self).clocks()
                &&& final(self).clock_table_has_overflowed()
            },
            r != Result::<(), MergeError>::Err(MergeError::InsufficientSourceSize),
    {
        self.history.merge(external)
    }

    /// Consume a causal history snapshot received in its byte-level wire
    /// form: fixed 12-byte records, one tracked clock each. A buffer
    /// holding less than one record, or a truncated final record, fails
    /// with `InsufficientSourceSize`.
    pub fn merge_fixed_size_snapshot(&mut self, source: &Vec<u8>) -> (r: Result<(), MergeError>)
        requires
            old(self).wf(),
        ensures
            final(self).wf(),
            final(self).local_probe_id() == old(self).local_probe_id(),
            final(self).log_has_overflowed() == old(self).log_has_overflowed(),
            r == Result::<(), MergeError>::Err(MergeError::InsufficientSourceSize) <==> source@.len()
                < 12 || source@.len() % 12 != 0,
            r == Result::<(), MergeError>::Err(MergeError::InsufficientSourceSize) ==> *final(self)
                == *old(self),
            r is Ok <==> {
                &&& source@.len() >= 12 && source@.len() % 12 == 0
                &&& all_buckets_valid(wire_entries(source@))
                &&& merge_seq(old(self).clocks(), wire_entries(source@)).len() <= MAX_CLOCKS
            },
            r is Ok ==> {
                &&& final(self).clocks() == merge_seq(old(self).clocks(), wire_entries(source@))
                &&& final(self).log() == old(self).log()
            },
            r == Result::<(), MergeError>::Err(MergeError::ExternalHistorySemantics) <==> {
                &&& source@.len() >= 12 && source@.len() % 12 == 0
                &&& !all_buckets_valid(wire_entries(source@))
            },
            r == Result::<(), MergeError>::Err(MergeError::ExternalHistorySemantics) ==> *final(self) == *old(self),
            r == Result::<(), MergeError>::Err(MergeError::ExceededAvailableClocks) ==> {
                &&& final(self).clocks() == old(self).clocks()
                &&& final(self).clock_table_has_overflowed()
            },
    {
        self.history.merge_fixed_size_snapshot(source)
    }

    /// Serialize the full causal history log report — the tracked clocks
    /// as a compact-log clock region, then the buffered events — into the
    /// caller's buffer. A destination shorter than the full report fails
    /// with `InsufficientDestinationSize` and nothing is written.
    pub fn report(&self, destination: &mut Vec<u8>) -> (r: Result<usize, ReportError>)
        requires
            self.wf(),
        ensures
            match r {
                Ok(n) => {
                    &&& n == words_le_bytes(
                        clock_pairs_words(self.clocks()) + self.log(),
                    ).len()
                    &&& old(destination)@.len() >= n
                    &&& final(destination)@.len() == old(destination)@.len()
                    &&& final(destination)@.subrange(0, n as int) == words_le_bytes(
                        clock_pairs_words(self.clocks()) + self.log(),
                    )
                    &&& final(destination)@.skip(n as int) == old(destination)@.skip(n as int)
                },
                Err(e) => {
                    &&& e == ReportError::InsufficientDestinationSize
                    &&& old(destination)@.len() < words_le_bytes(
                        clock_pairs_words(self.clocks()) + self.log(),
                    ).len()
                    &&& final(destination)@ == old(destination)@
                },
            },
    {
        let bytes = self.history.report_bytes();
        if destination.len() < bytes.len() {
            return Err(ReportError::InsufficientDestinationSize);
        }
        write_prefix(destination, &bytes);
        Ok(bytes.len())
    }
}

} // verus!
