//! The causal history store: a fixed-capacity table of tracked logical
//! clocks plus the compact event log, owning the merge and
//! snapshot-production algorithms.
//!
//! Exhausting either fixed-capacity resource is never silent: it is
//! recorded as a reserved internal event in the log (at most once per
//! overflow episode) so that offline analysis can see "history may be
//! incomplete here" explicitly.

use vstd::prelude::*;

use crate::bytes::push_u32_le;
use crate::bytes::read_u32_le;
use crate::bytes::read_u32_le_at;
use crate::bytes::u32_le_bytes;
use crate::bytes::write_prefix;
use crate::clock::LogicalClock;
use crate::compact_log::clock_id_of;
use crate::compact_log::clock_pair;
use crate::compact_log::clock_region_len;
use crate::compact_log::event_region_len;
use crate::compact_log::is_clock_word;
use crate::compact_log::lemma_clock_id_word_recovers;
use crate::compact_log::log_wf;
use crate::compact_log::segment_len;
use crate::compact_log::spec_count_segments;
use crate::compact_log::CompactLogItem;
use crate::error::MergeError;
use crate::error::ProduceError;
use crate::id::probe_id_raw_valid;
use crate::id::EventId;
use crate::id::ProbeId;
use crate::id::EVENT_LOG_OVERFLOWED;
use crate::id::EVENT_NUM_CLOCKS_OVERFLOWED;
use crate::id::EVENT_PRODUCED_EXTERNAL_REPORT;
use crate::merge::find_clock;
use crate::merge::lemma_find_clock;
use crate::merge::lemma_merge_seq_monotonic;
use crate::merge::lemma_merge_seq_snoc;
use crate::merge::lemma_merge_seq_unique;
use crate::merge::merge_entry;
use crate::merge::merge_seq;
use crate::merge::unique_ids;
use crate::tracer::Backend;
use crate::tracer::CausalSnapshot;

verus! {

/// The most logical clocks one history store can track, its own included.
pub const MAX_CLOCKS: usize = 256;

/// The most compact log words one history store can buffer between
/// reports.
pub const LOG_CAPACITY: usize = 1024;

/// A count incremented by one, saturating at the largest trackable value.
pub open spec fn saturating_inc(c: u32) -> u32 {
    if c == u32::MAX {
        c
    } else {
        (c + 1) as u32
    }
}

/// Whether every entry of an external snapshot carries a valid probe id.
pub open spec fn all_buckets_valid(s: Seq<LogicalClock>) -> bool {
    forall|i: int| 0 <= i < s.len() ==> probe_id_raw_valid(#[trigger] s[i].id)
}

/// The fixed-capacity causal history store of one probe.
pub struct History {
    probe_id: ProbeId,
    clocks: Vec<LogicalClock>,
    log: Vec<CompactLogItem>,
    log_overflowed: bool,
    clocks_overflowed: bool,
}

impl History {
    /// The id of the probe this store belongs to.
    pub closed spec fn local_probe_id(&self) -> u32 {
        self.probe_id@
    }

    /// The tracked clock table. Entry 0 is always the local probe's own
    /// clock; the rest track its direct neighbors.
    pub closed spec fn clocks(&self) -> Seq<LogicalClock> {
        self.clocks@
    }

    /// The buffered compact log words.
    pub closed spec fn log(&self) -> Seq<CompactLogItem> {
        self.log@
    }

    /// Whether the log has overflowed in the current episode (since the
    /// last successful report drained it).
    pub closed spec fn log_has_overflowed(&self) -> bool {
        self.log_overflowed
    }

    /// Whether the clock table has ever overflowed.
    pub closed spec fn clock_table_has_overflowed(&self) -> bool {
        self.clocks_overflowed
    }

    /// Well-formedness: the clock table holds the local probe's own clock
    /// first, tracks each probe at most once under a valid probe id, stays
    /// within capacity, and the buffered log holds only bare event words
    /// within capacity.
    pub open spec fn wf(&self) -> bool {
        &&& 1 <= self.clocks().len() <= MAX_CLOCKS
        &&& self.clocks()[0].id == self.local_probe_id()
        &&& unique_ids(self.clocks())
        &&& all_buckets_valid(self.clocks())
        &&& self.log().len() <= LOG_CAPACITY
        &&& forall|i: int| 0 <= i < self.log().len() ==> !is_clock_word(#[trigger] self.log()[i]@)
    }

    /// A freshly initialized store: empty log, no overflows, and a clock
    /// table holding only the local probe's own clock at count zero.
    pub fn new(probe_id: ProbeId) -> (r: History)
        ensures
            r.wf(),
            r.local_probe_id() == probe_id@,
            r.clocks() == seq![LogicalClock { id: probe_id@, count: 0 }],
            r.log().len() == 0,
            !r.log_has_overflowed(),
            !r.clock_table_has_overflowed(),
    {
        let mut clocks: Vec<LogicalClock> = Vec::new();
        clocks.push(LogicalClock { id: probe_id.get_raw(), count: 0 });
        proof {
            assert(clocks@ =~= seq![LogicalClock { id: probe_id@, count: 0 }]);
        }
        History {
            probe_id,
            clocks,
            log: Vec::new(),
            log_overflowed: false,
            clocks_overflowed: false,
        }
    }

    /// Record that an event occurred: append a bare event word to the log
    /// and advance the local probe's own clock by one (saturating).
    ///
    /// When the log is exhausted, the reserved "log overflowed" event is
    /// recorded in the event's place, once per overflow episode; nothing
    /// further is buffered until a successful report drains the log.
    pub fn record_event(&mut self, event_id: EventId)
        requires
            old(self).wf(),
        ensures
            final(self).wf(),
            final(self).local_probe_id() == old(self).local_probe_id(),
            final(self).clock_table_has_overflowed() == old(self).clock_table_has_overflowed(),
            old(self).log_has_overflowed() ==> *final(self) == *old(self),
            !old(self).log_has_overflowed() && old(self).log().len() + 1 < LOG_CAPACITY ==> {
                &&& final(self).log() == old(self).log().push(CompactLogItem(event_id@))
                &&& final(self).clocks() == old(self).clocks().update(
                    0,
                    LogicalClock {
                        id: old(self).local_probe_id(),
                        count: saturating_inc(old(self).clocks()[0].count),
                    },
                )
                &&& !final(self).log_has_overflowed()
            },
            !old(self).log_has_overflowed() && old(self).log().len() + 1 >= LOG_CAPACITY ==> {
                &&& final(self).clocks() == old(self).clocks()
                &&& final(self).log_has_overflowed()
                &&& (old(self).log().len() < LOG_CAPACITY ==> final(self).log() == old(self).log().push(CompactLogItem(EVENT_LOG_OVERFLOWED)))
                &&& (old(self).log().len() >= LOG_CAPACITY ==> final(self).log() == old(self).log())
            },
    {
        if self.log_overflowed {
            return ;
        }
        if self.log.len() + 1 < LOG_CAPACITY {
            self.log.push(CompactLogItem::event(event_id));
            let own = self.clocks[0];
            let new_count = if own.count == u32::MAX {
                own.count
            } else {
                own.count + 1
            };
            self.clocks[0] = LogicalClock { id: own.id, count: new_count };
        } else if self.log.len() < LOG_CAPACITY {
            // No room to buffer this event and leave space for anything
            // more: record the reserved overflow signal in its place.
            self.log.push(CompactLogItem::event(EventId::internal(EVENT_LOG_OVERFLOWED)));
            self.log_overflowed = true;
        } else {
            // Not even room for the signal word; the flag alone carries
            // the overflow state until the log is drained.
            self.log_overflowed = true;
        }
    }

    /// Consume a causal history snapshot provided by some other probe.
    ///
    /// Every entry whose probe id is already tracked has its tracked count
    /// raised to the maximum of the tracked and incoming counts; an
    /// untracked entry is inserted while table capacity remains. The merge
    /// is all-or-nothing: a failed merge applies no portion of the
    /// incoming snapshot. An entry with an out-of-range probe id fails the
    /// whole merge with `ExternalHistorySemantics`; a snapshot that would
    /// need more clocks than the table can hold fails with
    /// `ExceededAvailableClocks` and records the reserved "clock table
    /// overflowed" event in the log, once per overflow episode.
    pub fn merge(&mut self, external: &CausalSnapshot) -> (r: Result<(), MergeError>)
        requires
            old(self).wf(),
        ensures
            final(self).wf(),
            final(self).local_probe_id() == old(self).local_probe_id(),
            final(self).log_has_overflowed() == old(self).log_has_overflowed(),
            r is Ok <==> all_buckets_valid(external.buckets@) && merge_seq(
                old(self).clocks(),
                external.buckets@,
            ).len() <= MAX_CLOCKS,
            r is Ok ==> {
                &&& final(self).clocks() == merge_seq(old(self).clocks(), external.buckets@)
                &&& final(self).log() == old(self).log()
                &&& final(self).clock_table_has_overflowed() == old(self).clock_table_has_overflowed()
            },
            r == Result::<(), MergeError>::Err(MergeError::ExternalHistorySemantics)
                <==> !all_buckets_valid(external.buckets@),
            r == Result::<(), MergeError>::Err(MergeError::ExternalHistorySemantics) ==> *final(self) == *old(self),
            r == Result::<(), MergeError>::Err(MergeError::ExceededAvailableClocks) <==> {
                &&& all_buckets_valid(external.buckets@)
                &&& merge_seq(old(self).clocks(), external.buckets@).len() > MAX_CLOCKS
            },
            r == Result::<(), MergeError>::Err(MergeError::ExceededAvailableClocks) ==> {
                &&& final(self).clocks() == old(self).clocks()
                &&& final(self).clock_table_has_overflowed()
                &&& (old(self).clock_table_has_overflowed() ==> final(self).log() == old(self).log())
                &&& (!old(self).clock_table_has_overflowed() && old(self).log().len()
                    < LOG_CAPACITY ==> final(self).log() == old(self).log().push(CompactLogItem(EVENT_NUM_CLOCKS_OVERFLOWED)))
                &&& (!old(self).clock_table_has_overflowed() && old(self).log().len()
                    >= LOG_CAPACITY ==> final(self).log() == old(self).log())
            },
            r != Result::<(), MergeError>::Err(MergeError::InsufficientSourceSize),
    {
        // Validate every incoming entry up front: all-or-nothing commit.
        let n = external.buckets.len();
        let mut v: usize = 0;
        while v < n
            invariant
                n == external.buckets@.len(),
                v <= n,
                *self == *old(self),
                old(self).wf(),
                forall|k: int|
                    0 <= k < v ==> probe_id_raw_valid(#[trigger] external.buckets@[k].id),
            decreases n - v,
        {
            let raw = external.buckets[v].id;
            if raw == 0 || raw > crate::id::MAX_PROBE_ID {
                return Err(MergeError::ExternalHistorySemantics);
            }
            v = v + 1;
        }

        // Fold the snapshot into a scratch copy of the table, so that the
        // table itself is untouched if capacity runs out.
        let mut scratch: Vec<LogicalClock> = Vec::new();
        let mut c: usize = 0;
        while c < self.clocks.len()
            invariant
                c <= self.clocks@.len(),
                scratch@ == self.clocks@.subrange(0, c as int),
            decreases self.clocks@.len() - c,
        {
            scratch.push(self.clocks[c]);
            proof {
                assert(self.clocks@.subrange(0, c as int).push(self.clocks@[c as int])
                    =~= self.clocks@.subrange(0, c + 1));
            }
            c = c + 1;
        }
        proof {
            assert(self.clocks@.subrange(0, self.clocks@.len() as int) =~= self.clocks@);
            assert(external.buckets@.take(0) =~= Seq::<LogicalClock>::empty());
        }

        let mut j: usize = 0;
        while j < n
            invariant
                n == external.buckets@.len(),
                j <= n,
                scratch@ == merge_seq(self.clocks@, external.buckets@.take(j as int)),
                *self == *old(self),
                old(self).wf(),
            decreases n - j,
        {
            let b = external.buckets[j];
            let mut k: usize = 0;
            while k < scratch.len() && scratch[k].id != b.id
                invariant
                    k <= scratch@.len(),
                    forall|p: int| 0 <= p < k ==> #[trigger] scratch@[p].id != b.id,
                decreases scratch@.len() - k,
            {
                k = k + 1;
            }
            proof {
                lemma_find_clock(scratch@, b.id);
            }
            if k < scratch.len() {
                let tracked_count = scratch[k].count;
                let new_count = if tracked_count >= b.count {
                    tracked_count
                } else {
                    b.count
                };
                proof {
                    assert(find_clock(scratch@, b.id) == k);
                }
                scratch[k] = LogicalClock { id: b.id, count: new_count };
            } else {
                proof {
                    assert(find_clock(scratch@, b.id) == -1);
                }
                scratch.push(b);
            }
            proof {
                lemma_merge_seq_snoc(self.clocks@, external.buckets@.take(j as int), b);
                assert(external.buckets@.take(j as int).push(b) =~= external.buckets@.take(
                    j + 1,
                ));
            }
            j = j + 1;
        }
        proof {
            assert(external.buckets@.take(n as int) =~= external.buckets@);
        }

        if scratch.len() > MAX_CLOCKS {
            // All-or-nothing: signal the exhaustion, record the reserved
            // event best-effort, and leave the table untouched.
            if !self.clocks_overflowed {
                if self.log.len() < LOG_CAPACITY {
                    self.log.push(
                        CompactLogItem::event(EventId::internal(EVENT_NUM_CLOCKS_OVERFLOWED)),
                    );
                }
                self.clocks_overflowed = true;
            }
            return Err(MergeError::ExceededAvailableClocks);
        }
        proof {
            lemma_merge_seq_unique(old(self).clocks(), external.buckets@);
            lemma_merge_seq_monotonic(old(self).clocks(), external.buckets@);
            lemma_merge_seq_valid_ids(old(self).clocks(), external.buckets@);
        }
        self.clocks = scratch;
        Ok(())
    }

    /// A transmittable summary of this probe's causal history: its own
    /// current clock plus every tracked neighbor clock — pre-pruned to
    /// this node's direct causal neighborhood, bounding output size to
    /// table capacity.
    pub fn snapshot(&self) -> (r: CausalSnapshot)
        requires
            self.wf(),
        ensures
            r.tracer_id == self.local_probe_id(),
            r.buckets@ == self.clocks(),
    {
        let mut buckets: Vec<LogicalClock> = Vec::new();
        let mut i: usize = 0;
        while i < self.clocks.len()
            invariant
                i <= self.clocks@.len(),
                buckets@ == self.clocks@.subrange(0, i as int),
            decreases self.clocks@.len() - i,
        {
            buckets.push(self.clocks[i]);
            proof {
                assert(self.clocks@.subrange(0, i as int).push(self.clocks@[i as int])
                    =~= self.clocks@.subrange(0, i + 1));
            }
            i = i + 1;
        }
        proof {
            assert(self.clocks@.subrange(0, self.clocks@.len() as int) =~= self.clocks@);
        }
        CausalSnapshot { tracer_id: self.probe_id.get_raw(), buckets }
    }

    /// The full report that `send_to_backend` transmits, serialized: the
    /// tracked clocks as a compact-log clock region, followed by the
    /// buffered event words, each word as four little-endian bytes.
    pub fn report_bytes(&self) -> (r: Vec<u8>)
        requires
            self.wf(),
        ensures
            r@ == words_le_bytes(clock_pairs_words(self.clocks()) + self.log()),
    {
        let mut words: Vec<CompactLogItem> = Vec::new();
        proof {
            assert(self.clocks@.take(0) =~= Seq::<LogicalClock>::empty());
        }
        let mut i: usize = 0;
        while i < self.clocks.len()
            invariant
                i <= self.clocks@.len(),
                words@ == clock_pairs_words(self.clocks@.take(i as int)),
            decreases self.clocks@.len() - i,
        {
            let pair = CompactLogItem::clock(self.clocks[i]);
            words.push(pair.0);
            words.push(pair.1);
            proof {
                lemma_clock_pairs_words_snoc(self.clocks@.take(i as int), self.clocks@[i as int]);
                assert(self.clocks@.take(i as int).push(self.clocks@[i as int])
                    =~= self.clocks@.take(i + 1));
                assert(words@ =~= clock_pairs_words(self.clocks@.take(i as int)) + clock_pair(
                    self.clocks@[i as int],
                ));
            }
            i = i + 1;
        }
        proof {
            assert(self.clocks@.take(self.clocks@.len() as int) =~= self.clocks@);
            assert(self.log@.take(0) =~= Seq::<CompactLogItem>::empty());
            assert(words@ =~= clock_pairs_words(self.clocks@) + self.log@.take(0));
        }
        let mut j: usize = 0;
        while j < self.log.len()
            invariant
                j <= self.log@.len(),
                words@ == clock_pairs_words(self.clocks@) + self.log@.take(j as int),
            decreases self.log@.len() - j,
        {
            words.push(self.log[j]);
            proof {
                assert((clock_pairs_words(self.clocks@) + self.log@.take(j as int)).push(
                    self.log@[j as int],
                ) =~= clock_pairs_words(self.clocks@) + self.log@.take(j + 1));
            }
            j = j + 1;
        }
        proof {
            assert(self.log@.take(self.log@.len() as int) =~= self.log@);
        }
        let mut bytes: Vec<u8> = Vec::new();
        proof {
            assert(words@.take(0) =~= Seq::<CompactLogItem>::empty());
        }
        let mut k: usize = 0;
        while k < words.len()
            invariant
                k <= words@.len(),
                words@ == clock_pairs_words(self.clocks@) + self.log@,
                bytes@ == words_le_bytes(words@.take(k as int)),
            decreases words@.len() - k,
        {
            push_u32_le(&mut bytes, words[k].raw());
            proof {
                lemma_words_le_bytes_snoc(words@.take(k as int), words@[k as int]);
                assert(words@.take(k as int).push(words@[k as int]) =~= words@.take(k + 1));
            }
            k = k + 1;
        }
        proof {
            assert(words@.take(words@.len() as int) =~= words@);
        }
        bytes
    }

    /// Flush the serialized log state to the transmission backend.
    ///
    /// When the backend reports success the log is drained (re-arming the
    /// log-overflow signal) and the reserved "report produced" event opens
    /// the next log episode. When the backend reports failure nothing is
    /// cleared: no data is lost on a failed send, and retry policy belongs
    /// to the caller.
    pub fn send_to_backend<B: Backend>(&mut self, backend: &mut B) -> (sent: bool)
        requires
            old(self).wf(),
        ensures
            final(self).wf(),
            final(self).local_probe_id() == old(self).local_probe_id(),
            final(self).clocks() == old(self).clocks(),
            final(self).clock_table_has_overflowed() == old(self).clock_table_has_overflowed(),
            !sent ==> *final(self) == *old(self),
            sent ==> final(self).log() == seq![CompactLogItem(EVENT_PRODUCED_EXTERNAL_REPORT)]
                && !final(self).log_has_overflowed(),
    {
        let bytes = self.report_bytes();
        let sent = backend.send_tracer_data(bytes.as_slice());
        if sent {
            self.log.clear();
            self.log.push(CompactLogItem::event(EventId::internal(EVENT_PRODUCED_EXTERNAL_REPORT)));
            self.log_overflowed = false;
            proof {
                assert(self.log@ =~= seq![CompactLogItem(EVENT_PRODUCED_EXTERNAL_REPORT)]);
            }
        }
        sent
    }

    /// Serialize the probe's causal history snapshot into the caller's
    /// buffer, one fixed 12-byte wire record per tracked clock. The
    /// returned length is the number of bytes written. A destination
    /// shorter than the full snapshot fails with
    /// `InsufficientDestinationSize` and nothing is written: no partial
    /// writes occur.
    pub fn produce_snapshot_bytes(&self, destination: &mut Vec<u8>) -> (r: Result<
        usize,
        ProduceError,
    >)
        requires
            self.wf(),
        ensures
            match r {
                Ok(n) => {
                    &&& n == 12 * self.clocks().len()
                    &&& old(destination)@.len() >= n
                    &&& final(destination)@.len() == old(destination)@.len()
                    &&& final(destination)@.subrange(0, n as int) == clocks_wire_bytes(
                        self.clocks(),
                    )
                    &&& final(destination)@.skip(n as int) == old(destination)@.skip(n as int)
                },
                Err(e) => {
                    &&& e == ProduceError::InsufficientDestinationSize
                    &&& old(destination)@.len() < 12 * self.clocks().len()
                    &&& final(destination)@ == old(destination)@
                },
            },
    {
        let record_bytes = self.snapshot_wire_bytes();
        if destination.len() < record_bytes.len() {
            return Err(ProduceError::InsufficientDestinationSize);
        }
        write_prefix(destination, &record_bytes);
        Ok(record_bytes.len())
    }

    /// The snapshot wire records of every tracked clock, concatenated.
    fn snapshot_wire_bytes(&self) -> (r: Vec<u8>)
        requires
            self.wf(),
        ensures
            r@ == clocks_wire_bytes(self.clocks()),
            r@.len() == 12 * self.clocks().len(),
    {
        proof {
            lemma_clocks_wire_bytes_len(self.clocks@);
        }
        let mut bytes: Vec<u8> = Vec::new();
        proof {
            assert(self.clocks@.take(0) =~= Seq::<LogicalClock>::empty());
        }
        let mut i: usize = 0;
        while i < self.clocks.len()
            invariant
                i <= self.clocks@.len(),
                bytes@ == clocks_wire_bytes(self.clocks@.take(i as int)),
            decreases self.clocks@.len() - i,
        {
            let entry = self.clocks[i];
            push_u32_le(&mut bytes, entry.id);
            push_u32_le(&mut bytes, entry.count);
            bytes.push(0);
            bytes.push(0);
            bytes.push(0);
            bytes.push(0);
            proof {
                lemma_clocks_wire_bytes_snoc(self.clocks@.take(i as int), self.clocks@[i as int]);
                assert(self.clocks@.take(i as int).push(self.clocks@[i as int])
                    =~= self.clocks@.take(i + 1));
                assert(bytes@ =~= clocks_wire_bytes(self.clocks@.take(i as int))
                    + clock_wire_record(self.clocks@[i as int]));
            }
            i = i + 1;
        }
        proof {
            assert(self.clocks@.take(self.clocks@.len() as int) =~= self.clocks@);
        }
        bytes
    }

    /// Merge a causal history snapshot received in its byte-level wire
    /// form: a sequence of fixed 12-byte records, one tracked clock each.
    ///
    /// A buffer holding less than one record, or a truncated final record,
    /// fails with `InsufficientSourceSize`; otherwise the records merge
    /// exactly as [`merge`](Self::merge) does, all-or-nothing.
    pub fn merge_fixed_size_snapshot(&mut self, source: &Vec<u8>) -> (r: Result<(), MergeError>)
        requires
            old(self).wf(),
        ensures
            final(self).wf(),
            final(self).local_probe_id() == old(self).local_probe_id(),
            final(self).log_has_overflowed() == old(self).log_has_overflowed(),
            r == Result::<(), MergeError>::Err(MergeError::InsufficientSourceSize) <==> source@.len()
                < 12 || source@.len() % 12 != 0,
            r == Result::<(), MergeError>::Err(MergeError::InsufficientSourceSize) ==> *final(self)
                == *old(self),
            r is Ok <==> {
                &&& source@.len() >= 12 && source@.len() % 12 == 0
                &&& all_buckets_valid(wire_entries(source@))
                &&& merge_seq(old(self).clocks(), wire_entries(source@)).len() <= MAX_CLOCKS
            },
            r is Ok ==> {
                &&& final(self).clocks() == merge_seq(old(self).clocks(), wire_entries(source@))
                &&& final(self).log() == old(self).log()
                &&& final(self).clock_table_has_overflowed() == old(self).clock_table_has_overflowed()
            },
            r == Result::<(), MergeError>::Err(MergeError::ExternalHistorySemantics) <==> {
                &&& source@.len() >= 12 && source@.len() % 12 == 0
                &&& !all_buckets_valid(wire_entries(source@))
            },
            r == Result::<(), MergeError>::Err(MergeError::ExternalHistorySemantics) ==> *final(self) == *old(self),
            r == Result::<(), MergeError>::Err(MergeError::ExceededAvailableClocks) <==> {
                &&& source@.len() >= 12 && source@.len() % 12 == 0
                &&& all_buckets_valid(wire_entries(source@))
                &&& merge_seq(old(self).clocks(), wire_entries(source@)).len() > MAX_CLOCKS
            },
            r == Result::<(), MergeError>::Err(MergeError::ExceededAvailableClocks) ==> {
                &&& final(self).clocks() == old(self).clocks()
                &&& final(self).clock_table_has_overflowed()
            },
    {
        let len = source.len();
        if len < 12 || len % 12 != 0 {
            return Err(MergeError::InsufficientSourceSize);
        }
        let n = len / 12;
        let mut buckets: Vec<LogicalClock> = Vec::new();
        let mut i: usize = 0;
        while i < n
            invariant
                len == source@.len(),
                12 * n == len,
                i <= n,
                buckets@.len() == i,
                forall|k: int| 0 <= k < i ==> buckets@[k] == wire_entry(source@, k),
            decreases n - i,
        {
            let off = 12 * i;
            let id = read_u32_le_at(source, off);
            let count = read_u32_le_at(source, off + 4);
            buckets.push(LogicalClock { id, count });
            i = i + 1;
        }
        proof {
            assert(buckets@ =~= wire_entries(source@));
        }
        let first_id = read_u32_le_at(source, 0);
        let snap = CausalSnapshot { tracer_id: first_id, buckets };
        self.merge(&snap)
    }
}

/// The compact-log words of a run of clock pairs, one pair per entry.
pub open spec fn clock_pairs_words(t: Seq<LogicalClock>) -> Seq<CompactLogItem>
    decreases t.len(),
{
    if t.len() == 0 {
        Seq::empty()
    } else {
        clock_pair(t[0]) + clock_pairs_words(t.skip(1))
    }
}

/// A run of compact-log words serialized as little-endian bytes.
pub open spec fn words_le_bytes(w: Seq<CompactLogItem>) -> Seq<u8>
    decreases w.len(),
{
    if w.len() == 0 {
        Seq::empty()
    } else {
        u32_le_bytes(w[0]@) + words_le_bytes(w.skip(1))
    }
}

/// The fixed 12-byte snapshot wire record of one tracked clock.
pub open spec fn clock_wire_record(lc: LogicalClock) -> Seq<u8> {
    u32_le_bytes(lc.id) + u32_le_bytes(lc.count) + seq![0u8, 0u8, 0u8, 0u8]
}

/// The snapshot wire records of a clock table, concatenated.
pub open spec fn clocks_wire_bytes(t: Seq<LogicalClock>) -> Seq<u8>
    decreases t.len(),
{
    if t.len() == 0 {
        Seq::empty()
    } else {
        clock_wire_record(t[0]) + clocks_wire_bytes(t.skip(1))
    }
}

/// The tracked clock encoded in record `k` of a byte-level snapshot.
pub open spec fn wire_entry(s: Seq<u8>, k: int) -> LogicalClock {
    LogicalClock { id: read_u32_le(s, 12 * k), count: read_u32_le(s, 12 * k + 4) }
}

/// Every tracked clock encoded in a byte-level snapshot, in order.
pub open spec fn wire_entries(s: Seq<u8>) -> Seq<LogicalClock> {
    Seq::new((s.len() / 12) as nat, |k: int| wire_entry(s, k))
}

/// Merging keeps every tracked probe id within the valid range when both
/// the table and the incoming snapshot are within it.
proof fn lemma_merge_seq_valid_ids(t: Seq<LogicalClock>, ext: Seq<LogicalClock>)
    requires
        all_buckets_valid(t),
        all_buckets_valid(ext),
    ensures
        all_buckets_valid(merge_seq(t, ext)),
    decreases ext.len(),
{
    if ext.len() > 0 {
        let e = ext[0];
        let t1 = merge_entry(t, e);
        lemma_find_clock(t, e.id);
        assert forall|i: int| 0 <= i < t1.len() implies probe_id_raw_valid(
            #[trigger] t1[i].id,
        ) by {
            if find_clock(t, e.id) == -1 {
                if i < t.len() {
                    assert(t1[i] == t[i]);
                } else {
                    assert(t1[i] == e);
                }
            } else {
                if i != find_clock(t, e.id) {
                    assert(t1[i] == t[i]);
                }
            }
        }
        assert forall|j: int| 0 <= j < ext.skip(1).len() implies probe_id_raw_valid(
            #[trigger] ext.skip(1)[j].id,
        ) by {
            assert(ext.skip(1)[j] == ext[j + 1]);
        }
        lemma_merge_seq_valid_ids(t1, ext.skip(1));
    }
}

/// The number of words in a run of clock pairs.
pub proof fn lemma_clock_pairs_words_len(t: Seq<LogicalClock>)
    ensures
        clock_pairs_words(t).len() == 2 * t.len(),
    decreases t.len(),
{
    if t.len() > 0 {
        lemma_clock_pairs_words_len(t.skip(1));
    }
}

proof fn lemma_clock_pairs_words_snoc(t: Seq<LogicalClock>, lc: LogicalClock)
    ensures
        clock_pairs_words(t.push(lc)) == clock_pairs_words(t) + clock_pair(lc),
    decreases t.len(),
{
    if t.len() == 0 {
        assert(t.push(lc)[0] == lc);
        assert(t.push(lc).skip(1) =~= Seq::<LogicalClock>::empty());
        assert(clock_pair(lc) + clock_pairs_words(Seq::empty()) =~= clock_pair(lc));
        assert(clock_pairs_words(t) + clock_pair(lc) =~= clock_pair(lc));
    } else {
        assert(t.push(lc)[0] == t[0]);
        assert(t.push(lc).skip(1) =~= t.skip(1).push(lc));
        lemma_clock_pairs_words_snoc(t.skip(1), lc);
        assert(clock_pair(t[0]) + (clock_pairs_words(t.skip(1)) + clock_pair(lc)) =~= (clock_pair(
            t[0],
        ) + clock_pairs_words(t.skip(1))) + clock_pair(lc));
    }
}

proof fn lemma_words_le_bytes_snoc(w: Seq<CompactLogItem>, item: CompactLogItem)
    ensures
        words_le_bytes(w.push(item)) == words_le_bytes(w) + u32_le_bytes(item@),
    decreases w.len(),
{
    if w.len() == 0 {
        assert(w.push(item)[0] == item);
        assert(w.push(item).skip(1) =~= Seq::<CompactLogItem>::empty());
        assert(u32_le_bytes(item@) + words_le_bytes(Seq::empty()) =~= u32_le_bytes(item@));
        assert(words_le_bytes(w) + u32_le_bytes(item@) =~= u32_le_bytes(item@));
    } else {
        assert(w.push(item)[0] == w[0]);
        assert(w.push(item).skip(1) =~= w.skip(1).push(item));
        lemma_words_le_bytes_snoc(w.skip(1), item);
        assert(u32_le_bytes(w[0]@) + (words_le_bytes(w.skip(1)) + u32_le_bytes(item@))
            =~= (u32_le_bytes(w[0]@) + words_le_bytes(w.skip(1))) + u32_le_bytes(item@));
    }
}

proof fn lemma_clocks_wire_bytes_snoc(t: Seq<LogicalClock>, lc: LogicalClock)
    ensures
        clocks_wire_bytes(t.push(lc)) == clocks_wire_bytes(t) + clock_wire_record(lc),
    decreases t.len(),
{
    if t.len() == 0 {
        assert(t.push(lc)[0] == lc);
        assert(t.push(lc).skip(1) =~= Seq::<LogicalClock>::empty());
        assert(clock_wire_record(lc) + clocks_wire_bytes(Seq::empty()) =~= clock_wire_record(lc));
        assert(clocks_wire_bytes(t) + clock_wire_record(lc) =~= clock_wire_record(lc));
    } else {
        assert(t.push(lc)[0] == t[0]);
        assert(t.push(lc).skip(1) =~= t.skip(1).push(lc));
        lemma_clocks_wire_bytes_snoc(t.skip(1), lc);
        assert(clock_wire_record(t[0]) + (clocks_wire_bytes(t.skip(1)) + clock_wire_record(lc))
            =~= (clock_wire_record(t[0]) + clocks_wire_bytes(t.skip(1))) + clock_wire_record(lc));
    }
}

proof fn lemma_clocks_wire_bytes_len(t: Seq<LogicalClock>)
    ensures
        clocks_wire_bytes(t).len() == 12 * t.len(),
    decreases t.len(),
{
    if t.len() > 0 {
        lemma_clocks_wire_bytes_len(t.skip(1));
    }
}

proof fn lemma_log_wf_events(e: Seq<CompactLogItem>)
    requires
        forall|i: int| 0 <= i < e.len() ==> !is_clock_word(#[trigger] e[i]@),
    ensures
        log_wf(e),
    decreases e.len(),
{
    if e.len() > 0 {
        assert forall|i: int| 0 <= i < e.skip(1).len() implies !is_clock_word(
            #[trigger] e.skip(1)[i]@,
        ) by {
            assert(e.skip(1)[i] == e[i + 1]);
        }
        lemma_log_wf_events(e.skip(1));
    }
}

proof fn lemma_log_wf_clock_region(t: Seq<LogicalClock>, e: Seq<CompactLogItem>)
    requires
        all_buckets_valid(t),
        forall|i: int| 0 <= i < e.len() ==> !is_clock_word(#[trigger] e[i]@),
    ensures
        log_wf(clock_pairs_words(t) + e),
    decreases t.len(),
{
    let s = clock_pairs_words(t) + e;
    if t.len() == 0 {
        assert(s =~= e);
        lemma_log_wf_events(e);
    } else {
        lemma_clock_id_word_recovers(t[0].id);
        lemma_clock_pairs_words_len(t);
        assert(s[0] == clock_pair(t[0])[0]);
        assert(is_clock_word(s[0]@));
        assert(s.len() >= 2);
        assert forall|j: int| 0 <= j < t.skip(1).len() implies probe_id_raw_valid(
            #[trigger] t.skip(1)[j].id,
        ) by {
            assert(t.skip(1)[j] == t[j + 1]);
        }
        lemma_log_wf_clock_region(t.skip(1), e);
        assert(s.skip(2) =~= clock_pairs_words(t.skip(1)) + e);
    }
}

proof fn lemma_event_region_scans_events(e: Seq<CompactLogItem>)
    requires
        forall|i: int| 0 <= i < e.len() ==> !is_clock_word(#[trigger] e[i]@),
    ensures
        event_region_len(e) == e.len(),
    decreases e.len(),
{
    if e.len() > 0 {
        assert forall|i: int| 0 <= i < e.skip(1).len() implies !is_clock_word(
            #[trigger] e.skip(1)[i]@,
        ) by {
            assert(e.skip(1)[i] == e[i + 1]);
        }
        lemma_event_region_scans_events(e.skip(1));
    }
}

proof fn lemma_clock_region_scans_pairs(
    t: Seq<LogicalClock>,
    e: Seq<CompactLogItem>,
    local_id: u32,
    first: bool,
)
    requires
        all_buckets_valid(t),
        forall|i: int| (if first { 1int } else { 0int }) <= i < t.len() ==> #[trigger] t[i].id
            != local_id,
        forall|i: int| 0 <= i < e.len() ==> !is_clock_word(#[trigger] e[i]@),
    ensures
        clock_region_len(clock_pairs_words(t) + e, local_id, first) == 2 * t.len(),
    decreases t.len(),
{
    let s = clock_pairs_words(t) + e;
    if t.len() == 0 {
        assert(s =~= e);
        if e.len() >= 2 {
            assert(!is_clock_word(e[0]@));
        }
    } else {
        lemma_clock_id_word_recovers(t[0].id);
        lemma_clock_pairs_words_len(t);
        assert(s[0] == clock_pair(t[0])[0]);
        assert(is_clock_word(s[0]@));
        assert(clock_id_of(s[0]@) == t[0].id);
        assert(s.len() >= 2);
        assert forall|j: int| 0 <= j < t.skip(1).len() implies probe_id_raw_valid(
            #[trigger] t.skip(1)[j].id,
        ) && #[trigger] t.skip(1)[j].id != local_id by {
            assert(t.skip(1)[j] == t[j + 1]);
        }
        lemma_clock_region_scans_pairs(t.skip(1), e, local_id, false);
        assert(s.skip(2) =~= clock_pairs_words(t.skip(1)) + e);
    }
}

/// Segment recovery inverts report production: the report of a
/// well-formed store — its whole clock table as one clock region, then
/// its buffered events — is a well-formed compact log stream, and the
/// segment-recovery algorithm reads it back as exactly one segment.
/// Adjacent reports in a collected stream therefore stay separable: the
/// next report's leading clock pair carries the local probe id, which is
/// exactly the boundary marker the splitter keys on.
pub proof fn lemma_report_parses_as_one_segment(h: &History)
    requires
        h.wf(),
    ensures
        log_wf(clock_pairs_words(h.clocks()) + h.log()),
        spec_count_segments(clock_pairs_words(h.clocks()) + h.log(), h.local_probe_id()) == 1,
{
    let t = h.clocks();
    let e = h.log();
    let local_id = h.local_probe_id();
    let s = clock_pairs_words(t) + e;
    assert forall|i: int| 1 <= i < t.len() implies #[trigger] t[i].id != local_id by {
        assert(t[0].id == local_id);
    }
    lemma_log_wf_clock_region(t, e);
    lemma_clock_region_scans_pairs(t, e, local_id, true);
    lemma_clock_pairs_words_len(t);
    assert(s.skip(2 * t.len() as int) =~= e);
    lemma_event_region_scans_events(e);
    assert(segment_len(s, local_id) == s.len());
    assert(s.skip(s.len() as int) =~= Seq::<CompactLogItem>::empty());
    assert(spec_count_segments(s.skip(s.len() as int), local_id) == 0);
}

} // verus!
