use modality_probe::compact_log::count_segments;
use modality_probe::compact_log::CompactLogItem;
use modality_probe::history::LOG_CAPACITY;
use modality_probe::id::EVENT_LOG_OVERFLOWED;
use modality_probe::id::EVENT_NUM_CLOCKS_OVERFLOWED;
use modality_probe::id::EVENT_PRODUCED_EXTERNAL_REPORT;
use modality_probe::id::EVENT_SNAPSHOT_SHARED;
use modality_probe::error::MergeError;
use modality_probe::error::ProduceError;
use modality_probe::error::ReportError;
use modality_probe::Backend;
use modality_probe::CausalSnapshot;
use modality_probe::EventId;
use modality_probe::LogicalClock;
use modality_probe::Tracer;
use modality_probe::TracerId;

struct AcceptBackend;

impl Backend for AcceptBackend {
    fn send_tracer_data(&mut self, _data: &[u8]) -> bool {
        true
    }
}

struct RejectBackend;

impl Backend for RejectBackend {
    fn send_tracer_data(&mut self, _data: &[u8]) -> bool {
        false
    }
}

fn le_words(bytes: &[u8]) -> Vec<u32> {
    bytes
        .chunks(4)
        .map(|c| u32::from_le_bytes([c[0], c[1], c[2], c[3]]))
        .collect()
}

fn report_words<B: Backend>(t: &Tracer<B>) -> Vec<u32> {
    let mut dest = vec![0u8; 8192];
    let n = t.report(&mut dest).unwrap();
    le_words(&dest[..n])
}

const CLOCK_BIT: u32 = 0x8000_0000;

#[test]
fn initialize_and_snapshot() {
    let mut t = Tracer::initialize(TracerId::new(314).unwrap(), AcceptBackend);
    let s = t.snapshot();
    assert_eq!(s.tracer_id, 314);
    assert_eq!(s.buckets, vec![LogicalClock { id: 314, count: 0 }]);
}

#[test]
fn record_event_advances_own_clock() {
    let mut t = Tracer::initialize(TracerId::new(314).unwrap(), AcceptBackend);
    t.record_event(EventId::new(1).unwrap());
    t.record_event(EventId::new(2).unwrap());
    t.record_event(EventId::new(1).unwrap());
    let s = t.snapshot();
    assert_eq!(s.buckets, vec![LogicalClock { id: 314, count: 3 }]);
}

#[test]
fn report_serializes_clock_region_then_events() {
    let mut t = Tracer::initialize(TracerId::new(314).unwrap(), AcceptBackend);
    t.record_event(EventId::new(1).unwrap());
    t.record_event(EventId::new(2).unwrap());
    let words = report_words(&t);
    assert_eq!(words, vec![314 | CLOCK_BIT, 2, 1, 2]);
}

#[test]
fn report_fails_when_destination_is_too_small() {
    let mut t = Tracer::initialize(TracerId::new(314).unwrap(), AcceptBackend);
    t.record_event(EventId::new(1).unwrap());
    // Report needs 12 bytes: one clock pair plus one event word.
    let mut dest = vec![0u8; 11];
    assert_eq!(
        t.report(&mut dest),
        Err(ReportError::InsufficientDestinationSize)
    );
    assert_eq!(dest, vec![0u8; 11]);
}

#[test]
fn service_success_drains_log_and_records_report_event() {
    let mut t = Tracer::initialize(TracerId::new(314).unwrap(), AcceptBackend);
    t.record_event(EventId::new(1).unwrap());
    t.record_event(EventId::new(2).unwrap());
    assert!(t.service());
    let words = report_words(&t);
    assert_eq!(words, vec![314 | CLOCK_BIT, 2, EVENT_PRODUCED_EXTERNAL_REPORT]);
}

#[test]
fn service_failure_preserves_log() {
    let mut t = Tracer::initialize(TracerId::new(314).unwrap(), RejectBackend);
    t.record_event(EventId::new(1).unwrap());
    let before = report_words(&t);
    assert!(!t.service());
    assert_eq!(before, report_words(&t));
    assert_eq!(before, vec![314 | CLOCK_BIT, 1, 1]);
}

#[test]
fn record_snapshot_shared_logs_reserved_event() {
    let mut t = Tracer::initialize(TracerId::new(314).unwrap(), AcceptBackend);
    t.record_snapshot_shared();
    let words = report_words(&t);
    assert_eq!(words, vec![314 | CLOCK_BIT, 1, EVENT_SNAPSHOT_SHARED]);
}

#[test]
fn reports_are_recovered_as_single_segments() {
    let local = TracerId::new(314).unwrap();
    let mut t = Tracer::initialize(local, AcceptBackend);
    t.record_event(EventId::new(1).unwrap());
    let first: Vec<CompactLogItem> = report_words(&t).into_iter().map(CompactLogItem).collect();
    assert_eq!(1, count_segments(&first, local));

    // A later report opens with the local probe's own clock pair, which is
    // exactly the boundary the segment splitter keys on: two concatenated
    // reports stay separable.
    assert!(t.service());
    t.record_event(EventId::new(2).unwrap());
    let second: Vec<CompactLogItem> = report_words(&t).into_iter().map(CompactLogItem).collect();
    assert_eq!(1, count_segments(&second, local));
    let mut both = first;
    both.extend(second);
    assert_eq!(2, count_segments(&both, local));
}

#[test]
fn merge_history_inserts_and_takes_the_maximum() {
    let mut t = Tracer::initialize(TracerId::new(314).unwrap(), AcceptBackend);
    let external = CausalSnapshot {
        tracer_id: 99,
        buckets: vec![
            LogicalClock { id: 99, count: 5 },
            LogicalClock { id: 7, count: 2 },
        ],
    };
    t.merge_history(&external).unwrap();
    assert_eq!(
        t.snapshot().buckets,
        vec![
            LogicalClock { id: 314, count: 0 },
            LogicalClock { id: 99, count: 5 },
            LogicalClock { id: 7, count: 2 },
        ]
    );

    // Counts never decrease; larger incoming counts win.
    let newer = CausalSnapshot {
        tracer_id: 99,
        buckets: vec![
            LogicalClock { id: 99, count: 3 },
            LogicalClock { id: 7, count: 9 },
        ],
    };
    t.merge_history(&newer).unwrap();
    assert_eq!(
        t.snapshot().buckets,
        vec![
            LogicalClock { id: 314, count: 0 },
            LogicalClock { id: 99, count: 5 },
            LogicalClock { id: 7, count: 9 },
        ]
    );
}

#[test]
fn merging_the_same_snapshot_twice_changes_nothing() {
    let mut t = Tracer::initialize(TracerId::new(314).unwrap(), AcceptBackend);
    let external = CausalSnapshot {
        tracer_id: 99,
        buckets: vec![
            LogicalClock { id: 99, count: 5 },
            LogicalClock { id: 7, count: 2 },
        ],
    };
    t.merge_history(&external).unwrap();
    let once = t.snapshot().buckets;
    t.merge_history(&external).unwrap();
    assert_eq!(once, t.snapshot().buckets);
}

#[test]
fn merge_history_rejects_invalid_probe_ids() {
    let mut t = Tracer::initialize(TracerId::new(314).unwrap(), AcceptBackend);
    let before = t.snapshot().buckets;

    let zero_id = CausalSnapshot {
        tracer_id: 99,
        buckets: vec![LogicalClock { id: 0, count: 5 }],
    };
    assert_eq!(
        t.merge_history(&zero_id),
        Err(MergeError::ExternalHistorySemantics)
    );

    let top_bit = CausalSnapshot {
        tracer_id: 99,
        buckets: vec![
            LogicalClock { id: 99, count: 5 },
            LogicalClock { id: 0x8000_0000, count: 1 },
        ],
    };
    assert_eq!(
        t.merge_history(&top_bit),
        Err(MergeError::ExternalHistorySemantics)
    );

    // All-or-nothing: nothing was applied, not even the valid entry.
    assert_eq!(before, t.snapshot().buckets);
}

#[test]
fn merge_history_signals_clock_table_exhaustion() {
    let mut t = Tracer::initialize(TracerId::new(314).unwrap(), AcceptBackend);
    let mut buckets = Vec::new();
    for i in 0..256u32 {
        buckets.push(LogicalClock { id: 1000 + i, count: 1 });
    }
    let big = CausalSnapshot { tracer_id: 99, buckets };
    assert_eq!(
        t.merge_history(&big),
        Err(MergeError::ExceededAvailableClocks)
    );
    // No partial application, and the reserved overflow event is in the log.
    assert_eq!(t.snapshot().buckets, vec![LogicalClock { id: 314, count: 0 }]);
    let words = report_words(&t);
    assert_eq!(words, vec![314 | CLOCK_BIT, 0, EVENT_NUM_CLOCKS_OVERFLOWED]);

    // The signal is recorded once per episode: a second failing merge does
    // not log it again.
    assert_eq!(
        t.merge_history(&big),
        Err(MergeError::ExceededAvailableClocks)
    );
    assert_eq!(report_words(&t).len(), 3);

    // A snapshot that fits still merges.
    let small = CausalSnapshot {
        tracer_id: 99,
        buckets: vec![LogicalClock { id: 99, count: 1 }],
    };
    t.merge_history(&small).unwrap();
    assert_eq!(t.snapshot().buckets.len(), 2);
}

#[test]
fn produce_snapshot_bytes_writes_fixed_records() {
    let mut t = Tracer::initialize(TracerId::new(314).unwrap(), AcceptBackend);
    t.record_event(EventId::new(1).unwrap());
    let external = CausalSnapshot {
        tracer_id: 99,
        buckets: vec![LogicalClock { id: 99, count: 5 }],
    };
    t.merge_history(&external).unwrap();

    let mut dest = vec![0xAAu8; 30];
    let n = t.produce_snapshot_bytes(&mut dest).unwrap();
    assert_eq!(n, 24);
    // 314 = 0x013A stores as [0x3A, 0x01, 0, 0] little-endian.
    assert_eq!(&dest[..12], &[0x3A, 0x01, 0, 0, 1, 0, 0, 0, 0, 0, 0, 0]);
    assert_eq!(&dest[12..24], &[99, 0, 0, 0, 5, 0, 0, 0, 0, 0, 0, 0]);
    // No partial writes past the records.
    assert_eq!(&dest[24..], &[0xAA; 6]);

    let mut short = vec![0u8; 23];
    assert_eq!(
        t.produce_snapshot_bytes(&mut short),
        Err(ProduceError::InsufficientDestinationSize)
    );
    assert_eq!(short, vec![0u8; 23]);
}

#[test]
fn merge_fixed_size_snapshot_round_trips_through_the_wire() {
    let mut origin = Tracer::initialize(TracerId::new(314).unwrap(), AcceptBackend);
    origin.record_event(EventId::new(1).unwrap());
    origin.record_event(EventId::new(2).unwrap());
    let mut wire = vec![0u8; 12];
    assert_eq!(origin.produce_snapshot_bytes(&mut wire), Ok(12));

    let mut receiver = Tracer::initialize(TracerId::new(99).unwrap(), AcceptBackend);
    receiver.merge_fixed_size_snapshot(&wire).unwrap();
    assert_eq!(
        receiver.snapshot().buckets,
        vec![
            LogicalClock { id: 99, count: 0 },
            LogicalClock { id: 314, count: 2 },
        ]
    );
}

#[test]
fn merge_fixed_size_snapshot_rejects_truncated_buffers() {
    let mut t = Tracer::initialize(TracerId::new(314).unwrap(), AcceptBackend);
    assert_eq!(
        t.merge_fixed_size_snapshot(&vec![]),
        Err(MergeError::InsufficientSourceSize)
    );
    assert_eq!(
        t.merge_fixed_size_snapshot(&vec![0u8; 11]),
        Err(MergeError::InsufficientSourceSize)
    );
    assert_eq!(
        t.merge_fixed_size_snapshot(&vec![0u8; 13]),
        Err(MergeError::InsufficientSourceSize)
    );
    // A whole record carrying an invalid probe id is a semantic violation.
    assert_eq!(
        t.merge_fixed_size_snapshot(&vec![0u8; 12]),
        Err(MergeError::ExternalHistorySemantics)
    );
    assert_eq!(t.snapshot().buckets, vec![LogicalClock { id: 314, count: 0 }]);
}

#[test]
fn log_overflow_is_signalled_once_and_rearmed_by_service() {
    let mut t = Tracer::initialize(TracerId::new(314).unwrap(), AcceptBackend);
    for _ in 0..2 * LOG_CAPACITY {
        t.record_event(EventId::new(1).unwrap());
    }
    let words = report_words(&t);
    // Two clock words, then a full log whose last word is the reserved
    // overflow signal in place of a lost event.
    assert_eq!(words.len(), 2 + LOG_CAPACITY);
    assert_eq!(*words.last().unwrap(), EVENT_LOG_OVERFLOWED);
    assert_eq!(words[2..2 + LOG_CAPACITY - 1].to_vec(), vec![1u32; LOG_CAPACITY - 1]);
    // Only successfully buffered events advanced the clock.
    assert_eq!(
        t.snapshot().buckets,
        vec![LogicalClock { id: 314, count: (LOG_CAPACITY - 1) as u32 }]
    );

    // Draining the log by a successful send re-arms recording.
    assert!(t.service());
    t.record_event(EventId::new(7).unwrap());
    assert_eq!(
        report_words(&t),
        vec![
            314 | CLOCK_BIT,
            LOG_CAPACITY as u32,
            EVENT_PRODUCED_EXTERNAL_REPORT,
            7
        ]
    );
}
