use modality_probe::clock::LogicalClock;
use modality_probe::compact_log::count_segments;
use modality_probe::compact_log::split_next_segment;
use modality_probe::compact_log::CompactLogItem;
use modality_probe::id::EventId;
use modality_probe::id::TracerId;

/// Compact event
fn ce(e: u32) -> CompactLogItem {
    CompactLogItem::event(EventId::new(e).unwrap())
}

/// Compact logical clock pair
fn cb(id: u32, count: u32) -> (CompactLogItem, CompactLogItem) {
    CompactLogItem::clock(LogicalClock { id, count })
}

#[test]
fn happy_path_segment_counting() {
    let tracer_id = TracerId::new(314).unwrap();
    assert_eq!(0, count_segments(&vec![], tracer_id));
    assert_eq!(1, count_segments(&vec![ce(1)], tracer_id));
    assert_eq!(1, count_segments(&vec![ce(1), ce(1)], tracer_id));
    assert_eq!(1, count_segments(&vec![ce(1), ce(2), ce(1)], tracer_id));

    let (a, b) = cb(1, 1);
    let (c, d) = cb(2, 1);
    assert_eq!(1, count_segments(&vec![a, b, ce(1)], tracer_id));
    assert_eq!(2, count_segments(&vec![ce(1), a, b], tracer_id));
    assert_eq!(2, count_segments(&vec![ce(1), a, b, ce(1)], tracer_id));
    assert_eq!(2, count_segments(&vec![a, b, ce(1), c, d], tracer_id));
    assert_eq!(
        2,
        count_segments(&vec![a, b, ce(1), c, d, ce(1), ce(2)], tracer_id)
    );
    let (e, f) = cb(3, 1);
    assert_eq!(
        2,
        count_segments(&vec![a, b, ce(1), c, d, e, f, ce(1), ce(2)], tracer_id)
    );
    assert_eq!(
        3,
        count_segments(&vec![a, b, ce(1), c, d, ce(1), ce(2), e, f], tracer_id)
    );
}

#[test]
fn segment_counting_distinguishes_adjacent_clock_segments_by_local_tracer_id() {
    let local_tracer_id = TracerId::new(314).unwrap();
    let (a, b) = cb(314, 1);
    assert_eq!(1, count_segments(&vec![a, b], local_tracer_id));
    let (c, d) = cb(314, 2);
    assert_eq!(2, count_segments(&vec![a, b, c, d], local_tracer_id));
    let (e, f) = cb(99, 2);
    assert_eq!(2, count_segments(&vec![a, b, c, d, e, f], local_tracer_id));
    assert_eq!(2, count_segments(&vec![a, b, e, f, c, d], local_tracer_id));
}

#[test]
fn expected_representation() {
    let e = CompactLogItem::event(EventId::new(4).expect("Could not make EventId"));
    assert!(!e.is_first_bit_set());

    let (id, count) = CompactLogItem::clock(LogicalClock { id: 4, count: 5 });
    assert!(id.is_first_bit_set());
    assert!(!count.is_first_bit_set());
}

#[test]
fn clock_pair_recovers_probe_id() {
    let (id, count) = CompactLogItem::clock(LogicalClock { id: 314, count: 0x8000_0001 });
    assert_eq!(314, id.interpret_as_logical_clock_tracer_id());
    assert_eq!(314, id.interpret_as_logical_clock_probe_id());
    // The count word is carried raw, its own top bit uninterpreted.
    assert_eq!(0x8000_0001, count.raw());
    assert_eq!(314 | 0x8000_0000, id.raw());
}

#[test]
fn split_next_segment_regions() {
    let tracer_id = TracerId::new(314).unwrap();
    let (a, b) = cb(1, 7);
    let (c, d) = cb(2, 9);
    let items = vec![a, b, c, d, ce(5), ce(6), a, b, ce(5)];
    let segment = split_next_segment(&items, tracer_id);
    assert!(!segment.is_empty());
    assert_eq!(
        vec![a.raw(), b.raw(), c.raw(), d.raw()],
        segment.clock_region.iter().map(|i| i.raw()).collect::<Vec<u32>>()
    );
    assert_eq!(
        vec![ce(5).raw(), ce(6).raw()],
        segment.event_region.iter().map(|i| i.raw()).collect::<Vec<u32>>()
    );
    assert_eq!(
        vec![a.raw(), b.raw(), ce(5).raw()],
        segment.rest.iter().map(|i| i.raw()).collect::<Vec<u32>>()
    );
    let empty = split_next_segment(&vec![], tracer_id);
    assert!(empty.is_empty());
}

#[test]
fn unrelated_clock_pairs_do_not_change_adjacent_segment_count() {
    // Disambiguation keys only on the local id: an unrelated pair between
    // or after the two local-id pairs leaves the count at 2.
    let local_tracer_id = TracerId::new(314).unwrap();
    let (a, b) = cb(314, 1);
    let (c, d) = cb(314, 2);
    let (u, v) = cb(99, 2);
    assert_eq!(2, count_segments(&vec![a, b, u, v, c, d], local_tracer_id));
    assert_eq!(2, count_segments(&vec![a, b, c, d, u, v], local_tracer_id));
}
