use modality_probe::id::EventId;
use modality_probe::id::ProbeId;
use modality_probe::id::TracerId;
use modality_probe::id::MAX_PROBE_ID;
use modality_probe::id::MAX_USER_EVENT_ID;
use modality_probe::InvalidEventId;
use modality_probe::InvalidProbeId;

#[test]
fn probe_id_accepts_exactly_the_nonzero_31_bit_range() {
    assert!(ProbeId::new(0).is_none());
    assert_eq!(ProbeId::new(1).unwrap().get_raw(), 1);
    assert_eq!(ProbeId::new(314).unwrap().get(), 314);
    assert_eq!(MAX_PROBE_ID, 0x7FFF_FFFF);
    assert_eq!(ProbeId::new(MAX_PROBE_ID).unwrap().get_raw(), MAX_PROBE_ID);
    assert!(ProbeId::new(MAX_PROBE_ID + 1).is_none());
    assert!(ProbeId::new(u32::MAX).is_none());
}

#[test]
fn event_id_accepts_exactly_the_nonzero_user_range() {
    assert!(EventId::new(0).is_none());
    assert_eq!(EventId::new(1).unwrap().get_raw(), 1);
    assert_eq!(MAX_USER_EVENT_ID, 0x7FFF_FFFF - 256);
    assert_eq!(
        EventId::new(MAX_USER_EVENT_ID).unwrap().get_raw(),
        MAX_USER_EVENT_ID
    );
    assert!(EventId::new(MAX_USER_EVENT_ID + 1).is_none());
    assert!(EventId::new(0x8000_0000).is_none());
    assert!(EventId::new(u32::MAX).is_none());
}

#[test]
fn tracer_id_is_the_probe_id() {
    let t = TracerId::new(42).unwrap();
    assert_eq!(t.get_raw(), 42);
    assert!(TracerId::new(0).is_none());
}

#[test]
fn probe_id_integer_width_conversions() {
    assert_eq!(ProbeId::try_from_u8(7).unwrap().get_raw(), 7);
    assert_eq!(ProbeId::try_from_u8(0), Err(InvalidProbeId));
    assert_eq!(ProbeId::try_from_u16(600).unwrap().get_raw(), 600);
    assert_eq!(ProbeId::try_from_u32(314).unwrap().get_raw(), 314);
    assert_eq!(ProbeId::try_from_u32(0x8000_0000), Err(InvalidProbeId));
    assert_eq!(ProbeId::try_from_u64(314).unwrap().get_raw(), 314);
    assert_eq!(ProbeId::try_from_u64(1 << 40), Err(InvalidProbeId));
    assert_eq!(ProbeId::try_from_u128(314).unwrap().get_raw(), 314);
    assert_eq!(ProbeId::try_from_usize(314).unwrap().get_raw(), 314);
    assert_eq!(ProbeId::try_from_i8(-1), Err(InvalidProbeId));
    assert_eq!(ProbeId::try_from_i8(5).unwrap().get_raw(), 5);
    assert_eq!(ProbeId::try_from_i16(-300), Err(InvalidProbeId));
    assert_eq!(ProbeId::try_from_i32(0), Err(InvalidProbeId));
    assert_eq!(ProbeId::try_from_i32(i32::MAX).unwrap().get_raw(), 0x7FFF_FFFF);
    assert_eq!(ProbeId::try_from_i64(-1), Err(InvalidProbeId));
    assert_eq!(ProbeId::try_from_i64(314).unwrap().get_raw(), 314);
    assert_eq!(ProbeId::try_from_i128(314).unwrap().get_raw(), 314);
    assert_eq!(ProbeId::try_from_isize(314).unwrap().get_raw(), 314);
}

#[test]
fn event_id_integer_width_conversions() {
    assert_eq!(EventId::try_from_u8(7).unwrap().get_raw(), 7);
    assert_eq!(EventId::try_from_u8(0), Err(InvalidEventId));
    assert_eq!(EventId::try_from_u16(600).unwrap().get_raw(), 600);
    assert_eq!(EventId::try_from_u32(4).unwrap().get_raw(), 4);
    assert_eq!(EventId::try_from_u32(MAX_USER_EVENT_ID + 1), Err(InvalidEventId));
    assert_eq!(EventId::try_from_u64(4).unwrap().get_raw(), 4);
    assert_eq!(EventId::try_from_u64(1 << 40), Err(InvalidEventId));
    assert_eq!(EventId::try_from_u128(4).unwrap().get_raw(), 4);
    assert_eq!(EventId::try_from_usize(4).unwrap().get_raw(), 4);
    assert_eq!(EventId::try_from_i8(-1), Err(InvalidEventId));
    assert_eq!(EventId::try_from_i16(9).unwrap().get_raw(), 9);
    assert_eq!(EventId::try_from_i32(i32::MAX), Err(InvalidEventId));
    assert_eq!(EventId::try_from_i64(4).unwrap().get_raw(), 4);
    assert_eq!(EventId::try_from_i128(-4), Err(InvalidEventId));
    assert_eq!(EventId::try_from_isize(4).unwrap().get_raw(), 4);
}
