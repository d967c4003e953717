use modality_probe::id::ProbeId;
use modality_probe::wire::CausalSnapshot;
use modality_probe::wire::CausalSnapshotWireError;

fn snapshot_bytes() -> Vec<u8> {
    vec![
        // probe_id: 1
        0x01, 0x00, 0x00, 0x00, // count: 2
        0x02, 0x00, 0x00, 0x00, // reserved_0: 3
        0x03, 0x00, // reserved_1: 4
        0x04, 0x00,
    ]
}

#[test]
fn buffer_len() {
    assert_eq!(CausalSnapshot::buffer_len(), 12);
}

#[test]
fn construct() {
    let bytes = vec![0xFF; 12];
    let mut s = CausalSnapshot::new_unchecked(bytes);
    assert_eq!(s.check_len(), Ok(()));
    s.set_probe_id(ProbeId::new(1).unwrap()).unwrap();
    s.set_count(2).unwrap();
    s.set_reserved_0(3).unwrap();
    s.set_reserved_1(4).unwrap();
    assert_eq!(&s.into_inner()[..], &snapshot_bytes()[..]);
}

#[test]
fn deconstruct() {
    let s = CausalSnapshot::new(snapshot_bytes()).unwrap();
    assert_eq!(s.probe_id().unwrap().get_raw(), 1);
    assert_eq!(s.count().unwrap(), 2);
    assert_eq!(s.reserved_0().unwrap(), 3);
    assert_eq!(s.reserved_1().unwrap(), 4);
}

#[test]
fn missing_bytes() {
    let bytes = vec![0xFF; 12 - 1];
    assert_eq!(bytes.len(), CausalSnapshot::buffer_len() - 1);
    let s = CausalSnapshot::new(bytes);
    assert_eq!(s.unwrap_err(), CausalSnapshotWireError::MissingBytes);
}

#[test]
fn every_accessor_fails_on_short_buffer() {
    let mut s = CausalSnapshot::new_unchecked(vec![0xFF; 11]);
    assert_eq!(s.check_len(), Err(CausalSnapshotWireError::MissingBytes));
    assert_eq!(s.probe_id(), Err(CausalSnapshotWireError::MissingBytes));
    assert_eq!(s.count(), Err(CausalSnapshotWireError::MissingBytes));
    assert_eq!(s.reserved_0(), Err(CausalSnapshotWireError::MissingBytes));
    assert_eq!(s.reserved_1(), Err(CausalSnapshotWireError::MissingBytes));
    assert_eq!(
        s.set_probe_id(ProbeId::new(1).unwrap()),
        Err(CausalSnapshotWireError::MissingBytes)
    );
    assert_eq!(s.set_count(2), Err(CausalSnapshotWireError::MissingBytes));
    assert_eq!(s.set_reserved_0(3), Err(CausalSnapshotWireError::MissingBytes));
    assert_eq!(s.set_reserved_1(4), Err(CausalSnapshotWireError::MissingBytes));
}

#[test]
fn invalid_stored_probe_id_is_rejected() {
    // A stored probe id of zero fails probe_id().
    let mut zero = snapshot_bytes();
    zero[0] = 0;
    let s = CausalSnapshot::new(zero).unwrap();
    assert_eq!(s.probe_id(), Err(CausalSnapshotWireError::InvalidProbeId(0)));

    // A stored probe id with its top bit set fails probe_id().
    let mut high = snapshot_bytes();
    high[3] = 0x80;
    let s = CausalSnapshot::new(high).unwrap();
    assert_eq!(
        s.probe_id(),
        Err(CausalSnapshotWireError::InvalidProbeId(0x8000_0001))
    );
}

#[test]
fn wire_round_trip() {
    let mut s = CausalSnapshot::new(vec![0xAB; 16]).unwrap();
    s.set_probe_id(ProbeId::new(0x7FFF_FFFF).unwrap()).unwrap();
    s.set_count(0xDEAD_BEEF).unwrap();
    s.set_reserved_0(0xFFFF).unwrap();
    s.set_reserved_1(0x1234).unwrap();
    assert_eq!(s.probe_id().unwrap().get_raw(), 0x7FFF_FFFF);
    assert_eq!(s.count().unwrap(), 0xDEAD_BEEF);
    assert_eq!(s.reserved_0().unwrap(), 0xFFFF);
    assert_eq!(s.reserved_1().unwrap(), 0x1234);
    // Bytes past the record are untouched.
    let bytes = s.into_inner();
    assert_eq!(&bytes[12..], &[0xAB; 4]);
}
