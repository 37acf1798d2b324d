use freespace::capacity::{RawCapacity, SpaceSnapshot};

#[test]
fn used_plus_free_is_total() {
    let raw = RawCapacity { total_bytes: 1000, free_bytes: 250 };
    let s = SpaceSnapshot::from_raw(raw);
    assert_eq!(s.total_bytes, 1000);
    assert_eq!(s.free_bytes, 250);
    assert_eq!(s.used_bytes(), 750);
    assert_eq!(s.used_bytes() + s.free_bytes, s.total_bytes);
    assert!(!s.is_anomalous());
}

#[test]
fn used_saturates_when_free_exceeds_total() {
    let s = SpaceSnapshot::from_raw(RawCapacity { total_bytes: 100, free_bytes: 101 });
    assert_eq!(s.used_bytes(), 0);
    assert!(s.is_anomalous());
}

#[test]
fn full_and_empty_volumes() {
    let full = SpaceSnapshot { total_bytes: u64::MAX, free_bytes: 0 };
    assert_eq!(full.used_bytes(), u64::MAX);
    let empty = SpaceSnapshot { total_bytes: u64::MAX, free_bytes: u64::MAX };
    assert_eq!(empty.used_bytes(), 0);
}

#[test]
fn capacity_from_blocks() {
    let c = RawCapacity::from_blocks(4096, 1000, 250).unwrap();
    assert_eq!(c, RawCapacity { total_bytes: 4096000, free_bytes: 1024000 });
    assert_eq!(RawCapacity::from_blocks(0, 5, 5), Some(RawCapacity { total_bytes: 0, free_bytes: 0 }));
}

#[test]
fn capacity_from_blocks_overflow() {
    assert_eq!(RawCapacity::from_blocks(4096, u64::MAX, 1), None);
    assert_eq!(RawCapacity::from_blocks(2, 10, u64::MAX), None);
    assert!(RawCapacity::from_blocks(1, u64::MAX, u64::MAX).is_some());
}
