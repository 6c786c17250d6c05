use std::collections::HashMap;

use memscan::{
    read_value_in, resolve_flat, resolve_target_in, u64_from_le_bytes, write_value_in, MemError,
};

#[test]
fn empty_chain_returns_base() {
    let mut m: HashMap<u64, u64> = HashMap::new();
    m.insert(0x10, 7);
    assert_eq!(resolve_target_in(&m, 0x10, &vec![]), Ok(0x10));
    assert_eq!(read_value_in(&m, 0x10, &vec![]), Ok(7));
    let empty: HashMap<u64, u64> = HashMap::new();
    assert_eq!(resolve_target_in(&empty, 0x99, &vec![]), Ok(0x99));
}

#[test]
fn flat_chain_sums_offsets() {
    assert_eq!(resolve_flat(100, &vec![1, 2, 3]), 106);
    assert_eq!(resolve_flat(0x40, &vec![]), 0x40);
    assert_eq!(resolve_flat(u64::MAX, &vec![1]), 0);
}

#[test]
fn dereferencing_chain_follows_pointers() {
    let mut m: HashMap<u64, u64> = HashMap::new();
    m.insert(0x100, 0x200);
    m.insert(0x208, 42);
    assert_eq!(resolve_target_in(&m, 0x100, &vec![0, 8]), Ok(0x208));
    assert_eq!(read_value_in(&m, 0x100, &vec![0, 8]), Ok(42));
}

#[test]
fn round_trip_write_then_read() {
    let mut m: HashMap<u64, u64> = HashMap::new();
    m.insert(0x10, 0x100);
    m.insert(0x108, 1);
    assert_eq!(write_value_in(&mut m, 0x10, &vec![0, 8], 77), Ok(()));
    assert_eq!(read_value_in(&m, 0x10, &vec![0, 8]), Ok(77));
}

#[test]
fn chain_broken_reports_first_failing_index() {
    let mut m: HashMap<u64, u64> = HashMap::new();
    m.insert(0x10, 0x20);
    let offsets = vec![0, 0, 0, 0];
    assert_eq!(
        read_value_in(&m, 0x10, &offsets),
        Err(MemError::ChainBroken(1))
    );
    assert_ne!(
        read_value_in(&m, 0x10, &offsets),
        Err(MemError::ChainBroken(3))
    );
}

#[test]
fn read_fails_on_unmapped_target() {
    let mut m: HashMap<u64, u64> = HashMap::new();
    m.insert(0x10, 0x20);
    assert_eq!(
        read_value_in(&m, 0x10, &vec![0, 8]),
        Err(MemError::ReadFailed)
    );
}

#[test]
fn write_fails_on_unmapped_target_and_changes_nothing() {
    let mut m: HashMap<u64, u64> = HashMap::new();
    m.insert(0x10, 0x20);
    assert_eq!(
        write_value_in(&mut m, 0x10, &vec![0, 8], 5),
        Err(MemError::WriteFailed)
    );
    assert_eq!(m.get(&0x10), Some(&0x20));
    assert_eq!(m.len(), 1);
}

#[test]
fn u64_assembly_is_least_significant_first() {
    assert_eq!(u64_from_le_bytes(&vec![1, 0, 0, 0, 0, 0, 0, 0]), 1);
    assert_eq!(
        u64_from_le_bytes(&vec![0x78, 0x56, 0x34, 0x12, 0, 0, 0, 0]),
        0x12345678
    );
    assert_eq!(u64_from_le_bytes(&vec![0xFF; 8]), u64::MAX);
}
