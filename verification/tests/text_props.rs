use std::collections::HashMap;

use memscan::{fullprep, get_pid, pick_pid, read_text_in, MemError, MemoryRegion, Protection};

fn bytes_at(start: u64, bytes: &[u8]) -> HashMap<u64, u8> {
    let mut m = HashMap::new();
    for (i, b) in bytes.iter().enumerate() {
        m.insert(start + i as u64, *b);
    }
    m
}

#[test]
fn text_stops_at_first_null_byte() {
    let m = bytes_at(0x40, &[0x68, 0x69, 0x00, 0x21]);
    assert_eq!(read_text_in(&m, 0x40, &vec![], 10), Ok(String::from("hi")));
}

#[test]
fn text_is_capped_at_max_length() {
    let m = bytes_at(0x40, &[0x68, 0x69, 0x00, 0x21]);
    assert_eq!(read_text_in(&m, 0x40, &vec![], 1), Ok(String::from("h")));
    assert_eq!(read_text_in(&m, 0x40, &vec![], 2), Ok(String::from("hi")));
    assert_eq!(read_text_in(&m, 0x40, &vec![], 0), Ok(String::new()));
}

#[test]
fn text_offsets_are_flat_sums() {
    let m = bytes_at(0x42, &[0x61, 0x62, 0x00]);
    assert_eq!(
        read_text_in(&m, 0x40, &vec![1, 1], 10),
        Ok(String::from("ab"))
    );
}

#[test]
fn text_read_failure_is_not_a_terminator() {
    let m = bytes_at(0x40, &[0x68]);
    assert_eq!(
        read_text_in(&m, 0x40, &vec![], 3),
        Err(MemError::ReadFailed)
    );
}

#[test]
fn text_replaces_invalid_bytes() {
    let m = bytes_at(0x40, &[0x68, 0xFF, 0x69]);
    assert_eq!(
        read_text_in(&m, 0x40, &vec![], 3),
        Ok(String::from("h\u{FFFD}i"))
    );
}

#[test]
fn pid_lookup_with_zero_matches_is_not_found() {
    assert_eq!(pick_pid(&vec![]), Err(MemError::NotFound));
}

#[test]
fn pid_lookup_with_two_matches_takes_the_last() {
    assert_eq!(pick_pid(&vec![10, 20]), Ok(20));
}

#[test]
fn live_pid_lookup_for_absent_name_is_not_found() {
    assert_eq!(
        get_pid("zz_no_such_proc"),
        Err(MemError::NotFound)
    );
}

#[test]
fn live_read_at_null_address_fails() {
    let pid = sysinfo::get_current_pid().unwrap().as_u32() as i32;
    assert_eq!(memscan::read(&vec![], 0, pid), Err(MemError::ReadFailed));
}

#[test]
fn live_patch_at_null_address_fails() {
    let pid = sysinfo::get_current_pid().unwrap().as_u32() as i32;
    assert_eq!(
        memscan::patch(&vec![], 0, pid, 5),
        Err(MemError::WriteFailed)
    );
}

#[test]
fn live_broken_chain_reports_first_index() {
    let pid = sysinfo::get_current_pid().unwrap().as_u32() as i32;
    assert_eq!(
        memscan::read(&vec![0, 0], 0, pid),
        Err(MemError::ChainBroken(0))
    );
}

#[test]
fn live_string_read_at_null_address_fails() {
    let pid = sysinfo::get_current_pid().unwrap().as_u32() as i32;
    assert_eq!(
        memscan::read_string(&vec![], 0, pid, 8),
        Err(MemError::ReadFailed)
    );
}

#[test]
fn fullprep_without_executable_region_is_not_found() {
    let regions = vec![MemoryRegion {
        start: 0x1000,
        size: 0x1000,
        protection: Protection {
            read: true,
            write: false,
            execute: false,
        },
    }];
    assert_eq!(fullprep(1234, &regions), Err(MemError::NotFound));
}

#[test]
fn fullprep_pairs_pid_with_first_executable_base() {
    let regions = vec![
        MemoryRegion {
            start: 0x1000,
            size: 0x1000,
            protection: Protection {
                read: true,
                write: false,
                execute: false,
            },
        },
        MemoryRegion {
            start: 0x5000,
            size: 0x1000,
            protection: Protection {
                read: true,
                write: false,
                execute: true,
            },
        },
    ];
    assert_eq!(fullprep(1234, &regions), Ok((1234, 0x5000)));
}
