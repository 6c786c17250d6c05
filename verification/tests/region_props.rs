use memscan::{
    format_protection, get_base_address, get_modules, list_regions, protection_from_bits,
    MemError, MemoryRegion, Protection, RegionScan,
};

fn prot(read: bool, write: bool, execute: bool) -> Protection {
    Protection {
        read,
        write,
        execute,
    }
}

fn region(start: u64, size: u64, execute: bool) -> MemoryRegion {
    MemoryRegion {
        start,
        size,
        protection: prot(true, false, execute),
    }
}

#[test]
fn base_address_is_first_executable_region() {
    let regions = vec![
        region(0x1000, 0x1000, false),
        region(0x5000, 0x2000, true),
        region(0x9000, 0x1000, true),
    ];
    assert_eq!(get_base_address(&regions), Ok(0x5000));
}

#[test]
fn base_address_never_a_nonexecutable_region() {
    let regions = vec![
        region(0x1000, 0x1000, false),
        region(0x5000, 0x2000, true),
    ];
    let base = get_base_address(&regions).unwrap();
    for r in &regions {
        if !r.protection.execute {
            assert_ne!(base, r.start);
        }
    }
}

#[test]
fn base_address_not_found_without_executable_region() {
    let regions = vec![region(0x1000, 0x1000, false), region(0x5000, 0x2000, false)];
    assert_eq!(get_base_address(&regions), Err(MemError::NotFound));
    assert_eq!(get_base_address(&vec![]), Err(MemError::NotFound));
}

#[test]
fn region_scan_keeps_addresses_strictly_ascending() {
    let mut scan = RegionScan::new();
    assert_eq!(scan.probe_address(), 1);
    assert!(scan.record(0x1000, 0x1000, prot(true, false, false)));
    assert_eq!(scan.probe_address(), 0x2000);
    assert!(scan.record(0x2000, 0x500, prot(true, true, false)));
    assert!(!scan.record(0x1800, 0x100, prot(true, false, true)));
    assert!(!scan.record(0x3000, 0, prot(true, false, true)));
    assert!(scan.record(0x3000, 0x100, prot(true, false, true)));
    let regions = scan.into_regions();
    assert_eq!(regions.len(), 3);
    for pair in regions.windows(2) {
        assert!(pair[0].start < pair[1].start);
    }
}

#[test]
fn protection_bits_decode() {
    assert_eq!(protection_from_bits(0), prot(false, false, false));
    assert_eq!(protection_from_bits(1 | 4), prot(true, false, true));
    assert_eq!(protection_from_bits(1 | 2 | 4), prot(true, true, true));
}

#[test]
fn protection_formats_as_letters() {
    assert_eq!(format_protection(&prot(true, true, true)), "RWX");
    assert_eq!(format_protection(&prot(false, false, false)), "");
    assert_eq!(format_protection(&prot(true, false, true)), "RX");
    assert_eq!(format_protection(&prot(false, true, false)), "W");
}

#[test]
fn modules_are_the_executable_regions() {
    let regions = vec![
        region(0x1000, 0x1000, false),
        region(0x5000, 0x2000, true),
        region(0x9000, 0x300, true),
    ];
    let modules = get_modules(&regions);
    assert_eq!(modules.len(), 2);
    assert_eq!(modules[0].base_address, 0x5000);
    assert_eq!(modules[0].size, 0x2000);
    assert_eq!(modules[0].name, "Unimplemented");
    assert_eq!(modules[1].base_address, 0x9000);
    assert_eq!(modules[1].size, 0x300);
}

#[test]
fn region_listing_renders_each_region() {
    let regions = vec![region(0x1000, 0x1000, false), region(0x5000, 0x2000, true)];
    let lines = list_regions(&regions);
    assert_eq!(lines.len(), 2);
    assert_eq!(lines[0].0, 0x1000);
    assert_eq!(lines[0].1, 0x1000);
    assert_eq!(lines[0].2, "R");
    assert_eq!(lines[1].2, "RX");
}

#[test]
fn error_messages_are_actionable() {
    assert_eq!(
        MemError::NotFound.message(),
        "no matching process or no executable region found"
    );
    assert!(MemError::AttachDenied.message().contains("privilege"));
}
