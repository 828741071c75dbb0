use target_info::memory::{extract_active_ram_region, ImageSection, MemoryRegion, RamRegion};
use target_info::range::{is_superset, AddressRange};
use target_info::stack::{extract_stack_info, StackInfo};
use target_info::target::{TargetError, TargetInfo};

fn range(start: u32, end: u32) -> AddressRange {
    AddressRange::new(start, end)
}

fn section(address: u32, size: u32) -> ImageSection {
    ImageSection { address, size }
}

const RAM: RamRegion = RamRegion { start: 0x2000_0000, end: 0x2000_1000 };

#[test]
fn superset_of_equal_range() {
    assert!(is_superset(&range(0, 10), &range(0, 10)));
}

#[test]
fn superset_of_inner_range() {
    assert!(is_superset(&range(0, 10), &range(1, 9)));
}

#[test]
fn superset_sharing_lower_bound() {
    assert!(is_superset(&range(0, 10), &range(0, 5)));
}

#[test]
fn superset_sharing_upper_bound() {
    assert!(is_superset(&range(0, 10), &range(5, 10)));
}

#[test]
fn not_superset_when_subset_exceeds_end() {
    assert!(!is_superset(&range(0, 10), &range(0, 11)));
}

#[test]
fn not_superset_when_subset_straddles_end() {
    assert!(!is_superset(&range(0, 10), &range(5, 11)));
}

#[test]
fn not_superset_when_subset_below_start() {
    assert!(!is_superset(&range(5, 10), &range(4, 10)));
}

#[test]
fn range_contains_its_bounds() {
    let r = range(3, 7);
    assert!(r.contains(3));
    assert!(r.contains(7));
    assert!(!r.contains(2));
    assert!(!r.contains(8));
}

#[test]
fn active_region_is_first_ram_holding_stack_pointer() {
    let map = vec![
        MemoryRegion::Nvm { start: 0x0, end: 0x10_0000 },
        MemoryRegion::Ram(RamRegion { start: 0x80_0000, end: 0x84_0000 }),
        MemoryRegion::Ram(RamRegion { start: 0x2000_0000, end: 0x2004_0000 }),
        MemoryRegion::Ram(RamRegion { start: 0x2000_0000, end: 0x2008_0000 }),
    ];
    assert_eq!(
        extract_active_ram_region(&map, 0x2000_1000),
        Some(RamRegion { start: 0x2000_0000, end: 0x2004_0000 })
    );
}

#[test]
fn active_region_admits_stack_pointer_at_region_end() {
    let map = vec![MemoryRegion::Ram(RAM)];
    assert_eq!(extract_active_ram_region(&map, 0x2000_1000), Some(RAM));
    assert_eq!(extract_active_ram_region(&map, 0x2000_1001), None);
}

#[test]
fn active_region_ignores_non_ram_regions() {
    let map = vec![
        MemoryRegion::Nvm { start: 0x0, end: 0x10_0000 },
        MemoryRegion::Generic { start: 0x2000_0000, end: 0x2000_1000 },
    ];
    assert_eq!(extract_active_ram_region(&map, 0x2000_0800), None);
}

#[test]
fn no_active_region_gives_no_stack_info() {
    let map = vec![MemoryRegion::Ram(RAM), MemoryRegion::Nvm { start: 0x0, end: 0x1000 }];
    let sp = 0x1000_0000;
    let active = extract_active_ram_region(&map, sp);
    assert_eq!(active, None);
    assert_eq!(extract_stack_info(&vec![section(0x0, 0x100)], sp, active), None);
}

#[test]
fn sections_outside_ram_leave_whole_range() {
    let sections = vec![section(0x0, 0x400), section(0x1000_0000, 0x20)];
    assert_eq!(
        extract_stack_info(&sections, 0x2000_1000, Some(RAM)),
        Some(StackInfo { range: range(0x2000_0000, 0x2000_0FFF), data_below_stack: false })
    );
}

#[test]
fn one_section_below_stack_lifts_floor() {
    let sections = vec![section(0x2000_0010, 0x20)];
    assert_eq!(
        extract_stack_info(&sections, 0x2000_1000, Some(RAM)),
        Some(StackInfo { range: range(0x2000_0030, 0x2000_0FFF), data_below_stack: true })
    );
}

#[test]
fn section_at_ram_start_lifts_floor() {
    // the `.data` section at the bottom of a 4 KiB RAM bank
    let sections = vec![section(0x2000_0000, 0x100)];
    assert_eq!(
        extract_stack_info(&sections, 0x2000_0FFF + 1, Some(RAM)),
        Some(StackInfo { range: range(0x2000_0100, 0x2000_0FFF), data_below_stack: true })
    );
}

#[test]
fn stack_top_inside_section_gives_no_stack_info() {
    let sections = vec![section(0x2000_0000, 0x100), section(0x2000_0F00, 0x100)];
    assert_eq!(extract_stack_info(&sections, 0x2000_1000, Some(RAM)), None);
    let sections = vec![section(0x2000_0F00, 0x100), section(0x2000_0000, 0x100)];
    assert_eq!(extract_stack_info(&sections, 0x2000_1000, Some(RAM)), None);
}

#[test]
fn empty_sections_change_nothing() {
    let with = vec![section(0x2000_0FFF, 0), section(0x2000_0010, 0x20), section(0x2000_0800, 0)];
    let without = vec![section(0x2000_0010, 0x20)];
    assert_eq!(
        extract_stack_info(&with, 0x2000_1000, Some(RAM)),
        extract_stack_info(&without, 0x2000_1000, Some(RAM))
    );
}

#[test]
fn section_order_does_not_matter() {
    let a = section(0x2000_0000, 0x100);
    let b = section(0x2000_0100, 0x80);
    let expected = Some(StackInfo { range: range(0x2000_0180, 0x2000_0FFF), data_below_stack: true });
    assert_eq!(extract_stack_info(&vec![a, b], 0x2000_1000, Some(RAM)), expected);
    assert_eq!(extract_stack_info(&vec![b, a], 0x2000_1000, Some(RAM)), expected);
}

#[test]
fn section_partly_below_ram_leaves_range() {
    let sections = vec![section(0x1FFF_FF00, 0x200)];
    assert_eq!(
        extract_stack_info(&sections, 0x2000_1000, Some(RAM)),
        Some(StackInfo { range: range(0x2000_0000, 0x2000_0FFF), data_below_stack: false })
    );
}

#[test]
fn section_ending_past_ram_is_skipped() {
    let sections = vec![section(0x2000_0F00, 0x200)];
    assert_eq!(
        extract_stack_info(&sections, 0x2000_1000, Some(RAM)),
        Some(StackInfo { range: range(0x2000_0000, 0x2000_0FFF), data_below_stack: false })
    );
}

#[test]
fn section_span_wraps_at_address_space_end() {
    let ram = RamRegion { start: 0x0, end: 0x1000 };
    let sections = vec![section(0xFFFF_FF00, 0x200)];
    assert_eq!(
        extract_stack_info(&sections, 0x800, Some(ram)),
        Some(StackInfo { range: range(0x0, 0x7FF), data_below_stack: false })
    );
}

#[test]
fn stack_pointer_at_ram_start_leaves_range_below_it() {
    assert_eq!(
        extract_stack_info(&vec![section(0x0, 0x100)], 0x2000_0000, Some(RAM)),
        Some(StackInfo { range: range(0x2000_0000, 0x1FFF_FFFF), data_below_stack: false })
    );
}

#[test]
fn zero_stack_pointer_gives_no_stack_info() {
    let ram = RamRegion { start: 0x0, end: 0x1000 };
    assert_eq!(extract_stack_info(&vec![], 0, Some(ram)), None);
}

#[test]
fn section_below_floor_section_keeps_its_floor() {
    let below = section(0x2000_0000, 0x10);
    let data = section(0x2000_0010, 0x20);
    let flash = section(0x0, 0x400);
    let expected = Some(StackInfo { range: range(0x2000_0030, 0x2000_0FFF), data_below_stack: true });
    assert_eq!(extract_stack_info(&vec![below, data, flash], 0x2000_1000, Some(RAM)), expected);
    assert_eq!(extract_stack_info(&vec![data, flash, below], 0x2000_1000, Some(RAM)), expected);
}

#[test]
fn no_ram_region_gives_no_stack_info() {
    assert_eq!(extract_stack_info(&vec![], 0x2000_1000, None), None);
}

#[test]
fn target_info_of_known_chip() {
    let sections = vec![section(0x0, 0x1000), section(0x2000_0000, 0x400)];
    let info = match TargetInfo::new("nRF52840_xxAA", 0x2004_0000, &sections) {
        Ok(info) => info,
        Err(_) => panic!("nRF52840_xxAA is a known target"),
    };
    assert_eq!(info.active_ram_region, Some(RamRegion { start: 0x2000_0000, end: 0x2004_0000 }));
    assert_eq!(
        info.stack_info,
        Some(StackInfo { range: range(0x2000_0400, 0x2003_FFFF), data_below_stack: true })
    );
}

#[test]
fn target_info_without_ram_for_stack_pointer() {
    let info = match TargetInfo::new("nRF52840_xxAA", 0x3000_0000, &vec![]) {
        Ok(info) => info,
        Err(_) => panic!("nRF52840_xxAA is a known target"),
    };
    assert_eq!(info.active_ram_region, None);
    assert_eq!(info.stack_info, None);
}

#[test]
fn target_info_of_unknown_chip() {
    assert!(matches!(
        TargetInfo::new("no-such-chip-anywhere", 0x2000_1000, &vec![]),
        Err(TargetError::UnknownTarget(_))
    ));
}

#[test]
fn target_info_from_memory_map() {
    let registry = probe_rs::config::Registry::from_builtin_families();
    let target = match registry.get_target_by_name("nRF52840_xxAA") {
        Ok(target) => target,
        Err(_) => panic!("nRF52840_xxAA is a known target"),
    };
    let map = vec![MemoryRegion::Ram(RAM)];
    let info = TargetInfo::from_memory_map(target, &map, 0x2000_1000, &vec![section(0x2000_0000, 0x100)]);
    assert_eq!(info.active_ram_region, Some(RAM));
    assert_eq!(
        info.stack_info,
        Some(StackInfo { range: range(0x2000_0100, 0x2000_0FFF), data_below_stack: true })
    );
}
