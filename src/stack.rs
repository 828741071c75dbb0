//! The range of addresses that the stack may use.

use vstd::prelude::*;

use crate::memory::{ImageSection, RamRegion};
use crate::range::{is_superset, superset_spec, AddressRange};

verus! {

/// The addresses that the stack pointer may take without colliding with other
/// data, and whether other data lies in RAM below them.
#[derive(Clone, Copy, Debug, PartialEq, Eq, Structural)]
pub struct StackInfo {
    pub range: AddressRange,
    pub data_below_stack: bool,
}

/// The addresses that a non-empty section spans, in 32-bit arithmetic.
pub open spec fn section_span(section: ImageSection) -> AddressRange {
    AddressRange { start: section.address, end: section.last_address() }
}

/// What one section does to the candidate stack range. An empty section, or
/// one that does not end in `ram`, leaves it as it is; one that holds the top
/// of the stack leaves no range at all; one that lies wholly inside the range
/// lifts its floor above the section.
pub open spec fn apply_section(
    candidate: Option<AddressRange>,
    section: ImageSection,
    ram: RamRegion,
) -> Option<AddressRange> {
    match candidate {
        None => None,
        Some(c) => {
            let span = section_span(section);
            if section.size == 0 || !ram.holds(span.end as int) {
                Some(c)
            } else if span.holds(c.end as int) {
                None
            } else if superset_spec(c, span) {
                Some(AddressRange { start: (span.end + 1) as u32, end: c.end })
            } else {
                Some(c)
            }
        },
    }
}

/// The candidate range after the sections, taken in order, have been applied
/// to `initial`.
pub open spec fn scan_sections(
    sections: Seq<ImageSection>,
    ram: RamRegion,
    initial: AddressRange,
) -> Option<AddressRange>
    decreases sections.len(),
{
    if sections.len() == 0 {
        Some(initial)
    } else {
        apply_section(scan_sections(sections.drop_last(), ram, initial), sections.last(), ram)
    }
}

/// The range from the bottom of `ram` up to the address below the initial
/// stack pointer.
pub open spec fn initial_range(sp: u32, ram: RamRegion) -> AddressRange {
    AddressRange { start: ram.start as u32, end: (sp - 1) as u32 }
}

/// The stack info that the sections leave in `ram`. There is none without a
/// RAM region, when a section holds the top of the stack, or when the stack
/// pointer lies below the region's start or is 0, so that no top of the stack
/// exists in it. A stack pointer at the region's start leaves the range
/// `[start, start - 1]`, which holds no address.
pub open spec fn stack_info_spec(
    sections: Seq<ImageSection>,
    sp: u32,
    ram: Option<RamRegion>,
) -> Option<StackInfo> {
    match ram {
        None => None,
        Some(ram) => if sp == 0 || sp < ram.start {
            None
        } else {
            match scan_sections(sections, ram, initial_range(sp, ram)) {
                None => None,
                Some(c) => Some(StackInfo { range: c, data_below_stack: c.start > ram.start }),
            }
        },
    }
}

proof fn lemma_scan_keeps_top(sections: Seq<ImageSection>, ram: RamRegion, initial: AddressRange)
    ensures
        scan_sections(sections, ram, initial) matches Some(c) ==> c.end == initial.end,
    decreases sections.len(),
{
    if sections.len() > 0 {
        lemma_scan_keeps_top(sections.drop_last(), ram, initial);
    }
}

proof fn lemma_scan_stays_none(
    sections: Seq<ImageSection>,
    ram: RamRegion,
    initial: AddressRange,
    k: int,
)
    requires
        0 <= k <= sections.len(),
        scan_sections(sections.subrange(0, k), ram, initial) is None,
    ensures
        scan_sections(sections, ram, initial) is None,
    decreases sections.len() - k,
{
    if k == sections.len() {
        assert(sections.subrange(0, k) =~= sections);
    } else {
        assert(sections.subrange(0, k + 1).drop_last() =~= sections.subrange(0, k));
        lemma_scan_stays_none(sections, ram, initial, k + 1);
    }
}

/// The stack info of a firmware image whose stack pointer starts at
/// `initial_stack_pointer`, within the active RAM region.
pub fn extract_stack_info(
    sections: &Vec<ImageSection>,
    initial_stack_pointer: u32,
    ram_region: Option<RamRegion>,
) -> (r: Option<StackInfo>)
    ensures
        r == stack_info_spec(sections@, initial_stack_pointer, ram_region),
{
    let ram = match ram_region {
        None => return None,
        Some(ram) => ram,
    };
    if initial_stack_pointer == 0 || (initial_stack_pointer as u64) < ram.start {
        return None;
    }
    // the stack pointer points one past the top of the stack
    let mut stack_range = AddressRange { start: ram.start as u32, end: initial_stack_pointer - 1 };
    let ghost initial = stack_range;
    let mut i: usize = 0;
    assert(sections@.subrange(0, 0).len() == 0);
    while i < sections.len()
        invariant
            i <= sections@.len(),
            ram_region == Some(ram),
            ram.start <= initial_stack_pointer,
            initial_stack_pointer >= 1,
            initial == initial_range(initial_stack_pointer, ram),
            stack_range.end == initial_stack_pointer - 1,
            scan_sections(sections@.subrange(0, i as int), ram, initial) == Some(stack_range),
        decreases sections.len() - i,
    {
        let section = sections[i];
        assert(sections@.subrange(0, i + 1).drop_last() =~= sections@.subrange(0, i as int));
        assert(sections@.subrange(0, i + 1).last() == section);
        if section.size != 0 {
            let lowest = section.address;
            let highest = lowest.wrapping_add(section.size - 1);
            let span = AddressRange { start: lowest, end: highest };
            assert(span == section_span(section));
            if ram.start <= highest as u64 && (highest as u64) < ram.end {
                if span.contains(stack_range.end) {
                    proof {
                        assert(scan_sections(sections@.subrange(0, i + 1), ram, initial) is None);
                        lemma_scan_stays_none(sections@, ram, initial, i + 1);
                    }
                    return None;
                } else if is_superset(&stack_range, &span) {
                    stack_range = AddressRange { start: highest + 1, end: stack_range.end };
                }
            }
        }
        i = i + 1;
    }
    assert(sections@.subrange(0, sections@.len() as int) =~= sections@);
    Some(StackInfo { range: stack_range, data_below_stack: stack_range.start as u64 > ram.start })
}


proof fn lemma_scan_unchanged(sections: Seq<ImageSection>, ram: RamRegion, initial: AddressRange)
    requires
        forall|i: int|
            0 <= i < sections.len() ==> apply_section(Some(initial), #[trigger] sections[i], ram)
                == Some(initial),
    ensures
        scan_sections(sections, ram, initial) == Some(initial),
    decreases sections.len(),
{
    if sections.len() > 0 {
        let rest = sections.drop_last();
        assert forall|i: int| 0 <= i < rest.len() implies apply_section(
            Some(initial),
            #[trigger] rest[i],
            ram,
        ) == Some(initial) by {
            assert(rest[i] == sections[i]);
        }
        lemma_scan_unchanged(rest, ram, initial);
        assert(apply_section(Some(initial), sections[sections.len() - 1], ram) == Some(initial));
    }
}

/// When no non-empty section occupies any address of the RAM region, the stack
/// runs from the region's start up to the address below the stack pointer, and
/// no data lies below it.
pub proof fn lemma_sections_outside_ram_leave_whole_range(
    sections: Seq<ImageSection>,
    sp: u32,
    ram: RamRegion,
)
    requires
        1 <= sp,
        ram.start <= sp <= ram.end,
        forall|i: int, a: int|
            0 <= i < sections.len() && sections[i].size > 0 && #[trigger] sections[i].occupies(a)
                ==> !ram.holds(a),
    ensures
        stack_info_spec(sections, sp, Some(ram)) == Some(
            StackInfo { range: initial_range(sp, ram), data_below_stack: false },
        ),
{
    let initial = initial_range(sp, ram);
    assert forall|i: int| 0 <= i < sections.len() implies apply_section(
        Some(initial),
        #[trigger] sections[i],
        ram,
    ) == Some(initial) by {
        let s = sections[i];
        let span = section_span(s);
        if s.size > 0 && ram.holds(span.end as int) {
            if s.address + s.size - 1 > u32::MAX {
                if superset_spec(initial, span) {
                    assert(s.occupies(s.address as int));
                }
            } else {
                assert(s.occupies(span.end as int));
            }
        }
    }
    lemma_scan_unchanged(sections, ram, initial);
}

proof fn lemma_scan_floor_below_one_section(
    sections: Seq<ImageSection>,
    sp: u32,
    ram: RamRegion,
    k: int,
    low: u32,
    high: u32,
)
    requires
        sp <= ram.end,
        ram.start <= low <= high,
        high < sp - 1,
        0 <= k,
        k < sections.len() ==> {
            &&& sections[k].size > 0
            &&& sections[k].address == low
            &&& sections[k].address + sections[k].size - 1 == high
        },
        forall|i: int, a: int|
            0 <= i < sections.len() && i != k && sections[i].size > 0
                && #[trigger] sections[i].occupies(a) ==> !(low <= a < sp),
    ensures
        scan_sections(sections, ram, initial_range(sp, ram)) is Some,
        scan_sections(sections, ram, initial_range(sp, ram)).unwrap().end == sp - 1,
        k < sections.len() ==> scan_sections(sections, ram, initial_range(sp, ram)).unwrap().start
            == high + 1,
        k >= sections.len() ==> ram.start <= scan_sections(
            sections,
            ram,
            initial_range(sp, ram),
        ).unwrap().start <= low,
    decreases sections.len(),
{
    if sections.len() > 0 {
        let rest = sections.drop_last();
        let n = sections.len() - 1;
        assert forall|i: int, a: int|
            0 <= i < rest.len() && i != k && rest[i].size > 0 && #[trigger] rest[i].occupies(
                a,
            ) implies !(low <= a < sp) by {
            assert(rest[i] == sections[i]);
        }
        if k < n {
            assert(rest[k] == sections[k]);
        }
        lemma_scan_floor_below_one_section(rest, sp, ram, k, low, high);
        let s = sections[n];
        let span = section_span(s);
        let c = scan_sections(rest, ram, initial_range(sp, ram)).unwrap();
        if n != k && s.size > 0 && ram.holds(span.end as int) {
            if s.address + s.size - 1 <= u32::MAX {
                if span.holds(c.end as int) {
                    assert(s.occupies(sp - 1));
                }
            }
            if superset_spec(c, span) {
                if s.address >= low {
                    assert(s.occupies(s.address as int));
                } else if s.address + s.size - 1 > u32::MAX || span.end >= low {
                    assert(s.occupies(low as int));
                }
            }
        }
    }
}

/// When one non-empty section `[low, high]` lies in RAM wholly below the top
/// of the stack, and every other non-empty section keeps clear of the
/// addresses from `low` up to the top of the stack, the stack's floor rises to
/// `high + 1` and data lies below the stack, in whatever order the sections
/// come.
pub proof fn lemma_one_section_below_stack(
    sections: Seq<ImageSection>,
    sp: u32,
    ram: RamRegion,
    k: int,
)
    requires
        sp <= ram.end,
        0 <= k < sections.len(),
        sections[k].size > 0,
        ram.start <= sections[k].address,
        sections[k].address + sections[k].size - 1 < sp - 1,
        forall|i: int, a: int|
            0 <= i < sections.len() && i != k && sections[i].size > 0
                && #[trigger] sections[i].occupies(a) ==> !(sections[k].address <= a < sp),
    ensures
        stack_info_spec(sections, sp, Some(ram)) == Some(
            StackInfo {
                range: AddressRange {
                    start: (sections[k].address + sections[k].size) as u32,
                    end: (sp - 1) as u32,
                },
                data_below_stack: true,
            },
        ),
{
    let low = sections[k].address;
    let high = (sections[k].address + sections[k].size - 1) as u32;
    lemma_scan_floor_below_one_section(sections, sp, ram, k, low, high);
}

/// When a non-empty section that ends in RAM holds the address below the
/// initial stack pointer, there is no stack info, whatever the other sections
/// are and in whatever order they come. The section's end is its last address
/// in 32-bit arithmetic.
pub proof fn lemma_stack_top_in_section(
    sections: Seq<ImageSection>,
    sp: u32,
    ram: RamRegion,
    k: int,
)
    requires
        0 <= k < sections.len(),
        sections[k].size > 0,
        ram.holds(sections[k].last_address() as int),
        section_span(sections[k]).holds(sp - 1),
    ensures
        stack_info_spec(sections, sp, Some(ram)) is None,
{
    if sp >= 1 && sp >= ram.start {
        let initial = initial_range(sp, ram);
        lemma_scan_keeps_top(sections.subrange(0, k), ram, initial);
        assert(sections.subrange(0, k + 1).drop_last() =~= sections.subrange(0, k));
        assert(sections.subrange(0, k + 1).last() == sections[k]);
        assert(scan_sections(sections.subrange(0, k + 1), ram, initial) is None);
        lemma_scan_stays_none(sections, ram, initial, k + 1);
    }
}

proof fn lemma_scan_skips_empty(
    sections: Seq<ImageSection>,
    ram: RamRegion,
    initial: AddressRange,
    i: int,
    empty: ImageSection,
)
    requires
        0 <= i <= sections.len(),
        empty.size == 0,
    ensures
        scan_sections(sections.insert(i, empty), ram, initial) == scan_sections(
            sections,
            ram,
            initial,
        ),
    decreases sections.len(),
{
    let longer = sections.insert(i, empty);
    if i == sections.len() {
        assert(longer.drop_last() =~= sections);
    } else {
        assert(longer.drop_last() =~= sections.drop_last().insert(i, empty));
        assert(longer.last() == sections.last());
        lemma_scan_skips_empty(sections.drop_last(), ram, initial, i, empty);
    }
}

/// An empty section, wherever it stands among the sections and whatever its
/// address, changes nothing in the stack info.
pub proof fn lemma_empty_section_changes_nothing(
    sections: Seq<ImageSection>,
    sp: u32,
    ram: Option<RamRegion>,
    i: int,
    empty: ImageSection,
)
    requires
        0 <= i <= sections.len(),
        empty.size == 0,
    ensures
        stack_info_spec(sections.insert(i, empty), sp, ram) == stack_info_spec(sections, sp, ram),
{
    if let Some(ram) = ram {
        if sp >= 1 && sp >= ram.start {
            lemma_scan_skips_empty(sections, ram, initial_range(sp, ram), i, empty);
        }
    }
}

} // verus!
