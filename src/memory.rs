//! The target's memory map, the firmware image's sections, and the choice of
//! the RAM region that holds the stack.

use vstd::prelude::*;

verus! {

/// A RAM region of the target, spanning the addresses `[start, end)`.
#[derive(Clone, Copy, Debug, PartialEq, Eq, Structural)]
pub struct RamRegion {
    pub start: u64,
    pub end: u64,
}

/// One region of the target's memory map.
#[derive(Clone, Copy, Debug, PartialEq, Eq, Structural)]
pub enum MemoryRegion {
    Ram(RamRegion),
    /// Flash, EEPROM or other non-volatile memory, spanning `[start, end)`.
    Nvm { start: u64, end: u64 },
    /// Memory that is neither RAM nor non-volatile, spanning `[start, end)`.
    Generic { start: u64, end: u64 },
}

/// A section of the firmware image: `size` bytes from `address`.
#[derive(Clone, Copy, Debug, PartialEq, Eq, Structural)]
pub struct ImageSection {
    pub address: u32,
    pub size: u32,
}

impl RamRegion {
    /// The stack pointer may equal the region's end: a full-descending stack
    /// starts one past its top, so both bounds count here.
    pub open spec fn holds_stack_pointer(self, sp: int) -> bool {
        self.start <= sp <= self.end
    }

    /// `addr` is an address of the region.
    pub open spec fn holds(self, addr: int) -> bool {
        self.start <= addr < self.end
    }
}

impl ImageSection {
    /// The section's last address, in 32-bit arithmetic: a span that runs past
    /// the top of the address space wraps.
    pub open spec fn last_address(self) -> u32 {
        if self.address + self.size - 1 > u32::MAX {
            (self.address + self.size - 1 - 0x1_0000_0000) as u32
        } else {
            (self.address + self.size - 1) as u32
        }
    }

    /// `addr` is one of the section's bytes, counted without wrapping.
    pub open spec fn occupies(self, addr: int) -> bool {
        self.address <= addr <= self.address + self.size - 1
    }
}

/// `region` is a RAM region that holds the stack pointer `sp`.
pub open spec fn is_stack_region(region: MemoryRegion, sp: u32) -> bool {
    match region {
        MemoryRegion::Ram(ram) => ram.holds_stack_pointer(sp as int),
        _ => false,
    }
}

/// The first RAM region of `regions`, in their order, that holds `sp`.
pub open spec fn first_stack_region(regions: Seq<MemoryRegion>, sp: u32) -> Option<RamRegion>
    decreases regions.len(),
{
    if regions.len() == 0 {
        None
    } else if is_stack_region(regions[0], sp) {
        match regions[0] {
            MemoryRegion::Ram(ram) => Some(ram),
            _ => None,
        }
    } else {
        first_stack_region(regions.drop_first(), sp)
    }
}

/// The RAM region that holds the initial stack pointer: the first such one of
/// `memory_map`, or none when no RAM region holds it.
pub fn extract_active_ram_region(memory_map: &Vec<MemoryRegion>, initial_stack_pointer: u32) -> (r:
    Option<RamRegion>)
    ensures
        r == first_stack_region(memory_map@, initial_stack_pointer),
        r matches Some(ram) ==> ram.holds_stack_pointer(initial_stack_pointer as int),
{
    let mut i: usize = 0;
    assert(memory_map@.subrange(0, memory_map@.len() as int) =~= memory_map@);
    while i < memory_map.len()
        invariant
            i <= memory_map@.len(),
            first_stack_region(memory_map@, initial_stack_pointer) == first_stack_region(
                memory_map@.subrange(i as int, memory_map@.len() as int),
                initial_stack_pointer,
            ),
        decreases memory_map.len() - i,
    {
        let rest = Ghost(memory_map@.subrange(i as int, memory_map@.len() as int));
        assert(rest@.drop_first() =~= memory_map@.subrange(i + 1, memory_map@.len() as int));
        assert(rest@[0] == memory_map@[i as int]);
        match &memory_map[i] {
            MemoryRegion::Ram(ram) => {
                let sp = initial_stack_pointer as u64;
                if ram.start <= sp && sp <= ram.end {
                    return Some(*ram);
                }
            },
            _ => {},
        }
        i = i + 1;
    }
    assert(memory_map@.subrange(i as int, memory_map@.len() as int).len() == 0);
    None
}

} // verus!
