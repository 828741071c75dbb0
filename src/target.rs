//! The target description of a chip together with what is resolved of the
//! stack of a firmware image running on it.

use vstd::prelude::*;

use crate::memory::{
    extract_active_ram_region, first_stack_region, is_stack_region, ImageSection, MemoryRegion,
    RamRegion,
};
use crate::stack::{extract_stack_info, stack_info_spec, StackInfo};

verus! {

#[verifier::external_type_specification]
#[verifier::external_body]
pub struct ExTarget(probe_rs::Target);

#[verifier::external_type_specification]
#[verifier::external_body]
pub struct ExRegistryError(probe_rs::config::RegistryError);

/// Relies on probe_rs's `Registry::get_target_by_name` over the built-in
/// target descriptions: the description of the chip named `chip`, or the
/// registry's reason for finding none.
#[verifier::external_body]
fn lookup_target(chip: &str) -> (r: Result<probe_rs::Target, probe_rs::config::RegistryError>) {
    probe_rs::config::Registry::from_builtin_families().get_target_by_name(chip)
}

/// The memory map of a target description: its regions, in order.
pub uninterp spec fn target_memory_map(t: probe_rs::Target) -> Seq<MemoryRegion>;

/// Relies on the `memory_map` field of probe_rs's `Target`: each of its
/// regions, in order, with the kind and the address range that it has there.
#[verifier::external_body]
fn memory_map_of(target: &probe_rs::Target) -> (r: Vec<MemoryRegion>)
    ensures
        r@ == target_memory_map(*target),
{
    target.memory_map.iter().map(|region| match region {
        probe_rs::config::MemoryRegion::Ram(ram) => MemoryRegion::Ram(
            RamRegion { start: ram.range.start, end: ram.range.end },
        ),
        probe_rs::config::MemoryRegion::Nvm(nvm) => MemoryRegion::Nvm {
            start: nvm.range.start,
            end: nvm.range.end,
        },
        probe_rs::config::MemoryRegion::Generic(generic) => MemoryRegion::Generic {
            start: generic.range.start,
            end: generic.range.end,
        },
    }).collect()
}

/// Why no target info could be built.
#[derive(Debug)]
pub enum TargetError {
    /// The chip's name matches no known target description.
    UnknownTarget(probe_rs::config::RegistryError),
}

/// A chip's target description, the RAM region that holds the stack, and the
/// range that the stack may use.
pub struct TargetInfo {
    pub probe_target: probe_rs::Target,
    /// The RAM region that contains the call stack.
    pub active_ram_region: Option<RamRegion>,
    pub stack_info: Option<StackInfo>,
}

impl TargetInfo {
    /// The target info of a firmware image whose stack pointer starts at
    /// `initial_stack_pointer`, on a target with the given memory map.
    pub fn from_memory_map(
        probe_target: probe_rs::Target,
        memory_map: &Vec<MemoryRegion>,
        initial_stack_pointer: u32,
        sections: &Vec<ImageSection>,
    ) -> (r: TargetInfo)
        ensures
            r.probe_target == probe_target,
            r.active_ram_region == first_stack_region(memory_map@, initial_stack_pointer),
            r.active_ram_region matches Some(ram) ==> ram.holds_stack_pointer(
                initial_stack_pointer as int,
            ),
            r.stack_info == stack_info_spec(
                sections@,
                initial_stack_pointer,
                r.active_ram_region,
            ),
    {
        let active_ram_region = extract_active_ram_region(memory_map, initial_stack_pointer);
        let stack_info = extract_stack_info(sections, initial_stack_pointer, active_ram_region);
        TargetInfo { probe_target, active_ram_region, stack_info }
    }

    /// The target info of a firmware image on the chip named `chip`: the
    /// first RAM region of the chip's memory map that holds the initial stack
    /// pointer, and the stack info resolved from the sections within it.
    pub fn new(chip: &str, initial_stack_pointer: u32, sections: &Vec<ImageSection>) -> (r: Result<
        TargetInfo,
        TargetError,
    >)
        ensures
            r matches Ok(info) ==> {
                &&& info.active_ram_region == first_stack_region(
                    target_memory_map(info.probe_target),
                    initial_stack_pointer,
                )
                &&& info.active_ram_region matches Some(ram) ==> ram.holds_stack_pointer(
                    initial_stack_pointer as int,
                )
                &&& info.stack_info == stack_info_spec(
                    sections@,
                    initial_stack_pointer,
                    info.active_ram_region,
                )
            },
    {
        match lookup_target(chip) {
            Ok(probe_target) => {
                let memory_map = memory_map_of(&probe_target);
                Ok(TargetInfo::from_memory_map(
                    probe_target,
                    &memory_map,
                    initial_stack_pointer,
                    sections,
                ))
            },
            Err(e) => Err(TargetError::UnknownTarget(e)),
        }
    }
}

/// When no RAM region of the memory map holds the initial stack pointer, there
/// is neither an active RAM region nor stack info, whatever the sections are.
pub proof fn lemma_no_ram_region_no_stack_info(
    memory_map: Seq<MemoryRegion>,
    initial_stack_pointer: u32,
    sections: Seq<ImageSection>,
)
    requires
        forall|i: int|
            0 <= i < memory_map.len() ==> !is_stack_region(
                #[trigger] memory_map[i],
                initial_stack_pointer,
            ),
    ensures
        first_stack_region(memory_map, initial_stack_pointer) is None,
        stack_info_spec(
            sections,
            initial_stack_pointer,
            first_stack_region(memory_map, initial_stack_pointer),
        ) is None,
    decreases memory_map.len(),
{
    if memory_map.len() > 0 {
        let rest = memory_map.drop_first();
        assert(!is_stack_region(memory_map[0], initial_stack_pointer));
        assert forall|i: int| 0 <= i < rest.len() implies !is_stack_region(
            #[trigger] rest[i],
            initial_stack_pointer,
        ) by {
            assert(rest[i] == memory_map[i + 1]);
        }
        lemma_no_ram_region_no_stack_info(rest, initial_stack_pointer, sections);
    }
}

} // verus!
