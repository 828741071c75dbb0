//! Inclusive address ranges over the 32-bit address space.

use vstd::prelude::*;

verus! {

/// The inclusive address range `[start, end]`; it holds no address when
/// `start > end`.
#[derive(Clone, Copy, Debug, PartialEq, Eq, Structural)]
pub struct AddressRange {
    pub start: u32,
    pub end: u32,
}

impl AddressRange {
    /// Whether `addr` lies in the range.
    pub open spec fn holds(self, addr: int) -> bool {
        self.start <= addr <= self.end
    }

    /// The range is not empty.
    pub open spec fn wf(self) -> bool {
        self.start <= self.end
    }

    pub fn new(start: u32, end: u32) -> (r: AddressRange)
        ensures
            r.start == start,
            r.end == end,
    {
        AddressRange { start, end }
    }

    pub fn contains(&self, addr: u32) -> (r: bool)
        ensures
            r == self.holds(addr as int),
    {
        self.start <= addr && addr <= self.end
    }
}

/// The four bound comparisons that place `subset` inside `superset`.
pub open spec fn superset_spec(superset: AddressRange, subset: AddressRange) -> bool {
    &&& superset.start <= subset.start
    &&& subset.start <= superset.end
    &&& subset.end <= superset.end
    &&& superset.start <= subset.end
}

/// Whether `subset` lies entirely within `superset`.
pub fn is_superset(superset: &AddressRange, subset: &AddressRange) -> (r: bool)
    ensures
        r == superset_spec(*superset, *subset),
{
    subset.start >= superset.start && subset.start <= superset.end && subset.end <= superset.end
        && subset.end >= superset.start
}

/// For a non-empty `subset`, the containment predicate holds exactly when every
/// address of `subset` is an address of `superset`; in particular a range
/// contains itself, and ranges that share a bound still nest.
pub proof fn lemma_superset_iff_every_address(superset: AddressRange, subset: AddressRange)
    requires
        subset.wf(),
    ensures
        superset_spec(superset, subset) <==> (forall|a: int|
            #[trigger] subset.holds(a) ==> superset.holds(a)),
{
    if forall|a: int| #[trigger] subset.holds(a) ==> superset.holds(a) {
        assert(subset.holds(subset.start as int));
        assert(subset.holds(subset.end as int));
    }
}

} // verus!
