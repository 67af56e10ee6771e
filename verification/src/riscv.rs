use vstd::prelude::*;
use crate::param::PGSIZE;

verus! {

// Sv39 page-table entry flag bits.
pub const PTE_V: usize = 1 << 0;
pub const PTE_R: usize = 1 << 1;
pub const PTE_W: usize = 1 << 2;
pub const PTE_X: usize = 1 << 3;
pub const PTE_U: usize = 1 << 4;

/// `sz` rounded up to a page boundary.
pub open spec fn spec_pgroundup(sz: int) -> int {
    ((sz + PGSIZE - 1) / (PGSIZE as int)) * PGSIZE
}

/// `a` rounded down to a page boundary.
pub open spec fn spec_pgrounddown(a: int) -> int {
    (a / (PGSIZE as int)) * PGSIZE
}

pub fn pgroundup(sz: usize) -> (r: usize)
    requires
        sz + PGSIZE - 1 <= usize::MAX,
    ensures
        r == spec_pgroundup(sz as int),
        r >= sz,
        r < sz + PGSIZE,
        r % PGSIZE == 0,
{
    (sz + (PGSIZE - 1)) / PGSIZE * PGSIZE
}

pub fn pgrounddown(a: usize) -> (r: usize)
    ensures
        r == spec_pgrounddown(a as int),
        r <= a,
        a < r + PGSIZE,
        r % PGSIZE == 0,
{
    a / PGSIZE * PGSIZE
}

} // verus!
