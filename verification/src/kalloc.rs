use vstd::prelude::*;
use crate::memlayout::{KERNBASE, PHYSTOP};
use crate::param::PGSIZE;

verus! {

/// Pages in the kernel's allocation area.
pub const NPAGE: usize = (PHYSTOP - KERNBASE) / PGSIZE;

/// `pa` is a page-aligned physical address inside the allocation area.
pub open spec fn valid_pa(pa: usize) -> bool {
    KERNBASE <= pa < PHYSTOP && pa % PGSIZE == 0
}

pub open spec fn spec_pa2idx(pa: usize) -> int {
    (pa - KERNBASE) / (PGSIZE as int)
}

/// Per-page reference counts, for pages shared between address spaces.
pub struct Kmem {
    pub refs: Vec<u16>,
}

impl Kmem {
    pub open spec fn wf(&self) -> bool {
        self.refs@.len() == NPAGE
    }

    /// The reference count of the page at `pa`.
    pub open spec fn count(&self, pa: usize) -> u16 {
        self.refs@[spec_pa2idx(pa)]
    }

    pub fn new() -> (k: Self)
        ensures
            k.wf(),
            forall|i: int| 0 <= i < NPAGE ==> #[trigger] k.refs@[i] == 0,
    {
        let mut refs: Vec<u16> = Vec::new();
        let mut i: usize = 0;
        while i < NPAGE
            invariant
                0 <= i <= NPAGE,
                refs@.len() == i,
                forall|j: int| 0 <= j < i ==> #[trigger] refs@[j] == 0,
            decreases NPAGE - i,
        {
            refs.push(0);
            i = i + 1;
        }
        Kmem { refs }
    }
}

fn pa2idx(pa: usize) -> (i: usize)
    requires
        valid_pa(pa),
    ensures
        i == spec_pa2idx(pa),
        i < NPAGE,
{
    (pa - KERNBASE) / PGSIZE
}

/// Marks a freshly allocated page as having one reference.
pub fn page_ref_init(kmem: &mut Kmem, pa: usize)
    requires
        old(kmem).wf(),
        valid_pa(pa),
        old(kmem).count(pa) == 0,
    ensures
        final(kmem).wf(),
        final(kmem).refs@ == old(kmem).refs@.update(spec_pa2idx(pa), 1),
{
    let idx = pa2idx(pa);
    kmem.refs.set(idx, 1);
}

pub fn page_ref_inc(kmem: &mut Kmem, pa: usize)
    requires
        old(kmem).wf(),
        valid_pa(pa),
        old(kmem).count(pa) != u16::MAX,
    ensures
        final(kmem).wf(),
        final(kmem).refs@ == old(kmem).refs@.update(spec_pa2idx(pa), (old(kmem).count(pa) + 1) as u16),
{
    let idx = pa2idx(pa);
    let v = kmem.refs[idx];
    kmem.refs.set(idx, v + 1);
}

/// Drops one reference; returns the count that is left.
pub fn page_ref_dec(kmem: &mut Kmem, pa: usize) -> (left: u16)
    requires
        old(kmem).wf(),
        valid_pa(pa),
        old(kmem).count(pa) != 0,
    ensures
        final(kmem).wf(),
        left == old(kmem).count(pa) - 1,
        final(kmem).refs@ == old(kmem).refs@.update(spec_pa2idx(pa), left),
{
    let idx = pa2idx(pa);
    let v = kmem.refs[idx];
    kmem.refs.set(idx, v - 1);
    kmem.refs[idx]
}

pub fn page_ref_get(kmem: &Kmem, pa: usize) -> (c: u16)
    requires
        kmem.wf(),
        valid_pa(pa),
    ensures
        c == kmem.count(pa),
{
    let idx = pa2idx(pa);
    kmem.refs[idx]
}

/// Free pages, given the allocator's count of free bytes.
pub fn free_pages(free_bytes: usize) -> (n: usize)
    ensures
        n == free_bytes / PGSIZE,
{
    free_bytes / PGSIZE
}

/// Taking and dropping a reference leaves every count as it was.
pub proof fn law_inc_dec_roundtrip(refs: Seq<u16>, pa: usize)
    requires
        refs.len() == NPAGE,
        valid_pa(pa),
        refs[spec_pa2idx(pa)] != u16::MAX,
    ensures
        ({
            let i = spec_pa2idx(pa);
            let up = refs.update(i, (refs[i] + 1) as u16);
            up.update(i, (up[i] - 1) as u16) == refs
        }),
{
    let i = spec_pa2idx(pa);
    let up = refs.update(i, (refs[i] + 1) as u16);
    assert(up.update(i, (up[i] - 1) as u16) =~= refs);
}

} // verus!
