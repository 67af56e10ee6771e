use vstd::prelude::*;
use crate::error::{Error, Result};
use crate::kalloc::{Kmem, page_ref_dec, page_ref_init, valid_pa, spec_pa2idx};
use crate::memlayout::KERNBASE;
use crate::mmap::{PROT_EXEC, PROT_READ, PROT_WRITE};
use crate::param::{NSEM, NSHM, PGSIZE};
use crate::riscv::{pgroundup, spec_pgroundup, PTE_R, PTE_U, PTE_W, PTE_X};
use crate::semaphore::Semaphore;
use crate::kalloc::page_ref_inc;
use crate::mmap::{MAP_ANON, MAP_SHARED};
use crate::vma::{ProcVm, Vma, PG, spec_pg_up, munmap_post, offsets_fit};

verus! {

pub const SHM_MAX_PAGES: usize = 64;

/// A shared-memory segment: its requested size and its physical pages.
#[derive(Debug)]
pub struct ShmSegment {
    pub size: usize,
    pub pages: Vec<usize>,
}

impl ShmSegment {
    pub fn size(&self) -> (s: usize)
        ensures
            s == self.size,
    {
        self.size
    }

    /// The size rounded up to whole pages.
    pub fn len_pg(&self) -> (n: usize)
        requires
            self.size + PGSIZE - 1 <= usize::MAX,
        ensures
            n == spec_pgroundup(self.size as int),
    {
        pgroundup(self.size)
    }

    pub fn page_pa(&self, idx: usize) -> (r: Result<usize>)
        ensures
            idx < self.pages@.len() ==> r == Ok::<usize, Error>(self.pages@[idx as int]),
            idx >= self.pages@.len() ==> r == Err::<usize, Error>(Error::InvalidArgument),
    {
        if idx < self.pages.len() {
            Ok(self.pages[idx])
        } else {
            Err(Error::InvalidArgument)
        }
    }

    /// Drops the segment's own reference on each page; returns the pages
    /// that no one references any more, in order, for the caller to free.
    pub fn release(&self, kmem: &mut Kmem) -> (freed: Vec<usize>)
        requires
            old(kmem).wf(),
            forall|i: int| 0 <= i < self.pages@.len() ==> valid_pa(#[trigger] self.pages@[i]),
            forall|i: int, j: int| 0 <= i < j < self.pages@.len() ==> self.pages@[i] != self.pages@[j],
            forall|i: int| 0 <= i < self.pages@.len() ==> old(kmem).count(#[trigger] self.pages@[i]) > 0,
        ensures
            final(kmem).wf(),
            forall|i: int|
                0 <= i < self.pages@.len() ==> final(kmem).count(#[trigger] self.pages@[i]) == old(kmem).count(self.pages@[i]) - 1,
            forall|p: usize| valid_pa(p) && !self.pages@.contains(p) ==> #[trigger] final(kmem).count(p) == old(kmem).count(p),
            freed@ == last_refs(self.pages@, *old(kmem)),
    {
        let mut freed: Vec<usize> = Vec::new();
        let mut i: usize = 0;
        while i < self.pages.len()
            invariant
                0 <= i <= self.pages@.len(),
                kmem.wf(),
                forall|k: int| 0 <= k < self.pages@.len() ==> valid_pa(#[trigger] self.pages@[k]),
                forall|a: int, b: int| 0 <= a < b < self.pages@.len() ==> self.pages@[a] != self.pages@[b],
                forall|k: int| 0 <= k < self.pages@.len() ==> old(kmem).count(#[trigger] self.pages@[k]) > 0,
                forall|k: int| i <= k < self.pages@.len() ==> kmem.count(#[trigger] self.pages@[k]) == old(kmem).count(self.pages@[k]),
                forall|k: int| 0 <= k < i ==> kmem.count(#[trigger] self.pages@[k]) == old(kmem).count(self.pages@[k]) - 1,
                freed@ == last_refs(self.pages@.subrange(0, i as int), *old(kmem)),
                forall|p: usize| valid_pa(p) && !self.pages@.contains(p) ==> #[trigger] kmem.count(p) == old(kmem).count(p),
            decreases self.pages@.len() - i,
        {
            let pa = self.pages[i];
            let ghost before = *kmem;
            let left = page_ref_dec(kmem, pa);
            proof {
                assert forall|k: int| 0 <= k < self.pages@.len() && k != i implies kmem.count(#[trigger] self.pages@[k])
                    == before.count(self.pages@[k]) by {
                    lemma_pa2idx_injective(self.pages@[k], pa);
                }
                assert forall|p: usize| valid_pa(p) && !self.pages@.contains(p) implies #[trigger] kmem.count(p) == old(kmem).count(p) by {
                    assert(before.count(p) == old(kmem).count(p));
                    assert(self.pages@[i as int] == pa);
                    assert(self.pages@.contains(pa));
                    lemma_pa2idx_injective(p, pa);
                }
                assert(self.pages@.subrange(0, i as int + 1).drop_last() =~= self.pages@.subrange(0, i as int));
            }
            if left == 0 {
                freed.push(pa);
            }
            i = i + 1;
        }
        assert(self.pages@.subrange(0, self.pages@.len() as int) =~= self.pages@);
        freed
    }
}

/// Distinct page addresses have distinct reference-count slots.
pub proof fn lemma_pa2idx_injective(a: usize, b: usize)
    requires
        valid_pa(a),
        valid_pa(b),
        a != b,
    ensures
        spec_pa2idx(a) != spec_pa2idx(b),
{
    assert((a - KERNBASE) % (PGSIZE as int) == 0);
    assert((b - KERNBASE) % (PGSIZE as int) == 0);
}

/// The pages of `s`, in order, whose reference count in `k` is one: those
/// that dropping one reference each frees.
pub open spec fn last_refs(s: Seq<usize>, k: Kmem) -> Seq<usize>
    decreases s.len(),
{
    if s.len() == 0 {
        s
    } else {
        let rest = last_refs(s.drop_last(), k);
        if k.count(s.last()) == 1 {
            rest.push(s.last())
        } else {
            rest
        }
    }
}

/// Page-table permission bits for an `mmap`-style protection word; the
/// word must name at least one known right and nothing else.
pub open spec fn spec_prot_to_perm(prot: usize) -> Option<usize> {
    if prot & !(PROT_READ | PROT_WRITE | PROT_EXEC) != 0 || prot & (PROT_READ | PROT_WRITE
        | PROT_EXEC) == 0 {
        None
    } else {
        Some(
            PTE_U | (if prot & PROT_READ != 0 { PTE_R } else { 0 }) | (if prot & PROT_WRITE != 0 {
                PTE_W
            } else {
                0
            }) | (if prot & PROT_EXEC != 0 { PTE_X } else { 0 }),
        )
    }
}

pub fn prot_to_perm(prot: usize) -> (r: Result<usize>)
    ensures
        match spec_prot_to_perm(prot) {
            Some(p) => r == Ok::<usize, Error>(p),
            None => r == Err::<usize, Error>(Error::InvalidArgument),
        },
{
    let valid = PROT_READ | PROT_WRITE | PROT_EXEC;
    if (prot & !valid) != 0 {
        return Err(Error::InvalidArgument);
    }
    if (prot & valid) == 0 {
        return Err(Error::InvalidArgument);
    }
    let r = if (prot & PROT_READ) != 0 { PTE_R } else { 0 };
    let w = if (prot & PROT_WRITE) != 0 { PTE_W } else { 0 };
    let x = if (prot & PROT_EXEC) != 0 { PTE_X } else { 0 };
    Ok(PTE_U | r | w | x)
}

/// The system-wide tables of shared-memory segments and semaphores.
/// Ids handed to user space are slot index plus one.
pub struct IpcTables {
    pub shm: Vec<Option<ShmSegment>>,
    pub sem: Vec<Option<Semaphore>>,
}

/// Index of the first free slot of `s`, if any.
pub open spec fn first_free<T>(s: Seq<Option<T>>) -> Option<int> {
    if exists|i: int| 0 <= i < s.len() && s[i] is None {
        Some(choose|i: int| 0 <= i < s.len() && s[i] is None && forall|j: int| 0 <= j < i ==> s[j] is Some)
    } else {
        None
    }
}

pub proof fn lemma_first_free<T>(s: Seq<Option<T>>, i: int)
    requires
        0 <= i < s.len(),
        s[i] is None,
        forall|j: int| 0 <= j < i ==> s[j] is Some,
    ensures
        first_free(s) == Some(i),
{
    let k = choose|k: int| 0 <= k < s.len() && s[k] is None && forall|j: int| 0 <= j < k ==> s[j] is Some;
    assert(k == i) by {
        if k < i {
            assert(s[k] is Some);
        }
        if i < k {
            assert(s[i] is Some);
        }
    }
}

impl IpcTables {
    pub open spec fn wf(&self) -> bool {
        &&& self.shm@.len() == NSHM
        &&& self.sem@.len() == NSEM
        &&& forall|i: int| 0 <= i < NSEM && self.sem@[i] is Some ==> (#[trigger] self.sem@[i]).unwrap().wf()
    }

    pub fn new() -> (t: Self)
        ensures
            t.wf(),
            forall|i: int| 0 <= i < NSHM ==> (#[trigger] t.shm@[i]) is None,
            forall|i: int| 0 <= i < NSEM ==> (#[trigger] t.sem@[i]) is None,
    {
        let mut shm: Vec<Option<ShmSegment>> = Vec::new();
        let mut sem: Vec<Option<Semaphore>> = Vec::new();
        let mut i: usize = 0;
        while i < NSHM
            invariant
                0 <= i <= NSHM,
                shm@.len() == i,
                forall|k: int| 0 <= k < i ==> (#[trigger] shm@[k]) is None,
            decreases NSHM - i,
        {
            shm.push(None);
            i = i + 1;
        }
        let mut j: usize = 0;
        while j < NSEM
            invariant
                0 <= j <= NSEM,
                sem@.len() == j,
                forall|k: int| 0 <= k < j ==> (#[trigger] sem@[k]) is None,
            decreases NSEM - j,
        {
            sem.push(None);
            j = j + 1;
        }
        IpcTables { shm, sem }
    }
}

/// Pages that a segment of `size` bytes needs, if the size is allowed.
pub open spec fn spec_shm_npages(size: usize) -> Option<int> {
    if size == 0 || size + PGSIZE - 1 > usize::MAX {
        None
    } else {
        let n = spec_pgroundup(size as int) / (PGSIZE as int);
        if n == 0 || n > SHM_MAX_PAGES {
            None
        } else {
            Some(n)
        }
    }
}

pub fn shm_npages(size: usize) -> (r: Result<usize>)
    ensures
        match spec_shm_npages(size) {
            Some(n) => r == Ok::<usize, Error>(n as usize),
            None => r == Err::<usize, Error>(Error::InvalidArgument),
        },
{
    if size == 0 || size > usize::MAX - (PGSIZE - 1) {
        return Err(Error::InvalidArgument);
    }
    let len_pg = pgroundup(size);
    let npages = len_pg / PGSIZE;
    if npages == 0 || npages > SHM_MAX_PAGES {
        return Err(Error::InvalidArgument);
    }
    Ok(npages)
}

/// Installs a new segment of `size` bytes backed by `pages`, freshly
/// allocated and zeroed, each taking its first reference. Returns the id.
/// A size of no pages or of too many is refused with `InvalidArgument`
/// (the caller then has allocated no pages). When the table is full the
/// pages' references are dropped again and `NoBufferSpace` is returned.
pub fn shm_create(tables: &mut IpcTables, kmem: &mut Kmem, size: usize, pages: Vec<usize>) -> (r: Result<usize>)
    requires
        old(tables).wf(),
        old(kmem).wf(),
        spec_shm_npages(size) matches Some(n) ==> pages@.len() == n,
        spec_shm_npages(size) is None ==> pages@.len() == 0,
        forall|i: int| 0 <= i < pages@.len() ==> valid_pa(#[trigger] pages@[i]),
        forall|i: int, j: int| 0 <= i < j < pages@.len() ==> pages@[i] != pages@[j],
        forall|i: int| 0 <= i < pages@.len() ==> old(kmem).count(#[trigger] pages@[i]) == 0,
    ensures
        final(tables).wf(),
        final(kmem).wf(),
        final(tables).sem@ == old(tables).sem@,
        spec_shm_npages(size) is None ==> r == Err::<usize, Error>(Error::InvalidArgument)
            && *final(tables) == *old(tables) && *final(kmem) == *old(kmem),
        spec_shm_npages(size) is Some ==> match first_free(old(tables).shm@) {
            Some(i) => r == Ok::<usize, Error>((i + 1) as usize) && final(tables).shm@.len() == NSHM
                && (final(tables).shm@[i] matches Some(sg) && sg.size == size && sg.pages@ == pages@)
                && (forall|j: int| 0 <= j < NSHM && j != i ==> #[trigger] final(tables).shm@[j] == old(tables).shm@[j])
                && forall|k: int| 0 <= k < pages@.len() ==> final(kmem).count(#[trigger] pages@[k]) == 1,
            None => r == Err::<usize, Error>(Error::NoBufferSpace) && final(tables).shm@ == old(tables).shm@
                && forall|k: int| 0 <= k < pages@.len() ==> final(kmem).count(#[trigger] pages@[k]) == 0,
        },
{
    match shm_npages(size) {
        Ok(_) => {},
        Err(_) => {
            return Err(Error::InvalidArgument);
        },
    }
    let mut i: usize = 0;
    while i < pages.len()
        invariant
            0 <= i <= pages@.len(),
            kmem.wf(),
            forall|k: int| 0 <= k < pages@.len() ==> valid_pa(#[trigger] pages@[k]),
            forall|a: int, b: int| 0 <= a < b < pages@.len() ==> pages@[a] != pages@[b],
            forall|k: int| 0 <= k < i ==> kmem.count(#[trigger] pages@[k]) == 1,
            forall|k: int| i <= k < pages@.len() ==> kmem.count(#[trigger] pages@[k]) == 0,
        decreases pages@.len() - i,
    {
        let pa = pages[i];
        page_ref_init(kmem, pa);
        proof {
            assert forall|k: int| 0 <= k < pages@.len() && k != i implies spec_pa2idx(#[trigger] pages@[k]) != spec_pa2idx(pa) by {
                lemma_pa2idx_injective(pages@[k], pa);
            }
        }
        i = i + 1;
    }
    let ghost pages_view = pages@;
    let seg = ShmSegment { size, pages };
    let mut idx: usize = 0;
    while idx < tables.shm.len()
        invariant
            tables.wf(),
            tables.shm@ == old(tables).shm@,
            tables.sem@ == old(tables).sem@,
            kmem.wf(),
            seg.pages@ == pages@,
            seg.size == size,
            spec_shm_npages(size) is Some,
            forall|k: int| 0 <= k < pages@.len() ==> valid_pa(#[trigger] pages@[k]),
            forall|a: int, b: int| 0 <= a < b < pages@.len() ==> pages@[a] != pages@[b],
            forall|k: int| 0 <= k < pages@.len() ==> kmem.count(#[trigger] pages@[k]) == 1,
            0 <= idx <= NSHM,
            forall|j: int| 0 <= j < idx ==> (#[trigger] tables.shm@[j]) is Some,
        decreases NSHM - idx,
    {
        if tables.shm[idx].is_none() {
            proof {
                lemma_first_free(tables.shm@, idx as int);
            }
            tables.shm.set(idx, Some(seg));
            assert(first_free(old(tables).shm@) == Some(idx as int));
            return Ok(idx + 1);
        }
        idx = idx + 1;
    }
    assert(first_free(old(tables).shm@) is None);
    let _freed = seg.release(kmem);
    Err(Error::NoBufferSpace)
}

/// Removes segment `id` from the table and hands it back; its pages stay
/// mapped wherever it is attached until those mappings go away.
pub fn shm_destroy(tables: &mut IpcTables, id: usize) -> (r: Result<ShmSegment>)
    requires
        old(tables).wf(),
    ensures
        final(tables).wf(),
        shm_destroy_post(*old(tables), *final(tables), id, r),
{
    if id == 0 || id > tables.shm.len() {
        return Err(Error::InvalidArgument);
    }
    let idx = id - 1;
    let seg = tables.shm[idx].take();
    assert(tables.shm@ =~= old(tables).shm@.update(idx as int, None));
    match seg {
        Some(s) => Ok(s),
        None => {
            assert(tables.shm@ =~= old(tables).shm@);
            Err(Error::NotFound)
        },
    }
}

/// A copy of segment `id`, for attaching it.
pub fn shm_lookup(tables: &IpcTables, id: usize) -> (r: Result<ShmSegment>)
    requires
        tables.wf(),
    ensures
        id == 0 ==> r == Err::<ShmSegment, Error>(Error::InvalidArgument),
        id > NSHM || (id >= 1 && tables.shm@[id - 1] is None) ==> r == Err::<ShmSegment, Error>(
            Error::NotFound,
        ),
        1 <= id <= NSHM && tables.shm@[id - 1] is Some ==> (r matches Ok(s) && s.size == tables.shm@[id
            - 1].unwrap().size && s.pages@ == tables.shm@[id - 1].unwrap().pages@),
{
    if id == 0 {
        return Err(Error::InvalidArgument);
    }
    let idx = id - 1;
    if idx >= tables.shm.len() {
        return Err(Error::NotFound);
    }
    match &tables.shm[idx] {
        Some(seg) => Ok(ShmSegment { size: seg.size, pages: seg.pages.clone() }),
        None => Err(Error::NotFound),
    }
}

/// Creates a semaphore holding `value` units (bounded by `isize::MAX`);
/// returns its id.
pub fn sem_create(tables: &mut IpcTables, value: usize) -> (r: Result<usize>)
    requires
        old(tables).wf(),
    ensures
        final(tables).wf(),
        sem_create_post(*old(tables), *final(tables), value, r),
{
    if value > isize::MAX as usize {
        return Err(Error::InvalidArgument);
    }
    let count = value as isize;
    assert(0 <= count <= isize::MAX);
    let sem = Semaphore::new_with_count(count, isize::MAX, "sem")?;
    let mut idx: usize = 0;
    while idx < tables.sem.len()
        invariant
            tables.wf(),
            tables.shm@ == old(tables).shm@,
            tables.sem@ == old(tables).sem@,
            sem.wf() && sem.count == count && sem.max == isize::MAX && !sem.closed,
            value <= isize::MAX,
            count == value as isize,
            0 <= idx <= NSEM,
            forall|j: int| 0 <= j < idx ==> (#[trigger] tables.sem@[j]) is Some,
        decreases NSEM - idx,
    {
        if tables.sem[idx].is_none() {
            proof {
                lemma_first_free(tables.sem@, idx as int);
            }
            tables.sem.set(idx, Some(sem));
            return Ok(idx + 1);
        }
        idx = idx + 1;
    }
    assert(first_free(old(tables).sem@) is None);
    Err(Error::NoBufferSpace)
}

/// The slot of semaphore `id`: `InvalidArgument` for id 0, `NotFound` when
/// no semaphore has that id.
pub open spec fn spec_sem_slot(tables: IpcTables, id: usize) -> Result<int> {
    if id == 0 {
        Err(Error::InvalidArgument)
    } else if id > NSEM || tables.sem@[id - 1] is None {
        Err(Error::NotFound)
    } else {
        Ok(id - 1)
    }
}

fn sem_get(tables: &IpcTables, id: usize) -> (r: Result<usize>)
    requires
        tables.wf(),
    ensures
        match spec_sem_slot(*tables, id) {
            Ok(i) => r == Ok::<usize, Error>(i as usize),
            Err(e) => r == Err::<usize, Error>(e),
        },
{
    if id == 0 {
        return Err(Error::InvalidArgument);
    }
    let idx = id - 1;
    if idx >= tables.sem.len() || tables.sem[idx].is_none() {
        return Err(Error::NotFound);
    }
    Ok(idx)
}

/// One attempt at waiting on semaphore `id`: `Ok(true)` when a unit was
/// taken, `Ok(false)` when the caller must sleep and retry.
pub fn sem_wait(tables: &mut IpcTables, id: usize, killed: bool) -> (r: Result<bool>)
    requires
        old(tables).wf(),
    ensures
        final(tables).wf(),
        sem_wait_post(*old(tables), *final(tables), id, killed, r),
{
    let idx = sem_get(tables, id)?;
    let mut sem = tables.sem[idx].take().unwrap();
    let r = sem.wait(killed);
    tables.sem.set(idx, Some(sem));
    r
}

pub fn sem_try_wait(tables: &mut IpcTables, id: usize) -> (r: Result<usize>)
    requires
        old(tables).wf(),
    ensures
        final(tables).wf(),
        sem_try_wait_post(*old(tables), *final(tables), id, r),
{
    let idx = sem_get(tables, id)?;
    let mut sem = tables.sem[idx].take().unwrap();
    let r = sem.try_wait();
    tables.sem.set(idx, Some(sem));
    match r {
        Ok(true) => Ok(1),
        Ok(false) => Ok(0),
        Err(e) => Err(e),
    }
}

pub fn sem_post(tables: &mut IpcTables, id: usize) -> (r: Result<()>)
    requires
        old(tables).wf(),
    ensures
        final(tables).wf(),
        sem_post_post(*old(tables), *final(tables), id, r),
{
    let idx = sem_get(tables, id)?;
    let mut sem = tables.sem[idx].take().unwrap();
    let r = sem.post();
    tables.sem.set(idx, Some(sem));
    r
}

/// Closes semaphore `id` and frees its slot.
pub fn sem_close(tables: &mut IpcTables, id: usize) -> (r: Result<()>)
    requires
        old(tables).wf(),
    ensures
        final(tables).wf(),
        sem_close_post(*old(tables), *final(tables), id, r),
{
    if id == 0 || id > tables.sem.len() {
        return Err(Error::InvalidArgument);
    }
    let idx = id - 1;
    let taken = tables.sem[idx].take();
    assert(tables.sem@ =~= old(tables).sem@.update(idx as int, None));
    match taken {
        Some(mut sem) => {
            sem.close();
            Ok(())
        },
        None => {
            assert(tables.sem@ =~= old(tables).sem@);
            Err(Error::NotFound)
        },
    }
}

/// What `shm_destroy` leaves and returns.
pub open spec fn shm_destroy_post(o: IpcTables, n: IpcTables, id: usize, r: Result<ShmSegment>) -> bool {
    &&& (n.sem@ == o.sem@)
    &&& ((id == 0 || id > NSHM) ==> r == Err::<ShmSegment, Error>(Error::InvalidArgument)
            && n.shm@ == o.shm@)
    &&& (1 <= id <= NSHM && o.shm@[id - 1] is None ==> r == Err::<ShmSegment, Error>(
            Error::NotFound,
        ) && n.shm@ == o.shm@)
    &&& (1 <= id <= NSHM && o.shm@[id - 1] is Some ==> r == Ok::<ShmSegment, Error>(
            o.shm@[id - 1].unwrap(),
        ) && n.shm@ == o.shm@.update(id - 1, None))
}

/// What `sem_create` leaves and returns.
pub open spec fn sem_create_post(o: IpcTables, n: IpcTables, value: usize, r: Result<usize>) -> bool {
    &&& (n.shm@ == o.shm@)
    &&& (value > isize::MAX ==> r == Err::<usize, Error>(Error::InvalidArgument) && n.sem@
            == o.sem@)
    &&& (value <= isize::MAX ==> match first_free(o.sem@) {
            Some(i) => r == Ok::<usize, Error>((i + 1) as usize) && n.sem@ == o.sem@.update(
                i,
                Some(Semaphore { count: value as isize, closed: false, max: isize::MAX }),
            ),
            None => r == Err::<usize, Error>(Error::NoBufferSpace) && n.sem@ == o.sem@,
        })
}

/// What `sem_wait` leaves and returns.
pub open spec fn sem_wait_post(o: IpcTables, n: IpcTables, id: usize, killed: bool, r: Result<bool>) -> bool {
    &&& (n.shm@ == o.shm@)
    &&& (match spec_sem_slot(o, id) {
            Err(e) => r == Err::<bool, Error>(e) && n.sem@ == o.sem@,
            Ok(i) => {
                let s = o.sem@[i].unwrap();
                let t = n.sem@[i].unwrap();
                &&& n.sem@[i] is Some
                &&& forall|j: int| 0 <= j < NSEM && j != i ==> #[trigger] n.sem@[j] == o.sem@[j]
                &&& t.max == s.max && t.closed == s.closed
                &&& (killed ==> r == Err::<bool, Error>(Error::Interrupted) && t.count == s.count)
                &&& (!killed && s.closed ==> r == Err::<bool, Error>(Error::InvalidArgument) && t.count == s.count)
                &&& (!killed && !s.closed && s.count == 0 ==> r == Ok::<bool, Error>(false) && t.count == 0)
                &&& (!killed && !s.closed && s.count > 0 ==> r == Ok::<bool, Error>(true) && t.count == s.count - 1)
            },
        })
}

/// What `sem_try_wait` leaves and returns.
pub open spec fn sem_try_wait_post(o: IpcTables, n: IpcTables, id: usize, r: Result<usize>) -> bool {
    &&& (n.shm@ == o.shm@)
    &&& (match spec_sem_slot(o, id) {
            Err(e) => r == Err::<usize, Error>(e) && n.sem@ == o.sem@,
            Ok(i) => {
                let s = o.sem@[i].unwrap();
                let t = n.sem@[i].unwrap();
                &&& n.sem@[i] is Some
                &&& forall|j: int| 0 <= j < NSEM && j != i ==> #[trigger] n.sem@[j] == o.sem@[j]
                &&& t.max == s.max && t.closed == s.closed
                &&& (s.closed ==> r == Err::<usize, Error>(Error::InvalidArgument) && t.count == s.count)
                &&& (!s.closed && s.count == 0 ==> r == Ok::<usize, Error>(0) && t.count == 0)
                &&& (!s.closed && s.count > 0 ==> r == Ok::<usize, Error>(1) && t.count == s.count - 1)
            },
        })
}

/// What `sem_post` leaves and returns.
pub open spec fn sem_post_post(o: IpcTables, n: IpcTables, id: usize, r: Result<()>) -> bool {
    &&& (n.shm@ == o.shm@)
    &&& (match spec_sem_slot(o, id) {
            Err(e) => r == Err::<(), Error>(e) && n.sem@ == o.sem@,
            Ok(i) => {
                let s = o.sem@[i].unwrap();
                let t = n.sem@[i].unwrap();
                &&& n.sem@[i] is Some
                &&& forall|j: int| 0 <= j < NSEM && j != i ==> #[trigger] n.sem@[j] == o.sem@[j]
                &&& t.max == s.max && t.closed == s.closed
                &&& ((s.closed || s.count == s.max) ==> r == Err::<(), Error>(Error::InvalidArgument) && t.count == s.count)
                &&& (!(s.closed || s.count == s.max) ==> r is Ok && t.count == s.count + 1)
            },
        })
}

/// What `sem_close` leaves and returns.
pub open spec fn sem_close_post(o: IpcTables, n: IpcTables, id: usize, r: Result<()>) -> bool {
    &&& (n.shm@ == o.shm@)
    &&& ((id == 0 || id > NSEM) ==> r == Err::<(), Error>(Error::InvalidArgument) && n.sem@
            == o.sem@)
    &&& (1 <= id <= NSEM && o.sem@[id - 1] is None ==> r == Err::<(), Error>(Error::NotFound)
            && n.sem@ == o.sem@)
    &&& (1 <= id <= NSEM && o.sem@[id - 1] is Some ==> r is Ok && n.sem@ == o.sem@.update(id - 1, None))
}

/// The reference counts after one more reference on each page of
/// `pages`, in turn.
pub open spec fn spec_ref_inc_all(refs: Seq<u16>, pages: Seq<usize>) -> Seq<u16>
    decreases pages.len(),
{
    if pages.len() == 0 {
        refs
    } else {
        let r = spec_ref_inc_all(refs, pages.drop_last());
        let i = spec_pa2idx(pages.last());
        r.update(i, (r[i] + 1) as u16)
    }
}

proof fn lemma_ref_inc_all_bound(refs: Seq<u16>, pages: Seq<usize>, i: int)
    requires
        0 <= i < refs.len(),
        forall|j: int| 0 <= j < pages.len() ==> 0 <= #[trigger] spec_pa2idx(pages[j]) < refs.len(),
        forall|j: int| 0 <= j < pages.len() ==> refs[spec_pa2idx(#[trigger] pages[j])] + pages.len() <= u16::MAX,
    ensures
        spec_ref_inc_all(refs, pages).len() == refs.len(),
        spec_ref_inc_all(refs, pages)[i] <= refs[i] + pages.len(),
    decreases pages.len(),
{
    if pages.len() > 0 {
        let p = pages.drop_last();
        assert forall|j: int| 0 <= j < p.len() implies 0 <= #[trigger] spec_pa2idx(p[j]) < refs.len() by {
            assert(p[j] == pages[j]);
        }
        assert forall|j: int| 0 <= j < p.len() implies refs[spec_pa2idx(#[trigger] p[j])] + p.len() <= u16::MAX by {
            assert(p[j] == pages[j]);
        }
        lemma_ref_inc_all_bound(refs, p, i);
        let last = pages.last();
        assert(pages[pages.len() - 1] == last);
        lemma_ref_inc_all_bound(refs, p, spec_pa2idx(last));
    }
}

/// What attaching shared segment `id` with protection `prot` does to the
/// caller's mappings and the page counts; `map_fail` is the page whose
/// mapping failed for want of memory, if one did.
pub open spec fn shm_attach_post(
    tables: IpcTables,
    o: ProcVm,
    n: ProcVm,
    ko: Kmem,
    kn: Kmem,
    sz: u64,
    id: usize,
    prot: usize,
    map_fail: Option<usize>,
    r: Result<u64>,
) -> bool {
    if spec_prot_to_perm(prot) is None {
        r == Err::<u64, Error>(Error::InvalidArgument) && n == o && kn == ko
    } else if id == 0 {
        r == Err::<u64, Error>(Error::InvalidArgument) && n == o && kn == ko
    } else if id > NSHM || tables.shm@[id - 1] is None {
        r == Err::<u64, Error>(Error::NotFound) && n == o && kn == ko
    } else {
        let seg = tables.shm@[id - 1].unwrap();
        let len_pg = spec_pg_up(seg.size as int);
        if len_pg == 0 {
            r == Err::<u64, Error>(Error::InvalidArgument) && n == o && kn == ko
        } else if o.mmap_base < len_pg || o.mmap_base - len_pg < spec_pg_up(sz as int) {
            r == Err::<u64, Error>(Error::NoBufferSpace) && n == o && kn == ko
        } else if map_fail matches Some(i) && i < seg.pages@.len() {
            r == Err::<u64, Error>(Error::OutOfMemory) && n == o && kn == ko
        } else {
            let start = (o.mmap_base - len_pg) as u64;
            &&& r == Ok::<u64, Error>(start)
            &&& n.mmap_base == start
            &&& n.vmas@ == o.vmas@.push(
                Vma {
                    start,
                    len: seg.size as u64,
                    prot,
                    flags: MAP_SHARED | MAP_ANON,
                    file: None,
                    file_off: 0,
                    shm: Some(id),
                },
            )
            &&& kn.refs@ == spec_ref_inc_all(ko.refs@, seg.pages@)
        }
    }
}

/// Attaches shared segment `id` to the caller's address space with
/// protection `prot`: below the mapping area, above a heap of size `sz`.
/// Each of its pages gains a reference. Returns the start address.
pub fn shm_attach(
    tables: &IpcTables,
    vm: &mut ProcVm,
    kmem: &mut Kmem,
    sz: u64,
    id: usize,
    prot: usize,
    map_fail: Option<usize>,
) -> (r: Result<u64>)
    requires
        tables.wf(),
        old(vm).wf(),
        old(kmem).wf(),
        sz + PG - 1 <= u64::MAX,
        forall|i: int|
            0 <= i < NSHM && tables.shm@[i] is Some ==> {
                let seg = (#[trigger] tables.shm@[i]).unwrap();
                &&& seg.size + PG - 1 <= u64::MAX
                &&& forall|j: int| 0 <= j < seg.pages@.len() ==> valid_pa(#[trigger] seg.pages@[j])
                &&& forall|j: int|
                    0 <= j < seg.pages@.len() ==> old(kmem).count(#[trigger] seg.pages@[j]) + seg.pages@.len()
                        <= u16::MAX
            },
    ensures
        final(vm).wf(),
        final(kmem).wf(),
        shm_attach_post(*tables, *old(vm), *final(vm), *old(kmem), *final(kmem), sz, id, prot, map_fail, r),
{
    match prot_to_perm(prot) {
        Err(e) => {
            return Err(e);
        },
        Ok(_) => {},
    }
    let seg = match shm_lookup(tables, id) {
        Ok(s) => s,
        Err(e) => {
            return Err(e);
        },
    };
    proof {
        assert(tables.shm@[id - 1] is Some);
    }
    let len = seg.size() as u64;
    let prev_base = vm.mmap_base;
    let start = match vm.alloc_mmap_va(sz, len) {
        Ok(s) => s,
        Err(e) => {
            return Err(e);
        },
    };
    let npages = seg.pages.len();
    match map_fail {
        Some(i) => {
            if i < npages {
                vm.mmap_base = prev_base;
                return Err(Error::OutOfMemory);
            }
        },
        None => {},
    }
    let ghost k0 = kmem.refs@;
    let ghost pg = seg.pages@;
    let mut j: usize = 0;
    while j < npages
        invariant
            j <= npages == pg.len(),
            seg.pages@ == pg,
            kmem.wf(),
            k0.len() == crate::kalloc::NPAGE,
            forall|x: int| 0 <= x < pg.len() ==> valid_pa(#[trigger] pg[x]),
            forall|x: int| 0 <= x < pg.len() ==> k0[spec_pa2idx(#[trigger] pg[x])] + pg.len() <= u16::MAX,
            kmem.refs@ == spec_ref_inc_all(k0, pg.take(j as int)),
        decreases npages - j,
    {
        let pa = seg.pages[j];
        proof {
            let t = pg.take(j as int);
            assert forall|x: int| 0 <= x < t.len() implies 0 <= #[trigger] spec_pa2idx(t[x]) < k0.len() by {
                assert(t[x] == pg[x]);
                assert(valid_pa(pg[x]));
            }
            assert forall|x: int| 0 <= x < t.len() implies k0[spec_pa2idx(#[trigger] t[x])] + t.len() <= u16::MAX by {
                assert(t[x] == pg[x]);
            }
            assert(valid_pa(pg[j as int]));
            lemma_ref_inc_all_bound(k0, t, spec_pa2idx(pa));
            assert(k0[spec_pa2idx(pg[j as int])] + pg.len() <= u16::MAX);
        }
        page_ref_inc(kmem, pa);
        proof {
            assert(pg.take(j + 1).drop_last() =~= pg.take(j as int));
            assert(pg.take(j + 1).last() == pa);
        }
        j = j + 1;
    }
    proof {
        assert(pg.take(npages as int) =~= pg);
    }
    let v = Vma {
        start,
        len,
        prot,
        flags: MAP_SHARED | MAP_ANON,
        file: None,
        file_off: 0,
        shm: Some(id),
    };
    proof {
        assert(v.wf()) by {
            assert(start % PG == 0);
            assert(start + spec_pg_up(len as int) == old(vm).mmap_base);
        }
    }
    vm.vmas.push(v);
    proof {
        assert forall|i: int| 0 <= i < vm.vmas@.len() implies (#[trigger] vm.vmas@[i]).wf() by {
            if i < old(vm).vmas@.len() {
                assert(old(vm).vmas@[i].wf());
            }
        }
    }
    Ok(start)
}

/// The first shared-segment mapping at or after `k` that starts at
/// `addr`.
pub open spec fn first_shm_at_from(vs: Seq<Vma>, addr: u64, k: int) -> Option<int>
    decreases vs.len() - k,
{
    if k < 0 || k >= vs.len() {
        None
    } else if vs[k].shm is Some && vs[k].start == addr {
        Some(k)
    } else {
        first_shm_at_from(vs, addr, k + 1)
    }
}

proof fn lemma_first_shm_at_from(vs: Seq<Vma>, addr: u64, k: int)
    requires
        0 <= k,
    ensures
        first_shm_at_from(vs, addr, k) matches Some(i) ==> k <= i < vs.len() && vs[i].shm is Some && vs[i].start == addr,
    decreases vs.len() - k,
{
    if k < vs.len() && !(vs[k].shm is Some && vs[k].start == addr) {
        lemma_first_shm_at_from(vs, addr, k + 1);
    }
}

/// What detaching the shared segment mapped at `addr` does: the mapping
/// found there is unmapped whole.
pub open spec fn shm_detach_post(o: ProcVm, n: ProcVm, addr: u64, r: Result<Vec<(u64, u64)>>) -> bool {
    if addr % PG != 0 {
        r == Err::<Vec<(u64, u64)>, Error>(Error::InvalidArgument) && n == o
    } else {
        match first_shm_at_from(o.vmas@, addr, 0) {
            None => r == Err::<Vec<(u64, u64)>, Error>(Error::BadVirtAddr) && n == o,
            Some(i) => munmap_post(o, n, addr, o.vmas@[i].len, r),
        }
    }
}

/// Detaches the shared segment mapped at `addr`; returns the page ranges
/// to unmap.
pub fn shm_detach(vm: &mut ProcVm, addr: u64) -> (r: Result<Vec<(u64, u64)>>)
    requires
        old(vm).wf(),
        offsets_fit(old(vm).vmas@),
        2 * old(vm).vmas@.len() + 2 < usize::MAX,
    ensures
        final(vm).wf(),
        shm_detach_post(*old(vm), *final(vm), addr, r),
{
    if addr % PG != 0 {
        return Err(Error::InvalidArgument);
    }
    let mut i: usize = 0;
    while i < vm.vmas.len()
        invariant
            i <= vm.vmas@.len(),
            *vm == *old(vm),
            old(vm).wf(),
            offsets_fit(old(vm).vmas@),
            2 * old(vm).vmas@.len() + 2 < usize::MAX,
            addr % PG == 0,
            first_shm_at_from(vm.vmas@, addr, 0) == first_shm_at_from(vm.vmas@, addr, i as int),
        decreases vm.vmas@.len() - i,
    {
        if vm.vmas[i].is_shm() && vm.vmas[i].start == addr {
            proof {
                assert(vm.vmas@[i as int].wf());
            }
            let len = vm.vmas[i].len;
            return vm.munmap(addr, len);
        }
        i = i + 1;
    }
    Err(Error::BadVirtAddr)
}

} // verus!
