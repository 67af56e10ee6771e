use vstd::prelude::*;
use crate::error::{Error, Result};
use crate::mmap::{MAP_ANON, MAP_PRIVATE, MAP_SHARED, PROT_EXEC, PROT_READ, PROT_WRITE};
use crate::riscv::{PTE_R, PTE_U, PTE_W, PTE_X};

verus! {

/// Bytes per page, as a user address quantity.
pub const PG: u64 = 4096;

/// `x` rounded up to a page boundary.
pub open spec fn spec_pg_up(x: int) -> int {
    ((x + PG - 1) / (PG as int)) * PG
}

/// `x` rounded down to a page boundary.
pub open spec fn spec_pg_down(x: int) -> int {
    (x / (PG as int)) * PG
}

pub fn pg_up(x: u64) -> (r: u64)
    requires
        x + PG - 1 <= u64::MAX,
    ensures
        r == spec_pg_up(x as int),
        x <= r < x + PG,
        r % PG == 0,
{
    (x + (PG - 1)) / PG * PG
}

pub fn pg_down(x: u64) -> (r: u64)
    ensures
        r == spec_pg_down(x as int),
        r <= x < r + PG,
        r % PG == 0,
{
    x / PG * PG
}

/// A mapped region of a process: `len` requested bytes from the page
/// aligned `start`, backed by open file `file` at `file_off`, or by shared
/// segment `shm`, or anonymous.
#[derive(Clone, Copy, Debug)]
pub struct Vma {
    pub start: u64,
    pub len: u64,
    pub prot: usize,
    pub flags: usize,
    pub file: Option<usize>,
    pub file_off: u64,
    pub shm: Option<usize>,
}

impl Vma {
    pub open spec fn spec_len_pg(&self) -> int {
        spec_pg_up(self.len as int)
    }

    pub open spec fn spec_end_pg(&self) -> int {
        self.start + self.spec_len_pg()
    }

    /// In bounds: the region's pages end within the user address range.
    pub open spec fn wf(&self) -> bool {
        &&& self.start % PG == 0
        &&& self.len + PG - 1 <= u64::MAX
        &&& self.spec_end_pg() <= u64::MAX
    }

    /// End of the requested bytes.
    pub fn end_req(&self) -> (e: u64)
        requires
            self.wf(),
        ensures
            e == self.start + self.len,
    {
        self.start + self.len
    }

    /// Length in whole pages.
    pub fn len_pg(&self) -> (n: u64)
        requires
            self.wf(),
        ensures
            n == self.spec_len_pg(),
    {
        pg_up(self.len)
    }

    /// End of the region's last page.
    pub fn end_pg(&self) -> (e: u64)
        requires
            self.wf(),
        ensures
            e == self.spec_end_pg(),
    {
        self.start + pg_up(self.len)
    }

    /// Whether the page at `va` lies in the region.
    pub fn contains_pg(&self, va: u64) -> (b: bool)
        requires
            self.wf(),
        ensures
            b == (self.start <= va < self.spec_end_pg()),
    {
        va >= self.start && va < self.end_pg()
    }

    /// Page-table permission bits for the region's protection.
    pub fn perm(&self) -> (p: usize)
        ensures
            p == spec_perm(self.prot),
    {
        let mut perm = PTE_U;
        if (self.prot & PROT_READ) != 0 {
            perm = perm | PTE_R;
        }
        if (self.prot & PROT_WRITE) != 0 {
            perm = perm | PTE_W;
        }
        if (self.prot & PROT_EXEC) != 0 {
            perm = perm | PTE_X;
        }
        perm
    }

    pub fn is_shared(&self) -> (b: bool)
        ensures
            b == (self.flags & MAP_SHARED != 0),
    {
        (self.flags & MAP_SHARED) != 0
    }

    pub fn is_anon(&self) -> (b: bool)
        ensures
            b == (self.flags & MAP_ANON != 0),
    {
        (self.flags & MAP_ANON) != 0
    }

    pub fn is_shm(&self) -> (b: bool)
        ensures
            b == self.shm is Some,
    {
        self.shm.is_some()
    }
}

/// Permission bits for protection `prot`: user, plus read, write and
/// execute as asked.
pub open spec fn spec_perm(prot: usize) -> usize {
    let p1 = PTE_U;
    let p2 = if prot & PROT_READ != 0 { p1 | PTE_R } else { p1 };
    let p3 = if prot & PROT_WRITE != 0 { p2 | PTE_W } else { p2 };
    if prot & PROT_EXEC != 0 { p3 | PTE_X } else { p3 }
}

/// What the caller may do with the open file named for a mapping.
#[derive(Clone, Copy, Debug)]
pub struct FileCaps {
    pub id: usize,
    pub readable: bool,
    pub writable: bool,
    pub has_inode: bool,
}

/// A process's mappings and the top of its mapping area, which grows
/// down.
pub struct ProcVm {
    pub mmap_base: u64,
    pub vmas: Vec<Vma>,
}

/// Kinds of user page fault.
#[derive(Clone, Copy, Debug, PartialEq, Eq, Structural)]
pub enum FaultKind {
    Load,
    Store,
    Instruction,
    Other,
}

/// How to resolve a page fault at the page `va`.
#[derive(Clone, Copy, Debug)]
pub enum FaultAction {
    /// Map page `page` of shared segment `shm`.
    MapShm { va: u64, shm: usize, page: u64, perm: usize },
    /// Map a fresh zeroed page, filled from file `file` at `file_off` when
    /// there is one.
    MapPage { va: u64, file: Option<(usize, u64)>, perm: usize },
}

/// The first mapping, from index `k` on, that holds the page at `va`.
pub open spec fn first_vma_from(vs: Seq<Vma>, va: u64, k: int) -> Option<int>
    decreases vs.len() - k,
{
    if k < 0 || k >= vs.len() {
        None
    } else if vs[k].start <= va < vs[k].spec_end_pg() {
        Some(k)
    } else {
        first_vma_from(vs, va, k + 1)
    }
}

pub proof fn lemma_first_vma_from(vs: Seq<Vma>, va: u64, k: int)
    requires
        0 <= k,
    ensures
        first_vma_from(vs, va, k) matches Some(i) ==> k <= i < vs.len() && vs[i].start <= va < vs[i].spec_end_pg(),
    decreases vs.len() - k,
{
    if k < vs.len() && !(vs[k].start <= va < vs[k].spec_end_pg()) {
        lemma_first_vma_from(vs, va, k + 1);
    }
}

/// What a fault of kind `kind` in mapping `v` at page `va` asks for;
/// `mapped` says whether the page already has a valid user mapping.
pub open spec fn spec_fault(v: Vma, va: u64, kind: FaultKind, mapped: bool) -> Result<FaultAction> {
    if (kind == FaultKind::Load && v.prot & PROT_READ == 0) || (kind == FaultKind::Store && v.prot & PROT_WRITE
        == 0) || (kind == FaultKind::Instruction && v.prot & PROT_EXEC == 0) {
        Err(Error::PermissionDenied)
    } else if mapped {
        Err(Error::BadVirtAddr)
    } else if v.shm is Some {
        Ok(FaultAction::MapShm { va, shm: v.shm->0, page: ((va - v.start) / (PG as int)) as u64, perm: spec_perm(v.prot) })
    } else if v.flags & MAP_ANON == 0 && v.file is Some {
        Ok(FaultAction::MapPage { va, file: Some((v.file->0, (v.file_off + (va - v.start)) as u64)), perm: spec_perm(v.prot) })
    } else {
        Ok(FaultAction::MapPage { va, file: None, perm: spec_perm(v.prot) })
    }
}

impl ProcVm {
    pub open spec fn wf(&self) -> bool {
        &&& self.mmap_base % PG == 0
        &&& forall|i: int| 0 <= i < self.vmas@.len() ==> (#[trigger] self.vmas@[i]).wf()
    }

    pub fn new(top: u64) -> (vm: Self)
        requires
            top % PG == 0,
        ensures
            vm.wf(),
            vm.mmap_base == top,
            vm.vmas@.len() == 0,
    {
        ProcVm { mmap_base: top, vmas: Vec::new() }
    }

    /// Takes `len` bytes (whole pages) from the top of the mapping area,
    /// which must stay above the heap of size `sz`.
    pub fn alloc_mmap_va(&mut self, sz: u64, len: u64) -> (r: Result<u64>)
        requires
            old(self).wf(),
            len + PG - 1 <= u64::MAX,
            sz + PG - 1 <= u64::MAX,
        ensures
            final(self).wf(),
            final(self).vmas == old(self).vmas,
            ({
                let len_pg = spec_pg_up(len as int);
                if len_pg == 0 {
                    r == Err::<u64, Error>(Error::InvalidArgument) && final(self).mmap_base == old(self).mmap_base
                } else if old(self).mmap_base < len_pg || old(self).mmap_base - len_pg < spec_pg_up(sz as int) {
                    r == Err::<u64, Error>(Error::NoBufferSpace) && final(self).mmap_base == old(self).mmap_base
                } else {
                    r == Ok::<u64, Error>((old(self).mmap_base - len_pg) as u64) && final(self).mmap_base == old(
                        self,
                    ).mmap_base - len_pg
                }
            }),
    {
        let len_pg = pg_up(len);
        if len_pg == 0 {
            return Err(Error::InvalidArgument);
        }
        if self.mmap_base < len_pg {
            return Err(Error::NoBufferSpace);
        }
        let base = pg_down(self.mmap_base - len_pg);
        assert(base == self.mmap_base - len_pg) by {
            assert((self.mmap_base - len_pg) % (PG as int) == 0) by {
                vstd::arithmetic::div_mod::lemma_sub_mod_noop(self.mmap_base as int, len_pg as int, PG as int);
            }
        }
        if base < pg_up(sz) {
            return Err(Error::NoBufferSpace);
        }
        self.mmap_base = base;
        Ok(base)
    }
}


/// The mappings that unmapping the overlap `[a, b)` leaves of `v`: nothing
/// when it is covered, the rest when a head or a tail goes, and two pieces
/// when a middle part goes.
pub open spec fn spec_cut(v: Vma, a: int, b: int) -> Seq<Vma> {
    let vs = v.start as int;
    let ve = v.spec_end_pg();
    if a == vs && b == ve {
        Seq::empty()
    } else if a == vs {
        let delta = b - vs;
        seq![Vma {
            start: b as u64,
            file_off: (v.file_off + delta) as u64,
            len: (if v.len < delta { 0 } else { v.len - delta }) as u64,
            ..v
        }]
    } else if b == ve {
        let delta = ve - a;
        seq![Vma { len: (if v.len < delta { 0 } else { v.len - delta }) as u64, ..v }]
    } else {
        let left_len = a - vs;
        let right_off = b - vs;
        let right_len = ve - b;
        seq![
            Vma { len: (if v.len < left_len { v.len as int } else { left_len }) as u64, ..v },
            Vma {
                start: b as u64,
                file_off: (v.file_off + right_off) as u64,
                len: (if (if v.len < right_off { 0 } else { v.len - right_off }) < right_len {
                    if v.len < right_off { 0 } else { v.len - right_off }
                } else {
                    right_len
                }) as u64,
                ..v
            },
        ]
    }
}

/// Unmapping `[start, end)` from the mappings `vs`, front to back: the
/// mappings left, the ranges `[a, b)` to unmap, and whether a shared
/// segment was only partly covered, which stops the walk there with the
/// rest untouched.
pub open spec fn spec_munmap(vs: Seq<Vma>, start: int, end: int) -> (Seq<Vma>, Seq<(u64, u64)>, bool)
    decreases vs.len(),
{
    if vs.len() == 0 {
        (Seq::empty(), Seq::empty(), false)
    } else {
        let v = vs[0];
        let a = if start > v.start { start } else { v.start as int };
        let b = if end < v.spec_end_pg() { end } else { v.spec_end_pg() };
        if a >= b {
            let r = spec_munmap(vs.drop_first(), start, end);
            (seq![v] + r.0, r.1, r.2)
        } else if v.shm is Some && (a != v.start || b != v.spec_end_pg()) {
            (vs, Seq::empty(), true)
        } else {
            let r = spec_munmap(vs.drop_first(), start, end);
            (spec_cut(v, a, b) + r.0, seq![(a as u64, b as u64)] + r.1, r.2)
        }
    }
}

/// Whether moving file offsets by up to a mapping's length cannot
/// overflow.
pub open spec fn offsets_fit(vs: Seq<Vma>) -> bool {
    forall|i: int| 0 <= i < vs.len() ==> (#[trigger] vs[i]).file_off + vs[i].spec_len_pg() <= u64::MAX
}


/// An aligned size is its own page round-up.
pub proof fn lemma_pg_up_aligned(x: int)
    requires
        x >= 0,
        x % (PG as int) == 0,
    ensures
        spec_pg_up(x) == x,
{
    vstd::arithmetic::div_mod::lemma_fundamental_div_mod(x, PG as int);
    vstd::arithmetic::div_mod::lemma_fundamental_div_mod(x + PG - 1, PG as int);
}

/// Rounding up keeps order.
pub proof fn lemma_pg_up_mono(x: int, y: int)
    requires
        0 <= x <= y,
    ensures
        spec_pg_up(x) <= spec_pg_up(y),
{
    vstd::arithmetic::div_mod::lemma_div_is_ordered(x + PG - 1, y + PG - 1, PG as int);
    vstd::arithmetic::mul::lemma_mul_inequality((x + PG - 1) / (PG as int), (y + PG - 1) / (PG as int), PG as int);
}

impl ProcVm {
    /// Replaces mapping `i` by what unmapping its part `[a, b)` leaves;
    /// returns how many mappings took its place.
    fn cut_vma(&mut self, i: usize, a: u64, b: u64) -> (n: usize)
        requires
            old(self).wf(),
            i < old(self).vmas@.len(),
            old(self).vmas@[i as int].start <= a < b <= old(self).vmas@[i as int].spec_end_pg(),
            a % PG == 0,
            b % PG == 0,
            old(self).vmas@[i as int].file_off + old(self).vmas@[i as int].spec_len_pg() <= u64::MAX,
            old(self).vmas@.len() + 1 < usize::MAX,
        ensures
            final(self).wf(),
            final(self).mmap_base == old(self).mmap_base,
            n <= 2,
            n == spec_cut(old(self).vmas@[i as int], a as int, b as int).len(),
            final(self).vmas@ == old(self).vmas@.take(i as int) + spec_cut(old(self).vmas@[i as int], a as int, b as int)
                + old(self).vmas@.skip(i + 1),
    {
        let v = self.vmas[i];
        let v_start = v.start;
        let v_end = v.end_pg();
        let ghost pre = self.vmas@;
        proof {
            lemma_pg_up_aligned(v.spec_len_pg());
            vstd::arithmetic::div_mod::lemma_fundamental_div_mod(v.len + PG - 1, PG as int);
            assert(v.spec_len_pg() % (PG as int) == 0) by {
                vstd::arithmetic::div_mod::lemma_mod_multiples_basic((v.len + PG - 1) / (PG as int), PG as int);
            }
            assert(v_end % PG == 0) by {
                vstd::arithmetic::div_mod::lemma_add_mod_noop(v.start as int, v.spec_len_pg(), PG as int);
            }
        }
        if a == v_start && b == v_end {
            self.vmas.remove(i);
            assert(self.vmas@ =~= pre.take(i as int) + Seq::<Vma>::empty() + pre.skip(i + 1));
            return 0;
        } else if a == v_start {
            let delta = b - v_start;
            let mut w = v;
            w.start = b;
            w.file_off = v.file_off + delta;
            w.len = if v.len < delta { 0 } else { v.len - delta };
            proof {
                assert((v_end - b) % (PG as int) == 0) by {
                    vstd::arithmetic::div_mod::lemma_sub_mod_noop(v_end as int, b as int, PG as int);
                }
                lemma_pg_up_aligned(v_end - b);
                lemma_pg_up_mono(w.len as int, v_end - b);
            }
            self.vmas.set(i, w);
            assert(self.vmas@ =~= pre.take(i as int) + seq![w] + pre.skip(i + 1));
            return 1;
        } else if b == v_end {
            let delta = v_end - a;
            let mut w = v;
            w.len = if v.len < delta { 0 } else { v.len - delta };
            proof {
                lemma_pg_up_mono(w.len as int, v.len as int);
            }
            self.vmas.set(i, w);
            assert(self.vmas@ =~= pre.take(i as int) + seq![w] + pre.skip(i + 1));
            return 1;
        } else {
            let left_len = a - v_start;
            let right_off = b - v_start;
            let right_len = v_end - b;
            let mut right = v;
            right.start = b;
            right.file_off = v.file_off + right_off;
            let rl = if v.len < right_off { 0 } else { v.len - right_off };
            right.len = if rl < right_len { rl } else { right_len };
            let mut left = v;
            left.len = if v.len < left_len { v.len } else { left_len };
            proof {
                assert(right_len % PG == 0) by {
                    vstd::arithmetic::div_mod::lemma_sub_mod_noop(v_end as int, b as int, PG as int);
                }
                lemma_pg_up_aligned(right_len as int);
                lemma_pg_up_mono(right.len as int, right_len as int);
                lemma_pg_up_mono(left.len as int, v.len as int);
            }
            self.vmas.set(i, left);
            self.vmas.insert(i + 1, right);
            assert(self.vmas@ =~= pre.take(i as int) + seq![left, right] + pre.skip(i + 1));
            return 2;
        }
    }
}

impl ProcVm {
    /// Maps `len` bytes at an address of the kernel's choosing (`addr` must
    /// be 0), shared or private, anonymous or from the open file that
    /// looking up the descriptor gave (`file`), at the page-aligned
    /// `offset`. The process's heap has size `sz`. Returns the address.
    pub fn mmap(
        &mut self,
        addr: u64,
        len: u64,
        prot: usize,
        flags: usize,
        file: Result<FileCaps>,
        offset: u64,
        sz: u64,
    ) -> (r: Result<u64>)
        requires
            old(self).wf(),
            len + PG - 1 <= u64::MAX,
            sz + PG - 1 <= u64::MAX,
        ensures
            final(self).wf(),
            mmap_post(*old(self), *final(self), addr, len, prot, flags, file, offset, sz, r),
    {
        if addr != 0 || len == 0 || offset % PG != 0 {
            return Err(Error::InvalidArgument);
        }
        let shared = (flags & MAP_SHARED) != 0;
        let private = (flags & MAP_PRIVATE) != 0;
        if shared == private {
            return Err(Error::InvalidArgument);
        }
        let f: Option<usize> = if (flags & MAP_ANON) != 0 {
            None
        } else {
            let caps = match file {
                Ok(c) => c,
                Err(e) => { return Err(e); },
            };
            if (prot & PROT_READ) != 0 && !caps.readable {
                return Err(Error::PermissionDenied);
            }
            if shared && (prot & PROT_WRITE) != 0 && !caps.writable {
                return Err(Error::PermissionDenied);
            }
            if !caps.has_inode {
                return Err(Error::InvalidArgument);
            }
            Some(caps.id)
        };
        let start = match self.alloc_mmap_va(sz, len) {
            Ok(s) => s,
            Err(e) => { return Err(e); },
        };
        let v = Vma { start, len, prot, flags, file: f, file_off: offset, shm: None };
        assert(v.wf());
        self.vmas.push(v);
        Ok(start)
    }

    /// Unmaps the pages `[addr, addr + len)`, trimming or splitting the
    /// mappings they touch; returns the ranges whose pages are to be
    /// unmapped, in order. A shared segment can only be unmapped whole.
    #[verifier::rlimit(80)]
    pub fn munmap(&mut self, addr: u64, len: u64) -> (r: Result<Vec<(u64, u64)>>)
        requires
            old(self).wf(),
            offsets_fit(old(self).vmas@),
            addr + spec_pg_up(len as int) <= u64::MAX,
            len + PG - 1 <= u64::MAX,
            2 * old(self).vmas@.len() + 2 < usize::MAX,
        ensures
            final(self).wf(),
            munmap_post(*old(self), *final(self), addr, len, r),
    {
        if addr % PG != 0 || len == 0 {
            return Err(Error::InvalidArgument);
        }
        let len_pg = pg_up(len);
        let start = addr;
        let end = start + len_pg;
        let ghost orig = self.vmas@;
        let ghost mut k: int = 0;
        let mut ranges: Vec<(u64, u64)> = Vec::new();
        let mut i: usize = 0;
        proof {
            lemma_pg_up_aligned(len_pg as int);
            vstd::arithmetic::div_mod::lemma_add_mod_noop(start as int, len_pg as int, PG as int);
            assert(orig.skip(0) =~= orig);
            assert(self.vmas@.take(0) + spec_munmap(orig, start as int, end as int).0 =~= spec_munmap(orig, start as int, end as int).0);
            assert(ranges@ + spec_munmap(orig, start as int, end as int).1 =~= spec_munmap(orig, start as int, end as int).1);
        }
        while i < self.vmas.len()
            invariant
                start == addr,
                !(addr % PG != 0 || len == 0),
                end % PG == 0,
                self.vmas@.len() <= orig.len() + k,
                2 * orig.len() + 2 < usize::MAX,
                self.wf(),
                self.mmap_base == old(self).mmap_base,
                orig == old(self).vmas@,
                offsets_fit(orig),
                0 <= k <= orig.len(),
                i <= self.vmas@.len(),
                self.vmas@.skip(i as int) == orig.skip(k),
                start % PG == 0,
                end == start + spec_pg_up(len as int),
                ({
                    let whole = spec_munmap(orig, start as int, end as int);
                    let rest = spec_munmap(orig.skip(k), start as int, end as int);
                    &&& whole.0 == self.vmas@.take(i as int) + rest.0
                    &&& whole.1 == ranges@ + rest.1
                    &&& whole.2 == rest.2
                }),
            decreases orig.len() - k,
        {
            let v = self.vmas[i];
            let ghost rest_before = orig.skip(k);
            assert(rest_before[0] == v) by {
                assert(self.vmas@.skip(i as int)[0] == self.vmas@[i as int]);
            }
            assert(rest_before.drop_first() =~= orig.skip(k + 1));
            let v_start = v.start;
            let v_end = v.end_pg();
            let ov_start = if start > v_start { start } else { v_start };
            let ov_end = if end < v_end { end } else { v_end };
            if ov_start >= ov_end {
                proof {
                    k = k + 1;
                    assert(self.vmas@.take(i + 1) =~= self.vmas@.take(i as int) + seq![v]);
                    assert(self.vmas@.skip(i + 1) =~= self.vmas@.skip(i as int).drop_first());
                }
                i = i + 1;
                continue;
            }
            if v.shm.is_some() && (ov_start != v_start || ov_end != v_end) {
                proof {
                    assert(self.vmas@ =~= self.vmas@.take(i as int) + self.vmas@.skip(i as int));
                }
                return Err(Error::InvalidArgument);
            }
            ranges.push((ov_start, ov_end));
            let ghost pre = self.vmas@;
            let n = self.cut_vma(i, ov_start, ov_end);
            proof {
                k = k + 1;
                let c = spec_cut(v, ov_start as int, ov_end as int);
                assert(self.vmas@.take(i + n) =~= pre.take(i as int) + c);
                assert(self.vmas@.skip(i + n) =~= pre.skip(i as int).drop_first());
            }
            i = i + n;
        }
        proof {
            assert(orig.skip(k).len() == 0);
            assert(self.vmas@.take(i as int) =~= self.vmas@);
        }
        Ok(ranges)
    }

    /// Resolves a user page fault of kind `kind` at `fault_addr`: the page
    /// must lie in a mapping whose protection allows the access, and must
    /// not be mapped already (`mapped`: the page table holds a valid user
    /// leaf for it).
    pub fn handle_user_page_fault(&self, fault_addr: u64, kind: FaultKind, mapped: bool) -> (r: Result<FaultAction>)
        requires
            self.wf(),
            offsets_fit(self.vmas@),
        ensures
            ({
                let va = spec_pg_down(fault_addr as int) as u64;
                match first_vma_from(self.vmas@, va, 0) {
                    None => r == Err::<FaultAction, Error>(Error::BadVirtAddr),
                    Some(i) => r == spec_fault(self.vmas@[i], va, kind, mapped),
                }
            }),
    {
        let va = pg_down(fault_addr);
        proof {
            lemma_first_vma_from(self.vmas@, va, 0);
        }
        let mut i: usize = 0;
        while i < self.vmas.len()
            invariant
                self.wf(),
                i <= self.vmas@.len(),
                va == spec_pg_down(fault_addr as int),
                offsets_fit(self.vmas@),
                first_vma_from(self.vmas@, va, 0) == first_vma_from(self.vmas@, va, i as int),
            decreases self.vmas@.len() - i,
        {
            if self.vmas[i].contains_pg(va) {
                let v = self.vmas[i];
                assert(first_vma_from(self.vmas@, va, i as int) == Some(i as int));
                assert(self.vmas@[i as int].file_off + self.vmas@[i as int].spec_len_pg() <= u64::MAX);
                if (kind == FaultKind::Load && (v.prot & PROT_READ) == 0) || (kind == FaultKind::Store && (v.prot
                    & PROT_WRITE) == 0) || (kind == FaultKind::Instruction && (v.prot & PROT_EXEC) == 0) {
                    return Err(Error::PermissionDenied);
                }
                if mapped {
                    return Err(Error::BadVirtAddr);
                }
                let perm = v.perm();
                match v.shm {
                    Some(shm) => {
                        return Ok(FaultAction::MapShm { va, shm, page: (va - v.start) / PG, perm });
                    },
                    None => {},
                }
                if !v.is_anon() {
                    match v.file {
                        Some(f) => {
                            return Ok(FaultAction::MapPage { va, file: Some((f, v.file_off + (va - v.start))), perm });
                        },
                        None => {},
                    }
                }
                return Ok(FaultAction::MapPage { va, file: None, perm });
            }
            i = i + 1;
        }
        Err(Error::BadVirtAddr)
    }
}

/// The heap size that growing by `n` bytes asks for: refused when it would
/// reach the mapping area at `mmap_base`; shrinking below zero keeps the
/// size.
pub fn grow(sz: u64, n: i64, mmap_base: u64) -> (r: Result<u64>)
    ensures
        n > 0 && sz + n >= mmap_base ==> r == Err::<u64, Error>(Error::NoBufferSpace),
        n > 0 && sz + n < mmap_base ==> r == Ok::<u64, Error>((sz + n) as u64),
        n == 0 ==> r == Ok::<u64, Error>(sz),
        n < 0 && sz + n >= 0 ==> r == Ok::<u64, Error>((sz + n) as u64),
        n < 0 && sz + n < 0 ==> r == Ok::<u64, Error>(sz),
{
    if n > 0 {
        let add = n as u64;
        if add >= mmap_base || sz >= mmap_base - add {
            return Err(Error::NoBufferSpace);
        }
        Ok(sz + add)
    } else if n < 0 {
        let sub: u64 = if n == i64::MIN { 0x8000_0000_0000_0000u64 } else { (-n) as u64 };
        if sub > sz {
            Ok(sz)
        } else {
            Ok(sz - sub)
        }
    } else {
        Ok(sz)
    }
}
/// What `mmap` leaves and returns.
pub open spec fn mmap_post(o: ProcVm, n: ProcVm, addr: u64, len: u64, prot: usize, flags: usize, file: Result<FileCaps>, offset: u64, sz: u64, r: Result<u64>) -> bool {
    &&& (r is Err ==> n == o)
    &&& (addr != 0 || len == 0 || offset % PG != 0 || ((flags & MAP_SHARED != 0) == (flags & MAP_PRIVATE != 0))
                ==> r == Err::<u64, Error>(Error::InvalidArgument))
    &&& (!(addr != 0 || len == 0 || offset % PG != 0 || ((flags & MAP_SHARED != 0) == (flags & MAP_PRIVATE != 0)))
                ==> {
                let shared = flags & MAP_SHARED != 0;
                let len_pg = spec_pg_up(len as int);
                if flags & MAP_ANON == 0 && file is Err {
                    r == Err::<u64, Error>(file->Err_0)
                } else if flags & MAP_ANON == 0 && prot & PROT_READ != 0 && !file->Ok_0.readable {
                    r == Err::<u64, Error>(Error::PermissionDenied)
                } else if flags & MAP_ANON == 0 && shared && prot & PROT_WRITE != 0 && !file->Ok_0.writable {
                    r == Err::<u64, Error>(Error::PermissionDenied)
                } else if flags & MAP_ANON == 0 && !file->Ok_0.has_inode {
                    r == Err::<u64, Error>(Error::InvalidArgument)
                } else if o.mmap_base < len_pg || o.mmap_base - len_pg < spec_pg_up(sz as int) {
                    r == Err::<u64, Error>(Error::NoBufferSpace)
                } else {
                    &&& r == Ok::<u64, Error>((o.mmap_base - len_pg) as u64)
                    &&& n.mmap_base == o.mmap_base - len_pg
                    &&& n.vmas@ == o.vmas@.push(
                        Vma {
                            start: (o.mmap_base - len_pg) as u64,
                            len,
                            prot,
                            flags,
                            file: if flags & MAP_ANON != 0 { None } else { Some(file->Ok_0.id) },
                            file_off: offset,
                            shm: None,
                        },
                    )
                }
            })
}

/// What `munmap` leaves and returns.
pub open spec fn munmap_post(o: ProcVm, n: ProcVm, addr: u64, len: u64, r: Result<Vec<(u64, u64)>>) -> bool {
    &&& (n.mmap_base == o.mmap_base)
    &&& (addr % PG != 0 || len == 0 ==> r == Err::<Vec<(u64, u64)>, Error>(Error::InvalidArgument)
                && n.vmas@ == o.vmas@)
    &&& (!(addr % PG != 0 || len == 0) ==> ({
                let t = spec_munmap(o.vmas@, addr as int, addr + spec_pg_up(len as int));
                &&& n.vmas@ == t.0
                &&& t.2 ==> r == Err::<Vec<(u64, u64)>, Error>(Error::InvalidArgument)
                &&& !t.2 ==> (r matches Ok(v) && v@ == t.1)
            }))
}


/// Whether address `x` lies in the pages of mapping `v`.
pub open spec fn in_vma(v: Vma, x: int) -> bool {
    v.start <= x < v.spec_end_pg()
}

/// Whether address `x` lies in one of the mappings `vs`.
pub open spec fn mapped_at(vs: Seq<Vma>, x: int) -> bool {
    exists|i: int| 0 <= i < vs.len() && #[trigger] in_vma(vs[i], x)
}

proof fn lemma_pg_up_bounds(x: int)
    requires
        x >= 0,
    ensures
        x <= spec_pg_up(x) <= x + PG - 1,
        spec_pg_up(x) % (PG as int) == 0,
{
    let y = x + PG - 1;
    vstd::arithmetic::div_mod::lemma_fundamental_div_mod(y, PG as int);
    vstd::arithmetic::div_mod::lemma_mod_pos_bound(y, PG as int);
    let q = y / (PG as int);
    assert(spec_pg_up(x) == q * PG);
    vstd::arithmetic::div_mod::lemma_mod_multiples_basic(q, PG as int);
}

proof fn lemma_pg_up_sub(x: int, d: int)
    requires
        0 <= d <= x,
        d % (PG as int) == 0,
    ensures
        spec_pg_up(x - d) == spec_pg_up(x) - d,
{
    let y = x + PG - 1;
    vstd::arithmetic::div_mod::lemma_fundamental_div_mod(y, PG as int);
    vstd::arithmetic::div_mod::lemma_mod_pos_bound(y, PG as int);
    vstd::arithmetic::div_mod::lemma_fundamental_div_mod(d, PG as int);
    let q = y / (PG as int);
    let r = y % (PG as int);
    let k = d / (PG as int);
    assert(y - d == (PG as int) * (q - k) + r);
    vstd::arithmetic::div_mod::lemma_div_multiples_vanish_fancy(q - k, r, PG as int);
}

/// A page-aligned offset below a rounded-up length leaves at least a
/// page and lies below the length itself.
proof fn lemma_aligned_below(d: int, x: int)
    requires
        0 <= d < spec_pg_up(x),
        x >= 0,
        d % (PG as int) == 0,
    ensures
        d + PG <= spec_pg_up(x),
        d < x,
{
    lemma_pg_up_bounds(x);
    vstd::arithmetic::div_mod::lemma_fundamental_div_mod(d, PG as int);
    let y = x + PG - 1;
    vstd::arithmetic::div_mod::lemma_fundamental_div_mod(y, PG as int);
    let q = y / (PG as int);
    let k = d / (PG as int);
    assert(d == k * PG && spec_pg_up(x) == q * PG);
    assert(k < q) by (nonlinear_arith)
        requires
            d == k * PG,
            d < q * PG,
    ;
}

proof fn lemma_mapped_at_concat(a: Seq<Vma>, b: Seq<Vma>, x: int)
    ensures
        mapped_at(a + b, x) <==> mapped_at(a, x) || mapped_at(b, x),
{
    if mapped_at(a + b, x) {
        let i = choose|i: int| 0 <= i < (a + b).len() && #[trigger] in_vma((a + b)[i], x);
        if i < a.len() {
            assert(in_vma(a[i], x));
        } else {
            assert(in_vma(b[i - a.len()], x));
        }
    }
    if mapped_at(a, x) {
        let i = choose|i: int| 0 <= i < a.len() && #[trigger] in_vma(a[i], x);
        assert(in_vma((a + b)[i], x));
    }
    if mapped_at(b, x) {
        let i = choose|i: int| 0 <= i < b.len() && #[trigger] in_vma(b[i], x);
        assert(in_vma((a + b)[a.len() + i], x));
    }
}

/// What cutting `[a, b)` out of `v` leaves covers exactly the rest of `v`.
proof fn lemma_cut_cover(v: Vma, a: int, b: int, x: int)
    requires
        v.wf(),
        v.start <= a < b <= v.spec_end_pg(),
        a % (PG as int) == 0,
        b % (PG as int) == 0,
    ensures
        mapped_at(spec_cut(v, a, b), x) <==> in_vma(v, x) && !(a <= x < b),
{
    let vs = v.start as int;
    let ve = v.spec_end_pg();
    let l = v.len as int;
    lemma_pg_up_bounds(l);
    let c = spec_cut(v, a, b);
    if a == vs && b == ve {
    } else if a == vs {
        let delta = b - vs;
        assert(delta % (PG as int) == 0) by {
            vstd::arithmetic::div_mod::lemma_fundamental_div_mod(vs, PG as int);
            vstd::arithmetic::div_mod::lemma_fundamental_div_mod(b, PG as int);
            vstd::arithmetic::div_mod::lemma_mod_multiples_vanish(b / (PG as int) - vs / (PG as int), 0, PG as int);
            assert(delta == (PG as int) * (b / (PG as int) - vs / (PG as int)));
        }
        lemma_aligned_below(delta, l);
        lemma_pg_up_sub(l, delta);
        assert(c[0].spec_end_pg() == ve);
        if mapped_at(c, x) {
            let i = choose|i: int| 0 <= i < c.len() && #[trigger] in_vma(c[i], x);
            assert(i == 0);
        }
        if in_vma(v, x) && !(a <= x < b) {
            assert(in_vma(c[0], x));
        }
    } else if b == ve {
        let delta = ve - a;
        let keep = a - vs;
        assert(keep % (PG as int) == 0) by {
            vstd::arithmetic::div_mod::lemma_fundamental_div_mod(vs, PG as int);
            vstd::arithmetic::div_mod::lemma_fundamental_div_mod(a, PG as int);
            vstd::arithmetic::div_mod::lemma_mod_multiples_vanish(a / (PG as int) - vs / (PG as int), 0, PG as int);
            assert(keep == (PG as int) * (a / (PG as int) - vs / (PG as int)));
        }
        lemma_aligned_below(keep, l);
        // the kept length rounds up to `keep`
        let kl = l - delta;
        assert(kl > keep - PG && kl <= keep);
        assert(spec_pg_up(kl) == keep) by {
            lemma_pg_up_bounds(kl);
            vstd::arithmetic::div_mod::lemma_fundamental_div_mod(kl + PG - 1, PG as int);
            vstd::arithmetic::div_mod::lemma_mod_pos_bound(kl + PG - 1, PG as int);
            vstd::arithmetic::div_mod::lemma_fundamental_div_mod(keep, PG as int);
            let k = keep / (PG as int);
            assert(kl + PG - 1 == (PG as int) * k + (kl - 1 - keep + PG));
            vstd::arithmetic::div_mod::lemma_div_multiples_vanish_fancy(k, kl - 1 - keep + PG, PG as int);
        }
        assert(c[0].spec_end_pg() == a);
        if mapped_at(c, x) {
            let i = choose|i: int| 0 <= i < c.len() && #[trigger] in_vma(c[i], x);
            assert(i == 0);
        }
        if in_vma(v, x) && !(a <= x < b) {
            assert(in_vma(c[0], x));
        }
    } else {
        let left_len = a - vs;
        let right_off = b - vs;
        assert(left_len % (PG as int) == 0 && right_off % (PG as int) == 0) by {
            vstd::arithmetic::div_mod::lemma_fundamental_div_mod(vs, PG as int);
            vstd::arithmetic::div_mod::lemma_fundamental_div_mod(a, PG as int);
            vstd::arithmetic::div_mod::lemma_fundamental_div_mod(b, PG as int);
            vstd::arithmetic::div_mod::lemma_mod_multiples_vanish(a / (PG as int) - vs / (PG as int), 0, PG as int);
            vstd::arithmetic::div_mod::lemma_mod_multiples_vanish(b / (PG as int) - vs / (PG as int), 0, PG as int);
            assert(left_len == (PG as int) * (a / (PG as int) - vs / (PG as int)));
            assert(right_off == (PG as int) * (b / (PG as int) - vs / (PG as int)));
        }
        lemma_aligned_below(left_len, l);
        lemma_aligned_below(right_off, l);
        lemma_pg_up_sub(l, right_off);
        lemma_pg_up_bounds(left_len);
        lemma_pg_up_aligned(left_len);
        assert(c[0].spec_end_pg() == a);
        assert(c[1].len == l - right_off);
        assert(c[1].spec_end_pg() == ve);
        if mapped_at(c, x) {
            let i = choose|i: int| 0 <= i < c.len() && #[trigger] in_vma(c[i], x);
            assert(i == 0 || i == 1);
        }
        if in_vma(v, x) && !(a <= x < b) {
            if x < a {
                assert(in_vma(c[0], x));
            } else {
                assert(in_vma(c[1], x));
            }
        }
    }
}

/// Unmapping `[start, end)` takes exactly those addresses out of the
/// mappings: afterwards an address is mapped if and only if it was mapped
/// before and lies outside the range. (A shared segment that the range
/// only partly covers stops the unmapping instead, with nothing changed
/// from it on.)
pub proof fn law_munmap_per_address(vs: Seq<Vma>, start: int, end: int, x: int)
    requires
        forall|i: int| 0 <= i < vs.len() ==> (#[trigger] vs[i]).wf(),
        start % (PG as int) == 0,
        end % (PG as int) == 0,
        !spec_munmap(vs, start, end).2,
    ensures
        mapped_at(spec_munmap(vs, start, end).0, x) <==> mapped_at(vs, x) && !(start <= x < end),
    decreases vs.len(),
{
    if vs.len() == 0 {
        assert(!mapped_at(vs, x));
        assert(!mapped_at(spec_munmap(vs, start, end).0, x));
    } else {
        let v = vs[0];
        let rest = vs.drop_first();
        assert(vs =~= seq![v] + rest);
        lemma_mapped_at_concat(seq![v], rest, x);
        let a = if start > v.start { start } else { v.start as int };
        let b = if end < v.spec_end_pg() { end } else { v.spec_end_pg() };
        law_munmap_per_address(rest, start, end, x);
        let r = spec_munmap(rest, start, end);
        assert(mapped_at(seq![v], x) <==> in_vma(v, x)) by {
            if in_vma(v, x) {
                assert(in_vma(seq![v][0], x));
            }
        }
        if a >= b {
            lemma_mapped_at_concat(seq![v], r.0, x);
        } else {
            lemma_pg_up_bounds(v.len as int);
            assert(v.spec_end_pg() % (PG as int) == 0) by {
                vstd::arithmetic::div_mod::lemma_fundamental_div_mod(v.start as int, PG as int);
                vstd::arithmetic::div_mod::lemma_fundamental_div_mod(v.spec_len_pg(), PG as int);
                vstd::arithmetic::div_mod::lemma_mod_multiples_vanish(
                    v.start as int / (PG as int) + v.spec_len_pg() / (PG as int),
                    0,
                    PG as int,
                );
                assert(v.spec_end_pg() == (PG as int) * (v.start as int / (PG as int) + v.spec_len_pg() / (PG as int)));
            }
            lemma_cut_cover(v, a, b, x);
            lemma_mapped_at_concat(spec_cut(v, a, b), r.0, x);
        }
    }
}


/// A page of a file mapping is filled from the file offset the mapping was
/// made with, moved on by the page's distance from the mapping's start:
/// after a successful `mmap` of a file at offset `offset`, a fault that the
/// protection allows at the `k`-th page of the new mapping maps a page
/// read from the file at `offset + k * PG`.
pub proof fn law_mmap_fault_reads_at_offset(
    o: ProcVm,
    n: ProcVm,
    addr: u64,
    len: u64,
    prot: usize,
    flags: usize,
    file: Result<FileCaps>,
    offset: u64,
    sz: u64,
    r: Result<u64>,
    k: int,
    kind: FaultKind,
)
    requires
        mmap_post(o, n, addr, len, prot, flags, file, offset, sz, r),
        r is Ok,
        flags & MAP_ANON == 0,
        0 <= k,
        k * PG < spec_pg_up(len as int),
        offset + spec_pg_up(len as int) <= u64::MAX,
        (kind == FaultKind::Load && prot & PROT_READ != 0) || (kind == FaultKind::Store && prot & PROT_WRITE != 0)
            || (kind == FaultKind::Instruction && prot & PROT_EXEC != 0) || kind == FaultKind::Other,
    ensures
        ({
            let v = n.vmas@.last();
            let va = (r->Ok_0 + k * PG) as u64;
            &&& v.start == r->Ok_0 && v.file_off == offset
            &&& spec_fault(v, va, kind, false) matches Ok(FaultAction::MapPage { va: fva, file: Some((f, off)), .. })
                && fva == va && f == file->Ok_0.id && off == offset + k * PG
        }),
{
    let len_pg = spec_pg_up(len as int);
    assert(!(addr != 0 || len == 0 || offset % PG != 0 || ((flags & MAP_SHARED != 0) == (flags & MAP_PRIVATE != 0))));
    assert(file is Ok);
    assert(o.mmap_base >= len_pg);
    let v = n.vmas@.last();
    assert(v == Vma {
        start: (o.mmap_base - len_pg) as u64,
        len,
        prot,
        flags,
        file: Some(file->Ok_0.id),
        file_off: offset,
        shm: None,
    });
    let va = (r->Ok_0 + k * PG) as u64;
    assert(va == r->Ok_0 + k * PG);
    assert(va - v.start == k * PG);
}

} // verus!
