use vstd::prelude::*;
use crate::error::{Error, Result};
use crate::mmap::{MAP_ANON, MAP_SHARED, PROT_EXEC, PROT_READ, PROT_WRITE};
use crate::vma::{spec_fault, FaultAction, FaultKind, Vma, PG};

verus! {

/// The part of a page of a shared file mapping that unmapping writes
/// back: from `data_off` in the page, `len` bytes, to `file_off` in the
/// file.
#[derive(Clone, Copy, Debug, PartialEq, Eq, Structural)]
pub struct WritebackExtent {
    pub file_off: u32,
    pub data_off: u64,
    pub len: u64,
}

/// What unmapping the mapped page at `a` of `v` writes back: for a shared
/// mapping of a file with an inode, the page's requested bytes, at their
/// place in the file, which must lie below 4 GiB; nothing otherwise.
pub open spec fn spec_writeback(v: Vma, a: u64, has_inode: bool) -> Result<Option<WritebackExtent>> {
    if v.flags & MAP_SHARED != 0 && v.flags & MAP_ANON == 0 && v.file is Some && has_inode {
        let ws: int = if a >= v.start { a as int } else { v.start as int };
        let we: int = if a + PG <= v.start + v.len { a + PG } else { v.start + v.len };
        if we > ws {
            let file_off = v.file_off + (a - v.start) + (ws - a);
            if file_off > u32::MAX {
                Err(Error::InvalidArgument)
            } else {
                Ok(Some(WritebackExtent { file_off: file_off as u32, data_off: (ws - a) as u64, len: (we - ws) as u64 }))
            }
        } else {
            Ok(None)
        }
    } else {
        Ok(None)
    }
}

/// What unmapping the pages of `[start, start + 4096 * k)` of `v` does,
/// page by page in address order, where `mapped` says which pages are
/// mapped: the pages unmapped, the writebacks taken (each with its page),
/// and the error that stopped it, if one did. A page whose writeback
/// fails stays mapped, and no later page is looked at.
pub open spec fn spec_unmap_range(v: Vma, start: u64, mapped: Seq<bool>, has_inode: bool, k: int) -> (
    Seq<u64>,
    Seq<(u64, WritebackExtent)>,
    Option<Error>,
)
    decreases k,
{
    if k <= 0 {
        (Seq::empty(), Seq::empty(), None)
    } else {
        let prev = spec_unmap_range(v, start, mapped, has_inode, k - 1);
        let a = (start + (k - 1) * PG) as u64;
        if prev.2 is Some || !mapped[k - 1] {
            prev
        } else {
            match spec_writeback(v, a, has_inode) {
                Err(e) => (prev.0, prev.1, Some(e)),
                Ok(None) => (prev.0.push(a), prev.1, None),
                Ok(Some(w)) => (prev.0.push(a), prev.1.push((a, w)), None),
            }
        }
    }
}

proof fn lemma_unmap_range_stops(v: Vma, start: u64, mapped: Seq<bool>, has_inode: bool, k0: int, k: int)
    requires
        0 <= k0 <= k,
        spec_unmap_range(v, start, mapped, has_inode, k0).2 is Some,
    ensures
        spec_unmap_range(v, start, mapped, has_inode, k) == spec_unmap_range(v, start, mapped, has_inode, k0),
    decreases k - k0,
{
    if k > k0 {
        lemma_unmap_range_stops(v, start, mapped, has_inode, k0, k - 1);
    }
}

/// The work of unmapping part of a mapping: the pages to unmap and the
/// writebacks to make first.
pub struct UnmapPlan {
    pub pages: Vec<u64>,
    pub writebacks: Vec<(u64, WritebackExtent)>,
}

/// The writeback of the mapped page at `a` of `v`.
pub fn writeback_extent(v: &Vma, a: u64, has_inode: bool) -> (r: Result<Option<WritebackExtent>>)
    requires
        v.wf(),
        v.start <= a,
        a + PG <= v.spec_end_pg(),
    ensures
        r == spec_writeback(*v, a, has_inode),
{
    if v.is_shared() && !v.is_anon() && v.file.is_some() && has_inode {
        let ws = if a >= v.start { a } else { v.start };
        let end = v.end_req();
        let we = if a + PG <= end { a + PG } else { end };
        if we > ws {
            let page_off = a - v.start;
            if v.file_off > u32::MAX as u64 || page_off > u32::MAX as u64 - v.file_off
                || ws - a > u32::MAX as u64 - v.file_off - page_off {
                return Err(Error::InvalidArgument);
            }
            let file_off = v.file_off + page_off + (ws - a);
            return Ok(Some(WritebackExtent { file_off: file_off as u32, data_off: ws - a, len: we - ws }));
        }
        return Ok(None);
    }
    Ok(None)
}

/// Unmaps the pages of `[start, start + len_pg)` of `v` that are mapped
/// (`mapped[i]` for the page `i` pages in), collecting the writebacks of
/// a shared file mapping; `has_inode` says whether its file has an inode.
/// Stops at the first page whose writeback lies beyond 4 GiB in the file.
pub fn munmap_vma_range(v: &Vma, start: u64, len_pg: u64, mapped: &Vec<bool>, has_inode: bool) -> (r: (
    UnmapPlan,
    Result<()>,
))
    requires
        v.wf(),
        start % PG == 0,
        len_pg % PG == 0,
        v.start <= start,
        start + len_pg <= v.spec_end_pg(),
        mapped@.len() == len_pg as int / (PG as int),
    ensures
        ({
            let s = spec_unmap_range(*v, start, mapped@, has_inode, mapped@.len() as int);
            &&& r.0.pages@ == s.0
            &&& r.0.writebacks@ == s.1
            &&& match s.2 {
                Some(e) => r.1 == Err::<(), Error>(e),
                None => r.1 == Ok::<(), Error>(()),
            }
        }),
{
    let mut pages: Vec<u64> = Vec::new();
    let mut writebacks: Vec<(u64, WritebackExtent)> = Vec::new();
    let n = mapped.len();
    let mut i: usize = 0;
    let mut a: u64 = start;
    while i < n
        invariant
            v.wf(),
            n == mapped@.len(),
            n == len_pg as int / (PG as int),
            start + len_pg <= v.spec_end_pg(),
            v.start <= start,
            0 <= i <= n,
            a == start + i * PG,
            spec_unmap_range(*v, start, mapped@, has_inode, i as int) == (pages@, writebacks@, None::<Error>),
        decreases n - i,
    {
        assert(a + PG <= v.spec_end_pg()) by (nonlinear_arith)
            requires
                a == start + i * PG,
                i < n,
                n == len_pg as int / (PG as int),
                start + len_pg <= v.spec_end_pg(),
                PG == 4096,
        ;
        if mapped[i] {
            match writeback_extent(v, a, has_inode) {
                Err(e) => {
                    proof {
                        assert((start + ((i + 1) - 1) * PG) as u64 == a);
                        lemma_unmap_range_stops(*v, start, mapped@, has_inode, i + 1, n as int);
                    }
                    return (UnmapPlan { pages, writebacks }, Err(e));
                },
                Ok(None) => {
                    pages.push(a);
                },
                Ok(Some(w)) => {
                    pages.push(a);
                    writebacks.push((a, w));
                },
            }
        }
        proof {
            assert((start + ((i + 1) - 1) * PG) as u64 == a);
        }
        i = i + 1;
        a = a + PG;
    }
    (UnmapPlan { pages, writebacks }, Ok(()))
}


/// A page of a shared file mapping is read in from the same place in the
/// file that unmapping writes it back to: the fault at page `va` maps the
/// page from the file offset at which `munmap` writes the page's first
/// byte.
pub proof fn law_fault_reads_where_unmap_writes(v: Vma, va: u64, kind: FaultKind)
    requires
        v.wf(),
        v.shm is None,
        v.file is Some,
        v.flags & MAP_ANON == 0,
        v.flags & MAP_SHARED != 0,
        va % PG == 0,
        v.start <= va < v.start + v.len,
        v.file_off + (va - v.start) <= u32::MAX,
        (kind == FaultKind::Load && v.prot & PROT_READ != 0) || (kind == FaultKind::Store && v.prot & PROT_WRITE
            != 0) || (kind == FaultKind::Instruction && v.prot & PROT_EXEC != 0) || kind == FaultKind::Other,
    ensures
        spec_fault(v, va, kind, false) matches Ok(FaultAction::MapPage { va: fva, file: Some((f, off)), .. })
            && fva == va && f == v.file->0 && (spec_writeback(v, va, true) matches Ok(Some(w)) && w.data_off == 0
            && w.file_off == off),
{
}

} // verus!
