use vstd::prelude::*;
use crate::vma::{pg_up, spec_pg_up, PG};

verus! {

/// Size of an ELF64 file header.
pub const ELF_HDR_SIZE: usize = 64;

/// Size of an ELF64 program header.
pub const PROG_HDR_SIZE: usize = 56;

/// Program header type of a loadable segment.
pub const PT_LOAD: u32 = 1;

/// The little-endian 16-bit value at `o`.
pub open spec fn spec_le16(s: Seq<u8>, o: int) -> int {
    s[o] + 256 * s[o + 1]
}

/// The little-endian 32-bit value at `o`.
pub open spec fn spec_le32(s: Seq<u8>, o: int) -> int {
    spec_le16(s, o) + 65536 * spec_le16(s, o + 2)
}

/// The little-endian 64-bit value at `o`.
pub open spec fn spec_le64(s: Seq<u8>, o: int) -> int {
    spec_le32(s, o) + 4294967296 * spec_le32(s, o + 4)
}

pub fn read_le16(s: &[u8], o: usize) -> (v: u16)
    requires
        o + 2 <= s.len(),
    ensures
        v == spec_le16(s@, o as int),
{
    s[o] as u16 + 256 * (s[o + 1] as u16)
}

pub fn read_le32(s: &[u8], o: usize) -> (v: u32)
    requires
        o + 4 <= s.len(),
    ensures
        v == spec_le32(s@, o as int),
{
    read_le16(s, o) as u32 + 65536 * (read_le16(s, o + 2) as u32)
}

pub fn read_le64(s: &[u8], o: usize) -> (v: u64)
    requires
        o + 8 <= s.len(),
    ensures
        v == spec_le64(s@, o as int),
{
    read_le32(s, o) as u64 + 4294967296 * (read_le32(s, o + 4) as u64)
}

/// The fields of an ELF64 program header that loading reads.
#[derive(Clone, Copy, Debug, PartialEq, Eq, Structural)]
pub struct ProgHdr {
    pub p_type: u32,
    pub p_flags: u32,
    pub p_offset: u64,
    pub p_vaddr: u64,
    pub p_fsize: u64,
    pub p_msize: u64,
}

/// The program header stored at `o`.
#[verifier::opaque]
pub open spec fn spec_prog_hdr(s: Seq<u8>, o: int) -> ProgHdr {
    ProgHdr {
        p_type: spec_le32(s, o) as u32,
        p_flags: spec_le32(s, o + 4) as u32,
        p_offset: spec_le64(s, o + 8) as u64,
        p_vaddr: spec_le64(s, o + 16) as u64,
        p_fsize: spec_le64(s, o + 32) as u64,
        p_msize: spec_le64(s, o + 40) as u64,
    }
}

pub fn read_prog_hdr(s: &[u8], o: usize) -> (h: ProgHdr)
    requires
        o + PROG_HDR_SIZE <= s.len(),
    ensures
        h == spec_prog_hdr(s@, o as int),
{
    reveal(spec_prog_hdr);
    ProgHdr {
        p_type: read_le32(s, o),
        p_flags: read_le32(s, o + 4),
        p_offset: read_le64(s, o + 8),
        p_vaddr: read_le64(s, o + 16),
        p_fsize: read_le64(s, o + 32),
        p_msize: read_le64(s, o + 40),
    }
}

/// The image starts with the ELF magic number.
pub open spec fn has_elf_magic(s: Seq<u8>) -> bool {
    s.len() >= ELF_HDR_SIZE && s[0] == 0x7f && s[1] == 0x45 && s[2] == 0x4c && s[3] == 0x46
}

pub open spec fn spec_entry(s: Seq<u8>) -> int {
    spec_le64(s, 24)
}

pub open spec fn spec_phoff(s: Seq<u8>) -> int {
    spec_le64(s, 32)
}

pub open spec fn spec_phnum(s: Seq<u8>) -> int {
    spec_le16(s, 56)
}

/// Program header `i` of the image.
pub open spec fn phdr_at(s: Seq<u8>, i: int) -> ProgHdr {
    spec_prog_hdr(s, spec_phoff(s) + 56 * i)
}

/// A segment that loading copies in: loadable, with bytes in the file.
pub open spec fn is_loaded(h: ProgHdr) -> bool {
    h.p_type == PT_LOAD && h.p_fsize != 0
}

/// The first program header from `i` on that is not loaded, or the
/// header count when there is none.
pub open spec fn first_skip_from(s: Seq<u8>, i: int) -> int
    decreases spec_phnum(s) - i,
{
    if i < 0 || i >= spec_phnum(s) {
        spec_phnum(s)
    } else if !is_loaded(phdr_at(s, i)) {
        i
    } else {
        first_skip_from(s, i + 1)
    }
}

/// How many segments are loaded. The header offset only moves on past a
/// loaded header, so after the first header that is not loaded, that
/// header is read again for each of the remaining iterations and nothing
/// more is loaded.
pub open spec fn load_count(s: Seq<u8>) -> int {
    first_skip_from(s, 0)
}

/// How many distinct program headers loading reads.
pub open spec fn headers_read(s: Seq<u8>) -> int {
    if load_count(s) < spec_phnum(s) {
        load_count(s) + 1
    } else {
        spec_phnum(s)
    }
}

/// The end of the highest segment among the first `k` loaded ones.
pub open spec fn sz_after(s: Seq<u8>, k: int) -> int
    decreases k,
{
    if k <= 0 {
        0
    } else {
        let end = phdr_at(s, k - 1).p_vaddr + phdr_at(s, k - 1).p_msize;
        let prev = sz_after(s, k - 1);
        if end > prev { end } else { prev }
    }
}

/// The image can be loaded: an ELF image whose headers lie inside it and
/// whose loaded segments are page-aligned, hold their file bytes, fit in
/// the address space and leave room for the two stack pages.
pub open spec fn init_image_ok(s: Seq<u8>) -> bool {
    &&& has_elf_magic(s)
    &&& spec_phoff(s) + 56 * headers_read(s) <= s.len()
    &&& forall|i: int|
        0 <= i < load_count(s) ==> {
            let h = #[trigger] phdr_at(s, i);
            &&& h.p_msize >= h.p_fsize
            &&& h.p_vaddr + h.p_msize <= u64::MAX
            &&& h.p_vaddr % PG == 0
            &&& h.p_offset + h.p_fsize <= s.len()
        }
    &&& spec_pg_up(sz_after(s, load_count(s))) + 2 * PG <= u64::MAX
}

/// What loading the first program's image sets up: its entry point, the
/// segments to map and fill (in order), the size of the loaded program,
/// the guard page at the next page boundary above it, to be mapped
/// without user access, and the top of the user stack, the page above the
/// guard page.
pub struct InitImage {
    pub entry: u64,
    pub loads: Vec<ProgHdr>,
    pub sz: u64,
    pub guard: u64,
    pub stack_top: u64,
}

proof fn lemma_first_skip(s: Seq<u8>, i: int)
    requires
        0 <= i <= spec_phnum(s),
    ensures
        i <= first_skip_from(s, i) <= spec_phnum(s),
        forall|j: int| i <= j < first_skip_from(s, i) ==> is_loaded(#[trigger] phdr_at(s, j)),
        first_skip_from(s, i) < spec_phnum(s) ==> !is_loaded(phdr_at(s, first_skip_from(s, i))),
    decreases spec_phnum(s) - i,
{
    if i < spec_phnum(s) && is_loaded(phdr_at(s, i)) {
        lemma_first_skip(s, i + 1);
    }
}

proof fn lemma_sz_after_mono(s: Seq<u8>, a: int, b: int)
    requires
        0 <= a <= b,
    ensures
        sz_after(s, a) <= sz_after(s, b),
        sz_after(s, b) >= 0,
    decreases b - a,
{
    if a < b {
        lemma_sz_after_mono(s, a, b - 1);
    }
}

/// Reads the first program's ELF image: walks its program headers and
/// plans the loading of each segment, then places the stack.
pub fn plan_init_image(img: &[u8]) -> (r: InitImage)
    requires
        init_image_ok(img@),
    ensures
        r.entry == spec_entry(img@),
        r.loads@.len() == load_count(img@),
        forall|i: int| 0 <= i < r.loads@.len() ==> #[trigger] r.loads@[i] == phdr_at(img@, i),
        r.sz == sz_after(img@, load_count(img@)),
        r.guard == spec_pg_up(r.sz as int),
        r.stack_top == spec_pg_up(r.sz as int) + 2 * PG,
{
    let ghost s = img@;
    let entry = read_le64(img, 24);
    let phoff = read_le64(img, 32);
    let phnum = read_le16(img, 56);
    proof {
        lemma_first_skip(s, 0);
    }
    let ghost m = load_count(s);
    proof {
        if phnum > 0 {
            assert(headers_read(s) >= 1);
            assert(phoff + 56 <= img@.len());
        }
    }
    let mut off: usize = if phnum > 0 { phoff as usize } else { 0 };
    let mut sz: u64 = 0;
    let mut loads: Vec<ProgHdr> = Vec::new();
    let mut i: u16 = 0;
    let ghost mut skipped = false;
    while i < phnum
        invariant
            s == img@,
            init_image_ok(s),
            phoff == spec_phoff(s),
            phnum == spec_phnum(s),
            m == load_count(s),
            0 <= m <= phnum,
            forall|j: int| 0 <= j < m ==> is_loaded(#[trigger] phdr_at(s, j)),
            m < phnum ==> !is_loaded(phdr_at(s, m)),
            0 <= i <= phnum,
            !skipped ==> i <= m && loads@.len() == i,
            skipped ==> m < i && loads@.len() == m,
            phnum > 0 ==> off == phoff + 56 * loads@.len(),
            sz == sz_after(s, loads@.len() as int),
            forall|j: int| 0 <= j < loads@.len() ==> #[trigger] loads@[j] == phdr_at(s, j),
        decreases phnum - i,
    {
        let ghost n = loads@.len() as int;
        proof {
            assert(n < headers_read(s));
            assert(off + 56 <= phoff + 56 * headers_read(s));
            assert(off + 56 <= img.len());
        }
        let h = read_prog_hdr(img, off);
        assert(phdr_at(s, n) == h);
        if h.p_type != PT_LOAD || h.p_fsize == 0 {
            proof {
                assert(n == m);
                skipped = true;
            }
            i = i + 1;
        } else {
            proof {
                assert(n < m);
                assert(0 <= n < load_count(s));
                assert(phdr_at(s, n) == h);
                lemma_sz_after_mono(s, n + 1, m);
            }
            let end = h.p_vaddr + h.p_msize;
            if end > sz {
                sz = end;
            }
            loads.push(h);
            off = off + PROG_HDR_SIZE;
            i = i + 1;
        }
    }
    proof {
        if !skipped {
            assert(i == phnum);
            assert(m == phnum);
        }
        lemma_sz_after_mono(s, 0, m);
    }
    let guard = pg_up(sz);
    let top = guard + 2 * PG;
    InitImage { entry, loads, sz, guard, stack_top: top }
}

} // verus!
