use vstd::prelude::*;

verus! {

// qemu -machine virt physical layout:
// 00001000 -- boot ROM, provided by qemu
// 02000000 -- CLINT
// 0C000000 -- APLIC
// 10000000 -- uart0
// 10001000 -- virtio disk, then net, gpu, keyboard, mouse
// 80000000 -- kernel text and data, then the page allocation area up to PHYSTOP

/// SiFive test device, for exiting QEMU during tests.
pub const SIFIVE_TEST: usize = 0x10_0000;

pub const UART0: usize = 0x1000_0000;
pub const UART0_IRQ: u32 = 10;
pub const UART0_HART: usize = 0;

pub const VIRTIO0: usize = 0x1000_1000;
pub const VIRTIO0_IRQ: u32 = 1;
pub const VIRTIO0_HART: usize = 0;
pub const VIRTIO1: usize = 0x1000_2000;
pub const VIRTIO1_IRQ: u32 = 2;
pub const VIRTIO1_HART: usize = 0;
pub const VIRTIO2: usize = 0x1000_3000;
pub const VIRTIO2_IRQ: u32 = 3;
pub const VIRTIO2_HART: usize = 0;
pub const VIRTIO3: usize = 0x1000_4000;
pub const VIRTIO3_IRQ: u32 = 4;
pub const VIRTIO3_HART: usize = 0;
pub const VIRTIO4: usize = 0x1000_5000;
pub const VIRTIO4_IRQ: u32 = 5;
pub const VIRTIO4_HART: usize = 0;

/// Core local interrupter, which holds the timer.
pub const CLINT: usize = 0x200_0000;
pub const CLINT_MTIME: usize = CLINT + 0xBFF8;

pub const PLIC: usize = 0x0C00_0000;
pub const PLIC_PRIORITY: usize = PLIC;
pub const PLIC_PENDING: usize = PLIC + 0x1000;

pub const APLIC_M: usize = 0x0C00_0000;
pub const APLIC_S: usize = 0x0D00_0000;
pub const IMSIC_M: usize = 0x2400_0000;
pub const IMSIC_S: usize = 0x2800_0000;
pub const IMSIC_STRIDE: usize = 0x1000;

pub const KERNBASE: usize = 0x8000_0000;
pub const PHYSTOP: usize = KERNBASE + 512 * 1024 * 1024;

// Virtual addresses of the Sv39 layout go beyond 32 bits, so they are `u64`.

/// One beyond the highest virtual address the Sv39 page tables map.
pub const MAXVA: u64 = 0x40_0000_0000;

/// Bytes per page, as a virtual-address quantity.
pub const PGSIZE_VA: u64 = 4096;

/// The trampoline page sits at the highest address, in user and kernel space.
pub const TRAMPOLINE: u64 = MAXVA - PGSIZE_VA;

/// Pages in each kernel stack.
pub const STACK_PAGE_NUM: u64 = 25;

/// Below the trampoline: one trapframe slot per process.
pub const TRAPFRAME: u64 = TRAMPOLINE - PGSIZE_VA;

pub fn clint_mtimecmp(hartid: usize) -> (r: usize)
    requires
        CLINT + 0x4000 + 8 * hartid <= usize::MAX,
    ensures
        r == CLINT + 0x4000 + 8 * hartid,
{
    CLINT + 0x4000 + 8 * hartid
}

#[allow(non_snake_case)]
pub fn PLIC_SENABLE(hart: usize) -> (r: usize)
    requires
        PLIC + 0x2080 + hart * 0x100 <= usize::MAX,
    ensures
        r == PLIC + 0x2080 + hart * 0x100,
{
    PLIC + 0x2080 + hart * 0x100
}

#[allow(non_snake_case)]
pub fn PLIC_SPRIORITY(hart: usize) -> (r: usize)
    requires
        PLIC + 0x201000 + hart * 0x2000 <= usize::MAX,
    ensures
        r == PLIC + 0x201000 + hart * 0x2000,
{
    PLIC + 0x201000 + hart * 0x2000
}

#[allow(non_snake_case)]
pub fn PLIC_SCLAIM(hart: usize) -> (r: usize)
    requires
        PLIC + 0x201004 + hart * 0x2000 <= usize::MAX,
    ensures
        r == PLIC + 0x201004 + hart * 0x2000,
{
    PLIC + 0x201004 + hart * 0x2000
}

/// Kernel stack of process slot `p`: below the trampoline, each stack
/// followed by an unmapped guard page.
pub open spec fn spec_kstack(p: int) -> int {
    TRAMPOLINE - (p + 1) * (STACK_PAGE_NUM + 1) * PGSIZE_VA
}

pub fn kstack(p: u64) -> (r: u64)
    requires
        (p + 1) * (STACK_PAGE_NUM + 1) * PGSIZE_VA <= TRAMPOLINE,
    ensures
        r == spec_kstack(p as int),
{
    assert((p + 1) * (STACK_PAGE_NUM + 1) * PGSIZE_VA == (p + 1) * 106496) by (nonlinear_arith);
    assert(p + 1 <= TRAMPOLINE / 106496) by (nonlinear_arith)
        requires
            (p + 1) * 106496 <= TRAMPOLINE,
    ;
    TRAMPOLINE - (p + 1) * 106496
}

/// Per-process trapframe slot, so threads sharing one page table keep
/// distinct trapframes.
pub fn trapframe_va(proc_idx: u64) -> (r: u64)
    requires
        proc_idx * PGSIZE_VA <= TRAPFRAME,
    ensures
        r == TRAPFRAME - proc_idx * PGSIZE_VA,
{
    TRAPFRAME - proc_idx * PGSIZE_VA
}

/// Highest address that regular user allocations reach.
pub fn user_mem_top(nproc: u64) -> (r: u64)
    requires
        nproc * PGSIZE_VA <= TRAMPOLINE,
    ensures
        r == TRAMPOLINE - nproc * PGSIZE_VA,
{
    TRAMPOLINE - nproc * PGSIZE_VA
}

} // verus!
