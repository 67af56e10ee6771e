//! The advanced platform-level interrupt controller: the register writes
//! that enable both domains in MSI mode, delegate the wired device sources
//! to the supervisor domain, and route each to a hart as an MSI.
//!
//! [`init`] returns the writes, in order; the caller performs them.

use vstd::prelude::*;
use crate::memlayout::{
    APLIC_M, APLIC_S, IMSIC_M, IMSIC_S, UART0_HART, UART0_IRQ, VIRTIO0_HART, VIRTIO0_IRQ,
    VIRTIO1_HART, VIRTIO1_IRQ,
};

verus! {

pub const DOMAINCFG: usize = 0x0000;
pub const SOURCECFG_BASE: usize = 0x0004;
pub const MMSIADDRCFG: usize = 0x1BC0;
pub const MMSIADDRCFGH: usize = 0x1BC4;
pub const SMSIADDRCFG: usize = 0x1BC8;
pub const SMSIADDRCFGH: usize = 0x1BCC;
pub const SETIE_BASE: usize = 0x1E00;
pub const CLRIE_BASE: usize = 0x1F00;
pub const TARGET_BASE: usize = 0x3004;

/// How an interrupt source is sensed.
#[derive(Clone, Copy, Debug, PartialEq, Eq, Structural)]
pub enum SourceMode {
    Inactive,
    Detached,
    RisingEdge,
    FallingEdge,
    LevelHigh,
    LevelLow,
}

impl SourceMode {
    pub open spec fn spec_code(self) -> u32 {
        match self {
            SourceMode::Inactive => 0,
            SourceMode::Detached => 1,
            SourceMode::RisingEdge => 4,
            SourceMode::FallingEdge => 5,
            SourceMode::LevelHigh => 6,
            SourceMode::LevelLow => 7,
        }
    }

    /// The value of a `sourcecfg` register selecting this mode.
    pub fn code(self) -> (c: u32)
        ensures
            c == self.spec_code(),
    {
        match self {
            SourceMode::Inactive => 0,
            SourceMode::Detached => 1,
            SourceMode::RisingEdge => 4,
            SourceMode::FallingEdge => 5,
            SourceMode::LevelHigh => 6,
            SourceMode::LevelLow => 7,
        }
    }
}

/// One 32-bit register write: the absolute address and the value.
#[derive(Clone, Copy, Debug, PartialEq, Eq, Structural)]
pub struct RegWrite {
    pub addr: usize,
    pub value: u32,
}

pub open spec fn b2u(b: bool) -> u32 {
    if b { 1 } else { 0 }
}

/// `domaincfg`: interrupt-enable at bit 8, MSI delivery mode at bit 2,
/// big-endian at bit 0.
pub open spec fn spec_domaincfg(bigendian: bool, msimode: bool, enabled: bool) -> u32 {
    (b2u(enabled) * 256 + b2u(msimode) * 4 + b2u(bigendian)) as u32
}

pub fn domaincfg(base: usize, bigendian: bool, msimode: bool, enabled: bool) -> (w: RegWrite)
    requires
        base + DOMAINCFG <= usize::MAX,
    ensures
        w == (RegWrite { addr: (base + DOMAINCFG) as usize, value: spec_domaincfg(bigendian, msimode, enabled) }),
{
    let e: u32 = if enabled { 1 } else { 0 };
    let m: u32 = if msimode { 1 } else { 0 };
    let b: u32 = if bigendian { 1 } else { 0 };
    let v = (e << 8) | (m << 2) | b;
    assert(v == e * 256 + m * 4 + b) by (bit_vector)
        requires
            e <= 1 && m <= 1 && b <= 1 && v == (e << 8) | (m << 2) | b,
    ;
    RegWrite { addr: base + DOMAINCFG, value: v }
}

/// The `sourcecfg` register of source `irq`.
pub open spec fn spec_sourcecfg_addr(base: usize, irq: u32) -> int {
    base + SOURCECFG_BASE + (irq - 1) * 4
}

/// Puts source `irq` in `mode`.
pub fn set_sourcecfg(base: usize, irq: u32, mode: SourceMode) -> (w: RegWrite)
    requires
        0 < irq < 1024,
        base + TARGET_BASE + 4096 <= usize::MAX,
    ensures
        w == (RegWrite { addr: spec_sourcecfg_addr(base, irq) as usize, value: mode.spec_code() }),
{
    let off = SOURCECFG_BASE + (irq as usize - 1) * 4;
    RegWrite { addr: base + off, value: mode.code() }
}

/// Delegates source `irq` to child domain `child`: bit 10 set, child
/// index in bits 9..0.
pub fn sourcecfg_delegate(base: usize, irq: u32, child: u32) -> (w: RegWrite)
    requires
        0 < irq < 1024,
        base + TARGET_BASE + 4096 <= usize::MAX,
    ensures
        w == (RegWrite { addr: spec_sourcecfg_addr(base, irq) as usize, value: (1024 + child % 1024) as u32 }),
{
    let off = SOURCECFG_BASE + (irq as usize - 1) * 4;
    let v = (1u32 << 10) | (child & 0x3ff);
    assert(v == 1024 + child % 1024) by (bit_vector)
        requires
            v == (1u32 << 10) | (child & 0x3ff),
    ;
    RegWrite { addr: base + off, value: v }
}

/// The MSI address words of a domain whose interrupt files start at
/// `imsic_base`: the low 32 bits of its page number, and the high word
/// holding `lhxw` at bits 15..12, `lhxs` at 22..20 and page-number bits
/// 43..32 at 11..0.
pub open spec fn spec_msiaddr(imsic_base: u64, lhxw: u32, lhxs: u32) -> (u32, u32) {
    let ppn = imsic_base / 4096;
    ((ppn % 0x1_0000_0000) as u32, (lhxs * 0x10_0000 + lhxw * 0x1000 + (ppn / 0x1_0000_0000) % 0x1000) as u32)
}

fn msiaddr_words(imsic_base: u64, lhxw: u32, lhxs: u32) -> (r: (u32, u32))
    requires
        lhxw < 16,
        lhxs < 8,
    ensures
        r == spec_msiaddr(imsic_base, lhxw, lhxs),
{
    let base_ppn = imsic_base >> 12;
    let low = (base_ppn & 0xffff_ffff) as u32;
    let high_ppn = ((base_ppn >> 32) & 0x0fff) as u32;
    let high = (lhxs << 20) | (lhxw << 12) | high_ppn;
    assert(base_ppn == imsic_base / 4096) by (bit_vector)
        requires
            base_ppn == imsic_base >> 12,
    ;
    assert(low == base_ppn % 0x1_0000_0000) by (bit_vector)
        requires
            low == (base_ppn & 0xffff_ffff) as u32,
    ;
    assert(high_ppn == (base_ppn / 0x1_0000_0000) % 0x1000) by (bit_vector)
        requires
            high_ppn == ((base_ppn >> 32) & 0x0fff) as u32,
    ;
    assert(high == lhxs * 0x10_0000 + lhxw * 0x1000 + high_ppn) by (bit_vector)
        requires
            lhxw < 16,
            lhxs < 8,
            high_ppn < 0x1000,
            high == (lhxs << 20) | (lhxw << 12) | high_ppn,
    ;
    (low, high)
}

/// Enables (`setie`) or disables (`clrie`) source `irq`: one bit in the
/// word `irq / 32`.
pub fn set_ie(base: usize, irq: u32, enabled: bool) -> (w: RegWrite)
    requires
        0 < irq < 1024,
        base + TARGET_BASE + 4096 <= usize::MAX,
    ensures
        w.addr == base + (if enabled { SETIE_BASE } else { CLRIE_BASE }) + (irq / 32) * 4,
        w.value == vstd::arithmetic::power2::pow2((irq % 32) as nat),
{
    let idx = (irq / 32) as usize;
    let bit = irq % 32;
    let off = if enabled { SETIE_BASE } else { CLRIE_BASE };
    let v = 1u32 << bit;
    proof {
        vstd::bits::lemma_u32_pow2_no_overflow(bit as nat);
        vstd::bits::lemma_u32_shl_is_mul(1, bit);
        vstd::arithmetic::power2::lemma_pow2_pos(bit as nat);
        assert(1 * vstd::arithmetic::power2::pow2(bit as nat) == vstd::arithmetic::power2::pow2(bit as nat));
    }
    RegWrite { addr: base + off + idx * 4, value: v }
}

/// Routes source `irq` as an MSI to `hart`, interrupt file `guest`, with
/// identity `eiid`: hart at bits 31..18, guest at 17..12, identity 11..0.
pub fn set_target_msi(base: usize, irq: u32, hart: u32, guest: u32, eiid: u32) -> (w: RegWrite)
    requires
        0 < irq < 1024,
        hart < 0x4000,
        guest < 64,
        base + TARGET_BASE + 4096 <= usize::MAX,
    ensures
        w == (RegWrite {
            addr: (base + TARGET_BASE + (irq - 1) * 4) as usize,
            value: (hart * 0x4_0000 + guest * 0x1000 + eiid % 0x1000) as u32,
        }),
{
    let off = TARGET_BASE + (irq as usize - 1) * 4;
    let v = (hart << 18) | (guest << 12) | (eiid & 0x0fff);
    assert(v == hart * 0x4_0000 + guest * 0x1000 + eiid % 0x1000) by (bit_vector)
        requires
            hart < 0x4000,
            guest < 64,
            v == (hart << 18) | (guest << 12) | (eiid & 0x0fff),
    ;
    RegWrite { addr: base + off, value: v }
}

/// The hart whose interrupt file receives the MSIs of source `irq`.
pub open spec fn spec_guest_of(irq: u32) -> u32 {
    if irq == UART0_IRQ {
        UART0_HART as u32
    } else if irq == VIRTIO0_IRQ {
        VIRTIO0_HART as u32
    } else if irq == VIRTIO1_IRQ {
        VIRTIO1_HART as u32
    } else {
        0
    }
}

/// The wired sources, in the order they are set up.
pub open spec fn source_irq(i: int) -> u32 {
    if i == 0 {
        UART0_IRQ
    } else if i == 1 {
        VIRTIO0_IRQ
    } else {
        VIRTIO1_IRQ
    }
}

/// Write `6 + i` delegates source `irq` to the supervisor domain.
pub open spec fn delegate_ok(ws: Seq<RegWrite>, i: int, irq: u32) -> bool {
    ws[6 + i] == (RegWrite { addr: spec_sourcecfg_addr(APLIC_M, irq) as usize, value: 1024 })
}

/// Writes `9 + 3i` to `11 + 3i` route source `irq` to hart 0 as MSI
/// `irq`, make it level-high and enable it.
pub open spec fn route_ok(ws: Seq<RegWrite>, i: int, irq: u32) -> bool {
    &&& ws[9 + 3 * i] == (RegWrite {
        addr: (APLIC_S + TARGET_BASE + (irq - 1) * 4) as usize,
        value: (UART0_HART * 0x4_0000 + spec_guest_of(irq) * 0x1000 + irq) as u32,
    })
    &&& ws[10 + 3 * i] == (RegWrite { addr: spec_sourcecfg_addr(APLIC_S, irq) as usize, value: 6 })
    &&& ws[11 + 3 * i].addr == APLIC_S + SETIE_BASE + (irq / 32) * 4
    &&& ws[11 + 3 * i].value == vstd::arithmetic::power2::pow2((irq % 32) as nat)
}

/// The first writes: both domains enabled in MSI mode, and the machine
/// domain's MSI addresses for both privilege levels.
pub open spec fn head_ok(ws: Seq<RegWrite>) -> bool {
    &&& ws[0] == (RegWrite { addr: APLIC_M, value: 0x104 })
    &&& ws[1] == (RegWrite { addr: APLIC_S, value: 0x104 })
    &&& ws[2] == (RegWrite { addr: (APLIC_M + MMSIADDRCFG) as usize, value: spec_msiaddr(IMSIC_M as u64, 3, 0).0 })
    &&& ws[3] == (RegWrite { addr: (APLIC_M + MMSIADDRCFGH) as usize, value: spec_msiaddr(IMSIC_M as u64, 3, 0).1 })
    &&& ws[4] == (RegWrite { addr: (APLIC_M + SMSIADDRCFG) as usize, value: spec_msiaddr(IMSIC_S as u64, 0, 0).0 })
    &&& ws[5] == (RegWrite { addr: (APLIC_M + SMSIADDRCFGH) as usize, value: spec_msiaddr(IMSIC_S as u64, 0, 0).1 })
}

/// The register writes that bring up both interrupt domains, in order:
/// both domains enabled in MSI mode; the machine domain's MSI addresses
/// for both levels; the three wired sources delegated to the supervisor
/// domain; then, for each source, its MSI target, level-high sensing and
/// its enable bit.
pub fn init() -> (ws: Vec<RegWrite>)
    ensures
        ws@.len() == 18,
        head_ok(ws@),
        forall|i: int| 0 <= i < 3 ==> delegate_ok(ws@, i, #[trigger] source_irq(i)),
        forall|i: int| 0 <= i < 3 ==> route_ok(ws@, i, #[trigger] source_irq(i)),
{
    let mut ws: Vec<RegWrite> = Vec::new();
    ws.push(domaincfg(APLIC_M, false, true, true));
    ws.push(domaincfg(APLIC_S, false, true, true));
    let (lo, hi) = msiaddr_words(IMSIC_M as u64, 3, 0);
    ws.push(RegWrite { addr: APLIC_M + MMSIADDRCFG, value: lo });
    ws.push(RegWrite { addr: APLIC_M + MMSIADDRCFGH, value: hi });
    let (lo, hi) = msiaddr_words(IMSIC_S as u64, 0, 0);
    ws.push(RegWrite { addr: APLIC_M + SMSIADDRCFG, value: lo });
    ws.push(RegWrite { addr: APLIC_M + SMSIADDRCFGH, value: hi });
    let irqs: [u32; 3] = [UART0_IRQ, VIRTIO0_IRQ, VIRTIO1_IRQ];
    assert(forall|j: int| 0 <= j < 3 ==> irqs@[j] == #[trigger] source_irq(j));
    let mut i: usize = 0;
    while i < 3
        invariant
            i <= 3,
            forall|j: int| 0 <= j < 3 ==> irqs@[j] == #[trigger] source_irq(j),
            ws@.len() == 6 + i,
            head_ok(ws@),
            forall|j: int| 0 <= j < i ==> delegate_ok(ws@, j, #[trigger] source_irq(j)),
        decreases 3 - i,
    {
        let ghost before = ws@;
        assert(irqs@[i as int] == source_irq(i as int));
        ws.push(sourcecfg_delegate(APLIC_M, irqs[i], 0));
        assert forall|j: int| 0 <= j < i + 1 implies delegate_ok(ws@, j, #[trigger] source_irq(j)) by {
            if j < i {
                assert(delegate_ok(before, j, source_irq(j)));
            }
        }
        i = i + 1;
    }
    let mut i: usize = 0;
    while i < 3
        invariant
            i <= 3,
            forall|j: int| 0 <= j < 3 ==> irqs@[j] == #[trigger] source_irq(j),
            ws@.len() == 9 + 3 * i,
            head_ok(ws@),
            forall|j: int| 0 <= j < 3 ==> delegate_ok(ws@, j, #[trigger] source_irq(j)),
            forall|j: int| 0 <= j < i ==> route_ok(ws@, j, #[trigger] source_irq(j)),
        decreases 3 - i,
    {
        let irq = irqs[i];
        assert(irq == source_irq(i as int));
        let guest: u32 = if irq == UART0_IRQ {
            UART0_HART as u32
        } else if irq == VIRTIO0_IRQ {
            VIRTIO0_HART as u32
        } else if irq == VIRTIO1_IRQ {
            VIRTIO1_HART as u32
        } else {
            0
        };
        let ghost before = ws@;
        ws.push(set_target_msi(APLIC_S, irq, UART0_HART as u32, guest, irq));
        ws.push(set_sourcecfg(APLIC_S, irq, SourceMode::LevelHigh));
        ws.push(set_ie(APLIC_S, irq, true));
        assert forall|j: int| 0 <= j < 3 implies delegate_ok(ws@, j, #[trigger] source_irq(j)) by {
            assert(delegate_ok(before, j, source_irq(j)));
        }
        assert forall|j: int| 0 <= j < i + 1 implies route_ok(ws@, j, #[trigger] source_irq(j)) by {
            if j < i {
                assert(route_ok(before, j, source_irq(j)));
            }
        }
        i = i + 1;
    }
    ws
}

} // verus!
