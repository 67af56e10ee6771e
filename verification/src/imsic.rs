//! The incoming MSI controller of each hart: which indirect CSR registers
//! enable delivery and the device messages, and how a claimed message is
//! read. [`init_hart`] returns the CSR operations in order; the caller
//! performs them.

use vstd::prelude::*;
use crate::memlayout::{UART0_IRQ, VIRTIO0_IRQ, VIRTIO1_IRQ};

verus! {

pub const EIDELIVERY: usize = 0x70;
pub const EITHRESHOLD: usize = 0x72;
pub const EIE0: usize = 0xC0;

/// One operation on an indirectly selected interrupt-file register.
#[derive(Clone, Copy, Debug, PartialEq, Eq, Structural)]
pub enum CsrOp {
    /// Select register `sel` and write `value` to it.
    Write { sel: usize, value: usize },
    /// Select register `sel` and set the bits of `mask` in it.
    SetBits { sel: usize, mask: usize },
}

/// The enable register and bit of message `msg`: the enable bits are
/// 64-bit registers at even selectors from `EIE0`.
pub open spec fn spec_eie(msg: usize) -> (usize, usize) {
    ((EIE0 + 2 * (msg / 64)) as usize, (msg % 64) as usize)
}

/// The operation that enables message `msg`.
pub fn enable_msg(msg: usize) -> (op: CsrOp)
    requires
        0 < msg < 2048,
    ensures
        op == (CsrOp::SetBits {
            sel: spec_eie(msg).0,
            mask: vstd::arithmetic::power2::pow2(spec_eie(msg).1 as nat) as usize,
        }),
{
    let sel = EIE0 + 2 * (msg / 64);
    let bit = msg % 64;
    assert(bit < 64);
    let mask: u64 = 1u64 << (bit as u64);
    proof {
        vstd::bits::lemma_u64_pow2_no_overflow(bit as nat);
        vstd::bits::lemma_u64_shl_is_mul(1, bit as u64);
    }
    CsrOp::SetBits { sel, mask: mask as usize }
}

/// The operations that set up a hart's interrupt file: delivery on,
/// threshold 0 (every message heard), and the console and disk messages
/// enabled.
pub fn init_hart() -> (ops: Vec<CsrOp>)
    ensures
        ops@.len() == 5,
        ops@[0] == (CsrOp::Write { sel: EIDELIVERY, value: 1 }),
        ops@[1] == (CsrOp::Write { sel: EITHRESHOLD, value: 0 }),
        ops@[2] == (CsrOp::SetBits { sel: spec_eie(UART0_IRQ as usize).0, mask: vstd::arithmetic::power2::pow2(spec_eie(UART0_IRQ as usize).1 as nat) as usize }),
        ops@[3] == (CsrOp::SetBits { sel: spec_eie(VIRTIO0_IRQ as usize).0, mask: vstd::arithmetic::power2::pow2(spec_eie(VIRTIO0_IRQ as usize).1 as nat) as usize }),
        ops@[4] == (CsrOp::SetBits { sel: spec_eie(VIRTIO1_IRQ as usize).0, mask: vstd::arithmetic::power2::pow2(spec_eie(VIRTIO1_IRQ as usize).1 as nat) as usize }),
{
    let mut ops: Vec<CsrOp> = Vec::new();
    ops.push(CsrOp::Write { sel: EIDELIVERY, value: 1 });
    ops.push(CsrOp::Write { sel: EITHRESHOLD, value: 0 });
    ops.push(enable_msg(UART0_IRQ as usize));
    ops.push(enable_msg(VIRTIO0_IRQ as usize));
    ops.push(enable_msg(VIRTIO1_IRQ as usize));
    ops
}

/// The message identity in a value read from `stopei`: its bits 26..16.
pub fn topei_message(v: u32) -> (msg: u32)
    ensures
        msg == v / 0x1_0000,
{
    let m = v >> 16;
    assert(m == v / 0x1_0000) by (bit_vector)
        requires
            m == v >> 16,
    ;
    m
}

} // verus!
