//! A verified model of the Web OS kernel's core logic: signals, process
//! bookkeeping, scheduling queues, file-status flags, locks, consoles,
//! IPC tables and device-queue arithmetic.

pub mod error;
pub mod param;
pub mod signal;
pub mod stat;
pub mod poll;
pub mod mmap;
pub mod memlayout;
pub mod fcntl;
pub mod runq;
pub mod semaphore;
pub mod kalloc;
pub mod riscv;
pub mod ipc;
pub mod util;
pub mod virtio_gpu;
pub mod framebuffer;
pub mod console;
pub mod proc;
pub mod vma;
pub mod elf;
pub mod writeback;
pub mod file;
pub mod syscall;
pub mod usys;
pub mod dfs;
pub mod socket;
pub mod task;
pub mod virtio_input;
pub mod aplic;
pub mod imsic;
pub mod trap;
pub mod test;
pub mod virtio_net;
pub mod gateway;
pub mod qemu;
pub mod net;
pub mod web;
