use vstd::prelude::*;

verus! {

/// Maximum number of processes.
pub const NPROC: usize = 64;
/// Maximum number of CPUs.
pub const NCPU: usize = 8;
/// Open files per process.
pub const NOFILE: usize = 16;
/// Open files per system.
pub const NFILE: usize = 100;
/// Maximum major device number.
pub const NDEV: usize = 10;
/// Shared-memory segments per system.
pub const NSHM: usize = 16;
/// Named semaphores per system.
pub const NSEM: usize = 16;
/// Bytes per page.
pub const PGSIZE: usize = 4096;

} // verus!
