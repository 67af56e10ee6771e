use vstd::prelude::*;
use crate::console::{fg_pgrp, session, set_fg_pgrp, Cons};
use crate::error::{Error, Result};
use crate::fcntl::{clear_locks, without_owned, FcntlCmd, Flock, LockTable};
use crate::file::{
    do_fcntl_post, spec_lock_key, spec_poll, spec_read_route, spec_write_route, File, IoRoute, PipeStatus, VFile,
};
use crate::ipc::{
    sem_close, sem_close_post, sem_create, sem_create_post, sem_post, sem_post_post, sem_try_wait,
    sem_try_wait_post, sem_wait, sem_wait_post, shm_attach, shm_attach_post, shm_create, shm_destroy,
    shm_destroy_post, shm_detach, shm_detach_post, shm_npages, spec_shm_npages, first_free, IpcTables,
};
use crate::kalloc::{free_pages, valid_pa, Kmem};
use crate::dfs::{spec_is_remote, spec_link_target, spec_remote_path, DfsCall, DfsOp, DfsReq, DFS_MAGIC};
use crate::poll::{PollFd, NVAL};
use crate::param::{NCPU, NOFILE, NPROC, NSHM, PGSIZE};
use crate::vma::{grow, mmap_post, munmap_post, FileCaps, ProcVm, PG};
use crate::proc::{
    clone_post, first_unused, fork_post, join_post, kill_post, setitimer_post, setpgid_post, setsid_post,
    sigaction_post, sigreturn_post, waitpid_post, first_join_from, first_wait_from, lemma_first_join_from, lemma_first_wait_from, JoinStep, ProcState, Procs, WaitStep,
};
use crate::memlayout::{user_mem_top, PGSIZE_VA, TRAMPOLINE};
use crate::signal::{spec_sig_mask, sig_mask, SIGCONT};

verus! {

/// The slot a scan freed: target `t`, when it held a process before and
/// holds none after.
pub open spec fn freed_slot(o: Procs, n: Procs, t: Option<int>) -> Option<int> {
    match t {
        Some(c) => if o.inner@[c].state != ProcState::UNUSED && n.inner@[c].state == ProcState::UNUSED {
            Some(c)
        } else {
            None
        },
        None => None,
    }
}

/// System call numbers.
#[derive(Clone, Copy, Debug, PartialEq, Eq, Structural)]
pub enum SysCalls {
    Fork,
    Exit,
    Wait,
    Pipe,
    Read,
    Kill,
    Exec,
    Fstat,
    Chdir,
    Dup,
    Getpid,
    Sbrk,
    Sleep,
    Uptime,
    Open,
    Write,
    Mknod,
    Unlink,
    Link,
    Mkdir,
    Close,
    Dup2,
    Fcntl,
    Nonblock,
    Freepages,
    MMap,
    MunMap,
    Clone,
    Join,
    ExtIrqCount,
    KTaskPolls,
    Poll,
    Select,
    Waitpid,
    Sigaction,
    Sigreturn,
    Setitimer,
    ShmCreate,
    ShmAttach,
    ShmDetach,
    ShmDestroy,
    SemCreate,
    SemWait,
    SemTryWait,
    SemPost,
    SemClose,
    Fsync,
    Symlink,
    Socket,
    Bind,
    Listen,
    Accept,
    Connect,
    Setpgid,
    Getpgrp,
    Setsid,
    Tcgetpgrp,
    Tcsetpgrp,
    LogCrash,
    Getnprocs,
    Getnprocsconf,
    Invalid,
}

impl SysCalls {
    pub open spec fn spec_from_usize(n: usize) -> SysCalls {
        if n == 1 {
            SysCalls::Fork
        } else if n == 2 {
            SysCalls::Exit
        } else if n == 3 {
            SysCalls::Wait
        } else if n == 4 {
            SysCalls::Pipe
        } else if n == 5 {
            SysCalls::Read
        } else if n == 6 {
            SysCalls::Kill
        } else if n == 7 {
            SysCalls::Exec
        } else if n == 8 {
            SysCalls::Fstat
        } else if n == 9 {
            SysCalls::Chdir
        } else if n == 10 {
            SysCalls::Dup
        } else if n == 11 {
            SysCalls::Getpid
        } else if n == 12 {
            SysCalls::Sbrk
        } else if n == 13 {
            SysCalls::Sleep
        } else if n == 14 {
            SysCalls::Uptime
        } else if n == 15 {
            SysCalls::Open
        } else if n == 16 {
            SysCalls::Write
        } else if n == 17 {
            SysCalls::Mknod
        } else if n == 18 {
            SysCalls::Unlink
        } else if n == 19 {
            SysCalls::Link
        } else if n == 20 {
            SysCalls::Mkdir
        } else if n == 21 {
            SysCalls::Close
        } else if n == 22 {
            SysCalls::Dup2
        } else if n == 23 {
            SysCalls::Fcntl
        } else if n == 24 {
            SysCalls::Nonblock
        } else if n == 25 {
            SysCalls::Freepages
        } else if n == 26 {
            SysCalls::MMap
        } else if n == 27 {
            SysCalls::MunMap
        } else if n == 28 {
            SysCalls::Clone
        } else if n == 29 {
            SysCalls::Join
        } else if n == 30 {
            SysCalls::ExtIrqCount
        } else if n == 31 {
            SysCalls::KTaskPolls
        } else if n == 32 {
            SysCalls::Poll
        } else if n == 33 {
            SysCalls::Select
        } else if n == 34 {
            SysCalls::Waitpid
        } else if n == 35 {
            SysCalls::Sigaction
        } else if n == 36 {
            SysCalls::Sigreturn
        } else if n == 37 {
            SysCalls::Setitimer
        } else if n == 38 {
            SysCalls::ShmCreate
        } else if n == 39 {
            SysCalls::ShmAttach
        } else if n == 40 {
            SysCalls::ShmDetach
        } else if n == 41 {
            SysCalls::ShmDestroy
        } else if n == 42 {
            SysCalls::SemCreate
        } else if n == 43 {
            SysCalls::SemWait
        } else if n == 44 {
            SysCalls::SemTryWait
        } else if n == 45 {
            SysCalls::SemPost
        } else if n == 46 {
            SysCalls::SemClose
        } else if n == 47 {
            SysCalls::Fsync
        } else if n == 48 {
            SysCalls::Symlink
        } else if n == 49 {
            SysCalls::Socket
        } else if n == 50 {
            SysCalls::Bind
        } else if n == 51 {
            SysCalls::Listen
        } else if n == 52 {
            SysCalls::Accept
        } else if n == 53 {
            SysCalls::Connect
        } else if n == 54 {
            SysCalls::Setpgid
        } else if n == 55 {
            SysCalls::Getpgrp
        } else if n == 56 {
            SysCalls::Setsid
        } else if n == 57 {
            SysCalls::Tcgetpgrp
        } else if n == 58 {
            SysCalls::Tcsetpgrp
        } else if n == 59 {
            SysCalls::LogCrash
        } else if n == 60 {
            SysCalls::Getnprocs
        } else if n == 61 {
            SysCalls::Getnprocsconf
        } else {
            SysCalls::Invalid
        }
    }

    /// The call with number `n`; `Invalid` for an unknown number.
    pub fn from_usize(n: usize) -> (c: SysCalls)
        ensures
            c == Self::spec_from_usize(n),
    {
        match n {
            1 => SysCalls::Fork,
            2 => SysCalls::Exit,
            3 => SysCalls::Wait,
            4 => SysCalls::Pipe,
            5 => SysCalls::Read,
            6 => SysCalls::Kill,
            7 => SysCalls::Exec,
            8 => SysCalls::Fstat,
            9 => SysCalls::Chdir,
            10 => SysCalls::Dup,
            11 => SysCalls::Getpid,
            12 => SysCalls::Sbrk,
            13 => SysCalls::Sleep,
            14 => SysCalls::Uptime,
            15 => SysCalls::Open,
            16 => SysCalls::Write,
            17 => SysCalls::Mknod,
            18 => SysCalls::Unlink,
            19 => SysCalls::Link,
            20 => SysCalls::Mkdir,
            21 => SysCalls::Close,
            22 => SysCalls::Dup2,
            23 => SysCalls::Fcntl,
            24 => SysCalls::Nonblock,
            25 => SysCalls::Freepages,
            26 => SysCalls::MMap,
            27 => SysCalls::MunMap,
            28 => SysCalls::Clone,
            29 => SysCalls::Join,
            30 => SysCalls::ExtIrqCount,
            31 => SysCalls::KTaskPolls,
            32 => SysCalls::Poll,
            33 => SysCalls::Select,
            34 => SysCalls::Waitpid,
            35 => SysCalls::Sigaction,
            36 => SysCalls::Sigreturn,
            37 => SysCalls::Setitimer,
            38 => SysCalls::ShmCreate,
            39 => SysCalls::ShmAttach,
            40 => SysCalls::ShmDetach,
            41 => SysCalls::ShmDestroy,
            42 => SysCalls::SemCreate,
            43 => SysCalls::SemWait,
            44 => SysCalls::SemTryWait,
            45 => SysCalls::SemPost,
            46 => SysCalls::SemClose,
            47 => SysCalls::Fsync,
            48 => SysCalls::Symlink,
            49 => SysCalls::Socket,
            50 => SysCalls::Bind,
            51 => SysCalls::Listen,
            52 => SysCalls::Accept,
            53 => SysCalls::Connect,
            54 => SysCalls::Setpgid,
            55 => SysCalls::Getpgrp,
            56 => SysCalls::Setsid,
            57 => SysCalls::Tcgetpgrp,
            58 => SysCalls::Tcsetpgrp,
            59 => SysCalls::LogCrash,
            60 => SysCalls::Getnprocs,
            61 => SysCalls::Getnprocsconf,
            _ => SysCalls::Invalid,
        }
    }

    /// The call's number.
    pub open spec fn spec_number(self) -> usize {
        match self {
            SysCalls::Fork => 1,
            SysCalls::Exit => 2,
            SysCalls::Wait => 3,
            SysCalls::Pipe => 4,
            SysCalls::Read => 5,
            SysCalls::Kill => 6,
            SysCalls::Exec => 7,
            SysCalls::Fstat => 8,
            SysCalls::Chdir => 9,
            SysCalls::Dup => 10,
            SysCalls::Getpid => 11,
            SysCalls::Sbrk => 12,
            SysCalls::Sleep => 13,
            SysCalls::Uptime => 14,
            SysCalls::Open => 15,
            SysCalls::Write => 16,
            SysCalls::Mknod => 17,
            SysCalls::Unlink => 18,
            SysCalls::Link => 19,
            SysCalls::Mkdir => 20,
            SysCalls::Close => 21,
            SysCalls::Dup2 => 22,
            SysCalls::Fcntl => 23,
            SysCalls::Nonblock => 24,
            SysCalls::Freepages => 25,
            SysCalls::MMap => 26,
            SysCalls::MunMap => 27,
            SysCalls::Clone => 28,
            SysCalls::Join => 29,
            SysCalls::ExtIrqCount => 30,
            SysCalls::KTaskPolls => 31,
            SysCalls::Poll => 32,
            SysCalls::Select => 33,
            SysCalls::Waitpid => 34,
            SysCalls::Sigaction => 35,
            SysCalls::Sigreturn => 36,
            SysCalls::Setitimer => 37,
            SysCalls::ShmCreate => 38,
            SysCalls::ShmAttach => 39,
            SysCalls::ShmDetach => 40,
            SysCalls::ShmDestroy => 41,
            SysCalls::SemCreate => 42,
            SysCalls::SemWait => 43,
            SysCalls::SemTryWait => 44,
            SysCalls::SemPost => 45,
            SysCalls::SemClose => 46,
            SysCalls::Fsync => 47,
            SysCalls::Symlink => 48,
            SysCalls::Socket => 49,
            SysCalls::Bind => 50,
            SysCalls::Listen => 51,
            SysCalls::Accept => 52,
            SysCalls::Connect => 53,
            SysCalls::Setpgid => 54,
            SysCalls::Getpgrp => 55,
            SysCalls::Setsid => 56,
            SysCalls::Tcgetpgrp => 57,
            SysCalls::Tcsetpgrp => 58,
            SysCalls::LogCrash => 59,
            SysCalls::Getnprocs => 60,
            SysCalls::Getnprocsconf => 61,
            SysCalls::Invalid => 0,
        }
    }

    pub fn number(self) -> (n: usize)
        ensures
            n == self.spec_number(),
    {
        match self {
            SysCalls::Fork => 1,
            SysCalls::Exit => 2,
            SysCalls::Wait => 3,
            SysCalls::Pipe => 4,
            SysCalls::Read => 5,
            SysCalls::Kill => 6,
            SysCalls::Exec => 7,
            SysCalls::Fstat => 8,
            SysCalls::Chdir => 9,
            SysCalls::Dup => 10,
            SysCalls::Getpid => 11,
            SysCalls::Sbrk => 12,
            SysCalls::Sleep => 13,
            SysCalls::Uptime => 14,
            SysCalls::Open => 15,
            SysCalls::Write => 16,
            SysCalls::Mknod => 17,
            SysCalls::Unlink => 18,
            SysCalls::Link => 19,
            SysCalls::Mkdir => 20,
            SysCalls::Close => 21,
            SysCalls::Dup2 => 22,
            SysCalls::Fcntl => 23,
            SysCalls::Nonblock => 24,
            SysCalls::Freepages => 25,
            SysCalls::MMap => 26,
            SysCalls::MunMap => 27,
            SysCalls::Clone => 28,
            SysCalls::Join => 29,
            SysCalls::ExtIrqCount => 30,
            SysCalls::KTaskPolls => 31,
            SysCalls::Poll => 32,
            SysCalls::Select => 33,
            SysCalls::Waitpid => 34,
            SysCalls::Sigaction => 35,
            SysCalls::Sigreturn => 36,
            SysCalls::Setitimer => 37,
            SysCalls::ShmCreate => 38,
            SysCalls::ShmAttach => 39,
            SysCalls::ShmDetach => 40,
            SysCalls::ShmDestroy => 41,
            SysCalls::SemCreate => 42,
            SysCalls::SemWait => 43,
            SysCalls::SemTryWait => 44,
            SysCalls::SemPost => 45,
            SysCalls::SemClose => 46,
            SysCalls::Fsync => 47,
            SysCalls::Symlink => 48,
            SysCalls::Socket => 49,
            SysCalls::Bind => 50,
            SysCalls::Listen => 51,
            SysCalls::Accept => 52,
            SysCalls::Connect => 53,
            SysCalls::Setpgid => 54,
            SysCalls::Getpgrp => 55,
            SysCalls::Setsid => 56,
            SysCalls::Tcgetpgrp => 57,
            SysCalls::Tcsetpgrp => 58,
            SysCalls::LogCrash => 59,
            SysCalls::Getnprocs => 60,
            SysCalls::Getnprocsconf => 61,
            SysCalls::Invalid => 0,
        }
    }
}

/// A call's number names it again.
pub proof fn law_number_roundtrip(c: SysCalls)
    ensures
        SysCalls::spec_from_usize(c.spec_number()) == c,
{
}


/// The kernel state that system calls read and change: the process table,
/// each slot's address space (`aspace[i]` is the slot owning slot `i`'s
/// address space; threads share their creator's), heap sizes and open
/// files, the IPC tables, page counts, file locks, the console, and the
/// clock and counters; `cur` is the calling slot, running on `cpu`, and
/// `init` the first process.
pub struct Kernel {
    pub procs: Procs,
    pub vms: Vec<ProcVm>,
    pub aspace: Vec<usize>,
    pub sizes: Vec<u64>,
    pub ofiles: Vec<Vec<Option<File>>>,
    /// Each slot's current directory: the inode the file system gave for
    /// it, none once released.
    pub cwds: Vec<Option<usize>>,
    pub ipc: IpcTables,
    pub kmem: Kmem,
    pub locks: LockTable,
    pub cons: Cons,
    pub ticks: usize,
    pub ext_irqs: usize,
    pub task_polls: usize,
    pub free_bytes: usize,
    pub init: usize,
    pub cur: usize,
    pub cpu: usize,
    /// Where a new process's kernel context returns to first.
    pub fork_ret: usize,
}

impl Kernel {
    pub open spec fn wf(&self) -> bool {
        &&& self.procs.wf()
        &&& self.vms@.len() == NPROC
        &&& forall|i: int| 0 <= i < NPROC ==> (#[trigger] self.vms@[i]).wf()
        &&& self.aspace@.len() == NPROC
        &&& forall|i: int| 0 <= i < NPROC ==> #[trigger] self.aspace@[i] < NPROC
        &&& self.sizes@.len() == NPROC
        &&& forall|i: int| 0 <= i < NPROC ==> #[trigger] self.sizes@[i] + PG - 1 <= u64::MAX
        &&& self.ofiles@.len() == NPROC
        &&& self.cwds@.len() == NPROC
        &&& forall|i: int| 0 <= i < NPROC ==> (#[trigger] self.ofiles@[i])@.len() == NOFILE
        &&& forall|i: int, j: int|
            0 <= i < NPROC && 0 <= j < NOFILE && #[trigger] self.ofiles@[i]@[j] is Some ==> self.ofiles@[i]@[j]->0.f is Some
        &&& self.ipc.wf()
        &&& self.kmem.wf()
        &&& self.cons.wf()
        &&& self.cur < NPROC && self.cpu < NCPU && self.init < NPROC
    }

    /// Argument register `n` (a0 to a5) of the calling process.
    pub open spec fn arg(&self, n: int) -> usize {
        let tf = self.procs.data@[self.cur as int].trapframe;
        if n == 0 {
            tf.a0
        } else if n == 1 {
            tf.a1
        } else if n == 2 {
            tf.a2
        } else if n == 3 {
            tf.a3
        } else if n == 4 {
            tf.a4
        } else {
            tf.a5
        }
    }

    /// The calling process's open file `fd`.
    pub open spec fn spec_fd(&self, fd: usize) -> Result<File> {
        if fd >= NOFILE {
            Err(Error::FileDescriptorTooLarge)
        } else {
            match self.ofiles@[self.cur as int]@[fd as int] {
                Some(f) => Ok(f),
                None => Err(Error::BadFileDescriptor),
            }
        }
    }

    /// Everything but the process table, the mappings, the sizes and the
    /// address spaces is as in `o`; slot `f`, when there is one, was freed
    /// and has no mappings, size zero and an address space of its own,
    /// and every other slot keeps its own.
    pub open spec fn reset_freed(&self, o: &Kernel, f: Option<int>) -> bool {
        &&& self.ofiles == o.ofiles && self.cwds == o.cwds && self.ipc == o.ipc && self.kmem == o.kmem
        &&& self.locks == o.locks && self.cons == o.cons && self.ticks == o.ticks && self.ext_irqs == o.ext_irqs
        &&& self.task_polls == o.task_polls && self.free_bytes == o.free_bytes && self.init == o.init
        &&& self.cur == o.cur && self.cpu == o.cpu && self.fork_ret == o.fork_ret
        &&& self.vms@.len() == NPROC && self.sizes@.len() == NPROC && self.aspace@.len() == NPROC
        &&& forall|j: int|
            0 <= j < NPROC ==> if f == Some(j) {
                &&& (#[trigger] self.vms@[j]).vmas@.len() == 0
                &&& self.vms@[j].mmap_base == TRAMPOLINE - NPROC * PGSIZE_VA
                &&& self.sizes@[j] == 0 && self.aspace@[j] == j
            } else {
                self.vms@[j] == o.vms@[j] && self.sizes@[j] == o.sizes@[j] && self.aspace@[j] == o.aspace@[j]
            }
    }

    /// Clears the mappings, the size and the address space of freed slot
    /// `c`.
    fn clear_slot(&mut self, c: usize)
        requires
            old(self).wf(),
            c < NPROC,
        ensures
            final(self).wf(),
            final(self).procs == old(self).procs,
            final(self).reset_freed(old(self), Some(c as int)),
    {
        let top = user_mem_top(NPROC as u64);
        assert(top % PG == 0);
        let vm = ProcVm::new(top);
        self.vms.set(c, vm);
        self.sizes.set(c, 0);
        self.aspace.set(c, c);
    }

    /// Everything but the process table is as in `o`.
    pub open spec fn same_but_procs(&self, o: &Kernel) -> bool {
        &&& self.vms == o.vms && self.aspace == o.aspace && self.sizes == o.sizes && self.ofiles == o.ofiles
        &&& self.cwds == o.cwds && self.ipc == o.ipc && self.kmem == o.kmem && self.locks == o.locks && self.cons == o.cons
        &&& self.ticks == o.ticks && self.ext_irqs == o.ext_irqs && self.task_polls == o.task_polls
        &&& self.free_bytes == o.free_bytes && self.init == o.init && self.cur == o.cur && self.cpu == o.cpu
        &&& self.fork_ret == o.fork_ret
    }

    /// Everything but the IPC tables is as in `o`.
    pub open spec fn same_but_ipc(&self, o: &Kernel) -> bool {
        &&& self.procs == o.procs
        &&& self.vms == o.vms && self.aspace == o.aspace && self.sizes == o.sizes && self.ofiles == o.ofiles
        &&& self.cwds == o.cwds && self.kmem == o.kmem && self.locks == o.locks && self.cons == o.cons
        &&& self.ticks == o.ticks && self.ext_irqs == o.ext_irqs && self.task_polls == o.task_polls
        &&& self.free_bytes == o.free_bytes && self.init == o.init && self.cur == o.cur && self.cpu == o.cpu
        &&& self.fork_ret == o.fork_ret
    }

    /// Argument register `n` of the calling process.
    pub fn argraw(&self, n: usize) -> (v: usize)
        requires
            self.wf(),
            n < 6,
        ensures
            v == self.arg(n as int),
    {
        let tf = &self.procs.data[self.cur].trapframe;
        if n == 0 {
            tf.a0
        } else if n == 1 {
            tf.a1
        } else if n == 2 {
            tf.a2
        } else if n == 3 {
            tf.a3
        } else if n == 4 {
            tf.a4
        } else {
            tf.a5
        }
    }

    /// The calling process's open file `fd`.
    pub fn fd_file(&self, fd: usize) -> (r: Result<File>)
        requires
            self.wf(),
        ensures
            r == self.spec_fd(fd),
    {
        if fd >= NOFILE {
            return Err(Error::FileDescriptorTooLarge);
        }
        match self.ofiles[self.cur][fd] {
            Some(f) => Ok(f),
            None => Err(Error::BadFileDescriptor),
        }
    }
}

impl SysCalls {
    /// The pid of the caller.
    pub fn getpid(k: &mut Kernel) -> (r: Result<usize>)
        requires
            old(k).wf(),
        ensures
            *final(k) == *old(k),
            r == Ok::<usize, Error>(old(k).procs.inner@[old(k).cur as int].pid.0),
    {
        Ok(k.procs.pid(k.cur))
    }

    /// Sends signal a1 to process a0 (not 0).
    pub fn kill(k: &mut Kernel) -> (r: Result<()>)
        requires
            old(k).wf(),
        ensures
            final(k).wf(),
            final(k).same_but_procs(old(k)),
            old(k).arg(0) == 0 ==> r == Err::<(), Error>(Error::PermissionDenied) && final(k).procs == old(k).procs,
            old(k).arg(0) != 0 ==> kill_post(old(k).procs, final(k).procs, old(k).arg(0), old(k).arg(1), old(k).cpu, r),
    {
        let pid = k.argraw(0);
        let sig = k.argraw(1);
        if pid == 0 {
            return Err(Error::PermissionDenied);
        }
        let cpu = k.cpu;
        k.procs.kill(pid, sig, cpu)
    }

    /// Installs handler a1 (with restorer a2) for signal a0.
    pub fn sigaction(k: &mut Kernel) -> (r: Result<usize>)
        requires
            old(k).wf(),
        ensures
            final(k).wf(),
            final(k).same_but_procs(old(k)),
            sigaction_post(old(k).procs, final(k).procs, old(k).cur, old(k).arg(0), old(k).arg(1), old(k).arg(2), r),
    {
        let sig = k.argraw(0);
        let handler = k.argraw(1);
        let restorer = k.argraw(2);
        let cur = k.cur;
        k.procs.sigaction(cur, sig, handler, restorer)
    }

    /// Returns from a signal handler.
    pub fn sigreturn(k: &mut Kernel) -> (r: Result<()>)
        requires
            old(k).wf(),
        ensures
            final(k).wf(),
            final(k).same_but_procs(old(k)),
            sigreturn_post(old(k).procs, final(k).procs, old(k).cur, r),
    {
        let cur = k.cur;
        k.procs.sigreturn(cur)
    }

    /// Arms the caller's alarm: first after a0 ticks, then every a1.
    pub fn setitimer(k: &mut Kernel) -> (r: Result<usize>)
        requires
            old(k).wf(),
        ensures
            final(k).wf(),
            final(k).same_but_procs(old(k)),
            setitimer_post(old(k).procs, final(k).procs, old(k).cur, old(k).ticks, old(k).arg(0), old(k).arg(1), r),
    {
        let initial = k.argraw(0);
        let interval = k.argraw(1);
        let cur = k.cur;
        let now = k.ticks;
        k.procs.setitimer(cur, now, initial, interval)
    }

    /// Moves process a0 into group a1.
    pub fn setpgid(k: &mut Kernel) -> (r: Result<()>)
        requires
            old(k).wf(),
        ensures
            final(k).wf(),
            final(k).same_but_procs(old(k)),
            setpgid_post(old(k).procs, final(k).procs, old(k).cur, old(k).arg(0), old(k).arg(1), r),
    {
        let pid = k.argraw(0);
        let pgid = k.argraw(1);
        let cur = k.cur;
        k.procs.setpgid(cur, pid, pgid)
    }

    /// The caller's process group.
    pub fn getpgrp(k: &mut Kernel) -> (r: Result<usize>)
        requires
            old(k).wf(),
        ensures
            *final(k) == *old(k),
            r == Ok::<usize, Error>(old(k).procs.inner@[old(k).cur as int].pgid),
    {
        let cur = k.cur;
        k.procs.getpgrp(cur)
    }

    /// Starts a new session led by the caller.
    pub fn setsid(k: &mut Kernel) -> (r: Result<usize>)
        requires
            old(k).wf(),
        ensures
            final(k).wf(),
            final(k).same_but_procs(old(k)),
            setsid_post(old(k).procs, final(k).procs, old(k).cur, r),
    {
        let cur = k.cur;
        k.procs.setsid(cur)
    }

    /// One scan of `wait`: any child, no options. `copy_ok` says whether
    /// the status can be written to a0.
    pub fn wait(k: &mut Kernel, copy_ok: bool) -> (r: Result<WaitStep>)
        requires
            old(k).wf(),
        ensures
            final(k).wf(),
            final(k).reset_freed(
                old(k),
                freed_slot(old(k).procs, final(k).procs, first_wait_from(old(k).procs, old(k).cur, -1isize, 0usize, 0)),
            ),
            waitpid_post(old(k).procs, final(k).procs, old(k).cur, -1isize, 0usize, copy_ok, r),
    {
        Self::wait_for(k, -1, 0, copy_ok)
    }

    /// One scan of waiting for `pid` under `options`; the mappings of a
    /// child collected go with it.
    fn wait_for(k: &mut Kernel, pid: isize, options: usize, copy_ok: bool) -> (r: Result<WaitStep>)
        requires
            old(k).wf(),
        ensures
            final(k).wf(),
            final(k).reset_freed(
                old(k),
                if pid >= -1 {
                    freed_slot(old(k).procs, final(k).procs, first_wait_from(old(k).procs, old(k).cur, pid, options, 0))
                } else {
                    None
                },
            ),
            waitpid_post(old(k).procs, final(k).procs, old(k).cur, pid, options, copy_ok, r),
    {
        let cur = k.cur;
        if pid < -1 {
            let r = k.procs.waitpid(cur, pid, options, copy_ok);
            return r;
        }
        proof {
            lemma_first_wait_from(k.procs, cur, pid, options, 0);
        }
        let target = k.procs.wait_target(cur, pid, options);
        let live = match target {
            Some(c) => k.procs.inner[c].state != ProcState::UNUSED,
            None => false,
        };
        let r = k.procs.waitpid(cur, pid, options, copy_ok);
        match target {
            Some(c) => {
                if live && k.procs.inner[c].state == ProcState::UNUSED {
                    k.clear_slot(c);
                }
            },
            None => {},
        }
        r
    }

    /// One scan of `waitpid(a0, a1, a2)`.
    pub fn waitpid(k: &mut Kernel, copy_ok: bool) -> (r: Result<WaitStep>)
        requires
            old(k).wf(),
        ensures
            final(k).wf(),
            final(k).reset_freed(
                old(k),
                if old(k).arg(0) as isize >= -1 {
                    freed_slot(
                        old(k).procs,
                        final(k).procs,
                        first_wait_from(old(k).procs, old(k).cur, old(k).arg(0) as isize, old(k).arg(2), 0),
                    )
                } else {
                    None
                },
            ),
            waitpid_post(old(k).procs, final(k).procs, old(k).cur, old(k).arg(0) as isize, old(k).arg(2), copy_ok, r),
    {
        let pid = k.argraw(0) as isize;
        let options = k.argraw(2);
        Self::wait_for(k, pid, options, copy_ok)
    }

    /// One scan of `join(a0)`.
    #[verifier::spinoff_prover]
    pub fn join(k: &mut Kernel, copy_ok: bool) -> (r: Result<JoinStep>)
        requires
            old(k).wf(),
        ensures
            final(k).wf(),
            final(k).reset_freed(old(k), freed_slot(old(k).procs, final(k).procs, first_join_from(old(k).procs, old(k).cur, 0))),
            join_post(old(k).procs, final(k).procs, old(k).cur, copy_ok, r),
    {
        let cur = k.cur;
        proof {
            lemma_first_join_from(k.procs, cur, 0);
        }
        let target = k.procs.join_target(cur);
        let live = match target {
            Some(c) => k.procs.inner[c].state != ProcState::UNUSED,
            None => false,
        };
        let r = k.procs.join(cur, copy_ok);
        match target {
            Some(c) => {
                if live && k.procs.inner[c].state == ProcState::UNUSED {
                    k.clear_slot(c);
                }
            },
            None => {},
        }
        r
    }

    /// One pass of `sleep(a0)` begun at tick `ticks0`: done once a0 ticks
    /// have passed; interrupted when the caller was killed or has a pending
    /// signal other than SIGCONT; otherwise sleep on the clock.
    pub fn sleep(k: &mut Kernel, ticks0: usize) -> (r: Result<bool>)
        requires
            old(k).wf(),
            ticks0 <= old(k).ticks,
        ensures
            *final(k) == *old(k),
            ({
                let me = old(k).procs.inner@[old(k).cur as int];
                if old(k).ticks - ticks0 >= old(k).arg(0) {
                    r == Ok::<bool, Error>(true)
                } else if me.killed || me.sig_pending & !spec_sig_mask(SIGCONT) != 0 {
                    r == Err::<bool, Error>(Error::Interrupted)
                } else {
                    r == Ok::<bool, Error>(false)
                }
            }),
    {
        let n = k.argraw(0);
        if k.ticks - ticks0 >= n {
            return Ok(true);
        }
        let me = k.procs.inner[k.cur];
        if me.killed {
            return Err(Error::Interrupted);
        }
        let pending = me.sig_pending & !sig_mask(SIGCONT);
        if pending != 0 {
            return Err(Error::Interrupted);
        }
        Ok(false)
    }

    /// Clock ticks since boot.
    pub fn uptime(k: &mut Kernel) -> (r: Result<usize>)
        ensures
            *final(k) == *old(k),
            r == Ok::<usize, Error>(old(k).ticks),
    {
        Ok(k.ticks)
    }

    /// Free physical pages.
    pub fn freepages(k: &mut Kernel) -> (r: Result<usize>)
        ensures
            *final(k) == *old(k),
            r == Ok::<usize, Error>(old(k).free_bytes / PGSIZE),
    {
        Ok(free_pages(k.free_bytes))
    }

    /// External interrupts taken.
    pub fn ext_irq_count(k: &mut Kernel) -> (r: Result<usize>)
        ensures
            *final(k) == *old(k),
            r == Ok::<usize, Error>(old(k).ext_irqs),
    {
        Ok(k.ext_irqs)
    }

    /// Kernel task polls made.
    pub fn ktaskpolls(k: &mut Kernel) -> (r: Result<usize>)
        ensures
            *final(k) == *old(k),
            r == Ok::<usize, Error>(old(k).task_polls),
    {
        Ok(k.task_polls)
    }

    /// Processors online.
    pub fn getnprocs(k: &mut Kernel) -> (r: Result<usize>)
        ensures
            *final(k) == *old(k),
            r == Ok::<usize, Error>(NCPU),
    {
        Ok(NCPU)
    }

    /// Processors configured.
    pub fn getnprocsconf(k: &mut Kernel) -> (r: Result<usize>)
        ensures
            *final(k) == *old(k),
            r == Ok::<usize, Error>(NCPU),
    {
        Ok(NCPU)
    }

    /// Creates a semaphore with a0 units.
    pub fn semcreate(k: &mut Kernel) -> (r: Result<usize>)
        requires
            old(k).wf(),
        ensures
            final(k).wf(),
            final(k).same_but_ipc(old(k)),
            sem_create_post(old(k).ipc, final(k).ipc, old(k).arg(0), r),
    {
        let value = k.argraw(0);
        sem_create(&mut k.ipc, value)
    }

    /// One attempt at waiting on semaphore a0.
    pub fn semwait(k: &mut Kernel) -> (r: Result<bool>)
        requires
            old(k).wf(),
        ensures
            final(k).wf(),
            final(k).same_but_ipc(old(k)),
            sem_wait_post(old(k).ipc, final(k).ipc, old(k).arg(0), old(k).procs.inner@[old(k).cur as int].killed, r),
    {
        let id = k.argraw(0);
        let killed = k.procs.inner[k.cur].killed;
        sem_wait(&mut k.ipc, id, killed)
    }

    /// Takes a unit of semaphore a0 if one is there.
    pub fn semtrywait(k: &mut Kernel) -> (r: Result<usize>)
        requires
            old(k).wf(),
        ensures
            final(k).wf(),
            final(k).same_but_ipc(old(k)),
            sem_try_wait_post(old(k).ipc, final(k).ipc, old(k).arg(0), r),
    {
        let id = k.argraw(0);
        sem_try_wait(&mut k.ipc, id)
    }

    /// Returns a unit to semaphore a0.
    pub fn sempost(k: &mut Kernel) -> (r: Result<()>)
        requires
            old(k).wf(),
        ensures
            final(k).wf(),
            final(k).same_but_ipc(old(k)),
            sem_post_post(old(k).ipc, final(k).ipc, old(k).arg(0), r),
    {
        let id = k.argraw(0);
        sem_post(&mut k.ipc, id)
    }

    /// Closes semaphore a0.
    pub fn semclose(k: &mut Kernel) -> (r: Result<()>)
        requires
            old(k).wf(),
        ensures
            final(k).wf(),
            final(k).same_but_ipc(old(k)),
            sem_close_post(old(k).ipc, final(k).ipc, old(k).arg(0), r),
    {
        let id = k.argraw(0);
        sem_close(&mut k.ipc, id)
    }

    /// Creates a shared segment of a0 bytes and returns its id. `pages`
    /// is what allocating its zeroed pages gave: `None` when memory ran
    /// out.
    pub fn shmcreate(k: &mut Kernel, pages: Option<Vec<usize>>) -> (r: Result<usize>)
        requires
            old(k).wf(),
            spec_shm_npages(old(k).arg(0)) is Some ==> (pages matches Some(p) ==> {
                &&& spec_shm_npages(old(k).arg(0)) == Some(p@.len() as int)
                &&& forall|i: int| 0 <= i < p@.len() ==> valid_pa(#[trigger] p@[i])
                &&& forall|i: int, j: int| 0 <= i < j < p@.len() ==> p@[i] != p@[j]
                &&& forall|i: int| 0 <= i < p@.len() ==> old(k).kmem.count(#[trigger] p@[i]) == 0
            }),
        ensures
            final(k).wf(),
            *final(k) == (Kernel { ipc: final(k).ipc, kmem: final(k).kmem, ..*old(k) }),
            final(k).ipc.sem@ == old(k).ipc.sem@,
            spec_shm_npages(old(k).arg(0)) is None ==> r == Err::<usize, Error>(Error::InvalidArgument)
                && *final(k) == *old(k),
            spec_shm_npages(old(k).arg(0)) is Some && pages is None ==> r == Err::<usize, Error>(Error::OutOfMemory)
                && *final(k) == *old(k),
            spec_shm_npages(old(k).arg(0)) is Some ==> (pages matches Some(p) ==> match first_free(old(k).ipc.shm@) {
                Some(i) => r == Ok::<usize, Error>((i + 1) as usize)
                    && (final(k).ipc.shm@[i] matches Some(sg) && sg.size == old(k).arg(0) && sg.pages@ == p@)
                    && (forall|j: int| 0 <= j < NSHM && j != i ==> #[trigger] final(k).ipc.shm@[j] == old(k).ipc.shm@[j])
                    && forall|x: int| 0 <= x < p@.len() ==> final(k).kmem.count(#[trigger] p@[x]) == 1,
                None => r == Err::<usize, Error>(Error::NoBufferSpace) && final(k).ipc.shm@ == old(k).ipc.shm@
                    && forall|x: int| 0 <= x < p@.len() ==> final(k).kmem.count(#[trigger] p@[x]) == 0,
            }),
    {
        let size = k.argraw(0);
        match shm_npages(size) {
            Err(e) => {
                return Err(e);
            },
            Ok(_) => {},
        }
        match pages {
            None => Err(Error::OutOfMemory),
            Some(p) => shm_create(&mut k.ipc, &mut k.kmem, size, p),
        }
    }

    /// Attaches shared segment a0 with protection a1 below the caller's
    /// mapping area; returns its address. `map_fail` is the page whose
    /// mapping failed for want of memory, if one did.
    pub fn shmattach(k: &mut Kernel, map_fail: Option<usize>) -> (r: Result<u64>)
        requires
            old(k).wf(),
            forall|i: int|
                0 <= i < NSHM && old(k).ipc.shm@[i] is Some ==> {
                    let seg = (#[trigger] old(k).ipc.shm@[i]).unwrap();
                    &&& seg.size + PG - 1 <= u64::MAX
                    &&& forall|j: int| 0 <= j < seg.pages@.len() ==> valid_pa(#[trigger] seg.pages@[j])
                    &&& forall|j: int|
                        0 <= j < seg.pages@.len() ==> old(k).kmem.count(#[trigger] seg.pages@[j]) + seg.pages@.len()
                            <= u16::MAX
                },
        ensures
            final(k).wf(),
            *final(k) == (Kernel { vms: final(k).vms, kmem: final(k).kmem, ..*old(k) }),
            ({
                let a = old(k).aspace@[old(k).cur as int];
                &&& final(k).vms@.len() == NPROC
                &&& forall|j: int| 0 <= j < NPROC && j != a ==> #[trigger] final(k).vms@[j] == old(k).vms@[j]
                &&& shm_attach_post(
                    old(k).ipc,
                    old(k).vms@[a as int],
                    final(k).vms@[a as int],
                    old(k).kmem,
                    final(k).kmem,
                    old(k).sizes@[a as int],
                    old(k).arg(0),
                    old(k).arg(1),
                    map_fail,
                    r,
                )
            }),
    {
        let a = k.aspace[k.cur];
        let id = k.argraw(0);
        let prot = k.argraw(1);
        let sz = k.sizes[a];
        proof {
            assert(k.vms@[a as int].wf());
        }
        let r = shm_attach(&k.ipc, &mut k.vms[a], &mut k.kmem, sz, id, prot, map_fail);
        proof {
            assert forall|x: int| 0 <= x < NPROC implies (#[trigger] k.vms@[x]).wf() by {
                if x != a {
                    assert(k.vms@[x] == old(k).vms@[x]);
                }
            }
        }
        r
    }

    /// Detaches the shared segment mapped at a0 in the caller's address
    /// space; returns the ranges whose pages are to be unmapped.
    pub fn shmdetach(k: &mut Kernel) -> (r: Result<Vec<(u64, u64)>>)
        requires
            old(k).wf(),
            crate::vma::offsets_fit(old(k).vms@[old(k).aspace@[old(k).cur as int] as int].vmas@),
            2 * old(k).vms@[old(k).aspace@[old(k).cur as int] as int].vmas@.len() + 2 < usize::MAX,
        ensures
            final(k).wf(),
            *final(k) == (Kernel { vms: final(k).vms, ..*old(k) }),
            ({
                let a = old(k).aspace@[old(k).cur as int];
                &&& final(k).vms@.len() == NPROC
                &&& forall|j: int| 0 <= j < NPROC && j != a ==> #[trigger] final(k).vms@[j] == old(k).vms@[j]
                &&& shm_detach_post(old(k).vms@[a as int], final(k).vms@[a as int], old(k).arg(0) as u64, r)
            }),
    {
        let a = k.aspace[k.cur];
        let addr = k.argraw(0) as u64;
        proof {
            assert(k.vms@[a as int].wf());
        }
        let r = shm_detach(&mut k.vms[a], addr);
        proof {
            assert forall|x: int| 0 <= x < NPROC implies (#[trigger] k.vms@[x]).wf() by {
                if x != a {
                    assert(k.vms@[x] == old(k).vms@[x]);
                }
            }
        }
        r
    }

    /// Removes shared segment a0.
    pub fn shmdestroy(k: &mut Kernel) -> (r: Result<()>)
        requires
            old(k).wf(),
        ensures
            final(k).wf(),
            final(k).same_but_ipc(old(k)),
            exists|d: Result<crate::ipc::ShmSegment>| #[trigger] shm_destroy_post(old(k).ipc, final(k).ipc, old(k).arg(0), d)
                && (d is Ok <==> r is Ok) && (d is Err ==> r == Err::<(), Error>(d->Err_0)),
    {
        let id = k.argraw(0);
        let d = shm_destroy(&mut k.ipc, id);
        assert(shm_destroy_post(old(k).ipc, k.ipc, old(k).arg(0), d));
        match d {
            Ok(_) => Ok(()),
            Err(e) => Err(e),
        }
    }
}

/// `n` is `o` with slot `cur`'s descriptor table replaced by `v`.
pub open spec fn files_updated(o: Seq<Vec<Option<File>>>, n: Seq<Vec<Option<File>>>, cur: int, v: Seq<Option<File>>) -> bool {
    &&& n.len() == o.len()
    &&& n[cur]@ == v
    &&& forall|j: int| 0 <= j < o.len() && j != cur ==> #[trigger] n[j] == o[j]
}

/// A copy of a table of open files.
pub fn copy_files(v: &Vec<Option<File>>) -> (r: Vec<Option<File>>)
    ensures
        r@ == v@,
{
    let mut r: Vec<Option<File>> = Vec::new();
    let mut i: usize = 0;
    while i < v.len()
        invariant
            0 <= i <= v@.len(),
            r@ == v@.subrange(0, i as int),
        decreases v@.len() - i,
    {
        r.push(v[i]);
        i = i + 1;
        assert(r@ =~= v@.subrange(0, i as int));
    }
    assert(v@.subrange(0, v@.len() as int) =~= v@);
    r
}

/// A copy of an address space's mappings.
pub fn copy_vm(v: &ProcVm) -> (r: ProcVm)
    ensures
        r.mmap_base == v.mmap_base,
        r.vmas@ == v.vmas@,
{
    let mut vmas: Vec<crate::vma::Vma> = Vec::new();
    let mut i: usize = 0;
    while i < v.vmas.len()
        invariant
            0 <= i <= v.vmas@.len(),
            vmas@ == v.vmas@.subrange(0, i as int),
        decreases v.vmas@.len() - i,
    {
        vmas.push(v.vmas[i]);
        i = i + 1;
        assert(vmas@ =~= v.vmas@.subrange(0, i as int));
    }
    assert(v.vmas@.subrange(0, v.vmas@.len() as int) =~= v.vmas@);
    ProcVm { mmap_base: v.mmap_base, vmas }
}

/// The first free descriptor of `s`, from `k` on.
pub open spec fn first_free_fd_from(s: Seq<Option<File>>, k: int) -> Option<int>
    decreases s.len() - k,
{
    if k < 0 || k >= s.len() {
        None
    } else if s[k] is None {
        Some(k)
    } else {
        first_free_fd_from(s, k + 1)
    }
}

pub proof fn lemma_first_free_fd_from(s: Seq<Option<File>>, k: int)
    requires
        0 <= k,
    ensures
        first_free_fd_from(s, k) matches Some(i) ==> k <= i < s.len() && s[i] is None,
    decreases s.len() - k,
{
    if k < s.len() && s[k] is Some {
        lemma_first_free_fd_from(s, k + 1);
    }
}

impl Kernel {
    /// Installs `f` in the caller's first free descriptor.
    pub fn fdalloc(&mut self, f: File) -> (r: Result<usize>)
        requires
            old(self).wf(),
            f.f is Some,
        ensures
            final(self).wf(),
            *final(self) == (Kernel { ofiles: final(self).ofiles, ..*old(self) }),
            match first_free_fd_from(old(self).ofiles@[old(self).cur as int]@, 0) {
                None => r == Err::<usize, Error>(Error::FileDescriptorTooLarge) && *final(self) == *old(self),
                Some(i) => r == Ok::<usize, Error>(i as usize) && files_updated(old(self).ofiles@, final(self).ofiles@, old(self).cur as int, old(self).ofiles@[old(self).cur as int]@.update(i, Some(f))),
            },
    {
        let cur = self.cur;
        proof {
            lemma_first_free_fd_from(self.ofiles@[cur as int]@, 0);
        }
        let mut i: usize = 0;
        while i < NOFILE
            invariant
                *self == *old(self),
                self.wf(),
                cur == self.cur,
                f.f is Some,
                0 <= i <= NOFILE,
                first_free_fd_from(self.ofiles@[cur as int]@, 0) == first_free_fd_from(self.ofiles@[cur as int]@, i as int),
            decreases NOFILE - i,
        {
            if self.ofiles[cur][i].is_none() {
                let mut files = copy_files(&self.ofiles[cur]);
                files.set(i, Some(f));
                self.ofiles.set(cur, files);
                proof {
                    assert forall|a: int, b: int|
                        0 <= a < NPROC && 0 <= b < NOFILE && #[trigger] self.ofiles@[a]@[b] is Some implies self.ofiles@[a]@[b]->0.f is Some by {
                        if a != cur || b != i {
                            assert(old(self).ofiles@[a]@[b] == self.ofiles@[a]@[b]);
                        }
                    }
                }
                return Ok(i);
            }
            i = i + 1;
        }
        Err(Error::FileDescriptorTooLarge)
    }

    /// Replaces the caller's descriptor table.
    fn set_files(&mut self, files: Vec<Option<File>>)
        requires
            old(self).wf(),
            files@.len() == NOFILE,
            forall|j: int| 0 <= j < NOFILE && #[trigger] files@[j] is Some ==> files@[j]->0.f is Some,
        ensures
            final(self).wf(),
            *final(self) == (Kernel { ofiles: final(self).ofiles, ..*old(self) }),
            files_updated(old(self).ofiles@, final(self).ofiles@, old(self).cur as int, files@),
    {
        let cur = self.cur;
        let ghost fv = files@;
        self.ofiles.set(cur, files);
        proof {
            assert forall|a: int, b: int|
                0 <= a < NPROC && 0 <= b < NOFILE && #[trigger] self.ofiles@[a]@[b] is Some implies self.ofiles@[a]@[b]->0.f is Some by {
                if a != cur {
                    assert(old(self).ofiles@[a]@[b] == self.ofiles@[a]@[b]);
                } else {
                    assert(self.ofiles@[a]@ == fv);
                }
            }
            assert(files_updated(old(self).ofiles@, self.ofiles@, cur as int, fv));
        }
    }
}

impl SysCalls {
    /// A new descriptor for the same open file as a0.
    pub fn dup(k: &mut Kernel) -> (r: Result<usize>)
        requires
            old(k).wf(),
        ensures
            final(k).wf(),
            final(k).procs == old(k).procs && final(k).locks == old(k).locks,
            old(k).spec_fd(old(k).arg(0)) is Err ==> r == Err::<usize, Error>(old(k).spec_fd(old(k).arg(0))->Err_0)
                && *final(k) == *old(k),
            old(k).spec_fd(old(k).arg(0)) matches Ok(f) ==> match first_free_fd_from(old(k).ofiles@[old(k).cur as int]@, 0) {
                None => r == Err::<usize, Error>(Error::FileDescriptorTooLarge) && *final(k) == *old(k),
                Some(i) => r == Ok::<usize, Error>(i as usize) && files_updated(old(k).ofiles@, final(k).ofiles@, old(k).cur as int, old(k).ofiles@[old(k).cur as int]@.update(i, Some(f))),
            },
    {
        let fd = k.argraw(0);
        let f = match k.fd_file(fd) {
            Ok(f) => f,
            Err(e) => { return Err(e); },
        };
        k.fdalloc(f)
    }

    /// Makes descriptor a1 refer to the open file of a0 (without
    /// close-on-exec); nothing to do when they are the same.
    pub fn dup2(k: &mut Kernel) -> (r: Result<usize>)
        requires
            old(k).wf(),
        ensures
            final(k).wf(),
            final(k).procs == old(k).procs && final(k).locks == old(k).locks,
            ({
                let src = old(k).arg(0);
                let dst = old(k).arg(1);
                if src == dst {
                    r == Ok::<usize, Error>(dst) && *final(k) == *old(k)
                } else if old(k).spec_fd(src) is Err {
                    r == Err::<usize, Error>(old(k).spec_fd(src)->Err_0) && *final(k) == *old(k)
                } else if dst >= NOFILE {
                    r == Err::<usize, Error>(Error::FileDescriptorTooLarge) && *final(k) == *old(k)
                } else {
                    r == Ok::<usize, Error>(dst) && files_updated(old(k).ofiles@, final(k).ofiles@, old(k).cur as int, old(k).ofiles@[old(k).cur as int]@.update(
                            dst as int,
                            Some(File { cloexec: false, ..old(k).spec_fd(src)->Ok_0 }),
                        ))
                }
            }),
    {
        let src_fd = k.argraw(0);
        let dst_fd = k.argraw(1);
        if src_fd == dst_fd {
            return Ok(dst_fd);
        }
        let src = match k.fd_file(src_fd) {
            Ok(f) => f,
            Err(e) => { return Err(e); },
        };
        let mut dst = src;
        dst.clear_cloexec();
        if dst_fd >= NOFILE {
            return Err(Error::FileDescriptorTooLarge);
        }
        let mut files = copy_files(&k.ofiles[k.cur]);
        files.set(dst_fd, Some(dst));
        k.set_files(files);
        Ok(dst_fd)
    }

    /// Closes descriptor a0, dropping the caller's locks on the file.
    pub fn close(k: &mut Kernel) -> (r: Result<()>)
        requires
            old(k).wf(),
        ensures
            final(k).wf(),
            final(k).procs == old(k).procs,
            old(k).spec_fd(old(k).arg(0)) is Err ==> r == Err::<(), Error>(old(k).spec_fd(old(k).arg(0))->Err_0)
                && *final(k) == *old(k),
            old(k).spec_fd(old(k).arg(0)) matches Ok(f) ==> {
                &&& r is Ok
                &&& files_updated(old(k).ofiles@, final(k).ofiles@, old(k).cur as int, old(k).ofiles@[old(k).cur as int]@.update(old(k).arg(0) as int, None))
                &&& match spec_lock_key(f) {
                    Some((dev, inum)) => final(k).locks.entries@ == without_owned(
                        old(k).locks.entries@,
                        dev,
                        inum,
                        old(k).procs.inner@[old(k).cur as int].pid.0,
                    ),
                    None => final(k).locks == old(k).locks,
                }
            },
    {
        let fd = k.argraw(0);
        let f = match k.fd_file(fd) {
            Ok(f) => f,
            Err(e) => { return Err(e); },
        };
        let mut files = copy_files(&k.ofiles[k.cur]);
        files.set(fd, None);
        k.set_files(files);
        match f.lock_key() {
            Some((dev, inum)) => {
                let pid = k.procs.pid(k.cur);
                clear_locks(&mut k.locks, dev, inum, pid);
            },
            None => {},
        }
        Ok(())
    }

    /// `read(a0, buf)`: the caller's file a0 and where reading it goes.
    /// `copied_in` is what fetching the buffer's description gave;
    /// `console_readable` whether the console has input.
    pub fn read(k: &Kernel, copied_in: Result<()>, console_readable: bool) -> (r: Result<(File, IoRoute)>)
        requires
            k.wf(),
        ensures
            match k.spec_fd(k.arg(0)) {
                Err(e) => r == Err::<(File, IoRoute), Error>(e),
                Ok(f) => match copied_in {
                    Err(e) => r == Err::<(File, IoRoute), Error>(e),
                    Ok(_) => match spec_read_route(f, console_readable) {
                        Err(e) => r == Err::<(File, IoRoute), Error>(e),
                        Ok(route) => r == Ok::<(File, IoRoute), Error>((f, route)),
                    },
                },
            },
    {
        let f = match k.fd_file(k.argraw(0)) {
            Ok(f) => f,
            Err(e) => { return Err(e); },
        };
        match copied_in {
            Err(e) => { return Err(e); },
            Ok(_) => {},
        }
        proof {
            assert(k.ofiles@[k.cur as int]@[k.arg(0) as int] is Some);
        }
        match f.read(console_readable) {
            Ok(route) => Ok((f, route)),
            Err(e) => Err(e),
        }
    }

    /// `write(a0, buf)`: the caller's file a0 and where writing it goes.
    /// `copied_in` is what fetching the buffer's description gave.
    pub fn write(k: &Kernel, copied_in: Result<()>) -> (r: Result<(File, IoRoute)>)
        requires
            k.wf(),
        ensures
            match k.spec_fd(k.arg(0)) {
                Err(e) => r == Err::<(File, IoRoute), Error>(e),
                Ok(f) => match copied_in {
                    Err(e) => r == Err::<(File, IoRoute), Error>(e),
                    Ok(_) => match spec_write_route(f) {
                        Err(e) => r == Err::<(File, IoRoute), Error>(e),
                        Ok(route) => r == Ok::<(File, IoRoute), Error>((f, route)),
                    },
                },
            },
    {
        let f = match k.fd_file(k.argraw(0)) {
            Ok(f) => f,
            Err(e) => { return Err(e); },
        };
        match copied_in {
            Err(e) => { return Err(e); },
            Ok(_) => {},
        }
        proof {
            assert(k.ofiles@[k.cur as int]@[k.arg(0) as int] is Some);
        }
        match f.write() {
            Ok(route) => Ok((f, route)),
            Err(e) => Err(e),
        }
    }

    /// `pipe(a0)`: makes a pipe and installs its read and write ends in
    /// the caller's first two free descriptors, which it returns. `len` is
    /// the length of the caller's slice, `alloc` what allocating the pipe
    /// gave (its two ends), and `copy_ok` whether writing the descriptors
    /// into the slice succeeds; if it does not, both are closed again.
    pub fn pipe(k: &mut Kernel, len: usize, alloc: Result<(File, File)>, copy_ok: bool) -> (r: Result<(usize, usize)>)
        requires
            old(k).wf(),
            alloc matches Ok((a, b)) ==> a.f is Some && b.f is Some,
        ensures
            final(k).wf(),
            *final(k) == (Kernel { ofiles: final(k).ofiles, ..*old(k) }),
            ({
                let s = old(k).ofiles@[old(k).cur as int]@;
                if len > 3 {
                    r == Err::<(usize, usize), Error>(Error::InvalidArgument) && *final(k) == *old(k)
                } else {
                    match alloc {
                        Err(e) => r == Err::<(usize, usize), Error>(e) && *final(k) == *old(k),
                        Ok((rf, wf)) => match first_free_fd_from(s, 0) {
                            None => r == Err::<(usize, usize), Error>(Error::FileDescriptorTooLarge) && *final(k) == *old(k),
                            Some(i0) => match first_free_fd_from(s.update(i0, Some(rf)), 0) {
                                None => r == Err::<(usize, usize), Error>(Error::FileDescriptorTooLarge)
                                    && files_updated(old(k).ofiles@, final(k).ofiles@, old(k).cur as int, s),
                                Some(i1) => if copy_ok {
                                    r == Ok::<(usize, usize), Error>((i0 as usize, i1 as usize))
                                        && files_updated(old(k).ofiles@, final(k).ofiles@, old(k).cur as int,
                                            s.update(i0, Some(rf)).update(i1, Some(wf)))
                                } else {
                                    r == Err::<(usize, usize), Error>(Error::BadVirtAddr)
                                        && files_updated(old(k).ofiles@, final(k).ofiles@, old(k).cur as int, s)
                                },
                            },
                        },
                    }
                }
            }),
    {
        if len > 3 {
            return Err(Error::InvalidArgument);
        }
        let (rf, wf) = match alloc {
            Err(e) => { return Err(e); },
            Ok(p) => p,
        };
        let ghost s = k.ofiles@[k.cur as int]@;
        let fd0 = match k.fdalloc(rf) {
            Err(e) => { return Err(e); },
            Ok(fd) => fd,
        };
        let ghost k1 = *k;
        let fd1 = match k.fdalloc(wf) {
            Err(e) => {
                proof {
                    lemma_first_free_fd_from(s, 0);
                    assert(s[fd0 as int] is None);
                }
                let mut files = copy_files(&k.ofiles[k.cur]);
                files.set(fd0, None);
                proof {
                    assert(files@ =~= s);
                }
                k.set_files(files);
                return Err(e);
            },
            Ok(fd) => fd,
        };
        if !copy_ok {
            proof {
                lemma_first_free_fd_from(s, 0);
                lemma_first_free_fd_from(s.update(fd0 as int, Some(rf)), 0);
            }
            let mut files = copy_files(&k.ofiles[k.cur]);
            files.set(fd0, None);
            files.set(fd1, None);
            proof {
                assert(files@ =~= s);
            }
            k.set_files(files);
            return Err(Error::BadVirtAddr);
        }
        Ok((fd0, fd1))
    }

    /// `fcntl(a0, a1, a2)`. For the lock commands `lock` holds the request
    /// read from user memory at a2 (`copied_in` says whether that worked).
    pub fn fcntl(k: &mut Kernel, lock: &mut Flock, copied_in: Result<()>) -> (r: Result<usize>)
        requires
            old(k).wf(),
        ensures
            final(k).wf(),
            final(k).procs == old(k).procs,
            old(k).spec_fd(old(k).arg(0)) is Err ==> r == Err::<usize, Error>(old(k).spec_fd(old(k).arg(0))->Err_0)
                && *final(k) == *old(k) && *final(lock) == *old(lock),
            old(k).spec_fd(old(k).arg(0)) matches Ok(f) ==> exists|nf: File| {
                &&& #[trigger] do_fcntl_post(
                    f,
                    nf,
                    old(k).locks,
                    final(k).locks,
                    *old(lock),
                    *final(lock),
                    FcntlCmd::spec_from_usize(old(k).arg(1)),
                    old(k).arg(2),
                    copied_in,
                    r,
                )
                &&& files_updated(old(k).ofiles@, final(k).ofiles@, old(k).cur as int, old(k).ofiles@[old(k).cur as int]@.update(old(k).arg(0) as int, Some(nf)))
            },
    {
        let fd = k.argraw(0);
        let mut f = match k.fd_file(fd) {
            Ok(f) => f,
            Err(e) => { return Err(e); },
        };
        let ghost f0 = f;
        let cmd = FcntlCmd::from_usize(k.argraw(1));
        let arg = k.argraw(2);
        let pid = k.procs.pid(k.cur);
        let ghost l0 = k.locks;
        let r = f.do_fcntl(cmd, arg, &mut k.locks, pid, lock, copied_in);
        assert(f.f == f0.f);
        let mut files = copy_files(&k.ofiles[k.cur]);
        files.set(fd, Some(f));
        k.set_files(files);
        assert(do_fcntl_post(f0, f, l0, k.locks, *old(lock), *lock, FcntlCmd::spec_from_usize(old(k).arg(1)), old(k).arg(2), copied_in, r));
        r
    }

    /// Turns non-blocking mode of descriptor a0 on (a1 nonzero) or off.
    pub fn nonblock(k: &mut Kernel) -> (r: Result<usize>)
        requires
            old(k).wf(),
        ensures
            final(k).wf(),
            final(k).procs == old(k).procs && final(k).locks == old(k).locks,
            old(k).spec_fd(old(k).arg(0)) is Err ==> r == Err::<usize, Error>(old(k).spec_fd(old(k).arg(0))->Err_0)
                && *final(k) == *old(k),
            old(k).spec_fd(old(k).arg(0)) matches Ok(f) ==> r == Ok::<usize, Error>(0) && files_updated(old(k).ofiles@, final(k).ofiles@, old(k).cur as int, old(k).ofiles@[old(k).cur as int]@.update(
                    old(k).arg(0) as int,
                    Some(File { nonblock: old(k).arg(1) != 0, ..f }),
                )),
    {
        let fd = k.argraw(0);
        let mut f = match k.fd_file(fd) {
            Ok(f) => f,
            Err(e) => { return Err(e); },
        };
        let on = k.argraw(1) != 0;
        let cmd = if on { FcntlCmd::SetNonblock } else { FcntlCmd::ClearNonblock };
        let mut scratch = Flock { l_type: 0, l_whence: 0, l_start: 0, l_len: 0, l_pid: 0 };
        let pid = k.procs.pid(k.cur);
        let r = f.do_fcntl(cmd, 0, &mut k.locks, pid, &mut scratch, Ok(()));
        let mut files = copy_files(&k.ofiles[k.cur]);
        files.set(fd, Some(f));
        k.set_files(files);
        r
    }

    /// Whether descriptor a0 has metadata to report (the copy to user
    /// memory is the caller's).
    pub fn fstat(k: &mut Kernel) -> (r: Result<()>)
        requires
            old(k).wf(),
        ensures
            *final(k) == *old(k),
            old(k).spec_fd(old(k).arg(0)) is Err ==> r == Err::<(), Error>(old(k).spec_fd(old(k).arg(0))->Err_0),
            old(k).spec_fd(old(k).arg(0)) matches Ok(f) ==> (r is Ok <==> (f.f matches Some(vf) && (vf is Device
                || vf is Inode))),
    {
        let fd = k.argraw(0);
        let f = match k.fd_file(fd) {
            Ok(f) => f,
            Err(e) => { return Err(e); },
        };
        match f.f {
            Some(vf) => vf.stat(),
            None => Err(Error::BadFileDescriptor),
        }
    }

    /// Syncs descriptor a0's file.
    pub fn fsync(k: &mut Kernel) -> (r: Result<()>)
        requires
            old(k).wf(),
        ensures
            *final(k) == *old(k),
            old(k).spec_fd(old(k).arg(0)) is Err ==> r == Err::<(), Error>(old(k).spec_fd(old(k).arg(0))->Err_0),
            old(k).spec_fd(old(k).arg(0)) matches Ok(f) ==> match f.f {
                Some(VFile::Inode { .. }) | Some(VFile::Device { .. }) => r is Ok,
                Some(VFile::Pipe { .. }) => r == Err::<(), Error>(Error::InvalidArgument),
                _ => r == Err::<(), Error>(Error::BadFileDescriptor),
            },
    {
        let fd = k.argraw(0);
        let f = match k.fd_file(fd) {
            Ok(f) => f,
            Err(e) => { return Err(e); },
        };
        f.sync()
    }

    /// The terminal's foreground group, for a caller in its session
    /// holding the console as a0.
    pub fn tcgetpgrp(k: &mut Kernel) -> (r: Result<usize>)
        requires
            old(k).wf(),
        ensures
            *final(k) == *old(k),
            ({
                let sid = old(k).procs.inner@[old(k).cur as int].sid;
                let s = old(k).cons.spec_session();
                match old(k).spec_fd(old(k).arg(0)) {
                    Err(e) => r == Err::<usize, Error>(e),
                    Ok(f) => if !(f.f matches Some(VFile::Device { major, .. }) && major == crate::file::Major::Console) {
                        r == Err::<usize, Error>(Error::InvalidArgument)
                    } else if s != 0 && s != sid {
                        r == Err::<usize, Error>(Error::PermissionDenied)
                    } else {
                        r == Ok::<usize, Error>(old(k).cons.spec_fg_pgrp())
                    },
                }
            }),
    {
        let fd = k.argraw(0);
        let f = match k.fd_file(fd) {
            Ok(f) => f,
            Err(e) => { return Err(e); },
        };
        if !f.is_console() {
            return Err(Error::InvalidArgument);
        }
        let sid = k.procs.inner[k.cur].sid;
        let s = session(&k.cons);
        if s != 0 && s != sid {
            return Err(Error::PermissionDenied);
        }
        Ok(fg_pgrp(&k.cons))
    }

    /// Makes group a1 the terminal's foreground group, for a caller holding
    /// the console as a0; the group must be in the caller's session.
    pub fn tcsetpgrp(k: &mut Kernel) -> (r: Result<()>)
        requires
            old(k).wf(),
        ensures
            final(k).wf(),
            *final(k) == (Kernel { cons: final(k).cons, ..*old(k) }),
            ({
                let pgid = old(k).arg(1);
                let sid = old(k).procs.inner@[old(k).cur as int].sid;
                let in_session = pgid != 0 && sid != 0 && exists|i: int|
                    0 <= i < NPROC && (#[trigger] old(k).procs.inner@[i]).state != crate::proc::ProcState::UNUSED
                        && old(k).procs.inner@[i].pgid == pgid && old(k).procs.inner@[i].sid == sid;
                if pgid == 0 {
                    r == Err::<(), Error>(Error::InvalidArgument) && final(k).cons == old(k).cons
                } else {
                    match old(k).spec_fd(old(k).arg(0)) {
                        Err(e) => r == Err::<(), Error>(e) && final(k).cons == old(k).cons,
                        Ok(f) => if !(f.f matches Some(VFile::Device { major, .. }) && major == crate::file::Major::Console) {
                            r == Err::<(), Error>(Error::InvalidArgument) && final(k).cons == old(k).cons
                        } else if !in_session {
                            r == Err::<(), Error>(Error::PermissionDenied) && final(k).cons == old(k).cons
                        } else if old(k).cons.spec_session() != 0 && old(k).cons.spec_session() != sid {
                            r == Err::<(), Error>(Error::PermissionDenied) && final(k).cons.spec_session()
                                == old(k).cons.spec_session() && final(k).cons.spec_fg_pgrp() == old(k).cons.spec_fg_pgrp()
                        } else {
                            r is Ok && final(k).cons.spec_session() == sid && final(k).cons.spec_fg_pgrp() == pgid
                        },
                    }
                }
            }),
    {
        let fd = k.argraw(0);
        let pgid = k.argraw(1);
        if pgid == 0 {
            return Err(Error::InvalidArgument);
        }
        let f = match k.fd_file(fd) {
            Ok(f) => f,
            Err(e) => { return Err(e); },
        };
        if !f.is_console() {
            return Err(Error::InvalidArgument);
        }
        let sid = k.procs.inner[k.cur].sid;
        if !k.procs.pgid_in_session(pgid, sid) {
            return Err(Error::PermissionDenied);
        }
        set_fg_pgrp(&mut k.cons, sid, pgid)
    }
}

/// What one round of `poll` decides.
#[derive(Clone, Copy, Debug, PartialEq, Eq, Structural)]
pub enum PollStep {
    /// Copy the entries back out and return this count.
    Done(usize),
    /// Sleep until the next tick, then look again.
    Sleep,
}

/// What polling entry `e` reports among the open files `ofile`: the ready
/// events of its file, or `NVAL` when no file is open there. `pipe` is
/// what the pipe behind it reports, if it is one.
pub open spec fn spec_revents(ofile: Seq<Option<File>>, e: PollFd, pipe: PipeStatus, console_readable: bool) -> usize {
    if e.fd < ofile.len() && ofile[e.fd as int] is Some {
        spec_poll(ofile[e.fd as int]->0, e.events, pipe, console_readable)
    } else {
        NVAL
    }
}

/// The number of entries that report an event.
pub open spec fn count_ready(s: Seq<PollFd>) -> nat
    decreases s.len(),
{
    if s.len() == 0 {
        0
    } else {
        count_ready(s.drop_last()) + if s.last().revents != 0 { 1nat } else { 0nat }
    }
}

proof fn lemma_count_ready_le(s: Seq<PollFd>)
    ensures
        count_ready(s) <= s.len(),
    decreases s.len(),
{
    if s.len() > 0 {
        lemma_count_ready_le(s.drop_last());
    }
}

/// `n` is `o` with each entry's `revents` filled in from the open files
/// `ofile`.
pub open spec fn polled(ofile: Seq<Option<File>>, o: Seq<PollFd>, n: Seq<PollFd>, pipes: Seq<PipeStatus>, console_readable: bool) -> bool {
    &&& n.len() == o.len()
    &&& forall|i: int|
        0 <= i < o.len() ==> #[trigger] n[i] == (PollFd {
            fd: o[i].fd,
            events: o[i].events,
            revents: spec_revents(ofile, o[i], pipes[i], console_readable),
        })
}

impl Kernel {
    /// Fills in the `revents` of each entry from the caller's open files
    /// and returns how many report an event. `pipes[i]` is what the pipe
    /// behind entry `i` reports, if it is one.
    pub fn poll_check(&self, fds: &mut Vec<PollFd>, pipes: &Vec<PipeStatus>, console_readable: bool) -> (ready: usize)
        requires
            self.wf(),
            pipes@.len() == old(fds)@.len(),
        ensures
            polled(self.ofiles@[self.cur as int]@, old(fds)@, final(fds)@, pipes@, console_readable),
            ready == count_ready(final(fds)@),
    {
        let ghost ofile = self.ofiles@[self.cur as int]@;
        let mut ready: usize = 0;
        let mut i: usize = 0;
        while i < fds.len()
            invariant
                self.wf(),
                ofile == self.ofiles@[self.cur as int]@,
                ofile.len() == NOFILE,
                pipes@.len() == old(fds)@.len(),
                fds@.len() == old(fds)@.len(),
                0 <= i <= fds@.len(),
                forall|j: int| i <= j < fds@.len() ==> #[trigger] fds@[j] == old(fds)@[j],
                polled(ofile, old(fds)@.take(i as int), fds@.take(i as int), pipes@.take(i as int), console_readable),
                ready == count_ready(fds@.take(i as int)),
            decreases fds@.len() - i,
        {
            let e = fds[i];
            let revents = if e.fd < NOFILE {
                match &self.ofiles[self.cur][e.fd] {
                    Some(f) => f.poll(e.events, pipes[i], console_readable),
                    None => NVAL,
                }
            } else {
                NVAL
            };
            let ghost before = fds@;
            fds.set(i, PollFd { fd: e.fd, events: e.events, revents });
            proof {
                lemma_count_ready_le(fds@.take(i as int));
                assert(fds@.take(i as int) == before.take(i as int));
                assert(fds@.take(i + 1).drop_last() == fds@.take(i as int));
                assert(old(fds)@.take(i + 1)[i as int] == old(fds)@[i as int]);
                assert(pipes@.take(i + 1)[i as int] == pipes@[i as int]);
            }
            if revents != 0 {
                ready = ready + 1;
            }
            i = i + 1;
        }
        proof {
            assert(fds@.take(i as int) == fds@);
            assert(old(fds)@.take(i as int) == old(fds)@);
            assert(pipes@.take(i as int) == pipes@);
        }
        ready
    }
}

/// What a round of `poll` over `n` entries with timeout `timeout` decides,
/// `elapsed` ticks after it began, for a caller that is `killed` or not,
/// when `ready` entries report an event.
pub open spec fn spec_poll_step(n: usize, timeout: isize, elapsed: int, killed: bool, ready: nat) -> Result<PollStep> {
    if n > NOFILE {
        Err(Error::InvalidArgument)
    } else if ready > 0 || timeout == 0 {
        Ok(PollStep::Done(ready as usize))
    } else if timeout > 0 && elapsed >= timeout {
        Ok(PollStep::Done(0))
    } else if killed {
        Err(Error::Interrupted)
    } else {
        Ok(PollStep::Sleep)
    }
}

/// A poll with timeout 0 never sleeps: it answers at once, with the
/// number of ready entries, or fails.
pub proof fn law_poll_timeout_zero_never_sleeps(n: usize, elapsed: int, killed: bool, ready: nat)
    requires
        ready <= n,
    ensures
        spec_poll_step(n, 0, elapsed, killed, ready) != Ok::<PollStep, Error>(PollStep::Sleep),
        n <= NOFILE ==> spec_poll_step(n, 0, elapsed, killed, ready) == Ok::<PollStep, Error>(PollStep::Done(ready as usize)),
{
}

impl SysCalls {
    /// One round of `poll(fds, a1)`: `n` is the number of entries asked
    /// for and `fds` the entries as copied in, `pipes[i]` what the pipe
    /// behind entry `i` reports if it is one, and `start` the tick at which
    /// the call began. On `Done` the entries are copied back out.
    pub fn poll(
        k: &Kernel,
        n: usize,
        fds: &mut Vec<PollFd>,
        pipes: &Vec<PipeStatus>,
        console_readable: bool,
        start: usize,
    ) -> (r: Result<PollStep>)
        requires
            k.wf(),
            start <= k.ticks,
            n <= NOFILE ==> old(fds)@.len() == n && pipes@.len() == n,
        ensures
            n <= NOFILE ==> polled(k.ofiles@[k.cur as int]@, old(fds)@, final(fds)@, pipes@, console_readable),
            n > NOFILE ==> final(fds)@ == old(fds)@,
            r == spec_poll_step(
                n,
                k.arg(1) as isize,
                k.ticks - start,
                k.procs.inner@[k.cur as int].killed,
                if n <= NOFILE { count_ready(final(fds)@) } else { 0 },
            ),
    {
        if n > NOFILE {
            return Err(Error::InvalidArgument);
        }
        let timeout = k.argraw(1) as isize;
        let ready = k.poll_check(fds, pipes, console_readable);
        if ready > 0 || timeout == 0 {
            return Ok(PollStep::Done(ready));
        }
        if timeout > 0 && k.ticks - start >= timeout as usize {
            return Ok(PollStep::Done(0));
        }
        if k.procs.inner[k.cur].killed {
            return Err(Error::Interrupted);
        }
        Ok(PollStep::Sleep)
    }

    /// `select` is `poll` under another number.
    pub fn select(
        k: &Kernel,
        n: usize,
        fds: &mut Vec<PollFd>,
        pipes: &Vec<PipeStatus>,
        console_readable: bool,
        start: usize,
    ) -> (r: Result<PollStep>)
        requires
            k.wf(),
            start <= k.ticks,
            n <= NOFILE ==> old(fds)@.len() == n && pipes@.len() == n,
        ensures
            n <= NOFILE ==> polled(k.ofiles@[k.cur as int]@, old(fds)@, final(fds)@, pipes@, console_readable),
            n > NOFILE ==> final(fds)@ == old(fds)@,
            r == spec_poll_step(
                n,
                k.arg(1) as isize,
                k.ticks - start,
                k.procs.inner@[k.cur as int].killed,
                if n <= NOFILE { count_ready(final(fds)@) } else { 0 },
            ),
    {
        Self::poll(k, n, fds, pipes, console_readable, start)
    }
}

/// Where a call on paths goes.
pub enum PathRoute {
    /// To the remote file server, as this call.
    Remote(DfsCall),
    /// To the local file system.
    Local,
}

/// `c` is the remote call `op` on the one path `p`, with flags `flags`.
pub open spec fn is_path_call(c: DfsCall, op: DfsOp, flags: u32, p: Seq<u8>) -> bool {
    &&& c.req == (DfsReq {
        magic: DFS_MAGIC,
        op: op.spec_code(),
        pad: 0,
        flags,
        handle: 0,
        len: p.len() as u32,
        aux: 0,
    })
    &&& c.payloads@.len() == 1
    &&& c.payloads@[0]@ == p
}

/// `c` is the remote call `op` on the two paths `a` and `b`.
pub open spec fn is_two_path_call(c: DfsCall, op: DfsOp, a: Seq<u8>, b: Seq<u8>) -> bool {
    &&& c.req == (DfsReq {
        magic: DFS_MAGIC,
        op: op.spec_code(),
        pad: 0,
        flags: 0,
        handle: 0,
        len: a.len() as u32,
        aux: b.len() as u32,
    })
    &&& c.payloads@.len() == 2
    &&& c.payloads@[0]@ == a
    &&& c.payloads@[1]@ == b
}

/// What a call on the one path `path` is routed to: the remote call `op`
/// for a path under the remote root, the local file system otherwise.
pub open spec fn routed_one(path: Seq<u8>, op: DfsOp, flags: u32, r: Result<PathRoute>) -> bool {
    if spec_is_remote(path) {
        match spec_remote_path(path) {
            None => r == Err::<PathRoute, Error>(Error::InvalidArgument),
            Some(p) => r matches Ok(PathRoute::Remote(c)) && is_path_call(c, op, flags, p),
        }
    } else {
        r matches Ok(PathRoute::Local)
    }
}

fn route_one(path: &[u8], op: DfsOp, flags: u32, call: Result<DfsCall>) -> (r: Result<PathRoute>)
    requires
        spec_is_remote(path@) ==> match spec_remote_path(path@) {
            None => call == Err::<DfsCall, Error>(Error::InvalidArgument),
            Some(p) => call matches Ok(c) && is_path_call(c, op, flags, p),
        },
    ensures
        routed_one(path@, op, flags, r),
{
    if crate::dfs::is_remote_path(path) {
        match call {
            Ok(c) => Ok(PathRoute::Remote(c)),
            Err(e) => Err(e),
        }
    } else {
        Ok(PathRoute::Local)
    }
}

impl SysCalls {
    /// `unlink(path)`: remote paths go to the file server.
    pub fn unlink(path: &[u8]) -> (r: Result<PathRoute>)
        ensures
            routed_one(path@, DfsOp::Unlink, 0, r),
    {
        let call = crate::dfs::unlink(path);
        route_one(path, DfsOp::Unlink, 0, call)
    }

    /// `mkdir(path)`: remote paths go to the file server.
    pub fn mkdir(path: &[u8]) -> (r: Result<PathRoute>)
        ensures
            routed_one(path@, DfsOp::Mkdir, 0, r),
    {
        let call = crate::dfs::mkdir(path);
        route_one(path, DfsOp::Mkdir, 0, call)
    }

    /// `open(path, a1)`: remote paths are opened on the file server with
    /// open flags a1.
    pub fn open(k: &Kernel, path: &[u8]) -> (r: Result<PathRoute>)
        requires
            k.wf(),
        ensures
            routed_one(path@, DfsOp::Open, k.arg(1) as u32, r),
    {
        let omode = k.argraw(1);
        let call = crate::dfs::open(path, omode);
        route_one(path, DfsOp::Open, omode as u32, call)
    }

    /// `link(old, new)`: both paths remote go to the file server; one
    /// remote and one local cross devices.
    pub fn link(old: &[u8], new: &[u8]) -> (r: Result<PathRoute>)
        ensures
            if spec_is_remote(old@) || spec_is_remote(new@) {
                if spec_is_remote(old@) != spec_is_remote(new@) {
                    r == Err::<PathRoute, Error>(Error::CrossesDevices)
                } else {
                    match (spec_remote_path(old@), spec_remote_path(new@)) {
                        (Some(o), Some(n)) => r matches Ok(PathRoute::Remote(c)) && is_two_path_call(c, DfsOp::Link, o, n),
                        _ => r == Err::<PathRoute, Error>(Error::InvalidArgument),
                    }
                }
            } else {
                r matches Ok(PathRoute::Local)
            },
    {
        let old_remote = crate::dfs::is_remote_path(old);
        let new_remote = crate::dfs::is_remote_path(new);
        if old_remote || new_remote {
            if old_remote != new_remote {
                return Err(Error::CrossesDevices);
            }
            return match crate::dfs::link(old, new) {
                Ok(c) => Ok(PathRoute::Remote(c)),
                Err(e) => Err(e),
            };
        }
        Ok(PathRoute::Local)
    }

    /// `symlink(target, linkpath)`: a remote link path goes to the file
    /// server.
    pub fn symlink(target: &[u8], linkpath: &[u8]) -> (r: Result<PathRoute>)
        ensures
            if spec_is_remote(linkpath@) {
                match spec_remote_path(linkpath@) {
                    None => r == Err::<PathRoute, Error>(Error::InvalidArgument),
                    Some(l) => r matches Ok(PathRoute::Remote(c))
                        && is_two_path_call(c, DfsOp::Symlink, spec_link_target(target@), l),
                }
            } else {
                r matches Ok(PathRoute::Local)
            },
    {
        if crate::dfs::is_remote_path(linkpath) {
            return match crate::dfs::symlink(target, linkpath) {
                Ok(c) => Ok(PathRoute::Remote(c)),
                Err(e) => Err(e),
            };
        }
        Ok(PathRoute::Local)
    }
}

impl SysCalls {
    /// Creates a child process. `copy` is what copying the address space
    /// gives. The child gets copies of the caller's descriptors and address
    /// space.
    pub fn fork(k: &mut Kernel, copy: Result<()>) -> (r: Result<usize>)
        requires
            old(k).wf(),
            old(k).procs.inner@[old(k).cur as int].state != crate::proc::ProcState::UNUSED,
            old(k).procs.next_pid < usize::MAX,
        ensures
            r matches Ok(p) ==> forall|j: int|
                0 <= j < NPROC && (#[trigger] old(k).procs.inner@[j]).state != crate::proc::ProcState::UNUSED
                    ==> old(k).procs.inner@[j].pid.0 != p,
            final(k).wf(),
            fork_post(old(k).procs, final(k).procs, old(k).cur, old(k).cpu, old(k).fork_ret, copy, r),
            r is Err ==> *final(k) == (Kernel { procs: final(k).procs, ..*old(k) }),
            r is Ok ==> ({
                let c = first_unused(old(k).procs.inner@)->0;
                let a = old(k).aspace@[old(k).cur as int];
                &&& files_updated(old(k).ofiles@, final(k).ofiles@, c, old(k).ofiles@[old(k).cur as int]@)
                &&& final(k).cwds@ == old(k).cwds@.update(c, old(k).cwds@[old(k).cur as int])
                &&& final(k).aspace@ == old(k).aspace@.update(c, c as usize)
                &&& final(k).sizes@ == old(k).sizes@.update(c, old(k).sizes@[a as int])
                &&& final(k).vms@.len() == NPROC
                &&& final(k).vms@[c].mmap_base == old(k).vms@[a as int].mmap_base
                &&& final(k).vms@[c].vmas@ == old(k).vms@[a as int].vmas@
                &&& forall|j: int| 0 <= j < NPROC && j != c ==> #[trigger] final(k).vms@[j] == old(k).vms@[j]
            }),
    {
        let slot = k.procs.first_unused_slot();
        let cur = k.cur;
        let cpu = k.cpu;
        let entry = k.fork_ret;
        let r = k.procs.fork(cur, cpu, entry, copy);
        match r {
            Err(e) => {
                return Err(e);
            },
            Ok(pid) => {
                let c = slot.unwrap();
                let files = copy_files(&k.ofiles[cur]);
                let ghost fv = files@;
                k.ofiles.set(c, files);
                let cwd = k.cwds[cur];
                k.cwds.set(c, cwd);
                let a = k.aspace[cur];
                let vm = copy_vm(&k.vms[a]);
                k.vms.set(c, vm);
                let sz = k.sizes[a];
                k.sizes.set(c, sz);
                k.aspace.set(c, c);
                proof {
                    assert(files_updated(old(k).ofiles@, k.ofiles@, c as int, fv));
                    assert forall|x: int, y: int|
                        0 <= x < NPROC && 0 <= y < NOFILE && #[trigger] k.ofiles@[x]@[y] is Some implies k.ofiles@[x]@[y]->0.f is Some by {
                        if x != c {
                            assert(k.ofiles@[x] == old(k).ofiles@[x]);
                        } else {
                            assert(k.ofiles@[x]@[y] == old(k).ofiles@[cur as int]@[y]);
                        }
                    }
                    assert forall|x: int| 0 <= x < NPROC implies (#[trigger] k.vms@[x]).wf() by {
                        if x == c {
                            assert(old(k).vms@[a as int].wf());
                        }
                    }
                }
                Ok(pid)
            },
        }
    }

    /// Creates a thread running `a0(a1, a2)` on the stack page at a3, in
    /// the caller's address space. `map` is what mapping its trapframe
    /// gives. The thread gets copies of the caller's descriptors.
    pub fn clone(k: &mut Kernel, map: Result<()>) -> (r: Result<usize>)
        requires
            old(k).wf(),
            old(k).procs.inner@[old(k).cur as int].state != crate::proc::ProcState::UNUSED,
            old(k).procs.next_pid < usize::MAX,
        ensures
            r matches Ok(p) ==> forall|j: int|
                0 <= j < NPROC && (#[trigger] old(k).procs.inner@[j]).state != crate::proc::ProcState::UNUSED
                    ==> old(k).procs.inner@[j].pid.0 != p,
            final(k).wf(),
            clone_post(
                old(k).procs,
                final(k).procs,
                old(k).cur,
                old(k).cpu,
                old(k).fork_ret,
                old(k).arg(0),
                old(k).arg(1),
                old(k).arg(2),
                old(k).arg(3),
                old(k).sizes@[old(k).aspace@[old(k).cur as int] as int],
                map,
                r,
            ),
            r is Err ==> *final(k) == (Kernel { procs: final(k).procs, ..*old(k) }),
            r is Ok ==> ({
                let c = first_unused(old(k).procs.inner@)->0;
                &&& files_updated(old(k).ofiles@, final(k).ofiles@, c, old(k).ofiles@[old(k).cur as int]@)
                &&& final(k).cwds@ == old(k).cwds@.update(c, old(k).cwds@[old(k).cur as int])
                &&& final(k).aspace@ == old(k).aspace@.update(c, old(k).aspace@[old(k).cur as int])
                &&& final(k).vms == old(k).vms && final(k).sizes == old(k).sizes
            }),
    {
        let slot = k.procs.first_unused_slot();
        let cur = k.cur;
        let cpu = k.cpu;
        let a = k.aspace[cur];
        let sz = k.sizes[a];
        let fcn = k.argraw(0);
        let arg1 = k.argraw(1);
        let arg2 = k.argraw(2);
        let stack = k.argraw(3);
        let entry = k.fork_ret;
        let r = k.procs.clone(cur, cpu, entry, fcn, arg1, arg2, stack, sz, map);
        match r {
            Err(e) => {
                return Err(e);
            },
            Ok(pid) => {
                let c = slot.unwrap();
                let files = copy_files(&k.ofiles[cur]);
                let ghost fv = files@;
                k.ofiles.set(c, files);
                let cwd = k.cwds[cur];
                k.cwds.set(c, cwd);
                k.aspace.set(c, a);
                proof {
                    assert(files_updated(old(k).ofiles@, k.ofiles@, c as int, fv));
                    assert forall|x: int, y: int|
                        0 <= x < NPROC && 0 <= y < NOFILE && #[trigger] k.ofiles@[x]@[y] is Some implies k.ofiles@[x]@[y]->0.f is Some by {
                        if x != c {
                            assert(k.ofiles@[x] == old(k).ofiles@[x]);
                        } else {
                            assert(k.ofiles@[x]@[y] == old(k).ofiles@[cur as int]@[y]);
                        }
                    }
                }
                Ok(pid)
            },
        }
    }

    /// Grows (or shrinks) the caller's heap by a0 bytes; returns the old
    /// size. `alloc` is what allocating the new pages gives.
    pub fn sbrk(k: &mut Kernel, alloc: Result<()>) -> (r: Result<usize>)
        requires
            old(k).wf(),
        ensures
            final(k).wf(),
            *final(k) == (Kernel { sizes: final(k).sizes, ..*old(k) }),
            ({
                let a = old(k).aspace@[old(k).cur as int];
                let sz = old(k).sizes@[a as int];
                let n = old(k).arg(0) as isize as i64;
                let g = if n > 0 && sz + n >= old(k).vms@[a as int].mmap_base {
                    Err::<u64, Error>(Error::NoBufferSpace)
                } else if n > 0 {
                    Ok::<u64, Error>((sz + n) as u64)
                } else if n < 0 && sz + n >= 0 {
                    Ok::<u64, Error>((sz + n) as u64)
                } else {
                    Ok::<u64, Error>(sz)
                };
                match g {
                    Err(e) => r == Err::<usize, Error>(e) && final(k).sizes == old(k).sizes,
                    Ok(newsz) => if n > 0 && alloc is Err {
                        r == Err::<usize, Error>(alloc->Err_0) && final(k).sizes == old(k).sizes
                    } else {
                        r == Ok::<usize, Error>(sz as usize) && final(k).sizes@ == old(k).sizes@.update(a as int, newsz)
                    },
                }
            }),
    {
        let a = k.aspace[k.cur];
        let sz = k.sizes[a];
        let n = k.argraw(0) as isize as i64;
        let base = k.vms[a].mmap_base;
        let newsz = match grow(sz, n, base) {
            Ok(v) => v,
            Err(e) => { return Err(e); },
        };
        if n > 0 {
            match alloc {
                Err(e) => { return Err(e); },
                Ok(_) => {},
            }
        }
        proof {
            assert(k.vms@[a as int].wf());
            assert(base % PG == 0);
        }
        k.sizes.set(a, newsz);
        Ok(sz as usize)
    }

    /// Maps a1 bytes (`mmap(a0, a1, a2, a3, a4, a5)`) in the caller's
    /// address space, from descriptor a4 unless anonymous.
    pub fn mmap(k: &mut Kernel) -> (r: Result<u64>)
        requires
            old(k).wf(),
            old(k).arg(1) + PG - 1 <= u64::MAX,
        ensures
            final(k).wf(),
            *final(k) == (Kernel { vms: final(k).vms, ..*old(k) }),
            ({
                let a = old(k).aspace@[old(k).cur as int];
                let fd = old(k).arg(4);
                let caps = match old(k).spec_fd(fd) {
                    Ok(f) => Ok::<FileCaps, Error>(
                        FileCaps { id: fd, readable: f.readable, writable: f.writable, has_inode: spec_lock_key(f) is Some },
                    ),
                    Err(e) => Err::<FileCaps, Error>(e),
                };
                &&& final(k).vms@.len() == NPROC
                &&& forall|j: int| 0 <= j < NPROC && j != a ==> #[trigger] final(k).vms@[j] == old(k).vms@[j]
                &&& mmap_post(
                    old(k).vms@[a as int],
                    final(k).vms@[a as int],
                    old(k).arg(0) as u64,
                    old(k).arg(1) as u64,
                    old(k).arg(2),
                    old(k).arg(3),
                    caps,
                    old(k).arg(5) as u64,
                    old(k).sizes@[a as int],
                    r,
                )
            }),
    {
        let a = k.aspace[k.cur];
        let fd = k.argraw(4);
        let caps = match k.fd_file(fd) {
            Ok(f) => Ok(FileCaps { id: fd, readable: f.readable, writable: f.writable, has_inode: f.lock_key().is_some() }),
            Err(e) => Err(e),
        };
        let addr = k.argraw(0) as u64;
        let len = k.argraw(1) as u64;
        let prot = k.argraw(2);
        let flags = k.argraw(3);
        let off = k.argraw(5) as u64;
        let sz = k.sizes[a];
        proof {
            assert(k.vms@[a as int].wf());
        }
        let r = k.vms[a].mmap(addr, len, prot, flags, caps, off, sz);
        proof {
            assert forall|x: int| 0 <= x < NPROC implies (#[trigger] k.vms@[x]).wf() by {
                if x != a {
                    assert(k.vms@[x] == old(k).vms@[x]);
                }
            }
        }
        r
    }

    /// Unmaps `[a0, a0 + a1)` in the caller's address space; returns the
    /// ranges whose pages are to be unmapped.
    pub fn munmap(k: &mut Kernel) -> (r: Result<Vec<(u64, u64)>>)
        requires
            old(k).wf(),
            crate::vma::offsets_fit(old(k).vms@[old(k).aspace@[old(k).cur as int] as int].vmas@),
            old(k).arg(0) + crate::vma::spec_pg_up(old(k).arg(1) as int) <= u64::MAX,
            old(k).arg(1) + PG - 1 <= u64::MAX,
            2 * old(k).vms@[old(k).aspace@[old(k).cur as int] as int].vmas@.len() + 2 < usize::MAX,
        ensures
            final(k).wf(),
            *final(k) == (Kernel { vms: final(k).vms, ..*old(k) }),
            ({
                let a = old(k).aspace@[old(k).cur as int];
                &&& final(k).vms@.len() == NPROC
                &&& forall|j: int| 0 <= j < NPROC && j != a ==> #[trigger] final(k).vms@[j] == old(k).vms@[j]
                &&& munmap_post(old(k).vms@[a as int], final(k).vms@[a as int], old(k).arg(0) as u64, old(k).arg(1) as u64, r)
            }),
    {
        let a = k.aspace[k.cur];
        let addr = k.argraw(0) as u64;
        let len = k.argraw(1) as u64;
        proof {
            assert(k.vms@[a as int].wf());
        }
        let r = k.vms[a].munmap(addr, len);
        proof {
            assert forall|x: int| 0 <= x < NPROC implies (#[trigger] k.vms@[x]).wf() by {
                if x != a {
                    assert(k.vms@[x] == old(k).vms@[x]);
                }
            }
        }
        r
    }

    /// Ends the caller with status a0: its descriptors are closed, its
    /// children go to `init`, and it becomes a zombie for its parent. A
    /// process that is not a thread first has its threads reaped, by
    /// running `Procs::reap_threads` until it reports none left.
    pub fn exit(k: &mut Kernel)
        requires
            old(k).wf(),
            old(k).cur != old(k).init,
            old(k).procs.inner@[old(k).cur as int].state != crate::proc::ProcState::UNUSED,
            old(k).procs.parents@[old(k).cur as int] is Some,
            old(k).procs.parents@[old(k).cur as int]->0 < NPROC,
        ensures
            final(k).wf(),
            final(k).procs.inner@[old(k).cur as int].state == crate::proc::ProcState::ZOMBIE,
            final(k).procs.inner@[old(k).cur as int].xstate == old(k).arg(0) as i32,
            forall|j: int| 0 <= j < NPROC ==> #[trigger] final(k).procs.parents@[j] == (if old(k).procs.parents@[j]
                == Some(old(k).cur) {
                Some(old(k).init)
            } else {
                old(k).procs.parents@[j]
            }),
            files_updated(old(k).ofiles@, final(k).ofiles@, old(k).cur as int, Seq::new(NOFILE as nat, |i: int| None::<File>)),
            final(k).cwds@ == old(k).cwds@.update(old(k).cur as int, None),
    {
        let status = k.argraw(0) as i32;
        Self::exit_with(k, status);
    }

    /// An unknown call: the caller exits with status -1.
    pub fn invalid(k: &mut Kernel)
        requires
            old(k).wf(),
            old(k).cur != old(k).init,
            old(k).procs.inner@[old(k).cur as int].state != crate::proc::ProcState::UNUSED,
            old(k).procs.parents@[old(k).cur as int] is Some,
            old(k).procs.parents@[old(k).cur as int]->0 < NPROC,
        ensures
            final(k).wf(),
            final(k).procs.inner@[old(k).cur as int].state == crate::proc::ProcState::ZOMBIE,
            final(k).procs.inner@[old(k).cur as int].xstate == -1,
            files_updated(old(k).ofiles@, final(k).ofiles@, old(k).cur as int, Seq::new(NOFILE as nat, |i: int| None::<File>)),
            final(k).cwds@ == old(k).cwds@.update(old(k).cur as int, None),
    {
        Self::exit_with(k, -1);
    }

    fn exit_with(k: &mut Kernel, status: i32)
        requires
            old(k).wf(),
            old(k).cur != old(k).init,
            old(k).procs.inner@[old(k).cur as int].state != crate::proc::ProcState::UNUSED,
            old(k).procs.parents@[old(k).cur as int] is Some,
            old(k).procs.parents@[old(k).cur as int]->0 < NPROC,
        ensures
            final(k).wf(),
            final(k).procs.inner@[old(k).cur as int].state == crate::proc::ProcState::ZOMBIE,
            final(k).procs.inner@[old(k).cur as int].xstate == status,
            forall|j: int| 0 <= j < NPROC ==> #[trigger] final(k).procs.parents@[j] == (if old(k).procs.parents@[j]
                == Some(old(k).cur) {
                Some(old(k).init)
            } else {
                old(k).procs.parents@[j]
            }),
            files_updated(old(k).ofiles@, final(k).ofiles@, old(k).cur as int, Seq::new(NOFILE as nat, |i: int| None::<File>)),
            final(k).cwds@ == old(k).cwds@.update(old(k).cur as int, None),
    {
        let mut files: Vec<Option<File>> = Vec::new();
        let mut i: usize = 0;
        while i < NOFILE
            invariant
                0 <= i <= NOFILE,
                files@ == Seq::new(i as nat, |j: int| None::<File>),
            decreases NOFILE - i,
        {
            files.push(None);
            i = i + 1;
            assert(files@ =~= Seq::new(i as nat, |j: int| None::<File>));
        }
        k.set_files(files);
        let cur = k.cur;
        k.cwds.set(cur, None);
        let init = k.init;
        let cpu = k.cpu;
        k.procs.exit(cur, status, init, cpu);
    }
}
} // verus!
