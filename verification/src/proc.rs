use vstd::prelude::*;
use crate::error::{Error, Result};
use crate::param::{NCPU, NPROC, PGSIZE};
use crate::elf::{init_image_ok, load_count, phdr_at, plan_init_image, spec_entry, sz_after, InitImage};
use crate::memlayout::{kstack, spec_kstack, user_mem_top, PGSIZE_VA, STACK_PAGE_NUM, TRAMPOLINE};
use crate::syscall::Kernel;
use crate::runq::{popped_from, runq_pop, RunQueues};
use crate::task::{ready_is_empty_cpu, Executors};
use crate::vma::{spec_pg_up, ProcVm, PG};
use crate::signal::{
    default_action, sig_mask, spec_default_action, spec_sig_mask, SigDefaultAction, NSIG, SIGALRM, SIGCONT,
    SIGKILL, SIG_DFL, SIG_IGN, WCONTINUED, WNOHANG, WUNTRACED,
};

verus! {

#[derive(Clone, Copy, Debug, PartialEq, Eq, Structural)]
pub enum ProcState {
    UNUSED,
    USED,
    SLEEPING,
    STOPPED,
    RUNNABLE,
    RUNNING,
    ZOMBIE,
}

/// A process id.
#[derive(Clone, Copy, Debug, PartialEq, Eq, Structural)]
pub struct PId(pub usize);

/// Saved callee registers for a kernel context switch.
#[derive(Clone, Copy, Debug)]
pub struct Context {
    pub ra: usize,
    pub sp: usize,
    pub s0: usize,
    pub s1: usize,
    pub s2: usize,
    pub s3: usize,
    pub s4: usize,
    pub s5: usize,
    pub s6: usize,
    pub s7: usize,
    pub s8: usize,
    pub s9: usize,
    pub s10: usize,
    pub s11: usize,
}

impl Context {
    pub open spec fn is_zero(&self) -> bool {
        &&& self.ra == 0 && self.sp == 0
        &&& self.s0 == 0 && self.s1 == 0 && self.s2 == 0 && self.s3 == 0
        &&& self.s4 == 0 && self.s5 == 0 && self.s6 == 0 && self.s7 == 0
        &&& self.s8 == 0 && self.s9 == 0 && self.s10 == 0 && self.s11 == 0
    }

    pub fn new() -> (c: Self)
        ensures
            c.is_zero(),
    {
        Context { ra: 0, sp: 0, s0: 0, s1: 0, s2: 0, s3: 0, s4: 0, s5: 0, s6: 0, s7: 0, s8: 0, s9: 0, s10: 0, s11: 0 }
    }

    /// The context a new process in slot `slot` starts from.
    pub open spec fn spec_new_context(slot: int, entry: usize) -> Context {
        Context {
            ra: entry,
            sp: (spec_kstack(slot) + STACK_PAGE_NUM * PGSIZE_VA) as usize,
            s0: 0,
            s1: 0,
            s2: 0,
            s3: 0,
            s4: 0,
            s5: 0,
            s6: 0,
            s7: 0,
            s8: 0,
            s9: 0,
            s10: 0,
            s11: 0,
        }
    }

    /// The context a new process in slot `slot` starts from: it returns
    /// to `entry` (the fork-return path) on the top of the slot's kernel
    /// stack, with the other saved registers zero.
    pub fn for_new_proc(slot: usize, entry: usize) -> (c: Self)
        requires
            slot < NPROC,
        ensures
            c.ra == entry,
            c.sp == (spec_kstack(slot as int) + STACK_PAGE_NUM * PGSIZE_VA) as usize,
            (Context { ra: 0, sp: 0, ..c }).is_zero(),
            c == Context::spec_new_context(slot as int, entry),
    {
        assert((slot + 1) * (STACK_PAGE_NUM + 1) * PGSIZE_VA <= TRAMPOLINE) by (nonlinear_arith)
            requires
                slot < NPROC,
                NPROC <= 64,
                STACK_PAGE_NUM == 25,
                PGSIZE_VA == 4096,
                TRAMPOLINE >= 0x1000_0000,
        ;
        let top = kstack(slot as u64) + STACK_PAGE_NUM * PGSIZE_VA;
        Context { ra: entry, sp: top as usize, s0: 0, s1: 0, s2: 0, s3: 0, s4: 0, s5: 0, s6: 0, s7: 0, s8: 0, s9: 0, s10: 0, s11: 0 }
    }

    pub fn write_zero(&mut self)
        ensures
            final(self).is_zero(),
    {
        self.ra = 0;
        self.sp = 0;
        self.s0 = 0;
        self.s1 = 0;
        self.s2 = 0;
        self.s3 = 0;
        self.s4 = 0;
        self.s5 = 0;
        self.s6 = 0;
        self.s7 = 0;
        self.s8 = 0;
        self.s9 = 0;
        self.s10 = 0;
        self.s11 = 0;
    }
}

/// User registers saved on entry to the kernel.
#[derive(Clone, Copy, Debug)]
pub struct Trapframe {
    pub kernel_satp: usize,
    pub kernel_sp: usize,
    pub kernel_trap: usize,
    pub epc: usize,
    pub kernel_hartid: usize,
    pub ra: usize,
    pub sp: usize,
    pub gp: usize,
    pub tp: usize,
    pub t0: usize,
    pub t1: usize,
    pub t2: usize,
    pub s0: usize,
    pub s1: usize,
    pub a0: usize,
    pub a1: usize,
    pub a2: usize,
    pub a3: usize,
    pub a4: usize,
    pub a5: usize,
    pub a6: usize,
    pub a7: usize,
    pub s2: usize,
    pub s3: usize,
    pub s4: usize,
    pub s5: usize,
    pub s6: usize,
    pub s7: usize,
    pub s8: usize,
    pub s9: usize,
    pub s10: usize,
    pub s11: usize,
    pub t3: usize,
    pub t4: usize,
    pub t5: usize,
    pub t6: usize,
}

impl Trapframe {
    pub open spec fn is_zero(&self) -> bool {
        &&& self.kernel_satp == 0 && self.kernel_sp == 0 && self.kernel_trap == 0 && self.epc == 0
        &&& self.kernel_hartid == 0 && self.ra == 0 && self.sp == 0 && self.gp == 0 && self.tp == 0
        &&& self.t0 == 0 && self.t1 == 0 && self.t2 == 0 && self.s0 == 0 && self.s1 == 0
        &&& self.a0 == 0 && self.a1 == 0 && self.a2 == 0 && self.a3 == 0 && self.a4 == 0
        &&& self.a5 == 0 && self.a6 == 0 && self.a7 == 0
        &&& self.s2 == 0 && self.s3 == 0 && self.s4 == 0 && self.s5 == 0 && self.s6 == 0
        &&& self.s7 == 0 && self.s8 == 0 && self.s9 == 0 && self.s10 == 0 && self.s11 == 0
        &&& self.t3 == 0 && self.t4 == 0 && self.t5 == 0 && self.t6 == 0
    }

    pub fn zeroed() -> (t: Self)
        ensures
            t.is_zero(),
    {
        Trapframe {
            kernel_satp: 0,
            kernel_sp: 0,
            kernel_trap: 0,
            epc: 0,
            kernel_hartid: 0,
            ra: 0,
            sp: 0,
            gp: 0,
            tp: 0,
            t0: 0,
            t1: 0,
            t2: 0,
            s0: 0,
            s1: 0,
            a0: 0,
            a1: 0,
            a2: 0,
            a3: 0,
            a4: 0,
            a5: 0,
            a6: 0,
            a7: 0,
            s2: 0,
            s3: 0,
            s4: 0,
            s5: 0,
            s6: 0,
            s7: 0,
            s8: 0,
            s9: 0,
            s10: 0,
            s11: 0,
            t3: 0,
            t4: 0,
            t5: 0,
            t6: 0,
        }
    }
}

impl Default for Trapframe {
    fn default() -> (t: Self)
        ensures
            t.is_zero(),
    {
        Self::zeroed()
    }
}

/// Interrupt-disable nesting of one CPU.
pub struct Cpu {
    /// Depth of nested interrupt-off sections.
    pub noff: usize,
    /// Whether interrupts were on before the outermost section.
    pub intena: bool,
}

impl Cpu {
    pub fn new() -> (c: Self)
        ensures
            c.noff == 0 && !c.intena,
    {
        Cpu { noff: 0, intena: false }
    }

    /// Enters an interrupt-off section; `old` says whether interrupts were
    /// on (`was_on`). At most twenty sections nest.
    pub fn locked(&mut self, was_on: bool)
        requires
            old(self).noff < 20,
        ensures
            final(self).noff == old(self).noff + 1,
            final(self).intena == (if old(self).noff == 0 { was_on } else { old(self).intena }),
    {
        if self.noff == 0 {
            self.intena = was_on;
        }
        self.noff = self.noff + 1;
    }

    /// Leaves an interrupt-off section; returns whether interrupts are to be
    /// turned back on (the outermost section ended and they were on).
    pub fn unlock(&mut self) -> (intr_on: bool)
        requires
            old(self).noff >= 1,
        ensures
            final(self).noff == old(self).noff - 1,
            final(self).intena == old(self).intena,
            intr_on == (final(self).noff == 0 && old(self).intena),
    {
        self.noff = self.noff - 1;
        self.noff == 0 && self.intena
    }
}

/// The state of a process that its lock guards.
#[derive(Clone, Copy, Debug)]
pub struct ProcInner {
    pub state: ProcState,
    pub chan: usize,
    pub killed: bool,
    pub xstate: i32,
    pub pid: PId,
    pub pgid: usize,
    pub sid: usize,
    pub last_cpu: usize,
    pub sig_pending: u32,
    pub sig_handlers: [usize; NSIG],
    pub sig_alarm_deadline: usize,
    pub sig_alarm_interval: usize,
    pub stop_sig: usize,
    pub stop_reported: bool,
    pub cont_pending: bool,
}

impl ProcInner {
    /// A free slot: unused, pid 0, default handlers.
    pub open spec fn is_fresh(&self) -> bool {
        &&& self.state == ProcState::UNUSED
        &&& self.chan == 0 && !self.killed && self.xstate == 0
        &&& self.pid == PId(0) && self.pgid == 0 && self.sid == 0
        &&& self.sig_pending == 0
        &&& forall|i: int| 0 <= i < NSIG ==> #[trigger] self.sig_handlers@[i] == SIG_DFL
        &&& self.sig_alarm_deadline == 0 && self.sig_alarm_interval == 0
        &&& self.stop_sig == 0 && !self.stop_reported && !self.cont_pending
    }

    pub fn new() -> (p: Self)
        ensures
            p.is_fresh(),
            p.last_cpu == 0,
    {
        ProcInner {
            state: ProcState::UNUSED,
            chan: 0,
            killed: false,
            xstate: 0,
            pid: PId(0),
            pgid: 0,
            sid: 0,
            last_cpu: 0,
            sig_pending: 0,
            sig_handlers: [SIG_DFL; NSIG],
            sig_alarm_deadline: 0,
            sig_alarm_interval: 0,
            stop_sig: 0,
            stop_reported: false,
            cont_pending: false,
        }
    }
}

/// The inner state after `make_runnable` on the CPU `cpu`: a process that
/// is not yet runnable becomes so, staying with its last CPU if it had one.
pub open spec fn spec_runnable(p: ProcInner, cpu: usize) -> ProcInner {
    if p.state == ProcState::RUNNABLE {
        p
    } else {
        ProcInner {
            state: ProcState::RUNNABLE,
            last_cpu: if p.last_cpu < NCPU { p.last_cpu } else { cpu },
            ..p
        }
    }
}

/// Run-queue pushes `(cpu, slot)` for the slots below `n` that became
/// runnable between `o` and `nw`, in slot order.
pub open spec fn became_runnable(o: Seq<ProcInner>, nw: Seq<ProcInner>, n: int) -> Seq<(usize, usize)>
    decreases n,
{
    if n <= 0 {
        Seq::empty()
    } else {
        became_runnable(o, nw, n - 1) + (if o[n - 1].state != ProcState::RUNNABLE && nw[n - 1].state
            == ProcState::RUNNABLE {
            seq![(nw[n - 1].last_cpu, (n - 1) as usize)]
        } else {
            Seq::empty()
        })
    }
}

pub proof fn lemma_became_prefix(o: Seq<ProcInner>, a: Seq<ProcInner>, b: Seq<ProcInner>, n: int)
    requires
        forall|j: int| 0 <= j < n ==> #[trigger] a[j] == b[j],
    ensures
        became_runnable(o, a, n) == became_runnable(o, b, n),
    decreases n,
{
    if n > 0 {
        lemma_became_prefix(o, a, b, n - 1);
    }
}

/// Whether delivering `sig` to `p` terminates it.
pub open spec fn sig_terminates(p: ProcInner, sig: usize) -> bool {
    sig == SIGKILL || (p.sig_handlers@[sig - 1] == SIG_DFL && spec_default_action(sig)
        == SigDefaultAction::Terminate)
}

/// Whether `p` ignores `sig` (it cannot ignore SIGKILL).
pub open spec fn sig_ignored(p: ProcInner, sig: usize) -> bool {
    sig != SIGKILL && p.sig_handlers@[sig - 1] == SIG_IGN
}

/// `p` after `sig` is sent to it on CPU `cpu`: marked killed when the
/// signal terminates it; unless ignored, the signal is made pending
/// (SIGCONT also clears a stop), and a sleeping process, or a stopped one
/// that the signal continues or kills, is made runnable.
pub open spec fn spec_signal(p: ProcInner, sig: usize, cpu: usize) -> ProcInner {
    let p1 = if sig_terminates(p, sig) { ProcInner { killed: true, ..p } } else { p };
    if sig_ignored(p, sig) {
        p1
    } else {
        let p2 = if sig == SIGCONT {
            ProcInner { stop_sig: 0, stop_reported: false, cont_pending: true, ..p1 }
        } else {
            p1
        };
        let p3 = ProcInner { sig_pending: p2.sig_pending | spec_sig_mask(sig), ..p2 };
        if (p3.state == ProcState::STOPPED && (sig == SIGCONT || sig_terminates(p, sig))) || p3.state
            == ProcState::SLEEPING {
            spec_runnable(p3, cpu)
        } else {
            p3
        }
    }
}

/// Index of the first slot, from slot `k` on, whose pid is `pid`.
pub open spec fn first_pid_from(s: Seq<ProcInner>, pid: usize, k: int) -> Option<int>
    decreases s.len() - k,
{
    if k < 0 || k >= s.len() {
        None
    } else if s[k].pid.0 == pid {
        Some(k)
    } else {
        first_pid_from(s, pid, k + 1)
    }
}

/// Index of the first slot whose pid is `pid`.
pub open spec fn first_with_pid(s: Seq<ProcInner>, pid: usize) -> Option<int> {
    first_pid_from(s, pid, 0)
}

/// Index of the first unused slot, from slot `k` on.
pub open spec fn first_unused_from(s: Seq<ProcInner>, k: int) -> Option<int>
    decreases s.len() - k,
{
    if k < 0 || k >= s.len() {
        None
    } else if s[k].state == ProcState::UNUSED {
        Some(k)
    } else {
        first_unused_from(s, k + 1)
    }
}

/// Index of the first unused slot.
pub open spec fn first_unused(s: Seq<ProcInner>) -> Option<int> {
    first_unused_from(s, 0)
}

pub proof fn lemma_first_unused_from(s: Seq<ProcInner>, k: int)
    requires
        0 <= k,
    ensures
        first_unused_from(s, k) matches Some(i) ==> k <= i < s.len() && s[i].state == ProcState::UNUSED,
    decreases s.len() - k,
{
    if k < s.len() && s[k].state != ProcState::UNUSED {
        lemma_first_unused_from(s, k + 1);
    }
}

/// Data as a freed slot has it: zeroed registers, no signal frame, not a
/// thread, no user stack.
pub open spec fn fresh_data(d: ProcData) -> bool {
    &&& d.trapframe.is_zero() && d.sig_trapframe.is_zero()
    &&& !d.sig_active && d.sig_restorer == 0 && !d.is_thread && d.ustack == 0
}

/// Per-process data that only the process itself touches.
pub struct ProcData {
    /// The saved kernel context the scheduler switches to.
    pub context: Context,
    pub trapframe: Trapframe,
    pub sig_trapframe: Trapframe,
    pub sig_active: bool,
    pub sig_restorer: usize,
    pub is_thread: bool,
    pub ustack: usize,
}

impl ProcData {
    pub fn new() -> (d: Self)
        ensures
            d.trapframe.is_zero() && d.sig_trapframe.is_zero() && d.context.is_zero(),
            !d.sig_active && d.sig_restorer == 0 && !d.is_thread && d.ustack == 0,
    {
        ProcData {
            context: Context::new(),
            trapframe: Trapframe::zeroed(),
            sig_trapframe: Trapframe::zeroed(),
            sig_active: false,
            sig_restorer: 0,
            is_thread: false,
            ustack: 0,
        }
    }
}

/// The process table: per-slot state and data, each slot's parent slot,
/// the next pid to hand out, and the run-queue pushes `(cpu, slot)` made
/// so far, in order.
pub struct Procs {
    pub inner: Vec<ProcInner>,
    pub data: Vec<ProcData>,
    pub parents: Vec<Option<usize>>,
    pub next_pid: usize,
    pub runq_out: Vec<(usize, usize)>,
}

impl Procs {
    pub open spec fn wf(&self) -> bool {
        &&& self.inner@.len() == NPROC
        &&& self.data@.len() == NPROC
        &&& self.parents@.len() == NPROC
        &&& forall|i: int| 0 <= i < NPROC ==> (#[trigger] self.inner@[i]).last_cpu < NCPU
        &&& forall|i: int|
            0 <= i < NPROC && (#[trigger] self.inner@[i]).state != ProcState::UNUSED ==> self.inner@[i].pid.0
                < self.next_pid
    }

    pub fn new() -> (t: Self)
        ensures
            t.wf(),
            forall|i: int| 0 <= i < NPROC ==> (#[trigger] t.inner@[i]).is_fresh(),
            forall|i: int| 0 <= i < NPROC ==> (#[trigger] t.parents@[i]) is None,
            t.next_pid == 0,
            t.runq_out@.len() == 0,
    {
        let mut inner: Vec<ProcInner> = Vec::new();
        let mut data: Vec<ProcData> = Vec::new();
        let mut parents: Vec<Option<usize>> = Vec::new();
        let mut i: usize = 0;
        while i < NPROC
            invariant
                0 <= i <= NPROC,
                inner@.len() == i && data@.len() == i && parents@.len() == i,
                forall|k: int| 0 <= k < i ==> (#[trigger] inner@[k]).is_fresh() && inner@[k].last_cpu == 0,
                forall|k: int| 0 <= k < i ==> (#[trigger] parents@[k]) is None,
            decreases NPROC - i,
        {
            inner.push(ProcInner::new());
            data.push(ProcData::new());
            parents.push(None);
            i = i + 1;
        }
        Procs { inner, data, parents, next_pid: 0, runq_out: Vec::new() }
    }

    /// The pid of slot `idx`.
    pub fn pid(&self, idx: usize) -> (p: usize)
        requires
            self.wf(),
            idx < NPROC,
        ensures
            p == self.inner@[idx as int].pid.0,
    {
        self.inner[idx].pid.0
    }

    /// Makes slot `idx` runnable on CPU `cpu` (its last CPU if it has run)
    /// and queues it there, unless it is runnable already.
    pub fn make_runnable(&mut self, idx: usize, cpu: usize)
        requires
            old(self).wf(),
            idx < NPROC,
            cpu < NCPU,
            old(self).inner@[idx as int].state != ProcState::UNUSED,
        ensures
            final(self).wf(),
            final(self).inner@ == old(self).inner@.update(
                idx as int,
                spec_runnable(old(self).inner@[idx as int], cpu),
            ),
            final(self).runq_out@ == old(self).runq_out@ + (if old(self).inner@[idx as int].state
                != ProcState::RUNNABLE {
                seq![(final(self).inner@[idx as int].last_cpu, idx)]
            } else {
                Seq::empty()
            }),
            final(self).data == old(self).data && final(self).parents == old(self).parents,
            final(self).next_pid == old(self).next_pid,
    {
        let mut p = self.inner[idx];
        if p.state != ProcState::RUNNABLE {
            p.state = ProcState::RUNNABLE;
            let c = if p.last_cpu < NCPU { p.last_cpu } else { cpu };
            p.last_cpu = c;
            self.inner.set(idx, p);
            self.runq_out.push((c, idx));
            assert(self.runq_out@ =~= old(self).runq_out@ + seq![(c, idx)]);
        } else {
            assert(self.runq_out@ =~= old(self).runq_out@ + Seq::<(usize, usize)>::empty());
            assert(self.inner@ =~= old(self).inner@.update(idx as int, spec_runnable(old(self).inner@[idx as int], cpu)));
        }
    }

    /// Sends `sig` to the process with pid `pid`.
    pub fn kill(&mut self, pid: usize, sig: usize, cpu: usize) -> (r: Result<()>)
        requires
            old(self).wf(),
            cpu < NCPU,
        ensures
            final(self).wf(),
            kill_post(*old(self), *final(self), pid, sig, cpu, r),
    {
        if sig == 0 || sig > NSIG {
            return Err(Error::InvalidArgument);
        }
        let mask = sig_mask(sig);
        let mut idx: usize = 0;
        while idx < NPROC
            invariant
                self.wf(),
                self == old(self),
                0 <= idx <= NPROC,
                1 <= sig <= NSIG,
                mask == spec_sig_mask(sig),
                first_with_pid(self.inner@, pid) == first_pid_from(self.inner@, pid, idx as int),
                cpu < NCPU,
            decreases NPROC - idx,
        {
            let p = self.inner[idx];
            if p.pid.0 == pid {
                let ghost o = self.inner@;
                let ghost out0 = self.runq_out@;
                let mut q = p;
                let handler = q.sig_handlers[sig - 1];
                if sig == SIGKILL || (handler == SIG_DFL && default_action(sig) == SigDefaultAction::Terminate) {
                    q.killed = true;
                }
                if sig != SIGKILL && handler == SIG_IGN {
                    self.inner.set(idx, q);
                    proof {
                        lemma_became_none(o, self.inner@, NPROC as int);
                        assert(self.runq_out@ =~= out0 + became_runnable(o, self.inner@, NPROC as int));
                    }
                    return Ok(());
                }
                if sig == SIGCONT {
                    q.stop_sig = 0;
                    q.stop_reported = false;
                    q.cont_pending = true;
                }
                q.sig_pending = q.sig_pending | mask;
                let terminates = sig == SIGKILL || (handler == SIG_DFL && default_action(sig)
                    == SigDefaultAction::Terminate);
                self.inner.set(idx, q);
                if (q.state == ProcState::STOPPED && (sig == SIGCONT || terminates)) || q.state
                    == ProcState::SLEEPING {
                    self.make_runnable(idx, cpu);
                }
                proof {
                    lemma_became_single(o, self.inner@, idx as int, NPROC as int);
                    assert(first_with_pid(o, pid) == Some(idx as int));
                    assert(self.inner@ =~= o.update(idx as int, spec_signal(o[idx as int], sig, cpu)));
                }
                return Ok(());
            }
            idx = idx + 1;
        }
        Err(Error::NoSuchProcess)
    }
}

/// Nothing became runnable when only a non-runnable state stayed
/// non-runnable.
pub proof fn lemma_became_none(o: Seq<ProcInner>, nw: Seq<ProcInner>, n: int)
    requires
        forall|j: int|
            0 <= j < n ==> ((#[trigger] nw[j]).state == ProcState::RUNNABLE ==> o[j].state == ProcState::RUNNABLE),
    ensures
        became_runnable(o, nw, n) == Seq::<(usize, usize)>::empty(),
    decreases n,
{
    if n > 0 {
        lemma_became_none(o, nw, n - 1);
        assert(became_runnable(o, nw, n) =~= Seq::<(usize, usize)>::empty());
    }
}

/// When only slot `i` changed, the pushes are those of slot `i`.
pub proof fn lemma_became_single(o: Seq<ProcInner>, nw: Seq<ProcInner>, i: int, n: int)
    requires
        0 <= i < n,
        o.len() >= n,
        nw.len() >= n,
        forall|j: int| 0 <= j < n && j != i ==> #[trigger] nw[j] == o[j],
    ensures
        became_runnable(o, nw, n) == (if o[i].state != ProcState::RUNNABLE && nw[i].state == ProcState::RUNNABLE {
            seq![(nw[i].last_cpu, i as usize)]
        } else {
            Seq::<(usize, usize)>::empty()
        }),
    decreases n,
{
    if n - 1 > i {
        lemma_became_single(o, nw, i, n - 1);
        assert(became_runnable(o, nw, n) =~= became_runnable(o, nw, n - 1));
    } else {
        lemma_became_none(o, nw, i);
        assert(became_runnable(o, nw, n) =~= Seq::<(usize, usize)>::empty() + (if o[i].state
            != ProcState::RUNNABLE && nw[i].state == ProcState::RUNNABLE {
            seq![(nw[i].last_cpu, i as usize)]
        } else {
            Seq::<(usize, usize)>::empty()
        }));
    }
}


/// The pushes of the slots below `i + 1` follow from those below `i` and
/// the change at slot `i`.
pub proof fn lemma_became_step(o: Seq<ProcInner>, a: Seq<ProcInner>, b: Seq<ProcInner>, i: int)
    requires
        0 <= i,
        forall|j: int| 0 <= j < i ==> #[trigger] a[j] == b[j],
    ensures
        became_runnable(o, b, i + 1) == became_runnable(o, a, i) + (if o[i].state != ProcState::RUNNABLE
            && b[i].state == ProcState::RUNNABLE {
            seq![(b[i].last_cpu, i as usize)]
        } else {
            Seq::<(usize, usize)>::empty()
        }),
{
    lemma_became_prefix(o, a, b, i);
}

/// `p` after `sig` is sent to its process group on CPU `cpu`: the same
/// as a signal to it alone, for every used slot of the group.
pub open spec fn spec_signal_pgrp(p: ProcInner, pgid: usize, sig: usize, cpu: usize) -> ProcInner {
    if p.state == ProcState::UNUSED || p.pgid != pgid {
        p
    } else {
        spec_signal(p, sig, cpu)
    }
}

/// `p` after a wakeup on `chan` (`is_cur`: it is the caller).
pub open spec fn spec_wakeup(p: ProcInner, chan: usize, is_cur: bool, cpu: usize) -> ProcInner {
    if !is_cur && p.state == ProcState::SLEEPING && p.chan == chan {
        spec_runnable(p, cpu)
    } else {
        p
    }
}

/// `p` after the clock tick at time `now`: when its alarm is due it gets
/// SIGALRM, the alarm is rearmed by its interval (or disarmed, also on
/// overflow), and a sleeper is woken.
pub open spec fn spec_tick(p: ProcInner, now: usize, cpu: usize) -> ProcInner {
    if p.sig_alarm_deadline == 0 || p.state == ProcState::UNUSED || p.state == ProcState::ZOMBIE || p.state
        == ProcState::STOPPED || now < p.sig_alarm_deadline {
        p
    } else {
        let p1 = ProcInner {
            sig_pending: p.sig_pending | spec_sig_mask(SIGALRM),
            sig_alarm_deadline: if p.sig_alarm_interval == 0 {
                0
            } else if now + p.sig_alarm_interval <= usize::MAX {
                (now + p.sig_alarm_interval) as usize
            } else {
                0
            },
            ..p
        };
        if p1.state == ProcState::SLEEPING {
            spec_runnable(p1, cpu)
        } else {
            p1
        }
    }
}

impl Procs {
    /// Sends `sig` to every used slot of process group `pgid`.
    pub fn kill_pgrp(&mut self, pgid: usize, sig: usize, cpu: usize) -> (r: Result<()>)
        requires
            old(self).wf(),
            cpu < NCPU,
        ensures
            final(self).wf(),
            final(self).data == old(self).data && final(self).parents == old(self).parents,
            final(self).next_pid == old(self).next_pid,
            pgid == 0 || sig == 0 || sig > NSIG ==> r == Err::<(), Error>(Error::InvalidArgument)
                && final(self).inner@ == old(self).inner@ && final(self).runq_out@ == old(self).runq_out@,
            pgid != 0 && 1 <= sig <= NSIG ==> {
                &&& final(self).inner@.len() == NPROC
                &&& forall|i: int| 0 <= i < NPROC ==> #[trigger] final(self).inner@[i] == spec_signal_pgrp(
                    old(self).inner@[i],
                    pgid,
                    sig,
                    cpu,
                )
                &&& final(self).runq_out@ == old(self).runq_out@ + became_runnable(
                    old(self).inner@,
                    final(self).inner@,
                    NPROC as int,
                )
                &&& (r is Ok <==> exists|i: int|
                    0 <= i < NPROC && (#[trigger] old(self).inner@[i]).state != ProcState::UNUSED
                        && old(self).inner@[i].pgid == pgid)
                &&& r is Err ==> r == Err::<(), Error>(Error::NoSuchProcess)
            },
    {
        if pgid == 0 {
            return Err(Error::InvalidArgument);
        }
        if sig == 0 || sig > NSIG {
            return Err(Error::InvalidArgument);
        }
        let mask = sig_mask(sig);
        let ghost o = self.inner@;
        let mut found = false;
        let mut idx: usize = 0;
        while idx < NPROC
            invariant
                self.wf(),
                0 <= idx <= NPROC,
                1 <= sig <= NSIG,
                cpu < NCPU,
                mask == spec_sig_mask(sig),
                o == old(self).inner@,
                self.data == old(self).data && self.parents == old(self).parents,
                self.next_pid == old(self).next_pid,
                forall|j: int| 0 <= j < idx ==> #[trigger] self.inner@[j] == spec_signal_pgrp(o[j], pgid, sig, cpu),
                forall|j: int| idx <= j < NPROC ==> #[trigger] self.inner@[j] == o[j],
                self.runq_out@ == old(self).runq_out@ + became_runnable(o, self.inner@, idx as int),
                found <==> exists|j: int|
                    0 <= j < idx && (#[trigger] o[j]).state != ProcState::UNUSED && o[j].pgid == pgid,
            decreases NPROC - idx,
        {
            let ghost before = self.inner@;
            let p = self.inner[idx];
            if p.state != ProcState::UNUSED && p.pgid == pgid {
                found = true;
                let mut q = p;
                let handler = q.sig_handlers[sig - 1];
                let terminates = sig == SIGKILL || (handler == SIG_DFL && default_action(sig)
                    == SigDefaultAction::Terminate);
                if terminates {
                    q.killed = true;
                }
                if !(sig != SIGKILL && handler == SIG_IGN) {
                    if sig == SIGCONT {
                        q.stop_sig = 0;
                        q.stop_reported = false;
                        q.cont_pending = true;
                    }
                    q.sig_pending = q.sig_pending | mask;
                    self.inner.set(idx, q);
                    if (q.state == ProcState::STOPPED && (sig == SIGCONT || terminates)) || q.state
                        == ProcState::SLEEPING {
                        self.make_runnable(idx, cpu);
                    }
                } else {
                    self.inner.set(idx, q);
                }
            }
            proof {
                lemma_became_step(o, before, self.inner@, idx as int);
                assert(self.runq_out@ =~= old(self).runq_out@ + became_runnable(o, self.inner@, idx + 1));
            }
            idx = idx + 1;
        }
        if found {
            Ok(())
        } else {
            Err(Error::NoSuchProcess)
        }
    }

    /// Wakes every slot sleeping on `chan`, except the caller's slot `cur`.
    pub fn wakeup(&mut self, chan: usize, cur: Option<usize>, cpu: usize)
        requires
            old(self).wf(),
            cpu < NCPU,
        ensures
            final(self).wf(),
            final(self).data == old(self).data && final(self).parents == old(self).parents,
            final(self).next_pid == old(self).next_pid,
            final(self).inner@.len() == NPROC,
            forall|i: int| 0 <= i < NPROC ==> #[trigger] final(self).inner@[i] == spec_wakeup(
                old(self).inner@[i],
                chan,
                cur == Some(i as usize),
                cpu,
            ),
            final(self).runq_out@ == old(self).runq_out@ + became_runnable(
                old(self).inner@,
                final(self).inner@,
                NPROC as int,
            ),
    {
        let ghost o = self.inner@;
        let mut idx: usize = 0;
        while idx < NPROC
            invariant
                self.wf(),
                0 <= idx <= NPROC,
                cpu < NCPU,
                o == old(self).inner@,
                self.data == old(self).data && self.parents == old(self).parents,
                self.next_pid == old(self).next_pid,
                forall|j: int| 0 <= j < idx ==> #[trigger] self.inner@[j] == spec_wakeup(o[j], chan, cur == Some(j as usize), cpu),
                forall|j: int| idx <= j < NPROC ==> #[trigger] self.inner@[j] == o[j],
                self.runq_out@ == old(self).runq_out@ + became_runnable(o, self.inner@, idx as int),
            decreases NPROC - idx,
        {
            let ghost before = self.inner@;
            let is_cur = match cur {
                Some(c) => c == idx,
                None => false,
            };
            let p = self.inner[idx];
            if !is_cur && p.state == ProcState::SLEEPING && p.chan == chan {
                self.make_runnable(idx, cpu);
            }
            proof {
                lemma_became_step(o, before, self.inner@, idx as int);
                assert(self.runq_out@ =~= old(self).runq_out@ + became_runnable(o, self.inner@, idx + 1));
            }
            idx = idx + 1;
        }
    }

    /// Raises SIGALRM in every slot whose alarm is due at time `now`.
    pub fn on_tick(&mut self, now: usize, cpu: usize)
        requires
            old(self).wf(),
            cpu < NCPU,
        ensures
            final(self).wf(),
            final(self).data == old(self).data && final(self).parents == old(self).parents,
            final(self).next_pid == old(self).next_pid,
            final(self).inner@.len() == NPROC,
            forall|i: int| 0 <= i < NPROC ==> #[trigger] final(self).inner@[i] == spec_tick(old(self).inner@[i], now, cpu),
            final(self).runq_out@ == old(self).runq_out@ + became_runnable(
                old(self).inner@,
                final(self).inner@,
                NPROC as int,
            ),
    {
        let ghost o = self.inner@;
        let alrm = sig_mask(SIGALRM);
        let mut idx: usize = 0;
        while idx < NPROC
            invariant
                self.wf(),
                0 <= idx <= NPROC,
                cpu < NCPU,
                alrm == spec_sig_mask(SIGALRM),
                o == old(self).inner@,
                self.data == old(self).data && self.parents == old(self).parents,
                self.next_pid == old(self).next_pid,
                forall|j: int| 0 <= j < idx ==> #[trigger] self.inner@[j] == spec_tick(o[j], now, cpu),
                forall|j: int| idx <= j < NPROC ==> #[trigger] self.inner@[j] == o[j],
                self.runq_out@ == old(self).runq_out@ + became_runnable(o, self.inner@, idx as int),
            decreases NPROC - idx,
        {
            let ghost before = self.inner@;
            let p = self.inner[idx];
            if !(p.sig_alarm_deadline == 0 || p.state == ProcState::UNUSED || p.state == ProcState::ZOMBIE
                || p.state == ProcState::STOPPED || now < p.sig_alarm_deadline) {
                let mut q = p;
                q.sig_pending = q.sig_pending | alrm;
                if q.sig_alarm_interval == 0 {
                    q.sig_alarm_deadline = 0;
                } else {
                    match now.checked_add(q.sig_alarm_interval) {
                        Some(next) => {
                            q.sig_alarm_deadline = next;
                        },
                        None => {
                            q.sig_alarm_deadline = 0;
                        },
                    }
                }
                self.inner.set(idx, q);
                if q.state == ProcState::SLEEPING {
                    self.make_runnable(idx, cpu);
                }
            }
            proof {
                lemma_became_step(o, before, self.inner@, idx as int);
                assert(self.runq_out@ =~= old(self).runq_out@ + became_runnable(o, self.inner@, idx + 1));
            }
            idx = idx + 1;
        }
    }
}

/// The lowest-numbered signal pending in `pending` (nonzero).
pub open spec fn lowest_sig(pending: u32) -> usize {
    (vstd::std_specs::bits::u32_trailing_zeros(pending) + 1) as usize
}

/// `p` with signal `sig`'s pending bit cleared.
pub open spec fn spec_clear_pending(p: ProcInner, sig: usize) -> ProcInner {
    ProcInner { sig_pending: p.sig_pending & !spec_sig_mask(sig), ..p }
}

/// Slot state and data after delivering the lowest pending signal, when
/// the process is not in a handler already: SIGKILL, a default action
/// that terminates, or a handler without a restorer kill the process; an
/// ignored signal is dropped; otherwise the registers are saved and the
/// process resumes in the handler with the signal number as argument and
/// the restorer as return address.
pub open spec fn spec_deliver(p: ProcInner, d: ProcData) -> (ProcInner, ProcData) {
    if d.sig_active || p.sig_pending == 0 {
        (p, d)
    } else {
        let sig = lowest_sig(p.sig_pending);
        if sig == SIGKILL {
            (ProcInner { killed: true, ..spec_clear_pending(p, sig) }, d)
        } else {
            let p0 = if sig == SIGCONT { ProcInner { cont_pending: false, ..p } } else { p };
            let handler = p0.sig_handlers@[sig - 1];
            if handler == SIG_IGN {
                (spec_clear_pending(p0, sig), d)
            } else if handler == SIG_DFL {
                if spec_default_action(sig) == SigDefaultAction::Terminate {
                    (ProcInner { killed: true, ..spec_clear_pending(p0, sig) }, d)
                } else {
                    (spec_clear_pending(p0, sig), d)
                }
            } else if d.sig_restorer == 0 {
                (ProcInner { killed: true, ..spec_clear_pending(p0, sig) }, d)
            } else {
                (
                    spec_clear_pending(p0, sig),
                    ProcData {
                        sig_trapframe: d.trapframe,
                        sig_active: true,
                        trapframe: Trapframe { epc: handler, a0: sig, ra: d.sig_restorer, ..d.trapframe },
                        ..d
                    },
                )
            }
        }
    }
}

impl Procs {
    /// The process group of slot `cur`.
    pub fn getpgrp(&self, cur: usize) -> (r: Result<usize>)
        requires
            self.wf(),
            cur < NPROC,
        ensures
            r == Ok::<usize, Error>(self.inner@[cur as int].pgid),
    {
        Ok(self.inner[cur].pgid)
    }

    /// Moves process `pid` (0: the caller, slot `cur`) into group `pgid`
    /// (0: its own pid). The target must be the caller or its child, in the
    /// caller's session, and not a session leader.
    pub fn setpgid(&mut self, cur: usize, pid: usize, pgid: usize) -> (r: Result<()>)
        requires
            old(self).wf(),
            cur < NPROC,
        ensures
            final(self).wf(),
            setpgid_post(*old(self), *final(self), cur, pid, pgid, r),
    {
        let my_pid = self.inner[cur].pid.0;
        let my_sid = self.inner[cur].sid;
        let target_pid = if pid == 0 { my_pid } else { pid };
        let new_pgid = if pgid == 0 { target_pid } else { pgid };
        if new_pgid == 0 {
            return Err(Error::InvalidArgument);
        }
        let mut idx: usize = 0;
        while idx < NPROC
            invariant
                self.wf(),
                self == old(self),
                0 <= idx <= NPROC,
                cur < NPROC,
                my_pid == self.inner@[cur as int].pid.0 && my_sid == self.inner@[cur as int].sid,
                target_pid == (if pid == 0 { my_pid } else { pid }),
                new_pgid == (if pgid == 0 { target_pid } else { pgid }),
                new_pgid != 0,
                first_with_pid(self.inner@, target_pid) == first_pid_from(self.inner@, target_pid, idx as int),
            decreases NPROC - idx,
        {
            let p = self.inner[idx];
            if p.pid.0 == target_pid {
                assert(first_pid_from(self.inner@, target_pid, idx as int) == Some(idx as int));
                if p.sid != my_sid {
                    return Err(Error::PermissionDenied);
                }
                if p.pid.0 == p.sid {
                    return Err(Error::PermissionDenied);
                }
                let is_child = match self.parents[idx] {
                    Some(pp) => pp == cur,
                    None => false,
                };
                if idx != cur && !is_child {
                    return Err(Error::PermissionDenied);
                }
                let mut q = p;
                q.pgid = new_pgid;
                self.inner.set(idx, q);
                return Ok(());
            }
            idx = idx + 1;
        }
        Err(Error::NoSuchProcess)
    }

    /// Makes slot `cur` the leader of a new session and group, unless it
    /// leads a group already.
    pub fn setsid(&mut self, cur: usize) -> (r: Result<usize>)
        requires
            old(self).wf(),
            cur < NPROC,
        ensures
            final(self).wf(),
            setsid_post(*old(self), *final(self), cur, r),
    {
        let mut p = self.inner[cur];
        if p.pid.0 == p.pgid {
            return Err(Error::PermissionDenied);
        }
        p.sid = p.pid.0;
        p.pgid = p.pid.0;
        p.stop_sig = 0;
        p.stop_reported = false;
        p.cont_pending = false;
        self.inner.set(cur, p);
        Ok(p.sid)
    }

    /// Whether some used slot is in group `pgid` of session `sid` (never
    /// for a zero id).
    pub fn pgid_in_session(&self, pgid: usize, sid: usize) -> (b: bool)
        requires
            self.wf(),
        ensures
            b == (pgid != 0 && sid != 0 && exists|i: int|
                0 <= i < NPROC && (#[trigger] self.inner@[i]).state != ProcState::UNUSED && self.inner@[i].pgid
                    == pgid && self.inner@[i].sid == sid),
    {
        if pgid == 0 || sid == 0 {
            return false;
        }
        let mut idx: usize = 0;
        while idx < NPROC
            invariant
                self.wf(),
                0 <= idx <= NPROC,
                pgid != 0 && sid != 0,
                forall|j: int|
                    0 <= j < idx ==> !((#[trigger] self.inner@[j]).state != ProcState::UNUSED && self.inner@[j].pgid
                        == pgid && self.inner@[j].sid == sid),
            decreases NPROC - idx,
        {
            let p = self.inner[idx];
            if p.state != ProcState::UNUSED && p.pgid == pgid && p.sid == sid {
                assert(self.inner@[idx as int].state != ProcState::UNUSED && self.inner@[idx as int].pgid == pgid
                    && self.inner@[idx as int].sid == sid);
                return true;
            }
            idx = idx + 1;
        }
        false
    }

    /// Installs `handler` for `sig` in slot `cur` (a real handler needs a
    /// `restorer`, which becomes the process's); returns the previous
    /// handler, with 0 for default and 1 for ignore. SIGKILL cannot be
    /// caught.
    pub fn sigaction(&mut self, cur: usize, sig: usize, handler: usize, restorer: usize) -> (r: Result<usize>)
        requires
            old(self).wf(),
            cur < NPROC,
        ensures
            final(self).wf(),
            sigaction_post(*old(self), *final(self), cur, sig, handler, restorer, r),
    {
        if sig == 0 || sig > NSIG {
            return Err(Error::InvalidArgument);
        }
        if sig == SIGKILL {
            return Err(Error::PermissionDenied);
        }
        let mut p = self.inner[cur];
        let prev = p.sig_handlers[sig - 1];
        let prev_ret = if prev == SIG_DFL { 0 } else if prev == SIG_IGN { 1 } else { prev };
        if handler != SIG_DFL && handler != SIG_IGN {
            if restorer == 0 {
                return Err(Error::InvalidArgument);
            }
            let mut d = self.data[cur].clone_data();
            d.sig_restorer = restorer;
            self.data.set(cur, d);
        }
        p.sig_handlers[sig - 1] = handler;
        self.inner.set(cur, p);
        Ok(prev_ret)
    }

    /// Returns slot `cur` from a signal handler: restores the registers
    /// saved when the handler was entered.
    pub fn sigreturn(&mut self, cur: usize) -> (r: Result<()>)
        requires
            old(self).wf(),
            cur < NPROC,
        ensures
            final(self).wf(),
            sigreturn_post(*old(self), *final(self), cur, r),
    {
        if !self.data[cur].sig_active {
            return Err(Error::InvalidArgument);
        }
        let mut d = self.data[cur].clone_data();
        d.trapframe = d.sig_trapframe;
        d.sig_active = false;
        self.data.set(cur, d);
        Ok(())
    }

    /// Arms slot `cur`'s alarm to fire `initial` ticks after `now` and then
    /// every `interval` ticks (`initial` 0 disarms it); returns the ticks
    /// that were left on the previous alarm.
    pub fn setitimer(&mut self, cur: usize, now: usize, initial: usize, interval: usize) -> (r: Result<usize>)
        requires
            old(self).wf(),
            cur < NPROC,
        ensures
            final(self).wf(),
            setitimer_post(*old(self), *final(self), cur, now, initial, interval, r),
    {
        let mut p = self.inner[cur];
        let prev = if p.sig_alarm_deadline == 0 {
            0
        } else if p.sig_alarm_deadline < now {
            0
        } else {
            p.sig_alarm_deadline - now
        };
        if initial == 0 {
            p.sig_alarm_deadline = 0;
            p.sig_alarm_interval = 0;
            self.inner.set(cur, p);
            return Ok(prev);
        }
        match now.checked_add(initial) {
            None => Err(Error::InvalidArgument),
            Some(deadline) => {
                p.sig_alarm_deadline = deadline;
                p.sig_alarm_interval = interval;
                self.inner.set(cur, p);
                Ok(prev)
            },
        }
    }

    /// Acts on the lowest pending signal of slot `idx`, as `spec_deliver`
    /// says.
    pub fn deliver_signals(&mut self, idx: usize)
        requires
            old(self).wf(),
            idx < NPROC,
        ensures
            final(self).wf(),
            final(self).parents == old(self).parents,
            final(self).next_pid == old(self).next_pid && final(self).runq_out == old(self).runq_out,
            ({
                let t = spec_deliver(old(self).inner@[idx as int], old(self).data@[idx as int]);
                &&& final(self).inner@ == old(self).inner@.update(idx as int, t.0)
                &&& final(self).data@ == old(self).data@.update(idx as int, t.1)
            }),
    {
        if self.data[idx].sig_active {
            assert(self.inner@ =~= old(self).inner@.update(idx as int, old(self).inner@[idx as int]));
            assert(self.data@ =~= old(self).data@.update(idx as int, old(self).data@[idx as int]));
            return;
        }
        let mut p = self.inner[idx];
        let pending = p.sig_pending;
        if pending == 0 {
            assert(self.inner@ =~= old(self).inner@.update(idx as int, old(self).inner@[idx as int]));
            assert(self.data@ =~= old(self).data@.update(idx as int, old(self).data@[idx as int]));
            return;
        }
        proof {
            vstd::std_specs::bits::axiom_u32_trailing_zeros(pending);
        }
        let sig = pending.trailing_zeros() as usize + 1;
        let mask = sig_mask(sig);
        if sig == SIGKILL {
            p.sig_pending = p.sig_pending & !mask;
            p.killed = true;
            self.inner.set(idx, p);
            assert(self.data@ =~= old(self).data@.update(idx as int, old(self).data@[idx as int]));
            return;
        }
        if sig == SIGCONT {
            p.cont_pending = false;
        }
        let handler = p.sig_handlers[sig - 1];
        if handler == SIG_IGN {
            p.sig_pending = p.sig_pending & !mask;
            self.inner.set(idx, p);
            assert(self.data@ =~= old(self).data@.update(idx as int, old(self).data@[idx as int]));
            return;
        }
        if handler == SIG_DFL {
            p.sig_pending = p.sig_pending & !mask;
            match default_action(sig) {
                SigDefaultAction::Terminate => {
                    p.killed = true;
                },
                SigDefaultAction::Ignore => {},
            }
            self.inner.set(idx, p);
            assert(self.data@ =~= old(self).data@.update(idx as int, old(self).data@[idx as int]));
            return;
        }
        let restorer = self.data[idx].sig_restorer;
        if restorer == 0 {
            p.sig_pending = p.sig_pending & !mask;
            p.killed = true;
            self.inner.set(idx, p);
            assert(self.data@ =~= old(self).data@.update(idx as int, old(self).data@[idx as int]));
            return;
        }
        let mut d = self.data[idx].clone_data();
        d.sig_trapframe = d.trapframe;
        d.sig_active = true;
        p.sig_pending = p.sig_pending & !mask;
        d.trapframe.epc = handler;
        d.trapframe.a0 = sig;
        d.trapframe.ra = restorer;
        self.inner.set(idx, p);
        self.data.set(idx, d);
    }
}

impl ProcData {
    /// A copy of the data.
    pub fn clone_data(&self) -> (d: Self)
        ensures
            d == *self,
    {
        ProcData {
            context: self.context,
            trapframe: self.trapframe,
            sig_trapframe: self.sig_trapframe,
            sig_active: self.sig_active,
            sig_restorer: self.sig_restorer,
            is_thread: self.is_thread,
            ustack: self.ustack,
        }
    }
}

/// Wait channel of the process in slot `idx`.
pub open spec fn spec_proc_chan(idx: int) -> int {
    idx + 1
}

pub fn proc_chan(idx: usize) -> (c: usize)
    requires
        idx < NPROC,
    ensures
        c == spec_proc_chan(idx as int),
{
    idx + 1
}

/// The new state of a slot taken by `alloc` with pid `pid`.
pub open spec fn spec_alloc_inner(p: ProcInner, pid: usize) -> ProcInner {
    ProcInner {
        pid: PId(pid),
        state: ProcState::USED,
        pgid: pid,
        sid: pid,
        stop_sig: 0,
        stop_reported: false,
        cont_pending: false,
        ..p
    }
}

impl Procs {
    /// Takes the first unused slot for a new process with the next pid
    /// (pids are handed out in order, wrapping around), in its own group
    /// and session, with zeroed registers. `WouldBlock` when the table is
    /// full.
    pub fn alloc_slot(&mut self, entry: usize) -> (r: Result<usize>)
        requires
            old(self).wf(),
            old(self).next_pid < usize::MAX,
        ensures
            final(self).wf(),
            final(self).parents == old(self).parents && final(self).runq_out == old(self).runq_out,
            r matches Ok(c) ==> (c < NPROC && old(self).inner@[c as int].state == ProcState::UNUSED),
            first_unused(old(self).inner@) matches Some(i) ==> 0 <= i < NPROC && r == Ok::<usize, Error>(i as usize),
            match first_unused(old(self).inner@) {
                None => r == Err::<usize, Error>(Error::WouldBlock) && *final(self) == *old(self),
                Some(i) => {
                    &&& r == Ok::<usize, Error>(i as usize)
                    &&& final(self).next_pid == vstd::wrapping::usize_specs::wrapping_add(old(self).next_pid, 1)
                    &&& final(self).inner@ == old(self).inner@.update(
                        i,
                        spec_alloc_inner(old(self).inner@[i], old(self).next_pid),
                    )
                    &&& final(self).data@.len() == NPROC
                    &&& final(self).data@[i].trapframe.is_zero()
                    &&& final(self).data@[i] == (ProcData {
                        trapframe: final(self).data@[i].trapframe,
                        context: Context::spec_new_context(i, entry),
                        ..old(self).data@[i]
                    })
                    &&& forall|j: int| 0 <= j < NPROC && j != i ==> #[trigger] final(self).data@[j] == old(self).data@[j]
                },
            },
    {
        proof {
            lemma_first_unused_from(self.inner@, 0);
        }
        let mut idx: usize = 0;
        while idx < NPROC
            invariant
                self.wf(),
                *self == *old(self),
                0 <= idx <= NPROC,
                first_unused(self.inner@) == first_unused_from(self.inner@, idx as int),
                self.next_pid < usize::MAX,
            decreases NPROC - idx,
        {
            let mut p = self.inner[idx];
            if p.state == ProcState::UNUSED {
                let pid = self.next_pid;
                self.next_pid = self.next_pid.wrapping_add(1);
                p.pid = PId(pid);
                p.state = ProcState::USED;
                p.pgid = pid;
                p.sid = pid;
                p.stop_sig = 0;
                p.stop_reported = false;
                p.cont_pending = false;
                self.inner.set(idx, p);
                let mut d = self.data[idx].clone_data();
                d.trapframe = Trapframe::zeroed();
                d.context = Context::for_new_proc(idx, entry);
                self.data.set(idx, d);
                proof {
                    assert(self.next_pid == pid + 1);
                    assert forall|i: int|
                        0 <= i < NPROC && (#[trigger] self.inner@[i]).state != ProcState::UNUSED implies self.inner@[i].pid.0
                            < self.next_pid by {
                        if i != idx {
                            assert(self.inner@[i] == old(self).inner@[i]);
                        }
                    }
                }
                return Ok(idx);
            }
            idx = idx + 1;
        }
        Err(Error::WouldBlock)
    }

    /// Returns slot `idx` to the free pool.
    pub fn free(&mut self, idx: usize)
        requires
            old(self).wf(),
            idx < NPROC,
        ensures
            final(self).wf(),
            final(self).parents == old(self).parents && final(self).runq_out == old(self).runq_out,
            final(self).next_pid == old(self).next_pid,
            final(self).inner@.len() == NPROC && final(self).data@.len() == NPROC,
            final(self).inner@[idx as int].is_fresh(),
            final(self).inner@[idx as int].last_cpu == old(self).inner@[idx as int].last_cpu,
            fresh_data(final(self).data@[idx as int]),
            forall|j: int| 0 <= j < NPROC && j != idx ==> #[trigger] final(self).inner@[j] == old(self).inner@[j],
            forall|j: int| 0 <= j < NPROC && j != idx ==> #[trigger] final(self).data@[j] == old(self).data@[j],
    {
        let last = self.inner[idx].last_cpu;
        let mut p = ProcInner::new();
        p.last_cpu = last;
        self.inner.set(idx, p);
        self.data.set(idx, ProcData::new());
    }

    /// Ends the process in slot `cur` with `status`: its children go to
    /// `init` (which is woken if there were any), its parent is woken, and
    /// it becomes a zombie for the parent to collect.
    pub fn exit(&mut self, cur: usize, status: i32, init: usize, cpu: usize)
        requires
            old(self).wf(),
            cur < NPROC,
            old(self).inner@[cur as int].state != ProcState::UNUSED,
            init < NPROC,
            cur != init,
            cpu < NCPU,
            old(self).parents@[cur as int] is Some,
            old(self).parents@[cur as int]->0 < NPROC,
        ensures
            final(self).wf(),
            final(self).data == old(self).data && final(self).next_pid == old(self).next_pid,
            final(self).parents@.len() == NPROC,
            forall|j: int| 0 <= j < NPROC ==> #[trigger] final(self).parents@[j] == (if old(self).parents@[j]
                == Some(cur) {
                Some(init)
            } else {
                old(self).parents@[j]
            }),
            ({
                let any = exists|j: int| 0 <= j < NPROC && #[trigger] old(self).parents@[j] == Some(cur);
                let parent = old(self).parents@[cur as int]->0;
                let o = old(self).inner@;
                let w1 = if any {
                    Seq::new(NPROC as nat, |i: int| spec_wakeup(o[i], spec_proc_chan(init as int) as usize, i == cur, cpu))
                } else {
                    o
                };
                let w2 = Seq::new(NPROC as nat, |i: int| spec_wakeup(w1[i], spec_proc_chan(parent as int) as usize, i == cur, cpu));
                &&& final(self).inner@ == w2.update(
                    cur as int,
                    ProcInner { xstate: status, state: ProcState::ZOMBIE, ..w2[cur as int] },
                )
                &&& final(self).runq_out@ == old(self).runq_out@ + became_runnable(o, w1, NPROC as int)
                    + became_runnable(w1, w2, NPROC as int)
            }),
    {
        let parent = match self.parents[cur] {
            Some(pp) => pp,
            None => { return; },
        };
        let ghost o = self.inner@;
        let mut any = false;
        let mut j: usize = 0;
        while j < NPROC
            invariant
                self.wf(),
                0 <= j <= NPROC,
                self.inner == old(self).inner && self.data == old(self).data,
                self.runq_out == old(self).runq_out && self.next_pid == old(self).next_pid,
                old(self).parents@.len() == NPROC,
                o == old(self).inner@,
                forall|k: int| 0 <= k < j ==> #[trigger] self.parents@[k] == (if old(self).parents@[k] == Some(cur) {
                    Some(init)
                } else {
                    old(self).parents@[k]
                }),
                forall|k: int| j <= k < NPROC ==> #[trigger] self.parents@[k] == old(self).parents@[k],
                any <==> exists|k: int| 0 <= k < j && #[trigger] old(self).parents@[k] == Some(cur),
            decreases NPROC - j,
        {
            if self.parents[j] == Some(cur) {
                self.parents.set(j, Some(init));
                any = true;
            }
            j = j + 1;
        }
        let ghost w1;
        if any {
            self.wakeup(init + 1, Some(cur), cpu);
            proof {
                w1 = Seq::new(NPROC as nat, |i: int| spec_wakeup(o[i], spec_proc_chan(init as int) as usize, i == cur, cpu));
                assert(self.inner@ =~= w1);
            }
        } else {
            proof {
                w1 = o;
                lemma_became_none(o, o, NPROC as int);
                assert(self.runq_out@ =~= old(self).runq_out@ + became_runnable(o, w1, NPROC as int));
            }
        }
        let ghost out1 = self.runq_out@;
        self.wakeup(parent + 1, Some(cur), cpu);
        let ghost w2 = Seq::new(NPROC as nat, |i: int| spec_wakeup(w1[i], spec_proc_chan(parent as int) as usize, i == cur, cpu));
        assert(self.inner@ =~= w2);
        let mut p = self.inner[cur];
        p.xstate = status;
        p.state = ProcState::ZOMBIE;
        self.inner.set(cur, p);
    }
}


/// A new child's inner state: what `alloc_slot` set up, with the parent's
/// handlers, alarm, group and session, no pending signal, made runnable.
pub open spec fn spec_child_inner(slot: ProcInner, parent: ProcInner, pid: usize, cpu: usize) -> ProcInner {
    spec_runnable(
        ProcInner {
            sig_handlers: parent.sig_handlers,
            sig_pending: 0,
            sig_alarm_deadline: parent.sig_alarm_deadline,
            sig_alarm_interval: parent.sig_alarm_interval,
            pgid: parent.pgid,
            sid: parent.sid,
            ..spec_alloc_inner(slot, pid)
        },
        cpu,
    )
}

impl Procs {
    /// Copies the inherited parts of slot `cur`'s state into the new slot
    /// `c`, makes `cur` its parent and queues it.
    fn adopt_child(&mut self, cur: usize, c: usize, cpu: usize)
        requires
            old(self).wf(),
            cur < NPROC,
            c < NPROC,
            c != cur,
            old(self).inner@[c as int].state != ProcState::UNUSED,
            cpu < NCPU,
            old(self).inner@[c as int].state != ProcState::RUNNABLE,
        ensures
            final(self).wf(),
            final(self).data == old(self).data && final(self).next_pid == old(self).next_pid,
            final(self).inner@ == old(self).inner@.update(
                c as int,
                spec_runnable(
                    ProcInner {
                        sig_handlers: old(self).inner@[cur as int].sig_handlers,
                        sig_pending: 0,
                        sig_alarm_deadline: old(self).inner@[cur as int].sig_alarm_deadline,
                        sig_alarm_interval: old(self).inner@[cur as int].sig_alarm_interval,
                        pgid: old(self).inner@[cur as int].pgid,
                        sid: old(self).inner@[cur as int].sid,
                        stop_sig: 0,
                        stop_reported: false,
                        cont_pending: false,
                        ..old(self).inner@[c as int]
                    },
                    cpu,
                ),
            ),
            final(self).parents@ == old(self).parents@.update(c as int, Some(cur)),
            final(self).runq_out@ == old(self).runq_out@.push((final(self).inner@[c as int].last_cpu, c)),
    {
        let parent = self.inner[cur];
        let mut q = self.inner[c];
        q.sig_handlers = parent.sig_handlers;
        q.sig_pending = 0;
        q.sig_alarm_deadline = parent.sig_alarm_deadline;
        q.sig_alarm_interval = parent.sig_alarm_interval;
        q.pgid = parent.pgid;
        q.sid = parent.sid;
        q.stop_sig = 0;
        q.stop_reported = false;
        q.cont_pending = false;
        self.inner.set(c, q);
        self.parents.set(c, Some(cur));
        self.make_runnable(c, cpu);
        assert(self.runq_out@ =~= old(self).runq_out@.push((self.inner@[c as int].last_cpu, c)));
    }

    /// Creates a child of slot `cur` as a copy of it: same registers (but
    /// returning 0), handlers, alarm, group and session. `copy` is what
    /// copying the address space gives; when it fails the child is freed
    /// and its error returned. Returns the child's pid.
    pub fn fork(&mut self, cur: usize, cpu: usize, entry: usize, copy: Result<()>) -> (r: Result<usize>)
        requires
            old(self).wf(),
            cur < NPROC,
            cpu < NCPU,
            old(self).inner@[cur as int].state != ProcState::UNUSED,
            old(self).next_pid < usize::MAX,
        ensures
            final(self).wf(),
            fork_post(*old(self), *final(self), cur, cpu, entry, copy, r),
            r matches Ok(p) ==> forall|j: int|
                0 <= j < NPROC && (#[trigger] old(self).inner@[j]).state != ProcState::UNUSED ==> old(self).inner@[j].pid.0
                    != p,
    {
        let c = match self.alloc_slot(entry) {
            Ok(c) => c,
            Err(e) => { return Err(e); },
        };
        assert(first_unused(old(self).inner@) == Some(c as int));
        assert(self.inner@[c as int].state == ProcState::USED);
        let pid = self.inner[c].pid.0;
        match copy {
            Err(e) => {
                self.free(c);
                return Err(e);
            },
            Ok(_) => {},
        }
        let mut d = self.data[c].clone_data();
        let mut tf = self.data[cur].trapframe;
        tf.a0 = 0;
        d.trapframe = tf;
        d.sig_trapframe = Trapframe::zeroed();
        d.sig_active = false;
        d.sig_restorer = self.data[cur].sig_restorer;
        self.data.set(c, d);
        self.adopt_child(cur, c, cpu);
        proof {
            let parent = old(self).inner@[cur as int];
            assert(self.inner@ =~= old(self).inner@.update(
                c as int,
                spec_child_inner(old(self).inner@[c as int], parent, old(self).next_pid, cpu),
            ));
            assert(self.parents@ =~= old(self).parents@.update(c as int, Some(cur)));
            let pd = old(self).data@[cur as int];
            assert(self.data@ =~= old(self).data@.update(
                c as int,
                ProcData {
                    trapframe: Trapframe { a0: 0, ..pd.trapframe },
                    sig_trapframe: self.data@[c as int].sig_trapframe,
                    sig_active: false,
                    sig_restorer: pd.sig_restorer,
                    context: Context::spec_new_context(c as int, entry),
                    ..old(self).data@[c as int]
                },
            ));
        }
        Ok(pid)
    }

    /// Creates a thread of slot `cur` sharing its address space, starting
    /// at `fcn(arg1, arg2)` on the page-sized stack at `stack`, which must
    /// be page aligned, nonzero and inside the address space of size `sz`.
    /// `map` is what mapping the thread's trapframe gives. Returns the
    /// thread's pid.
    pub fn clone(
        &mut self,
        cur: usize,
        cpu: usize,
        entry: usize,
        fcn: usize,
        arg1: usize,
        arg2: usize,
        stack: usize,
        sz: u64,
        map: Result<()>,
    ) -> (r: Result<usize>)
        requires
            old(self).wf(),
            cur < NPROC,
            cpu < NCPU,
            old(self).inner@[cur as int].state != ProcState::UNUSED,
            old(self).next_pid < usize::MAX,
        ensures
            final(self).wf(),
            r matches Ok(p) ==> forall|j: int|
                0 <= j < NPROC && (#[trigger] old(self).inner@[j]).state != ProcState::UNUSED ==> old(self).inner@[j].pid.0
                    != p,
            clone_post(*old(self), *final(self), cur, cpu, entry, fcn, arg1, arg2, stack, sz, map, r),
    {
        if stack == 0 || stack % PGSIZE != 0 {
            return Err(Error::BadVirtAddr);
        }
        match stack.checked_add(PGSIZE) {
            None => { return Err(Error::BadVirtAddr); },
            Some(top) => {
                if (top as u64) > sz {
                    return Err(Error::BadVirtAddr);
                }
            },
        }
        let c = match self.alloc_slot(entry) {
            Ok(c) => c,
            Err(e) => { return Err(e); },
        };
        assert(first_unused(old(self).inner@) == Some(c as int));
        assert(self.inner@[c as int].state == ProcState::USED);
        let pid = self.inner[c].pid.0;
        match map {
            Err(e) => { return Err(e); },
            Ok(_) => {},
        }
        let mut d = self.data[c].clone_data();
        let mut tf = self.data[cur].trapframe;
        tf.epc = fcn;
        tf.sp = stack + PGSIZE;
        tf.a0 = arg1;
        tf.a1 = arg2;
        d.trapframe = tf;
        d.is_thread = true;
        d.ustack = stack;
        d.sig_trapframe = Trapframe::zeroed();
        d.sig_active = false;
        d.sig_restorer = self.data[cur].sig_restorer;
        self.data.set(c, d);
        self.adopt_child(cur, c, cpu);
        proof {
            let parent = old(self).inner@[cur as int];
            assert(self.inner@ =~= old(self).inner@.update(
                c as int,
                spec_child_inner(old(self).inner@[c as int], parent, old(self).next_pid, cpu),
            ));
            assert(self.parents@ =~= old(self).parents@.update(c as int, Some(cur)));
            let pd = old(self).data@[cur as int];
            assert(self.data@ =~= old(self).data@.update(
                c as int,
                ProcData {
                    trapframe: Trapframe { epc: fcn, sp: (stack + PGSIZE) as usize, a0: arg1, a1: arg2, ..pd.trapframe },
                    sig_trapframe: self.data@[c as int].sig_trapframe,
                    sig_active: false,
                    sig_restorer: pd.sig_restorer,
                    is_thread: true,
                    ustack: stack,
                    context: Context::spec_new_context(c as int, entry),
                },
            ));
        }
        Ok(pid)
    }
}

/// What one scan of `waitpid` found.
pub enum WaitStep {
    /// A child changed state: its pid and the status written for it.
    Found(usize, i32),
    /// Nothing yet, and the caller asked not to wait.
    NoHang,
    /// Nothing yet: sleep on the caller's channel and scan again.
    Sleep,
}

/// What one scan of `join` found.
pub enum JoinStep {
    /// A thread exited: its pid and its stack base.
    Found(usize, usize),
    /// Sleep on the caller's channel and scan again.
    Sleep,
}

/// The status reported for a child stopped by `sig`.
pub open spec fn spec_stop_status(sig: usize) -> i32 {
    ((sig % 256) * 256 + 0x7f) as i32
}

pub fn stop_status(sig: usize) -> (st: i32)
    ensures
        st == spec_stop_status(sig),
{
    let low: usize = sig % 256;
    (low * 256 + 0x7f) as i32
}

/// Slot `c` is a child process (not a thread) of `cur` that `pid` selects
/// (any child when `pid` is not positive).
pub open spec fn wait_eligible(t: Procs, cur: usize, pid: isize, c: int) -> bool {
    &&& t.parents@[c] == Some(cur)
    &&& !t.data@[c].is_thread
    &&& (pid <= 0 || t.inner@[c].pid.0 == pid as usize)
}

/// Whether `p` has something to report under `options`: an unreported
/// stop (with WUNTRACED), a continue (with WCONTINUED), or an exit.
pub open spec fn wait_event(p: ProcInner, options: usize) -> bool {
    ||| p.state == ProcState::STOPPED && options & WUNTRACED != 0 && !p.stop_reported
    ||| options & WCONTINUED != 0 && p.cont_pending
    ||| p.state == ProcState::ZOMBIE
}

/// The first eligible child with something to report, from slot `k` on.
pub open spec fn first_wait_from(t: Procs, cur: usize, pid: isize, options: usize, k: int) -> Option<int>
    decreases NPROC - k,
{
    if k < 0 || k >= NPROC {
        None
    } else if wait_eligible(t, cur, pid, k) && wait_event(t.inner@[k], options) {
        Some(k)
    } else {
        first_wait_from(t, cur, pid, options, k + 1)
    }
}

pub proof fn lemma_first_wait_from(t: Procs, cur: usize, pid: isize, options: usize, k: int)
    requires
        0 <= k,
    ensures
        first_wait_from(t, cur, pid, options, k) matches Some(i) ==> k <= i < NPROC,
    decreases NPROC - k,
{
    if k < NPROC && !(wait_eligible(t, cur, pid, k) && wait_event(t.inner@[k], options)) {
        lemma_first_wait_from(t, cur, pid, options, k + 1);
    }
}

/// Whether a pending `sig` would be dropped unhandled by `p`.
pub open spec fn sig_ignorable(p: ProcInner, sig: usize) -> bool {
    p.sig_handlers@[sig - 1] == SIG_IGN || (p.sig_handlers@[sig - 1] == SIG_DFL && spec_default_action(sig)
        == SigDefaultAction::Ignore)
}

/// The bits of the signals `1..=k` that `p` would drop.
pub open spec fn ign_mask(p: ProcInner, k: int) -> u32
    decreases k,
{
    if k <= 0 {
        0
    } else {
        ign_mask(p, k - 1) | (if sig_ignorable(p, k as usize) { spec_sig_mask(k as usize) } else { 0 })
    }
}

pub proof fn lemma_clear_bits(x: u32, a: u32, b: u32)
    ensures
        (x & !a) & !b == x & !(a | b),
        a | 0u32 == a,
        (x & !a) & b == 0u32 ==> (x & !a) == x & !(a | b),
{
    assert((x & !a) & !b == x & !(a | b)) by (bit_vector);
    assert(a | 0u32 == a) by (bit_vector);
    assert((x & !a) & b == 0u32 ==> (x & !a) == x & !(a | b)) by (bit_vector);
}

impl Procs {
    /// The slot one scan of `waitpid` reports on: the first child it may
    /// wait for that has something to report.
    pub fn wait_target(&self, cur: usize, pid: isize, options: usize) -> (r: Option<usize>)
        requires
            self.wf(),
            cur < NPROC,
            pid >= -1,
        ensures
            match first_wait_from(*self, cur, pid, options, 0) {
                Some(c) => r == Some(c as usize),
                None => r is None,
            },
    {
        proof {
            lemma_first_wait_from(*self, cur, pid, options, 0);
        }
        let mut c: usize = 0;
        while c < NPROC
            invariant
                self.wf(),
                pid >= -1,
                0 <= c <= NPROC,
                first_wait_from(*self, cur, pid, options, 0) == first_wait_from(*self, cur, pid, options, c as int),
            decreases NPROC - c,
        {
            let is_child = match self.parents[c] {
                Some(pp) => pp == cur,
                None => false,
            };
            if is_child && !self.data[c].is_thread {
                let p = self.inner[c];
                if pid <= 0 || p.pid.0 == pid as usize {
                    let stopped = p.state == ProcState::STOPPED && options & WUNTRACED != 0 && !p.stop_reported;
                    let cont = options & WCONTINUED != 0 && p.cont_pending;
                    if stopped || cont || p.state == ProcState::ZOMBIE {
                        return Some(c);
                    }
                }
            }
            c = c + 1;
        }
        None
    }

    /// One scan of `waitpid(pid, options)` by slot `cur`: reports the first
    /// child that `pid` selects and that stopped, continued or exited
    /// (collecting an exited one), as long as the status can be written
    /// (`copy_ok`). Otherwise: nothing with WNOHANG; an error when there is
    /// no such child or the caller was killed; else the caller's ignorable
    /// pending signals are dropped and it is interrupted by the others, or
    /// sleeps.
    pub fn waitpid(&mut self, cur: usize, pid: isize, options: usize, copy_ok: bool) -> (r: Result<WaitStep>)
        requires
            old(self).wf(),
            cur < NPROC,
        ensures
            final(self).wf(),
            waitpid_post(*old(self), *final(self), cur, pid, options, copy_ok, r),
    {
        if pid < -1 {
            return Err(Error::InvalidArgument);
        }
        let ghost t0 = *self;
        proof {
            lemma_first_wait_from(t0, cur, pid, options, 0);
        }
        let mut havekids = false;
        let mut c: usize = 0;
        while c < NPROC
            invariant
                self.wf(),
                *self == t0,
                t0 == *old(self),
                pid >= -1,
                0 <= c <= NPROC,
                first_wait_from(t0, cur, pid, options, 0) == first_wait_from(t0, cur, pid, options, c as int),
                havekids <==> exists|k: int| 0 <= k < c && #[trigger] wait_eligible(t0, cur, pid, k),
            decreases NPROC - c,
        {
            let is_child = match self.parents[c] {
                Some(pp) => pp == cur,
                None => false,
            };
            if is_child && !self.data[c].is_thread {
                let p = self.inner[c];
                let selected = pid <= 0 || p.pid.0 == pid as usize;
                if selected {
                    havekids = true;
                    assert(wait_eligible(t0, cur, pid, c as int));
                    if p.state == ProcState::STOPPED && options & WUNTRACED != 0 && !p.stop_reported {
                        if !copy_ok {
                            return Err(Error::BadVirtAddr);
                        }
                        let st = stop_status(p.stop_sig);
                        let mut q = p;
                        q.stop_reported = true;
                        self.inner.set(c, q);
                        return Ok(WaitStep::Found(p.pid.0, st));
                    }
                    if options & WCONTINUED != 0 && p.cont_pending {
                        if !copy_ok {
                            return Err(Error::BadVirtAddr);
                        }
                        let mut q = p;
                        q.cont_pending = false;
                        self.inner.set(c, q);
                        return Ok(WaitStep::Found(p.pid.0, 0xffffi32));
                    }
                    if p.state == ProcState::ZOMBIE {
                        if !copy_ok {
                            return Err(Error::BadVirtAddr);
                        }
                        let st = p.xstate;
                        self.free(c);
                        self.parents.set(c, None);
                        return Ok(WaitStep::Found(p.pid.0, st));
                    }
                }
            }
            c = c + 1;
        }
        if options & WNOHANG != 0 {
            return Ok(WaitStep::NoHang);
        }
        if !havekids || self.inner[cur].killed {
            return Err(Error::NoChildProcesses);
        }
        let mut me = self.inner[cur];
        let ghost orig = me;
        let mut pending = me.sig_pending;
        proof {
            let x = orig.sig_pending;
            assert(x & !0u32 == x) by (bit_vector);
            assert(ign_mask(orig, 0) == 0u32);
        }
        let mut sig: usize = 1;
        while sig <= NSIG
            invariant
                1 <= sig <= NSIG + 1,
                orig.sig_handlers == me.sig_handlers,
                me == (ProcInner { sig_pending: me.sig_pending, ..orig }),
                pending == me.sig_pending,
                me.sig_pending == orig.sig_pending & !ign_mask(orig, sig - 1),
            decreases NSIG + 1 - sig,
        {
            let mask = sig_mask(sig);
            proof {
                lemma_clear_bits(orig.sig_pending, ign_mask(orig, sig - 1), spec_sig_mask(sig));
                assert(ign_mask(orig, sig as int) == ign_mask(orig, sig - 1) | (if sig_ignorable(orig, sig) {
                    spec_sig_mask(sig)
                } else {
                    0
                }));
            }
            if pending & mask != 0 {
                let handler = me.sig_handlers[sig - 1];
                if handler == SIG_IGN || (handler == SIG_DFL && default_action(sig) == SigDefaultAction::Ignore) {
                    pending = pending & !mask;
                    me.sig_pending = me.sig_pending & !mask;
                }
            }
            sig = sig + 1;
        }
        self.inner.set(cur, me);
        if pending != 0 {
            return Err(Error::Interrupted);
        }
        Ok(WaitStep::Sleep)
    }
}

/// Slot `c` is a thread created by `cur`.
pub open spec fn child_thread(t: Procs, cur: usize, c: int) -> bool {
    t.parents@[c] == Some(cur) && t.data@[c].is_thread
}

/// The first exited thread of `cur`, from slot `k` on.
pub open spec fn first_join_from(t: Procs, cur: usize, k: int) -> Option<int>
    decreases NPROC - k,
{
    if k < 0 || k >= NPROC {
        None
    } else if child_thread(t, cur, k) && t.inner@[k].state == ProcState::ZOMBIE {
        Some(k)
    } else {
        first_join_from(t, cur, k + 1)
    }
}

pub proof fn lemma_first_join_from(t: Procs, cur: usize, k: int)
    requires
        0 <= k,
    ensures
        first_join_from(t, cur, k) matches Some(i) ==> k <= i < NPROC,
    decreases NPROC - k,
{
    if k < NPROC && !(child_thread(t, cur, k) && t.inner@[k].state == ProcState::ZOMBIE) {
        lemma_first_join_from(t, cur, k + 1);
    }
}

/// A thread of the reaping process after it is told to die: killed, and
/// woken if asleep.
pub open spec fn spec_kill_thread(p: ProcInner, cpu: usize) -> ProcInner {
    let p1 = ProcInner { killed: true, ..p };
    if p1.state == ProcState::SLEEPING {
        spec_runnable(p1, cpu)
    } else {
        p1
    }
}

impl Procs {
    /// The slot one scan of `join` reports on: the first exited thread of
    /// `cur`.
    pub fn join_target(&self, cur: usize) -> (r: Option<usize>)
        requires
            self.wf(),
        ensures
            match first_join_from(*self, cur, 0) {
                Some(c) => r == Some(c as usize),
                None => r is None,
            },
    {
        proof {
            lemma_first_join_from(*self, cur, 0);
        }
        let mut c: usize = 0;
        while c < NPROC
            invariant
                self.wf(),
                0 <= c <= NPROC,
                first_join_from(*self, cur, 0) == first_join_from(*self, cur, c as int),
            decreases NPROC - c,
        {
            let is_child = match self.parents[c] {
                Some(pp) => pp == cur,
                None => false,
            };
            if is_child && self.data[c].is_thread && self.inner[c].state == ProcState::ZOMBIE {
                return Some(c);
            }
            c = c + 1;
        }
        None
    }

    /// One scan of `join` by slot `cur`: collects the first exited thread
    /// it created, as long as its stack base can be written (`copy_ok`).
    /// Otherwise an error when it has no threads or was killed, else sleep.
    pub fn join(&mut self, cur: usize, copy_ok: bool) -> (r: Result<JoinStep>)
        requires
            old(self).wf(),
            cur < NPROC,
        ensures
            final(self).wf(),
            join_post(*old(self), *final(self), cur, copy_ok, r),
    {
        let ghost t0 = *self;
        proof {
            lemma_first_join_from(t0, cur, 0);
        }
        let mut havekids = false;
        let mut c: usize = 0;
        while c < NPROC
            invariant
                self.wf(),
                *self == t0,
                t0 == *old(self),
                0 <= c <= NPROC,
                first_join_from(t0, cur, 0) == first_join_from(t0, cur, c as int),
                havekids <==> exists|k: int| 0 <= k < c && #[trigger] child_thread(t0, cur, k),
            decreases NPROC - c,
        {
            let is_child = match self.parents[c] {
                Some(pp) => pp == cur,
                None => false,
            };
            if is_child && self.data[c].is_thread {
                havekids = true;
                assert(child_thread(t0, cur, c as int));
                let p = self.inner[c];
                if p.state == ProcState::ZOMBIE {
                    if !copy_ok {
                        return Err(Error::BadVirtAddr);
                    }
                    let stack = self.data[c].ustack;
                    self.free(c);
                    self.parents.set(c, None);
                    return Ok(JoinStep::Found(p.pid.0, stack));
                }
            }
            c = c + 1;
        }
        if !havekids || self.inner[cur].killed {
            return Err(Error::NoChildProcesses);
        }
        Ok(JoinStep::Sleep)
    }

    /// One pass of reaping the threads of `parent` (on the first pass they
    /// are also killed and woken): every exited thread is freed. Returns
    /// whether none is left; an error when threads remain and the parent
    /// was killed; otherwise the parent sleeps and calls again.
    pub fn reap_threads(&mut self, parent: usize, cpu: usize, first_pass: bool) -> (r: Result<bool>)
        requires
            old(self).wf(),
            parent < NPROC,
            cpu < NCPU,
        ensures
            final(self).wf(),
            final(self).next_pid == old(self).next_pid,
            ({
                let o = old(self).inner@;
                let mid = Seq::new(
                    NPROC as nat,
                    |i: int| if first_pass && child_thread(*old(self), parent, i) { spec_kill_thread(o[i], cpu) } else { o[i] },
                );
                let any = exists|c: int| 0 <= c < NPROC && #[trigger] child_thread(*old(self), parent, c);
                &&& final(self).runq_out@ == old(self).runq_out@ + became_runnable(o, mid, NPROC as int)
                &&& final(self).inner@.len() == NPROC && final(self).parents@.len() == NPROC
                &&& forall|i: int| 0 <= i < NPROC ==> if child_thread(*old(self), parent, i) && #[trigger] mid[i].state
                    == ProcState::ZOMBIE {
                    final(self).inner@[i].is_fresh() && final(self).parents@[i] is None
                } else {
                    final(self).inner@[i] == mid[i] && final(self).parents@[i] == old(self).parents@[i]
                }
                &&& !any ==> r == Ok::<bool, Error>(true)
                &&& any && final(self).inner@[parent as int].killed ==> r == Err::<bool, Error>(Error::Interrupted)
                &&& any && !final(self).inner@[parent as int].killed ==> r == Ok::<bool, Error>(false)
            }),
    {
        let ghost t0 = *self;
        let ghost o = self.inner@;
        let ghost mid = Seq::new(
            NPROC as nat,
            |i: int| if first_pass && child_thread(t0, parent, i) { spec_kill_thread(o[i], cpu) } else { o[i] },
        );
        if first_pass {
            let mut c: usize = 0;
            while c < NPROC
                invariant
                    self.wf(),
                    0 <= c <= NPROC,
                    cpu < NCPU,
                    first_pass,
                    self.parents == t0.parents && self.data == t0.data && self.next_pid == t0.next_pid,
                    o == t0.inner@ && t0 == *old(self),
                    mid == Seq::new(
                        NPROC as nat,
                        |i: int| if first_pass && child_thread(t0, parent, i) { spec_kill_thread(o[i], cpu) } else { o[i] },
                    ),
                    forall|j: int| 0 <= j < c ==> #[trigger] self.inner@[j] == mid[j],
                    forall|j: int| c <= j < NPROC ==> #[trigger] self.inner@[j] == o[j],
                    self.runq_out@ == t0.runq_out@ + became_runnable(o, self.inner@, c as int),
                decreases NPROC - c,
            {
                let ghost before = self.inner@;
                let is_child = match self.parents[c] {
                    Some(pp) => pp == parent,
                    None => false,
                };
                if is_child && self.data[c].is_thread {
                    let mut q = self.inner[c];
                    q.killed = true;
                    self.inner.set(c, q);
                    if q.state == ProcState::SLEEPING {
                        self.make_runnable(c, cpu);
                    }
                }
                proof {
                    lemma_became_step(o, before, self.inner@, c as int);
                    assert(self.runq_out@ =~= t0.runq_out@ + became_runnable(o, self.inner@, c + 1));
                }
                c = c + 1;
            }
            assert(self.inner@ =~= mid);
        } else {
            proof {
                lemma_became_none(o, o, NPROC as int);
            }
            assert(self.inner@ =~= mid);
            assert(self.runq_out@ =~= t0.runq_out@ + became_runnable(o, mid, NPROC as int));
        }
        let ghost out1 = self.runq_out@;
        let mut havekids = false;
        let mut c: usize = 0;
        while c < NPROC
            invariant
                self.wf(),
                0 <= c <= NPROC,
                self.data@.len() == NPROC,
                t0.data@.len() == NPROC && t0.parents@.len() == NPROC,
                forall|j: int| c <= j < NPROC ==> #[trigger] self.data@[j] == t0.data@[j],
                forall|j: int| c <= j < NPROC ==> #[trigger] self.parents@[j] == t0.parents@[j],
                self.runq_out@ == out1 && self.next_pid == t0.next_pid,
                forall|j: int| 0 <= j < c ==> if child_thread(t0, parent, j) && #[trigger] mid[j].state
                    == ProcState::ZOMBIE {
                    self.inner@[j].is_fresh() && self.parents@[j] is None
                } else {
                    self.inner@[j] == mid[j] && self.parents@[j] == t0.parents@[j]
                },
                forall|j: int| c <= j < NPROC ==> #[trigger] self.inner@[j] == mid[j],
                havekids <==> exists|k: int| 0 <= k < c && #[trigger] child_thread(t0, parent, k),
                mid.len() == NPROC,
            decreases NPROC - c,
        {
            let is_child = match self.parents[c] {
                Some(pp) => pp == parent,
                None => false,
            };
            if is_child && self.data[c].is_thread {
                havekids = true;
                assert(child_thread(t0, parent, c as int));
                if self.inner[c].state == ProcState::ZOMBIE {
                    self.free(c);
                    self.parents.set(c, None);
                }
            }
            c = c + 1;
        }
        if !havekids {
            return Ok(true);
        }
        if self.inner[parent].killed {
            return Err(Error::Interrupted);
        }
        Ok(false)
    }
}

/// SIGKILL cannot be caught or ignored: sending it always marks the
/// process killed, and wakes it if it sleeps.
pub proof fn law_sigkill_always_kills(p: ProcInner, cpu: usize)
    requires
        cpu < NCPU,
    ensures
        spec_signal(p, SIGKILL, cpu).killed,
        p.state == ProcState::SLEEPING ==> spec_signal(p, SIGKILL, cpu).state == ProcState::RUNNABLE,
        p.state == ProcState::STOPPED ==> spec_signal(p, SIGKILL, cpu).state == ProcState::RUNNABLE,
{
}

/// Returning from a handler undoes its entry: when delivery runs a
/// handler, the matching `sigreturn` restores the interrupted registers
/// and leaves the handler state.
pub proof fn law_sigreturn_undoes_delivery(p: ProcInner, d: ProcData)
    requires
        !d.sig_active,
        p.sig_pending != 0,
    ensures
        ({
            let t = spec_deliver(p, d);
            t.1.sig_active ==> {
                &&& t.1.trapframe.epc == p.sig_handlers@[lowest_sig(p.sig_pending) - 1]
                &&& t.1.trapframe.a0 == lowest_sig(p.sig_pending)
                &&& t.1.trapframe.ra == d.sig_restorer
                &&& (ProcData { trapframe: t.1.sig_trapframe, sig_active: false, ..t.1 }) == (ProcData { sig_trapframe: d.trapframe, ..d })
            }
        }),
{
}

/// An alarm armed at `now` for `initial` ticks goes off at the tick at or
/// after `now + initial`: the process gets SIGALRM and the alarm is rearmed
/// by `interval` (disarmed for 0).
pub proof fn law_alarm_fires(p: ProcInner, now: usize, initial: usize, interval: usize, t: usize, cpu: usize)
    requires
        0 < initial,
        now + initial <= usize::MAX,
        now + initial <= t,
        cpu < NCPU,
        p.state != ProcState::UNUSED && p.state != ProcState::ZOMBIE && p.state != ProcState::STOPPED,
    ensures
        ({
            let armed = ProcInner { sig_alarm_deadline: (now + initial) as usize, sig_alarm_interval: interval, ..p };
            let q = spec_tick(armed, t, cpu);
            &&& q.sig_pending == p.sig_pending | spec_sig_mask(SIGALRM)
            &&& interval == 0 ==> q.sig_alarm_deadline == 0
            &&& interval != 0 && t + interval <= usize::MAX ==> q.sig_alarm_deadline == t + interval
        }),
{
}

/// Before its deadline an alarm stays quiet.
pub proof fn law_alarm_waits(p: ProcInner, t: usize, cpu: usize)
    requires
        t < p.sig_alarm_deadline,
    ensures
        spec_tick(p, t, cpu) == p,
{
}
/// What `kill` leaves and returns.
pub open spec fn kill_post(o: Procs, n: Procs, pid: usize, sig: usize, cpu: usize, r: Result<()>) -> bool {
    &&& (n.data == o.data && n.parents == o.parents)
    &&& (n.next_pid == o.next_pid)
    &&& (sig == 0 || sig > NSIG ==> r == Err::<(), Error>(Error::InvalidArgument) && n.inner@
                == o.inner@ && n.runq_out@ == o.runq_out@)
    &&& (1 <= sig <= NSIG ==> match first_with_pid(o.inner@, pid) {
                None => r == Err::<(), Error>(Error::NoSuchProcess) && n.inner@ == o.inner@
                    && n.runq_out@ == o.runq_out@,
                Some(i) => r is Ok && n.inner@ == o.inner@.update(
                    i,
                    spec_signal(o.inner@[i], sig, cpu),
                ) && n.runq_out@ == o.runq_out@ + became_runnable(
                    o.inner@,
                    n.inner@,
                    NPROC as int,
                ),
            })
}

/// What `setpgid` leaves and returns.
pub open spec fn setpgid_post(o: Procs, n: Procs, cur: usize, pid: usize, pgid: usize, r: Result<()>) -> bool {
    &&& (n.data == o.data && n.parents == o.parents)
    &&& (n.next_pid == o.next_pid && n.runq_out == o.runq_out)
    &&& (({
                let me = o.inner@[cur as int];
                let target = if pid == 0 { me.pid.0 } else { pid };
                let new_pgid = if pgid == 0 { target } else { pgid };
                if new_pgid == 0 {
                    r == Err::<(), Error>(Error::InvalidArgument) && n.inner@ == o.inner@
                } else {
                    match first_with_pid(o.inner@, target) {
                        None => r == Err::<(), Error>(Error::NoSuchProcess) && n.inner@ == o.inner@,
                        Some(i) => {
                            let t = o.inner@[i];
                            if t.sid != me.sid || t.pid.0 == t.sid || (i != cur && o.parents@[i] != Some(
                                cur,
                            )) {
                                r == Err::<(), Error>(Error::PermissionDenied) && n.inner@ == o.inner@
                            } else {
                                r is Ok && n.inner@ == o.inner@.update(
                                    i,
                                    ProcInner { pgid: new_pgid, ..t },
                                )
                            }
                        },
                    }
                }
            }))
}

/// What `setsid` leaves and returns.
pub open spec fn setsid_post(o: Procs, n: Procs, cur: usize, r: Result<usize>) -> bool {
    &&& (n.data == o.data && n.parents == o.parents)
    &&& (n.next_pid == o.next_pid && n.runq_out == o.runq_out)
    &&& (({
                let p = o.inner@[cur as int];
                if p.pid.0 == p.pgid {
                    r == Err::<usize, Error>(Error::PermissionDenied) && n.inner@ == o.inner@
                } else {
                    r == Ok::<usize, Error>(p.pid.0) && n.inner@ == o.inner@.update(
                        cur as int,
                        ProcInner {
                            sid: p.pid.0,
                            pgid: p.pid.0,
                            stop_sig: 0,
                            stop_reported: false,
                            cont_pending: false,
                            ..p
                        },
                    )
                }
            }))
}

/// What `sigaction` leaves and returns.
pub open spec fn sigaction_post(o: Procs, n: Procs, cur: usize, sig: usize, handler: usize, restorer: usize, r: Result<usize>) -> bool {
    &&& (n.parents == o.parents)
    &&& (n.next_pid == o.next_pid && n.runq_out == o.runq_out)
    &&& (sig == 0 || sig > NSIG ==> r == Err::<usize, Error>(Error::InvalidArgument) && n == o)
    &&& (sig == SIGKILL ==> r == Err::<usize, Error>(Error::PermissionDenied) && n == o)
    &&& (1 <= sig <= NSIG && sig != SIGKILL ==> {
                let p = o.inner@[cur as int];
                let prev = p.sig_handlers@[sig - 1];
                let caught = handler != SIG_DFL && handler != SIG_IGN;
                if caught && restorer == 0 {
                    r == Err::<usize, Error>(Error::InvalidArgument) && n == o
                } else {
                    &&& r == Ok::<usize, Error>(if prev == SIG_DFL { 0 } else if prev == SIG_IGN { 1 } else { prev })
                    &&& n.inner@ == o.inner@.update(
                        cur as int,
                        ProcInner { sig_handlers: n.inner@[cur as int].sig_handlers, ..p },
                    )
                    &&& n.inner@[cur as int].sig_handlers@ == p.sig_handlers@.update(sig - 1, handler)
                    &&& caught ==> n.data@ == o.data@.update(
                        cur as int,
                        ProcData { sig_restorer: restorer, ..o.data@[cur as int] },
                    )
                    &&& !caught ==> n.data == o.data
                }
            })
}

/// What `sigreturn` leaves and returns.
pub open spec fn sigreturn_post(o: Procs, n: Procs, cur: usize, r: Result<()>) -> bool {
    &&& (n.inner == o.inner && n.parents == o.parents)
    &&& (n.next_pid == o.next_pid && n.runq_out == o.runq_out)
    &&& (!o.data@[cur as int].sig_active ==> r == Err::<(), Error>(Error::InvalidArgument)
                && n.data == o.data)
    &&& (o.data@[cur as int].sig_active ==> r is Ok && n.data@ == o.data@.update(
                cur as int,
                ProcData {
                    trapframe: o.data@[cur as int].sig_trapframe,
                    sig_active: false,
                    ..o.data@[cur as int]
                },
            ))
}

/// What `setitimer` leaves and returns.
pub open spec fn setitimer_post(o: Procs, n: Procs, cur: usize, now: usize, initial: usize, interval: usize, r: Result<usize>) -> bool {
    &&& (n.data == o.data && n.parents == o.parents)
    &&& (n.next_pid == o.next_pid && n.runq_out == o.runq_out)
    &&& (({
                let p = o.inner@[cur as int];
                let prev = if p.sig_alarm_deadline == 0 {
                    0
                } else if p.sig_alarm_deadline < now {
                    0
                } else {
                    p.sig_alarm_deadline - now
                };
                if initial == 0 {
                    r == Ok::<usize, Error>(prev as usize) && n.inner@ == o.inner@.update(
                        cur as int,
                        ProcInner { sig_alarm_deadline: 0, sig_alarm_interval: 0, ..p },
                    )
                } else if now + initial > usize::MAX {
                    r == Err::<usize, Error>(Error::InvalidArgument) && n.inner@ == o.inner@
                } else {
                    r == Ok::<usize, Error>(prev as usize) && n.inner@ == o.inner@.update(
                        cur as int,
                        ProcInner {
                            sig_alarm_deadline: (now + initial) as usize,
                            sig_alarm_interval: interval,
                            ..p
                        },
                    )
                }
            }))
}

/// What `waitpid` leaves and returns.
pub open spec fn waitpid_post(o: Procs, n: Procs, cur: usize, pid: isize, options: usize, copy_ok: bool, r: Result<WaitStep>) -> bool {
    &&& (n.next_pid == o.next_pid && n.runq_out == o.runq_out)
    &&& (pid < -1 ==> r is Err && r->Err_0 == Error::InvalidArgument && n == o)
    &&& (pid >= -1 ==> match first_wait_from(o, cur, pid, options, 0) {
                Some(c) => {
                    let p = o.inner@[c];
                    if !copy_ok {
                        r is Err && r->Err_0 == Error::BadVirtAddr && n == o
                    } else if p.state == ProcState::STOPPED && options & WUNTRACED != 0 && !p.stop_reported {
                        &&& r matches Ok(WaitStep::Found(q, st)) && q == p.pid.0 && st == spec_stop_status(p.stop_sig)
                        &&& n.inner@ == o.inner@.update(c, ProcInner { stop_reported: true, ..p })
                        &&& n.data == o.data && n.parents == o.parents
                    } else if options & WCONTINUED != 0 && p.cont_pending {
                        &&& r matches Ok(WaitStep::Found(q, st)) && q == p.pid.0 && st == 0xffffi32
                        &&& n.inner@ == o.inner@.update(c, ProcInner { cont_pending: false, ..p })
                        &&& n.data == o.data && n.parents == o.parents
                    } else {
                        &&& r matches Ok(WaitStep::Found(q, st)) && q == p.pid.0 && st == p.xstate
                        &&& n.inner@[c].is_fresh()
                        &&& n.inner@.len() == NPROC
                        &&& forall|j: int| 0 <= j < NPROC && j != c ==> #[trigger] n.inner@[j] == o.inner@[j]
                        &&& n.parents@ == o.parents@.update(c, None)
                        &&& n.data@.len() == NPROC && fresh_data(n.data@[c])
                        &&& forall|j: int| 0 <= j < NPROC && j != c ==> #[trigger] n.data@[j] == o.data@[j]
                    }
                },
                None => {
                    let me = o.inner@[cur as int];
                    let np = me.sig_pending & !ign_mask(me, NSIG as int);
                    if options & WNOHANG != 0 {
                        r matches Ok(WaitStep::NoHang) && n == o
                    } else if !(exists|c: int| 0 <= c < NPROC && #[trigger] wait_eligible(o, cur, pid, c))
                        || me.killed {
                        r is Err && r->Err_0 == Error::NoChildProcesses && n == o
                    } else {
                        &&& n.inner@ == o.inner@.update(cur as int, ProcInner { sig_pending: np, ..me })
                        &&& n.data == o.data && n.parents == o.parents
                        &&& np != 0 ==> r is Err && r->Err_0 == Error::Interrupted
                        &&& np == 0 ==> r matches Ok(WaitStep::Sleep)
                    }
                },
            })
}

/// What `join` leaves and returns.
pub open spec fn join_post(o: Procs, n: Procs, cur: usize, copy_ok: bool, r: Result<JoinStep>) -> bool {
    &&& (n.next_pid == o.next_pid && n.runq_out == o.runq_out)
    &&& (match first_join_from(o, cur, 0) {
                Some(c) => if !copy_ok {
                    r is Err && r->Err_0 == Error::BadVirtAddr && n == o
                } else {
                    &&& r matches Ok(JoinStep::Found(q, st)) && q == o.inner@[c].pid.0 && st
                        == o.data@[c].ustack
                    &&& n.inner@[c].is_fresh()
                    &&& n.inner@.len() == NPROC
                    &&& forall|j: int| 0 <= j < NPROC && j != c ==> #[trigger] n.inner@[j] == o.inner@[j]
                    &&& n.parents@ == o.parents@.update(c, None)
                    &&& n.data@.len() == NPROC && fresh_data(n.data@[c])
                    &&& forall|j: int| 0 <= j < NPROC && j != c ==> #[trigger] n.data@[j] == o.data@[j]
                },
                None => if !(exists|c: int| 0 <= c < NPROC && #[trigger] child_thread(o, cur, c))
                    || o.inner@[cur as int].killed {
                    r is Err && r->Err_0 == Error::NoChildProcesses && n == o
                } else {
                    r matches Ok(JoinStep::Sleep) && n == o
                },
            })
}

/// What `fork` leaves and returns.
pub open spec fn fork_post(o: Procs, n: Procs, cur: usize, cpu: usize, entry: usize, copy: Result<()>, r: Result<usize>) -> bool {
    &&& (match first_unused(o.inner@) {
                None => r == Err::<usize, Error>(Error::WouldBlock) && n == o,
                Some(c) => match copy {
                    Err(e) => {
                        &&& r == Err::<usize, Error>(e)
                        &&& n.inner@[c].is_fresh()
                        &&& forall|j: int| 0 <= j < NPROC && j != c ==> #[trigger] n.inner@[j] == o.inner@[j]
                        &&& n.parents == o.parents && n.runq_out == o.runq_out
                    },
                    Ok(_) => {
                        let parent = o.inner@[cur as int];
                        let pd = o.data@[cur as int];
                        &&& r == Ok::<usize, Error>(o.next_pid)
                        &&& n.inner@ == o.inner@.update(
                            c,
                            spec_child_inner(o.inner@[c], parent, o.next_pid, cpu),
                        )
                        &&& n.parents@ == o.parents@.update(c, Some(cur))
                        &&& n.runq_out@ == o.runq_out@.push((n.inner@[c].last_cpu, c as usize))
                        &&& n.data@ == o.data@.update(
                            c,
                            ProcData {
                                trapframe: Trapframe { a0: 0, ..pd.trapframe },
                                sig_trapframe: n.data@[c].sig_trapframe,
                                sig_active: false,
                                sig_restorer: pd.sig_restorer,
                                context: Context::spec_new_context(c, entry),
                                ..o.data@[c]
                            },
                        )
                        &&& n.data@[c].sig_trapframe.is_zero()
                    },
                },
            })
}

/// What `clone` leaves and returns.
pub open spec fn clone_post(o: Procs, n: Procs, cur: usize, cpu: usize, entry: usize, fcn: usize, arg1: usize, arg2: usize, stack: usize, sz: u64, map: Result<()>, r: Result<usize>) -> bool {
    &&& (stack == 0 || stack % PGSIZE != 0 || stack + PGSIZE > usize::MAX || stack + PGSIZE > sz ==> r == Err::<usize, Error>(
                Error::BadVirtAddr,
            ) && n == o)
    &&& (!(stack == 0 || stack % PGSIZE != 0 || stack + PGSIZE > usize::MAX || stack + PGSIZE > sz) ==> match first_unused(
                o.inner@,
            ) {
                None => r == Err::<usize, Error>(Error::WouldBlock) && n == o,
                Some(c) => match map {
                    Err(e) => r == Err::<usize, Error>(e) && n.inner@ == o.inner@.update(
                        c,
                        spec_alloc_inner(o.inner@[c], o.next_pid),
                    ) && n.parents == o.parents && n.runq_out == o.runq_out,
                    Ok(_) => {
                        let parent = o.inner@[cur as int];
                        let pd = o.data@[cur as int];
                        &&& r == Ok::<usize, Error>(o.next_pid)
                        &&& n.inner@ == o.inner@.update(
                            c,
                            spec_child_inner(o.inner@[c], parent, o.next_pid, cpu),
                        )
                        &&& n.parents@ == o.parents@.update(c, Some(cur))
                        &&& n.runq_out@ == o.runq_out@.push((n.inner@[c].last_cpu, c as usize))
                        &&& n.data@ == o.data@.update(
                            c,
                            ProcData {
                                trapframe: Trapframe {
                                    epc: fcn,
                                    sp: (stack + PGSIZE) as usize,
                                    a0: arg1,
                                    a1: arg2,
                                    ..pd.trapframe
                                },
                                sig_trapframe: n.data@[c].sig_trapframe,
                                sig_active: false,
                                sig_restorer: pd.sig_restorer,
                                is_thread: true,
                                ustack: stack,
                                context: Context::spec_new_context(c, entry),
                            },
                        )
                        &&& n.data@[c].sig_trapframe.is_zero()
                    },
                },
            })
}


impl Procs {
    /// The first unused slot, if any.
    pub fn first_unused_slot(&self) -> (r: Option<usize>)
        requires
            self.wf(),
        ensures
            match first_unused(self.inner@) {
                Some(i) => r == Some(i as usize) && 0 <= i < NPROC,
                None => r is None,
            },
    {
        proof {
            lemma_first_unused_from(self.inner@, 0);
        }
        let mut idx: usize = 0;
        while idx < NPROC
            invariant
                self.wf(),
                0 <= idx <= NPROC,
                first_unused(self.inner@) == first_unused_from(self.inner@, idx as int),
            decreases NPROC - idx,
        {
            if self.inner[idx].state == ProcState::UNUSED {
                return Some(idx);
            }
            idx = idx + 1;
        }
        None
    }
}
/// Sets up the first process from the ELF image `initcode`: takes the
/// first free slot, in an address space of its own whose heap ends at the
/// top of the stack, plans the loading of its segments and stack, points
/// its registers at the entry and the stack top, makes it runnable on
/// `k.cpu` and records it as the first process. Returns the slot and the
/// plan, whose segments the caller maps and fills.
pub fn user_init(k: &mut Kernel, initcode: &[u8]) -> (r: (usize, InitImage))
    requires
        old(k).wf(),
        init_image_ok(initcode@),
        first_unused(old(k).procs.inner@) is Some,
        old(k).procs.next_pid < usize::MAX,
    ensures
        final(k).wf(),
        ({
            let i = first_unused(old(k).procs.inner@)->0;
            let img = r.1;
            let tf = final(k).procs.data@[i].trapframe;
            &&& r.0 == i
            &&& img.entry == spec_entry(initcode@)
            &&& img.loads@.len() == load_count(initcode@)
            &&& forall|j: int| 0 <= j < img.loads@.len() ==> #[trigger] img.loads@[j] == phdr_at(initcode@, j)
            &&& img.sz == sz_after(initcode@, load_count(initcode@))
            &&& img.guard == spec_pg_up(img.sz as int)
            &&& img.stack_top == spec_pg_up(img.sz as int) + 2 * PG
            &&& final(k).init == i
            &&& final(k).aspace@ == old(k).aspace@.update(i, i as usize)
            &&& final(k).sizes@ == old(k).sizes@.update(i, img.stack_top)
            &&& final(k).vms@.len() == NPROC
            &&& final(k).vms@[i].mmap_base == TRAMPOLINE - NPROC * PGSIZE_VA
            &&& final(k).vms@[i].vmas@.len() == 0
            &&& forall|j: int| 0 <= j < NPROC && j != i ==> #[trigger] final(k).vms@[j] == old(k).vms@[j]
            &&& final(k).procs.inner@ == old(k).procs.inner@.update(
                i,
                spec_runnable(spec_alloc_inner(old(k).procs.inner@[i], old(k).procs.next_pid), old(k).cpu),
            )
            &&& final(k).procs.next_pid == vstd::wrapping::usize_specs::wrapping_add(old(k).procs.next_pid, 1)
            &&& final(k).procs.runq_out@ == old(k).procs.runq_out@.push((final(k).procs.inner@[i].last_cpu, i as usize))
            &&& final(k).procs.parents == old(k).procs.parents
            &&& tf.epc == img.entry as usize && tf.sp == img.stack_top as usize
            &&& (Trapframe { epc: 0, sp: 0, ..tf }).is_zero()
            &&& final(k).procs.data@[i] == (ProcData {
                trapframe: tf,
                context: Context::spec_new_context(i, old(k).fork_ret),
                ..old(k).procs.data@[i]
            })
            &&& forall|j: int| 0 <= j < NPROC && j != i ==> #[trigger] final(k).procs.data@[j] == old(k).procs.data@[j]
            &&& *final(k) == (Kernel {
                procs: final(k).procs,
                vms: final(k).vms,
                aspace: final(k).aspace,
                sizes: final(k).sizes,
                init: final(k).init,
                ..*old(k)
            })
        }),
{
    let img = plan_init_image(initcode);
    let entry = k.fork_ret;
    let idx = match k.procs.alloc_slot(entry) {
        Ok(i) => i,
        Err(_) => {
            return (0, img);
        },
    };
    let ghost i = first_unused(old(k).procs.inner@)->0;
    assert(idx == i);
    let mut d = k.procs.data[idx].clone_data();
    d.trapframe.epc = img.entry as usize;
    d.trapframe.sp = img.stack_top as usize;
    k.procs.data.set(idx, d);
    let cpu = k.cpu;
    k.procs.make_runnable(idx, cpu);
    let top = user_mem_top(NPROC as u64);
    assert(top == TRAMPOLINE - NPROC * PGSIZE_VA);
    assert(top % PG == 0);
    let vm = ProcVm::new(top);
    k.vms.set(idx, vm);
    k.aspace.set(idx, idx);
    let st = img.stack_top;
    assert(st + PG - 1 <= u64::MAX) by (nonlinear_arith)
        requires
            st == spec_pg_up(img.sz as int) + 2 * PG,
            st <= u64::MAX,
            PG == 4096,
    ;
    k.sizes.set(idx, st);
    k.init = idx;
    proof {
        assert forall|x: int| 0 <= x < NPROC implies (#[trigger] k.vms@[x]).wf() by {
            if x != idx {
                assert(k.vms@[x] == old(k).vms@[x]);
            }
        }
        assert forall|x: int| 0 <= x < NPROC implies #[trigger] k.sizes@[x] + PG - 1 <= u64::MAX by {
            if x != idx {
                assert(k.sizes@[x] == old(k).sizes@[x]);
            }
        }
        assert forall|x: int| 0 <= x < NPROC implies #[trigger] k.aspace@[x] < NPROC by {
            if x != idx {
                assert(k.aspace@[x] == old(k).aspace@[x]);
            }
        }
    }
    (idx, img)
}

/// What one round of the scheduler on a CPU decides.
#[derive(Clone, Copy, Debug, PartialEq, Eq, Structural)]
pub enum SchedStep {
    /// No process to run; `wait` says whether to wait for an interrupt,
    /// which happens when no kernel task is ready either.
    Idle { wait: bool },
    /// The slot taken from the run queue is no longer runnable.
    Skip(usize),
    /// Switch to this slot, now running on the CPU.
    Run(usize),
}

/// The queued slots are all slots of the table.
pub open spec fn queued_slots_valid(rqs: RunQueues) -> bool {
    forall|c: int, j: int| 0 <= c < NCPU && 0 <= j < rqs.queues@[c]@.len() ==> #[trigger] rqs.queues@[c]@[j] < NPROC
}

/// One round of the scheduler loop on `cpu`, after its ready kernel tasks
/// have run: takes the next slot from the run queues (its own first, else
/// stolen) and, if that slot is still runnable, marks it running on `cpu`.
pub fn scheduler(procs: &mut Procs, rqs: &mut RunQueues, ex: &Executors, cpu: usize) -> (r: SchedStep)
    requires
        old(procs).wf(),
        old(rqs).wf(),
        ex.wf(),
        cpu < NCPU,
        queued_slots_valid(*old(rqs)),
    ensures
        final(procs).wf(),
        final(rqs).wf(),
        queued_slots_valid(*final(rqs)),
        final(procs).data == old(procs).data && final(procs).parents == old(procs).parents,
        final(procs).next_pid == old(procs).next_pid && final(procs).runq_out == old(procs).runq_out,
        match r {
            SchedStep::Idle { wait } => {
                &&& forall|c: int| 0 <= c < NCPU ==> (#[trigger] old(rqs).queues@[c]@).len() == 0
                &&& wait == (ex.cpu(cpu as int).ready@.len() == 0)
                &&& final(rqs).queues@ == old(rqs).queues@
                &&& final(procs).inner == old(procs).inner
            },
            SchedStep::Skip(i) => {
                &&& i < NPROC
                &&& popped_from(*old(rqs), *final(rqs), i)
                &&& (old(rqs).queues@[cpu as int]@.len() > 0 ==> i == old(rqs).queues@[cpu as int]@[0])
                &&& old(procs).inner@[i as int].state != ProcState::RUNNABLE
                &&& final(procs).inner == old(procs).inner
            },
            SchedStep::Run(i) => {
                &&& i < NPROC
                &&& popped_from(*old(rqs), *final(rqs), i)
                &&& (old(rqs).queues@[cpu as int]@.len() > 0 ==> i == old(rqs).queues@[cpu as int]@[0])
                &&& old(procs).inner@[i as int].state == ProcState::RUNNABLE
                &&& final(procs).inner@ == old(procs).inner@.update(
                    i as int,
                    ProcInner { state: ProcState::RUNNING, last_cpu: cpu, ..old(procs).inner@[i as int] },
                )
            },
        },
{
    let popped = runq_pop(rqs, cpu);
    proof {
        if let Some(x) = popped {
            let v = choose|v: int|
                0 <= v < NCPU && (#[trigger] old(rqs).queues@[v]@).len() > 0 && x == old(rqs).queues@[v]@[0]
                    && rqs.queues@[v]@ == old(rqs).queues@[v]@.drop_first() && forall|c: int|
                    0 <= c < NCPU && c != v ==> #[trigger] rqs.queues@[c]@ == old(rqs).queues@[c]@;
            assert(old(rqs).queues@[v]@[0] < NPROC);
            assert forall|c: int, j: int| 0 <= c < NCPU && 0 <= j < rqs.queues@[c]@.len() implies #[trigger] rqs.queues@[c]@[j] < NPROC by {
                if c == v {
                    assert(rqs.queues@[c]@[j] == old(rqs).queues@[c]@[j + 1]);
                } else {
                    assert(rqs.queues@[c]@ == old(rqs).queues@[c]@);
                }
            }
        }
    }
    let idx = match popped {
        None => {
            let wait = crate::runq::runq_is_empty(rqs, cpu) && ready_is_empty_cpu(ex, cpu);
            return SchedStep::Idle { wait };
        },
        Some(i) => i,
    };
    let mut p = procs.inner[idx];
    if p.state != ProcState::RUNNABLE {
        return SchedStep::Skip(idx);
    }
    p.state = ProcState::RUNNING;
    p.last_cpu = cpu;
    procs.inner.set(idx, p);
    SchedStep::Run(idx)
}

/// The caller gives up its CPU: it is made runnable again and queued.
pub fn yielding(procs: &mut Procs, cur: usize, cpu: usize)
    requires
        old(procs).wf(),
        cur < NPROC,
        cpu < NCPU,
        old(procs).inner@[cur as int].state != ProcState::UNUSED,
    ensures
        final(procs).wf(),
        final(procs).inner@ == old(procs).inner@.update(cur as int, spec_runnable(old(procs).inner@[cur as int], cpu)),
        final(procs).runq_out@ == old(procs).runq_out@ + (if old(procs).inner@[cur as int].state != ProcState::RUNNABLE {
            seq![(final(procs).inner@[cur as int].last_cpu, cur)]
        } else {
            Seq::empty()
        }),
        final(procs).data == old(procs).data && final(procs).parents == old(procs).parents,
        final(procs).next_pid == old(procs).next_pid,
{
    procs.make_runnable(cur, cpu);
}


/// The status `waitpid` reports for a child stopped by `sig` reads as
/// stopped: its low byte is 0x7f, the stopping signal's number is in the
/// next byte, and nothing else is set, so it is never mistaken for an
/// exit status (low byte 0) or a continue (0xffff).
pub proof fn law_stop_status_reads_as_stopped(sig: usize)
    ensures
        spec_stop_status(sig) as int % 256 == 0x7f,
        (spec_stop_status(sig) as int / 256) % 256 == sig % 256,
        0 <= spec_stop_status(sig) < 0x10000,
        spec_stop_status(sig) != 0xffffi32,
{
    let lo = sig % 256;
    assert(0 <= lo < 256);
    let v = lo * 256 + 0x7f;
    assert(0 <= v < 0x10000) by (nonlinear_arith)
        requires
            0 <= lo < 256,
            v == lo * 256 + 0x7f,
    ;
    assert(spec_stop_status(sig) as int == v);
    vstd::arithmetic::div_mod::lemma_fundamental_div_mod(v, 256);
    vstd::arithmetic::div_mod::lemma_div_multiples_vanish_fancy(lo as int, 0x7f, 256);
    vstd::arithmetic::div_mod::lemma_small_mod(lo as nat, 256);
    assert(v == 256 * (lo as int) + 0x7f);
    assert(v % 256 == 0x7f) by {
        vstd::arithmetic::div_mod::lemma_mod_multiples_vanish(lo as int, 0x7f, 256);
        vstd::arithmetic::div_mod::lemma_small_mod(0x7f, 256);
    }
}

proof fn lemma_first_pid_in_range(s: Seq<ProcInner>, pid: usize, k: int)
    requires
        0 <= k,
    ensures
        first_pid_from(s, pid, k) matches Some(i) ==> k <= i < s.len() && s[i].pid.0 == pid,
    decreases s.len() - k,
{
    if k < s.len() && s[k].pid.0 != pid {
        lemma_first_pid_in_range(s, pid, k + 1);
    }
}

proof fn lemma_became_runnable_has(o: Seq<ProcInner>, nw: Seq<ProcInner>, n: int, i: int)
    requires
        0 <= i < n,
        o[i].state != ProcState::RUNNABLE,
        nw[i].state == ProcState::RUNNABLE,
    ensures
        became_runnable(o, nw, n).contains((nw[i].last_cpu, i as usize)),
    decreases n,
{
    if i < n - 1 {
        lemma_became_runnable_has(o, nw, n - 1, i);
        let a = became_runnable(o, nw, n - 1);
        let k = choose|k: int| 0 <= k < a.len() && a[k] == (nw[i].last_cpu, i as usize);
        let tail = if o[n - 1].state != ProcState::RUNNABLE && nw[n - 1].state == ProcState::RUNNABLE {
            seq![(nw[n - 1].last_cpu, (n - 1) as usize)]
        } else {
            Seq::empty()
        };
        assert((a + tail)[k] == a[k]);
    } else {
        let a = became_runnable(o, nw, n - 1);
        let t = seq![(nw[n - 1].last_cpu, (n - 1) as usize)];
        assert((a + t)[a.len() as int] == t[0]);
    }
}

/// SIGCONT resumes a stopped process, as SIGKILL does: unless the process
/// ignores it, sending SIGCONT to a STOPPED process makes it RUNNABLE, and
/// `kill` queues it on a CPU's run queue.
pub proof fn law_sigcont_resumes_stopped(o: Procs, n: Procs, pid: usize, cpu: usize, r: Result<()>, i: int)
    requires
        o.wf(),
        cpu < NCPU,
        first_with_pid(o.inner@, pid) == Some(i),
        o.inner@[i].state == ProcState::STOPPED,
        !sig_ignored(o.inner@[i], SIGCONT),
        kill_post(o, n, pid, SIGCONT, cpu, r),
    ensures
        spec_signal(o.inner@[i], SIGCONT, cpu).state == ProcState::RUNNABLE,
        r is Ok,
        n.inner@[i].state == ProcState::RUNNABLE,
        !n.inner@[i].killed || o.inner@[i].killed,
        n.runq_out@.contains((n.inner@[i].last_cpu, i as usize)),
{
    lemma_first_pid_in_range(o.inner@, pid, 0);
    assert(n.inner@[i] == spec_signal(o.inner@[i], SIGCONT, cpu));
    lemma_became_runnable_has(o.inner@, n.inner@, NPROC as int, i);
    let a = o.runq_out@;
    let b = became_runnable(o.inner@, n.inner@, NPROC as int);
    let k = choose|k: int| 0 <= k < b.len() && b[k] == (n.inner@[i].last_cpu, i as usize);
    assert((a + b)[a.len() + k] == b[k]);
}

} // verus!
