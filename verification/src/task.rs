//! The per-CPU executor of kernel tasks: a ring of ready task ids, the set
//! of parked tasks, the tick counter and the tasks waiting for the next
//! tick.
//!
//! A task's future is outside this model: the executor decides which task
//! to poll next ([`run_step`]), the caller polls its future, and reports
//! whether it finished ([`finish_poll`]).

use vstd::prelude::*;
use crate::param::NCPU;
use crate::runq::ring_pos;

verus! {

/// Slots in a CPU's ring of ready tasks.
pub const READYQ_SIZE: usize = 256;

/// A kernel task; its future is held by whoever polls it.
#[derive(Clone, Copy, Debug, PartialEq, Eq, Structural)]
pub struct Task {
    pub id: u64,
}

/// Source of task ids: each new task takes the next one.
#[derive(Clone, Copy, Debug, PartialEq, Eq, Structural)]
pub struct TaskIds {
    pub next: u64,
}

impl Task {
    /// A task with the next id; ids wrap around after `u64::MAX`.
    pub fn new(ids: &mut TaskIds) -> (t: Self)
        ensures
            t.id == old(ids).next,
            final(ids).next == (if old(ids).next == u64::MAX { 0 } else { old(ids).next + 1 }),
    {
        let id = ids.next;
        ids.next = ids.next.wrapping_add(1);
        Task { id }
    }
}

/// A fixed-capacity FIFO of task ids.
#[derive(Debug)]
pub struct ReadyQueue {
    buf: Vec<u64>,
    head: usize,
    tail: usize,
    len: usize,
}

impl ReadyQueue {
    pub closed spec fn wf(&self) -> bool {
        &&& self.buf@.len() == READYQ_SIZE
        &&& self.head < READYQ_SIZE
        &&& self.tail < READYQ_SIZE
        &&& self.len <= READYQ_SIZE
        &&& self.tail as int == ring_pos(self.head as int, self.len as int, READYQ_SIZE as int)
            || (self.len == READYQ_SIZE && self.tail == self.head)
    }

    /// The queued ids, oldest first.
    pub closed spec fn view(&self) -> Seq<u64> {
        Seq::new(
            self.len as nat,
            |i: int| self.buf@[ring_pos(self.head as int, i, READYQ_SIZE as int)],
        )
    }

    pub fn new() -> (q: Self)
        ensures
            q.wf(),
            q@ == Seq::<u64>::empty(),
    {
        let mut buf: Vec<u64> = Vec::new();
        let mut i: usize = 0;
        while i < READYQ_SIZE
            invariant
                0 <= i <= READYQ_SIZE,
                buf@.len() == i,
            decreases READYQ_SIZE - i,
        {
            buf.push(0);
            i = i + 1;
        }
        let q = Self { buf, head: 0, tail: 0, len: 0 };
        assert(q@ =~= Seq::<u64>::empty());
        q
    }

    pub fn is_empty(&self) -> (b: bool)
        requires
            self.wf(),
        ensures
            b == (self@.len() == 0),
    {
        self.len == 0
    }

    /// Appends `id` unless the ring is full; says whether it did.
    pub fn push(&mut self, id: u64) -> (ok: bool)
        requires
            old(self).wf(),
        ensures
            final(self).wf(),
            ok == (old(self)@.len() < READYQ_SIZE),
            ok ==> final(self)@ == old(self)@.push(id),
            !ok ==> final(self)@ == old(self)@,
    {
        if self.len == READYQ_SIZE {
            return false;
        }
        let ghost old_view = self@;
        let t = self.tail;
        self.buf.set(t, id);
        self.tail = (t + 1) % READYQ_SIZE;
        self.len = self.len + 1;
        assert forall|i: int| 0 <= i < old_view.len() implies #[trigger] self@[i] == old_view[i] by {
            assert(ring_pos(self.head as int, i, READYQ_SIZE as int) != t as int);
        }
        assert(self@ =~= old_view.push(id));
        true
    }

    /// Removes and returns the oldest id.
    pub fn pop(&mut self) -> (r: Option<u64>)
        requires
            old(self).wf(),
        ensures
            final(self).wf(),
            old(self)@.len() == 0 ==> r is None && *final(self) == *old(self),
            old(self)@.len() > 0 ==> r == Some(old(self)@[0]) && final(self)@ == old(self)@.drop_first(),
    {
        if self.len == 0 {
            return None;
        }
        let ghost old_view = self@;
        let raw = self.buf[self.head];
        let h = self.head;
        self.head = (h + 1) % READYQ_SIZE;
        self.len = self.len - 1;
        assert(self@ =~= old_view.drop_first());
        Some(raw)
    }
}

/// One CPU's executor.
pub struct CpuExec {
    pub inited: bool,
    pub ready: ReadyQueue,
    /// Tasks parked between polls.
    pub tasks: Vec<u64>,
    /// Tasks whose waker has been made.
    pub waker_cache: Vec<u64>,
    /// Polls made on this CPU.
    pub polls: usize,
    /// Ticks seen on this CPU.
    pub tick_seq: usize,
    /// Tasks to wake at the next tick.
    pub tick_wakers: Vec<u64>,
}

/// The executors of all CPUs.
pub struct Executors {
    pub cpus: Vec<CpuExec>,
}

/// A future that is ready once `cpu` has seen tick `target`.
#[derive(Clone, Copy, Debug, PartialEq, Eq, Structural)]
pub struct SleepTicks {
    pub cpu: usize,
    pub target: usize,
}

/// What the executor does next on a CPU.
#[derive(Clone, Copy, Debug, PartialEq, Eq, Structural)]
pub enum RunStep {
    /// No budget left, or nothing ready: stop.
    Done,
    /// A ready id whose task is gone was dropped; go on.
    Skipped,
    /// Poll the future of task `id`, then call `finish_poll` with the outcome.
    Poll(u64),
}

impl Executors {
    pub open spec fn wf(&self) -> bool {
        &&& self.cpus@.len() == NCPU
        &&& forall|c: int| 0 <= c < NCPU ==> (#[trigger] self.cpus@[c]).ready.wf()
    }

    pub open spec fn cpu(&self, c: int) -> CpuExec {
        self.cpus@[c]
    }

    /// All CPUs with empty, uninitialised executors.
    pub fn new() -> (ex: Self)
        ensures
            ex.wf(),
            forall|c: int|
                0 <= c < NCPU ==> {
                    let e = #[trigger] ex.cpu(c);
                    &&& !e.inited
                    &&& e.ready@.len() == 0
                    &&& e.tasks@.len() == 0
                    &&& e.waker_cache@.len() == 0
                    &&& e.polls == 0
                    &&& e.tick_seq == 0
                    &&& e.tick_wakers@.len() == 0
                },
    {
        let mut cpus: Vec<CpuExec> = Vec::new();
        let mut i: usize = 0;
        while i < NCPU
            invariant
                i <= NCPU,
                cpus@.len() == i,
                forall|c: int|
                    0 <= c < i ==> {
                        let e = #[trigger] cpus@[c];
                        &&& e.ready.wf()
                        &&& !e.inited
                        &&& e.ready@.len() == 0
                        &&& e.tasks@.len() == 0
                        &&& e.waker_cache@.len() == 0
                        &&& e.polls == 0
                        &&& e.tick_seq == 0
                        &&& e.tick_wakers@.len() == 0
                    },
            decreases NCPU - i,
        {
            cpus.push(
                CpuExec {
                    inited: false,
                    ready: ReadyQueue::new(),
                    tasks: Vec::new(),
                    waker_cache: Vec::new(),
                    polls: 0,
                    tick_seq: 0,
                    tick_wakers: Vec::new(),
                },
            );
            i = i + 1;
        }
        Executors { cpus }
    }
}

/// Whether `id` is in `v`.
pub fn contains_id(v: &Vec<u64>, id: u64) -> (b: bool)
    ensures
        b == v@.contains(id),
{
    let mut i: usize = 0;
    while i < v.len()
        invariant
            i <= v@.len(),
            forall|j: int| 0 <= j < i ==> v@[j] != id,
        decreases v@.len() - i,
    {
        if v[i] == id {
            return true;
        }
        i = i + 1;
    }
    false
}

/// `v` without its entries equal to `id`.
pub fn remove_id(v: &Vec<u64>, id: u64) -> (r: Vec<u64>)
    ensures
        r@ == v@.filter(|x: u64| x != id),
{
    let mut out: Vec<u64> = Vec::new();
    let mut i: usize = 0;
    while i < v.len()
        invariant
            i <= v@.len(),
            out@ == v@.take(i as int).filter(|x: u64| x != id),
        decreases v@.len() - i,
    {
        proof {
            assert(v@.take(i + 1).drop_last() =~= v@.take(i as int));
            reveal(Seq::filter);
        }
        if v[i] != id {
            out.push(v[i]);
        }
        i = i + 1;
    }
    assert(v@.take(v@.len() as int) =~= v@);
    out
}

/// `a + b` modulo the word size.
pub open spec fn wrap_add(a: int, b: int) -> int {
    if a + b > usize::MAX {
        a + b - (usize::MAX + 1)
    } else {
        a + b
    }
}

/// Executors `n` are `o` with CPU `cpu` replaced.
pub open spec fn only_cpu_changed(o: Executors, n: Executors, cpu: int) -> bool {
    &&& n.cpus@.len() == o.cpus@.len()
    &&& forall|c: int| 0 <= c < o.cpus@.len() && c != cpu ==> n.cpus@[c] == o.cpus@[c]
}

/// What `run_step` does to a CPU's executor and what it says.
pub open spec fn run_step_post(o: CpuExec, n: CpuExec, budget: int, ran: int, r: RunStep) -> bool {
    if (budget != 0 && ran >= budget) || o.ready@.len() == 0 {
        r == RunStep::Done && n == o
    } else {
        let id = o.ready@[0];
        &&& n.ready@ == o.ready@.drop_first()
        &&& n.polls == wrap_add(o.polls as int, 1)
        &&& n.inited == o.inited
        &&& n.tick_seq == o.tick_seq
        &&& n.tick_wakers@ == o.tick_wakers@
        &&& if o.tasks@.contains(id) {
            &&& r == RunStep::Poll(id)
            &&& n.tasks@ == o.tasks@.filter(|x: u64| x != id)
            &&& n.waker_cache@ == (if o.waker_cache@.contains(id) {
                o.waker_cache@
            } else {
                o.waker_cache@.push(id)
            })
        } else {
            &&& r == RunStep::Skipped
            &&& n.tasks@ == o.tasks@
            &&& n.waker_cache@ == o.waker_cache@
        }
    }
}

impl CpuExec {
    fn mark_inited(&mut self)
        ensures
            final(self).inited,
            final(self).ready == old(self).ready,
            final(self).tasks@ == old(self).tasks@,
            final(self).waker_cache@ == old(self).waker_cache@,
            final(self).polls == old(self).polls,
            final(self).tick_seq == old(self).tick_seq,
            final(self).tick_wakers@ == old(self).tick_wakers@,
    {
        self.inited = true;
    }

    /// Parks task `id` and queues it as ready.
    pub fn spawn(&mut self, id: u64)
        requires
            old(self).ready.wf(),
            !old(self).tasks@.contains(id),
            old(self).ready@.len() < READYQ_SIZE,
        ensures
            final(self).ready.wf(),
            final(self).ready@ == old(self).ready@.push(id),
            final(self).tasks@ == old(self).tasks@.push(id),
            final(self).inited == old(self).inited,
            final(self).waker_cache@ == old(self).waker_cache@,
            final(self).polls == old(self).polls,
            final(self).tick_seq == old(self).tick_seq,
            final(self).tick_wakers@ == old(self).tick_wakers@,
    {
        self.tasks.push(id);
        let ok = self.ready.push(id);
        assert(ok);
    }

    /// Takes the next ready task and, if it is still parked, unparks it
    /// for polling; stops once `ran` has reached a non-zero `budget`.
    pub fn run_step(&mut self, budget: usize, ran: usize) -> (r: RunStep)
        requires
            old(self).ready.wf(),
        ensures
            final(self).ready.wf(),
            run_step_post(*old(self), *final(self), budget as int, ran as int, r),
    {
        if budget != 0 && ran >= budget {
            return RunStep::Done;
        }
        let id = match self.ready.pop() {
            None => {
                return RunStep::Done;
            },
            Some(id) => id,
        };
        self.polls = self.polls.wrapping_add(1);
        if !contains_id(&self.tasks, id) {
            return RunStep::Skipped;
        }
        self.tasks = remove_id(&self.tasks, id);
        if !contains_id(&self.waker_cache, id) {
            self.waker_cache.push(id);
        }
        RunStep::Poll(id)
    }

    /// Records the outcome of polling task `id`: a finished task loses its
    /// waker, an unfinished one is parked again.
    pub fn finish_poll(&mut self, id: u64, finished: bool)
        ensures
            final(self).ready == old(self).ready,
            final(self).inited == old(self).inited,
            final(self).polls == old(self).polls,
            final(self).tick_seq == old(self).tick_seq,
            final(self).tick_wakers@ == old(self).tick_wakers@,
            finished ==> final(self).tasks@ == old(self).tasks@ && final(self).waker_cache@ == old(
                self,
            ).waker_cache@.filter(|x: u64| x != id),
            !finished ==> final(self).tasks@ == old(self).tasks@.push(id) && final(self).waker_cache@
                == old(self).waker_cache@,
    {
        if finished {
            self.waker_cache = remove_id(&self.waker_cache, id);
        } else {
            self.tasks.push(id);
        }
    }

    /// A tick: counts it and wakes every task waiting for it.
    pub fn on_tick(&mut self)
        requires
            old(self).ready.wf(),
            old(self).ready@.len() + old(self).tick_wakers@.len() <= READYQ_SIZE,
        ensures
            final(self).ready.wf(),
            final(self).tick_seq == wrap_add(old(self).tick_seq as int, 1),
            final(self).ready@ == old(self).ready@ + old(self).tick_wakers@,
            final(self).tick_wakers@.len() == 0,
            final(self).inited == old(self).inited,
            final(self).tasks@ == old(self).tasks@,
            final(self).waker_cache@ == old(self).waker_cache@,
            final(self).polls == old(self).polls,
    {
        let ghost o = *self;
        self.tick_seq = self.tick_seq.wrapping_add(1);
        let ghost r0 = self.ready@;
        let mut i: usize = 0;
        while i < self.tick_wakers.len()
            invariant
                self.ready.wf(),
                self.tick_seq == wrap_add(o.tick_seq as int, 1),
                self.tick_wakers@ == o.tick_wakers@,
                r0 == o.ready@,
                self.inited == o.inited,
                self.tasks@ == o.tasks@,
                self.waker_cache@ == o.waker_cache@,
                self.polls == o.polls,
                i <= self.tick_wakers@.len(),
                r0.len() + self.tick_wakers@.len() <= READYQ_SIZE,
                self.ready@ == r0 + self.tick_wakers@.take(i as int),
            decreases self.tick_wakers@.len() - i,
        {
            let id = self.tick_wakers[i];
            let ok = self.ready.push(id);
            assert(ok);
            assert(self.ready@ =~= r0 + self.tick_wakers@.take(i + 1));
            i = i + 1;
        }
        assert(self.tick_wakers@.take(self.tick_wakers@.len() as int) =~= self.tick_wakers@);
        self.tick_wakers.clear();
    }

    fn add_tick_waker(&mut self, id: u64)
        ensures
            final(self).tick_wakers@ == old(self).tick_wakers@.push(id),
            final(self).ready == old(self).ready,
            final(self).inited == old(self).inited,
            final(self).tasks@ == old(self).tasks@,
            final(self).waker_cache@ == old(self).waker_cache@,
            final(self).polls == old(self).polls,
            final(self).tick_seq == old(self).tick_seq,
    {
        self.tick_wakers.push(id);
    }
}

/// Sets up the executor of `cpu`; each CPU is set up once.
pub fn init_cpu(ex: &mut Executors, cpu: usize)
    requires
        old(ex).wf(),
        cpu < NCPU,
        !old(ex).cpu(cpu as int).inited,
    ensures
        final(ex).wf(),
        only_cpu_changed(*old(ex), *final(ex), cpu as int),
        final(ex).cpu(cpu as int).inited,
        final(ex).cpu(cpu as int).ready == old(ex).cpu(cpu as int).ready,
        final(ex).cpu(cpu as int).tasks@ == old(ex).cpu(cpu as int).tasks@,
{
    ex.cpus[cpu].mark_inited();
    assert forall|c: int| 0 <= c < NCPU implies (#[trigger] ex.cpus@[c]).ready.wf() by {
        assert(old(ex).cpus@[c].ready.wf());
    }
}

/// Adds `task` to the executor of `cpu` and queues it as ready.
pub fn spawn_on(ex: &mut Executors, cpu: usize, task: Task)
    requires
        old(ex).wf(),
        cpu < NCPU,
        old(ex).cpu(cpu as int).inited,
        !old(ex).cpu(cpu as int).tasks@.contains(task.id),
        old(ex).cpu(cpu as int).ready@.len() < READYQ_SIZE,
    ensures
        final(ex).wf(),
        only_cpu_changed(*old(ex), *final(ex), cpu as int),
        final(ex).cpu(cpu as int).ready@ == old(ex).cpu(cpu as int).ready@.push(task.id),
        final(ex).cpu(cpu as int).tasks@ == old(ex).cpu(cpu as int).tasks@.push(task.id),
        final(ex).cpu(cpu as int).inited,
{
    assert(old(ex).cpus@[cpu as int].ready.wf());
    ex.cpus[cpu].spawn(task.id);
    assert forall|c: int| 0 <= c < NCPU implies (#[trigger] ex.cpus@[c]).ready.wf() by {
        assert(old(ex).cpus@[c].ready.wf());
    }
}

/// Adds `task` to the executor of the CPU running the caller, `this_cpu`.
pub fn spawn_local(ex: &mut Executors, this_cpu: usize, task: Task)
    requires
        old(ex).wf(),
        this_cpu < NCPU,
        old(ex).cpu(this_cpu as int).inited,
        !old(ex).cpu(this_cpu as int).tasks@.contains(task.id),
        old(ex).cpu(this_cpu as int).ready@.len() < READYQ_SIZE,
    ensures
        final(ex).wf(),
        only_cpu_changed(*old(ex), *final(ex), this_cpu as int),
        final(ex).cpu(this_cpu as int).ready@ == old(ex).cpu(this_cpu as int).ready@.push(task.id),
        final(ex).cpu(this_cpu as int).tasks@ == old(ex).cpu(this_cpu as int).tasks@.push(task.id),
{
    spawn_on(ex, this_cpu, task);
}

/// Whether no task is ready on `cpu`.
pub fn ready_is_empty_cpu(ex: &Executors, cpu: usize) -> (b: bool)
    requires
        ex.wf(),
        cpu < NCPU,
    ensures
        b == (ex.cpu(cpu as int).ready@.len() == 0),
{
    assert(ex.cpus@[cpu as int].ready.wf());
    ex.cpus[cpu].ready.is_empty()
}

/// One step of running the ready tasks of `cpu`, `ran` of them run so far
/// under `budget` (0: no limit). On `Poll(id)` the caller polls that
/// task's future and reports with [`finish_poll`], then counts it as run.
pub fn run_ready_tasks_cpu(ex: &mut Executors, cpu: usize, budget: usize, ran: usize) -> (r: RunStep)
    requires
        old(ex).wf(),
        cpu < NCPU,
        old(ex).cpu(cpu as int).inited,
    ensures
        final(ex).wf(),
        only_cpu_changed(*old(ex), *final(ex), cpu as int),
        run_step_post(old(ex).cpu(cpu as int), final(ex).cpu(cpu as int), budget as int, ran as int, r),
{
    assert(old(ex).cpus@[cpu as int].ready.wf());
    let r = ex.cpus[cpu].run_step(budget, ran);
    assert forall|c: int| 0 <= c < NCPU implies (#[trigger] ex.cpus@[c]).ready.wf() by {
        assert(old(ex).cpus@[c].ready.wf());
    }
    r
}

/// One step of running every ready task of the CPU running the caller,
/// with no budget.
pub fn run_ready_tasks(ex: &mut Executors, this_cpu: usize, ran: usize) -> (r: RunStep)
    requires
        old(ex).wf(),
        this_cpu < NCPU,
        old(ex).cpu(this_cpu as int).inited,
    ensures
        final(ex).wf(),
        only_cpu_changed(*old(ex), *final(ex), this_cpu as int),
        run_step_post(old(ex).cpu(this_cpu as int), final(ex).cpu(this_cpu as int), 0, ran as int, r),
{
    run_ready_tasks_cpu(ex, this_cpu, 0, ran)
}

/// Reports that the poll of task `id` on `cpu` returned; `finished` when
/// its future completed.
pub fn finish_poll(ex: &mut Executors, cpu: usize, id: u64, finished: bool)
    requires
        old(ex).wf(),
        cpu < NCPU,
    ensures
        final(ex).wf(),
        only_cpu_changed(*old(ex), *final(ex), cpu as int),
        final(ex).cpu(cpu as int).ready == old(ex).cpu(cpu as int).ready,
        finished ==> final(ex).cpu(cpu as int).tasks@ == old(ex).cpu(cpu as int).tasks@
            && final(ex).cpu(cpu as int).waker_cache@ == old(ex).cpu(cpu as int).waker_cache@.filter(
            |x: u64| x != id,
        ),
        !finished ==> final(ex).cpu(cpu as int).tasks@ == old(ex).cpu(cpu as int).tasks@.push(id),
{
    ex.cpus[cpu].finish_poll(id, finished);
    assert forall|c: int| 0 <= c < NCPU implies (#[trigger] ex.cpus@[c]).ready.wf() by {
        assert(old(ex).cpus@[c].ready.wf());
    }
}

/// What a tick on `cpu` does to the executors.
pub open spec fn on_tick_post(o: Executors, n: Executors, cpu: int) -> bool {
    &&& only_cpu_changed(o, n, cpu)
    &&& n.cpu(cpu).tick_seq == wrap_add(o.cpu(cpu).tick_seq as int, 1)
    &&& n.cpu(cpu).ready@ == o.cpu(cpu).ready@ + o.cpu(cpu).tick_wakers@
    &&& n.cpu(cpu).tick_wakers@.len() == 0
    &&& n.cpu(cpu).tasks@ == o.cpu(cpu).tasks@
}

/// A tick on `cpu`: counts it and queues the tasks waiting for it.
pub fn on_tick_cpu(ex: &mut Executors, cpu: usize)
    requires
        old(ex).wf(),
        cpu < NCPU,
        old(ex).cpu(cpu as int).ready@.len() + old(ex).cpu(cpu as int).tick_wakers@.len() <= READYQ_SIZE,
    ensures
        final(ex).wf(),
        on_tick_post(*old(ex), *final(ex), cpu as int),
{
    assert(old(ex).cpus@[cpu as int].ready.wf());
    ex.cpus[cpu].on_tick();
    assert forall|c: int| 0 <= c < NCPU implies (#[trigger] ex.cpus@[c]).ready.wf() by {
        assert(old(ex).cpus@[c].ready.wf());
    }
}

/// A future ready `n` ticks from now on the CPU running the caller.
pub fn sleep_ticks(ex: &Executors, this_cpu: usize, n: usize) -> (s: SleepTicks)
    requires
        ex.wf(),
        this_cpu < NCPU,
        ex.cpu(this_cpu as int).tick_seq + n <= usize::MAX,
    ensures
        s.cpu == this_cpu,
        s.target == ex.cpu(this_cpu as int).tick_seq + n,
{
    let now = ex.cpus[this_cpu].tick_seq;
    SleepTicks { cpu: this_cpu, target: now + n }
}

/// What polling sleep `s` for task `task` does and says.
pub open spec fn sleep_poll_post(o: Executors, n: Executors, s: SleepTicks, task: u64, ready: bool) -> bool {
    let c = s.cpu as int;
    &&& ready == (o.cpu(c).tick_seq >= s.target)
    &&& ready ==> n == o
    &&& !ready ==> {
        &&& only_cpu_changed(o, n, c)
        &&& n.cpu(c).tick_wakers@ == o.cpu(c).tick_wakers@.push(task)
        &&& n.cpu(c).ready == o.cpu(c).ready
        &&& n.cpu(c).tick_seq == o.cpu(c).tick_seq
        &&& n.cpu(c).tasks@ == o.cpu(c).tasks@
    }
}

impl SleepTicks {
    /// Polls the sleep on behalf of task `task`: ready once the tick count
    /// has reached the target; otherwise the task waits for the next tick.
    pub fn poll(&self, ex: &mut Executors, task: u64) -> (ready: bool)
        requires
            old(ex).wf(),
            self.cpu < NCPU,
        ensures
            final(ex).wf(),
            sleep_poll_post(*old(ex), *final(ex), *self, task, ready),
    {
        let cpu = self.cpu;
        let now = ex.cpus[cpu].tick_seq;
        if now >= self.target {
            return true;
        }
        ex.cpus[cpu].add_tick_waker(task);
        assert forall|c: int| 0 <= c < NCPU implies (#[trigger] ex.cpus@[c]).ready.wf() by {
            assert(old(ex).cpus@[c].ready.wf());
        }
        let now2 = ex.cpus[cpu].tick_seq;
        now2 >= self.target
    }
}

/// Polls made on the first `k` CPUs, modulo the word size.
pub open spec fn poll_sum(cpus: Seq<CpuExec>, k: int) -> int
    decreases k,
{
    if k <= 0 {
        0
    } else {
        wrap_add(poll_sum(cpus, k - 1), cpus[k - 1].polls as int)
    }
}

/// Polls made on all CPUs, modulo the word size.
pub fn poll_count_total(ex: &Executors) -> (sum: usize)
    requires
        ex.wf(),
    ensures
        sum == poll_sum(ex.cpus@, NCPU as int),
{
    let mut sum: usize = 0;
    let mut i: usize = 0;
    while i < NCPU
        invariant
            i <= NCPU,
            ex.cpus@.len() == NCPU,
            sum == poll_sum(ex.cpus@, i as int),
        decreases NCPU - i,
    {
        sum = sum.wrapping_add(ex.cpus[i].polls);
        i = i + 1;
    }
    sum
}

/// A task whose sleep is not over yet is queued as ready by the next tick
/// of the sleep's CPU.
pub proof fn law_tick_wakes_sleeper(o: Executors, m: Executors, p: Executors, s: SleepTicks, task: u64)
    requires
        o.wf(),
        s.cpu < NCPU,
        sleep_poll_post(o, m, s, task, false),
        on_tick_post(m, p, s.cpu as int),
    ensures
        p.cpu(s.cpu as int).ready@.contains(task),
{
    let c = s.cpu as int;
    let w = m.cpu(c).tick_wakers@;
    assert(w[w.len() - 1] == task);
    assert(p.cpu(c).ready@[m.cpu(c).ready@.len() + w.len() - 1] == task);
}

/// The ready queue is first in, first out: a task spawned on a CPU with
/// nothing ready is the one polled next.
pub proof fn law_spawned_task_polled_next(o: Executors, m: Executors, p: Executors, cpu: int, id: u64, budget: int, r: RunStep)
    requires
        o.wf(),
        0 <= cpu < NCPU,
        0 <= budget,
        o.cpu(cpu).ready@.len() == 0,
        !o.cpu(cpu).tasks@.contains(id),
        only_cpu_changed(o, m, cpu),
        m.cpu(cpu).ready@ == o.cpu(cpu).ready@.push(id),
        m.cpu(cpu).tasks@ == o.cpu(cpu).tasks@.push(id),
        run_step_post(m.cpu(cpu), p.cpu(cpu), budget, 0, r),
    ensures
        r == RunStep::Poll(id),
{
    assert(m.cpu(cpu).tasks@[o.cpu(cpu).tasks@.len() as int] == id);
}

} // verus!
