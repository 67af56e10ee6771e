use vstd::prelude::*;
use crate::param::{NCPU, NPROC};

verus! {

/// Position `head + i` in a ring of `n` slots, for `0 <= head, i < n`.
pub open spec fn ring_pos(head: int, i: int, n: int) -> int {
    if head + i < n {
        head + i
    } else {
        head + i - n
    }
}

/// A fixed-capacity FIFO of process-table indices.
#[derive(Debug)]
pub struct RunQueue {
    buf: Vec<usize>,
    head: usize,
    tail: usize,
    len: usize,
}

impl RunQueue {
    pub closed spec fn wf(&self) -> bool {
        &&& self.buf@.len() == NPROC
        &&& self.head < NPROC
        &&& self.tail < NPROC
        &&& self.len <= NPROC
        &&& self.tail as int == ring_pos(self.head as int, self.len as int, NPROC as int)
            || (self.len == NPROC && self.tail == self.head)
    }

    /// The queued indices, oldest first.
    pub closed spec fn view(&self) -> Seq<usize> {
        Seq::new(
            self.len as nat,
            |i: int| self.buf@[ring_pos(self.head as int, i, NPROC as int)],
        )
    }

    pub fn new() -> (q: Self)
        ensures
            q.wf(),
            q@ == Seq::<usize>::empty(),
    {
        let mut buf: Vec<usize> = Vec::new();
        let mut i: usize = 0;
        while i < NPROC
            invariant
                0 <= i <= NPROC,
                buf@.len() == i,
            decreases NPROC - i,
        {
            buf.push(0);
            i = i + 1;
        }
        let q = Self { buf, head: 0, tail: 0, len: 0 };
        assert(q@ =~= Seq::<usize>::empty());
        q
    }

    pub fn is_empty(&self) -> (b: bool)
        requires
            self.wf(),
        ensures
            b == (self@.len() == 0),
    {
        self.len == 0
    }

    pub fn len(&self) -> (n: usize)
        requires
            self.wf(),
        ensures
            n == self@.len(),
    {
        self.len
    }

    /// Appends `idx` at the back.
    pub fn push(&mut self, idx: usize)
        requires
            old(self).wf(),
            idx < NPROC,
            old(self)@.len() < NPROC,
        ensures
            final(self).wf(),
            final(self)@ == old(self)@.push(idx),
    {
        let ghost old_view = self@;
        let t = self.tail;
        self.buf.set(t, idx);
        self.tail = if t + 1 == NPROC { 0 } else { t + 1 };
        self.len = self.len + 1;
        assert forall|i: int| 0 <= i < old_view.len() implies #[trigger] self@[i] == old_view[i] by {
            assert(ring_pos(self.head as int, i, NPROC as int) != t as int);
        }
        assert(self@ =~= old_view.push(idx));
    }

    /// Removes and returns the oldest index.
    pub fn pop(&mut self) -> (r: Option<usize>)
        requires
            old(self).wf(),
        ensures
            final(self).wf(),
            old(self)@.len() == 0 ==> r is None && *final(self) == *old(self),
            old(self)@.len() > 0 ==> r == Some(old(self)@[0]) && final(self)@ == old(self)@.drop_first(),
    {
        if self.len == 0 {
            return None;
        }
        let ghost old_view = self@;
        let idx = self.buf[self.head];
        let h = self.head;
        self.head = if h + 1 == NPROC { 0 } else { h + 1 };
        self.len = self.len - 1;
        assert(self@ =~= old_view.drop_first());
        Some(idx)
    }
}

impl Default for RunQueue {
    fn default() -> (q: Self)
        ensures
            q.wf(),
            q@ == Seq::<usize>::empty(),
    {
        Self::new()
    }
}

/// One run queue per CPU, plus the rotating start point for stealing.
pub struct RunQueues {
    pub queues: Vec<RunQueue>,
    pub steal_start: usize,
}

impl RunQueues {
    pub open spec fn wf(&self) -> bool {
        &&& self.queues@.len() == NCPU
        &&& forall|c: int| 0 <= c < NCPU ==> #[trigger] self.queues@[c].wf()
    }

    pub fn new() -> (r: Self)
        ensures
            r.wf(),
            forall|c: int| 0 <= c < NCPU ==> #[trigger] r.queues@[c]@ == Seq::<usize>::empty(),
    {
        let mut queues: Vec<RunQueue> = Vec::new();
        let mut i: usize = 0;
        while i < NCPU
            invariant
                0 <= i <= NCPU,
                queues@.len() == i,
                forall|c: int| #![trigger queues@[c]] 0 <= c < i ==> queues@[c].wf() && queues@[c]@ == Seq::<usize>::empty(),
            decreases NCPU - i,
        {
            queues.push(RunQueue::new());
            i = i + 1;
        }
        RunQueues { queues, steal_start: 0 }
    }
}

/// Queues `idx` on `cpu`'s run queue.
pub fn runq_push_cpu(rqs: &mut RunQueues, cpu: usize, idx: usize)
    requires
        old(rqs).wf(),
        cpu < NCPU,
        idx < NPROC,
        old(rqs).queues@[cpu as int]@.len() < NPROC,
    ensures
        final(rqs).wf(),
        final(rqs).steal_start == old(rqs).steal_start,
        final(rqs).queues@[cpu as int]@ == old(rqs).queues@[cpu as int]@.push(idx),
        forall|c: int| 0 <= c < NCPU && c != cpu ==> #[trigger] final(rqs).queues@[c]@ == old(rqs).queues@[c]@,
{
    rqs.queues[cpu].push(idx);
}

/// Queues `idx` on the run queue of the CPU that is running.
pub fn runq_push_local(rqs: &mut RunQueues, cpu: usize, idx: usize)
    requires
        old(rqs).wf(),
        cpu < NCPU,
        idx < NPROC,
        old(rqs).queues@[cpu as int]@.len() < NPROC,
    ensures
        final(rqs).wf(),
        final(rqs).steal_start == old(rqs).steal_start,
        final(rqs).queues@[cpu as int]@ == old(rqs).queues@[cpu as int]@.push(idx),
        forall|c: int| 0 <= c < NCPU && c != cpu ==> #[trigger] final(rqs).queues@[c]@ == old(rqs).queues@[c]@,
{
    runq_push_cpu(rqs, cpu, idx);
}

pub fn runq_push(rqs: &mut RunQueues, cpu: usize, idx: usize)
    requires
        old(rqs).wf(),
        cpu < NCPU,
        idx < NPROC,
        old(rqs).queues@[cpu as int]@.len() < NPROC,
    ensures
        final(rqs).wf(),
        final(rqs).steal_start == old(rqs).steal_start,
        final(rqs).queues@[cpu as int]@ == old(rqs).queues@[cpu as int]@.push(idx),
        forall|c: int| 0 <= c < NCPU && c != cpu ==> #[trigger] final(rqs).queues@[c]@ == old(rqs).queues@[c]@,
{
    runq_push_local(rqs, cpu, idx);
}

/// Pops from `cpu`'s own run queue.
pub fn runq_pop_local(rqs: &mut RunQueues, cpu: usize) -> (r: Option<usize>)
    requires
        old(rqs).wf(),
        cpu < NCPU,
    ensures
        final(rqs).wf(),
        final(rqs).steal_start == old(rqs).steal_start,
        old(rqs).queues@[cpu as int]@.len() == 0 ==> r is None && final(rqs).queues@ == old(rqs).queues@,
        old(rqs).queues@[cpu as int]@.len() > 0 ==> r == Some(old(rqs).queues@[cpu as int]@[0])
            && final(rqs).queues@[cpu as int]@ == old(rqs).queues@[cpu as int]@.drop_first(),
        forall|c: int| 0 <= c < NCPU && c != cpu ==> #[trigger] final(rqs).queues@[c]@ == old(rqs).queues@[c]@,
{
    let ghost old_queues = rqs.queues@;
    let r = rqs.queues[cpu].pop();
    proof {
        if old_queues[cpu as int]@.len() == 0 {
            assert(rqs.queues@ =~= old_queues);
        }
    }
    r
}

/// The CPU probed at step `off` of a steal that starts at `start`.
pub open spec fn victim(start: int, off: int) -> int {
    (start + off) % (NCPU as int)
}

/// Pops from `cpu`'s queue; when it is empty, steals the oldest entry of
/// the first non-empty other queue, probing CPUs round-robin from a start
/// point that advances on every steal attempt.
pub fn runq_pop_or_steal(rqs: &mut RunQueues, cpu: usize) -> (r: Option<usize>)
    requires
        old(rqs).wf(),
        cpu < NCPU,
    ensures
        final(rqs).wf(),
        old(rqs).queues@[cpu as int]@.len() > 0 ==> r == Some(old(rqs).queues@[cpu as int]@[0])
            && final(rqs).queues@[cpu as int]@ == old(rqs).queues@[cpu as int]@.drop_first()
            && final(rqs).steal_start == old(rqs).steal_start
            && forall|c: int| 0 <= c < NCPU && c != cpu ==> #[trigger] final(rqs).queues@[c]@ == old(rqs).queues@[c]@,
        old(rqs).queues@[cpu as int]@.len() == 0 ==> final(rqs).steal_start == old(rqs).steal_start.wrapping_add(1),
        r is None <==> forall|c: int| 0 <= c < NCPU ==> (#[trigger] old(rqs).queues@[c]@).len() == 0,
        r is None ==> final(rqs).queues@ == old(rqs).queues@,
        r matches Some(x) ==> exists|v: int|
            0 <= v < NCPU && (#[trigger] old(rqs).queues@[v]@).len() > 0 && x == old(rqs).queues@[v]@[0]
                && final(rqs).queues@[v]@ == old(rqs).queues@[v]@.drop_first() && forall|c: int|
                0 <= c < NCPU && c != v ==> #[trigger] final(rqs).queues@[c]@ == old(rqs).queues@[c]@,
{
    if let Some(idx) = runq_pop_local(rqs, cpu) {
        return Some(idx);
    }
    let ghost old_queues = rqs.queues@;
    let start = rqs.steal_start % NCPU;
    rqs.steal_start = rqs.steal_start.wrapping_add(1);
    let mut off: usize = 0;
    while off < NCPU
        invariant
            rqs.wf(),
            0 <= off <= NCPU,
            start < NCPU,
            rqs.queues@ == old_queues,
            old_queues == old(rqs).queues@,
            rqs.steal_start == old(rqs).steal_start.wrapping_add(1),
            old_queues[cpu as int]@.len() == 0,
            forall|o: int| 0 <= o < off ==> (#[trigger] old_queues[victim(start as int, o)]@).len() == 0,
        decreases NCPU - off,
    {
        let v = (start + off) % NCPU;
        if v != cpu {
            if let Some(idx) = runq_pop_local(rqs, v) {
                return Some(idx);
            }
        }
        off = off + 1;
    }
    assert forall|c: int| 0 <= c < NCPU implies (#[trigger] old_queues[c]@).len() == 0 by {
        let o = if c >= start { c - start } else { c + NCPU - start };
        assert(victim(start as int, o) == c);
    }
    None
}

/// Pops the next process index for `cpu` to run.
pub fn runq_pop(rqs: &mut RunQueues, cpu: usize) -> (r: Option<usize>)
    requires
        old(rqs).wf(),
        cpu < NCPU,
    ensures
        final(rqs).wf(),
        r is None <==> forall|c: int| 0 <= c < NCPU ==> (#[trigger] old(rqs).queues@[c]@).len() == 0,
        r is None ==> final(rqs).queues@ == old(rqs).queues@,
        old(rqs).queues@[cpu as int]@.len() > 0 ==> r == Some(old(rqs).queues@[cpu as int]@[0]),
        r matches Some(x) ==> popped_from(*old(rqs), *final(rqs), x),
{
    runq_pop_or_steal(rqs, cpu)
}

/// `n` is `o` with `x` taken from the front of one of its queues.
pub open spec fn popped_from(o: RunQueues, n: RunQueues, x: usize) -> bool {
    exists|v: int|
        0 <= v < NCPU && (#[trigger] o.queues@[v]@).len() > 0 && x == o.queues@[v]@[0]
            && n.queues@[v]@ == o.queues@[v]@.drop_first() && forall|c: int|
            0 <= c < NCPU && c != v ==> #[trigger] n.queues@[c]@ == o.queues@[c]@
}

/// Whether `cpu`'s own run queue is empty.
pub fn runq_is_empty(rqs: &RunQueues, cpu: usize) -> (b: bool)
    requires
        rqs.wf(),
        cpu < NCPU,
    ensures
        b == (rqs.queues@[cpu as int]@.len() == 0),
{
    rqs.queues[cpu].is_empty()
}

/// A queue's contents after `push` of each of `xs` in turn, starting from
/// contents `q`.
pub open spec fn after_pushes(q: Seq<usize>, xs: Seq<usize>) -> Seq<usize>
    decreases xs.len(),
{
    if xs.len() == 0 {
        q
    } else {
        after_pushes(q.push(xs[0]), xs.drop_first())
    }
}

/// What `n` calls of `pop` return, in order, from a queue holding `q`
/// (stopping at the first `None`).
pub open spec fn popped(q: Seq<usize>, n: nat) -> Seq<usize>
    decreases n,
{
    if n == 0 || q.len() == 0 {
        Seq::empty()
    } else {
        seq![q[0]] + popped(q.drop_first(), (n - 1) as nat)
    }
}

proof fn lemma_after_pushes(q: Seq<usize>, xs: Seq<usize>)
    ensures
        after_pushes(q, xs) == q + xs,
    decreases xs.len(),
{
    if xs.len() > 0 {
        lemma_after_pushes(q.push(xs[0]), xs.drop_first());
        assert(q.push(xs[0]) + xs.drop_first() =~= q + xs);
    } else {
        assert(q + xs =~= q);
    }
}

proof fn lemma_popped_all(q: Seq<usize>)
    ensures
        popped(q, q.len()) == q,
    decreases q.len(),
{
    if q.len() > 0 {
        lemma_popped_all(q.drop_first());
        assert(seq![q[0]] + q.drop_first() =~= q);
    }
}

/// Entries leave a run queue in the order they entered it: from a queue
/// holding `s`, pushing each of `xs` and then popping until it is empty
/// returns `s` and then `xs`, each in order.
pub proof fn law_runq_fifo(s: Seq<usize>, xs: Seq<usize>)
    ensures
        popped(after_pushes(s, xs), s.len() + xs.len()) == s + xs,
{
    lemma_after_pushes(s, xs);
    lemma_popped_all(s + xs);
}

} // verus!
