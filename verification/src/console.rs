use vstd::prelude::*;
use crate::error::{Error, Result};
use crate::signal::{SIGINT, SIGTSTP};

verus! {

pub const INPUT_BUF_SIZE: usize = 128;
pub const BS: u8 = 0x08;

/// The byte typed as control-`x`.
pub fn ctrl(x: u8) -> (c: u8)
    requires
        64 <= x,
    ensures
        c == x - 64,
{
    x - 64
}

/// The console's line discipline: an input ring holding committed bytes
/// (ready for `read`) followed by the line being edited, and the terminal's
/// session and foreground process group.
pub struct Cons {
    buf: Vec<u8>,
    /// Slot of the oldest committed byte.
    r: usize,
    /// Number of committed bytes.
    nw: usize,
    /// Number of bytes in the line being edited.
    ne: usize,
    session: usize,
    fg_pgrp: usize,
}

/// What the input interrupt handler asks of the rest of the kernel.
pub struct ConsAction {
    /// Bytes to echo, each through `putc`.
    pub echo: Vec<u8>,
    /// A signal to send to a process group: `(pgid, sig)`.
    pub signal: Option<(usize, usize)>,
    /// Print the process list.
    pub dump: bool,
    /// Wake readers: a line was committed.
    pub wakeup: bool,
}

/// Outcome of one pass of a console read.
pub enum ReadStep {
    /// The read is complete with these bytes.
    Done(Vec<u8>),
    /// These bytes were read and the reader must sleep for more input.
    Wait(Vec<u8>),
    /// The reader was killed while waiting.
    Interrupted,
}

/// The bytes that `rd` hands out, how many it consumes, and how it ends:
/// 0 done, 1 must wait, 2 interrupted.
pub open spec fn rd(c: Seq<u8>, n: int, target: int, killed: bool) -> (Seq<u8>, int, int)
    decreases c.len(),
{
    if n <= 0 {
        (Seq::empty(), 0, 0)
    } else if c.len() == 0 {
        (Seq::empty(), 0, if killed { 2int } else { 1int })
    } else if c[0] == 4u8 {
        (Seq::empty(), if n < target { 0int } else { 1int }, 0)
    } else if c[0] == 10u8 {
        (seq![10u8], 1, 0)
    } else {
        let t = rd(c.drop_first(), n - 1, target, killed);
        (seq![c[0]] + t.0, t.1 + 1, t.2)
    }
}

impl Cons {
    pub closed spec fn wf(&self) -> bool {
        &&& self.buf@.len() == INPUT_BUF_SIZE
        &&& self.r < INPUT_BUF_SIZE
        &&& self.nw + self.ne <= INPUT_BUF_SIZE
        &&& forall|i: int| 0 <= i < self.ne ==> #[trigger] self.editing()[i] != 10u8
    }

    /// Committed input, oldest first.
    pub closed spec fn committed(&self) -> Seq<u8> {
        Seq::new(self.nw as nat, |i: int| self.buf@[(self.r + i) % (INPUT_BUF_SIZE as int)])
    }

    /// The line being edited.
    pub closed spec fn editing(&self) -> Seq<u8> {
        Seq::new(
            self.ne as nat,
            |i: int| self.buf@[(self.r + self.nw + i) % (INPUT_BUF_SIZE as int)],
        )
    }

    pub closed spec fn spec_session(&self) -> usize {
        self.session
    }

    pub closed spec fn spec_fg_pgrp(&self) -> usize {
        self.fg_pgrp
    }

    pub fn new() -> (c: Self)
        ensures
            c.wf(),
            c.committed() == Seq::<u8>::empty(),
            c.editing() == Seq::<u8>::empty(),
            c.spec_session() == 0,
            c.spec_fg_pgrp() == 0,
    {
        let mut buf: Vec<u8> = Vec::new();
        let mut i: usize = 0;
        while i < INPUT_BUF_SIZE
            invariant
                0 <= i <= INPUT_BUF_SIZE,
                buf@.len() == i,
            decreases INPUT_BUF_SIZE - i,
        {
            buf.push(0);
            i = i + 1;
        }
        let c = Cons { buf, r: 0, nw: 0, ne: 0, session: 0, fg_pgrp: 0 };
        assert(c.committed() =~= Seq::<u8>::empty());
        assert(c.editing() =~= Seq::<u8>::empty());
        c
    }

    /// Handles one input byte: control-C and control-Z signal the
    /// foreground group (or `cur_pgid` when there is none), control-P asks
    /// for the process list, control-U erases the line being edited,
    /// backspace (control-H or DEL) erases its last byte; any other nonzero
    /// byte is echoed and appended (CR as LF) while there is room, and a
    /// newline, control-D or a full buffer commits the line.
    pub fn intr(&mut self, c: u8, cur_pgid: usize) -> (a: ConsAction)
        requires
            old(self).wf(),
        ensures
            final(self).wf(),
            final(self).spec_session() == old(self).spec_session(),
            final(self).spec_fg_pgrp() == old(self).spec_fg_pgrp(),
            (c == 3u8 || c == 26u8) ==> {
                let target = if old(self).spec_fg_pgrp() == 0 { cur_pgid } else { old(self).spec_fg_pgrp() };
                &&& final(self).committed() == old(self).committed()
                &&& final(self).editing() == old(self).editing()
                &&& a.echo@.len() == 0 && !a.dump && !a.wakeup
                &&& a.signal == (if target == 0 {
                    None
                } else {
                    Some((target, if c == 3u8 { SIGINT } else { SIGTSTP }))
                })
            },
            c == 16u8 ==> final(self).committed() == old(self).committed() && final(self).editing() == old(
                self,
            ).editing() && a.echo@.len() == 0 && a.dump && !a.wakeup && a.signal is None,
            c == 21u8 ==> final(self).committed() == old(self).committed() && final(self).editing()
                == Seq::<u8>::empty() && a.echo@ == Seq::new(old(self).editing().len(), |i: int| BS) && !a.dump
                && !a.wakeup && a.signal is None,
            (c == 8u8 || c == 127u8) ==> final(self).committed() == old(self).committed() && !a.dump && !a.wakeup
                && a.signal is None && (if old(self).editing().len() == 0 {
                final(self).editing() == old(self).editing() && a.echo@.len() == 0
            } else {
                final(self).editing() == old(self).editing().drop_last() && a.echo@ == seq![BS]
            }),
            c != 3u8 && c != 26u8 && c != 16u8 && c != 21u8 && c != 8u8 && c != 127u8 ==> {
                let c2 = if c == 13u8 { 10u8 } else { c };
                let line = old(self).editing().push(c2);
                &&& !a.dump && a.signal is None
                &&& if c == 0 || old(self).committed().len() + old(self).editing().len() >= INPUT_BUF_SIZE {
                    &&& final(self).committed() == old(self).committed()
                    &&& final(self).editing() == old(self).editing()
                    &&& a.echo@.len() == 0 && !a.wakeup
                } else if c2 == 10u8 || c2 == 4u8 || old(self).committed().len() + line.len()
                    == INPUT_BUF_SIZE {
                    &&& final(self).committed() == old(self).committed() + line
                    &&& final(self).editing() == Seq::<u8>::empty()
                    &&& a.echo@ == seq![c2] && a.wakeup
                } else {
                    &&& final(self).committed() == old(self).committed()
                    &&& final(self).editing() == line
                    &&& a.echo@ == seq![c2] && !a.wakeup
                }
            },
    {
        let mut a = ConsAction { echo: Vec::new(), signal: None, dump: false, wakeup: false };
        if c == 3u8 || c == 26u8 {
            let target = if self.fg_pgrp == 0 { cur_pgid } else { self.fg_pgrp };
            if target != 0 {
                a.signal = Some((target, if c == 3u8 { SIGINT } else { SIGTSTP }));
            }
        } else if c == 16u8 {
            a.dump = true;
        } else if c == 21u8 {
            let ghost old_ed = self.editing();
            while self.ne > 0 && self.buf[(self.r + self.nw + self.ne - 1) % INPUT_BUF_SIZE] != 10u8
                invariant
                    self.wf(),
                    self.committed() == old(self).committed(),
                    self.editing() == old_ed.subrange(0, self.ne as int),
                    self.ne <= old_ed.len(),
                    self.session == old(self).session && self.fg_pgrp == old(self).fg_pgrp,
                    a.echo@ == Seq::new((old_ed.len() - self.ne) as nat, |i: int| BS),
                    a.signal is None && !a.dump && !a.wakeup,
                decreases self.ne,
            {
                self.ne = self.ne - 1;
                a.echo.push(BS);
                assert(self.editing() =~= old_ed.subrange(0, self.ne as int));
                assert(a.echo@ =~= Seq::new((old_ed.len() - self.ne) as nat, |i: int| BS));
            }
            if self.ne > 0 {
                assert(self.editing()[self.ne - 1] == self.buf@[(self.r + self.nw + self.ne - 1) % (
                INPUT_BUF_SIZE as int)]);
            }
            assert(self.editing() =~= Seq::<u8>::empty());
        } else if c == 8u8 || c == 127u8 {
            if self.ne > 0 {
                let ghost old_ed = self.editing();
                self.ne = self.ne - 1;
                a.echo.push(BS);
                assert(self.editing() =~= old_ed.drop_last());
                assert(a.echo@ =~= seq![BS]);
            }
        } else {
            if c != 0 && self.nw + self.ne < INPUT_BUF_SIZE {
                let c2 = if c == 13u8 { 10u8 } else { c };
                let ghost old_ed = self.editing();
                let ghost old_cm = self.committed();
                a.echo.push(c2);
                let idx = (self.r + self.nw + self.ne) % INPUT_BUF_SIZE;
                self.buf.set(idx, c2);
                self.ne = self.ne + 1;
                proof {
                    assert forall|i: int| 0 <= i < old_cm.len() implies #[trigger] self.committed()[i]
                        == old_cm[i] by {
                        lemma_ring_distinct(self.r as int, i, (self.nw + self.ne - 1) as int);
                    }
                    assert(self.committed() =~= old_cm);
                    assert forall|i: int| 0 <= i < old_ed.len() implies #[trigger] self.editing()[i]
                        == old_ed[i] by {
                        lemma_ring_distinct(self.r as int, self.nw + i, (self.nw + self.ne - 1) as int);
                    }
                    assert(self.editing() =~= old_ed.push(c2));
                    assert(a.echo@ =~= seq![c2]);
                }
                if c2 == 10u8 || c2 == 4u8 || self.nw + self.ne == INPUT_BUF_SIZE {
                    let ghost ed = self.editing();
                    self.nw = self.nw + self.ne;
                    self.ne = 0;
                    a.wakeup = true;
                    assert(self.committed() =~= old_cm + ed);
                    assert(self.editing() =~= Seq::<u8>::empty());
                } else {
                    assert(forall|i: int| 0 <= i < self.ne ==> #[trigger] self.editing()[i] != 10u8);
                }
            }
        }
        a
    }

    /// One pass of a read of up to `n` more bytes (of `target` asked for):
    /// hands out committed bytes up to and including a newline; control-D
    /// ends the read and is left in place when bytes were already read, so
    /// that the next read returns none. When the input runs dry the reader
    /// must sleep, unless it has been killed.
    pub fn read_step(&mut self, n: usize, target: usize, killed: bool) -> (s: ReadStep)
        requires
            old(self).wf(),
            n <= target,
        ensures
            final(self).wf(),
            final(self).editing() == old(self).editing(),
            final(self).spec_session() == old(self).spec_session(),
            final(self).spec_fg_pgrp() == old(self).spec_fg_pgrp(),
            ({
                let t = rd(old(self).committed(), n as int, target as int, killed);
                &&& final(self).committed() == old(self).committed().skip(t.1)
                &&& match s {
                    ReadStep::Done(v) => t.2 == 0 && v@ == t.0,
                    ReadStep::Wait(v) => t.2 == 1 && v@ == t.0,
                    ReadStep::Interrupted => t.2 == 2,
                }
            }),
    {
        let ghost c0 = self.committed();
        assert(c0 == old(self).committed());
        let mut out: Vec<u8> = Vec::new();
        let mut m = n;
        loop
            invariant
                self.wf(),
                m <= n <= target,
                c0 == old(self).committed(),
                self.editing() == old(self).editing(),
                self.session == old(self).session && self.fg_pgrp == old(self).fg_pgrp,
                ({
                    let whole = rd(c0, n as int, target as int, killed);
                    let rest = rd(self.committed(), m as int, target as int, killed);
                    &&& whole.0 == out@ + rest.0
                    &&& whole.2 == rest.2
                    &&& c0.len() - self.committed().len() + rest.1 == whole.1
                    &&& self.committed() == c0.skip(c0.len() - self.committed().len())
                    &&& self.committed().len() <= c0.len()
                }),
            decreases m,
        {
            let ghost cm = self.committed();
            let ghost m0 = m;
            let ghost out0 = out@;
            if m == 0 {
                assert(out@ + Seq::<u8>::empty() =~= out@);
                let ghost t = rd(c0, n as int, target as int, killed);
                assert(rd(cm, 0, target as int, killed) == (Seq::<u8>::empty(), 0int, 0int));
                assert(t.0 == out@);
                assert(t.2 == 0);
                assert(t.1 == c0.len() - cm.len());
                assert(self.committed() == c0.skip(t.1));
                return ReadStep::Done(out);
            }
            if self.nw == 0 {
                assert(out@ + Seq::<u8>::empty() =~= out@);
                assert(cm.len() == 0);
                assert(rd(cm, m as int, target as int, killed) == (Seq::<u8>::empty(), 0int, if killed { 2int } else { 1int }));
                let ghost t = rd(c0, n as int, target as int, killed);
                assert(t.0 == out@ && t.1 == c0.len() - cm.len());
                assert(self.committed() == c0.skip(t.1));
                if killed {
                    return ReadStep::Interrupted;
                }
                return ReadStep::Wait(out);
            }
            let ch = self.buf[self.r];
            assert(ch == cm[0]);
            if ch == 4u8 {
                assert(rd(cm, m as int, target as int, killed) == (Seq::<u8>::empty(), if m < target { 0int } else { 1int }, 0int));
                if m < target {
                    assert(out@ + Seq::<u8>::empty() =~= out@);
                } else {
                    let ghost ed = self.editing();
                    let ghost rprev = self.r;
                    self.r = (self.r + 1) % INPUT_BUF_SIZE;
                    self.nw = self.nw - 1;
                    proof {
                        lemma_ring_step_r(rprev, self.r, self.nw, self.ne, self.buf@, cm, ed);
                    }
                    assert(out@ + Seq::<u8>::empty() =~= out@);
                    assert(c0.skip(c0.len() - cm.len() + 1) =~= cm.drop_first());
                }
                let ghost t = rd(c0, n as int, target as int, killed);
                assert(t.0 == out@ && t.2 == 0);
                assert(self.committed() == c0.skip(t.1));
                return ReadStep::Done(out);
            }
            let ghost ed = self.editing();
            let ghost rprev = self.r;
            self.r = (self.r + 1) % INPUT_BUF_SIZE;
            self.nw = self.nw - 1;
            proof {
                lemma_ring_step_r(rprev, self.r, self.nw, self.ne, self.buf@, cm, ed);
                assert(c0.skip(c0.len() - cm.len() + 1) =~= cm.drop_first());
            }
            out.push(ch);
            m = m - 1;
            if ch == 10u8 {
                assert(rd(cm, m0 as int, target as int, killed) == (seq![10u8], 1int, 0int));
                assert(out@ =~= out0 + seq![10u8]);
                assert(out@ + Seq::<u8>::empty() =~= out@);
                let ghost t = rd(c0, n as int, target as int, killed);
                assert(t.0 == out@ && t.2 == 0);
                assert(t.1 == c0.len() - cm.len() + 1);
                assert(self.committed() == c0.skip(t.1));
                return ReadStep::Done(out);
            }
            proof {
                let rest = rd(self.committed(), m as int, target as int, killed);
                assert(rd(cm, m0 as int, target as int, killed) == (seq![ch] + rest.0, rest.1 + 1, rest.2));
                assert(out@ + rest.0 =~= out0 + (seq![ch] + rest.0));
            }
        }
    }
}

/// Positions `a` and `b` of a ring that start at slot `r` are distinct slots
/// when the positions are distinct and less than a buffer apart.
pub proof fn lemma_ring_distinct(r: int, a: int, b: int)
    requires
        0 <= r < INPUT_BUF_SIZE,
        0 <= a < INPUT_BUF_SIZE,
        0 <= b < INPUT_BUF_SIZE,
        a != b,
    ensures
        (r + a) % (INPUT_BUF_SIZE as int) != (r + b) % (INPUT_BUF_SIZE as int),
{
}

proof fn lemma_ring_step_r(rprev: usize, r: usize, nw: usize, ne: usize, buf: Seq<u8>, cm: Seq<u8>, ed: Seq<u8>)
    requires
        rprev < INPUT_BUF_SIZE,
        r == (rprev + 1) % (INPUT_BUF_SIZE as int),
        buf.len() == INPUT_BUF_SIZE,
        nw + 1 + ne <= INPUT_BUF_SIZE,
        cm == Seq::new((nw + 1) as nat, |i: int| buf[(rprev + i) % (INPUT_BUF_SIZE as int)]),
        ed == Seq::new(ne as nat, |i: int| buf[(rprev + nw + 1 + i) % (INPUT_BUF_SIZE as int)]),
    ensures
        Seq::new(nw as nat, |i: int| buf[(r + i) % (INPUT_BUF_SIZE as int)]) == cm.drop_first(),
        Seq::new(ne as nat, |i: int| buf[(r + nw + i) % (INPUT_BUF_SIZE as int)]) == ed,
{
    assert forall|i: int| 0 <= i < nw implies #[trigger] buf[(r + i) % (INPUT_BUF_SIZE as int)] == buf[(rprev + (i
        + 1)) % (INPUT_BUF_SIZE as int)] by {
        if rprev + 1 == INPUT_BUF_SIZE {
            assert((rprev + (i + 1)) % (INPUT_BUF_SIZE as int) == i % (INPUT_BUF_SIZE as int));
        }
    }
    assert(Seq::new(nw as nat, |i: int| buf[(r + i) % (INPUT_BUF_SIZE as int)]) =~= cm.drop_first());
    assert forall|i: int| 0 <= i < ne implies #[trigger] buf[(r + nw + i) % (INPUT_BUF_SIZE as int)] == buf[(rprev
        + nw + 1 + i) % (INPUT_BUF_SIZE as int)] by {
        if rprev + 1 == INPUT_BUF_SIZE {
            assert((rprev + nw + 1 + i) % (INPUT_BUF_SIZE as int) == (nw + i) % (INPUT_BUF_SIZE as int));
        }
    }
    assert(Seq::new(ne as nat, |i: int| buf[(r + nw + i) % (INPUT_BUF_SIZE as int)]) =~= ed);
}

/// Whether input is waiting to be read.
pub fn readable(cons: &Cons) -> (b: bool)
    requires
        cons.wf(),
    ensures
        b == (cons.committed().len() > 0),
{
    cons.nw != 0
}

pub fn session(cons: &Cons) -> (s: usize)
    ensures
        s == cons.spec_session(),
{
    cons.session
}

pub fn fg_pgrp(cons: &Cons) -> (p: usize)
    ensures
        p == cons.spec_fg_pgrp(),
{
    cons.fg_pgrp
}

/// Whether group `pgid` may use the terminal: it is the foreground group,
/// or no foreground group is set.
pub fn is_foreground(cons: &Cons, pgid: usize) -> (b: bool)
    ensures
        b == (cons.spec_fg_pgrp() == 0 || cons.spec_fg_pgrp() == pgid),
{
    cons.fg_pgrp == 0 || cons.fg_pgrp == pgid
}

/// Makes `sid` the terminal's session unless another session has it.
pub fn set_session(cons: &mut Cons, sid: usize) -> (r: Result<()>)
    requires
        old(cons).wf(),
    ensures
        final(cons).wf(),
        final(cons).spec_fg_pgrp() == old(cons).spec_fg_pgrp(),
        final(cons).committed() == old(cons).committed() && final(cons).editing() == old(cons).editing(),
        old(cons).spec_session() != 0 && old(cons).spec_session() != sid ==> r == Err::<(), Error>(
            Error::PermissionDenied,
        ) && final(cons).spec_session() == old(cons).spec_session(),
        old(cons).spec_session() == 0 || old(cons).spec_session() == sid ==> r is Ok
            && final(cons).spec_session() == (if old(cons).spec_session() == 0 { sid } else { old(cons).spec_session() }),
{
    if cons.session != 0 && cons.session != sid {
        return Err(Error::PermissionDenied);
    }
    if cons.session == 0 {
        cons.session = sid;
    }
    assert(cons.editing() =~= old(cons).editing());
    Ok(())
}

/// Makes `pgid` the foreground group, on behalf of session `sid`, which
/// takes the terminal if no session has it.
pub fn set_fg_pgrp(cons: &mut Cons, sid: usize, pgid: usize) -> (r: Result<()>)
    requires
        old(cons).wf(),
    ensures
        final(cons).wf(),
        final(cons).committed() == old(cons).committed() && final(cons).editing() == old(cons).editing(),
        old(cons).spec_session() != 0 && old(cons).spec_session() != sid ==> r == Err::<(), Error>(
            Error::PermissionDenied,
        ) && final(cons).spec_session() == old(cons).spec_session() && final(cons).spec_fg_pgrp() == old(
            cons,
        ).spec_fg_pgrp(),
        old(cons).spec_session() == 0 || old(cons).spec_session() == sid ==> r is Ok
            && final(cons).spec_session() == sid && final(cons).spec_fg_pgrp() == pgid,
{
    if cons.session != 0 && cons.session != sid {
        return Err(Error::PermissionDenied);
    }
    if cons.session == 0 {
        cons.session = sid;
    }
    cons.fg_pgrp = pgid;
    assert(cons.editing() =~= old(cons).editing());
    Ok(())
}

/// The bytes that echoing `c` sends to the terminal: backspace is drawn as
/// backspace, space, backspace.
pub fn putc(c: u8) -> (out: Vec<u8>)
    ensures
        c == BS ==> out@ == seq![BS, 32u8, BS],
        c != BS ==> out@ == seq![c],
{
    let mut out: Vec<u8> = Vec::new();
    if c == BS {
        out.push(BS);
        out.push(32u8);
        out.push(BS);
    } else {
        out.push(c);
    }
    assert(c == BS ==> out@ =~= seq![BS, 32u8, BS]);
    assert(c != BS ==> out@ =~= seq![c]);
    out
}

/// UTF-8 encoding of the code point `c`.
pub open spec fn spec_utf8(c: u32) -> Seq<u8> {
    if c < 0x80 {
        seq![c as u8]
    } else if c < 0x800 {
        seq![(0xC0 | (c >> 6)) as u8, (0x80 | (c & 0x3F)) as u8]
    } else if c < 0x10000 {
        seq![(0xE0 | (c >> 12)) as u8, (0x80 | ((c >> 6) & 0x3F)) as u8, (0x80 | (c & 0x3F)) as u8]
    } else {
        seq![
            (0xF0 | (c >> 18)) as u8,
            (0x80 | ((c >> 12) & 0x3F)) as u8,
            (0x80 | ((c >> 6) & 0x3F)) as u8,
            (0x80 | (c & 0x3F)) as u8,
        ]
    }
}

/// The bytes that echoing character `c` sends to the terminal: its UTF-8
/// encoding, each byte as `putc` sends it.
pub fn putc_char(c: char) -> (out: Vec<u8>)
    ensures
        c as u32 == BS ==> out@ == seq![BS, 32u8, BS],
        c as u32 != BS ==> out@ == spec_utf8(c as u32),
{
    let v: u32 = c as u32;
    let mut out: Vec<u8> = Vec::new();
    if v < 0x80 {
        out = putc(v as u8);
        return out;
    } else if v < 0x800 {
        out.push((0xC0 | (v >> 6)) as u8);
        out.push((0x80 | (v & 0x3F)) as u8);
    } else if v < 0x10000 {
        out.push((0xE0 | (v >> 12)) as u8);
        out.push((0x80 | ((v >> 6) & 0x3F)) as u8);
        out.push((0x80 | (v & 0x3F)) as u8);
    } else {
        out.push((0xF0 | (v >> 18)) as u8);
        out.push((0x80 | ((v >> 12) & 0x3F)) as u8);
        out.push((0x80 | ((v >> 6) & 0x3F)) as u8);
        out.push((0x80 | (v & 0x3F)) as u8);
    }
    assert(out@ =~= spec_utf8(v));
    out
}

} // verus!
