//! Unix-domain stream sockets: a name registry, listeners with a bounded
//! backlog, and connected pairs of bounded byte channels.
//!
//! All sockets of the system live in one [`UnixNet`]; a socket is named by
//! its slot there, and a stream end by the two channels it reads and writes.
//! A call that would wait in the kernel returns a `Block` step instead; the
//! caller sleeps and repeats it.

use vstd::prelude::*;
use crate::error::{Error, Result};
use crate::poll;

verus! {

pub const AF_UNIX: usize = 1;
pub const AF_INET: usize = 2;
pub const SOCK_STREAM: usize = 1;
pub const SOCK_DGRAM: usize = 2;
/// Bytes one direction of a stream buffers before its writer waits.
pub const STREAM_BUF: usize = 512;
/// Most connections a listener queues.
pub const BACKLOG_MAX: usize = 16;

/// Checks the triple given to `socket(2)`: Unix sockets are stream sockets
/// only, Internet sockets are stream or datagram sockets.
pub fn validate(domain: usize, stype: usize, _protocol: usize) -> (r: Result<()>)
    ensures
        r is Ok <==> ((domain == AF_UNIX && stype == SOCK_STREAM) || (domain == AF_INET && (
        stype == SOCK_STREAM || stype == SOCK_DGRAM))),
        r is Err ==> r == Err::<(), Error>(Error::InvalidArgument),
{
    if domain == AF_UNIX {
        if stype != SOCK_STREAM {
            return Err(Error::InvalidArgument);
        }
    } else if domain == AF_INET {
        if stype != SOCK_STREAM && stype != SOCK_DGRAM {
            return Err(Error::InvalidArgument);
        }
    } else {
        return Err(Error::InvalidArgument);
    }
    Ok(())
}

/// Whether two byte strings are equal.
pub fn bytes_eq(a: &[u8], b: &[u8]) -> (r: bool)
    ensures
        r == (a@ == b@),
{
    if a.len() != b.len() {
        return false;
    }
    let mut i: usize = 0;
    while i < a.len()
        invariant
            a@.len() == b@.len(),
            i <= a@.len(),
            forall|j: int| 0 <= j < i ==> a@[j] == b@[j],
        decreases a@.len() - i,
    {
        if a[i] != b[i] {
            return false;
        }
        i = i + 1;
    }
    assert(a@ =~= b@);
    true
}

/// One direction of a stream: the bytes in flight, the capacity, and
/// whether the writing or the reading end has been dropped.
pub struct Chan {
    pub data: Vec<u8>,
    pub cap: usize,
    pub senders_gone: bool,
    pub receiver_gone: bool,
}

/// One end of a connected stream: the channel it reads and the one it writes.
#[derive(Clone, Copy, Debug, PartialEq, Eq, Structural)]
pub struct UnixStream {
    pub rx: usize,
    pub tx: usize,
}

/// A listening socket's queue of connections not yet accepted.
pub struct UnixListener {
    pub pending: Vec<UnixStream>,
    pub cap: usize,
}

pub enum SocketState {
    Unbound,
    Listening(UnixListener),
    Connected(UnixStream),
}

/// A Unix socket: the path it is bound to, if any, and its state.
pub struct UnixSocket {
    pub name: Option<Vec<u8>>,
    pub state: SocketState,
}

/// A registry entry: a bound path and the socket bound to it.
pub struct RegEntry {
    pub path: Vec<u8>,
    pub sock: usize,
}

/// Every Unix socket, every stream channel, and the path registry.
pub struct UnixNet {
    pub socks: Vec<Option<UnixSocket>>,
    pub chans: Vec<Chan>,
    pub registry: Vec<RegEntry>,
}

/// What a read gives: bytes, or nothing yet (the caller sleeps).
pub enum ReadStep {
    Data(Vec<u8>),
    Block,
}

/// What a write did: how many bytes went in, and whether the caller must
/// sleep before writing the rest.
#[derive(Clone, Copy, Debug, PartialEq, Eq, Structural)]
pub struct WriteStep {
    pub sent: usize,
    pub blocked: bool,
}

/// What `accept` gives: a connection, or nothing yet (the caller sleeps).
#[derive(Clone, Copy, Debug, PartialEq, Eq, Structural)]
pub enum AcceptStep {
    Accepted(UnixStream),
    Block,
}

/// What `connect` did: connected, or the listener's queue is full (the
/// caller sleeps and tries again).
#[derive(Clone, Copy, Debug, PartialEq, Eq, Structural)]
pub enum ConnectStep {
    Connected,
    Block,
}

pub open spec fn stream_ok(s: UnixStream, nchans: int) -> bool {
    s.rx < nchans && s.tx < nchans
}

pub open spec fn state_ok(st: SocketState, nchans: int) -> bool {
    match st {
        SocketState::Unbound => true,
        SocketState::Listening(l) => {
            &&& 1 <= l.cap <= BACKLOG_MAX
            &&& l.pending@.len() <= l.cap
            &&& forall|i: int| 0 <= i < l.pending@.len() ==> stream_ok(#[trigger] l.pending@[i], nchans)
        },
        SocketState::Connected(s) => stream_ok(s, nchans),
    }
}

/// The first registry entry at or after `k` bound to `p`.
pub open spec fn find_from(reg: Seq<RegEntry>, p: Seq<u8>, k: int) -> Option<int>
    decreases reg.len() - k,
{
    if k < 0 || k >= reg.len() {
        None
    } else if reg[k].path@ == p {
        Some(k)
    } else {
        find_from(reg, p, k + 1)
    }
}

/// The registry entry bound to `p`.
pub open spec fn find(reg: Seq<RegEntry>, p: Seq<u8>) -> Option<int> {
    find_from(reg, p, 0)
}

pub proof fn lemma_find_from(reg: Seq<RegEntry>, p: Seq<u8>, k: int)
    requires
        0 <= k,
    ensures
        find_from(reg, p, k) matches Some(i) ==> k <= i < reg.len() && reg[i].path@ == p,
        find_from(reg, p, k) is None ==> forall|j: int| k <= j < reg.len() ==> reg[j].path@ != p,
    decreases reg.len() - k,
{
    if k < reg.len() && reg[k].path@ != p {
        lemma_find_from(reg, p, k + 1);
    }
}

impl UnixNet {
    pub open spec fn reg_ok(&self, e: RegEntry) -> bool {
        &&& e.sock < self.socks@.len()
        &&& (self.socks@[e.sock as int] matches Some(s) && (s.name matches Some(n) && n@ == e.path@))
    }

    pub open spec fn wf(&self) -> bool {
        &&& forall|i: int|
            0 <= i < self.socks@.len() && self.socks@[i] is Some ==> state_ok(
                #[trigger] self.socks@[i].unwrap().state,
                self.chans@.len() as int,
            )
        &&& forall|c: int|
            0 <= c < self.chans@.len() ==> #[trigger] self.chans@[c].data@.len()
                <= self.chans@[c].cap && self.chans@[c].cap == STREAM_BUF
        &&& forall|e: int| 0 <= e < self.registry@.len() ==> self.reg_ok(#[trigger] self.registry@[e])
        &&& forall|a: int, b: int|
            0 <= a < b < self.registry@.len() ==> #[trigger] self.registry@[a].path@
                != #[trigger] self.registry@[b].path@
    }

    /// Whether slot `id` holds a live socket.
    pub open spec fn live(&self, id: int) -> bool {
        0 <= id < self.socks@.len() && self.socks@[id] is Some
    }

    pub open spec fn sock(&self, id: int) -> UnixSocket {
        self.socks@[id].unwrap()
    }

    /// No sockets, channels or names.
    pub fn new() -> (n: Self)
        ensures
            n.wf(),
            n.socks@.len() == 0,
            n.chans@.len() == 0,
            n.registry@.len() == 0,
    {
        UnixNet { socks: Vec::new(), chans: Vec::new(), registry: Vec::new() }
    }

    /// The index of the registry entry bound to `path`.
    pub fn find_entry(&self, path: &[u8]) -> (r: Option<usize>)
        ensures
            r matches Some(i) ==> find(self.registry@, path@) == Some(i as int),
            r is None ==> find(self.registry@, path@) is None,
    {
        let mut i: usize = 0;
        while i < self.registry.len()
            invariant
                i <= self.registry@.len(),
                find(self.registry@, path@) == find_from(self.registry@, path@, i as int),
            decreases self.registry@.len() - i,
        {
            if bytes_eq(self.registry[i].path.as_slice(), path) {
                return Some(i);
            }
            i = i + 1;
        }
        None
    }
}

/// The bytes of `v` from `lo` up to `hi`.
fn copy_range(v: &Vec<u8>, lo: usize, hi: usize) -> (r: Vec<u8>)
    requires
        lo <= hi <= v@.len(),
    ensures
        r@ == v@.subrange(lo as int, hi as int),
{
    let mut out: Vec<u8> = Vec::new();
    let mut i: usize = lo;
    while i < hi
        invariant
            lo <= i <= hi <= v@.len(),
            out@ == v@.subrange(lo as int, i as int),
        decreases hi - i,
    {
        out.push(v[i]);
        assert(out@ =~= v@.subrange(lo as int, i + 1));
        i = i + 1;
    }
    out
}

/// The value of a state change that leaves everything but socket `id`
/// alone.
pub open spec fn only_sock_changed(o: UnixNet, n: UnixNet, id: int) -> bool {
    &&& n.chans@ == o.chans@
    &&& n.registry@ == o.registry@
    &&& n.socks@.len() == o.socks@.len()
    &&& forall|j: int| 0 <= j < o.socks@.len() && j != id ==> n.socks@[j] == o.socks@[j]
    &&& n.live(id)
}

/// The value of a state change that touches channel `c` alone, keeping
/// its capacity and flags.
pub open spec fn only_chan_data_changed(o: UnixNet, n: UnixNet, c: int, d: Seq<u8>) -> bool {
    &&& n.socks@ == o.socks@
    &&& n.registry@ == o.registry@
    &&& n.chans@.len() == o.chans@.len()
    &&& forall|j: int| 0 <= j < o.chans@.len() && j != c ==> n.chans@[j] == o.chans@[j]
    &&& n.chans@[c].data@ == d
    &&& n.chans@[c].cap == o.chans@[c].cap
    &&& n.chans@[c].senders_gone == o.chans@[c].senders_gone
    &&& n.chans@[c].receiver_gone == o.chans@[c].receiver_gone
}

pub open spec fn bind_post(o: UnixNet, n: UnixNet, id: int, p: Seq<u8>, r: Result<()>) -> bool {
    let s = o.sock(id);
    if p.len() == 0 || s.name is Some || !(s.state is Unbound) {
        r == Err::<(), Error>(Error::InvalidArgument) && n == o
    } else if find(o.registry@, p) is Some {
        r == Err::<(), Error>(Error::AlreadyExists) && n == o
    } else {
        &&& r == Ok::<(), Error>(())
        &&& n.chans@ == o.chans@
        &&& n.registry@.len() == o.registry@.len() + 1
        &&& n.registry@.take(o.registry@.len() as int) == o.registry@
        &&& n.registry@.last().path@ == p
        &&& n.registry@.last().sock == id
        &&& n.socks@.len() == o.socks@.len()
        &&& forall|j: int| 0 <= j < o.socks@.len() && j != id ==> n.socks@[j] == o.socks@[j]
        &&& n.live(id)
        &&& n.sock(id).state is Unbound
        &&& (n.sock(id).name matches Some(nm) && nm@ == p)
    }
}

pub open spec fn listen_post(o: UnixNet, n: UnixNet, id: int, backlog: int, r: Result<()>) -> bool {
    let s = o.sock(id);
    if s.name is None || !(s.state is Unbound) || backlog == 0 {
        r == Err::<(), Error>(Error::InvalidArgument) && n == o
    } else {
        &&& r == Ok::<(), Error>(())
        &&& only_sock_changed(o, n, id)
        &&& n.sock(id).name == s.name
        &&& (n.sock(id).state matches SocketState::Listening(l) && l.pending@.len() == 0 && l.cap
            == (if backlog < BACKLOG_MAX { backlog } else { BACKLOG_MAX as int }))
    }
}

pub open spec fn accept_post(o: UnixNet, n: UnixNet, id: int, nonblock: bool, r: Result<AcceptStep>) -> bool {
    let s = o.sock(id);
    match s.state {
        SocketState::Listening(l) => {
            if l.pending@.len() == 0 {
                &&& n == o
                &&& r == (if nonblock {
                    Err::<AcceptStep, Error>(Error::WouldBlock)
                } else {
                    Ok::<AcceptStep, Error>(AcceptStep::Block)
                })
            } else {
                &&& r == Ok::<AcceptStep, Error>(AcceptStep::Accepted(l.pending@[0]))
                &&& only_sock_changed(o, n, id)
                &&& n.sock(id).name == s.name
                &&& (n.sock(id).state matches SocketState::Listening(l2) && l2.cap == l.cap
                    && l2.pending@ == l.pending@.drop_first())
            }
        },
        _ => r == Err::<AcceptStep, Error>(Error::InvalidArgument) && n == o,
    }
}

pub open spec fn read_post(o: UnixNet, n: UnixNet, id: int, want: int, nonblock: bool, r: Result<ReadStep>) -> bool {
    match o.sock(id).state {
        SocketState::Listening(_) => r == Err::<ReadStep, Error>(Error::InvalidArgument) && n == o,
        SocketState::Unbound => r == Err::<ReadStep, Error>(Error::NotConnected) && n == o,
        SocketState::Connected(st) => {
            let c = o.chans@[st.rx as int];
            if want == 0 || (c.data@.len() == 0 && c.senders_gone) {
                n == o && (r matches Ok(ReadStep::Data(v)) && v@.len() == 0)
            } else if c.data@.len() == 0 {
                &&& n == o
                &&& if nonblock {
                    r == Err::<ReadStep, Error>(Error::WouldBlock)
                } else {
                    r matches Ok(ReadStep::Block)
                }
            } else {
                let k = if want < c.data@.len() { want } else { c.data@.len() as int };
                &&& (r matches Ok(ReadStep::Data(v)) && v@ == c.data@.take(k))
                &&& only_chan_data_changed(o, n, st.rx as int, c.data@.skip(k))
            }
        },
    }
}

pub open spec fn write_post(o: UnixNet, n: UnixNet, id: int, src: Seq<u8>, nonblock: bool, r: Result<WriteStep>) -> bool {
    match o.sock(id).state {
        SocketState::Listening(_) => r == Err::<WriteStep, Error>(Error::InvalidArgument) && n == o,
        SocketState::Unbound => r == Err::<WriteStep, Error>(Error::NotConnected) && n == o,
        SocketState::Connected(st) => {
            let c = o.chans@[st.tx as int];
            let room = c.cap - c.data@.len();
            let k = if src.len() < room { src.len() as int } else { room };
            if src.len() == 0 || c.receiver_gone {
                n == o && r == Ok::<WriteStep, Error>(WriteStep { sent: 0, blocked: false })
            } else if k == 0 && nonblock {
                n == o && r == Err::<WriteStep, Error>(Error::WouldBlock)
            } else {
                &&& r == Ok::<WriteStep, Error>(WriteStep { sent: k as usize, blocked: !nonblock && k < src.len() })
                &&& only_chan_data_changed(o, n, st.tx as int, c.data@ + src.take(k))
            }
        },
    }
}

/// The events a socket reports to `poll`, as `poll::IN`, `poll::OUT` and
/// `poll::HUP` bits, for the directions its file is open in.
pub open spec fn spec_sock_poll(net: UnixNet, id: int, events: usize, readable: bool, writable: bool) -> usize {
    match net.sock(id).state {
        SocketState::Connected(st) => {
            let rx = net.chans@[st.rx as int];
            let tx = net.chans@[st.tx as int];
            let inb = readable && events & poll::IN != 0 && (rx.data@.len() > 0 || rx.senders_gone);
            let outb = writable && events & poll::OUT != 0 && !tx.receiver_gone && tx.data@.len() < tx.cap;
            let hup = (readable && rx.senders_gone) || (writable && tx.receiver_gone);
            ((if inb { poll::IN } else { 0 }) + (if outb { poll::OUT } else { 0 }) + (if hup { poll::HUP } else { 0 })) as usize
        },
        SocketState::Listening(l) => {
            if readable && events & poll::IN != 0 && l.pending@.len() > 0 { poll::IN } else { 0 }
        },
        SocketState::Unbound => 0,
    }
}

/// A channel as `connect` makes it: empty, of capacity `STREAM_BUF`, both
/// ends held.
pub open spec fn fresh_chan(c: Chan) -> bool {
    &&& c.data@.len() == 0
    &&& c.cap == STREAM_BUF
    &&& !c.senders_gone
    &&& !c.receiver_gone
}

pub open spec fn connect_post(o: UnixNet, n: UnixNet, id: int, p: Seq<u8>, nonblock: bool, r: Result<ConnectStep>) -> bool {
    let s = o.sock(id);
    if p.len() == 0 || !(s.state is Unbound) {
        r == Err::<ConnectStep, Error>(Error::InvalidArgument) && n == o
    } else {
        match find(o.registry@, p) {
            None => r == Err::<ConnectStep, Error>(Error::NotFound) && n == o,
            Some(e) => {
                let lid = o.registry@[e].sock as int;
                match o.sock(lid).state {
                    SocketState::Listening(l) => {
                        if l.pending@.len() >= l.cap {
                            &&& n == o
                            &&& r == (if nonblock {
                                Err::<ConnectStep, Error>(Error::WouldBlock)
                            } else {
                                Ok::<ConnectStep, Error>(ConnectStep::Block)
                            })
                        } else {
                            let c0 = o.chans@.len();
                            &&& r == Ok::<ConnectStep, Error>(ConnectStep::Connected)
                            &&& n.registry@ == o.registry@
                            &&& n.chans@.len() == c0 + 2
                            &&& n.chans@.take(c0 as int) == o.chans@
                            &&& fresh_chan(n.chans@[c0 as int])
                            &&& fresh_chan(n.chans@[c0 as int + 1])
                            &&& n.socks@.len() == o.socks@.len()
                            &&& forall|j: int| 0 <= j < o.socks@.len() && j != id && j != lid ==> n.socks@[j] == o.socks@[j]
                            &&& n.live(id) && n.live(lid)
                            &&& n.sock(id).name == s.name
                            &&& n.sock(id).state == SocketState::Connected(UnixStream { rx: c0 as usize, tx: (c0 + 1) as usize })
                            &&& n.sock(lid).name == o.sock(lid).name
                            &&& (n.sock(lid).state matches SocketState::Listening(l2) && l2.cap == l.cap
                                && l2.pending@ == l.pending@.push(UnixStream { rx: (c0 + 1) as usize, tx: c0 as usize }))
                        }
                    },
                    _ => r == Err::<ConnectStep, Error>(Error::NotConnected) && n == o,
                }
            },
        }
    }
}

pub proof fn lemma_state_ok_grow(st: SocketState, a: int, b: int)
    requires
        state_ok(st, a),
        a <= b,
    ensures
        state_ok(st, b),
{
    match st {
        SocketState::Listening(l) => {
            assert forall|i: int| 0 <= i < l.pending@.len() implies stream_ok(#[trigger] l.pending@[i], b) by {
                assert(stream_ok(l.pending@[i], a));
            }
        },
        _ => {},
    }
}

/// Whether some end in `ends` reads from channel `c`.
pub open spec fn some_end_reads(ends: Seq<UnixStream>, c: int) -> bool {
    exists|k: int| 0 <= k < ends.len() && #[trigger] ends[k].rx == c
}

/// Whether some end in `ends` writes to channel `c`.
pub open spec fn some_end_writes(ends: Seq<UnixStream>, c: int) -> bool {
    exists|k: int| 0 <= k < ends.len() && #[trigger] ends[k].tx == c
}

/// Channel `n` is `o` after losing its receiver when `r` and its sender
/// when `w`, bytes and capacity kept.
pub open spec fn chan_dropped(o: Chan, n: Chan, r: bool, w: bool) -> bool {
    &&& n.data@ == o.data@
    &&& n.cap == o.cap
    &&& n.receiver_gone == (o.receiver_gone || r)
    &&& n.senders_gone == (o.senders_gone || w)
}

/// The channels after the stream ends in `ends` were dropped: each
/// channel an end read from has lost its receiver, each it wrote to its
/// sender; the bytes and capacities stay.
pub open spec fn ends_dropped(o: Seq<Chan>, n: Seq<Chan>, ends: Seq<UnixStream>) -> bool {
    &&& n.len() == o.len()
    &&& forall|c: int|
        0 <= c < o.len() ==> chan_dropped(o[c], #[trigger] n[c], some_end_reads(ends, c), some_end_writes(ends, c))
}

proof fn lemma_ends_step(ends: Seq<UnixStream>, i: int, c: int)
    requires
        0 <= i < ends.len(),
    ensures
        some_end_reads(ends.take(i + 1), c) == (some_end_reads(ends.take(i), c) || ends[i].rx == c),
        some_end_writes(ends.take(i + 1), c) == (some_end_writes(ends.take(i), c) || ends[i].tx == c),
{
    let t = ends.take(i);
    let t2 = ends.take(i + 1);
    if some_end_reads(t, c) {
        let k = choose|k: int| 0 <= k < t.len() && #[trigger] t[k].rx == c;
        assert(t2[k].rx == c);
    }
    if some_end_reads(t2, c) {
        let k = choose|k: int| 0 <= k < t2.len() && #[trigger] t2[k].rx == c;
        if k < i {
            assert(t[k].rx == c);
        }
    }
    if ends[i].rx == c {
        assert(t2[i].rx == c);
    }
    if some_end_writes(t, c) {
        let k = choose|k: int| 0 <= k < t.len() && #[trigger] t[k].tx == c;
        assert(t2[k].tx == c);
    }
    if some_end_writes(t2, c) {
        let k = choose|k: int| 0 <= k < t2.len() && #[trigger] t2[k].tx == c;
        if k < i {
            assert(t[k].tx == c);
        }
    }
    if ends[i].tx == c {
        assert(t2[i].tx == c);
    }
}

/// The stream ends a socket holds: its own when connected, the queued
/// server ends when listening.
pub open spec fn held_ends(st: SocketState) -> Seq<UnixStream> {
    match st {
        SocketState::Connected(s) => seq![s],
        SocketState::Listening(l) => l.pending@,
        SocketState::Unbound => Seq::empty(),
    }
}

pub open spec fn close_post(o: UnixNet, n: UnixNet, id: int) -> bool {
    let s = o.sock(id);
    &&& n.socks@ == o.socks@.update(id, None)
    &&& ends_dropped(o.chans@, n.chans@, held_ends(s.state))
    &&& match s.name {
        Some(nm) => match find(o.registry@, nm@) {
            Some(e) => n.registry@ == o.registry@.remove(e),
            None => n.registry@ == o.registry@,
        },
        None => n.registry@ == o.registry@,
    }
}

impl Chan {
    fn drop_receiver(&mut self)
        ensures
            final(self).data@ == old(self).data@,
            final(self).cap == old(self).cap,
            final(self).senders_gone == old(self).senders_gone,
            final(self).receiver_gone,
    {
        self.receiver_gone = true;
    }

    fn drop_sender(&mut self)
        ensures
            final(self).data@ == old(self).data@,
            final(self).cap == old(self).cap,
            final(self).receiver_gone == old(self).receiver_gone,
            final(self).senders_gone,
    {
        self.senders_gone = true;
    }
}

/// Drops the stream ends in `ends`.
fn drop_ends(chans: &mut Vec<Chan>, ends: &Vec<UnixStream>)
    requires
        forall|k: int| 0 <= k < ends@.len() ==> stream_ok(#[trigger] ends@[k], old(chans)@.len() as int),
    ensures
        ends_dropped(old(chans)@, final(chans)@, ends@),
{
    let ghost o = chans@;
    let mut i: usize = 0;
    while i < ends.len()
        invariant
            i <= ends@.len(),
            forall|k: int| 0 <= k < ends@.len() ==> stream_ok(#[trigger] ends@[k], o.len() as int),
            chans@.len() == o.len(),
            ends_dropped(o, chans@, ends@.take(i as int)),
        decreases ends@.len() - i,
    {
        let st = ends[i];
        assert(stream_ok(ends@[i as int], o.len() as int));
        let ghost before = chans@;
        chans[st.rx].drop_receiver();
        chans[st.tx].drop_sender();
        proof {
            assert forall|c: int| 0 <= c < o.len() implies chan_dropped(o[c], #[trigger] chans@[c],
                some_end_reads(ends@.take(i + 1), c), some_end_writes(ends@.take(i + 1), c)) by {
                lemma_ends_step(ends@, i as int, c);
                assert(chan_dropped(o[c], before[c], some_end_reads(ends@.take(i as int), c),
                    some_end_writes(ends@.take(i as int), c)));
            }
        }
        i = i + 1;
        proof {
            assert(ends_dropped(o, chans@, ends@.take(i as int)));
        }
    }
    assert(ends@.take(ends@.len() as int) =~= ends@);
}

impl UnixSocket {
    /// A new unbound socket; returns its slot.
    pub fn new(net: &mut UnixNet) -> (id: usize)
        requires
            old(net).wf(),
        ensures
            final(net).wf(),
            id == old(net).socks@.len(),
            final(net).socks@.len() == old(net).socks@.len() + 1,
            forall|j: int| 0 <= j < old(net).socks@.len() ==> final(net).socks@[j] == old(net).socks@[j],
            final(net).live(id as int),
            final(net).sock(id as int).name is None,
            final(net).sock(id as int).state is Unbound,
            final(net).chans@ == old(net).chans@,
            final(net).registry@ == old(net).registry@,
    {
        let id = net.socks.len();
        net.socks.push(Some(UnixSocket { name: None, state: SocketState::Unbound }));
        proof {
            assert forall|e: int| 0 <= e < net.registry@.len() implies net.reg_ok(#[trigger] net.registry@[e]) by {
                assert(old(net).reg_ok(old(net).registry@[e]));
            }
        }
        id
    }

    /// A new socket connected through `stream`, the server end that
    /// `accept` handed out; returns its slot.
    pub fn from_stream(net: &mut UnixNet, stream: UnixStream) -> (id: usize)
        requires
            old(net).wf(),
            stream_ok(stream, old(net).chans@.len() as int),
        ensures
            final(net).wf(),
            id == old(net).socks@.len(),
            final(net).socks@.len() == old(net).socks@.len() + 1,
            forall|j: int| 0 <= j < old(net).socks@.len() ==> final(net).socks@[j] == old(net).socks@[j],
            final(net).live(id as int),
            final(net).sock(id as int).name is None,
            final(net).sock(id as int).state == SocketState::Connected(stream),
            final(net).chans@ == old(net).chans@,
            final(net).registry@ == old(net).registry@,
    {
        let id = net.socks.len();
        net.socks.push(Some(UnixSocket { name: None, state: SocketState::Connected(stream) }));
        proof {
            assert forall|e: int| 0 <= e < net.registry@.len() implies net.reg_ok(#[trigger] net.registry@[e]) by {
                assert(old(net).reg_ok(old(net).registry@[e]));
            }
        }
        id
    }

    /// Binds socket `id` to `path`. The path must be non-empty, free, and
    /// the socket unnamed and unbound.
    pub fn bind(net: &mut UnixNet, id: usize, path: &[u8]) -> (r: Result<()>)
        requires
            old(net).wf(),
            old(net).live(id as int),
        ensures
            final(net).wf(),
            bind_post(*old(net), *final(net), id as int, path@, r),
    {
        if path.len() == 0 {
            return Err(Error::InvalidArgument);
        }
        let ok = match &net.socks[id] {
            Some(s) => s.name.is_none() && match s.state {
                SocketState::Unbound => true,
                _ => false,
            },
            None => false,
        };
        if !ok {
            return Err(Error::InvalidArgument);
        }
        if net.find_entry(path).is_some() {
            return Err(Error::AlreadyExists);
        }
        proof {
            lemma_find_from(net.registry@, path@, 0);
        }
        let ghost o = *net;
        let v = vstd::slice::slice_to_vec(path);
        let v2 = vstd::slice::slice_to_vec(path);
        net.registry.push(RegEntry { path: v, sock: id });
        net.socks.set(id, Some(UnixSocket { name: Some(v2), state: SocketState::Unbound }));
        proof {
            assert(net.registry@.take(o.registry@.len() as int) =~= o.registry@);
            assert forall|e: int| 0 <= e < net.registry@.len() implies net.reg_ok(#[trigger] net.registry@[e]) by {
                if e < o.registry@.len() {
                    assert(o.reg_ok(o.registry@[e]));
                    assert(o.registry@[e].sock != id);
                }
            }
            assert forall|a: int, b: int| 0 <= a < b < net.registry@.len() implies #[trigger] net.registry@[a].path@
                != #[trigger] net.registry@[b].path@ by {
                if b == o.registry@.len() {
                    assert(o.registry@[a].path@ != path@);
                } else {
                    assert(o.registry@[a].path@ != o.registry@[b].path@);
                }
            }
            assert forall|i: int| 0 <= i < net.socks@.len() && net.socks@[i] is Some implies state_ok(
                #[trigger] net.socks@[i].unwrap().state, net.chans@.len() as int) by {
                if i != id {
                    assert(o.socks@[i] is Some);
                }
            }
        }
        Ok(())
    }

    /// Turns bound socket `id` into a listener queueing at most `backlog`
    /// connections (at most `BACKLOG_MAX`).
    pub fn listen(net: &mut UnixNet, id: usize, backlog: usize) -> (r: Result<()>)
        requires
            old(net).wf(),
            old(net).live(id as int),
        ensures
            final(net).wf(),
            listen_post(*old(net), *final(net), id as int, backlog as int, r),
    {
        let ok = match &net.socks[id] {
            Some(s) => s.name.is_some() && match s.state {
                SocketState::Unbound => true,
                _ => false,
            },
            None => false,
        };
        if !ok || backlog == 0 {
            return Err(Error::InvalidArgument);
        }
        let ghost o = *net;
        let cap = if backlog < BACKLOG_MAX { backlog } else { BACKLOG_MAX };
        let old_sock = net.socks[id].take();
        let name = match old_sock {
            Some(s) => s.name,
            None => None,
        };
        let l = UnixListener { pending: Vec::new(), cap };
        net.socks.set(id, Some(UnixSocket { name, state: SocketState::Listening(l) }));
        proof {
            assert forall|e: int| 0 <= e < net.registry@.len() implies net.reg_ok(#[trigger] net.registry@[e]) by {
                assert(o.reg_ok(o.registry@[e]));
            }
            assert forall|i: int| 0 <= i < net.socks@.len() && net.socks@[i] is Some implies state_ok(
                #[trigger] net.socks@[i].unwrap().state, net.chans@.len() as int) by {
                if i != id {
                    assert(o.socks@[i] is Some);
                }
            }
        }
        Ok(())
    }

    /// Takes the oldest queued connection of listening socket `id`.
    pub fn accept(net: &mut UnixNet, id: usize, nonblock: bool) -> (r: Result<AcceptStep>)
        requires
            old(net).wf(),
            old(net).live(id as int),
        ensures
            final(net).wf(),
            accept_post(*old(net), *final(net), id as int, nonblock, r),
            r matches Ok(AcceptStep::Accepted(st)) ==> stream_ok(st, final(net).chans@.len() as int),
    {
        let n_pending = match &net.socks[id] {
            Some(s) => match &s.state {
                SocketState::Listening(l) => Some(l.pending.len()),
                _ => None,
            },
            None => None,
        };
        match n_pending {
            None => Err(Error::InvalidArgument),
            Some(0) => {
                if nonblock {
                    Err(Error::WouldBlock)
                } else {
                    Ok(AcceptStep::Block)
                }
            },
            Some(_) => {
                let ghost o = *net;
                let old_sock = net.socks[id].take().unwrap();
                let UnixSocket { name, state } = old_sock;
                match state {
                    SocketState::Listening(l) => {
                        let UnixListener { mut pending, cap } = l;
                        let first = pending.remove(0);
                        proof {
                            assert(state_ok(o.socks@[id as int].unwrap().state, o.chans@.len() as int));
                            assert(stream_ok(first, o.chans@.len() as int));
                        }
                        let l2 = UnixListener { pending, cap };
                        net.socks.set(id, Some(UnixSocket { name, state: SocketState::Listening(l2) }));
                        proof {
                            assert forall|e: int| 0 <= e < net.registry@.len() implies net.reg_ok(
                                #[trigger] net.registry@[e]) by {
                                assert(o.reg_ok(o.registry@[e]));
                            }
                            assert forall|i: int| 0 <= i < net.socks@.len() && net.socks@[i] is Some implies state_ok(
                                #[trigger] net.socks@[i].unwrap().state, net.chans@.len() as int) by {
                                if i != id {
                                    assert(o.socks@[i] is Some);
                                } else {
                                    assert forall|j: int| 0 <= j < l2.pending@.len() implies stream_ok(
                                        #[trigger] l2.pending@[j], net.chans@.len() as int) by {
                                        assert(stream_ok(l.pending@[j + 1], o.chans@.len() as int));
                                    }
                                }
                            }
                            assert(l2.pending@ =~= l.pending@.drop_first());
                        }
                        Ok(AcceptStep::Accepted(first))
                    },
                    _ => {
                        proof {
                            assert(false);
                        }
                        Err(Error::InvalidArgument)
                    },
                }
            },
        }
    }

    /// Connects unbound socket `id` to the listener bound to `path`: makes
    /// a pair of channels, queues the server end on the listener and keeps
    /// the client end.
    pub fn connect(net: &mut UnixNet, id: usize, path: &[u8], nonblock: bool) -> (r: Result<ConnectStep>)
        requires
            old(net).wf(),
            old(net).live(id as int),
            old(net).chans@.len() + 2 < usize::MAX,
        ensures
            final(net).wf(),
            connect_post(*old(net), *final(net), id as int, path@, nonblock, r),
    {
        if path.len() == 0 {
            return Err(Error::InvalidArgument);
        }
        let unbound = match &net.socks[id] {
            Some(s) => match s.state {
                SocketState::Unbound => true,
                _ => false,
            },
            None => false,
        };
        if !unbound {
            return Err(Error::InvalidArgument);
        }
        let e = match net.find_entry(path) {
            None => {
                return Err(Error::NotFound);
            },
            Some(e) => e,
        };
        proof {
            lemma_find_from(net.registry@, path@, 0);
            assert(net.reg_ok(net.registry@[e as int]));
        }
        let lid = net.registry[e].sock;
        // 0: not listening, 1: queue full, 2: room for one more
        let look: u8 = match &net.socks[lid] {
            Some(s) => match &s.state {
                SocketState::Listening(l) => if l.pending.len() >= l.cap {
                    1
                } else {
                    2
                },
                _ => 0,
            },
            None => 0,
        };
        if look == 0 {
            return Err(Error::NotConnected);
        }
        if look == 1 {
            return if nonblock {
                Err(Error::WouldBlock)
            } else {
                Ok(ConnectStep::Block)
            };
        }
        let ghost o = *net;
        assert(lid != id);
        let c0 = net.chans.len();
        let a = Chan { data: Vec::new(), cap: STREAM_BUF, senders_gone: false, receiver_gone: false };
        let b = Chan { data: Vec::new(), cap: STREAM_BUF, senders_gone: false, receiver_gone: false };
        assert(fresh_chan(a) && fresh_chan(b));
        net.chans.push(a);
        net.chans.push(b);
        let client = UnixStream { rx: c0, tx: c0 + 1 };
        let server = UnixStream { rx: c0 + 1, tx: c0 };
        let ls = net.socks[lid].take().unwrap();
        let UnixSocket { name: lname, state: lstate } = ls;
        match lstate {
            SocketState::Listening(l) => {
                let UnixListener { mut pending, cap } = l;
                pending.push(server);
                net.socks.set(lid, Some(UnixSocket { name: lname, state: SocketState::Listening(UnixListener { pending, cap }) }));
            },
            _ => {
                proof {
                    assert(false);
                }
            },
        }
        let cs = net.socks[id].take().unwrap();
        net.socks.set(id, Some(UnixSocket { name: cs.name, state: SocketState::Connected(client) }));
        proof {
            assert(net.chans@.take(c0 as int) =~= o.chans@);
            assert forall|e2: int| 0 <= e2 < net.registry@.len() implies net.reg_ok(#[trigger] net.registry@[e2]) by {
                assert(o.reg_ok(o.registry@[e2]));
            }
            assert forall|c: int| 0 <= c < net.chans@.len() implies #[trigger] net.chans@[c].data@.len()
                <= net.chans@[c].cap && net.chans@[c].cap == STREAM_BUF by {
                if c < c0 {
                    assert(net.chans@[c] == o.chans@[c]);
                    assert(o.chans@[c].data@.len() <= o.chans@[c].cap);
                } else {
                    assert(fresh_chan(net.chans@[c]));
                }
            }
            assert forall|i: int| 0 <= i < net.socks@.len() && net.socks@[i] is Some implies state_ok(
                #[trigger] net.socks@[i].unwrap().state, net.chans@.len() as int) by {
                if i != id && i != lid {
                    assert(o.socks@[i] is Some);
                    lemma_state_ok_grow(o.socks@[i].unwrap().state, o.chans@.len() as int, net.chans@.len() as int);
                } else if i == lid {
                    let ol = o.socks@[lid as int].unwrap().state;
                    assert(state_ok(ol, o.chans@.len() as int));
                    match ol {
                        SocketState::Listening(l) => {
                            match net.socks@[i].unwrap().state {
                                SocketState::Listening(l2) => {
                                    assert forall|j: int| 0 <= j < l2.pending@.len() implies stream_ok(
                                        #[trigger] l2.pending@[j], net.chans@.len() as int) by {
                                        if j < l.pending@.len() {
                                            assert(stream_ok(l.pending@[j], o.chans@.len() as int));
                                        }
                                    }
                                },
                                _ => {},
                            }
                        },
                        _ => {},
                    }
                }
            }
        }
        Ok(ConnectStep::Connected)
    }

    /// The stream end of socket `id`, or the error a read or write on it
    /// gives.
    fn stream_of(net: &UnixNet, id: usize) -> (r: Result<UnixStream>)
        requires
            net.wf(),
            net.live(id as int),
        ensures
            match net.sock(id as int).state {
                SocketState::Listening(_) => r == Err::<UnixStream, Error>(Error::InvalidArgument),
                SocketState::Unbound => r == Err::<UnixStream, Error>(Error::NotConnected),
                SocketState::Connected(st) => r == Ok::<UnixStream, Error>(st) && stream_ok(st, net.chans@.len() as int),
            },
    {
        proof {
            assert(state_ok(net.socks@[id as int].unwrap().state, net.chans@.len() as int));
        }
        match &net.socks[id] {
            Some(s) => match &s.state {
                SocketState::Connected(st) => Ok(*st),
                SocketState::Listening(_) => Err(Error::InvalidArgument),
                SocketState::Unbound => Err(Error::NotConnected),
            },
            None => Err(Error::NotConnected),
        }
    }

    /// Reads up to `want` bytes from socket `id`: whatever is buffered, up
    /// to `want`; nothing at end of stream; `WouldBlock` or a `Block` step
    /// when the buffer is empty and the peer still holds its end.
    pub fn read(net: &mut UnixNet, id: usize, want: usize, nonblock: bool) -> (r: Result<ReadStep>)
        requires
            old(net).wf(),
            old(net).live(id as int),
        ensures
            final(net).wf(),
            read_post(*old(net), *final(net), id as int, want as int, nonblock, r),
    {
        let st = match Self::stream_of(net, id) {
            Ok(st) => st,
            Err(e) => {
                return Err(e);
            },
        };
        let rx = st.rx;
        if want == 0 {
            return Ok(ReadStep::Data(Vec::new()));
        }
        let len = net.chans[rx].data.len();
        if len == 0 {
            if net.chans[rx].senders_gone {
                return Ok(ReadStep::Data(Vec::new()));
            }
            return if nonblock {
                Err(Error::WouldBlock)
            } else {
                Ok(ReadStep::Block)
            };
        }
        let ghost o = *net;
        let k = if want < len {
            want
        } else {
            len
        };
        let out = copy_range(&net.chans[rx].data, 0, k);
        let rest = copy_range(&net.chans[rx].data, k, len);
        let cap = net.chans[rx].cap;
        let sg = net.chans[rx].senders_gone;
        let rg = net.chans[rx].receiver_gone;
        net.chans.set(rx, Chan { data: rest, cap, senders_gone: sg, receiver_gone: rg });
        proof {
            assert(out@ =~= o.chans@[rx as int].data@.take(k as int));
            assert(rest@ =~= o.chans@[rx as int].data@.skip(k as int));
            assert forall|e: int| 0 <= e < net.registry@.len() implies net.reg_ok(#[trigger] net.registry@[e]) by {
                assert(o.reg_ok(o.registry@[e]));
            }
        }
        Ok(ReadStep::Data(out))
    }

    /// Writes the bytes of `src` to socket `id`, as many as the peer's
    /// buffer takes: none once the peer has dropped its end; `WouldBlock`
    /// when none fit and `nonblock`; otherwise a step that says whether the
    /// caller must sleep before writing the rest.
    pub fn write(net: &mut UnixNet, id: usize, src: &[u8], nonblock: bool) -> (r: Result<WriteStep>)
        requires
            old(net).wf(),
            old(net).live(id as int),
        ensures
            final(net).wf(),
            write_post(*old(net), *final(net), id as int, src@, nonblock, r),
    {
        let st = match Self::stream_of(net, id) {
            Ok(st) => st,
            Err(e) => {
                return Err(e);
            },
        };
        let tx = st.tx;
        if src.len() == 0 || net.chans[tx].receiver_gone {
            return Ok(WriteStep { sent: 0, blocked: false });
        }
        let len = net.chans[tx].data.len();
        let cap = net.chans[tx].cap;
        let room = cap - len;
        let k = if src.len() < room {
            src.len()
        } else {
            room
        };
        if k == 0 && nonblock {
            return Err(Error::WouldBlock);
        }
        let ghost o = *net;
        let mut data = copy_range(&net.chans[tx].data, 0, len);
        let mut i: usize = 0;
        while i < k
            invariant
                i <= k <= src@.len(),
                data@ == o.chans@[tx as int].data@ + src@.take(i as int),
            decreases k - i,
        {
            data.push(src[i]);
            assert(data@ =~= o.chans@[tx as int].data@ + src@.take(i + 1));
            i = i + 1;
        }
        let sg = net.chans[tx].senders_gone;
        let rg = net.chans[tx].receiver_gone;
        net.chans.set(tx, Chan { data, cap, senders_gone: sg, receiver_gone: rg });
        proof {
            assert(o.chans@[tx as int].data@ =~= o.chans@[tx as int].data@.subrange(0, len as int));
            assert forall|e: int| 0 <= e < net.registry@.len() implies net.reg_ok(#[trigger] net.registry@[e]) by {
                assert(o.reg_ok(o.registry@[e]));
            }
        }
        Ok(WriteStep { sent: k, blocked: !nonblock && k < src.len() })
    }

    /// The `poll` events of socket `id`, for a file open for reading
    /// (`readable`) and/or writing (`writable`).
    pub fn poll(net: &UnixNet, id: usize, events: usize, readable: bool, writable: bool) -> (revents: usize)
        requires
            net.wf(),
            net.live(id as int),
        ensures
            revents == spec_sock_poll(*net, id as int, events, readable, writable),
    {
        proof {
            assert(state_ok(net.socks@[id as int].unwrap().state, net.chans@.len() as int));
        }
        match &net.socks[id] {
            Some(s) => match &s.state {
                SocketState::Connected(st) => {
                    let rx = &net.chans[st.rx];
                    let tx = &net.chans[st.tx];
                    let mut revents: usize = 0;
                    if readable && events & poll::IN != 0 && (rx.data.len() > 0 || rx.senders_gone) {
                        revents = revents + poll::IN;
                    }
                    if writable && events & poll::OUT != 0 && !tx.receiver_gone && tx.data.len() < tx.cap {
                        revents = revents + poll::OUT;
                    }
                    if (readable && rx.senders_gone) || (writable && tx.receiver_gone) {
                        revents = revents + poll::HUP;
                    }
                    revents
                },
                SocketState::Listening(l) => {
                    if readable && events & poll::IN != 0 && l.pending.len() > 0 {
                        poll::IN
                    } else {
                        0
                    }
                },
                SocketState::Unbound => 0,
            },
            None => 0,
        }
    }

    /// Drops socket `id`: frees its slot, unregisters its path and drops the
    /// stream ends it holds, so that its peers see the end of the stream.
    pub fn close(net: &mut UnixNet, id: usize)
        requires
            old(net).wf(),
            old(net).live(id as int),
        ensures
            final(net).wf(),
            close_post(*old(net), *final(net), id as int),
    {
        let ghost o = *net;
        proof {
            assert(state_ok(o.socks@[id as int].unwrap().state, o.chans@.len() as int));
        }
        let s = net.socks[id].take().unwrap();
        let UnixSocket { name, state } = s;
        match state {
            SocketState::Connected(st) => {
                let ends = vec![st];
                assert(ends@ =~= seq![st]);
                drop_ends(&mut net.chans, &ends);
            },
            SocketState::Listening(l) => {
                drop_ends(&mut net.chans, &l.pending);
            },
            SocketState::Unbound => {
                assert(ends_dropped(o.chans@, net.chans@, Seq::empty()));
            },
        }
        match name {
            Some(nm) => {
                match net.find_entry(nm.as_slice()) {
                    Some(e) => {
                        proof {
                            lemma_find_from(o.registry@, nm@, 0);
                        }
                        net.registry.remove(e);
                        proof {
                            assert forall|j: int| 0 <= j < net.registry@.len() implies net.reg_ok(
                                #[trigger] net.registry@[j]) by {
                                let oj = if j < e { j } else { j + 1 };
                                assert(net.registry@[j] == o.registry@[oj]);
                                assert(o.reg_ok(o.registry@[oj]));
                                assert(o.registry@[oj].path@ != o.registry@[e as int].path@);
                            }
                            assert forall|a: int, b: int| 0 <= a < b < net.registry@.len() implies #[trigger] net.registry@[a].path@
                                != #[trigger] net.registry@[b].path@ by {
                                let oa = if a < e { a } else { a + 1 };
                                let ob = if b < e { b } else { b + 1 };
                                assert(o.registry@[oa].path@ != o.registry@[ob].path@);
                            }
                        }
                    },
                    None => {
                        proof {
                            lemma_find_from(o.registry@, nm@, 0);
                            assert forall|j: int| 0 <= j < net.registry@.len() implies net.reg_ok(
                                #[trigger] net.registry@[j]) by {
                                assert(o.reg_ok(o.registry@[j]));
                            }
                        }
                    },
                }
            },
            None => {
                proof {
                    assert forall|j: int| 0 <= j < net.registry@.len() implies net.reg_ok(
                        #[trigger] net.registry@[j]) by {
                        assert(o.reg_ok(o.registry@[j]));
                    }
                }
            },
        }
        proof {
            assert(net.socks@ =~= o.socks@.update(id as int, None));
            assert forall|i: int| 0 <= i < net.socks@.len() && net.socks@[i] is Some implies state_ok(
                #[trigger] net.socks@[i].unwrap().state, net.chans@.len() as int) by {
                assert(o.socks@[i] is Some);
            }
            assert forall|c: int| 0 <= c < net.chans@.len() implies #[trigger] net.chans@[c].data@.len()
                <= net.chans@[c].cap && net.chans@[c].cap == STREAM_BUF by {
                assert(o.chans@[c].data@.len() <= o.chans@[c].cap);
            }
        }
    }
}

/// What a client writes to a fresh connection, its peer reads: the
/// bytes that fit in one stream buffer arrive whole and in order.
pub proof fn law_stream_delivers(
    o: UnixNet,
    m: UnixNet,
    p: UnixNet,
    a: int,
    b: int,
    src: Seq<u8>,
    want: int,
    r1: Result<WriteStep>,
    r2: Result<ReadStep>,
)
    requires
        o.wf(),
        o.live(a),
        o.live(b),
        (o.sock(a).state matches SocketState::Connected(sa) && (o.sock(b).state matches SocketState::Connected(
            sb) && sb.rx == sa.tx && o.chans@[sa.tx as int].data@.len() == 0
            && !o.chans@[sa.tx as int].receiver_gone)),
        0 < src.len(),
        src.len() <= want,
        write_post(o, m, a, src, false, r1),
        read_post(m, p, b, want, false, r2),
    ensures
        (r1 matches Ok(w) && w.sent == (if src.len() < STREAM_BUF { src.len() as int } else { STREAM_BUF as int })
            && (r2 matches Ok(ReadStep::Data(v)) && v@ == src.take(w.sent as int))),
{
    let sa = o.sock(a).state->Connected_0;
    let c = sa.tx as int;
    assert(o.chans@[c].data@.len() <= o.chans@[c].cap && o.chans@[c].cap == STREAM_BUF);
    assert(m.socks@ == o.socks@);
    let k = if src.len() < STREAM_BUF { src.len() as int } else { STREAM_BUF as int };
    assert(m.chans@[c].data@ =~= src.take(k));
    assert(src.take(k).take(k) =~= src.take(k));
}

/// What `connect` queues, `accept` hands out: on a listener with an empty
/// queue, the connection accepted next is the server end of the pair the
/// client was given, reading what the client writes and writing what it
/// reads.
pub proof fn law_accept_gets_connected_peer(
    o: UnixNet,
    m: UnixNet,
    q: UnixNet,
    c: int,
    path: Seq<u8>,
    nb1: bool,
    nb2: bool,
    r1: Result<ConnectStep>,
    r2: Result<AcceptStep>,
)
    requires
        o.wf(),
        o.live(c),
        (find(o.registry@, path) matches Some(e) && (o.sock(o.registry@[e].sock as int).state matches SocketState::Listening(
            l) && l.pending@.len() == 0)),
        connect_post(o, m, c, path, nb1, r1),
        r1 == Ok::<ConnectStep, Error>(ConnectStep::Connected),
        accept_post(m, q, o.registry@[find(o.registry@, path).unwrap()].sock as int, nb2, r2),
    ensures
        (m.sock(c).state matches SocketState::Connected(client) && r2 == Ok::<AcceptStep, Error>(
            AcceptStep::Accepted(UnixStream { rx: client.tx, tx: client.rx }))),
{
    let e = find(o.registry@, path).unwrap();
    lemma_find_from(o.registry@, path, 0);
    assert(o.reg_ok(o.registry@[e]));
    let lid = o.registry@[e].sock as int;
    let l = o.sock(lid).state->Listening_0;
    assert(l.cap >= 1) by {
        assert(o.socks@[lid] is Some);
        assert(state_ok(o.socks@[lid].unwrap().state, o.chans@.len() as int));
    }
}

} // verus!
