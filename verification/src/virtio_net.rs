//! The network device's driver side: transmit buffers and their free
//! flags, the receive ring's recycling, and the framing of outgoing and
//! incoming packets.
//!
//! The device registers and DMA memory are the caller's: it hands in what
//! the device wrote (used indices, used rings, receive buffers) and
//! performs the notifications and sleeps the driver asks for.

use vstd::prelude::*;
use crate::error::{Error, Result};
use crate::virtio_input::{idx_add, pending_count};

verus! {

/// Descriptors per queue.
pub const NUM: usize = 8;
/// Largest frame.
pub const RX_BUF_SIZE: usize = 2048;
/// Bytes of the device header before each frame.
pub const HDR_SIZE: usize = 10;
pub const RX_BUF_LEN: usize = RX_BUF_SIZE + HDR_SIZE;

/// One entry of a used ring: the buffer id and the bytes the device wrote.
#[derive(Clone, Copy, Debug, PartialEq, Eq, Structural)]
pub struct UsedElem {
    pub id: u32,
    pub len: u32,
}

/// The driver's view of the network device.
pub struct NetDevice {
    pub mac: [u8; 6],
    pub tx_free: Vec<bool>,
    pub tx_bufs: Vec<Vec<u8>>,
    pub tx_avail_idx: u16,
    pub tx_avail_ring: Vec<u16>,
    pub tx_used_idx: u16,
    pub rx_avail_idx: u16,
    pub rx_avail_ring: Vec<u16>,
    pub rx_used_idx: u16,
}

/// What sending a frame did: queued it in transmit buffer `idx`
/// (a blocking sender then sleeps until that buffer is free again), or
/// found no free buffer (the sender sleeps and tries again).
#[derive(Clone, Copy, Debug, PartialEq, Eq, Structural)]
pub enum SendStep {
    Queued(usize),
    Block,
}

/// The lowest free transmit buffer at or after `k`.
pub open spec fn first_free_tx_from(free: Seq<bool>, k: int) -> Option<int>
    decreases free.len() - k,
{
    if k < 0 || k >= free.len() {
        None
    } else if free[k] {
        Some(k)
    } else {
        first_free_tx_from(free, k + 1)
    }
}

proof fn lemma_first_free_tx_from(free: Seq<bool>, k: int)
    requires
        0 <= k,
    ensures
        first_free_tx_from(free, k) matches Some(i) ==> k <= i < free.len() && free[i],
        first_free_tx_from(free, k) is None ==> forall|j: int| k <= j < free.len() ==> !free[j],
    decreases free.len() - k,
{
    if k < free.len() && !free[k] {
        lemma_first_free_tx_from(free, k + 1);
    }
}

/// Whether the device returned transmit buffer `i` among the first `n`
/// used entries after `used_idx`.
pub open spec fn tx_returned(used_idx: u16, n: int, used_ids: Seq<u32>, i: int) -> bool {
    exists|k: int| 0 <= k < n && #[trigger] used_ids[idx_add(used_idx, k) % (NUM as int)] == i
}

/// The frames in the first `n` used receive entries after `used_idx`:
/// each entry whose length (capped at the buffer size) covers the header
/// and whose id names a buffer gives the bytes after the header.
pub open spec fn rx_frames(used_idx: u16, n: int, used: Seq<UsedElem>, bufs: Seq<Seq<u8>>) -> Seq<Seq<u8>>
    decreases n,
{
    if n <= 0 {
        Seq::empty()
    } else {
        let prev = rx_frames(used_idx, n - 1, used, bufs);
        let e = used[idx_add(used_idx, n - 1) % (NUM as int)];
        let len = if e.len < RX_BUF_LEN { e.len as int } else { RX_BUF_LEN as int };
        if len >= HDR_SIZE && e.id < NUM {
            prev.push(bufs[e.id as int].subrange(HDR_SIZE as int, len))
        } else {
            prev
        }
    }
}

/// The receive avail ring after the first `n` used entries were offered
/// again from avail index `avail`.
pub open spec fn rx_ring_after(ring: Seq<u16>, avail: u16, used_idx: u16, used: Seq<UsedElem>, n: int) -> Seq<u16>
    decreases n,
{
    if n <= 0 {
        ring
    } else {
        rx_ring_after(ring, avail, used_idx, used, n - 1).update(
            idx_add(avail, n - 1) % (NUM as int),
            used[idx_add(used_idx, n - 1) % (NUM as int)].id as u16,
        )
    }
}

impl NetDevice {
    pub open spec fn wf(&self) -> bool {
        &&& self.tx_free@.len() == NUM
        &&& self.tx_bufs@.len() == NUM
        &&& self.tx_avail_ring@.len() == NUM
        &&& self.rx_avail_ring@.len() == NUM
    }

    /// A device with every transmit buffer free and every receive buffer
    /// offered, with hardware address `mac`.
    pub fn new(mac: [u8; 6]) -> (d: Self)
        ensures
            d.wf(),
            d.mac == mac,
            forall|i: int| 0 <= i < NUM ==> d.tx_free@[i] && d.rx_avail_ring@[i] == i,
            d.rx_avail_idx == NUM,
            d.tx_avail_idx == 0,
            d.rx_used_idx == 0,
            d.tx_used_idx == 0,
    {
        let mut tx_free: Vec<bool> = Vec::new();
        let mut tx_bufs: Vec<Vec<u8>> = Vec::new();
        let mut tx_avail_ring: Vec<u16> = Vec::new();
        let mut rx_avail_ring: Vec<u16> = Vec::new();
        let mut i: usize = 0;
        while i < NUM
            invariant
                i <= NUM,
                tx_free@.len() == i,
                tx_bufs@.len() == i,
                tx_avail_ring@.len() == i,
                rx_avail_ring@.len() == i,
                forall|j: int| 0 <= j < i ==> tx_free@[j] && rx_avail_ring@[j] == j,
            decreases NUM - i,
        {
            tx_free.push(true);
            tx_bufs.push(Vec::new());
            tx_avail_ring.push(0);
            rx_avail_ring.push(i as u16);
            i = i + 1;
        }
        NetDevice {
            mac,
            tx_free,
            tx_bufs,
            tx_avail_idx: 0,
            tx_avail_ring,
            tx_used_idx: 0,
            rx_avail_idx: NUM as u16,
            rx_avail_ring,
            rx_used_idx: 0,
        }
    }

    /// The device's hardware address.
    pub fn mac_addr(&self) -> (m: [u8; 6])
        ensures
            m == self.mac,
    {
        self.mac
    }

    /// Takes the lowest free transmit buffer.
    pub fn alloc_tx(&mut self) -> (r: Option<usize>)
        requires
            old(self).wf(),
        ensures
            final(self).wf(),
            r == (match first_free_tx_from(old(self).tx_free@, 0) {
                Some(i) => Some(i as usize),
                None => None::<usize>,
            }),
            r matches Some(i) ==> final(self).tx_free@ == old(self).tx_free@.update(i as int, false),
            r is None ==> *final(self) == *old(self),
            final(self).tx_bufs@ == old(self).tx_bufs@,
            final(self).tx_avail_idx == old(self).tx_avail_idx,
            final(self).tx_avail_ring@ == old(self).tx_avail_ring@,
            final(self).tx_used_idx == old(self).tx_used_idx,
            final(self).rx_avail_idx == old(self).rx_avail_idx,
            final(self).rx_avail_ring@ == old(self).rx_avail_ring@,
            final(self).rx_used_idx == old(self).rx_used_idx,
            final(self).mac == old(self).mac,
    {
        let ghost o = *self;
        let mut i: usize = 0;
        while i < NUM
            invariant
                i <= NUM,
                *self == o,
                o == *old(self),
                o.wf(),
                first_free_tx_from(self.tx_free@, 0) == first_free_tx_from(self.tx_free@, i as int),
            decreases NUM - i,
        {
            if self.tx_free[i] {
                self.tx_free.set(i, false);
                return Some(i);
            }
            i = i + 1;
        }
        None
    }

    /// Marks transmit buffer `idx` free again; ids past the ring are
    /// ignored. The caller wakes senders waiting for a buffer.
    pub fn free_tx(&mut self, idx: usize)
        requires
            old(self).wf(),
        ensures
            final(self).wf(),
            final(self).tx_free@ == (if idx < NUM {
                old(self).tx_free@.update(idx as int, true)
            } else {
                old(self).tx_free@
            }),
            final(self).tx_bufs@ == old(self).tx_bufs@,
            final(self).tx_avail_idx == old(self).tx_avail_idx,
            final(self).tx_avail_ring@ == old(self).tx_avail_ring@,
            final(self).tx_used_idx == old(self).tx_used_idx,
            final(self).rx_avail_idx == old(self).rx_avail_idx,
            final(self).rx_avail_ring@ == old(self).rx_avail_ring@,
            final(self).rx_used_idx == old(self).rx_used_idx,
            final(self).mac == old(self).mac,
    {
        if idx < NUM {
            self.tx_free.set(idx, true);
        }
    }

    /// Frees every transmit buffer the device has returned up to its used
    /// index `dev_idx`.
    pub fn handle_tx(&mut self, dev_idx: u16, used_ids: &[u32])
        requires
            old(self).wf(),
            used_ids@.len() >= NUM,
        ensures
            final(self).wf(),
            final(self).tx_used_idx == dev_idx,
            forall|i: int|
                0 <= i < NUM ==> #[trigger] final(self).tx_free@[i] == (old(self).tx_free@[i] || tx_returned(
                    old(self).tx_used_idx,
                    pending_count(old(self).tx_used_idx, dev_idx),
                    used_ids@,
                    i,
                )),
            final(self).tx_bufs@ == old(self).tx_bufs@,
            final(self).tx_avail_idx == old(self).tx_avail_idx,
            final(self).tx_avail_ring@ == old(self).tx_avail_ring@,
            final(self).rx_avail_idx == old(self).rx_avail_idx,
            final(self).rx_avail_ring@ == old(self).rx_avail_ring@,
            final(self).rx_used_idx == old(self).rx_used_idx,
            final(self).mac == old(self).mac,
    {
        let ghost o = *self;
        let ghost u0 = self.tx_used_idx;
        let ghost count = pending_count(u0, dev_idx);
        let ghost mut k: int = 0;
        while self.tx_used_idx != dev_idx
            invariant
                self.wf(),
                used_ids@.len() >= NUM,
                0 <= k <= count,
                count == pending_count(u0, dev_idx),
                self.tx_used_idx == idx_add(u0, k),
                forall|i: int|
                    0 <= i < NUM ==> #[trigger] self.tx_free@[i] == (o.tx_free@[i] || tx_returned(u0, k, used_ids@, i)),
                self.tx_bufs@ == o.tx_bufs@,
                self.tx_avail_idx == o.tx_avail_idx,
                self.tx_avail_ring@ == o.tx_avail_ring@,
                self.rx_avail_idx == o.rx_avail_idx,
                self.rx_avail_ring@ == o.rx_avail_ring@,
                self.rx_used_idx == o.rx_used_idx,
                self.mac == o.mac,
            decreases count - k,
        {
            proof {
                crate::virtio_input::lemma_idx_step_pub(u0, dev_idx, k);
            }
            let id = used_ids[self.tx_used_idx as usize % NUM];
            let ghost before = self.tx_free@;
            self.free_tx(id as usize);
            self.tx_used_idx = self.tx_used_idx.wrapping_add(1);
            proof {
                assert forall|i: int| 0 <= i < NUM implies #[trigger] self.tx_free@[i] == (o.tx_free@[i]
                    || tx_returned(u0, k + 1, used_ids@, i)) by {
                    if tx_returned(u0, k, used_ids@, i) {
                        let w = choose|w: int| 0 <= w < k && #[trigger] used_ids@[idx_add(u0, w) % (NUM as int)] == i;
                        assert(used_ids@[idx_add(u0, w) % (NUM as int)] == i);
                    }
                    if tx_returned(u0, k + 1, used_ids@, i) && !tx_returned(u0, k, used_ids@, i) {
                        let w = choose|w: int| 0 <= w < k + 1 && #[trigger] used_ids@[idx_add(u0, w) % (NUM as int)] == i;
                        if w < k {
                            assert(tx_returned(u0, k, used_ids@, i));
                        }
                    }
                    if id == i {
                        assert(used_ids@[idx_add(u0, k) % (NUM as int)] == i);
                    }
                }
                k = k + 1;
            }
        }
        proof {
            crate::virtio_input::lemma_idx_step_pub(u0, dev_idx, k);
        }
    }

    /// Takes every frame the device has received up to its used index
    /// `dev_idx` out of the receive buffers `bufs`, and offers each buffer
    /// again. The caller notifies the device once per buffer offered.
    #[verifier::rlimit(60)]
    pub fn collect_rx(&mut self, dev_idx: u16, used: &[UsedElem], bufs: &Vec<Vec<u8>>) -> (frames: Vec<Vec<u8>>)
        requires
            old(self).wf(),
            used@.len() >= NUM,
            bufs@.len() >= NUM,
            forall|i: int| 0 <= i < NUM ==> (#[trigger] bufs@[i])@.len() >= RX_BUF_LEN,
        ensures
            final(self).wf(),
            final(self).rx_used_idx == dev_idx,
            final(self).rx_avail_idx == idx_add(old(self).rx_avail_idx, pending_count(old(self).rx_used_idx, dev_idx)),
            final(self).rx_avail_ring@ == rx_ring_after(
                old(self).rx_avail_ring@,
                old(self).rx_avail_idx,
                old(self).rx_used_idx,
                used@,
                pending_count(old(self).rx_used_idx, dev_idx),
            ),
            frames@.map_values(|v: Vec<u8>| v@) == rx_frames(
                old(self).rx_used_idx,
                pending_count(old(self).rx_used_idx, dev_idx),
                used@,
                bufs@.map_values(|v: Vec<u8>| v@),
            ),
            final(self).tx_free@ == old(self).tx_free@,
            final(self).tx_bufs@ == old(self).tx_bufs@,
            final(self).tx_avail_idx == old(self).tx_avail_idx,
            final(self).tx_avail_ring@ == old(self).tx_avail_ring@,
            final(self).tx_used_idx == old(self).tx_used_idx,
            final(self).mac == old(self).mac,
    {
        let ghost o = *self;
        let ghost u0 = self.rx_used_idx;
        let ghost count = pending_count(u0, dev_idx);
        let ghost bv = bufs@.map_values(|v: Vec<u8>| v@);
        let mut frames: Vec<Vec<u8>> = Vec::new();
        let ghost mut k: int = 0;
        assert(frames@.map_values(|v: Vec<u8>| v@) =~= Seq::<Seq<u8>>::empty());
        while self.rx_used_idx != dev_idx
            invariant
                self.wf(),
                used@.len() >= NUM,
                bufs@.len() >= NUM,
                forall|i: int| 0 <= i < NUM ==> (#[trigger] bufs@[i])@.len() >= RX_BUF_LEN,
                bv == bufs@.map_values(|v: Vec<u8>| v@),
                0 <= k <= count,
                count == pending_count(u0, dev_idx),
                self.rx_used_idx == idx_add(u0, k),
                self.rx_avail_idx == idx_add(o.rx_avail_idx, k),
                self.rx_avail_ring@ == rx_ring_after(o.rx_avail_ring@, o.rx_avail_idx, u0, used@, k),
                frames@.map_values(|v: Vec<u8>| v@) == rx_frames(u0, k, used@, bv),
                self.tx_free@ == o.tx_free@,
                self.tx_bufs@ == o.tx_bufs@,
                self.tx_avail_idx == o.tx_avail_idx,
                self.tx_avail_ring@ == o.tx_avail_ring@,
                self.tx_used_idx == o.tx_used_idx,
                self.mac == o.mac,
            decreases count - k,
        {
            proof {
                crate::virtio_input::lemma_idx_step_pub(u0, dev_idx, k);
            }
            let e = used[self.rx_used_idx as usize % NUM];
            let id = e.id as usize;
            let len: usize = if (e.len as usize) < RX_BUF_LEN {
                e.len as usize
            } else {
                RX_BUF_LEN
            };
            let ghost fr_before = frames@;
            if len >= HDR_SIZE && id < NUM {
                let mut f: Vec<u8> = Vec::new();
                let mut j: usize = HDR_SIZE;
                while j < len
                    invariant
                        HDR_SIZE <= j <= len <= RX_BUF_LEN,
                        id < NUM,
                        bufs@.len() >= NUM,
                        bufs@[id as int]@.len() >= RX_BUF_LEN,
                        f@ == bufs@[id as int]@.subrange(HDR_SIZE as int, j as int),
                    decreases len - j,
                {
                    f.push(bufs[id][j]);
                    assert(f@ =~= bufs@[id as int]@.subrange(HDR_SIZE as int, j + 1));
                    j = j + 1;
                }
                frames.push(f);
                proof {
                    assert(frames@.map_values(|v: Vec<u8>| v@) =~= fr_before.map_values(|v: Vec<u8>| v@).push(
                        bv[id as int].subrange(HDR_SIZE as int, len as int),
                    ));
                }
            }
            let slot = self.rx_avail_idx as usize % NUM;
            self.rx_avail_ring.set(slot, e.id as u16);
            self.rx_avail_idx = self.rx_avail_idx.wrapping_add(1);
            self.rx_used_idx = self.rx_used_idx.wrapping_add(1);
            proof {
                k = k + 1;
            }
        }
        proof {
            crate::virtio_input::lemma_idx_step_pub(u0, dev_idx, k);
        }
        frames
    }

    /// Queues `frame` for transmission: a zeroed device header then the
    /// frame, in the lowest free transmit buffer, offered at the transmit
    /// avail index. Frames longer than `RX_BUF_SIZE` are refused; with no
    /// free buffer a non-blocking sender gets `WouldBlock`.
    pub fn send_frame_inner(&mut self, frame: &[u8], nonblock: bool) -> (r: Result<SendStep>)
        requires
            old(self).wf(),
        ensures
            final(self).wf(),
            frame@.len() > RX_BUF_SIZE ==> r == Err::<SendStep, Error>(Error::InvalidArgument) && *final(self) == *old(self),
            frame@.len() <= RX_BUF_SIZE ==> match first_free_tx_from(old(self).tx_free@, 0) {
                None => *final(self) == *old(self) && r == (if nonblock {
                    Err::<SendStep, Error>(Error::WouldBlock)
                } else {
                    Ok::<SendStep, Error>(SendStep::Block)
                }),
                Some(i) => {
                    &&& r == Ok::<SendStep, Error>(SendStep::Queued(i as usize))
                    &&& final(self).tx_free@ == old(self).tx_free@.update(i, false)
                    &&& final(self).tx_bufs@.len() == NUM
                    &&& final(self).tx_bufs@[i]@ == Seq::new(HDR_SIZE as nat, |j: int| 0u8) + frame@
                    &&& forall|j: int| 0 <= j < NUM && j != i ==> final(self).tx_bufs@[j] == old(self).tx_bufs@[j]
                    &&& final(self).tx_avail_ring@ == old(self).tx_avail_ring@.update(
                        old(self).tx_avail_idx as int % (NUM as int),
                        i as u16,
                    )
                    &&& final(self).tx_avail_idx == idx_add(old(self).tx_avail_idx, 1)
                    &&& final(self).tx_used_idx == old(self).tx_used_idx
                    &&& final(self).rx_avail_idx == old(self).rx_avail_idx
                    &&& final(self).rx_avail_ring@ == old(self).rx_avail_ring@
                    &&& final(self).rx_used_idx == old(self).rx_used_idx
                    &&& final(self).mac == old(self).mac
                },
            },
    {
        if frame.len() > RX_BUF_SIZE {
            return Err(Error::InvalidArgument);
        }
        proof {
            lemma_first_free_tx_from(self.tx_free@, 0);
        }
        let idx = match self.alloc_tx() {
            Some(i) => i,
            None => {
                return if nonblock {
                    Err(Error::WouldBlock)
                } else {
                    Ok(SendStep::Block)
                };
            },
        };
        let mut buf: Vec<u8> = Vec::new();
        let mut j: usize = 0;
        while j < HDR_SIZE
            invariant
                j <= HDR_SIZE,
                buf@ == Seq::new(j as nat, |x: int| 0u8),
            decreases HDR_SIZE - j,
        {
            buf.push(0);
            assert(buf@ =~= Seq::new((j + 1) as nat, |x: int| 0u8));
            j = j + 1;
        }
        let mut j: usize = 0;
        while j < frame.len()
            invariant
                j <= frame@.len(),
                buf@ == Seq::new(HDR_SIZE as nat, |x: int| 0u8) + frame@.take(j as int),
            decreases frame@.len() - j,
        {
            buf.push(frame[j]);
            assert(buf@ =~= Seq::new(HDR_SIZE as nat, |x: int| 0u8) + frame@.take(j + 1));
            j = j + 1;
        }
        assert(frame@.take(frame@.len() as int) =~= frame@);
        self.tx_bufs.set(idx, buf);
        let ring_idx = self.tx_avail_idx as usize % NUM;
        self.tx_avail_ring.set(ring_idx, idx as u16);
        self.tx_avail_idx = self.tx_avail_idx.wrapping_add(1);
        Ok(SendStep::Queued(idx))
    }

    /// Sends `frame`, sleeping while no transmit buffer is free and until
    /// the device has sent it.
    pub fn send_frame(&mut self, frame: &[u8]) -> (r: Result<SendStep>)
        requires
            old(self).wf(),
        ensures
            final(self).wf(),
            frame@.len() > RX_BUF_SIZE ==> r == Err::<SendStep, Error>(Error::InvalidArgument),
            frame@.len() <= RX_BUF_SIZE ==> r == (match first_free_tx_from(old(self).tx_free@, 0) {
                None => Ok::<SendStep, Error>(SendStep::Block),
                Some(i) => Ok::<SendStep, Error>(SendStep::Queued(i as usize)),
            }),
    {
        self.send_frame_inner(frame, false)
    }

    /// Sends `frame` without sleeping.
    pub fn try_send_frame(&mut self, frame: &[u8]) -> (r: Result<SendStep>)
        requires
            old(self).wf(),
        ensures
            final(self).wf(),
            frame@.len() > RX_BUF_SIZE ==> r == Err::<SendStep, Error>(Error::InvalidArgument),
            frame@.len() <= RX_BUF_SIZE ==> r == (match first_free_tx_from(old(self).tx_free@, 0) {
                None => Err::<SendStep, Error>(Error::WouldBlock),
                Some(i) => Ok::<SendStep, Error>(SendStep::Queued(i as usize)),
            }),
    {
        self.send_frame_inner(frame, true)
    }
}

/// The network stack starts no background tasks of its own.
pub fn spawn_tasks() {
}

} // verus!
