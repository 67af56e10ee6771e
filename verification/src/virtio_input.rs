//! Keyboard and mouse input: decoding of input events into the bytes a
//! terminal expects, modifier state, pointer position, and the recycling
//! of the receive ring's buffers.
//!
//! The device registers and the DMA memory are read by the caller, which
//! hands in the device's used index, the used ring's buffer ids and the
//! event buffers, and writes back what the driver decided.

use vstd::prelude::*;
use crate::framebuffer::{in_rect, lemma_pix_bounds, lemma_pix_injective, pix, put_pixel};
use crate::virtio_gpu::{Gpu, DIM_MAX};

verus! {

/// Receive-ring slots the driver offers.
pub const QNUM: usize = 32;

pub const EV_SYN: u16 = 0x0000;
pub const EV_KEY: u16 = 0x0001;
pub const EV_REL: u16 = 0x0002;

pub const REL_X: u16 = 0;
pub const REL_Y: u16 = 1;
pub const REL_WHEEL: u16 = 8;

pub const KEY_ESC: u16 = 1;
pub const KEY_BACKSPACE: u16 = 14;
pub const KEY_TAB: u16 = 15;
pub const KEY_ENTER: u16 = 28;
pub const KEY_LEFTCTRL: u16 = 29;
pub const KEY_LEFTSHIFT: u16 = 42;
pub const KEY_RIGHTSHIFT: u16 = 54;
pub const KEY_LEFTALT: u16 = 56;
pub const KEY_SPACE: u16 = 57;
pub const KEY_CAPSLOCK: u16 = 58;
pub const KEY_F1: u16 = 59;
pub const KEY_F10: u16 = 68;
pub const KEY_F11: u16 = 87;
pub const KEY_F12: u16 = 88;
pub const KEY_RIGHTCTRL: u16 = 97;
pub const KEY_RIGHTALT: u16 = 100;
pub const KEY_HOME: u16 = 102;
pub const KEY_UP: u16 = 103;
pub const KEY_PAGEUP: u16 = 104;
pub const KEY_LEFT: u16 = 105;
pub const KEY_RIGHT: u16 = 106;
pub const KEY_END: u16 = 107;
pub const KEY_DOWN: u16 = 108;
pub const KEY_PAGEDOWN: u16 = 109;
pub const KEY_INSERT: u16 = 110;
pub const KEY_DELETE: u16 = 111;

/// One input event as the device writes it.
#[derive(Clone, Copy, Debug, PartialEq, Eq, Structural)]
pub struct InputEvent {
    pub type_: u16,
    pub code: u16,
    pub value: u32,
}

/// The keyboard's modifier state.
#[derive(Clone, Copy, Debug, PartialEq, Eq, Structural)]
pub struct KeyMods {
    pub shift: bool,
    pub ctrl: bool,
    pub alt: bool,
    pub caps: bool,
}

/// The unshifted and shifted characters of a key, for keys that type one.
pub open spec fn spec_key_pair(code: u16) -> Option<(u8, u8)> {
    match code {
        30u16 => Some((0x61u8, 0x41u8)),  // a
        48u16 => Some((0x62u8, 0x42u8)),  // b
        46u16 => Some((0x63u8, 0x43u8)),  // c
        32u16 => Some((0x64u8, 0x44u8)),  // d
        18u16 => Some((0x65u8, 0x45u8)),  // e
        33u16 => Some((0x66u8, 0x46u8)),  // f
        34u16 => Some((0x67u8, 0x47u8)),  // g
        35u16 => Some((0x68u8, 0x48u8)),  // h
        23u16 => Some((0x69u8, 0x49u8)),  // i
        36u16 => Some((0x6au8, 0x4au8)),  // j
        37u16 => Some((0x6bu8, 0x4bu8)),  // k
        38u16 => Some((0x6cu8, 0x4cu8)),  // l
        50u16 => Some((0x6du8, 0x4du8)),  // m
        49u16 => Some((0x6eu8, 0x4eu8)),  // n
        24u16 => Some((0x6fu8, 0x4fu8)),  // o
        25u16 => Some((0x70u8, 0x50u8)),  // p
        16u16 => Some((0x71u8, 0x51u8)),  // q
        19u16 => Some((0x72u8, 0x52u8)),  // r
        31u16 => Some((0x73u8, 0x53u8)),  // s
        20u16 => Some((0x74u8, 0x54u8)),  // t
        22u16 => Some((0x75u8, 0x55u8)),  // u
        47u16 => Some((0x76u8, 0x56u8)),  // v
        17u16 => Some((0x77u8, 0x57u8)),  // w
        45u16 => Some((0x78u8, 0x58u8)),  // x
        21u16 => Some((0x79u8, 0x59u8)),  // y
        44u16 => Some((0x7au8, 0x5au8)),  // z
        2u16 => Some((0x31u8, 0x21u8)),  // 1 !
        3u16 => Some((0x32u8, 0x40u8)),  // 2 @
        4u16 => Some((0x33u8, 0x23u8)),  // 3 #
        5u16 => Some((0x34u8, 0x24u8)),  // 4 $
        6u16 => Some((0x35u8, 0x25u8)),  // 5 %
        7u16 => Some((0x36u8, 0x5eu8)),  // 6 ^
        8u16 => Some((0x37u8, 0x26u8)),  // 7 &
        9u16 => Some((0x38u8, 0x2au8)),  // 8 *
        10u16 => Some((0x39u8, 0x28u8)),  // 9 (
        11u16 => Some((0x30u8, 0x29u8)),  // 0 )
        57u16 => Some((0x20u8, 0x20u8)),  // space
        28u16 => Some((0x0au8, 0x0au8)),  // enter
        15u16 => Some((0x09u8, 0x09u8)),  // tab
        14u16 => Some((0x08u8, 0x08u8)),  // backspace
        1u16 => Some((0x1bu8, 0x1bu8)),  // escape
        12u16 => Some((0x2du8, 0x5fu8)),  // - _
        13u16 => Some((0x3du8, 0x2bu8)),  // = +
        26u16 => Some((0x5bu8, 0x7bu8)),  // [ {
        27u16 => Some((0x5du8, 0x7du8)),  // ] }
        43u16 => Some((0x5cu8, 0x7cu8)),  // \ |
        39u16 => Some((0x3bu8, 0x3au8)),  // ; :
        40u16 => Some((0x27u8, 0x22u8)),  // ' "
        41u16 => Some((0x60u8, 0x7eu8)),  // ` ~
        51u16 => Some((0x2cu8, 0x3cu8)),  // , <
        52u16 => Some((0x2eu8, 0x3eu8)),  // . >
        53u16 => Some((0x2fu8, 0x3fu8)),  // / ?
        _ => None,
    }
}

/// Whether `code` is one of the letter keys, which caps lock shifts.
pub open spec fn spec_is_letter_key(code: u16) -> bool {
    spec_key_pair(code) matches Some(p) && 0x61 <= p.0 <= 0x7a
}

/// The character a key types under the modifiers: shifted when shift is
/// held, and for letters when shift and caps lock differ.
pub open spec fn spec_key_to_ascii(m: KeyMods, code: u16) -> Option<u8> {
    match spec_key_pair(code) {
        None => None,
        Some(p) => {
            let use_shift = if spec_is_letter_key(code) {
                m.shift != m.caps
            } else {
                m.shift
            };
            Some(if use_shift { p.1 } else { p.0 })
        },
    }
}

/// The escape sequence a cursor, editing or function key sends.
pub open spec fn spec_escape_seq(code: u16) -> Option<Seq<u8>> {
    match code {
        103u16 => Some(seq![0x1bu8, 0x5b, 0x41]),  // up: ESC [ A
        108u16 => Some(seq![0x1bu8, 0x5b, 0x42]),  // down: ESC [ B
        106u16 => Some(seq![0x1bu8, 0x5b, 0x43]),  // right: ESC [ C
        105u16 => Some(seq![0x1bu8, 0x5b, 0x44]),  // left: ESC [ D
        102u16 => Some(seq![0x1bu8, 0x5b, 0x48]),  // home: ESC [ H
        107u16 => Some(seq![0x1bu8, 0x5b, 0x46]),  // end: ESC [ F
        104u16 => Some(seq![0x1bu8, 0x5b, 0x35, 0x7e]),  // page up: ESC [ 5 ~
        109u16 => Some(seq![0x1bu8, 0x5b, 0x36, 0x7e]),  // page down: ESC [ 6 ~
        110u16 => Some(seq![0x1bu8, 0x5b, 0x32, 0x7e]),  // insert: ESC [ 2 ~
        111u16 => Some(seq![0x1bu8, 0x5b, 0x33, 0x7e]),  // delete: ESC [ 3 ~
        59u16 => Some(seq![0x1bu8, 0x4f, 0x50]),  // F1: ESC O P
        60u16 => Some(seq![0x1bu8, 0x4f, 0x51]),  // F2: ESC O Q
        61u16 => Some(seq![0x1bu8, 0x4f, 0x52]),  // F3: ESC O R
        62u16 => Some(seq![0x1bu8, 0x4f, 0x53]),  // F4: ESC O S
        63u16 => Some(seq![0x1bu8, 0x5b, 0x31, 0x35, 0x7e]),  // F5: ESC [ 1 5 ~
        64u16 => Some(seq![0x1bu8, 0x5b, 0x31, 0x37, 0x7e]),  // F6: ESC [ 1 7 ~
        65u16 => Some(seq![0x1bu8, 0x5b, 0x31, 0x38, 0x7e]),  // F7: ESC [ 1 8 ~
        66u16 => Some(seq![0x1bu8, 0x5b, 0x31, 0x39, 0x7e]),  // F8: ESC [ 1 9 ~
        67u16 => Some(seq![0x1bu8, 0x5b, 0x32, 0x30, 0x7e]),  // F9: ESC [ 2 0 ~
        68u16 => Some(seq![0x1bu8, 0x5b, 0x32, 0x31, 0x7e]),  // F10: ESC [ 2 1 ~
        87u16 => Some(seq![0x1bu8, 0x5b, 0x32, 0x33, 0x7e]),  // F11: ESC [ 2 3 ~
        88u16 => Some(seq![0x1bu8, 0x5b, 0x32, 0x34, 0x7e]),  // F12: ESC [ 2 4 ~
        _ => None,
    }
}

pub open spec fn spec_is_alpha(b: u8) -> bool {
    (0x41 <= b <= 0x5a) || (0x61 <= b <= 0x7a)
}

/// What a typed character sends: with ctrl, a letter becomes its control
/// code (1 for `a`, 26 for `z`); with alt, the character follows an ESC.
pub open spec fn spec_char_bytes(m: KeyMods, b: u8) -> Seq<u8> {
    if m.ctrl && spec_is_alpha(b) {
        let lo: int = if b <= 0x5a { b + 0x20 } else { b as int };
        seq![(lo - 0x61 + 1) as u8]
    } else if m.alt {
        seq![0x1bu8, b]
    } else {
        seq![b]
    }
}

/// The modifier state after one event, and the bytes it sends.
pub open spec fn spec_kbd_event(m: KeyMods, ev: InputEvent) -> (KeyMods, Seq<u8>) {
    let pressed = ev.value == 1 || ev.value == 2;
    let code = ev.code;
    if ev.type_ != EV_KEY {
        (m, Seq::empty())
    } else if code == KEY_LEFTSHIFT || code == KEY_RIGHTSHIFT {
        (KeyMods { shift: pressed, ..m }, Seq::empty())
    } else if code == KEY_LEFTCTRL || code == KEY_RIGHTCTRL {
        (KeyMods { ctrl: pressed, ..m }, Seq::empty())
    } else if code == KEY_LEFTALT || code == KEY_RIGHTALT {
        (KeyMods { alt: pressed, ..m }, Seq::empty())
    } else if !pressed {
        (m, Seq::empty())
    } else if code == KEY_CAPSLOCK {
        (KeyMods { caps: !m.caps, ..m }, Seq::empty())
    } else {
        match spec_escape_seq(code) {
            Some(s) => (m, s),
            None => match spec_key_to_ascii(m, code) {
                Some(b) => (m, spec_char_bytes(m, b)),
                None => (m, Seq::empty()),
            },
        }
    }
}

/// The modifier state after a run of events, and the bytes they send.
pub open spec fn spec_kbd_run(m: KeyMods, evs: Seq<InputEvent>) -> (KeyMods, Seq<u8>)
    decreases evs.len(),
{
    if evs.len() == 0 {
        (m, Seq::empty())
    } else {
        let (m1, b1) = spec_kbd_run(m, evs.drop_last());
        let (m2, b2) = spec_kbd_event(m1, evs.last());
        (m2, b1 + b2)
    }
}

/// `a + k` on 16-bit ring indices.
pub open spec fn idx_add(a: u16, k: int) -> int {
    (a + k) % 0x1_0000
}

/// Ring indices the device is ahead of the driver.
pub open spec fn pending_count(used_idx: u16, dev_idx: u16) -> int {
    if dev_idx >= used_idx {
        dev_idx - used_idx
    } else {
        dev_idx + 0x1_0000 - used_idx
    }
}

/// The buffer id the device returned in its `k`-th pending used slot.
pub open spec fn pending_id(used_idx: u16, k: int, qnum: int, used_ids: Seq<u32>) -> u32 {
    used_ids[idx_add(used_idx, k) % qnum]
}

/// The events the device has returned since `used_idx`, oldest first.
pub open spec fn pending_events(
    used_idx: u16,
    dev_idx: u16,
    qnum: int,
    used_ids: Seq<u32>,
    events: Seq<InputEvent>,
) -> Seq<InputEvent> {
    Seq::new(
        pending_count(used_idx, dev_idx) as nat,
        |k: int| events[pending_id(used_idx, k, qnum, used_ids) as int],
    )
}

/// The avail ring after the first `n` pending buffers were offered again,
/// from avail index `avail`.
pub open spec fn ring_after(ring: Seq<u16>, avail: u16, used_idx: u16, qnum: int, used_ids: Seq<u32>, n: int) -> Seq<u16>
    decreases n,
{
    if n <= 0 {
        ring
    } else {
        ring_after(ring, avail, used_idx, qnum, used_ids, n - 1).update(
            idx_add(avail, n - 1) % qnum,
            pending_id(used_idx, n - 1, qnum, used_ids) as u16,
        )
    }
}

/// The receive ring's driver side: how many slots it has, which used
/// index it has consumed up to, and the avail ring it offers.
pub struct InputQueue {
    pub inited: bool,
    pub qnum: u16,
    pub used_idx: u16,
    pub avail_idx: u16,
    pub avail_ring: Vec<u16>,
}

/// What the device handed over on an interrupt: its used index, the
/// buffer ids of its used ring, and the event buffers.
pub open spec fn device_ok(q: InputQueue, used_ids: Seq<u32>, events: Seq<InputEvent>) -> bool {
    &&& q.avail_ring@.len() == QNUM
    &&& q.inited ==> {
        &&& 0 < q.qnum <= QNUM
        &&& used_ids.len() >= q.qnum
        &&& events.len() <= QNUM
        &&& forall|s: int| 0 <= s < q.qnum ==> #[trigger] used_ids[s] < events.len()
    }
}

/// What an interrupt does to a receive queue that is set up: every
/// pending buffer consumed and offered again, in order.
pub open spec fn queue_drained(o: InputQueue, n: InputQueue, dev_idx: u16, used_ids: Seq<u32>) -> bool {
    let count = pending_count(o.used_idx, dev_idx);
    &&& n.inited == o.inited
    &&& n.qnum == o.qnum
    &&& n.used_idx == dev_idx
    &&& n.avail_idx == idx_add(o.avail_idx, count)
    &&& n.avail_ring@ == ring_after(o.avail_ring@, o.avail_idx, o.used_idx, o.qnum as int, used_ids, count)
}

/// Stepping a 16-bit ring index: after `pending_count` steps it meets the
/// device's index, and not before.
pub proof fn lemma_idx_step_pub(u0: u16, dev: u16, k: int)
    requires
        0 <= k <= pending_count(u0, dev),
    ensures
        (idx_add(u0, k) == dev) == (k == pending_count(u0, dev)),
        0 <= idx_add(u0, k) < 0x1_0000,
        k < pending_count(u0, dev) ==> idx_add(idx_add(u0, k) as u16, 1) == idx_add(u0, k + 1),
{
    lemma_idx_step(u0, dev, k);
}

proof fn lemma_idx_step(u0: u16, dev: u16, k: int)
    requires
        0 <= k <= pending_count(u0, dev),
    ensures
        (idx_add(u0, k) == dev) == (k == pending_count(u0, dev)),
        0 <= idx_add(u0, k) < 0x1_0000,
        k < pending_count(u0, dev) ==> idx_add(idx_add(u0, k) as u16, 1) == idx_add(u0, k + 1),
{
}

impl InputQueue {
    /// A queue not yet set up.
    pub fn new_uninit() -> (q: Self)
        ensures
            !q.inited,
            q.qnum == 0,
            q.used_idx == 0,
            q.avail_idx == 0,
            q.avail_ring@ == Seq::new(QNUM as nat, |i: int| 0u16),
    {
        let mut ring: Vec<u16> = Vec::new();
        let mut i: usize = 0;
        while i < QNUM
            invariant
                i <= QNUM,
                ring@ == Seq::new(i as nat, |j: int| 0u16),
            decreases QNUM - i,
        {
            ring.push(0);
            assert(ring@ =~= Seq::new((i + 1) as nat, |j: int| 0u16));
            i = i + 1;
        }
        InputQueue { inited: false, qnum: 0, used_idx: 0, avail_idx: 0, avail_ring: ring }
    }

    /// Sets the queue up once the device has been found and has accepted
    /// the driver's features; `queue_max` is the largest queue it offers,
    /// `None` when it is absent or refused. Every buffer is offered.
    pub fn init(&mut self, queue_max: Option<u32>)
        requires
            old(self).avail_ring@.len() == QNUM,
        ensures
            final(self).avail_ring@.len() == QNUM,
            old(self).inited || queue_max is None || queue_max == Some(0u32) ==> *final(self) == *old(self),
            !old(self).inited && (queue_max matches Some(m) && m > 0) ==> {
                let n = if queue_max.unwrap() < QNUM { queue_max.unwrap() as int } else { QNUM as int };
                &&& final(self).inited
                &&& final(self).qnum == n
                &&& final(self).avail_idx == n
                &&& final(self).used_idx == old(self).used_idx
                &&& forall|i: int| 0 <= i < n ==> final(self).avail_ring@[i] == i
            },
    {
        if self.inited {
            return;
        }
        let max = match queue_max {
            None => {
                return;
            },
            Some(m) => m,
        };
        let qnum: usize = if max < QNUM as u32 {
            max as usize
        } else {
            QNUM
        };
        if qnum == 0 {
            return;
        }
        self.qnum = qnum as u16;
        let ghost u0 = self.used_idx;
        let mut i: usize = 0;
        while i < qnum
            invariant
                qnum <= QNUM,
                self.qnum == qnum,
                self.used_idx == u0,
                !self.inited,
                i <= qnum,
                self.avail_ring@.len() == QNUM,
                forall|j: int| 0 <= j < i ==> self.avail_ring@[j] == j,
            decreases qnum - i,
        {
            self.avail_ring.set(i, i as u16);
            i = i + 1;
        }
        self.avail_idx = qnum as u16;
        self.inited = true;
    }

    /// Offers buffer `id` to the device again.
    fn recycle(&mut self, id: u32)
        requires
            0 < old(self).qnum <= QNUM,
            old(self).avail_ring@.len() == QNUM,
            id < QNUM,
        ensures
            final(self).qnum == old(self).qnum,
            final(self).inited == old(self).inited,
            final(self).avail_ring@ == old(self).avail_ring@.update(
                old(self).avail_idx as int % (old(self).qnum as int),
                id as u16,
            ),
            final(self).avail_idx == idx_add(old(self).avail_idx, 1),
            final(self).used_idx == idx_add(old(self).used_idx, 1),
    {
        let ring_i = (self.avail_idx as usize) % (self.qnum as usize);
        self.avail_ring.set(ring_i, id as u16);
        self.avail_idx = self.avail_idx.wrapping_add(1);
        self.used_idx = self.used_idx.wrapping_add(1);
    }
}

/// The keyboard: its receive queue and modifier state.
pub struct Kbd {
    pub queue: InputQueue,
    pub mods: KeyMods,
}

impl Kbd {
    pub fn new_uninit() -> (k: Self)
        ensures
            !k.queue.inited,
            k.queue.avail_ring@.len() == QNUM,
            k.mods == (KeyMods { shift: false, ctrl: false, alt: false, caps: false }),
    {
        Kbd { queue: InputQueue::new_uninit(), mods: KeyMods { shift: false, ctrl: false, alt: false, caps: false } }
    }

    pub fn is_letter_key(code: u16) -> (b: bool)
        ensures
            b == spec_is_letter_key(code),
    {
        match Self::key_pair(code) {
            Some(p) => 0x61 <= p.0 && p.0 <= 0x7a,
            None => false,
        }
    }

    fn key_pair(code: u16) -> (r: Option<(u8, u8)>)
        ensures
            r == spec_key_pair(code),
    {
        match code {
            30 => Some((0x61, 0x41)),
            48 => Some((0x62, 0x42)),
            46 => Some((0x63, 0x43)),
            32 => Some((0x64, 0x44)),
            18 => Some((0x65, 0x45)),
            33 => Some((0x66, 0x46)),
            34 => Some((0x67, 0x47)),
            35 => Some((0x68, 0x48)),
            23 => Some((0x69, 0x49)),
            36 => Some((0x6a, 0x4a)),
            37 => Some((0x6b, 0x4b)),
            38 => Some((0x6c, 0x4c)),
            50 => Some((0x6d, 0x4d)),
            49 => Some((0x6e, 0x4e)),
            24 => Some((0x6f, 0x4f)),
            25 => Some((0x70, 0x50)),
            16 => Some((0x71, 0x51)),
            19 => Some((0x72, 0x52)),
            31 => Some((0x73, 0x53)),
            20 => Some((0x74, 0x54)),
            22 => Some((0x75, 0x55)),
            47 => Some((0x76, 0x56)),
            17 => Some((0x77, 0x57)),
            45 => Some((0x78, 0x58)),
            21 => Some((0x79, 0x59)),
            44 => Some((0x7a, 0x5a)),
            2 => Some((0x31, 0x21)),
            3 => Some((0x32, 0x40)),
            4 => Some((0x33, 0x23)),
            5 => Some((0x34, 0x24)),
            6 => Some((0x35, 0x25)),
            7 => Some((0x36, 0x5e)),
            8 => Some((0x37, 0x26)),
            9 => Some((0x38, 0x2a)),
            10 => Some((0x39, 0x28)),
            11 => Some((0x30, 0x29)),
            57 => Some((0x20, 0x20)),
            28 => Some((0x0a, 0x0a)),
            15 => Some((0x09, 0x09)),
            14 => Some((0x08, 0x08)),
            1 => Some((0x1b, 0x1b)),
            12 => Some((0x2d, 0x5f)),
            13 => Some((0x3d, 0x2b)),
            26 => Some((0x5b, 0x7b)),
            27 => Some((0x5d, 0x7d)),
            43 => Some((0x5c, 0x7c)),
            39 => Some((0x3b, 0x3a)),
            40 => Some((0x27, 0x22)),
            41 => Some((0x60, 0x7e)),
            51 => Some((0x2c, 0x3c)),
            52 => Some((0x2e, 0x3e)),
            53 => Some((0x2f, 0x3f)),
            _ => None,
        }
    }

    /// The character key `code` types under the current modifiers.
    pub fn key_to_ascii(&self, code: u16) -> (r: Option<u8>)
        ensures
            r == spec_key_to_ascii(self.mods, code),
    {
        let (lo, hi) = match Self::key_pair(code) {
            Some(p) => p,
            None => {
                return None;
            },
        };
        let is_letter = Self::is_letter_key(code);
        let use_shift = if is_letter {
            self.mods.shift ^ self.mods.caps
        } else {
            self.mods.shift
        };
        Some(
            if use_shift {
                hi
            } else {
                lo
            },
        )
    }

    fn escape_seq(code: u16) -> (r: Option<Vec<u8>>)
        ensures
            match spec_escape_seq(code) {
                Some(q) => r matches Some(v) && v@ == q,
                None => r is None,
            },
    {
        let v: Vec<u8> = match code {
            103 => vec![0x1b, 0x5b, 0x41],
            108 => vec![0x1b, 0x5b, 0x42],
            106 => vec![0x1b, 0x5b, 0x43],
            105 => vec![0x1b, 0x5b, 0x44],
            102 => vec![0x1b, 0x5b, 0x48],
            107 => vec![0x1b, 0x5b, 0x46],
            104 => vec![0x1b, 0x5b, 0x35, 0x7e],
            109 => vec![0x1b, 0x5b, 0x36, 0x7e],
            110 => vec![0x1b, 0x5b, 0x32, 0x7e],
            111 => vec![0x1b, 0x5b, 0x33, 0x7e],
            59 => vec![0x1b, 0x4f, 0x50],
            60 => vec![0x1b, 0x4f, 0x51],
            61 => vec![0x1b, 0x4f, 0x52],
            62 => vec![0x1b, 0x4f, 0x53],
            63 => vec![0x1b, 0x5b, 0x31, 0x35, 0x7e],
            64 => vec![0x1b, 0x5b, 0x31, 0x37, 0x7e],
            65 => vec![0x1b, 0x5b, 0x31, 0x38, 0x7e],
            66 => vec![0x1b, 0x5b, 0x31, 0x39, 0x7e],
            67 => vec![0x1b, 0x5b, 0x32, 0x30, 0x7e],
            68 => vec![0x1b, 0x5b, 0x32, 0x31, 0x7e],
            87 => vec![0x1b, 0x5b, 0x32, 0x33, 0x7e],
            88 => vec![0x1b, 0x5b, 0x32, 0x34, 0x7e],
            _ => {
                return None;
            },
        };
        proof {
            if let Some(q) = spec_escape_seq(code) {
                assert(v@ =~= q);
            }
        }
        Some(v)
    }

    fn char_bytes(m: KeyMods, b: u8) -> (r: Vec<u8>)
        ensures
            r@ == spec_char_bytes(m, b),
    {
        let alpha = (0x41 <= b && b <= 0x5a) || (0x61 <= b && b <= 0x7a);
        let r = if m.ctrl && alpha {
            let lo: u8 = if b <= 0x5a {
                b + 0x20
            } else {
                b
            };
            vec![(lo - 0x61) + 1]
        } else if m.alt {
            vec![0x1b, b]
        } else {
            vec![b]
        };
        assert(r@ =~= spec_char_bytes(m, b));
        r
    }

    /// Applies one input event: updates the modifiers and returns the bytes
    /// the key sends to the console.
    pub fn handle_event(&mut self, ev: InputEvent) -> (out: Vec<u8>)
        ensures
            (final(self).mods, out@) == spec_kbd_event(old(self).mods, ev),
            final(self).queue == old(self).queue,
    {
        let pressed = ev.value == 1 || ev.value == 2;
        let code = ev.code;
        let mut out: Vec<u8> = Vec::new();
        if ev.type_ != EV_KEY {
        } else if code == KEY_LEFTSHIFT || code == KEY_RIGHTSHIFT {
            self.mods.shift = pressed;
        } else if code == KEY_LEFTCTRL || code == KEY_RIGHTCTRL {
            self.mods.ctrl = pressed;
        } else if code == KEY_LEFTALT || code == KEY_RIGHTALT {
            self.mods.alt = pressed;
        } else if !pressed {
        } else if code == KEY_CAPSLOCK {
            self.mods.caps = !self.mods.caps;
        } else {
            match Self::escape_seq(code) {
                Some(v) => {
                    out = v;
                },
                None => match self.key_to_ascii(code) {
                    Some(b) => {
                        out = Self::char_bytes(self.mods, b);
                    },
                    None => {},
                },
            }
        }
        assert(out@ =~= spec_kbd_event(old(self).mods, ev).1);
        out
    }

    /// Handles a keyboard interrupt: consumes every event the device has
    /// returned up to its used index `dev_idx`, offers each buffer again,
    /// and returns the bytes the keys send, in order. `None`: the device is
    /// not set up yet; the caller sets it up (`InputQueue::init`) and, if
    /// that succeeded, calls again.
    #[verifier::rlimit(40)]
    pub fn intr(&mut self, dev_idx: u16, used_ids: &[u32], events: &[InputEvent]) -> (r: Option<Vec<u8>>)
        requires
            device_ok(old(self).queue, used_ids@, events@),
        ensures
            !old(self).queue.inited <==> r is None,
            !old(self).queue.inited ==> *final(self) == *old(self),
            r matches Some(out) ==> {
                let evs = pending_events(old(self).queue.used_idx, dev_idx, old(self).queue.qnum as int, used_ids@, events@);
                &&& (final(self).mods, out@) == spec_kbd_run(old(self).mods, evs)
                &&& queue_drained(old(self).queue, final(self).queue, dev_idx, used_ids@)
            },
    {
        let mut out: Vec<u8> = Vec::new();
        if !self.queue.inited {
            return None;
        }
        let ghost o = *self;
        let ghost u0 = self.queue.used_idx;
        let ghost qn = self.queue.qnum as int;
        let ghost count = pending_count(u0, dev_idx);
        let ghost evs = pending_events(u0, dev_idx, qn, used_ids@, events@);
        let qnum = self.queue.qnum as usize;
        let ghost mut k: int = 0;
        assert(evs.take(0) =~= Seq::<InputEvent>::empty());
        assert(out@ =~= Seq::<u8>::empty());
        proof {
            lemma_idx_step(u0, dev_idx, 0);
        }
        while self.queue.used_idx != dev_idx
            invariant
                device_ok(self.queue, used_ids@, events@),
                self.queue.inited,
                self.queue.qnum == o.queue.qnum,
                qnum == qn,
                qnum == self.queue.qnum,
                0 < qnum <= QNUM,
                used_ids@.len() >= qnum,
                events@.len() <= QNUM,
                forall|s: int| 0 <= s < qnum ==> #[trigger] used_ids@[s] < events@.len(),
                0 <= k <= count,
                count == pending_count(u0, dev_idx),
                evs == pending_events(u0, dev_idx, qn, used_ids@, events@),
                self.queue.used_idx == idx_add(u0, k),
                self.queue.avail_idx == idx_add(o.queue.avail_idx, k),
                self.queue.avail_ring@ == ring_after(o.queue.avail_ring@, o.queue.avail_idx, u0, qn, used_ids@, k),
                (self.mods, out@) == spec_kbd_run(o.mods, evs.take(k)),
            decreases count - k,
        {
            proof {
                lemma_idx_step(u0, dev_idx, k);
            }
            let slot = (self.queue.used_idx as usize) % qnum;
            let id = used_ids[slot];
            let ev = events[id as usize];
            assert(ev == evs[k]);
            let bytes = self.handle_event(ev);
            let mut b = bytes;
            out.append(&mut b);
            proof {
                assert(evs.take(k + 1).drop_last() =~= evs.take(k));
                assert(evs.take(k + 1).last() == evs[k]);
            }
            let ghost a_before = self.queue.avail_idx;
            let ghost ring_before = self.queue.avail_ring@;
            assert(id == pending_id(u0, k, qn, used_ids@));
            self.queue.recycle(id);
            proof {
                assert(ring_before == ring_after(o.queue.avail_ring@, o.queue.avail_idx, u0, qn, used_ids@, k));
                assert(a_before as int == idx_add(o.queue.avail_idx, k));
                assert(self.queue.avail_ring@ =~= ring_before.update(a_before as int % qn, id as u16));
                assert(ring_after(o.queue.avail_ring@, o.queue.avail_idx, u0, qn, used_ids@, k + 1)
                    == ring_after(o.queue.avail_ring@, o.queue.avail_idx, u0, qn, used_ids@, k).update(
                    idx_add(o.queue.avail_idx, k) % qn, pending_id(u0, k, qn, used_ids@) as u16));
                assert(idx_add(idx_add(o.queue.avail_idx, k) as u16, 1) == idx_add(o.queue.avail_idx, k + 1));
                k = k + 1;
            }
        }
        proof {
            lemma_idx_step(u0, dev_idx, k);
            assert(evs.take(count) =~= evs);
        }
        Some(out)
    }
}

/// `x + d`, clamped to the range of `usize`.
pub open spec fn spec_sat_add_signed(x: usize, d: int) -> int {
    if x + d < 0 {
        0
    } else if x + d > usize::MAX {
        usize::MAX as int
    } else {
        x + d
    }
}

/// The signed value of a relative event's 32-bit payload.
pub open spec fn spec_rel_delta(v: u32) -> int {
    if v < 0x8000_0000 {
        v as int
    } else {
        v - 0x1_0000_0000
    }
}

/// A wheel turn, with the pointer position at that moment: the console
/// scrolls by `delta` and the cursor is redrawn at `(x, y)`.
#[derive(Clone, Copy, Debug, PartialEq, Eq, Structural)]
pub struct Wheel {
    pub delta: isize,
    pub x: usize,
    pub y: usize,
}

/// The pointer position after one event, whether it moved, and the wheel
/// turn it makes, if any.
pub open spec fn spec_mouse_event(x: usize, y: usize, ev: InputEvent) -> (usize, usize, bool, Option<Wheel>) {
    if ev.type_ != EV_REL {
        (x, y, false, None)
    } else {
        let d = spec_rel_delta(ev.value);
        if ev.code == REL_X {
            (spec_sat_add_signed(x, d) as usize, y, true, None)
        } else if ev.code == REL_Y {
            (x, spec_sat_add_signed(y, d) as usize, true, None)
        } else if ev.code == REL_WHEEL {
            (x, y, false, Some(Wheel { delta: d as isize, x, y }))
        } else {
            (x, y, false, None)
        }
    }
}

/// The pointer position after a run of events, whether any moved it, and
/// the wheel turns in order.
pub open spec fn spec_mouse_run(x: usize, y: usize, evs: Seq<InputEvent>) -> (usize, usize, bool, Seq<Wheel>)
    decreases evs.len(),
{
    if evs.len() == 0 {
        (x, y, false, Seq::empty())
    } else {
        let (x1, y1, m1, w1) = spec_mouse_run(x, y, evs.drop_last());
        let (x2, y2, m2, w2) = spec_mouse_event(x1, y1, evs.last());
        (x2, y2, m1 || m2, match w2 {
            Some(w) => w1.push(w),
            None => w1,
        })
    }
}

/// What a mouse interrupt asks of the caller: scroll and redraw for each
/// wheel turn, then redraw the cursor if the pointer moved.
pub struct MouseWork {
    pub wheels: Vec<Wheel>,
    pub moved: bool,
}

/// The mouse: its receive queue, the pointer position, and the cursor
/// drawn on the display with the pixels it covers.
pub struct Mouse {
    pub queue: InputQueue,
    pub x: usize,
    pub y: usize,
    /// The pixels under the cursor, row by row with `CUR_W` to a row.
    pub cursor_under: Vec<u32>,
    pub cursor_ox: usize,
    pub cursor_oy: usize,
    pub cursor_w: usize,
    pub cursor_h: usize,
    pub cursor_drawn: bool,
}

pub fn rel_delta(v: u32) -> (d: isize)
    ensures
        d == spec_rel_delta(v),
{
    let d32: i32 = if v < 0x8000_0000 {
        v as i32
    } else {
        (v - 0x8000_0000) as i32 - 0x4000_0000 - 0x4000_0000
    };
    d32 as isize
}

pub fn sat_add_signed(x: usize, d: isize) -> (r: usize)
    ensures
        r == spec_sat_add_signed(x, d as int),
{
    if d >= 0 {
        x.saturating_add(d as usize)
    } else {
        let m: usize = ((-(d + 1)) as usize) + 1;
        x.saturating_sub(m)
    }
}

impl Mouse {
    pub fn new_uninit() -> (m: Self)
        ensures
            !m.queue.inited,
            m.queue.avail_ring@.len() == QNUM,
            m.x == 0,
            m.y == 0,
            m.wf(),
            !m.cursor_drawn,
            m.cursor_ox == 0 && m.cursor_oy == 0 && m.cursor_w == 0 && m.cursor_h == 0,
            forall|i: int| 0 <= i < CUR_W * CUR_H ==> #[trigger] m.cursor_under@[i] == 0,
    {
        Mouse {
            queue: InputQueue::new_uninit(),
            x: 0,
            y: 0,
            cursor_under: vec![0u32; 256],
            cursor_ox: 0,
            cursor_oy: 0,
            cursor_w: 0,
            cursor_h: 0,
            cursor_drawn: false,
        }
    }

    /// Applies one input event to the pointer position.
    pub fn handle_event(&mut self, ev: InputEvent) -> (r: (bool, Option<Wheel>))
        ensures
            (final(self).x, final(self).y, r.0, r.1) == spec_mouse_event(old(self).x, old(self).y, ev),
            final(self).queue == old(self).queue,
    {
        if ev.type_ != EV_REL {
            return (false, None);
        }
        let d = rel_delta(ev.value);
        if ev.code == REL_X {
            self.x = sat_add_signed(self.x, d);
            (true, None)
        } else if ev.code == REL_Y {
            self.y = sat_add_signed(self.y, d);
            (true, None)
        } else if ev.code == REL_WHEEL {
            (false, Some(Wheel { delta: d, x: self.x, y: self.y }))
        } else {
            (false, None)
        }
    }

    /// Handles a mouse interrupt: consumes every event the device has
    /// returned up to its used index `dev_idx`, offers each buffer again,
    /// and says what the display must do. `None`: the device is not set up
    /// yet; the caller sets it up (`InputQueue::init`) and, if that
    /// succeeded, calls again.
    #[verifier::rlimit(90)]
    pub fn intr(&mut self, dev_idx: u16, used_ids: &[u32], events: &[InputEvent]) -> (r: Option<MouseWork>)
        requires
            device_ok(old(self).queue, used_ids@, events@),
        ensures
            !old(self).queue.inited <==> r is None,
            !old(self).queue.inited ==> *final(self) == *old(self),
            r matches Some(work) ==> {
                let evs = pending_events(old(self).queue.used_idx, dev_idx, old(self).queue.qnum as int, used_ids@, events@);
                &&& (final(self).x, final(self).y, work.moved, work.wheels@) == spec_mouse_run(old(self).x, old(self).y, evs)
                &&& queue_drained(old(self).queue, final(self).queue, dev_idx, used_ids@)
            },
    {
        let mut wheels: Vec<Wheel> = Vec::new();
        let mut moved = false;
        if !self.queue.inited {
            return None;
        }
        let ghost o = *self;
        let ghost u0 = self.queue.used_idx;
        let ghost qn = self.queue.qnum as int;
        let ghost count = pending_count(u0, dev_idx);
        let ghost evs = pending_events(u0, dev_idx, qn, used_ids@, events@);
        let qnum = self.queue.qnum as usize;
        let ghost mut k: int = 0;
        assert(evs.take(0) =~= Seq::<InputEvent>::empty());
        assert(wheels@ =~= Seq::<Wheel>::empty());
        proof {
            lemma_idx_step(u0, dev_idx, 0);
        }
        while self.queue.used_idx != dev_idx
            invariant
                device_ok(self.queue, used_ids@, events@),
                self.queue.inited,
                self.queue.qnum == o.queue.qnum,
                qnum == qn,
                qnum == self.queue.qnum,
                0 < qnum <= QNUM,
                used_ids@.len() >= qnum,
                events@.len() <= QNUM,
                forall|s: int| 0 <= s < qnum ==> #[trigger] used_ids@[s] < events@.len(),
                0 <= k <= count,
                count == pending_count(u0, dev_idx),
                evs == pending_events(u0, dev_idx, qn, used_ids@, events@),
                self.queue.used_idx == idx_add(u0, k),
                self.queue.avail_idx == idx_add(o.queue.avail_idx, k),
                self.queue.avail_ring@ == ring_after(o.queue.avail_ring@, o.queue.avail_idx, u0, qn, used_ids@, k),
                (self.x, self.y, moved, wheels@) == spec_mouse_run(o.x, o.y, evs.take(k)),
            decreases count - k,
        {
            proof {
                lemma_idx_step(u0, dev_idx, k);
            }
            let slot = (self.queue.used_idx as usize) % qnum;
            let id = used_ids[slot];
            let ev = events[id as usize];
            assert(ev == evs[k]);
            let (mv, wh) = self.handle_event(ev);
            moved = moved || mv;
            match wh {
                Some(w) => {
                    wheels.push(w);
                },
                None => {},
            }
            proof {
                assert(evs.take(k + 1).drop_last() =~= evs.take(k));
                assert(evs.take(k + 1).last() == evs[k]);
            }
            let ghost a_before = self.queue.avail_idx;
            let ghost ring_before = self.queue.avail_ring@;
            assert(id == pending_id(u0, k, qn, used_ids@));
            self.queue.recycle(id);
            proof {
                assert(ring_before == ring_after(o.queue.avail_ring@, o.queue.avail_idx, u0, qn, used_ids@, k));
                assert(a_before as int == idx_add(o.queue.avail_idx, k));
                assert(self.queue.avail_ring@ =~= ring_before.update(a_before as int % qn, id as u16));
                assert(ring_after(o.queue.avail_ring@, o.queue.avail_idx, u0, qn, used_ids@, k + 1)
                    == ring_after(o.queue.avail_ring@, o.queue.avail_idx, u0, qn, used_ids@, k).update(
                    idx_add(o.queue.avail_idx, k) % qn, pending_id(u0, k, qn, used_ids@) as u16));
                assert(idx_add(idx_add(o.queue.avail_idx, k) as u16, 1) == idx_add(o.queue.avail_idx, k + 1));
                k = k + 1;
            }
        }
        proof {
            lemma_idx_step(u0, dev_idx, k);
            assert(evs.take(count) =~= evs);
        }
        Some(MouseWork { wheels, moved })
    }
}

/// Where the cursor is drawn for a pointer at `(x, y)` on a `w` by `h`
/// display: its hot spot two pixels in, clipped to the display.
pub open spec fn spec_cursor_rect(x: usize, y: usize, w: usize, h: usize) -> (usize, usize, usize, usize) {
    let nx = if x < CUR_CX { 0 } else { x - CUR_CX };
    let ny = if y < CUR_CY { 0 } else { y - CUR_CY };
    let wm = if w < 1 { 0 } else { w - 1 };
    let hm = if h < 1 { 0 } else { h - 1 };
    let ox = if nx < wm { nx } else { wm };
    let oy = if ny < hm { ny } else { hm };
    let cw = if CUR_W < w - ox { CUR_W as int } else { w - ox };
    let ch = if CUR_H < h - oy { CUR_H as int } else { h - oy };
    (ox as usize, oy as usize, cw as usize, ch as usize)
}

pub const CUR_CX: usize = 2;
pub const CUR_CY: usize = 2;
pub const CUR_W: usize = 16;
pub const CUR_H: usize = 16;

/// The cursor's rectangle for a pointer at `(x, y)` on a `w` by `h`
/// display.
pub fn cursor_rect(x: usize, y: usize, w: usize, h: usize) -> (r: (usize, usize, usize, usize))
    ensures
        r == spec_cursor_rect(x, y, w, h),
        w > 0 ==> r.0 < w && r.0 + r.2 <= w,
        h > 0 ==> r.1 < h && r.1 + r.3 <= h,
        r.2 <= CUR_W && r.3 <= CUR_H,
{
    let nx = x.saturating_sub(CUR_CX);
    let ny = y.saturating_sub(CUR_CY);
    let ox = if nx < w.saturating_sub(1) { nx } else { w.saturating_sub(1) };
    let oy = if ny < h.saturating_sub(1) { ny } else { h.saturating_sub(1) };
    let cw = if CUR_W < w.saturating_sub(ox) { CUR_W } else { w.saturating_sub(ox) };
    let ch = if CUR_H < h.saturating_sub(oy) { CUR_H } else { h.saturating_sub(oy) };
    (ox, oy, cw, ch)
}

/// The smallest rectangle holding rectangles `a` and `b`, each given as
/// `(x, y, width, height)`.
pub open spec fn spec_rect_union(a: (usize, usize, usize, usize), b: (usize, usize, usize, usize)) -> (usize, usize, usize, usize) {
    let x0 = if a.0 < b.0 { a.0 } else { b.0 };
    let y0 = if a.1 < b.1 { a.1 } else { b.1 };
    let x1 = if a.0 + a.2 > b.0 + b.2 { a.0 + a.2 } else { b.0 + b.2 };
    let y1 = if a.1 + a.3 > b.1 + b.3 { a.1 + a.3 } else { b.1 + b.3 };
    (x0, y0, (x1 - x0) as usize, (y1 - y0) as usize)
}

/// The area to flush after moving the cursor from `old` (if it was drawn)
/// to `new`.
pub fn flush_area(old: Option<(usize, usize, usize, usize)>, new: (usize, usize, usize, usize)) -> (r: (usize, usize, usize, usize))
    requires
        old matches Some(a) ==> a.0 + a.2 <= usize::MAX && a.1 + a.3 <= usize::MAX,
        new.0 + new.2 <= usize::MAX,
        new.1 + new.3 <= usize::MAX,
    ensures
        r == (match old {
            None => new,
            Some(a) => spec_rect_union(a, new),
        }),
{
    match old {
        None => new,
        Some(a) => {
            let x0 = if a.0 < new.0 { a.0 } else { new.0 };
            let y0 = if a.1 < new.1 { a.1 } else { new.1 };
            let x1 = if a.0 + a.2 > new.0 + new.2 { a.0 + a.2 } else { new.0 + new.2 };
            let y1 = if a.1 + a.3 > new.1 + new.3 { a.1 + a.3 } else { new.1 + new.3 };
            (x0, y0, x1 - x0, y1 - y0)
        },
    }
}


/// Row `r` of the cursor's outline: bit `xx` is set where column `xx` is
/// drawn in the outline colour.
pub open spec fn outline_row(r: int) -> u16 {
    if r == 0 {
        0x0001
    } else if r == 1 {
        0x0003
    } else if r == 2 {
        0x0005
    } else if r == 3 {
        0x0009
    } else if r == 4 {
        0x0011
    } else if r == 5 {
        0x0021
    } else if r == 6 {
        0x0041
    } else if r == 7 {
        0x0081
    } else if r == 8 {
        0x0101
    } else if r == 9 {
        0x03E1
    } else if r == 10 {
        0x0049
    } else if r == 11 {
        0x0043
    } else if r == 12 {
        0x0040
    } else if r == 13 {
        0x0040
    } else if r == 14 {
        0x0040
    } else {
        0x0000
    }
}

/// Row `r` of the cursor's inside: bit `xx` is set where column `xx` is
/// drawn in the fill colour.
pub open spec fn fill_row(r: int) -> u16 {
    if r == 0 {
        0x0000
    } else if r == 1 {
        0x0000
    } else if r == 2 {
        0x0002
    } else if r == 3 {
        0x0006
    } else if r == 4 {
        0x000E
    } else if r == 5 {
        0x001E
    } else if r == 6 {
        0x003E
    } else if r == 7 {
        0x007E
    } else if r == 8 {
        0x00FE
    } else if r == 9 {
        0x001E
    } else if r == 10 {
        0x0006
    } else if r == 11 {
        0x0000
    } else if r == 12 {
        0x0000
    } else if r == 13 {
        0x0000
    } else if r == 14 {
        0x0000
    } else {
        0x0000
    }
}

fn outline_bits(r: usize) -> (b: u16)
    ensures
        b == outline_row(r as int),
{
    if r == 0 {
        0x0001
    } else if r == 1 {
        0x0003
    } else if r == 2 {
        0x0005
    } else if r == 3 {
        0x0009
    } else if r == 4 {
        0x0011
    } else if r == 5 {
        0x0021
    } else if r == 6 {
        0x0041
    } else if r == 7 {
        0x0081
    } else if r == 8 {
        0x0101
    } else if r == 9 {
        0x03E1
    } else if r == 10 {
        0x0049
    } else if r == 11 {
        0x0043
    } else if r == 12 {
        0x0040
    } else if r == 13 {
        0x0040
    } else if r == 14 {
        0x0040
    } else {
        0x0000
    }
}

fn fill_bits(r: usize) -> (b: u16)
    ensures
        b == fill_row(r as int),
{
    if r == 0 {
        0x0000
    } else if r == 1 {
        0x0000
    } else if r == 2 {
        0x0002
    } else if r == 3 {
        0x0006
    } else if r == 4 {
        0x000E
    } else if r == 5 {
        0x001E
    } else if r == 6 {
        0x003E
    } else if r == 7 {
        0x007E
    } else if r == 8 {
        0x00FE
    } else if r == 9 {
        0x001E
    } else if r == 10 {
        0x0006
    } else if r == 11 {
        0x0000
    } else if r == 12 {
        0x0000
    } else if r == 13 {
        0x0000
    } else if r == 14 {
        0x0000
    } else {
        0x0000
    }
}

/// What the cursor puts at its own pixel `(xx, yy)`: `Some(true)` for the
/// fill colour, `Some(false)` for the outline colour, `None` where the
/// display shows through.
pub open spec fn cursor_shape(xx: int, yy: int) -> Option<bool> {
    let bit = 1u16 << (xx as u16);
    if (fill_row(yy) & bit) != 0 {
        Some(true)
    } else if (outline_row(yy) & bit) != 0 {
        Some(false)
    } else {
        None
    }
}

/// The colour of a pixel with cursor shape `s` over a pixel `under`.
pub open spec fn shaded(s: Option<bool>, main: u32, dim: u32, under: u32) -> u32 {
    match s {
        Some(true) => main,
        Some(false) => dim,
        None => under,
    }
}

/// Where pixel `(xx, yy)` of the cursor's rectangle is kept in the block
/// of saved pixels.
pub open spec fn under_idx(xx: int, yy: int) -> int {
    yy * (CUR_W as int) + xx
}

impl Mouse {
    pub open spec fn wf(&self) -> bool {
        &&& self.cursor_under@.len() == CUR_W * CUR_H
        &&& self.cursor_w <= CUR_W && self.cursor_h <= CUR_H
    }

    /// The rectangle of a drawn cursor lies on a `w` by `h` display.
    pub open spec fn block_fits(&self, w: int, h: int) -> bool {
        self.cursor_drawn ==> self.cursor_ox + self.cursor_w <= w && self.cursor_oy + self.cursor_h <= h
    }

    /// A cursor is on the display, covering some pixels.
    pub open spec fn has_block(&self) -> bool {
        self.cursor_drawn && self.cursor_w != 0 && self.cursor_h != 0
    }

    /// The rectangle `(x, y, w, h)` the cursor was last drawn in.
    pub open spec fn block_rect(&self) -> (usize, usize, usize, usize) {
        (self.cursor_ox, self.cursor_oy, self.cursor_w, self.cursor_h)
    }

    /// Pixel `(x, y)` of framebuffer `fb` once the pixels saved under the
    /// cursor are put back.
    pub open spec fn restored(&self, fb: Seq<u32>, stride: int, x: int, y: int) -> u32 {
        let ox = self.cursor_ox as int;
        let oy = self.cursor_oy as int;
        if self.has_block() && in_rect(x, y, ox, ox + self.cursor_w, oy, oy + self.cursor_h) {
            self.cursor_under@[under_idx(x - ox, y - oy)]
        } else {
            fb[pix(stride, x, y)]
        }
    }
}


/// The `rw` by `rh` rectangle at `(rx, ry)` as seen by `in_rect`.
pub open spec fn in_block(x: int, y: int, rx: int, ry: int, rw: int, rh: int) -> bool {
    in_rect(x, y, rx, rx + rw, ry, ry + rh)
}

/// Writes the saved block back into the `rw` by `rh` rectangle at
/// `(rx, ry)`.
fn put_block(g: &mut Gpu, block: &Vec<u32>, rx: usize, ry: usize, rw: usize, rh: usize)
    requires
        old(g).wf(),
        block@.len() == CUR_W * CUR_H,
        rw <= CUR_W && rh <= CUR_H,
        rx + rw <= old(g).width,
        ry + rh <= old(g).height,
    ensures
        final(g).wf(),
        *final(g) == (Gpu { fb: final(g).fb, ..*old(g) }),
        final(g).fb@.len() == old(g).fb@.len(),
        forall|x: int, y: int|
            0 <= x < old(g).stride && 0 <= y < old(g).height ==> #[trigger] final(g).fb@[pix(old(g).stride as int, x, y)]
                == (if in_block(x, y, rx as int, ry as int, rw as int, rh as int) {
                block@[under_idx(x - rx, y - ry)]
            } else {
                old(g).fb@[pix(old(g).stride as int, x, y)]
            }),
{
    let stride = g.stride;
    let height = g.height;
    let ghost old_fb = g.fb@;
    let mut yy: usize = 0;
    while yy < rh
        invariant
            g.wf(),
            g.stride == stride && g.height == height,
            rx + rw <= g.width,
            ry + rh <= height,
            block@.len() == CUR_W * CUR_H,
            rw <= CUR_W && rh <= CUR_H,
            0 <= yy <= rh,
            g.fb@.len() == old_fb.len(),
            forall|x: int, y: int|
                0 <= x < stride && 0 <= y < height ==> #[trigger] g.fb@[pix(stride as int, x, y)] == (if in_block(
                    x,
                    y,
                    rx as int,
                    ry as int,
                    rw as int,
                    yy as int,
                ) {
                    block@[under_idx(x - rx, y - ry)]
                } else {
                    old_fb[pix(stride as int, x, y)]
                }),
            *g == (Gpu { fb: g.fb, ..*old(g) }),
        decreases rh - yy,
    {
        let mut xx: usize = 0;
        while xx < rw
            invariant
                g.wf(),
                g.stride == stride && g.height == height,
                rx + rw <= g.width,
                ry + rh <= height,
                block@.len() == CUR_W * CUR_H,
                rw <= CUR_W && rh <= CUR_H,
                0 <= yy < rh,
                0 <= xx <= rw,
                g.fb@.len() == old_fb.len(),
                forall|x: int, y: int|
                    0 <= x < stride && 0 <= y < height ==> #[trigger] g.fb@[pix(stride as int, x, y)] == (if in_block(
                        x,
                        y,
                        rx as int,
                        ry as int,
                        rw as int,
                        yy as int,
                    ) || in_block(x, y, rx as int, (ry + yy) as int, xx as int, 1) {
                        block@[under_idx(x - rx, y - ry)]
                    } else {
                        old_fb[pix(stride as int, x, y)]
                    }),
                *g == (Gpu { fb: g.fb, ..*old(g) }),
            decreases rw - xx,
        {
            let ghost before = g.fb@;
            let v = block[yy * CUR_W + xx];
            put_pixel(g, rx + xx, ry + yy, v);
            proof {
                let px = (rx + xx) as int;
                let py = (ry + yy) as int;
                lemma_pix_bounds(stride as int, height as int, px, py);
                assert forall|x: int, y: int| 0 <= x < stride && 0 <= y < height implies #[trigger] g.fb@[pix(
                    stride as int,
                    x,
                    y,
                )] == (if in_block(x, y, rx as int, ry as int, rw as int, yy as int) || in_block(
                    x,
                    y,
                    rx as int,
                    py,
                    xx + 1,
                    1,
                ) {
                    block@[under_idx(x - rx, y - ry)]
                } else {
                    old_fb[pix(stride as int, x, y)]
                }) by {
                    lemma_pix_bounds(stride as int, height as int, x, y);
                    if x != px || y != py {
                        lemma_pix_injective(stride as int, x, y, px, py);
                        assert(before.update(pix(stride as int, px, py), v)[pix(stride as int, x, y)]
                            == before[pix(stride as int, x, y)]);
                    }
                }
            }
            xx = xx + 1;
        }
        yy = yy + 1;
    }
}


/// Paints the cursor into the `rw` by `rh` rectangle at `(rx, ry)`:
/// `main` inside it, `dim` on its outline, nothing where it is
/// see-through.
fn paint_cursor(g: &mut Gpu, rx: usize, ry: usize, rw: usize, rh: usize, main: u32, dim: u32)
    requires
        old(g).wf(),
        rw <= CUR_W && rh <= CUR_H,
        rx + rw <= old(g).width,
        ry + rh <= old(g).height,
    ensures
        final(g).wf(),
        *final(g) == (Gpu { fb: final(g).fb, ..*old(g) }),
        final(g).fb@.len() == old(g).fb@.len(),
        forall|x: int, y: int|
            0 <= x < old(g).stride && 0 <= y < old(g).height ==> #[trigger] final(g).fb@[pix(old(g).stride as int, x, y)]
                == (if in_block(x, y, rx as int, ry as int, rw as int, rh as int) {
                shaded(cursor_shape(x - rx, y - ry), main, dim, old(g).fb@[pix(old(g).stride as int, x, y)])
            } else {
                old(g).fb@[pix(old(g).stride as int, x, y)]
            }),
{
    let stride = g.stride;
    let height = g.height;
    let ghost old_fb = g.fb@;
    let mut yy: usize = 0;
    while yy < rh
        invariant
            g.wf(),
            g.stride == stride && g.height == height,
            rx + rw <= g.width,
            ry + rh <= height,
            rw <= CUR_W && rh <= CUR_H,
            0 <= yy <= rh,
            g.fb@.len() == old_fb.len(),
            forall|x: int, y: int|
                0 <= x < stride && 0 <= y < height ==> #[trigger] g.fb@[pix(stride as int, x, y)] == (if in_block(
                    x,
                    y,
                    rx as int,
                    ry as int,
                    rw as int,
                    yy as int,
                ) {
                    shaded(cursor_shape(x - rx, y - ry), main, dim, old_fb[pix(stride as int, x, y)])
                } else {
                    old_fb[pix(stride as int, x, y)]
                }),
            *g == (Gpu { fb: g.fb, ..*old(g) }),
        decreases rh - yy,
    {
        let orow = outline_bits(yy);
        let frow = fill_bits(yy);
        let mut xx: usize = 0;
        while xx < rw
            invariant
                g.wf(),
                g.stride == stride && g.height == height,
                rx + rw <= g.width,
                ry + rh <= height,
                rw <= CUR_W && rh <= CUR_H,
                0 <= yy < rh,
                0 <= xx <= rw,
                orow == outline_row(yy as int),
                frow == fill_row(yy as int),
                g.fb@.len() == old_fb.len(),
                forall|x: int, y: int|
                    0 <= x < stride && 0 <= y < height ==> #[trigger] g.fb@[pix(stride as int, x, y)] == (if in_block(
                        x,
                        y,
                        rx as int,
                        ry as int,
                        rw as int,
                        yy as int,
                    ) || in_block(x, y, rx as int, (ry + yy) as int, xx as int, 1) {
                        shaded(cursor_shape(x - rx, y - ry), main, dim, old_fb[pix(stride as int, x, y)])
                    } else {
                        old_fb[pix(stride as int, x, y)]
                    }),
                *g == (Gpu { fb: g.fb, ..*old(g) }),
            decreases rw - xx,
        {
            let ghost before = g.fb@;
            let bit: u16 = 1u16 << (xx as u16);
            let f = (frow & bit) != 0;
            let o = (orow & bit) != 0;
            let px = rx + xx;
            let py = ry + yy;
            proof {
                lemma_pix_bounds(stride as int, height as int, px as int, py as int);
                assert(cursor_shape(xx as int, yy as int) == (if f {
                    Some(true)
                } else if o {
                    Some(false)
                } else {
                    None::<bool>
                }));
            }
            if f || o {
                let v = if f { main } else { dim };
                put_pixel(g, px, py, v);
            }
            proof {
                assert forall|x: int, y: int| 0 <= x < stride && 0 <= y < height implies #[trigger] g.fb@[pix(
                    stride as int,
                    x,
                    y,
                )] == (if in_block(x, y, rx as int, ry as int, rw as int, yy as int) || in_block(
                    x,
                    y,
                    rx as int,
                    py as int,
                    xx + 1,
                    1,
                ) {
                    shaded(cursor_shape(x - rx, y - ry), main, dim, old_fb[pix(stride as int, x, y)])
                } else {
                    old_fb[pix(stride as int, x, y)]
                }) by {
                    lemma_pix_bounds(stride as int, height as int, x, y);
                    if x != px || y != py {
                        lemma_pix_injective(stride as int, x, y, px as int, py as int);
                    }
                }
            }
            xx = xx + 1;
        }
        yy = yy + 1;
    }
}

impl Mouse {
    /// Copies the pixels of the `rw` by `rh` rectangle at `(rx, ry)` into
    /// the block kept under the cursor.
    fn save_block(&mut self, g: &Gpu, rx: usize, ry: usize, rw: usize, rh: usize)
        requires
            old(self).wf(),
            g.wf(),
            rw <= CUR_W && rh <= CUR_H,
            rx + rw <= g.width,
            ry + rh <= g.height,
        ensures
            final(self).wf(),
            *final(self) == (Mouse { cursor_under: final(self).cursor_under, ..*old(self) }),
            forall|xx: int, yy: int|
                0 <= xx < CUR_W && 0 <= yy < CUR_H ==> #[trigger] final(self).cursor_under@[under_idx(xx, yy)] == (if xx
                    < rw && yy < rh {
                    g.fb@[pix(g.stride as int, rx + xx, ry + yy)]
                } else {
                    old(self).cursor_under@[under_idx(xx, yy)]
                }),
    {
        let stride = g.stride;
        let ghost old_under = self.cursor_under@;
        assert(g.height * g.stride <= DIM_MAX * DIM_MAX) by (nonlinear_arith)
            requires
                g.height <= DIM_MAX,
                g.stride <= DIM_MAX,
        ;
        let mut yy: usize = 0;
        while yy < rh
            invariant
                g.wf(),
                stride == g.stride,
                rx + rw <= g.width,
                ry + rh <= g.height,
                g.height * g.stride <= DIM_MAX * DIM_MAX,
                rw <= CUR_W && rh <= CUR_H,
                0 <= yy <= rh,
                self.cursor_under@.len() == CUR_W * CUR_H,
                *self == (Mouse { cursor_under: self.cursor_under, ..*old(self) }),
                forall|xx: int, y: int|
                    0 <= xx < CUR_W && 0 <= y < CUR_H ==> #[trigger] self.cursor_under@[under_idx(xx, y)] == (if xx
                        < rw && y < yy {
                        g.fb@[pix(stride as int, rx + xx, ry + y)]
                    } else {
                        old_under[under_idx(xx, y)]
                    }),
            decreases rh - yy,
        {
            let mut xx: usize = 0;
            while xx < rw
                invariant
                    g.wf(),
                    stride == g.stride,
                    rx + rw <= g.width,
                    ry + rh <= g.height,
                    g.height * g.stride <= DIM_MAX * DIM_MAX,
                    rw <= CUR_W && rh <= CUR_H,
                    0 <= yy < rh,
                    0 <= xx <= rw,
                    self.cursor_under@.len() == CUR_W * CUR_H,
                    *self == (Mouse { cursor_under: self.cursor_under, ..*old(self) }),
                    forall|x: int, y: int|
                        0 <= x < CUR_W && 0 <= y < CUR_H ==> #[trigger] self.cursor_under@[under_idx(x, y)] == (if (x
                            < rw && y < yy) || (x < xx && y == yy) {
                            g.fb@[pix(stride as int, rx + x, ry + y)]
                        } else {
                            old_under[under_idx(x, y)]
                        }),
                decreases rw - xx,
            {
                proof {
                    lemma_pix_bounds(stride as int, g.height as int, (rx + xx) as int, (ry + yy) as int);
                }
                let v = g.fb[(ry + yy) * stride + (rx + xx)];
                self.cursor_under.set(yy * CUR_W + xx, v);
                xx = xx + 1;
            }
            yy = yy + 1;
        }
    }
}


impl Mouse {
    /// The area flushed after drawing the cursor in rectangle `r`: `r`
    /// together with the rectangle it was drawn in before, if any.
    pub open spec fn cursor_flush(&self, r: (usize, usize, usize, usize)) -> (usize, usize, usize, usize) {
        if self.has_block() {
            spec_rect_union(self.block_rect(), r)
        } else {
            r
        }
    }

    /// Draws the pointer's cursor: puts back the pixels under the cursor
    /// drawn before, saves the pixels under the new position, paints the
    /// cursor over them, and queues the area covered by both for flushing.
    /// Nothing happens before the display is set up.
    #[verifier::rlimit(60)]
    pub fn draw_cursor(&mut self, g: &mut Gpu)
        requires
            old(self).wf(),
            old(g).wf(),
            old(self).block_fits(old(g).width as int, old(g).height as int),
        ensures
            final(self).wf(),
            final(self).block_fits(final(g).width as int, final(g).height as int),
            final(g).wf(),
            !old(g).inited ==> *final(self) == *old(self) && *final(g) == *old(g),
            old(g).inited ==> ({
                let r = spec_cursor_rect(old(self).x, old(self).y, old(g).width, old(g).height);
                let st = old(g).stride as int;
                let main = old(g).pixel_format.spec_pack_rgba(0, 255, 64, 255);
                let dim = old(g).pixel_format.spec_pack_rgba(0, 90, 24, 255);
                &&& *final(g) == (Gpu { fb: final(g).fb, flushes: final(g).flushes, ..*old(g) })
                &&& final(g).fb@.len() == old(g).fb@.len()
                &&& forall|x: int, y: int|
                    0 <= x < st && 0 <= y < old(g).height ==> #[trigger] final(g).fb@[pix(st, x, y)] == (if in_block(
                        x,
                        y,
                        r.0 as int,
                        r.1 as int,
                        r.2 as int,
                        r.3 as int,
                    ) {
                        shaded(cursor_shape(x - r.0, y - r.1), main, dim, old(self).restored(old(g).fb@, st, x, y))
                    } else {
                        old(self).restored(old(g).fb@, st, x, y)
                    })
                &&& forall|xx: int, yy: int|
                    0 <= xx < CUR_W && 0 <= yy < CUR_H ==> #[trigger] final(self).cursor_under@[under_idx(xx, yy)] == (
                    if xx < r.2 && yy < r.3 {
                        old(self).restored(old(g).fb@, st, r.0 + xx, r.1 + yy)
                    } else {
                        old(self).cursor_under@[under_idx(xx, yy)]
                    })
                &&& *final(self) == (Mouse {
                    cursor_under: final(self).cursor_under,
                    cursor_ox: r.0,
                    cursor_oy: r.1,
                    cursor_w: r.2,
                    cursor_h: r.3,
                    cursor_drawn: true,
                    ..*old(self)
                })
                &&& final(g).flushes@ == old(g).flushes@.push(old(self).cursor_flush(r))
            }),
    {
        if !g.is_inited() {
            return;
        }
        let (w, h, stride, fmt) = match g.info() {
            Some(i) => i,
            None => {
                return;
            },
        };
        if w == 0 || h == 0 {
            return;
        }
        let ghost fb0 = g.fb@;
        let ghost m0 = *self;
        let (ox, oy, cw, ch) = cursor_rect(self.x, self.y, w, h);
        let had = self.cursor_drawn && self.cursor_w != 0 && self.cursor_h != 0;
        let prev = (self.cursor_ox, self.cursor_oy, self.cursor_w, self.cursor_h);
        if had {
            put_block(g, &self.cursor_under, prev.0, prev.1, prev.2, prev.3);
        }
        let ghost fb1 = g.fb@;
        proof {
            assert forall|x: int, y: int| 0 <= x < stride && 0 <= y < h implies #[trigger] fb1[pix(stride as int, x, y)]
                == m0.restored(fb0, stride as int, x, y) by {}
        }
        self.save_block(g, ox, oy, cw, ch);
        let main = fmt.pack_rgba(0, 255, 64, 0xff);
        let dim = fmt.pack_rgba(0, 90, 24, 0xff);
        paint_cursor(g, ox, oy, cw, ch, main, dim);
        proof {
            assert forall|xx: int, yy: int| 0 <= xx < CUR_W && 0 <= yy < CUR_H && xx < cw && yy < ch implies
                #[trigger] self.cursor_under@[under_idx(xx, yy)] == m0.restored(fb0, stride as int, ox + xx, oy + yy) by {
                assert(fb1[pix(stride as int, ox + xx, oy + yy)] == m0.restored(fb0, stride as int, ox + xx, oy + yy));
            }
        }
        self.cursor_ox = ox;
        self.cursor_oy = oy;
        self.cursor_w = cw;
        self.cursor_h = ch;
        self.cursor_drawn = true;
        let area = flush_area(
            if had {
                Some(prev)
            } else {
                None
            },
            (ox, oy, cw, ch),
        );
        proof {
            assert(h * stride > 0) by (nonlinear_arith)
                requires
                    h > 0,
                    stride >= w,
                    w > 0,
            ;
        }
        g.flush_rect(area.0, area.1, area.2, area.3);
    }

    /// Takes the cursor off the display: puts back the pixels it covered
    /// and queues that rectangle for flushing. Nothing happens when no
    /// cursor is drawn or before the display is set up.
    pub fn erase_cursor(&mut self, g: &mut Gpu)
        requires
            old(self).wf(),
            old(g).wf(),
            old(self).block_fits(old(g).width as int, old(g).height as int),
        ensures
            final(self).wf(),
            final(self).block_fits(final(g).width as int, final(g).height as int),
            final(g).wf(),
            !old(self).has_block() || !old(g).inited ==> *final(self) == *old(self) && *final(g) == *old(g),
            old(self).has_block() && old(g).inited ==> ({
                let st = old(g).stride as int;
                &&& *final(g) == (Gpu { fb: final(g).fb, flushes: final(g).flushes, ..*old(g) })
                &&& final(g).fb@.len() == old(g).fb@.len()
                &&& forall|x: int, y: int|
                    0 <= x < st && 0 <= y < old(g).height ==> #[trigger] final(g).fb@[pix(st, x, y)]
                        == old(self).restored(old(g).fb@, st, x, y)
                &&& *final(self) == (Mouse { cursor_drawn: false, ..*old(self) })
                &&& final(g).flushes@ == old(g).flushes@.push(old(self).block_rect())
            }),
    {
        if !self.cursor_drawn || self.cursor_w == 0 || self.cursor_h == 0 {
            return;
        }
        if !g.is_inited() {
            return;
        }
        let (w, h, stride, fmt) = match g.info() {
            Some(i) => i,
            None => {
                return;
            },
        };
        if w == 0 || h == 0 {
            return;
        }
        put_block(g, &self.cursor_under, self.cursor_ox, self.cursor_oy, self.cursor_w, self.cursor_h);
        proof {
            assert(h * stride > 0) by (nonlinear_arith)
                requires
                    h > 0,
                    stride >= w,
                    w > 0,
            ;
        }
        g.flush_rect(self.cursor_ox, self.cursor_oy, self.cursor_w, self.cursor_h);
        self.cursor_drawn = false;
    }
}


/// Caps lock and shift each flip the case of letters: a letter key types
/// its upper-case letter exactly when one of the two is on, its lower-case
/// letter when both or neither are, and the two upper-case ways agree.
/// Other keys ignore caps lock.
pub proof fn law_caps_lock_flips_letters(m: KeyMods, code: u16)
    ensures
        spec_is_letter_key(code) ==> ({
            let r = spec_key_to_ascii(m, code);
            let flipped = spec_key_to_ascii(KeyMods { caps: !m.caps, ..m }, code);
            &&& r is Some && flipped is Some
            &&& m.shift != m.caps ==> 0x41 <= r->0 <= 0x5a && flipped->0 == r->0 + 32
            &&& m.shift == m.caps ==> 0x61 <= r->0 <= 0x7a && flipped->0 + 32 == r->0
            &&& spec_key_to_ascii(KeyMods { shift: !m.shift, caps: !m.caps, ..m }, code) == r
        }),
        !spec_is_letter_key(code) ==> spec_key_to_ascii(KeyMods { caps: !m.caps, ..m }, code) == spec_key_to_ascii(m, code),
{
    if spec_is_letter_key(code) {
        let p = spec_key_pair(code)->0;
        assert(p.1 + 32 == p.0);
    }
}

} // verus!
