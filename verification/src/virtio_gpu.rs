use vstd::prelude::*;
use crate::util::{min_usize, spec_min};

verus! {

pub const VIRTIO_ID_GPU: u32 = 16;

pub const CMD_GET_DISPLAY_INFO: u32 = 0x0100;
pub const CMD_RESOURCE_CREATE_2D: u32 = 0x0101;
pub const CMD_SET_SCANOUT: u32 = 0x0103;
pub const CMD_RESOURCE_FLUSH: u32 = 0x0104;
pub const CMD_TRANSFER_TO_HOST_2D: u32 = 0x0105;
pub const CMD_RESOURCE_ATTACH_BACKING: u32 = 0x0106;

pub const RESP_OK_NODATA: u32 = 0x1100;
pub const RESP_OK_DISPLAY_INFO: u32 = 0x1101;

pub const FORMAT_B8G8R8A8_UNORM: u32 = 1;
pub const FORMAT_B8G8R8X8_UNORM: u32 = 2;
pub const FORMAT_R8G8B8X8_UNORM: u32 = 3;

pub const VIRTQ_DESC_F_NEXT: u16 = 0b0001;
pub const VIRTQ_DESC_F_WRITE: u16 = 0b0010;

/// Descriptors in the control queue.
pub const QNUM: usize = 8;

/// Largest scanout width or height handled.
pub const DIM_MAX: usize = 16384;

#[derive(Clone, Copy, Debug, PartialEq, Eq, Structural)]
pub enum PixelFormat {
    Bgrx8888,
    Rgbx8888,
    Bgra8888,
}

impl PixelFormat {
    pub open spec fn spec_from_virtio_format(fmt: u32) -> Option<PixelFormat> {
        if fmt == FORMAT_B8G8R8X8_UNORM {
            Some(PixelFormat::Bgrx8888)
        } else if fmt == FORMAT_R8G8B8X8_UNORM {
            Some(PixelFormat::Rgbx8888)
        } else if fmt == FORMAT_B8G8R8A8_UNORM {
            Some(PixelFormat::Bgra8888)
        } else {
            None
        }
    }

    pub fn from_virtio_format(fmt: u32) -> (r: Option<Self>)
        ensures
            r == Self::spec_from_virtio_format(fmt),
    {
        match fmt {
            FORMAT_B8G8R8X8_UNORM => Some(Self::Bgrx8888),
            FORMAT_R8G8B8X8_UNORM => Some(Self::Rgbx8888),
            FORMAT_B8G8R8A8_UNORM => Some(Self::Bgra8888),
            _ => None,
        }
    }

    /// The pixel word, little-endian in memory: alpha in the top byte, and
    /// red and blue placed as the format orders them.
    pub open spec fn spec_pack_rgba(self, r: u8, g: u8, b: u8, a: u8) -> u32 {
        match self {
            PixelFormat::Rgbx8888 => ((a as u32) << 24u32) | ((b as u32) << 16u32) | ((g as u32) << 8u32) | (r as u32),
            _ => ((a as u32) << 24u32) | ((r as u32) << 16u32) | ((g as u32) << 8u32) | (b as u32),
        }
    }

    pub fn pack_rgba(self, r: u8, g: u8, b: u8, a: u8) -> (p: u32)
        ensures
            p == self.spec_pack_rgba(r, g, b, a),
    {
        match self {
            Self::Bgrx8888 => ((a as u32) << 24) | ((r as u32) << 16) | ((g as u32) << 8) | (b as u32),
            Self::Rgbx8888 => ((a as u32) << 24) | ((b as u32) << 16) | ((g as u32) << 8) | (r as u32),
            Self::Bgra8888 => ((a as u32) << 24) | ((r as u32) << 16) | ((g as u32) << 8) | (b as u32),
        }
    }
}

#[derive(Clone, Copy)]
pub struct VirtqDesc {
    pub addr: u64,
    pub len: u32,
    pub flags: u16,
    pub next: u16,
}

impl VirtqDesc {
    pub fn new() -> (d: Self)
        ensures
            d.addr == 0 && d.len == 0 && d.flags == 0 && d.next == 0,
    {
        Self { addr: 0, len: 0, flags: 0, next: 0 }
    }
}

/// Number of descriptors in `d` that still chain onward.
pub open spec fn chained(d: Seq<VirtqDesc>) -> nat
    decreases d.len(),
{
    if d.len() == 0 {
        0
    } else {
        chained(d.drop_last()) + (if d.last().flags & VIRTQ_DESC_F_NEXT != 0 { 1nat } else { 0nat })
    }
}

pub proof fn lemma_chained_update(d: Seq<VirtqDesc>, i: int, v: VirtqDesc)
    requires
        0 <= i < d.len(),
    ensures
        chained(d.update(i, v)) + (if d[i].flags & VIRTQ_DESC_F_NEXT != 0 { 1int } else { 0int })
            == chained(d) + (if v.flags & VIRTQ_DESC_F_NEXT != 0 { 1int } else { 0int }),
    decreases d.len(),
{
    if i == d.len() - 1 {
        assert(d.update(i, v).drop_last() =~= d.drop_last());
    } else {
        lemma_chained_update(d.drop_last(), i, v);
        assert(d.update(i, v).drop_last() =~= d.drop_last().update(i, v));
    }
}

/// The descriptor table of the control queue and which entries are free.
pub struct GpuQueue {
    pub desc: Vec<VirtqDesc>,
    pub free: Vec<bool>,
    pub avail_idx: u16,
    pub used_idx: u16,
}

impl GpuQueue {
    pub open spec fn wf(&self) -> bool {
        self.desc@.len() == QNUM && self.free@.len() == QNUM
    }

    pub fn new() -> (q: Self)
        ensures
            q.wf(),
            forall|i: int| 0 <= i < QNUM ==> #[trigger] q.free@[i],
            forall|i: int| 0 <= i < QNUM ==> (#[trigger] q.desc@[i]) == (VirtqDesc { addr: 0, len: 0, flags: 0, next: 0 }),
            q.avail_idx == 0 && q.used_idx == 0,
    {
        let mut desc: Vec<VirtqDesc> = Vec::new();
        let mut free: Vec<bool> = Vec::new();
        let mut i: usize = 0;
        while i < QNUM
            invariant
                0 <= i <= QNUM,
                desc@.len() == i,
                free@.len() == i,
                forall|k: int| 0 <= k < i ==> #[trigger] free@[k],
                forall|k: int| 0 <= k < i ==> (#[trigger] desc@[k]) == (VirtqDesc { addr: 0, len: 0, flags: 0, next: 0 }),
            decreases QNUM - i,
        {
            desc.push(VirtqDesc::new());
            free.push(true);
            i = i + 1;
        }
        GpuQueue { desc, free, avail_idx: 0, used_idx: 0 }
    }

    /// Takes the lowest-numbered free descriptor.
    pub fn alloc_desc(&mut self) -> (r: Option<usize>)
        requires
            old(self).wf(),
        ensures
            final(self).wf(),
            final(self).desc@ == old(self).desc@,
            r is None <==> forall|i: int| 0 <= i < QNUM ==> !(#[trigger] old(self).free@[i]),
            r is None ==> final(self).free@ == old(self).free@,
            r matches Some(i) ==> i < QNUM && old(self).free@[i as int] && (forall|j: int|
                0 <= j < i ==> !(#[trigger] old(self).free@[j])) && final(self).free@ == old(self).free@.update(
                i as int,
                false,
            ),
    {
        let mut i: usize = 0;
        while i < QNUM
            invariant
                self.wf(),
                self.free@ == old(self).free@,
                self.desc@ == old(self).desc@,
                0 <= i <= QNUM,
                forall|j: int| 0 <= j < i ==> !(#[trigger] self.free@[j]),
            decreases QNUM - i,
        {
            if self.free[i] {
                self.free.set(i, false);
                return Some(i);
            }
            i = i + 1;
        }
        None
    }

    pub fn free_desc(&mut self, i: usize)
        requires
            old(self).wf(),
            i < QNUM,
        ensures
            final(self).wf(),
            final(self).desc@ == old(self).desc@.update(i as int, VirtqDesc { addr: 0, len: 0, flags: 0, next: 0 }),
            final(self).free@ == old(self).free@.update(i as int, true),
    {
        self.desc.set(i, VirtqDesc::new());
        self.free.set(i, true);
    }

    /// Frees the chain that starts at `i`, following `next` while the
    /// `NEXT` flag is set.
    pub fn free_chain(&mut self, i: usize)
        requires
            old(self).wf(),
            i < QNUM,
            forall|k: int| 0 <= k < QNUM ==> (#[trigger] old(self).desc@[k]).next < QNUM,
        ensures
            final(self).wf(),
            final(self).free@[i as int],
            final(self).desc@[i as int].flags == 0,
    {
        let mut cur = i;
        loop
            invariant
                self.wf(),
                cur < QNUM,
                i < QNUM,
                forall|k: int| 0 <= k < QNUM ==> (#[trigger] self.desc@[k]).next < QNUM,
                cur != i ==> self.free@[i as int] && self.desc@[i as int].flags == 0,
            decreases chained(self.desc@),
        {
            let flags = self.desc[cur].flags;
            let next = self.desc[cur].next as usize;
            let ghost before = self.desc@;
            self.free_desc(cur);
            proof {
                lemma_chained_update(before, cur as int, VirtqDesc { addr: 0, len: 0, flags: 0, next: 0 });
                assert(0u16 & VIRTQ_DESC_F_NEXT == 0) by (bit_vector);
            }
            if (flags & VIRTQ_DESC_F_NEXT) != 0 {
                cur = next;
            } else {
                return;
            }
        }
    }
}

/// The GPU as the console sees it: the scanout framebuffer, its geometry,
/// and the rectangles queued for transfer to the host.
pub struct Gpu {
    pub inited: bool,
    pub q: GpuQueue,
    pub width: usize,
    pub height: usize,
    pub stride: usize,
    pub bytes_per_pixel: usize,
    pub pixel_format: PixelFormat,
    pub resource_id: u32,
    pub scanout_id: u32,
    pub fb: Vec<u32>,
    /// Rectangles `(x, y, w, h)` to transfer to the host and flush.
    pub flushes: Vec<(usize, usize, usize, usize)>,
}

impl Gpu {
    pub open spec fn wf(&self) -> bool {
        &&& self.q.wf()
        &&& self.fb@.len() == self.height * self.stride
        &&& self.width <= self.stride
        &&& self.width <= DIM_MAX && self.height <= DIM_MAX && self.stride <= DIM_MAX
        &&& self.inited ==> self.width > 0 && self.height > 0
    }

    pub fn new_uninit() -> (g: Self)
        ensures
            g.wf(),
            !g.inited,
            g.fb@.len() == 0,
            g.width == 0 && g.height == 0 && g.stride == 0,
            g.flushes@.len() == 0,
            g.bytes_per_pixel == 4 && g.pixel_format == PixelFormat::Bgrx8888,
            g.resource_id == 1 && g.scanout_id == 0,
            g.q.avail_idx == 0 && g.q.used_idx == 0,
            forall|i: int| 0 <= i < QNUM ==> #[trigger] g.q.free@[i],
            forall|i: int| 0 <= i < QNUM ==> (#[trigger] g.q.desc@[i]) == (VirtqDesc { addr: 0, len: 0, flags: 0, next: 0 }),
    {
        Gpu {
            inited: false,
            q: GpuQueue::new(),
            width: 0,
            height: 0,
            stride: 0,
            bytes_per_pixel: 4,
            pixel_format: PixelFormat::Bgrx8888,
            resource_id: 1,
            scanout_id: 0,
            fb: Vec::new(),
            flushes: Vec::new(),
        }
    }

    /// A framebuffer of `w` by `h` pixels has been set up and scanned out
    /// by the device, in `fmt`.
    pub fn attach(&mut self, w: usize, h: usize, fmt: PixelFormat)
        requires
            old(self).wf(),
            0 < w <= DIM_MAX && 0 < h <= DIM_MAX,
        ensures
            final(self).wf(),
            final(self).inited,
            final(self).width == w && final(self).height == h && final(self).stride == w,
            final(self).pixel_format == fmt,
            final(self).q == old(self).q,
            final(self).flushes@ == old(self).flushes@,
            forall|i: int| 0 <= i < w * h ==> #[trigger] final(self).fb@[i] == 0,
    {
        assert(w * h <= DIM_MAX * DIM_MAX) by (nonlinear_arith)
            requires
                w <= DIM_MAX,
                h <= DIM_MAX,
        ;
        let n = w * h;
        let mut fb: Vec<u32> = Vec::new();
        let mut i: usize = 0;
        while i < n
            invariant
                0 <= i <= n,
                fb@.len() == i,
                forall|k: int| 0 <= k < i ==> #[trigger] fb@[k] == 0,
            decreases n - i,
        {
            fb.push(0);
            i = i + 1;
        }
        self.width = w;
        self.height = h;
        self.stride = w;
        self.pixel_format = fmt;
        self.fb = fb;
        self.inited = true;
        assert(self.fb@.len() == self.height * self.stride) by (nonlinear_arith)
            requires
                self.fb@.len() == w * h,
                self.height == h,
                self.stride == w,
        ;
        assert(self.q.wf());
    }

    pub fn is_inited(&self) -> (b: bool)
        ensures
            b == self.inited,
    {
        self.inited
    }

    pub fn info(&self) -> (r: Option<(usize, usize, usize, PixelFormat)>)
        ensures
            !self.inited ==> r is None,
            self.inited ==> r == Some((self.width, self.height, self.stride, self.pixel_format)),
    {
        if !self.inited {
            return None;
        }
        Some((self.width, self.height, self.stride, self.pixel_format))
    }

    /// The framebuffer's pixels, for writing, once the device is set up.
    pub fn fb_mut(&mut self) -> (r: Option<&mut [u32]>)
        ensures
            !old(self).inited <==> r is None,
            r matches Some(px) ==> px@ == old(self).fb@
                && *final(self) == (Gpu { fb: final(self).fb, ..*old(self) }) && final(self).fb@ == final(px)@,
            r is None ==> *final(self) == *old(self),
    {
        if !self.inited {
            return None;
        }
        Some(self.fb.as_mut_slice())
    }

    /// Queues the part of `(x, y, w, h)` that lies on the screen for
    /// transfer to the host; nothing when that part is empty.
    pub fn flush_rect(&mut self, x: usize, y: usize, w: usize, h: usize)
        requires
            old(self).wf(),
        ensures
            final(self).wf(),
            *final(self) == (Gpu { flushes: final(self).flushes, ..*old(self) }),
            ({
                let cx = spec_min(x as int, old(self).width as int);
                let cy = spec_min(y as int, old(self).height as int);
                let cw = spec_min(w as int, old(self).width - cx);
                let ch = spec_min(h as int, old(self).height - cy);
                if old(self).fb@.len() == 0 || cw == 0 || ch == 0 {
                    final(self).flushes@ == old(self).flushes@
                } else {
                    final(self).flushes@ == old(self).flushes@.push(
                        (cx as usize, cy as usize, cw as usize, ch as usize),
                    )
                }
            }),
    {
        if self.fb.len() == 0 {
            return;
        }
        let x = min_usize(x, self.width);
        let y = min_usize(y, self.height);
        let w = min_usize(w, self.width - x);
        let h = min_usize(h, self.height - y);
        if w == 0 || h == 0 {
            return;
        }
        self.flushes.push((x, y, w, h));
    }

    /// The two low interrupt-status bits, which the driver acknowledges.
    pub fn intr_ack_bits(intr_stat: u32) -> (r: u32)
        ensures
            r == intr_stat & 0x3,
    {
        intr_stat & 0x3
    }
}


/// The device-status bit that says the device accepted the features.
pub const STATUS_FEATURES_OK: u32 = 0b1000;

/// What the identity registers of a virtio MMIO device hold.
pub const VIRTIO_MAGIC: u32 = 0x7472_6976;
pub const VIRTIO_VERSION: u32 = 2;
pub const VIRTIO_VENDOR: u32 = 0x554d_4551;

/// The display size used when the device reports none.
pub const DEFAULT_WIDTH: u32 = 640;
pub const DEFAULT_HEIGHT: u32 = 480;

/// How far bringing up the GPU has got.
#[derive(Clone, Copy, Debug, PartialEq, Eq, Structural)]
pub enum GpuInitState {
    /// Waiting for the identity registers.
    Probing,
    /// Waiting for the status read back after setting FEATURES_OK.
    Negotiating,
    /// Waiting for the control queue's ready flag and size limit.
    CheckingQueue,
    /// Waiting for the display information.
    AskingDisplay,
    /// Waiting for the reply to creating the resource in candidate format
    /// number `tried`.
    Creating { width: u32, height: u32, tried: usize },
    /// Waiting for the reply to attaching the framebuffer.
    Attaching { width: u32, height: u32, fmt: PixelFormat },
    /// Waiting for the reply to setting the scanout.
    SettingScanout { width: u32, height: u32, fmt: PixelFormat },
    /// The display is up.
    Ready { width: u32, height: u32, fmt: PixelFormat },
    /// Bringing up the display failed.
    Failed,
}

/// What the device answered to the last action.
#[derive(Clone, Copy, Debug)]
pub enum GpuInitEvent {
    /// The identity registers.
    Identity { magic: u32, version: u32, vendor: u32, device: u32 },
    /// The device status read back.
    StatusRead { status: u32 },
    /// The control queue's ready flag and largest size.
    QueueLimits { ready: u32, max: u32 },
    /// The reply to the display-information command: its type, or `None`
    /// when the command could not be sent, and the first scanout's mode.
    DisplayInfo { resp_type: Option<u32>, enabled: u32, width: u32, height: u32 },
    /// The type of the reply to a command, or `None` when it could not be
    /// sent.
    Reply { resp_type: Option<u32> },
}

/// What the driver does next.
#[derive(Clone, Copy, Debug, PartialEq, Eq, Structural)]
pub enum GpuInitAction {
    /// Read the identity registers.
    ReadIdentity,
    /// Reset the device, acknowledge it, accept the features it offers,
    /// set FEATURES_OK and read the status back.
    Negotiate,
    /// Select the control queue and read its ready flag and size limit.
    ReadQueue,
    /// Give the queue its size and addresses, mark it ready, set
    /// DRIVER_OK, and ask for the display information.
    StartQueue,
    /// Create the 2D resource of `width` by `height` pixels in virtio
    /// format `format`.
    CreateResource { width: u32, height: u32, format: u32 },
    /// Attach a framebuffer of the display's size to the resource.
    AttachBacking,
    /// Show the resource on the scanout.
    SetScanout,
    /// Take the framebuffer of `width` by `height` pixels in `fmt` into use
    /// and flush it whole.
    Finish { width: u32, height: u32, fmt: PixelFormat },
    /// Give up.
    Fail,
    /// Nothing: the event does not belong to the state.
    Nothing,
}

/// The formats tried for the resource, in order.
pub open spec fn format_candidate(i: int) -> u32 {
    if i == 0 {
        FORMAT_B8G8R8X8_UNORM
    } else if i == 1 {
        FORMAT_R8G8B8X8_UNORM
    } else {
        FORMAT_B8G8R8A8_UNORM
    }
}

pub const FORMAT_CANDIDATES: usize = 3;

fn candidate(i: usize) -> (f: u32)
    ensures
        f == format_candidate(i as int),
{
    if i == 0 {
        FORMAT_B8G8R8X8_UNORM
    } else if i == 1 {
        FORMAT_R8G8B8X8_UNORM
    } else {
        FORMAT_B8G8R8A8_UNORM
    }
}

/// The display size the device reported, or the default size when the
/// command failed, the scanout is off, or it has no area.
pub open spec fn display_size(resp_type: Option<u32>, enabled: u32, width: u32, height: u32) -> (u32, u32) {
    if resp_type == Some(RESP_OK_DISPLAY_INFO) && enabled != 0 && width != 0 && height != 0 {
        (width, height)
    } else {
        (DEFAULT_WIDTH, DEFAULT_HEIGHT)
    }
}

/// The pixel format that virtio format `f` of the candidates stands for.
pub open spec fn candidate_format(f: u32) -> PixelFormat {
    if f == FORMAT_R8G8B8X8_UNORM {
        PixelFormat::Rgbx8888
    } else if f == FORMAT_B8G8R8A8_UNORM {
        PixelFormat::Bgra8888
    } else {
        PixelFormat::Bgrx8888
    }
}

/// Whether a command was answered with success.
pub open spec fn reply_ok(resp_type: Option<u32>) -> bool {
    resp_type == Some(RESP_OK_NODATA)
}

/// The transition of the bring-up on event `ev` in state `s`.
pub open spec fn init_next(s: GpuInitState, ev: GpuInitEvent) -> (GpuInitState, GpuInitAction) {
    match (s, ev) {
        (GpuInitState::Probing, GpuInitEvent::Identity { magic, version, vendor, device }) => {
            if magic == VIRTIO_MAGIC && version == VIRTIO_VERSION && vendor == VIRTIO_VENDOR && device == VIRTIO_ID_GPU {
                (GpuInitState::Negotiating, GpuInitAction::Negotiate)
            } else {
                (GpuInitState::Failed, GpuInitAction::Fail)
            }
        },
        (GpuInitState::Negotiating, GpuInitEvent::StatusRead { status }) => {
            if status & STATUS_FEATURES_OK == 0 {
                (GpuInitState::Failed, GpuInitAction::Fail)
            } else {
                (GpuInitState::CheckingQueue, GpuInitAction::ReadQueue)
            }
        },
        (GpuInitState::CheckingQueue, GpuInitEvent::QueueLimits { ready, max }) => {
            if ready != 0 || max < QNUM || max == 0 {
                (GpuInitState::Failed, GpuInitAction::Fail)
            } else {
                (GpuInitState::AskingDisplay, GpuInitAction::StartQueue)
            }
        },
        (GpuInitState::AskingDisplay, GpuInitEvent::DisplayInfo { resp_type, enabled, width, height }) => {
            let (w, h) = display_size(resp_type, enabled, width, height);
            (
                GpuInitState::Creating { width: w, height: h, tried: 0 },
                GpuInitAction::CreateResource { width: w, height: h, format: format_candidate(0) },
            )
        },
        (GpuInitState::Creating { width, height, tried }, GpuInitEvent::Reply { resp_type }) => {
            if reply_ok(resp_type) {
                (
                    GpuInitState::Attaching { width, height, fmt: candidate_format(format_candidate(tried as int)) },
                    GpuInitAction::AttachBacking,
                )
            } else if tried + 1 < FORMAT_CANDIDATES {
                (
                    GpuInitState::Creating { width, height, tried: (tried + 1) as usize },
                    GpuInitAction::CreateResource { width, height, format: format_candidate(tried + 1) },
                )
            } else {
                (GpuInitState::Failed, GpuInitAction::Fail)
            }
        },
        (GpuInitState::Attaching { width, height, fmt }, GpuInitEvent::Reply { resp_type }) => {
            if reply_ok(resp_type) {
                (GpuInitState::SettingScanout { width, height, fmt }, GpuInitAction::SetScanout)
            } else {
                (GpuInitState::Failed, GpuInitAction::Fail)
            }
        },
        (GpuInitState::SettingScanout { width, height, fmt }, GpuInitEvent::Reply { resp_type }) => {
            if reply_ok(resp_type) {
                (GpuInitState::Ready { width, height, fmt }, GpuInitAction::Finish { width, height, fmt })
            } else {
                (GpuInitState::Failed, GpuInitAction::Fail)
            }
        },
        _ => (s, GpuInitAction::Nothing),
    }
}

/// Where bringing up the GPU starts: nothing to do when it is already up,
/// else reading the identity registers.
pub fn gpu_init_begin(inited: bool) -> (r: Option<(GpuInitState, GpuInitAction)>)
    ensures
        inited ==> r is None,
        !inited ==> r == Some((GpuInitState::Probing, GpuInitAction::ReadIdentity)),
{
    if inited {
        None
    } else {
        Some((GpuInitState::Probing, GpuInitAction::ReadIdentity))
    }
}

/// One step of bringing up the GPU: the state reached on event `ev` in
/// state `s`, and what the driver does next.
pub fn gpu_init_step(s: GpuInitState, ev: GpuInitEvent) -> (r: (GpuInitState, GpuInitAction))
    requires
        s matches GpuInitState::Creating { tried, .. } ==> tried < FORMAT_CANDIDATES,
    ensures
        r == init_next(s, ev),
        r.0 matches GpuInitState::Creating { tried, .. } ==> tried < FORMAT_CANDIDATES,
{
    match (s, ev) {
        (GpuInitState::Probing, GpuInitEvent::Identity { magic, version, vendor, device }) => {
            if magic == VIRTIO_MAGIC && version == VIRTIO_VERSION && vendor == VIRTIO_VENDOR && device == VIRTIO_ID_GPU {
                (GpuInitState::Negotiating, GpuInitAction::Negotiate)
            } else {
                (GpuInitState::Failed, GpuInitAction::Fail)
            }
        },
        (GpuInitState::Negotiating, GpuInitEvent::StatusRead { status }) => {
            if status & STATUS_FEATURES_OK == 0 {
                (GpuInitState::Failed, GpuInitAction::Fail)
            } else {
                (GpuInitState::CheckingQueue, GpuInitAction::ReadQueue)
            }
        },
        (GpuInitState::CheckingQueue, GpuInitEvent::QueueLimits { ready, max }) => {
            if ready != 0 || max < QNUM as u32 || max == 0 {
                (GpuInitState::Failed, GpuInitAction::Fail)
            } else {
                (GpuInitState::AskingDisplay, GpuInitAction::StartQueue)
            }
        },
        (GpuInitState::AskingDisplay, GpuInitEvent::DisplayInfo { resp_type, enabled, width, height }) => {
            let reported = match resp_type {
                Some(t) => t == RESP_OK_DISPLAY_INFO,
                None => false,
            };
            let (w, h) = if reported && enabled != 0 && width != 0 && height != 0 {
                (width, height)
            } else {
                (DEFAULT_WIDTH, DEFAULT_HEIGHT)
            };
            (
                GpuInitState::Creating { width: w, height: h, tried: 0 },
                GpuInitAction::CreateResource { width: w, height: h, format: candidate(0) },
            )
        },
        (GpuInitState::Creating { width, height, tried }, GpuInitEvent::Reply { resp_type }) => {
            if is_ok_reply(resp_type) {
                let f = candidate(tried);
                let fmt = if f == FORMAT_R8G8B8X8_UNORM {
                    PixelFormat::Rgbx8888
                } else if f == FORMAT_B8G8R8A8_UNORM {
                    PixelFormat::Bgra8888
                } else {
                    PixelFormat::Bgrx8888
                };
                (GpuInitState::Attaching { width, height, fmt }, GpuInitAction::AttachBacking)
            } else if tried + 1 < FORMAT_CANDIDATES {
                (
                    GpuInitState::Creating { width, height, tried: tried + 1 },
                    GpuInitAction::CreateResource { width, height, format: candidate(tried + 1) },
                )
            } else {
                (GpuInitState::Failed, GpuInitAction::Fail)
            }
        },
        (GpuInitState::Attaching { width, height, fmt }, GpuInitEvent::Reply { resp_type }) => {
            if is_ok_reply(resp_type) {
                (GpuInitState::SettingScanout { width, height, fmt }, GpuInitAction::SetScanout)
            } else {
                (GpuInitState::Failed, GpuInitAction::Fail)
            }
        },
        (GpuInitState::SettingScanout { width, height, fmt }, GpuInitEvent::Reply { resp_type }) => {
            if is_ok_reply(resp_type) {
                (GpuInitState::Ready { width, height, fmt }, GpuInitAction::Finish { width, height, fmt })
            } else {
                (GpuInitState::Failed, GpuInitAction::Fail)
            }
        },
        _ => (s, GpuInitAction::Nothing),
    }
}

fn is_ok_reply(resp_type: Option<u32>) -> (b: bool)
    ensures
        b == reply_ok(resp_type),
{
    match resp_type {
        Some(t) => t == RESP_OK_NODATA,
        None => false,
    }
}

} // verus!
