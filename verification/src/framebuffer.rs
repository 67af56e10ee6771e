use vstd::prelude::*;
use crate::runq::ring_pos;
use crate::util::{max_usize, min_usize, sat_add, sat_mul, sat_sub, spec_max, spec_min, spec_sat_add_usize, spec_sat_mul};
use crate::virtio_gpu::{Gpu, PixelFormat, DIM_MAX};

verus! {

pub const BORDER_PADDING: usize = 2;
pub const LINE_SPACING: usize = 2;
pub const LETTER_SPACING: usize = 0;
pub const SCALE: usize = 2;
pub const SCROLLBACK_LINES: usize = 200;

pub const CHAR_W: usize = 8 * SCALE;
pub const CHAR_H: usize = 8 * SCALE;
pub const CELL_W: usize = CHAR_W + LETTER_SPACING;
pub const CELL_H: usize = CHAR_H + LINE_SPACING;

/// Bound on the absolute line counter, far beyond any uptime; line numbers
/// stay within the signed range of a 32-bit target, as scrolling works
/// with signed line differences.
pub const LINE_LIMIT: usize = 0x4000_0000;

pub const EARLY_BUF_SIZE: usize = 8192;

/// Output captured before the framebuffer is up. When full, the oldest
/// byte is overwritten.
pub struct EarlyBuf {
    buf: Vec<u8>,
    r: usize,
    w: usize,
    full: bool,
}

impl EarlyBuf {
    pub closed spec fn wf(&self) -> bool {
        &&& self.buf@.len() == EARLY_BUF_SIZE
        &&& self.r < EARLY_BUF_SIZE
        &&& self.w < EARLY_BUF_SIZE
        &&& self.full ==> self.r == self.w
    }

    pub closed spec fn count(&self) -> int {
        if self.full {
            EARLY_BUF_SIZE as int
        } else if self.w >= self.r {
            self.w - self.r
        } else {
            self.w + EARLY_BUF_SIZE - self.r
        }
    }

    /// The buffered bytes, oldest first.
    pub closed spec fn view(&self) -> Seq<u8> {
        Seq::new(
            self.count() as nat,
            |i: int| self.buf@[ring_pos(self.r as int, i, EARLY_BUF_SIZE as int)],
        )
    }

    pub fn new() -> (e: Self)
        ensures
            e.wf(),
            e@ == Seq::<u8>::empty(),
    {
        let mut buf: Vec<u8> = Vec::new();
        let mut i: usize = 0;
        while i < EARLY_BUF_SIZE
            invariant
                0 <= i <= EARLY_BUF_SIZE,
                buf@.len() == i,
            decreases EARLY_BUF_SIZE - i,
        {
            buf.push(0);
            i = i + 1;
        }
        let e = EarlyBuf { buf, r: 0, w: 0, full: false };
        assert(e@ =~= Seq::<u8>::empty());
        e
    }

    /// Appends `b`; when the buffer is full the oldest byte is dropped.
    pub fn push(&mut self, b: u8)
        requires
            old(self).wf(),
        ensures
            final(self).wf(),
            old(self)@.len() < EARLY_BUF_SIZE ==> final(self)@ == old(self)@.push(b),
            old(self)@.len() == EARLY_BUF_SIZE ==> final(self)@ == old(self)@.drop_first().push(b),
            final(self)@ == early_push(old(self)@, b),
    {
        let ghost old_view = self@;
        let ghost old_count = self.count();
        let w = self.w;
        self.buf.set(w, b);
        self.w = if w + 1 == EARLY_BUF_SIZE { 0 } else { w + 1 };
        if self.full {
            self.r = if self.r + 1 == EARLY_BUF_SIZE { 0 } else { self.r + 1 };
        }
        self.full = self.w == self.r;
        proof {
            if old_count < EARLY_BUF_SIZE {
                assert(self.count() == old_count + 1);
                assert forall|i: int| 0 <= i < old_count implies #[trigger] self@[i] == old_view.push(b)[i] by {
                    assert(ring_pos(self.r as int, i, EARLY_BUF_SIZE as int) != w as int);
                }
                assert(self@ =~= old_view.push(b));
            } else {
                assert(self.count() == EARLY_BUF_SIZE);
                assert forall|i: int| 0 <= i < EARLY_BUF_SIZE - 1 implies #[trigger] self@[i] == old_view.drop_first().push(b)[i] by {
                    assert(ring_pos(self.r as int, i, EARLY_BUF_SIZE as int) != w as int);
                }
                assert(self@ =~= old_view.drop_first().push(b));
            }
        }
    }

    /// Removes and returns the oldest byte.
    pub fn pop(&mut self) -> (r: Option<u8>)
        requires
            old(self).wf(),
        ensures
            final(self).wf(),
            old(self)@.len() == 0 ==> r is None && final(self)@ == old(self)@,
            old(self)@.len() > 0 ==> r == Some(old(self)@[0]) && final(self)@ == old(self)@.drop_first(),
    {
        if !self.full && self.r == self.w {
            return None;
        }
        let ghost old_view = self@;
        let b = self.buf[self.r];
        self.r = if self.r + 1 == EARLY_BUF_SIZE { 0 } else { self.r + 1 };
        self.full = false;
        assert(self@ =~= old_view.drop_first());
        Some(b)
    }
}

impl Default for EarlyBuf {
    fn default() -> (e: Self)
        ensures
            e.wf(),
            e@ == Seq::<u8>::empty(),
    {
        Self::new()
    }
}

/// The text console drawn on the GPU framebuffer, with scrollback.
///
/// Lines are numbered from zero since the last clear; the ring `lines`
/// keeps the last `max_lines` of them, line `n` at slot `n % max_lines`.
pub struct FbConsole {
    pub inited: bool,
    pub x: usize,
    pub y: usize,
    pub width: usize,
    pub height: usize,
    pub stride: usize,
    pub fmt: PixelFormat,
    pub cols: usize,
    pub rows: usize,
    pub max_lines: usize,
    pub line_base: usize,
    pub line_count: usize,
    pub cursor_line: usize,
    pub cursor_col: usize,
    pub view_offset: usize,
    pub lines: Vec<Vec<u8>>,
    pub dirty: bool,
    pub dirty_minx: usize,
    pub dirty_miny: usize,
    pub dirty_maxx: usize,
    pub dirty_maxy: usize,
    pub esc: bool,
    pub csi: bool,
    pub csi_num: usize,
    pub csi_have_num: bool,
    /// 8x8 glyph bitmaps for the first 128 code points; one byte per row,
    /// most significant bit leftmost.
    pub font: Vec<[u8; 8]>,
}

/// Columns that fit in a screen `width` pixels wide (at least one).
pub open spec fn spec_cols(width: int) -> int {
    spec_max(
        (if width < 2 * BORDER_PADDING { 0 } else { width - 2 * BORDER_PADDING }) / (CELL_W as int),
        1,
    )
}

/// Rows that fit in a screen `height` pixels high (at least one).
pub open spec fn spec_rows(height: int) -> int {
    spec_max(
        (if height < 2 * BORDER_PADDING { 0 } else { height - 2 * BORDER_PADDING }) / (CELL_H as int),
        1,
    )
}

impl FbConsole {
    /// Well formed: geometry, the line ring and the cursor agree.
    pub open spec fn wf(&self) -> bool {
        &&& self.font@.len() == 128
        &&& self.lines@.len() == self.max_lines
        &&& forall|i: int| 0 <= i < self.max_lines ==> (#[trigger] self.lines@[i])@.len() == self.cols
        &&& self.width <= DIM_MAX && self.height <= DIM_MAX && self.stride <= DIM_MAX
        &&& self.width <= self.stride
        &&& self.x <= 64 * DIM_MAX && self.y <= 64 * DIM_MAX
        &&& self.cols <= DIM_MAX && self.rows <= DIM_MAX
        &&& self.cursor_col <= self.cols
        &&& self.view_offset <= self.max_lines
        &&& !self.inited ==> self.width == 0 && self.height == 0
        &&& self.inited ==> {
            &&& self.width > 0 && self.height > 0
            &&& self.cols == spec_cols(self.width as int)
            &&& self.rows == spec_rows(self.height as int)
            &&& self.max_lines == self.rows + SCROLLBACK_LINES
            &&& 1 <= self.line_count <= self.max_lines
            &&& self.line_base <= self.cursor_line < self.line_base + self.line_count
            &&& self.cursor_line < LINE_LIMIT
        }
        &&& self.dirty ==> self.dirty_minx <= self.dirty_maxx < self.width && self.dirty_miny
            <= self.dirty_maxy < self.height
    }

    /// The console draws on `g`'s framebuffer.
    pub open spec fn on(&self, g: &Gpu) -> bool {
        &&& g.wf()
        &&& self.inited ==> g.inited && g.width == self.width && g.height == self.height
            && g.stride == self.stride
    }

    pub fn new() -> (c: Self)
        ensures
            c.wf(),
            !c.inited,
            c.x == BORDER_PADDING && c.y == BORDER_PADDING,
            c.line_count == 0 && c.max_lines == 0,
    {
        let mut font: Vec<[u8; 8]> = Vec::new();
        let mut i: usize = 0;
        while i < 128
            invariant
                0 <= i <= 128,
                font@.len() == i,
            decreases 128 - i,
        {
            font.push([0u8; 8]);
            i = i + 1;
        }
        Self {
            inited: false,
            x: BORDER_PADDING,
            y: BORDER_PADDING,
            width: 0,
            height: 0,
            stride: 0,
            fmt: PixelFormat::Bgrx8888,
            cols: 0,
            rows: 0,
            max_lines: 0,
            line_base: 0,
            line_count: 0,
            cursor_line: 0,
            cursor_col: 0,
            view_offset: 0,
            lines: Vec::new(),
            dirty: false,
            dirty_minx: 0,
            dirty_miny: 0,
            dirty_maxx: 0,
            dirty_maxy: 0,
            esc: false,
            csi: false,
            csi_num: 0,
            csi_have_num: false,
            font,
        }
    }

    /// Loads the glyph table.
    pub fn set_font(&mut self, font: Vec<[u8; 8]>)
        requires
            old(self).wf(),
            font@.len() == 128,
        ensures
            final(self).wf(),
            final(self).font@ == font@,
            final(self).inited == old(self).inited,
    {
        self.font = font;
    }

    /// Grows the dirty rectangle to cover the on-screen part of
    /// `(x, y, w, h)`.
    pub fn mark_dirty_rect(&mut self, x: usize, y: usize, w: usize, h: usize)
        requires
            old(self).wf(),
        ensures
            final(self).wf(),
            ({
                let x0 = spec_min(x as int, old(self).width - 1);
                let y0 = spec_min(y as int, old(self).height - 1);
                let x1 = spec_min(
                    (if x + w > usize::MAX { usize::MAX as int } else { x + w }) - 1,
                    old(self).width - 1,
                );
                let y1 = spec_min(
                    (if y + h > usize::MAX { usize::MAX as int } else { y + h }) - 1,
                    old(self).height - 1,
                );
                if !old(self).inited || old(self).width == 0 || old(self).height == 0 || w == 0 || h == 0
                    || x1 < x0 || y1 < y0 {
                    *final(self) == *old(self)
                } else if !old(self).dirty {
                    *final(self) == (FbConsole {
                        dirty: true,
                        dirty_minx: x0 as usize,
                        dirty_miny: y0 as usize,
                        dirty_maxx: x1 as usize,
                        dirty_maxy: y1 as usize,
                        ..*old(self)
                    })
                } else {
                    *final(self) == (FbConsole {
                        dirty_minx: spec_min(old(self).dirty_minx as int, x0) as usize,
                        dirty_miny: spec_min(old(self).dirty_miny as int, y0) as usize,
                        dirty_maxx: spec_max(old(self).dirty_maxx as int, x1) as usize,
                        dirty_maxy: spec_max(old(self).dirty_maxy as int, y1) as usize,
                        ..*old(self)
                    })
                }
            }),
    {
        if !self.inited || self.width == 0 || self.height == 0 {
            return;
        }
        if w == 0 || h == 0 {
            return;
        }
        let x0 = min_usize(x, self.width - 1);
        let y0 = min_usize(y, self.height - 1);
        let x1 = min_usize(sat_sub(sat_add(x, w), 1), self.width - 1);
        let y1 = min_usize(sat_sub(sat_add(y, h), 1), self.height - 1);
        if x1 < x0 || y1 < y0 {
            return;
        }
        if !self.dirty {
            self.dirty = true;
            self.dirty_minx = x0;
            self.dirty_miny = y0;
            self.dirty_maxx = x1;
            self.dirty_maxy = y1;
        } else {
            self.dirty_minx = min_usize(self.dirty_minx, x0);
            self.dirty_miny = min_usize(self.dirty_miny, y0);
            self.dirty_maxx = max_usize(self.dirty_maxx, x1);
            self.dirty_maxy = max_usize(self.dirty_maxy, y1);
        }
    }

    /// Slot of absolute line `abs_line` in the ring.
    pub fn line_index(&self, abs_line: usize) -> (i: usize)
        requires
            self.max_lines > 0,
        ensures
            i == abs_line % self.max_lines,
            i < self.max_lines,
    {
        abs_line % self.max_lines
    }

    /// Blanks the text of absolute line `abs_line`.
    pub fn clear_line_buf(&mut self, abs_line: usize)
        requires
            old(self).wf(),
            old(self).max_lines > 0,
        ensures
            final(self).wf(),
            final(self).lines@.len() == old(self).lines@.len(),
            final(self).lines@[(abs_line % old(self).max_lines) as int]@ == Seq::new(
                old(self).cols as nat,
                |j: int| 32u8,
            ),
            forall|k: int|
                0 <= k < old(self).max_lines && k != (abs_line % old(self).max_lines) as int
                    ==> #[trigger] final(self).lines@[k] == old(self).lines@[k],
            *final(self) == (FbConsole { lines: final(self).lines, ..*old(self) }),
    {
        let idx = self.line_index(abs_line);
        let mut line = self.lines[idx].clone();
        let n = line.len();
        let mut j: usize = 0;
        while j < n
            invariant
                0 <= j <= n,
                line@.len() == n,
                forall|k: int| 0 <= k < j ==> #[trigger] line@[k] == 32u8,
            decreases n - j,
        {
            line.set(j, 32u8);
            j = j + 1;
        }
        assert(line@ =~= Seq::new(self.cols as nat, |j: int| 32u8));
        self.lines.set(idx, line);
    }

    /// The absolute line shown in the top screen row: the bottom of the
    /// buffer, moved up by the scrollback offset (no further than the
    /// oldest kept line).
    pub open spec fn spec_visible_start(&self) -> int {
        let end_line = self.line_base + self.line_count - 1;
        let start = if end_line + 1 > self.rows {
            end_line + 1 - self.rows
        } else {
            self.line_base as int
        };
        let max_offset = if start < self.line_base { 0 } else { start - self.line_base };
        start - spec_min(self.view_offset as int, max_offset)
    }

    pub fn visible_start_line(&self) -> (s: usize)
        requires
            self.wf(),
            self.inited,
        ensures
            s == self.spec_visible_start(),
            s <= self.line_base + self.line_count - 1,
    {
        let end_line = self.line_base + self.line_count - 1;
        let mut start = if end_line + 1 > self.rows {
            end_line + 1 - self.rows
        } else {
            self.line_base
        };
        let max_offset = sat_sub(start, self.line_base);
        let offset = min_usize(self.view_offset, max_offset);
        start = sat_sub(start, offset);
        start
    }

    /// Puts the pixel cursor at the cursor cell's place on screen.
    pub fn update_cursor_xy(&mut self)
        requires
            old(self).wf(),
            old(self).inited,
        ensures
            final(self).wf(),
            ({
                let row = spec_min(
                    if old(self).cursor_line < old(self).spec_visible_start() { 0 } else {
                        old(self).cursor_line - old(self).spec_visible_start()
                    },
                    old(self).rows - 1,
                );
                let col = spec_min(old(self).cursor_col as int, old(self).cols - 1);
                *final(self) == (FbConsole {
                    x: (BORDER_PADDING + col * CELL_W) as usize,
                    y: (BORDER_PADDING + row * CELL_H) as usize,
                    ..*old(self)
                })
            }),
    {
        let start = self.visible_start_line();
        let row = min_usize(sat_sub(self.cursor_line, start), sat_sub(self.rows, 1));
        let col = min_usize(self.cursor_col, sat_sub(self.cols, 1));
        assert(row * CELL_H <= DIM_MAX * CELL_H) by (nonlinear_arith)
            requires
                row <= DIM_MAX,
        ;
        assert(col * CELL_W <= DIM_MAX * CELL_W) by (nonlinear_arith)
            requires
                col <= DIM_MAX,
        ;
        self.x = BORDER_PADDING + sat_mul(col, CELL_W);
        self.y = BORDER_PADDING + sat_mul(row, CELL_H);
    }

    /// Pixel offset of column `col` from the left border.
    fn cell_x(&self, col: usize) -> (r: usize)
        requires
            col <= DIM_MAX,
        ensures
            r == col * CELL_W,
            r <= DIM_MAX * CELL_W,
    {
        assert(col * CELL_W <= DIM_MAX * CELL_W) by (nonlinear_arith)
            requires
                col <= DIM_MAX,
        ;
        col * CELL_W
    }

    pub fn cursor_left(&mut self)
        requires
            old(self).wf(),
        ensures
            final(self).wf(),
            old(self).cursor_col == 0 ==> *final(self) == *old(self),
            old(self).cursor_col > 0 ==> *final(self) == (FbConsole {
                cursor_col: (old(self).cursor_col - 1) as usize,
                x: (BORDER_PADDING + (old(self).cursor_col - 1) * CELL_W) as usize,
                ..*old(self)
            }),
    {
        if self.cursor_col == 0 {
            return;
        }
        self.cursor_col = self.cursor_col - 1;
        self.x = BORDER_PADDING + self.cell_x(self.cursor_col);
    }
}


/// The early buffer's contents after `push` of one byte `b` to contents
/// `q`: appended, and the oldest byte dropped once the buffer is full.
pub open spec fn early_push(q: Seq<u8>, b: u8) -> Seq<u8> {
    if q.len() < EARLY_BUF_SIZE {
        q.push(b)
    } else {
        q.drop_first().push(b)
    }
}

/// The early buffer's contents after `push` of each of `bs` in turn.
pub open spec fn early_after(q: Seq<u8>, bs: Seq<u8>) -> Seq<u8>
    decreases bs.len(),
{
    if bs.len() == 0 {
        q
    } else {
        early_push(early_after(q, bs.drop_last()), bs.last())
    }
}

/// The last `EARLY_BUF_SIZE` bytes of `s`, or all of them when fewer.
pub open spec fn last_bytes(s: Seq<u8>) -> Seq<u8> {
    if s.len() <= EARLY_BUF_SIZE {
        s
    } else {
        s.subrange(s.len() - EARLY_BUF_SIZE, s.len() as int)
    }
}

/// The early buffer keeps the last `EARLY_BUF_SIZE` bytes written to it:
/// starting from contents `q` that fit, pushing each of `bs` leaves the
/// last bytes of `q` followed by `bs`.
pub proof fn law_early_keeps_last(q: Seq<u8>, bs: Seq<u8>)
    requires
        q.len() <= EARLY_BUF_SIZE,
    ensures
        early_after(q, bs) == last_bytes(q + bs),
    decreases bs.len(),
{
    if bs.len() > 0 {
        let t = q + bs.drop_last();
        law_early_keeps_last(q, bs.drop_last());
        assert(q + bs =~= t.push(bs.last()));
        let e = last_bytes(t);
        if t.len() < EARLY_BUF_SIZE {
            assert(early_push(e, bs.last()) =~= last_bytes(t.push(bs.last())));
        } else {
            assert(e.len() == EARLY_BUF_SIZE);
            assert(early_push(e, bs.last()) =~= last_bytes(t.push(bs.last())));
        }
    } else {
        assert(q + bs =~= q);
    }
}

/// Offset of pixel `(x, y)` in a row-major framebuffer with `stride`.
pub open spec fn pix(stride: int, x: int, y: int) -> int {
    y * stride + x
}

pub proof fn lemma_pix_bounds(stride: int, h: int, x: int, y: int)
    requires
        0 <= x < stride,
        0 <= y < h,
    ensures
        0 <= pix(stride, x, y) < h * stride,
        y * stride <= pix(stride, x, y) < (y + 1) * stride,
{
    assert(y * stride + x < h * stride) by (nonlinear_arith)
        requires
            0 <= x < stride,
            0 <= y < h,
    ;
    assert(0 <= y * stride) by (nonlinear_arith)
        requires
            0 <= y,
            0 <= stride,
    ;
    assert((y + 1) * stride == y * stride + stride) by (nonlinear_arith);
}

pub proof fn lemma_rows_ordered(stride: int, a: int, b: int)
    requires
        0 <= a <= b,
        0 <= stride,
    ensures
        a * stride <= b * stride,
{
    assert(a * stride <= b * stride) by (nonlinear_arith)
        requires
            0 <= a <= b,
            0 <= stride,
    ;
}

/// Sets every pixel of the framebuffer to `color`.
pub fn fill_fb(g: &mut Gpu, color: u32)
    requires
        old(g).wf(),
    ensures
        final(g).wf(),
        final(g).fb@.len() == old(g).fb@.len(),
        forall|i: int| 0 <= i < final(g).fb@.len() ==> #[trigger] final(g).fb@[i] == color,
        *final(g) == (Gpu { fb: final(g).fb, ..*old(g) }),
{
    let n = g.fb.len();
    let mut i: usize = 0;
    while i < n
        invariant
            g.wf(),
            0 <= i <= n,
            g.fb@.len() == n,
            forall|k: int| 0 <= k < i ==> #[trigger] g.fb@[k] == color,
            *g == (Gpu { fb: g.fb, ..*old(g) }),
        decreases n - i,
    {
        g.fb.set(i, color);
        i = i + 1;
    }
}

impl FbConsole {
    /// The background colour in the console's pixel format.
    pub open spec fn bg(&self) -> u32 {
        self.fmt.spec_pack_rgba(0, 0, 0, 0xff)
    }

    /// The text colour in the console's pixel format.
    pub open spec fn fg(&self) -> u32 {
        self.fmt.spec_pack_rgba(0, 255, 64, 0xff)
    }

    pub fn cursor_left_n(&mut self, n: usize)
        requires
            old(self).wf(),
        ensures
            final(self).wf(),
            n == 0 ==> *final(self) == *old(self),
            n != 0 ==> *final(self) == (FbConsole {
                cursor_col: (if old(self).cursor_col < n { 0 } else { old(self).cursor_col - n }) as usize,
                x: (BORDER_PADDING + (if old(self).cursor_col < n { 0 } else { old(self).cursor_col - n }) * CELL_W) as usize,
                ..*old(self)
            }),
    {
        if n == 0 {
            return;
        }
        self.cursor_col = sat_sub(self.cursor_col, n);
        self.x = BORDER_PADDING + self.cell_x(self.cursor_col);
    }

    pub fn cursor_right_n(&mut self, n: usize)
        requires
            old(self).wf(),
        ensures
            final(self).wf(),
            n == 0 ==> *final(self) == *old(self),
            n != 0 ==> ({
                let max_col = if old(self).cols < 1 { 0 } else { old(self).cols - 1 };
                let c = spec_min(
                    if old(self).cursor_col + n > usize::MAX { usize::MAX as int } else { old(self).cursor_col + n },
                    max_col,
                );
                *final(self) == (FbConsole {
                    cursor_col: c as usize,
                    x: (BORDER_PADDING + c * CELL_W) as usize,
                    ..*old(self)
                })
            }),
    {
        if n == 0 {
            return;
        }
        let max_col = sat_sub(self.cols, 1);
        self.cursor_col = min_usize(sat_add(self.cursor_col, n), max_col);
        self.x = BORDER_PADDING + self.cell_x(self.cursor_col);
    }

    /// Clears the screen and the text buffer and resets the cursor and
    /// the escape-sequence parser.
    pub fn clear_locked(&mut self, g: &mut Gpu)
        requires
            old(self).wf(),
            old(self).on(old(g)),
        ensures
            final(self).wf(),
            final(self).on(final(g)),
            final(self).inited == old(self).inited,
            final(self).x == BORDER_PADDING && final(self).y == BORDER_PADDING,
            final(self).line_base == 0 && final(self).line_count == 1,
            final(self).cursor_line == 0 && final(self).cursor_col == 0,
            final(self).view_offset == 0,
            !final(self).esc && !final(self).csi && final(self).csi_num == 0 && !final(self).csi_have_num,
            final(self).lines@.len() == old(self).lines@.len(),
            forall|i: int| 0 <= i < final(self).lines@.len() ==> (#[trigger] final(self).lines@[i])@
                == Seq::new(old(self).cols as nat, |j: int| 32u8),
            final(g).inited ==> forall|i: int| 0 <= i < final(g).fb@.len() ==> #[trigger] final(g).fb@[i] == old(self).bg(),
            !final(g).inited ==> final(g).fb@ == old(g).fb@,
            *final(g) == (Gpu { fb: final(g).fb, ..*old(g) }),
            final(self).cols == old(self).cols && final(self).rows == old(self).rows
                && final(self).max_lines == old(self).max_lines && final(self).fmt == old(self).fmt
                && final(self).width == old(self).width && final(self).height == old(self).height
                && final(self).stride == old(self).stride && final(self).font == old(self).font,
    {
        if g.inited {
            let bg = self.fmt.pack_rgba(0, 0, 0, 0xff);
            fill_fb(g, bg);
            let w = self.width;
            let h = self.height;
            self.mark_dirty_rect(0, 0, w, h);
        }
        self.x = BORDER_PADDING;
        self.y = BORDER_PADDING;
        self.line_base = 0;
        self.line_count = 1;
        self.cursor_line = 0;
        self.cursor_col = 0;
        self.view_offset = 0;
        let n = self.lines.len();
        let mut k: usize = 0;
        while k < n
            invariant
                self.wf(),
                0 <= k <= n,
                n == self.lines@.len(),
                forall|i: int| 0 <= i < k ==> (#[trigger] self.lines@[i])@ == Seq::new(self.cols as nat, |j: int| 32u8),
                self.x == BORDER_PADDING && self.y == BORDER_PADDING,
                self.line_base == 0 && self.line_count == 1 && self.cursor_line == 0 && self.cursor_col == 0 && self.view_offset == 0,
                self.cols == old(self).cols && self.rows == old(self).rows && self.max_lines == old(self).max_lines
                    && self.fmt == old(self).fmt && self.width == old(self).width && self.height == old(self).height
                    && self.stride == old(self).stride && self.font == old(self).font && self.inited == old(self).inited,
                self.esc == old(self).esc && self.csi == old(self).csi,
            decreases n - k,
        {
            self.clear_line_buf(k);
            proof {
                vstd::arithmetic::div_mod::lemma_small_mod(k as nat, self.max_lines as nat);
            }
            k = k + 1;
        }
        self.esc = false;
        self.csi = false;
        self.csi_num = 0;
        self.csi_have_num = false;
    }
}

pub proof fn lemma_pix_injective(stride: int, x1: int, y1: int, x2: int, y2: int)
    requires
        0 <= x1 < stride,
        0 <= x2 < stride,
        0 <= y1,
        0 <= y2,
        (x1, y1) != (x2, y2),
    ensures
        pix(stride, x1, y1) != pix(stride, x2, y2),
{
    if y1 < y2 {
        lemma_rows_ordered(stride, y1 + 1, y2);
        assert((y1 + 1) * stride == y1 * stride + stride) by (nonlinear_arith);
    } else if y2 < y1 {
        lemma_rows_ordered(stride, y2 + 1, y1);
        assert((y2 + 1) * stride == y2 * stride + stride) by (nonlinear_arith);
    }
}

/// Whether glyph pixel `(xx, yy)` of a cell drawn at scale 2 is set.
pub open spec fn glyph_on(glyph: [u8; 8], xx: int, yy: int) -> bool {
    (glyph@[yy / 2] >> ((7 - xx / 2) as u8)) & 1u8 == 1u8
}

/// `delta` added to `a`, saturating at the ends of `isize`.
pub open spec fn spec_sat_add_isize(a: int, delta: int) -> int {
    if a + delta > isize::MAX {
        isize::MAX as int
    } else if a + delta < isize::MIN {
        isize::MIN as int
    } else {
        a + delta
    }
}

pub fn sat_add_isize(a: isize, delta: isize) -> (r: isize)
    ensures
        r == spec_sat_add_isize(a as int, delta as int),
{
    if delta > 0 && a > isize::MAX - delta {
        isize::MAX
    } else if delta < 0 && a < isize::MIN - delta {
        isize::MIN
    } else {
        a + delta
    }
}

impl FbConsole {
    /// The screen geometry and the font are those of `other`.
    pub open spec fn same_geometry(&self, other: &FbConsole) -> bool {
        &&& self.width == other.width && self.height == other.height && self.stride == other.stride
        &&& self.fmt == other.fmt && self.cols == other.cols && self.rows == other.rows
        &&& self.max_lines == other.max_lines && self.font == other.font
    }

    /// Frame conditions shared by the drawing operations: everything but the
    /// pixel cursor, the dirty rectangle and the framebuffer stays.
    pub open spec fn same_text(&self, other: &FbConsole) -> bool {
        &&& self.inited == other.inited
        &&& self.width == other.width && self.height == other.height && self.stride == other.stride
        &&& self.fmt == other.fmt && self.cols == other.cols && self.rows == other.rows
        &&& self.max_lines == other.max_lines && self.line_base == other.line_base
        &&& self.line_count == other.line_count && self.cursor_line == other.cursor_line
        &&& self.cursor_col == other.cursor_col && self.view_offset == other.view_offset
        &&& self.lines == other.lines && self.font == other.font
        &&& self.esc == other.esc && self.csi == other.csi && self.csi_num == other.csi_num
        &&& self.csi_have_num == other.csi_have_num
    }

    /// Shifts the framebuffer up by `rows` pixel rows and blanks the rows
    /// uncovered at the bottom; clears the console when `rows` is zero or
    /// the whole height.
    pub fn scroll_locked(&mut self, g: &mut Gpu, rows: usize)
        requires
            old(self).wf(),
            old(self).on(old(g)),
            old(self).inited,
        ensures
            final(self).wf(),
            final(self).on(final(g)),
            *final(g) == (Gpu { fb: final(g).fb, ..*old(g) }),
            !old(g).inited ==> *final(self) == *old(self) && final(g).fb@ == old(g).fb@,
            old(g).inited && 0 < rows < old(self).height ==> final(self).same_text(old(self))
                && final(self).x == old(self).x && final(self).y == old(self).y && ({
                let total = old(self).height * old(self).stride;
                let scroll = rows * old(self).stride;
                final(g).fb@ == old(g).fb@.subrange(scroll, total) + Seq::new(scroll as nat, |i: int| old(self).bg())
            }),
            old(g).inited && (rows == 0 || rows >= old(self).height) ==> final(self).cursor_line == 0
                && final(self).line_count == 1 && final(self).line_base == 0 && final(self).cursor_col == 0
                && final(self).view_offset == 0,
            final(self).inited && final(self).width == old(self).width && final(self).height == old(self).height,
            final(self).cols == old(self).cols && final(self).rows == old(self).rows && final(self).font == old(self).font,
            final(self).fmt == old(self).fmt && final(self).stride == old(self).stride,
            final(self).max_lines == old(self).max_lines,
            final(self).cursor_line <= old(self).cursor_line,
    {
        if !g.inited {
            return;
        }
        if rows == 0 || rows >= self.height {
            self.clear_locked(g);
            return;
        }
        let stride = self.stride;
        let bg = self.fmt.pack_rgba(0, 0, 0, 0xff);
        assert(self.height * stride <= DIM_MAX * DIM_MAX) by (nonlinear_arith)
            requires
                self.height <= DIM_MAX,
                stride <= DIM_MAX,
        ;
        let total = self.height * stride;
        assert(rows * stride <= total) by (nonlinear_arith)
            requires
                rows < self.height,
                total == self.height * stride,
        ;
        let scroll = rows * stride;
        let ghost old_fb = g.fb@;
        let mut i: usize = 0;
        while i < total - scroll
            invariant
                g.wf(),
                g.fb@.len() == total,
                old_fb.len() == total,
                scroll <= total,
                0 <= i <= total - scroll,
                forall|k: int| 0 <= k < i ==> #[trigger] g.fb@[k] == old_fb[k + scroll],
                forall|k: int| i <= k < total ==> #[trigger] g.fb@[k] == old_fb[k],
                *g == (Gpu { fb: g.fb, ..*old(g) }),
            decreases total - scroll - i,
        {
            let v = g.fb[i + scroll];
            g.fb.set(i, v);
            i = i + 1;
        }
        let mut j: usize = total - scroll;
        while j < total
            invariant
                g.wf(),
                g.fb@.len() == total,
                old_fb.len() == total,
                scroll <= total,
                total - scroll <= j <= total,
                forall|k: int| 0 <= k < total - scroll ==> #[trigger] g.fb@[k] == old_fb[k + scroll],
                forall|k: int| total - scroll <= k < j ==> #[trigger] g.fb@[k] == bg,
                *g == (Gpu { fb: g.fb, ..*old(g) }),
            decreases total - j,
        {
            g.fb.set(j, bg);
            j = j + 1;
        }
        assert(g.fb@ =~= old_fb.subrange(scroll as int, total as int) + Seq::new(scroll as nat, |i: int| bg));
        let w = self.width;
        let h = self.height;
        self.mark_dirty_rect(0, 0, w, h);
    }

    /// Moves the cursor to the start of a new last line, adding the line to
    /// the buffer (dropping the oldest once the buffer is full), and scrolls
    /// the screen when the cursor would run off the bottom.
    pub fn newline(&mut self, g: &mut Gpu)
        requires
            old(self).wf(),
            old(self).on(old(g)),
            old(self).inited,
            old(self).cursor_line + 1 < LINE_LIMIT,
        ensures
            final(self).wf(),
            final(self).on(final(g)),
            final(self).inited,
            *final(g) == (Gpu { fb: final(g).fb, ..*old(g) }),
            final(self).cursor_col == 0,
            final(self).cursor_line <= old(self).cursor_line + 1,
            final(self).cols == old(self).cols && final(self).rows == old(self).rows && final(self).font == old(self).font,
            final(self).fmt == old(self).fmt && final(self).width == old(self).width
                && final(self).height == old(self).height && final(self).stride == old(self).stride,
            final(self).max_lines == old(self).max_lines,
            old(self).view_offset == 0 ==> final(self).view_offset == 0,
            old(self).height > CELL_H || !old(g).inited ==> {
                &&& final(self).esc == old(self).esc && final(self).csi == old(self).csi
                &&& final(self).csi_num == old(self).csi_num && final(self).csi_have_num == old(self).csi_have_num
                &&& final(self).cursor_line == old(self).cursor_line + 1
                &&& final(self).view_offset == old(self).view_offset
                &&& (old(self).cursor_line + 1 >= old(self).line_base + old(self).line_count ==> (
                    if old(self).line_count < old(self).max_lines {
                        final(self).line_count == old(self).line_count + 1 && final(self).line_base == old(self).line_base
                    } else {
                        final(self).line_count == old(self).line_count && final(self).line_base == old(self).line_base + 1
                    }))
                &&& final(self).lines@[((old(self).cursor_line + 1) % (old(self).max_lines as int))]@
                    == Seq::new(old(self).cols as nat, |j: int| 32u8)
                &&& forall|k: int|
                    0 <= k < old(self).max_lines && k != (old(self).cursor_line + 1) % (old(self).max_lines as int)
                        ==> #[trigger] final(self).lines@[k] == old(self).lines@[k]
            },
    {
        let line_px = CELL_H;
        self.cursor_line = sat_add(self.cursor_line, 1);
        self.cursor_col = 0;
        if self.cursor_line >= self.line_base + self.line_count {
            if self.line_count < self.max_lines {
                self.line_count = self.line_count + 1;
            } else {
                self.line_base = sat_add(self.line_base, 1);
            }
            let cl = self.cursor_line;
            self.clear_line_buf(cl);
        } else {
            let cl = self.cursor_line;
            self.clear_line_buf(cl);
        }
        let ny = self.y + line_px;
        self.x = BORDER_PADDING;
        if ny + CHAR_H + BORDER_PADDING >= self.height {
            let cleared = g.inited && line_px >= self.height;
            self.scroll_locked(g, line_px);
            if cleared {
                self.y = sat_sub(self.y, line_px);
            } else {
                self.y = sat_sub(ny, line_px);
            }
        } else {
            self.y = ny;
        }
    }

    /// Blanks the rest of the cursor's line, on screen and in the buffer.
    pub fn erase_to_eol(&mut self, g: &mut Gpu)
        requires
            old(self).wf(),
            old(self).on(old(g)),
        ensures
            final(self).wf(),
            final(self).on(final(g)),
            *final(g) == (Gpu { fb: final(g).fb, ..*old(g) }),
            final(self).x == old(self).x && final(self).y == old(self).y,
            final(self).cursor_line == old(self).cursor_line && final(self).cursor_col == old(self).cursor_col,
            final(self).line_base == old(self).line_base && final(self).line_count == old(self).line_count,
            final(self).view_offset == old(self).view_offset,
            final(self).inited == old(self).inited && final(self).cols == old(self).cols && final(self).rows == old(self).rows,
            final(self).width == old(self).width && final(self).height == old(self).height,
            final(self).stride == old(self).stride && final(self).fmt == old(self).fmt,
            final(self).max_lines == old(self).max_lines && final(self).font == old(self).font,
            final(self).esc == old(self).esc && final(self).csi == old(self).csi,
            final(self).csi_num == old(self).csi_num && final(self).csi_have_num == old(self).csi_have_num,
            ({
                let x0 = spec_min(old(self).x as int, old(self).width as int);
                let x1 = (if old(self).width < BORDER_PADDING { 0 } else { old(self).width - BORDER_PADDING });
                let y0 = spec_min(old(self).y as int, old(self).height as int);
                let y1 = spec_min(old(self).y + CELL_H, old(self).height as int);
                let li = (old(self).cursor_line % old(self).max_lines) as int;
                if x1 <= x0 || y1 <= y0 {
                    final(g).fb@ == old(g).fb@ && final(self).lines == old(self).lines
                } else {
                    &&& final(g).fb@.len() == old(g).fb@.len()
                    &&& (forall|xx: int, yy: int|
                        x0 <= xx < x1 && y0 <= yy < y1 ==> #[trigger] final(g).fb@[pix(old(self).stride as int, xx, yy)] == old(self).bg())
                    &&& (forall|i: int| 0 <= i < old(g).fb@.len() && (i < y0 * old(self).stride || i >= y1 * old(self).stride)
                        ==> #[trigger] final(g).fb@[i] == old(g).fb@[i])
                    &&& final(self).lines@.len() == old(self).lines@.len()
                    &&& final(self).lines@[li]@ == old(self).lines@[li]@.subrange(0, old(self).cursor_col as int)
                        + Seq::new((old(self).cols - old(self).cursor_col) as nat, |j: int| 32u8)
                    &&& forall|k: int| 0 <= k < old(self).max_lines && k != li ==> #[trigger] final(self).lines@[k] == old(self).lines@[k]
                }
            }),
    {
        let bg = self.fmt.pack_rgba(0, 0, 0, 0xff);
        let x0 = min_usize(self.x, self.width);
        let x1 = min_usize(sat_sub(self.width, BORDER_PADDING), self.width);
        if x1 <= x0 {
            return;
        }
        let y0 = min_usize(self.y, self.height);
        let y1 = min_usize(self.y + CELL_H, self.height);
        if y1 <= y0 {
            return;
        }
        let stride = self.stride;
        let ghost old_fb = g.fb@;
        assert(self.height * stride <= DIM_MAX * DIM_MAX) by (nonlinear_arith)
            requires
                self.height <= DIM_MAX,
                stride <= DIM_MAX,
        ;
        let mut yy: usize = y0;
        while yy < y1
            invariant
                old_fb.len() <= DIM_MAX * DIM_MAX,
                g.wf(),
                g.inited,
                g.width == self.width && g.height == self.height && g.stride == stride,
                g.fb@.len() == old_fb.len(),
                old_fb.len() == self.height * stride,
                x0 < x1 <= self.width <= stride,
                y0 <= yy <= y1 <= self.height,
                forall|a: int, b: int| x0 <= a < x1 && y0 <= b < yy ==> #[trigger] g.fb@[pix(stride as int, a, b)] == bg,
                forall|i: int| 0 <= i < old_fb.len() && (i < y0 * stride || i >= yy * stride) ==> #[trigger] g.fb@[i] == old_fb[i],
                *g == (Gpu { fb: g.fb, ..*old(g) }),
            decreases y1 - yy,
        {
            proof {
                lemma_pix_bounds(stride as int, self.height as int, 0, yy as int);
            }
            let off = yy * stride;
            let mut p: usize = x0;
            while p < x1
                invariant
                    old_fb.len() <= DIM_MAX * DIM_MAX,
                    g.wf(),
                    g.inited,
                    g.width == self.width && g.height == self.height && g.stride == stride,
                    g.fb@.len() == old_fb.len(),
                    old_fb.len() == self.height * stride,
                    x0 <= p <= x1 <= self.width <= stride,
                    y0 <= yy < y1 <= self.height,
                    off == yy * stride,
                    forall|a: int, b: int| x0 <= a < x1 && y0 <= b < yy ==> #[trigger] g.fb@[pix(stride as int, a, b)] == bg,
                    forall|a: int| x0 <= a < p ==> #[trigger] g.fb@[pix(stride as int, a, yy as int)] == bg,
                    forall|i: int| 0 <= i < old_fb.len() && (i < y0 * stride || i >= (yy + 1) * stride) ==> #[trigger] g.fb@[i] == old_fb[i],
                    *g == (Gpu { fb: g.fb, ..*old(g) }),
                decreases x1 - p,
            {
                proof {
                    lemma_pix_bounds(stride as int, self.height as int, p as int, yy as int);
                    assert forall|a: int, b: int| x0 <= a < x1 && y0 <= b < yy implies pix(stride as int, a, b) != pix(stride as int, p as int, yy as int)
                        && 0 <= pix(stride as int, a, b) < old_fb.len() by {
                        lemma_pix_injective(stride as int, a, b, p as int, yy as int);
                        lemma_pix_bounds(stride as int, self.height as int, a, b);
                    }
                    assert forall|a: int| x0 <= a < p implies pix(stride as int, a, yy as int) != pix(stride as int, p as int, yy as int) by {
                        lemma_pix_injective(stride as int, a, yy as int, p as int, yy as int);
                    }
                    lemma_rows_ordered(stride as int, y0 as int, yy as int);
                }
                g.fb.set(off + p, bg);
                p = p + 1;
            }
            proof {
                assert((yy + 1) * stride == yy * stride + stride) by (nonlinear_arith);
            }
            yy = yy + 1;
        }
        self.mark_dirty_rect(x0, y0, x1 - x0, y1 - y0);
        let cl = self.cursor_line;
        let idx = self.line_index(cl);
        let start = min_usize(self.cursor_col, self.cols);
        let mut line = self.lines[idx].clone();
        let ghost old_line = line@;
        let mut k: usize = start;
        while k < line.len()
            invariant
                start <= k <= line@.len(),
                line@.len() == old_line.len(),
                forall|q: int| 0 <= q < start ==> #[trigger] line@[q] == old_line[q],
                forall|q: int| start <= q < k ==> #[trigger] line@[q] == 32u8,
            decreases line@.len() - k,
        {
            line.set(k, 32u8);
            k = k + 1;
        }
        assert(line@ =~= old_line.subrange(0, self.cursor_col as int) + Seq::new((self.cols - self.cursor_col) as nat, |j: int| 32u8));
        self.lines.set(idx, line);
    }
}

/// Sets pixel `(x, y)` to `color`.
pub fn put_pixel(g: &mut Gpu, x: usize, y: usize, color: u32)
    requires
        old(g).wf(),
        x < old(g).width,
        y < old(g).height,
    ensures
        final(g).wf(),
        final(g).fb@ == old(g).fb@.update(pix(old(g).stride as int, x as int, y as int), color),
        *final(g) == (Gpu { fb: final(g).fb, ..*old(g) }),
{
    proof {
        lemma_pix_bounds(g.stride as int, g.height as int, x as int, y as int);
    }
    assert(g.height * g.stride <= DIM_MAX * DIM_MAX) by (nonlinear_arith)
        requires
            g.height <= DIM_MAX,
            g.stride <= DIM_MAX,
    ;
    let off = y * g.stride + x;
    g.fb.set(off, color);
}

/// Index into the glyph table of byte `c`; bytes past ASCII show as '?'.
pub open spec fn glyph_index(c: u8) -> int {
    if c < 128 { c as int } else { 63 }
}



impl FbConsole {
    /// Framebuffer `n` is `o` with character `c` drawn with its top-left
    /// pixel at `(px, py)`: the cell's pixels on the screen show the glyph,
    /// and nothing outside the cell changed.
    pub open spec fn char_drawn(&self, o: Seq<u32>, n: Seq<u32>, c: u8, px: int, py: int) -> bool {
        &&& n.len() == o.len()
        &&& forall|xx: int, yy: int|
            0 <= xx < CHAR_W && 0 <= yy < CHAR_H && px + xx < self.width && py + yy < self.height
                ==> #[trigger] n[pix(self.stride as int, px + xx, py + yy)] == (if glyph_on(
                self.font@[glyph_index(c)],
                xx,
                yy,
            ) {
                self.fg()
            } else {
                self.bg()
            })
        &&& forall|x: int, y: int|
            0 <= x < self.stride && 0 <= y < self.height && (!(px <= x < px + CHAR_W && py <= y < py + CHAR_H) || x >= self.width)
                ==> #[trigger] n[pix(self.stride as int, x, y)] == o[pix(self.stride as int, x, y)]
    }

    /// Draws byte `c` as a 16x16 cell with its top-left pixel at
    /// `(px, py)`, clipped to the screen.
    pub fn draw_char_at(&mut self, g: &mut Gpu, c: u8, px: usize, py: usize)
        requires
            old(self).wf(),
            old(self).on(old(g)),
            old(self).inited,
            px + CHAR_W <= usize::MAX,
            py + CHAR_H <= usize::MAX,
        ensures
            final(self).wf(),
            final(self).on(final(g)),
            final(self).same_text(old(self)),
            final(self).x == old(self).x && final(self).y == old(self).y,
            *final(g) == (Gpu { fb: final(g).fb, ..*old(g) }),
            final(g).fb@.len() == old(g).fb@.len(),
            old(g).inited ==> forall|xx: int, yy: int|
                0 <= xx < CHAR_W && 0 <= yy < CHAR_H && px + xx < old(self).width && py + yy < old(self).height
                    ==> #[trigger] final(g).fb@[pix(old(self).stride as int, px + xx, py + yy)] == (if glyph_on(
                    old(self).font@[glyph_index(c)],
                    xx,
                    yy,
                ) {
                    old(self).fg()
                } else {
                    old(self).bg()
                }),
            forall|x: int, y: int|
                0 <= x < old(self).stride && 0 <= y < old(self).height && !(px <= x < px + CHAR_W && py <= y < py
                    + CHAR_H) ==> #[trigger] final(g).fb@[pix(old(self).stride as int, x, y)] == old(g).fb@[pix(
                    old(self).stride as int,
                    x,
                    y,
                )],
            old(g).inited ==> old(self).char_drawn(old(g).fb@, final(g).fb@, c, px as int, py as int),
    {
        if !g.inited {
            return;
        }
        let gi: usize = if c < 128 { c as usize } else { 63 };
        let glyph = self.font[gi];
        let fg = self.fmt.pack_rgba(0, 255, 64, 0xff);
        let bg = self.fmt.pack_rgba(0, 0, 0, 0xff);
        let stride = self.stride;
        let width = self.width;
        let height = self.height;
        let ghost old_fb = g.fb@;
        let mut minx = px;
        let mut miny = py;
        let mut maxx = px;
        let mut maxy = py;
        let mut yy: usize = 0;
        while yy < CHAR_H
            invariant
                g.wf(),
                g.inited,
                g.width == width && g.height == height && g.stride == stride,
                width == self.width && height == self.height && stride == self.stride,
                self.wf() && self.inited,
                g.fb@.len() == old_fb.len(),
                glyph == self.font@[glyph_index(c)],
                fg == self.fg() && bg == self.bg(),
                0 <= yy <= CHAR_H,
                px + CHAR_W <= usize::MAX && py + CHAR_H <= usize::MAX,
                minx == px && px <= maxx < px + CHAR_W,
                miny == py && py <= maxy < py + CHAR_H,
                forall|a: int, b: int|
                    0 <= a < CHAR_W && 0 <= b < yy && px + a < width && py + b < height
                        ==> #[trigger] g.fb@[pix(stride as int, px + a, py + b)] == (if glyph_on(glyph, a, b) {
                        fg
                    } else {
                        bg
                    }),
                forall|x: int, y: int|
                    0 <= x < stride && 0 <= y < height && (!(px <= x < px + CHAR_W && py <= y < py + CHAR_H) || x >= width)
                        ==> #[trigger] g.fb@[pix(stride as int, x, y)] == old_fb[pix(stride as int, x, y)],
                *g == (Gpu { fb: g.fb, ..*old(g) }),
            decreases CHAR_H - yy,
        {
            let bits = glyph[yy / 2];
            let mut xx: usize = 0;
            while xx < CHAR_W
                invariant
                    g.wf(),
                    g.inited,
                    g.width == width && g.height == height && g.stride == stride,
                    width == self.width && height == self.height && stride == self.stride,
                    self.wf() && self.inited,
                    g.fb@.len() == old_fb.len(),
                    glyph == self.font@[glyph_index(c)],
                    bits == glyph@[(yy / 2) as int],
                    fg == self.fg() && bg == self.bg(),
                    0 <= yy < CHAR_H,
                    0 <= xx <= CHAR_W,
                    px + CHAR_W <= usize::MAX && py + CHAR_H <= usize::MAX,
                    minx == px && px <= maxx < px + CHAR_W,
                    miny == py && py <= maxy < py + CHAR_H,
                    forall|a: int, b: int|
                        0 <= a < CHAR_W && 0 <= b < yy && px + a < width && py + b < height
                            ==> #[trigger] g.fb@[pix(stride as int, px + a, py + b)] == (if glyph_on(glyph, a, b) {
                            fg
                        } else {
                            bg
                        }),
                    forall|a: int|
                        0 <= a < xx && px + a < width && py + yy < height
                            ==> #[trigger] g.fb@[pix(stride as int, px + a, py + yy)] == (if glyph_on(glyph, a, yy as int) {
                            fg
                        } else {
                            bg
                        }),
                    forall|x: int, y: int|
                        0 <= x < stride && 0 <= y < height && (!(px <= x < px + CHAR_W && py <= y < py + CHAR_H) || x >= width)
                            ==> #[trigger] g.fb@[pix(stride as int, x, y)] == old_fb[pix(stride as int, x, y)],
                    *g == (Gpu { fb: g.fb, ..*old(g) }),
                decreases CHAR_W - xx,
            {
                let on = (bits >> ((7 - xx / 2) as u8)) & 1u8 == 1u8;
                let color = if on { fg } else { bg };
                let x = px + xx;
                let y = py + yy;
                if x < width && y < height {
                    let ghost before = g.fb@;
                    put_pixel(g, x, y, color);
                    proof {
                        lemma_pix_bounds(stride as int, height as int, x as int, y as int);
                        assert forall|a: int, b: int|
                            0 <= a < CHAR_W && 0 <= b < yy && px + a < width && py + b < height implies
                            #[trigger] g.fb@[pix(stride as int, px + a, py + b)] == (if glyph_on(glyph, a, b) { fg } else { bg }) by {
                            lemma_pix_injective(stride as int, px + a, py + b, x as int, y as int);
                            lemma_pix_bounds(stride as int, height as int, px + a, py + b);
                            assert(before[pix(stride as int, px + a, py + b)] == (if glyph_on(glyph, a, b) { fg } else { bg }));
                            assert(before.update(pix(stride as int, x as int, y as int), color)[pix(stride as int, px + a, py + b)]
                                == before[pix(stride as int, px + a, py + b)]);
                        }
                        assert forall|a: int|
                            0 <= a < xx + 1 && px + a < width && py + yy < height implies
                            #[trigger] g.fb@[pix(stride as int, px + a, py + yy)] == (if glyph_on(glyph, a, yy as int) { fg } else { bg }) by {
                            if a != xx {
                                lemma_pix_injective(stride as int, px + a, py + yy, x as int, y as int);
                                lemma_pix_bounds(stride as int, height as int, px + a, py + yy);
                                assert(before[pix(stride as int, px + a, py + yy)] == (if glyph_on(glyph, a, yy as int) { fg } else { bg }));
                                assert(before.update(pix(stride as int, x as int, y as int), color)[pix(stride as int, px + a, py + yy)]
                                    == before[pix(stride as int, px + a, py + yy)]);
                            } else {
                                assert(color == (if glyph_on(glyph, a, yy as int) { fg } else { bg }));
                            }
                        }
                        assert forall|x2: int, y2: int|
                            0 <= x2 < stride && 0 <= y2 < height && (!(px <= x2 < px + CHAR_W && py <= y2 < py + CHAR_H) || x2 >= width) implies
                            #[trigger] g.fb@[pix(stride as int, x2, y2)] == old_fb[pix(stride as int, x2, y2)] by {
                            lemma_pix_injective(stride as int, x2, y2, x as int, y as int);
                            lemma_pix_bounds(stride as int, height as int, x2, y2);
                            assert(before[pix(stride as int, x2, y2)] == old_fb[pix(stride as int, x2, y2)]);
                            assert(before.update(pix(stride as int, x as int, y as int), color)[pix(stride as int, x2, y2)]
                                == before[pix(stride as int, x2, y2)]);
                        }
                    }
                    minx = min_usize(minx, x);
                    miny = min_usize(miny, y);
                    maxx = max_usize(maxx, x);
                    maxy = max_usize(maxy, y);
                }
                xx = xx + 1;
            }
            yy = yy + 1;
        }
        self.mark_dirty_rect(minx, miny, maxx - minx + 1, maxy - miny + 1);
    }
}

/// Whether `(x, y)` lies in the rectangle `[x0, x1) x [y0, y1)`.
pub open spec fn in_rect(x: int, y: int, x0: int, x1: int, y0: int, y1: int) -> bool {
    x0 <= x < x1 && y0 <= y < y1
}

/// Fills the rectangle `[x0, x1) x [y0, y1)` with `color`.
pub fn fill_rect(g: &mut Gpu, x0: usize, x1: usize, y0: usize, y1: usize, color: u32)
    requires
        old(g).wf(),
        x0 <= x1 <= old(g).width,
        y0 <= y1 <= old(g).height,
    ensures
        final(g).wf(),
        *final(g) == (Gpu { fb: final(g).fb, ..*old(g) }),
        final(g).fb@.len() == old(g).fb@.len(),
        forall|x: int, y: int|
            0 <= x < old(g).stride && 0 <= y < old(g).height ==> #[trigger] final(g).fb@[pix(
                old(g).stride as int,
                x,
                y,
            )] == (if in_rect(x, y, x0 as int, x1 as int, y0 as int, y1 as int) {
                color
            } else {
                old(g).fb@[pix(old(g).stride as int, x, y)]
            }),
{
    let stride = g.stride;
    let height = g.height;
    let ghost old_fb = g.fb@;
    let mut yy: usize = y0;
    while yy < y1
        invariant
            g.wf(),
            g.stride == stride && g.height == height,
            x0 <= x1 <= g.width,
            y0 <= yy <= y1 <= height,
            g.fb@.len() == old_fb.len(),
            forall|x: int, y: int|
                0 <= x < stride && 0 <= y < height ==> #[trigger] g.fb@[pix(stride as int, x, y)] == (if in_rect(
                    x,
                    y,
                    x0 as int,
                    x1 as int,
                    y0 as int,
                    yy as int,
                ) {
                    color
                } else {
                    old_fb[pix(stride as int, x, y)]
                }),
            *g == (Gpu { fb: g.fb, ..*old(g) }),
        decreases y1 - yy,
    {
        let mut xx: usize = x0;
        while xx < x1
            invariant
                g.wf(),
                g.stride == stride && g.height == height,
                x0 <= xx <= x1 <= g.width,
                y0 <= yy < y1 <= height,
                g.fb@.len() == old_fb.len(),
                forall|x: int, y: int|
                    0 <= x < stride && 0 <= y < height ==> #[trigger] g.fb@[pix(stride as int, x, y)] == (if in_rect(
                        x,
                        y,
                        x0 as int,
                        x1 as int,
                        y0 as int,
                        yy as int,
                    ) || in_rect(x, y, x0 as int, xx as int, yy as int, yy + 1) {
                        color
                    } else {
                        old_fb[pix(stride as int, x, y)]
                    }),
                *g == (Gpu { fb: g.fb, ..*old(g) }),
            decreases x1 - xx,
        {
            let ghost before = g.fb@;
            put_pixel(g, xx, yy, color);
            proof {
                lemma_pix_bounds(stride as int, height as int, xx as int, yy as int);
                assert forall|x: int, y: int| 0 <= x < stride && 0 <= y < height implies #[trigger] g.fb@[pix(
                    stride as int,
                    x,
                    y,
                )] == (if in_rect(x, y, x0 as int, x1 as int, y0 as int, yy as int) || in_rect(
                    x,
                    y,
                    x0 as int,
                    xx + 1,
                    yy as int,
                    yy + 1,
                ) {
                    color
                } else {
                    old_fb[pix(stride as int, x, y)]
                }) by {
                    lemma_pix_bounds(stride as int, height as int, x, y);
                    if x != xx || y != yy {
                        lemma_pix_injective(stride as int, x, y, xx as int, yy as int);
                        assert(before.update(pix(stride as int, xx as int, yy as int), color)[pix(stride as int, x, y)]
                            == before[pix(stride as int, x, y)]);
                    }
                }
            }
            xx = xx + 1;
        }
        yy = yy + 1;
    }
}

/// `d` lies in the `d / m`-th block of `m`, at offset `d % m`.
pub proof fn lemma_div_block(d: int, m: int)
    requires
        0 <= d,
        0 < m,
    ensures
        0 <= d / m,
        m * (d / m) <= d < m * (d / m) + m,
        d % m == d - m * (d / m),
{
    vstd::arithmetic::div_mod::lemma_fundamental_div_mod(d, m);
    vstd::arithmetic::div_mod::lemma_mod_pos_bound(d, m);
    vstd::arithmetic::div_mod::lemma_div_pos_is_pos(d, m);
    assert(m * (d / m) == (d / m) * m) by (nonlinear_arith);
}

impl FbConsole {
    /// What the characters of line `l` in the columns below `ncols` put at
    /// pixel `(x, yy)` of a text row, `yy` pixels below its top: the bit of
    /// the glyph of a character other than the space; nothing elsewhere.
    pub open spec fn glyph_pixel(&self, l: Seq<u8>, ncols: int, x: int, yy: int) -> Option<u32> {
        let c = (x - BORDER_PADDING) / (CELL_W as int);
        if x >= BORDER_PADDING && c < ncols && 0 <= yy < CHAR_H && l[c] != 32u8 {
            Some(
                if glyph_on(self.font@[glyph_index(l[c])], (x - BORDER_PADDING) % (CELL_W as int), yy) {
                    self.fg()
                } else {
                    self.bg()
                },
            )
        } else {
            None
        }
    }

    /// What pixel `(x, yy)` of a text row showing `line` looks like
    /// (`None`: a row past the end of the buffer, left blank).
    pub open spec fn text_pixel(&self, line: Option<Seq<u8>>, x: int, yy: int) -> u32 {
        match line {
            Some(l) => match self.glyph_pixel(l, self.cols as int, x, yy) {
                Some(p) => p,
                None => self.bg(),
            },
            None => self.bg(),
        }
    }

    /// The text of absolute line `abs`, if the buffer holds it.
    pub open spec fn shown_line(&self, abs: int) -> Option<Seq<u8>> {
        if abs < self.line_base + self.line_count {
            Some(self.lines@[abs % (self.max_lines as int)]@)
        } else {
            None
        }
    }

    /// What the screen shows at pixel `(x, y)` when painted from the text
    /// buffer: each text row its line of the view, the rest blank.
    pub open spec fn screen_pixel(&self, x: int, y: int) -> u32 {
        let r = (y - BORDER_PADDING) / (CELL_H as int);
        if y >= BORDER_PADDING && r < self.rows {
            self.text_pixel(self.shown_line(self.spec_visible_start() + r), x, (y - BORDER_PADDING) % (CELL_H as int))
        } else {
            self.bg()
        }
    }

    /// The pixel cursor's place for the cursor cell.
    pub open spec fn cursor_px(&self) -> (int, int) {
        let row = spec_min(
            if self.cursor_line < self.spec_visible_start() { 0 } else { self.cursor_line - self.spec_visible_start() },
            self.rows - 1,
        );
        let col = spec_min(self.cursor_col as int, self.cols - 1);
        (BORDER_PADDING + col * CELL_W, BORDER_PADDING + row * CELL_H)
    }

    /// Draws the characters of line `idx` other than spaces into text row
    /// `row`, leaving the other pixels as they are.
    fn draw_row_text(&mut self, g: &mut Gpu, row: usize, idx: usize)
        requires
            old(self).wf(),
            old(self).on(old(g)),
            old(self).inited,
            idx < old(self).max_lines,
            row < old(self).rows,
        ensures
            final(self).wf(),
            final(self).on(final(g)),
            final(self).same_text(old(self)),
            final(self).x == old(self).x && final(self).y == old(self).y,
            *final(g) == (Gpu { fb: final(g).fb, ..*old(g) }),
            final(g).fb@.len() == old(g).fb@.len(),
            forall|x: int, y: int|
                0 <= x < old(self).width && 0 <= y < old(self).height ==> #[trigger] final(g).fb@[pix(
                    old(self).stride as int,
                    x,
                    y,
                )] == match old(self).glyph_pixel(
                    old(self).lines@[idx as int]@,
                    old(self).cols as int,
                    x,
                    y - (BORDER_PADDING + row * CELL_H),
                ) {
                    Some(p) => p,
                    None => old(g).fb@[pix(old(self).stride as int, x, y)],
                },
    {
        assert(row * CELL_H <= DIM_MAX * CELL_H) by (nonlinear_arith)
            requires
                row <= DIM_MAX,
        ;
        let y0 = BORDER_PADDING + row * CELL_H;
        let ghost l = self.lines@[idx as int]@;
        let ghost stride = self.stride as int;
        let cols = self.cols;
        let mut col: usize = 0;
        while col < cols
            invariant
                self.wf(),
                self.on(g),
                self.inited,
                self.same_text(old(self)),
                self.x == old(self).x && self.y == old(self).y,
                *g == (Gpu { fb: g.fb, ..*old(g) }),
                g.fb@.len() == old(g).fb@.len(),
                cols == self.cols,
                idx < self.max_lines,
                row < self.rows,
                y0 == BORDER_PADDING + row * CELL_H,
                y0 <= 64 * DIM_MAX,
                l == self.lines@[idx as int]@,
                stride == self.stride,
                0 <= col <= cols,
                forall|x: int, y: int|
                    0 <= x < old(self).width && 0 <= y < old(self).height ==> #[trigger] g.fb@[pix(stride, x, y)]
                        == match old(self).glyph_pixel(l, col as int, x, y - y0) {
                        Some(p) => p,
                        None => old(g).fb@[pix(stride, x, y)],
                    },
            decreases cols - col,
        {
            let ch = self.lines[idx][col];
            let ghost before = g.fb@;
            let ghost sbefore = *self;
            let px = BORDER_PADDING + self.cell_x(col);
            if ch != 32u8 {
                self.draw_char_at(g, ch, px, y0);
            }
            proof {
                assert forall|x: int, y: int|
                    0 <= x < old(self).width && 0 <= y < old(self).height implies #[trigger] g.fb@[pix(stride, x, y)]
                        == match old(self).glyph_pixel(l, col + 1, x, y - y0) {
                        Some(p) => p,
                        None => old(g).fb@[pix(stride, x, y)],
                    } by {
                    assert(before[pix(stride, x, y)] == match old(self).glyph_pixel(l, col as int, x, y - y0) {
                        Some(p) => p,
                        None => old(g).fb@[pix(stride, x, y)],
                    });
                    if x >= BORDER_PADDING {
                        lemma_div_block(x - BORDER_PADDING, CELL_W as int);
                    }
                    let inbox = px <= x < px + CHAR_W && y0 <= y < y0 + CHAR_H;
                    if !(x >= BORDER_PADDING && (x - BORDER_PADDING) / (CELL_W as int) == col) {
                        assert(!inbox);
                        assert(old(self).glyph_pixel(l, col + 1, x, y - y0) == old(self).glyph_pixel(l, col as int, x, y - y0));
                        assert(g.fb@[pix(stride, x, y)] == before[pix(stride, x, y)]);
                    } else {
                        assert(old(self).glyph_pixel(l, col as int, x, y - y0) is None);
                        if ch == 32u8 || !inbox {
                            assert(g.fb@[pix(stride, x, y)] == before[pix(stride, x, y)]);
                            assert(old(self).glyph_pixel(l, col + 1, x, y - y0) is None);
                        } else {
                            assert((x - BORDER_PADDING) % (CELL_W as int) == x - px);
                            assert(g.fb@[pix(stride, px + (x - px), y0 + (y - y0))] == (if glyph_on(
                                sbefore.font@[glyph_index(ch)],
                                x - px,
                                y - y0,
                            ) {
                                sbefore.fg()
                            } else {
                                sbefore.bg()
                            }));
                        }
                    }
                }
            }
            col = col + 1;
        }
    }
}

impl FbConsole {
    /// Blanks the pixel rows of text row `row`.
    pub fn clear_row_area(&mut self, g: &mut Gpu, row: usize)
        requires
            old(self).wf(),
            old(self).on(old(g)),
            old(self).inited,
            old(g).inited ==> BORDER_PADDING + row * CELL_H <= old(self).height,
        ensures
            final(self).wf(),
            final(self).on(final(g)),
            final(self).same_text(old(self)),
            final(self).x == old(self).x && final(self).y == old(self).y,
            *final(g) == (Gpu { fb: final(g).fb, ..*old(g) }),
            final(g).fb@.len() == old(g).fb@.len(),
            !old(g).inited ==> final(g).fb@ == old(g).fb@,
            old(g).inited ==> ({
                let y0 = BORDER_PADDING + row * CELL_H;
                let y1 = spec_min(y0 + CELL_H, old(self).height as int);
                forall|x: int, y: int|
                    0 <= x < old(self).stride && 0 <= y < old(self).height ==> #[trigger] final(g).fb@[pix(
                        old(self).stride as int,
                        x,
                        y,
                    )] == (if in_rect(x, y, 0, old(self).width as int, y0, y1) {
                        old(self).bg()
                    } else {
                        old(g).fb@[pix(old(self).stride as int, x, y)]
                    })
            }),
    {
        if !g.inited {
            return;
        }
        let bg = self.fmt.pack_rgba(0, 0, 0, 0xff);
        let y0 = BORDER_PADDING + row * CELL_H;
        let y1 = min_usize(y0 + CELL_H, self.height);
        let w = self.width;
        fill_rect(g, 0, w, y0, y1, bg);
        self.mark_dirty_rect(0, y0, w, y1 - y0);
    }

    /// Redraws text row `row` of the screen from absolute line `abs_line`
    /// (blank when that line is past the end of the buffer).
    pub fn draw_line_row(&mut self, g: &mut Gpu, row: usize, abs_line: usize)
        requires
            old(self).wf(),
            old(self).on(old(g)),
            old(self).inited,
            row < old(self).rows,
            BORDER_PADDING + row * CELL_H <= old(self).height,
        ensures
            final(self).wf(),
            final(self).on(final(g)),
            final(self).same_text(old(self)),
            final(self).x == old(self).x && final(self).y == old(self).y,
            *final(g) == (Gpu { fb: final(g).fb, ..*old(g) }),
            final(g).fb@.len() == old(g).fb@.len(),
            forall|x: int, y: int|
                0 <= x < old(self).width && 0 <= y < old(self).height ==> #[trigger] final(g).fb@[pix(
                    old(self).stride as int,
                    x,
                    y,
                )] == (if BORDER_PADDING + row * CELL_H <= y < BORDER_PADDING + row * CELL_H + CELL_H {
                    old(self).text_pixel(old(self).shown_line(abs_line as int), x, y - (BORDER_PADDING + row * CELL_H))
                } else {
                    old(g).fb@[pix(old(self).stride as int, x, y)]
                }),
    {
        let ghost stride = self.stride as int;
        let ghost y0 = BORDER_PADDING + row * CELL_H;
        self.clear_row_area(g, row);
        let ghost cleared = g.fb@;
        let end_line = self.line_base + self.line_count;
        if abs_line >= end_line {
            return;
        }
        let idx = self.line_index(abs_line);
        self.draw_row_text(g, row, idx);
        proof {
            assert forall|x: int, y: int| 0 <= x < old(self).width && 0 <= y < old(self).height implies #[trigger] g.fb@[pix(
                stride,
                x,
                y,
            )] == (if y0 <= y < y0 + CELL_H {
                old(self).text_pixel(old(self).shown_line(abs_line as int), x, y - y0)
            } else {
                old(g).fb@[pix(stride, x, y)]
            }) by {
                assert(cleared[pix(stride, x, y)] == (if in_rect(x, y, 0, old(self).width as int, y0, spec_min(y0 + CELL_H, old(self).height as int)) {
                    old(self).bg()
                } else {
                    old(g).fb@[pix(stride, x, y)]
                }));
            }
        }
    }

    /// Repaints the whole screen from the text buffer and moves the pixel
    /// cursor to the cursor cell.
    pub fn redraw_from_buffer(&mut self, g: &mut Gpu)
        requires
            old(self).wf(),
            old(self).on(old(g)),
            old(self).inited,
        ensures
            final(self).wf(),
            final(self).on(final(g)),
            final(self).same_text(old(self)),
            final(self).x == old(self).cursor_px().0 && final(self).y == old(self).cursor_px().1,
            *final(g) == (Gpu { fb: final(g).fb, ..*old(g) }),
            final(g).fb@.len() == old(g).fb@.len(),
            forall|x: int, y: int|
                0 <= x < old(self).width && 0 <= y < old(self).height ==> #[trigger] final(g).fb@[pix(
                    old(self).stride as int,
                    x,
                    y,
                )] == old(self).screen_pixel(x, y),
    {
        let ghost stride = self.stride as int;
        if g.inited {
            let bg = self.fmt.pack_rgba(0, 0, 0, 0xff);
            fill_fb(g, bg);
            let w = self.width;
            let h = self.height;
            self.mark_dirty_rect(0, 0, w, h);
        }
        proof {
            assert forall|x: int, y: int| 0 <= x < old(self).width && 0 <= y < old(self).height implies #[trigger] g.fb@[pix(
                stride,
                x,
                y,
            )] == old(self).bg() by {
                lemma_pix_bounds(stride, old(self).height as int, x, y);
            }
        }
        let start_line = self.visible_start_line();
        let end_line = self.line_base + self.line_count;
        let rows = self.rows;
        let mut row: usize = 0;
        while row < rows
            invariant
                self.wf(),
                self.on(g),
                self.inited,
                self.same_text(old(self)),
                *g == (Gpu { fb: g.fb, ..*old(g) }),
                g.fb@.len() == old(g).fb@.len(),
                rows == self.rows,
                end_line == self.line_base + self.line_count,
                start_line == old(self).spec_visible_start(),
                start_line < end_line,
                stride == self.stride,
                0 <= row <= rows,
                forall|x: int, y: int|
                    0 <= x < old(self).width && 0 <= y < old(self).height ==> #[trigger] g.fb@[pix(stride, x, y)] == (
                    if y >= BORDER_PADDING && (y - BORDER_PADDING) / (CELL_H as int) < row {
                        old(self).screen_pixel(x, y)
                    } else {
                        old(self).bg()
                    }),
            decreases rows - row,
        {
            let abs = start_line + row;
            let ghost before = g.fb@;
            let ghost y0 = BORDER_PADDING + row * CELL_H;
            if abs < end_line {
                let idx = self.line_index(abs);
                self.draw_row_text(g, row, idx);
            }
            proof {
                assert forall|x: int, y: int| 0 <= x < old(self).width && 0 <= y < old(self).height implies #[trigger] g.fb@[pix(
                    stride,
                    x,
                    y,
                )] == (if y >= BORDER_PADDING && (y - BORDER_PADDING) / (CELL_H as int) < row + 1 {
                    old(self).screen_pixel(x, y)
                } else {
                    old(self).bg()
                }) by {
                    assert(before[pix(stride, x, y)] == (if y >= BORDER_PADDING && (y - BORDER_PADDING) / (CELL_H as int) < row {
                        old(self).screen_pixel(x, y)
                    } else {
                        old(self).bg()
                    }));
                    if y >= BORDER_PADDING {
                        lemma_div_block(y - BORDER_PADDING, CELL_H as int);
                    }
                }
            }
            row = row + 1;
        }
        self.update_cursor_xy();
    }

    /// Hands the dirty rectangle to the GPU for transfer and flush, and
    /// forgets it.
    pub fn flush_dirty_locked(&mut self, g: &mut Gpu)
        requires
            old(self).wf(),
            old(self).on(old(g)),
        ensures
            final(self).wf(),
            final(self).on(final(g)),
            !old(self).dirty ==> *final(self) == *old(self) && *final(g) == *old(g),
            old(self).dirty ==> *final(self) == (FbConsole {
                dirty: false,
                dirty_minx: 0,
                dirty_miny: 0,
                dirty_maxx: 0,
                dirty_maxy: 0,
                ..*old(self)
            }),
            old(self).dirty ==> *final(g) == (Gpu { flushes: final(g).flushes, ..*old(g) }),
            old(self).dirty && old(self).inited && old(g).fb@.len() > 0 ==> final(g).flushes@ == old(g).flushes@.push(
                (
                    old(self).dirty_minx,
                    old(self).dirty_miny,
                    (old(self).dirty_maxx - old(self).dirty_minx + 1) as usize,
                    (old(self).dirty_maxy - old(self).dirty_miny + 1) as usize,
                ),
            ),
            old(self).dirty && old(g).fb@.len() == 0 ==> final(g).flushes@ == old(g).flushes@,
    {
        if !self.dirty {
            return;
        }
        let minx = self.dirty_minx;
        let miny = self.dirty_miny;
        let maxx = self.dirty_maxx;
        let maxy = self.dirty_maxy;
        self.dirty = false;
        self.dirty_minx = 0;
        self.dirty_miny = 0;
        self.dirty_maxx = 0;
        self.dirty_maxy = 0;
        g.flush_rect(minx, miny, maxx - minx + 1, maxy - miny + 1);
    }
}

/// Text rows fit between the borders, unless there is just the one.
pub proof fn lemma_rows_fit(h: int)
    requires
        h >= 0,
    ensures
        spec_rows(h) >= 1,
        spec_rows(h) == 1 || 2 * BORDER_PADDING + spec_rows(h) * CELL_H <= h,
{
    if h >= 2 * BORDER_PADDING {
        vstd::arithmetic::div_mod::lemma_fundamental_div_mod(h - 2 * BORDER_PADDING, CELL_H as int);
    }
}

/// Whether pixel row `y` lies in one of the `lines` text rows that a
/// scroll by `delta` lines (positive: up) brings into view out of `rows`:
/// the last ones when scrolling up, the first ones when scrolling down.
pub open spec fn scrolled_in(delta: int, rows: int, y: int, lines: int) -> bool {
    let r = (y - BORDER_PADDING) / (CELL_H as int);
    y >= BORDER_PADDING && if delta > 0 {
        rows - lines <= r < rows
    } else {
        r < lines
    }
}

/// Whether pixel row `y` lies in the first `i` of those text rows.
pub open spec fn rows_drawn(delta: int, rows: int, lines: int, i: int, y: int) -> bool {
    let r = (y - BORDER_PADDING) / (CELL_H as int);
    y >= BORDER_PADDING && if delta > 0 {
        rows - lines <= r < rows - lines + i
    } else {
        r < i
    }
}

/// Moving `s` pixel rows in a row-major framebuffer moves `s * stride`
/// entries.
pub proof fn lemma_pix_shift(st: int, h: int, x: int, y: int, s: int)
    requires
        0 <= x < st,
        0 <= y,
        0 <= s,
    ensures
        pix(st, x, y) + s * st == pix(st, x, y + s),
        pix(st, x, y) < (h - s) * st <==> y + s < h,
        pix(st, x, y) >= s * st <==> y >= s,
{
    assert(pix(st, x, y) + s * st == pix(st, x, y + s)) by (nonlinear_arith)
        requires
            0 <= x < st,
    ;
    assert(pix(st, x, y) < (h - s) * st <==> y + s < h) by (nonlinear_arith)
        requires
            0 <= x < st,
            0 <= y,
    ;
    assert(pix(st, x, y) >= s * st <==> y >= s) by (nonlinear_arith)
        requires
            0 <= x < st,
            0 <= y,
    ;
}

/// `|d|` for a `d` other than `isize::MIN`.
pub open spec fn spec_abs(d: int) -> int {
    if d < 0 { -d } else { d }
}

impl FbConsole {
    /// Moves the screen contents by `delta_lines` text rows (positive: up)
    /// and draws the rows that come into view; repaints everything when
    /// the shift is a screen or more.
    pub fn scroll_view(&mut self, g: &mut Gpu, delta_lines: isize)
        requires
            old(self).wf(),
            old(self).on(old(g)),
            old(self).inited,
            delta_lines != isize::MIN,
            spec_abs(delta_lines as int) < old(self).rows || spec_sat_mul(spec_abs(delta_lines as int), CELL_H as int)
                >= old(self).height,
        ensures
            final(self).wf(),
            final(self).on(final(g)),
            final(self).same_text(old(self)),
            *final(g) == (Gpu { fb: final(g).fb, ..*old(g) }),
            final(g).fb@.len() == old(g).fb@.len(),
            ({
                let lines = spec_abs(delta_lines as int);
                let shift = spec_sat_mul(lines, CELL_H as int);
                let st = old(self).stride as int;
                let h = old(self).height as int;
                if shift >= h {
                    &&& final(self).x == old(self).cursor_px().0 && final(self).y == old(self).cursor_px().1
                    &&& forall|x: int, y: int|
                        0 <= x < old(self).width && 0 <= y < h ==> #[trigger] final(g).fb@[pix(st, x, y)]
                            == old(self).screen_pixel(x, y)
                } else {
                    &&& final(self).x == old(self).x && final(self).y == old(self).y
                    &&& forall|x: int, y: int|
                        0 <= x < old(self).width && 0 <= y < h ==> #[trigger] final(g).fb@[pix(st, x, y)] == (
                        if scrolled_in(delta_lines as int, old(self).rows as int, y, lines) {
                            old(self).screen_pixel(x, y)
                        } else if delta_lines > 0 {
                            if y + shift < h {
                                old(g).fb@[pix(st, x, y + shift)]
                            } else {
                                old(self).bg()
                            }
                        } else {
                            if y >= shift {
                                old(g).fb@[pix(st, x, y - shift)]
                            } else {
                                old(self).bg()
                            }
                        })
                }
            }),
    {
        let lines: usize = if delta_lines < 0 { (-delta_lines) as usize } else { delta_lines as usize };
        let shift_px = sat_mul(lines, CELL_H);
        if shift_px >= self.height {
            self.redraw_from_buffer(g);
            return;
        }
        if !g.inited {
            return;
        }
        proof {
            lemma_rows_fit(self.height as int);
        }
        let stride = self.stride;
        assert(self.height * stride <= DIM_MAX * DIM_MAX) by (nonlinear_arith)
            requires
                self.height <= DIM_MAX,
                stride <= DIM_MAX,
        ;
        let total = self.height * stride;
        assert(shift_px * stride <= total) by (nonlinear_arith)
            requires
                shift_px < self.height,
                total == self.height * stride,
        ;
        let scroll = shift_px * stride;
        let bg = self.fmt.pack_rgba(0, 0, 0, 0xff);
        let ghost glen = g.fb@.len();
        let ghost o = g.fb@;
        if delta_lines > 0 {
            let mut i: usize = 0;
            while i < total - scroll
                invariant
                    g.wf(),
                    g.fb@.len() == glen == total,
                    scroll <= total,
                    *g == (Gpu { fb: g.fb, ..*old(g) }),
                    o == old(g).fb@,
                    forall|k: int| 0 <= k < i ==> #[trigger] g.fb@[k] == o[k + scroll],
                    forall|k: int| i <= k < total ==> #[trigger] g.fb@[k] == o[k],
                decreases total - scroll - i,
            {
                let v = g.fb[i + scroll];
                g.fb.set(i, v);
                i = i + 1;
            }
            let mut j: usize = total - scroll;
            while j < total
                invariant
                    g.wf(),
                    g.fb@.len() == glen == total,
                    scroll <= total,
                    total - scroll <= j <= total,
                    *g == (Gpu { fb: g.fb, ..*old(g) }),
                    forall|k: int| 0 <= k < total - scroll ==> #[trigger] g.fb@[k] == o[k + scroll],
                    forall|k: int| total - scroll <= k < j ==> #[trigger] g.fb@[k] == bg,
                decreases total - j,
            {
                g.fb.set(j, bg);
                j = j + 1;
            }
        } else {
            let mut i: usize = total - scroll;
            while i > 0
                invariant
                    g.wf(),
                    g.fb@.len() == glen == total,
                    scroll <= total,
                    i <= total - scroll,
                    *g == (Gpu { fb: g.fb, ..*old(g) }),
                    o == old(g).fb@,
                    forall|p: int| 0 <= p < total ==> #[trigger] g.fb@[p] == (if p >= i + scroll {
                        o[p - scroll]
                    } else {
                        o[p]
                    }),
                decreases i,
            {
                i = i - 1;
                let v = g.fb[i];
                g.fb.set(i + scroll, v);
            }
            let mut j: usize = 0;
            while j < scroll
                invariant
                    g.wf(),
                    g.fb@.len() == glen == total,
                    scroll <= total,
                    j <= scroll,
                    *g == (Gpu { fb: g.fb, ..*old(g) }),
                    forall|p: int| scroll <= p < total ==> #[trigger] g.fb@[p] == o[p - scroll],
                    forall|p: int| 0 <= p < j ==> #[trigger] g.fb@[p] == bg,
                decreases scroll - j,
            {
                g.fb.set(j, bg);
                j = j + 1;
            }
        }
        let ghost st = stride as int;
        let ghost h = self.height as int;
        let ghost mid = g.fb@;
        proof {
            assert(total - scroll == (h - shift_px) * st) by (nonlinear_arith)
                requires
                    total == h * st,
                    scroll == shift_px * st,
            ;
            assert forall|x: int, y: int| 0 <= x < old(self).width && 0 <= y < h implies #[trigger] mid[pix(st, x, y)] == (
            if delta_lines > 0 {
                if y + shift_px < h {
                    o[pix(st, x, y + shift_px)]
                } else {
                    old(self).bg()
                }
            } else {
                if y >= shift_px {
                    o[pix(st, x, y - shift_px)]
                } else {
                    old(self).bg()
                }
            }) by {
                lemma_pix_bounds(st, h, x, y);
                lemma_pix_shift(st, h, x, y, shift_px as int);
                if y >= shift_px {
                    lemma_pix_shift(st, h, x, y - shift_px, shift_px as int);
                }
            }
        }
        let w = self.width;
        let hh = self.height;
        self.mark_dirty_rect(0, 0, w, hh);
        let start_line = self.visible_start_line();
        let rows = self.rows;
        let mut i: usize = 0;
        while i < lines
            invariant
                self.wf(),
                self.on(g),
                self.inited,
                self.same_text(old(self)),
                self.x == old(self).x && self.y == old(self).y,
                *g == (Gpu { fb: g.fb, ..*old(g) }),
                g.fb@.len() == old(g).fb@.len(),
                rows == self.rows,
                lines < rows,
                lines == spec_abs(delta_lines as int),
                rows == 1 || 2 * BORDER_PADDING + rows * CELL_H <= self.height,
                start_line == old(self).spec_visible_start(),
                start_line < self.line_base + self.line_count,
                st == self.stride && h == self.height,
                0 <= i <= lines,
                forall|x: int, y: int|
                    0 <= x < old(self).width && 0 <= y < h ==> #[trigger] g.fb@[pix(st, x, y)] == (if rows_drawn(delta_lines as int, rows as int, lines as int, i as int, y) {
                        old(self).screen_pixel(x, y)
                    } else {
                        mid[pix(st, x, y)]
                    }),
            decreases lines - i,
        {
            let row = if delta_lines > 0 { rows - lines + i } else { i };
            assert(BORDER_PADDING + row * CELL_H <= self.height) by (nonlinear_arith)
                requires
                    row <= rows - 1,
                    rows >= 2,
                    2 * BORDER_PADDING + rows * CELL_H <= self.height,
            ;
            let ghost before = g.fb@;
            self.draw_line_row(g, row, start_line + row);
            proof {
                assert forall|x: int, y: int| 0 <= x < old(self).width && 0 <= y < h implies #[trigger] g.fb@[pix(st, x, y)]
                    == (if rows_drawn(delta_lines as int, rows as int, lines as int, i + 1, y) {
                    old(self).screen_pixel(x, y)
                } else {
                    mid[pix(st, x, y)]
                }) by {
                    if y >= BORDER_PADDING {
                        lemma_div_block(y - BORDER_PADDING, CELL_H as int);
                    }
                    assert(before[pix(st, x, y)] == (if rows_drawn(delta_lines as int, rows as int, lines as int, i as int, y) {
                        old(self).screen_pixel(x, y)
                    } else {
                        mid[pix(st, x, y)]
                    }));
                }
            }
            i = i + 1;
        }
        proof {
            assert forall|x: int, y: int| 0 <= x < old(self).width && 0 <= y < h implies #[trigger] g.fb@[pix(st, x, y)] == (
            if scrolled_in(delta_lines as int, old(self).rows as int, y, lines as int) {
                old(self).screen_pixel(x, y)
            } else if delta_lines > 0 {
                if y + shift_px < h {
                    o[pix(st, x, y + shift_px)]
                } else {
                    old(self).bg()
                }
            } else {
                if y >= shift_px {
                    o[pix(st, x, y - shift_px)]
                } else {
                    old(self).bg()
                }
            }) by {
                assert(mid[pix(st, x, y)] == (if delta_lines > 0 {
                    if y + shift_px < h {
                        o[pix(st, x, y + shift_px)]
                    } else {
                        old(self).bg()
                    }
                } else {
                    if y >= shift_px {
                        o[pix(st, x, y - shift_px)]
                    } else {
                        old(self).bg()
                    }
                }));
            }
        }
    }

    /// Returns the view to the bottom of the buffer, repainting when it was
    /// scrolled back.
    pub fn ensure_bottom(&mut self, g: &mut Gpu)
        requires
            old(self).wf(),
            old(self).on(old(g)),
            old(self).inited,
        ensures
            final(self).wf(),
            final(self).on(final(g)),
            final(self).same_text(&(FbConsole { view_offset: 0, ..*old(self) })),
            old(self).view_offset == 0 ==> *final(self) == *old(self) && *final(g) == *old(g),
            *final(g) == (Gpu { fb: final(g).fb, ..*old(g) }),
            final(g).fb@.len() == old(g).fb@.len(),
    {
        if self.view_offset != 0 {
            self.view_offset = 0;
            self.redraw_from_buffer(g);
        }
    }

    /// The scrollback offset after moving it by `delta`: kept between zero
    /// and the number of lines above the screen.
    pub open spec fn spec_next_offset(&self, delta: int) -> int {
        let max_offset = if self.line_count < self.rows { 0 } else { self.line_count - self.rows };
        let n = spec_sat_add_isize(self.view_offset as int, delta);
        if n < 0 {
            0
        } else if n > max_offset {
            max_offset
        } else {
            n
        }
    }

    /// Scrolls the view `delta` lines back into the history (negative:
    /// towards the bottom) and repaints what changed.
    pub fn adjust_scrollback(&mut self, g: &mut Gpu, delta: isize)
        requires
            old(self).wf(),
            old(self).on(old(g)),
            old(self).inited,
        ensures
            final(self).wf(),
            final(self).on(final(g)),
            final(self).view_offset == old(self).spec_next_offset(delta as int),
            final(self).same_text(&(FbConsole { view_offset: final(self).view_offset, ..*old(self) })),
            *final(g) == (Gpu { fb: final(g).fb, ..*old(g) }),
            final(g).fb@.len() == old(g).fb@.len(),
    {
        let max_offset = sat_sub(self.line_count, self.rows);
        let cur = self.view_offset as isize;
        let mut next = sat_add_isize(cur, delta);
        if next < 0 {
            next = 0;
        }
        let max_off = max_offset as isize;
        if next > max_off {
            next = max_off;
        }
        let next = next as usize;
        if next != self.view_offset {
            let old_start = self.visible_start_line();
            self.view_offset = next;
            let new_start = self.visible_start_line();
            let diff = new_start as isize - old_start as isize;
            let diff_abs: usize = if diff < 0 { (-diff) as usize } else { diff as usize };
            if diff_abs >= self.rows {
                self.redraw_from_buffer(g);
            } else if diff != 0 {
                self.scroll_view(g, diff);
                self.update_cursor_xy();
            } else {
                self.update_cursor_xy();
            }
        }
    }
}

/// Bytes shown as themselves: printable ASCII and the space.
pub open spec fn spec_is_shown(c: u8) -> bool {
    32 <= c <= 126
}

/// Erasing from `(x, y)` to the end of the text row touches pixels.
pub open spec fn erase_region_nonempty(x: usize, y: usize, width: usize, height: usize) -> bool {
    let x0 = spec_min(x as int, width as int);
    let x1 = (if width < BORDER_PADDING { 0 } else { width - BORDER_PADDING });
    let y0 = spec_min(y as int, height as int);
    let y1 = spec_min(y + CELL_H, height as int);
    x0 < x1 && y0 < y1
}

/// The argument of a CSI command: the number given, else `default`.
pub open spec fn csi_arg(have: bool, num: usize, default: usize) -> usize {
    if have { num } else { default }
}

impl FbConsole {
    /// Feeds byte `b` to the escape-sequence parser (ESC, then CSI with a
    /// decimal argument and one of `C`, `D`, `K`, `J`). Returns whether the
    /// byte was consumed by it.
    pub fn handle_ansi_locked(&mut self, g: &mut Gpu, b: u8) -> (consumed: bool)
        requires
            old(self).wf(),
            old(self).on(old(g)),
        ensures
            final(self).wf(),
            final(self).on(final(g)),
            final(self).inited == old(self).inited,
            final(self).same_geometry(old(self)),
            *final(g) == (Gpu { fb: final(g).fb, ..*old(g) }),
            final(g).fb@.len() == old(g).fb@.len(),
            final(self).cursor_line <= old(self).cursor_line,
            old(self).esc ==> consumed && (if b == 91u8 {
                *final(self) == (FbConsole {
                    esc: false,
                    csi: true,
                    csi_num: 0,
                    csi_have_num: false,
                    ..*old(self)
                })
            } else {
                *final(self) == (FbConsole { esc: false, ..*old(self) })
            }),
            !old(self).esc && old(self).csi ==> consumed && (if b == 63u8 || b == 59u8 {
                *final(self) == *old(self) && *final(g) == *old(g)
            } else if 48u8 <= b <= 57u8 {
                *final(self) == (FbConsole {
                    csi_have_num: true,
                    csi_num: spec_sat_add_usize(spec_sat_mul(old(self).csi_num as int, 10), b - 48) as usize,
                    ..*old(self)
                }) && *final(g) == *old(g)
            } else {
                &&& !final(self).csi && !final(self).esc
                &&& final(self).csi_num == 0 && !final(self).csi_have_num
                &&& b == 67u8 ==> final(self).cursor_col == (if csi_arg(old(self).csi_have_num, old(self).csi_num, 1)
                    == 0 {
                    old(self).cursor_col as int
                } else {
                    spec_min(
                        spec_sat_add_usize(
                            old(self).cursor_col as int,
                            csi_arg(old(self).csi_have_num, old(self).csi_num, 1) as int,
                        ),
                        if old(self).cols < 1 { 0 } else { old(self).cols - 1 },
                    )
                }) && final(self).lines == old(self).lines
                &&& (b == 67u8 || b == 68u8) ==> final(self).x == (if csi_arg(old(self).csi_have_num, old(self).csi_num, 1) == 0 {
                    old(self).x as int
                } else {
                    BORDER_PADDING + final(self).cursor_col * CELL_W
                }) && final(self).y == old(self).y && *final(g) == *old(g)
                &&& b == 68u8 ==> final(self).cursor_col == (if old(self).cursor_col < csi_arg(
                    old(self).csi_have_num,
                    old(self).csi_num,
                    1,
                ) {
                    0
                } else {
                    old(self).cursor_col - csi_arg(old(self).csi_have_num, old(self).csi_num, 1)
                }) && final(self).lines == old(self).lines
                &&& b != 67u8 && b != 68u8 && b != 75u8 && b != 74u8 ==> final(self).cursor_col
                    == old(self).cursor_col && final(self).lines == old(self).lines
                &&& b == 74u8 && csi_arg(old(self).csi_have_num, old(self).csi_num, 0) == 2 ==> {
                    &&& final(self).cursor_line == 0 && final(self).cursor_col == 0 && final(self).line_count == 1
                    &&& forall|i: int| 0 <= i < final(self).lines@.len() ==> (#[trigger] final(self).lines@[i])@
                        == Seq::new(old(self).cols as nat, |j: int| 32u8)
                    &&& old(g).inited ==> forall|i: int| 0 <= i < final(g).fb@.len() ==> #[trigger] final(g).fb@[i]
                        == old(self).bg()
                }
                &&& b == 74u8 && csi_arg(old(self).csi_have_num, old(self).csi_num, 0) != 2 ==> final(self).cursor_col
                    == old(self).cursor_col && final(self).lines == old(self).lines && *final(g) == *old(g)
                &&& b == 75u8 ==> final(self).cursor_line == old(self).cursor_line && forall|k: int|
                    0 <= k < old(self).max_lines && k != (old(self).cursor_line % old(self).max_lines) as int
                        ==> #[trigger] final(self).lines@[k] == old(self).lines@[k]
                &&& b == 75u8 && csi_arg(old(self).csi_have_num, old(self).csi_num, 0) == 0 ==> {
                    &&& final(self).cursor_col == old(self).cursor_col
                    &&& erase_region_nonempty(old(self).x, old(self).y, old(self).width, old(self).height)
                        ==> final(self).lines@[(old(self).cursor_line % old(self).max_lines) as int]@ == old(
                        self,
                    ).lines@[(old(self).cursor_line % old(self).max_lines) as int]@.subrange(0, old(self).cursor_col as int)
                        + Seq::new((old(self).cols - old(self).cursor_col) as nat, |j: int| 32u8)
                }
                &&& b == 75u8 && csi_arg(old(self).csi_have_num, old(self).csi_num, 0) == 2 ==> {
                    &&& final(self).cursor_col == 0
                    &&& erase_region_nonempty(BORDER_PADDING, old(self).y, old(self).width, old(self).height)
                        ==> final(self).lines@[(old(self).cursor_line % old(self).max_lines) as int]@ == Seq::new(
                        old(self).cols as nat,
                        |j: int| 32u8,
                    )
                }
                &&& b == 75u8 && csi_arg(old(self).csi_have_num, old(self).csi_num, 0) != 0 && csi_arg(
                    old(self).csi_have_num,
                    old(self).csi_num,
                    0,
                ) != 2 ==> final(self).cursor_col == old(self).cursor_col && final(self).lines == old(self).lines
                    && *final(g) == *old(g)
            }),
            !old(self).esc && !old(self).csi && b == 27u8 ==> consumed && *final(self) == (FbConsole {
                esc: true,
                ..*old(self)
            }) && *final(g) == *old(g),
            !old(self).esc && !old(self).csi && b != 27u8 ==> !consumed && *final(self) == *old(self)
                && *final(g) == *old(g),
    {
        if self.esc {
            self.esc = false;
            if b == 91u8 {
                self.csi = true;
                self.csi_num = 0;
                self.csi_have_num = false;
            }
            return true;
        }
        if self.csi {
            if b == 63u8 || b == 59u8 {
                return true;
            }
            if 48u8 <= b && b <= 57u8 {
                self.csi_have_num = true;
                self.csi_num = sat_add(sat_mul(self.csi_num, 10), (b - 48u8) as usize);
                return true;
            }
            if b == 67u8 {
                let n = if self.csi_have_num { self.csi_num } else { 1 };
                self.cursor_right_n(n);
            } else if b == 68u8 {
                let n = if self.csi_have_num { self.csi_num } else { 1 };
                self.cursor_left_n(n);
            } else if b == 75u8 {
                let mode = if self.csi_have_num { self.csi_num } else { 0 };
                if mode == 0 {
                    self.erase_to_eol(g);
                } else if mode == 2 {
                    self.x = BORDER_PADDING;
                    self.cursor_col = 0;
                    self.erase_to_eol(g);
                }
            } else if b == 74u8 {
                let mode = if self.csi_have_num { self.csi_num } else { 0 };
                if mode == 2 {
                    self.clear_locked(g);
                }
            }
            self.csi = false;
            self.csi_num = 0;
            self.csi_have_num = false;
            return true;
        }
        if b == 27u8 {
            self.esc = true;
            return true;
        }
        false
    }
}

impl FbConsole {
    /// Stores byte `ch` at column `col` of absolute line `abs_line`.
    fn set_cell(&mut self, abs_line: usize, col: usize, ch: u8)
        requires
            old(self).wf(),
            old(self).max_lines > 0,
            col < old(self).cols,
        ensures
            final(self).wf(),
            *final(self) == (FbConsole { lines: final(self).lines, ..*old(self) }),
            final(self).lines@ == old(self).lines@.update(
                (abs_line % old(self).max_lines) as int,
                final(self).lines@[(abs_line % old(self).max_lines) as int],
            ),
            final(self).lines@[(abs_line % old(self).max_lines) as int]@ == old(self).lines@[(abs_line
                % old(self).max_lines) as int]@.update(col as int, ch),
    {
        let idx = self.line_index(abs_line);
        let mut line = self.lines[idx].clone();
        line.set(col, ch);
        self.lines.set(idx, line);
    }

    /// Writes one byte to the screen: escape sequences, newline, carriage
    /// return, backspace and delete, tab (to the next multiple of four), and
    /// otherwise the character itself ('?' for what cannot be shown),
    /// wrapping and scrolling as needed.
    pub fn putc_locked(&mut self, g: &mut Gpu, byte: u8)
        requires
            old(self).wf(),
            old(self).on(old(g)),
            old(self).inited,
            old(self).cursor_line + (if byte == 9u8 { 64int } else { 48int }) < LINE_LIMIT,
        ensures
            final(self).wf(),
            final(self).on(final(g)),
            final(self).inited,
            final(self).same_geometry(old(self)),
            *final(g) == (Gpu { fb: final(g).fb, ..*old(g) }),
            final(g).fb@.len() == old(g).fb@.len(),
            final(self).cursor_line <= old(self).cursor_line + 12,
            byte != 9u8 ==> final(self).cursor_line <= old(self).cursor_line + 3,
            !old(self).esc && !old(self).csi && old(self).view_offset == 0 && byte == 13u8 ==> final(self).cursor_col
                == 0 && final(self).cursor_line == old(self).cursor_line && final(self).lines == old(self).lines,
            !old(self).esc && !old(self).csi && old(self).view_offset == 0 && byte == 27u8 ==> *final(self) == (
            FbConsole { esc: true, ..*old(self) }) && *final(g) == *old(g),
            !old(self).esc && !old(self).csi && old(self).view_offset == 0 && (byte == 8u8 || byte == 127u8) ==> *final(g)
                == *old(g) && (if old(self).cursor_col == 0 {
                *final(self) == *old(self)
            } else {
                *final(self) == (FbConsole {
                    cursor_col: (old(self).cursor_col - 1) as usize,
                    x: (BORDER_PADDING + (old(self).cursor_col - 1) * CELL_W) as usize,
                    ..*old(self)
                })
            }),
            !old(self).esc && !old(self).csi && old(self).view_offset == 0 && byte == 10u8 ==> final(self).cursor_col == 0
                && (old(self).height > CELL_H ==> final(self).cursor_line == old(self).cursor_line + 1),
            !old(self).esc && !old(self).csi && old(self).view_offset == 0 && byte != 27u8 && byte != 10u8
                && byte != 13u8 && byte != 8u8 && byte != 127u8 && byte != 9u8
                && old(self).cursor_col < old(self).cols && old(self).x + CHAR_W + BORDER_PADDING < old(self).width
                && old(self).y + CHAR_H + BORDER_PADDING < old(self).height ==> {
                let li = (old(self).cursor_line % old(self).max_lines) as int;
                &&& final(self).cursor_line == old(self).cursor_line
                &&& final(self).cursor_col == old(self).cursor_col + 1
                &&& final(self).view_offset == 0
                &&& final(self).lines@ == old(self).lines@.update(li, final(self).lines@[li])
                &&& final(self).lines@[li]@ == old(self).lines@[li]@.update(
                    old(self).cursor_col as int,
                    if spec_is_shown(byte) { byte } else { 63u8 },
                )
            },
            !old(self).esc && !old(self).csi && byte != 27u8 && byte != 10u8 && byte != 13u8 && byte != 8u8
                && byte != 127u8 && byte != 9u8 ==> {
                let li = (final(self).cursor_line % final(self).max_lines) as int;
                &&& final(self).view_offset == 0
                &&& 1 <= final(self).cursor_col <= final(self).cols
                &&& final(self).lines@[li]@[final(self).cursor_col - 1] == (if spec_is_shown(byte) { byte } else { 63u8 })
                &&& final(self).cursor_col == 1 || (final(self).cursor_col == old(self).cursor_col + 1
                    && final(self).cursor_line == old(self).cursor_line)
                &&& old(self).cursor_col >= old(self).cols ==> final(self).cursor_col == 1
            },
            !old(self).esc && !old(self).csi && byte == 13u8 ==> final(self).same_text(
                &(FbConsole { cursor_col: 0, view_offset: 0, ..*old(self) }),
            ),
            !old(self).esc && !old(self).csi && byte == 27u8 ==> final(self).same_text(
                &(FbConsole { esc: true, view_offset: 0, ..*old(self) }),
            ),
            !old(self).esc && !old(self).csi && (byte == 8u8 || byte == 127u8) ==> final(self).same_text(
                &(FbConsole {
                    cursor_col: (if old(self).cursor_col == 0 { 0 } else { old(self).cursor_col - 1 }) as usize,
                    view_offset: 0,
                    ..*old(self)
                }),
            ),
        decreases (if byte == 9u8 { 1int } else { 0int }),
    {
        self.ensure_bottom(g);
        if self.handle_ansi_locked(g, byte) {
            return;
        }
        if byte == 10u8 {
            self.newline(g);
        } else if byte == 13u8 {
            self.cursor_col = 0;
            self.x = BORDER_PADDING;
        } else if byte == 8u8 || byte == 127u8 {
            self.cursor_left();
        } else if byte == 9u8 {
            let cur = self.cursor_col;
            let next = (cur / 4 + 1) * 4;
            let spaces = max_usize(sat_sub(next, cur), 1);
            assert(spaces <= 4);
            let ghost start = self.cursor_line;
            let mut k: usize = 0;
            while k < spaces
                invariant
                    self.wf(),
                    self.on(g),
                    self.inited,
                    *g == (Gpu { fb: g.fb, ..*old(g) }),
                    g.fb@.len() == old(g).fb@.len(),
                    spaces <= 4,
                    0 <= k <= spaces,
                    start == old(self).cursor_line,
                    self.cursor_line <= start + 3 * k,
                    start + 64 < LINE_LIMIT,
                    byte == 9u8,
                    self.same_geometry(old(self)),
                decreases spaces - k,
            {
                self.putc_locked(g, 32u8);
                k = k + 1;
            }
        } else {
            self.put_printable(g, byte);
        }
    }

    /// Prints byte `byte` ('?' for what cannot be shown) at the cursor,
    /// first moving to a new line when the cursor is past the last column
    /// or the character would not fit on the screen.
    #[verifier::rlimit(40)]
    fn put_printable(&mut self, g: &mut Gpu, byte: u8)
        requires
            old(self).wf(),
            old(self).on(old(g)),
            old(self).inited,
            old(self).cursor_line + 4 < LINE_LIMIT,
        ensures
            final(self).wf(),
            final(self).on(final(g)),
            final(self).inited,
            final(self).same_geometry(old(self)),
            *final(g) == (Gpu { fb: final(g).fb, ..*old(g) }),
            final(g).fb@.len() == old(g).fb@.len(),
            final(self).cursor_line <= old(self).cursor_line + 3,
            old(self).view_offset == 0 ==> final(self).view_offset == 0,
            old(self).cursor_col < old(self).cols && old(self).x + CHAR_W + BORDER_PADDING < old(self).width
                && old(self).y + CHAR_H + BORDER_PADDING < old(self).height ==> {
                let li = (old(self).cursor_line % old(self).max_lines) as int;
                &&& final(self).cursor_line == old(self).cursor_line
                &&& final(self).cursor_col == old(self).cursor_col + 1
                &&& final(self).view_offset == old(self).view_offset
                &&& final(self).lines@ == old(self).lines@.update(li, final(self).lines@[li])
                &&& final(self).lines@[li]@ == old(self).lines@[li]@.update(
                    old(self).cursor_col as int,
                    if spec_is_shown(byte) { byte } else { 63u8 },
                )
            },
            ({
                let li = (final(self).cursor_line % final(self).max_lines) as int;
                &&& 1 <= final(self).cursor_col <= final(self).cols
                &&& final(self).lines@[li]@[final(self).cursor_col - 1] == (if spec_is_shown(byte) { byte } else { 63u8 })
                &&& final(self).cursor_col == 1 || (final(self).cursor_col == old(self).cursor_col + 1
                    && final(self).cursor_line == old(self).cursor_line)
                &&& old(self).cursor_col >= old(self).cols ==> final(self).cursor_col == 1
            }),
    {
        if self.cursor_col >= self.cols {
            self.newline(g);
        }
        if self.x + CHAR_W + BORDER_PADDING >= self.width {
            self.newline(g);
        }
        if self.y + CHAR_H + BORDER_PADDING >= self.height {
            self.newline(g);
        }
        let ch: u8 = if 32u8 <= byte && byte <= 126u8 { byte } else { 63u8 };
        let col = min_usize(self.cursor_col, sat_sub(self.cols, 1));
        let cl = self.cursor_line;
        self.set_cell(cl, col, ch);
        let px = self.x;
        let py = self.y;
        self.draw_char_at(g, ch, px, py);
        self.cursor_col = sat_add(self.cursor_col, 1);
        self.x = BORDER_PADDING + self.cell_x(self.cursor_col);
    }

    /// Writes one byte: to the early buffer before the console is up, else
    /// to the screen, flushing what changed.
    pub fn putc(&mut self, g: &mut Gpu, early: &mut EarlyBuf, byte: u8)
        requires
            old(self).wf(),
            old(self).on(old(g)),
            old(early).wf(),
            old(self).inited ==> old(self).cursor_line + 64 < LINE_LIMIT,
        ensures
            final(self).wf(),
            final(self).on(final(g)),
            final(early).wf(),
            final(self).inited == old(self).inited,
            final(self).same_geometry(old(self)),
            !old(self).inited ==> *final(self) == *old(self) && *final(g) == *old(g) && (if old(early)@.len()
                < EARLY_BUF_SIZE {
                final(early)@ == old(early)@.push(byte)
            } else {
                final(early)@ == old(early)@.drop_first().push(byte)
            }),
            old(self).inited ==> *final(early) == *old(early),
            old(self).inited ==> final(self).cursor_line <= old(self).cursor_line + 12,
            old(self).inited && !old(g).inited ==> *final(self) == *old(self) && *final(g) == *old(g),
            *final(g) == (Gpu { fb: final(g).fb, flushes: final(g).flushes, ..*old(g) }),
            final(g).fb@.len() == old(g).fb@.len(),
    {
        if !self.inited {
            early.push(byte);
            return;
        }
        if !g.is_inited() {
            return;
        }
        self.putc_locked(g, byte);
        self.flush_dirty_locked(g);
    }

    /// Writes `bytes` in order, as `putc` does each.
    pub fn write(&mut self, g: &mut Gpu, early: &mut EarlyBuf, bytes: &[u8])
        requires
            old(self).wf(),
            old(self).on(old(g)),
            old(early).wf(),
            old(self).inited ==> old(self).cursor_line + 12 * bytes@.len() + 64 < LINE_LIMIT,
        ensures
            final(self).wf(),
            final(self).on(final(g)),
            final(early).wf(),
            final(self).inited == old(self).inited,
            !old(self).inited ==> *final(self) == *old(self) && *final(g) == *old(g),
            !old(self).inited && old(early)@.len() + bytes@.len() <= EARLY_BUF_SIZE ==> final(early)@ == old(early)@ + bytes@,
            old(self).inited ==> *final(early) == *old(early),
            old(self).inited ==> final(self).cursor_line <= old(self).cursor_line + 12 * bytes@.len(),
            *final(g) == (Gpu { fb: final(g).fb, flushes: final(g).flushes, ..*old(g) }),
            final(g).fb@.len() == old(g).fb@.len(),
    {
        if bytes.len() == 0 {
            return;
        }
        if !self.inited {
            let mut i: usize = 0;
            while i < bytes.len()
                invariant
                    early.wf(),
                    0 <= i <= bytes@.len(),
                    old(early)@.len() + bytes@.len() <= EARLY_BUF_SIZE ==> early@ == old(early)@ + bytes@.subrange(
                        0,
                        i as int,
                    ),
                    old(early)@.len() + bytes@.len() <= EARLY_BUF_SIZE ==> early@.len() == old(early)@.len() + i,
                decreases bytes@.len() - i,
            {
                early.push(bytes[i]);
                proof {
                    if old(early)@.len() + bytes@.len() <= EARLY_BUF_SIZE {
                        assert(old(early)@ + bytes@.subrange(0, i + 1) =~= (old(early)@ + bytes@.subrange(
                            0,
                            i as int,
                        )).push(bytes@[i as int]));
                    }
                }
                i = i + 1;
            }
            assert(bytes@.subrange(0, bytes@.len() as int) =~= bytes@);
            return;
        }
        if !g.is_inited() {
            return;
        }
        let mut i: usize = 0;
        while i < bytes.len()
            invariant
                self.wf(),
                self.on(g),
                self.inited,
                *g == (Gpu { fb: g.fb, ..*old(g) }),
                g.fb@.len() == old(g).fb@.len(),
                0 <= i <= bytes@.len(),
                self.cursor_line <= old(self).cursor_line + 12 * i,
                old(self).cursor_line + 12 * bytes@.len() + 64 < LINE_LIMIT,
            decreases bytes@.len() - i,
        {
            self.putc_locked(g, bytes[i]);
            i = i + 1;
        }
        self.flush_dirty_locked(g);
    }

    /// Scrolls the view `delta` lines into the history and flushes.
    pub fn scrollback(&mut self, g: &mut Gpu, delta: isize)
        requires
            old(self).wf(),
            old(self).on(old(g)),
        ensures
            final(self).wf(),
            final(self).on(final(g)),
            final(self).inited == old(self).inited,
            !old(self).inited || !old(g).inited ==> *final(self) == *old(self) && *final(g) == *old(g),
            old(self).inited && old(g).inited ==> final(self).view_offset == old(self).spec_next_offset(
                delta as int,
            ),
            final(self).cursor_line == old(self).cursor_line && final(self).lines == old(self).lines,
            *final(g) == (Gpu { fb: final(g).fb, flushes: final(g).flushes, ..*old(g) }),
            final(g).fb@.len() == old(g).fb@.len(),
    {
        if !self.inited {
            return;
        }
        if !g.is_inited() {
            return;
        }
        self.adjust_scrollback(g, delta);
        self.flush_dirty_locked(g);
    }

    /// Brings the console up on an initialized GPU: geometry from the
    /// display, an empty buffer of `rows + SCROLLBACK_LINES` lines, a
    /// cleared screen, and then the bytes held in `early`, in order.
    pub fn init(&mut self, g: &mut Gpu, early: &mut EarlyBuf)
        requires
            old(self).wf(),
            old(self).on(old(g)),
            old(early).wf(),
        ensures
            final(self).wf(),
            final(self).on(final(g)),
            final(early).wf(),
            old(self).inited || !old(g).inited ==> *final(self) == *old(self) && *final(g) == *old(g) && *final(early) == *old(early),
            !old(self).inited && old(g).inited ==> {
                &&& final(self).inited
                &&& final(self).width == old(g).width && final(self).height == old(g).height
                &&& final(self).stride == old(g).stride && final(self).fmt == old(g).pixel_format
                &&& final(self).cols == spec_cols(old(g).width as int)
                &&& final(self).rows == spec_rows(old(g).height as int)
                &&& final(self).max_lines == final(self).rows + SCROLLBACK_LINES
                &&& final(early)@.len() == 0
            },
            !old(self).inited && old(g).inited && old(early)@.len() == 0 ==> {
                &&& forall|i: int| 0 <= i < final(g).fb@.len() ==> #[trigger] final(g).fb@[i] == final(self).bg()
                &&& final(self).cursor_line == 0 && final(self).cursor_col == 0 && final(self).view_offset == 0
                &&& final(self).line_base == 0 && final(self).line_count == 1
                &&& forall|i: int| 0 <= i < final(self).lines@.len() ==> (#[trigger] final(self).lines@[i])@
                    == Seq::new(final(self).cols as nat, |j: int| 32u8)
            },
            *final(g) == (Gpu { fb: final(g).fb, flushes: final(g).flushes, ..*old(g) }),
            final(g).fb@.len() == old(g).fb@.len(),
    {
        if self.inited {
            return;
        }
        let info = g.info();
        let (w, h, stride, fmt) = match info {
            Some(t) => t,
            None => { return; },
        };
        self.width = w;
        self.height = h;
        self.stride = stride;
        self.fmt = fmt;
        self.x = BORDER_PADDING;
        self.y = BORDER_PADDING;
        self.dirty = false;
        self.esc = false;
        self.csi = false;
        self.csi_num = 0;
        self.csi_have_num = false;
        let cols = max_usize(sat_sub(w, 2 * BORDER_PADDING) / CELL_W, 1);
        let rows = max_usize(sat_sub(h, 2 * BORDER_PADDING) / CELL_H, 1);
        let max_lines = max_usize(sat_add(rows, SCROLLBACK_LINES), 1);
        let mut lines: Vec<Vec<u8>> = Vec::new();
        let mut i: usize = 0;
        while i < max_lines
            invariant
                0 <= i <= max_lines,
                lines@.len() == i,
                forall|k: int| 0 <= k < i ==> (#[trigger] lines@[k])@.len() == cols,
            decreases max_lines - i,
        {
            let mut line: Vec<u8> = Vec::new();
            let mut j: usize = 0;
            while j < cols
                invariant
                    0 <= j <= cols,
                    line@.len() == j,
                decreases cols - j,
            {
                line.push(32u8);
                j = j + 1;
            }
            lines.push(line);
            i = i + 1;
        }
        self.cols = cols;
        self.rows = rows;
        self.max_lines = max_lines;
        self.lines = lines;
        self.line_base = 0;
        self.line_count = 1;
        self.cursor_line = 0;
        self.cursor_col = 0;
        self.view_offset = 0;
        self.inited = true;
        self.clear_locked(g);
        self.flush_dirty_locked(g);
        let ghost was_empty = early@.len() == 0;
        let ghost cleared = *self;
        let ghost cleared_fb = g.fb@;
        loop
            invariant
                was_empty ==> early@.len() == 0 && *self == cleared && g.fb@ == cleared_fb,
                cleared.cursor_line == 0 && cleared.cursor_col == 0 && cleared.view_offset == 0,
                cleared.line_base == 0 && cleared.line_count == 1 && cleared.cols == cols && cleared.fmt == fmt,
                forall|i: int| 0 <= i < cleared.lines@.len() ==> (#[trigger] cleared.lines@[i])@
                    == Seq::new(cols as nat, |j: int| 32u8),
                forall|i: int| 0 <= i < cleared_fb.len() ==> #[trigger] cleared_fb[i] == cleared.bg(),
                self.wf(),
                self.on(g),
                self.inited,
                early.wf(),
                self.cursor_line + 12 * early@.len() + 64 < LINE_LIMIT,
                self.width == w && self.height == h && self.stride == stride && self.fmt == fmt,
                self.cols == cols && self.rows == rows && self.max_lines == max_lines,
                *g == (Gpu { fb: g.fb, flushes: g.flushes, ..*old(g) }),
                g.fb@.len() == old(g).fb@.len(),
            ensures
                early@.len() == 0,
                was_empty ==> *self == cleared && g.fb@ == cleared_fb,
                self.wf(),
                self.on(g),
                self.inited,
                early.wf(),
                self.width == w && self.height == h && self.stride == stride && self.fmt == fmt,
                self.cols == cols && self.rows == rows && self.max_lines == max_lines,
                *g == (Gpu { fb: g.fb, flushes: g.flushes, ..*old(g) }),
                g.fb@.len() == old(g).fb@.len(),
            decreases early@.len(),
        {
            let b = early.pop();
            match b {
                Some(b) => {
                    self.putc(g, early, b);
                },
                None => {
                    break;
                },
            }
        }
    }
}

/// The last character drawn at a place is what shows there: drawing `c2`
/// over `c1` at `(px, py)` leaves the screen as drawing `c2` alone would,
/// the cell showing `c2` and everything outside it as before the first
/// draw.
pub proof fn law_last_char_wins(
    con: FbConsole,
    f0: Seq<u32>,
    f1: Seq<u32>,
    f2: Seq<u32>,
    c1: u8,
    c2: u8,
    px: int,
    py: int,
)
    requires
        con.char_drawn(f0, f1, c1, px, py),
        con.char_drawn(f1, f2, c2, px, py),
    ensures
        con.char_drawn(f0, f2, c2, px, py),
{
}

} // verus!
