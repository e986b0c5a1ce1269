use vstd::prelude::*;

use crate::geometry::{
    dirty_area, dirty_region, outline_box, outlined_box, DirtyRect, Point,
};
use crate::selection::SelectionState;

verus! {

/// The largest byte size of a pixel buffer: a shared-memory pool's size is a signed
/// 32-bit value.
pub const MAX_BUFFER_BYTES: u64 = 0x7fff_ffff;

/// The largest number of pixels of a viewport, `MAX_BUFFER_BYTES / 4`.
pub const MAX_PIXELS: u64 = 0x1fff_ffff;

/// Index of the byte of channel `c` of pixel `(x, y)` in a row-major BGRA buffer.
pub open spec fn byte_index(width: int, x: int, y: int, c: int) -> int {
    (y * width + x) * 4 + c
}

/// The byte size of a viewport's pixel buffer.
pub open spec fn buffer_len(width: u32, height: u32) -> int {
    4 * width * height
}

/// The overlay's unselected fill, channel by channel: semi-transparent black.
pub open spec fn overlay_byte(c: int) -> u8 {
    if c == 3 { 0x80u8 } else { 0u8 }
}

/// What a freshly drawn pixel holds: white on the selection box's border, fully
/// transparent inside it, the overlay fill elsewhere.
pub open spec fn painted_byte(curr: Option<DirtyRect>, x: int, y: int, c: int) -> u8 {
    match curr {
        Some(b) => if b.on_border(x, y) {
            0xFFu8
        } else if b.contains(x, y) {
            0u8
        } else {
            overlay_byte(c)
        },
        None => overlay_byte(c),
    }
}

/// The box drawn for a selection state: the outlined selection while selecting.
pub open spec fn current_box(
    width: u32,
    height: u32,
    selection: SelectionState,
    pointer: Point,
) -> Option<DirtyRect> {
    match selection {
        SelectionState::Selecting { start } => Some(outlined_box(width, height, start, pointer)),
        _ => None,
    }
}

/// Pixel `(xx, yy)` of `d` comes before pixel `(x, y)` in row-major order, or is that
/// pixel with a channel before `c`.
spec fn written(d: DirtyRect, y: int, x: int, c: int, xx: int, yy: int, cc: int) -> bool {
    d.contains(xx, yy) && (yy < y || (yy == y && (xx < x || (xx == x && cc < c))))
}

/// `s` holds the bytes of `v` at the positions of region `d` already written and the
/// bytes of `o` elsewhere.
spec fn region_upto(
    s: Seq<u8>,
    o: Seq<u8>,
    v: Seq<u8>,
    width: int,
    height: int,
    d: DirtyRect,
    y: int,
    x: int,
    c: int,
) -> bool {
    forall|xx: int, yy: int, cc: int|
        0 <= xx < width && 0 <= yy < height && 0 <= cc < 4 ==> #[trigger] s[byte_index(
            width,
            xx,
            yy,
            cc,
        )] == if written(d, y, x, c, xx, yy, cc) {
            v[byte_index(width, xx, yy, cc)]
        } else {
            o[byte_index(width, xx, yy, cc)]
        }
}

/// `s` holds the bytes of `v` inside region `d` and the bytes of `o` outside it.
spec fn region_copied(
    s: Seq<u8>,
    o: Seq<u8>,
    v: Seq<u8>,
    width: int,
    height: int,
    d: DirtyRect,
) -> bool {
    forall|x: int, y: int, c: int|
        0 <= x < width && 0 <= y < height && 0 <= c < 4 ==> #[trigger] s[byte_index(
            width,
            x,
            y,
            c,
        )] == if d.contains(x, y) {
            v[byte_index(width, x, y, c)]
        } else {
            o[byte_index(width, x, y, c)]
        }
}

/// `s` holds the painted bytes inside region `d` and the bytes of `o` outside it.
pub open spec fn redrawn(
    s: Seq<u8>,
    o: Seq<u8>,
    width: int,
    height: int,
    d: DirtyRect,
    curr: Option<DirtyRect>,
) -> bool {
    forall|x: int, y: int, c: int|
        0 <= x < width && 0 <= y < height && 0 <= c < 4 ==> #[trigger] s[byte_index(
            width,
            x,
            y,
            c,
        )] == if d.contains(x, y) {
            painted_byte(curr, x, y, c)
        } else {
            o[byte_index(width, x, y, c)]
        }
}

/// The region lies inside the viewport; it may be empty.
spec fn fits(d: DirtyRect, width: int, height: int) -> bool {
    d.min_x <= d.max_x <= width && d.min_y <= d.max_y <= height
}

proof fn lemma_index_bounds(width: int, height: int, x: int, y: int, c: int)
    requires
        0 <= x < width,
        0 <= y < height,
        0 <= c < 4,
    ensures
        0 <= y * width,
        y * width + x < width * height,
        0 <= byte_index(width, x, y, c) < 4 * width * height,
{
    assert(0 <= y * width) by (nonlinear_arith)
        requires
            0 <= y,
            0 < width,
    ;
    assert(y * width + x < width * height) by (nonlinear_arith)
        requires
            0 <= x < width,
            0 <= y < height,
    ;
    assert(4 * (y * width + x) + c < 4 * width * height) by (nonlinear_arith)
        requires
            y * width + x < width * height,
            0 <= c < 4,
    ;
}

proof fn lemma_index_injective(width: int, x1: int, y1: int, c1: int, x2: int, y2: int, c2: int)
    requires
        0 <= x1 < width,
        0 <= x2 < width,
        0 <= y1,
        0 <= y2,
        0 <= c1 < 4,
        0 <= c2 < 4,
        byte_index(width, x1, y1, c1) == byte_index(width, x2, y2, c2),
    ensures
        x1 == x2 && y1 == y2 && c1 == c2,
{
    let p1 = y1 * width + x1;
    let p2 = y2 * width + x2;
    assert(p1 == p2 && c1 == c2);
    if y1 < y2 {
        assert(y1 * width + width <= y2 * width) by (nonlinear_arith)
            requires
                y1 < y2,
                0 < width,
        ;
    } else if y2 < y1 {
        assert(y2 * width + width <= y1 * width) by (nonlinear_arith)
            requires
                y2 < y1,
                0 < width,
        ;
    }
}

proof fn lemma_region_step(
    s: Seq<u8>,
    o: Seq<u8>,
    v: Seq<u8>,
    width: int,
    height: int,
    d: DirtyRect,
    y: int,
    x: int,
    c: int,
)
    requires
        region_upto(s, o, v, width, height, d, y, x, c),
        d.contains(x, y),
        0 <= x < width,
        0 <= y < height,
        0 <= c < 4,
        s.len() == 4 * width * height,
    ensures
        region_upto(
            s.update(byte_index(width, x, y, c), v[byte_index(width, x, y, c)]),
            o,
            v,
            width,
            height,
            d,
            y,
            x,
            c + 1,
        ),
{
    let i = byte_index(width, x, y, c);
    let s2 = s.update(i, v[i]);
    lemma_index_bounds(width, height, x, y, c);
    assert forall|xx: int, yy: int, cc: int|
        0 <= xx < width && 0 <= yy < height && 0 <= cc < 4 implies #[trigger] s2[byte_index(
            width,
            xx,
            yy,
            cc,
        )] == if written(d, y, x, c + 1, xx, yy, cc) {
            v[byte_index(width, xx, yy, cc)]
        } else {
            o[byte_index(width, xx, yy, cc)]
        } by {
        lemma_index_bounds(width, height, xx, yy, cc);
        if xx != x || yy != y || cc != c {
            if byte_index(width, xx, yy, cc) == i {
                lemma_index_injective(width, xx, yy, cc, x, y, c);
            }
            assert(s2[byte_index(width, xx, yy, cc)] == s[byte_index(width, xx, yy, cc)]);
        }
    }
}

proof fn lemma_region_done(
    s: Seq<u8>,
    o: Seq<u8>,
    v: Seq<u8>,
    width: int,
    height: int,
    d: DirtyRect,
)
    requires
        region_upto(s, o, v, width, height, d, d.max_y as int, d.min_x as int, 0),
    ensures
        region_copied(s, o, v, width, height, d),
{
    assert forall|x: int, y: int, c: int|
        0 <= x < width && 0 <= y < height && 0 <= c < 4 implies #[trigger] s[byte_index(
            width,
            x,
            y,
            c,
        )] == if d.contains(x, y) {
            v[byte_index(width, x, y, c)]
        } else {
            o[byte_index(width, x, y, c)]
        } by {
        assert(written(d, d.max_y as int, d.min_x as int, 0, x, y, c) == d.contains(x, y));
    }
}

/// Copies region `d` of `src` into `dst`, row by row; nothing outside `d` changes.
fn copy_region(dst: &mut [u8], src: &[u8], width: u32, height: u32, d: DirtyRect)
    requires
        buffer_len(width, height) <= MAX_BUFFER_BYTES,
        old(dst)@.len() == buffer_len(width, height),
        src@.len() == buffer_len(width, height),
        fits(d, width as int, height as int),
    ensures
        final(dst)@.len() == buffer_len(width, height),
        region_copied(final(dst)@, old(dst)@, src@, width as int, height as int, d),
{
    let ghost w = width as int;
    let ghost h = height as int;
    let ghost o = dst@;
    let mut y: u32 = d.min_y;
    while y < d.max_y
        invariant
            fits(d, w, h),
            w == width,
            h == height,
            d.min_y <= y <= d.max_y,
            4 * w * h <= MAX_BUFFER_BYTES,
            dst@.len() == 4 * w * h,
            src@.len() == 4 * w * h,
            region_upto(dst@, o, src@, w, h, d, y as int, d.min_x as int, 0),
        decreases d.max_y - y,
    {
        let mut x: u32 = d.min_x;
        while x < d.max_x
            invariant
                fits(d, w, h),
                w == width,
                h == height,
                d.min_y <= y < d.max_y,
                d.min_x <= x <= d.max_x,
                4 * w * h <= MAX_BUFFER_BYTES,
                dst@.len() == 4 * w * h,
                src@.len() == 4 * w * h,
                region_upto(dst@, o, src@, w, h, d, y as int, x as int, 0),
            decreases d.max_x - x,
        {
            proof {
                lemma_index_bounds(w, h, x as int, y as int, 0);
            }
            let base: usize = ((y as usize) * (width as usize) + x as usize) * 4;
            let mut c: usize = 0;
            while c < 4
                invariant
                    fits(d, w, h),
                    w == width,
                    h == height,
                    d.min_y <= y < d.max_y,
                    d.min_x <= x < d.max_x,
                    0 <= c <= 4,
                    base == byte_index(w, x as int, y as int, 0),
                    4 * w * h <= MAX_BUFFER_BYTES,
                    dst@.len() == 4 * w * h,
                    src@.len() == 4 * w * h,
                    region_upto(dst@, o, src@, w, h, d, y as int, x as int, c as int),
                decreases 4 - c,
            {
                proof {
                    lemma_index_bounds(w, h, x as int, y as int, c as int);
                    lemma_region_step(dst@, o, src@, w, h, d, y as int, x as int, c as int);
                }
                let i = base + c;
                dst[i] = src[i];
                c = c + 1;
            }
            x = x + 1;
        }
        y = y + 1;
    }
    proof {
        lemma_region_done(dst@, o, src@, w, h, d);
    }
}

/// Sets every byte of region `d` of `dst` to `value`; nothing outside `d` changes.
fn fill_region(dst: &mut [u8], width: u32, height: u32, d: DirtyRect, value: u8)
    requires
        buffer_len(width, height) <= MAX_BUFFER_BYTES,
        old(dst)@.len() == buffer_len(width, height),
        fits(d, width as int, height as int),
    ensures
        final(dst)@.len() == buffer_len(width, height),
        forall|x: int, y: int, c: int|
            0 <= x < width && 0 <= y < height && 0 <= c < 4 ==> #[trigger] final(dst)@[byte_index(
                width as int,
                x,
                y,
                c,
            )] == if d.contains(x, y) {
                value
            } else {
                old(dst)@[byte_index(width as int, x, y, c)]
            },
{
    let ghost w = width as int;
    let ghost h = height as int;
    let ghost o = dst@;
    let ghost v = Seq::new(dst@.len(), |i: int| value);
    let mut y: u32 = d.min_y;
    while y < d.max_y
        invariant
            fits(d, w, h),
            w == width,
            h == height,
            d.min_y <= y <= d.max_y,
            4 * w * h <= MAX_BUFFER_BYTES,
            dst@.len() == 4 * w * h,
            v == Seq::new((4 * w * h) as nat, |i: int| value),
            region_upto(dst@, o, v, w, h, d, y as int, d.min_x as int, 0),
        decreases d.max_y - y,
    {
        let mut x: u32 = d.min_x;
        while x < d.max_x
            invariant
                fits(d, w, h),
                w == width,
                h == height,
                d.min_y <= y < d.max_y,
                d.min_x <= x <= d.max_x,
                4 * w * h <= MAX_BUFFER_BYTES,
                dst@.len() == 4 * w * h,
                v == Seq::new((4 * w * h) as nat, |i: int| value),
                region_upto(dst@, o, v, w, h, d, y as int, x as int, 0),
            decreases d.max_x - x,
        {
            proof {
                lemma_index_bounds(w, h, x as int, y as int, 0);
            }
            let base: usize = ((y as usize) * (width as usize) + x as usize) * 4;
            let mut c: usize = 0;
            while c < 4
                invariant
                    fits(d, w, h),
                    w == width,
                    h == height,
                    d.min_y <= y < d.max_y,
                    d.min_x <= x < d.max_x,
                    0 <= c <= 4,
                    base == byte_index(w, x as int, y as int, 0),
                    4 * w * h <= MAX_BUFFER_BYTES,
                    dst@.len() == 4 * w * h,
                    v == Seq::new((4 * w * h) as nat, |i: int| value),
                    region_upto(dst@, o, v, w, h, d, y as int, x as int, c as int),
                decreases 4 - c,
            {
                proof {
                    lemma_index_bounds(w, h, x as int, y as int, c as int);
                    lemma_region_step(dst@, o, v, w, h, d, y as int, x as int, c as int);
                }
                let i = base + c;
                dst[i] = value;
                c = c + 1;
            }
            x = x + 1;
        }
        y = y + 1;
    }
    proof {
        lemma_region_done(dst@, o, v, w, h, d);
        assert forall|x: int, y: int, c: int|
            0 <= x < w && 0 <= y < h && 0 <= c < 4 implies #[trigger] dst@[byte_index(
                w,
                x,
                y,
                c,
            )] == if d.contains(x, y) {
                value
            } else {
                o[byte_index(w, x, y, c)]
            } by {
            lemma_index_bounds(w, h, x, y, c);
        }
    }
}

/// Draws the selection box `b`: its interior fully transparent, then a one-pixel white
/// border along each of its four edges. Nothing outside `b` changes.
fn draw_selection(canvas: &mut [u8], width: u32, height: u32, b: DirtyRect)
    requires
        buffer_len(width, height) <= MAX_BUFFER_BYTES,
        old(canvas)@.len() == buffer_len(width, height),
        b.within(width as int, height as int),
    ensures
        final(canvas)@.len() == buffer_len(width, height),
        forall|x: int, y: int, c: int|
            0 <= x < width && 0 <= y < height && 0 <= c < 4 ==> #[trigger] final(canvas)@[byte_index(
                width as int,
                x,
                y,
                c,
            )] == if b.contains(x, y) {
                painted_byte(Some(b), x, y, c)
            } else {
                old(canvas)@[byte_index(width as int, x, y, c)]
            },
{
    if b.max_x - b.min_x >= 2 && b.max_y - b.min_y >= 2 {
        let interior = DirtyRect {
            min_x: b.min_x + 1,
            min_y: b.min_y + 1,
            max_x: b.max_x - 1,
            max_y: b.max_y - 1,
        };
        fill_region(canvas, width, height, interior, 0x00);
    }
    let top = DirtyRect { min_x: b.min_x, min_y: b.min_y, max_x: b.max_x, max_y: b.min_y + 1 };
    let bottom = DirtyRect { min_x: b.min_x, min_y: b.max_y - 1, max_x: b.max_x, max_y: b.max_y };
    let left = DirtyRect { min_x: b.min_x, min_y: b.min_y, max_x: b.min_x + 1, max_y: b.max_y };
    let right = DirtyRect { min_x: b.max_x - 1, min_y: b.min_y, max_x: b.max_x, max_y: b.max_y };
    fill_region(canvas, width, height, top, 0xFF);
    fill_region(canvas, width, height, bottom, 0xFF);
    fill_region(canvas, width, height, left, 0xFF);
    fill_region(canvas, width, height, right, 0xFF);
}

/// Composing the steps of a render: the background copied into region `d`, then the
/// selection box drawn, gives the painted bytes in `d` and the old ones elsewhere.
proof fn lemma_redrawn(
    s: Seq<u8>,
    c1: Seq<u8>,
    c0: Seq<u8>,
    bg: Seq<u8>,
    width: u32,
    height: u32,
    d: DirtyRect,
    curr: Option<DirtyRect>,
)
    requires
        width > 0,
        height > 0,
        bg.len() == buffer_len(width, height),
        forall|i: int| 0 <= i < bg.len() ==> #[trigger] bg[i] == overlay_byte(i % 4),
        region_copied(c1, c0, bg, width as int, height as int, d),
        curr is None ==> s == c1,
        curr matches Some(b) ==> forall|x: int, y: int| #[trigger] b.contains(x, y) ==> d.contains(x, y),
        curr matches Some(b) ==> forall|x: int, y: int, c: int|
            0 <= x < width && 0 <= y < height && 0 <= c < 4 ==> #[trigger] s[byte_index(
                width as int,
                x,
                y,
                c,
            )] == if b.contains(x, y) {
                painted_byte(Some(b), x, y, c)
            } else {
                c1[byte_index(width as int, x, y, c)]
            },
    ensures
        redrawn(s, c0, width as int, height as int, d, curr),
{
    assert forall|x: int, y: int, c: int|
        0 <= x < width && 0 <= y < height && 0 <= c < 4 implies #[trigger] s[byte_index(
            width as int,
            x,
            y,
            c,
        )] == if d.contains(x, y) {
            painted_byte(curr, x, y, c)
        } else {
            c0[byte_index(width as int, x, y, c)]
        } by {
        lemma_index_bounds(width as int, height as int, x, y, c);
        assert((byte_index(width as int, x, y, c)) % 4 == c);
        assert(c1[byte_index(width as int, x, y, c)] == if d.contains(x, y) {
            bg[byte_index(width as int, x, y, c)]
        } else {
            c0[byte_index(width as int, x, y, c)]
        });
        if let Some(b) = curr {
            if b.contains(x, y) {
                assert(d.contains(x, y));
            }
        }
    }
}

/// The dirty region covers the current selection box.
proof fn lemma_dirty_covers_box(
    width: u32,
    height: u32,
    full: bool,
    prev: Option<DirtyRect>,
    b: DirtyRect,
)
    requires
        width > 0,
        height > 0,
        b.within(width as int, height as int),
    ensures
        forall|x: int, y: int|
            #[trigger] b.contains(x, y) ==> dirty_region(width, height, full, prev, Some(b)).contains(x, y),
{
}

/// A byte buffer of `n` bytes, all zero.
fn zeroed(n: usize) -> (v: Vec<u8>)
    ensures
        v@ == Seq::new(n as nat, |i: int| 0u8),
{
    let mut v: Vec<u8> = Vec::with_capacity(n);
    let mut i: usize = 0;
    while i < n
        invariant
            i <= n,
            v@ == Seq::new(i as nat, |k: int| 0u8),
        decreases n - i,
    {
        v.push(0);
        i = i + 1;
        assert(v@ =~= Seq::new(i as nat, |k: int| 0u8));
    }
    v
}

/// The background cache: `n` bytes of the overlay fill, pixel after pixel.
fn overlay_fill(n: usize) -> (v: Vec<u8>)
    ensures
        v@.len() == n,
        forall|i: int| 0 <= i < n ==> #[trigger] v@[i] == overlay_byte(i % 4),
{
    let mut v: Vec<u8> = Vec::with_capacity(n);
    let mut i: usize = 0;
    while i < n
        invariant
            i <= n,
            v@.len() == i,
            forall|k: int| 0 <= k < i ==> #[trigger] v@[k] == overlay_byte(k % 4),
        decreases n - i,
    {
        let b: u8 = if i % 4 == 3 { 0x80 } else { 0 };
        v.push(b);
        i = i + 1;
    }
    v
}

/// Errors of a viewport change.
#[derive(Debug, Clone, Copy, PartialEq, Eq, Structural)]
pub enum FrameError {
    /// The viewport's pixel buffer would exceed `MAX_BUFFER_BYTES`.
    TooLarge,
}

/// The renderer's state and the bookkeeping of the two presentation slots: the viewport,
/// the canvas, the background cache, the box drawn by the last render, whether a full
/// redraw is pending, and which slot is presented.
pub struct Frame {
    pub width: u32,
    pub height: u32,
    pub canvas: Vec<u8>,
    pub background: Vec<u8>,
    pub prev_rect: Option<DirtyRect>,
    pub full_redraw: bool,
    pub active: usize,
}

/// What a resize to `width` x `height` does to a frame, given its outcome `r`.
pub open spec fn resized(f: Frame, g: Frame, width: u32, height: u32, r: Result<(), FrameError>) -> bool {
    &&& r is Err <==> width * height > MAX_PIXELS
    &&& r is Err ==> g == f
    &&& r is Ok ==> {
        &&& g.width == width
        &&& g.height == height
        &&& g.canvas@ == Seq::new(buffer_len(width, height) as nat, |i: int| 0u8)
        &&& g.prev_rect is None
        &&& g.full_redraw
        &&& g.active == 0
    }
}

/// What a render for `selection` and `pointer` does to a frame `f`, giving `g`, and to
/// the slot view `t`, giving `u`, with the result `r`.
pub open spec fn rendered(
    f: Frame,
    g: Frame,
    t: Seq<u8>,
    u: Seq<u8>,
    selection: SelectionState,
    pointer: Point,
    r: Option<DirtyRect>,
) -> bool {
    &&& g.width == f.width
    &&& g.height == f.height
    &&& g.background@ == f.background@
    &&& f.width == 0 || f.height == 0 ==> {
        &&& r is None
        &&& g == f
        &&& u == t
    }
    &&& f.width > 0 && f.height > 0 ==> {
        let w = f.width;
        let h = f.height;
        let curr = current_box(w, h, selection, pointer);
        let d = dirty_region(w, h, f.full_redraw, f.prev_rect, curr);
        &&& r == Some(d)
        &&& d.within(w as int, h as int)
        &&& redrawn(g.canvas@, f.canvas@, w as int, h as int, d, curr)
        &&& redrawn(u, t, w as int, h as int, d, curr)
        &&& g.prev_rect == curr
        &&& !g.full_redraw
        &&& g.active == 1 - f.active
    }
}

impl Frame {
    pub open spec fn wf(&self) -> bool {
        &&& buffer_len(self.width, self.height) <= MAX_BUFFER_BYTES
        &&& self.canvas@.len() == buffer_len(self.width, self.height)
        &&& self.background@.len() == buffer_len(self.width, self.height)
        &&& forall|i: int|
            0 <= i < self.background@.len() ==> #[trigger] self.background@[i] == overlay_byte(
                i % 4,
            )
        &&& self.active < 2
        &&& self.prev_rect matches Some(b) ==> b.within(self.width as int, self.height as int)
    }

    /// An empty viewport, with a full redraw pending and slot 0 presented.
    pub fn new() -> (f: Frame)
        ensures
            f.wf(),
            f.width == 0,
            f.height == 0,
            f.prev_rect is None,
            f.full_redraw,
            f.active == 0,
    {
        Frame {
            width: 0,
            height: 0,
            canvas: Vec::new(),
            background: Vec::new(),
            prev_rect: None,
            full_redraw: true,
            active: 0,
        }
    }

    /// Takes a new viewport size: the canvas is cleared, the background cache filled,
    /// both slots are taken to be reallocated (slot 0 presented), and the next render
    /// redraws the whole viewport. A size whose buffer would exceed `MAX_BUFFER_BYTES`
    /// is refused and changes nothing.
    pub fn resize(&mut self, width: u32, height: u32) -> (r: Result<(), FrameError>)
        requires
            old(self).wf(),
        ensures
            final(self).wf(),
            resized(*old(self), *final(self), width, height, r),
    {
        proof {
            assert(width * height <= 0xffff_ffffu64 * 0xffff_ffffu64) by (nonlinear_arith)
                requires
                    width <= 0xffff_ffffu64,
                    height <= 0xffff_ffffu64,
            ;
        }
        let pixels: u64 = width as u64 * height as u64;
        if pixels > MAX_PIXELS {
            return Err(FrameError::TooLarge);
        }
        assert(buffer_len(width, height) == 4 * pixels) by (nonlinear_arith)
            requires
                pixels == width * height,
        ;
        let n: usize = (pixels * 4) as usize;
        self.width = width;
        self.height = height;
        self.canvas = zeroed(n);
        self.background = overlay_fill(n);
        self.prev_rect = None;
        self.full_redraw = true;
        self.active = 0;
        Ok(())
    }

    /// Byte size of the canvas, and of each presentation slot.
    pub fn byte_len(&self) -> (n: usize)
        requires
            self.wf(),
        ensures
            n == buffer_len(self.width, self.height),
    {
        self.canvas.len()
    }

    /// Bytes per row of a slot.
    pub fn stride(&self) -> (n: u64)
        ensures
            n == 4 * self.width,
    {
        4 * self.width as u64
    }

    /// The slot currently presented.
    pub fn active_slot(&self) -> (i: usize)
        requires
            self.wf(),
        ensures
            i == self.active,
            i < 2,
    {
        self.active
    }

    /// The slot that the next render writes into.
    pub fn inactive_slot(&self) -> (i: usize)
        requires
            self.wf(),
        ensures
            i == 1 - self.active,
            i < 2,
    {
        1 - self.active
    }

    /// Draws one frame for the given selection and pointer, and writes it into `target`,
    /// the mapped view of the inactive slot. The dirty region is the union of the box
    /// drawn last time and the box drawn now (the whole viewport when a full redraw is
    /// pending or there is neither); inside it each pixel is repainted from the
    /// background cache, the selection's transparent interior and its white border, in
    /// the canvas and in `target`; outside it neither changes. The presented slot then
    /// flips and the region is returned, for the compositor's damage. On an empty
    /// viewport nothing happens and `None` comes back.
    pub fn render(&mut self, selection: SelectionState, pointer: Point, target: &mut [u8]) -> (r:
        Option<DirtyRect>)
        requires
            old(self).wf(),
            old(target)@.len() == old(self).canvas@.len(),
        ensures
            final(self).wf(),
            rendered(*old(self), *final(self), old(target)@, final(target)@, selection, pointer, r),
    {
        let width = self.width;
        let height = self.height;
        if width == 0 || height == 0 {
            return None;
        }
        let curr = match selection {
            SelectionState::Selecting { start } => Some(outline_box(width, height, start, pointer)),
            _ => None,
        };
        let d = dirty_area(width, height, self.full_redraw, self.prev_rect, curr);
        let ghost c0 = self.canvas@;
        copy_region(self.canvas.as_mut_slice(), self.background.as_slice(), width, height, d);
        let ghost c1 = self.canvas@;
        if let Some(b) = curr {
            proof {
                lemma_dirty_covers_box(width, height, self.full_redraw, self.prev_rect, b);
            }
            draw_selection(self.canvas.as_mut_slice(), width, height, b);
        }
        copy_region(target, self.canvas.as_slice(), width, height, d);
        proof {
            lemma_redrawn(self.canvas@, c1, c0, self.background@, width, height, d, curr);
        }
        self.active = 1 - self.active;
        self.prev_rect = curr;
        self.full_redraw = false;
        Some(d)
    }
}

} // verus!
