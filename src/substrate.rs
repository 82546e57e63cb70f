//! Raster primitives: points, rectangles, colors, RGBA bitmaps, and a clipped
//! block transfer between bitmaps.
use vstd::prelude::*;

verus! {

/// A position in screen space.
#[derive(Clone, Copy, PartialEq, Eq, Structural, Debug)]
pub struct Point {
    pub x: isize,
    pub y: isize,
}

impl Point {
    pub fn new(x: isize, y: isize) -> (p: Point)
        ensures
            p.x == x,
            p.y == y,
    {
        Point { x, y }
    }
}


/// An axis-aligned rectangle: `origin` is the top-left corner (inclusive) and
/// `corner` the bottom-right one (exclusive).
#[derive(Clone, Copy, PartialEq, Eq, Structural, Debug)]
pub struct Rect {
    pub origin: Point,
    pub corner: Point,
}

impl Rect {
    pub fn new(origin: Point, corner: Point) -> (r: Rect)
        ensures
            r.origin == origin,
            r.corner == corner,
    {
        Rect { origin, corner }
    }

    /// Horizontal extent; negative when the rectangle is malformed.
    pub fn width(self) -> (w: isize)
        requires
            isize::MIN <= self.corner.x - self.origin.x <= isize::MAX,
        ensures
            w == self.corner.x - self.origin.x,
    {
        self.corner.x - self.origin.x
    }

    /// Vertical extent; negative when the rectangle is malformed.
    pub fn height(self) -> (h: isize)
        requires
            isize::MIN <= self.corner.y - self.origin.y <= isize::MAX,
        ensures
            h == self.corner.y - self.origin.y,
    {
        self.corner.y - self.origin.y
    }
}

/// A color with four 8-bit channels.
#[derive(Clone, Copy, PartialEq, Eq, Structural, Debug)]
pub struct Color {
    pub r: u8,
    pub g: u8,
    pub b: u8,
    pub a: u8,
}

impl Color {
    /// Decodes a packed `0xRRGGBBAA` value.
    pub fn new(rgba: u32) -> (c: Color)
        ensures
            c.r == rgba / 0x100_0000,
            c.g == (rgba / 0x1_0000) % 0x100,
            c.b == (rgba / 0x100) % 0x100,
            c.a == rgba % 0x100,
    {
        let r: u8 = ((rgba >> 24) & 0xff) as u8;
        let g: u8 = ((rgba >> 16) & 0xff) as u8;
        let b: u8 = ((rgba >> 8) & 0xff) as u8;
        let a: u8 = (rgba & 0xff) as u8;
        assert(((rgba >> 24) & 0xff) == rgba / 0x100_0000) by (bit_vector);
        assert(((rgba >> 16) & 0xff) == (rgba / 0x1_0000) % 0x100) by (bit_vector);
        assert(((rgba >> 8) & 0xff) == (rgba / 0x100) % 0x100) by (bit_vector);
        assert((rgba & 0xff) == rgba % 0x100) by (bit_vector);
        Color { r, g, b, a }
    }
}

/// How a source pixel combines with the destination pixel under it. Each
/// operation acts on the four channels alike, alpha included.
#[derive(Clone, Copy, PartialEq, Eq, Structural, Debug)]
pub enum DrawOp {
    /// `d = s`
    Store,
    /// `d = 255 - s`
    StoreInvert,
    /// `d = d | s`
    Or,
    /// `d = d & s`
    And,
    /// `d = d ^ s`
    Xor,
    /// `d = 0`
    Clear,
}

/// The channel that `op` writes over destination channel `d` from source channel `s`.
pub open spec fn merge_channel(op: DrawOp, s: u8, d: u8) -> u8 {
    match op {
        DrawOp::Store => s,
        DrawOp::StoreInvert => (255 - s) as u8,
        DrawOp::Or => s | d,
        DrawOp::And => s & d,
        DrawOp::Xor => s ^ d,
        DrawOp::Clear => 0,
    }
}

/// The color that `op` writes over destination color `d` from source color `s`.
pub open spec fn merge_color(op: DrawOp, s: Color, d: Color) -> Color {
    Color {
        r: merge_channel(op, s.r, d.r),
        g: merge_channel(op, s.g, d.g),
        b: merge_channel(op, s.b, d.b),
        a: merge_channel(op, s.a, d.a),
    }
}

fn combine_channel(op: DrawOp, s: u8, d: u8) -> (r: u8)
    ensures
        r == merge_channel(op, s, d),
{
    match op {
        DrawOp::Store => s,
        DrawOp::StoreInvert => 255 - s,
        DrawOp::Or => s | d,
        DrawOp::And => s & d,
        DrawOp::Xor => s ^ d,
        DrawOp::Clear => 0,
    }
}

/// Combines one source pixel with one destination pixel under `op`.
pub fn combine(op: DrawOp, s: Color, d: Color) -> (r: Color)
    ensures
        r == merge_color(op, s, d),
{
    Color {
        r: combine_channel(op, s.r, d.r),
        g: combine_channel(op, s.g, d.g),
        b: combine_channel(op, s.b, d.b),
        a: combine_channel(op, s.a, d.a),
    }
}


/// Bytes per pixel: one each for red, green, blue and alpha.
const RGBA_PIXEL_DEPTH: isize = 4;

/// The four bytes at `i..i + 4` read as a color.
pub open spec fn color_at(s: Seq<u8>, i: int) -> Color {
    Color { r: s[i], g: s[i + 1], b: s[i + 2], a: s[i + 3] }
}

/// `s` with the four bytes at `i..i + 4` replaced by `c`.
pub open spec fn put_color(s: Seq<u8>, i: int, c: Color) -> Seq<u8> {
    s.update(i, c.r).update(i + 1, c.g).update(i + 2, c.b).update(i + 3, c.a)
}

/// Channel `k` (0 = red, 1 = green, 2 = blue, 3 = alpha) of `c`.
pub open spec fn channel(c: Color, k: int) -> u8 {
    if k == 0 {
        c.r
    } else if k == 1 {
        c.g
    } else if k == 2 {
        c.b
    } else {
        c.a
    }
}

/// `n` bytes that repeat the channels of `c` in RGBA order.
pub open spec fn filled_bytes(n: int, c: Color) -> Seq<u8> {
    Seq::new(n as nat, |i: int| channel(c, i % 4))
}

/// What a bitmap is: its placement, its size, and its row-major RGBA bytes.
pub ghost struct BitmapModel {
    pub x: int,
    pub y: int,
    pub w: int,
    pub h: int,
    pub bytes: Seq<u8>,
}

impl BitmapModel {
    pub open spec fn wf(self) -> bool {
        &&& self.w >= 0
        &&& self.h >= 0
        &&& self.bytes.len() == self.w * self.h * 4
    }

    pub open spec fn in_bounds(self, x: int, y: int) -> bool {
        0 <= x < self.w && 0 <= y < self.h
    }

    /// Index of the red byte of pixel `(x, y)`.
    pub open spec fn offset(self, x: int, y: int) -> int {
        (y * self.w + x) * 4
    }

    pub open spec fn pixel(self, x: int, y: int) -> Color {
        color_at(self.bytes, self.offset(x, y))
    }

    /// The bitmap after pixel `(x, y)` is set to `c`.
    pub open spec fn with_pixel(self, x: int, y: int, c: Color) -> BitmapModel {
        BitmapModel { bytes: put_color(self.bytes, self.offset(x, y), c), ..self }
    }

    /// The bitmap after every pixel is set to `c`.
    pub open spec fn with_fill(self, c: Color) -> BitmapModel {
        BitmapModel { bytes: filled_bytes(self.bytes.len() as int, c), ..self }
    }
}

/// Pixel `(x, y)` of a well-formed bitmap lies wholly inside its bytes, at a
/// multiple of four.
pub proof fn lemma_offset_in_range(m: BitmapModel, x: int, y: int)
    requires
        m.wf(),
        m.in_bounds(x, y),
    ensures
        0 <= m.offset(x, y),
        m.offset(x, y) + 4 <= m.bytes.len(),
        m.offset(x, y) % 4 == 0,
{
    let w = m.w;
    let h = m.h;
    assert(0 <= y * w) by (nonlinear_arith)
        requires
            0 <= y,
            0 <= w,
    ;
    assert(y * w + x + 1 <= h * w) by (nonlinear_arith)
        requires
            0 <= x < w,
            0 <= y < h,
    ;
    assert(w * h * 4 == (h * w) * 4) by (nonlinear_arith);
}

/// Two different pixels of a bitmap have disjoint bytes.
pub proof fn lemma_offsets_disjoint(m: BitmapModel, x1: int, y1: int, x2: int, y2: int)
    requires
        m.in_bounds(x1, y1),
        m.in_bounds(x2, y2),
        x1 != x2 || y1 != y2,
    ensures
        m.offset(x1, y1) + 4 <= m.offset(x2, y2) || m.offset(x2, y2) + 4 <= m.offset(x1, y1),
{
    let w = m.w;
    if y1 < y2 {
        assert(y1 * w + x1 < y2 * w + x2) by (nonlinear_arith)
            requires
                0 <= x1 < w,
                0 <= x2,
                y1 < y2,
        ;
    } else if y2 < y1 {
        assert(y2 * w + x2 < y1 * w + x1) by (nonlinear_arith)
            requires
                0 <= x2 < w,
                0 <= x1,
                y2 < y1,
        ;
    }
}

/// Setting a pixel and reading it back gives the color that was set, and
/// leaves every other pixel as it was.
pub proof fn lemma_set_then_get(m: BitmapModel, x: int, y: int, c: Color)
    requires
        m.wf(),
        m.in_bounds(x, y),
    ensures
        m.with_pixel(x, y, c).wf(),
        m.with_pixel(x, y, c).pixel(x, y) == c,
        forall|px: int, py: int|
            #![trigger m.with_pixel(x, y, c).pixel(px, py)]
            m.in_bounds(px, py) && (px != x || py != y) ==> m.with_pixel(x, y, c).pixel(px, py)
                == m.pixel(px, py),
{
    lemma_offset_in_range(m, x, y);
    let m2 = m.with_pixel(x, y, c);
    assert forall|px: int, py: int|
        #![trigger m2.pixel(px, py)]
        m.in_bounds(px, py) && (px != x || py != y) implies m2.pixel(px, py) == m.pixel(px, py) by {
        lemma_offset_in_range(m, px, py);
        lemma_offsets_disjoint(m, x, y, px, py);
    }
}

/// After filling with `c`, every pixel reads back as `c`.
pub proof fn lemma_fill_then_get(m: BitmapModel, c: Color)
    requires
        m.wf(),
    ensures
        m.with_fill(c).wf(),
        forall|px: int, py: int|
            #![trigger m.with_fill(c).pixel(px, py)]
            m.in_bounds(px, py) ==> m.with_fill(c).pixel(px, py) == c,
{
    let m2 = m.with_fill(c);
    assert forall|px: int, py: int| #![trigger m2.pixel(px, py)] m.in_bounds(px, py) implies m2.pixel(
        px,
        py,
    ) == c by {
        lemma_offset_in_range(m, px, py);
    }
}


/// An RGBA pixel buffer placed at `(x, y)` in some parent space.
#[derive(Clone, Debug)]
pub struct Bitmap {
    x: isize,
    y: isize,
    w: isize,
    h: isize,
    d: isize,
    pixels: Vec<u8>,
}

impl View for Bitmap {
    type V = BitmapModel;

    closed spec fn view(&self) -> BitmapModel {
        BitmapModel {
            x: self.x as int,
            y: self.y as int,
            w: self.w as int,
            h: self.h as int,
            bytes: self.pixels@,
        }
    }
}

impl Bitmap {
    /// The buffer holds exactly four bytes for each of the `w * h` pixels.
    pub closed spec fn wf(&self) -> bool {
        self.d == RGBA_PIXEL_DEPTH && self@.wf() && self.pixels@.len() <= usize::MAX
    }

    /// A bitmap of `width * height` pixels, all bytes zero.
    pub fn new(x: isize, y: isize, width: isize, height: isize) -> (b: Bitmap)
        requires
            width >= 0,
            height >= 0,
            width * height * 4 <= isize::MAX,
        ensures
            b.wf(),
            b@.x == x,
            b@.y == y,
            b@.w == width,
            b@.h == height,
            b@.bytes.len() == width * height * 4,
            b@.bytes == Seq::new((width * height * 4) as nat, |i: int| 0u8),
    {
        assert(0 <= width * height) by (nonlinear_arith)
            requires
                width >= 0,
                height >= 0,
        ;
        let n: usize = (width as usize) * (height as usize) * 4;
        let pixels = vec![0u8; n];
        let b = Bitmap { x, y, w: width, h: height, d: RGBA_PIXEL_DEPTH, pixels };
        assert(b@.bytes =~= Seq::new((width * height * 4) as nat, |i: int| 0u8));
        b
    }

    /// A bitmap placed at `(0, 0)`.
    pub fn new_at_origin(width: isize, height: isize) -> (b: Bitmap)
        requires
            width >= 0,
            height >= 0,
            width * height * 4 <= isize::MAX,
        ensures
            b.wf(),
            b@.x == 0,
            b@.y == 0,
            b@.w == width,
            b@.h == height,
            b@.bytes == Seq::new((width * height * 4) as nat, |i: int| 0u8),
    {
        Bitmap::new(0, 0, width, height)
    }

    pub fn origin(&self) -> (p: Point)
        ensures
            p.x == self@.x,
            p.y == self@.y,
    {
        Point { x: self.x, y: self.y }
    }

    pub fn corner(&self) -> (p: Point)
        requires
            self@.x + self@.w <= isize::MAX,
            self@.y + self@.h <= isize::MAX,
            self.wf(),
        ensures
            p.x == self@.x + self@.w,
            p.y == self@.y + self@.h,
    {
        Point { x: self.x + self.w, y: self.y + self.h }
    }

    /// The bitmap's own placement and extent.
    pub fn rect(&self) -> (r: Rect)
        requires
            self@.x + self@.w <= isize::MAX,
            self@.y + self@.h <= isize::MAX,
            self.wf(),
        ensures
            r.origin.x == self@.x,
            r.origin.y == self@.y,
            r.corner.x == self@.x + self@.w,
            r.corner.y == self@.y + self@.h,
    {
        Rect { origin: self.origin(), corner: self.corner() }
    }

    fn pixel_index(&self, x: isize, y: isize) -> (pos: usize)
        requires
            self.wf(),
            self@.in_bounds(x as int, y as int),
        ensures
            pos == self@.offset(x as int, y as int),
            pos + 4 <= self@.bytes.len(),
    {
        proof {
            lemma_offset_in_range(self@, x as int, y as int);
            assert(0 <= y * self.w) by (nonlinear_arith)
                requires
                    0 <= y,
                    0 <= self.w,
            ;
        }
        ((y as usize) * (self.w as usize) + (x as usize)) * 4
    }

    /// The color of pixel `(x, y)`.
    pub fn get(&self, x: isize, y: isize) -> (c: Color)
        requires
            self.wf(),
            self@.in_bounds(x as int, y as int),
        ensures
            c == self@.pixel(x as int, y as int),
    {
        let pos = self.pixel_index(x, y);
        let r = self.pixels[pos];
        let g = self.pixels[pos + 1];
        let b = self.pixels[pos + 2];
        let a = self.pixels[pos + 3];
        Color { r, g, b, a }
    }

    /// Sets pixel `(x, y)` to `color`.
    pub fn set(&mut self, x: isize, y: isize, color: Color)
        requires
            old(self).wf(),
            old(self)@.in_bounds(x as int, y as int),
        ensures
            final(self).wf(),
            final(self)@ == old(self)@.with_pixel(x as int, y as int, color),
            final(self)@.pixel(x as int, y as int) == color,
            forall|px: int, py: int|
                #![trigger final(self)@.pixel(px, py)]
                old(self)@.in_bounds(px, py) && (px != x || py != y) ==> final(self)@.pixel(px, py)
                    == old(self)@.pixel(px, py),
    {
        proof {
            lemma_set_then_get(self@, x as int, y as int, color);
        }
        let pos = self.pixel_index(x, y);
        self.pixels.set(pos, color.r);
        self.pixels.set(pos + 1, color.g);
        self.pixels.set(pos + 2, color.b);
        self.pixels.set(pos + 3, color.a);
        assert(self@.bytes =~= put_color(old(self)@.bytes, pos as int, color));
    }

    /// Sets every pixel to `color`.
    pub fn fill(&mut self, color: Color)
        requires
            old(self).wf(),
        ensures
            final(self).wf(),
            final(self)@ == old(self)@.with_fill(color),
            forall|px: int, py: int|
                #![trigger final(self)@.pixel(px, py)]
                old(self)@.in_bounds(px, py) ==> final(self)@.pixel(px, py) == color,
    {
        proof {
            lemma_fill_then_get(self@, color);
        }
        let n: usize = self.pixels.len();
        let mut i: usize = 0;
        while i < n
            invariant
                self.d == old(self).d,
                self@.x == old(self)@.x,
                self@.y == old(self)@.y,
                self@.w == old(self)@.w,
                self@.h == old(self)@.h,
                self@.bytes.len() == n,
                n == old(self)@.bytes.len(),
                i <= n,
                forall|j: int| 0 <= j < i ==> #[trigger] self@.bytes[j] == channel(color, j % 4),
            decreases n - i,
        {
            let k: usize = i % 4;
            let v: u8 = if k == 0 {
                color.r
            } else if k == 1 {
                color.g
            } else if k == 2 {
                color.b
            } else {
                color.a
            };
            self.pixels.set(i, v);
            i = i + 1;
        }
        assert(self@.bytes =~= filled_bytes(n as int, color));
    }

    /// The raw buffer: row-major RGBA bytes, four per pixel.
    pub fn pixels(&self) -> (s: &[u8])
        ensures
            s@ == self@.bytes,
    {
        self.pixels.as_slice()
    }
}


pub open spec fn min_int(a: int, b: int) -> int {
    if a <= b {
        a
    } else {
        b
    }
}

pub open spec fn max_int(a: int, b: int) -> int {
    if a >= b {
        a
    } else {
        b
    }
}

/// One axis of a block transfer: the source rectangle's edges `lo..hi`, the
/// placement `at` of `lo` in the destination, and the clip edges.
pub ghost struct Span {
    pub lo: int,
    pub hi: int,
    pub at: int,
    pub clip_lo: int,
    pub clip_hi: int,
}

pub open spec fn x_span(src_rect: Rect, at: Point, clip_rect: Rect) -> Span {
    Span {
        lo: src_rect.origin.x as int,
        hi: src_rect.corner.x as int,
        at: at.x as int,
        clip_lo: clip_rect.origin.x as int,
        clip_hi: clip_rect.corner.x as int,
    }
}

pub open spec fn y_span(src_rect: Rect, at: Point, clip_rect: Rect) -> Span {
    Span {
        lo: src_rect.origin.y as int,
        hi: src_rect.corner.y as int,
        at: at.y as int,
        clip_lo: clip_rect.origin.y as int,
        clip_hi: clip_rect.corner.y as int,
    }
}

/// Clip resolution along one axis, against a destination of extent `dst_ext`
/// and a source of extent `src_ext`.
///
/// 1. The clip edges are clamped to `0..dst_ext`.
/// 2. A placement at or left of the clip's low edge drops the source columns
///    that would land before it and moves to that edge; a placement whose far
///    edge passes the clip's high edge drops the overflow from the source's
///    high edge, never more than the width it has.
/// 3. A source range that starts below zero starts at zero instead and its
///    placement moves up by as much, so each remaining source column keeps its
///    destination column; one that ends past `src_ext` ends there.
pub open spec fn resolve_span(v: Span, dst_ext: int, src_ext: int) -> Span {
    let clip_lo = max_int(0, v.clip_lo);
    let clip_hi = min_int(dst_ext, v.clip_hi);
    let lo1 = if v.at <= clip_lo {
        v.lo + (clip_lo - v.at)
    } else {
        v.lo
    };
    let at1 = if v.at <= clip_lo {
        clip_lo
    } else {
        v.at
    };
    let width = v.hi - lo1;
    let over = at1 + width - clip_hi;
    let hi1 = if over > 0 && width > 0 {
        v.hi - min_int(over, width)
    } else {
        v.hi
    };
    let lo2 = if lo1 < 0 {
        0
    } else {
        lo1
    };
    let at2 = if lo1 < 0 {
        at1 - lo1
    } else {
        at1
    };
    Span { lo: lo2, hi: min_int(hi1, src_ext), at: at2, clip_lo, clip_hi }
}

pub open spec fn fits_isize(v: int) -> bool {
    isize::MIN <= v <= isize::MAX
}

/// Every edge of `v` can be held in an `isize`.
pub open spec fn span_fits(v: Span) -> bool {
    &&& fits_isize(v.lo)
    &&& fits_isize(v.hi)
    &&& fits_isize(v.at)
    &&& fits_isize(v.clip_lo)
    &&& fits_isize(v.clip_hi)
}

/// Destination coordinate `p` receives a source pixel along this axis.
pub open spec fn placed(v: Span, p: int) -> bool {
    v.at <= p < v.at + (v.hi - v.lo)
}

/// Resolving a span that was already resolved changes nothing.
pub proof fn lemma_resolve_idempotent(v: Span, dst_ext: int, src_ext: int)
    ensures
        resolve_span(resolve_span(v, dst_ext, src_ext), dst_ext, src_ext) == resolve_span(
            v,
            dst_ext,
            src_ext,
        ),
{
}

/// A resolved span that is not empty reads only inside the source, and is
/// placed inside both the clamped clip range and the destination.
pub proof fn lemma_resolved_inside(v: Span, dst_ext: int, src_ext: int)
    ensures
        ({
            let r = resolve_span(v, dst_ext, src_ext);
            &&& 0 <= r.clip_lo
            &&& r.clip_hi <= dst_ext
            &&& r.hi > r.lo ==> {
                &&& 0 <= r.lo
                &&& r.hi <= src_ext
                &&& r.clip_lo <= r.at
                &&& r.at + (r.hi - r.lo) <= r.clip_hi
            }
        }),
{
}

/// A clip range that misses the destination leaves nothing to copy.
pub proof fn lemma_outside_clip_empty(v: Span, dst_ext: int, src_ext: int)
    requires
        v.clip_hi <= 0 || v.clip_lo >= dst_ext,
    ensures
        resolve_span(v, dst_ext, src_ext).hi <= resolve_span(v, dst_ext, src_ext).lo,
        forall|p: int| !placed(resolve_span(v, dst_ext, src_ext), p),
{
    lemma_resolved_inside(v, dst_ext, src_ext);
}

/// A source range inside the source, placed inside the clip range and the
/// destination, is left as it is.
pub proof fn lemma_inside_unchanged(v: Span, dst_ext: int, src_ext: int)
    requires
        0 <= v.lo <= v.hi <= src_ext,
        v.clip_lo <= v.at,
        0 <= v.at,
        v.at + (v.hi - v.lo) <= v.clip_hi,
        v.at + (v.hi - v.lo) <= dst_ext,
    ensures
        resolve_span(v, dst_ext, src_ext).lo == v.lo,
        resolve_span(v, dst_ext, src_ext).hi == v.hi,
        resolve_span(v, dst_ext, src_ext).at == v.at,
{
}

fn min_i128(a: i128, b: i128) -> (r: i128)
    ensures
        r == min_int(a as int, b as int),
{
    if a <= b {
        a
    } else {
        b
    }
}

fn max_i128(a: i128, b: i128) -> (r: i128)
    ensures
        r == max_int(a as int, b as int),
{
    if a >= b {
        a
    } else {
        b
    }
}

/// The span made of these edges.
pub open spec fn span_of(lo: isize, hi: isize, at: isize, clip_lo: isize, clip_hi: isize) -> Span {
    Span { lo: lo as int, hi: hi as int, at: at as int, clip_lo: clip_lo as int, clip_hi: clip_hi as int }
}

/// Resolves one axis; returns `(lo, hi, at, clip_lo, clip_hi)`.
fn resolve_axis(
    lo: isize,
    hi: isize,
    at: isize,
    clip_lo: isize,
    clip_hi: isize,
    dst_ext: isize,
    src_ext: isize,
) -> (r: (isize, isize, isize, isize, isize))
    requires
        span_fits(resolve_span(span_of(lo, hi, at, clip_lo, clip_hi), dst_ext as int, src_ext as int)),
    ensures
        span_of(r.0, r.1, r.2, r.3, r.4) == resolve_span(
            span_of(lo, hi, at, clip_lo, clip_hi),
            dst_ext as int,
            src_ext as int,
        ),
{
    let lo = lo as i128;
    let hi = hi as i128;
    let at = at as i128;
    let c0 = max_i128(0, clip_lo as i128);
    let c1 = min_i128(dst_ext as i128, clip_hi as i128);
    let (lo1, at1) = if at <= c0 {
        (lo + (c0 - at), c0)
    } else {
        (lo, at)
    };
    let width = hi - lo1;
    let over = at1 + width - c1;
    let hi1 = if over > 0 && width > 0 {
        hi - min_i128(over, width)
    } else {
        hi
    };
    let (lo2, at2) = if lo1 < 0 {
        (0, at1 - lo1)
    } else {
        (lo1, at1)
    };
    let hi2 = min_i128(hi1, src_ext as i128);
    (lo2 as isize, hi2 as isize, at2 as isize, c0 as isize, c1 as isize)
}

/// Clips a transfer in place. Afterwards `src_rect` is the part of the source
/// that lies inside `src` and, placed at `at`, inside both `dst` and
/// `clip_rect`; `clip_rect` is clamped to `dst`. The region is empty when
/// `src_rect` has no positive width or height.
pub fn clip(src: &Bitmap, src_rect: &mut Rect, dst: &Bitmap, at: &mut Point, clip_rect: &mut Rect)
    requires
        span_fits(resolve_span(x_span(*old(src_rect), *old(at), *old(clip_rect)), dst@.w, src@.w)),
        span_fits(resolve_span(y_span(*old(src_rect), *old(at), *old(clip_rect)), dst@.h, src@.h)),
    ensures
        x_span(*final(src_rect), *final(at), *final(clip_rect)) == resolve_span(
            x_span(*old(src_rect), *old(at), *old(clip_rect)),
            dst@.w,
            src@.w,
        ),
        y_span(*final(src_rect), *final(at), *final(clip_rect)) == resolve_span(
            y_span(*old(src_rect), *old(at), *old(clip_rect)),
            dst@.h,
            src@.h,
        ),
{
    let (lo_x, hi_x, at_x, c0_x, c1_x) = resolve_axis(
        src_rect.origin.x,
        src_rect.corner.x,
        at.x,
        clip_rect.origin.x,
        clip_rect.corner.x,
        dst.w,
        src.w,
    );
    let (lo_y, hi_y, at_y, c0_y, c1_y) = resolve_axis(
        src_rect.origin.y,
        src_rect.corner.y,
        at.y,
        clip_rect.origin.y,
        clip_rect.corner.y,
        dst.h,
        src.h,
    );
    *src_rect = Rect { origin: Point { x: lo_x, y: lo_y }, corner: Point { x: hi_x, y: hi_y } };
    *at = Point { x: at_x, y: at_y };
    *clip_rect = Rect { origin: Point { x: c0_x, y: c0_y }, corner: Point { x: c1_x, y: c1_y } };
}


/// Destination pixel `(px, py)` receives a source pixel when `src_rect`, a
/// resolved region, is placed at `at`.
pub open spec fn in_copy(src_rect: Rect, at: Point, px: int, py: int) -> bool {
    &&& at.x <= px < at.x + (src_rect.corner.x - src_rect.origin.x)
    &&& at.y <= py < at.y + (src_rect.corner.y - src_rect.origin.y)
}

/// The color of destination pixel `(px, py)` after `src_rect` of `src` is
/// merged at `at` into `dst` under `op`.
pub open spec fn blit_pixel(
    src: BitmapModel,
    src_rect: Rect,
    dst: BitmapModel,
    at: Point,
    op: DrawOp,
    px: int,
    py: int,
) -> Color {
    if in_copy(src_rect, at, px, py) {
        merge_color(
            op,
            src.pixel(px - at.x + src_rect.origin.x, py - at.y + src_rect.origin.y),
            dst.pixel(px, py),
        )
    } else {
        dst.pixel(px, py)
    }
}

/// Merges `n` pixels of source row `src_y`, from column `src_x`, into
/// destination row `dst_y` from column `dst_x`.
fn merge(
    src: &Bitmap,
    src_x: isize,
    src_y: isize,
    dst: &mut Bitmap,
    dst_x: isize,
    dst_y: isize,
    n: isize,
    op: DrawOp,
)
    requires
        src.wf(),
        old(dst).wf(),
        n >= 0,
        0 <= src_x,
        src_x + n <= src@.w,
        0 <= src_y < src@.h,
        0 <= dst_x,
        dst_x + n <= old(dst)@.w,
        0 <= dst_y < old(dst)@.h,
    ensures
        final(dst).wf(),
        final(dst)@.x == old(dst)@.x,
        final(dst)@.y == old(dst)@.y,
        final(dst)@.w == old(dst)@.w,
        final(dst)@.h == old(dst)@.h,
        forall|px: int, py: int|
            #![trigger final(dst)@.pixel(px, py)]
            old(dst)@.in_bounds(px, py) ==> final(dst)@.pixel(px, py) == if py == dst_y && dst_x
                <= px < dst_x + n {
                merge_color(op, src@.pixel(px - dst_x + src_x, src_y as int), old(dst)@.pixel(px, py))
            } else {
                old(dst)@.pixel(px, py)
            },
{
    let ghost d0 = dst@;
    let mut i: isize = 0;
    while i < n
        invariant
            src.wf(),
            dst.wf(),
            0 <= i <= n,
            0 <= src_x,
            src_x + n <= src@.w,
            0 <= src_y < src@.h,
            0 <= dst_x,
            dst_x + n <= d0.w,
            0 <= dst_y < d0.h,
            dst@.x == d0.x,
            dst@.y == d0.y,
            dst@.w == d0.w,
            dst@.h == d0.h,
            forall|px: int, py: int|
                #![trigger dst@.pixel(px, py)]
                d0.in_bounds(px, py) ==> dst@.pixel(px, py) == if py == dst_y && dst_x <= px
                    < dst_x + i {
                    merge_color(op, src@.pixel(px - dst_x + src_x, src_y as int), d0.pixel(px, py))
                } else {
                    d0.pixel(px, py)
                },
        decreases n - i,
    {
        let s = src.get(src_x + i, src_y);
        let d = dst.get(dst_x + i, dst_y);
        dst.set(dst_x + i, dst_y, combine(op, s, d));
        i = i + 1;
    }
}

/// Merges every row of `src_rect`, a region that `clip` resolved, into `dst`
/// at `at`, top to bottom.
fn copy_bits(src: &Bitmap, src_rect: Rect, dst: &mut Bitmap, at: Point, op: DrawOp)
    requires
        src.wf(),
        old(dst).wf(),
        src_rect.corner.x > src_rect.origin.x && src_rect.corner.y > src_rect.origin.y ==> {
            &&& 0 <= src_rect.origin.x
            &&& src_rect.corner.x <= src@.w
            &&& 0 <= src_rect.origin.y
            &&& src_rect.corner.y <= src@.h
            &&& 0 <= at.x
            &&& at.x + (src_rect.corner.x - src_rect.origin.x) <= old(dst)@.w
            &&& 0 <= at.y
            &&& at.y + (src_rect.corner.y - src_rect.origin.y) <= old(dst)@.h
        },
    ensures
        final(dst).wf(),
        final(dst)@.x == old(dst)@.x,
        final(dst)@.y == old(dst)@.y,
        final(dst)@.w == old(dst)@.w,
        final(dst)@.h == old(dst)@.h,
        forall|px: int, py: int|
            #![trigger final(dst)@.pixel(px, py)]
            old(dst)@.in_bounds(px, py) ==> final(dst)@.pixel(px, py) == blit_pixel(
                src@,
                src_rect,
                old(dst)@,
                at,
                op,
                px,
                py,
            ),
{
    if src_rect.corner.x <= src_rect.origin.x || src_rect.corner.y <= src_rect.origin.y {
        return;
    }
    let ghost d0 = dst@;
    let n = src_rect.corner.x - src_rect.origin.x;
    let mut src_y: isize = src_rect.origin.y;
    while src_y < src_rect.corner.y
        invariant
            src.wf(),
            dst.wf(),
            src_rect.corner.x > src_rect.origin.x,
            n == src_rect.corner.x - src_rect.origin.x,
            0 <= src_rect.origin.x,
            src_rect.corner.x <= src@.w,
            0 <= src_rect.origin.y <= src_y <= src_rect.corner.y,
            src_rect.corner.y <= src@.h,
            0 <= at.x,
            at.x + n <= d0.w,
            0 <= at.y,
            at.y + (src_rect.corner.y - src_rect.origin.y) <= d0.h,
            dst@.x == d0.x,
            dst@.y == d0.y,
            dst@.w == d0.w,
            dst@.h == d0.h,
            forall|px: int, py: int|
                #![trigger dst@.pixel(px, py)]
                d0.in_bounds(px, py) ==> dst@.pixel(px, py) == if py < at.y + (src_y
                    - src_rect.origin.y) {
                    blit_pixel(src@, src_rect, d0, at, op, px, py)
                } else {
                    d0.pixel(px, py)
                },
        decreases src_rect.corner.y - src_y,
    {
        let dst_y = at.y + (src_y - src_rect.origin.y);
        merge(src, src_rect.origin.x, src_y, dst, at.x, dst_y, n, op);
        src_y = src_y + 1;
    }
}

/// Copies the part of `src_rect` that survives clipping from `src` into `dst`
/// at `at`, merging each pixel under `op`. `src_rect`, `at` and `clip_rect` are
/// left as `clip` resolves them; `src` is not changed.
pub fn bitblt(
    src: Bitmap,
    src_rect: &mut Rect,
    dst: &mut Bitmap,
    at: &mut Point,
    op: DrawOp,
    clip_rect: &mut Rect,
)
    requires
        src.wf(),
        old(dst).wf(),
        span_fits(resolve_span(x_span(*old(src_rect), *old(at), *old(clip_rect)), old(dst)@.w, src@.w)),
        span_fits(resolve_span(y_span(*old(src_rect), *old(at), *old(clip_rect)), old(dst)@.h, src@.h)),
    ensures
        x_span(*final(src_rect), *final(at), *final(clip_rect)) == resolve_span(
            x_span(*old(src_rect), *old(at), *old(clip_rect)),
            old(dst)@.w,
            src@.w,
        ),
        y_span(*final(src_rect), *final(at), *final(clip_rect)) == resolve_span(
            y_span(*old(src_rect), *old(at), *old(clip_rect)),
            old(dst)@.h,
            src@.h,
        ),
        final(dst).wf(),
        final(dst)@.x == old(dst)@.x,
        final(dst)@.y == old(dst)@.y,
        final(dst)@.w == old(dst)@.w,
        final(dst)@.h == old(dst)@.h,
        forall|px: int, py: int|
            #![trigger final(dst)@.pixel(px, py)]
            old(dst)@.in_bounds(px, py) ==> final(dst)@.pixel(px, py) == blit_pixel(
                src@,
                *final(src_rect),
                old(dst)@,
                *final(at),
                op,
                px,
                py,
            ),
{
    clip(&src, src_rect, dst, at, clip_rect);
    proof {
        lemma_resolved_inside(x_span(*old(src_rect), *old(at), *old(clip_rect)), dst@.w, src@.w);
        lemma_resolved_inside(y_span(*old(src_rect), *old(at), *old(clip_rect)), dst@.h, src@.h);
    }
    copy_bits(&src, *src_rect, dst, *at, op);
}


/// A clip rectangle that misses the destination leaves an empty region, and
/// the transfer then changes no destination pixel.
pub proof fn lemma_blit_outside_clip(
    src: BitmapModel,
    src_rect: Rect,
    dst: BitmapModel,
    at: Point,
    op: DrawOp,
    clip_rect: Rect,
)
    requires
        clip_rect.corner.x <= 0 || clip_rect.origin.x >= dst.w || clip_rect.corner.y <= 0
            || clip_rect.origin.y >= dst.h,
    ensures
        ({
            let rx = resolve_span(x_span(src_rect, at, clip_rect), dst.w, src.w);
            let ry = resolve_span(y_span(src_rect, at, clip_rect), dst.h, src.h);
            &&& rx.hi <= rx.lo || ry.hi <= ry.lo
            &&& forall|r: Rect, p: Point, px: int, py: int|
                #![trigger blit_pixel(src, r, dst, p, op, px, py)]
                r.origin.x == rx.lo && r.corner.x == rx.hi && p.x == rx.at && r.origin.y == ry.lo
                    && r.corner.y == ry.hi && p.y == ry.at ==> blit_pixel(src, r, dst, p, op, px, py)
                    == dst.pixel(px, py)
        }),
{
    let vx = x_span(src_rect, at, clip_rect);
    let vy = y_span(src_rect, at, clip_rect);
    if clip_rect.corner.x <= 0 || clip_rect.origin.x >= dst.w {
        lemma_outside_clip_empty(vx, dst.w, src.w);
    } else {
        lemma_outside_clip_empty(vy, dst.h, src.h);
    }
}

/// A source rectangle inside the source, placed inside the clip rectangle and
/// the destination, is kept as given, and a transfer under `Store` then writes
/// each of its pixels unchanged to its place in the destination.
pub proof fn lemma_blit_inside_copies(
    src: BitmapModel,
    src_rect: Rect,
    dst: BitmapModel,
    at: Point,
    clip_rect: Rect,
)
    requires
        0 <= src_rect.origin.x <= src_rect.corner.x <= src.w,
        0 <= src_rect.origin.y <= src_rect.corner.y <= src.h,
        0 <= at.x,
        0 <= at.y,
        clip_rect.origin.x <= at.x,
        clip_rect.origin.y <= at.y,
        at.x + (src_rect.corner.x - src_rect.origin.x) <= clip_rect.corner.x,
        at.y + (src_rect.corner.y - src_rect.origin.y) <= clip_rect.corner.y,
        at.x + (src_rect.corner.x - src_rect.origin.x) <= dst.w,
        at.y + (src_rect.corner.y - src_rect.origin.y) <= dst.h,
    ensures
        ({
            let rx = resolve_span(x_span(src_rect, at, clip_rect), dst.w, src.w);
            let ry = resolve_span(y_span(src_rect, at, clip_rect), dst.h, src.h);
            &&& rx.lo == src_rect.origin.x && rx.hi == src_rect.corner.x && rx.at == at.x
            &&& ry.lo == src_rect.origin.y && ry.hi == src_rect.corner.y && ry.at == at.y
        }),
        forall|sx: int, sy: int|
            #![trigger src.pixel(sx, sy)]
            src_rect.origin.x <= sx < src_rect.corner.x && src_rect.origin.y <= sy
                < src_rect.corner.y ==> blit_pixel(
                src,
                src_rect,
                dst,
                at,
                DrawOp::Store,
                at.x + (sx - src_rect.origin.x),
                at.y + (sy - src_rect.origin.y),
            ) == src.pixel(sx, sy),
{
    lemma_inside_unchanged(x_span(src_rect, at, clip_rect), dst.w, src.w);
    lemma_inside_unchanged(y_span(src_rect, at, clip_rect), dst.h, src.h);
}

/// Pointer state of a drawing surface.
pub struct Mouse {}

/// A drawing surface: the screen's framebuffer and the pointer over it.
pub struct Substrate {
    pub screen: Bitmap,
    pub mouse: Mouse,
}

} // verus!
