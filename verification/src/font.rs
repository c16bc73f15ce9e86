//! The pixel canvas the overlay is drawn into, and the integer side of glyph
//! drawing: blending a rasterized glyph's coverage into the canvas.

use vstd::prelude::*;

use vstd::arithmetic::div_mod::{lemma_fundamental_div_mod, lemma_fundamental_div_mod_converse};
use vstd::arithmetic::mul::{lemma_mul_inequality, lemma_mul_is_commutative};

verus! {

/// A pixel buffer and its dimensions, bundled so drawing functions do not
/// have to take `(pixels, width, height)` as three separate arguments.
/// Pixel `(x, y)` is `pixels[y * width + x]`.
pub struct Canvas<'a> {
    pub pixels: &'a mut [u32],
    pub width: i32,
    pub height: i32,
}

impl<'a> Canvas<'a> {
    pub fn new(pixels: &'a mut [u32], width: i32, height: i32) -> (c: Canvas<'a>)
        ensures
            c.pixels@ == old(pixels)@,
            c.width == width,
            c.height == height,
    {
        Canvas { pixels, width, height }
    }
}

/// A position on the canvas.
#[derive(Clone, Copy, PartialEq, Eq, Structural, Debug)]
pub struct Point {
    pub x: i32,
    pub y: i32,
}

impl Point {
    pub fn new(x: i32, y: i32) -> (p: Point)
        ensures
            p == (Point { x, y }),
    {
        Point { x, y }
    }
}

/// A width and height in pixels.
#[derive(Clone, Copy, PartialEq, Eq, Structural, Debug)]
pub struct Size {
    pub width: i32,
    pub height: i32,
}

impl Size {
    pub fn new(width: i32, height: i32) -> (s: Size)
        ensures
            s == (Size { width, height }),
    {
        Size { width, height }
    }
}

/// The larger of two integers.
pub open spec fn max_int(a: int, b: int) -> int {
    if a < b {
        b
    } else {
        a
    }
}

/// The smaller of two integers.
pub open spec fn min_int(a: int, b: int) -> int {
    if a < b {
        a
    } else {
        b
    }
}

/// Pixel `idx` of a canvas `w` pixels wide lies in columns `x0..x1` and rows
/// `y0..y1`.
pub open spec fn in_box(w: int, idx: int, x0: int, x1: int, y0: int, y1: int) -> bool {
    &&& w > 0
    &&& idx >= 0
    &&& x0 <= idx % w < x1
    &&& y0 <= idx / w < y1
}

/// Pixel `idx` lies in the rectangle at `pos` of size `size`, clipped to a
/// `w` by `h` canvas.
pub open spec fn in_rect(w: int, h: int, pos: Point, size: Size, idx: int) -> bool {
    in_box(
        w,
        idx,
        max_int(pos.x as int, 0),
        min_int(pos.x + size.width, w),
        max_int(pos.y as int, 0),
        min_int(pos.y + size.height, h),
    )
}

/// `pixels` with the rectangle at `pos` of size `size`, clipped to a `w` by
/// `h` canvas, painted `color`.
pub open spec fn filled(pixels: Seq<u32>, w: int, h: int, pos: Point, size: Size, color: u32) -> Seq<u32> {
    Seq::new(pixels.len(), |i: int| if in_rect(w, h, pos, size, i) { color } else { pixels[i] })
}

/// Every pixel a fill of the clipped rectangle writes lies in the buffer:
/// true when the clipped rectangle is empty, or its last pixel is in range.
pub open spec fn rect_fits(len: int, w: int, h: int, pos: Point, size: Size) -> bool {
    let x0 = max_int(pos.x as int, 0);
    let x1 = min_int(pos.x + size.width, w);
    let y0 = max_int(pos.y as int, 0);
    let y1 = min_int(pos.y + size.height, h);
    x0 < x1 && y0 < y1 ==> (y1 - 1) * w + (x1 - 1) < len
}

/// Pixel `y * w + x` sits at column `x` and row `y`.
pub(crate) proof fn lemma_index_coords(idx: int, w: int, x: int, y: int)
    requires
        w > 0,
        0 <= x < w,
        idx == y * w + x,
    ensures
        idx / w == y,
        idx % w == x,
{
    lemma_fundamental_div_mod_converse(idx, w, y, x);
}

/// A pixel at column `idx % w` and row `idx / w` is pixel `idx`.
pub(crate) proof fn lemma_coords_index(idx: int, w: int)
    requires
        w > 0,
    ensures
        idx == (idx / w) * w + idx % w,
{
    lemma_fundamental_div_mod(idx, w);
    lemma_mul_is_commutative(w, idx / w);
}

/// The pixel at column `x`, row `y` of a box whose last pixel is in the
/// buffer is in the buffer too.
pub(crate) proof fn lemma_box_index_bound(w: int, x: int, y: int, x1: int, y1: int)
    requires
        w > 0,
        0 <= x < x1,
        0 <= y < y1,
    ensures
        y * w + x <= (y1 - 1) * w + (x1 - 1),
{
    lemma_mul_inequality(y, y1 - 1, w);
}

/// The 8-bit channel of `c` at bit offset `shift` (0 blue, 8 green, 16 red,
/// 24 alpha).
pub open spec fn channel(c: u32, shift: u32) -> u32 {
    (c >> shift) & 0xff
}

/// A channel mixed from `bg_c` toward `fg_c` by coverage `a` out of 255,
/// rounded down.
pub open spec fn mix(bg_c: u32, fg_c: u32, a: u8) -> u32 {
    ((fg_c * a + bg_c * (255 - a)) / 255) as u32
}

/// `fg` drawn over `bg` with coverage `a`: `fg` itself at full coverage,
/// otherwise an opaque pixel whose red, green and blue are mixed channel by
/// channel.
pub open spec fn blended(bg: u32, fg: u32, a: u8) -> u32 {
    if a == 255 {
        fg
    } else {
        0xff000000u32 | (mix(channel(bg, 16), channel(fg, 16), a) << 16u32) | (mix(
            channel(bg, 8),
            channel(fg, 8),
            a,
        ) << 8u32) | mix(channel(bg, 0), channel(fg, 0), a)
    }
}

fn mix_channel(bg: u32, fg: u32, a: u8, shift: u32) -> (m: u32)
    requires
        shift < 32,
    ensures
        m == mix(channel(bg, shift), channel(fg, shift), a) << shift,
{
    let bg_c = (bg >> shift) & 0xff;
    let fg_c = (fg >> shift) & 0xff;
    assert(bg_c <= 255 && fg_c <= 255) by (bit_vector)
        requires
            bg_c == (bg >> shift) & 0xff,
            fg_c == (fg >> shift) & 0xff,
    ;
    let a32 = a as u32;
    assert(fg_c * a32 + bg_c * (255 - a32) <= 255 * 255) by (nonlinear_arith)
        requires
            bg_c <= 255,
            fg_c <= 255,
            a32 <= 255,
    ;
    ((fg_c * a32 + bg_c * (255 - a32)) / 255) << shift
}

/// Blends `fg` over `bg` with coverage `a` out of 255; see `blended`.
pub fn blend(bg: u32, fg: u32, a: u8) -> (c: u32)
    ensures
        c == blended(bg, fg, a),
{
    if a == 255 {
        return fg;
    }
    let r = mix_channel(bg, fg, a, 16);
    let g = mix_channel(bg, fg, a, 8);
    let b = mix_channel(bg, fg, a, 0);
    let ghost b_mix = mix(channel(bg, 0), channel(fg, 0), a);
    assert(b == b_mix) by (bit_vector)
        requires
            b == b_mix << 0u32,
    ;
    0xff000000 | r | g | b
}

/// No coverage leaves the background, made opaque.
pub proof fn lemma_blend_uncovered(bg: u32, fg: u32)
    ensures
        blended(bg, fg, 0) == bg | 0xff000000u32,
{
    let r = channel(bg, 16);
    let g = channel(bg, 8);
    let b = channel(bg, 0);
    assert(r <= 255 && g <= 255 && b <= 255) by (bit_vector)
        requires
            r == (bg >> 16u32) & 0xff,
            g == (bg >> 8u32) & 0xff,
            b == (bg >> 0u32) & 0xff,
    ;
    assert(mix(r, channel(fg, 16), 0) == r);
    assert(mix(g, channel(fg, 8), 0) == g);
    assert(mix(b, channel(fg, 0), 0) == b);
    assert(0xff000000u32 | (r << 16u32) | (g << 8u32) | b == bg | 0xff000000u32) by (bit_vector)
        requires
            r == (bg >> 16u32) & 0xff,
            g == (bg >> 8u32) & 0xff,
            b == (bg >> 0u32) & 0xff,
    ;
}

/// A mixed channel lies between the two channels it mixes.
proof fn lemma_mix_between(bg_c: u32, fg_c: u32, a: u8)
    requires
        bg_c <= 255,
        fg_c <= 255,
    ensures
        mix(bg_c, fg_c, a) <= 255,
        bg_c <= fg_c ==> bg_c <= mix(bg_c, fg_c, a) <= fg_c,
        fg_c <= bg_c ==> fg_c <= mix(bg_c, fg_c, a) <= bg_c,
{
    let a = a as int;
    let b = bg_c as int;
    let f = fg_c as int;
    assert(b <= f ==> 255 * b <= f * a + b * (255 - a) <= 255 * f) by (nonlinear_arith)
        requires
            0 <= a <= 255,
    ;
    assert(f <= b ==> 255 * f <= f * a + b * (255 - a) <= 255 * b) by (nonlinear_arith)
        requires
            0 <= a <= 255,
    ;
    assert(0 <= f * a + b * (255 - a) <= 255 * 255) by (nonlinear_arith)
        requires
            0 <= a <= 255,
            0 <= b <= 255,
            0 <= f <= 255,
    ;
}

/// Partial coverage gives an opaque pixel whose red, green and blue each
/// lie between the background's and the foreground's.
pub proof fn lemma_blend_channels_between(bg: u32, fg: u32, a: u8, shift: u32)
    requires
        a < 255,
        shift == 0 || shift == 8 || shift == 16,
    ensures
        channel(blended(bg, fg, a), 24) == 0xff,
        channel(blended(bg, fg, a), shift) == mix(channel(bg, shift), channel(fg, shift), a),
        channel(bg, shift) <= channel(fg, shift) ==> channel(bg, shift) <= channel(
            blended(bg, fg, a),
            shift,
        ) <= channel(fg, shift),
        channel(fg, shift) <= channel(bg, shift) ==> channel(fg, shift) <= channel(
            blended(bg, fg, a),
            shift,
        ) <= channel(bg, shift),
{
    let br = channel(bg, 16);
    let bgr = channel(bg, 8);
    let bb = channel(bg, 0);
    let fr = channel(fg, 16);
    let fgr = channel(fg, 8);
    let fb = channel(fg, 0);
    assert(br <= 255 && bgr <= 255 && bb <= 255 && fr <= 255 && fgr <= 255 && fb <= 255) by (bit_vector)
        requires
            br == (bg >> 16u32) & 0xff,
            bgr == (bg >> 8u32) & 0xff,
            bb == (bg >> 0u32) & 0xff,
            fr == (fg >> 16u32) & 0xff,
            fgr == (fg >> 8u32) & 0xff,
            fb == (fg >> 0u32) & 0xff,
    ;
    lemma_mix_between(br, fr, a);
    lemma_mix_between(bgr, fgr, a);
    lemma_mix_between(bb, fb, a);
    let mr = mix(br, fr, a);
    let mg = mix(bgr, fgr, a);
    let mb = mix(bb, fb, a);
    let c = 0xff000000u32 | (mr << 16u32) | (mg << 8u32) | mb;
    assert(((c >> 24u32) & 0xff) == 0xff && ((c >> 16u32) & 0xff) == mr && ((c >> 8u32) & 0xff) == mg
        && ((c >> 0u32) & 0xff) == mb) by (bit_vector)
        requires
            mr <= 255,
            mg <= 255,
            mb <= 255,
            c == 0xff000000u32 | (mr << 16u32) | (mg << 8u32) | mb,
    ;
}

/// A rasterized glyph: `width` by `height` coverage values (0 none, 255
/// full), row by row from the top, and where the bitmap sits relative to
/// the pen: `xmin` pixels right of it, its bottom edge `ymin` pixels above
/// the baseline.
pub struct Glyph {
    pub xmin: i32,
    pub ymin: i32,
    pub width: usize,
    pub height: usize,
    pub bitmap: Vec<u8>,
}

/// The canvas column of the glyph bitmap's left edge, pen at `x`.
pub open spec fn glyph_left(g: &Glyph, x: i32) -> int {
    x + g.xmin
}

/// The canvas row of the glyph bitmap's top edge, baseline at `baseline_y`.
pub open spec fn glyph_top(g: &Glyph, baseline_y: i32) -> int {
    baseline_y - g.height - g.ymin
}

/// The coverage that glyph `g`, drawn with its pen at `(x, baseline_y)`,
/// gives pixel `idx` of a canvas `cw` by `ch`; 0 for pixels it misses.
pub open spec fn coverage_at(g: &Glyph, x: i32, baseline_y: i32, cw: int, ch: int, idx: int) -> u8 {
    let col = idx % cw - glyph_left(g, x);
    let row = idx / cw - glyph_top(g, baseline_y);
    if cw > 0 && idx >= 0 && idx / cw < ch && 0 <= col < g.width && 0 <= row < g.height {
        g.bitmap@[row * g.width + col]
    } else {
        0
    }
}

/// `pixels` with glyph `g` blended in, in `color`, pen at `(x, baseline_y)`,
/// on a canvas `cw` by `ch`.
pub open spec fn glyph_drawn(pixels: Seq<u32>, g: &Glyph, x: i32, baseline_y: i32, cw: int, ch: int, color: u32) -> Seq<u32> {
    Seq::new(
        pixels.len(),
        |i: int|
            if coverage_at(g, x, baseline_y, cw, ch, i) != 0 {
                blended(pixels[i], color, coverage_at(g, x, baseline_y, cw, ch, i))
            } else {
                pixels[i]
            },
    )
}

/// Every canvas pixel the glyph covers lies in the buffer.
pub open spec fn glyph_fits(len: int, g: &Glyph, x: i32, baseline_y: i32, cw: int, ch: int) -> bool {
    forall|row: int, col: int|
        0 <= row < g.height && 0 <= col < g.width && #[trigger] g.bitmap@[row * g.width + col] != 0
            && 0 <= glyph_left(g, x) + col < cw && 0 <= glyph_top(g, baseline_y) + row < ch ==> (
        glyph_top(g, baseline_y) + row) * cw + glyph_left(g, x) + col < len
}

/// Pixel `idx` has been drawn once the glyph's rows before `row`, and the
/// columns before `col` of row `row`, are done.
pub open spec fn glyph_done(g: &Glyph, x: i32, baseline_y: i32, cw: int, ch: int, idx: int, row: int, col: int) -> bool {
    &&& coverage_at(g, x, baseline_y, cw, ch, idx) != 0
    &&& {
        let r = idx / cw - glyph_top(g, baseline_y);
        let c = idx % cw - glyph_left(g, x);
        r < row || (r == row && c < col)
    }
}

/// Blends glyph `glyph` into the canvas in `color`, with its pen at
/// `(x, baseline_y)`, over whatever is already there; pixels off the canvas
/// are skipped.
pub fn draw_glyph(canvas: &mut Canvas, x: i32, baseline_y: i32, glyph: &Glyph, color: u32)
    requires
        glyph.width * glyph.height <= glyph.bitmap@.len(),
        glyph_fits(
            old(canvas).pixels@.len() as int,
            glyph,
            x,
            baseline_y,
            old(canvas).width as int,
            old(canvas).height as int,
        ),
    ensures
        final(canvas).width == old(canvas).width,
        final(canvas).height == old(canvas).height,
        final(canvas).pixels@ == glyph_drawn(
            old(canvas).pixels@,
            glyph,
            x,
            baseline_y,
            old(canvas).width as int,
            old(canvas).height as int,
            color,
        ),
{
    let ghost start = canvas.pixels@;
    let cw = canvas.width;
    let ch = canvas.height;
    let gx: i128 = x as i128 + glyph.xmin as i128;
    let gy: i128 = baseline_y as i128 - glyph.height as i128 - glyph.ymin as i128;
    let gw = glyph.width;
    let gh = glyph.height;
    let mut row: usize = 0;
    while row < gh
        invariant
            canvas.width == cw,
            canvas.height == ch,
            gw == glyph.width,
            gh == glyph.height,
            gw * gh <= glyph.bitmap@.len(),
            gx == glyph_left(glyph, x),
            gy == glyph_top(glyph, baseline_y),
            row <= gh,
            glyph_fits(start.len() as int, glyph, x, baseline_y, cw as int, ch as int),
            canvas.pixels@.len() == start.len(),
            forall|i: int|
                0 <= i < start.len() ==> #[trigger] canvas.pixels@[i] == if glyph_done(
                    glyph,
                    x,
                    baseline_y,
                    cw as int,
                    ch as int,
                    i,
                    row as int,
                    0,
                ) {
                    blended(start[i], color, coverage_at(glyph, x, baseline_y, cw as int, ch as int, i))
                } else {
                    start[i]
                },
        decreases gh - row,
    {
        let mut col: usize = 0;
        while col < gw
            invariant
                canvas.width == cw,
                canvas.height == ch,
                gw == glyph.width,
                gh == glyph.height,
                gw * gh <= glyph.bitmap@.len(),
                gx == glyph_left(glyph, x),
                gy == glyph_top(glyph, baseline_y),
                row < gh,
                col <= gw,
                glyph_fits(start.len() as int, glyph, x, baseline_y, cw as int, ch as int),
                canvas.pixels@.len() == start.len(),
                forall|i: int|
                    0 <= i < start.len() ==> #[trigger] canvas.pixels@[i] == if glyph_done(
                        glyph,
                        x,
                        baseline_y,
                        cw as int,
                        ch as int,
                        i,
                        row as int,
                        col as int,
                    ) {
                        blended(start[i], color, coverage_at(glyph, x, baseline_y, cw as int, ch as int, i))
                    } else {
                        start[i]
                    },
            decreases gw - col,
        {
            assert(row * gw + col < gw * gh) by (nonlinear_arith)
                requires
                    row < gh,
                    col < gw,
            ;
            assert(glyph.bitmap@.len() <= usize::MAX) by {
                let _ = glyph.bitmap.len();
            }
            let a = glyph.bitmap[row * gw + col];
            let fx: i128 = gx + col as i128;
            let fy: i128 = gy + row as i128;
            let ghost before = canvas.pixels@;
            if a != 0 && fx >= 0 && fx < cw as i128 && fy >= 0 && fy < ch as i128 {
                assert(glyph.bitmap@[row * gw + col] != 0);
                assert(fy * cw + fx < start.len());
                assert(fy * cw <= 0x7fff_ffff * 0x7fff_ffff) by (nonlinear_arith)
                    requires
                        0 <= fy <= 0x7fff_ffff,
                        0 <= cw <= 0x7fff_ffff,
                ;
                let idx = (fy * cw as i128 + fx) as usize;
                let old_px = canvas.pixels[idx];
                let new_px = blend(old_px, color, a);
                canvas.pixels[idx] = new_px;
                proof {
                    lemma_index_coords(idx as int, cw as int, fx as int, fy as int);
                    assert(coverage_at(glyph, x, baseline_y, cw as int, ch as int, idx as int) == a);
                    assert(!glyph_done(glyph, x, baseline_y, cw as int, ch as int, idx as int, row as int, col as int));
                    assert forall|i: int| 0 <= i < start.len() implies #[trigger] canvas.pixels@[i] == if glyph_done(
                        glyph,
                        x,
                        baseline_y,
                        cw as int,
                        ch as int,
                        i,
                        row as int,
                        col + 1,
                    ) {
                        blended(start[i], color, coverage_at(glyph, x, baseline_y, cw as int, ch as int, i))
                    } else {
                        start[i]
                    } by {
                        if i != idx as int {
                            assert(before[i] == canvas.pixels@[i]);
                            if cw > 0 && i / (cw as int) == fy && i % (cw as int) == fx {
                                lemma_coords_index(i, cw as int);
                            }
                        }
                    }
                }
            } else {
                proof {
                    assert forall|i: int| 0 <= i < start.len() implies #[trigger] canvas.pixels@[i] == if glyph_done(
                        glyph,
                        x,
                        baseline_y,
                        cw as int,
                        ch as int,
                        i,
                        row as int,
                        col + 1,
                    ) {
                        blended(start[i], color, coverage_at(glyph, x, baseline_y, cw as int, ch as int, i))
                    } else {
                        start[i]
                    } by {
                        let _ = canvas.pixels@[i];
                        if glyph_done(glyph, x, baseline_y, cw as int, ch as int, i, row as int, col + 1)
                            && !glyph_done(glyph, x, baseline_y, cw as int, ch as int, i, row as int, col as int) {
                            assert(i / (cw as int) - gy == row);
                            assert(i % (cw as int) - gx == col);
                            assert(false);
                        }
                    }
                }
            }
            col = col + 1;
        }
        proof {
            assert forall|i: int| 0 <= i < start.len() implies #[trigger] canvas.pixels@[i] == if glyph_done(
                glyph,
                x,
                baseline_y,
                cw as int,
                ch as int,
                i,
                row + 1,
                0,
            ) {
                blended(start[i], color, coverage_at(glyph, x, baseline_y, cw as int, ch as int, i))
            } else {
                start[i]
            } by {
                let _ = canvas.pixels@[i];
            }
        }
        row = row + 1;
    }
    assert(canvas.pixels@ =~= glyph_drawn(start, glyph, x, baseline_y, cw as int, ch as int, color)) by {
        assert forall|i: int| 0 <= i < start.len() implies canvas.pixels@[i] == glyph_drawn(
            start,
            glyph,
            x,
            baseline_y,
            cw as int,
            ch as int,
            color,
        )[i] by {
            let _ = canvas.pixels@[i];
        }
    }
}

/// A buffer of `len` pixels holds every pixel of a `width` by `height`
/// canvas.
pub open spec fn holds_canvas(len: int, width: int, height: int) -> bool {
    width >= 0 && height >= 0 && len >= width * height
}

/// Whether a buffer of `len` pixels holds a whole `width` by `height`
/// canvas.
pub fn buffer_holds_canvas(len: usize, width: i32, height: i32) -> (b: bool)
    ensures
        b == holds_canvas(len as int, width as int, height as int),
{
    if width < 0 || height < 0 {
        return false;
    }
    assert(width * height <= 0x7fff_ffff * 0x7fff_ffff) by (nonlinear_arith)
        requires
            0 <= width <= 0x7fff_ffff,
            0 <= height <= 0x7fff_ffff,
    ;
    (len as u64) >= (width as u64) * (height as u64)
}

/// On a whole canvas every fill stays within the buffer.
pub proof fn lemma_whole_canvas_fits_fills(len: int, w: int, h: int, pos: Point, size: Size)
    requires
        holds_canvas(len, w, h),
    ensures
        rect_fits(len, w, h, pos, size),
{
    let x1 = min_int(pos.x + size.width, w);
    let y1 = min_int(pos.y + size.height, h);
    if max_int(pos.x as int, 0) < x1 && max_int(pos.y as int, 0) < y1 {
        assert((y1 - 1) * w + (x1 - 1) < w * h) by (nonlinear_arith)
            requires
                0 < y1 <= h,
                0 < x1 <= w,
        ;
    }
}

/// On a whole canvas every glyph stays within the buffer.
pub proof fn lemma_whole_canvas_fits_glyphs(len: int, g: &Glyph, x: i32, baseline_y: i32, w: int, h: int)
    requires
        holds_canvas(len, w, h),
    ensures
        glyph_fits(len, g, x, baseline_y, w, h),
{
    assert forall|row: int, col: int|
        0 <= row < g.height && 0 <= col < g.width && #[trigger] g.bitmap@[row * g.width + col] != 0 && 0
            <= glyph_left(g, x) + col < w && 0 <= glyph_top(g, baseline_y) + row < h implies (glyph_top(
        g,
        baseline_y,
    ) + row) * w + glyph_left(g, x) + col < len by {
        let fy = glyph_top(g, baseline_y) + row;
        let fx = glyph_left(g, x) + col;
        assert(fy * w + fx < w * h) by (nonlinear_arith)
            requires
                0 <= fy < h,
                0 <= fx < w,
        ;
    }
}

} // verus!
