//! Pixel-buffer drawing: alpha blending of 0xRRGGBB pixels and the
//! integer part of filling, stroking and image drawing.
use vstd::prelude::*;

verus! {

/// Red, green and blue channels of a 0x??RRGGBB pixel.
pub open spec fn red(p: u32) -> int {
    (p as int / 65536) % 256
}

pub open spec fn green(p: u32) -> int {
    (p as int / 256) % 256
}

pub open spec fn blue(p: u32) -> int {
    p as int % 256
}

/// The pixel with the given channels (each below 256), top byte zero.
pub open spec fn rgb(r: int, g: int, b: int) -> int {
    r * 65536 + g * 256 + b
}

/// `fg` over `bg` with coverage `a` out of 255, rounded down.
pub open spec fn mix(fg: int, bg: int, a: int) -> int {
    (fg * a + bg * (255 - a)) / 255
}

/// A span pixel after drawing `pixel` with opacity `alpha` over `bg`:
/// fully opaque copies `pixel`, otherwise each channel is mixed.
pub open spec fn span_blend(bg: u32, pixel: u32, alpha: u8) -> u32 {
    if alpha == 255 {
        pixel
    } else {
        rgb(
            mix(red(pixel), red(bg), alpha as int),
            mix(green(pixel), green(bg), alpha as int),
            mix(blue(pixel), blue(bg), alpha as int),
        ) as u32
    }
}

/// As [`span_blend`], but a fully transparent draw leaves `bg` as it is.
pub open spec fn pixel_blend(bg: u32, pixel: u32, alpha: u8) -> u32 {
    if alpha == 0 { bg } else { span_blend(bg, pixel, alpha) }
}

proof fn lemma_channels(p: u32)
    ensures
        (p >> 16) & 0xFF == red(p),
        (p >> 8) & 0xFF == green(p),
        p & 0xFF == blue(p),
{
    assert((p >> 16) & 0xFF == (p / 65536) % 256) by (bit_vector);
    assert((p >> 8) & 0xFF == (p / 256) % 256) by (bit_vector);
    assert(p & 0xFF == p % 256) by (bit_vector);
}

/// Blending a channel at opacity `a` gives a value between the two
/// channels: the foreground at full opacity, the background at none.
pub proof fn lemma_mix_between(fg: int, bg: int, a: int)
    requires
        0 <= fg < 256,
        0 <= bg < 256,
        0 <= a <= 255,
    ensures
        (if fg <= bg { fg } else { bg }) <= mix(fg, bg, a) <= (if fg <= bg { bg } else { fg }),
        a == 255 ==> mix(fg, bg, a) == fg,
        a == 0 ==> mix(fg, bg, a) == bg,
{
    let lo = if fg <= bg { fg } else { bg };
    let hi = if fg <= bg { bg } else { fg };
    assert(lo * 255 <= fg * a + bg * (255 - a) <= hi * 255) by (nonlinear_arith)
        requires 0 <= a <= 255, lo <= fg <= hi, lo <= bg <= hi;
    assert(fg * a + bg * (255 - a) >= 0) by (nonlinear_arith)
        requires 0 <= a <= 255, 0 <= fg, 0 <= bg;
    vstd::arithmetic::div_mod::lemma_div_is_ordered(lo * 255, fg * a + bg * (255 - a), 255);
    vstd::arithmetic::div_mod::lemma_div_is_ordered(fg * a + bg * (255 - a), hi * 255, 255);
    vstd::arithmetic::div_mod::lemma_div_by_multiple(lo, 255);
    vstd::arithmetic::div_mod::lemma_div_by_multiple(hi, 255);
    if a == 255 {
        assert(fg * a + bg * (255 - a) == fg * 255) by (nonlinear_arith)
            requires a == 255;
        vstd::arithmetic::div_mod::lemma_div_by_multiple(fg, 255);
    }
    if a == 0 {
        assert(fg * a + bg * (255 - a) == bg * 255) by (nonlinear_arith)
            requires a == 0;
        vstd::arithmetic::div_mod::lemma_div_by_multiple(bg, 255);
    }
}

/// Drawing a pixel at no opacity leaves the background, at full opacity
/// puts the pixel.
pub proof fn lemma_blend_extremes(bg: u32, pixel: u32)
    ensures
        pixel_blend(bg, pixel, 0) == bg,
        pixel_blend(bg, pixel, 255) == pixel,
{
}

proof fn lemma_pack(r: u32, g: u32, b: u32)
    requires
        r < 256,
        g < 256,
        b < 256,
    ensures
        (r << 16) | (g << 8) | b == rgb(r as int, g as int, b as int),
        rgb(r as int, g as int, b as int) < 0x100_0000,
{
    assert((r << 16) | (g << 8) | b == r * 65536 + g * 256 + b) by (bit_vector)
        requires r < 256, g < 256, b < 256;
}

proof fn lemma_mix_bound(fg: int, bg: int, a: int)
    requires
        0 <= fg < 256,
        0 <= bg < 256,
        0 <= a <= 255,
    ensures
        0 <= mix(fg, bg, a) < 256,
{
    assert(0 <= fg * a + bg * (255 - a) <= 255 * 255) by (nonlinear_arith)
        requires 0 <= fg < 256, 0 <= bg < 256, 0 <= a <= 255;
}

/// Mixes `pixel` into `bg` channel by channel with opacity `a` (below 255).
fn mix_pixel(bg: u32, pixel: u32, a: u32) -> (out: u32)
    requires
        a < 255,
    ensures
        out == span_blend(bg, pixel, a as u8),
{
    let inv_a = 255 - a;
    let fg_r = (pixel >> 16) & 0xFF;
    let fg_g = (pixel >> 8) & 0xFF;
    let fg_b = pixel & 0xFF;
    let bg_r = (bg >> 16) & 0xFF;
    let bg_g = (bg >> 8) & 0xFF;
    let bg_b = bg & 0xFF;
    proof {
        lemma_channels(pixel);
        lemma_channels(bg);
        lemma_mix_bound(fg_r as int, bg_r as int, a as int);
        lemma_mix_bound(fg_g as int, bg_g as int, a as int);
        lemma_mix_bound(fg_b as int, bg_b as int, a as int);
        assert(fg_r * a + bg_r * inv_a <= 255 * 255) by (nonlinear_arith)
            requires fg_r < 256, bg_r < 256, a + inv_a == 255;
        assert(fg_g * a + bg_g * inv_a <= 255 * 255) by (nonlinear_arith)
            requires fg_g < 256, bg_g < 256, a + inv_a == 255;
        assert(fg_b * a + bg_b * inv_a <= 255 * 255) by (nonlinear_arith)
            requires fg_b < 256, bg_b < 256, a + inv_a == 255;
    }
    let r = (fg_r * a + bg_r * inv_a) / 255;
    let g = (fg_g * a + bg_g * inv_a) / 255;
    let b = (fg_b * a + bg_b * inv_a) / 255;
    proof {
        lemma_pack(r, g, b);
    }
    (r << 16) | (g << 8) | b
}

/// Draws `pixel` with opacity `alpha` over the pixel at `index`; an index
/// past the buffer is ignored.
pub fn blend_pixel(buffer: &mut [u32], index: usize, pixel: u32, alpha: u8)
    ensures
        final(buffer)@.len() == old(buffer)@.len(),
        forall|i: int|
            0 <= i < old(buffer)@.len() ==> #[trigger] final(buffer)@[i] == (if i == index {
                pixel_blend(old(buffer)@[i], pixel, alpha)
            } else {
                old(buffer)@[i]
            }),
{
    if alpha == 0 || index >= buffer.len() {
        return;
    }
    if alpha == 255 {
        buffer[index] = pixel;
        return;
    }
    let v = mix_pixel(buffer[index], pixel, alpha as u32);
    buffer[index] = v;
}

/// Draws `pixel` with opacity `alpha` over every pixel of `start..end`.
pub fn blend_span(buffer: &mut [u32], start: usize, end: usize, pixel: u32, alpha: u8)
    requires
        start <= end <= old(buffer)@.len(),
    ensures
        final(buffer)@.len() == old(buffer)@.len(),
        forall|i: int|
            0 <= i < old(buffer)@.len() ==> #[trigger] final(buffer)@[i] == (if start <= i < end {
                span_blend(old(buffer)@[i], pixel, alpha)
            } else {
                old(buffer)@[i]
            }),
{
    let ghost before = buffer@;
    let mut i = start;
    while i < end
        invariant
            start <= i <= end <= buffer@.len(),
            buffer@.len() == before.len(),
            forall|j: int|
                0 <= j < before.len() ==> #[trigger] buffer@[j] == (if start <= j < i {
                    span_blend(before[j], pixel, alpha)
                } else {
                    before[j]
                }),
        decreases end - i,
    {
        if alpha == 255 {
            buffer[i] = pixel;
        } else {
            let v = mix_pixel(buffer[i], pixel, alpha as u32);
            buffer[i] = v;
        }
        i = i + 1;
    }
}

/// Pixel bounds `(x0, y0, x1, y1)`: columns `x0..x1` of rows `y0..y1`.
pub type Bounds = (u32, u32, u32, u32);

pub open spec fn min_u32(a: u32, b: u32) -> u32 {
    if a < b { a } else { b }
}

pub open spec fn max_u32(a: u32, b: u32) -> u32 {
    if a > b { a } else { b }
}

/// Bounds limited to the canvas and then to the clip bounds.
pub open spec fn clipped(raw: Bounds, width: u32, height: u32, clip: Option<Bounds>) -> Bounds {
    let b = (min_u32(raw.0, width), min_u32(raw.1, height), min_u32(raw.2, width), min_u32(raw.3, height));
    match clip {
        Some(c) => (max_u32(b.0, c.0), max_u32(b.1, c.1), min_u32(b.2, c.2), min_u32(b.3, c.3)),
        None => b,
    }
}

/// Law: a pixel lies in the clipped bounds exactly when it lies in the raw
/// bounds, on the canvas, and inside the clip rectangle when there is one;
/// in particular the clipped bounds never reach outside the clip.
pub proof fn lemma_clipped_pixels(raw: Bounds, width: u32, height: u32, clip: Option<Bounds>, x: u32, y: u32)
    ensures
        ({
            let b = clipped(raw, width, height, clip);
            (b.0 <= x < b.2 && b.1 <= y < b.3) <==> (
                raw.0 <= x < raw.2 && raw.1 <= y < raw.3 && x < width && y < height
                && (clip matches Some(c) ==> c.0 <= x < c.2 && c.1 <= y < c.3))
        }),
        clip matches Some(c) ==> ({
            let b = clipped(raw, width, height, clip);
            b.0 >= c.0 && b.1 >= c.1 && b.2 <= c.2 && b.3 <= c.3
        }),
        clipped(raw, width, height, clip).2 <= width,
        clipped(raw, width, height, clip).3 <= height,
{
}

/// Limits `raw` bounds (already converted to whole pixels, negative
/// coordinates at 0) to the canvas and the active clip.
pub fn clip_bounds(raw: Bounds, width: u32, height: u32, clip: Option<Bounds>) -> (b: Bounds)
    ensures
        b == clipped(raw, width, height, clip),
{
    let mut x0 = if raw.0 < width { raw.0 } else { width };
    let mut y0 = if raw.1 < height { raw.1 } else { height };
    let mut x1 = if raw.2 < width { raw.2 } else { width };
    let mut y1 = if raw.3 < height { raw.3 } else { height };
    if let Some(c) = clip {
        x0 = if x0 > c.0 { x0 } else { c.0 };
        y0 = if y0 > c.1 { y0 } else { c.1 };
        x1 = if x1 < c.2 { x1 } else { c.2 };
        y1 = if y1 < c.3 { y1 } else { c.3 };
    }
    (x0, y0, x1, y1)
}

/// Whether buffer index `i` of a canvas `width` pixels wide lies in `b`.
pub open spec fn in_bounds(i: int, width: u32, b: Bounds) -> bool {
    let w = width as int;
    width > 0 && b.1 <= i / w && i / w < b.3 && b.0 <= i % w && i % w < b.2
}

/// Rows `y0..y1` of the bounds fit the buffer and the `u32` index arithmetic.
pub open spec fn rows_fit(len: nat, width: u32, b: Bounds) -> bool {
    b.0 < b.2 && b.1 < b.3 ==> (b.3 - 1) * width + b.2 <= len && (b.3 - 1) * width + b.2 <= u32::MAX
}

pub(crate) proof fn lemma_row_index(i: int, y: int, width: int, x0: int, x1: int)
    requires
        width > 0,
        x1 <= width,
        0 <= x0,
        y * width + x0 <= i < y * width + x1,
        y >= 0,
    ensures
        i / width == y,
        x0 <= i % width < x1,
{
    assert(i == width * y + (i - y * width)) by (nonlinear_arith)
        requires y * width + x0 <= i;
    vstd::arithmetic::div_mod::lemma_fundamental_div_mod_converse(i, width, y, i - y * width);
}

proof fn lemma_row_bounds(y: int, y1: int, width: int, x1: int)
    requires
        width > 0,
        0 <= y < y1,
        0 <= x1 <= width,
    ensures
        y * width + x1 <= (y1 - 1) * width + x1,
        y * width <= (y1 - 1) * width,
{
    assert(y * width <= (y1 - 1) * width) by (nonlinear_arith)
        requires y <= y1 - 1, width > 0;
}

/// Fills the pixels of `b` with `pixel` at opacity `alpha` (rows of the
/// canvas are `width` pixels long). The bounds must already be clipped.
pub fn fill_bounds(buffer: &mut [u32], width: u32, b: Bounds, pixel: u32, alpha: u8)
    requires
        b.2 <= width,
        rows_fit(old(buffer)@.len(), width, b),
    ensures
        final(buffer)@.len() == old(buffer)@.len(),
        forall|i: int|
            0 <= i < old(buffer)@.len() ==> #[trigger] final(buffer)@[i] == (if alpha != 0
                && in_bounds(i, width, b) {
                span_blend(old(buffer)@[i], pixel, alpha)
            } else {
                old(buffer)@[i]
            }),
{
    let ghost before = buffer@;
    if alpha == 0 {
        return;
    }
    let (x0, y0, x1, y1) = b;
    if x0 >= x1 || y0 >= y1 {
        assert forall|i: int| 0 <= i < before.len() implies !in_bounds(i, width, b) by {}
        return;
    }
    let mut y = y0;
    while y < y1
        invariant
            y0 <= y <= y1,
            x0 < x1 <= width,
            b == (x0, y0, x1, y1),
            alpha != 0,
            (y1 - 1) * width + x1 <= buffer@.len(),
            (y1 - 1) * width + x1 <= u32::MAX,
            buffer@.len() == before.len(),
            forall|i: int|
                0 <= i < before.len() ==> #[trigger] buffer@[i] == (if in_bounds(i, width, (x0, y0, x1, y)) {
                    span_blend(before[i], pixel, alpha)
                } else {
                    before[i]
                }),
        decreases y1 - y,
    {
        proof {
            lemma_row_bounds(y as int, y1 as int, width as int, x1 as int);
        }
        let row_start = (y * width + x0) as usize;
        let row_end = (y * width + x1) as usize;
        let ghost mid = buffer@;
        blend_span(buffer, row_start, row_end, pixel, alpha);
        assert forall|i: int| 0 <= i < before.len() implies #[trigger] buffer@[i] == (if in_bounds(i, width, (x0, y0, x1, (y + 1) as u32)) {
            span_blend(before[i], pixel, alpha)
        } else {
            before[i]
        }) by {
            assert(buffer@[i] == (if row_start <= i < row_end { span_blend(mid[i], pixel, alpha) } else { mid[i] }));
            if row_start <= i < row_end {
                lemma_row_index(i, y as int, width as int, x0 as int, x1 as int);
                assert(!in_bounds(i, width, (x0, y0, x1, y)));
                assert(mid[i] == before[i]);
            } else {
                let w = width as int;
                if i / w == y && x0 <= i % w && i % w < x1 {
                    vstd::arithmetic::div_mod::lemma_fundamental_div_mod(i, w);
                    assert(i == w * y + i % w);
                    assert(y * w == w * y) by (nonlinear_arith);
                    assert(false);
                }
                assert(in_bounds(i, width, (x0, y0, x1, (y + 1) as u32)) == in_bounds(i, width, (x0, y0, x1, y)));
            }
        }
        y = y + 1;
    }
}

/// Fills `raw` bounds, limited to the canvas and the clip, with `pixel`
/// at opacity `alpha`; nothing is drawn when `alpha` is 0.
pub fn fill_rect(buffer: &mut [u32], width: u32, height: u32, raw: Bounds, clip: Option<Bounds>, pixel: u32, alpha: u8)
    requires
        rows_fit(old(buffer)@.len(), width, clipped(raw, width, height, clip)),
    ensures
        final(buffer)@.len() == old(buffer)@.len(),
        forall|i: int|
            0 <= i < old(buffer)@.len() ==> #[trigger] final(buffer)@[i] == (if alpha != 0
                && in_bounds(i, width, clipped(raw, width, height, clip)) {
                span_blend(old(buffer)@[i], pixel, alpha)
            } else {
                old(buffer)@[i]
            }),
{
    if alpha == 0 {
        return;
    }
    let b = clip_bounds(raw, width, height, clip);
    fill_bounds(buffer, width, b, pixel, alpha);
}


/// Inner corners of a stroke of `t` pixels inside bounds `b`.
pub open spec fn inner_bounds(b: Bounds, t: u32) -> (int, int, int, int) {
    let ix0 = if b.0 + t < b.2 { b.0 + t } else { b.2 as int };
    let iy0 = if b.1 + t < b.3 { b.1 + t } else { b.3 as int };
    let ix1 = if b.2 - t > b.0 { b.2 - t } else { b.0 as int };
    let iy1 = if b.3 - t > b.1 { b.3 - t } else { b.1 as int };
    (ix0, iy0, ix1, iy1)
}

/// Pixel `i` after stroking bounds `b` with thickness `t`: the top and
/// bottom `t` rows are filled whole, the middle rows only their left and
/// right `t` columns (a pixel in both is blended twice); a run that would
/// end past the buffer (length `len`) is skipped.
pub open spec fn stroked(bg: u32, i: int, width: u32, len: nat, b: Bounds, t: u32, pixel: u32, alpha: u8) -> u32 {
    let w = width as int;
    let (ix0, iy0, ix1, iy1) = inner_bounds(b, t);
    if w <= 0 || i / w < b.1 || i / w >= b.3 {
        bg
    } else {
        let y = i / w;
        let x = i % w;
        if y < iy0 || y >= iy1 {
            if b.0 <= x < b.2 && y * w + b.2 <= len { span_blend(bg, pixel, alpha) } else { bg }
        } else {
            let v = if b.0 <= x < ix0 && y * w + ix0 <= len { span_blend(bg, pixel, alpha) } else { bg };
            if ix1 <= x < b.2 && y * w + b.2 <= len { span_blend(v, pixel, alpha) } else { v }
        }
    }
}

/// The index arithmetic of every row of `b` fits `u32`.
pub open spec fn stroke_fits(b: Bounds, width: u32, t: u32) -> bool {
    &&& b.0 + t <= u32::MAX
    &&& b.1 + t <= u32::MAX
    &&& b.1 < b.3 ==> (b.3 - 1) * width + (if b.0 > b.2 { b.0 } else { b.2 }) <= u32::MAX
}

/// A run that starts after it ends would be sliced: it only happens when
/// the clip leaves no columns and the first row is a stroked edge.
pub open spec fn stroke_sliceable(len: nat, width: u32, b: Bounds, t: u32) -> bool {
    !(t > 0 && b.1 < b.3 && b.0 > b.2 && b.1 * width + b.2 <= len)
}

proof fn lemma_mul_mono(a: int, c: int, w: int)
    requires
        0 <= a <= c,
        w >= 0,
    ensures
        a * w <= c * w,
{
    assert(a * w <= c * w) by (nonlinear_arith)
        requires a <= c, w >= 0;
}

/// Whether index `i` is in row `y`, columns `from..to`.
pub open spec fn in_row(i: int, width: u32, y: int, from: int, to: int) -> bool {
    let w = width as int;
    w > 0 && i / w == y && from <= i % w && i % w < to
}

/// Whether index `i` lies in a row before `y`.
pub open spec fn row_before(i: int, width: u32, y: int) -> bool {
    let w = width as int;
    w > 0 && i / w < y
}

/// Blends one run `y*width + from .. y*width + to` of row `y` when it ends
/// within the buffer.
fn stroke_run(buffer: &mut [u32], width: u32, y: u32, from: u32, to: u32, pixel: u32, alpha: u8)
    requires
        from <= to <= width,
        y * width + to <= u32::MAX,
    ensures
        final(buffer)@.len() == old(buffer)@.len(),
        forall|i: int|
            0 <= i < old(buffer)@.len() ==> #[trigger] final(buffer)@[i] == (if in_row(i, width, y as int, from as int, to as int)
                && y * width + to <= old(buffer)@.len() {
                span_blend(old(buffer)@[i], pixel, alpha)
            } else {
                old(buffer)@[i]
            }),
{
    let ghost before = buffer@;
    let start = (y * width + from) as usize;
    let end = (y * width + to) as usize;
    if end <= buffer.len() {
        blend_span(buffer, start, end, pixel, alpha);
        assert forall|i: int| 0 <= i < before.len() implies #[trigger] buffer@[i] == (if in_row(i, width, y as int, from as int, to as int)
            && y * width + to <= before.len() {
            span_blend(before[i], pixel, alpha)
        } else {
            before[i]
        }) by {
            if start <= i < end {
                lemma_row_index(i, y as int, width as int, from as int, to as int);
            } else if width > 0 {
                let w = width as int;
                if i / w == y && from <= i % w && i % w < to {
                    vstd::arithmetic::div_mod::lemma_fundamental_div_mod(i, w);
                    assert(i == w * y + i % w);
                    assert(y * w == w * y) by (nonlinear_arith);
                    assert(false);
                }
            }
        }
    }
}

/// Strokes the outline of bounds `b` (already clipped) with a border
/// `thickness` pixels wide.
pub fn stroke_bounds(buffer: &mut [u32], width: u32, b: Bounds, thickness: u32, pixel: u32, alpha: u8)
    requires
        b.2 <= width,
        stroke_fits(b, width, thickness),
        stroke_sliceable(old(buffer)@.len(), width, b, thickness),
    ensures
        final(buffer)@.len() == old(buffer)@.len(),
        forall|i: int|
            0 <= i < old(buffer)@.len() ==> #[trigger] final(buffer)@[i] == stroked(
                old(buffer)@[i],
                i,
                width,
                old(buffer)@.len(),
                b,
                thickness,
                pixel,
                alpha,
            ),
{
    let ghost before = buffer@;
    let (x0, y0, x1, y1) = b;
    let inner_x0 = if x0 + thickness < x1 { x0 + thickness } else { x1 };
    let inner_y0 = if y0 + thickness < y1 { y0 + thickness } else { y1 };
    let sub_x = if x1 >= thickness { x1 - thickness } else { 0 };
    let inner_x1 = if sub_x > x0 { sub_x } else { x0 };
    let sub_y = if y1 >= thickness { y1 - thickness } else { 0 };
    let inner_y1 = if sub_y > y0 { sub_y } else { y0 };
    assert((inner_x0 as int, inner_y0 as int, inner_x1 as int, inner_y1 as int) == inner_bounds(b, thickness));
    let mut y = y0;
    while y < y1
        invariant
            y0 <= y,
            y0 < y1 ==> y <= y1,
            b == (x0, y0, x1, y1),
            x1 <= width,
            (inner_x0 as int, inner_y0 as int, inner_x1 as int, inner_y1 as int) == inner_bounds(b, thickness),
            stroke_fits(b, width, thickness),
            stroke_sliceable(before.len(), width, b, thickness),
            buffer@.len() == before.len(),
            forall|i: int|
                0 <= i < before.len() ==> #[trigger] buffer@[i] == (if row_before(i, width, y as int) {
                    stroked(before[i], i, width, before.len(), b, thickness, pixel, alpha)
                } else {
                    before[i]
                }),
        decreases y1 - y,
    {
        let ghost mid = buffer@;
        proof {
            if width > 0 {
                lemma_mul_mono(y as int, (y1 - 1) as int, width as int);
            }
        }
        if y < inner_y0 || y >= inner_y1 {
            if x0 <= x1 {
                stroke_run(buffer, width, y, x0, x1, pixel, alpha);
            } else {
                // The clip leaves no columns; the unclipped run is empty or skipped.
                assert(y * width + x1 > before.len() || thickness == 0 || y0 >= y1) by {
                    lemma_mul_mono(y0 as int, y as int, width as int);
                }
            }
        } else {
            if inner_x0 > x0 {
                stroke_run(buffer, width, y, x0, inner_x0, pixel, alpha);
            }
            let ghost mid2 = buffer@;
            if inner_x1 < x1 {
                stroke_run(buffer, width, y, inner_x1, x1, pixel, alpha);
            }
        }
        assert forall|i: int| 0 <= i < before.len() implies #[trigger] buffer@[i] == (if row_before(i, width, y + 1) {
            stroked(before[i], i, width, before.len(), b, thickness, pixel, alpha)
        } else {
            before[i]
        }) by {
            if width > 0 && i / (width as int) == y {
                assert(mid[i] == before[i]);
            }
        }
        y = y + 1;
    }
    assert forall|i: int| 0 <= i < before.len() implies #[trigger] buffer@[i] == stroked(
        before[i],
        i,
        width,
        before.len(),
        b,
        thickness,
        pixel,
        alpha,
    ) by {
        if width > 0 && i / (width as int) >= y {
        }
    }
}

/// Strokes the outline of `raw` bounds, limited to the canvas and the
/// clip; nothing is drawn when `alpha` is 0.
pub fn stroke_rect(
    buffer: &mut [u32],
    width: u32,
    height: u32,
    raw: Bounds,
    clip: Option<Bounds>,
    thickness: u32,
    pixel: u32,
    alpha: u8,
)
    requires
        alpha != 0 ==> stroke_fits(clipped(raw, width, height, clip), width, thickness),
        alpha != 0 ==> stroke_sliceable(old(buffer)@.len(), width, clipped(raw, width, height, clip), thickness),
    ensures
        final(buffer)@.len() == old(buffer)@.len(),
        forall|i: int|
            0 <= i < old(buffer)@.len() ==> #[trigger] final(buffer)@[i] == (if alpha == 0 {
                old(buffer)@[i]
            } else {
                stroked(
                    old(buffer)@[i],
                    i,
                    width,
                    old(buffer)@.len(),
                    clipped(raw, width, height, clip),
                    thickness,
                    pixel,
                    alpha,
                )
            }),
{
    if alpha == 0 {
        return;
    }
    let b = clip_bounds(raw, width, height, clip);
    stroke_bounds(buffer, width, b, thickness, pixel, alpha);
}


/// Offset of source pixel (`sx`, `sy`) in an RGBA image `img_width` wide.
pub open spec fn image_offset(sx: u32, sy: u32, img_width: u32) -> int {
    (sy * img_width + sx) * 4
}

/// Draws the source pixel (`sx`, `sy`) of an RGBA image at canvas pixel
/// (`x`, `y`), blended by its alpha; a sample outside the image or the
/// pixel data, a transparent sample, or a target past the buffer is skipped.
pub fn draw_image_pixel(
    buffer: &mut [u32],
    width: u32,
    x: u32,
    y: u32,
    pixels: &[u8],
    img_width: u32,
    img_height: u32,
    sx: u32,
    sy: u32,
)
    requires
        sx < img_width && sy < img_height ==> image_offset(sx, sy, img_width) <= u32::MAX,
        y * width + x <= u32::MAX,
    ensures
        final(buffer)@.len() == old(buffer)@.len(),
        ({
            let o = image_offset(sx, sy, img_width);
            let idx = y * width + x;
            let skip = sx >= img_width || sy >= img_height || o + 3 >= pixels@.len() || idx >= old(buffer)@.len();
            forall|i: int|
                0 <= i < old(buffer)@.len() ==> #[trigger] final(buffer)@[i] == (if !skip && i == idx {
                    pixel_blend(
                        old(buffer)@[i],
                        rgb(pixels@[o] as int, pixels@[o + 1] as int, pixels@[o + 2] as int) as u32,
                        pixels@[o + 3],
                    )
                } else {
                    old(buffer)@[i]
                })
        }),
{
    if sx >= img_width || sy >= img_height {
        return;
    }
    let src_idx = ((sy * img_width + sx) * 4) as usize;
    if src_idx + 3 >= pixels.len() {
        return;
    }
    let r = pixels[src_idx] as u32;
    let g = pixels[src_idx + 1] as u32;
    let b = pixels[src_idx + 2] as u32;
    let a = pixels[src_idx + 3];
    let idx = (y * width + x) as usize;
    proof {
        lemma_pack(r, g, b);
        assert(red(rgb(r as int, g as int, b as int) as u32) == r && green(rgb(r as int, g as int, b as int) as u32) == g
            && blue(rgb(r as int, g as int, b as int) as u32) == b) by {
            let p = rgb(r as int, g as int, b as int);
            assert(p / 65536 == r as int) by (nonlinear_arith)
                requires p == r * 65536 + g * 256 + b, r < 256, g < 256, b < 256;
            assert(p / 256 == r * 256 + g) by (nonlinear_arith)
                requires p == r * 65536 + g * 256 + b, r < 256, g < 256, b < 256;
            assert((r * 256 + g) % 256 == g as int) by (nonlinear_arith)
                requires r < 256, g < 256;
            assert(p % 256 == b as int) by (nonlinear_arith)
                requires p == r * 65536 + g * 256 + b, r < 256, g < 256, b < 256;
        }
    }
    let pixel = (r << 16) | (g << 8) | b;
    blend_pixel(buffer, idx, pixel, a);
}

} // verus!
