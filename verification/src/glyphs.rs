//! Drawing glyph coverage masks into a pixel buffer, and choosing the
//! colour of each glyph of highlighted text.
use vstd::prelude::*;
use std::ops::Range;
use crate::canvas::{blend_pixel, lemma_row_index, pixel_blend};

verus! {

/// A clip region in whole pixels: columns `x0..x1` of rows `y0..y1`.
pub type Clip = (i32, i32, i32, i32);

/// Index into the coverage mask of the glyph pixel drawn on buffer pixel
/// `i`, when one is: the pixel lies in the clip and under the glyph placed
/// with its top-left corner at (`left`, `top`), `gw` by `gh` pixels, and
/// (`rows`, `cols`) limit it to the mask rows before `rows` and the first
/// `cols` pixels of row `rows`.
pub open spec fn glyph_cell_upto(i: int, width: int, clip: Clip, left: int, top: int, gw: int, gh: int, rows: int, cols: int) -> Option<int> {
    let px = i % width;
    let py = i / width;
    if clip.0 <= px < clip.2 && clip.1 <= py < clip.3 && left <= px < left + gw && top <= py < top + gh
        && (py - top < rows || (py - top == rows && px - left < cols)) {
        Some((py - top) * gw + (px - left))
    } else {
        None
    }
}

/// Buffer pixel `i` after drawing the glyph in `pixel` with the coverage of
/// `mask` (row-major, `gw` per row) as opacity.
pub open spec fn glyph_drawn(old: Seq<u32>, i: int, width: int, clip: Clip, left: int, top: int, gw: int, gh: int, mask: Seq<u8>, pixel: u32) -> u32 {
    match glyph_cell_upto(i, width, clip, left, top, gw, gh, gh, 0) {
        Some(m) => pixel_blend(old[i], pixel, mask[m]),
        None => old[i],
    }
}

/// The drawing stays within the arithmetic of the pixel indices.
pub open spec fn glyph_fits(width: u32, clip: Clip, gw: i32, gh: i32, mask_len: nat) -> bool {
    &&& width > 0
    &&& 0 <= clip.0 && 0 <= clip.1
    &&& clip.2 <= width
    &&& 0 <= gw && 0 <= gh
    &&& gw * gh <= mask_len
    &&& gw * gh <= i32::MAX
    &&& clip.1 < clip.3 && clip.0 < clip.2 ==> (clip.3 - 1) * width + clip.2 - 1 <= u32::MAX
}

proof fn lemma_cell_index(gy: int, gx: int, gw: int, gh: int)
    requires
        0 <= gy < gh,
        0 <= gx < gw,
    ensures
        0 <= gy * gw + gx < gw * gh,
{
    assert(gy * gw + gx < gw * gh) by (nonlinear_arith)
        requires 0 <= gy < gh, 0 <= gx < gw;
    assert(gy * gw >= 0) by (nonlinear_arith)
        requires 0 <= gy, 0 <= gw;
}

/// Draws a glyph coverage mask `gw` by `gh` pixels, top-left corner at
/// (`left`, `top`), in colour `pixel`: each mask byte is the opacity of the
/// pixel it covers, within the clip and the buffer.
pub fn blend_glyph(buffer: &mut [u32], width: u32, clip: Clip, left: i32, top: i32, gw: i32, gh: i32, mask: &[u8], pixel: u32)
    requires
        glyph_fits(width, clip, gw, gh, mask@.len()),
    ensures
        final(buffer)@.len() == old(buffer)@.len(),
        forall|i: int| 0 <= i < old(buffer)@.len() ==> #[trigger] final(buffer)@[i] == glyph_drawn(
            old(buffer)@, i, width as int, clip, left as int, top as int, gw as int, gh as int, mask@, pixel,
        ),
{
    let ghost before = buffer@;
    let ghost w = width as int;
    let mut gy: i32 = 0;
    while gy < gh
        invariant
            glyph_fits(width, clip, gw, gh, mask@.len()),
            w == width as int,
            0 <= gy <= gh,
            buffer@.len() == before.len(),
            forall|i: int| 0 <= i < before.len() ==> #[trigger] buffer@[i] == match glyph_cell_upto(
                i, w, clip, left as int, top as int, gw as int, gh as int, gy as int, 0,
            ) {
                Some(m) => pixel_blend(before[i], pixel, mask@[m]),
                None => before[i],
            },
        decreases gh - gy,
    {
        let py: i64 = top as i64 + gy as i64;
        let row_in = py >= clip.1 as i64 && py < clip.3 as i64;
        let mut gx: i32 = 0;
        while gx < gw
            invariant
                glyph_fits(width, clip, gw, gh, mask@.len()),
                w == width as int,
                0 <= gy < gh,
                0 <= gx <= gw,
                py == top + gy,
                row_in == (clip.1 <= py < clip.3),
                buffer@.len() == before.len(),
                forall|i: int| 0 <= i < before.len() ==> #[trigger] buffer@[i] == match glyph_cell_upto(
                    i, w, clip, left as int, top as int, gw as int, gh as int, gy as int, gx as int,
                ) {
                    Some(m) => pixel_blend(before[i], pixel, mask@[m]),
                    None => before[i],
                },
            decreases gw - gx,
        {
            let px: i64 = left as i64 + gx as i64;
            let ghost prev = buffer@;
            if row_in && px >= clip.0 as i64 && px < clip.2 as i64 {
                proof {
                    lemma_cell_index(gy as int, gx as int, gw as int, gh as int);
                    assert(py * w + px <= (clip.3 - 1) * w + clip.2 - 1) by (nonlinear_arith)
                        requires py < clip.3, px < clip.2, w > 0, 0 <= py;
                    assert(py * w >= 0) by (nonlinear_arith)
                        requires py >= 0, w > 0;
                }
                let alpha = mask[(gy * gw + gx) as usize];
                let idx: u32 = (py as u32) * width + (px as u32);
                if (idx as usize) < buffer.len() {
                    blend_pixel(buffer, idx as usize, pixel, alpha);
                }
                proof {
                    let i0 = idx as int;
                    lemma_row_index(i0, py as int, w, px as int, px + 1);
                    assert forall|i: int| 0 <= i < before.len() implies #[trigger] buffer@[i] == match glyph_cell_upto(
                        i, w, clip, left as int, top as int, gw as int, gh as int, gy as int, gx + 1,
                    ) {
                        Some(m) => pixel_blend(before[i], pixel, mask@[m]),
                        None => before[i],
                    } by {
                        if i != i0 {
                            vstd::arithmetic::div_mod::lemma_fundamental_div_mod(i, w);
                            if i % w == px && i / w == py {
                                assert(i == w * py + px);
                                assert(false);
                            }
                        }
                    }
                }
            } else {
                proof {
                    assert forall|i: int| 0 <= i < before.len() implies #[trigger] buffer@[i] == match glyph_cell_upto(
                        i, w, clip, left as int, top as int, gw as int, gh as int, gy as int, gx + 1,
                    ) {
                        Some(m) => pixel_blend(before[i], pixel, mask@[m]),
                        None => before[i],
                    } by {
                        assert(buffer@[i] == prev[i]);
                    }
                }
            }
            gx = gx + 1;
        }
        proof {
            assert forall|i: int| 0 <= i < before.len() implies #[trigger] buffer@[i] == match glyph_cell_upto(
                i, w, clip, left as int, top as int, gw as int, gh as int, gy + 1, 0,
            ) {
                Some(m) => pixel_blend(before[i], pixel, mask@[m]),
                None => before[i],
            } by {
                assert(glyph_cell_upto(i, w, clip, left as int, top as int, gw as int, gh as int, gy + 1, 0)
                    == glyph_cell_upto(i, w, clip, left as int, top as int, gw as int, gh as int, gy as int, gw as int));
            }
        }
        gy = gy + 1;
    }
}

/// Starts of `ranges` never decrease.
pub open spec fn starts_sorted(ranges: Seq<(Range<usize>, u32)>) -> bool {
    forall|i: int, j: int| 0 <= i <= j < ranges.len() ==> ranges[i].0.start <= ranges[j].0.start
}

/// The first range from `i` on that starts after byte `offset` (the number
/// of ranges when there is none).
pub open spec fn first_after(ranges: Seq<(Range<usize>, u32)>, offset: usize, i: int) -> int
    decreases ranges.len() - i,
{
    if i >= ranges.len() || i < 0 {
        ranges.len() as int
    } else if ranges[i].0.start > offset {
        i
    } else {
        first_after(ranges, offset, i + 1)
    }
}

/// The colour of the glyph at byte `offset`: that of the last range
/// starting at or before it, when the range contains it; `default`
/// otherwise.
pub open spec fn glyph_pixel_spec(ranges: Seq<(Range<usize>, u32)>, offset: usize, default: u32) -> u32 {
    let k = first_after(ranges, offset, 0);
    if k > 0 && ranges[k - 1].0.start <= offset && offset < ranges[k - 1].0.end {
        ranges[k - 1].1
    } else {
        default
    }
}

proof fn lemma_first_after(ranges: Seq<(Range<usize>, u32)>, offset: usize, i: int, k: int)
    requires
        0 <= i <= k <= ranges.len(),
        forall|j: int| 0 <= j < k ==> ranges[j].0.start <= offset,
        k < ranges.len() ==> ranges[k].0.start > offset,
    ensures
        first_after(ranges, offset, i) == k,
    decreases k - i,
{
    if i < k {
        lemma_first_after(ranges, offset, i + 1, k);
    }
}

/// The colour of the glyph starting at byte `offset` of highlighted text,
/// found by binary search over `ranges`. For ranges sorted by start it is
/// `glyph_pixel_spec`; for others, as for `partition_point`, which range is
/// consulted is left open, but the colour is still either `default` or that
/// of a range holding `offset`.
pub fn glyph_pixel(ranges: &[(Range<usize>, u32)], offset: usize, default: u32) -> (p: u32)
    ensures
        starts_sorted(ranges@) ==> p == glyph_pixel_spec(ranges@, offset, default),
        p == default || exists|k: int| 0 <= k < ranges@.len() && ranges@[k].0.start <= offset
            && offset < ranges@[k].0.end && p == ranges@[k].1,
{
    let mut lo: usize = 0;
    let mut hi: usize = ranges.len();
    while lo < hi
        invariant
            0 <= lo <= hi <= ranges@.len(),
            starts_sorted(ranges@) ==> forall|j: int| 0 <= j < lo ==> ranges@[j].0.start <= offset,
            starts_sorted(ranges@) ==> forall|j: int| hi <= j < ranges@.len() ==> ranges@[j].0.start > offset,
        decreases hi - lo,
    {
        let mid = lo + (hi - lo) / 2;
        if ranges[mid].0.start <= offset {
            lo = mid + 1;
        } else {
            hi = mid;
        }
    }
    proof {
        if starts_sorted(ranges@) {
            if (lo as int) < ranges@.len() {
                assert(ranges@[lo as int].0.start > offset);
            }
            lemma_first_after(ranges@, offset, 0, lo as int);
        }
    }
    if lo > 0 && ranges[lo - 1].0.start <= offset && offset < ranges[lo - 1].0.end {
        ranges[lo - 1].1
    } else {
        default
    }
}

} // verus!
