//! The integer core of the frame-quality score: pixel sums over the face
//! region of a row-major grayscale image.
//!
//! The score itself combines these sums into means and deviations with
//! floating-point arithmetic, which lives with the caller; what is proved
//! here is that the sums are exactly the mathematical sums over the region,
//! with no overflow for any image within the configured size bounds.

use vstd::prelude::*;

verus! {

/// Sum of one row segment: pixels `base + x1 .. base + x2`.
pub open spec fn row_luma_sum(g: Seq<u8>, base: int, x1: int, x2: int) -> int
    decreases x2 - x1,
{
    if x1 >= x2 {
        0
    } else {
        g[base + x1] + row_luma_sum(g, base, x1 + 1, x2)
    }
}

/// Sum of squares of one row segment.
pub open spec fn row_luma_sq_sum(g: Seq<u8>, base: int, x1: int, x2: int) -> int
    decreases x2 - x1,
{
    if x1 >= x2 {
        0
    } else {
        g[base + x1] * g[base + x1] + row_luma_sq_sum(g, base, x1 + 1, x2)
    }
}

/// Sum over the region `[x1, x2) x [y1, y2)` of a row-major image of width
/// `w`.
pub open spec fn region_luma_sum(g: Seq<u8>, w: int, x1: int, x2: int, y1: int, y2: int) -> int
    decreases y2 - y1,
{
    if y1 >= y2 {
        0
    } else {
        row_luma_sum(g, y1 * w, x1, x2) + region_luma_sum(g, w, x1, x2, y1 + 1, y2)
    }
}

/// Sum of squares over the region.
pub open spec fn region_luma_sq_sum(g: Seq<u8>, w: int, x1: int, x2: int, y1: int, y2: int) -> int
    decreases y2 - y1,
{
    if y1 >= y2 {
        0
    } else {
        row_luma_sq_sum(g, y1 * w, x1, x2) + region_luma_sq_sum(g, w, x1, x2, y1 + 1, y2)
    }
}

proof fn lemma_row_snoc(g: Seq<u8>, base: int, x1: int, x: int)
    requires
        x1 <= x,
    ensures
        row_luma_sum(g, base, x1, x + 1) == row_luma_sum(g, base, x1, x) + g[base + x],
        row_luma_sq_sum(g, base, x1, x + 1) == row_luma_sq_sum(g, base, x1, x) + g[base + x] * g[
            base + x
        ],
    decreases x - x1,
{
    if x1 < x {
        lemma_row_snoc(g, base, x1 + 1, x);
    } else {
        assert(row_luma_sum(g, base, x + 1, x + 1) == 0);
        assert(row_luma_sq_sum(g, base, x + 1, x + 1) == 0);
        assert(row_luma_sum(g, base, x1, x) == 0);
        assert(row_luma_sq_sum(g, base, x1, x) == 0);
    }
}

proof fn lemma_region_snoc(g: Seq<u8>, w: int, x1: int, x2: int, y1: int, y: int)
    requires
        y1 <= y,
    ensures
        region_luma_sum(g, w, x1, x2, y1, y + 1) == region_luma_sum(g, w, x1, x2, y1, y)
            + row_luma_sum(g, y * w, x1, x2),
        region_luma_sq_sum(g, w, x1, x2, y1, y + 1) == region_luma_sq_sum(g, w, x1, x2, y1, y)
            + row_luma_sq_sum(g, y * w, x1, x2),
    decreases y - y1,
{
    if y1 < y {
        lemma_region_snoc(g, w, x1, x2, y1 + 1, y);
    } else {
        assert(region_luma_sum(g, w, x1, x2, y + 1, y + 1) == 0);
        assert(region_luma_sq_sum(g, w, x1, x2, y + 1, y + 1) == 0);
        assert(region_luma_sum(g, w, x1, x2, y1, y) == 0);
        assert(region_luma_sq_sum(g, w, x1, x2, y1, y) == 0);
    }
}

proof fn lemma_row_bounds(g: Seq<u8>, base: int, x1: int, x2: int)
    ensures
        0 <= row_luma_sum(g, base, x1, x2),
        row_luma_sum(g, base, x1, x2) <= 255 * (if x2 >= x1 {
            x2 - x1
        } else {
            0int
        }),
        0 <= row_luma_sq_sum(g, base, x1, x2),
        row_luma_sq_sum(g, base, x1, x2) <= 65025 * (if x2 >= x1 {
            x2 - x1
        } else {
            0int
        }),
    decreases x2 - x1,
{
    if x1 < x2 {
        lemma_row_bounds(g, base, x1 + 1, x2);
        assert(g[base + x1] * g[base + x1] <= 65025) by (nonlinear_arith)
            requires
                0 <= g[base + x1] <= 255,
        ;
    }
}

proof fn lemma_region_bounds(g: Seq<u8>, w: int, x1: int, x2: int, y1: int, y2: int)
    requires
        x1 <= x2,
    ensures
        0 <= region_luma_sum(g, w, x1, x2, y1, y2),
        region_luma_sum(g, w, x1, x2, y1, y2) <= 255 * (x2 - x1) * (if y2 >= y1 {
            y2 - y1
        } else {
            0int
        }),
        0 <= region_luma_sq_sum(g, w, x1, x2, y1, y2),
        region_luma_sq_sum(g, w, x1, x2, y1, y2) <= 65025 * (x2 - x1) * (if y2 >= y1 {
            y2 - y1
        } else {
            0int
        }),
    decreases y2 - y1,
{
    if y1 < y2 {
        lemma_region_bounds(g, w, x1, x2, y1 + 1, y2);
        lemma_row_bounds(g, y1 * w, x1, x2);
        assert(255 * (x2 - x1) + 255 * (x2 - x1) * (y2 - y1 - 1) == 255 * (x2 - x1) * (y2 - y1))
            by (nonlinear_arith);
        assert(65025 * (x2 - x1) + 65025 * (x2 - x1) * (y2 - y1 - 1) == 65025 * (x2 - x1) * (y2
            - y1)) by (nonlinear_arith);
    }
}

/// Pixel sum, sum of squares, and pixel count over the face region of a
/// grayscale frame. The caller derives brightness (from the mean) and
/// contrast (from the variance) from these.
pub fn luma_region_stats(
    gray: &Vec<u8>,
    width: usize,
    height: usize,
    x1: usize,
    y1: usize,
    x2: usize,
    y2: usize,
) -> (r: (u64, u64, u64))
    requires
        gray@.len() == width * height,
        x1 <= x2 <= width,
        y1 <= y2 <= height,
        width <= 4096,
        height <= 4096,
    ensures
        r.0 == region_luma_sum(gray@, width as int, x1 as int, x2 as int, y1 as int, y2 as int),
        r.1 == region_luma_sq_sum(gray@, width as int, x1 as int, x2 as int, y1 as int, y2 as int),
        r.2 == (x2 - x1) * (y2 - y1),
{
    let ghost g = gray@;
    let ghost w = width as int;
    proof {
        lemma_region_bounds(g, w, x1 as int, x2 as int, y1 as int, y2 as int);
        assert(255 * (x2 - x1) * (y2 - y1) <= 255 * 4096 * 4096) by (nonlinear_arith)
            requires
                0 <= x2 - x1 <= 4096 && 0 <= y2 - y1 <= 4096,
        ;
        assert(65025 * (x2 - x1) * (y2 - y1) <= 65025 * 4096 * 4096) by (nonlinear_arith)
            requires
                0 <= x2 - x1 <= 4096 && 0 <= y2 - y1 <= 4096,
        ;
        assert((x2 - x1) * (y2 - y1) <= 4096 * 4096) by (nonlinear_arith)
            requires
                0 <= x2 - x1 <= 4096 && 0 <= y2 - y1 <= 4096,
        ;
    }
    let mut sum: u64 = 0;
    let mut sum_sq: u64 = 0;
    let mut y: usize = y1;
    while y < y2
        invariant
            y1 <= y <= y2,
            x1 <= x2 <= width,
            y2 <= height,
            width <= 4096,
            height <= 4096,
            g == gray@,
            w == width as int,
            g.len() == width * height,
            sum == region_luma_sum(g, w, x1 as int, x2 as int, y1 as int, y as int),
            sum_sq == region_luma_sq_sum(g, w, x1 as int, x2 as int, y1 as int, y as int),
        decreases y2 - y,
    {
        proof {
            lemma_region_bounds(g, w, x1 as int, x2 as int, y1 as int, y as int);
            lemma_row_bounds(g, y * w, x1 as int, x2 as int);
            assert(y * w + x2 <= width * height) by (nonlinear_arith)
                requires
                    0 <= y && (y as int) < height as int && 0 <= x2 <= width && w == width as int
                        && 0 <= w,
            ;
            assert(y * width <= 4096 * 4096) by (nonlinear_arith)
                requires
                    0 <= y && (y as int) < height as int && height <= 4096 && width <= 4096,
            ;
            assert(255 * (x2 - x1) * (y - y1) <= 255 * 4096 * 4096) by (nonlinear_arith)
                requires
                    0 <= x2 - x1 <= 4096 && 0 <= y - y1 <= 4096,
            ;
            assert(65025 * (x2 - x1) * (y - y1) <= 65025 * 4096 * 4096) by (nonlinear_arith)
                requires
                    0 <= x2 - x1 <= 4096 && 0 <= y - y1 <= 4096,
            ;
        }
        let base: usize = y * width;
        let ghost row_start_sum = sum;
        let ghost row_start_sq = sum_sq;
        let mut x: usize = x1;
        while x < x2
            invariant
                x1 <= x <= x2,
                x2 <= width,
                y1 <= y < y2,
                y2 <= height,
                width <= 4096,
                height <= 4096,
                g == gray@,
                w == width as int,
                g.len() == width * height,
                base == y * width,
                base <= 0x1000000,
                base + x2 <= g.len(),
                row_start_sum == region_luma_sum(g, w, x1 as int, x2 as int, y1 as int, y as int),
                row_start_sq == region_luma_sq_sum(
                    g,
                    w,
                    x1 as int,
                    x2 as int,
                    y1 as int,
                    y as int,
                ),
                row_start_sum <= 255 * 4096 * 4096,
                row_start_sq <= 65025 * 4096 * 4096,
                sum == row_start_sum + row_luma_sum(g, base as int, x1 as int, x as int),
                sum_sq == row_start_sq + row_luma_sq_sum(g, base as int, x1 as int, x as int),
            decreases x2 - x,
        {
            proof {
                lemma_row_bounds(g, base as int, x1 as int, x as int);
                lemma_row_snoc(g, base as int, x1 as int, x as int);
                assert(g[base + x] * g[base + x] <= 65025) by (nonlinear_arith)
                    requires
                        0 <= g[base + x] <= 255,
                ;
            }
            let p = gray[base + x];
            sum = sum + p as u64;
            sum_sq = sum_sq + (p as u64) * (p as u64);
            x = x + 1;
        }
        proof {
            lemma_region_snoc(g, w, x1 as int, x2 as int, y1 as int, y as int);
        }
        y = y + 1;
    }
    let count: u64 = ((x2 - x1) as u64) * ((y2 - y1) as u64);
    (sum, sum_sq, count)
}

} // verus!
