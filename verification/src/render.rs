//! The discrete stages of a full-image render.
//!
//! A render evaluates every pixel of the image independently: it enumerates
//! every `(row, column)` coordinate pair, computes a color for each pair (a
//! job the camera and the scene do, and which may run on any number of
//! threads in any order), and then writes every computed color into the
//! pixel buffer in one sequential pass.  The enumeration and the write-back
//! are here; their contracts pin the exact pixel each result lands on, so the
//! output image does not depend on the order in which colors were computed.

use vstd::arithmetic::div_mod::lemma_fundamental_div_mod_converse;
use vstd::arithmetic::mul::lemma_mul_inequality;
use vstd::arithmetic::mul::lemma_mul_is_commutative;
use vstd::arithmetic::mul::lemma_mul_is_distributive_add_other_way;
use vstd::prelude::*;

use crate::canvas::Canvas;

verus! {

/// Every pixel coordinate of a `width` x `height` image, row by row: entry
/// `k` is the pair `(k / width, k % width)`, so each `(row, column)` pair
/// with `row < height` and `column < width` occurs exactly once.
pub fn pixel_coordinates(width: usize, height: usize) -> (points: Vec<(usize, usize)>)
    requires
        width * height <= usize::MAX,
    ensures
        points@.len() == width * height,
        forall|k: int|
            0 <= k < points@.len() ==> (#[trigger] points@[k]).0 == k / (width as int)
                && points@[k].1 == k % (width as int),
{
    let mut points: Vec<(usize, usize)> = Vec::new();
    let mut row: usize = 0;
    proof {
        lemma_mul_is_commutative(width as int, height as int);
    }
    while row < height
        invariant
            row <= height,
            width * height <= usize::MAX,
            points@.len() == row * width,
            row * width <= width * height,
            forall|k: int|
                0 <= k < points@.len() ==> (#[trigger] points@[k]).0 == k / (width as int)
                    && points@[k].1 == k % (width as int),
        decreases height - row,
    {
        let mut col: usize = 0;
        proof {
            lemma_mul_inequality(row as int + 1, height as int, width as int);
            lemma_mul_is_distributive_add_other_way(width as int, row as int, 1);
        }
        while col < width
            invariant
                col <= width,
                row < height,
                width * height <= usize::MAX,
                points@.len() == row * width + col,
                row * width + width <= width * height,
                forall|k: int|
                    0 <= k < points@.len() ==> (#[trigger] points@[k]).0 == k / (width as int)
                        && points@[k].1 == k % (width as int),
            decreases width - col,
        {
            points.push((row, col));
            proof {
                lemma_fundamental_div_mod_converse(
                    row * width + col,
                    width as int,
                    row as int,
                    col as int,
                );
            }
            col = col + 1;
        }
        row = row + 1;
    }
    proof {
        lemma_mul_is_commutative(height as int, width as int);
    }
    points
}

/// The pixel grid after the computed colors `results` have been written into
/// `pixels` in order: each `(row, column, color)` entry replaces the pixel at
/// row-major position `row * width + column`.
pub open spec fn apply_writes<T>(pixels: Seq<T>, width: int, results: Seq<(usize, usize, T)>) -> Seq<
    T,
>
    decreases results.len(),
{
    if results.len() == 0 {
        pixels
    } else {
        apply_writes(pixels, width, results.drop_last()).update(
            results.last().0 * width + results.last().1,
            results.last().2,
        )
    }
}

/// Write-back stage of a render: commit every computed `(row, column, color)`
/// result into the pixel buffer, one sequential pass in list order.
pub fn write_results<T: Copy>(canvas: &mut Canvas<T>, results: &Vec<(usize, usize, T)>)
    requires
        old(canvas).wf(),
        forall|k: int|
            0 <= k < results@.len() ==> (#[trigger] results@[k]).0 < old(canvas).spec_height()
                && results@[k].1 < old(canvas).spec_width(),
    ensures
        final(canvas).wf(),
        final(canvas).spec_width() == old(canvas).spec_width(),
        final(canvas).spec_height() == old(canvas).spec_height(),
        final(canvas).pixels_view() == apply_writes(
            old(canvas).pixels_view(),
            old(canvas).spec_width(),
            results@,
        ),
{
    let mut k: usize = 0;
    proof {
        assert(results@.subrange(0, 0) =~= Seq::<(usize, usize, T)>::empty());
    }
    while k < results.len()
        invariant
            k <= results.len(),
            canvas.wf(),
            canvas.spec_width() == old(canvas).spec_width(),
            canvas.spec_height() == old(canvas).spec_height(),
            forall|i: int|
                0 <= i < results@.len() ==> (#[trigger] results@[i]).0 < old(canvas).spec_height()
                    && results@[i].1 < old(canvas).spec_width(),
            canvas.pixels_view() == apply_writes(
                old(canvas).pixels_view(),
                old(canvas).spec_width(),
                results@.subrange(0, k as int),
            ),
        decreases results.len() - k,
    {
        let (row, col, color) = results[k];
        canvas.write_pixel(col, row, color);
        proof {
            assert(results@.subrange(0, k + 1).drop_last() =~= results@.subrange(0, k as int));
            assert(results@.subrange(0, k + 1).last() == results@[k as int]);
        }
        k = k + 1;
    }
    proof {
        assert(results@.subrange(0, results@.len() as int) =~= results@);
    }
}

} // verus!
