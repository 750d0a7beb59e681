//! Index arithmetic of tightly packed RGBA8 buffers (row-major, top-left
//! origin, four bytes per pixel, no row padding).
use vstd::prelude::*;

verus! {

/// Byte offset of channel `c` of pixel `(x, y)` in a buffer `w` pixels wide.
pub open spec fn rgba_offset(w: int, x: int, y: int, c: int) -> int {
    (y * w + x) * 4 + c
}

/// Channel `c` of pixel `(x, y)` in the buffer `p` of an image `w` pixels wide.
pub open spec fn rgba_at(p: Seq<u8>, w: int, x: int, y: int, c: int) -> u8 {
    p[rgba_offset(w, x, y, c)]
}

/// Every channel of every pixel of a `w`×`h` image lies inside its buffer.
pub proof fn lemma_offset_in_bounds(w: int, h: int, x: int, y: int, c: int)
    requires
        0 <= x < w,
        0 <= y < h,
        0 <= c < 4,
    ensures
        0 <= rgba_offset(w, x, y, c) < w * h * 4,
        rgba_offset(w, x, y, 0) + 4 <= w * h * 4,
{
    assert(0 <= y * w + x < w * h) by (nonlinear_arith)
        requires
            0 <= x < w,
            0 <= y < h,
    {
        assert(y * w + x < y * w + w);
        assert(y * w + w == (y + 1) * w);
        assert((y + 1) * w <= h * w);
    }
}

/// Every byte offset of a `w`×`h` image names one channel of one pixel.
pub proof fn lemma_offset_split(w: int, h: int, i: int)
    requires
        w > 0,
        h > 0,
        0 <= i < w * h * 4,
    ensures
        0 <= (i / 4) % w < w,
        0 <= (i / 4) / w < h,
        0 <= i % 4 < 4,
        i == rgba_offset(w, (i / 4) % w, (i / 4) / w, i % 4),
{
    let k = i / 4;
    assert(i == k * 4 + i % 4 && 0 <= i % 4 < 4 && 0 <= k) by (nonlinear_arith)
        requires
            0 <= i,
            k == i / 4,
    ;
    assert(k < w * h) by (nonlinear_arith)
        requires
            i == k * 4 + i % 4,
            0 <= i % 4 < 4,
            i < w * h * 4,
    ;
    assert(k == (k / w) * w + k % w && 0 <= k % w < w && 0 <= k / w) by (nonlinear_arith)
        requires
            w > 0,
            0 <= k,
    ;
    assert(k / w < h) by (nonlinear_arith)
        requires
            w > 0,
            k == (k / w) * w + k % w,
            0 <= k % w,
            k < w * h,
    ;
}

/// Distinct pixels or channels have distinct offsets.
pub proof fn lemma_offset_injective(w: int, x1: int, y1: int, c1: int, x2: int, y2: int, c2: int)
    requires
        0 <= x1 < w,
        0 <= x2 < w,
        0 <= y1,
        0 <= y2,
        0 <= c1 < 4,
        0 <= c2 < 4,
        rgba_offset(w, x1, y1, c1) == rgba_offset(w, x2, y2, c2),
    ensures
        x1 == x2,
        y1 == y2,
        c1 == c2,
{
    assert(c1 == c2 && y1 * w + x1 == y2 * w + x2) by (nonlinear_arith)
        requires
            0 <= c1 < 4,
            0 <= c2 < 4,
            (y1 * w + x1) * 4 + c1 == (y2 * w + x2) * 4 + c2,
            0 <= x1 < w,
            0 <= x2 < w,
            0 <= y1,
            0 <= y2,
    ;
    assert(y1 == y2 && x1 == x2) by (nonlinear_arith)
        requires
            y1 * w + x1 == y2 * w + x2,
            0 <= x1 < w,
            0 <= x2 < w,
            0 <= y1,
            0 <= y2,
    ;
}

/// Overwrite the four bytes of the pixel at byte offset `dst` of `out` with
/// the four bytes at offset `src` of `from`.
pub fn copy_pixel(out: &mut Vec<u8>, dst: usize, from: &Vec<u8>, src: usize)
    requires
        dst + 4 <= old(out).len(),
        src + 4 <= from.len(),
    ensures
        final(out)@.len() == old(out)@.len(),
        forall|j: int|
            0 <= j < old(out)@.len() ==> #[trigger] final(out)@[j] == if dst <= j < dst + 4 {
                from@[src + (j - dst)]
            } else {
                old(out)@[j]
            },
{
    out.set(dst, from[src]);
    out.set(dst + 1, from[src + 1]);
    out.set(dst + 2, from[src + 2]);
    out.set(dst + 3, from[src + 3]);
}

} // verus!
