//! Conversion between straight-alpha RGBA8 pixels and the memory layout of
//! a Cairo `ARgb32` image surface: premultiplied alpha, BGRA byte order on
//! little-endian machines, rows `stride` bytes apart.
use vstd::prelude::*;

verus! {

/// Channel value `c` premultiplied by alpha `a` (rounded down).
pub open spec fn premultiplied(c: u8, a: u8) -> u8 {
    ((c as int * a as int) / 255) as u8
}

/// Byte `j` of the surface data for a `w`-pixel-wide RGBA8 image `src`
/// whose rows are `stride` bytes apart: blue, green and red premultiplied,
/// then alpha, for each pixel; zero in the padding after each row.
pub open spec fn argb32_byte(src: Seq<u8>, w: int, stride: int, j: int) -> u8 {
    let y = j / stride;
    let r = j % stride;
    if r < w * 4 {
        let s = (y * w + r / 4) * 4;
        let a = src[s + 3];
        if r % 4 == 0 {
            premultiplied(src[s + 2], a)
        } else if r % 4 == 1 {
            premultiplied(src[s + 1], a)
        } else if r % 4 == 2 {
            premultiplied(src[s], a)
        } else {
            a
        }
    } else {
        0
    }
}

/// The surface data for a `w`×`h` image with rows `stride` bytes apart.
pub open spec fn argb32_data(src: Seq<u8>, w: int, h: int, stride: int) -> Seq<u8> {
    Seq::new((stride * h) as nat, |j: int| argb32_byte(src, w, stride, j))
}

proof fn lemma_row_split(stride: int, y: int, r: int)
    requires
        0 <= r < stride,
        0 <= y,
    ensures
        (y * stride + r) / stride == y,
        (y * stride + r) % stride == r,
{
    assert((y * stride + r) / stride == y && (y * stride + r) % stride == r) by (nonlinear_arith)
        requires
            0 <= r < stride,
            0 <= y,
    ;
}

fn premultiply(c: u8, a: u8) -> (r: u8)
    ensures
        r == premultiplied(c, a),
{
    proof {
        assert(c as int * a as int <= 255 * 255) by (nonlinear_arith)
            requires
                c <= 255,
                a <= 255,
        ;
    }
    (((c as u16) * (a as u16)) / 255) as u8
}

/// The `ARgb32` surface data (rows `stride` bytes apart) showing the
/// `width`×`height` straight-alpha RGBA8 image `src`.
pub fn rgba_to_argb32(width: u32, height: u32, stride: usize, src: &[u8]) -> (out: Vec<u8>)
    requires
        stride >= width * 4,
        stride * height <= usize::MAX,
        src.len() >= width * height * 4,
    ensures
        out@ == argb32_data(src@, width as int, height as int, stride as int),
{
    let w = width as usize;
    let h = height as usize;
    let ghost s = src@;
    let ghost target = argb32_data(s, w as int, h as int, stride as int);
    let n = stride * h;
    let mut out: Vec<u8> = vec![0u8; n];
    let mut y: usize = 0;
    while y < h
        invariant
            w == width,
            h == height,
            s == src@,
            s.len() >= w * h * 4,
            src.len() == s.len(),
            stride >= w * 4,
            n == stride * h,
            target == argb32_data(s, w as int, h as int, stride as int),
            out@.len() == n,
            y <= h,
            forall|j: int| 0 <= j < n ==> #[trigger] out@[j] == if j < y * stride { target[j] } else { 0 },
        decreases h - y,
    {
        let mut x: usize = 0;
        proof {
            assert((y + 1) * stride <= n) by (nonlinear_arith)
                requires
                    y < h,
                    n == stride * h,
            ;
            assert(y * stride + w * 4 <= (y + 1) * stride) by (nonlinear_arith)
                requires
                    stride >= w * 4,
            ;
        }
        while x < w
            invariant
                w == width,
                h == height,
                s == src@,
                s.len() >= w * h * 4,
            src.len() == s.len(),
                stride >= w * 4,
                n == stride * h,
                target == argb32_data(s, w as int, h as int, stride as int),
                out@.len() == n,
                y < h,
                x <= w,
                (y + 1) * stride <= n,
                y * stride + w * 4 <= (y + 1) * stride,
                forall|j: int|
                    0 <= j < n ==> #[trigger] out@[j] == if j < y * stride + x * 4 {
                        target[j]
                    } else {
                        0
                    },
            decreases w - x,
        {
            proof {
                assert((y * w + x) * 4 + 4 <= w * h * 4) by (nonlinear_arith)
                    requires
                        x < w,
                        y < h,
                ;
            }
            let si = (y * w + x) * 4;
            let d = y * stride + x * 4;
            let a = src[si + 3];
            let pb = premultiply(src[si + 2], a);
            let pg = premultiply(src[si + 1], a);
            let pr = premultiply(src[si], a);
            out.set(d, pb);
            out.set(d + 1, pg);
            out.set(d + 2, pr);
            out.set(d + 3, a);
            proof {
                assert forall|j: int| 0 <= j < n implies #[trigger] out@[j] == if j < y * stride + (x + 1) * 4 {
                    target[j]
                } else {
                    0
                } by {
                    if d <= j < d + 4 {
                        lemma_row_split(stride as int, y as int, x * 4 + (j - d));
                        assert((x * 4 + (j - d)) / 4 == x);
                        assert((x * 4 + (j - d)) % 4 == j - d);
                    }
                }
            }
            x = x + 1;
        }
        proof {
            assert forall|j: int| 0 <= j < n implies #[trigger] out@[j] == if j < (y + 1) * stride {
                target[j]
            } else {
                0
            } by {
                assert((y + 1) * stride == y * stride + stride) by (nonlinear_arith);
                if y * stride + w * 4 <= j < (y + 1) * stride {
                    lemma_row_split(stride as int, y as int, j - y * stride);
                }
            }
        }
        y = y + 1;
    }
    proof {
        assert(h * stride == stride * h) by (nonlinear_arith);
        assert(out@ =~= target);
    }
    out
}


/// Channel value `c` premultiplied by alpha `a`, brought back to straight
/// alpha: zero where the pixel is fully transparent, else `c * 255 / a`
/// (rounded down) capped at 255.
pub open spec fn unpremultiplied(c: u8, a: u8) -> u8 {
    if a == 0 {
        0
    } else {
        let v = (c as int * 255) / a as int;
        if v > 255 { 255 } else { v as u8 }
    }
}

/// Byte `j` of the straight-alpha RGBA8 image read back from the surface
/// data `data` of a `w`-pixel-wide image whose rows are `stride` bytes apart.
pub open spec fn rgba_byte(data: Seq<u8>, w: int, stride: int, j: int) -> u8 {
    let k = j / 4;
    let s = (k / w) * stride + (k % w) * 4;
    let a = data[s + 3];
    if j % 4 == 0 {
        unpremultiplied(data[s + 2], a)
    } else if j % 4 == 1 {
        unpremultiplied(data[s + 1], a)
    } else if j % 4 == 2 {
        unpremultiplied(data[s], a)
    } else {
        a
    }
}

/// The straight-alpha RGBA8 image (`w`×`h`, tightly packed) that the
/// surface data `data` shows.
pub open spec fn rgba_data(data: Seq<u8>, w: int, h: int, stride: int) -> Seq<u8> {
    Seq::new((w * h * 4) as nat, |j: int| rgba_byte(data, w, stride, j))
}

fn unpremultiply(c: u8, a: u8) -> (r: u8)
    ensures
        r == unpremultiplied(c, a),
{
    if a == 0 {
        0
    } else if a == 255 {
        proof {
            assert((c as int * 255) / 255 == c) by (nonlinear_arith);
        }
        c
    } else {
        let v = ((c as u32) * 255) / (a as u32);
        if v > 255 { 255 } else { v as u8 }
    }
}

/// The straight-alpha RGBA8 pixels of a `width`×`height` `ARgb32` surface
/// whose data is `data`, rows `stride` bytes apart.
pub fn argb32_to_rgba(width: u32, height: u32, stride: usize, data: &[u8]) -> (out: Vec<u8>)
    requires
        width * height * 4 <= usize::MAX,
        width > 0 && height > 0 ==> (height - 1) * stride + width * 4 <= data.len(),
    ensures
        out@ == rgba_data(data@, width as int, height as int, stride as int),
{
    let w = width as usize;
    let h = height as usize;
    let ghost d = data@;
    let ghost target = rgba_data(d, w as int, h as int, stride as int);
    let n = w * h * 4;
    let mut out: Vec<u8> = vec![0u8; n];
    let mut y: usize = 0;
    while y < h
        invariant
            w == width,
            h == height,
            d == data@,
            n == w * h * 4,
            w > 0 && h > 0 ==> (h - 1) * stride + w * 4 <= d.len(),
            target == rgba_data(d, w as int, h as int, stride as int),
            out@.len() == n,
            y <= h,
            forall|j: int| 0 <= j < n ==> #[trigger] out@[j] == if j < y * w * 4 { target[j] } else { 0 },
        decreases h - y,
    {
        let mut x: usize = 0;
        while x < w
            invariant
                w == width,
                h == height,
                d == data@,
                n == w * h * 4,
                w > 0 && h > 0 ==> (h - 1) * stride + w * 4 <= d.len(),
                target == rgba_data(d, w as int, h as int, stride as int),
                out@.len() == n,
                y < h,
                x <= w,
                forall|j: int|
                    0 <= j < n ==> #[trigger] out@[j] == if j < (y * w + x) * 4 { target[j] } else { 0 },
            decreases w - x,
        {
            proof {
                assert(y * stride + x * 4 + 4 <= (h - 1) * stride + w * 4) by (nonlinear_arith)
                    requires
                        x < w,
                        y < h,
                ;
                assert((y * w + x) * 4 + 4 <= n) by (nonlinear_arith)
                    requires
                        x < w,
                        y < h,
                        n == w * h * 4,
                ;
            }
            assert(y * stride + x * 4 + 4 <= data.len());
            let src = y * stride + x * 4;
            let dst = (y * w + x) * 4;
            let a = data[src + 3];
            let r = unpremultiply(data[src + 2], a);
            let g = unpremultiply(data[src + 1], a);
            let b = unpremultiply(data[src], a);
            out.set(dst, r);
            out.set(dst + 1, g);
            out.set(dst + 2, b);
            out.set(dst + 3, a);
            proof {
                assert forall|j: int| 0 <= j < n implies #[trigger] out@[j] == if j < (y * w + x + 1) * 4 {
                    target[j]
                } else {
                    0
                } by {
                    if dst <= j < dst + 4 {
                        lemma_row_split(w as int, y as int, x as int);
                        assert(j / 4 == y * w + x);
                        assert(j % 4 == j - dst);
                    }
                }
            }
            x = x + 1;
        }
        proof {
            assert((y * w + w) * 4 == (y + 1) * w * 4) by (nonlinear_arith);
        }
        y = y + 1;
    }
    proof {
        assert(out@ =~= target);
    }
    out
}

/// Reading back an opaque image from the surface it was drawn into gives
/// the image itself.
pub proof fn lemma_opaque_round_trip(src: Seq<u8>, w: int, h: int, stride: int)
    requires
        w >= 0,
        h >= 0,
        stride >= w * 4,
        src.len() == w * h * 4,
        forall|k: int| 0 <= k < w * h ==> #[trigger] src[k * 4 + 3] == 255u8,
    ensures
        rgba_data(argb32_data(src, w, h, stride), w, h, stride) == src,
{
    let data = argb32_data(src, w, h, stride);
    assert forall|j: int| 0 <= j < w * h * 4 implies #[trigger] rgba_data(data, w, h, stride)[j] == src[j] by {
        let k = j / 4;
        assert(0 <= k < w * h && j == k * 4 + j % 4) by (nonlinear_arith)
            requires
                0 <= j < w * h * 4,
                k == j / 4,
        ;
        let x = k % w;
        let y = k / w;
        assert(w > 0) by (nonlinear_arith)
            requires
                0 <= k < w * h,
                w >= 0,
                h >= 0,
        ;
        assert(0 <= x < w && k == y * w + x) by (nonlinear_arith)
            requires
                w > 0,
                0 <= k,
                x == k % w,
                y == k / w,
        ;
        assert(0 <= y < h) by (nonlinear_arith)
            requires
                w > 0,
                0 <= x < w,
                k == y * w + x,
                k < w * h,
                0 <= k,
                x == k % w,
                y == k / w,
        ;
        let s = y * stride + x * 4;
        assert(s + 4 <= stride * h) by (nonlinear_arith)
            requires
                0 <= x < w,
                0 <= y < h,
                stride >= w * 4,
                s == y * stride + x * 4,
        ;
        assert forall|c: int| 0 <= c < 4 implies #[trigger] data[s + c] == argb32_byte(src, w, stride, s + c)
            && (s + c) / stride == y && (s + c) % stride == x * 4 + c by {
            lemma_row_split(stride, y, x * 4 + c);
        }
        assert((x * 4 + 0) / 4 == x && (x * 4 + 1) / 4 == x && (x * 4 + 2) / 4 == x && (x * 4 + 3) / 4 == x);
        assert(src[k * 4 + 3] == 255u8);
        assert forall|c: u8| #[trigger] premultiplied(c, 255u8) == c && unpremultiplied(c, 255u8) == c by {
            assert((c as int * 255) / 255 == c) by (nonlinear_arith);
        }
        assert(data[s + 0] == premultiplied(src[k * 4 + 2], 255u8));
        assert(data[s + 1] == premultiplied(src[k * 4 + 1], 255u8));
        assert(data[s + 2] == premultiplied(src[k * 4], 255u8));
    }
    assert(rgba_data(data, w, h, stride) =~= src);
}

} // verus!
