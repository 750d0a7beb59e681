//! Import of a PNG with an alpha channel as a raster signature, trimmed to
//! the bounding box of its non-transparent pixels.
use vstd::prelude::*;

use crate::codec::decode_rgba8;
use crate::paths::{path_file_stem, path_file_stem_of};
use crate::raster::{lemma_offset_in_bounds, lemma_offset_injective, lemma_offset_split, rgba_at, rgba_offset};
use crate::stroke::SignatureId;

verus! {

/// Why a PNG could not be imported as a signature.
#[derive(Debug)]
pub enum ImportError {
    /// Reading the file failed (raised by the caller that reads it).
    Io(std::io::Error),
    /// The `image` crate could not decode the bytes.
    Decode(image::ImageError),
    /// No pixel is transparent: almost certainly not a signature on a
    /// transparent background.
    NoTransparency,
}

#[derive(Debug, Clone, Copy)]
pub struct ImportOptions {
    /// Crop to the bounding box of non-transparent pixels (default `true`).
    pub auto_trim: bool,
    /// A pixel counts as transparent when `alpha <= alpha_threshold`. Default `0`.
    pub alpha_threshold: u8,
}

impl Default for ImportOptions {
    fn default() -> (o: Self)
        ensures
            o.auto_trim,
            o.alpha_threshold == 0,
    {
        ImportOptions { auto_trim: true, alpha_threshold: 0 }
    }
}

/// An imported raster signature: RGBA8, row-major, top-left origin.
#[derive(Debug, Clone)]
pub struct RasterSignature {
    pub id: SignatureId,
    pub name: String,
    pub width: u32,
    pub height: u32,
    pub pixels: Vec<u8>,
}

/// Pixel `(x, y)` of the `w`-wide image `p` is opaque: its alpha exceeds `thr`.
pub open spec fn is_opaque(p: Seq<u8>, w: int, thr: u8, x: int, y: int) -> bool {
    rgba_at(p, w, x, y, 3) > thr
}

/// Some pixel of the `w`×`h` image `p` is opaque.
pub open spec fn has_opaque(p: Seq<u8>, w: int, h: int, thr: u8) -> bool {
    exists|x: int, y: int| 0 <= x < w && 0 <= y < h && #[trigger] is_opaque(p, w, thr, x, y)
}

/// Some pixel among the first `n` of `p` is transparent: its alpha is at most
/// `thr`.
pub open spec fn has_transparent(p: Seq<u8>, n: int, thr: u8) -> bool {
    exists|k: int| 0 <= k < n && #[trigger] p[k * 4 + 3] <= thr
}

/// `(x0, y0, x1, y1)` is the bounding box (inclusive) of the opaque pixels of
/// the `w`×`h` image `p`: it holds all of them and each edge touches one.
pub open spec fn is_alpha_bbox(p: Seq<u8>, w: int, h: int, thr: u8, b: (int, int, int, int)) -> bool {
    let (x0, y0, x1, y1) = b;
    &&& forall|x: int, y: int|
        0 <= x < w && 0 <= y < h && #[trigger] is_opaque(p, w, thr, x, y) ==> x0 <= x <= x1 && y0
            <= y <= y1
    &&& exists|y: int| 0 <= y < h && 0 <= x0 < w && #[trigger] is_opaque(p, w, thr, x0, y)
    &&& exists|y: int| 0 <= y < h && 0 <= x1 < w && #[trigger] is_opaque(p, w, thr, x1, y)
    &&& exists|x: int| 0 <= x < w && 0 <= y0 < h && #[trigger] is_opaque(p, w, thr, x, y0)
    &&& exists|x: int| 0 <= x < w && 0 <= y1 < h && #[trigger] is_opaque(p, w, thr, x, y1)
}

/// The bounding box of the opaque pixels (meaningful when there is one).
pub open spec fn alpha_bbox(p: Seq<u8>, w: int, h: int, thr: u8) -> (int, int, int, int) {
    choose|b: (int, int, int, int)| is_alpha_bbox(p, w, h, thr, b)
}

/// The `cw`×`ch` window of the `w`-wide image `p` whose top-left pixel is
/// `(x0, y0)`.
pub open spec fn cropped_pixels(p: Seq<u8>, w: int, x0: int, y0: int, cw: int, ch: int) -> Seq<u8> {
    Seq::new(
        (cw * ch * 4) as nat,
        |i: int| rgba_at(p, w, x0 + (i / 4) % cw, y0 + (i / 4) / cw, i % 4),
    )
}

/// The image cropped to the bounding box of its opaque pixels, as
/// (width, height, pixels); a single transparent pixel when nothing is opaque.
pub open spec fn alpha_crop(p: Seq<u8>, w: int, h: int, thr: u8) -> (int, int, Seq<u8>) {
    if has_opaque(p, w, h, thr) {
        let (x0, y0, x1, y1) = alpha_bbox(p, w, h, thr);
        (x1 - x0 + 1, y1 - y0 + 1, cropped_pixels(p, w, x0, y0, x1 - x0 + 1, y1 - y0 + 1))
    } else {
        (1, 1, seq![0u8, 0u8, 0u8, 0u8])
    }
}

/// The name a signature gets from the file stem `stem`: the stem itself, or
/// `Signature` when there is none.
pub open spec fn name_from_stem(stem: Option<Seq<char>>) -> Seq<char> {
    match stem {
        Some(s) => s,
        None => "Signature"@,
    }
}

/// The name a signature imported from `path` gets.
pub open spec fn signature_name(path: Seq<char>) -> Seq<char> {
    name_from_stem(path_file_stem_of(path))
}

/// The pixels an imported signature keeps of a `w`×`h` image `p`: all of
/// them, or with `auto_trim` those of the bounding box of its opaque pixels.
pub open spec fn kept_pixels(p: Seq<u8>, w: u32, h: u32, opts: ImportOptions) -> (int, int, Seq<u8>) {
    if opts.auto_trim {
        alpha_crop(p, w as int, h as int, opts.alpha_threshold)
    } else {
        (w as int, h as int, p)
    }
}

/// The bounding box of the opaque pixels is unique.
pub proof fn lemma_alpha_bbox_unique(
    p: Seq<u8>,
    w: int,
    h: int,
    thr: u8,
    a: (int, int, int, int),
    b: (int, int, int, int),
)
    requires
        is_alpha_bbox(p, w, h, thr, a),
        is_alpha_bbox(p, w, h, thr, b),
    ensures
        a == b,
{
    let ya0 = choose|y: int| 0 <= y < h && 0 <= a.0 < w && #[trigger] is_opaque(p, w, thr, a.0, y);
    let yb0 = choose|y: int| 0 <= y < h && 0 <= b.0 < w && #[trigger] is_opaque(p, w, thr, b.0, y);
    let ya1 = choose|y: int| 0 <= y < h && 0 <= a.2 < w && #[trigger] is_opaque(p, w, thr, a.2, y);
    let yb1 = choose|y: int| 0 <= y < h && 0 <= b.2 < w && #[trigger] is_opaque(p, w, thr, b.2, y);
    let xa0 = choose|x: int| 0 <= x < w && 0 <= a.1 < h && #[trigger] is_opaque(p, w, thr, x, a.1);
    let xb0 = choose|x: int| 0 <= x < w && 0 <= b.1 < h && #[trigger] is_opaque(p, w, thr, x, b.1);
    let xa1 = choose|x: int| 0 <= x < w && 0 <= a.3 < h && #[trigger] is_opaque(p, w, thr, x, a.3);
    let xb1 = choose|x: int| 0 <= x < w && 0 <= b.3 < h && #[trigger] is_opaque(p, w, thr, x, b.3);
    assert(is_opaque(p, w, thr, a.0, ya0));
    assert(is_opaque(p, w, thr, b.0, yb0));
    assert(is_opaque(p, w, thr, a.2, ya1));
    assert(is_opaque(p, w, thr, b.2, yb1));
    assert(is_opaque(p, w, thr, xa0, a.1));
    assert(is_opaque(p, w, thr, xb0, b.1));
    assert(is_opaque(p, w, thr, xa1, a.3));
    assert(is_opaque(p, w, thr, xb1, b.3));
}

/// Without trimming, an imported signature is the decoded image itself:
/// same size, same bytes in the same order.
pub proof fn lemma_untrimmed_import_keeps_the_image(
    w: u32,
    h: u32,
    pixels: Seq<u8>,
    dw: u32,
    dh: u32,
    p: Seq<u8>,
    opts: ImportOptions,
)
    requires
        !opts.auto_trim,
        imported_from(w, h, pixels, dw, dh, p, opts),
    ensures
        w == dw,
        h == dh,
        pixels == p,
{
}

/// The crop of the `w`-wide image `p` to the `cw`×`ch` window at
/// `(x0, y0)` holds, at each pixel `(x, y)` of the window, the pixel
/// `(x0 + x, y0 + y)` of the image, channel by channel: nothing is moved,
/// flipped or reordered.
pub proof fn lemma_crop_keeps_pixels_in_place(
    p: Seq<u8>,
    w: int,
    x0: int,
    y0: int,
    cw: int,
    ch: int,
    x: int,
    y: int,
    c: int,
)
    requires
        0 <= x < cw,
        0 <= y < ch,
        0 <= c < 4,
    ensures
        cropped_pixels(p, w, x0, y0, cw, ch).len() == cw * ch * 4,
        rgba_at(cropped_pixels(p, w, x0, y0, cw, ch), cw, x, y, c) == rgba_at(p, w, x0 + x, y0 + y, c),
{
    let i = rgba_offset(cw, x, y, c);
    assert(0 <= i < cw * ch * 4 && i / 4 == y * cw + x && i % 4 == c) by (nonlinear_arith)
        requires
            0 <= x < cw,
            0 <= y < ch,
            0 <= c < 4,
            i == (y * cw + x) * 4 + c,
    {
        assert(y * cw + x < cw * ch) by (nonlinear_arith)
            requires
                0 <= x < cw,
                0 <= y < ch,
        {
            assert(y * cw + x < y * cw + cw);
            assert(y * cw + cw == (y + 1) * cw);
            assert((y + 1) * cw <= ch * cw);
        }
    }
    let k = y * cw + x;
    assert(k % cw == x && k / cw == y) by (nonlinear_arith)
        requires
            0 <= x < cw,
            0 <= y,
            k == y * cw + x,
    ;
    assert(cw * ch * 4 >= 0) by (nonlinear_arith)
        requires
            cw > 0,
            ch > 0,
    ;
}

/// Pixel `(x2, y2)` comes before pixel `(x, y)` in row-major order.
pub open spec fn scanned_before(x: int, y: int, x2: int, y2: int) -> bool {
    y2 < y || (y2 == y && x2 < x)
}

/// Crop the `w`×`h` image in `pixels` to the bounding box of its opaque
/// pixels (alpha above `thr`); a single transparent pixel when nothing is
/// opaque.
fn crop_to_alpha_bbox(pixels: &Vec<u8>, w: u32, h: u32, thr: u8) -> (r: (u32, u32, Vec<u8>))
    requires
        pixels@.len() >= w * h * 4,
    ensures
        (r.0 as int, r.1 as int, r.2@) == alpha_crop(pixels@, w as int, h as int, thr),
{
    let ghost p = pixels@;
    let ghost wi = w as int;
    let ghost hi = h as int;
    let wu = w as usize;
    let hu = h as usize;
    proof {
        assert(w * h * 4 <= pixels.len());
    }
    let mut min_x: u32 = w;
    let mut min_y: u32 = h;
    let mut max_x: u32 = 0;
    let mut max_y: u32 = 0;
    let mut found = false;
    // rows at which the left and right edges, and columns at which the top
    // and bottom edges, touch an opaque pixel
    let ghost mut at_min_x: int = 0;
    let ghost mut at_max_x: int = 0;
    let ghost mut at_min_y: int = 0;
    let ghost mut at_max_y: int = 0;
    let mut y: u32 = 0;
    while y < h
        invariant
            p == pixels@,
            wi == w,
            hi == h,
            wu == w,
            hu == h,
            w * h * 4 <= p.len(),
            pixels.len() == p.len(),
            y <= h,
            !found ==> forall|x2: int, y2: int|
                0 <= x2 < w && 0 <= y2 < y ==> !#[trigger] is_opaque(p, wi, thr, x2, y2),
            !found ==> min_x == w && min_y == h,
            found ==> {
                &&& forall|x2: int, y2: int|
                    0 <= x2 < w && 0 <= y2 < y && #[trigger] is_opaque(p, wi, thr, x2, y2)
                        ==> min_x <= x2 <= max_x && min_y <= y2 <= max_y
                &&& 0 <= at_min_x < y && min_x < w && is_opaque(p, wi, thr, min_x as int, at_min_x)
                &&& 0 <= at_max_x < y && max_x < w && is_opaque(p, wi, thr, max_x as int, at_max_x)
                &&& 0 <= at_min_y < w && min_y < y && is_opaque(p, wi, thr, at_min_y, min_y as int)
                &&& 0 <= at_max_y < w && max_y < y && is_opaque(p, wi, thr, at_max_y, max_y as int)
            },
        decreases h - y,
    {
        let mut x: u32 = 0;
        while x < w
            invariant
                p == pixels@,
                wi == w,
                hi == h,
                wu == w,
                hu == h,
                w * h * 4 <= p.len(),
                pixels.len() == p.len(),
                y < h,
                x <= w,
                !found ==> forall|x2: int, y2: int|
                    0 <= x2 < w && 0 <= y2 < h && scanned_before(x as int, y as int, x2, y2)
                        ==> !#[trigger] is_opaque(p, wi, thr, x2, y2),
                found ==> forall|x2: int, y2: int|
                    0 <= x2 < w && 0 <= y2 < h && scanned_before(x as int, y as int, x2, y2)
                        && #[trigger] is_opaque(p, wi, thr, x2, y2) ==> min_x <= x2 <= max_x
                        && min_y <= y2 <= max_y,
                !found ==> min_x == w && min_y == h,
                found ==> 0 <= at_min_x <= y && min_x < w && is_opaque(p, wi, thr, min_x as int, at_min_x),
                found ==> 0 <= at_max_x <= y && max_x < w && is_opaque(p, wi, thr, max_x as int, at_max_x),
                found ==> 0 <= at_min_y < w && min_y <= y && is_opaque(p, wi, thr, at_min_y, min_y as int),
                found ==> 0 <= at_max_y < w && max_y <= y && is_opaque(p, wi, thr, at_max_y, max_y as int),
            decreases w - x,
        {
            proof {
                lemma_offset_in_bounds(wi, hi, x as int, y as int, 3);
            }
            let alpha = pixels[((y as usize) * wu + (x as usize)) * 4 + 3];
            let ghost was_found = found;
            let ghost (ominx, omaxx, ominy, omaxy) = (min_x, max_x, min_y, max_y);
            if alpha > thr {
                if x < min_x {
                    min_x = x;
                    proof {
                        at_min_x = y as int;
                    }
                }
                if x > max_x || !found {
                    max_x = x;
                    proof {
                        at_max_x = y as int;
                    }
                }
                if y < min_y {
                    min_y = y;
                    proof {
                        at_min_y = x as int;
                    }
                }
                if y > max_y || !found {
                    max_y = y;
                    proof {
                        at_max_y = x as int;
                    }
                }
                found = true;
            }
            proof {
                assert(alpha == rgba_at(p, wi, x as int, y as int, 3));
                if found {
                    assert forall|x2: int, y2: int|
                        0 <= x2 < w && 0 <= y2 < h && scanned_before(x + 1, y as int, x2, y2)
                            && #[trigger] is_opaque(p, wi, thr, x2, y2) implies min_x <= x2 <= max_x
                            && min_y <= y2 <= max_y by {
                        if x2 == x && y2 == y {
                        } else {
                            assert(scanned_before(x as int, y as int, x2, y2));
                            if was_found {
                                assert(ominx <= x2 <= omaxx && ominy <= y2 <= omaxy);
                            }
                        }
                    }
                }
                if !found {
                    assert forall|x2: int, y2: int|
                        0 <= x2 < w && 0 <= y2 < h && scanned_before(x + 1, y as int, x2, y2)
                            implies !#[trigger] is_opaque(p, wi, thr, x2, y2) by {
                        if x2 == x && y2 == y {
                        } else {
                            assert(scanned_before(x as int, y as int, x2, y2));
                        }
                    }
                }
            }
            x = x + 1;
        }
        proof {
            if found {
                assert forall|x2: int, y2: int|
                    0 <= x2 < w && 0 <= y2 < y + 1 && #[trigger] is_opaque(p, wi, thr, x2, y2)
                        implies min_x <= x2 <= max_x && min_y <= y2 <= max_y by {
                    assert(scanned_before(x as int, y as int, x2, y2));
                }
            } else {
                assert forall|x2: int, y2: int|
                    0 <= x2 < w && 0 <= y2 < y + 1 implies !#[trigger] is_opaque(p, wi, thr, x2, y2) by {
                    assert(scanned_before(x as int, y as int, x2, y2));
                }
            }
        }
        y = y + 1;
    }
    if !found {
        proof {
            assert(!has_opaque(p, wi, hi, thr));
        }
        return (1, 1, vec![0u8, 0u8, 0u8, 0u8]);
    }
    let ghost bbox = (min_x as int, min_y as int, max_x as int, max_y as int);
    proof {
        assert(is_opaque(p, wi, thr, min_x as int, at_min_x));
        assert(is_opaque(p, wi, thr, max_x as int, at_max_x));
        assert(is_opaque(p, wi, thr, at_min_y, min_y as int));
        assert(is_opaque(p, wi, thr, at_max_y, max_y as int));
        assert(forall|x: int, y: int|
            0 <= x < w && 0 <= y < h && #[trigger] is_opaque(p, wi, thr, x, y) ==> bbox.0 <= x
                <= bbox.2 && bbox.1 <= y <= bbox.3);
        assert(exists|y: int| 0 <= y < hi && 0 <= bbox.0 < wi && #[trigger] is_opaque(p, wi, thr, bbox.0, y));
        assert(exists|y: int| 0 <= y < hi && 0 <= bbox.2 < wi && #[trigger] is_opaque(p, wi, thr, bbox.2, y));
        assert(exists|x: int| 0 <= x < wi && 0 <= bbox.1 < hi && #[trigger] is_opaque(p, wi, thr, x, bbox.1));
        assert(exists|x: int| 0 <= x < wi && 0 <= bbox.3 < hi && #[trigger] is_opaque(p, wi, thr, x, bbox.3));
        assert(is_alpha_bbox(p, wi, hi, thr, bbox));
        assert(has_opaque(p, wi, hi, thr));
        lemma_alpha_bbox_unique(p, wi, hi, thr, bbox, alpha_bbox(p, wi, hi, thr));
    }
    let new_w = max_x - min_x + 1;
    let new_h = max_y - min_y + 1;
    let cw = new_w as usize;
    let ch = new_h as usize;
    proof {
        assert(cw * ch * 4 <= w * h * 4) by (nonlinear_arith)
            requires
                0 < cw <= w,
                0 < ch <= h,
        ;
    }
    let mut out: Vec<u8> = Vec::with_capacity(cw * ch * 4);
    let ghost crop = cropped_pixels(p, wi, min_x as int, min_y as int, cw as int, ch as int);
    let mut cy: u32 = min_y;
    proof {
        assert(out@.len() == 0);
        assert((cy - min_y) * cw * 4 == 0) by (nonlinear_arith)
            requires
                cy == min_y,
        ;
    }
    while cy <= max_y
        invariant
            p == pixels@,
            wi == w,
            hi == h,
            wu == w,
            w * h * 4 <= p.len(),
            pixels.len() == p.len(),
            min_x <= max_x < w,
            min_y <= max_y < h,
            cw == max_x - min_x + 1,
            ch == max_y - min_y + 1,
            cw * ch * 4 <= w * h * 4,
            crop == cropped_pixels(p, wi, min_x as int, min_y as int, cw as int, ch as int),
            min_y <= cy <= max_y + 1,
            out@.len() == (cy - min_y) * cw * 4,
            out@.len() <= crop.len(),
            forall|i: int| 0 <= i < out@.len() ==> #[trigger] out@[i] == crop[i],
        decreases max_y + 1 - cy,
    {
        let mut cx: u32 = min_x;
        proof {
            assert(((cy - min_y) * cw + 0) * 4 == (cy - min_y) * cw * 4) by (nonlinear_arith);
        }
        while cx <= max_x
            invariant
                p == pixels@,
                wi == w,
                hi == h,
                wu == w,
                w * h * 4 <= p.len(),
                pixels.len() == p.len(),
                min_x <= max_x < w,
                min_y <= max_y < h,
                cw == max_x - min_x + 1,
                ch == max_y - min_y + 1,
                cw * ch * 4 <= w * h * 4,
                crop == cropped_pixels(p, wi, min_x as int, min_y as int, cw as int, ch as int),
                min_y <= cy <= max_y,
                min_x <= cx <= max_x + 1,
                out@.len() == ((cy - min_y) * cw + (cx - min_x)) * 4,
                out@.len() <= crop.len(),
                forall|i: int| 0 <= i < out@.len() ==> #[trigger] out@[i] == crop[i],
            decreases max_x + 1 - cx,
        {
            let ghost before = out@;
            let ghost k = (cy - min_y) * cw + (cx - min_x);
            proof {
                lemma_offset_in_bounds(wi, hi, cx as int, cy as int, 0);
                lemma_offset_in_bounds(cw as int, ch as int, (cx - min_x) as int, (cy - min_y) as int, 0);
            }
            let s = ((cy as usize) * wu + (cx as usize)) * 4;
            out.push(pixels[s]);
            out.push(pixels[s + 1]);
            out.push(pixels[s + 2]);
            out.push(pixels[s + 3]);
            proof {
                assert forall|i: int| 0 <= i < out@.len() implies #[trigger] out@[i] == crop[i] by {
                    if i >= before.len() {
                        let c = i - before.len();
                        lemma_offset_in_bounds(cw as int, ch as int, (cx - min_x) as int, (cy - min_y) as int, c);
                        lemma_offset_split(cw as int, ch as int, i);
                        lemma_offset_injective(
                            cw as int,
                            (cx - min_x) as int,
                            (cy - min_y) as int,
                            c,
                            (i / 4) % (cw as int),
                            (i / 4) / (cw as int),
                            i % 4,
                        );
                    }
                }
            }
            proof {
                lemma_offset_in_bounds(cw as int, ch as int, (cx - min_x) as int, (cy - min_y) as int, 3);
            }
            cx = cx + 1;
        }
        proof {
            assert(((cy - min_y) * cw + cw) * 4 == (cy + 1 - min_y) * cw * 4) by (nonlinear_arith);
        }
        cy = cy + 1;
    }
    proof {
        assert((max_y + 1 - min_y) * cw * 4 == cw * ch * 4) by (nonlinear_arith)
            requires
                ch == max_y - min_y + 1,
        ;
        assert(out@ =~= crop);
    }
    (new_w, new_h, out)
}

/// Whether one of the first `n` pixels of `pixels` is transparent.
fn any_transparent(pixels: &Vec<u8>, n: usize, thr: u8) -> (r: bool)
    requires
        n * 4 <= pixels.len(),
    ensures
        r == has_transparent(pixels@, n as int, thr),
{
    let mut k: usize = 0;
    while k < n
        invariant
            n * 4 <= pixels.len(),
            k <= n,
            forall|j: int| 0 <= j < k ==> !(#[trigger] pixels@[j * 4 + 3] <= thr),
        decreases n - k,
    {
        proof {
            assert(k * 4 + 3 < n * 4) by (nonlinear_arith)
                requires
                    k < n,
            ;
        }
        if pixels[k * 4 + 3] <= thr {
            return true;
        }
        k = k + 1;
    }
    false
}

/// The signature for a decoder result and the file stem `stem` of the file
/// it came from: the decoder's error as `ImportError::Decode`, a refusal
/// when no pixel is transparent, else the kept pixels under the stem's name.
pub fn signature_from_decoded(
    stem: Option<String>,
    decoded: Result<(u32, u32, Vec<u8>), image::ImageError>,
    opts: ImportOptions,
) -> (res: Result<RasterSignature, ImportError>)
    requires
        decoded matches Ok((w, h, p)) ==> p@.len() >= w * h * 4,
    ensures
        match decoded {
            Err(_) => res matches Err(ImportError::Decode(_)),
            Ok((w, h, p)) => if !has_transparent(p@, w * h, opts.alpha_threshold) {
                res matches Err(ImportError::NoTransparency)
            } else {
                &&& res matches Ok(sig)
                &&& sig.name@ == name_from_stem(
                    match stem {
                        Some(s) => Some(s@),
                        None => None,
                    },
                )
                &&& (sig.width as int, sig.height as int, sig.pixels@) == kept_pixels(p@, w, h, opts)
            },
        },
        match decoded {
            Ok((w, h, p)) => !opts.auto_trim ==> match res {
                Ok(sig) => sig.width == w && sig.height == h && sig.pixels@ == p@,
                Err(_) => true,
            },
            Err(_) => true,
        },
{
    let (w, h, rgba) = match decoded {
        Ok(d) => d,
        Err(e) => return Err(ImportError::Decode(e)),
    };
    proof {
        assert(w * h * 4 <= rgba.len());
        assert(w * h <= w * h * 4) by (nonlinear_arith);
    }
    let n = (w as usize) * (h as usize);
    if !any_transparent(&rgba, n, opts.alpha_threshold) {
        return Err(ImportError::NoTransparency);
    }
    let (out_w, out_h, pixels) = if opts.auto_trim {
        crop_to_alpha_bbox(&rgba, w, h, opts.alpha_threshold)
    } else {
        (w, h, rgba)
    };
    let name = match stem {
        Some(s) => s,
        None => String::from_str("Signature"),
    };
    Ok(RasterSignature { id: SignatureId::random(), name, width: out_w, height: out_h, pixels })
}

/// A signature `w`×`h` wide made of `pixels` is what the import options
/// `opts` keep of the decoded `dw`×`dh` image `p`, which has a transparent
/// pixel.
pub open spec fn imported_from(
    w: u32,
    h: u32,
    pixels: Seq<u8>,
    dw: u32,
    dh: u32,
    p: Seq<u8>,
    opts: ImportOptions,
) -> bool {
    &&& p.len() >= dw * dh * 4
    &&& has_transparent(p, dw * dh, opts.alpha_threshold)
    &&& (w as int, h as int, pixels) == kept_pixels(p, dw, dh, opts)
}

/// Import the bytes of the PNG file at `path` (any format the `image` crate
/// can decode) as a raster signature named after the file's stem.
///
/// Rejected when no pixel is transparent: the caller almost certainly did
/// not mean to import a flat-background image as a signature. With
/// `auto_trim`, the image is cropped to the bounding box of its pixels whose
/// alpha exceeds the threshold. What comes of each decoding result is said
/// by `signature_from_decoded`; here, whatever the decoder gave back, an
/// imported signature is named after the stem of `path` and is what the
/// options keep of some decoded image with a transparent pixel, and a
/// refusal is a decoding error or a decoded image without one.
pub fn import_png_signature(path: &str, bytes: &[u8], opts: ImportOptions) -> (res: Result<RasterSignature, ImportError>)
    ensures
        res matches Ok(sig) ==> {
            &&& sig.name@ == signature_name(path@)
            &&& exists|dw: u32, dh: u32, p: Seq<u8>| #[trigger] imported_from(sig.width, sig.height, sig.pixels@, dw, dh, p, opts)
        },
        res matches Err(ImportError::NoTransparency) ==> exists|dw: u32, dh: u32, p: Seq<u8>|
            p.len() >= dw * dh * 4 && !#[trigger] has_transparent(p, dw * dh, opts.alpha_threshold),
        !(res matches Err(ImportError::Io(_))),
{
    let decoded = decode_rgba8(bytes);
    let ghost dv = decoded;
    let res = signature_from_decoded(path_file_stem(path), decoded, opts);
    proof {
        if let Ok((dw, dh, p)) = dv {
            if res is Ok {
                let sig = res->Ok_0;
                assert(imported_from(sig.width, sig.height, sig.pixels@, dw, dh, p@, opts));
            }
            if res matches Err(ImportError::NoTransparency) {
                assert(!has_transparent(p@, dw * dh, opts.alpha_threshold));
            }
        }
    }
    res
}

} // verus!
