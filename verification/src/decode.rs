//! Owned RGBA8 image buffers, their quarter-turn rotation, and decoding of
//! encoded image bytes into them.
use vstd::prelude::*;

use crate::codec::decode_rgba8;
use crate::paths::{path_extension, path_extension_of};
use crate::text::{ascii_ci_eq, eq_ignore_ascii_case};
use crate::raster::{copy_pixel, lemma_offset_in_bounds, lemma_offset_injective, lemma_offset_split, rgba_at, rgba_offset};

verus! {

/// The mathematical content of an RGBA8 image: its size and its bytes
/// (row-major, top-left origin, four bytes per pixel, no row padding).
#[verifier::ext_equal]
pub struct RgbaView {
    pub width: nat,
    pub height: nat,
    pub pixels: Seq<u8>,
}

impl RgbaView {
    /// The buffer holds exactly four bytes per pixel.
    pub open spec fn wf(self) -> bool {
        self.pixels.len() == self.width * self.height * 4
    }
}

/// The bytes of a `w`×`h` image turned 90° clockwise. The result is `h`
/// pixels wide and `w` tall; its pixel `(nx, ny)` is the source pixel
/// `(ny, h - 1 - nx)`, so source pixel `(x, y)` lands at `(h - 1 - y, x)`.
pub open spec fn rotated_cw_pixels(w: int, h: int, p: Seq<u8>) -> Seq<u8> {
    Seq::new(
        p.len(),
        |i: int| rgba_at(p, w, (i / 4) / h, h - 1 - (i / 4) % h, i % 4),
    )
}

/// An image turned 90° clockwise: width and height swap.
pub open spec fn rotated_cw(v: RgbaView) -> RgbaView {
    RgbaView {
        width: v.height,
        height: v.width,
        pixels: rotated_cw_pixels(v.width as int, v.height as int, v.pixels),
    }
}

/// Where a source pixel lands after a clockwise quarter turn.
pub proof fn lemma_rotated_cw_at(w: int, h: int, p: Seq<u8>, x: int, y: int, c: int)
    requires
        p.len() == w * h * 4,
        0 <= x < w,
        0 <= y < h,
        0 <= c < 4,
    ensures
        0 <= rgba_offset(h, h - 1 - y, x, c) < p.len(),
        rotated_cw_pixels(w, h, p)[rgba_offset(h, h - 1 - y, x, c)] == rgba_at(p, w, x, y, c),
{
    let i = rgba_offset(h, h - 1 - y, x, c);
    assert(h * w * 4 == w * h * 4) by (nonlinear_arith);
    lemma_offset_in_bounds(h, w, h - 1 - y, x, c);
    lemma_offset_split(h, w, i);
    lemma_offset_injective(h, h - 1 - y, x, c, (i / 4) % h, (i / 4) / h, i % 4);
}

/// Four clockwise quarter turns give back the original image.
pub proof fn lemma_four_rotations_identity(v: RgbaView)
    requires
        v.wf(),
    ensures
        rotated_cw(rotated_cw(rotated_cw(rotated_cw(v)))) == v,
{
    let w = v.width as int;
    let h = v.height as int;
    let p = v.pixels;
    let r1 = rotated_cw_pixels(w, h, p);
    let r2 = rotated_cw_pixels(h, w, r1);
    let r3 = rotated_cw_pixels(w, h, r2);
    let r4 = rotated_cw_pixels(h, w, r3);
    assert(h * w * 4 == w * h * 4) by (nonlinear_arith);
    assert forall|i: int| 0 <= i < p.len() implies r4[i] == p[i] by {
        if w > 0 && h > 0 {
            lemma_offset_split(w, h, i);
            let x = (i / 4) % w;
            let y = (i / 4) / w;
            let c = i % 4;
            lemma_rotated_cw_at(w, h, p, x, y, c);
            lemma_rotated_cw_at(h, w, r1, h - 1 - y, x, c);
            lemma_rotated_cw_at(w, h, r2, w - 1 - x, h - 1 - y, c);
            lemma_rotated_cw_at(h, w, r3, y, w - 1 - x, c);
        } else {
            assert(w * h * 4 == 0) by (nonlinear_arith)
                requires
                    w == 0 || h == 0,
            ;
        }
    }
    assert(r4 =~= p);
}

/// An owned RGBA8 image buffer holding exactly four bytes per pixel.
#[derive(Debug, PartialEq, Eq)]
pub struct DecodedImage {
    width: u32,
    height: u32,
    pixels: Vec<u8>,
}

impl View for DecodedImage {
    type V = RgbaView;

    closed spec fn view(&self) -> RgbaView {
        RgbaView { width: self.width as nat, height: self.height as nat, pixels: self.pixels@ }
    }
}

impl Clone for DecodedImage {
    fn clone(&self) -> (r: Self)
        ensures
            r@ == self@,
    {
        proof {
            use_type_invariant(self);
        }
        let pixels = self.pixels.clone();
        proof {
            assert(pixels@ =~= self.pixels@);
        }
        DecodedImage { width: self.width, height: self.height, pixels }
    }
}

impl DecodedImage {
    #[verifier::type_invariant]
    closed spec fn inv(&self) -> bool {
        self@.wf()
    }

    pub fn dimensions(&self) -> (d: (u32, u32))
        ensures
            d.0 == self@.width,
            d.1 == self@.height,
    {
        (self.width, self.height)
    }

    pub fn width(&self) -> (w: u32)
        ensures
            w == self@.width,
    {
        self.width
    }

    pub fn height(&self) -> (h: u32)
        ensures
            h == self@.height,
    {
        self.height
    }

    /// Raw RGBA8 pixels, row-major, top-left origin, no row padding.
    pub fn pixels(&self) -> (p: &[u8])
        ensures
            p@ == self@.pixels,
            p@.len() == self@.width * self@.height * 4,
    {
        proof {
            use_type_invariant(self);
        }
        self.pixels.as_slice()
    }

    pub(crate) fn from_raw(width: u32, height: u32, pixels: Vec<u8>) -> (img: Self)
        requires
            pixels@.len() == width * height * 4,
        ensures
            img@ == (RgbaView { width: width as nat, height: height as nat, pixels: pixels@ }),
    {
        DecodedImage { width, height, pixels }
    }

    /// A new image rotated 90° clockwise. Dimensions swap.
    pub fn rotated_90_cw(&self) -> (r: Self)
        ensures
            r@ == rotated_cw(self@),
    {
        proof {
            use_type_invariant(self);
        }
        let w = self.width as usize;
        let h = self.height as usize;
        let n = self.pixels.len();
        let ghost p = self.pixels@;
        let mut out: Vec<u8> = vec![0u8; n];
        let mut y: usize = 0;
        while y < h
            invariant
                w == self@.width,
                h == self@.height,
                p == self@.pixels,
                n == p.len(),
                n == w * h * 4,
                out@.len() == n,
                y <= h,
                forall|x2: int, y2: int, c: int|
                    0 <= x2 < w && 0 <= y2 < y && 0 <= c < 4 ==> #[trigger] out@[rgba_offset(
                        h as int,
                        h - 1 - y2,
                        x2,
                        c,
                    )] == rgba_at(p, w as int, x2, y2, c),
            decreases h - y,
        {
            let mut x: usize = 0;
            while x < w
                invariant
                    w == self@.width,
                    h == self@.height,
                    p == self@.pixels,
                    n == p.len(),
                    n == w * h * 4,
                    out@.len() == n,
                    y < h,
                    x <= w,
                    forall|x2: int, y2: int, c: int|
                        0 <= x2 < w && 0 <= c < 4 && (0 <= y2 < y || (y2 == y && 0 <= x2 < x))
                            ==> #[trigger] out@[rgba_offset(h as int, h - 1 - y2, x2, c)]
                            == rgba_at(p, w as int, x2, y2, c),
                decreases w - x,
            {
                proof {
                    lemma_offset_in_bounds(w as int, h as int, x as int, y as int, 0);
                    lemma_offset_in_bounds(h as int, w as int, (h - 1 - y) as int, x as int, 0);
                    assert(h * w * 4 == w * h * 4) by (nonlinear_arith);
                }
                let src = (y * w + x) * 4;
                let dst = (x * h + (h - 1 - y)) * 4;
                let ghost before = out@;
                copy_pixel(&mut out, dst, &self.pixels, src);
                proof {
                    assert forall|x2: int, y2: int, c: int|
                        0 <= x2 < w && 0 <= c < 4 && (0 <= y2 < y || (y2 == y && 0 <= x2 < x + 1))
                            implies #[trigger] out@[rgba_offset(h as int, h - 1 - y2, x2, c)]
                            == rgba_at(p, w as int, x2, y2, c) by {
                        let j = rgba_offset(h as int, h - 1 - y2, x2, c);
                        lemma_offset_in_bounds(h as int, w as int, h - 1 - y2, x2, c);
                        if dst <= j < dst + 4 {
                            lemma_offset_injective(
                                h as int,
                                h - 1 - y2,
                                x2,
                                c,
                                h - 1 - y,
                                x as int,
                                j - dst,
                            );
                        }
                    }
                }
                x = x + 1;
            }
            y = y + 1;
        }
        proof {
            let rp = rotated_cw_pixels(w as int, h as int, p);
            assert forall|i: int| 0 <= i < n implies out@[i] == rp[i] by {
                assert(h * w * 4 == w * h * 4) by (nonlinear_arith);
                lemma_offset_split(h as int, w as int, i);
                let nx = (i / 4) % (h as int);
                let ny = (i / 4) / (h as int);
                lemma_rotated_cw_at(w as int, h as int, p, ny, h - 1 - nx, i % 4);
            }
            assert(out@ =~= rp);
            assert(h * w * 4 == w * h * 4) by (nonlinear_arith);
        }
        DecodedImage { width: self.height, height: self.width, pixels: out }
    }
}

/// A `std::io::Error`, carried through unchanged.
#[verifier::external_type_specification]
#[verifier::external_body]
pub struct ExIoError(std::io::Error);

/// Why an image could not be turned into an RGBA8 buffer.
#[derive(Debug)]
pub enum Error {
    /// Reading the file failed (raised by the caller that reads it).
    Io(std::io::Error),
    /// The `image` crate could not decode the bytes.
    Decode(image::ImageError),
    /// The format is not decodable here.
    UnsupportedFormat(String),
}

/// The extension `ext` (if any) names HEIC/HEIF: it is `heic` or `heif` in
/// any ASCII case.
pub open spec fn is_heic_ext(ext: Option<Seq<char>>) -> bool {
    match ext {
        Some(e) => ascii_ci_eq(e, "heic"@) || ascii_ci_eq(e, "heif"@),
        None => false,
    }
}

/// The path names a HEIC/HEIF file.
pub open spec fn is_heic_path(path: Seq<char>) -> bool {
    is_heic_ext(path_extension_of(path))
}

/// Whether the file extension `ext` (if any) is `heic` or `heif`, in any
/// ASCII case.
pub fn extension_is_heic(ext: Option<&str>) -> (r: bool)
    ensures
        r == is_heic_ext(
            match ext {
                Some(e) => Some(e@),
                None => None,
            },
        ),
{
    match ext {
        Some(e) => eq_ignore_ascii_case(e, "heic") || eq_ignore_ascii_case(e, "heif"),
        None => false,
    }
}

/// Whether `path` has a `.heic` / `.heif` extension (any ASCII case).
pub fn is_heic_extension(path: &str) -> (r: bool)
    ensures
        r == is_heic_path(path@),
{
    match path_extension(path) {
        Some(e) => extension_is_heic(Some(e.as_str())),
        None => extension_is_heic(None),
    }
}

/// The message of the refusal of a HEIC/HEIF file in this build.
pub open spec fn heic_refusal() -> Seq<char> {
    "HEIC support not compiled in (rebuild with --features heic)"@
}

/// The message of the refusal of a decoder output whose buffer does not
/// hold exactly four bytes per pixel.
pub open spec fn wrong_size_refusal() -> Seq<char> {
    "decoded pixel buffer has the wrong size"@
}

/// The RGBA8 image the decoder's output stands for: width, height and at
/// least four bytes per pixel as the `image` crate hands them out. A buffer
/// of any other length is refused.
pub open spec fn image_from_decoded(w: u32, h: u32, p: Seq<u8>) -> Option<RgbaView> {
    if p.len() == w * h * 4 {
        Some(RgbaView { width: w as nat, height: h as nat, pixels: p })
    } else {
        None
    }
}

impl DecodedImage {
    /// The image for a decoder result: its error as `Error::Decode`, or the
    /// decoded width, height and bytes, which must hold exactly four bytes
    /// per pixel.
    pub fn from_decoded(decoded: Result<(u32, u32, Vec<u8>), image::ImageError>) -> (res: Result<
        DecodedImage,
        Error,
    >)
        ensures
            match decoded {
                Err(_) => res matches Err(Error::Decode(_)),
                Ok((w, h, p)) => match image_from_decoded(w, h, p@) {
                    Some(v) => res matches Ok(img) && img@ == v,
                    None => res matches Err(Error::UnsupportedFormat(m)) && m@ == wrong_size_refusal(),
                },
            },
    {
        match decoded {
            Err(e) => Err(Error::Decode(e)),
            Ok((w, h, pixels)) => {
                let expected = (w as u64).checked_mul(h as u64);
                let fits = match expected {
                    Some(wh) => match wh.checked_mul(4) {
                        Some(len) => pixels.len() as u64 == len,
                        None => false,
                    },
                    None => false,
                };
                proof {
                    assert(pixels@.len() == pixels.len());
                    assert(pixels.len() <= u64::MAX);
                    if !fits {
                        assert(pixels@.len() != w * h * 4);
                    }
                }
                if fits {
                    Ok(DecodedImage::from_raw(w, h, pixels))
                } else {
                    Err(Error::UnsupportedFormat("decoded pixel buffer has the wrong size".to_string()))
                }
            },
        }
    }
}

/// Decode the bytes of the image file at `path` into an owned RGBA8 buffer.
///
/// HEIC / HEIF (recognised by the extension) is not decodable in this build;
/// everything else goes to the `image` crate, which guesses the format from
/// the content. Its result is handed to `DecodedImage::from_decoded`, which
/// says what comes of each result.
pub fn decode_to_rgba(path: &str, bytes: &[u8]) -> (res: Result<DecodedImage, Error>)
    ensures
        is_heic_path(path@) ==> (res matches Err(Error::UnsupportedFormat(m)) && m@ == heic_refusal()),
        !is_heic_path(path@) ==> match res {
            Ok(img) => img@.pixels.len() == img@.width * img@.height * 4,
            Err(Error::Decode(_)) => true,
            Err(Error::UnsupportedFormat(m)) => m@ == wrong_size_refusal(),
            Err(Error::Io(_)) => false,
        },
{
    if is_heic_extension(path) {
        return Err(Error::UnsupportedFormat("HEIC support not compiled in (rebuild with --features heic)".to_string()));
    }
    DecodedImage::from_decoded(decode_rgba8(bytes))
}

/// A refusal that names a missing HEIC decoder comes only for a HEIC/HEIF
/// path: the two messages `decode_to_rgba` can refuse with differ.
pub proof fn lemma_refusals_differ()
    ensures
        heic_refusal() != wrong_size_refusal(),
{
    reveal_strlit("HEIC support not compiled in (rebuild with --features heic)");
    reveal_strlit("decoded pixel buffer has the wrong size");
    assert(heic_refusal()[0] != wrong_size_refusal()[0]);
}

} // verus!
