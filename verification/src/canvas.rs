//! Raw RGBA pictures: decoding and scaling the avatar and the logo, the
//! grey avatar fading to the right, the faded watermark, blending, and the
//! finished card encoded as PNG.

use vstd::prelude::*;
use image::ImageEncoder;

verus! {

/// `image::ImageError`, the error of the PNG encoder.
#[verifier::external_type_specification]
#[verifier::external_body]
pub struct ExImageError(image::ImageError);

/// A picture of `width` × `height` pixels, four bytes each (red, green,
/// blue, alpha), row by row from the top left.
pub struct PixelCanvas {
    width: u32,
    height: u32,
    rgba: Vec<u8>,
}

/// Why a picture or the font could not be read, or the card not encoded.
#[derive(Debug)]
pub enum CardError {
    /// The PNG encoder refused the picture.
    Png(image::ImageError),
    /// The bytes are not a picture the decoder reads.
    Decode(image::ImageError),
    /// The bytes are not a font the parser reads.
    Font(ab_glyph::InvalidFont),
}

/// Bytes a picture of `width` × `height` pixels holds.
pub open spec fn byte_len(width: int, height: int) -> int {
    width * height * 4
}

/// The alpha of a watermark pixel: fifteen percent of `a`, rounded down
/// (the same byte as `(a as f32 * 0.15) as u8` for every `a`).
pub open spec fn faded(a: u8) -> u8 {
    (a * 3 / 20) as u8
}

/// The name for what `PngEncoder::write_image` writes for an RGBA picture.
pub uninterp spec fn png_file(width: u32, height: u32, rgba: Seq<u8>) -> Seq<u8>;

/// The eight bytes every PNG file begins with.
pub open spec fn png_signature() -> Seq<u8> {
    seq![137u8, 80u8, 78u8, 71u8, 13u8, 10u8, 26u8, 10u8]
}

/// Calls `image::codecs::png::PngEncoder::write_image` on an RGBA picture
/// held in memory. Claims that it succeeds exactly when the picture is at
/// least one pixel wide and high (the `png` encoder refuses a zero width or
/// height and nothing else for eight-bit RGBA written to a `Vec`), that what
/// it writes is then `png_file` of the picture, and that it begins with the
/// PNG signature (written before anything else). The picture's byte count
/// must match its size, as the encoder asserts.
#[verifier::external_body]
fn write_png(width: u32, height: u32, rgba: &Vec<u8>) -> (r: Result<Vec<u8>, image::ImageError>)
    requires
        rgba@.len() == byte_len(width as int, height as int),
    ensures
        (width > 0 && height > 0) <==> r is Ok,
        r matches Ok(bytes) ==> bytes@ == png_file(width, height, rgba@),
        r matches Ok(bytes) ==> bytes@.len() >= 8 && bytes@.take(8) == png_signature(),
{
    let mut out: Vec<u8> = Vec::new();
    let written = image::codecs::png::PngEncoder::new(&mut out).write_image(
        rgba.as_slice(),
        width,
        height,
        image::ExtendedColorType::Rgba8,
    );
    match written {
        Ok(()) => Ok(out),
        Err(e) => Err(e),
    }
}

impl PixelCanvas {
    #[verifier::type_invariant]
    spec fn sized(&self) -> bool {
        self.rgba@.len() == byte_len(self.width as int, self.height as int)
    }

    /// Width in pixels.
    pub closed spec fn w(&self) -> u32 {
        self.width
    }

    /// Height in pixels.
    pub closed spec fn h(&self) -> u32 {
        self.height
    }

    /// The bytes, four per pixel.
    pub closed spec fn bytes(&self) -> Seq<u8> {
        self.rgba@
    }

    /// A canvas over `rgba` if it holds exactly four bytes for each of the
    /// `width` × `height` pixels.
    pub fn from_raw(width: u32, height: u32, rgba: Vec<u8>) -> (c: Option<PixelCanvas>)
        ensures
            c is Some <==> rgba@.len() == byte_len(width as int, height as int),
            c matches Some(c) ==> c.w() == width && c.h() == height && c.bytes() == rgba@,
    {
        assert(0 <= width * height <= 0x1_0000_0000_0000_0000) by (nonlinear_arith)
            requires
                width <= u32::MAX,
                height <= u32::MAX,
        ;
        let expected: u128 = (width as u128) * (height as u128) * 4;
        if expected == rgba.len() as u128 {
            Some(PixelCanvas { width, height, rgba })
        } else {
            None
        }
    }

    /// Width in pixels.
    pub fn width(&self) -> (w: u32)
        ensures
            w == self.w(),
    {
        self.width
    }

    /// Height in pixels.
    pub fn height(&self) -> (h: u32)
        ensures
            h == self.h(),
    {
        self.height
    }

    /// The bytes, four per pixel.
    pub fn into_raw(self) -> (v: Vec<u8>)
        ensures
            v@ == self.bytes(),
            v@.len() == byte_len(self.w() as int, self.h() as int),
    {
        proof {
            use_type_invariant(&self);
        }
        self.rgba
    }

    /// The watermark faded: every alpha byte cut to fifteen percent,
    /// colours unchanged.
    pub fn faded(&self) -> (c: PixelCanvas)
        ensures
            c.w() == self.w(),
            c.h() == self.h(),
            c.bytes().len() == self.bytes().len(),
            forall|i: int|
                0 <= i < c.bytes().len() ==> #[trigger] c.bytes()[i] == if i % 4 == 3 {
                    faded(self.bytes()[i])
                } else {
                    self.bytes()[i]
                },
    {
        proof {
            use_type_invariant(self);
        }
        let n: usize = self.rgba.len();
        let mut out: Vec<u8> = Vec::new();
        for i in 0..n
            invariant
                n == self.rgba@.len(),
                out@.len() == i,
                forall|j: int|
                    0 <= j < i ==> #[trigger] out@[j] == if j % 4 == 3 {
                        faded(self.rgba@[j])
                    } else {
                        self.rgba@[j]
                    },
        {
            let b: u8 = self.rgba[i];
            out.push(if i % 4 == 3 { faded_alpha(b) } else { b });
        }
        PixelCanvas { width: self.width, height: self.height, rgba: out }
    }

    /// The picture as a PNG file; only a picture without pixels is refused.
    pub fn encode_png(&self) -> (r: Result<Vec<u8>, CardError>)
        ensures
            r is Ok <==> self.w() > 0 && self.h() > 0,
            r matches Err(e) ==> e is Png,
            r matches Ok(bytes) ==> bytes@ == png_file(self.w(), self.h(), self.bytes()),
            r matches Ok(bytes) ==> bytes@.len() >= 8 && bytes@.take(8) == png_signature(),
    {
        proof {
            use_type_invariant(self);
        }
        match write_png(self.width, self.height, &self.rgba) {
            Ok(bytes) => Ok(bytes),
            Err(e) => Err(CardError::Png(e)),
        }
    }
}

// ---------------------------------------------------------------- avatar style

/// The grey of a colour: its luma with the Rec. 709 weights, rounded down.
pub open spec fn luma(r: u8, g: u8, b: u8) -> int {
    (2126 * r + 7152 * g + 722 * b) / 10000
}

/// Where the horizontal fade of a picture `w` pixels wide begins: two
/// fifths of the way across.
pub open spec fn fade_start(w: int) -> int {
    w * 2 / 5
}

/// The alpha at column `x` of a picture `w` wide after the fade: unchanged
/// left of `fade_start`, then falling in proportion to the distance left to
/// the right edge.
pub open spec fn edge_alpha(alpha: u8, x: int, w: int) -> int {
    if x < fade_start(w) {
        alpha as int
    } else {
        alpha * (w - x) / (w - fade_start(w))
    }
}

/// The byte at `i` of the styled avatar (`w` wide): the three colour bytes
/// of a pixel all become its grey, the alpha byte fades to the right.
pub open spec fn avatar_byte(bytes: Seq<u8>, w: int, i: int) -> int {
    let p = i / 4;
    if i % 4 == 3 {
        edge_alpha(bytes[i], p % w, w)
    } else {
        luma(bytes[4 * p], bytes[4 * p + 1], bytes[4 * p + 2])
    }
}

fn grey_of(r: u8, g: u8, b: u8) -> (y: u8)
    ensures
        y == luma(r, g, b),
{
    ((2126u32 * (r as u32) + 7152u32 * (g as u32) + 722u32 * (b as u32)) / 10000) as u8
}

fn fade_at(alpha: u8, x: u32, w: u32, start: u32) -> (a: u8)
    requires
        x < w,
        start == fade_start(w as int),
    ensures
        a == edge_alpha(alpha, x as int, w as int),
{
    if x < start {
        alpha
    } else {
        assert((alpha as int) * ((w - x) as int) <= 0xFF_FFFF_FFFF) by (nonlinear_arith)
            requires
                alpha <= 255,
                0 <= w - x <= 0xFFFF_FFFF,
        ;
        let num: u64 = (alpha as u64) * ((w - x) as u64);
        let den: u64 = (w - start) as u64;
        assert(num / den <= alpha) by (nonlinear_arith)
            requires
                num == alpha * (w - x),
                den == w - start,
                0 < w - x <= w - start,
        ;
        (num / den) as u8
    }
}

// ---------------------------------------------------------------- decoding, resizing, compositing

/// `image::DynamicImage`, a decoded picture in the colour type it was
/// stored in.
#[verifier::external_type_specification]
#[verifier::external_body]
pub struct ExDynamicImage(image::DynamicImage);

/// `image::imageops::FilterType`, the filter a picture is scaled with.
#[verifier::external_type_specification]
#[verifier::external_body]
pub struct ExFilterType(image::imageops::FilterType);

/// The filters a picture can be scaled with.
#[derive(Debug, Clone, Copy, PartialEq, Eq)]
pub enum ScaleFilter {
    Nearest,
    Triangle,
    CatmullRom,
    Gaussian,
    Lanczos3,
}

/// The name for the RGBA bytes of a `bw` × `bh` picture after
/// `image::imageops::overlay` blended the `tw` × `th` picture `top` onto it
/// with its top left corner at (`x`, `y`).
pub uninterp spec fn overlaid(
    bw: u32,
    bh: u32,
    bottom: Seq<u8>,
    tw: u32,
    th: u32,
    top: Seq<u8>,
    x: i64,
    y: i64,
) -> Seq<u8>;

/// The name for whether `image::load_from_memory` reads `bytes` as a
/// picture: it guesses the format from the first bytes and decodes with
/// that format's decoder, so the answer depends on the bytes alone.
pub uninterp spec fn decodes(bytes: Seq<u8>) -> bool;

/// Calls `image::load_from_memory`. Claims only that it succeeds exactly
/// when `decodes` holds of the bytes; nothing is claimed of the picture.
#[verifier::external_body]
fn load_picture(bytes: &[u8]) -> (r: Result<image::DynamicImage, image::ImageError>)
    ensures
        decodes(bytes@) <==> r is Ok,
{
    image::load_from_memory(bytes)
}

/// Whether `w` × `h` is a size that `DynamicImage::resize` can give for
/// the box `nw` × `nh` (both at least one): inside the box, at least one
/// pixel each way, and touching the box on one side, but for the single
/// pixel it gives a picture without pixels.
pub open spec fn fits_box(w: u32, h: u32, nw: u32, nh: u32) -> bool {
    &&& 1 <= w <= nw
    &&& 1 <= h <= nh
    &&& (w == nw || h == nh || (w == 1 && h == 1))
}

/// The `image` filter for a `ScaleFilter`, variant for variant.
#[verifier::external_body]
fn filter_type(f: ScaleFilter) -> (r: image::imageops::FilterType) {
    match f {
        ScaleFilter::Nearest => image::imageops::FilterType::Nearest,
        ScaleFilter::Triangle => image::imageops::FilterType::Triangle,
        ScaleFilter::CatmullRom => image::imageops::FilterType::CatmullRom,
        ScaleFilter::Gaussian => image::imageops::FilterType::Gaussian,
        ScaleFilter::Lanczos3 => image::imageops::FilterType::Lanczos3,
    }
}

/// Calls `DynamicImage::resize_exact` and converts the result to RGBA.
/// Claims only its size: four bytes for each of the `nw` × `nh` pixels (the
/// filters call `f32::sin`, whose precision std leaves open, so the bytes
/// themselves are not named).
#[verifier::external_body]
fn scale_exact_rgba(img: &image::DynamicImage, nw: u32, nh: u32, filter: image::imageops::FilterType) -> (r: Vec<u8>)
    requires
        byte_len(nw as int, nh as int) <= usize::MAX,
    ensures
        r@.len() == byte_len(nw as int, nh as int),
{
    img.resize_exact(nw, nh, filter).into_rgba8().into_raw()
}

/// Calls `image::imageops::resize` on an RGBA picture held in memory.
/// Claims the size of the result, four bytes for each of the `nw` × `nh`
/// pixels, and that a picture asked for at its own size comes back as it
/// is (`resize` copies it, or gives the same empty buffer when it has no
/// pixels). Otherwise the bytes are not named: the filters call `f32::sin`,
/// whose precision std leaves open.
#[verifier::external_body]
fn resize_rgba(w: u32, h: u32, rgba: &Vec<u8>, nw: u32, nh: u32, filter: image::imageops::FilterType) -> (r: Vec<u8>)
    requires
        rgba@.len() == byte_len(w as int, h as int),
        byte_len(nw as int, nh as int) <= usize::MAX,
    ensures
        r@.len() == byte_len(nw as int, nh as int),
        nw == w && nh == h ==> r@ == rgba@,
{
    let img = image::RgbaImage::from_raw(w, h, rgba.clone()).expect("four bytes per pixel");
    image::imageops::resize(&img, nw, nh, filter).into_raw()
}

/// Calls `DynamicImage::resize`, which keeps the picture's proportions, and
/// converts the result to RGBA. Claims that the bytes hold four for each
/// pixel of the size returned, and that for a box of at least one pixel
/// each way the size `fits_box`: `resize_dimensions` scales both sides by
/// the smaller of the two ratios, which gives the box's side exactly on
/// that axis, rounds, and takes at least one pixel; a picture already of
/// the box's size is kept as it is. The exact size on the other axis, a
/// rounding of `f64` arithmetic on the picture's own size, is not named.
#[verifier::external_body]
fn scale_within_rgba(img: &image::DynamicImage, nw: u32, nh: u32, filter: image::imageops::FilterType) -> (r: (u32, u32, Vec<u8>))
    ensures
        r.2@.len() == byte_len(r.0 as int, r.1 as int),
        nw >= 1 && nh >= 1 ==> fits_box(r.0, r.1, nw, nh),
{
    let out = img.resize(nw, nh, filter).into_rgba8();
    (out.width(), out.height(), out.into_raw())
}

/// Calls `image::imageops::overlay` on two RGBA pictures. Claims that it
/// gives `overlaid` of its arguments, the bottom picture's size unchanged.
#[verifier::external_body]
fn overlay_rgba(bw: u32, bh: u32, bottom: Vec<u8>, tw: u32, th: u32, top: &Vec<u8>, x: i64, y: i64) -> (r: Vec<u8>)
    requires
        bottom@.len() == byte_len(bw as int, bh as int),
        top@.len() == byte_len(tw as int, th as int),
    ensures
        r@ == overlaid(bw, bh, bottom@, tw, th, top@, x, y),
        r@.len() == bottom@.len(),
{
    let mut b = image::RgbaImage::from_raw(bw, bh, bottom).expect("four bytes per pixel");
    let t = image::RgbaImage::from_raw(tw, th, top.clone()).expect("four bytes per pixel");
    image::imageops::overlay(&mut b, &t, x, y);
    b.into_raw()
}

/// The byte at `i` of a picture filled with one colour.
pub open spec fn fill_byte(color: (u8, u8, u8, u8), i: int) -> u8 {
    if i % 4 == 0 {
        color.0
    } else if i % 4 == 1 {
        color.1
    } else if i % 4 == 2 {
        color.2
    } else {
        color.3
    }
}

impl PixelCanvas {
    /// A `width` × `height` picture of one colour (red, green, blue, alpha).
    pub fn filled(width: u32, height: u32, color: (u8, u8, u8, u8)) -> (c: PixelCanvas)
        requires
            byte_len(width as int, height as int) <= usize::MAX,
        ensures
            c.w() == width,
            c.h() == height,
            c.bytes().len() == byte_len(width as int, height as int),
            forall|i: int| 0 <= i < c.bytes().len() ==> #[trigger] c.bytes()[i] == fill_byte(color, i),
    {
        let n: usize = (width as usize) * (height as usize) * 4;
        let mut v: Vec<u8> = Vec::new();
        for i in 0..n
            invariant
                v@.len() == i,
                forall|j: int| 0 <= j < i ==> #[trigger] v@[j] == fill_byte(color, j),
        {
            let k: usize = i % 4;
            let b: u8 = if k == 0 {
                color.0
            } else if k == 1 {
                color.1
            } else if k == 2 {
                color.2
            } else {
                color.3
            };
            v.push(b);
        }
        PixelCanvas { width, height, rgba: v }
    }

    /// The avatar as the card shows it: every pixel grey, its alpha fading
    /// out towards the right edge.
    pub fn styled_avatar(&self) -> (c: PixelCanvas)
        ensures
            c.w() == self.w(),
            c.h() == self.h(),
            c.bytes().len() == self.bytes().len(),
            forall|i: int|
                0 <= i < c.bytes().len() ==> #[trigger] c.bytes()[i] == avatar_byte(
                    self.bytes(),
                    self.w() as int,
                    i,
                ),
    {
        proof {
            use_type_invariant(self);
        }
        let w: u32 = self.width;
        let h: u32 = self.height;
        let len: usize = self.rgba.len();
        assert(w * h <= usize::MAX) by (nonlinear_arith)
            requires
                w * h * 4 == len,
                len <= usize::MAX,
        ;
        let npix: usize = (w as usize) * (h as usize);
        assert(w > 0 || npix == 0) by (nonlinear_arith)
            requires
                npix == w * h,
        ;
        let start: u32 = ((w as u64) * 2 / 5) as u32;
        let mut out: Vec<u8> = Vec::new();
        let mut p: usize = 0;
        while p < npix
            invariant
                len == self.rgba@.len(),
                len == byte_len(w as int, h as int),
                w > 0 || npix == 0,
                npix == w * h,
                w == self.width,
                start == fade_start(w as int),
                p <= npix,
                out@.len() == 4 * p,
                forall|i: int|
                    0 <= i < 4 * p ==> #[trigger] out@[i] == avatar_byte(self.rgba@, w as int, i),
            decreases npix - p,
        {
            let x: usize = p % (w as usize);
            assert(0 <= x < w) by (nonlinear_arith)
                requires
                    x == (p as int) % (w as int),
                    w > 0,
            ;
            assert(4 * p + 3 < len) by (nonlinear_arith)
                requires
                    p < npix,
                    npix == w * h,
                    len == w * h * 4,
            ;
            let base: usize = 4 * p;
            let grey: u8 = grey_of(self.rgba[base], self.rgba[base + 1], self.rgba[base + 2]);
            let alpha: u8 = fade_at(self.rgba[base + 3], x as u32, w, start);
            out.push(grey);
            out.push(grey);
            out.push(grey);
            out.push(alpha);
            assert(base / 4 == p && (base + 1) / 4 == p && (base + 2) / 4 == p && (base + 3) / 4
                == p);
            assert forall|i: int| 0 <= i < 4 * (p + 1) implies #[trigger] out@[i] == avatar_byte(
                self.rgba@,
                w as int,
                i,
            ) by {
                if i >= 4 * p {
                    assert(i / 4 == p);
                }
            }
            p = p + 1;
        }
        PixelCanvas { width: w, height: h, rgba: out }
    }

    /// The same picture, held a second time.
    pub fn copied(&self) -> (c: PixelCanvas)
        ensures
            c.w() == self.w(),
            c.h() == self.h(),
            c.bytes() == self.bytes(),
    {
        proof {
            use_type_invariant(self);
        }
        let n: usize = self.rgba.len();
        let mut out: Vec<u8> = Vec::new();
        for i in 0..n
            invariant
                n == self.rgba@.len(),
                out@ == self.rgba@.take(i as int),
        {
            out.push(self.rgba[i]);
            assert(out@ =~= self.rgba@.take(i + 1));
        }
        assert(out@ =~= self.rgba@);
        PixelCanvas { width: self.width, height: self.height, rgba: out }
    }

    /// This picture scaled to `nw` × `nh` pixels with the Lanczos3 filter;
    /// asked for at its own size, it is the same picture.
    pub fn resized(&self, nw: u32, nh: u32) -> (c: PixelCanvas)
        requires
            byte_len(nw as int, nh as int) <= usize::MAX,
        ensures
            c.w() == nw,
            c.h() == nh,
            c.bytes().len() == byte_len(nw as int, nh as int),
            nw == self.w() && nh == self.h() ==> c.bytes() == self.bytes(),
    {
        proof {
            use_type_invariant(self);
        }
        let px = resize_rgba(self.width, self.height, &self.rgba, nw, nh, filter_type(ScaleFilter::Lanczos3));
        PixelCanvas { width: nw, height: nh, rgba: px }
    }

    /// `top` blended onto this picture with its top left corner at
    /// (`x`, `y`).
    pub fn overlay(self, top: &PixelCanvas, x: i64, y: i64) -> (c: PixelCanvas)
        ensures
            c.w() == self.w(),
            c.h() == self.h(),
            c.bytes() == overlaid(self.w(), self.h(), self.bytes(), top.w(), top.h(), top.bytes(), x, y),
    {
        proof {
            use_type_invariant(&self);
            use_type_invariant(top);
        }
        let w: u32 = self.width;
        let h: u32 = self.height;
        let bytes = overlay_rgba(w, h, self.rgba, top.width, top.height, &top.rgba, x, y);
        PixelCanvas { width: w, height: h, rgba: bytes }
    }
}

/// Every pixel of the styled avatar is grey: its red, green and blue are
/// one value.
pub proof fn lemma_avatar_is_grey(bytes: Seq<u8>, w: int, p: int)
    requires
        p >= 0,
    ensures
        avatar_byte(bytes, w, 4 * p) == avatar_byte(bytes, w, 4 * p + 1),
        avatar_byte(bytes, w, 4 * p + 1) == avatar_byte(bytes, w, 4 * p + 2),
{
    assert((4 * p) / 4 == p && (4 * p + 1) / 4 == p && (4 * p + 2) / 4 == p);
    assert((4 * p) % 4 == 0 && (4 * p + 1) % 4 == 1 && (4 * p + 2) % 4 == 2);
}

/// The fade never makes a pixel more opaque, leaves the left two fifths as
/// they were, and is monotone: further right, at the same opacity, never
/// more opaque.
pub proof fn lemma_fade_only_thins(alpha: u8, x: int, x2: int, w: int)
    requires
        0 <= x <= x2 < w,
    ensures
        edge_alpha(alpha, x, w) <= alpha,
        x < fade_start(w) ==> edge_alpha(alpha, x, w) == alpha,
        edge_alpha(alpha, x2, w) <= edge_alpha(alpha, x, w),
{
    let s = fade_start(w);
    assert(0 <= s < w) by (nonlinear_arith)
        requires
            s == w * 2 / 5,
            w > 0,
    ;
    if x >= s {
        assert(alpha * (w - x) / (w - s) <= alpha) by (nonlinear_arith)
            requires
                0 < w - x <= w - s,
                alpha >= 0,
        ;
        assert(alpha * (w - x2) / (w - s) <= alpha * (w - x) / (w - s)) by (nonlinear_arith)
            requires
                0 < w - x2 <= w - x,
                w - s > 0,
                alpha >= 0,
        ;
    } else if x2 >= s {
        assert(alpha * (w - x2) / (w - s) <= alpha) by (nonlinear_arith)
            requires
                0 < w - x2 <= w - s,
                alpha >= 0,
        ;
    }
}

// ---------------------------------------------------------------- the card's pictures

/// Side of the avatar on the card: the full height of the card.
pub const AVATAR_SIDE: u32 = 630;

/// Side of the box the watermark is fitted into.
pub const WATERMARK_BOX: u32 = 300;

/// Whether `out` is the styled form (`avatar_byte`, `w` wide) of `scaled`.
pub open spec fn styled_from(out: Seq<u8>, scaled: Seq<u8>, w: int) -> bool {
    &&& scaled.len() == out.len()
    &&& forall|i: int| 0 <= i < out.len() ==> #[trigger] out[i] == avatar_byte(scaled, w, i)
}

/// Whether `out` is `fitted` with every alpha byte faded to fifteen percent.
pub open spec fn faded_from(out: Seq<u8>, fitted: Seq<u8>) -> bool {
    &&& fitted.len() == out.len()
    &&& forall|i: int|
        0 <= i < out.len() ==> #[trigger] out[i] == if i % 4 == 3 {
            faded(fitted[i])
        } else {
            fitted[i]
        }
}

/// Side of the box the logo is fitted into as the card's icon.
pub const ICON_BOX: u32 = 48;

/// The avatar read from the fetched `bytes`: decoded, scaled to
/// `AVATAR_SIDE` square with the Lanczos3 filter, made grey and faded to the
/// right. It fails exactly where the decoder refuses the bytes; whatever
/// bytes the scaling gave, the result is their styled form.
pub fn avatar_from_bytes(bytes: &[u8]) -> (r: Result<PixelCanvas, CardError>)
    ensures
        r is Ok <==> decodes(bytes@),
        r matches Err(e) ==> e is Decode,
        r matches Ok(c) ==> {
            &&& c.w() == AVATAR_SIDE
            &&& c.h() == AVATAR_SIDE
            &&& c.bytes().len() == byte_len(AVATAR_SIDE as int, AVATAR_SIDE as int)
            &&& exists|scaled: Seq<u8>| #[trigger] styled_from(c.bytes(), scaled, AVATAR_SIDE as int)
        },
{
    match load_picture(bytes) {
        Ok(img) => {
            let scaled = scale_exact_rgba(&img, AVATAR_SIDE, AVATAR_SIDE, filter_type(ScaleFilter::Lanczos3));
            let c = PixelCanvas { width: AVATAR_SIDE, height: AVATAR_SIDE, rgba: scaled };
            let styled = c.styled_avatar();
            assert(styled_from(styled.bytes(), c.bytes(), AVATAR_SIDE as int));
            Ok(styled)
        },
        Err(e) => Err(CardError::Decode(e)),
    }
}

/// Whether the watermark is some fitted picture with its alpha faded.
pub open spec fn watermark_is_faded(l: LogoPictures) -> bool {
    exists|fitted: Seq<u8>| #[trigger] faded_from(l.watermark.bytes(), fitted)
}

/// Whether both pictures have the sizes the logo is fitted to: the
/// watermark in the `WATERMARK_BOX` square, the icon in the `ICON_BOX`
/// square, each with four bytes per pixel.
pub open spec fn logo_sizes(l: LogoPictures) -> bool {
    &&& fits_box(l.watermark.w(), l.watermark.h(), WATERMARK_BOX, WATERMARK_BOX)
    &&& fits_box(l.icon.w(), l.icon.h(), ICON_BOX, ICON_BOX)
    &&& l.watermark.bytes().len() == byte_len(l.watermark.w() as int, l.watermark.h() as int)
    &&& l.icon.bytes().len() == byte_len(l.icon.w() as int, l.icon.h() as int)
}

/// The two pictures made from the logo.
pub struct LogoPictures {
    pub watermark: PixelCanvas,
    pub icon: PixelCanvas,
}

/// The pictures made from the logo's `bytes`: the logo fitted with the
/// Lanczos3 filter into a `mark_box` square and faded to fifteen percent,
/// and fitted into an `icon_box` square as it is. A box shared by both is
/// fitted once. It fails exactly where the decoder refuses the bytes.
pub fn logo_pictures_in(bytes: &[u8], mark_box: u32, icon_box: u32) -> (r: Result<
    LogoPictures,
    CardError,
>)
    requires
        mark_box >= 1,
        icon_box >= 1,
    ensures
        r is Ok <==> decodes(bytes@),
        r matches Err(e) ==> e is Decode,
        r matches Ok(l) ==> {
            &&& watermark_is_faded(l)
            &&& fits_box(l.watermark.w(), l.watermark.h(), mark_box, mark_box)
            &&& fits_box(l.icon.w(), l.icon.h(), icon_box, icon_box)
            &&& l.watermark.bytes().len() == byte_len(l.watermark.w() as int, l.watermark.h() as int)
            &&& l.icon.bytes().len() == byte_len(l.icon.w() as int, l.icon.h() as int)
        },
        mark_box == icon_box ==> (r matches Ok(l) ==> {
            &&& l.watermark.w() == l.icon.w()
            &&& l.watermark.h() == l.icon.h()
            &&& faded_from(l.watermark.bytes(), l.icon.bytes())
        }),
{
    match load_picture(bytes) {
        Ok(img) => {
            let (iw, ih, ipx) = scale_within_rgba(&img, icon_box, icon_box, filter_type(ScaleFilter::Lanczos3));
            let icon = PixelCanvas { width: iw, height: ih, rgba: ipx };
            let fitted = if mark_box == icon_box {
                icon.copied()
            } else {
                let (w, h, px) = scale_within_rgba(&img, mark_box, mark_box, filter_type(ScaleFilter::Lanczos3));
                PixelCanvas { width: w, height: h, rgba: px }
            };
            let mark = fitted.faded();
            assert(faded_from(mark.bytes(), fitted.bytes()));
            let l = LogoPictures { watermark: mark, icon };
            assert(faded_from(l.watermark.bytes(), fitted.bytes()));
            assert(watermark_is_faded(l));
            proof {
                use_type_invariant(&l.watermark);
                use_type_invariant(&l.icon);
            }
            Ok(l)
        },
        Err(e) => Err(CardError::Decode(e)),
    }
}

/// The watermark and the icon made from the logo's `bytes`: the logo
/// fitted with the Lanczos3 filter into a `WATERMARK_BOX` square and faded
/// to fifteen percent, and fitted into an `ICON_BOX` square as it is
/// (`logo_pictures_in` with those boxes). It fails exactly where the
/// decoder refuses the bytes; whatever bytes the fitting gave, the
/// watermark is their faded form.
pub fn watermark_and_icon(bytes: &[u8]) -> (r: Result<LogoPictures, CardError>)
    ensures
        r is Ok <==> decodes(bytes@),
        r matches Err(e) ==> e is Decode,
        r matches Ok(l) ==> watermark_is_faded(l) && logo_sizes(l),
{
    logo_pictures_in(bytes, WATERMARK_BOX, ICON_BOX)
}

/// The finished card as a PNG file: a card of the card's size always
/// encodes.
pub fn card_png(card: &PixelCanvas) -> (bytes: Vec<u8>)
    requires
        card.w() > 0,
        card.h() > 0,
    ensures
        bytes@ == png_file(card.w(), card.h(), card.bytes()),
        bytes@.len() >= 8 && bytes@.take(8) == png_signature(),
{
    match card.encode_png() {
        Ok(b) => b,
        Err(_) => Vec::new(),
    }
}

/// Fifteen percent of an alpha value, rounded down: the watermark's opacity.
pub fn faded_alpha(a: u8) -> (r: u8)
    ensures
        r == faded(a),
{
    ((a as u16) * 3 / 20) as u8
}

/// An emoji's picture read from the fetched `bytes`: decoded and scaled to
/// `side` square with the Lanczos3 filter. It fails exactly where the
/// decoder refuses the bytes.
pub fn emoji_picture(bytes: &[u8], side: u32) -> (r: Result<PixelCanvas, CardError>)
    requires
        byte_len(side as int, side as int) <= usize::MAX,
    ensures
        r is Ok <==> decodes(bytes@),
        r matches Err(e) ==> e is Decode,
        r matches Ok(c) ==> c.w() == side && c.h() == side,
{
    match load_picture(bytes) {
        Ok(img) => {
            let px = scale_exact_rgba(&img, side, side, filter_type(ScaleFilter::Lanczos3));
            Ok(PixelCanvas { width: side, height: side, rgba: px })
        },
        Err(e) => Err(CardError::Decode(e)),
    }
}

} // verus!
