use vstd::prelude::*;

use crate::buffer::{crop_of, flip_h_of, flip_v_of, ImageBuffer};
use crate::errors::SicImageEngineError;

verus! {

/// Bytes that a Gaussian blur with flattening level `sigma` makes of a
/// `w` by `h` buffer holding `data`. The result depends on the arguments
/// alone; its exact values are the imaging library's business.
pub uninterp spec fn blur_of(w: int, h: int, data: Seq<u8>, sigma: u32) -> Seq<u8>;

/// Bytes of a `w` by `h` buffer holding `data`, resampled to `nw` by `nh`
/// pixels with nearest-neighbour filtering. A function of the arguments alone.
pub uninterp spec fn resize_of(w: int, h: int, data: Seq<u8>, nw: int, nh: int) -> Seq<u8>;

/// Bytes of a `bw` by `bh` bottom buffer after the `tw` by `th` top buffer
/// was alpha-blended onto it with its top left pixel at `(x, y)`, clipped to
/// the bottom buffer's bounds. A function of the arguments alone.
pub uninterp spec fn overlay_of(
    bw: int,
    bh: int,
    bottom: Seq<u8>,
    tw: int,
    th: int,
    top: Seq<u8>,
    x: int,
    y: int,
) -> Seq<u8>;

/// Relies on `image::imageops::blur` (through `sic_core`'s re-export):
/// a Gaussian blur keeps the image's dimensions.
#[verifier::external_body]
pub(crate) fn blur_buffer(src: &ImageBuffer, sigma: u32) -> (r: ImageBuffer)
    requires
        src.wf(),
    ensures
        r@.width == src@.width,
        r@.height == src@.height,
        r@.data == blur_of(src@.width, src@.height, src@.data, sigma),
        r.wf(),
{
    let img = sic_core::image::RgbaImage::from_raw(src.width, src.height, src.data.clone()).unwrap();
    let out = sic_core::image::imageops::blur(&img, sigma as _);
    ImageBuffer { width: src.width, height: src.height, data: out.into_raw() }
}

/// Relies on `image::imageops::flip_horizontal` (through `sic_core`'s
/// re-export): it writes the pixel read at column `x` to column `w - 1 - x`
/// of the same row, keeping the dimensions.
#[verifier::external_body]
pub(crate) fn flip_horizontal_buffer(src: &ImageBuffer) -> (r: ImageBuffer)
    requires
        src.wf(),
    ensures
        r@.width == src@.width,
        r@.height == src@.height,
        r@.data == flip_h_of(src@.width, src@.height, src@.data),
        r.wf(),
{
    let img = sic_core::image::RgbaImage::from_raw(src.width, src.height, src.data.clone()).unwrap();
    let out = sic_core::image::imageops::flip_horizontal(&img);
    ImageBuffer { width: src.width, height: src.height, data: out.into_raw() }
}

/// Relies on `image::imageops::flip_vertical` (through `sic_core`'s
/// re-export): it writes the pixel read at row `y` to row `h - 1 - y` of the
/// same column, keeping the dimensions.
#[verifier::external_body]
pub(crate) fn flip_vertical_buffer(src: &ImageBuffer) -> (r: ImageBuffer)
    requires
        src.wf(),
    ensures
        r@.width == src@.width,
        r@.height == src@.height,
        r@.data == flip_v_of(src@.width, src@.height, src@.data),
        r.wf(),
{
    let img = sic_core::image::RgbaImage::from_raw(src.width, src.height, src.data.clone()).unwrap();
    let out = sic_core::image::imageops::flip_vertical(&img);
    ImageBuffer { width: src.width, height: src.height, data: out.into_raw() }
}

/// Relies on `image::imageops::resize` (through `sic_core`'s re-export) with
/// nearest-neighbour filtering: the result has exactly the requested
/// dimensions, whatever the source holds.
#[verifier::external_body]
pub(crate) fn resize_buffer(src: &ImageBuffer, nw: u32, nh: u32) -> (r: ImageBuffer)
    requires
        src.wf(),
    ensures
        r@.width == nw as int,
        r@.height == nh as int,
        r@.data == resize_of(src@.width, src@.height, src@.data, nw as int, nh as int),
        r.wf(),
{
    let img = sic_core::image::RgbaImage::from_raw(src.width, src.height, src.data.clone()).unwrap();
    let out = sic_core::image::imageops::resize(&img, nw, nh, sic_core::image::imageops::FilterType::Nearest);
    ImageBuffer { width: nw, height: nh, data: out.into_raw() }
}

/// Relies on `image::imageops::crop_imm` and `SubImage::to_image` (through
/// `sic_core`'s re-export): for a selection that lies inside the source, the
/// result is exactly that subrectangle, pixel for pixel.
#[verifier::external_body]
pub(crate) fn crop_buffer(src: &ImageBuffer, cx: u32, cy: u32, cw: u32, ch: u32) -> (r: ImageBuffer)
    requires
        src.wf(),
        cx + cw <= src@.width,
        cy + ch <= src@.height,
    ensures
        r@.width == cw as int,
        r@.height == ch as int,
        r@.data == crop_of(src@.width, src@.data, cx as int, cy as int, cw as int, ch as int),
        r.wf(),
{
    let img = sic_core::image::RgbaImage::from_raw(src.width, src.height, src.data.clone()).unwrap();
    let out = sic_core::image::imageops::crop_imm(&img, cx, cy, cw, ch).to_image();
    ImageBuffer { width: cw, height: ch, data: out.into_raw() }
}

/// Relies on `image::imageops::overlay` (through `sic_core`'s re-export):
/// it blends the top buffer onto the bottom one in place, clipped to the
/// bottom buffer's bounds, and never changes the bottom buffer's dimensions.
#[verifier::external_body]
pub(crate) fn overlay_onto(base: &mut ImageBuffer, top: &ImageBuffer, x: i64, y: i64)
    requires
        old(base).wf(),
        top.wf(),
    ensures
        final(base)@.width == old(base)@.width,
        final(base)@.height == old(base)@.height,
        final(base)@.data == overlay_of(
            old(base)@.width,
            old(base)@.height,
            old(base)@.data,
            top@.width,
            top@.height,
            top@.data,
            x as int,
            y as int,
        ),
        final(base).wf(),
{
    let mut b = sic_core::image::RgbaImage::from_raw(base.width, base.height, std::mem::take(&mut base.data)).unwrap();
    let t = sic_core::image::RgbaImage::from_raw(top.width, top.height, top.data.clone()).unwrap();
    sic_core::image::imageops::overlay(&mut b, &t, x, y);
    base.data = b.into_raw();
}

/// Relies on `image::open` and `DynamicImage::to_rgba8` (through `sic_core`'s
/// re-export): decoding may fail for reasons outside this crate, but a decoded
/// image always comes back as a well-formed RGBA buffer.
#[verifier::external_body]
pub(crate) fn decode_from_disk(path: &String) -> (r: Result<ImageBuffer, SicImageEngineError>)
    ensures
        r is Ok ==> r->Ok_0.wf(),
{
    match sic_core::image::open(path) {
        Ok(decoded) => {
            let b = decoded.to_rgba8();
            let (w, h) = b.dimensions();
            Ok(ImageBuffer { width: w, height: h, data: b.into_raw() })
        }
        Err(_) => Err(SicImageEngineError::LoadImageFromPath),
    }
}

/// An auxiliary image resource for composite operations. The expensive decode
/// is deferred until [`ImageFromPath::open_image`] is called; callers resolve
/// it once per operation invocation and share the result across frames.
pub enum ImageFromPath {
    /// Decode the image from this filesystem path when resolved.
    Path(String),
    /// An image already held in memory; resolving never touches the disk.
    Loaded(ImageBuffer),
}

impl ImageFromPath {
    /// Performs the deferred load. A `Loaded` resource resolves to exactly the
    /// buffer it holds, provided that buffer is well formed; a `Path` resource
    /// resolves to whatever the decoder makes of the file, which is well
    /// formed whenever decoding succeeds.
    pub fn open_image(&self) -> (r: Result<ImageBuffer, SicImageEngineError>)
        ensures
            r is Ok ==> r->Ok_0.wf(),
            self is Loaded && self->Loaded_0.wf() ==> r is Ok && r->Ok_0@ == self->Loaded_0@,
            self is Loaded && !self->Loaded_0.wf() ==> r is Err,
            r is Err ==> r->Err_0 == SicImageEngineError::LoadImageFromPath,
    {
        match self {
            ImageFromPath::Path(p) => match decode_from_disk(p) {
                Ok(b) => Ok(b),
                Err(_) => Err(SicImageEngineError::LoadImageFromPath),
            },
            ImageFromPath::Loaded(b) => {
                let n: usize = b.data.len();
                proof {
                    assert((b.width as int) * (b.height as int) >= 0
                        && (b.width as int) * (b.height as int) <= 0xffff_ffff * 0xffff_ffff
                        && 4 * ((b.width as int) * (b.height as int))
                            == 4 * (b.width as int) * (b.height as int)) by (nonlinear_arith)
                        requires
                            0 <= b.width as int <= 0xffff_ffff,
                            0 <= b.height as int <= 0xffff_ffff,
                    ;
                }
                let wh: u64 = (b.width as u64) * (b.height as u64);
                if wh <= (usize::MAX as u64) / 4 && (n as u64) == wh * 4 {
                    Ok(ImageBuffer { width: b.width, height: b.height, data: b.data.clone() })
                } else {
                    Err(SicImageEngineError::LoadImageFromPath)
                }
            }
        }
    }
}

} // verus!
