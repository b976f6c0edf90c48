use vstd::prelude::*;

use rayon::iter::{IntoParallelRefMutIterator, ParallelIterator};

use crate::buffer::{blank_of, BufV, ImageBuffer};
use crate::errors::SicImageEngineError;
use crate::image::{FrameV, ImgV, SicImage};
use crate::image::Frame;
use crate::wrapper::{overlay_of, overlay_onto, resize_buffer, resize_of, ImageFromPath};

verus! {

/// The height, in pixels, of the banner strip that the speech operation
/// composites above the image.
pub const BANNER_HEIGHT: u32 = 150;

/// Bytes of one composited frame: a fresh transparent base of `bw` by `bh`
/// pixels receives the `fw` by `fh` frame at row 150, then the pre-resized
/// banner (sized `bw` by 150) at the top.
pub open spec fn speech_composed(
    bw: int,
    bh: int,
    fw: int,
    fh: int,
    fdata: Seq<u8>,
    sdata: Seq<u8>,
) -> Seq<u8> {
    overlay_of(
        bw,
        bh,
        overlay_of(bw, bh, blank_of(bw, bh), fw, fh, fdata, 0, 150),
        bw,
        150,
        sdata,
        0,
        0,
    )
}

/// Which decoded banner images a resource can resolve to: a preloaded
/// resource resolves to exactly the buffer it holds; a path resource to
/// whatever well-formed image the decoder returns.
pub open spec fn resolves_to(p: ImageFromPath, s: BufV) -> bool {
    match p {
        ImageFromPath::Path(_) => s.wf(),
        ImageFromPath::Loaded(b) => s == b@ && b.wf(),
    }
}

/// The image has room for the banner: its canonical height (the first
/// frame's, for an animation) grows by 150 without leaving `u32`, the grown
/// buffer's byte count fits in memory, and an animation has at least one
/// frame to take the canonical size from.
pub open spec fn speech_fits(img: ImgV) -> bool {
    match img {
        ImgV::Static(b) => b.height + 150 <= u32::MAX && 4 * b.width * (b.height + 150)
            <= usize::MAX,
        ImgV::Animated(frames) => frames.len() > 0 && frames[0].buffer.height + 150 <= u32::MAX
            && 4 * frames[0].buffer.width * (frames[0].buffer.height + 150) <= usize::MAX,
    }
}

/// The image after the speech operation ran with the decoded banner `loaded`:
/// the banner is resized once to the canonical width by 150, then every
/// buffer (the single static one, or each frame against the first frame's
/// canonical size) is composited against that one shared banner. Frame order
/// and delays are preserved.
pub open spec fn speech_applied(img: ImgV, loaded: BufV) -> ImgV {
    match img {
        ImgV::Static(b) => {
            let sdata = resize_of(loaded.width, loaded.height, loaded.data, b.width, 150);
            ImgV::Static(
                BufV {
                    width: b.width,
                    height: b.height + 150,
                    data: speech_composed(b.width, b.height + 150, b.width, b.height, b.data, sdata),
                },
            )
        }
        ImgV::Animated(frames) => {
            let w0 = frames[0].buffer.width;
            let h0 = frames[0].buffer.height;
            let sdata = resize_of(loaded.width, loaded.height, loaded.data, w0, 150);
            ImgV::Animated(
                Seq::new(
                    frames.len(),
                    |i: int|
                        FrameV {
                            buffer: BufV {
                                width: w0,
                                height: h0 + 150,
                                data: speech_composed(
                                    w0,
                                    h0 + 150,
                                    frames[i].buffer.width,
                                    frames[i].buffer.height,
                                    frames[i].buffer.data,
                                    sdata,
                                ),
                            },
                            delay_num: frames[i].delay_num,
                            delay_den: frames[i].delay_den,
                        },
                ),
            )
        }
    }
}

/// Composites one frame: clones the shared base, pastes the frame at row
/// 150, then the shared banner at the top. The base and banner are only
/// read.
fn compose_speech_frame(fbuf: &ImageBuffer, base: &ImageBuffer, speech: &ImageBuffer) -> (r:
    ImageBuffer)
    requires
        fbuf.wf(),
        base.wf(),
        speech.wf(),
        speech@.width == base@.width,
        speech@.height == 150,
        base@.data == blank_of(base@.width, base@.height),
    ensures
        r@.width == base@.width,
        r@.height == base@.height,
        r@.data == speech_composed(
            base@.width,
            base@.height,
            fbuf@.width,
            fbuf@.height,
            fbuf@.data,
            speech@.data,
        ),
        r.wf(),
{
    let mut out = ImageBuffer { width: base.width, height: base.height, data: base.data.clone() };
    overlay_onto(&mut out, fbuf, 0, 150);
    overlay_onto(&mut out, speech, 0, 0);
    out
}

/// Relies on rayon's `par_iter_mut` and `for_each`: every frame's buffer is
/// replaced, in parallel, by the verified [`compose_speech_frame`] of that
/// buffer against the shared read-only base and banner; frame order and
/// delays are untouched. The closure only calls that verified function.
#[verifier::external_body]
fn par_compose_frames(frames: &mut Vec<Frame>, base: &ImageBuffer, speech: &ImageBuffer)
    requires
        forall|i: int| 0 <= i < old(frames)@.len() ==> (#[trigger] old(frames)@[i]).buffer.wf(),
        base.wf(),
        speech.wf(),
        speech@.width == base@.width,
        speech@.height == 150,
        base@.data == blank_of(base@.width, base@.height),
    ensures
        final(frames)@.len() == old(frames)@.len(),
        forall|i: int|
            0 <= i < final(frames)@.len() ==> {
                &&& (#[trigger] final(frames)@[i]).buffer.wf()
                &&& final(frames)@[i].buffer@ == (BufV {
                    width: base@.width,
                    height: base@.height,
                    data: speech_composed(
                        base@.width,
                        base@.height,
                        old(frames)@[i].buffer@.width,
                        old(frames)@[i].buffer@.height,
                        old(frames)@[i].buffer@.data,
                        speech@.data,
                    ),
                })
                &&& final(frames)@[i].delay_num == old(frames)@[i].delay_num
                &&& final(frames)@[i].delay_den == old(frames)@[i].delay_den
            },
{
    frames.par_iter_mut().for_each(|f| f.buffer = compose_speech_frame(&f.buffer, base, speech));
}

/// The speech-banner composite operation: pastes an auxiliary banner image,
/// resolved and resized once, above the image (or above every frame of an
/// animation).
pub struct Speech<'image> {
    pub path: &'image ImageFromPath,
}

impl<'image> Speech<'image> {
    pub fn new(path: &'image ImageFromPath) -> (s: Self)
        ensures
            s.path == path,
    {
        Self { path }
    }

    /// Applies the operation in place. The auxiliary banner is resolved
    /// exactly once per invocation; all frames are composited against that
    /// one resolved, pre-resized banner. On a resolution failure the image
    /// is unchanged and the resource error is returned; with a preloaded,
    /// well-formed resource success is guaranteed and the result is pinned
    /// exactly.
    #[verifier::rlimit(50)]
    pub fn apply_operation(&self, image: &mut SicImage) -> (r: Result<(), SicImageEngineError>)
        requires
            old(image).wf(),
            speech_fits(old(image)@),
        ensures
            r is Ok ==> exists|s: BufV| #[trigger] resolves_to(*self.path, s) && final(image)@
                == speech_applied(old(image)@, s),
            self.path is Loaded && self.path->Loaded_0.wf() ==> r is Ok && final(image)@
                == speech_applied(old(image)@, self.path->Loaded_0@),
            r is Err ==> final(image)@ == old(image)@ && r->Err_0
                == SicImageEngineError::LoadImageFromPath,
            r is Err ==> !(self.path is Loaded && self.path->Loaded_0.wf()),
            final(image).wf(),
    {
        let mut work = SicImage::Static(ImageBuffer { width: 0, height: 0, data: Vec::new() });
        core::mem::swap(image, &mut work);
        match work {
            SicImage::Static(b) => {
                let loaded = match self.path.open_image() {
                    Ok(l) => l,
                    Err(e) => {
                        *image = SicImage::Static(b);
                        return Err(e);
                    }
                };
                let banner = resize_buffer(&loaded, b.width, BANNER_HEIGHT);
                let base = ImageBuffer::blank(b.width, b.height + BANNER_HEIGHT);
                let composed = compose_speech_frame(&b, &base, &banner);
                proof {
                    assert(resolves_to(*self.path, loaded@));
                    assert(composed@ == speech_applied(old(image)@, loaded@)->Static_0);
                }
                *image = SicImage::Static(composed);
                Ok(())
            }
            SicImage::Animated(mut frames) => {
                let ghost fv = Seq::new(frames@.len(), |k: int| frames@[k]@);
                proof {
                    assert(old(image)@ == ImgV::Animated(fv));
                    let frames_v = old(image)@->Animated_0;
                    assert(forall|k: int|
                        0 <= k < frames_v.len() ==> (#[trigger] frames_v[k]).wf());
                    assert(frames_v == fv);
                    assert forall|k: int|
                        0 <= k < frames@.len() implies (#[trigger] frames@[k]).buffer.wf() by {
                        assert(fv[k] == frames@[k]@);
                        assert(frames_v[k].wf());
                    }
                }
                let loaded = match self.path.open_image() {
                    Ok(l) => l,
                    Err(e) => {
                        let restored = SicImage::Animated(frames);
                        proof {
                            assert(restored@ == old(image)@);
                        }
                        *image = restored;
                        return Err(e);
                    }
                };
                let w0 = frames[0].buffer.width;
                let h0 = frames[0].buffer.height;
                proof {
                    assert(fv[0] == frames@[0]@);
                }
                let banner = resize_buffer(&loaded, w0, BANNER_HEIGHT);
                let base = ImageBuffer::blank(w0, h0 + BANNER_HEIGHT);
                let ghost pre = frames@;
                par_compose_frames(&mut frames, &base, &banner);
                let result_img = SicImage::Animated(frames);
                proof {
                    assert(resolves_to(*self.path, loaded@));
                    let outv = result_img@->Animated_0;
                    let specv = speech_applied(old(image)@, loaded@)->Animated_0;
                    assert(forall|k: int| 0 <= k < pre.len() ==> (#[trigger] fv[k]) == pre[k]@);
                    assert(outv =~= specv);
                    assert(result_img@ == speech_applied(old(image)@, loaded@));
                    assert forall|k: int| 0 <= k < outv.len() implies (#[trigger] outv[k]).wf() by {
                        assert(outv[k].buffer == result_img->Animated_0@[k].buffer@);
                    }
                    assert(result_img@.wf());
                }
                *image = result_img;
                Ok(())
            }
        }
    }
}

} // verus!
