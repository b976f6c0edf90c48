use vstd::prelude::*;

use rayon::iter::{IntoParallelRefIterator, ParallelIterator};

use crate::buffer::{crop_of, flip_h_of, flip_v_of, BufV, ImageBuffer};
use crate::errors::SicImageEngineError;
use crate::image::{Frame, FrameV, ImgV, SicImage};
use crate::parser::Operation;
use crate::wrapper::{
    blur_buffer, blur_of, crop_buffer, flip_horizontal_buffer, flip_vertical_buffer,
    resize_buffer, resize_of,
};

verus! {

/// A crop selection is applicable when it is not empty and lies inside the
/// buffer's bounds.
pub open spec fn crop_valid(b: BufV, x: int, y: int, w: int, h: int) -> bool {
    w > 0 && h > 0 && x + w <= b.width && y + h <= b.height
}

/// What one operation makes of one pixel buffer: the transformed buffer, or
/// the application error for parameters that do not apply to it. Every
/// operation's effect is defined once, per buffer; both image representations
/// dispatch to this.
pub open spec fn apply_buffer_spec(op: Operation, b: BufV) -> Result<BufV, SicImageEngineError> {
    match op {
        Operation::Blur(sigma) => Ok(
            BufV { width: b.width, height: b.height, data: blur_of(b.width, b.height, b.data, sigma) },
        ),
        Operation::FlipHorizontal => Ok(
            BufV { width: b.width, height: b.height, data: flip_h_of(b.width, b.height, b.data) },
        ),
        Operation::FlipVertical => Ok(
            BufV { width: b.width, height: b.height, data: flip_v_of(b.width, b.height, b.data) },
        ),
        Operation::Resize(w, h) => Ok(
            BufV {
                width: w as int,
                height: h as int,
                data: resize_of(b.width, b.height, b.data, w as int, h as int),
            },
        ),
        Operation::Crop(x, y, w, h) => if crop_valid(b, x as int, y as int, w as int, h as int) {
            Ok(
                BufV {
                    width: w as int,
                    height: h as int,
                    data: crop_of(b.width, b.data, x as int, y as int, w as int, h as int),
                },
            )
        } else {
            Err(SicImageEngineError::CropOutOfBounds)
        },
    }
}

/// What one operation makes of a frame sequence: every frame's buffer
/// transformed, frame order and delays preserved; or the error of the first
/// frame the operation does not apply to, with no frame changed.
pub open spec fn apply_frames_spec(op: Operation, frames: Seq<FrameV>) -> Result<
    Seq<FrameV>,
    SicImageEngineError,
>
    decreases frames.len(),
{
    if frames.len() == 0 {
        Ok(Seq::empty())
    } else {
        match apply_buffer_spec(op, frames[0].buffer) {
            Ok(b) => match apply_frames_spec(op, frames.drop_first()) {
                Ok(rest) => Ok(
                    seq![
                        FrameV {
                            buffer: b,
                            delay_num: frames[0].delay_num,
                            delay_den: frames[0].delay_den,
                        },
                    ] + rest,
                ),
                Err(e) => Err(e),
            },
            Err(e) => Err(e),
        }
    }
}

/// What one operation makes of an image: a static image's single buffer is
/// transformed once; an animated image has the same per-buffer transformation
/// applied to every frame. Either all frames are updated or the operation
/// fails as a whole.
pub open spec fn apply_image_spec(op: Operation, img: ImgV) -> Result<ImgV, SicImageEngineError> {
    match img {
        ImgV::Static(b) => match apply_buffer_spec(op, b) {
            Ok(nb) => Ok(ImgV::Static(nb)),
            Err(e) => Err(e),
        },
        ImgV::Animated(frames) => match apply_frames_spec(op, frames) {
            Ok(nf) => Ok(ImgV::Animated(nf)),
            Err(e) => Err(e),
        },
    }
}

/// When the operation applies to every frame, the per-frame fan-out succeeds
/// and transforms each frame's buffer while keeping its delay.
pub proof fn lemma_apply_frames_ok(op: Operation, frames: Seq<FrameV>)
    requires
        forall|i: int|
            0 <= i < frames.len() ==> apply_buffer_spec(op, (#[trigger] frames[i]).buffer) is Ok,
    ensures
        apply_frames_spec(op, frames) is Ok,
        apply_frames_spec(op, frames)->Ok_0.len() == frames.len(),
        forall|i: int|
            0 <= i < frames.len() ==> (#[trigger] apply_frames_spec(op, frames)->Ok_0[i])
                == (FrameV {
                buffer: apply_buffer_spec(op, frames[i].buffer)->Ok_0,
                delay_num: frames[i].delay_num,
                delay_den: frames[i].delay_den,
            }),
    decreases frames.len(),
{
    if frames.len() > 0 {
        let rest = frames.drop_first();
        assert(forall|i: int| 0 <= i < rest.len() ==> (#[trigger] rest[i]) == frames[i + 1]);
        lemma_apply_frames_ok(op, rest);
    }
}

/// When the operation does not apply to frame `k` but applies to every frame
/// before it, the fan-out fails with exactly frame `k`'s error.
pub proof fn lemma_apply_frames_err(op: Operation, frames: Seq<FrameV>, k: int)
    requires
        0 <= k < frames.len(),
        apply_buffer_spec(op, frames[k].buffer) is Err,
        forall|j: int|
            0 <= j < k ==> apply_buffer_spec(op, (#[trigger] frames[j]).buffer) is Ok,
    ensures
        apply_frames_spec(op, frames) == Err::<Seq<FrameV>, SicImageEngineError>(
            apply_buffer_spec(op, frames[k].buffer)->Err_0,
        ),
    decreases k,
{
    let rest = frames.drop_first();
    assert(forall|i: int| 0 <= i < rest.len() ==> (#[trigger] rest[i]) == frames[i + 1]);
    if k > 0 {
        lemma_apply_frames_err(op, rest, k - 1);
    }
}

/// A fan-out that succeeded had the operation apply to every frame.
pub proof fn lemma_apply_frames_ok_converse(op: Operation, frames: Seq<FrameV>)
    requires
        apply_frames_spec(op, frames) is Ok,
    ensures
        forall|i: int|
            0 <= i < frames.len() ==> apply_buffer_spec(op, (#[trigger] frames[i]).buffer) is Ok,
    decreases frames.len(),
{
    if frames.len() > 0 {
        let rest = frames.drop_first();
        assert(forall|i: int| 0 <= i < rest.len() ==> (#[trigger] rest[i]) == frames[i + 1]);
        lemma_apply_frames_ok_converse(op, rest);
        assert(forall|i: int|
            1 <= i < frames.len() ==> apply_buffer_spec(
                op,
                (#[trigger] frames[i]).buffer,
            ) == apply_buffer_spec(op, rest[i - 1].buffer));
    }
}

/// Agreement between an executable per-buffer outcome and its specification.
pub open spec fn res_agrees(
    r: Result<ImageBuffer, SicImageEngineError>,
    s: Result<BufV, SicImageEngineError>,
) -> bool {
    match r {
        Ok(b) => s is Ok && b@ == s->Ok_0 && b.wf(),
        Err(e) => s is Err && e == s->Err_0,
    }
}

/// Applies one operation to one pixel buffer, exactly as
/// [`apply_buffer_spec`] says.
pub fn apply_to_buffer(op: &Operation, b: &ImageBuffer) -> (r: Result<
    ImageBuffer,
    SicImageEngineError,
>)
    requires
        b.wf(),
    ensures
        res_agrees(r, apply_buffer_spec(*op, b@)),
{
    match op {
        Operation::Blur(sigma) => Ok(blur_buffer(b, *sigma)),
        Operation::FlipHorizontal => Ok(flip_horizontal_buffer(b)),
        Operation::FlipVertical => Ok(flip_vertical_buffer(b)),
        Operation::Resize(w, h) => Ok(resize_buffer(b, *w, *h)),
        Operation::Crop(x, y, w, h) => {
            let fits = (*x as u64) + (*w as u64) <= (b.width as u64) && (*y as u64) + (*h as u64)
                <= (b.height as u64);
            if *w > 0 && *h > 0 && fits {
                Ok(crop_buffer(b, *x, *y, *w, *h))
            } else {
                Err(SicImageEngineError::CropOutOfBounds)
            }
        }
    }
}

/// Relies on rayon's `par_iter`, `map` and `collect`: the frame-local
/// operation is applied to every frame's buffer in parallel, one outcome per
/// frame, in frame order; each closure call only invokes the verified
/// [`apply_to_buffer`]. No shared state is touched during the fan-out.
#[verifier::external_body]
fn par_apply_frames(op: &Operation, frames: &Vec<Frame>) -> (out: Vec<
    Result<ImageBuffer, SicImageEngineError>,
>)
    requires
        forall|i: int| 0 <= i < frames@.len() ==> (#[trigger] frames@[i]).buffer.wf(),
    ensures
        out@.len() == frames@.len(),
        forall|i: int|
            0 <= i < out@.len() ==> res_agrees(
                #[trigger] out@[i],
                apply_buffer_spec(*op, frames@[i].buffer@),
            ),
{
    frames.par_iter().map(|f| apply_to_buffer(op, &f.buffer)).collect()
}

/// Applies one operation to the image in place. A static image's buffer is
/// transformed once; an animated image has every frame transformed, in
/// parallel, into a fresh frame sequence that replaces the old one only when
/// every frame succeeded — on failure the image is left unchanged and the
/// error of the first inapplicable frame is returned.
#[verifier::rlimit(50)]
pub fn apply_operation(op: &Operation, image: &mut SicImage) -> (r: Result<
    (),
    SicImageEngineError,
>)
    requires
        old(image).wf(),
    ensures
        (r is Ok) == (apply_image_spec(*op, old(image)@) is Ok),
        r is Ok ==> final(image)@ == apply_image_spec(*op, old(image)@)->Ok_0,
        r is Err ==> final(image)@ == old(image)@ && r->Err_0 == apply_image_spec(
            *op,
            old(image)@,
        )->Err_0,
        final(image).wf(),
{
    let mut work = SicImage::Static(ImageBuffer { width: 0, height: 0, data: Vec::new() });
    core::mem::swap(image, &mut work);
    match work {
        SicImage::Static(b) => match apply_to_buffer(op, &b) {
            Ok(nb) => {
                proof {
                    assert(nb@.wf());
                }
                *image = SicImage::Static(nb);
                Ok(())
            }
            Err(e) => {
                *image = SicImage::Static(b);
                Err(e)
            }
        },
        SicImage::Animated(frames) => {
            let ghost fv = Seq::new(frames@.len(), |k: int| frames@[k]@);
            proof {
                assert(old(image)@ == ImgV::Animated(fv));
                let frames_v = old(image)@->Animated_0;
                assert(forall|k: int|
                    0 <= k < frames_v.len() ==> (#[trigger] frames_v[k]).wf());
                assert(frames_v == fv);
                assert forall|k: int|
                    0 <= k < frames@.len() implies (#[trigger] frames@[k]).buffer.wf() by {
                    assert(fv[k] == frames@[k]@);
                    assert(frames_v[k].wf());
                }
            }
            let mut results = par_apply_frames(op, &frames);
            let ghost all_results = results@;
            let n = frames.len();
            let mut new_frames: Vec<Frame> = Vec::new();
            let mut i: usize = 0;
            while i < n
                invariant
                    i <= n,
                    n == frames@.len(),
                    fv == Seq::new(frames@.len(), |k: int| frames@[k]@),
                    ImgV::Animated(fv) == old(image)@,
                    old(image).wf(),
                    all_results.len() == n,
                    results@ == all_results.skip(i as int),
                    forall|k: int|
                        0 <= k < n ==> res_agrees(
                            #[trigger] all_results[k],
                            apply_buffer_spec(*op, frames@[k].buffer@),
                        ),
                    forall|k: int|
                        0 <= k < i ==> apply_buffer_spec(
                            *op,
                            (#[trigger] frames@[k]).buffer@,
                        ) is Ok,
                    new_frames@.len() == i,
                    forall|k: int|
                        0 <= k < i ==> (#[trigger] new_frames@[k]).buffer.wf()
                            && new_frames@[k].buffer@ == apply_buffer_spec(
                            *op,
                            frames@[k].buffer@,
                        )->Ok_0 && new_frames@[k].delay_num == frames@[k].delay_num
                            && new_frames@[k].delay_den == frames@[k].delay_den,
                decreases n - i,
            {
                proof {
                    assert(all_results.skip(i as int)[0] == all_results[i as int]);
                    assert(all_results.skip(i as int).remove(0) =~= all_results.skip(i as int + 1));
                }
                let r0 = results.remove(0);
                match r0 {
                    Ok(buf) => {
                        let d_num = frames[i].delay_num;
                        let d_den = frames[i].delay_den;
                        new_frames.push(Frame { buffer: buf, delay_num: d_num, delay_den: d_den });
                    }
                    Err(e) => {
                        proof {
                            assert(forall|k: int|
                                0 <= k < n ==> (#[trigger] fv[k]).buffer == frames@[k].buffer@);
                            assert(apply_buffer_spec(*op, fv[i as int].buffer) is Err);
                            lemma_apply_frames_err(*op, fv, i as int);
                            assert(apply_image_spec(*op, old(image)@) == Err::<
                                ImgV,
                                SicImageEngineError,
                            >(e));
                        }
                        let restored = SicImage::Animated(frames);
                        proof {
                            assert(restored@ == old(image)@);
                        }
                        *image = restored;
                        return Err(e);
                    }
                }
                i = i + 1;
            }
            let ghost nf = new_frames@;
            proof {
                assert(forall|k: int|
                    0 <= k < n ==> (#[trigger] fv[k]).buffer == frames@[k].buffer@
                        && fv[k].delay_num == frames@[k].delay_num as int && fv[k].delay_den
                        == frames@[k].delay_den as int);
                lemma_apply_frames_ok(*op, fv);
            }
            let result_img = SicImage::Animated(new_frames);
            proof {
                let outv = result_img@->Animated_0;
                assert(outv =~= Seq::new(nf.len(), |k: int| nf[k]@));
                assert(outv =~= apply_frames_spec(*op, fv)->Ok_0);
                assert(apply_image_spec(*op, old(image)@) == Ok::<ImgV, SicImageEngineError>(
                    ImgV::Animated(apply_frames_spec(*op, fv)->Ok_0),
                ));
                assert(result_img@ == apply_image_spec(*op, old(image)@)->Ok_0);
                assert forall|k: int| 0 <= k < outv.len() implies (#[trigger] outv[k]).wf() by {
                    assert(outv[k] == nf[k]@);
                    assert(nf[k].buffer.wf());
                }
                assert(result_img@.wf());
            }
            *image = result_img;
            Ok(())
        }
    }
}


/// Outcome of a whole pipeline run: the final image, or the index of the
/// first failing operation, its error, and the image as it stood when that
/// operation failed.
pub enum RunResultV {
    Completed(ImgV),
    Failed(int, SicImageEngineError, ImgV),
}

/// The pipeline semantics: a fold of the operations over the image, in the
/// given order, that stops at the first failure. On failure the image holds
/// the cumulative effect of exactly the operations before the failing one;
/// no later operation contributes anything.
pub open spec fn run_spec(ops: Seq<Operation>, img: ImgV) -> RunResultV
    decreases ops.len(),
{
    if ops.len() == 0 {
        RunResultV::Completed(img)
    } else {
        match apply_image_spec(ops[0], img) {
            Ok(img2) => match run_spec(ops.drop_first(), img2) {
                RunResultV::Completed(f) => RunResultV::Completed(f),
                RunResultV::Failed(i, e, partial) => RunResultV::Failed(i + 1, e, partial),
            },
            Err(e) => RunResultV::Failed(0, e, img),
        }
    }
}

/// How the outcome of the remaining operations, `i` steps into the run,
/// relates to the outcome of the whole run.
pub open spec fn run_rel(full: RunResultV, rest: RunResultV, i: int) -> bool {
    match rest {
        RunResultV::Completed(f) => full == RunResultV::Completed(f),
        RunResultV::Failed(j, e, p) => full == RunResultV::Failed(i + j, e, p),
    }
}

/// Runs the operations strictly in order, mutating the image in place, and
/// stops at the first failure: that operation's error is returned, the image
/// keeps the cumulative effect of the operations strictly before it, and no
/// later operation executes. On success the image holds the fold of the
/// whole sequence.
pub fn run_pipeline(ops: &Vec<Operation>, image: &mut SicImage) -> (r: Result<
    (),
    SicImageEngineError,
>)
    requires
        old(image).wf(),
    ensures
        match run_spec(ops@, old(image)@) {
            RunResultV::Completed(f) => r is Ok && final(image)@ == f,
            RunResultV::Failed(j, e, partial) => r is Err && r->Err_0 == e && final(image)@
                == partial,
        },
        final(image).wf(),
{
    let n = ops.len();
    proof {
        assert(ops@.skip(0) =~= ops@);
    }
    let mut i: usize = 0;
    while i < n
        invariant
            i <= n,
            n == ops@.len(),
            image.wf(),
            run_rel(run_spec(ops@, old(image)@), run_spec(ops@.skip(i as int), image@), i as int),
        decreases n - i,
    {
        let ghost pre = image@;
        let step = apply_operation(&ops[i], image);
        proof {
            assert(ops@.skip(i as int)[0] == ops@[i as int]);
            assert(ops@.skip(i as int).drop_first() =~= ops@.skip(i as int + 1));
        }
        match step {
            Ok(_) => {}
            Err(e) => {
                proof {
                    assert(run_spec(ops@.skip(i as int), pre) == RunResultV::Failed(
                        0,
                        e,
                        pre,
                    ));
                }
                return Err(e);
            }
        }
        i = i + 1;
    }
    proof {
        assert(ops@.skip(n as int) =~= Seq::<Operation>::empty());
    }
    Ok(())
}


/// Applying a frame-local operation to an animated image gives, frame by
/// frame, exactly what applying the same operation to each frame alone as a
/// static image gives: the per-frame parallel fan-out cannot change the
/// outcome, and it succeeds exactly when every per-frame application does.
pub proof fn lemma_frame_local_matches_static(op: Operation, frames: Seq<FrameV>)
    ensures
        (apply_image_spec(op, ImgV::Animated(frames)) is Ok) <==> (forall|i: int|
            0 <= i < frames.len() ==> apply_image_spec(
                op,
                ImgV::Static((#[trigger] frames[i]).buffer),
            ) is Ok),
        apply_image_spec(op, ImgV::Animated(frames)) is Ok ==> {
            let out = apply_image_spec(op, ImgV::Animated(frames))->Ok_0->Animated_0;
            &&& out.len() == frames.len()
            &&& forall|i: int|
                0 <= i < frames.len() ==> ImgV::Static((#[trigger] out[i]).buffer)
                    == apply_image_spec(op, ImgV::Static(frames[i].buffer))->Ok_0 && out[i].delay_num
                    == frames[i].delay_num && out[i].delay_den == frames[i].delay_den
        },
{
    if apply_image_spec(op, ImgV::Animated(frames)) is Ok {
        lemma_apply_frames_ok_converse(op, frames);
        lemma_apply_frames_ok(op, frames);
    } else {
        if forall|i: int|
            0 <= i < frames.len() ==> apply_buffer_spec(op, (#[trigger] frames[i]).buffer) is Ok {
            lemma_apply_frames_ok(op, frames);
            assert(false);
        }
    }
}

/// The image after the first `n` operations all succeeded, folding from the
/// left.
pub open spec fn fold_prefix(ops: Seq<Operation>, img: ImgV, n: int) -> ImgV
    decreases n,
{
    if n <= 0 {
        img
    } else {
        match apply_image_spec(ops[0], img) {
            Ok(x) => fold_prefix(ops.drop_first(), x, n - 1),
            Err(_) => img,
        }
    }
}

/// Whether the first `n` operations all succeed, one after the other.
pub open spec fn prefix_ok(ops: Seq<Operation>, img: ImgV, n: int) -> bool
    decreases n,
{
    if n <= 0 {
        true
    } else {
        match apply_image_spec(ops[0], img) {
            Ok(x) => prefix_ok(ops.drop_first(), x, n - 1),
            Err(_) => false,
        }
    }
}

/// Pipeline short-circuit: when the operations before index `i` all apply
/// and operation `i` fails, the whole run fails at index `i` with that
/// operation's error, and the image holds the cumulative effect of exactly
/// the operations before `i` — nothing after `i` contributes.
pub proof fn lemma_pipeline_short_circuit(ops: Seq<Operation>, img: ImgV, i: int)
    requires
        0 <= i < ops.len(),
        prefix_ok(ops, img, i),
        apply_image_spec(ops[i], fold_prefix(ops, img, i)) is Err,
    ensures
        run_spec(ops, img) == RunResultV::Failed(
            i,
            apply_image_spec(ops[i], fold_prefix(ops, img, i))->Err_0,
            fold_prefix(ops, img, i),
        ),
    decreases i,
{
    if i == 0 {
    } else {
        let x = apply_image_spec(ops[0], img)->Ok_0;
        let rest = ops.drop_first();
        assert(rest[i - 1] == ops[i]);
        lemma_pipeline_short_circuit(rest, x, i - 1);
    }
}


/// Flipping an image horizontally twice returns it to its original pixel
/// content, for a static image and for every frame of an animation alike.
pub proof fn lemma_flip_horizontal_involutive(img: ImgV)
    requires
        img.wf(),
    ensures
        apply_image_spec(Operation::FlipHorizontal, img) is Ok,
        apply_image_spec(
            Operation::FlipHorizontal,
            apply_image_spec(Operation::FlipHorizontal, img)->Ok_0,
        ) == Ok::<ImgV, SicImageEngineError>(img),
{
    let op = Operation::FlipHorizontal;
    match img {
        ImgV::Static(b) => {
            crate::buffer::lemma_flip_h_involutive(b.width, b.height, b.data);
            let b2 = apply_buffer_spec(op, apply_buffer_spec(op, b)->Ok_0)->Ok_0;
            assert(b2 =~= b);
        }
        ImgV::Animated(frames) => {
            lemma_apply_frames_ok(op, frames);
            let out1 = apply_frames_spec(op, frames)->Ok_0;
            lemma_apply_frames_ok(op, out1);
            let out2 = apply_frames_spec(op, out1)->Ok_0;
            assert forall|i: int| 0 <= i < frames.len() implies (#[trigger] out2[i])
                == frames[i] by {
                assert(frames[i].wf());
                crate::buffer::lemma_flip_h_involutive(
                    frames[i].buffer.width,
                    frames[i].buffer.height,
                    frames[i].buffer.data,
                );
                assert(out2[i].buffer =~= frames[i].buffer);
                assert(out2[i] =~= frames[i]);
            }
            assert(out2 =~= frames);
        }
    }
}

} // verus!
