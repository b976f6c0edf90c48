use vstd::prelude::*;

use crate::buffer::{BufV, ImageBuffer};

verus! {

/// Mathematical value of one animation frame.
#[verifier::ext_equal]
pub struct FrameV {
    pub buffer: BufV,
    pub delay_num: int,
    pub delay_den: int,
}

impl FrameV {
    pub open spec fn wf(self) -> bool {
        self.buffer.wf()
    }
}

/// Mathematical value of an image: one buffer, or an ordered frame sequence.
#[verifier::ext_equal]
pub enum ImgV {
    Static(BufV),
    Animated(Seq<FrameV>),
}

impl ImgV {
    /// Every buffer that the image holds is well formed.
    pub open spec fn wf(self) -> bool {
        match self {
            ImgV::Static(b) => b.wf(),
            ImgV::Animated(frames) => forall|i: int| 0 <= i < frames.len() ==> (#[trigger] frames[i]).wf(),
        }
    }
}

/// One frame of an animation: a pixel buffer plus its display delay,
/// given as the ratio `delay_num / delay_den` in milliseconds.
pub struct Frame {
    pub buffer: ImageBuffer,
    pub delay_num: u32,
    pub delay_den: u32,
}

impl View for Frame {
    type V = FrameV;

    open spec fn view(&self) -> FrameV {
        FrameV {
            buffer: self.buffer@,
            delay_num: self.delay_num as int,
            delay_den: self.delay_den as int,
        }
    }
}

/// The image value operations act on: a single static raster, or an ordered
/// sequence of animation frames. Frame order is significant and preserved.
pub enum SicImage {
    Static(ImageBuffer),
    Animated(Vec<Frame>),
}

impl View for SicImage {
    type V = ImgV;

    open spec fn view(&self) -> ImgV {
        match self {
            SicImage::Static(b) => ImgV::Static(b@),
            SicImage::Animated(frames) => ImgV::Animated(
                Seq::new(frames@.len(), |i: int| frames@[i]@),
            ),
        }
    }
}

impl SicImage {
    pub open spec fn wf(&self) -> bool {
        self@.wf()
    }
}

} // verus!
