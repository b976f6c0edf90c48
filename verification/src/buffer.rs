use vstd::prelude::*;

verus! {

/// Mathematical value of a pixel buffer: its dimensions and its bytes.
#[verifier::ext_equal]
pub struct BufV {
    pub width: int,
    pub height: int,
    pub data: Seq<u8>,
}

impl BufV {
    /// A buffer value is well formed when it holds four bytes per pixel.
    pub open spec fn wf(self) -> bool {
        &&& 0 <= self.width <= u32::MAX
        &&& 0 <= self.height <= u32::MAX
        &&& self.data.len() == 4 * self.width * self.height
    }
}

/// A single RGBA pixel buffer: `width * height` pixels, four bytes each,
/// stored row by row, top row first.
pub struct ImageBuffer {
    pub width: u32,
    pub height: u32,
    pub data: Vec<u8>,
}

impl View for ImageBuffer {
    type V = BufV;

    open spec fn view(&self) -> BufV {
        BufV { width: self.width as int, height: self.height as int, data: self.data@ }
    }
}

/// Byte index of channel `c` of the pixel at column `x`, row `y`, in a buffer
/// that is `w` pixels wide.
pub open spec fn pix(w: int, x: int, y: int, c: int) -> int {
    4 * (y * w + x) + c
}

/// Source byte index that a horizontal flip reads for destination index `k`:
/// the same row, the mirrored column, the same channel.
pub open spec fn flip_h_src(w: int, k: int) -> int {
    let p = k / 4;
    let c = k % 4;
    let x = p % w;
    let y = p / w;
    pix(w, w - 1 - x, y, c)
}

/// Bytes of the horizontal mirror image of a `w` by `h` buffer.
pub open spec fn flip_h_of(w: int, h: int, data: Seq<u8>) -> Seq<u8> {
    Seq::new(data.len(), |k: int| data[flip_h_src(w, k)])
}

/// Source byte index that a vertical flip reads for destination index `k`:
/// the mirrored row, the same column, the same channel.
pub open spec fn flip_v_src(w: int, h: int, k: int) -> int {
    let p = k / 4;
    let c = k % 4;
    let x = p % w;
    let y = p / w;
    pix(w, x, h - 1 - y, c)
}

/// Bytes of the vertical mirror image of a `w` by `h` buffer.
pub open spec fn flip_v_of(w: int, h: int, data: Seq<u8>) -> Seq<u8> {
    Seq::new(data.len(), |k: int| data[flip_v_src(w, h, k)])
}

/// Bytes of the `cw` by `ch` subrectangle of a `w` by `h` buffer whose top
/// left pixel is at column `cx`, row `cy`.
pub open spec fn crop_of(w: int, data: Seq<u8>, cx: int, cy: int, cw: int, ch: int) -> Seq<u8> {
    Seq::new((4 * cw * ch) as nat, |k: int| {
        let p = k / 4;
        let c = k % 4;
        let x = p % cw;
        let y = p / cw;
        data[pix(w, cx + x, cy + y, c)]
    })
}

/// Bytes of a fully transparent black `w` by `h` buffer.
pub open spec fn blank_of(w: int, h: int) -> Seq<u8> {
    Seq::new((4 * w * h) as nat, |k: int| 0u8)
}

impl ImageBuffer {
    /// A buffer is well formed when its byte length matches its dimensions.
    pub open spec fn wf(&self) -> bool {
        self@.wf()
    }

    /// Builds a fully transparent black buffer of the given dimensions.
    pub fn blank(width: u32, height: u32) -> (r: ImageBuffer)
        requires
            4 * (width as int) * (height as int) <= usize::MAX,
        ensures
            r@ == (BufV { width: width as int, height: height as int, data: blank_of(width as int, height as int) }),
            r.wf(),
    {
        proof {
            assert((width as int) * (height as int) >= 0 && 4 * ((width as int) * (height as int))
                == 4 * (width as int) * (height as int)) by (nonlinear_arith);
        }
        let n: usize = ((width as usize) * (height as usize)) * 4;
        let mut data: Vec<u8> = Vec::new();
        let mut k: usize = 0;
        while k < n
            invariant
                k <= n,
                n == 4 * (width as int) * (height as int),
                data@.len() == k,
                forall|j: int| 0 <= j < k ==> data@[j] == 0u8,
            decreases n - k,
        {
            data.push(0u8);
            k = k + 1;
        }
        proof {
            assert(data@ =~= blank_of(width as int, height as int));
        }
        ImageBuffer { width, height, data }
    }
}


/// A pixel's byte index maps under a horizontal flip to the byte index of
/// the mirrored column, same row, same channel.
proof fn lemma_flip_h_src_maps(w: int, x: int, y: int, c: int)
    requires
        w > 0,
        0 <= x < w,
        0 <= y,
        0 <= c < 4,
    ensures
        flip_h_src(w, pix(w, x, y, c)) == pix(w, w - 1 - x, y, c),
{
    let k = pix(w, x, y, c);
    let p = y * w + x;
    assert(k == p * 4 + c);
    vstd::arithmetic::div_mod::lemma_fundamental_div_mod_converse_div(k, 4, p, c);
    vstd::arithmetic::div_mod::lemma_fundamental_div_mod_converse_mod(k, 4, p, c);
    assert(p == y * w + x);
    vstd::arithmetic::div_mod::lemma_fundamental_div_mod_converse_div(p, w, y, x);
    vstd::arithmetic::div_mod::lemma_fundamental_div_mod_converse_mod(p, w, y, x);
}

/// Flipping a buffer horizontally twice restores it: the flip is an
/// involution on well-formed buffer data.
pub proof fn lemma_flip_h_involutive(w: int, h: int, data: Seq<u8>)
    requires
        0 <= w,
        0 <= h,
        data.len() == 4 * w * h,
    ensures
        flip_h_of(w, h, flip_h_of(w, h, data)) == data,
{
    let once = flip_h_of(w, h, data);
    assert forall|k: int| 0 <= k < data.len() implies (#[trigger] flip_h_of(w, h, once)[k])
        == data[k] by {
        assert(w > 0 && h > 0) by (nonlinear_arith)
            requires 0 <= w, 0 <= h, 4 * w * h > 0,
        ;
        let p = k / 4;
        let c = k % 4;
        let x = p % w;
        let y = p / w;
        vstd::arithmetic::div_mod::lemma_fundamental_div_mod(k, 4);
        vstd::arithmetic::div_mod::lemma_mod_bound(k, 4);
        assert(k == 4 * p + c);
        vstd::arithmetic::div_mod::lemma_fundamental_div_mod(p, w);
        vstd::arithmetic::div_mod::lemma_mod_bound(p, w);
        assert(p == y * w + x);
        assert(p < w * h) by (nonlinear_arith)
            requires 0 <= c, k == 4 * p + c, k < 4 * w * h,
        ;
        assert(0 <= y && y < h) by (nonlinear_arith)
            requires w > 0, h > 0, 0 <= p, p < w * h, p == y * w + x, 0 <= x < w,
        ;
        assert(k == pix(w, x, y, c));
        lemma_flip_h_src_maps(w, x, y, c);
        let k2 = pix(w, w - 1 - x, y, c);
        assert(0 <= k2 && k2 < 4 * w * h) by (nonlinear_arith)
            requires 0 <= y, y < h, 0 <= w - 1 - x, w - 1 - x < w, 0 <= c < 4, w > 0, h > 0,
                k2 == 4 * (y * w + (w - 1 - x)) + c,
        ;
        lemma_flip_h_src_maps(w, w - 1 - x, y, c);
        assert(flip_h_of(w, h, once)[k] == once[flip_h_src(w, k)]);
        assert(once[k2] == data[flip_h_src(w, k2)]);
    }
    assert(flip_h_of(w, h, once) =~= data);
}

/// A pixel's byte index maps under a vertical flip to the byte index of the
/// mirrored row, same column, same channel.
proof fn lemma_flip_v_src_maps(w: int, h: int, x: int, y: int, c: int)
    requires
        w > 0,
        0 <= x < w,
        0 <= y,
        0 <= c < 4,
    ensures
        flip_v_src(w, h, pix(w, x, y, c)) == pix(w, x, h - 1 - y, c),
{
    let k = pix(w, x, y, c);
    let p = y * w + x;
    assert(k == p * 4 + c);
    vstd::arithmetic::div_mod::lemma_fundamental_div_mod_converse_div(k, 4, p, c);
    vstd::arithmetic::div_mod::lemma_fundamental_div_mod_converse_mod(k, 4, p, c);
    vstd::arithmetic::div_mod::lemma_fundamental_div_mod_converse_div(p, w, y, x);
    vstd::arithmetic::div_mod::lemma_fundamental_div_mod_converse_mod(p, w, y, x);
}

/// Flipping a buffer vertically twice restores it.
pub proof fn lemma_flip_v_involutive(w: int, h: int, data: Seq<u8>)
    requires
        0 <= w,
        0 <= h,
        data.len() == 4 * w * h,
    ensures
        flip_v_of(w, h, flip_v_of(w, h, data)) == data,
{
    let once = flip_v_of(w, h, data);
    assert forall|k: int| 0 <= k < data.len() implies (#[trigger] flip_v_of(w, h, once)[k])
        == data[k] by {
        assert(w > 0 && h > 0) by (nonlinear_arith)
            requires 0 <= w, 0 <= h, 4 * w * h > 0,
        ;
        let p = k / 4;
        let c = k % 4;
        let x = p % w;
        let y = p / w;
        vstd::arithmetic::div_mod::lemma_fundamental_div_mod(k, 4);
        vstd::arithmetic::div_mod::lemma_mod_bound(k, 4);
        assert(k == 4 * p + c);
        vstd::arithmetic::div_mod::lemma_fundamental_div_mod(p, w);
        vstd::arithmetic::div_mod::lemma_mod_bound(p, w);
        assert(p == y * w + x);
        assert(p < w * h) by (nonlinear_arith)
            requires 0 <= c, k == 4 * p + c, k < 4 * w * h,
        ;
        assert(0 <= y && y < h) by (nonlinear_arith)
            requires w > 0, h > 0, 0 <= p, p < w * h, p == y * w + x, 0 <= x < w,
        ;
        assert(k == pix(w, x, y, c));
        lemma_flip_v_src_maps(w, h, x, y, c);
        let k2 = pix(w, x, h - 1 - y, c);
        assert(0 <= k2 && k2 < 4 * w * h) by (nonlinear_arith)
            requires 0 <= x, x < w, 0 <= h - 1 - y, h - 1 - y < h, 0 <= c < 4, w > 0, h > 0,
                k2 == 4 * ((h - 1 - y) * w + x) + c,
        ;
        lemma_flip_v_src_maps(w, h, x, h - 1 - y, c);
        assert(flip_v_of(w, h, once)[k] == once[flip_v_src(w, h, k)]);
        assert(once[k2] == data[flip_v_src(w, h, k2)]);
    }
    assert(flip_v_of(w, h, once) =~= data);
}

} // verus!
