//! The pixel buffer and its byte-level encoding: gamma-2 correction by
//! square root, clamping, and 8-bit quantization.

use vstd::prelude::*;

use crate::num::{is_isqrt, q_lt, q_one, q_sqrt, q_zero, Q, Rat};
use crate::pixel::Pixel;

verus! {

/// A channel value brought into `[0, 1]`.
pub open spec fn clamp01(c: Q) -> Q {
    if c.n < 0 {
        q_zero()
    } else if q_lt(q_one(), c) {
        q_one()
    } else {
        c
    }
}

/// The byte a linear channel value becomes: clamp, gamma-correct by the
/// floor square root, scale to 256 steps, and cap at 255.
pub open spec fn quantize(c: Q) -> int {
    let s = q_sqrt(clamp01(c));
    let q = (s.n * 256) / s.d;
    if q >= 256 {
        255
    } else {
        q
    }
}

/// Width x height grid of accumulated linear-RGB values.
#[derive(Clone, Debug, PartialEq, Eq)]
pub struct PPM {
    pub width: usize,
    pub height: usize,
    pub pixels: Vec<Pixel>,
}

impl PPM {
    pub open spec fn wf(self) -> bool {
        forall|i: int| 0 <= i < self.pixels@.len() ==> (#[trigger] self.pixels@[i]).wf()
    }

    /// An all-black buffer of the given dimensions.
    pub fn new(width: usize, height: usize) -> (out: PPM)
        requires
            width * height <= usize::MAX,
        ensures
            out.width == width,
            out.height == height,
            out.pixels@.len() == width * height,
            out.wf(),
            forall|i: int| 0 <= i < out.pixels@.len() ==> (#[trigger] out.pixels@[i])@
                == crate::pixel::pix_black(),
    {
        let n: usize = width * height;
        let mut pixels: Vec<Pixel> = Vec::new();
        let mut i: usize = 0;
        while i < n
            invariant
                i <= n,
                pixels@.len() == i,
                forall|j: int|
                    0 <= j < pixels@.len() ==> (#[trigger] pixels@[j]).wf() && (pixels@[j])@
                        == crate::pixel::pix_black(),
            decreases n - i,
        {
            pixels.push(Pixel::black());
            i = i + 1;
        }
        PPM { width, height, pixels }
    }

    /// The buffer serialized to bytes, three per pixel, each channel
    /// quantized by `quantize`.
    pub fn data(&self) -> (out: Vec<u8>)
        requires
            self.wf(),
        ensures
            out@.len() == 3 * self.pixels@.len(),
            forall|i: int| 0 <= i < self.pixels@.len() ==> out@[3 * i] == quantize(
                (#[trigger] self.pixels@[i])@.r,
            ) && out@[3 * i + 1] == quantize(self.pixels@[i]@.g) && out@[3 * i + 2] == quantize(
                self.pixels@[i]@.b,
            ),
    {
        let mut out: Vec<u8> = Vec::new();
        let mut i: usize = 0;
        while i < self.pixels.len()
            invariant
                self.wf(),
                i <= self.pixels@.len(),
                out@.len() == 3 * i,
                forall|j: int| 0 <= j < i ==> out@[3 * j] == quantize(
                    (#[trigger] self.pixels@[j])@.r,
                ) && out@[3 * j + 1] == quantize(self.pixels@[j]@.g) && out@[3 * j + 2]
                    == quantize(self.pixels@[j]@.b),
            decreases self.pixels@.len() - i,
        {
            let p = self.pixels[i];
            out.push(quantize_channel(&p.r));
            out.push(quantize_channel(&p.g));
            out.push(quantize_channel(&p.b));
            i = i + 1;
        }
        out
    }
}

/// One channel to one byte.
fn quantize_channel(c: &Rat) -> (out: u8)
    requires
        c.wf(),
    ensures
        out == quantize(c@),
{
    let one = Rat::one();
    let clamped = if c.num < 0 {
        Rat::zero()
    } else if one.lt(c) {
        one
    } else {
        *c
    };
    let s = clamped.sqrt_floor();
    let num: u128 = (s.num as u128) * 256;
    let den: u128 = s.den as u128;
    let q: u128 = num / den;
    if q >= 256 {
        255
    } else {
        q as u8
    }
}

} // verus!
