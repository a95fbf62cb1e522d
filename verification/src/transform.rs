//! Whole-image application of a format profile.
//!
//! An [`ImageTransformer`] pairs a [`FormatProfile`] with a
//! [`DitherMatrix`] and maps every pixel of a decoded RGBA buffer
//! through the channel quantizer, using the matrix entry selected by
//! the pixel position `(row mod 4, column mod 4)`.  The transform is a
//! pure per-pixel function: no pixel depends on any other, which is
//! what lets callers run it on any slice of a batch in parallel.

use vstd::prelude::*;
use vstd::arithmetic::div_mod::{
    lemma_div_multiples_vanish, lemma_fundamental_div_mod_converse_div,
    lemma_fundamental_div_mod_converse_mod,
};
use crate::dither::{quantize, spec_max_level, spec_quantize};
use crate::profile::{AlphaRule, FormatProfile};

verus! {

/// A 4x4 grid of Bayer thresholds in `0..16`, row-major.  An entry `t`
/// stands for the dither bias `(t - 8)/16`.
#[derive(Clone, Debug)]
pub struct DitherMatrix {
    pub thresholds: Vec<u8>,
}

/// The standard 4x4 recursive Bayer pattern, row-major.
pub open spec fn spec_bayer_table() -> Seq<u8> {
    seq![0u8, 8, 2, 10, 12, 4, 14, 6, 3, 11, 1, 9, 15, 7, 13, 5]
}

impl DitherMatrix {
    /// Sixteen thresholds, each below 16.
    pub open spec fn wf(self) -> bool {
        &&& self.thresholds@.len() == 16
        &&& forall|i: int| 0 <= i < 16 ==> self.thresholds@[i] < 16
    }

    /// The threshold table, row-major.
    pub open spec fn spec_table(self) -> Seq<u8> {
        self.thresholds@
    }

    /// The threshold governing the pixel at row `y`, column `x`; the
    /// pattern repeats every 4 pixels in both directions.
    pub open spec fn spec_at(self, y: int, x: int) -> int
        recommends
            self.wf(),
            0 <= y,
            0 <= x,
    {
        self.thresholds@[(y % 4) * 4 + (x % 4)] as int
    }

    /// A matrix from sixteen row-major thresholds.
    pub fn new(thresholds: Vec<u8>) -> (m: DitherMatrix)
        requires
            thresholds@.len() == 16,
            forall|i: int| 0 <= i < 16 ==> thresholds@[i] < 16,
        ensures
            m.wf(),
            m.spec_table() == thresholds@,
    {
        DitherMatrix { thresholds }
    }

    /// The standard 4x4 Bayer matrix.
    pub fn standard() -> (m: DitherMatrix)
        ensures
            m.wf(),
            m.spec_table() == spec_bayer_table(),
    {
        let thresholds: Vec<u8> = vec![0u8, 8, 2, 10, 12, 4, 14, 6, 3, 11, 1, 9, 15, 7, 13, 5];
        proof {
            assert(thresholds@ =~= spec_bayer_table());
        }
        DitherMatrix { thresholds }
    }

    /// Read the threshold for the pixel at row `y`, column `x`.
    pub fn at(&self, y: usize, x: usize) -> (t: u8)
        requires
            self.wf(),
        ensures
            t == self.spec_at(y as int, x as int),
            t < 16,
    {
        self.thresholds[(y % 4) * 4 + (x % 4)]
    }
}

/// A rectangular grid of 8-bit samples, row-major and contiguous, with
/// 4 channels (RGBA) for decoded input or 3 (RGB) once alpha has been
/// dropped.
#[derive(Clone, Debug)]
pub struct PixelBuffer {
    pub width: usize,
    pub height: usize,
    pub channels: usize,
    pub data: Vec<u8>,
}

impl PixelBuffer {
    /// The byte count matches the dimensions and the channel count is
    /// one of the two supported layouts.
    pub open spec fn wf(self) -> bool {
        &&& (self.channels == 3 || self.channels == 4)
        &&& self.data@.len() == self.width * self.height * self.channels
    }

    /// An RGBA buffer over `data`, which must hold exactly
    /// `width * height` four-byte pixels.
    pub fn from_rgba(width: usize, height: usize, data: Vec<u8>) -> (r: Result<
        PixelBuffer,
        Vec<u8>,
    >)
        ensures
            match r {
                Ok(b) => {
                    &&& data@.len() == width * height * 4
                    &&& b.wf()
                    &&& b.width == width
                    &&& b.height == height
                    &&& b.channels == 4
                    &&& b.data@ == data@
                },
                Err(d) => {
                    &&& d@ == data@
                    &&& data@.len() != width * height * 4
                },
            },
    {
        let n = data.len();
        let pixels = match width.checked_mul(height) {
            Some(p) => p,
            None => {
                proof {
                    assert(width * height > usize::MAX);
                    assert(width * height * 4 >= width * height) by (nonlinear_arith)
                        requires
                            width >= 0,
                            height >= 0,
                    ;
                }
                return Err(data);
            },
        };
        let bytes = match pixels.checked_mul(4) {
            Some(b) => b,
            None => {
                return Err(data);
            },
        };
        if n == bytes {
            Ok(PixelBuffer { width, height, channels: 4, data })
        } else {
            Err(data)
        }
    }
}

/// Applies one [`FormatProfile`] with one [`DitherMatrix`] to whole
/// pixel buffers.
#[derive(Clone, Debug)]
pub struct ImageTransformer {
    pub profile: FormatProfile,
    pub matrix: DitherMatrix,
}

impl ImageTransformer {
    /// Profile depths are meaningful and the matrix has its 16 entries.
    pub open spec fn wf(self) -> bool {
        self.profile.wf() && self.matrix.wf()
    }

    /// A transformer from a profile and a dither matrix.
    pub fn new(profile: FormatProfile, matrix: DitherMatrix) -> (t: ImageTransformer)
        requires
            profile.wf(),
            matrix.wf(),
        ensures
            t.wf(),
            t.profile == profile,
            t.matrix == matrix,
    {
        ImageTransformer { profile, matrix }
    }

    /// Byte `j` of the transformed image: the output has
    /// `profile.spec_channels()` bytes per pixel, and each is the
    /// dithered quantization of the matching source channel — except
    /// thresholded alpha, which snaps to 0 or 255 around 127.
    pub open spec fn spec_out_byte(self, width: int, data: Seq<u8>, j: int) -> int
        recommends
            self.wf(),
            width > 0,
            0 <= j,
            4 * (j / self.profile.spec_channels()) + 3 < data.len(),
    {
        let ch = self.profile.spec_channels();
        let pi = j / ch;
        let c = j % ch;
        let t = self.matrix.spec_at(pi / width, pi % width);
        if c == 0 {
            spec_quantize(data[4 * pi] as int, self.profile.r_bits as int, t)
        } else if c == 1 {
            spec_quantize(data[4 * pi + 1] as int, self.profile.g_bits as int, t)
        } else if c == 2 {
            spec_quantize(data[4 * pi + 2] as int, self.profile.b_bits as int, t)
        } else {
            match self.profile.alpha {
                AlphaRule::Quantize { bits } => spec_quantize(
                    data[4 * pi + 3] as int,
                    bits as int,
                    t,
                ),
                AlphaRule::Threshold => if data[4 * pi + 3] > 127 {
                    255
                } else {
                    0
                },
                AlphaRule::Drop => 0,
            }
        }
    }

    /// Transform a decoded RGBA buffer into the profile's output
    /// layout.  Dimensions are kept; the channel count becomes 3 when
    /// the profile drops alpha, else 4; and every output byte is
    /// exactly the dithered quantization that `spec_out_byte` names.
    pub fn transform(&self, src: &PixelBuffer) -> (out: PixelBuffer)
        requires
            self.wf(),
            src.wf(),
            src.channels == 4,
        ensures
            out.wf(),
            out.width == src.width,
            out.height == src.height,
            out.channels == self.profile.spec_channels(),
            out.data@.len() == src.width * src.height * self.profile.spec_channels(),
            forall|j: int|
                0 <= j < out.data@.len() ==> out.data@[j] == self.spec_out_byte(
                    src.width as int,
                    src.data@,
                    j,
                ),
    {
        let w = src.width;
        let h = src.height;
        let ch = self.profile.channels();
        let n = src.data.len();
        proof {
            assert(4 * (w * h) == src.data@.len()) by (nonlinear_arith)
                requires
                    src.data@.len() == w * h * 4,
            ;
            lemma_div_multiples_vanish(w as int * h as int, 4);
        }
        let total: usize = n / 4;
        assert(total == w * h);
        let mut data: Vec<u8> = Vec::new();
        let mut pi: usize = 0;
        while pi < total
            invariant
                self.wf(),
                src.wf(),
                src.channels == 4,
                w == src.width,
                h == src.height,
                ch == self.profile.spec_channels(),
                3 <= ch <= 4,
                total == w * h,
                n == src.data@.len(),
                4 * total == n,
                pi <= total,
                data@.len() == pi * ch,
                forall|j: int|
                    0 <= j < pi * ch ==> data@[j] == self.spec_out_byte(w as int, src.data@, j),
            decreases total - pi,
        {
            proof {
                assert(w > 0) by {
                    if w == 0 {
                        assert(total == 0 * h == 0);
                    }
                }
                assert(4 * pi + 3 < 4 * total);
                assert(pi * ch + ch <= total * ch) by (nonlinear_arith)
                    requires
                        pi < total,
                        ch >= 3,
                ;
                assert(total * ch <= 4 * total) by (nonlinear_arith)
                    requires
                        ch <= 4,
                        total >= 0,
                ;
            }
            let x = pi % w;
            let y = pi / w;
            let t = self.matrix.at(y, x);
            let bi = 4 * pi;
            let ghost len0 = data@.len();
            data.push(quantize(src.data[bi], self.profile.r_bits, t));
            data.push(quantize(src.data[bi + 1], self.profile.g_bits, t));
            data.push(quantize(src.data[bi + 2], self.profile.b_bits, t));
            match self.profile.alpha {
                AlphaRule::Quantize { bits } => {
                    let a = quantize(src.data[bi + 3], bits, t);
                    data.push(a);
                },
                AlphaRule::Threshold => {
                    let a: u8 = if src.data[bi + 3] > 127 {
                        255
                    } else {
                        0
                    };
                    data.push(a);
                },
                AlphaRule::Drop => {},
            }
            proof {
                let chi = ch as int;
                let pii = pi as int;
                assert(data@.len() == pii * chi + chi);
                assert((pii + 1) * chi == pii * chi + chi) by (nonlinear_arith);
                assert forall|j: int| 0 <= j < (pii + 1) * chi implies data@[j]
                    == self.spec_out_byte(w as int, src.data@, j) by {
                    if j < pii * chi {
                        assert(data@[j] == self.spec_out_byte(w as int, src.data@, j));
                    } else {
                        let c = j - pii * chi;
                        assert(j == pii * chi + c);
                        lemma_fundamental_div_mod_converse_div(j, chi, pii, c);
                        lemma_fundamental_div_mod_converse_mod(j, chi, pii, c);
                        assert(j / chi == pii && j % chi == c);
                    }
                }
            }
            pi += 1;
        }
        proof {
            assert(total * ch == w * h * ch) by (nonlinear_arith)
                requires
                    total == w * h,
            ;
        }
        PixelBuffer { width: w, height: h, channels: ch, data }
    }
}

/// Determinism: the transform is a pure function of profile, matrix,
/// dimensions and source bytes, so any two outputs that meet its
/// contract on the same inputs are byte-identical.
pub proof fn lemma_transform_deterministic(
    tr: ImageTransformer,
    width: int,
    data: Seq<u8>,
    o1: Seq<u8>,
    o2: Seq<u8>,
)
    requires
        o1.len() == o2.len(),
        forall|j: int| 0 <= j < o1.len() ==> o1[j] == tr.spec_out_byte(width, data, j),
        forall|j: int| 0 <= j < o2.len() ==> o2[j] == tr.spec_out_byte(width, data, j),
    ensures
        o1 == o2,
{
    assert(o1 =~= o2);
}

/// A second pass of the transform over its own 4-channel output is the
/// identity when every quantized depth has a whole-number level scale
/// `255 / m` (1, 2, 4 and 8 bits) and alpha is quantized likewise or
/// thresholded: each output byte already sits on its level, and
/// thresholded alpha is already 0 or 255.  At other depths the
/// transform is lossy and a second pass can move bytes.
pub proof fn lemma_transform_idempotent_aligned(
    tr: ImageTransformer,
    width: int,
    data: Seq<u8>,
    out: Seq<u8>,
)
    requires
        tr.wf(),
        tr.profile.spec_channels() == 4,
        255int % spec_max_level(tr.profile.r_bits as int) == 0,
        255int % spec_max_level(tr.profile.g_bits as int) == 0,
        255int % spec_max_level(tr.profile.b_bits as int) == 0,
        match tr.profile.alpha {
            AlphaRule::Quantize { bits } => 255int % spec_max_level(bits as int) == 0,
            AlphaRule::Threshold => true,
            AlphaRule::Drop => false,
        },
        forall|j: int| 0 <= j < out.len() ==> out[j] == tr.spec_out_byte(width, data, j),
    ensures
        forall|j: int| 0 <= j < out.len() ==> tr.spec_out_byte(width, out, j) == out[j],
{
    assert forall|j: int| 0 <= j < out.len() implies tr.spec_out_byte(width, out, j)
        == out[j] by {
        let pi = j / 4;
        let c = j % 4;
        vstd::arithmetic::div_mod::lemma_fundamental_div_mod(j, 4);
        assert(j == 4 * pi + c);
        let t = tr.matrix.spec_at(pi / width, pi % width);
        assert(0 <= (pi / width) % 4 < 4 && 0 <= (pi % width) % 4 < 4) by {
            vstd::arithmetic::div_mod::lemma_mod_division_less_than_divisor((pi / width) % 4, 4);
        }
        assert(0 <= t < 16);
        if c == 0 {
            assert(out[j] == crate::dither::spec_quantize(
                data[j] as int,
                tr.profile.r_bits as int,
                t,
            ));
            crate::dither::lemma_quantize_idempotent_when_dividing(
                data[j] as int,
                tr.profile.r_bits as int,
                t,
            );
        } else if c == 1 {
            assert(out[j] == crate::dither::spec_quantize(
                data[j] as int,
                tr.profile.g_bits as int,
                t,
            ));
            crate::dither::lemma_quantize_idempotent_when_dividing(
                data[j] as int,
                tr.profile.g_bits as int,
                t,
            );
        } else if c == 2 {
            assert(out[j] == crate::dither::spec_quantize(
                data[j] as int,
                tr.profile.b_bits as int,
                t,
            ));
            crate::dither::lemma_quantize_idempotent_when_dividing(
                data[j] as int,
                tr.profile.b_bits as int,
                t,
            );
        } else {
            match tr.profile.alpha {
                AlphaRule::Quantize { bits } => {
                    assert(out[j] == crate::dither::spec_quantize(data[j] as int, bits as int, t));
                    crate::dither::lemma_quantize_idempotent_when_dividing(
                        data[j] as int,
                        bits as int,
                        t,
                    );
                },
                AlphaRule::Threshold => {
                    assert(out[j] == 255 || out[j] == 0);
                },
                AlphaRule::Drop => {},
            }
        }
    }
}

/// The thresholded-alpha rule in place: in a 4-channel output, the
/// alpha byte of every pixel is 255 exactly when the source alpha
/// exceeds 127, and 0 otherwise.
pub proof fn lemma_threshold_alpha(tr: ImageTransformer, width: int, data: Seq<u8>, pi: int)
    requires
        tr.profile.alpha is Threshold,
        0 <= pi,
        4 * pi + 3 < data.len(),
    ensures
        tr.spec_out_byte(width, data, 4 * pi + 3) == if data[4 * pi + 3] > 127 {
            255int
        } else {
            0int
        },
{
    lemma_fundamental_div_mod_converse_div(4 * pi + 3, 4, pi, 3);
    lemma_fundamental_div_mod_converse_mod(4 * pi + 3, 4, pi, 3);
}

} // verus!
