//! Target color-format profiles.
//!
//! A profile names the per-channel bit depth of R, G and B and the
//! treatment of the alpha channel.  Profiles are selected by mode name
//! from a small closed set; every unrecognized name falls back to the
//! 565 profile, by design and not as an error.

use vstd::prelude::*;
use crate::text::str_eq;

verus! {

/// How the alpha channel of a pixel is treated.
#[derive(Clone, Copy, Debug, PartialEq, Eq, Structural)]
pub enum AlphaRule {
    /// Alpha is dithered and quantized like a color channel.
    Quantize { bits: u8 },
    /// Alpha becomes fully opaque above 127 and fully transparent below.
    Threshold,
    /// The output has no alpha channel at all.
    Drop,
}

/// Per-channel target bit depths and the alpha rule of one output
/// pixel format.
#[derive(Clone, Copy, Debug, PartialEq, Eq, Structural)]
pub struct FormatProfile {
    pub r_bits: u8,
    pub g_bits: u8,
    pub b_bits: u8,
    pub alpha: AlphaRule,
}

/// The mode name selecting the 4-bit RGBA profile.
pub open spec fn mode_4444() -> Seq<char> {
    seq!['4', '4', '4', '4']
}

/// The mode name selecting the thresholded-alpha profile.
pub open spec fn mode_1555() -> Seq<char> {
    seq!['1', '5', '5', '5']
}

/// The mode name of the default profile (any other name selects it too).
pub open spec fn mode_565() -> Seq<char> {
    seq!['5', '6', '5']
}

/// The profile a mode name selects: `"4444"` and `"1555"` by exact
/// match, everything else the 565 default.
pub open spec fn spec_profile_for(mode: Seq<char>) -> FormatProfile {
    if mode == mode_4444() {
        FormatProfile { r_bits: 4, g_bits: 4, b_bits: 4, alpha: AlphaRule::Quantize { bits: 4 } }
    } else if mode == mode_1555() {
        FormatProfile { r_bits: 5, g_bits: 5, b_bits: 5, alpha: AlphaRule::Threshold }
    } else {
        FormatProfile { r_bits: 5, g_bits: 6, b_bits: 5, alpha: AlphaRule::Drop }
    }
}

impl FormatProfile {
    /// Every named depth lies in the meaningful range `1..=8`.
    pub open spec fn wf(self) -> bool {
        &&& 1 <= self.r_bits <= 8
        &&& 1 <= self.g_bits <= 8
        &&& 1 <= self.b_bits <= 8
        &&& match self.alpha {
            AlphaRule::Quantize { bits } => 1 <= bits <= 8,
            _ => true,
        }
    }

    /// Number of output channels per pixel: 3 when alpha is dropped,
    /// else 4.
    pub open spec fn spec_channels(self) -> int {
        if self.alpha is Drop {
            3
        } else {
            4
        }
    }

    /// Number of output channels per pixel.
    pub fn channels(&self) -> (c: usize)
        ensures
            c == self.spec_channels(),
    {
        match self.alpha {
            AlphaRule::Drop => 3,
            _ => 4,
        }
    }

    /// Select the profile for a mode name; an unrecognized name selects
    /// the 565 default.
    pub fn from_mode(mode: &str) -> (p: FormatProfile)
        ensures
            p == spec_profile_for(mode@),
            p.wf(),
    {
        if str_eq(mode, "4444") {
            proof {
                reveal_strlit("4444");
                assert(mode@ =~= mode_4444());
            }
            FormatProfile { r_bits: 4, g_bits: 4, b_bits: 4, alpha: AlphaRule::Quantize { bits: 4 } }
        } else if str_eq(mode, "1555") {
            proof {
                reveal_strlit("4444");
                reveal_strlit("1555");
                assert("4444"@ =~= mode_4444());
                assert(mode@ =~= mode_1555());
                assert(mode@ != mode_4444());
            }
            FormatProfile { r_bits: 5, g_bits: 5, b_bits: 5, alpha: AlphaRule::Threshold }
        } else {
            proof {
                reveal_strlit("4444");
                reveal_strlit("1555");
                assert("4444"@ =~= mode_4444());
                assert("1555"@ =~= mode_1555());
                assert(mode@ != mode_4444());
                assert(mode@ != mode_1555());
            }
            FormatProfile { r_bits: 5, g_bits: 6, b_bits: 5, alpha: AlphaRule::Drop }
        }
    }
}

/// Mode fallback: every mode name other than the two recognized ones
/// selects exactly the profile that the name `"565"` selects, so a
/// bogus name behaves identically to `"565"` throughout the pipeline.
pub proof fn lemma_mode_fallback(mode: Seq<char>)
    requires
        mode != mode_4444(),
        mode != mode_1555(),
    ensures
        spec_profile_for(mode) == spec_profile_for(mode_565()),
{
    assert(mode_565() != mode_4444());
    assert(mode_565() != mode_1555());
}

} // verus!
