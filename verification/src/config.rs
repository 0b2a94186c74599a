//! The overlay configuration: four ascending duration thresholds, one
//! color per bucket, the ring-buffer capacity the overlay renders, and the
//! on-screen geometry.

use vstd::prelude::*;

use crate::sample::SAMPLE_LIMIT;

verus! {

/// Bit pattern of 1.0f32, used by the default colors.
pub const COLOR_FULL: u32 = 0x3f80_0000;

/// Bit pattern of 0.5f32, used by the default colors.
pub const COLOR_HALF: u32 = 0x3f00_0000;

/// Bit pattern of 1.0f32 / 240.0, the default lowest threshold.
pub const DEFAULT_DT_0: u32 = 0x3b88_8889;

/// Bit pattern of 1.0f32 / 60.0.
pub const DEFAULT_DT_1: u32 = 0x3c88_8889;

/// Bit pattern of 1.0f32 / 30.0.
pub const DEFAULT_DT_2: u32 = 0x3d08_8889;

/// Bit pattern of 1.0f32 / 15.0, the default highest threshold.
pub const DEFAULT_DT_3: u32 = 0x3d88_8889;

/// The default ring-buffer capacity.
pub const DEFAULT_BUFFER_LEN: usize = 100;

/// An RGBA color; each channel is the bit pattern of an IEEE-754
/// single-precision intensity. Colors are passed through to the renderer
/// unread.
#[derive(Clone, Copy, Debug, PartialEq, Eq, Structural)]
pub struct Rgba {
    pub red: u32,
    pub green: u32,
    pub blue: u32,
    pub alpha: u32,
}

/// The screen corner the overlay is anchored to.
#[derive(Clone, Copy, Debug, PartialEq, Eq, Structural)]
pub enum Anchor {
    TopLeft,
    TopRight,
    BottomLeft,
    BottomRight,
}

/// On-screen size and placement of the overlay, in pixels.
#[derive(Clone, Copy, Debug, PartialEq, Eq, Structural)]
pub struct Geometry {
    pub width: u32,
    pub height: u32,
    pub anchor: Anchor,
}

/// The overlay configuration. The four thresholds must be strictly
/// increasing, positive and finite; `buffer_len` must be positive and
/// equal the capacity of the ring buffer the overlay renders.
#[derive(Clone, Copy, Debug, PartialEq)]
pub struct OverlayConfig {
    /// Duration breakpoints (as single-precision bit patterns) where the
    /// bar color changes, smallest to largest.
    pub thresholds: [u32; 4],
    /// One color per bucket, ordered to match the thresholds.
    pub colors: [Rgba; 4],
    /// The capacity of the ring buffer; also the bar-width divisor.
    pub buffer_len: usize,
    /// Where and how large the overlay is drawn.
    pub geometry: Geometry,
}

/// Why a configuration was rejected.
#[derive(Clone, Copy, Debug, PartialEq, Eq, Structural)]
pub enum ConfigError {
    /// A threshold encodes zero or a negative duration; its logarithm is
    /// undefined.
    NonPositiveThreshold,
    /// A threshold encodes an infinity or a NaN.
    NonFiniteThreshold,
    /// The thresholds are not strictly increasing.
    NonIncreasingThresholds,
    /// The configuration asks for an empty ring buffer.
    ZeroBufferLen,
    /// `buffer_len` does not match the capacity of the ring buffer in use.
    BufferLenMismatch,
}

/// What is wrong with a single threshold, if anything: patterns encoding
/// zero or carrying the sign bit are non-positive; patterns at or above
/// the infinity pattern (but without the sign bit) are non-finite.
pub open spec fn threshold_error(t: u32) -> Option<ConfigError> {
    if t == 0 || t >= 0x8000_0000 {
        Some(ConfigError::NonPositiveThreshold)
    } else if t >= SAMPLE_LIMIT {
        Some(ConfigError::NonFiniteThreshold)
    } else {
        None
    }
}

/// All four thresholds are positive, finite and strictly increasing.
/// For non-negative finite patterns the unsigned order agrees with the
/// numeric order, so the comparisons are on the patterns themselves.
pub open spec fn thresholds_valid(dts: [u32; 4]) -> bool {
    0 < dts[0] && dts[0] < dts[1] && dts[1] < dts[2] && dts[2] < dts[3] && dts[3] < SAMPLE_LIMIT
}

/// A configuration the overlay accepts.
pub open spec fn config_valid(c: OverlayConfig) -> bool {
    thresholds_valid(c.thresholds) && c.buffer_len >= 1
}

/// The error reported for an invalid configuration, checking the
/// thresholds one by one, then their order, then the buffer length.
pub open spec fn config_error(c: OverlayConfig) -> Option<ConfigError> {
    if threshold_error(c.thresholds[0]) is Some {
        threshold_error(c.thresholds[0])
    } else if threshold_error(c.thresholds[1]) is Some {
        threshold_error(c.thresholds[1])
    } else if threshold_error(c.thresholds[2]) is Some {
        threshold_error(c.thresholds[2])
    } else if threshold_error(c.thresholds[3]) is Some {
        threshold_error(c.thresholds[3])
    } else if !(c.thresholds[0] < c.thresholds[1] && c.thresholds[1] < c.thresholds[2]
        && c.thresholds[2] < c.thresholds[3]) {
        Some(ConfigError::NonIncreasingThresholds)
    } else if c.buffer_len == 0 {
        Some(ConfigError::ZeroBufferLen)
    } else {
        None
    }
}

/// A configuration is valid exactly when no error is reported for it.
pub proof fn lemma_config_valid_iff_no_error(c: OverlayConfig)
    ensures
        config_valid(c) <==> config_error(c) is None,
{
}

impl OverlayConfig {
    /// The default configuration: thresholds at 1/240, 1/60, 1/30 and
    /// 1/15 of a second, colors green, yellow, orange and red, a
    /// 100-sample buffer, and a 512 x 128 pixel overlay in the top right
    /// corner.
    pub open spec fn spec_default() -> OverlayConfig {
        OverlayConfig {
            thresholds: [DEFAULT_DT_0, DEFAULT_DT_1, DEFAULT_DT_2, DEFAULT_DT_3],
            colors: [
                Rgba { red: 0, green: COLOR_FULL, blue: 0, alpha: COLOR_FULL },
                Rgba { red: COLOR_FULL, green: COLOR_FULL, blue: 0, alpha: COLOR_FULL },
                Rgba { red: COLOR_FULL, green: COLOR_HALF, blue: 0, alpha: COLOR_FULL },
                Rgba { red: COLOR_FULL, green: 0, blue: 0, alpha: COLOR_FULL },
            ],
            buffer_len: DEFAULT_BUFFER_LEN,
            geometry: Geometry { width: 512, height: 128, anchor: Anchor::TopRight },
        }
    }

    /// Compares every field; arrays are compared element by element.
    pub fn same_as(&self, other: &OverlayConfig) -> (r: bool)
        ensures
            r <==> *self == *other,
    {
        let thresholds_eq: bool = self.thresholds[0] == other.thresholds[0]
            && self.thresholds[1] == other.thresholds[1]
            && self.thresholds[2] == other.thresholds[2]
            && self.thresholds[3] == other.thresholds[3];
        let colors_eq: bool = self.colors[0] == other.colors[0]
            && self.colors[1] == other.colors[1]
            && self.colors[2] == other.colors[2]
            && self.colors[3] == other.colors[3];
        let geometry_eq: bool = self.geometry == other.geometry;
        let r = thresholds_eq && colors_eq && geometry_eq && self.buffer_len == other.buffer_len;
        proof {
            if thresholds_eq {
                assert(self.thresholds =~= other.thresholds);
            }
            if colors_eq {
                assert(self.colors =~= other.colors);
            }
        }
        r
    }
}

impl Default for OverlayConfig {
    /// The default configuration; it is valid.
    fn default() -> (c: OverlayConfig)
        ensures
            c == OverlayConfig::spec_default(),
            config_valid(c),
    {
        OverlayConfig {
            thresholds: [DEFAULT_DT_0, DEFAULT_DT_1, DEFAULT_DT_2, DEFAULT_DT_3],
            colors: [
                Rgba { red: 0, green: COLOR_FULL, blue: 0, alpha: COLOR_FULL },
                Rgba { red: COLOR_FULL, green: COLOR_FULL, blue: 0, alpha: COLOR_FULL },
                Rgba { red: COLOR_FULL, green: COLOR_HALF, blue: 0, alpha: COLOR_FULL },
                Rgba { red: COLOR_FULL, green: 0, blue: 0, alpha: COLOR_FULL },
            ],
            buffer_len: DEFAULT_BUFFER_LEN,
            geometry: Geometry { width: 512, height: 128, anchor: Anchor::TopRight },
        }
    }
}

} // verus!
