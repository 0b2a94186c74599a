//! The flat numeric structure the renderer consumes, derived from an
//! [`OverlayConfig`]: the outer thresholds and their base-2 logarithms,
//! the bar-width divisor, and the thresholds and colors passed through.

use vstd::prelude::*;

use crate::config::config_error;
use crate::config::config_valid;
use crate::config::lemma_config_valid_iff_no_error;
use crate::config::threshold_error;
use crate::config::thresholds_valid;
use crate::config::ConfigError;
use crate::config::OverlayConfig;
use crate::config::Rgba;
use crate::log2::lemma_log2_q16_monotone;
use crate::log2::lemma_log2_q16_range;
use crate::log2::log2_q16;
use crate::log2::spec_log2_q16;
use crate::sample::sample_ok;
use crate::sample::SAMPLE_LIMIT;

verus! {

/// The uniform contents uploaded for the renderer: a pure function of the
/// configuration, recomputed only when the configuration changes.
#[derive(Clone, Copy, Debug, PartialEq)]
pub struct OverlayConfigBuffer {
    /// The lowest threshold.
    pub dt_min: u32,
    /// The highest threshold.
    pub dt_max: u32,
    /// Base-2 logarithm of the lowest threshold, Q16.16 fixed point.
    pub dt_min_log2: i32,
    /// Base-2 logarithm of the highest threshold, Q16.16 fixed point.
    pub dt_max_log2: i32,
    /// The bar-width divisor: bar widths are normalized against this many
    /// samples.
    pub max_width: usize,
    /// The number of samples rendered; equals the ring-buffer capacity.
    pub len: usize,
    /// The bucket colors, passed through unchanged.
    pub colors: [Rgba; 4],
    /// The bucket thresholds, passed through unchanged.
    pub dts: [u32; 4],
}

/// What `derive` produces on a valid configuration.
pub open spec fn uniform_of(c: OverlayConfig) -> OverlayConfigBuffer {
    OverlayConfigBuffer {
        dt_min: c.thresholds[0],
        dt_max: c.thresholds[3],
        dt_min_log2: spec_log2_q16(c.thresholds[0]) as i32,
        dt_max_log2: spec_log2_q16(c.thresholds[3]) as i32,
        max_width: c.buffer_len,
        len: c.buffer_len,
        colors: c.colors,
        dts: c.thresholds,
    }
}

/// What `derive` produces on any configuration: the uniform structure on a
/// valid one, the error for the first check that fails otherwise.
pub open spec fn spec_derive(c: OverlayConfig) -> Result<OverlayConfigBuffer, ConfigError> {
    if config_valid(c) {
        Ok(uniform_of(c))
    } else {
        Err(config_error(c)->Some_0)
    }
}

/// Deriving is deterministic: two results of `derive` on one unchanged
/// configuration are identical, bit for bit.
pub proof fn lemma_derive_deterministic(
    c: OverlayConfig,
    r1: Result<OverlayConfigBuffer, ConfigError>,
    r2: Result<OverlayConfigBuffer, ConfigError>,
)
    requires
        r1 == spec_derive(c),
        r2 == spec_derive(c),
    ensures
        r1 == r2,
{
}

/// The bucket a sample falls in: the index of the threshold nearest to it
/// on the log scale (the boundaries are the geometric midpoints between
/// consecutive thresholds), with ties going to the higher bucket and a
/// zero sample in bucket zero. Written over the Q16.16 logarithms:
/// a sample is below the geometric midpoint of two thresholds exactly when
/// twice its logarithm is below the sum of theirs.
pub open spec fn bucket_of(dts: [u32; 4], sample: u32) -> int
    recommends
        thresholds_valid(dts),
        sample_ok(sample),
{
    if sample == 0 {
        0
    } else {
        let l = spec_log2_q16(sample);
        if 2 * l < spec_log2_q16(dts[0]) + spec_log2_q16(dts[1]) {
            0
        } else if 2 * l < spec_log2_q16(dts[1]) + spec_log2_q16(dts[2]) {
            1
        } else if 2 * l < spec_log2_q16(dts[2]) + spec_log2_q16(dts[3]) {
            2
        } else {
            3
        }
    }
}

/// Bars never improve as frames slow down: under any valid thresholds, the
/// bucket assignment is monotone in the sample.
pub proof fn lemma_bucket_monotone(dts: [u32; 4], s1: u32, s2: u32)
    requires
        thresholds_valid(dts),
        sample_ok(s1),
        sample_ok(s2),
        s1 <= s2,
    ensures
        bucket_of(dts, s1) <= bucket_of(dts, s2),
{
    if s1 != 0 {
        lemma_log2_q16_monotone(s1, s2);
    }
}

/// Reports whether a single threshold is usable.
fn check_threshold(t: u32) -> (r: Option<ConfigError>)
    ensures
        r == threshold_error(t),
{
    if t == 0 || t >= 0x8000_0000 {
        Some(ConfigError::NonPositiveThreshold)
    } else if t >= SAMPLE_LIMIT {
        Some(ConfigError::NonFiniteThreshold)
    } else {
        None
    }
}

impl OverlayConfigBuffer {
    /// Derives the uniform structure from a configuration: a pure,
    /// deterministic, total function over valid configurations. A
    /// configuration with a non-positive, non-finite or non-increasing
    /// threshold, or an empty buffer, is rejected with the matching error
    /// and produces no structure.
    pub fn derive(config: &OverlayConfig) -> (r: Result<OverlayConfigBuffer, ConfigError>)
        ensures
            r == spec_derive(*config),
            r is Ok <==> config_valid(*config),
    {
        proof {
            lemma_config_valid_iff_no_error(*config);
        }
        if let Some(e) = check_threshold(config.thresholds[0]) {
            return Err(e);
        }
        if let Some(e) = check_threshold(config.thresholds[1]) {
            return Err(e);
        }
        if let Some(e) = check_threshold(config.thresholds[2]) {
            return Err(e);
        }
        if let Some(e) = check_threshold(config.thresholds[3]) {
            return Err(e);
        }
        if !(config.thresholds[0] < config.thresholds[1]
            && config.thresholds[1] < config.thresholds[2]
            && config.thresholds[2] < config.thresholds[3]) {
            return Err(ConfigError::NonIncreasingThresholds);
        }
        if config.buffer_len == 0 {
            return Err(ConfigError::ZeroBufferLen);
        }
        let dt_min: u32 = config.thresholds[0];
        let dt_max: u32 = config.thresholds[3];
        let dt_min_log2: i32 = log2_q16(dt_min);
        let dt_max_log2: i32 = log2_q16(dt_max);
        proof {
            lemma_log2_q16_range(dt_min);
            lemma_log2_q16_range(dt_max);
        }
        Ok(
            OverlayConfigBuffer {
                dt_min,
                dt_max,
                dt_min_log2,
                dt_max_log2,
                max_width: config.buffer_len,
                len: config.buffer_len,
                colors: config.colors,
                dts: config.thresholds,
            },
        )
    }

    /// The bucket `sample` falls in, an index into the colors: the
    /// threshold nearest on the log scale, ties towards the higher bucket.
    pub fn bucket_index(&self, sample: u32) -> (idx: usize)
        requires
            thresholds_valid(self.dts),
            sample_ok(sample),
        ensures
            idx as int == bucket_of(self.dts, sample),
            idx < 4,
    {
        if sample == 0 {
            return 0;
        }
        let l: i32 = log2_q16(sample);
        let l0: i32 = log2_q16(self.dts[0]);
        let l1: i32 = log2_q16(self.dts[1]);
        let l2: i32 = log2_q16(self.dts[2]);
        let l3: i32 = log2_q16(self.dts[3]);
        proof {
            lemma_log2_q16_range(sample);
            lemma_log2_q16_range(self.dts[0]);
            lemma_log2_q16_range(self.dts[1]);
            lemma_log2_q16_range(self.dts[2]);
            lemma_log2_q16_range(self.dts[3]);
        }
        if 2 * l < l0 + l1 {
            0
        } else if 2 * l < l1 + l2 {
            1
        } else if 2 * l < l2 + l3 {
            2
        } else {
            3
        }
    }
}

} // verus!
