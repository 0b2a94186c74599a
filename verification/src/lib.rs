//! Core of a frame-time overlay: a fixed-capacity ring buffer of recent
//! per-frame durations, a small configuration type with four color-coded
//! duration buckets, a pure transform that derives the flat numeric
//! structure a renderer consumes (including base-2 logarithms of the
//! outer thresholds), and the dirty-checked handoff bookkeeping that
//! decides when those structures must be re-uploaded to the GPU.
//!
//! Durations are carried as the raw bit patterns of IEEE-754
//! single-precision values, held in `u32`; see [`sample`].

mod config;
mod frametimes;
mod log2;
mod overlay;
mod sample;
mod uniform;

pub use config::Anchor;
pub use config::COLOR_FULL;
pub use config::COLOR_HALF;
pub use config::ConfigError;
pub use config::DEFAULT_BUFFER_LEN;
pub use config::DEFAULT_DT_0;
pub use config::DEFAULT_DT_1;
pub use config::DEFAULT_DT_2;
pub use config::DEFAULT_DT_3;
pub use config::Geometry;
pub use config::OverlayConfig;
pub use config::Rgba;
pub use config::config_error;
pub use config::config_valid;
pub use config::lemma_config_valid_iff_no_error;
pub use config::threshold_error;
pub use config::thresholds_valid;
pub use frametimes::Frametimes;
pub use frametimes::FrametimesView;
pub use frametimes::lemma_shift_in_all_evicts;
pub use frametimes::lemma_shift_in_all_preserves_len;
pub use frametimes::lemma_shift_in_all_window;
pub use frametimes::shift_in;
pub use frametimes::shift_in_all;
pub use log2::Q16_ONE;
pub use log2::lemma_log2_frac_bits_bounds;
pub use log2::lemma_log2_frac_bits_of_one;
pub use log2::lemma_log2_frac_bits_monotone;
pub use log2::lemma_log2_q16_monotone;
pub use log2::lemma_log2_q16_pow2;
pub use log2::lemma_normalize_monotone;
pub use log2::lemma_log2_q16_range;
pub use log2::lemma_normalize;
pub use log2::log2_frac_bits;
pub use log2::log2_q16;
pub use log2::normalize;
pub use log2::raw_exponent;
pub use log2::raw_mantissa;
pub use log2::sig_exp;
pub use log2::spec_log2_q16;
pub use overlay::Overlay;
pub use overlay::OverlayState;
pub use overlay::PrepareActions;
pub use overlay::lemma_prepare_idempotent;
pub use overlay::prepare_step;
pub use overlay::upload_decision;
pub use sample::SAMPLE_LIMIT;
pub use sample::clamp_sample;
pub use sample::sample_ok;
pub use sample::spec_clamp_sample;
pub use uniform::OverlayConfigBuffer;
pub use uniform::bucket_of;
pub use uniform::lemma_bucket_monotone;
pub use uniform::lemma_derive_deterministic;
pub use uniform::spec_derive;
pub use uniform::uniform_of;
