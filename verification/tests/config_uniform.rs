use frametime_overlay::log2_q16;
use frametime_overlay::ConfigError;
use frametime_overlay::OverlayConfig;
use frametime_overlay::OverlayConfigBuffer;

fn bits(v: f32) -> u32 {
    v.to_bits()
}

fn q16_to_f64(v: i32) -> f64 {
    v as f64 / 65536.0
}

#[test]
fn default_thresholds_are_the_documented_rates() {
    let c = OverlayConfig::default();
    assert_eq!(
        c.thresholds,
        [
            (1.0f32 / 240.0).to_bits(),
            (1.0f32 / 60.0).to_bits(),
            (1.0f32 / 30.0).to_bits(),
            (1.0f32 / 15.0).to_bits(),
        ]
    );
    assert_eq!(c.buffer_len, 100);
}

#[test]
fn derive_passes_config_through() {
    let c = OverlayConfig::default();
    let u = OverlayConfigBuffer::derive(&c).unwrap();
    assert_eq!(u.dt_min, c.thresholds[0]);
    assert_eq!(u.dt_max, c.thresholds[3]);
    assert_eq!(u.dts, c.thresholds);
    assert_eq!(u.colors, c.colors);
    assert_eq!(u.max_width, c.buffer_len);
    assert_eq!(u.len, c.buffer_len);
}

#[test]
fn derive_is_deterministic() {
    // two derivations from one unchanged config are bit-identical
    let c = OverlayConfig::default();
    let u1 = OverlayConfigBuffer::derive(&c).unwrap();
    let u2 = OverlayConfigBuffer::derive(&c).unwrap();
    assert_eq!(u1, u2);
    assert_eq!(u1.dt_min_log2, u2.dt_min_log2);
    assert_eq!(u1.dt_max_log2, u2.dt_max_log2);
}

#[test]
fn log_scale_matches_true_log2_of_outer_thresholds() {
    let c = OverlayConfig::default();
    let u = OverlayConfigBuffer::derive(&c).unwrap();
    let want_min = (1.0f64 / 240.0).log2();
    let want_max = (1.0f64 / 15.0).log2();
    assert!((q16_to_f64(u.dt_min_log2) - want_min).abs() < 1e-4);
    assert!((q16_to_f64(u.dt_max_log2) - want_max).abs() < 1e-4);
}

#[test]
fn log2_exact_on_powers_of_two() {
    assert_eq!(log2_q16(bits(1.0)), 0);
    assert_eq!(log2_q16(bits(2.0)), 65536);
    assert_eq!(log2_q16(bits(0.5)), -65536);
    assert_eq!(log2_q16(bits(0.25)), -2 * 65536);
    assert_eq!(log2_q16(bits(1024.0)), 10 * 65536);
    // the smallest subnormal is also an exact power of two
    assert_eq!(log2_q16(1u32), -149 * 65536);
}

#[test]
fn log2_close_to_true_log2() {
    for v in [0.1f32, 0.0041666667, 3.7, 123456.0, 1.0e-20, 0.9999999] {
        let got = log2_q16(v.to_bits()) as f64 / 65536.0;
        let want = (v as f64).log2();
        assert!(
            (got - want).abs() < 1e-4,
            "log2 of {v}: got {got}, want {want}"
        );
    }
}

#[test]
fn non_increasing_thresholds_rejected() {
    let mut c = OverlayConfig::default();
    c.thresholds = [
        bits(1.0 / 60.0),
        bits(1.0 / 240.0),
        bits(1.0 / 30.0),
        bits(1.0 / 15.0),
    ];
    let r = OverlayConfigBuffer::derive(&c);
    assert!(r.is_err());
    assert_eq!(r.unwrap_err(), ConfigError::NonIncreasingThresholds);
}

#[test]
fn non_positive_threshold_rejected() {
    let mut c = OverlayConfig::default();
    c.thresholds[0] = bits(0.0);
    assert_eq!(
        OverlayConfigBuffer::derive(&c).unwrap_err(),
        ConfigError::NonPositiveThreshold
    );
    c.thresholds[0] = (-0.004f32).to_bits();
    assert_eq!(
        OverlayConfigBuffer::derive(&c).unwrap_err(),
        ConfigError::NonPositiveThreshold
    );
}

#[test]
fn non_finite_threshold_rejected() {
    let mut c = OverlayConfig::default();
    c.thresholds[3] = f32::INFINITY.to_bits();
    assert_eq!(
        OverlayConfigBuffer::derive(&c).unwrap_err(),
        ConfigError::NonFiniteThreshold
    );
    c.thresholds[3] = f32::NAN.to_bits();
    assert_eq!(
        OverlayConfigBuffer::derive(&c).unwrap_err(),
        ConfigError::NonFiniteThreshold
    );
}

#[test]
fn zero_buffer_len_rejected() {
    let mut c = OverlayConfig::default();
    c.buffer_len = 0;
    assert_eq!(
        OverlayConfigBuffer::derive(&c).unwrap_err(),
        ConfigError::ZeroBufferLen
    );
}

#[test]
fn buckets_follow_thresholds() {
    let u = OverlayConfigBuffer::derive(&OverlayConfig::default()).unwrap();
    assert_eq!(u.bucket_index(bits(0.001)), 0);
    assert_eq!(u.bucket_index(bits(0.004)), 0);
    assert_eq!(u.bucket_index(bits(0.02)), 1);
    assert_eq!(u.bucket_index(bits(0.04)), 2);
    assert_eq!(u.bucket_index(bits(0.05)), 3);
    assert_eq!(u.bucket_index(bits(1.0)), 3);
    // a sample exactly at a threshold belongs to that threshold's bucket
    assert_eq!(u.bucket_index(bits(1.0 / 60.0)), 1);
    assert_eq!(u.bucket_index(bits(1.0 / 15.0)), 3);
}

#[test]
fn buckets_monotone_in_sample() {
    let u = OverlayConfigBuffer::derive(&OverlayConfig::default()).unwrap();
    let mut prev = 0;
    for tenth_ms in 0..1000u32 {
        let s = tenth_ms as f32 * 0.0001;
        let b = u.bucket_index(s.to_bits());
        assert!(b >= prev, "bucket dropped from {prev} to {b} at {s}");
        prev = b;
    }
    assert_eq!(prev, 3);
}
