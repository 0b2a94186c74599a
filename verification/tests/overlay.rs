use frametime_overlay::ConfigError;
use frametime_overlay::Overlay;
use frametime_overlay::OverlayConfig;
use frametime_overlay::Rgba;

fn bits(v: f32) -> u32 {
    v.to_bits()
}

fn small_config(buffer_len: usize) -> OverlayConfig {
    let mut c = OverlayConfig::default();
    c.buffer_len = buffer_len;
    c
}

#[test]
fn end_to_end_scenario() {
    // capacity 4, five pushes: the oldest sample is gone, the rest are in
    // order, and the slow samples land in the yellow-or-worse buckets
    let mut overlay = Overlay::new(small_config(4)).unwrap();
    for v in [0.01f32, 0.02, 0.03, 0.04, 0.05] {
        overlay.on_update(bits(v));
    }
    assert_eq!(
        overlay.snapshot(),
        vec![bits(0.02), bits(0.03), bits(0.04), bits(0.05)]
    );
    assert_eq!(overlay.bucket_index(bits(0.02)), 1);
    assert_eq!(overlay.bucket_index(bits(0.05)), 3);
}

#[test]
fn prepare_uploads_once() {
    // both sides need their initial upload; with nothing new, the second
    // prepare asks for nothing
    let mut overlay = Overlay::new(small_config(4)).unwrap();
    let first = overlay.on_prepare();
    assert!(first.upload_frametimes);
    assert!(first.upload_config);
    let second = overlay.on_prepare();
    assert!(!second.upload_frametimes);
    assert!(!second.upload_config);
}

#[test]
fn update_dirties_only_the_sample_side() {
    let mut overlay = Overlay::new(small_config(4)).unwrap();
    overlay.on_prepare();
    overlay.on_update(bits(0.016));
    let acts = overlay.on_prepare();
    assert!(acts.upload_frametimes);
    assert!(!acts.upload_config);
}

#[test]
fn set_fps_dirties_the_sample_side() {
    let mut overlay = Overlay::new(small_config(4)).unwrap();
    overlay.on_prepare();
    overlay.set_fps(bits(60.0));
    assert_eq!(overlay.fps(), bits(60.0));
    let acts = overlay.on_prepare();
    assert!(acts.upload_frametimes);
    assert!(!acts.upload_config);
}

#[test]
fn unchanged_config_is_a_no_op() {
    let mut overlay = Overlay::new(small_config(4)).unwrap();
    overlay.on_prepare();
    assert!(overlay.set_config(small_config(4)).is_ok());
    let acts = overlay.on_prepare();
    assert!(!acts.upload_config);
    assert!(!acts.upload_frametimes);
}

#[test]
fn changed_config_rederives_and_uploads() {
    let mut overlay = Overlay::new(small_config(4)).unwrap();
    overlay.on_prepare();
    let mut c = small_config(4);
    c.colors[0] = Rgba {
        red: 0,
        green: 0,
        blue: bits(1.0),
        alpha: bits(1.0),
    };
    assert!(overlay.set_config(c).is_ok());
    assert_eq!(overlay.uniform().colors[0], c.colors[0]);
    let acts = overlay.on_prepare();
    assert!(acts.upload_config);
    assert!(!acts.upload_frametimes);
}

#[test]
fn invalid_config_change_is_rejected_and_ignored() {
    let mut overlay = Overlay::new(small_config(4)).unwrap();
    overlay.on_prepare();
    let before = *overlay.uniform();
    let mut c = small_config(4);
    c.thresholds[0] = bits(0.0);
    assert_eq!(
        overlay.set_config(c).unwrap_err(),
        ConfigError::NonPositiveThreshold
    );
    assert_eq!(*overlay.uniform(), before);
    let acts = overlay.on_prepare();
    assert!(!acts.upload_config);
}

#[test]
fn capacity_change_is_rejected() {
    let mut overlay = Overlay::new(small_config(4)).unwrap();
    assert_eq!(
        overlay.set_config(small_config(8)).unwrap_err(),
        ConfigError::BufferLenMismatch
    );
    assert_eq!(overlay.capacity(), 4);
}

#[test]
fn overlay_rejects_invalid_startup_config() {
    let mut c = small_config(4);
    c.thresholds = [
        bits(1.0 / 60.0),
        bits(1.0 / 240.0),
        bits(1.0 / 30.0),
        bits(1.0 / 15.0),
    ];
    match Overlay::new(c) {
        Ok(_) => panic!("an invalid config must not produce an overlay"),
        Err(e) => assert_eq!(e, ConfigError::NonIncreasingThresholds),
    }
}

#[test]
fn overlay_starts_zero_filled() {
    let overlay = Overlay::new(small_config(3)).unwrap();
    assert_eq!(overlay.snapshot(), vec![0u32, 0, 0]);
    assert_eq!(overlay.fps(), 0);
    assert_eq!(overlay.capacity(), 3);
}
