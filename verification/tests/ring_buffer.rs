use frametime_overlay::Frametimes;

fn bits(v: f32) -> u32 {
    v.to_bits()
}

#[test]
fn default_is_zero_filled_at_default_capacity() {
    let ring = Frametimes::default();
    assert_eq!(ring.capacity(), 100);
    assert_eq!(ring.snapshot(), vec![0u32; 100]);
}

#[test]
fn starts_zero_filled() {
    let ring = Frametimes::new(3);
    assert_eq!(ring.capacity(), 3);
    assert_eq!(ring.snapshot(), vec![0u32, 0, 0]);
    assert_eq!(ring.fps(), 0);
}

#[test]
fn push_appends_newest_last() {
    let mut ring = Frametimes::new(3);
    ring.push(bits(0.016));
    assert_eq!(ring.snapshot(), vec![0, 0, bits(0.016)]);
    ring.push(bits(0.017));
    assert_eq!(ring.snapshot(), vec![0, bits(0.016), bits(0.017)]);
}

#[test]
fn length_fixed_under_pushes() {
    let mut ring = Frametimes::new(5);
    for i in 0..12u32 {
        ring.push(bits(0.001 * i as f32));
        assert_eq!(ring.capacity(), 5);
        assert_eq!(ring.snapshot().len(), 5);
    }
}

#[test]
fn fifo_eviction_order_preserved() {
    // capacity + 1 distinct values: the first is evicted, the rest stay in
    // push order
    let mut ring = Frametimes::new(4);
    let vs = [0.010f32, 0.011, 0.012, 0.013, 0.014];
    for v in vs {
        ring.push(bits(v));
    }
    assert_eq!(
        ring.snapshot(),
        vec![bits(0.011), bits(0.012), bits(0.013), bits(0.014)]
    );
}

#[test]
fn degenerate_capacity_one_keeps_latest() {
    let mut ring = Frametimes::new(1);
    ring.push(bits(0.016));
    ring.push(bits(0.033));
    assert_eq!(ring.snapshot(), vec![bits(0.033)]);
}

#[test]
fn malformed_samples_clamp_to_zero() {
    let mut ring = Frametimes::new(3);
    ring.push(f32::NAN.to_bits());
    ring.push((-1.0f32).to_bits());
    ring.push(f32::INFINITY.to_bits());
    assert_eq!(ring.snapshot(), vec![0u32, 0, 0]);
    ring.push(bits(0.02));
    assert_eq!(ring.snapshot(), vec![0, 0, bits(0.02)]);
}

#[test]
fn set_fps_does_not_touch_samples() {
    let mut ring = Frametimes::new(2);
    ring.push(bits(0.008));
    let before = ring.snapshot();
    ring.set_fps(bits(125.0));
    assert_eq!(ring.fps(), bits(125.0));
    assert_eq!(ring.snapshot(), before);
}

#[test]
fn sample_reads_by_index() {
    let mut ring = Frametimes::new(2);
    ring.push(bits(0.004));
    ring.push(bits(0.005));
    assert_eq!(ring.sample(0), bits(0.004));
    assert_eq!(ring.sample(1), bits(0.005));
}
