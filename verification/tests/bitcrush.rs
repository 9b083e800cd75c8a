use delay_reverb_fx::bitcrush::StereoBitCrush;

#[test]
fn factor_one_takes_every_sample() {
    let mut c = StereoBitCrush::new(0.0f32);
    assert_eq!(c.sample_and_hold(1, 0.5, -0.5), (0.5, -0.5));
    assert_eq!(c.sample_and_hold(1, 0.25, 0.75), (0.25, 0.75));
}

#[test]
fn factor_zero_counts_as_one() {
    let mut c = StereoBitCrush::new(0.0f32);
    assert_eq!(c.sample_and_hold(0, 0.5, -0.5), (0.5, -0.5));
    assert_eq!(c.sample_and_hold(0, 0.1, 0.2), (0.1, 0.2));
}

#[test]
fn takes_every_factor_th_sample() {
    let mut c = StereoBitCrush::new(0i32);
    let mut out = Vec::new();
    for x in 1..=10i32 {
        out.push(c.sample_and_hold(3, x, -x));
    }
    assert_eq!(
        out,
        vec![
            (0, 0),
            (0, 0),
            (3, -3),
            (3, -3),
            (3, -3),
            (6, -6),
            (6, -6),
            (6, -6),
            (9, -9),
            (9, -9),
        ]
    );
}

#[test]
fn lowering_the_factor_takes_at_once() {
    let mut c = StereoBitCrush::new(0i32);
    assert_eq!(c.sample_and_hold(8, 1, 1), (0, 0));
    assert_eq!(c.sample_and_hold(8, 2, 2), (0, 0));
    assert_eq!(c.sample_and_hold(8, 3, 3), (0, 0));
    // the counter is past the new factor: the next call takes a sample
    assert_eq!(c.sample_and_hold(2, 4, 4), (4, 4));
}

#[test]
fn reset_holds_silence_and_restarts_counters() {
    let mut c = StereoBitCrush::new(0.0f32);
    c.sample_and_hold(1, 0.9, 0.9);
    c.sample_and_hold(4, 0.8, 0.8);
    c.reset();
    assert_eq!(c.sample_and_hold(2, 0.7, 0.6), (0.0, 0.0));
    assert_eq!(c.sample_and_hold(2, 0.5, 0.4), (0.5, 0.4));
}
