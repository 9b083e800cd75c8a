use delay_reverb_fx::params::{sync_division_to_ticks, SyncDivision, TICKS_PER_BEAT};

fn beats(div: SyncDivision) -> f32 {
    sync_division_to_ticks(div) as f32 / TICKS_PER_BEAT as f32
}

#[test]
fn division_lengths_in_beats() {
    assert_eq!(beats(SyncDivision::Whole), 4.0);
    assert_eq!(beats(SyncDivision::Half), 2.0);
    assert_eq!(beats(SyncDivision::HalfDotted), 3.0);
    assert_eq!(beats(SyncDivision::Quarter), 1.0);
    assert_eq!(beats(SyncDivision::QuarterDotted), 1.5);
    assert_eq!(beats(SyncDivision::QuarterTriplet), 2.0 / 3.0);
    assert_eq!(beats(SyncDivision::Eighth), 0.5);
    assert_eq!(beats(SyncDivision::EighthDotted), 0.75);
    assert_eq!(beats(SyncDivision::EighthTriplet), 1.0 / 3.0);
    assert_eq!(beats(SyncDivision::Sixteenth), 0.25);
    assert_eq!(beats(SyncDivision::SixteenthDotted), 0.375);
    assert_eq!(beats(SyncDivision::SixteenthTriplet), 1.0 / 6.0);
}

#[test]
fn dotted_and_triplet_ratios() {
    let t = sync_division_to_ticks;
    assert_eq!(2 * t(SyncDivision::QuarterDotted), 3 * t(SyncDivision::Quarter));
    assert_eq!(2 * t(SyncDivision::EighthDotted), 3 * t(SyncDivision::Eighth));
    assert_eq!(3 * t(SyncDivision::EighthTriplet), 2 * t(SyncDivision::Eighth));
    assert_eq!(3 * t(SyncDivision::SixteenthTriplet), 2 * t(SyncDivision::Sixteenth));
    assert_eq!(2 * t(SyncDivision::Half), t(SyncDivision::Whole));
    assert_eq!(t(SyncDivision::Quarter), TICKS_PER_BEAT);
}

#[test]
fn quarter_at_120_bpm_is_half_a_second() {
    let beat_s = 60.0f32 / 120.0;
    assert_eq!(beats(SyncDivision::Quarter) * beat_s, 0.5);
    assert_eq!(beats(SyncDivision::EighthDotted) * beat_s, 0.375);
}
