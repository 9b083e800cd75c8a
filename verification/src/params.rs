//! The effect's discrete parameters: routing mode and tempo-sync division.
use vstd::prelude::*;

verus! {

/// How the delay and the reverb are chained.
#[derive(Clone, Copy, Debug, PartialEq, Eq, Structural)]
pub enum RoutingMode {
    /// Delay first; the reverb gets the delayed signal.
    DelayThenReverb,
    /// Reverb first; the delay gets the reverberated signal.
    ReverbThenDelay,
    /// Both get the dry input and their outputs are summed.
    Parallel,
}

/// Note value the delay time follows when it is synced to the tempo.
#[derive(Clone, Copy, Debug, PartialEq, Eq, Structural)]
pub enum SyncDivision {
    Whole,
    Half,
    HalfDotted,
    Quarter,
    QuarterDotted,
    QuarterTriplet,
    Eighth,
    EighthDotted,
    EighthTriplet,
    Sixteenth,
    SixteenthDotted,
    SixteenthTriplet,
}

/// Ticks in one beat (a quarter note). Every division is a whole number of
/// ticks, so a length in beats is `ticks / TICKS_PER_BEAT`, exactly.
pub const TICKS_PER_BEAT: u32 = 24;

/// The length of a division in ticks.
pub open spec fn division_ticks(div: SyncDivision) -> int {
    match div {
        SyncDivision::Whole => 96,
        SyncDivision::Half => 48,
        SyncDivision::HalfDotted => 72,
        SyncDivision::Quarter => 24,
        SyncDivision::QuarterDotted => 36,
        SyncDivision::QuarterTriplet => 16,
        SyncDivision::Eighth => 12,
        SyncDivision::EighthDotted => 18,
        SyncDivision::EighthTriplet => 8,
        SyncDivision::Sixteenth => 6,
        SyncDivision::SixteenthDotted => 9,
        SyncDivision::SixteenthTriplet => 4,
    }
}

/// The length of a division in ticks: in beats it is 4 for a whole note, 2
/// for a half, 1 for a quarter, 1/2 for an eighth and 1/4 for a sixteenth;
/// a dotted note is 3/2 and a triplet 2/3 of the plain one.
pub fn sync_division_to_ticks(div: SyncDivision) -> (ticks: u32)
    ensures
        ticks == division_ticks(div),
{
    match div {
        SyncDivision::Whole => 96,
        SyncDivision::Half => 48,
        SyncDivision::HalfDotted => 72,
        SyncDivision::Quarter => 24,
        SyncDivision::QuarterDotted => 36,
        SyncDivision::QuarterTriplet => 16,
        SyncDivision::Eighth => 12,
        SyncDivision::EighthDotted => 18,
        SyncDivision::EighthTriplet => 8,
        SyncDivision::Sixteenth => 6,
        SyncDivision::SixteenthDotted => 9,
        SyncDivision::SixteenthTriplet => 4,
    }
}

/// The dotted form of a plain note value, where the set has one.
pub open spec fn dotted_of(div: SyncDivision) -> Option<SyncDivision> {
    match div {
        SyncDivision::Half => Some(SyncDivision::HalfDotted),
        SyncDivision::Quarter => Some(SyncDivision::QuarterDotted),
        SyncDivision::Eighth => Some(SyncDivision::EighthDotted),
        SyncDivision::Sixteenth => Some(SyncDivision::SixteenthDotted),
        _ => None,
    }
}

/// The triplet form of a plain note value, where the set has one.
pub open spec fn triplet_of(div: SyncDivision) -> Option<SyncDivision> {
    match div {
        SyncDivision::Quarter => Some(SyncDivision::QuarterTriplet),
        SyncDivision::Eighth => Some(SyncDivision::EighthTriplet),
        SyncDivision::Sixteenth => Some(SyncDivision::SixteenthTriplet),
        _ => None,
    }
}

/// The next shorter plain note value.
pub open spec fn half_of(div: SyncDivision) -> Option<SyncDivision> {
    match div {
        SyncDivision::Whole => Some(SyncDivision::Half),
        SyncDivision::Half => Some(SyncDivision::Quarter),
        SyncDivision::Quarter => Some(SyncDivision::Eighth),
        SyncDivision::Eighth => Some(SyncDivision::Sixteenth),
        _ => None,
    }
}

/// A dotted note lasts one and a half times its plain note.
pub proof fn lemma_dotted_is_three_halves(div: SyncDivision)
    requires
        dotted_of(div) is Some,
    ensures
        2 * division_ticks(dotted_of(div)->0) == 3 * division_ticks(div),
{
}

/// A triplet note lasts two thirds of its plain note.
pub proof fn lemma_triplet_is_two_thirds(div: SyncDivision)
    requires
        triplet_of(div) is Some,
    ensures
        3 * division_ticks(triplet_of(div)->0) == 2 * division_ticks(div),
{
}

/// Each plain note value lasts half the one above it, and a quarter note is
/// one beat.
pub proof fn lemma_plain_values_halve(div: SyncDivision)
    ensures
        half_of(div) is Some ==> 2 * division_ticks(half_of(div)->0) == division_ticks(div),
        division_ticks(SyncDivision::Quarter) == TICKS_PER_BEAT,
{
}

/// Every division has a positive length.
pub proof fn lemma_division_positive(div: SyncDivision)
    ensures
        division_ticks(div) > 0,
{
}

} // verus!
