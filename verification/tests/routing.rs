use delay_reverb_fx::params::RoutingMode;
use delay_reverb_fx::routing::{
    delay_wet_chain, reverb_wet_chain, routing_plan, Effect, Stage, StageInput, SubEffect,
    SubEffectSwitches,
};

fn stage(effect: Effect, input: StageInput) -> Stage {
    Stage { effect, input }
}

#[test]
fn delay_then_reverb_plan() {
    assert_eq!(
        routing_plan(RoutingMode::DelayThenReverb, true, true),
        vec![stage(Effect::Delay, StageInput::Running), stage(Effect::Reverb, StageInput::Running)]
    );
    assert_eq!(
        routing_plan(RoutingMode::DelayThenReverb, false, true),
        vec![stage(Effect::Reverb, StageInput::Running)]
    );
}

#[test]
fn reverb_then_delay_plan() {
    assert_eq!(
        routing_plan(RoutingMode::ReverbThenDelay, true, true),
        vec![stage(Effect::Reverb, StageInput::Running), stage(Effect::Delay, StageInput::Running)]
    );
    assert_eq!(
        routing_plan(RoutingMode::ReverbThenDelay, true, false),
        vec![stage(Effect::Delay, StageInput::Running)]
    );
}

#[test]
fn parallel_plan_reads_dry_input() {
    assert_eq!(
        routing_plan(RoutingMode::Parallel, true, true),
        vec![stage(Effect::Delay, StageInput::Dry), stage(Effect::Reverb, StageInput::Dry)]
    );
}

#[test]
fn nothing_enabled_runs_nothing() {
    for mode in [RoutingMode::DelayThenReverb, RoutingMode::ReverbThenDelay, RoutingMode::Parallel] {
        assert!(routing_plan(mode, false, false).is_empty());
    }
}

#[test]
fn serial_modes_run_in_opposite_orders() {
    for (d, r) in [(false, false), (false, true), (true, false), (true, true)] {
        let mut forward = routing_plan(RoutingMode::DelayThenReverb, d, r);
        forward.reverse();
        assert_eq!(forward, routing_plan(RoutingMode::ReverbThenDelay, d, r));
    }
}

#[test]
fn delay_chain_is_crush_comp_chorus() {
    let all = SubEffectSwitches { crush_on: true, comp_on: true, chorus_on: true };
    assert_eq!(
        delay_wet_chain(&all),
        vec![SubEffect::Crush, SubEffect::Compressor, SubEffect::Chorus]
    );
    let some = SubEffectSwitches { crush_on: false, comp_on: true, chorus_on: true };
    assert_eq!(delay_wet_chain(&some), vec![SubEffect::Compressor, SubEffect::Chorus]);
}

#[test]
fn reverb_chain_is_chorus_crush_comp() {
    let all = SubEffectSwitches { crush_on: true, comp_on: true, chorus_on: true };
    assert_eq!(
        reverb_wet_chain(&all),
        vec![SubEffect::Chorus, SubEffect::Crush, SubEffect::Compressor]
    );
    let some = SubEffectSwitches { crush_on: true, comp_on: false, chorus_on: true };
    assert_eq!(reverb_wet_chain(&some), vec![SubEffect::Chorus, SubEffect::Crush]);
}

#[test]
fn chains_are_empty_when_all_off() {
    let none = SubEffectSwitches { crush_on: false, comp_on: false, chorus_on: false };
    assert!(delay_wet_chain(&none).is_empty());
    assert!(reverb_wet_chain(&none).is_empty());
}
