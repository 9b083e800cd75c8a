//! Routing of the signal through the two main effects and their wet chains.
//!
//! Per sample, the effect runs a plan of stages. Each stage runs one main
//! effect on its input (the dry input, or the running signal: the dry input
//! plus what earlier stages added), passes the wet output through that
//! effect's chain of sub-effects, and adds the result, scaled by the effect's
//! mix, to the running signal.
use vstd::prelude::*;
use crate::params::RoutingMode;

verus! {

/// The two main effects.
#[derive(Clone, Copy, Debug, PartialEq, Eq, Structural)]
pub enum Effect {
    Delay,
    Reverb,
}

/// What a stage feeds its effect.
#[derive(Clone, Copy, Debug, PartialEq, Eq, Structural)]
pub enum StageInput {
    /// The dry input of the sample.
    Dry,
    /// The running signal: the dry input plus the output of earlier stages.
    Running,
}

/// One stage of the plan.
#[derive(Clone, Copy, Debug, PartialEq, Eq, Structural)]
pub struct Stage {
    pub effect: Effect,
    pub input: StageInput,
}

/// The sub-effects of a wet chain.
#[derive(Clone, Copy, Debug, PartialEq, Eq, Structural)]
pub enum SubEffect {
    Crush,
    Compressor,
    Chorus,
}

/// Which sub-effects of a wet chain are switched on.
#[derive(Clone, Copy, Debug, PartialEq, Eq, Structural)]
pub struct SubEffectSwitches {
    pub crush_on: bool,
    pub comp_on: bool,
    pub chorus_on: bool,
}

/// `seq![x]` when `on`, else the empty sequence.
pub open spec fn if_on<A>(on: bool, x: A) -> Seq<A> {
    if on {
        seq![x]
    } else {
        Seq::empty()
    }
}

/// The stages run for a routing mode and the two effects' switches.
pub open spec fn spec_routing_plan(
    mode: RoutingMode,
    delay_enabled: bool,
    reverb_enabled: bool,
) -> Seq<Stage> {
    let delay = |input: StageInput| Stage { effect: Effect::Delay, input };
    let reverb = |input: StageInput| Stage { effect: Effect::Reverb, input };
    match mode {
        RoutingMode::DelayThenReverb => if_on(delay_enabled, delay(StageInput::Running)) + if_on(
            reverb_enabled,
            reverb(StageInput::Running),
        ),
        RoutingMode::ReverbThenDelay => if_on(reverb_enabled, reverb(StageInput::Running))
            + if_on(delay_enabled, delay(StageInput::Running)),
        RoutingMode::Parallel => if_on(delay_enabled, delay(StageInput::Dry)) + if_on(
            reverb_enabled,
            reverb(StageInput::Dry),
        ),
    }
}

/// The delay's wet chain: crush, then compression, then chorus, each only
/// when switched on.
pub open spec fn spec_delay_wet_chain(sw: SubEffectSwitches) -> Seq<SubEffect> {
    if_on(sw.crush_on, SubEffect::Crush) + if_on(sw.comp_on, SubEffect::Compressor) + if_on(
        sw.chorus_on,
        SubEffect::Chorus,
    )
}

/// The reverb's wet chain: chorus, then crush, then compression, each only
/// when switched on.
pub open spec fn spec_reverb_wet_chain(sw: SubEffectSwitches) -> Seq<SubEffect> {
    if_on(sw.chorus_on, SubEffect::Chorus) + if_on(sw.crush_on, SubEffect::Crush) + if_on(
        sw.comp_on,
        SubEffect::Compressor,
    )
}

/// Whether the sub-effect `s` is switched on in `sw`.
pub open spec fn switched_on(sw: SubEffectSwitches, s: SubEffect) -> bool {
    match s {
        SubEffect::Crush => sw.crush_on,
        SubEffect::Compressor => sw.comp_on,
        SubEffect::Chorus => sw.chorus_on,
    }
}

/// Whether the main effect `e` is switched on.
pub open spec fn effect_on(e: Effect, delay_enabled: bool, reverb_enabled: bool) -> bool {
    match e {
        Effect::Delay => delay_enabled,
        Effect::Reverb => reverb_enabled,
    }
}

/// The stages to run, in order, for a routing mode: in the serial modes each
/// enabled effect reads the running signal, in parallel mode each reads the
/// dry input.
pub fn routing_plan(mode: RoutingMode, delay_enabled: bool, reverb_enabled: bool) -> (plan: Vec<
    Stage,
>)
    ensures
        plan@ == spec_routing_plan(mode, delay_enabled, reverb_enabled),
{
    let mut plan: Vec<Stage> = Vec::new();
    match mode {
        RoutingMode::DelayThenReverb => {
            if delay_enabled {
                plan.push(Stage { effect: Effect::Delay, input: StageInput::Running });
            }
            if reverb_enabled {
                plan.push(Stage { effect: Effect::Reverb, input: StageInput::Running });
            }
        },
        RoutingMode::ReverbThenDelay => {
            if reverb_enabled {
                plan.push(Stage { effect: Effect::Reverb, input: StageInput::Running });
            }
            if delay_enabled {
                plan.push(Stage { effect: Effect::Delay, input: StageInput::Running });
            }
        },
        RoutingMode::Parallel => {
            if delay_enabled {
                plan.push(Stage { effect: Effect::Delay, input: StageInput::Dry });
            }
            if reverb_enabled {
                plan.push(Stage { effect: Effect::Reverb, input: StageInput::Dry });
            }
        },
    }
    proof {
        assert(plan@ =~= spec_routing_plan(mode, delay_enabled, reverb_enabled));
    }
    plan
}

/// The sub-effects the delay's wet signal goes through, in order.
pub fn delay_wet_chain(sw: &SubEffectSwitches) -> (chain: Vec<SubEffect>)
    ensures
        chain@ == spec_delay_wet_chain(*sw),
{
    let mut chain: Vec<SubEffect> = Vec::new();
    if sw.crush_on {
        chain.push(SubEffect::Crush);
    }
    if sw.comp_on {
        chain.push(SubEffect::Compressor);
    }
    if sw.chorus_on {
        chain.push(SubEffect::Chorus);
    }
    proof {
        assert(chain@ =~= spec_delay_wet_chain(*sw));
    }
    chain
}

/// The sub-effects the reverb's wet signal goes through, in order.
pub fn reverb_wet_chain(sw: &SubEffectSwitches) -> (chain: Vec<SubEffect>)
    ensures
        chain@ == spec_reverb_wet_chain(*sw),
{
    let mut chain: Vec<SubEffect> = Vec::new();
    if sw.chorus_on {
        chain.push(SubEffect::Chorus);
    }
    if sw.crush_on {
        chain.push(SubEffect::Crush);
    }
    if sw.comp_on {
        chain.push(SubEffect::Compressor);
    }
    proof {
        assert(chain@ =~= spec_reverb_wet_chain(*sw));
    }
    chain
}

/// Every enabled main effect runs exactly once per sample and a disabled one
/// never runs, whatever the routing mode.
pub proof fn lemma_plan_runs_enabled_effects_once(
    mode: RoutingMode,
    delay_enabled: bool,
    reverb_enabled: bool,
)
    ensures
        ({
            let plan = spec_routing_plan(mode, delay_enabled, reverb_enabled);
            &&& plan.len() == (if delay_enabled { 1int } else { 0 }) + (if reverb_enabled {
                1int
            } else {
                0
            })
            &&& forall|i: int|
                0 <= i < plan.len() ==> effect_on(
                    #[trigger] plan[i].effect,
                    delay_enabled,
                    reverb_enabled,
                )
            &&& forall|i: int, j: int|
                0 <= i < j < plan.len() ==> #[trigger] plan[i].effect != #[trigger] plan[j].effect
        }),
{
}

/// In parallel mode every stage reads the dry input; in the serial modes
/// every stage reads the running signal.
pub proof fn lemma_plan_inputs(mode: RoutingMode, delay_enabled: bool, reverb_enabled: bool)
    ensures
        forall|i: int|
            0 <= i < spec_routing_plan(mode, delay_enabled, reverb_enabled).len() ==> (#[trigger] spec_routing_plan(
                mode,
                delay_enabled,
                reverb_enabled,
            )[i].input == if mode == RoutingMode::Parallel {
                StageInput::Dry
            } else {
                StageInput::Running
            }),
{
}

/// In delay-then-reverb mode no reverb stage comes before a delay stage, and
/// in reverb-then-delay mode no delay stage comes before a reverb stage.
pub proof fn lemma_serial_mode_orders(delay_enabled: bool, reverb_enabled: bool)
    ensures
        forall|i: int, j: int|
            0 <= i < j < spec_routing_plan(
                RoutingMode::DelayThenReverb,
                delay_enabled,
                reverb_enabled,
            ).len() ==> !(#[trigger] spec_routing_plan(
                RoutingMode::DelayThenReverb,
                delay_enabled,
                reverb_enabled,
            )[i].effect == Effect::Reverb && #[trigger] spec_routing_plan(
                RoutingMode::DelayThenReverb,
                delay_enabled,
                reverb_enabled,
            )[j].effect == Effect::Delay),
        forall|i: int, j: int|
            0 <= i < j < spec_routing_plan(
                RoutingMode::ReverbThenDelay,
                delay_enabled,
                reverb_enabled,
            ).len() ==> !(#[trigger] spec_routing_plan(
                RoutingMode::ReverbThenDelay,
                delay_enabled,
                reverb_enabled,
            )[i].effect == Effect::Delay && #[trigger] spec_routing_plan(
                RoutingMode::ReverbThenDelay,
                delay_enabled,
                reverb_enabled,
            )[j].effect == Effect::Reverb),
{
}

/// Position of a sub-effect in the delay's wet chain order: crush,
/// compression, chorus.
pub open spec fn delay_chain_rank(s: SubEffect) -> int {
    match s {
        SubEffect::Crush => 0,
        SubEffect::Compressor => 1,
        SubEffect::Chorus => 2,
    }
}

/// Position of a sub-effect in the reverb's wet chain order: chorus, crush,
/// compression.
pub open spec fn reverb_chain_rank(s: SubEffect) -> int {
    match s {
        SubEffect::Chorus => 0,
        SubEffect::Crush => 1,
        SubEffect::Compressor => 2,
    }
}

/// The wet chains keep their documented orders: the delay's runs crush before
/// compression before chorus, the reverb's chorus before crush before
/// compression.
pub proof fn lemma_wet_chain_orders(sw: SubEffectSwitches)
    ensures
        forall|i: int, j: int|
            0 <= i < j < spec_delay_wet_chain(sw).len() ==> delay_chain_rank(
                #[trigger] spec_delay_wet_chain(sw)[i],
            ) < delay_chain_rank(#[trigger] spec_delay_wet_chain(sw)[j]),
        forall|i: int, j: int|
            0 <= i < j < spec_reverb_wet_chain(sw).len() ==> reverb_chain_rank(
                #[trigger] spec_reverb_wet_chain(sw)[i],
            ) < reverb_chain_rank(#[trigger] spec_reverb_wet_chain(sw)[j]),
{
}

/// The two serial modes run the same stages in opposite orders.
pub proof fn lemma_serial_modes_reverse(delay_enabled: bool, reverb_enabled: bool)
    ensures
        spec_routing_plan(RoutingMode::ReverbThenDelay, delay_enabled, reverb_enabled)
            =~= spec_routing_plan(
            RoutingMode::DelayThenReverb,
            delay_enabled,
            reverb_enabled,
        ).reverse(),
{
}

/// A wet chain holds every switched-on sub-effect exactly once, and nothing
/// else.
pub proof fn lemma_wet_chains_hold_switched_on(sw: SubEffectSwitches)
    ensures
        forall|s: SubEffect|
            #![trigger spec_delay_wet_chain(sw).contains(s)]
            spec_delay_wet_chain(sw).contains(s) <==> switched_on(sw, s),
        forall|s: SubEffect|
            #![trigger spec_reverb_wet_chain(sw).contains(s)]
            spec_reverb_wet_chain(sw).contains(s) <==> switched_on(sw, s),
        spec_delay_wet_chain(sw).no_duplicates(),
        spec_reverb_wet_chain(sw).no_duplicates(),
{
    assert forall|s: SubEffect| spec_delay_wet_chain(sw).contains(s) <==> switched_on(sw, s) by {
        if switched_on(sw, s) {
            let c = spec_delay_wet_chain(sw);
            match s {
                SubEffect::Crush => assert(c[0] == s),
                SubEffect::Compressor => assert(c[if sw.crush_on { 1int } else { 0 }] == s),
                SubEffect::Chorus => assert(c[c.len() - 1] == s),
            }
        }
    }
    assert forall|s: SubEffect| spec_reverb_wet_chain(sw).contains(s) <==> switched_on(sw, s) by {
        if switched_on(sw, s) {
            let c = spec_reverb_wet_chain(sw);
            match s {
                SubEffect::Chorus => assert(c[0] == s),
                SubEffect::Crush => assert(c[if sw.chorus_on { 1int } else { 0 }] == s),
                SubEffect::Compressor => assert(c[c.len() - 1] == s),
            }
        }
    }
}

} // verus!
