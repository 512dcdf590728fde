//! A burn in vacuum until the first engine runs dry: what takes part in it, and what it leaves.
use crate::burn::{
    are_groups, are_places, burn_down, burn_duration, burned_out, duration_of, engine_networks,
    is_burned_down, is_first_with_id, is_group, is_rated_solid, lemma_above_a_trace,
    rated_solid_engines, EngineGroup,
};
use crate::craft::lemma_filter_step;
use crate::fuel::{
    drain_liquid_fuel_network, feeding_levels, feeding_tanks, is_drain, lemma_drain_of, levels,
    liquid_fuel_available, module_of, part_module,
};
use crate::number::{
    law_integer_has_its_value, law_larger_and_smaller, law_order_is_numeric,
    law_whole_numbers_compare, Real, EPSILON,
};
use crate::parts::{DefinitionView, PartCatalog, PartModule};
use crate::vessel::{RuntimePart, Vessel};
use std::collections::BTreeSet;
use vstd::arithmetic::power2::*;
use vstd::prelude::*;

verus! {

/// The liquid engines of one network in a burn, with what their tanks hold.
#[derive(Debug)]
pub struct LiquidBurn {
    pub members: BTreeSet<u64>,
    pub thrust: Real,
    pub flow: Real,
    pub available: Real,
}

/// A solid engine in a burn, with its propellant.
#[derive(Debug, Clone, Copy)]
pub struct SolidBurn {
    pub id: u64,
    pub thrust: Real,
    pub flow: Real,
    pub fuel: Real,
}

/// What computes a burn. `rates` gives thrust and mass flow of an engine by its ratings;
/// `total` is a sum; `lasting` tells how long an amount lasts at a flow, and `used` how much a
/// flow takes in a time; `rest` says what is left of a level of a network when so much of all
/// that it holds is taken, and `left` what is left of a load; `mass` is that of a vessel; and
/// `gain` is the change of velocity at a thrust and a flow from one mass to another.
pub struct Propulsion<E, T, Q, X, R, L, W, N> {
    pub rates: E,
    pub total: T,
    pub lasting: Q,
    pub used: X,
    pub rest: R,
    pub left: L,
    pub mass: W,
    pub gain: N,
}

/// Thrust and specific impulse of an engine in vacuum; none for what is no engine.
pub open spec fn vacuum_rating(
    part: RuntimePart,
    catalog: Map<Seq<char>, DefinitionView>,
) -> (u32, u32) {
    match module_of(part, catalog) {
        Some(
            PartModule::LiquidEngine { thrust_vac, thrust_sl: _, isp_vac, isp_sl: _, gimbal_deg: _ },
        ) => (thrust_vac, isp_vac),
        Some(PartModule::SolidEngine { thrust, isp, fuel: _ }) => (thrust, isp),
        _ => (0, 0),
    }
}

fn rating(part: &RuntimePart, catalog: &PartCatalog) -> (r: (u32, u32))
    ensures
        r == vacuum_rating(*part, catalog@),
{
    match part_module(part, catalog) {
        Some(PartModule::LiquidEngine { thrust_vac, isp_vac, .. }) => (thrust_vac, isp_vac),
        Some(PartModule::SolidEngine { thrust, isp, .. }) => (thrust, isp),
        _ => (0, 0),
    }
}

/// Whether these are thrust and mass flow of the engines at those places.
pub open spec fn are_rated<E: Fn(u32, u32) -> (Real, Real)>(
    parts: Seq<RuntimePart>,
    catalog: Map<Seq<char>, DefinitionView>,
    places: Seq<usize>,
    thrusts: Seq<Real>,
    flows: Seq<Real>,
    rates: E,
) -> bool {
    &&& thrusts.len() == places.len()
    &&& flows.len() == places.len()
    &&& forall|k: int|
        0 <= k < places.len() ==> call_ensures(
            rates,
            vacuum_rating(parts[(#[trigger] places[k]) as int], catalog),
            (thrusts[k], flows[k]),
        )
}

/// Whether `sum` is the sum of the values.
pub open spec fn is_sum<T: Fn(Vec<Real>) -> Real>(values: Seq<Real>, sum: Real, total: T) -> bool {
    exists|held: Vec<Real>| #[trigger] call_ensures(total, (held,), sum) && held@ == values
}

/// Whether the burn is that of the group: thrust and flow of all its engines, and what is in
/// all its tanks.
pub open spec fn is_assessed<
    E: Fn(u32, u32) -> (Real, Real),
    T: Fn(Vec<Real>) -> Real,
>(
    parts: Seq<RuntimePart>,
    catalog: Map<Seq<char>, DefinitionView>,
    group: EngineGroup,
    burn: LiquidBurn,
    rates: E,
    total: T,
) -> bool {
    &&& burn.members@ == group.members@
    &&& is_sum(feeding_levels(parts, catalog, group.members@), burn.available, total)
    &&& exists|thrusts: Seq<Real>, flows: Seq<Real>|
        {
            &&& #[trigger] are_rated(parts, catalog, group.engines@, thrusts, flows, rates)
            &&& is_sum(thrusts, burn.thrust, total)
            &&& is_sum(flows, burn.flow, total)
        }
}

/// Whether the network takes part: its engines draw from it, and it holds more than a trace.
pub open spec fn takes_part(burn: LiquidBurn) -> bool {
    Real::spec_of(0).spec_below(burn.flow) && Real::spec_of(EPSILON).spec_below(burn.available)
}

/// Whether the burns are those of the groups, one for each.
pub open spec fn are_assessed<
    E: Fn(u32, u32) -> (Real, Real),
    T: Fn(Vec<Real>) -> Real,
>(
    parts: Seq<RuntimePart>,
    catalog: Map<Seq<char>, DefinitionView>,
    groups: Seq<EngineGroup>,
    burns: Seq<LiquidBurn>,
    rates: E,
    total: T,
) -> bool {
    &&& burns.len() == groups.len()
    &&& forall|g: int|
        0 <= g < groups.len() ==> is_assessed(
            parts,
            catalog,
            #[trigger] groups[g],
            burns[g],
            rates,
            total,
        )
}

/// Whether the burns are those of the networks of lit engines that take part, in the order of
/// the networks.
pub open spec fn are_liquid<
    E: Fn(u32, u32) -> (Real, Real),
    T: Fn(Vec<Real>) -> Real,
>(
    parts: Seq<RuntimePart>,
    catalog: Map<Seq<char>, DefinitionView>,
    liquid: Seq<LiquidBurn>,
    rates: E,
    total: T,
) -> bool {
    exists|groups: Seq<EngineGroup>, burns: Seq<LiquidBurn>|
        {
            &&& are_groups(parts, catalog, true, parts.len() as int, groups)
            &&& #[trigger] are_assessed(parts, catalog, groups, burns, rates, total)
            &&& liquid == burns.filter(|burn: LiquidBurn| takes_part(burn))
        }
}

/// Whether the places are those of the lit solid engines that can drive the vessel.
pub open spec fn are_solid_places(
    parts: Seq<RuntimePart>,
    catalog: Map<Seq<char>, DefinitionView>,
    places: Seq<usize>,
) -> bool {
    are_places(
        parts,
        |part: RuntimePart| is_rated_solid(part, catalog),
        parts.len() as int,
        places,
    )
}

/// Whether the burn is that of the solid engine at that place, with the propellant of the
/// first part with its number.
pub open spec fn is_solid_burn_of<E: Fn(u32, u32) -> (Real, Real)>(
    parts: Seq<RuntimePart>,
    catalog: Map<Seq<char>, DefinitionView>,
    place: int,
    burn: SolidBurn,
    rates: E,
) -> bool {
    &&& burn.id == parts[place].instance.instance_id
    &&& call_ensures(rates, vacuum_rating(parts[place], catalog), (burn.thrust, burn.flow))
    &&& exists|first: int| #[trigger]
        is_first_with_id(parts, burn.id, first) && burn.fuel == parts[first].fuel
}

/// Whether the burns are those of the lit solid engines that can drive the vessel, in their
/// order.
pub open spec fn are_solid<E: Fn(u32, u32) -> (Real, Real)>(
    parts: Seq<RuntimePart>,
    catalog: Map<Seq<char>, DefinitionView>,
    solid: Seq<SolidBurn>,
    rates: E,
) -> bool {
    exists|places: Seq<usize>|
        {
            &&& #[trigger] are_solid_places(parts, catalog, places)
            &&& solid.len() == places.len()
            &&& forall|k: int|
                0 <= k < places.len() ==> is_solid_burn_of(
                    parts,
                    catalog,
                    (#[trigger] places[k]) as int,
                    solid[k],
                    rates,
                )
        }
}

/// Whether `sum` is the sum over both kinds.
pub open spec fn is_joint_sum<T: Fn(Vec<Real>) -> Real>(
    liquid: Seq<Real>,
    solid: Seq<Real>,
    sum: Real,
    total: T,
) -> bool {
    exists|a: Real, b: Real|
        {
            &&& #[trigger] is_sum(liquid, a, total)
            &&& #[trigger] is_sum(solid, b, total)
            &&& is_sum(seq![a, b], sum, total)
        }
}

/// Whether these are the times for which the propellant of each lasts, those of the networks
/// first.
pub open spec fn are_times<Q: Fn(Real, Real) -> Real>(
    liquid: Seq<LiquidBurn>,
    solid: Seq<SolidBurn>,
    times: Seq<Real>,
    lasting: Q,
) -> bool {
    &&& times.len() == liquid.len() + solid.len()
    &&& forall|k: int|
        0 <= k < liquid.len() ==> call_ensures(
            lasting,
            ((#[trigger] liquid[k]).available, liquid[k].flow),
            times[k],
        )
    &&& forall|k: int|
        0 <= k < solid.len() ==> call_ensures(
            lasting,
            ((#[trigger] solid[k]).fuel, solid[k].flow),
            times[liquid.len() + k],
        )
}

/// Whether `after` is the vessel `before` with what that network burns in a time taken out of
/// its tanks.
pub open spec fn is_drawn<
    T: Fn(Vec<Real>) -> Real,
    X: Fn(Real, Real) -> Real,
    R: Fn(Real, Real, Real) -> Real,
>(
    before: Vessel,
    after: Vessel,
    catalog: Map<Seq<char>, DefinitionView>,
    burn: LiquidBurn,
    duration: Real,
    total: T,
    used: X,
    rest: R,
) -> bool {
    exists|amount: Real, taken: Real|
        {
            &&& #[trigger] call_ensures(used, (burn.flow, duration), amount)
            &&& #[trigger] is_drain(
                before,
                after,
                feeding_tanks(catalog, burn.members@),
                amount,
                taken,
                total,
                rest,
            )
        }
}

/// Whether `after` is the vessel `before` after the first `n` networks burned for a time.
pub open spec fn are_drawn<
    T: Fn(Vec<Real>) -> Real,
    X: Fn(Real, Real) -> Real,
    R: Fn(Real, Real, Real) -> Real,
>(
    before: Vessel,
    after: Vessel,
    catalog: Map<Seq<char>, DefinitionView>,
    liquid: Seq<LiquidBurn>,
    n: nat,
    duration: Real,
    total: T,
    used: X,
    rest: R,
) -> bool
    decreases n,
{
    if n == 0 {
        after == before
    } else {
        exists|middle: Vessel|
            are_drawn(before, middle, catalog, liquid, (n - 1) as nat, duration, total, used, rest)
                && #[trigger] is_drawn(
                middle,
                after,
                catalog,
                liquid[n - 1],
                duration,
                total,
                used,
                rest,
            )
    }
}

/// Whether `after` is the vessel `before` after that solid engine burned for a time.
pub open spec fn is_fired<
    X: Fn(Real, Real) -> Real,
    L: Fn(Real, Real) -> Real,
>(
    before: Vessel,
    after: Vessel,
    burn: SolidBurn,
    duration: Real,
    used: X,
    left: L,
) -> bool {
    if exists|first: int| is_first_with_id(before.parts@, burn.id, first) {
        exists|first: int, amount: Real, load: Real|
            {
                &&& #[trigger] is_first_with_id(before.parts@, burn.id, first)
                &&& #[trigger] call_ensures(used, (burn.flow, duration), amount)
                &&& #[trigger] call_ensures(left, (before.parts@[first].fuel, amount), load)
                &&& is_burned_down(before, after, burn.id, load)
            }
    } else {
        after == before
    }
}

/// Whether `after` is the vessel `before` after the first `n` solid engines burned for a time.
pub open spec fn are_fired<
    X: Fn(Real, Real) -> Real,
    L: Fn(Real, Real) -> Real,
>(
    before: Vessel,
    after: Vessel,
    solid: Seq<SolidBurn>,
    n: nat,
    duration: Real,
    used: X,
    left: L,
) -> bool
    decreases n,
{
    if n == 0 {
        after == before
    } else {
        exists|middle: Vessel|
            are_fired(before, middle, solid, (n - 1) as nat, duration, used, left)
                && #[trigger] is_fired(middle, after, solid[n - 1], duration, used, left)
    }
}

/// Whether a burn of that length leads from `before` to `after`, with that gain: there is one
/// where the vessel gets lighter and something of it is left.
pub open spec fn is_burned_for<
    E: Fn(u32, u32) -> (Real, Real),
    T: Fn(Vec<Real>) -> Real,
    Q: Fn(Real, Real) -> Real,
    X: Fn(Real, Real) -> Real,
    R: Fn(Real, Real, Real) -> Real,
    L: Fn(Real, Real) -> Real,
    W: Fn(&Vessel) -> Real,
    N: Fn(Real, Real, Real, Real) -> Real,
>(
    before: Vessel,
    after: Vessel,
    gain: Option<Real>,
    catalog: Map<Seq<char>, DefinitionView>,
    liquid: Seq<LiquidBurn>,
    solid: Seq<SolidBurn>,
    thrust: Real,
    flow: Real,
    duration: Real,
    propulsion: Propulsion<E, T, Q, X, R, L, W, N>,
) -> bool {
    exists|drawn: Vessel, heavy: Real, light: Real|
        {
            &&& #[trigger] are_drawn(
                before,
                drawn,
                catalog,
                liquid,
                liquid.len(),
                duration,
                propulsion.total,
                propulsion.used,
                propulsion.rest,
            )
            &&& are_fired(
                drawn,
                after,
                solid,
                solid.len(),
                duration,
                propulsion.used,
                propulsion.left,
            )
            &&& #[trigger] call_ensures(propulsion.mass, (&before,), heavy)
            &&& #[trigger] call_ensures(propulsion.mass, (&after,), light)
            &&& match gain {
                Some(gain) => light.spec_below(heavy) && Real::spec_of(0).spec_below(light)
                    && call_ensures(propulsion.gain, (thrust, flow, heavy, light), gain),
                None => !(light.spec_below(heavy) && Real::spec_of(0).spec_below(light)),
            }
        }
}

/// Whether a burn of those engines leads from `before` to `after`, with that gain. Nothing
/// burns without thrust or without flow, and where the burn would last no time or be endless.
pub open spec fn is_burned_by<
    E: Fn(u32, u32) -> (Real, Real),
    T: Fn(Vec<Real>) -> Real,
    Q: Fn(Real, Real) -> Real,
    X: Fn(Real, Real) -> Real,
    R: Fn(Real, Real, Real) -> Real,
    L: Fn(Real, Real) -> Real,
    W: Fn(&Vessel) -> Real,
    N: Fn(Real, Real, Real, Real) -> Real,
>(
    before: Vessel,
    after: Vessel,
    gain: Option<Real>,
    catalog: Map<Seq<char>, DefinitionView>,
    liquid: Seq<LiquidBurn>,
    solid: Seq<SolidBurn>,
    thrust: Real,
    flow: Real,
    propulsion: Propulsion<E, T, Q, X, R, L, W, N>,
) -> bool {
    if thrust.spec_at_most(Real::spec_of(0)) || flow.spec_at_most(Real::spec_of(0)) {
        after == before && gain is None
    } else {
        exists|times: Seq<Real>| #[trigger]
            are_times(liquid, solid, times, propulsion.lasting) && match duration_of(times) {
                Some(duration) => is_burned_for(
                    before,
                    after,
                    gain,
                    catalog,
                    liquid,
                    solid,
                    thrust,
                    flow,
                    duration,
                    propulsion,
                ),
                None => after == before && gain is None,
            }
    }
}

/// Whether these are the engines of a burn, with their thrust and flow together.
pub open spec fn are_burning<
    E: Fn(u32, u32) -> (Real, Real),
    T: Fn(Vec<Real>) -> Real,
>(
    parts: Seq<RuntimePart>,
    catalog: Map<Seq<char>, DefinitionView>,
    liquid: Seq<LiquidBurn>,
    solid: Seq<SolidBurn>,
    thrust: Real,
    flow: Real,
    rates: E,
    total: T,
) -> bool {
    &&& are_liquid(parts, catalog, liquid, rates, total)
    &&& are_solid(parts, catalog, solid, rates)
    &&& is_joint_sum(
        liquid.map_values(|burn: LiquidBurn| burn.thrust),
        solid.map_values(|burn: SolidBurn| burn.thrust),
        thrust,
        total,
    )
    &&& is_joint_sum(
        liquid.map_values(|burn: LiquidBurn| burn.flow),
        solid.map_values(|burn: SolidBurn| burn.flow),
        flow,
        total,
    )
}

/// Whether `after` is the vessel `before` after all that is lit burned together until the
/// first engine ran dry, with that gain.
pub open spec fn is_interval<
    E: Fn(u32, u32) -> (Real, Real),
    T: Fn(Vec<Real>) -> Real,
    Q: Fn(Real, Real) -> Real,
    X: Fn(Real, Real) -> Real,
    R: Fn(Real, Real, Real) -> Real,
    L: Fn(Real, Real) -> Real,
    W: Fn(&Vessel) -> Real,
    N: Fn(Real, Real, Real, Real) -> Real,
>(
    before: Vessel,
    after: Vessel,
    gain: Option<Real>,
    catalog: Map<Seq<char>, DefinitionView>,
    propulsion: Propulsion<E, T, Q, X, R, L, W, N>,
) -> bool {
    exists|liquid: Seq<LiquidBurn>, solid: Seq<SolidBurn>, thrust: Real, flow: Real|
        {
            &&& #[trigger] are_burning(
                before.parts@,
                catalog,
                liquid,
                solid,
                thrust,
                flow,
                propulsion.rates,
                propulsion.total,
            )
            &&& is_burned_by(
                before,
                after,
                gain,
                catalog,
                liquid,
                solid,
                thrust,
                flow,
                propulsion,
            )
        }
}

/// Whether the propulsion can be asked anything.
pub open spec fn is_primed<
    E: Fn(u32, u32) -> (Real, Real),
    T: Fn(Vec<Real>) -> Real,
    Q: Fn(Real, Real) -> Real,
    X: Fn(Real, Real) -> Real,
    R: Fn(Real, Real, Real) -> Real,
    L: Fn(Real, Real) -> Real,
    W: Fn(&Vessel) -> Real,
    N: Fn(Real, Real, Real, Real) -> Real,
>(propulsion: Propulsion<E, T, Q, X, R, L, W, N>) -> bool {
    &&& forall|a: u32, b: u32| call_requires(propulsion.rates, (a, b))
    &&& forall|a: Vec<Real>| call_requires(propulsion.total, (a,))
    &&& forall|a: Real, b: Real| call_requires(propulsion.lasting, (a, b))
    &&& forall|a: Real, b: Real| call_requires(propulsion.used, (a, b))
    &&& forall|a: Real, b: Real, c: Real| call_requires(propulsion.rest, (a, b, c))
    &&& forall|a: Real, b: Real| call_requires(propulsion.left, (a, b))
    &&& forall|v: &Vessel| call_requires(propulsion.mass, (v,))
    &&& forall|a: Real, b: Real, c: Real, d: Real| call_requires(propulsion.gain, (a, b, c, d))
}

fn sum<T: Fn(Vec<Real>) -> Real>(values: Vec<Real>, total: &T) -> (r: Real)
    requires
        forall|a: Vec<Real>| call_requires(*total, (a,)),
    ensures
        is_sum(values@, r, *total),
{
    let ghost held = values;
    let r = total(values);
    proof {
        assert(call_ensures(*total, (held,), r));
    }
    r
}

fn joint_sum<T: Fn(Vec<Real>) -> Real>(liquid: Vec<Real>, solid: Vec<Real>, total: &T) -> (r: Real)
    requires
        forall|a: Vec<Real>| call_requires(*total, (a,)),
    ensures
        is_joint_sum(liquid@, solid@, r, *total),
{
    let a = sum(liquid, total);
    let b = sum(solid, total);
    let both = vec![a, b];
    proof {
        assert(both@ =~= seq![a, b]);
    }
    sum(both, total)
}

fn rate_engines<E: Fn(u32, u32) -> (Real, Real)>(
    vessel: &Vessel,
    catalog: &PartCatalog,
    places: &Vec<usize>,
    rates: &E,
) -> (r: (Vec<Real>, Vec<Real>))
    requires
        forall|a: u32, b: u32| call_requires(*rates, (a, b)),
        forall|k: int| 0 <= k < places@.len() ==> (#[trigger] places@[k]) < vessel.parts@.len(),
    ensures
        are_rated(vessel.parts@, catalog@, places@, r.0@, r.1@, *rates),
{
    let mut thrusts: Vec<Real> = Vec::new();
    let mut flows: Vec<Real> = Vec::new();
    for i in 0..places.len()
        invariant
            forall|a: u32, b: u32| call_requires(*rates, (a, b)),
            forall|k: int|
                0 <= k < places@.len() ==> (#[trigger] places@[k]) < vessel.parts@.len(),
            thrusts@.len() == i,
            flows@.len() == i,
            forall|k: int|
                0 <= k < i ==> call_ensures(
                    *rates,
                    vacuum_rating(vessel.parts@[(#[trigger] places@[k]) as int], catalog@),
                    (thrusts@[k], flows@[k]),
                ),
    {
        proof {
            assert(places@[i as int] < vessel.parts@.len());
        }
        let rated = rating(&vessel.parts[places[i]], catalog);
        let (thrust, flow) = rates(rated.0, rated.1);
        thrusts.push(thrust);
        flows.push(flow);
    }
    (thrusts, flows)
}

fn assess<
    E: Fn(u32, u32) -> (Real, Real),
    T: Fn(Vec<Real>) -> Real,
>(
    vessel: &Vessel,
    catalog: &PartCatalog,
    group: &EngineGroup,
    rates: &E,
    total: &T,
) -> (r: LiquidBurn)
    requires
        forall|a: u32, b: u32| call_requires(*rates, (a, b)),
        forall|a: Vec<Real>| call_requires(*total, (a,)),
        is_group(vessel.parts@, catalog@, true, vessel.parts@.len() as int, *group),
    ensures
        is_assessed(vessel.parts@, catalog@, *group, r, *rates, *total),
{
    let (thrusts, flows) = rate_engines(vessel, catalog, &group.engines, rates);
    let ghost rated = (thrusts@, flows@);
    let thrust = sum(thrusts, total);
    let flow = sum(flows, total);
    let available = sum(liquid_fuel_available(vessel, catalog, &group.members), total);
    proof {
        assert(are_rated(vessel.parts@, catalog@, group.engines@, rated.0, rated.1, *rates));
    }
    LiquidBurn { members: group.members.clone(), thrust, flow, available }
}

fn liquid_burns<
    E: Fn(u32, u32) -> (Real, Real),
    T: Fn(Vec<Real>) -> Real,
>(vessel: &Vessel, catalog: &PartCatalog, rates: &E, total: &T) -> (r: Vec<LiquidBurn>)
    requires
        forall|a: u32, b: u32| call_requires(*rates, (a, b)),
        forall|a: Vec<Real>| call_requires(*total, (a,)),
    ensures
        are_liquid(vessel.parts@, catalog@, r@, *rates, *total),
{
    let groups = engine_networks(vessel, catalog, true);
    let mut kept: Vec<LiquidBurn> = Vec::new();
    let ghost mut all: Seq<LiquidBurn> = seq![];
    let ghost wanted = |burn: LiquidBurn| takes_part(burn);
    proof {
        assert(all.take(0) =~= all);
        reveal(Seq::filter);
        assert(all.filter(wanted) =~= seq![]);
    }
    for g in 0..groups.len()
        invariant
            forall|a: u32, b: u32| call_requires(*rates, (a, b)),
            forall|a: Vec<Real>| call_requires(*total, (a,)),
            are_groups(vessel.parts@, catalog@, true, vessel.parts@.len() as int, groups@),
            wanted == (|burn: LiquidBurn| takes_part(burn)),
            all.len() == g,
            kept@ == all.filter(wanted),
            forall|k: int|
                0 <= k < g ==> is_assessed(
                    vessel.parts@,
                    catalog@,
                    #[trigger] groups@[k],
                    all[k],
                    *rates,
                    *total,
                ),
    {
        proof {
            assert(is_group(
                vessel.parts@,
                catalog@,
                true,
                vessel.parts@.len() as int,
                groups@[g as int],
            ));
        }
        let burn = assess(vessel, catalog, &groups[g], rates, total);
        let ghost more = all.push(burn);
        proof {
            lemma_filter_step(more, wanted, g as int);
            assert(more.take(g as int) =~= all);
            assert(more.take(g + 1) =~= more);
        }
        if Real::zero().is_below(burn.flow) && Real::of(EPSILON).is_below(burn.available) {
            kept.push(burn);
        }
        proof {
            all = more;
        }
    }
    proof {
        assert(are_assessed(vessel.parts@, catalog@, groups@, all, *rates, *total));
    }
    kept
}

fn first_with(parts: &Vec<RuntimePart>, id: u64) -> (r: Option<usize>)
    ensures
        match r {
            Some(first) => is_first_with_id(parts@, id, first as int),
            None => forall|i: int| !#[trigger] is_first_with_id(parts@, id, i),
        },
{
    for i in 0..parts.len()
        invariant
            forall|k: int| 0 <= k < i ==> (#[trigger] parts@[k]).instance.instance_id != id,
    {
        if parts[i].instance.instance_id == id {
            return Some(i);
        }
    }
    None
}

fn solid_burns<E: Fn(u32, u32) -> (Real, Real)>(
    vessel: &Vessel,
    catalog: &PartCatalog,
    rates: &E,
) -> (r: Vec<SolidBurn>)
    requires
        forall|a: u32, b: u32| call_requires(*rates, (a, b)),
    ensures
        are_solid(vessel.parts@, catalog@, r@, *rates),
{
    let places = rated_solid_engines(vessel, catalog);
    let mut r: Vec<SolidBurn> = Vec::new();
    proof {
        assert(are_solid_places(vessel.parts@, catalog@, places@));
    }
    for i in 0..places.len()
        invariant
            forall|a: u32, b: u32| call_requires(*rates, (a, b)),
            are_solid_places(vessel.parts@, catalog@, places@),
            r@.len() == i,
            forall|k: int|
                0 <= k < i ==> is_solid_burn_of(
                    vessel.parts@,
                    catalog@,
                    (#[trigger] places@[k]) as int,
                    r@[k],
                    *rates,
                ),
    {
        let place: usize = places[i];
        proof {
            assert(places@[i as int] < vessel.parts@.len());
        }
        let rated = rating(&vessel.parts[place], catalog);
        let (thrust, flow) = rates(rated.0, rated.1);
        let id: u64 = vessel.parts[place].instance.instance_id;
        let found = first_with(&vessel.parts, id);
        let fuel = match found {
            Some(first) => vessel.parts[first].fuel,
            None => vessel.parts[place].fuel,
        };
        proof {
            lemma_some_is_first(vessel.parts@, id, place as int);
            assert(found is Some && is_first_with_id(vessel.parts@, id, found->0 as int));
            assert(rated == vacuum_rating(vessel.parts@[place as int], catalog@));
            assert(call_ensures(*rates, rated, (thrust, flow)));
        }
        let burn = SolidBurn { id, thrust, flow, fuel };
        proof {
            assert(burn.id == vessel.parts@[place as int].instance.instance_id);
            assert(burn.fuel == vessel.parts@[found->0 as int].fuel);
            assert(is_first_with_id(vessel.parts@, burn.id, found->0 as int));
            assert(call_ensures(
                *rates,
                vacuum_rating(vessel.parts@[place as int], catalog@),
                (burn.thrust, burn.flow),
            ));
            assert(is_solid_burn_of(vessel.parts@, catalog@, place as int, burn, *rates));
        }
        r.push(burn);
    }
    r
}

proof fn lemma_some_is_first(parts: Seq<RuntimePart>, id: u64, place: int)
    requires
        0 <= place < parts.len(),
        parts[place].instance.instance_id == id,
    ensures
        exists|first: int| is_first_with_id(parts, id, first),
    decreases place,
{
    if exists|k: int| 0 <= k < place && (#[trigger] parts[k]).instance.instance_id == id {
        let k = choose|k: int|
            0 <= k < place && (#[trigger] parts[k]).instance.instance_id == id;
        lemma_some_is_first(parts, id, k);
    } else {
        assert(is_first_with_id(parts, id, place));
    }
}

fn burn_times<Q: Fn(Real, Real) -> Real>(
    liquid: &Vec<LiquidBurn>,
    solid: &Vec<SolidBurn>,
    lasting: &Q,
) -> (r: Vec<Real>)
    requires
        forall|a: Real, b: Real| call_requires(*lasting, (a, b)),
    ensures
        are_times(liquid@, solid@, r@, *lasting),
{
    let mut r: Vec<Real> = Vec::new();
    for i in 0..liquid.len()
        invariant
            forall|a: Real, b: Real| call_requires(*lasting, (a, b)),
            r@.len() == i,
            forall|k: int|
                0 <= k < i ==> call_ensures(
                    *lasting,
                    ((#[trigger] liquid@[k]).available, liquid@[k].flow),
                    r@[k],
                ),
    {
        r.push(lasting(liquid[i].available, liquid[i].flow));
    }
    for i in 0..solid.len()
        invariant
            forall|a: Real, b: Real| call_requires(*lasting, (a, b)),
            r@.len() == liquid@.len() + i,
            forall|k: int|
                0 <= k < liquid@.len() ==> call_ensures(
                    *lasting,
                    ((#[trigger] liquid@[k]).available, liquid@[k].flow),
                    r@[k],
                ),
            forall|k: int|
                0 <= k < i ==> call_ensures(
                    *lasting,
                    ((#[trigger] solid@[k]).fuel, solid@[k].flow),
                    r@[liquid@.len() + k],
                ),
    {
        r.push(lasting(solid[i].fuel, solid[i].flow));
    }
    r
}

fn liquid_column(liquid: &Vec<LiquidBurn>, flows: bool) -> (r: Vec<Real>)
    ensures
        flows ==> r@ == liquid@.map_values(|burn: LiquidBurn| burn.flow),
        !flows ==> r@ == liquid@.map_values(|burn: LiquidBurn| burn.thrust),
{
    let mut r: Vec<Real> = Vec::new();
    for i in 0..liquid.len()
        invariant
            r@.len() == i,
            forall|k: int|
                0 <= k < i ==> #[trigger] r@[k] == if flows {
                    liquid@[k].flow
                } else {
                    liquid@[k].thrust
                },
    {
        r.push(
            if flows {
                liquid[i].flow
            } else {
                liquid[i].thrust
            },
        );
    }
    proof {
        if flows {
            assert(r@ =~= liquid@.map_values(|burn: LiquidBurn| burn.flow));
        } else {
            assert(r@ =~= liquid@.map_values(|burn: LiquidBurn| burn.thrust));
        }
    }
    r
}

fn solid_column(solid: &Vec<SolidBurn>, flows: bool) -> (r: Vec<Real>)
    ensures
        flows ==> r@ == solid@.map_values(|burn: SolidBurn| burn.flow),
        !flows ==> r@ == solid@.map_values(|burn: SolidBurn| burn.thrust),
{
    let mut r: Vec<Real> = Vec::new();
    for i in 0..solid.len()
        invariant
            r@.len() == i,
            forall|k: int|
                0 <= k < i ==> #[trigger] r@[k] == if flows {
                    solid@[k].flow
                } else {
                    solid@[k].thrust
                },
    {
        r.push(
            if flows {
                solid[i].flow
            } else {
                solid[i].thrust
            },
        );
    }
    proof {
        if flows {
            assert(r@ =~= solid@.map_values(|burn: SolidBurn| burn.flow));
        } else {
            assert(r@ =~= solid@.map_values(|burn: SolidBurn| burn.thrust));
        }
    }
    r
}

fn draw<
    T: Fn(Vec<Real>) -> Real,
    X: Fn(Real, Real) -> Real,
    R: Fn(Real, Real, Real) -> Real,
>(
    vessel: &mut Vessel,
    catalog: &PartCatalog,
    liquid: &Vec<LiquidBurn>,
    duration: Real,
    total: &T,
    used: &X,
    rest: &R,
)
    requires
        forall|a: Vec<Real>| call_requires(*total, (a,)),
        forall|a: Real, b: Real| call_requires(*used, (a, b)),
        forall|a: Real, b: Real, c: Real| call_requires(*rest, (a, b, c)),
    ensures
        are_drawn(
            *old(vessel),
            *final(vessel),
            catalog@,
            liquid@,
            liquid@.len(),
            duration,
            *total,
            *used,
            *rest,
        ),
{
    let ghost before = *vessel;
    for i in 0..liquid.len()
        invariant
            forall|a: Vec<Real>| call_requires(*total, (a,)),
            forall|a: Real, b: Real| call_requires(*used, (a, b)),
            forall|a: Real, b: Real, c: Real| call_requires(*rest, (a, b, c)),
            are_drawn(
                before,
                *vessel,
                catalog@,
                liquid@,
                i as nat,
                duration,
                *total,
                *used,
                *rest,
            ),
    {
        let ghost middle = *vessel;
        let amount = used(liquid[i].flow, duration);
        let taken = drain_liquid_fuel_network(
            vessel,
            catalog,
            &liquid[i].members,
            amount,
            total,
            rest,
        );
        proof {
            assert(call_ensures(*used, (liquid@[i as int].flow, duration), amount));
            assert(is_drain(
                middle,
                *vessel,
                feeding_tanks(catalog@, liquid@[i as int].members@),
                amount,
                taken,
                *total,
                *rest,
            ));
            assert(liquid@[(i + 1) - 1] == liquid@[i as int]);
            assert(is_drawn(
                middle,
                *vessel,
                catalog@,
                liquid@[(i + 1) - 1],
                duration,
                *total,
                *used,
                *rest,
            ));
            assert(are_drawn(
                before,
                middle,
                catalog@,
                liquid@,
                ((i + 1) - 1) as nat,
                duration,
                *total,
                *used,
                *rest,
            ));
            assert(are_drawn(
                before,
                *vessel,
                catalog@,
                liquid@,
                (i + 1) as nat,
                duration,
                *total,
                *used,
                *rest,
            ));
        }
    }
}

fn fire<
    X: Fn(Real, Real) -> Real,
    L: Fn(Real, Real) -> Real,
>(vessel: &mut Vessel, solid: &Vec<SolidBurn>, duration: Real, used: &X, left: &L)
    requires
        forall|a: Real, b: Real| call_requires(*used, (a, b)),
        forall|a: Real, b: Real| call_requires(*left, (a, b)),
    ensures
        are_fired(
            *old(vessel),
            *final(vessel),
            solid@,
            solid@.len(),
            duration,
            *used,
            *left,
        ),
{
    let ghost before = *vessel;
    for i in 0..solid.len()
        invariant
            forall|a: Real, b: Real| call_requires(*used, (a, b)),
            forall|a: Real, b: Real| call_requires(*left, (a, b)),
            are_fired(before, *vessel, solid@, i as nat, duration, *used, *left),
    {
        let ghost middle = *vessel;
        if let Some(first) = first_with(&vessel.parts, solid[i].id) {
            let amount = used(solid[i].flow, duration);
            let fuel = vessel.parts[first].fuel;
            let load = left(fuel, amount);
            burn_down(vessel, solid[i].id, load);
            proof {
                assert(is_first_with_id(middle.parts@, solid@[i as int].id, first as int));
                assert(call_ensures(*used, (solid@[i as int].flow, duration), amount));
                assert(call_ensures(
                    *left,
                    (middle.parts@[first as int].fuel, amount),
                    load,
                ));
            }
        }
        proof {
            assert(solid@[(i + 1) - 1] == solid@[i as int]);
            assert(is_fired(middle, *vessel, solid@[(i + 1) - 1], duration, *used, *left));
            assert(are_fired(
                before,
                middle,
                solid@,
                ((i + 1) - 1) as nat,
                duration,
                *used,
                *left,
            ));
            assert(are_fired(
                before,
                *vessel,
                solid@,
                (i + 1) as nat,
                duration,
                *used,
                *left,
            ));
        }
    }
}

/// Burns all that is lit together until the first engine runs dry, and gives the change of
/// velocity, if there is one.
pub fn burn_vacuum_interval<
    E: Fn(u32, u32) -> (Real, Real),
    T: Fn(Vec<Real>) -> Real,
    Q: Fn(Real, Real) -> Real,
    X: Fn(Real, Real) -> Real,
    R: Fn(Real, Real, Real) -> Real,
    L: Fn(Real, Real) -> Real,
    W: Fn(&Vessel) -> Real,
    N: Fn(Real, Real, Real, Real) -> Real,
>(
    vessel: &mut Vessel,
    catalog: &PartCatalog,
    propulsion: &Propulsion<E, T, Q, X, R, L, W, N>,
) -> (r: Option<Real>)
    requires
        is_primed(*propulsion),
    ensures
        is_interval(*old(vessel), *final(vessel), r, catalog@, *propulsion),
{
    let ghost before = *vessel;
    let liquid = liquid_burns(vessel, catalog, &propulsion.rates, &propulsion.total);
    let solid = solid_burns(vessel, catalog, &propulsion.rates);
    let thrust = joint_sum(
        liquid_column(&liquid, false),
        solid_column(&solid, false),
        &propulsion.total,
    );
    let flow = joint_sum(
        liquid_column(&liquid, true),
        solid_column(&solid, true),
        &propulsion.total,
    );
    proof {
        assert(are_burning(
            before.parts@,
            catalog@,
            liquid@,
            solid@,
            thrust,
            flow,
            propulsion.rates,
            propulsion.total,
        ));
    }
    if thrust.is_at_most(Real::zero()) || flow.is_at_most(Real::zero()) {
        return None;
    }
    let times = burn_times(&liquid, &solid, &propulsion.lasting);
    proof {
        assert(are_times(liquid@, solid@, times@, propulsion.lasting));
    }
    let duration = match burn_duration(&times) {
        Some(duration) => duration,
        None => {
            return None;
        },
    };
    let heavy = (propulsion.mass)(vessel);
    draw(
        vessel,
        catalog,
        &liquid,
        duration,
        &propulsion.total,
        &propulsion.used,
        &propulsion.rest,
    );
    let ghost drawn = *vessel;
    fire(vessel, &solid, duration, &propulsion.used, &propulsion.left);
    let light = (propulsion.mass)(vessel);
    let r = if light.is_below(heavy) && Real::zero().is_below(light) {
        Some((propulsion.gain)(thrust, flow, heavy, light))
    } else {
        None
    };
    proof {
        assert(call_ensures(propulsion.mass, (&before,), heavy));
        assert(call_ensures(propulsion.mass, (&*vessel,), light));
        assert(is_burned_for(
            before,
            *vessel,
            r,
            catalog@,
            liquid@,
            solid@,
            thrust,
            flow,
            duration,
            *propulsion,
        ));
    }
    r
}

/// What no burn changes: the vessel but for its parts, and which parts it has, what they hang
/// on, and whether they fly.
pub open spec fn keeps_hull(before: Vessel, after: Vessel) -> bool {
    &&& after == (Vessel { parts: after.parts, ..before })
    &&& after.parts@.len() == before.parts@.len()
    &&& forall|i: int|
        0 <= i < before.parts@.len() ==> (#[trigger] after.parts@[i]) == (RuntimePart {
            fuel: after.parts@[i].fuel,
            active: after.parts@[i].active,
            ..before.parts@[i]
        }) && (after.parts@[i].active ==> before.parts@[i].active)
}

proof fn lemma_hull_on(a: Vessel, b: Vessel, c: Vessel)
    requires
        keeps_hull(a, b),
        keeps_hull(b, c),
    ensures
        keeps_hull(a, c),
{
    assert forall|i: int| 0 <= i < a.parts@.len() implies (#[trigger] c.parts@[i]) == (
    RuntimePart {
        fuel: c.parts@[i].fuel,
        active: c.parts@[i].active,
        ..a.parts@[i]
    }) && (c.parts@[i].active ==> a.parts@[i].active) by {
        assert(b.parts@[i] == (RuntimePart {
            fuel: b.parts@[i].fuel,
            active: b.parts@[i].active,
            ..a.parts@[i]
        }));
    }
}

proof fn lemma_drawn_keeps_hull<
    T: Fn(Vec<Real>) -> Real,
    X: Fn(Real, Real) -> Real,
    R: Fn(Real, Real, Real) -> Real,
>(
    before: Vessel,
    after: Vessel,
    catalog: Map<Seq<char>, DefinitionView>,
    liquid: Seq<LiquidBurn>,
    n: nat,
    duration: Real,
    total: T,
    used: X,
    rest: R,
)
    requires
        are_drawn(before, after, catalog, liquid, n, duration, total, used, rest),
    ensures
        keeps_hull(before, after),
    decreases n,
{
    if n > 0 {
        let middle = choose|middle: Vessel|
            are_drawn(before, middle, catalog, liquid, (n - 1) as nat, duration, total, used, rest)
                && #[trigger] is_drawn(
                middle,
                after,
                catalog,
                liquid[n - 1],
                duration,
                total,
                used,
                rest,
            );
        lemma_drawn_keeps_hull(
            before,
            middle,
            catalog,
            liquid,
            (n - 1) as nat,
            duration,
            total,
            used,
            rest,
        );
        assert(keeps_hull(middle, after));
        lemma_hull_on(before, middle, after);
    }
}

proof fn lemma_fired_keeps_hull<
    X: Fn(Real, Real) -> Real,
    L: Fn(Real, Real) -> Real,
>(
    before: Vessel,
    after: Vessel,
    solid: Seq<SolidBurn>,
    n: nat,
    duration: Real,
    used: X,
    left: L,
)
    requires
        are_fired(before, after, solid, n, duration, used, left),
    ensures
        keeps_hull(before, after),
    decreases n,
{
    if n > 0 {
        let middle = choose|middle: Vessel|
            are_fired(before, middle, solid, (n - 1) as nat, duration, used, left)
                && #[trigger] is_fired(middle, after, solid[n - 1], duration, used, left);
        lemma_fired_keeps_hull(before, middle, solid, (n - 1) as nat, duration, used, left);
        assert(keeps_hull(middle, after));
        lemma_hull_on(before, middle, after);
    }
}

/// A burn touches nothing but the propellant and whether engines are lit; it lights none, and
/// leaves the stages and all else of the vessel as they are.
pub proof fn law_interval_keeps_hull<
    E: Fn(u32, u32) -> (Real, Real),
    T: Fn(Vec<Real>) -> Real,
    Q: Fn(Real, Real) -> Real,
    X: Fn(Real, Real) -> Real,
    R: Fn(Real, Real, Real) -> Real,
    L: Fn(Real, Real) -> Real,
    W: Fn(&Vessel) -> Real,
    N: Fn(Real, Real, Real, Real) -> Real,
>(
    before: Vessel,
    after: Vessel,
    gain: Option<Real>,
    catalog: Map<Seq<char>, DefinitionView>,
    propulsion: Propulsion<E, T, Q, X, R, L, W, N>,
)
    requires
        is_interval(before, after, gain, catalog, propulsion),
    ensures
        keeps_hull(before, after),
{
    let (liquid, solid, thrust, flow) = choose|
        liquid: Seq<LiquidBurn>,
        solid: Seq<SolidBurn>,
        thrust: Real,
        flow: Real,
    |
        {
            &&& #[trigger] are_burning(
                before.parts@,
                catalog,
                liquid,
                solid,
                thrust,
                flow,
                propulsion.rates,
                propulsion.total,
            )
            &&& is_burned_by(before, after, gain, catalog, liquid, solid, thrust, flow, propulsion)
        };
    if after != before {
        let times = choose|times: Seq<Real>| #[trigger]
            are_times(liquid, solid, times, propulsion.lasting) && match duration_of(times) {
                Some(duration) => is_burned_for(
                    before,
                    after,
                    gain,
                    catalog,
                    liquid,
                    solid,
                    thrust,
                    flow,
                    duration,
                    propulsion,
                ),
                None => after == before && gain is None,
            };
        let duration = duration_of(times)->0;
        let (drawn, heavy, light) = choose|drawn: Vessel, heavy: Real, light: Real|
            {
                &&& #[trigger] are_drawn(
                    before,
                    drawn,
                    catalog,
                    liquid,
                    liquid.len(),
                    duration,
                    propulsion.total,
                    propulsion.used,
                    propulsion.rest,
                )
                &&& are_fired(
                    drawn,
                    after,
                    solid,
                    solid.len(),
                    duration,
                    propulsion.used,
                    propulsion.left,
                )
                &&& #[trigger] call_ensures(propulsion.mass, (&before,), heavy)
                &&& #[trigger] call_ensures(propulsion.mass, (&after,), light)
            };
        lemma_drawn_keeps_hull(
            before,
            drawn,
            catalog,
            liquid,
            liquid.len(),
            duration,
            propulsion.total,
            propulsion.used,
            propulsion.rest,
        );
        lemma_fired_keeps_hull(
            drawn,
            after,
            solid,
            solid.len(),
            duration,
            propulsion.used,
            propulsion.left,
        );
        lemma_hull_on(before, drawn, after);
    }
}

/// What the numbers come to together.
pub open spec fn total_of(values: Seq<Real>) -> int
    decreases values.len(),
{
    if values.len() == 0 {
        0
    } else {
        total_of(values.drop_last()) + values.last().value()
    }
}

/// Whether what sums numbers does so exactly.
pub open spec fn sums_up<T: Fn(Vec<Real>) -> Real>(total: T) -> bool {
    forall|held: Vec<Real>, sum: Real| #[trigger]
        call_ensures(total, (held,), sum) ==> sum.spec_is_finite() && sum.value() == total_of(
            held@,
        )
}

proof fn lemma_joint_sum<T: Fn(Vec<Real>) -> Real>(
    liquid: Seq<Real>,
    solid: Seq<Real>,
    sum: Real,
    total: T,
)
    requires
        is_joint_sum(liquid, solid, sum, total),
        sums_up(total),
    ensures
        sum.spec_is_finite(),
        sum.value() == total_of(liquid) + total_of(solid),
{
    let (a, b) = choose|a: Real, b: Real|
        {
            &&& #[trigger] is_sum(liquid, a, total)
            &&& #[trigger] is_sum(solid, b, total)
            &&& is_sum(seq![a, b], sum, total)
        };
    assert(a.value() == total_of(liquid));
    assert(b.value() == total_of(solid));
    let both = seq![a, b];
    assert(both.drop_last() =~= seq![a]);
    assert(seq![a].drop_last() =~= Seq::<Real>::empty());
    reveal_with_fuel(total_of, 3);
    assert(total_of(both) == a.value() + b.value());
}

/// The thrust and the flow of a burn are those of all that burns, liquid and solid, together.
pub proof fn law_thrust_and_flow_are_sums<
    E: Fn(u32, u32) -> (Real, Real),
    T: Fn(Vec<Real>) -> Real,
>(
    parts: Seq<RuntimePart>,
    catalog: Map<Seq<char>, DefinitionView>,
    liquid: Seq<LiquidBurn>,
    solid: Seq<SolidBurn>,
    thrust: Real,
    flow: Real,
    rates: E,
    total: T,
)
    requires
        are_burning(parts, catalog, liquid, solid, thrust, flow, rates, total),
        sums_up(total),
    ensures
        thrust.spec_is_finite() && flow.spec_is_finite(),
        thrust.value() == total_of(Seq::new(liquid.len(), |k: int| liquid[k].thrust)) + total_of(
            Seq::new(solid.len(), |k: int| solid[k].thrust),
        ),
        flow.value() == total_of(Seq::new(liquid.len(), |k: int| liquid[k].flow)) + total_of(
            Seq::new(solid.len(), |k: int| solid[k].flow),
        ),
{
    let a = liquid.map_values(|burn: LiquidBurn| burn.thrust);
    let b = solid.map_values(|burn: SolidBurn| burn.thrust);
    lemma_joint_sum(a, b, thrust, total);
    assert(a =~= Seq::new(liquid.len(), |k: int| liquid[k].thrust));
    assert(b =~= Seq::new(solid.len(), |k: int| solid[k].thrust));
    let c = liquid.map_values(|burn: LiquidBurn| burn.flow);
    let d = solid.map_values(|burn: SolidBurn| burn.flow);
    lemma_joint_sum(c, d, flow, total);
    assert(c =~= Seq::new(liquid.len(), |k: int| liquid[k].flow));
    assert(d =~= Seq::new(solid.len(), |k: int| solid[k].flow));
}

/// Engines burn in the void as their kind says: at the thrust and impulse that it has there.
pub proof fn law_engines_are_rated_for_the_void<
    E: Fn(u32, u32) -> (Real, Real),
    T: Fn(Vec<Real>) -> Real,
>(
    parts: Seq<RuntimePart>,
    catalog: Map<Seq<char>, DefinitionView>,
    group: EngineGroup,
    burn: LiquidBurn,
    rates: E,
    total: T,
)
    requires
        is_assessed(parts, catalog, group, burn, rates, total),
        is_group(parts, catalog, true, parts.len() as int, group),
        sums_up(total),
    ensures
        burn.members@ == group.members@,
        burn.available.value() == total_of(feeding_levels(parts, catalog, group.members@)),
        exists|thrusts: Seq<Real>, flows: Seq<Real>|
            {
                &&& burn.thrust.value() == #[trigger] total_of(thrusts)
                &&& burn.flow.value() == #[trigger] total_of(flows)
                &&& thrusts.len() == group.engines@.len()
                &&& flows.len() == group.engines@.len()
                &&& forall|k: int|
                    0 <= k < group.engines@.len() ==> {
                        let kind = catalog[parts[(
                        #[trigger] group.engines@[k]) as int].instance.definition_id@];
                        call_ensures(
                            rates,
                            (kind.module->thrust_vac, kind.module->isp_vac),
                            (thrusts[k], flows[k]),
                        )
                    }
            },
{
    let (thrusts, flows) = choose|thrusts: Seq<Real>, flows: Seq<Real>|
        {
            &&& #[trigger] are_rated(parts, catalog, group.engines@, thrusts, flows, rates)
            &&& is_sum(thrusts, burn.thrust, total)
            &&& is_sum(flows, burn.flow, total)
        };
    assert(burn.thrust.value() == total_of(thrusts));
    assert(burn.flow.value() == total_of(flows));
}

/// Every network whose engines draw propellant and that holds more than a trace takes part in
/// a burn, and no other does.
pub proof fn law_networks_with_fuel_take_part<
    E: Fn(u32, u32) -> (Real, Real),
    T: Fn(Vec<Real>) -> Real,
>(
    parts: Seq<RuntimePart>,
    catalog: Map<Seq<char>, DefinitionView>,
    liquid: Seq<LiquidBurn>,
    rates: E,
    total: T,
)
    requires
        are_liquid(parts, catalog, liquid, rates, total),
        sums_up(total),
    ensures
        exists|groups: Seq<EngineGroup>, burns: Seq<LiquidBurn>|
            {
                &&& are_groups(parts, catalog, true, parts.len() as int, groups)
                &&& #[trigger] are_assessed(parts, catalog, groups, burns, rates, total)
                &&& forall|g: int|
                    0 <= g < burns.len() && (#[trigger] burns[g]).flow.value() > 0
                        && burns[g].available.value() * pow2(52) > pow2(1074) ==> liquid.contains(
                        burns[g],
                    )
                &&& forall|k: int|
                    0 <= k < liquid.len() ==> burns.contains(#[trigger] liquid[k])
                        && liquid[k].flow.value() > 0 && liquid[k].available.value() * pow2(52)
                        > pow2(1074)
            },
{
    broadcast use vstd::seq_lib::group_filter_ensures;

    let wanted = |burn: LiquidBurn| takes_part(burn);
    let (groups, burns) = choose|groups: Seq<EngineGroup>, burns: Seq<LiquidBurn>|
        {
            &&& are_groups(parts, catalog, true, parts.len() as int, groups)
            &&& #[trigger] are_assessed(parts, catalog, groups, burns, rates, total)
            &&& liquid == burns.filter(|burn: LiquidBurn| takes_part(burn))
        };
    assert forall|g: int| 0 <= g < burns.len() implies wanted(#[trigger] burns[g]) == (
    burns[g].flow.value() > 0 && burns[g].available.value() * pow2(52) > pow2(1074)) by {
        let burn = burns[g];
        assert(is_assessed(parts, catalog, groups[g], burn, rates, total));
        law_whole_numbers_compare(0, burn.flow);
        lemma_above_a_trace(burn.available);
    }
    assert forall|g: int|
        0 <= g < burns.len() && (#[trigger] burns[g]).flow.value() > 0
            && burns[g].available.value() * pow2(52) > pow2(1074) implies liquid.contains(
        burns[g],
    ) by {
        assert(wanted(burns[g]));
        assert(burns.contains(burns[g]));
    }
    assert forall|k: int| 0 <= k < liquid.len() implies burns.contains(#[trigger] liquid[k])
        && liquid[k].flow.value() > 0 && liquid[k].available.value() * pow2(52) > pow2(1074) by {
        assert(liquid == burns.filter(wanted));
        assert(liquid.contains(liquid[k]));
        burns.lemma_filter_contains_rev(wanted, liquid[k]);
        let g = choose|g: int| 0 <= g < burns.len() && burns[g] == liquid[k];
        assert(wanted(burns[g]));
    }
}

/// Every lit solid engine with thrust and more than a trace of fuel takes part in a burn, with
/// its own rating and fuel.
pub proof fn law_solid_engines_take_part<E: Fn(u32, u32) -> (Real, Real)>(
    parts: Seq<RuntimePart>,
    catalog: Map<Seq<char>, DefinitionView>,
    solid: Seq<SolidBurn>,
    rates: E,
    i: int,
)
    requires
        are_solid(parts, catalog, solid, rates),
        0 <= i < parts.len(),
        parts[i].active && !parts[i].destroyed,
        parts[i].fuel.spec_is_finite(),
        parts[i].fuel.value() * pow2(52) > pow2(1074),
        catalog.contains_key(parts[i].instance.definition_id@),
        catalog[parts[i].instance.definition_id@].module is SolidEngine,
        catalog[parts[i].instance.definition_id@].module->SolidEngine_thrust > 0,
        catalog[parts[i].instance.definition_id@].module->SolidEngine_isp > 0,
        forall|k: int|
            0 <= k < i ==> (#[trigger] parts[k]).instance.instance_id
                != parts[i].instance.instance_id,
    ensures
        exists|k: int|
            {
                &&& 0 <= k < solid.len() && (#[trigger] solid[k]).id
                    == parts[i].instance.instance_id
                &&& solid[k].fuel == parts[i].fuel
                &&& call_ensures(
                    rates,
                    (
                        catalog[parts[i].instance.definition_id@].module->SolidEngine_thrust,
                        catalog[parts[i].instance.definition_id@].module->SolidEngine_isp,
                    ),
                    (solid[k].thrust, solid[k].flow),
                )
            },
        forall|k: int|
            0 <= k < solid.len() ==> exists|p: int|
                0 <= p < parts.len() && (#[trigger] parts[p]).active && !parts[p].destroyed
                    && parts[p].instance.instance_id == (#[trigger] solid[k]).id,
{
    lemma_above_a_trace(parts[i].fuel);
    let places = choose|places: Seq<usize>|
        {
            &&& #[trigger] are_solid_places(parts, catalog, places)
            &&& solid.len() == places.len()
            &&& forall|k: int|
                0 <= k < places.len() ==> is_solid_burn_of(
                    parts,
                    catalog,
                    (#[trigger] places[k]) as int,
                    solid[k],
                    rates,
                )
        };
    let k = choose|k: int| 0 <= k < places.len() && #[trigger] places[k] == i;
    let burn = solid[k];
    assert(is_solid_burn_of(parts, catalog, places[k] as int, burn, rates));
    let first = choose|first: int| #[trigger]
        is_first_with_id(parts, burn.id, first) && burn.fuel == parts[first].fuel;
    assert(first == i);
    assert forall|k: int| 0 <= k < solid.len() implies exists|p: int|
        0 <= p < parts.len() && (#[trigger] parts[p]).active && !parts[p].destroyed
            && parts[p].instance.instance_id == (#[trigger] solid[k]).id by {
        assert(is_solid_burn_of(parts, catalog, places[k] as int, solid[k], rates));
        assert(parts[places[k] as int].active);
    }
}

/// A burn gains something only where there is thrust and flow and the vessel has become
/// lighter, and then what the thrust, the flow and both masses give.
pub proof fn law_gain_comes_of_lost_mass<
    E: Fn(u32, u32) -> (Real, Real),
    T: Fn(Vec<Real>) -> Real,
    Q: Fn(Real, Real) -> Real,
    X: Fn(Real, Real) -> Real,
    R: Fn(Real, Real, Real) -> Real,
    L: Fn(Real, Real) -> Real,
    W: Fn(&Vessel) -> Real,
    N: Fn(Real, Real, Real, Real) -> Real,
>(
    vessel: &mut Vessel,
    catalog: &PartCatalog,
    propulsion: &Propulsion<E, T, Q, X, R, L, W, N>,
    r: Option<Real>,
)
    requires
        call_ensures(
            burn_vacuum_interval::<E, T, Q, X, R, L, W, N>,
            (vessel, catalog, propulsion),
            r,
        ),
        sums_up(propulsion.total),
        forall|v: &Vessel, mass: Real| #[trigger]
            call_ensures(propulsion.mass, (v,), mass) ==> mass.spec_is_finite(),
    ensures
        r is Some ==> exists|heavy: Real, light: Real, thrust: Real, flow: Real|
            {
                &&& call_ensures(propulsion.mass, (&*old(vessel),), heavy)
                &&& call_ensures(propulsion.mass, (&*final(vessel),), light)
                &&& #[trigger] call_ensures(propulsion.gain, (thrust, flow, heavy, light), r->0)
                &&& 0 < light.value() < heavy.value()
                &&& thrust.value() > 0
                &&& flow.value() > 0
            },
        r is None ==> *final(vessel) == *old(vessel) || exists|heavy: Real, light: Real|
            {
                &&& #[trigger] call_ensures(propulsion.mass, (&*old(vessel),), heavy)
                &&& #[trigger] call_ensures(propulsion.mass, (&*final(vessel),), light)
                &&& light.value() >= heavy.value() || light.value() <= 0
            },
{
    let before = *vessel;
    let after = *final(vessel);
    let p = *propulsion;
    assert(is_interval(before, after, r, catalog@, p));
    let (liquid, solid, thrust, flow) = choose|
        liquid: Seq<LiquidBurn>,
        solid: Seq<SolidBurn>,
        thrust: Real,
        flow: Real,
    |
        {
            &&& #[trigger] are_burning(
                before.parts@,
                catalog@,
                liquid,
                solid,
                thrust,
                flow,
                p.rates,
                p.total,
            )
            &&& is_burned_by(before, after, r, catalog@, liquid, solid, thrust, flow, p)
        };
    law_thrust_and_flow_are_sums(
        before.parts@,
        catalog@,
        liquid,
        solid,
        thrust,
        flow,
        p.rates,
        p.total,
    );
    law_whole_numbers_compare(0, thrust);
    law_whole_numbers_compare(0, flow);
    if !(thrust.spec_at_most(Real::spec_of(0)) || flow.spec_at_most(Real::spec_of(0))) {
        let times = choose|times: Seq<Real>| #[trigger]
            are_times(liquid, solid, times, p.lasting) && match duration_of(times) {
                Some(duration) => is_burned_for(
                    before,
                    after,
                    r,
                    catalog@,
                    liquid,
                    solid,
                    thrust,
                    flow,
                    duration,
                    p,
                ),
                None => after == before && r is None,
            };
        if duration_of(times) is Some {
            let duration = duration_of(times)->0;
            let (drawn, heavy, light) = choose|drawn: Vessel, heavy: Real, light: Real|
                {
                    &&& #[trigger] are_drawn(
                        before,
                        drawn,
                        catalog@,
                        liquid,
                        liquid.len(),
                        duration,
                        p.total,
                        p.used,
                        p.rest,
                    )
                    &&& are_fired(drawn, after, solid, solid.len(), duration, p.used, p.left)
                    &&& #[trigger] call_ensures(p.mass, (&before,), heavy)
                    &&& #[trigger] call_ensures(p.mass, (&after,), light)
                    &&& match r {
                        Some(gain) => light.spec_below(heavy) && Real::spec_of(0).spec_below(light)
                            && call_ensures(p.gain, (thrust, flow, heavy, light), gain),
                        None => !(light.spec_below(heavy) && Real::spec_of(0).spec_below(light)),
                    }
                };
            law_order_is_numeric(light, heavy);
            law_whole_numbers_compare(0, light);
            if r is Some {
                assert(call_ensures(p.gain, (thrust, flow, heavy, light), r->0));
            }
        }
    }
}

/// A vessel with no engine lit burns nothing and gains nothing.
pub proof fn law_nothing_lit_nothing_burned<
    E: Fn(u32, u32) -> (Real, Real),
    T: Fn(Vec<Real>) -> Real,
    Q: Fn(Real, Real) -> Real,
    X: Fn(Real, Real) -> Real,
    R: Fn(Real, Real, Real) -> Real,
    L: Fn(Real, Real) -> Real,
    W: Fn(&Vessel) -> Real,
    N: Fn(Real, Real, Real, Real) -> Real,
>(
    vessel: &mut Vessel,
    catalog: &PartCatalog,
    propulsion: &Propulsion<E, T, Q, X, R, L, W, N>,
    r: Option<Real>,
)
    requires
        call_ensures(
            burn_vacuum_interval::<E, T, Q, X, R, L, W, N>,
            (vessel, catalog, propulsion),
            r,
        ),
        sums_up(propulsion.total),
        forall|i: int|
            0 <= i < old(vessel).parts@.len() ==> !(#[trigger] old(vessel).parts@[i]).active,
    ensures
        *final(vessel) == *old(vessel),
        r is None,
{
    let before = *vessel;
    let after = *final(vessel);
    let p = *propulsion;
    assert(is_interval(before, after, r, catalog@, p));
    let (liquid, solid, thrust, flow) = choose|
        liquid: Seq<LiquidBurn>,
        solid: Seq<SolidBurn>,
        thrust: Real,
        flow: Real,
    |
        {
            &&& #[trigger] are_burning(
                before.parts@,
                catalog@,
                liquid,
                solid,
                thrust,
                flow,
                p.rates,
                p.total,
            )
            &&& is_burned_by(before, after, r, catalog@, liquid, solid, thrust, flow, p)
        };
    law_thrust_and_flow_are_sums(
        before.parts@,
        catalog@,
        liquid,
        solid,
        thrust,
        flow,
        p.rates,
        p.total,
    );
    let (groups, burns) = choose|groups: Seq<EngineGroup>, burns: Seq<LiquidBurn>|
        {
            &&& are_groups(before.parts@, catalog@, true, before.parts@.len() as int, groups)
            &&& #[trigger] are_assessed(before.parts@, catalog@, groups, burns, p.rates, p.total)
            &&& liquid == burns.filter(|burn: LiquidBurn| takes_part(burn))
        };
    if groups.len() > 0 {
        assert(is_group(before.parts@, catalog@, true, before.parts@.len() as int, groups[0]));
        let place = groups[0].engines@[0] as int;
        assert(!before.parts@[place].active);
    }
    assert(liquid.len() == 0) by {
        reveal(Seq::filter);
        assert(burns =~= Seq::empty());
    }
    let places = choose|places: Seq<usize>|
        {
            &&& #[trigger] are_solid_places(before.parts@, catalog@, places)
            &&& solid.len() == places.len()
            &&& forall|k: int|
                0 <= k < places.len() ==> is_solid_burn_of(
                    before.parts@,
                    catalog@,
                    (#[trigger] places[k]) as int,
                    solid[k],
                    p.rates,
                )
        };
    if places.len() > 0 {
        assert(!before.parts@[places[0] as int].active);
    }
    law_whole_numbers_compare(0, thrust);
}

/// Whether no more was taken than there is.
pub open spec fn within_stock(taken: Real, available: Real) -> bool {
    available.value() > 0 ==> taken.value() <= available.value()
}

/// In a burn a network loses what its engines use in the time, and nothing but its tanks
/// loses anything.
pub proof fn law_network_burns_what_it_uses<
    T: Fn(Vec<Real>) -> Real,
    X: Fn(Real, Real) -> Real,
    R: Fn(Real, Real, Real) -> Real,
>(
    before: Vessel,
    after: Vessel,
    catalog: Map<Seq<char>, DefinitionView>,
    burn: LiquidBurn,
    duration: Real,
    total: T,
    used: X,
    rest: R,
    i: int,
)
    requires
        is_drawn(before, after, catalog, burn, duration, total, used, rest),
        sums_up(total),
        0 <= i < before.parts@.len(),
        forall|a: Real, b: Real, c: Real| #[trigger]
            call_ensures(used, (a, b), c) ==> c.spec_is_finite(),
    ensures
        after == (Vessel { parts: after.parts, ..before }),
        ({
            let part = before.parts@[i];
            let feeds = !part.destroyed && burn.members@.contains(part.instance.instance_id)
                && catalog.contains_key(part.instance.definition_id@)
                && catalog[part.instance.definition_id@].module is LiquidTank;
            &&& !feeds ==> after.parts@[i] == part
            &&& after.parts@[i] == (RuntimePart { fuel: after.parts@[i].fuel, ..part })
            &&& exists|amount: Real, taken: Real, held: Vec<Real>, available: Real|
                {
                    &&& #[trigger] call_ensures(used, (burn.flow, duration), amount)
                    &&& #[trigger] call_ensures(total, (held,), available)
                    &&& #[trigger] within_stock(taken, available)
                    &&& available.value() == total_of(
                        feeding_levels(before.parts@, catalog, burn.members@),
                    )
                    &&& available.value() > 0 ==> taken.value() <= amount.value() && (taken
                        == amount || taken == available)
                    &&& available.value() > 0 && feeds ==> exists|left: Real| #[trigger]
                        call_ensures(rest, (part.fuel, taken, available), left) && (
                        left.spec_is_finite() && left.value() > 0 ==> after.parts@[i].fuel == left)
                    &&& available.value() <= 0 ==> after.parts@[i] == part && taken.bits == 0
                }
        }),
{
    let (amount, taken) = choose|amount: Real, taken: Real|
        {
            &&& #[trigger] call_ensures(used, (burn.flow, duration), amount)
            &&& #[trigger] is_drain(
                before,
                after,
                feeding_tanks(catalog, burn.members@),
                amount,
                taken,
                total,
                rest,
            )
        };
    lemma_drain_of(
        before,
        after,
        feeding_tanks(catalog, burn.members@),
        amount,
        taken,
        total,
        rest,
        i,
    );
    let part = before.parts@[i];
    let after_part = after.parts@[i];
    let wanted = feeding_tanks(catalog, burn.members@);
    let (held, available) = choose|held: Vec<Real>, available: Real| #[trigger]
        call_ensures(total, (held,), available) && held@ == levels(before.parts@, wanted) && {
            &&& available.value() <= 0 ==> taken.bits == 0 && after_part == part
            &&& available.value() > 0 ==> (taken == available || taken == amount) && taken.value()
                <= available.value() && taken.value() <= amount.value()
            &&& available.value() > 0 && wanted(part) ==> exists|left: Real| #[trigger]
                call_ensures(rest, (part.fuel, taken, available), left) && (left.spec_is_finite()
                    && left.value() > 0 ==> after_part.fuel == left) && (left.spec_is_finite()
                    && left.value() <= 0 ==> after_part.fuel.value() == 0)
        };
    assert(call_ensures(used, (burn.flow, duration), amount));
    assert(call_ensures(total, (held,), available));
    assert(within_stock(taken, available));
}

/// A solid engine loses what it used in the time and is left with no less than nothing; no
/// other part changes.
pub proof fn law_solid_engine_burns_what_it_uses<
    X: Fn(Real, Real) -> Real,
    L: Fn(Real, Real) -> Real,
>(
    before: Vessel,
    after: Vessel,
    burn: SolidBurn,
    duration: Real,
    used: X,
    left: L,
    i: int,
)
    requires
        is_fired(before, after, burn, duration, used, left),
        0 <= i < before.parts@.len(),
        forall|a: Real, b: Real, c: Real| #[trigger]
            call_ensures(left, (a, b), c) ==> c.spec_is_finite(),
        forall|k: int|
            0 <= k < i ==> (#[trigger] before.parts@[k]).instance.instance_id
                != before.parts@[i].instance.instance_id,
    ensures
        after == (Vessel { parts: after.parts, ..before }),
        before.parts@[i].instance.instance_id != burn.id ==> after.parts@[i] == before.parts@[i],
        before.parts@[i].instance.instance_id == burn.id ==> exists|amount: Real, load: Real|
            {
                &&& #[trigger] call_ensures(used, (burn.flow, duration), amount)
                &&& #[trigger] call_ensures(left, (before.parts@[i].fuel, amount), load)
                &&& load.value() > 0 ==> after.parts@[i].fuel == load
                &&& load.value() <= 0 ==> after.parts@[i].fuel.value() == 0
                    && !after.parts@[i].active
            },
{
    let part = before.parts@[i];
    law_integer_has_its_value(0);
    if part.instance.instance_id == burn.id {
        assert(is_first_with_id(before.parts@, burn.id, i));
        let (first, amount, load) = choose|first: int, amount: Real, load: Real|
            {
                &&& #[trigger] is_first_with_id(before.parts@, burn.id, first)
                &&& #[trigger] call_ensures(used, (burn.flow, duration), amount)
                &&& #[trigger] call_ensures(left, (before.parts@[first].fuel, amount), load)
                &&& is_burned_down(before, after, burn.id, load)
            };
        assert(first == i);
        law_larger_and_smaller(load, Real::spec_of(0), load);
        assert(after.parts@[i] == burned_out(part, load));
        let rest = load.spec_larger(Real::spec_of(0));
        lemma_above_a_trace(rest);
        lemma_pow2_pos(1074);
        assert(rest.value() == 0 ==> rest.value() * pow2(52) == 0) by (nonlinear_arith);
    } else if exists|first: int| is_first_with_id(before.parts@, burn.id, first) {
        assert(!is_first_with_id(before.parts@, burn.id, i));
        assert(after.parts@[i] == part);
    }
}

/// A part is rated by its kind: a liquid engine as in the void, a solid one as it is, and
/// anything else with nothing.
pub proof fn law_parts_are_rated_by_their_kind(
    part: RuntimePart,
    catalog: Map<Seq<char>, DefinitionView>,
)
    ensures
        ({
            let known = catalog.contains_key(part.instance.definition_id@);
            let module = catalog[part.instance.definition_id@].module;
            let rated = vacuum_rating(part, catalog);
            &&& known && module is LiquidEngine ==> rated == (module->thrust_vac, module->isp_vac)
            &&& known && module is SolidEngine ==> rated == (
                module->SolidEngine_thrust,
                module->SolidEngine_isp,
            )
            &&& !known || !(module is LiquidEngine) && !(module is SolidEngine) ==> rated == (
                0u32,
                0u32,
            )
        }),
{
}

} // verus!
