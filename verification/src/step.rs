//! One step of flight, from propellant to touchdown.
use crate::burn::{
    are_groups, burn_solid_engines, engine_networks, is_solid_burn, is_solid_step, EngineGroup,
};
use crate::flight::{
    after_breaking, are_heated, has_ablator, has_command, heat_parts, is_command, is_heat_step,
    is_heated, is_torn, parachute_holds, settle, settled, tear_parachute, touched,
};
use crate::fuel::{
    are_drained, drain_liquid_fuel_network, drain_monopropellant, feeding_tanks, is_drain,
    is_drained, is_feeding_tank, levels, module_of, monopropellant_tanks,
};
use crate::number::{
    law_named_numbers, law_order_is_numeric, law_whole_numbers_compare, Real, TWO_HUNDREDTHS,
};
use crate::orbit::{body, body_definition, is_in_orbit, CelestialBodyDef, GROUND_CLEARANCE};
use crate::parts::{DefinitionView, PartCatalog, PartModule};
use crate::reach::{apply_soi_transitions, is_transferred, Frame, Reach};
use crate::vessel::{DetachedStage, FlightSituation, RuntimePart, Vessel};
use vstd::arithmetic::power2::*;
use vstd::prelude::*;

verus! {

/// What a group of engines asked for and got.
#[derive(Debug)]
pub struct GroupBurn {
    pub group: EngineGroup,
    pub request: Real,
    pub drained: Real,
}

/// An open parachute in the wind.
#[derive(Debug, Clone, Copy, PartialEq, Eq, Structural)]
pub struct ParachuteLoad {
    pub id: u64,
    pub safe_speed: u32,
    pub air_speed: Real,
}

/// The load of a part that is an open parachute, where the air has that speed.
pub open spec fn load_of(
    part: RuntimePart,
    catalog: Map<Seq<char>, DefinitionView>,
    air_speed: Real,
) -> Option<ParachuteLoad> {
    match module_of(part, catalog) {
        Some(PartModule::Parachute { drag_area: _, safe_speed }) => if part.parachute_deployed
            && !part.destroyed {
            Some(ParachuteLoad { id: part.instance.instance_id, safe_speed, air_speed })
        } else {
            None
        },
        _ => None,
    }
}

/// The speed of the air at a part; parts of which none is told are in still air.
pub open spec fn air_at_part(air_speeds: Seq<Real>, place: int) -> Real {
    if place < air_speeds.len() {
        air_speeds[place]
    } else {
        Real::spec_of(0)
    }
}

/// The loads of the open parachutes among the first parts.
pub open spec fn loads_of(
    parts: Seq<RuntimePart>,
    catalog: Map<Seq<char>, DefinitionView>,
    air_speeds: Seq<Real>,
    count: int,
) -> Seq<ParachuteLoad>
    decreases count,
{
    if count <= 0 {
        Seq::empty()
    } else {
        let earlier = loads_of(parts, catalog, air_speeds, count - 1);
        match load_of(parts[count - 1], catalog, air_at_part(air_speeds, count - 1)) {
            Some(load) => earlier.push(load),
            None => earlier,
        }
    }
}

fn parachute_loads(vessel: &Vessel, catalog: &PartCatalog, air_speeds: &Vec<Real>) -> (r: Vec<
    ParachuteLoad,
>)
    ensures
        r@ == loads_of(vessel.parts@, catalog@, air_speeds@, vessel.parts@.len() as int),
{
    let mut r: Vec<ParachuteLoad> = Vec::new();
    for i in 0..vessel.parts.len()
        invariant
            r@ == loads_of(vessel.parts@, catalog@, air_speeds@, i as int),
    {
        let part = &vessel.parts[i];
        let air_speed = if i < air_speeds.len() {
            air_speeds[i]
        } else {
            Real::zero()
        };
        if part.parachute_deployed && !part.destroyed {
            if let Some(definition) = catalog.get(&part.instance.definition_id) {
                if let PartModule::Parachute { safe_speed, .. } = definition.module {
                    r.push(
                        ParachuteLoad { id: part.instance.instance_id, safe_speed, air_speed },
                    );
                }
            }
        }
    }
    r
}

/// The motion of a vessel in a step.
#[derive(Debug)]
pub struct Motion {
    /// The thrust of all engines.
    pub thrust: Real,
    pub mass: Real,
    /// The density of the air.
    pub density: Real,
    /// The speed of the air at each part.
    pub air_speeds: Vec<Real>,
    /// The monopropellant that the thrusters ask for, if they fire.
    pub monopropellant: Option<Real>,
    pub heat_rate: Real,
    /// Where the vessel would be without a ground.
    pub position: [Real; 3],
    pub velocity: [Real; 3],
    pub attitude: [Real; 4],
    pub angular_velocity: [Real; 3],
}

/// Where a vessel is at the end of a step, and how it got there.
#[derive(Debug, Clone, Copy)]
pub struct Arrival {
    pub altitude: Real,
    pub periapsis: Real,
    /// Whether its thrust does not lift it.
    pub held: bool,
    /// Whether it endures a touch of the ground.
    pub survivable: bool,
    pub position: [Real; 3],
    pub velocity: [Real; 3],
}

/// Where a detached stage has drifted.
#[derive(Debug, Clone, Copy)]
pub struct Drifted {
    pub position: [Real; 3],
    pub velocity: [Real; 3],
    pub attitude: [Real; 4],
}

/// What only arithmetic can tell of a step. `request` is the propellant that a group of
/// engines asks for; `solid_left` what a solid engine keeps; `total` and `rest` serve
/// drains; `motion` the forces, given the vessel before the burn and after it; `warm` and
/// `ablate` serve heating; `arrive` the end of the motion; `drift` that of a detached stage;
/// `reach` where the vessel is with the spheres of influence about it, and `frame` where it
/// is with another body.
pub struct Mechanics<Q, S, T, R, M, W, A, E, D, X, F> {
    pub request: Q,
    pub solid_left: S,
    pub total: T,
    pub rest: R,
    pub motion: M,
    pub warm: W,
    pub ablate: A,
    pub arrive: E,
    pub drift: D,
    pub reach: X,
    pub frame: F,
}

/// Whether the burns are those of the groups, each with what it asks for.
pub open spec fn are_requests<Q: Fn(&Vessel, &EngineGroup) -> Real>(
    vessel: Vessel,
    burns: Seq<GroupBurn>,
    request: Q,
) -> bool {
    forall|g: int|
        0 <= g < burns.len() ==> call_ensures(
            request,
            (&vessel, &(#[trigger] burns[g]).group),
            burns[g].request,
        )
}

/// The groups of the burns.
pub open spec fn groups_of(burns: Seq<GroupBurn>) -> Seq<EngineGroup> {
    burns.map_values(|burn: GroupBurn| burn.group)
}

/// Whether the vessels of the trace follow on each other, one for each drain.
pub open spec fn are_drains<T: Fn(Vec<Real>) -> Real, R: Fn(Real, Real, Real) -> Real>(
    trace: Seq<Vessel>,
    catalog: Map<Seq<char>, DefinitionView>,
    burns: Seq<GroupBurn>,
    total: T,
    rest: R,
) -> bool {
    &&& trace.len() == burns.len() + 1
    &&& forall|g: int|
        0 <= g < burns.len() ==> is_drain(
            #[trigger] trace[g],
            trace[g + 1],
            feeding_tanks(catalog, burns[g].group.members@),
            burns[g].request,
            burns[g].drained,
            total,
            rest,
        )
}

/// Whether `after` is the vessel `before` after the burns of a step: requests are made,
/// then solid engines burn, then each network is drained.
pub open spec fn is_burnt<
    Q: Fn(&Vessel, &EngineGroup) -> Real,
    S: Fn(Real, u32, u32) -> Real,
    T: Fn(Vec<Real>) -> Real,
    R: Fn(Real, Real, Real) -> Real,
>(
    before: Vessel,
    after: Vessel,
    catalog: Map<Seq<char>, DefinitionView>,
    burns: Seq<GroupBurn>,
    request: Q,
    solid_left: S,
    total: T,
    rest: R,
) -> bool {
    &&& are_groups(
        before.parts@,
        catalog,
        false,
        before.parts@.len() as int,
        groups_of(burns),
    )
    &&& are_requests(before, burns, request)
    &&& exists|trace: Seq<Vessel>|
        {
            &&& #[trigger] are_drains(trace, catalog, burns, total, rest)
            &&& is_solid_burn(before, trace[0], catalog, solid_left)
            &&& trace.last() == after
        }
}

proof fn lemma_one_more_drain<T: Fn(Vec<Real>) -> Real, R: Fn(Real, Real, Real) -> Real>(
    trace: Seq<Vessel>,
    next: Vessel,
    catalog: Map<Seq<char>, DefinitionView>,
    noted: Seq<GroupBurn>,
    burns: Seq<GroupBurn>,
    g: int,
    total: T,
    rest: R,
)
    requires
        0 <= g < noted.len(),
        burns.len() == noted.len(),
        forall|k: int| 0 <= k < g ==> #[trigger] burns[k] == noted[k],
        are_drains(trace, catalog, noted.take(g), total, rest),
        is_drain(
            trace[g],
            next,
            feeding_tanks(catalog, burns[g].group.members@),
            burns[g].request,
            burns[g].drained,
            total,
            rest,
        ),
    ensures
        are_drains(trace.push(next), catalog, burns.take(g + 1), total, rest),
{
    let more = trace.push(next);
    let earlier = noted.take(g);
    let done = burns.take(g + 1);
    assert forall|k: int| 0 <= k < done.len() implies is_drain(
        #[trigger] more[k],
        more[k + 1],
        feeding_tanks(catalog, done[k].group.members@),
        done[k].request,
        done[k].drained,
        total,
        rest,
    ) by {
        if k < g {
            assert(done[k] == burns[k] && earlier[k] == noted[k]);
            assert(more[k] == trace[k] && more[k + 1] == trace[k + 1]);
        }
    }
}

fn burn<
    Q: Fn(&Vessel, &EngineGroup) -> Real,
    S: Fn(Real, u32, u32) -> Real,
    T: Fn(Vec<Real>) -> Real,
    R: Fn(Real, Real, Real) -> Real,
>(
    vessel: &mut Vessel,
    catalog: &PartCatalog,
    request: &Q,
    solid_left: &S,
    total: &T,
    rest: &R,
) -> (burns: Vec<GroupBurn>)
    requires
        forall|v: &Vessel, g: &EngineGroup| call_requires(*request, (v, g)),
        forall|a: Real, b: u32, c: u32| call_requires(*solid_left, (a, b, c)),
        forall|held: Vec<Real>| call_requires(*total, (held,)),
        forall|a: Real, b: Real, c: Real| call_requires(*rest, (a, b, c)),
    ensures
        is_burnt(
            *old(vessel),
            *final(vessel),
            catalog@,
            burns@,
            *request,
            *solid_left,
            *total,
            *rest,
        ),
{
    let ghost before = *vessel;
    let groups = engine_networks(vessel, catalog, false);
    let ghost all = groups@;
    let mut left = groups;
    let mut asked: Vec<GroupBurn> = Vec::new();
    while left.len() > 0
        invariant
            *vessel == before,
            forall|v: &Vessel, g: &EngineGroup| call_requires(*request, (v, g)),
            are_requests(before, asked@, *request),
            asked@.len() + left@.len() == all.len(),
            left@ == all.skip(asked@.len() as int),
            groups_of(asked@) == all.take(asked@.len() as int),
        decreases left.len(),
    {
        let ghost prior = asked@;
        let group = left.remove(0);
        let wish = request(vessel, &group);
        proof {
            assert(group == all[prior.len() as int]);
            assert(call_ensures(*request, (&before, &group), wish));
        }
        asked.push(GroupBurn { group, request: wish, drained: Real::zero() });
        proof {
            assert(left@ =~= all.skip(asked@.len() as int));
            assert(groups_of(asked@) =~= groups_of(prior).push(group));
            assert(groups_of(asked@) =~= all.take(asked@.len() as int));
            assert forall|g: int| 0 <= g < asked@.len() implies call_ensures(
                *request,
                (&before, &(#[trigger] asked@[g]).group),
                asked@[g].request,
            ) by {
                if g < prior.len() {
                    assert(asked@[g] == prior[g]);
                }
            }
        }
    }
    proof {
        assert(all.take(all.len() as int) =~= all);
    }
    burn_solid_engines(vessel, catalog, solid_left);
    let ghost wishes = asked@;
    let ghost mut trace: Seq<Vessel> = seq![*vessel];
    let count: usize = asked.len();
    for g in 0..count
        invariant
            forall|held: Vec<Real>| call_requires(*total, (held,)),
            forall|a: Real, b: Real, c: Real| call_requires(*rest, (a, b, c)),
            count == wishes.len(),
            asked@.len() == wishes.len(),
            forall|k: int|
                0 <= k < wishes.len() ==> (#[trigger] asked@[k]).group == wishes[k].group
                    && asked@[k].request == wishes[k].request,
            trace.len() == g + 1,
            trace[g as int] == *vessel,
            is_solid_burn(before, trace[0], catalog@, *solid_left),
            are_drains(trace, catalog@, asked@.take(g as int), *total, *rest),
    {
        let ghost start = *vessel;
        let ghost noted = asked@;
        let drained = drain_liquid_fuel_network(
            vessel,
            catalog,
            &asked[g].group.members,
            asked[g].request,
            total,
            rest,
        );
        asked[g].drained = drained;
        proof {
            lemma_one_more_drain(
                trace,
                *vessel,
                catalog@,
                noted,
                asked@,
                g as int,
                *total,
                *rest,
            );
            trace = trace.push(*vessel);
        }
    }
    proof {
        assert(asked@.take(asked@.len() as int) =~= asked@);
        assert(groups_of(asked@) =~= groups_of(wishes));
        assert(are_drains(trace, catalog@, asked@, *total, *rest));
        assert forall|g: int| 0 <= g < asked@.len() implies call_ensures(
            *request,
            (&before, &(#[trigger] asked@[g]).group),
            asked@[g].request,
        ) by {
            assert(call_ensures(*request, (&before, &wishes[g].group), wishes[g].request));
        }
    }
    asked
}

/// Whether the parachute withstands the air.
pub open spec fn holds(load: ParachuteLoad, density: Real) -> bool {
    load.air_speed.spec_at_most(Real::spec_integer(load.safe_speed)) || density.spec_below(
        Real::spec_of(TWO_HUNDREDTHS),
    )
}

/// Whether the vessels of the trace follow on each other, one for each parachute, which is
/// torn off where it does not hold.
pub open spec fn are_tears(
    trace: Seq<Vessel>,
    loads: Seq<ParachuteLoad>,
    density: Real,
) -> bool {
    &&& trace.len() == loads.len() + 1
    &&& forall|k: int|
        0 <= k < loads.len() ==> if holds(loads[k], density) {
            trace[k + 1] == #[trigger] trace[k]
        } else {
            is_torn(trace[k], trace[k + 1], loads[k].id)
        }
}

/// Whether `after` is the vessel `before` without the parachutes that do not hold.
pub open spec fn is_stripped(
    before: Vessel,
    after: Vessel,
    loads: Seq<ParachuteLoad>,
    density: Real,
) -> bool {
    exists|trace: Seq<Vessel>| #[trigger]
        are_tears(trace, loads, density) && trace[0] == before && trace.last() == after
}

fn tear_parachutes(vessel: &mut Vessel, loads: &Vec<ParachuteLoad>, density: Real)
    ensures
        is_stripped(*old(vessel), *final(vessel), loads@, density),
{
    let ghost mut trace: Seq<Vessel> = seq![*vessel];
    for k in 0..loads.len()
        invariant
            trace.len() == k + 1,
            trace[0] == *old(vessel),
            trace[k as int] == *vessel,
            are_tears(trace, loads@.take(k as int), density),
    {
        let load = loads[k];
        if !parachute_holds(load.safe_speed, load.air_speed, density) {
            tear_parachute(vessel, load.id);
        }
        proof {
            let prior = trace;
            trace = trace.push(*vessel);
            assert forall|j: int| 0 <= j < k + 1 implies if holds(
                loads@.take(k + 1)[j],
                density,
            ) {
                trace[j + 1] == #[trigger] trace[j]
            } else {
                is_torn(trace[j], trace[j + 1], loads@.take(k + 1)[j].id)
            } by {
                if j < k {
                    assert(loads@.take(k as int)[j] == loads@.take(k + 1)[j]);
                    assert(trace[j] == prior[j] && trace[j + 1] == prior[j + 1]);
                }
            }
        }
    }
    proof {
        assert(loads@.take(loads@.len() as int) =~= loads@);
        assert(are_tears(trace, loads@, density));
    }
}

/// Whether `after` is the vessel `before` after its thrusters have fired, if they did.
pub open spec fn is_spent<T: Fn(Vec<Real>) -> Real, R: Fn(Real, Real, Real) -> Real>(
    before: Vessel,
    after: Vessel,
    catalog: Map<Seq<char>, DefinitionView>,
    amount: Option<Real>,
    total: T,
    rest: R,
) -> bool {
    match amount {
        Some(amount) => exists|taken: Real| #[trigger]
            is_drain(
                before,
                after,
                monopropellant_tanks(catalog),
                amount,
                taken,
                total,
                rest,
            ),
        None => after == before,
    }
}

/// Whether `after` is the detached stage `before` where it has drifted.
pub open spec fn is_adrift<D: Fn(&DetachedStage) -> Drifted>(
    before: DetachedStage,
    after: DetachedStage,
    drift: D,
) -> bool {
    exists|place: Drifted| #[trigger]
        call_ensures(drift, (&before,), place) && after == (DetachedStage {
            position: place.position,
            velocity: place.velocity,
            attitude: place.attitude,
            ..before
        })
}

/// Whether the detached stages `after` are those of `before` where they have drifted.
pub open spec fn are_adrift<D: Fn(&DetachedStage) -> Drifted>(
    before: Seq<DetachedStage>,
    after: Seq<DetachedStage>,
    drift: D,
) -> bool {
    &&& after.len() == before.len()
    &&& forall|k: int| 0 <= k < before.len() ==> is_adrift(#[trigger] before[k], after[k], drift)
}

fn drift_debris<D: Fn(&DetachedStage) -> Drifted>(debris: &mut Vec<DetachedStage>, drift: &D)
    requires
        forall|stage: &DetachedStage| call_requires(*drift, (stage,)),
    ensures
        are_adrift(old(debris)@, final(debris)@, *drift),
{
    let ghost before = debris@;
    let count: usize = debris.len();
    for k in 0..count
        invariant
            forall|stage: &DetachedStage| call_requires(*drift, (stage,)),
            count == before.len(),
            debris.len() == before.len(),
            forall|j: int| k <= j < before.len() ==> debris@[j] == #[trigger] before[j],
            forall|j: int|
                0 <= j < k ==> is_adrift(#[trigger] before[j], debris@[j], *drift),
    {
        proof {
            assert(debris@[k as int] == before[k as int]);
        }
        let place = drift(&debris[k]);
        debris[k].position = place.position;
        debris[k].velocity = place.velocity;
        debris[k].attitude = place.attitude;
        proof {
            assert(call_ensures(*drift, (&before[k as int],), place));
            assert(is_adrift(before[k as int], debris@[k as int], *drift));
        }
    }
}

/// The vessel at the end of its motion, with what it does there.
pub open spec fn arrived(
    vessel: Vessel,
    catalog: Map<Seq<char>, DefinitionView>,
    motion: Motion,
    arrival: Arrival,
) -> Vessel {
    let air = match body(vessel.primary_body@).atmosphere {
        Some(atmosphere) => atmosphere.height,
        None => 0,
    };
    Vessel {
        situation: settled(
            touched(
                vessel.situation,
                arrival.altitude.spec_at_most(Real::spec_integer(GROUND_CLEARANCE)),
                arrival.held,
                arrival.survivable,
            ),
            is_in_orbit(arrival.altitude, arrival.periapsis, air),
            has_command(vessel.parts@, catalog),
        ),
        position: arrival.position,
        velocity: arrival.velocity,
        attitude: motion.attitude,
        angular_velocity: motion.angular_velocity,
        ..vessel
    }
}

/// The loads of the open parachutes of a vessel in that motion.
pub open spec fn loads_at(
    vessel: Vessel,
    catalog: Map<Seq<char>, DefinitionView>,
    motion: Motion,
) -> Seq<ParachuteLoad> {
    loads_of(vessel.parts@, catalog, motion.air_speeds@, vessel.parts@.len() as int)
}

/// Whether `after` is the vessel `burnt` at the end of a step with that motion: parachutes
/// tear, thrusters drain, parts heat up, the vessel arrives, its debris drifts and another
/// body may take it.
pub open spec fn is_moved<
    Q: Fn(&Vessel, &EngineGroup) -> Real,
    S: Fn(Real, u32, u32) -> Real,
    T: Fn(Vec<Real>) -> Real,
    R: Fn(Real, Real, Real) -> Real,
    M: Fn(&Vessel, &Vessel, &Vec<GroupBurn>) -> Motion,
    W: Fn(Real, bool, Real) -> Real,
    A: Fn(Real, Real, Real) -> (Real, Real),
    E: Fn(&Vessel, &Motion) -> Arrival,
    D: Fn(&DetachedStage) -> Drifted,
    X: Fn(&Vessel) -> Reach,
    F: Fn(&Vessel, &CelestialBodyDef) -> Frame,
>(
    burnt: Vessel,
    after: Vessel,
    catalog: Map<Seq<char>, DefinitionView>,
    motion: Motion,
    mechanics: Mechanics<Q, S, T, R, M, W, A, E, D, X, F>,
) -> bool {
    exists|stripped: Vessel, spent: Vessel, heated: Vessel, arrival: Arrival, adrift: Vessel|
        {
            &&& is_stripped(burnt, stripped, loads_at(burnt, catalog, motion), motion.density)
            &&& #[trigger] is_spent(
                stripped,
                spent,
                catalog,
                motion.monopropellant,
                mechanics.total,
                mechanics.rest,
            )
            &&& is_heat_step(
                spent,
                heated,
                catalog,
                motion.heat_rate,
                mechanics.warm,
                mechanics.ablate,
            )
            &&& #[trigger] call_ensures(mechanics.arrive, (&heated, &motion), arrival)
            &&& adrift == (Vessel {
                debris: adrift.debris,
                ..arrived(heated, catalog, motion, arrival)
            })
            &&& are_adrift(heated.debris@, adrift.debris@, mechanics.drift)
            &&& #[trigger] is_transferred(adrift, after, mechanics.reach, mechanics.frame)
        }
}

/// Whether `after` is the vessel `before` after a step of flight with that thrust. A vessel
/// that has crashed stays as it is.
pub open spec fn is_stepped<
    Q: Fn(&Vessel, &EngineGroup) -> Real,
    S: Fn(Real, u32, u32) -> Real,
    T: Fn(Vec<Real>) -> Real,
    R: Fn(Real, Real, Real) -> Real,
    M: Fn(&Vessel, &Vessel, &Vec<GroupBurn>) -> Motion,
    W: Fn(Real, bool, Real) -> Real,
    A: Fn(Real, Real, Real) -> (Real, Real),
    E: Fn(&Vessel, &Motion) -> Arrival,
    D: Fn(&DetachedStage) -> Drifted,
    X: Fn(&Vessel) -> Reach,
    F: Fn(&Vessel, &CelestialBodyDef) -> Frame,
>(
    before: Vessel,
    after: Vessel,
    thrust: Real,
    catalog: Map<Seq<char>, DefinitionView>,
    mechanics: Mechanics<Q, S, T, R, M, W, A, E, D, X, F>,
) -> bool {
    if before.situation == FlightSituation::Crashed {
        after == before && thrust == Real::spec_of(0)
    } else {
        exists|earlier: Vessel, burnt: Vessel, burns: Vec<GroupBurn>, motion: Motion|
            {
                &&& earlier@ == before@
                &&& is_burnt(
                    before,
                    burnt,
                    catalog,
                    burns@,
                    mechanics.request,
                    mechanics.solid_left,
                    mechanics.total,
                    mechanics.rest,
                )
                &&& #[trigger] call_ensures(mechanics.motion, (&earlier, &burnt, &burns), motion)
                &&& thrust == motion.thrust
                &&& is_moved(burnt, after, catalog, motion, mechanics)
            }
    }
}

/// Whether the mechanics can be asked anything.
pub open spec fn is_ready<
    Q: Fn(&Vessel, &EngineGroup) -> Real,
    S: Fn(Real, u32, u32) -> Real,
    T: Fn(Vec<Real>) -> Real,
    R: Fn(Real, Real, Real) -> Real,
    M: Fn(&Vessel, &Vessel, &Vec<GroupBurn>) -> Motion,
    W: Fn(Real, bool, Real) -> Real,
    A: Fn(Real, Real, Real) -> (Real, Real),
    E: Fn(&Vessel, &Motion) -> Arrival,
    D: Fn(&DetachedStage) -> Drifted,
    X: Fn(&Vessel) -> Reach,
    F: Fn(&Vessel, &CelestialBodyDef) -> Frame,
>(mechanics: Mechanics<Q, S, T, R, M, W, A, E, D, X, F>) -> bool {
    &&& forall|v: &Vessel, g: &EngineGroup| call_requires(mechanics.request, (v, g))
    &&& forall|a: Real, b: u32, c: u32| call_requires(mechanics.solid_left, (a, b, c))
    &&& forall|held: Vec<Real>| call_requires(mechanics.total, (held,))
    &&& forall|a: Real, b: Real, c: Real| call_requires(mechanics.rest, (a, b, c))
    &&& forall|v: &Vessel, w: &Vessel, b: &Vec<GroupBurn>|
        call_requires(mechanics.motion, (v, w, b))
    &&& forall|a: Real, b: bool, c: Real| call_requires(mechanics.warm, (a, b, c))
    &&& forall|a: Real, b: Real, c: Real| call_requires(mechanics.ablate, (a, b, c))
    &&& forall|v: &Vessel, m: &Motion| call_requires(mechanics.arrive, (v, m))
    &&& forall|stage: &DetachedStage| call_requires(mechanics.drift, (stage,))
    &&& forall|v: &Vessel| call_requires(mechanics.reach, (v,))
    &&& forall|v: &Vessel, to: &CelestialBodyDef| call_requires(mechanics.frame, (v, to))
}

fn move_on<
    Q: Fn(&Vessel, &EngineGroup) -> Real,
    S: Fn(Real, u32, u32) -> Real,
    T: Fn(Vec<Real>) -> Real,
    R: Fn(Real, Real, Real) -> Real,
    M: Fn(&Vessel, &Vessel, &Vec<GroupBurn>) -> Motion,
    W: Fn(Real, bool, Real) -> Real,
    A: Fn(Real, Real, Real) -> (Real, Real),
    E: Fn(&Vessel, &Motion) -> Arrival,
    D: Fn(&DetachedStage) -> Drifted,
    X: Fn(&Vessel) -> Reach,
    F: Fn(&Vessel, &CelestialBodyDef) -> Frame,
>(
    vessel: &mut Vessel,
    catalog: &PartCatalog,
    motion: &Motion,
    mechanics: &Mechanics<Q, S, T, R, M, W, A, E, D, X, F>,
)
    requires
        is_ready(*mechanics),
    ensures
        is_moved(*old(vessel), *final(vessel), catalog@, *motion, *mechanics),
{
    let loads = parachute_loads(vessel, catalog, &motion.air_speeds);
    tear_parachutes(vessel, &loads, motion.density);
    let ghost stripped = *vessel;
    if let Some(amount) = motion.monopropellant {
        let taken = drain_monopropellant(
            vessel,
            catalog,
            amount,
            &mechanics.total,
            &mechanics.rest,
        );
        proof {
            assert(is_drain(
                stripped,
                *vessel,
                monopropellant_tanks(catalog@),
                amount,
                taken,
                mechanics.total,
                mechanics.rest,
            ));
        }
    }
    let ghost spent = *vessel;
    proof {
        assert(is_spent(
            stripped,
            spent,
            catalog@,
            motion.monopropellant,
            mechanics.total,
            mechanics.rest,
        ));
    }
    heat_parts(vessel, catalog, motion.heat_rate, &mechanics.warm, &mechanics.ablate);
    let ghost heated = *vessel;
    let arrival = (mechanics.arrive)(vessel, motion);
    proof {
        assert(call_ensures(mechanics.arrive, (&heated, motion), arrival));
    }
    let around = body_definition(&vessel.primary_body);
    settle(
        vessel,
        catalog,
        &around,
        arrival.altitude,
        arrival.held,
        arrival.survivable,
        arrival.periapsis,
    );
    vessel.position = arrival.position;
    vessel.velocity = arrival.velocity;
    vessel.attitude = motion.attitude;
    vessel.angular_velocity = motion.angular_velocity;
    proof {
        assert(*vessel == arrived(heated, catalog@, *motion, arrival));
    }
    drift_debris(&mut vessel.debris, &mechanics.drift);
    let ghost adrift = *vessel;
    apply_soi_transitions(vessel, &mechanics.reach, &mechanics.frame);
    proof {
        assert(is_transferred(adrift, *vessel, mechanics.reach, mechanics.frame));
    }
}

/// Flies the vessel for one step, and gives the thrust of its engines.
pub fn step_vessel<
    Q: Fn(&Vessel, &EngineGroup) -> Real,
    S: Fn(Real, u32, u32) -> Real,
    T: Fn(Vec<Real>) -> Real,
    R: Fn(Real, Real, Real) -> Real,
    M: Fn(&Vessel, &Vessel, &Vec<GroupBurn>) -> Motion,
    W: Fn(Real, bool, Real) -> Real,
    A: Fn(Real, Real, Real) -> (Real, Real),
    E: Fn(&Vessel, &Motion) -> Arrival,
    D: Fn(&DetachedStage) -> Drifted,
    X: Fn(&Vessel) -> Reach,
    F: Fn(&Vessel, &CelestialBodyDef) -> Frame,
>(
    vessel: &mut Vessel,
    catalog: &PartCatalog,
    mechanics: &Mechanics<Q, S, T, R, M, W, A, E, D, X, F>,
) -> (thrust: Real)
    requires
        is_ready(*mechanics),
    ensures
        is_stepped(*old(vessel), *final(vessel), thrust, catalog@, *mechanics),
{
    if vessel.situation == FlightSituation::Crashed {
        return Real::zero();
    }
    let before = vessel.clone();
    let ghost start = *vessel;
    let burns = burn(
        vessel,
        catalog,
        &mechanics.request,
        &mechanics.solid_left,
        &mechanics.total,
        &mechanics.rest,
    );
    let motion = (mechanics.motion)(&before, vessel, &burns);
    let ghost burnt = *vessel;
    proof {
        assert(call_ensures(mechanics.motion, (&before, &burnt, &burns), motion));
    }
    move_on(vessel, catalog, &motion, mechanics);
    motion.thrust
}

/// What no step of flight changes: the parts and what they hang on, that what flies no more
/// stays so, the stages, and how many pieces have been shed.
pub open spec fn keeps_craft(before: Vessel, after: Vessel) -> bool {
    &&& after.name == before.name
    &&& after.parts@.len() == before.parts@.len()
    &&& forall|i: int|
        0 <= i < before.parts@.len() ==> {
            &&& (#[trigger] after.parts@[i]).instance == before.parts@[i].instance
            &&& before.parts@[i].destroyed ==> after.parts@[i].destroyed
            &&& after.parts@[i].active ==> before.parts@[i].active
            &&& after.parts@[i].parachute_deployed == before.parts@[i].parachute_deployed
        }
    &&& after.stages == before.stages
    &&& after.next_stage == before.next_stage
    &&& after.controls == before.controls
    &&& after.maneuver == before.maneuver
    &&& after.crew == before.crew
    &&& after.debris@.len() == before.debris@.len()
}

/// A step of flight keeps the craft: it renames no part, brings none back, lights no engine,
/// opens no parachute, activates no stage and moves no lever.
pub proof fn law_step_keeps_craft<
    Q: Fn(&Vessel, &EngineGroup) -> Real,
    S: Fn(Real, u32, u32) -> Real,
    T: Fn(Vec<Real>) -> Real,
    R: Fn(Real, Real, Real) -> Real,
    M: Fn(&Vessel, &Vessel, &Vec<GroupBurn>) -> Motion,
    W: Fn(Real, bool, Real) -> Real,
    A: Fn(Real, Real, Real) -> (Real, Real),
    E: Fn(&Vessel, &Motion) -> Arrival,
    D: Fn(&DetachedStage) -> Drifted,
    X: Fn(&Vessel) -> Reach,
    F: Fn(&Vessel, &CelestialBodyDef) -> Frame,
>(
    before: Vessel,
    after: Vessel,
    thrust: Real,
    catalog: Map<Seq<char>, DefinitionView>,
    mechanics: Mechanics<Q, S, T, R, M, W, A, E, D, X, F>,
)
    requires
        is_stepped(before, after, thrust, catalog, mechanics),
    ensures
        keeps_craft(before, after),
{
    if before.situation != FlightSituation::Crashed {
        let (earlier, burnt, burns, motion) = choose|
            earlier: Vessel,
            burnt: Vessel,
            burns: Vec<GroupBurn>,
            motion: Motion,
        |
            {
                &&& earlier@ == before@
                &&& is_burnt(
                    before,
                    burnt,
                    catalog,
                    burns@,
                    mechanics.request,
                    mechanics.solid_left,
                    mechanics.total,
                    mechanics.rest,
                )
                &&& #[trigger] call_ensures(mechanics.motion, (&earlier, &burnt, &burns), motion)
                &&& thrust == motion.thrust
                &&& is_moved(burnt, after, catalog, motion, mechanics)
            };
        lemma_burn_keeps_craft(
            before,
            burnt,
            catalog,
            burns@,
            mechanics.request,
            mechanics.solid_left,
            mechanics.total,
            mechanics.rest,
        );
        lemma_motion_keeps_craft(burnt, after, catalog, motion, mechanics);
        lemma_keeps_on(before, burnt, after);
    }
}

/// A vessel that has crashed flies no more.
pub proof fn law_crashed_vessels_stay<
    Q: Fn(&Vessel, &EngineGroup) -> Real,
    S: Fn(Real, u32, u32) -> Real,
    T: Fn(Vec<Real>) -> Real,
    R: Fn(Real, Real, Real) -> Real,
    M: Fn(&Vessel, &Vessel, &Vec<GroupBurn>) -> Motion,
    W: Fn(Real, bool, Real) -> Real,
    A: Fn(Real, Real, Real) -> (Real, Real),
    E: Fn(&Vessel, &Motion) -> Arrival,
    D: Fn(&DetachedStage) -> Drifted,
    X: Fn(&Vessel) -> Reach,
    F: Fn(&Vessel, &CelestialBodyDef) -> Frame,
>(
    before: Vessel,
    after: Vessel,
    thrust: Real,
    catalog: Map<Seq<char>, DefinitionView>,
    mechanics: Mechanics<Q, S, T, R, M, W, A, E, D, X, F>,
)
    requires
        is_stepped(before, after, thrust, catalog, mechanics),
        before.situation == FlightSituation::Crashed,
    ensures
        after == before,
        thrust == Real::spec_of(0),
{
}

proof fn lemma_keeps_on(a: Vessel, b: Vessel, c: Vessel)
    requires
        keeps_craft(a, b),
        keeps_craft(b, c),
    ensures
        keeps_craft(a, c),
{
    assert forall|i: int| 0 <= i < a.parts@.len() implies {
        &&& (#[trigger] c.parts@[i]).instance == a.parts@[i].instance
        &&& a.parts@[i].destroyed ==> c.parts@[i].destroyed
        &&& c.parts@[i].active ==> a.parts@[i].active
        &&& c.parts@[i].parachute_deployed == a.parts@[i].parachute_deployed
    } by {
        assert(b.parts@[i].instance == a.parts@[i].instance);
    }
}

proof fn lemma_drain_keeps_craft<T: Fn(Vec<Real>) -> Real, R: Fn(Real, Real, Real) -> Real>(
    before: Vessel,
    after: Vessel,
    wanted: spec_fn(RuntimePart) -> bool,
    amount: Real,
    taken: Real,
    total: T,
    rest: R,
)
    requires
        is_drain(before, after, wanted, amount, taken, total, rest),
    ensures
        keeps_craft(before, after),
{
    let (held, available) = choose|held: Vec<Real>, available: Real| #[trigger]
        call_ensures(total, (held,), available) && held@ == levels(before.parts@, wanted)
            && if available.spec_at_most(Real::spec_of(0)) {
            taken == Real::spec_of(0) && after.parts@ == before.parts@
        } else {
            taken == available.spec_smaller(amount) && are_drained(
                before.parts@,
                after.parts@,
                wanted,
                taken,
                available,
                rest,
            )
        };
    if !available.spec_at_most(Real::spec_of(0)) {
        assert forall|i: int| 0 <= i < before.parts@.len() implies {
            &&& (#[trigger] after.parts@[i]).instance == before.parts@[i].instance
            &&& before.parts@[i].destroyed ==> after.parts@[i].destroyed
            &&& after.parts@[i].active ==> before.parts@[i].active
            &&& after.parts@[i].parachute_deployed == before.parts@[i].parachute_deployed
        } by {
            let part = before.parts@[i];
            if wanted(part) {
                assert(is_drained(part, after.parts@[i], taken, available, rest));
            }
        }
    }
}

proof fn lemma_drains_keep_craft<T: Fn(Vec<Real>) -> Real, R: Fn(Real, Real, Real) -> Real>(
    trace: Seq<Vessel>,
    catalog: Map<Seq<char>, DefinitionView>,
    burns: Seq<GroupBurn>,
    total: T,
    rest: R,
    n: int,
)
    requires
        are_drains(trace, catalog, burns, total, rest),
        0 <= n <= burns.len(),
    ensures
        keeps_craft(trace[0], trace[n]),
    decreases n,
{
    if n > 0 {
        lemma_drains_keep_craft(trace, catalog, burns, total, rest, n - 1);
        assert(trace[n - 1 + 1] == trace[n]);
        lemma_drain_keeps_craft(
            trace[n - 1],
            trace[n],
            feeding_tanks(catalog, burns[n - 1].group.members@),
            burns[n - 1].request,
            burns[n - 1].drained,
            total,
            rest,
        );
        lemma_keeps_on(trace[0], trace[n - 1], trace[n]);
    }
}

proof fn lemma_burn_keeps_craft<
    Q: Fn(&Vessel, &EngineGroup) -> Real,
    S: Fn(Real, u32, u32) -> Real,
    T: Fn(Vec<Real>) -> Real,
    R: Fn(Real, Real, Real) -> Real,
>(
    before: Vessel,
    after: Vessel,
    catalog: Map<Seq<char>, DefinitionView>,
    burns: Seq<GroupBurn>,
    request: Q,
    solid_left: S,
    total: T,
    rest: R,
)
    requires
        is_burnt(before, after, catalog, burns, request, solid_left, total, rest),
    ensures
        keeps_craft(before, after),
{
    let trace = choose|trace: Seq<Vessel>|
        {
            &&& #[trigger] are_drains(trace, catalog, burns, total, rest)
            &&& is_solid_burn(before, trace[0], catalog, solid_left)
            &&& trace.last() == after
        };
    let solid = trace[0];
    assert forall|i: int| 0 <= i < before.parts@.len() implies {
        &&& (#[trigger] solid.parts@[i]).instance == before.parts@[i].instance
        &&& before.parts@[i].destroyed ==> solid.parts@[i].destroyed
        &&& solid.parts@[i].active ==> before.parts@[i].active
        &&& solid.parts@[i].parachute_deployed == before.parts@[i].parachute_deployed
    } by {
        assert(is_solid_step(before.parts@[i], solid.parts@[i], catalog, solid_left));
    }
    lemma_drains_keep_craft(trace, catalog, burns, total, rest, burns.len() as int);
    lemma_keeps_on(before, solid, after);
}

proof fn lemma_tears_keep_craft(
    trace: Seq<Vessel>,
    loads: Seq<ParachuteLoad>,
    density: Real,
    n: int,
)
    requires
        are_tears(trace, loads, density),
        0 <= n <= loads.len(),
    ensures
        keeps_craft(trace[0], trace[n]),
    decreases n,
{
    if n > 0 {
        lemma_tears_keep_craft(trace, loads, density, n - 1);
        assert(trace[n - 1 + 1] == trace[n]);
        assert(keeps_craft(trace[n - 1], trace[n]));
        lemma_keeps_on(trace[0], trace[n - 1], trace[n]);
    }
}

proof fn lemma_motion_keeps_craft<
    Q: Fn(&Vessel, &EngineGroup) -> Real,
    S: Fn(Real, u32, u32) -> Real,
    T: Fn(Vec<Real>) -> Real,
    R: Fn(Real, Real, Real) -> Real,
    M: Fn(&Vessel, &Vessel, &Vec<GroupBurn>) -> Motion,
    W: Fn(Real, bool, Real) -> Real,
    A: Fn(Real, Real, Real) -> (Real, Real),
    E: Fn(&Vessel, &Motion) -> Arrival,
    D: Fn(&DetachedStage) -> Drifted,
    X: Fn(&Vessel) -> Reach,
    F: Fn(&Vessel, &CelestialBodyDef) -> Frame,
>(
    burnt: Vessel,
    after: Vessel,
    catalog: Map<Seq<char>, DefinitionView>,
    motion: Motion,
    mechanics: Mechanics<Q, S, T, R, M, W, A, E, D, X, F>,
)
    requires
        is_moved(burnt, after, catalog, motion, mechanics),
    ensures
        keeps_craft(burnt, after),
{
    let (stripped, spent, heated, arrival, adrift) = choose|
        stripped: Vessel,
        spent: Vessel,
        heated: Vessel,
        arrival: Arrival,
        adrift: Vessel,
    |
        {
            &&& is_stripped(burnt, stripped, loads_at(burnt, catalog, motion), motion.density)
            &&& #[trigger] is_spent(
                stripped,
                spent,
                catalog,
                motion.monopropellant,
                mechanics.total,
                mechanics.rest,
            )
            &&& is_heat_step(
                spent,
                heated,
                catalog,
                motion.heat_rate,
                mechanics.warm,
                mechanics.ablate,
            )
            &&& #[trigger] call_ensures(mechanics.arrive, (&heated, &motion), arrival)
            &&& adrift == (Vessel {
                debris: adrift.debris,
                ..arrived(heated, catalog, motion, arrival)
            })
            &&& are_adrift(heated.debris@, adrift.debris@, mechanics.drift)
            &&& #[trigger] is_transferred(adrift, after, mechanics.reach, mechanics.frame)
        };
    let trace = choose|trace: Seq<Vessel>| #[trigger]
        are_tears(trace, loads_at(burnt, catalog, motion), motion.density) && trace[0] == burnt
            && trace.last() == stripped;
    lemma_tears_keep_craft(
        trace,
        loads_at(burnt, catalog, motion),
        motion.density,
        loads_at(burnt, catalog, motion).len() as int,
    );
    if let Some(amount) = motion.monopropellant {
        let taken = choose|taken: Real| #[trigger]
            is_drain(
                stripped,
                spent,
                monopropellant_tanks(catalog),
                amount,
                taken,
                mechanics.total,
                mechanics.rest,
            );
        lemma_drain_keeps_craft(
            stripped,
            spent,
            monopropellant_tanks(catalog),
            amount,
            taken,
            mechanics.total,
            mechanics.rest,
        );
    }
    lemma_heat_keeps_craft(
        spent,
        heated,
        catalog,
        motion.heat_rate,
        mechanics.warm,
        mechanics.ablate,
    );
    lemma_keeps_on(burnt, stripped, spent);
    lemma_keeps_on(burnt, spent, heated);
    assert(keeps_craft(heated, adrift));
    assert(keeps_craft(adrift, after));
    lemma_keeps_on(burnt, heated, adrift);
    lemma_keeps_on(burnt, adrift, after);
}

proof fn lemma_heat_keeps_craft<
    W: Fn(Real, bool, Real) -> Real,
    A: Fn(Real, Real, Real) -> (Real, Real),
>(
    before: Vessel,
    after: Vessel,
    catalog: Map<Seq<char>, DefinitionView>,
    heat_rate: Real,
    warm: W,
    ablate: A,
)
    requires
        is_heat_step(before, after, catalog, heat_rate, warm, ablate),
    ensures
        keeps_craft(before, after),
{
    let shielded = has_ablator(before.parts@);
    let heated = choose|heated: Seq<RuntimePart>|
        are_heated(
            before.parts@,
            heated,
            catalog,
            shielded,
            heat_rate,
            warm,
            ablate,
        ) && after.parts@ == #[trigger] after_breaking(heated, catalog);
    assert forall|i: int| 0 <= i < before.parts@.len() implies {
        &&& (#[trigger] after.parts@[i]).instance == before.parts@[i].instance
        &&& before.parts@[i].destroyed ==> after.parts@[i].destroyed
        &&& after.parts@[i].active ==> before.parts@[i].active
        &&& after.parts@[i].parachute_deployed == before.parts@[i].parachute_deployed
    } by {
        assert(is_heated(
            before.parts@[i],
            heated[i],
            catalog,
            shielded,
            heat_rate,
            warm,
            ablate,
        ));
    }
}

/// Whether a store that was not below empty has not grown, nor fallen below empty.
pub open spec fn only_falls(before: Real, after: Real) -> bool {
    Real::spec_of(0).spec_at_most(before) ==> Real::spec_of(0).spec_at_most(after)
        && after.spec_at_most(before)
}

/// Whether the propellant and ablator of each part have only fallen.
pub open spec fn stores_fall(before: Seq<RuntimePart>, after: Seq<RuntimePart>) -> bool {
    &&& after.len() == before.len()
    &&& forall|i: int|
        0 <= i < before.len() ==> only_falls(before[i].fuel, (#[trigger] after[i]).fuel)
            && only_falls(before[i].ablator, after[i].ablator)
}

/// Whether what is left of a load of propellant or ablator is never more than there was; of
/// solid propellant and ablator, nor less than none. (A tank is never left below empty.)
pub open spec fn makes_nothing<
    S: Fn(Real, u32, u32) -> Real,
    R: Fn(Real, Real, Real) -> Real,
    A: Fn(Real, Real, Real) -> (Real, Real),
>(solid_left: S, rest: R, ablate: A) -> bool {
    &&& forall|held: Real, thrust: u32, isp: u32, left: Real| #[trigger]
        call_ensures(solid_left, (held, thrust, isp), left) && Real::spec_of(0).spec_at_most(held)
            ==> Real::spec_of(0).spec_at_most(left) && left.spec_at_most(held)
    &&& forall|held: Real, taken: Real, available: Real, left: Real| #[trigger]
        call_ensures(rest, (held, taken, available), left) && Real::spec_of(0).spec_at_most(held)
            ==> left.spec_is_nan() || left.spec_at_most(held)
    &&& forall|held: Real, warmed: Real, heat_rate: Real, worn: (Real, Real)| #[trigger]
        call_ensures(ablate, (held, warmed, heat_rate), worn) && Real::spec_of(0).spec_at_most(held)
            ==> Real::spec_of(0).spec_at_most(worn.0) && worn.0.spec_at_most(held)
}

/// A step of flight takes propellant and ablator and makes none: where what is left of a
/// load is never more than there was, no part has more of either after the step, nor less
/// than none. The hardest heating that was met never falls.
pub proof fn law_stores_only_fall<
    Q: Fn(&Vessel, &EngineGroup) -> Real,
    S: Fn(Real, u32, u32) -> Real,
    T: Fn(Vec<Real>) -> Real,
    R: Fn(Real, Real, Real) -> Real,
    M: Fn(&Vessel, &Vessel, &Vec<GroupBurn>) -> Motion,
    W: Fn(Real, bool, Real) -> Real,
    A: Fn(Real, Real, Real) -> (Real, Real),
    E: Fn(&Vessel, &Motion) -> Arrival,
    D: Fn(&DetachedStage) -> Drifted,
    X: Fn(&Vessel) -> Reach,
    F: Fn(&Vessel, &CelestialBodyDef) -> Frame,
>(
    before: Vessel,
    after: Vessel,
    thrust: Real,
    catalog: Map<Seq<char>, DefinitionView>,
    mechanics: Mechanics<Q, S, T, R, M, W, A, E, D, X, F>,
)
    requires
        is_stepped(before, after, thrust, catalog, mechanics),
        makes_nothing(mechanics.solid_left, mechanics.rest, mechanics.ablate),
    ensures
        stores_fall(before.parts@, after.parts@),
        !before.max_heating.spec_is_nan() ==> before.max_heating.spec_at_most(after.max_heating),
{
    if before.situation != FlightSituation::Crashed {
        let (earlier, burnt, burns, motion) = choose|
            earlier: Vessel,
            burnt: Vessel,
            burns: Vec<GroupBurn>,
            motion: Motion,
        |
            {
                &&& earlier@ == before@
                &&& is_burnt(
                    before,
                    burnt,
                    catalog,
                    burns@,
                    mechanics.request,
                    mechanics.solid_left,
                    mechanics.total,
                    mechanics.rest,
                )
                &&& #[trigger] call_ensures(mechanics.motion, (&earlier, &burnt, &burns), motion)
                &&& thrust == motion.thrust
                &&& is_moved(burnt, after, catalog, motion, mechanics)
            };
        lemma_burn_makes_nothing(before, burnt, catalog, burns@, mechanics);
        lemma_motion_makes_nothing(burnt, after, catalog, motion, mechanics);
        lemma_falls_on(before.parts@, burnt.parts@, after.parts@);
    }
}

/// A vessel without a command pod that flies has crashed once a step is over.
pub proof fn law_lost_command_is_a_crash<
    Q: Fn(&Vessel, &EngineGroup) -> Real,
    S: Fn(Real, u32, u32) -> Real,
    T: Fn(Vec<Real>) -> Real,
    R: Fn(Real, Real, Real) -> Real,
    M: Fn(&Vessel, &Vessel, &Vec<GroupBurn>) -> Motion,
    W: Fn(Real, bool, Real) -> Real,
    A: Fn(Real, Real, Real) -> (Real, Real),
    E: Fn(&Vessel, &Motion) -> Arrival,
    D: Fn(&DetachedStage) -> Drifted,
    X: Fn(&Vessel) -> Reach,
    F: Fn(&Vessel, &CelestialBodyDef) -> Frame,
>(
    before: Vessel,
    after: Vessel,
    thrust: Real,
    catalog: Map<Seq<char>, DefinitionView>,
    mechanics: Mechanics<Q, S, T, R, M, W, A, E, D, X, F>,
)
    requires
        is_stepped(before, after, thrust, catalog, mechanics),
        !has_command(after.parts@, catalog),
    ensures
        after.situation == FlightSituation::Crashed,
{
    if before.situation != FlightSituation::Crashed {
        let (earlier, burnt, burns, motion) = choose|
            earlier: Vessel,
            burnt: Vessel,
            burns: Vec<GroupBurn>,
            motion: Motion,
        |
            {
                &&& earlier@ == before@
                &&& is_burnt(
                    before,
                    burnt,
                    catalog,
                    burns@,
                    mechanics.request,
                    mechanics.solid_left,
                    mechanics.total,
                    mechanics.rest,
                )
                &&& #[trigger] call_ensures(mechanics.motion, (&earlier, &burnt, &burns), motion)
                &&& thrust == motion.thrust
                &&& is_moved(burnt, after, catalog, motion, mechanics)
            };
        let (stripped, spent, heated, arrival, adrift) = choose|
            stripped: Vessel,
            spent: Vessel,
            heated: Vessel,
            arrival: Arrival,
            adrift: Vessel,
        |
            {
                &&& is_stripped(burnt, stripped, loads_at(burnt, catalog, motion), motion.density)
                &&& #[trigger] is_spent(
                    stripped,
                    spent,
                    catalog,
                    motion.monopropellant,
                    mechanics.total,
                    mechanics.rest,
                )
                &&& is_heat_step(
                    spent,
                    heated,
                    catalog,
                    motion.heat_rate,
                    mechanics.warm,
                    mechanics.ablate,
                )
                &&& #[trigger] call_ensures(mechanics.arrive, (&heated, &motion), arrival)
                &&& adrift == (Vessel {
                    debris: adrift.debris,
                    ..arrived(heated, catalog, motion, arrival)
                })
                &&& are_adrift(heated.debris@, adrift.debris@, mechanics.drift)
                &&& #[trigger] is_transferred(adrift, after, mechanics.reach, mechanics.frame)
            };
    }
}

proof fn lemma_falls_on(a: Seq<RuntimePart>, b: Seq<RuntimePart>, c: Seq<RuntimePart>)
    requires
        stores_fall(a, b),
        stores_fall(b, c),
    ensures
        stores_fall(a, c),
{
    assert forall|i: int| 0 <= i < a.len() implies only_falls(a[i].fuel, (#[trigger] c[i]).fuel)
        && only_falls(a[i].ablator, c[i].ablator) by {
        assert(only_falls(a[i].fuel, b[i].fuel));
    }
}

proof fn lemma_drain_makes_nothing<T: Fn(Vec<Real>) -> Real, R: Fn(Real, Real, Real) -> Real>(
    before: Vessel,
    after: Vessel,
    wanted: spec_fn(RuntimePart) -> bool,
    amount: Real,
    taken: Real,
    total: T,
    rest: R,
)
    requires
        is_drain(before, after, wanted, amount, taken, total, rest),
        forall|held: Real, taken: Real, available: Real, left: Real| #[trigger]
            call_ensures(rest, (held, taken, available), left) && Real::spec_of(0).spec_at_most(
                held,
            ) ==> left.spec_is_nan() || left.spec_at_most(held),
    ensures
        stores_fall(before.parts@, after.parts@),
        after.max_heating == before.max_heating,
{
    let (held, available) = choose|held: Vec<Real>, available: Real| #[trigger]
        call_ensures(total, (held,), available) && held@ == levels(before.parts@, wanted)
            && if available.spec_at_most(Real::spec_of(0)) {
            taken == Real::spec_of(0) && after.parts@ == before.parts@
        } else {
            taken == available.spec_smaller(amount) && are_drained(
                before.parts@,
                after.parts@,
                wanted,
                taken,
                available,
                rest,
            )
        };
    if !available.spec_at_most(Real::spec_of(0)) {
        assert forall|i: int| 0 <= i < before.parts@.len() implies only_falls(
            before.parts@[i].fuel,
            (#[trigger] after.parts@[i]).fuel,
        ) && only_falls(before.parts@[i].ablator, after.parts@[i].ablator) by {
            let part = before.parts@[i];
            if wanted(part) {
                assert(is_drained(part, after.parts@[i], taken, available, rest));
            }
        }
    }
}

proof fn lemma_drains_make_nothing<T: Fn(Vec<Real>) -> Real, R: Fn(Real, Real, Real) -> Real>(
    trace: Seq<Vessel>,
    catalog: Map<Seq<char>, DefinitionView>,
    burns: Seq<GroupBurn>,
    total: T,
    rest: R,
    n: int,
)
    requires
        are_drains(trace, catalog, burns, total, rest),
        0 <= n <= burns.len(),
        forall|held: Real, taken: Real, available: Real, left: Real| #[trigger]
            call_ensures(rest, (held, taken, available), left) && Real::spec_of(0).spec_at_most(
                held,
            ) ==> left.spec_is_nan() || left.spec_at_most(held),
    ensures
        stores_fall(trace[0].parts@, trace[n].parts@),
        trace[n].max_heating == trace[0].max_heating,
    decreases n,
{
    if n > 0 {
        lemma_drains_make_nothing(trace, catalog, burns, total, rest, n - 1);
        assert(trace[n - 1 + 1] == trace[n]);
        lemma_drain_makes_nothing(
            trace[n - 1],
            trace[n],
            feeding_tanks(catalog, burns[n - 1].group.members@),
            burns[n - 1].request,
            burns[n - 1].drained,
            total,
            rest,
        );
        lemma_falls_on(trace[0].parts@, trace[n - 1].parts@, trace[n].parts@);
    }
}

proof fn lemma_burn_makes_nothing<
    Q: Fn(&Vessel, &EngineGroup) -> Real,
    S: Fn(Real, u32, u32) -> Real,
    T: Fn(Vec<Real>) -> Real,
    R: Fn(Real, Real, Real) -> Real,
    M: Fn(&Vessel, &Vessel, &Vec<GroupBurn>) -> Motion,
    W: Fn(Real, bool, Real) -> Real,
    A: Fn(Real, Real, Real) -> (Real, Real),
    E: Fn(&Vessel, &Motion) -> Arrival,
    D: Fn(&DetachedStage) -> Drifted,
    X: Fn(&Vessel) -> Reach,
    F: Fn(&Vessel, &CelestialBodyDef) -> Frame,
>(
    before: Vessel,
    after: Vessel,
    catalog: Map<Seq<char>, DefinitionView>,
    burns: Seq<GroupBurn>,
    mechanics: Mechanics<Q, S, T, R, M, W, A, E, D, X, F>,
)
    requires
        is_burnt(
            before,
            after,
            catalog,
            burns,
            mechanics.request,
            mechanics.solid_left,
            mechanics.total,
            mechanics.rest,
        ),
        makes_nothing(mechanics.solid_left, mechanics.rest, mechanics.ablate),
    ensures
        stores_fall(before.parts@, after.parts@),
        after.max_heating == before.max_heating,
{
    let trace = choose|trace: Seq<Vessel>|
        {
            &&& #[trigger] are_drains(trace, catalog, burns, mechanics.total, mechanics.rest)
            &&& is_solid_burn(before, trace[0], catalog, mechanics.solid_left)
            &&& trace.last() == after
        };
    let solid = trace[0];
    assert forall|i: int| 0 <= i < before.parts@.len() implies only_falls(
        before.parts@[i].fuel,
        (#[trigger] solid.parts@[i]).fuel,
    ) && only_falls(before.parts@[i].ablator, solid.parts@[i].ablator) by {
        assert(is_solid_step(before.parts@[i], solid.parts@[i], catalog, mechanics.solid_left));
    }
    lemma_drains_make_nothing(
        trace,
        catalog,
        burns,
        mechanics.total,
        mechanics.rest,
        burns.len() as int,
    );
    lemma_falls_on(before.parts@, solid.parts@, after.parts@);
}

proof fn lemma_tears_make_nothing(
    trace: Seq<Vessel>,
    loads: Seq<ParachuteLoad>,
    density: Real,
    n: int,
)
    requires
        are_tears(trace, loads, density),
        0 <= n <= loads.len(),
    ensures
        stores_fall(trace[0].parts@, trace[n].parts@),
        trace[n].max_heating == trace[0].max_heating,
    decreases n,
{
    if n > 0 {
        lemma_tears_make_nothing(trace, loads, density, n - 1);
        assert(trace[n - 1 + 1] == trace[n]);
        assert(stores_fall(trace[n - 1].parts@, trace[n].parts@));
        lemma_falls_on(trace[0].parts@, trace[n - 1].parts@, trace[n].parts@);
    }
}

proof fn lemma_motion_makes_nothing<
    Q: Fn(&Vessel, &EngineGroup) -> Real,
    S: Fn(Real, u32, u32) -> Real,
    T: Fn(Vec<Real>) -> Real,
    R: Fn(Real, Real, Real) -> Real,
    M: Fn(&Vessel, &Vessel, &Vec<GroupBurn>) -> Motion,
    W: Fn(Real, bool, Real) -> Real,
    A: Fn(Real, Real, Real) -> (Real, Real),
    E: Fn(&Vessel, &Motion) -> Arrival,
    D: Fn(&DetachedStage) -> Drifted,
    X: Fn(&Vessel) -> Reach,
    F: Fn(&Vessel, &CelestialBodyDef) -> Frame,
>(
    burnt: Vessel,
    after: Vessel,
    catalog: Map<Seq<char>, DefinitionView>,
    motion: Motion,
    mechanics: Mechanics<Q, S, T, R, M, W, A, E, D, X, F>,
)
    requires
        is_moved(burnt, after, catalog, motion, mechanics),
        makes_nothing(mechanics.solid_left, mechanics.rest, mechanics.ablate),
    ensures
        stores_fall(burnt.parts@, after.parts@),
        !burnt.max_heating.spec_is_nan() ==> burnt.max_heating.spec_at_most(after.max_heating),
{
    let (stripped, spent, heated, arrival, adrift) = choose|
        stripped: Vessel,
        spent: Vessel,
        heated: Vessel,
        arrival: Arrival,
        adrift: Vessel,
    |
        {
            &&& is_stripped(burnt, stripped, loads_at(burnt, catalog, motion), motion.density)
            &&& #[trigger] is_spent(
                stripped,
                spent,
                catalog,
                motion.monopropellant,
                mechanics.total,
                mechanics.rest,
            )
            &&& is_heat_step(
                spent,
                heated,
                catalog,
                motion.heat_rate,
                mechanics.warm,
                mechanics.ablate,
            )
            &&& #[trigger] call_ensures(mechanics.arrive, (&heated, &motion), arrival)
            &&& adrift == (Vessel {
                debris: adrift.debris,
                ..arrived(heated, catalog, motion, arrival)
            })
            &&& are_adrift(heated.debris@, adrift.debris@, mechanics.drift)
            &&& #[trigger] is_transferred(adrift, after, mechanics.reach, mechanics.frame)
        };
    let loads = loads_at(burnt, catalog, motion);
    let trace = choose|trace: Seq<Vessel>| #[trigger]
        are_tears(trace, loads, motion.density) && trace[0] == burnt && trace.last() == stripped;
    lemma_tears_make_nothing(trace, loads, motion.density, loads.len() as int);
    if let Some(amount) = motion.monopropellant {
        let taken = choose|taken: Real| #[trigger]
            is_drain(
                stripped,
                spent,
                monopropellant_tanks(catalog),
                amount,
                taken,
                mechanics.total,
                mechanics.rest,
            );
        lemma_drain_makes_nothing(
            stripped,
            spent,
            monopropellant_tanks(catalog),
            amount,
            taken,
            mechanics.total,
            mechanics.rest,
        );
    }
    lemma_heat_makes_nothing(spent, heated, catalog, motion.heat_rate, mechanics);
    lemma_falls_on(burnt.parts@, stripped.parts@, spent.parts@);
    lemma_falls_on(burnt.parts@, spent.parts@, heated.parts@);
}

proof fn lemma_heat_makes_nothing<
    Q: Fn(&Vessel, &EngineGroup) -> Real,
    S: Fn(Real, u32, u32) -> Real,
    T: Fn(Vec<Real>) -> Real,
    R: Fn(Real, Real, Real) -> Real,
    M: Fn(&Vessel, &Vessel, &Vec<GroupBurn>) -> Motion,
    W: Fn(Real, bool, Real) -> Real,
    A: Fn(Real, Real, Real) -> (Real, Real),
    E: Fn(&Vessel, &Motion) -> Arrival,
    D: Fn(&DetachedStage) -> Drifted,
    X: Fn(&Vessel) -> Reach,
    F: Fn(&Vessel, &CelestialBodyDef) -> Frame,
>(
    before: Vessel,
    after: Vessel,
    catalog: Map<Seq<char>, DefinitionView>,
    heat_rate: Real,
    mechanics: Mechanics<Q, S, T, R, M, W, A, E, D, X, F>,
)
    requires
        is_heat_step(before, after, catalog, heat_rate, mechanics.warm, mechanics.ablate),
        makes_nothing(mechanics.solid_left, mechanics.rest, mechanics.ablate),
    ensures
        stores_fall(before.parts@, after.parts@),
{
    let shielded = has_ablator(before.parts@);
    let heated = choose|heated: Seq<RuntimePart>|
        are_heated(
            before.parts@,
            heated,
            catalog,
            shielded,
            heat_rate,
            mechanics.warm,
            mechanics.ablate,
        ) && after.parts@ == #[trigger] after_breaking(heated, catalog);
    assert forall|i: int| 0 <= i < before.parts@.len() implies only_falls(
        before.parts@[i].fuel,
        (#[trigger] after.parts@[i]).fuel,
    ) && only_falls(before.parts@[i].ablator, after.parts@[i].ablator) by {
        assert(is_heated(
            before.parts@[i],
            heated[i],
            catalog,
            shielded,
            heat_rate,
            mechanics.warm,
            mechanics.ablate,
        ));
    }
}

/// What a step makes of a vessel that is not wrecked: it stands where it arrived, turned and
/// turning as its motion says, and each piece of debris where it drifted. Under command it is
/// in orbit above the air of its body with a path that stays above, has landed or is wrecked at
/// most five metres up by what it endures, and flies elsewhere; without command it is a wreck.
pub proof fn law_step_ends_where_it_arrives<
    Q: Fn(&Vessel, &EngineGroup) -> Real,
    S: Fn(Real, u32, u32) -> Real,
    T: Fn(Vec<Real>) -> Real,
    R: Fn(Real, Real, Real) -> Real,
    M: Fn(&Vessel, &Vessel, &Vec<GroupBurn>) -> Motion,
    W: Fn(Real, bool, Real) -> Real,
    A: Fn(Real, Real, Real) -> (Real, Real),
    E: Fn(&Vessel, &Motion) -> Arrival,
    D: Fn(&DetachedStage) -> Drifted,
    X: Fn(&Vessel) -> Reach,
    F: Fn(&Vessel, &CelestialBodyDef) -> Frame,
>(
    vessel: &mut Vessel,
    catalog: &PartCatalog,
    mechanics: &Mechanics<Q, S, T, R, M, W, A, E, D, X, F>,
    thrust: Real,
    k: int,
)
    requires
        call_ensures(
            step_vessel::<Q, S, T, R, M, W, A, E, D, X, F>,
            (vessel, catalog, mechanics),
            thrust,
        ),
        !(old(vessel).situation is Crashed),
        forall|v: &Vessel, m: &Motion, a: Arrival| #[trigger]
            call_ensures(mechanics.arrive, (v, m), a) ==> a.altitude.spec_is_finite()
                && a.periapsis.spec_is_finite(),
    ensures
        exists|
            earlier: Vessel,
            burnt: Vessel,
            burns: Vec<GroupBurn>,
            motion: Motion,
            heated: Vessel,
            arrival: Arrival,
            adrift: Vessel,
        |
            {
                let high = arrival.altitude.value();
                let grounded = high <= 5 * pow2(1074);
                let air = match body(heated.primary_body@).atmosphere {
                    Some(atmosphere) => atmosphere.height,
                    None => 0,
                };
                let orbiting = high > air * pow2(1074) && arrival.periapsis.value() > air * pow2(
                    1074,
                );
                let commanded = exists|i: int|
                    0 <= i < heated.parts@.len() && !(#[trigger] heated.parts@[i]).destroyed
                        && catalog@.contains_key(heated.parts@[i].instance.definition_id@)
                        && catalog@[heated.parts@[i].instance.definition_id@].module is Command;
                &&& earlier@ == old(vessel)@
                &&& #[trigger] call_ensures(mechanics.motion, (&earlier, &burnt, &burns), motion)
                &&& #[trigger] call_ensures(mechanics.arrive, (&heated, &motion), arrival)
                &&& #[trigger] is_transferred(
                    adrift,
                    *final(vessel),
                    mechanics.reach,
                    mechanics.frame,
                )
                &&& thrust == motion.thrust
                &&& adrift.position == arrival.position
                &&& adrift.velocity == arrival.velocity
                &&& adrift.attitude == motion.attitude
                &&& adrift.angular_velocity == motion.angular_velocity
                &&& adrift.parts == heated.parts
                &&& !commanded ==> adrift.situation is Crashed
                &&& commanded && orbiting ==> adrift.situation is Orbiting
                &&& commanded && !orbiting && grounded && !(heated.situation is Prelaunch)
                    && arrival.survivable ==> adrift.situation is Landed
                &&& commanded && !orbiting && grounded && !(heated.situation is Prelaunch)
                    && !arrival.survivable ==> adrift.situation is Crashed
                &&& commanded && !orbiting && !grounded && !(heated.situation is Crashed)
                    ==> adrift.situation is Flying
                &&& adrift.debris@.len() == heated.debris@.len()
                &&& 0 <= k < heated.debris@.len() ==> exists|place: Drifted| #[trigger]
                    call_ensures(mechanics.drift, (&heated.debris@[k],), place)
                        && adrift.debris@[k].position == place.position
                        && adrift.debris@[k].velocity == place.velocity
                        && adrift.debris@[k].attitude == place.attitude
                        && adrift.debris@[k].parts == heated.debris@[k].parts
            },
{
    let before = *vessel;
    let after = *final(vessel);
    let p = *mechanics;
    assert(is_stepped(before, after, thrust, catalog@, p));
    let (earlier, burnt, burns, motion) = choose|
        earlier: Vessel,
        burnt: Vessel,
        burns: Vec<GroupBurn>,
        motion: Motion,
    |
        {
            &&& earlier@ == before@
            &&& is_burnt(
                before,
                burnt,
                catalog@,
                burns@,
                p.request,
                p.solid_left,
                p.total,
                p.rest,
            )
            &&& #[trigger] call_ensures(p.motion, (&earlier, &burnt, &burns), motion)
            &&& thrust == motion.thrust
            &&& is_moved(burnt, after, catalog@, motion, p)
        };
    let (stripped, spent, heated, arrival, adrift) = choose|
        stripped: Vessel,
        spent: Vessel,
        heated: Vessel,
        arrival: Arrival,
        adrift: Vessel,
    |
        {
            &&& is_stripped(burnt, stripped, loads_at(burnt, catalog@, motion), motion.density)
            &&& #[trigger] is_spent(
                stripped,
                spent,
                catalog@,
                motion.monopropellant,
                p.total,
                p.rest,
            )
            &&& is_heat_step(
                spent,
                heated,
                catalog@,
                motion.heat_rate,
                p.warm,
                p.ablate,
            )
            &&& #[trigger] call_ensures(p.arrive, (&heated, &motion), arrival)
            &&& adrift == (Vessel {
                debris: adrift.debris,
                ..arrived(heated, catalog@, motion, arrival)
            })
            &&& are_adrift(heated.debris@, adrift.debris@, p.drift)
            &&& #[trigger] is_transferred(adrift, after, p.reach, p.frame)
        };

    assert(call_ensures(p.motion, (&earlier, &burnt, &burns), motion));
    assert(call_ensures(p.arrive, (&heated, &motion), arrival));
    assert(is_transferred(adrift, after, p.reach, p.frame));
    let air = match body(heated.primary_body@).atmosphere {
        Some(atmosphere) => atmosphere.height,
        None => 0,
    };
    law_whole_numbers_compare(5, arrival.altitude);
    law_whole_numbers_compare(air, arrival.altitude);
    law_whole_numbers_compare(air, arrival.periapsis);
    if 0 <= k < heated.debris@.len() {
        assert(is_adrift(heated.debris@[k], adrift.debris@[k], p.drift));
    }
    if has_command(heated.parts@, catalog@) {
        let i = choose|i: int|
            0 <= i < heated.parts@.len() && is_command(#[trigger] heated.parts@[i], catalog@);
        assert(!heated.parts@[i].destroyed);
    }
    assert forall|i: int|
        0 <= i < heated.parts@.len() && !(#[trigger] heated.parts@[i]).destroyed
            && catalog@.contains_key(heated.parts@[i].instance.definition_id@)
            && catalog@[heated.parts@[i].instance.definition_id@].module is Command implies
        has_command(heated.parts@, catalog@) by {
        assert(is_command(heated.parts@[i], catalog@));
    }
}

/// The parachutes that the air pulls at are those that are open on a flying part, each with
/// the speed that its kind bears and that of the air where it is.
pub proof fn law_open_parachutes_bear_the_air(
    parts: Seq<RuntimePart>,
    catalog: Map<Seq<char>, DefinitionView>,
    air_speeds: Seq<Real>,
    i: int,
)
    requires
        0 <= i < parts.len(),
    ensures
        ({
            let part = parts[i];
            let open = part.parachute_deployed && !part.destroyed && catalog.contains_key(
                part.instance.definition_id@,
            ) && catalog[part.instance.definition_id@].module is Parachute;
            let earlier = loads_of(parts, catalog, air_speeds, i);
            let loads = loads_of(parts, catalog, air_speeds, i + 1);
            &&& !open ==> loads == earlier
            &&& open ==> loads.len() == earlier.len() + 1 && loads.drop_last() == earlier
                && loads.last().id == part.instance.instance_id && loads.last().safe_speed
                == catalog[part.instance.definition_id@].module->safe_speed
            &&& open && i < air_speeds.len() ==> loads.last().air_speed == air_speeds[i]
            &&& open && i >= air_speeds.len() ==> loads.last().air_speed.bits == 0
        }),
        loads_of(parts, catalog, air_speeds, 0).len() == 0,
{
    let loads = loads_of(parts, catalog, air_speeds, i + 1);
    let earlier = loads_of(parts, catalog, air_speeds, i);
    if loads.len() > earlier.len() {
        assert(loads.drop_last() =~= earlier);
    }
}

/// Parachutes tear one after the other: the last of a list tears exactly where it is faster
/// than it bears in air that is not thinner than a fiftieth of a kilogram in the cubic metre.
pub proof fn law_fast_parachutes_tear_in_turn(
    before: Vessel,
    after: Vessel,
    loads: Seq<ParachuteLoad>,
    density: Real,
)
    requires
        is_stripped(before, after, loads, density),
        density.spec_is_finite(),
        forall|k: int| 0 <= k < loads.len() ==> (#[trigger] loads[k]).air_speed.spec_is_finite(),
    ensures
        loads.len() == 0 ==> after == before,
        loads.len() > 0 ==> exists|middle: Vessel| #[trigger]
            is_stripped(before, middle, loads.drop_last(), density) && {
                let load = loads.last();
                let tears = load.air_speed.value() > load.safe_speed * pow2(1074)
                    && density.value() >= Real::spec_of(TWO_HUNDREDTHS).value();
                &&& tears ==> is_torn(middle, after, load.id)
                &&& !tears ==> after == middle
            },
{
    let trace = choose|trace: Seq<Vessel>| #[trigger]
        are_tears(trace, loads, density) && trace[0] == before && trace.last() == after;
    if loads.len() > 0 {
        let load = loads.last();
        law_whole_numbers_compare(load.safe_speed, load.air_speed);
        law_named_numbers();
        law_order_is_numeric(density, Real::spec_of(TWO_HUNDREDTHS));
        let shorter = trace.drop_last();
        let k = loads.len() - 1;
        assert(trace[k] == shorter.last());
        assert(loads[k] == load);
        assert forall|j: int| 0 <= j < loads.drop_last().len() implies if holds(
            loads.drop_last()[j],
            density,
        ) {
            shorter[j + 1] == #[trigger] shorter[j]
        } else {
            is_torn(shorter[j], shorter[j + 1], loads.drop_last()[j].id)
        } by {
            assert(trace[j] == shorter[j]);
            assert(trace[j + 1] == shorter[j + 1]);
            assert(loads.drop_last()[j] == loads[j]);
        }
        assert(are_tears(shorter, loads.drop_last(), density));
        assert(is_stripped(before, trace[k], loads.drop_last(), density));
    }
}

/// In a step the solid engines burn by what their kind says, every group of liquid engines
/// draws what it asks for from the tanks it reaches, and no other part loses fuel.
pub proof fn law_step_burns_where_engines_run<
    Q: Fn(&Vessel, &EngineGroup) -> Real,
    S: Fn(Real, u32, u32) -> Real,
    T: Fn(Vec<Real>) -> Real,
    R: Fn(Real, Real, Real) -> Real,
>(
    before: Vessel,
    after: Vessel,
    catalog: Map<Seq<char>, DefinitionView>,
    burns: Seq<GroupBurn>,
    request: Q,
    solid_left: S,
    total: T,
    rest: R,
    i: int,
)
    requires
        is_burnt(before, after, catalog, burns, request, solid_left, total, rest),
        0 <= i < before.parts@.len(),
        before.parts@[i].fuel.spec_is_finite(),
    ensures
        after == (Vessel { parts: after.parts, ..before }),
        after.parts@.len() == before.parts@.len(),
        ({
            let part = before.parts@[i];
            let known = !part.destroyed && catalog.contains_key(part.instance.definition_id@);
            let module = catalog[part.instance.definition_id@].module;
            let fed = known && module is LiquidTank && exists|g: int|
                0 <= g < burns.len() && (#[trigger] burns[g]).group.members@.contains(
                    part.instance.instance_id,
                );
            let fires = known && part.active && module is SolidEngine && part.fuel.value() > 0;
            &&& !fed && !fires ==> after.parts@[i] == part
            &&& fires ==> call_ensures(
                solid_left,
                (part.fuel, module->SolidEngine_thrust, module->SolidEngine_isp),
                after.parts@[i].fuel,
            )
            &&& after.parts@[i].instance == part.instance
            &&& after.parts@[i].destroyed == part.destroyed
        }),
        forall|g: int|
            0 <= g < burns.len() ==> call_ensures(
                request,
                (&before, &(#[trigger] burns[g]).group),
                burns[g].request,
            ),
{
    let trace = choose|trace: Seq<Vessel>|
        {
            &&& #[trigger] are_drains(trace, catalog, burns, total, rest)
            &&& is_solid_burn(before, trace[0], catalog, solid_left)
            &&& trace.last() == after
        };
    let part = before.parts@[i];
    law_whole_numbers_compare(0, part.fuel);
    assert(is_solid_step(part, trace[0].parts@[i], catalog, solid_left));
    lemma_drains_reach_their_tanks(trace, catalog, burns, total, rest, burns.len() as int, i);
}

proof fn lemma_drains_reach_their_tanks<T: Fn(Vec<Real>) -> Real, R: Fn(Real, Real, Real) -> Real>(
    trace: Seq<Vessel>,
    catalog: Map<Seq<char>, DefinitionView>,
    burns: Seq<GroupBurn>,
    total: T,
    rest: R,
    n: int,
    i: int,
)
    requires
        are_drains(trace, catalog, burns, total, rest),
        0 <= n <= burns.len(),
        0 <= i < trace[0].parts@.len(),
    ensures
        trace[n] == (Vessel { parts: trace[n].parts, ..trace[0] }),
        trace[n].parts@.len() == trace[0].parts@.len(),
        trace[n].parts@[i] == (RuntimePart {
            fuel: trace[n].parts@[i].fuel,
            ..trace[0].parts@[i]
        }),
        (forall|g: int|
            0 <= g < burns.len() ==> !is_feeding_tank(
                trace[0].parts@[i],
                catalog,
                (#[trigger] burns[g]).group.members@,
            )) ==> trace[n].parts@[i] == trace[0].parts@[i],
    decreases n,
{
    if n > 0 {
        lemma_drains_reach_their_tanks(trace, catalog, burns, total, rest, n - 1, i);
        let g = n - 1;
        let wanted = feeding_tanks(catalog, burns[g].group.members@);
        assert(is_drain(
            trace[g],
            trace[g + 1],
            wanted,
            burns[g].request,
            burns[g].drained,
            total,
            rest,
        ));
        let part = trace[g].parts@[i];
        assert(wanted(part) == is_feeding_tank(trace[0].parts@[i], catalog, burns[g].group.members@));
        let (held, available) = choose|held: Vec<Real>, available: Real| #[trigger]
            call_ensures(total, (held,), available) && held@ == levels(trace[g].parts@, wanted)
                && if available.spec_at_most(Real::spec_of(0)) {
                burns[g].drained == Real::spec_of(0) && trace[n].parts@ == trace[g].parts@
            } else {
                burns[g].drained == available.spec_smaller(burns[g].request) && are_drained(
                    trace[g].parts@,
                    trace[n].parts@,
                    wanted,
                    burns[g].drained,
                    available,
                    rest,
                )
            };
        if !available.spec_at_most(Real::spec_of(0)) && wanted(part) {
            assert(is_drained(part, trace[n].parts@[i], burns[g].drained, available, rest));
        }
    }
}

} // verus!
