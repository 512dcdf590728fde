//! One step of flight: what heat, speed and the ground do to a vessel.
use crate::burn::{are_places, id_at, is_first_with_id, lemma_place_added};
use crate::fuel::{module_of, part_module};
use crate::craft::lemma_filter_step;
use crate::lineage::{law_subtree_holds_root, law_subtree_is_whole, subtree};
use crate::number::{
    law_integer_has_its_value, law_larger_and_smaller, law_order_is_numeric,
    law_whole_numbers_compare, Real, ONE_MILLIONTH, ONE_TEN_THOUSANDTH, TWO_HUNDREDTHS,
};
use crate::orbit::{in_orbit, is_in_orbit, CelestialBodyDef, GROUND_CLEARANCE};
use crate::parts::{DefinitionView, PartCatalog, PartModule};
use crate::staging::{descendants, tree_nodes};
use crate::vessel::{FlightSituation, RuntimePart, SasMode, Vessel};
use std::collections::BTreeSet;
use vstd::arithmetic::power2::*;
use vstd::prelude::*;

verus! {

/// The temperature of a part at rest, in kelvin.
pub const REST_TEMPERATURE: u32 = 290;

/// The heating above which a heat shield wears.
pub const ABLATION_THRESHOLD: u32 = 25;

/// Whether the part is a heat shield.
pub open spec fn is_shield(part: RuntimePart, catalog: Map<Seq<char>, DefinitionView>) -> bool {
    module_of(part, catalog) is Some && module_of(part, catalog)->0 is HeatShield
}

/// Whether the part is behind a shield.
pub open spec fn is_covered(
    part: RuntimePart,
    catalog: Map<Seq<char>, DefinitionView>,
    shielded: bool,
) -> bool {
    shielded && !is_shield(part, catalog)
}

/// Whether a part that flies has ablator left.
pub open spec fn has_ablator(parts: Seq<RuntimePart>) -> bool {
    exists|i: int|
        0 <= i < parts.len() && !(#[trigger] parts[i]).destroyed && Real::spec_of(0).spec_below(
            parts[i].ablator,
        )
}

/// Whether a part that flies has ablator left.
pub fn shield_available(vessel: &Vessel) -> (r: bool)
    ensures
        r == has_ablator(vessel.parts@),
{
    for i in 0..vessel.parts.len()
        invariant
            forall|k: int|
                0 <= k < i ==> (#[trigger] vessel.parts@[k]).destroyed || !Real::spec_of(
                    0,
                ).spec_below(vessel.parts@[k].ablator),
    {
        if !vessel.parts[i].destroyed && Real::zero().is_below(vessel.parts[i].ablator) {
            return true;
        }
    }
    false
}

/// Whether `after` is the part `before` after a step of heating. `warm` gives the
/// new temperature, for a part behind a shield or not; `ablate` gives what a shield
/// has left of its ablator, and its temperature then.
pub open spec fn is_heated<
    W: Fn(Real, bool, Real) -> Real,
    A: Fn(Real, Real, Real) -> (Real, Real),
>(
    before: RuntimePart,
    after: RuntimePart,
    catalog: Map<Seq<char>, DefinitionView>,
    shielded: bool,
    heat_rate: Real,
    warm: W,
    ablate: A,
) -> bool {
    if before.destroyed || module_of(before, catalog) is None {
        after == before
    } else {
        exists|warmed: Real| #[trigger]
            call_ensures(
                warm,
                (before.temperature, is_covered(before, catalog, shielded), heat_rate),
                warmed,
            ) && if is_shield(before, catalog) && Real::spec_integer(ABLATION_THRESHOLD).spec_below(
                heat_rate,
            ) && Real::spec_of(0).spec_below(before.ablator) {
                exists|worn: (Real, Real)| #[trigger]
                    call_ensures(ablate, (before.ablator, warmed, heat_rate), worn) && after == (RuntimePart {
                        ablator: worn.0,
                        temperature: worn.1.spec_larger(Real::spec_integer(REST_TEMPERATURE)),
                        ..before
                    })
            } else {
                after == (RuntimePart { temperature: warmed, ..before })
            }
    }
}

/// Whether the part is hotter than its kind endures.
pub open spec fn is_overheated(
    part: RuntimePart,
    catalog: Map<Seq<char>, DefinitionView>,
) -> bool {
    !part.destroyed && catalog.contains_key(part.instance.definition_id@) && Real::spec_integer(
        catalog[part.instance.definition_id@].max_temperature,
    ).spec_below(part.temperature)
}

/// Whether the part `id` hangs on an overheated part, or is one.
pub open spec fn is_lost(
    parts: Seq<RuntimePart>,
    catalog: Map<Seq<char>, DefinitionView>,
    id: u64,
) -> bool {
    exists|f: int|
        0 <= f < parts.len() && is_overheated(#[trigger] parts[f], catalog) && subtree(
            tree_nodes(parts),
            parts[f].instance.instance_id,
        ).contains(id)
}

/// The part, broken where `lost`.
pub open spec fn broken(part: RuntimePart, lost: bool) -> RuntimePart {
    if lost {
        RuntimePart { destroyed: true, active: false, ..part }
    } else {
        part
    }
}

fn warm_parts<W: Fn(Real, bool, Real) -> Real, A: Fn(Real, Real, Real) -> (Real, Real)>(
    parts: &mut Vec<RuntimePart>,
    catalog: &PartCatalog,
    shielded: bool,
    heat_rate: Real,
    warm: &W,
    ablate: &A,
)
    requires
        forall|a: Real, b: bool, c: Real| call_requires(*warm, (a, b, c)),
        forall|a: Real, b: Real, c: Real| call_requires(*ablate, (a, b, c)),
    ensures
        final(parts).len() == old(parts).len(),
        forall|i: int|
            0 <= i < old(parts).len() ==> is_heated(
                #[trigger] old(parts)@[i],
                final(parts)@[i],
                catalog@,
                shielded,
                heat_rate,
                *warm,
                *ablate,
            ),
{
    let ghost before = parts@;
    let count: usize = parts.len();
    for i in 0..count
        invariant
            forall|a: Real, b: bool, c: Real| call_requires(*warm, (a, b, c)),
            forall|a: Real, b: Real, c: Real| call_requires(*ablate, (a, b, c)),
            count == before.len(),
            parts.len() == before.len(),
            forall|k: int| i <= k < before.len() ==> parts@[k] == #[trigger] before[k],
            forall|k: int|
                0 <= k < i ==> is_heated(
                    #[trigger] before[k],
                    parts@[k],
                    catalog@,
                    shielded,
                    heat_rate,
                    *warm,
                    *ablate,
                ),
    {
        proof {
            assert(parts@[i as int] == before[i as int]);
        }
        if !parts[i].destroyed {
            if let Some(module) = part_module(&parts[i], catalog) {
                let shield = matches!(module, PartModule::HeatShield { .. });
                let warmed = warm(parts[i].temperature, shielded && !shield, heat_rate);
                let ablator = parts[i].ablator;
                if shield && Real::integer(ABLATION_THRESHOLD).is_below(heat_rate)
                    && Real::zero().is_below(ablator) {
                    let worn = ablate(ablator, warmed, heat_rate);
                    parts[i].ablator = worn.0;
                    parts[i].temperature = worn.1.larger(Real::integer(REST_TEMPERATURE));
                    proof {
                        assert(call_ensures(*ablate, (before[i as int].ablator, warmed, heat_rate), worn));
                    }
                } else {
                    parts[i].temperature = warmed;
                }
                proof {
                    assert(call_ensures(
                        *warm,
                        (
                            before[i as int].temperature,
                            is_covered(before[i as int], catalog@, shielded),
                            heat_rate,
                        ),
                        warmed,
                    ));
                    assert(is_heated(
                        before[i as int],
                        parts@[i as int],
                        catalog@,
                        shielded,
                        heat_rate,
                        *warm,
                        *ablate,
                    ));
                }
            }
        }
    }
}

fn overheats(part: &RuntimePart, catalog: &PartCatalog) -> (r: bool)
    ensures
        r == is_overheated(*part, catalog@),
{
    !part.destroyed && match catalog.get(&part.instance.definition_id) {
        Some(definition) => Real::integer(definition.max_temperature).is_below(part.temperature),
        None => false,
    }
}

/// Breaks every part of the subtree.
fn break_parts(parts: &mut Vec<RuntimePart>, removed: &BTreeSet<u64>)
    ensures
        final(parts).len() == old(parts).len(),
        forall|i: int|
            0 <= i < old(parts).len() ==> #[trigger] final(parts)@[i] == broken(
                old(parts)@[i],
                removed@.contains(old(parts)@[i].instance.instance_id),
            ),
{
    let ghost before = parts@;
    let count: usize = parts.len();
    for i in 0..count
        invariant
            count == before.len(),
            parts.len() == before.len(),
            forall|k: int| i <= k < before.len() ==> #[trigger] parts@[k] == before[k],
            forall|k: int|
                0 <= k < i ==> #[trigger] parts@[k] == broken(
                    before[k],
                    removed@.contains(before[k].instance.instance_id),
                ),
    {
        proof {
            assert(parts@[i as int] == before[i as int]);
        }
        if removed.contains(&parts[i].instance.instance_id) {
            parts[i].destroyed = true;
            parts[i].active = false;
        }
    }
}

/// Breaks what is overheated, with all that hangs on it.
pub fn break_overheated(vessel: &mut Vessel, catalog: &PartCatalog)
    ensures
        *final(vessel) == (Vessel { parts: final(vessel).parts, ..*old(vessel) }),
        final(vessel).parts.len() == old(vessel).parts.len(),
        forall|i: int|
            0 <= i < old(vessel).parts.len() ==> #[trigger] final(vessel).parts@[i] == broken(
                old(vessel).parts@[i],
                is_lost(
                    old(vessel).parts@,
                    catalog@,
                    old(vessel).parts@[i].instance.instance_id,
                ),
            ),
{
    let ghost before = vessel.parts@;
    let mut failed: Vec<usize> = Vec::new();
    let count: usize = vessel.parts.len();
    let ghost hot = |part: RuntimePart| is_overheated(part, catalog@);
    for i in 0..count
        invariant
            *vessel == *old(vessel),
            before == vessel.parts@,
            count == before.len(),
            hot == (|part: RuntimePart| is_overheated(part, catalog@)),
            are_places(before, hot, i as int, failed@),
    {
        proof {
            lemma_place_added(before, hot, i, failed@);
        }
        if overheats(&vessel.parts[i], catalog) {
            failed.push(i);
        }
    }
    for f in 0..failed.len()
        invariant
            before == old(vessel).parts@,
            before.len() == count,
            vessel.parts.len() == before.len(),
            *vessel == (Vessel { parts: vessel.parts, ..*old(vessel) }),
            hot == (|part: RuntimePart| is_overheated(part, catalog@)),
            are_places(before, hot, count as int, failed@),
            forall|i: int|
                0 <= i < before.len() ==> #[trigger] vessel.parts@[i] == broken(
                    before[i],
                    is_lost_to(before, failed@, f as int, before[i].instance.instance_id),
                ),
    {
        let ghost middle = vessel.parts@;
        proof {
            assert(failed@[f as int] < count);
            assert(vessel.parts@[failed@[f as int] as int].instance
                == before[failed@[f as int] as int].instance);
            assert(tree_nodes(middle) =~= tree_nodes(before));
        }
        let root: u64 = vessel.parts[failed[f]].instance.instance_id;
        let removed = descendants(vessel, root);
        break_parts(&mut vessel.parts, &removed);
        proof {
            assert forall|i: int| 0 <= i < before.len() implies #[trigger] vessel.parts@[i]
                == broken(
                before[i],
                is_lost_to(before, failed@, f + 1, before[i].instance.instance_id),
            ) by {
                let id = before[i].instance.instance_id;
                assert(middle[i] == broken(before[i], is_lost_to(before, failed@, f as int, id)));
                lemma_lost_to_one_more(before, failed@, f as int, id);
            }
        }
    }
    proof {
        assert forall|i: int| 0 <= i < before.len() implies is_lost_to(
            before,
            failed@,
            failed.len() as int,
            #[trigger] before[i].instance.instance_id,
        ) == is_lost(before, catalog@, before[i].instance.instance_id) by {
            lemma_lost(before, catalog@, failed@, before[i].instance.instance_id);
        }
    }
}

/// Whether the part `id` hangs on one of the first `n` parts that failed.
pub open spec fn is_lost_to(
    parts: Seq<RuntimePart>,
    failed: Seq<usize>,
    n: int,
    id: u64,
) -> bool {
    exists|f: int|
        0 <= f < n && subtree(
            tree_nodes(parts),
            id_at(parts, #[trigger] failed[f] as int),
        ).contains(id)
}

proof fn lemma_lost_to_one_more(parts: Seq<RuntimePart>, failed: Seq<usize>, n: int, id: u64)
    requires
        0 <= n < failed.len(),
    ensures
        is_lost_to(parts, failed, n + 1, id) == (is_lost_to(parts, failed, n, id) || subtree(
            tree_nodes(parts),
            id_at(parts, failed[n] as int),
        ).contains(id)),
{
    if is_lost_to(parts, failed, n, id) {
        let f = choose|f: int|
            0 <= f < n && subtree(
                tree_nodes(parts),
                id_at(parts, #[trigger] failed[f] as int),
            ).contains(id);
        assert(0 <= f < n + 1);
    }
    if subtree(tree_nodes(parts), id_at(parts, failed[n] as int)).contains(id) {
        assert(0 <= n < n + 1);
    }
}

proof fn lemma_lost(
    parts: Seq<RuntimePart>,
    catalog: Map<Seq<char>, DefinitionView>,
    failed: Seq<usize>,
    id: u64,
)
    requires
        are_places(
            parts,
            |part: RuntimePart| is_overheated(part, catalog),
            parts.len() as int,
            failed,
        ),
    ensures
        is_lost_to(parts, failed, failed.len() as int, id) == is_lost(parts, catalog, id),
{
    let hot = |part: RuntimePart| is_overheated(part, catalog);
    if is_lost(parts, catalog, id) {
        let p = choose|p: int|
            0 <= p < parts.len() && is_overheated(#[trigger] parts[p], catalog) && subtree(
                tree_nodes(parts),
                parts[p].instance.instance_id,
            ).contains(id);
        assert(hot(parts[p]));
        let k = choose|k: int| 0 <= k < failed.len() && #[trigger] failed[k] == p;
        assert(id_at(parts, failed[k] as int) == parts[p].instance.instance_id);
    }
    if is_lost_to(parts, failed, failed.len() as int, id) {
        let f = choose|f: int|
            0 <= f < failed.len() && subtree(
                tree_nodes(parts),
                id_at(parts, #[trigger] failed[f] as int),
            ).contains(id);
        assert(hot(parts[failed[f] as int]));
    }
}

/// Whether `after` is the vessel `before` after a step of heating.
pub open spec fn is_heat_step<
    W: Fn(Real, bool, Real) -> Real,
    A: Fn(Real, Real, Real) -> (Real, Real),
>(
    before: Vessel,
    after: Vessel,
    catalog: Map<Seq<char>, DefinitionView>,
    heat_rate: Real,
    warm: W,
    ablate: A,
) -> bool {
    &&& after == (Vessel {
        parts: after.parts,
        max_heating: before.max_heating.spec_larger(heat_rate),
        ..before
    })
    &&& exists|heated: Seq<RuntimePart>|
        are_heated(
            before.parts@,
            heated,
            catalog,
            has_ablator(before.parts@),
            heat_rate,
            warm,
            ablate,
        ) && after.parts@ == #[trigger] after_breaking(heated, catalog)
}

/// Whether the parts `heated` are the parts `before` after a step of heating, before any
/// breaks.
pub open spec fn are_heated<
    W: Fn(Real, bool, Real) -> Real,
    A: Fn(Real, Real, Real) -> (Real, Real),
>(
    before: Seq<RuntimePart>,
    heated: Seq<RuntimePart>,
    catalog: Map<Seq<char>, DefinitionView>,
    shielded: bool,
    heat_rate: Real,
    warm: W,
    ablate: A,
) -> bool {
    &&& heated.len() == before.len()
    &&& forall|i: int|
        0 <= i < heated.len() ==> is_heated(
            before[i],
            #[trigger] heated[i],
            catalog,
            shielded,
            heat_rate,
            warm,
            ablate,
        )
}

/// One step of heating: parts warm up, shields wear, and what gets too hot breaks
/// with all that hangs on it.
pub fn heat_parts<W: Fn(Real, bool, Real) -> Real, A: Fn(Real, Real, Real) -> (Real, Real)>(
    vessel: &mut Vessel,
    catalog: &PartCatalog,
    heat_rate: Real,
    warm: &W,
    ablate: &A,
)
    requires
        forall|a: Real, b: bool, c: Real| call_requires(*warm, (a, b, c)),
        forall|a: Real, b: Real, c: Real| call_requires(*ablate, (a, b, c)),
    ensures
        is_heat_step(*old(vessel), *final(vessel), catalog@, heat_rate, *warm, *ablate),
{
    let shielded = shield_available(vessel);
    vessel.max_heating = vessel.max_heating.larger(heat_rate);
    warm_parts(&mut vessel.parts, catalog, shielded, heat_rate, warm, ablate);
    let ghost heated = vessel.parts@;
    break_overheated(vessel, catalog);
    proof {
        assert forall|i: int| 0 <= i < heated.len() implies is_heated(
            old(vessel).parts@[i],
            #[trigger] heated[i],
            catalog@,
            has_ablator(old(vessel).parts@),
            heat_rate,
            *warm,
            *ablate,
        ) by {
            let prior = old(vessel).parts@[i];
        }
        assert(vessel.parts@ =~= after_breaking(heated, catalog@));
    }
}

/// The parts with what is overheated, and all that hangs on it, broken.
pub open spec fn after_breaking(
    parts: Seq<RuntimePart>,
    catalog: Map<Seq<char>, DefinitionView>,
) -> Seq<RuntimePart> {
    Seq::new(
        parts.len(),
        |i: int| broken(parts[i], is_lost(parts, catalog, parts[i].instance.instance_id)),
    )
}

/// Heating renames no part, repairs none and leaves its propellant alone.
pub proof fn law_heating_repairs_nothing<
    W: Fn(Real, bool, Real) -> Real,
    A: Fn(Real, Real, Real) -> (Real, Real),
>(
    before: Seq<RuntimePart>,
    heated: Seq<RuntimePart>,
    catalog: Map<Seq<char>, DefinitionView>,
    shielded: bool,
    heat_rate: Real,
    warm: W,
    ablate: A,
    i: int,
)
    requires
        are_heated(before, heated, catalog, shielded, heat_rate, warm, ablate),
        0 <= i < before.len(),
    ensures
        after_breaking(heated, catalog)[i].instance == before[i].instance,
        after_breaking(heated, catalog)[i].fuel == before[i].fuel,
        before[i].destroyed ==> after_breaking(heated, catalog)[i].destroyed,
        !after_breaking(heated, catalog)[i].destroyed ==> after_breaking(heated, catalog)[i]
            == heated[i] && !is_overheated(heated[i], catalog),
{
    assert(is_heated(before[i], heated[i], catalog, shielded, heat_rate, warm, ablate));
    if is_overheated(heated[i], catalog) {
        law_subtree_holds_root(tree_nodes(heated), heated[i].instance.instance_id);
        assert(is_lost(heated, catalog, heated[i].instance.instance_id));
    }
}

/// Whether an open parachute withstands the air: it is slow enough, or the air thin.
pub fn parachute_holds(safe_speed: u32, air_speed: Real, density: Real) -> (r: bool)
    ensures
        r == (air_speed.spec_at_most(Real::spec_integer(safe_speed)) || density.spec_below(
            Real::spec_of(TWO_HUNDREDTHS),
        )),
{
    air_speed.is_at_most(Real::integer(safe_speed)) || density.is_below(Real::of(TWO_HUNDREDTHS))
}

/// Whether `after` is the vessel `before` without the first part of that number.
pub open spec fn is_torn(before: Vessel, after: Vessel, id: u64) -> bool {
    &&& after == (Vessel { parts: after.parts, ..before })
    &&& after.parts@.len() == before.parts@.len()
    &&& forall|i: int|
        0 <= i < before.parts@.len() ==> #[trigger] after.parts@[i] == (if is_first_with_id(
            before.parts@,
            id,
            i,
        ) {
            RuntimePart { destroyed: true, ..before.parts@[i] }
        } else {
            before.parts@[i]
        })
}

/// Tears off the first part with that number.
pub fn tear_parachute(vessel: &mut Vessel, id: u64)
    ensures
        is_torn(*old(vessel), *final(vessel), id),
{
    let count: usize = vessel.parts.len();
    for i in 0..count
        invariant
            *vessel == *old(vessel),
            count == vessel.parts.len(),
            forall|k: int|
                0 <= k < i ==> (#[trigger] vessel.parts@[k]).instance.instance_id != id,
    {
        if vessel.parts[i].instance.instance_id == id {
            vessel.parts[i].destroyed = true;
            return;
        }
    }
}

/// Where the autopilot points the nose.
#[derive(Debug, Clone, Copy, PartialEq, Eq, Structural)]
pub enum Heading {
    Prograde,
    Retrograde,
    RadialOut,
    RadialIn,
    Normal,
    AntiNormal,
    /// Where it points already.
    Ahead,
}

/// Where the autopilot points the nose. Along the velocity it does so only where
/// there is some; `speed_squared` is the square of the speed.
pub fn sas_heading(sas: Option<SasMode>, speed_squared: Real) -> (r: Heading)
    ensures
        r == (match sas {
            Some(SasMode::Prograde) => if Real::spec_integer(1).spec_below(speed_squared) {
                Heading::Prograde
            } else {
                Heading::Ahead
            },
            Some(SasMode::Retrograde) => if Real::spec_integer(1).spec_below(speed_squared) {
                Heading::Retrograde
            } else {
                Heading::Ahead
            },
            Some(SasMode::RadialOut) => Heading::RadialOut,
            Some(SasMode::RadialIn) => Heading::RadialIn,
            Some(SasMode::Normal) => Heading::Normal,
            Some(SasMode::AntiNormal) => Heading::AntiNormal,
            Some(SasMode::Stability) => Heading::Ahead,
            Some(SasMode::Maneuver) => Heading::Ahead,
            None => Heading::Ahead,
        }),
{
    let moving = Real::integer(1).is_below(speed_squared);
    match sas {
        Some(SasMode::Prograde) if moving => Heading::Prograde,
        Some(SasMode::Retrograde) if moving => Heading::Retrograde,
        Some(SasMode::RadialOut) => Heading::RadialOut,
        Some(SasMode::RadialIn) => Heading::RadialIn,
        Some(SasMode::Normal) => Heading::Normal,
        Some(SasMode::AntiNormal) => Heading::AntiNormal,
        _ => Heading::Ahead,
    }
}

/// Whether the autopilot steers: it is on and the pilot does not. `input_squared`
/// is the square of the pilot's demand.
pub fn sas_steers(sas: Option<SasMode>, input_squared: Real) -> (r: bool)
    ensures
        r == (sas is Some && input_squared.spec_below(Real::spec_of(ONE_TEN_THOUSANDTH))),
{
    sas.is_some() && input_squared.is_below(Real::of(ONE_TEN_THOUSANDTH))
}

/// Whether the thrusters are on and have more than a trace of propellant.
pub fn rcs_is_fed(rcs: bool, monopropellant: Real) -> (r: bool)
    ensures
        r == (rcs && Real::spec_of(ONE_MILLIONTH).spec_below(monopropellant)),
{
    rcs && Real::of(ONE_MILLIONTH).is_below(monopropellant)
}

/// Whether the part flies and is a command pod.
pub open spec fn is_command(part: RuntimePart, catalog: Map<Seq<char>, DefinitionView>) -> bool {
    !part.destroyed && module_of(part, catalog) is Some && module_of(part, catalog)->0 is Command
}

/// Whether a command pod still flies.
pub open spec fn has_command(
    parts: Seq<RuntimePart>,
    catalog: Map<Seq<char>, DefinitionView>,
) -> bool {
    exists|i: int| 0 <= i < parts.len() && is_command(#[trigger] parts[i], catalog)
}

/// Whether a command pod still flies.
pub fn command_survives(vessel: &Vessel, catalog: &PartCatalog) -> (r: bool)
    ensures
        r == has_command(vessel.parts@, catalog@),
{
    for i in 0..vessel.parts.len()
        invariant
            forall|k: int| 0 <= k < i ==> !is_command(#[trigger] vessel.parts@[k], catalog@),
    {
        if !vessel.parts[i].destroyed && matches!(
            part_module(&vessel.parts[i], catalog),
            Some(PartModule::Command { .. })
        ) {
            return true;
        }
    }
    false
}

/// Whether the part flies and is a landing leg.
pub open spec fn is_leg(part: RuntimePart, catalog: Map<Seq<char>, DefinitionView>) -> bool {
    !part.destroyed && module_of(part, catalog) is Some && module_of(part, catalog)->0
        is LandingLeg
}

/// The number of landing legs that still fly.
pub fn leg_count(vessel: &Vessel, catalog: &PartCatalog) -> (r: usize)
    ensures
        r == vessel.parts@.filter(|part: RuntimePart| is_leg(part, catalog@)).len(),
{
    let ghost leg = |part: RuntimePart| is_leg(part, catalog@);
    let mut count: usize = 0;
    for i in 0..vessel.parts.len()
        invariant
            leg == (|part: RuntimePart| is_leg(part, catalog@)),
            count == vessel.parts@.take(i as int).filter(leg).len(),
            count <= i,
    {
        proof {
            lemma_filter_step(vessel.parts@, leg, i as int);
        }
        if !vessel.parts[i].destroyed && matches!(
            part_module(&vessel.parts[i], catalog),
            Some(PartModule::LandingLeg)
        ) {
            count = count + 1;
        }
    }
    proof {
        assert(vessel.parts@.take(vessel.parts@.len() as int) =~= vessel.parts@);
    }
    count
}

/// What a vessel does after a step that ends with it on the ground or above.
pub open spec fn touched(
    situation: FlightSituation,
    grounded: bool,
    held: bool,
    survivable: bool,
) -> FlightSituation {
    if grounded {
        if situation == FlightSituation::Prelaunch && held {
            situation
        } else if survivable {
            FlightSituation::Landed
        } else {
            FlightSituation::Crashed
        }
    } else if situation == FlightSituation::Prelaunch || situation == FlightSituation::Landed {
        FlightSituation::Flying
    } else {
        situation
    }
}

/// What a vessel does once it is known whether it orbits and has a command pod.
pub open spec fn settled(
    situation: FlightSituation,
    orbiting: bool,
    commanded: bool,
) -> FlightSituation {
    if !commanded {
        FlightSituation::Crashed
    } else if orbiting {
        FlightSituation::Orbiting
    } else if situation == FlightSituation::Crashed || situation == FlightSituation::Landed {
        situation
    } else {
        FlightSituation::Flying
    }
}

/// Whether a vessel at that altitude stands on the ground.
pub fn is_grounded(altitude: Real) -> (r: bool)
    ensures
        r == altitude.spec_at_most(Real::spec_integer(GROUND_CLEARANCE)),
{
    altitude.is_at_most(Real::integer(GROUND_CLEARANCE))
}

/// Notes what the vessel does at the end of a step. `held` says that its thrust
/// does not lift it, and `survivable` that it endures a touch of the ground.
pub fn settle(
    vessel: &mut Vessel,
    catalog: &PartCatalog,
    body: &CelestialBodyDef,
    altitude: Real,
    held: bool,
    survivable: bool,
    periapsis: Real,
)
    ensures
        *final(vessel) == (Vessel {
            situation: settled(
                touched(
                    old(vessel).situation,
                    altitude.spec_at_most(Real::spec_integer(GROUND_CLEARANCE)),
                    held,
                    survivable,
                ),
                is_in_orbit(altitude, periapsis, body.spec_atmosphere_height()),
                has_command(old(vessel).parts@, catalog@),
            ),
            ..*old(vessel)
        }),
{
    if is_grounded(altitude) {
        if vessel.situation == FlightSituation::Prelaunch && held {
        } else if survivable {
            vessel.situation = FlightSituation::Landed;
        } else {
            vessel.situation = FlightSituation::Crashed;
        }
    } else if vessel.situation == FlightSituation::Prelaunch || vessel.situation
        == FlightSituation::Landed {
        vessel.situation = FlightSituation::Flying;
    }
    if in_orbit(altitude, periapsis, body.atmosphere_height()) {
        vessel.situation = FlightSituation::Orbiting;
    } else if vessel.situation != FlightSituation::Crashed && vessel.situation
        != FlightSituation::Landed {
        vessel.situation = FlightSituation::Flying;
    }
    if !command_survives(vessel, catalog) {
        vessel.situation = FlightSituation::Crashed;
    }
}

/// A vessel without a command pod has crashed; one that has not and touched the
/// ground too hard has crashed too, unless its path is an orbit.
pub proof fn law_when_a_vessel_crashes(
    situation: FlightSituation,
    grounded: bool,
    held: bool,
    survivable: bool,
    orbiting: bool,
    commanded: bool,
)
    requires
        situation != FlightSituation::Crashed,
    ensures
        settled(touched(situation, grounded, held, survivable), orbiting, commanded)
            == FlightSituation::Crashed <==> !commanded || grounded && !survivable && !orbiting
            && !(situation == FlightSituation::Prelaunch && held),
{
}

/// Whether the part flies and its kind is known.
pub open spec fn is_live(part: RuntimePart, catalog: Map<Seq<char>, DefinitionView>) -> bool {
    !part.destroyed && catalog.contains_key(part.instance.definition_id@)
}

/// The places of the parts that fly and whose kind is known.
pub fn live_parts(vessel: &Vessel, catalog: &PartCatalog) -> (r: Vec<usize>)
    ensures
        are_places(
            vessel.parts@,
            |part: RuntimePart| is_live(part, catalog@),
            vessel.parts.len() as int,
            r@,
        ),
{
    let ghost wanted = |part: RuntimePart| is_live(part, catalog@);
    let mut r: Vec<usize> = Vec::new();
    for i in 0..vessel.parts.len()
        invariant
            wanted == (|part: RuntimePart| is_live(part, catalog@)),
            are_places(vessel.parts@, wanted, i as int, r@),
    {
        proof {
            lemma_place_added(vessel.parts@, wanted, i, r@);
        }
        if !vessel.parts[i].destroyed && part_module(&vessel.parts[i], catalog).is_some() {
            r.push(i);
        }
    }
    r
}

/// Whether `other` is a cylinder that is attached to `part` and may stand in its wind.
pub open spec fn is_inline_neighbor(
    part: RuntimePart,
    other: RuntimePart,
    catalog: Map<Seq<char>, DefinitionView>,
) -> bool {
    &&& is_live(other, catalog)
    &&& other.instance.instance_id != part.instance.instance_id
    &&& other.instance.parent == Some(part.instance.instance_id) || part.instance.parent == Some(
        other.instance.instance_id,
    )
    &&& !catalog[other.instance.definition_id@].is_boxed()
}

/// The places of the cylinders that are attached to the part.
pub fn inline_neighbors(vessel: &Vessel, catalog: &PartCatalog, part: &RuntimePart) -> (r: Vec<
    usize,
>)
    ensures
        are_places(
            vessel.parts@,
            |other: RuntimePart| is_inline_neighbor(*part, other, catalog@),
            vessel.parts.len() as int,
            r@,
        ),
{
    let ghost wanted = |other: RuntimePart| is_inline_neighbor(*part, other, catalog@);
    let id: u64 = part.instance.instance_id;
    let mut r: Vec<usize> = Vec::new();
    for i in 0..vessel.parts.len()
        invariant
            id == part.instance.instance_id,
            wanted == (|other: RuntimePart| is_inline_neighbor(*part, other, catalog@)),
            are_places(vessel.parts@, wanted, i as int, r@),
    {
        proof {
            lemma_place_added(vessel.parts@, wanted, i, r@);
        }
        let other = &vessel.parts[i];
        if !other.destroyed && other.instance.instance_id != id && (other.instance.parent == Some(id)
            || part.instance.parent == Some(other.instance.instance_id)) {
            if let Some(definition) = catalog.get(&other.instance.definition_id) {
                if !definition.is_boxed() {
                    r.push(i);
                }
            }
        }
    }
    r
}

/// What a part does to the motion of its vessel, besides thrust, weight and drag.
#[derive(Debug, Clone, Copy, PartialEq, Eq, Structural)]
pub enum PartRole {
    /// Turns the vessel with that torque.
    Steering { torque: u32 },
    Fin { lift: u32, steerable: bool },
    OpenParachute { drag_area: u32, safe_speed: u32 },
    /// Turns the vessel at the cost of propellant.
    Thruster { thrust: u32, isp: u32 },
    Passive,
}

/// What a part does with the thrusters fed or not.
pub open spec fn role_of(module: PartModule, deployed: bool, fed: bool) -> PartRole {
    match module {
        PartModule::Command { seats: _, torque } => PartRole::Steering { torque },
        PartModule::ReactionWheel { torque } => PartRole::Steering { torque },
        PartModule::Fin { lift, steerable } => PartRole::Fin { lift, steerable },
        PartModule::Parachute { drag_area, safe_speed } => if deployed {
            PartRole::OpenParachute { drag_area, safe_speed }
        } else {
            PartRole::Passive
        },
        PartModule::Rcs { thrust, isp } => if fed {
            PartRole::Thruster { thrust, isp }
        } else {
            PartRole::Passive
        },
        _ => PartRole::Passive,
    }
}

/// What a part does with the thrusters fed or not.
pub fn part_role(module: PartModule, deployed: bool, fed: bool) -> (r: PartRole)
    ensures
        r == role_of(module, deployed, fed),
{
    match module {
        PartModule::Command { torque, .. } => PartRole::Steering { torque },
        PartModule::ReactionWheel { torque } => PartRole::Steering { torque },
        PartModule::Fin { lift, steerable } => PartRole::Fin { lift, steerable },
        PartModule::Parachute { drag_area, safe_speed } => if deployed {
            PartRole::OpenParachute { drag_area, safe_speed }
        } else {
            PartRole::Passive
        },
        PartModule::Rcs { thrust, isp } => if fed {
            PartRole::Thruster { thrust, isp }
        } else {
            PartRole::Passive
        },
        _ => PartRole::Passive,
    }
}

/// Without ablator nothing is shielded: where no flying part holds a positive amount of it,
/// every flying part of a known kind is warmed as one that nothing covers.
pub proof fn law_without_ablator_nothing_is_shielded<
    W: Fn(Real, bool, Real) -> Real,
    A: Fn(Real, Real, Real) -> (Real, Real),
>(
    before: Vessel,
    after: Vessel,
    catalog: Map<Seq<char>, DefinitionView>,
    heat_rate: Real,
    warm: W,
    ablate: A,
    i: int,
)
    requires
        is_heat_step(before, after, catalog, heat_rate, warm, ablate),
        0 <= i < before.parts@.len(),
        !before.parts@[i].destroyed,
        catalog.contains_key(before.parts@[i].instance.definition_id@),
        forall|k: int|
            0 <= k < before.parts@.len() ==> (#[trigger] before.parts@[k]).destroyed
                || before.parts@[k].ablator.spec_is_finite() && before.parts@[k].ablator.value()
                <= 0,
    ensures
        call_ensures(
            warm,
            (before.parts@[i].temperature, false, heat_rate),
            after.parts@[i].temperature,
        ),
        after.parts@[i].ablator == before.parts@[i].ablator,
{
    let heated = choose|heated: Seq<RuntimePart>|
        are_heated(
            before.parts@,
            heated,
            catalog,
            has_ablator(before.parts@),
            heat_rate,
            warm,
            ablate,
        ) && after.parts@ == #[trigger] after_breaking(heated, catalog);
    assert(is_heated(
        before.parts@[i],
        heated[i],
        catalog,
        has_ablator(before.parts@),
        heat_rate,
        warm,
        ablate,
    ));
    if has_ablator(before.parts@) {
        let k = choose|k: int|
            0 <= k < before.parts@.len() && !(#[trigger] before.parts@[k]).destroyed
                && Real::spec_of(0).spec_below(before.parts@[k].ablator);
        law_order_is_numeric(Real::spec_of(0), before.parts@[k].ablator);
    }
    law_order_is_numeric(Real::spec_of(0), before.parts@[i].ablator);
    assert(Real::spec_of(0).value() == 0);
}

/// One flying part with ablator left covers all others: each that is no heat shield itself is
/// warmed as one behind a shield, and each heat shield as one in front.
pub proof fn law_ablator_shields_the_rest<
    W: Fn(Real, bool, Real) -> Real,
    A: Fn(Real, Real, Real) -> (Real, Real),
>(
    before: Vessel,
    after: Vessel,
    catalog: Map<Seq<char>, DefinitionView>,
    heat_rate: Real,
    warm: W,
    ablate: A,
    i: int,
    k: int,
)
    requires
        is_heat_step(before, after, catalog, heat_rate, warm, ablate),
        0 <= i < before.parts@.len(),
        !before.parts@[i].destroyed,
        catalog.contains_key(before.parts@[i].instance.definition_id@),
        0 <= k < before.parts@.len(),
        !before.parts@[k].destroyed,
        before.parts@[k].ablator.spec_is_finite(),
        before.parts@[k].ablator.value() > 0,
    ensures
        !(catalog[before.parts@[i].instance.definition_id@].module is HeatShield) ==> call_ensures(
            warm,
            (before.parts@[i].temperature, true, heat_rate),
            after.parts@[i].temperature,
        ),
        catalog[before.parts@[i].instance.definition_id@].module is HeatShield ==> exists|
            warmed: Real,
        | #[trigger]
            call_ensures(warm, (before.parts@[i].temperature, false, heat_rate), warmed),
{
    let heated = choose|heated: Seq<RuntimePart>|
        are_heated(
            before.parts@,
            heated,
            catalog,
            has_ablator(before.parts@),
            heat_rate,
            warm,
            ablate,
        ) && after.parts@ == #[trigger] after_breaking(heated, catalog);
    assert(is_heated(
        before.parts@[i],
        heated[i],
        catalog,
        has_ablator(before.parts@),
        heat_rate,
        warm,
        ablate,
    ));
    law_order_is_numeric(Real::spec_of(0), before.parts@[k].ablator);
    assert(Real::spec_of(0).value() == 0);
    assert(has_ablator(before.parts@));
}

/// Ablator is spent by heat shields alone, where the heating is above 25 and some is left:
/// what is worn off and how hot the shield is then follows from its own load and the
/// temperature it was warmed to, and it cools to no less than 290 kelvin. Nothing else wears.
pub proof fn law_only_hot_shields_wear<
    W: Fn(Real, bool, Real) -> Real,
    A: Fn(Real, Real, Real) -> (Real, Real),
>(
    before: Vessel,
    after: Vessel,
    catalog: Map<Seq<char>, DefinitionView>,
    heat_rate: Real,
    warm: W,
    ablate: A,
    i: int,
)
    requires
        is_heat_step(before, after, catalog, heat_rate, warm, ablate),
        0 <= i < before.parts@.len(),
        !before.parts@[i].destroyed,
        catalog.contains_key(before.parts@[i].instance.definition_id@),
        heat_rate.spec_is_finite(),
        before.parts@[i].ablator.spec_is_finite(),
    ensures
        catalog[before.parts@[i].instance.definition_id@].module is HeatShield && heat_rate.value()
            > 25 * pow2(1074) && before.parts@[i].ablator.value() > 0 ==> exists|
            warmed: Real,
            worn: (Real, Real),
        |
            {
                &&& #[trigger] call_ensures(
                    warm,
                    (before.parts@[i].temperature, false, heat_rate),
                    warmed,
                )
                &&& #[trigger] call_ensures(
                    ablate,
                    (before.parts@[i].ablator, warmed, heat_rate),
                    worn,
                )
                &&& after.parts@[i].ablator == worn.0
                &&& worn.1.spec_is_finite() ==> after.parts@[i].temperature.value() >= worn.1.value()
                    && after.parts@[i].temperature.value() >= 290 * pow2(1074) && (
                after.parts@[i].temperature == worn.1 || after.parts@[i].temperature
                    == Real::spec_integer(290))
            },
        !(catalog[before.parts@[i].instance.definition_id@].module is HeatShield)
            || heat_rate.value() <= 25 * pow2(1074) || before.parts@[i].ablator.value() <= 0
            ==> after.parts@[i].ablator == before.parts@[i].ablator,
{
    let heated = choose|heated: Seq<RuntimePart>|
        are_heated(
            before.parts@,
            heated,
            catalog,
            has_ablator(before.parts@),
            heat_rate,
            warm,
            ablate,
        ) && after.parts@ == #[trigger] after_breaking(heated, catalog);
    assert(is_heated(
        before.parts@[i],
        heated[i],
        catalog,
        has_ablator(before.parts@),
        heat_rate,
        warm,
        ablate,
    ));
    law_order_is_numeric(Real::spec_of(0), before.parts@[i].ablator);
    assert(Real::spec_of(0).value() == 0);
    law_whole_numbers_compare(25, heat_rate);
    law_integer_has_its_value(290);
    assert forall|x: Real| #[trigger] x.spec_is_finite() implies x.spec_larger(
        Real::spec_integer(290),
    ).value() >= x.value() && x.spec_larger(Real::spec_integer(290)).value() >= 290 * pow2(
        1074,
    ) by {
        law_whole_numbers_compare(290, x);
        law_larger_and_smaller(x, Real::spec_integer(290), x);
    }
}

/// A part that comes out hotter than its kind endures is broken and out, with each part that
/// hangs on it; and where no flying part comes out too hot, nothing breaks. The hardest heating
/// so far is remembered.
pub proof fn law_too_hot_is_broken<
    W: Fn(Real, bool, Real) -> Real,
    A: Fn(Real, Real, Real) -> (Real, Real),
>(
    before: Vessel,
    after: Vessel,
    catalog: Map<Seq<char>, DefinitionView>,
    heat_rate: Real,
    warm: W,
    ablate: A,
    i: int,
)
    requires
        is_heat_step(before, after, catalog, heat_rate, warm, ablate),
        0 <= i < before.parts@.len(),
        !before.parts@[i].destroyed,
        catalog.contains_key(before.parts@[i].instance.definition_id@),
        before.parts@[i].temperature.spec_is_finite(),
        after.parts@[i].temperature.spec_is_finite(),
    ensures
        after.parts@[i].temperature.value() > catalog[before.parts@[i].instance.definition_id@].max_temperature
            * pow2(1074) ==> {
            &&& after.parts@[i].destroyed && !after.parts@[i].active
            &&& forall|j: int|
                0 <= j < before.parts@.len() && (#[trigger] before.parts@[j]).instance.parent
                    == Some(before.parts@[i].instance.instance_id) ==> after.parts@[j].destroyed
                    && !after.parts@[j].active
        },
        (forall|j: int|
            0 <= j < before.parts@.len() && !(#[trigger] before.parts@[j]).destroyed
                ==> after.parts@[j].temperature.spec_is_finite() && (catalog.contains_key(
                before.parts@[j].instance.definition_id@,
            ) ==> after.parts@[j].temperature.value()
                <= catalog[before.parts@[j].instance.definition_id@].max_temperature * pow2(1074)))
            ==> after.parts@[i].destroyed == before.parts@[i].destroyed && after.parts@[i].active
            == before.parts@[i].active,
        before.max_heating.spec_is_finite() && heat_rate.spec_is_finite()
            ==> after.max_heating.value() >= before.max_heating.value()
            && after.max_heating.value() >= heat_rate.value() && (after.max_heating
            == before.max_heating || after.max_heating == heat_rate),
{
    let heated = choose|heated: Seq<RuntimePart>|
        are_heated(
            before.parts@,
            heated,
            catalog,
            has_ablator(before.parts@),
            heat_rate,
            warm,
            ablate,
        ) && after.parts@ == #[trigger] after_breaking(heated, catalog);
    assert(is_heated(
        before.parts@[i],
        heated[i],
        catalog,
        has_ablator(before.parts@),
        heat_rate,
        warm,
        ablate,
    ));
    let hot = catalog[before.parts@[i].instance.definition_id@].max_temperature;
    law_whole_numbers_compare(hot, after.parts@[i].temperature);
    if before.max_heating.spec_is_finite() && heat_rate.spec_is_finite() {
        law_larger_and_smaller(before.max_heating, heat_rate, heat_rate);
    }
    assert(after.parts@[i].temperature == heated[i].temperature);
    if after.parts@[i].temperature.value() > hot * pow2(1074) {
        let id = before.parts@[i].instance.instance_id;
        let nodes = tree_nodes(heated);
        assert(is_overheated(heated[i], catalog));
        law_subtree_holds_root(nodes, id);
        assert(is_lost(heated, catalog, id));
        assert forall|j: int|
            0 <= j < before.parts@.len() && (#[trigger] before.parts@[j]).instance.parent == Some(
                id,
            ) implies after.parts@[j].destroyed && !after.parts@[j].active by {
            assert(is_heated(
                before.parts@[j],
                heated[j],
                catalog,
                has_ablator(before.parts@),
                heat_rate,
                warm,
                ablate,
            ));
            assert(nodes[j].parent == Some(id));
            law_subtree_is_whole(nodes, id, j);
            assert(subtree(nodes, id).contains(nodes[j].id));
            assert(is_lost(heated, catalog, heated[j].instance.instance_id));
        }
    }
    if forall|j: int|
        0 <= j < before.parts@.len() && !(#[trigger] before.parts@[j]).destroyed
            ==> after.parts@[j].temperature.spec_is_finite() && (catalog.contains_key(
            before.parts@[j].instance.definition_id@,
        ) ==> after.parts@[j].temperature.value()
            <= catalog[before.parts@[j].instance.definition_id@].max_temperature * pow2(1074)) {
        assert forall|j: int| 0 <= j < heated.len() implies !is_overheated(
            #[trigger] heated[j],
            catalog,
        ) by {
            assert(is_heated(
                before.parts@[j],
                heated[j],
                catalog,
                has_ablator(before.parts@),
                heat_rate,
                warm,
                ablate,
            ));
            assert(after.parts@[j].temperature == heated[j].temperature);
            assert(heated[j].destroyed == before.parts@[j].destroyed);
            if !before.parts@[j].destroyed && catalog.contains_key(
                before.parts@[j].instance.definition_id@,
            ) {
                law_whole_numbers_compare(
                    catalog[before.parts@[j].instance.definition_id@].max_temperature,
                    heated[j].temperature,
                );
            }
        }
        assert(!is_lost(heated, catalog, heated[i].instance.instance_id));
    }
}

/// An open parachute holds exactly where the air past it is no faster than it endures, or
/// thinner than two hundredths.
pub proof fn law_parachutes_tear_in_fast_thick_air(
    safe_speed: u32,
    air_speed: Real,
    density: Real,
    r: bool,
)
    requires
        air_speed.spec_is_finite(),
        density.spec_is_finite(),
        call_ensures(parachute_holds, (safe_speed, air_speed, density), r),
    ensures
        r <==> air_speed.value() <= safe_speed * pow2(1074) || density.value() < Real::spec_of(
            TWO_HUNDREDTHS,
        ).value(),
{
    law_whole_numbers_compare(safe_speed, air_speed);
    law_order_is_numeric(density, Real::spec_of(TWO_HUNDREDTHS));
}

/// A parachute that tears is lost; no other part, and nothing else of the vessel, changes.
pub proof fn law_tearing_loses_one_part(before: Vessel, after: Vessel, id: u64, place: int)
    requires
        is_torn(before, after, id),
        0 <= place < before.parts@.len(),
        before.parts@[place].instance.instance_id == id,
        forall|k: int|
            0 <= k < place ==> (#[trigger] before.parts@[k]).instance.instance_id != id,
    ensures
        after.parts@[place].destroyed,
        after.parts@.len() == before.parts@.len(),
        forall|k: int|
            0 <= k < before.parts@.len() && k != place ==> #[trigger] after.parts@[k]
                == before.parts@[k],
        after.parts@[place].fuel == before.parts@[place].fuel,
        after.parts@[place].instance == before.parts@[place].instance,
        after.position == before.position && after.velocity == before.velocity,
        after.situation == before.situation && after.next_stage == before.next_stage,
{
    assert(is_first_with_id(before.parts@, id, place));
    assert forall|k: int| 0 <= k < before.parts@.len() && k != place implies
        #[trigger] after.parts@[k] == before.parts@[k] by {
        if is_first_with_id(before.parts@, id, k) {
            if k < place {
                assert(before.parts@[k].instance.instance_id != id);
            } else {
                assert(before.parts@[place].instance.instance_id == id);
            }
        }
    }
}

/// Where the autopilot points: along the velocity or against it only above a metre in a
/// second, across it at any speed, and else straight ahead; and it steers while it is on and the
/// pilot hardly moves a lever. The thrusters work while they are on and more than a trace of
/// propellant is left.
pub proof fn law_autopilot_points_as_asked(
    sas: Option<SasMode>,
    speed_squared: Real,
    input_squared: Real,
    rcs: bool,
    monopropellant: Real,
    heading: Heading,
    steers: bool,
    fed: bool,
)
    requires
        speed_squared.spec_is_finite(),
        input_squared.spec_is_finite(),
        monopropellant.spec_is_finite(),
        call_ensures(sas_heading, (sas, speed_squared), heading),
        call_ensures(sas_steers, (sas, input_squared), steers),
        call_ensures(rcs_is_fed, (rcs, monopropellant), fed),
    ensures
        heading == Heading::Prograde <==> sas == Some(SasMode::Prograde) && speed_squared.value()
            > pow2(1074),
        heading == Heading::Retrograde <==> sas == Some(SasMode::Retrograde)
            && speed_squared.value() > pow2(1074),
        heading == Heading::Normal <==> sas == Some(SasMode::Normal),
        heading == Heading::AntiNormal <==> sas == Some(SasMode::AntiNormal),
        heading == Heading::RadialIn <==> sas == Some(SasMode::RadialIn),
        heading == Heading::RadialOut <==> sas == Some(SasMode::RadialOut),
        steers <==> sas is Some && input_squared.value() < Real::spec_of(ONE_TEN_THOUSANDTH).value(),
        fed <==> rcs && monopropellant.value() > Real::spec_of(ONE_MILLIONTH).value(),
{
    law_whole_numbers_compare(1, speed_squared);
    law_order_is_numeric(input_squared, Real::spec_of(ONE_TEN_THOUSANDTH));
    law_order_is_numeric(Real::spec_of(ONE_MILLIONTH), monopropellant);
}

/// A vessel is under command exactly while a flying part is a command pod.
pub proof fn law_command_is_a_flying_pod(vessel: Vessel, catalog: PartCatalog, r: bool)
    requires
        call_ensures(command_survives, (&vessel, &catalog), r),
    ensures
        r <==> exists|i: int|
            0 <= i < vessel.parts@.len() && !(#[trigger] vessel.parts@[i]).destroyed
                && catalog@.contains_key(vessel.parts@[i].instance.definition_id@)
                && catalog@[vessel.parts@[i].instance.definition_id@].module is Command,
{
    if r {
        let i = choose|i: int|
            0 <= i < vessel.parts@.len() && is_command(#[trigger] vessel.parts@[i], catalog@);
        assert(!vessel.parts@[i].destroyed);
    }
}

/// Of two vessels of which one has a part more, that one has a leg more exactly where the part
/// is a landing leg that flies.
pub proof fn law_every_flying_leg_counts(
    fewer: Vessel,
    more: Vessel,
    part: RuntimePart,
    catalog: PartCatalog,
    m: usize,
    n: usize,
)
    requires
        more.parts@ == fewer.parts@.push(part),
        call_ensures(leg_count, (&fewer, &catalog), m),
        call_ensures(leg_count, (&more, &catalog), n),
    ensures
        n == m + if !part.destroyed && catalog@.contains_key(part.instance.definition_id@)
            && catalog@[part.instance.definition_id@].module is LandingLeg {
            1int
        } else {
            0
        },
{
    let wanted = |part: RuntimePart| is_leg(part, catalog@);
    lemma_filter_step(more.parts@, wanted, fewer.parts@.len() as int);
    assert(more.parts@.take(fewer.parts@.len() as int) =~= fewer.parts@);
    assert(more.parts@.take((fewer.parts@.len() + 1) as int) =~= more.parts@);
}

/// What a vessel under command is doing after a step: on a path clear of the air it is in
/// orbit; a soft touch is a landing and a hard one a crash; off the ground it flies; and a wreck
/// stays one unless it is in orbit.
pub proof fn law_touchdown(
    situation: FlightSituation,
    grounded: bool,
    held: bool,
    survivable: bool,
)
    ensures
        settled(touched(situation, grounded, held, survivable), true, true)
            == FlightSituation::Orbiting,
        grounded && situation != FlightSituation::Prelaunch ==> settled(
            touched(situation, grounded, held, survivable),
            false,
            true,
        ) == if survivable {
            FlightSituation::Landed
        } else {
            FlightSituation::Crashed
        },
        !grounded && situation != FlightSituation::Crashed ==> settled(
            touched(situation, grounded, held, survivable),
            false,
            true,
        ) == FlightSituation::Flying,
        !grounded && situation == FlightSituation::Crashed ==> settled(
            touched(situation, grounded, held, survivable),
            false,
            true,
        ) == FlightSituation::Crashed,
        settled(touched(situation, grounded, held, survivable), true, false)
            == FlightSituation::Crashed,
{
}

/// A part stands inline with another exactly where it flies, is of a known kind that is no box,
/// and one of the two hangs on the other.
pub proof fn law_inline_neighbours(
    part: RuntimePart,
    other: RuntimePart,
    catalog: Map<Seq<char>, DefinitionView>,
)
    ensures
        is_inline_neighbor(part, other, catalog) ==> !other.destroyed && catalog.contains_key(
            other.instance.definition_id@,
        ) && other.instance.instance_id != part.instance.instance_id,
        is_inline_neighbor(part, other, catalog) ==> other.instance.parent == Some(
            part.instance.instance_id,
        ) || part.instance.parent == Some(other.instance.instance_id),
        !part.destroyed && catalog.contains_key(part.instance.definition_id@)
            && !catalog[part.instance.definition_id@].is_boxed() && is_inline_neighbor(
            part,
            other,
            catalog,
        ) ==> is_inline_neighbor(other, part, catalog),
        !other.destroyed && catalog.contains_key(other.instance.definition_id@)
            && other.instance.instance_id != part.instance.instance_id
            && other.instance.parent == Some(part.instance.instance_id)
            && !catalog[other.instance.definition_id@].is_boxed() ==> is_inline_neighbor(
            part,
            other,
            catalog,
        ),
{
}

/// What a part does in flight follows from its kind: pods and wheels turn the vessel, fins
/// lift, a parachute brakes once it is open and a thruster pushes while it is fed.
pub proof fn law_parts_play_their_role(module: PartModule, deployed: bool, fed: bool, r: PartRole)
    requires
        call_ensures(part_role, (module, deployed, fed), r),
    ensures
        r is OpenParachute <==> module is Parachute && deployed,
        r is OpenParachute ==> r->drag_area == module->drag_area && r->OpenParachute_safe_speed
            == module->Parachute_safe_speed,
        r is Thruster <==> module is Rcs && fed,
        r is Thruster ==> r->Thruster_thrust == module->Rcs_thrust && r->Thruster_isp
            == module->Rcs_isp,
        r is Fin <==> module is Fin,
        r is Fin ==> r->Fin_lift == module->Fin_lift && r->Fin_steerable == module->Fin_steerable,
        r is Steering <==> module is Command || module is ReactionWheel,
        module is Command ==> r->Steering_torque == module->Command_torque,
        module is ReactionWheel ==> r->Steering_torque == module->ReactionWheel_torque,
{
}

/// A vessel has a shield exactly where a part that flies has some ablator left; none is none.
pub proof fn law_shield_is_flying_ablator(vessel: &Vessel, r: bool)
    requires
        call_ensures(shield_available, (vessel,), r),
        forall|i: int|
            0 <= i < vessel.parts@.len() ==> (#[trigger] vessel.parts@[i]).ablator.spec_is_finite(),
    ensures
        r <==> exists|i: int|
            0 <= i < vessel.parts@.len() && !(#[trigger] vessel.parts@[i]).destroyed
                && vessel.parts@[i].ablator.value() > 0,
{
    assert forall|i: int| 0 <= i < vessel.parts@.len() implies (Real::spec_of(0).spec_below(
        (#[trigger] vessel.parts@[i]).ablator,
    ) <==> vessel.parts@[i].ablator.value() > 0) by {
        law_whole_numbers_compare(0, vessel.parts@[i].ablator);
    }
}

/// Heating warms every flying part of a known kind, behind a shield where one is left and not
/// where there is none.
pub proof fn law_heating_goes_by_the_shield<
    W: Fn(Real, bool, Real) -> Real,
    A: Fn(Real, Real, Real) -> (Real, Real),
>(
    vessel: &mut Vessel,
    catalog: &PartCatalog,
    heat_rate: Real,
    warm: &W,
    ablate: &A,
    shield: bool,
    i: int,
)
    requires
        call_ensures(heat_parts::<W, A>, (vessel, catalog, heat_rate, warm, ablate), ()),
        call_ensures(shield_available, (&*old(vessel),), shield),
        forall|k: int|
            0 <= k < old(vessel).parts@.len() ==> (
            #[trigger] old(vessel).parts@[k]).ablator.spec_is_finite(),
        0 <= i < old(vessel).parts@.len(),
        !old(vessel).parts@[i].destroyed,
        catalog@.contains_key(old(vessel).parts@[i].instance.definition_id@),
    ensures
        !(catalog@[old(vessel).parts@[i].instance.definition_id@].module is HeatShield)
            ==> call_ensures(
            *warm,
            (old(vessel).parts@[i].temperature, shield, heat_rate),
            final(vessel).parts@[i].temperature,
        ),
        !shield ==> call_ensures(
            *warm,
            (old(vessel).parts@[i].temperature, false, heat_rate),
            final(vessel).parts@[i].temperature,
        ),
        final(vessel).parts@[i].fuel == old(vessel).parts@[i].fuel,
{
    let before = *vessel;
    let after = *final(vessel);
    law_shield_is_flying_ablator(&before, shield);
    if shield {
        let k = choose|k: int|
            0 <= k < before.parts@.len() && !(#[trigger] before.parts@[k]).destroyed
                && before.parts@[k].ablator.value() > 0;
        law_ablator_shields_the_rest(
            before,
            after,
            catalog@,
            heat_rate,
            *warm,
            *ablate,
            i,
            k,
        );
    } else {
        assert forall|k: int| 0 <= k < before.parts@.len() implies (
        #[trigger] before.parts@[k]).destroyed || before.parts@[k].ablator.spec_is_finite()
            && before.parts@[k].ablator.value() <= 0 by {}
        law_without_ablator_nothing_is_shielded(
            before,
            after,
            catalog@,
            heat_rate,
            *warm,
            *ablate,
            i,
        );
    }
    let heated = choose|heated: Seq<RuntimePart>|
        are_heated(
            before.parts@,
            heated,
            catalog@,
            has_ablator(before.parts@),
            heat_rate,
            *warm,
            *ablate,
        ) && after.parts@ == #[trigger] after_breaking(heated, catalog@);
    law_heating_repairs_nothing(
        before.parts@,
        heated,
        catalog@,
        has_ablator(before.parts@),
        heat_rate,
        *warm,
        *ablate,
        i,
    );
}

/// A flying part hotter than its kind bears breaks, goes out and takes with it what hangs on
/// it; nothing breaks where none is too hot.
pub proof fn law_hot_parts_break_off(vessel: &mut Vessel, catalog: &PartCatalog, i: int, j: int)
    requires
        call_ensures(break_overheated, (vessel, catalog), ()),
        0 <= i < old(vessel).parts@.len(),
        0 <= j < old(vessel).parts@.len(),
        forall|k: int|
            0 <= k < old(vessel).parts@.len() ==> (
            #[trigger] old(vessel).parts@[k]).temperature.spec_is_finite(),
    ensures
        ({
            let part = old(vessel).parts@[i];
            let hot = !part.destroyed && catalog@.contains_key(part.instance.definition_id@)
                && part.temperature.value()
                > catalog@[part.instance.definition_id@].max_temperature * pow2(1074);
            &&& hot ==> final(vessel).parts@[i].destroyed && !final(vessel).parts@[i].active
            &&& hot && old(vessel).parts@[j].instance.parent == Some(part.instance.instance_id)
                ==> final(vessel).parts@[j].destroyed
        }),
        (forall|k: int|
            0 <= k < old(vessel).parts@.len() && !(#[trigger] old(vessel).parts@[k]).destroyed
                && catalog@.contains_key(old(vessel).parts@[k].instance.definition_id@)
                ==> old(vessel).parts@[k].temperature.value()
                <= catalog@[old(vessel).parts@[k].instance.definition_id@].max_temperature
                * pow2(1074)) ==> final(vessel).parts@[i] == old(vessel).parts@[i],
        final(vessel).parts@[i].temperature == old(vessel).parts@[i].temperature,
        final(vessel).parts@[i].fuel == old(vessel).parts@[i].fuel,
{
    let parts = vessel.parts@;
    let nodes = tree_nodes(parts);
    assert forall|k: int| 0 <= k < parts.len() implies is_overheated(
        #[trigger] parts[k],
        catalog@,
    ) == (!parts[k].destroyed && catalog@.contains_key(parts[k].instance.definition_id@)
        && parts[k].temperature.value()
        > catalog@[parts[k].instance.definition_id@].max_temperature * pow2(1074)) by {
        if catalog@.contains_key(parts[k].instance.definition_id@) {
            law_whole_numbers_compare(
                catalog@[parts[k].instance.definition_id@].max_temperature,
                parts[k].temperature,
            );
        }
    }
    let id = parts[i].instance.instance_id;
    law_subtree_holds_root(nodes, id);
    if is_overheated(parts[i], catalog@) {
        assert(is_lost(parts, catalog@, id));
        if parts[j].instance.parent == Some(id) {
            assert(nodes[j].parent == parts[j].instance.parent);
            law_subtree_is_whole(nodes, id, j);
            assert(subtree(nodes, id).contains(parts[j].instance.instance_id));
            assert(is_lost(parts, catalog@, parts[j].instance.instance_id));
        }
    }
}

/// A parachute that tears is lost and nothing else is.
pub proof fn law_torn_parachute_is_lost(vessel: &mut Vessel, id: u64, place: int, k: int)
    requires
        call_ensures(tear_parachute, (vessel, id), ()),
        0 <= place < old(vessel).parts@.len(),
        old(vessel).parts@[place].instance.instance_id == id,
        forall|j: int|
            0 <= j < place ==> (#[trigger] old(vessel).parts@[j]).instance.instance_id != id,
    ensures
        final(vessel).parts@[place].destroyed,
        0 <= k < old(vessel).parts@.len() && k != place ==> final(vessel).parts@[k]
            == old(vessel).parts@[k],
        final(vessel).velocity == old(vessel).velocity,
{
    law_tearing_loses_one_part(*vessel, *final(vessel), id, place);
}

/// A vessel under command is in orbit above the air of its body on a path that stays above;
/// lands or crashes at most five metres up by what it endures; and flies elsewhere. Without
/// command it is a wreck.
pub proof fn law_vessel_settles(
    vessel: &mut Vessel,
    catalog: &PartCatalog,
    body: &CelestialBodyDef,
    altitude: Real,
    held: bool,
    survivable: bool,
    periapsis: Real,
    commanded: bool,
    grounded: bool,
    air: u32,
)
    requires
        call_ensures(
            settle,
            (vessel, catalog, body, altitude, held, survivable, periapsis),
            (),
        ),
        call_ensures(command_survives, (&*old(vessel), catalog), commanded),
        call_ensures(is_grounded, (altitude,), grounded),
        call_ensures(CelestialBodyDef::atmosphere_height, (body,), air),
        altitude.spec_is_finite(),
        periapsis.spec_is_finite(),
    ensures
        grounded <==> altitude.value() <= 5 * pow2(1074),
        body.atmosphere is Some ==> air == body.atmosphere->0.height,
        body.atmosphere is None ==> air == 0,
        *final(vessel) == (Vessel { situation: final(vessel).situation, ..*old(vessel) }),
        !commanded ==> final(vessel).situation is Crashed,
        commanded ==> (final(vessel).situation is Orbiting <==> altitude.value() > air * pow2(1074)
            && periapsis.value() > air * pow2(1074)),
        commanded && !(final(vessel).situation is Orbiting) && grounded && !(
        old(vessel).situation is Prelaunch) ==> (if survivable {
            final(vessel).situation is Landed
        } else {
            final(vessel).situation is Crashed
        }),
        commanded && !(final(vessel).situation is Orbiting) && !grounded && !(
        old(vessel).situation is Crashed) ==> final(vessel).situation is Flying,
{
    law_whole_numbers_compare(5, altitude);
    law_whole_numbers_compare(air, altitude);
    law_whole_numbers_compare(air, periapsis);
}

/// The parts that count are the flying ones of known kinds, in order; beside a part stand
/// those of them that are no boxes and hang on it or carry it.
pub proof fn law_live_parts_and_neighbours(
    vessel: &Vessel,
    catalog: &PartCatalog,
    part: &RuntimePart,
    live: Vec<usize>,
    beside: Vec<usize>,
    i: int,
)
    requires
        call_ensures(live_parts, (vessel, catalog), live),
        call_ensures(inline_neighbors, (vessel, catalog, part), beside),
        0 <= i < vessel.parts@.len(),
    ensures
        ({
            let other = vessel.parts@[i];
            let kind = catalog@[other.instance.definition_id@];
            let known = !other.destroyed && catalog@.contains_key(other.instance.definition_id@);
            let joined = other.instance.parent == Some(part.instance.instance_id)
                || part.instance.parent == Some(other.instance.instance_id);
            &&& known <==> exists|k: int| 0 <= k < live@.len() && #[trigger] live@[k] == i
            &&& known && joined && other.instance.instance_id != part.instance.instance_id && !(
            kind.radial || kind.module is Fin || kind.module is LandingLeg || kind.module is Rcs)
                <==> exists|k: int| 0 <= k < beside@.len() && #[trigger] beside@[k] == i
        }),
{
}

/// On the pad a vessel that its thrust does not lift is not landed and not crashed, and is
/// under way as soon as it has left the ground.
pub proof fn law_pad_holds_the_vessel(held: bool, survivable: bool)
    ensures
        settled(touched(FlightSituation::Prelaunch, true, true, survivable), false, true)
            == FlightSituation::Flying,
        settled(touched(FlightSituation::Prelaunch, true, false, true), false, true)
            == FlightSituation::Landed,
        settled(touched(FlightSituation::Prelaunch, true, false, false), false, true)
            == FlightSituation::Crashed,
        settled(touched(FlightSituation::Prelaunch, false, held, survivable), false, true)
            == FlightSituation::Flying,
{
}

} // verus!
