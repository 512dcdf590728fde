//! What the editor tells of a craft: masses, propellant and thrust on the pad.
use crate::craft::{is_engine, CraftBlueprint, PartInstance, Stage, StageAction};
use crate::fuel::{module_of, part_module};
use crate::parts::{part_resource_capacity, resource_capacity, DefinitionView, PartCatalog, PartModule};
use crate::vessel::{RuntimePart, Vessel};
use std::collections::BTreeSet;
use vstd::prelude::*;

verus! {

/// Sums over the parts of a craft, in kilograms and newtons.
#[derive(Debug, Clone, Copy, PartialEq, Eq, Structural)]
pub struct CraftTotals {
    pub dry_mass: u128,
    pub wet_mass: u128,
    pub liquid_fuel: u128,
    pub solid_fuel: u128,
    pub sea_level_thrust: u128,
    pub vacuum_thrust: u128,
}

/// The most that one part adds to a sum.
pub const PART_SHARE: u128 = 0x1_ffff_fffe;

/// Whether the stage lights an engine.
pub open spec fn lights_any(stage: Stage) -> bool {
    exists|k: int|
        0 <= k < stage.actions.len() && #[trigger] stage.actions@[k] is ActivateEngine
}

/// Whether the stage lights the engine `id`.
pub open spec fn lights(stage: Stage, id: u64) -> bool {
    stage.actions@.contains(StageAction::ActivateEngine(id))
}

/// The first stage that lights an engine.
pub open spec fn first_lighting(stages: Seq<Stage>) -> Option<Stage>
    decreases stages.len(),
{
    if stages.len() == 0 {
        None
    } else if lights_any(stages[0]) {
        Some(stages[0])
    } else {
        first_lighting(stages.drop_first())
    }
}

/// Whether the part drives the craft off the pad: the first stage that lights an
/// engine lights it, or no stage lights any.
pub open spec fn drives_first(stages: Seq<Stage>, id: u64) -> bool {
    match first_lighting(stages) {
        Some(stage) => lights(stage, id),
        None => true,
    }
}

/// The engines that the first stage with any lights.
pub fn first_propulsion_stage(craft: &CraftBlueprint) -> (r: Option<BTreeSet<u64>>)
    ensures
        match r {
            Some(ids) => first_lighting(craft.stages@) is Some && forall|id: u64| #[trigger]
                ids@.contains(id) <==> lights(first_lighting(craft.stages@)->0, id),
            None => first_lighting(craft.stages@) is None,
        },
{
    proof {
        assert(craft.stages@.skip(0) =~= craft.stages@);
    }
    for i in 0..craft.stages.len()
        invariant
            first_lighting(craft.stages@) == first_lighting(craft.stages@.skip(i as int)),
    {
        proof {
            assert(craft.stages@.skip(i as int).drop_first() =~= craft.stages@.skip(i + 1));
            assert(craft.stages@.skip(i as int)[0] == craft.stages@[i as int]);
        }
        let (ids, any) = lit_engines(&craft.stages[i]);
        if any {
            return Some(ids);
        }
    }
    proof {
        assert(craft.stages@.skip(craft.stages@.len() as int).len() == 0);
    }
    None
}

fn lit_engines(stage: &Stage) -> (r: (BTreeSet<u64>, bool))
    ensures
        r.1 == lights_any(*stage),
        forall|id: u64| #[trigger] r.0@.contains(id) <==> lights(*stage, id),
{
    let mut ids: BTreeSet<u64> = BTreeSet::new();
    let mut any = false;
    for k in 0..stage.actions.len()
        invariant
            any == exists|j: int| 0 <= j < k && #[trigger] stage.actions@[j] is ActivateEngine,
            forall|id: u64| #[trigger]
                ids@.contains(id) <==> exists|j: int|
                    0 <= j < k && #[trigger] stage.actions@[j] == StageAction::ActivateEngine(id),
    {
        if let StageAction::ActivateEngine(id) = stage.actions[k] {
            ids.insert(id);
            any = true;
            proof {
                assert(stage.actions@[k as int] is ActivateEngine);
            }
        }
    }
    (ids, any)
}

/// Whether a stage of the craft lights an engine.
pub fn has_engine_actions(craft: &CraftBlueprint) -> (r: bool)
    ensures
        r == (first_lighting(craft.stages@) is Some),
{
    first_propulsion_stage(craft).is_some()
}

/// The sum of a value over the parts of known kind.
pub open spec fn sum_over(
    parts: Seq<PartInstance>,
    catalog: Map<Seq<char>, DefinitionView>,
    value: spec_fn(PartInstance, DefinitionView) -> int,
) -> int
    decreases parts.len(),
{
    if parts.len() == 0 {
        0
    } else {
        sum_over(parts.drop_last(), catalog, value) + if catalog.contains_key(
            parts.last().definition_id@,
        ) {
            value(parts.last(), catalog[parts.last().definition_id@])
        } else {
            0
        }
    }
}

/// The mass of a part without propellant.
pub open spec fn dry(part: PartInstance, kind: DefinitionView) -> int {
    kind.dry_mass as int
}

/// The mass of a part with all it can hold.
pub open spec fn wet(part: PartInstance, kind: DefinitionView) -> int {
    kind.dry_mass + resource_capacity(kind.module)
}

/// The liquid propellant of a tank.
pub open spec fn liquid(part: PartInstance, kind: DefinitionView) -> int {
    match kind.module {
        PartModule::LiquidTank { fuel } => fuel as int,
        _ => 0,
    }
}

/// The propellant of a solid engine.
pub open spec fn solid(part: PartInstance, kind: DefinitionView) -> int {
    match kind.module {
        PartModule::SolidEngine { thrust: _, isp: _, fuel } => fuel as int,
        _ => 0,
    }
}

/// The thrust of an engine at sea level, if it drives the craft off the pad.
pub open spec fn sea_level(stages: Seq<Stage>, part: PartInstance, kind: DefinitionView) -> int {
    if drives_first(stages, part.instance_id) {
        match kind.module {
            PartModule::SolidEngine { thrust, isp: _, fuel: _ } => thrust as int,
            PartModule::LiquidEngine {
                thrust_vac: _,
                thrust_sl,
                isp_vac: _,
                isp_sl: _,
                gimbal_deg: _,
            } => thrust_sl as int,
            _ => 0,
        }
    } else {
        0
    }
}

/// The thrust of an engine in vacuum, if it drives the craft off the pad.
pub open spec fn vacuum(stages: Seq<Stage>, part: PartInstance, kind: DefinitionView) -> int {
    if drives_first(stages, part.instance_id) {
        match kind.module {
            PartModule::SolidEngine { thrust, isp: _, fuel: _ } => thrust as int,
            PartModule::LiquidEngine {
                thrust_vac,
                thrust_sl: _,
                isp_vac: _,
                isp_sl: _,
                gimbal_deg: _,
            } => thrust_vac as int,
            _ => 0,
        }
    } else {
        0
    }
}

/// Whether the totals are the sums over the parts.
pub open spec fn are_totals(
    parts: Seq<PartInstance>,
    stages: Seq<Stage>,
    catalog: Map<Seq<char>, DefinitionView>,
    totals: CraftTotals,
) -> bool {
    &&& totals.dry_mass == sum_over(parts, catalog, |p: PartInstance, d: DefinitionView| dry(p, d))
    &&& totals.wet_mass == sum_over(parts, catalog, |p: PartInstance, d: DefinitionView| wet(p, d))
    &&& totals.liquid_fuel == sum_over(
        parts,
        catalog,
        |p: PartInstance, d: DefinitionView| liquid(p, d),
    )
    &&& totals.solid_fuel == sum_over(
        parts,
        catalog,
        |p: PartInstance, d: DefinitionView| solid(p, d),
    )
    &&& totals.sea_level_thrust == sum_over(
        parts,
        catalog,
        |p: PartInstance, d: DefinitionView| sea_level(stages, p, d),
    )
    &&& totals.vacuum_thrust == sum_over(
        parts,
        catalog,
        |p: PartInstance, d: DefinitionView| vacuum(stages, p, d),
    )
}

/// Whether no total exceeds the share of that many parts.
pub open spec fn within(totals: CraftTotals, n: int) -> bool {
    let most = n * PART_SHARE;
    &&& totals.dry_mass <= most
    &&& totals.wet_mass <= most
    &&& totals.liquid_fuel <= most
    &&& totals.solid_fuel <= most
    &&& totals.sea_level_thrust <= most
    &&& totals.vacuum_thrust <= most
}

/// Masses, propellant and thrust of a craft on the pad.
pub fn craft_totals(craft: &CraftBlueprint, catalog: &PartCatalog) -> (r: CraftTotals)
    ensures
        are_totals(craft.parts@, craft.stages@, catalog@, r),
{
    let first = first_propulsion_stage(craft);
    let mut totals = CraftTotals {
        dry_mass: 0,
        wet_mass: 0,
        liquid_fuel: 0,
        solid_fuel: 0,
        sea_level_thrust: 0,
        vacuum_thrust: 0,
    };
    for i in 0..craft.parts.len()
        invariant
            match first {
                Some(ids) => first_lighting(craft.stages@) is Some && forall|id: u64| #[trigger]
                    ids@.contains(id) <==> lights(first_lighting(craft.stages@)->0, id),
                None => first_lighting(craft.stages@) is None,
            },
            are_totals(craft.parts@.take(i as int), craft.stages@, catalog@, totals),
            within(totals, i as int),
    {
        proof {
            assert(craft.parts@.take(i + 1).drop_last() =~= craft.parts@.take(i as int));
            assert(craft.parts@.take(i + 1).last() == craft.parts@[i as int]);
            assert(i * PART_SHARE + PART_SHARE == (i + 1) * PART_SHARE) by (nonlinear_arith);
            assert(i * PART_SHARE + PART_SHARE <= u128::MAX) by (nonlinear_arith)
                requires
                    i <= 0xffff_ffff_ffff_ffff,
                    PART_SHARE == 0x1_ffff_fffe,
            ;
        }
        let part = &craft.parts[i];
        if let Some(kind) = catalog.get(&part.definition_id) {
            let capacity: u32 = part_resource_capacity(kind.module);
            totals.dry_mass = totals.dry_mass + kind.dry_mass as u128;
            totals.wet_mass = totals.wet_mass + (kind.dry_mass as u128 + capacity as u128);
            let drives = match &first {
                Some(ids) => ids.contains(&part.instance_id),
                None => true,
            };
            match kind.module {
                PartModule::LiquidTank { fuel } => {
                    totals.liquid_fuel = totals.liquid_fuel + fuel as u128;
                },
                PartModule::SolidEngine { thrust, fuel, .. } => {
                    totals.solid_fuel = totals.solid_fuel + fuel as u128;
                    if drives {
                        totals.sea_level_thrust = totals.sea_level_thrust + thrust as u128;
                        totals.vacuum_thrust = totals.vacuum_thrust + thrust as u128;
                    }
                },
                PartModule::LiquidEngine { thrust_vac, thrust_sl, .. } => {
                    if drives {
                        totals.sea_level_thrust = totals.sea_level_thrust + thrust_sl as u128;
                        totals.vacuum_thrust = totals.vacuum_thrust + thrust_vac as u128;
                    }
                },
                _ => {},
            }
        }
    }
    proof {
        assert(craft.parts@.take(craft.parts@.len() as int) =~= craft.parts@);
    }
    totals
}

/// A craft with all its propellant is at least as heavy as without, by what its
/// tanks and solid engines hold and more.
pub proof fn law_wet_outweighs_dry(
    parts: Seq<PartInstance>,
    catalog: Map<Seq<char>, DefinitionView>,
)
    ensures
        sum_over(parts, catalog, |p: PartInstance, d: DefinitionView| wet(p, d)) >= sum_over(
            parts,
            catalog,
            |p: PartInstance, d: DefinitionView| dry(p, d),
        ) + sum_over(parts, catalog, |p: PartInstance, d: DefinitionView| liquid(p, d)) + sum_over(
            parts,
            catalog,
            |p: PartInstance, d: DefinitionView| solid(p, d),
        ),
    decreases parts.len(),
{
    if parts.len() > 0 {
        law_wet_outweighs_dry(parts.drop_last(), catalog);
    }
}

/// The part with its engine lit, if it is one.
pub open spec fn ignited(
    part: RuntimePart,
    catalog: Map<Seq<char>, DefinitionView>,
) -> RuntimePart {
    if module_of(part, catalog) is Some && is_engine(module_of(part, catalog)->0) {
        RuntimePart { active: true, ..part }
    } else {
        part
    }
}

/// Lights every engine.
pub fn ignite_all(vessel: &mut Vessel, catalog: &PartCatalog)
    ensures
        *final(vessel) == (Vessel { parts: final(vessel).parts, ..*old(vessel) }),
        final(vessel).parts@ == old(vessel).parts@.map_values(
            |part: RuntimePart| ignited(part, catalog@),
        ),
{
    let ghost before = vessel.parts@;
    let count: usize = vessel.parts.len();
    for i in 0..count
        invariant
            count == before.len(),
            vessel.parts.len() == before.len(),
            *vessel == (Vessel { parts: vessel.parts, ..*old(vessel) }),
            forall|k: int| i <= k < before.len() ==> #[trigger] vessel.parts@[k] == before[k],
            forall|k: int|
                0 <= k < i ==> #[trigger] vessel.parts@[k] == ignited(before[k], catalog@),
    {
        proof {
            assert(vessel.parts@[i as int] == before[i as int]);
        }
        if matches!(
            part_module(&vessel.parts[i], catalog),
            Some(PartModule::LiquidEngine { .. } | PartModule::SolidEngine { .. })
        ) {
            vessel.parts[i].active = true;
        }
    }
    proof {
        assert(vessel.parts@ =~= before.map_values(|part: RuntimePart| ignited(part, catalog@)));
    }
}

/// The stage that gets a craft off the pad is the earliest that lights an engine; there is
/// none exactly where no stage lights any.
pub proof fn law_first_lighting_is_the_earliest(stages: Seq<Stage>)
    ensures
        first_lighting(stages) is None <==> forall|s: int, a: int|
            0 <= s < stages.len() && 0 <= a < stages[s].actions@.len() ==> !((
            #[trigger] stages[s].actions@[a]) is ActivateEngine),
        first_lighting(stages) is Some ==> exists|k: int|
            {
                &&& 0 <= k < stages.len() && first_lighting(stages) == Some(#[trigger] stages[k])
                &&& exists|a: int|
                    0 <= a < stages[k].actions@.len() && (
                    #[trigger] stages[k].actions@[a]) is ActivateEngine
                &&& forall|s: int, a: int|
                    0 <= s < k && 0 <= a < stages[s].actions@.len() ==> !((
                    #[trigger] stages[s].actions@[a]) is ActivateEngine)
            },
    decreases stages.len(),
{
    if stages.len() > 0 {
        if lights_any(stages[0]) {
            let a = choose|a: int|
                0 <= a < stages[0].actions.len() && #[trigger] stages[0].actions@[a]
                    is ActivateEngine;
            assert(stages[0].actions@[a] is ActivateEngine);
            assert(first_lighting(stages) == Some(stages[0]));
        } else {
            let rest = stages.drop_first();
            law_first_lighting_is_the_earliest(rest);
            assert forall|s: int, a: int|
                0 < s < stages.len() && 0 <= a < stages[s].actions@.len() implies (
            #[trigger] stages[s].actions@[a]) == rest[s - 1].actions@[a] by {}
            assert forall|s: int, a: int|
                0 <= s < rest.len() && 0 <= a < rest[s].actions@.len() implies (
            #[trigger] rest[s].actions@[a]) == stages[s + 1].actions@[a] by {}
            if first_lighting(rest) is Some {
                let k = choose|k: int|
                    {
                        &&& 0 <= k < rest.len() && first_lighting(rest) == Some(#[trigger] rest[k])
                        &&& exists|a: int|
                            0 <= a < rest[k].actions@.len() && (
                            #[trigger] rest[k].actions@[a]) is ActivateEngine
                        &&& forall|s: int, a: int|
                            0 <= s < k && 0 <= a < rest[s].actions@.len() ==> !((
                            #[trigger] rest[s].actions@[a]) is ActivateEngine)
                    };
                assert(first_lighting(stages) == Some(stages[k + 1]));
                let a = choose|a: int|
                    0 <= a < rest[k].actions@.len() && (
                    #[trigger] rest[k].actions@[a]) is ActivateEngine;
                assert(stages[k + 1].actions@[a] is ActivateEngine);
                assert forall|s: int, a: int|
                    0 <= s < k + 1 && 0 <= a < stages[s].actions@.len() implies !((
                #[trigger] stages[s].actions@[a]) is ActivateEngine) by {}
            }
        }
    }
}

/// A part adds to the sums of a craft its own mass, what it carries and, where it drives the
/// craft off the pad, its own thrust, and nothing else; a part of unknown kind adds nothing.
/// It drives the craft off the pad where the first stage that lights any engine lights it, or
/// where no stage lights any.
pub proof fn law_part_adds_its_own(
    craft: &CraftBlueprint,
    longer: &CraftBlueprint,
    part: PartInstance,
    catalog: &PartCatalog,
    before: CraftTotals,
    after: CraftTotals,
)
    requires
        longer.parts@ == craft.parts@.push(part),
        longer.stages == craft.stages,
        call_ensures(craft_totals, (craft, catalog), before),
        call_ensures(craft_totals, (longer, catalog), after),
    ensures
        ({
            let kind = catalog@[part.definition_id@];
            let drives = first_lighting(craft.stages@) is None || first_lighting(
                craft.stages@,
            )->0.actions@.contains(StageAction::ActivateEngine(part.instance_id));
            if catalog@.contains_key(part.definition_id@) {
                let (fuel, ablator, thrust, sea) = match kind.module {
                    PartModule::LiquidTank { fuel } => (fuel as int, 0, 0, 0),
                    PartModule::MonopropTank { fuel } => (fuel as int, 0, 0, 0),
                    PartModule::SolidEngine { thrust, isp: _, fuel } => (
                        fuel as int,
                        0,
                        thrust as int,
                        thrust as int,
                    ),
                    PartModule::HeatShield { ablator } => (0, ablator as int, 0, 0),
                    PartModule::LiquidEngine {
                        thrust_vac,
                        thrust_sl,
                        isp_vac: _,
                        isp_sl: _,
                        gimbal_deg: _,
                    } => (0, 0, thrust_vac as int, thrust_sl as int),
                    _ => (0, 0, 0, 0),
                };
                &&& after.dry_mass - before.dry_mass == kind.dry_mass
                &&& after.wet_mass - before.wet_mass == kind.dry_mass + fuel + ablator
                &&& after.liquid_fuel - before.liquid_fuel == if kind.module is LiquidTank {
                    fuel
                } else {
                    0
                }
                &&& after.solid_fuel - before.solid_fuel == if kind.module is SolidEngine {
                    fuel
                } else {
                    0
                }
                &&& after.vacuum_thrust - before.vacuum_thrust == if drives {
                    thrust
                } else {
                    0
                }
                &&& after.sea_level_thrust - before.sea_level_thrust == if drives {
                    sea
                } else {
                    0
                }
            } else {
                after == before
            }
        }),
        craft.parts@.len() == 0 ==> before.dry_mass == 0 && before.wet_mass == 0
            && before.liquid_fuel == 0 && before.solid_fuel == 0 && before.vacuum_thrust == 0
            && before.sea_level_thrust == 0,
{
    assert(longer.parts@.drop_last() =~= craft.parts@);
}

/// All engines are lit at once, and nothing else changes.
pub proof fn law_all_engines_are_lit(vessel: &mut Vessel, catalog: &PartCatalog, i: int)
    requires
        call_ensures(ignite_all, (vessel, catalog), ()),
        0 <= i < old(vessel).parts@.len(),
    ensures
        *final(vessel) == (Vessel { parts: final(vessel).parts, ..*old(vessel) }),
        final(vessel).parts@.len() == old(vessel).parts@.len(),
        ({
            let before = old(vessel).parts@[i];
            let module = catalog@[before.instance.definition_id@].module;
            let engine = catalog@.contains_key(before.instance.definition_id@) && (
            module is LiquidEngine || module is SolidEngine);
            &&& engine ==> final(vessel).parts@[i] == (RuntimePart { active: true, ..before })
            &&& !engine ==> final(vessel).parts@[i] == before
        }),
{
}

/// The engines of the first burn are those that the earliest stage with any engine lights.
pub proof fn law_first_burn_is_the_earliest_stage(
    craft: &CraftBlueprint,
    r: Option<BTreeSet<u64>>,
    any: bool,
    k: int,
    id: u64,
)
    requires
        call_ensures(first_propulsion_stage, (craft,), r),
        call_ensures(has_engine_actions, (craft,), any),
        0 <= k < craft.stages@.len(),
        craft.stages@[k].actions@.contains(StageAction::ActivateEngine(id)),
        forall|s: int, a: int|
            0 <= s < k && 0 <= a < craft.stages@[s].actions@.len() ==> !((
            #[trigger] craft.stages@[s].actions@[a]) is ActivateEngine),
    ensures
        any,
        r is Some,
        forall|other: u64| #[trigger]
            r->0@.contains(other) <==> craft.stages@[k].actions@.contains(
                StageAction::ActivateEngine(other),
            ),
{
    let stages = craft.stages@;
    law_first_lighting_is_the_earliest(stages);
    let a = choose|a: int|
        0 <= a < stages[k].actions@.len() && stages[k].actions@[a]
            == StageAction::ActivateEngine(id);
    assert(stages[k].actions@[a] is ActivateEngine);
    let m = choose|m: int|
        {
            &&& 0 <= m < stages.len() && first_lighting(stages) == Some(#[trigger] stages[m])
            &&& exists|a: int|
                0 <= a < stages[m].actions@.len() && (
                #[trigger] stages[m].actions@[a]) is ActivateEngine
            &&& forall|s: int, a: int|
                0 <= s < m && 0 <= a < stages[s].actions@.len() ==> !((
                #[trigger] stages[s].actions@[a]) is ActivateEngine)
        };
    assert(m == k);
}

} // verus!
