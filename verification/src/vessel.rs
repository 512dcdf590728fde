//! A vessel in flight: its parts, its controls and the stages it has shed.
use crate::craft::{stages_view, CraftBlueprint, PartInstance, Stage, StageView};
use crate::number::{law_integer_has_its_value, Real};
use crate::parts::{DefinitionView, PartCatalog, PartModule};
use std::collections::BTreeSet;
use vstd::arithmetic::power2::*;
use vstd::prelude::*;

verus! {

/// The radius of the home body, in metres.
pub const HOME_RADIUS: u32 = 600_000;

/// The height of the home body's atmosphere, in metres.
pub const HOME_ATMOSPHERE: u32 = 70_000;

/// The pattern of the speed of the ground under the launch pad, westwards.
pub const PAD_VELOCITY: u64 = 0xc065_d119_a354_efce;

/// A direction that the autopilot holds.
#[derive(Debug, Clone, Copy, PartialEq, Eq, Structural)]
pub enum SasMode {
    Stability,
    Prograde,
    Retrograde,
    Normal,
    AntiNormal,
    RadialIn,
    RadialOut,
    Maneuver,
}

/// The position of the levers.
#[derive(Debug, Clone, Copy, PartialEq, Eq, Structural)]
pub struct FlightControls {
    pub throttle: Real,
    pub pitch: Real,
    pub yaw: Real,
    pub roll: Real,
    pub sas: Option<SasMode>,
    pub rcs: bool,
}

/// All levers at rest, with the autopilot holding the attitude.
pub open spec fn neutral_controls() -> FlightControls {
    FlightControls {
        throttle: Real::spec_of(0),
        pitch: Real::spec_of(0),
        yaw: Real::spec_of(0),
        roll: Real::spec_of(0),
        sas: Some(SasMode::Stability),
        rcs: false,
    }
}

impl Default for FlightControls {
    fn default() -> (r: Self)
        ensures
            r == neutral_controls(),
    {
        FlightControls {
            throttle: Real::zero(),
            pitch: Real::zero(),
            yaw: Real::zero(),
            roll: Real::zero(),
            sas: Some(SasMode::Stability),
            rcs: false,
        }
    }
}

/// A part in flight.
#[derive(Debug)]
pub struct RuntimePart {
    pub instance: PartInstance,
    pub fuel: Real,
    pub ablator: Real,
    pub temperature: Real,
    pub active: bool,
    pub destroyed: bool,
    pub parachute_deployed: bool,
}

impl Clone for RuntimePart {
    fn clone(&self) -> (r: Self)
        ensures
            r == *self,
    {
        RuntimePart {
            instance: self.instance.clone(),
            fuel: self.fuel,
            ablator: self.ablator,
            temperature: self.temperature,
            active: self.active,
            destroyed: self.destroyed,
            parachute_deployed: self.parachute_deployed,
        }
    }
}

/// Parts that have left a vessel and drift on their own.
#[derive(Debug)]
pub struct DetachedStage {
    pub primary_body: String,
    pub parts: Vec<RuntimePart>,
    pub position: [Real; 3],
    pub velocity: [Real; 3],
    pub attitude: [Real; 4],
    pub angular_velocity: [Real; 3],
}

/// A detached stage with its parts as a sequence.
pub struct DetachedView {
    pub primary_body: String,
    pub parts: Seq<RuntimePart>,
    pub position: [Real; 3],
    pub velocity: [Real; 3],
    pub attitude: [Real; 4],
    pub angular_velocity: [Real; 3],
}

impl View for DetachedStage {
    type V = DetachedView;

    open spec fn view(&self) -> DetachedView {
        DetachedView {
            primary_body: self.primary_body,
            parts: self.parts@,
            position: self.position,
            velocity: self.velocity,
            attitude: self.attitude,
            angular_velocity: self.angular_velocity,
        }
    }
}

impl Clone for DetachedStage {
    fn clone(&self) -> (r: Self)
        ensures
            r@ == self@,
    {
        let parts = self.parts.clone();
        proof {
            assert(parts@ =~= self.parts@);
        }
        DetachedStage {
            primary_body: self.primary_body.clone(),
            parts,
            position: self.position,
            velocity: self.velocity,
            attitude: self.attitude,
            angular_velocity: self.angular_velocity,
        }
    }
}

/// A planned change of velocity and when it is due.
#[derive(Debug, Clone, Copy, PartialEq, Eq, Structural)]
pub struct ManeuverNode {
    pub ut: Real,
    pub prograde: Real,
    pub normal: Real,
    pub radial: Real,
}

/// What a vessel is doing.
#[derive(Debug, Clone, Copy, PartialEq, Eq, Structural)]
pub enum FlightSituation {
    Prelaunch,
    Flying,
    Orbiting,
    Landed,
    Crashed,
}

/// A vessel.
#[derive(Debug)]
pub struct Vessel {
    pub name: String,
    pub primary_body: String,
    pub parts: Vec<RuntimePart>,
    pub stages: Vec<Stage>,
    pub next_stage: usize,
    pub position: [Real; 3],
    pub velocity: [Real; 3],
    pub attitude: [Real; 4],
    pub angular_velocity: [Real; 3],
    pub controls: FlightControls,
    pub sas_target_attitude: Option<[Real; 4]>,
    pub situation: FlightSituation,
    pub max_heating: Real,
    pub maneuver: Option<ManeuverNode>,
    pub crew: Vec<String>,
    pub debris: Vec<DetachedStage>,
}

/// A vessel with its lists as sequences.
pub struct VesselView {
    pub name: String,
    pub primary_body: String,
    pub parts: Seq<RuntimePart>,
    pub stages: Seq<StageView>,
    pub next_stage: usize,
    pub position: [Real; 3],
    pub velocity: [Real; 3],
    pub attitude: [Real; 4],
    pub angular_velocity: [Real; 3],
    pub controls: FlightControls,
    pub sas_target_attitude: Option<[Real; 4]>,
    pub situation: FlightSituation,
    pub max_heating: Real,
    pub maneuver: Option<ManeuverNode>,
    pub crew: Seq<String>,
    pub debris: Seq<DetachedView>,
}

/// The detached stages with their parts as sequences.
pub open spec fn debris_view(debris: Seq<DetachedStage>) -> Seq<DetachedView> {
    debris.map_values(|stage: DetachedStage| stage@)
}

impl View for Vessel {
    type V = VesselView;

    open spec fn view(&self) -> VesselView {
        VesselView {
            name: self.name,
            primary_body: self.primary_body,
            parts: self.parts@,
            stages: stages_view(self.stages@),
            next_stage: self.next_stage,
            position: self.position,
            velocity: self.velocity,
            attitude: self.attitude,
            angular_velocity: self.angular_velocity,
            controls: self.controls,
            sas_target_attitude: self.sas_target_attitude,
            situation: self.situation,
            max_heating: self.max_heating,
            maneuver: self.maneuver,
            crew: self.crew@,
            debris: debris_view(self.debris@),
        }
    }
}

impl Clone for Vessel {
    fn clone(&self) -> (r: Self)
        ensures
            r@ == self@,
    {
        let parts = self.parts.clone();
        let stages = self.stages.clone();
        let crew = self.crew.clone();
        let debris = self.debris.clone();
        proof {
            assert(parts@ =~= self.parts@);
            assert(stages_view(stages@) =~= stages_view(self.stages@));
            assert(crew@ =~= self.crew@);
            assert(debris_view(debris@) =~= debris_view(self.debris@));
        }
        Vessel {
            name: self.name.clone(),
            primary_body: self.primary_body.clone(),
            parts,
            stages,
            next_stage: self.next_stage,
            position: self.position,
            velocity: self.velocity,
            attitude: self.attitude,
            angular_velocity: self.angular_velocity,
            controls: self.controls,
            sas_target_attitude: self.sas_target_attitude,
            situation: self.situation,
            max_heating: self.max_heating,
            maneuver: self.maneuver,
            crew,
            debris,
        }
    }
}

/// The propellant that a part of this kind starts with, in kilograms.
pub open spec fn initial_fuel(module: PartModule) -> u32 {
    match module {
        PartModule::LiquidTank { fuel } => fuel,
        PartModule::MonopropTank { fuel } => fuel,
        PartModule::SolidEngine { thrust: _, isp: _, fuel } => fuel,
        _ => 0,
    }
}

/// The ablator that a part of this kind starts with, in kilograms.
pub open spec fn initial_ablator(module: PartModule) -> u32 {
    match module {
        PartModule::HeatShield { ablator } => ablator,
        _ => 0,
    }
}

/// A part as it stands on the pad.
pub open spec fn fresh_part(instance: PartInstance, module: PartModule) -> RuntimePart {
    RuntimePart {
        instance,
        fuel: Real::spec_integer(initial_fuel(module)),
        ablator: Real::spec_integer(initial_ablator(module)),
        temperature: Real::spec_integer(290),
        active: false,
        destroyed: false,
        parachute_deployed: false,
    }
}

/// The parts of a blueprint as they stand on the pad.
pub open spec fn fresh_parts(
    parts: Seq<PartInstance>,
    catalog: Map<Seq<char>, DefinitionView>,
) -> Seq<RuntimePart> {
    Seq::new(
        parts.len(),
        |i: int| fresh_part(parts[i], catalog[parts[i].definition_id@].module),
    )
}

/// Whether a part with the number `id` is among the parts that still fly.
pub open spec fn flies(parts: Seq<RuntimePart>, id: u64) -> bool {
    exists|i: int|
        0 <= i < parts.len() && !(#[trigger] parts[i]).destroyed && parts[i].instance.instance_id
            == id
}

/// Whether the vessel stands on the pad as the blueprint designs it.
pub open spec fn is_on_pad(
    vessel: Vessel,
    blueprint: CraftBlueprint,
    catalog: Map<Seq<char>, DefinitionView>,
) -> bool {
    &&& vessel.name == blueprint.name
    &&& vessel.primary_body@ == "carapace"@
    &&& vessel.parts@ == fresh_parts(blueprint.parts@, catalog)
    &&& stages_view(vessel.stages@) == stages_view(blueprint.stages@)
    &&& vessel.next_stage == 0
    &&& vessel.position@ == seq![
        Real::spec_of(0),
        Real::spec_integer((HOME_RADIUS + 5) as u32),
        Real::spec_of(0),
    ]
    &&& vessel.velocity@ == seq![Real::spec_of(PAD_VELOCITY), Real::spec_of(0), Real::spec_of(0)]
    &&& vessel.attitude@ == seq![
        Real::spec_of(0),
        Real::spec_of(0),
        Real::spec_of(0),
        Real::spec_integer(1),
    ]
    &&& vessel.angular_velocity@ == seq![Real::spec_of(0), Real::spec_of(0), Real::spec_of(0)]
    &&& vessel.controls == neutral_controls()
    &&& vessel.sas_target_attitude is None
    &&& vessel.situation == FlightSituation::Prelaunch
    &&& vessel.max_heating == Real::spec_of(0)
    &&& vessel.maneuver is None
    &&& vessel.crew@ == blueprint.crew@
    &&& vessel.debris@.len() == 0
}

impl Vessel {
    /// The vessel on the pad of the home body.
    pub fn from_blueprint(blueprint: &CraftBlueprint, catalog: &PartCatalog) -> (r: Self)
        requires
            forall|i: int|
                0 <= i < blueprint.parts.len() ==> catalog@.contains_key(
                    (#[trigger] blueprint.parts@[i]).definition_id@,
                ),
        ensures
            is_on_pad(r, *blueprint, catalog@),
    {
        let mut parts: Vec<RuntimePart> = Vec::new();
        for i in 0..blueprint.parts.len()
            invariant
                forall|k: int|
                    0 <= k < blueprint.parts.len() ==> catalog@.contains_key(
                        (#[trigger] blueprint.parts@[k]).definition_id@,
                    ),
                parts@ == fresh_parts(blueprint.parts@, catalog@).take(i as int),
        {
            let instance = &blueprint.parts[i];
            proof {
                assert(catalog@.contains_key(blueprint.parts@[i as int].definition_id@));
            }
            if let Some(definition) = catalog.get(&instance.definition_id) {
                let (fuel, ablator): (u32, u32) = match definition.module {
                    PartModule::LiquidTank { fuel } => (fuel, 0),
                    PartModule::MonopropTank { fuel } => (fuel, 0),
                    PartModule::SolidEngine { fuel, .. } => (fuel, 0),
                    PartModule::HeatShield { ablator } => (0, ablator),
                    _ => (0, 0),
                };
                parts.push(
                    RuntimePart {
                        instance: instance.clone(),
                        fuel: Real::integer(fuel),
                        ablator: Real::integer(ablator),
                        temperature: Real::integer(290),
                        active: false,
                        destroyed: false,
                        parachute_deployed: false,
                    },
                );
            }
            proof {
                assert(parts@ =~= fresh_parts(blueprint.parts@, catalog@).take(i + 1));
            }
        }
        let stages = blueprint.stages.clone();
        let crew = blueprint.crew.clone();
        let zero = Real::zero();
        let r = Vessel {
            name: blueprint.name.clone(),
            primary_body: "carapace".to_owned(),
            parts,
            stages,
            next_stage: 0,
            position: [zero, Real::integer(HOME_RADIUS + 5), zero],
            velocity: [Real::of(PAD_VELOCITY), zero, zero],
            attitude: [zero, zero, zero, Real::integer(1)],
            angular_velocity: [zero, zero, zero],
            controls: FlightControls::default(),
            sas_target_attitude: None,
            situation: FlightSituation::Prelaunch,
            max_heating: zero,
            maneuver: None,
            crew,
            debris: Vec::new(),
        };
        proof {
            assert(r.parts@ =~= fresh_parts(blueprint.parts@, catalog@));
            assert(stages_view(r.stages@) =~= stages_view(blueprint.stages@));
            assert(r.crew@ =~= blueprint.crew@);
            assert(r.position@ =~= seq![
                Real::spec_of(0),
                Real::spec_integer((HOME_RADIUS + 5) as u32),
                Real::spec_of(0),
            ]);
            assert(r.velocity@ =~= seq![
                Real::spec_of(PAD_VELOCITY),
                Real::spec_of(0),
                Real::spec_of(0),
            ]);
            assert(r.attitude@ =~= seq![
                Real::spec_of(0),
                Real::spec_of(0),
                Real::spec_of(0),
                Real::spec_integer(1),
            ]);
            assert(r.angular_velocity@ =~= seq![
                Real::spec_of(0),
                Real::spec_of(0),
                Real::spec_of(0),
            ]);
        }
        r
    }

    /// The numbers of the parts that still fly.
    pub fn active_ids(&self) -> (r: BTreeSet<u64>)
        ensures
            forall|id: u64| #[trigger] r@.contains(id) <==> flies(self.parts@, id),
    {
        let mut ids: BTreeSet<u64> = BTreeSet::new();
        for i in 0..self.parts.len()
            invariant
                forall|id: u64| #[trigger]
                    ids@.contains(id) <==> exists|k: int|
                        0 <= k < i && !(#[trigger] self.parts@[k]).destroyed
                            && self.parts@[k].instance.instance_id == id,
        {
            if !self.parts[i].destroyed {
                ids.insert(self.parts[i].instance.instance_id);
            }
        }
        ids
    }
}

/// A vessel stands on the pad as its blueprint says: five metres above the ground of the home
/// body, upright, at rest but for the turning of the ground, with full tanks, whole shields
/// and everything switched off but the damping of rotation.
pub proof fn law_vessel_starts_on_the_pad(
    blueprint: &CraftBlueprint,
    catalog: &PartCatalog,
    vessel: Vessel,
    i: int,
)
    requires
        call_ensures(Vessel::from_blueprint, (blueprint, catalog), vessel),
        0 <= i < blueprint.parts@.len(),
    ensures
        vessel.name == blueprint.name,
        vessel.primary_body@ == "carapace"@,
        vessel.crew@ == blueprint.crew@,
        vessel.next_stage == 0,
        vessel.stages@.len() == blueprint.stages@.len(),
        vessel.situation is Prelaunch,
        vessel.maneuver is None,
        vessel.sas_target_attitude is None,
        vessel.debris@.len() == 0,
        vessel.max_heating.bits == 0,
        vessel.position@[0].bits == 0 && vessel.position@[2].bits == 0,
        vessel.position@[1].value() == 600_005 * pow2(1074),
        vessel.velocity@[0].bits == 0xc065_d119_a354_efce && vessel.velocity@[1].bits == 0
            && vessel.velocity@[2].bits == 0,
        vessel.attitude@[0].bits == 0 && vessel.attitude@[1].bits == 0 && vessel.attitude@[2].bits
            == 0 && vessel.attitude@[3].value() == pow2(1074),
        vessel.angular_velocity@ == seq![
            Real::spec_of(0),
            Real::spec_of(0),
            Real::spec_of(0),
        ],
        vessel.controls.throttle.bits == 0 && vessel.controls.pitch.bits == 0
            && vessel.controls.yaw.bits == 0 && vessel.controls.roll.bits == 0,
        vessel.controls.sas == Some(SasMode::Stability) && !vessel.controls.rcs,
        vessel.parts@.len() == blueprint.parts@.len(),
        vessel.parts@[i].instance == blueprint.parts@[i],
        !vessel.parts@[i].active && !vessel.parts@[i].destroyed
            && !vessel.parts@[i].parachute_deployed,
        vessel.parts@[i].temperature.value() == 290 * pow2(1074),
        ({
            let module = catalog@[blueprint.parts@[i].definition_id@].module;
            let fuel = vessel.parts@[i].fuel.value();
            let ablator = vessel.parts@[i].ablator.value();
            match module {
                PartModule::LiquidTank { fuel: held } => fuel == held * pow2(1074) && ablator == 0,
                PartModule::MonopropTank { fuel: held } => fuel == held * pow2(1074) && ablator
                    == 0,
                PartModule::SolidEngine { thrust: _, isp: _, fuel: held } => fuel == held * pow2(
                    1074,
                ) && ablator == 0,
                PartModule::HeatShield { ablator: held } => ablator == held * pow2(1074) && fuel
                    == 0,
                _ => fuel == 0 && ablator == 0,
            }
        }),
{
    let module = catalog@[blueprint.parts@[i].definition_id@].module;
    law_integer_has_its_value(initial_fuel(module));
    law_integer_has_its_value(initial_ablator(module));
    law_integer_has_its_value(290);
    law_integer_has_its_value(1);
    law_integer_has_its_value(600_005);
    assert(stages_view(vessel.stages@).len() == stages_view(blueprint.stages@).len());
    assert(0 * pow2(1074) == 0) by (nonlinear_arith);
}

/// A part number flies exactly where some part of that number is whole.
pub proof fn law_flying_parts_are_whole(vessel: &Vessel, r: BTreeSet<u64>, i: int)
    requires
        call_ensures(Vessel::active_ids, (vessel,), r),
        0 <= i < vessel.parts@.len(),
    ensures
        !vessel.parts@[i].destroyed ==> r@.contains(vessel.parts@[i].instance.instance_id),
        r@.contains(vessel.parts@[i].instance.instance_id) ==> exists|k: int|
            0 <= k < vessel.parts@.len() && !(#[trigger] vessel.parts@[k]).destroyed
                && vessel.parts@[k].instance.instance_id == vessel.parts@[i].instance.instance_id,
{
}

} // verus!
