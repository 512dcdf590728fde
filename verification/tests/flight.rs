use crabby_space::burn::{
    EngineGroup, burn_down, burn_duration, burn_solid_engines, engine_networks, rated_solid_engines,
    solid_engines,
};
use crabby_space::control::{
    apply_commands, axis, flight_notice, next_camera, pilot, set_flight_controls, toggle_rcs,
    toggle_sas, ControlRequest, LatchedAxes, PilotInput, ReleaseEvent,
};
use crabby_space::delta_v::staged_vacuum_delta_v;
use crabby_space::craft::{stock_craft, CraftBlueprint, PartInstance, Stage, StageAction};
use crabby_space::flight::{
    heat_parts, inline_neighbors, leg_count, live_parts, parachute_holds, part_role, rcs_is_fed,
    sas_heading, sas_steers, settle, tear_parachute, Heading, PartRole,
};
use crabby_space::fuel::{
    drain_liquid_fuel_network, drain_monopropellant, liquid_fuel_available, liquid_fuel_network,
    resource_totals,
};
use crabby_space::interval::{burn_vacuum_interval, Propulsion};
use crabby_space::mission::{
    update_mission, FlightTelemetry, MissionProgress, OrbitalElements, SimulationClock, TickPlan,
};
use crabby_space::number::{Real, Single};
use crabby_space::orbit::{body_definition, CelestialBodyDef};
use crabby_space::parts::{PartCatalog, PartModule};
use crabby_space::script::ScriptCommands;
use crabby_space::staging::{
    activate_next_stage, decouple, deploy_all, descendants, separation, Separation, Split,
};
use crabby_space::reach::{apply_soi_transitions, Frame, Reach};
use crabby_space::step::{step_vessel, Arrival, Drifted, GroupBurn, Mechanics, Motion};
use crabby_space::vessel::{
    DetachedStage, FlightControls, FlightSituation, RuntimePart, SasMode, Vessel,
};

const G0: f64 = 9.80665;

fn num(value: f64) -> Real {
    Real::of(value.to_bits())
}

fn value(number: Real) -> f64 {
    f64::from_bits(number.bits)
}

fn single(value: f32) -> Single {
    Single { bits: value.to_bits() }
}

fn vector(numbers: [Real; 3]) -> [f64; 3] {
    numbers.map(value)
}

fn length(v: [f64; 3]) -> f64 {
    v.iter().map(|x| x * x).sum::<f64>().sqrt()
}

fn place_of(part: &RuntimePart) -> [f64; 3] {
    part.instance
        .local_position
        .map(|x| f64::from(f32::from_bits(x.bits)))
}

fn mass_of(part: &RuntimePart, catalog: &PartCatalog) -> f64 {
    let kind = catalog.get(&part.instance.definition_id).unwrap();
    f64::from(kind.dry_mass) + value(part.fuel) + value(part.ablator)
}

fn balance<'a>(parts: impl Iterator<Item = &'a RuntimePart>, catalog: &PartCatalog) -> (f64, [f64; 3]) {
    let mut mass = 0.0;
    let mut center = [0.0; 3];
    for part in parts {
        let share = mass_of(part, catalog);
        mass += share;
        for (sum, x) in center.iter_mut().zip(place_of(part)) {
            *sum += share * x;
        }
    }
    (mass, center.map(|x| x / mass))
}

fn split(vessel: &Vessel, plan: &Separation) -> Split {
    let catalog = PartCatalog::default();
    let leaves = |part: &&RuntimePart| {
        !part.destroyed && plan.removed.contains(&part.instance.instance_id)
    };
    let stays = |part: &&RuntimePart| {
        !part.destroyed && !plan.removed.contains(&part.instance.instance_id)
    };
    let (mass, center) = balance(vessel.parts.iter().filter(leaves), &catalog);
    let (rest, middle) = balance(vessel.parts.iter().filter(stays), &catalog);
    let mut direction = [0.0; 3];
    for i in 0..3 {
        direction[i] = center[i] - middle[i];
    }
    let size = length(direction);
    let direction = direction.map(|x| x / size);
    let velocity = vector(vessel.velocity);
    let position = vector(vessel.position);
    let impulse = f64::from(plan.impulse);
    let mut kept = [num(0.0); 3];
    let mut shed = [num(0.0); 3];
    let mut at = [num(0.0); 3];
    for i in 0..3 {
        kept[i] = num(velocity[i] - direction[i] * (impulse / rest));
        shed[i] = num(velocity[i] + direction[i] * (impulse / mass));
        at[i] = num(position[i] + center[i]);
    }
    Split {
        mass: num(mass),
        center: center.map(num),
        velocity: kept,
        debris_position: at,
        debris_velocity: shed,
    }
}

fn place(center: [Real; 3], position: [Single; 3]) -> [Single; 3] {
    let mut moved = position;
    for i in 0..3 {
        let x = f64::from(f32::from_bits(position[i].bits)) - value(center[i]);
        moved[i] = single(x as f32);
    }
    moved
}

fn next_stage(vessel: &mut Vessel, catalog: &PartCatalog) -> bool {
    activate_next_stage(vessel, catalog, &split, &place)
}

fn total(levels: Vec<Real>) -> Real {
    num(levels.into_iter().map(value).sum())
}

fn rest(fuel: Real, taken: Real, available: Real) -> Real {
    num(value(fuel) - value(taken) * value(fuel) / value(available))
}

fn part(id: u64, definition_id: &str, parent: Option<u64>, position: [f32; 3]) -> PartInstance {
    PartInstance {
        instance_id: id,
        definition_id: definition_id.into(),
        parent,
        local_position: position.map(single),
        local_rotation: [single(0.0), single(0.0), single(0.0), single(1.0)],
    }
}

fn craft(parts: Vec<PartInstance>, stages: Vec<Stage>) -> CraftBlueprint {
    CraftBlueprint {
        schema_version: 1,
        name: "Test".into(),
        parts,
        stages,
        crew: Vec::new(),
        script_name: None,
    }
}

fn stock_vessel(catalog: &PartCatalog) -> Vessel {
    Vessel::from_blueprint(&stock_craft(), catalog)
}

fn find(vessel: &Vessel, id: u64) -> &RuntimePart {
    vessel
        .parts
        .iter()
        .find(|p| p.instance.instance_id == id)
        .unwrap()
}

#[test]
fn staging_activates_then_sheds_boosters() {
    let catalog = PartCatalog::default();
    let mut vessel = stock_vessel(&catalog);
    assert!(next_stage(&mut vessel, &catalog));
    assert!(find(&vessel, 11).active);
    assert!(next_stage(&mut vessel, &catalog));
    assert!(find(&vessel, 11).destroyed);
    assert_eq!(vessel.debris.len(), 2);
    assert!(vessel.debris.iter().all(|stage| !stage.parts.is_empty()));
}

#[test]
fn safe_stage_does_not_duplicate() {
    let catalog = PartCatalog::default();
    let mut vessel = stock_vessel(&catalog);
    for _ in 0..8 {
        next_stage(&mut vessel, &catalog);
    }
    assert_eq!(vessel.next_stage, vessel.stages.len());
}

#[test]
fn both_pieces_take_the_impulse() {
    let catalog = PartCatalog::default();
    let design = craft(
        vec![
            part(1, "pod_1", None, [0.0, 0.0, 0.0]),
            part(2, "decoupler_radial", Some(1), [2.0, 0.0, 0.0]),
            part(3, "solid_radial", Some(2), [3.0, 0.0, 0.0]),
        ],
        vec![Stage {
            name: "Separate".into(),
            actions: vec![StageAction::Decouple(2)],
        }],
    );
    let mut vessel = Vessel::from_blueprint(&design, &catalog);
    vessel.angular_velocity = [num(0.0); 3];
    let initial = vector(vessel.velocity);

    next_stage(&mut vessel, &catalog);

    let (survivor_mass, _) = balance(vessel.parts.iter().filter(|p| !p.destroyed), &catalog);
    let debris = &vessel.debris[0];
    let (debris_mass, _) = balance(debris.parts.iter(), &catalog);
    let kept = vector(vessel.velocity);
    let shed = vector(debris.velocity);
    let mut survivor_momentum = [0.0; 3];
    let mut debris_momentum = [0.0; 3];
    let mut sum = [0.0; 3];
    for i in 0..3 {
        survivor_momentum[i] = (kept[i] - initial[i]) * survivor_mass;
        debris_momentum[i] = (shed[i] - initial[i]) * debris_mass;
        sum[i] = survivor_momentum[i] + debris_momentum[i];
    }
    assert!((length(survivor_momentum) - 2_000.0).abs() < 1e-9);
    assert!((length(debris_momentum) - 2_000.0).abs() < 1e-9);
    assert!(length(sum) < 1e-9);
}

#[test]
fn a_separation_moves_parts_and_loses_none() {
    let catalog = PartCatalog::default();
    let mut vessel = stock_vessel(&catalog);
    let plan = separation(&vessel, &catalog, 7).unwrap();
    assert_eq!(plan.impulse, 1_500);
    let removed: Vec<u64> = plan.removed.iter().copied().collect();
    assert_eq!(removed, vec![7, 8, 9, 10, 11, 12, 13, 14, 15]);
    let before = vessel.active_ids().len();
    decouple(&mut vessel, &catalog, 7, &split, &place);
    assert_eq!(vessel.debris.len(), 1);
    assert_eq!(vessel.debris[0].parts.len() + vessel.active_ids().len(), before);
    assert_eq!(vessel.debris[0].primary_body, "carapace");
    let (_, center) = balance(vessel.debris[0].parts.iter(), &catalog);
    assert!(length(center) < 1e-5);
    decouple(&mut vessel, &catalog, 7, &split, &place);
    assert_eq!(vessel.debris.len(), 1);
    decouple(&mut vessel, &catalog, 4, &split, &place);
    assert_eq!(vessel.debris.len(), 1);
    assert!(separation(&vessel, &catalog, 7).is_none());
}

#[test]
fn a_decoupler_without_mass_does_nothing() {
    let catalog = PartCatalog::default();
    let mut vessel = stock_vessel(&catalog);
    let weightless = |v: &Vessel, p: &Separation| Split { mass: num(0.0), ..split(v, p) };
    decouple(&mut vessel, &catalog, 7, &weightless, &place);
    assert!(vessel.debris.is_empty());
    assert_eq!(vessel.active_ids().len(), 15);
}

#[test]
fn tanks_in_one_liquid_network_drain_proportionally() {
    let catalog = PartCatalog::default();
    let design = craft(
        vec![
            part(1, "pod_1", None, [0.0, 0.0, 0.0]),
            part(2, "tank_short", Some(1), [0.0, -1.0, 0.0]),
            part(3, "tank_long", Some(2), [0.0, -3.0, 0.0]),
            part(4, "engine_sl_s", Some(3), [0.0, -5.0, 0.0]),
        ],
        Vec::new(),
    );
    let mut vessel = Vessel::from_blueprint(&design, &catalog);
    let short_before = value(vessel.parts[1].fuel);
    let long_before = value(vessel.parts[2].fuel);
    let network = liquid_fuel_network(&vessel, &catalog, 4);

    let drained =
        drain_liquid_fuel_network(&mut vessel, &catalog, &network, num(100.0), total, rest);

    assert_eq!(value(drained), 100.0);
    let short = (short_before - value(vessel.parts[1].fuel)) / short_before;
    let long = (long_before - value(vessel.parts[2].fuel)) / long_before;
    assert!((short - long).abs() < 1e-12);
}

#[test]
fn a_drain_takes_what_there_is_and_an_empty_network_gives_nothing() {
    let catalog = PartCatalog::default();
    let mut vessel = stock_vessel(&catalog);
    let network = liquid_fuel_network(&vessel, &catalog, 6);
    assert_eq!(
        liquid_fuel_available(&vessel, &catalog, &network),
        vec![num(2_400.0)]
    );
    let drained =
        drain_liquid_fuel_network(&mut vessel, &catalog, &network, num(9_000.0), total, rest);
    assert_eq!(value(drained), 2_400.0);
    assert_eq!(value(find(&vessel, 4).fuel), 0.0);
    assert_eq!(value(find(&vessel, 8).fuel), 6_200.0);
    let again = drain_liquid_fuel_network(&mut vessel, &catalog, &network, num(1.0), total, rest);
    assert_eq!(value(again), 0.0);
    assert_eq!(
        value(drain_monopropellant(&mut vessel, &catalog, num(1.0), total, rest)),
        0.0
    );
}

#[test]
fn monopropellant_drains_from_every_tank() {
    let catalog = PartCatalog::default();
    let design = craft(
        vec![
            part(1, "pod_1", None, [0.0, 0.0, 0.0]),
            part(2, "mono_tank", Some(1), [0.0, -1.0, 0.0]),
            part(3, "mono_tank", Some(1), [0.0, -2.0, 0.0]),
        ],
        Vec::new(),
    );
    let mut vessel = Vessel::from_blueprint(&design, &catalog);
    let taken = drain_monopropellant(&mut vessel, &catalog, num(44.0), total, rest);
    assert_eq!(value(taken), 44.0);
    assert_eq!(value(vessel.parts[1].fuel), 198.0);
    assert_eq!(value(vessel.parts[2].fuel), 198.0);
    let (liquid, solid, mono) = resource_totals(&vessel, &catalog, total);
    assert_eq!((value(liquid), value(solid), value(mono)), (0.0, 0.0, 396.0));
}

#[test]
fn engines_behind_a_decoupler_burn_their_own_propellant() {
    let catalog = PartCatalog::default();
    let design = craft(
        vec![
            part(1, "pod_1", None, [0.0, 0.0, 0.0]),
            part(2, "tank_short", Some(1), [0.0, -1.0, 0.0]),
            part(3, "engine_sl_s", Some(2), [0.0, -2.0, 0.0]),
            part(4, "decoupler_radial", Some(2), [2.0, -1.0, 0.0]),
            part(5, "tank_long", Some(4), [3.0, -1.0, 0.0]),
            part(6, "engine_sl_s", Some(5), [3.0, -3.0, 0.0]),
        ],
        Vec::new(),
    );
    let mut vessel = Vessel::from_blueprint(&design, &catalog);
    vessel.parts[1].fuel = num(0.0);
    vessel.parts[2].active = true;
    vessel.parts[5].active = true;
    vessel.controls.throttle = num(1.0);
    let booster_fuel_before = value(vessel.parts[4].fuel);
    let pressure_fraction = (-5.0f64 / 8_500.0).exp();
    let (vacuum, sea_level, isp_vacuum, isp_sea_level) =
        match catalog.get("engine_sl_s").unwrap().module {
            PartModule::LiquidEngine {
                thrust_vac,
                thrust_sl,
                isp_vac,
                isp_sl,
                ..
            } => (
                f64::from(thrust_vac),
                f64::from(thrust_sl),
                f64::from(isp_vac),
                f64::from(isp_sl),
            ),
            _ => unreachable!(),
        };
    let expected_thrust = vacuum + (sea_level - vacuum) * pressure_fraction;

    let thrust = vacuum + (sea_level - vacuum) * pressure_fraction;
    let isp = isp_vacuum + (isp_sea_level - isp_vacuum) * pressure_fraction;
    let request = thrust / (isp * G0) / 60.0;
    let mut applied = 0.0;
    let groups = engine_networks(&vessel, &catalog, false);
    assert_eq!(groups.len(), 2);
    for group in &groups {
        let wanted = request * group.engines.len() as f64;
        let drained = drain_liquid_fuel_network(
            &mut vessel,
            &catalog,
            &group.members,
            num(wanted),
            total,
            rest,
        );
        applied += thrust * group.engines.len() as f64 * (value(drained) / wanted).clamp(0.0, 1.0);
    }

    assert!((applied - expected_thrust).abs() < 1e-9);
    assert_eq!(value(vessel.parts[1].fuel), 0.0);
    assert!(value(vessel.parts[4].fuel) < booster_fuel_before);
}

#[test]
fn engines_on_one_network_form_one_group() {
    let catalog = PartCatalog::default();
    let design = craft(
        vec![
            part(4, "engine_sl_s", Some(7), [0.0, 0.0, 0.0]),
            part(7, "tank_long", None, [0.0, 0.0, 0.0]),
            part(9, "engine_vac", Some(7), [0.0, 0.0, 0.0]),
            part(5, "decoupler_s", Some(7), [0.0, 0.0, 0.0]),
            part(2, "engine_vac", Some(5), [0.0, 0.0, 0.0]),
        ],
        Vec::new(),
    );
    let mut vessel = Vessel::from_blueprint(&design, &catalog);
    for place in [0, 2, 4] {
        vessel.parts[place].active = true;
    }
    let groups = engine_networks(&vessel, &catalog, true);
    assert_eq!(groups.len(), 2);
    assert_eq!(groups[0].network_id, 2);
    assert_eq!(groups[0].engines, vec![4]);
    assert_eq!(groups[1].network_id, 4);
    assert_eq!(groups[1].engines, vec![0, 2]);
    let members: Vec<u64> = groups[1].members.iter().copied().collect();
    assert_eq!(members, vec![4, 7, 9]);
    let missing = liquid_fuel_network(&vessel, &catalog, 5);
    assert!(missing.is_empty());
}

#[test]
fn a_decoupler_keeps_stock_networks_apart() {
    let catalog = PartCatalog::default();
    let vessel = stock_vessel(&catalog);
    let upper: Vec<u64> = liquid_fuel_network(&vessel, &catalog, 6).into_iter().collect();
    assert_eq!(upper, vec![1, 2, 3, 4, 5, 6]);
    let lower: Vec<u64> = liquid_fuel_network(&vessel, &catalog, 9).into_iter().collect();
    assert_eq!(lower, vec![8, 9, 14, 15]);
    let booster: Vec<u64> = descendants(&vessel, 10).into_iter().collect();
    assert_eq!(booster, vec![10, 11]);
}

#[test]
fn solids_burn_down_and_go_out() {
    let catalog = PartCatalog::default();
    let mut vessel = stock_vessel(&catalog);
    assert!(solid_engines(&vessel, &catalog).is_empty());
    next_stage(&mut vessel, &catalog);
    assert_eq!(solid_engines(&vessel, &catalog), vec![10, 12]);
    assert_eq!(rated_solid_engines(&vessel, &catalog), vec![10, 12]);
    vessel.parts[12].fuel = num(1.0);
    burn_solid_engines(&mut vessel, &catalog, |fuel, thrust, isp| {
        assert_eq!((thrust, isp), (110_000, 235));
        num((value(fuel) - 1.0).max(0.0))
    });
    assert_eq!(value(vessel.parts[10].fuel), 3_299.0);
    assert!(vessel.parts[10].active);
    assert_eq!(value(vessel.parts[12].fuel), 0.0);
    assert!(!vessel.parts[12].active);
    burn_down(&mut vessel, 11, num(-2.0));
    assert_eq!(value(vessel.parts[10].fuel), 0.0);
    assert!(!vessel.parts[10].active);
    assert!(solid_engines(&vessel, &catalog).is_empty());
}

#[test]
fn suborbital_landing_is_not_guided_mission_recovery() {
    let catalog = PartCatalog::default();
    let mut vessel = stock_vessel(&catalog);
    let mut progress = MissionProgress::default();
    let mut data = FlightTelemetry {
        altitude: num(100.0),
        ..Default::default()
    };

    update_mission(&mut progress, &vessel, &data);
    vessel.situation = FlightSituation::Landed;
    data.altitude = num(5.0);
    update_mission(&mut progress, &vessel, &data);

    assert!(progress.launched);
    assert!(!progress.achieved_orbit);
    assert!(!progress.began_reentry);
    assert!(!progress.recovered);
}

#[test]
fn orbital_reentry_latches_guided_mission_recovery_on_landing() {
    let catalog = PartCatalog::default();
    let mut vessel = stock_vessel(&catalog);
    let mut progress = MissionProgress::default();
    next_stage(&mut vessel, &catalog);
    next_stage(&mut vessel, &catalog);
    let mut data = FlightTelemetry {
        altitude: num(80_000.0),
        orbit: OrbitalElements {
            periapsis: num(75_000.0),
            ..Default::default()
        },
        ..Default::default()
    };

    update_mission(&mut progress, &vessel, &data);
    vessel.situation = FlightSituation::Landed;
    data.altitude = num(5.0);
    update_mission(&mut progress, &vessel, &data);

    assert!(progress.launched);
    assert!(progress.staged);
    assert!(progress.achieved_orbit);
    assert!(progress.began_reentry);
    assert!(progress.recovered);
}

#[test]
fn crash_does_not_complete_guided_mission_recovery() {
    let catalog = PartCatalog::default();
    let mut vessel = stock_vessel(&catalog);
    vessel.situation = FlightSituation::Crashed;
    let mut progress = MissionProgress {
        launched: true,
        staged: true,
        achieved_orbit: true,
        began_reentry: true,
        recovered: false,
    };
    let data = FlightTelemetry {
        altitude: num(5.0),
        ..Default::default()
    };

    update_mission(&mut progress, &vessel, &data);

    assert!(!progress.recovered);
}

#[test]
fn heat_breaks_parts_with_what_hangs_on_them() {
    let catalog = PartCatalog::default();
    let mut vessel = stock_vessel(&catalog);
    vessel.parts[0].active = true;
    // The long tank gets too hot, and with it goes all below it.
    vessel.parts[7].temperature = num(1_501.0);
    heat_parts(
        &mut vessel,
        &catalog,
        num(30.0),
        &|temperature, covered, _| if covered { temperature } else { num(value(temperature) + 1.0) },
        &|ablator, temperature, rate| {
            (num(value(ablator) - value(rate) / 30.0), num(value(temperature) - 500.0))
        },
    );
    let alive: Vec<u64> = vessel.active_ids().into_iter().collect();
    assert_eq!(alive, vec![1, 2, 3, 4, 5, 6, 7]);
    assert_eq!(value(vessel.max_heating), 30.0);
    assert_eq!(value(vessel.parts[2].ablator), 239.0);
    assert_eq!(value(vessel.parts[2].temperature), 290.0);
    assert_eq!(value(vessel.parts[0].temperature), 290.0);
    assert!(vessel.parts[0].active);
}

#[test]
fn weak_heating_spares_the_shield() {
    let catalog = PartCatalog::default();
    let mut vessel = stock_vessel(&catalog);
    heat_parts(
        &mut vessel,
        &catalog,
        num(25.0),
        &|temperature, _, rate| num(value(temperature) + value(rate) / 25.0),
        &|_, _, _| panic!("no ablation below the threshold"),
    );
    assert_eq!(value(vessel.parts[2].ablator), 240.0);
    assert_eq!(value(vessel.parts[2].temperature), 291.0);
}

#[test]
fn situations_follow_the_end_of_a_step() {
    let catalog = PartCatalog::default();
    let home = body_definition("carapace");
    let settled = |before: FlightSituation, altitude: f64, held, survivable, periapsis: f64| {
        let mut vessel = stock_vessel(&catalog);
        vessel.situation = before;
        settle(
            &mut vessel,
            &catalog,
            &home,
            num(altitude),
            held,
            survivable,
            num(periapsis),
        );
        vessel.situation
    };
    assert_eq!(settled(FlightSituation::Prelaunch, 5.0, true, true, -600_000.0), FlightSituation::Flying);
    assert_eq!(settled(FlightSituation::Prelaunch, 6.0, false, true, -600_000.0), FlightSituation::Flying);
    assert_eq!(settled(FlightSituation::Flying, 5.0, true, true, -600_000.0), FlightSituation::Landed);
    assert_eq!(settled(FlightSituation::Flying, 4.0, true, false, -600_000.0), FlightSituation::Crashed);
    assert_eq!(settled(FlightSituation::Landed, 5.1, false, true, -600_000.0), FlightSituation::Flying);
    assert_eq!(settled(FlightSituation::Flying, 80_000.0, false, true, 70_001.0), FlightSituation::Orbiting);
    assert_eq!(settled(FlightSituation::Orbiting, 80_000.0, false, true, 70_000.0), FlightSituation::Flying);
    let mut headless = stock_vessel(&catalog);
    headless.parts[0].destroyed = true;
    headless.situation = FlightSituation::Flying;
    settle(
        &mut headless,
        &catalog,
        &home,
        num(9_000.0),
        false,
        true,
        num(-1.0),
    );
    assert_eq!(headless.situation, FlightSituation::Crashed);
}

#[test]
fn parachutes_tear_when_fast_in_thick_air() {
    assert!(parachute_holds(280, num(280.0), num(1.0)));
    assert!(!parachute_holds(280, num(280.5), num(0.02)));
    assert!(parachute_holds(280, num(900.0), num(0.019)));
    let catalog = PartCatalog::default();
    let mut vessel = stock_vessel(&catalog);
    tear_parachute(&mut vessel, 2);
    assert!(find(&vessel, 2).destroyed);
    assert_eq!(vessel.active_ids().len(), 14);
    deploy_all(&mut vessel, &catalog);
    assert!(find(&vessel, 2).parachute_deployed);
    assert!(!find(&vessel, 1).parachute_deployed);
}

#[test]
fn autopilot_headings() {
    assert_eq!(sas_heading(Some(SasMode::Prograde), num(1.5)), Heading::Prograde);
    assert_eq!(sas_heading(Some(SasMode::Prograde), num(1.0)), Heading::Ahead);
    assert_eq!(sas_heading(Some(SasMode::Retrograde), num(4.0)), Heading::Retrograde);
    assert_eq!(sas_heading(Some(SasMode::RadialIn), num(0.0)), Heading::RadialIn);
    assert_eq!(sas_heading(Some(SasMode::RadialOut), num(0.0)), Heading::RadialOut);
    assert_eq!(sas_heading(Some(SasMode::Normal), num(0.0)), Heading::Normal);
    assert_eq!(sas_heading(Some(SasMode::AntiNormal), num(0.0)), Heading::AntiNormal);
    assert_eq!(sas_heading(Some(SasMode::Maneuver), num(9.0)), Heading::Ahead);
    assert_eq!(sas_heading(None, num(9.0)), Heading::Ahead);
    assert!(sas_steers(Some(SasMode::Stability), num(0.0)));
    assert!(!sas_steers(Some(SasMode::Stability), num(1.0e-4)));
    assert!(!sas_steers(None, num(0.0)));
    assert!(rcs_is_fed(true, num(1.0)));
    assert!(!rcs_is_fed(true, num(1.0e-6)));
    assert!(!rcs_is_fed(false, num(1.0)));
}

#[test]
fn roles_of_parts() {
    assert_eq!(
        part_role(PartModule::ReactionWheel { torque: 5 }, false, false),
        PartRole::Steering { torque: 5 }
    );
    let chute = PartModule::Parachute {
        drag_area: 45,
        safe_speed: 700,
    };
    assert_eq!(part_role(chute, false, true), PartRole::Passive);
    assert_eq!(
        part_role(chute, true, false),
        PartRole::OpenParachute {
            drag_area: 45,
            safe_speed: 700
        }
    );
    let thruster = PartModule::Rcs { thrust: 2, isp: 3 };
    assert_eq!(part_role(thruster, false, false), PartRole::Passive);
    assert_eq!(
        part_role(thruster, false, true),
        PartRole::Thruster { thrust: 2, isp: 3 }
    );
}

#[test]
fn neighbors_legs_and_live_parts() {
    let catalog = PartCatalog::default();
    let design = craft(
        vec![
            part(1, "pod_1", None, [0.0, 0.0, 0.0]),
            part(2, "tank_short", Some(1), [0.0, -1.0, 0.0]),
            part(3, "landing_leg", Some(2), [1.0, -1.0, 0.0]),
            part(4, "engine_vac", Some(2), [0.0, -2.0, 0.0]),
            part(5, "landing_leg", Some(2), [-1.0, -1.0, 0.0]),
        ],
        Vec::new(),
    );
    let mut vessel = Vessel::from_blueprint(&design, &catalog);
    assert_eq!(inline_neighbors(&vessel, &catalog, &vessel.parts[1]), vec![0, 3]);
    assert_eq!(leg_count(&vessel, &catalog), 2);
    vessel.parts[0].destroyed = true;
    vessel.parts[4].destroyed = true;
    assert_eq!(inline_neighbors(&vessel, &catalog, &vessel.parts[1]), vec![3]);
    assert_eq!(leg_count(&vessel, &catalog), 1);
    assert_eq!(live_parts(&vessel, &catalog), vec![1, 2, 3]);
}

#[test]
fn the_clock_speeds_up_and_slows_down() {
    let mut clock = SimulationClock::default();
    clock.slower();
    assert_eq!(clock.rate(), 1);
    for _ in 0..9 {
        clock.faster();
    }
    assert_eq!(clock.warp_index, 7);
    assert_eq!(clock.rate(), 100_000);
    assert!(!clock.steps_physics());
    clock.limit_to_physics();
    assert_eq!(clock.rate(), 4);
    assert!(clock.steps_physics());
    let rates: Vec<u32> = (0..9).map(SimulationClock::warp_rate).collect();
    assert_eq!(
        rates,
        vec![1, 2, 4, 10, 100, 1_000, 10_000, 100_000, 100_000]
    );
    let mut distances = [num(0.0); 8];
    for (i, distance) in distances.iter_mut().enumerate() {
        *distance = num((f64::from(SimulationClock::warp_rate(i)) - 3.0).abs());
    }
    clock.nearest(&distances);
    assert_eq!(clock.warp_index, 1);
}

#[test]
fn the_clock_slows_for_throttle_danger_and_maneuvers() {
    let limited = |throttle: f64, safe, until: Option<f64>| {
        let mut clock = SimulationClock {
            warp_index: 6,
            ..SimulationClock::default()
        };
        clock.limit_for_flight(num(throttle), safe, until.map(num));
        clock.warp_index
    };
    assert_eq!(limited(0.0, true, None), 6);
    assert_eq!(limited(0.001, true, None), 6);
    assert_eq!(limited(0.002, true, None), 2);
    assert_eq!(limited(0.0, false, None), 2);
    assert_eq!(limited(0.0, true, Some(30.0)), 6);
    assert_eq!(limited(0.0, true, Some(29.0)), 0);
    assert_eq!(limited(0.0, true, Some(-5.0)), 0);
}

#[test]
fn scripts_command_levers_stages_and_maneuvers() {
    let catalog = PartCatalog::default();
    let mut vessel = stock_vessel(&catalog);
    let commands = ScriptCommands {
        throttle: Some(num(0.5)),
        sas: Some(None),
        rcs: Some(true),
        stage: true,
        maneuver: Some((num(10.0), num(1.0), num(2.0), num(3.0))),
        ..ScriptCommands::default()
    };
    assert!(apply_commands(&mut vessel, &catalog, &commands, &split, &place));
    assert_eq!(value(vessel.controls.throttle), 0.5);
    assert_eq!(vessel.controls.sas, None);
    assert!(vessel.controls.rcs);
    assert_eq!(vessel.next_stage, 1);
    assert_eq!(value(vessel.maneuver.unwrap().radial), 3.0);
    let nothing = ScriptCommands::default();
    assert!(!apply_commands(&mut vessel, &catalog, &nothing, &split, &place));
    assert_eq!(value(vessel.controls.throttle), 0.5);
    let chutes = ScriptCommands {
        deploy_parachutes: true,
        ..ScriptCommands::default()
    };
    assert!(apply_commands(&mut vessel, &catalog, &chutes, &split, &place));
    assert!(find(&vessel, 2).parachute_deployed);
}

fn no_keys() -> PilotInput {
    PilotInput {
        pitch_down: false,
        pitch_up: false,
        yaw_right: false,
        yaw_left: false,
        roll_right: false,
        roll_left: false,
        throttle: None,
        full_throttle: false,
        cut_throttle: false,
        toggle_sas: false,
        toggle_rcs: false,
    }
}

#[test]
fn keys_move_the_levers() {
    assert_eq!(value(axis(false, false)), 0.0);
    assert_eq!(value(axis(true, false)), -1.0);
    assert_eq!(value(axis(false, true)), 1.0);
    assert_eq!(value(axis(true, true)), 0.0);
    let mut controls = FlightControls::default();
    let free = LatchedAxes::default();
    let keys = PilotInput {
        pitch_up: true,
        yaw_right: true,
        throttle: Some(num(1.7)),
        toggle_sas: true,
        toggle_rcs: true,
        ..no_keys()
    };
    pilot(&mut controls, &keys, &free);
    assert_eq!(value(controls.pitch), 1.0);
    assert_eq!(value(controls.yaw), -1.0);
    assert_eq!(value(controls.throttle), 1.0);
    assert_eq!(controls.sas, None);
    assert!(controls.rcs);
    let cut = PilotInput {
        full_throttle: true,
        cut_throttle: true,
        toggle_sas: true,
        ..no_keys()
    };
    pilot(&mut controls, &cut, &free);
    assert_eq!(value(controls.throttle), 0.0);
    assert_eq!(controls.sas, Some(SasMode::Stability));
    assert_eq!(value(controls.pitch), 0.0);
    assert_eq!(next_camera(0), 1);
    assert_eq!(next_camera(2), 0);
}

#[test]
fn latched_levers_hold_until_released() {
    let mut controls = FlightControls::default();
    let mut latched = LatchedAxes::default();
    let request = ControlRequest {
        throttle: Some(num(0.8)),
        pitch: Some(num(0.25)),
        yaw: None,
        roll: None,
    };
    set_flight_controls(&mut controls, &mut latched, &request).unwrap();
    pilot(&mut controls, &PilotInput { pitch_down: true, yaw_left: true, ..no_keys() }, &latched);
    assert_eq!(value(controls.pitch), 0.25);
    assert_eq!(value(controls.yaw), 1.0);
    assert_eq!(value(controls.throttle), 0.8);
    let wrong = ControlRequest {
        throttle: None,
        pitch: Some(num(0.5)),
        yaw: None,
        roll: Some(num(-1.5)),
    };
    assert_eq!(
        set_flight_controls(&mut controls, &mut latched, &wrong).unwrap_err(),
        "roll is outside its valid range"
    );
    assert_eq!(latched.pitch, Some(num(0.25)));
    latched.release(ReleaseEvent::LeftFlight);
    pilot(&mut controls, &no_keys(), &latched);
    assert_eq!(value(controls.pitch), 0.0);
    assert_eq!(value(controls.throttle), 0.8);
    for (request, text) in [
        (ControlRequest { throttle: Some(num(f64::NAN)), ..wrong }, "throttle is outside its valid range"),
        (ControlRequest { pitch: Some(num(2.0)), ..wrong }, "pitch is outside its valid range"),
        (ControlRequest { yaw: Some(num(-2.0)), ..wrong }, "yaw is outside its valid range"),
    ] {
        assert_eq!(
            set_flight_controls(&mut controls, &mut latched, &request).unwrap_err(),
            text
        );
    }
}

#[test]
fn news_after_a_step() {
    let mut mission = MissionProgress::default();
    assert_eq!(flight_notice(FlightSituation::Flying, &mission), None);
    assert!(flight_notice(FlightSituation::Crashed, &mission)
        .unwrap()
        .starts_with("Mission failed"));
    mission.recovered = true;
    assert_eq!(
        flight_notice(FlightSituation::Crashed, &mission),
        Some("Mission complete — recovered safely on Carapace!")
    );
}

#[test]
fn a_burn_ends_with_the_first_dry_engine() {
    let lasts = |times: &[f64]| burn_duration(&times.iter().copied().map(num).collect());
    assert_eq!(lasts(&[30.0, 12.5, 70.0]), Some(num(12.5)));
    assert_eq!(lasts(&[30.0, f64::NAN]), Some(num(30.0)));
    assert_eq!(lasts(&[30.0, 0.0]), None);
    assert_eq!(lasts(&[f64::INFINITY]), None);
    assert_eq!(lasts(&[]), None);
}

fn quiet_motion(vessel: &Vessel) -> Motion {
    Motion {
        thrust: num(7.0),
        mass: num(1.0),
        density: num(1.0),
        air_speeds: Vec::new(),
        monopropellant: None,
        heat_rate: num(0.0),
        position: vessel.position,
        velocity: vessel.velocity,
        attitude: [num(0.0), num(1.0), num(0.0), num(0.0)],
        angular_velocity: [num(1.0), num(2.0), num(3.0)],
    }
}

#[test]
fn a_step_goes_through_all_its_phases() {
    let catalog = PartCatalog::default();
    let mut vessel = stock_vessel(&catalog);
    next_stage(&mut vessel, &catalog);
    next_stage(&mut vessel, &catalog);
    for part in &mut vessel.parts {
        part.parachute_deployed = part.instance.instance_id == 2;
    }
    vessel.parts[6].temperature = num(5_000.0);
    let shed = vessel.debris.len();
    let mechanics = Mechanics {
        request: |_: &Vessel, group: &EngineGroup| num(10.0 * group.engines.len() as f64),
        solid_left: |_: Real, _: u32, _: u32| panic!("the boosters are gone"),
        total,
        rest,
        motion: |before: &Vessel, burnt: &Vessel, burns: &Vec<GroupBurn>| {
            assert_eq!(burns.len(), 1);
            assert_eq!(burns[0].group.engines, vec![8]);
            assert_eq!(burns[0].drained, num(10.0));
            assert_eq!(find(before, 8).fuel, num(6_200.0));
            assert_eq!(find(burnt, 8).fuel, num(6_190.0));
            Motion {
                air_speeds: vec![num(281.0); before.parts.len()],
                heat_rate: num(3.0),
                ..quiet_motion(before)
            }
        },
        warm: |temperature: Real, _: bool, _: Real| temperature,
        ablate: |_: Real, _: Real, _: Real| panic!("too cold for that"),
        arrive: |vessel: &Vessel, motion: &Motion| {
            assert!(find(vessel, 2).destroyed && find(vessel, 8).destroyed);
            Arrival {
                altitude: num(90_000.0),
                periapsis: num(80_000.0),
                held: false,
                survivable: true,
                position: [num(1.0), num(2.0), num(3.0)],
                velocity: motion.velocity,
            }
        },
        drift: |stage: &DetachedStage| Drifted {
            position: [num(9.0); 3],
            velocity: stage.velocity,
            attitude: stage.attitude,
        },
        reach: |vessel: &Vessel| {
            assert_eq!(vessel.situation, FlightSituation::Orbiting);
            assert_eq!(vessel.debris[0].position, [num(9.0); 3]);
            Reach {
                released: false,
                captured: vec![true],
            }
        },
        frame: |_: &Vessel, to: &CelestialBodyDef| {
            assert_eq!(to.id, "selene");
            Frame {
                position: [num(4.0); 3],
                velocity: [num(5.0); 3],
            }
        },
    };
    let thrust = step_vessel(&mut vessel, &catalog, &mechanics);
    assert_eq!(thrust, num(7.0));
    assert_eq!(vessel.primary_body, "selene");
    assert_eq!(vessel.position, [num(4.0); 3]);
    assert_eq!(vessel.angular_velocity, [num(1.0), num(2.0), num(3.0)]);
    assert_eq!(vessel.debris.len(), shed);
    assert_eq!(value(vessel.max_heating), 3.0);
    assert_eq!(vessel.next_stage, 2);
    let alive: Vec<u64> = vessel.active_ids().into_iter().collect();
    assert_eq!(alive, vec![1, 3, 4, 5, 6]);
}

#[test]
fn a_crashed_vessel_stays_where_it_is() {
    let catalog = PartCatalog::default();
    let mut vessel = stock_vessel(&catalog);
    vessel.situation = FlightSituation::Crashed;
    let position = vessel.position;
    let mechanics = Mechanics {
        request: |_: &Vessel, _: &EngineGroup| num(1.0),
        solid_left: |fuel: Real, _: u32, _: u32| fuel,
        total,
        rest,
        motion: |before: &Vessel, _: &Vessel, _: &Vec<GroupBurn>| quiet_motion(before),
        warm: |temperature: Real, _: bool, _: Real| temperature,
        ablate: |ablator: Real, temperature: Real, _: Real| (ablator, temperature),
        arrive: |_: &Vessel, _: &Motion| panic!("it goes nowhere"),
        drift: |_: &DetachedStage| panic!("nothing drifts"),
        reach: |_: &Vessel| Reach {
            released: false,
            captured: Vec::new(),
        },
        frame: |_: &Vessel, _: &CelestialBodyDef| panic!("it stays"),
    };
    let thrust = step_vessel(&mut vessel, &catalog, &mechanics);
    assert_eq!(thrust, num(0.0));
    assert_eq!(vessel.position, position);
    assert_eq!(vessel.situation, FlightSituation::Crashed);
}

#[test]
fn thrusters_drain_what_they_ask_for() {
    let catalog = PartCatalog::default();
    let design = craft(
        vec![
            part(1, "pod_1", None, [0.0, 0.0, 0.0]),
            part(2, "mono_tank", Some(1), [0.0, -1.0, 0.0]),
        ],
        Vec::new(),
    );
    let mut vessel = Vessel::from_blueprint(&design, &catalog);
    let mechanics = Mechanics {
        request: |_: &Vessel, _: &EngineGroup| panic!("there are no engines"),
        solid_left: |fuel: Real, _: u32, _: u32| fuel,
        total,
        rest,
        motion: |before: &Vessel, _: &Vessel, _: &Vec<GroupBurn>| Motion {
            monopropellant: Some(num(20.0)),
            ..quiet_motion(before)
        },
        warm: |temperature: Real, _: bool, _: Real| temperature,
        ablate: |ablator: Real, temperature: Real, _: Real| (ablator, temperature),
        arrive: |vessel: &Vessel, motion: &Motion| Arrival {
            altitude: num(5.0),
            periapsis: num(-600_000.0),
            held: true,
            survivable: false,
            position: vessel.position,
            velocity: motion.velocity,
        },
        drift: |_: &DetachedStage| panic!("nothing drifts"),
        reach: |_: &Vessel| Reach {
            released: false,
            captured: Vec::new(),
        },
        frame: |_: &Vessel, _: &CelestialBodyDef| panic!("it stays"),
    };
    step_vessel(&mut vessel, &catalog, &mechanics);
    assert_eq!(value(vessel.parts[1].fuel), 200.0);
    assert_eq!(vessel.situation, FlightSituation::Flying);
    step_vessel(&mut vessel, &catalog, &mechanics);
    assert_eq!(vessel.situation, FlightSituation::Crashed);
}

#[test]
fn parachutes_are_judged_one_by_one() {
    let catalog = PartCatalog::default();
    let design = craft(
        vec![
            part(1, "pod_1", None, [0.0, 0.0, 0.0]),
            part(2, "parachute", Some(1), [0.0, 1.0, 0.0]),
            part(3, "drogue", Some(1), [1.0, 1.0, 0.0]),
            part(4, "parachute", Some(1), [2.0, 1.0, 0.0]),
            part(5, "parachute", Some(1), [3.0, 1.0, 0.0]),
        ],
        Vec::new(),
    );
    let mut vessel = Vessel::from_blueprint(&design, &catalog);
    for place in [1, 2, 4] {
        vessel.parts[place].parachute_deployed = true;
    }
    let mechanics = Mechanics {
        request: |_: &Vessel, _: &EngineGroup| panic!("there are no engines"),
        solid_left: |fuel: Real, _: u32, _: u32| fuel,
        total,
        rest,
        motion: |before: &Vessel, _: &Vessel, _: &Vec<GroupBurn>| Motion {
            air_speeds: [900.0, 300.0, 300.0, 300.0, 280.0].map(num).to_vec(),
            ..quiet_motion(before)
        },
        warm: |temperature: Real, _: bool, _: Real| temperature,
        ablate: |ablator: Real, temperature: Real, _: Real| (ablator, temperature),
        arrive: |vessel: &Vessel, motion: &Motion| Arrival {
            altitude: num(9_000.0),
            periapsis: num(-600_000.0),
            held: false,
            survivable: true,
            position: vessel.position,
            velocity: motion.velocity,
        },
        drift: |_: &DetachedStage| panic!("nothing drifts"),
        reach: |_: &Vessel| Reach {
            released: true,
            captured: vec![false],
        },
        frame: |_: &Vessel, to: &CelestialBodyDef| {
            assert_eq!(to.id, "pelagos");
            Frame {
                position: [num(1.0); 3],
                velocity: [num(2.0); 3],
            }
        },
    };
    let before: Vec<Real> = vessel.parts.iter().map(|part| part.fuel).collect();
    step_vessel(&mut vessel, &catalog, &mechanics);
    let torn: Vec<bool> = vessel.parts.iter().map(|part| part.destroyed).collect();
    assert_eq!(torn, vec![false, true, false, false, false]);
    assert_eq!(vessel.primary_body, "pelagos");
    for (part, fuel) in vessel.parts.iter().zip(before) {
        assert!(value(part.fuel) <= value(fuel));
    }
}

#[test]
fn bodies_hand_over_to_neighbours_alone() {
    let catalog = PartCatalog::default();
    let place = Frame {
        position: [num(7.0); 3],
        velocity: [num(8.0); 3],
    };
    let go = |from: &str, released: bool, captured: &[bool]| {
        let mut vessel = stock_vessel(&catalog);
        vessel.primary_body = from.into();
        let start = vessel.position;
        apply_soi_transitions(
            &mut vessel,
            &|_: &Vessel| Reach {
                released,
                captured: captured.to_vec(),
            },
            &|_: &Vessel, _: &CelestialBodyDef| place,
        );
        if vessel.primary_body == from {
            assert_eq!(vessel.position, start);
        } else {
            assert_eq!(vessel.position, place.position);
            assert_eq!(vessel.velocity, place.velocity);
        }
        vessel.primary_body
    };
    assert_eq!(go("carapace", false, &[false]), "carapace");
    assert_eq!(go("carapace", false, &[true]), "selene");
    assert_eq!(go("carapace", true, &[true]), "pelagos");
    assert_eq!(go("selene", true, &[]), "carapace");
    assert_eq!(go("pelagos", true, &[false, true]), "ferrum");
    assert_eq!(go("pelagos", false, &[true, true]), "carapace");
    assert_eq!(go("ferrum", false, &[true]), "ferrum");
}

#[test]
fn a_vessel_without_command_has_crashed() {
    let catalog = PartCatalog::default();
    let mut vessel = stock_vessel(&catalog);
    for part in &mut vessel.parts {
        part.destroyed = part.instance.definition_id == "pod_1";
    }
    let mechanics = Mechanics {
        request: |_: &Vessel, _: &EngineGroup| num(0.0),
        solid_left: |fuel: Real, _: u32, _: u32| fuel,
        total,
        rest,
        motion: |before: &Vessel, _: &Vessel, _: &Vec<GroupBurn>| quiet_motion(before),
        warm: |temperature: Real, _: bool, _: Real| temperature,
        ablate: |ablator: Real, temperature: Real, _: Real| (ablator, temperature),
        arrive: |vessel: &Vessel, motion: &Motion| Arrival {
            altitude: num(90_000.0),
            periapsis: num(80_000.0),
            held: false,
            survivable: true,
            position: vessel.position,
            velocity: motion.velocity,
        },
        drift: |_: &DetachedStage| panic!("nothing drifts"),
        reach: |_: &Vessel| Reach {
            released: false,
            captured: Vec::new(),
        },
        frame: |_: &Vessel, _: &CelestialBodyDef| panic!("it stays"),
    };
    step_vessel(&mut vessel, &catalog, &mechanics);
    assert_eq!(vessel.situation, FlightSituation::Crashed);
}

#[test]
fn ticks_are_planned_by_the_clock() {
    let plan = |warp_index: usize, paused: bool| {
        SimulationClock {
            warp_index,
            paused,
            ..SimulationClock::default()
        }
        .plan()
    };
    assert_eq!(plan(0, false), TickPlan::Steps(1));
    assert_eq!(plan(2, false), TickPlan::Steps(4));
    assert_eq!(plan(3, false), TickPlan::Coast(10));
    assert_eq!(plan(7, false), TickPlan::Coast(100_000));
    assert_eq!(plan(0, true), TickPlan::Idle);
    assert_eq!(plan(5, true), TickPlan::Idle);
    let mut clock = SimulationClock::default();
    clock.toggle_pause();
    assert_eq!(clock.plan(), TickPlan::Idle);
    clock.toggle_pause();
    assert_eq!(clock, SimulationClock::default());
}

#[test]
fn assist_and_thrusters_switch() {
    let mut controls = FlightControls::default();
    controls.sas = Some(SasMode::Prograde);
    controls.rcs = false;
    controls.pitch = num(0.5);
    toggle_sas(&mut controls);
    assert_eq!(controls.sas, None);
    toggle_sas(&mut controls);
    assert_eq!(controls.sas, Some(SasMode::Stability));
    toggle_rcs(&mut controls);
    assert!(controls.rcs);
    toggle_rcs(&mut controls);
    assert!(!controls.rcs);
    assert_eq!(controls.pitch, num(0.5));
}

/// A burn that empties the first lit engine or tank with fuel left, for a gain of its fuel.
fn empty_first(vessel: &Vessel) -> (Vessel, Option<Real>) {
    let mut burned = vessel.clone();
    for part in &mut burned.parts {
        if part.active && value(part.fuel) > 0.0 {
            let gain = part.fuel;
            part.fuel = num(0.0);
            return (burned, Some(gain));
        }
    }
    (burned, None)
}

fn booster_craft(stages: Vec<Stage>) -> CraftBlueprint {
    let part = |id: u64, kind: &str, parent: Option<u64>| PartInstance {
        instance_id: id,
        definition_id: kind.into(),
        parent,
        local_position: [single(0.0); 3],
        local_rotation: [single(0.0), single(0.0), single(0.0), single(1.0)],
    };
    CraftBlueprint {
        parts: vec![
            part(1, "pod_1", None),
            part(2, "solid_stack", Some(1)),
            part(3, "solid_stack", Some(1)),
        ],
        stages,
        ..stock_craft()
    }
}

#[test]
fn burns_count_stage_by_stage_and_to_the_end() {
    let catalog = PartCatalog::default();
    let solid = match catalog.get("solid_stack").unwrap().module {
        PartModule::SolidEngine { fuel, .. } => f64::from(fuel),
        _ => panic!("a solid engine"),
    };
    let delta_v = |stages: Vec<Stage>| {
        value(staged_vacuum_delta_v(
            &booster_craft(stages),
            &catalog,
            &split,
            &place,
            &empty_first,
            &|sum: Real, gain: Real| num(value(sum) + value(gain)),
        ))
    };
    let stage = |actions: Vec<StageAction>| Stage {
        name: "s".into(),
        actions,
    };
    // No stage lights an engine: all are lit.
    assert_eq!(delta_v(Vec::new()), 2.0 * solid);
    // Only one engine is ever lit, and a stage without a gain counts for nothing.
    assert_eq!(
        delta_v(vec![
            stage(Vec::new()),
            stage(vec![StageAction::ActivateEngine(3)]),
        ]),
        solid
    );
    // Both are lit by one stage: one burn after it, the other at the end.
    assert_eq!(
        delta_v(vec![stage(vec![
            StageAction::ActivateEngine(2),
            StageAction::ActivateEngine(3),
        ])]),
        2.0 * solid
    );
}

/// A burn with ratings for rates, and a gain that tells thrust, flow and masses.
fn rated_burn(vessel: &mut Vessel) -> Option<Real> {
    let catalog = PartCatalog::default();
    let propulsion = Propulsion {
        rates: |thrust: u32, isp: u32| {
            (num(f64::from(thrust)), num(f64::from(thrust) / f64::from(isp)))
        },
        total,
        lasting: |amount: Real, flow: Real| num(value(amount) / value(flow)),
        used: |flow: Real, duration: Real| num(value(flow) * value(duration)),
        rest,
        left: |fuel: Real, used: Real| num(value(fuel) - value(used)),
        mass: |vessel: &Vessel| num(vessel.parts.iter().map(|part| value(part.fuel)).sum()),
        gain: |thrust: Real, flow: Real, heavy: Real, light: Real| {
            num(value(thrust) / value(flow) * (value(heavy) - value(light)))
        },
    };
    burn_vacuum_interval(vessel, &catalog, &propulsion)
}

#[test]
fn a_burn_lasts_until_the_first_engine_is_dry() {
    let catalog = PartCatalog::default();
    let mut vessel = Vessel::from_blueprint(&booster_craft(Vec::new()), &catalog);
    // Nothing is lit.
    assert_eq!(rated_burn(&mut vessel), None);
    vessel.parts[1].active = true;
    vessel.parts[2].active = true;
    vessel.parts[2].fuel = num(425.0);
    let flow = 55_000.0 / 245.0;
    let lasting: f64 = 425.0 / flow;
    let gain = value(rated_burn(&mut vessel).unwrap());
    assert!((value(vessel.parts[1].fuel) - (1_700.0 - flow * lasting)).abs() < 1e-9);
    assert!(value(vessel.parts[2].fuel) < 1e-9);
    assert!(vessel.parts[1].active);
    assert_eq!(vessel.parts[2].active, value(vessel.parts[2].fuel) > f64::EPSILON);
    assert!((gain - 245.0 * 850.0).abs() < 1e-6);
    // The other burns alone to its end, and with that nothing of the mass is left.
    vessel.parts[2].active = false;
    assert_eq!(rated_burn(&mut vessel), None);
    assert!(value(vessel.parts[1].fuel) < 1e-9);
}

#[test]
fn engines_of_one_network_share_its_tanks_in_a_burn() {
    let catalog = PartCatalog::default();
    let mut vessel = Vessel::from_blueprint(&stock_craft(), &catalog);
    for part in &mut vessel.parts {
        let module = catalog.get(&part.instance.definition_id).unwrap().module;
        part.active = matches!(module, PartModule::LiquidEngine { .. });
    }
    let groups = engine_networks(&vessel, &catalog, true);
    let mut times = Vec::new();
    for group in &groups {
        let held = value(total(liquid_fuel_available(&vessel, &catalog, &group.members)));
        let mut flow = 0.0;
        for &engine in &group.engines {
            let kind = catalog.get(&vessel.parts[engine].instance.definition_id).unwrap();
            if let PartModule::LiquidEngine { thrust_vac, isp_vac, .. } = kind.module {
                flow += f64::from(thrust_vac) / f64::from(isp_vac);
            }
        }
        times.push((held, flow));
    }
    let shortest = times.iter().map(|(held, flow)| held / flow).fold(f64::INFINITY, f64::min);
    assert!(rated_burn(&mut vessel).is_some());
    for (group, (held, flow)) in groups.iter().zip(times) {
        let left = value(total(liquid_fuel_available(&vessel, &catalog, &group.members)));
        assert!((left - (held - flow * shortest)).abs() < 1e-6);
    }
    assert!(groups.len() > 1);
}
