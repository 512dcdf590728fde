use crabby_space::craft::{
    stock_craft, CraftBlueprint, PartInstance, Stage, StageAction, ValidationIssue, MAX_PARTS,
};
use crabby_space::number::Single;
use crabby_space::parts::{part_resource_capacity, PartCatalog, PartCategory, PartModule};
use crabby_space::stats::{craft_totals, first_propulsion_stage, has_engine_actions, ignite_all};
use crabby_space::vessel::{FlightSituation, SasMode, Vessel};

fn single(value: f32) -> Single {
    Single { bits: value.to_bits() }
}

fn part(id: u64, definition_id: &str, parent: Option<u64>) -> PartInstance {
    PartInstance {
        instance_id: id,
        definition_id: definition_id.into(),
        parent,
        local_position: [single(0.0), single(0.0), single(0.0)],
        local_rotation: [single(0.0), single(0.0), single(0.0), single(1.0)],
    }
}

fn craft(parts: Vec<PartInstance>, stages: Vec<Stage>) -> CraftBlueprint {
    CraftBlueprint {
        schema_version: 1,
        name: "Test".into(),
        parts,
        stages,
        crew: Vec::new(),
        script_name: None,
    }
}

fn error(text: &str) -> ValidationIssue {
    ValidationIssue::Error(text.into())
}

fn warning(text: &str) -> ValidationIssue {
    ValidationIssue::Warning(text.into())
}

#[test]
fn stock_craft_is_valid() {
    let issues = stock_craft().validate(&PartCatalog::default());
    assert!(
        !issues
            .iter()
            .any(|issue| matches!(issue, ValidationIssue::Error(_))),
        "{issues:?}"
    );
}

#[test]
fn an_empty_craft_has_one_error() {
    let issues = craft(Vec::new(), Vec::new()).validate(&PartCatalog::default());
    assert_eq!(issues, vec![error("The vehicle has no parts")]);
}

#[test]
fn validation_lists_every_issue_in_order() {
    let mut parts = vec![part(1, "mystery", None), part(2, "nose", None)];
    parts.push(part(3, "gadget", Some(777)));
    while parts.len() <= MAX_PARTS {
        let id = parts.len() as u64 + 1;
        parts.push(part(id, "fin", Some(1)));
    }
    let issues = craft(parts, Vec::new()).validate(&PartCatalog::default());
    assert_eq!(
        issues,
        vec![
            error("Vehicle exceeds the 128-part limit"),
            error("Vehicle must have exactly one root part"),
            error("Unknown part mystery"),
            error("Unknown part gadget"),
            error("Part 3 has a missing parent"),
            error("Add a command pod before launch"),
            warning("This craft has no engine"),
            warning("No parachute is installed"),
        ]
    );
}

#[test]
fn a_lone_pod_has_warnings_alone() {
    let issues = craft(vec![part(1, "pod_1", None)], Vec::new()).validate(&PartCatalog::default());
    assert_eq!(
        issues,
        vec![
            warning("This craft has no engine"),
            warning("No parachute is installed"),
        ]
    );
    let copies = issues.clone();
    assert_eq!(copies, issues);
}

#[test]
fn root_children_and_next_id() {
    let design = craft(
        vec![
            part(5, "tank_short", Some(2)),
            part(2, "pod_1", None),
            part(9, "nose", Some(2)),
        ],
        Vec::new(),
    );
    assert_eq!(design.root(), Some(2));
    assert_eq!(design.next_id(), 10);
    let ids: Vec<u64> = design.children_of(2).iter().map(|p| p.instance_id).collect();
    assert_eq!(ids, vec![5, 9]);
    assert!(design.children_of(9).is_empty());
    let nothing = craft(Vec::new(), Vec::new());
    assert_eq!(nothing.root(), None);
    assert_eq!(nothing.next_id(), 1);
}

#[test]
fn the_stock_craft_has_the_documented_parts_and_stages() {
    let design = stock_craft();
    assert_eq!(design.name, "Crabitat Pathfinder");
    assert_eq!(design.parts.len(), 15);
    assert_eq!(design.root(), Some(1));
    assert_eq!(design.parts[10].definition_id, "solid_radial");
    assert_eq!(design.parts[10].local_position[0], single(2.25));
    assert_eq!(design.parts[0].local_position[1], single(9.4));
    assert_eq!(design.parts[8].local_position[1], single(-0.60));
    assert_eq!(design.parts[11].local_position[0], single(-1.35));
    let names: Vec<&str> = design.stages.iter().map(|s| s.name.as_str()).collect();
    assert_eq!(
        names,
        vec!["Ignition", "Shed boosters", "Upper stage", "Recovery"]
    );
    assert_eq!(
        design.stages[2].actions,
        vec![StageAction::Decouple(7), StageAction::ActivateEngine(6)]
    );
    assert_eq!(design.crew, vec!["Dr. Clawdia Current".to_string()]);
    assert_eq!(design.script_name.as_deref(), Some("guided_ascent.lua"));
    let copy = design.clone();
    assert_eq!(copy.parts.len(), 15);
    assert_eq!(copy.stages[0].actions, design.stages[0].actions);
}

#[test]
fn the_catalog_holds_the_stock_parts_in_order() {
    let catalog = PartCatalog::default();
    let ids: Vec<&str> = catalog.iter().iter().map(|d| d.id.as_str()).collect();
    let mut sorted = ids.clone();
    sorted.sort();
    assert_eq!(ids, sorted);
    assert_eq!(ids.len(), 22);
    assert_eq!(ids[0], "decoupler_l");
    assert_eq!(ids[21], "tank_short");
    let pod = catalog.get("pod_1").unwrap();
    assert_eq!(pod.name, "Carapace Mk I");
    assert_eq!(pod.category, PartCategory::Command);
    assert_eq!(
        pod.module,
        PartModule::Command {
            seats: 1,
            torque: 8_000
        }
    );
    assert_eq!(pod.dry_mass, 900);
    assert_eq!(pod.radius as f32 / 100.0, 1.15);
    assert_eq!(pod.height as f32 / 100.0, 1.8);
    assert_eq!(f64::from(pod.drag_coefficient) / 100.0, 0.28);
    assert_eq!(pod.max_temperature, 1_600);
    assert_eq!(
        pod.description,
        "A compact command pod for one intrepid crab."
    );
    assert!(!pod.radial);
    assert!(catalog.get("pod_3").is_none());
    assert!(catalog.clone().get("landing_leg").unwrap().is_boxed());
    assert!(!catalog.get("tank_long").unwrap().is_boxed());
    assert!(catalog.get("solid_radial").unwrap().is_boxed());
}

#[test]
fn capacities_of_every_kind() {
    assert_eq!(part_resource_capacity(PartModule::LiquidTank { fuel: 7 }), 7);
    assert_eq!(part_resource_capacity(PartModule::MonopropTank { fuel: 8 }), 8);
    assert_eq!(
        part_resource_capacity(PartModule::SolidEngine {
            thrust: 1,
            isp: 2,
            fuel: 9
        }),
        9
    );
    assert_eq!(part_resource_capacity(PartModule::HeatShield { ablator: 4 }), 4);
    assert_eq!(part_resource_capacity(PartModule::LandingLeg), 0);
}

#[test]
fn a_new_vessel_stands_on_the_pad() {
    let vessel = Vessel::from_blueprint(&stock_craft(), &PartCatalog::default());
    assert_eq!(vessel.name, "Crabitat Pathfinder");
    assert_eq!(vessel.primary_body, "carapace");
    assert_eq!(f64::from_bits(vessel.position[1].bits), 600_005.0);
    let ground = -std::f64::consts::TAU / 21_600.0 * (600_000.0 + 5.0);
    assert_eq!(f64::from_bits(vessel.velocity[0].bits), ground);
    assert_eq!(f64::from_bits(vessel.attitude[3].bits), 1.0);
    assert_eq!(vessel.situation, FlightSituation::Prelaunch);
    assert_eq!(vessel.controls.sas, Some(SasMode::Stability));
    assert_eq!(f64::from_bits(vessel.parts[7].fuel.bits), 6_200.0);
    assert_eq!(f64::from_bits(vessel.parts[10].fuel.bits), 3_300.0);
    assert_eq!(f64::from_bits(vessel.parts[2].ablator.bits), 240.0);
    assert_eq!(f64::from_bits(vessel.parts[2].fuel.bits), 0.0);
    assert_eq!(f64::from_bits(vessel.parts[0].temperature.bits), 290.0);
    assert_eq!(vessel.active_ids().len(), 15);
    assert_eq!(vessel.stages.len(), 4);
    assert!(vessel.debris.is_empty());
    let copy = vessel.clone();
    assert_eq!(copy.active_ids(), vessel.active_ids());
}

#[test]
fn totals_of_the_stock_craft_on_the_pad() {
    let totals = craft_totals(&stock_craft(), &PartCatalog::default());
    assert_eq!(totals.liquid_fuel, 2_400 + 6_200);
    assert_eq!(totals.solid_fuel, 2 * 3_300);
    assert_eq!(totals.sea_level_thrust, 205_000 + 2 * 110_000);
    assert_eq!(totals.vacuum_thrust, 240_000 + 2 * 110_000);
    assert_eq!(
        totals.wet_mass - totals.dry_mass,
        2_400 + 6_200 + 2 * 3_300 + 240
    );
    let lit: Vec<u64> = first_propulsion_stage(&stock_craft())
        .unwrap()
        .into_iter()
        .collect();
    assert_eq!(lit, vec![9, 11, 13]);
}

#[test]
fn totals_include_every_resource() {
    let design = craft(
        vec![
            part(1, "pod_1", None),
            part(2, "tank_short", Some(1)),
            part(3, "mono_tank", Some(1)),
            part(4, "heatshield", Some(1)),
        ],
        Vec::new(),
    );
    let totals = craft_totals(&design, &PartCatalog::default());
    assert_eq!(
        totals.wet_mass,
        900 + (280 + 2_400) + (90 + 220) + (220 + 240)
    );
    assert!(!has_engine_actions(&design));
}

#[test]
fn without_stages_every_engine_counts_and_can_be_lit() {
    let design = craft(
        vec![
            part(1, "tank_long", None),
            part(2, "engine_sl_s", Some(1)),
            part(3, "solid_stack", Some(1)),
        ],
        Vec::new(),
    );
    let catalog = PartCatalog::default();
    assert_eq!(craft_totals(&design, &catalog).vacuum_thrust, 240_000 + 55_000);
    let mut vessel = Vessel::from_blueprint(&design, &catalog);
    ignite_all(&mut vessel, &catalog);
    let lit: Vec<bool> = vessel.parts.iter().map(|p| p.active).collect();
    assert_eq!(lit, vec![false, true, true]);
}
