use crabby_space::craft::stock_craft;
use crabby_space::mission::{MissionProgress, SimulationClock};
use crabby_space::parts::PartCatalog;
use crabby_space::save::{
    check_craft_schema, check_quicksave_schema, safe_name, sort_names, FileStep, QuickSave,
    SavePath, SaveStore, SAVE_SCHEMA,
};
use crabby_space::vessel::Vessel;
use std::collections::BTreeMap;
use std::path::PathBuf;

fn store() -> SaveStore {
    SaveStore::at(PathBuf::from("saves"))
}

fn shown(step: &FileStep) -> String {
    match step {
        FileStep::MakeDirectory(path) => format!("make {}", path.names.join("/")),
        FileStep::Write(path, text) => format!("write {} {text}", path.names.join("/")),
        FileStep::Remove(path) => format!("remove {}", path.names.join("/")),
        FileStep::Rename(from, to) => {
            format!("rename {} {}", from.names.join("/"), to.names.join("/"))
        }
    }
}

fn shown_all(steps: &[FileStep]) -> Vec<String> {
    steps.iter().map(shown).collect()
}

#[test]
fn names_become_safe() {
    assert_eq!(safe_name("Crabitat Pathfinder"), "Crabitat_Pathfinder");
    assert_eq!(safe_name("../etc/passwd"), "___etc_passwd");
    assert_eq!(safe_name("Ärger-9_b"), "_rger-9_b");
    assert_eq!(safe_name("!!! ???"), "untitled");
    assert_eq!(safe_name("___"), "untitled");
    assert_eq!(safe_name(""), "untitled");
    assert_eq!(safe_name("-"), "-");
    assert_eq!(safe_name(&safe_name("a b")), safe_name("a b"));
}

#[test]
fn a_script_replaces_the_old_one_step_by_step() {
    let steps = store().save_script("my script", "log.info('hi')");
    assert_eq!(
        shown_all(&steps),
        vec![
            "make crafts",
            "make scripts",
            "write scripts/my_script.tmp log.info('hi')",
            "remove scripts/my_script.lua",
            "rename scripts/my_script.tmp scripts/my_script.lua",
        ]
    );
}

#[test]
fn crafts_and_flights_are_saved_the_same_way() {
    let steps = store().save_craft("Tidepool", "(craft)");
    assert_eq!(
        shown_all(&steps)[2..],
        [
            "write crafts/Tidepool.tmp (craft)",
            "remove crafts/Tidepool.ron",
            "rename crafts/Tidepool.tmp crafts/Tidepool.ron",
        ]
    );
    let steps = store().save_quick("(flight)");
    assert_eq!(
        shown_all(&steps)[2..],
        [
            "write quicksave.tmp (flight)",
            "remove quicksave.ron",
            "rename quicksave.tmp quicksave.ron",
        ]
    );
    assert_eq!(
        store().craft_path("a/b").names,
        vec!["crafts".to_string(), "a_b.ron".to_string()]
    );
}

#[test]
fn a_store_knows_its_directory() {
    assert_eq!(store().root(), &PathBuf::from("saves"));
    let found = SaveStore::found_or(Some(PathBuf::from("here")), PathBuf::from("there"));
    assert_eq!(found.root(), &PathBuf::from("here"));
    let other = SaveStore::found_or(None, PathBuf::from("there"));
    assert_eq!(other.root(), &PathBuf::from("there"));
    let ask = |qualifier: &str, organization: &str, application: &str| {
        Some(PathBuf::from(format!("{qualifier}-{organization}-{application}")))
    };
    assert_eq!(
        SaveStore::located(ask, |text: &str| PathBuf::from(text)).root(),
        &PathBuf::from("org-Crabby Space Institute-Crabby Space Institute")
    );
    let other = SaveStore::located(|_: &str, _: &str, _: &str| None, |text: &str| PathBuf::from(text));
    assert_eq!(other.root(), &PathBuf::from("crabby_space_data"));
    let root = SaveStore::default();
    let name = root.root().file_name().unwrap().to_string_lossy().to_lowercase();
    assert!(
        name == "crabby_space_data" || name.replace([' ', '-', '.'], "").contains("crabbyspaceinstitute"),
        "{name}"
    );
}

#[test]
fn a_quicksave_is_looked_for_in_its_place() {
    let is_quicksave = |path: SavePath| path.names == vec!["quicksave.ron".to_string()];
    assert!(store().quicksave_exists(is_quicksave));
    assert!(!store().quicksave_exists(|_| false));
}

#[test]
fn other_schemas_are_refused() {
    assert_eq!(check_craft_schema(SAVE_SCHEMA), Ok(()));
    assert_eq!(
        check_craft_schema(2),
        Err("Unsupported craft schema 2".to_string())
    );
    assert_eq!(check_quicksave_schema(1), Ok(()));
    assert_eq!(
        check_quicksave_schema(4_000_000_000),
        Err("Unsupported quicksave schema 4000000000".to_string())
    );
}

#[test]
fn names_are_sorted() {
    let names: Vec<String> = ["b", "a", "", "ab", "Z", "é", "a"]
        .iter()
        .map(|name| name.to_string())
        .collect();
    let mut expected = names.clone();
    expected.sort();
    assert_eq!(sort_names(names), expected);
    assert!(sort_names(Vec::new()).is_empty());
}

#[test]
fn a_flight_is_captured_whole() {
    let vessel = Vessel::from_blueprint(&stock_craft(), &PartCatalog::default());
    let clock = SimulationClock {
        warp_index: 2,
        ..SimulationClock::default()
    };
    let mission = MissionProgress {
        launched: true,
        ..MissionProgress::default()
    };
    let source = "state = {}".to_string();
    let state = serde_json::Value::Bool(true);
    let save = QuickSave::capture(&vessel, &clock, &mission, &source, Some(state));
    assert_eq!(save.schema_version, SAVE_SCHEMA);
    assert_eq!(save.vessel.parts.len(), 15);
    assert_eq!(save.clock, clock);
    assert_eq!(save.mission, mission);
    assert_eq!(save.script_source, source);
    assert_eq!(save.script_state, Some(serde_json::Value::Bool(true)));
}

fn perform(disk: &mut BTreeMap<Vec<String>, String>, steps: Vec<FileStep>) {
    for step in steps {
        match step {
            FileStep::MakeDirectory(_) => {}
            FileStep::Write(path, text) => {
                disk.insert(path.names, text);
            }
            FileStep::Remove(path) => {
                disk.remove(&path.names);
            }
            FileStep::Rename(from, to) => {
                let text = disk.remove(&from.names).unwrap();
                disk.insert(to.names, text);
            }
        }
    }
}

#[test]
fn what_was_saved_is_found_again() {
    let mut disk = BTreeMap::new();
    perform(&mut disk, store().save_script("ascent", "first"));
    perform(&mut disk, store().save_script("ascent", "second"));
    perform(&mut disk, store().save_craft("ascent", "(craft)"));
    perform(&mut disk, store().save_quick("(flight)"));
    assert_eq!(disk[&store().script_path("ascent").names], "second");
    assert_eq!(disk[&store().craft_path("ascent").names], "(craft)");
    assert_eq!(disk[&store().quicksave_path().names], "(flight)");
    assert_eq!(disk.len(), 3);
}
