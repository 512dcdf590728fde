use crabby_space::actions::{
    apply_editor_action, assembly_action, require_mode, AssemblyRequest, EditorAction, EditorOutcome,
    Game,
};
use crabby_space::control::LatchedAxes;
use crabby_space::craft::{stock_craft, CraftBlueprint, PartInstance, StageAction, MAX_PARTS};
use crabby_space::debug_state::AppMode;
use crabby_space::editor::{
    add_and_stage, add_part, auto_stages, blueprint_descendants, launch, part_depth, push_history,
    redo, remove_selected, stage_action_label, start_new, take_loaded, undo, Attachment,
    EditorState, Removal, HISTORY_LIMIT,
};
use crabby_space::mission::MissionProgress;
use crabby_space::number::{Real, Single};
use crabby_space::parts::PartCatalog;
use crabby_space::runtime::ScriptRuntime;

fn single(value: f32) -> Single {
    Single { bits: value.to_bits() }
}

fn pose(plan: Attachment, copy: usize) -> ([Single; 3], [Single; 4]) {
    let turn = copy as f32 / plan.copies as f32;
    let upright = [single(0.0), single(0.0), single(0.0), single(1.0)];
    ([single(turn), single(0.0), single(0.0)], upright)
}

fn names(craft: &CraftBlueprint) -> Vec<&str> {
    craft.stages.iter().map(|s| s.name.as_str()).collect()
}

fn part(id: u64, definition_id: &str, parent: Option<u64>) -> PartInstance {
    PartInstance {
        instance_id: id,
        definition_id: definition_id.into(),
        parent,
        local_position: [single(0.0); 3],
        local_rotation: [single(0.0), single(0.0), single(0.0), single(1.0)],
    }
}

#[test]
fn steps_back_and_forth() {
    let mut editor = EditorState::default();
    let mut craft = stock_craft();
    assert!(!undo(&mut editor, &mut craft));
    assert!(!redo(&mut editor, &mut craft));
    push_history(&mut editor, &craft);
    craft.name = "Changed".into();
    editor.selected = Some(4);
    assert!(undo(&mut editor, &mut craft));
    assert_eq!(craft.name, "Crabitat Pathfinder");
    assert_eq!(editor.selected, Some(1));
    assert!(redo(&mut editor, &mut craft));
    assert_eq!(craft.name, "Changed");
    assert_eq!(editor.history.len(), 1);
    push_history(&mut editor, &craft);
    assert!(editor.future.is_empty());
    assert!(!redo(&mut editor, &mut craft));
}

#[test]
fn history_is_bounded() {
    let mut editor = EditorState::default();
    let mut craft = stock_craft();
    for i in 0..70 {
        craft.name = format!("{i}");
        push_history(&mut editor, &craft);
    }
    assert_eq!(editor.history.len(), HISTORY_LIMIT);
    assert_eq!(editor.history[0].name, "6");
    assert_eq!(editor.history[63].name, "69");
}

#[test]
fn parts_are_added_round_and_below() {
    let catalog = PartCatalog::default();
    let mut craft = stock_craft();
    add_part(&mut craft, &catalog, Some(8), "fin", 4, pose);
    assert_eq!(craft.parts.len(), 19);
    let ids: Vec<u64> = craft.parts[15..].iter().map(|p| p.instance_id).collect();
    assert_eq!(ids, vec![16, 17, 18, 19]);
    assert!(craft.parts[15..].iter().all(|p| p.parent == Some(8)));
    assert_eq!(craft.parts[17].local_position[0], single(0.5));
    add_part(&mut craft, &catalog, None, "nose", 4, pose);
    assert_eq!(craft.parts.len(), 20);
    assert_eq!(craft.parts[19].parent, Some(1));
    assert_eq!(craft.parts[19].definition_id, "nose");
    add_part(&mut craft, &catalog, None, "unknown", 1, pose);
    assert_eq!(craft.parts.len(), 20);
    add_part(&mut craft, &catalog, Some(99), "fin", 0, |plan: Attachment, copy| {
        assert_eq!(plan.copies, 1);
        assert!(plan.base.is_none());
        assert!(plan.parent_size.is_none());
        assert!(plan.radial);
        assert_eq!((plan.radius, plan.height), (65, 120));
        pose(plan, copy)
    });
    assert_eq!(craft.parts[20].parent, Some(99));
}

#[test]
fn parts_stop_at_the_limit() {
    let catalog = PartCatalog::default();
    let mut craft = stock_craft();
    add_part(&mut craft, &catalog, Some(8), "fin", 500, pose);
    assert_eq!(craft.parts.len(), MAX_PARTS);
    add_part(&mut craft, &catalog, Some(8), "nose", 1, pose);
    assert_eq!(craft.parts.len(), MAX_PARTS);
}

#[test]
fn adding_stages_and_selects() {
    let catalog = PartCatalog::default();
    let mut editor = EditorState {
        symmetry: 2,
        selected: Some(8),
        ..EditorState::default()
    };
    let mut craft = stock_craft();
    add_and_stage(&mut editor, &mut craft, &catalog, "solid_radial", pose);
    assert_eq!(editor.selected, Some(17));
    assert_eq!(editor.history.len(), 1);
    assert_eq!(
        names(&craft),
        vec!["Ignition", "Shed radial hardware", "Next stack stage", "Recovery"]
    );
    assert_eq!(
        craft.stages[0].actions.last(),
        Some(&StageAction::ActivateEngine(17))
    );
}

#[test]
fn stages_follow_from_parts() {
    let catalog = PartCatalog::default();
    let mut craft = stock_craft();
    craft.parts = vec![
        part(1, "pod_1", None),
        part(2, "drogue", Some(1)),
        part(3, "mystery", Some(1)),
        part(4, "decoupler_l", Some(1)),
        part(5, "parachute", Some(1)),
    ];
    auto_stages(&mut craft, &catalog);
    assert_eq!(names(&craft), vec!["Next stack stage", "Recovery"]);
    assert_eq!(craft.stages[0].actions, vec![StageAction::Decouple(4)]);
    assert_eq!(
        craft.stages[1].actions,
        vec![
            StageAction::DeployParachute(2),
            StageAction::DeployParachute(5)
        ]
    );
}

#[test]
fn removing_takes_the_subtree() {
    let catalog = PartCatalog::default();
    let mut editor = EditorState::default();
    let mut craft = stock_craft();
    assert_eq!(
        remove_selected(&mut editor, &mut craft, &catalog),
        Removal::RootKept
    );
    editor.selected = None;
    assert_eq!(
        remove_selected(&mut editor, &mut craft, &catalog),
        Removal::Nothing
    );
    assert_eq!(craft.parts.len(), 15);
    editor.selected = Some(7);
    let gone: Vec<u64> = blueprint_descendants(&craft, 7).into_iter().collect();
    assert_eq!(gone, vec![7, 8, 9, 10, 11, 12, 13, 14, 15]);
    assert_eq!(
        remove_selected(&mut editor, &mut craft, &catalog),
        Removal::Removed
    );
    assert_eq!(craft.parts.len(), 6);
    let issues = craft.validate(&catalog);
    assert!(issues.is_empty(), "{issues:?}");
    assert_eq!(editor.selected, Some(1));
    assert_eq!(names(&craft), vec!["Ignition", "Recovery"]);
    undo(&mut editor, &mut craft);
    assert_eq!(craft.parts.len(), 15);
}

#[test]
fn new_and_loaded_crafts() {
    let mut editor = EditorState::default();
    let mut craft = stock_craft();
    start_new(&mut editor, &mut craft);
    assert_eq!(craft.name, "Untitled Vessel");
    assert_eq!(craft.parts.len(), 1);
    assert_eq!(craft.parts[0].definition_id, "pod_1");
    assert_eq!(craft.script_name, None);
    take_loaded(&mut editor, &mut craft, stock_craft());
    assert_eq!(craft.name, "Crabitat Pathfinder");
    assert_eq!(editor.history.len(), 2);
    undo(&mut editor, &mut craft);
    undo(&mut editor, &mut craft);
    assert_eq!(craft.name, "Crabitat Pathfinder");
}

#[test]
fn depth_of_parts() {
    let mut craft = stock_craft();
    assert_eq!(part_depth(&craft, 1), 0);
    assert_eq!(part_depth(&craft, 4), 2);
    assert_eq!(part_depth(&craft, 11), 8);
    assert_eq!(part_depth(&craft, 404), 0);
    craft.parts = vec![part(1, "pod_1", Some(2)), part(2, "nose", Some(1))];
    assert_eq!(part_depth(&craft, 1), 3);
}

#[test]
fn labels_of_actions() {
    let catalog = PartCatalog::default();
    let craft = stock_craft();
    let label = |action| stage_action_label(&action, &craft, &catalog);
    assert_eq!(label(StageAction::ActivateEngine(9)), "ignite #9 Littoral L-20");
    assert_eq!(label(StageAction::Decouple(10)), "release #10 Side-Shedder");
    assert_eq!(label(StageAction::DeployParachute(2)), "deploy #2 Main Canopy");
    assert_eq!(label(StageAction::Decouple(1234567890)), "release #1234567890 missing part");
}

#[test]
fn launches_and_refusals() {
    let catalog = PartCatalog::default();
    let mut craft = stock_craft();
    let (vessel, notice) = launch(&craft, &catalog).unwrap();
    assert_eq!(vessel.parts.len(), 15);
    assert_eq!(
        notice,
        "Flight systems ready. Space ignites the first stage."
    );
    craft.parts.truncate(1);
    let (_, notice) = launch(&craft, &catalog).unwrap();
    assert_eq!(
        notice,
        "Launched with warnings: This craft has no engine; No parachute is installed"
    );
    craft.parts[0].definition_id = "teapot".into();
    assert_eq!(
        launch(&craft, &catalog).unwrap_err(),
        "Cannot launch: Unknown part teapot"
    );
    craft.parts.clear();
    assert_eq!(
        launch(&craft, &catalog).unwrap_err(),
        "Cannot launch: The vehicle has no parts"
    );
}

fn act(
    action: EditorAction,
    editor: &mut EditorState,
    craft: &mut CraftBlueprint,
) -> EditorOutcome {
    play(action, editor, craft, &mut fresh_game(), &mut ScriptRuntime::default())
}

fn play(
    action: EditorAction,
    editor: &mut EditorState,
    craft: &mut CraftBlueprint,
    game: &mut Game,
    computer: &mut ScriptRuntime,
) -> EditorOutcome {
    let catalog = PartCatalog::default();
    apply_editor_action(action, editor, craft, game, computer, &catalog, "ascent", pose)
}

fn fresh_game() -> Game {
    Game {
        mode: AppMode::Editor,
        vessel: None,
        mission: MissionProgress::default(),
        levers: LatchedAxes::default(),
        notice: String::new(),
    }
}

#[test]
fn actions_do_what_they_say() {
    let mut editor = EditorState::default();
    let mut craft = stock_craft();
    assert!(matches!(
        act(EditorAction::Undo, &mut editor, &mut craft),
        EditorOutcome::Unchanged
    ));
    assert!(matches!(
        act(EditorAction::Redo, &mut editor, &mut craft),
        EditorOutcome::Unchanged
    ));
    match act(EditorAction::Remove, &mut editor, &mut craft) {
        EditorOutcome::Refused(reason) => assert_eq!(
            reason,
            "The root command pod cannot be removed; start a new craft instead."
        ),
        other => panic!("{other:?}"),
    }
    act(EditorAction::Symmetry(4), &mut editor, &mut craft);
    act(EditorAction::Select(8), &mut editor, &mut craft);
    assert!(matches!(
        act(EditorAction::Add("fin".into()), &mut editor, &mut craft),
        EditorOutcome::Changed
    ));
    assert_eq!(craft.parts.len(), 19);
    assert!(matches!(
        act(EditorAction::Remove, &mut editor, &mut craft),
        EditorOutcome::Changed
    ));
    assert_eq!(craft.parts.len(), 18);
    assert!(matches!(
        act(EditorAction::Undo, &mut editor, &mut craft),
        EditorOutcome::Changed
    ));
    assert_eq!(craft.parts.len(), 19);
    assert!(matches!(
        act(EditorAction::Redo, &mut editor, &mut craft),
        EditorOutcome::Changed
    ));
    assert!(matches!(
        act(EditorAction::Save, &mut editor, &mut craft),
        EditorOutcome::ToSave
    ));
    assert_eq!(craft.script_name.as_deref(), Some("ascent.lua"));
    match act(EditorAction::Load("old".into()), &mut editor, &mut craft) {
        EditorOutcome::ToLoad(name) => assert_eq!(name, "old"),
        other => panic!("{other:?}"),
    }
    assert!(matches!(
        act(EditorAction::Launch, &mut editor, &mut craft),
        EditorOutcome::Launched
    ));
    act(EditorAction::New, &mut editor, &mut craft);
    assert_eq!(craft.name, "Untitled Vessel");
    craft.parts.clear();
    match act(EditorAction::Launch, &mut editor, &mut craft) {
        EditorOutcome::Refused(reason) => {
            assert_eq!(reason, "Cannot launch: The vehicle has no parts")
        }
        other => panic!("{other:?}"),
    }
}

#[test]
fn a_launch_begins_a_flight() {
    let mut editor = EditorState::default();
    let mut craft = stock_craft();
    let mut computer = ScriptRuntime::default();
    computer.active = true;
    let mut game = fresh_game();
    game.mission.recovered = true;
    game.levers.pitch = Some(Real::of(0));
    let empty = &mut stock_craft();
    empty.parts.clear();
    let refused = play(EditorAction::Launch, &mut editor, empty, &mut game, &mut computer);
    assert!(matches!(refused, EditorOutcome::Refused(_)));
    assert_eq!(game.notice, "Cannot launch: The vehicle has no parts");
    assert_eq!(game.mode, AppMode::Editor);
    assert!(game.vessel.is_none() && game.mission.recovered && game.levers.pitch.is_some());
    assert!(computer.active && computer.logs.is_empty());
    let done = play(EditorAction::Launch, &mut editor, &mut craft, &mut game, &mut computer);
    assert!(matches!(done, EditorOutcome::Launched));
    assert_eq!(game.mode, AppMode::Flight);
    assert_eq!(game.vessel.unwrap().parts.len(), craft.parts.len());
    assert_eq!(game.mission, MissionProgress::default());
    assert_eq!(game.levers, LatchedAxes::default());
    assert!(game.notice.starts_with("Flight systems ready"));
    assert!(!computer.active);
    assert_eq!(computer.logs, vec!["Automation stopped".to_string()]);
    assert_eq!(craft.name, stock_craft().name);
}

#[test]
fn requests_are_checked_before_they_are_done() {
    let catalog = PartCatalog::default();
    let craft = stock_craft();
    let ask = |mode, request| assembly_action(mode, request, &craft, &catalog);
    let refused = |request| ask(AppMode::Editor, request).unwrap_err();
    assert_eq!(
        ask(AppMode::Flight, AssemblyRequest::Undo).unwrap_err(),
        "this action needs the Editor mode"
    );
    assert_eq!(require_mode(AppMode::Menu, AppMode::Menu), Ok(()));
    assert_eq!(
        require_mode(AppMode::Editor, AppMode::Flight),
        Err("this action needs the Flight mode".to_string())
    );
    assert_eq!(
        require_mode(AppMode::Editor, AppMode::Menu),
        Err("this action needs the Menu mode".to_string())
    );
    assert_eq!(
        refused(AssemblyRequest::AddPart { definition: None }),
        "definition is missing"
    );
    assert_eq!(
        refused(AssemblyRequest::AddPart { definition: Some("teapot".into()) }),
        "unknown part definition: teapot"
    );
    assert_eq!(
        refused(AssemblyRequest::SelectPart { part: Some(99) }),
        "unknown part: 99"
    );
    assert_eq!(
        refused(AssemblyRequest::SelectPart { part: None }),
        "part is missing"
    );
    assert_eq!(
        refused(AssemblyRequest::SetSymmetry { symmetry: Some(3) }),
        "symmetry must be 1, 2 or 4"
    );
    assert_eq!(
        refused(AssemblyRequest::SetSymmetry { symmetry: None }),
        "symmetry is missing"
    );
    assert_eq!(
        refused(AssemblyRequest::Load { name: None }),
        "name is missing"
    );
    assert!(matches!(
        ask(AppMode::Editor, AssemblyRequest::SelectPart { part: Some(15) }),
        Ok(EditorAction::Select(15))
    ));
    assert!(matches!(
        ask(AppMode::Editor, AssemblyRequest::RemoveSelected),
        Ok(EditorAction::Remove)
    ));
}
