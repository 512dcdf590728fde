//! What players and debuggers ask for, and when they may.
use crate::control::{LatchedAxes, ReleaseEvent};
use crate::craft::{
    has_error, has_part, is_next_id, validation, CraftBlueprint, PartInstance,
};
use crate::debug_state::AppMode;
use crate::editor::{
    add_and_stage, are_added, attachment, can_add, first_error, is_extended, is_reduced,
    is_untitled, launch, launch_notice, numbers_left, parent_for, redo, redone, remove_selected, root_of, start_new, undo, undone, warnings,
    with_step, Attachment, EditorState, EditorView, Removal,
};
use crate::mission::{fresh_mission, MissionProgress};
use crate::number::Single;
use crate::parts::{DefinitionView, PartCatalog};
use crate::runtime::{is_stopped, ScriptRuntime};
use crate::text::{digits, push_decimal};
use crate::vessel::{is_on_pad, Vessel};
use vstd::prelude::*;

verus! {

/// What can be asked for in the editor.
#[derive(Debug)]
pub enum EditorAction {
    Add(String),
    Select(u64),
    Symmetry(usize),
    Remove,
    Undo,
    Redo,
    New,
    Save,
    Load(String),
    Launch,
}

/// What came of it.
#[derive(Debug)]
pub enum EditorOutcome {
    /// Nothing is different.
    Unchanged,
    /// The craft may look different.
    Changed,
    /// What the player is told.
    Refused(String),
    /// The craft is to be saved.
    ToSave,
    /// The craft of that name is to be loaded.
    ToLoad(String),
    /// The vessel stands on the pad, and its flight begins.
    Launched,
}

/// What the player's actions change beside the craft and its editor.
#[derive(Debug)]
pub struct Game {
    pub mode: AppMode,
    pub vessel: Option<Vessel>,
    pub mission: MissionProgress,
    pub levers: LatchedAxes,
    /// What the player is told.
    pub notice: String,
}

/// Whether a flight has begun: the vessel stands on the pad as designed, the mission starts
/// afresh, the levers are the pilot's, and the player is told of the warnings.
pub open spec fn is_lift_off(
    game: Game,
    craft: CraftBlueprint,
    catalog: Map<Seq<char>, DefinitionView>,
) -> bool {
    &&& game.mode == AppMode::Flight
    &&& game.vessel is Some && is_on_pad(game.vessel->0, craft, catalog)
    &&& game.mission == fresh_mission()
    &&& game.levers == LatchedAxes::free()
    &&& game.notice@ == launch_notice(warnings(validation(craft.parts@, catalog)))
}

/// Whether the outcome turns the game and the flight computer into those after it. A launch
/// begins a flight and stops the script; a refusal is told; and nothing else touches them.
pub open spec fn is_felt(
    outcome: EditorOutcome,
    game: Game,
    computer: ScriptRuntime,
    after: Game,
    stopped: ScriptRuntime,
    craft: CraftBlueprint,
    catalog: Map<Seq<char>, DefinitionView>,
) -> bool {
    match outcome {
        EditorOutcome::Launched => {
            &&& is_lift_off(after, craft, catalog)
            &&& is_stopped(computer, stopped)
        },
        EditorOutcome::Refused(reason) => {
            &&& after == (Game { notice: after.notice, ..game })
            &&& after.notice@ == reason@
            &&& stopped == computer
        },
        _ => after == game && stopped == computer,
    }
}

/// What the player is told who wants to remove the root.
pub open spec fn root_refusal() -> Seq<char> {
    "The root command pod cannot be removed; start a new craft instead."@
}

/// Whether the action turns the editor and its craft into those after it, with that
/// outcome.
pub open spec fn is_done<F: Fn(Attachment, usize) -> ([Single; 3], [Single; 4])>(
    action: EditorAction,
    editor: EditorView,
    craft: CraftBlueprint,
    after: EditorView,
    changed: CraftBlueprint,
    catalog: Map<Seq<char>, DefinitionView>,
    script_name: Seq<char>,
    pose: F,
    outcome: EditorOutcome,
) -> bool {
    match action {
        EditorAction::Add(definition) => {
            &&& outcome is Changed
            &&& is_extended(editor, craft, after, changed, catalog, definition@, pose)
        },
        EditorAction::Select(id) => {
            &&& outcome is Unchanged
            &&& after == (EditorView { selected: Some(id), ..editor })
            &&& changed == craft
        },
        EditorAction::Symmetry(symmetry) => {
            &&& outcome is Unchanged
            &&& after == (EditorView { symmetry, ..editor })
            &&& changed == craft
        },
        EditorAction::Remove => if editor.selected is None {
            outcome is Unchanged && after == editor && changed == craft
        } else if root_of(craft.parts@) == editor.selected {
            &&& outcome is Refused && outcome->Refused_0@ == root_refusal()
            &&& after == editor && changed == craft
        } else {
            outcome is Changed && is_reduced(editor, craft, after, changed, catalog)
        },
        EditorAction::Undo => {
            &&& if editor.history.len() > 0 {
                outcome is Changed
            } else {
                outcome is Unchanged
            }
            &&& (after, changed@) == undone(editor, craft@)
        },
        EditorAction::Redo => {
            &&& if editor.future.len() > 0 {
                outcome is Changed
            } else {
                outcome is Unchanged
            }
            &&& (after, changed@) == redone(editor, craft@)
        },
        EditorAction::New => {
            &&& outcome is Changed
            &&& is_untitled(changed)
            &&& after == (EditorView { selected: Some(1u64), ..with_step(editor, craft@) })
        },
        EditorAction::Save => {
            &&& outcome is ToSave
            &&& after == editor
            &&& changed == (CraftBlueprint { script_name: changed.script_name, ..craft })
            &&& changed.script_name is Some
            &&& changed.script_name->0@ == script_name + ".lua"@
        },
        EditorAction::Load(name) => {
            &&& outcome == EditorOutcome::ToLoad(name)
            &&& after == editor && changed == craft
        },
        EditorAction::Launch => {
            let issues = validation(craft.parts@, catalog);
            &&& after == editor && changed == craft
            &&& if has_error(issues) {
                &&& outcome is Refused
                &&& outcome->Refused_0@ == "Cannot launch: "@ + first_error(issues)
            } else {
                outcome is Launched
            }
        },
    }
}

/// Does what was asked for in the editor, as far as it needs no disk. `pose` gives the
/// place and rotation of new parts. A launch begins a flight.
pub fn apply_editor_action<F: Fn(Attachment, usize) -> ([Single; 3], [Single; 4])>(
    action: EditorAction,
    editor: &mut EditorState,
    craft: &mut CraftBlueprint,
    game: &mut Game,
    computer: &mut ScriptRuntime,
    catalog: &PartCatalog,
    script_name: &str,
    pose: F,
) -> (r: EditorOutcome)
    requires
        action is Add ==> numbers_left(
            old(craft).parts@,
            catalog@,
            action->Add_0@,
            old(editor).symmetry,
        ),
        forall|plan: Attachment, k: usize| call_requires(pose, (plan, k)),
    ensures
        is_done(
            action,
            old(editor)@,
            *old(craft),
            final(editor)@,
            *final(craft),
            catalog@,
            script_name@,
            pose,
            r,
        ),
        is_felt(
            r,
            *old(game),
            *old(computer),
            *final(game),
            *final(computer),
            *final(craft),
            catalog@,
        ),
{
    match action {
        EditorAction::Add(definition) => {
            add_and_stage(editor, craft, catalog, &definition, pose);
            EditorOutcome::Changed
        },
        EditorAction::Select(id) => {
            editor.selected = Some(id);
            EditorOutcome::Unchanged
        },
        EditorAction::Symmetry(symmetry) => {
            editor.symmetry = symmetry;
            EditorOutcome::Unchanged
        },
        EditorAction::Remove => match remove_selected(editor, craft, catalog) {
            Removal::Nothing => EditorOutcome::Unchanged,
            Removal::RootKept => {
                let reason = "The root command pod cannot be removed; start a new craft instead.";
                game.notice = reason.to_owned();
                EditorOutcome::Refused(reason.to_owned())
            },
            Removal::Removed => EditorOutcome::Changed,
        },
        EditorAction::Undo => {
            if undo(editor, craft) {
                EditorOutcome::Changed
            } else {
                EditorOutcome::Unchanged
            }
        },
        EditorAction::Redo => {
            if redo(editor, craft) {
                EditorOutcome::Changed
            } else {
                EditorOutcome::Unchanged
            }
        },
        EditorAction::New => {
            start_new(editor, craft);
            EditorOutcome::Changed
        },
        EditorAction::Save => {
            let mut name = script_name.to_owned();
            name.append(".lua");
            craft.script_name = Some(name);
            EditorOutcome::ToSave
        },
        EditorAction::Load(name) => EditorOutcome::ToLoad(name),
        EditorAction::Launch => match launch(craft, catalog) {
            Ok((vessel, notice)) => {
                begin_flight(game, computer, vessel, notice);
                EditorOutcome::Launched
            },
            Err(reason) => {
                game.notice = reason.clone();
                EditorOutcome::Refused(reason)
            },
        },
    }
}

/// Begins the flight of a vessel on the pad.
pub fn begin_flight(game: &mut Game, computer: &mut ScriptRuntime, vessel: Vessel, notice: String)
    ensures
        *final(game) == (Game {
            mode: AppMode::Flight,
            vessel: Some(vessel),
            mission: fresh_mission(),
            levers: LatchedAxes::free(),
            notice,
        }),
        is_stopped(*old(computer), *final(computer)),
{
    game.mode = AppMode::Flight;
    game.vessel = Some(vessel);
    game.mission = MissionProgress::default();
    game.levers.release(ReleaseEvent::Launched);
    game.notice = notice;
    computer.stop();
}

/// The mode's name.
pub open spec fn mode_name(mode: AppMode) -> Seq<char> {
    match mode {
        AppMode::Menu => "Menu"@,
        AppMode::Editor => "Editor"@,
        AppMode::Flight => "Flight"@,
    }
}

/// Whether the game is in the mode that an action needs, or why the action is refused.
pub fn require_mode(mode: AppMode, needed: AppMode) -> (r: Result<(), String>)
    ensures
        match r {
            Ok(()) => mode == needed,
            Err(reason) => mode != needed && reason@ == "this action needs the "@ + mode_name(
                needed,
            ) + " mode"@,
        },
{
    if mode == needed {
        return Ok(());
    }
    let mut reason = "this action needs the ".to_owned();
    reason.append(
        match needed {
            AppMode::Menu => "Menu",
            AppMode::Editor => "Editor",
            AppMode::Flight => "Flight",
        },
    );
    reason.append(" mode");
    Err(reason)
}

/// A debugger's request to the editor, by name and with what it needs.
#[derive(Debug)]
pub enum AssemblyRequest {
    AddPart { definition: Option<String> },
    SelectPart { part: Option<u64> },
    SetSymmetry { symmetry: Option<usize> },
    RemoveSelected,
    Undo,
    Redo,
    New,
    Save,
    Load { name: Option<String> },
    Launch,
}

/// Why a request is refused in the editor, if it is: something is missing, unknown or out
/// of range.
pub open spec fn refusal(
    request: AssemblyRequest,
    parts: Seq<PartInstance>,
    catalog: Map<Seq<char>, DefinitionView>,
) -> Option<Seq<char>> {
    match request {
        AssemblyRequest::AddPart { definition } => match definition {
            Some(definition) => if catalog.contains_key(definition@) {
                None
            } else {
                Some("unknown part definition: "@ + definition@)
            },
            None => Some("definition is missing"@),
        },
        AssemblyRequest::SelectPart { part } => match part {
            Some(id) => if has_part(parts, id) {
                None
            } else {
                Some("unknown part: "@ + digits(id as nat))
            },
            None => Some("part is missing"@),
        },
        AssemblyRequest::SetSymmetry { symmetry } => match symmetry {
            Some(symmetry) => if symmetry == 1 || symmetry == 2 || symmetry == 4 {
                None
            } else {
                Some("symmetry must be 1, 2 or 4"@)
            },
            None => Some("symmetry is missing"@),
        },
        AssemblyRequest::Load { name } => if name is Some {
            None
        } else {
            Some("name is missing"@)
        },
        _ => None,
    }
}

/// The action that a request stands for.
pub open spec fn action_of(request: AssemblyRequest) -> EditorAction {
    match request {
        AssemblyRequest::AddPart { definition } => EditorAction::Add(definition->0),
        AssemblyRequest::SelectPart { part } => EditorAction::Select(part->0),
        AssemblyRequest::SetSymmetry { symmetry } => EditorAction::Symmetry(symmetry->0),
        AssemblyRequest::RemoveSelected => EditorAction::Remove,
        AssemblyRequest::Undo => EditorAction::Undo,
        AssemblyRequest::Redo => EditorAction::Redo,
        AssemblyRequest::New => EditorAction::New,
        AssemblyRequest::Save => EditorAction::Save,
        AssemblyRequest::Load { name } => EditorAction::Load(name->0),
        AssemblyRequest::Launch => EditorAction::Launch,
    }
}

fn knows_part(parts: &Vec<PartInstance>, id: u64) -> (r: bool)
    ensures
        r == has_part(parts@, id),
{
    for i in 0..parts.len()
        invariant
            forall|k: int| 0 <= k < i ==> (#[trigger] parts@[k]).instance_id != id,
    {
        if parts[i].instance_id == id {
            return true;
        }
    }
    false
}

/// The action that a debugger's request stands for in vehicle assembly, or why it is
/// refused.
pub fn assembly_action(
    mode: AppMode,
    request: AssemblyRequest,
    craft: &CraftBlueprint,
    catalog: &PartCatalog,
) -> (r: Result<EditorAction, String>)
    ensures
        match r {
            Ok(action) => {
                &&& mode == AppMode::Editor
                &&& refusal(request, craft.parts@, catalog@) is None
                &&& action == action_of(request)
            },
            Err(reason) => if mode != AppMode::Editor {
                reason@ == "this action needs the "@ + mode_name(AppMode::Editor) + " mode"@
            } else {
                refusal(request, craft.parts@, catalog@) == Some(reason@)
            },
        },
{
    if let Err(reason) = require_mode(mode, AppMode::Editor) {
        return Err(reason);
    }
    match request {
        AssemblyRequest::AddPart { definition } => match definition {
            Some(definition) => {
                if catalog.get(&definition).is_some() {
                    Ok(EditorAction::Add(definition))
                } else {
                    let mut reason = "unknown part definition: ".to_owned();
                    reason.append(&definition);
                    Err(reason)
                }
            },
            None => Err("definition is missing".to_owned()),
        },
        AssemblyRequest::SelectPart { part } => match part {
            Some(id) => {
                if knows_part(&craft.parts, id) {
                    Ok(EditorAction::Select(id))
                } else {
                    let mut reason = "unknown part: ".to_owned();
                    push_decimal(&mut reason, id);
                    Err(reason)
                }
            },
            None => Err("part is missing".to_owned()),
        },
        AssemblyRequest::SetSymmetry { symmetry } => match symmetry {
            Some(symmetry) => {
                if symmetry == 1 || symmetry == 2 || symmetry == 4 {
                    Ok(EditorAction::Symmetry(symmetry))
                } else {
                    Err("symmetry must be 1, 2 or 4".to_owned())
                }
            },
            None => Err("symmetry is missing".to_owned()),
        },
        AssemblyRequest::RemoveSelected => Ok(EditorAction::Remove),
        AssemblyRequest::Undo => Ok(EditorAction::Undo),
        AssemblyRequest::Redo => Ok(EditorAction::Redo),
        AssemblyRequest::New => Ok(EditorAction::New),
        AssemblyRequest::Save => Ok(EditorAction::Save),
        AssemblyRequest::Load { name } => match name {
            Some(name) => Ok(EditorAction::Load(name)),
            None => Err("name is missing".to_owned()),
        },
        AssemblyRequest::Launch => Ok(EditorAction::Launch),
    }
}

/// A request that is not refused names a known kind, a part of the craft, or a symmetry
/// that the editor offers.
pub proof fn law_requests_are_checked(
    request: AssemblyRequest,
    parts: Seq<PartInstance>,
    catalog: Map<Seq<char>, DefinitionView>,
)
    requires
        refusal(request, parts, catalog) is None,
    ensures
        match action_of(request) {
            EditorAction::Add(definition) => catalog.contains_key(definition@),
            EditorAction::Select(id) => has_part(parts, id),
            EditorAction::Symmetry(symmetry) => symmetry == 1 || symmetry == 2 || symmetry == 4,
            _ => true,
        },
{
}

/// What the player does in the editor changes what it is about: a selection or the symmetry
/// alone, the craft by a part, a removal, a step or a new start, the script's name on saving,
/// and nothing where the disk or the launch comes next. Only a refusal and a launch are felt
/// in the game, and only a launch stops the script and begins a flight.
pub proof fn law_editor_actions_do_one_thing<
    F: Fn(Attachment, usize) -> ([Single; 3], [Single; 4]),
>(
    action: EditorAction,
    editor: &mut EditorState,
    craft: &mut CraftBlueprint,
    game: &mut Game,
    computer: &mut ScriptRuntime,
    catalog: &PartCatalog,
    script_name: &str,
    pose: F,
    r: EditorOutcome,
)
    requires
        call_ensures(
            apply_editor_action::<F>,
            (action, editor, craft, game, computer, catalog, script_name, pose),
            r,
        ),
    ensures
        action is Select ==> final(editor)@.selected == Some(action->Select_0) && *final(craft)
            == *old(craft) && final(editor)@.symmetry == old(editor)@.symmetry
            && final(editor)@.history == old(editor)@.history && r is Unchanged,
        action is Symmetry ==> final(editor)@.symmetry == action->Symmetry_0 && *final(craft)
            == *old(craft) && final(editor)@.selected == old(editor)@.selected && r is Unchanged,
        action is Add ==> r is Changed && final(editor)@.history.last() == old(craft)@ && (
        catalog@.contains_key(action->Add_0@) && old(craft).parts@.len() < 128
            ==> final(craft).parts@.len() > old(craft).parts@.len()),
        action is Remove && old(editor)@.selected is None ==> r is Unchanged && *final(craft)
            == *old(craft),
        action is Remove && old(editor)@.selected is Some && root_of(old(craft).parts@)
            == old(editor)@.selected ==> r is Refused && *final(craft) == *old(craft)
            && r->Refused_0@
            == "The root command pod cannot be removed; start a new craft instead."@,
        action is Remove && old(editor)@.selected is Some && root_of(old(craft).parts@)
            != old(editor)@.selected ==> r is Changed && final(editor)@.history.last()
            == old(craft)@,
        action is Undo && old(editor)@.history.len() > 0 ==> r is Changed && final(craft)@
            == old(editor)@.history.last(),
        action is Redo && old(editor)@.future.len() > 0 ==> r is Changed && final(craft)@
            == old(editor)@.future.last(),
        action is Undo && old(editor)@.history.len() == 0 ==> r is Unchanged && final(craft)@
            == old(craft)@,
        action is New ==> r is Changed && final(craft).parts@.len() == 1
            && final(editor)@.history.last() == old(craft)@,
        action is Save ==> r is ToSave && final(craft).parts == old(craft).parts
            && final(craft).script_name is Some && final(craft).script_name->0@ == script_name@
            + ".lua"@,
        action is Load ==> r == EditorOutcome::ToLoad(action->Load_0) && *final(craft)
            == *old(craft),
        action is Launch ==> *final(craft) == *old(craft) && final(editor)@ == old(editor)@ && (
        r is Launched || r is Refused),
        action is Launch && r is Refused ==> r->Refused_0@ == "Cannot launch: "@ + first_error(
            validation(old(craft).parts@, catalog@),
        ),
        action is Redo && old(editor)@.future.len() == 0 ==> r is Unchanged && final(craft)@
            == old(craft)@,
        r is Launched <==> action is Launch && !has_error(
            validation(old(craft).parts@, catalog@),
        ),
        r is Launched ==> final(game).mode is Flight && final(game).vessel is Some
            && !final(computer).active && !final(game).mission.launched
            && !final(game).mission.recovered && final(game).levers.pitch is None
            && final(game).vessel->0.situation is Prelaunch,
        r is Refused ==> final(game).mode == old(game).mode && final(game).vessel
            == old(game).vessel && final(game).notice@ == r->Refused_0@ && *final(computer)
            == *old(computer),
        !(r is Launched) && !(r is Refused) ==> *final(game) == *old(game) && *final(computer)
            == *old(computer),
{
    let parts = craft.parts@;
    if action is Add && can_add(parts, catalog@, action->Add_0@) {
        let parent = parent_for(parts, editor@.selected);
        let plan = attachment(
            parts,
            catalog@,
            parent,
            catalog@[action->Add_0@],
            editor@.symmetry,
        );
        let first = choose|first: u64|
            {
                &&& #[trigger] is_next_id(parts, first)
                &&& are_added(
                    parts,
                    final(craft).parts@,
                    action->Add_0@,
                    parent,
                    first,
                    plan,
                    pose,
                )
            };
    }
}

/// A flight begins afresh: in flight mode with the vessel, no goal reached, no lever held and
/// the script stopped. A mode that is needed is asked for by its name.
pub proof fn law_flight_begins_afresh(
    game: &mut Game,
    computer: &mut ScriptRuntime,
    vessel: Vessel,
    notice: String,
    mode: AppMode,
    needed: AppMode,
    r: Result<(), String>,
)
    requires
        call_ensures(begin_flight, (game, computer, vessel, notice), ()),
        call_ensures(require_mode, (mode, needed), r),
    ensures
        final(game).mode is Flight,
        final(game).vessel == Some(vessel),
        final(game).notice == notice,
        !final(game).mission.launched && !final(game).mission.staged
            && !final(game).mission.achieved_orbit && !final(game).mission.began_reentry
            && !final(game).mission.recovered,
        final(game).levers.pitch is None && final(game).levers.yaw is None
            && final(game).levers.roll is None,
        !final(computer).active,
        r is Ok <==> mode == needed,
        mode != needed && needed is Editor ==> r->Err_0@ == "this action needs the "@ + "Editor"@
            + " mode"@,
        mode != needed && needed is Flight ==> r->Err_0@ == "this action needs the "@ + "Flight"@
            + " mode"@,
        mode != needed && needed is Menu ==> r->Err_0@ == "this action needs the "@ + "Menu"@
            + " mode"@,
{
}

/// What is asked for from outside becomes the action of the same sort, with what was named,
/// where the editor is open and what was named is there; else it is refused.
pub proof fn law_requests_become_actions(
    mode: AppMode,
    request: AssemblyRequest,
    craft: &CraftBlueprint,
    catalog: &PartCatalog,
    r: Result<EditorAction, String>,
)
    requires
        call_ensures(assembly_action, (mode, request, craft, catalog), r),
    ensures
        !(mode is Editor) ==> r is Err,
        mode is Editor ==> match request {
            AssemblyRequest::AddPart { definition } => {
                &&& r is Ok <==> definition is Some && catalog@.contains_key(definition->0@)
                &&& r is Ok ==> r->Ok_0 == EditorAction::Add(definition->0)
            },
            AssemblyRequest::SelectPart { part } => {
                &&& r is Ok <==> part is Some && exists|i: int|
                    0 <= i < craft.parts@.len() && (#[trigger] craft.parts@[i]).instance_id
                        == part->0
                &&& r is Ok ==> r->Ok_0 == EditorAction::Select(part->0)
            },
            AssemblyRequest::SetSymmetry { symmetry } => {
                &&& r is Ok <==> symmetry == Some(1usize) || symmetry == Some(2usize) || symmetry
                    == Some(4usize)
                &&& r is Ok ==> r->Ok_0 == EditorAction::Symmetry(symmetry->0)
            },
            AssemblyRequest::Load { name } => {
                &&& r is Ok <==> name is Some
                &&& r is Ok ==> r->Ok_0 == EditorAction::Load(name->0)
            },
            AssemblyRequest::RemoveSelected => r == Ok::<EditorAction, String>(
                EditorAction::Remove,
            ),
            AssemblyRequest::Undo => r == Ok::<EditorAction, String>(EditorAction::Undo),
            AssemblyRequest::Redo => r == Ok::<EditorAction, String>(EditorAction::Redo),
            AssemblyRequest::New => r == Ok::<EditorAction, String>(EditorAction::New),
            AssemblyRequest::Save => r == Ok::<EditorAction, String>(EditorAction::Save),
            AssemblyRequest::Launch => r == Ok::<EditorAction, String>(EditorAction::Launch),
        },
{
}

} // verus!
