//! The craft editor: adding and removing parts, staging, and steps back and forth.
use crate::craft::{
    has_error, has_part, is_engine, is_next_id, is_stock_part, issues_view, law_what_may_launch,
    lemma_filter_step, roots, stock_part, validation, BlueprintView, CraftBlueprint, IssueView,
    PartInstance, Stage, StageAction, ValidationIssue, MAX_PARTS,
};
use crate::lineage::{
    child_edge, descend, has_child, law_subtree_hangs_together, law_subtree_holds_root,
    law_subtree_is_whole, lemma_reached_over_an_edge, subtree, Node,
};
use crate::number::Single;
use crate::parts::{DefinitionView, PartCatalog, PartModule};
use crate::text::{digits, join, joined, push_decimal, texts_view};
use crate::vessel::{is_on_pad, Vessel};
use std::collections::BTreeSet;
use vstd::prelude::*;

verus! {

/// The number of steps back that are kept.
pub const HISTORY_LIMIT: usize = 64;

/// What the editor keeps beside the craft.
#[derive(Debug)]
pub struct EditorState {
    pub selected: Option<u64>,
    pub symmetry: usize,
    /// The crafts of earlier steps, the latest last.
    pub history: Vec<CraftBlueprint>,
    /// The crafts of steps taken back, the next last.
    pub future: Vec<CraftBlueprint>,
}

/// The blueprints with their lists as sequences.
pub open spec fn blueprints_view(crafts: Seq<CraftBlueprint>) -> Seq<BlueprintView> {
    crafts.map_values(|craft: CraftBlueprint| craft@)
}

/// The editor and its craft, with lists as sequences.
pub struct EditorView {
    pub selected: Option<u64>,
    pub symmetry: usize,
    pub history: Seq<BlueprintView>,
    pub future: Seq<BlueprintView>,
}

impl View for EditorState {
    type V = EditorView;

    open spec fn view(&self) -> EditorView {
        EditorView {
            selected: self.selected,
            symmetry: self.symmetry,
            history: blueprints_view(self.history@),
            future: blueprints_view(self.future@),
        }
    }
}

impl Default for EditorState {
    /// Nothing done yet, with single parts and the first part selected.
    fn default() -> (r: Self)
        ensures
            r.selected == Some(1u64),
            r.symmetry == 1,
            r.history@.len() == 0,
            r.future@.len() == 0,
    {
        EditorState { selected: Some(1), symmetry: 1, history: Vec::new(), future: Vec::new() }
    }
}

/// The number of the first part without a parent.
pub open spec fn root_of(parts: Seq<PartInstance>) -> Option<u64> {
    if roots(parts).len() == 0 {
        None
    } else {
        Some(roots(parts)[0].instance_id)
    }
}

/// The editor after a step from the craft: the craft is the latest of the history,
/// the oldest is dropped where they are too many, and no step can be redone.
pub open spec fn with_step(editor: EditorView, craft: BlueprintView) -> EditorView {
    EditorView {
        history: if editor.history.len() + 1 > HISTORY_LIMIT {
            editor.history.push(craft).drop_first()
        } else {
            editor.history.push(craft)
        },
        future: Seq::empty(),
        ..editor
    }
}

/// The editor and craft after a step back, if there is one.
pub open spec fn undone(editor: EditorView, craft: BlueprintView) -> (EditorView, BlueprintView) {
    if editor.history.len() == 0 {
        (editor, craft)
    } else {
        (
            EditorView {
                selected: root_of(editor.history.last().parts),
                history: editor.history.drop_last(),
                future: editor.future.push(craft),
                ..editor
            },
            editor.history.last(),
        )
    }
}

/// The editor and craft after a step forth, if there is one.
pub open spec fn redone(editor: EditorView, craft: BlueprintView) -> (EditorView, BlueprintView) {
    if editor.future.len() == 0 {
        (editor, craft)
    } else {
        (
            EditorView {
                selected: root_of(editor.future.last().parts),
                history: editor.history.push(craft),
                future: editor.future.drop_last(),
                ..editor
            },
            editor.future.last(),
        )
    }
}

/// Keeps the craft as a step to come back to.
pub fn push_history(editor: &mut EditorState, craft: &CraftBlueprint)
    ensures
        final(editor)@ == with_step(old(editor)@, craft@),
{
    let ghost before = editor.history@;
    editor.history.push(craft.clone());
    proof {
        assert(blueprints_view(editor.history@) =~= blueprints_view(before).push(craft@));
    }
    let ghost grown = editor.history@;
    if editor.history.len() > HISTORY_LIMIT {
        editor.history.remove(0);
        proof {
            assert(blueprints_view(editor.history@) =~= blueprints_view(grown).drop_first());
        }
    }
    editor.future.clear();
    proof {
        assert(blueprints_view(editor.future@) =~= Seq::<BlueprintView>::empty());
    }
}

/// Takes a step back. Says whether there was one.
pub fn undo(editor: &mut EditorState, craft: &mut CraftBlueprint) -> (r: bool)
    ensures
        r == (old(editor).history@.len() > 0),
        (final(editor)@, final(craft)@) == undone(old(editor)@, old(craft)@),
{
    let ghost past = editor.history@;
    let ghost ahead = editor.future@;
    match editor.history.pop() {
        Some(previous) => {
            editor.future.push(craft.clone());
            proof {
                assert(blueprints_view(editor.history@) =~= blueprints_view(past).drop_last());
                assert(blueprints_view(past).last() == previous@);
                assert(blueprints_view(editor.future@) =~= blueprints_view(ahead).push(
                    old(craft)@,
                ));
            }
            editor.selected = previous.root();
            *craft = previous;
            true
        },
        None => false,
    }
}

/// Takes a step forth. Says whether there was one.
pub fn redo(editor: &mut EditorState, craft: &mut CraftBlueprint) -> (r: bool)
    ensures
        r == (old(editor).future@.len() > 0),
        (final(editor)@, final(craft)@) == redone(old(editor)@, old(craft)@),
{
    let ghost past = editor.history@;
    let ghost ahead = editor.future@;
    match editor.future.pop() {
        Some(next) => {
            editor.history.push(craft.clone());
            proof {
                assert(blueprints_view(editor.future@) =~= blueprints_view(ahead).drop_last());
                assert(blueprints_view(ahead).last() == next@);
                assert(blueprints_view(editor.history@) =~= blueprints_view(past).push(
                    old(craft)@,
                ));
            }
            editor.selected = next.root();
            *craft = next;
            true
        },
        None => false,
    }
}

/// A step back and forth again ends where it began, with the root selected.
pub proof fn law_redo_restores(editor: EditorView, craft: BlueprintView)
    requires
        editor.history.len() > 0,
    ensures
        ({
            let back = undone(editor, craft);
            redone(back.0, back.1)
        }) == (EditorView { selected: root_of(craft.parts), ..editor }, craft),
{
    let back = undone(editor, craft);
    let forth = redone(back.0, back.1);
    assert(forth.0.history =~= editor.history);
    assert(forth.0.future =~= editor.future);
}

/// A step forth and back again ends where it began, with the root selected.
pub proof fn law_undo_restores(editor: EditorView, craft: BlueprintView)
    requires
        editor.future.len() > 0,
    ensures
        ({
            let forth = redone(editor, craft);
            undone(forth.0, forth.1)
        }) == (EditorView { selected: root_of(craft.parts), ..editor }, craft),
{
    let forth = redone(editor, craft);
    let back = undone(forth.0, forth.1);
    assert(back.0.history =~= editor.history);
    assert(back.0.future =~= editor.future);
}

/// A step back from any change gives the craft of before the change.
pub proof fn law_undo_takes_a_change_back(
    editor: EditorView,
    craft: BlueprintView,
    changed: BlueprintView,
)
    ensures
        undone(with_step(editor, craft), changed).1 == craft,
{
}

/// The steps back and forth together never outgrow the limit.
pub proof fn law_history_is_bounded(editor: EditorView, craft: BlueprintView)
    requires
        editor.history.len() + editor.future.len() <= HISTORY_LIMIT,
    ensures
        ({
            let e = with_step(editor, craft);
            e.history.len() + e.future.len() <= HISTORY_LIMIT
        }),
        ({
            let e = undone(editor, craft).0;
            e.history.len() + e.future.len() == editor.history.len() + editor.future.len()
        }),
        ({
            let e = redone(editor, craft).0;
            e.history.len() + e.future.len() == editor.history.len() + editor.future.len()
        }),
{
}

/// The actions of the parts of a wanted kind, in the order of the parts.
pub open spec fn actions_for(
    parts: Seq<PartInstance>,
    catalog: Map<Seq<char>, DefinitionView>,
    wanted: spec_fn(PartModule) -> bool,
    action: spec_fn(u64) -> StageAction,
) -> Seq<StageAction> {
    parts.filter(
        |part: PartInstance|
            catalog.contains_key(part.definition_id@) && wanted(
                catalog[part.definition_id@].module,
            ),
    ).map_values(|part: PartInstance| action(part.instance_id))
}

proof fn lemma_actions_step(
    parts: Seq<PartInstance>,
    catalog: Map<Seq<char>, DefinitionView>,
    wanted: spec_fn(PartModule) -> bool,
    action: spec_fn(u64) -> StageAction,
    i: int,
)
    requires
        0 <= i < parts.len(),
    ensures
        actions_for(parts.take(i + 1), catalog, wanted, action) == (if catalog.contains_key(
            parts[i].definition_id@,
        ) && wanted(catalog[parts[i].definition_id@].module) {
            actions_for(parts.take(i), catalog, wanted, action).push(action(parts[i].instance_id))
        } else {
            actions_for(parts.take(i), catalog, wanted, action)
        }),
{
    let chosen = |part: PartInstance|
        catalog.contains_key(part.definition_id@) && wanted(catalog[part.definition_id@].module);
    lemma_filter_step(parts, chosen, i);
    if chosen(parts[i]) {
        assert(actions_for(parts.take(i + 1), catalog, wanted, action) =~= actions_for(
            parts.take(i),
            catalog,
            wanted,
            action,
        ).push(action(parts[i].instance_id)));
    }
}

/// Lighting every engine.
pub open spec fn ignition_actions(
    parts: Seq<PartInstance>,
    catalog: Map<Seq<char>, DefinitionView>,
) -> Seq<StageAction> {
    actions_for(
        parts,
        catalog,
        |m: PartModule| is_engine(m),
        |id: u64| StageAction::ActivateEngine(id),
    )
}

/// Firing every decoupler on the side of a stack.
pub open spec fn radial_actions(
    parts: Seq<PartInstance>,
    catalog: Map<Seq<char>, DefinitionView>,
) -> Seq<StageAction> {
    actions_for(
        parts,
        catalog,
        |m: PartModule| m is RadialDecoupler,
        |id: u64| StageAction::Decouple(id),
    )
}

/// Firing every decoupler within a stack.
pub open spec fn inline_actions(
    parts: Seq<PartInstance>,
    catalog: Map<Seq<char>, DefinitionView>,
) -> Seq<StageAction> {
    actions_for(
        parts,
        catalog,
        |m: PartModule| m is InlineDecoupler,
        |id: u64| StageAction::Decouple(id),
    )
}

/// Opening every parachute.
pub open spec fn recovery_actions(
    parts: Seq<PartInstance>,
    catalog: Map<Seq<char>, DefinitionView>,
) -> Seq<StageAction> {
    actions_for(
        parts,
        catalog,
        |m: PartModule| m is Parachute,
        |id: u64| StageAction::DeployParachute(id),
    )
}

/// A stage with its name as a sequence of characters.
pub struct NamedActions {
    pub name: Seq<char>,
    pub actions: Seq<StageAction>,
}

/// The stage, unless it would do nothing.
pub open spec fn if_any(name: Seq<char>, actions: Seq<StageAction>) -> Seq<NamedActions> {
    if actions.len() == 0 {
        seq![]
    } else {
        seq![NamedActions { name, actions }]
    }
}

/// The stages that the editor gives a craft: engines, then decouplers on the sides,
/// then those within the stack, then parachutes, without stages that do nothing.
pub open spec fn automatic_stages(
    parts: Seq<PartInstance>,
    catalog: Map<Seq<char>, DefinitionView>,
) -> Seq<NamedActions> {
    if_any("Ignition"@, ignition_actions(parts, catalog)) + if_any(
        "Shed radial hardware"@,
        radial_actions(parts, catalog),
    ) + if_any("Next stack stage"@, inline_actions(parts, catalog)) + if_any(
        "Recovery"@,
        recovery_actions(parts, catalog),
    )
}

/// The stages with their names as sequences of characters.
pub open spec fn named(stages: Seq<Stage>) -> Seq<NamedActions> {
    stages.map_values(
        |stage: Stage| NamedActions { name: stage.name@, actions: stage.actions@ },
    )
}

fn append_stage(stages: &mut Vec<Stage>, name: &str, actions: Vec<StageAction>)
    ensures
        named(final(stages)@) == named(old(stages)@) + if_any(name@, actions@),
{
    let ghost listed = actions@;
    if actions.len() > 0 {
        stages.push(Stage { name: name.to_owned(), actions });
    }
    proof {
        assert(named(stages@) =~= named(old(stages)@) + if_any(name@, listed));
    }
}

/// Gives the craft the stages that follow from its parts.
pub fn auto_stages(craft: &mut CraftBlueprint, catalog: &PartCatalog)
    ensures
        *final(craft) == (CraftBlueprint { stages: final(craft).stages, ..*old(craft) }),
        named(final(craft).stages@) == automatic_stages(old(craft).parts@, catalog@),
{
    let ghost parts = craft.parts@;
    let mut ignition: Vec<StageAction> = Vec::new();
    let mut radial: Vec<StageAction> = Vec::new();
    let mut stacked: Vec<StageAction> = Vec::new();
    let mut recovery: Vec<StageAction> = Vec::new();
    proof {
        lemma_nothing_to_do(catalog@);
    }
    for i in 0..craft.parts.len()
        invariant
            *craft == *old(craft),
            parts == craft.parts@,
            ignition@ == ignition_actions(parts.take(i as int), catalog@),
            radial@ == radial_actions(parts.take(i as int), catalog@),
            stacked@ == inline_actions(parts.take(i as int), catalog@),
            recovery@ == recovery_actions(parts.take(i as int), catalog@),
    {
        proof {
            lemma_actions_step(
                parts,
                catalog@,
                |m: PartModule| is_engine(m),
                |id: u64| StageAction::ActivateEngine(id),
                i as int,
            );
            lemma_actions_step(
                parts,
                catalog@,
                |m: PartModule| m is RadialDecoupler,
                |id: u64| StageAction::Decouple(id),
                i as int,
            );
            lemma_actions_step(
                parts,
                catalog@,
                |m: PartModule| m is InlineDecoupler,
                |id: u64| StageAction::Decouple(id),
                i as int,
            );
            lemma_actions_step(
                parts,
                catalog@,
                |m: PartModule| m is Parachute,
                |id: u64| StageAction::DeployParachute(id),
                i as int,
            );
        }
        let id: u64 = craft.parts[i].instance_id;
        if let Some(definition) = catalog.get(&craft.parts[i].definition_id) {
            match definition.module {
                PartModule::LiquidEngine { .. } | PartModule::SolidEngine { .. } => {
                    ignition.push(StageAction::ActivateEngine(id));
                },
                PartModule::RadialDecoupler { .. } => {
                    radial.push(StageAction::Decouple(id));
                },
                PartModule::InlineDecoupler { .. } => {
                    stacked.push(StageAction::Decouple(id));
                },
                PartModule::Parachute { .. } => {
                    recovery.push(StageAction::DeployParachute(id));
                },
                _ => {},
            }
        }
    }
    proof {
        assert(parts.take(parts.len() as int) =~= parts);
    }
    let mut stages: Vec<Stage> = Vec::new();
    append_stage(&mut stages, "Ignition", ignition);
    append_stage(&mut stages, "Shed radial hardware", radial);
    append_stage(&mut stages, "Next stack stage", stacked);
    append_stage(&mut stages, "Recovery", recovery);
    proof {
        assert(named(stages@) =~= automatic_stages(parts, catalog@));
    }
    craft.stages = stages;
}

proof fn lemma_nothing_to_do(catalog: Map<Seq<char>, DefinitionView>)
    ensures
        forall|parts: Seq<PartInstance>|
            #![trigger ignition_actions(parts.take(0), catalog)]
            ignition_actions(parts.take(0), catalog) == Seq::<StageAction>::empty(),
        forall|parts: Seq<PartInstance>|
            #![trigger radial_actions(parts.take(0), catalog)]
            radial_actions(parts.take(0), catalog) == Seq::<StageAction>::empty(),
        forall|parts: Seq<PartInstance>|
            #![trigger inline_actions(parts.take(0), catalog)]
            inline_actions(parts.take(0), catalog) == Seq::<StageAction>::empty(),
        forall|parts: Seq<PartInstance>|
            #![trigger recovery_actions(parts.take(0), catalog)]
            recovery_actions(parts.take(0), catalog) == Seq::<StageAction>::empty(),
{
    reveal(Seq::filter);
    assert forall|parts: Seq<PartInstance>|
        #![trigger ignition_actions(parts.take(0), catalog)]
        ignition_actions(parts.take(0), catalog) == Seq::<StageAction>::empty() by {
        assert(ignition_actions(parts.take(0), catalog) =~= Seq::<StageAction>::empty());
    }
    assert forall|parts: Seq<PartInstance>|
        #![trigger radial_actions(parts.take(0), catalog)]
        radial_actions(parts.take(0), catalog) == Seq::<StageAction>::empty() by {
        assert(radial_actions(parts.take(0), catalog) =~= Seq::<StageAction>::empty());
    }
    assert forall|parts: Seq<PartInstance>|
        #![trigger inline_actions(parts.take(0), catalog)]
        inline_actions(parts.take(0), catalog) == Seq::<StageAction>::empty() by {
        assert(inline_actions(parts.take(0), catalog) =~= Seq::<StageAction>::empty());
    }
    assert forall|parts: Seq<PartInstance>|
        #![trigger recovery_actions(parts.take(0), catalog)]
        recovery_actions(parts.take(0), catalog) == Seq::<StageAction>::empty() by {
        assert(recovery_actions(parts.take(0), catalog) =~= Seq::<StageAction>::empty());
    }
}

/// A part as a node of the tree of parts.
pub open spec fn instance_node(part: PartInstance) -> Node {
    Node { id: part.instance_id, parent: part.parent, open: true }
}

/// The tree of parts.
pub open spec fn instance_nodes(parts: Seq<PartInstance>) -> Seq<Node> {
    parts.map_values(|part: PartInstance| instance_node(part))
}

/// The part `root` and all that hangs on it, directly or not.
pub fn blueprint_descendants(craft: &CraftBlueprint, root: u64) -> (r: BTreeSet<u64>)
    ensures
        r@ == subtree(instance_nodes(craft.parts@), root),
        r@.finite(),
{
    let mut nodes: Vec<Node> = Vec::new();
    for i in 0..craft.parts.len()
        invariant
            nodes@ == instance_nodes(craft.parts@).take(i as int),
    {
        let part = &craft.parts[i];
        nodes.push(Node { id: part.instance_id, parent: part.parent, open: true });
        proof {
            assert(nodes@ =~= instance_nodes(craft.parts@).take(i + 1));
        }
    }
    proof {
        assert(nodes@ =~= instance_nodes(craft.parts@));
    }
    descend(&nodes, root)
}

/// The parts that do not belong to the subtree.
pub open spec fn without(parts: Seq<PartInstance>, removed: Set<u64>) -> Seq<PartInstance> {
    parts.filter(|part: PartInstance| !removed.contains(part.instance_id))
}

fn keep_others(parts: &Vec<PartInstance>, removed: &BTreeSet<u64>) -> (r: Vec<PartInstance>)
    ensures
        r@ == without(parts@, removed@),
{
    let ghost stays = |part: PartInstance| !removed@.contains(part.instance_id);
    let mut r: Vec<PartInstance> = Vec::new();
    proof {
        reveal(Seq::filter);
        assert(r@ =~= parts@.take(0).filter(stays));
    }
    for i in 0..parts.len()
        invariant
            stays == (|part: PartInstance| !removed@.contains(part.instance_id)),
            r@ == parts@.take(i as int).filter(stays),
    {
        proof {
            lemma_filter_step(parts@, stays, i as int);
        }
        if !removed.contains(&parts[i].instance_id) {
            r.push(parts[i].clone());
        }
    }
    proof {
        assert(parts@.take(parts@.len() as int) =~= parts@);
    }
    r
}

/// What came of a wish to remove the selected part.
#[derive(Debug, Clone, Copy, PartialEq, Eq, Structural)]
pub enum Removal {
    /// No part is selected.
    Nothing,
    /// The root stays.
    RootKept,
    /// The part is gone, with all that hung on it.
    Removed,
}

/// Whether the selected part and all that hangs on it have been removed from `craft`,
/// which makes it `reduced`, in a step that can be taken back.
pub open spec fn is_reduced(
    editor: EditorView,
    craft: CraftBlueprint,
    after: EditorView,
    reduced: CraftBlueprint,
    catalog: Map<Seq<char>, DefinitionView>,
) -> bool {
    &&& reduced == (CraftBlueprint { parts: reduced.parts, stages: reduced.stages, ..craft })
    &&& reduced.parts@ == without(
        craft.parts@,
        subtree(instance_nodes(craft.parts@), editor.selected->0),
    )
    &&& named(reduced.stages@) == automatic_stages(reduced.parts@, catalog)
    &&& after == (EditorView {
        selected: root_of(reduced.parts@),
        ..with_step(editor, craft@)
    })
}

/// Removes the selected part and all that hangs on it, unless it is the root.
pub fn remove_selected(
    editor: &mut EditorState,
    craft: &mut CraftBlueprint,
    catalog: &PartCatalog,
) -> (r: Removal)
    ensures
        r == (if old(editor).selected is None {
            Removal::Nothing
        } else if root_of(old(craft).parts@) == old(editor).selected {
            Removal::RootKept
        } else {
            Removal::Removed
        }),
        r != Removal::Removed ==> *final(editor) == *old(editor) && *final(craft) == *old(craft),
        r == Removal::Removed ==> is_reduced(
            old(editor)@,
            *old(craft),
            final(editor)@,
            *final(craft),
            catalog@,
        ),
{
    let selected: u64 = match editor.selected {
        Some(selected) => selected,
        None => {
            return Removal::Nothing;
        },
    };
    if craft.root() == Some(selected) {
        return Removal::RootKept;
    }
    push_history(editor, craft);
    let removed = blueprint_descendants(craft, selected);
    craft.parts = keep_others(&craft.parts, &removed);
    auto_stages(craft, catalog);
    editor.selected = craft.root();
    Removal::Removed
}

/// Removing a part with all that hangs on it leaves no part without the one that it
/// hangs on, and takes no part that has no parent, but for the part itself.
pub proof fn law_removal_leaves_no_orphans(parts: Seq<PartInstance>, selected: u64, i: int)
    requires
        0 <= i < parts.len(),
        parts[i].parent is Some ==> has_part(parts, parts[i].parent->0),
        parts[i].instance_id != selected,
        forall|j: int, k: int|
            0 <= j < parts.len() && 0 <= k < parts.len() && (#[trigger] parts[j]).instance_id == (
            #[trigger] parts[k]).instance_id ==> j == k,
    ensures
        ({
            let removed = subtree(instance_nodes(parts), selected);
            let left = without(parts, removed);
            &&& !removed.contains(parts[i].instance_id) && parts[i].parent is Some ==> has_part(
                left,
                parts[i].parent->0,
            )
            &&& parts[i].parent is None ==> left.contains(parts[i])
        }),
{
    let nodes = instance_nodes(parts);
    let removed = subtree(nodes, selected);
    let left = without(parts, removed);
    let stays = |part: PartInstance| !removed.contains(part.instance_id);
    if parts[i].parent is Some && !removed.contains(parts[i].instance_id) {
        let parent = parts[i].parent->0;
        if removed.contains(parent) {
            assert(nodes[i].parent == Some(parent));
            law_subtree_is_whole(nodes, selected, i);
        }
        let k = choose|k: int| 0 <= k < parts.len() && (#[trigger] parts[k]).instance_id == parent;
        assert(stays(parts[k]));
        assert(parts.filter(stays).contains(parts[k]));
        let at = left.index_of(parts[k]);
        assert(left[at].instance_id == parent);
    }
    if parts[i].parent is None {
        if removed.contains(parts[i].instance_id) {
            lemma_reached_over_an_edge(child_edge(nodes), selected, parts[i].instance_id);
            let from = choose|from: u64| #[trigger] has_child(nodes, from, parts[i].instance_id);
            let k = choose|k: int|
                0 <= k < nodes.len() && (#[trigger] nodes[k]).id == parts[i].instance_id
                    && nodes[k].parent == Some(from);
            assert(parts[k].instance_id == parts[i].instance_id);
        }
        assert(stays(parts[i]));
        assert(parts.filter(stays).contains(parts[i]));
    }
}

/// Whether the craft is a lone command pod without a name of its own.
pub open spec fn is_untitled(craft: CraftBlueprint) -> bool {
    &&& craft.schema_version == 1
    &&& craft.name@ == "Untitled Vessel"@
    &&& craft.parts@.len() == 1
    &&& is_stock_part(craft.parts@[0], 1, "pod_1"@, None, 0, 0, 0)
    &&& craft.stages@.len() == 0
    &&& craft.crew@.len() == 1
    &&& craft.crew@[0]@ == "Dr. Clawdia Current"@
    &&& craft.script_name is None
}

/// The craft with which a new design starts: a lone command pod.
pub fn untitled_craft() -> (r: CraftBlueprint)
    ensures
        is_untitled(r),
{
    CraftBlueprint {
        schema_version: 1,
        name: "Untitled Vessel".to_owned(),
        parts: vec![stock_part(1, "pod_1", None, 0, 0, 0)],
        stages: Vec::new(),
        crew: vec!["Dr. Clawdia Current".to_owned()],
        script_name: None,
    }
}

/// Starts a new design.
pub fn start_new(editor: &mut EditorState, craft: &mut CraftBlueprint)
    ensures
        final(editor)@ == (EditorView {
            selected: Some(1u64),
            ..with_step(old(editor)@, old(craft)@)
        }),
        is_untitled(*final(craft)),
{
    push_history(editor, craft);
    *craft = untitled_craft();
    editor.selected = Some(1);
}

/// Takes a craft that was read from disk into the editor.
pub fn take_loaded(editor: &mut EditorState, craft: &mut CraftBlueprint, loaded: CraftBlueprint)
    ensures
        *final(craft) == loaded,
        final(editor)@ == (EditorView {
            selected: root_of(loaded.parts@),
            ..with_step(old(editor)@, old(craft)@)
        }),
{
    push_history(editor, craft);
    *craft = loaded;
    editor.selected = craft.root();
}

/// The parent of the first part with the number `id`, if there is one.
pub open spec fn parent_of(parts: Seq<PartInstance>, id: u64) -> Option<u64>
    decreases parts.len(),
{
    if parts.len() == 0 {
        None
    } else if parts[0].instance_id == id {
        parts[0].parent
    } else {
        parent_of(parts.drop_first(), id)
    }
}

/// The number of steps from `current` up to a part without a parent, `limit` at most.
pub open spec fn climbs(parts: Seq<PartInstance>, current: Option<u64>, limit: nat) -> nat
    decreases limit,
{
    match current {
        Some(id) => if limit == 0 {
            0
        } else {
            1 + climbs(parts, parent_of(parts, id), (limit - 1) as nat)
        },
        None => 0,
    }
}

fn find_parent(parts: &Vec<PartInstance>, id: u64) -> (r: Option<u64>)
    ensures
        r == parent_of(parts@, id),
{
    proof {
        assert(parts@.skip(0) =~= parts@);
    }
    for i in 0..parts.len()
        invariant
            parent_of(parts@, id) == parent_of(parts@.skip(i as int), id),
    {
        proof {
            assert(parts@.skip(i as int).drop_first() =~= parts@.skip(i + 1));
            assert(parts@.skip(i as int)[0] == parts@[i as int]);
        }
        if parts[i].instance_id == id {
            return parts[i].parent;
        }
    }
    proof {
        assert(parts@.skip(parts@.len() as int).len() == 0);
    }
    None
}

/// How many parts stand between the part and the root, counting the root. Where the
/// parts run in a circle it is one more than there are parts.
pub fn part_depth(craft: &CraftBlueprint, id: u64) -> (r: usize)
    requires
        craft.parts.len() < usize::MAX,
    ensures
        r == climbs(craft.parts@, parent_of(craft.parts@, id), (craft.parts.len() + 1) as nat),
{
    let mut depth: usize = 0;
    let mut current = find_parent(&craft.parts, id);
    let count: usize = craft.parts.len();
    let ghost all = climbs(craft.parts@, current, (count + 1) as nat);
    while depth <= count
        invariant
            count == craft.parts.len(),
            count < usize::MAX,
            depth <= count + 1,
            all == climbs(craft.parts@, parent_of(craft.parts@, id), (count + 1) as nat),
            all == depth + climbs(craft.parts@, current, (count + 1 - depth) as nat),
        decreases count + 1 - depth,
    {
        match current {
            Some(parent) => {
                depth = depth + 1;
                current = find_parent(&craft.parts, parent);
            },
            None => {
                return depth;
            },
        }
    }
    depth
}

/// The name of the part with the number `id`, where it and its kind are known.
pub open spec fn name_of(
    parts: Seq<PartInstance>,
    catalog: Map<Seq<char>, DefinitionView>,
    id: u64,
) -> Seq<char>
    decreases parts.len(),
{
    if parts.len() == 0 {
        "missing part"@
    } else if parts[0].instance_id == id {
        if catalog.contains_key(parts[0].definition_id@) {
            catalog[parts[0].definition_id@].name
        } else {
            "missing part"@
        }
    } else {
        name_of(parts.drop_first(), catalog, id)
    }
}

fn find_name(parts: &Vec<PartInstance>, catalog: &PartCatalog, id: u64) -> (r: String)
    ensures
        r@ == name_of(parts@, catalog@, id),
{
    proof {
        assert(parts@.skip(0) =~= parts@);
    }
    for i in 0..parts.len()
        invariant
            name_of(parts@, catalog@, id) == name_of(parts@.skip(i as int), catalog@, id),
    {
        proof {
            assert(parts@.skip(i as int).drop_first() =~= parts@.skip(i + 1));
            assert(parts@.skip(i as int)[0] == parts@[i as int]);
        }
        if parts[i].instance_id == id {
            return match catalog.get(&parts[i].definition_id) {
                Some(definition) => definition.name.clone(),
                None => "missing part".to_owned(),
            };
        }
    }
    proof {
        assert(parts@.skip(parts@.len() as int).len() == 0);
    }
    "missing part".to_owned()
}

/// What the staging list says of an action.
pub open spec fn action_label(
    action: StageAction,
    parts: Seq<PartInstance>,
    catalog: Map<Seq<char>, DefinitionView>,
) -> Seq<char> {
    match action {
        StageAction::ActivateEngine(id) => "ignite"@ + " #"@ + digits(id as nat) + " "@ + name_of(
            parts,
            catalog,
            id,
        ),
        StageAction::Decouple(id) => "release"@ + " #"@ + digits(id as nat) + " "@ + name_of(
            parts,
            catalog,
            id,
        ),
        StageAction::DeployParachute(id) => "deploy"@ + " #"@ + digits(id as nat) + " "@ + name_of(
            parts,
            catalog,
            id,
        ),
    }
}

/// What the staging list says of an action.
pub fn stage_action_label(
    action: &StageAction,
    craft: &CraftBlueprint,
    catalog: &PartCatalog,
) -> (r: String)
    ensures
        r@ == action_label(*action, craft.parts@, catalog@),
{
    let (verb, id): (&str, u64) = match *action {
        StageAction::ActivateEngine(id) => ("ignite", id),
        StageAction::Decouple(id) => ("release", id),
        StageAction::DeployParachute(id) => ("deploy", id),
    };
    let mut text = verb.to_owned();
    text.append(" #");
    push_decimal(&mut text, id);
    text.append(" ");
    let name = find_name(&craft.parts, catalog, id);
    text.append(&name);
    text
}

/// Where copies of a new part go.
#[derive(Debug, Clone, Copy)]
pub struct Attachment {
    /// Whether they go round the side of the parent, and not under it.
    pub radial: bool,
    pub copies: usize,
    /// The size of the part, in hundredths of a metre.
    pub radius: u32,
    pub height: u32,
    /// The place of the parent, if there is one.
    pub base: Option<[Single; 3]>,
    /// The size of the parent, if its kind is known.
    pub parent_size: Option<(u32, u32)>,
}

/// The first part with the number `id`, if there is one.
pub open spec fn first_part(parts: Seq<PartInstance>, id: u64) -> Option<PartInstance>
    decreases parts.len(),
{
    if parts.len() == 0 {
        None
    } else if parts[0].instance_id == id {
        Some(parts[0])
    } else {
        first_part(parts.drop_first(), id)
    }
}

/// The part on which a new one is put: the selected one, or else the root.
pub open spec fn parent_for(parts: Seq<PartInstance>, selected: Option<u64>) -> Option<u64> {
    if selected is Some {
        selected
    } else {
        root_of(parts)
    }
}

/// Where copies of a new part go.
pub open spec fn attachment(
    parts: Seq<PartInstance>,
    catalog: Map<Seq<char>, DefinitionView>,
    parent: Option<u64>,
    definition: DefinitionView,
    symmetry: usize,
) -> Attachment {
    let holder = match parent {
        Some(id) => first_part(parts, id),
        None => None,
    };
    Attachment {
        radial: definition.radial,
        copies: if definition.radial && symmetry > 1 {
            symmetry
        } else {
            1
        },
        radius: definition.radius,
        height: definition.height,
        base: match holder {
            Some(part) => Some(part.local_position),
            None => None,
        },
        parent_size: match holder {
            Some(part) => if catalog.contains_key(part.definition_id@) {
                Some(
                    (
                        catalog[part.definition_id@].radius,
                        catalog[part.definition_id@].height,
                    ),
                )
            } else {
                None
            },
            None => None,
        },
    }
}

/// Whether a part can be added: its kind is known and there is room.
pub open spec fn can_add(
    parts: Seq<PartInstance>,
    catalog: Map<Seq<char>, DefinitionView>,
    definition: Seq<char>,
) -> bool {
    catalog.contains_key(definition) && parts.len() < MAX_PARTS
}

/// How many copies of a part are added to that many parts: as many as the symmetry asks
/// for of a part that goes on the side, and else one, or as there is room for.
pub open spec fn copies_added(count: nat, radial: bool, symmetry: usize) -> int {
    let copies = if radial && symmetry > 1 {
        symmetry as int
    } else {
        1
    };
    if copies < MAX_PARTS - count {
        copies
    } else {
        MAX_PARTS - count
    }
}

/// Whether there are numbers for the copies of a part that would be added.
pub open spec fn numbers_left(
    parts: Seq<PartInstance>,
    catalog: Map<Seq<char>, DefinitionView>,
    definition: Seq<char>,
    symmetry: usize,
) -> bool {
    can_add(parts, catalog, definition) ==> forall|i: int|
        0 <= i < parts.len() ==> (#[trigger] parts[i]).instance_id <= u64::MAX - copies_added(
            parts.len(),
            catalog[definition].radial,
            symmetry,
        )
}

/// Whether `added` is the copy `k` of a new part.
pub open spec fn is_copy<F: Fn(Attachment, usize) -> ([Single; 3], [Single; 4])>(
    added: PartInstance,
    definition: Seq<char>,
    parent: Option<u64>,
    first: u64,
    plan: Attachment,
    k: int,
    pose: F,
) -> bool {
    &&& added.instance_id == first + k
    &&& added.definition_id@ == definition
    &&& added.parent == parent
    &&& call_ensures(pose, (plan, k as usize), (added.local_position, added.local_rotation))
}

/// Whether the parts `after` are the parts `before` with copies of a new part at
/// the end: as many as the plan says, or as there is room for.
pub open spec fn are_added<F: Fn(Attachment, usize) -> ([Single; 3], [Single; 4])>(
    before: Seq<PartInstance>,
    after: Seq<PartInstance>,
    definition: Seq<char>,
    parent: Option<u64>,
    first: u64,
    plan: Attachment,
    pose: F,
) -> bool {
    let count = if plan.copies < MAX_PARTS - before.len() {
        plan.copies as int
    } else {
        MAX_PARTS - before.len()
    };
    &&& after.len() == before.len() + count
    &&& after.take(before.len() as int) == before
    &&& forall|k: int|
        0 <= k < count ==> is_copy(
            #[trigger] after[before.len() + k],
            definition,
            parent,
            first,
            plan,
            k,
            pose,
        )
}

fn find_part(parts: &Vec<PartInstance>, id: u64) -> (r: Option<&PartInstance>)
    ensures
        match r {
            Some(part) => first_part(parts@, id) == Some(*part),
            None => first_part(parts@, id) is None,
        },
{
    proof {
        assert(parts@.skip(0) =~= parts@);
    }
    for i in 0..parts.len()
        invariant
            first_part(parts@, id) == first_part(parts@.skip(i as int), id),
    {
        proof {
            assert(parts@.skip(i as int).drop_first() =~= parts@.skip(i + 1));
            assert(parts@.skip(i as int)[0] == parts@[i as int]);
        }
        if parts[i].instance_id == id {
            return Some(&parts[i]);
        }
    }
    proof {
        assert(parts@.skip(parts@.len() as int).len() == 0);
    }
    None
}

/// Adds copies of a part to the craft, on the selected part or else on the root:
/// one below it, or, for a part that goes on the side, as many as the symmetry asks
/// for, round it. `pose` gives the place and rotation of each copy. Nothing is added
/// of an unknown kind or beyond the limit.
pub fn add_part<F: Fn(Attachment, usize) -> ([Single; 3], [Single; 4])>(
    craft: &mut CraftBlueprint,
    catalog: &PartCatalog,
    selected: Option<u64>,
    definition: &str,
    symmetry: usize,
    pose: F,
)
    requires
        numbers_left(old(craft).parts@, catalog@, definition@, symmetry),
        forall|plan: Attachment, k: usize| call_requires(pose, (plan, k)),
    ensures
        *final(craft) == (CraftBlueprint { parts: final(craft).parts, ..*old(craft) }),
        !can_add(old(craft).parts@, catalog@, definition@) ==> final(craft).parts
            == old(craft).parts,
        can_add(old(craft).parts@, catalog@, definition@) ==> exists|first: u64|
            {
                let parent = parent_for(old(craft).parts@, selected);
                &&& #[trigger] is_next_id(old(craft).parts@, first)
                &&& are_added(
                    old(craft).parts@,
                    final(craft).parts@,
                    definition@,
                    parent,
                    first,
                    attachment(
                        old(craft).parts@,
                        catalog@,
                        parent,
                        catalog@[definition@],
                        symmetry,
                    ),
                    pose,
                )
            },
{
    let known = match catalog.get(definition) {
        Some(known) => known,
        None => {
            return;
        },
    };
    if craft.parts.len() >= MAX_PARTS {
        return;
    }
    let ghost before = craft.parts@;
    let parent: Option<u64> = match selected {
        Some(id) => Some(id),
        None => craft.root(),
    };
    let holder = match parent {
        Some(id) => find_part(&craft.parts, id),
        None => None,
    };
    let plan = Attachment {
        radial: known.radial,
        copies: if known.radial && symmetry > 1 {
            symmetry
        } else {
            1
        },
        radius: known.radius,
        height: known.height,
        base: match holder {
            Some(part) => Some(part.local_position),
            None => None,
        },
        parent_size: match holder {
            Some(part) => match catalog.get(&part.definition_id) {
                Some(kind) => Some((kind.radius, kind.height)),
                None => None,
            },
            None => None,
        },
    };
    let first: u64 = craft.next_id();
    let room: usize = MAX_PARTS - craft.parts.len();
    let count: usize = if plan.copies < room {
        plan.copies
    } else {
        room
    };
    proof {
        assert(before.take(before.len() as int) =~= before);
        assert(count == copies_added(before.len(), known.radial, symmetry));
        if before.len() > 0 {
            let last = choose|i: int|
                0 <= i < before.len() && (#[trigger] before[i]).instance_id == (first - 1) as u64;
            assert(before[last].instance_id <= u64::MAX - count);
        }
        assert(first + count <= u64::MAX + 1);
    }
    for k in 0..count
        invariant
            forall|plan: Attachment, k: usize| call_requires(pose, (plan, k)),
            *craft == (CraftBlueprint { parts: craft.parts, ..*old(craft) }),
            first + count <= u64::MAX + 1,
            craft.parts@.len() == before.len() + k,
            craft.parts@.take(before.len() as int) == before,
            forall|j: int|
                0 <= j < k ==> is_copy(
                    #[trigger] craft.parts@[before.len() + j],
                    definition@,
                    parent,
                    first,
                    plan,
                    j,
                    pose,
                ),
    {
        let (local_position, local_rotation) = pose(plan, k);
        let ghost prior = craft.parts@;
        craft.parts.push(
            PartInstance {
                instance_id: first + k as u64,
                definition_id: definition.to_owned(),
                parent,
                local_position,
                local_rotation,
            },
        );
        proof {
            assert(craft.parts@.take(before.len() as int) =~= prior.take(before.len() as int));
            assert forall|j: int| 0 <= j < k + 1 implies is_copy(
                #[trigger] craft.parts@[before.len() + j],
                definition@,
                parent,
                first,
                plan,
                j,
                pose,
            ) by {
                if j < k {
                    assert(craft.parts@[before.len() + j] == prior[before.len() + j]);
                }
            }
        }
    }
}

/// Whether copies of a part have been added to `craft`, which makes it `extended`, in a
/// step that can be taken back. The last part is selected.
pub open spec fn is_extended<F: Fn(Attachment, usize) -> ([Single; 3], [Single; 4])>(
    editor: EditorView,
    craft: CraftBlueprint,
    after: EditorView,
    extended: CraftBlueprint,
    catalog: Map<Seq<char>, DefinitionView>,
    definition: Seq<char>,
    pose: F,
) -> bool {
    let parent = parent_for(craft.parts@, editor.selected);
    &&& extended == (CraftBlueprint { parts: extended.parts, stages: extended.stages, ..craft })
    &&& named(extended.stages@) == automatic_stages(extended.parts@, catalog)
    &&& after == (EditorView {
        selected: if extended.parts@.len() == 0 {
            None
        } else {
            Some(extended.parts@.last().instance_id)
        },
        ..with_step(editor, craft@)
    })
    &&& if can_add(craft.parts@, catalog, definition) {
        exists|first: u64|
            {
                &&& #[trigger] is_next_id(craft.parts@, first)
                &&& are_added(
                    craft.parts@,
                    extended.parts@,
                    definition,
                    parent,
                    first,
                    attachment(
                        craft.parts@,
                        catalog,
                        parent,
                        catalog[definition],
                        editor.symmetry,
                    ),
                    pose,
                )
            }
    } else {
        extended.parts == craft.parts
    }
}

/// Adds copies of a part, gives the craft its stages and selects the last part.
pub fn add_and_stage<F: Fn(Attachment, usize) -> ([Single; 3], [Single; 4])>(
    editor: &mut EditorState,
    craft: &mut CraftBlueprint,
    catalog: &PartCatalog,
    definition: &str,
    pose: F,
)
    requires
        numbers_left(old(craft).parts@, catalog@, definition@, old(editor).symmetry),
        forall|plan: Attachment, k: usize| call_requires(pose, (plan, k)),
    ensures
        is_extended(
            old(editor)@,
            *old(craft),
            final(editor)@,
            *final(craft),
            catalog@,
            definition@,
            pose,
        ),
{
    push_history(editor, craft);
    add_part(craft, catalog, editor.selected, definition, editor.symmetry, pose);
    auto_stages(craft, catalog);
    let count: usize = craft.parts.len();
    editor.selected = if count == 0 {
        None
    } else {
        Some(craft.parts[count - 1].instance_id)
    };
}

/// Adding parts never takes a craft beyond the limit, and the new parts have numbers
/// of their own.
pub proof fn law_added_parts_are_new<F: Fn(Attachment, usize) -> ([Single; 3], [Single; 4])>(
    before: Seq<PartInstance>,
    after: Seq<PartInstance>,
    definition: Seq<char>,
    parent: Option<u64>,
    first: u64,
    plan: Attachment,
    pose: F,
)
    requires
        before.len() < MAX_PARTS,
        plan.copies > 0,
        is_next_id(before, first),
        are_added(before, after, definition, parent, first, plan, pose),
    ensures
        before.len() < after.len() <= MAX_PARTS,
        forall|i: int, j: int|
            before.len() <= j < after.len() && 0 <= i < j ==> (#[trigger] after[i]).instance_id != (
            #[trigger] after[j]).instance_id,
{
    assert forall|i: int, j: int|
        before.len() <= j < after.len() && 0 <= i < j implies (#[trigger] after[i]).instance_id != (
    #[trigger] after[j]).instance_id by {
        let k = j - before.len();
        assert(is_copy(after[before.len() + k], definition, parent, first, plan, k, pose));
        if i < before.len() {
            assert(after.take(before.len() as int)[i] == before[i]);
        } else {
            let l = i - before.len();
            assert(is_copy(after[before.len() + l], definition, parent, first, plan, l, pose));
        }
    }
}

/// The text of the first error among the issues.
pub open spec fn first_error(issues: Seq<IssueView>) -> Seq<char>
    decreases issues.len(),
{
    if issues.len() == 0 {
        seq![]
    } else {
        match issues[0] {
            IssueView::Error(text) => text,
            IssueView::Warning(_) => first_error(issues.drop_first()),
        }
    }
}

/// The texts of the warnings among the issues.
pub open spec fn warnings(issues: Seq<IssueView>) -> Seq<Seq<char>> {
    issues.filter(|issue: IssueView| issue is Warning).map_values(
        |issue: IssueView| issue->Warning_0,
    )
}

/// What the pilot reads at a launch with these warnings.
pub open spec fn launch_notice(warned: Seq<Seq<char>>) -> Seq<char> {
    if warned.len() == 0 {
        "Flight systems ready. Space ignites the first stage."@
    } else {
        "Launched with warnings: "@ + joined(warned, "; "@)
    }
}

fn find_error(issues: &Vec<ValidationIssue>) -> (r: Option<String>)
    ensures
        match r {
            Some(text) => has_error(issues_view(issues@)) && text@ == first_error(
                issues_view(issues@),
            ),
            None => !has_error(issues_view(issues@)),
        },
{
    let ghost all = issues_view(issues@);
    proof {
        assert(all.skip(0) =~= all);
    }
    for i in 0..issues.len()
        invariant
            all == issues_view(issues@),
            first_error(all) == first_error(all.skip(i as int)),
            forall|k: int| 0 <= k < i ==> !(#[trigger] all[k] is Error),
    {
        proof {
            assert(all.skip(i as int).drop_first() =~= all.skip(i + 1));
            assert(all.skip(i as int)[0] == issues@[i as int]@);
            assert(all[i as int] == issues@[i as int]@);
        }
        if let ValidationIssue::Error(text) = &issues[i] {
            return Some(text.clone());
        }
    }
    None
}

fn find_warnings(issues: &Vec<ValidationIssue>) -> (r: Vec<String>)
    ensures
        texts_view(r@) == warnings(issues_view(issues@)),
{
    let ghost all = issues_view(issues@);
    let ghost warns = |issue: IssueView| issue is Warning;
    let mut r: Vec<String> = Vec::new();
    proof {
        reveal(Seq::filter);
        assert(texts_view(r@) =~= warnings(all.take(0)));
    }
    for i in 0..issues.len()
        invariant
            all == issues_view(issues@),
            warns == (|issue: IssueView| issue is Warning),
            texts_view(r@) == warnings(all.take(i as int)),
    {
        let ghost prior = r@;
        proof {
            lemma_filter_step(all, warns, i as int);
            assert(all[i as int] == issues@[i as int]@);
        }
        if let ValidationIssue::Warning(text) = &issues[i] {
            r.push(text.clone());
            proof {
                assert(texts_view(r@) =~= texts_view(prior).push(text@));
                assert(warnings(all.take(i + 1)) =~= warnings(all.take(i as int)).push(text@));
            }
        }
    }
    proof {
        assert(all.take(all.len() as int) =~= all);
    }
    r
}

/// Launches the craft: gives the vessel on the pad and what the pilot reads, or why
/// the craft cannot be launched.
pub fn launch(craft: &CraftBlueprint, catalog: &PartCatalog) -> (r: Result<(Vessel, String), String>)
    ensures
        match r {
            Ok((vessel, notice)) => {
                &&& !has_error(validation(craft.parts@, catalog@))
                &&& is_on_pad(vessel, *craft, catalog@)
                &&& notice@ == launch_notice(warnings(validation(craft.parts@, catalog@)))
            },
            Err(reason) => {
                &&& has_error(validation(craft.parts@, catalog@))
                &&& reason@ == "Cannot launch: "@ + first_error(
                    validation(craft.parts@, catalog@),
                )
            },
        },
{
    let issues = craft.validate(catalog);
    if let Some(error) = find_error(&issues) {
        let mut reason = "Cannot launch: ".to_owned();
        reason.append(&error);
        return Err(reason);
    }
    proof {
        law_what_may_launch(craft.parts@, catalog@);
    }
    let warned = find_warnings(&issues);
    let notice = if warned.len() == 0 {
        "Flight systems ready. Space ignites the first stage.".to_owned()
    } else {
        let mut text = "Launched with warnings: ".to_owned();
        let list = join(&warned, "; ");
        text.append(&list);
        text
    };
    proof {
        assert(texts_view(warned@).len() == warned@.len());
    }
    Ok((Vessel::from_blueprint(craft, catalog), notice))
}

/// What is removed with a part of a craft is what hangs on it, directly or not: the part
/// itself, each part that hangs on one of these, and no more.
pub proof fn law_what_is_removed_with_a_part(
    parts: Seq<PartInstance>,
    root: u64,
    i: int,
    id: u64,
)
    requires
        0 <= i < parts.len(),
    ensures
        subtree(instance_nodes(parts), root).contains(root),
        parts[i].parent is Some && subtree(instance_nodes(parts), root).contains(
            parts[i].parent->0,
        ) ==> subtree(instance_nodes(parts), root).contains(parts[i].instance_id),
        subtree(instance_nodes(parts), root).contains(id) && id != root ==> exists|j: int|
            0 <= j < parts.len() && (#[trigger] parts[j]).instance_id == id && parts[j].parent
                is Some && subtree(instance_nodes(parts), root).contains(parts[j].parent->0),
{
    let nodes = instance_nodes(parts);
    law_subtree_holds_root(nodes, root);
    assert(nodes[i].parent == parts[i].parent);
    if parts[i].parent is Some && subtree(nodes, root).contains(parts[i].parent->0) {
        law_subtree_is_whole(nodes, root, i);
    }
    if subtree(nodes, root).contains(id) && id != root {
        law_subtree_hangs_together(nodes, root, id);
        let j = choose|j: int|
            0 <= j < nodes.len() && (#[trigger] nodes[j]).id == id && nodes[j].parent is Some
                && subtree(nodes, root).contains(nodes[j].parent->0);
        assert(parts[j].instance_id == id);
    }
}

/// A step that can be taken back is kept last; of more than sixty-four the oldest goes; and
/// what was taken back before can no longer be had.
pub proof fn law_steps_are_kept(editor: &mut EditorState, craft: &CraftBlueprint, k: int)
    requires
        call_ensures(push_history, (editor, craft), ()),
    ensures
        final(editor)@.history.len() > 0 && final(editor)@.history.last() == craft@,
        final(editor)@.future.len() == 0,
        final(editor)@.selected == old(editor)@.selected,
        final(editor)@.symmetry == old(editor)@.symmetry,
        old(editor)@.history.len() < 64 ==> final(editor)@.history.len()
            == old(editor)@.history.len() + 1 && (0 <= k < old(editor)@.history.len()
            ==> final(editor)@.history[k] == old(editor)@.history[k]),
        old(editor)@.history.len() == 64 ==> final(editor)@.history.len() == 64 && (0 <= k < 63
            ==> final(editor)@.history[k] == old(editor)@.history[k + 1]),
{
}

/// A step back brings back the craft of before and keeps the present one for a step forth;
/// without a step to take nothing happens. The root is selected afterwards.
pub proof fn law_steps_back_and_forth(
    editor: &mut EditorState,
    craft: &mut CraftBlueprint,
    r: bool,
    editor_again: &mut EditorState,
    craft_again: &mut CraftBlueprint,
    r_again: bool,
)
    requires
        call_ensures(undo, (editor, craft), r),
        old(editor_again)@ == final(editor)@,
        old(craft_again)@ == final(craft)@,
        call_ensures(redo, (editor_again, craft_again), r_again),
    ensures
        r <==> old(editor)@.history.len() > 0,
        r ==> final(craft)@ == old(editor)@.history.last() && final(editor)@.future.last()
            == old(craft)@ && final(editor)@.history == old(editor)@.history.drop_last(),
        r ==> final(editor)@.selected == root_of(final(craft).parts@),
        r ==> r_again && final(craft_again)@ == old(craft)@ && final(editor_again)@.history
            == old(editor)@.history && final(editor_again)@.future == old(editor)@.future,
        !r ==> final(editor)@ == old(editor)@ && final(craft)@ == old(craft)@,
        final(editor)@.symmetry == old(editor)@.symmetry,
{
    if r {
        law_redo_restores(editor@, craft@);
        assert(final(editor)@.future.len() > 0);
        assert(editor_again@.future.len() == editor_again.future@.len());
        assert(editor@.history.len() == editor.history@.len());
    } else {
        assert(editor@.history.len() == editor.history@.len());
    }
}

proof fn lemma_actions_name_their_parts(
    parts: Seq<PartInstance>,
    catalog: Map<Seq<char>, DefinitionView>,
    wanted: spec_fn(PartModule) -> bool,
    action: spec_fn(u64) -> StageAction,
)
    ensures
        forall|i: int|
            0 <= i < parts.len() && catalog.contains_key((#[trigger] parts[i]).definition_id@)
                && wanted(catalog[parts[i].definition_id@].module) ==> actions_for(
                parts,
                catalog,
                wanted,
                action,
            ).contains(action(parts[i].instance_id)),
        forall|given: StageAction| #[trigger]
            actions_for(parts, catalog, wanted, action).contains(given) ==> exists|i: int|
                0 <= i < parts.len() && catalog.contains_key((#[trigger] parts[i]).definition_id@)
                    && wanted(catalog[parts[i].definition_id@].module) && given == action(
                    parts[i].instance_id,
                ),
{
    broadcast use vstd::seq_lib::group_filter_ensures;

    let chosen = |part: PartInstance|
        catalog.contains_key(part.definition_id@) && wanted(catalog[part.definition_id@].module);
    let kept = parts.filter(chosen);
    let actions = actions_for(parts, catalog, wanted, action);
    assert(actions.len() == kept.len());
    assert forall|i: int|
        0 <= i < parts.len() && catalog.contains_key((#[trigger] parts[i]).definition_id@)
            && wanted(catalog[parts[i].definition_id@].module) implies actions.contains(
        action(parts[i].instance_id),
    ) by {
        assert(chosen(parts[i]));
        assert(kept.contains(parts[i]));
        let k = choose|k: int| 0 <= k < kept.len() && kept[k] == parts[i];
        assert(actions[k] == action(parts[i].instance_id));
    }
    assert forall|given: StageAction| #[trigger] actions.contains(given) implies exists|i: int|
        0 <= i < parts.len() && catalog.contains_key((#[trigger] parts[i]).definition_id@)
            && wanted(catalog[parts[i].definition_id@].module) && given == action(
            parts[i].instance_id,
        ) by {
        let k = choose|k: int| 0 <= k < actions.len() && actions[k] == given;
        assert(kept.contains(kept[k]));
        assert(chosen(kept[k]));
        parts.lemma_filter_contains_rev(chosen, kept[k]);
        let i = choose|i: int| 0 <= i < parts.len() && parts[i] == kept[k];
        assert(actions[k] == action(parts[i].instance_id));
    }
}

/// Whether a stage of that name does that action.
pub open spec fn is_staged_under(
    stages: Seq<Stage>,
    name: Seq<char>,
    action: StageAction,
) -> bool {
    exists|s: int|
        0 <= s < stages.len() && (#[trigger] stages[s]).name@ == name
            && stages[s].actions@.contains(action)
}

proof fn lemma_stage_of_some(
    stages: Seq<Stage>,
    all: Seq<NamedActions>,
    s: int,
    name: Seq<char>,
    actions: Seq<StageAction>,
)
    requires
        named(stages) == all,
        0 <= s < all.len(),
        all[s] == (NamedActions { name, actions }),
    ensures
        forall|action: StageAction| #[trigger]
            actions.contains(action) ==> is_staged_under(stages, name, action),
{
    assert(named(stages)[s] == NamedActions {
        name: stages[s].name@,
        actions: stages[s].actions@,
    });
}

/// Every engine is lit in the first automatic stage, every radial decoupler and every inline
/// one released in a stage of its sort, every parachute opened in the last; no stage is
/// empty, and none does anything else.
pub proof fn law_automatic_stages_use_every_part(
    craft: &mut CraftBlueprint,
    catalog: &PartCatalog,
    i: int,
    s: int,
    a: int,
)
    requires
        call_ensures(auto_stages, (craft, catalog), ()),
        0 <= i < old(craft).parts@.len(),
        catalog@.contains_key(old(craft).parts@[i].definition_id@),
    ensures
        *final(craft) == (CraftBlueprint { stages: final(craft).stages, ..*old(craft) }),
        ({
            let id = old(craft).parts@[i].instance_id;
            let module = catalog@[old(craft).parts@[i].definition_id@].module;
            let stages = final(craft).stages@;
            &&& module is LiquidEngine || module is SolidEngine ==> is_staged_under(
                stages,
                "Ignition"@,
                StageAction::ActivateEngine(id),
            )
            &&& module is RadialDecoupler ==> is_staged_under(
                stages,
                "Shed radial hardware"@,
                StageAction::Decouple(id),
            )
            &&& module is InlineDecoupler ==> is_staged_under(
                stages,
                "Next stack stage"@,
                StageAction::Decouple(id),
            )
            &&& module is Parachute ==> is_staged_under(
                stages,
                "Recovery"@,
                StageAction::DeployParachute(id),
            )
        }),
        final(craft).stages@.len() <= 4,
        0 <= s < final(craft).stages@.len() ==> final(craft).stages@[s].actions@.len() > 0,
        0 <= s < final(craft).stages@.len() && 0 <= a < final(craft).stages@[s].actions@.len()
            ==> exists|k: int|
            {
                &&& 0 <= k < old(craft).parts@.len()
                &&& catalog@.contains_key((#[trigger] old(craft).parts@[k]).definition_id@)
                &&& match final(craft).stages@[s].actions@[a] {
                    StageAction::ActivateEngine(id) => id == old(craft).parts@[k].instance_id && (
                    catalog@[old(craft).parts@[k].definition_id@].module is LiquidEngine
                        || catalog@[old(craft).parts@[k].definition_id@].module is SolidEngine),
                    StageAction::Decouple(id) => id == old(craft).parts@[k].instance_id && (
                    catalog@[old(craft).parts@[k].definition_id@].module is RadialDecoupler
                        || catalog@[old(craft).parts@[k].definition_id@].module is InlineDecoupler),
                    StageAction::DeployParachute(id) => id == old(craft).parts@[k].instance_id
                        && catalog@[old(craft).parts@[k].definition_id@].module is Parachute,
                }
            },
{
    let parts = craft.parts@;
    let stages = final(craft).stages@;
    let all = automatic_stages(parts, catalog@);
    let engines = |m: PartModule| is_engine(m);
    let lighting = |id: u64| StageAction::ActivateEngine(id);
    let radials = |m: PartModule| m is RadialDecoupler;
    let inlines = |m: PartModule| m is InlineDecoupler;
    let releasing = |id: u64| StageAction::Decouple(id);
    let parachutes = |m: PartModule| m is Parachute;
    let opening = |id: u64| StageAction::DeployParachute(id);
    lemma_actions_name_their_parts(parts, catalog@, engines, lighting);
    lemma_actions_name_their_parts(parts, catalog@, radials, releasing);
    lemma_actions_name_their_parts(parts, catalog@, inlines, releasing);
    lemma_actions_name_their_parts(parts, catalog@, parachutes, opening);
    let w = ignition_actions(parts, catalog@);
    let x = radial_actions(parts, catalog@);
    let y = inline_actions(parts, catalog@);
    let z = recovery_actions(parts, catalog@);
    assert(w == actions_for(parts, catalog@, engines, lighting));
    assert(x == actions_for(parts, catalog@, radials, releasing));
    assert(y == actions_for(parts, catalog@, inlines, releasing));
    assert(z == actions_for(parts, catalog@, parachutes, opening));
    assert(named(stages).len() == stages.len());
    let p = if_any("Ignition"@, w).len() as int;
    let q = if_any("Shed radial hardware"@, x).len() as int;
    let t = if_any("Next stack stage"@, y).len() as int;
    if w.len() > 0 {
        lemma_stage_of_some(stages, all, 0, "Ignition"@, w);
    }
    if x.len() > 0 {
        lemma_stage_of_some(stages, all, p, "Shed radial hardware"@, x);
    }
    if y.len() > 0 {
        lemma_stage_of_some(stages, all, p + q, "Next stack stage"@, y);
    }
    if z.len() > 0 {
        lemma_stage_of_some(stages, all, p + q + t, "Recovery"@, z);
    }
    if 0 <= s < stages.len() {
        assert(named(stages)[s].actions == stages[s].actions@);
        assert(all[s].actions == w || all[s].actions == x || all[s].actions == y || all[s].actions
            == z);
        if 0 <= a < stages[s].actions@.len() {
            assert(all[s].actions.contains(stages[s].actions@[a]));
        }
    }
}

/// Removing the selected part takes it and all that hangs on it off the craft and leaves every
/// other part; the root is never removed, and without a selection nothing happens. The step
/// can be taken back, and the root is selected afterwards.
pub proof fn law_removal_takes_what_hangs_on_it(
    editor: &mut EditorState,
    craft: &mut CraftBlueprint,
    catalog: &PartCatalog,
    r: Removal,
    hanging: BTreeSet<u64>,
    i: int,
    k: int,
)
    requires
        call_ensures(remove_selected, (editor, craft, catalog), r),
        old(editor).selected is Some ==> call_ensures(
            blueprint_descendants,
            (&*old(craft), old(editor).selected->0),
            hanging,
        ),
        0 <= i < old(craft).parts@.len(),
    ensures
        r is Nothing <==> old(editor).selected is None,
        r is RootKept <==> old(editor).selected is Some && root_of(old(craft).parts@)
            == old(editor).selected,
        !(r is Removed) ==> *final(editor) == *old(editor) && *final(craft) == *old(craft),
        r is Removed ==> {
            &&& final(craft).parts@.contains(old(craft).parts@[i]) <==> !hanging@.contains(
                old(craft).parts@[i].instance_id,
            )
            &&& 0 <= k < final(craft).parts@.len() ==> old(craft).parts@.contains(
                final(craft).parts@[k],
            ) && !hanging@.contains(final(craft).parts@[k].instance_id)
            &&& hanging@.contains(old(editor).selected->0)
            &&& final(editor)@.history.last() == old(craft)@
            &&& final(editor)@.future.len() == 0
            &&& final(editor)@.selected == root_of(final(craft).parts@)
            &&& final(craft).name == old(craft).name
            &&& final(craft).crew == old(craft).crew
        },
{
    broadcast use vstd::seq_lib::group_filter_ensures;

    if r is Removed {
        let parts = craft.parts@;
        let id = editor.selected->0;
        assert(is_reduced(editor@, *craft, final(editor)@, *final(craft), catalog@));
        assert(editor@.selected == editor.selected);
        let wanted = |part: PartInstance| !hanging@.contains(part.instance_id);
        let kept = final(craft).parts@;
        assert(kept == without(parts, hanging@));
        assert(kept == parts.filter(wanted));
        law_subtree_holds_root(instance_nodes(parts), id);
        if wanted(parts[i]) {
            assert(kept.contains(parts[i]));
        }
        if kept.contains(parts[i]) {
            let j = choose|j: int| 0 <= j < kept.len() && kept[j] == parts[i];
            assert(wanted(kept[j]));
        }
        if 0 <= k < kept.len() {
            assert(kept.contains(kept[k]));
            assert(wanted(kept[k]));
            parts.lemma_filter_contains_rev(wanted, kept[k]);
        }
    }
}

/// A new craft is one pod with one of the crew and nothing to fire; a craft that was loaded is
/// taken as it is. Either can be taken back.
pub proof fn law_new_and_loaded_crafts(
    editor: &mut EditorState,
    craft: &mut CraftBlueprint,
    other: &mut EditorState,
    replaced: &mut CraftBlueprint,
    loaded: CraftBlueprint,
)
    requires
        call_ensures(start_new, (editor, craft), ()),
        call_ensures(take_loaded, (other, replaced, loaded), ()),
    ensures
        final(craft).parts@.len() == 1,
        final(craft).parts@[0].instance_id == 1,
        final(craft).parts@[0].definition_id@ == "pod_1"@,
        final(craft).parts@[0].parent is None,
        final(craft).stages@.len() == 0,
        final(craft).crew@.len() == 1,
        final(craft).script_name is None,
        final(editor)@.selected == Some(1u64),
        final(editor)@.history.last() == old(craft)@,
        final(editor)@.symmetry == old(editor)@.symmetry,
        *final(replaced) == loaded,
        final(other)@.selected == root_of(loaded.parts@),
        final(other)@.history.last() == old(replaced)@,
        final(other)@.future.len() == 0,
{
}

proof fn lemma_first_part_is_first(parts: Seq<PartInstance>, i: int)
    requires
        0 <= i < parts.len(),
        forall|k: int|
            0 <= k < i ==> (#[trigger] parts[k]).instance_id != parts[i].instance_id,
    ensures
        first_part(parts, parts[i].instance_id) == Some(parts[i]),
        parent_of(parts, parts[i].instance_id) == parts[i].parent,
    decreases parts.len(),
{
    if i > 0 {
        let rest = parts.drop_first();
        assert(parts[0].instance_id != parts[i].instance_id);
        assert forall|k: int| 0 <= k < i - 1 implies (#[trigger] rest[k]).instance_id
            != rest[i - 1].instance_id by {
            assert(parts[k + 1].instance_id != parts[i].instance_id);
        }
        lemma_first_part_is_first(rest, i - 1);
    }
}

proof fn lemma_climbs_settle(parts: Seq<PartInstance>, current: Option<u64>, limit: nat)
    ensures
        climbs(parts, current, limit) <= limit,
        climbs(parts, current, limit + 1) <= limit ==> climbs(parts, current, limit) == climbs(
            parts,
            current,
            limit + 1,
        ),
    decreases limit,
{
    if current is Some && limit > 0 {
        lemma_climbs_settle(parts, parent_of(parts, current->0), (limit - 1) as nat);
    }
}

/// The root stands at the top, and every part one below the part that it hangs on.
pub proof fn law_depth_counts_from_the_root(
    craft: &CraftBlueprint,
    i: int,
    own: usize,
    above: usize,
)
    requires
        0 <= i < craft.parts@.len(),
        forall|k: int|
            0 <= k < i ==> (#[trigger] craft.parts@[k]).instance_id
                != craft.parts@[i].instance_id,
        call_ensures(part_depth, (craft, craft.parts@[i].instance_id), own),
        craft.parts@[i].parent is Some ==> call_ensures(
            part_depth,
            (craft, craft.parts@[i].parent->0),
            above,
        ),
    ensures
        craft.parts@[i].parent is None ==> own == 0,
        craft.parts@[i].parent is Some && above <= craft.parts@.len() ==> own == above + 1,
{
    let parts = craft.parts@;
    lemma_first_part_is_first(parts, i);
    if parts[i].parent is Some {
        lemma_climbs_settle(parts, parent_of(parts, parts[i].parent->0), parts.len());
    }
}

/// A stage shows for each part what happens to it, its number and the name of its kind; of a
/// part that is not there it says so.
pub proof fn law_labels_name_the_part(
    action: &StageAction,
    craft: &CraftBlueprint,
    catalog: &PartCatalog,
    r: String,
    i: int,
)
    requires
        call_ensures(stage_action_label, (action, craft, catalog), r),
        0 <= i < craft.parts@.len(),
        forall|k: int|
            0 <= k < i ==> (#[trigger] craft.parts@[k]).instance_id
                != craft.parts@[i].instance_id,
    ensures
        ({
            let id = craft.parts@[i].instance_id;
            let kind = craft.parts@[i].definition_id@;
            let name = if catalog@.contains_key(kind) {
                catalog@[kind].name
            } else {
                "missing part"@
            };
            let tail = " #"@ + digits(id as nat) + " "@ + name;
            &&& *action == StageAction::ActivateEngine(id) ==> r@ == "ignite"@ + tail
            &&& *action == StageAction::Decouple(id) ==> r@ == "release"@ + tail
            &&& *action == StageAction::DeployParachute(id) ==> r@ == "deploy"@ + tail
        }),
{
    let id = craft.parts@[i].instance_id;
    lemma_name_of_first(craft.parts@, catalog@, i);
    let name = name_of(craft.parts@, catalog@, id);
    let tail = " #"@ + digits(id as nat) + " "@ + name;
    assert("ignite"@ + tail =~= "ignite"@ + " #"@ + digits(id as nat) + " "@ + name);
    assert("release"@ + tail =~= "release"@ + " #"@ + digits(id as nat) + " "@ + name);
    assert("deploy"@ + tail =~= "deploy"@ + " #"@ + digits(id as nat) + " "@ + name);
}

proof fn lemma_name_of_first(
    parts: Seq<PartInstance>,
    catalog: Map<Seq<char>, DefinitionView>,
    i: int,
)
    requires
        0 <= i < parts.len(),
        forall|k: int|
            0 <= k < i ==> (#[trigger] parts[k]).instance_id != parts[i].instance_id,
    ensures
        name_of(parts, catalog, parts[i].instance_id) == if catalog.contains_key(
            parts[i].definition_id@,
        ) {
            catalog[parts[i].definition_id@].name
        } else {
            "missing part"@
        },
    decreases parts.len(),
{
    if i > 0 {
        let rest = parts.drop_first();
        assert(parts[0].instance_id != parts[i].instance_id);
        assert forall|k: int| 0 <= k < i - 1 implies (#[trigger] rest[k]).instance_id
            != rest[i - 1].instance_id by {
            assert(parts[k + 1].instance_id != parts[i].instance_id);
        }
        lemma_name_of_first(rest, catalog, i - 1);
    }
}

/// A part is added where its kind is known and the craft has fewer than a hundred and
/// twenty-eight, once under its parent or, where it goes on the side, as often as the symmetry
/// says, as far as there is room. What is added hangs on the selected part or else on the
/// root, stands where its size and that of its parent put it, and leaves the others alone.
pub proof fn law_parts_are_added_in_copies<
    F: Fn(Attachment, usize) -> ([Single; 3], [Single; 4]),
>(
    craft: &mut CraftBlueprint,
    catalog: &PartCatalog,
    selected: Option<u64>,
    definition: &str,
    symmetry: usize,
    pose: F,
    i: int,
    k: int,
)
    requires
        call_ensures(
            add_part::<F>,
            (craft, catalog, selected, definition, symmetry, pose),
            (),
        ),
        0 <= i < old(craft).parts@.len(),
        selected == Some(old(craft).parts@[i].instance_id),
        forall|j: int|
            0 <= j < i ==> (#[trigger] old(craft).parts@[j]).instance_id
                != old(craft).parts@[i].instance_id,
    ensures
        final(craft).stages == old(craft).stages && final(craft).name == old(craft).name,
        !catalog@.contains_key(definition@) || old(craft).parts@.len() >= 128
            ==> final(craft).parts == old(craft).parts,
        catalog@.contains_key(definition@) && old(craft).parts@.len() < 128 ==> {
            let kind = catalog@[definition@];
            let holder = old(craft).parts@[i];
            let before = old(craft).parts@.len();
            let wanted = if kind.radial && symmetry > 1 {
                symmetry as int
            } else {
                1
            };
            let count = if wanted < 128 - before {
                wanted
            } else {
                128 - before
            };
            &&& final(craft).parts@.len() == before + count
            &&& final(craft).parts@[i] == holder
            &&& 0 <= k < count ==> {
                let added = final(craft).parts@[before + k];
                &&& added.definition_id@ == definition@
                &&& added.parent == selected
                &&& added.instance_id > holder.instance_id
                &&& exists|plan: Attachment|
                    {
                        &&& #[trigger] call_ensures(
                            pose,
                            (plan, k as usize),
                            (added.local_position, added.local_rotation),
                        )
                        &&& plan.radial == kind.radial
                        &&& plan.copies == wanted
                        &&& plan.radius == kind.radius
                        &&& plan.height == kind.height
                        &&& plan.base == Some(holder.local_position)
                        &&& catalog@.contains_key(holder.definition_id@) ==> plan.parent_size
                            == Some(
                            (
                                catalog@[holder.definition_id@].radius,
                                catalog@[holder.definition_id@].height,
                            ),
                        )
                    }
            }
        },
{
    let parts = craft.parts@;
    lemma_first_part_is_first(parts, i);
    if can_add(parts, catalog@, definition@) {
        let parent = parent_for(parts, selected);
        let plan = attachment(parts, catalog@, parent, catalog@[definition@], symmetry);
        let first = choose|first: u64|
            {
                &&& #[trigger] is_next_id(parts, first)
                &&& are_added(parts, final(craft).parts@, definition@, parent, first, plan, pose)
            };
        assert(final(craft).parts@.take(parts.len() as int)[i] == parts[i]);
        let count = if plan.copies < MAX_PARTS - parts.len() {
            plan.copies as int
        } else {
            MAX_PARTS - parts.len()
        };
        if 0 <= k < count {
            let added = final(craft).parts@[parts.len() + k];
            assert(is_copy(added, definition@, parent, first, plan, k, pose));
            assert(call_ensures(
                pose,
                (plan, k as usize),
                (added.local_position, added.local_rotation),
            ));
        }
    }
}

/// Without a selection a part is added to the root.
pub proof fn law_unselected_parts_go_to_the_root<
    F: Fn(Attachment, usize) -> ([Single; 3], [Single; 4]),
>(
    craft: &mut CraftBlueprint,
    catalog: &PartCatalog,
    definition: &str,
    symmetry: usize,
    pose: F,
    root: Option<u64>,
)
    requires
        call_ensures(
            add_part::<F>,
            (craft, catalog, None::<u64>, definition, symmetry, pose),
            (),
        ),
        call_ensures(CraftBlueprint::root, (&*old(craft),), root),
        catalog@.contains_key(definition@),
        old(craft).parts@.len() < 128,
    ensures
        final(craft).parts@.len() > old(craft).parts@.len(),
        final(craft).parts@[old(craft).parts@.len() as int].parent == root,
        final(craft).parts@[old(craft).parts@.len() as int].definition_id@ == definition@,
{
    let parts = craft.parts@;
    let parent = parent_for(parts, None);
    let plan = attachment(parts, catalog@, parent, catalog@[definition@], symmetry);
    let first = choose|first: u64|
        {
            &&& #[trigger] is_next_id(parts, first)
            &&& are_added(parts, final(craft).parts@, definition@, parent, first, plan, pose)
        };
    assert(is_copy(
        final(craft).parts@[parts.len() + 0int],
        definition@,
        parent,
        first,
        plan,
        0,
        pose,
    ));
}

/// What the player adds is added with the symmetry that is set and staged at once; it can be
/// taken back, and the last part is selected.
pub proof fn law_added_parts_are_staged_and_selected<
    F: Fn(Attachment, usize) -> ([Single; 3], [Single; 4]),
>(
    editor: &mut EditorState,
    craft: &mut CraftBlueprint,
    catalog: &PartCatalog,
    definition: &str,
    pose: F,
)
    requires
        call_ensures(add_and_stage::<F>, (editor, craft, catalog, definition, pose), ()),
    ensures
        final(editor)@.history.last() == old(craft)@,
        final(editor)@.future.len() == 0,
        final(editor)@.symmetry == old(editor)@.symmetry,
        final(craft).parts@.len() > 0 ==> final(editor)@.selected == Some(
            final(craft).parts@.last().instance_id,
        ),
        named(final(craft).stages@) == automatic_stages(final(craft).parts@, catalog@),
        final(craft).name == old(craft).name && final(craft).crew == old(craft).crew,
        !catalog@.contains_key(definition@) || old(craft).parts@.len() >= 128
            ==> final(craft).parts == old(craft).parts,
        catalog@.contains_key(definition@) && old(craft).parts@.len() < 128
            ==> final(craft).parts@.len() > old(craft).parts@.len() && final(craft).parts@.last().definition_id@ == definition@ && (old(editor).selected is Some
            ==> final(craft).parts@.last().parent == old(editor).selected) && (old(editor).symmetry > 1 && catalog@[definition@].radial && old(editor).symmetry <= 128 - old(craft).parts@.len() ==> final(craft).parts@.len() == old(craft).parts@.len() + old(editor).symmetry),
{
    let parts = craft.parts@;
    assert(is_extended(
        editor@,
        *craft,
        final(editor)@,
        *final(craft),
        catalog@,
        definition@,
        pose,
    ));
    assert(editor@.selected == editor.selected && editor@.symmetry == editor.symmetry);
    if can_add(parts, catalog@, definition@) {
        let parent = parent_for(parts, editor@.selected);
        let plan = attachment(parts, catalog@, parent, catalog@[definition@], editor@.symmetry);
        let first = choose|first: u64|
            {
                &&& #[trigger] is_next_id(parts, first)
                &&& are_added(parts, final(craft).parts@, definition@, parent, first, plan, pose)
            };
        let k = final(craft).parts@.len() - parts.len() - 1;
        assert(is_copy(
            final(craft).parts@[parts.len() + k],
            definition@,
            parent,
            first,
            plan,
            k,
            pose,
        ));
    }
}

proof fn lemma_first_error_is_an_error(issues: Seq<IssueView>)
    ensures
        has_error(issues) ==> exists|k: int|
            {
                &&& 0 <= k < issues.len()
                &&& #[trigger] issues[k] == IssueView::Error(first_error(issues))
                &&& forall|j: int| 0 <= j < k ==> !(#[trigger] issues[j] is Error)
            },
    decreases issues.len(),
{
    if has_error(issues) {
        let m = choose|m: int| 0 <= m < issues.len() && #[trigger] issues[m] is Error;
        if issues[0] is Error {
            assert(issues[0] == IssueView::Error(first_error(issues)));
        } else {
            let rest = issues.drop_first();
            assert(rest[m - 1] is Error);
            lemma_first_error_is_an_error(rest);
            let k = choose|k: int|
                {
                    &&& 0 <= k < rest.len()
                    &&& #[trigger] rest[k] == IssueView::Error(first_error(rest))
                    &&& forall|j: int| 0 <= j < k ==> !(#[trigger] rest[j] is Error)
                };
            assert(issues[k + 1] == IssueView::Error(first_error(issues)));
            assert forall|j: int| 0 <= j < k + 1 implies !(#[trigger] issues[j] is Error) by {
                if j > 0 {
                    assert(issues[j] == rest[j - 1]);
                }
            }
        }
    }
}

/// A craft takes off exactly where its check names no error; else the player reads the first
/// one. Warnings do not hold it back, and are told.
pub proof fn law_launch_goes_by_the_check(
    craft: &CraftBlueprint,
    catalog: &PartCatalog,
    r: Result<(Vessel, String), String>,
    issues: Vec<ValidationIssue>,
)
    requires
        call_ensures(launch, (craft, catalog), r),
        call_ensures(CraftBlueprint::validate, (craft, catalog), issues),
    ensures
        r is Ok <==> forall|k: int|
            0 <= k < issues@.len() ==> (#[trigger] issues@[k])@ is Warning,
        r is Err ==> exists|k: int|
            {
                &&& 0 <= k < issues@.len() && (#[trigger] issues@[k])@ is Error
                &&& r->Err_0@ == "Cannot launch: "@ + issues@[k]@->Error_0
                &&& forall|j: int| 0 <= j < k ==> (#[trigger] issues@[j])@ is Warning
            },
        r is Ok && issues@.len() == 0 ==> {
            let (vessel, notice) = r->Ok_0;
            notice@ == "Flight systems ready. Space ignites the first stage."@
        },
        r is Ok ==> {
            let (vessel, notice) = r->Ok_0;
            vessel.parts@.len() == craft.parts@.len() && vessel.situation is Prelaunch
        },
{
    let all = issues_view(issues@);
    assert(all == validation(craft.parts@, catalog@));
    assert forall|k: int| 0 <= k < issues@.len() implies (#[trigger] issues@[k])@ == all[k] by {}
    assert(all.len() == issues@.len());
    if has_error(all) {
        lemma_first_error_is_an_error(all);
        let k = choose|k: int|
            {
                &&& 0 <= k < all.len()
                &&& #[trigger] all[k] == IssueView::Error(first_error(all))
                &&& forall|j: int| 0 <= j < k ==> !(#[trigger] all[j] is Error)
            };
        assert(issues@[k]@ == all[k]);
        assert forall|j: int| 0 <= j < k implies (#[trigger] issues@[j])@ is Warning by {
            assert(all[j] == issues@[j]@);
            assert(!(all[j] is Error));
        }
    } else {
        assert forall|k: int| 0 <= k < issues@.len() implies (#[trigger] issues@[k])@
            is Warning by {
            assert(all[k] == issues@[k]@);
            assert(!(all[k] is Error));
        }
        if issues@.len() == 0 {
            reveal(Seq::filter);
            assert(warnings(all).len() == 0);
        }
    }
}

} // verus!
