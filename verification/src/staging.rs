//! Staging: lighting engines, opening parachutes and shedding parts.
use crate::burn::lemma_above_a_trace;
use crate::craft::{lemma_filter_step, PartInstance, StageAction};
use crate::fuel::{is_decoupler, module_of, part_module};
use crate::lineage::{
    descend, law_subtree_hangs_together, law_subtree_holds_root, law_subtree_is_whole, subtree, Node,
};
use crate::number::{Real, Single, EPSILON};
use crate::parts::{DefinitionView, PartCatalog, PartModule};
use crate::vessel::{DetachedStage, RuntimePart, Vessel};
use std::collections::BTreeSet;
use vstd::arithmetic::power2::*;
use vstd::prelude::*;

verus! {

/// A part as a node of the tree of parts.
pub open spec fn tree_node(part: RuntimePart) -> Node {
    Node { id: part.instance.instance_id, parent: part.instance.parent, open: true }
}

/// The tree of parts.
pub open spec fn tree_nodes(parts: Seq<RuntimePart>) -> Seq<Node> {
    parts.map_values(|part: RuntimePart| tree_node(part))
}

/// The part `root` and all that hangs on it, directly or not.
pub fn descendants(vessel: &Vessel, root: u64) -> (r: BTreeSet<u64>)
    ensures
        r@ == subtree(tree_nodes(vessel.parts@), root),
        r@.finite(),
{
    let mut nodes: Vec<Node> = Vec::new();
    for i in 0..vessel.parts.len()
        invariant
            nodes@ == tree_nodes(vessel.parts@).take(i as int),
    {
        let part = &vessel.parts[i];
        nodes.push(
            Node { id: part.instance.instance_id, parent: part.instance.parent, open: true },
        );
        proof {
            assert(nodes@ =~= tree_nodes(vessel.parts@).take(i + 1));
        }
    }
    proof {
        assert(nodes@ =~= tree_nodes(vessel.parts@));
    }
    descend(&nodes, root)
}

/// What leaves a vessel when a decoupler fires.
#[derive(Debug)]
pub struct Separation {
    /// The push between the two, in newton seconds.
    pub impulse: u32,
    /// The rotation of the decoupler.
    pub rotation: [Single; 4],
    /// The numbers of the parts that leave.
    pub removed: BTreeSet<u64>,
}

/// The motion of both pieces after a separation.
#[derive(Debug, Clone, Copy)]
pub struct Split {
    /// The mass of the parts that leave.
    pub mass: Real,
    /// Their centre of mass, in the frame of the vessel.
    pub center: [Real; 3],
    /// The velocity of the vessel.
    pub velocity: [Real; 3],
    pub debris_position: [Real; 3],
    pub debris_velocity: [Real; 3],
}

/// Whether the place is that of the first part with the number `id` that flies.
pub open spec fn is_first_flying(parts: Seq<RuntimePart>, id: u64, place: int) -> bool {
    &&& 0 <= place < parts.len()
    &&& parts[place].instance.instance_id == id && !parts[place].destroyed
    &&& forall|k: int|
        0 <= k < place ==> (#[trigger] parts[k]).instance.instance_id != id || parts[k].destroyed
}

/// Whether that is the place of the first part with the number `id` that flies, and nothing
/// where none does.
pub open spec fn is_found_flying(parts: Seq<RuntimePart>, id: u64, found: Option<usize>) -> bool {
    match found {
        Some(place) => is_first_flying(parts, id, place as int),
        None => forall|k: int|
            0 <= k < parts.len() ==> (#[trigger] parts[k]).instance.instance_id != id
                || parts[k].destroyed,
    }
}

/// The place of the first part with the number `id` that flies.
pub fn find_flying(parts: &Vec<RuntimePart>, id: u64) -> (r: Option<usize>)
    ensures
        is_found_flying(parts@, id, r),
{
    for i in 0..parts.len()
        invariant
            forall|k: int|
                0 <= k < i ==> (#[trigger] parts@[k]).instance.instance_id != id
                    || parts@[k].destroyed,
    {
        if parts[i].instance.instance_id == id && !parts[i].destroyed {
            return Some(i);
        }
    }
    None
}

/// Whether a decoupler with the number `id` is the first part that flies with it.
pub open spec fn can_fire(
    parts: Seq<RuntimePart>,
    catalog: Map<Seq<char>, DefinitionView>,
    id: u64,
) -> bool {
    exists|place: int|
        #[trigger] is_first_flying(parts, id, place) && is_decoupler(
            module_of(parts[place], catalog),
        )
}

/// The push of a decoupler.
pub open spec fn impulse_of(module: PartModule) -> u32 {
    match module {
        PartModule::InlineDecoupler { impulse } => impulse,
        PartModule::RadialDecoupler { impulse } => impulse,
        _ => 0,
    }
}

/// Whether `plan` says what leaves when the decoupler `id` fires.
pub open spec fn is_separation(
    parts: Seq<RuntimePart>,
    catalog: Map<Seq<char>, DefinitionView>,
    id: u64,
    plan: Separation,
) -> bool {
    exists|place: int|
        {
            &&& #[trigger] is_first_flying(parts, id, place)
            &&& is_decoupler(module_of(parts[place], catalog))
            &&& plan.impulse == impulse_of(module_of(parts[place], catalog)->0)
            &&& plan.rotation == parts[place].instance.local_rotation
            &&& plan.removed@ == subtree(tree_nodes(parts), id)
        }
}

/// What leaves when the decoupler `id` fires; nothing where it is no decoupler or
/// flies no more.
pub fn separation(vessel: &Vessel, catalog: &PartCatalog, id: u64) -> (r: Option<Separation>)
    ensures
        match r {
            Some(plan) => is_separation(vessel.parts@, catalog@, id, plan),
            None => !can_fire(vessel.parts@, catalog@, id),
        },
{
    match find_flying(&vessel.parts, id) {
        Some(place) => {
            proof {
                lemma_first_is_only(vessel.parts@, id, place as int);
            }
            let impulse: u32 = match part_module(&vessel.parts[place], catalog) {
                Some(PartModule::InlineDecoupler { impulse }) => impulse,
                Some(PartModule::RadialDecoupler { impulse }) => impulse,
                _ => {
                    return None;
                },
            };
            let plan = Separation {
                impulse,
                rotation: vessel.parts[place].instance.local_rotation,
                removed: descendants(vessel, id),
            };
            proof {
                assert(is_first_flying(vessel.parts@, id, place as int));
                assert(is_separation(vessel.parts@, catalog@, id, plan));
            }
            Some(plan)
        },
        None => {
            proof {
                lemma_none_is_first(vessel.parts@, id);
            }
            None
        },
    }
}

/// Whether the part leaves with those removed.
pub open spec fn leaves(part: RuntimePart, removed: Set<u64>) -> bool {
    !part.destroyed && removed.contains(part.instance.instance_id)
}

/// The parts that leave with those removed.
pub open spec fn leaving(parts: Seq<RuntimePart>, removed: Set<u64>) -> Seq<RuntimePart> {
    parts.filter(|part: RuntimePart| leaves(part, removed))
}

/// The part as it stays behind on the list of the vessel.
pub open spec fn left_behind(part: RuntimePart, removed: Set<u64>) -> RuntimePart {
    if leaves(part, removed) {
        RuntimePart { destroyed: true, active: false, ..part }
    } else {
        part
    }
}

/// Whether `after` is the part `before` at the place that `place` gives it.
pub open spec fn is_moved<P: Fn([Real; 3], [Single; 3]) -> [Single; 3]>(
    before: RuntimePart,
    after: RuntimePart,
    center: [Real; 3],
    place: P,
) -> bool {
    exists|position: [Single; 3]| #[trigger]
        call_ensures(place, (center, before.instance.local_position), position) && after == (
        RuntimePart {
            instance: PartInstance { local_position: position, ..before.instance },
            ..before
        })
}

/// Whether the parts `after` are the parts `before`, each moved.
pub open spec fn are_moved<P: Fn([Real; 3], [Single; 3]) -> [Single; 3]>(
    before: Seq<RuntimePart>,
    after: Seq<RuntimePart>,
    center: [Real; 3],
    place: P,
) -> bool {
    &&& after.len() == before.len()
    &&& forall|k: int|
        0 <= k < before.len() ==> is_moved(#[trigger] before[k], after[k], center, place)
}

/// Whether `after` is `before` once the parts of the plan have left it, the
/// motion of both being `split`.
pub open spec fn is_parted<P: Fn([Real; 3], [Single; 3]) -> [Single; 3]>(
    before: Vessel,
    after: Vessel,
    removed: Set<u64>,
    split: Split,
    place: P,
) -> bool {
    let shed = after.debris@.last();
    &&& after == (Vessel {
        parts: after.parts,
        velocity: split.velocity,
        debris: after.debris,
        ..before
    })
    &&& after.parts@ == before.parts@.map_values(|part: RuntimePart| left_behind(part, removed))
    &&& after.debris@.len() == before.debris@.len() + 1
    &&& after.debris@.drop_last() == before.debris@
    &&& shed.primary_body == before.primary_body
    &&& are_moved(leaving(before.parts@, removed), shed.parts@, split.center, place)
    &&& shed.position == split.debris_position
    &&& shed.velocity == split.debris_velocity
    &&& shed.attitude == before.attitude
    &&& shed.angular_velocity == before.angular_velocity
}

/// Whether `after` is `before` once the decoupler `id` has fired. `split` gives
/// the motion of both pieces, and `place` a part's place in the frame of a centre.
/// Nothing happens without a decoupler that flies, and where nothing with mass
/// would leave.
pub open spec fn is_decoupled<
    S: Fn(&Vessel, &Separation) -> Split,
    P: Fn([Real; 3], [Single; 3]) -> [Single; 3],
>(
    before: Vessel,
    after: Vessel,
    catalog: Map<Seq<char>, DefinitionView>,
    id: u64,
    split: S,
    place: P,
) -> bool {
    if can_fire(before.parts@, catalog, id) {
        exists|plan: Separation, motion: Split|
            {
                &&& #[trigger] call_ensures(split, (&before, &plan), motion)
                &&& is_separation(before.parts@, catalog, id, plan)
                &&& if motion.mass.spec_at_most(Real::spec_of(EPSILON)) {
                    after == before
                } else {
                    is_parted(before, after, plan.removed@, motion, place)
                }
            }
    } else {
        after == before
    }
}

fn detach<P: Fn([Real; 3], [Single; 3]) -> [Single; 3]>(
    parts: &mut Vec<RuntimePart>,
    removed: &BTreeSet<u64>,
    center: [Real; 3],
    place: P,
) -> (r: Vec<RuntimePart>)
    requires
        forall|a: [Real; 3], b: [Single; 3]| call_requires(place, (a, b)),
    ensures
        final(parts)@ == old(parts)@.map_values(
            |part: RuntimePart| left_behind(part, removed@),
        ),
        are_moved(leaving(old(parts)@, removed@), r@, center, place),
{
    let ghost before = parts@;
    let ghost wanted = |part: RuntimePart| leaves(part, removed@);
    let mut detached: Vec<RuntimePart> = Vec::new();
    let count: usize = parts.len();
    for i in 0..count
        invariant
            forall|a: [Real; 3], b: [Single; 3]| call_requires(place, (a, b)),
            wanted == (|part: RuntimePart| leaves(part, removed@)),
            count == before.len(),
            parts.len() == before.len(),
            forall|k: int| i <= k < before.len() ==> parts@[k] == #[trigger] before[k],
            forall|k: int|
                0 <= k < i ==> parts@[k] == left_behind(#[trigger] before[k], removed@),
            are_moved(before.take(i as int).filter(wanted), detached@, center, place),
    {
        proof {
            lemma_filter_step(before, wanted, i as int);
            assert(parts@[i as int] == before[i as int]);
        }
        if !parts[i].destroyed && removed.contains(&parts[i].instance.instance_id) {
            let mut part = parts[i].clone();
            let position = place(center, part.instance.local_position);
            part.instance.local_position = position;
            proof {
                assert(is_moved(before[i as int], part, center, place));
            }
            let ghost prior = detached@;
            detached.push(part);
            parts[i].destroyed = true;
            parts[i].active = false;
            proof {
                let chosen = before.take(i as int).filter(wanted);
                let more = before.take(i + 1).filter(wanted);
                assert forall|k: int| 0 <= k < more.len() implies is_moved(
                    #[trigger] more[k],
                    detached@[k],
                    center,
                    place,
                ) by {
                    if k < chosen.len() {
                        assert(is_moved(chosen[k], prior[k], center, place));
                    }
                }
            }
        }
    }
    proof {
        assert(before.take(before.len() as int) =~= before);
        assert(parts@ =~= before.map_values(|part: RuntimePart| left_behind(part, removed@)));
    }
    detached
}

/// Fires the decoupler `id`: it and all that hangs on it leave the vessel and
/// drift on as one piece.
pub fn decouple<
    S: Fn(&Vessel, &Separation) -> Split,
    P: Fn([Real; 3], [Single; 3]) -> [Single; 3],
>(vessel: &mut Vessel, catalog: &PartCatalog, id: u64, split: &S, place: &P)
    requires
        forall|v: &Vessel, plan: &Separation| call_requires(*split, (v, plan)),
        forall|a: [Real; 3], b: [Single; 3]| call_requires(*place, (a, b)),
    ensures
        is_decoupled(*old(vessel), *final(vessel), catalog@, id, *split, *place),
{
    let plan = match separation(vessel, catalog, id) {
        Some(plan) => plan,
        None => {
            return;
        },
    };
    let motion = split(vessel, &plan);
    if motion.mass.is_at_most(Real::of(EPSILON)) {
        return;
    }
    let parts = detach(&mut vessel.parts, &plan.removed, motion.center, place);
    vessel.velocity = motion.velocity;
    vessel.debris.push(
        DetachedStage {
            primary_body: vessel.primary_body.clone(),
            parts,
            position: motion.debris_position,
            velocity: motion.debris_velocity,
            attitude: vessel.attitude,
            angular_velocity: vessel.angular_velocity,
        },
    );
    proof {
        assert(vessel.debris@.drop_last() =~= old(vessel).debris@);
    }
}

/// Whether `after` is `before` with the first part of the number `id` that flies
/// changed as `change` says, or `before` itself where there is none.
pub open spec fn is_changed(
    before: Vessel,
    after: Vessel,
    id: u64,
    change: spec_fn(RuntimePart) -> RuntimePart,
) -> bool {
    &&& after == (Vessel { parts: after.parts, ..before })
    &&& after.parts@.len() == before.parts@.len()
    &&& forall|i: int|
        0 <= i < before.parts@.len() ==> #[trigger] after.parts@[i] == (if is_first_flying(
            before.parts@,
            id,
            i,
        ) {
            change(before.parts@[i])
        } else {
            before.parts@[i]
        })
}

/// The part with its engine lit.
pub open spec fn lit(part: RuntimePart) -> RuntimePart {
    RuntimePart { active: true, ..part }
}

/// Opens every parachute.
pub fn deploy_all(vessel: &mut Vessel, catalog: &PartCatalog)
    ensures
        *final(vessel) == (Vessel { parts: final(vessel).parts, ..*old(vessel) }),
        final(vessel).parts@ == old(vessel).parts@.map_values(
            |part: RuntimePart| opened(part, catalog@),
        ),
{
    let ghost before = vessel.parts@;
    let count: usize = vessel.parts.len();
    for i in 0..count
        invariant
            count == before.len(),
            vessel.parts.len() == before.len(),
            *vessel == (Vessel { parts: vessel.parts, ..*old(vessel) }),
            forall|k: int| i <= k < before.len() ==> #[trigger] vessel.parts@[k] == before[k],
            forall|k: int|
                0 <= k < i ==> #[trigger] vessel.parts@[k] == opened(before[k], catalog@),
    {
        proof {
            assert(vessel.parts@[i as int] == before[i as int]);
        }
        if matches!(part_module(&vessel.parts[i], catalog), Some(PartModule::Parachute { .. })) {
            vessel.parts[i].parachute_deployed = true;
        }
    }
    proof {
        assert(vessel.parts@ =~= before.map_values(|part: RuntimePart| opened(part, catalog@)));
    }
}

/// The part with its parachute open, if it is one.
pub open spec fn opened(
    part: RuntimePart,
    catalog: Map<Seq<char>, DefinitionView>,
) -> RuntimePart {
    if module_of(part, catalog) is Some && module_of(part, catalog)->0 is Parachute {
        RuntimePart { parachute_deployed: true, ..part }
    } else {
        part
    }
}

/// Whether `after` is what one action of a stage makes of `before`.
pub open spec fn is_acted<
    S: Fn(&Vessel, &Separation) -> Split,
    P: Fn([Real; 3], [Single; 3]) -> [Single; 3],
>(
    before: Vessel,
    after: Vessel,
    catalog: Map<Seq<char>, DefinitionView>,
    action: StageAction,
    split: S,
    place: P,
) -> bool {
    match action {
        StageAction::ActivateEngine(id) => is_changed(
            before,
            after,
            id,
            |part: RuntimePart| lit(part),
        ),
        StageAction::Decouple(id) => is_decoupled(before, after, catalog, id, split, place),
        StageAction::DeployParachute(id) => is_changed(
            before,
            after,
            id,
            |part: RuntimePart| opened(part, catalog),
        ),
    }
}

/// Whether the vessels of the trace follow on each other, one for each action.
pub open spec fn is_trace<
    S: Fn(&Vessel, &Separation) -> Split,
    P: Fn([Real; 3], [Single; 3]) -> [Single; 3],
>(
    trace: Seq<Vessel>,
    catalog: Map<Seq<char>, DefinitionView>,
    actions: Seq<StageAction>,
    split: S,
    place: P,
) -> bool {
    &&& trace.len() == actions.len() + 1
    &&& forall|k: int|
        0 <= k < actions.len() ==> is_acted(
            #[trigger] trace[k],
            trace[k + 1],
            catalog,
            actions[k],
            split,
            place,
        )
}

/// Whether `after` is what the actions, one after another, make of `before`.
pub open spec fn is_performed<
    S: Fn(&Vessel, &Separation) -> Split,
    P: Fn([Real; 3], [Single; 3]) -> [Single; 3],
>(
    before: Vessel,
    after: Vessel,
    catalog: Map<Seq<char>, DefinitionView>,
    actions: Seq<StageAction>,
    split: S,
    place: P,
) -> bool {
    exists|trace: Seq<Vessel>| #[trigger]
        is_trace(trace, catalog, actions, split, place) && trace[0] == before && trace.last()
            == after
}

/// Whether `after` is `before` after its next stage, or `before` itself where no
/// stage is left.
pub open spec fn is_staged<
    S: Fn(&Vessel, &Separation) -> Split,
    P: Fn([Real; 3], [Single; 3]) -> [Single; 3],
>(
    before: Vessel,
    after: Vessel,
    catalog: Map<Seq<char>, DefinitionView>,
    split: S,
    place: P,
) -> bool {
    if before.next_stage < before.stages@.len() {
        exists|acted: Vessel| #[trigger]
            is_performed(
                before,
                acted,
                catalog,
                before.stages@[before.next_stage as int].actions@,
                split,
                place,
            ) && after == (Vessel { next_stage: (before.next_stage + 1) as usize, ..acted })
    } else {
        after == before
    }
}

fn light(vessel: &mut Vessel, id: u64)
    ensures
        is_changed(*old(vessel), *final(vessel), id, |part: RuntimePart| lit(part)),
{
    if let Some(place) = find_flying(&vessel.parts, id) {
        proof {
            lemma_first_is_only(vessel.parts@, id, place as int);
        }
        vessel.parts[place].active = true;
    } else {
        proof {
            lemma_none_is_first(vessel.parts@, id);
        }
    }
}

fn open_parachute(vessel: &mut Vessel, catalog: &PartCatalog, id: u64)
    ensures
        is_changed(*old(vessel), *final(vessel), id, |part: RuntimePart| opened(part, catalog@)),
{
    if let Some(place) = find_flying(&vessel.parts, id) {
        proof {
            lemma_first_is_only(vessel.parts@, id, place as int);
        }
        if matches!(part_module(&vessel.parts[place], catalog), Some(PartModule::Parachute { .. })) {
            vessel.parts[place].parachute_deployed = true;
        }
    } else {
        proof {
            lemma_none_is_first(vessel.parts@, id);
        }
    }
}

proof fn lemma_first_is_only(parts: Seq<RuntimePart>, id: u64, place: int)
    requires
        is_first_flying(parts, id, place),
    ensures
        forall|other: int| #[trigger] is_first_flying(parts, id, other) ==> other == place,
{
    assert forall|other: int| #[trigger] is_first_flying(parts, id, other) implies other
        == place by {
        if other < place {
            assert(parts[other].destroyed || parts[other].instance.instance_id != id);
        } else if place < other {
            assert(parts[place].destroyed || parts[place].instance.instance_id != id);
        }
    }
}

proof fn lemma_none_is_first(parts: Seq<RuntimePart>, id: u64)
    requires
        forall|k: int|
            0 <= k < parts.len() ==> (#[trigger] parts[k]).instance.instance_id != id
                || parts[k].destroyed,
    ensures
        forall|other: int| !#[trigger] is_first_flying(parts, id, other),
{
    assert forall|other: int| !#[trigger] is_first_flying(parts, id, other) by {
        if is_first_flying(parts, id, other) {
            let part = parts[other];
            assert(part.instance.instance_id != id || part.destroyed);
        }
    }
}

/// Performs the next stage: its actions in their order. Says whether there was one.
#[verifier::rlimit(60)]
#[verifier::spinoff_prover]
pub fn activate_next_stage<
    S: Fn(&Vessel, &Separation) -> Split,
    P: Fn([Real; 3], [Single; 3]) -> [Single; 3],
>(vessel: &mut Vessel, catalog: &PartCatalog, split: &S, place: &P) -> (r: bool)
    requires
        forall|v: &Vessel, plan: &Separation| call_requires(*split, (v, plan)),
        forall|a: [Real; 3], b: [Single; 3]| call_requires(*place, (a, b)),
    ensures
        r == (old(vessel).next_stage < old(vessel).stages.len()),
        is_staged(*old(vessel), *final(vessel), catalog@, *split, *place),
{
    if vessel.next_stage >= vessel.stages.len() {
        return false;
    }
    let actions = vessel.stages[vessel.next_stage].actions.clone();
    let ghost listed = vessel.stages@[vessel.next_stage as int].actions@;
    proof {
        assert(actions@ =~= listed);
    }
    let ghost mut trace: Seq<Vessel> = seq![*vessel];
    for i in 0..actions.len()
        invariant
            forall|v: &Vessel, plan: &Separation| call_requires(*split, (v, plan)),
            forall|a: [Real; 3], b: [Single; 3]| call_requires(*place, (a, b)),
            trace.len() == i + 1,
            trace[0] == *old(vessel),
            trace[i as int] == *vessel,
            vessel.next_stage == old(vessel).next_stage,
            is_trace(trace, catalog@, actions@.take(i as int), *split, *place),
    {
        let ghost before = *vessel;
        match actions[i] {
            StageAction::ActivateEngine(id) => light(vessel, id),
            StageAction::Decouple(id) => decouple(vessel, catalog, id, split, place),
            StageAction::DeployParachute(id) => open_parachute(vessel, catalog, id),
        }
        proof {
            assert(is_acted(before, *vessel, catalog@, actions@[i as int], *split, *place));
            let prior = trace;
            trace = trace.push(*vessel);
            assert forall|k: int| 0 <= k < i + 1 implies is_acted(
                #[trigger] trace[k],
                trace[k + 1],
                catalog@,
                actions@.take(i + 1)[k],
                *split,
                *place,
            ) by {
                if k < i {
                    assert(is_acted(
                        prior[k],
                        prior[k + 1],
                        catalog@,
                        actions@.take(i as int)[k],
                        *split,
                        *place,
                    ));
                }
            }
        }
    }
    let ghost acted = *vessel;
    proof {
        assert(actions@.take(actions@.len() as int) =~= listed);
        assert(is_trace(trace, catalog@, listed, *split, *place));
        assert(is_performed(*old(vessel), acted, catalog@, listed, *split, *place));
    }
    vessel.next_stage = vessel.next_stage + 1;
    true
}

/// The parts that fly.
pub open spec fn flying(parts: Seq<RuntimePart>) -> Seq<RuntimePart> {
    parts.filter(|part: RuntimePart| !part.destroyed)
}

/// A separation loses no part: each part that flew before flies on with the vessel
/// or drifts with the piece that left.
pub proof fn law_separation_loses_no_part<P: Fn([Real; 3], [Single; 3]) -> [Single; 3]>(
    before: Vessel,
    after: Vessel,
    removed: Set<u64>,
    split: Split,
    place: P,
)
    requires
        is_parted(before, after, removed, split, place),
    ensures
        flying(before.parts@).len() == flying(after.parts@).len()
            + after.debris@.last().parts@.len(),
{
    lemma_counts(before.parts@, removed, before.parts@.len() as int);
    assert(before.parts@.take(before.parts@.len() as int) =~= before.parts@);
    assert(after.parts@ =~= before.parts@.map_values(
        |part: RuntimePart| left_behind(part, removed),
    ));
}

proof fn lemma_counts(parts: Seq<RuntimePart>, removed: Set<u64>, n: int)
    requires
        0 <= n <= parts.len(),
    ensures
        flying(parts.take(n)).len() == flying(
            parts.take(n).map_values(|part: RuntimePart| left_behind(part, removed)),
        ).len() + leaving(parts.take(n), removed).len(),
    decreases n,
{
    let change = |part: RuntimePart| left_behind(part, removed);
    let flies = |part: RuntimePart| !part.destroyed;
    let goes = |part: RuntimePart| leaves(part, removed);
    reveal(Seq::filter);
    if n > 0 {
        lemma_counts(parts, removed, n - 1);
        let mapped = parts.map_values(change);
        assert(parts.take(n).map_values(change) =~= mapped.take(n));
        assert(parts.take(n - 1).map_values(change) =~= mapped.take(n - 1));
        lemma_filter_step(parts, flies, n - 1);
        lemma_filter_step(mapped, flies, n - 1);
        lemma_filter_step(parts, goes, n - 1);
    } else {
        assert(parts.take(0).map_values(change) =~= Seq::<RuntimePart>::empty());
    }
}

/// After a separation nothing of what left still flies with the vessel, and what
/// stayed is as it was.
pub proof fn law_separation_parts_cleanly<P: Fn([Real; 3], [Single; 3]) -> [Single; 3]>(
    before: Vessel,
    after: Vessel,
    removed: Set<u64>,
    split: Split,
    place: P,
    i: int,
)
    requires
        is_parted(before, after, removed, split, place),
        0 <= i < before.parts@.len(),
    ensures
        !after.parts@[i].destroyed ==> !removed.contains(after.parts@[i].instance.instance_id),
        !removed.contains(before.parts@[i].instance.instance_id) ==> after.parts@[i]
            == before.parts@[i],
{
}

/// A decoupler that has parted its vessel fires no second time.
pub proof fn law_decoupler_fires_once<P: Fn([Real; 3], [Single; 3]) -> [Single; 3]>(
    before: Vessel,
    after: Vessel,
    catalog: Map<Seq<char>, DefinitionView>,
    id: u64,
    plan: Separation,
    split: Split,
    place: P,
)
    requires
        is_separation(before.parts@, catalog, id, plan),
        is_parted(before, after, plan.removed@, split, place),
    ensures
        !can_fire(after.parts@, catalog, id),
{
    law_subtree_holds_root(tree_nodes(before.parts@), id);
    assert forall|p: int| !#[trigger] is_first_flying(after.parts@, id, p) by {
        if is_first_flying(after.parts@, id, p) {
            law_separation_parts_cleanly(before, after, plan.removed@, split, place, p);
        }
    }
}

/// What no action of a stage changes: the vessel but for its parts, its velocity and what it
/// has shed; the parts and what they hang on, their fuel, their ablator and their
/// temperature; and that what flies no more stays so.
pub open spec fn keeps_parts(before: Vessel, after: Vessel) -> bool {
    &&& after == (Vessel {
        parts: after.parts,
        velocity: after.velocity,
        debris: after.debris,
        ..before
    })
    &&& after.parts@.len() == before.parts@.len()
    &&& forall|i: int|
        0 <= i < before.parts@.len() ==> {
            &&& (#[trigger] after.parts@[i]).instance == before.parts@[i].instance
            &&& before.parts@[i].destroyed ==> after.parts@[i].destroyed
            &&& after.parts@[i].fuel == before.parts@[i].fuel
            &&& after.parts@[i].ablator == before.parts@[i].ablator
            &&& after.parts@[i].temperature == before.parts@[i].temperature
        }
    &&& after.debris@.len() >= before.debris@.len()
    &&& after.debris@.take(before.debris@.len() as int) == before.debris@
}

/// One action keeps the parts, and all of the vessel but its velocity and what it has shed.
pub proof fn law_action_keeps_parts<
    S: Fn(&Vessel, &Separation) -> Split,
    P: Fn([Real; 3], [Single; 3]) -> [Single; 3],
>(
    before: Vessel,
    after: Vessel,
    catalog: Map<Seq<char>, DefinitionView>,
    action: StageAction,
    split: S,
    place: P,
)
    requires
        is_acted(before, after, catalog, action, split, place),
    ensures
        keeps_parts(before, after),
{
    assert(before.debris@.take(before.debris@.len() as int) =~= before.debris@);
    match action {
        StageAction::Decouple(id) => {
            if can_fire(before.parts@, catalog, id) {
                let (plan, motion) = choose|plan: Separation, motion: Split|
                    {
                        &&& #[trigger] call_ensures(split, (&before, &plan), motion)
                        &&& is_separation(before.parts@, catalog, id, plan)
                        &&& if motion.mass.spec_at_most(Real::spec_of(EPSILON)) {
                            after == before
                        } else {
                            is_parted(before, after, plan.removed@, motion, place)
                        }
                    };
                if !motion.mass.spec_at_most(Real::spec_of(EPSILON)) {
                    assert(after.debris@.take(before.debris@.len() as int)
                        =~= after.debris@.drop_last());
                }
            }
        },
        _ => {},
    }
}

/// A stage keeps the parts: it renames none, brings none back, burns nothing, and
/// leaves alone what was shed before. It keeps all else of the vessel but its velocity:
/// its name, its body and its place, its attitude and rotation, its levers, its maneuver,
/// its crew.
pub proof fn law_stage_keeps_parts<
    S: Fn(&Vessel, &Separation) -> Split,
    P: Fn([Real; 3], [Single; 3]) -> [Single; 3],
>(
    before: Vessel,
    after: Vessel,
    catalog: Map<Seq<char>, DefinitionView>,
    actions: Seq<StageAction>,
    split: S,
    place: P,
)
    requires
        is_performed(before, after, catalog, actions, split, place),
    ensures
        keeps_parts(before, after),
{
    let trace = choose|trace: Seq<Vessel>| #[trigger]
        is_trace(trace, catalog, actions, split, place) && trace[0] == before && trace.last()
            == after;
    lemma_trace_keeps_parts(trace, catalog, actions, split, place, actions.len() as int);
}

proof fn lemma_trace_keeps_parts<
    S: Fn(&Vessel, &Separation) -> Split,
    P: Fn([Real; 3], [Single; 3]) -> [Single; 3],
>(
    trace: Seq<Vessel>,
    catalog: Map<Seq<char>, DefinitionView>,
    actions: Seq<StageAction>,
    split: S,
    place: P,
    n: int,
)
    requires
        is_trace(trace, catalog, actions, split, place),
        0 <= n <= actions.len(),
    ensures
        keeps_parts(trace[0], trace[n]),
    decreases n,
{
    if n > 0 {
        lemma_trace_keeps_parts(trace, catalog, actions, split, place, n - 1);
        let a = trace[0];
        let b = trace[n - 1];
        let c = trace[n];
        law_action_keeps_parts(b, c, catalog, actions[n - 1], split, place);
        assert(keeps_parts(a, b) && keeps_parts(b, c));
        assert forall|i: int| 0 <= i < a.parts@.len() implies {
            &&& (#[trigger] c.parts@[i]).instance == a.parts@[i].instance
            &&& a.parts@[i].destroyed ==> c.parts@[i].destroyed
            &&& c.parts@[i].fuel == a.parts@[i].fuel
            &&& c.parts@[i].ablator == a.parts@[i].ablator
            &&& c.parts@[i].temperature == a.parts@[i].temperature
        } by {
            assert(b.parts@[i].instance == a.parts@[i].instance);
        }
        assert(c.debris@.take(a.debris@.len() as int) =~= c.debris@.take(
            b.debris@.len() as int,
        ).take(a.debris@.len() as int));
    } else {
        assert(trace[0].debris@.take(trace[0].debris@.len() as int) =~= trace[0].debris@);
    }
}

/// What one action leaves to a part: a parachute once open stays open, an engine once lit stays
/// lit while its part flies, and neither comes about but by the action that is for it.
proof fn lemma_action_on_a_part<
    S: Fn(&Vessel, &Separation) -> Split,
    P: Fn([Real; 3], [Single; 3]) -> [Single; 3],
>(
    before: Vessel,
    after: Vessel,
    catalog: Map<Seq<char>, DefinitionView>,
    action: StageAction,
    split: S,
    place: P,
    i: int,
)
    requires
        is_acted(before, after, catalog, action, split, place),
        0 <= i < before.parts@.len(),
    ensures
        before.parts@[i].parachute_deployed ==> after.parts@[i].parachute_deployed,
        before.parts@[i].active && !after.parts@[i].destroyed ==> after.parts@[i].active,
        after.parts@[i].parachute_deployed && !before.parts@[i].parachute_deployed ==> action
            == StageAction::DeployParachute(before.parts@[i].instance.instance_id),
        after.parts@[i].active && !before.parts@[i].active ==> action
            == StageAction::ActivateEngine(before.parts@[i].instance.instance_id),
        after.parts@[i].destroyed && !before.parts@[i].destroyed ==> action is Decouple,
{
    match action {
        StageAction::Decouple(id) => {
            if can_fire(before.parts@, catalog, id) {
                let (plan, motion) = choose|plan: Separation, motion: Split|
                    {
                        &&& #[trigger] call_ensures(split, (&before, &plan), motion)
                        &&& is_separation(before.parts@, catalog, id, plan)
                        &&& if motion.mass.spec_at_most(Real::spec_of(EPSILON)) {
                            after == before
                        } else {
                            is_parted(before, after, plan.removed@, motion, place)
                        }
                    };
            }
        },
        _ => {},
    }
}

proof fn lemma_trace_on_a_part<
    S: Fn(&Vessel, &Separation) -> Split,
    P: Fn([Real; 3], [Single; 3]) -> [Single; 3],
>(
    trace: Seq<Vessel>,
    catalog: Map<Seq<char>, DefinitionView>,
    actions: Seq<StageAction>,
    split: S,
    place: P,
    from: int,
    to: int,
    i: int,
)
    requires
        is_trace(trace, catalog, actions, split, place),
        0 <= from <= to <= actions.len(),
        0 <= i < trace[0].parts@.len(),
    ensures
        trace[from].parts@.len() == trace[0].parts@.len(),
        trace[to].parts@.len() == trace[0].parts@.len(),
        trace[from].parts@[i].instance == trace[0].parts@[i].instance,
        trace[to].parts@[i].instance == trace[0].parts@[i].instance,
        trace[from].parts@[i].destroyed ==> trace[to].parts@[i].destroyed,
        trace[from].parts@[i].parachute_deployed ==> trace[to].parts@[i].parachute_deployed,
        trace[from].parts@[i].active && !trace[to].parts@[i].destroyed
            ==> trace[to].parts@[i].active,
    decreases to - from,
{
    lemma_trace_keeps_parts(trace, catalog, actions, split, place, from);
    lemma_trace_keeps_parts(trace, catalog, actions, split, place, to);
    if from < to {
        lemma_trace_on_a_part(trace, catalog, actions, split, place, from, to - 1, i);
        assert(is_acted(trace[to - 1], trace[to - 1 + 1], catalog, actions[to - 1], split, place));
        lemma_action_on_a_part(
            trace[to - 1],
            trace[to],
            catalog,
            actions[to - 1],
            split,
            place,
            i,
        );
        law_action_keeps_parts(trace[to - 1], trace[to], catalog, actions[to - 1], split, place);
    }
}

/// What a stage promises of a part comes true unless the stage sheds that part: after a stage
/// with the action for it, the first flying part of a number is an open parachute where it is a
/// parachute, and a lit engine where it was to be lit.
pub proof fn law_stage_does_its_actions<
    S: Fn(&Vessel, &Separation) -> Split,
    P: Fn([Real; 3], [Single; 3]) -> [Single; 3],
>(
    before: Vessel,
    after: Vessel,
    catalog: Map<Seq<char>, DefinitionView>,
    split: S,
    place: P,
    a: int,
    p: int,
)
    requires
        is_staged(before, after, catalog, split, place),
        before.next_stage < before.stages@.len(),
        0 <= a < before.stages@[before.next_stage as int].actions@.len(),
        0 <= p < before.parts@.len(),
        !before.parts@[p].destroyed,
        forall|k: int|
            0 <= k < p ==> (#[trigger] before.parts@[k]).instance.instance_id
                != before.parts@[p].instance.instance_id || before.parts@[k].destroyed,
        !after.parts@[p].destroyed,
    ensures
        before.stages@[before.next_stage as int].actions@[a] == StageAction::DeployParachute(
            before.parts@[p].instance.instance_id,
        ) && catalog.contains_key(before.parts@[p].instance.definition_id@)
            && catalog[before.parts@[p].instance.definition_id@].module is Parachute
            ==> after.parts@[p].parachute_deployed,
        before.stages@[before.next_stage as int].actions@[a] == StageAction::ActivateEngine(
            before.parts@[p].instance.instance_id,
        ) ==> after.parts@[p].active,
{
    let actions = before.stages@[before.next_stage as int].actions@;
    let id = before.parts@[p].instance.instance_id;
    let acted = choose|acted: Vessel| #[trigger]
        is_performed(before, acted, catalog, actions, split, place) && after == (Vessel {
            next_stage: (before.next_stage + 1) as usize,
            ..acted
        });
    let trace = choose|trace: Seq<Vessel>| #[trigger]
        is_trace(trace, catalog, actions, split, place) && trace[0] == before && trace.last()
            == acted;
    let end = actions.len() as int;
    lemma_trace_on_a_part(trace, catalog, actions, split, place, 0, a, p);
    lemma_trace_on_a_part(trace, catalog, actions, split, place, a, end, p);
    lemma_trace_on_a_part(trace, catalog, actions, split, place, a + 1, end, p);
    assert forall|k: int| 0 <= k < p implies (#[trigger] trace[a].parts@[k]).instance.instance_id
        != id || trace[a].parts@[k].destroyed by {
        lemma_trace_on_a_part(trace, catalog, actions, split, place, 0, a, k);
        assert(before.parts@[k].instance.instance_id != id || before.parts@[k].destroyed);
    }
    assert(is_first_flying(trace[a].parts@, id, p));
    assert(is_acted(trace[a], trace[a + 1], catalog, actions[a], split, place));
}

/// A stage does no more than its actions say: a parachute opens, an engine is lit and a part is
/// shed only where an action of the stage is for that; the count goes up by one; and where no
/// stage is left, nothing happens.
pub proof fn law_stage_does_only_its_actions<
    S: Fn(&Vessel, &Separation) -> Split,
    P: Fn([Real; 3], [Single; 3]) -> [Single; 3],
>(
    before: Vessel,
    after: Vessel,
    catalog: Map<Seq<char>, DefinitionView>,
    split: S,
    place: P,
    p: int,
)
    requires
        is_staged(before, after, catalog, split, place),
        0 <= p < before.parts@.len(),
    ensures
        before.next_stage >= before.stages@.len() ==> after == before,
        before.next_stage < before.stages.len() ==> {
            let actions = before.stages@[before.next_stage as int].actions@;
            let id = before.parts@[p].instance.instance_id;
            &&& after.next_stage == before.next_stage + 1
            &&& after.parts@[p].parachute_deployed && !before.parts@[p].parachute_deployed
                ==> actions.contains(StageAction::DeployParachute(id))
            &&& after.parts@[p].active && !before.parts@[p].active ==> actions.contains(
                StageAction::ActivateEngine(id),
            )
            &&& after.parts@[p].destroyed && !before.parts@[p].destroyed ==> exists|a: int|
                0 <= a < actions.len() && #[trigger] actions[a] is Decouple
        },
{
    if before.next_stage < before.stages.len() {
        let actions = before.stages@[before.next_stage as int].actions@;
        let acted = choose|acted: Vessel| #[trigger]
            is_performed(before, acted, catalog, actions, split, place) && after == (Vessel {
                next_stage: (before.next_stage + 1) as usize,
                ..acted
            });
        let trace = choose|trace: Seq<Vessel>| #[trigger]
            is_trace(trace, catalog, actions, split, place) && trace[0] == before && trace.last()
                == acted;
        lemma_trace_on_a_part(
            trace,
            catalog,
            actions,
            split,
            place,
            0,
            actions.len() as int,
            p,
        );
        lemma_trace_does_only(trace, catalog, actions, split, place, actions.len() as int, p);
    }
}

proof fn lemma_trace_does_only<
    S: Fn(&Vessel, &Separation) -> Split,
    P: Fn([Real; 3], [Single; 3]) -> [Single; 3],
>(
    trace: Seq<Vessel>,
    catalog: Map<Seq<char>, DefinitionView>,
    actions: Seq<StageAction>,
    split: S,
    place: P,
    n: int,
    p: int,
)
    requires
        is_trace(trace, catalog, actions, split, place),
        0 <= n <= actions.len(),
        0 <= p < trace[0].parts@.len(),
    ensures
        ({
            let id = trace[0].parts@[p].instance.instance_id;
            &&& trace[n].parts@[p].parachute_deployed && !trace[0].parts@[p].parachute_deployed
                ==> actions.contains(StageAction::DeployParachute(id))
            &&& trace[n].parts@[p].active && !trace[0].parts@[p].active ==> actions.contains(
                StageAction::ActivateEngine(id),
            )
            &&& trace[n].parts@[p].destroyed && !trace[0].parts@[p].destroyed ==> exists|a: int|
                0 <= a < actions.len() && #[trigger] actions[a] is Decouple
        }),
    decreases n,
{
    if n > 0 {
        lemma_trace_does_only(trace, catalog, actions, split, place, n - 1, p);
        lemma_trace_on_a_part(trace, catalog, actions, split, place, 0, n - 1, p);
        assert(is_acted(trace[n - 1], trace[n - 1 + 1], catalog, actions[n - 1], split, place));
        lemma_action_on_a_part(
            trace[n - 1],
            trace[n],
            catalog,
            actions[n - 1],
            split,
            place,
            p,
        );
    }
}

/// A decoupler that flies and parts something with mass sheds its whole subtree and nothing
/// else: a flying part is gone afterwards exactly where it hangs on the decoupler, directly or
/// not; one more detached stage flies, with the vessel's body, attitude and rotation; and both
/// move as the split with the decoupler's own impulse says. What is no decoupler sheds nothing.
pub proof fn law_decoupler_sheds_its_subtree<
    S: Fn(&Vessel, &Separation) -> Split,
    P: Fn([Real; 3], [Single; 3]) -> [Single; 3],
>(
    before: Vessel,
    after: Vessel,
    catalog: Map<Seq<char>, DefinitionView>,
    id: u64,
    split: S,
    place: P,
    p: int,
    i: int,
)
    requires
        is_decoupled(before, after, catalog, id, split, place),
        0 <= p < before.parts@.len(),
        before.parts@[p].instance.instance_id == id,
        !before.parts@[p].destroyed,
        forall|k: int|
            0 <= k < p ==> (#[trigger] before.parts@[k]).instance.instance_id != id
                || before.parts@[k].destroyed,
        catalog.contains_key(before.parts@[p].instance.definition_id@),
        0 <= i < before.parts@.len(),
        forall|plan: Separation, motion: Split| #[trigger]
            call_ensures(split, (&before, &plan), motion) ==> !motion.mass.spec_at_most(
                Real::spec_of(EPSILON),
            ),
    ensures
        ({
            let module = catalog[before.parts@[p].instance.definition_id@].module;
            if module is InlineDecoupler || module is RadialDecoupler {
                &&& after.parts@[i].destroyed <==> before.parts@[i].destroyed || subtree(
                    tree_nodes(before.parts@),
                    id,
                ).contains(before.parts@[i].instance.instance_id)
                &&& after.debris@.len() == before.debris@.len() + 1
                &&& after.debris@.last().primary_body == before.primary_body
                &&& after.debris@.last().attitude == before.attitude
                &&& after.debris@.last().angular_velocity == before.angular_velocity
                &&& exists|plan: Separation, motion: Split|
                    {
                        &&& #[trigger] call_ensures(split, (&before, &plan), motion)
                        &&& module is InlineDecoupler ==> plan.impulse
                            == module->InlineDecoupler_impulse
                        &&& module is RadialDecoupler ==> plan.impulse
                            == module->RadialDecoupler_impulse
                        &&& plan.rotation == before.parts@[p].instance.local_rotation
                        &&& after.velocity == motion.velocity
                        &&& after.debris@.last().position == motion.debris_position
                        &&& after.debris@.last().velocity == motion.debris_velocity
                    }
            } else {
                after == before
            }
        }),
{
    assert(is_first_flying(before.parts@, id, p));
    let module = catalog[before.parts@[p].instance.definition_id@].module;
    assert forall|q: int| #[trigger] is_first_flying(before.parts@, id, q) implies q == p by {
        if q < p {
            assert(before.parts@[q].instance.instance_id != id || before.parts@[q].destroyed);
        } else if p < q {
            assert(before.parts@[p].instance.instance_id != id || before.parts@[p].destroyed);
        }
    }
    if module is InlineDecoupler || module is RadialDecoupler {
        assert(can_fire(before.parts@, catalog, id));
        let (plan, motion) = choose|plan: Separation, motion: Split|
            {
                &&& #[trigger] call_ensures(split, (&before, &plan), motion)
                &&& is_separation(before.parts@, catalog, id, plan)
                &&& if motion.mass.spec_at_most(Real::spec_of(EPSILON)) {
                    after == before
                } else {
                    is_parted(before, after, plan.removed@, motion, place)
                }
            };
        assert(is_parted(before, after, plan.removed@, motion, place));
        assert(after.parts@[i] == left_behind(before.parts@[i], plan.removed@));
        assert(call_ensures(split, (&before, &plan), motion));
    } else {
        assert(!can_fire(before.parts@, catalog, id));
    }
}

/// What a part carries with it is what hangs on it, directly or not: the part itself, each
/// part that hangs on one of these, and no more.
pub proof fn law_what_hangs_on_a_part(parts: Seq<RuntimePart>, root: u64, i: int, id: u64)
    requires
        0 <= i < parts.len(),
    ensures
        subtree(tree_nodes(parts), root).contains(root),
        parts[i].instance.parent is Some && subtree(tree_nodes(parts), root).contains(
            parts[i].instance.parent->0,
        ) ==> subtree(tree_nodes(parts), root).contains(parts[i].instance.instance_id),
        subtree(tree_nodes(parts), root).contains(id) && id != root ==> exists|j: int|
            0 <= j < parts.len() && (#[trigger] parts[j]).instance.instance_id == id
                && parts[j].instance.parent is Some && subtree(tree_nodes(parts), root).contains(
                parts[j].instance.parent->0,
            ),
{
    let nodes = tree_nodes(parts);
    law_subtree_holds_root(nodes, root);
    assert(nodes[i].parent == parts[i].instance.parent);
    if parts[i].instance.parent is Some && subtree(nodes, root).contains(
        parts[i].instance.parent->0,
    ) {
        law_subtree_is_whole(nodes, root, i);
    }
    if subtree(nodes, root).contains(id) && id != root {
        law_subtree_hangs_together(nodes, root, id);
        let j = choose|j: int|
            0 <= j < nodes.len() && (#[trigger] nodes[j]).id == id && nodes[j].parent is Some
                && subtree(nodes, root).contains(nodes[j].parent->0);
        assert(parts[j].instance.instance_id == id);
    }
}

/// Firing the next stage does what each of its actions says, on the parts that stay: the
/// parachutes open and the engines are lit; it counts the stage, and there is nothing to fire
/// after the last.
pub proof fn law_next_stage_acts<
    S: Fn(&Vessel, &Separation) -> Split,
    P: Fn([Real; 3], [Single; 3]) -> [Single; 3],
>(
    vessel: &mut Vessel,
    catalog: &PartCatalog,
    split: &S,
    place: &P,
    r: bool,
    a: int,
    p: int,
)
    requires
        call_ensures(activate_next_stage::<S, P>, (vessel, catalog, split, place), r),
        0 <= p < old(vessel).parts@.len(),
        !old(vessel).parts@[p].destroyed,
        forall|k: int|
            0 <= k < p ==> (#[trigger] old(vessel).parts@[k]).instance.instance_id
                != old(vessel).parts@[p].instance.instance_id || old(vessel).parts@[k].destroyed,
    ensures
        r <==> old(vessel).next_stage < old(vessel).stages@.len(),
        !r ==> *final(vessel) == *old(vessel),
        r ==> final(vessel).next_stage == old(vessel).next_stage + 1,
        r && 0 <= a < old(vessel).stages@[old(vessel).next_stage as int].actions@.len()
            && !final(vessel).parts@[p].destroyed ==> {
            let action = old(vessel).stages@[old(vessel).next_stage as int].actions@[a];
            let part = old(vessel).parts@[p];
            &&& action == StageAction::DeployParachute(part.instance.instance_id)
                && catalog@.contains_key(part.instance.definition_id@)
                && catalog@[part.instance.definition_id@].module is Parachute
                ==> final(vessel).parts@[p].parachute_deployed
            &&& action == StageAction::ActivateEngine(part.instance.instance_id)
                ==> final(vessel).parts@[p].active
        },
{
    let before = *vessel;
    let after = *final(vessel);
    assert(before.stages.len() == before.stages@.len());
    if before.next_stage < before.stages@.len() {
        let actions = before.stages@[before.next_stage as int].actions@;
        let acted = choose|acted: Vessel| #[trigger]
            is_performed(before, acted, catalog@, actions, *split, *place) && after == (Vessel {
                next_stage: (before.next_stage + 1) as usize,
                ..acted
            });
        law_stage_keeps_parts(before, acted, catalog@, actions, *split, *place);
        if 0 <= a < actions.len() && !after.parts@[p].destroyed {
            law_stage_does_its_actions(before, after, catalog@, *split, *place, a, p);
        }
    }
}

/// What a separation finds: the first flying part of that number, where it is a decoupler; the
/// impulse of its kind, and itself with all that hangs on it to be shed.
pub proof fn law_separation_is_of_a_decoupler(
    vessel: &Vessel,
    catalog: &PartCatalog,
    id: u64,
    found: Option<usize>,
    plan: Option<Separation>,
    hanging: BTreeSet<u64>,
)
    requires
        call_ensures(find_flying, (&vessel.parts, id), found),
        call_ensures(separation, (vessel, catalog, id), plan),
        call_ensures(descendants, (vessel, id), hanging),
    ensures
        found is None ==> plan is None,
        found is Some ==> {
            let part = vessel.parts@[found->0 as int];
            let module = catalog@[part.instance.definition_id@].module;
            let decoupler = catalog@.contains_key(part.instance.definition_id@) && (
            module is InlineDecoupler || module is RadialDecoupler);
            &&& part.instance.instance_id == id && !part.destroyed
            &&& plan is Some <==> decoupler
            &&& plan is Some ==> plan->0.removed@ == hanging@ && plan->0.rotation
                == part.instance.local_rotation
            &&& plan is Some && module is InlineDecoupler ==> plan->0.impulse
                == module->InlineDecoupler_impulse
            &&& plan is Some && module is RadialDecoupler ==> plan->0.impulse
                == module->RadialDecoupler_impulse
        },
        hanging@.contains(id),
{
    let parts = vessel.parts@;
    law_subtree_holds_root(tree_nodes(parts), id);
    if plan is Some {
        let place = choose|place: int|
            {
                &&& #[trigger] is_first_flying(parts, id, place)
                &&& is_decoupler(module_of(parts[place], catalog@))
                &&& plan->0.impulse == impulse_of(module_of(parts[place], catalog@)->0)
                &&& plan->0.rotation == parts[place].instance.local_rotation
                &&& plan->0.removed@ == subtree(tree_nodes(parts), id)
            };
        if found is Some {
            assert(is_first_flying(parts, id, found->0 as int));
            assert(place == found->0);
        } else {
            assert(is_found_flying(parts, id, found));
            assert(parts[place].instance.instance_id != id || parts[place].destroyed);
        }
    } else if found is Some {
        assert(is_first_flying(parts, id, found->0 as int));
    }
}

/// What is shed drifts off whole: every flying part that was to go, as it was, at its place
/// from the new centre, and no other.
pub proof fn law_shed_parts_drift_off<P: Fn([Real; 3], [Single; 3]) -> [Single; 3]>(
    before: Vessel,
    after: Vessel,
    removed: Set<u64>,
    split: Split,
    place: P,
    i: int,
    k: int,
)
    requires
        is_parted(before, after, removed, split, place),
        0 <= i < before.parts@.len(),
    ensures
        after.velocity == split.velocity,
        after.position == before.position,
        ({
            let shed = after.debris@.last();
            let part = before.parts@[i];
            let goes = !part.destroyed && removed.contains(part.instance.instance_id);
            &&& shed.position == split.debris_position && shed.velocity == split.debris_velocity
            &&& goes ==> after.parts@[i].destroyed && !after.parts@[i].active
            &&& !goes ==> after.parts@[i] == part
            &&& goes ==> exists|j: int, position: [Single; 3]|
                {
                    &&& 0 <= j < shed.parts@.len()
                    &&& #[trigger] call_ensures(
                        place,
                        (split.center, part.instance.local_position),
                        position,
                    )
                    &&& (#[trigger] shed.parts@[j]).instance.instance_id
                        == part.instance.instance_id
                    &&& shed.parts@[j].instance.local_position == position
                    &&& shed.parts@[j].fuel == part.fuel
                    &&& shed.parts@[j].active == part.active
                    &&& !shed.parts@[j].destroyed
                }
            &&& 0 <= k < shed.parts@.len() ==> removed.contains(
                shed.parts@[k].instance.instance_id,
            ) && !shed.parts@[k].destroyed
        }),
{
    broadcast use vstd::seq_lib::group_filter_ensures;

    let wanted = |part: RuntimePart| leaves(part, removed);
    let gone = leaving(before.parts@, removed);
    let shed = after.debris@.last();
    assert(gone == before.parts@.filter(wanted));
    let part = before.parts@[i];
    if wanted(part) {
        assert(gone.contains(part));
        let j = choose|j: int| 0 <= j < gone.len() && gone[j] == part;
        assert(is_moved(gone[j], shed.parts@[j], split.center, place));
        let position = choose|position: [Single; 3]| #[trigger]
            call_ensures(place, (split.center, part.instance.local_position), position)
                && shed.parts@[j] == (RuntimePart {
                instance: PartInstance { local_position: position, ..part.instance },
                ..part
            });
        assert(call_ensures(place, (split.center, part.instance.local_position), position));
        assert(shed.parts@[j].instance.instance_id == part.instance.instance_id);
    }
    if 0 <= k < shed.parts@.len() {
        assert(is_moved(gone[k], shed.parts@[k], split.center, place));
        assert(wanted(gone[k]));
    }
}

/// A decoupler that is fired does what its plan says, and anything else is left alone.
pub proof fn law_decoupling_follows_the_plan<
    S: Fn(&Vessel, &Separation) -> Split,
    P: Fn([Real; 3], [Single; 3]) -> [Single; 3],
>(
    vessel: &mut Vessel,
    catalog: &PartCatalog,
    id: u64,
    split: &S,
    place: &P,
    plan: Option<Separation>,
)
    requires
        call_ensures(decouple::<S, P>, (vessel, catalog, id, split, place), ()),
        call_ensures(separation, (&*old(vessel), catalog, id), plan),
        forall|v: &Vessel, plan: &Separation, motion: Split| #[trigger]
            call_ensures(*split, (v, plan), motion) ==> motion.mass.spec_is_finite(),
    ensures
        plan is None ==> *final(vessel) == *old(vessel),
        plan is Some ==> exists|fired: Separation, motion: Split|
            {
                &&& #[trigger] call_ensures(*split, (&*old(vessel), &fired), motion)
                &&& fired.impulse == plan->0.impulse
                &&& fired.removed@ == plan->0.removed@
                &&& motion.mass.value() * pow2(52) <= pow2(1074) ==> *final(vessel) == *old(vessel)
                &&& motion.mass.value() * pow2(52) > pow2(1074) ==> final(vessel).velocity
                    == motion.velocity && final(vessel).debris@.len() == old(vessel).debris@.len()
                    + 1
            },
{
    let before = *vessel;
    let after = *final(vessel);
    let parts = before.parts@;
    assert(is_decoupled(before, after, catalog@, id, *split, *place));
    if plan is Some {
        let p = choose|p: int|
            {
                &&& #[trigger] is_first_flying(parts, id, p)
                &&& is_decoupler(module_of(parts[p], catalog@))
                &&& plan->0.impulse == impulse_of(module_of(parts[p], catalog@)->0)
                &&& plan->0.rotation == parts[p].instance.local_rotation
                &&& plan->0.removed@ == subtree(tree_nodes(parts), id)
            };
        assert(can_fire(parts, catalog@, id));
        let (fired, motion) = choose|fired: Separation, motion: Split|
            {
                &&& #[trigger] call_ensures(*split, (&before, &fired), motion)
                &&& is_separation(before.parts@, catalog@, id, fired)
                &&& if motion.mass.spec_at_most(Real::spec_of(EPSILON)) {
                    after == before
                } else {
                    is_parted(before, after, fired.removed@, motion, *place)
                }
            };
        let q = choose|q: int|
            {
                &&& #[trigger] is_first_flying(parts, id, q)
                &&& is_decoupler(module_of(parts[q], catalog@))
                &&& fired.impulse == impulse_of(module_of(parts[q], catalog@)->0)
                &&& fired.rotation == parts[q].instance.local_rotation
                &&& fired.removed@ == subtree(tree_nodes(parts), id)
            };
        assert(p == q);
        assert(call_ensures(*split, (&before, &fired), motion));
        lemma_above_a_trace(motion.mass);
    }
}

/// All parachutes open at once, and nothing else changes.
pub proof fn law_all_parachutes_open(vessel: &mut Vessel, catalog: &PartCatalog, i: int)
    requires
        call_ensures(deploy_all, (vessel, catalog), ()),
        0 <= i < old(vessel).parts@.len(),
    ensures
        *final(vessel) == (Vessel { parts: final(vessel).parts, ..*old(vessel) }),
        ({
            let part = old(vessel).parts@[i];
            let parachute = catalog@.contains_key(part.instance.definition_id@)
                && catalog@[part.instance.definition_id@].module is Parachute;
            &&& parachute ==> final(vessel).parts@[i] == (RuntimePart {
                parachute_deployed: true,
                ..part
            })
            &&& !parachute ==> final(vessel).parts@[i] == part
        }),
{
}

} // verus!
