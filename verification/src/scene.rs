//! What stands in the scene: parts, planet, pad, marks and the camera.
use crate::craft::{is_engine, lemma_filter_step, CraftBlueprint, PartInstance};
use crate::debug_state::AppMode;
use crate::mission::MissionProgress;
use crate::number::{law_whole_numbers_compare, Real};
use crate::parts::{DefinitionView, PartCategory, PartDefinition, PartModule};
use crate::staging::flying;
use crate::vessel::{DetachedStage, RuntimePart, Vessel};
use vstd::arithmetic::power2::*;
use vstd::prelude::*;

verus! {

/// A part as it is drawn.
#[derive(Debug)]
pub struct DrawnPart {
    pub instance: PartInstance,
    pub chute_open: bool,
    pub active: bool,
    /// The place of the detached stage that it belongs to, if it has left the vessel.
    pub debris: Option<usize>,
}

/// A part in flight as it is drawn.
pub open spec fn drawn_in_flight(part: RuntimePart, debris: Option<usize>) -> DrawnPart {
    DrawnPart {
        instance: part.instance,
        chute_open: part.parachute_deployed,
        active: part.active,
        debris,
    }
}

/// A part of a design as it is drawn.
pub open spec fn drawn_in_editor(part: PartInstance) -> DrawnPart {
    DrawnPart { instance: part, chute_open: false, active: false, debris: None }
}

/// The parts of the first `n` detached stages as they are drawn.
pub open spec fn drawn_debris(debris: Seq<DetachedStage>, n: int) -> Seq<DrawnPart>
    decreases n,
{
    if n <= 0 {
        seq![]
    } else {
        drawn_debris(debris, n - 1) + debris[n - 1].parts@.map_values(
            |part: RuntimePart| drawn_in_flight(part, Some((n - 1) as usize)),
        )
    }
}

/// The parts of a vessel as they are drawn: those that fly, then those of its
/// detached stages.
pub open spec fn drawn_vessel(vessel: Vessel) -> Seq<DrawnPart> {
    flying(vessel.parts@).map_values(|part: RuntimePart| drawn_in_flight(part, None))
        + drawn_debris(vessel.debris@, vessel.debris@.len() as int)
}

/// The parts that are drawn.
pub open spec fn drawn(mode: AppMode, craft: CraftBlueprint, vessel: Option<Vessel>) -> Seq<
    DrawnPart,
> {
    match mode {
        AppMode::Menu => seq![],
        AppMode::Editor => craft.parts@.map_values(|part: PartInstance| drawn_in_editor(part)),
        AppMode::Flight => match vessel {
            Some(vessel) => drawn_vessel(vessel),
            None => seq![],
        },
    }
}

fn draw_stage(drawn: &mut Vec<DrawnPart>, parts: &Vec<RuntimePart>, place: usize)
    ensures
        final(drawn)@ == old(drawn)@ + parts@.map_values(
            |part: RuntimePart| drawn_in_flight(part, Some(place)),
        ),
{
    let ghost before = drawn@;
    let ghost all = parts@.map_values(|part: RuntimePart| drawn_in_flight(part, Some(place)));
    proof {
        assert(before + all.take(0) =~= before);
    }
    for i in 0..parts.len()
        invariant
            all == parts@.map_values(|part: RuntimePart| drawn_in_flight(part, Some(place))),
            drawn@ == before + all.take(i as int),
    {
        drawn.push(
            DrawnPart {
                instance: parts[i].instance.clone(),
                chute_open: parts[i].parachute_deployed,
                active: parts[i].active,
                debris: Some(place),
            },
        );
        proof {
            assert(drawn@ =~= before + all.take(i + 1));
        }
    }
    proof {
        assert(all.take(all.len() as int) =~= all);
    }
}

fn draw_vessel(vessel: &Vessel) -> (r: Vec<DrawnPart>)
    ensures
        r@ == drawn_vessel(*vessel),
{
    let mut r: Vec<DrawnPart> = Vec::new();
    let ghost flies = |part: RuntimePart| !part.destroyed;
    let ghost draw = |part: RuntimePart| drawn_in_flight(part, None);
    proof {
        reveal(Seq::filter);
        assert(r@ =~= vessel.parts@.take(0).filter(flies).map_values(draw));
    }
    for i in 0..vessel.parts.len()
        invariant
            flies == (|part: RuntimePart| !part.destroyed),
            draw == (|part: RuntimePart| drawn_in_flight(part, None)),
            r@ == vessel.parts@.take(i as int).filter(flies).map_values(draw),
    {
        let part = &vessel.parts[i];
        let ghost prior = vessel.parts@.take(i as int).filter(flies);
        proof {
            lemma_filter_step(vessel.parts@, flies, i as int);
        }
        if !part.destroyed {
            r.push(
                DrawnPart {
                    instance: part.instance.clone(),
                    chute_open: part.parachute_deployed,
                    active: part.active,
                    debris: None,
                },
            );
            proof {
                assert(r@ =~= prior.push(*part).map_values(draw));
            }
        }
    }
    let ghost aboard = r@;
    proof {
        assert(vessel.parts@.take(vessel.parts@.len() as int) =~= vessel.parts@);
        assert(aboard + drawn_debris(vessel.debris@, 0) =~= aboard);
    }
    for k in 0..vessel.debris.len()
        invariant
            r@ == aboard + drawn_debris(vessel.debris@, k as int),
    {
        draw_stage(&mut r, &vessel.debris[k].parts, k);
        proof {
            assert(r@ =~= aboard + drawn_debris(vessel.debris@, k + 1));
        }
    }
    r
}

/// The parts that are drawn.
pub fn drawn_parts(mode: AppMode, craft: &CraftBlueprint, vessel: &Option<Vessel>) -> (r: Vec<
    DrawnPart,
>)
    ensures
        r@ == drawn(mode, *craft, *vessel),
{
    match mode {
        AppMode::Menu => {
            let r: Vec<DrawnPart> = Vec::new();
            proof {
                assert(r@ =~= drawn(mode, *craft, *vessel));
            }
            r
        },
        AppMode::Editor => {
            let mut r: Vec<DrawnPart> = Vec::new();
            let ghost all = craft.parts@.map_values(|part: PartInstance| drawn_in_editor(part));
            for i in 0..craft.parts.len()
                invariant
                    all == craft.parts@.map_values(|part: PartInstance| drawn_in_editor(part)),
                    r@ == all.take(i as int),
            {
                r.push(
                    DrawnPart {
                        instance: craft.parts[i].clone(),
                        chute_open: false,
                        active: false,
                        debris: None,
                    },
                );
                proof {
                    assert(r@ =~= all.take(i + 1));
                }
            }
            proof {
                assert(all.take(all.len() as int) =~= all);
            }
            r
        },
        AppMode::Flight => match vessel {
            Some(vessel) => draw_vessel(vessel),
            None => {
                let r: Vec<DrawnPart> = Vec::new();
                proof {
                    assert(r@ =~= drawn(mode, *craft, *vessel));
                }
                r
            },
        },
    }
}

/// The body of a part as it is drawn.
#[derive(Debug, Clone, Copy, PartialEq, Eq, Structural)]
pub enum PartShape {
    Canopy,
    Block,
    Cylinder,
}

/// The looks of a part.
#[derive(Debug, Clone, Copy, PartialEq, Eq, Structural)]
pub struct PartLook {
    pub shape: PartShape,
    /// Whether it glows, as burning engines do.
    pub glows: bool,
    /// Whether it is of bare metal.
    pub metallic: bool,
}

/// The looks of a part of that kind.
pub open spec fn look_of(kind: DefinitionView, chute_open: bool, active: bool) -> PartLook {
    PartLook {
        shape: if chute_open && kind.module is Parachute {
            PartShape::Canopy
        } else if kind.is_boxed() {
            PartShape::Block
        } else {
            PartShape::Cylinder
        },
        glows: active && is_engine(kind.module),
        metallic: kind.category == PartCategory::Fuel || kind.category == PartCategory::Propulsion,
    }
}

/// The looks of a part of that kind.
pub fn part_look(kind: &PartDefinition, chute_open: bool, active: bool) -> (r: PartLook)
    ensures
        r == look_of(kind@, chute_open, active),
{
    let shape = if chute_open && matches!(kind.module, PartModule::Parachute { .. }) {
        PartShape::Canopy
    } else if kind.is_boxed() {
        PartShape::Block
    } else {
        PartShape::Cylinder
    };
    PartLook {
        shape,
        glows: active && matches!(
            kind.module,
            PartModule::LiquidEngine { .. } | PartModule::SolidEngine { .. }
        ),
        metallic: kind.category == PartCategory::Fuel || kind.category == PartCategory::Propulsion,
    }
}

/// Where the camera stands.
#[derive(Debug, Clone, Copy, PartialEq, Eq, Structural)]
pub enum CameraPlace {
    Menu,
    Editor,
    Above,
    /// Round the vessel, in the position of that number.
    Chase(usize),
}

/// What of the scene can be seen, and from where.
#[derive(Debug, Clone, Copy, PartialEq, Eq, Structural)]
pub struct Scene {
    pub planet: bool,
    pub pad: bool,
    pub marker: bool,
    pub parts: bool,
    pub camera: CameraPlace,
}

/// What of the scene can be seen: in the editor the pad and the parts, on the map the
/// planet and the vessel's mark, in flight the planet and the parts, and the pad near the
/// home world.
pub open spec fn scene_of(mode: AppMode, map: bool, at_home: bool, camera_mode: usize) -> Scene {
    match mode {
        AppMode::Menu => Scene {
            planet: false,
            pad: false,
            marker: false,
            parts: false,
            camera: CameraPlace::Menu,
        },
        AppMode::Editor => Scene {
            planet: false,
            pad: true,
            marker: false,
            parts: true,
            camera: CameraPlace::Editor,
        },
        AppMode::Flight => if map {
            Scene {
                planet: true,
                pad: false,
                marker: true,
                parts: false,
                camera: CameraPlace::Above,
            }
        } else {
            Scene {
                planet: true,
                pad: at_home,
                marker: false,
                parts: true,
                camera: CameraPlace::Chase(camera_mode % 3),
            }
        },
    }
}

/// What of the scene can be seen, and from where.
pub fn scene(mode: AppMode, map: bool, at_home: bool, camera_mode: usize) -> (r: Scene)
    ensures
        r == scene_of(mode, map, at_home, camera_mode),
{
    match mode {
        AppMode::Menu => Scene {
            planet: false,
            pad: false,
            marker: false,
            parts: false,
            camera: CameraPlace::Menu,
        },
        AppMode::Editor => Scene {
            planet: false,
            pad: true,
            marker: false,
            parts: true,
            camera: CameraPlace::Editor,
        },
        AppMode::Flight => if map {
            Scene {
                planet: true,
                pad: false,
                marker: true,
                parts: false,
                camera: CameraPlace::Above,
            }
        } else {
            Scene {
                planet: true,
                pad: at_home,
                marker: false,
                parts: true,
                camera: CameraPlace::Chase(camera_mode % 3),
            }
        },
    }
}

/// The parts and the mark that stands for them on the map are never shown together.
pub proof fn law_parts_or_marker(mode: AppMode, map: bool, at_home: bool, camera_mode: usize)
    ensures
        !(scene_of(mode, map, at_home, camera_mode).parts && scene_of(
            mode,
            map,
            at_home,
            camera_mode,
        ).marker),
{
}

/// A goal of the guided mission as it is shown.
#[derive(Debug, Clone, Copy)]
pub struct Objective {
    pub done: bool,
    pub label: &'static str,
}

/// Whether the objective is so and says so.
pub open spec fn is_objective(objective: Objective, done: bool, label: Seq<char>) -> bool {
    objective.done == done && objective.label@ == label
}

/// The goals of the guided mission, in their order.
pub fn objectives(mission: &MissionProgress) -> (r: Vec<Objective>)
    ensures
        r.len() == 5,
        is_objective(r@[0], mission.launched, "Clear the launch tower"@),
        is_objective(r@[1], mission.staged, "Separate a spent stage"@),
        is_objective(r@[2], mission.achieved_orbit, "Raise periapsis above 75 km"@),
        is_objective(r@[3], mission.began_reentry, "Re-enter Carapace's atmosphere"@),
        is_objective(r@[4], mission.recovered, "Recover the command pod"@),
{
    vec![
        Objective { done: mission.launched, label: "Clear the launch tower" },
        Objective { done: mission.staged, label: "Separate a spent stage" },
        Objective { done: mission.achieved_orbit, label: "Raise periapsis above 75 km" },
        Objective { done: mission.began_reentry, label: "Re-enter Carapace's atmosphere" },
        Objective { done: mission.recovered, label: "Recover the command pod" },
    ]
}

/// How a distance is written.
#[derive(Debug, Clone, Copy, PartialEq, Eq, Structural)]
pub enum DistanceUnit {
    /// It has no end.
    Escape,
    Megametres,
    Kilometres,
}

/// How a distance is written, given it and its size without sign.
pub fn distance_unit(value: Real, size: Real) -> (r: DistanceUnit)
    ensures
        r == (if !value.spec_is_finite() {
            DistanceUnit::Escape
        } else if Real::spec_integer(1_000_000).spec_at_most(size) {
            DistanceUnit::Megametres
        } else {
            DistanceUnit::Kilometres
        }),
{
    if !value.is_finite() {
        DistanceUnit::Escape
    } else if Real::integer(1_000_000).is_at_most(size) {
        DistanceUnit::Megametres
    } else {
        DistanceUnit::Kilometres
    }
}

/// The menu shows no part, the editor every part of the craft as it was built, and flight
/// every flying part of the vessel with its parachute and flame, then what has left it.
pub proof fn law_parts_are_drawn_where_they_are(
    mode: AppMode,
    craft: &CraftBlueprint,
    vessel: &Option<Vessel>,
    r: Vec<DrawnPart>,
    i: int,
)
    requires
        call_ensures(drawn_parts, (mode, craft, vessel), r),
    ensures
        mode is Menu ==> r@.len() == 0,
        mode is Flight && *vessel is None ==> r@.len() == 0,
        mode is Editor ==> r@.len() == craft.parts@.len(),
        mode is Editor && 0 <= i < craft.parts@.len() ==> r@[i].instance == craft.parts@[i]
            && !r@[i].chute_open && !r@[i].active && r@[i].debris is None,
        mode is Flight && *vessel is Some ==> {
            let parts = vessel->0.parts@;
            let shown = flying(parts).len();
            &&& forall|k: int| 0 <= k < shown ==> (#[trigger] r@[k]).debris is None
            &&& forall|k: int| shown <= k < r@.len() ==> (#[trigger] r@[k]).debris is Some
            &&& 0 <= i < parts.len() && !parts[i].destroyed ==> exists|k: int|
                {
                    &&& 0 <= k < shown && (#[trigger] r@[k]).instance == parts[i].instance
                    &&& r@[k].chute_open == parts[i].parachute_deployed
                    &&& r@[k].active == parts[i].active
                }
            &&& 0 <= i < shown ==> exists|k: int|
                0 <= k < parts.len() && !(#[trigger] parts[k]).destroyed && parts[k].instance
                    == r@[i].instance
        },
{
    broadcast use vstd::seq_lib::group_filter_ensures;

    if mode is Flight && *vessel is Some {
        let parts = vessel->0.parts@;
        let wanted = |part: RuntimePart| !part.destroyed;
        let kept = flying(parts);
        assert(kept == parts.filter(wanted));
        let debris = vessel->0.debris@;
        lemma_debris_is_marked(debris, debris.len() as int);
        let rest = drawn_debris(debris, debris.len() as int);
        assert(r@.len() == kept.len() + rest.len());
        assert forall|k: int| kept.len() <= k < r@.len() implies (#[trigger] r@[k]).debris
            is Some by {
            assert(r@[k] == rest[k - kept.len()]);
        }
        if 0 <= i < parts.len() && !parts[i].destroyed {
            assert(wanted(parts[i]));
            assert(kept.contains(parts[i]));
            let k = choose|k: int| 0 <= k < kept.len() && kept[k] == parts[i];
            assert(r@[k] == drawn_in_flight(kept[k], None));
        }
        if 0 <= i < kept.len() {
            assert(kept.contains(kept[i]));
            assert(wanted(kept[i]));
            parts.lemma_filter_contains_rev(wanted, kept[i]);
            let k = choose|k: int| 0 <= k < parts.len() && parts[k] == kept[i];
            assert(r@[i] == drawn_in_flight(kept[i], None));
            assert(!parts[k].destroyed);
        }
    }
}

proof fn lemma_debris_is_marked(debris: Seq<DetachedStage>, n: int)
    requires
        0 <= n <= debris.len(),
    ensures
        forall|k: int|
            0 <= k < drawn_debris(debris, n).len() ==> (#[trigger] drawn_debris(debris, n)[k]).debris
                is Some,
    decreases n,
{
    if n > 0 {
        lemma_debris_is_marked(debris, n - 1);
    }
}

/// What has left a vessel is drawn piece by piece, each part under the number of its piece.
pub proof fn law_debris_is_drawn_by_piece(debris: Seq<DetachedStage>, n: int, i: int)
    requires
        0 < n <= debris.len(),
        n <= usize::MAX,
        0 <= i < debris[n - 1].parts@.len(),
    ensures
        ({
            let earlier = drawn_debris(debris, n - 1);
            let all = drawn_debris(debris, n);
            let part = all[earlier.len() + i];
            &&& all.len() == earlier.len() + debris[n - 1].parts@.len()
            &&& all.take(earlier.len() as int) == earlier
            &&& part.instance == debris[n - 1].parts@[i].instance
            &&& part.chute_open == debris[n - 1].parts@[i].parachute_deployed
            &&& part.active == debris[n - 1].parts@[i].active
            &&& part.debris is Some && part.debris->0 == n - 1
        }),
{
    let earlier = drawn_debris(debris, n - 1);
    assert(drawn_debris(debris, n).take(earlier.len() as int) =~= earlier);
}

/// An open parachute is a canopy; else what goes on the side, fins, legs and thrusters are
/// blocks, and the rest are cylinders. Engines glow while they burn, and tanks and engines are
/// of metal.
pub proof fn law_parts_look_like_their_kind(
    kind: &PartDefinition,
    chute_open: bool,
    active: bool,
    r: PartLook,
)
    requires
        call_ensures(part_look, (kind, chute_open, active), r),
    ensures
        r.shape is Canopy <==> chute_open && kind.module is Parachute,
        !(r.shape is Canopy) ==> (r.shape is Block <==> kind.radial || kind.module is Fin
            || kind.module is LandingLeg || kind.module is Rcs),
        r.glows <==> active && (kind.module is LiquidEngine || kind.module is SolidEngine),
        r.metallic <==> kind.category is Fuel || kind.category is Propulsion,
{
}

/// The planet is there in flight, the pad in the editor and, outside the map, on the home body,
/// the marker on the map alone, and the parts wherever there are any but on the map.
pub proof fn law_scenes_show_what_belongs(
    mode: AppMode,
    map: bool,
    at_home: bool,
    camera_mode: usize,
    r: Scene,
)
    requires
        call_ensures(scene, (mode, map, at_home, camera_mode), r),
    ensures
        r.planet <==> mode is Flight,
        r.pad <==> mode is Editor || mode is Flight && !map && at_home,
        r.marker <==> mode is Flight && map,
        r.parts <==> mode is Editor || mode is Flight && !map,
        r.camera is Menu <==> mode is Menu,
        r.camera is Editor <==> mode is Editor,
        r.camera is Above <==> mode is Flight && map,
        mode is Flight && !map ==> r.camera is Chase && r.camera->Chase_0 < 3 && (camera_mode < 3
            ==> r.camera->Chase_0 == camera_mode),
{
}

/// The objectives are the five goals in their order.
pub proof fn law_objectives_are_the_goals(mission: &MissionProgress, r: Vec<Objective>)
    requires
        call_ensures(objectives, (mission,), r),
    ensures
        r@.len() == 5,
        r@[0].done == mission.launched && r@[0].label@ == "Clear the launch tower"@,
        r@[1].done == mission.staged && r@[1].label@ == "Separate a spent stage"@,
        r@[2].done == mission.achieved_orbit && r@[2].label@ == "Raise periapsis above 75 km"@,
        r@[3].done == mission.began_reentry && r@[3].label@ == "Re-enter Carapace's atmosphere"@,
        r@[4].done == mission.recovered && r@[4].label@ == "Recover the command pod"@,
{
}

/// A distance without end is an escape; from a million metres it is read in megametres, and
/// below in kilometres.
pub proof fn law_distances_have_their_unit(value: Real, size: Real, r: DistanceUnit)
    requires
        call_ensures(distance_unit, (value, size), r),
        size.spec_is_finite(),
    ensures
        r is Escape <==> !value.spec_is_finite(),
        value.spec_is_finite() ==> (r is Megametres <==> size.value() >= 1_000_000 * pow2(1074)),
{
    law_whole_numbers_compare(1_000_000, size);
}

} // verus!
