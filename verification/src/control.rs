//! Who moves the levers: the pilot, a script, or a debugger that holds them.
use crate::number::{
    law_integer_has_its_value, law_larger_and_smaller, law_named_numbers, law_no_number_compares,
    law_order_is_numeric, law_whole_numbers_compare, Real, MINUS_ONE,
};
use crate::parts::{DefinitionView, PartCatalog};
use crate::script::ScriptCommands;
use crate::staging::{
    activate_next_stage, deploy_all, is_performed, is_staged, law_stage_keeps_parts, opened,
    Separation, Split,
};
use crate::vessel::{FlightControls, FlightSituation, ManeuverNode, RuntimePart, SasMode, Vessel};
use crate::mission::MissionProgress;
use crate::number::Single;
use vstd::arithmetic::power2::*;
use vstd::prelude::*;

verus! {

/// The number of camera positions.
pub const CAMERA_MODES: usize = 3;

/// The keys that the pilot holds or has pressed.
#[derive(Debug, Clone, Copy)]
pub struct PilotInput {
    pub pitch_down: bool,
    pub pitch_up: bool,
    pub yaw_right: bool,
    pub yaw_left: bool,
    pub roll_right: bool,
    pub roll_left: bool,
    /// The throttle that the keys for more and less lead to, where they change it.
    pub throttle: Option<Real>,
    pub full_throttle: bool,
    pub cut_throttle: bool,
    pub toggle_sas: bool,
    pub toggle_rcs: bool,
}

/// Lever positions that hold until they are released, whatever keys are pressed.
#[derive(Debug, Clone, Copy, PartialEq, Eq)]
pub struct LatchedAxes {
    pub pitch: Option<Real>,
    pub yaw: Option<Real>,
    pub roll: Option<Real>,
}

/// Lever positions that a debugger asks for.
#[derive(Debug, Clone, Copy)]
pub struct ControlRequest {
    pub throttle: Option<Real>,
    pub pitch: Option<Real>,
    pub yaw: Option<Real>,
    pub roll: Option<Real>,
}

/// What gives the levers back to the pilot.
#[derive(Debug, Clone, Copy, PartialEq, Eq, Structural)]
pub enum ReleaseEvent {
    /// The debugger lets go.
    Released,
    LeftFlight,
    Launched,
    LoadedQuicksave,
}

/// The deflection of a lever with one key for each way.
pub open spec fn deflection_of(negative: bool, positive: bool) -> Real {
    if positive == negative {
        Real::spec_of(0)
    } else if positive {
        Real::spec_integer(1)
    } else {
        Real::spec_of(MINUS_ONE)
    }
}

/// The deflection of a lever with one key for each way.
pub fn axis(negative: bool, positive: bool) -> (r: Real)
    ensures
        r == deflection_of(negative, positive),
{
    if positive == negative {
        Real::zero()
    } else if positive {
        Real::integer(1)
    } else {
        Real::of(MINUS_ONE)
    }
}

/// The value that is held, or else the other.
pub open spec fn held_or(held: Option<Real>, other: Real) -> Real {
    match held {
        Some(value) => value,
        None => other,
    }
}

/// The stability assist after it was switched: off where it was on in any mode, and else
/// on in the mode that damps rotation.
pub open spec fn toggled_sas(sas: Option<SasMode>) -> Option<SasMode> {
    if sas is Some {
        None
    } else {
        Some(SasMode::Stability)
    }
}

/// Switches the stability assist.
pub fn toggle_sas(controls: &mut FlightControls)
    ensures
        *final(controls) == (FlightControls {
            sas: toggled_sas(old(controls).sas),
            ..*old(controls)
        }),
{
    controls.sas = if controls.sas.is_some() {
        None
    } else {
        Some(SasMode::Stability)
    };
}

/// Switches the thrusters.
pub fn toggle_rcs(controls: &mut FlightControls)
    ensures
        *final(controls) == (FlightControls { rcs: !old(controls).rcs, ..*old(controls) }),
{
    controls.rcs = !controls.rcs;
}

/// The levers after the pilot's keys, where latched ones stay.
pub open spec fn piloted(
    controls: FlightControls,
    input: PilotInput,
    latched: LatchedAxes,
) -> FlightControls {
    FlightControls {
        pitch: held_or(latched.pitch, deflection_of(input.pitch_down, input.pitch_up)),
        yaw: held_or(latched.yaw, deflection_of(input.yaw_right, input.yaw_left)),
        roll: held_or(latched.roll, deflection_of(input.roll_right, input.roll_left)),
        throttle: if input.cut_throttle {
            Real::spec_of(0)
        } else if input.full_throttle {
            Real::spec_integer(1)
        } else {
            match input.throttle {
                Some(wanted) => wanted.spec_clamp(Real::spec_of(0), Real::spec_integer(1)),
                None => controls.throttle,
            }
        },
        sas: if input.toggle_sas {
            toggled_sas(controls.sas)
        } else {
            controls.sas
        },
        rcs: if input.toggle_rcs {
            !controls.rcs
        } else {
            controls.rcs
        },
    }
}

fn held(axis: Option<Real>, other: Real) -> (r: Real)
    ensures
        r == held_or(axis, other),
{
    match axis {
        Some(value) => value,
        None => other,
    }
}

/// Moves the levers as the pilot's keys say, where latched ones stay.
pub fn pilot(controls: &mut FlightControls, input: &PilotInput, latched: &LatchedAxes)
    ensures
        *final(controls) == piloted(*old(controls), *input, *latched),
{
    controls.pitch = held(latched.pitch, axis(input.pitch_down, input.pitch_up));
    controls.yaw = held(latched.yaw, axis(input.yaw_right, input.yaw_left));
    controls.roll = held(latched.roll, axis(input.roll_right, input.roll_left));
    if let Some(wanted) = input.throttle {
        controls.throttle = wanted.clamp(Real::zero(), Real::integer(1));
    }
    if input.full_throttle {
        controls.throttle = Real::integer(1);
    }
    if input.cut_throttle {
        controls.throttle = Real::zero();
    }
    if input.toggle_sas {
        toggle_sas(controls);
    }
    if input.toggle_rcs {
        toggle_rcs(controls);
    }
}

/// Whether the value lies between the two.
pub open spec fn is_within(low: Real, value: Real, high: Real) -> bool {
    low.spec_at_most(value) && value.spec_at_most(high)
}

/// Whether the value lies between the two.
pub fn within(low: Real, value: Real, high: Real) -> (r: bool)
    ensures
        r == is_within(low, value, high),
{
    low.is_at_most(value) && value.is_at_most(high)
}

/// Whether a throttle lies between none and full.
pub open spec fn is_throttle(value: Real) -> bool {
    is_within(Real::spec_of(0), value, Real::spec_integer(1))
}

/// Whether a lever lies within full deflection either way.
pub open spec fn is_axis(value: Real) -> bool {
    is_within(Real::spec_of(MINUS_ONE), value, Real::spec_integer(1))
}

/// Whether a lever lies within full deflection either way.
pub fn axis_in_range(value: Real) -> (r: bool)
    ensures
        r == is_axis(value),
{
    within(Real::of(MINUS_ONE), value, Real::integer(1))
}

/// Whether a throttle lies between none and full.
pub fn throttle_in_range(value: Real) -> (r: bool)
    ensures
        r == is_throttle(value),
{
    within(Real::zero(), value, Real::integer(1))
}

/// The lever of a request that lies outside its range, the first of throttle, pitch,
/// yaw and roll.
pub open spec fn bad_lever(request: ControlRequest) -> Option<Seq<char>> {
    if request.throttle is Some && !is_throttle(request.throttle->0) {
        Some("throttle"@)
    } else if request.pitch is Some && !is_axis(request.pitch->0) {
        Some("pitch"@)
    } else if request.yaw is Some && !is_axis(request.yaw->0) {
        Some("yaw"@)
    } else if request.roll is Some && !is_axis(request.roll->0) {
        Some("roll"@)
    } else {
        None
    }
}

fn find_bad_lever(request: &ControlRequest) -> (r: Option<&'static str>)
    ensures
        match r {
            Some(name) => bad_lever(*request) == Some(name@),
            None => bad_lever(*request) is None,
        },
{
    if let Some(value) = request.throttle {
        if !throttle_in_range(value) {
            return Some("throttle");
        }
    }
    if let Some(value) = request.pitch {
        if !axis_in_range(value) {
            return Some("pitch");
        }
    }
    if let Some(value) = request.yaw {
        if !axis_in_range(value) {
            return Some("yaw");
        }
    }
    if let Some(value) = request.roll {
        if !axis_in_range(value) {
            return Some("roll");
        }
    }
    None
}

/// The newer value, or else the older.
pub open spec fn newer_or(newer: Option<Real>, older: Option<Real>) -> Option<Real> {
    if newer is Some {
        newer
    } else {
        older
    }
}

/// Sets the levers as a debugger asks: the throttle once, the others until they are
/// released. A request that is out of range changes nothing.
pub fn set_flight_controls(
    controls: &mut FlightControls,
    latched: &mut LatchedAxes,
    request: &ControlRequest,
) -> (r: Result<(), String>)
    ensures
        match r {
            Ok(()) => {
                &&& bad_lever(*request) is None
                &&& *final(latched) == (LatchedAxes {
                    pitch: newer_or(request.pitch, old(latched).pitch),
                    yaw: newer_or(request.yaw, old(latched).yaw),
                    roll: newer_or(request.roll, old(latched).roll),
                })
                &&& *final(controls) == (FlightControls {
                    throttle: held_or(request.throttle, old(controls).throttle),
                    pitch: held_or(request.pitch, old(controls).pitch),
                    yaw: held_or(request.yaw, old(controls).yaw),
                    roll: held_or(request.roll, old(controls).roll),
                    ..*old(controls)
                })
            },
            Err(reason) => {
                &&& bad_lever(*request) is Some
                &&& reason@ == bad_lever(*request)->0 + " is outside its valid range"@
                &&& *final(controls) == *old(controls)
                &&& *final(latched) == *old(latched)
            },
        },
{
    if let Some(name) = find_bad_lever(request) {
        let mut reason = name.to_owned();
        reason.append(" is outside its valid range");
        return Err(reason);
    }
    if let Some(value) = request.throttle {
        controls.throttle = value;
    }
    if let Some(value) = request.pitch {
        controls.pitch = value;
        latched.pitch = Some(value);
    }
    if let Some(value) = request.yaw {
        controls.yaw = value;
        latched.yaw = Some(value);
    }
    if let Some(value) = request.roll {
        controls.roll = value;
        latched.roll = Some(value);
    }
    Ok(())
}

impl LatchedAxes {
    /// No lever is latched.
    pub open spec fn free() -> Self {
        LatchedAxes { pitch: None, yaw: None, roll: None }
    }

    /// Gives all levers back to the pilot, whatever the reason.
    pub fn release(&mut self, event: ReleaseEvent)
        ensures
            *final(self) == Self::free(),
    {
        self.pitch = None;
        self.yaw = None;
        self.roll = None;
    }
}

impl Default for LatchedAxes {
    fn default() -> (r: Self)
        ensures
            r == Self::free(),
    {
        LatchedAxes { pitch: None, yaw: None, roll: None }
    }
}

/// A latched lever stays where it is whatever the pilot does, and the throttle is
/// never latched.
pub proof fn law_latched_levers_hold(
    controls: FlightControls,
    input: PilotInput,
    latched: LatchedAxes,
    other: LatchedAxes,
)
    ensures
        latched.pitch is Some ==> piloted(controls, input, latched).pitch == latched.pitch->0,
        latched.yaw is Some ==> piloted(controls, input, latched).yaw == latched.yaw->0,
        latched.roll is Some ==> piloted(controls, input, latched).roll == latched.roll->0,
        piloted(controls, input, latched).throttle == piloted(controls, input, other).throttle,
{
}

/// Once released, the levers follow the keys alone.
pub proof fn law_released_levers_follow_the_keys(
    one: FlightControls,
    other: FlightControls,
    input: PilotInput,
)
    ensures
        piloted(one, input, LatchedAxes::free()).pitch == deflection_of(
            input.pitch_down,
            input.pitch_up,
        ),
        piloted(one, input, LatchedAxes::free()).yaw == piloted(
            other,
            input,
            LatchedAxes::free(),
        ).yaw,
        piloted(one, input, LatchedAxes::free()).roll == piloted(
            other,
            input,
            LatchedAxes::free(),
        ).roll,
{
}

/// The levers after what a script asked for.
pub open spec fn scripted(controls: FlightControls, commands: ScriptCommands) -> FlightControls {
    FlightControls {
        throttle: held_or(commands.throttle, controls.throttle),
        pitch: held_or(commands.pitch, controls.pitch),
        yaw: held_or(commands.yaw, controls.yaw),
        roll: held_or(commands.roll, controls.roll),
        sas: match commands.sas {
            Some(mode) => mode,
            None => controls.sas,
        },
        rcs: match commands.rcs {
            Some(enabled) => enabled,
            None => controls.rcs,
        },
    }
}

/// The maneuver after what a script asked for.
pub open spec fn planned(
    maneuver: Option<ManeuverNode>,
    commands: ScriptCommands,
) -> Option<ManeuverNode> {
    match commands.maneuver {
        Some((ut, prograde, normal, radial)) => Some(
            ManeuverNode { ut, prograde, normal, radial },
        ),
        None => maneuver,
    }
}

/// Whether `after` is the vessel `before` after what a script asked for: its levers
/// are set, then its next stage is activated, then its parachutes are opened and its
/// maneuver is planned, each where it was asked for.
pub open spec fn is_commanded<
    S: Fn(&Vessel, &Separation) -> Split,
    P: Fn([Real; 3], [Single; 3]) -> [Single; 3],
>(
    before: Vessel,
    after: Vessel,
    catalog: Map<Seq<char>, DefinitionView>,
    commands: ScriptCommands,
    split: S,
    place: P,
) -> bool {
    let steered = Vessel { controls: scripted(before.controls, commands), ..before };
    exists|staged: Vessel| #[trigger]
        is_outfitted(staged, after, catalog, commands) && if commands.stage {
            is_staged(steered, staged, catalog, split, place)
        } else {
            staged == steered
        }
}

/// Whether `after` is the vessel `before` with its parachutes opened and its maneuver
/// planned, each where a script asked for it.
pub open spec fn is_outfitted(
    before: Vessel,
    after: Vessel,
    catalog: Map<Seq<char>, DefinitionView>,
    commands: ScriptCommands,
) -> bool {
    &&& after == (Vessel {
        parts: after.parts,
        maneuver: planned(before.maneuver, commands),
        ..before
    })
    &&& after.parts@ == if commands.deploy_parachutes {
        before.parts@.map_values(|part: RuntimePart| opened(part, catalog))
    } else {
        before.parts@
    }
}

/// Does what a script asked for. Says whether the vessel looks different now.
pub fn apply_commands<
    S: Fn(&Vessel, &Separation) -> Split,
    P: Fn([Real; 3], [Single; 3]) -> [Single; 3],
>(
    vessel: &mut Vessel,
    catalog: &PartCatalog,
    commands: &ScriptCommands,
    split: &S,
    place: &P,
) -> (r: bool)
    requires
        forall|v: &Vessel, plan: &Separation| call_requires(*split, (v, plan)),
        forall|a: [Real; 3], b: [Single; 3]| call_requires(*place, (a, b)),
    ensures
        is_commanded(*old(vessel), *final(vessel), catalog@, *commands, *split, *place),
        r == (commands.deploy_parachutes || commands.stage && old(vessel).next_stage < old(
            vessel,
        ).stages.len()),
{
    if let Some(value) = commands.throttle {
        vessel.controls.throttle = value;
    }
    if let Some(value) = commands.pitch {
        vessel.controls.pitch = value;
    }
    if let Some(value) = commands.yaw {
        vessel.controls.yaw = value;
    }
    if let Some(value) = commands.roll {
        vessel.controls.roll = value;
    }
    if let Some(mode) = commands.sas {
        vessel.controls.sas = mode;
    }
    if let Some(enabled) = commands.rcs {
        vessel.controls.rcs = enabled;
    }
    let ghost steered = *vessel;
    proof {
        assert(steered == (Vessel {
            controls: scripted(old(vessel).controls, *commands),
            ..*old(vessel)
        }));
    }
    let mut changed = false;
    if commands.stage {
        changed = activate_next_stage(vessel, catalog, split, place);
    }
    let ghost staged = *vessel;
    proof {
        assert(commands.stage ==> is_staged(steered, staged, catalog@, *split, *place));
    }
    if commands.deploy_parachutes {
        deploy_all(vessel, catalog);
        changed = true;
    }
    if let Some((ut, prograde, normal, radial)) = commands.maneuver {
        vessel.maneuver = Some(ManeuverNode { ut, prograde, normal, radial });
    }
    proof {
        assert(is_outfitted(staged, *vessel, catalog@, *commands));
    }
    changed
}

/// The camera position after the present one.
pub fn next_camera(mode: usize) -> (r: usize)
    requires
        mode < usize::MAX,
    ensures
        r == (mode + 1) % CAMERA_MODES as int,
{
    (mode + 1) % CAMERA_MODES
}

/// What the pilot reads after a step, if there is news: a recovery comes before a
/// crash.
pub open spec fn news(situation: FlightSituation, mission: MissionProgress) -> Option<Seq<char>> {
    if mission.recovered {
        Some("Mission complete — recovered safely on Carapace!"@)
    } else if situation == FlightSituation::Crashed {
        Some(
            "Mission failed: command vehicle lost. The crab crew has been returned to the roster."@,
        )
    } else {
        None
    }
}

/// What the pilot reads after a step, if there is news.
pub fn flight_notice(situation: FlightSituation, mission: &MissionProgress) -> (r: Option<
    &'static str,
>)
    ensures
        match r {
            Some(text) => news(situation, *mission) == Some(text@),
            None => news(situation, *mission) is None,
        },
{
    if mission.recovered {
        Some("Mission complete — recovered safely on Carapace!")
    } else if situation == FlightSituation::Crashed {
        Some("Mission failed: command vehicle lost. The crab crew has been returned to the roster.")
    } else {
        None
    }
}

/// A script's commands land on the vessel, each where it belongs: every lever and switch that
/// they name, the planned manoeuvre in all its parts, and the parachutes. What they do not
/// name stays as it was.
pub proof fn law_commands_reach_the_vessel<
    S: Fn(&Vessel, &Separation) -> Split,
    P: Fn([Real; 3], [Single; 3]) -> [Single; 3],
>(
    vessel: &mut Vessel,
    catalog: &PartCatalog,
    commands: &ScriptCommands,
    split: &S,
    place: &P,
    r: bool,
    i: int,
)
    requires
        call_ensures(apply_commands::<S, P>, (vessel, catalog, commands, split, place), r),
        0 <= i < old(vessel).parts@.len(),
    ensures
        match commands.maneuver {
            Some((ut, prograde, normal, radial)) => {
                &&& final(vessel).maneuver is Some
                &&& final(vessel).maneuver->0.ut == ut
                &&& final(vessel).maneuver->0.prograde == prograde
                &&& final(vessel).maneuver->0.normal == normal
                &&& final(vessel).maneuver->0.radial == radial
            },
            None => final(vessel).maneuver == old(vessel).maneuver,
        },
        commands.throttle is Some ==> final(vessel).controls.throttle == commands.throttle->0,
        commands.throttle is None ==> final(vessel).controls.throttle
            == old(vessel).controls.throttle,
        commands.pitch is Some ==> final(vessel).controls.pitch == commands.pitch->0,
        commands.pitch is None ==> final(vessel).controls.pitch == old(vessel).controls.pitch,
        commands.yaw is Some ==> final(vessel).controls.yaw == commands.yaw->0,
        commands.yaw is None ==> final(vessel).controls.yaw == old(vessel).controls.yaw,
        commands.roll is Some ==> final(vessel).controls.roll == commands.roll->0,
        commands.roll is None ==> final(vessel).controls.roll == old(vessel).controls.roll,
        commands.sas is Some ==> final(vessel).controls.sas == commands.sas->0,
        commands.sas is None ==> final(vessel).controls.sas == old(vessel).controls.sas,
        commands.rcs is Some ==> final(vessel).controls.rcs == commands.rcs->0,
        commands.rcs is None ==> final(vessel).controls.rcs == old(vessel).controls.rcs,
        commands.stage && old(vessel).next_stage < old(vessel).stages@.len()
            ==> final(vessel).next_stage == old(vessel).next_stage + 1 && r,
        !commands.stage || old(vessel).next_stage >= old(vessel).stages@.len()
            ==> final(vessel).next_stage == old(vessel).next_stage && final(vessel).debris
            == old(vessel).debris && final(vessel).velocity == old(vessel).velocity && r
            == commands.deploy_parachutes,
        final(vessel).stages == old(vessel).stages,
        final(vessel).position == old(vessel).position,
        final(vessel).attitude == old(vessel).attitude,
        final(vessel).situation == old(vessel).situation,
        final(vessel).primary_body == old(vessel).primary_body,
        final(vessel).parts@.len() == old(vessel).parts@.len(),
        final(vessel).parts@[i].fuel == old(vessel).parts@[i].fuel,
        commands.deploy_parachutes ==> r,
        commands.deploy_parachutes && catalog@.contains_key(
            old(vessel).parts@[i].instance.definition_id@,
        ) && catalog@[old(vessel).parts@[i].instance.definition_id@].module is Parachute
            ==> final(vessel).parts@[i].parachute_deployed,
        (!commands.stage || old(vessel).next_stage >= old(vessel).stages@.len())
            && !commands.deploy_parachutes ==> final(vessel).parts@[i]
            == old(vessel).parts@[i],
{
    let before = *vessel;
    let after = *final(vessel);
    assert(is_commanded(before, after, catalog@, *commands, *split, *place));
    let steered = Vessel { controls: scripted(before.controls, *commands), ..before };
    let staged = choose|staged: Vessel| #[trigger]
        is_outfitted(staged, after, catalog@, *commands) && if commands.stage {
            is_staged(steered, staged, catalog@, *split, *place)
        } else {
            staged == steered
        };
    if commands.stage && steered.next_stage < steered.stages@.len() {
        let actions = steered.stages@[steered.next_stage as int].actions@;
        let acted = choose|acted: Vessel| #[trigger]
            is_performed(steered, acted, catalog@, actions, *split, *place) && staged == (Vessel {
                next_stage: (steered.next_stage + 1) as usize,
                ..acted
            });
        law_stage_keeps_parts(steered, acted, catalog@, actions, *split, *place);
        assert(steered.stages.len() == steered.stages@.len());
        assert(acted.parts@[i].instance == before.parts@[i].instance);
    }
    assert(staged.parts@[i].instance == before.parts@[i].instance);
    assert(after.parts@[i].fuel == staged.parts@[i].fuel);
}

/// The stage that a script fires does its work on the vessel that the script has steered:
/// the parts it names are lit and opened.
pub proof fn law_commanded_stage_acts<
    S: Fn(&Vessel, &Separation) -> Split,
    P: Fn([Real; 3], [Single; 3]) -> [Single; 3],
>(
    vessel: &mut Vessel,
    catalog: &PartCatalog,
    commands: &ScriptCommands,
    split: &S,
    place: &P,
    r: bool,
)
    requires
        call_ensures(apply_commands::<S, P>, (vessel, catalog, commands, split, place), r),
        commands.stage,
    ensures
        exists|steered: Vessel, staged: Vessel| #[trigger]
            is_staged(steered, staged, catalog@, *split, *place) && steered.parts
                == old(vessel).parts && steered.stages == old(vessel).stages && steered.next_stage
                == old(vessel).next_stage && staged.debris == final(vessel).debris
                && staged.velocity == final(vessel).velocity && staged.parts@.len()
                == final(vessel).parts@.len() && forall|i: int|
                0 <= i < staged.parts@.len() ==> {
                    &&& (#[trigger] staged.parts@[i]).active == final(vessel).parts@[i].active
                    &&& staged.parts@[i].destroyed == final(vessel).parts@[i].destroyed
                    &&& staged.parts@[i].parachute_deployed
                        ==> final(vessel).parts@[i].parachute_deployed
                },
{
    let before = *vessel;
    let after = *final(vessel);
    assert(is_commanded(before, after, catalog@, *commands, *split, *place));
    let steered = Vessel { controls: scripted(before.controls, *commands), ..before };
    let staged = choose|staged: Vessel| #[trigger]
        is_outfitted(staged, after, catalog@, *commands) && is_staged(
            steered,
            staged,
            catalog@,
            *split,
            *place,
        );
    assert(is_staged(steered, staged, catalog@, *split, *place));
}

/// The keys move the levers: one key of a pair pushes its lever all the way to its side, both
/// or neither leave it in the middle; a latched lever stays where it is latched. The key that
/// cuts the engines outdoes the one for full thrust, and that one the slow keys, which never
/// push the throttle beyond its range. Each switch turns over where its key was hit, and
/// only there.
pub proof fn law_keys_move_the_levers(
    controls: &mut FlightControls,
    input: &PilotInput,
    latched: &LatchedAxes,
)
    requires
        call_ensures(pilot, (controls, input, latched), ()),
    ensures
        latched.pitch is None && input.pitch_up && !input.pitch_down
            ==> final(controls).pitch.value() == pow2(1074),
        latched.pitch is None && !input.pitch_up && input.pitch_down
            ==> final(controls).pitch.value() == -pow2(1074),
        latched.pitch is None && input.pitch_up == input.pitch_down
            ==> final(controls).pitch.bits == 0,
        latched.pitch is Some ==> final(controls).pitch == latched.pitch->0,
        latched.yaw is None && input.yaw_left && !input.yaw_right
            ==> final(controls).yaw.value() == pow2(1074),
        latched.yaw is None && !input.yaw_left && input.yaw_right
            ==> final(controls).yaw.value() == -pow2(1074),
        latched.yaw is None && input.yaw_left == input.yaw_right
            ==> final(controls).yaw.bits == 0,
        latched.yaw is Some ==> final(controls).yaw == latched.yaw->0,
        latched.roll is None && input.roll_left && !input.roll_right
            ==> final(controls).roll.value() == pow2(1074),
        latched.roll is None && !input.roll_left && input.roll_right
            ==> final(controls).roll.value() == -pow2(1074),
        latched.roll is None && input.roll_left == input.roll_right
            ==> final(controls).roll.bits == 0,
        latched.roll is Some ==> final(controls).roll == latched.roll->0,
        input.cut_throttle ==> final(controls).throttle.bits == 0,
        !input.cut_throttle && input.full_throttle ==> final(controls).throttle.value() == pow2(
            1074,
        ),
        !input.cut_throttle && !input.full_throttle && input.throttle is Some
            && input.throttle->0.spec_is_finite() ==> {
            &&& 0 <= input.throttle->0.value() <= pow2(1074) ==> final(controls).throttle
                == input.throttle->0
            &&& input.throttle->0.value() < 0 ==> final(controls).throttle.value() == 0
            &&& input.throttle->0.value() > pow2(1074) ==> final(controls).throttle.value()
                == pow2(1074)
        },
        !input.cut_throttle && !input.full_throttle && input.throttle is None
            ==> final(controls).throttle == old(controls).throttle,
        input.toggle_sas ==> (final(controls).sas is None <==> old(controls).sas is Some),
        input.toggle_sas && old(controls).sas is None ==> final(controls).sas == Some(
            SasMode::Stability,
        ),
        !input.toggle_sas ==> final(controls).sas == old(controls).sas,
        final(controls).rcs == (old(controls).rcs != input.toggle_rcs),
{
    law_named_numbers();
    law_integer_has_its_value(0);
    law_integer_has_its_value(1);
    if input.throttle is Some && input.throttle->0.spec_is_finite() {
        let wanted = input.throttle->0;
        law_whole_numbers_compare(1, wanted);
        law_whole_numbers_compare(0, wanted);
        law_larger_and_smaller(wanted, Real::spec_of(0), Real::spec_integer(1));
    }
}

/// A switch that is thrown twice is as before: the thrusters always, the stability assist
/// where it was off or damped rotation.
pub proof fn law_switches_turn_over(
    one: &mut FlightControls,
    other: &mut FlightControls,
    third: &mut FlightControls,
    fourth: &mut FlightControls,
)
    requires
        call_ensures(toggle_sas, (one,), ()),
        *old(other) == *final(one),
        call_ensures(toggle_sas, (other,), ()),
        call_ensures(toggle_rcs, (third,), ()),
        *old(fourth) == *final(third),
        call_ensures(toggle_rcs, (fourth,), ()),
    ensures
        old(one).sas is Some <==> final(one).sas is None,
        old(one).sas is None || old(one).sas == Some(SasMode::Stability) ==> *final(other) == *old(
            one,
        ),
        final(one).rcs == old(one).rcs,
        final(one).throttle == old(one).throttle,
        final(third).rcs != old(third).rcs,
        final(third).sas == old(third).sas,
        *final(fourth) == *old(third),
{
}

/// The throttle goes from none to full, a lever from one side to the other; the ends are in
/// range and what denotes no number is not.
pub proof fn law_lever_ranges(value: Real, throttle: bool, lever: bool)
    requires
        call_ensures(throttle_in_range, (value,), throttle),
        call_ensures(axis_in_range, (value,), lever),
    ensures
        value.spec_is_finite() ==> throttle == (0 <= value.value() <= pow2(1074)),
        value.spec_is_finite() ==> lever == (-pow2(1074) <= value.value() <= pow2(1074)),
        value.spec_is_nan() ==> !throttle && !lever,
{
    law_named_numbers();
    if value.spec_is_finite() {
        law_whole_numbers_compare(1, value);
        law_whole_numbers_compare(0, value);
        law_order_is_numeric(Real::spec_of(MINUS_ONE), value);
    }
    law_no_number_compares(value, Real::spec_of(0));
    law_no_number_compares(Real::spec_of(0), value);
    law_no_number_compares(Real::spec_of(MINUS_ONE), value);
}

/// A debugger's request is obeyed whole or refused whole. Obeyed, each lever it names stands
/// where it asked, the three axes latched there, and no other lever or latch has moved.
/// It is refused exactly where one of its levers lies out of range, and then changes nothing.
pub proof fn law_request_is_obeyed_or_refused(
    controls: &mut FlightControls,
    latched: &mut LatchedAxes,
    request: &ControlRequest,
    r: Result<(), String>,
    throttle: bool,
    pitch: bool,
    yaw: bool,
    roll: bool,
)
    requires
        call_ensures(set_flight_controls, (controls, latched, request), r),
        request.throttle is Some ==> call_ensures(
            throttle_in_range,
            (request.throttle->0,),
            throttle,
        ),
        request.pitch is Some ==> call_ensures(axis_in_range, (request.pitch->0,), pitch),
        request.yaw is Some ==> call_ensures(axis_in_range, (request.yaw->0,), yaw),
        request.roll is Some ==> call_ensures(axis_in_range, (request.roll->0,), roll),
    ensures
        r is Ok <==> (request.throttle is Some ==> throttle) && (request.pitch is Some ==> pitch)
            && (request.yaw is Some ==> yaw) && (request.roll is Some ==> roll),
        r is Err ==> *final(controls) == *old(controls) && *final(latched) == *old(latched),
        r is Err && request.throttle is Some && !throttle ==> r->Err_0@ == "throttle"@
            + " is outside its valid range"@,
        r is Err && (request.throttle is Some ==> throttle) && request.pitch is Some && !pitch
            ==> r->Err_0@ == "pitch"@ + " is outside its valid range"@,
        r is Ok && request.throttle is Some ==> final(controls).throttle == request.throttle->0,
        r is Ok && request.throttle is None ==> final(controls).throttle
            == old(controls).throttle,
        r is Ok && request.pitch is Some ==> final(controls).pitch == request.pitch->0
            && final(latched).pitch == request.pitch,
        r is Ok && request.pitch is None ==> final(controls).pitch == old(controls).pitch
            && final(latched).pitch == old(latched).pitch,
        r is Ok && request.yaw is Some ==> final(controls).yaw == request.yaw->0
            && final(latched).yaw == request.yaw,
        r is Ok && request.yaw is None ==> final(controls).yaw == old(controls).yaw
            && final(latched).yaw == old(latched).yaw,
        r is Ok && request.roll is Some ==> final(controls).roll == request.roll->0
            && final(latched).roll == request.roll,
        r is Ok && request.roll is None ==> final(controls).roll == old(controls).roll
            && final(latched).roll == old(latched).roll,
        final(controls).sas == old(controls).sas,
        final(controls).rcs == old(controls).rcs,
{
}

/// Whatever releases the levers releases all three.
pub proof fn law_release_frees_all(latched: &mut LatchedAxes, event: ReleaseEvent)
    requires
        call_ensures(LatchedAxes::release, (latched, event), ()),
    ensures
        final(latched).pitch is None,
        final(latched).yaw is None,
        final(latched).roll is None,
{
}

/// The camera key leads through all three positions and back to the first.
pub proof fn law_cameras_take_turns(a: usize, b: usize, c: usize, d: usize)
    requires
        a < 3,
        call_ensures(next_camera, (a,), b),
        call_ensures(next_camera, (b,), c),
        call_ensures(next_camera, (c,), d),
    ensures
        b < 3 && c < 3,
        a != b && b != c && c != a,
        d == a,
        a == 0 ==> b == 1,
{
}

/// There is news of a recovery and of a crash, and of nothing else; a recovered vessel is
/// reported recovered.
pub proof fn law_news_of_the_end(
    situation: FlightSituation,
    mission: &MissionProgress,
    r: Option<&'static str>,
)
    requires
        call_ensures(flight_notice, (situation, mission), r),
    ensures
        r is Some <==> mission.recovered || situation is Crashed,
        mission.recovered ==> r->0@ == "Mission complete — recovered safely on Carapace!"@,
        !mission.recovered && situation is Crashed ==> r->0@
            == "Mission failed: command vehicle lost. The crab crew has been returned to the roster."@,
{
}

} // verus!
