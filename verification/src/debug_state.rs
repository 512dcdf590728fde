//! The state of the game as a debugger sees and changes it.
use crate::burn::lemma_above_a_trace;
use crate::control::{axis_in_range, is_axis, is_throttle, throttle_in_range};
use crate::craft::CraftBlueprint;
use crate::mission::{MissionProgress, SimulationClock, WARP_COUNT};
use crate::number::{
    law_integer_has_its_value, law_named_numbers, law_order_is_numeric, law_whole_numbers_compare,
    Real, EPSILON, MINUS_ONE,
};
use crate::orbit::{bodies_view, celestial_system, is_known, system};
use crate::text::same_text;
use crate::vessel::{FlightControls, Vessel};
use vstd::arithmetic::power2::*;
use vstd::prelude::*;

verus! {

/// What the game shows.
#[derive(Debug, Clone, Copy, PartialEq, Eq, Hash, Structural)]
pub enum AppMode {
    Menu,
    Editor,
    Flight,
}

impl Default for AppMode {
    fn default() -> (r: Self)
        ensures
            r == AppMode::Menu,
    {
        AppMode::Menu
    }
}

/// The state of the game.
#[derive(Debug)]
pub struct DebugGameState {
    pub mode: AppMode,
    pub clock: SimulationClock,
    pub craft: CraftBlueprint,
    pub vessel: Option<Vessel>,
    pub mission: MissionProgress,
    pub notice: String,
}

/// What is wrong with a clock, if anything.
pub open spec fn clock_fault(clock: SimulationClock) -> Option<Seq<char>> {
    if !clock.universal_time.spec_is_finite() || clock.universal_time.spec_below(
        Real::spec_of(0),
    ) {
        Some("clock.universal_time must be a finite, non-negative number"@)
    } else if clock.warp_index >= WARP_COUNT {
        Some("clock.warp_index must be between 0 and 7"@)
    } else {
        None
    }
}

/// The lever that lies outside its range, the first of throttle, pitch, yaw and roll.
pub open spec fn lever_fault(controls: FlightControls) -> Option<Seq<char>> {
    if !is_throttle(controls.throttle) {
        Some("throttle"@)
    } else if !is_axis(controls.pitch) {
        Some("pitch"@)
    } else if !is_axis(controls.yaw) {
        Some("yaw"@)
    } else if !is_axis(controls.roll) {
        Some("roll"@)
    } else {
        None
    }
}

/// What is wrong with a vessel, if anything; `attitude` is the square of the length
/// of its attitude.
pub open spec fn vessel_fault(vessel: Vessel, attitude: Real) -> Option<Seq<char>> {
    if !is_known(vessel.primary_body@) {
        Some("vessel.primary_body is unknown: "@ + vessel.primary_body@)
    } else if vessel.next_stage > vessel.stages@.len() {
        Some("vessel.next_stage cannot exceed vessel.stages.length"@)
    } else if lever_fault(vessel.controls) is Some {
        Some(
            "vessel.controls."@ + lever_fault(vessel.controls)->0 + " is outside its valid range"@,
        )
    } else if attitude.spec_at_most(Real::spec_of(EPSILON)) {
        Some("vessel.attitude must be a non-zero quaternion"@)
    } else {
        None
    }
}

fn check_clock(clock: &SimulationClock) -> (r: Option<String>)
    ensures
        match r {
            Some(text) => clock_fault(*clock) == Some(text@),
            None => clock_fault(*clock) is None,
        },
{
    if !clock.universal_time.is_finite() || clock.universal_time.is_below(Real::zero()) {
        return Some("clock.universal_time must be a finite, non-negative number".to_owned());
    }
    if clock.warp_index >= WARP_COUNT {
        return Some("clock.warp_index must be between 0 and 7".to_owned());
    }
    None
}

fn check_levers(controls: &FlightControls) -> (r: Option<&'static str>)
    ensures
        match r {
            Some(name) => lever_fault(*controls) == Some(name@),
            None => lever_fault(*controls) is None,
        },
{
    if !throttle_in_range(controls.throttle) {
        Some("throttle")
    } else if !axis_in_range(controls.pitch) {
        Some("pitch")
    } else if !axis_in_range(controls.yaw) {
        Some("yaw")
    } else if !axis_in_range(controls.roll) {
        Some("roll")
    } else {
        None
    }
}

fn knows_body(id: &str) -> (r: bool)
    ensures
        r == is_known(id@),
{
    let bodies = celestial_system();
    proof {
        assert(bodies@.len() == bodies_view(bodies@).len());
    }
    for i in 0..bodies.len()
        invariant
            bodies_view(bodies@) == system(),
            bodies@.len() == system().len(),
            forall|k: int| 0 <= k < i ==> (#[trigger] system()[k]).id != id@,
    {
        proof {
            assert(bodies_view(bodies@)[i as int] == bodies@[i as int]@);
            assert(system()[i as int].id == bodies@[i as int].id@);
        }
        if same_text(bodies[i].id, id) {
            return true;
        }
    }
    false
}

fn check_vessel(vessel: &Vessel, attitude: Real) -> (r: Option<String>)
    ensures
        match r {
            Some(text) => vessel_fault(*vessel, attitude) == Some(text@),
            None => vessel_fault(*vessel, attitude) is None,
        },
{
    if !knows_body(&vessel.primary_body) {
        let mut text = "vessel.primary_body is unknown: ".to_owned();
        text.append(&vessel.primary_body);
        return Some(text);
    }
    if vessel.next_stage > vessel.stages.len() {
        return Some("vessel.next_stage cannot exceed vessel.stages.length".to_owned());
    }
    if let Some(name) = check_levers(&vessel.controls) {
        let mut text = "vessel.controls.".to_owned();
        text.append(name);
        text.append(" is outside its valid range");
        return Some(text);
    }
    if attitude.is_at_most(Real::of(EPSILON)) {
        return Some("vessel.attitude must be a non-zero quaternion".to_owned());
    }
    None
}

/// Whether `verdict` is the judgement on the state: the fault of its clock if that has one,
/// else that of its vessel, and that all is well where neither has any. `squared` gives the
/// square of the length of an attitude.
pub open spec fn is_judged<F: Fn([Real; 4]) -> Real>(
    state: DebugGameState,
    verdict: Result<(), String>,
    squared: F,
) -> bool {
    match clock_fault(state.clock) {
        Some(fault) => verdict is Err && verdict->Err_0@ == fault,
        None => match state.vessel {
            None => verdict is Ok,
            Some(vessel) => exists|length: Real| #[trigger]
                call_ensures(squared, (vessel.attitude,), length) && match verdict {
                    Ok(()) => vessel_fault(vessel, length) is None,
                    Err(text) => vessel_fault(vessel, length) == Some(text@),
                },
        },
    }
}

impl DebugGameState {
    /// The state as it is.
    pub fn capture(
        mode: AppMode,
        clock: &SimulationClock,
        craft: &CraftBlueprint,
        vessel: &Option<Vessel>,
        mission: &MissionProgress,
        notice: &String,
    ) -> (r: Self)
        ensures
            r.mode == mode,
            r.clock == *clock,
            r.craft@ == craft@,
            match *vessel {
                Some(vessel) => r.vessel is Some && r.vessel->0@ == vessel@,
                None => r.vessel is None,
            },
            r.mission == *mission,
            r.notice == *notice,
    {
        DebugGameState {
            mode,
            clock: *clock,
            craft: craft.clone(),
            vessel: match vessel {
                Some(vessel) => Some(vessel.clone()),
                None => None,
            },
            mission: *mission,
            notice: notice.clone(),
        }
    }

    /// Whether the game can go on from the state, or what is wrong with it first.
    /// `squared` gives the square of the length of an attitude.
    pub fn validate<F: Fn([Real; 4]) -> Real>(&self, squared: F) -> (r: Result<(), String>)
        requires
            forall|attitude: [Real; 4]| call_requires(squared, (attitude,)),
        ensures
            is_judged(*self, r, squared),
    {
        if let Some(text) = check_clock(&self.clock) {
            return Err(text);
        }
        match &self.vessel {
            Some(vessel) => {
                let length = squared(vessel.attitude);
                match check_vessel(vessel, length) {
                    Some(text) => Err(text),
                    None => Ok(()),
                }
            },
            None => Ok(()),
        }
    }
}

/// Takes a patched state in place of the live one, all of it or nothing: nothing where the
/// patch could not be read as a state, whose fault is then told, and nothing where the game
/// could not go on from it.
pub fn accept_patch<F: Fn([Real; 4]) -> Real>(
    live: &mut DebugGameState,
    parsed: Result<DebugGameState, String>,
    squared: F,
) -> (r: Result<(), String>)
    requires
        forall|attitude: [Real; 4]| call_requires(squared, (attitude,)),
    ensures
        match parsed {
            Ok(state) => is_judged(state, r, squared),
            Err(fault) => r is Err && r->Err_0@ == "patch does not produce a valid game state: "@
                + fault@,
        },
        *final(live) == if r is Ok {
            parsed->Ok_0
        } else {
            *old(live)
        },
{
    match parsed {
        Ok(state) => {
            let verdict = state.validate(squared);
            if verdict.is_ok() {
                *live = state;
            }
            verdict
        },
        Err(fault) => {
            let mut text = "patch does not produce a valid game state: ".to_owned();
            text.append(&fault);
            Err(text)
        },
    }
}

/// A state is judged sound exactly where its clock holds a time from zero up and one of the
/// eight rates and, with a vessel, that circles a body of the system, has fired no more stages
/// than it has, holds every lever in range and points somewhere.
pub proof fn law_sound_states_pass<F: Fn([Real; 4]) -> Real>(
    state: &DebugGameState,
    squared: F,
    r: Result<(), String>,
)
    requires
        call_ensures(DebugGameState::validate::<F>, (state, squared), r),
        forall|attitude: [Real; 4], length: Real| #[trigger]
            call_ensures(squared, (attitude,), length) ==> length.spec_is_finite(),
        state.vessel is Some ==> {
            let levers = state.vessel->0.controls;
            levers.throttle.spec_is_finite() && levers.pitch.spec_is_finite()
                && levers.yaw.spec_is_finite() && levers.roll.spec_is_finite()
        },
    ensures
        ({
            let time = state.clock.universal_time;
            let timed = time.spec_is_finite() && time.value() >= 0;
            let rated = state.clock.warp_index < 8;
            let one = pow2(1074) as int;
            &&& !timed ==> r is Err && r->Err_0@
                == "clock.universal_time must be a finite, non-negative number"@
            &&& timed && !rated ==> r is Err && r->Err_0@
                == "clock.warp_index must be between 0 and 7"@
            &&& timed && rated && state.vessel is None ==> r is Ok
            &&& timed && rated && state.vessel is Some ==> {
                let vessel = state.vessel->0;
                let levers = vessel.controls;
                let known = is_known(vessel.primary_body@);
                let staged = vessel.next_stage <= vessel.stages@.len();
                let throttle = 0 <= levers.throttle.value() <= one;
                let pitch = -one <= levers.pitch.value() <= one;
                let yaw = -one <= levers.yaw.value() <= one;
                let roll = -one <= levers.roll.value() <= one;
                &&& !known ==> r is Err && r->Err_0@ == "vessel.primary_body is unknown: "@
                    + vessel.primary_body@
                &&& known && !staged ==> r is Err && r->Err_0@
                    == "vessel.next_stage cannot exceed vessel.stages.length"@
                &&& known && staged && !throttle ==> r is Err && r->Err_0@ == "vessel.controls."@
                    + "throttle"@ + " is outside its valid range"@
                &&& known && staged && throttle && !pitch ==> r is Err && r->Err_0@
                    == "vessel.controls."@ + "pitch"@ + " is outside its valid range"@
                &&& known && staged && throttle && pitch && !yaw ==> r is Err && r->Err_0@
                    == "vessel.controls."@ + "yaw"@ + " is outside its valid range"@
                &&& known && staged && throttle && pitch && yaw && !roll ==> r is Err && r->Err_0@
                    == "vessel.controls."@ + "roll"@ + " is outside its valid range"@
                &&& known && staged && throttle && pitch && yaw && roll ==> exists|length: Real|
                    #[trigger] call_ensures(squared, (vessel.attitude,), length) && (r is Ok <==>
                    length.value() * pow2(52) > pow2(1074)) && (r is Err ==> r->Err_0@
                        == "vessel.attitude must be a non-zero quaternion"@)
            }
        }),
{
    let time = state.clock.universal_time;
    law_named_numbers();
    law_integer_has_its_value(0);
    if time.spec_is_finite() {
        law_whole_numbers_compare(0, time);
    }
    if clock_fault(state.clock) is None && state.vessel is Some {
        let vessel = state.vessel->0;
        let levers = vessel.controls;
        law_whole_numbers_compare(0, levers.throttle);
        law_whole_numbers_compare(1, levers.throttle);
        law_whole_numbers_compare(1, levers.pitch);
        law_whole_numbers_compare(1, levers.yaw);
        law_whole_numbers_compare(1, levers.roll);
        law_order_is_numeric(Real::spec_of(MINUS_ONE), levers.pitch);
        law_order_is_numeric(Real::spec_of(MINUS_ONE), levers.yaw);
        law_order_is_numeric(Real::spec_of(MINUS_ONE), levers.roll);
        let length = choose|length: Real| #[trigger]
            call_ensures(squared, (vessel.attitude,), length) && match r {
                Ok(()) => vessel_fault(vessel, length) is None,
                Err(text) => vessel_fault(vessel, length) == Some(text@),
            };
        assert(call_ensures(squared, (vessel.attitude,), length));
        lemma_above_a_trace(length);
    }
}

/// A patch is taken whole where its state is judged sound, and else leaves the live state as it
/// is; what a debugger sees is the state as it is.
pub proof fn law_patches_are_all_or_nothing<F: Fn([Real; 4]) -> Real>(
    live: &mut DebugGameState,
    parsed: Result<DebugGameState, String>,
    squared: F,
    r: Result<(), String>,
)
    requires
        call_ensures(accept_patch::<F>, (live, parsed, squared), r),
    ensures
        r is Ok ==> parsed is Ok && *final(live) == parsed->Ok_0,
        r is Err ==> *final(live) == *old(live),
        parsed is Err ==> r is Err && r->Err_0@ == "patch does not produce a valid game state: "@
            + parsed->Err_0@,
        r is Ok ==> parsed->Ok_0.clock.warp_index < 8
            && parsed->Ok_0.clock.universal_time.spec_is_finite(),
        parsed is Ok && parsed->Ok_0.vessel is None && parsed->Ok_0.clock.warp_index < 8
            && parsed->Ok_0.clock.universal_time.bits == 0 ==> r is Ok,
{
}

} // verus!
