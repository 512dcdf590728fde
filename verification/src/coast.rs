//! Coasts through the reach of several bodies.
use crate::number::{
    law_integer_has_its_value, law_order_is_numeric, law_whole_numbers_compare, Real, EPSILON,
};
use crate::orbit::{
    body, body_definition, crossed_surface_during_capture, is_crossed, rails_step, CelestialBodyDef,
    RailsStep, MAX_SOI_TRANSITIONS_PER_STEP,
};
use crate::rails::{
    are_laid, is_drifted, is_ended, is_surveyed, keeps_craft, law_drift_keeps_craft, place,
    step_on_rails, update_on_rails_situation, Rails, Survey,
};
use crate::reach::{apply_soi_transitions, is_transferred, Frame, Reach};
use crate::vessel::{DetachedStage, FlightSituation, Vessel};
use vstd::arithmetic::power2::*;
use vstd::prelude::*;

verus! {

/// A change of the primary body: when it comes, to which body, and whether the vessel
/// comes into the reach of a satellite or leaves that of its own body.
#[derive(Debug, Clone, Copy)]
pub struct Handover {
    pub time: Real,
    pub target: &'static str,
    pub entering: bool,
}

/// What moves a coasting vessel. `due` tells the next change of the primary body, given
/// the time elapsed and that remaining; `rails` move the vessel about its body; `hand_over`
/// tells where it is with its new body, after the time elapsed before its coast to the change;
/// `remaining` and `later` are what is left of a time and the sum of two.
pub struct Drive<D, V, M, G, H, R, L> {
    pub due: D,
    pub rails: Rails<V, M, G>,
    pub hand_over: H,
    pub remaining: R,
    pub later: L,
}

/// Whether `after` is what the rest of a coast makes of `before`, once no change of the
/// primary body is looked for any more.
pub open spec fn is_run_out<
    D: Fn(&Vessel, Real, Real) -> Option<Handover>,
    V: Fn(Frame, &CelestialBodyDef) -> Survey,
    M: Fn(Frame, &CelestialBodyDef, Real) -> Frame,
    G: Fn(Frame, &CelestialBodyDef) -> Frame,
    H: Fn(&Vessel, &Handover, Real) -> Frame,
    R: Fn(Real, Real) -> Real,
    L: Fn(Real, Real) -> Real,
>(
    before: Vessel,
    after: Vessel,
    elapsed: Real,
    dt: Real,
    rest: Real,
    drive: Drive<D, V, M, G, H, R, L>,
) -> bool {
    if elapsed.spec_below(dt) && before.situation != FlightSituation::Crashed {
        is_drifted(before, after, rest, drive.rails)
    } else {
        after == before
    }
}

/// Whether `after` is what a coast makes of `before`, with `changes` changes of the
/// primary body made and that much time elapsed. A coast ends where the vessel crashes.
pub open spec fn is_coasted<
    D: Fn(&Vessel, Real, Real) -> Option<Handover>,
    V: Fn(Frame, &CelestialBodyDef) -> Survey,
    M: Fn(Frame, &CelestialBodyDef, Real) -> Frame,
    G: Fn(Frame, &CelestialBodyDef) -> Frame,
    H: Fn(&Vessel, &Handover, Real) -> Frame,
    R: Fn(Real, Real) -> Real,
    L: Fn(Real, Real) -> Real,
>(
    before: Vessel,
    after: Vessel,
    changes: u32,
    elapsed: Real,
    dt: Real,
    drive: Drive<D, V, M, G, H, R, L>,
) -> bool
    decreases MAX_SOI_TRANSITIONS_PER_STEP - changes,
{
    exists|rest: Real| #[trigger]
        call_ensures(drive.remaining, (dt, elapsed), rest) && if changes
            >= MAX_SOI_TRANSITIONS_PER_STEP || rest.spec_at_most(Real::spec_of(EPSILON)) {
            is_run_out(before, after, elapsed, dt, rest, drive)
        } else {
            exists|next: Option<Handover>| #[trigger]
                call_ensures(drive.due, (&before, elapsed, rest), next) && match next {
                    Some(handover) => is_handed_over(
                        before,
                        after,
                        changes,
                        elapsed,
                        dt,
                        handover,
                        drive,
                    ),
                    None => is_drifted(before, after, rest, drive.rails),
                }
        }
}

/// Whether `after` is the vessel `before` with that body and in that place, and otherwise
/// the same.
pub open spec fn is_given_to(before: Vessel, after: Vessel, id: Seq<char>, place: Frame) -> bool {
    &&& after == (Vessel {
        primary_body: after.primary_body,
        position: place.position,
        velocity: place.velocity,
        ..before
    })
    &&& after.primary_body@ == id
}

/// Whether `after` is what a coast makes of `before` whose next change of the primary body
/// is that one.
pub open spec fn is_handed_over<
    D: Fn(&Vessel, Real, Real) -> Option<Handover>,
    V: Fn(Frame, &CelestialBodyDef) -> Survey,
    M: Fn(Frame, &CelestialBodyDef, Real) -> Frame,
    G: Fn(Frame, &CelestialBodyDef) -> Frame,
    H: Fn(&Vessel, &Handover, Real) -> Frame,
    R: Fn(Real, Real) -> Real,
    L: Fn(Real, Real) -> Real,
>(
    before: Vessel,
    after: Vessel,
    changes: u32,
    elapsed: Real,
    dt: Real,
    handover: Handover,
    drive: Drive<D, V, M, G, H, R, L>,
) -> bool
    decreases MAX_SOI_TRANSITIONS_PER_STEP - changes, 0int,
{
    exists|there: Vessel| #[trigger]
        is_drifted(before, there, handover.time, drive.rails) && if there.situation
            == FlightSituation::Crashed {
            after == there
        } else {
            exists|handed: Vessel, place: Frame, later: Real|
                {
                    &&& #[trigger] call_ensures(
                        drive.hand_over,
                        (&there, &handover, elapsed),
                        place,
                    )
                    &&& #[trigger] is_given_to(there, handed, handover.target@, place)
                    &&& #[trigger] call_ensures(drive.later, (elapsed, handover.time), later)
                    &&& changes < MAX_SOI_TRANSITIONS_PER_STEP && is_coasted(
                        handed,
                        after,
                        (changes + 1) as u32,
                        later,
                        dt,
                        drive,
                    )
                }
        }
}

/// Whether the drive can be asked anything.
pub open spec fn is_ready<
    D: Fn(&Vessel, Real, Real) -> Option<Handover>,
    V: Fn(Frame, &CelestialBodyDef) -> Survey,
    M: Fn(Frame, &CelestialBodyDef, Real) -> Frame,
    G: Fn(Frame, &CelestialBodyDef) -> Frame,
    H: Fn(&Vessel, &Handover, Real) -> Frame,
    R: Fn(Real, Real) -> Real,
    L: Fn(Real, Real) -> Real,
>(drive: Drive<D, V, M, G, H, R, L>) -> bool {
    &&& forall|v: &Vessel, a: Real, b: Real| call_requires(drive.due, (v, a, b))
    &&& are_laid(drive.rails)
    &&& forall|v: &Vessel, h: &Handover, a: Real| call_requires(drive.hand_over, (v, h, a))
    &&& forall|a: Real, b: Real| call_requires(drive.remaining, (a, b))
    &&& forall|a: Real, b: Real| call_requires(drive.later, (a, b))
}

fn coast_on<
    D: Fn(&Vessel, Real, Real) -> Option<Handover>,
    V: Fn(Frame, &CelestialBodyDef) -> Survey,
    M: Fn(Frame, &CelestialBodyDef, Real) -> Frame,
    G: Fn(Frame, &CelestialBodyDef) -> Frame,
    H: Fn(&Vessel, &Handover, Real) -> Frame,
    R: Fn(Real, Real) -> Real,
    L: Fn(Real, Real) -> Real,
>(
    vessel: Vessel,
    changes: u32,
    elapsed: Real,
    dt: Real,
    drive: &Drive<D, V, M, G, H, R, L>,
) -> (r: Vessel)
    requires
        is_ready(*drive),
    ensures
        is_coasted(vessel, r, changes, elapsed, dt, *drive),
    decreases MAX_SOI_TRANSITIONS_PER_STEP - changes,
{
    let rest = (drive.remaining)(dt, elapsed);
    proof {
        assert(call_ensures(drive.remaining, (dt, elapsed), rest));
    }
    if let RailsStep::Done = rails_step(changes, rest, None) {
        let mut end = vessel;
        if elapsed.is_below(dt) && end.situation != FlightSituation::Crashed {
            step_on_rails(&mut end, rest, &drive.rails);
        }
        return end;
    }
    let next = (drive.due)(&vessel, elapsed, rest);
    proof {
        assert(call_ensures(drive.due, (&vessel, elapsed, rest), next));
    }
    let handover = match next {
        Some(handover) => handover,
        None => {
            let mut end = vessel;
            step_on_rails(&mut end, rest, &drive.rails);
            return end;
        },
    };
    let ghost started = vessel;
    let mut there = vessel;
    step_on_rails(&mut there, handover.time, &drive.rails);
    let ghost drifted = there;
    proof {
        assert(is_drifted(started, drifted, handover.time, drive.rails));
    }
    if there.situation == FlightSituation::Crashed {
        proof {
            assert(is_handed_over(started, there, changes, elapsed, dt, handover, *drive));
        }
        return there;
    }
    let place = (drive.hand_over)(&there, &handover, elapsed);
    there.primary_body = handover.target.to_owned();
    there.position = place.position;
    there.velocity = place.velocity;
    let later = (drive.later)(elapsed, handover.time);
    let ghost start = there;
    let r = coast_on(there, changes + 1, later, dt, drive);
    proof {
        assert(call_ensures(drive.hand_over, (&drifted, &handover, elapsed), place));
        assert(is_given_to(drifted, start, handover.target@, place));
        assert(call_ensures(drive.later, (elapsed, handover.time), later));
        assert(is_handed_over(started, r, changes, elapsed, dt, handover, *drive));
    }
    r
}

/// Lets a vessel coast for a time, through as many changes of its primary body as one
/// coast may hold.
pub fn coast_patched<
    D: Fn(&Vessel, Real, Real) -> Option<Handover>,
    V: Fn(Frame, &CelestialBodyDef) -> Survey,
    M: Fn(Frame, &CelestialBodyDef, Real) -> Frame,
    G: Fn(Frame, &CelestialBodyDef) -> Frame,
    H: Fn(&Vessel, &Handover, Real) -> Frame,
    R: Fn(Real, Real) -> Real,
    L: Fn(Real, Real) -> Real,
>(vessel: Vessel, dt: Real, drive: &Drive<D, V, M, G, H, R, L>) -> (r: Vessel)
    requires
        is_ready(*drive),
    ensures
        is_coasted(vessel, r, 0, Real::spec_of(0), dt, *drive),
{
    coast_on(vessel, 0, Real::zero(), dt, drive)
}

/// Whether `after` is what is made of a vessel at the end of its coast, which began with the
/// body `previous`: a wreck stays so; any other is handed over to the body in whose reach it
/// is, and what it is doing there is told anew, as its new body and its path about that say.
pub open spec fn is_evaluated<
    V: Fn(Frame, &CelestialBodyDef) -> Survey,
    M: Fn(Frame, &CelestialBodyDef, Real) -> Frame,
    G: Fn(Frame, &CelestialBodyDef) -> Frame,
    X: Fn(&Vessel) -> Reach,
    F: Fn(&Vessel, &CelestialBodyDef) -> Frame,
>(
    there: Vessel,
    after: Vessel,
    previous: Seq<char>,
    rails: Rails<V, M, G>,
    reach: X,
    frame: F,
) -> bool {
    if there.situation == FlightSituation::Crashed {
        after == there
    } else {
        exists|handed: Vessel, here: CelestialBodyDef, seen: Survey|
            {
                &&& #[trigger] is_transferred(there, handed, reach, frame)
                &&& #[trigger] is_surveyed(handed, here, seen, rails.survey)
                &&& is_ended(
                    handed,
                    after,
                    is_crossed(here@, previous, seen.outbound, seen.periapsis),
                    rails,
                )
            }
    }
}

/// Whether `after` is what a coast through the reach of several bodies makes of `before`.
pub open spec fn is_patched<
    D: Fn(&Vessel, Real, Real) -> Option<Handover>,
    V: Fn(Frame, &CelestialBodyDef) -> Survey,
    M: Fn(Frame, &CelestialBodyDef, Real) -> Frame,
    G: Fn(Frame, &CelestialBodyDef) -> Frame,
    H: Fn(&Vessel, &Handover, Real) -> Frame,
    R: Fn(Real, Real) -> Real,
    L: Fn(Real, Real) -> Real,
    X: Fn(&Vessel) -> Reach,
    F: Fn(&Vessel, &CelestialBodyDef) -> Frame,
>(
    before: Vessel,
    after: Vessel,
    dt: Real,
    drive: Drive<D, V, M, G, H, R, L>,
    reach: X,
    frame: F,
) -> bool {
    exists|there: Vessel| #[trigger]
        is_coasted(before, there, 0, Real::spec_of(0), dt, drive) && is_evaluated(
            there,
            after,
            before.primary_body@,
            drive.rails,
            reach,
            frame,
        )
}

/// Settles what a vessel is doing after a coast that began with the body `previous`.
fn evaluate<
    V: Fn(Frame, &CelestialBodyDef) -> Survey,
    M: Fn(Frame, &CelestialBodyDef, Real) -> Frame,
    G: Fn(Frame, &CelestialBodyDef) -> Frame,
    X: Fn(&Vessel) -> Reach,
    F: Fn(&Vessel, &CelestialBodyDef) -> Frame,
>(vessel: &mut Vessel, previous: &str, rails: &Rails<V, M, G>, reach: &X, frame: &F)
    requires
        are_laid(*rails),
        forall|v: &Vessel| call_requires(*reach, (v,)),
        forall|v: &Vessel, to: &CelestialBodyDef| call_requires(*frame, (v, to)),
    ensures
        is_evaluated(*old(vessel), *final(vessel), previous@, *rails, *reach, *frame),
{
    if vessel.situation == FlightSituation::Crashed {
        return;
    }
    apply_soi_transitions(vessel, reach, frame);
    let ghost handed = *vessel;
    let here = body_definition(&vessel.primary_body);
    let seen = (rails.survey)(place(vessel), &here);
    proof {
        assert(is_surveyed(handed, here, seen, rails.survey));
    }
    let met_ground = crossed_surface_during_capture(
        &here,
        previous,
        seen.outbound,
        seen.periapsis,
    );
    update_on_rails_situation(vessel, met_ground, rails);
}

/// Lets a vessel coast for a time through the reach of several bodies, and settles what it
/// is doing at the end. `reach` and `frame` tell of the spheres of influence about it then.
pub fn step_on_rails_patched<
    D: Fn(&Vessel, Real, Real) -> Option<Handover>,
    V: Fn(Frame, &CelestialBodyDef) -> Survey,
    M: Fn(Frame, &CelestialBodyDef, Real) -> Frame,
    G: Fn(Frame, &CelestialBodyDef) -> Frame,
    H: Fn(&Vessel, &Handover, Real) -> Frame,
    R: Fn(Real, Real) -> Real,
    L: Fn(Real, Real) -> Real,
    X: Fn(&Vessel) -> Reach,
    F: Fn(&Vessel, &CelestialBodyDef) -> Frame,
>(
    vessel: Vessel,
    dt: Real,
    drive: &Drive<D, V, M, G, H, R, L>,
    reach: &X,
    frame: &F,
) -> (r: Vessel)
    requires
        is_ready(*drive),
        forall|v: &Vessel| call_requires(*reach, (v,)),
        forall|v: &Vessel, to: &CelestialBodyDef| call_requires(*frame, (v, to)),
    ensures
        is_patched(vessel, r, dt, *drive, *reach, *frame),
{
    let ghost before = vessel;
    let previous = vessel.primary_body.clone();
    let mut there = coast_patched(vessel, dt, drive);
    proof {
        assert(is_coasted(before, there, 0, Real::spec_of(0), dt, *drive));
    }
    evaluate(&mut there, &previous, &drive.rails, reach, frame);
    there
}

/// A coast without a change of the primary body in sight is one drift for all the time
/// that remains.
pub proof fn law_quiet_coast_is_one_drift<
    D: Fn(&Vessel, Real, Real) -> Option<Handover>,
    V: Fn(Frame, &CelestialBodyDef) -> Survey,
    M: Fn(Frame, &CelestialBodyDef, Real) -> Frame,
    G: Fn(Frame, &CelestialBodyDef) -> Frame,
    H: Fn(&Vessel, &Handover, Real) -> Frame,
    R: Fn(Real, Real) -> Real,
    L: Fn(Real, Real) -> Real,
>(
    before: Vessel,
    after: Vessel,
    elapsed: Real,
    dt: Real,
    drive: Drive<D, V, M, G, H, R, L>,
)
    requires
        is_coasted(before, after, 0, elapsed, dt, drive),
        forall|v: &Vessel, a: Real, b: Real, h: Handover|
            !#[trigger] call_ensures(drive.due, (v, a, b), Some(h)),
        forall|rest: Real| #[trigger]
            call_ensures(drive.remaining, (dt, elapsed), rest) ==> !rest.spec_at_most(
                Real::spec_of(EPSILON),
            ),
    ensures
        exists|rest: Real| #[trigger]
            call_ensures(drive.remaining, (dt, elapsed), rest) && is_drifted(
                before,
                after,
                rest,
                drive.rails,
            ),
{
}

proof fn lemma_coast_keeps_craft<
    D: Fn(&Vessel, Real, Real) -> Option<Handover>,
    V: Fn(Frame, &CelestialBodyDef) -> Survey,
    M: Fn(Frame, &CelestialBodyDef, Real) -> Frame,
    G: Fn(Frame, &CelestialBodyDef) -> Frame,
    H: Fn(&Vessel, &Handover, Real) -> Frame,
    R: Fn(Real, Real) -> Real,
    L: Fn(Real, Real) -> Real,
>(
    before: Vessel,
    after: Vessel,
    changes: u32,
    elapsed: Real,
    dt: Real,
    drive: Drive<D, V, M, G, H, R, L>,
)
    requires
        is_coasted(before, after, changes, elapsed, dt, drive),
    ensures
        keeps_craft(before, after),
        before.situation == FlightSituation::Crashed ==> after == before,
    decreases MAX_SOI_TRANSITIONS_PER_STEP - changes,
{
    let rest = choose|rest: Real| #[trigger]
        call_ensures(drive.remaining, (dt, elapsed), rest) && if changes
            >= MAX_SOI_TRANSITIONS_PER_STEP || rest.spec_at_most(Real::spec_of(EPSILON)) {
            is_run_out(before, after, elapsed, dt, rest, drive)
        } else {
            exists|next: Option<Handover>| #[trigger]
                call_ensures(drive.due, (&before, elapsed, rest), next) && match next {
                    Some(handover) => is_handed_over(
                        before,
                        after,
                        changes,
                        elapsed,
                        dt,
                        handover,
                        drive,
                    ),
                    None => is_drifted(before, after, rest, drive.rails),
                }
        };
    if changes >= MAX_SOI_TRANSITIONS_PER_STEP || rest.spec_at_most(Real::spec_of(EPSILON)) {
        if is_drifted(before, after, rest, drive.rails) {
            law_drift_keeps_craft(before, after, rest, drive.rails);
        }
    } else {
        let next = choose|next: Option<Handover>| #[trigger]
            call_ensures(drive.due, (&before, elapsed, rest), next) && match next {
                Some(handover) => is_handed_over(
                    before,
                    after,
                    changes,
                    elapsed,
                    dt,
                    handover,
                    drive,
                ),
                None => is_drifted(before, after, rest, drive.rails),
            };
        match next {
            None => {
                law_drift_keeps_craft(before, after, rest, drive.rails);
            },
            Some(handover) => {
                lemma_handover_keeps_craft(before, after, changes, elapsed, dt, handover, drive);
            },
        }
    }
}

proof fn lemma_handover_keeps_craft<
    D: Fn(&Vessel, Real, Real) -> Option<Handover>,
    V: Fn(Frame, &CelestialBodyDef) -> Survey,
    M: Fn(Frame, &CelestialBodyDef, Real) -> Frame,
    G: Fn(Frame, &CelestialBodyDef) -> Frame,
    H: Fn(&Vessel, &Handover, Real) -> Frame,
    R: Fn(Real, Real) -> Real,
    L: Fn(Real, Real) -> Real,
>(
    before: Vessel,
    after: Vessel,
    changes: u32,
    elapsed: Real,
    dt: Real,
    handover: Handover,
    drive: Drive<D, V, M, G, H, R, L>,
)
    requires
        is_handed_over(before, after, changes, elapsed, dt, handover, drive),
    ensures
        keeps_craft(before, after),
        before.situation == FlightSituation::Crashed ==> after == before,
    decreases MAX_SOI_TRANSITIONS_PER_STEP - changes, 0int,
{
    let there = choose|there: Vessel| #[trigger]
        is_drifted(before, there, handover.time, drive.rails) && if there.situation
            == FlightSituation::Crashed {
            after == there
        } else {
            exists|handed: Vessel, place: Frame, later: Real|
                {
                    &&& #[trigger] call_ensures(
                        drive.hand_over,
                        (&there, &handover, elapsed),
                        place,
                    )
                    &&& #[trigger] is_given_to(there, handed, handover.target@, place)
                    &&& #[trigger] call_ensures(drive.later, (elapsed, handover.time), later)
                    &&& changes < MAX_SOI_TRANSITIONS_PER_STEP && is_coasted(
                        handed,
                        after,
                        (changes + 1) as u32,
                        later,
                        dt,
                        drive,
                    )
                }
        };
    law_drift_keeps_craft(before, there, handover.time, drive.rails);
    if there.situation != FlightSituation::Crashed {
        let (handed, place, later) = choose|handed: Vessel, place: Frame, later: Real|
            {
                &&& #[trigger] call_ensures(drive.hand_over, (&there, &handover, elapsed), place)
                &&& #[trigger] is_given_to(there, handed, handover.target@, place)
                &&& #[trigger] call_ensures(drive.later, (elapsed, handover.time), later)
                &&& changes < MAX_SOI_TRANSITIONS_PER_STEP && is_coasted(
                    handed,
                    after,
                    (changes + 1) as u32,
                    later,
                    dt,
                    drive,
                )
            };
        lemma_coast_keeps_craft(handed, after, (changes + 1) as u32, later, dt, drive);
        assert(keeps_craft(there, handed));
        lemma_keeps_on(before, there, after);
    }
}

proof fn lemma_keeps_on(a: Vessel, b: Vessel, c: Vessel)
    requires
        keeps_craft(a, b),
        keeps_craft(b, c),
    ensures
        keeps_craft(a, c),
{
    assert forall|i: int| 0 <= i < a.debris@.len() implies #[trigger] c.debris@[i] == (
    DetachedStage {
        position: c.debris@[i].position,
        velocity: c.debris@[i].velocity,
        ..a.debris@[i]
    }) by {
        assert(b.debris@[i] == (DetachedStage {
            position: b.debris@[i].position,
            velocity: b.debris@[i].velocity,
            ..a.debris@[i]
        }));
    }
}

/// A coast through the reach of several bodies burns nothing, breaks nothing and moves no
/// lever: it changes the vessel's body, its place, what it is doing, and where the stages are
/// that it has shed. At its end the vessel flies, is in orbit or has crashed. A wreck coasts
/// nowhere.
pub proof fn law_coast_keeps_craft<
    D: Fn(&Vessel, Real, Real) -> Option<Handover>,
    V: Fn(Frame, &CelestialBodyDef) -> Survey,
    M: Fn(Frame, &CelestialBodyDef, Real) -> Frame,
    G: Fn(Frame, &CelestialBodyDef) -> Frame,
    H: Fn(&Vessel, &Handover, Real) -> Frame,
    R: Fn(Real, Real) -> Real,
    L: Fn(Real, Real) -> Real,
    X: Fn(&Vessel) -> Reach,
    F: Fn(&Vessel, &CelestialBodyDef) -> Frame,
>(
    before: Vessel,
    after: Vessel,
    dt: Real,
    drive: Drive<D, V, M, G, H, R, L>,
    reach: X,
    frame: F,
)
    requires
        is_patched(before, after, dt, drive, reach, frame),
    ensures
        keeps_craft(before, after),
        after.situation == FlightSituation::Crashed || after.situation
            == FlightSituation::Orbiting || after.situation == FlightSituation::Flying,
        before.situation == FlightSituation::Crashed ==> after == before,
{
    let there = choose|there: Vessel| #[trigger]
        is_coasted(before, there, 0, Real::spec_of(0), dt, drive) && is_evaluated(
            there,
            after,
            before.primary_body@,
            drive.rails,
            reach,
            frame,
        );
    lemma_coast_keeps_craft(before, there, 0, Real::spec_of(0), dt, drive);
    assert(keeps_craft(there, after));
    lemma_keeps_on(before, there, after);
}

/// Whether the vessel goes from `before` to `after` in drifts of those times, one after the
/// other, with changes of the body only in between.
pub open spec fn is_flown_in<
    D: Fn(&Vessel, Real, Real) -> Option<Handover>,
    V: Fn(Frame, &CelestialBodyDef) -> Survey,
    M: Fn(Frame, &CelestialBodyDef, Real) -> Frame,
    G: Fn(Frame, &CelestialBodyDef) -> Frame,
    H: Fn(&Vessel, &Handover, Real) -> Frame,
    R: Fn(Real, Real) -> Real,
    L: Fn(Real, Real) -> Real,
>(
    before: Vessel,
    after: Vessel,
    legs: Seq<Real>,
    drive: Drive<D, V, M, G, H, R, L>,
) -> bool
    decreases legs.len(),
{
    if legs.len() == 0 {
        after == before
    } else {
        exists|there: Vessel, next: Vessel| #[trigger]
            is_drifted(before, there, legs[0], drive.rails) && #[trigger] is_same_craft(there, next)
                && is_flown_in(next, after, legs.drop_first(), drive)
    }
}

/// Whether the two differ at most in the body and the place about it.
pub open spec fn is_same_craft(one: Vessel, other: Vessel) -> bool {
    other == (Vessel {
        primary_body: other.primary_body,
        position: other.position,
        velocity: other.velocity,
        ..one
    })
}

/// How long the drifts last together.
pub open spec fn total_time(legs: Seq<Real>) -> int
    decreases legs.len(),
{
    if legs.len() == 0 {
        0
    } else {
        legs[0].value() + total_time(legs.drop_first())
    }
}

/// Whether the times of a coast are kept exactly, and no change of the body is due later than
/// the coast lasts.
pub open spec fn keeps_time<
    D: Fn(&Vessel, Real, Real) -> Option<Handover>,
    V: Fn(Frame, &CelestialBodyDef) -> Survey,
    M: Fn(Frame, &CelestialBodyDef, Real) -> Frame,
    G: Fn(Frame, &CelestialBodyDef) -> Frame,
    H: Fn(&Vessel, &Handover, Real) -> Frame,
    R: Fn(Real, Real) -> Real,
    L: Fn(Real, Real) -> Real,
>(
    drive: Drive<D, V, M, G, H, R, L>,
) -> bool {
    &&& forall|dt: Real, elapsed: Real, rest: Real| #[trigger]
        call_ensures(drive.remaining, (dt, elapsed), rest) ==> rest.spec_is_finite() && rest.value()
            == dt.value() - elapsed.value()
    &&& forall|elapsed: Real, time: Real, later: Real| #[trigger]
        call_ensures(drive.later, (elapsed, time), later) ==> later.spec_is_finite()
            && later.value() == elapsed.value() + time.value()
    &&& forall|v: &Vessel, elapsed: Real, rest: Real, next: Handover| #[trigger]
        call_ensures(drive.due, (v, elapsed, rest), Some(next)) ==> next.time.value()
            <= rest.value()
}

/// A coast lasts as long as it was to, past whatever bodies it leads, unless it ends in a
/// crash.
pub proof fn law_coast_lasts_its_time<
    D: Fn(&Vessel, Real, Real) -> Option<Handover>,
    V: Fn(Frame, &CelestialBodyDef) -> Survey,
    M: Fn(Frame, &CelestialBodyDef, Real) -> Frame,
    G: Fn(Frame, &CelestialBodyDef) -> Frame,
    H: Fn(&Vessel, &Handover, Real) -> Frame,
    R: Fn(Real, Real) -> Real,
    L: Fn(Real, Real) -> Real,
>(
    vessel: Vessel,
    dt: Real,
    drive: &Drive<D, V, M, G, H, R, L>,
    after: Vessel,
) -> (legs: Seq<Real>)
    requires
        call_ensures(coast_patched::<D, V, M, G, H, R, L>, (vessel, dt, drive), after),
        keeps_time(*drive),
        dt.spec_is_finite(),
        dt.value() >= 0,
    ensures
        is_flown_in(vessel, after, legs, *drive),
        !(after.situation is Crashed) ==> total_time(legs) == dt.value(),
        legs.len() <= 9,
{
    law_integer_has_its_value(0);
    lemma_coast_lasts(vessel, after, 0, Real::spec_of(0), dt, *drive)
}

proof fn lemma_coast_lasts<
    D: Fn(&Vessel, Real, Real) -> Option<Handover>,
    V: Fn(Frame, &CelestialBodyDef) -> Survey,
    M: Fn(Frame, &CelestialBodyDef, Real) -> Frame,
    G: Fn(Frame, &CelestialBodyDef) -> Frame,
    H: Fn(&Vessel, &Handover, Real) -> Frame,
    R: Fn(Real, Real) -> Real,
    L: Fn(Real, Real) -> Real,
>(
    before: Vessel,
    after: Vessel,
    changes: u32,
    elapsed: Real,
    dt: Real,
    drive: Drive<D, V, M, G, H, R, L>,
) -> (legs: Seq<Real>)
    requires
        is_coasted(before, after, changes, elapsed, dt, drive),
        keeps_time(drive),
        dt.spec_is_finite(),
        elapsed.spec_is_finite(),
        elapsed.value() <= dt.value(),
        changes <= 8,
    ensures
        is_flown_in(before, after, legs, drive),
        !(after.situation is Crashed) ==> total_time(legs) == dt.value() - elapsed.value(),
        legs.len() <= 9 - changes,
    decreases 8 - changes,
{
    let rest = choose|rest: Real| #[trigger]
        call_ensures(drive.remaining, (dt, elapsed), rest) && if changes
            >= MAX_SOI_TRANSITIONS_PER_STEP || rest.spec_at_most(Real::spec_of(EPSILON)) {
            is_run_out(before, after, elapsed, dt, rest, drive)
        } else {
            exists|next: Option<Handover>| #[trigger]
                call_ensures(drive.due, (&before, elapsed, rest), next) && match next {
                    Some(handover) => is_handed_over(
                        before,
                        after,
                        changes,
                        elapsed,
                        dt,
                        handover,
                        drive,
                    ),
                    None => is_drifted(before, after, rest, drive.rails),
                }
        };
    law_order_is_numeric(elapsed, dt);
    if changes >= MAX_SOI_TRANSITIONS_PER_STEP || rest.spec_at_most(Real::spec_of(EPSILON)) {
        if elapsed.spec_below(dt) && before.situation != FlightSituation::Crashed {
            lemma_one_leg(before, after, rest, drive)
        } else {
            Seq::empty()
        }
    } else {
        let next = choose|next: Option<Handover>| #[trigger]
            call_ensures(drive.due, (&before, elapsed, rest), next) && match next {
                Some(handover) => is_handed_over(
                    before,
                    after,
                    changes,
                    elapsed,
                    dt,
                    handover,
                    drive,
                ),
                None => is_drifted(before, after, rest, drive.rails),
            };
        if next is None {
            lemma_one_leg(before, after, rest, drive)
        } else {
            let handover = next->0;
            assert(call_ensures(drive.due, (&before, elapsed, rest), Some(handover)));
            let there = choose|there: Vessel| #[trigger]
                is_drifted(before, there, handover.time, drive.rails) && if there.situation
                    == FlightSituation::Crashed {
                    after == there
                } else {
                    exists|handed: Vessel, place: Frame, later: Real|
                        {
                            &&& #[trigger] call_ensures(
                                drive.hand_over,
                                (&there, &handover, elapsed),
                                place,
                            )
                            &&& #[trigger] is_given_to(there, handed, handover.target@, place)
                            &&& #[trigger] call_ensures(
                                drive.later,
                                (elapsed, handover.time),
                                later,
                            )
                            &&& changes < MAX_SOI_TRANSITIONS_PER_STEP && is_coasted(
                                handed,
                                after,
                                (changes + 1) as u32,
                                later,
                                dt,
                                drive,
                            )
                        }
                };
            if there.situation == FlightSituation::Crashed {
                lemma_one_leg(before, after, handover.time, drive)
            } else {
                let (handed, place, later) = choose|handed: Vessel, place: Frame, later: Real|
                    {
                        &&& #[trigger] call_ensures(
                            drive.hand_over,
                            (&there, &handover, elapsed),
                            place,
                        )
                        &&& #[trigger] is_given_to(there, handed, handover.target@, place)
                        &&& #[trigger] call_ensures(drive.later, (elapsed, handover.time), later)
                        &&& changes < MAX_SOI_TRANSITIONS_PER_STEP && is_coasted(
                            handed,
                            after,
                            (changes + 1) as u32,
                            later,
                            dt,
                            drive,
                        )
                    };
                let others = lemma_coast_lasts(
                    handed,
                    after,
                    (changes + 1) as u32,
                    later,
                    dt,
                    drive,
                );
                let legs = seq![handover.time] + others;
                assert(legs.drop_first() =~= others);
                assert(legs[0] == handover.time);
                assert(is_same_craft(there, handed));
                assert(is_drifted(before, there, legs[0], drive.rails));
                legs
            }
        }
    }
}

proof fn lemma_one_leg<
    D: Fn(&Vessel, Real, Real) -> Option<Handover>,
    V: Fn(Frame, &CelestialBodyDef) -> Survey,
    M: Fn(Frame, &CelestialBodyDef, Real) -> Frame,
    G: Fn(Frame, &CelestialBodyDef) -> Frame,
    H: Fn(&Vessel, &Handover, Real) -> Frame,
    R: Fn(Real, Real) -> Real,
    L: Fn(Real, Real) -> Real,
>(
    before: Vessel,
    after: Vessel,
    time: Real,
    drive: Drive<D, V, M, G, H, R, L>,
) -> (legs: Seq<Real>)
    requires
        is_drifted(before, after, time, drive.rails),
    ensures
        is_flown_in(before, after, legs, drive),
        total_time(legs) == time.value(),
        legs.len() == 1,
{
    let legs = seq![time];
    assert(legs.drop_first() =~= Seq::<Real>::empty());
    assert(is_drifted(before, after, legs[0], drive.rails));
    assert(is_same_craft(after, after));
    reveal_with_fuel(is_flown_in, 2);
    reveal_with_fuel(total_time, 2);
    legs
}

/// A vessel that comes into the reach of another body on the way is given to that body, at
/// the place that the change of frame gives, after it drifted for just the time until then.
pub proof fn law_handover_comes_when_due<
    D: Fn(&Vessel, Real, Real) -> Option<Handover>,
    V: Fn(Frame, &CelestialBodyDef) -> Survey,
    M: Fn(Frame, &CelestialBodyDef, Real) -> Frame,
    G: Fn(Frame, &CelestialBodyDef) -> Frame,
    H: Fn(&Vessel, &Handover, Real) -> Frame,
    R: Fn(Real, Real) -> Real,
    L: Fn(Real, Real) -> Real,
>(
    before: Vessel,
    after: Vessel,
    changes: u32,
    elapsed: Real,
    dt: Real,
    handover: Handover,
    drive: Drive<D, V, M, G, H, R, L>,
)
    requires
        is_handed_over(before, after, changes, elapsed, dt, handover, drive),
        !(after.situation is Crashed),
    ensures
        exists|there: Vessel, handed: Vessel, place: Frame, later: Real|
            {
                &&& is_drifted(before, there, handover.time, drive.rails)
                &&& #[trigger] call_ensures(drive.hand_over, (&there, &handover, elapsed), place)
                &&& handed.primary_body@ == handover.target@
                &&& handed.position == place.position
                &&& handed.velocity == place.velocity
                &&& handed.parts == there.parts
                &&& handed.situation == there.situation
                &&& #[trigger] call_ensures(drive.later, (elapsed, handover.time), later)
                &&& #[trigger] is_coasted(handed, after, (changes + 1) as u32, later, dt, drive)
            },
{
    let there = choose|there: Vessel| #[trigger]
        is_drifted(before, there, handover.time, drive.rails) && if there.situation
            == FlightSituation::Crashed {
            after == there
        } else {
            exists|handed: Vessel, place: Frame, later: Real|
                {
                    &&& #[trigger] call_ensures(
                        drive.hand_over,
                        (&there, &handover, elapsed),
                        place,
                    )
                    &&& #[trigger] is_given_to(there, handed, handover.target@, place)
                    &&& #[trigger] call_ensures(drive.later, (elapsed, handover.time), later)
                    &&& changes < MAX_SOI_TRANSITIONS_PER_STEP && is_coasted(
                        handed,
                        after,
                        (changes + 1) as u32,
                        later,
                        dt,
                        drive,
                    )
                }
        };
    let (handed, place, later) = choose|handed: Vessel, place: Frame, later: Real|
        {
            &&& #[trigger] call_ensures(drive.hand_over, (&there, &handover, elapsed), place)
            &&& #[trigger] is_given_to(there, handed, handover.target@, place)
            &&& #[trigger] call_ensures(drive.later, (elapsed, handover.time), later)
            &&& changes < MAX_SOI_TRANSITIONS_PER_STEP && is_coasted(
                handed,
                after,
                (changes + 1) as u32,
                later,
                dt,
                drive,
            )
        };
    assert(call_ensures(drive.hand_over, (&there, &handover, elapsed), place));
    assert(call_ensures(drive.later, (elapsed, handover.time), later));
    assert(is_coasted(handed, after, (changes + 1) as u32, later, dt, drive));
}

/// After a coast the vessel is with the body that holds it. It is wrecked where it was wrecked
/// on the way, and where it came about a body that circles the one it started from, is on its
/// way out again, and passed at most five metres above the ground.
pub proof fn law_patched_coast_ends_with_its_body<
    D: Fn(&Vessel, Real, Real) -> Option<Handover>,
    V: Fn(Frame, &CelestialBodyDef) -> Survey,
    M: Fn(Frame, &CelestialBodyDef, Real) -> Frame,
    G: Fn(Frame, &CelestialBodyDef) -> Frame,
    H: Fn(&Vessel, &Handover, Real) -> Frame,
    R: Fn(Real, Real) -> Real,
    L: Fn(Real, Real) -> Real,
    X: Fn(&Vessel) -> Reach,
    F: Fn(&Vessel, &CelestialBodyDef) -> Frame,
>(
    vessel: Vessel,
    dt: Real,
    drive: &Drive<D, V, M, G, H, R, L>,
    reach: &X,
    frame: &F,
    r: Vessel,
)
    requires
        call_ensures(
            step_on_rails_patched::<D, V, M, G, H, R, L, X, F>,
            (vessel, dt, drive, reach, frame),
            r,
        ),
        forall|place: Frame, about: CelestialBodyDef, seen: Survey| #[trigger]
            call_ensures(drive.rails.survey, (place, &about), seen)
                ==> seen.periapsis.spec_is_finite() && seen.altitude.spec_is_finite(),
    ensures
        exists|there: Vessel| #[trigger]
            is_coasted(vessel, there, 0, Real::spec_of(0), dt, *drive) && {
                &&& there.situation is Crashed ==> r == there
                &&& !(there.situation is Crashed) ==> exists|
                    handed: Vessel,
                    here: CelestialBodyDef,
                    seen: Survey,
                |
                    {
                        &&& #[trigger] is_transferred(there, handed, *reach, *frame)
                        &&& #[trigger] call_ensures(
                            drive.rails.survey,
                            (
                                Frame { position: handed.position, velocity: handed.velocity },
                                &here,
                            ),
                            seen,
                        )
                        &&& here@ == body(handed.primary_body@)
                        &&& r.primary_body == handed.primary_body
                        &&& r.parts == handed.parts
                        &&& here@.parent == Some(vessel.primary_body@) && seen.outbound
                            && seen.periapsis.value() <= 5 * pow2(1074) ==> r.situation is Crashed
                        &&& !(r.situation is Crashed) ==> r.position == handed.position
                            && r.velocity == handed.velocity
                    }
            },
{
    let there = choose|there: Vessel| #[trigger]
        is_coasted(vessel, there, 0, Real::spec_of(0), dt, *drive) && is_evaluated(
            there,
            r,
            vessel.primary_body@,
            drive.rails,
            *reach,
            *frame,
        );
    if there.situation != FlightSituation::Crashed {
        let (handed, here, seen) = choose|handed: Vessel, here: CelestialBodyDef, seen: Survey|
            {
                &&& #[trigger] is_transferred(there, handed, *reach, *frame)
                &&& #[trigger] is_surveyed(handed, here, seen, drive.rails.survey)
                &&& is_ended(
                    handed,
                    r,
                    is_crossed(here@, vessel.primary_body@, seen.outbound, seen.periapsis),
                    drive.rails,
                )
            };
        assert(call_ensures(
            drive.rails.survey,
            (Frame { position: handed.position, velocity: handed.velocity }, &here),
            seen,
        ));
        law_whole_numbers_compare(5, seen.periapsis);
        assert(is_transferred(there, handed, *reach, *frame));
    }
    assert(is_coasted(vessel, there, 0, Real::spec_of(0), dt, *drive));
}

} // verus!
