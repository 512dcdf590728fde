//! One tick of a flight: what comes after what.
use crate::actions::Game;
use crate::control::{apply_commands, flight_notice, is_commanded, news};
use crate::mission::{
    advanced, is_nearest, keeps_goals, law_goals_latch, limited_warp, physics_warp, planned,
    update_mission, warp_rate, FlightTelemetry, SimulationClock, TickPlan,
};
use crate::number::{law_whole_numbers_compare, Real, Single};
use crate::parts::{DefinitionView, PartCatalog};
use crate::runtime::{has_ticked, ScriptRuntime};
use crate::script::ScriptCommands;
use crate::staging::{Separation, Split};
use crate::vessel::{FlightSituation, Vessel};
use vstd::arithmetic::power2::*;
use vstd::prelude::*;

verus! {

/// What computes in a tick. `read` gives what the instruments show of a vessel at a time,
/// with that thrust; `split` and `place` part a vessel; `distances` tells how far each rate is
/// from the one that was asked for; `until` is the time left until another; `safe` tells
/// whether the vessel may coast; `step` makes one step at a time, and tells what the
/// instruments show then; `coast` lets the vessel coast for as long as so many steps; and
/// `later` is the time after so many steps.
pub struct Instruments<T, S, P, W, U, F, A, C, L> {
    pub read: T,
    pub split: S,
    pub place: P,
    pub distances: W,
    pub until: U,
    pub safe: F,
    pub step: A,
    pub coast: C,
    pub later: L,
}

/// A vessel, what the instruments show of it, and the time.
pub struct Moment {
    pub vessel: Vessel,
    pub telemetry: FlightTelemetry,
    pub ut: Real,
}

/// Whether `after` is one step after `before`.
pub open spec fn is_stepped_once<
    A: Fn(&Vessel, Real) -> (Vessel, FlightTelemetry),
    L: Fn(Real, u32) -> Real,
>(before: Moment, after: Moment, step: A, later: L) -> bool {
    &&& call_ensures(step, (&before.vessel, before.ut), (after.vessel, after.telemetry))
    &&& call_ensures(later, (before.ut, 1u32), after.ut)
}

/// Whether `after` is so many steps after `before`.
pub open spec fn is_stepped<
    A: Fn(&Vessel, Real) -> (Vessel, FlightTelemetry),
    L: Fn(Real, u32) -> Real,
>(before: Moment, after: Moment, steps: nat, step: A, later: L) -> bool
    decreases steps,
{
    if steps == 0 {
        after == before
    } else {
        exists|middle: Moment|
            is_stepped(before, middle, (steps - 1) as nat, step, later)
                && #[trigger] is_stepped_once(middle, after, step, later)
    }
}

/// Whether a coast as long as so many steps leads from `before` to `after` and turns the
/// clock into that after it, which slows down where the vessel must not coast on.
pub open spec fn is_carried<
    T: Fn(&Vessel, Real, Real) -> FlightTelemetry,
    F: Fn(&Vessel) -> bool,
    C: Fn(&Vessel, Real, u32) -> Vessel,
    L: Fn(Real, u32) -> Real,
>(
    before: Moment,
    after: Moment,
    steps: u32,
    clock: SimulationClock,
    slowed: SimulationClock,
    read: T,
    safe: F,
    coast: C,
    later: L,
) -> bool {
    &&& call_ensures(coast, (&before.vessel, before.ut, steps), after.vessel)
    &&& call_ensures(later, (before.ut, steps), after.ut)
    &&& call_ensures(read, (&after.vessel, after.ut, Real::spec_of(0)), after.telemetry)
    &&& exists|may: bool| #[trigger]
        call_ensures(safe, (&after.vessel,), may) && slowed == (SimulationClock {
            universal_time: after.ut,
            warp_index: if may {
                clock.warp_index
            } else {
                physics_warp(clock.warp_index)
            },
            ..clock
        })
}

/// Whether the clock leads from `before` to `after`, by steps or by a coast as it says, and
/// is that one then.
pub open spec fn is_moved<
    T: Fn(&Vessel, Real, Real) -> FlightTelemetry,
    S: Fn(&Vessel, &Separation) -> Split,
    P: Fn([Real; 3], [Single; 3]) -> [Single; 3],
    W: Fn(Real) -> [Real; 8],
    U: Fn(Real, Real) -> Real,
    F: Fn(&Vessel) -> bool,
    A: Fn(&Vessel, Real) -> (Vessel, FlightTelemetry),
    C: Fn(&Vessel, Real, u32) -> Vessel,
    L: Fn(Real, u32) -> Real,
>(
    before: Moment,
    after: Moment,
    clock: SimulationClock,
    moved: SimulationClock,
    instruments: Instruments<T, S, P, W, U, F, A, C, L>,
) -> bool {
    match planned(clock) {
        TickPlan::Idle => after == before && moved == clock,
        TickPlan::Steps(steps) => {
            &&& is_stepped(before, after, steps as nat, instruments.step, instruments.later)
            &&& moved == (SimulationClock { universal_time: after.ut, ..clock })
        },
        TickPlan::Coast(steps) => is_carried(
            before,
            after,
            steps,
            clock,
            moved,
            instruments.read,
            instruments.safe,
            instruments.coast,
            instruments.later,
        ),
    }
}

/// Whether `after` is the clock `before` at the rate that the script asked for, if it did.
pub open spec fn is_asked<W: Fn(Real) -> [Real; 8]>(
    before: SimulationClock,
    after: SimulationClock,
    rate: Option<Real>,
    distances: W,
) -> bool {
    match rate {
        Some(rate) => exists|far: [Real; 8]| #[trigger]
            call_ensures(distances, (rate,), far) && is_nearest(before, after, far),
        None => after == before,
    }
}

/// Whether `left` is the time left until the vessel's maneuver, where it has one.
pub open spec fn is_left<U: Fn(Real, Real) -> Real>(
    vessel: Vessel,
    now: Real,
    left: Option<Real>,
    until: U,
) -> bool {
    match vessel.maneuver {
        Some(node) => left is Some && call_ensures(until, (node.ut, now), left->0),
        None => left is None,
    }
}

/// Whether `after` is the clock `before` at the rate that the script asked for, if it did,
/// and slowed down for what lies ahead of the vessel.
pub open spec fn is_limited<
    W: Fn(Real) -> [Real; 8],
    U: Fn(Real, Real) -> Real,
    F: Fn(&Vessel) -> bool,
>(
    before: SimulationClock,
    after: SimulationClock,
    vessel: Vessel,
    rate: Option<Real>,
    distances: W,
    until: U,
    safe: F,
) -> bool {
    exists|asked: SimulationClock, may: bool, left: Option<Real>|
        {
            &&& #[trigger] is_asked(before, asked, rate, distances)
            &&& #[trigger] call_ensures(safe, (&vessel,), may)
            &&& #[trigger] is_left(vessel, asked.universal_time, left, until)
            &&& after == (SimulationClock {
                warp_index: limited_warp(asked.warp_index, vessel.controls.throttle, may, left),
                ..asked
            })
        }
}

/// Whether the game after it holds what the tick ended with: the vessel, the goals that it has
/// reached, and the news where there is any.
pub open spec fn is_noted(game: Game, after: Game, end: Moment) -> bool {
    let mission = advanced(
        game.mission,
        end.vessel.primary_body@ == "carapace"@,
        end.vessel.next_stage,
        end.vessel.situation,
        end.telemetry.altitude,
        end.telemetry.orbit.periapsis,
    );
    &&& after == (Game { vessel: Some(end.vessel), mission, notice: after.notice, ..game })
    &&& after.notice@ == match news(end.vessel.situation, mission) {
        Some(text) => text,
        None => game.notice@,
    }
}

/// Whether a tick went so: the script saw that, asked for those commands, and the vessel
/// was that one once they were done; the clock was then limited so; and the tick ended with
/// that moment.
pub open spec fn is_tick<
    T: Fn(&Vessel, Real, Real) -> FlightTelemetry,
    S: Fn(&Vessel, &Separation) -> Split,
    P: Fn([Real; 3], [Single; 3]) -> [Single; 3],
    W: Fn(Real) -> [Real; 8],
    U: Fn(Real, Real) -> Real,
    F: Fn(&Vessel) -> bool,
    A: Fn(&Vessel, Real) -> (Vessel, FlightTelemetry),
    C: Fn(&Vessel, Real, u32) -> Vessel,
    L: Fn(Real, u32) -> Real,
>(
    start: Moment,
    end: Moment,
    seen: FlightTelemetry,
    commands: ScriptCommands,
    commanded: Vessel,
    clock: SimulationClock,
    limited: SimulationClock,
    moved: SimulationClock,
    catalog: Map<Seq<char>, DefinitionView>,
    instruments: Instruments<T, S, P, W, U, F, A, C, L>,
) -> bool {
    &&& call_ensures(instruments.read, (&start.vessel, start.ut, start.telemetry.thrust), seen)
    &&& is_commanded(
        start.vessel,
        commanded,
        catalog,
        commands,
        instruments.split,
        instruments.place,
    )
    &&& is_limited(
        clock,
        limited,
        commanded,
        commands.warp_rate,
        instruments.distances,
        instruments.until,
        instruments.safe,
    )
    &&& is_moved(Moment { vessel: commanded, ..start }, end, limited, moved, instruments)
}

/// Whether a tick of flight turns the game, what the instruments show, the clock and the
/// flight computer into those after it. Nothing happens while the clock is paused and without
/// a vessel. Else the script runs first, on what the instruments show; what it asks for is
/// done; the clock is limited for the vessel as it is then; the vessel moves; and the goals
/// and the news come last. `changed` tells whether the vessel looks different by what the
/// script asked for.
pub open spec fn is_flown<
    T: Fn(&Vessel, Real, Real) -> FlightTelemetry,
    S: Fn(&Vessel, &Separation) -> Split,
    P: Fn([Real; 3], [Single; 3]) -> [Single; 3],
    W: Fn(Real) -> [Real; 8],
    U: Fn(Real, Real) -> Real,
    F: Fn(&Vessel) -> bool,
    A: Fn(&Vessel, Real) -> (Vessel, FlightTelemetry),
    C: Fn(&Vessel, Real, u32) -> Vessel,
    L: Fn(Real, u32) -> Real,
>(
    game: Game,
    after: Game,
    shown: FlightTelemetry,
    shown_after: FlightTelemetry,
    clock: SimulationClock,
    moved: SimulationClock,
    computer: ScriptRuntime,
    computer_after: ScriptRuntime,
    catalog: Map<Seq<char>, DefinitionView>,
    instruments: Instruments<T, S, P, W, U, F, A, C, L>,
    changed: bool,
) -> bool {
    if clock.paused || game.vessel is None {
        &&& after == game
        &&& shown_after == shown
        &&& moved == clock
        &&& computer_after == computer
        &&& !changed
    } else {
        let start = Moment {
            vessel: game.vessel->0,
            telemetry: shown,
            ut: clock.universal_time,
        };
        exists|
            end: Moment,
            seen: FlightTelemetry,
            commands: ScriptCommands,
            commanded: Vessel,
            limited: SimulationClock,
        |
            {
                &&& #[trigger] is_tick(
                    start,
                    end,
                    seen,
                    commands,
                    commanded,
                    clock,
                    limited,
                    moved,
                    catalog,
                    instruments,
                )
                &&& has_ticked(computer, computer_after, seen, commands)
                &&& is_noted(game, after, end)
                &&& shown_after == end.telemetry
                &&& changed == (commands.deploy_parachutes || commands.stage
                    && start.vessel.next_stage < start.vessel.stages.len())
            }
    }
}

/// Whether the instruments can be asked anything.
pub open spec fn are_ready<
    T: Fn(&Vessel, Real, Real) -> FlightTelemetry,
    S: Fn(&Vessel, &Separation) -> Split,
    P: Fn([Real; 3], [Single; 3]) -> [Single; 3],
    W: Fn(Real) -> [Real; 8],
    U: Fn(Real, Real) -> Real,
    F: Fn(&Vessel) -> bool,
    A: Fn(&Vessel, Real) -> (Vessel, FlightTelemetry),
    C: Fn(&Vessel, Real, u32) -> Vessel,
    L: Fn(Real, u32) -> Real,
>(instruments: Instruments<T, S, P, W, U, F, A, C, L>) -> bool {
    &&& forall|v: &Vessel, a: Real, b: Real| call_requires(instruments.read, (v, a, b))
    &&& forall|v: &Vessel, p: &Separation| call_requires(instruments.split, (v, p))
    &&& forall|a: [Real; 3], b: [Single; 3]| call_requires(instruments.place, (a, b))
    &&& forall|a: Real| call_requires(instruments.distances, (a,))
    &&& forall|a: Real, b: Real| call_requires(instruments.until, (a, b))
    &&& forall|v: &Vessel| call_requires(instruments.safe, (v,))
    &&& forall|v: &Vessel, a: Real| call_requires(instruments.step, (v, a))
    &&& forall|v: &Vessel, a: Real, n: u32| call_requires(instruments.coast, (v, a, n))
    &&& forall|a: Real, n: u32| call_requires(instruments.later, (a, n))
}

fn limit<
    W: Fn(Real) -> [Real; 8],
    U: Fn(Real, Real) -> Real,
    F: Fn(&Vessel) -> bool,
>(
    clock: &mut SimulationClock,
    vessel: &Vessel,
    rate: Option<Real>,
    distances: &W,
    until: &U,
    safe: &F,
)
    requires
        forall|a: Real| call_requires(*distances, (a,)),
        forall|a: Real, b: Real| call_requires(*until, (a, b)),
        forall|v: &Vessel| call_requires(*safe, (v,)),
    ensures
        is_limited(*old(clock), *final(clock), *vessel, rate, *distances, *until, *safe),
{
    if let Some(rate) = rate {
        let far = distances(rate);
        clock.nearest(&far);
        proof {
            assert(call_ensures(*distances, (rate,), far));
        }
    }
    let ghost asked = *clock;
    let may = safe(vessel);
    let left = match vessel.maneuver {
        Some(node) => Some(until(node.ut, clock.universal_time)),
        None => None,
    };
    clock.limit_for_flight(vessel.controls.throttle, may, left);
    proof {
        assert(is_asked(*old(clock), asked, rate, *distances));
        assert(call_ensures(*safe, (vessel,), may));
        assert(is_left(*vessel, asked.universal_time, left, *until));
    }
}

fn take_steps<
    A: Fn(&Vessel, Real) -> (Vessel, FlightTelemetry),
    L: Fn(Real, u32) -> Real,
>(vessel: Vessel, shown: FlightTelemetry, ut: Real, steps: u32, step: &A, later: &L) -> (r: (
    Vessel,
    FlightTelemetry,
    Real,
))
    requires
        forall|v: &Vessel, a: Real| call_requires(*step, (v, a)),
        forall|a: Real, n: u32| call_requires(*later, (a, n)),
    ensures
        is_stepped(
            Moment { vessel, telemetry: shown, ut },
            Moment { vessel: r.0, telemetry: r.1, ut: r.2 },
            steps as nat,
            *step,
            *later,
        ),
{
    let ghost start = Moment { vessel, telemetry: shown, ut };
    let mut vessel = vessel;
    let mut shown = shown;
    let mut ut = ut;
    for i in 0..steps
        invariant
            forall|v: &Vessel, a: Real| call_requires(*step, (v, a)),
            forall|a: Real, n: u32| call_requires(*later, (a, n)),
            is_stepped(
                start,
                Moment { vessel, telemetry: shown, ut },
                i as nat,
                *step,
                *later,
            ),
    {
        let ghost middle = Moment { vessel, telemetry: shown, ut };
        let made = step(&vessel, ut);
        let time = later(ut, 1);
        vessel = made.0;
        shown = made.1;
        ut = time;
        proof {
            let now = Moment { vessel, telemetry: shown, ut };
            assert(is_stepped_once(middle, now, *step, *later));
            assert(is_stepped(start, middle, ((i + 1) - 1) as nat, *step, *later));
            assert(is_stepped(start, now, (i + 1) as nat, *step, *later));
        }
    }
    (vessel, shown, ut)
}

fn advance<
    T: Fn(&Vessel, Real, Real) -> FlightTelemetry,
    S: Fn(&Vessel, &Separation) -> Split,
    P: Fn([Real; 3], [Single; 3]) -> [Single; 3],
    W: Fn(Real) -> [Real; 8],
    U: Fn(Real, Real) -> Real,
    F: Fn(&Vessel) -> bool,
    A: Fn(&Vessel, Real) -> (Vessel, FlightTelemetry),
    C: Fn(&Vessel, Real, u32) -> Vessel,
    L: Fn(Real, u32) -> Real,
>(
    vessel: Vessel,
    shown: FlightTelemetry,
    clock: &mut SimulationClock,
    instruments: &Instruments<T, S, P, W, U, F, A, C, L>,
) -> (r: (Vessel, FlightTelemetry))
    requires
        are_ready(*instruments),
    ensures
        exists|end: Moment| #[trigger]
            is_moved(
                Moment { vessel, telemetry: shown, ut: old(clock).universal_time },
                end,
                *old(clock),
                *final(clock),
                *instruments,
            ) && end.vessel == r.0 && end.telemetry == r.1,
{
    let ghost start = Moment { vessel, telemetry: shown, ut: clock.universal_time };
    let ut = clock.universal_time;
    match clock.plan() {
        TickPlan::Idle => {
            proof {
                assert(is_moved(start, start, *old(clock), *clock, *instruments));
            }
            (vessel, shown)
        },
        TickPlan::Steps(steps) => {
            let made = take_steps(vessel, shown, ut, steps, &instruments.step, &instruments.later);
            clock.universal_time = made.2;
            proof {
                let end = Moment { vessel: made.0, telemetry: made.1, ut: made.2 };
                assert(is_moved(start, end, *old(clock), *clock, *instruments));
            }
            (made.0, made.1)
        },
        TickPlan::Coast(steps) => {
            let there = (instruments.coast)(&vessel, ut, steps);
            let time = (instruments.later)(ut, steps);
            clock.universal_time = time;
            let seen = (instruments.read)(&there, time, Real::zero());
            let may = (instruments.safe)(&there);
            if !may {
                clock.limit_to_physics();
            }
            proof {
                let end = Moment { vessel: there, telemetry: seen, ut: time };
                assert(call_ensures(instruments.safe, (&end.vessel,), may));
                assert(is_moved(start, end, *old(clock), *clock, *instruments));
            }
            (there, seen)
        },
    }
}

/// Lets a flight go on for one tick of the game. Says whether the vessel looks different by
/// what the script asked for.
pub fn simulate_flight<
    T: Fn(&Vessel, Real, Real) -> FlightTelemetry,
    S: Fn(&Vessel, &Separation) -> Split,
    P: Fn([Real; 3], [Single; 3]) -> [Single; 3],
    W: Fn(Real) -> [Real; 8],
    U: Fn(Real, Real) -> Real,
    F: Fn(&Vessel) -> bool,
    A: Fn(&Vessel, Real) -> (Vessel, FlightTelemetry),
    C: Fn(&Vessel, Real, u32) -> Vessel,
    L: Fn(Real, u32) -> Real,
>(
    game: &mut Game,
    shown: &mut FlightTelemetry,
    clock: &mut SimulationClock,
    computer: &mut ScriptRuntime,
    catalog: &PartCatalog,
    instruments: &Instruments<T, S, P, W, U, F, A, C, L>,
) -> (r: bool)
    requires
        old(computer).is_sound(),
        are_ready(*instruments),
    ensures
        is_flown(
            *old(game),
            *final(game),
            *old(shown),
            *final(shown),
            *old(clock),
            *final(clock),
            *old(computer),
            *final(computer),
            catalog@,
            *instruments,
            r,
        ),
        final(computer).is_sound(),
{
    if clock.paused {
        return false;
    }
    let mut vessel = match game.vessel.take() {
        Some(vessel) => vessel,
        None => {
            return false;
        },
    };
    let ghost start = Moment { vessel, telemetry: *shown, ut: clock.universal_time };
    let seen = (instruments.read)(&vessel, clock.universal_time, shown.thrust);
    let commands = computer.tick(&seen);
    let changed = apply_commands(
        &mut vessel,
        catalog,
        &commands,
        &instruments.split,
        &instruments.place,
    );
    let ghost commanded = vessel;
    limit(
        clock,
        &vessel,
        commands.warp_rate,
        &instruments.distances,
        &instruments.until,
        &instruments.safe,
    );
    let ghost limited = *clock;
    let (there, now) = advance(vessel, *shown, clock, instruments);
    let ghost end = choose|end: Moment| #[trigger]
        is_moved(
            Moment { vessel: commanded, ..start },
            end,
            limited,
            *clock,
            *instruments,
        ) && end.vessel == there && end.telemetry == now;
    *shown = now;
    update_mission(&mut game.mission, &there, &now);
    if let Some(text) = flight_notice(there.situation, &game.mission) {
        game.notice = text.to_owned();
    }
    game.vessel = Some(there);
    proof {
        assert(is_tick(
            start,
            end,
            seen,
            commands,
            commanded,
            *old(clock),
            limited,
            *clock,
            catalog@,
            *instruments,
        ));
        assert(is_noted(*old(game), *game, end));
    }
    changed
}

/// A tick takes no goal back, and leaves the mode of the game and the levers that are held
/// as they are.
pub proof fn law_ticks_keep_goals<
    T: Fn(&Vessel, Real, Real) -> FlightTelemetry,
    S: Fn(&Vessel, &Separation) -> Split,
    P: Fn([Real; 3], [Single; 3]) -> [Single; 3],
    W: Fn(Real) -> [Real; 8],
    U: Fn(Real, Real) -> Real,
    F: Fn(&Vessel) -> bool,
    A: Fn(&Vessel, Real) -> (Vessel, FlightTelemetry),
    C: Fn(&Vessel, Real, u32) -> Vessel,
    L: Fn(Real, u32) -> Real,
>(
    game: Game,
    after: Game,
    shown: FlightTelemetry,
    shown_after: FlightTelemetry,
    clock: SimulationClock,
    moved: SimulationClock,
    computer: ScriptRuntime,
    computer_after: ScriptRuntime,
    catalog: Map<Seq<char>, DefinitionView>,
    instruments: Instruments<T, S, P, W, U, F, A, C, L>,
    changed: bool,
)
    requires
        is_flown(
            game,
            after,
            shown,
            shown_after,
            clock,
            moved,
            computer,
            computer_after,
            catalog,
            instruments,
            changed,
        ),
    ensures
        keeps_goals(game.mission, after.mission),
        after.mode == game.mode,
        after.levers == game.levers,
        after.vessel is Some == game.vessel is Some,
{
    if !clock.paused && game.vessel is Some {
        let start = Moment { vessel: game.vessel->0, telemetry: shown, ut: clock.universal_time };
        let (end, seen, commands, commanded, limited) = choose|
            end: Moment,
            seen: FlightTelemetry,
            commands: ScriptCommands,
            commanded: Vessel,
            limited: SimulationClock,
        |
            {
                &&& #[trigger] is_tick(
                    start,
                    end,
                    seen,
                    commands,
                    commanded,
                    clock,
                    limited,
                    moved,
                    catalog,
                    instruments,
                )
                &&& has_ticked(computer, computer_after, seen, commands)
                &&& is_noted(game, after, end)
            };
        law_goals_latch(
            game.mission,
            end.vessel.primary_body@ == "carapace"@,
            end.vessel.next_stage,
            end.vessel.situation,
            end.telemetry.altitude,
            end.telemetry.orbit.periapsis,
        );
    }
}

/// A tick after which the vessel has crashed ends with that news, unless the mission is
/// complete.
pub proof fn law_crash_is_told<
    T: Fn(&Vessel, Real, Real) -> FlightTelemetry,
    S: Fn(&Vessel, &Separation) -> Split,
    P: Fn([Real; 3], [Single; 3]) -> [Single; 3],
    W: Fn(Real) -> [Real; 8],
    U: Fn(Real, Real) -> Real,
    F: Fn(&Vessel) -> bool,
    A: Fn(&Vessel, Real) -> (Vessel, FlightTelemetry),
    C: Fn(&Vessel, Real, u32) -> Vessel,
    L: Fn(Real, u32) -> Real,
>(
    game: Game,
    after: Game,
    shown: FlightTelemetry,
    shown_after: FlightTelemetry,
    clock: SimulationClock,
    moved: SimulationClock,
    computer: ScriptRuntime,
    computer_after: ScriptRuntime,
    catalog: Map<Seq<char>, DefinitionView>,
    instruments: Instruments<T, S, P, W, U, F, A, C, L>,
    changed: bool,
)
    requires
        is_flown(
            game,
            after,
            shown,
            shown_after,
            clock,
            moved,
            computer,
            computer_after,
            catalog,
            instruments,
            changed,
        ),
        !clock.paused,
        after.vessel is Some,
        after.vessel->0.situation == FlightSituation::Crashed,
        !after.mission.recovered,
    ensures
        after.notice@
            == "Mission failed: command vehicle lost. The crab crew has been returned to the roster."@,
{
}

/// Whether the clock is set on exactly, by the same time for every step.
pub open spec fn keeps_time<L: Fn(Real, u32) -> Real>(later: L, stride: int) -> bool {
    forall|ut: Real, steps: u32, r: Real| #[trigger]
        call_ensures(later, (ut, steps), r) ==> r.value() == ut.value() + steps * stride
}

/// Steps take their time: as many strides as there were steps.
pub proof fn law_steps_take_their_time<
    A: Fn(&Vessel, Real) -> (Vessel, FlightTelemetry),
    L: Fn(Real, u32) -> Real,
>(before: Moment, after: Moment, steps: nat, step: A, later: L, stride: int)
    requires
        is_stepped(before, after, steps, step, later),
        keeps_time(later, stride),
    ensures
        after.ut.value() == before.ut.value() + steps * stride,
        steps > 0 ==> exists|middle: Moment| #[trigger]
            is_stepped(before, middle, (steps - 1) as nat, step, later) && call_ensures(
                step,
                (&middle.vessel, middle.ut),
                (after.vessel, after.telemetry),
            ),
        steps == 0 ==> after == before,
    decreases steps,
{
    if steps > 0 {
        let middle = choose|middle: Moment|
            is_stepped(before, middle, (steps - 1) as nat, step, later)
                && #[trigger] is_stepped_once(middle, after, step, later);
        law_steps_take_their_time(before, middle, (steps - 1) as nat, step, later, stride);
        assert(call_ensures(later, (middle.ut, 1u32), after.ut));
        assert((steps - 1) * stride + stride == steps * stride) by (nonlinear_arith);
        assert(is_stepped(before, middle, (steps - 1) as nat, step, later));
    } else {
        assert(0 * stride == 0);
    }
}

/// A tick does nothing while the clock stands or there is no vessel. Else the script sees the
/// vessel as it is, its commands reach the vessel before it moves, and the clock goes on by as
/// many strides as the rate says that it then runs at: no faster than the script asked for or
/// than it ran, and at the slowest within thirty seconds of a planned manoeuvre. What is shown
/// and kept afterwards is where the vessel ended.
pub proof fn law_tick_flies_the_vessel<
    T: Fn(&Vessel, Real, Real) -> FlightTelemetry,
    S: Fn(&Vessel, &Separation) -> Split,
    P: Fn([Real; 3], [Single; 3]) -> [Single; 3],
    W: Fn(Real) -> [Real; 8],
    U: Fn(Real, Real) -> Real,
    F: Fn(&Vessel) -> bool,
    A: Fn(&Vessel, Real) -> (Vessel, FlightTelemetry),
    C: Fn(&Vessel, Real, u32) -> Vessel,
    L: Fn(Real, u32) -> Real,
>(
    game: &mut Game,
    shown: &mut FlightTelemetry,
    clock: &mut SimulationClock,
    computer: &mut ScriptRuntime,
    catalog: &PartCatalog,
    instruments: &Instruments<T, S, P, W, U, F, A, C, L>,
    r: bool,
    stride: int,
)
    requires
        call_ensures(
            simulate_flight::<T, S, P, W, U, F, A, C, L>,
            (game, shown, clock, computer, catalog, instruments),
            r,
        ),
        keeps_time(instruments.later, stride),
        forall|a: Real, b: Real, c: Real| #[trigger]
            call_ensures(instruments.until, (a, b), c) ==> c.spec_is_finite(),
    ensures
        old(clock).paused || old(game).vessel is None ==> *final(game) == *old(game)
            && *final(shown) == *old(shown) && *final(clock) == *old(clock) && *final(computer)
            == *old(computer) && !r,
        !old(clock).paused && old(game).vessel is Some ==> exists|
            end: Moment,
            seen: FlightTelemetry,
            commands: ScriptCommands,
            commanded: Vessel,
            limited: SimulationClock,
        |
            {
                let vessel = old(game).vessel->0;
                let now = old(clock).universal_time;
                let rate = warp_rate(limited.warp_index);
                &&& #[trigger] is_tick(
                    Moment { vessel: old(game).vessel->0, telemetry: *old(shown), ut: old(clock).universal_time },
                    end,
                    seen,
                    commands,
                    commanded,
                    *old(clock),
                    limited,
                    *final(clock),
                    catalog@,
                    *instruments,
                )
                &&& call_ensures(instruments.read, (&vessel, now, old(shown).thrust), seen)
                &&& has_ticked(*old(computer), *final(computer), seen, commands)
                &&& is_commanded(
                    vessel,
                    commanded,
                    catalog@,
                    commands,
                    instruments.split,
                    instruments.place,
                )
                &&& limited.universal_time == now && !limited.paused
                &&& commands.warp_rate is None ==> limited.warp_index <= old(clock).warp_index
                &&& commanded.maneuver is Some ==> exists|left: Real| #[trigger]
                    call_ensures(instruments.until, (commanded.maneuver->0.ut, now), left) && (
                    left.value() < 30 * pow2(1074) ==> limited.warp_index == 0)
                &&& limited.warp_index > 2 ==> call_ensures(instruments.safe, (&commanded,), true)
                &&& limited.warp_index <= 2 ==> is_stepped(
                    Moment { vessel: commanded, telemetry: *old(shown), ut: now },
                    end,
                    rate as nat,
                    instruments.step,
                    instruments.later,
                )
                &&& limited.warp_index > 2 ==> call_ensures(
                    instruments.coast,
                    (&commanded, now, rate),
                    end.vessel,
                )
                &&& end.ut.value() == now.value() + rate * stride
                &&& final(clock).universal_time == end.ut
                &&& final(clock).warp_index <= limited.warp_index && !final(clock).paused
                &&& final(clock).warp_index < limited.warp_index ==> final(clock).warp_index == 2
                    && call_ensures(instruments.safe, (&end.vessel,), false)
                &&& *final(shown) == end.telemetry
                &&& final(game).vessel == Some(end.vessel)
                &&& final(game).mode == old(game).mode
                &&& final(game).levers == old(game).levers
                &&& end.telemetry.altitude.spec_is_finite() ==> final(game).mission.launched == (
                old(game).mission.launched || end.telemetry.altitude.value() > 50 * pow2(1074))
                &&& final(game).mission.staged == (old(game).mission.staged
                    || end.vessel.next_stage >= 2)
                &&& !final(game).mission.recovered && !(end.vessel.situation is Crashed)
                    ==> final(game).notice@ == old(game).notice@
                &&& final(game).mission.recovered ==> final(game).notice@
                    == "Mission complete — recovered safely on Carapace!"@
                &&& r == (commands.deploy_parachutes || commands.stage && vessel.next_stage
                    < vessel.stages@.len())
            },
{
    if !old(clock).paused && old(game).vessel is Some {
        let vessel = game.vessel->0;
        let now = clock.universal_time;
        let start = Moment { vessel, telemetry: *shown, ut: now };
        let (end, seen, commands, commanded, limited) = choose|
            end: Moment,
            seen: FlightTelemetry,
            commands: ScriptCommands,
            commanded: Vessel,
            limited: SimulationClock,
        |
            {
                &&& #[trigger] is_tick(
                    start,
                    end,
                    seen,
                    commands,
                    commanded,
                    *clock,
                    limited,
                    *final(clock),
                    catalog@,
                    *instruments,
                )
                &&& has_ticked(*computer, *final(computer), seen, commands)
                &&& is_noted(*game, *final(game), end)
                &&& *final(shown) == end.telemetry
                &&& r == (commands.deploy_parachutes || commands.stage && start.vessel.next_stage
                    < start.vessel.stages.len())
            };
        let (asked, may, left) = choose|asked: SimulationClock, may: bool, left: Option<Real>|
            {
                &&& #[trigger] is_asked(
                    *clock,
                    asked,
                    commands.warp_rate,
                    instruments.distances,
                )
                &&& #[trigger] call_ensures(instruments.safe, (&commanded,), may)
                &&& #[trigger] is_left(commanded, asked.universal_time, left, instruments.until)
                &&& limited == (SimulationClock {
                    warp_index: limited_warp(
                        asked.warp_index,
                        commanded.controls.throttle,
                        may,
                        left,
                    ),
                    ..asked
                })
            };
        if left is Some {
            law_whole_numbers_compare(30, left->0);
            assert(call_ensures(
                instruments.until,
                (commanded.maneuver->0.ut, now),
                left->0,
            ));
        }
        let middle = Moment { vessel: commanded, telemetry: *shown, ut: now };
        let rate = warp_rate(limited.warp_index);
        if limited.warp_index <= 2 {
            law_steps_take_their_time(
                middle,
                end,
                rate as nat,
                instruments.step,
                instruments.later,
                stride,
            );
        } else {
            assert(call_ensures(instruments.later, (now, rate), end.ut));
        }
        if end.telemetry.altitude.spec_is_finite() {
            law_whole_numbers_compare(50, end.telemetry.altitude);
        }
        assert(is_tick(
            Moment { vessel: game.vessel->0, telemetry: *shown, ut: clock.universal_time },
            end,
            seen,
            commands,
            commanded,
            *clock,
            limited,
            *final(clock),
            catalog@,
            *instruments,
        ));
    }
}

} // verus!
