use crabby_space::actions::Game;
use crabby_space::control::LatchedAxes;
use crabby_space::craft::{stock_craft, CraftBlueprint};
use crabby_space::debug_state::AppMode;
use crabby_space::mission::{FlightTelemetry, MissionProgress, SimulationClock};
use crabby_space::number::{Real, Single};
use crabby_space::parts::PartCatalog;
use crabby_space::runtime::ScriptRuntime;
use crabby_space::save::QuickSave;
use crabby_space::scripts::EXAMPLE_SCRIPT;
use crabby_space::session::{
    apply_flight_action, apply_script_action, leave_flight, open_assembly, resume_flight,
    saved_notice, FlightAction, FlightOutcome, Resumption, ScriptAction,
};
use crabby_space::staging::{Separation, Split};
use crabby_space::tick::{simulate_flight, Instruments};
use crabby_space::vessel::{FlightSituation, ManeuverNode, Vessel};
use std::cell::RefCell;

fn num(value: f64) -> Real {
    Real::of(value.to_bits())
}

fn value(number: Real) -> f64 {
    f64::from_bits(number.bits)
}

fn vessel() -> Vessel {
    Vessel::from_blueprint(&stock_craft(), &PartCatalog::default())
}

fn game(mode: AppMode) -> Game {
    Game {
        mode,
        vessel: None,
        mission: MissionProgress::default(),
        levers: LatchedAxes {
            pitch: Some(num(0.5)),
            yaw: None,
            roll: Some(num(-1.0)),
        },
        notice: "before".into(),
    }
}

fn save(source: &str) -> QuickSave {
    let mut flown = vessel();
    flown.next_stage = 2;
    QuickSave::capture(
        &flown,
        &SimulationClock {
            universal_time: num(77.0),
            warp_index: 3,
            paused: true,
        },
        &MissionProgress {
            launched: true,
            ..MissionProgress::default()
        },
        &source.to_string(),
        Some(serde_json::from_str("{\"count\": 4}").unwrap()),
    )
}

const COUNTING: &str = "state = state or {} function on_fixed_update(dt) \
    control.set_throttle(state.count / 8) end";
const BROKEN: &str = "this is no script";

#[test]
fn a_restored_flight_goes_on_where_it_was() {
    for (from, mode, notice) in [
        (Resumption::Menu, AppMode::Flight, "before"),
        (Resumption::Button, AppMode::Menu, "Quicksave restored"),
        (Resumption::Key, AppMode::Menu, "Quicksave restored"),
    ] {
        let mut restored = game(AppMode::Menu);
        let mut clock = SimulationClock::default();
        let mut computer = ScriptRuntime::default();
        assert!(resume_flight(
            Ok(save(COUNTING)),
            from,
            &mut restored,
            &mut clock,
            &mut computer,
        ));
        assert_eq!(restored.mode, mode);
        assert_eq!(restored.notice, notice);
        assert_eq!(restored.levers, LatchedAxes::default());
        assert!(restored.mission.launched);
        assert_eq!(restored.vessel.unwrap().next_stage, 2);
        assert_eq!(clock.universal_time, num(77.0));
        assert_eq!((clock.warp_index, clock.paused), (3, true));
        assert_eq!(computer.source, COUNTING);
        let commands = computer.tick(&FlightTelemetry::default());
        assert_eq!(commands.throttle, Some(num(0.5)));
    }
}

#[test]
fn a_flight_is_restored_without_its_script() {
    for (from, start) in [
        (Resumption::Menu, "Flight loaded; script paused: "),
        (Resumption::Button, "Flight restored; script paused: "),
        (Resumption::Key, "Quicksave restored"),
    ] {
        let mut restored = game(AppMode::Flight);
        let mut clock = SimulationClock::default();
        let mut computer = ScriptRuntime::default();
        assert!(resume_flight(
            Ok(save(BROKEN)),
            from,
            &mut restored,
            &mut clock,
            &mut computer,
        ));
        assert!(restored.notice.starts_with(start), "{}", restored.notice);
        assert_eq!(restored.notice == start, from == Resumption::Key);
        assert_eq!(restored.vessel.unwrap().next_stage, 2);
        assert!(!computer.active);
    }
}

#[test]
fn a_flight_that_cannot_be_read_changes_nothing() {
    for (from, notice) in [
        (Resumption::Menu, "Could not load quicksave: no such file"),
        (Resumption::Button, "Load failed: no such file"),
        (Resumption::Key, "Load failed: no such file"),
    ] {
        let mut kept = game(AppMode::Menu);
        kept.vessel = Some(vessel());
        let mut clock = SimulationClock::default();
        let mut computer = ScriptRuntime::default();
        assert!(!resume_flight(
            Err("no such file".into()),
            from,
            &mut kept,
            &mut clock,
            &mut computer,
        ));
        assert_eq!(kept.notice, notice);
        assert_eq!(kept.mode, AppMode::Menu);
        assert_eq!(kept.levers.pitch, Some(num(0.5)));
        assert_eq!(kept.vessel.unwrap().next_stage, 0);
        assert_eq!(clock, SimulationClock::default());
        assert_eq!(computer.source, EXAMPLE_SCRIPT);
    }
}

#[test]
fn a_save_is_told() {
    assert_eq!(saved_notice(Ok(())), "Quicksave written");
    assert_eq!(saved_notice(Err("disk full".into())), "Save failed: disk full");
}

#[test]
fn assembly_opens_afresh_and_a_flight_can_be_left() {
    let mut opened = game(AppMode::Menu);
    opened.vessel = Some(vessel());
    let mut craft = CraftBlueprint {
        parts: Vec::new(),
        ..stock_craft()
    };
    let mut computer = ScriptRuntime::default();
    computer.source = "-- mine".into();
    open_assembly(&mut opened, &mut craft, &mut computer);
    assert_eq!(opened.mode, AppMode::Editor);
    assert!(opened.vessel.is_none());
    assert_eq!(
        opened.notice,
        "Stock Pathfinder loaded. Modify it or launch as-is."
    );
    assert_eq!(craft.parts.len(), 15);
    assert_eq!(computer.source, EXAMPLE_SCRIPT);

    let mut left = game(AppMode::Flight);
    left.vessel = Some(vessel());
    computer.load(COUNTING.into(), None).unwrap();
    assert!(computer.active);
    leave_flight(&mut left, &mut computer);
    assert_eq!(left.mode, AppMode::Editor);
    assert_eq!(left.levers, LatchedAxes::default());
    assert!(left.vessel.is_some());
    assert!(!computer.active);
    assert_eq!(left.notice, "before");
}

/// What a tick did, in its order.
#[derive(Default)]
struct Flown {
    events: RefCell<Vec<String>>,
}

/// Flies for one tick; the events tell what was computed and on what. A coast is safe until it
/// has happened; a step or a coast that begins at a time of 90 or more ends in a crash.
fn fly(
    game: &mut Game,
    shown: &mut FlightTelemetry,
    clock: &mut SimulationClock,
    computer: &mut ScriptRuntime,
) -> (bool, Vec<String>) {
    let flown = Flown::default();
    let note = |event: String| flown.events.borrow_mut().push(event);
    let moved = |vessel: &Vessel, ut: Real| {
        let mut moved = vessel.clone();
        moved.position[0] = num(value(moved.position[0]) + 1.0);
        if value(ut) >= 90.0 {
            moved.situation = FlightSituation::Crashed;
        }
        moved
    };
    let instruments = Instruments {
        read: |vessel: &Vessel, ut: Real, thrust: Real| {
            note(format!("read {} {}", value(ut), value(thrust)));
            FlightTelemetry {
                altitude: num(value(vessel.position[0]) + 50.0),
                ..FlightTelemetry::default()
            }
        },
        split: |_: &Vessel, _: &Separation| -> Split { panic!("nothing parts") },
        place: |_: [Real; 3], position: [Single; 3]| position,
        distances: |rate: Real| {
            note(format!("distances {}", value(rate)));
            std::array::from_fn(|index| {
                num((f64::from(SimulationClock::warp_rate(index)) - value(rate)).abs())
            })
        },
        until: |time: Real, now: Real| {
            note(format!("until {} {}", value(time), value(now)));
            num(value(time) - value(now))
        },
        safe: |vessel: &Vessel| {
            note(format!("safe at throttle {}", value(vessel.controls.throttle)));
            value(vessel.position[0]) < 1.0
        },
        step: |vessel: &Vessel, ut: Real| {
            note(format!("step {}", value(ut)));
            let stepped = moved(vessel, ut);
            let shown = FlightTelemetry {
                altitude: num(value(stepped.position[0]) + 50.0),
                thrust: num(9.0),
                ..FlightTelemetry::default()
            };
            (stepped, shown)
        },
        coast: |vessel: &Vessel, ut: Real, steps: u32| {
            note(format!("coast {} {}", value(ut), steps));
            moved(vessel, ut)
        },
        later: |ut: Real, steps: u32| num(value(ut) + f64::from(steps)),
    };
    let changed = simulate_flight(
        game,
        shown,
        clock,
        computer,
        &PartCatalog::default(),
        &instruments,
    );
    drop(instruments);
    (changed, flown.events.into_inner())
}

fn started() -> (Game, FlightTelemetry, SimulationClock) {
    let mut flight = game(AppMode::Flight);
    let mut ready = vessel();
    ready.position[0] = num(0.0);
    flight.vessel = Some(ready);
    let shown = FlightTelemetry {
        thrust: num(3.0),
        ..FlightTelemetry::default()
    };
    let clock = SimulationClock {
        universal_time: num(10.0),
        warp_index: 0,
        paused: false,
    };
    (flight, shown, clock)
}

#[test]
fn a_tick_reads_then_steers_then_limits_then_steps() {
    let (mut flight, mut shown, mut clock) = started();
    let mut computer = ScriptRuntime::default();
    computer
        .load(
            "function on_fixed_update(dt) if flight.altitude() == 50 then \
             control.set_throttle(0.25) nav.set_warp(4) end end"
                .into(),
            None,
        )
        .unwrap();
    let (changed, events) = fly(&mut flight, &mut shown, &mut clock, &mut computer);
    assert!(!changed);
    assert_eq!(
        events,
        [
            "read 10 3",
            "distances 4",
            "safe at throttle 0.25",
            "step 10",
            "step 11",
            "step 12",
            "step 13",
        ]
    );
    assert_eq!(clock.universal_time, num(14.0));
    assert_eq!(clock.warp_index, 2);
    assert_eq!(shown.altitude, num(54.0));
    assert_eq!(shown.thrust, num(9.0));
    assert!(flight.mission.launched);
    assert_eq!(flight.notice, "before");
    assert_eq!(flight.levers.pitch, Some(num(0.5)));
    let flown = flight.vessel.unwrap();
    assert_eq!(flown.position[0], num(4.0));
    assert_eq!(flown.controls.throttle, num(0.25));
}

#[test]
fn a_tick_coasts_and_slows_down_after_it() {
    let (mut flight, mut shown, mut clock) = started();
    clock.warp_index = 4;
    flight.vessel.as_mut().unwrap().maneuver = Some(ManeuverNode {
        ut: num(500.0),
        prograde: num(0.0),
        normal: num(0.0),
        radial: num(0.0),
    });
    let mut computer = ScriptRuntime::default();
    let (changed, events) = fly(&mut flight, &mut shown, &mut clock, &mut computer);
    assert!(!changed);
    assert_eq!(
        events,
        [
            "read 10 3",
            "safe at throttle 0",
            "until 500 10",
            "coast 10 100",
            "read 110 0",
            "safe at throttle 0",
        ]
    );
    assert_eq!(clock.universal_time, num(110.0));
    assert_eq!(clock.warp_index, 2);
    assert_eq!(shown.altitude, num(51.0));
    assert_eq!(shown.thrust, num(0.0));

    let (mut flight, mut shown, mut clock) = started();
    clock.warp_index = 4;
    flight.vessel.as_mut().unwrap().maneuver = Some(ManeuverNode {
        ut: num(39.0),
        prograde: num(0.0),
        normal: num(0.0),
        radial: num(0.0),
    });
    let (_, events) = fly(&mut flight, &mut shown, &mut clock, &mut computer);
    assert_eq!(events.last().unwrap(), "step 10");
    assert_eq!(clock.warp_index, 0);
}

#[test]
fn a_tick_tells_of_a_crash() {
    let (mut flight, mut shown, mut clock) = started();
    clock.universal_time = num(95.0);
    let mut computer = ScriptRuntime::default();
    fly(&mut flight, &mut shown, &mut clock, &mut computer);
    assert_eq!(
        flight.notice,
        "Mission failed: command vehicle lost. The crab crew has been returned to the roster."
    );
}

#[test]
fn nothing_flies_while_paused_or_without_a_vessel() {
    let (mut flight, mut shown, mut clock) = started();
    clock.paused = true;
    let mut computer = ScriptRuntime::default();
    computer
        .load("function on_fixed_update(dt) control.stage() end".into(), None)
        .unwrap();
    let (changed, events) = fly(&mut flight, &mut shown, &mut clock, &mut computer);
    assert!(!changed && events.is_empty());
    assert_eq!(clock.universal_time, num(10.0));
    assert_eq!(flight.vessel.as_ref().unwrap().next_stage, 0);
    clock.paused = false;
    flight.vessel = None;
    let (changed, events) = fly(&mut flight, &mut shown, &mut clock, &mut computer);
    assert!(!changed && events.is_empty());
    assert!(flight.vessel.is_none());
    assert_eq!(flight.notice, "before");
}

#[test]
fn a_tick_does_what_the_script_asks_for_before_it_steps() {
    let (mut flight, mut shown, mut clock) = started();
    let mut computer = ScriptRuntime::default();
    computer
        .load("function on_fixed_update(dt) control.stage() end".into(), None)
        .unwrap();
    let (changed, events) = fly(&mut flight, &mut shown, &mut clock, &mut computer);
    assert!(changed);
    assert_eq!(events.last().unwrap(), "step 10");
    assert_eq!(flight.vessel.unwrap().next_stage, 1);
}

fn act(
    action: FlightAction,
    game: &mut Game,
    clock: &mut SimulationClock,
    computer: &mut ScriptRuntime,
) -> FlightOutcome {
    apply_flight_action(
        action,
        game,
        clock,
        computer,
        &PartCatalog::default(),
        &|_: &Vessel, _: &Separation| -> Split { panic!("nothing parts") },
        &|_: [Real; 3], position: [Single; 3]| position,
    )
}

#[test]
fn actions_in_flight_do_what_they_say() {
    let (mut flight, _, mut clock) = started();
    let mut computer = ScriptRuntime::default();
    computer
        .load(
            "heard = 0 function on_event(name) if name == 'stage' then control.set_throttle(0.5) \
             end end function on_fixed_update(dt) end"
                .into(),
            None,
        )
        .unwrap();
    let outcome = act(FlightAction::ActivateNextStage, &mut flight, &mut clock, &mut computer);
    assert!(matches!(outcome, FlightOutcome::Changed));
    assert_eq!(flight.vessel.as_ref().unwrap().next_stage, 1);
    let commands = computer.tick(&FlightTelemetry::default());
    assert_eq!(commands.throttle, Some(num(0.5)));

    for action in [
        FlightAction::ToggleSas,
        FlightAction::ToggleRcs,
        FlightAction::IncreaseWarp,
        FlightAction::TogglePause,
    ] {
        let outcome = act(action, &mut flight, &mut clock, &mut computer);
        assert!(matches!(outcome, FlightOutcome::Done));
    }
    let controls = &vessel().controls;
    let now = &flight.vessel.as_ref().unwrap().controls;
    assert_eq!(now.sas.is_some(), controls.sas.is_none());
    assert_eq!(now.rcs, !controls.rcs);
    assert_eq!((clock.warp_index, clock.paused), (1, true));
    act(FlightAction::DecreaseWarp, &mut flight, &mut clock, &mut computer);
    act(FlightAction::DecreaseWarp, &mut flight, &mut clock, &mut computer);
    assert_eq!(clock.warp_index, 0);
    let outcome = act(FlightAction::Quicksave, &mut flight, &mut clock, &mut computer);
    assert!(matches!(outcome, FlightOutcome::ToSave));
    let outcome = act(FlightAction::Quickload, &mut flight, &mut clock, &mut computer);
    assert!(matches!(outcome, FlightOutcome::ToLoad));
    assert!(flight.levers.pitch.is_some());
    act(FlightAction::ReleaseAttitudeControls, &mut flight, &mut clock, &mut computer);
    assert_eq!(flight.levers, LatchedAxes::default());
    flight.vessel.as_mut().unwrap().next_stage = 99;
    match act(FlightAction::ActivateNextStage, &mut flight, &mut clock, &mut computer) {
        FlightOutcome::Refused(reason) => assert_eq!(reason, "no stage is left"),
        _ => panic!("refused"),
    }
    assert!(computer.active);
    let outcome = act(FlightAction::ReturnToAssembly, &mut flight, &mut clock, &mut computer);
    assert!(matches!(outcome, FlightOutcome::Left));
    assert_eq!(flight.mode, AppMode::Editor);
    assert!(!computer.active);
    match act(FlightAction::ToggleSas, &mut flight, &mut clock, &mut computer) {
        FlightOutcome::Refused(reason) => assert_eq!(reason, "this action needs the Flight mode"),
        _ => panic!("refused"),
    }
    let mut empty = game(AppMode::Flight);
    match act(FlightAction::TogglePause, &mut empty, &mut clock, &mut computer) {
        FlightOutcome::Refused(reason) => assert_eq!(reason, "there is no vessel in flight"),
        _ => panic!("refused"),
    }
    assert!(clock.paused);
}

#[test]
fn scripts_are_edited_and_run_where_they_may_be() {
    let mut computer = ScriptRuntime::default();
    let refused = |mode: AppMode, action: ScriptAction| {
        let mut computer = ScriptRuntime::default();
        let reason = apply_script_action(mode, action, &mut computer).unwrap_err();
        assert_eq!(computer.source, EXAMPLE_SCRIPT);
        reason
    };
    assert_eq!(
        refused(AppMode::Menu, ScriptAction::Stop),
        "scripts are edited in assembly or flight"
    );
    assert_eq!(
        refused(AppMode::Editor, ScriptAction::SetSource(None)),
        "source is missing"
    );
    assert_eq!(
        refused(AppMode::Editor, ScriptAction::Run),
        "this action needs the Flight mode"
    );
    let set = ScriptAction::SetSource(Some(COUNTING.into()));
    assert_eq!(apply_script_action(AppMode::Editor, set, &mut computer), Ok(()));
    assert_eq!(computer.source, COUNTING);
    assert!(!computer.active);
    assert_eq!(
        apply_script_action(AppMode::Flight, ScriptAction::Run, &mut computer),
        Ok(())
    );
    assert!(computer.active);
    assert_eq!(
        apply_script_action(AppMode::Flight, ScriptAction::Stop, &mut computer),
        Ok(())
    );
    assert!(!computer.active);
    let broken = ScriptAction::SetSource(Some(BROKEN.into()));
    assert_eq!(apply_script_action(AppMode::Flight, broken, &mut computer), Ok(()));
    assert!(apply_script_action(AppMode::Flight, ScriptAction::Run, &mut computer).is_err());
}
