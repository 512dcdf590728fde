//! What begins, saves, restores and ends a flight beside a launch, and what is asked for in it.
use crate::actions::Game;
use crate::control::{toggle_rcs, toggle_sas, toggled_sas, LatchedAxes, ReleaseEvent};
use crate::craft::{are_stock_parts, are_stock_stages, stock_craft, CraftBlueprint};
use crate::debug_state::AppMode;
use crate::mission::{faster_warp, slower_warp, MissionProgress, SimulationClock};
use crate::number::{Real, Single};
use crate::parts::{DefinitionView, PartCatalog};
use crate::runtime::{has_heard, has_loaded, is_stopped, ScriptError, ScriptRuntime};
use crate::save::{is_captured, QuickSave};
use crate::scripts::EXAMPLE_SCRIPT;
use crate::staging::{activate_next_stage, is_staged, Separation, Split};
use crate::vessel::{FlightControls, Vessel};
use vstd::prelude::*;

verus! {

/// How the player asks for the saved flight.
#[derive(Debug, Clone, Copy, PartialEq, Eq, Structural)]
pub enum Resumption {
    /// From the menu.
    Menu,
    /// By a button, in flight.
    Button,
    /// By the key, in flight.
    Key,
}

/// What the player is told once the flight is restored, if anything: in flight that it is
/// restored; from the menu nothing; and that the script could not be started, but after the
/// key.
pub open spec fn resumed_news(from: Resumption, ended: Result<(), ScriptError>) -> Option<
    Seq<char>,
> {
    match ended {
        Ok(()) => if from == Resumption::Menu {
            None
        } else {
            Some("Quicksave restored"@)
        },
        Err(error) => match from {
            Resumption::Menu => Some("Flight loaded; script paused: "@ + error.message@),
            Resumption::Button => Some("Flight restored; script paused: "@ + error.message@),
            Resumption::Key => Some("Quicksave restored"@),
        },
    }
}

/// What the player is told of a saved flight that could not be read.
pub open spec fn unread_news(from: Resumption, fault: Seq<char>) -> Seq<char> {
    if from == Resumption::Menu {
        "Could not load quicksave: "@ + fault
    } else {
        "Load failed: "@ + fault
    }
}

/// Whether the game after it goes on with the saved flight: its vessel and its mission,
/// levers that are the pilot's, in flight where it was asked for from the menu, and the news.
pub open spec fn is_resumed(
    game: Game,
    after: Game,
    save: QuickSave,
    from: Resumption,
    ended: Result<(), ScriptError>,
) -> bool {
    &&& after == (Game {
        mode: if from == Resumption::Menu {
            AppMode::Flight
        } else {
            game.mode
        },
        vessel: Some(save.vessel),
        mission: save.mission,
        levers: LatchedAxes::free(),
        notice: after.notice,
    })
    &&& after.notice@ == match resumed_news(from, ended) {
        Some(news) => news,
        None => game.notice@,
    }
}

/// Whether the game, the clock and the flight computer after it are those of the saved flight.
pub open spec fn has_resumed(
    save: QuickSave,
    from: Resumption,
    game: Game,
    after: Game,
    clock: SimulationClock,
    computer: ScriptRuntime,
    computer_after: ScriptRuntime,
) -> bool {
    &&& clock == save.clock
    &&& exists|ended: Result<(), ScriptError>| #[trigger]
        has_loaded(
            computer,
            computer_after,
            save.script_source,
            save.script_state,
            ended,
        ) && is_resumed(game, after, save, from, ended)
}

/// A flight that was saved comes back as it was: its vessel, its mission and its clock, and
/// its script with what that kept, however it is asked for; and no lever is held.
pub proof fn law_saved_flight_comes_back(
    save: QuickSave,
    vessel: Vessel,
    saved_clock: SimulationClock,
    mission: MissionProgress,
    script_source: String,
    script_state: Option<serde_json::Value>,
    from: Resumption,
    game: Game,
    after: Game,
    clock: SimulationClock,
    computer: ScriptRuntime,
    computer_after: ScriptRuntime,
)
    requires
        is_captured(save, vessel, saved_clock, mission, script_source, script_state),
        has_resumed(save, from, game, after, clock, computer, computer_after),
    ensures
        after.vessel is Some,
        after.vessel->0@ == vessel@,
        after.mission == mission,
        after.levers == LatchedAxes::free(),
        clock == saved_clock,
        exists|ended: Result<(), ScriptError>| #[trigger]
            has_loaded(computer, computer_after, script_source, script_state, ended),
{
}

fn joined(head: &str, tail: &str) -> (r: String)
    ensures
        r@ == head@ + tail@,
{
    let mut text = head.to_owned();
    text.append(tail);
    text
}

/// Goes on with a saved flight that was read, with its vessel, mission, clock and script;
/// a flight that could not be read changes nothing but what the player is told. Says whether
/// the flight goes on.
pub fn resume_flight(
    loaded: Result<QuickSave, String>,
    from: Resumption,
    game: &mut Game,
    clock: &mut SimulationClock,
    computer: &mut ScriptRuntime,
) -> (r: bool)
    ensures
        r == (loaded is Ok),
        match loaded {
            Ok(save) => has_resumed(
                save,
                from,
                *old(game),
                *final(game),
                *final(clock),
                *old(computer),
                *final(computer),
            ),
            Err(fault) => {
                &&& *final(clock) == *old(clock)
                &&& *final(computer) == *old(computer)
                &&& *final(game) == (Game { notice: final(game).notice, ..*old(game) })
                &&& final(game).notice@ == unread_news(from, fault@)
            },
        },
        old(computer).is_sound() ==> final(computer).is_sound(),
{
    let save = match loaded {
        Ok(save) => save,
        Err(fault) => {
            game.notice = match from {
                Resumption::Menu => joined("Could not load quicksave: ", &fault),
                _ => joined("Load failed: ", &fault),
            };
            return false;
        },
    };
    game.vessel = Some(save.vessel);
    game.mission = save.mission;
    *clock = save.clock;
    game.levers.release(ReleaseEvent::LoadedQuicksave);
    let ended = computer.load(save.script_source, save.script_state);
    let ghost came = ended;
    match ended {
        Ok(()) => {
            if from != Resumption::Menu {
                game.notice = "Quicksave restored".to_owned();
            }
        },
        Err(error) => {
            game.notice = match from {
                Resumption::Menu => joined("Flight loaded; script paused: ", &error.message),
                Resumption::Button => joined("Flight restored; script paused: ", &error.message),
                Resumption::Key => "Quicksave restored".to_owned(),
            };
        },
    }
    if from == Resumption::Menu {
        game.mode = AppMode::Flight;
    }
    proof {
        assert(is_resumed(*old(game), *game, save, from, came));
    }
    true
}

/// What the player is told after a flight was to be saved; `written` holds why it could not
/// be.
pub fn saved_notice(written: Result<(), String>) -> (r: String)
    ensures
        r@ == match written {
            Ok(()) => "Quicksave written"@,
            Err(fault) => "Save failed: "@ + fault@,
        },
{
    match written {
        Ok(()) => "Quicksave written".to_owned(),
        Err(fault) => joined("Save failed: ", &fault),
    }
}

/// Opens vehicle assembly from the menu: with the craft that comes with the game and its
/// script, and without a vessel.
pub fn open_assembly(game: &mut Game, craft: &mut CraftBlueprint, computer: &mut ScriptRuntime)
    ensures
        *final(game) == (Game {
            mode: AppMode::Editor,
            vessel: None,
            notice: final(game).notice,
            ..*old(game)
        }),
        final(game).notice@ == "Stock Pathfinder loaded. Modify it or launch as-is."@,
        final(craft).schema_version == 1,
        final(craft).name@ == "Crabitat Pathfinder"@,
        are_stock_parts(final(craft).parts@),
        are_stock_stages(final(craft).stages@),
        final(craft).crew.len() == 1,
        final(craft).crew@[0]@ == "Dr. Clawdia Current"@,
        final(craft).script_name is Some,
        final(craft).script_name->0@ == "guided_ascent.lua"@,
        *final(computer) == (ScriptRuntime { source: final(computer).source, ..*old(computer) }),
        final(computer).source@ == EXAMPLE_SCRIPT@,
{
    *craft = stock_craft();
    game.vessel = None;
    game.notice = "Stock Pathfinder loaded. Modify it or launch as-is.".to_owned();
    computer.source = EXAMPLE_SCRIPT.to_owned();
    game.mode = AppMode::Editor;
}

/// Goes back to vehicle assembly: the script stops and the levers are the pilot's; the
/// vessel stays where it is.
pub fn leave_flight(game: &mut Game, computer: &mut ScriptRuntime)
    ensures
        *final(game) == (Game {
            mode: AppMode::Editor,
            levers: LatchedAxes::free(),
            ..*old(game)
        }),
        is_stopped(*old(computer), *final(computer)),
{
    computer.stop();
    game.levers.release(ReleaseEvent::LeftFlight);
    game.mode = AppMode::Editor;
}

/// What can be asked for in flight.
#[derive(Debug, Clone, Copy, PartialEq, Eq, Structural)]
pub enum FlightAction {
    ActivateNextStage,
    ToggleSas,
    ToggleRcs,
    IncreaseWarp,
    DecreaseWarp,
    TogglePause,
    Quicksave,
    Quickload,
    ReturnToAssembly,
    ReleaseAttitudeControls,
}

/// What came of it.
#[derive(Debug)]
pub enum FlightOutcome {
    Done,
    /// The vessel may look different.
    Changed,
    /// What the player is told.
    Refused(String),
    /// The flight is to be saved.
    ToSave,
    /// The saved flight is to be loaded.
    ToLoad,
    /// The game goes back to vehicle assembly.
    Left,
}

/// Whether all is as it was, and the outcome refuses the action for that reason.
pub open spec fn is_refused(
    outcome: FlightOutcome,
    game: Game,
    after: Game,
    clock: SimulationClock,
    clock_after: SimulationClock,
    computer: ScriptRuntime,
    computer_after: ScriptRuntime,
    reason: Seq<char>,
) -> bool {
    &&& outcome is Refused && outcome->Refused_0@ == reason
    &&& after == game
    &&& clock_after == clock
    &&& computer_after == computer
}

/// Whether the action turns the flight of the vessel into that after it, with that outcome.
pub open spec fn is_flight_done<
    S: Fn(&Vessel, &Separation) -> Split,
    P: Fn([Real; 3], [Single; 3]) -> [Single; 3],
>(
    action: FlightAction,
    outcome: FlightOutcome,
    vessel: Vessel,
    game: Game,
    after: Game,
    clock: SimulationClock,
    clock_after: SimulationClock,
    computer: ScriptRuntime,
    computer_after: ScriptRuntime,
    catalog: Map<Seq<char>, DefinitionView>,
    split: S,
    place: P,
) -> bool {
    match action {
        FlightAction::ActivateNextStage => if vessel.next_stage < vessel.stages.len() {
            &&& outcome is Changed
            &&& after == (Game { vessel: after.vessel, ..game })
            &&& after.vessel is Some && is_staged(vessel, after.vessel->0, catalog, split, place)
            &&& clock_after == clock
            &&& has_heard(computer, computer_after, "stage"@)
        } else {
            is_refused(
                outcome,
                game,
                after,
                clock,
                clock_after,
                computer,
                computer_after,
                "no stage is left"@,
            )
        },
        FlightAction::ToggleSas => {
            &&& outcome is Done
            &&& after == with_levers(
                game,
                vessel,
                FlightControls { sas: toggled_sas(vessel.controls.sas), ..vessel.controls },
            )
            &&& clock_after == clock && computer_after == computer
        },
        FlightAction::ToggleRcs => {
            &&& outcome is Done
            &&& after == with_levers(
                game,
                vessel,
                FlightControls { rcs: !vessel.controls.rcs, ..vessel.controls },
            )
            &&& clock_after == clock && computer_after == computer
        },
        FlightAction::IncreaseWarp => {
            &&& outcome is Done
            &&& clock_after == (SimulationClock {
                warp_index: faster_warp(clock.warp_index),
                ..clock
            })
            &&& after == game && computer_after == computer
        },
        FlightAction::DecreaseWarp => {
            &&& outcome is Done
            &&& clock_after == (SimulationClock {
                warp_index: slower_warp(clock.warp_index),
                ..clock
            })
            &&& after == game && computer_after == computer
        },
        FlightAction::TogglePause => {
            &&& outcome is Done
            &&& clock_after == (SimulationClock { paused: !clock.paused, ..clock })
            &&& after == game && computer_after == computer
        },
        FlightAction::Quicksave => {
            &&& outcome is ToSave
            &&& after == game && clock_after == clock && computer_after == computer
        },
        FlightAction::Quickload => {
            &&& outcome is ToLoad
            &&& after == game && clock_after == clock && computer_after == computer
        },
        FlightAction::ReturnToAssembly => {
            &&& outcome is Left
            &&& after == (Game { mode: AppMode::Editor, levers: LatchedAxes::free(), ..game })
            &&& clock_after == clock && is_stopped(computer, computer_after)
        },
        FlightAction::ReleaseAttitudeControls => {
            &&& outcome is Done
            &&& after == (Game { levers: LatchedAxes::free(), ..game })
            &&& clock_after == clock && computer_after == computer
        },
    }
}

/// The game with the vessel's levers as given.
pub open spec fn with_levers(game: Game, vessel: Vessel, controls: FlightControls) -> Game {
    Game { vessel: Some(Vessel { controls, ..vessel }), ..game }
}

/// Does what was asked for in flight, as far as it needs no disk. Nothing can be asked for
/// elsewhere and without a vessel.
pub fn apply_flight_action<
    S: Fn(&Vessel, &Separation) -> Split,
    P: Fn([Real; 3], [Single; 3]) -> [Single; 3],
>(
    action: FlightAction,
    game: &mut Game,
    clock: &mut SimulationClock,
    computer: &mut ScriptRuntime,
    catalog: &PartCatalog,
    split: &S,
    place: &P,
) -> (r: FlightOutcome)
    requires
        old(computer).is_sound(),
        forall|v: &Vessel, plan: &Separation| call_requires(*split, (v, plan)),
        forall|a: [Real; 3], b: [Single; 3]| call_requires(*place, (a, b)),
    ensures
        if old(game).mode != AppMode::Flight {
            is_refused(
                r,
                *old(game),
                *final(game),
                *old(clock),
                *final(clock),
                *old(computer),
                *final(computer),
                "this action needs the Flight mode"@,
            )
        } else if old(game).vessel is None {
            is_refused(
                r,
                *old(game),
                *final(game),
                *old(clock),
                *final(clock),
                *old(computer),
                *final(computer),
                "there is no vessel in flight"@,
            )
        } else {
            is_flight_done(
                action,
                r,
                old(game).vessel->0,
                *old(game),
                *final(game),
                *old(clock),
                *final(clock),
                *old(computer),
                *final(computer),
                catalog@,
                *split,
                *place,
            )
        },
        final(computer).is_sound(),
{
    if game.mode != AppMode::Flight {
        return FlightOutcome::Refused("this action needs the Flight mode".to_owned());
    }
    let mut vessel = match game.vessel.take() {
        Some(vessel) => vessel,
        None => {
            return FlightOutcome::Refused("there is no vessel in flight".to_owned());
        },
    };
    let mut outcome = FlightOutcome::Done;
    match action {
        FlightAction::ActivateNextStage => {
            if activate_next_stage(&mut vessel, catalog, split, place) {
                computer.emit_event("stage");
                outcome = FlightOutcome::Changed;
            } else {
                outcome = FlightOutcome::Refused("no stage is left".to_owned());
            }
        },
        FlightAction::ToggleSas => toggle_sas(&mut vessel.controls),
        FlightAction::ToggleRcs => toggle_rcs(&mut vessel.controls),
        FlightAction::IncreaseWarp => clock.faster(),
        FlightAction::DecreaseWarp => clock.slower(),
        FlightAction::TogglePause => clock.toggle_pause(),
        FlightAction::Quicksave => {
            outcome = FlightOutcome::ToSave;
        },
        FlightAction::Quickload => {
            outcome = FlightOutcome::ToLoad;
        },
        FlightAction::ReturnToAssembly => {
            leave_flight(game, computer);
            outcome = FlightOutcome::Left;
        },
        FlightAction::ReleaseAttitudeControls => game.levers.release(ReleaseEvent::Released),
    }
    game.vessel = Some(vessel);
    outcome
}

/// What can be asked of the flight computer.
#[derive(Debug)]
pub enum ScriptAction {
    /// A new script, where one is given.
    SetSource(Option<String>),
    Run,
    Stop,
}

/// Why the action is refused in that mode, if it is, before the script itself has a say.
pub open spec fn script_refusal(mode: AppMode, action: ScriptAction) -> Option<Seq<char>> {
    if mode == AppMode::Menu {
        Some("scripts are edited in assembly or flight"@)
    } else {
        match action {
            ScriptAction::SetSource(source) => if source is Some {
                None
            } else {
                Some("source is missing"@)
            },
            ScriptAction::Run => if mode == AppMode::Flight {
                None
            } else {
                Some("this action needs the Flight mode"@)
            },
            ScriptAction::Stop => None,
        }
    }
}

/// Does what was asked of the flight computer. A script is edited in assembly and in flight,
/// and runs in flight.
pub fn apply_script_action(mode: AppMode, action: ScriptAction, computer: &mut ScriptRuntime) -> (r:
    Result<(), String>)
    ensures
        match script_refusal(mode, action) {
            Some(reason) => {
                &&& r is Err && r->Err_0@ == reason
                &&& *final(computer) == *old(computer)
            },
            None => match action {
                ScriptAction::SetSource(source) => {
                    &&& r is Ok
                    &&& *final(computer) == (ScriptRuntime { source: source->0, ..*old(computer) })
                },
                ScriptAction::Run => exists|ended: Result<(), ScriptError>|
                    {
                        &&& #[trigger] has_loaded(
                            *old(computer),
                            *final(computer),
                            old(computer).source,
                            None,
                            ended,
                        )
                        &&& match ended {
                            Ok(()) => r is Ok,
                            Err(error) => r == Err::<(), String>(error.message),
                        }
                    },
                ScriptAction::Stop => r is Ok && is_stopped(*old(computer), *final(computer)),
            },
        },
        old(computer).is_sound() ==> final(computer).is_sound(),
{
    if mode == AppMode::Menu {
        return Err("scripts are edited in assembly or flight".to_owned());
    }
    match action {
        ScriptAction::SetSource(source) => match source {
            Some(source) => {
                computer.source = source;
                Ok(())
            },
            None => Err("source is missing".to_owned()),
        },
        ScriptAction::Run => {
            if mode != AppMode::Flight {
                return Err("this action needs the Flight mode".to_owned());
            }
            let source = computer.source.clone();
            let ended = computer.load(source, None);
            proof {
                assert(has_loaded(
                    *old(computer),
                    *computer,
                    old(computer).source,
                    None,
                    ended,
                ));
            }
            match ended {
                Ok(()) => Ok(()),
                Err(error) => Err(error.message),
            }
        },
        ScriptAction::Stop => {
            computer.stop();
            Ok(())
        },
    }
}

/// A saved flight that was read takes the place of the present one, whatever asked for it;
/// the menu then shows it. One that could not be read changes nothing but the notice. What
/// the player reads tells which of the two it was, and of a script that did not go on, but
/// for the key.
pub proof fn law_resumed_flight_is_the_saved_one(
    loaded: Result<QuickSave, String>,
    from: Resumption,
    game: &mut Game,
    clock: &mut SimulationClock,
    computer: &mut ScriptRuntime,
    r: bool,
)
    requires
        call_ensures(resume_flight, (loaded, from, game, clock, computer), r),
    ensures
        r <==> loaded is Ok,
        loaded is Ok ==> {
            let save = loaded->Ok_0;
            &&& final(game).vessel == Some(save.vessel)
            &&& final(game).mission == save.mission
            &&& *final(clock) == save.clock
            &&& final(game).levers.pitch is None && final(game).levers.yaw is None && final(game).levers.roll is None
            &&& from is Menu ==> final(game).mode is Flight
            &&& !(from is Menu) ==> final(game).mode == old(game).mode
            &&& exists|ended: Result<(), ScriptError>|
                {
                    &&& #[trigger] has_loaded(
                        *old(computer),
                        *final(computer),
                        save.script_source,
                        save.script_state,
                        ended,
                    )
                    &&& ended is Ok && from is Menu ==> final(game).notice@ == old(game).notice@
                    &&& ended is Ok && !(from is Menu) || from is Key ==> final(game).notice@
                        == "Quicksave restored"@
                    &&& ended is Err && from is Menu ==> final(game).notice@
                        == "Flight loaded; script paused: "@ + ended->Err_0.message@
                    &&& ended is Err && from is Button ==> final(game).notice@
                        == "Flight restored; script paused: "@ + ended->Err_0.message@
                }
        },
        loaded is Err ==> {
            &&& final(game).vessel == old(game).vessel && final(game).mission == old(game).mission
            &&& final(game).mode == old(game).mode && final(game).levers == old(game).levers
            &&& *final(clock) == *old(clock) && *final(computer) == *old(computer)
            &&& from is Menu ==> final(game).notice@ == "Could not load quicksave: "@
                + loaded->Err_0@
            &&& !(from is Menu) ==> final(game).notice@ == "Load failed: "@ + loaded->Err_0@
        },
{
    if loaded is Ok {
        let save = loaded->Ok_0;
        let ended = choose|ended: Result<(), ScriptError>| #[trigger]
            has_loaded(
                *computer,
                *final(computer),
                save.script_source,
                save.script_state,
                ended,
            ) && is_resumed(*game, *final(game), save, from, ended);
        assert(has_loaded(
            *computer,
            *final(computer),
            save.script_source,
            save.script_state,
            ended,
        ));
    }
}

/// What is asked for in flight is done there and nowhere else, to what it is about and to
/// nothing else.
pub proof fn law_flight_actions_do_one_thing<
    S: Fn(&Vessel, &Separation) -> Split,
    P: Fn([Real; 3], [Single; 3]) -> [Single; 3],
>(
    action: FlightAction,
    game: &mut Game,
    clock: &mut SimulationClock,
    computer: &mut ScriptRuntime,
    catalog: &PartCatalog,
    split: &S,
    place: &P,
    r: FlightOutcome,
)
    requires
        call_ensures(
            apply_flight_action::<S, P>,
            (action, game, clock, computer, catalog, split, place),
            r,
        ),
    ensures
        !(old(game).mode is Flight) || old(game).vessel is None ==> r is Refused && *final(game)
            == *old(game) && *final(clock) == *old(clock) && *final(computer) == *old(computer),
        !(old(game).mode is Flight) ==> r->Refused_0@ == "this action needs the Flight mode"@,
        old(game).mode is Flight && old(game).vessel is None ==> r->Refused_0@
            == "there is no vessel in flight"@,
        old(game).mode is Flight && old(game).vessel is Some ==> {
            let before = old(game).vessel->0;
            let after = final(game).vessel->0;
            let same_clock = *final(clock) == *old(clock);
            let same_game = *final(game) == *old(game);
            let same_script = *final(computer) == *old(computer);
            &&& r is Refused <==> action is ActivateNextStage && before.next_stage
                >= before.stages@.len()
            &&& r is Refused ==> same_clock && same_game && same_script && r->Refused_0@
                == "no stage is left"@
            &&& action is ActivateNextStage && !(r is Refused) ==> r is Changed && is_staged(
                before,
                after,
                catalog@,
                *split,
                *place,
            ) && same_clock && has_heard(*old(computer), *final(computer), "stage"@)
            &&& action is ToggleSas ==> r is Done && same_clock && same_script && (
            after.controls.sas is Some <==> before.controls.sas is None) && after.controls.rcs
                == before.controls.rcs && after.controls.throttle == before.controls.throttle
                && after.parts == before.parts
            &&& action is ToggleRcs ==> r is Done && same_clock && same_script && after.controls.rcs
                != before.controls.rcs && after.controls.sas == before.controls.sas && after.parts
                == before.parts
            &&& action is IncreaseWarp ==> r is Done && same_game && same_script && (old(clock).warp_index < 7 ==> final(clock).warp_index == old(clock).warp_index + 1)
            &&& action is DecreaseWarp ==> r is Done && same_game && same_script && (old(clock).warp_index > 0 ==> final(clock).warp_index == old(clock).warp_index - 1)
            &&& action is TogglePause ==> r is Done && same_game && same_script
                && final(clock).paused != old(clock).paused && final(clock).warp_index == old(clock).warp_index
            &&& action is Quicksave ==> r is ToSave && same_game && same_clock && same_script
            &&& action is Quickload ==> r is ToLoad && same_game && same_clock && same_script
            &&& action is ReturnToAssembly ==> r is Left && same_clock && final(game).mode is Editor
                && final(game).vessel == old(game).vessel && final(game).levers.pitch is None
                && !final(computer).active
            &&& action is ReleaseAttitudeControls ==> r is Done && same_clock && same_script
                && final(game).levers.pitch is None && final(game).levers.yaw is None && final(game).levers.roll is None && final(game).vessel == old(game).vessel && final(game).mode
                is Flight
        },
{
}

/// Leaving flight stops the script and frees the levers; assembly opens with the craft and the
/// script that come with the game.
pub proof fn law_assembly_is_entered_afresh(
    left: &mut Game,
    stopped: &mut ScriptRuntime,
    opened: &mut Game,
    craft: &mut CraftBlueprint,
    computer: &mut ScriptRuntime,
)
    requires
        call_ensures(leave_flight, (left, stopped), ()),
        call_ensures(open_assembly, (opened, craft, computer), ()),
    ensures
        final(left).mode is Editor && final(opened).mode is Editor,
        final(left).vessel == old(left).vessel,
        final(left).levers.pitch is None && final(left).levers.yaw is None && final(left).levers.roll is None,
        !final(stopped).active,
        final(stopped).source == old(stopped).source,
        final(opened).vessel is None,
        final(craft).name@ == "Crabitat Pathfinder"@,
        final(computer).source@ == EXAMPLE_SCRIPT@,
        final(computer).active == old(computer).active,
{
}

/// A script is set where one is given, runs in flight and stops anywhere but in the menu;
/// what is refused changes nothing.
pub proof fn law_scripts_are_edited_and_run(
    mode: AppMode,
    action: ScriptAction,
    computer: &mut ScriptRuntime,
    r: Result<(), String>,
)
    requires
        call_ensures(apply_script_action, (mode, action, computer), r),
    ensures
        mode is Menu ==> r is Err && *final(computer) == *old(computer),
        !(mode is Menu) && action is SetSource ==> (r is Ok <==> action->SetSource_0 is Some),
        !(mode is Menu) && action is SetSource && r is Ok ==> final(computer).source
            == action->SetSource_0->0 && final(computer).active == old(computer).active,
        !(mode is Menu) && action is SetSource && r is Err ==> *final(computer) == *old(computer),
        mode is Editor && action is Run ==> r is Err && *final(computer) == *old(computer),
        mode is Flight && action is Run ==> exists|ended: Result<(), ScriptError>|
            {
                &&& #[trigger] has_loaded(
                    *old(computer),
                    *final(computer),
                    old(computer).source,
                    None,
                    ended,
                )
                &&& r is Ok <==> ended is Ok
            },
        !(mode is Menu) && action is Stop ==> r is Ok && !final(computer).active && final(computer).source == old(computer).source,
{
    if mode is Flight && action is Run {
        let ended = choose|ended: Result<(), ScriptError>|
            {
                &&& #[trigger] has_loaded(
                    *computer,
                    *final(computer),
                    computer.source,
                    None,
                    ended,
                )
                &&& match ended {
                    Ok(()) => r is Ok,
                    Err(error) => r == Err::<(), String>(error.message),
                }
            };
        assert(has_loaded(*computer, *final(computer), computer.source, None, ended));
    }
}

/// What the player reads after saving tells whether it was written.
pub proof fn law_saving_is_told(written: Result<(), String>, r: String)
    requires
        call_ensures(saved_notice, (written,), r),
    ensures
        written is Ok ==> r@ == "Quicksave written"@,
        written is Err ==> r@ == "Save failed: "@ + written->Err_0@,
{
}

} // verus!
