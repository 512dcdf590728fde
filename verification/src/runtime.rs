//! Flight scripts: starting them, running them tick by tick, and what they leave.
use crate::courses::{
    boot_course, event_course, fill_course, guard_course, hide_course, install_course, lemma_collected,
    load_course, module_course, module_names, modules_course, restore_course,
    run_course, script_course, start_course, tell_course, tick_course, what_is_kept, Work,
};
use crate::mission::FlightTelemetry;
use crate::number::Real;
use crate::scripts::{EXAMPLE_SCRIPT, GUARD_SOURCE, WAIT_SOURCE};
use crate::script::{Console, ScriptCommands, ScriptMode, INSTRUCTION_BUDGET, LOG_LIMIT};
use crate::text::same_text;
use crate::transcript::{
    asked, attempt_all, exchanges, guarding, is_guarded, lemma_attempted, lemma_contains_on,
    lemma_continued, lemma_guarded_on, lemma_last_contained, lemma_step, lemma_still_contains,
    metering, only, rest, runs, takes, Course, Event,
};
use crate::vm::{read_json, Argument, Transcript};
use vstd::prelude::*;
use vstd::string::*;

verus! {

broadcast use {lemma_step, lemma_still_contains, lemma_last_contained};

/// The memory that a script may use, in bytes.
pub const MEMORY_LIMIT: usize = 8_388_608;

/// After how many instructions each the budget is looked at: every single one, so that a
/// script which catches the refusal meets the next at once.
pub const METER_STEP: u32 = 1;

/// The pattern of the length of a tick, a sixtieth of a second.
pub const TICK_LENGTH: u64 = 0x3f91_1111_1111_1111;

/// The name of the global table of instrument readings.
pub const TELEMETRY_TABLE: &'static str = "__telemetry";

/// The name of the global variable of the mission's coroutine.
pub const MISSION_THREAD: &'static str = "__mission_thread";

/// Why a script failed.
#[derive(Debug)]
pub struct ScriptError {
    pub message: String,
}

/// A reading of an instrument under the name that scripts know.
#[derive(Debug, Clone, Copy)]
pub struct Reading {
    pub name: &'static str,
    pub value: Real,
}

/// The flight computer.
pub struct ScriptRuntime {
    pub lua: Option<mlua::Lua>,
    /// What scripts have asked for since the last tick.
    pub pending: ScriptCommands,
    pub logs: Vec<String>,
    /// The instructions that were run since the last tick began.
    pub executed: usize,
    pub source: String,
    pub active: bool,
    pub mode: Option<ScriptMode>,
    pub last_error: Option<String>,
    /// What was asked of the machines that ran scripts.
    pub transcript: Transcript,
}

/// The log with one line more; the oldest line goes where they are too many.
pub open spec fn with_line(logs: Seq<String>, line: String) -> Seq<String> {
    if logs.len() + 1 > LOG_LIMIT {
        logs.push(line).drop_first()
    } else {
        logs.push(line)
    }
}

/// How a script is written that defines `main`, or `on_fixed_update`, or neither;
/// none where it defines both.
pub open spec fn mode_of(has_main: bool, has_update: bool) -> Option<ScriptMode> {
    if has_main && has_update {
        None
    } else if has_main {
        Some(ScriptMode::Coroutine)
    } else {
        Some(ScriptMode::Callback)
    }
}

/// How a script is written that defines `main`, or `on_fixed_update`, or neither;
/// none where it defines both.
pub fn choose_mode(has_main: bool, has_update: bool) -> (r: Option<ScriptMode>)
    ensures
        r == mode_of(has_main, has_update),
{
    if has_main && has_update {
        None
    } else if has_main {
        Some(ScriptMode::Coroutine)
    } else {
        Some(ScriptMode::Callback)
    }
}

/// The line with which a script of that kind starts.
pub open spec fn start_line(mode: ScriptMode) -> Seq<char> {
    match mode {
        ScriptMode::Callback => "Script started in callback mode"@,
        ScriptMode::Coroutine => "Script started in coroutine mode"@,
    }
}

/// Whether `after` is the flight computer after an attempt to start a script, which
/// ended as `outcome` says and left that console behind.
pub open spec fn is_started(
    before: ScriptRuntime,
    after: ScriptRuntime,
    source: String,
    outcome: Result<ScriptMode, ScriptError>,
    console: Console,
) -> bool {
    let noted = before.logs@ + console.logs@;
    &&& after.transcript == before.transcript
    &&& after.pending == before.pending.merged(console.commands)
    &&& after.executed == console.executed
    &&& match outcome {
        Ok(mode) => {
            &&& after.lua is Some
            &&& after.source == source
            &&& after.mode == Some(mode)
            &&& after.active
            &&& after.last_error is None
            &&& exists|line: String|
                line@ == start_line(mode) && #[trigger] with_line(noted, line) == after.logs@
        },
        Err(_) => {
            &&& after.lua == before.lua
            &&& after.source == before.source
            &&& after.mode == before.mode
            &&& after.active == before.active
            &&& after.last_error == before.last_error
            &&& after.logs@ == noted
        },
    }
}

/// Whether `after` is the flight computer after a tick that ended as `outcome` says:
/// with a script that goes on or has come to its end, or with an error.
pub open spec fn is_ticked(
    before: ScriptRuntime,
    after: ScriptRuntime,
    outcome: Result<bool, ScriptError>,
    console: Console,
) -> bool {
    let noted = before.logs@ + console.logs@;
    &&& after.lua == before.lua
    &&& after.transcript == before.transcript
    &&& after.pending == ScriptCommands::none()
    &&& after.executed == console.executed
    &&& after.source == before.source
    &&& after.mode == before.mode
    &&& match outcome {
        Ok(goes_on) => {
            &&& after.active == (before.active && goes_on)
            &&& after.last_error == before.last_error
            &&& after.logs@ == noted
        },
        Err(error) => {
            &&& !after.active
            &&& after.last_error == Some(error.message)
            &&& exists|line: String|
                line@ == "ERROR: "@ + error.message@ && #[trigger] with_line(noted, line)
                    == after.logs@
        },
    }
}

/// Whether `after` is the flight computer after an event that scripts were told of,
/// which ended as `outcome` says.
pub open spec fn is_told(
    before: ScriptRuntime,
    after: ScriptRuntime,
    outcome: Result<(), ScriptError>,
    console: Console,
) -> bool {
    &&& after.lua == before.lua
    &&& after.transcript == before.transcript
    &&& after.pending == before.pending.merged(console.commands)
    &&& after.executed == console.executed
    &&& after.source == before.source
    &&& after.mode == before.mode
    &&& after.logs@ == before.logs@ + console.logs@
    &&& match outcome {
        Ok(()) => after.active == before.active && after.last_error == before.last_error,
        Err(error) => !after.active && after.last_error == Some(error.message),
    }
}

/// Whether `after` is the flight computer after its script was stopped.
pub open spec fn is_stopped(before: ScriptRuntime, after: ScriptRuntime) -> bool {
    &&& after == (ScriptRuntime { active: false, logs: after.logs, ..before })
    &&& exists|line: String|
        line@ == "Automation stopped"@ && #[trigger] with_line(before.logs@, line) == after.logs@
}

/// Adds a line to a log; the oldest line goes where they are too many.
pub fn push_line(logs: &mut Vec<String>, line: String)
    ensures
        final(logs)@ == with_line(old(logs)@, line),
{
    logs.push(line);
    if logs.len() > LOG_LIMIT {
        logs.remove(0);
        proof {
            assert(logs@ =~= old(logs)@.push(line).drop_first());
        }
    }
}

fn append_lines(logs: &mut Vec<String>, mut lines: Vec<String>)
    ensures
        final(logs)@ == old(logs)@ + lines@,
{
    logs.append(&mut lines);
}

fn described(error: &mlua::Error) -> (r: ScriptError)
    ensures
        to_string_from_display_ensures(error, r.message),
{
    ScriptError { message: error.to_string() }
}

impl ScriptRuntime {
    /// Whether all that its script runs is under the meter.
    pub open spec fn is_sound(self) -> bool {
        self.lua matches Some(lua) ==> is_guarded(self.transcript@, lua)
    }

    /// Adds a line to the log; the oldest line goes where they are too many.
    pub fn push_log(&mut self, message: String)
        ensures
            *final(self) == (ScriptRuntime { logs: final(self).logs, ..*old(self) }),
            final(self).logs@ == with_line(old(self).logs@, message),
    {
        push_line(&mut self.logs, message);
    }

    /// Takes the lines of the log.
    pub fn drain_logs(&mut self) -> (r: Vec<String>)
        ensures
            r == old(self).logs,
            *final(self) == (ScriptRuntime { logs: final(self).logs, ..*old(self) }),
            final(self).logs@.len() == 0,
    {
        let mut taken: Vec<String> = Vec::new();
        std::mem::swap(&mut taken, &mut self.logs);
        taken
    }

    /// Stops the script.
    pub fn stop(&mut self)
        ensures
            is_stopped(*old(self), *final(self)),
    {
        self.active = false;
        self.push_log("Automation stopped".to_owned());
    }

    /// Takes over what an attempt to start a script has left.
    pub fn finish_load(
        &mut self,
        lua: mlua::Lua,
        source: String,
        outcome: Result<ScriptMode, ScriptError>,
        console: Console,
    ) -> (r: Result<(), ScriptError>)
        requires
            outcome is Ok ==> is_guarded(old(self).transcript@, lua),
        ensures
            is_started(*old(self), *final(self), source, outcome, console),
            old(self).is_sound() ==> final(self).is_sound(),
            match outcome {
                Ok(_) => r is Ok && final(self).lua == Some(lua),
                Err(error) => r == Err::<(), ScriptError>(error),
            },
    {
        self.pending = self.pending.merge(console.commands);
        self.executed = console.executed;
        append_lines(&mut self.logs, console.logs);
        match outcome {
            Ok(mode) => {
                self.lua = Some(lua);
                self.source = source;
                self.mode = Some(mode);
                self.active = true;
                self.last_error = None;
                let line = match mode {
                    ScriptMode::Callback => "Script started in callback mode".to_owned(),
                    ScriptMode::Coroutine => "Script started in coroutine mode".to_owned(),
                };
                self.push_log(line);
                Ok(())
            },
            Err(error) => Err(error),
        }
    }

    /// Takes over what a tick has left, and gives what was asked for: before the tick
    /// and in it.
    pub fn finish_tick(&mut self, outcome: Result<bool, ScriptError>, console: Console) -> (r:
        ScriptCommands)
        ensures
            is_ticked(*old(self), *final(self), outcome, console),
            r == old(self).pending.merged(console.commands),
    {
        let commands = self.pending.merge(console.commands);
        self.pending = ScriptCommands::default();
        self.executed = console.executed;
        append_lines(&mut self.logs, console.logs);
        match outcome {
            Ok(goes_on) => {
                if !goes_on {
                    self.active = false;
                }
            },
            Err(error) => {
                self.active = false;
                let mut line = "ERROR: ".to_owned();
                line.append(&error.message);
                self.last_error = Some(error.message);
                self.push_log(line);
            },
        }
        commands
    }

    /// Takes over what an event has left.
    pub fn finish_event(&mut self, outcome: Result<(), ScriptError>, console: Console)
        ensures
            is_told(*old(self), *final(self), outcome, console),
    {
        self.pending = self.pending.merge(console.commands);
        self.executed = console.executed;
        append_lines(&mut self.logs, console.logs);
        if let Err(error) = outcome {
            self.last_error = Some(error.message);
            self.active = false;
        }
    }
}

/// A reading with its name as a sequence of characters.
pub struct ReadingView {
    pub name: Seq<char>,
    pub value: Real,
}

impl View for Reading {
    type V = ReadingView;

    open spec fn view(&self) -> ReadingView {
        ReadingView { name: self.name@, value: self.value }
    }
}

fn reading(name: &'static str, value: Real) -> (r: Reading)
    ensures
        r@ == (ReadingView { name: name@, value }),
{
    Reading { name, value }
}

/// The readings that scripts can ask for.
pub open spec fn readings_of(telemetry: FlightTelemetry) -> Seq<ReadingView> {
    seq![
        ReadingView { name: "time"@, value: telemetry.ut },
        ReadingView { name: "altitude"@, value: telemetry.altitude },
        ReadingView { name: "radar_altitude"@, value: telemetry.radar_altitude },
        ReadingView { name: "speed"@, value: telemetry.speed },
        ReadingView { name: "surface_speed"@, value: telemetry.surface_speed },
        ReadingView { name: "vertical_speed"@, value: telemetry.vertical_speed },
        ReadingView { name: "mach"@, value: telemetry.mach },
        ReadingView { name: "dynamic_pressure"@, value: telemetry.dynamic_pressure },
        ReadingView { name: "heating"@, value: telemetry.heating },
        ReadingView { name: "apoapsis"@, value: telemetry.orbit.apoapsis },
        ReadingView { name: "periapsis"@, value: telemetry.orbit.periapsis },
        ReadingView { name: "mass"@, value: telemetry.mass },
        ReadingView { name: "liquid_fuel"@, value: telemetry.liquid_fuel },
        ReadingView { name: "solid_fuel"@, value: telemetry.solid_fuel },
        ReadingView { name: "monopropellant"@, value: telemetry.monopropellant },
        ReadingView { name: "thrust"@, value: telemetry.thrust },
        ReadingView { name: "twr"@, value: telemetry.twr },
    ]
}

/// The readings that scripts can ask for.
pub fn readings(telemetry: &FlightTelemetry) -> (r: Vec<Reading>)
    ensures
        r@.map_values(|reading: Reading| reading@) == readings_of(*telemetry),
{
    let r = vec![
        reading("time", telemetry.ut),
        reading("altitude", telemetry.altitude),
        reading("radar_altitude", telemetry.radar_altitude),
        reading("speed", telemetry.speed),
        reading("surface_speed", telemetry.surface_speed),
        reading("vertical_speed", telemetry.vertical_speed),
        reading("mach", telemetry.mach),
        reading("dynamic_pressure", telemetry.dynamic_pressure),
        reading("heating", telemetry.heating),
        reading("apoapsis", telemetry.orbit.apoapsis),
        reading("periapsis", telemetry.orbit.periapsis),
        reading("mass", telemetry.mass),
        reading("liquid_fuel", telemetry.liquid_fuel),
        reading("solid_fuel", telemetry.solid_fuel),
        reading("monopropellant", telemetry.monopropellant),
        reading("thrust", telemetry.thrust),
        reading("twr", telemetry.twr),
    ];
    proof {
        assert(r@.map_values(|reading: Reading| reading@) =~= readings_of(*telemetry));
    }
    r
}

/// The global variables that scripts do not get: what reaches files, other
/// processes, modules, the debugger, or loads code.
pub open spec fn hidden_names() -> Seq<Seq<char>> {
    seq![
        "os"@,
        "io"@,
        "package"@,
        "debug"@,
        "dofile"@,
        "loadfile"@,
        "require"@,
        "load"@,
    ]
}

/// The names of the global variables that scripts do not get.
pub fn hidden_globals() -> (r: Vec<&'static str>)
    ensures
        r@.map_values(|name: &str| name@) == hidden_names(),
{
    let r = vec![
        "os",
        "io",
        "package",
        "debug",
        "dofile",
        "loadfile",
        "require",
        "load",
    ];
    proof {
        assert(r@.map_values(|name: &str| name@) =~= hidden_names());
    }
    r
}

/// What a function does that scripts can call.
#[derive(Debug, Clone, Copy, PartialEq, Eq, Structural)]
pub enum ApiCall {
    /// Gives the reading of the function's name.
    Read,
    Throttle,
    Rotation,
    Sas,
    Rcs,
    Stage,
    Parachutes,
    Warp,
    Maneuver,
    Log,
}

/// A function that scripts can call.
#[derive(Debug, Clone, Copy)]
pub struct ApiEntry {
    pub module: &'static str,
    pub name: &'static str,
    pub call: ApiCall,
}

/// An entry with its names as sequences of characters.
pub struct ApiView {
    pub module: Seq<char>,
    pub name: Seq<char>,
    pub call: ApiCall,
}

impl View for ApiEntry {
    type V = ApiView;

    open spec fn view(&self) -> ApiView {
        ApiView { module: self.module@, name: self.name@, call: self.call }
    }
}

/// All functions that scripts can call.
pub open spec fn api() -> Seq<ApiView> {
    seq![
        ApiView { module: "flight"@, name: "time"@, call: ApiCall::Read },
        ApiView { module: "flight"@, name: "altitude"@, call: ApiCall::Read },
        ApiView { module: "flight"@, name: "radar_altitude"@, call: ApiCall::Read },
        ApiView { module: "flight"@, name: "speed"@, call: ApiCall::Read },
        ApiView { module: "flight"@, name: "surface_speed"@, call: ApiCall::Read },
        ApiView { module: "flight"@, name: "vertical_speed"@, call: ApiCall::Read },
        ApiView { module: "flight"@, name: "mach"@, call: ApiCall::Read },
        ApiView { module: "flight"@, name: "dynamic_pressure"@, call: ApiCall::Read },
        ApiView { module: "flight"@, name: "heating"@, call: ApiCall::Read },
        ApiView { module: "flight"@, name: "apoapsis"@, call: ApiCall::Read },
        ApiView { module: "flight"@, name: "periapsis"@, call: ApiCall::Read },
        ApiView { module: "resources"@, name: "mass"@, call: ApiCall::Read },
        ApiView { module: "resources"@, name: "liquid_fuel"@, call: ApiCall::Read },
        ApiView { module: "resources"@, name: "solid_fuel"@, call: ApiCall::Read },
        ApiView { module: "resources"@, name: "monopropellant"@, call: ApiCall::Read },
        ApiView { module: "resources"@, name: "thrust"@, call: ApiCall::Read },
        ApiView { module: "resources"@, name: "twr"@, call: ApiCall::Read },
        ApiView { module: "control"@, name: "set_throttle"@, call: ApiCall::Throttle },
        ApiView { module: "control"@, name: "set_rotation"@, call: ApiCall::Rotation },
        ApiView { module: "control"@, name: "set_sas"@, call: ApiCall::Sas },
        ApiView { module: "control"@, name: "set_rcs"@, call: ApiCall::Rcs },
        ApiView { module: "control"@, name: "stage"@, call: ApiCall::Stage },
        ApiView { module: "control"@, name: "deploy_parachutes"@, call: ApiCall::Parachutes },
        ApiView { module: "nav"@, name: "set_warp"@, call: ApiCall::Warp },
        ApiView { module: "nav"@, name: "set_maneuver"@, call: ApiCall::Maneuver },
        ApiView { module: "log"@, name: "info"@, call: ApiCall::Log },
    ]
}

fn entry(module: &'static str, name: &'static str, call: ApiCall) -> (r: ApiEntry)
    ensures
        r@ == (ApiView { module: module@, name: name@, call }),
{
    ApiEntry { module, name, call }
}

/// All functions that scripts can call.
pub fn api_entries() -> (r: Vec<ApiEntry>)
    ensures
        r@.map_values(|entry: ApiEntry| entry@) == api(),
{
    let r = vec![
        entry("flight", "time", ApiCall::Read),
        entry("flight", "altitude", ApiCall::Read),
        entry("flight", "radar_altitude", ApiCall::Read),
        entry("flight", "speed", ApiCall::Read),
        entry("flight", "surface_speed", ApiCall::Read),
        entry("flight", "vertical_speed", ApiCall::Read),
        entry("flight", "mach", ApiCall::Read),
        entry("flight", "dynamic_pressure", ApiCall::Read),
        entry("flight", "heating", ApiCall::Read),
        entry("flight", "apoapsis", ApiCall::Read),
        entry("flight", "periapsis", ApiCall::Read),
        entry("resources", "mass", ApiCall::Read),
        entry("resources", "liquid_fuel", ApiCall::Read),
        entry("resources", "solid_fuel", ApiCall::Read),
        entry("resources", "monopropellant", ApiCall::Read),
        entry("resources", "thrust", ApiCall::Read),
        entry("resources", "twr", ApiCall::Read),
        entry("control", "set_throttle", ApiCall::Throttle),
        entry("control", "set_rotation", ApiCall::Rotation),
        entry("control", "set_sas", ApiCall::Sas),
        entry("control", "set_rcs", ApiCall::Rcs),
        entry("control", "stage", ApiCall::Stage),
        entry("control", "deploy_parachutes", ApiCall::Parachutes),
        entry("nav", "set_warp", ApiCall::Warp),
        entry("nav", "set_maneuver", ApiCall::Maneuver),
        entry("log", "info", ApiCall::Log),
    ];
    proof {
        assert(r@.map_values(|entry: ApiEntry| entry@) =~= api());
    }
    r
}

/// The making of a function that scripts can call, with the answer.
pub open spec fn made(lua: mlua::Lua, entry: ApiView, answer: Result<(), mlua::Error>) -> Event {
    match entry.call {
        ApiCall::Read => Event::AddReading {
            lua,
            module: entry.module,
            name: entry.name,
            table: TELEMETRY_TABLE@,
            answer,
        },
        call => Event::AddFunction {
            lua,
            module: entry.module,
            name: entry.name,
            call,
            answer,
        },
    }
}

/// Makes a function that scripts can call, in its module.
fn api_function(transcript: &mut Transcript, lua: &mlua::Lua, entry: &ApiEntry) -> (r: Result<
    (),
    mlua::Error,
>)
    ensures
        final(transcript)@ == old(transcript)@.push(made(*lua, entry@, r)),
{
    let (module, name) = (entry.module, entry.name);
    match entry.call {
        ApiCall::Read => transcript.add_reading(lua, module, name, TELEMETRY_TABLE.to_owned()),
        ApiCall::Throttle => transcript.add_throttle(lua, module, name),
        ApiCall::Rotation => transcript.add_rotation(lua, module, name),
        ApiCall::Sas => transcript.add_sas(lua, module, name),
        ApiCall::Rcs => transcript.add_rcs(lua, module, name),
        ApiCall::Stage => transcript.add_stage(lua, module, name),
        ApiCall::Parachutes => transcript.add_parachutes(lua, module, name),
        ApiCall::Warp => transcript.add_warp(lua, module, name),
        ApiCall::Maneuver => transcript.add_maneuver(lua, module, name),
        ApiCall::Log => transcript.add_log(lua, module, name),
    }
}

fn hide_globals(transcript: &mut Transcript, lua: &mlua::Lua) -> (r: Result<(), mlua::Error>)
    ensures
        takes(hide_course(*lua, hidden_names()), old(transcript)@, final(transcript)@, r),
{
    let hidden = hidden_globals();
    let ghost names = hidden_names();
    let ghost past = transcript@;
    proof {
        assert(names.skip(0) =~= names);
    }
    for i in 0..hidden.len()
        invariant
            hidden@.map_values(|name: &str| name@) == names,
            names == hidden_names(),
            past.len() <= transcript@.len(),
            past == old(transcript)@,
            rest(hide_course(*lua, names), past, transcript@) == hide_course(
                *lua,
                names.skip(i as int),
            ),
    {
        proof {
            assert(names.len() == hidden@.len());
            assert(names[i as int] == hidden@[i as int]@);
            assert(names.skip(i as int).drop_first() =~= names.skip(i + 1));
        }
        transcript.put_nil(lua, hidden[i])?;
    }
    Ok(())
}

fn fill_module(transcript: &mut Transcript, lua: &mlua::Lua, module: &str) -> (r: Result<
    (),
    mlua::Error,
>)
    ensures
        takes(fill_course(*lua, module@, api()), old(transcript)@, final(transcript)@, r),
{
    let entries = api_entries();
    let ghost all = api();
    let ghost past = transcript@;
    proof {
        assert(all.skip(0) =~= all);
    }
    for i in 0..entries.len()
        invariant
            entries@.map_values(|entry: ApiEntry| entry@) == all,
            all == api(),
            past.len() <= transcript@.len(),
            past == old(transcript)@,
            rest(fill_course(*lua, module@, all), past, transcript@) == fill_course(
                *lua,
                module@,
                all.skip(i as int),
            ),
    {
        proof {
            assert(all.len() == entries@.len());
            assert(all[i as int] == entries@[i as int]@);
            assert(all.skip(i as int).drop_first() =~= all.skip(i + 1));
        }
        if same_text(entries[i].module, module) {
            api_function(transcript, lua, &entries[i])?;
        }
    }
    Ok(())
}

fn make_module(transcript: &mut Transcript, lua: &mlua::Lua, module: &str) -> (r: Result<
    (),
    mlua::Error,
>)
    ensures
        takes(module_course(*lua, module@), old(transcript)@, final(transcript)@, r),
{
    let ghost past = transcript@;
    transcript.put_table(lua, module)?;
    let ghost middle = transcript@;
    let filled = fill_module(transcript, lua, module);
    proof {
        lemma_continued(
            module_course(*lua, module@),
            fill_course(*lua, module@, api()),
            past,
            middle,
            transcript@,
        );
    }
    filled
}

fn make_modules(transcript: &mut Transcript, lua: &mlua::Lua) -> (r: Result<(), mlua::Error>)
    ensures
        takes(modules_course(*lua, module_names()), old(transcript)@, final(transcript)@, r),
{
    let modules = vec!["flight", "resources", "control", "nav", "log"];
    let ghost names = module_names();
    let ghost past = transcript@;
    proof {
        assert(modules@.map_values(|name: &str| name@) =~= names);
        assert(names.skip(0) =~= names);
    }
    for i in 0..modules.len()
        invariant
            modules@.map_values(|name: &str| name@) == names,
            names == module_names(),
            past.len() <= transcript@.len(),
            past == old(transcript)@,
            rest(modules_course(*lua, names), past, transcript@) == modules_course(
                *lua,
                names.skip(i as int),
            ),
    {
        let ghost left = names.skip(i as int);
        let ghost middle = transcript@;
        let made = make_module(transcript, lua, modules[i]);
        proof {
            assert(names.len() == modules@.len());
            assert(left[0] == modules@[i as int]@);
            assert(left.drop_first() =~= names.skip(i + 1));
            lemma_attempted(
                modules_course(*lua, names),
                module_course(*lua, left[0]),
                |made: ()| modules_course(*lua, left.drop_first()),
                past,
                middle,
                transcript@,
                made,
            );
        }
        made?;
    }
    Ok(())
}

/// Hides what scripts do not get, and gives them the functions that they can call.
fn install_api(transcript: &mut Transcript, lua: &mlua::Lua) -> (r: Result<(), mlua::Error>)
    requires
        old(transcript)@.contains(metering(*lua)),
    ensures
        takes(install_course(*lua), old(transcript)@, final(transcript)@, r),
        r is Ok ==> is_guarded(final(transcript)@, *lua),
{
    let ghost course = install_course(*lua);
    let ghost past = transcript@;
    let hidden = hide_globals(transcript, lua);
    proof {
        lemma_attempted(
            course,
            hide_course(*lua, hidden_names()),
            |hidden: ()| guard_course(*lua),
            past,
            past,
            transcript@,
            hidden,
        );
        lemma_contains_on(
            hide_course(*lua, hidden_names()),
            past,
            transcript@,
            metering(*lua),
        );
    }
    hidden?;
    transcript.run_source(lua, GUARD_SOURCE, "guard")?;
    let ghost confined = transcript@;
    let made = make_modules(transcript, lua);
    proof {
        lemma_attempted(
            course,
            modules_course(*lua, module_names()),
            |made: ()| only(runs(*lua, WAIT_SOURCE@, "wait"@)),
            past,
            confined,
            transcript@,
            made,
        );
        lemma_guarded_on(
            modules_course(*lua, module_names()),
            confined,
            transcript@,
            *lua,
        );
    }
    made?;
    transcript.run_source(lua, WAIT_SOURCE, "wait")
}

fn restore_state(
    transcript: &mut Transcript,
    lua: &mlua::Lua,
    restored: Option<serde_json::Value>,
) -> (r: Result<(), mlua::Error>)
    requires
        is_guarded(old(transcript)@, *lua),
    ensures
        takes(restore_course(*lua, restored), old(transcript)@, final(transcript)@, r),
{
    match restored {
        Some(state) => {
            transcript.put_json(lua, "state", &state)?;
            if transcript.has_function(lua, "on_restore")? {
                transcript.call(lua, "on_restore", Argument::Global("state".to_owned()))
            } else {
                Ok(())
            }
        },
        None => {
            if transcript.has_table(lua, "state")? {
                Ok(())
            } else {
                transcript.put_table(lua, "state")
            }
        },
    }
}

fn set_going(transcript: &mut Transcript, lua: &mlua::Lua, mode: ScriptMode) -> (r: Result<
    (),
    mlua::Error,
>)
    requires
        is_guarded(old(transcript)@, *lua),
    ensures
        takes(start_course(*lua, mode), old(transcript)@, final(transcript)@, r),
{
    match mode {
        ScriptMode::Coroutine => transcript.put_thread(lua, MISSION_THREAD, "main"),
        ScriptMode::Callback => {
            if transcript.has_function(lua, "on_start")? {
                transcript.call(lua, "on_start", Argument::Nothing)
            } else {
                Ok(())
            }
        },
    }
}

/// Starts a script in a new machine: gives it its functions, runs it, hands it what
/// it kept, and makes its coroutine or calls its start. Gives how it is written, or
/// nothing where it is written both ways.
fn boot(
    transcript: &mut Transcript,
    lua: &mlua::Lua,
    source: &str,
    restored_state: Option<serde_json::Value>,
) -> (r: Result<Option<ScriptMode>, mlua::Error>)
    ensures
        takes(boot_course(*lua, source@, restored_state), old(transcript)@, final(transcript)@, r),
        r is Ok ==> is_guarded(final(transcript)@, *lua),
{
    let ghost course = boot_course(*lua, source@, restored_state);
    let ghost past = transcript@;
    transcript.limit_memory(lua, MEMORY_LIMIT)?;
    transcript.meter_instructions(lua, METER_STEP)?;
    let ghost bounded = transcript@;
    let installed = install_api(transcript, lua);
    proof {
        lemma_attempted(
            course,
            install_course(*lua),
            |installed: ()| script_course(*lua, source@, restored_state),
            past,
            bounded,
            transcript@,
            installed,
        );
    }
    installed?;
    transcript.run_source(lua, source, "vessel_script")?;
    let has_main = transcript.has_function(lua, "main")?;
    let has_update = transcript.has_function(lua, "on_fixed_update")?;
    let mode = match choose_mode(has_main, has_update) {
        Some(mode) => mode,
        None => {
            return Ok(None);
        },
    };
    let ghost run = transcript@;
    let handed = restore_state(transcript, lua, restored_state);
    let ghost onward = |set_going: ()|
        Course::<Result<Option<ScriptMode>, mlua::Error>>::End(Ok(Some(mode)));
    proof {
        lemma_attempted(
            course,
            restore_course(*lua, restored_state),
            |handed: ()| attempt_all(start_course(*lua, mode), onward),
            past,
            run,
            transcript@,
            handed,
        );
        lemma_guarded_on(restore_course(*lua, restored_state), run, transcript@, *lua);
    }
    handed?;
    let ghost restored = transcript@;
    let started = set_going(transcript, lua, mode);
    proof {
        lemma_attempted(
            course,
            start_course(*lua, mode),
            onward,
            past,
            restored,
            transcript@,
            started,
        );
        lemma_guarded_on(start_course(*lua, mode), restored, transcript@, *lua);
    }
    started?;
    Ok(Some(mode))
}

/// Runs a script for one tick. Says whether it goes on.
fn run_tick(
    transcript: &mut Transcript,
    lua: &mlua::Lua,
    mode: Option<ScriptMode>,
    telemetry: &FlightTelemetry,
) -> (r: Result<bool, mlua::Error>)
    requires
        is_guarded(old(transcript)@, *lua),
    ensures
        takes(run_course(*lua, mode, *telemetry), old(transcript)@, final(transcript)@, r),
{
    transcript.put_readings(lua, TELEMETRY_TABLE, readings(telemetry))?;
    match mode {
        Some(ScriptMode::Callback) => {
            if transcript.has_function(lua, "on_fixed_update")? {
                let length = Argument::Number(Real::of(TICK_LENGTH));
                transcript.call(lua, "on_fixed_update", length)?;
            }
            Ok(true)
        },
        Some(ScriptMode::Coroutine) => {
            if transcript.can_resume(lua, MISSION_THREAD)? {
                transcript.resume(lua, MISSION_THREAD)?;
                Ok(true)
            } else {
                Ok(false)
            }
        },
        None => Ok(true),
    }
}

/// Tells a script of an event: sets the global that coroutines wait for, and calls
/// back a script that is written so.
fn run_event(
    transcript: &mut Transcript,
    lua: &mlua::Lua,
    mode: Option<ScriptMode>,
    event: &str,
) -> (r: Result<(), mlua::Error>)
    requires
        is_guarded(old(transcript)@, *lua),
    ensures
        takes(event_course(*lua, mode, event@), old(transcript)@, final(transcript)@, r),
{
    if transcript.put_text(lua, "__last_event", event).is_err() {
        return Ok(());
    }
    if mode == Some(ScriptMode::Callback) {
        if let Ok(true) = transcript.has_function(lua, "on_event") {
            return transcript.call(lua, "on_event", Argument::Text(event.to_owned()));
        }
    }
    Ok(())
}

/// Whether the console is the one that a machine gave back, or else one without wishes,
/// lines and charges.
pub open spec fn is_collected(answer: Option<Console>, console: Console) -> bool {
    match answer {
        Some(given_back) => console == given_back,
        None => {
            &&& console.commands == ScriptCommands::none()
            &&& console.logs@.len() == 0
            &&& console.executed == 0
        },
    }
}

/// Takes the console out of a machine and leaves it an unused one.
fn collect(transcript: &mut Transcript, lua: &mlua::Lua) -> (r: Console)
    ensures
        exists|answer: Option<Console>|
            #[trigger] asked(exchanges(*lua, 0), old(transcript)@, final(transcript)@, answer)
                && is_collected(answer, r),
{
    let answer = transcript.exchange_console(lua, Console::default());
    proof {
        assert(asked(exchanges(*lua, 0), old(transcript)@, transcript@, answer));
    }
    match answer {
        Some(console) => console,
        None => Console::default(),
    }
}

impl Default for ScriptRuntime {
    fn default() -> (r: Self)
        ensures
            r.lua is None,
            r.pending == ScriptCommands::none(),
            r.logs@.len() == 0,
            r.executed == 0,
            r.source@ == EXAMPLE_SCRIPT@,
            !r.active,
            r.mode is None,
            r.last_error is None,
            r.transcript@ == Seq::<Event>::empty(),
            r.is_sound(),
    {
        ScriptRuntime {
            lua: None,
            pending: ScriptCommands::default(),
            logs: Vec::new(),
            executed: 0,
            source: EXAMPLE_SCRIPT.to_owned(),
            active: false,
            mode: None,
            last_error: None,
            transcript: Transcript::default(),
        }
    }
}

/// Whether an outcome is what came of a machine's work, with its error in words.
pub open spec fn is_outcome<T>(
    came: Result<T, mlua::Error>,
    outcome: Result<T, ScriptError>,
) -> bool {
    match (came, outcome) {
        (Ok(value), Ok(result)) => value == result,
        (Err(error), Err(described)) => to_string_from_display_ensures(&error, described.message),
        _ => false,
    }
}

/// Whether the instructions of a tick went beyond the budget while they rose so.
pub open spec fn is_overrun(started: usize, executed: usize) -> bool {
    started <= INSTRUCTION_BUDGET && executed > INSTRUCTION_BUDGET
}

/// Whether a verdict is the outcome, but where the budget was overrun and the script hid it.
pub open spec fn is_verdict<T>(
    outcome: Result<T, ScriptError>,
    overrun: bool,
    verdict: Result<T, ScriptError>,
) -> bool {
    if outcome is Ok && overrun {
        verdict is Err && verdict->Err_0.message@ == OVER_BUDGET@
    } else {
        verdict == outcome
    }
}

/// The outcome, but where the budget was overrun, even though the script has caught the
/// refusal: that is a failure.
pub fn judge<T>(outcome: Result<T, ScriptError>, started: usize, executed: usize) -> (r: Result<
    T,
    ScriptError,
>)
    ensures
        is_verdict(outcome, is_overrun(started, executed), r),
{
    if outcome.is_ok() && started <= INSTRUCTION_BUDGET && executed > INSTRUCTION_BUDGET {
        Err(ScriptError { message: OVER_BUDGET.to_owned() })
    } else {
        outcome
    }
}

/// Whether an outcome is what came of the start of a script, which fails too where the
/// script is written both ways.
pub open spec fn is_start(
    came: Result<Option<ScriptMode>, mlua::Error>,
    outcome: Result<ScriptMode, ScriptError>,
) -> bool {
    match (came, outcome) {
        (Ok(Some(mode)), Ok(result)) => mode == result,
        (Ok(None), Err(refused)) => refused.message@ == BOTH_STYLES@,
        (Err(error), Err(described)) => to_string_from_display_ensures(&error, described.message),
        _ => false,
    }
}

/// What is kept of a script's state: the JSON value, where it has the form of one.
pub fn kept_state(written: Result<serde_json::Value, mlua::Error>) -> (r: Option<serde_json::Value>)
    ensures
        r == what_is_kept(written),
{
    match written {
        Ok(value) => Some(value),
        Err(_) => None,
    }
}

/// Whether an attempt to start a script went so: what was asked of the new machine and
/// what came of it, with which outcome and console the flight computer went on.
pub open spec fn is_loaded(
    before: ScriptRuntime,
    after: ScriptRuntime,
    source: String,
    restored: Option<serde_json::Value>,
    work: Work<Option<ScriptMode>>,
    outcome: Result<ScriptMode, ScriptError>,
    console: Console,
) -> bool {
    &&& takes(
        load_course(source@, restored),
        before.transcript@,
        after.transcript@,
        work,
    )
    &&& is_collected(work.answer, console)
    &&& exists|told: Result<ScriptMode, ScriptError>| #[trigger]
        is_start(work.came, told) && is_verdict(told, is_overrun(0, console.executed), outcome)
    &&& is_started(
        ScriptRuntime { transcript: after.transcript, ..before },
        after,
        source,
        outcome,
        console,
    )
    &&& outcome is Ok ==> after.lua == Some(work.lua)
}

/// Whether a tick went so: what was asked of the machine and what came of it, with
/// which outcome and console the flight computer went on.
pub open spec fn is_run(
    before: ScriptRuntime,
    after: ScriptRuntime,
    telemetry: FlightTelemetry,
    work: Work<bool>,
    outcome: Result<bool, ScriptError>,
    console: Console,
) -> bool {
    &&& before.lua is Some
    &&& takes(
        tick_course(before.lua->0, before.mode, telemetry),
        before.transcript@,
        after.transcript@,
        work,
    )
    &&& is_collected(work.answer, console)
    &&& exists|told: Result<bool, ScriptError>| #[trigger]
        is_outcome(work.came, told) && is_verdict(told, is_overrun(0, console.executed), outcome)
    &&& is_ticked(
        ScriptRuntime { transcript: after.transcript, ..before },
        after,
        outcome,
        console,
    )
}

/// Whether an event went so: what was asked of the machine and what came of it, with
/// which outcome and console the flight computer went on.
pub open spec fn is_emitted(
    before: ScriptRuntime,
    after: ScriptRuntime,
    event: Seq<char>,
    work: Work<()>,
    outcome: Result<(), ScriptError>,
    console: Console,
) -> bool {
    &&& before.lua is Some
    &&& takes(
        tell_course(before.lua->0, before.mode, event, before.executed),
        before.transcript@,
        after.transcript@,
        work,
    )
    &&& is_collected(work.answer, console)
    &&& exists|told: Result<(), ScriptError>| #[trigger]
        is_outcome(work.came, told) && is_verdict(
            told,
            is_overrun(before.executed, console.executed),
            outcome,
        )
    &&& is_told(ScriptRuntime { transcript: after.transcript, ..before }, after, outcome, console)
}

/// Whether an attempt to start a script has turned the flight computer into that after it,
/// and ended so.
pub open spec fn has_loaded(
    before: ScriptRuntime,
    after: ScriptRuntime,
    source: String,
    restored: Option<serde_json::Value>,
    ended: Result<(), ScriptError>,
) -> bool {
    exists|
        work: Work<Option<ScriptMode>>,
        outcome: Result<ScriptMode, ScriptError>,
        console: Console,
    |
        #[trigger] is_loaded(before, after, source, restored, work, outcome, console) && (
        match outcome {
            Ok(_) => ended is Ok,
            Err(error) => ended == Err::<(), ScriptError>(error),
        })
}

/// Whether a tick has turned the flight computer into that after it, and given those
/// commands: nothing happens without a script that goes on, and one without a machine asks
/// for what was still to be done.
pub open spec fn has_ticked(
    before: ScriptRuntime,
    after: ScriptRuntime,
    telemetry: FlightTelemetry,
    commands: ScriptCommands,
) -> bool {
    if !before.active {
        after == before && commands == ScriptCommands::none()
    } else if before.lua is Some {
        exists|work: Work<bool>, outcome: Result<bool, ScriptError>, console: Console|
            #[trigger] is_run(before, after, telemetry, work, outcome, console) && commands
                == before.pending.merged(console.commands)
    } else {
        &&& commands == before.pending
        &&& after == (ScriptRuntime {
            pending: ScriptCommands::none(),
            executed: 0,
            logs: after.logs,
            ..before
        })
        &&& after.logs@ == before.logs@
    }
}

/// Whether an event has turned the flight computer into that after it: nothing happens
/// without a machine.
pub open spec fn has_heard(before: ScriptRuntime, after: ScriptRuntime, event: Seq<char>) -> bool {
    if before.lua is None {
        after == before
    } else {
        exists|work: Work<()>, outcome: Result<(), ScriptError>, console: Console| #[trigger]
            is_emitted(before, after, event, work, outcome, console)
    }
}

impl ScriptRuntime {
    /// Starts a script, with what it kept of an earlier run where that is given. The
    /// script that ran before goes on where the new one cannot be started.
    pub fn load(&mut self, source: String, restored_state: Option<serde_json::Value>) -> (r: Result<
        (),
        ScriptError,
    >)
        ensures
            has_loaded(*old(self), *final(self), source, restored_state, r),
            old(self).is_sound() ==> final(self).is_sound(),
    {
        let ghost course = load_course(source@, restored_state);
        let ghost past = self.transcript@;
        let lua = self.transcript.new_machine();
        self.transcript.exchange_console(&lua, Console::default());
        let ghost prepared = self.transcript@;
        let came = boot(&mut self.transcript, &lua, &source, restored_state);
        let ghost result = came;
        let ghost worked = self.transcript@;
        let told = match came {
            Ok(Some(mode)) => Ok(mode),
            Ok(None) => Err(both_styles()),
            Err(error) => Err(described(&error)),
        };
        let console = collect(&mut self.transcript, &lua);
        proof {
            assert(is_start(result, told));
        }
        let outcome = judge(told, 0, console.executed);
        let ghost answer = choose|answer: Option<Console>|
            #[trigger] asked(exchanges(lua, 0), worked, self.transcript@, answer) && is_collected(
                answer,
                console,
            );
        proof {
            lemma_collected(
                course,
                lua,
                boot_course(lua, source@, restored_state),
                past,
                prepared,
                worked,
                self.transcript@,
                result,
                answer,
            );
            if result is Ok {
                lemma_still_contains(worked, metering(lua), self.transcript@.last());
                lemma_still_contains(worked, guarding(lua), self.transcript@.last());
            }
            if old(self).lua is Some && old(self).is_sound() {
                lemma_guarded_on(course, past, self.transcript@, old(self).lua->0);
            }
        }
        let r = self.finish_load(lua, source, outcome, console);
        proof {
            let work = Work { lua, came: result, answer };
            assert(is_loaded(
                *old(self),
                *self,
                source,
                restored_state,
                work,
                outcome,
                console,
            ));
        }
        r
    }

    /// Runs the script for one tick and gives what it asks for; nothing without a
    /// script. A script that fails is stopped.
    pub fn tick(&mut self, telemetry: &FlightTelemetry) -> (r: ScriptCommands)
        requires
            old(self).is_sound(),
        ensures
            final(self).is_sound(),
            has_ticked(*old(self), *final(self), *telemetry, r),
    {
        if !self.active {
            return ScriptCommands::default();
        }
        let ghost past = self.transcript@;
        let ghost mut work: Work<bool> = arbitrary();
        let (outcome, console) = match &self.lua {
            Some(lua) => {
                self.transcript.exchange_console(lua, Console::default());
                let ghost prepared = self.transcript@;
                let came = run_tick(&mut self.transcript, lua, self.mode, telemetry);
                let ghost result = came;
                let ghost worked = self.transcript@;
                let told = match came {
                    Ok(goes_on) => Ok(goes_on),
                    Err(error) => Err(described(&error)),
                };
                let console = collect(&mut self.transcript, lua);
                proof {
                    assert(is_outcome(result, told));
                }
                let outcome = judge(told, 0, console.executed);
                proof {
                    let answer = choose|answer: Option<Console>|
                        #[trigger] asked(exchanges(*lua, 0), worked, self.transcript@, answer)
                            && is_collected(answer, console);
                    lemma_collected(
                        tick_course(*lua, self.mode, *telemetry),
                        *lua,
                        run_course(*lua, self.mode, *telemetry),
                        past,
                        prepared,
                        worked,
                        self.transcript@,
                        result,
                        answer,
                    );
                    lemma_guarded_on(
                        tick_course(*lua, self.mode, *telemetry),
                        past,
                        self.transcript@,
                        *lua,
                    );
                    work = Work { lua: *lua, came: result, answer };
                }
                (outcome, console)
            },
            None => (Ok(true), Console::default()),
        };
        let r = self.finish_tick(outcome, console);
        proof {
            assert(old(self).logs@ + Seq::<String>::empty() =~= old(self).logs@);
            if old(self).lua is None {
                assert(console.logs@ =~= Seq::<String>::empty());
            } else {
                assert(is_run(*old(self), *self, *telemetry, work, outcome, console));
            }
        }
        r
    }

    /// Tells the script of an event. A script that fails over it is stopped.
    pub fn emit_event(&mut self, event: &str)
        requires
            old(self).is_sound(),
        ensures
            final(self).is_sound(),
            has_heard(*old(self), *final(self), event@),
    {
        let ghost past = self.transcript@;
        let ghost mut work: Work<()> = arbitrary();
        let (outcome, console) = match &self.lua {
            Some(lua) => {
                let given = Console {
                    commands: ScriptCommands::default(),
                    logs: Vec::new(),
                    executed: self.executed,
                };
                self.transcript.exchange_console(lua, given);
                let ghost prepared = self.transcript@;
                let came = run_event(&mut self.transcript, lua, self.mode, event);
                let ghost result = came;
                let ghost worked = self.transcript@;
                let told = match came {
                    Ok(()) => Ok(()),
                    Err(error) => Err(described(&error)),
                };
                let console = collect(&mut self.transcript, lua);
                proof {
                    assert(is_outcome(result, told));
                }
                let outcome = judge(told, self.executed, console.executed);
                proof {
                    let answer = choose|answer: Option<Console>|
                        #[trigger] asked(exchanges(*lua, 0), worked, self.transcript@, answer)
                            && is_collected(answer, console);
                    lemma_collected(
                        tell_course(*lua, self.mode, event@, self.executed),
                        *lua,
                        event_course(*lua, self.mode, event@),
                        past,
                        prepared,
                        worked,
                        self.transcript@,
                        result,
                        answer,
                    );
                    lemma_guarded_on(
                        tell_course(*lua, self.mode, event@, self.executed),
                        past,
                        self.transcript@,
                        *lua,
                    );
                    work = Work { lua: *lua, came: result, answer };
                }
                (outcome, console)
            },
            None => {
                return;
            },
        };
        self.finish_event(outcome, console);
        proof {
            assert(is_emitted(*old(self), *self, event@, work, outcome, console));
        }
    }

    /// What the script keeps in its global `state`, where that has the form of JSON;
    /// nothing without a script. What the script has put there is known to its machine
    /// alone.
    pub fn snapshot_state(&self) -> (r: Option<serde_json::Value>)
        ensures
            self.lua is None ==> r is None,
            self.lua matches Some(lua) ==> exists|read: Result<serde_json::Value, mlua::Error>|
                call_ensures(read_json, (&lua, "state"), read) && r == #[trigger] what_is_kept(read),
    {
        match &self.lua {
            Some(lua) => snapshot(lua, read_json),
            None => None,
        }
    }
}

/// What a script keeps in its global `state`, as `read` gives it.
pub fn snapshot<F: Fn(&mlua::Lua, &str) -> Result<serde_json::Value, mlua::Error>>(
    lua: &mlua::Lua,
    read: F,
) -> (r: Option<serde_json::Value>)
    requires
        call_requires(read, (lua, "state")),
    ensures
        exists|found: Result<serde_json::Value, mlua::Error>|
            call_ensures(read, (lua, "state"), found) && r == #[trigger] what_is_kept(found),
{
    let found = read(lua, "state");
    let ghost answer = found;
    let r = kept_state(found);
    proof {
        assert(r == what_is_kept(answer));
    }
    r
}

/// A script that runs more instructions in a tick than the budget holds is stopped, with an
/// error and a line of the log, whatever it does about the refusal; and from then on a tick
/// gives nothing and changes nothing until a script is started.
pub proof fn law_runaway_scripts_are_stopped(
    before: ScriptRuntime,
    after: ScriptRuntime,
    telemetry: FlightTelemetry,
    work: Work<bool>,
    outcome: Result<bool, ScriptError>,
    console: Console,
)
    requires
        is_run(before, after, telemetry, work, outcome, console),
    ensures
        after.executed > INSTRUCTION_BUDGET ==> {
            &&& !after.active
            &&& after.last_error is Some
            &&& work.came is Ok ==> after.last_error->0@ == OVER_BUDGET@
            &&& exists|line: String|
                line@ == "ERROR: "@ + after.last_error->0@ && #[trigger] with_line(
                    before.logs@ + console.logs@,
                    line,
                ) == after.logs@
        },
        after.active ==> after.executed <= INSTRUCTION_BUDGET,
{
}

/// Why a script fails that went beyond the budget of instructions.
pub const OVER_BUDGET: &'static str =
    "runtime error: script exceeded 100,000 instructions this tick";

/// Why a script that is written both ways is refused.
pub const BOTH_STYLES: &'static str =
    "runtime error: define either main() or on_fixed_update(), not both";

fn both_styles() -> (r: ScriptError)
    ensures
        r.message@ == BOTH_STYLES@,
{
    ScriptError { message: BOTH_STYLES.to_owned() }
}

/// A log keeps its last two hundred lines, the newest last.
pub proof fn law_logs_keep_the_newest(logs: &mut Vec<String>, line: String, k: int)
    requires
        call_ensures(push_line, (logs, line), ()),
    ensures
        final(logs)@.len() > 0 && final(logs)@.last() == line,
        old(logs)@.len() < 200 ==> final(logs)@.len() == old(logs)@.len() + 1 && (0 <= k < old(logs)@.len() ==> final(logs)@[k] == old(logs)@[k]),
        old(logs)@.len() == 200 ==> final(logs)@.len() == 200 && (0 <= k < 199
            ==> final(logs)@[k] == old(logs)@[k + 1]),
{
}

/// A script with a main function alone is a coroutine, one without is a set of callbacks, and
/// one with both a main and an update function is neither.
pub proof fn law_scripts_have_one_style(has_main: bool, has_update: bool, r: Option<ScriptMode>)
    requires
        call_ensures(choose_mode, (has_main, has_update), r),
    ensures
        r is None <==> has_main && has_update,
        has_main && !has_update ==> r == Some(ScriptMode::Coroutine),
        !has_main ==> r == Some(ScriptMode::Callback),
{
}

/// A stopped script runs no more, and says so; draining the log hands it out and empties it.
pub proof fn law_stopping_and_draining(
    stopped: &mut ScriptRuntime,
    drained: &mut ScriptRuntime,
    lines: Vec<String>,
)
    requires
        call_ensures(ScriptRuntime::stop, (stopped,), ()),
        call_ensures(ScriptRuntime::drain_logs, (drained,), lines),
    ensures
        !final(stopped).active,
        final(stopped).logs@.len() > 0 && final(stopped).logs@.last()@ == "Automation stopped"@,
        final(stopped).source == old(stopped).source && final(stopped).pending == old(stopped).pending && final(stopped).lua == old(stopped).lua,
        lines == old(drained).logs,
        final(drained).logs@.len() == 0,
        final(drained).active == old(drained).active && final(drained).source == old(drained).source,
{
    let line = choose|line: String|
        line@ == "Automation stopped"@ && #[trigger] with_line(stopped.logs@, line) == final(stopped).logs@;
    assert(with_line(stopped.logs@, line).last() == line);
}

/// A script that started takes the place of the one before, runs, and says in which style; one
/// that did not leaves the one before going. What it asked for while it started is not lost.
pub proof fn law_started_scripts_replace_the_old(
    computer: &mut ScriptRuntime,
    lua: mlua::Lua,
    source: String,
    outcome: Result<ScriptMode, ScriptError>,
    console: Console,
    r: Result<(), ScriptError>,
)
    requires
        call_ensures(ScriptRuntime::finish_load, (computer, lua, source, outcome, console), r),
    ensures
        r is Ok <==> outcome is Ok,
        outcome is Ok ==> final(computer).active && final(computer).source == source && final(computer).mode == Some(outcome->Ok_0) && final(computer).last_error is None && final(computer).lua == Some(lua),
        outcome is Ok && outcome->Ok_0 is Callback ==> final(computer).logs@.last()@
            == "Script started in callback mode"@,
        outcome is Ok && outcome->Ok_0 is Coroutine ==> final(computer).logs@.last()@
            == "Script started in coroutine mode"@,
        outcome is Err ==> r == Err::<(), ScriptError>(outcome->Err_0) && final(computer).active
            == old(computer).active && final(computer).source == old(computer).source && final(computer).lua == old(computer).lua && final(computer).logs@ == old(computer).logs@
            + console.logs@,
        final(computer).executed == console.executed,
        console.commands.throttle is Some ==> final(computer).pending.throttle
            == console.commands.throttle,
        console.commands.throttle is None ==> final(computer).pending.throttle == old(computer).pending.throttle,
        final(computer).pending.stage == (old(computer).pending.stage || console.commands.stage),
{
    if outcome is Ok {
        let noted = computer.logs@ + console.logs@;
        let line = choose|line: String|
            line@ == start_line(outcome->Ok_0) && #[trigger] with_line(noted, line) == final(computer).logs@;
        assert(with_line(noted, line).last() == line);
    }
}

/// A tick hands out what was still to be done and what the script asked for on top of it, and
/// leaves nothing to be done. A script that ended or failed runs no more, and a failure is
/// kept and told.
pub proof fn law_ticks_hand_out_commands(
    computer: &mut ScriptRuntime,
    outcome: Result<bool, ScriptError>,
    console: Console,
    r: ScriptCommands,
)
    requires
        call_ensures(ScriptRuntime::finish_tick, (computer, outcome, console), r),
    ensures
        console.commands.throttle is Some ==> r.throttle == console.commands.throttle,
        console.commands.throttle is None ==> r.throttle == old(computer).pending.throttle,
        console.commands.maneuver is Some ==> r.maneuver == console.commands.maneuver,
        r.stage == (old(computer).pending.stage || console.commands.stage),
        !final(computer).pending.stage && !final(computer).pending.deploy_parachutes && final(computer).pending.throttle is None && final(computer).pending.maneuver is None && final(computer).pending.sas is None && final(computer).pending.rcs is None && final(computer).pending.warp_rate is None && final(computer).pending.pitch is None,
        final(computer).active <==> old(computer).active && outcome is Ok && outcome->Ok_0,
        outcome is Err ==> final(computer).last_error == Some(outcome->Err_0.message) && final(computer).logs@.last()@ == "ERROR: "@ + outcome->Err_0.message@,
        outcome is Ok ==> final(computer).last_error == old(computer).last_error && final(computer).logs@ == old(computer).logs@ + console.logs@,
        final(computer).lua == old(computer).lua && final(computer).source == old(computer).source && final(computer).executed == console.executed,
{
    if outcome is Err {
        let noted = computer.logs@ + console.logs@;
        let error = outcome->Err_0;
        let line = choose|line: String|
            line@ == "ERROR: "@ + error.message@ && #[trigger] with_line(noted, line) == final(computer).logs@;
        assert(with_line(noted, line).last() == line);
    }
}

/// What a script asks for upon an event waits for the next tick; one that failed runs no more.
pub proof fn law_event_commands_wait(
    computer: &mut ScriptRuntime,
    outcome: Result<(), ScriptError>,
    console: Console,
)
    requires
        call_ensures(ScriptRuntime::finish_event, (computer, outcome, console), ()),
    ensures
        final(computer).pending.stage == (old(computer).pending.stage || console.commands.stage),
        console.commands.throttle is Some ==> final(computer).pending.throttle
            == console.commands.throttle,
        console.commands.throttle is None ==> final(computer).pending.throttle == old(computer).pending.throttle,
        final(computer).active <==> old(computer).active && outcome is Ok,
        outcome is Err ==> final(computer).last_error == Some(outcome->Err_0.message),
        final(computer).logs@ == old(computer).logs@ + console.logs@,
        final(computer).executed == console.executed,
{
}

/// A script that went over the budget of a tick failed, however it ended; one that was over
/// before, or that failed anyway, ends as it did.
pub proof fn law_over_budget_is_a_failure<T>(
    outcome: Result<T, ScriptError>,
    started: usize,
    executed: usize,
    r: Result<T, ScriptError>,
)
    requires
        call_ensures(judge::<T>, (outcome, started, executed), r),
    ensures
        started <= 100_000 < executed && outcome is Ok ==> r is Err && r->Err_0.message@
            == "runtime error: script exceeded 100,000 instructions this tick"@,
        !(started <= 100_000 < executed) || outcome is Err ==> r == outcome,
{
}

/// A script reads every instrument under its name, and under the module that it belongs to;
/// each order has a function of its own.
pub proof fn law_scripts_reach_every_instrument(
    telemetry: &FlightTelemetry,
    shown: Vec<Reading>,
    offered: Vec<ApiEntry>,
    k: int,
)
    requires
        call_ensures(readings, (telemetry,), shown),
        call_ensures(api_entries, (), offered),
        0 <= k < 17,
    ensures
        shown@.len() == 17,
        offered@.len() == 26,
        offered@[k].call is Read,
        offered@[k].name@ == shown@[k].name@,
        k < 11 ==> offered@[k].module@ == "flight"@,
        k >= 11 ==> offered@[k].module@ == "resources"@,
        shown@[0].name@ == "time"@ && shown@[0].value == telemetry.ut,
        shown@[1].name@ == "altitude"@ && shown@[1].value == telemetry.altitude,
        shown@[2].name@ == "radar_altitude"@ && shown@[2].value == telemetry.radar_altitude,
        shown@[3].name@ == "speed"@ && shown@[3].value == telemetry.speed,
        shown@[4].name@ == "surface_speed"@ && shown@[4].value == telemetry.surface_speed,
        shown@[5].name@ == "vertical_speed"@ && shown@[5].value == telemetry.vertical_speed,
        shown@[6].name@ == "mach"@ && shown@[6].value == telemetry.mach,
        shown@[7].name@ == "dynamic_pressure"@ && shown@[7].value == telemetry.dynamic_pressure,
        shown@[8].name@ == "heating"@ && shown@[8].value == telemetry.heating,
        shown@[9].name@ == "apoapsis"@ && shown@[9].value == telemetry.orbit.apoapsis,
        shown@[10].name@ == "periapsis"@ && shown@[10].value == telemetry.orbit.periapsis,
        shown@[11].name@ == "mass"@ && shown@[11].value == telemetry.mass,
        shown@[12].name@ == "liquid_fuel"@ && shown@[12].value == telemetry.liquid_fuel,
        shown@[13].name@ == "solid_fuel"@ && shown@[13].value == telemetry.solid_fuel,
        shown@[14].name@ == "monopropellant"@ && shown@[14].value == telemetry.monopropellant,
        shown@[15].name@ == "thrust"@ && shown@[15].value == telemetry.thrust,
        shown@[16].name@ == "twr"@ && shown@[16].value == telemetry.twr,
        is_order(offered@[17], "control"@, "set_throttle"@, ApiCall::Throttle),
        is_order(offered@[18], "control"@, "set_rotation"@, ApiCall::Rotation),
        is_order(offered@[19], "control"@, "set_sas"@, ApiCall::Sas),
        is_order(offered@[20], "control"@, "set_rcs"@, ApiCall::Rcs),
        is_order(offered@[21], "control"@, "stage"@, ApiCall::Stage),
        is_order(offered@[22], "control"@, "deploy_parachutes"@, ApiCall::Parachutes),
        is_order(offered@[23], "nav"@, "set_warp"@, ApiCall::Warp),
        is_order(offered@[24], "nav"@, "set_maneuver"@, ApiCall::Maneuver),
        is_order(offered@[25], "log"@, "info"@, ApiCall::Log),
{
    let a = shown@.map_values(|reading: Reading| reading@);
    let b = offered@.map_values(|entry: ApiEntry| entry@);
    assert(a.len() == shown@.len() && b.len() == offered@.len());
    assert forall|i: int| 0 <= i < shown@.len() implies (#[trigger] shown@[i])@ == a[i] by {}
    assert forall|i: int| 0 <= i < offered@.len() implies (#[trigger] offered@[i])@ == b[i] by {}
    assert(a == readings_of(*telemetry));
    assert(b == api());
}

/// Whether that is the function of a module that gives an order.
pub open spec fn is_order(
    entry: ApiEntry,
    module: Seq<char>,
    name: Seq<char>,
    call: ApiCall,
) -> bool {
    entry.module@ == module && entry.name@ == name && entry.call == call
}

/// Scripts get nothing that reads files, runs programs or loads code.
pub proof fn law_dangerous_globals_are_hidden(r: Vec<&'static str>)
    requires
        call_ensures(hidden_globals, (), r),
    ensures
        r@.len() == 8,
        forall|i: int|
            0 <= i < r@.len() ==> (#[trigger] r@[i])@ == seq![
                "os"@,
                "io"@,
                "package"@,
                "debug"@,
                "dofile"@,
                "loadfile"@,
                "require"@,
                "load"@,
            ][i],
{
    let a = r@.map_values(|name: &str| name@);
    assert(a == hidden_names());
    assert(a.len() == r@.len());
    assert forall|i: int| 0 <= i < r@.len() implies (#[trigger] r@[i])@ == a[i] by {}
}

/// What a script keeps is what could be read of its state, and nothing where that failed.
pub proof fn law_readable_state_is_kept(
    written: Result<serde_json::Value, mlua::Error>,
    r: Option<serde_json::Value>,
)
    requires
        call_ensures(kept_state, (written,), r),
    ensures
        written is Ok ==> r == Some(written->Ok_0),
        written is Err ==> r is None,
{
}

/// A flight computer whose script does not run asks for nothing and stays as it is; one that
/// runs leaves nothing pending after a tick, and goes on with the same machine and source.
pub proof fn law_idle_scripts_ask_for_nothing(
    computer: &mut ScriptRuntime,
    telemetry: &FlightTelemetry,
    r: ScriptCommands,
)
    requires
        call_ensures(ScriptRuntime::tick, (computer, telemetry), r),
    ensures
        !old(computer).active ==> *final(computer) == *old(computer) && !r.stage
            && !r.deploy_parachutes && r.throttle is None && r.pitch is None && r.yaw is None
            && r.roll is None && r.sas is None && r.rcs is None && r.warp_rate is None && r.maneuver
            is None,
        old(computer).active ==> final(computer).pending == ScriptCommands::none()
            && final(computer).lua == old(computer).lua && final(computer).source == old(computer).source && final(computer).mode == old(computer).mode,
        old(computer).active && old(computer).lua is None ==> r == old(computer).pending
            && final(computer).active,
        old(computer).active && old(computer).pending.stage ==> r.stage,
        old(computer).active && old(computer).pending.deploy_parachutes ==> r.deploy_parachutes,
        final(computer).active ==> old(computer).active,
        final(computer).active && old(computer).lua is Some ==> final(computer).executed
            <= 100_000,
{
    if computer.active && computer.lua is Some {
        let (work, outcome, console) = choose|
            work: Work<bool>,
            outcome: Result<bool, ScriptError>,
            console: Console,
        |
            #[trigger] is_run(*computer, *final(computer), *telemetry, work, outcome, console) && r
                == computer.pending.merged(console.commands);
        law_runaway_scripts_are_stopped(
            *computer,
            *final(computer),
            *telemetry,
            work,
            outcome,
            console,
        );
    }
}

/// An event changes nothing without a machine, and with one neither the machine nor the source
/// of the script; what was still to be done stays so.
pub proof fn law_events_keep_the_script(computer: &mut ScriptRuntime, event: &str)
    requires
        call_ensures(ScriptRuntime::emit_event, (computer, event), ()),
    ensures
        old(computer).lua is None ==> *final(computer) == *old(computer),
        final(computer).lua == old(computer).lua && final(computer).source == old(computer).source
            && final(computer).mode == old(computer).mode,
        old(computer).pending.stage ==> final(computer).pending.stage,
        final(computer).active ==> old(computer).active,
{
}

/// A script that is loaded runs from then on with its source, or leaves the one before going.
pub proof fn law_loading_is_all_or_nothing(
    computer: &mut ScriptRuntime,
    source: String,
    restored: Option<serde_json::Value>,
    r: Result<(), ScriptError>,
)
    requires
        call_ensures(ScriptRuntime::load, (computer, source, restored), r),
    ensures
        r is Ok ==> final(computer).active && final(computer).source == source && final(computer).lua is Some && final(computer).mode is Some && final(computer).last_error is None,
        r is Err ==> final(computer).active == old(computer).active && final(computer).source
            == old(computer).source && final(computer).lua == old(computer).lua && final(computer).mode == old(computer).mode,
{
}

/// What a machine gives back of its console is what counts, and one that gives nothing back
/// asked for nothing.
pub proof fn law_console_is_taken_back(answer: Option<Console>, console: Console)
    requires
        is_collected(answer, console),
    ensures
        answer is Some ==> console.commands == answer->0.commands && console.logs
            == answer->0.logs && console.executed == answer->0.executed,
        answer is None ==> !console.commands.stage && !console.commands.deploy_parachutes
            && console.commands.throttle is None && console.commands.maneuver is None
            && console.logs@.len() == 0 && console.executed == 0,
{
}

} // verus!
