use crabby_space::mission::{FlightTelemetry, OrbitalElements};
use crabby_space::number::Real;
use crabby_space::runtime::{
    api_entries, choose_mode, hidden_globals, kept_state, ScriptError, ScriptRuntime,
};
use crabby_space::script::{sas_by_name, Console, ScriptCommands, ScriptMode};
use crabby_space::scripts::{COROUTINE_EXAMPLE, EXAMPLE_SCRIPT};
use crabby_space::vessel::SasMode;

fn num(value: f64) -> Real {
    Real::of(value.to_bits())
}

fn telemetry(altitude: f64) -> FlightTelemetry {
    FlightTelemetry {
        altitude: num(altitude),
        orbit: OrbitalElements {
            apoapsis: num(altitude),
            ..Default::default()
        },
        ..Default::default()
    }
}

#[test]
fn callback_can_command_throttle() {
    let mut runtime = ScriptRuntime::default();
    runtime
        .load(
            "function on_fixed_update(dt) control.set_throttle(0.75) end".into(),
            None,
        )
        .unwrap();
    let commands = runtime.tick(&telemetry(10.0));
    assert_eq!(commands.throttle, Some(num(0.75)));
}

#[test]
fn coroutine_yields_and_resumes() {
    let mut runtime = ScriptRuntime::default();
    runtime.load("function main() wait.until_condition(function() return flight.altitude() > 100 end); control.stage() end".into(), None).unwrap();
    assert!(!runtime.tick(&telemetry(10.0)).stage);
    assert!(runtime.tick(&telemetry(110.0)).stage);
}

#[test]
fn unsafe_libraries_are_absent() {
    let mut runtime = ScriptRuntime::default();
    runtime.load("function on_fixed_update(dt) assert(os == nil and io == nil and require == nil) end".into(), None).unwrap();
    runtime.tick(&telemetry(0.0));
    assert!(runtime.active);
}

#[test]
fn on_start_command_runs_once() {
    let mut runtime = ScriptRuntime::default();
    runtime
        .load("function on_start() control.stage() end".into(), None)
        .unwrap();
    assert!(runtime.tick(&telemetry(0.0)).stage);
    assert!(!runtime.tick(&telemetry(0.0)).stage);
}

#[test]
fn serializable_state_restores_after_reload() {
    let source = "state = state or { phase = 0 }; function on_fixed_update(dt) state.phase = state.phase + 1 end";
    let mut runtime = ScriptRuntime::default();
    runtime.load(source.into(), None).unwrap();
    runtime.tick(&telemetry(0.0));
    let state = runtime.snapshot_state();
    runtime.load(source.into(), state).unwrap();
    runtime.tick(&telemetry(0.0));
    assert_eq!(runtime.snapshot_state().unwrap()["phase"], 2);
}

fn started(source: &str) -> ScriptRuntime {
    let mut runtime = ScriptRuntime::default();
    runtime.load(source.into(), None).unwrap();
    runtime
}

#[test]
fn scripts_reach_every_lever() {
    let mut runtime = started(
        "function on_fixed_update(dt)
           control.set_throttle(7)
           control.set_rotation(-2, 0.5, 2)
           control.set_sas('Anti_Normal')
           control.set_rcs(true)
           control.stage()
           control.deploy_parachutes()
           nav.set_warp(100)
           nav.set_maneuver(1, 2, 3, 4)
           log.info('dt ' .. dt)
         end",
    );
    let commands = runtime.tick(&telemetry(0.0));
    assert_eq!(
        commands,
        ScriptCommands {
            throttle: Some(num(1.0)),
            pitch: Some(num(-1.0)),
            yaw: Some(num(0.5)),
            roll: Some(num(1.0)),
            sas: Some(Some(SasMode::AntiNormal)),
            rcs: Some(true),
            stage: true,
            deploy_parachutes: true,
            warp_rate: Some(num(100.0)),
            maneuver: Some((num(1.0), num(2.0), num(3.0), num(4.0))),
        }
    );
    let logs = runtime.drain_logs();
    assert_eq!(logs[0], "Script started in callback mode");
    assert!(logs[1].starts_with("dt 0.01666666666"));
    assert!(runtime.drain_logs().is_empty());
}

#[test]
fn scripts_read_every_instrument() {
    let names = [
        "flight.time", "flight.altitude", "flight.radar_altitude", "flight.speed",
        "flight.surface_speed", "flight.vertical_speed", "flight.mach",
        "flight.dynamic_pressure", "flight.heating", "flight.apoapsis", "flight.periapsis",
        "resources.mass", "resources.liquid_fuel", "resources.solid_fuel",
        "resources.monopropellant", "resources.thrust", "resources.twr",
    ];
    let calls: Vec<String> = names.iter().map(|name| format!("{name}()")).collect();
    let source = format!(
        "function on_fixed_update(dt) log.info(table.concat({{{}}}, ' ')) end",
        calls.join(", ")
    );
    let mut runtime = started(&source);
    runtime.drain_logs();
    let data = FlightTelemetry {
        ut: num(1.0),
        altitude: num(2.0),
        radar_altitude: num(3.0),
        speed: num(4.0),
        surface_speed: num(5.0),
        vertical_speed: num(6.0),
        mach: num(7.0),
        dynamic_pressure: num(8.0),
        heating: num(9.0),
        orbit: OrbitalElements {
            apoapsis: num(10.0),
            periapsis: num(11.0),
            ..Default::default()
        },
        mass: num(12.0),
        liquid_fuel: num(13.0),
        solid_fuel: num(14.0),
        monopropellant: num(15.0),
        thrust: num(16.0),
        twr: num(17.0),
    };
    runtime.tick(&data);
    let expected: Vec<String> = (1..=17).map(|n| format!("{n}.0")).collect();
    assert_eq!(runtime.drain_logs(), vec![expected.join(" ")]);
}

#[test]
fn autopilot_names() {
    for (name, mode) in [
        ("off", None),
        ("OFF", None),
        ("prograde", Some(SasMode::Prograde)),
        ("Retrograde", Some(SasMode::Retrograde)),
        ("normal", Some(SasMode::Normal)),
        ("antinormal", Some(SasMode::AntiNormal)),
        ("radial_in", Some(SasMode::RadialIn)),
        ("radial_out", Some(SasMode::RadialOut)),
        ("maneuver", Some(SasMode::Maneuver)),
        ("stability", Some(SasMode::Stability)),
        ("whatever", Some(SasMode::Stability)),
    ] {
        assert_eq!(sas_by_name(name), mode, "{name}");
    }
}

#[test]
fn hidden_globals_are_nil_in_scripts() {
    let hidden = hidden_globals();
    assert_eq!(
        hidden,
        vec!["os", "io", "package", "debug", "dofile", "loadfile", "require", "load"]
    );
    let checks: Vec<String> = hidden.iter().map(|name| format!("assert({name} == nil)")).collect();
    let mut runtime = started(&format!("function on_fixed_update() {} end", checks.join(" ")));
    runtime.tick(&telemetry(0.0));
    assert!(runtime.active, "{:?}", runtime.last_error);
    assert_eq!(api_entries().len(), 26);
}

#[test]
fn both_styles_are_refused_and_the_old_script_stays() {
    let mut runtime = started("function on_fixed_update(dt) control.set_throttle(0.5) end");
    let source = runtime.source.clone();
    let error = runtime
        .load("function main() end function on_fixed_update() end".into(), None)
        .unwrap_err();
    assert_eq!(
        error.message,
        "runtime error: define either main() or on_fixed_update(), not both"
    );
    assert_eq!(runtime.source, source);
    assert!(runtime.active);
    assert_eq!(runtime.mode, Some(ScriptMode::Callback));
    assert_eq!(runtime.tick(&telemetry(0.0)).throttle, Some(num(0.5)));
    assert!(runtime.load("not lua".into(), None).is_err());
    assert!(runtime.active);
}

#[test]
fn what_a_failed_start_asked_for_is_not_lost() {
    let mut runtime = started("function on_fixed_update(dt) end");
    assert!(runtime
        .load(
            "function on_start() control.stage() log.info('before') error('no') end".into(),
            None
        )
        .is_err());
    assert!(runtime.tick(&telemetry(0.0)).stage);
    assert_eq!(runtime.drain_logs().last().unwrap(), "before");
}

#[test]
fn a_failing_tick_stops_the_script() {
    let mut runtime = started("function on_fixed_update(dt) control.stage() error('oops') end");
    let commands = runtime.tick(&telemetry(0.0));
    assert!(commands.stage);
    assert!(!runtime.active);
    let message = runtime.last_error.clone().unwrap();
    assert!(message.contains("oops"), "{message}");
    assert_eq!(
        runtime.drain_logs().last().unwrap(),
        &format!("ERROR: {message}")
    );
    assert_eq!(runtime.tick(&telemetry(0.0)), ScriptCommands::default());
}

#[test]
fn endless_scripts_run_out_of_instructions() {
    for source in [
        "function on_fixed_update(dt) while true do end end",
        "function main() while true do end end",
    ] {
        let mut runtime = started(source);
        runtime.tick(&telemetry(0.0));
        assert!(!runtime.active, "{source}");
        let message = runtime.last_error.unwrap();
        assert!(
            message.contains("script exceeded 100,000 instructions this tick"),
            "{message}"
        );
    }
}

#[test]
fn the_budget_holds_just_so_many_instructions() {
    let mut console = Console {
        executed: 99_999,
        ..Console::default()
    };
    assert_eq!(console.charge(1), Ok(()));
    assert_eq!(console.executed, 100_000);
    assert_eq!(
        console.charge(1),
        Err("script exceeded 100,000 instructions this tick".to_string())
    );
    assert_eq!(console.executed, 100_001);
    let counting = |n: u32| {
        let source = format!("function on_fixed_update(dt) for i = 1, {n} do end end");
        let mut runtime = started(&source);
        runtime.tick(&telemetry(0.0));
        (runtime.active, runtime.executed)
    };
    let (active, executed) = counting(99_900);
    assert!(active && executed > 99_900 && executed <= 100_000, "{executed}");
    assert_eq!(counting(100_500), (false, 100_001));
}

#[test]
fn scripts_that_catch_the_refusal_are_stopped_too() {
    let forever = "while true do pcall(function() while true do end end) end";
    let twice = "while true do pcall(function() while true do pcall(error) end end) end";
    let inner = "while true do local c = coroutine.wrap(function() while true do end end) pcall(c) end";
    let tail = "return pcall(function() while true do end end)";
    for body in [forever, twice, inner, tail] {
        for head in ["function on_fixed_update(dt)", "function main()"] {
            let mut runtime = started(&format!("{head} {body} end"));
            runtime.tick(&telemetry(0.0));
            assert!(!runtime.active, "{head} {body}");
            assert!(runtime.last_error.is_some());
            let message = runtime.last_error.clone().unwrap();
            assert!(message.contains("script exceeded 100,000 instructions this tick"), "{message}");
            assert_eq!(runtime.drain_logs().pop(), Some(format!("ERROR: {message}")));
            assert_eq!(runtime.tick(&telemetry(0.0)), ScriptCommands::default());
            runtime.load(COROUTINE_EXAMPLE.into(), None).unwrap();
            assert!(runtime.active && runtime.last_error.is_none());
            assert!(runtime.tick(&telemetry(0.0)).stage);
        }
        let mut runtime = ScriptRuntime::default();
        assert!(runtime.load(body.to_string(), None).is_err(), "{body}");
        assert!(!runtime.active && runtime.lua.is_none());
    }
}

#[test]
fn nothing_that_scripts_run_escapes_the_meter() {
    let endless = "function() while true do end end";
    let late = format!("local m = {{}} local t = setmetatable({{}}, m) m.__close = {endless} m.__gc = {endless}");
    let bodies = [
        format!("xpcall({endless}, {endless})"),
        format!("xpcall(error, {endless})"),
        format!("while true do xpcall({endless}, function() xpcall({endless}, {endless}) end) end"),
        format!("local x <close> = setmetatable({{}}, {{ __close = {endless} }}) while true do end"),
        format!("{late} local x <close> = t while true do end"),
        format!("{late} pcall(function() local x <close> = t while true do end end) while true do end"),
        format!("{late} for k in next, {{1}}, nil, t do while true do end end"),
        format!("{late} coroutine.wrap(function() local x <close> = t while true do end end)()"),
        format!("{late} getmetatable(t).__close = {endless} local x <close> = t while true do end"),
        format!("getmetatable('').__close = {endless} local x <close> = '' while true do end"),
        format!("{late} t, m = nil, nil collectgarbage() while true do end"),
        format!("setmetatable({{}}, {{ __gc = {endless} }}) collectgarbage()"),
        format!("pcall(setmetatable, {{}}, {{ __gc = {endless} }}) collectgarbage() while true do end"),
    ];
    for body in bodies {
        for head in ["function on_fixed_update(dt)", "function main()"] {
            let mut runtime = started(&format!("{head} {body} end"));
            runtime.tick(&telemetry(0.0));
            assert!(!runtime.active, "{head} {body}");
            assert!(runtime.last_error.is_some(), "{head} {body}");
        }
        assert!(ScriptRuntime::default().load(body.clone(), None).is_err(), "{body}");
    }
    let kept = serde_json::from_str(r#"{"list":[1,2]}"#).unwrap();
    let body = format!(
        "function on_fixed_update(dt) getmetatable(state.list).__close = {endless} local x <close> = state.list while true do end end"
    );
    let mut runtime = ScriptRuntime::default();
    runtime.load(body, Some(kept)).unwrap();
    runtime.tick(&telemetry(0.0));
    assert!(!runtime.active && runtime.last_error.is_some());
}

#[test]
fn guarded_functions_do_what_they_did() {
    let mut runtime = started(
        "function on_fixed_update(dt)
           local ok, a, b = xpcall(function(x, y) return x + y, x end, print, 3, 4)
           log.info(tostring(ok) .. ' ' .. a .. ' ' .. b)
           local bad, said = xpcall(error, function(e) return 'caught ' .. e end, 'it')
           log.info(tostring(bad) .. ' ' .. said)
           local Point = {}
           Point.__index = Point
           function Point.new(x) return setmetatable({ x = x }, Point) end
           local p = Point.new(1)
           function Point:double() return self.x * 2 end
           function Point.__add(a, b) return Point.new(a.x + b.x) end
           local q = Point.new(2)
           log.info((p + q):double() .. ' ' .. tostring(getmetatable(p) == Point))
           log.info(tostring(getmetatable({})) .. ' ' .. tostring(getmetatable(setmetatable({}, { __metatable = 'mine' }))))
           setmetatable(p, nil)
           log.info(tostring(getmetatable(p)) .. ' ' .. ('x'):upper())
           local ok, why = pcall(setmetatable, {}, { __gc = print })
           log.info(tostring(ok) .. ' ' .. tostring(why))
         end",
    );
    runtime.drain_logs();
    runtime.tick(&telemetry(0.0));
    assert_eq!(runtime.last_error, None);
    assert_eq!(
        runtime.drain_logs(),
        [
            "true 7 3",
            "false caught it",
            "6 true",
            "nil mine",
            "nil X",
            "false finalizers and closing are not available to scripts",
        ]
        .map(String::from)
    );
}

#[test]
fn greedy_scripts_run_out_of_memory() {
    let mut runtime = ScriptRuntime::default();
    let error = runtime
        .load("state = { text = string.rep('x', 16 * 1024 * 1024) }".into(), None)
        .unwrap_err();
    assert!(error.message.contains("memory"), "{}", error.message);
}

#[test]
fn a_coroutine_that_ends_is_stopped() {
    let mut runtime = started("function main() coroutine.yield() control.set_rcs(true) end");
    assert_eq!(runtime.mode, Some(ScriptMode::Coroutine));
    assert_eq!(runtime.drain_logs(), vec!["Script started in coroutine mode".to_string()]);
    assert_eq!(runtime.tick(&telemetry(0.0)).rcs, None);
    assert_eq!(runtime.tick(&telemetry(0.0)).rcs, Some(true));
    assert!(runtime.active);
    runtime.tick(&telemetry(0.0));
    assert!(!runtime.active);
    assert_eq!(runtime.last_error, None);
}

#[test]
fn coroutines_wait_for_time_and_events() {
    let mut runtime = started(
        "function main() wait.seconds(5) control.set_warp = nil control.stage() wait.event('stage') control.deploy_parachutes() end",
    );
    let at = |ut: f64| FlightTelemetry { ut: num(ut), ..Default::default() };
    assert!(!runtime.tick(&at(0.0)).stage);
    assert!(!runtime.tick(&at(4.9)).stage);
    assert!(runtime.tick(&at(5.0)).stage);
    assert!(!runtime.tick(&at(6.0)).deploy_parachutes);
    runtime.emit_event("stage");
    assert!(runtime.tick(&at(7.0)).deploy_parachutes);
}

#[test]
fn callbacks_hear_of_events() {
    let mut runtime = started(
        "function on_event(name) if name == 'bad' then error('deaf') end control.set_sas(name) end",
    );
    runtime.emit_event("prograde");
    assert!(runtime.active);
    assert_eq!(
        runtime.tick(&telemetry(0.0)).sas,
        Some(Some(SasMode::Prograde))
    );
    runtime.emit_event("bad");
    assert!(!runtime.active);
    assert!(runtime.last_error.unwrap().contains("deaf"));
    let mut silent = ScriptRuntime::default();
    silent.emit_event("stage");
    assert!(!silent.active && silent.lua.is_none());
}

#[test]
fn restored_scripts_are_told_what_they_kept() {
    let mut runtime = ScriptRuntime::default();
    assert!(runtime.snapshot_state().is_none());
    let kept: serde_json::Value = serde_json::from_str(r#"{"phase":4}"#).unwrap();
    runtime
        .load(
            "function on_restore(kept) log.info('phase ' .. kept.phase) end".into(),
            Some(kept.clone()),
        )
        .unwrap();
    assert_eq!(runtime.drain_logs()[0], "phase 4");
    assert_eq!(runtime.snapshot_state(), Some(kept));
    runtime.load("x = 1".into(), None).unwrap();
    let empty = runtime.snapshot_state().unwrap();
    assert!(empty.as_object().map_or(true, |o| o.is_empty()));
}

#[test]
fn instruments_are_dark_before_the_first_tick() {
    let mut runtime = ScriptRuntime::default();
    assert!(runtime
        .load("function on_start() flight.altitude() end".into(), None)
        .is_err());
}

#[test]
fn stopping_is_logged_and_the_log_is_bounded() {
    let mut runtime = started("function on_fixed_update() control.stage() end");
    runtime.stop();
    assert!(!runtime.active);
    assert_eq!(runtime.drain_logs().last().unwrap(), "Automation stopped");
    assert_eq!(runtime.tick(&telemetry(0.0)), ScriptCommands::default());
    for i in 0..250 {
        runtime.push_log(format!("{i}"));
    }
    let lines = runtime.drain_logs();
    assert_eq!(lines.len(), 200);
    assert_eq!(lines[0], "50");
    assert_eq!(lines[199], "249");
}

#[test]
fn the_examples_load() {
    assert!(started(EXAMPLE_SCRIPT).active);
    assert_eq!(ScriptRuntime::default().source, EXAMPLE_SCRIPT);
    let mut coroutine = started(COROUTINE_EXAMPLE);
    let commands = coroutine.tick(&telemetry(0.0));
    assert!(commands.stage);
    assert_eq!(commands.throttle, Some(num(1.0)));
}

#[test]
fn later_wishes_win() {
    let earlier = ScriptCommands {
        throttle: Some(num(0.1)),
        stage: true,
        sas: Some(None),
        ..ScriptCommands::default()
    };
    let newer = ScriptCommands {
        throttle: Some(num(0.2)),
        rcs: Some(false),
        ..ScriptCommands::default()
    };
    let both = earlier.merge(newer);
    assert_eq!(both.throttle, Some(num(0.2)));
    assert_eq!(both.sas, Some(None));
    assert_eq!(both.rcs, Some(false));
    assert!(both.stage);
}

#[test]
fn outcomes_are_taken_over_as_they_came() {
    let mut runtime = ScriptRuntime::default();
    let console = || Console {
        commands: ScriptCommands { stage: true, ..ScriptCommands::default() },
        logs: vec!["line".to_string()],
        executed: 3_000,
    };
    let failed = Err(ScriptError { message: "broken".into() });
    let result = runtime.finish_load(mlua::Lua::new(), "source".into(), failed, console());
    assert_eq!(result.unwrap_err().message, "broken");
    assert!(!runtime.active && runtime.lua.is_none() && runtime.pending.stage);
    assert_eq!(runtime.executed, 3_000);
    runtime.load("function main() end".into(), None).unwrap();
    assert!(runtime.active && runtime.lua.is_some());
    assert_eq!(runtime.source, "function main() end");
    let commands = runtime.finish_tick(Ok(false), console());
    assert!(commands.stage && !runtime.active && !runtime.pending.stage);
    runtime.active = true;
    runtime.finish_event(Err(ScriptError { message: "deaf".into() }), console());
    assert!(!runtime.active && runtime.pending.stage);
    assert_eq!(runtime.last_error.as_deref(), Some("deaf"));
    assert_eq!(choose_mode(true, true), None);
    assert_eq!(choose_mode(true, false), Some(ScriptMode::Coroutine));
    assert_eq!(choose_mode(false, true), Some(ScriptMode::Callback));
    assert_eq!(choose_mode(false, false), Some(ScriptMode::Callback));
}

#[test]
fn state_is_kept_where_it_has_the_form_of_json() {
    let value: serde_json::Value = serde_json::from_str(r#"{"phase":4}"#).unwrap();
    assert_eq!(kept_state(Ok(value.clone())), Some(value));
    assert_eq!(kept_state(Err(mlua::Error::RuntimeError("a function".into()))), None);
    let runtime = started("state = { phase = 4 } function on_fixed_update(dt) end");
    let kept = runtime.snapshot_state().unwrap();
    assert_eq!(kept["phase"].as_i64(), Some(4));
    let runtime = started("state = { phase = print } function on_fixed_update(dt) end");
    assert!(runtime.snapshot_state().is_none());
    assert!(ScriptRuntime::default().snapshot_state().is_none());
}

#[test]
fn flight_computers_can_be_shared_between_threads() {
    fn shared<T: Send + Sync>(_: &T) {}
    shared(&ScriptRuntime::default());
}
