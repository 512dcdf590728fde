//! Scripts that come with the game.
use vstd::prelude::*;

verus! {

/// A flight to orbit, written as callbacks.
pub const EXAMPLE_SCRIPT: &'static str = r#"-- Crabby Space Institute: orbit insertion (callback style)
state = state or { phase = 0, boosters_dropped = false, throttle = 1.0 }

local function regulate_twr(target)
  state.throttle = state.throttle or 1.0
  local current = resources.twr()
  if current > 0.1 then
    state.throttle = math.max(0.2, math.min(1.0, state.throttle * target / current))
    control.set_throttle(state.throttle)
  end
end

function on_start()
  control.set_throttle(1.0)
  control.set_sas("stability")
  control.stage()
  log.info("Ignition. Beginning automated gravity turn.")
end

function on_restore(restored)
  state.throttle = state.throttle or 1.0
end

function on_fixed_update(dt)
  state.throttle = state.throttle or 1.0
  if state.phase < 3 then
    regulate_twr(3.2)
  elseif state.phase == 4 then
    regulate_twr(3.0)
  end

  if not state.boosters_dropped and (resources.solid_fuel() < 5 or flight.apoapsis() > 90000) then
    control.stage()
    state.boosters_dropped = true
    log.info("Radial boosters clear")
  end

  if state.phase == 0 and flight.altitude() > 1200 then
    control.set_sas("off")
    control.set_rotation(0.15, 0.0, 0.0)
    state.phase = 1
  elseif state.phase == 1 and flight.altitude() > 7000 then
    control.set_rotation(0.0, 0.0, 0.0)
    control.set_sas("prograde")
    state.phase = 2
  elseif state.phase == 2 and state.boosters_dropped and flight.apoapsis() > 90000 then
    control.set_throttle(0.0)
    state.phase = 3
    log.info("Coasting to apoapsis")
  elseif state.phase == 3 and flight.altitude() > 70000 and flight.vertical_speed() < 120 then
    control.stage()
    control.set_sas("prograde")
    state.throttle = 1.0
    control.set_throttle(1.0)
    state.phase = 4
    log.info("Upper-stage circularization burn")
  elseif state.phase == 4 and flight.periapsis() > 76000 then
    control.set_throttle(0.0)
    state.phase = 5
    log.info("Orbit established")
  end
end
"#;

/// A flight to orbit, written as a coroutine.
pub const COROUTINE_EXAMPLE: &'static str = r#"-- Coroutine style: yields while conditions are false.
state = state or { launches = 0 }

function main()
  state.launches = state.launches + 1
  control.set_throttle(1.0)
  control.set_sas("stability")
  control.stage()
  wait.until_condition(function() return flight.altitude() > 1200 end)
  control.set_sas("off")
  control.set_rotation(0.15, 0.0, 0.0)
  wait.until_condition(function() return flight.altitude() > 7000 end)
  control.set_rotation(0.0, 0.0, 0.0)
  control.set_sas("prograde")
  wait.until_condition(function() return resources.solid_fuel() < 5 or flight.apoapsis() > 90000 end)
  control.stage()
  wait.until_condition(function() return flight.apoapsis() > 90000 end)
  control.set_throttle(0.0)
  log.info("Target apoapsis reached")
end
"#;

/// What keeps all that scripts run under the meter. Lua runs no hook inside handlers of
/// errors, finalizers, and, where a hook fails, the closing of variables. So a handler is
/// called once the error was caught, and no value gets a metatable that finalizes or closes
/// it: what a value gets is a copy, which scripts cannot reach, and which follows its
/// pattern whenever that is set again.
pub const GUARD_SOURCE: &'static str = r#"
            local call, fail, kind, raw = pcall, error, type, rawget
            local attach, look = setmetatable, getmetatable
            local function settle(handler, ok, ...)
              if ok then return ok, ... end
              local _, answer = call(handler, ...)
              return false, answer
            end
            function xpcall(action, handler, ...)
              return settle(handler, call(action, ...))
            end
            local names = {
              "__index", "__newindex", "__call", "__tostring", "__name", "__metatable", "__mode",
              "__pairs", "__len", "__concat", "__eq", "__lt", "__le", "__unm", "__add", "__sub",
              "__mul", "__div", "__idiv", "__mod", "__pow", "__band", "__bor", "__bxor", "__bnot",
              "__shl", "__shr",
            }
            local copies, patterns = attach({}, { __mode = "k" }), attach({}, { __mode = "k" })
            function setmetatable(value, pattern)
              if kind(pattern) ~= "table" then return attach(value, pattern) end
              if raw(pattern, "__gc") ~= nil or raw(pattern, "__close") ~= nil then
                fail("finalizers and closing are not available to scripts", 2)
              end
              local copy = copies[pattern]
              if not copy then
                copy = {}
                copies[pattern], patterns[copy] = copy, pattern
              end
              for i = 1, #names do copy[names[i]] = raw(pattern, names[i]) end
              return attach(value, copy)
            end
            function getmetatable(value)
              local found = look(value)
              if found == nil then return nil end
              return patterns[found] or found
            end
            look("").__metatable = false
"#;

/// The functions with which coroutines wait.
pub const WAIT_SOURCE: &'static str = r#"
            wait = {}
            function wait.seconds(seconds)
              local target = flight.time() + seconds
              while flight.time() < target do coroutine.yield() end
            end
            function wait.until_condition(predicate)
              while not predicate() do coroutine.yield() end
            end
            function wait.event(name)
              while __last_event ~= name do coroutine.yield() end
              __last_event = nil
            end
"#;

} // verus!
