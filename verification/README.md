# Crabby Space

The rules of a spaceflight sandbox as a Verus library: craft are assembled from parts,
launched, staged, flown by hand or by Lua scripts, and brought home.

- `src/` is the library. Its functions state what they do, and Verus proves it.
  `number` carries floating-point numbers by their bit patterns. `parts`, `craft`,
  `editor`, `stats` and `actions` are about designs; `vessel`, `fuel`, `burn`, `staging`,
  `interval`, `delta_v`, `flight`, `step`, `orbit`, `reach`, `rails`, `coast`, `mission` and
  `control` about flight; `script`, `scripts`, `vm`, `transcript`, `courses` and `runtime`
  about the flight computer, with every request to its Lua machine on record; `session` and
  `tick` about what begins, ends and moves a flight; `save`, `json` and `debug_state` about
  what leaves the game; `navball` and `scene` about what is drawn; `text`, `lineage` and
  `search` serve them. Functions that are named `law_` state what holds of the library as a
  whole.
- `tests/` runs the library, up to a scripted flight to orbit.
- `app/` is the game round it: Bevy and egui, the equations of motion in floating point,
  files, and a local server for debuggers. Start it and fly the stock craft with W/S, A/D
  and Q/E, Shift and Ctrl for the throttle, and Space for the next stage.

Scripts run in a Lua machine of their own, without files, modules or the debugger, with
8 MiB of memory and 100,000 instructions in a tick, where a call into Lua's own library
counts as one. They set no finalizers: `setmetatable` takes no `__gc` and no `__close`.
