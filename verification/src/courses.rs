//! What is asked of a Lua machine to prepare it, to start a script, to let it run, to
//! tell it of an event, and to look at what it keeps.
use crate::mission::FlightTelemetry;
use crate::number::{law_sixtieth_is_near, Real};
use crate::runtime::{
    api, hidden_names, mode_of, readings_of, ApiCall, ApiView, MEMORY_LIMIT, METER_STEP,
    MISSION_THREAD, TELEMETRY_TABLE, TICK_LENGTH,
};
use crate::script::{Console, ScriptMode};
use crate::scripts::{GUARD_SOURCE, WAIT_SOURCE};
use crate::transcript::{
    adds, adds_reading, asked, asks_for_more, attempt, attempt_all, calls, exchanges, first,
    guarding, is_guarded, joined, lemma_astray, lemma_began, lemma_began_with, lemma_contains_on,
    lemma_ended, lemma_front, lemma_joined, lemma_never_asks, lemma_parts, lemma_step, limits,
    looks_for_function, looks_for_table, makes_machine, metering, meters, only, puts, rest, resumes,
    runs, step, takes, unless_failed, Course, Event, PutView,
};
use crate::vm::ArgumentView;
use vstd::arithmetic::power2::pow2;
use vstd::prelude::*;

verus! {

broadcast use lemma_step;

/// Asks for a function that scripts can call, in its module.
pub open spec fn adds_entry(lua: mlua::Lua, entry: ApiView) -> spec_fn(Event) -> Option<
    Result<(), mlua::Error>,
> {
    match entry.call {
        ApiCall::Read => adds_reading(lua, entry.module, entry.name, TELEMETRY_TABLE@),
        call => adds(lua, entry.module, entry.name, call),
    }
}

/// The hiding of global variables, one after another.
pub open spec fn hide_course(lua: mlua::Lua, names: Seq<Seq<char>>) -> Course<
    Result<(), mlua::Error>,
>
    decreases names.len(),
{
    if names.len() == 0 {
        Course::End(Ok(()))
    } else {
        attempt(
            puts(lua, names[0], PutView::Nil),
            |hidden: ()| hide_course(lua, names.drop_first()),
        )
    }
}

/// The filling of a module with those of the functions that belong to it.
pub open spec fn fill_course(lua: mlua::Lua, module: Seq<char>, entries: Seq<ApiView>) -> Course<
    Result<(), mlua::Error>,
>
    decreases entries.len(),
{
    if entries.len() == 0 {
        Course::End(Ok(()))
    } else if entries[0].module != module {
        fill_course(lua, module, entries.drop_first())
    } else {
        attempt(
            adds_entry(lua, entries[0]),
            |added: ()| fill_course(lua, module, entries.drop_first()),
        )
    }
}

/// The making of a module: a table under its name, and its functions in it.
pub open spec fn module_course(lua: mlua::Lua, module: Seq<char>) -> Course<
    Result<(), mlua::Error>,
> {
    attempt(puts(lua, module, PutView::Table), |made: ()| fill_course(lua, module, api()))
}

/// The names of the modules, in the order in which they are made.
pub open spec fn module_names() -> Seq<Seq<char>> {
    seq!["flight"@, "resources"@, "control"@, "nav"@, "log"@]
}

/// The making of modules, one after another.
pub open spec fn modules_course(lua: mlua::Lua, modules: Seq<Seq<char>>) -> Course<
    Result<(), mlua::Error>,
>
    decreases modules.len(),
{
    if modules.len() == 0 {
        Course::End(Ok(()))
    } else {
        attempt_all(
            module_course(lua, modules[0]),
            |made: ()| modules_course(lua, modules.drop_first()),
        )
    }
}

/// The making of the modules, and then of the ways to wait.
pub open spec fn offer_course(lua: mlua::Lua) -> Course<Result<(), mlua::Error>> {
    attempt_all(
        modules_course(lua, module_names()),
        |made: ()| only(runs(lua, WAIT_SOURCE@, "wait"@)),
    )
}

/// What keeps scripts under the meter, and then what they are offered.
pub open spec fn guard_course(lua: mlua::Lua) -> Course<Result<(), mlua::Error>> {
    attempt(runs(lua, GUARD_SOURCE@, "guard"@), |guarded: ()| offer_course(lua))
}

/// What prepares a machine for scripts: first what they do not get is hidden, then they are
/// kept under the meter, and then the modules are made and the ways to wait are defined.
pub open spec fn install_course(lua: mlua::Lua) -> Course<Result<(), mlua::Error>> {
    attempt_all(hide_course(lua, hidden_names()), |hidden: ()| guard_course(lua))
}

/// What hands a script what it kept of an earlier run, or else gives it an empty table
/// to keep things in where it has none.
pub open spec fn restore_course(lua: mlua::Lua, restored: Option<serde_json::Value>) -> Course<
    Result<(), mlua::Error>,
> {
    match restored {
        Some(state) => attempt(
            puts(lua, "state"@, PutView::Json(state)),
            |put: ()|
                attempt(
                    looks_for_function(lua, "on_restore"@),
                    |restores: bool|
                        if restores {
                            only(calls(lua, "on_restore"@, ArgumentView::Global("state"@)))
                        } else {
                            Course::End(Ok(()))
                        },
                ),
        ),
        None => attempt(
            looks_for_table(lua, "state"@),
            |found: bool|
                if found {
                    Course::End(Ok(()))
                } else {
                    only(puts(lua, "state"@, PutView::Table))
                },
        ),
    }
}

/// What sets a script going: its coroutine is made, or its start is called.
pub open spec fn start_course(lua: mlua::Lua, mode: ScriptMode) -> Course<
    Result<(), mlua::Error>,
> {
    match mode {
        ScriptMode::Coroutine => only(puts(lua, MISSION_THREAD@, PutView::Thread("main"@))),
        ScriptMode::Callback => attempt(
            looks_for_function(lua, "on_start"@),
            |starts: bool|
                if starts {
                    only(calls(lua, "on_start"@, ArgumentView::Nothing))
                } else {
                    Course::End(Ok(()))
                },
        ),
    }
}

/// What is done with a script of that kind once it was run.
pub open spec fn set_out_course(
    lua: mlua::Lua,
    restored: Option<serde_json::Value>,
    mode: ScriptMode,
) -> Course<Result<Option<ScriptMode>, mlua::Error>> {
    attempt_all(
        restore_course(lua, restored),
        |handed: ()|
            attempt_all(
                start_course(lua, mode),
                |set_going: ()| Course::End(Ok(Some(mode))),
            ),
    )
}

/// The running of a script in a machine that is prepared for it. It says how the
/// script is written, or nothing where that is both ways.
pub open spec fn script_course(
    lua: mlua::Lua,
    source: Seq<char>,
    restored: Option<serde_json::Value>,
) -> Course<Result<Option<ScriptMode>, mlua::Error>> {
    attempt(
        runs(lua, source, "vessel_script"@),
        |run: ()|
            attempt(
                looks_for_function(lua, "main"@),
                |has_main: bool|
                    attempt(
                        looks_for_function(lua, "on_fixed_update"@),
                        |has_update: bool|
                            match mode_of(has_main, has_update) {
                                Some(mode) => set_out_course(lua, restored, mode),
                                None => Course::End(Ok(None)),
                            },
                    ),
            ),
    )
}

/// The start of a script in a new machine, which is bounded and prepared before any of
/// the script runs.
pub open spec fn boot_course(
    lua: mlua::Lua,
    source: Seq<char>,
    restored: Option<serde_json::Value>,
) -> Course<Result<Option<ScriptMode>, mlua::Error>> {
    attempt(
        limits(lua, MEMORY_LIMIT),
        |limited: ()|
            attempt(
                meters(lua, METER_STEP),
                |metered: ()|
                    attempt_all(
                        install_course(lua),
                        |installed: ()| script_course(lua, source, restored),
                    ),
            ),
    )
}

/// What lets a script of that kind run for one tick. It says whether the script goes
/// on: a coroutine that has come to its end does not.
pub open spec fn go_on_course(lua: mlua::Lua, mode: Option<ScriptMode>) -> Course<
    Result<bool, mlua::Error>,
> {
    match mode {
        Some(ScriptMode::Callback) => attempt(
            looks_for_function(lua, "on_fixed_update"@),
            |updates: bool|
                if updates {
                    attempt(
                        calls(
                            lua,
                            "on_fixed_update"@,
                            ArgumentView::Number(Real::spec_of(TICK_LENGTH)),
                        ),
                        |called: ()| Course::End(Ok(true)),
                    )
                } else {
                    Course::End(Ok(true))
                },
        ),
        Some(ScriptMode::Coroutine) => attempt(
            asks_for_more(lua, MISSION_THREAD@),
            |more: bool|
                if more {
                    attempt(
                        resumes(lua, MISSION_THREAD@),
                        |resumed: ()| Course::End(Ok(true)),
                    )
                } else {
                    Course::End(Ok(false))
                },
        ),
        None => Course::End(Ok(true)),
    }
}

/// A tick of a script: it is shown the readings, all of them together, and then runs.
pub open spec fn run_course(
    lua: mlua::Lua,
    mode: Option<ScriptMode>,
    telemetry: FlightTelemetry,
) -> Course<Result<bool, mlua::Error>> {
    attempt(
        puts(lua, TELEMETRY_TABLE@, PutView::Readings(readings_of(telemetry))),
        |shown: ()| go_on_course(lua, mode),
    )
}

/// The telling of an event: the global that coroutines wait for is set, and a script
/// that is written so is called back. Only that call can fail; where the event could
/// not be set, or no callback be found, nothing more is done.
pub open spec fn event_course(lua: mlua::Lua, mode: Option<ScriptMode>, event: Seq<char>) -> Course<
    Result<(), mlua::Error>,
> {
    first(
        puts(lua, "__last_event"@, PutView::Text(event)),
        |put: Result<(), mlua::Error>|
            if put is Ok && mode == Some(ScriptMode::Callback) {
                first(
                    looks_for_function(lua, "on_event"@),
                    |hears: Result<bool, mlua::Error>|
                        if hears == Ok::<bool, mlua::Error>(true) {
                            only(calls(lua, "on_event"@, ArgumentView::Text(event)))
                        } else {
                            Course::End(Ok(()))
                        },
                )
            } else {
                Course::End(Ok(()))
            },
    )
}

/// What came of work in a machine: its result, and the console that the machine gave
/// back after it.
pub struct Work<A> {
    pub lua: mlua::Lua,
    pub came: Result<A, mlua::Error>,
    pub answer: Option<Console>,
}

/// Work in a machine on a console without wishes and lines, which is taken back after
/// it, however it ended.
pub open spec fn work_course<A>(
    lua: mlua::Lua,
    executed: usize,
    course: Course<Result<A, mlua::Error>>,
) -> Course<Work<A>> {
    first(exchanges(lua, executed), |replaced: Option<Console>| collect_course(lua, course))
}

/// Work in a machine, after which the console is taken back.
pub open spec fn collect_course<A>(
    lua: mlua::Lua,
    course: Course<Result<A, mlua::Error>>,
) -> Course<Work<A>> {
    joined(
        course,
        |came: Result<A, mlua::Error>|
            first(
                exchanges(lua, 0),
                |answer: Option<Console>| Course::End(Work { lua, came, answer }),
            ),
    )
}

/// The start of a script: the work of it in a new machine, with no instructions charged yet.
pub open spec fn load_course(source: Seq<char>, restored: Option<serde_json::Value>) -> Course<
    Work<Option<ScriptMode>>,
> {
    first(
        makes_machine(),
        |lua: mlua::Lua| work_course(lua, 0, boot_course(lua, source, restored)),
    )
}

/// A tick, with no instructions charged yet.
pub open spec fn tick_course(
    lua: mlua::Lua,
    mode: Option<ScriptMode>,
    telemetry: FlightTelemetry,
) -> Course<Work<bool>> {
    work_course(lua, 0, run_course(lua, mode, telemetry))
}

/// An event, with the instructions so far charged.
pub open spec fn tell_course(
    lua: mlua::Lua,
    mode: Option<ScriptMode>,
    event: Seq<char>,
    executed: usize,
) -> Course<Work<()>> {
    work_course(lua, executed, event_course(lua, mode, event))
}

/// Work and the taking back of the console bring a course to its end that was left
/// with just these.
pub proof fn lemma_collected<A>(
    whole: Course<Work<A>>,
    lua: mlua::Lua,
    course: Course<Result<A, mlua::Error>>,
    past: Seq<Event>,
    prepared: Seq<Event>,
    worked: Seq<Event>,
    now: Seq<Event>,
    came: Result<A, mlua::Error>,
    answer: Option<Console>,
)
    requires
        past.len() <= prepared.len(),
        rest(whole, past, prepared) == collect_course(lua, course),
        takes(course, prepared, worked, came),
        asked(exchanges(lua, 0), worked, now, answer),
    ensures
        takes(whole, past, now, Work { lua, came, answer }),
{
    lemma_joined(
        whole,
        course,
        |came: Result<A, mlua::Error>|
            first(
                exchanges(lua, 0),
                |answer: Option<Console>| Course::End(Work { lua, came, answer }),
            ),
        past,
        prepared,
        worked,
        came,
    );
}

/// What is kept of a script's state: the JSON value, where it has the form of one.
pub open spec fn what_is_kept(written: Result<serde_json::Value, mlua::Error>) -> Option<
    serde_json::Value,
> {
    match written {
        Ok(value) => Some(value),
        Err(_) => None,
    }
}

/// What a global variable was last given, as far as it was given anything.
pub open spec fn last_given(events: Seq<Event>, lua: mlua::Lua, name: Seq<char>) -> Option<PutView>
    decreases events.len(),
{
    if events.len() == 0 {
        None
    } else {
        match puts_what(events.last(), lua, name) {
            Some(value) => Some(value),
            None => last_given(events.drop_last(), lua, name),
        }
    }
}

/// What the event gave to the global variable, if it did.
pub open spec fn puts_what(event: Event, lua: mlua::Lua, name: Seq<char>) -> Option<PutView> {
    match event {
        Event::Put { lua: its_lua, name: its_name, value, answer } => if its_lua == lua && its_name
            == name && answer is Ok {
            Some(value)
        } else {
            None
        },
        _ => None,
    }
}

/// Whether the event only builds modules of those names.
pub open spec fn builds(event: Event, modules: Seq<Seq<char>>) -> bool {
    match event {
        Event::AddReading { .. } => true,
        Event::AddFunction { .. } => true,
        Event::Put { name, value, .. } => value is Table && modules.contains(name),
        _ => false,
    }
}

/// Whether all that follows upon those of `past` only builds modules of those names.
pub open spec fn build(past: Seq<Event>, now: Seq<Event>, modules: Seq<Seq<char>>) -> bool {
    &&& past.len() <= now.len()
    &&& now.take(past.len() as int) == past
    &&& forall|i: int| past.len() <= i < now.len() ==> builds(#[trigger] now[i], modules)
}

proof fn lemma_hidden(
    lua: mlua::Lua,
    names: Seq<Seq<char>>,
    past: Seq<Event>,
    now: Seq<Event>,
    name: Seq<char>,
)
    requires
        takes(hide_course(lua, names), past, now, Ok(())),
    ensures
        names.contains(name) || last_given(past, lua, name) == Some(PutView::Nil) ==> last_given(
            now,
            lua,
            name,
        ) == Some(PutView::Nil),
    decreases names.len(),
{
    if names.len() > 0 {
        let onward = |hidden: ()| hide_course(lua, names.drop_first());
        let event = lemma_attempt_ok(puts(lua, names[0], PutView::Nil), onward, past, now, ());
        lemma_hidden(lua, names.drop_first(), past.push(event), now, name);
        assert(past.push(event).drop_last() =~= past);
        if names.contains(name) && names[0] != name {
            let k = choose|k: int| 0 <= k < names.len() && names[k] == name;
            assert(names.drop_first()[k - 1] == name);
        }
    } else {
        lemma_ended(Ok::<(), mlua::Error>(()), past, now, Ok(()));
    }
}

/// An attempt that did not fail was answered, and the rest followed upon the answer.
proof fn lemma_attempt_ok<T>(
    question: spec_fn(Event) -> Option<Result<(), mlua::Error>>,
    onward: spec_fn(()) -> Course<Result<T, mlua::Error>>,
    past: Seq<Event>,
    now: Seq<Event>,
    r: T,
) -> (event: Event)
    requires
        takes(attempt(question, onward), past, now, Ok(r)),
    ensures
        past.len() < now.len(),
        event == now[past.len() as int],
        question(event) == Some(Ok::<(), mlua::Error>(())),
        takes(onward(()), past.push(event), now, Ok(r)),
{
    let course = attempt(question, onward);
    let event = now[past.len() as int];
    lemma_began(course, past, now);
    let asked = course->Ask_0;
    lemma_front(asked, past, now);
    match question(event) {
        Some(Ok(())) => {},
        Some(Err(error)) => {
            lemma_ended(Err::<T, mlua::Error>(error), past.push(event), now, Ok(r));
        },
        None => {
            lemma_astray::<Result<T, mlua::Error>>(past.push(event), now);
        },
    }
    event
}

proof fn lemma_fills(
    lua: mlua::Lua,
    module: Seq<char>,
    entries: Seq<ApiView>,
    past: Seq<Event>,
    now: Seq<Event>,
    modules: Seq<Seq<char>>,
)
    requires
        takes(fill_course(lua, module, entries), past, now, Ok(())),
    ensures
        build(past, now, modules),
    decreases entries.len(),
{
    if entries.len() == 0 {
        lemma_ended(Ok::<(), mlua::Error>(()), past, now, Ok(()));
        assert(now.take(past.len() as int) =~= past);
    } else if entries[0].module != module {
        lemma_fills(lua, module, entries.drop_first(), past, now, modules);
    } else {
        let onward = |added: ()| fill_course(lua, module, entries.drop_first());
        let event = lemma_attempt_ok(adds_entry(lua, entries[0]), onward, past, now, ());
        lemma_fills(lua, module, entries.drop_first(), past.push(event), now, modules);
        lemma_began_with(fill_course(lua, module, entries), past, now);
        assert forall|i: int| past.len() <= i < now.len() implies builds(
            #[trigger] now[i],
            modules,
        ) by {
            if i == past.len() {
                assert(builds(event, modules));
            }
        }
    }
}

proof fn lemma_modules(
    lua: mlua::Lua,
    modules: Seq<Seq<char>>,
    all: Seq<Seq<char>>,
    past: Seq<Event>,
    now: Seq<Event>,
)
    requires
        takes(modules_course(lua, modules), past, now, Ok(())),
        forall|k: int| 0 <= k < modules.len() ==> all.contains(#[trigger] modules[k]),
    ensures
        build(past, now, all),
        forall|k: int|
            0 <= k < modules.len() ==> last_given(now, lua, #[trigger] modules[k]) == Some(
                PutView::Table,
            ),
    decreases modules.len(),
{
    if modules.len() == 0 {
        lemma_ended(Ok::<(), mlua::Error>(()), past, now, Ok(()));
        assert(now.take(past.len() as int) =~= past);
    } else {
        let upon = |result: Result<(), mlua::Error>|
            unless_failed(result, |made: ()| modules_course(lua, modules.drop_first()));
        let end = lemma_parts(module_course(lua, modules[0]), upon, past, now, Ok(()));
        let middle = end.0;
        if end.1 is Err {
            lemma_ended(Err::<(), mlua::Error>(end.1->Err_0), middle, now, Ok(()));
        }
        let onward = |made: ()| fill_course(lua, modules[0], api());
        let event = lemma_attempt_ok(
            puts(lua, modules[0], PutView::Table),
            onward,
            past,
            middle,
            (),
        );
        let made = past.push(event);
        lemma_fills(lua, modules[0], api(), made, middle, all);
        lemma_modules(lua, modules.drop_first(), all, middle, now);
        lemma_began_with(module_course(lua, modules[0]), past, middle);
        assert(now.take(past.len() as int) =~= middle.take(past.len() as int));
        assert forall|i: int| past.len() <= i < now.len() implies builds(#[trigger] now[i], all) by {
            if i < middle.len() {
                assert(now[i] == now.take(middle.len() as int)[i]);
                if i > past.len() {
                    assert(builds(middle[i], all));
                }
            }
        }
        assert(made.drop_last() =~= past);
        assert(last_given(made, lua, modules[0]) == Some(PutView::Table));
        lemma_still_table(lua, modules[0], all, made, middle);
        lemma_still_table(lua, modules[0], all, middle, now);
        assert forall|k: int| 0 <= k < modules.len() implies last_given(
            now,
            lua,
            #[trigger] modules[k],
        ) == Some(PutView::Table) by {
            if k > 0 {
                assert(modules.drop_first()[k - 1] == modules[k]);
            }
        }
    }
}

proof fn lemma_still_table(
    lua: mlua::Lua,
    name: Seq<char>,
    modules: Seq<Seq<char>>,
    past: Seq<Event>,
    now: Seq<Event>,
)
    requires
        build(past, now, modules),
        last_given(past, lua, name) == Some(PutView::Table),
    ensures
        last_given(now, lua, name) == Some(PutView::Table),
    decreases now.len(),
{
    if now.len() > past.len() {
        assert(now.drop_last().take(past.len() as int) =~= now.take(past.len() as int));
        assert(builds(now[now.len() - 1], modules));
        lemma_still_table(lua, name, modules, past, now.drop_last());
    } else {
        assert(now.take(past.len() as int) =~= now);
    }
}

proof fn lemma_still_hidden(
    lua: mlua::Lua,
    name: Seq<char>,
    modules: Seq<Seq<char>>,
    past: Seq<Event>,
    now: Seq<Event>,
)
    requires
        build(past, now, modules),
        !modules.contains(name),
    ensures
        last_given(now, lua, name) == last_given(past, lua, name),
    decreases now.len(),
{
    if now.len() > past.len() {
        assert(now.drop_last().take(past.len() as int) =~= now.take(past.len() as int));
        assert(builds(now[now.len() - 1], modules));
        lemma_still_hidden(lua, name, modules, past, now.drop_last());
    } else {
        assert(now.take(past.len() as int) =~= now);
    }
}

/// Once a machine is prepared for scripts, each global variable that they do not get was
/// last given nothing, each module was last given a table, what keeps scripts under the
/// meter was run, and the ways to wait were defined last of all, without a failure.
pub proof fn law_prepared_machines_are_confined(
    lua: mlua::Lua,
    past: Seq<Event>,
    now: Seq<Event>,
)
    requires
        takes(install_course(lua), past, now, Ok(())),
    ensures
        forall|k: int|
            0 <= k < hidden_names().len() ==> last_given(now, lua, #[trigger] hidden_names()[k])
                == Some(PutView::Nil),
        forall|k: int|
            0 <= k < module_names().len() ==> last_given(now, lua, #[trigger] module_names()[k])
                == Some(PutView::Table),
        now.contains(guarding(lua)),
        past.contains(metering(lua)) ==> is_guarded(now, lua),
        now.len() > past.len(),
        now.last() == (Event::Run {
            lua,
            source: WAIT_SOURCE@,
            name: "wait"@,
            answer: Ok::<(), mlua::Error>(()),
        }),
{
    let modules = module_names();
    let guard = |result: Result<(), mlua::Error>|
        unless_failed(result, |hidden: ()| guard_course(lua));
    let hiding = lemma_parts(hide_course(lua, hidden_names()), guard, past, now, Ok(()));
    if hiding.1 is Err {
        lemma_ended(Err::<(), mlua::Error>(hiding.1->Err_0), hiding.0, now, Ok(()));
    }
    let offer = |guarded: ()| offer_course(lua);
    let guarded = lemma_attempt_ok(
        runs(lua, GUARD_SOURCE@, "guard"@),
        offer,
        hiding.0,
        now,
        (),
    );
    assert(guarded == guarding(lua));
    let kept = hiding.0.push(guarded);
    let wait = runs(lua, WAIT_SOURCE@, "wait"@);
    let define = |result: Result<(), mlua::Error>| unless_failed(result, |made: ()| only(wait));
    let making = lemma_parts(modules_course(lua, modules), define, kept, now, Ok(()));
    let built = making.0;
    if making.1 is Err {
        lemma_ended(Err::<(), mlua::Error>(making.1->Err_0), built, now, Ok(()));
    }
    lemma_modules(lua, modules, modules, kept, built);
    lemma_began_with(hide_course(lua, hidden_names()), past, hiding.0);
    lemma_only(wait, built, now, Ok(()));
    assert(now.drop_last() =~= built);
    lemma_names_differ();
    assert forall|k: int| 0 <= k < hidden_names().len() implies last_given(
        now,
        lua,
        #[trigger] hidden_names()[k],
    ) == Some(PutView::Nil) by {
        lemma_hidden(lua, hidden_names(), past, hiding.0, hidden_names()[k]);
        assert(kept.drop_last() =~= hiding.0);
        lemma_still_hidden(lua, hidden_names()[k], modules, kept, built);
    }
    assert(kept[hiding.0.len() as int] == guarded);
    lemma_contains_on(offer_course(lua), kept, now, guarding(lua));
    if past.contains(metering(lua)) {
        lemma_contains_on(install_course(lua), past, now, metering(lua));
    }
}

/// A course of one request is one event.
proof fn lemma_only<A>(
    question: spec_fn(Event) -> Option<A>,
    past: Seq<Event>,
    now: Seq<Event>,
    r: A,
)
    requires
        takes(only(question), past, now, r),
    ensures
        now == past.push(now.last()),
        question(now.last()) == Some(r),
{
    lemma_began_with(only(question), past, now);
    let asked = only(question)->Ask_0;
    let event = now[past.len() as int];
    lemma_front(asked, past, now);
    if now.len() > past.len() + 1 {
        lemma_never_asks(asked(event), past.push(event), now.drop_last());
    }
    assert(now =~= past.push(event));
}

/// No module has the name of a global variable that is hidden.
proof fn lemma_names_differ()
    ensures
        forall|k: int|
            0 <= k < hidden_names().len() ==> !module_names().contains(
                #[trigger] hidden_names()[k],
            ),
{
    reveal_strlit("os");
    reveal_strlit("io");
    reveal_strlit("package");
    reveal_strlit("debug");
    reveal_strlit("dofile");
    reveal_strlit("loadfile");
    reveal_strlit("require");
    reveal_strlit("load");
    reveal_strlit("flight");
    reveal_strlit("resources");
    reveal_strlit("control");
    reveal_strlit("nav");
    reveal_strlit("log");
    assert forall|k: int| 0 <= k < hidden_names().len() implies !module_names().contains(
        #[trigger] hidden_names()[k],
    ) by {
        let name = hidden_names()[k];
        assert(name.len() == 2 || name.len() == 4 || name.len() == 5 || name.len() == 8 || name[0]
            == 'p' || name[0] == 'd' || name[0] == 'r' && name.len() == 7);
        assert forall|m: int| 0 <= m < module_names().len() implies module_names()[m] != name by {
            let module = module_names()[m];
            assert(module.len() == 3 || module.len() == 9 || module.len() == 6 && module[0] == 'f'
                || module.len() == 7 && module[0] == 'c');
        }
    }
}

/// A script that was started ran only after the memory and the instructions of its
/// machine were bounded and the machine was prepared, with all of it under the meter.
pub proof fn law_scripts_run_confined(
    lua: mlua::Lua,
    source: Seq<char>,
    restored: Option<serde_json::Value>,
    past: Seq<Event>,
    now: Seq<Event>,
    mode: Option<ScriptMode>,
)
    requires
        takes(boot_course(lua, source, restored), past, now, Ok(mode)),
    ensures
        exists|prepared: Seq<Event>|
            {
                &&& #[trigger] takes(
                    install_course(lua),
                    bounded(past, lua),
                    prepared,
                    Ok::<(), mlua::Error>(()),
                )
                &&& is_guarded(prepared, lua)
                &&& prepared.len() < now.len()
                &&& now.take(prepared.len() as int) == prepared
                &&& now[prepared.len() as int] == (Event::Run {
                    lua,
                    source,
                    name: "vessel_script"@,
                    answer: Ok::<(), mlua::Error>(()),
                })
            },
{
    let script = |installed: ()| script_course(lua, source, restored);
    let install = |metered: ()| attempt_all(install_course(lua), script);
    let meter = |limited: ()| attempt(meters(lua, METER_STEP), install);
    let limited = lemma_attempt_ok(limits(lua, MEMORY_LIMIT), meter, past, now, mode);
    let metered = lemma_attempt_ok(
        meters(lua, METER_STEP),
        install,
        past.push(limited),
        now,
        mode,
    );
    let begun = past.push(limited).push(metered);
    assert(begun =~= bounded(past, lua));
    let upon = |result: Result<(), mlua::Error>| unless_failed(result, script);
    let end = lemma_parts(install_course(lua), upon, begun, now, Ok(mode));
    if end.1 is Err {
        let failed = Err::<Option<ScriptMode>, mlua::Error>(end.1->Err_0);
        lemma_ended(failed, end.0, now, Ok(mode));
    }
    let look = |run: ()|
        attempt(
            looks_for_function(lua, "main"@),
            |has_main: bool|
                attempt(
                    looks_for_function(lua, "on_fixed_update"@),
                    |has_update: bool|
                        match mode_of(has_main, has_update) {
                            Some(mode) => set_out_course(lua, restored, mode),
                            None => Course::End(Ok(None)),
                        },
                ),
        );
    let run = lemma_attempt_ok(runs(lua, source, "vessel_script"@), look, end.0, now, mode);
    assert(begun[past.len() + 1int] == metering(lua));
    law_prepared_machines_are_confined(lua, begun, end.0);
    lemma_began_with(script_course(lua, source, restored), end.0, now);
}

/// The events of a machine whose memory and instructions were bounded.
pub open spec fn bounded(past: Seq<Event>, lua: mlua::Lua) -> Seq<Event> {
    past.push(
        Event::LimitMemory { lua, bytes: MEMORY_LIMIT, answer: Ok::<(), mlua::Error>(()) },
    ).push(Event::Meter { lua, every: METER_STEP, answer: Ok::<(), mlua::Error>(()) })
}

proof fn lemma_three_steps<T>(course: Course<T>, past: Seq<Event>, a: Event, b: Event, c: Event)
    ensures
        rest(course, past, past.push(a)) == step(course, a),
        rest(course, past, past.push(a).push(b)) == step(step(course, a), b),
        rest(course, past, past.push(a).push(b).push(c)) == step(step(step(course, a), b), c),
{
    let one = past.push(a);
    let two = one.push(b);
    let three = two.push(c);
    assert(one.drop_last() =~= past);
    assert(two.drop_last() =~= one);
    assert(three.drop_last() =~= two);
    assert(rest(course, past, past) == course);
}

/// A tick of a script with an update function hands it the readings of the instruments, looks
/// for the function and calls it with the length of a tick, a sixtieth of a second; it goes on
/// where the call did not fail.
pub proof fn law_update_is_called_with_fresh_readings(
    lua: mlua::Lua,
    telemetry: FlightTelemetry,
    past: Seq<Event>,
    a: Event,
    b: Event,
    c: Event,
    r: Result<bool, mlua::Error>,
)
    requires
        takes(
            run_course(lua, Some(ScriptMode::Callback), telemetry),
            past,
            past.push(a).push(b).push(c),
            r,
        ),
    ensures
        a == (Event::Put {
            lua,
            name: "__telemetry"@,
            value: PutView::Readings(readings_of(telemetry)),
            answer: Ok::<(), mlua::Error>(()),
        }),
        b == (Event::HasFunction {
            lua,
            name: "on_fixed_update"@,
            answer: Ok::<bool, mlua::Error>(true),
        }),
        c is Call && c->Call_lua == lua && c->Call_name == "on_fixed_update"@
            && c->argument is Number,
        c->argument->Number_0.value() * 60 < pow2(1074),
        (c->argument->Number_0.value() + pow2(1016)) * 60 > pow2(1074),
        r is Ok <==> c->Call_answer is Ok,
        r is Ok ==> r->Ok_0,
{
    lemma_three_steps(
        run_course(lua, Some(ScriptMode::Callback), telemetry),
        past,
        a,
        b,
        c,
    );
    law_sixtieth_is_near();
}

/// A tick of a script that is a coroutine hands it the readings, asks whether it goes on, and
/// resumes it.
pub proof fn law_coroutines_are_resumed(
    lua: mlua::Lua,
    telemetry: FlightTelemetry,
    past: Seq<Event>,
    a: Event,
    b: Event,
    c: Event,
    r: Result<bool, mlua::Error>,
)
    requires
        takes(
            run_course(lua, Some(ScriptMode::Coroutine), telemetry),
            past,
            past.push(a).push(b).push(c),
            r,
        ),
    ensures
        a is Put && a->Put_name == "__telemetry"@ && a->value == PutView::Readings(
            readings_of(telemetry),
        ),
        b == (Event::CanResume {
            lua,
            name: "__mission_thread"@,
            answer: Ok::<bool, mlua::Error>(true),
        }),
        c is Resume && c->Resume_lua == lua && c->Resume_name == "__mission_thread"@,
        r is Ok <==> c->Resume_answer is Ok,
        r is Ok ==> r->Ok_0,
{
    lemma_three_steps(
        run_course(lua, Some(ScriptMode::Coroutine), telemetry),
        past,
        a,
        b,
        c,
    );
}

/// A coroutine at its end ends the script.
pub proof fn law_finished_coroutines_end_the_script(
    lua: mlua::Lua,
    telemetry: FlightTelemetry,
    past: Seq<Event>,
    a: Event,
    b: Event,
    r: Result<bool, mlua::Error>,
)
    requires
        takes(
            run_course(lua, Some(ScriptMode::Coroutine), telemetry),
            past,
            past.push(a).push(b),
            r,
        ),
    ensures
        b is CanResume && b->CanResume_name == "__mission_thread"@,
        r is Ok ==> !r->Ok_0 && b->CanResume_answer == Ok::<bool, mlua::Error>(false),
{
    lemma_three_steps(
        run_course(lua, Some(ScriptMode::Coroutine), telemetry),
        past,
        a,
        b,
        b,
    );
}

/// An event is left where waiting scripts find it and told to a script with a function for
/// events.
pub proof fn law_events_are_told(
    lua: mlua::Lua,
    event: Seq<char>,
    past: Seq<Event>,
    a: Event,
    b: Event,
    c: Event,
    r: Result<(), mlua::Error>,
)
    requires
        takes(
            event_course(lua, Some(ScriptMode::Callback), event),
            past,
            past.push(a).push(b).push(c),
            r,
        ),
    ensures
        a is Put && a->Put_lua == lua && a->Put_name == "__last_event"@ && a->value
            == PutView::Text(event),
        b is HasFunction && b->HasFunction_name == "on_event"@ && b->HasFunction_answer == Ok::<
            bool,
            mlua::Error,
        >(true),
        c is Call && c->Call_lua == lua && c->Call_name == "on_event"@ && c->argument
            == ArgumentView::Text(event),
        r == c->Call_answer,
{
    lemma_three_steps(
        event_course(lua, Some(ScriptMode::Callback), event),
        past,
        a,
        b,
        c,
    );
}

/// A script that is written as a coroutine only finds the event.
pub proof fn law_coroutines_find_events(
    lua: mlua::Lua,
    event: Seq<char>,
    past: Seq<Event>,
    a: Event,
    r: Result<(), mlua::Error>,
)
    requires
        takes(
            event_course(lua, Some(ScriptMode::Coroutine), event),
            past,
            past.push(a),
            r,
        ),
    ensures
        a is Put && a->Put_lua == lua && a->Put_name == "__last_event"@ && a->value
            == PutView::Text(event),
        r is Ok,
{
    lemma_three_steps(event_course(lua, Some(ScriptMode::Coroutine), event), past, a, a, a);
}

/// What a script kept of an earlier run is put back before it is told of it.
pub proof fn law_kept_state_is_handed_back(
    lua: mlua::Lua,
    state: serde_json::Value,
    past: Seq<Event>,
    a: Event,
    b: Event,
    c: Event,
    r: Result<(), mlua::Error>,
)
    requires
        takes(
            restore_course(lua, Some(state)),
            past,
            past.push(a).push(b).push(c),
            r,
        ),
    ensures
        a is Put && a->Put_lua == lua && a->Put_name == "state"@ && a->value == PutView::Json(
            state,
        ) && a->Put_answer is Ok,
        b is HasFunction && b->HasFunction_name == "on_restore"@ && b->HasFunction_answer == Ok::<
            bool,
            mlua::Error,
        >(true),
        c is Call && c->Call_lua == lua && c->Call_name == "on_restore"@ && c->argument
            == ArgumentView::Global("state"@),
        r == c->Call_answer,
{
    lemma_three_steps(restore_course(lua, Some(state)), past, a, b, c);
}

/// A script without an earlier run gets an empty state where it made none.
pub proof fn law_fresh_scripts_get_an_empty_state(
    lua: mlua::Lua,
    past: Seq<Event>,
    a: Event,
    b: Event,
    r: Result<(), mlua::Error>,
)
    requires
        takes(restore_course(lua, None), past, past.push(a).push(b), r),
    ensures
        a is HasTable && a->HasTable_name == "state"@ && a->HasTable_answer == Ok::<
            bool,
            mlua::Error,
        >(false),
        b is Put && b->Put_lua == lua && b->Put_name == "state"@ && b->value is Table,
        r == b->Put_answer,
{
    lemma_three_steps(restore_course(lua, None), past, a, b, b);
}

/// A script of callbacks is started by its own start function, and a coroutine by making a
/// thread of its main function.
pub proof fn law_scripts_are_started_their_way(
    lua: mlua::Lua,
    past: Seq<Event>,
    a: Event,
    b: Event,
    c: Event,
    r: Result<(), mlua::Error>,
    s: Result<(), mlua::Error>,
)
    requires
        takes(start_course(lua, ScriptMode::Callback), past, past.push(a).push(b), r),
        takes(start_course(lua, ScriptMode::Coroutine), past, past.push(c), s),
    ensures
        a is HasFunction && a->HasFunction_name == "on_start"@ && a->HasFunction_answer == Ok::<
            bool,
            mlua::Error,
        >(true),
        b is Call && b->Call_lua == lua && b->Call_name == "on_start"@ && b->argument is Nothing,
        r == b->Call_answer,
        c is Put && c->Put_lua == lua && c->Put_name == "__mission_thread"@ && c->value
            == PutView::Thread("main"@),
        s == c->Put_answer,
{
    lemma_three_steps(start_course(lua, ScriptMode::Callback), past, a, b, b);
    lemma_three_steps(start_course(lua, ScriptMode::Coroutine), past, c, c, c);
}

/// A script that has both a main and an update function is run and then refused.
pub proof fn law_scripts_of_both_styles_are_refused(
    lua: mlua::Lua,
    source: Seq<char>,
    restored: Option<serde_json::Value>,
    past: Seq<Event>,
    a: Event,
    b: Event,
    c: Event,
    r: Result<Option<ScriptMode>, mlua::Error>,
)
    requires
        takes(script_course(lua, source, restored), past, past.push(a).push(b).push(c), r),
        c is HasFunction && c->HasFunction_answer == Ok::<bool, mlua::Error>(true),
        b->HasFunction_answer == Ok::<bool, mlua::Error>(true),
    ensures
        a is Run && a->Run_lua == lua && a->source == source && a->Run_name == "vessel_script"@,
        b is HasFunction && b->HasFunction_name == "main"@,
        c->HasFunction_name == "on_fixed_update"@,
        r == Ok::<Option<ScriptMode>, mlua::Error>(None),
{
    lemma_three_steps(script_course(lua, source, restored), past, a, b, c);
}

/// Before anything else a machine is bounded to eight mebibytes and metered at every
/// instruction.
pub proof fn law_machines_are_bounded_first(
    lua: mlua::Lua,
    source: Seq<char>,
    restored: Option<serde_json::Value>,
    past: Seq<Event>,
    a: Event,
    b: Event,
    now: Seq<Event>,
)
    requires
        now == past.push(a).push(b),
        !(rest(boot_course(lua, source, restored), past, now) is Astray),
    ensures
        a is LimitMemory && a->LimitMemory_lua == lua && a->bytes == 8 * 1024 * 1024,
        b is Meter && b->Meter_lua == lua && b->every == 1,
{
    lemma_three_steps(boot_course(lua, source, restored), past, a, b, b);
}

} // verus!
