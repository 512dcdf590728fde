//! What can be asked of a Lua machine, with the answer, and the courses that an exchange
//! with one may take.
use crate::runtime::{ApiCall, ReadingView, METER_STEP};
use crate::script::{Console, ScriptCommands};
use crate::scripts::GUARD_SOURCE;
use crate::vm::ArgumentView;
use vstd::prelude::*;

verus! {

/// What a global variable is given.
pub enum PutView {
    Nil,
    Text(Seq<char>),
    Json(serde_json::Value),
    /// A new, empty table.
    Table,
    /// A new table with readings under their names.
    Readings(Seq<ReadingView>),
    /// A new coroutine of the global function of that name.
    Thread(Seq<char>),
}

/// One request to a Lua machine, with everything that it hands over, and the answer.
pub enum Event {
    NewMachine { answer: mlua::Lua },
    LimitMemory { lua: mlua::Lua, bytes: usize, answer: Result<(), mlua::Error> },
    Meter { lua: mlua::Lua, every: u32, answer: Result<(), mlua::Error> },
    Console { lua: mlua::Lua, given: Console, answer: Option<Console> },
    /// A global variable is given something.
    Put {
        lua: mlua::Lua,
        name: Seq<char>,
        value: PutView,
        answer: Result<(), mlua::Error>,
    },
    /// A function that reads a number out of a global table is put into a module.
    AddReading {
        lua: mlua::Lua,
        module: Seq<char>,
        name: Seq<char>,
        table: Seq<char>,
        answer: Result<(), mlua::Error>,
    },
    /// A function that asks something of the console is put into a module.
    AddFunction {
        lua: mlua::Lua,
        module: Seq<char>,
        name: Seq<char>,
        call: ApiCall,
        answer: Result<(), mlua::Error>,
    },
    HasFunction { lua: mlua::Lua, name: Seq<char>, answer: Result<bool, mlua::Error> },
    HasTable { lua: mlua::Lua, name: Seq<char>, answer: Result<bool, mlua::Error> },
    Run {
        lua: mlua::Lua,
        source: Seq<char>,
        name: Seq<char>,
        answer: Result<(), mlua::Error>,
    },
    Call {
        lua: mlua::Lua,
        name: Seq<char>,
        argument: ArgumentView,
        answer: Result<(), mlua::Error>,
    },
    CanResume { lua: mlua::Lua, name: Seq<char>, answer: Result<bool, mlua::Error> },
    Resume { lua: mlua::Lua, name: Seq<char>, answer: Result<(), mlua::Error> },
}

/// The metering of a machine, without a failure.
pub open spec fn metering(lua: mlua::Lua) -> Event {
    Event::Meter { lua, every: METER_STEP, answer: Ok::<(), mlua::Error>(()) }
}

/// The running of what keeps scripts under the meter, without a failure.
pub open spec fn guarding(lua: mlua::Lua) -> Event {
    Event::Run {
        lua,
        source: GUARD_SOURCE@,
        name: "guard"@,
        answer: Ok::<(), mlua::Error>(()),
    }
}

/// Whether all that scripts run in the machine is under a meter of every instruction.
pub open spec fn is_guarded(events: Seq<Event>, lua: mlua::Lua) -> bool {
    events.contains(metering(lua)) && events.contains(guarding(lua))
}

/// What has happened has happened still after one event more.
pub broadcast proof fn lemma_still_contains(events: Seq<Event>, event: Event, more: Event)
    requires
        events.contains(event),
    ensures
        #[trigger] events.push(more).contains(event),
{
    let k = choose|k: int| 0 <= k < events.len() && events[k] == event;
    assert(events.push(more)[k] == event);
}

/// The last event has happened.
pub broadcast proof fn lemma_last_contained(events: Seq<Event>, event: Event)
    ensures
        #[trigger] events.push(event).contains(event),
{
    assert(events.push(event)[events.len() as int] == event);
}

/// What had happened when a course began has happened still at its end.
pub proof fn lemma_contains_on<T>(
    course: Course<T>,
    past: Seq<Event>,
    now: Seq<Event>,
    event: Event,
)
    requires
        !(rest(course, past, now) is Astray),
        past.contains(event),
    ensures
        now.contains(event),
{
    lemma_began_with(course, past, now);
    let k = choose|k: int| 0 <= k < past.len() && past[k] == event;
    assert(now[k] == now.take(past.len() as int)[k]);
}

/// A machine that was guarded when a course began is so at its end.
pub proof fn lemma_guarded_on<T>(
    course: Course<T>,
    past: Seq<Event>,
    now: Seq<Event>,
    lua: mlua::Lua,
)
    requires
        !(rest(course, past, now) is Astray),
        is_guarded(past, lua),
    ensures
        is_guarded(now, lua),
{
    lemma_contains_on(course, past, now, metering(lua));
    lemma_contains_on(course, past, now, guarding(lua));
}

/// What an exchange with a machine may still be: at its end with a result; before a
/// request, with what follows upon each answer; or none that was meant.
pub enum Course<T> {
    End(T),
    Ask(spec_fn(Event) -> Course<T>),
    Astray,
}

/// What is left of a course after one event.
pub open spec fn step<T>(course: Course<T>, event: Event) -> Course<T> {
    match course {
        Course::Ask(onward) => onward(event),
        _ => Course::Astray,
    }
}

/// What is left of a course that began after the events of `past`, after those of `now`.
pub open spec fn rest<T>(course: Course<T>, past: Seq<Event>, now: Seq<Event>) -> Course<T>
    decreases now.len(),
{
    if now.len() <= past.len() {
        if now == past {
            course
        } else {
            Course::Astray
        }
    } else {
        step(rest(course, past, now.drop_last()), now.last())
    }
}

/// Whether the events from `past` on to `now` are that course, from its start to its
/// end with that result.
pub open spec fn takes<T>(course: Course<T>, past: Seq<Event>, now: Seq<Event>, r: T) -> bool {
    rest(course, past, now) == Course::End(r)
}

/// Whether one event followed those of `past`, and was that request with that answer.
pub open spec fn asked<A>(
    question: spec_fn(Event) -> Option<A>,
    past: Seq<Event>,
    now: Seq<Event>,
    answer: A,
) -> bool {
    now == past.push(now.last()) && question(now.last()) == Some(answer)
}

/// A course that begins with a request. The question gives the answer where the event
/// is that request.
pub open spec fn first<A, T>(
    question: spec_fn(Event) -> Option<A>,
    onward: spec_fn(A) -> Course<T>,
) -> Course<T> {
    Course::Ask(
        |event: Event|
            match question(event) {
                Some(answer) => onward(answer),
                None => Course::Astray,
            },
    )
}

/// A course that goes on where there was no error, and otherwise ends with the error.
pub open spec fn unless_failed<A, T>(
    answer: Result<A, mlua::Error>,
    onward: spec_fn(A) -> Course<Result<T, mlua::Error>>,
) -> Course<Result<T, mlua::Error>> {
    match answer {
        Ok(value) => onward(value),
        Err(error) => Course::End(Err(error)),
    }
}

/// A course that begins with a request, and ends where that fails.
pub open spec fn attempt<A, T>(
    question: spec_fn(Event) -> Option<Result<A, mlua::Error>>,
    onward: spec_fn(A) -> Course<Result<T, mlua::Error>>,
) -> Course<Result<T, mlua::Error>> {
    first(question, |answer: Result<A, mlua::Error>| unless_failed(answer, onward))
}

/// A course that is one request.
pub open spec fn only<A>(question: spec_fn(Event) -> Option<A>) -> Course<A> {
    first(question, |answer: A| Course::End(answer))
}

/// One course and then, upon its result, another.
pub open spec fn joined<A, T>(course: Course<A>, onward: spec_fn(A) -> Course<T>) -> Course<T>
    decreases course,
{
    match course {
        Course::End(result) => onward(result),
        Course::Ask(inner) => Course::Ask(|event: Event| joined(inner(event), onward)),
        Course::Astray => Course::Astray,
    }
}

/// One course and then, where it did not fail, another.
pub open spec fn attempt_all<A, T>(
    course: Course<Result<A, mlua::Error>>,
    onward: spec_fn(A) -> Course<Result<T, mlua::Error>>,
) -> Course<Result<T, mlua::Error>> {
    joined(course, |result: Result<A, mlua::Error>| unless_failed(result, onward))
}

/// Asks for the making of a machine.
pub open spec fn makes_machine() -> spec_fn(Event) -> Option<mlua::Lua> {
    |event: Event|
        match event {
            Event::NewMachine { answer } => Some(answer),
            _ => None,
        }
}

/// Asks for the bounding of the memory of a machine.
pub open spec fn limits(lua: mlua::Lua, bytes: usize) -> spec_fn(Event) -> Option<
    Result<(), mlua::Error>,
> {
    |event: Event|
        match event {
            Event::LimitMemory { lua: its_lua, bytes: its_bytes, answer } => if its_lua == lua
                && its_bytes == bytes {
                Some(answer)
            } else {
                None
            },
            _ => None,
        }
}

/// Asks for the metering of a machine.
pub open spec fn meters(lua: mlua::Lua, every: u32) -> spec_fn(Event) -> Option<
    Result<(), mlua::Error>,
> {
    |event: Event|
        match event {
            Event::Meter { lua: its_lua, every: its_every, answer } => if its_lua == lua
                && its_every == every {
                Some(answer)
            } else {
                None
            },
            _ => None,
        }
}

/// Asks for the giving of something to a global variable.
pub open spec fn puts(lua: mlua::Lua, name: Seq<char>, value: PutView) -> spec_fn(Event) -> Option<
    Result<(), mlua::Error>,
> {
    |event: Event|
        match event {
            Event::Put { lua: its_lua, name: its_name, value: its_value, answer } => if
                its_lua == lua
                && its_name == name
                && its_value == value {
                Some(answer)
            } else {
                None
            },
            _ => None,
        }
}

/// Asks for the making of a function that reads a number, and its putting into a module.
pub open spec fn adds_reading(
    lua: mlua::Lua,
    module: Seq<char>,
    name: Seq<char>,
    table: Seq<char>,
) -> spec_fn(Event) -> Option<Result<(), mlua::Error>> {
    |event: Event|
        match event {
            Event::AddReading {
                lua: its_lua,
                module: its_module,
                name: its_name,
                table: its_table,
                answer,
            } => if its_lua == lua
                && its_module == module
                && its_name == name
                && its_table == table {
                Some(answer)
            } else {
                None
            },
            _ => None,
        }
}

/// Asks for the making of a function that asks something of the console, and its putting into a
/// module.
pub open spec fn adds(
    lua: mlua::Lua,
    module: Seq<char>,
    name: Seq<char>,
    call: ApiCall,
) -> spec_fn(Event) -> Option<Result<(), mlua::Error>> {
    |event: Event|
        match event {
            Event::AddFunction {
                lua: its_lua,
                module: its_module,
                name: its_name,
                call: its_call,
                answer,
            } => if its_lua == lua
                && its_module == module
                && its_name == name
                && its_call == call {
                Some(answer)
            } else {
                None
            },
            _ => None,
        }
}

/// Asks for the look whether a global variable is a function.
pub open spec fn looks_for_function(lua: mlua::Lua, name: Seq<char>) -> spec_fn(Event) -> Option<
    Result<bool, mlua::Error>,
> {
    |event: Event|
        match event {
            Event::HasFunction { lua: its_lua, name: its_name, answer } => if its_lua == lua
                && its_name == name {
                Some(answer)
            } else {
                None
            },
            _ => None,
        }
}

/// Asks for the look whether a global variable is a table.
pub open spec fn looks_for_table(lua: mlua::Lua, name: Seq<char>) -> spec_fn(Event) -> Option<
    Result<bool, mlua::Error>,
> {
    |event: Event|
        match event {
            Event::HasTable { lua: its_lua, name: its_name, answer } => if its_lua == lua
                && its_name == name {
                Some(answer)
            } else {
                None
            },
            _ => None,
        }
}

/// Asks for the running of a source text under a name.
pub open spec fn runs(
    lua: mlua::Lua,
    source: Seq<char>,
    name: Seq<char>,
) -> spec_fn(Event) -> Option<Result<(), mlua::Error>> {
    |event: Event|
        match event {
            Event::Run { lua: its_lua, source: its_source, name: its_name, answer } => if
                its_lua == lua
                && its_source == source
                && its_name == name {
                Some(answer)
            } else {
                None
            },
            _ => None,
        }
}

/// Asks for the call of a global function.
pub open spec fn calls(
    lua: mlua::Lua,
    name: Seq<char>,
    argument: ArgumentView,
) -> spec_fn(Event) -> Option<Result<(), mlua::Error>> {
    |event: Event|
        match event {
            Event::Call { lua: its_lua, name: its_name, argument: its_argument, answer } => if
                its_lua == lua
                && its_name == name
                && its_argument == argument {
                Some(answer)
            } else {
                None
            },
            _ => None,
        }
}

/// Asks for the question whether a coroutine can go on.
pub open spec fn asks_for_more(lua: mlua::Lua, name: Seq<char>) -> spec_fn(Event) -> Option<
    Result<bool, mlua::Error>,
> {
    |event: Event|
        match event {
            Event::CanResume { lua: its_lua, name: its_name, answer } => if its_lua == lua
                && its_name == name {
                Some(answer)
            } else {
                None
            },
            _ => None,
        }
}

/// Asks for the resumption of a coroutine.
pub open spec fn resumes(lua: mlua::Lua, name: Seq<char>) -> spec_fn(Event) -> Option<
    Result<(), mlua::Error>,
> {
    |event: Event|
        match event {
            Event::Resume { lua: its_lua, name: its_name, answer } => if its_lua == lua
                && its_name == name {
                Some(answer)
            } else {
                None
            },
            _ => None,
        }
}

/// Asks for the exchange of the console for one without wishes and lines, on which so
/// many instructions are charged.
pub open spec fn exchanges(lua: mlua::Lua, executed: usize) -> spec_fn(Event) -> Option<
    Option<Console>,
> {
    |event: Event|
        match event {
            Event::Console { lua: its_lua, given, answer } => if its_lua == lua
                && given.commands == ScriptCommands::none() && given.logs@.len() == 0
                && given.executed == executed {
                Some(answer)
            } else {
                None
            },
            _ => None,
        }
}

/// One event more takes a course one step on.
pub broadcast proof fn lemma_step<T>(
    course: Course<T>,
    past: Seq<Event>,
    now: Seq<Event>,
    event: Event,
)
    requires
        past.len() <= now.len(),
    ensures
        #[trigger] rest(course, past, now.push(event)) == step(rest(course, past, now), event),
{
    assert(now.push(event).drop_last() =~= now);
}

/// A course that has not gone astray began where it was said to begin.
pub proof fn lemma_began<T>(course: Course<T>, past: Seq<Event>, now: Seq<Event>)
    requires
        !(rest(course, past, now) is Astray),
    ensures
        past.len() <= now.len(),
    decreases now.len(),
{
    if now.len() > past.len() {
        lemma_began(course, past, now.drop_last());
    }
}

/// A course within another takes that other on to what follows upon its result.
pub proof fn lemma_joined<A, T>(
    whole: Course<T>,
    course: Course<A>,
    onward: spec_fn(A) -> Course<T>,
    past: Seq<Event>,
    middle: Seq<Event>,
    now: Seq<Event>,
    r: A,
)
    requires
        past.len() <= middle.len(),
        rest(whole, past, middle) == joined(course, onward),
        takes(course, middle, now, r),
    ensures
        rest(whole, past, now) == onward(r),
        past.len() <= now.len(),
{
    lemma_within(whole, course, onward, past, middle, now);
    lemma_began(course, middle, now);
}

/// A course within another takes that other on to what follows where it did not fail,
/// and otherwise to the end with its error.
pub proof fn lemma_attempted<A, T>(
    whole: Course<Result<T, mlua::Error>>,
    course: Course<Result<A, mlua::Error>>,
    onward: spec_fn(A) -> Course<Result<T, mlua::Error>>,
    past: Seq<Event>,
    middle: Seq<Event>,
    now: Seq<Event>,
    r: Result<A, mlua::Error>,
)
    requires
        past.len() <= middle.len(),
        rest(whole, past, middle) == attempt_all(course, onward),
        takes(course, middle, now, r),
    ensures
        rest(whole, past, now) == unless_failed(r, onward),
        past.len() <= now.len(),
{
    let upon = |result: Result<A, mlua::Error>| unless_failed(result, onward);
    lemma_joined(whole, course, upon, past, middle, now, r);
}

/// A course that another has come to takes that other on.
pub proof fn lemma_continued<T>(
    whole: Course<T>,
    course: Course<T>,
    past: Seq<Event>,
    middle: Seq<Event>,
    now: Seq<Event>,
)
    requires
        past.len() <= middle.len(),
        rest(whole, past, middle) == course,
        !(rest(course, middle, now) is Astray),
    ensures
        rest(whole, past, now) == rest(course, middle, now),
    decreases now.len(),
{
    lemma_began(course, middle, now);
    if now.len() > middle.len() {
        lemma_continued(whole, course, past, middle, now.drop_last());
    }
}

proof fn lemma_within<A, T>(
    whole: Course<T>,
    course: Course<A>,
    onward: spec_fn(A) -> Course<T>,
    past: Seq<Event>,
    middle: Seq<Event>,
    now: Seq<Event>,
)
    requires
        past.len() <= middle.len(),
        rest(whole, past, middle) == joined(course, onward),
        !(rest(course, middle, now) is Astray),
    ensures
        rest(whole, past, now) == joined(rest(course, middle, now), onward),
    decreases now.len(),
{
    if now.len() > middle.len() {
        lemma_within(whole, course, onward, past, middle, now.drop_last());
    }
}

/// A course that begins with a request goes on after it with what follows upon the
/// answer.
pub proof fn lemma_front<T>(
    onward: spec_fn(Event) -> Course<T>,
    past: Seq<Event>,
    now: Seq<Event>,
)
    requires
        !(rest(Course::Ask(onward), past, now) is Astray),
        past.len() < now.len(),
    ensures
        rest(onward(now[past.len() as int]), past.push(now[past.len() as int]), now) == rest(
            Course::Ask(onward),
            past,
            now,
        ),
    decreases now.len(),
{
    let event = now[past.len() as int];
    if now.len() == past.len() + 1 {
        lemma_began_with(Course::Ask(onward), past, now);
        assert(now.drop_last() =~= past);
        assert(now =~= past.push(event));
    } else {
        lemma_front(onward, past, now.drop_last());
        assert(now.drop_last()[past.len() as int] == event);
    }
}

/// A course that has not gone astray goes on from the events that it began after.
pub proof fn lemma_began_with<T>(course: Course<T>, past: Seq<Event>, now: Seq<Event>)
    requires
        !(rest(course, past, now) is Astray),
    ensures
        past.len() <= now.len(),
        now.take(past.len() as int) == past,
    decreases now.len(),
{
    lemma_began(course, past, now);
    if now.len() > past.len() {
        lemma_began_with(course, past, now.drop_last());
        assert(now.take(past.len() as int) =~= now.drop_last().take(past.len() as int));
    } else {
        assert(now.take(past.len() as int) =~= now);
    }
}

/// A course that was at its end ended there.
pub proof fn lemma_ended<T>(result: T, past: Seq<Event>, now: Seq<Event>, r: T)
    requires
        takes(Course::End(result), past, now, r),
    ensures
        now == past,
        r == result,
{
    if now.len() > past.len() {
        lemma_never_asks(Course::End(result), past, now.drop_last());
    }
}

/// Nothing leads back to what was meant.
pub proof fn lemma_astray<T>(past: Seq<Event>, now: Seq<Event>)
    ensures
        rest(Course::<T>::Astray, past, now) is Astray,
{
    if now.len() > past.len() {
        lemma_never_asks(Course::<T>::Astray, past, now.drop_last());
    }
}

/// A course that asks for nothing never does.
pub proof fn lemma_never_asks<T>(course: Course<T>, past: Seq<Event>, now: Seq<Event>)
    requires
        !(course is Ask),
    ensures
        !(rest(course, past, now) is Ask),
    decreases now.len(),
{
    if now.len() > past.len() {
        lemma_never_asks(course, past, now.drop_last());
    }
}

/// Two courses of which one follows the other part where the first ends.
pub proof fn lemma_parts<A, T>(
    course: Course<A>,
    onward: spec_fn(A) -> Course<T>,
    past: Seq<Event>,
    now: Seq<Event>,
    r: T,
) -> (end: (Seq<Event>, A))
    requires
        takes(joined(course, onward), past, now, r),
    ensures
        takes(course, past, end.0, end.1),
        takes(onward(end.1), end.0, now, r),
    decreases course,
{
    match course {
        Course::End(result) => {
            assert(rest(course, past, past) == course);
            (past, result)
        },
        Course::Ask(inner) => {
            let asked = joined(course, onward)->Ask_0;
            assert(joined(course, onward) == Course::Ask(asked));
            lemma_began(joined(course, onward), past, now);
            let event = now[past.len() as int];
            lemma_front(asked, past, now);
            let end = lemma_parts(inner(event), onward, past.push(event), now, r);
            lemma_prepended(inner, past, event, end.0);
            end
        },
        Course::Astray => {
            lemma_astray::<T>(past, now);
            (past, arbitrary())
        },
    }
}

proof fn lemma_prepended<T>(
    onward: spec_fn(Event) -> Course<T>,
    past: Seq<Event>,
    event: Event,
    now: Seq<Event>,
)
    requires
        !(rest(onward(event), past.push(event), now) is Astray),
    ensures
        rest(Course::Ask(onward), past, now) == rest(onward(event), past.push(event), now),
    decreases now.len(),
{
    lemma_began(onward(event), past.push(event), now);
    if now.len() == past.len() + 1 {
        lemma_began_with(onward(event), past.push(event), now);
        assert(now.take(now.len() as int) =~= now);
        assert(now.drop_last() =~= past);
        assert(rest(Course::Ask(onward), past, past) == Course::Ask(onward));
        assert(rest(onward(event), past.push(event), now) == onward(event));
    } else {
        lemma_prepended(onward, past, event, now.drop_last());
    }
}

} // verus!
