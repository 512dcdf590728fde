//! The Lua machines in which flight scripts run, with a record of what is asked of them.
use crate::number::Real;
use crate::runtime::{ApiCall, Reading};
use crate::script::Console;
use crate::scripts::GUARD_SOURCE;
use crate::transcript::{is_guarded, Event, PutView};
use mlua::{LuaSerdeExt, Number};
use vstd::prelude::*;

verus! {

/// A Lua machine.
#[verifier::external_type_specification]
#[verifier::external_body]
pub struct ExLua(mlua::Lua);

/// An error of a Lua machine.
#[verifier::external_type_specification]
#[verifier::external_body]
pub struct ExError(mlua::Error);

/// A JSON value.
#[verifier::external_type_specification]
#[verifier::external_body]
pub struct ExJson(serde_json::Value);

/// What a function is called with.
#[derive(Debug)]
pub enum Argument {
    Nothing,
    Number(Real),
    Text(String),
    /// What the global variable of that name holds.
    Global(String),
}

/// An argument with its text as a sequence of characters.
pub enum ArgumentView {
    Nothing,
    Number(Real),
    Text(Seq<char>),
    Global(Seq<char>),
}

impl View for Argument {
    type V = ArgumentView;

    open spec fn view(&self) -> ArgumentView {
        match *self {
            Argument::Nothing => ArgumentView::Nothing,
            Argument::Number(number) => ArgumentView::Number(number),
            Argument::Text(text) => ArgumentView::Text(text@),
            Argument::Global(name) => ArgumentView::Global(name@),
        }
    }
}

/// A record of what has been asked of Lua machines, and what they have answered. Only
/// the requests themselves write it. Each asks the machine it is handed, finds what it
/// needs there by name, and says of the machine no more than its answer.
pub struct Transcript {
    events: Ghost<Seq<Event>>,
}

impl View for Transcript {
    type V = Seq<Event>;

    closed spec fn view(&self) -> Seq<Event> {
        self.events@
    }
}

impl Default for Transcript {
    fn default() -> (r: Self)
        ensures
            r@ == Seq::<Event>::empty(),
    {
        Transcript { events: Ghost(Seq::empty()) }
    }
}

impl Transcript {
    /// `mlua::Lua::new` makes a machine with the standard libraries that are safe.
    #[verifier::external_body]
    pub(crate) fn new_machine(&mut self) -> (r: mlua::Lua)
        ensures
            final(self)@ == old(self)@.push(Event::NewMachine { answer: r }),
    {
        mlua::Lua::new()
    }

    /// `mlua::Lua::set_memory_limit` bounds the memory of the machine, in bytes, where
    /// the machine allows it.
    #[verifier::external_body]
    pub(crate) fn limit_memory(
        &mut self,
        lua: &mlua::Lua,
        bytes: usize,
    ) -> (r: Result<(), mlua::Error>)
        ensures
            final(self)@ == old(self)@.push(Event::LimitMemory { lua: *lua, bytes, answer: r }),
    {
        lua.set_memory_limit(bytes).map(|_| ())
    }

    /// `mlua::Lua::set_global_hook` has the machine and its coroutines charge the console
    /// for every so many instructions, before the last of them runs, and fail with the
    /// reason where the console refuses.
    #[verifier::external_body]
    pub(crate) fn meter_instructions(
        &mut self,
        lua: &mlua::Lua,
        every: u32,
    ) -> (r: Result<(), mlua::Error>)
        ensures
            final(self)@ == old(self)@.push(Event::Meter { lua: *lua, every, answer: r }),
    {
        lua.set_global_hook(
            mlua::HookTriggers::new().every_nth_instruction(every),
            move |lua, _| match lua.app_data_mut::<Console>() {
                Some(mut console) => console.charge(every).map(|_| mlua::VmState::Continue).map_err(
                    mlua::Error::RuntimeError,
                ),
                None => Ok(mlua::VmState::Continue),
            },
        )
    }

    /// `mlua::Lua::set_app_data` gives the machine a console and returns the one that it
    /// had, if any.
    #[verifier::external_body]
    pub(crate) fn exchange_console(
        &mut self,
        lua: &mlua::Lua,
        given: Console,
    ) -> (r: Option<Console>)
        ensures
            final(self)@ == old(self)@.push(Event::Console { lua: *lua, given, answer: r }),
    {
        lua.set_app_data(given)
    }

    /// `mlua::Table::set` puts nothing under the name of a global variable.
    #[verifier::external_body]
    pub(crate) fn put_nil(&mut self, lua: &mlua::Lua, name: &str) -> (r: Result<(), mlua::Error>)
        ensures
            final(self)@ == old(self)@.push(
                Event::Put { lua: *lua, name: name@, value: PutView::Nil, answer: r },
            ),
    {
        lua.globals().set(name, mlua::Value::Nil)
    }

    /// `mlua::Table::set` puts a text under the name of a global variable.
    #[verifier::external_body]
    pub(crate) fn put_text(
        &mut self,
        lua: &mlua::Lua,
        name: &str,
        text: &str,
    ) -> (r: Result<(), mlua::Error>)
        ensures
            final(self)@ == old(self)@.push(
                Event::Put { lua: *lua, name: name@, value: PutView::Text(text@), answer: r },
            ),
    {
        lua.globals().set(name, text)
    }

    /// `mlua::LuaSerdeExt::to_value` makes a Lua value of a JSON value, and
    /// `mlua::Table::set` puts it under the name of a global variable.
    #[verifier::external_body]
    pub(crate) fn put_json(
        &mut self,
        lua: &mlua::Lua,
        name: &str,
        value: &serde_json::Value,
    ) -> (r: Result<(), mlua::Error>)
        ensures
            final(self)@ == old(self)@.push(
                Event::Put { lua: *lua, name: name@, value: PutView::Json(*value), answer: r },
            ),
    {
        lua.globals().set(name, lua.to_value(value)?)
    }

    /// `mlua::Lua::create_table` makes an empty table, and `mlua::Table::set` puts it under
    /// the name of a global variable.
    #[verifier::external_body]
    pub(crate) fn put_table(&mut self, lua: &mlua::Lua, name: &str) -> (r: Result<(), mlua::Error>)
        ensures
            final(self)@ == old(self)@.push(
                Event::Put { lua: *lua, name: name@, value: PutView::Table, answer: r },
            ),
    {
        lua.globals().set(name, lua.create_table()?)
    }

    /// `mlua::Lua::create_table_from` makes a table of readings, each under its name, and
    /// `mlua::Table::set` puts it under the name of a global variable.
    #[verifier::external_body]
    pub(crate) fn put_readings(
        &mut self,
        lua: &mlua::Lua,
        name: &str,
        readings: Vec<Reading>,
    ) -> (r: Result<(), mlua::Error>)
        ensures
            final(self)@ == old(self)@.push(
                Event::Put {
                    lua: *lua,
                    name: name@,
                    value: PutView::Readings(readings@.map_values(|reading: Reading| reading@)),
                    answer: r,
                },
            ),
    {
        let pairs = readings.into_iter().map(
            |reading| (reading.name, Number::from_bits(reading.value.bits)),
        );
        lua.globals().set(name, lua.create_table_from(pairs)?)
    }

    /// `mlua::Lua::create_thread` makes a coroutine of the global function of that name, and
    /// `mlua::Table::set` puts it under the name of a global variable.
    #[verifier::external_body]
    pub(crate) fn put_thread(
        &mut self,
        lua: &mlua::Lua,
        name: &str,
        function: &str,
    ) -> (r: Result<(), mlua::Error>)
        ensures
            final(self)@ == old(self)@.push(
                Event::Put { lua: *lua, name: name@, value: PutView::Thread(function@), answer: r },
            ),
    {
        let body = lua.globals().get::<mlua::Function>(function)?;
        lua.globals().set(name, lua.create_thread(body)?)
    }

    /// `mlua::Table::get`, for a function or nothing: whether the global variable of that
    /// name is a function. It fails where that is something else.
    #[verifier::external_body]
    pub(crate) fn has_function(
        &mut self,
        lua: &mlua::Lua,
        name: &str,
    ) -> (r: Result<bool, mlua::Error>)
        ensures
            final(self)@ == old(self)@.push(
                Event::HasFunction { lua: *lua, name: name@, answer: r },
            ),
    {
        lua.globals().get::<Option<mlua::Function>>(name).map(|found| found.is_some())
    }

    /// `mlua::Table::get`, for a table or nothing: whether the global variable of that name
    /// is a table. It fails where that is something else.
    #[verifier::external_body]
    pub(crate) fn has_table(
        &mut self,
        lua: &mlua::Lua,
        name: &str,
    ) -> (r: Result<bool, mlua::Error>)
        ensures
            final(self)@ == old(self)@.push(Event::HasTable { lua: *lua, name: name@, answer: r }),
    {
        lua.globals().get::<Option<mlua::Table>>(name).map(|found| found.is_some())
    }

    /// `mlua::Chunk::exec` runs a source text under a name. The machine is guarded, or the
    /// text is what guards it: so every instruction is metered, and a text that never ends is
    /// stopped. A function of the standard libraries runs none, and may take long.
    #[verifier::external_body]
    pub(crate) fn run_source(
        &mut self,
        lua: &mlua::Lua,
        source: &str,
        name: &str,
    ) -> (r: Result<(), mlua::Error>)
        requires
            is_guarded(old(self)@, *lua) || source@ == GUARD_SOURCE@,
        ensures
            final(self)@ == old(self)@.push(
                Event::Run { lua: *lua, source: source@, name: name@, answer: r },
            ),
    {
        lua.load(source).set_name(name).exec()
    }

    /// `mlua::Function::call` calls the global function of that name and drops what it
    /// returns. It fails where there is none. As to its end, it is as with
    /// [`Transcript::run_source`].
    #[verifier::external_body]
    pub(crate) fn call(
        &mut self,
        lua: &mlua::Lua,
        name: &str,
        argument: Argument,
    ) -> (r: Result<(), mlua::Error>)
        requires
            is_guarded(old(self)@, *lua),
        ensures
            final(self)@ == old(self)@.push(
                Event::Call { lua: *lua, name: name@, argument: argument@, answer: r },
            ),
    {
        let function = lua.globals().get::<mlua::Function>(name)?;
        match argument {
            Argument::Nothing => function.call(()),
            Argument::Number(value) => function.call(Number::from_bits(value.bits)),
            Argument::Text(text) => function.call(text),
            Argument::Global(global) => function.call(
                lua.globals().get::<mlua::Value>(global.as_str())?,
            ),
        }
    }

    /// `mlua::Thread::status` tells whether the coroutine under the name of a global variable
    /// can go on. It fails where there is none.
    #[verifier::external_body]
    pub(crate) fn can_resume(
        &mut self,
        lua: &mlua::Lua,
        name: &str,
    ) -> (r: Result<bool, mlua::Error>)
        ensures
            final(self)@ == old(self)@.push(Event::CanResume { lua: *lua, name: name@, answer: r }),
    {
        lua.globals().get::<mlua::Thread>(name).map(
            |thread| thread.status() == mlua::thread::ThreadStatus::Resumable,
        )
    }

    /// `mlua::Thread::resume` lets the coroutine under the name of a global variable go on
    /// without arguments and drops what it gives back. As to its end, it is as with
    /// [`Transcript::run_source`].
    #[verifier::external_body]
    pub(crate) fn resume(&mut self, lua: &mlua::Lua, name: &str) -> (r: Result<(), mlua::Error>)
        requires
            is_guarded(old(self)@, *lua),
        ensures
            final(self)@ == old(self)@.push(Event::Resume { lua: *lua, name: name@, answer: r }),
    {
        lua.globals().get::<mlua::Thread>(name)?.resume(())
    }

    /// `mlua::Lua::create_function`, for a function that reads a number out of a global
    /// table; `mlua::Table::set` puts it into the module.
    #[verifier::external_body]
    pub(crate) fn add_reading(
        &mut self,
        lua: &mlua::Lua,
        module: &str,
        name: &str,
        table: String,
    ) -> (r: Result<(), mlua::Error>)
        ensures
            final(self)@ == old(self)@.push(
                Event::AddReading {
                    lua: *lua,
                    module: module@,
                    name: name@,
                    table: table@,
                    answer: r,
                },
            ),
    {
        let key = name.to_owned();
        let function = lua.create_function(
            move |lua, ()|
                lua.globals().get::<mlua::Table>(table.as_str())?.get::<Number>(key.as_str()),
        )?;
        lua.globals().get::<mlua::Table>(module)?.set(name, function)
    }

    /// `mlua::Lua::create_function`, for [`Console::set_throttle`]; `mlua::Table::set` puts it
    /// into the module.
    #[verifier::external_body]
    pub(crate) fn add_throttle(
        &mut self,
        lua: &mlua::Lua,
        module: &str,
        name: &str,
    ) -> (r: Result<(), mlua::Error>)
        ensures
            final(self)@ == old(self)@.push(
                Event::AddFunction {
                    lua: *lua,
                    module: module@,
                    name: name@,
                    call: ApiCall::Throttle,
                    answer: r,
                },
            ),
    {
        let function = lua.create_function(
            |lua, value: Number| {
                let _ = lua.app_data_mut::<Console>().map(
                    |mut console| console.set_throttle(Real::of(value.to_bits())),
                );
                Ok(())
            },
        )?;
        lua.globals().get::<mlua::Table>(module)?.set(name, function)
    }

    /// `mlua::Lua::create_function`, for [`Console::set_rotation`]; `mlua::Table::set` puts it
    /// into the module.
    #[verifier::external_body]
    pub(crate) fn add_rotation(
        &mut self,
        lua: &mlua::Lua,
        module: &str,
        name: &str,
    ) -> (r: Result<(), mlua::Error>)
        ensures
            final(self)@ == old(self)@.push(
                Event::AddFunction {
                    lua: *lua,
                    module: module@,
                    name: name@,
                    call: ApiCall::Rotation,
                    answer: r,
                },
            ),
    {
        let function = lua.create_function(
            |lua, (pitch, yaw, roll): (Number, Number, Number)| {
                let (pitch, yaw) = (Real::of(pitch.to_bits()), Real::of(yaw.to_bits()));
                let roll = Real::of(roll.to_bits());
                let _ = lua.app_data_mut::<Console>().map(
                    |mut console| console.set_rotation(pitch, yaw, roll),
                );
                Ok(())
            },
        )?;
        lua.globals().get::<mlua::Table>(module)?.set(name, function)
    }

    /// `mlua::Lua::create_function`, for [`Console::set_sas`]; `mlua::Table::set` puts it
    /// into the module.
    #[verifier::external_body]
    pub(crate) fn add_sas(
        &mut self,
        lua: &mlua::Lua,
        module: &str,
        name: &str,
    ) -> (r: Result<(), mlua::Error>)
        ensures
            final(self)@ == old(self)@.push(
                Event::AddFunction {
                    lua: *lua,
                    module: module@,
                    name: name@,
                    call: ApiCall::Sas,
                    answer: r,
                },
            ),
    {
        let function = lua.create_function(
            |lua, mode: String| {
                let _ = lua.app_data_mut::<Console>().map(
                    |mut console| console.set_sas(mode.as_str()),
                );
                Ok(())
            },
        )?;
        lua.globals().get::<mlua::Table>(module)?.set(name, function)
    }

    /// `mlua::Lua::create_function`, for [`Console::set_rcs`]; `mlua::Table::set` puts it
    /// into the module.
    #[verifier::external_body]
    pub(crate) fn add_rcs(
        &mut self,
        lua: &mlua::Lua,
        module: &str,
        name: &str,
    ) -> (r: Result<(), mlua::Error>)
        ensures
            final(self)@ == old(self)@.push(
                Event::AddFunction {
                    lua: *lua,
                    module: module@,
                    name: name@,
                    call: ApiCall::Rcs,
                    answer: r,
                },
            ),
    {
        let function = lua.create_function(
            |lua, enabled: bool| {
                let _ = lua.app_data_mut::<Console>().map(|mut console| console.set_rcs(enabled));
                Ok(())
            },
        )?;
        lua.globals().get::<mlua::Table>(module)?.set(name, function)
    }

    /// `mlua::Lua::create_function`, for [`Console::stage`]; `mlua::Table::set` puts it
    /// into the module.
    #[verifier::external_body]
    pub(crate) fn add_stage(
        &mut self,
        lua: &mlua::Lua,
        module: &str,
        name: &str,
    ) -> (r: Result<(), mlua::Error>)
        ensures
            final(self)@ == old(self)@.push(
                Event::AddFunction {
                    lua: *lua,
                    module: module@,
                    name: name@,
                    call: ApiCall::Stage,
                    answer: r,
                },
            ),
    {
        let function = lua.create_function(
            |lua, ()| {
                let _ = lua.app_data_mut::<Console>().map(|mut console| console.stage());
                Ok(())
            },
        )?;
        lua.globals().get::<mlua::Table>(module)?.set(name, function)
    }

    /// `mlua::Lua::create_function`, for [`Console::deploy_parachutes`]; `mlua::Table::set` puts it
    /// into the module.
    #[verifier::external_body]
    pub(crate) fn add_parachutes(
        &mut self,
        lua: &mlua::Lua,
        module: &str,
        name: &str,
    ) -> (r: Result<(), mlua::Error>)
        ensures
            final(self)@ == old(self)@.push(
                Event::AddFunction {
                    lua: *lua,
                    module: module@,
                    name: name@,
                    call: ApiCall::Parachutes,
                    answer: r,
                },
            ),
    {
        let function = lua.create_function(
            |lua, ()| {
                let _ = lua.app_data_mut::<Console>().map(
                    |mut console| console.deploy_parachutes(),
                );
                Ok(())
            },
        )?;
        lua.globals().get::<mlua::Table>(module)?.set(name, function)
    }

    /// `mlua::Lua::create_function`, for [`Console::set_warp`]; `mlua::Table::set` puts it
    /// into the module.
    #[verifier::external_body]
    pub(crate) fn add_warp(
        &mut self,
        lua: &mlua::Lua,
        module: &str,
        name: &str,
    ) -> (r: Result<(), mlua::Error>)
        ensures
            final(self)@ == old(self)@.push(
                Event::AddFunction {
                    lua: *lua,
                    module: module@,
                    name: name@,
                    call: ApiCall::Warp,
                    answer: r,
                },
            ),
    {
        let function = lua.create_function(
            |lua, rate: Number| {
                let _ = lua.app_data_mut::<Console>().map(
                    |mut console| console.set_warp(Real::of(rate.to_bits())),
                );
                Ok(())
            },
        )?;
        lua.globals().get::<mlua::Table>(module)?.set(name, function)
    }

    /// `mlua::Lua::create_function`, for [`Console::set_maneuver`]; `mlua::Table::set` puts it
    /// into the module.
    #[verifier::external_body]
    pub(crate) fn add_maneuver(
        &mut self,
        lua: &mlua::Lua,
        module: &str,
        name: &str,
    ) -> (r: Result<(), mlua::Error>)
        ensures
            final(self)@ == old(self)@.push(
                Event::AddFunction {
                    lua: *lua,
                    module: module@,
                    name: name@,
                    call: ApiCall::Maneuver,
                    answer: r,
                },
            ),
    {
        let function = lua.create_function(
            |lua, (ut, prograde, normal, radial): (Number, Number, Number, Number)| {
                let (ut, prograde) = (Real::of(ut.to_bits()), Real::of(prograde.to_bits()));
                let (normal, radial) = (Real::of(normal.to_bits()), Real::of(radial.to_bits()));
                let _ = lua.app_data_mut::<Console>().map(
                    |mut console| console.set_maneuver(ut, prograde, normal, radial),
                );
                Ok(())
            },
        )?;
        lua.globals().get::<mlua::Table>(module)?.set(name, function)
    }

    /// `mlua::Lua::create_function`, for [`Console::log`]; `mlua::Table::set` puts it
    /// into the module.
    #[verifier::external_body]
    pub(crate) fn add_log(
        &mut self,
        lua: &mlua::Lua,
        module: &str,
        name: &str,
    ) -> (r: Result<(), mlua::Error>)
        ensures
            final(self)@ == old(self)@.push(
                Event::AddFunction {
                    lua: *lua,
                    module: module@,
                    name: name@,
                    call: ApiCall::Log,
                    answer: r,
                },
            ),
    {
        let function = lua.create_function(
            |lua, message: String| {
                let _ = lua.app_data_mut::<Console>().map(|mut console| console.log(message));
                Ok(())
            },
        )?;
        lua.globals().get::<mlua::Table>(module)?.set(name, function)
    }
}

/// `mlua::LuaSerdeExt::from_value` makes a JSON value of what the global variable of that
/// name holds, where that has the form of one and nests no deeper than 128 tables; else it
/// fails. What it holds is known to the machine alone, so nothing is claimed of the result.
/// The call copies a table once for every path that leads to it, and takes that long.
#[verifier::external_body]
pub fn read_json(lua: &mlua::Lua, name: &str) -> Result<serde_json::Value, mlua::Error> {
    lua.from_value(lua.globals().get::<mlua::Value>(name)?)
}

} // verus!
