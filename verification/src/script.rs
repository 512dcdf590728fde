//! What flight scripts ask for, and the console through which they ask.
use crate::number::{
    law_integer_has_its_value, law_larger_and_smaller, law_named_numbers,
    law_whole_numbers_compare, leading_power, Real, MINUS_ONE,
};
use crate::text::{lowercase, same_text, small};
use crate::vessel::SasMode;
use vstd::arithmetic::power2::{lemma2_to64, pow2};
use vstd::prelude::*;

verus! {

/// The number of instructions that a script may run in one tick.
pub const INSTRUCTION_BUDGET: usize = 100_000;

/// The number of lines that the log keeps.
pub const LOG_LIMIT: usize = 200;

/// How a script is written: as callbacks, or as one coroutine.
#[derive(Debug, Clone, Copy, PartialEq, Eq, Structural)]
pub enum ScriptMode {
    Callback,
    Coroutine,
}

/// What a script asks of the vessel.
#[derive(Debug, Clone, Copy, PartialEq, Eq)]
pub struct ScriptCommands {
    pub throttle: Option<Real>,
    pub pitch: Option<Real>,
    pub yaw: Option<Real>,
    pub roll: Option<Real>,
    pub sas: Option<Option<SasMode>>,
    pub rcs: Option<bool>,
    pub stage: bool,
    pub deploy_parachutes: bool,
    pub warp_rate: Option<Real>,
    /// Time, prograde, normal and radial part of a maneuver.
    pub maneuver: Option<(Real, Real, Real, Real)>,
}

/// The later wish, or else the earlier.
pub open spec fn later<T>(earlier: Option<T>, later: Option<T>) -> Option<T> {
    if later is Some {
        later
    } else {
        earlier
    }
}

impl ScriptCommands {
    /// No wishes.
    pub open spec fn none() -> Self {
        ScriptCommands {
            throttle: None,
            pitch: None,
            yaw: None,
            roll: None,
            sas: None,
            rcs: None,
            stage: false,
            deploy_parachutes: false,
            warp_rate: None,
            maneuver: None,
        }
    }

    /// The wishes of both, where they differ those of the newer.
    pub open spec fn merged(self, newer: Self) -> Self {
        ScriptCommands {
            throttle: later(self.throttle, newer.throttle),
            pitch: later(self.pitch, newer.pitch),
            yaw: later(self.yaw, newer.yaw),
            roll: later(self.roll, newer.roll),
            sas: later(self.sas, newer.sas),
            rcs: later(self.rcs, newer.rcs),
            stage: self.stage || newer.stage,
            deploy_parachutes: self.deploy_parachutes || newer.deploy_parachutes,
            warp_rate: later(self.warp_rate, newer.warp_rate),
            maneuver: later(self.maneuver, newer.maneuver),
        }
    }

    /// The wishes of both, where they differ those of the newer.
    pub fn merge(self, newer: Self) -> (r: Self)
        ensures
            r == self.merged(newer),
    {
        ScriptCommands {
            throttle: if newer.throttle.is_some() { newer.throttle } else { self.throttle },
            pitch: if newer.pitch.is_some() { newer.pitch } else { self.pitch },
            yaw: if newer.yaw.is_some() { newer.yaw } else { self.yaw },
            roll: if newer.roll.is_some() { newer.roll } else { self.roll },
            sas: if newer.sas.is_some() { newer.sas } else { self.sas },
            rcs: if newer.rcs.is_some() { newer.rcs } else { self.rcs },
            stage: self.stage || newer.stage,
            deploy_parachutes: self.deploy_parachutes || newer.deploy_parachutes,
            warp_rate: if newer.warp_rate.is_some() { newer.warp_rate } else { self.warp_rate },
            maneuver: if newer.maneuver.is_some() { newer.maneuver } else { self.maneuver },
        }
    }
}

impl Default for ScriptCommands {
    fn default() -> (r: Self)
        ensures
            r == Self::none(),
    {
        ScriptCommands {
            throttle: None,
            pitch: None,
            yaw: None,
            roll: None,
            sas: None,
            rcs: None,
            stage: false,
            deploy_parachutes: false,
            warp_rate: None,
            maneuver: None,
        }
    }
}

/// Merging wishes in three steps gives the same however they are grouped.
pub proof fn law_merge_is_associative(a: ScriptCommands, b: ScriptCommands, c: ScriptCommands)
    ensures
        a.merged(b).merged(c) == a.merged(b.merged(c)),
{
}

/// Merging with no wishes changes nothing.
pub proof fn law_merge_with_none(a: ScriptCommands)
    ensures
        a.merged(ScriptCommands::none()) == a,
        ScriptCommands::none().merged(a) == a,
{
}

/// The direction that the autopilot is to hold under that name; `None` is off, and
/// an unknown name means to hold the attitude.
pub open spec fn sas_named(name: Seq<char>) -> Option<SasMode> {
    let word = name.map_values(|c: char| small(c));
    if word == "off"@ {
        None
    } else if word == "prograde"@ {
        Some(SasMode::Prograde)
    } else if word == "retrograde"@ {
        Some(SasMode::Retrograde)
    } else if word == "normal"@ {
        Some(SasMode::Normal)
    } else if word == "antinormal"@ || word == "anti_normal"@ {
        Some(SasMode::AntiNormal)
    } else if word == "radial_in"@ {
        Some(SasMode::RadialIn)
    } else if word == "radial_out"@ {
        Some(SasMode::RadialOut)
    } else if word == "maneuver"@ {
        Some(SasMode::Maneuver)
    } else {
        Some(SasMode::Stability)
    }
}

/// The direction that the autopilot is to hold under that name, whatever its case.
pub fn sas_by_name(name: &str) -> (r: Option<SasMode>)
    ensures
        r == sas_named(name@),
{
    let word = lowercase(name);
    if same_text(&word, "off") {
        None
    } else if same_text(&word, "prograde") {
        Some(SasMode::Prograde)
    } else if same_text(&word, "retrograde") {
        Some(SasMode::Retrograde)
    } else if same_text(&word, "normal") {
        Some(SasMode::Normal)
    } else if same_text(&word, "antinormal") || same_text(&word, "anti_normal") {
        Some(SasMode::AntiNormal)
    } else if same_text(&word, "radial_in") {
        Some(SasMode::RadialIn)
    } else if same_text(&word, "radial_out") {
        Some(SasMode::RadialOut)
    } else if same_text(&word, "maneuver") {
        Some(SasMode::Maneuver)
    } else {
        Some(SasMode::Stability)
    }
}

/// The deflection of a lever, within full deflection either way.
pub open spec fn deflection(value: Real) -> Real {
    value.spec_clamp(Real::spec_of(MINUS_ONE), Real::spec_integer(1))
}

fn deflected(value: Real) -> (r: Real)
    ensures
        r == deflection(value),
{
    value.clamp(Real::of(MINUS_ONE), Real::integer(1))
}

/// What a running script has asked for, has logged and has used up.
#[derive(Debug)]
pub struct Console {
    pub commands: ScriptCommands,
    pub logs: Vec<String>,
    pub executed: usize,
}

impl Default for Console {
    fn default() -> (r: Self)
        ensures
            r.commands == ScriptCommands::none(),
            r.logs@.len() == 0,
            r.executed == 0,
    {
        Console { commands: ScriptCommands::default(), logs: Vec::new(), executed: 0 }
    }
}

impl Console {
    /// Asks for a throttle between none and full.
    pub fn set_throttle(&mut self, value: Real)
        ensures
            *final(self) == (Console {
                commands: ScriptCommands {
                    throttle: Some(value.spec_clamp(Real::spec_of(0), Real::spec_integer(1))),
                    ..old(self).commands
                },
                ..*old(self)
            }),
    {
        self.commands.throttle = Some(value.clamp(Real::zero(), Real::integer(1)));
    }

    /// Asks for a deflection of the three levers.
    pub fn set_rotation(&mut self, pitch: Real, yaw: Real, roll: Real)
        ensures
            *final(self) == (Console {
                commands: ScriptCommands {
                    pitch: Some(deflection(pitch)),
                    yaw: Some(deflection(yaw)),
                    roll: Some(deflection(roll)),
                    ..old(self).commands
                },
                ..*old(self)
            }),
    {
        self.commands.pitch = Some(deflected(pitch));
        self.commands.yaw = Some(deflected(yaw));
        self.commands.roll = Some(deflected(roll));
    }

    /// Asks for a direction that the autopilot is to hold.
    pub fn set_sas(&mut self, name: &str)
        ensures
            *final(self) == (Console {
                commands: ScriptCommands { sas: Some(sas_named(name@)), ..old(self).commands },
                ..*old(self)
            }),
    {
        self.commands.sas = Some(sas_by_name(name));
    }

    /// Asks for the thrusters on or off.
    pub fn set_rcs(&mut self, enabled: bool)
        ensures
            *final(self) == (Console {
                commands: ScriptCommands { rcs: Some(enabled), ..old(self).commands },
                ..*old(self)
            }),
    {
        self.commands.rcs = Some(enabled);
    }

    /// Asks for the next stage.
    pub fn stage(&mut self)
        ensures
            *final(self) == (Console {
                commands: ScriptCommands { stage: true, ..old(self).commands },
                ..*old(self)
            }),
    {
        self.commands.stage = true;
    }

    /// Asks for all parachutes.
    pub fn deploy_parachutes(&mut self)
        ensures
            *final(self) == (Console {
                commands: ScriptCommands { deploy_parachutes: true, ..old(self).commands },
                ..*old(self)
            }),
    {
        self.commands.deploy_parachutes = true;
    }

    /// Asks for a rate of the clock.
    pub fn set_warp(&mut self, rate: Real)
        ensures
            *final(self) == (Console {
                commands: ScriptCommands { warp_rate: Some(rate), ..old(self).commands },
                ..*old(self)
            }),
    {
        self.commands.warp_rate = Some(rate);
    }

    /// Asks for a maneuver.
    pub fn set_maneuver(&mut self, ut: Real, prograde: Real, normal: Real, radial: Real)
        ensures
            *final(self) == (Console {
                commands: ScriptCommands {
                    maneuver: Some((ut, prograde, normal, radial)),
                    ..old(self).commands
                },
                ..*old(self)
            }),
    {
        self.commands.maneuver = Some((ut, prograde, normal, radial));
    }

    /// Adds a line to the log.
    pub fn log(&mut self, message: String)
        ensures
            *final(self) == (Console { logs: final(self).logs, ..*old(self) }),
            final(self).logs@ == old(self).logs@.push(message),
    {
        self.logs.push(message);
    }

    /// Counts instructions, and refuses those that the budget does not hold.
    pub fn charge(&mut self, instructions: u32) -> (r: Result<(), String>)
        ensures
            *final(self) == (Console { executed: final(self).executed, ..*old(self) }),
            final(self).executed == (if old(self).executed + instructions > usize::MAX {
                usize::MAX as int
            } else {
                old(self).executed + instructions
            }),
            match r {
                Ok(()) => final(self).executed <= INSTRUCTION_BUDGET,
                Err(reason) => final(self).executed > INSTRUCTION_BUDGET && reason@
                    == "script exceeded 100,000 instructions this tick"@,
            },
    {
        self.executed = self.executed.saturating_add(instructions as usize);
        if self.executed > INSTRUCTION_BUDGET {
            Err("script exceeded 100,000 instructions this tick".to_owned())
        } else {
            Ok(())
        }
    }
}

/// Whether wishes are within the bounds of the levers.
pub open spec fn in_bounds(commands: ScriptCommands) -> bool {
    let zero = Real::spec_of(0);
    let one = Real::spec_integer(1);
    &&& commands.throttle is Some ==> is_between(zero, commands.throttle->0, one)
    &&& commands.pitch is Some ==> is_between(Real::spec_of(MINUS_ONE), commands.pitch->0, one)
    &&& commands.yaw is Some ==> is_between(Real::spec_of(MINUS_ONE), commands.yaw->0, one)
    &&& commands.roll is Some ==> is_between(Real::spec_of(MINUS_ONE), commands.roll->0, one)
}

/// Whether the number lies between the two, or is none.
pub open spec fn is_between(low: Real, value: Real, high: Real) -> bool {
    value.spec_is_nan() || low.spec_at_most(value) && value.spec_at_most(high)
}

/// Merging wishes within the bounds of the levers keeps them so.
pub proof fn law_merge_keeps_bounds(a: ScriptCommands, b: ScriptCommands)
    requires
        in_bounds(a),
        in_bounds(b),
    ensures
        in_bounds(a.merged(b)),
{
}

/// A throttle or deflection that a script asks for lies within the bounds of the
/// levers, whatever number it gave.
pub proof fn law_levers_stay_in_bounds(commands: ScriptCommands, a: Real, b: Real, c: Real)
    requires
        in_bounds(commands),
    ensures
        in_bounds(
            ScriptCommands {
                throttle: Some(a.spec_clamp(Real::spec_of(0), Real::spec_integer(1))),
                ..commands
            },
        ),
        in_bounds(
            ScriptCommands {
                pitch: Some(deflection(a)),
                yaw: Some(deflection(b)),
                roll: Some(deflection(c)),
                ..commands
            },
        ),
{
    lemma_integer_one();
}

proof fn lemma_integer_one()
    ensures
        Real::spec_integer(1).bits == 0x3ff0_0000_0000_0000,
{
    lemma2_to64();
    assert(leading_power(1) == 0);
    assert(pow2(0) == 1);
    assert((1 - pow2(0)) * pow2(52) == 0) by (nonlinear_arith)
        requires
            pow2(0) == 1,
    ;
}

/// Of two sets of commands the newer wins wherever it says anything, and what was to happen
/// once still happens.
pub proof fn law_newer_commands_win(older: ScriptCommands, newer: ScriptCommands, r: ScriptCommands)
    requires
        call_ensures(ScriptCommands::merge, (older, newer), r),
    ensures
        newer.throttle is Some ==> r.throttle == newer.throttle,
        newer.throttle is None ==> r.throttle == older.throttle,
        newer.pitch is Some ==> r.pitch == newer.pitch,
        newer.pitch is None ==> r.pitch == older.pitch,
        newer.yaw is Some ==> r.yaw == newer.yaw,
        newer.yaw is None ==> r.yaw == older.yaw,
        newer.roll is Some ==> r.roll == newer.roll,
        newer.roll is None ==> r.roll == older.roll,
        newer.sas is Some ==> r.sas == newer.sas,
        newer.sas is None ==> r.sas == older.sas,
        newer.rcs is Some ==> r.rcs == newer.rcs,
        newer.rcs is None ==> r.rcs == older.rcs,
        newer.warp_rate is Some ==> r.warp_rate == newer.warp_rate,
        newer.warp_rate is None ==> r.warp_rate == older.warp_rate,
        newer.maneuver is Some ==> r.maneuver == newer.maneuver,
        newer.maneuver is None ==> r.maneuver == older.maneuver,
        r.stage == (older.stage || newer.stage),
        r.deploy_parachutes == (older.deploy_parachutes || newer.deploy_parachutes),
{
}

/// What a script asks for is noted under the lever or switch that it named, pushed into the
/// range of that lever, and nowhere else.
pub proof fn law_console_notes_what_is_asked(
    throttle: &mut Console,
    rotation: &mut Console,
    switches: &mut Console,
    wanted: Real,
    pitch: Real,
    yaw: Real,
    roll: Real,
    enabled: bool,
)
    requires
        call_ensures(Console::set_throttle, (throttle, wanted), ()),
        call_ensures(Console::set_rotation, (rotation, pitch, yaw, roll), ()),
        call_ensures(Console::set_rcs, (switches, enabled), ()),
        wanted.spec_is_finite(),
        pitch.spec_is_finite() && yaw.spec_is_finite() && roll.spec_is_finite(),
    ensures
        ({
            let set = final(throttle).commands.throttle->0;
            &&& final(throttle).commands.throttle is Some
            &&& 0 <= wanted.value() <= pow2(1074) ==> set == wanted
            &&& wanted.value() < 0 ==> set.value() == 0
            &&& wanted.value() > pow2(1074) ==> set.value() == pow2(1074)
        }),
        *final(throttle) == (Console {
            commands: ScriptCommands {
                throttle: final(throttle).commands.throttle,
                ..old(throttle).commands
            },
            ..*old(throttle)
        }),
        is_pushed(pitch, final(rotation).commands.pitch),
        is_pushed(yaw, final(rotation).commands.yaw),
        is_pushed(roll, final(rotation).commands.roll),
        final(rotation).commands.throttle == old(rotation).commands.throttle,
        final(rotation).commands.sas == old(rotation).commands.sas,
        final(switches).commands.rcs == Some(enabled),
        final(switches).commands.sas == old(switches).commands.sas,
        final(switches).commands.throttle == old(switches).commands.throttle,
{
    law_named_numbers();
    law_integer_has_its_value(0);
    law_integer_has_its_value(1);
    law_whole_numbers_compare(1, wanted);
    law_larger_and_smaller(wanted, Real::spec_of(0), Real::spec_integer(1));
    law_larger_and_smaller(pitch, Real::spec_of(MINUS_ONE), Real::spec_integer(1));
    law_larger_and_smaller(yaw, Real::spec_of(MINUS_ONE), Real::spec_integer(1));
    law_larger_and_smaller(roll, Real::spec_of(MINUS_ONE), Real::spec_integer(1));
}

/// Whether a lever was set to what was wanted, or to the end of its range on that side.
pub open spec fn is_pushed(wanted: Real, lever: Option<Real>) -> bool {
    &&& lever is Some
    &&& -pow2(1074) <= wanted.value() <= pow2(1074) ==> lever->0 == wanted
    &&& wanted.value() < -pow2(1074) ==> lever->0.value() == -pow2(1074)
    &&& wanted.value() > pow2(1074) ==> lever->0.value() == pow2(1074)
}

/// A script's stage, parachutes, rate, manoeuvre and assist are noted each as such.
pub proof fn law_console_notes_orders(
    staging: &mut Console,
    opening: &mut Console,
    warping: &mut Console,
    planning: &mut Console,
    assisting: &mut Console,
    rate: Real,
    ut: Real,
    prograde: Real,
    normal: Real,
    radial: Real,
    name: &str,
    mode: Option<SasMode>,
)
    requires
        call_ensures(Console::stage, (staging,), ()),
        call_ensures(Console::deploy_parachutes, (opening,), ()),
        call_ensures(Console::set_warp, (warping, rate), ()),
        call_ensures(Console::set_maneuver, (planning, ut, prograde, normal, radial), ()),
        call_ensures(Console::set_sas, (assisting, name), ()),
        call_ensures(sas_by_name, (name,), mode),
    ensures
        final(staging).commands.stage,
        final(staging).commands.deploy_parachutes == old(staging).commands.deploy_parachutes,
        final(opening).commands.deploy_parachutes,
        final(opening).commands.stage == old(opening).commands.stage,
        final(warping).commands.warp_rate == Some(rate),
        final(warping).commands.throttle == old(warping).commands.throttle,
        final(planning).commands.maneuver == Some((ut, prograde, normal, radial)),
        final(planning).commands.warp_rate == old(planning).commands.warp_rate,
        final(assisting).commands.sas == Some(mode),
        final(assisting).commands.rcs == old(assisting).commands.rcs,
        final(staging).executed == old(staging).executed && final(staging).logs
            == old(staging).logs,
{
}

/// A script may do a hundred thousand instructions in a tick and not one more; what it did is
/// counted, and a message is kept after those before it.
pub proof fn law_script_is_metered(
    console: &mut Console,
    instructions: u32,
    r: Result<(), String>,
    logging: &mut Console,
    message: String,
)
    requires
        call_ensures(Console::charge, (console, instructions), r),
        call_ensures(Console::log, (logging, message), ()),
    ensures
        r is Ok <==> old(console).executed + instructions <= 100_000,
        r is Ok ==> final(console).executed == old(console).executed + instructions,
        r is Err ==> r->Err_0@ == "script exceeded 100,000 instructions this tick"@,
        final(console).commands == old(console).commands && final(console).logs
            == old(console).logs,
        final(logging).logs@.len() == old(logging).logs@.len() + 1,
        final(logging).logs@.last() == message,
        final(logging).logs@.drop_last() == old(logging).logs@,
        final(logging).commands == old(logging).commands,
        final(logging).executed == old(logging).executed,
{
    assert(final(logging).logs@.drop_last() =~= old(logging).logs@);
}

/// The stability assist has a name for every mode, read without regard to case; "off" turns
/// it off and any other word damps rotation.
pub proof fn law_assist_modes_have_names(name: &str, r: Option<SasMode>)
    requires
        call_ensures(sas_by_name, (name,), r),
    ensures
        ({
            let word = name@.map_values(|c: char| small(c));
            &&& r is None <==> word == "off"@
            &&& word == "prograde"@ <==> r == Some(SasMode::Prograde)
            &&& word == "retrograde"@ <==> r == Some(SasMode::Retrograde)
            &&& word == "normal"@ <==> r == Some(SasMode::Normal)
            &&& word == "antinormal"@ || word == "anti_normal"@ <==> r == Some(
                SasMode::AntiNormal,
            )
            &&& word == "radial_in"@ <==> r == Some(SasMode::RadialIn)
            &&& word == "radial_out"@ <==> r == Some(SasMode::RadialOut)
            &&& word == "maneuver"@ <==> r == Some(SasMode::Maneuver)
        }),
{
    reveal_strlit("off");
    reveal_strlit("prograde");
    reveal_strlit("retrograde");
    reveal_strlit("normal");
    reveal_strlit("antinormal");
    reveal_strlit("anti_normal");
    reveal_strlit("radial_in");
    reveal_strlit("radial_out");
    reveal_strlit("maneuver");
    assert("off"@.len() == 3 && "normal"@.len() == 6 && "prograde"@.len() == 8);
    assert("maneuver"@.len() == 8 && "radial_in"@.len() == 9 && "retrograde"@.len() == 10);
    assert("antinormal"@.len() == 10 && "radial_out"@.len() == 10 && "anti_normal"@.len() == 11);
    assert("prograde"@[0] == 'p' && "maneuver"@[0] == 'm');
    assert("retrograde"@[1] == 'e' && "antinormal"@[1] == 'n' && "radial_out"@[1] == 'a');
}

} // verus!
