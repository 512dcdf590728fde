//! Flight data, the guided mission and the clock.
use crate::number::{
    law_named_numbers, law_order_is_numeric, law_total_order_is_numeric, law_whole_numbers_compare,
    Real, ONE_THOUSANDTH, SIGN,
};
use crate::text::same_text;
use crate::vessel::{FlightSituation, Vessel, HOME_ATMOSPHERE};
use vstd::arithmetic::power2::*;
use vstd::prelude::*;

verus! {

/// The altitude above which a vessel has cleared the tower, in metres.
pub const TOWER_HEIGHT: u32 = 50;

/// The periapsis that makes an orbit of the guided mission, in metres.
pub const ORBIT_PERIAPSIS: u32 = 75_000;

/// The number of stages after which a vessel counts as staged.
pub const STAGED_AFTER: usize = 2;

/// The number of rates of the clock.
pub const WARP_COUNT: usize = 8;

/// The largest place among the rates at which flight is still stepped.
pub const PHYSICS_WARP: usize = 2;

/// How many seconds before a maneuver the clock slows down.
pub const MANEUVER_LEAD: u32 = 30;

/// An orbit.
#[derive(Debug, Clone, Copy, PartialEq, Eq, Structural)]
pub struct OrbitalElements {
    pub semi_major_axis: Real,
    pub eccentricity: Real,
    pub inclination: Real,
    pub apoapsis: Real,
    pub periapsis: Real,
    pub period: Option<Real>,
    pub specific_energy: Real,
}

impl OrbitalElements {
    /// An orbit with all elements zero and no period.
    pub open spec fn zeros() -> Self {
        let zero = Real::spec_of(0);
        OrbitalElements {
            semi_major_axis: zero,
            eccentricity: zero,
            inclination: zero,
            apoapsis: zero,
            periapsis: zero,
            period: None,
            specific_energy: zero,
        }
    }
}

impl Default for OrbitalElements {
    fn default() -> (r: Self)
        ensures
            r == Self::zeros(),
    {
        let zero = Real::zero();
        OrbitalElements {
            semi_major_axis: zero,
            eccentricity: zero,
            inclination: zero,
            apoapsis: zero,
            periapsis: zero,
            period: None,
            specific_energy: zero,
        }
    }
}

/// What the instruments show.
#[derive(Debug, Clone, Copy, PartialEq, Eq, Structural)]
pub struct FlightTelemetry {
    pub ut: Real,
    pub altitude: Real,
    pub radar_altitude: Real,
    pub speed: Real,
    pub surface_speed: Real,
    pub vertical_speed: Real,
    pub mach: Real,
    pub dynamic_pressure: Real,
    pub heating: Real,
    pub mass: Real,
    pub liquid_fuel: Real,
    pub solid_fuel: Real,
    pub monopropellant: Real,
    pub thrust: Real,
    pub twr: Real,
    pub orbit: OrbitalElements,
}

impl FlightTelemetry {
    /// Instruments that all show zero.
    pub open spec fn zeros() -> Self {
        let zero = Real::spec_of(0);
        FlightTelemetry {
            ut: zero,
            altitude: zero,
            radar_altitude: zero,
            speed: zero,
            surface_speed: zero,
            vertical_speed: zero,
            mach: zero,
            dynamic_pressure: zero,
            heating: zero,
            mass: zero,
            liquid_fuel: zero,
            solid_fuel: zero,
            monopropellant: zero,
            thrust: zero,
            twr: zero,
            orbit: OrbitalElements::zeros(),
        }
    }
}

impl Default for FlightTelemetry {
    fn default() -> (r: Self)
        ensures
            r == Self::zeros(),
    {
        let zero = Real::zero();
        FlightTelemetry {
            ut: zero,
            altitude: zero,
            radar_altitude: zero,
            speed: zero,
            surface_speed: zero,
            vertical_speed: zero,
            mach: zero,
            dynamic_pressure: zero,
            heating: zero,
            mass: zero,
            liquid_fuel: zero,
            solid_fuel: zero,
            monopropellant: zero,
            thrust: zero,
            twr: zero,
            orbit: OrbitalElements::default(),
        }
    }
}

/// The goals of the guided mission that have been reached.
#[derive(Debug, Clone, Copy, PartialEq, Eq, Structural)]
pub struct MissionProgress {
    pub launched: bool,
    pub staged: bool,
    pub achieved_orbit: bool,
    pub began_reentry: bool,
    /// The vessel came to rest safely after an orbit and a return into the air. A
    /// landing alone is told by [`FlightSituation::Landed`].
    pub recovered: bool,
}

/// A mission of which no goal is reached.
pub open spec fn fresh_mission() -> MissionProgress {
    MissionProgress {
        launched: false,
        staged: false,
        achieved_orbit: false,
        began_reentry: false,
        recovered: false,
    }
}

impl Default for MissionProgress {
    fn default() -> (r: Self)
        ensures
            r == fresh_mission(),
    {
        MissionProgress {
            launched: false,
            staged: false,
            achieved_orbit: false,
            began_reentry: false,
            recovered: false,
        }
    }
}

/// The goals reached after a step that ends as the arguments say.
pub open spec fn advanced(
    progress: MissionProgress,
    at_home: bool,
    next_stage: usize,
    situation: FlightSituation,
    altitude: Real,
    periapsis: Real,
) -> MissionProgress {
    let orbit = progress.achieved_orbit || at_home && Real::spec_integer(
        ORBIT_PERIAPSIS,
    ).spec_at_most(periapsis);
    let reentry = progress.began_reentry || at_home && orbit && altitude.spec_below(
        Real::spec_integer(HOME_ATMOSPHERE),
    );
    MissionProgress {
        launched: progress.launched || Real::spec_integer(TOWER_HEIGHT).spec_below(altitude),
        staged: progress.staged || next_stage >= STAGED_AFTER,
        achieved_orbit: orbit,
        began_reentry: reentry,
        recovered: progress.recovered || reentry && situation == FlightSituation::Landed,
    }
}

/// Notes the goals that the vessel has reached.
pub fn update_mission(progress: &mut MissionProgress, vessel: &Vessel, telemetry: &FlightTelemetry)
    ensures
        *final(progress) == advanced(
            *old(progress),
            vessel.primary_body@ == "carapace"@,
            vessel.next_stage,
            vessel.situation,
            telemetry.altitude,
            telemetry.orbit.periapsis,
        ),
{
    let at_home = same_text(&vessel.primary_body, "carapace");
    if Real::integer(TOWER_HEIGHT).is_below(telemetry.altitude) {
        progress.launched = true;
    }
    if vessel.next_stage >= STAGED_AFTER {
        progress.staged = true;
    }
    if at_home && Real::integer(ORBIT_PERIAPSIS).is_at_most(telemetry.orbit.periapsis) {
        progress.achieved_orbit = true;
    }
    if at_home && progress.achieved_orbit && telemetry.altitude.is_below(
        Real::integer(HOME_ATMOSPHERE),
    ) {
        progress.began_reentry = true;
    }
    if progress.began_reentry && vessel.situation == FlightSituation::Landed {
        progress.recovered = true;
    }
}

/// Whether every goal of `before` is one of `after`.
pub open spec fn keeps_goals(before: MissionProgress, after: MissionProgress) -> bool {
    &&& before.launched ==> after.launched
    &&& before.staged ==> after.staged
    &&& before.achieved_orbit ==> after.achieved_orbit
    &&& before.began_reentry ==> after.began_reentry
    &&& before.recovered ==> after.recovered
}

/// Whether the goals came in their order: a recovery follows a return into the
/// air, and that an orbit.
pub open spec fn in_order(progress: MissionProgress) -> bool {
    (progress.recovered ==> progress.began_reentry) && (progress.began_reentry
        ==> progress.achieved_orbit)
}

/// A goal once reached stays so.
pub proof fn law_goals_latch(
    progress: MissionProgress,
    at_home: bool,
    next_stage: usize,
    situation: FlightSituation,
    altitude: Real,
    periapsis: Real,
)
    ensures
        keeps_goals(
            progress,
            advanced(progress, at_home, next_stage, situation, altitude, periapsis),
        ),
{
}

/// The goals keep their order: no recovery without a return from orbit.
pub proof fn law_goals_keep_order(
    progress: MissionProgress,
    at_home: bool,
    next_stage: usize,
    situation: FlightSituation,
    altitude: Real,
    periapsis: Real,
)
    requires
        in_order(progress),
    ensures
        in_order(advanced(progress, at_home, next_stage, situation, altitude, periapsis)),
{
}

/// A crash recovers nothing.
pub proof fn law_crash_recovers_nothing(
    progress: MissionProgress,
    at_home: bool,
    next_stage: usize,
    altitude: Real,
    periapsis: Real,
)
    ensures
        advanced(
            progress,
            at_home,
            next_stage,
            FlightSituation::Crashed,
            altitude,
            periapsis,
        ).recovered == progress.recovered,
{
}

/// The clock of the simulation.
#[derive(Debug, Clone, Copy, PartialEq, Eq, Structural)]
pub struct SimulationClock {
    pub universal_time: Real,
    pub warp_index: usize,
    pub paused: bool,
}

/// The seconds that pass in one at that place among the rates; places beyond the
/// last count as the last.
pub open spec fn warp_rate(index: usize) -> u32 {
    if index == 0 {
        1
    } else if index == 1 {
        2
    } else if index == 2 {
        4
    } else if index == 3 {
        10
    } else if index == 4 {
        100
    } else if index == 5 {
        1_000
    } else if index == 6 {
        10_000
    } else {
        100_000
    }
}

/// What a tick of the game is for flight: nothing, so many steps, or a coast as long as so
/// many steps.
#[derive(Debug, Clone, Copy, PartialEq, Eq, Structural)]
pub enum TickPlan {
    Idle,
    Steps(u32),
    Coast(u32),
}

/// What a tick of the game is for flight: nothing while the clock is paused, as many steps
/// as the rate has seconds up to four of them, and else one coast.
pub open spec fn planned(clock: SimulationClock) -> TickPlan {
    let rate = warp_rate(clock.warp_index);
    if clock.paused {
        TickPlan::Idle
    } else if rate <= 4 {
        TickPlan::Steps(rate)
    } else {
        TickPlan::Coast(rate)
    }
}

/// The place of the next slower rate, or of the slowest.
pub open spec fn slower_warp(index: usize) -> usize {
    if index == 0 {
        0
    } else {
        (index - 1) as usize
    }
}

/// The place of the next faster rate, or of the fastest.
pub open spec fn faster_warp(index: usize) -> usize {
    if index < WARP_COUNT - 1 {
        (index + 1) as usize
    } else {
        (WARP_COUNT - 1) as usize
    }
}

/// Whether `after` is the clock `before` with the rate of the least distance, the first of
/// those that share it.
pub open spec fn is_nearest(
    before: SimulationClock,
    after: SimulationClock,
    distances: [Real; 8],
) -> bool {
    &&& after == (SimulationClock { warp_index: after.warp_index, ..before })
    &&& after.warp_index < WARP_COUNT
    &&& forall|k: int|
        0 <= k < WARP_COUNT ==> distances@[after.warp_index as int].total_key() <= (
        #[trigger] distances@[k]).total_key()
    &&& forall|k: int|
        0 <= k < after.warp_index ==> distances@[after.warp_index as int].total_key() < (
        #[trigger] distances@[k]).total_key()
}

/// The place among the rates at which flight is stepped: this one, or the last of those.
pub open spec fn physics_warp(index: usize) -> usize {
    if index > PHYSICS_WARP {
        PHYSICS_WARP
    } else {
        index
    }
}

/// The place among the rates that flight allows: that of a stepped rate under
/// throttle or where a coast is not safe, and the first shortly before a maneuver.
pub open spec fn limited_warp(
    index: usize,
    throttle: Real,
    safe_on_rails: bool,
    until_maneuver: Option<Real>,
) -> usize {
    if until_maneuver is Some && until_maneuver->0.spec_below(Real::spec_integer(MANEUVER_LEAD)) {
        0
    } else if Real::spec_of(ONE_THOUSANDTH).spec_below(throttle) || !safe_on_rails {
        physics_warp(index)
    } else {
        index
    }
}

impl Default for SimulationClock {
    fn default() -> (r: Self)
        ensures
            r == (SimulationClock {
                universal_time: Real::spec_of(0),
                warp_index: 0,
                paused: false,
            }),
    {
        SimulationClock { universal_time: Real::zero(), warp_index: 0, paused: false }
    }
}

impl SimulationClock {
    /// The rates of the clock: the seconds that pass in one.
    pub const WARP_RATES: [u32; 8] = [1, 2, 4, 10, 100, 1_000, 10_000, 100_000];

    /// The rate at that place; places beyond the last count as the last.
    pub fn warp_rate(index: usize) -> (r: u32)
        ensures
            r == warp_rate(index),
    {
        Self::WARP_RATES[if index < WARP_COUNT {
            index
        } else {
            WARP_COUNT - 1
        }]
    }

    /// The seconds that pass in one.
    pub fn rate(&self) -> (r: u32)
        ensures
            r == warp_rate(self.warp_index),
    {
        Self::warp_rate(self.warp_index)
    }

    /// Slows the clock by one rate.
    pub fn slower(&mut self)
        ensures
            *final(self) == (SimulationClock {
                warp_index: slower_warp(old(self).warp_index),
                ..*old(self)
            }),
    {
        if self.warp_index > 0 {
            self.warp_index = self.warp_index - 1;
        }
    }

    /// Speeds the clock up by one rate, up to the last.
    pub fn faster(&mut self)
        ensures
            *final(self) == (SimulationClock {
                warp_index: faster_warp(old(self).warp_index),
                ..*old(self)
            }),
    {
        if self.warp_index < WARP_COUNT - 1 {
            self.warp_index = self.warp_index + 1;
        } else {
            self.warp_index = WARP_COUNT - 1;
        }
    }

    /// Slows the clock down to rates at which flight is stepped.
    pub fn limit_to_physics(&mut self)
        ensures
            *final(self) == (SimulationClock {
                warp_index: physics_warp(old(self).warp_index),
                ..*old(self)
            }),
    {
        if self.warp_index > PHYSICS_WARP {
            self.warp_index = PHYSICS_WARP;
        }
    }

    /// Sets the rate of the least distance, the first of those that share it.
    /// `distances` holds the distance of each rate from the one that was asked for.
    pub fn nearest(&mut self, distances: &[Real; 8])
        ensures
            is_nearest(*old(self), *final(self), *distances),
    {
        let mut least: usize = 0;
        for i in 0..WARP_COUNT
            invariant
                least < WARP_COUNT,
                least <= i,
                forall|k: int|
                    0 <= k < i ==> distances@[least as int].total_key() <= (
                    #[trigger] distances@[k]).total_key(),
                forall|k: int|
                    0 <= k < least ==> distances@[least as int].total_key() < (
                    #[trigger] distances@[k]).total_key(),
        {
            if distances[i].precedes(distances[least]) {
                least = i;
            }
        }
        self.warp_index = least;
    }

    /// Slows the clock for what lies ahead: to the rates of stepped flight under
    /// throttle or where a coast is not safe, and to the first rate shortly before a
    /// maneuver, which is due in `until_maneuver` seconds.
    pub fn limit_for_flight(
        &mut self,
        throttle: Real,
        safe_on_rails: bool,
        until_maneuver: Option<Real>,
    )
        ensures
            *final(self) == (SimulationClock {
                warp_index: limited_warp(
                    old(self).warp_index,
                    throttle,
                    safe_on_rails,
                    until_maneuver,
                ),
                ..*old(self)
            }),
    {
        if Real::of(ONE_THOUSANDTH).is_below(throttle) || !safe_on_rails {
            self.limit_to_physics();
        }
        if let Some(time) = until_maneuver {
            if time.is_below(Real::integer(MANEUVER_LEAD)) {
                self.warp_index = 0;
            }
        }
    }

    /// Stops the clock, or lets it run again.
    pub fn toggle_pause(&mut self)
        ensures
            *final(self) == (SimulationClock { paused: !old(self).paused, ..*old(self) }),
    {
        self.paused = !self.paused;
    }

    /// What a tick of the game is for flight.
    pub fn plan(&self) -> (r: TickPlan)
        ensures
            r == planned(*self),
    {
        if self.paused {
            TickPlan::Idle
        } else if self.steps_physics() {
            TickPlan::Steps(self.rate())
        } else {
            TickPlan::Coast(self.rate())
        }
    }

    /// Whether flight is stepped at the present rate; else the vessel coasts.
    pub fn steps_physics(&self) -> (r: bool)
        ensures
            r == (warp_rate(self.warp_index) <= 4),
            r == (self.warp_index <= PHYSICS_WARP),
    {
        self.rate() <= 4
    }
}

/// Under throttle, and where a coast is not safe, flight is stepped; and a limit
/// never speeds the clock up.
pub proof fn law_powered_flight_is_stepped(
    index: usize,
    throttle: Real,
    safe_on_rails: bool,
    until_maneuver: Option<Real>,
)
    ensures
        limited_warp(index, throttle, safe_on_rails, until_maneuver) <= index,
        Real::spec_of(ONE_THOUSANDTH).spec_below(throttle) || !safe_on_rails ==> warp_rate(
            limited_warp(index, throttle, safe_on_rails, until_maneuver),
        ) <= 4,
{
}

/// A paused clock lets nothing happen, and a running one always something; under throttle,
/// and where a coast is not safe, that is one step to four.
pub proof fn law_paused_flight_rests(
    clock: SimulationClock,
    throttle: Real,
    safe_on_rails: bool,
    until_maneuver: Option<Real>,
)
    ensures
        planned(clock) is Idle <==> clock.paused,
        !clock.paused && (Real::spec_of(ONE_THOUSANDTH).spec_below(throttle) || !safe_on_rails)
            ==> {
            let limited = SimulationClock {
                warp_index: limited_warp(
                    clock.warp_index,
                    throttle,
                    safe_on_rails,
                    until_maneuver,
                ),
                ..clock
            };
            planned(limited) is Steps && 1 <= planned(limited)->Steps_0 <= 4
        },
{
}

/// The rates ascend, and none is the same as another.
pub proof fn law_rates_ascend(i: usize, j: usize)
    requires
        i < j < WARP_COUNT,
    ensures
        warp_rate(i) < warp_rate(j),
{
}

/// A goal is reached where it was before, and else exactly so: the launch above fifty metres,
/// the staging once two stages were fired, the orbit about the home body with its lowest point
/// at seventy-five kilometres or above, the return below seventy kilometres there after an
/// orbit, and the recovery by a landing after a return.
pub proof fn law_goals_are_reached(
    progress: &mut MissionProgress,
    vessel: &Vessel,
    telemetry: &FlightTelemetry,
)
    requires
        call_ensures(update_mission, (progress, vessel, telemetry), ()),
        telemetry.altitude.spec_is_finite(),
        telemetry.orbit.periapsis.spec_is_finite(),
    ensures
        final(progress).launched == (old(progress).launched || telemetry.altitude.value() > 50
            * pow2(1074)),
        final(progress).staged == (old(progress).staged || vessel.next_stage >= 2),
        final(progress).achieved_orbit == (old(progress).achieved_orbit || vessel.primary_body@
            == "carapace"@ && telemetry.orbit.periapsis.value() >= 75_000 * pow2(1074)),
        final(progress).began_reentry == (old(progress).began_reentry || vessel.primary_body@
            == "carapace"@ && final(progress).achieved_orbit && telemetry.altitude.value() < 70_000
            * pow2(1074)),
        final(progress).recovered == (old(progress).recovered || final(progress).began_reentry
            && vessel.situation is Landed),
{
    law_whole_numbers_compare(50, telemetry.altitude);
    law_whole_numbers_compare(75_000, telemetry.orbit.periapsis);
    law_whole_numbers_compare(70_000, telemetry.altitude);
}

/// The clock runs at one of eight rates; an index beyond the last stands for the last.
pub proof fn law_clock_rates(index: usize, clock: &SimulationClock, r: u32, own: u32)
    requires
        call_ensures(SimulationClock::warp_rate, (index,), r),
        call_ensures(SimulationClock::rate, (clock,), own),
        clock.warp_index == index,
    ensures
        own == r,
        index < 8 ==> r == seq![1u32, 2, 4, 10, 100, 1_000, 10_000, 100_000][index as int],
        index >= 8 ==> r == 100_000,
{
}

/// The keys for the rate lead one up and one down, and undo each other but at the ends. They
/// touch neither the time nor the pause.
pub proof fn law_rate_keys_undo_each_other(
    up: &mut SimulationClock,
    down: &mut SimulationClock,
    low: &mut SimulationClock,
    high: &mut SimulationClock,
)
    requires
        call_ensures(SimulationClock::faster, (up,), ()),
        *old(down) == *final(up),
        call_ensures(SimulationClock::slower, (down,), ()),
        call_ensures(SimulationClock::slower, (low,), ()),
        *old(high) == *final(low),
        call_ensures(SimulationClock::faster, (high,), ()),
    ensures
        old(up).warp_index < 7 ==> final(up).warp_index == old(up).warp_index + 1 && *final(down)
            == *old(up),
        old(up).warp_index >= 7 ==> final(up).warp_index == 7,
        0 < old(low).warp_index <= 7 ==> final(low).warp_index == old(low).warp_index - 1
            && *final(high) == *old(low),
        old(low).warp_index == 0 ==> *final(low) == *old(low),
        final(up).universal_time == old(up).universal_time && final(up).paused == old(up).paused,
        final(low).universal_time == old(low).universal_time && final(low).paused
            == old(low).paused,
{
}

/// The pause key stops the clock and starts it again; a stopped clock does nothing, one at the
/// three slow rates steps as often as the rate says, and a faster one coasts.
pub proof fn law_clock_stops_and_goes(
    clock: &mut SimulationClock,
    again: &mut SimulationClock,
    plan: TickPlan,
    steps: bool,
    rate: u32,
)
    requires
        call_ensures(SimulationClock::toggle_pause, (clock,), ()),
        *old(again) == *final(clock),
        call_ensures(SimulationClock::toggle_pause, (again,), ()),
        call_ensures(SimulationClock::plan, (&*old(clock),), plan),
        call_ensures(SimulationClock::steps_physics, (&*old(clock),), steps),
        call_ensures(SimulationClock::rate, (&*old(clock),), rate),
    ensures
        final(clock).paused != old(clock).paused,
        *final(again) == *old(clock),
        plan is Idle <==> old(clock).paused,
        !old(clock).paused && old(clock).warp_index <= 2 ==> plan == TickPlan::Steps(rate),
        !old(clock).paused && old(clock).warp_index > 2 ==> plan == TickPlan::Coast(rate),
        steps <==> old(clock).warp_index <= 2,
{
}

/// Before a flight event the clock slows down and never speeds up: to real time within thirty
/// seconds of a manoeuvre, else to stepped flight while the engines burn or the coast is not
/// safe; otherwise it runs on as it did.
pub proof fn law_clock_slows_for_flight(
    clock: &mut SimulationClock,
    stepped: &mut SimulationClock,
    throttle: Real,
    safe_on_rails: bool,
    until_maneuver: Option<Real>,
)
    requires
        call_ensures(
            SimulationClock::limit_for_flight,
            (clock, throttle, safe_on_rails, until_maneuver),
            (),
        ),
        call_ensures(SimulationClock::limit_to_physics, (stepped,), ()),
        throttle.spec_is_finite(),
        until_maneuver is Some ==> until_maneuver->0.spec_is_finite(),
    ensures
        ({
            let near = until_maneuver is Some && until_maneuver->0.value() < 30 * pow2(1074);
            let burning = throttle.value() > Real::spec_of(ONE_THOUSANDTH).value();
            let index = old(clock).warp_index;
            &&& near ==> final(clock).warp_index == 0
            &&& !near && (burning || !safe_on_rails) ==> final(clock).warp_index == if index > 2 {
                2usize
            } else {
                index
            }
            &&& !near && !burning && safe_on_rails ==> final(clock).warp_index == index
        }),
        final(clock).warp_index <= old(clock).warp_index,
        final(clock).universal_time == old(clock).universal_time && final(clock).paused
            == old(clock).paused,
        final(stepped).warp_index <= 2 && final(stepped).warp_index <= old(stepped).warp_index,
        old(stepped).warp_index <= 2 ==> *final(stepped) == *old(stepped),
        old(stepped).warp_index > 2 ==> final(stepped).warp_index == 2,
{
    law_named_numbers();
    law_order_is_numeric(Real::spec_of(ONE_THOUSANDTH), throttle);
    if until_maneuver is Some {
        law_whole_numbers_compare(30, until_maneuver->0);
    }
}

/// The rate that is set is the first of those that lie nearest to what was asked for.
pub proof fn law_nearest_rate_is_set(clock: &mut SimulationClock, distances: &[Real; 8], k: int)
    requires
        call_ensures(SimulationClock::nearest, (clock, distances), ()),
        forall|k: int|
            0 <= k < 8 ==> (#[trigger] distances@[k]).spec_is_finite() && distances@[k].bits < SIGN,
        0 <= k < 8,
    ensures
        final(clock).warp_index < 8,
        distances@[final(clock).warp_index as int].value() <= distances@[k].value(),
        k < final(clock).warp_index ==> distances@[final(clock).warp_index as int].value()
            < distances@[k].value(),
        final(clock).universal_time == old(clock).universal_time && final(clock).paused
            == old(clock).paused,
{
    let least = distances@[final(clock).warp_index as int];
    law_total_order_is_numeric(least, distances@[k]);
    law_total_order_is_numeric(distances@[k], least);
}

} // verus!
