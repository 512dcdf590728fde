//! The celestial system and the choices that patched orbits rest on.
use crate::craft::lemma_filter_step;
use crate::number::{
    law_named_numbers, law_no_number_compares, law_order_is_numeric, law_whole_numbers_compare,
    Real, EPSILON, SIGN,
};
use crate::text::same_text;
use crate::vessel::{FlightSituation, HOME_ATMOSPHERE, HOME_RADIUS};
use vstd::arithmetic::power2::*;
use vstd::prelude::*;

verus! {

/// How far above an atmosphere a vessel may coast without stepping, in metres.
pub const ON_RAILS_CLEARANCE: u32 = 5_000;

/// How far above the ground a vessel rests, in metres.
pub const GROUND_CLEARANCE: u32 = 5;

/// How many changes of the primary body one coast may hold.
pub const MAX_SOI_TRANSITIONS_PER_STEP: u32 = 8;

/// An atmosphere.
#[derive(Debug, Clone, Copy, PartialEq, Eq, Structural)]
pub struct AtmosphereDef {
    /// Metres.
    pub height: u32,
    /// Grams in a cubic metre.
    pub sea_level_density: u32,
    /// Metres.
    pub scale_height: u32,
}

/// A celestial body on a circular orbit.
#[derive(Debug, Clone, Copy)]
pub struct CelestialBodyDef {
    pub id: &'static str,
    pub name: &'static str,
    pub parent: Option<&'static str>,
    /// Metres.
    pub radius: u32,
    /// Cubic metres in a square second.
    pub mu: u64,
    /// Seconds.
    pub rotation_period: u32,
    /// Metres.
    pub semi_major_axis: u64,
    /// Thousandths of a radian at time zero.
    pub phase: u32,
    pub atmosphere: Option<AtmosphereDef>,
}

/// A body with its texts as sequences of characters.
pub struct BodyView {
    pub id: Seq<char>,
    pub name: Seq<char>,
    pub parent: Option<Seq<char>>,
    pub radius: u32,
    pub mu: u64,
    pub rotation_period: u32,
    pub semi_major_axis: u64,
    pub phase: u32,
    pub atmosphere: Option<AtmosphereDef>,
}

impl View for CelestialBodyDef {
    type V = BodyView;

    open spec fn view(&self) -> BodyView {
        BodyView {
            id: self.id@,
            name: self.name@,
            parent: match self.parent {
                Some(parent) => Some(parent@),
                None => None,
            },
            radius: self.radius,
            mu: self.mu,
            rotation_period: self.rotation_period,
            semi_major_axis: self.semi_major_axis,
            phase: self.phase,
            atmosphere: self.atmosphere,
        }
    }
}

/// The star.
pub open spec fn pelagos() -> BodyView {
    BodyView {
        id: "pelagos"@,
        name: "Pelagos"@,
        parent: None,
        radius: 69_600_000,
        mu: 1_327_000_000_000_000_000,
        rotation_period: 2_160_000,
        semi_major_axis: 0,
        phase: 0,
        atmosphere: None,
    }
}

/// The home world.
pub open spec fn carapace() -> BodyView {
    BodyView {
        id: "carapace"@,
        name: "Carapace"@,
        parent: Some("pelagos"@),
        radius: HOME_RADIUS,
        mu: 3_532_000_000_000,
        rotation_period: 21_600,
        semi_major_axis: 13_600_000_000,
        phase: 0,
        atmosphere: Some(
            AtmosphereDef {
                height: HOME_ATMOSPHERE,
                sea_level_density: 1_225,
                scale_height: 8_500,
            },
        ),
    }
}

/// The moon of the home world.
pub open spec fn selene() -> BodyView {
    BodyView {
        id: "selene"@,
        name: "Selene"@,
        parent: Some("carapace"@),
        radius: 200_000,
        mu: 65_140_000_000,
        rotation_period: 138_000,
        semi_major_axis: 12_000_000,
        phase: 800,
        atmosphere: None,
    }
}

/// The red world.
pub open spec fn ferrum() -> BodyView {
    BodyView {
        id: "ferrum"@,
        name: "Ferrum"@,
        parent: Some("pelagos"@),
        radius: 320_000,
        mu: 500_000_000_000,
        rotation_period: 40_000,
        semi_major_axis: 22_000_000_000,
        phase: 2_200,
        atmosphere: Some(
            AtmosphereDef { height: 35_000, sea_level_density: 180, scale_height: 6_000 },
        ),
    }
}

/// All bodies.
pub open spec fn system() -> Seq<BodyView> {
    seq![pelagos(), carapace(), selene(), ferrum()]
}

/// The bodies with their texts as sequences of characters.
pub open spec fn bodies_view(bodies: Seq<CelestialBodyDef>) -> Seq<BodyView> {
    bodies.map_values(|body: CelestialBodyDef| body@)
}

/// All bodies.
pub fn celestial_system() -> (r: Vec<CelestialBodyDef>)
    ensures
        bodies_view(r@) == system(),
{
    let r = vec![
        CelestialBodyDef {
            id: "pelagos",
            name: "Pelagos",
            parent: None,
            radius: 69_600_000,
            mu: 1_327_000_000_000_000_000,
            rotation_period: 2_160_000,
            semi_major_axis: 0,
            phase: 0,
            atmosphere: None,
        },
        CelestialBodyDef {
            id: "carapace",
            name: "Carapace",
            parent: Some("pelagos"),
            radius: HOME_RADIUS,
            mu: 3_532_000_000_000,
            rotation_period: 21_600,
            semi_major_axis: 13_600_000_000,
            phase: 0,
            atmosphere: Some(
                AtmosphereDef {
                    height: HOME_ATMOSPHERE,
                    sea_level_density: 1_225,
                    scale_height: 8_500,
                },
            ),
        },
        CelestialBodyDef {
            id: "selene",
            name: "Selene",
            parent: Some("carapace"),
            radius: 200_000,
            mu: 65_140_000_000,
            rotation_period: 138_000,
            semi_major_axis: 12_000_000,
            phase: 800,
            atmosphere: None,
        },
        CelestialBodyDef {
            id: "ferrum",
            name: "Ferrum",
            parent: Some("pelagos"),
            radius: 320_000,
            mu: 500_000_000_000,
            rotation_period: 40_000,
            semi_major_axis: 22_000_000_000,
            phase: 2_200,
            atmosphere: Some(
                AtmosphereDef { height: 35_000, sea_level_density: 180, scale_height: 6_000 },
            ),
        },
    ];
    proof {
        assert(bodies_view(r@) =~= system());
    }
    r
}

/// Whether a body has that identifier.
pub open spec fn is_known(id: Seq<char>) -> bool {
    exists|i: int| 0 <= i < system().len() && (#[trigger] system()[i]).id == id
}

/// The body with that identifier, or the home world where there is none.
pub open spec fn body(id: Seq<char>) -> BodyView {
    if id == pelagos().id {
        pelagos()
    } else if id == selene().id {
        selene()
    } else if id == ferrum().id {
        ferrum()
    } else {
        carapace()
    }
}

/// No two bodies share an identifier.
pub proof fn law_bodies_are_distinct(i: int, j: int)
    requires
        0 <= i < j < system().len(),
    ensures
        system()[i].id != system()[j].id,
{
    reveal_strlit("pelagos");
    reveal_strlit("carapace");
    reveal_strlit("selene");
    reveal_strlit("ferrum");
    assert("pelagos"@[0] == 'p');
    assert("carapace"@[0] == 'c');
    assert("selene"@[0] == 's');
    assert("ferrum"@[0] == 'f');
}

/// A known identifier names its own body, and an unknown one the home world.
pub proof fn law_body_lookup(id: Seq<char>)
    ensures
        is_known(id) ==> body(id).id == id,
        !is_known(id) ==> body(id) == carapace(),
        system().contains(body(id)),
{
    assert(system()[0] == pelagos() && system()[1] == carapace() && system()[2] == selene()
        && system()[3] == ferrum());
    assert(system().len() == 4);
    if is_known(id) {
        let i = choose|i: int| 0 <= i < system().len() && (#[trigger] system()[i]).id == id;
        assert(i == 0 || i == 1 || i == 2 || i == 3);
    } else {
        assert(system()[0].id != id && system()[2].id != id && system()[3].id != id);
    }
}

/// The body with that identifier, or the home world where there is none.
pub fn body_definition(id: &str) -> (r: CelestialBodyDef)
    ensures
        r@ == body(id@),
{
    let bodies = celestial_system();
    proof {
        assert(bodies@.len() == bodies_view(bodies@).len());
        assert forall|i: int| 0 <= i < 4 implies #[trigger] bodies@[i]@ == system()[i] by {
            assert(bodies_view(bodies@)[i] == bodies@[i]@);
        }
        law_bodies_are_distinct(0, 1);
        law_bodies_are_distinct(1, 2);
        law_bodies_are_distinct(1, 3);
    }
    for i in 0..bodies.len()
        invariant
            bodies@.len() == 4,
            forall|k: int| 0 <= k < 4 ==> #[trigger] bodies@[k]@ == system()[k],
            forall|k: int| 0 <= k < i ==> (#[trigger] bodies@[k]).id@ != id@,
            carapace().id != pelagos().id && carapace().id != selene().id && carapace().id
                != ferrum().id,
    {
        if same_text(bodies[i].id, id) {
            proof {
                assert(bodies@[i as int]@ == system()[i as int]);
                assert(i > 0 ==> bodies@[0].id@ != id@ && bodies@[0]@ == pelagos());
                assert(i > 2 ==> bodies@[2].id@ != id@ && bodies@[2]@ == selene());
                assert(i == 0 || i == 1 || i == 2 || i == 3);
            }
            return bodies[i];
        }
    }
    proof {
        assert(bodies@[0]@ == pelagos() && bodies@[1]@ == carapace() && bodies@[2]@ == selene()
            && bodies@[3]@ == ferrum());
        assert(bodies@[0].id@ != id@ && bodies@[2].id@ != id@ && bodies@[3].id@ != id@);
    }
    bodies[1]
}

/// The bodies from the star down to the body `id`, each the parent of the next.
pub open spec fn ancestry(id: Seq<char>) -> Seq<BodyView> {
    if body(id) == pelagos() {
        seq![pelagos()]
    } else if body(id) == selene() {
        seq![pelagos(), carapace(), selene()]
    } else {
        seq![pelagos(), body(id)]
    }
}

/// The ancestry of a body starts at the body without a parent, each body in it is
/// the parent of the next, and it ends with the body itself.
pub proof fn law_ancestry(id: Seq<char>)
    ensures
        1 <= ancestry(id).len() <= 3,
        ancestry(id)[0].parent is None,
        ancestry(id).last() == body(id),
        forall|k: int|
            0 < k < ancestry(id).len() ==> (#[trigger] ancestry(id)[k]).parent == Some(
                ancestry(id)[k - 1].id,
            ),
        forall|k: int|
            0 <= k < ancestry(id).len() ==> body((#[trigger] ancestry(id)[k]).id)
                == ancestry(id)[k],
{
    law_bodies_are_distinct(0, 1);
    law_bodies_are_distinct(0, 2);
    law_bodies_are_distinct(0, 3);
    law_bodies_are_distinct(1, 2);
    law_bodies_are_distinct(1, 3);
    law_bodies_are_distinct(2, 3);
    assert(system()[0] == pelagos() && system()[1] == carapace() && system()[2] == selene()
        && system()[3] == ferrum());
}

/// The bodies from the star down to the body `id`, each the parent of the next.
pub fn ancestors(id: &str) -> (r: Vec<CelestialBodyDef>)
    ensures
        bodies_view(r@) == ancestry(id@),
{
    proof {
        law_ancestry(id@);
    }
    let mut current = body_definition(id);
    let mut chain = vec![current];
    let ghost all = ancestry(id@);
    proof {
        assert(bodies_view(chain@) =~= all.skip(all.len() - 1));
    }
    loop
        invariant
            all == ancestry(id@),
            1 <= chain.len() <= all.len(),
            chain@[0] == current,
            bodies_view(chain@) == all.skip(all.len() - chain.len()),
            current@ == all[all.len() - chain.len()],
            all[0].parent is None,
            forall|k: int|
                0 < k < all.len() ==> (#[trigger] all[k]).parent == Some(all[k - 1].id),
            forall|k: int| 0 <= k < all.len() ==> body((#[trigger] all[k]).id) == all[k],
        ensures
            chain.len() == all.len(),
            bodies_view(chain@) == all.skip(0),
        decreases all.len() - chain.len(),
    {
        let parent = match current.parent {
            Some(parent) => parent,
            None => {
                break;
            },
        };
        let ghost place = all.len() - chain.len();
        let ghost prior = chain@;
        current = body_definition(parent);
        chain.insert(0, current);
        proof {
            assert(all[place].parent == Some(all[place - 1].id));
            assert(body(all[place - 1].id) == all[place - 1]);
            assert(bodies_view(chain@) =~= seq![current@] + bodies_view(prior));
            assert(seq![all[place - 1]] + all.skip(place) =~= all.skip(place - 1));
        }
    }
    proof {
        assert(all.skip(0) =~= all);
    }
    chain
}

/// The bodies that circle the body `id`.
pub open spec fn satellites_of(id: Seq<char>) -> Seq<BodyView> {
    system().filter(|b: BodyView| b.parent == Some(id))
}

/// The bodies that circle the body `id`, in the order of the system.
pub fn satellites(id: &str) -> (r: Vec<CelestialBodyDef>)
    ensures
        bodies_view(r@) == satellites_of(id@),
{
    let ghost circles = |b: BodyView| b.parent == Some(id@);
    let bodies = celestial_system();
    let mut r: Vec<CelestialBodyDef> = Vec::new();
    proof {
        assert(bodies@.len() == bodies_view(bodies@).len());
        reveal(Seq::filter);
        assert(bodies_view(r@) =~= system().take(0).filter(circles));
    }
    for i in 0..bodies.len()
        invariant
            circles == (|b: BodyView| b.parent == Some(id@)),
            bodies_view(bodies@) == system(),
            bodies@.len() == system().len(),
            bodies_view(r@) == system().take(i as int).filter(circles),
    {
        let candidate = bodies[i];
        proof {
            assert(bodies_view(bodies@)[i as int] == candidate@);
            lemma_filter_step(system(), circles, i as int);
        }
        let ghost prior = r@;
        if let Some(parent) = candidate.parent {
            if same_text(parent, id) {
                r.push(candidate);
                proof {
                    assert(bodies_view(r@) =~= bodies_view(prior).push(candidate@));
                }
            }
        }
    }
    proof {
        assert(system().take(system().len() as int) =~= system());
    }
    r
}

impl CelestialBodyDef {
    /// The height of the atmosphere, in metres; nothing without one.
    pub open spec fn spec_atmosphere_height(&self) -> u32 {
        match self.atmosphere {
            Some(atmosphere) => atmosphere.height,
            None => 0,
        }
    }

    /// The height of the atmosphere, in metres; nothing without one.
    pub fn atmosphere_height(&self) -> (r: u32)
        ensures
            r == self.spec_atmosphere_height(),
    {
        match self.atmosphere {
            Some(atmosphere) => atmosphere.height,
            None => 0,
        }
    }

    /// The air at that altitude belongs to this atmosphere, if any.
    pub fn air_at(&self, altitude: Real) -> (r: Option<AtmosphereDef>)
        ensures
            r == (if self.atmosphere is Some && !Real::spec_integer(
                self.atmosphere->0.height,
            ).spec_at_most(altitude) {
                self.atmosphere
            } else {
                None
            }),
    {
        match self.atmosphere {
            Some(atmosphere) => {
                if Real::integer(atmosphere.height).is_at_most(altitude) {
                    None
                } else {
                    Some(atmosphere)
                }
            },
            None => None,
        }
    }
}

/// Whether a vessel is clear of the air and will stay so on its orbit.
pub open spec fn is_in_orbit(altitude: Real, periapsis: Real, atmosphere_height: u32) -> bool {
    Real::spec_integer(atmosphere_height).spec_below(altitude) && Real::spec_integer(
        atmosphere_height,
    ).spec_below(periapsis)
}

/// Whether a vessel is clear of the air and will stay so on its orbit.
pub fn in_orbit(altitude: Real, periapsis: Real, atmosphere_height: u32) -> (r: bool)
    ensures
        r == is_in_orbit(altitude, periapsis, atmosphere_height),
{
    let height = Real::integer(atmosphere_height);
    height.is_below(altitude) && height.is_below(periapsis)
}

/// Whether a vessel may take another coast of many seconds at once: it is in
/// orbit, well above the air, and comes no lower on its path. `revisits` says
/// whether the path leads to its lowest point again.
pub fn on_rails_warp_is_safe(
    situation: FlightSituation,
    body: &CelestialBodyDef,
    altitude: Real,
    revisits: bool,
    periapsis: Real,
) -> (r: bool)
    requires
        body.spec_atmosphere_height() <= u32::MAX - ON_RAILS_CLEARANCE,
    ensures
        r == ({
            let lowest = Real::spec_integer(
                (body.spec_atmosphere_height() + ON_RAILS_CLEARANCE) as u32,
            );
            &&& situation == FlightSituation::Orbiting
            &&& !altitude.spec_below(lowest)
            &&& !revisits || lowest.spec_at_most(periapsis)
        }),
{
    if situation != FlightSituation::Orbiting {
        return false;
    }
    let lowest = Real::integer(body.atmosphere_height() + ON_RAILS_CLEARANCE);
    if altitude.is_below(lowest) {
        return false;
    }
    !revisits || lowest.is_at_most(periapsis)
}

/// Whether a coast reaches the ground: the vessel is there already, or passes a
/// periapsis at ground level in time.
pub open spec fn reaches_surface(
    radius: u32,
    distance: Real,
    periapsis: Real,
    until_periapsis: Option<Real>,
    dt: Real,
) -> bool {
    ||| distance.spec_at_most(Real::spec_integer((radius + GROUND_CLEARANCE) as u32))
    ||| !Real::spec_integer(GROUND_CLEARANCE).spec_below(periapsis) && until_periapsis is Some
        && until_periapsis->0.spec_at_most(dt)
}

/// Whether a coast reaches the ground: the vessel is there already, or passes a
/// periapsis at ground level in time. `distance` is that to the centre of the body,
/// and `until_periapsis` the time to the periapsis, if the path leads there.
pub fn trajectory_reaches_surface(
    radius: u32,
    distance: Real,
    periapsis: Real,
    until_periapsis: Option<Real>,
    dt: Real,
) -> (r: bool)
    requires
        radius <= u32::MAX - GROUND_CLEARANCE,
    ensures
        r == reaches_surface(radius, distance, periapsis, until_periapsis, dt),
{
    if distance.is_at_most(Real::integer(radius + GROUND_CLEARANCE)) {
        return true;
    }
    if Real::integer(GROUND_CLEARANCE).is_below(periapsis) {
        return false;
    }
    match until_periapsis {
        Some(time) => time.is_at_most(dt),
        None => false,
    }
}

/// What a vessel is doing after a coast: it has crashed where it met the ground,
/// and else it is in orbit or flies.
pub open spec fn situation_after(
    body: CelestialBodyDef,
    surface_encountered: bool,
    altitude: Real,
    periapsis: Real,
) -> FlightSituation {
    if surface_encountered || altitude.spec_at_most(Real::spec_integer(GROUND_CLEARANCE)) {
        FlightSituation::Crashed
    } else if is_in_orbit(altitude, periapsis, body.spec_atmosphere_height()) {
        FlightSituation::Orbiting
    } else {
        FlightSituation::Flying
    }
}

/// What a vessel is doing after a coast: it has crashed where it met the ground,
/// and else it is in orbit or flies.
pub fn rails_situation(
    body: &CelestialBodyDef,
    surface_encountered: bool,
    altitude: Real,
    periapsis: Real,
) -> (r: FlightSituation)
    ensures
        r == situation_after(*body, surface_encountered, altitude, periapsis),
{
    if surface_encountered || altitude.is_at_most(Real::integer(GROUND_CLEARANCE)) {
        FlightSituation::Crashed
    } else if in_orbit(altitude, periapsis, body.atmosphere_height()) {
        FlightSituation::Orbiting
    } else {
        FlightSituation::Flying
    }
}

/// Whether the change of primary body that comes next is an entry into the reach
/// of a satellite (`true`) or the exit from the present one (`false`), given when
/// each would come.
pub fn next_soi_transition(entering: Option<Real>, exiting: Option<Real>) -> (r: Option<bool>)
    ensures
        r == (match (entering, exiting) {
            (Some(enter), Some(exit)) => Some(enter.spec_at_most(exit)),
            (Some(_), None) => Some(true),
            (None, Some(_)) => Some(false),
            (None, None) => None,
        }),
{
    match (entering, exiting) {
        (Some(enter), Some(exit)) => Some(enter.is_at_most(exit)),
        (Some(_), None) => Some(true),
        (None, Some(_)) => Some(false),
        (None, None) => None,
    }
}

/// The satellite that is met first: the first of those with the earliest time.
pub fn first_child_soi_encounter(times: &Vec<Option<Real>>) -> (r: Option<usize>)
    ensures
        match r {
            Some(first) => {
                &&& first < times.len()
                &&& times@[first as int] is Some
                &&& forall|k: int|
                    0 <= k < times.len() && (#[trigger] times@[k]) is Some ==> {
                        &&& times@[first as int]->0.total_key() <= times@[k]->0.total_key()
                        &&& k < first ==> times@[first as int]->0.total_key()
                            < times@[k]->0.total_key()
                    }
            },
            None => forall|k: int| 0 <= k < times.len() ==> (#[trigger] times@[k]) is None,
        },
{
    let mut found: Option<usize> = None;
    for i in 0..times.len()
        invariant
            match found {
                Some(first) => {
                    &&& first < i
                    &&& times@[first as int] is Some
                    &&& forall|k: int|
                        0 <= k < i && (#[trigger] times@[k]) is Some ==> {
                            &&& times@[first as int]->0.total_key() <= times@[k]->0.total_key()
                            &&& k < first ==> times@[first as int]->0.total_key()
                                < times@[k]->0.total_key()
                        }
                },
                None => forall|k: int| 0 <= k < i ==> (#[trigger] times@[k]) is None,
            },
    {
        if let Some(time) = times[i] {
            found = match found {
                Some(first) => {
                    let earliest = match times[first] {
                        Some(earliest) => earliest,
                        None => time,
                    };
                    if time.precedes(earliest) {
                        Some(i)
                    } else {
                        Some(first)
                    }
                },
                None => Some(i),
            };
        }
    }
    found
}

/// Where a vessel that has come to rest in the reach of another body belongs.
#[derive(Debug, Clone, Copy, PartialEq, Eq, Structural)]
pub enum SoiChange {
    /// The vessel stays with its body.
    Stay,
    /// The vessel has left for the parent.
    Release,
    /// The vessel is captured by the satellite at that place of the list.
    Capture(usize),
}

/// Whether the change is the one that is due: to the body that the vessel's own circles, where
/// it has left its reach; else to the first satellite that has captured it; else none.
pub open spec fn is_soi_change(
    has_parent: bool,
    released: bool,
    captured: Seq<bool>,
    change: SoiChange,
) -> bool {
    match change {
        SoiChange::Release => has_parent && released,
        SoiChange::Capture(first) => {
            &&& !(has_parent && released)
            &&& first < captured.len() && captured[first as int]
            &&& forall|k: int| 0 <= k < first ==> !#[trigger] captured[k]
        },
        SoiChange::Stay => {
            &&& !(has_parent && released)
            &&& forall|k: int| 0 <= k < captured.len() ==> !#[trigger] captured[k]
        },
    }
}

/// Whether a vessel changes its primary body: it leaves a body that has a parent
/// when it is out of its reach, and else joins the first satellite that holds it.
pub fn soi_change(has_parent: bool, released: bool, captured: &Vec<bool>) -> (r: SoiChange)
    ensures
        is_soi_change(has_parent, released, captured@, r),
{
    if has_parent && released {
        return SoiChange::Release;
    }
    for i in 0..captured.len()
        invariant
            !(has_parent && released),
            forall|k: int| 0 <= k < i ==> !#[trigger] captured@[k],
    {
        if captured[i] {
            return SoiChange::Capture(i);
        }
    }
    SoiChange::Stay
}

/// What a patched coast does next.
#[derive(Debug, Clone, Copy, PartialEq, Eq, Structural)]
pub enum RailsStep {
    /// Coast for the rest of the time, and the coast is over.
    CoastOut,
    /// Coast up to the change of the primary body at that time from now.
    CoastTo(Real),
    /// The coast is over.
    Done,
}

/// What a patched coast does after `changes` changes of the primary body, with
/// `remaining` seconds left and the next change due at `transition` from now.
pub fn rails_step(changes: u32, remaining: Real, transition: Option<Real>) -> (r: RailsStep)
    ensures
        r == (if changes >= MAX_SOI_TRANSITIONS_PER_STEP || remaining.spec_at_most(
            Real::spec_of(EPSILON),
        ) {
            RailsStep::Done
        } else {
            match transition {
                Some(time) => RailsStep::CoastTo(time),
                None => RailsStep::CoastOut,
            }
        }),
{
    if changes >= MAX_SOI_TRANSITIONS_PER_STEP || remaining.is_at_most(Real::of(EPSILON)) {
        return RailsStep::Done;
    }
    match transition {
        Some(time) => RailsStep::CoastTo(time),
        None => RailsStep::CoastOut,
    }
}

/// Whether a coast passed the ground of the satellite in whose reach it ended: the vessel was
/// captured from the body `previous`, is already on the way out, and its path touches the
/// ground.
pub open spec fn is_crossed(
    body: BodyView,
    previous: Seq<char>,
    outbound: bool,
    periapsis: Real,
) -> bool {
    body.parent == Some(previous) && outbound && periapsis.spec_at_most(
        Real::spec_integer(GROUND_CLEARANCE),
    )
}

/// Whether a coast that ended in the reach of a satellite passed the ground of it on
/// the way: the vessel was captured from the body `previous`, is already on the way out,
/// and its path touches the ground.
pub fn crossed_surface_during_capture(
    body: &CelestialBodyDef,
    previous: &str,
    outbound: bool,
    periapsis: Real,
) -> (r: bool)
    ensures
        r == is_crossed(body@, previous@, outbound, periapsis),
{
    let captured = match body.parent {
        Some(parent) => same_text(parent, previous),
        None => false,
    };
    captured && outbound && periapsis.is_at_most(Real::integer(GROUND_CLEARANCE))
}

/// A vessel is in orbit exactly where its altitude and its periapsis are both above the given
/// height: a higher height never makes an orbit of what was none.
pub proof fn law_orbit_clears_the_air(
    altitude: Real,
    periapsis: Real,
    height: u32,
    lower: u32,
    r: bool,
    over_lower: bool,
)
    requires
        altitude.spec_is_finite(),
        periapsis.spec_is_finite(),
        lower <= height,
        call_ensures(in_orbit, (altitude, periapsis, height), r),
        call_ensures(in_orbit, (altitude, periapsis, lower), over_lower),
    ensures
        r <==> altitude.value() > height * pow2(1074) && periapsis.value() > height * pow2(1074),
        r ==> over_lower,
{
    law_whole_numbers_compare(height, altitude);
    law_whole_numbers_compare(height, periapsis);
    law_whole_numbers_compare(lower, altitude);
    law_whole_numbers_compare(lower, periapsis);
    lemma_pow2_pos(1074);
    assert(lower * pow2(1074) <= height * pow2(1074)) by (nonlinear_arith)
        requires
            lower <= height,
            0 < pow2(1074),
    ;
}

/// What a vessel is doing after a coast about a body goes by that body: it has crashed exactly
/// where it met the ground or ends within five metres of it; else it is in orbit exactly where
/// it stays above the body's own air, and else it flies. About a body without air, all that
/// stays above the ground is in orbit.
pub proof fn law_coast_ends_by_the_body(
    here: CelestialBodyDef,
    met_ground: bool,
    altitude: Real,
    periapsis: Real,
    r: FlightSituation,
)
    requires
        altitude.spec_is_finite(),
        periapsis.spec_is_finite(),
        call_ensures(rails_situation, (&here, met_ground, altitude, periapsis), r),
    ensures
        r == FlightSituation::Crashed <==> met_ground || altitude.value() <= 5 * pow2(1074),
        r == FlightSituation::Orbiting <==> !met_ground && altitude.value() > 5 * pow2(1074)
            && match here.atmosphere {
            Some(air) => altitude.value() > air.height * pow2(1074) && periapsis.value()
                > air.height * pow2(1074),
            None => periapsis.value() > 0,
        },
        r == FlightSituation::Crashed || r == FlightSituation::Orbiting || r
            == FlightSituation::Flying,
{
    let height = match here.atmosphere {
        Some(air) => air.height,
        None => 0u32,
    };
    lemma_pow2_pos(1074);
    law_whole_numbers_compare(5, altitude);
    law_whole_numbers_compare(height, altitude);
    law_whole_numbers_compare(height, periapsis);
}

/// There is air exactly below the height of a body's atmosphere, and it is that atmosphere.
pub proof fn law_air_ends_at_its_height(
    here: CelestialBodyDef,
    altitude: Real,
    r: Option<AtmosphereDef>,
)
    requires
        altitude.spec_is_finite(),
        call_ensures(CelestialBodyDef::air_at, (&here, altitude), r),
    ensures
        here.atmosphere is None ==> r is None,
        here.atmosphere is Some ==> (r is Some <==> altitude.value() < here.atmosphere->0.height
            * pow2(1074)),
        r is Some ==> r == here.atmosphere,
{
    if here.atmosphere is Some {
        law_whole_numbers_compare(here.atmosphere->0.height, altitude);
    }
}

/// High time warp is for orbits that stay five kilometres clear of the air of their body; one
/// that never comes back to its periapsis may have it anywhere.
pub proof fn law_warp_stays_clear_of_the_air(
    situation: FlightSituation,
    here: CelestialBodyDef,
    altitude: Real,
    revisits: bool,
    periapsis: Real,
    r: bool,
)
    requires
        altitude.spec_is_finite(),
        periapsis.spec_is_finite(),
        here.atmosphere is Some ==> here.atmosphere->0.height <= u32::MAX - 5_000,
        call_ensures(
            on_rails_warp_is_safe,
            (situation, &here, altitude, revisits, periapsis),
            r,
        ),
    ensures
        r ==> situation == FlightSituation::Orbiting,
        situation == FlightSituation::Orbiting ==> (r <==> {
            let height = match here.atmosphere {
                Some(air) => air.height as int,
                None => 0,
            };
            &&& altitude.value() >= (height + 5_000) * pow2(1074)
            &&& revisits ==> periapsis.value() >= (height + 5_000) * pow2(1074)
        }),
{
    let height = match here.atmosphere {
        Some(air) => air.height,
        None => 0u32,
    };
    law_whole_numbers_compare((height + 5_000) as u32, altitude);
    law_whole_numbers_compare((height + 5_000) as u32, periapsis);
    law_no_number_compares(altitude, altitude);
}

/// A coast meets the ground exactly where it starts within five metres of it, or comes in time
/// to a periapsis that lies no more than five metres above it. Waiting longer never avoids the
/// ground.
pub proof fn law_path_meets_the_ground(
    radius: u32,
    distance: Real,
    periapsis: Real,
    until_periapsis: Option<Real>,
    dt: Real,
    longer: Real,
    r: bool,
    later: bool,
)
    requires
        radius <= u32::MAX - 5,
        distance.spec_is_finite(),
        periapsis.spec_is_finite(),
        dt.spec_is_finite(),
        longer.spec_is_finite(),
        until_periapsis is Some ==> until_periapsis->0.spec_is_finite(),
        dt.value() <= longer.value(),
        call_ensures(
            trajectory_reaches_surface,
            (radius, distance, periapsis, until_periapsis, dt),
            r,
        ),
        call_ensures(
            trajectory_reaches_surface,
            (radius, distance, periapsis, until_periapsis, longer),
            later,
        ),
    ensures
        r <==> distance.value() <= (radius + 5) * pow2(1074) || periapsis.value() <= 5 * pow2(1074)
            && until_periapsis is Some && until_periapsis->0.value() <= dt.value(),
        r ==> later,
{
    law_whole_numbers_compare((radius + 5) as u32, distance);
    law_whole_numbers_compare(5, periapsis);
    if until_periapsis is Some {
        law_order_is_numeric(until_periapsis->0, dt);
        law_order_is_numeric(until_periapsis->0, longer);
    }
}

/// A vessel passed the ground of a satellite exactly where it came from the body that the
/// satellite circles, is on its way out, and its periapsis lies no more than five metres above
/// the ground.
pub proof fn law_passing_through_is_a_crash(
    here: CelestialBodyDef,
    previous: &str,
    outbound: bool,
    periapsis: Real,
    r: bool,
)
    requires
        periapsis.spec_is_finite(),
        call_ensures(crossed_surface_during_capture, (&here, previous, outbound, periapsis), r),
    ensures
        r <==> here.parent is Some && here.parent->0@ == previous@ && outbound
            && periapsis.value() <= 5 * pow2(1074),
{
    law_whole_numbers_compare(5, periapsis);
}

/// Of two changes of the primary body the earlier comes next, and an entry before an exit at
/// the same time; one alone comes next, and none where there is none.
pub proof fn law_next_change_is_the_earlier(
    entering: Option<Real>,
    exiting: Option<Real>,
    r: Option<bool>,
)
    requires
        entering is Some ==> entering->0.spec_is_finite(),
        exiting is Some ==> exiting->0.spec_is_finite(),
        call_ensures(next_soi_transition, (entering, exiting), r),
    ensures
        r is None <==> entering is None && exiting is None,
        r == Some(true) ==> entering is Some && (exiting is Some ==> entering->0.value()
            <= exiting->0.value()),
        r == Some(false) ==> exiting is Some && (entering is Some ==> exiting->0.value()
            < entering->0.value()),
{
    if entering is Some && exiting is Some {
        law_order_is_numeric(entering->0, exiting->0);
    }
}

/// The satellite that is met first is met no later than any other, and before those listed
/// ahead of it; and where any is met, one is first.
pub proof fn law_first_encounter_is_the_earliest(
    times: Vec<Option<Real>>,
    k: int,
    r: Option<usize>,
)
    requires
        call_ensures(first_child_soi_encounter, (&times,), r),
        0 <= k < times@.len(),
        times@[k] is Some,
        !times@[k]->0.spec_is_nan(),
        forall|i: int|
            0 <= i < times@.len() && (#[trigger] times@[i]) is Some
                ==> times@[i]->0.spec_is_finite() && Real::spec_of(0).spec_at_most(times@[i]->0)
                && times@[i]->0.bits != SIGN,
    ensures
        r is Some && r->0 < times@.len() && times@[r->0 as int] is Some,
        times@[r->0 as int]->0.value() <= times@[k]->0.value(),
        k < r->0 ==> times@[r->0 as int]->0.value() < times@[k]->0.value(),
{
    let first = r->0 as int;
    assert(times@[first] is Some);
    law_order_is_numeric(times@[first]->0, times@[k]->0);
    law_order_is_numeric(times@[k]->0, times@[first]->0);
}

/// A coast is over after eight changes of the primary body, and when hardly any time is left;
/// else it goes to the next change, or to its end where there is none.
pub proof fn law_coast_goes_to_the_next_change(
    changes: u32,
    remaining: Real,
    transition: Option<Real>,
    r: RailsStep,
)
    requires
        remaining.spec_is_finite(),
        call_ensures(rails_step, (changes, remaining, transition), r),
    ensures
        r == RailsStep::Done <==> changes >= 8 || remaining.value() * pow2(52) <= pow2(1074),
        r != RailsStep::Done && transition is Some ==> r == RailsStep::CoastTo(transition->0),
        r != RailsStep::Done && transition is None ==> r == RailsStep::CoastOut,
{
    law_named_numbers();
    law_order_is_numeric(remaining, Real::spec_of(EPSILON));
    lemma_pow2_pos(52);
    let a = remaining.value();
    let b = Real::spec_of(EPSILON).value();
    let p = pow2(52) as int;
    assert(a <= b <==> a * p <= b * p) by (nonlinear_arith)
        requires
            0 < p,
    ;
}

/// A vessel goes over to the body that its own circles before it goes over to a satellite, and
/// to the first satellite that has it before the others; it stays where neither has it.
pub proof fn law_release_comes_before_capture(
    has_parent: bool,
    released: bool,
    captured: Seq<bool>,
    k: int,
    r: SoiChange,
)
    requires
        is_soi_change(has_parent, released, captured, r),
        0 <= k < captured.len(),
    ensures
        has_parent && released <==> r is Release,
        captured[k] ==> !(r is Stay),
        captured[k] && !(has_parent && released) ==> r is Capture && r->Capture_0 <= k,
        r is Capture && r->Capture_0 == k ==> captured[k],
{
}

/// The system as it is charted: who circles whom, how large the bodies are, how strongly they
/// pull, how they turn, where they stand, and what air they have.
pub proof fn law_system_is_as_charted()
    ensures
        system().len() == 4,
        system()[0].parent is None,
        system()[1].parent == Some(system()[0].id),
        system()[2].parent == Some(system()[1].id),
        system()[3].parent == Some(system()[0].id),
        system()[0].radius == 69_600_000 && system()[1].radius == 600_000,
        system()[2].radius == 200_000 && system()[3].radius == 320_000,
        system()[0].mu == 1_327_000_000_000_000_000 && system()[1].mu == 3_532_000_000_000,
        system()[2].mu == 65_140_000_000 && system()[3].mu == 500_000_000_000,
        system()[0].rotation_period == 2_160_000 && system()[1].rotation_period == 21_600,
        system()[2].rotation_period == 138_000 && system()[3].rotation_period == 40_000,
        system()[0].semi_major_axis == 0 && system()[1].semi_major_axis == 13_600_000_000,
        system()[2].semi_major_axis == 12_000_000 && system()[3].semi_major_axis
            == 22_000_000_000,
        system()[0].phase == 0 && system()[1].phase == 0,
        system()[2].phase == 800 && system()[3].phase == 2_200,
        system()[0].atmosphere is None && system()[2].atmosphere is None,
        system()[1].atmosphere is Some && system()[1].atmosphere->0.height == 70_000,
        system()[1].atmosphere->0.sea_level_density == 1_225,
        system()[1].atmosphere->0.scale_height == 8_500,
        system()[3].atmosphere is Some && system()[3].atmosphere->0.height == 35_000,
        system()[3].atmosphere->0.sea_level_density == 180,
        system()[3].atmosphere->0.scale_height == 6_000,
{
}

/// The system is looked up as it is charted: all four bodies in order, each under its own
/// name and the home body under any other, above each those it circles, and about each those
/// that circle it.
pub proof fn law_system_is_looked_up(
    bodies: Vec<CelestialBodyDef>,
    id: &str,
    found: CelestialBodyDef,
    above: Vec<CelestialBodyDef>,
    about: Vec<CelestialBodyDef>,
    k: int,
)
    requires
        call_ensures(celestial_system, (), bodies),
        call_ensures(body_definition, (id,), found),
        call_ensures(ancestors, (id,), above),
        call_ensures(satellites, (id,), about),
        0 <= k < 4,
    ensures
        bodies@.len() == 4,
        bodies@[k]@ == system()[k],
        system()[k].id == id@ ==> found@ == bodies@[k]@,
        (forall|j: int| 0 <= j < 4 ==> (#[trigger] system()[j]).id != id@) ==> found@
            == bodies@[1]@,
        1 <= above@.len() <= 3,
        above@.last()@ == found@,
        above@[0]@.parent is None,
        forall|j: int|
            0 < j < above@.len() ==> (#[trigger] above@[j])@.parent == Some(above@[j - 1]@.id),
        forall|j: int| 0 <= j < about@.len() ==> (#[trigger] about@[j])@.parent == Some(id@),
        system()[k].parent == Some(id@) ==> exists|j: int|
            0 <= j < about@.len() && (#[trigger] about@[j])@ == bodies@[k]@,
{
    broadcast use vstd::seq_lib::group_filter_ensures;

    law_bodies_are_distinct(0, 1);
    law_bodies_are_distinct(0, 2);
    law_bodies_are_distinct(0, 3);
    law_bodies_are_distinct(1, 2);
    law_bodies_are_distinct(1, 3);
    law_bodies_are_distinct(2, 3);
    law_ancestry(id@);
    let a = bodies_view(bodies@);
    assert(a.len() == bodies@.len());
    assert forall|j: int| 0 <= j < bodies@.len() implies (#[trigger] bodies@[j])@ == a[j] by {}
    assert(system()[0] == pelagos() && system()[1] == carapace() && system()[2] == selene()
        && system()[3] == ferrum());
    let b = bodies_view(above@);
    assert(b.len() == above@.len());
    assert forall|j: int| 0 <= j < above@.len() implies (#[trigger] above@[j])@ == b[j] by {}
    let circles = |b: BodyView| b.parent == Some(id@);
    let c = bodies_view(about@);
    assert(c.len() == about@.len());
    assert(c == system().filter(circles));
    assert forall|j: int| 0 <= j < about@.len() implies (#[trigger] about@[j])@.parent == Some(
        id@,
    ) by {
        assert(about@[j]@ == c[j]);
        assert(circles(c[j]));
    }
    if system()[k].parent == Some(id@) {
        assert(circles(system()[k]));
        assert(c.contains(system()[k]));
        let j = choose|j: int| 0 <= j < c.len() && c[j] == system()[k];
        assert(about@[j]@ == c[j]);
    }
}

} // verus!
