//! A coast about one body, and what a vessel is doing at its end.
use crate::number::{law_whole_numbers_compare, Real};
use crate::orbit::{
    body, body_definition, rails_situation, reaches_surface, situation_after,
    trajectory_reaches_surface, CelestialBodyDef,
};
use crate::reach::Frame;
use crate::vessel::{DetachedStage, FlightSituation, Vessel};
use vstd::arithmetic::power2::*;
use vstd::prelude::*;

verus! {

/// What a place in the frame of a body tells of a path: how far it is from the centre and
/// above the ground, where the path comes nearest and when, if it leads there, and whether it
/// leads outward.
#[derive(Debug, Clone, Copy)]
pub struct Survey {
    pub distance: Real,
    pub altitude: Real,
    pub periapsis: Real,
    pub until_periapsis: Option<Real>,
    pub outbound: bool,
}

/// What computes a coast about a body. `survey` tells of the path at a place; `drift` gives
/// the place after a while; and `ground` where a crash from a place ends.
pub struct Rails<V, M, G> {
    pub survey: V,
    pub drift: M,
    pub ground: G,
}

/// Where the vessel is with its body.
pub open spec fn place_of(vessel: Vessel) -> Frame {
    Frame { position: vessel.position, velocity: vessel.velocity }
}

/// Where the detached stage is with its body.
pub open spec fn debris_place(stage: DetachedStage) -> Frame {
    Frame { position: stage.position, velocity: stage.velocity }
}

/// Whether `seen` is what is told of the path of the vessel about its body `here`.
pub open spec fn is_surveyed<V: Fn(Frame, &CelestialBodyDef) -> Survey>(
    vessel: Vessel,
    here: CelestialBodyDef,
    seen: Survey,
    survey: V,
) -> bool {
    here@ == body(vessel.primary_body@) && call_ensures(survey, (place_of(vessel), &here), seen)
}

/// Whether `after` is the vessel `before` once it is settled what it is doing about its body
/// `here`, of which that is told: a vessel that has crashed lies on the ground, and any other
/// stays where it is.
pub open spec fn is_brought_down<G: Fn(Frame, &CelestialBodyDef) -> Frame>(
    before: Vessel,
    after: Vessel,
    here: CelestialBodyDef,
    situation: FlightSituation,
    ground: G,
) -> bool {
    if situation == FlightSituation::Crashed {
        exists|place: Frame| #[trigger]
            call_ensures(ground, (place_of(before), &here), place) && after == (Vessel {
                position: place.position,
                velocity: place.velocity,
                situation,
                ..before
            })
    } else {
        after == (Vessel { situation, ..before })
    }
}

/// Whether `after` is the vessel `before` once it is settled what it is doing at the end of a
/// coast, which met the ground or not.
pub open spec fn is_ended<
    V: Fn(Frame, &CelestialBodyDef) -> Survey,
    M: Fn(Frame, &CelestialBodyDef, Real) -> Frame,
    G: Fn(Frame, &CelestialBodyDef) -> Frame,
>(before: Vessel, after: Vessel, met_ground: bool, rails: Rails<V, M, G>) -> bool {
    exists|here: CelestialBodyDef, seen: Survey|
        {
            &&& #[trigger] is_surveyed(before, here, seen, rails.survey)
            &&& is_brought_down(
                before,
                after,
                here,
                situation_after(here, met_ground, seen.altitude, seen.periapsis),
                rails.ground,
            )
        }
}

/// Whether `after` is the detached stage `before` after it drifted about its body.
pub open spec fn is_adrift<M: Fn(Frame, &CelestialBodyDef, Real) -> Frame>(
    before: DetachedStage,
    after: DetachedStage,
    dt: Real,
    drift: M,
) -> bool {
    exists|about: CelestialBodyDef, place: Frame|
        {
            &&& about@ == body(before.primary_body@)
            &&& #[trigger] call_ensures(drift, (debris_place(before), &about, dt), place)
            &&& after == (DetachedStage {
                position: place.position,
                velocity: place.velocity,
                ..before
            })
        }
}

/// Whether `after` is the vessel `before` after it and all that it has shed drifted, each
/// about its own body; that of the vessel is `here`.
pub open spec fn is_swept<M: Fn(Frame, &CelestialBodyDef, Real) -> Frame>(
    before: Vessel,
    after: Vessel,
    here: CelestialBodyDef,
    dt: Real,
    drift: M,
) -> bool {
    &&& exists|place: Frame| #[trigger]
        call_ensures(drift, (place_of(before), &here, dt), place) && after == (Vessel {
            position: place.position,
            velocity: place.velocity,
            debris: after.debris,
            ..before
        })
    &&& after.debris@.len() == before.debris@.len()
    &&& forall|i: int|
        0 <= i < before.debris@.len() ==> is_adrift(
            #[trigger] before.debris@[i],
            after.debris@[i],
            dt,
            drift,
        )
}

/// Whether `after` is the vessel `before` after a coast about its body. A wreck stays where
/// it is. Whether a coast meets the ground shows in the path at its start, and else in the
/// place at its end.
pub open spec fn is_drifted<
    V: Fn(Frame, &CelestialBodyDef) -> Survey,
    M: Fn(Frame, &CelestialBodyDef, Real) -> Frame,
    G: Fn(Frame, &CelestialBodyDef) -> Frame,
>(before: Vessel, after: Vessel, dt: Real, rails: Rails<V, M, G>) -> bool {
    if before.situation == FlightSituation::Crashed {
        after == before
    } else {
        exists|here: CelestialBodyDef, seen: Survey, moved: Vessel|
            {
                &&& #[trigger] is_surveyed(before, here, seen, rails.survey)
                &&& #[trigger] is_swept(before, moved, here, dt, rails.drift)
                &&& is_ended(
                    moved,
                    after,
                    reaches_surface(
                        here.radius,
                        seen.distance,
                        seen.periapsis,
                        seen.until_periapsis,
                        dt,
                    ),
                    rails,
                )
            }
    }
}

/// Whether the rails can be asked anything.
pub open spec fn are_laid<
    V: Fn(Frame, &CelestialBodyDef) -> Survey,
    M: Fn(Frame, &CelestialBodyDef, Real) -> Frame,
    G: Fn(Frame, &CelestialBodyDef) -> Frame,
>(rails: Rails<V, M, G>) -> bool {
    &&& forall|a: Frame, b: &CelestialBodyDef| call_requires(rails.survey, (a, b))
    &&& forall|a: Frame, b: &CelestialBodyDef, t: Real| call_requires(rails.drift, (a, b, t))
    &&& forall|a: Frame, b: &CelestialBodyDef| call_requires(rails.ground, (a, b))
}

/// Where the vessel is with its body.
pub fn place(vessel: &Vessel) -> (r: Frame)
    ensures
        r == place_of(*vessel),
{
    Frame { position: vessel.position, velocity: vessel.velocity }
}

/// Settles what a vessel is doing at the end of a coast, which met the ground or not: it has
/// crashed, and lies on the ground; or it is in orbit, or flies.
pub fn update_on_rails_situation<
    V: Fn(Frame, &CelestialBodyDef) -> Survey,
    M: Fn(Frame, &CelestialBodyDef, Real) -> Frame,
    G: Fn(Frame, &CelestialBodyDef) -> Frame,
>(vessel: &mut Vessel, met_ground: bool, rails: &Rails<V, M, G>)
    requires
        are_laid(*rails),
    ensures
        is_ended(*old(vessel), *final(vessel), met_ground, *rails),
{
    let ghost before = *vessel;
    let here = body_definition(&vessel.primary_body);
    let start = place(vessel);
    let seen = (rails.survey)(start, &here);
    proof {
        assert(is_surveyed(before, here, seen, rails.survey));
    }
    vessel.situation = rails_situation(&here, met_ground, seen.altitude, seen.periapsis);
    if vessel.situation == FlightSituation::Crashed {
        let end = (rails.ground)(start, &here);
        vessel.position = end.position;
        vessel.velocity = end.velocity;
        proof {
            assert(call_ensures(rails.ground, (place_of(before), &here), end));
        }
    }
}

fn sweep_debris<M: Fn(Frame, &CelestialBodyDef, Real) -> Frame>(
    debris: &mut Vec<DetachedStage>,
    dt: Real,
    drift: &M,
)
    requires
        forall|a: Frame, b: &CelestialBodyDef, t: Real| call_requires(*drift, (a, b, t)),
    ensures
        final(debris)@.len() == old(debris)@.len(),
        forall|i: int|
            0 <= i < old(debris)@.len() ==> is_adrift(
                #[trigger] old(debris)@[i],
                final(debris)@[i],
                dt,
                *drift,
            ),
{
    let ghost before = debris@;
    let count: usize = debris.len();
    for i in 0..count
        invariant
            forall|a: Frame, b: &CelestialBodyDef, t: Real| call_requires(*drift, (a, b, t)),
            count == before.len(),
            debris@.len() == before.len(),
            forall|k: int| i <= k < before.len() ==> debris@[k] == #[trigger] before[k],
            forall|k: int|
                0 <= k < i ==> is_adrift(#[trigger] before[k], debris@[k], dt, *drift),
    {
        proof {
            assert(debris@[i as int] == before[i as int]);
        }
        let about = body_definition(&debris[i].primary_body);
        let start = Frame { position: debris[i].position, velocity: debris[i].velocity };
        let end = drift(start, &about, dt);
        debris[i].position = end.position;
        debris[i].velocity = end.velocity;
        proof {
            assert(call_ensures(*drift, (debris_place(before[i as int]), &about, dt), end));
            assert(is_adrift(before[i as int], debris@[i as int], dt, *drift));
        }
    }
}

/// Lets a vessel and what it has shed coast, each about its own body.
pub fn step_on_rails<
    V: Fn(Frame, &CelestialBodyDef) -> Survey,
    M: Fn(Frame, &CelestialBodyDef, Real) -> Frame,
    G: Fn(Frame, &CelestialBodyDef) -> Frame,
>(vessel: &mut Vessel, dt: Real, rails: &Rails<V, M, G>)
    requires
        are_laid(*rails),
    ensures
        is_drifted(*old(vessel), *final(vessel), dt, *rails),
{
    if vessel.situation == FlightSituation::Crashed {
        return;
    }
    let ghost before = *vessel;
    let here = body_definition(&vessel.primary_body);
    let start = place(vessel);
    let seen = (rails.survey)(start, &here);
    proof {
        assert(is_surveyed(before, here, seen, rails.survey));
        assert(here.radius == body(before.primary_body@).radius);
    }
    let met_ground = trajectory_reaches_surface(
        here.radius,
        seen.distance,
        seen.periapsis,
        seen.until_periapsis,
        dt,
    );
    let end = (rails.drift)(start, &here, dt);
    vessel.position = end.position;
    vessel.velocity = end.velocity;
    sweep_debris(&mut vessel.debris, dt, &rails.drift);
    proof {
        assert(call_ensures(rails.drift, (place_of(before), &here, dt), end));
        assert(is_swept(before, *vessel, here, dt, rails.drift));
    }
    update_on_rails_situation(vessel, met_ground, rails);
}

/// What no coast changes: the vessel but for its body, its place, what it is doing and where
/// the stages are that it has shed.
pub open spec fn keeps_craft(before: Vessel, after: Vessel) -> bool {
    &&& after == (Vessel {
        primary_body: after.primary_body,
        position: after.position,
        velocity: after.velocity,
        situation: after.situation,
        debris: after.debris,
        ..before
    })
    &&& after.debris@.len() == before.debris@.len()
    &&& forall|i: int|
        0 <= i < before.debris@.len() ==> #[trigger] after.debris@[i] == (DetachedStage {
            position: after.debris@[i].position,
            velocity: after.debris@[i].velocity,
            ..before.debris@[i]
        })
}

/// A coast about one body keeps the vessel with that body, and keeps its craft; and a vessel
/// that has not crashed before or on it flies or is in orbit.
pub proof fn law_drift_keeps_craft<
    V: Fn(Frame, &CelestialBodyDef) -> Survey,
    M: Fn(Frame, &CelestialBodyDef, Real) -> Frame,
    G: Fn(Frame, &CelestialBodyDef) -> Frame,
>(before: Vessel, after: Vessel, dt: Real, rails: Rails<V, M, G>)
    requires
        is_drifted(before, after, dt, rails),
    ensures
        keeps_craft(before, after),
        after.primary_body == before.primary_body,
        after.situation == FlightSituation::Crashed || after.situation
            == FlightSituation::Orbiting || after.situation == FlightSituation::Flying,
{
    if before.situation != FlightSituation::Crashed {
        let (here, seen, moved) = choose|here: CelestialBodyDef, seen: Survey, moved: Vessel|
            {
                &&& #[trigger] is_surveyed(before, here, seen, rails.survey)
                &&& #[trigger] is_swept(before, moved, here, dt, rails.drift)
                &&& is_ended(
                    moved,
                    after,
                    reaches_surface(
                        here.radius,
                        seen.distance,
                        seen.periapsis,
                        seen.until_periapsis,
                        dt,
                    ),
                    rails,
                )
            };
        assert(after.debris == moved.debris);
        assert forall|i: int| 0 <= i < before.debris@.len() implies #[trigger] after.debris@[i]
            == (DetachedStage {
            position: after.debris@[i].position,
            velocity: after.debris@[i].velocity,
            ..before.debris@[i]
        }) by {
            assert(is_adrift(before.debris@[i], moved.debris@[i], dt, rails.drift));
        }
    }
}

/// A wreck stays where it is. Any other vessel moves along its path about its own body, its
/// debris each about theirs. It is wrecked where its path met the ground on the way or it ends
/// at most five metres up, and lies then where the ground is under its place; else it is in
/// orbit where it ends above the air of its body and will stay above, and flies where not.
pub proof fn law_drift_follows_the_path<
    V: Fn(Frame, &CelestialBodyDef) -> Survey,
    M: Fn(Frame, &CelestialBodyDef, Real) -> Frame,
    G: Fn(Frame, &CelestialBodyDef) -> Frame,
>(vessel: &mut Vessel, dt: Real, rails: &Rails<V, M, G>, i: int)
    requires
        call_ensures(step_on_rails::<V, M, G>, (vessel, dt, rails), ()),
        forall|place: Frame, about: CelestialBodyDef, seen: Survey| #[trigger]
            call_ensures(rails.survey, (place, &about), seen) ==> seen.altitude.spec_is_finite()
                && seen.periapsis.spec_is_finite(),
        0 <= i < old(vessel).debris@.len(),
    ensures
        old(vessel).situation is Crashed ==> *final(vessel) == *old(vessel),
        !(old(vessel).situation is Crashed) ==> exists|
            here: CelestialBodyDef,
            seen: Survey,
            end: Frame,
            about: CelestialBodyDef,
            last: Survey,
        |
            {
                let air = about.spec_atmosphere_height();
                let met = reaches_surface(
                    here.radius,
                    seen.distance,
                    seen.periapsis,
                    seen.until_periapsis,
                    dt,
                );
                let high = last.altitude.value();
                &&& here@ == body(old(vessel).primary_body@)
                &&& about@ == body(old(vessel).primary_body@)
                &&& #[trigger] call_ensures(
                    rails.survey,
                    (
                        Frame { position: old(vessel).position, velocity: old(vessel).velocity },
                        &here,
                    ),
                    seen,
                )
                &&& #[trigger] call_ensures(
                    rails.drift,
                    (
                        Frame { position: old(vessel).position, velocity: old(vessel).velocity },
                        &here,
                        dt,
                    ),
                    end,
                )
                &&& #[trigger] call_ensures(rails.survey, (end, &about), last)
                &&& final(vessel).situation is Crashed <==> met || high <= 5 * pow2(1074)
                &&& !(final(vessel).situation is Crashed) ==> (final(vessel).situation is Orbiting
                    <==> high > air * pow2(1074) && last.periapsis.value() > air * pow2(1074))
                &&& !(final(vessel).situation is Crashed) && !(
                final(vessel).situation is Orbiting) ==> final(vessel).situation is Flying
                &&& !(final(vessel).situation is Crashed) ==> final(vessel).position == end.position
                    && final(vessel).velocity == end.velocity
                &&& final(vessel).situation is Crashed ==> exists|down: Frame| #[trigger]
                    call_ensures(rails.ground, (end, &about), down) && final(vessel).position
                        == down.position && final(vessel).velocity == down.velocity
            },
        !(old(vessel).situation is Crashed) ==> exists|about: CelestialBodyDef, end: Frame|
            {
                let piece = old(vessel).debris@[i];
                &&& about@ == body(piece.primary_body@)
                &&& #[trigger] call_ensures(
                    rails.drift,
                    (
                        Frame {
                            position: old(vessel).debris@[i].position,
                            velocity: old(vessel).debris@[i].velocity,
                        },
                        &about,
                        dt,
                    ),
                    end,
                )
                &&& final(vessel).debris@[i].position == end.position
                &&& final(vessel).debris@[i].velocity == end.velocity
                &&& final(vessel).debris@[i].parts == piece.parts
                &&& final(vessel).debris@[i].primary_body == piece.primary_body
            },
{
    let before = *vessel;
    let after = *final(vessel);
    if !(before.situation is Crashed) {
        assert(is_drifted(before, after, dt, *rails));
        let (here, seen, moved) = choose|here: CelestialBodyDef, seen: Survey, moved: Vessel|
            {
                &&& #[trigger] is_surveyed(before, here, seen, rails.survey)
                &&& #[trigger] is_swept(before, moved, here, dt, rails.drift)
                &&& is_ended(
                    moved,
                    after,
                    reaches_surface(
                        here.radius,
                        seen.distance,
                        seen.periapsis,
                        seen.until_periapsis,
                        dt,
                    ),
                    *rails,
                )
            };
        let start = place_of(before);
        let end = choose|place: Frame| #[trigger]
            call_ensures(rails.drift, (start, &here, dt), place) && moved == (Vessel {
                position: place.position,
                velocity: place.velocity,
                debris: moved.debris,
                ..before
            });
        let met = reaches_surface(
            here.radius,
            seen.distance,
            seen.periapsis,
            seen.until_periapsis,
            dt,
        );
        let (about, last) = choose|about: CelestialBodyDef, last: Survey|
            {
                &&& #[trigger] is_surveyed(moved, about, last, rails.survey)
                &&& is_brought_down(
                    moved,
                    after,
                    about,
                    situation_after(about, met, last.altitude, last.periapsis),
                    rails.ground,
                )
            };
        assert(place_of(moved) == end);
        let air = about.spec_atmosphere_height();
        law_whole_numbers_compare(5, last.altitude);
        law_whole_numbers_compare(air, last.altitude);
        law_whole_numbers_compare(air, last.periapsis);
        assert(call_ensures(rails.survey, (start, &here), seen));
        assert(call_ensures(rails.drift, (start, &here, dt), end));
        assert(call_ensures(rails.survey, (end, &about), last));
        if after.situation is Crashed {
            let down = choose|place: Frame| #[trigger]
                call_ensures(rails.ground, (place_of(moved), &about), place) && after == (Vessel {
                    position: place.position,
                    velocity: place.velocity,
                    situation: FlightSituation::Crashed,
                    ..moved
                });
            assert(call_ensures(rails.ground, (end, &about), down));
        }
        assert(is_adrift(before.debris@[i], moved.debris@[i], dt, rails.drift));
        assert(after.debris == moved.debris);
    }
}

/// Told on the rails that it met the ground, a vessel is wrecked; told not, it is wrecked
/// where it is at most five metres up.
pub proof fn law_situation_on_rails<
    V: Fn(Frame, &CelestialBodyDef) -> Survey,
    M: Fn(Frame, &CelestialBodyDef, Real) -> Frame,
    G: Fn(Frame, &CelestialBodyDef) -> Frame,
>(vessel: &mut Vessel, met_ground: bool, rails: &Rails<V, M, G>)
    requires
        call_ensures(update_on_rails_situation::<V, M, G>, (vessel, met_ground, rails), ()),
    ensures
        met_ground ==> final(vessel).situation is Crashed,
        final(vessel).parts == old(vessel).parts,
        final(vessel).debris == old(vessel).debris,
        final(vessel).primary_body == old(vessel).primary_body,
        !(final(vessel).situation is Crashed) ==> *final(vessel) == (Vessel {
            situation: final(vessel).situation,
            ..*old(vessel)
        }),
        exists|here: CelestialBodyDef, seen: Survey|
            {
                &&& here@ == body(old(vessel).primary_body@)
                &&& #[trigger] call_ensures(
                    rails.survey,
                    (
                        Frame { position: old(vessel).position, velocity: old(vessel).velocity },
                        &here,
                    ),
                    seen,
                )
                &&& seen.altitude.spec_is_finite() && !met_ground ==> (
                final(vessel).situation is Crashed <==> seen.altitude.value() <= 5 * pow2(1074))
            },
{
    let before = *vessel;
    let after = *final(vessel);
    assert(is_ended(before, after, met_ground, *rails));
    let (here, seen) = choose|here: CelestialBodyDef, seen: Survey|
        {
            &&& #[trigger] is_surveyed(before, here, seen, rails.survey)
            &&& is_brought_down(
                before,
                after,
                here,
                situation_after(here, met_ground, seen.altitude, seen.periapsis),
                rails.ground,
            )
        };
    if seen.altitude.spec_is_finite() {
        law_whole_numbers_compare(5, seen.altitude);
    }
    assert(call_ensures(rails.survey, (place_of(before), &here), seen));
}

} // verus!
