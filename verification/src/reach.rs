//! The change of a vessel from one celestial body to another.
use crate::number::Real;
use crate::orbit::{
    bodies_view, body, body_definition, carapace, ferrum, is_known, law_bodies_are_distinct,
    law_body_lookup, pelagos, satellites, satellites_of, selene, soi_change, system, BodyView,
    CelestialBodyDef, SoiChange,
};
use crate::vessel::Vessel;
use vstd::prelude::*;

verus! {

/// Where a vessel is with the spheres of influence about it: whether it has left that of
/// its body, and whether it is within that of each of the body's satellites.
#[derive(Debug)]
pub struct Reach {
    pub released: bool,
    pub captured: Vec<bool>,
}

/// Where a vessel is in the frame of a body.
#[derive(Debug, Clone, Copy)]
pub struct Frame {
    pub position: [Real; 3],
    pub velocity: [Real; 3],
}

/// The first place at which there is a capture.
pub open spec fn first_capture(captured: Seq<bool>) -> Option<int>
    decreases captured.len(),
{
    if captured.len() == 0 {
        None
    } else {
        match first_capture(captured.drop_last()) {
            Some(place) => Some(place),
            None => if captured.last() {
                Some(captured.len() - 1)
            } else {
                None
            },
        }
    }
}

/// The body that takes over a vessel from that one, if another does: the one that it
/// circles, where the vessel has left its reach, or else its first satellite within whose
/// reach the vessel is.
pub open spec fn next_body(id: Seq<char>, released: bool, captured: Seq<bool>) -> Option<BodyView> {
    let here = body(id);
    let near = satellites_of(here.id);
    if here.parent is Some && released {
        Some(body(here.parent->0))
    } else {
        match first_capture(captured) {
            Some(place) => if place < near.len() {
                Some(near[place])
            } else {
                None
            },
            None => None,
        }
    }
}

/// Whether `after` is the vessel `before` in the hands of the body in whose reach it is.
pub open spec fn is_transferred<
    X: Fn(&Vessel) -> Reach,
    F: Fn(&Vessel, &CelestialBodyDef) -> Frame,
>(before: Vessel, after: Vessel, reach: X, frame: F) -> bool {
    exists|seen: Reach| #[trigger]
        call_ensures(reach, (&before,), seen) && match next_body(
            before.primary_body@,
            seen.released,
            seen.captured@,
        ) {
            Some(next) => is_handed_to(before, after, next, frame),
            None => after == before,
        }
}

/// Whether `after` is the vessel `before` in the frame of that body.
pub open spec fn is_handed_to<F: Fn(&Vessel, &CelestialBodyDef) -> Frame>(
    before: Vessel,
    after: Vessel,
    next: BodyView,
    frame: F,
) -> bool {
    exists|to: CelestialBodyDef, place: Frame|
        {
            &&& to@ == next
            &&& #[trigger] call_ensures(frame, (&before, &to), place)
            &&& after == (Vessel {
                primary_body: after.primary_body,
                position: place.position,
                velocity: place.velocity,
                ..before
            })
            &&& after.primary_body@ == next.id
        }
}

proof fn lemma_first_capture(captured: Seq<bool>, place: int)
    requires
        0 <= place < captured.len(),
        captured[place],
        forall|k: int| 0 <= k < place ==> !#[trigger] captured[k],
    ensures
        first_capture(captured) == Some(place),
    decreases captured.len(),
{
    if place == captured.len() - 1 {
        lemma_no_capture(captured.drop_last());
    } else {
        lemma_first_capture(captured.drop_last(), place);
    }
}

proof fn lemma_no_capture(captured: Seq<bool>)
    requires
        forall|k: int| 0 <= k < captured.len() ==> !#[trigger] captured[k],
    ensures
        first_capture(captured) is None,
    decreases captured.len(),
{
    if captured.len() > 0 {
        lemma_no_capture(captured.drop_last());
    }
}

/// Hands a vessel over to the body in whose reach it is. `reach` tells where it is with the
/// spheres of influence about it, and `frame` where it is with another body.
pub fn apply_soi_transitions<
    X: Fn(&Vessel) -> Reach,
    F: Fn(&Vessel, &CelestialBodyDef) -> Frame,
>(vessel: &mut Vessel, reach: &X, frame: &F)
    requires
        forall|v: &Vessel| call_requires(*reach, (v,)),
        forall|v: &Vessel, to: &CelestialBodyDef| call_requires(*frame, (v, to)),
    ensures
        is_transferred(*old(vessel), *final(vessel), *reach, *frame),
{
    let ghost before = *vessel;
    let seen = reach(vessel);
    let here = body_definition(&vessel.primary_body);
    let near = satellites(here.id);
    let next: Option<CelestialBodyDef> = match soi_change(
        here.parent.is_some(),
        seen.released,
        &seen.captured,
    ) {
        SoiChange::Release => match here.parent {
            Some(parent) => Some(body_definition(parent)),
            None => None,
        },
        SoiChange::Capture(place) => {
            proof {
                lemma_first_capture(seen.captured@, place as int);
                assert(bodies_view(near@).len() == near@.len());
            }
            if place < near.len() {
                proof {
                    assert(bodies_view(near@)[place as int] == near@[place as int]@);
                }
                Some(near[place])
            } else {
                None
            }
        },
        SoiChange::Stay => {
            proof {
                lemma_no_capture(seen.captured@);
            }
            None
        },
    };
    proof {
        assert(call_ensures(*reach, (&before,), seen));
        assert(match next {
            Some(to) => next_body(before.primary_body@, seen.released, seen.captured@) == Some(to@),
            None => next_body(before.primary_body@, seen.released, seen.captured@) is None,
        });
    }
    if let Some(to) = next {
        let place = frame(vessel, &to);
        vessel.primary_body = to.id.to_owned();
        vessel.position = place.position;
        vessel.velocity = place.velocity;
        proof {
            assert(call_ensures(*frame, (&before, &to), place));
            assert(is_handed_to(before, *vessel, to@, *frame));
        }
    }
}

/// A change of body leads to the body that the old one circles or to one that circles it,
/// and touches nothing but the body and the vessel's place in its frame; a vessel that
/// stays with its body is left as it is.
pub proof fn law_bodies_hand_over_to_neighbours<
    X: Fn(&Vessel) -> Reach,
    F: Fn(&Vessel, &CelestialBodyDef) -> Frame,
>(before: Vessel, after: Vessel, reach: X, frame: F)
    requires
        is_known(before.primary_body@),
        is_transferred(before, after, reach, frame),
    ensures
        after == (Vessel {
            primary_body: after.primary_body,
            position: after.position,
            velocity: after.velocity,
            ..before
        }),
        after.primary_body@ == before.primary_body@ ==> after == before,
        after.primary_body@ != before.primary_body@ ==> is_known(after.primary_body@) && (body(
            before.primary_body@,
        ).parent == Some(after.primary_body@) || body(after.primary_body@).parent == Some(
            before.primary_body@,
        )),
{
    let id = before.primary_body@;
    let seen = choose|seen: Reach| #[trigger]
        call_ensures(reach, (&before,), seen) && match next_body(
            id,
            seen.released,
            seen.captured@,
        ) {
            Some(next) => is_handed_to(before, after, next, frame),
            None => after == before,
        };
    law_body_lookup(id);
    lemma_bodies();
    if let Some(next) = next_body(id, seen.released, seen.captured@) {
        let here = body(id);
        if here.parent is Some && seen.released {
            assert(next.id == here.parent->0);
            assert(is_known(next.id));
        } else {
            let near = satellites_of(id);
            let circles = |b: BodyView| b.parent == Some(id);
            let place = first_capture(seen.captured@)->0;
            lemma_place_is_counted(seen.captured@);
            assert(near == system().filter(circles));
            lemma_chosen(system(), circles, place);
            assert(near[place] == next);
            assert(system().contains(next) && next.parent == Some(id));
            let k = choose|k: int| 0 <= k < system().len() && system()[k] == next;
            assert(is_known(next.id));
            assert(body(next.id) == next);
        }
    }
}

proof fn lemma_chosen(bodies: Seq<BodyView>, wanted: spec_fn(BodyView) -> bool, place: int)
    requires
        0 <= place < bodies.filter(wanted).len(),
    ensures
        bodies.contains(bodies.filter(wanted)[place]),
        wanted(bodies.filter(wanted)[place]),
    decreases bodies.len(),
{
    reveal(Seq::filter);
    if bodies.len() > 0 {
        let fewer = bodies.drop_last().filter(wanted);
        if place < fewer.len() {
            lemma_chosen(bodies.drop_last(), wanted, place);
            assert(bodies.filter(wanted)[place] == fewer[place]);
            let k = choose|k: int|
                0 <= k < bodies.len() - 1 && bodies.drop_last()[k] == fewer[place];
            assert(bodies[k] == fewer[place]);
        } else {
            assert(bodies.filter(wanted)[place] == bodies.last());
            assert(bodies[bodies.len() - 1] == bodies.last());
        }
    }
}

proof fn lemma_place_is_counted(captured: Seq<bool>)
    ensures
        first_capture(captured) matches Some(place) ==> 0 <= place < captured.len(),
    decreases captured.len(),
{
    if captured.len() > 0 {
        lemma_place_is_counted(captured.drop_last());
    }
}

proof fn lemma_bodies()
    ensures
        system().len() == 4,
        system()[0] == pelagos() && system()[1] == carapace() && system()[2] == selene()
            && system()[3] == ferrum(),
        forall|k: int| 0 <= k < 4 ==> body((#[trigger] system()[k]).id) == system()[k],
        forall|k: int|
            0 <= k < 4 ==> (#[trigger] system()[k]).parent != Some(system()[k].id) && (
            system()[k].parent is Some ==> body(system()[k].parent->0).id == system()[k].parent->0
                && is_known(system()[k].parent->0)),
{
    law_bodies_are_distinct(0, 1);
    law_bodies_are_distinct(0, 2);
    law_bodies_are_distinct(0, 3);
    law_bodies_are_distinct(1, 2);
    law_bodies_are_distinct(1, 3);
    law_bodies_are_distinct(2, 3);
    assert(system()[0] == pelagos() && system()[1] == carapace() && system()[2] == selene()
        && system()[3] == ferrum());
}

/// Whether the satellite at that place holds the vessel.
pub open spec fn is_caught(captured: Seq<bool>, place: int) -> bool {
    captured[place]
}

/// The first satellite that holds the vessel is the one that counts.
pub proof fn law_first_capture_comes_first(captured: Seq<bool>, place: int)
    requires
        0 <= place < captured.len(),
    ensures
        is_caught(captured, place) && (forall|k: int|
            0 <= k < place ==> !#[trigger] is_caught(captured, k)) <==> first_capture(captured)
            == Some(place),
        first_capture(captured) is None <==> forall|k: int|
            0 <= k < captured.len() ==> !#[trigger] is_caught(captured, k),
    decreases captured.len(),
{
    let fewer = captured.drop_last();
    assert forall|k: int| 0 <= k < fewer.len() implies #[trigger] is_caught(fewer, k) == is_caught(
        captured,
        k,
    ) by {}
    assert forall|k: int| 0 <= k < fewer.len() implies #[trigger] is_caught(captured, k)
        == is_caught(fewer, k) by {}
    lemma_place_is_counted(fewer);
    assert(is_caught(captured, captured.len() - 1) == captured.last());
    if fewer.len() > 0 {
        if place < fewer.len() {
            law_first_capture_comes_first(fewer, place);
        } else {
            law_first_capture_comes_first(fewer, 0);
        }
        if let Some(first) = first_capture(fewer) {
            law_first_capture_comes_first(fewer, first);
            assert(is_caught(captured, first));
        }
    }
}

/// A vessel that has left the reach of its body goes over to the one that this body circles,
/// whatever else it is near; one that has not goes over to the first satellite that holds it,
/// and stays where none does. Its place is then what the new frame says, and nothing else of
/// it changes.
pub proof fn law_vessel_changes_body<
    X: Fn(&Vessel) -> Reach,
    F: Fn(&Vessel, &CelestialBodyDef) -> Frame,
>(vessel: &mut Vessel, reach: &X, frame: &F)
    requires
        call_ensures(apply_soi_transitions::<X, F>, (vessel, reach, frame), ()),
    ensures
        *final(vessel) == (Vessel {
            primary_body: final(vessel).primary_body,
            position: final(vessel).position,
            velocity: final(vessel).velocity,
            ..*old(vessel)
        }),
        exists|seen: Reach| #[trigger]
            call_ensures(*reach, (&*old(vessel),), seen) && {
                let here = body(old(vessel).primary_body@);
                let near = satellites_of(here.id);
                &&& here.parent is Some && seen.released ==> is_placed_about(
                    *old(vessel),
                    *final(vessel),
                    body(here.parent->0),
                    *frame,
                )
                &&& !(here.parent is Some && seen.released) ==> forall|k: int|
                    0 <= k < near.len() && k < seen.captured@.len() && #[trigger] is_caught(
                        seen.captured@,
                        k,
                    ) && (forall|j: int| 0 <= j < k ==> !#[trigger] is_caught(seen.captured@, j))
                        ==> is_placed_about(*old(vessel), *final(vessel), near[k], *frame)
                &&& !(here.parent is Some && seen.released) && (forall|k: int|
                    0 <= k < seen.captured@.len() ==> !#[trigger] is_caught(seen.captured@, k))
                    ==> *final(vessel) == *old(vessel)
            },
{
    let before = *vessel;
    let after = *final(vessel);
    let id = before.primary_body@;
    let here = body(id);
    let near = satellites_of(here.id);
    assert(is_transferred(before, after, *reach, *frame));
    let seen = choose|seen: Reach| #[trigger]
        call_ensures(*reach, (&before,), seen) && match next_body(
            id,
            seen.released,
            seen.captured@,
        ) {
            Some(next) => is_handed_to(before, after, next, *frame),
            None => after == before,
        };
    let captured = seen.captured@;
    if !(here.parent is Some && seen.released) {
        assert forall|k: int|
            0 <= k < near.len() && k < captured.len() && #[trigger] is_caught(captured, k) && (forall|
                j: int,
            |
                0 <= j < k ==> !#[trigger] is_caught(captured, j)) implies is_placed_about(
            before,
            after,
            near[k],
            *frame,
        ) by {
            law_first_capture_comes_first(captured, k);
            assert(next_body(id, seen.released, captured) == Some(near[k]));
        }
        if captured.len() > 0 {
            law_first_capture_comes_first(captured, 0);
        }
    }
}

/// Whether the vessel is now about that body, where the frame of the body puts it.
pub open spec fn is_placed_about<F: Fn(&Vessel, &CelestialBodyDef) -> Frame>(
    before: Vessel,
    after: Vessel,
    next: BodyView,
    frame: F,
) -> bool {
    &&& after.primary_body@ == next.id
    &&& exists|to: CelestialBodyDef, place: Frame|
        to@ == next && #[trigger] call_ensures(frame, (&before, &to), place) && after.position
            == place.position && after.velocity == place.velocity
}

} // verus!
