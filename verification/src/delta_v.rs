//! How far the propellant of a craft reaches: which burns count, and in what order.
use crate::craft::{stages_view, CraftBlueprint};
use crate::number::{law_integer_has_its_value, law_integer_order, Real, Single};
use crate::parts::{DefinitionView, PartCatalog};
use crate::staging::{
    activate_next_stage, is_performed, is_staged, law_stage_keeps_parts, Separation, Split,
};
use crate::stats::{
    first_lighting, has_engine_actions, ignite_all, ignited, law_first_lighting_is_the_earliest,
};
use crate::vessel::{initial_fuel, is_on_pad, RuntimePart, Vessel};
use vstd::prelude::*;

verus! {

/// A vessel and the change of velocity that its burns have given so far.
pub struct Tally {
    pub vessel: Vessel,
    pub sum: Real,
}

/// Whether `after` is the tally `before` after a burn, whose gain counts where it has one.
/// `burn` burns what is lit until an engine runs dry, and gives the change of velocity, if
/// there is one; `plus` is a sum.
pub open spec fn is_burned<B: Fn(&Vessel) -> (Vessel, Option<Real>), A: Fn(Real, Real) -> Real>(
    before: Tally,
    after: Tally,
    burn: B,
    plus: A,
) -> bool {
    exists|gain: Option<Real>| #[trigger]
        call_ensures(burn, (&before.vessel,), (after.vessel, gain)) && match gain {
            Some(gain) => call_ensures(plus, (before.sum, gain), after.sum),
            None => after.sum == before.sum,
        }
}

/// Whether `after` is the tally `before` after a burn that has a gain.
pub open spec fn is_spent<B: Fn(&Vessel) -> (Vessel, Option<Real>), A: Fn(Real, Real) -> Real>(
    before: Tally,
    after: Tally,
    burn: B,
    plus: A,
) -> bool {
    exists|gain: Real| #[trigger]
        call_ensures(burn, (&before.vessel,), (after.vessel, Some(gain))) && call_ensures(
            plus,
            (before.sum, gain),
            after.sum,
        )
}

/// Whether `after` is the tally `before` after the next stage and one burn.
pub open spec fn is_fired<
    S: Fn(&Vessel, &Separation) -> Split,
    P: Fn([Real; 3], [Single; 3]) -> [Single; 3],
    B: Fn(&Vessel) -> (Vessel, Option<Real>),
    A: Fn(Real, Real) -> Real,
>(
    before: Tally,
    after: Tally,
    catalog: Map<Seq<char>, DefinitionView>,
    split: S,
    place: P,
    burn: B,
    plus: A,
) -> bool {
    exists|staged: Vessel| #[trigger]
        is_staged(before.vessel, staged, catalog, split, place) && is_burned(
            Tally { vessel: staged, sum: before.sum },
            after,
            burn,
            plus,
        )
}

/// Whether `after` is the tally `before` after so many stages, with one burn after each.
pub open spec fn is_fired_through<
    S: Fn(&Vessel, &Separation) -> Split,
    P: Fn([Real; 3], [Single; 3]) -> [Single; 3],
    B: Fn(&Vessel) -> (Vessel, Option<Real>),
    A: Fn(Real, Real) -> Real,
>(
    before: Tally,
    after: Tally,
    stages: nat,
    catalog: Map<Seq<char>, DefinitionView>,
    split: S,
    place: P,
    burn: B,
    plus: A,
) -> bool
    decreases stages,
{
    if stages == 0 {
        after == before
    } else {
        exists|middle: Tally|
            is_fired_through(
                before,
                middle,
                (stages - 1) as nat,
                catalog,
                split,
                place,
                burn,
                plus,
            ) && #[trigger] is_fired(middle, after, catalog, split, place, burn, plus)
    }
}

/// Whether `after` is the tally `before` after so many burns, each with a gain.
pub open spec fn is_spent_down<
    B: Fn(&Vessel) -> (Vessel, Option<Real>),
    A: Fn(Real, Real) -> Real,
>(before: Tally, after: Tally, burns: nat, burn: B, plus: A) -> bool
    decreases burns,
{
    if burns == 0 {
        after == before
    } else {
        exists|middle: Tally|
            is_spent_down(before, middle, (burns - 1) as nat, burn, plus)
                && #[trigger] is_spent(middle, after, burn, plus)
    }
}

/// Whether the next burn of the vessel has no gain.
pub open spec fn is_dry<B: Fn(&Vessel) -> (Vessel, Option<Real>)>(vessel: Vessel, burn: B) -> bool {
    exists|rest: Vessel| #[trigger] call_ensures(burn, (&vessel,), (rest, None::<Real>))
}

/// Whether `lit` is the tally of a craft once all its stages are done, each with one burn; or
/// that of the craft with every engine lit, where no stage lights any.
pub open spec fn is_lit<
    S: Fn(&Vessel, &Separation) -> Split,
    P: Fn([Real; 3], [Single; 3]) -> [Single; 3],
    B: Fn(&Vessel) -> (Vessel, Option<Real>),
    A: Fn(Real, Real) -> Real,
>(
    ready: Vessel,
    lit: Tally,
    lights: bool,
    catalog: Map<Seq<char>, DefinitionView>,
    split: S,
    place: P,
    burn: B,
    plus: A,
) -> bool {
    if lights {
        is_fired_through(
            Tally { vessel: ready, sum: Real::spec_of(0) },
            lit,
            ready.stages@.len(),
            catalog,
            split,
            place,
            burn,
            plus,
        )
    } else {
        &&& lit.sum == Real::spec_of(0)
        &&& lit.vessel == (Vessel { parts: lit.vessel.parts, ..ready })
        &&& lit.vessel.parts@ == ready.parts@.map_values(
            |part: RuntimePart| ignited(part, catalog),
        )
    }
}

/// Whether `sum` is the change of velocity that the craft's propellant gives: that of one burn
/// after each stage, or with every engine lit where no stage lights any, and then of all the
/// burns that still have a gain.
pub open spec fn is_delta_v<
    S: Fn(&Vessel, &Separation) -> Split,
    P: Fn([Real; 3], [Single; 3]) -> [Single; 3],
    B: Fn(&Vessel) -> (Vessel, Option<Real>),
    A: Fn(Real, Real) -> Real,
>(
    craft: CraftBlueprint,
    sum: Real,
    catalog: Map<Seq<char>, DefinitionView>,
    split: S,
    place: P,
    burn: B,
    plus: A,
) -> bool {
    exists|ready: Vessel, lit: Tally, end: Tally, burns: nat|
        {
            &&& is_on_pad(ready, craft, catalog)
            &&& #[trigger] is_lit(
                ready,
                lit,
                first_lighting(craft.stages@) is Some,
                catalog,
                split,
                place,
                burn,
                plus,
            )
            &&& #[trigger] is_spent_down(lit, end, burns, burn, plus)
            &&& is_dry(end.vessel, burn)
            &&& sum == end.sum
        }
}

/// What all the fuel comes to, as a natural number that falls with it.
pub open spec fn reserve(parts: Seq<RuntimePart>) -> nat
    decreases parts.len(),
{
    if parts.len() == 0 {
        0
    } else {
        (reserve(parts.drop_last()) + parts.last().fuel.total_key() + 0x8000_0000_0000_0000) as nat
    }
}

/// Whether no part holds less than no fuel.
pub open spec fn is_stocked(parts: Seq<RuntimePart>) -> bool {
    forall|i: int| 0 <= i < parts.len() ==> (#[trigger] parts[i]).fuel.total_key() >= 0
}

/// Whether a burn leaves the stages alone, leaves no part with less than no fuel, and takes
/// fuel where it has a gain: from one part at least, and none is given any.
pub open spec fn is_honest(before: Vessel, after: Vessel, gain: Option<Real>) -> bool {
    &&& after.stages == before.stages
    &&& after.next_stage == before.next_stage
    &&& is_stocked(before.parts@) ==> is_stocked(after.parts@) && (gain is Some ==> is_lowered(
        before.parts@,
        after.parts@,
    ))
}

/// Whether one part has less fuel in `after` than in `before`, and none more.
pub open spec fn is_lowered(before: Seq<RuntimePart>, after: Seq<RuntimePart>) -> bool {
    &&& after.len() == before.len()
    &&& forall|i: int|
        0 <= i < before.len() ==> (#[trigger] after[i]).fuel.total_key()
            <= before[i].fuel.total_key()
    &&& exists|i: int|
        0 <= i < before.len() && (#[trigger] after[i]).fuel.total_key()
            < before[i].fuel.total_key()
}

proof fn lemma_reserve_falls(before: Seq<RuntimePart>, after: Seq<RuntimePart>)
    requires
        after.len() == before.len(),
        forall|i: int|
            0 <= i < before.len() ==> (#[trigger] after[i]).fuel.total_key()
                <= before[i].fuel.total_key(),
    ensures
        reserve(after) <= reserve(before),
        (exists|i: int|
            0 <= i < before.len() && (#[trigger] after[i]).fuel.total_key()
                < before[i].fuel.total_key()) ==> reserve(after) < reserve(before),
    decreases before.len(),
{
    if before.len() > 0 {
        lemma_reserve_falls(before.drop_last(), after.drop_last());
        if exists|i: int|
            0 <= i < before.len() && (#[trigger] after[i]).fuel.total_key()
                < before[i].fuel.total_key() {
            let i = choose|i: int|
                0 <= i < before.len() && (#[trigger] after[i]).fuel.total_key()
                    < before[i].fuel.total_key();
            if i < before.len() - 1 {
                assert(after.drop_last()[i].fuel.total_key()
                    < before.drop_last()[i].fuel.total_key());
            }
        }
    }
}

proof fn lemma_stage_counts<
    S: Fn(&Vessel, &Separation) -> Split,
    P: Fn([Real; 3], [Single; 3]) -> [Single; 3],
>(
    before: Vessel,
    after: Vessel,
    catalog: Map<Seq<char>, DefinitionView>,
    split: S,
    place: P,
)
    requires
        is_staged(before, after, catalog, split, place),
        before.next_stage < before.stages.len(),
    ensures
        after.stages == before.stages,
        after.next_stage == before.next_stage + 1,
        is_stocked(before.parts@) ==> is_stocked(after.parts@),
{
    let actions = before.stages@[before.next_stage as int].actions@;
    let acted = choose|acted: Vessel| #[trigger]
        is_performed(before, acted, catalog, actions, split, place) && after == (Vessel {
            next_stage: (before.next_stage + 1) as usize,
            ..acted
        });
    law_stage_keeps_parts(before, acted, catalog, actions, split, place);
    assert forall|i: int| is_stocked(before.parts@) && 0 <= i < after.parts@.len() implies (
    #[trigger] after.parts@[i]).fuel.total_key() >= 0 by {
        assert(acted.parts@[i].fuel == before.parts@[i].fuel);
    }
}

proof fn lemma_pad_is_stocked(
    vessel: Vessel,
    craft: CraftBlueprint,
    catalog: Map<Seq<char>, DefinitionView>,
)
    requires
        is_on_pad(vessel, craft, catalog),
    ensures
        is_stocked(vessel.parts@),
{
    assert forall|i: int| 0 <= i < vessel.parts@.len() implies (
    #[trigger] vessel.parts@[i]).fuel.total_key() >= 0 by {
        let amount = initial_fuel(catalog[craft.parts@[i].definition_id@].module);
        if amount > 0 {
            law_integer_order(0, amount);
        }
    }
}

fn fire_stages<
    S: Fn(&Vessel, &Separation) -> Split,
    P: Fn([Real; 3], [Single; 3]) -> [Single; 3],
    B: Fn(&Vessel) -> (Vessel, Option<Real>),
    A: Fn(Real, Real) -> Real,
>(ready: Vessel, catalog: &PartCatalog, split: &S, place: &P, burn: &B, plus: &A) -> (r: Tally)
    requires
        ready.next_stage == 0,
        is_stocked(ready.parts@),
        forall|v: &Vessel, plan: &Separation| call_requires(*split, (v, plan)),
        forall|a: [Real; 3], b: [Single; 3]| call_requires(*place, (a, b)),
        forall|v: &Vessel| call_requires(*burn, (v,)),
        forall|v: &Vessel, after: Vessel, gain: Option<Real>| #[trigger]
            call_ensures(*burn, (v,), (after, gain)) ==> is_honest(*v, after, gain),
        forall|a: Real, b: Real| call_requires(*plus, (a, b)),
    ensures
        is_fired_through(
            Tally { vessel: ready, sum: Real::spec_of(0) },
            r,
            ready.stages@.len(),
            catalog@,
            *split,
            *place,
            *burn,
            *plus,
        ),
        is_stocked(r.vessel.parts@),
{
    let ghost start = Tally { vessel: ready, sum: Real::spec_of(0) };
    let stages: usize = ready.stages.len();
    let mut now = Tally { vessel: ready, sum: Real::zero() };
    for i in 0..stages
        invariant
            forall|v: &Vessel, plan: &Separation| call_requires(*split, (v, plan)),
            forall|a: [Real; 3], b: [Single; 3]| call_requires(*place, (a, b)),
            forall|v: &Vessel| call_requires(*burn, (v,)),
            forall|v: &Vessel, after: Vessel, gain: Option<Real>| #[trigger]
                call_ensures(*burn, (v,), (after, gain)) ==> is_honest(*v, after, gain),
            forall|a: Real, b: Real| call_requires(*plus, (a, b)),
            now.vessel.next_stage == i,
            now.vessel.stages@.len() == stages,
            is_stocked(now.vessel.parts@),
            is_fired_through(start, now, i as nat, catalog@, *split, *place, *burn, *plus),
    {
        let ghost middle = now;
        let mut vessel = now.vessel;
        activate_next_stage(&mut vessel, catalog, split, place);
        let ghost staged = vessel;
        let (after, gain) = burn(&vessel);
        proof {
            lemma_stage_counts(middle.vessel, staged, catalog@, *split, *place);
            assert(call_ensures(*burn, (&staged,), (after, gain)));
        }
        let sum = match gain {
            Some(gain) => plus(now.sum, gain),
            None => now.sum,
        };
        now = Tally { vessel: after, sum };
        proof {
            assert(is_burned(
                Tally { vessel: staged, sum: middle.sum },
                now,
                *burn,
                *plus,
            ));
            assert(is_fired(middle, now, catalog@, *split, *place, *burn, *plus));
            assert(is_fired_through(
                start,
                middle,
                ((i + 1) - 1) as nat,
                catalog@,
                *split,
                *place,
                *burn,
                *plus,
            ));
            assert(is_fired_through(
                start,
                now,
                (i + 1) as nat,
                catalog@,
                *split,
                *place,
                *burn,
                *plus,
            ));
        }
    }
    now
}

fn spend_down<B: Fn(&Vessel) -> (Vessel, Option<Real>), A: Fn(Real, Real) -> Real>(
    lit: Tally,
    burn: &B,
    plus: &A,
) -> (r: Real)
    requires
        is_stocked(lit.vessel.parts@),
        forall|v: &Vessel| call_requires(*burn, (v,)),
        forall|v: &Vessel, after: Vessel, gain: Option<Real>| #[trigger]
            call_ensures(*burn, (v,), (after, gain)) ==> is_honest(*v, after, gain),
        forall|a: Real, b: Real| call_requires(*plus, (a, b)),
    ensures
        exists|end: Tally, burns: nat| #[trigger]
            is_spent_down(lit, end, burns, *burn, *plus) && is_dry(end.vessel, *burn) && r
                == end.sum,
{
    let mut now = lit;
    let ghost mut burns: nat = 0;
    loop
        invariant
            forall|v: &Vessel| call_requires(*burn, (v,)),
            forall|v: &Vessel, after: Vessel, gain: Option<Real>| #[trigger]
                call_ensures(*burn, (v,), (after, gain)) ==> is_honest(*v, after, gain),
            forall|a: Real, b: Real| call_requires(*plus, (a, b)),
            is_stocked(now.vessel.parts@),
            is_spent_down(lit, now, burns, *burn, *plus),
        decreases reserve(now.vessel.parts@),
    {
        let ghost middle = now;
        let (after, gain) = burn(&now.vessel);
        proof {
            assert(call_ensures(*burn, (&middle.vessel,), (after, gain)));
        }
        match gain {
            Some(gain) => {
                let sum = plus(now.sum, gain);
                now = Tally { vessel: after, sum };
                proof {
                    lemma_reserve_falls(middle.vessel.parts@, after.parts@);
                    assert(is_spent(middle, now, *burn, *plus));
                    burns = burns + 1;
                    assert(is_spent_down(lit, middle, (burns - 1) as nat, *burn, *plus));
                    assert(is_spent_down(lit, now, burns, *burn, *plus));
                }
            },
            None => {
                return now.sum;
            },
        }
    }
}

/// The change of velocity that the propellant of a craft gives in vacuum. Every stage is done
/// in turn, with one burn after each; or every engine is lit, where no stage lights any. After
/// that burns go on as long as they have a gain.
pub fn staged_vacuum_delta_v<
    S: Fn(&Vessel, &Separation) -> Split,
    P: Fn([Real; 3], [Single; 3]) -> [Single; 3],
    B: Fn(&Vessel) -> (Vessel, Option<Real>),
    A: Fn(Real, Real) -> Real,
>(
    craft: &CraftBlueprint,
    catalog: &PartCatalog,
    split: &S,
    place: &P,
    burn: &B,
    plus: &A,
) -> (r: Real)
    requires
        forall|i: int|
            0 <= i < craft.parts.len() ==> catalog@.contains_key(
                (#[trigger] craft.parts@[i]).definition_id@,
            ),
        forall|v: &Vessel, plan: &Separation| call_requires(*split, (v, plan)),
        forall|a: [Real; 3], b: [Single; 3]| call_requires(*place, (a, b)),
        forall|v: &Vessel| call_requires(*burn, (v,)),
        forall|v: &Vessel, after: Vessel, gain: Option<Real>| #[trigger]
            call_ensures(*burn, (v,), (after, gain)) ==> is_honest(*v, after, gain),
        forall|a: Real, b: Real| call_requires(*plus, (a, b)),
    ensures
        is_delta_v(*craft, r, catalog@, *split, *place, *burn, *plus),
{
    let ready = Vessel::from_blueprint(craft, catalog);
    let ghost first = ready;
    proof {
        lemma_pad_is_stocked(ready, *craft, catalog@);
    }
    let lights = has_engine_actions(craft);
    let lit = if lights {
        fire_stages(ready, catalog, split, place, burn, plus)
    } else {
        let mut vessel = ready;
        ignite_all(&mut vessel, catalog);
        proof {
            assert forall|i: int| 0 <= i < vessel.parts@.len() implies (
            #[trigger] vessel.parts@[i]).fuel.total_key() >= 0 by {
                assert(vessel.parts@[i].fuel == first.parts@[i].fuel);
            }
        }
        Tally { vessel, sum: Real::zero() }
    };
    let ghost started = lit;
    proof {
        assert(is_lit(first, started, lights, catalog@, *split, *place, *burn, *plus));
    }
    spend_down(lit, burn, plus)
}

/// Whether what adds two speeds adds them exactly.
pub open spec fn adds_up<A: Fn(Real, Real) -> Real>(plus: A) -> bool {
    forall|a: Real, b: Real, c: Real| #[trigger]
        call_ensures(plus, (a, b), c) ==> c.value() == a.value() + b.value()
}

/// All gains together.
pub open spec fn total_gain(gains: Seq<Option<Real>>) -> int
    decreases gains.len(),
{
    if gains.len() == 0 {
        0
    } else {
        total_gain(gains.drop_last()) + match gains.last() {
            Some(gain) => gain.value(),
            None => 0,
        }
    }
}

/// Whether the vessel goes from `first` to `last` when it fires a stage and burns what that
/// gives it, once for each of the gains.
pub open spec fn is_flown<
    S: Fn(&Vessel, &Separation) -> Split,
    P: Fn([Real; 3], [Single; 3]) -> [Single; 3],
    B: Fn(&Vessel) -> (Vessel, Option<Real>),
>(
    first: Vessel,
    last: Vessel,
    gains: Seq<Option<Real>>,
    catalog: Map<Seq<char>, DefinitionView>,
    split: S,
    place: P,
    burn: B,
) -> bool
    decreases gains.len(),
{
    if gains.len() == 0 {
        last == first
    } else {
        exists|middle: Vessel, staged: Vessel|
            is_flown(first, middle, gains.drop_last(), catalog, split, place, burn) && #[trigger]
            is_staged(middle, staged, catalog, split, place) && call_ensures(
                burn,
                (&staged,),
                (last, gains.last()),
            )
    }
}

/// Whether the vessel goes from `first` to `last` over burns that each gave what is listed.
pub open spec fn is_drained<B: Fn(&Vessel) -> (Vessel, Option<Real>)>(
    first: Vessel,
    last: Vessel,
    gains: Seq<Option<Real>>,
    burn: B,
) -> bool
    decreases gains.len(),
{
    if gains.len() == 0 {
        last == first
    } else {
        gains.last() is Some && exists|middle: Vessel|
            is_drained(first, middle, gains.drop_last(), burn) && #[trigger] call_ensures(
                burn,
                (&middle,),
                (last, gains.last()),
            )
    }
}

/// Every burn adds what it gained to what was gained before, and one that gained nothing adds
/// nothing.
pub proof fn law_burn_adds_its_gain<
    B: Fn(&Vessel) -> (Vessel, Option<Real>),
    A: Fn(Real, Real) -> Real,
>(before: Tally, after: Tally, burn: B, plus: A)
    requires
        is_burned(before, after, burn, plus),
        adds_up(plus),
    ensures
        exists|gain: Option<Real>| #[trigger]
            call_ensures(burn, (&before.vessel,), (after.vessel, gain)) && match gain {
                Some(gain) => after.sum.value() == before.sum.value() + gain.value(),
                None => after.sum == before.sum,
            },
{
}

/// Where burns gain nothing below zero, what was gained never falls from one stage to the
/// next.
pub proof fn law_stages_only_gain<
    S: Fn(&Vessel, &Separation) -> Split,
    P: Fn([Real; 3], [Single; 3]) -> [Single; 3],
    B: Fn(&Vessel) -> (Vessel, Option<Real>),
    A: Fn(Real, Real) -> Real,
>(
    before: Tally,
    after: Tally,
    catalog: Map<Seq<char>, DefinitionView>,
    split: S,
    place: P,
    burn: B,
    plus: A,
)
    requires
        is_fired(before, after, catalog, split, place, burn, plus),
        adds_up(plus),
        forall|v: Vessel, w: Vessel, gain: Real| #[trigger]
            call_ensures(burn, (&v,), (w, Some(gain))) ==> gain.value() >= 0,
    ensures
        after.sum.value() >= before.sum.value(),
{
    let staged = choose|staged: Vessel| #[trigger]
        is_staged(before.vessel, staged, catalog, split, place) && is_burned(
            Tally { vessel: staged, sum: before.sum },
            after,
            burn,
            plus,
        );
    law_burn_adds_its_gain(Tally { vessel: staged, sum: before.sum }, after, burn, plus);
}

/// Firing stage after stage adds up what each of them gained.
pub proof fn law_stages_add_up<
    S: Fn(&Vessel, &Separation) -> Split,
    P: Fn([Real; 3], [Single; 3]) -> [Single; 3],
    B: Fn(&Vessel) -> (Vessel, Option<Real>),
    A: Fn(Real, Real) -> Real,
>(
    before: Tally,
    after: Tally,
    stages: nat,
    catalog: Map<Seq<char>, DefinitionView>,
    split: S,
    place: P,
    burn: B,
    plus: A,
) -> (gains: Seq<Option<Real>>)
    requires
        is_fired_through(before, after, stages, catalog, split, place, burn, plus),
        adds_up(plus),
    ensures
        gains.len() == stages,
        is_flown(before.vessel, after.vessel, gains, catalog, split, place, burn),
        after.sum.value() == before.sum.value() + total_gain(gains),
    decreases stages,
{
    if stages == 0 {
        Seq::empty()
    } else {
        let middle = choose|middle: Tally|
            is_fired_through(
                before,
                middle,
                (stages - 1) as nat,
                catalog,
                split,
                place,
                burn,
                plus,
            ) && #[trigger] is_fired(middle, after, catalog, split, place, burn, plus);
        let earlier = law_stages_add_up(
            before,
            middle,
            (stages - 1) as nat,
            catalog,
            split,
            place,
            burn,
            plus,
        );
        let staged = choose|staged: Vessel| #[trigger]
            is_staged(middle.vessel, staged, catalog, split, place) && is_burned(
                Tally { vessel: staged, sum: middle.sum },
                after,
                burn,
                plus,
            );
        let start = Tally { vessel: staged, sum: middle.sum };
        law_burn_adds_its_gain(start, after, burn, plus);
        let gain = choose|gain: Option<Real>| #[trigger]
            call_ensures(burn, (&start.vessel,), (after.vessel, gain)) && match gain {
                Some(gain) => after.sum.value() == start.sum.value() + gain.value(),
                None => after.sum == start.sum,
            };
        let gains = earlier.push(gain);
        assert(gains.drop_last() =~= earlier);
        assert(is_staged(middle.vessel, staged, catalog, split, place));
        gains
    }
}

/// Burning on until nothing is left adds up what each burn gained.
pub proof fn law_burns_add_up<
    B: Fn(&Vessel) -> (Vessel, Option<Real>),
    A: Fn(Real, Real) -> Real,
>(before: Tally, after: Tally, burns: nat, burn: B, plus: A) -> (gains: Seq<Option<Real>>)
    requires
        is_spent_down(before, after, burns, burn, plus),
        adds_up(plus),
    ensures
        gains.len() == burns,
        is_drained(before.vessel, after.vessel, gains, burn),
        after.sum.value() == before.sum.value() + total_gain(gains),
    decreases burns,
{
    if burns == 0 {
        Seq::empty()
    } else {
        let middle = choose|middle: Tally|
            is_spent_down(before, middle, (burns - 1) as nat, burn, plus) && #[trigger] is_spent(
                middle,
                after,
                burn,
                plus,
            );
        let earlier = law_burns_add_up(before, middle, (burns - 1) as nat, burn, plus);
        let gain = choose|gain: Real| #[trigger]
            call_ensures(burn, (&middle.vessel,), (after.vessel, Some(gain))) && call_ensures(
                plus,
                (middle.sum, gain),
                after.sum,
            );
        let gains = earlier.push(Some(gain));
        assert(gains.drop_last() =~= earlier);
        assert(call_ensures(burn, (&middle.vessel,), (after.vessel, gains.last())));
        gains
    }
}

/// Whether the gains are those of a craft that starts from the pad, fires every stage where
/// some stage lights an engine and lights all engines at once where none does, and burns what
/// is left until a burn gains nothing.
pub open spec fn is_account<
    S: Fn(&Vessel, &Separation) -> Split,
    P: Fn([Real; 3], [Single; 3]) -> [Single; 3],
    B: Fn(&Vessel) -> (Vessel, Option<Real>),
>(
    craft: CraftBlueprint,
    ready: Vessel,
    fired: Seq<Option<Real>>,
    lit: Vessel,
    spent: Seq<Option<Real>>,
    end: Vessel,
    catalog: Map<Seq<char>, DefinitionView>,
    split: S,
    place: P,
    burn: B,
) -> bool {
    let lights = exists|s: int, a: int|
        0 <= s < craft.stages@.len() && 0 <= a < craft.stages@[s].actions@.len() && (
        #[trigger] craft.stages@[s].actions@[a]) is ActivateEngine;
    &&& is_on_pad(ready, craft, catalog)
    &&& lights ==> fired.len() == craft.stages@.len() && is_flown(
        ready,
        lit,
        fired,
        catalog,
        split,
        place,
        burn,
    )
    &&& !lights ==> fired.len() == 0 && lit.parts@.len() == ready.parts@.len() && forall|i: int|
        0 <= i < ready.parts@.len() ==> {
            &&& (#[trigger] lit.parts@[i]).fuel == ready.parts@[i].fuel
            &&& lit.parts@[i].instance == ready.parts@[i].instance
            &&& catalog.contains_key(ready.parts@[i].instance.definition_id@)
                && catalog[ready.parts@[i].instance.definition_id@].module is LiquidEngine
                ==> lit.parts@[i].active
            &&& catalog.contains_key(ready.parts@[i].instance.definition_id@)
                && catalog[ready.parts@[i].instance.definition_id@].module is SolidEngine
                ==> lit.parts@[i].active
        }
    &&& is_drained(lit, end, spent, burn)
    &&& exists|rest: Vessel| #[trigger] call_ensures(burn, (&end,), (rest, None::<Real>))
}

/// The reach of a craft is what all its burns gained together.
pub proof fn law_reach_is_the_sum_of_the_gains<
    S: Fn(&Vessel, &Separation) -> Split,
    P: Fn([Real; 3], [Single; 3]) -> [Single; 3],
    B: Fn(&Vessel) -> (Vessel, Option<Real>),
    A: Fn(Real, Real) -> Real,
>(
    craft: &CraftBlueprint,
    catalog: &PartCatalog,
    split: &S,
    place: &P,
    burn: &B,
    plus: &A,
    sum: Real,
)
    requires
        call_ensures(
            staged_vacuum_delta_v::<S, P, B, A>,
            (craft, catalog, split, place, burn, plus),
            sum,
        ),
        adds_up(*plus),
    ensures
        exists|
            ready: Vessel,
            fired: Seq<Option<Real>>,
            lit: Vessel,
            spent: Seq<Option<Real>>,
            end: Vessel,
        | #[trigger]
            is_account(
                *craft,
                ready,
                fired,
                lit,
                spent,
                end,
                catalog@,
                *split,
                *place,
                *burn,
            ) && sum.value() == total_gain(fired) + total_gain(spent),
{
    let (ready, lit, end, burns) = choose|ready: Vessel, lit: Tally, end: Tally, burns: nat|
        {
            &&& is_on_pad(ready, *craft, catalog@)
            &&& #[trigger] is_lit(
                ready,
                lit,
                first_lighting(craft.stages@) is Some,
                catalog@,
                *split,
                *place,
                *burn,
                *plus,
            )
            &&& #[trigger] is_spent_down(lit, end, burns, *burn, *plus)
            &&& is_dry(end.vessel, *burn)
            &&& sum == end.sum
        };
    law_first_lighting_is_the_earliest(craft.stages@);
    law_integer_has_its_value(0);
    let zero = Tally { vessel: ready, sum: Real::spec_of(0) };
    let spent = law_burns_add_up(lit, end, burns, *burn, *plus);
    let fired: Seq<Option<Real>> = if first_lighting(craft.stages@) is Some {
        law_stages_add_up(
            zero,
            lit,
            ready.stages@.len(),
            catalog@,
            *split,
            *place,
            *burn,
            *plus,
        )
    } else {
        Seq::empty()
    };
    assert(stages_view(ready.stages@).len() == stages_view(craft.stages@).len());
    assert(is_account(
        *craft,
        ready,
        fired,
        lit.vessel,
        spent,
        end.vessel,
        catalog@,
        *split,
        *place,
        *burn,
    ));
}

} // verus!
