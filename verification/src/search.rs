//! Searches along a trajectory: for the first hit, for a crossing, for the nearest
//! point and for a root. What lies at a time is told by functions of the caller.
use crate::number::{law_order_is_numeric, Real};
use vstd::arithmetic::power2::*;
use vstd::prelude::*;

verus! {

/// The least number of segments into which a trajectory is cut.
pub const MIN_SEGMENTS: usize = 8;

/// The largest number of segments into which a trajectory is cut.
pub const MAX_SEGMENTS: usize = 4_096;

/// How often a bracket is halved.
pub const HALVINGS: u32 = 48;

/// How often a bracket is narrowed by a third.
pub const NARROWINGS: u32 = 32;

/// How many steps the search for a root takes at most.
pub const MAX_ITERATIONS: u32 = 64;

/// The number of segments into which a trajectory is cut, given how many it needs.
pub fn segment_count(needed: usize) -> (r: usize)
    ensures
        r == (if needed < MIN_SEGMENTS {
            MIN_SEGMENTS
        } else if needed > MAX_SEGMENTS {
            MAX_SEGMENTS
        } else {
            needed
        }),
{
    if needed < MIN_SEGMENTS {
        MIN_SEGMENTS
    } else if needed > MAX_SEGMENTS {
        MAX_SEGMENTS
    } else {
        needed
    }
}

/// Whether `r` is what the first of the segments gives that gives anything, and nothing where
/// none does.
pub open spec fn is_first_hit<H: Fn(usize) -> Option<Real>>(
    segments: usize,
    hit: H,
    r: Option<Real>,
) -> bool {
    match r {
        Some(time) => exists|first: usize|
            {
                &&& 1 <= first <= segments
                &&& #[trigger] call_ensures(hit, (first,), Some(time))
                &&& forall|i: usize| 1 <= i < first ==> #[trigger] call_ensures(hit, (i,), None)
            },
        None => forall|i: usize| 1 <= i <= segments ==> #[trigger] call_ensures(hit, (i,), None),
    }
}

/// What the first of the segments gives that gives anything. Segments are numbered
/// from one; those after the first hit are not looked at.
pub fn first_hit<H: Fn(usize) -> Option<Real>>(segments: usize, hit: H) -> (r: Option<Real>)
    requires
        segments < usize::MAX,
        forall|i: usize| call_requires(hit, (i,)),
    ensures
        is_first_hit(segments, hit, r),
{
    for i in 1..segments + 1
        invariant
            segments < usize::MAX,
            forall|k: usize| call_requires(hit, (k,)),
            forall|k: usize| 1 <= k < i ==> #[trigger] call_ensures(hit, (k,), None),
    {
        match hit(i) {
            Some(time) => {
                return Some(time);
            },
            None => {},
        }
    }
    None
}

/// Whether `r` is the bracket `without`, `within` halved `n` times: `middle` gives the
/// middle of a bracket, and `holds` tells on which side of the crossing a time lies.
pub open spec fn is_halved<M: Fn(Real, Real) -> Real, H: Fn(Real) -> bool>(
    without: Real,
    within: Real,
    n: u32,
    middle: M,
    holds: H,
    r: (Real, Real),
) -> bool
    decreases n,
{
    if n == 0 {
        r == (without, within)
    } else {
        exists|mid: Real, side: bool|
            {
                &&& #[trigger] call_ensures(middle, (without, within), mid)
                &&& #[trigger] call_ensures(holds, (mid,), side)
                &&& is_halved(
                    if side { without } else { mid },
                    if side { mid } else { within },
                    (n - 1) as u32,
                    middle,
                    holds,
                    r,
                )
            }
    }
}

/// Halves a bracket round a crossing: on one side nothing holds, on the other it does.
pub fn halve<M: Fn(Real, Real) -> Real, H: Fn(Real) -> bool>(
    without: Real,
    within: Real,
    n: u32,
    middle: &M,
    holds: &H,
) -> (r: (Real, Real))
    requires
        forall|a: Real, b: Real| call_requires(*middle, (a, b)),
        forall|a: Real| call_requires(*holds, (a,)),
    ensures
        is_halved(without, within, n, *middle, *holds, r),
    decreases n,
{
    if n == 0 {
        return (without, within);
    }
    let mid = middle(without, within);
    let side = holds(mid);
    proof {
        assert(call_ensures(*middle, (without, within), mid));
        assert(call_ensures(*holds, (mid,), side));
    }
    if side {
        halve(without, mid, n - 1, middle, holds)
    } else {
        halve(mid, within, n - 1, middle, holds)
    }
}

/// Halving a bracket keeps it round the crossing: the end within is the first one or
/// one where the condition was seen to hold, and the other end is the first one or one
/// where it was seen not to.
pub proof fn law_halving_keeps_the_crossing<M: Fn(Real, Real) -> Real, H: Fn(Real) -> bool>(
    without: Real,
    within: Real,
    n: u32,
    middle: M,
    holds: H,
    r: (Real, Real),
)
    requires
        is_halved(without, within, n, middle, holds, r),
    ensures
        r.0 == without || call_ensures(holds, (r.0,), false),
        r.1 == within || call_ensures(holds, (r.1,), true),
    decreases n,
{
    if n > 0 {
        let (mid, side) = choose|mid: Real, side: bool|
            {
                &&& #[trigger] call_ensures(middle, (without, within), mid)
                &&& #[trigger] call_ensures(holds, (mid,), side)
                &&& is_halved(
                    if side { without } else { mid },
                    if side { mid } else { within },
                    (n - 1) as u32,
                    middle,
                    holds,
                    r,
                )
            };
        law_halving_keeps_the_crossing(
            if side { without } else { mid },
            if side { mid } else { within },
            (n - 1) as u32,
            middle,
            holds,
            r,
        );
    }
}

/// Whether `r` is the bracket `start`, `end` narrowed `n` times round the least value:
/// `thirds` gives the points at a third and at two thirds, and `value` what is sought
/// least.
pub open spec fn is_narrowed<T: Fn(Real, Real) -> (Real, Real), V: Fn(Real) -> Real>(
    start: Real,
    end: Real,
    n: u32,
    thirds: T,
    value: V,
    r: (Real, Real),
) -> bool
    decreases n,
{
    if n == 0 {
        r == (start, end)
    } else {
        exists|points: (Real, Real), first: Real, second: Real|
            {
                &&& #[trigger] call_ensures(thirds, (start, end), points)
                &&& #[trigger] call_ensures(value, (points.0,), first)
                &&& #[trigger] call_ensures(value, (points.1,), second)
                &&& is_narrowed(
                    if first.spec_below(second) { start } else { points.0 },
                    if first.spec_below(second) { points.1 } else { end },
                    (n - 1) as u32,
                    thirds,
                    value,
                    r,
                )
            }
    }
}

/// Narrows a bracket round the least value, by a third each time.
pub fn narrow<T: Fn(Real, Real) -> (Real, Real), V: Fn(Real) -> Real>(
    start: Real,
    end: Real,
    n: u32,
    thirds: &T,
    value: &V,
) -> (r: (Real, Real))
    requires
        forall|a: Real, b: Real| call_requires(*thirds, (a, b)),
        forall|a: Real| call_requires(*value, (a,)),
    ensures
        is_narrowed(start, end, n, *thirds, *value, r),
    decreases n,
{
    if n == 0 {
        return (start, end);
    }
    let points = thirds(start, end);
    let first = value(points.0);
    let second = value(points.1);
    proof {
        assert(call_ensures(*thirds, (start, end), points));
        assert(call_ensures(*value, (points.0,), first));
        assert(call_ensures(*value, (points.1,), second));
    }
    if first.is_below(second) {
        narrow(start, points.1, n - 1, thirds, value)
    } else {
        narrow(points.0, end, n - 1, thirds, value)
    }
}

/// A step of the search for a root.
#[derive(Debug, Clone, Copy, PartialEq, Eq, Structural)]
pub enum RootStep {
    /// Go on from that point.
    GoOn(Real),
    /// That point is near enough.
    Found(Real),
    /// There is no way on.
    Failed,
}

/// Whether `r` comes of the search for a root from `x` in at most `n` steps.
pub open spec fn is_root_search<F: Fn(Real) -> RootStep>(
    x: Real,
    n: u32,
    step: F,
    r: Option<Real>,
) -> bool
    decreases n,
{
    if n == 0 {
        r is None
    } else {
        exists|next: RootStep| #[trigger]
            call_ensures(step, (x,), next) && match next {
                RootStep::GoOn(point) => is_root_search(point, (n - 1) as u32, step, r),
                RootStep::Found(point) => r == Some(point),
                RootStep::Failed => r is None,
            }
    }
}

/// Searches for a root from `x` in at most `n` steps.
pub fn find_root<F: Fn(Real) -> RootStep>(x: Real, n: u32, step: &F) -> (r: Option<Real>)
    requires
        forall|a: Real| call_requires(*step, (a,)),
    ensures
        is_root_search(x, n, *step, r),
    decreases n,
{
    if n == 0 {
        return None;
    }
    let next = step(x);
    proof {
        assert(call_ensures(*step, (x,), next));
    }
    match next {
        RootStep::GoOn(point) => find_root(point, n - 1, step),
        RootStep::Found(point) => Some(point),
        RootStep::Failed => None,
    }
}

/// A path is searched in no fewer than eight pieces and no more than four thousand and
/// ninety-six, and between in as many as it needs.
pub proof fn law_segments_are_limited(needed: usize, r: usize)
    requires
        call_ensures(segment_count, (needed,), r),
    ensures
        8 <= r <= 4_096,
        8 <= needed <= 4_096 ==> r == needed,
        needed < 8 ==> r == 8,
        needed > 4_096 ==> r == 4_096,
{
}

/// The hit that counts is that of the earliest piece with one.
pub proof fn law_first_hit_is_the_earliest<H: Fn(usize) -> Option<Real>>(
    segments: usize,
    hit: H,
    r: Option<Real>,
    early: usize,
    time: Real,
)
    requires
        call_ensures(first_hit::<H>, (segments, hit), r),
        1 <= early <= segments,
        forall|i: usize, a: Option<Real>, b: Option<Real>| #[trigger]
            call_ensures(hit, (i,), a) && #[trigger] call_ensures(hit, (i,), b) ==> a == b,
        call_ensures(hit, (early,), Some(time)),
        forall|i: usize| 1 <= i < early ==> #[trigger] call_ensures(hit, (i,), None),
    ensures
        r == Some(time),
{
    if r is Some {
        let first = choose|first: usize|
            {
                &&& 1 <= first <= segments
                &&& #[trigger] call_ensures(hit, (first,), Some(r->0))
                &&& forall|i: usize| 1 <= i < first ==> #[trigger] call_ensures(hit, (i,), None)
            };
        if first < early {
            assert(call_ensures(hit, (first,), None::<Real>));
        }
        if early < first {
            assert(call_ensures(hit, (early,), None::<Real>));
        }
    } else {
        assert(is_first_hit(segments, hit, None));
        assert(call_ensures(hit, (early,), None::<Real>));
    }
}

/// Whether the numbers fall up to `low` and rise from there.
pub open spec fn is_lowest_at(height: spec_fn(int) -> int, low: int) -> bool {
    &&& forall|a: int, b: int| a < b <= low ==> #[trigger] height(a) > #[trigger] height(b)
    &&& forall|a: int, b: int| low <= a < b ==> #[trigger] height(a) < #[trigger] height(b)
}

/// Narrowing never loses the lowest point: where the heights fall to it and rise from it, it
/// stays between the ends.
pub proof fn law_narrowing_keeps_the_lowest<
    T: Fn(Real, Real) -> (Real, Real),
    V: Fn(Real) -> Real,
>(
    start: Real,
    end: Real,
    n: u32,
    thirds: T,
    value: V,
    r: (Real, Real),
    height: spec_fn(int) -> int,
    low: int,
)
    requires
        is_narrowed(start, end, n, thirds, value, r),
        is_lowest_at(height, low),
        start.value() <= low <= end.value(),
        forall|a: Real, b: Real, points: (Real, Real)| #[trigger]
            call_ensures(thirds, (a, b), points) ==> a.value() <= points.0.value()
                < points.1.value() <= b.value(),
        forall|a: Real, h: Real| #[trigger]
            call_ensures(value, (a,), h) ==> h.spec_is_finite() && h.value() == height(a.value()),
    ensures
        r.0.value() <= low <= r.1.value(),
        start.value() <= r.0.value() && r.1.value() <= end.value(),
    decreases n,
{
    if n > 0 {
        let (points, first, second) = choose|points: (Real, Real), first: Real, second: Real|
            {
                &&& #[trigger] call_ensures(thirds, (start, end), points)
                &&& #[trigger] call_ensures(value, (points.0,), first)
                &&& #[trigger] call_ensures(value, (points.1,), second)
                &&& is_narrowed(
                    if first.spec_below(second) { start } else { points.0 },
                    if first.spec_below(second) { points.1 } else { end },
                    (n - 1) as u32,
                    thirds,
                    value,
                    r,
                )
            };
        law_order_is_numeric(first, second);
        let (a, b) = (points.0.value(), points.1.value());
        assert(first.value() == height(a) && second.value() == height(b));
        law_narrowing_keeps_the_lowest(
            if first.spec_below(second) { start } else { points.0 },
            if first.spec_below(second) { points.1 } else { end },
            (n - 1) as u32,
            thirds,
            value,
            r,
            height,
            low,
        );
    }
}

/// A root that is found was found by a step; a search of no steps finds none; and what the
/// first step finds, or fails to, is the end of it.
pub proof fn law_roots_are_found_by_steps<F: Fn(Real) -> RootStep>(
    x: Real,
    n: u32,
    step: &F,
    r: Option<Real>,
)
    requires
        call_ensures(find_root::<F>, (x, n, step), r),
    ensures
        n == 0 ==> r is None,
        r is Some ==> exists|from: Real| #[trigger] call_ensures(
            *step,
            (from,),
            RootStep::Found(r->0),
        ),
        n > 0 ==> exists|next: RootStep| #[trigger]
            call_ensures(*step, (x,), next) && (next is Found ==> r == Some(next->Found_0)) && (
            next is Failed ==> r is None) && (next is GoOn && n == 1 ==> r is None),
{
    if r is Some {
        lemma_found_by_a_step(x, n, *step, r);
    }
    if n > 0 {
        let next = choose|next: RootStep| #[trigger]
            call_ensures(*step, (x,), next) && match next {
                RootStep::GoOn(point) => is_root_search(point, (n - 1) as u32, *step, r),
                RootStep::Found(point) => r == Some(point),
                RootStep::Failed => r is None,
            };
        assert(call_ensures(*step, (x,), next));
    }
}

proof fn lemma_found_by_a_step<F: Fn(Real) -> RootStep>(x: Real, n: u32, step: F, r: Option<Real>)
    requires
        is_root_search(x, n, step, r),
        r is Some,
    ensures
        exists|from: Real| #[trigger] call_ensures(step, (from,), RootStep::Found(r->0)),
    decreases n,
{
    if n > 0 {
        let next = choose|next: RootStep| #[trigger]
            call_ensures(step, (x,), next) && match next {
                RootStep::GoOn(point) => is_root_search(point, (n - 1) as u32, step, r),
                RootStep::Found(point) => r == Some(point),
                RootStep::Failed => r is None,
            };
        if next is Found {
            assert(call_ensures(step, (x,), RootStep::Found(r->0)));
        }
        if next is GoOn {
            lemma_found_by_a_step(next->GoOn_0, (n - 1) as u32, step, r);
        }
    }
}

/// Halving cuts a bracket in half that many times, where the middle is taken exactly.
pub proof fn law_halving_halves<M: Fn(Real, Real) -> Real, H: Fn(Real) -> bool>(
    without: Real,
    within: Real,
    n: u32,
    middle: &M,
    holds: &H,
    r: (Real, Real),
)
    requires
        call_ensures(halve::<M, H>, (without, within, n, middle, holds), r),
        forall|a: Real, b: Real, mid: Real| #[trigger]
            call_ensures(*middle, (a, b), mid) ==> 2 * mid.value() == a.value() + b.value(),
    ensures
        (r.1.value() - r.0.value()) * pow2(n as nat) == within.value() - without.value(),
        r.0 == without || call_ensures(*holds, (r.0,), false),
        r.1 == within || call_ensures(*holds, (r.1,), true),
{
    lemma_width_halves(without, within, n, *middle, *holds, r);
    law_halving_keeps_the_crossing(without, within, n, *middle, *holds, r);
}

proof fn lemma_width_halves<M: Fn(Real, Real) -> Real, H: Fn(Real) -> bool>(
    without: Real,
    within: Real,
    n: u32,
    middle: M,
    holds: H,
    r: (Real, Real),
)
    requires
        is_halved(without, within, n, middle, holds, r),
        forall|a: Real, b: Real, mid: Real| #[trigger]
            call_ensures(middle, (a, b), mid) ==> 2 * mid.value() == a.value() + b.value(),
    ensures
        (r.1.value() - r.0.value()) * pow2(n as nat) == within.value() - without.value(),
    decreases n,
{
    if n > 0 {
        let (mid, side) = choose|mid: Real, side: bool|
            {
                &&& #[trigger] call_ensures(middle, (without, within), mid)
                &&& #[trigger] call_ensures(holds, (mid,), side)
                &&& is_halved(
                    if side { without } else { mid },
                    if side { mid } else { within },
                    (n - 1) as u32,
                    middle,
                    holds,
                    r,
                )
            };
        lemma_width_halves(
            if side { without } else { mid },
            if side { mid } else { within },
            (n - 1) as u32,
            middle,
            holds,
            r,
        );
        lemma_pow2_unfold(n as nat);
        let width = r.1.value() - r.0.value();
        let half = pow2((n - 1) as nat) as int;
        assert(width * (2 * half) == 2 * (width * half)) by (nonlinear_arith);
    } else {
        lemma2_to64();
        let width = r.1.value() - r.0.value();
        assert(width * 1 == width);
    }
}

/// Narrowing, as it is done, keeps the lowest point.
pub proof fn law_narrow_keeps_the_lowest<
    T: Fn(Real, Real) -> (Real, Real),
    V: Fn(Real) -> Real,
>(
    start: Real,
    end: Real,
    n: u32,
    thirds: &T,
    value: &V,
    r: (Real, Real),
    height: spec_fn(int) -> int,
    low: int,
)
    requires
        call_ensures(narrow::<T, V>, (start, end, n, thirds, value), r),
        is_lowest_at(height, low),
        start.value() <= low <= end.value(),
        forall|a: Real, b: Real, points: (Real, Real)| #[trigger]
            call_ensures(*thirds, (a, b), points) ==> a.value() <= points.0.value()
                < points.1.value() <= b.value(),
        forall|a: Real, h: Real| #[trigger]
            call_ensures(*value, (a,), h) ==> h.spec_is_finite() && h.value() == height(a.value()),
    ensures
        r.0.value() <= low <= r.1.value(),
{
    law_narrowing_keeps_the_lowest(start, end, n, *thirds, *value, r, height, low);
}

} // verus!
