//! The navball: the mesh of the ball and the marks on it.
use crate::burn::lemma_above_a_trace;
use crate::number::{law_a_quarter_is_exact, law_order_is_numeric, Real, EPSILON};
use vstd::arithmetic::mul::*;
use vstd::arithmetic::power2::*;
use vstd::prelude::*;

verus! {

/// The rings of the ball's mesh.
pub const RINGS: usize = 14;

/// The segments of each ring.
pub const SEGMENTS: usize = 96;

/// The pattern of a quarter: the square of the least speed that shows a direction.
pub const MIN_GUIDANCE_SPEED_SQUARED: u64 = 0x3fd0_0000_0000_0000;

/// What velocities are measured against.
#[derive(Debug, Clone, Copy, PartialEq, Eq, Structural)]
pub enum NavReference {
    Surface,
    Orbit,
}

impl Default for NavReference {
    fn default() -> (r: Self)
        ensures
            r == NavReference::Surface,
    {
        NavReference::Surface
    }
}

/// A mark on the ball.
#[derive(Debug, Clone, Copy, PartialEq, Eq, Structural)]
pub enum MarkerKind {
    Prograde,
    Retrograde,
    Normal,
    AntiNormal,
    RadialOut,
    RadialIn,
    Maneuver,
}

/// The colour of a mark.
#[derive(Debug, Clone, Copy, PartialEq, Eq, Structural)]
pub enum MarkerColor {
    Green,
    Purple,
    Cyan,
    Gold,
}

/// A stroke of a mark, in tenths of a point from its centre.
#[derive(Debug, Clone, Copy, PartialEq, Eq, Structural)]
pub enum Glyph {
    Ring { radius: i32 },
    Dot { radius: i32 },
    Line { from_x: i32, from_y: i32, to_x: i32, to_y: i32 },
    /// A line outwards at a multiple of a sixth of half a turn.
    Tick { sixths: i32, from: i32, to: i32 },
    Triangle { tip_y: i32, base_y: i32, half_width: i32 },
}

/// The colour of a mark: those of a pair share it.
pub fn marker_color(kind: MarkerKind) -> (r: MarkerColor)
    ensures
        r == (match kind {
            MarkerKind::Prograde => MarkerColor::Green,
            MarkerKind::Retrograde => MarkerColor::Green,
            MarkerKind::Normal => MarkerColor::Purple,
            MarkerKind::AntiNormal => MarkerColor::Purple,
            MarkerKind::RadialOut => MarkerColor::Cyan,
            MarkerKind::RadialIn => MarkerColor::Cyan,
            MarkerKind::Maneuver => MarkerColor::Gold,
        }),
{
    match kind {
        MarkerKind::Prograde | MarkerKind::Retrograde => MarkerColor::Green,
        MarkerKind::Normal | MarkerKind::AntiNormal => MarkerColor::Purple,
        MarkerKind::RadialOut | MarkerKind::RadialIn => MarkerColor::Cyan,
        MarkerKind::Maneuver => MarkerColor::Gold,
    }
}

/// A line from one point to another.
pub open spec fn line_of(from_x: int, from_y: int, to_x: int, to_y: int) -> Glyph {
    Glyph::Line {
        from_x: from_x as i32,
        from_y: from_y as i32,
        to_x: to_x as i32,
        to_y: to_y as i32,
    }
}

/// A line outwards.
pub open spec fn tick_of(sixths: int) -> Glyph {
    Glyph::Tick { sixths: sixths as i32, from: 70, to: 110 }
}

/// A triangle that points up or down.
pub open spec fn triangle_of(tip_y: int, base_y: int) -> Glyph {
    Glyph::Triangle { tip_y: tip_y as i32, base_y: base_y as i32, half_width: 80 }
}

fn line(from_x: i32, from_y: i32, to_x: i32, to_y: i32) -> (r: Glyph)
    ensures
        r == line_of(from_x as int, from_y as int, to_x as int, to_y as int),
{
    Glyph::Line { from_x, from_y, to_x, to_y }
}

/// The strokes of a mark; `behind` tells that what it marks lies behind the nose.
pub open spec fn strokes(kind: MarkerKind, behind: bool) -> Seq<Glyph> {
    match kind {
        MarkerKind::Prograde => seq![
            Glyph::Ring { radius: 70 },
            Glyph::Dot { radius: 20 },
            tick_of(-3),
            tick_of(1),
            tick_of(5),
        ],
        MarkerKind::Retrograde => seq![
            Glyph::Ring { radius: 70 },
            line_of(-50, -50, 50, 50),
            line_of(-50, 50, 50, -50),
        ],
        MarkerKind::Normal => seq![triangle_of(-90, 60)],
        MarkerKind::AntiNormal => seq![
            triangle_of(90, -60),
            Glyph::Dot { radius: 20 },
        ],
        MarkerKind::RadialOut => seq![
            line_of(0, -90, 90, 0),
            line_of(90, 0, 0, 90),
            line_of(0, 90, -90, 0),
            line_of(-90, 0, 0, -90),
            Glyph::Dot { radius: 22 },
        ],
        MarkerKind::RadialIn => seq![
            line_of(0, -90, 90, 0),
            line_of(90, 0, 0, 90),
            line_of(0, 90, -90, 0),
            line_of(-90, 0, 0, -90),
            line_of(-40, -40, 40, 40),
            line_of(-40, 40, 40, -40),
        ],
        MarkerKind::Maneuver => if behind {
            seq![
                Glyph::Ring { radius: 80 },
                line_of(-120, 0, 120, 0),
                line_of(0, -120, 0, 120),
                Glyph::Dot { radius: 30 },
            ]
        } else {
            seq![
                Glyph::Ring { radius: 80 },
                line_of(-120, 0, 120, 0),
                line_of(0, -120, 0, 120),
            ]
        },
    }
}

/// The strokes of a mark; `behind` tells that what it marks lies behind the nose.
pub fn marker_strokes(kind: MarkerKind, behind: bool) -> (r: Vec<Glyph>)
    ensures
        r@ == strokes(kind, behind),
{
    let r = match kind {
        MarkerKind::Prograde => vec![
            Glyph::Ring { radius: 70 },
            Glyph::Dot { radius: 20 },
            Glyph::Tick { sixths: -3, from: 70, to: 110 },
            Glyph::Tick { sixths: 1, from: 70, to: 110 },
            Glyph::Tick { sixths: 5, from: 70, to: 110 },
        ],
        MarkerKind::Retrograde => vec![
            Glyph::Ring { radius: 70 },
            line(-50, -50, 50, 50),
            line(-50, 50, 50, -50),
        ],
        MarkerKind::Normal => vec![Glyph::Triangle { tip_y: -90, base_y: 60, half_width: 80 }],
        MarkerKind::AntiNormal => vec![
            Glyph::Triangle { tip_y: 90, base_y: -60, half_width: 80 },
            Glyph::Dot { radius: 20 },
        ],
        MarkerKind::RadialOut => vec![
            line(0, -90, 90, 0),
            line(90, 0, 0, 90),
            line(0, 90, -90, 0),
            line(-90, 0, 0, -90),
            Glyph::Dot { radius: 22 },
        ],
        MarkerKind::RadialIn => vec![
            line(0, -90, 90, 0),
            line(90, 0, 0, 90),
            line(0, 90, -90, 0),
            line(-90, 0, 0, -90),
            line(-40, -40, 40, 40),
            line(-40, 40, 40, -40),
        ],
        MarkerKind::Maneuver => if behind {
            vec![
                Glyph::Ring { radius: 80 },
                line(-120, 0, 120, 0),
                line(0, -120, 0, 120),
                Glyph::Dot { radius: 30 },
            ]
        } else {
            vec![Glyph::Ring { radius: 80 }, line(-120, 0, 120, 0), line(0, -120, 0, 120)]
        },
    };
    proof {
        assert(r@ =~= strokes(kind, behind));
    }
    r
}

/// Whether a velocity is fast enough to show a direction, given its square.
pub fn shows_direction(speed_squared: Real) -> (r: bool)
    ensures
        r == Real::spec_of(MIN_GUIDANCE_SPEED_SQUARED).spec_at_most(speed_squared),
{
    Real::of(MIN_GUIDANCE_SPEED_SQUARED).is_at_most(speed_squared)
}

/// Whether a vector is long enough to be a direction, given the square of its length.
pub fn is_direction(length_squared: Real) -> (r: bool)
    ensures
        r == Real::spec_of(EPSILON).spec_below(length_squared),
{
    Real::of(EPSILON).is_below(length_squared)
}

/// The number of a vertex of the mesh: the centre is the first, and the rings follow,
/// each with its segments.
pub open spec fn vertex(ring: int, segment: int, segments: int) -> int {
    1 + (ring - 1) * segments + segment
}

/// The number of a vertex of the mesh.
pub fn mesh_index(ring: usize, segment: usize, segments: usize) -> (r: u32)
    requires
        ring >= 1,
        vertex(ring as int, segment as int, segments as int) <= u32::MAX,
    ensures
        r == vertex(ring as int, segment as int, segments as int),
{
    proof {
        lemma_mul_nonnegative(ring - 1, segments as int);
    }
    (1 + (ring - 1) * segments + segment) as u32
}

/// A triangle of the mesh, by the numbers of its corners.
#[derive(Debug, Clone, Copy, PartialEq, Eq, Structural)]
pub struct Triangle {
    pub a: u32,
    pub b: u32,
    pub c: u32,
}

/// The triangle at the centre over a segment of the first ring.
pub open spec fn central_triangle(segment: int, segments: int) -> Triangle {
    Triangle {
        a: 0,
        b: vertex(1, segment, segments) as u32,
        c: vertex(1, (segment + 1) % segments, segments) as u32,
    }
}

/// The triangle between a ring and the one within it that has its base on the inner
/// ring.
pub open spec fn inner_triangle(ring: int, segment: int, segments: int) -> Triangle {
    Triangle {
        a: vertex(ring - 1, segment, segments) as u32,
        b: vertex(ring, segment, segments) as u32,
        c: vertex(ring - 1, (segment + 1) % segments, segments) as u32,
    }
}

/// The triangle between a ring and the one within it that has its base on the outer
/// ring.
pub open spec fn outer_triangle(ring: int, segment: int, segments: int) -> Triangle {
    Triangle {
        a: vertex(ring - 1, (segment + 1) % segments, segments) as u32,
        b: vertex(ring, segment, segments) as u32,
        c: vertex(ring, (segment + 1) % segments, segments) as u32,
    }
}

/// The triangles at the centre over the first `n` segments.
pub open spec fn central_triangles(n: int, segments: int) -> Seq<Triangle> {
    Seq::new(n as nat, |s: int| central_triangle(s, segments))
}

/// The triangles between a ring and the one within it over the first `n` segments.
pub open spec fn ring_triangles(ring: int, n: int, segments: int) -> Seq<Triangle> {
    Seq::new(
        (2 * n) as nat,
        |t: int|
            if t % 2 == 0 {
                inner_triangle(ring, t / 2, segments)
            } else {
                outer_triangle(ring, t / 2, segments)
            },
    )
}

/// The triangles of the mesh up to that ring.
pub open spec fn triangles(rings: int, segments: int) -> Seq<Triangle>
    decreases rings,
{
    if rings <= 1 {
        central_triangles(segments, segments)
    } else {
        triangles(rings - 1, segments) + ring_triangles(rings, segments, segments)
    }
}

/// The triangles of a ball's mesh.
pub fn ball_triangles(rings: usize, segments: usize) -> (r: Vec<Triangle>)
    requires
        rings >= 1,
        segments >= 1,
        1 + rings * segments <= u32::MAX,
    ensures
        r@ == triangles(rings as int, segments as int),
{
    let mut r: Vec<Triangle> = Vec::new();
    proof {
        assert(r@ =~= central_triangles(0, segments as int));
    }
    for s in 0..segments
        invariant
            segments >= 1,
            rings >= 1,
            1 + rings * segments <= u32::MAX,
            r@ == central_triangles(s as int, segments as int),
    {
        proof {
            lemma_vertex_in_mesh(rings as int, 1, s as int, segments as int);
            lemma_vertex_in_mesh(rings as int, 1, (s + 1) % segments as int, segments as int);
            assert(s < 0x1_0000_0000) by (nonlinear_arith)
                requires
                    s < segments,
                    rings >= 1,
                    1 + rings * segments <= u32::MAX,
            ;
        }
        r.push(
            Triangle {
                a: 0,
                b: mesh_index(1, s, segments),
                c: mesh_index(1, (s + 1) % segments, segments),
            },
        );
        proof {
            assert(r@ =~= central_triangles(s + 1, segments as int));
        }
    }
    proof {
        assert(rings < u32::MAX) by (nonlinear_arith)
            requires
                segments >= 1,
                1 + rings * segments <= u32::MAX,
        ;
    }
    for ring in 2..rings + 1
        invariant
            segments >= 1,
            rings >= 1,
            1 + rings * segments <= u32::MAX,
            rings < u32::MAX,
            r@ == triangles(ring - 1, segments as int),
    {
        let ghost within = r@;
        proof {
            assert(r@ =~= within + ring_triangles(ring as int, 0, segments as int));
        }
        for s in 0..segments
            invariant
                2 <= ring <= rings,
                segments >= 1,
                1 + rings * segments <= u32::MAX,
                rings < u32::MAX,
                r@ == within + ring_triangles(ring as int, s as int, segments as int),
        {
            proof {
                let n = segments as int;
                lemma_vertex_in_mesh(rings as int, ring as int, s as int, n);
                lemma_vertex_in_mesh(rings as int, ring - 1, s as int, n);
                lemma_vertex_in_mesh(rings as int, ring as int, (s + 1) % n, n);
                lemma_vertex_in_mesh(rings as int, ring - 1, (s + 1) % n, n);
                assert(s < 0x1_0000_0000) by (nonlinear_arith)
                    requires
                        s < segments,
                        rings >= 1,
                        1 + rings * segments <= u32::MAX,
                ;
            }
            let next: usize = (s + 1) % segments;
            let inner_a: u32 = mesh_index(ring - 1, s, segments);
            let inner_b: u32 = mesh_index(ring - 1, next, segments);
            let outer_a: u32 = mesh_index(ring, s, segments);
            let outer_b: u32 = mesh_index(ring, next, segments);
            r.push(Triangle { a: inner_a, b: outer_a, c: inner_b });
            r.push(Triangle { a: inner_b, b: outer_a, c: outer_b });
            proof {
                let prior = ring_triangles(ring as int, s as int, segments as int);
                let more = ring_triangles(ring as int, s + 1, segments as int);
                assert(more =~= prior.push(inner_triangle(ring as int, s as int, segments as int))
                    .push(outer_triangle(ring as int, s as int, segments as int)));
                assert(r@ =~= within + more);
            }
        }
    }
    r
}

proof fn lemma_vertex_in_mesh(rings: int, ring: int, segment: int, segments: int)
    requires
        1 <= ring <= rings,
        0 <= segment < segments,
    ensures
        1 <= vertex(ring, segment, segments) <= rings * segments,
{
    assert(vertex(ring, segment, segments) >= 1) by (nonlinear_arith)
        requires
            1 <= ring,
            0 <= segment < segments,
            vertex(ring, segment, segments) == 1 + (ring - 1) * segments + segment,
    ;
    assert(vertex(ring, segment, segments) <= rings * segments) by (nonlinear_arith)
        requires
            1 <= ring <= rings,
            0 <= segment < segments,
            vertex(ring, segment, segments) == 1 + (ring - 1) * segments + segment,
    ;
}

/// Whether a triangle has three corners, all of them among the vertices of a mesh.
pub open spec fn is_proper(triangle: Triangle, rings: int, segments: int) -> bool {
    &&& triangle.a <= rings * segments
    &&& triangle.b <= rings * segments
    &&& triangle.c <= rings * segments
    &&& triangle.a != triangle.b
    &&& triangle.b != triangle.c
    &&& triangle.a != triangle.c
}

/// Different places of the mesh have different numbers.
pub proof fn law_vertices_are_distinct(
    ring: int,
    segment: int,
    other_ring: int,
    other_segment: int,
    segments: int,
)
    requires
        0 <= segment < segments,
        0 <= other_segment < segments,
        vertex(ring, segment, segments) == vertex(other_ring, other_segment, segments),
    ensures
        ring == other_ring && segment == other_segment,
{
    if ring < other_ring {
        assert((other_ring - 1) * segments >= (ring - 1) * segments + segments)
            by (nonlinear_arith)
            requires
                ring < other_ring,
                0 < segments,
        ;
    } else if other_ring < ring {
        assert((ring - 1) * segments >= (other_ring - 1) * segments + segments)
            by (nonlinear_arith)
            requires
                other_ring < ring,
                0 < segments,
        ;
    }
}

/// Every triangle of the mesh has three corners, all of them vertices of the mesh.
pub proof fn law_triangles_are_proper(rings: int, segments: int, i: int)
    requires
        rings >= 1,
        segments >= 2,
        rings * segments <= u32::MAX,
        0 <= i < triangles(rings, segments).len(),
    ensures
        is_proper(triangles(rings, segments)[i], rings, segments),
    decreases rings,
{
    if rings <= 1 {
        let next = (i + 1) % segments;
        lemma_next_differs(i, segments);
        lemma_vertex_in_mesh(rings, 1, i, segments);
        lemma_vertex_in_mesh(rings, 1, next, segments);
    } else {
        let within = triangles(rings - 1, segments);
        assert((rings - 1) * segments <= rings * segments) by (nonlinear_arith)
            requires
                segments >= 2,
                rings >= 1,
        ;
        if i < within.len() {
            law_triangles_are_proper(rings - 1, segments, i);
        } else {
            let t = i - within.len();
            let segment = t / 2;
            let next = (segment + 1) % segments;
            assert(0 <= segment < segments);
            lemma_next_differs(segment, segments);
            lemma_vertex_in_mesh(rings, rings, segment, segments);
            lemma_vertex_in_mesh(rings, rings - 1, segment, segments);
            lemma_vertex_in_mesh(rings, rings, next, segments);
            lemma_vertex_in_mesh(rings, rings - 1, next, segments);
            lemma_apart(rings, segment, rings - 1, segment, segments);
            lemma_apart(rings, segment, rings - 1, next, segments);
            lemma_apart(rings, next, rings - 1, next, segments);
            lemma_apart(rings, segment, rings, next, segments);
            lemma_apart(rings - 1, segment, rings - 1, next, segments);
            assert(triangles(rings, segments)[i] == ring_triangles(rings, segments, segments)[t]);
        }
    }
}

proof fn lemma_next_differs(segment: int, segments: int)
    requires
        0 <= segment < segments,
        segments >= 2,
    ensures
        0 <= (segment + 1) % segments < segments,
        (segment + 1) % segments != segment,
{
    if segment + 1 < segments {
        assert((segment + 1) % segments == segment + 1) by (nonlinear_arith)
            requires
                0 <= segment + 1 < segments,
        ;
    } else {
        assert(segments % segments == 0) by (nonlinear_arith)
            requires
                segments > 0,
        ;
    }
}

proof fn lemma_apart(
    ring: int,
    segment: int,
    other_ring: int,
    other_segment: int,
    segments: int,
)
    requires
        0 <= segment < segments,
        0 <= other_segment < segments,
        ring != other_ring || segment != other_segment,
    ensures
        vertex(ring, segment, segments) != vertex(other_ring, other_segment, segments),
{
    if vertex(ring, segment, segments) == vertex(other_ring, other_segment, segments) {
        law_vertices_are_distinct(ring, segment, other_ring, other_segment, segments);
    }
}

/// A direction and its opposite share a colour, and no other two directions do.
pub proof fn law_opposites_share_a_colour(
    one: MarkerKind,
    other: MarkerKind,
    a: MarkerColor,
    b: MarkerColor,
)
    requires
        call_ensures(marker_color, (one,), a),
        call_ensures(marker_color, (other,), b),
    ensures
        one is Prograde && other is Retrograde ==> a == b && a is Green,
        one is Normal && other is AntiNormal ==> a == b && a is Purple,
        one is RadialOut && other is RadialIn ==> a == b && a is Cyan,
        one is Maneuver ==> a is Gold,
        a == b ==> one == other || one is Prograde && other is Retrograde || one is Retrograde
            && other is Prograde || one is Normal && other is AntiNormal || one is AntiNormal
            && other is Normal || one is RadialOut && other is RadialIn || one is RadialIn
            && other is RadialOut,
{
}

/// Every marker is drawn in its own way, and only that of a manoeuvre differs from behind, by
/// a dot in its middle.
pub proof fn law_markers_can_be_told_apart(
    one: MarkerKind,
    other: MarkerKind,
    front: Vec<Glyph>,
    back: Vec<Glyph>,
    different: Vec<Glyph>,
)
    requires
        call_ensures(marker_strokes, (one, false), front),
        call_ensures(marker_strokes, (one, true), back),
        call_ensures(marker_strokes, (other, false), different),
        one != other,
    ensures
        front@ != different@,
        !(one is Maneuver) ==> back@ == front@,
        one is Maneuver ==> back@.len() == front@.len() + 1 && back@.last() is Dot,
        one is Prograde ==> front@[0] is Ring && front@[1] is Dot && front@.len() == 5,
        one is Retrograde ==> front@[0] is Ring && front@.len() == 3,
        one is Normal ==> front@.len() == 1 && front@[0] is Triangle
            && front@[0]->tip_y < front@[0]->base_y,
        one is AntiNormal ==> front@.len() == 2 && front@[0] is Triangle
            && front@[0]->tip_y > front@[0]->base_y,
        one is RadialOut ==> front@.len() == 5 && front@[4] is Dot,
        one is RadialIn ==> front@.len() == 6 && front@[4] is Line,
{
    let (a, b) = (strokes(one, false), strokes(other, false));
    if a.len() == b.len() {
        assert(a[0] != b[0] || a[2] != b[2]);
    }
}

/// A direction shows from half a metre a second on, and is one where it is longer than a
/// trace.
pub proof fn law_directions_need_length(
    squared: Real,
    shows: bool,
    directed: bool,
)
    requires
        call_ensures(shows_direction, (squared,), shows),
        call_ensures(is_direction, (squared,), directed),
        squared.spec_is_finite(),
    ensures
        shows <==> squared.value() * 4 >= pow2(1074),
        directed <==> squared.value() * pow2(52) > pow2(1074),
{
    lemma_above_a_trace(squared);
    law_a_quarter_is_exact();
    law_order_is_numeric(Real::spec_of(MIN_GUIDANCE_SPEED_SQUARED), squared);
}

/// The vertices of a ring follow each other, and those of the next ring follow them.
pub proof fn law_vertices_are_numbered_by_ring(
    ring: usize,
    segment: usize,
    segments: usize,
    here: u32,
    beside: u32,
    outside: u32,
)
    requires
        segment < usize::MAX && ring < usize::MAX,
        call_ensures(mesh_index, (ring, segment, segments), here),
        call_ensures(mesh_index, (ring, (segment + 1) as usize, segments), beside),
        call_ensures(mesh_index, ((ring + 1) as usize, segment, segments), outside),
    ensures
        beside == here + 1,
        outside == here + segments,
        ring == 1 ==> here == segment + 1,
{
    assert((ring + 1 - 1) * segments == (ring - 1) * segments + segments) by (nonlinear_arith);
    assert(ring == 1 ==> (ring - 1) * segments == 0) by (nonlinear_arith);
}

/// A ball of so many rings has one triangle for each segment in the middle and two in every
/// ring round it.
pub proof fn law_ball_is_covered(rings: usize, segments: usize, r: Vec<Triangle>)
    requires
        call_ensures(ball_triangles, (rings, segments), r),
        rings >= 1,
        segments >= 1,
    ensures
        r@.len() == segments + 2 * segments * (rings - 1),
        forall|s: int| 0 <= s < segments ==> (#[trigger] r@[s]).a == 0,
{
    lemma_triangle_count(rings as int, segments as int);
}

proof fn lemma_triangle_count(rings: int, segments: int)
    requires
        rings >= 1,
        segments >= 1,
    ensures
        triangles(rings, segments).len() == segments + 2 * segments * (rings - 1),
        forall|s: int| 0 <= s < segments ==> (#[trigger] triangles(rings, segments)[s]).a == 0,
    decreases rings,
{
    if rings > 1 {
        lemma_triangle_count(rings - 1, segments);
        assert(segments + 2 * segments * (rings - 1 - 1) + 2 * segments == segments + 2 * segments * (
        rings - 1)) by (nonlinear_arith);
        assert(2 * segments * (rings - 1 - 1) >= 0) by (nonlinear_arith)
            requires
                segments >= 1,
                rings > 1,
        ;
    } else {
        assert(2 * segments * (rings - 1) == 0) by (nonlinear_arith)
            requires
                rings == 1,
        ;
    }
}

} // verus!
