use crabby_space::craft::stock_craft;
use crabby_space::debug_state::AppMode;
use crabby_space::mission::MissionProgress;
use crabby_space::navball::{
    ball_triangles, is_direction, marker_color, marker_strokes, mesh_index, shows_direction, Glyph,
    MarkerColor, MarkerKind, NavReference, RINGS, SEGMENTS,
};
use crabby_space::number::{Real, Single};
use crabby_space::parts::PartCatalog;
use crabby_space::scene::{
    distance_unit, drawn_parts, objectives, part_look, scene, CameraPlace, DistanceUnit, PartShape,
};
use crabby_space::text::{is_before, join, letters, lowercase, push_decimal, same_text};
use crabby_space::vessel::{DetachedStage, Vessel};

fn num(value: f64) -> Real {
    Real::of(value.to_bits())
}

#[test]
fn the_mesh_covers_the_ball() {
    assert_eq!(mesh_index(1, 0, 96), 1);
    assert_eq!(mesh_index(14, 95, 96), 14 * 96);
    let triangles = ball_triangles(RINGS, SEGMENTS);
    assert_eq!(triangles.len(), 96 + 13 * 96 * 2);
    assert_eq!((triangles[0].a, triangles[0].b, triangles[0].c), (0, 1, 2));
    let last = triangles[95];
    assert_eq!((last.a, last.b, last.c), (0, 96, 1));
    let inner = triangles[96];
    assert_eq!((inner.a, inner.b, inner.c), (1, 97, 2));
    let outer = triangles[97];
    assert_eq!((outer.a, outer.b, outer.c), (2, 97, 98));
    assert!(triangles.iter().all(|t| {
        t.a != t.b && t.b != t.c && t.a != t.c && t.a.max(t.b).max(t.c) <= 14 * 96
    }));
}

#[test]
fn marks_of_the_navball() {
    assert_eq!(NavReference::default(), NavReference::Surface);
    assert_eq!(marker_color(MarkerKind::Retrograde), MarkerColor::Green);
    assert_eq!(marker_color(MarkerKind::AntiNormal), MarkerColor::Purple);
    assert_eq!(marker_color(MarkerKind::RadialIn), MarkerColor::Cyan);
    assert_eq!(marker_color(MarkerKind::Maneuver), MarkerColor::Gold);
    assert_eq!(marker_strokes(MarkerKind::Prograde, false).len(), 5);
    assert_eq!(marker_strokes(MarkerKind::RadialOut, false).len(), 5);
    assert_eq!(marker_strokes(MarkerKind::RadialIn, false).len(), 6);
    assert_eq!(
        marker_strokes(MarkerKind::Maneuver, true).last(),
        Some(&Glyph::Dot { radius: 30 })
    );
    assert_eq!(marker_strokes(MarkerKind::Maneuver, false).len(), 3);
    assert!(shows_direction(num(0.25)));
    assert!(!shows_direction(num(0.2)));
    assert!(is_direction(num(1.0)));
    assert!(!is_direction(num(f64::EPSILON)));
}

#[test]
fn parts_that_are_drawn() {
    let catalog = PartCatalog::default();
    let craft = stock_craft();
    let mut vessel = Vessel::from_blueprint(&craft, &catalog);
    vessel.parts[0].active = true;
    vessel.parts[3].destroyed = true;
    vessel.debris.push(DetachedStage {
        primary_body: "carapace".into(),
        parts: vec![vessel.parts[3].clone()],
        position: [num(0.0); 3],
        velocity: [num(0.0); 3],
        attitude: [num(0.0); 4],
        angular_velocity: [num(0.0); 3],
    });
    let flight = Some(vessel);
    assert!(drawn_parts(AppMode::Menu, &craft, &flight).is_empty());
    assert_eq!(drawn_parts(AppMode::Editor, &craft, &flight).len(), 15);
    assert!(drawn_parts(AppMode::Flight, &craft, &None).is_empty());
    let drawn = drawn_parts(AppMode::Flight, &craft, &flight);
    assert_eq!(drawn.len(), 15);
    assert!(drawn[0].active);
    assert_eq!(drawn[3].instance.instance_id, 5);
    assert_eq!(drawn[14].instance.instance_id, 4);
    assert_eq!(drawn[14].debris, Some(0));
    let copy = flight.unwrap().debris[0].clone();
    assert_eq!(copy.parts.len(), 1);
}

#[test]
fn looks_of_parts() {
    let catalog = PartCatalog::default();
    let look = |id, open, active| part_look(catalog.get(id).unwrap(), open, active);
    assert_eq!(look("parachute", true, false).shape, PartShape::Canopy);
    assert_eq!(look("parachute", false, false).shape, PartShape::Cylinder);
    assert_eq!(look("fin", true, false).shape, PartShape::Block);
    assert!(look("engine_vac", false, true).glows);
    assert!(!look("tank_long", false, true).glows);
    assert!(look("tank_long", false, false).metallic);
    assert!(!look("pod_1", false, false).metallic);
}

#[test]
fn scenes_of_each_mode() {
    assert!(!scene(AppMode::Menu, true, true, 0).planet);
    assert!(scene(AppMode::Editor, false, false, 0).pad);
    let map = scene(AppMode::Flight, true, true, 0);
    assert!(map.planet && map.marker && !map.parts && !map.pad);
    let away = scene(AppMode::Flight, false, false, 4);
    assert!(!away.pad && away.parts);
    assert_eq!(away.camera, CameraPlace::Chase(1));
    assert!(scene(AppMode::Flight, false, true, 0).pad);
}

#[test]
fn goals_and_distances() {
    let mission = MissionProgress {
        staged: true,
        ..MissionProgress::default()
    };
    let goals = objectives(&mission);
    assert_eq!(goals.len(), 5);
    assert!(!goals[0].done && goals[1].done);
    assert_eq!(goals[2].label, "Raise periapsis above 75 km");
    let unit = |x: f64| distance_unit(num(x), num(x.abs()));
    assert_eq!(unit(f64::INFINITY), DistanceUnit::Escape);
    assert_eq!(unit(-1_000_000.0), DistanceUnit::Megametres);
    assert_eq!(unit(999_999.0), DistanceUnit::Kilometres);
}

#[test]
fn numbers_keep_their_order() {
    let samples = [
        f64::NEG_INFINITY,
        -1e300,
        -1.5,
        -f64::MIN_POSITIVE,
        -0.0,
        0.0,
        5e-324,
        1.0,
        1.5,
        600_005.0,
        f64::INFINITY,
        f64::NAN,
    ];
    for a in samples {
        for b in samples {
            assert_eq!(num(a).is_below(num(b)), a < b, "{a} {b}");
            assert_eq!(num(a).is_at_most(num(b)), a <= b, "{a} {b}");
            assert_eq!(num(a).precedes(num(b)), a.total_cmp(&b).is_lt(), "{a} {b}");
            let larger = f64::from_bits(num(a).larger(num(b)).bits);
            assert!(larger == a.max(b) || larger.is_nan() && a.max(b).is_nan());
            let smaller = f64::from_bits(num(a).smaller(num(b)).bits);
            assert!(smaller == a.min(b) || smaller.is_nan() && a.min(b).is_nan());
        }
        assert_eq!(num(a).is_finite(), a.is_finite());
        assert_eq!(num(a).is_nan(), a.is_nan());
        let clamped = f64::from_bits(num(a).clamp(num(-1.0), num(1.0)).bits);
        assert_eq!(clamped.to_bits(), a.clamp(-1.0, 1.0).to_bits());
    }
    for n in [0, 1, 2, 3, 290, 600_005, 69_600_000, u32::MAX] {
        assert_eq!(f64::from_bits(Real::integer(n).bits), f64::from(n));
    }
    assert_eq!(f64::from_bits(Real::zero().bits), 0.0);
    assert_eq!(Single { bits: 0 }, Single { bits: 0 });
}

#[test]
fn texts_are_told_apart_joined_and_written() {
    assert!(same_text("abc", "abc") && !same_text("abc", "abd"));
    assert!(is_before("", "a") && is_before("Z", "a") && is_before("a", "ab"));
    assert!(!is_before("b", "ab") && !is_before("b", "b") && is_before("z", "é"));
    assert_eq!(lowercase("AntiNORMAL É"), "antinormal É");
    assert_eq!(letters("aé"), vec!['a', 'é']);
    let texts = vec!["a".to_string(), "".to_string(), "b".to_string()];
    assert_eq!(join(&texts, ", "), "a, , b");
    assert_eq!(join(&Vec::new(), ", "), "");
    for n in [0, 7, 10, 1_234_567_890, u64::MAX] {
        let mut text = "#".to_string();
        push_decimal(&mut text, n);
        assert_eq!(text, format!("#{n}"));
    }
}
