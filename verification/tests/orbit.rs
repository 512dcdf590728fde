use crabby_space::coast::{coast_patched, step_on_rails_patched, Drive, Handover};
use crabby_space::craft::stock_craft;
use crabby_space::number::Real;
use crabby_space::orbit::{
    ancestors, body_definition, celestial_system, crossed_surface_during_capture,
    first_child_soi_encounter, next_soi_transition, on_rails_warp_is_safe, rails_situation,
    rails_step, satellites, soi_change, trajectory_reaches_surface, CelestialBodyDef, RailsStep,
    SoiChange,
};
use crabby_space::parts::PartCatalog;
use crabby_space::rails::{place, step_on_rails, Rails, Survey};
use crabby_space::reach::{Frame, Reach};
use crabby_space::search::{find_root, first_hit, halve, narrow, segment_count, RootStep, HALVINGS};
use crabby_space::vessel::{DetachedStage, FlightSituation, Vessel};
use std::cell::RefCell;

fn num(value: f64) -> Real {
    Real::of(value.to_bits())
}

fn value(number: Real) -> f64 {
    f64::from_bits(number.bits)
}

#[test]
fn the_system_and_its_bodies() {
    let ids: Vec<&str> = celestial_system().iter().map(|b| b.id).collect();
    assert_eq!(ids, vec!["pelagos", "carapace", "selene", "ferrum"]);
    let home = body_definition("carapace");
    assert_eq!(home.radius, 600_000);
    assert_eq!(home.mu as f64, 3.532e12);
    assert_eq!(home.semi_major_axis as f64, 13.6e9);
    let air = home.atmosphere.unwrap();
    assert_eq!(air.height, 70_000);
    assert_eq!(f64::from(air.sea_level_density) / 1_000.0, 1.225);
    assert_eq!(body_definition("pelagos").mu as f64, 1.327e18);
    let moon = body_definition("selene");
    assert_eq!(moon.mu as f64, 6.514e10);
    assert_eq!(f64::from(moon.phase) / 1_000.0, 0.8);
    assert_eq!(moon.atmosphere_height(), 0);
    assert_eq!(f64::from(body_definition("ferrum").phase) / 1_000.0, 2.2);
    assert_eq!(body_definition("atlantis").id, "carapace");
}

#[test]
fn ancestors_and_satellites() {
    let chain = |id| ancestors(id).iter().map(|b| b.id).collect::<Vec<_>>();
    assert_eq!(chain("pelagos"), vec!["pelagos"]);
    assert_eq!(chain("ferrum"), vec!["pelagos", "ferrum"]);
    assert_eq!(chain("selene"), vec!["pelagos", "carapace", "selene"]);
    assert_eq!(chain("nowhere"), vec!["pelagos", "carapace"]);
    let moons = |id| satellites(id).iter().map(|b| b.id).collect::<Vec<_>>();
    assert_eq!(moons("pelagos"), vec!["carapace", "ferrum"]);
    assert_eq!(moons("carapace"), vec!["selene"]);
    assert!(moons("selene").is_empty());
}

#[test]
fn air_ends_at_its_height() {
    let home = body_definition("carapace");
    assert!(home.air_at(num(69_999.0)).is_some());
    assert!(home.air_at(num(70_000.0)).is_none());
    assert!(body_definition("selene").air_at(num(0.0)).is_none());
}

#[test]
fn coasts_need_height_and_a_high_path() {
    let home = body_definition("carapace");
    let safe = |situation, altitude: f64, revisits, periapsis: f64| {
        on_rails_warp_is_safe(situation, &home, num(altitude), revisits, num(periapsis))
    };
    assert!(!safe(FlightSituation::Orbiting, 200_000.0, true, 40_000.0));
    assert!(safe(FlightSituation::Orbiting, 200_000.0, true, 75_000.0));
    assert!(safe(FlightSituation::Orbiting, 200_000.0, false, 40_000.0));
    assert!(!safe(FlightSituation::Orbiting, 74_999.0, true, 80_000.0));
    assert!(!safe(FlightSituation::Flying, 200_000.0, true, 80_000.0));
}

#[test]
fn coasts_that_reach_the_ground() {
    let reaches = |distance: f64, periapsis: f64, until: Option<f64>, dt: f64| {
        trajectory_reaches_surface(
            600_000,
            num(distance),
            num(periapsis),
            until.map(num),
            num(dt),
        )
    };
    assert!(reaches(600_005.0, 1e9, None, 0.0));
    assert!(!reaches(800_000.0, 6.0, Some(1.0), 100.0));
    assert!(reaches(800_000.0, 5.0, Some(100.0), 100.0));
    assert!(!reaches(800_000.0, -9.0, Some(101.0), 100.0));
    assert!(!reaches(800_000.0, -9.0, None, 100.0));
}

#[test]
fn situations_after_a_coast() {
    let home = body_definition("carapace");
    let after = |met, altitude: f64, periapsis: f64| {
        rails_situation(&home, met, num(altitude), num(periapsis))
    };
    assert_eq!(after(true, 90_000.0, 90_000.0), FlightSituation::Crashed);
    assert_eq!(after(false, 5.0, 90_000.0), FlightSituation::Crashed);
    assert_eq!(after(false, 200_000.0, 40_000.0), FlightSituation::Flying);
    assert_eq!(after(false, 70_001.0, 70_001.0), FlightSituation::Orbiting);
}

#[test]
fn the_earlier_change_of_body_comes_first() {
    let next = |a: Option<f64>, b: Option<f64>| next_soi_transition(a.map(num), b.map(num));
    assert_eq!(next(Some(1.0), Some(1.0)), Some(true));
    assert_eq!(next(Some(2.0), Some(1.0)), Some(false));
    assert_eq!(next(Some(2.0), None), Some(true));
    assert_eq!(next(None, Some(2.0)), Some(false));
    assert_eq!(next(None, None), None);
    let first = |times: Vec<Option<f64>>| {
        first_child_soi_encounter(&times.into_iter().map(|t| t.map(num)).collect())
    };
    assert_eq!(first(vec![None, Some(3.0), Some(2.0), Some(2.0)]), Some(2));
    assert_eq!(first(vec![Some(0.0), Some(-0.0)]), Some(1));
    assert_eq!(first(vec![None, None]), None);
}

#[test]
fn bodies_change_hands() {
    assert_eq!(soi_change(true, true, &vec![true]), SoiChange::Release);
    assert_eq!(
        soi_change(false, true, &vec![false, true, true]),
        SoiChange::Capture(1)
    );
    assert_eq!(soi_change(true, false, &vec![false]), SoiChange::Stay);
    assert_eq!(rails_step(0, num(1.0), None), RailsStep::CoastOut);
    assert_eq!(rails_step(7, num(1.0), Some(num(0.5))), RailsStep::CoastTo(num(0.5)));
    assert_eq!(rails_step(8, num(1.0), None), RailsStep::Done);
    assert_eq!(rails_step(0, num(f64::EPSILON), None), RailsStep::Done);
    let moon = body_definition("selene");
    assert!(crossed_surface_during_capture(&moon, "carapace", true, num(5.0)));
    assert!(!crossed_surface_during_capture(&moon, "carapace", false, num(5.0)));
    assert!(!crossed_surface_during_capture(&moon, "carapace", true, num(5.1)));
    assert!(!crossed_surface_during_capture(&moon, "pelagos", true, num(5.0)));
}

#[test]
fn searches_find_what_they_look_for() {
    assert_eq!(segment_count(0), 8);
    assert_eq!(segment_count(100), 100);
    assert_eq!(segment_count(usize::MAX), 4_096);
    let hit = first_hit(10, |i| if i * i > 20 { Some(num(i as f64)) } else { None });
    assert_eq!(hit, Some(num(5.0)));
    assert_eq!(first_hit(4, |_| None), None);
    let middle = |a: Real, b: Real| num((value(a) + value(b)) * 0.5);
    let (without, within) = halve(num(0.0), num(4.0), HALVINGS, &middle, &|x| value(x) >= 2.0_f64.sqrt());
    assert!(value(without) < 2.0_f64.sqrt() && value(within) >= 2.0_f64.sqrt());
    assert!(value(within) - value(without) < 1e-12);
    let thirds = |a: Real, b: Real| {
        let step = (value(b) - value(a)) / 3.0;
        (num(value(a) + step), num(value(b) - step))
    };
    let (start, end) = narrow(num(-5.0), num(9.0), 32, &thirds, &|x| num((value(x) - 1.5).powi(2)));
    assert!((value(start) - 1.5).abs() < 1e-3 && (value(end) - 1.5).abs() < 1e-3);
    let newton = |x: Real| {
        let next = value(x) - (value(x).powi(2) - 2.0) / (2.0 * value(x));
        if !next.is_finite() {
            RootStep::Failed
        } else if (next - value(x)).abs() < 1e-12 {
            RootStep::Found(num(next))
        } else {
            RootStep::GoOn(num(next))
        }
    };
    let root = find_root(num(1.0), 64, &newton).unwrap();
    assert!((value(root) - 2.0_f64.sqrt()).abs() < 1e-12);
    assert_eq!(find_root(num(0.0), 64, &newton), None);
    assert_eq!(find_root(num(1.0), 1, &newton), None);
}

/// A path at which nothing is near: far out, and its lowest point high.
fn open_sky() -> Survey {
    Survey {
        distance: num(1e7),
        altitude: num(9e6),
        periapsis: num(8e6),
        until_periapsis: None,
        outbound: false,
    }
}

/// Coasts with a handover every so many seconds, and onto the ground after so many drifts,
/// where the place is noted by the velocity. The drifts are told, and the handovers counted in
/// the position.
fn coast(every: Option<f64>, crash_after: usize, dt: f64) -> (Vessel, Vec<f64>) {
    let mut vessel = Vessel::from_blueprint(&stock_craft(), &PartCatalog::default());
    vessel.position = [num(0.0); 3];
    let drifts = RefCell::new(Vec::new());
    let drive = Drive {
        due: |_: &Vessel, _: Real, remaining: Real| match every {
            Some(time) if time < value(remaining) => Some(Handover {
                time: num(time),
                target: "selene",
                entering: true,
            }),
            _ => None,
        },
        rails: Rails {
            survey: |_: Frame, _: &CelestialBodyDef| Survey {
                altitude: num(if drifts.borrow().len() >= crash_after { 4.0 } else { 9e6 }),
                ..open_sky()
            },
            drift: |place: Frame, _: &CelestialBodyDef, time: Real| {
                drifts.borrow_mut().push(value(time));
                place
            },
            ground: |place: Frame, _: &CelestialBodyDef| Frame {
                velocity: [num(-7.0); 3],
                ..place
            },
        },
        hand_over: |vessel: &Vessel, handover: &Handover, _: Real| {
            assert_eq!(handover.target, "selene");
            Frame {
                position: [num(value(vessel.position[0]) + 1.0); 3],
                velocity: vessel.velocity,
            }
        },
        remaining: |dt: Real, elapsed: Real| num(value(dt) - value(elapsed)),
        later: |elapsed: Real, time: Real| num(value(elapsed) + value(time)),
    };
    let vessel = coast_patched(vessel, num(dt), &drive);
    drop(drive);
    (vessel, drifts.into_inner())
}

#[test]
fn a_quiet_coast_is_one_drift() {
    let (vessel, drifts) = coast(None, 99, 12.0);
    assert_eq!(drifts, [12.0]);
    assert_eq!(vessel.primary_body, "carapace");
    assert_eq!(vessel.situation, FlightSituation::Orbiting);
    let (vessel, drifts) = coast(None, 99, 0.0);
    assert!(drifts.is_empty());
    assert_eq!(vessel.situation, FlightSituation::Prelaunch);
}

#[test]
fn a_coast_holds_eight_handovers() {
    let (vessel, drifts) = coast(Some(5.0), 99, 12.0);
    assert_eq!(drifts, [5.0, 5.0, 2.0]);
    assert_eq!(vessel.position, [num(2.0); 3]);
    assert_eq!(vessel.primary_body, "selene");
    let (vessel, drifts) = coast(Some(1.0), 99, 100.0);
    assert_eq!(vessel.position, [num(8.0); 3]);
    assert_eq!(drifts.last(), Some(&92.0));
}

#[test]
fn a_coast_ends_with_a_crash() {
    let (vessel, drifts) = coast(Some(1.0), 3, 100.0);
    assert_eq!(vessel.situation, FlightSituation::Crashed);
    assert_eq!(drifts.len(), 3);
    assert_eq!(vessel.position, [num(2.0); 3]);
    assert_eq!(vessel.velocity, [num(-7.0); 3]);
    assert_eq!(vessel.primary_body, "selene");
}

#[test]
fn a_coast_about_one_body_moves_the_vessel_and_what_it_shed() {
    let rails = |survey: Survey| Rails {
        survey: move |_: Frame, _: &CelestialBodyDef| survey,
        drift: |place: Frame, body: &CelestialBodyDef, time: Real| Frame {
            position: [num(value(place.position[0]) + value(time)); 3],
            velocity: [num(f64::from(body.radius)); 3],
        },
        ground: |place: Frame, _: &CelestialBodyDef| Frame {
            position: [num(-value(place.position[0])); 3],
            velocity: [num(0.0); 3],
        },
    };
    let mut vessel = Vessel::from_blueprint(&stock_craft(), &PartCatalog::default());
    vessel.position = [num(1.0); 3];
    vessel.debris.push(DetachedStage {
        primary_body: "selene".into(),
        parts: Vec::new(),
        position: [num(5.0); 3],
        velocity: [num(0.0); 3],
        attitude: [num(0.0); 4],
        angular_velocity: [num(0.0); 3],
    });
    let mut orbiting = vessel.clone();
    step_on_rails(&mut orbiting, num(2.0), &rails(open_sky()));
    assert_eq!(orbiting.situation, FlightSituation::Orbiting);
    assert_eq!(orbiting.position, [num(3.0); 3]);
    assert_eq!(orbiting.velocity, [num(600_000.0); 3]);
    assert_eq!(orbiting.debris[0].position, [num(7.0); 3]);
    assert_eq!(
        orbiting.debris[0].velocity,
        [num(f64::from(body_definition("selene").radius)); 3]
    );
    assert_eq!(orbiting.parts.len(), vessel.parts.len());

    let dipping = Survey {
        periapsis: num(60_000.0),
        ..open_sky()
    };
    let mut flying = vessel.clone();
    step_on_rails(&mut flying, num(2.0), &rails(dipping));
    assert_eq!(flying.situation, FlightSituation::Flying);

    let falling = Survey {
        periapsis: num(-1.0),
        until_periapsis: Some(num(1.5)),
        ..open_sky()
    };
    let mut wreck = vessel.clone();
    step_on_rails(&mut wreck, num(2.0), &rails(falling));
    assert_eq!(wreck.situation, FlightSituation::Crashed);
    assert_eq!(wreck.position, [num(-3.0); 3]);
    step_on_rails(&mut wreck, num(2.0), &rails(falling));
    assert_eq!(wreck.position, [num(-3.0); 3]);
    assert_eq!(wreck.debris[0].position, [num(7.0); 3]);
    let mut early = vessel.clone();
    step_on_rails(&mut early, num(1.0), &rails(falling));
    assert_eq!(early.situation, FlightSituation::Flying);
}

/// A coast without a change on its way, from home, that ends within the reach of the moon
/// with that path about it.
fn captured(seen: Survey) -> Vessel {
    let drive = Drive {
        due: |_: &Vessel, _: Real, _: Real| None,
        rails: Rails {
            survey: move |_: Frame, body: &CelestialBodyDef| {
                if body.id == "selene" {
                    seen
                } else {
                    open_sky()
                }
            },
            drift: |place: Frame, _: &CelestialBodyDef, _: Real| place,
            ground: |place: Frame, _: &CelestialBodyDef| Frame {
                velocity: [num(-7.0); 3],
                ..place
            },
        },
        hand_over: |vessel: &Vessel, _: &Handover, _: Real| place(vessel),
        remaining: |dt: Real, elapsed: Real| num(value(dt) - value(elapsed)),
        later: |elapsed: Real, time: Real| num(value(elapsed) + value(time)),
    };
    step_on_rails_patched(
        Vessel::from_blueprint(&stock_craft(), &PartCatalog::default()),
        num(2.0),
        &drive,
        &|_: &Vessel| Reach {
            released: false,
            captured: vec![true],
        },
        &|_: &Vessel, to: &CelestialBodyDef| {
            assert_eq!(to.id, "selene");
            Frame {
                position: [num(11.0); 3],
                velocity: [num(12.0); 3],
            }
        },
    )
}

#[test]
fn a_capture_is_evaluated_about_the_new_body() {
    let inbound = captured(Survey {
        periapsis: num(-1.0),
        ..open_sky()
    });
    assert_eq!(inbound.primary_body, "selene");
    assert_eq!(inbound.position, [num(11.0); 3]);
    assert_eq!(inbound.situation, FlightSituation::Flying);
    let passed = captured(open_sky());
    assert_eq!(passed.situation, FlightSituation::Orbiting);
    let through = captured(Survey {
        periapsis: num(-1.0),
        outbound: true,
        ..open_sky()
    });
    assert_eq!(through.situation, FlightSituation::Crashed);
    assert_eq!(through.velocity, [num(-7.0); 3]);
}
