//! The equations of motion as the game has them, and flights on them.
use bevy::math::{DMat3, DQuat, DVec2, DVec3};
use std::f64::consts::{PI, TAU};

use crabby_space::burn::{engine_networks, solid_engines, EngineGroup};
use crabby_space::coast::{Drive, Handover};
use crabby_space::craft::{stock_craft, CraftBlueprint, PartInstance, Stage, StageAction};
use crabby_space::flight::{
    inline_neighbors, is_grounded, leg_count, live_parts, parachute_holds, part_role, rcs_is_fed,
    sas_heading, sas_steers, Heading, PartRole,
};
use crabby_space::fuel::{drain_liquid_fuel_network, liquid_fuel_available};
use crabby_space::interval::Propulsion;
use crabby_space::mission::{FlightTelemetry, OrbitalElements, SimulationClock};
use crabby_space::navball::{is_direction, shows_direction, NavReference};
use crabby_space::number::{Real, Single};
use crabby_space::orbit::{ancestors, body_definition, satellites, CelestialBodyDef};
use crabby_space::parts::{PartCatalog, PartDefinition, PartModule};
use crabby_space::rails::{Rails, Survey};
use crabby_space::reach::{Frame, Reach};
use crabby_space::runtime::ScriptRuntime;
use crabby_space::scripts::EXAMPLE_SCRIPT;
use crabby_space::search::{
    find_root, first_hit, halve, narrow, segment_count, RootStep, HALVINGS, MAX_ITERATIONS,
    NARROWINGS,
};
use crabby_space::staging::{Separation, Split};
use crabby_space::stats::{craft_totals, first_propulsion_stage};
use crabby_space::step::{Arrival, Drifted, GroupBurn, Mechanics, Motion};
use crabby_space::vessel::{DetachedStage, FlightSituation, ManeuverNode, RuntimePart, Vessel};

const HOME_RADIUS: f64 = 600_000.0;
const HOME_MU: f64 = 3.532e12;
const HOME_ATMOSPHERE: f64 = 70_000.0;

fn num(value: f64) -> Real {
    Real::of(value.to_bits())
}

fn float(number: Real) -> f64 {
    f64::from_bits(number.bits)
}

fn single(value: f32) -> Single {
    Single {
        bits: value.to_bits(),
    }
}

fn float32(number: Single) -> f32 {
    f32::from_bits(number.bits)
}

fn vector(numbers: [Real; 3]) -> DVec3 {
    DVec3::from_array(numbers.map(float))
}

fn reals(vector: DVec3) -> [Real; 3] {
    vector.to_array().map(num)
}

fn quaternion(numbers: [Real; 4]) -> DQuat {
    DQuat::from_array(numbers.map(float))
}

fn quaternion_reals(rotation: DQuat) -> [Real; 4] {
    rotation.to_array().map(num)
}

fn local_position(numbers: [Single; 3]) -> DVec3 {
    DVec3::from_array(numbers.map(|number| f64::from(float32(number))))
}

fn local_rotation(numbers: [Single; 4]) -> DQuat {
    DQuat::from_array(numbers.map(|number| f64::from(float32(number))))
}

const RELATIVE_STEP_TOLERANCE: f64 = 1e-12;

fn radius(body: &CelestialBodyDef) -> f64 {
    f64::from(body.radius)
}

fn mu(body: &CelestialBodyDef) -> f64 {
    body.mu as f64
}

fn semi_major_axis(body: &CelestialBodyDef) -> f64 {
    body.semi_major_axis as f64
}

/// Position and velocity of a body's center in the Pelagos inertial frame: floating
/// point.
fn body_root_state(id: &str, ut: f64) -> (DVec3, DVec3) {
    let chain = ancestors(id);
    let mut position = DVec3::ZERO;
    let mut velocity = DVec3::ZERO;
    for pair in chain.windows(2) {
        let (relative_position, relative_velocity) =
            circular_ephemeris(&pair[1], mu(&pair[0]), ut);
        position += relative_position;
        velocity += relative_velocity;
    }
    (position, velocity)
}

fn vessel_root_state(
    primary: &str,
    position: DVec3,
    velocity: DVec3,
    ut: f64,
) -> (DVec3, DVec3) {
    let (primary_position, primary_velocity) = body_root_state(primary, ut);
    (primary_position + position, primary_velocity + velocity)
}

fn root_to_body_state(body: &str, position: DVec3, velocity: DVec3, ut: f64) -> (DVec3, DVec3) {
    let (body_position, body_velocity) = body_root_state(body, ut);
    (position - body_position, velocity - body_velocity)
}

/// Position and velocity on a circular orbit: floating point.
fn circular_ephemeris(body: &CelestialBodyDef, parent_mu: f64, ut: f64) -> (DVec3, DVec3) {
    if body.parent.is_none() {
        return (DVec3::ZERO, DVec3::ZERO);
    }
    let axis = semi_major_axis(body);
    let n = (parent_mu / axis.powi(3)).sqrt();
    let angle = f64::from(body.phase) / 1_000.0 + n * ut;
    let (sin, cos) = angle.sin_cos();
    let position = DVec3::new(axis * cos, axis * sin, 0.0);
    let velocity = DVec3::new(-axis * n * sin, axis * n * cos, 0.0);
    (position, velocity)
}

/// Orbital elements in floating point.
#[derive(Debug, Clone, Copy, Default)]
struct Elements {
    semi_major_axis: f64,
    eccentricity: f64,
    inclination: f64,
    apoapsis: f64,
    periapsis: f64,
    period: Option<f64>,
    specific_energy: f64,
}

impl From<Elements> for OrbitalElements {
    fn from(elements: Elements) -> Self {
        OrbitalElements {
            semi_major_axis: num(elements.semi_major_axis),
            eccentricity: num(elements.eccentricity),
            inclination: num(elements.inclination),
            apoapsis: num(elements.apoapsis),
            periapsis: num(elements.periapsis),
            period: elements.period.map(num),
            specific_energy: num(elements.specific_energy),
        }
    }
}

/// The orbit through a state: floating point.
fn elements(position: DVec3, velocity: DVec3, mu: f64, body_radius: f64) -> Elements {
    let r = position.length();
    let v2 = velocity.length_squared();
    if r <= f64::EPSILON {
        return Elements::default();
    }
    let h = position.cross(velocity);
    let eccentricity_vector = velocity.cross(h) / mu - position / r;
    let eccentricity = eccentricity_vector.length();
    let specific_energy = v2 * 0.5 - mu / r;
    let semi_major_axis = if specific_energy.abs() > 1e-12 {
        -mu / (2.0 * specific_energy)
    } else {
        f64::INFINITY
    };
    let inclination = if h.length_squared() > 0.0 {
        (h.z / h.length()).clamp(-1.0, 1.0).acos()
    } else {
        0.0
    };
    let periapsis = semi_major_axis * (1.0 - eccentricity) - body_radius;
    let apoapsis = if eccentricity < 1.0 {
        semi_major_axis * (1.0 + eccentricity) - body_radius
    } else {
        f64::INFINITY
    };
    let period = if eccentricity < 1.0 && semi_major_axis.is_finite() {
        Some(TAU * (semi_major_axis.powi(3) / mu).sqrt())
    } else {
        None
    };
    Elements {
        semi_major_axis,
        eccentricity,
        inclination,
        apoapsis,
        periapsis,
        period,
        specific_energy,
    }
}

/// The Stumpff function C: floating point.
fn stumpff_c(z: f64) -> f64 {
    if z > 1e-8 {
        (1.0 - z.sqrt().cos()) / z
    } else if z < -1e-8 {
        ((-z).sqrt().cosh() - 1.0) / -z
    } else {
        0.5 - z / 24.0 + z * z / 720.0
    }
}

/// The Stumpff function S: floating point.
fn stumpff_s(z: f64) -> f64 {
    if z > 1e-8 {
        (z.sqrt() - z.sqrt().sin()) / z.powf(1.5)
    } else if z < -1e-8 {
        (((-z).sqrt()).sinh() - (-z).sqrt()) / (-z).powf(1.5)
    } else {
        1.0 / 6.0 - z / 120.0 + z * z / 5_040.0
    }
}

/// A first estimate of the universal anomaly: floating point.
fn initial_universal_anomaly(
    position: DVec3,
    velocity: DVec3,
    mu: f64,
    dt: f64,
    alpha: f64,
) -> f64 {
    let r0 = position.length();
    let sqrt_mu = mu.sqrt();

    if alpha > 1e-8 {
        return sqrt_mu * dt * alpha;
    }

    if alpha < 0.0 {
        // Curtis, Orbital Mechanics for Engineering Students, Algorithm 3.3.
        // The elliptic estimate above is not a valid hyperbolic estimate: using
        // |alpha| there can send Newton's method far into the overflowing cosh
        // branch of the Stumpff functions.
        let a = alpha.recip();
        let direction = dt.signum();
        let log_argument = (-2.0 * mu * alpha * dt)
            / (position.dot(velocity) + direction * (-mu * a).sqrt() * (1.0 - r0 * alpha));
        if log_argument.is_finite() && log_argument > 0.0 {
            let estimate = direction * (-a).sqrt() * log_argument.ln();
            if estimate.is_finite() && estimate.signum() == direction {
                return estimate;
            }
        }
    }

    // A well-scaled, correctly signed estimate for near-parabolic states and
    // the rare hyperbolic geometry for which the logarithmic estimate is poor.
    sqrt_mu * dt / r0
}

/// Newton's method for the universal anomaly: each step is floating point.
fn solve_universal_anomaly(
    position: DVec3,
    velocity: DVec3,
    mu: f64,
    dt: f64,
    alpha: f64,
) -> Option<f64> {
    let r0 = position.length();
    let vr0 = position.dot(velocity) / r0;
    let sqrt_mu = mu.sqrt();
    let start = initial_universal_anomaly(position, velocity, mu, dt, alpha);
    let step = |point| {
        let x = float(point);
        let z = alpha * x * x;
        let c = stumpff_c(z);
        let s = stumpff_s(z);
        let value = r0 * vr0 / sqrt_mu * x * x * c + (1.0 - alpha * r0) * x * x * x * s + r0 * x
            - sqrt_mu * dt;
        let derivative =
            r0 * vr0 / sqrt_mu * x * (1.0 - z * s) + (1.0 - alpha * r0) * x * x * c + r0;
        let dx = value / derivative;
        let next = x - dx;
        if !dx.is_finite() || !next.is_finite() {
            RootStep::Failed
        } else if dx.abs() <= RELATIVE_STEP_TOLERANCE * (1.0 + next.abs()) {
            RootStep::Found(num(next))
        } else {
            RootStep::GoOn(num(next))
        }
    };
    find_root(num(start), MAX_ITERATIONS, &step).map(float)
}

/// Propagates a two-body state with the universal-variable f/g solution: floating point.
fn propagate_universal(position: DVec3, velocity: DVec3, mu: f64, dt: f64) -> (DVec3, DVec3) {
    if dt.abs() < f64::EPSILON {
        return (position, velocity);
    }
    let r0 = position.length();
    let alpha = 2.0 / r0 - velocity.length_squared() / mu;
    let sqrt_mu = mu.sqrt();
    let x = solve_universal_anomaly(position, velocity, mu, dt, alpha)
        .expect("universal-variable Kepler solver failed to converge");

    let z = alpha * x * x;
    let c = stumpff_c(z);
    let s = stumpff_s(z);
    let f = 1.0 - x * x / r0 * c;
    let g = dt - x * x * x / sqrt_mu * s;
    let next_position = f * position + g * velocity;
    let r = next_position.length();
    let fdot = sqrt_mu / (r * r0) * x * (z * s - 1.0);
    let gdot = 1.0 - x * x / r * c;
    let next_velocity = fdot * position + gdot * velocity;
    (next_position, next_velocity)
}

/// Points along an orbit: floating point.
fn sample_trajectory(
    position: DVec3,
    velocity: DVec3,
    mu: f64,
    body_radius: f64,
    count: usize,
) -> Vec<DVec3> {
    let orbit = elements(position, velocity, mu, body_radius);
    let duration = orbit.period.unwrap_or(7_200.0).min(200_000.0);
    (0..=count)
        .map(|i| {
            propagate_universal(
                position,
                velocity,
                mu,
                duration * i as f64 / count.max(1) as f64,
            )
            .0
        })
        .take_while(|point| point.length() >= body_radius)
        .collect()
}

/// The reach of a body's gravity: floating point.
fn sphere_of_influence(semi_major_axis: f64, mu: f64, parent_mu: f64) -> f64 {
    semi_major_axis * (mu / parent_mu).powf(0.4)
}

const SOI_CAPTURE_FACTOR: f64 = 0.98;
const SOI_RELEASE_FACTOR: f64 = 1.01;
const SOI_SWEEP_SEGMENT_FRACTION: f64 = 0.25;

fn middle(a: Real, b: Real) -> Real {
    num((float(a) + float(b)) * 0.5)
}

fn thirds(start: Real, end: Real) -> (Real, Real) {
    let third = (float(end) - float(start)) / 3.0;
    (num(float(start) + third), num(float(end) - third))
}

/// Where a detached stage drifts in a step: floating point.
fn drift(debris: &DetachedStage, dt: f64) -> Drifted {
    let body = body_definition(&debris.primary_body);
    let mut position = vector(debris.position);
    let mut velocity = vector(debris.velocity);
    let radial = position.normalize_or_zero();
    velocity += -mu(&body) / position.length_squared().max(1.0) * radial * dt;
    position += velocity * dt;
    if position.length() <= radius(&body) + 5.0 {
        position = position.normalize_or_zero() * (radius(&body) + 5.0);
        velocity = ground_velocity(position, f64::from(body.rotation_period));
    }

    let angular_velocity = vector(debris.angular_velocity);
    let angle = angular_velocity.length() * dt;
    let mut attitude = quaternion(debris.attitude);
    if angle > 1e-12 {
        attitude =
            (DQuat::from_axis_angle(angular_velocity.normalize(), angle) * attitude).normalize();
    }
    Drifted {
        position: reals(position),
        velocity: reals(velocity),
        attitude: quaternion_reals(attitude),
    }
}

/// What a place in the frame of a body tells of a path: floating point.
fn survey(place: Frame, body: &CelestialBodyDef) -> Survey {
    let (position, velocity) = (vector(place.position), vector(place.velocity));
    let orbit = elements(position, velocity, mu(body), radius(body));
    Survey {
        distance: num(position.length()),
        altitude: num(position.length() - radius(body)),
        periapsis: num(orbit.periapsis),
        until_periapsis: time_until_periapsis(position, velocity, mu(body)).map(num),
        outbound: position.dot(velocity) > 0.0,
    }
}

/// The place after a coast about a body: floating point.
fn carry(place: Frame, body: &CelestialBodyDef, dt: Real) -> Frame {
    let (position, velocity) = propagate_universal(
        vector(place.position),
        vector(place.velocity),
        mu(body),
        float(dt),
    );
    Frame {
        position: reals(position),
        velocity: reals(velocity),
    }
}

/// Where a crash from a place ends: floating point.
fn ground(place: Frame, body: &CelestialBodyDef) -> Frame {
    let position = vector(place.position);
    let surface_direction = if position.length_squared() > f64::EPSILON {
        position.normalize()
    } else {
        DVec3::Y
    };
    let position = surface_direction * (radius(body) + 5.0);
    Frame {
        position: reals(position),
        velocity: reals(ground_velocity(position, f64::from(body.rotation_period))),
    }
}

/// A coast through changes of the primary body: floating point.
fn step_on_rails_patched(vessel: &Vessel, ut: f64, dt: f64) -> Vessel {
    let drive = Drive {
        due: |vessel: &Vessel, elapsed: Real, remaining: Real| {
            next_soi_transition(
                vector(vessel.position),
                vector(vessel.velocity),
                &body_definition(&vessel.primary_body),
                ut + float(elapsed),
                float(remaining),
            )
        },
        rails: Rails {
            survey,
            drift: carry,
            ground,
        },
        hand_over: |vessel: &Vessel, handover: &Handover, elapsed: Real| {
            let target = body_definition(handover.target);
            frame(vessel, &target, ut + float(elapsed) + float(handover.time))
        },
        remaining: |dt: Real, elapsed: Real| num(float(dt) - float(elapsed)),
        later: |elapsed: Real, time: Real| num(float(elapsed) + float(time)),
    };
    crabby_space::coast::step_on_rails_patched(
        vessel.clone(),
        num(dt),
        &drive,
        &|vessel: &Vessel| reach(vessel, ut + dt),
        &|vessel: &Vessel, to: &CelestialBodyDef| frame(vessel, to, ut + dt),
    )
}

/// The change of primary body that comes next: the times are floating point.
fn next_soi_transition(
    position: DVec3,
    velocity: DVec3,
    current: &CelestialBodyDef,
    ut: f64,
    dt: f64,
) -> Option<Handover> {
    let children = satellites(current.id);
    let times: Vec<Option<Real>> = children
        .iter()
        .map(|child| {
            if dt <= 0.0 {
                return None;
            }
            child_soi_encounter_time(position, velocity, current, child, ut, dt).map(num)
        })
        .collect();
    let first = crabby_space::orbit::first_child_soi_encounter(&times);
    let entering = first.and_then(|child| times[child]);
    let parent = current.parent.map(body_definition);
    let exiting = parent
        .as_ref()
        .and_then(|parent| current_soi_exit_time(position, velocity, current, parent, dt))
        .map(num);
    match crabby_space::orbit::next_soi_transition(entering, exiting)? {
        true => Some(Handover {
            time: entering?,
            target: children[first?].id,
            entering: true,
        }),
        false => Some(Handover {
            time: exiting?,
            target: parent?.id,
            entering: false,
        }),
    }
}

/// When the vessel comes within the reach of a satellite: floating point.
fn child_soi_encounter_time(
    position: DVec3,
    velocity: DVec3,
    current: &CelestialBodyDef,
    child: &CelestialBodyDef,
    ut: f64,
    dt: f64,
) -> Option<f64> {
    let soi = sphere_of_influence(semi_major_axis(child), mu(child), mu(current))
        * SOI_CAPTURE_FACTOR;
    let relative_state_at = |elapsed: f64| {
        let (vessel_position, vessel_velocity) =
            propagate_universal(position, velocity, mu(current), elapsed);
        let (child_position, child_velocity) = circular_ephemeris(child, mu(current), ut + elapsed);
        (
            vessel_position - child_position,
            vessel_velocity - child_velocity,
        )
    };

    let (start_position, start_velocity) = relative_state_at(0.0);
    if start_position.length() < soi {
        return Some(0.0);
    }
    let (_, end_velocity) = relative_state_at(dt);
    let estimated_travel = start_velocity.length().max(end_velocity.length()) * dt;
    let segment_length = soi * SOI_SWEEP_SEGMENT_FRACTION;
    let segments = segment_count((estimated_travel / segment_length).ceil() as usize);
    let time_at = |index: usize| dt * index as f64 / segments as f64;
    let is_inside = |time: Real| relative_state_at(float(time)).0.length() < soi;

    first_hit(segments, |index| {
        let (previous, time) = (time_at(index - 1), time_at(index));
        // The chord is a cheap broad phase. Its closest point also catches a
        // complete outside-to-outside crossing, unlike endpoint sampling.
        let chord = segment_distance_to_origin(
            relative_state_at(previous).0,
            relative_state_at(time).0,
        );
        if chord >= soi * 1.1 {
            return None;
        }
        let (start, end) = narrow(num(previous), num(time), NARROWINGS, &thirds, &|time| {
            num(relative_state_at(float(time)).0.length_squared())
        });
        let closest = middle(start, end);
        if !is_inside(closest) {
            return None;
        }
        if is_inside(num(previous)) {
            return Some(num(previous));
        }
        Some(halve(num(previous), closest, HALVINGS, &middle, &is_inside).1)
    })
    .map(float)
}

/// When the vessel leaves the reach of its body: floating point.
fn current_soi_exit_time(
    position: DVec3,
    velocity: DVec3,
    current: &CelestialBodyDef,
    parent: &CelestialBodyDef,
    dt: f64,
) -> Option<f64> {
    let soi = sphere_of_influence(semi_major_axis(current), mu(current), mu(parent))
        * SOI_RELEASE_FACTOR;
    if position.length() > soi {
        return Some(0.0);
    }

    let orbit = elements(position, velocity, mu(current), 0.0);
    if orbit.apoapsis.is_finite() && orbit.apoapsis <= soi {
        return None;
    }

    let (_, end_velocity) = propagate_universal(position, velocity, mu(current), dt);
    let estimated_travel = velocity.length().max(end_velocity.length()) * dt;
    let segment_length = soi * SOI_SWEEP_SEGMENT_FRACTION;
    let segments = segment_count((estimated_travel / segment_length).ceil() as usize);
    let time_at = |index: usize| dt * index as f64 / segments as f64;
    let is_outside = |time: Real| {
        let (position, _) = propagate_universal(position, velocity, mu(current), float(time));
        position.length() > soi
    };

    first_hit(segments, |index| {
        let time = num(time_at(index));
        if !is_outside(time) {
            return None;
        }
        let inside = num(time_at(index - 1));
        Some(halve(inside, time, HALVINGS, &middle, &is_outside).1)
    })
    .map(float)
}

/// The distance of a segment from the origin: floating point.
fn segment_distance_to_origin(start: DVec3, end: DVec3) -> f64 {
    let segment = end - start;
    if segment.length_squared() <= f64::EPSILON {
        return start.length();
    }
    let fraction = (-start.dot(segment) / segment.length_squared()).clamp(0.0, 1.0);
    (start + segment * fraction).length()
}

/// Whether the vessel may take another coast of many seconds at once: the state that the
/// rule looks at is floating point.
fn on_rails_warp_is_safe(vessel: &Vessel) -> bool {
    let body = body_definition(&vessel.primary_body);
    let position = vector(vessel.position);
    let velocity = vector(vessel.velocity);
    let orbit = elements(position, velocity, mu(&body), radius(&body));
    crabby_space::orbit::on_rails_warp_is_safe(
        vessel.situation,
        &body,
        num(position.length() - radius(&body)),
        orbit.period.is_some() || position.dot(velocity) < 0.0,
        num(orbit.periapsis),
    )
}

/// The time to the next periapsis, if the path leads there: floating point.
fn time_until_periapsis(position: DVec3, velocity: DVec3, mu: f64) -> Option<f64> {
    let orbit = elements(position, velocity, mu, 0.0);
    if orbit.eccentricity <= 1e-12 {
        return None;
    }

    if orbit.specific_energy < 0.0 {
        let semi_major_axis = orbit.semi_major_axis;
        let cos_eccentric_anomaly =
            ((1.0 - position.length() / semi_major_axis) / orbit.eccentricity).clamp(-1.0, 1.0);
        let sin_eccentric_anomaly =
            position.dot(velocity) / (orbit.eccentricity * (mu * semi_major_axis).sqrt());
        let eccentric_anomaly = sin_eccentric_anomaly
            .atan2(cos_eccentric_anomaly)
            .rem_euclid(TAU);
        let mean_anomaly =
            (eccentric_anomaly - orbit.eccentricity * sin_eccentric_anomaly).rem_euclid(TAU);
        let mean_motion = (mu / semi_major_axis.powi(3)).sqrt();
        Some((TAU - mean_anomaly) / mean_motion)
    } else if position.dot(velocity) < 0.0 && orbit.semi_major_axis.is_finite() {
        let semi_major_axis = -orbit.semi_major_axis;
        let sinh_hyperbolic_anomaly =
            position.dot(velocity) / (orbit.eccentricity * (mu * semi_major_axis).sqrt());
        let hyperbolic_anomaly = sinh_hyperbolic_anomaly.asinh();
        let mean_anomaly = orbit.eccentricity * sinh_hyperbolic_anomaly - hyperbolic_anomaly;
        let mean_motion = (mu / semi_major_axis.powi(3)).sqrt();
        Some(-mean_anomaly / mean_motion)
    } else {
        None
    }
}

/// Where a vessel is with the spheres of influence about it: floating point.
fn reach(vessel: &Vessel, ut: f64) -> Reach {
    let current = body_definition(&vessel.primary_body);
    let position = vector(vessel.position);
    let released = current.parent.map(body_definition).is_some_and(|parent| {
        let soi = sphere_of_influence(semi_major_axis(&current), mu(&current), mu(&parent));
        position.length() > soi * SOI_RELEASE_FACTOR
    });
    let captured = satellites(current.id)
        .iter()
        .map(|child| {
            let soi = sphere_of_influence(semi_major_axis(child), mu(child), mu(&current));
            let (child_position, _) = circular_ephemeris(child, mu(&current), ut);
            (position - child_position).length() < soi * SOI_CAPTURE_FACTOR
        })
        .collect();
    Reach { released, captured }
}

/// Where a vessel is in the frame of the body that its own circles, or of one that circles
/// its own: floating point.
fn frame(vessel: &Vessel, to: &CelestialBodyDef, ut: f64) -> Frame {
    let current = body_definition(&vessel.primary_body);
    let position = vector(vessel.position);
    let velocity = vector(vessel.velocity);
    if current.parent == Some(to.id) {
        let (body_position, body_velocity) = circular_ephemeris(&current, mu(to), ut);
        Frame {
            position: reals(body_position + position),
            velocity: reals(body_velocity + velocity),
        }
    } else {
        let (child_position, child_velocity) = circular_ephemeris(to, mu(&current), ut);
        Frame {
            position: reals(position - child_position),
            velocity: reals(velocity - child_velocity),
        }
    }
}

const G0: f64 = 9.80665;
const HEAT_CAPACITY_RATIO: f64 = 1.4;
const UPRIGHT_VERTICAL_IMPACT_LIMIT: f64 = 18.0;
const BROADSIDE_VERTICAL_IMPACT_LIMIT: f64 = 8.0;
const HORIZONTAL_IMPACT_LIMIT: f64 = 8.0;
const LANDING_LEG_VERTICAL_BONUS: f64 = 8.0;
const LANDING_LEG_HORIZONTAL_BONUS: f64 = 3.0;
const INLINE_COAXIAL_TOLERANCE: f64 = 0.05;
const INLINE_AXIS_ALIGNMENT: f64 = 0.98;

fn part_radius(definition: &PartDefinition) -> f32 {
    definition.radius as f32 / 100.0
}

fn part_height(definition: &PartDefinition) -> f32 {
    definition.height as f32 / 100.0
}

/// The sum of the levels, in their order: floating point.
fn total(levels: Vec<Real>) -> Real {
    num(levels.into_iter().map(float).sum())
}

/// What a proportional drain leaves of a level: floating point.
fn rest(fuel: Real, taken: Real, available: Real) -> Real {
    num(float(fuel) - float(taken) * float(fuel) / float(available))
}

fn resource_totals(vessel: &Vessel, catalog: &PartCatalog) -> (f64, f64, f64) {
    let (liquid, solid, mono) = crabby_space::fuel::resource_totals(vessel, catalog, total);
    (float(liquid), float(solid), float(mono))
}

/// The lift of a surface across the flow: floating point.
fn aerodynamic_lift_force(
    forward: DVec3,
    air_direction: DVec3,
    dynamic_pressure: f64,
    fin_lift: f64,
) -> DVec3 {
    let crossflow = forward.reject_from(air_direction);
    crossflow * dynamic_pressure * fin_lift * forward.dot(air_direction).abs()
}

/// The drag area that a part shows the wind: floating point.
fn projected_drag_area(
    definition: &PartDefinition,
    part: &RuntimePart,
    vessel: &Vessel,
    catalog: &PartCatalog,
    world_rotation: DQuat,
    air_direction: DVec3,
) -> f64 {
    let local_direction = world_rotation.conjugate() * air_direction.normalize_or_zero();
    let radius = f64::from(part_radius(definition));
    let height = f64::from(part_height(definition));
    let area = if definition.is_boxed() {
        let width = radius * 1.2;
        let depth = radius * 0.65;
        local_direction.x.abs() * height * depth
            + local_direction.y.abs() * width * depth
            + local_direction.z.abs() * width * height
    } else {
        let axial = local_direction.y.abs();
        let position = local_position(part.instance.local_position);
        let axis = local_rotation(part.instance.local_rotation) * DVec3::Y;
        let leading_sign = local_direction.y.signum();
        let blocked_radius = if leading_sign == 0.0 {
            0.0
        } else {
            inline_neighbors(vessel, catalog, part)
                .into_iter()
                .filter_map(|place| {
                    let neighbor = &vessel.parts[place];
                    let neighbor_definition = catalog.get(&neighbor.instance.definition_id)?;
                    let neighbor_axis =
                        local_rotation(neighbor.instance.local_rotation) * DVec3::Y;
                    if axis.dot(neighbor_axis).abs() < INLINE_AXIS_ALIGNMENT {
                        return None;
                    }
                    let offset = local_position(neighbor.instance.local_position) - position;
                    if offset.dot(axis) * leading_sign <= 0.0
                        || offset.reject_from(axis).length() > INLINE_COAXIAL_TOLERANCE
                    {
                        return None;
                    }
                    Some(f64::from(part_radius(neighbor_definition)))
                })
                .fold(0.0, f64::max)
                .min(radius)
        };
        PI * (radius * radius - blocked_radius * blocked_radius) * axial
            + 2.0 * radius * height * (1.0 - axial * axial).max(0.0).sqrt()
    };
    area * (f64::from(definition.drag_coefficient) / 100.0)
}

/// The heat flux of the air: floating point.
fn heat_rate(body: &CelestialBodyDef, position: DVec3, velocity: DVec3) -> f64 {
    let altitude = position.length() - radius(body);
    let (density, _) = atmosphere(body, altitude);
    if density <= 0.0 {
        return 0.0;
    }
    let relative = velocity - ground_velocity(position, f64::from(body.rotation_period));
    1.1e-7 * density.sqrt() * relative.length().powi(3)
}

/// The speed of sound: floating point.
fn speed_of_sound(body: &CelestialBodyDef, altitude: f64) -> Option<f64> {
    let air = body.air_at(num(altitude))?;
    let distance = radius(body) + altitude.max(0.0);
    let gravity = mu(body) / distance.powi(2);
    // For the isothermal atmospheres used here, H = R*T/g and
    // c = sqrt(gamma*R*T), so the existing scale height supplies a
    // body-specific sound speed without another independent tuning value.
    Some((HEAT_CAPACITY_RATIO * gravity * f64::from(air.scale_height)).sqrt())
}

#[derive(Debug, Clone, Copy)]
struct MassProperties {
    mass: f64,
    center: DVec3,
    inertia: DMat3,
}

fn outer_product(vector: DVec3) -> DMat3 {
    DMat3::from_cols(vector * vector.x, vector * vector.y, vector * vector.z)
}

fn part_mass(definition: &PartDefinition, part: &RuntimePart) -> f64 {
    f64::from(definition.dry_mass) + float(part.fuel) + float(part.ablator)
}

/// Mass, centre and inertia of the parts that fly: floating point.
fn compound_mass_properties(vessel: &Vessel, catalog: &PartCatalog) -> MassProperties {
    let parts: Vec<_> = live_parts(vessel, catalog)
        .into_iter()
        .filter_map(|place| {
            let part = &vessel.parts[place];
            let definition = catalog.get(&part.instance.definition_id)?;
            let position = local_position(part.instance.local_position);
            Some((part, definition, part_mass(definition, part), position))
        })
        .collect();
    let mass: f64 = parts.iter().map(|(_, _, mass, _)| mass).sum();
    if mass <= f64::EPSILON {
        return MassProperties {
            mass: 1.0,
            center: DVec3::ZERO,
            inertia: DMat3::IDENTITY,
        };
    }

    let center = parts
        .iter()
        .map(|(_, _, part_mass, position)| *position * *part_mass)
        .sum::<DVec3>()
        / mass;
    let mut inertia = DMat3::ZERO;
    for (part, definition, part_mass, position) in parts {
        // Match the simple cylinder/cuboid geometry rendered by the editor. Rotate
        // each part's intrinsic tensor, then use the parallel-axis theorem.
        let radius = f64::from(part_radius(definition));
        let height = f64::from(part_height(definition));
        let intrinsic = if definition.is_boxed() {
            let width = radius * 1.2;
            let depth = radius * 0.65;
            DMat3::from_diagonal(DVec3::new(
                part_mass * (height * height + depth * depth) / 12.0,
                part_mass * (width * width + depth * depth) / 12.0,
                part_mass * (width * width + height * height) / 12.0,
            ))
        } else {
            let transverse = part_mass * (3.0 * radius * radius + height * height) / 12.0;
            let axial = 0.5 * part_mass * radius * radius;
            DMat3::from_diagonal(DVec3::new(transverse, axial, transverse))
        };
        let rotation = DMat3::from_quat(local_rotation(part.instance.local_rotation));
        let offset = position - center;
        inertia += rotation * intrinsic * rotation.transpose()
            + part_mass * (DMat3::IDENTITY * offset.length_squared() - outer_product(offset));
    }

    MassProperties {
        mass,
        center,
        inertia,
    }
}

fn vessel_mass(vessel: &Vessel, catalog: &PartCatalog) -> f64 {
    compound_mass_properties(vessel, catalog).mass
}

/// Euler's equation of a rigid body: floating point.
fn angular_acceleration(
    attitude: DQuat,
    angular_velocity: DVec3,
    torque: DVec3,
    inertia: DMat3,
) -> DVec3 {
    let inverse_attitude = attitude.conjugate();
    let local_velocity = inverse_attitude * angular_velocity;
    let local_torque = inverse_attitude * torque;
    let angular_momentum = inertia * local_velocity;
    let local_acceleration =
        inertia.inverse() * (local_torque - local_velocity.cross(angular_momentum));
    attitude * local_acceleration
}

/// The motion of both pieces after a separation: floating point.
fn split(catalog: &PartCatalog) -> impl Fn(&Vessel, &Separation) -> Split + '_ {
    move |vessel, plan| {
        let mut mass = 0.0;
        let mut center = DVec3::ZERO;
        let mut remaining_vessel = vessel.clone();
        for part in &mut remaining_vessel.parts {
            if part.destroyed || !plan.removed.contains(&part.instance.instance_id) {
                continue;
            }
            if let Some(definition) = catalog.get(&part.instance.definition_id) {
                let share = part_mass(definition, part);
                mass += share;
                center += local_position(part.instance.local_position) * share;
            }
            part.destroyed = true;
        }
        if mass > f64::EPSILON {
            center /= mass;
        }
        let remaining = compound_mass_properties(&remaining_vessel, catalog);
        let local_separation = (center - remaining.center).normalize_or_zero();
        let local_separation = if local_separation.length_squared() > 0.0 {
            local_separation
        } else {
            local_rotation(plan.rotation) * -DVec3::Y
        };
        let attitude = quaternion(vessel.attitude).normalize();
        let world_offset = attitude * center;
        let separation = attitude * local_separation;
        let velocity = vector(vessel.velocity);
        let impulse = f64::from(plan.impulse);
        let debris_velocity = velocity
            + vector(vessel.angular_velocity).cross(world_offset)
            + separation * (impulse / mass);
        Split {
            mass: num(mass),
            center: reals(center),
            velocity: reals(velocity - separation * (impulse / remaining.mass)),
            debris_position: reals(vector(vessel.position) + world_offset),
            debris_velocity: reals(debris_velocity),
        }
    }
}

/// A part's place in the frame of a centre of mass: floating point.
fn place(center: [Real; 3], position: [Single; 3]) -> [Single; 3] {
    (local_position(position) - vector(center))
        .as_vec3()
        .to_array()
        .map(single)
}

fn activate_next_stage(vessel: &mut Vessel, catalog: &PartCatalog) -> bool {
    crabby_space::staging::activate_next_stage(vessel, catalog, &split(catalog), &place)
}

/// The vessel of a craft whose parts are all of a known kind.
fn vessel_from(craft: &CraftBlueprint, catalog: &PartCatalog) -> Vessel {
    assert!(
        craft
            .parts
            .iter()
            .all(|part| catalog.get(&part.definition_id).is_some()),
        "validated part definition"
    );
    Vessel::from_blueprint(craft, catalog)
}

#[derive(Debug, Clone, Copy, Default)]
struct CraftStats {
    dry_mass: f64,
    wet_mass: f64,
    liquid_fuel: f64,
    solid_fuel: f64,
    sea_level_thrust: f64,
    vacuum_thrust: f64,
    sea_level_twr: f64,
    vacuum_delta_v: f64,
    center_of_mass_y: f64,
    center_of_pressure_y: f64,
    center_of_thrust_y: f64,
}

/// Centres, thrust ratio and delta-v of a craft: floating point, on the totals of the
/// library.
fn craft_stats(craft: &CraftBlueprint, catalog: &PartCatalog) -> CraftStats {
    let totals = craft_totals(craft, catalog);
    let mut stats = CraftStats {
        dry_mass: totals.dry_mass as f64,
        wet_mass: totals.wet_mass as f64,
        liquid_fuel: totals.liquid_fuel as f64,
        solid_fuel: totals.solid_fuel as f64,
        sea_level_thrust: totals.sea_level_thrust as f64,
        vacuum_thrust: totals.vacuum_thrust as f64,
        ..CraftStats::default()
    };
    let stats_vessel = vessel_from(craft, catalog);
    let first_stage = first_propulsion_stage(craft);
    let mut weighted_mass_y = 0.0;
    let mut pressure_area = 0.0;
    let mut pressure_y = 0.0;
    let mut thrust_y = 0.0;
    for part in &craft.parts {
        let Some(def) = catalog.get(&part.definition_id) else {
            continue;
        };
        let y = local_position(part.local_position).y;
        let capacity = crabby_space::parts::part_resource_capacity(def.module);
        weighted_mass_y += (f64::from(def.dry_mass) + f64::from(capacity)) * y;
        let area = stats_vessel
            .parts
            .iter()
            .find(|runtime| runtime.instance.instance_id == part.instance_id)
            .map_or(0.0, |runtime| {
                projected_drag_area(
                    def,
                    runtime,
                    &stats_vessel,
                    catalog,
                    local_rotation(part.local_rotation),
                    DVec3::Y,
                )
            });
        pressure_area += area;
        pressure_y += area * y;
        let drives = first_stage
            .as_ref()
            .is_none_or(|ids| ids.contains(&part.instance_id));
        match def.module {
            PartModule::SolidEngine { thrust, .. } if drives => thrust_y += f64::from(thrust) * y,
            PartModule::LiquidEngine { thrust_vac, .. } if drives => {
                thrust_y += f64::from(thrust_vac) * y
            }
            _ => {}
        }
    }
    let ratio = |sum: f64, weight: f64| if weight > 0.0 { sum / weight } else { 0.0 };
    stats.center_of_mass_y = ratio(weighted_mass_y, stats.wet_mass);
    stats.center_of_pressure_y = ratio(pressure_y, pressure_area);
    stats.center_of_thrust_y = ratio(thrust_y, stats.vacuum_thrust);
    stats.sea_level_twr = stats.sea_level_thrust / (stats.wet_mass * G0).max(1.0);
    stats.vacuum_delta_v = staged_vacuum_delta_v(craft, catalog);
    stats
}

/// Burns all lit engines until the first runs dry, and gives the change of velocity:
/// floating point.
fn burn_vacuum_interval(vessel: &mut Vessel, catalog: &PartCatalog) -> Option<Real> {
    let propulsion = Propulsion {
        rates: |thrust: u32, isp: u32| {
            let thrust = f64::from(thrust);
            (num(thrust), num(thrust / (f64::from(isp) * G0)))
        },
        total,
        lasting: |amount: Real, flow: Real| num(float(amount) / float(flow)),
        used: |flow: Real, duration: Real| num(float(flow) * float(duration)),
        rest,
        left: |fuel: Real, used: Real| num(float(fuel) - float(used)),
        mass: |vessel: &Vessel| num(vessel_mass(vessel, catalog)),
        gain: |thrust: Real, flow: Real, heavy: Real, light: Real| {
            num(float(thrust) / float(flow) * (float(heavy) / float(light)).ln())
        },
    };
    crabby_space::interval::burn_vacuum_interval(vessel, catalog, &propulsion)
}

/// The delta-v of a craft, stage by stage: floating point.
fn staged_vacuum_delta_v(craft: &CraftBlueprint, catalog: &PartCatalog) -> f64 {
    assert!(
        craft
            .parts
            .iter()
            .all(|part| catalog.get(&part.definition_id).is_some()),
        "validated part definition"
    );
    float(crabby_space::delta_v::staged_vacuum_delta_v(
        craft,
        catalog,
        &split(catalog),
        &place,
        &|vessel: &Vessel| {
            let mut burned = vessel.clone();
            let gain = burn_vacuum_interval(&mut burned, catalog);
            (burned, gain)
        },
        &|sum: Real, gain: Real| num(float(sum) + float(gain)),
    ))
}

/// Density and pressure of the air: floating point.
fn atmosphere(body: &CelestialBodyDef, altitude: f64) -> (f64, f64) {
    let Some(air) = body.air_at(num(altitude)) else {
        return (0.0, 0.0);
    };
    let sea_level_density = f64::from(air.sea_level_density) / 1_000.0;
    let density = sea_level_density * (-altitude.max(0.0) / f64::from(air.scale_height)).exp();
    let pressure_fraction = density / sea_level_density.max(1e-9);
    (density, pressure_fraction)
}

/// The velocity of the ground: floating point.
fn ground_velocity(position: DVec3, rotation_period: f64) -> DVec3 {
    if rotation_period <= 0.0 {
        DVec3::ZERO
    } else {
        (DVec3::Z * (TAU / rotation_period)).cross(position)
    }
}

/// The torque with which the autopilot turns the nose: floating point.
fn sas_torque(
    vessel: &Vessel,
    attitude: DQuat,
    velocity: DVec3,
    radial: DVec3,
    available: f64,
) -> DVec3 {
    let local_forward = attitude * DVec3::Y;
    let target = match sas_heading(vessel.controls.sas, num(velocity.length_squared())) {
        Heading::Prograde => velocity.normalize(),
        Heading::Retrograde => -velocity.normalize(),
        Heading::RadialOut => radial,
        Heading::RadialIn => -radial,
        Heading::Normal => radial.cross(velocity).normalize_or_zero(),
        Heading::AntiNormal => -radial.cross(velocity).normalize_or_zero(),
        Heading::Ahead => local_forward,
    };
    local_forward.cross(target) * available * 1.8
}

/// Whether a vessel endures a touch of the ground: floating point.
fn touchdown_is_survivable(
    vessel: &Vessel,
    catalog: &PartCatalog,
    attitude: DQuat,
    radial: DVec3,
    surface_relative_velocity: DVec3,
) -> bool {
    let upright = (attitude * DVec3::Y).dot(radial).clamp(0.0, 1.0);
    let legs = leg_count(vessel, catalog);
    let leg_support = (legs as f64 / 3.0).clamp(0.0, 1.0) * upright;
    let vertical_limit = BROADSIDE_VERTICAL_IMPACT_LIMIT
        + (UPRIGHT_VERTICAL_IMPACT_LIMIT - BROADSIDE_VERTICAL_IMPACT_LIMIT) * upright
        + LANDING_LEG_VERTICAL_BONUS * leg_support;
    let horizontal_limit = HORIZONTAL_IMPACT_LIMIT + LANDING_LEG_HORIZONTAL_BONUS * leg_support;
    let vertical_speed = surface_relative_velocity.dot(radial).min(0.0).abs();
    let horizontal_speed = surface_relative_velocity.reject_from(radial).length();
    // Combine the vertical and lateral envelopes rather than allowing both
    // components to independently reach their maximum survivable value.
    (vertical_speed / vertical_limit).powi(2) + (horizontal_speed / horizontal_limit).powi(2) <= 1.0
}

/// The thrust, propellant flow and gimbal of a lit liquid engine: floating point.
fn liquid_engine(
    vessel: &Vessel,
    catalog: &PartCatalog,
    place: usize,
    pressure_fraction: f64,
) -> Option<(f64, f64, f64)> {
    let definition = catalog.get(&vessel.parts[place].instance.definition_id)?;
    let PartModule::LiquidEngine {
        thrust_vac,
        thrust_sl,
        isp_vac,
        isp_sl,
        gimbal_deg,
    } = definition.module
    else {
        return None;
    };
    let (thrust_vac, thrust_sl) = (f64::from(thrust_vac), f64::from(thrust_sl));
    let (isp_vac, isp_sl) = (f64::from(isp_vac), f64::from(isp_sl));
    let throttle = float(vessel.controls.throttle).clamp(0.0, 1.0);
    let thrust = (thrust_vac + (thrust_sl - thrust_vac) * pressure_fraction) * throttle;
    let isp = isp_vac + (isp_sl - isp_vac) * pressure_fraction;
    Some((thrust, thrust / (isp * G0).max(1.0), f64::from(gimbal_deg)))
}

/// The propellant that a solid engine burns in a step: floating point.
fn solid_burn(fuel: f64, thrust: u32, isp: u32, dt: f64) -> f64 {
    (f64::from(thrust) / (f64::from(isp) * G0) * dt).min(fuel)
}

/// The air round a vessel: density, pressure and its velocity.
fn surroundings(vessel: &Vessel) -> (f64, f64, DVec3) {
    let body = body_definition(&vessel.primary_body);
    let position = vector(vessel.position);
    let (density, pressure_fraction) = atmosphere(&body, position.length() - radius(&body));
    let air = ground_velocity(position, f64::from(body.rotation_period));
    (density, pressure_fraction, air)
}

struct AppliedThrust {
    place: usize,
    thrust: f64,
    gimbal_deg: f64,
}

/// The thrust of each engine in a step, liquid ones first: floating point.
fn applied_thrust(
    before: &Vessel,
    burns: &[GroupBurn],
    catalog: &PartCatalog,
    pressure_fraction: f64,
    dt: f64,
) -> Vec<AppliedThrust> {
    let mut applied = Vec::new();
    for burn in burns {
        let request = float(burn.request);
        let fraction = if request > 0.0 {
            (float(burn.drained) / request).clamp(0.0, 1.0)
        } else {
            1.0
        };
        for &place in &burn.group.engines {
            if let Some((thrust, _, gimbal_deg)) =
                liquid_engine(before, catalog, place, pressure_fraction)
            {
                applied.push(AppliedThrust {
                    place,
                    thrust: thrust * fraction,
                    gimbal_deg,
                });
            }
        }
    }
    applied.sort_by_key(|thrust| thrust.place);
    for place in solid_engines(before, catalog) {
        let part = &before.parts[place];
        let Some(PartModule::SolidEngine { thrust, isp, .. }) = catalog
            .get(&part.instance.definition_id)
            .map(|definition| definition.module)
        else {
            continue;
        };
        let fraction = if dt > 0.0 {
            solid_burn(float(part.fuel), thrust, isp, dt) * f64::from(isp) * G0
                / (f64::from(thrust) * dt)
        } else {
            0.0
        };
        applied.push(AppliedThrust {
            place,
            thrust: f64::from(thrust) * fraction,
            gimbal_deg: 0.0,
        });
    }
    applied
}

/// The forces of a step and the motion that they cause: floating point.
fn motion(
    before: &Vessel,
    burnt: &Vessel,
    burns: &[GroupBurn],
    catalog: &PartCatalog,
    dt: f64,
) -> Motion {
    let mut position = vector(before.position);
    let mut velocity = vector(before.velocity);
    let mut attitude = quaternion(before.attitude).normalize();
    let mut angular_velocity = vector(before.angular_velocity);
    let body = body_definition(&before.primary_body);
    let radial = position.normalize_or_zero();
    let (density, pressure_fraction, atmosphere_velocity) = surroundings(before);
    let air_velocity = velocity - atmosphere_velocity;
    let air_speed = air_velocity.length();

    // Midpoint properties keep the burn first-order accurate while avoiding
    // the systematic pre-burn-mass bias of sampling only at frame start.
    let pre_burn = compound_mass_properties(before, catalog);
    let post_burn = compound_mass_properties(burnt, catalog);
    let mass = (pre_burn.mass + post_burn.mass) * 0.5;
    let center = (pre_burn.center + post_burn.center) * 0.5;
    let inertia = (pre_burn.inertia + post_burn.inertia) * 0.5;

    let mut force = DVec3::ZERO;
    let mut torque = DVec3::ZERO;
    let pitch = float(before.controls.pitch);
    let yaw = float(before.controls.yaw);
    let roll = float(before.controls.roll);
    let gimbal_input = DVec3::new(pitch, 0.0, -yaw);
    let gimbal_amount = gimbal_input.length().min(1.0);
    let mut total_thrust = 0.0;
    for applied in applied_thrust(before, burns, catalog, pressure_fraction, dt) {
        let instance = &before.parts[applied.place].instance;
        let offset = local_position(instance.local_position) - center;
        let mut direction =
            (local_rotation(instance.local_rotation) * DVec3::Y).normalize_or_zero();
        if applied.gimbal_deg > 0.0 && gimbal_amount > 1e-6 {
            let lateral = gimbal_input
                .cross(offset)
                .reject_from(direction)
                .normalize_or_zero();
            if lateral.length_squared() > 0.0 {
                let angle = applied.gimbal_deg.to_radians() * gimbal_amount;
                direction = direction * angle.cos() + lateral * angle.sin();
            }
        }
        let thrust_force = attitude * direction * applied.thrust;
        force += thrust_force;
        torque += (attitude * offset).cross(thrust_force);
        total_thrust += applied.thrust;
    }
    let forward = attitude * DVec3::Y;

    let mut control_torque = 0.0;
    let mut rcs_mass_flow = 0.0;
    let (_, _, monopropellant) = resource_totals(burnt, catalog);
    let fed = rcs_is_fed(burnt.controls.rcs, num(monopropellant));
    let mut air_speeds = vec![num(0.0); burnt.parts.len()];
    for place in live_parts(burnt, catalog) {
        let part = &burnt.parts[place];
        let Some(def) = catalog.get(&part.instance.definition_id) else {
            continue;
        };
        let offset = local_position(part.instance.local_position) - center;
        let world_offset = attitude * offset;
        let part_air_velocity = air_velocity + angular_velocity.cross(world_offset);
        let part_air_speed = part_air_velocity.length();
        air_speeds[place] = num(part_air_speed);
        let part_air_direction = part_air_velocity.normalize_or_zero();
        let part_dynamic_pressure = 0.5 * density * part_air_speed * part_air_speed;
        if part_air_speed > 0.1 {
            let part_rotation = attitude * local_rotation(part.instance.local_rotation);
            let drag_area = projected_drag_area(
                def,
                part,
                burnt,
                catalog,
                part_rotation,
                part_air_direction,
            );
            let drag_force = -part_air_direction * part_dynamic_pressure * drag_area;
            force += drag_force;
            torque += world_offset.cross(drag_force);
        }
        match part_role(def.module, part.parachute_deployed, fed) {
            PartRole::Steering { torque } => control_torque += f64::from(torque),
            PartRole::Fin { lift, steerable } => {
                if part_air_speed > 0.1 {
                    let fin_lift = f64::from(lift) * if steerable { 1.35 } else { 1.0 };
                    let lift_force = aerodynamic_lift_force(
                        forward,
                        part_air_direction,
                        part_dynamic_pressure,
                        fin_lift,
                    );
                    force += lift_force;
                    torque += world_offset.cross(lift_force);
                }
                if steerable {
                    control_torque += density * air_speed * air_speed * 0.6;
                }
            }
            PartRole::OpenParachute {
                drag_area,
                safe_speed,
            } => {
                if parachute_holds(safe_speed, num(part_air_speed), num(density))
                    && part_air_speed > 0.1
                {
                    let chute_force =
                        -part_air_direction * part_dynamic_pressure * f64::from(drag_area);
                    force += chute_force;
                    torque += world_offset.cross(chute_force);
                }
            }
            PartRole::Thruster { thrust, isp } => {
                control_torque += f64::from(thrust) * 2.0;
                rcs_mass_flow += f64::from(thrust) / (f64::from(isp) * G0).max(1.0);
            }
            PartRole::Passive => {}
        }
    }

    let local_input = DVec3::new(pitch, roll, -yaw);
    let mut applied_control_torque = attitude * local_input * control_torque;
    if sas_steers(before.controls.sas, num(local_input.length_squared())) {
        applied_control_torque += sas_torque(before, attitude, velocity, radial, control_torque);
        applied_control_torque -= angular_velocity * control_torque * 0.7;
    }
    torque += applied_control_torque;
    let monopropellant = if fed && rcs_mass_flow > 0.0 {
        let effort = (applied_control_torque.length() / control_torque.max(1.0)).clamp(0.0, 1.0);
        Some(num(rcs_mass_flow * effort * dt))
    } else {
        None
    };

    angular_velocity += angular_acceleration(attitude, angular_velocity, torque, inertia) * dt;
    let angle = angular_velocity.length() * dt;
    if angle > 1e-12 {
        attitude =
            (DQuat::from_axis_angle(angular_velocity.normalize(), angle) * attitude).normalize();
    }
    let acceleration = -mu(&body) / position.length_squared().max(1.0) * radial + force / mass;
    velocity += acceleration * dt;
    position += velocity * dt;

    Motion {
        thrust: num(total_thrust),
        mass: num(mass),
        density: num(density),
        air_speeds,
        monopropellant,
        heat_rate: num(heat_rate(&body, position, velocity)),
        position: reals(position),
        velocity: reals(velocity),
        attitude: quaternion_reals(attitude),
        angular_velocity: reals(angular_velocity),
    }
}

/// The end of a motion, on the ground where it leads there: floating point.
fn arrive(vessel: &Vessel, motion: &Motion, catalog: &PartCatalog) -> Arrival {
    let body = body_definition(&vessel.primary_body);
    let mut position = vector(motion.position);
    let mut velocity = vector(motion.velocity);
    let altitude = position.length() - radius(&body);
    let mut survivable = true;
    if is_grounded(num(altitude)) {
        let surface_velocity = ground_velocity(position, f64::from(body.rotation_period));
        position = position.normalize_or_zero() * (radius(&body) + 5.0);
        survivable = touchdown_is_survivable(
            vessel,
            catalog,
            quaternion(motion.attitude),
            position.normalize_or_zero(),
            velocity - surface_velocity,
        );
        velocity = surface_velocity;
    }
    let orbit = elements(position, velocity, mu(&body), radius(&body));
    Arrival {
        altitude: num(altitude),
        periapsis: num(orbit.periapsis),
        held: float(motion.thrust) < float(motion.mass) * G0 * 1.02,
        survivable,
        position: reals(position),
        velocity: reals(velocity),
    }
}

/// One step of flight: what the library asks for is floating point.
fn step_vessel(
    vessel: &mut Vessel,
    catalog: &PartCatalog,
    dt: f64,
    ut: f64,
) -> FlightTelemetry {
    if matches!(vessel.situation, FlightSituation::Crashed) {
        return telemetry(vessel, catalog, ut, 0.0);
    }
    let mechanics = Mechanics {
        request: |vessel: &Vessel, group: &EngineGroup| {
            let (_, pressure_fraction, _) = surroundings(vessel);
            let flows = group.engines.iter().filter_map(|&place| {
                let (_, flow, _) = liquid_engine(vessel, catalog, place, pressure_fraction)?;
                Some(flow * dt)
            });
            num(flows.sum())
        },
        solid_left: |fuel: Real, thrust: u32, isp: u32| {
            num(float(fuel) - solid_burn(float(fuel), thrust, isp, dt))
        },
        total,
        rest,
        motion: |before: &Vessel, burnt: &Vessel, burns: &Vec<GroupBurn>| {
            motion(before, burnt, burns, catalog, dt)
        },
        warm: |temperature: Real, covered: bool, heat_rate: Real| {
            let temperature = float(temperature);
            let protection = if covered { 0.22 } else { 1.0 };
            let gain = float(heat_rate) * protection - 0.018 * (temperature - 290.0).max(0.0);
            num(temperature + gain * dt)
        },
        ablate: |ablator: Real, temperature: Real, heat_rate: Real| {
            let used = (float(heat_rate) * 0.0025 * dt).min(float(ablator));
            (
                num(float(ablator) - used),
                num(float(temperature) - used * 1.8),
            )
        },
        arrive: |vessel: &Vessel, motion: &Motion| arrive(vessel, motion, catalog),
        drift: |stage: &DetachedStage| drift(stage, dt),
        reach: |vessel: &Vessel| reach(vessel, ut + dt),
        frame: |vessel: &Vessel, to: &CelestialBodyDef| frame(vessel, to, ut + dt),
    };
    let thrust = crabby_space::step::step_vessel(vessel, catalog, &mechanics);
    telemetry(vessel, catalog, ut + dt, float(thrust))
}

/// What the instruments show: floating point.
fn telemetry(vessel: &Vessel, catalog: &PartCatalog, ut: f64, thrust: f64) -> FlightTelemetry {
    let body = body_definition(&vessel.primary_body);
    let position = vector(vessel.position);
    let velocity = vector(vessel.velocity);
    let altitude = position.length() - radius(&body);
    let surface_velocity = ground_velocity(position, f64::from(body.rotation_period));
    let relative = velocity - surface_velocity;
    let (density, _) = atmosphere(&body, altitude);
    let mass = vessel_mass(vessel, catalog);
    let (liquid, solid, mono) = resource_totals(vessel, catalog);
    let mach = speed_of_sound(&body, altitude)
        .map(|sound_speed| relative.length() / sound_speed)
        .unwrap_or(0.0);
    FlightTelemetry {
        ut: num(ut),
        altitude: num(altitude),
        radar_altitude: num(altitude),
        speed: num(velocity.length()),
        surface_speed: num(relative.length()),
        vertical_speed: num(relative.dot(position.normalize_or_zero())),
        mach: num(mach),
        dynamic_pressure: num(0.5 * density * relative.length_squared()),
        heating: num(heat_rate(&body, position, velocity)),
        mass: num(mass),
        liquid_fuel: num(liquid),
        solid_fuel: num(solid),
        monopropellant: num(mono),
        thrust: num(thrust),
        twr: num(thrust / (mass * G0).max(1.0)),
        orbit: elements(position, velocity, mu(&body), radius(&body)).into(),
    }
}

/// State at a planned maneuver and the change of velocity planned there: floating point.
fn planned_burn(vessel: &Vessel, universal_time: f64) -> Option<(DVec3, DVec3, DVec3)> {
    let node = vessel.maneuver?;
    let body = body_definition(&vessel.primary_body);
    let dt = (float(node.ut) - universal_time).max(0.0);
    let (position, velocity) =
        propagate_universal(vector(vessel.position), vector(vessel.velocity), mu(&body), dt);
    let prograde = velocity.normalize_or_zero();
    let normal = position.cross(velocity).normalize_or_zero();
    let radial = position.normalize_or_zero();
    let delta_v =
        prograde * float(node.prograde) + normal * float(node.normal) + radial * float(node.radial);
    Some((position, velocity, delta_v))
}

/// The direction of the planned change of velocity, if there is any: floating point.
fn maneuver_direction(vessel: &Vessel, universal_time: f64) -> Option<DVec3> {
    let (_, _, delta_v) = planned_burn(vessel, universal_time)?;
    delta_v.try_normalize()
}

/// The directions that the navball shows.
struct NavigationFrame {
    radial: DVec3,
    prograde: Option<DVec3>,
    normal: Option<DVec3>,
}

fn navigation_frame(vessel: &Vessel, reference: NavReference) -> NavigationFrame {
    let radial = vector(vessel.position).normalize_or_zero();
    let velocity = reference_velocity(vessel, reference);
    let normal = radial.cross(velocity);
    NavigationFrame {
        radial,
        prograde: shows_direction(num(velocity.length_squared())).then_some(velocity.normalize()),
        normal: is_direction(num(normal.length_squared())).then_some(normal.normalize()),
    }
}

fn reference_velocity(vessel: &Vessel, reference: NavReference) -> DVec3 {
    match reference {
        NavReference::Surface => {
            let body = body_definition(&vessel.primary_body);
            let ground = ground_velocity(vector(vessel.position), f64::from(body.rotation_period));
            vector(vessel.velocity) - ground
        }
        NavReference::Orbit => vector(vessel.velocity),
    }
}

fn project_direction(attitude: DQuat, direction: DVec3) -> Option<DVec2> {
    if !is_direction(num(direction.length_squared())) {
        return None;
    }
    let local = attitude.conjugate() * direction.normalize();
    (local.y >= 0.0).then_some(DVec2::new(local.x, -local.z))
}

fn tangent_basis(radial: DVec3) -> (DVec3, DVec3) {
    let up = radial.normalize_or_zero();
    let mut north = DVec3::Z - up * DVec3::Z.dot(up);
    if north.length_squared() <= 1.0e-12 {
        north = DVec3::X - up * DVec3::X.dot(up);
    }
    north = north.normalize_or_zero();
    let east = north.cross(up).normalize_or_zero();
    (north, east)
}

fn close(a: f64, b: f64, epsilon: f64) -> bool {
    (a - b).abs() <= epsilon
}

/// Whether the two differ by at most epsilon, or by that share of the larger.
fn relatively_close(a: f64, b: f64, epsilon: f64, share: f64) -> bool {
    close(a, b, epsilon) || (a - b).abs() <= share * a.abs().max(b.abs())
}

fn child_part(
    id: u64,
    definition_id: &str,
    parent: Option<u64>,
    position: [f32; 3],
) -> PartInstance {
    PartInstance {
        instance_id: id,
        definition_id: definition_id.into(),
        parent,
        local_position: position.map(single),
        local_rotation: [0.0, 0.0, 0.0, 1.0].map(single),
    }
}

fn part(id: u64, definition_id: &str, position: [f32; 3]) -> PartInstance {
    let parent = if id != 1 { Some(1) } else { None };
    child_part(id, definition_id, parent, position)
}

fn craft(name: &str, parts: Vec<PartInstance>, stages: Vec<Stage>) -> CraftBlueprint {
    CraftBlueprint {
        schema_version: 1,
        name: name.into(),
        parts,
        stages,
        crew: Vec::new(),
        script_name: None,
    }
}

fn stock_vessel(catalog: &PartCatalog) -> Vessel {
    Vessel::from_blueprint(&stock_craft(), catalog)
}

fn above_the_air() -> [Real; 3] {
    [HOME_RADIUS + HOME_ATMOSPHERE + 1_000.0, 0.0, 0.0].map(num)
}

fn step_on_rails(vessel: &mut Vessel, dt: f64) {
    crabby_space::rails::step_on_rails(
        vessel,
        num(dt),
        &Rails {
            survey,
            drift: carry,
            ground,
        },
    );
}

fn apply_soi_transitions(vessel: &mut Vessel, ut: f64) {
    crabby_space::reach::apply_soi_transitions(
        vessel,
        &|vessel: &Vessel| reach(vessel, ut),
        &|vessel: &Vessel, to: &CelestialBodyDef| frame(vessel, to, ut),
    );
}

#[test]
fn baseline_solids_have_physical_burn_times_and_stock_liftoff_twr() {
    let catalog = PartCatalog::default();
    let expected = [
        ("solid_stack", 74.0..75.0, 6.6..6.8),
        ("solid_radial", 69.0..70.0, 7.5..7.7),
    ];
    for (id, burn_range, mass_ratio_range) in expected {
        let definition = catalog.get(id).unwrap();
        let PartModule::SolidEngine { thrust, isp, fuel } = definition.module else {
            panic!("{id} is not a solid engine")
        };
        let (thrust, isp, fuel) = (f64::from(thrust), f64::from(isp), f64::from(fuel));
        let dry_mass = f64::from(definition.dry_mass);
        let burn_time = fuel * isp * G0 / thrust;
        let wet_to_dry = (dry_mass + fuel) / dry_mass;
        assert!(burn_range.contains(&burn_time), "{id}: {burn_time}");
        assert!(mass_ratio_range.contains(&wet_to_dry), "{id}: {wet_to_dry}");
    }

    let stats = craft_stats(&stock_craft(), &catalog);
    assert!(
        (2.1..=2.2).contains(&stats.sea_level_twr),
        "stock liftoff TWR was {}",
        stats.sea_level_twr
    );
}

#[test]
fn craft_stats_model_parallel_engines_and_connected_tank_crossfeed() {
    let catalog = PartCatalog::default();
    let parallel = craft(
        "Parallel engines",
        vec![
            child_part(1, "tank_long", None, [0.0, 1.0, 0.0]),
            child_part(2, "engine_sl_s", Some(1), [-0.5, -1.0, 0.0]),
            child_part(3, "engine_sl_s", Some(1), [0.5, -1.0, 0.0]),
        ],
        vec![Stage {
            name: "Ignition".into(),
            actions: vec![
                StageAction::ActivateEngine(2),
                StageAction::ActivateEngine(3),
            ],
        }],
    );
    let parallel_stats = craft_stats(&parallel, &catalog);
    let PartModule::LiquidEngine {
        thrust_vac,
        isp_vac,
        ..
    } = catalog.get("engine_sl_s").unwrap().module
    else {
        unreachable!()
    };
    let (thrust_vac, isp_vac) = (f64::from(thrust_vac), f64::from(isp_vac));
    let dry = |id: &str| f64::from(catalog.get(id).unwrap().dry_mass);
    let parallel_dry = dry("tank_long") + 2.0 * dry("engine_sl_s");
    let parallel_expected =
        isp_vac * G0 * ((parallel_dry + parallel_stats.liquid_fuel) / parallel_dry).ln();
    assert!(close(parallel_stats.vacuum_thrust, 2.0 * thrust_vac, 1e-12));
    assert!(close(parallel_stats.vacuum_delta_v, parallel_expected, 1e-9));

    let crossfeed = craft(
        "Connected tanks",
        vec![
            child_part(1, "tank_long", None, [0.0, 2.0, 0.0]),
            child_part(2, "tank_short", Some(1), [0.0, -1.0, 0.0]),
            child_part(3, "engine_sl_s", Some(2), [0.0, -3.0, 0.0]),
        ],
        Vec::new(),
    );
    let crossfeed_stats = craft_stats(&crossfeed, &catalog);
    let crossfeed_dry = dry("tank_long") + dry("tank_short") + dry("engine_sl_s");
    let crossfeed_expected =
        isp_vac * G0 * ((crossfeed_dry + crossfeed_stats.liquid_fuel) / crossfeed_dry).ln();
    assert!(close(crossfeed_stats.vacuum_delta_v, crossfeed_expected, 1e-9));
}

#[test]
fn craft_stats_center_of_mass_includes_all_resources() {
    let catalog = PartCatalog::default();
    let design = craft(
        "Mass test",
        vec![
            part(1, "pod_1", [0.0, 0.0, 0.0]),
            part(2, "tank_short", [0.0, 10.0, 0.0]),
            part(3, "mono_tank", [0.0, 20.0, 0.0]),
            part(4, "heatshield", [0.0, 30.0, 0.0]),
        ],
        Vec::new(),
    );

    let expected_mass = 900.0 + (280.0 + 2_400.0) + (90.0 + 220.0) + (220.0 + 240.0);
    let expected_center =
        ((280.0 + 2_400.0) * 10.0 + (90.0 + 220.0) * 20.0 + (220.0 + 240.0) * 30.0)
            / expected_mass;
    let stats = craft_stats(&design, &catalog);

    assert!(close(stats.wet_mass, expected_mass, 1e-12));
    assert!(close(stats.center_of_mass_y, expected_center, 1e-12));
}

#[test]
fn off_axis_engine_applies_torque_about_live_center_of_mass() {
    let catalog = PartCatalog::default();
    let design = craft(
        "Offset thrust",
        vec![
            part(1, "pod_1", [0.0, 0.0, 0.0]),
            part(2, "solid_stack", [2.0, -2.0, 0.0]),
        ],
        Vec::new(),
    );
    let mut vessel = Vessel::from_blueprint(&design, &catalog);
    vessel.parts[1].active = true;
    vessel.controls.sas = None;
    vessel.position = above_the_air();
    vessel.velocity = [0.0; 3].map(num);

    step_vessel(&mut vessel, &catalog, 0.001, 0.001);

    assert!(float(vessel.angular_velocity[2]) > 0.0);
    assert!(close(float(vessel.angular_velocity[0]), 0.0, 1e-12));
}

#[test]
fn anisotropic_inertia_includes_euler_gyroscopic_term() {
    let acceleration = angular_acceleration(
        DQuat::IDENTITY,
        DVec3::new(1.0, 2.0, 3.0),
        DVec3::ZERO,
        DMat3::from_diagonal(DVec3::new(2.0, 3.0, 4.0)),
    );

    assert!(close(acceleration.x, -3.0, 1e-12));
    assert!(close(acceleration.y, 2.0, 1e-12));
    assert!(close(acceleration.z, -0.5, 1e-12));
}

#[test]
fn fins_behind_center_of_mass_weathervane_into_airflow() {
    let catalog = PartCatalog::default();
    let design = craft(
        "Stable aerodynamic test",
        vec![
            part(1, "pod_1", [0.0, 0.0, 0.0]),
            part(2, "fin", [0.0, -4.0, 0.0]),
        ],
        Vec::new(),
    );
    let mut vessel = Vessel::from_blueprint(&design, &catalog);
    vessel.controls.sas = None;
    vessel.situation = FlightSituation::Flying;
    let position = DVec3::new(HOME_RADIUS + 10_000.0, 0.0, 0.0);
    let period = f64::from(body_definition("carapace").rotation_period);
    vessel.position = reals(position);
    vessel.velocity = reals(ground_velocity(position, period) + DVec3::Y * 100.0);
    vessel.attitude = quaternion_reals(DQuat::from_rotation_z(0.1));

    step_vessel(&mut vessel, &catalog, 0.001, 0.001);

    assert!(float(vessel.angular_velocity[2]) < 0.0);
}

#[test]
fn aerodynamic_lift_scales_with_crossflow() {
    let lift_at = |angle_degrees: f64| {
        let angle = angle_degrees.to_radians();
        let forward = DVec3::new(angle.sin(), angle.cos(), 0.0);
        aerodynamic_lift_force(forward, DVec3::Y, 1.0, 1.0).length()
    };

    assert_eq!(lift_at(0.0), 0.0);
    assert!(lift_at(0.001) < 0.000_018);
    assert!(close(lift_at(30.0), 3.0_f64.sqrt() / 4.0, 1e-12));
    assert!(lift_at(90.0) < 1e-12);
}

#[test]
fn engine_burn_consumes_fuel_and_lifts() {
    let catalog = PartCatalog::default();
    let mut vessel = stock_vessel(&catalog);
    activate_next_stage(&mut vessel, &catalog);
    vessel.controls.throttle = num(1.0);
    let before = resource_totals(&vessel, &catalog);
    for i in 0..120 {
        step_vessel(&mut vessel, &catalog, 1.0 / 60.0, i as f64 / 60.0);
    }
    let after = resource_totals(&vessel, &catalog);
    assert!(after.0 < before.0);
    assert!(after.1 < before.1);
    assert!(vector(vessel.position).length() > HOME_RADIUS + 5.0);
}

#[test]
fn inline_decoupler_preserves_stock_upper_stage_fuel() {
    let catalog = PartCatalog::default();
    let mut vessel = stock_vessel(&catalog);
    let fuel = |vessel: &Vessel, id: u64| {
        let part = vessel
            .parts
            .iter()
            .find(|part| part.instance.instance_id == id)
            .unwrap();
        float(part.fuel)
    };
    let upper_before = fuel(&vessel, 4);
    let lower_before = fuel(&vessel, 8);

    activate_next_stage(&mut vessel, &catalog);
    vessel.controls.throttle = num(1.0);
    step_vessel(&mut vessel, &catalog, 1.0 / 60.0, 0.0);

    assert_eq!(fuel(&vessel, 4), upper_before);
    assert!(fuel(&vessel, 8) < lower_before);

    activate_next_stage(&mut vessel, &catalog);
    activate_next_stage(&mut vessel, &catalog);
    let upper_stage_before = fuel(&vessel, 4);
    step_vessel(&mut vessel, &catalog, 1.0 / 60.0, 1.0 / 60.0);

    assert!(fuel(&vessel, 4) < upper_stage_before);
}

#[test]
fn separator_impulse_is_equal_and_opposite() {
    let catalog = PartCatalog::default();
    let design = craft(
        "Separation test",
        vec![
            part(1, "pod_1", [0.0, 0.0, 0.0]),
            part(2, "decoupler_radial", [2.0, 0.0, 0.0]),
            child_part(3, "solid_radial", Some(2), [3.0, 0.0, 0.0]),
        ],
        vec![Stage {
            name: "Separate".into(),
            actions: vec![StageAction::Decouple(2)],
        }],
    );
    let mut vessel = Vessel::from_blueprint(&design, &catalog);
    vessel.angular_velocity = [0.0; 3].map(num);
    let initial_velocity = vector(vessel.velocity);

    activate_next_stage(&mut vessel, &catalog);

    let survivor_mass = vessel_mass(&vessel, &catalog);
    let debris = &vessel.debris[0];
    let debris_mass: f64 = debris
        .parts
        .iter()
        .map(|part| part_mass(catalog.get(&part.instance.definition_id).unwrap(), part))
        .sum();
    let survivor_momentum = (vector(vessel.velocity) - initial_velocity) * survivor_mass;
    let debris_momentum = (vector(debris.velocity) - initial_velocity) * debris_mass;
    assert!(close(survivor_momentum.length(), 2_000.0, 1e-9));
    assert!(close(debris_momentum.length(), 2_000.0, 1e-9));
    assert!((survivor_momentum + debris_momentum).length() < 1e-9);
}

#[test]
fn radial_decoupler_isolates_independent_liquid_fuel_networks() {
    let catalog = PartCatalog::default();
    let design = craft(
        "Crossfeed test",
        vec![
            part(1, "pod_1", [0.0, 0.0, 0.0]),
            child_part(2, "tank_short", Some(1), [0.0, -1.0, 0.0]),
            child_part(3, "engine_sl_s", Some(2), [0.0, -2.0, 0.0]),
            child_part(4, "decoupler_radial", Some(2), [2.0, -1.0, 0.0]),
            child_part(5, "tank_long", Some(4), [3.0, -1.0, 0.0]),
            child_part(6, "engine_sl_s", Some(5), [3.0, -3.0, 0.0]),
        ],
        Vec::new(),
    );
    let mut vessel = Vessel::from_blueprint(&design, &catalog);
    vessel.parts[1].fuel = num(0.0);
    vessel.parts[2].active = true;
    vessel.parts[5].active = true;
    vessel.controls.throttle = num(1.0);
    let booster_fuel_before = float(vessel.parts[4].fuel);
    let body = body_definition("carapace");
    let (_, pressure_fraction) = atmosphere(&body, 5.0);
    let expected_thrust = match catalog.get("engine_sl_s").unwrap().module {
        PartModule::LiquidEngine {
            thrust_vac,
            thrust_sl,
            ..
        } => {
            let (vacuum, sea_level) = (f64::from(thrust_vac), f64::from(thrust_sl));
            vacuum + (sea_level - vacuum) * pressure_fraction
        }
        _ => unreachable!(),
    };

    let data = step_vessel(&mut vessel, &catalog, 1.0 / 60.0, 0.0);

    assert!(close(float(data.thrust), expected_thrust, 1e-9));
    assert_eq!(float(vessel.parts[1].fuel), 0.0);
    assert!(float(vessel.parts[4].fuel) < booster_fuel_before);
}

#[test]
fn burn_acceleration_uses_midpoint_mass() {
    let catalog = PartCatalog::default();
    let design = craft(
        "Mass integration test",
        vec![
            part(1, "pod_1", [0.0, 0.0, 0.0]),
            part(2, "solid_stack", [0.0, 0.0, 0.0]),
        ],
        Vec::new(),
    );
    let mut vessel = Vessel::from_blueprint(&design, &catalog);
    vessel.parts[1].active = true;
    vessel.controls.sas = None;
    vessel.position = above_the_air();
    vessel.velocity = [0.0; 3].map(num);
    let initial_mass = vessel_mass(&vessel, &catalog);
    let PartModule::SolidEngine { thrust, isp, .. } = catalog.get("solid_stack").unwrap().module
    else {
        unreachable!()
    };
    let (thrust, isp) = (f64::from(thrust), f64::from(isp));
    let burn = thrust / (isp * G0);
    let expected_delta_v = thrust / (initial_mass - burn * 0.5);

    step_vessel(&mut vessel, &catalog, 1.0, 0.0);

    assert!(close(float(vessel.velocity[1]), expected_delta_v, 1e-10));
}

#[test]
fn rcs_consumption_scales_with_clusters_and_control_effort() {
    let catalog = PartCatalog::default();
    let make_vessel = |clusters: u64, pitch: f64| {
        let mut parts = vec![child_part(1, "mono_tank", None, [0.0, 0.0, 0.0])];
        for id in 2..clusters + 2 {
            parts.push(child_part(id, "rcs", Some(1), [0.0, 0.0, 0.0]));
        }
        let mut vessel = Vessel::from_blueprint(&craft("RCS test", parts, Vec::new()), &catalog);
        vessel.position = above_the_air();
        vessel.velocity = [0.0; 3].map(num);
        vessel.controls.sas = None;
        vessel.controls.rcs = true;
        vessel.controls.pitch = num(pitch);
        vessel
    };
    let PartModule::Rcs { thrust, isp } = catalog.get("rcs").unwrap().module else {
        unreachable!()
    };
    let cluster_flow = f64::from(thrust) / (f64::from(isp) * G0);

    let mut one = make_vessel(1, 1.0);
    let one_before = float(one.parts[0].fuel);
    step_vessel(&mut one, &catalog, 1.0, 0.0);
    let one_used = one_before - float(one.parts[0].fuel);
    assert!(close(one_used, cluster_flow, 1e-12));

    let mut two = make_vessel(2, 1.0);
    let two_before = float(two.parts[0].fuel);
    step_vessel(&mut two, &catalog, 1.0, 0.0);
    let two_used = two_before - float(two.parts[0].fuel);
    assert!(close(two_used, 2.0 * cluster_flow, 1e-12));
    assert!(vector(two.angular_velocity).length() > vector(one.angular_velocity).length());

    let mut quarter = make_vessel(1, 0.25);
    let quarter_before = float(quarter.parts[0].fuel);
    step_vessel(&mut quarter, &catalog, 1.0, 0.0);
    let quarter_used = quarter_before - float(quarter.parts[0].fuel);
    assert!(close(quarter_used, cluster_flow * 0.25, 1e-12));
}

#[test]
fn rcs_uses_no_propellant_without_demand_and_stops_at_exhaustion() {
    let catalog = PartCatalog::default();
    let design = craft(
        "RCS exhaustion",
        vec![
            child_part(1, "mono_tank", None, [0.0, 0.0, 0.0]),
            child_part(2, "rcs", Some(1), [0.0, 0.0, 0.0]),
        ],
        Vec::new(),
    );
    let mut vessel = Vessel::from_blueprint(&design, &catalog);
    vessel.position = above_the_air();
    vessel.velocity = [0.0; 3].map(num);
    vessel.controls.sas = None;
    vessel.controls.rcs = true;
    let initial = float(vessel.parts[0].fuel);
    step_vessel(&mut vessel, &catalog, 1.0, 0.0);
    assert!(close(float(vessel.parts[0].fuel), initial, 1e-12));

    let mut exhausted = Vessel::from_blueprint(&design, &catalog);
    exhausted.position = above_the_air();
    exhausted.velocity = [0.0; 3].map(num);
    exhausted.controls.sas = None;
    exhausted.controls.rcs = true;
    exhausted.controls.pitch = num(1.0);
    exhausted.parts[0].fuel = num(0.01);
    step_vessel(&mut exhausted, &catalog, 1.0, 1.0);
    assert_eq!(float(exhausted.parts[0].fuel), 0.0);
    step_vessel(&mut exhausted, &catalog, 1.0, 2.0);
    assert_eq!(float(exhausted.parts[0].fuel), 0.0);
}

#[test]
fn patched_conic_exit_preserves_parent_frame_state() {
    let catalog = PartCatalog::default();
    let mut vessel = stock_vessel(&catalog);
    let home = body_definition("carapace");
    let star = body_definition("pelagos");
    let soi = sphere_of_influence(semi_major_axis(&home), mu(&home), mu(&star));
    vessel.position = [soi * 1.02, 0.0, 0.0].map(num);
    vessel.velocity = [0.0, 100.0, 0.0].map(num);
    let relative_position = vector(vessel.position);
    let (home_position, _) = circular_ephemeris(&home, mu(&star), 0.0);
    apply_soi_transitions(&mut vessel, 0.0);
    assert_eq!(vessel.primary_body, "pelagos");
    assert!((vector(vessel.position) - (home_position + relative_position)).length() < 1e-4);
}

#[test]
fn swept_soi_detection_finds_a_grazing_encounter_between_warp_samples() {
    let home = body_definition("carapace");
    let moon = body_definition("selene");
    let dt = f64::from(SimulationClock::WARP_RATES[7]) / 60.0;
    let speed = 3_000.0;
    let (moon_position, moon_velocity) = circular_ephemeris(&moon, mu(&home), 0.0);
    let capture_radius =
        sphere_of_influence(semi_major_axis(&moon), mu(&moon), mu(&home)) * SOI_CAPTURE_FACTOR;
    let impact_offset = moon_position.normalize() * capture_radius * 0.9;
    let relative_position = impact_offset - DVec3::Z * speed * dt * 0.5;
    let position = moon_position + relative_position;
    let velocity = moon_velocity + DVec3::Z * speed;

    let (end_position, uninterrupted_velocity) =
        propagate_universal(position, velocity, mu(&home), dt);
    let (end_moon_position, _) = circular_ephemeris(&moon, mu(&home), dt);
    assert!(relative_position.length() > capture_radius);
    assert!((end_position - end_moon_position).length() > capture_radius);

    let encounter = child_soi_encounter_time(position, velocity, &home, &moon, 0.0, dt).unwrap();
    assert!(encounter > 0.0);
    assert!(encounter < dt);

    let catalog = PartCatalog::default();
    let mut vessel = stock_vessel(&catalog);
    vessel.position = reals(position);
    vessel.velocity = reals(velocity);
    vessel.situation = FlightSituation::Orbiting;
    vessel = step_on_rails_patched(&vessel, 0.0, dt);

    assert_eq!(vessel.primary_body, "carapace");
    assert!((vector(vessel.velocity) - uninterrupted_velocity).length() > 1.0);
}

/// A vessel at its apoapsis of 200 km above the home world, with a periapsis so high.
fn eccentric_vessel(periapsis: f64) -> (Vessel, f64) {
    let catalog = PartCatalog::default();
    let mut vessel = stock_vessel(&catalog);
    let apoapsis_radius = HOME_RADIUS + 200_000.0;
    let periapsis_radius = HOME_RADIUS + periapsis;
    let semi_major_axis = (apoapsis_radius + periapsis_radius) * 0.5;
    let speed = (HOME_MU * (2.0 / apoapsis_radius - 1.0 / semi_major_axis)).sqrt();
    vessel.position = [apoapsis_radius, 0.0, 0.0].map(num);
    vessel.velocity = [0.0, speed, 0.0].map(num);
    vessel.situation = FlightSituation::Orbiting;
    (vessel, TAU * (semi_major_axis.powi(3) / HOME_MU).sqrt())
}

#[test]
fn high_warp_rejects_an_orbit_that_will_enter_the_atmosphere() {
    assert!(!on_rails_warp_is_safe(&eccentric_vessel(40_000.0).0));
    assert!(on_rails_warp_is_safe(&eccentric_vessel(80_000.0).0));
}

#[test]
fn on_rails_step_reclassifies_an_unsafe_orbit() {
    let (mut vessel, _) = eccentric_vessel(40_000.0);
    step_on_rails(&mut vessel, 1.0);
    assert_eq!(vessel.situation, FlightSituation::Flying);
}

#[test]
fn on_rails_surface_encounter_crashes_even_when_the_endpoint_is_above_ground() {
    let (mut vessel, period) = eccentric_vessel(-100_000.0);

    // One full period returns the analytic endpoint to the starting point,
    // but the intervening trajectory passes through the body.
    step_on_rails(&mut vessel, period);

    assert_eq!(vessel.situation, FlightSituation::Crashed);
    assert!(close(
        vector(vessel.position).length(),
        HOME_RADIUS + 5.0,
        1e-6
    ));
}

#[test]
fn soi_capture_re_evaluates_situation_for_the_new_body() {
    let catalog = PartCatalog::default();
    let mut vessel = stock_vessel(&catalog);
    let home = body_definition("carapace");
    let moon = body_definition("selene");
    let (moon_position, moon_velocity) = circular_ephemeris(&moon, mu(&home), 0.0);
    vessel.position = reals(moon_position + DVec3::X * 300_000.0);
    vessel.velocity = reals(moon_velocity);
    vessel.situation = FlightSituation::Orbiting;

    vessel = step_on_rails_patched(&vessel, 0.0, 0.0);

    assert_eq!(vessel.primary_body, "selene");
    assert_eq!(vessel.situation, FlightSituation::Flying);
    assert!(!on_rails_warp_is_safe(&vessel));
}

#[test]
fn atmospheric_entry_generates_heat() {
    let catalog = PartCatalog::default();
    let mut vessel = stock_vessel(&catalog);
    vessel.position = [0.0, HOME_RADIUS + 30_000.0, 0.0].map(num);
    vessel.velocity = [2_400.0, 0.0, 0.0].map(num);
    let before = float(vessel.parts[0].temperature);
    let telemetry = step_vessel(&mut vessel, &catalog, 0.1, 0.1);
    assert!(float(telemetry.heating) > 0.0);
    assert!(float(vessel.parts[0].temperature) > before);
}

#[test]
fn peak_heating_is_retained_while_telemetry_reports_current_flux() {
    let catalog = PartCatalog::default();
    let mut vessel = stock_vessel(&catalog);
    vessel.position = [0.0, HOME_RADIUS + 30_000.0, 0.0].map(num);
    vessel.velocity = [2_400.0, 0.0, 0.0].map(num);
    let hot = step_vessel(&mut vessel, &catalog, 0.1, 0.0);
    let peak = vessel.max_heating;
    assert!(float(peak) > 0.0);
    assert!(float(hot.heating) > 0.0);

    vessel.position = [0.0, HOME_RADIUS + HOME_ATMOSPHERE + 1_000.0, 0.0].map(num);
    vessel.velocity = [0.0; 3].map(num);
    let cold = step_vessel(&mut vessel, &catalog, 0.1, 0.1);

    assert_eq!(float(cold.heating), 0.0);
    assert_eq!(vessel.max_heating, peak);
}

#[test]
fn projected_drag_distinguishes_nose_first_and_broadside() {
    let catalog = PartCatalog::default();
    let design = craft(
        "Drag test",
        vec![part(1, "tank_long", [0.0, 0.0, 0.0])],
        Vec::new(),
    );
    let vessel = Vessel::from_blueprint(&design, &catalog);
    let tank = catalog.get("tank_long").unwrap();
    let runtime = &vessel.parts[0];
    let nose_first =
        projected_drag_area(tank, runtime, &vessel, &catalog, DQuat::IDENTITY, DVec3::Y);
    let broadside =
        projected_drag_area(tank, runtime, &vessel, &catalog, DQuat::IDENTITY, DVec3::X);

    assert!(broadside > nose_first * 2.0);
}

#[test]
fn inline_drag_shields_only_the_covered_axial_face() {
    let catalog = PartCatalog::default();
    let design = craft(
        "Inline shielding",
        vec![
            child_part(1, "tank_long", None, [0.0, 0.0, 0.0]),
            child_part(2, "tank_short", Some(1), [0.0, 4.2, 0.0]),
            child_part(3, "rcs", Some(1), [1.5, 0.0, 0.0]),
        ],
        Vec::new(),
    );
    let mut vessel = Vessel::from_blueprint(&design, &catalog);
    let isolated = craft(
        "Inline shielding",
        vec![child_part(1, "tank_long", None, [0.0, 0.0, 0.0])],
        Vec::new(),
    );
    let isolated_vessel = Vessel::from_blueprint(&isolated, &catalog);
    let area = |vessel: &Vessel, place: usize, direction: DVec3| {
        let part = &vessel.parts[place];
        let definition = catalog.get(&part.instance.definition_id).unwrap();
        projected_drag_area(definition, part, vessel, &catalog, DQuat::IDENTITY, direction)
    };

    let isolated_axial = area(&isolated_vessel, 0, DVec3::Y);
    let shielded_axial = area(&vessel, 0, DVec3::Y);
    assert!(shielded_axial < isolated_axial * 1e-9);

    let isolated_broadside = area(&isolated_vessel, 0, DVec3::X);
    let shielded_broadside = area(&vessel, 0, DVec3::X);
    assert!(close(isolated_broadside, shielded_broadside, 1e-12));

    let radial_before = area(&vessel, 2, DVec3::Y);
    vessel.parts[1].destroyed = true;
    let reexposed_axial = area(&vessel, 0, DVec3::Y);
    let radial_after = area(&vessel, 2, DVec3::Y);
    assert!(close(reexposed_axial, isolated_axial, 1e-12));
    assert!(close(radial_before, radial_after, 1e-12));
}

#[test]
fn mach_uses_the_local_atmosphere_and_is_zero_in_vacuum() {
    let catalog = PartCatalog::default();
    let mut vessel = stock_vessel(&catalog);
    let body = body_definition("carapace");
    let position = DVec3::Y * (radius(&body) + 5.0);
    let ground = ground_velocity(position, f64::from(body.rotation_period));
    vessel.position = reals(position);
    vessel.velocity = reals(ground + DVec3::X * 343.0);
    let sea_level = telemetry(&vessel, &catalog, 0.0, 0.0);
    assert!(close(float(sea_level.mach), 1.0, 0.01));

    vessel.position = reals(DVec3::Y * (radius(&body) + HOME_ATMOSPHERE + 1.0));
    let vacuum = telemetry(&vessel, &catalog, 0.0, 0.0);
    assert_eq!(float(vacuum.mach), 0.0);
}

#[test]
fn touchdown_depends_on_attitude_and_landing_legs() {
    let catalog = PartCatalog::default();
    let pod = craft(
        "Bare pod",
        vec![part(1, "pod_1", [0.0, 0.0, 0.0])],
        Vec::new(),
    );
    let bare = Vessel::from_blueprint(&pod, &catalog);
    let radial = DVec3::Y;
    let impact = -radial * 12.0;
    let survives = |vessel: &Vessel, attitude: DQuat, impact: DVec3| {
        touchdown_is_survivable(vessel, &catalog, attitude, radial, impact)
    };
    assert!(survives(&bare, DQuat::IDENTITY, impact));
    assert!(!survives(&bare, DQuat::from_rotation_z(PI * 0.5), impact));

    let legs = craft(
        "Legged pod",
        vec![
            part(1, "pod_1", [0.0, 0.0, 0.0]),
            part(2, "landing_leg", [1.0, -1.0, 0.0]),
            part(3, "landing_leg", [-1.0, -1.0, 0.0]),
            part(4, "landing_leg", [0.0, -1.0, 1.0]),
        ],
        Vec::new(),
    );
    let legged = Vessel::from_blueprint(&legs, &catalog);
    let fast_impact = -radial * 22.0;
    assert!(!survives(&bare, DQuat::IDENTITY, fast_impact));
    assert!(survives(&legged, DQuat::IDENTITY, fast_impact));
}

#[test]
fn circular_orbit_returns_to_start() {
    let radius = HOME_RADIUS + 100_000.0;
    let velocity = (HOME_MU / radius).sqrt();
    let period = TAU * (radius.powi(3) / HOME_MU).sqrt();
    let (p, v) = propagate_universal(
        DVec3::new(radius, 0.0, 0.0),
        DVec3::new(0.0, velocity, 0.0),
        HOME_MU,
        period,
    );
    assert!(relatively_close(p.x, radius, 0.05, f64::EPSILON));
    assert!(relatively_close(p.y, 0.0, 0.05, f64::EPSILON));
    assert!(relatively_close(v.y, velocity, 1e-5, f64::EPSILON));
}

#[test]
fn orbital_elements_report_expected_circular_altitude() {
    let radius = HOME_RADIUS + 80_000.0;
    let el = elements(
        DVec3::X * radius,
        DVec3::Y * (HOME_MU / radius).sqrt(),
        HOME_MU,
        HOME_RADIUS,
    );
    assert!(relatively_close(el.apoapsis, 80_000.0, 1e-6, f64::EPSILON));
    assert!(relatively_close(el.periapsis, 80_000.0, 1e-6, f64::EPSILON));
    assert!(el.eccentricity < 1e-12);
}

#[test]
fn home_soi_contains_selene() {
    let soi = sphere_of_influence(13.6e9, HOME_MU, 1.327e18);
    assert!(soi > 12.0e6);
}

#[test]
fn long_hyperbolic_propagation_is_finite_and_conserves_energy() {
    let radius = HOME_RADIUS + 100_000.0;

    for eccentricity in [1.21, 1.88, 3.5, 7.0] {
        let position = DVec3::X * radius;
        let velocity = DVec3::Y * (HOME_MU * (1.0 + eccentricity) / radius).sqrt();
        let initial_energy = velocity.length_squared() * 0.5 - HOME_MU / radius;

        for dt in [2_000.0, 7_200.0, 30_000.0, 86_400.0] {
            let (next_position, next_velocity) =
                propagate_universal(position, velocity, HOME_MU, dt);
            let final_energy =
                next_velocity.length_squared() * 0.5 - HOME_MU / next_position.length();

            assert!(next_position.is_finite());
            assert!(next_velocity.is_finite());
            assert!(relatively_close(final_energy, initial_energy, 1e-6, 2e-11));
        }
    }
}

#[test]
fn hyperbolic_propagation_is_reversible() {
    let radius = HOME_RADIUS + 100_000.0;
    let position = DVec3::X * radius;
    let velocity = DVec3::Y * (HOME_MU * 4.5 / radius).sqrt();
    let (later_position, later_velocity) =
        propagate_universal(position, velocity, HOME_MU, 86_400.0);
    let (restored_position, restored_velocity) =
        propagate_universal(later_position, later_velocity, HOME_MU, -86_400.0);

    let restored = |a: f64, b: f64, epsilon: f64| relatively_close(a, b, epsilon, f64::EPSILON);
    assert!(restored(restored_position.x, position.x, 1e-5));
    assert!(restored(restored_position.y, position.y, 1e-5));
    assert!(restored(restored_velocity.x, velocity.x, 2e-8));
    assert!(restored(restored_velocity.y, velocity.y, 2e-8));
}

#[test]
fn sampled_hyperbolic_trajectory_keeps_moving_outward() {
    let radius = HOME_RADIUS + 100_000.0;
    let position = DVec3::X * radius;
    let velocity = DVec3::Y * (HOME_MU * 4.5 / radius).sqrt();
    let points = sample_trajectory(position, velocity, HOME_MU, HOME_RADIUS, 160);

    assert_eq!(points.len(), 161);
    assert!(points.iter().all(|point| point.is_finite()));
    assert!(points
        .windows(2)
        .all(|pair| pair[1].length() >= pair[0].length()));
}

#[test]
fn root_frames_are_undone() {
    let (position, velocity) = (DVec3::new(1.0, 2.0, 3.0), DVec3::new(4.0, 5.0, 6.0));
    let (far_position, far_velocity) = vessel_root_state("selene", position, velocity, 12.0);
    let (near_position, near_velocity) =
        root_to_body_state("selene", far_position, far_velocity, 12.0);
    assert!((near_position - position).length() < 1e-5);
    assert!((near_velocity - velocity).length() < 1e-9);
}

#[test]
fn launchpad_surface_speed_is_zero_but_orbit_speed_is_not() {
    let vessel = stock_vessel(&PartCatalog::default());
    assert!(reference_velocity(&vessel, NavReference::Surface).length() < 1.0e-9);
    assert!(reference_velocity(&vessel, NavReference::Orbit).length() > 1.0);
    let frame = navigation_frame(&vessel, NavReference::Surface);
    assert!(frame.prograde.is_none());
    assert!(frame.normal.is_none());
}

#[test]
fn projection_uses_local_y_as_forward_and_local_z_as_screen_up() {
    let attitude = DQuat::IDENTITY;
    assert_eq!(project_direction(attitude, DVec3::Y), Some(DVec2::ZERO));
    assert_eq!(project_direction(attitude, DVec3::X), Some(DVec2::X));
    assert_eq!(project_direction(attitude, DVec3::Z), Some(-DVec2::Y));
    assert_eq!(project_direction(attitude, -DVec3::Y), None);

    let pitched = DQuat::from_rotation_x(0.4);
    let center = project_direction(pitched, pitched * DVec3::Y).unwrap();
    assert!(close(center.x, 0.0, 1.0e-12));
    assert!(close(center.y, 0.0, 1.0e-12));
}

#[test]
fn navigation_axes_are_orthogonal() {
    let mut vessel = stock_vessel(&PartCatalog::default());
    vessel.position = [1_000_000.0, 0.0, 0.0].map(num);
    vessel.velocity = [0.0, 1_000.0, 0.0].map(num);
    let frame = navigation_frame(&vessel, NavReference::Orbit);
    let prograde = frame.prograde.unwrap();
    let normal = frame.normal.unwrap();
    assert!(close(frame.radial.dot(prograde), 0.0, 1.0e-12));
    assert!(close(frame.radial.dot(normal), 0.0, 1.0e-12));
    assert!(close(prograde.dot(normal), 0.0, 1.0e-12));
}

#[test]
fn maneuver_marker_uses_the_planned_delta_v_direction() {
    let mut vessel = stock_vessel(&PartCatalog::default());
    vessel.position = [1_000_000.0, 0.0, 0.0].map(num);
    vessel.velocity = [0.0, 1_000.0, 0.0].map(num);
    vessel.maneuver = Some(ManeuverNode {
        ut: num(10.0),
        prograde: num(25.0),
        normal: num(0.0),
        radial: num(0.0),
    });
    let direction = maneuver_direction(&vessel, 10.0).unwrap();
    assert!(close(direction.x, 0.0, 1.0e-12));
    assert!(close(direction.y, 1.0, 1.0e-12));
    assert!(close(direction.z, 0.0, 1.0e-12));

    vessel.maneuver.as_mut().unwrap().prograde = num(0.0);
    assert!(maneuver_direction(&vessel, 10.0).is_none());
}

#[test]
fn tangent_basis_stays_finite_at_the_poles() {
    for radial in [DVec3::Z, -DVec3::Z] {
        let (north, east) = tangent_basis(radial);
        assert!(north.is_finite());
        assert!(east.is_finite());
        assert!(close(north.length(), 1.0, 1.0e-12));
        assert!(close(east.length(), 1.0, 1.0e-12));
        assert!(close(north.dot(east), 0.0, 1.0e-12));
    }
}

#[test]
fn default_guidance_reaches_a_balanced_orbit_at_sixty_hertz() {
    let catalog = PartCatalog::default();
    let mut vessel = stock_vessel(&catalog);
    let mut runtime = ScriptRuntime::default();
    runtime.load(EXAMPLE_SCRIPT.into(), None).unwrap();

    let dt = 1.0 / 60.0;
    let mut ut = 0.0;
    let mut current = telemetry(&vessel, &catalog, ut, 0.0);
    let mut booster_separation = None;
    let mut core_fuel_at_separation = None;
    let mut orbit_time = None;
    let mut max_twr = 0.0_f64;
    let mut max_dynamic_pressure = 0.0_f64;
    let fuel_of = |vessel: &Vessel, id: u64| {
        vessel
            .parts
            .iter()
            .find(|part| part.instance.instance_id == id)
            .map(|part| float(part.fuel))
    };

    for _ in 0..(300 * 60) {
        let before = telemetry(&vessel, &catalog, ut, float(current.thrust));
        let commands = runtime.tick(&before);
        let prior_stage = vessel.next_stage;
        crabby_space::control::apply_commands(
            &mut vessel,
            &catalog,
            &commands,
            &split(&catalog),
            &place,
        );
        if prior_stage == 1 && vessel.next_stage == 2 {
            booster_separation = Some(ut);
            core_fuel_at_separation = fuel_of(&vessel, 8);
        }

        current = step_vessel(&mut vessel, &catalog, dt, ut);
        ut += dt;
        max_twr = max_twr.max(float(current.twr));
        max_dynamic_pressure = max_dynamic_pressure.max(float(current.dynamic_pressure));
        if float(current.orbit.periapsis) >= 75_000.0 {
            orbit_time.get_or_insert(ut);
        }
        if float(current.orbit.periapsis) > 76_000.0 && float(vessel.controls.throttle) == 0.0 {
            break;
        }
    }

    assert!(runtime.active, "guidance failed: {:?}", runtime.last_error);
    let separation = booster_separation.expect("boosters never separated");
    assert!(
        (65.0..=72.0).contains(&separation),
        "separated at {separation}"
    );
    assert!(
        core_fuel_at_separation.is_some_and(|fuel| fuel > 1_000.0),
        "core tank was empty at booster separation: {core_fuel_at_separation:?}"
    );
    assert!(max_twr <= 3.3, "maximum TWR was {max_twr}");
    assert!(
        (35_000.0..=55_000.0).contains(&max_dynamic_pressure),
        "maximum dynamic pressure was {max_dynamic_pressure} Pa"
    );
    let orbit_time = orbit_time.expect("guidance did not reach orbit");
    assert!(orbit_time < 300.0, "orbit took {orbit_time} seconds");
    assert!(float(current.orbit.periapsis) >= 75_000.0);
    assert!(
        float(current.orbit.apoapsis) <= 120_000.0,
        "apoapsis was {}",
        float(current.orbit.apoapsis)
    );
    let upper_fuel = fuel_of(&vessel, 4).unwrap_or(0.0);
    assert!(upper_fuel > 0.0, "upper stage exhausted its tank");
    assert!(float(current.altitude) > HOME_ATMOSPHERE);
}
