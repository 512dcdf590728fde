use crabby_space::craft::stock_craft;
use crabby_space::debug_state::{accept_patch, AppMode, DebugGameState};
use crabby_space::json::merge_patch;
use crabby_space::mission::{MissionProgress, SimulationClock};
use crabby_space::number::Real;
use crabby_space::parts::PartCatalog;
use crabby_space::vessel::Vessel;
use serde_json::Value;

fn num(value: f64) -> Real {
    Real::of(value.to_bits())
}

fn value(text: &str) -> Value {
    serde_json::from_str(text).unwrap()
}

fn patched(target: &str, patch: &str) -> Value {
    let mut target = value(target);
    merge_patch(&mut target, value(patch));
    target
}

fn squared(attitude: [Real; 4]) -> Real {
    num(attitude
        .iter()
        .map(|x| f64::from_bits(x.bits) * f64::from_bits(x.bits))
        .sum())
}

fn state(vessel: Option<Vessel>) -> DebugGameState {
    DebugGameState::capture(
        AppMode::default(),
        &SimulationClock::default(),
        &stock_craft(),
        &vessel,
        &MissionProgress::default(),
        &"hello".to_string(),
    )
}

fn flight() -> DebugGameState {
    state(Some(Vessel::from_blueprint(
        &stock_craft(),
        &PartCatalog::default(),
    )))
}

#[test]
fn merge_patch_updates_nested_values_and_removes_nulls() {
    let mut clock = serde_json::Map::new();
    clock.insert("paused".into(), Value::Bool(false));
    clock.insert("warp_index".into(), Value::from(1));
    let mut target_members = serde_json::Map::new();
    target_members.insert("clock".into(), Value::Object(clock));
    target_members.insert("notice".into(), Value::from("old"));
    let mut target = Value::Object(target_members);

    let mut clock_patch = serde_json::Map::new();
    clock_patch.insert("paused".into(), Value::Bool(true));
    let mut patch = serde_json::Map::new();
    patch.insert("clock".into(), Value::Object(clock_patch));
    patch.insert("notice".into(), Value::Null);
    merge_patch(&mut target, Value::Object(patch));

    let mut expected_clock = serde_json::Map::new();
    expected_clock.insert("paused".into(), Value::Bool(true));
    expected_clock.insert("warp_index".into(), Value::from(1));
    let mut expected = serde_json::Map::new();
    expected.insert("clock".into(), Value::Object(expected_clock));
    assert_eq!(target, Value::Object(expected));
}

#[test]
fn merge_patch_follows_the_standard_examples() {
    for (target, patch, result) in [
        (r#"{"a":"b"}"#, r#"{"a":"c"}"#, r#"{"a":"c"}"#),
        (r#"{"a":"b"}"#, r#"{"b":"c"}"#, r#"{"a":"b","b":"c"}"#),
        (r#"{"a":"b"}"#, r#"{"a":null}"#, r#"{}"#),
        (r#"{"a":"b","b":"c"}"#, r#"{"a":null}"#, r#"{"b":"c"}"#),
        (r#"{"a":["b"]}"#, r#"{"a":"c"}"#, r#"{"a":"c"}"#),
        (r#"{"a":"c"}"#, r#"{"a":["b"]}"#, r#"{"a":["b"]}"#),
        (
            r#"{"a":{"b":"c"}}"#,
            r#"{"a":{"b":"d","c":null}}"#,
            r#"{"a":{"b":"d"}}"#,
        ),
        (r#"{"a":[{"b":"c"}]}"#, r#"{"a":[1]}"#, r#"{"a":[1]}"#),
        (r#"["a","b"]"#, r#"["c","d"]"#, r#"["c","d"]"#),
        (r#"{"a":"b"}"#, r#"["c"]"#, r#"["c"]"#),
        (r#"{"a":"foo"}"#, "null", "null"),
        (r#"{"a":"foo"}"#, r#""bar""#, r#""bar""#),
        (r#"{"e":null}"#, r#"{"a":1}"#, r#"{"e":null,"a":1}"#),
        (r#"[1,2]"#, r#"{"a":"b","c":null}"#, r#"{"a":"b"}"#),
        ("{}", r#"{"a":{"bb":{"ccc":null}}}"#, r#"{"a":{"bb":{}}}"#),
    ] {
        assert_eq!(patched(target, patch), value(result), "{target} {patch}");
    }
}

#[test]
fn a_patch_twice_is_a_patch_once() {
    let patch = r#"{"a":{"b":null,"c":{"d":1}},"e":2}"#;
    let once = patched(r#"{"a":{"b":1,"x":2},"e":{"f":3}}"#, patch);
    let mut twice = once.clone();
    merge_patch(&mut twice, value(patch));
    assert_eq!(twice, once);
}

#[test]
fn validation_rejects_an_out_of_range_warp_index() {
    let mut state = state(None);
    state.clock.warp_index = SimulationClock::WARP_RATES.len();
    assert!(state.validate(squared).unwrap_err().contains("warp_index"));
}

#[test]
fn validation_names_what_is_wrong_first() {
    assert_eq!(state(None).validate(squared), Ok(()));
    assert_eq!(flight().validate(squared), Ok(()));
    let refused = |change: &dyn Fn(&mut DebugGameState)| {
        let mut state = flight();
        change(&mut state);
        state.validate(squared).unwrap_err()
    };
    let time = "clock.universal_time must be a finite, non-negative number";
    assert_eq!(refused(&|s| s.clock.universal_time = num(-1.0)), time);
    assert_eq!(refused(&|s| s.clock.universal_time = num(f64::INFINITY)), time);
    assert_eq!(refused(&|s| s.clock.universal_time = num(f64::NAN)), time);
    assert_eq!(
        refused(&|s| s.clock.warp_index = 8),
        "clock.warp_index must be between 0 and 7"
    );
    let vessel = |change: &dyn Fn(&mut Vessel)| {
        refused(&|s: &mut DebugGameState| change(s.vessel.as_mut().unwrap()))
    };
    assert_eq!(
        vessel(&|v| v.primary_body = "atlantis".into()),
        "vessel.primary_body is unknown: atlantis"
    );
    assert_eq!(
        vessel(&|v| v.next_stage = 5),
        "vessel.next_stage cannot exceed vessel.stages.length"
    );
    assert_eq!(
        vessel(&|v| v.controls.throttle = num(1.01)),
        "vessel.controls.throttle is outside its valid range"
    );
    assert_eq!(
        vessel(&|v| v.controls.pitch = num(-1.01)),
        "vessel.controls.pitch is outside its valid range"
    );
    assert_eq!(
        vessel(&|v| v.controls.yaw = num(f64::NAN)),
        "vessel.controls.yaw is outside its valid range"
    );
    assert_eq!(
        vessel(&|v| v.controls.roll = num(2.0)),
        "vessel.controls.roll is outside its valid range"
    );
    assert_eq!(
        vessel(&|v| v.attitude = [num(0.0); 4]),
        "vessel.attitude must be a non-zero quaternion"
    );
}

#[test]
fn a_state_is_captured_whole() {
    let state = flight();
    assert_eq!(state.mode, AppMode::Menu);
    assert_eq!(state.notice, "hello");
    assert_eq!(state.craft.parts.len(), 15);
    assert_eq!(state.vessel.unwrap().parts.len(), 15);
}

#[test]
fn a_patch_is_taken_whole_or_not_at_all() {
    let mut live = state(None);
    let mut patch = flight();
    patch.mode = AppMode::Flight;
    patch.notice = "patched".into();
    assert_eq!(accept_patch(&mut live, Ok(patch), squared), Ok(()));
    assert_eq!(live.mode, AppMode::Flight);
    assert_eq!(live.notice, "patched");
    assert_eq!(live.vessel.as_ref().unwrap().parts.len(), 15);

    let mut faulty = state(None);
    faulty.notice = "never seen".into();
    faulty.clock.warp_index = 8;
    assert_eq!(
        accept_patch(&mut live, Ok(faulty), squared),
        Err("clock.warp_index must be between 0 and 7".into())
    );
    assert_eq!(live.notice, "patched");
    assert!(live.vessel.is_some());
    assert_eq!(
        accept_patch(&mut live, Err("missing field `clock`".into()), squared),
        Err("patch does not produce a valid game state: missing field `clock`".into())
    );
    assert_eq!(live.notice, "patched");
    assert_eq!(live.mode, AppMode::Flight);
}
