use oort_control::guidance::{lead_predict, proportional_turn, seek, turn_to};
use oort_control::homing::pursuit;
use oort_control::torpedo::torpedo_steer;
use oort_control::vec2::Vec2;

#[test]
fn turn_to_on_target_at_rest_applies_no_torque() {
    assert_eq!(turn_to(0, 0, 0, 0, 1000), 0);
    assert_eq!(turn_to(250_000, 0, 250_000, 0, 1000), 0);
}

#[test]
fn turn_to_accelerates_toward_target() {
    assert_eq!(turn_to(0, 0, 90_000, 0, 1000), 1000);
    assert_eq!(turn_to(0, 0, -90_000, 0, 1000), -1000);
}

#[test]
fn turn_to_brakes_before_overshoot() {
    assert_eq!(turn_to(0, 10_000, 1000, 0, 1000), -1000);
}

#[test]
fn proportional_turn_has_gain_ten() {
    assert_eq!(proportional_turn(0, 1000), 10_000);
    assert_eq!(proportional_turn(0, 719_000), -10_000);
}

#[test]
fn lead_of_stationary_target_is_its_offset() {
    assert_eq!(lead_predict(Vec2::new(1234, -567), Vec2::new(0, 0), 1000), Some(Vec2::new(1234, -567)));
}

#[test]
fn lead_of_moving_target() {
    assert_eq!(lead_predict(Vec2::new(1000, 0), Vec2::new(0, 100), 1000), Some(Vec2::new(1000, 100)));
    assert_eq!(lead_predict(Vec2::new(3000, 4000), Vec2::new(-100, 50), 1000), Some(Vec2::new(2507, 4246)));
    assert_eq!(lead_predict(Vec2::new(1000, 0), Vec2::new(2000, 0), 1000), Some(Vec2::new(15000, 0)));
}

#[test]
fn lead_of_outrunning_target_leaves_range() {
    assert_eq!(lead_predict(Vec2::new(1 << 40, 0), Vec2::new(1 << 40, 0), 1), None);
}

#[test]
fn seek_straight_ahead() {
    let z = Vec2::new(0, 0);
    assert_eq!(seek(Vec2::new(1000, 0), z, z, z), Some(Vec2::new(400, 0)));
    assert_eq!(seek(Vec2::new(3000, 4000), Vec2::new(10, -20), z, z), Some(Vec2::new(240, 320)));
}

#[test]
fn seek_turns_against_line_of_sight_rotation() {
    let z = Vec2::new(0, 0);
    assert_eq!(seek(Vec2::new(1000, 0), Vec2::new(-50, 100), z, z), Some(Vec2::new(397, 79)));
}

#[test]
fn seek_keeps_thrust_toward_target_under_large_lateral_command() {
    let z = Vec2::new(0, 0);
    let a = seek(Vec2::new(1, 0), Vec2::new(1000, 1000), z, z).unwrap();
    assert_eq!(a, Vec2::new(1, 400));
    assert!(a.x * 1 + a.y * 0 > 0);
}

#[test]
fn seek_at_target_makes_no_correction() {
    let p = Vec2::new(500, 500);
    assert_eq!(seek(p, Vec2::new(3, 3), p, Vec2::new(0, 0)), None);
}

#[test]
fn seek_uses_relative_state() {
    assert_eq!(
        seek(Vec2::new(1100, 200), Vec2::new(5, 5), Vec2::new(100, 200), Vec2::new(5, 5)),
        Some(Vec2::new(400, 0))
    );
}

#[test]
fn pursuit_values() {
    assert_eq!(pursuit(Vec2::new(1000, 0), Vec2::new(0, 0), 200), Some(Vec2::new(200, 0)));
    assert_eq!(pursuit(Vec2::new(1000, 0), Vec2::new(-50, 100), 200), Some(Vec2::new(141, 141)));
    assert_eq!(pursuit(Vec2::new(300, 400), Vec2::new(5, -7), 1000), Some(Vec2::new(717, 697)));
    assert_eq!(pursuit(Vec2::new(0, 0), Vec2::new(5, -7), 1000), None);
}

#[test]
fn torpedo_steer_values() {
    let t = Vec2::new(1000, 0);
    assert_eq!(torpedo_steer(t, t, Vec2::new(0, 0), 100), Some(Vec2::new(100, 0)));
    let d = Vec2::new(3000, 4000);
    assert_eq!(torpedo_steer(d, d, Vec2::new(-10, 20), 100), Some(Vec2::new(56, 82)));
    assert_eq!(torpedo_steer(Vec2::new(0, 0), d, Vec2::new(0, 0), 100), None);
}
