use oort_control::angle::{angle_diff, normalize_angle, HALF_TURN, TURN};
use oort_control::message::{make_orders, parse_orders};
use oort_control::vec2::{isqrt, Vec2};

#[test]
fn length_rounds_down() {
    assert_eq!(Vec2::new(3, 4).length(), 5);
    assert_eq!(Vec2::new(1, 1).length(), 1);
    assert_eq!(Vec2::new(0, 0).length(), 0);
    assert_eq!(Vec2::new(-1000, 0).length(), 1000);
}

#[test]
fn isqrt_floor_values() {
    assert_eq!(isqrt(0), 0);
    assert_eq!(isqrt(15), 3);
    assert_eq!(isqrt(16), 4);
    assert_eq!(isqrt(1 << 80), 1 << 40);
}

#[test]
fn dot_cross_and_arithmetic() {
    let a = Vec2::new(3, 4);
    let b = Vec2::new(-2, 5);
    assert_eq!(a.dot(b), 14);
    assert_eq!(a.cross(b), 23);
    assert_eq!(a.add(b), Vec2::new(1, 9));
    assert_eq!(a.sub(b), Vec2::new(5, -1));
    assert_eq!(a.length_squared(), 25);
}

#[test]
fn angle_diff_takes_shortest_turn() {
    assert_eq!(angle_diff(0, 90_000), 90_000);
    assert_eq!(angle_diff(0, 630_000), -90_000);
    assert_eq!(angle_diff(700_000, 10_000), 30_000);
    assert_eq!(angle_diff(-TURN, 5), 5);
    assert_eq!(angle_diff(123, 123), 0);
}

#[test]
fn angle_diff_half_turn_is_positive() {
    assert_eq!(angle_diff(0, HALF_TURN), HALF_TURN);
    assert_eq!(angle_diff(HALF_TURN, 0), HALF_TURN);
}

#[test]
fn normalize_wraps_negative_angles() {
    assert_eq!(normalize_angle(-1), TURN - 1);
    assert_eq!(normalize_angle(TURN), 0);
    assert_eq!(normalize_angle(-TURN - 5), TURN - 5);
}

#[test]
fn orders_encode_position_then_velocity() {
    let m = make_orders(Vec2::new(1, 2), Vec2::new(3, 4));
    assert_eq!(m, [1, 2, 3, 4]);
}

#[test]
fn orders_decode_and_default() {
    assert_eq!(parse_orders(Some([5, 6, 7, 8])), (Vec2::new(5, 6), Vec2::new(7, 8)));
    assert_eq!(parse_orders(None), (Vec2::new(0, 0), Vec2::new(0, 0)));
}

#[test]
fn orders_round_trip() {
    let p = Vec2::new(-1200, 4500);
    let v = Vec2::new(30, -7);
    assert_eq!(parse_orders(Some(make_orders(p, v))), (p, v));
}
