use oort_control::ship::{plan_fire, ShipClass};
use oort_control::vec2::Vec2;
use oort_control::weapons::{lateral_offset, should_explode, volley, within_radius_now_or_next, MountOrder};

#[test]
fn detonates_when_inside_proximity_next_tick() {
    assert!(should_explode(Vec2::new(10, 0), Vec2::new(0, 0), 30, 100));
    assert!(should_explode(Vec2::new(35, 0), Vec2::new(-600, 0), 30, 100));
}

#[test]
fn holds_while_far_and_closing() {
    assert!(!should_explode(Vec2::new(1000, 0), Vec2::new(-600, 0), 30, 100));
    assert!(!should_explode(Vec2::new(50, 0), Vec2::new(-600, 0), 30, 100));
    assert!(!should_explode(Vec2::new(40, 0), Vec2::new(-600, 0), 30, 100));
}

#[test]
fn detonates_after_closest_approach() {
    assert!(should_explode(Vec2::new(50, 0), Vec2::new(600, 0), 30, 100));
    assert!(!should_explode(Vec2::new(150, 0), Vec2::new(600, 0), 30, 100));
}

#[test]
fn kill_radius_now_or_next() {
    assert!(within_radius_now_or_next(Vec2::new(20, 0), Vec2::new(0, 0), 25));
    assert!(within_radius_now_or_next(Vec2::new(30, 0), Vec2::new(-600, 0), 25));
    assert!(!within_radius_now_or_next(Vec2::new(30, 0), Vec2::new(600, 0), 25));
}

#[test]
fn lateral_offset_is_perpendicular() {
    assert_eq!(lateral_offset(Vec2::new(1000, 0)), Vec2::new(0, 15));
    assert_eq!(lateral_offset(Vec2::new(3000, 4000)), Vec2::new(-12, 9));
    assert_eq!(lateral_offset(Vec2::new(0, -2000)), Vec2::new(15, 0));
    assert_eq!(lateral_offset(Vec2::new(0, 0)), Vec2::new(0, 0));
}

#[test]
fn frigate_volley_at_stationary_target() {
    let r = volley(Vec2::new(1000, 0));
    assert_eq!(
        r,
        vec![
            MountOrder::Fire { mount: 0 },
            MountOrder::Aim { mount: 1, at: Vec2::new(1000, -15) },
            MountOrder::Fire { mount: 1 },
            MountOrder::Aim { mount: 2, at: Vec2::new(1000, 15) },
            MountOrder::Fire { mount: 2 },
        ]
    );
}

#[test]
fn fighter_fires_gun_only_in_range() {
    assert_eq!(
        plan_fire(ShipClass::Fighter, ShipClass::Fighter, Vec2::new(1000, 0)),
        vec![MountOrder::Fire { mount: 0 }, MountOrder::Fire { mount: 1 }]
    );
    assert_eq!(
        plan_fire(ShipClass::Fighter, ShipClass::Fighter, Vec2::new(6000, 0)),
        vec![MountOrder::Fire { mount: 1 }]
    );
}

#[test]
fn cruiser_adds_heavy_launch_at_large_ships() {
    assert_eq!(
        plan_fire(ShipClass::Cruiser, ShipClass::Frigate, Vec2::new(1000, 0)),
        vec![
            MountOrder::Aim { mount: 0, at: Vec2::new(1000, 0) },
            MountOrder::Fire { mount: 0 },
            MountOrder::Fire { mount: 1 },
            MountOrder::Fire { mount: 2 },
            MountOrder::Fire { mount: 3 },
        ]
    );
    assert_eq!(
        plan_fire(ShipClass::Cruiser, ShipClass::Fighter, Vec2::new(6000, 0)),
        vec![MountOrder::Fire { mount: 1 }, MountOrder::Fire { mount: 2 }]
    );
}

#[test]
fn missiles_have_no_mounts() {
    assert!(plan_fire(ShipClass::Missile, ShipClass::Frigate, Vec2::new(1000, 0)).is_empty());
}
