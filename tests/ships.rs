use oort_control::dispatch::{Draws, TickOrders};
use oort_control::radar::{Radar, MAX_RADAR_WIDTH, MIN_RADAR_WIDTH};
use oort_control::seeker;
use oort_control::ship::{Contact, RadarAim, Ship, ShipClass, WorldView};
use oort_control::tutorial;
use oort_control::vec2::Vec2;
use oort_control::weapons::MountOrder;

fn view(class: ShipClass, tick: u32) -> WorldView {
    WorldView { position: Vec2::new(0, 0), velocity: Vec2::new(0, 0), tick, class }
}

fn contact(x: i64, y: i64, class: ShipClass) -> Contact {
    Contact { position: Vec2::new(x, y), velocity: Vec2::new(0, 0), class }
}

#[test]
fn new_ship_takes_handed_off_target() {
    let s = Ship::new(Some([10, 20, 30, 40]), 7);
    assert_eq!(s.target_position, Vec2::new(10, 20));
    assert_eq!(s.target_velocity, Vec2::new(30, 40));
    assert_eq!(s.last_contact_tick, 7);
    let s = Ship::new(None, 0);
    assert_eq!(s.target_position, Vec2::new(0, 0));
}

#[test]
fn fighter_engages_contact_in_range() {
    let mut s = Ship::new(None, 0);
    let o = s.ship_tick(view(ShipClass::Fighter, 1), Some(contact(1000, 0, ShipClass::Fighter)), 5, Vec2::new(4000, 0));
    assert_eq!(o.mounts, vec![MountOrder::Fire { mount: 0 }, MountOrder::Fire { mount: 1 }]);
    assert_eq!(o.message, Some([1000, 0, 0, 0]));
    assert_eq!(o.radar_aim, RadarAim::Toward(Vec2::new(1000, 0)));
    assert_eq!(o.radar_width, None);
    assert_eq!(o.accelerate, Vec2::new(1000, 0));
    assert_eq!(o.face, Vec2::new(1000, 0));
    assert_eq!(s.target_position, Vec2::new(1000, 0));
}

#[test]
fn frigate_fires_three_mounts_at_stationary_target() {
    let mut s = Ship::new(None, 0);
    let o = s.ship_tick(view(ShipClass::Frigate, 1), Some(contact(3000, 0, ShipClass::Fighter)), 5, Vec2::new(4000, 0));
    assert_eq!(
        o.mounts,
        vec![
            MountOrder::Fire { mount: 0 },
            MountOrder::Aim { mount: 1, at: Vec2::new(3000, -15) },
            MountOrder::Fire { mount: 1 },
            MountOrder::Aim { mount: 2, at: Vec2::new(3000, 15) },
            MountOrder::Fire { mount: 2 },
            MountOrder::Fire { mount: 3 },
        ]
    );
}

#[test]
fn ship_brakes_near_seen_target() {
    let mut s = Ship::new(None, 0);
    let v = WorldView { position: Vec2::new(0, 0), velocity: Vec2::new(10, 5), tick: 3, class: ShipClass::Fighter };
    let o = s.ship_tick(v, Some(contact(500, 0, ShipClass::Fighter)), 5, Vec2::new(4000, 0));
    assert_eq!(o.accelerate, Vec2::new(-10, -5));
}

#[test]
fn unknown_contact_is_ignored_and_waypoint_replaced() {
    let mut s = Ship::new(Some([50, 0, 0, 0]), 0);
    let o = s.ship_tick(view(ShipClass::Cruiser, 6), Some(contact(800, 0, ShipClass::Unknown)), 1234, Vec2::new(4000, 0));
    assert!(o.mounts.is_empty());
    assert_eq!(o.message, None);
    assert_eq!(o.radar_aim, RadarAim::Heading(1234));
    assert_eq!(o.radar_width, Some(MAX_RADAR_WIDTH));
    assert_eq!(s.target_position, Vec2::new(4000, 0));
    assert_eq!(o.accelerate, Vec2::new(4000, 0));
}

#[test]
fn missile_follows_contact() {
    let mut s = Ship::new(Some([1000, 0, 0, 0]), 0);
    let mut r = Radar::new();
    let o = s.missile_tick(view(ShipClass::Missile, 1), Some(contact(1000, 0, ShipClass::Fighter)), None, &mut r, 200);
    assert!(!o.explode);
    assert_eq!(o.accelerate, Some(Vec2::new(200, 0)));
    assert_eq!(o.radar_toward, Vec2::new(1000, 0));
    assert_eq!(r.width(), 648_000);
}

#[test]
fn missile_detonates_at_target() {
    let mut s = Ship::new(None, 0);
    let mut r = Radar::new();
    let o = s.missile_tick(view(ShipClass::Missile, 1), Some(contact(10, 0, ShipClass::Fighter)), None, &mut r, 200);
    assert!(o.explode);
    assert_eq!(o.accelerate, None);
}

#[test]
fn missile_takes_nearby_handoff_only() {
    let mut s = Ship::new(Some([1000, 0, 0, 0]), 0);
    let mut r = Radar::new();
    s.missile_tick(view(ShipClass::Missile, 1), None, Some([1050, 0, 0, 0]), &mut r, 200);
    assert_eq!(s.target_position, Vec2::new(1050, 0));
    assert_eq!(r.width(), MIN_RADAR_WIDTH);
    let mut s = Ship::new(Some([1000, 0, 0, 0]), 0);
    let mut r = Radar::new();
    s.missile_tick(view(ShipClass::Missile, 1), None, Some([5000, 0, 0, 0]), &mut r, 200);
    assert_eq!(s.target_position, Vec2::new(1000, 0));
    assert_eq!(r.width(), 45_000);
}

#[test]
fn missile_opens_beam_in_terminal_phase() {
    let mut s = Ship::new(None, 0);
    let mut r = Radar::new();
    s.missile_tick(view(ShipClass::Missile, 1), Some(contact(250, 0, ShipClass::Fighter)), None, &mut r, 200);
    assert_eq!(r.width(), 120_000);
}

#[test]
fn torpedo_hunts_frigate() {
    let mut s = Ship::new(Some([1000, 0, 0, 0]), 0);
    let mut r = Radar::new();
    let o = s.torpedo_tick(view(ShipClass::Torpedo, 600), Some(contact(1000, 0, ShipClass::Frigate)), 360_000, &mut r, 100);
    assert_eq!(o.radar_offset, 360_000);
    assert_eq!(o.radar_toward, Vec2::new(1000, 0));
    assert_eq!(r.width(), MIN_RADAR_WIDTH);
    assert!(!o.explode);
    assert_eq!(o.accelerate, Some(Vec2::new(100, 0)));
    assert_eq!(s.last_contact_tick, 600);
}

#[test]
fn torpedo_ignores_fighter_and_coasts() {
    let mut s = Ship::new(Some([1000, 0, 0, 0]), 0);
    let mut r = Radar::new();
    let v = WorldView { position: Vec2::new(0, 0), velocity: Vec2::new(600, 0), tick: 10, class: ShipClass::Torpedo };
    let o = s.torpedo_tick(v, Some(contact(1000, 0, ShipClass::Fighter)), -60, &mut r, 100);
    assert_eq!(s.target_position, Vec2::new(1010, 0));
    assert_eq!(s.target_velocity, Vec2::new(600, 0));
    assert_eq!(s.last_contact_tick, 0);
    assert_eq!(o.radar_offset, -1);
    assert_eq!(o.accelerate, Some(Vec2::new(50, 0)));
}

#[test]
fn torpedo_detonates_near_frigate() {
    let mut s = Ship::new(None, 0);
    let mut r = Radar::new();
    let o = s.torpedo_tick(view(ShipClass::Torpedo, 1), Some(contact(50, 0, ShipClass::Frigate)), 0, &mut r, 100);
    assert!(o.explode);
    assert_eq!(r.width(), 120_000);
}

#[test]
fn seeker_homes_and_tracks() {
    let mut m = seeker::Ship::new();
    let mut r = Radar::new();
    let o = m.tick(view(ShipClass::Missile, 1), Some(contact(1000, 0, ShipClass::Fighter)), &mut r);
    assert_eq!(o.accelerate, Some(Vec2::new(400, 0)));
    assert!(!o.explode);
    assert_eq!(o.radar_toward, Some(Vec2::new(1000, 0)));
    assert_eq!(r.width(), MIN_RADAR_WIDTH);
    let o = m.tick(view(ShipClass::Missile, 2), Some(contact(20, 0, ShipClass::Fighter)), &mut r);
    assert!(o.explode);
}

#[test]
fn seeker_searches_without_contact() {
    let mut m = seeker::Ship::new();
    let mut r = Radar::new();
    r.set_width(30_000);
    let o = m.tick(view(ShipClass::Missile, 1), None, &mut r);
    assert_eq!(r.width(), MAX_RADAR_WIDTH);
    assert_eq!(o.accelerate, None);
    assert!(!o.explode);
}

#[test]
fn tutorial_ship_turns_and_fires() {
    let mut t = tutorial::Ship::new();
    let o = t.tick(0, 90_000);
    assert_eq!(o.turn, 90_000);
    assert_eq!(o.fire, 0);
}

#[test]
fn tick_dispatches_by_class() {
    let draws = Draws { sweep_heading: 7, waypoint: Vec2::new(4000, 0), jitter: 0 };
    let mut r = Radar::new();
    let mut s = Ship::new(None, 0);
    let o = s.tick(view(ShipClass::Missile, 1), None, None, draws, &mut r, 100);
    assert!(matches!(o, TickOrders::Missile(_)));
    let o = s.tick(view(ShipClass::Torpedo, 1), None, None, draws, &mut r, 100);
    assert!(matches!(o, TickOrders::Torpedo(_)));
    let o = s.tick(view(ShipClass::Frigate, 1), None, None, draws, &mut r, 100);
    assert!(matches!(o, TickOrders::Ship(_)));
}

#[test]
fn cruiser_pencil_width_is_clamped_in_orders() {
    let mut s = Ship::new(None, 0);
    let o = s.ship_tick(view(ShipClass::Cruiser, 7), None, 0, Vec2::new(4000, 0));
    assert_eq!(o.radar_width, Some(MIN_RADAR_WIDTH));
}

#[test]
fn dispatch_returns_the_handlers_orders() {
    let draws = Draws { sweep_heading: 7, waypoint: Vec2::new(4000, 0), jitter: 0 };
    let c = Some(contact(1000, 0, ShipClass::Fighter));
    let mut a = Ship::new(Some([1000, 0, 0, 0]), 0);
    let mut b = a;
    let mut ra = Radar::new();
    let mut rb = Radar::new();
    let direct = a.missile_tick(view(ShipClass::Missile, 1), c, None, &mut ra, 200);
    match b.tick(view(ShipClass::Missile, 1), c, None, draws, &mut rb, 200) {
        TickOrders::Missile(m) => assert_eq!(m, direct),
        _ => panic!("missile policy expected"),
    }
    assert_eq!(a, b);
    assert_eq!(ra.width(), rb.width());
    let mut f = Ship::new(Some([1000, 0, 0, 0]), 0);
    match f.tick(view(ShipClass::Fighter, 1), None, None, draws, &mut rb, 200) {
        TickOrders::Ship(o) => {
            assert_eq!(o.radar_aim, RadarAim::Heading(7));
            assert_eq!(o.accelerate, Vec2::new(1000, 0));
        },
        _ => panic!("ship policy expected"),
    }
}
