use oort_control::radar::{tracking_width, Radar, RadarCommand, MAX_RADAR_WIDTH, MIN_RADAR_WIDTH};

#[test]
fn new_radar_is_full_circle() {
    let r = Radar::new();
    assert_eq!(r.width(), MAX_RADAR_WIDTH);
    assert_eq!(r.heading(), 0);
}

#[test]
fn width_requests_are_clamped() {
    let mut r = Radar::new();
    r.set_width(1);
    assert_eq!(r.width(), MIN_RADAR_WIDTH);
    r.set_width(1_000_000_000);
    assert_eq!(r.width(), MAX_RADAR_WIDTH);
    r.set_width(50_000);
    assert_eq!(r.width(), 50_000);
    r.set_width(-5);
    assert_eq!(r.width(), MIN_RADAR_WIDTH);
}

#[test]
fn tracking_width_narrows_with_distance() {
    assert_eq!(tracking_width(0), MAX_RADAR_WIDTH);
    assert_eq!(tracking_width(10), MAX_RADAR_WIDTH);
    assert_eq!(tracking_width(100), 72_000);
    assert_eq!(tracking_width(1000), MIN_RADAR_WIDTH);
}

#[test]
fn track_points_and_narrows() {
    let mut r = Radar::new();
    r.track(-1000, 200);
    assert_eq!(r.heading(), 719_000);
    assert_eq!(r.width(), 36_000);
}

#[test]
fn sweep_turns_and_opens() {
    let mut r = Radar::new();
    r.set_heading(719_950);
    r.set_width(30_000);
    r.sweep(100);
    assert_eq!(r.heading(), 50);
    assert_eq!(r.width(), MAX_RADAR_WIDTH);
}

#[test]
fn cruiser_alternates_by_tick() {
    let mut r = Radar::new();
    r.cruiser_schedule(7);
    assert_eq!(r.width(), MIN_RADAR_WIDTH);
    assert_eq!(r.heading(), 168_000);
    r.cruiser_schedule(12);
    assert_eq!(r.width(), MAX_RADAR_WIDTH);
    assert_eq!(r.heading(), 168_000);
}

#[test]
fn missile_beam_narrows_and_widens() {
    let mut r = Radar::new();
    r.narrow();
    assert_eq!(r.width(), 648_000);
    r.set_width(MIN_RADAR_WIDTH);
    r.narrow();
    assert_eq!(r.width(), MIN_RADAR_WIDTH);
    r.widen();
    assert_eq!(r.width(), 45_000);
}

#[test]
fn every_update_keeps_width_in_range() {
    let mut r = Radar::new();
    let cs = vec![
        RadarCommand::SetWidth(0),
        RadarCommand::Widen,
        RadarCommand::SetWidth(i64::MAX),
        RadarCommand::Track { bearing: 5, distance: 1 },
        RadarCommand::Track { bearing: 5, distance: 1_000_000 },
        RadarCommand::CruiserTick(1),
        RadarCommand::Narrow,
        RadarCommand::Sweep(3),
        RadarCommand::SetWidth(i64::MIN),
    ];
    let ws = r.apply_all(&cs);
    assert_eq!(
        ws,
        vec![
            MIN_RADAR_WIDTH,
            45_000,
            MAX_RADAR_WIDTH,
            MAX_RADAR_WIDTH,
            MIN_RADAR_WIDTH,
            MIN_RADAR_WIDTH,
            MIN_RADAR_WIDTH,
            MAX_RADAR_WIDTH,
            MIN_RADAR_WIDTH,
        ]
    );
    assert!(ws.iter().all(|w| *w >= MIN_RADAR_WIDTH && *w <= MAX_RADAR_WIDTH));
}

#[test]
fn apply_performs_each_command() {
    let mut r = Radar::new();
    r.apply(RadarCommand::SetHeading(-10));
    assert_eq!((r.heading(), r.width()), (719_990, MAX_RADAR_WIDTH));
    r.apply(RadarCommand::SetWidth(30_000));
    assert_eq!((r.heading(), r.width()), (719_990, 30_000));
    r.apply(RadarCommand::Sweep(20));
    assert_eq!((r.heading(), r.width()), (10, MAX_RADAR_WIDTH));
    r.apply(RadarCommand::CruiserTick(1));
    assert_eq!((r.heading(), r.width()), (24_000, MIN_RADAR_WIDTH));
    r.apply(RadarCommand::Widen);
    assert_eq!((r.heading(), r.width()), (24_000, 45_000));
    r.apply(RadarCommand::Narrow);
    assert_eq!((r.heading(), r.width()), (24_000, 40_500));
    r.apply(RadarCommand::Track { bearing: 100, distance: 150 });
    assert_eq!((r.heading(), r.width()), (100, 48_000));
}
