//! Per-tick decisions of a ship: what it aims, fires, sends and how it moves,
//! from what it sees this tick.
use vstd::prelude::*;
use crate::guidance::{lead_iter, lead_predict, lead_step, lead_step_exec};
use crate::message::{decode_spec, encode_spec, make_orders, parse_orders, Message};
use crate::homing::msg_view;
use crate::radar::{clamp, clamp_width, CRUISER_PENCIL_WIDTH, MAX_RADAR_WIDTH};
use crate::vec2::{abs_int, fits, Vec2, COORD_LIMIT};
use crate::weapons::{volley, volley_spec, MountOrder};

verus! {

/// Largest magnitude of a coordinate of a position or velocity in the world.
pub const WORLD_LIMIT: i64 = 274_877_906_944;

/// Projectile speed used for lead prediction when firing.
pub const BULLET_SPEED: i64 = 1000;

/// Frigate shells are faster.
pub const FRIGATE_BULLET_SPEED: i64 = 4000;

/// Guns fire only at targets predicted nearer than this.
pub const GUN_RANGE: i64 = 5000;

/// A ship brakes when a seen target is nearer than this.
pub const BRAKE_RANGE: i64 = 1000;

/// A waypoint nearer than this counts as reached.
pub const WAYPOINT_RADIUS: i64 = 100;

/// Kind of a ship, which decides its weapons and radar policy.
#[derive(Clone, Copy, Debug, PartialEq, Eq, Structural)]
pub enum ShipClass {
    Fighter,
    Frigate,
    Cruiser,
    Missile,
    Torpedo,
    Unknown,
}

/// One radar detection, valid for the tick that produced it.
#[derive(Clone, Copy, Debug, PartialEq, Eq, Structural)]
pub struct Contact {
    pub position: Vec2,
    pub velocity: Vec2,
    pub class: ShipClass,
}

/// What a ship knows of itself at the start of a tick.
#[derive(Clone, Copy, Debug, PartialEq, Eq, Structural)]
pub struct WorldView {
    pub position: Vec2,
    pub velocity: Vec2,
    pub tick: u32,
    pub class: ShipClass,
}

pub open spec fn in_world(v: Vec2) -> bool {
    abs_int(v.x as int) <= WORLD_LIMIT && abs_int(v.y as int) <= WORLD_LIMIT
}

impl WorldView {
    pub open spec fn wf(self) -> bool {
        in_world(self.position) && in_world(self.velocity)
    }
}

impl Contact {
    pub open spec fn wf(self) -> bool {
        in_world(self.position) && in_world(self.velocity)
    }
}

/// Where the radar beam points.
#[derive(Clone, Copy, Debug, PartialEq, Eq, Structural)]
pub enum RadarAim {
    /// Along this offset from the ship.
    Toward(Vec2),
    /// At this absolute angle.
    Heading(i64),
}

/// Everything a ship does in one tick.
#[derive(Clone, Debug)]
pub struct Orders {
    /// Acceleration in the world frame.
    pub accelerate: Vec2,
    /// Offset the hull turns to face.
    pub face: Vec2,
    pub radar_aim: RadarAim,
    /// New radar width, where it changes.
    pub radar_width: Option<i64>,
    pub mounts: Vec<MountOrder>,
    /// Hand-off message for launched missiles.
    pub message: Option<Message>,
}

/// A ship's memory between ticks: its current target or waypoint.
#[derive(Clone, Copy, Debug, PartialEq, Eq, Structural)]
pub struct Ship {
    pub target_position: Vec2,
    pub target_velocity: Vec2,
    /// Tick of the last contact.
    pub last_contact_tick: u32,
}

/// Unidentified contacts are ignored.
pub open spec fn visible(scan: Option<Contact>) -> Option<Contact> {
    match scan {
        Some(c) => if c.class is Unknown {
            None
        } else {
            Some(c)
        },
        None => None,
    }
}

/// Radar width a class sets at the start of a tick: cruisers sweep the full
/// circle every sixth tick and use a pencil beam otherwise.
pub open spec fn scheduled_width(class: ShipClass, tick: u32) -> Option<i64> {
    if class is Cruiser {
        if tick % 6 == 0 {
            Some(MAX_RADAR_WIDTH)
        } else {
            Some(clamp_width(CRUISER_PENCIL_WIDTH as int) as i64)
        }
    } else {
        None
    }
}

/// Offset at which to fire: the lead-predicted intercept when the relative
/// motion is not receding and the prediction stays in range, else the offset.
pub open spec fn aim_point(dp: Vec2, dv: Vec2) -> Vec2 {
    if dp.dot_spec(dv) >= 0 && (forall|k: nat| k <= 3 ==> fits(#[trigger] lead_iter(dp@, dv@, 1000, k)))
        && in_half_range(lead_iter(dp@, dv@, 1000, 3)) {
        Vec2 { x: lead_iter(dp@, dv@, 1000, 3).0 as i64, y: lead_iter(dp@, dv@, 1000, 3).1 as i64 }
    } else {
        dp
    }
}

pub open spec fn in_half_range(p: (int, int)) -> bool {
    abs_int(p.0) <= COORD_LIMIT / 2 && abs_int(p.1) <= COORD_LIMIT / 2
}

pub open spec fn in_gun_range(p: Vec2) -> bool {
    p.norm_sq() < GUN_RANGE * GUN_RANGE
}

/// Mount orders of each class at a contact of class `target`, with intercept
/// offset `lead`.
pub open spec fn fire_plan(class: ShipClass, target: ShipClass, lead: Vec2) -> Seq<MountOrder> {
    match class {
        ShipClass::Fighter => if in_gun_range(lead) {
            seq![MountOrder::Fire { mount: 0 }, MountOrder::Fire { mount: 1 }]
        } else {
            seq![MountOrder::Fire { mount: 1 }]
        },
        ShipClass::Frigate => volley_spec(lead@, lead.length_spec()).push(
            MountOrder::Fire { mount: 3 },
        ),
        ShipClass::Cruiser => {
            let gun = if in_gun_range(lead) {
                seq![MountOrder::Aim { mount: 0, at: lead }, MountOrder::Fire { mount: 0 }]
            } else {
                Seq::empty()
            };
            let launch = seq![MountOrder::Fire { mount: 1 }, MountOrder::Fire { mount: 2 }];
            let heavy = if (target is Frigate) || (target is Cruiser) {
                seq![MountOrder::Fire { mount: 3 }]
            } else {
                Seq::empty()
            };
            gun + launch + heavy
        },
        _ => Seq::empty(),
    }
}

pub open spec fn sends_orders(class: ShipClass) -> bool {
    (class is Fighter) || (class is Frigate) || (class is Cruiser)
}

pub open spec fn vsub(a: Vec2, b: Vec2) -> Vec2 {
    Vec2 { x: (a.x - b.x) as i64, y: (a.y - b.y) as i64 }
}

/// The target a ship steers for after this tick's scan.
pub open spec fn next_target(ship: Ship, view: WorldView, seen: Option<Contact>, waypoint: Vec2) -> Ship {
    match seen {
        Some(c) => Ship { target_position: c.position, target_velocity: c.velocity, ..ship },
        None => if vsub(ship.target_position, view.position).norm_sq() < WAYPOINT_RADIUS
            * WAYPOINT_RADIUS {
            Ship { target_position: waypoint, target_velocity: Vec2 { x: 0, y: 0 }, ..ship }
        } else {
            ship
        },
    }
}

/// The offset to fire at; see `aim_point`.
fn aim(dp: Vec2, dv: Vec2) -> (r: Vec2)
    requires
        dp.valid(),
        dv.valid(),
        in_half_range(dp@),
    ensures
        r == aim_point(dp, dv),
        in_half_range(r@),
{
    if dp.dot(dv) >= 0 {
        match lead_predict(dp, dv, BULLET_SPEED) {
            Some(p) => {
                let h = COORD_LIMIT / 2;
                if -h <= p.x && p.x <= h && -h <= p.y && p.y <= h {
                    return p;
                }
            },
            None => {},
        }
    }
    dp
}

fn in_range(p: Vec2) -> (r: bool)
    requires
        p.valid(),
    ensures
        r == in_gun_range(p),
{
    p.length_squared() < (GUN_RANGE * GUN_RANGE) as u128
}

fn sends(class: ShipClass) -> (r: bool)
    ensures
        r == sends_orders(class),
{
    match class {
        ShipClass::Fighter | ShipClass::Frigate | ShipClass::Cruiser => true,
        _ => false,
    }
}

/// The mount orders of `class` at a contact of class `target`; see `fire_plan`.
pub fn plan_fire(class: ShipClass, target: ShipClass, lead: Vec2) -> (r: Vec<MountOrder>)
    requires
        in_half_range(lead@),
    ensures
        r@ == fire_plan(class, target, lead),
{
    match class {
        ShipClass::Fighter => {
            if in_range(lead) {
                vec![MountOrder::Fire { mount: 0 }, MountOrder::Fire { mount: 1 }]
            } else {
                vec![MountOrder::Fire { mount: 1 }]
            }
        },
        ShipClass::Frigate => {
            let mut r = volley(lead);
            r.push(MountOrder::Fire { mount: 3 });
            r
        },
        ShipClass::Cruiser => {
            let mut r: Vec<MountOrder> = Vec::new();
            if in_range(lead) {
                r.push(MountOrder::Aim { mount: 0, at: lead });
                r.push(MountOrder::Fire { mount: 0 });
            }
            r.push(MountOrder::Fire { mount: 1 });
            r.push(MountOrder::Fire { mount: 2 });
            match target {
                ShipClass::Frigate | ShipClass::Cruiser => r.push(MountOrder::Fire { mount: 3 }),
                _ => {},
            }
            assert(r@ =~= fire_plan(class, target, lead));
            r
        },
        _ => Vec::new(),
    }
}

/// What a fighter, frigate or cruiser tick does: its new memory `new_ship`
/// and its orders `r`.
pub open spec fn ship_tick_post(old_ship: Ship, new_ship: Ship, view: WorldView, scan: Option<Contact>, sweep_heading: i64, waypoint: Vec2, r: Orders) -> bool {
    &&& new_ship == next_target(old_ship, view, visible(scan), waypoint)
    &&& r.radar_width == scheduled_width(view.class, view.tick)
    &&& match visible(scan) {
        Some(c) => {
            let dp = vsub(c.position, view.position);
            let dv = vsub(c.velocity, view.velocity);
            &&& r.radar_aim == RadarAim::Toward(dp)
            &&& r.mounts@ == fire_plan(view.class, c.class, aim_point(dp, dv))
            &&& (r.message is Some <==> sends_orders(view.class))
            &&& (r.message matches Some(m) ==> m@ == encode_spec(c.position, c.velocity))
        },
        None => {
            &&& r.radar_aim == RadarAim::Heading(sweep_heading)
            &&& r.mounts@.len() == 0
            &&& r.message is None
        },
    }
    &&& ({
        let dp = vsub(new_ship.target_position, view.position);
        let tv = vsub(new_ship.target_velocity, view.velocity);
        let speed = if view.class is Frigate {
            FRIGATE_BULLET_SPEED as int
        } else {
            BULLET_SPEED as int
        };
        r.face == if fits(lead_step(dp@, tv@, dp@, speed)) {
            Vec2 { x: lead_step(dp@, tv@, dp@, speed).0 as i64, y: lead_step(dp@, tv@, dp@, speed).1 as i64 }
        } else {
            dp
        }
    })
    &&& ({
        let dp = vsub(new_ship.target_position, view.position);
        r.accelerate == if visible(scan) is Some && dp.norm_sq() < BRAKE_RANGE
            * BRAKE_RANGE {
            Vec2 { x: (-view.velocity.x) as i64, y: (-view.velocity.y) as i64 }
        } else {
            vsub(dp, view.velocity)
        }
    })
}

impl Ship {
    pub open spec fn wf(self) -> bool {
        in_world(self.target_position) && in_world(self.target_velocity)
    }

    /// A ship that starts on the target handed to it at launch, if any, else
    /// on the origin, at tick `tick`.
    pub fn new(received: Option<Message>, tick: u32) -> (r: Ship)
        ensures
            (r.target_position, r.target_velocity) == decode_spec(msg_view(received)),
            r.last_contact_tick == tick,
    {
        let (target_position, target_velocity) = parse_orders(received);
        Ship { target_position, target_velocity, last_contact_tick: tick }
    }

    /// One tick of a fighter, frigate or cruiser. `scan` is this tick's
    /// detection; `sweep_heading` the radar heading to search at and
    /// `waypoint` the next patrol point, both drawn at random by the caller.
    pub fn ship_tick(
        &mut self,
        view: WorldView,
        scan: Option<Contact>,
        sweep_heading: i64,
        waypoint: Vec2,
    ) -> (r: Orders)
        requires
            old(self).wf(),
            view.wf(),
            in_world(waypoint),
            scan matches Some(c) ==> c.wf(),
        ensures
            final(self).wf(),
            ship_tick_post(*old(self), *final(self), view, scan, sweep_heading, waypoint, r),
    {
        let radar_width = if let ShipClass::Cruiser = view.class {
            if view.tick % 6 == 0 {
                Some(MAX_RADAR_WIDTH)
            } else {
                Some(clamp(CRUISER_PENCIL_WIDTH))
            }
        } else {
            None
        };
        let seen = match scan {
            Some(c) => if let ShipClass::Unknown = c.class {
                None
            } else {
                Some(c)
            },
            None => None,
        };
        let mut mounts: Vec<MountOrder> = Vec::new();
        let mut message: Option<Message> = None;
        let radar_aim;
        match seen {
            Some(c) => {
                let dp = c.position.sub(view.position);
                let dv = c.velocity.sub(view.velocity);
                let lead = aim(dp, dv);
                radar_aim = RadarAim::Toward(dp);
                self.target_position = c.position;
                self.target_velocity = c.velocity;
                mounts = plan_fire(view.class, c.class, lead);
                if sends(view.class) {
                    message = Some(make_orders(c.position, c.velocity));
                }
            },
            None => {
                radar_aim = RadarAim::Heading(sweep_heading);
                let to_target = self.target_position.sub(view.position);
                if to_target.length_squared() < (WAYPOINT_RADIUS * WAYPOINT_RADIUS) as u128 {
                    self.target_position = waypoint;
                    self.target_velocity = Vec2 { x: 0, y: 0 };
                }
            },
        }
        let dp = self.target_position.sub(view.position);
        let speed = if let ShipClass::Frigate = view.class {
            FRIGATE_BULLET_SPEED
        } else {
            BULLET_SPEED
        };
        let tv = self.target_velocity.sub(view.velocity);
        let face = match lead_step_exec(dp, tv, dp, speed) {
            Some(p) => p,
            None => dp,
        };
        let accelerate = if seen.is_some() && dp.length_squared() < (BRAKE_RANGE
            * BRAKE_RANGE) as u128 {
            Vec2 { x: -view.velocity.x, y: -view.velocity.y }
        } else {
            dp.sub(view.velocity)
        };
        Orders { accelerate, face, radar_aim, radar_width, mounts, message }
    }
}

} // verus!
