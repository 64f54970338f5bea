//! A missile that homes by proportional navigation and tracks its contact
//! with a beam that narrows as it closes.
use vstd::prelude::*;
use crate::guidance::{seek, seek_spec};
use crate::homing::in_arena;
use crate::radar::{tracking_width, tracking_width_spec, Radar, MAX_RADAR_WIDTH};
use crate::ship::{vsub, Contact, WorldView};
use crate::vec2::Vec2;
use crate::weapons::{next_within, now_within, within_radius_now_or_next};

verus! {

/// The seeker detonates when its contact is this close now or next tick.
pub const KILL_RADIUS: i64 = 25;

/// What the seeker does in one tick.
#[derive(Clone, Copy, Debug, PartialEq, Eq, Structural)]
pub struct SeekerOrders {
    /// Acceleration in the world frame; the hull turns to face it.
    pub accelerate: Option<Vec2>,
    pub explode: bool,
    /// Offset the radar points along, while there is a contact.
    pub radar_toward: Option<Vec2>,
}

/// A proportional-navigation missile; it keeps no memory between ticks.
#[derive(Clone, Copy, Debug, PartialEq, Eq, Structural)]
pub struct Ship {}

impl Ship {
    pub fn new() -> (r: Ship) {
        Ship {}
    }

    /// One tick: with a contact, seek it, detonate within `KILL_RADIUS` now or
    /// next tick, and track it with a beam of `tracking_width`; without one,
    /// open the beam to the full circle.
    pub fn tick(&mut self, view: WorldView, scan: Option<Contact>, radar: &mut Radar) -> (r: SeekerOrders)
        requires
            in_arena(view.position),
            in_arena(view.velocity),
            scan matches Some(c) ==> in_arena(c.position) && in_arena(c.velocity),
            old(radar).inv(),
        ensures
            final(radar).inv(),
            final(radar).heading_spec() == old(radar).heading_spec(),
            match scan {
                Some(c) => {
                    let dp = vsub(c.position, view.position);
                    let dv = vsub(c.velocity, view.velocity);
                    &&& r.radar_toward == Some(dp)
                    &&& final(radar).width_spec() == tracking_width_spec(dp.length_spec())
                    &&& r.explode == (now_within(dp@, 25) || next_within(dp@, dv@, 25))
                    &&& (r.accelerate is None <==> seek_spec(dp@, dv@) is None)
                    &&& r.accelerate matches Some(a) ==> Some(a@) == seek_spec(dp@, dv@)
                },
                None => {
                    &&& final(radar).width_spec() == MAX_RADAR_WIDTH
                    &&& r.radar_toward is None
                    &&& r.accelerate is None
                    &&& !r.explode
                },
            },
    {
        match scan {
            Some(c) => {
                let a = seek(c.position, c.velocity, view.position, view.velocity);
                let dp = c.position.sub(view.position);
                let dv = c.velocity.sub(view.velocity);
                let explode = within_radius_now_or_next(dp, dv, KILL_RADIUS);
                let w = tracking_width(dp.length());
                radar.set_width(w);
                SeekerOrders { accelerate: a, explode, radar_toward: Some(dp) }
            },
            None => {
                radar.set_width(MAX_RADAR_WIDTH);
                SeekerOrders { accelerate: None, explode: false, radar_toward: None }
            },
        }
    }
}

} // verus!
