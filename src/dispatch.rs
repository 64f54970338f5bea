//! One tick of a ship of any class: the class picks the policy once.
use vstd::prelude::*;
use crate::homing::{in_arena, missile_tick_post, MissileOrders, ACCEL_LIMIT};
use crate::message::Message;
use crate::radar::Radar;
use crate::ship::{ship_tick_post, Contact, Orders, Ship, ShipClass, WorldView};
use crate::torpedo::{torpedo_tick_post, TorpedoOrders};
use crate::angle::HALF_TURN;
use crate::vec2::Vec2;

verus! {

/// Orders of one tick, by the policy that produced them.
#[derive(Clone, Debug)]
pub enum TickOrders {
    Ship(Orders),
    Missile(MissileOrders),
    Torpedo(TorpedoOrders),
}

/// Random draws a tick may use, made by the caller's seeded generator.
#[derive(Clone, Copy, Debug, PartialEq, Eq, Structural)]
pub struct Draws {
    /// Radar heading to search at, in `[0, TURN)`.
    pub sweep_heading: i64,
    /// Next patrol point.
    pub waypoint: Vec2,
    /// Search jitter of a torpedo, in `(-HALF_TURN, HALF_TURN]`.
    pub jitter: i64,
}

impl Ship {
    /// Runs the policy of `view.class`: missiles and torpedoes home on their
    /// target, other classes fight with guns and launch missiles.
    pub fn tick(
        &mut self,
        view: WorldView,
        scan: Option<Contact>,
        received: Option<Message>,
        draws: Draws,
        radar: &mut Radar,
        acc: i64,
    ) -> (r: TickOrders)
        requires
            old(self).in_arena(),
            in_arena(view.position),
            in_arena(view.velocity),
            in_arena(draws.waypoint),
            scan matches Some(c) ==> in_arena(c.position) && in_arena(c.velocity),
            old(radar).inv(),
            -HALF_TURN < draws.jitter <= HALF_TURN,
            0 <= acc <= ACCEL_LIMIT,
        ensures
            final(self).in_arena(),
            final(radar).inv(),
            match r {
                TickOrders::Missile(m) => (view.class is Missile) && missile_tick_post(
                    *old(self),
                    *final(self),
                    *old(radar),
                    *final(radar),
                    view,
                    scan,
                    received,
                    acc,
                    m,
                ),
                TickOrders::Torpedo(t) => (view.class is Torpedo) && torpedo_tick_post(
                    *old(self),
                    *final(self),
                    *old(radar),
                    *final(radar),
                    view,
                    scan,
                    draws.jitter,
                    acc,
                    t,
                ),
                TickOrders::Ship(o) => !(view.class is Missile) && !(view.class is Torpedo)
                    && ship_tick_post(
                    *old(self),
                    *final(self),
                    view,
                    scan,
                    draws.sweep_heading,
                    draws.waypoint,
                    o,
                ) && *final(radar) == *old(radar),
            },
    {
        match view.class {
            ShipClass::Missile => TickOrders::Missile(self.missile_tick(view, scan, received, radar, acc)),
            ShipClass::Torpedo => TickOrders::Torpedo(self.torpedo_tick(view, scan, draws.jitter, radar, acc)),
            _ => TickOrders::Ship(self.ship_tick(view, scan, draws.sweep_heading, draws.waypoint)),
        }
    }
}

} // verus!
