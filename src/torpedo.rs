//! Torpedoes: hunt large ships, aim at where the target will be, and coast
//! on the last known course when the contact is lost.
use vstd::prelude::*;
use crate::angle::HALF_TURN;
use crate::guidance::{div_toward_zero, lead_step, lead_step_exec, seek_ok, SEEK_LIMIT};
use crate::homing::{in_arena, ACCEL_LIMIT, ARENA_LIMIT};
use crate::radar::{clamp_width, Radar};
use crate::ship::{vsub, Contact, Ship, ShipClass, WorldView};
use crate::vec2::{abs_int, fits, floor_sqrt, isqrt, norm_sq_of, tdiv, Vec2, COORD_LIMIT};
use crate::weapons::{detonate_spec, should_explode, now_within};

verus! {

/// Speed used to predict where the target will be.
pub const TORPEDO_PREDICTION_SPEED: i64 = 8000;

/// A torpedo detonates when the target will be this close next tick.
pub const TORPEDO_PROXIMITY: i64 = 60;

/// A torpedo also detonates once past its closest approach within this range.
pub const TORPEDO_CPA_RADIUS: i64 = 100;

/// Within this range the beam opens to a sixth of a turn.
pub const TORPEDO_NEAR_RANGE: i64 = 200;

pub const TORPEDO_NEAR_WIDTH: i64 = 120_000;

pub const TORPEDO_FAR_WIDTH: i64 = 12_000;

/// Ticks over which the search jitter grows by its full amount (ten seconds).
pub const JITTER_TICKS: i64 = 600;

/// Saturation of the cross-track projection term.
pub const PROJECTION_LIMIT: i64 = 2_147_483_648;

/// What a torpedo does in one tick.
#[derive(Clone, Copy, Debug, PartialEq, Eq, Structural)]
pub struct TorpedoOrders {
    pub explode: bool,
    /// Acceleration in the world frame; the hull turns to face it.
    pub accelerate: Option<Vec2>,
    /// The radar points along this offset ...
    pub radar_toward: Vec2,
    /// ... turned by this angle.
    pub radar_offset: i64,
}

/// Torpedoes only pursue frigates and cruisers.
pub open spec fn torpedo_target(scan: Option<Contact>) -> Option<Contact> {
    match scan {
        Some(c) => if (c.class is Frigate) || (c.class is Cruiser) {
            Some(c)
        } else {
            None
        },
        None => None,
    }
}

pub open spec fn saturate_projection(x: int) -> int {
    if x > PROJECTION_LIMIT {
        PROJECTION_LIMIT as int
    } else if x < -PROJECTION_LIMIT {
        -PROJECTION_LIMIT
    } else {
        x
    }
}

/// `aim + DRIFT_GAIN * (dv - (dv . dp) aim / |aim|^2)`, the projection saturated.
pub open spec fn torpedo_dir(aim: (int, int), dp: (int, int), dv: (int, int)) -> (int, int) {
    let n = norm_sq_of(aim);
    let k = dv.0 * dp.0 + dv.1 * dp.1;
    (
        aim.0 + 10 * (dv.0 - saturate_projection(tdiv(k * aim.0, n))),
        aim.1 + 10 * (dv.1 - saturate_projection(tdiv(k * aim.1, n))),
    )
}

/// Acceleration of magnitude `acc` along `torpedo_dir`, rounded toward zero;
/// `None` where `aim` or that direction vanishes.
pub open spec fn torpedo_steer_spec(aim: (int, int), dp: (int, int), dv: (int, int), acc: int) -> Option<(int, int)> {
    let w = torpedo_dir(aim, dp, dv);
    let l = floor_sqrt(norm_sq_of(w));
    if norm_sq_of(aim) == 0 || l == 0 {
        None
    } else {
        Some((tdiv(acc * w.0, l), tdiv(acc * w.1, l)))
    }
}

fn saturate(x: i128) -> (r: i128)
    ensures
        r == saturate_projection(x as int),
{
    if x > PROJECTION_LIMIT as i128 {
        PROJECTION_LIMIT as i128
    } else if x < -(PROJECTION_LIMIT as i128) {
        -(PROJECTION_LIMIT as i128)
    } else {
        x
    }
}

/// Steering of a torpedo toward the point `aim` with the target at offset
/// `dp` and relative velocity `dv`.
pub fn torpedo_steer(aim: Vec2, dp: Vec2, dv: Vec2, acc: i64) -> (r: Option<Vec2>)
    requires
        aim.valid(),
        seek_ok(dp),
        seek_ok(dv),
        0 <= acc <= ACCEL_LIMIT,
    ensures
        r is None <==> torpedo_steer_spec(aim@, dp@, dv@, acc as int) is None,
        r matches Some(a) ==> Some(a@) == torpedo_steer_spec(aim@, dp@, dv@, acc as int),
{
    let ghost lim = SEEK_LIMIT as int;
    let ghost cl = COORD_LIMIT as int;
    let n = aim.length_squared() as i128;
    if n == 0 {
        return None;
    }
    proof {
        assert(abs_int(dv.x * dp.x) <= lim * lim && abs_int(dv.y * dp.y) <= lim * lim)
            by (nonlinear_arith)
            requires
                abs_int(dp.x as int) <= lim,
                abs_int(dp.y as int) <= lim,
                abs_int(dv.x as int) <= lim,
                abs_int(dv.y as int) <= lim,
        ;
    }
    let k = (dv.x as i128) * (dp.x as i128) + (dv.y as i128) * (dp.y as i128);
    proof {
        assert(abs_int(k * aim.x) <= 2 * lim * lim * cl && abs_int(k * aim.y) <= 2 * lim * lim * cl)
            by (nonlinear_arith)
            requires
                abs_int(k as int) <= 2 * lim * lim,
                abs_int(aim.x as int) <= cl,
                abs_int(aim.y as int) <= cl,
        ;
    }
    let sx = saturate(div_toward_zero(k * (aim.x as i128), n));
    let sy = saturate(div_toward_zero(k * (aim.y as i128), n));
    let wx = (aim.x as i128) + 10 * ((dv.x as i128) - sx);
    let wy = (aim.y as i128) + 10 * ((dv.y as i128) - sy);
    proof {
        let b = 2 * cl;
        assert(abs_int(wx as int) <= b && abs_int(wy as int) <= b);
        assert(0 <= wx * wx <= b * b && 0 <= wy * wy <= b * b) by (nonlinear_arith)
            requires
                abs_int(wx as int) <= b,
                abs_int(wy as int) <= b,
        ;
    }
    let wn = (wx * wx + wy * wy) as u128;
    let l = isqrt(wn);
    proof {
        crate::vec2::lemma_floor_sqrt_unique(wn as int, l as int);
    }
    if l == 0 {
        return None;
    }
    proof {
        assert(abs_int(acc * wx) <= ACCEL_LIMIT * 2 * cl && abs_int(acc * wy) <= ACCEL_LIMIT * 2
            * cl) by (nonlinear_arith)
            requires
                abs_int(wx as int) <= 2 * cl,
                abs_int(wy as int) <= 2 * cl,
                0 <= acc <= ACCEL_LIMIT,
        ;
    }
    let ax = div_toward_zero((acc as i128) * wx, l as i128);
    let ay = div_toward_zero((acc as i128) * wy, l as i128);
    proof {
        assert(abs_int(wx as int) <= l && abs_int(wy as int) <= l) by (nonlinear_arith)
            requires
                wn == wx * wx + wy * wy,
                wn < (l + 1) * (l + 1),
                l >= 0,
        ;
        assert(abs_int(acc * wx) <= acc * l && abs_int(acc * wy) <= acc * l) by (nonlinear_arith)
            requires
                abs_int(wx as int) <= l,
                abs_int(wy as int) <= l,
                acc >= 0,
        ;
        vstd::arithmetic::div_mod::lemma_div_is_ordered(abs_int(acc * wx), acc * l, l as int);
        vstd::arithmetic::div_mod::lemma_div_is_ordered(abs_int(acc * wy), acc * l, l as int);
        vstd::arithmetic::div_mod::lemma_div_multiples_vanish(acc as int, l as int);
        assert(acc * l == l * acc) by (nonlinear_arith);
    }
    Some(Vec2 { x: ax as i64, y: ay as i64 })
}

/// Ticks since the last contact; zero if the clock reads earlier.
pub open spec fn contact_age(now: u32, last: u32) -> int {
    if now >= last {
        now - last
    } else {
        0
    }
}

/// Where a torpedo believes its target is after this tick's scan: on the
/// contact, else moved on by one tick of the torpedo's own velocity, as long
/// as that stays in the arena.
pub open spec fn torpedo_state(ship: Ship, view: WorldView, seen: Option<Contact>) -> Ship {
    match seen {
        Some(c) => Ship {
            target_position: c.position,
            target_velocity: c.velocity,
            last_contact_tick: view.tick,
        },
        None => {
            let moved = Vec2 {
                x: (ship.target_position.x + tdiv(view.velocity.x as int, 60)) as i64,
                y: (ship.target_position.y + tdiv(view.velocity.y as int, 60)) as i64,
            };
            Ship {
                target_position: if in_arena(moved) {
                    moved
                } else {
                    ship.target_position
                },
                target_velocity: view.velocity,
                ..ship
            }
        },
    }
}

/// Point a torpedo steers for: the target's position advanced by its
/// velocity over the time `TORPEDO_PREDICTION_SPEED` takes to cover the
/// distance, where that stays in range, else the offset itself.
pub open spec fn torpedo_aim(dp: Vec2, tv: Vec2) -> Vec2 {
    if fits(lead_step(dp@, tv@, dp@, 8000)) {
        Vec2 { x: lead_step(dp@, tv@, dp@, 8000).0 as i64, y: lead_step(dp@, tv@, dp@, 8000).1 as i64 }
    } else {
        dp
    }
}

/// What a torpedo tick does: its new memory `new_ship`, its beam `new_radar`
/// and its orders `r`.
pub open spec fn torpedo_tick_post(old_ship: Ship, new_ship: Ship, old_radar: Radar, new_radar: Radar, view: WorldView, scan: Option<Contact>, jitter: i64, acc: i64, r: TorpedoOrders) -> bool {
    &&& new_ship == torpedo_state(old_ship, view, torpedo_target(scan))
    &&& ({
        let dp0 = vsub(old_ship.target_position, view.position);
        &&& r.radar_toward == dp0
        &&& r.radar_offset == tdiv(
            jitter * contact_age(view.tick, old_ship.last_contact_tick),
            600,
        )
        &&& new_radar.width_spec() == if now_within(dp0@, 200) {
            clamp_width(TORPEDO_NEAR_WIDTH as int)
        } else {
            clamp_width(TORPEDO_FAR_WIDTH as int)
        }
    })
    &&& ({
        let dp = vsub(new_ship.target_position, view.position);
        let dv = vsub(new_ship.target_velocity, view.velocity);
        let seen = torpedo_target(scan) is Some;
        let a = if seen {
            acc as int
        } else {
            acc / 2
        };
        let aim = torpedo_aim(dp, new_ship.target_velocity);
        &&& r.explode == (seen && detonate_spec(dp@, dv@, 60, 100))
        &&& r.explode ==> r.accelerate is None
        &&& !r.explode ==> (r.accelerate is None <==> torpedo_steer_spec(aim@, dp@, dv@, a) is None)
        &&& r.accelerate matches Some(v) ==> Some(v@) == torpedo_steer_spec(aim@, dp@, dv@, a)
    })
    &&& new_radar.heading_spec() == old_radar.heading_spec()
}

impl Ship {
    /// One tick of a torpedo. `jitter` is a random angle in
    /// `(-HALF_TURN, HALF_TURN]`; the radar searches off the target bearing by
    /// that angle scaled by the time since the last contact.
    pub fn torpedo_tick(
        &mut self,
        view: WorldView,
        scan: Option<Contact>,
        jitter: i64,
        radar: &mut Radar,
        acc: i64,
    ) -> (r: TorpedoOrders)
        requires
            old(self).in_arena(),
            in_arena(view.position),
            in_arena(view.velocity),
            scan matches Some(c) ==> in_arena(c.position) && in_arena(c.velocity),
            old(radar).inv(),
            -HALF_TURN < jitter <= HALF_TURN,
            0 <= acc <= ACCEL_LIMIT,
        ensures
            final(self).in_arena(),
            final(radar).inv(),
            torpedo_tick_post(*old(self), *final(self), *old(radar), *final(radar), view, scan, jitter, acc, r),
    {
        let dp0 = self.target_position.sub(view.position);
        let age: i64 = if view.tick >= self.last_contact_tick {
            (view.tick - self.last_contact_tick) as i64
        } else {
            0
        };
        proof {
            assert(-HALF_TURN * 0x1_0000_0000 <= jitter * age <= HALF_TURN * 0x1_0000_0000)
                by (nonlinear_arith)
                requires
                    -HALF_TURN < jitter <= HALF_TURN,
                    0 <= age < 0x1_0000_0000,
            ;
        }
        let ja = jitter * age;
        let radar_offset = if ja >= 0 {
            ja / JITTER_TICKS
        } else {
            -((-ja) / JITTER_TICKS)
        };
        if dp0.length_squared() < (TORPEDO_NEAR_RANGE * TORPEDO_NEAR_RANGE) as u128 {
            radar.set_width(TORPEDO_NEAR_WIDTH);
        } else {
            radar.set_width(TORPEDO_FAR_WIDTH);
        }
        let seen = match scan {
            Some(c) => match c.class {
                ShipClass::Frigate | ShipClass::Cruiser => Some(c),
                _ => None,
            },
            None => None,
        };
        match seen {
            Some(c) => {
                self.target_position = c.position;
                self.target_velocity = c.velocity;
                self.last_contact_tick = view.tick;
            },
            None => {
                let vx = view.velocity.x;
                let vy = view.velocity.y;
                let mx = self.target_position.x + (if vx >= 0 { vx / 60 } else { -((-vx) / 60) });
                let my = self.target_position.y + (if vy >= 0 { vy / 60 } else { -((-vy) / 60) });
                if -ARENA_LIMIT <= mx && mx <= ARENA_LIMIT && -ARENA_LIMIT <= my && my <= ARENA_LIMIT {
                    self.target_position = Vec2 { x: mx, y: my };
                }
                self.target_velocity = view.velocity;
            },
        }
        let dp = self.target_position.sub(view.position);
        let dv = self.target_velocity.sub(view.velocity);
        let mut a = acc;
        if seen.is_some() {
            if should_explode(dp, dv, TORPEDO_PROXIMITY, TORPEDO_CPA_RADIUS) {
                return TorpedoOrders { explode: true, accelerate: None, radar_toward: dp0, radar_offset };
            }
        } else {
            a = acc / 2;
        }
        let aim = match lead_step_exec(dp, self.target_velocity, dp, TORPEDO_PREDICTION_SPEED) {
            Some(p) => p,
            None => dp,
        };
        let accelerate = torpedo_steer(aim, dp, dv, a);
        TorpedoOrders { explode: false, accelerate, radar_toward: dp0, radar_offset }
    }
}

} // verus!
