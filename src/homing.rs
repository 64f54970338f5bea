//! Missiles: pursuit that cancels the target's drift across the line of
//! sight, and the per-tick decisions of a missile.
use vstd::prelude::*;
use crate::guidance::{div_toward_zero, seek_ok, SEEK_LIMIT};
use crate::message::{decode_spec, parse_orders, Message};
use crate::radar::{clamp_width, narrow_spec, widen_spec, Radar, MISSILE_NARROWEST};
use crate::ship::{vsub, Contact, Ship, WorldView};
use crate::vec2::{abs_int, floor_sqrt, isqrt, norm_sq_of, tdiv, Vec2};
use crate::weapons::{detonate_spec, now_within, should_explode};

verus! {

/// Largest forward acceleration of a missile.
pub const ACCEL_LIMIT: i64 = 1_048_576;

/// Weight of the cross-track velocity correction.
pub const DRIFT_GAIN: i64 = 10;

/// `dp + DRIFT_GAIN * (dv - (dv . dp) dp / |dp|^2)`: the offset, corrected by
/// the part of the relative velocity across the line of sight.
pub open spec fn pursuit_dir(dp: (int, int), dv: (int, int)) -> (int, int) {
    let n = norm_sq_of(dp);
    let k = dv.0 * dp.0 + dv.1 * dp.1;
    (dp.0 + 10 * (dv.0 - tdiv(k * dp.0, n)), dp.1 + 10 * (dv.1 - tdiv(k * dp.1, n)))
}

/// Pursuit acceleration of magnitude `acc` along `pursuit_dir`, rounded toward
/// zero; `None` at the target or where that direction vanishes.
pub open spec fn pursuit_spec(dp: (int, int), dv: (int, int), acc: int) -> Option<(int, int)> {
    let w = pursuit_dir(dp, dv);
    let l = floor_sqrt(norm_sq_of(w));
    if norm_sq_of(dp) == 0 || l == 0 {
        None
    } else {
        Some((tdiv(acc * w.0, l), tdiv(acc * w.1, l)))
    }
}

proof fn lemma_projection_bound(a: int, b: int, va: int, vb: int, lim: int)
    requires
        abs_int(a) <= lim,
        abs_int(b) <= lim,
        abs_int(va) <= lim,
        abs_int(vb) <= lim,
        a * a + b * b > 0,
        lim > 0,
    ensures
        abs_int(tdiv((va * a + vb * b) * a, a * a + b * b)) <= 2 * lim,
{
    let n = a * a + b * b;
    let x = (va * a + vb * b) * a;
    assert(abs_int(x) <= 2 * lim * n) by (nonlinear_arith)
        requires
            abs_int(va) <= lim,
            abs_int(vb) <= lim,
            n == a * a + b * b,
            x == (va * a + vb * b) * a,
            lim > 0,
    {
        assert(abs_int(x) <= lim * (abs_int(a) + abs_int(b)) * abs_int(a)) by (nonlinear_arith)
            requires
                abs_int(va) <= lim,
                abs_int(vb) <= lim,
                x == (va * a + vb * b) * a,
                lim > 0,
        ;
        assert((abs_int(a) + abs_int(b)) * abs_int(a) <= 2 * n) by (nonlinear_arith)
            requires
                n == a * a + b * b,
        ;
    }
    vstd::arithmetic::div_mod::lemma_div_is_ordered(abs_int(x), 2 * lim * n, n);
    vstd::arithmetic::div_mod::lemma_div_multiples_vanish(2 * lim, n);
    assert(2 * lim * n == n * (2 * lim)) by (nonlinear_arith);
}

/// Pursuit acceleration toward a target at offset `dp` with relative velocity `dv`.
pub fn pursuit(dp: Vec2, dv: Vec2, acc: i64) -> (r: Option<Vec2>)
    requires
        seek_ok(dp),
        seek_ok(dv),
        0 <= acc <= ACCEL_LIMIT,
    ensures
        r is None <==> pursuit_spec(dp@, dv@, acc as int) is None,
        r matches Some(a) ==> Some(a@) == pursuit_spec(dp@, dv@, acc as int),
        r matches Some(a) ==> abs_int(a.x as int) <= acc && abs_int(a.y as int) <= acc,
{
    let ghost lim = SEEK_LIMIT as int;
    let x = dp.x as i128;
    let y = dp.y as i128;
    proof {
        assert(0 <= x * x <= lim * lim && 0 <= y * y <= lim * lim) by (nonlinear_arith)
            requires
                abs_int(x as int) <= lim,
                abs_int(y as int) <= lim,
        ;
    }
    let n = x * x + y * y;
    if n == 0 {
        return None;
    }
    proof {
        assert(abs_int(dv.x * x) <= lim * lim && abs_int(dv.y * y) <= lim * lim) by (nonlinear_arith)
            requires
                abs_int(x as int) <= lim,
                abs_int(y as int) <= lim,
                abs_int(dv.x as int) <= lim,
                abs_int(dv.y as int) <= lim,
        ;
    }
    let k = (dv.x as i128) * x + (dv.y as i128) * y;
    proof {
        assert(abs_int(k * x) <= 2 * lim * lim * lim && abs_int(k * y) <= 2 * lim * lim * lim)
            by (nonlinear_arith)
            requires
                abs_int(k as int) <= 2 * lim * lim,
                abs_int(x as int) <= lim,
                abs_int(y as int) <= lim,
        ;
        lemma_projection_bound(x as int, y as int, dv.x as int, dv.y as int, lim);
        lemma_projection_bound(y as int, x as int, dv.y as int, dv.x as int, lim);
        assert(k * y == (dv.y * y + dv.x * x) * y);
        assert(x * x + y * y == y * y + x * x);
    }
    let px = div_toward_zero(k * x, n);
    let py = div_toward_zero(k * y, n);
    let wx = x + 10 * ((dv.x as i128) - px);
    let wy = y + 10 * ((dv.y as i128) - py);
    proof {
        let b = 64 * lim;
        assert(abs_int(wx as int) <= b && abs_int(wy as int) <= b);
        assert(0 <= wx * wx <= b * b && 0 <= wy * wy <= b * b) by (nonlinear_arith)
            requires
                abs_int(wx as int) <= b,
                abs_int(wy as int) <= b,
        ;
    }
    let wn = (wx * wx + wy * wy) as u128;
    let l = isqrt(wn);
    if l == 0 {
        proof {
            crate::vec2::lemma_floor_sqrt_unique(wn as int, l as int);
        }
        return None;
    }
    proof {
        crate::vec2::lemma_floor_sqrt_unique(wn as int, l as int);
        assert(abs_int(wx as int) <= l && abs_int(wy as int) <= l) by (nonlinear_arith)
            requires
                wn == wx * wx + wy * wy,
                wn < (l + 1) * (l + 1),
                l >= 0,
        ;
        assert(abs_int(acc * wx) <= acc * l && abs_int(acc * wy) <= acc * l) by (nonlinear_arith)
            requires
                abs_int(wx as int) <= l,
                abs_int(wy as int) <= l,
                acc >= 0,
        ;
        vstd::arithmetic::div_mod::lemma_div_is_ordered(abs_int(acc * wx), acc * l, l as int);
        vstd::arithmetic::div_mod::lemma_div_is_ordered(abs_int(acc * wy), acc * l, l as int);
        vstd::arithmetic::div_mod::lemma_div_multiples_vanish(acc as int, l as int);
        assert(acc * l == l * acc) by (nonlinear_arith);
        assert(abs_int(acc * wx) <= 64 * lim * ACCEL_LIMIT) by (nonlinear_arith)
            requires
                abs_int(wx as int) <= 64 * lim,
                0 <= acc <= ACCEL_LIMIT,
        ;
        assert(abs_int(acc * wy) <= 64 * lim * ACCEL_LIMIT) by (nonlinear_arith)
            requires
                abs_int(wy as int) <= 64 * lim,
                0 <= acc <= ACCEL_LIMIT,
        ;
    }
    let ax = div_toward_zero((acc as i128) * wx, l as i128);
    let ay = div_toward_zero((acc as i128) * wy, l as i128);
    Some(Vec2 { x: ax as i64, y: ay as i64 })
}

/// Largest magnitude of a coordinate of a position or velocity that missile
/// guidance handles.
pub const ARENA_LIMIT: i64 = 536_870_912;

/// A missile detonates when the target will be this close next tick.
pub const MISSILE_PROXIMITY: i64 = 30;

/// A missile also detonates once past its closest approach within this range.
pub const MISSILE_CPA_RADIUS: i64 = 100;

/// Within this range a missile opens its beam to a sixth of a turn.
pub const TERMINAL_RANGE: i64 = 300;

/// Beam width in the terminal phase.
pub const TERMINAL_WIDTH: i64 = 120_000;

/// A handed-off target this near the current one replaces it.
pub const HANDOFF_RADIUS: i64 = 100;

pub open spec fn in_arena(v: Vec2) -> bool {
    abs_int(v.x as int) <= ARENA_LIMIT && abs_int(v.y as int) <= ARENA_LIMIT
}

/// What a missile does in one tick.
#[derive(Clone, Copy, Debug, PartialEq, Eq, Structural)]
pub struct MissileOrders {
    pub explode: bool,
    /// Acceleration in the world frame; the hull turns to face it.
    pub accelerate: Option<Vec2>,
    /// Offset the radar points along.
    pub radar_toward: Vec2,
}

/// A hand-off that a missile without contact takes: a target in the arena
/// near the one it follows.
pub open spec fn takes_handoff(ship: Ship, received: Option<Seq<i64>>) -> bool {
    received is Some && {
        let (p, v) = decode_spec(received);
        in_arena(p) && in_arena(v) && vsub(p, ship.target_position).norm_sq() < HANDOFF_RADIUS
            * HANDOFF_RADIUS
    }
}

pub open spec fn msg_view(m: Option<Message>) -> Option<Seq<i64>> {
    match m {
        Some(a) => Some(a@),
        None => None,
    }
}

/// The target a missile follows after this tick's scan and messages.
pub open spec fn missile_target(ship: Ship, scan: Option<Contact>, received: Option<Seq<i64>>) -> Ship {
    match scan {
        Some(c) => Ship { target_position: c.position, target_velocity: c.velocity, ..ship },
        None => if takes_handoff(ship, received) {
            Ship {
                target_position: decode_spec(received).0,
                target_velocity: decode_spec(received).1,
                ..ship
            }
        } else {
            ship
        },
    }
}

/// Beam width after the scan and messages of a tick, before the terminal phase.
pub open spec fn missile_search_width(w: int, ship: Ship, scan: Option<Contact>, received: Option<Seq<i64>>) -> int {
    if scan is Some {
        narrow_spec(w)
    } else if takes_handoff(ship, received) {
        clamp_width(MISSILE_NARROWEST as int)
    } else {
        widen_spec(w)
    }
}

/// What a missile tick does: its new memory `new_ship`, its beam `new_radar`
/// and its orders `r`.
pub open spec fn missile_tick_post(old_ship: Ship, new_ship: Ship, old_radar: Radar, new_radar: Radar, view: WorldView, scan: Option<Contact>, received: Option<Message>, acc: i64, r: MissileOrders) -> bool {
    &&& new_ship == missile_target(old_ship, scan, msg_view(received))
    &&& ({
        let dp = vsub(new_ship.target_position, view.position);
        let dv = vsub(new_ship.target_velocity, view.velocity);
        let w = missile_search_width(
            old_radar.width_spec(),
            old_ship,
            scan,
            msg_view(received),
        );
        &&& r.radar_toward == dp
        &&& r.explode == detonate_spec(dp@, dv@, 30, 100)
        &&& new_radar.width_spec() == if !r.explode && now_within(dp@, 300) {
            TERMINAL_WIDTH as int
        } else {
            w
        }
        &&& r.explode ==> r.accelerate is None
        &&& !r.explode ==> (r.accelerate is None <==> pursuit_spec(dp@, dv@, acc as int) is None)
        &&& r.accelerate matches Some(a) ==> Some(a@) == pursuit_spec(dp@, dv@, acc as int)
    })
    &&& new_radar.heading_spec() == old_radar.heading_spec()
}

impl Ship {
    pub open spec fn in_arena(self) -> bool {
        in_arena(self.target_position) && in_arena(self.target_velocity)
    }

    /// One tick of a missile: follow the contact, else a hand-off near the
    /// current target, else the current target; detonate at the target,
    /// else accelerate by `acc` along the pursuit course.
    pub fn missile_tick(
        &mut self,
        view: WorldView,
        scan: Option<Contact>,
        received: Option<Message>,
        radar: &mut Radar,
        acc: i64,
    ) -> (r: MissileOrders)
        requires
            old(self).in_arena(),
            in_arena(view.position),
            in_arena(view.velocity),
            scan matches Some(c) ==> in_arena(c.position) && in_arena(c.velocity),
            old(radar).inv(),
            0 <= acc <= ACCEL_LIMIT,
        ensures
            final(self).in_arena(),
            final(radar).inv(),
            missile_tick_post(*old(self), *final(self), *old(radar), *final(radar), view, scan, received, acc, r),
    {
        match scan {
            Some(c) => {
                self.target_position = c.position;
                self.target_velocity = c.velocity;
                radar.narrow();
            },
            None => {
                let mut adopted = false;
                if received.is_some() {
                    let (p, v) = parse_orders(received);
                    if arena_ok(p) && arena_ok(v) {
                        let d = p.sub(self.target_position);
                        if d.length_squared() < (HANDOFF_RADIUS * HANDOFF_RADIUS) as u128 {
                            self.target_position = p;
                            self.target_velocity = v;
                            radar.set_width(MISSILE_NARROWEST);
                            adopted = true;
                        }
                    }
                }
                if !adopted {
                    radar.widen();
                }
            },
        }
        let dp = self.target_position.sub(view.position);
        let dv = self.target_velocity.sub(view.velocity);
        if should_explode(dp, dv, MISSILE_PROXIMITY, MISSILE_CPA_RADIUS) {
            return MissileOrders { explode: true, accelerate: None, radar_toward: dp };
        }
        if dp.length_squared() < (TERMINAL_RANGE * TERMINAL_RANGE) as u128 {
            radar.set_width(TERMINAL_WIDTH);
        }
        let a = pursuit(dp, dv, acc);
        MissileOrders { explode: false, accelerate: a, radar_toward: dp }
    }
}

fn arena_ok(v: Vec2) -> (r: bool)
    ensures
        r == in_arena(v),
{
    -ARENA_LIMIT <= v.x && v.x <= ARENA_LIMIT && -ARENA_LIMIT <= v.y && v.y <= ARENA_LIMIT
}

} // verus!
