//! Heading control, lead prediction and proportional-navigation seek.
use vstd::prelude::*;
use crate::angle::{angle_diff, angle_diff_spec, angle_ok, HALF_TURN};
use crate::vec2::{abs_int, fits, floor_sqrt, is_floor_sqrt, isqrt, norm_sq_of, tdiv, Vec2, COORD_LIMIT};

verus! {

/// Largest angular acceleration a controller may command.
pub const MAX_ANGULAR_ACCEL: i64 = 1_073_741_824;

/// Heading overshoot that remains if full opposite torque is applied now,
/// scaled by `2 * acc` (positive) so that it is an integer:
/// with `t = |vh| / acc`, `2 * acc * (vh * t - acc * t * t / 2 - dh)`.
pub open spec fn overshoot_scaled(dh: int, vh: int, acc: int) -> int {
    2 * vh * abs_int(vh) - vh * vh - 2 * acc * dh
}

/// Bang-bang torque choice from the signed heading error `dh` and the
/// relative angular velocity `vh`.
pub open spec fn bang_bang(dh: int, vh: int, acc: int) -> int {
    let p = overshoot_scaled(dh, vh, acc);
    if p < 0 {
        acc
    } else if p > 0 {
        -acc
    } else {
        0
    }
}

/// Torque that turns from `heading` (turning at `angular_velocity`) towards
/// `target_heading` (turning at `target_angular_velocity`) in least time with
/// torque `max_accel`: `+max_accel`, `-max_accel`, or none.
pub fn turn_to(
    heading: i64,
    angular_velocity: i64,
    target_heading: i64,
    target_angular_velocity: i64,
    max_accel: i64,
) -> (r: i64)
    requires
        angle_ok(heading),
        angle_ok(target_heading),
        angle_ok(angular_velocity),
        angle_ok(target_angular_velocity),
        0 < max_accel <= MAX_ANGULAR_ACCEL,
    ensures
        r == bang_bang(
            angle_diff_spec(heading as int, target_heading as int),
            angular_velocity - target_angular_velocity,
            max_accel as int,
        ),
{
    let dh = angle_diff(heading, target_heading);
    let vh = (angular_velocity as i128) - (target_angular_velocity as i128);
    let avh: i128 = if vh < 0 {
        -vh
    } else {
        vh
    };
    proof {
        assert(-4_000_000_000_000 < vh < 4_000_000_000_000);
        assert(vh * avh <= 16_000_000_000_000_000_000_000_000 && vh * avh
            >= -16_000_000_000_000_000_000_000_000) by (nonlinear_arith)
            requires
                -4_000_000_000_000 < vh < 4_000_000_000_000,
                avh == abs_int(vh as int),
        ;
        assert(vh * vh <= 16_000_000_000_000_000_000_000_000) by (nonlinear_arith)
            requires
                -4_000_000_000_000 < vh < 4_000_000_000_000,
        ;
        assert(vh * vh >= 0) by (nonlinear_arith);
        assert(-2_000_000_000_000_000_000 <= (max_accel as int) * (dh as int)
            <= 2_000_000_000_000_000_000) by (nonlinear_arith)
            requires
                0 < max_accel <= MAX_ANGULAR_ACCEL,
                -HALF_TURN < dh <= HALF_TURN,
        ;
    }
    let vv = vh * avh;
    let sq = vh * vh;
    let ad = (max_accel as i128) * (dh as i128);
    let p: i128 = 2 * vv - sq - 2 * ad;
    assert(p == overshoot_scaled(dh as int, vh as int, max_accel as int)) by (nonlinear_arith)
        requires
            vv == vh * avh,
            avh == abs_int(vh as int),
            sq == vh * vh,
            ad == max_accel * dh,
            p == 2 * vv - sq - 2 * ad,
    ;
    if p < 0 {
        max_accel
    } else if p > 0 {
        -max_accel
    } else {
        0
    }
}

/// A controller already on its target heading, and at rest like its target,
/// applies no torque.
pub proof fn lemma_turn_to_steady(heading: int, acc: int)
    requires
        acc > 0,
    ensures
        bang_bang(angle_diff_spec(heading, heading), 0, acc) == 0,
{
    crate::angle::lemma_shortest_turn_unique(0, 0);
}

/// Turn rate proportional to the heading error, with gain 10.
pub fn proportional_turn(heading: i64, target_heading: i64) -> (r: i64)
    requires
        angle_ok(heading),
        angle_ok(target_heading),
    ensures
        r == 10 * angle_diff_spec(heading as int, target_heading as int),
{
    let dh = angle_diff(heading, target_heading);
    10 * dh
}

/// One refinement of the predicted intercept offset: the target's offset `dp`
/// plus its relative velocity `dv` times the flight time of a projectile of
/// speed `speed` over the distance `|p|`.
pub open spec fn lead_step(dp: (int, int), dv: (int, int), p: (int, int), speed: int) -> (int, int) {
    let len = floor_sqrt(norm_sq_of(p));
    (dp.0 + tdiv(dv.0 * len, speed), dp.1 + tdiv(dv.1 * len, speed))
}

/// The predicted offset after `k` refinements, starting from `dp`.
pub open spec fn lead_iter(dp: (int, int), dv: (int, int), speed: int, k: nat) -> (int, int)
    decreases k,
{
    if k == 0 {
        dp
    } else {
        lead_step(dp, dv, lead_iter(dp, dv, speed, (k - 1) as nat), speed)
    }
}

/// Number of refinements of the lead predictor.
pub const LEAD_ITERATIONS: u32 = 3;

/// Rounds `a / b` toward zero.
pub fn div_toward_zero(a: i128, b: i128) -> (r: i128)
    requires
        b > 0,
        -0x4000_0000_0000_0000_0000_0000_0000_0000 < a < 0x4000_0000_0000_0000_0000_0000_0000_0000,
    ensures
        r == tdiv(a as int, b as int),
{
    if a >= 0 {
        a / b
    } else {
        -((-a) / b)
    }
}

pub fn lead_step_exec(dp: Vec2, dv: Vec2, p: Vec2, speed: i64) -> (r: Option<Vec2>)
    requires
        dp.valid(),
        dv.valid(),
        p.valid(),
        speed > 0,
    ensures
        r is Some <==> fits(lead_step(dp@, dv@, p@, speed as int)),
        r matches Some(v) ==> v@ == lead_step(dp@, dv@, p@, speed as int) && v.valid(),
{
    let len = p.length();
    let ghost l = COORD_LIMIT as int;
    assert(-2 * l * l <= dv.x * len <= 2 * l * l && -2 * l * l <= dv.y * len <= 2 * l * l)
        by (nonlinear_arith)
        requires
            abs_int(dv.x as int) <= l,
            abs_int(dv.y as int) <= l,
            0 <= len <= 2 * l,
    ;
    let qx = div_toward_zero((dv.x as i128) * (len as i128), speed as i128);
    let qy = div_toward_zero((dv.y as i128) * (len as i128), speed as i128);
    proof {
        vstd::arithmetic::div_mod::lemma_div_is_ordered_by_denominator(
            abs_int(dv.x * len),
            1,
            speed as int,
        );
        vstd::arithmetic::div_mod::lemma_div_is_ordered_by_denominator(
            abs_int(dv.y * len),
            1,
            speed as int,
        );
    }
    let x = (dp.x as i128) + qx;
    let y = (dp.y as i128) + qy;
    if -(COORD_LIMIT as i128) <= x && x <= COORD_LIMIT as i128 && -(COORD_LIMIT as i128) <= y
        && y <= COORD_LIMIT as i128 {
        Some(Vec2 { x: x as i64, y: y as i64 })
    } else {
        None
    }
}

/// Intercept offset for a projectile of speed `speed` fired at a target at
/// offset `dp` moving at relative velocity `dv`, refined `LEAD_ITERATIONS`
/// times. `None` when an estimate leaves the coordinate range, as happens
/// when the target outruns the projectile.
pub fn lead_predict(dp: Vec2, dv: Vec2, speed: i64) -> (r: Option<Vec2>)
    requires
        dp.valid(),
        dv.valid(),
        speed > 0,
    ensures
        r is Some <==> forall|k: nat| k <= 3 ==> fits(#[trigger] lead_iter(dp@, dv@, speed as int, k)),
        r matches Some(v) ==> v@ == lead_iter(dp@, dv@, speed as int, 3),
{
    let mut p = dp;
    let mut i: u32 = 0;
    while i < LEAD_ITERATIONS
        invariant
            i <= 3,
            dp.valid(),
            dv.valid(),
            speed > 0,
            p.valid(),
            p@ == lead_iter(dp@, dv@, speed as int, i as nat),
            forall|k: nat| k <= i ==> fits(#[trigger] lead_iter(dp@, dv@, speed as int, k)),
        decreases 3 - i,
    {
        match lead_step_exec(dp, dv, p, speed) {
            Some(v) => {
                p = v;
                i += 1;
                assert(forall|k: nat| k <= i ==> fits(#[trigger] lead_iter(dp@, dv@, speed as int, k)));
            },
            None => {
                assert(!fits(lead_iter(dp@, dv@, speed as int, (i + 1) as nat)));
                return None;
            },
        }
    }
    Some(p)
}

/// A target at rest relative to the shooter needs no lead: every refinement
/// of the prediction is the offset itself.
pub proof fn lemma_lead_stationary(dp: (int, int), speed: int, k: nat)
    requires
        speed > 0,
    ensures
        lead_iter(dp, (0, 0), speed, k) == dp,
    decreases k,
{
    if k > 0 {
        lemma_lead_stationary(dp, speed, (k - 1) as nat);
        let len = floor_sqrt(norm_sq_of(dp));
        assert(0 * len == 0);
    }
}

/// Largest magnitude of a coordinate of the offset and relative velocity that
/// `seek` accepts.
pub const SEEK_LIMIT: i64 = 1_073_741_824;

/// Navigation gain of proportional navigation.
pub const NAV_GAIN: i64 = 4;

/// Forward component of the commanded acceleration, in the line-of-sight frame.
pub const FORWARD_ACCEL: i64 = 100;

/// Magnitude of the acceleration that `seek` commands.
pub const MAX_THRUST: i64 = 400;

/// Saturation of the lateral component, far beyond any forward component.
pub const LATERAL_LIMIT: i64 = 1_099_511_627_776;

pub open spec fn saturate_lateral(l: int) -> int {
    if l > LATERAL_LIMIT {
        LATERAL_LIMIT as int
    } else if l < -LATERAL_LIMIT {
        -LATERAL_LIMIT
    } else {
        l
    }
}

/// Lateral acceleration `NAV_GAIN * closing_speed * los_rate`, where
/// `closing_speed = -|dp.y * dv.y - dp.x * dv.x| / |dp|` and
/// `los_rate = (dp.y * dv.x - dp.x * dv.y) / |dp|^2`, rounded toward zero and saturated.
pub open spec fn lateral_spec(dp: (int, int), dv: (int, int)) -> int {
    let n = norm_sq_of(dp);
    let m = floor_sqrt(n);
    let q = dp.1 * dv.1 - dp.0 * dv.0;
    let c = dp.1 * dv.0 - dp.0 * dv.1;
    saturate_lateral(tdiv(-4 * abs_int(q) * c, m * n))
}

/// `x / m` rounded up, for `m > 0`.
pub open spec fn ceil_div(x: int, m: int) -> int {
    -((-x) / m)
}

/// `x / m` for `m > 0`, rounded toward the sign of `s`: up where `s` is
/// positive, down where it is negative, toward zero where it is zero.
pub open spec fn div_toward_sign(x: int, m: int, s: int) -> int {
    if s > 0 {
        ceil_div(x, m)
    } else if s < 0 {
        x / m
    } else {
        tdiv(x, m)
    }
}

/// The commanded acceleration in the line-of-sight frame: the direction
/// `(FORWARD_ACCEL, lateral)` scaled to `MAX_THRUST`. The forward part is
/// rounded up, so it is at least 1; the lateral part toward zero.
pub open spec fn los_thrust(lateral: int) -> (int, int) {
    let h = floor_sqrt(10000 + lateral * lateral);
    (ceil_div(40000, h), tdiv(400 * lateral, h))
}

/// The line-of-sight thrust `t` rotated into the world frame along `dp`,
/// whose rounded-down length is `m`; each component is rounded toward the
/// side of `dp`, which keeps the thrust pointing at the target.
pub open spec fn to_world(t: (int, int), dp: (int, int), m: int) -> (int, int) {
    let x = t.0 * dp.0 - t.1 * dp.1;
    let y = t.0 * dp.1 + t.1 * dp.0;
    (div_toward_sign(x, m, dp.0), div_toward_sign(y, m, dp.1))
}

/// Proportional-navigation acceleration toward a target at offset `dp` with
/// relative velocity `dv`; `None` when the target is reached (`dp` is zero).
pub open spec fn seek_spec(dp: (int, int), dv: (int, int)) -> Option<(int, int)> {
    if dp.0 == 0 && dp.1 == 0 {
        None
    } else {
        Some(to_world(los_thrust(lateral_spec(dp, dv)), dp, floor_sqrt(norm_sq_of(dp))))
    }
}

pub open spec fn seek_ok(v: Vec2) -> bool {
    abs_int(v.x as int) <= SEEK_LIMIT && abs_int(v.y as int) <= SEEK_LIMIT
}

proof fn lemma_component_le_root(a: int, b: int, n: int, m: int)
    requires
        n == a * a + b * b,
        is_floor_sqrt(n, m),
    ensures
        abs_int(a) <= m,
        abs_int(b) <= m,
{
    assert(a * a <= n && b * b <= n) by (nonlinear_arith)
        requires
            n == a * a + b * b,
    ;
    assert(abs_int(a) <= m && abs_int(b) <= m) by (nonlinear_arith)
        requires
            a * a <= n,
            b * b <= n,
            n < (m + 1) * (m + 1),
            m >= 0,
    ;
}

proof fn lemma_tdiv_bound(a: int, b: int, k: int)
    requires
        b > 0,
        abs_int(a) <= k * b,
        k >= 0,
    ensures
        abs_int(tdiv(a, b)) <= k,
{
    vstd::arithmetic::div_mod::lemma_div_is_ordered(abs_int(a), k * b, b);
    vstd::arithmetic::div_mod::lemma_div_multiples_vanish(k, b);
    assert(k * b == b * k) by (nonlinear_arith);
}

/// Proportional-navigation seek: the acceleration, of length about
/// `MAX_THRUST` in the world frame and always with a part toward the target, that steers a ship at `position` moving at
/// `velocity` onto a target at `p` moving at `v`; its angle is the heading to
/// turn to. `None` when the ship is at the target, where no correction is made.
pub fn seek(p: Vec2, v: Vec2, position: Vec2, velocity: Vec2) -> (r: Option<Vec2>)
    requires
        p.valid(),
        v.valid(),
        position.valid(),
        velocity.valid(),
        abs_int(p.x - position.x) <= SEEK_LIMIT,
        abs_int(p.y - position.y) <= SEEK_LIMIT,
        abs_int(v.x - velocity.x) <= SEEK_LIMIT,
        abs_int(v.y - velocity.y) <= SEEK_LIMIT,
    ensures
        r is None <==> seek_spec(
            (p.x - position.x, p.y - position.y),
            (v.x - velocity.x, v.y - velocity.y),
        ) is None,
        r matches Some(a) ==> Some(a@) == seek_spec(
            (p.x - position.x, p.y - position.y),
            (v.x - velocity.x, v.y - velocity.y),
        ),
        r matches Some(a) ==> abs_int(a.x as int) <= 2 * MAX_THRUST + 1 && abs_int(a.y as int)
            <= 2 * MAX_THRUST + 1,
        r matches Some(a) ==> a.x * (p.x - position.x) + a.y * (p.y - position.y) > 0,
{
    let dp = p.sub(position);
    let dv = v.sub(velocity);
    if dp.x == 0 && dp.y == 0 {
        return None;
    }
    let ghost lim = SEEK_LIMIT as int;
    let n = dp.length_squared();
    let m = dp.length();
    proof {
        lemma_component_le_root(dp.x as int, dp.y as int, n as int, m as int);
        assert(n <= 2 * lim * lim) by (nonlinear_arith)
            requires
                n == dp.x * dp.x + dp.y * dp.y,
                abs_int(dp.x as int) <= lim,
                abs_int(dp.y as int) <= lim,
        ;
        assert(m <= 2 * lim) by (nonlinear_arith)
            requires
                m * m <= n,
                n <= 2 * lim * lim,
                lim > 0,
                m >= 0,
        ;
        assert(abs_int(dp.y * dv.y) <= lim * lim && abs_int(dp.x * dv.x) <= lim * lim && abs_int(
            dp.y * dv.x,
        ) <= lim * lim && abs_int(dp.x * dv.y) <= lim * lim) by (nonlinear_arith)
            requires
                abs_int(dp.x as int) <= lim,
                abs_int(dp.y as int) <= lim,
                abs_int(dv.x as int) <= lim,
                abs_int(dv.y as int) <= lim,
                lim > 0,
        ;
    }
    let q = (dp.y as i128) * (dv.y as i128) - (dp.x as i128) * (dv.x as i128);
    let c = (dp.y as i128) * (dv.x as i128) - (dp.x as i128) * (dv.y as i128);
    let aq: i128 = if q < 0 {
        -q
    } else {
        q
    };
    proof {
        assert(abs_int(-4 * aq * c) <= 16 * lim * lim * lim * lim) by (nonlinear_arith)
            requires
                0 <= aq <= 2 * lim * lim,
                abs_int(c as int) <= 2 * lim * lim,
                lim > 0,
        ;
        assert(n > 0) by (nonlinear_arith)
            requires
                m * m <= n,
                m > 0,
        ;
        assert(0 < m * n <= 4 * lim * lim * lim) by (nonlinear_arith)
            requires
                0 < m <= 2 * lim,
                0 < n <= 2 * lim * lim,
        ;
    }
    let num = -4 * aq * c;
    let den = (m as i128) * (n as i128);
    let raw = div_toward_zero(num, den);
    let lat: i128 = if raw > LATERAL_LIMIT as i128 {
        LATERAL_LIMIT as i128
    } else if raw < -(LATERAL_LIMIT as i128) {
        -(LATERAL_LIMIT as i128)
    } else {
        raw
    };
    let mi = m as i128;
    proof {
        assert(0 <= lat * lat <= LATERAL_LIMIT * LATERAL_LIMIT) by (nonlinear_arith)
            requires
                abs_int(lat as int) <= LATERAL_LIMIT,
        ;
    }
    let hn = (10000 + lat * lat) as u128;
    let h = isqrt(hn);
    proof {
        crate::vec2::lemma_floor_sqrt_unique(hn as int, h as int);
        assert(h >= 100) by (nonlinear_arith)
            requires
                hn < (h + 1) * (h + 1),
                hn >= 10000,
                h >= 0,
        ;
        assert(abs_int(lat as int) <= h) by (nonlinear_arith)
            requires
                hn == 10000 + lat * lat,
                hn < (h + 1) * (h + 1),
                h >= 0,
        ;
        lemma_tdiv_bound(400 * lat, h as int, 400);
        vstd::arithmetic::div_mod::lemma_fundamental_div_mod(-40000, h as int);
        let q = (-40000int) / (h as int);
        assert(1 <= -q <= 400) by (nonlinear_arith)
            requires
                -40000 == (h as int) * q + (-40000int) % (h as int),
                0 <= (-40000int) % (h as int) < h,
                h >= 100,
        ;
    }
    let fw = ceil_div_exec(40000, h as i128);
    let lt = div_toward_zero(400 * lat, h as i128);
    proof {
        assert(abs_int(fw * dp.x) <= 400 * m && abs_int(fw * dp.y) <= 400 * m && abs_int(
            lt * dp.x,
        ) <= 400 * m && abs_int(lt * dp.y) <= 400 * m) by (nonlinear_arith)
            requires
                1 <= fw <= 400,
                abs_int(lt as int) <= 400,
                abs_int(dp.x as int) <= m,
                abs_int(dp.y as int) <= m,
        ;
    }
    let x = fw * (dp.x as i128) - lt * (dp.y as i128);
    let y = fw * (dp.y as i128) + lt * (dp.x as i128);
    let ax = div_toward_sign_exec(x, mi, dp.x as i128);
    let ay = div_toward_sign_exec(y, mi, dp.y as i128);
    proof {
        lemma_toward_sign_bound(x as int, m as int, dp.x as int);
        lemma_toward_sign_bound(y as int, m as int, dp.y as int);
        lemma_toward_sign_side(x as int, m as int, dp.x as int);
        lemma_toward_sign_side(y as int, m as int, dp.y as int);
        assert(x * dp.x + y * dp.y == fw * n) by (nonlinear_arith)
            requires
                x == fw * dp.x - lt * dp.y,
                y == fw * dp.y + lt * dp.x,
                n == dp.x * dp.x + dp.y * dp.y,
        ;
        assert(fw * n > 0) by (nonlinear_arith)
            requires
                fw >= 1,
                n > 0,
        ;
        assert(ax * dp.x + ay * dp.y > 0) by (nonlinear_arith)
            requires
                m * (ax * dp.x) >= x * dp.x,
                m * (ay * dp.y) >= y * dp.y,
                x * dp.x + y * dp.y > 0,
                m > 0,
        ;
        crate::vec2::lemma_floor_sqrt_unique(n as int, m as int);
    }
    Some(Vec2 { x: ax as i64, y: ay as i64 })
}

/// `x / m` rounded up.
fn ceil_div_exec(x: i128, m: i128) -> (r: i128)
    requires
        m > 0,
        -0x4000_0000_0000_0000_0000_0000_0000_0000 < x < 0x4000_0000_0000_0000_0000_0000_0000_0000,
    ensures
        r == ceil_div(x as int, m as int),
{
    -floor_div(-x, m)
}

/// `x / m` rounded down.
fn floor_div(x: i128, m: i128) -> (r: i128)
    requires
        m > 0,
        -0x4000_0000_0000_0000_0000_0000_0000_0000 < x < 0x4000_0000_0000_0000_0000_0000_0000_0000,
    ensures
        r == (x as int) / (m as int),
        -abs_int(x as int) - 1 <= r <= abs_int(x as int),
{
    if x >= 0 {
        proof {
            vstd::arithmetic::div_mod::lemma_div_is_ordered_by_denominator(x as int, 1, m as int);
        }
        x / m
    } else {
        let q = (-x - 1) / m;
        proof {
            vstd::arithmetic::div_mod::lemma_div_is_ordered_by_denominator(-x - 1, 1, m as int);
            let a = -x - 1;
            vstd::arithmetic::div_mod::lemma_fundamental_div_mod(a as int, m as int);
            let t = (a as int) % (m as int);
            assert(x == (m as int) * (-q - 1) + (m - t - 1)) by (nonlinear_arith)
                requires
                    a == -x - 1,
                    a == (m as int) * q + t,
            ;
            vstd::arithmetic::div_mod::lemma_fundamental_div_mod_converse(
                x as int,
                m as int,
                -q - 1,
                m - t - 1,
            );
        }
        -q - 1
    }
}

/// `x / m` rounded toward the sign of `s`.
fn div_toward_sign_exec(x: i128, m: i128, s: i128) -> (r: i128)
    requires
        m > 0,
        -0x4000_0000_0000_0000_0000_0000_0000_0000 < x < 0x4000_0000_0000_0000_0000_0000_0000_0000,
    ensures
        r == div_toward_sign(x as int, m as int, s as int),
{
    if s > 0 {
        ceil_div_exec(x, m)
    } else if s < 0 {
        floor_div(x, m)
    } else {
        div_toward_zero(x, m)
    }
}

/// Rounding toward the sign of `s` never moves the quotient against `s`:
/// `m * q * s >= x * s`.
proof fn lemma_toward_sign_side(x: int, m: int, s: int)
    requires
        m > 0,
    ensures
        m * (div_toward_sign(x, m, s) * s) >= x * s,
{
    let q = div_toward_sign(x, m, s);
    if s > 0 {
        vstd::arithmetic::div_mod::lemma_fundamental_div_mod(-x, m);
        let d = (-x) / m;
        assert(m * q >= x) by (nonlinear_arith)
            requires
                q == -d,
                -x == m * d + (-x) % m,
                0 <= (-x) % m < m,
        ;
        assert(m * (q * s) >= x * s) by (nonlinear_arith)
            requires
                m * q >= x,
                s > 0,
        ;
    } else if s < 0 {
        vstd::arithmetic::div_mod::lemma_fundamental_div_mod(x, m);
        assert(m * q <= x);
        assert(m * (q * s) >= x * s) by (nonlinear_arith)
            requires
                m * q <= x,
                s < 0,
        ;
    } else {
        assert(q * s == 0 && x * s == 0) by (nonlinear_arith)
            requires
                s == 0,
        ;
    }
}

/// Rounding toward any side stays within one of the quotient's bound.
proof fn lemma_toward_sign_bound(x: int, m: int, s: int)
    requires
        m > 0,
        abs_int(x) <= 800 * m,
    ensures
        abs_int(div_toward_sign(x, m, s)) <= 801,
{
    vstd::arithmetic::div_mod::lemma_fundamental_div_mod(x, m);
    vstd::arithmetic::div_mod::lemma_fundamental_div_mod(-x, m);
    let q1 = x / m;
    let q2 = (-x) / m;
    assert(-801 <= q1 <= 800) by (nonlinear_arith)
        requires
            x == m * q1 + x % m,
            0 <= x % m < m,
            -800 * m <= x <= 800 * m,
            m > 0,
    ;
    assert(-801 <= q2 <= 800) by (nonlinear_arith)
        requires
            -x == m * q2 + (-x) % m,
            0 <= (-x) % m < m,
            -800 * m <= x <= 800 * m,
            m > 0,
    ;
    if x < 0 {
        lemma_tdiv_bound(x, m, 800);
    } else {
        lemma_tdiv_bound(x, m, 800);
    }
}

} // verus!
