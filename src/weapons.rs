//! Gun volleys and the self-destruct rule of missiles and torpedoes.
use vstd::prelude::*;
use crate::vec2::{abs_int, norm_sq_of, tdiv, Vec2, COORD_LIMIT};

verus! {

/// Simulation ticks per second; one tick lasts `1 / TICKS_PER_SECOND` s.
pub const TICKS_PER_SECOND: i64 = 60;

/// Largest radius accepted by the detonation rules.
pub const RADIUS_LIMIT: i64 = 1_099_511_627_776;

/// Offset after one more tick, scaled by `TICKS_PER_SECOND`:
/// `TICKS_PER_SECOND * (dp + dv / TICKS_PER_SECOND)`.
pub open spec fn next_offset_scaled(dp: (int, int), dv: (int, int)) -> (int, int) {
    (60 * dp.0 + dv.0, 60 * dp.1 + dv.1)
}

/// `|dp + dv / 60| < radius`, squared and scaled to integers.
pub open spec fn next_within(dp: (int, int), dv: (int, int), radius: int) -> bool {
    norm_sq_of(next_offset_scaled(dp, dv)) < 3600 * (radius * radius)
}

/// `|dp| < radius`, squared.
pub open spec fn now_within(dp: (int, int), radius: int) -> bool {
    norm_sq_of(dp) < radius * radius
}

/// `|dp + dv / 60| > |dp|`: the closest approach has just passed.
pub open spec fn receding(dp: (int, int), dv: (int, int)) -> bool {
    norm_sq_of(next_offset_scaled(dp, dv)) > 3600 * norm_sq_of(dp)
}

/// Detonate when the target will be within `proximity` next tick, or when it
/// is within `cpa_radius` now and the distance has started to grow.
pub open spec fn detonate_spec(dp: (int, int), dv: (int, int), proximity: int, cpa_radius: int) -> bool {
    next_within(dp, dv, proximity) || (now_within(dp, cpa_radius) && receding(dp, dv))
}

fn sq_scaled(dp: Vec2, dv: Vec2) -> (r: (i128, i128))
    requires
        dp.valid(),
        dv.valid(),
    ensures
        r.0 == norm_sq_of(dp@),
        r.1 == norm_sq_of(next_offset_scaled(dp@, dv@)),
        0 <= r.0 <= 0x1_0000_0000_0000_0000_0000_0000,
        0 <= r.1 <= 0x10_0000_0000_0000_0000_0000_0000,
{
    let now = dp.length_squared() as i128;
    let nx = 60 * (dp.x as i128) + (dv.x as i128);
    let ny = 60 * (dp.y as i128) + (dv.y as i128);
    assert(0 <= nx * nx <= 0x4000_0000_0000_0000_0000_0000 && 0 <= ny * ny
        <= 0x4000_0000_0000_0000_0000_0000) by (nonlinear_arith)
        requires
            -0x8000_0000_0000 <= nx <= 0x8000_0000_0000,
            -0x8000_0000_0000 <= ny <= 0x8000_0000_0000,
    ;
    let sx = nx * nx;
    let sy = ny * ny;
    (now, sx + sy)
}

proof fn lemma_radius_square(r: int)
    requires
        0 <= r <= RADIUS_LIMIT,
    ensures
        0 <= r * r <= 0x1_0000_0000_0000_0000_0000,
{
    assert(0 <= r * r <= 0x1_0000_0000_0000_0000_0000) by (nonlinear_arith)
        requires
            0 <= r <= 0x100_0000_0000,
    ;
}

/// Whether a missile or torpedo at offset `dp` from its target, closing at
/// relative velocity `dv`, self-destructs this tick.
pub fn should_explode(dp: Vec2, dv: Vec2, proximity: i64, cpa_radius: i64) -> (r: bool)
    requires
        dp.valid(),
        dv.valid(),
        0 <= proximity <= RADIUS_LIMIT,
        0 <= cpa_radius <= RADIUS_LIMIT,
    ensures
        r == detonate_spec(dp@, dv@, proximity as int, cpa_radius as int),
{
    let (now, next) = sq_scaled(dp, dv);
    let p = proximity as i128;
    let c = cpa_radius as i128;
    proof {
        lemma_radius_square(p as int);
        lemma_radius_square(c as int);
    }
    let next_in = next < 3600 * (p * p);
    let now_in = now < c * c;
    let away = next > 3600 * now;
    next_in || (now_in && away)
}

/// Whether the target is within `radius` now or will be next tick.
pub fn within_radius_now_or_next(dp: Vec2, dv: Vec2, radius: i64) -> (r: bool)
    requires
        dp.valid(),
        dv.valid(),
        0 <= radius <= RADIUS_LIMIT,
    ensures
        r == (now_within(dp@, radius as int) || next_within(dp@, dv@, radius as int)),
{
    let (now, next) = sq_scaled(dp, dv);
    let q = radius as i128;
    proof {
        lemma_radius_square(q as int);
    }
    now < q * q || next < 3600 * (q * q)
}

/// A target that will be inside the proximity radius next tick sets off the
/// charge; one that is still closing and stays outside that radius does not.
pub proof fn lemma_detonation(dp: (int, int), dv: (int, int), proximity: int, cpa_radius: int)
    ensures
        next_within(dp, dv, proximity) ==> detonate_spec(dp, dv, proximity, cpa_radius),
        !next_within(dp, dv, proximity) && norm_sq_of(next_offset_scaled(dp, dv)) <= 3600
            * norm_sq_of(dp) ==> !detonate_spec(dp, dv, proximity, cpa_radius),
{
}

/// Lateral spacing of the offset mounts of a volley.
pub const VOLLEY_SPREAD: i64 = 15;

/// `VOLLEY_SPREAD` units along the left-hand normal of `p`, rounded toward zero;
/// zero when `p` is zero.
pub open spec fn lateral_offset_spec(p: (int, int), len: int) -> (int, int) {
    if len == 0 {
        (0, 0)
    } else {
        (tdiv(-15 * p.1, len), tdiv(15 * p.0, len))
    }
}

/// One order to a weapon mount.
#[derive(Clone, Copy, Debug, PartialEq, Eq, Structural)]
pub enum MountOrder {
    /// Point the mount at this offset from the ship.
    Aim { mount: u32, at: Vec2 },
    /// Fire the mount.
    Fire { mount: u32 },
}

/// Orders of a three-gun volley at the intercept offset `lead`: mount 0 fires
/// along the hull, mounts 1 and 2 aim `VOLLEY_SPREAD` units to either side of
/// the lead point and fire.
pub open spec fn volley_spec(lead: (int, int), len: int) -> Seq<MountOrder> {
    let off = lateral_offset_spec(lead, len);
    seq![
        MountOrder::Fire { mount: 0 },
        MountOrder::Aim { mount: 1, at: Vec2 { x: (lead.0 - off.0) as i64, y: (lead.1 - off.1) as i64 } },
        MountOrder::Fire { mount: 1 },
        MountOrder::Aim { mount: 2, at: Vec2 { x: (lead.0 + off.0) as i64, y: (lead.1 + off.1) as i64 } },
        MountOrder::Fire { mount: 2 },
    ]
}

/// Offset of `VOLLEY_SPREAD` units perpendicular to the line of fire `p`.
pub fn lateral_offset(p: Vec2) -> (r: Vec2)
    requires
        p.valid(),
    ensures
        r@ == lateral_offset_spec(p@, p.length_spec()),
        abs_int(r.x as int) <= 15 && abs_int(r.y as int) <= 15,
{
    let len = p.length();
    if len == 0 {
        return Vec2 { x: 0, y: 0 };
    }
    proof {
        let n = p.norm_sq();
        assert(p.x * p.x <= n && p.y * p.y <= n) by (nonlinear_arith)
            requires
                n == p.x * p.x + p.y * p.y,
        ;
        assert(abs_int(p.x as int) <= len && abs_int(p.y as int) <= len) by (nonlinear_arith)
            requires
                p.x * p.x <= n,
                p.y * p.y <= n,
                n < (len + 1) * (len + 1),
                len >= 0,
        ;
        vstd::arithmetic::div_mod::lemma_div_is_ordered(abs_int(15 * p.x), 15 * len, len as int);
        vstd::arithmetic::div_mod::lemma_div_is_ordered(abs_int(15 * p.y), 15 * len, len as int);
        vstd::arithmetic::div_mod::lemma_div_multiples_vanish(15, len as int);
        assert(15 * len == len * 15) by (nonlinear_arith);
    }
    let l = len as i128;
    let ny = -15 * (p.y as i128);
    let nx = 15 * (p.x as i128);
    let ox = if ny >= 0 {
        ny / l
    } else {
        -((-ny) / l)
    };
    let oy = if nx >= 0 {
        nx / l
    } else {
        -((-nx) / l)
    };
    Vec2 { x: ox as i64, y: oy as i64 }
}

/// The mount orders of a three-gun volley at the intercept offset `lead`.
pub fn volley(lead: Vec2) -> (r: Vec<MountOrder>)
    requires
        lead.valid(),
        abs_int(lead.x as int) <= COORD_LIMIT - 15,
        abs_int(lead.y as int) <= COORD_LIMIT - 15,
    ensures
        r@ == volley_spec(lead@, lead.length_spec()),
{
    let off = lateral_offset(lead);
    let left = Vec2 { x: lead.x - off.x, y: lead.y - off.y };
    let right = Vec2 { x: lead.x + off.x, y: lead.y + off.y };
    let r = vec![
        MountOrder::Fire { mount: 0 },
        MountOrder::Aim { mount: 1, at: left },
        MountOrder::Fire { mount: 1 },
        MountOrder::Aim { mount: 2, at: right },
        MountOrder::Fire { mount: 2 },
    ];
    assert(r@ =~= volley_spec(lead@, lead.length_spec()));
    r
}

} // verus!
