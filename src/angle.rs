//! Binary angles: a full turn is `TURN` units, so angle arithmetic is exact.
use vstd::prelude::*;

verus! {

/// Units in one full turn.
pub const TURN: i64 = 720_000;

/// Units in half a turn.
pub const HALF_TURN: i64 = 360_000;

/// Largest magnitude accepted for an angle or an angular rate.
pub const ANGLE_LIMIT: i64 = 1_099_511_627_776;

pub open spec fn angle_ok(a: i64) -> bool {
    -ANGLE_LIMIT <= a <= ANGLE_LIMIT
}

/// `a` and `b` denote the same direction.
pub open spec fn same_direction(a: int, b: int) -> bool {
    (a - b) % (TURN as int) == 0
}

/// `r` is the shortest signed turn that denotes the direction `d`.
pub open spec fn is_shortest_turn(d: int, r: int) -> bool {
    -HALF_TURN < r <= HALF_TURN && same_direction(r, d)
}

/// The shortest signed turn from `from` to `to`, in `(-HALF_TURN, HALF_TURN]`.
pub open spec fn angle_diff_spec(from: int, to: int) -> int {
    choose|r: int| #[trigger] is_shortest_turn(to - from, r)
}

/// Two shortest turns of one direction are equal.
pub proof fn lemma_shortest_turn_unique(d: int, r: int)
    requires
        is_shortest_turn(d, r),
    ensures
        angle_diff_spec(0, d) == r,
        forall|from: int, to: int| to - from == d ==> angle_diff_spec(from, to) == r,
{
    let t = TURN as int;
    assert(is_shortest_turn(d - 0, r));
    let s = angle_diff_spec(0, d);
    assert(is_shortest_turn(d, s));
    assert forall|q: int| is_shortest_turn(d, q) implies q == r by {
        vstd::arithmetic::div_mod::lemma_fundamental_div_mod(r - d, t);
        vstd::arithmetic::div_mod::lemma_fundamental_div_mod(q - d, t);
        let a = (r - d) / t;
        let b = (q - d) / t;
        assert(r - q == t * (a - b)) by (nonlinear_arith)
            requires
                r - d == t * a,
                q - d == t * b,
        ;
        assert(a - b == 0) by (nonlinear_arith)
            requires
                r - q == t * (a - b),
                -t < r - q < t,
                t == 720_000,
        ;
    }
    assert forall|from: int, to: int| to - from == d implies angle_diff_spec(from, to) == r by {
        assert(is_shortest_turn(to - from, r));
        assert(is_shortest_turn(to - from, angle_diff_spec(from, to)));
    }
}

/// The angle in `[0, TURN)` that denotes the same direction as `a`.
pub open spec fn normalized(a: int) -> int {
    a % (TURN as int)
}

/// Maps an angle into `[0, TURN)`.
pub fn normalize_angle(a: i64) -> (r: i64)
    requires
        angle_ok(a),
    ensures
        r == normalized(a as int),
        0 <= r < TURN,
{
    let t = TURN as u64;
    if a >= 0 {
        ((a as u64) % t) as i64
    } else {
        let m = ((-(a + 1)) as u64) % t;
        proof {
            let n = -(a + 1);
            assert(n % (TURN as int) == m);
            assert((a as int) == -n - 1);
            assert(((-n - 1) % (TURN as int)) == TURN - 1 - m) by {
                vstd::arithmetic::div_mod::lemma_fundamental_div_mod(n, TURN as int);
                let q = n / (TURN as int);
                assert(-n - 1 == (TURN as int) * (-q - 1) + (TURN - 1 - m));
                vstd::arithmetic::div_mod::lemma_fundamental_div_mod_converse(
                    -n - 1,
                    TURN as int,
                    -q - 1,
                    TURN - 1 - m,
                );
            }
        }
        TURN - 1 - (m as i64)
    }
}

/// Shortest signed turn from heading `from` to heading `to`: the one angle in
/// `(-HALF_TURN, HALF_TURN]` that denotes the direction `to - from`.
pub fn angle_diff(from: i64, to: i64) -> (r: i64)
    requires
        angle_ok(from),
        angle_ok(to),
    ensures
        r == angle_diff_spec(from as int, to as int),
        -HALF_TURN < r <= HALF_TURN,
        same_direction(r as int, to - from),
{
    let a = normalize_angle(from);
    let b = normalize_angle(to);
    let d = b - a;
    let r = if d > HALF_TURN {
        d - TURN
    } else if d <= -HALF_TURN {
        d + TURN
    } else {
        d
    };
    proof {
        let t = TURN as int;
        vstd::arithmetic::div_mod::lemma_fundamental_div_mod(from as int, t);
        vstd::arithmetic::div_mod::lemma_fundamental_div_mod(to as int, t);
        let k = if d > HALF_TURN {
            -1int
        } else if d <= -HALF_TURN {
            1int
        } else {
            0int
        };
        let m = (from as int) / t - (to as int) / t + k;
        assert(r - (to - from) == t * m) by (nonlinear_arith)
            requires
                from == t * ((from as int) / t) + a,
                to == t * ((to as int) / t) + b,
                d == b - a,
                r == d + k * t,
                m == (from as int) / t - (to as int) / t + k,
        ;
        vstd::arithmetic::div_mod::lemma_mod_multiples_basic(m, t);
        assert(t * m == m * t) by (nonlinear_arith);
        lemma_shortest_turn_unique(to - from, r as int);
    }
    r
}

} // verus!
