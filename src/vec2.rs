//! Two-dimensional integer vectors in world units.
use vstd::prelude::*;

verus! {

/// Largest magnitude of a coordinate of a valid vector.
pub const COORD_LIMIT: i64 = 1_099_511_627_776;

/// A 2-D vector with integer coordinates.
#[derive(Clone, Copy, Debug, PartialEq, Eq, Structural)]
pub struct Vec2 {
    pub x: i64,
    pub y: i64,
}

pub open spec fn abs_int(a: int) -> int {
    if a < 0 { -a } else { a }
}

/// Division truncating toward zero, as integer division does in Rust.
pub open spec fn tdiv(a: int, b: int) -> int {
    if a >= 0 { a / b } else { -((-a) / b) }
}

/// `r` is the floor of the square root of `n`.
pub open spec fn is_floor_sqrt(n: int, r: int) -> bool {
    0 <= r && r * r <= n && n < (r + 1) * (r + 1)
}

/// The floor of the square root of a non-negative integer.
pub open spec fn floor_sqrt(n: int) -> int {
    choose|r: int| is_floor_sqrt(n, r)
}

impl View for Vec2 {
    type V = (int, int);

    open spec fn view(&self) -> (int, int) {
        (self.x as int, self.y as int)
    }
}

/// A pair of integers that a valid vector can hold.
pub open spec fn fits(p: (int, int)) -> bool {
    abs_int(p.0) <= COORD_LIMIT && abs_int(p.1) <= COORD_LIMIT
}

pub open spec fn norm_sq_of(p: (int, int)) -> int {
    p.0 * p.0 + p.1 * p.1
}

impl Vec2 {
    pub open spec fn valid(self) -> bool {
        abs_int(self.x as int) <= COORD_LIMIT && abs_int(self.y as int) <= COORD_LIMIT
    }

    pub open spec fn dot_spec(self, o: Vec2) -> int {
        self.x * o.x + self.y * o.y
    }

    /// The z component of the 3-D cross product.
    pub open spec fn cross_spec(self, o: Vec2) -> int {
        self.x * o.y - self.y * o.x
    }

    pub open spec fn norm_sq(self) -> int {
        self.dot_spec(self)
    }

    /// Euclidean length, rounded down.
    pub open spec fn length_spec(self) -> int {
        floor_sqrt(self.norm_sq())
    }

    pub fn new(x: i64, y: i64) -> (r: Vec2)
        ensures
            r.x == x,
            r.y == y,
    {
        Vec2 { x, y }
    }

    pub fn zero() -> (r: Vec2)
        ensures
            r.x == 0,
            r.y == 0,
    {
        Vec2 { x: 0, y: 0 }
    }

    pub fn add(self, o: Vec2) -> (r: Vec2)
        requires
            self.valid(),
            o.valid(),
        ensures
            r.x == self.x + o.x,
            r.y == self.y + o.y,
    {
        Vec2 { x: self.x + o.x, y: self.y + o.y }
    }

    pub fn sub(self, o: Vec2) -> (r: Vec2)
        requires
            self.valid(),
            o.valid(),
        ensures
            r.x == self.x - o.x,
            r.y == self.y - o.y,
    {
        Vec2 { x: self.x - o.x, y: self.y - o.y }
    }

    pub fn dot(self, o: Vec2) -> (r: i128)
        requires
            self.valid(),
            o.valid(),
        ensures
            r == self.dot_spec(o),
    {
        proof {
            lemma_mul_coord_bound(self.x as int, o.x as int);
            lemma_mul_coord_bound(self.y as int, o.y as int);
        }
        (self.x as i128) * (o.x as i128) + (self.y as i128) * (o.y as i128)
    }

    pub fn cross(self, o: Vec2) -> (r: i128)
        requires
            self.valid(),
            o.valid(),
        ensures
            r == self.cross_spec(o),
    {
        proof {
            lemma_mul_coord_bound(self.x as int, o.y as int);
            lemma_mul_coord_bound(self.y as int, o.x as int);
        }
        (self.x as i128) * (o.y as i128) - (self.y as i128) * (o.x as i128)
    }

    pub fn length_squared(self) -> (r: u128)
        requires
            self.valid(),
        ensures
            r == self.norm_sq(),
            r <= 2 * COORD_LIMIT * COORD_LIMIT,
    {
        proof {
            lemma_mul_coord_bound(self.x as int, self.x as int);
            lemma_mul_coord_bound(self.y as int, self.y as int);
            lemma_square_nonneg(self.x as int);
            lemma_square_nonneg(self.y as int);
        }
        ((self.x as i128) * (self.x as i128) + (self.y as i128) * (self.y as i128)) as u128
    }

    /// Euclidean length rounded down.
    pub fn length(self) -> (r: u64)
        requires
            self.valid(),
        ensures
            r == self.length_spec(),
            is_floor_sqrt(self.norm_sq(), r as int),
            r == 0 <==> self.x == 0 && self.y == 0,
            r <= 2 * COORD_LIMIT,
    {
        let n = self.length_squared();
        let r = isqrt(n);
        proof {
            lemma_floor_sqrt_unique(n as int, r as int);
            lemma_square_nonneg(self.x as int);
            lemma_square_nonneg(self.y as int);
            if r == 0 {
                assert(self.x * self.x + self.y * self.y < 1);
                lemma_square_zero(self.x as int);
                lemma_square_zero(self.y as int);
            }
            let l = COORD_LIMIT as int;
            assert(r <= 2 * l) by (nonlinear_arith)
                requires
                    r * r <= n,
                    n <= 2 * l * l,
                    l > 0,
                    r >= 0,
            ;
            if self.x == 0 && self.y == 0 {
                assert(r * r <= 0);
                lemma_square_zero(r as int);
            }
        }
        r
    }
}

pub proof fn lemma_square_nonneg(a: int)
    ensures
        a * a >= 0,
{
    assert(a * a >= 0) by (nonlinear_arith);
}

pub proof fn lemma_square_zero(a: int)
    requires
        a * a <= 0,
    ensures
        a == 0,
{
    assert(a * a <= 0 ==> a == 0) by (nonlinear_arith);
}

pub proof fn lemma_mul_coord_bound(a: int, b: int)
    requires
        abs_int(a) <= COORD_LIMIT,
        abs_int(b) <= COORD_LIMIT,
    ensures
        -COORD_LIMIT * COORD_LIMIT <= a * b <= COORD_LIMIT * COORD_LIMIT,
{
    let l = COORD_LIMIT as int;
    assert(-l <= a <= l && -l <= b <= l ==> -l * l <= a * b <= l * l) by (nonlinear_arith);
}

/// A value that is the floor square root of `n` is `floor_sqrt(n)`.
pub proof fn lemma_floor_sqrt_unique(n: int, r: int)
    requires
        is_floor_sqrt(n, r),
    ensures
        floor_sqrt(n) == r,
{
    let s = floor_sqrt(n);
    assert(is_floor_sqrt(n, s));
    if s < r {
        assert((s + 1) * (s + 1) <= r * r) by (nonlinear_arith)
            requires
                0 <= s,
                s + 1 <= r,
        ;
    } else if r < s {
        assert((r + 1) * (r + 1) <= s * s) by (nonlinear_arith)
            requires
                0 <= r,
                r + 1 <= s,
        ;
    }
}

/// Floor of the square root, by bisection.
pub fn isqrt(n: u128) -> (r: u64)
    requires
        n < 0x4000_0000_0000_0000_0000_0000_0000_0000,
    ensures
        is_floor_sqrt(n as int, r as int),
{
    let mut lo: u128 = 0;
    let mut hi: u128 = 0x8000_0000_0000_0000;
    assert(hi * hi > n);
    while lo + 1 < hi
        invariant
            lo < hi,
            hi <= 0x8000_0000_0000_0000,
            lo * lo <= n,
            n < hi * hi,
        decreases hi - lo,
    {
        let mid = lo + (hi - lo) / 2;
        assert(mid * mid <= 0x4000_0000_0000_0000_0000_0000_0000_0000) by (nonlinear_arith)
            requires
                mid <= 0x8000_0000_0000_0000,
        ;
        if mid * mid <= n {
            lo = mid;
        } else {
            hi = mid;
        }
    }
    assert(hi == lo + 1);
    lo as u64
}

} // verus!
