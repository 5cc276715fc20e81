//! Units of measure, limits, and the integer arithmetic shared by every
//! other module.
//!
//! All quantities are integers. Lengths are counted in *ticks*, a hundred
//! thousand to the unit of length; velocities in ticks per second,
//! accelerations in ticks per second squared, and forces in mass units times
//! ticks per second squared. In these units the gravitational constant
//! `6.67430e-11` is the whole number `66_743`.

use vstd::prelude::*;

verus! {

/// Number of ticks in one unit of length.
pub const TICKS_PER_UNIT: i64 = 100_000;

/// Largest magnitude a stored coordinate of position, velocity or
/// acceleration may have. Results that would leave `[-LIMIT, LIMIT]` are
/// held at the nearer end.
pub const LIMIT: i64 = 1_000_000_000_000_000_000;

/// The gravitational constant, in ticks cubed per mass unit per second
/// squared.
pub const GRAVITATIONAL_CONSTANT: i128 = 66_743;

/// Largest mass a body may have.
pub const MAX_MASS: i64 = 40_000_000_000_000_000;

/// Distance, in ticks, below which two bodies attract each other as if they
/// were this far apart.
pub const SOFTENING: i128 = 100_000;

/// `SOFTENING` squared.
pub const SOFTENING_SQUARED: i128 = 10_000_000_000;

/// Largest number of bodies that one evaluation accepts.
pub const MAX_BODIES: usize = 1_000_000_000;

/// The throttle amount that stands for full thrust: a variable throttle is
/// counted in millionths.
pub const THROTTLE_ONE: i32 = 1_000_000;

/// The length of a heading: each component of a body's forward direction
/// is counted in millionths.
pub const HEADING_ONE: i64 = 1_000_000;

/// A span of time as the laws of motion see it: `num / den` seconds.
pub struct Span {
    pub num: int,
    pub den: int,
}

/// A span of time: `numerator / denominator` seconds, with a denominator
/// that is not zero.
#[derive(Clone, Copy, Debug, PartialEq, Eq, Structural)]
pub struct TimeStep {
    numerator: u32,
    denominator: u32,
}

impl View for TimeStep {
    type V = Span;

    closed spec fn view(&self) -> Span {
        Span { num: self.numerator as int, den: self.denominator as int }
    }
}

impl TimeStep {
    /// The span is not negative and its denominator is not zero.
    pub open spec fn wf(&self) -> bool {
        self@.num >= 0 && self@.den > 0
    }

    /// The span of `numerator / denominator` seconds, or `None` when the
    /// denominator is zero.
    pub fn new(numerator: u32, denominator: u32) -> (step: Option<TimeStep>)
        ensures
            step is Some <==> denominator > 0,
            step matches Some(t) ==> t.wf() && t@ == (Span {
                num: numerator as int,
                den: denominator as int,
            }),
    {
        if denominator == 0 {
            None
        } else {
            Some(TimeStep { numerator, denominator })
        }
    }

    /// The number of `1 / denominator()` seconds in the span.
    pub fn numerator(&self) -> (n: u32)
        ensures
            n == self@.num,
    {
        self.numerator
    }

    /// The number of equal parts the second is cut into.
    pub fn denominator(&self) -> (d: u32)
        ensures
            d == self@.den,
    {
        self.denominator
    }
}

/// Quotient of `a` by a positive `b`, rounded toward zero.
pub open spec fn div_toward_zero(a: int, b: int) -> int {
    if a >= 0 {
        a / b
    } else {
        -((-a) / b)
    }
}

/// `x` confined to `[-bound, bound]`.
pub open spec fn clamp(x: int, bound: int) -> int {
    if x > bound {
        bound
    } else if x < -bound {
        -bound
    } else {
        x
    }
}

/// The larger of `a` and `b`.
pub open spec fn larger(a: int, b: int) -> int {
    if a >= b {
        a
    } else {
        b
    }
}

/// `r` is the integer square root of `n`: the largest natural number whose
/// square does not exceed `n`.
pub open spec fn is_sqrt_floor(n: int, r: int) -> bool {
    0 <= r && r * r <= n < (r + 1) * (r + 1)
}

/// The integer square root of `n`, for `n >= 0`.
pub open spec fn sqrt_floor(n: int) -> int {
    choose|r: int| is_sqrt_floor(n, r)
}

/// Rounding toward zero commutes with negation.
pub proof fn lemma_div_toward_zero_odd(a: int, b: int)
    requires
        b > 0,
    ensures
        div_toward_zero(-a, b) == -div_toward_zero(a, b),
{
    if a == 0 {
        assert(0int / b == 0) by (nonlinear_arith)
            requires
                b > 0,
        ;
    }
}

/// The quotient toward zero is no larger in magnitude than the dividend.
pub proof fn lemma_div_toward_zero_bound(a: int, b: int, bound: int)
    requires
        b > 0,
        -bound <= a <= bound,
    ensures
        -bound <= div_toward_zero(a, b) <= bound,
        a >= 0 ==> 0 <= div_toward_zero(a, b) <= a,
        a <= 0 ==> a <= div_toward_zero(a, b) <= 0,
{
    if a >= 0 {
        assert(0 <= a / b <= a) by (nonlinear_arith)
            requires
                a >= 0,
                b > 0,
        ;
    } else {
        let m = -a;
        assert(0 <= m / b <= m) by (nonlinear_arith)
            requires
                m >= 0,
                b > 0,
        ;
    }
}

/// At most one number is the integer square root of `n`.
pub proof fn lemma_sqrt_floor_unique(n: int, r1: int, r2: int)
    requires
        is_sqrt_floor(n, r1),
        is_sqrt_floor(n, r2),
    ensures
        r1 == r2,
{
    if r1 < r2 {
        assert((r1 + 1) * (r1 + 1) <= r2 * r2) by (nonlinear_arith)
            requires
                0 <= r1,
                r1 + 1 <= r2,
        ;
    } else if r2 < r1 {
        assert((r2 + 1) * (r2 + 1) <= r1 * r1) by (nonlinear_arith)
            requires
                0 <= r2,
                r2 + 1 <= r1,
        ;
    }
}

/// Every number that is not negative has an integer square root.
pub proof fn lemma_sqrt_floor_exists(n: int)
    requires
        0 <= n,
    ensures
        is_sqrt_floor(n, sqrt_floor(n)),
    decreases n,
{
    if n == 0 {
        assert(is_sqrt_floor(0, 0));
    } else {
        lemma_sqrt_floor_exists(n - 1);
        let r = sqrt_floor(n - 1);
        if n < (r + 1) * (r + 1) {
            assert(is_sqrt_floor(n, r));
        } else {
            assert((r + 1) * (r + 1) <= n < (r + 2) * (r + 2)) by (nonlinear_arith)
                requires
                    0 <= r,
                    r * r <= n - 1 < (r + 1) * (r + 1),
                    n >= (r + 1) * (r + 1),
            ;
            assert(is_sqrt_floor(n, r + 1));
        }
    }
}

/// A number that passes `is_sqrt_floor` is the one `sqrt_floor` names.
pub proof fn lemma_sqrt_floor_is(n: int, r: int)
    requires
        is_sqrt_floor(n, r),
    ensures
        sqrt_floor(n) == r,
{
    lemma_sqrt_floor_unique(n, r, sqrt_floor(n));
}

/// Quotient of `a` by `b`, rounded toward zero.
pub(crate) fn quotient_toward_zero(a: i128, b: i128) -> (q: i128)
    requires
        b > 0,
        a > i128::MIN,
    ensures
        q == div_toward_zero(a as int, b as int),
{
    a / b
}

/// `x` held within `[-LIMIT, LIMIT]`.
pub fn clamp_to_limit(x: i128) -> (c: i64)
    ensures
        c == clamp(x as int, LIMIT as int),
        -LIMIT <= c <= LIMIT,
{
    if x > LIMIT as i128 {
        LIMIT
    } else if x < -(LIMIT as i128) {
        -LIMIT
    } else {
        x as i64
    }
}

/// The integer square root of `n`, found by bisection.
pub fn integer_sqrt(n: u128) -> (r: u64)
    ensures
        is_sqrt_floor(n as int, r as int),
        r == sqrt_floor(n as int),
{
    let mut lo: u128 = 0;
    let mut hi: u128 = 0x1_0000_0000_0000_0000;
    assert(hi * hi == 0x1_0000_0000_0000_0000_0000_0000_0000_0000) by (nonlinear_arith)
        requires
            hi == 0x1_0000_0000_0000_0000,
    ;
    while hi - lo > 1
        invariant
            0 <= lo < hi <= 0x1_0000_0000_0000_0000,
            lo * lo <= n < hi * hi,
        decreases hi - lo,
    {
        let mid: u128 = lo + (hi - lo) / 2;
        assert(mid * mid < 0x1_0000_0000_0000_0000_0000_0000_0000_0000) by (nonlinear_arith)
            requires
                0 <= mid < 0x1_0000_0000_0000_0000,
        ;
        if mid * mid <= n {
            lo = mid;
        } else {
            hi = mid;
        }
    }
    proof {
        lemma_sqrt_floor_is(n as int, lo as int);
    }
    lo as u64
}

} // verus!
