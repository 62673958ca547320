use vstd::prelude::*;
use vstd::arithmetic::div_mod::{
    lemma_div_is_ordered,
    lemma_div_multiples_vanish,
    lemma_div_pos_is_pos,
};
use vstd::arithmetic::mul::lemma_mul_inequality;

verus! {

/// An amount of money or a price, in fixed point: `ONE` stands for one unit.
pub type Monetary = i64;

/// The fixed-point scale of `Monetary`: eight decimal places.
pub const ONE: i64 = 100_000_000;

/// Division that truncates toward zero, as Rust's integer division does (`d > 0`).
pub open spec fn tdiv(a: int, d: int) -> int {
    if a >= 0 {
        a / d
    } else {
        -((-a) / d)
    }
}

/// `x` clamped into the range of `i64`.
pub open spec fn clamp(x: int) -> int {
    if x > i64::MAX {
        i64::MAX as int
    } else if x < i64::MIN {
        i64::MIN as int
    } else {
        x
    }
}

/// A step of `f / d` of the way from `e` toward `v`.
pub open spec fn approach_spec(e: int, v: int, f: int, d: int) -> int {
    e + tdiv(f * (v - e), d)
}

pub proof fn lemma_scaled_div(x: int, f: int, d: int)
    requires
        x >= 0,
        1 <= f <= d,
    ensures
        0 <= (f * x) / d <= x,
{
    lemma_mul_inequality(f, d, x);
    assert(f * x <= d * x);
    lemma_div_is_ordered(f * x, d * x, d);
    lemma_div_multiples_vanish(x, d);
    assert(0 <= f * x) by (nonlinear_arith)
        requires
            x >= 0,
            f >= 1,
    ;
    lemma_div_pos_is_pos(f * x, d);
}

/// A truncated division by a positive number never moves a value away from zero.
pub proof fn lemma_tdiv_shrinks(a: int, d: int)
    requires
        d >= 1,
    ensures
        a >= 0 ==> 0 <= tdiv(a, d) <= a,
        a < 0 ==> a <= tdiv(a, d) <= 0,
{
    if a >= 0 {
        lemma_scaled_div(a, 1, d);
    } else {
        lemma_scaled_div(-a, 1, d);
    }
}

/// Truncated division of an exact multiple gives the factor back.
pub proof fn lemma_tdiv_multiple(c: int, d: int)
    requires
        d >= 1,
    ensures
        tdiv(d * c, d) == c,
{
    if c >= 0 {
        assert(d * c >= 0) by (nonlinear_arith)
            requires
                d >= 1,
                c >= 0,
        ;
        lemma_div_multiples_vanish(c, d);
    } else {
        assert(d * c < 0) by (nonlinear_arith)
            requires
                d >= 1,
                c < 0,
        ;
        assert(-(d * c) == d * (-c)) by (nonlinear_arith);
        lemma_div_multiples_vanish(-c, d);
    }
}

/// `a - b`, saturated at the bounds of `i64`.
pub fn sat_sub(a: i64, b: i64) -> (r: i64)
    ensures
        r == clamp(a - b),
{
    let x: i128 = a as i128 - b as i128;
    if x > i64::MAX as i128 {
        i64::MAX
    } else if x < i64::MIN as i128 {
        i64::MIN
    } else {
        x as i64
    }
}

/// `a + b`, saturated at the bounds of `i64`.
pub fn sat_add(a: i64, b: i64) -> (r: i64)
    ensures
        r == clamp(a + b),
{
    let x: i128 = a as i128 + b as i128;
    if x > i64::MAX as i128 {
        i64::MAX
    } else if x < i64::MIN as i128 {
        i64::MIN
    } else {
        x as i64
    }
}

/// Moves `e` toward `v` by the fraction `f / d`, truncating; the result lies between `e` and `v`.
pub fn approach(e: i64, v: i64, f: i128, d: i128) -> (r: i64)
    requires
        1 <= f <= 2,
        f <= d,
    ensures
        r == approach_spec(e as int, v as int, f as int, d as int),
        e <= v ==> e <= r <= v,
        v <= e ==> v <= r <= e,
{
    let x: i128 = v as i128 - e as i128;
    assert(-0x2_0000_0000_0000_0000 <= f * x <= 0x2_0000_0000_0000_0000) by (nonlinear_arith)
        requires
            1 <= f <= 2,
            -0x1_0000_0000_0000_0000 <= x <= 0x1_0000_0000_0000_0000,
    ;
    let y: i128 = f * x;
    proof {
        if x >= 0 {
            lemma_scaled_div(x as int, f as int, d as int);
        } else {
            lemma_scaled_div(-x as int, f as int, d as int);
            assert(-(f * x) == f * (-x)) by (nonlinear_arith);
        }
    }
    let q: i128 = y / d;
    (e as i128 + q) as i64
}

/// The fixed-point product of two amounts, truncated and saturated.
pub open spec fn mul_fixed(a: Monetary, b: Monetary) -> Monetary {
    clamp(tdiv(a * b, ONE as int)) as i64
}

pub fn fixed_mul(a: Monetary, b: Monetary) -> (r: Monetary)
    ensures
        r == mul_fixed(a, b),
{
    assert(-0x4000_0000_0000_0000_0000_0000_0000_0000 <= a * b <= 0x4000_0000_0000_0000_0000_0000_0000_0000)
        by (nonlinear_arith)
        requires
            i64::MIN <= a <= i64::MAX,
            i64::MIN <= b <= i64::MAX,
    ;
    let q: i128 = (a as i128 * b as i128) / ONE as i128;
    if q > i64::MAX as i128 {
        i64::MAX
    } else if q < i64::MIN as i128 {
        i64::MIN
    } else {
        q as i64
    }
}

/// `v * num / den`, truncated and saturated.
pub open spec fn scaled(v: Monetary, num: Monetary, den: Monetary) -> Monetary {
    clamp(tdiv(v * num, den as int)) as i64
}

pub fn scale(v: Monetary, num: Monetary, den: Monetary) -> (r: Monetary)
    requires
        den > 0,
    ensures
        r == scaled(v, num, den),
{
    assert(-0x4000_0000_0000_0000_0000_0000_0000_0000 <= v * num <= 0x4000_0000_0000_0000_0000_0000_0000_0000)
        by (nonlinear_arith)
        requires
            i64::MIN <= v <= i64::MAX,
            i64::MIN <= num <= i64::MAX,
    ;
    let p: i128 = v as i128 * num as i128;
    let q: i128 = p / den as i128;
    if q > i64::MAX as i128 {
        i64::MAX
    } else if q < i64::MIN as i128 {
        i64::MIN
    } else {
        q as i64
    }
}

/// The largest numerator a rate may have.
pub const MAX_RATE_NUM: i128 = 0x1_0000_0000_0000_0000_0000_0000;

/// An exchange rate between two assets, as the exact fraction `num / den`.
#[derive(Debug, Clone, Copy, PartialEq, Eq, Structural)]
pub struct Rate {
    pub num: i128,
    pub den: i128,
}

impl Rate {
    pub open spec fn wf(&self) -> bool {
        0 <= self.num <= MAX_RATE_NUM && 0 < self.den <= i64::MAX
    }

    /// One unit buys one unit.
    pub open spec fn identity() -> Rate {
        Rate { num: 1, den: 1 }
    }

    /// No way to exchange.
    pub open spec fn zero() -> Rate {
        Rate { num: 0, den: 1 }
    }
}

/// `x` exchanged at `rate`, truncated and saturated.
pub open spec fn converted(x: Monetary, rate: Rate) -> Monetary {
    clamp(tdiv(x * rate.num, rate.den as int)) as i64
}

proof fn lemma_saturates(ax: int, n: int, d: int)
    requires
        ax >= 0,
        n > 0,
        0 < d <= i64::MAX,
        ax * n > i128::MAX,
    ensures
        (ax * n) / d > i64::MAX,
{
    assert(i128::MAX as int >= (i64::MAX as int + 1) * d) by (nonlinear_arith)
        requires
            0 < d <= i64::MAX,
    ;
    lemma_div_is_ordered((i64::MAX as int + 1) * d, ax * n, d);
    lemma_div_multiples_vanish(i64::MAX as int + 1, d);
    assert((i64::MAX as int + 1) * d == d * (i64::MAX as int + 1)) by (nonlinear_arith);
}

pub fn convert(x: Monetary, rate: Rate) -> (r: Monetary)
    requires
        rate.wf(),
    ensures
        r == converted(x, rate),
{
    if x == 0 || rate.num == 0 {
        assert(x * rate.num == 0) by (nonlinear_arith)
            requires
                x == 0 || rate.num == 0,
        ;
        return 0;
    }
    let ax: i128 = if x < 0 {
        -(x as i128)
    } else {
        x as i128
    };
    let limit: i128 = i128::MAX / rate.num;
    if ax > limit {
        proof {
            vstd::arithmetic::div_mod::lemma_fundamental_div_mod(i128::MAX as int, rate.num as int);
            vstd::arithmetic::div_mod::lemma_mod_bound(i128::MAX as int, rate.num as int);
            assert(ax * rate.num > i128::MAX) by (nonlinear_arith)
                requires
                    ax >= limit + 1,
                    rate.num > 0,
                    i128::MAX == rate.num * limit + (i128::MAX as int) % (rate.num as int),
                    (i128::MAX as int) % (rate.num as int) < rate.num,
            ;
            lemma_saturates(ax as int, rate.num as int, rate.den as int);
            if x < 0 {
                assert(x * rate.num == -(ax * rate.num)) by (nonlinear_arith)
                    requires
                        ax == -x,
                ;
            } else {
                assert(x * rate.num == ax * rate.num);
            }
        }
        if x > 0 {
            i64::MAX
        } else {
            i64::MIN
        }
    } else {
        proof {
            vstd::arithmetic::div_mod::lemma_fundamental_div_mod(i128::MAX as int, rate.num as int);
            vstd::arithmetic::div_mod::lemma_mod_bound(i128::MAX as int, rate.num as int);
            assert(ax * rate.num <= i128::MAX) by (nonlinear_arith)
                requires
                    0 <= ax <= limit,
                    rate.num > 0,
                    i128::MAX == rate.num * limit + (i128::MAX as int) % (rate.num as int),
                    (i128::MAX as int) % (rate.num as int) >= 0,
            ;
            assert(-(ax * rate.num) <= x * rate.num <= ax * rate.num) by (nonlinear_arith)
                requires
                    ax == x || ax == -x,
                    ax >= 0,
                    rate.num > 0,
            ;
        }
        let q: i128 = (x as i128 * rate.num) / rate.den;
        if q > i64::MAX as i128 {
            i64::MAX
        } else if q < i64::MIN as i128 {
            i64::MIN
        } else {
            q as i64
        }
    }
}

} // verus!
