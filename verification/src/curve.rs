use vstd::prelude::*;

verus! {

use vstd::arithmetic::div_mod::lemma_basic_div;
use vstd::arithmetic::div_mod::lemma_div_denominator;
use vstd::arithmetic::div_mod::lemma_div_is_ordered;
use vstd::arithmetic::div_mod::lemma_div_multiples_vanish;
use vstd::arithmetic::div_mod::lemma_div_pos_is_pos;
use vstd::arithmetic::div_mod::lemma_fundamental_div_mod;
use vstd::arithmetic::div_mod::lemma_fundamental_div_mod_converse;
use vstd::arithmetic::div_mod::lemma_mod_bound;
use vstd::arithmetic::mul::lemma_mul_inequality;
use vstd::arithmetic::mul::lemma_mul_nonnegative;
use vstd::arithmetic::mul::lemma_mul_upper_bound;
use vstd::arithmetic::power::lemma0_pow;
use vstd::arithmetic::power::lemma_pow0;
use vstd::arithmetic::power::lemma_pow1;
use vstd::arithmetic::power::lemma_pow_adds;
use vstd::arithmetic::power::lemma_pow_increases;
use vstd::arithmetic::power::lemma_pow_positive;
use vstd::arithmetic::power::pow;

use crate::errors::FanError;

/// Configuration of the temperature-to-duty transfer curve.
///
/// Temperatures are in millidegrees Celsius, fan bounds are duty
/// percentages, and `exponent` is the positive integer power that shapes
/// the curve: `1` gives a linear response, larger values keep the fans
/// quiet until the temperature nears `max_temp_mdeg`.
#[derive(Clone, Copy, Debug)]
pub struct CurveConfig {
    pub min_fan: u8,
    pub max_fan: u8,
    pub min_temp_mdeg: i64,
    pub max_temp_mdeg: i64,
    pub exponent: u32,
}

impl CurveConfig {
    /// The width of the duty range.
    pub open spec fn span(self) -> int {
        self.max_fan - self.min_fan
    }

    /// The width of the temperature range.
    pub open spec fn den(self) -> int {
        self.max_temp_mdeg - self.min_temp_mdeg
    }

    /// How far above `min_temp_mdeg` a temperature sits, clamped to the
    /// configured range: the numerator of the normalized position.
    pub open spec fn rise(self, t: int) -> int {
        if t <= self.min_temp_mdeg {
            0
        } else if t >= self.max_temp_mdeg {
            self.den()
        } else {
            t - self.min_temp_mdeg
        }
    }

    /// A valid configuration: percentages in range and ordered, a
    /// non-empty temperature range, a positive exponent, and a range
    /// narrow enough that the curve arithmetic fits in 128 bits.
    pub open spec fn wf(self) -> bool {
        &&& self.max_fan <= 100
        &&& self.min_fan <= self.max_fan
        &&& self.min_temp_mdeg < self.max_temp_mdeg
        &&& 1 <= self.exponent
        &&& 201 * pow(self.den(), self.exponent as nat) <= u128::MAX
    }

    /// The duty the curve assigns to temperature `t`: with `x` the
    /// position of `t` in the temperature range normalized to `[0, 1]`,
    /// this is `x^exponent * span + min_fan`, rounded to the nearest
    /// percent (halves round up). The division below is exactly that
    /// rounding: `rise/den` is `x`, and `(2*a + b) / (2*b)` is `a/b`
    /// rounded to the nearest integer.
    pub open spec fn duty_for(self, t: int) -> int {
        let np = pow(self.rise(t), self.exponent as nat);
        let dp = pow(self.den(), self.exponent as nat);
        self.min_fan + (2 * np * self.span() + dp) / (2 * dp)
    }

    /// Validate a configuration before the loop starts. Returns the
    /// configuration exactly when it is well-formed, and
    /// `ConfigInvalid` otherwise.
    pub fn new(
        min_fan: u8,
        max_fan: u8,
        min_temp_mdeg: i64,
        max_temp_mdeg: i64,
        exponent: u32,
    ) -> (r: Result<CurveConfig, FanError>)
        ensures
            ({
                let c = CurveConfig { min_fan, max_fan, min_temp_mdeg, max_temp_mdeg, exponent };
                &&& c.wf() ==> r == Ok::<CurveConfig, FanError>(c)
                &&& !c.wf() ==> r == Err::<CurveConfig, FanError>(FanError::ConfigInvalid)
            }),
    {
        let ghost c = CurveConfig { min_fan, max_fan, min_temp_mdeg, max_temp_mdeg, exponent };
        if max_fan > 100 || min_fan > max_fan || min_temp_mdeg >= max_temp_mdeg || exponent == 0 {
            return Err(FanError::ConfigInvalid);
        }
        let den_i: i128 = max_temp_mdeg as i128 - min_temp_mdeg as i128;
        let den_u: u128 = den_i as u128;
        let limit: u128 = u128::MAX / 201;
        let ghost d = den_u as int;
        assert(d == c.den());
        let mut acc: u128 = 1;
        let mut i: u32 = 0;
        proof {
            lemma_pow0(d);
        }
        while i < exponent
            invariant
                c == (CurveConfig { min_fan, max_fan, min_temp_mdeg, max_temp_mdeg, exponent }),
                1 <= den_u,
                den_u as int == d,
                d == c.den(),
                i <= exponent,
                exponent == c.exponent,
                acc as int == pow(d, i as nat),
                acc <= limit,
                limit == u128::MAX / 201,
            decreases exponent - i,
        {
            proof {
                lemma_pow_adds(d, i as nat, 1nat);
                lemma_pow1(d);
                assert(i as nat + 1nat == (i + 1) as nat);
                assert(pow(d, (i + 1) as nat) == acc as int * d);
            }
            if acc > limit / den_u {
                proof {
                    // acc * den exceeds the limit, so pow(d, exponent) does too,
                    // and with it 201 times that power exceeds u128::MAX.
                    lemma_quotient_exceeded(limit as int, d, acc as int);
                    assert(pow(d, (i + 1) as nat) > limit as int);
                    assert((den_u as nat) as int == d);
                    lemma_pow_increases(den_u as nat, (i + 1) as nat, exponent as nat);
                    assert(pow(d, exponent as nat) >= limit as int + 1);
                    lemma_fundamental_div_mod(u128::MAX as int, 201);
                    lemma_mod_bound(u128::MAX as int, 201);
                    lemma_mul_inequality(limit as int + 1, pow(d, exponent as nat), 201);
                    assert(201 * pow(d, exponent as nat) > u128::MAX);
                    assert(201 * pow(c.den(), c.exponent as nat) > u128::MAX);
                    assert(!c.wf());
                }
                return Err(FanError::ConfigInvalid);
            }
            proof {
                lemma_quotient_respected(limit as int, d, acc as int);
                assert(acc as int * d <= limit as int);
            }
            acc = acc * den_u;
            i = i + 1;
        }
        proof {
            lemma_mul_inequality(pow(d, exponent as nat), limit as int, 201);
            lemma_fundamental_div_mod(u128::MAX as int, 201);
            lemma_mod_bound(u128::MAX as int, 201);
            assert(201 * pow(d, exponent as nat) <= u128::MAX);
        }
        Ok(CurveConfig { min_fan, max_fan, min_temp_mdeg, max_temp_mdeg, exponent })
    }
}

/// A quotient bound turned into a product bound: any `q` above `x / d`
/// has `q * d` above `x`.
proof fn lemma_quotient_exceeded(x: int, d: int, q: int)
    requires
        1 <= d,
        0 <= x,
        q > x / d,
    ensures
        q * d > x,
{
    lemma_fundamental_div_mod(x, d);
    lemma_mod_bound(x, d);
    lemma_mul_inequality(x / d + 1, q, d);
    assert((x / d + 1) * d == (x / d) * d + d) by (nonlinear_arith);
    assert(d * (x / d) == (x / d) * d) by (nonlinear_arith);
}

/// A quotient bound turned into a product bound: any `q` at most `x / d`
/// has `q * d` at most `x`.
proof fn lemma_quotient_respected(x: int, d: int, q: int)
    requires
        1 <= d,
        0 <= x,
        0 <= q <= x / d,
    ensures
        q * d <= x,
{
    lemma_fundamental_div_mod(x, d);
    lemma_mod_bound(x, d);
    lemma_mul_inequality(q, x / d, d);
    assert(d * (x / d) == (x / d) * d) by (nonlinear_arith);
}

/// Raising a base to a power keeps order: a smaller base gives a smaller
/// (or equal) power.
pub proof fn lemma_pow_le_base(a: int, b: int, e: nat)
    requires
        0 <= a <= b,
    ensures
        pow(a, e) <= pow(b, e),
    decreases e,
{
    if e == 0 {
        lemma_pow0(a);
        lemma_pow0(b);
    } else {
        lemma_pow_le_base(a, b, (e - 1) as nat);
        lemma_pow_adds(a, (e - 1) as nat, 1nat);
        lemma_pow1(a);
        lemma_pow_adds(b, (e - 1) as nat, 1nat);
        lemma_pow1(b);
        if a == 0 {
            lemma0_pow(e);
            if b == 0 {
                lemma0_pow(e);
            } else {
                lemma_pow_positive(b, e);
            }
        } else {
            lemma_pow_positive(a, (e - 1) as nat);
            lemma_pow_positive(b, (e - 1) as nat);
            lemma_mul_upper_bound(pow(a, (e - 1) as nat), pow(b, (e - 1) as nat), a, b);
        }
    }
}

/// Rounding the midpoint of a whole multiple: `(b*(2s+1)) / (2b) == s`.
proof fn lemma_half_round(b: int, s: int)
    requires
        1 <= b,
        0 <= s,
    ensures
        (2 * b * s + b) / (2 * b) == s,
{
    assert(2 * b * s + b == b * (2 * s + 1)) by (nonlinear_arith);
    lemma_mul_nonnegative(b, 2 * s + 1);
    lemma_div_denominator(b * (2 * s + 1), b, 2);
    lemma_div_multiples_vanish(2 * s + 1, b);
    lemma_fundamental_div_mod_converse(2 * s + 1, 2, s, 1);
    assert(b * 2 == 2 * b);
}

/// The duty never leaves the configured fan range.
pub proof fn lemma_duty_in_range(cfg: CurveConfig, t: int)
    requires
        cfg.wf(),
    ensures
        cfg.min_fan <= cfg.duty_for(t) <= cfg.max_fan,
{
    let e = cfg.exponent as nat;
    let np = pow(cfg.rise(t), e);
    let dp = pow(cfg.den(), e);
    let s = cfg.span();
    lemma_pow_positive(cfg.den(), e);
    lemma_pow_le_base(cfg.rise(t), cfg.den(), e);
    if cfg.rise(t) == 0 {
        lemma0_pow(e);
    } else {
        lemma_pow_positive(cfg.rise(t), e);
    }
    lemma_mul_nonnegative(2 * np, s);
    lemma_div_pos_is_pos(2 * np * s + dp, 2 * dp);
    assert(2 * np * s + dp <= 2 * dp * s + dp) by (nonlinear_arith)
        requires
            np <= dp,
            0 <= s,
    ;
    lemma_div_is_ordered(2 * np * s + dp, 2 * dp * s + dp, 2 * dp);
    lemma_half_round(dp, s);
}

/// At or below the minimum temperature the fans run at the minimum duty.
pub proof fn lemma_duty_at_min(cfg: CurveConfig, t: int)
    requires
        cfg.wf(),
        t <= cfg.min_temp_mdeg,
    ensures
        cfg.duty_for(t) == cfg.min_fan,
{
    let e = cfg.exponent as nat;
    let dp = pow(cfg.den(), e);
    lemma0_pow(e);
    lemma_pow_positive(cfg.den(), e);
    assert(2 * pow(0, e) * cfg.span() == 0) by (nonlinear_arith)
        requires
            pow(0, e) == 0,
    ;
    lemma_basic_div(dp, 2 * dp);
}

/// At or above the maximum temperature the fans run at the maximum duty.
pub proof fn lemma_duty_at_max(cfg: CurveConfig, t: int)
    requires
        cfg.wf(),
        t >= cfg.max_temp_mdeg,
    ensures
        cfg.duty_for(t) == cfg.max_fan,
{
    let e = cfg.exponent as nat;
    let dp = pow(cfg.den(), e);
    lemma_pow_positive(cfg.den(), e);
    lemma_half_round(dp, cfg.span());
}

/// With exponent 1 the curve is affine-linear between the temperature
/// bounds, up to rounding: the duty is the rounded affine interpolation,
/// and scaled by `2*den` it stays within `den` of the exact affine value.
pub proof fn lemma_duty_linear(cfg: CurveConfig, t: int)
    requires
        cfg.wf(),
        cfg.exponent == 1,
        cfg.min_temp_mdeg <= t <= cfg.max_temp_mdeg,
    ensures
        cfg.duty_for(t) == cfg.min_fan + (2 * (t - cfg.min_temp_mdeg) * cfg.span() + cfg.den())
            / (2 * cfg.den()),
        2 * (t - cfg.min_temp_mdeg) * cfg.span() - cfg.den() < 2 * cfg.den() * (cfg.duty_for(t)
            - cfg.min_fan) <= 2 * (t - cfg.min_temp_mdeg) * cfg.span() + cfg.den(),
{
    let num = t - cfg.min_temp_mdeg;
    let d = cfg.den();
    let s = cfg.span();
    lemma_pow1(cfg.rise(t));
    lemma_pow1(d);
    assert(cfg.rise(t) == num);
    let v = (2 * num * s + d) / (2 * d);
    lemma_fundamental_div_mod(2 * num * s + d, 2 * d);
    lemma_mul_nonnegative(2 * num, s);
    lemma_mod_bound(2 * num * s + d, 2 * d);
    assert(2 * d * v == (2 * d) * ((2 * num * s + d) / (2 * d)));
}

/// The curve is monotone: a hotter reading never asks for a slower fan.
pub proof fn lemma_duty_monotone(cfg: CurveConfig, t1: int, t2: int)
    requires
        cfg.wf(),
        t1 <= t2,
    ensures
        cfg.duty_for(t1) <= cfg.duty_for(t2),
{
    let e = cfg.exponent as nat;
    let np1 = pow(cfg.rise(t1), e);
    let np2 = pow(cfg.rise(t2), e);
    let dp = pow(cfg.den(), e);
    assert(0 <= cfg.rise(t1) <= cfg.rise(t2));
    lemma_pow_le_base(cfg.rise(t1), cfg.rise(t2), e);
    lemma_pow_positive(cfg.den(), e);
    lemma_mul_inequality(2 * np1, 2 * np2, cfg.span());
    lemma_div_is_ordered(2 * np1 * cfg.span() + dp, 2 * np2 * cfg.span() + dp, 2 * dp);
}

/// Exponentiation for the curve: `base` to the power `e`, exactly.
fn pow_u128(base: u128, e: u32) -> (r: u128)
    requires
        pow(base as int, e as nat) <= u128::MAX,
    ensures
        r as int == pow(base as int, e as nat),
{
    proof {
        lemma_pow0(base as int);
    }
    let mut acc: u128 = 1;
    let mut i: u32 = 0;
    while i < e
        invariant
            i <= e,
            acc as int == pow(base as int, i as nat),
            pow(base as int, e as nat) <= u128::MAX,
        decreases e - i,
    {
        proof {
            lemma_pow_adds(base as int, i as nat, 1nat);
            lemma_pow1(base as int);
            assert(i as nat + 1nat == (i + 1) as nat);
            assert(pow(base as int, (i + 1) as nat) == acc as int * base as int);
            if base > 0 {
                assert((base as nat) as int == base as int);
                lemma_pow_increases(base as nat, (i + 1) as nat, e as nat);
                assert(acc as int * base as int <= pow(base as int, e as nat));
            } else {
                assert(acc as int * base as int == 0) by (nonlinear_arith)
                    requires
                        base as int == 0,
                ;
            }
        }
        acc = acc * base;
        i = i + 1;
    }
    acc
}

/// Map a temperature through the curve to a fan duty percentage: the
/// normalized clamped position of the temperature, raised to the
/// configured exponent, scaled into the fan range, rounded to the
/// nearest percent.
pub fn determine_fan_level(temp_mdeg: i64, cfg: &CurveConfig) -> (r: u8)
    requires
        cfg.wf(),
    ensures
        r as int == cfg.duty_for(temp_mdeg as int),
        cfg.min_fan <= r <= cfg.max_fan,
{
    let ghost t = temp_mdeg as int;
    let ghost e = cfg.exponent as nat;
    let den_i: i128 = cfg.max_temp_mdeg as i128 - cfg.min_temp_mdeg as i128;
    let num_i: i128 = if temp_mdeg <= cfg.min_temp_mdeg {
        0
    } else if temp_mdeg >= cfg.max_temp_mdeg {
        den_i
    } else {
        temp_mdeg as i128 - cfg.min_temp_mdeg as i128
    };
    let den_u: u128 = den_i as u128;
    let num_u: u128 = num_i as u128;
    let span_u: u128 = (cfg.max_fan - cfg.min_fan) as u128;
    assert(den_u as int == cfg.den());
    assert(num_u as int == cfg.rise(t));
    proof {
        lemma_pow_le_base(num_u as int, den_u as int, e);
        lemma_pow_positive(den_u as int, e);
        if num_u == 0 {
            lemma0_pow(e);
        } else {
            lemma_pow_positive(num_u as int, e);
        }
    }
    let np: u128 = pow_u128(num_u, cfg.exponent);
    let dp: u128 = pow_u128(den_u, cfg.exponent);
    proof {
        lemma_mul_upper_bound(2 * np as int, 2 * dp as int, span_u as int, 100);
        lemma_duty_in_range(*cfg, t);
        lemma_mul_nonnegative(2 * np as int, span_u as int);
        lemma_div_pos_is_pos(2 * np as int * span_u as int + dp as int, 2 * dp as int);
    }
    let v: u128 = (2 * np * span_u + dp) / (2 * dp);
    assert(v as int == cfg.duty_for(t) - cfg.min_fan);
    cfg.min_fan + (v as u8)
}

} // verus!
