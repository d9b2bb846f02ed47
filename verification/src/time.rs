//! Rational time bases and nearest-rounding timestamp rescaling.
//!
//! Every conversion between the timeline clock and a stream's native clock
//! goes through [`rescale`], whose result is stated exactly by
//! [`rescale_spec`].

use vstd::prelude::*;
use vstd::arithmetic::div_mod::lemma_fundamental_div_mod;
use vstd::arithmetic::div_mod::lemma_fundamental_div_mod_converse;
use vstd::arithmetic::div_mod::lemma_mod_bound;
use crate::error::EngineError;

verus! {

/// Number of timeline ticks in one second.
pub const TIMELINE_TICKS_PER_SECOND: i32 = 1_000_000;

/// A time base: one tick lasts `num / den` seconds.
#[derive(Debug, Clone, Copy, PartialEq, Eq, Structural)]
pub struct Rational {
    pub num: i32,
    pub den: i32,
}

impl Rational {
    /// A time base is valid when both parts are positive.
    pub open spec fn wf(self) -> bool {
        self.num > 0 && self.den > 0
    }

    /// The microsecond time base as a specification value.
    pub open spec fn spec_micros() -> Rational {
        Rational { num: 1, den: 1_000_000 }
    }

    /// Creates a validated time base.
    pub fn new(num: i32, den: i32) -> (out: Result<Rational, EngineError>)
        ensures
            (num > 0 && den > 0) ==> out == Ok::<Rational, EngineError>(Rational { num, den }),
            !(num > 0 && den > 0) ==> out == Err::<Rational, EngineError>(
                EngineError::InvalidRational { num, den },
            ),
    {
        if num <= 0 || den <= 0 {
            return Err(EngineError::InvalidRational { num, den });
        }
        Ok(Rational { num, den })
    }

    /// The microsecond time base `1 / 1_000_000`.
    #[verifier::when_used_as_spec(spec_micros)]
    pub fn micros() -> (out: Rational)
        ensures
            out == Rational::spec_micros(),
            out.wf(),
    {
        Rational { num: 1, den: TIMELINE_TICKS_PER_SECOND }
    }
}

/// The timeline clock as a specification value: one tick is one microsecond.
pub open spec fn spec_timeline_time_base() -> Rational {
    Rational { num: 1, den: 1_000_000 }
}

/// The timeline clock: one tick is one microsecond.
#[verifier::when_used_as_spec(spec_timeline_time_base)]
pub fn timeline_time_base() -> (out: Rational)
    ensures
        out == spec_timeline_time_base(),
        out.wf(),
{
    Rational { num: 1, den: TIMELINE_TICKS_PER_SECOND }
}

/// Absolute value of a mathematical integer.
pub open spec fn abs_int(v: int) -> int {
    if v < 0 {
        -v
    } else {
        v
    }
}

/// `num / den` rounded to the nearest integer, ties away from zero.
pub open spec fn round_div(num: int, den: int) -> int
    recommends
        den > 0,
{
    if num >= 0 {
        (2 * num + den) / (2 * den)
    } else {
        -((2 * (-num) + den) / (2 * den))
    }
}

/// Saturates a mathematical integer into the `i64` range.
pub open spec fn clamp_i64(v: int) -> int {
    if v < i64::MIN {
        i64::MIN as int
    } else if v > i64::MAX {
        i64::MAX as int
    } else {
        v
    }
}

/// The timestamp `ts`, counted in `from`, expressed in `to`.
pub open spec fn rescale_spec(ts: int, from: Rational, to: Rational) -> int
    recommends
        from.wf(),
        to.wf(),
{
    clamp_i64(round_div(ts * from.num * to.den, from.den * to.num))
}

/// For a non-negative dividend, rounding to nearest is the truncated
/// quotient, plus one when twice the remainder reaches the divisor.
pub proof fn lemma_round_div_by_remainder(num: int, den: int)
    requires
        num >= 0,
        den > 0,
    ensures
        round_div(num, den) == num / den + (if 2 * (num % den) >= den {
            1int
        } else {
            0int
        }),
{
    let q = num / den;
    let r = num % den;
    lemma_fundamental_div_mod(num, den);
    lemma_mod_bound(num, den);
    assert(num == den * q + r);
    if 2 * r >= den {
        assert(2 * num + den == (q + 1) * (2 * den) + (2 * r - den)) by (nonlinear_arith)
            requires
                num == den * q + r,
        ;
        lemma_fundamental_div_mod_converse(2 * num + den, 2 * den, q + 1, 2 * r - den);
    } else {
        assert(2 * num + den == q * (2 * den) + (2 * r + den)) by (nonlinear_arith)
            requires
                num == den * q + r,
        ;
        lemma_fundamental_div_mod_converse(2 * num + den, 2 * den, q, 2 * r + den);
    }
}

/// `round_div` returns the integer nearest to the exact quotient: the
/// result times the divisor is within half a divisor of the dividend, and
/// an exact tie goes to the larger magnitude.
pub proof fn lemma_round_div_nearest(num: int, den: int)
    requires
        den > 0,
    ensures
        -den <= 2 * (round_div(num, den) * den) - 2 * num <= den,
        num >= 0 ==> round_div(num, den) >= 0 && 2 * (round_div(num, den) * den) - 2 * num > -den,
        num <= 0 ==> round_div(num, den) <= 0 && 2 * (round_div(num, den) * den) - 2 * num < den,
{
    let a = abs_int(num);
    let t = 2 * a + den;
    let m = 2 * den;
    let k = t / m;
    let rem = t % m;
    let kd = k * den;
    lemma_fundamental_div_mod(t, m);
    lemma_mod_bound(t, m);
    assert(t == m * k + rem);
    assert(m * k == 2 * kd) by (nonlinear_arith)
        requires
            m == 2 * den,
            kd == k * den,
    ;
    assert(2 * a + den == 2 * kd + rem);
    assert(k >= 0) by (nonlinear_arith)
        requires
            t == m * k + rem,
            rem < m,
            t >= 0,
            m > 0,
    ;
    if num == 0 {
        assert(k == 0) by (nonlinear_arith)
            requires
                den == m * k + rem,
                0 <= rem,
                m == 2 * den,
                den > 0,
                k >= 0,
        ;
        assert(kd == 0) by (nonlinear_arith)
            requires
                k == 0,
                kd == k * den,
        ;
    }
    if num >= 0 {
        assert(round_div(num, den) == k);
        assert(2 * (round_div(num, den) * den) - 2 * num == den - rem);
    } else {
        assert(round_div(num, den) == -k);
        assert((-k) * den == -kd) by (nonlinear_arith)
            requires
                kd == k * den,
        ;
        assert(2 * (round_div(num, den) * den) - 2 * num == rem - den);
    }
}

/// The nearest integer is the only one that meets what
/// [`lemma_round_div_nearest`] states: an integer as near to the quotient,
/// with the sign of the dividend and with ties told as there, is the
/// rounded quotient.
pub proof fn lemma_round_div_unique(num: int, den: int, q: int)
    requires
        den > 0,
        num >= 0 ==> q >= 0 && -den < 2 * (q * den) - 2 * num <= den,
        num <= 0 ==> q <= 0 && -den <= 2 * (q * den) - 2 * num < den,
    ensures
        round_div(num, den) == q,
{
    let r = round_div(num, den);
    lemma_round_div_nearest(num, den);
    assert(r == q) by (nonlinear_arith)
        requires
            den > 0,
            num >= 0 ==> -den < 2 * (q * den) - 2 * num <= den,
            num <= 0 ==> -den <= 2 * (q * den) - 2 * num < den,
            num >= 0 ==> -den < 2 * (r * den) - 2 * num <= den,
            num <= 0 ==> -den <= 2 * (r * den) - 2 * num < den,
    ;
}

/// Rounding is symmetric about zero.
pub proof fn lemma_round_div_odd(num: int, den: int)
    requires
        den > 0,
    ensures
        round_div(-num, den) == -round_div(num, den),
{
    if num == 0 {
        assert(round_div(0, den) == 0) by {
            lemma_fundamental_div_mod_converse(den, 2 * den, 0, den);
        }
    }
}

/// Rounding never reverses the order of two dividends.
pub proof fn lemma_round_div_monotonic(a: int, b: int, den: int)
    requires
        a <= b,
        den > 0,
    ensures
        round_div(a, den) <= round_div(b, den),
{
    lemma_round_div_nearest(a, den);
    lemma_round_div_nearest(b, den);
    if a >= 0 {
        vstd::arithmetic::div_mod::lemma_div_is_ordered(2 * a + den, 2 * b + den, 2 * den);
    } else if b < 0 {
        vstd::arithmetic::div_mod::lemma_div_is_ordered(2 * (-b) + den, 2 * (-a) + den, 2 * den);
    }
}

/// A dividend that is a whole multiple of the divisor is divided exactly.
pub proof fn lemma_round_div_exact(k: int, den: int)
    requires
        den > 0,
    ensures
        round_div(k * den, den) == k,
{
    if k >= 0 {
        assert(k * den >= 0) by (nonlinear_arith)
            requires
                k >= 0,
                den > 0,
        ;
        assert(2 * (k * den) + den == k * (2 * den) + den) by (nonlinear_arith);
        lemma_fundamental_div_mod_converse(2 * (k * den) + den, 2 * den, k, den);
    } else {
        assert(k * den < 0) by (nonlinear_arith)
            requires
                k < 0,
                den > 0,
        ;
        assert(2 * (-(k * den)) + den == (-k) * (2 * den) + den) by (nonlinear_arith);
        lemma_fundamental_div_mod_converse(2 * (-(k * den)) + den, 2 * den, -k, den);
    }
}

/// Rescaling between equal time bases returns the timestamp unchanged.
pub proof fn lemma_rescale_identity(ts: int, tb: Rational)
    requires
        tb.wf(),
        i64::MIN <= ts <= i64::MAX,
    ensures
        rescale_spec(ts, tb, tb) == ts,
{
    let d = tb.den * tb.num;
    assert(d > 0) by (nonlinear_arith)
        requires
            tb.den > 0,
            tb.num > 0,
            d == tb.den * tb.num,
    ;
    assert(ts * tb.num * tb.den == ts * d) by (nonlinear_arith)
        requires
            d == tb.den * tb.num,
    ;
    lemma_round_div_exact(ts, d);
}

/// Rescaling keeps the sign of a timestamp and maps zero to zero.
pub proof fn lemma_rescale_sign(ts: int, from: Rational, to: Rational)
    requires
        from.wf(),
        to.wf(),
    ensures
        ts >= 0 ==> rescale_spec(ts, from, to) >= 0,
        ts <= 0 ==> rescale_spec(ts, from, to) <= 0,
{
    let n = ts * from.num * to.den;
    let d = from.den * to.num;
    assert(d > 0) by (nonlinear_arith)
        requires
            from.den > 0,
            to.num > 0,
            d == from.den * to.num,
    ;
    assert(ts >= 0 ==> n >= 0) by (nonlinear_arith)
        requires
            n == ts * from.num * to.den,
            from.num > 0,
            to.den > 0,
    ;
    assert(ts <= 0 ==> n <= 0) by (nonlinear_arith)
        requires
            n == ts * from.num * to.den,
            from.num > 0,
            to.den > 0,
    ;
    lemma_round_div_nearest(n, d);
}

/// Rescaling never reverses the order of two timestamps.
pub proof fn lemma_rescale_monotonic(a: int, b: int, from: Rational, to: Rational)
    requires
        from.wf(),
        to.wf(),
        a <= b,
    ensures
        rescale_spec(a, from, to) <= rescale_spec(b, from, to),
{
    let d = from.den * to.num;
    assert(d > 0) by (nonlinear_arith)
        requires
            from.den > 0,
            to.num > 0,
            d == from.den * to.num,
    ;
    assert(a * from.num * to.den <= b * from.num * to.den) by (nonlinear_arith)
        requires
            a <= b,
            from.num > 0,
            to.den > 0,
    ;
    lemma_round_div_monotonic(a * from.num * to.den, b * from.num * to.den, d);
}

/// Converting a timestamp from `a` to `b` and back moves it by at most half
/// a tick of `b` plus half a tick of `a`, measured in ticks of `a`, as long
/// as the forward conversion does not saturate. When one tick of `b` is no
/// longer than one tick of `a`, the round trip is exact.
pub proof fn lemma_rescale_round_trip(x: int, a: Rational, b: Rational)
    requires
        a.wf(),
        b.wf(),
        i64::MIN <= x <= i64::MAX,
        i64::MIN <= round_div(x * a.num * b.den, a.den * b.num) <= i64::MAX,
    ensures
        2 * (a.num * b.den) * abs_int(rescale_spec(rescale_spec(x, a, b), b, a) - x) <= a.num
            * b.den + a.den * b.num,
        a.den * b.num <= a.num * b.den ==> rescale_spec(rescale_spec(x, a, b), b, a) == x,
{
    let p = a.num * b.den;
    let q = a.den * b.num;
    assert(p > 0 && q > 0) by (nonlinear_arith)
        requires
            a.num > 0,
            a.den > 0,
            b.num > 0,
            b.den > 0,
            p == a.num * b.den,
            q == a.den * b.num,
    ;
    let y = rescale_spec(x, a, b);
    assert(x * a.num * b.den == x * p) by (nonlinear_arith)
        requires
            p == a.num * b.den,
    ;
    assert(y == round_div(x * p, q));
    assert(y * b.num * a.den == y * q) by (nonlinear_arith)
        requires
            q == a.den * b.num,
    ;
    assert(b.den * a.num == p) by (nonlinear_arith)
        requires
            p == a.num * b.den,
    ;
    let w = round_div(y * q, p);
    let z = rescale_spec(y, b, a);
    assert(z == clamp_i64(w));
    lemma_round_div_nearest(x * p, q);
    lemma_round_div_nearest(y * q, p);
    // |2 q y - 2 x p| <= q and |2 p w - 2 q y| <= p
    assert(-(p + q) <= 2 * (w * p) - 2 * (x * p) <= p + q);
    assert(2 * (w * p) - 2 * (x * p) == 2 * p * (w - x)) by (nonlinear_arith);
    assert(2 * p * abs_int(w - x) <= p + q) by (nonlinear_arith)
        requires
            -(p + q) <= 2 * p * (w - x) <= p + q,
            p > 0,
    ;
    assert(abs_int(z - x) <= abs_int(w - x));
    assert(2 * p * abs_int(z - x) <= 2 * p * abs_int(w - x)) by (nonlinear_arith)
        requires
            abs_int(z - x) <= abs_int(w - x),
            p > 0,
    ;
    if q <= p {
        if q == p {
            lemma_round_div_exact(x, q);
            assert(y == x);
            lemma_round_div_exact(y, p);
            assert(w == y);
        } else {
            assert(abs_int(w - x) < 1) by (nonlinear_arith)
                requires
                    2 * p * abs_int(w - x) <= p + q,
                    q < p,
                    p > 0,
                    abs_int(w - x) >= 0,
            ;
        }
        assert(w == x);
    }
}

/// A timestamp on a clock that is no finer than the timeline clock comes
/// back unchanged from a round trip through timeline ticks, as long as it
/// has a place among them. The video clock of 1/90000 s and the audio
/// clock of 1/48000 s are such clocks.
pub proof fn lemma_round_trip_through_timeline(x: int, tb: Rational)
    requires
        tb.wf(),
        tb.den <= 1_000_000 * tb.num,
        i64::MIN <= x <= i64::MAX,
        i64::MIN <= round_div(x * tb.num * 1_000_000, tb.den * 1) <= i64::MAX,
    ensures
        rescale_spec(
            rescale_spec(x, tb, spec_timeline_time_base()),
            spec_timeline_time_base(),
            tb,
        ) == x,
{
    lemma_rescale_round_trip(x, tb, spec_timeline_time_base());
    assert(tb.den * 1 <= tb.num * 1_000_000);
}

/// Divides `num` by a positive `den`, rounding to nearest with ties away
/// from zero.
pub fn div_round_nearest(num: i128, den: i128) -> (out: i128)
    requires
        den > 0,
        num > i128::MIN,
    ensures
        out == round_div(num as int, den as int),
{
    let abs_num: i128 = if num < 0 {
        -num
    } else {
        num
    };
    let quotient: i128 = abs_num / den;
    let remainder: i128 = abs_num % den;
    proof {
        let a: int = abs_num as int;
        let d: int = den as int;
        lemma_round_div_by_remainder(a, d);
        lemma_fundamental_div_mod(a, d);
        lemma_mod_bound(a, d);
        assert(0 <= a / d <= a) by (nonlinear_arith)
            requires
                a == d * (a / d) + a % d,
                0 <= a % d,
                (a % d) < d,
                d > 0,
                a >= 0,
        ;
        // A quotient that is rounded up is less than the dividend.
        assert(2 * (a % d) >= d ==> a / d < a) by (nonlinear_arith)
            requires
                a == d * (a / d) + a % d,
                0 <= a % d,
                d > 0,
                0 <= a / d,
        ;
    }
    // Twice the remainder reaches the divisor: written without doubling.
    let out: i128 = if remainder >= den - remainder {
        quotient + 1
    } else {
        quotient
    };
    if num < 0 {
        -out
    } else {
        out
    }
}

/// Rescales `ts` from one time base to another with nearest rounding.
///
/// The product is formed in 128-bit arithmetic and the rounded quotient is
/// saturated into the `i64` range.
pub fn rescale(ts: i64, from: Rational, to: Rational) -> (out: i64)
    requires
        from.wf(),
        to.wf(),
    ensures
        out == rescale_spec(ts as int, from, to),
{
    proof {
        let t = ts as int;
        let a = from.num as int;
        let b = to.den as int;
        let c = from.den as int;
        let d = to.num as int;
        assert(-0x8000_0000_0000_0000 * 0x8000_0000 <= t * a <= 0x8000_0000_0000_0000
            * 0x8000_0000) by (nonlinear_arith)
            requires
                -0x8000_0000_0000_0000 <= t <= 0x8000_0000_0000_0000,
                0 < a <= 0x8000_0000,
        ;
        assert(-0x8000_0000_0000_0000 * 0x8000_0000 * 0x8000_0000 <= (t * a) * b
            <= 0x8000_0000_0000_0000 * 0x8000_0000 * 0x8000_0000) by (nonlinear_arith)
            requires
                -0x8000_0000_0000_0000 * 0x8000_0000 <= t * a <= 0x8000_0000_0000_0000
                    * 0x8000_0000,
                0 < b <= 0x8000_0000,
        ;
        assert(0 < c * d <= 0x8000_0000 * 0x8000_0000) by (nonlinear_arith)
            requires
                0 < c <= 0x8000_0000,
                0 < d <= 0x8000_0000,
        ;
    }
    let numerator: i128 = (ts as i128) * (from.num as i128) * (to.den as i128);
    let denominator: i128 = (from.den as i128) * (to.num as i128);
    let rounded: i128 = div_round_nearest(numerator, denominator);
    if rounded < i64::MIN as i128 {
        i64::MIN
    } else if rounded > i64::MAX as i128 {
        i64::MAX
    } else {
        rounded as i64
    }
}

} // verus!
