//! Saturating fixed-point scalars.
//!
//! A scalar is an `i128` holding the real value times `SCALE`.  Every
//! operation first computes the exact scaled integer result (truncating
//! division toward zero where a division is involved) and then clamps it
//! into `[-FX_MAX, FX_MAX]`, so all operations are total on well-formed
//! scalars and no intermediate can overflow the machine type.

use vstd::arithmetic::div_mod::{
    lemma_div_is_ordered, lemma_div_nonincreasing, lemma_div_of0, lemma_div_pos_is_pos,
    lemma_fundamental_div_mod, lemma_mod_division_less_than_divisor,
};
use vstd::prelude::*;

verus! {

/// Number of raw units per real unit.
pub const SCALE: i128 = 1_000_000;

/// Largest raw magnitude a scalar may hold.
pub const FX_MAX: i128 = 10_000_000_000_000_000_000;

/// Raw values within the representable band.
pub open spec fn fx_wf(v: int) -> bool {
    -(FX_MAX as int) <= v <= FX_MAX as int
}

/// Clamp into the representable band.
pub open spec fn sat(v: int) -> int {
    if v < -(FX_MAX as int) {
        -(FX_MAX as int)
    } else if v > FX_MAX as int {
        FX_MAX as int
    } else {
        v
    }
}

/// Division truncating toward zero, for positive divisors.
pub open spec fn tdiv(n: int, d: int) -> int {
    if n >= 0 {
        n / d
    } else {
        -((-n) / d)
    }
}

/// Scaled addition.
pub open spec fn fadd(a: int, b: int) -> int {
    sat(a + b)
}

/// Scaled subtraction.
pub open spec fn fsub(a: int, b: int) -> int {
    sat(a - b)
}

/// Negation.
pub open spec fn fneg(a: int) -> int {
    sat(-a)
}

/// Scaled multiplication: exact product rescaled, truncated toward zero.
pub open spec fn fmul(a: int, b: int) -> int {
    sat(tdiv(a * b, SCALE as int))
}

/// Scaled division by a positive scalar.
pub open spec fn fdiv(a: int, b: int) -> int {
    sat(tdiv(a * SCALE, b))
}

/// Floor of the square root of a natural number.
pub open spec fn sqrt_floor(n: nat) -> nat
    decreases n,
{
    if n == 0 {
        0
    } else {
        let r = sqrt_floor((n - 1) as nat);
        if (r + 1) * (r + 1) <= n {
            r + 1
        } else {
            r
        }
    }
}

/// Scaled square root: nonpositive inputs map to zero.
pub open spec fn fsqrt(a: int) -> int {
    if a <= 0 {
        0
    } else {
        sqrt_floor((a * SCALE) as nat) as int
    }
}

/// A fixed-point scalar.
#[derive(Clone, Copy, PartialEq, Eq, Structural, Debug)]
pub struct Fx {
    pub raw: i128,
}

impl View for Fx {
    type V = int;

    open spec fn view(&self) -> int {
        self.raw as int
    }
}

/// `tdiv` keeps the magnitude of a nonnegative numerator.
pub proof fn lemma_tdiv_bound(n: int, d: int)
    requires
        d >= 1,
    ensures
        n >= 0 ==> 0 <= tdiv(n, d) <= n,
        n < 0 ==> n <= tdiv(n, d) <= 0,
{
    if n >= 0 {
        lemma_div_nonincreasing(n, d);
        lemma_div_pos_is_pos(n, d);
    } else {
        lemma_div_nonincreasing(-n, d);
        lemma_div_pos_is_pos(-n, d);
    }
}

/// `tdiv` is monotone in the numerator.
pub proof fn lemma_tdiv_ordered(a: int, b: int, d: int)
    requires
        d >= 1,
        a <= b,
    ensures
        tdiv(a, d) <= tdiv(b, d),
{
    if a >= 0 {
        lemma_div_is_ordered(a, b, d);
    } else if b < 0 {
        lemma_div_is_ordered(-b, -a, d);
    } else {
        lemma_div_pos_is_pos(-a, d);
        lemma_div_pos_is_pos(b, d);
    }
}

/// `tdiv` is odd in the numerator.
pub proof fn lemma_tdiv_neg(n: int, d: int)
    requires
        d >= 1,
    ensures
        tdiv(-n, d) == -tdiv(n, d),
{
    if n == 0 {
        lemma_div_of0(d);
    }
}

/// `sat` is monotone and odd.
pub proof fn lemma_sat_props(a: int, b: int)
    ensures
        a <= b ==> sat(a) <= sat(b),
        sat(-a) == -sat(a),
        fx_wf(a) ==> sat(a) == a,
        fx_wf(sat(a)),
{
}

/// Precision of scaled division: multiplying the quotient back by a
/// positive divisor reproduces the scaled numerator to within one divisor,
/// as long as the quotient was not clamped into the band.
pub proof fn lemma_fdiv_scales_back(a: int, b: int)
    requires
        b > 0,
        fx_wf(tdiv(a * SCALE, b)),
    ensures
        -b < a * SCALE - fdiv(a, b) * b < b,
        a >= 0 ==> 0 <= a * SCALE - fdiv(a, b) * b,
        a < 0 ==> a * SCALE - fdiv(a, b) * b <= 0,
{
    let n = a * SCALE;
    if n >= 0 {
        lemma_fundamental_div_mod(n, b);
        lemma_mod_division_less_than_divisor(n, b);
        assert(fdiv(a, b) * b == (n / b) * b);
    } else {
        lemma_fundamental_div_mod(-n, b);
        lemma_mod_division_less_than_divisor(-n, b);
        assert(fdiv(a, b) * b == -(((-n) / b) * b)) by (nonlinear_arith)
            requires
                fdiv(a, b) == -((-n) / b),
        ;
    }
}

/// A product of factors in `[0, SCALE]` (real values in `[0, 1]`) never
/// grows past either factor: the heart of energy non-amplification.
pub proof fn lemma_fmul_attenuates(a: int, x: int)
    requires
        0 <= a <= SCALE as int,
        0 <= x <= SCALE as int,
    ensures
        0 <= fmul(a, x) <= x,
        fmul(a, x) <= a,
{
    assert(0 <= a * x <= (SCALE as int) * x && a * x <= a * (SCALE as int)) by (nonlinear_arith)
        requires
            0 <= a <= SCALE as int,
            0 <= x <= SCALE as int,
    ;
    lemma_tdiv_ordered(a * x, (SCALE as int) * x, SCALE as int);
    lemma_tdiv_ordered(a * x, a * (SCALE as int), SCALE as int);
    lemma_tdiv_bound(a * x, SCALE as int);
    assert(((SCALE as int) * x) / (SCALE as int) == x) by (nonlinear_arith)
        requires
            x >= 0,
    ;
    assert((a * (SCALE as int)) / (SCALE as int) == a) by (nonlinear_arith)
        requires
            a >= 0,
    ;
    lemma_sat_props(tdiv(a * x, SCALE as int), x);
    lemma_sat_props(tdiv(a * x, SCALE as int), a);
}

/// `sqrt_floor` is the floor of the square root.
pub proof fn lemma_sqrt_floor(n: nat)
    ensures
        sqrt_floor(n) * sqrt_floor(n) <= n,
        (sqrt_floor(n) + 1) * (sqrt_floor(n) + 1) > n,
    decreases n,
{
    if n == 0 {
        assert(sqrt_floor(n) == 0);
        assert(sqrt_floor(n) * sqrt_floor(n) <= n) by (nonlinear_arith)
            requires
                sqrt_floor(n) == 0,
                n == 0,
        ;
        assert((sqrt_floor(n) + 1) * (sqrt_floor(n) + 1) > n) by (nonlinear_arith)
            requires
                sqrt_floor(n) == 0,
                n == 0,
        ;
    } else {
        lemma_sqrt_floor((n - 1) as nat);
        let r = sqrt_floor((n - 1) as nat);
        assert(r * r <= n - 1 && (r + 1) * (r + 1) > n - 1);
        if (r + 1) * (r + 1) <= n {
            assert(sqrt_floor(n) == r + 1);
            assert((r + 2) * (r + 2) > n) by (nonlinear_arith)
                requires
                    (r + 1) * (r + 1) > n - 1,
                    (r + 1) * (r + 1) <= n,
                    r >= 0,
            ;
            assert(sqrt_floor(n) * sqrt_floor(n) <= n);
            assert((sqrt_floor(n) + 1) * (sqrt_floor(n) + 1) > n);
        } else {
            assert(sqrt_floor(n) == r);
            assert(r * r <= n);
            assert(sqrt_floor(n) * sqrt_floor(n) <= n);
            assert((sqrt_floor(n) + 1) * (sqrt_floor(n) + 1) > n);
        }
    }
}

/// Two numbers bracketing `n` the same way are equal.
pub proof fn lemma_sqrt_unique(n: nat, r: nat, s: nat)
    by (nonlinear_arith)
    requires
        r * r <= n,
        (r + 1) * (r + 1) > n,
        s * s <= n,
        (s + 1) * (s + 1) > n,
    ensures
        r == s,
{
}

/// Floor square root by bisection.
fn isqrt_i128(n: i128) -> (r: i128)
    requires
        0 <= n <= 400_000_000_000_000_000_000_000_000,
    ensures
        r as int == sqrt_floor(n as nat),
        0 <= r <= 20_000_000_000_000,
{
    let mut lo: i128 = 0;
    let mut hi: i128 = 20_000_000_000_001;
    proof {
        assert(hi * hi > n) by (nonlinear_arith)
            requires
                hi == 20_000_000_000_001,
                n <= 400_000_000_000_000_000_000_000_000,
        ;
    }
    while lo + 1 < hi
        invariant
            0 <= lo < hi <= 20_000_000_000_001,
            lo * lo <= n,
            hi * hi > n,
        decreases hi - lo,
    {
        let mid: i128 = lo + (hi - lo) / 2;
        assert(lo < mid < hi);
        assert(mid * mid < 170_141_183_460_469_231_731_687_303_715_884_105_727) by (nonlinear_arith)
            requires
                0 <= mid <= 20_000_000_000_001,
        ;
        if mid * mid <= n {
            lo = mid;
        } else {
            hi = mid;
        }
    }
    proof {
        lemma_sqrt_floor(n as nat);
        lemma_sqrt_unique(n as nat, lo as nat, sqrt_floor(n as nat));
    }
    lo
}

impl Fx {
    /// Raw magnitude within `FX_MAX`.
    pub open spec fn wf(self) -> bool {
        fx_wf(self@)
    }

    /// Build a scalar from a raw (scaled) value, clamping it into range.
    pub fn new(raw: i128) -> (r: Fx)
        ensures
            r@ == sat(raw as int),
            r.wf(),
            fx_wf(raw as int) ==> r@ == raw as int,
    {
        if raw < -FX_MAX {
            Fx { raw: -FX_MAX }
        } else if raw > FX_MAX {
            Fx { raw: FX_MAX }
        } else {
            Fx { raw }
        }
    }

    /// The zero scalar.
    pub fn zero() -> (r: Fx)
        ensures
            r@ == 0,
            r.wf(),
    {
        Fx { raw: 0 }
    }

    /// The scalar for one real unit.
    pub fn one() -> (r: Fx)
        ensures
            r@ == SCALE as int,
            r.wf(),
    {
        Fx { raw: SCALE }
    }

    /// Saturating sum.
    pub fn add(self, o: Fx) -> (r: Fx)
        requires
            self.wf(),
            o.wf(),
        ensures
            r@ == fadd(self@, o@),
            r.wf(),
    {
        Fx::new(self.raw + o.raw)
    }

    /// Saturating difference.
    pub fn sub(self, o: Fx) -> (r: Fx)
        requires
            self.wf(),
            o.wf(),
        ensures
            r@ == fsub(self@, o@),
            r.wf(),
    {
        Fx::new(self.raw - o.raw)
    }

    /// Negation.
    pub fn neg(self) -> (r: Fx)
        requires
            self.wf(),
        ensures
            r@ == fneg(self@),
            r@ == -self@,
            r.wf(),
    {
        Fx { raw: -self.raw }
    }

    /// Saturating scaled product.
    pub fn mul(self, o: Fx) -> (r: Fx)
        requires
            self.wf(),
            o.wf(),
        ensures
            r@ == fmul(self@, o@),
            r.wf(),
    {
        proof {
            assert(-(FX_MAX as int) * (FX_MAX as int) <= self@ * o@ <= (FX_MAX as int) * (
            FX_MAX as int)) by (nonlinear_arith)
                requires
                    fx_wf(self@),
                    fx_wf(o@),
            ;
        }
        let p: i128 = self.raw * o.raw;
        let q: i128 = p / SCALE;
        proof {
            lemma_tdiv_bound(p as int, SCALE as int);
        }
        Fx::new(q)
    }

    /// Saturating scaled division by a positive scalar.
    pub fn div(self, o: Fx) -> (r: Fx)
        requires
            self.wf(),
            o.wf(),
            o@ > 0,
        ensures
            r@ == fdiv(self@, o@),
            r.wf(),
    {
        let p: i128 = self.raw * SCALE;
        let q: i128 = p / o.raw;
        proof {
            lemma_tdiv_bound(p as int, o@);
        }
        Fx::new(q)
    }

    /// Scaled floor square root; nonpositive inputs give zero.
    pub fn sqrt(self) -> (r: Fx)
        requires
            self.wf(),
        ensures
            r@ == fsqrt(self@),
            r@ >= 0,
            r.wf(),
    {
        if self.raw <= 0 {
            Fx { raw: 0 }
        } else {
            let n: i128 = self.raw * SCALE;
            let s: i128 = isqrt_i128(n);
            Fx { raw: s }
        }
    }

    /// Truncate to whole real units (raw value divided by `SCALE`).
    pub fn trunc_units(self) -> (r: i128)
        requires
            self.wf(),
        ensures
            r as int == tdiv(self@, SCALE as int),
    {
        proof {
            lemma_tdiv_bound(self@, SCALE as int);
        }
        self.raw / SCALE
    }
}

} // verus!
