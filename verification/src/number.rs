//! Numbers of the flight model as plain integers.
//!
//! The equations of motion run on IEEE 754 numbers outside this crate. Here such
//! a number is carried by its bit pattern, which loses nothing, and is compared
//! by an integer key that orders patterns as the numbers they denote.
use vstd::arithmetic::power2::*;
use vstd::prelude::*;

verus! {

/// The pattern of the sign bit.
pub const SIGN: u64 = 0x8000_0000_0000_0000;

/// The pattern of positive infinity; larger magnitudes are not numbers.
pub const INFINITE: u64 = 0x7ff0_0000_0000_0000;

/// The weight of one step of the exponent field.
pub const EXPONENT_STEP: u64 = 0x0010_0000_0000_0000;

/// The exponent field of one.
pub const EXPONENT_BIAS: u64 = 1023;

/// The pattern of the gap between one and the next larger number.
pub const EPSILON: u64 = 0x3cb0_0000_0000_0000;

/// The pattern of one millionth.
pub const ONE_MILLIONTH: u64 = 0x3eb0_c6f7_a0b5_ed8d;

/// The pattern of one thousandth.
pub const ONE_THOUSANDTH: u64 = 0x3f50_624d_d2f1_a9fc;

/// The pattern of one ten-thousandth.
pub const ONE_TEN_THOUSANDTH: u64 = 0x3f1a_36e2_eb1c_432d;

/// The pattern of two hundredths.
pub const TWO_HUNDREDTHS: u64 = 0x3f94_7ae1_47ae_147b;

/// The pattern of minus one.
pub const MINUS_ONE: u64 = 0xbff0_0000_0000_0000;

/// A double-precision number, held by its IEEE 754 bit pattern.
#[derive(Debug, Clone, Copy, PartialEq, Eq, Structural)]
pub struct Real {
    pub bits: u64,
}

/// A single-precision number, held by its IEEE 754 bit pattern.
#[derive(Debug, Clone, Copy, PartialEq, Eq, Structural)]
pub struct Single {
    pub bits: u32,
}

/// The pattern without its sign.
pub open spec fn magnitude(bits: u64) -> int {
    if bits >= SIGN {
        bits - SIGN
    } else {
        bits as int
    }
}

/// The bit pattern of the whole number `n`.
pub open spec fn integer_bits(n: u32) -> int {
    if n == 0 {
        0
    } else {
        let e = leading_power(n as nat);
        (EXPONENT_BIAS + e) * EXPONENT_STEP + (n - pow2(e)) * pow2((52 - e) as nat)
    }
}

/// The exponent of the largest power of two that is at most `n`.
pub open spec fn leading_power(n: nat) -> nat
    decreases n,
{
    if n <= 1 {
        0
    } else {
        leading_power(n / 2) + 1
    }
}

impl Real {
    /// The number with the given pattern.
    pub open spec fn spec_of(bits: u64) -> Real {
        Real { bits }
    }

    /// The whole number `n`.
    pub open spec fn spec_integer(n: u32) -> Real {
        Real { bits: integer_bits(n) as u64 }
    }

    /// Whether the pattern denotes no number.
    pub open spec fn spec_is_nan(self) -> bool {
        magnitude(self.bits) > INFINITE
    }

    /// Whether the pattern denotes an ordinary number.
    pub open spec fn spec_is_finite(self) -> bool {
        magnitude(self.bits) < INFINITE
    }

    /// An integer that orders numbers; both zeros share the key 0.
    pub open spec fn key(self) -> int {
        if self.bits >= SIGN {
            -magnitude(self.bits)
        } else {
            magnitude(self.bits)
        }
    }

    /// An integer that orders all patterns, with -0 below +0 and the
    /// patterns that denote no number at both ends.
    pub open spec fn total_key(self) -> int {
        if self.bits >= SIGN {
            -magnitude(self.bits) - 1
        } else {
            magnitude(self.bits)
        }
    }

    /// Whether `self < other`. Nothing is below or above a pattern that denotes no number.
    pub open spec fn spec_below(self, other: Real) -> bool {
        !self.spec_is_nan() && !other.spec_is_nan() && self.key() < other.key()
    }

    /// Whether `self <= other`.
    pub open spec fn spec_at_most(self, other: Real) -> bool {
        !self.spec_is_nan() && !other.spec_is_nan() && self.key() <= other.key()
    }

    /// The larger of two numbers, or the one that is a number.
    pub open spec fn spec_larger(self, other: Real) -> Real {
        if self.spec_is_nan() || self.spec_below(other) {
            other
        } else {
            self
        }
    }

    /// The smaller of two numbers, or the one that is a number.
    pub open spec fn spec_smaller(self, other: Real) -> Real {
        if self.spec_is_nan() || other.spec_below(self) {
            other
        } else {
            self
        }
    }

    /// The number moved into `low..=high`; a pattern that denotes no number stays.
    pub open spec fn spec_clamp(self, low: Real, high: Real) -> Real {
        if self.spec_below(low) {
            low
        } else if high.spec_below(self) {
            high
        } else {
            self
        }
    }

    /// The number with the given pattern.
    pub fn of(bits: u64) -> (r: Real)
        ensures
            r == Self::spec_of(bits),
    {
        Real { bits }
    }

    /// Zero.
    pub fn zero() -> (r: Real)
        ensures
            r == Self::spec_of(0),
            r == Self::spec_integer(0),
    {
        Real { bits: 0 }
    }

    /// The whole number `n`, which every pattern of this width can hold exactly.
    pub fn integer(n: u32) -> (r: Real)
        ensures
            r == Self::spec_integer(n),
            r.bits == integer_bits(n),
            r.bits < INFINITE,
    {
        if n == 0 {
            return Real { bits: 0 };
        }
        let mut exponent: u64 = 0;
        let mut power: u64 = 1;
        proof {
            lemma2_to64();
        }
        while power * 2 <= n as u64
            invariant
                0 < n,
                0 < power,
                power == pow2(exponent as nat),
                power <= n as u64,
                exponent <= 31,
            decreases n - power,
        {
            proof {
                lemma_pow2_unfold((exponent + 1) as nat);
                lemma_pow2_at_most(exponent as nat + 1, n as nat);
            }
            power = power * 2;
            exponent = exponent + 1;
        }
        proof {
            lemma_leading_power(n as nat, exponent as nat);
            lemma_pow2_adds(exponent as nat, (52 - exponent) as nat);
            lemma2_to64();
            lemma2_to64_rest();
            lemma_pow2_pos((52 - exponent) as nat);
            lemma_quotient(power as int, pow2((52 - exponent) as nat) as int);
            lemma_pow2_unfold((exponent + 1) as nat);
            lemma_scaled_below((n - power) as int, power as int, pow2((52 - exponent) as nat) as int);
        }
        let scale: u64 = EXPONENT_STEP / power;
        assert(scale == pow2((52 - exponent) as nat));
        let fraction: u64 = (n as u64 - power) * scale;
        Real { bits: (EXPONENT_BIAS + exponent) * EXPONENT_STEP + fraction }
    }

    pub fn is_nan(&self) -> (r: bool)
        ensures
            r == self.spec_is_nan(),
    {
        if self.bits >= SIGN {
            self.bits - SIGN > INFINITE
        } else {
            self.bits > INFINITE
        }
    }

    pub fn is_finite(&self) -> (r: bool)
        ensures
            r == self.spec_is_finite(),
    {
        if self.bits >= SIGN {
            self.bits - SIGN < INFINITE
        } else {
            self.bits < INFINITE
        }
    }

    /// Whether `self < other`.
    pub fn is_below(&self, other: Real) -> (r: bool)
        ensures
            r == self.spec_below(other),
    {
        if self.is_nan() || other.is_nan() {
            return false;
        }
        if self.bits >= SIGN {
            if other.bits >= SIGN {
                self.bits > other.bits
            } else {
                self.bits > SIGN || other.bits > 0
            }
        } else if other.bits >= SIGN {
            false
        } else {
            self.bits < other.bits
        }
    }

    /// Whether `self <= other`.
    pub fn is_at_most(&self, other: Real) -> (r: bool)
        ensures
            r == self.spec_at_most(other),
    {
        !self.is_nan() && !other.is_nan() && !other.is_below(*self)
    }

    /// The larger of two numbers, or the one that is a number.
    pub fn larger(&self, other: Real) -> (r: Real)
        ensures
            r == self.spec_larger(other),
    {
        if self.is_nan() || self.is_below(other) {
            other
        } else {
            *self
        }
    }

    /// The smaller of two numbers, or the one that is a number.
    pub fn smaller(&self, other: Real) -> (r: Real)
        ensures
            r == self.spec_smaller(other),
    {
        if self.is_nan() || other.is_below(*self) {
            other
        } else {
            *self
        }
    }

    /// The number moved into `low..=high`.
    pub fn clamp(&self, low: Real, high: Real) -> (r: Real)
        ensures
            r == self.spec_clamp(low, high),
    {
        if self.is_below(low) {
            low
        } else if high.is_below(*self) {
            high
        } else {
            *self
        }
    }

    /// Whether `self` comes before `other` in the order of all patterns.
    pub fn precedes(&self, other: Real) -> (r: bool)
        ensures
            r == (self.total_key() < other.total_key()),
    {
        if self.bits >= SIGN {
            if other.bits >= SIGN {
                self.bits > other.bits
            } else {
                true
            }
        } else if other.bits >= SIGN {
            false
        } else {
            self.bits < other.bits
        }
    }
}

proof fn lemma_pow2_at_most(e: nat, n: nat)
    requires
        pow2(e) <= n,
        n <= u32::MAX,
    ensures
        e <= 31,
{
    if e >= 32 {
        lemma2_to64();
        if e > 32 {
            lemma_pow2_strictly_increases(32, e);
        }
    }
}

proof fn lemma_leading_power(n: nat, e: nat)
    requires
        pow2(e) <= n,
        n < 2 * pow2(e),
    ensures
        leading_power(n) == e,
    decreases e,
{
    if e == 0 {
        lemma2_to64();
    } else {
        lemma_pow2_unfold(e);
        lemma_pow2_pos((e - 1) as nat);
        assert(pow2((e - 1) as nat) <= n / 2 && n / 2 < 2 * pow2((e - 1) as nat));
        lemma_leading_power(n / 2, (e - 1) as nat);
    }
}

proof fn lemma_quotient(a: int, b: int)
    requires
        0 < a,
        0 < b,
    ensures
        (a * b) / a == b,
{
    vstd::arithmetic::div_mod::lemma_div_multiples_vanish(b, a);
}

proof fn lemma_scaled_below(x: int, p: int, s: int)
    requires
        0 <= x < p,
        0 < s,
        p * s == EXPONENT_STEP,
    ensures
        0 <= x * s < EXPONENT_STEP,
{
    assert(0 <= x * s && x * s < p * s) by (nonlinear_arith)
        requires
            0 <= x < p,
            0 < s,
    ;
}

/// A whole number is held exactly: the significand of its pattern, scaled by
/// the pattern's exponent, is the number itself.
pub proof fn law_integer_is_exact(n: u32)
    requires
        0 < n,
    ensures
        ({
            let exponent = integer_bits(n) / EXPONENT_STEP as int - EXPONENT_BIAS;
            let fraction = integer_bits(n) % EXPONENT_STEP as int;
            &&& 0 <= exponent
            &&& (EXPONENT_STEP + fraction) * pow2(exponent as nat) == n * EXPONENT_STEP
        }),
{
    let e = leading_power(n as nat);
    lemma_leading_power_bounds(n as nat);
    lemma_pow2_at_most(e, n as nat);
    let low = pow2(e) as int;
    let high = pow2((52 - e) as nat) as int;
    lemma2_to64();
    lemma2_to64_rest();
    lemma_pow2_adds(e, (52 - e) as nat);
    lemma_pow2_pos(e);
    lemma_pow2_pos((52 - e) as nat);
    lemma_scaled_below(n - low, low, high);
    let fraction = (n - low) * high;
    assert(integer_bits(n) == (EXPONENT_BIAS + e) * EXPONENT_STEP + fraction);
    assert((EXPONENT_STEP + fraction) * low == n * EXPONENT_STEP) by (nonlinear_arith)
        requires
            fraction == (n - low) * high,
            low * high == EXPONENT_STEP,
    ;
}

/// Whole numbers are ordered as their patterns are.
pub proof fn law_integer_order(a: u32, b: u32)
    requires
        a < b,
    ensures
        0 <= integer_bits(a) < integer_bits(b) < INFINITE,
        Real::spec_integer(a).spec_below(Real::spec_integer(b)),
{
    lemma_integer_bits_bounds(b);
    let eb = leading_power(b as nat);
    if a > 0 {
        lemma_integer_bits_bounds(a);
        let ea = leading_power(a as nat);
        if ea > eb {
            lemma_leading_power_bounds(a as nat);
            lemma_leading_power_bounds(b as nat);
            lemma_pow2_unfold(eb + 1);
            if ea > eb + 1 {
                lemma_pow2_strictly_increases(eb + 1, ea);
            }
            assert(false);
        }
        if ea == eb {
            let low = pow2(ea) as int;
            let high = pow2((52 - ea) as nat) as int;
            lemma_pow2_pos((52 - ea) as nat);
            assert((a - low) * high < (b - low) * high) by (nonlinear_arith)
                requires
                    a < b,
                    0 < high,
            ;
        }
    }
}

proof fn lemma_leading_power_bounds(n: nat)
    requires
        0 < n,
    ensures
        pow2(leading_power(n)) <= n < 2 * pow2(leading_power(n)),
    decreases n,
{
    lemma2_to64();
    if n > 1 {
        lemma_leading_power_bounds(n / 2);
        lemma_pow2_unfold(leading_power(n));
    }
}

proof fn lemma_integer_bits_bounds(n: u32)
    requires
        0 < n,
    ensures
        leading_power(n as nat) <= 31,
        ({
            let base = (EXPONENT_BIAS + leading_power(n as nat)) * EXPONENT_STEP;
            base <= integer_bits(n) < base + EXPONENT_STEP
        }),
        0 < integer_bits(n) < INFINITE,
{
    let e = leading_power(n as nat);
    lemma_leading_power_bounds(n as nat);
    lemma_pow2_at_most(e, n as nat);
    lemma2_to64();
    lemma2_to64_rest();
    lemma_pow2_adds(e, (52 - e) as nat);
    lemma_pow2_pos((52 - e) as nat);
    lemma_scaled_below(n - pow2(e), pow2(e) as int, pow2((52 - e) as nat) as int);
}

/// Clamping ends inside the bounds, whatever number it starts from.
pub proof fn law_clamp_lands_in_range(value: Real, low: Real, high: Real)
    requires
        low.spec_at_most(high),
        !value.spec_is_nan(),
    ensures
        low.spec_at_most(value.spec_clamp(low, high)),
        value.spec_clamp(low, high).spec_at_most(high),
{
}

/// The number with that pattern without sign, in units of the smallest number above
/// zero.
pub open spec fn units(magnitude: int) -> int {
    let exponent = magnitude / EXPONENT_STEP as int;
    let fraction = magnitude % EXPONENT_STEP as int;
    if exponent == 0 {
        fraction
    } else {
        (EXPONENT_STEP + fraction) * pow2((exponent - 1) as nat)
    }
}

impl Real {
    /// The number itself, in units of the smallest number above zero, which is two to the
    /// power of minus 1074.
    pub open spec fn value(self) -> int {
        if self.bits >= SIGN {
            -units(magnitude(self.bits))
        } else {
            units(magnitude(self.bits))
        }
    }
}

/// Numbers are compared by what they are: one is below another, or at most it, exactly
/// where its value is.
pub proof fn law_order_is_numeric(a: Real, b: Real)
    requires
        a.spec_is_finite(),
        b.spec_is_finite(),
    ensures
        a.spec_below(b) == (a.value() < b.value()),
        a.spec_at_most(b) == (a.value() <= b.value()),
{
    let m = magnitude(a.bits);
    let n = magnitude(b.bits);
    lemma_units_ascend(0, m);
    lemma_units_ascend(0, n);
    if m <= n {
        lemma_units_ascend(m, n);
    } else {
        lemma_units_ascend(n, m);
    }
    assert(units(0) == 0);
}

/// A whole number is held with its own value.
pub proof fn law_integer_has_its_value(n: u32)
    ensures
        Real::spec_integer(n).value() == n * pow2(1074),
{
    if n == 0 {
        assert(units(0) == 0);
        assert(0 * pow2(1074) == 0) by (nonlinear_arith);
    } else {
        law_integer_is_exact(n);
        lemma_integer_bits_bounds(n);
        let bits = integer_bits(n);
        let exponent = bits / EXPONENT_STEP as int - EXPONENT_BIAS;
        let fraction = bits % EXPONENT_STEP as int;
        lemma_pow2_adds(exponent as nat, 1022);
        lemma2_to64_rest();
        lemma_pow2_adds(52, 1022);
        assert((EXPONENT_STEP + fraction) * (pow2(exponent as nat) * pow2(1022)) == n * (
        EXPONENT_STEP * pow2(1022))) by (nonlinear_arith)
            requires
                (EXPONENT_STEP + fraction) * pow2(exponent as nat) == n * EXPONENT_STEP,
        ;
    }
}

proof fn lemma_units_step(m: int)
    requires
        0 <= m,
    ensures
        units(m) < units(m + 1),
{
    let step = EXPONENT_STEP as int;
    let e = m / step;
    let f = m % step;
    if f + 1 < step {
        assert((m + 1) / step == e && (m + 1) % step == f + 1);
        if e > 0 {
            let p = pow2((e - 1) as nat) as int;
            lemma_pow2_pos((e - 1) as nat);
            assert((step + f) * p < (step + f + 1) * p) by (nonlinear_arith)
                requires
                    0 < p,
            ;
        }
    } else {
        assert((m + 1) / step == e + 1 && (m + 1) % step == 0);
        if e == 0 {
            lemma2_to64();
        } else {
            let p = pow2((e - 1) as nat) as int;
            lemma_pow2_pos((e - 1) as nat);
            lemma_pow2_unfold(e as nat);
            assert((step + f) * p < step * (2 * p)) by (nonlinear_arith)
                requires
                    0 < p,
                    f < step,
            ;
        }
    }
}

proof fn lemma_units_ascend(m: int, n: int)
    requires
        0 <= m <= n,
    ensures
        units(m) <= units(n),
        m < n ==> units(m) < units(n),
    decreases n - m,
{
    if m < n {
        lemma_units_ascend(m, n - 1);
        lemma_units_step(n - 1);
    }
}

/// Against a whole number, a number is compared by what it is.
pub proof fn law_whole_numbers_compare(n: u32, x: Real)
    requires
        x.spec_is_finite(),
    ensures
        Real::spec_integer(n).spec_is_finite(),
        Real::spec_integer(n).spec_below(x) == (n * pow2(1074) < x.value()),
        Real::spec_integer(n).spec_at_most(x) == (n * pow2(1074) <= x.value()),
        x.spec_below(Real::spec_integer(n)) == (x.value() < n * pow2(1074)),
        x.spec_at_most(Real::spec_integer(n)) == (x.value() <= n * pow2(1074)),
{
    if n > 0 {
        lemma_integer_bits_bounds(n);
    }
    law_integer_has_its_value(n);
    law_order_is_numeric(Real::spec_integer(n), x);
    law_order_is_numeric(x, Real::spec_integer(n));
}

/// A pattern that denotes no number is neither below nor above nor equal to anything, itself
/// included; and both zeros are one number.
pub proof fn law_no_number_compares(a: Real, b: Real)
    ensures
        a.spec_is_nan() || b.spec_is_nan() ==> !a.spec_below(b) && !a.spec_at_most(b),
        !a.spec_is_nan() ==> a.spec_at_most(a) && !a.spec_below(a),
        !a.spec_is_nan() && !b.spec_is_nan() ==> a.spec_below(b) != b.spec_at_most(a),
        a.spec_is_finite() ==> !a.spec_is_nan(),
        Real::spec_of(0).spec_at_most(Real::spec_of(SIGN)),
        Real::spec_of(SIGN).spec_at_most(Real::spec_of(0)),
{
}

/// The larger and the smaller of two numbers are the two, and the one lies above the other;
/// what denotes no number gives way. A clamp leaves alone what lies within its bounds.
pub proof fn law_larger_and_smaller(a: Real, b: Real, c: Real)
    requires
        a.spec_is_finite(),
        b.spec_is_finite(),
        c.spec_is_finite(),
    ensures
        a.spec_larger(b) == a || a.spec_larger(b) == b,
        a.value() <= a.spec_larger(b).value() && b.value() <= a.spec_larger(b).value(),
        a.spec_smaller(b) == a || a.spec_smaller(b) == b,
        a.spec_smaller(b).value() <= a.value() && a.spec_smaller(b).value() <= b.value(),
        b.value() <= a.value() <= c.value() ==> a.spec_clamp(b, c) == a,
        a.value() < b.value() ==> a.spec_clamp(b, c) == b,
        b.value() <= c.value() < a.value() ==> a.spec_clamp(b, c) == c,
        forall|other: Real| #[trigger]
            other.spec_is_nan() ==> a.spec_larger(other) == a && other.spec_larger(a) == a
                && a.spec_smaller(other) == a && other.spec_smaller(a) == a
                && other.spec_clamp(b, c) == other,
{
    law_order_is_numeric(a, b);
    law_order_is_numeric(b, a);
    law_order_is_numeric(a, c);
    law_order_is_numeric(c, a);
    law_order_is_numeric(b, c);
}

proof fn lemma_units_of(exponent: nat, fraction: nat)
    requires
        0 < exponent,
        fraction < EXPONENT_STEP,
    ensures
        units((exponent * EXPONENT_STEP + fraction) as int) == (EXPONENT_STEP + fraction) * pow2(
            (exponent - 1) as nat,
        ),
{
    let m = (exponent * EXPONENT_STEP + fraction) as int;
    vstd::arithmetic::div_mod::lemma_fundamental_div_mod_converse(
        m,
        EXPONENT_STEP as int,
        exponent as int,
        fraction as int,
    );
}

/// The named numbers are what they are called: minus one is that exactly, the smallest step
/// at one is two to the power of minus 52, and each of the others times its reciprocal misses
/// one by less than its own last digit does.
pub proof fn law_named_numbers()
    ensures
        Real::spec_of(MINUS_ONE).value() == -pow2(1074),
        Real::spec_of(EPSILON).value() * pow2(52) == pow2(1074),
        is_reciprocal(Real::spec_of(ONE_MILLIONTH), 1_000_000),
        is_reciprocal(Real::spec_of(ONE_THOUSANDTH), 1_000),
        is_reciprocal(Real::spec_of(ONE_TEN_THOUSANDTH), 10_000),
        is_reciprocal(Real::spec_of(TWO_HUNDREDTHS), 50),
{
    lemma2_to64_rest();
    lemma2_to64();
    lemma_units_of(0x3ff, 0);
    lemma_pow2_adds(52, 1022);
    assert(magnitude(MINUS_ONE) == 0x3ff * EXPONENT_STEP);
    assert(EXPONENT_STEP == pow2(52));
    lemma_units_of(0x3cb, 0);
    assert(magnitude(EPSILON) == 0x3cb * EXPONENT_STEP);
    lemma_pow2_adds(52, 970);
    lemma_pow2_adds(52, 1022);
    lemma_pow2_adds(64, 8);
    lemma_pow2_adds(64, 2);
    lemma_reciprocal(0x3eb, 0x0_c6f7_a0b5_ed8d, 1_000_000);
    lemma_reciprocal(0x3f5, 0x0_624d_d2f1_a9fc, 1_000);
    lemma_reciprocal(0x3f1, 0xa_36e2_eb1c_432d, 10_000);
    lemma_reciprocal(0x3f9, 0x4_7ae1_47ae_147b, 50);
}

/// Whether one divided by `n` lies within the last digit of the number.
pub open spec fn is_reciprocal(number: Real, n: int) -> bool {
    let below = Real { bits: (number.bits - 1) as u64 };
    let above = Real { bits: (number.bits + 1) as u64 };
    below.value() * n < pow2(1074) < above.value() * n
}

proof fn lemma_reciprocal(exponent: nat, fraction: nat, n: int)
    requires
        0x3e0 <= exponent < 0x3ff,
        0 < fraction < EXPONENT_STEP - 1,
        0 < n,
        (EXPONENT_STEP + fraction - 1) * n < pow2((1075 - exponent) as nat),
        pow2((1075 - exponent) as nat) < (EXPONENT_STEP + fraction + 1) * n,
    ensures
        is_reciprocal(
            Real { bits: (exponent * EXPONENT_STEP + fraction) as u64 },
            n,
        ),
{
    let low = (exponent - 1) as nat;
    let p = pow2(low) as int;
    lemma_pow2_pos(low);
    lemma_units_of(exponent, (fraction - 1) as nat);
    lemma_units_of(exponent, (fraction + 1) as nat);
    lemma_pow2_adds((1075 - exponent) as nat, low);
    let whole = pow2((1075 - exponent) as nat) as int;
    let a = EXPONENT_STEP + fraction - 1;
    let b = EXPONENT_STEP + fraction + 1;
    assert((a * p) * n < whole * p && whole * p < (b * p) * n) by (nonlinear_arith)
        requires
            a * n < whole,
            whole < b * n,
            0 < p,
    ;
}

/// The order of all patterns agrees with the order of the numbers: what is smaller comes
/// first, and of numbers from zero up none of equal value come in any order.
pub proof fn law_total_order_is_numeric(a: Real, b: Real)
    requires
        a.spec_is_finite(),
        b.spec_is_finite(),
    ensures
        a.value() < b.value() ==> a.total_key() < b.total_key(),
        a.bits < SIGN && b.bits < SIGN ==> (a.total_key() < b.total_key()) == (a.value()
            < b.value()),
{
    let m = magnitude(a.bits);
    let n = magnitude(b.bits);
    assert(units(0) == 0);
    lemma_units_ascend(0, m);
    lemma_units_ascend(0, n);
    if m <= n {
        lemma_units_ascend(m, n);
    } else {
        lemma_units_ascend(n, m);
    }
}

/// A quarter is held exactly.
pub proof fn law_a_quarter_is_exact()
    ensures
        Real::spec_of(0x3fd0_0000_0000_0000).spec_is_finite(),
        Real::spec_of(0x3fd0_0000_0000_0000).value() * 4 == pow2(1074),
{
    lemma2_to64_rest();
    lemma2_to64();
    lemma_units_of(0x3fd, 0);
    assert(magnitude(0x3fd0_0000_0000_0000) == 0x3fd * EXPONENT_STEP);
    assert(EXPONENT_STEP == pow2(52));
    lemma_pow2_adds(52, 1020);
    lemma_pow2_adds(2, 1072);
}

/// The number for a sixtieth lies below it by less than the last of its digits.
pub proof fn law_sixtieth_is_near()
    ensures
        Real::spec_of(0x3f91_1111_1111_1111).value() * 60 < pow2(1074),
        (Real::spec_of(0x3f91_1111_1111_1111).value() + pow2(1016)) * 60 > pow2(1074),
{
    lemma2_to64_rest();
    lemma2_to64();
    lemma_units_of(0x3f9, 0x1_1111_1111_1111);
    assert(magnitude(0x3f91_1111_1111_1111) == 0x3f9 * EXPONENT_STEP + 0x1_1111_1111_1111);
    assert(EXPONENT_STEP == pow2(52));
    lemma_pow2_adds(58, 1016);
    let unit = pow2(1016) as int;
    lemma_pow2_pos(1016);
    assert(pow2(58) == 0x400_0000_0000_0000);
    assert((EXPONENT_STEP + 0x1_1111_1111_1111) * unit * 60 < 0x400_0000_0000_0000 * unit)
        by (nonlinear_arith)
        requires
            unit > 0,
            EXPONENT_STEP == 0x10_0000_0000_0000,
    ;
    assert(((EXPONENT_STEP + 0x1_1111_1111_1111) * unit + unit) * 60 > 0x400_0000_0000_0000 * unit)
        by (nonlinear_arith)
        requires
            unit > 0,
            EXPONENT_STEP == 0x10_0000_0000_0000,
    ;
}

/// Numbers are compared, chosen and clamped by what they are.
pub proof fn law_comparisons_are_numeric(
    a: &Real,
    b: Real,
    below: bool,
    at_most: bool,
    precedes: bool,
    larger: Real,
    smaller: Real,
)
    requires
        a.spec_is_finite(),
        b.spec_is_finite(),
        call_ensures(Real::is_below, (a, b), below),
        call_ensures(Real::is_at_most, (a, b), at_most),
        call_ensures(Real::precedes, (a, b), precedes),
        call_ensures(Real::larger, (a, b), larger),
        call_ensures(Real::smaller, (a, b), smaller),
    ensures
        below <==> a.value() < b.value(),
        at_most <==> a.value() <= b.value(),
        a.value() < b.value() ==> precedes,
        b.value() < a.value() ==> !precedes,
        larger.value() == if a.value() < b.value() {
            b.value()
        } else {
            a.value()
        },
        smaller.value() == if a.value() < b.value() {
            a.value()
        } else {
            b.value()
        },
{
    law_order_is_numeric(*a, b);
    law_total_order_is_numeric(*a, b);
    law_total_order_is_numeric(b, *a);
    law_larger_and_smaller(*a, b, b);
}

/// A whole number, nought and what is clamped have the values one expects.
pub proof fn law_values_are_as_expected(
    n: u32,
    zero: Real,
    whole: Real,
    a: &Real,
    low: Real,
    high: Real,
    clamped: Real,
)
    requires
        call_ensures(Real::zero, (), zero),
        call_ensures(Real::integer, (n,), whole),
        a.spec_is_finite() && low.spec_is_finite() && high.spec_is_finite(),
        low.value() <= high.value(),
        call_ensures(Real::clamp, (a, low, high), clamped),
    ensures
        zero.value() == 0 && zero.bits == 0,
        whole.value() == n * pow2(1074),
        clamped.value() == if a.value() < low.value() {
            low.value()
        } else if a.value() > high.value() {
            high.value()
        } else {
            a.value()
        },
{
    law_integer_has_its_value(n);
    law_integer_has_its_value(0);
    law_larger_and_smaller(*a, low, high);
}

/// A pattern is a number unless its exponent is full, and none at all where a fraction is left
/// beside a full exponent.
pub proof fn law_patterns_are_told_apart(a: &Real, nan: bool, finite: bool)
    requires
        call_ensures(Real::is_nan, (a,), nan),
        call_ensures(Real::is_finite, (a,), finite),
    ensures
        finite <==> (a.bits as int) % 0x8000_0000_0000_0000 < 0x7ff0_0000_0000_0000,
        nan <==> (a.bits as int) % 0x8000_0000_0000_0000 > 0x7ff0_0000_0000_0000,
{
}

} // verus!
