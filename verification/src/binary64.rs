//! Binary64 floating-point values, held by their bit pattern.
//!
//! The engine computes with hardware floats. This library carries those values
//! through and decides on them (is a net asset value exhausted, is a draw below a
//! probability), and both can be said exactly over integers: a finite binary64
//! value is a whole number of steps of `2^-1074`.
use vstd::arithmetic::power2::pow2;
use vstd::prelude::*;

verus! {

/// `2^52`: one more than the largest fraction field.
pub const FRACTION_SPAN: u64 = 0x0010_0000_0000_0000;

/// `2^53`: the number of equally spaced points of a unit draw.
pub const UNIT_SPAN: u64 = 0x0020_0000_0000_0000;

/// `2^63`: the weight of the sign bit.
pub const SIGN_WEIGHT: u64 = 0x8000_0000_0000_0000;

/// The pattern of positive infinity.
pub const INFINITY_BITS: u64 = 0x7ff0_0000_0000_0000;

/// The pattern of 1.
pub const ONE_BITS: u64 = 0x3ff0_0000_0000_0000;

/// The pattern of 5.
pub const FIVE_BITS: u64 = 0x4014_0000_0000_0000;

/// A binary64 value by its bit pattern.
#[derive(Clone, Copy, Debug, PartialEq, Eq, Structural)]
pub struct Binary64 {
    pub bits: u64,
}

/// What a [`Binary64`] stands for: a number (signed zeros and infinities included) by
/// its pattern, or "not a number", whose patterns are not told apart.
#[verifier::ext_equal]
pub enum Binary64View {
    NotANumber,
    Number(u64),
}

impl Binary64View {
    /// The value is a finite number.
    pub open spec fn finite(self) -> bool {
        match self {
            Binary64View::NotANumber => false,
            Binary64View::Number(bits) => (Binary64 { bits }).is_finite(),
        }
    }

    /// The value is a number above zero.
    pub open spec fn above_zero(self) -> bool {
        match self {
            Binary64View::NotANumber => false,
            Binary64View::Number(bits) => (Binary64 { bits }).above_zero(),
        }
    }

    /// The value is a finite number of absolute value at most `bound`.
    pub open spec fn within(self, bound: nat) -> bool {
        match self {
            Binary64View::NotANumber => false,
            Binary64View::Number(bits) => (Binary64 { bits }).within(bound),
        }
    }
}

impl View for Binary64 {
    type V = Binary64View;

    open spec fn view(&self) -> Binary64View {
        if self.is_nan() {
            Binary64View::NotANumber
        } else {
            Binary64View::Number(self.bits)
        }
    }
}

impl Binary64 {
    pub open spec fn sign_set(self) -> bool {
        self.bits >= SIGN_WEIGHT
    }

    /// The pattern without its sign bit.
    pub open spec fn magnitude(self) -> nat {
        if self.sign_set() {
            (self.bits - SIGN_WEIGHT) as nat
        } else {
            self.bits as nat
        }
    }

    pub open spec fn exponent(self) -> nat {
        self.magnitude() / (FRACTION_SPAN as nat)
    }

    pub open spec fn fraction(self) -> nat {
        self.magnitude() % (FRACTION_SPAN as nat)
    }

    pub open spec fn is_finite(self) -> bool {
        self.exponent() < 2047
    }

    pub open spec fn is_nan(self) -> bool {
        self.exponent() == 2047 && self.fraction() != 0
    }

    pub open spec fn is_infinite(self) -> bool {
        self.exponent() == 2047 && self.fraction() == 0
    }

    /// The significand: the fraction field, with the implicit leading bit of a
    /// normal number.
    pub open spec fn significand(self) -> nat {
        if self.exponent() == 0 {
            self.fraction()
        } else {
            self.fraction() + FRACTION_SPAN as nat
        }
    }

    /// How many times the step `2^-1074` is doubled to give the significand's unit.
    pub open spec fn scale(self) -> nat {
        if self.exponent() == 0 {
            0
        } else {
            (self.exponent() - 1) as nat
        }
    }

    /// The value of a finite number, counted in steps of `2^-1074`.
    pub open spec fn steps(self) -> int {
        let size = (self.significand() * pow2(self.scale())) as int;
        if self.sign_set() {
            -size
        } else {
            size
        }
    }

    /// The comparison `self <= 0.0`: false of "not a number".
    pub open spec fn at_most_zero(self) -> bool {
        ||| self.is_infinite() && self.sign_set()
        ||| self.is_finite() && self.steps() <= 0
    }

    /// The comparison `self > 0.0`: false of "not a number".
    pub open spec fn above_zero(self) -> bool {
        ||| self.is_infinite() && !self.sign_set()
        ||| self.is_finite() && self.steps() > 0
    }

    /// The comparison `draw / 2^53 < self`: false of "not a number". A draw below
    /// `2^53` over `2^53` is a binary64 value with nothing rounded.
    pub open spec fn exceeds_draw(self, draw: u64) -> bool {
        ||| self.is_infinite() && !self.sign_set()
        ||| self.is_finite() && draw * pow2(1021) < self.steps()
    }

    /// The value is a finite number of absolute value at most `bound`.
    pub open spec fn within(self, bound: nat) -> bool {
        self.is_finite() && -(bound * pow2(1074)) <= self.steps() <= bound * pow2(1074)
    }

    /// The value with its sign bit flipped.
    pub open spec fn negated(self) -> Binary64 {
        Binary64 {
            bits: if self.sign_set() {
                (self.bits - SIGN_WEIGHT) as u64
            } else {
                (self.bits + SIGN_WEIGHT) as u64
            },
        }
    }

    /// Whether the value is a number that compares `<= 0.0`.
    pub fn is_at_most_zero(self) -> (r: bool)
        ensures
            r == self.at_most_zero(),
    {
        proof {
            lemma_sign_of_steps(self);
        }
        self.bits == 0 || (SIGN_WEIGHT <= self.bits && self.bits <= SIGN_WEIGHT + INFINITY_BITS)
    }

    /// Whether the value is a number that compares `> 0.0`.
    pub fn is_above_zero(self) -> (r: bool)
        ensures
            r == self.above_zero(),
    {
        proof {
            lemma_sign_of_steps(self);
        }
        0 < self.bits && self.bits <= INFINITY_BITS
    }

    /// Whether the value is "not a number".
    pub fn is_not_a_number(self) -> (r: bool)
        ensures
            r == (self@ is NotANumber),
    {
        let magnitude: u64 = if self.bits >= SIGN_WEIGHT {
            self.bits - SIGN_WEIGHT
        } else {
            self.bits
        };
        magnitude > INFINITY_BITS
    }

    /// Whether the value is a finite number.
    pub fn is_finite_number(self) -> (r: bool)
        ensures
            r == self@.finite(),
    {
        let magnitude: u64 = if self.bits >= SIGN_WEIGHT {
            self.bits - SIGN_WEIGHT
        } else {
            self.bits
        };
        magnitude < INFINITY_BITS
    }

    /// Whether the value is a finite number of absolute value at most 5.
    pub fn is_within_five(self) -> (r: bool)
        ensures
            r == self@.within(5),
    {
        proof {
            lemma_within_five(self);
        }
        let magnitude: u64 = if self.bits >= SIGN_WEIGHT {
            self.bits - SIGN_WEIGHT
        } else {
            self.bits
        };
        magnitude <= FIVE_BITS
    }

    /// The value with the opposite sign.
    pub fn negate(self) -> (r: Binary64)
        ensures
            r == self.negated(),
    {
        if self.bits >= SIGN_WEIGHT {
            Binary64 { bits: self.bits - SIGN_WEIGHT }
        } else {
            Binary64 { bits: self.bits + SIGN_WEIGHT }
        }
    }

    /// Whether a unit draw, given as its number of `2^-53` steps, lies below the value.
    pub fn is_above_draw(self, draw: u64) -> (r: bool)
        requires
            draw < UNIT_SPAN,
        ensures
            r == self.exceeds_draw(draw),
    {
        proof {
            lemma_sign_of_steps(self);
            vstd::arithmetic::power2::lemma_pow2_pos(1021);
            assert(draw * pow2(1021) >= 0) by (nonlinear_arith)
                requires
                    draw >= 0,
                    pow2(1021) >= 0,
            ;
        }
        if self.bits >= SIGN_WEIGHT {
            return false;
        }
        if self.bits >= INFINITY_BITS {
            return self.bits == INFINITY_BITS;
        }
        let exponent: u64 = self.bits / FRACTION_SPAN;
        let fraction: u64 = self.bits % FRACTION_SPAN;
        let significand: u64 = if exponent == 0 { fraction } else { fraction + FRACTION_SPAN };
        let scale: u64 = if exponent == 0 { 0 } else { exponent - 1 };
        assert(significand == self.significand() && scale == self.scale());
        if significand == 0 {
            return false;
        }
        if scale > 1021 {
            proof {
                lemma_draw_below_large(draw as nat, significand as nat, scale as nat);
            }
            return true;
        }
        let shift: u64 = 1021 - scale;
        proof {
            lemma_draw_below_small(draw as nat, significand as nat, scale as nat);
        }
        if shift >= 53 {
            proof {
                lemma_draw_below_tiny(draw as nat, significand as nat, shift as nat);
            }
            return draw == 0;
        }
        proof {
            vstd::bits::lemma_u64_mul_pow2_le_max_iff_max_shr(
                draw,
                shift,
                (significand - 1) as u64,
            );
        }
        draw <= (significand - 1) >> shift
    }
}

/// The sign of a finite value's step count is read off its pattern.
pub proof fn lemma_sign_of_steps(x: Binary64)
    ensures
        x.steps() == 0 <==> x.magnitude() == 0,
        !x.sign_set() ==> x.steps() >= 0,
        x.sign_set() ==> x.steps() <= 0,
{
    vstd::arithmetic::power2::lemma_pow2_pos(x.scale());
    let s = x.significand();
    let p = pow2(x.scale());
    assert(s * p >= 0 && (s * p == 0 <==> s == 0)) by (nonlinear_arith)
        requires
            s >= 0,
            p > 0,
    ;
}

/// Absolute values compare with 5 as their patterns do.
#[verifier::spinoff_prover]
proof fn lemma_within_five(x: Binary64)
    ensures
        x@.within(5) <==> x.magnitude() <= FIVE_BITS,
{
    let s = x.significand();
    let e = x.scale();
    let unit = pow2(1024);
    vstd::arithmetic::power2::lemma_pow2_pos(1024);
    vstd::arithmetic::power2::lemma_pow2_pos(e);
    vstd::arithmetic::power2::lemma_pow2_adds(1024, 50);
    vstd::arithmetic::power2::lemma2_to64();
    vstd::arithmetic::power2::lemma2_to64_rest();
    let p = pow2(e);
    let five = 5 * pow2(1074);
    assert(pow2(50) == 0x4_0000_0000_0000);
    assert(five == 0x14_0000_0000_0000 * unit) by (nonlinear_arith)
        requires
            five == 5 * pow2(1074),
            pow2(1074) == unit * pow2(50),
            pow2(50) == 0x4_0000_0000_0000,
    ;
    if x.is_finite() {
        if e < 1024 {
            let rest = (1024 - e) as nat;
            vstd::arithmetic::power2::lemma_pow2_adds(e, rest);
            vstd::arithmetic::power2::lemma_pow2_unfold(rest);
            vstd::arithmetic::power2::lemma_pow2_pos((rest - 1) as nat);
            let q = pow2(rest);
            assert(s * p <= five) by (nonlinear_arith)
                requires
                    unit == p * q,
                    q >= 2,
                    p > 0,
                    0 <= s < 0x20_0000_0000_0000,
                    five == 0x14_0000_0000_0000 * unit,
            ;
        } else if e == 1024 {
            assert(s * p <= five <==> s <= 0x14_0000_0000_0000) by (nonlinear_arith)
                requires
                    p == unit,
                    unit > 0,
                    five == 0x14_0000_0000_0000 * unit,
            ;
        } else {
            let rest = (e - 1024) as nat;
            vstd::arithmetic::power2::lemma_pow2_adds(1024, rest);
            vstd::arithmetic::power2::lemma_pow2_unfold(rest);
            vstd::arithmetic::power2::lemma_pow2_pos((rest - 1) as nat);
            let q = pow2(rest);
            assert(s * p > five) by (nonlinear_arith)
                requires
                    p == unit * q,
                    q >= 2,
                    unit > 0,
                    s >= 0x10_0000_0000_0000,
                    five == 0x14_0000_0000_0000 * unit,
            ;
        }
        assert(s * p >= 0) by (nonlinear_arith)
            requires
                s >= 0,
                p > 0,
        ;
        assert(x.within(5) <==> s * p <= five);
    }
}

proof fn lemma_draw_below_large(draw: nat, significand: nat, scale: nat)
    requires
        draw < UNIT_SPAN,
        significand >= FRACTION_SPAN,
        scale > 1021,
    ensures
        draw * pow2(1021) < significand * pow2(scale),
{
    let extra = (scale - 1021) as nat;
    vstd::arithmetic::power2::lemma_pow2_adds(1021, extra);
    vstd::arithmetic::power2::lemma_pow2_pos(1021);
    vstd::arithmetic::power2::lemma_pow2_pos((extra - 1) as nat);
    vstd::arithmetic::power2::lemma_pow2_unfold(extra);
    let a = pow2(1021);
    let b = pow2(extra);
    assert(b >= 2);
    assert(draw * a < significand * (a * b)) by (nonlinear_arith)
        requires
            draw < 2 * significand,
            a > 0,
            b >= 2,
            significand > 0,
    ;
}

pub(crate) proof fn lemma_draw_below_small(draw: nat, significand: nat, scale: nat)
    requires
        scale <= 1021,
    ensures
        draw * pow2(1021) < significand * pow2(scale) <==> draw * pow2((1021 - scale) as nat)
            < significand,
{
    let rest = (1021 - scale) as nat;
    vstd::arithmetic::power2::lemma_pow2_adds(rest, scale);
    vstd::arithmetic::power2::lemma_pow2_pos(scale);
    let a = pow2(rest);
    let b = pow2(scale);
    assert(draw * (a * b) < significand * b <==> draw * a < significand) by (nonlinear_arith)
        requires
            b > 0,
    ;
}

proof fn lemma_draw_below_tiny(draw: nat, significand: nat, shift: nat)
    requires
        0 < significand < UNIT_SPAN,
        shift >= 53,
    ensures
        draw * pow2(shift) < significand <==> draw == 0,
{
    let rest = (shift - 53) as nat;
    vstd::arithmetic::power2::lemma_pow2_adds(53, rest);
    vstd::arithmetic::power2::lemma_pow2_pos(rest);
    vstd::arithmetic::power2::lemma2_to64_rest();
    let a = pow2(53);
    let b = pow2(rest);
    assert(a == UNIT_SPAN);
    assert(draw * (a * b) < significand <==> draw == 0) by (nonlinear_arith)
        requires
            a >= significand,
            b > 0,
            significand > 0,
    ;
}

/// Negating a finite number negates its value.
pub proof fn lemma_negated_value(x: Binary64)
    requires
        x.is_finite(),
    ensures
        x.negated().is_finite(),
        x.negated().steps() == -x.steps(),
        x.negated().negated() == x,
{
    assert(x.negated().magnitude() == x.magnitude());
}

/// What a pattern stands for, pattern by pattern: the sign bit splits the patterns in two
/// halves, each half counts up through the finite numbers to infinity, and what lies past
/// infinity is "not a number".
#[verifier::spinoff_prover]
pub proof fn law_patterns(x: Binary64)
    ensures
        x@ is NotANumber <==> (0x7ff0_0000_0000_0000 < x.bits < 0x8000_0000_0000_0000
            || 0xfff0_0000_0000_0000 < x.bits),
        x@ matches Binary64View::Number(bits) ==> bits == x.bits,
        x.is_finite() <==> (x.bits < 0x7ff0_0000_0000_0000 || 0x8000_0000_0000_0000 <= x.bits
            < 0xfff0_0000_0000_0000),
        x@.finite() <==> x.is_finite(),
        x.at_most_zero() <==> (x.bits == 0 || 0x8000_0000_0000_0000 <= x.bits
            <= 0xfff0_0000_0000_0000),
        x.above_zero() <==> 0 < x.bits <= 0x7ff0_0000_0000_0000,
        x@.above_zero() <==> x.above_zero(),
        x@.within(5) <==> (x.bits <= 0x4014_0000_0000_0000 || 0x8000_0000_0000_0000 <= x.bits
            <= 0xc014_0000_0000_0000),
        x.negated().bits == (x.bits + 0x8000_0000_0000_0000) % 0x1_0000_0000_0000_0000,
{
    lemma_sign_of_steps(x);
    lemma_within_five(x);
}

/// The value of a pattern, counted up: zero is no step, the pattern after another is one
/// unit in the last place more, and the sign bit turns the value round.
#[verifier::spinoff_prover]
pub proof fn law_values_count_up(x: Binary64, y: Binary64)
    requires
        x.bits < 0x8000_0000_0000_0000,
        y.bits == x.bits + 1,
        y.bits < 0x7ff0_0000_0000_0000,
    ensures
        (Binary64 { bits: 0 }).steps() == 0,
        x.bits < 0x10_0000_0000_0000 ==> y.steps() - x.steps() == 1,
        x.bits >= 0x10_0000_0000_0000 ==> y.steps() - x.steps() == pow2(
            (x.bits / 0x10_0000_0000_0000 - 1) as nat,
        ),
        (Binary64 { bits: (y.bits + 0x8000_0000_0000_0000) as u64 }).steps() == -y.steps(),
{
    lemma_sign_of_steps(Binary64 { bits: 0 });
    assert(pow2(0) == 1) by {
        vstd::arithmetic::power2::lemma2_to64();
    }
    assert(!x.sign_set() && !y.sign_set());
    let s = x.significand();
    let e = x.scale();
    let p = pow2(e);
    assert(x.steps() == s * p);
    if x.fraction() + 1 < 0x10_0000_0000_0000 {
        assert(y.exponent() == x.exponent() && y.fraction() == x.fraction() + 1);
        assert(y.steps() == (s + 1) * p);
        assert((s + 1) * p - s * p == p) by (nonlinear_arith);
    } else if x.exponent() == 0 {
        assert(y.exponent() == 1 && y.fraction() == 0);
        assert(y.scale() == 0 && y.significand() == s + 1);
        assert(y.steps() == (s + 1) * p);
        assert((s + 1) * p - s * p == p) by (nonlinear_arith);
    } else {
        assert(y.exponent() == x.exponent() + 1 && y.fraction() == 0);
        let q = pow2(e + 1);
        assert(q == 2 * p) by {
            vstd::arithmetic::power2::lemma_pow2_unfold(e + 1);
        }
        assert(y.steps() == 0x10_0000_0000_0000 * q);
        assert(0x10_0000_0000_0000 * q - s * p == p) by (nonlinear_arith)
            requires
                q == 2 * p,
                s == 0x1f_ffff_ffff_ffff,
        ;
    }
    let z = Binary64 { bits: (y.bits + 0x8000_0000_0000_0000) as u64 };
    assert(z.magnitude() == y.magnitude());
}

/// A draw lies below a finite value exactly where it does as a fraction: `draw / 2^53`
/// against `steps / 2^1074`, both sides multiplied out.
pub proof fn law_draws_compare_as_fractions(x: Binary64, draw: u64)
    requires
        x.bits < 0x7ff0_0000_0000_0000 || 0x8000_0000_0000_0000 <= x.bits
            < 0xfff0_0000_0000_0000,
    ensures
        x.exceeds_draw(draw) <==> draw * pow2(1074) < x.steps() * pow2(53),
{
    law_patterns(x);
    vstd::arithmetic::power2::lemma_pow2_adds(1021, 53);
    vstd::arithmetic::power2::lemma_pow2_pos(53);
    let a = pow2(1021);
    let b = pow2(53);
    let s = x.steps();
    assert(draw * (a * b) < s * b <==> draw * a < s) by (nonlinear_arith)
        requires
            b > 0,
    ;
}

/// What calls that compare or turn a value give, by its pattern.
pub proof fn law_calls_on_patterns(
    x: Binary64,
    at_most_zero: bool,
    above_zero: bool,
    not_a_number: bool,
    finite: bool,
    within_five: bool,
    negated: Binary64,
)
    requires
        call_ensures(Binary64::is_at_most_zero, (x,), at_most_zero),
        call_ensures(Binary64::is_above_zero, (x,), above_zero),
        call_ensures(Binary64::is_not_a_number, (x,), not_a_number),
        call_ensures(Binary64::is_finite_number, (x,), finite),
        call_ensures(Binary64::is_within_five, (x,), within_five),
        call_ensures(Binary64::negate, (x,), negated),
    ensures
        at_most_zero <==> (x.bits == 0 || 0x8000_0000_0000_0000 <= x.bits
            <= 0xfff0_0000_0000_0000),
        above_zero <==> 0 < x.bits <= 0x7ff0_0000_0000_0000,
        not_a_number <==> (0x7ff0_0000_0000_0000 < x.bits < 0x8000_0000_0000_0000
            || 0xfff0_0000_0000_0000 < x.bits),
        finite <==> (x.bits < 0x7ff0_0000_0000_0000 || 0x8000_0000_0000_0000 <= x.bits
            < 0xfff0_0000_0000_0000),
        within_five <==> (x.bits <= 0x4014_0000_0000_0000 || 0x8000_0000_0000_0000 <= x.bits
            <= 0xc014_0000_0000_0000),
        negated.bits == (x.bits + 0x8000_0000_0000_0000) % 0x1_0000_0000_0000_0000,
{
    law_patterns(x);
}

/// What a call of [`Binary64::is_above_draw`] gives: `draw / 2^53` against the value, as
/// fractions, every draw below plus infinity, and none below a negative number or "not a
/// number".
pub proof fn law_calls_of_is_above_draw(x: Binary64, draw: u64, r: bool)
    requires
        call_ensures(Binary64::is_above_draw, (x, draw), r),
    ensures
        x.bits < 0x7ff0_0000_0000_0000 ==> (r <==> draw * pow2(1074) < x.steps() * pow2(53)),
        x.bits == 0x7ff0_0000_0000_0000 ==> r,
        x.bits > 0x7ff0_0000_0000_0000 ==> !r,
{
    law_patterns(x);
    lemma_sign_of_steps(x);
    if x.bits < 0x7ff0_0000_0000_0000 {
        law_draws_compare_as_fractions(x, draw);
    }
    vstd::arithmetic::power2::lemma_pow2_pos(1021);
    assert(draw * pow2(1021) >= 0) by (nonlinear_arith)
        requires
            draw >= 0,
            pow2(1021) >= 0,
    ;
}

} // verus!
