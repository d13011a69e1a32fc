//! Double-precision numbers, by their bit patterns.
use vstd::prelude::*;
use vstd::arithmetic::div_mod::*;
use vstd::arithmetic::mul::*;
use vstd::arithmetic::power2::*;
use crate::value::Double;

verus! {

/// The bit pattern of positive infinity.
pub const INFINITY_BITS: u64 = 0x7FF0_0000_0000_0000;

/// The bit pattern of negative infinity.
pub const NEG_INFINITY_BITS: u64 = 0xFFF0_0000_0000_0000;

/// Two to the power of 53: whole numbers up to it are held exactly.
pub const EXACT_LIMIT: u128 = 0x20_0000_0000_0000;

/// Whether a number is no number: all bits of its exponent are set, and some bit of its fraction.
pub open spec fn is_nan(number: Double) -> bool {
    number.bits % 0x8000_0000_0000_0000 > 0x7FF0_0000_0000_0000
}

/// The place of a number in the order of numbers; both zeros have place zero.
pub open spec fn place(number: Double) -> int {
    if number.bits < 0x8000_0000_0000_0000 {
        number.bits as int
    } else {
        0x8000_0000_0000_0000 - number.bits
    }
}

/// Whether `a` is at most `b`; what is no number is at most nothing, and nothing is at most it.
pub open spec fn at_most(a: Double, b: Double) -> bool {
    !is_nan(a) && !is_nan(b) && place(a) <= place(b)
}

impl Double {
    /// Whether this is positive infinity.
    pub fn is_infinity(self) -> (infinite: bool)
        ensures
            infinite == (self.bits == INFINITY_BITS),
    {
        self.bits == INFINITY_BITS
    }

    /// Whether this is no number.
    pub fn is_nan(self) -> (nan: bool)
        ensures
            nan == is_nan(self),
    {
        self.bits % 0x8000_0000_0000_0000 > 0x7FF0_0000_0000_0000
    }

    fn place(self) -> (at: i128)
        ensures
            at == place(self),
    {
        if self.bits < 0x8000_0000_0000_0000 {
            self.bits as i128
        } else {
            0x8000_0000_0000_0000i128 - self.bits as i128
        }
    }

    /// Whether this is at most `other`.
    pub fn at_most(self, other: Double) -> (le: bool)
        ensures
            le == at_most(self, other),
    {
        !self.is_nan() && !other.is_nan() && self.place() <= other.place()
    }

    /// The smaller of two numbers; the other one, where one is no number.
    pub fn smaller(self, other: Double) -> (result: Double)
        ensures
            result == smaller(self, other),
    {
        if self.is_nan() || (!other.is_nan() && other.place() < self.place()) {
            other
        } else {
            self
        }
    }

    /// The larger of two numbers; the other one, where one is no number.
    pub fn larger(self, other: Double) -> (result: Double)
        ensures
            result == larger(self, other),
    {
        if self.is_nan() || (!other.is_nan() && other.place() > self.place()) {
            other
        } else {
            self
        }
    }
}

/// The smaller of two numbers; the other one, where one is no number.
pub open spec fn smaller(a: Double, b: Double) -> Double {
    if is_nan(a) || (!is_nan(b) && place(b) < place(a)) {
        b
    } else {
        a
    }
}

/// The larger of two numbers; the other one, where one is no number.
pub open spec fn larger(a: Double, b: Double) -> Double {
    if is_nan(a) || (!is_nan(b) && place(b) > place(a)) {
        b
    } else {
        a
    }
}

/// The distance between the numbers of 53 bits around `x`: one, or the power of two that leaves 53
/// bits of `x`.
pub open spec fn spacing(x: nat) -> nat
    decreases x,
{
    if x < 0x20_0000_0000_0000 {
        1
    } else {
        2 * spacing(x / 2)
    }
}

/// The number of at most 53 bits that is nearest to `x`; of two that are equally near, the one whose
/// last bit is zero.
pub open spec fn rounded(x: nat) -> nat {
    let step = spacing(x);
    let below = x / step;
    let rest = x % step;
    if 2 * rest < step || (2 * rest == step && below % 2 == 0) {
        below * step
    } else {
        (below + 1) * step
    }
}

/// Rounds to 53 bits.
pub fn round(x: u128) -> (result: u128)
    requires
        x < 0x4000_0000_0000_0000_0000_0000_0000_0000,
    ensures
        result == rounded(x as nat),
        result <= 2 * x,
{
    let mut step: u128 = 1;
    let mut top: u128 = x;
    while top >= EXACT_LIMIT
        invariant
            x < 0x4000_0000_0000_0000_0000_0000_0000_0000,
            step >= 1,
            step * top <= x,
            top == x as nat / step as nat,
            spacing(x as nat) == step * spacing(top as nat),
        decreases top,
    {
        proof {
            assert(spacing(top as nat) == 2 * spacing((top / 2) as nat));
            lemma_div_denominator(x as int, step as int, 2);
            assert(step * top >= 2 * step) by (nonlinear_arith)
                requires
                    top >= 2,
                    step >= 1,
            ;
            assert((step * 2) * (top / 2) <= step * top) by (nonlinear_arith)
                requires
                    step >= 1,
                    top >= 0,
            ;
            assert(step * (2 * spacing((top / 2) as nat)) == (step * 2) * spacing(
                (top / 2) as nat,
            )) by (nonlinear_arith);
        }
        step = step * 2;
        top = top / 2;
    }
    proof {
        assert(spacing(x as nat) == step) by (nonlinear_arith)
            requires
                spacing(x as nat) == step * spacing(top as nat),
                spacing(top as nat) == 1,
        ;
        lemma_fundamental_div_mod(x as int, step as int);
        lemma_mod_bound(x as int, step as int);
        assert(top * step == step * top) by (nonlinear_arith);
        assert((top + 1) * step == top * step + step) by (nonlinear_arith);
    }
    let rest: u128 = x % step;
    let below: u128 = top * step;
    assert(step <= x || step == 1) by {
        if step > 1 {
            lemma_spacing_bound(x as nat);
        }
    }
    if 2 * rest < step || (2 * rest == step && top % 2 == 0) {
        below
    } else {
        below + step
    }
}

/// A number that is not exact has more than 53 bits.
pub proof fn lemma_spacing_bound(x: nat)
    ensures
        spacing(x) == 1 || spacing(x) * 0x10_0000_0000_0000 <= x,
        spacing(x) >= 1,
    decreases x,
{
    if x >= 0x20_0000_0000_0000 {
        lemma_spacing_bound(x / 2);
    }
}

/// The exponent of the largest power of two that is at most `x`.
pub open spec fn exponent(x: nat) -> nat
    decreases x,
{
    if x < 2 {
        0
    } else {
        1 + exponent(x / 2)
    }
}

/// The bit pattern of a whole number that 53 bits can hold: its exponent with a bias of 1023, then
/// the 52 bits that follow its first bit.
pub open spec fn whole_bits(x: nat) -> nat {
    if x == 0 {
        0
    } else {
        (1023 + exponent(x)) * 0x10_0000_0000_0000 + (x - pow2(exponent(x))) as nat
            * 0x10_0000_0000_0000 / pow2(exponent(x))
    }
}

proof fn lemma_exponent(x: nat)
    requires
        x > 0,
    ensures
        pow2(exponent(x)) <= x < 2 * pow2(exponent(x)),
    decreases x,
{
    lemma2_to64();
    if x >= 2 {
        lemma_exponent(x / 2);
        lemma_pow2_unfold(exponent(x));
    }
}

proof fn lemma_exponent_unique(x: nat, e: nat)
    requires
        pow2(e) <= x < 2 * pow2(e),
    ensures
        exponent(x) == e,
{
    lemma_pow2_pos(e);
    lemma_exponent(x);
    let f = exponent(x);
    if e < f {
        lemma_pow2_unfold(e + 1);
        if e + 1 < f {
            lemma_pow2_strictly_increases(e + 1, f);
        }
    }
    if f < e {
        lemma_pow2_unfold(f + 1);
        if f + 1 < e {
            lemma_pow2_strictly_increases(f + 1, e);
        }
    }
}

/// The double that is nearest to a whole number.
pub fn double_from_integer(number: u64) -> (result: Double)
    ensures
        result.bits == whole_bits(rounded(number as nat)),
{
    proof {
        lemma2_to64();
        assert(rounded(0) == 0) by {
            assert(spacing(0) == 1);
        }
    }
    if number == 0 {
        return Double { bits: 0 };
    }
    let near: u128 = round(number as u128);
    proof {
        lemma_rounded_positive(number as nat);
    }
    let mut power: u128 = 1;
    let mut e: u64 = 0;
    while 2 * power <= near
        invariant
            1 <= near <= 0x2_0000_0000_0000_0000,
            power == pow2(e as nat),
            1 <= power <= near,
            e <= 65,
            power >= 0x1_0000_0000 ==> e >= 32,
            pow2(64) == 0x1_0000_0000_0000_0000,
        decreases near - power,
    {
        proof {
            lemma_pow2_unfold((e + 1) as nat);
            if e >= 65 {
                lemma_pow2_unfold(65);
                assert(pow2(65) == 0x2_0000_0000_0000_0000);
            }
            if e == 31 {
                lemma2_to64();
            }
            if e < 31 {
                lemma2_to64();
                lemma_pow2_strictly_increases(e as nat, 31);
            }
        }
        power = power * 2;
        e = e + 1;
    }
    proof {
        lemma_exponent_unique(near as nat, e as nat);
        let x = (near - power) * 0x10_0000_0000_0000;
        assert((x / (power as int)) < 0x10_0000_0000_0000) by (nonlinear_arith)
            requires
                x == (near - power) * 0x10_0000_0000_0000,
                near < 2 * power,
                power >= 1,
                near >= power,
        ;
        assert((x / (power as int)) >= 0) by (nonlinear_arith)
            requires
                x == (near - power) * 0x10_0000_0000_0000,
                power >= 1,
                near >= power,
        ;
    }
    let fraction: u128 = (near - power) * 0x10_0000_0000_0000 / power;
    Double { bits: (1023 + e) * 0x10_0000_0000_0000 + fraction as u64 }
}

proof fn lemma_rounded_positive(x: nat)
    requires
        x > 0,
    ensures
        rounded(x) >= 1,
{
    lemma_spacing_bound(x);
    let step = spacing(x);
    lemma_fundamental_div_mod(x as int, step as int);
    let below = x / step;
    if step == 1 {
        assert(x % 1 == 0);
        assert(below == x) by (nonlinear_arith)
            requires
                below == x / 1,
        ;
        assert(below * step == below) by (nonlinear_arith)
            requires
                step == 1,
        ;
    } else {
        lemma_div_is_ordered(step as int, x as int, step as int);
        lemma_div_by_self(step as int);
        assert(below >= 1);
        assert(below * step >= 1) by (nonlinear_arith)
            requires
                below >= 1,
                step >= 1,
        ;
        assert((below + 1) * step >= 1) by (nonlinear_arith)
            requires
                below >= 1,
                step >= 1,
        ;
    }
}

/// Whole numbers of at most 53 bits are held as they are.
pub proof fn law_small_numbers_exact(x: nat)
    requires
        x < 0x20_0000_0000_0000,
    ensures
        rounded(x) == x,
{
    assert(spacing(x) == 1);
    assert(x / 1 == x && x % 1 == 0) by (nonlinear_arith);
    assert((x / 1) * 1 == x);
}

/// What rounding to 53 bits changes is at most half the distance between the numbers of 53 bits.
pub proof fn law_rounding_error(x: nat)
    ensures
        2 * (rounded(x) - x) <= spacing(x),
        2 * (x - rounded(x)) <= spacing(x),
{
    lemma_spacing_bound(x);
    let step = spacing(x);
    lemma_fundamental_div_mod(x as int, step as int);
    lemma_mod_bound(x as int, step as int);
    let below = x / step;
    assert(step * below == below * step) by (nonlinear_arith);
    assert((below + 1) * step == below * step + step) by (nonlinear_arith);
}

/// The bit pattern of a whole number of at most 53 bits is that of the double that is this number:
/// the power of two below it, with a bias of 1023, and the rest as a part of that power.
pub proof fn law_whole_numbers(x: nat, power: nat)
    requires
        pow2(power) <= x < 2 * pow2(power),
        x < 0x20_0000_0000_0000,
    ensures
        0 <= whole_bits(x) - (1023 + power) * 0x10_0000_0000_0000 < 0x10_0000_0000_0000,
        (whole_bits(x) - (1023 + power) * 0x10_0000_0000_0000) * pow2(power) == (x - pow2(power))
            * 0x10_0000_0000_0000,
        whole_bits(x) <= u64::MAX,
{
    lemma_exponent_unique(x, power);
    lemma_pow2_pos(power);
    lemma2_to64_rest();
    if power > 52 {
        lemma_pow2_strictly_increases(52, power);
        lemma_pow2_unfold(53);
        if power > 53 {
            lemma_pow2_strictly_increases(53, power);
        }
    }
    lemma_pow2_adds(power, (52 - power) as nat);
    lemma_pow2_pos((52 - power) as nat);
    let p = pow2(power);
    let q = pow2((52 - power) as nat);
    let rest = (x - p) as nat;
    assert(p * q == 0x10_0000_0000_0000);
    assert(rest * 0x10_0000_0000_0000 == p * (rest * q)) by (nonlinear_arith)
        requires
            p * q == 0x10_0000_0000_0000,
    ;
    lemma_div_multiples_vanish((rest * q) as int, p as int);
    assert(rest * 0x10_0000_0000_0000 / p == rest * q);
    assert(rest * q < p * q) by (nonlinear_arith)
        requires
            rest < p,
            q > 0,
    ;
    assert((rest * q) * p == rest * 0x10_0000_0000_0000) by (nonlinear_arith)
        requires
            p * q == 0x10_0000_0000_0000,
    ;
}

proof fn lemma_steps(x: nat)
    requires
        x >= 0x20_0000_0000_0000,
    ensures
        0x10_0000_0000_0000 <= x / spacing(x) < 0x20_0000_0000_0000,
        exists|k: nat| spacing(x) == #[trigger] pow2(k),
    decreases x,
{
    lemma2_to64();
    let half = x / 2;
    lemma_spacing_bound(half);
    lemma_div_denominator(x as int, 2, spacing(half) as int);
    if half >= 0x20_0000_0000_0000 {
        lemma_steps(half);
        let k = choose|k: nat| spacing(half) == #[trigger] pow2(k);
        lemma_pow2_unfold(k + 1);
        assert(spacing(x) == pow2(k + 1));
    } else {
        assert(half / 1 == half) by (nonlinear_arith);
        assert(spacing(x) == pow2(1));
    }
}

/// The distance between the numbers of 53 bits is one up to 53 bits, and beyond it the power of two
/// that leaves 53 bits.
pub proof fn law_spacing_leaves_53_bits(x: nat)
    ensures
        x < 0x20_0000_0000_0000 ==> spacing(x) == 1,
        x >= 0x20_0000_0000_0000 ==> 0x10_0000_0000_0000 <= x / spacing(x) < 0x20_0000_0000_0000,
        x >= 0x20_0000_0000_0000 ==> exists|k: nat| spacing(x) == #[trigger] pow2(k),
{
    if x >= 0x20_0000_0000_0000 {
        lemma_steps(x);
    }
}

/// Of two numbers of 53 bits that are equally near, rounding gives the one whose last bit is zero.
pub proof fn law_ties_go_to_even(x: nat)
    requires
        2 * (x % spacing(x)) == spacing(x),
    ensures
        rounded(x) % spacing(x) == 0,
        (rounded(x) / spacing(x)) % 2 == 0,
{
    lemma_spacing_bound(x);
    let step = spacing(x);
    let below = x / step;
    lemma_div_multiples_vanish(below as int, step as int);
    lemma_div_multiples_vanish((below + 1) as int, step as int);
    lemma_mod_multiples_basic(below as int, step as int);
    lemma_mod_multiples_basic((below + 1) as int, step as int);
    assert(step * below == below * step) by (nonlinear_arith);
    assert(step * (below + 1) == (below + 1) * step) by (nonlinear_arith);
}

/// What is no number has all bits of its exponent set and some bit of its fraction.
pub proof fn law_what_is_no_number(number: Double)
    ensures
        is_nan(number) <==> number.bits / 0x10_0000_0000_0000 % 2048 == 2047 && number.bits
            % 0x10_0000_0000_0000 != 0,
{
}

}
