//! Addition of double-precision numbers, by their bit patterns.
//!
//! Every finite double is a whole multiple of the smallest positive one. The sum of two doubles is
//! the sum of their multiples, rounded to 53 bits.
use vstd::prelude::*;
use vstd::arithmetic::div_mod::*;
use vstd::arithmetic::mul::*;
use vstd::arithmetic::power2::*;
use crate::number::{
    at_most, is_nan, law_rounding_error, law_small_numbers_exact, lemma_spacing_bound, round, rounded,
    spacing, INFINITY_BITS,
};
use crate::value::Double;

verus! {

/// The bit pattern given to a sum that is no number, whatever was added.
pub const NAN_BITS: u64 = 0x7FF8_0000_0000_0000;

/// The bit pattern of negative zero.
pub const NEGATIVE_ZERO_BITS: u64 = 0x8000_0000_0000_0000;

/// Whether a number is infinite.
pub open spec fn is_infinite(number: Double) -> bool {
    number.bits % 0x8000_0000_0000_0000 == INFINITY_BITS
}

/// Whether the sign of a number is negative.
pub open spec fn is_negative(number: Double) -> bool {
    number.bits >= 0x8000_0000_0000_0000
}

/// The significant bits of a finite number, as a whole number.
pub open spec fn significand(number: Double) -> nat {
    let field = number.bits as nat / 0x10_0000_0000_0000 % 2048;
    let fraction = number.bits as nat % 0x10_0000_0000_0000;
    if field == 0 {
        fraction
    } else {
        0x10_0000_0000_0000 + fraction
    }
}

/// The power of two that the significant bits of a finite number are to be multiplied by, to give
/// its multiple of the smallest positive number.
pub open spec fn scale(number: Double) -> nat {
    let field = number.bits as nat / 0x10_0000_0000_0000 % 2048;
    if field == 0 {
        0
    } else {
        (field - 1) as nat
    }
}

/// The multiple of the smallest positive number that a finite number is, without its sign.
pub open spec fn magnitude(number: Double) -> nat {
    significand(number) * pow2(scale(number))
}

/// The multiple of the smallest positive number that a finite number is.
pub open spec fn multiple(number: Double) -> int {
    if is_negative(number) {
        -(magnitude(number) as int)
    } else {
        magnitude(number) as int
    }
}

/// The bit pattern of a multiple of the smallest positive number: the number itself where 53 bits
/// hold it; one more in the place of the exponent for each halving that it takes to get there.
pub open spec fn magnitude_bits(m: nat) -> nat
    decreases m,
{
    if m < 0x20_0000_0000_0000 {
        m
    } else {
        0x10_0000_0000_0000 + magnitude_bits(m / 2)
    }
}

/// The number with a sign and a bit pattern without one, or infinity beyond the finite numbers.
pub open spec fn with_sign(bits: nat, negative: bool) -> Double {
    let bounded = if bits < INFINITY_BITS {
        bits
    } else {
        INFINITY_BITS as nat
    };
    Double {
        bits: (if negative {
            0x8000_0000_0000_0000 + bounded
        } else {
            bounded
        }) as u64,
    }
}

/// The finite number nearest to a multiple of the smallest positive number, or infinity beyond them
/// all.
pub open spec fn nearest(m: int) -> Double {
    let size = if m < 0 {
        (-m) as nat
    } else {
        m as nat
    };
    with_sign(magnitude_bits(rounded(size)), m < 0)
}

/// The sum of two numbers: the number nearest to the exact sum. Infinities of different signs have
/// no sum, and what is no number has none; zeros of different signs, and opposite numbers, sum to
/// zero.
pub open spec fn sum_of(a: Double, b: Double) -> Double {
    if is_nan(a) || is_nan(b) || (is_infinite(a) && is_infinite(b) && a != b) {
        Double { bits: NAN_BITS }
    } else if is_infinite(a) {
        a
    } else if is_infinite(b) {
        b
    } else if a.bits == NEGATIVE_ZERO_BITS && b.bits == NEGATIVE_ZERO_BITS {
        a
    } else {
        nearest(multiple(a) + multiple(b))
    }
}

/// Twice a number is rounded to twice what the number is rounded to.
proof fn lemma_rounded_double(x: nat)
    ensures
        rounded(2 * x) == 2 * rounded(x),
{
    if x < 0x10_0000_0000_0000 {
        law_small_numbers_exact(x);
        law_small_numbers_exact(2 * x);
    } else {
        let step = spacing(x);
        lemma_spacing_bound(x);
        assert((2 * x) / 2 == x);
        assert(spacing(2 * x) == 2 * step);
        let below = x / step;
        let rest = x % step;
        lemma_fundamental_div_mod(x as int, step as int);
        lemma_mod_bound(x as int, step as int);
        assert(2 * x == below * (2 * step) + 2 * rest) by (nonlinear_arith)
            requires
                x == step * below + rest,
        ;
        lemma_fundamental_div_mod_converse(
            2 * x as int,
            2 * step as int,
            below as int,
            2 * rest as int,
        );
        assert(below * (2 * step) == 2 * (below * step)) by (nonlinear_arith);
        assert((below + 1) * (2 * step) == 2 * ((below + 1) * step)) by (nonlinear_arith);
    }
}

/// Rounding commutes with multiplication by a power of two.
proof fn lemma_rounded_scaled(x: nat, k: nat)
    ensures
        rounded(x * pow2(k)) == rounded(x) * pow2(k),
    decreases k,
{
    lemma2_to64();
    if k == 0 {
        assert(x * 1 == x);
        assert(rounded(x) * 1 == rounded(x));
    } else {
        lemma_rounded_scaled(x, (k - 1) as nat);
        lemma_pow2_unfold(k);
        let p = pow2((k - 1) as nat);
        assert(x * (2 * p) == 2 * (x * p)) by (nonlinear_arith);
        assert(rounded(x) * (2 * p) == 2 * (rounded(x) * p)) by (nonlinear_arith);
        lemma_rounded_double(x * p);
    }
}

/// The bit pattern of a number of at least 53 bits that is doubled has one more in the place of the
/// exponent.
proof fn lemma_bits_scaled(x: nat, k: nat)
    requires
        x >= 0x10_0000_0000_0000,
    ensures
        magnitude_bits(x * pow2(k)) == k * 0x10_0000_0000_0000 + magnitude_bits(x),
    decreases k,
{
    lemma2_to64();
    if k == 0 {
        assert(x * 1 == x);
    } else {
        lemma_bits_scaled(x, (k - 1) as nat);
        lemma_pow2_unfold(k);
        let p = pow2((k - 1) as nat);
        lemma_pow2_pos((k - 1) as nat);
        assert(x * (2 * p) == 2 * (x * p)) by (nonlinear_arith);
        assert(x * p >= x) by (nonlinear_arith)
            requires
                p >= 1,
        ;
        assert((2 * (x * p)) / 2 == x * p);
    }
}

/// The power of two that leaves 53 bits of a number is its spacing.
proof fn lemma_spacing_is(x: nat, j: nat)
    requires
        0x10_0000_0000_0000 <= x / pow2(j) < 0x20_0000_0000_0000,
    ensures
        spacing(x) == pow2(j),
    decreases j,
{
    lemma2_to64();
    lemma_pow2_pos(j);
    if j == 0 {
        assert(x / 1 == x) by (nonlinear_arith);
    } else {
        lemma_pow2_unfold(j);
        let p = pow2((j - 1) as nat);
        lemma_pow2_pos((j - 1) as nat);
        lemma_div_denominator(x as int, 2, p as int);
        assert((x / 2) / p == x / pow2(j));
        lemma_fundamental_div_mod(x as int, pow2(j) as int);
        lemma_mod_bound(x as int, pow2(j) as int);
        assert(x >= 0x20_0000_0000_0000) by (nonlinear_arith)
            requires
                x == pow2(j) * (x / pow2(j)) + x % pow2(j),
                x % pow2(j) >= 0,
                x / pow2(j) >= 0x10_0000_0000_0000,
                pow2(j) >= 2,
        ;
        lemma_spacing_is(x / 2, (j - 1) as nat);
    }
}

/// A number of 53 bits takes no notice of what is far below its last bit.
proof fn lemma_far_below(m: nat, d: nat, small: int)
    requires
        0x10_0000_0000_0000 <= m < 0x20_0000_0000_0000,
        d >= 60,
        -0x20_0000_0000_0000 < small < 0x20_0000_0000_0000,
    ensures
        m * pow2(d) + small > 0,
        rounded((m * pow2(d) + small) as nat) == m * pow2(d),
{
    lemma2_to64_rest();
    let p = pow2(d);
    assert(p >= 0x1000_0000_0000_0000) by {
        if d > 60 {
            lemma_pow2_strictly_increases(60, d);
        }
    }
    assert(m * p >= p) by (nonlinear_arith)
        requires
            m >= 1,
    ;
    let x = (m * p + small) as nat;
    if small >= 0 {
        assert(x == small + m * p);
        lemma_fundamental_div_mod_converse(x as int, p as int, m as int, small);
        lemma_spacing_is(x, d);
    } else if m > 0x10_0000_0000_0000 {
        let rest = p + small;
        assert(x == rest + (m - 1) * p) by (nonlinear_arith)
            requires
                x == m * p + small,
                rest == p + small,
        ;
        assert(x == (m - 1) * p + rest);
        lemma_fundamental_div_mod_converse(x as int, p as int, m - 1, rest);
        lemma_spacing_is(x, d);
        assert((m - 1 + 1) * p == m * p);
    } else {
        let j = (d - 1) as nat;
        let half = pow2(j);
        lemma_pow2_unfold(d);
        let rest = half + small;
        assert(x == 0x1F_FFFF_FFFF_FFFF * half + rest) by (nonlinear_arith)
            requires
                x == m * p + small,
                m == 0x10_0000_0000_0000,
                p == 2 * half,
                rest == half + small,
        ;
        lemma_fundamental_div_mod_converse(x as int, half as int, 0x1F_FFFF_FFFF_FFFF, rest);
        lemma_spacing_is(x, j);
        assert(0x20_0000_0000_0000 * half == m * p) by (nonlinear_arith)
            requires
                m == 0x10_0000_0000_0000,
                p == 2 * half,
        ;
    }
}

/// Two to the power of `e`.
fn power(e: u64) -> (p: u128)
    requires
        e <= 64,
    ensures
        p == pow2(e as nat),
        p <= 0x1_0000_0000_0000_0000,
{
    let mut p: u128 = 1;
    let mut i: u64 = 0;
    proof {
        lemma2_to64();
    }
    while i < e
        invariant
            i <= e <= 64,
            p == pow2(i as nat),
            pow2(64) == 0x1_0000_0000_0000_0000,
        decreases e - i,
    {
        proof {
            lemma_pow2_unfold((i + 1) as nat);
            if i + 1 < 64 {
                lemma_pow2_strictly_increases((i + 1) as nat, 64);
            }
        }
        p = p * 2;
        i = i + 1;
    }
    proof {
        if e < 64 {
            lemma_pow2_strictly_increases(e as nat, 64);
        }
    }
    p
}

/// Makes the number of a multiple of a power of two of the smallest positive number.
fn encode(m: u128, k: u64, negative: bool) -> (number: Double)
    requires
        m < 0x8000_0000_0000_0000_0000_0000_0000_0000,
        k <= 4096,
    ensures
        number == with_sign(magnitude_bits(m as nat * pow2(k as nat)), negative),
{
    let ghost whole = m as nat * pow2(k as nat);
    let mut m: u128 = m;
    let mut k: u64 = k;
    while m < 0x10_0000_0000_0000 && k > 0
        invariant
            m < 0x8000_0000_0000_0000_0000_0000_0000_0000,
            k <= 4096,
            whole == m as nat * pow2(k as nat),
        decreases k,
    {
        proof {
            lemma_pow2_unfold(k as nat);
            let p = pow2((k - 1) as nat);
            assert(m as nat * (2 * p) == (m * 2) as nat * p) by (nonlinear_arith);
        }
        m = m * 2;
        k = k - 1;
    }
    proof {
        lemma2_to64();
        if k > 0 {
            lemma_bits_scaled(m as nat, k as nat);
        } else {
            assert(m as nat * 1 == m);
        }
    }
    let mut bits: u128 = k as u128 * 0x10_0000_0000_0000;
    let mut halvings: u64 = 0;
    while m >= 0x20_0000_0000_0000
        invariant
            k <= 4096,
            halvings <= 128,
            bits == (k + halvings) * 0x10_0000_0000_0000,
            m < 0x8000_0000_0000_0000_0000_0000_0000_0000,
            halvings > 0 ==> m * pow2(halvings as nat)
                < 0x8000_0000_0000_0000_0000_0000_0000_0000,
            magnitude_bits(whole) == bits + magnitude_bits(m as nat),
        decreases m,
    {
        proof {
            lemma_halvings(m as nat, halvings as nat);
        }
        m = m / 2;
        bits = bits + 0x10_0000_0000_0000;
        halvings = halvings + 1;
    }
    let bits: u128 = bits + m;
    let bounded: u64 = if bits < INFINITY_BITS as u128 {
        bits as u64
    } else {
        INFINITY_BITS
    };
    if negative {
        Double { bits: 0x8000_0000_0000_0000 + bounded }
    } else {
        Double { bits: bounded }
    }
}

/// A number below a power of two can be halved only so often.
proof fn lemma_halvings(m: nat, halvings: nat)
    requires
        m >= 0x20_0000_0000_0000,
        m < 0x8000_0000_0000_0000_0000_0000_0000_0000,
        halvings > 0 ==> m * pow2(halvings) < 0x8000_0000_0000_0000_0000_0000_0000_0000,
    ensures
        halvings < 128,
        (m / 2) * pow2(halvings + 1) < 0x8000_0000_0000_0000_0000_0000_0000_0000,
{
    lemma2_to64();
    lemma_pow2_adds(64, 64);
    if halvings >= 128 {
        if halvings > 128 {
            lemma_pow2_strictly_increases(128, halvings);
        }
        assert(m * pow2(halvings) >= pow2(halvings)) by (nonlinear_arith)
            requires
                m >= 1,
        ;
    }
    lemma_pow2_unfold(halvings + 1);
    let p = pow2(halvings);
    assert((m / 2) * (2 * p) <= m * p) by (nonlinear_arith)
        requires
            m >= 0,
    ;
    if halvings == 0 {
        assert(m * 1 == m);
    }
}

impl Double {
    /// Whether this number is infinite.
    pub fn is_infinite(self) -> (infinite: bool)
        ensures
            infinite == is_infinite(self),
    {
        self.bits % 0x8000_0000_0000_0000 == INFINITY_BITS
    }

    fn significand(self) -> (m: u128)
        ensures
            m == significand(self),
            m < 0x20_0000_0000_0000,
            scale(self) > 0 ==> m >= 0x10_0000_0000_0000,
    {
        let field: u64 = self.bits / 0x10_0000_0000_0000 % 2048;
        let fraction: u64 = self.bits % 0x10_0000_0000_0000;
        if field == 0 {
            fraction as u128
        } else {
            0x10_0000_0000_0000 + fraction as u128
        }
    }

    fn scale(self) -> (k: u64)
        ensures
            k == scale(self),
            k <= 2046,
    {
        let field: u64 = self.bits / 0x10_0000_0000_0000 % 2048;
        if field == 0 {
            0
        } else {
            field - 1
        }
    }

    /// The sum of two finite numbers, the first of which has the larger scale.
    fn plus_smaller(self, other: Double) -> (result: Double)
        requires
            scale(self) >= scale(other),
        ensures
            result == nearest(multiple(self) + multiple(other)),
    {
        let m = self.significand();
        let n = other.significand();
        let k: u64 = other.scale();
        let distance: u64 = self.scale() - k;
        let negative: bool = self.bits >= 0x8000_0000_0000_0000;
        let other_negative: bool = other.bits >= 0x8000_0000_0000_0000;
        let ghost p = pow2(k as nat);
        let ghost q = pow2(distance as nat);
        proof {
            lemma_pow2_adds(distance as nat, k as nat);
            lemma_pow2_pos(k as nat);
            assert(m as nat * (q * p) == (m as nat * q) * p) by (nonlinear_arith);
            assert(magnitude(self) == (m as nat * q) * p);
            assert(magnitude(other) == n as nat * p);
        }
        if distance >= 60 {
            proof {
                let small = if negative == other_negative {
                    n as int
                } else {
                    -(n as int)
                };
                lemma_far_below(m as nat, distance as nat, small);
                let a = m as nat * q;
                let x = (a + small) as nat;
                lemma_rounded_scaled(x, k as nat);
                assert(x * p == a * p + small * p) by (nonlinear_arith)
                    requires
                        x == a + small,
                ;
                assert((-(n as int)) * p == -(n * p)) by (nonlinear_arith);
                assert(x * p > 0) by (nonlinear_arith)
                    requires
                        x > 0,
                        p > 0,
                ;
                let total = multiple(self) + multiple(other);
                assert(negative ==> total == -(x * p));
                assert(!negative ==> total == x * p);
                assert(rounded((x * p) as nat) == magnitude(self));
            }
            return encode(m, distance + k, negative);
        }
        let step: u128 = power(distance);
        assert(m * step <= 0x20_0000_0000_0000 * 0x1_0000_0000_0000_0000) by (nonlinear_arith)
            requires
                m < 0x20_0000_0000_0000,
                step <= 0x1_0000_0000_0000_0000,
        ;
        let a: u128 = m * step;
        let (t, sign): (u128, bool) = if negative == other_negative {
            (a + n, negative)
        } else if a >= n {
            (a - n, negative && a > n)
        } else {
            (n - a, other_negative)
        };
        proof {
            let total = multiple(self) + multiple(other);
            assert(a * p + n * p == (a + n) * p) by (nonlinear_arith);
            assert(a * p - n * p == (a - n) * p) by (nonlinear_arith);
            assert(n * p - a * p == (n - a) * p) by (nonlinear_arith);
            assert(t * p >= 0) by (nonlinear_arith)
                requires
                    t >= 0,
                    p >= 0,
            ;
            assert(t > 0 ==> t * p > 0) by (nonlinear_arith)
                requires
                    p > 0,
            ;
            if t == 0 {
                assert(t * p == 0) by (nonlinear_arith)
                    requires
                        t == 0,
                ;
            }
            assert(sign && t > 0 ==> total == -(t * p));
            assert(!sign || t == 0 ==> total == t * p || total == 0);
            lemma_rounded_scaled(t as nat, k as nat);
        }
        encode(round(t), k, sign && t > 0)
    }

    /// The sum of this number and another.
    pub fn plus(self, other: Double) -> (sum: Double)
        ensures
            sum == sum_of(self, other),
    {
        if self.is_nan() || other.is_nan() {
            Double { bits: NAN_BITS }
        } else if self.is_infinite() {
            if other.is_infinite() && self.bits != other.bits {
                Double { bits: NAN_BITS }
            } else {
                self
            }
        } else if other.is_infinite() {
            other
        } else if self.bits == NEGATIVE_ZERO_BITS && other.bits == NEGATIVE_ZERO_BITS {
            self
        } else if self.scale() >= other.scale() {
            self.plus_smaller(other)
        } else {
            other.plus_smaller(self)
        }
    }
}

/// Whether 53 bits hold a number, but for zeros at its end.
spec fn fits(x: nat) -> bool
    decreases x,
{
    x < 0x20_0000_0000_0000 || (x % 2 == 0 && fits(x / 2))
}

proof fn lemma_multiple_fits(x: nat, k: nat)
    requires
        k <= 0x20_0000_0000_0000,
    ensures
        fits(k * spacing(x)),
    decreases x,
{
    if x < 0x20_0000_0000_0000 {
        assert(k * 1 == k);
        assert(fits(0x10_0000_0000_0000));
        assert(fits(k));
    } else {
        lemma_multiple_fits(x / 2, k);
        let y = k * spacing(x / 2);
        assert(k * (2 * spacing(x / 2)) == 2 * (k * spacing(x / 2))) by (nonlinear_arith);
        assert((2 * y) / 2 == y);
        assert(fits(2 * y));
    }
}

proof fn lemma_steps_below(x: nat)
    ensures
        x / spacing(x) < 0x20_0000_0000_0000,
    decreases x,
{
    if x < 0x20_0000_0000_0000 {
        assert(x / 1 == x) by (nonlinear_arith);
    } else {
        lemma_spacing_bound(x / 2);
        lemma_steps_below(x / 2);
        lemma_div_denominator(x as int, 2, spacing(x / 2) as int);
    }
}

proof fn lemma_rounded_fits(x: nat)
    ensures
        fits(rounded(x)),
{
    lemma_steps_below(x);
    lemma_spacing_bound(x);
    lemma_div_pos_is_pos(x as int, spacing(x) as int);
    let below: nat = x / spacing(x);
    lemma_multiple_fits(x, below);
    lemma_multiple_fits(x, (below + 1) as nat);
}

/// What the bit pattern of a number is made of.
proof fn lemma_bits_are(x: nat)
    requires
        fits(x),
    ensures
        x < 0x10_0000_0000_0000 ==> magnitude_bits(x) == x,
        x >= 0x10_0000_0000_0000 ==> magnitude_bits(x) / 0x10_0000_0000_0000 >= 1 && x == (
        0x10_0000_0000_0000 + magnitude_bits(x) % 0x10_0000_0000_0000) * pow2(
            (magnitude_bits(x) / 0x10_0000_0000_0000 - 1) as nat,
        ),
    decreases x,
{
    lemma2_to64();
    if x >= 0x20_0000_0000_0000 {
        lemma_bits_are(x / 2);
        let before = magnitude_bits(x / 2);
        let field = before / 0x10_0000_0000_0000;
        let significant = 0x10_0000_0000_0000 + before % 0x10_0000_0000_0000;
        lemma_pow2_unfold(field);
        let p = pow2((field - 1) as nat);
        assert(significant * (2 * p) == 2 * (significant * p)) by (nonlinear_arith);
    } else if x >= 0x10_0000_0000_0000 {
        let significant = 0x10_0000_0000_0000 + x % 0x10_0000_0000_0000;
        assert(significant * 1 == x);
    }
}

proof fn lemma_multiple_of_nearest(m: int)
    requires
        !is_infinite(nearest(m)),
    ensures
        multiple(nearest(m)) == (if m < 0 {
            -(rounded((-m) as nat) as int)
        } else {
            rounded(m as nat) as int
        }),
{
    let size = if m < 0 {
        (-m) as nat
    } else {
        m as nat
    };
    let r = rounded(size);
    lemma_rounded_fits(size);
    lemma_bits_are(r);
    lemma2_to64();
    let bits = magnitude_bits(r);
    assert(bits < INFINITY_BITS);
    let number = nearest(m);
    let field = bits / 0x10_0000_0000_0000;
    assert(field < 2047);
    assert(number.bits as nat % 0x10_0000_0000_0000 == bits % 0x10_0000_0000_0000);
    assert(number.bits as nat / 0x10_0000_0000_0000 % 2048 == field);
    if r < 0x10_0000_0000_0000 {
        assert(r * 1 == r);
    }
    if m < 0 {
        assert(number.bits >= 0x8000_0000_0000_0000);
    }
}

/// The sum of two finite numbers is off the exact sum by at most half the distance between the
/// numbers of 53 bits there, as long as it is finite itself; a sum that 53 bits hold is exact.
pub proof fn law_sum_is_near(a: Double, b: Double)
    requires
        !is_nan(a),
        !is_nan(b),
        !is_infinite(a),
        !is_infinite(b),
        !is_infinite(sum_of(a, b)),
    ensures
        ({
            let exact = multiple(a) + multiple(b);
            let size = if exact < 0 {
                -exact
            } else {
                exact
            };
            let difference = multiple(sum_of(a, b)) - exact;
            &&& 2 * difference <= spacing(size as nat)
            &&& -2 * difference <= spacing(size as nat)
            &&& size < 0x20_0000_0000_0000 ==> difference == 0
        }),
{
    let exact = multiple(a) + multiple(b);
    let size = if exact < 0 {
        -exact
    } else {
        exact
    };
    law_rounding_error(size as nat);
    if size < 0x20_0000_0000_0000 {
        law_small_numbers_exact(size as nat);
    }
    lemma_spacing_bound(size as nat);
    if a.bits == NEGATIVE_ZERO_BITS && b.bits == NEGATIVE_ZERO_BITS {
        assert(significand(a) == 0);
        assert(0 * pow2(scale(a)) == 0) by (nonlinear_arith);
        assert(magnitude(a) == 0);
    } else {
        lemma_multiple_of_nearest(exact);
    }
}

/// The order of the numbers makes no difference to their sum, and what is no number, or an infinity,
/// stays in it.
pub proof fn law_sums_are_symmetric(a: Double, b: Double)
    ensures
        sum_of(a, b) == sum_of(b, a),
        is_nan(a) ==> is_nan(sum_of(a, b)),
        is_infinite(a) && !is_nan(b) && !is_infinite(b) ==> sum_of(a, b) == a,
        is_infinite(a) && is_infinite(b) && a != b ==> is_nan(sum_of(a, b)),
{
}

proof fn lemma_magnitude_grows(a: Double, b: Double)
    requires
        a.bits < b.bits < INFINITY_BITS,
    ensures
        magnitude(a) < magnitude(b),
{
    lemma2_to64();
    let f = a.bits as nat / 0x10_0000_0000_0000;
    let g = b.bits as nat / 0x10_0000_0000_0000;
    assert(f <= g < 2047);
    assert(f % 2048 == f && g % 2048 == g);
    let p = pow2(scale(a));
    let q = pow2(scale(b));
    lemma_pow2_pos(scale(a));
    lemma_pow2_pos(scale(b));
    if f == g {
        assert(significand(a) < significand(b));
        assert(significand(a) * p < significand(b) * p) by (nonlinear_arith)
            requires
                significand(a) < significand(b),
                p > 0,
        ;
    } else {
        assert(significand(b) >= 0x10_0000_0000_0000);
        assert(significand(b) * q >= 0x10_0000_0000_0000 * q) by (nonlinear_arith)
            requires
                significand(b) >= 0x10_0000_0000_0000,
                q > 0,
        ;
        if f == 0 {
            assert(significand(a) * 1 == significand(a));
        } else {
            lemma_pow2_unfold(f);
            assert(scale(a) == f - 1);
            if f < scale(b) {
                lemma_pow2_strictly_increases(f, scale(b));
            }
            assert(significand(a) * p < 0x20_0000_0000_0000 * p) by (nonlinear_arith)
                requires
                    significand(a) < 0x20_0000_0000_0000,
                    p > 0,
            ;
        }
    }
}

/// The number with the same size, without a sign.
spec fn unsigned_of(a: Double) -> Double {
    Double { bits: (a.bits % 0x8000_0000_0000_0000) as u64 }
}

proof fn lemma_unsigned(a: Double)
    ensures
        magnitude(unsigned_of(a)) == magnitude(a),
{
}

/// Finite numbers are in the order of the multiples that they are; both infinities lie around them,
/// and what is no number has no place among them.
pub proof fn law_numbers_are_in_order(a: Double, b: Double)
    ensures
        !is_nan(a) && !is_nan(b) && !is_infinite(a) && !is_infinite(b) ==> (at_most(a, b)
            <==> multiple(a) <= multiple(b)),
        !is_nan(a) ==> at_most(a, Double { bits: 0x7FF0_0000_0000_0000 }),
        !is_nan(a) ==> at_most(Double { bits: 0xFFF0_0000_0000_0000 }, a),
        !is_nan(a) && !is_infinite(a) ==> !at_most(Double { bits: 0x7FF0_0000_0000_0000 }, a)
            && !at_most(a, Double { bits: 0xFFF0_0000_0000_0000 }),
        is_nan(a) ==> !at_most(a, b) && !at_most(b, a),
{
    if !is_nan(a) && !is_nan(b) && !is_infinite(a) && !is_infinite(b) {
        let x = unsigned_of(a);
        let y = unsigned_of(b);
        lemma_unsigned(a);
        lemma_unsigned(b);
        if x.bits < y.bits {
            lemma_magnitude_grows(x, y);
        }
        if y.bits < x.bits {
            lemma_magnitude_grows(y, x);
        }
        let zero = Double { bits: 0 };
        assert(significand(zero) == 0);
        assert(0 * pow2(scale(zero)) == 0) by (nonlinear_arith);
        assert(magnitude(zero) == 0);
        if x.bits > 0 {
            lemma_magnitude_grows(zero, x);
        }
        if y.bits > 0 {
            lemma_magnitude_grows(zero, y);
        }
    }
}

}
