//! Fixed-point decimal amounts backed by `rust_decimal`.
//!
//! An [`Amount`] holds the plain parts of a decimal number: a signed mantissa of
//! at most 96 bits and a scale (number of fractional digits) of at most 28.
//! Its mathematical value is `mantissa / 10^scale`; specifications compare
//! amounts through [`Amount::units`], the value counted in steps of `10^-28`.
//! Zero is always held with a non-negative sign.

use vstd::prelude::*;

verus! {

/// Largest number of fractional digits an amount can carry.
pub const MAX_SCALE: u32 = 28;

/// Largest magnitude of a mantissa (2^96 - 1).
pub const MAX_MANTISSA: i128 = 79_228_162_514_264_337_593_543_950_335;

/// `10^n`.
pub open spec fn pow10(n: nat) -> int
    decreases n,
{
    if n == 0 {
        1
    } else {
        10 * pow10((n - 1) as nat)
    }
}

/// One whole unit, counted in steps of `10^-28`.
pub open spec fn one_unit() -> int {
    pow10(28)
}

/// One cent, counted in steps of `10^-28`.
pub open spec fn one_cent() -> int {
    pow10(26)
}

/// A decimal number `mantissa / 10^scale`.
#[derive(Clone, Copy, Debug)]
pub struct Amount {
    pub mantissa: i128,
    pub scale: u32,
}

impl Amount {
    /// The parts are within what a decimal can represent.
    pub open spec fn wf(self) -> bool {
        &&& -MAX_MANTISSA <= self.mantissa <= MAX_MANTISSA
        &&& self.scale <= MAX_SCALE
    }

    /// The exact value of the amount in steps of `10^-28`.
    pub open spec fn units(self) -> int {
        self.mantissa * pow10((MAX_SCALE - self.scale) as nat)
    }

    /// The magnitude of the value is at most `bound` whole units.
    pub open spec fn within(self, bound: int) -> bool {
        -bound * one_unit() <= self.units() <= bound * one_unit()
    }

    /// The amount is a valid decimal with at most two fractional digits.
    pub open spec fn is_cents(self) -> bool {
        self.wf() && self.scale <= 2
    }

    /// `Decimal::ZERO`.
    pub fn zero() -> (r: Amount)
        ensures
            r.wf(),
            r.units() == 0,
            r.scale == 0,
            r.mantissa == 0,
    {
        Amount { mantissa: 0, scale: 0 }
    }

    /// `Decimal::from(n)` for a whole number.
    pub fn from_int(n: i64) -> (r: Amount)
        ensures
            r.wf(),
            r.mantissa == n,
            r.scale == 0,
            r.units() == n * one_unit(),
    {
        proof {
            lemma_pow10_values();
        }
        Amount { mantissa: n as i128, scale: 0 }
    }

    /// `Decimal::new(num, scale)`: the value `num / 10^scale`.
    pub fn new(num: i64, scale: u32) -> (r: Amount)
        requires
            scale <= MAX_SCALE,
        ensures
            r.wf(),
            r.mantissa == num,
            r.scale == scale,
    {
        Amount { mantissa: num as i128, scale }
    }
}

/// Facts about the powers of ten that the amount arithmetic uses.
pub proof fn lemma_pow10_values()
    ensures
        pow10(0) == 1,
        pow10(1) == 10,
        pow10(2) == 100,
        pow10(26) == 100_000_000_000_000_000_000_000_000,
        pow10(27) == 1_000_000_000_000_000_000_000_000_000,
        pow10(28) == 10_000_000_000_000_000_000_000_000_000,
        one_unit() == 10_000_000_000_000_000_000_000_000_000,
        one_cent() == 100_000_000_000_000_000_000_000_000,
{
    reveal_with_fuel(pow10, 29);
}

/// `10^n` is positive.
pub proof fn lemma_pow10_pos(n: nat)
    ensures
        pow10(n) >= 1,
    decreases n,
{
    if n > 0 {
        lemma_pow10_pos((n - 1) as nat);
    }
}

/// `10^(a+b) = 10^a * 10^b`.
pub proof fn lemma_pow10_add(a: nat, b: nat)
    ensures
        pow10(a + b) == pow10(a) * pow10(b),
    decreases a,
{
    if a > 0 {
        lemma_pow10_add((a - 1) as nat, b);
        assert(pow10(a + b) == 10 * pow10((a - 1 + b) as nat));
        assert((a - 1 + b) as nat == (a - 1) as nat + b);
        assert(pow10(a) * pow10(b) == 10 * (pow10((a - 1) as nat) * pow10(b))) by (nonlinear_arith)
            requires
                pow10(a) == 10 * pow10((a - 1) as nat),
        ;
    }
}

/// A valid amount is at most `MAX_MANTISSA` whole units in magnitude.
pub proof fn lemma_wf_magnitude(a: Amount)
    requires
        a.wf(),
    ensures
        -MAX_MANTISSA * one_unit() <= a.units() <= MAX_MANTISSA * one_unit(),
{
    lemma_pow10_values();
    let s = a.scale as nat;
    lemma_pow10_add((MAX_SCALE - s) as nat, s);
    assert(((MAX_SCALE - s) as nat + s) as nat == 28);
    lemma_pow10_pos(s);
    lemma_pow10_pos((MAX_SCALE - s) as nat);
    let p = pow10((MAX_SCALE - s) as nat);
    assert(p <= pow10(28)) by (nonlinear_arith)
        requires
            pow10(28) == p * pow10(s),
            pow10(s) >= 1,
            p >= 1,
    ;
    let m = a.mantissa as int;
    assert(-MAX_MANTISSA * pow10(28) <= m * p <= MAX_MANTISSA * pow10(28)) by (nonlinear_arith)
        requires
            -MAX_MANTISSA <= m <= MAX_MANTISSA,
            1 <= p <= pow10(28),
    ;
}

/// An amount with at most two fractional digits is a whole number of cents.
pub proof fn lemma_cents_units(a: Amount)
    requires
        a.is_cents(),
    ensures
        a.units() == cents_of(a) * one_cent(),
        cents_of(a) == a.mantissa * pow10((2 - a.scale) as nat),
{
    lemma_pow10_values();
    lemma_pow10_add((2 - a.scale) as nat, 26);
    assert(((2 - a.scale) as nat + 26) as nat == (MAX_SCALE - a.scale) as nat);
    assert(a.mantissa * (pow10((2 - a.scale) as nat) * pow10(26)) == (a.mantissa * pow10(
        (2 - a.scale) as nat,
    )) * pow10(26)) by (nonlinear_arith);
}

/// The value of an amount counted in cents (exact when it has at most two
/// fractional digits).
pub open spec fn cents_of(a: Amount) -> int {
    a.mantissa * pow10((2 - a.scale) as nat)
}

/// The exact value `u` (in steps of `10^-28`) is representable with the given
/// scale and a 96-bit mantissa, as far as its magnitude goes.
pub open spec fn fits_at(u: int, scale: nat) -> bool {
    -MAX_MANTISSA * pow10((MAX_SCALE - scale) as nat) <= u <= MAX_MANTISSA * pow10(
        (MAX_SCALE - scale) as nat,
    )
}

/// The larger of two scales.
pub open spec fn max_scale(a: Amount, b: Amount) -> nat {
    if a.scale >= b.scale {
        a.scale as nat
    } else {
        b.scale as nat
    }
}

/// `a + b` stays within what a decimal holds at scale 0 (less one unit):
/// `rust_decimal` adds such amounts without overflowing.
pub open spec fn sum_fits(a: Amount, b: Amount) -> bool {
    -(MAX_MANTISSA - 1) * one_unit() <= a.units() + b.units() <= (MAX_MANTISSA - 1) * one_unit()
}

/// `a - b` stays within what a decimal holds at scale 0 (less one unit).
pub open spec fn difference_fits(a: Amount, b: Amount) -> bool {
    -(MAX_MANTISSA - 1) * one_unit() <= a.units() - b.units() <= (MAX_MANTISSA - 1) * one_unit()
}

/// `a * b` stays within what a decimal holds at scale 0 (less one unit).
pub open spec fn product_fits(a: Amount, b: Amount) -> bool {
    -(MAX_MANTISSA - 1) * one_unit() * one_unit() <= a.units() * b.units() <= (MAX_MANTISSA
        - 1) * one_unit() * one_unit()
}

/// What `rust_decimal` computes for `a + b`.
pub uninterp spec fn decimal_sum(a: Amount, b: Amount) -> Amount;

/// What `rust_decimal` computes for `a - b`.
pub uninterp spec fn decimal_difference(a: Amount, b: Amount) -> Amount;

/// What `rust_decimal` computes for `a * b`.
pub uninterp spec fn decimal_product(a: Amount, b: Amount) -> Amount;

/// What `rust_decimal` computes for `a / b`.
pub uninterp spec fn decimal_quotient(a: Amount, b: Amount) -> Amount;

/// Adds two amounts with `rust_decimal`'s `+`.
///
/// Claims: the result is a valid decimal whose scale is at most the larger
/// operand scale; it is exact when the exact sum fits a 96-bit mantissa at
/// that scale, and otherwise within one unit of the exact sum; rounding never
/// changes the sign of a sum of same-signed operands. `+` panics only
/// when the sum overflows 96 bits at scale 0, which the bound in `requires`
/// rules out.
#[verifier::external_body]
pub(crate) fn decimal_add(a: Amount, b: Amount) -> (r: Amount)
    requires
        a.wf(),
        b.wf(),
        sum_fits(a, b),
    ensures
        r == decimal_sum(a, b),
        r.wf(),
        r.scale <= max_scale(a, b),
        -one_unit() <= r.units() - (a.units() + b.units()) <= one_unit(),
        fits_at(a.units() + b.units(), max_scale(a, b)) ==> r.units() == a.units() + b.units(),
        a.units() >= 0 && b.units() >= 0 ==> r.units() >= 0,
        a.units() <= 0 && b.units() <= 0 ==> r.units() <= 0,
{
    let x = rust_decimal::Decimal::from_i128_with_scale(a.mantissa, a.scale);
    let y = rust_decimal::Decimal::from_i128_with_scale(b.mantissa, b.scale);
    let s = x + y;
    Amount { mantissa: s.mantissa(), scale: s.scale() }
}

/// Subtracts two amounts with `rust_decimal`'s `-`.
///
/// Claims the same as [`decimal_add`], for the exact difference `a - b`, and
/// that the result is not negative when `a >= b` and not positive when
/// `a <= b`.
#[verifier::external_body]
pub(crate) fn decimal_sub(a: Amount, b: Amount) -> (r: Amount)
    requires
        a.wf(),
        b.wf(),
        difference_fits(a, b),
    ensures
        r == decimal_difference(a, b),
        r.wf(),
        r.scale <= max_scale(a, b),
        -one_unit() <= r.units() - (a.units() - b.units()) <= one_unit(),
        fits_at(a.units() - b.units(), max_scale(a, b)) ==> r.units() == a.units() - b.units(),
        a.units() >= b.units() ==> r.units() >= 0,
        a.units() <= b.units() ==> r.units() <= 0,
{
    let x = rust_decimal::Decimal::from_i128_with_scale(a.mantissa, a.scale);
    let y = rust_decimal::Decimal::from_i128_with_scale(b.mantissa, b.scale);
    let s = x - y;
    Amount { mantissa: s.mantissa(), scale: s.scale() }
}

/// Multiplies two amounts with `rust_decimal`'s `*`.
///
/// Claims: the result is a valid decimal within one unit of the exact product;
/// when the scales add up to at most 28 and the product of the mantissas fits
/// 96 bits, the result is exact with scale at most the sum of the scales; a
/// zero factor gives zero and non-negative factors a non-negative result. `*`
/// panics only when the product overflows 96 bits at scale 0, which the bound
/// in `requires` rules out.
#[verifier::external_body]
pub(crate) fn decimal_mul(a: Amount, b: Amount) -> (r: Amount)
    requires
        a.wf(),
        b.wf(),
        product_fits(a, b),
    ensures
        r == decimal_product(a, b),
        r.wf(),
        -one_unit() * one_unit() <= r.units() * one_unit() - a.units() * b.units() <= one_unit()
            * one_unit(),
        a.scale + b.scale <= MAX_SCALE && -MAX_MANTISSA <= a.mantissa * b.mantissa <= MAX_MANTISSA
            ==> r.units() * one_unit() == a.units() * b.units() && r.scale <= a.scale + b.scale,
        a.units() == 0 || b.units() == 0 ==> r.units() == 0,
        a.units() >= 0 && b.units() >= 0 ==> r.units() >= 0,
{
    let x = rust_decimal::Decimal::from_i128_with_scale(a.mantissa, a.scale);
    let y = rust_decimal::Decimal::from_i128_with_scale(b.mantissa, b.scale);
    let s = x * y;
    Amount { mantissa: s.mantissa(), scale: s.scale() }
}

/// Divides two amounts with `rust_decimal`'s `/`.
///
/// Claims: the result is a valid decimal within one unit of the exact
/// quotient; a zero dividend gives zero; a non-negative dividend over a
/// positive divisor gives a non-negative result. `/` panics on a zero divisor
/// and when the quotient overflows 96 bits, which `requires` rules out. How
/// the quotient is rounded beyond that is left unsaid.
#[verifier::external_body]
pub(crate) fn decimal_div(a: Amount, b: Amount) -> (r: Amount)
    requires
        a.wf(),
        b.wf(),
        b.units() != 0,
        -(MAX_MANTISSA - 1) * b.units() <= a.units() <= (MAX_MANTISSA - 1) * b.units()
            || (MAX_MANTISSA - 1) * b.units() <= a.units() <= -(MAX_MANTISSA - 1) * b.units(),
    ensures
        r == decimal_quotient(a, b),
        r.wf(),
        b.units() > 0 ==> -one_unit() * b.units() <= r.units() * b.units() - a.units()
            * one_unit() <= one_unit() * b.units(),
        b.units() < 0 ==> one_unit() * b.units() <= r.units() * b.units() - a.units() * one_unit()
            <= -one_unit() * b.units(),
        a.units() == 0 ==> r.units() == 0,
        a.units() >= 0 && b.units() > 0 ==> r.units() >= 0,
{
    let x = rust_decimal::Decimal::from_i128_with_scale(a.mantissa, a.scale);
    let y = rust_decimal::Decimal::from_i128_with_scale(b.mantissa, b.scale);
    let s = x / y;
    Amount { mantissa: s.mantissa(), scale: s.scale() }
}

/// `m` rounded to a multiple of `p`, ties to the even quotient, as a quotient
/// (`m >= 0`, `p > 0`).
pub open spec fn round_half_even(m: int, p: int) -> int {
    let q = m / p;
    let rem = m % p;
    if 2 * rem > p || (2 * rem == p && q % 2 == 1) {
        q + 1
    } else {
        q
    }
}

/// The mantissa of `m / p` rounded half to even, keeping the sign of `m`.
pub open spec fn rounded_mantissa(m: int, p: int) -> int {
    if m < 0 {
        -round_half_even(-m, p)
    } else {
        round_half_even(m, p)
    }
}

/// The result of rounding `a` to `dp` fractional digits, ties to even.
pub open spec fn rounded(a: Amount, dp: u32) -> Amount {
    if a.scale <= dp {
        a
    } else {
        Amount {
            mantissa: rounded_mantissa(a.mantissa as int, pow10((a.scale - dp) as nat)) as i128,
            scale: dp,
        }
    }
}

/// Rounds with `rust_decimal`'s `round_dp`.
///
/// Claims (from its documentation and source): an amount with at most `dp`
/// fractional digits comes back unchanged; otherwise the mantissa is divided by
/// `10^(scale - dp)` and rounded half to even, the sign kept, at scale `dp`.
#[verifier::external_body]
pub(crate) fn decimal_round_dp(a: Amount, dp: u32) -> (r: Amount)
    requires
        a.wf(),
    ensures
        r == rounded(a, dp),
        r.wf(),
{
    let x = rust_decimal::Decimal::from_i128_with_scale(a.mantissa, a.scale);
    let s = x.round_dp(dp);
    Amount { mantissa: s.mantissa(), scale: s.scale() }
}

/// Compares two amounts with `rust_decimal`'s `<`, which orders by value.
#[verifier::external_body]
pub(crate) fn decimal_lt(a: Amount, b: Amount) -> (r: bool)
    requires
        a.wf(),
        b.wf(),
    ensures
        r == (a.units() < b.units()),
{
    let x = rust_decimal::Decimal::from_i128_with_scale(a.mantissa, a.scale);
    let y = rust_decimal::Decimal::from_i128_with_scale(b.mantissa, b.scale);
    x < y
}

/// The character of a decimal digit `0..=9`.
pub open spec fn digit_char(d: int) -> char {
    (('0' as int) + d) as char
}

/// The decimal digits of `n`, most significant first; empty for zero.
pub open spec fn digits_of(n: nat) -> Seq<char>
    decreases n,
{
    if n == 0 {
        Seq::empty()
    } else {
        digits_of(n / 10).push(digit_char((n % 10) as int))
    }
}

/// `n` zero characters.
pub open spec fn zeros(n: nat) -> Seq<char> {
    Seq::new(n, |i: int| '0')
}

/// The text that `rust_decimal` prints for `mantissa / 10^scale`: a minus sign
/// for a negative value, the whole part (`0` when empty), and when the scale is
/// positive a point followed by exactly `scale` fractional digits.
pub open spec fn decimal_text(mantissa: int, scale: nat) -> Seq<char> {
    let digits = digits_of(if mantissa < 0 { (-mantissa) as nat } else { mantissa as nat });
    let padded = if digits.len() < scale {
        zeros((scale - digits.len()) as nat) + digits
    } else {
        digits
    };
    let whole = padded.subrange(0, padded.len() - scale);
    let frac = padded.subrange(padded.len() - scale, padded.len() as int);
    let sign = if mantissa < 0 {
        seq!['-']
    } else {
        Seq::empty()
    };
    let whole_text = if whole.len() == 0 {
        seq!['0']
    } else {
        whole
    };
    let frac_text = if scale > 0 {
        seq!['.'] + frac
    } else {
        Seq::empty()
    };
    sign + whole_text + frac_text
}

/// Prints an amount with `rust_decimal`'s `Display` (`to_string`).
#[verifier::external_body]
pub(crate) fn decimal_to_string(a: Amount) -> (r: String)
    requires
        a.wf(),
    ensures
        r@ == decimal_text(a.mantissa as int, a.scale as nat),
{
    rust_decimal::Decimal::from_i128_with_scale(a.mantissa, a.scale).to_string()
}

/// `value.round_dp(2)`: the amount rounded to cents, ties to even.
pub fn money(value: Amount) -> (r: Amount)
    requires
        value.wf(),
    ensures
        r == rounded(value, 2),
        r.is_cents(),
        value.scale <= 2 ==> r == value,
        -one_cent() <= 2 * (r.units() - value.units()) <= one_cent(),
        value.units() >= 0 ==> r.units() >= 0,
        value.units() <= 0 ==> r.units() <= 0,
{
    let r = decimal_round_dp(value, 2);
    proof {
        lemma_rounded_close(value, 2);
    }
    r
}

/// Rounding to `dp` digits moves the value by at most half a step of
/// `10^-dp`, keeps it within the scale `dp`, and keeps its sign.
pub proof fn lemma_rounded_close(a: Amount, dp: u32)
    requires
        a.wf(),
        dp <= MAX_SCALE,
    ensures
        rounded(a, dp).scale <= dp,
        -pow10((MAX_SCALE - dp) as nat) <= 2 * (rounded(a, dp).units() - a.units()) <= pow10(
            (MAX_SCALE - dp) as nat,
        ),
        a.units() >= 0 ==> rounded(a, dp).units() >= 0,
        a.units() <= 0 ==> rounded(a, dp).units() <= 0,
{
    let r = rounded(a, dp);
    lemma_pow10_pos((MAX_SCALE - dp) as nat);
    lemma_pow10_pos((MAX_SCALE - a.scale) as nat);
    if a.scale <= dp {
        lemma_pow10_pos((MAX_SCALE - a.scale) as nat);
        if a.mantissa >= 0 {
            assert(a.units() >= 0) by (nonlinear_arith)
                requires
                    a.mantissa >= 0,
                    pow10((MAX_SCALE - a.scale) as nat) >= 1,
                    a.units() == a.mantissa * pow10((MAX_SCALE - a.scale) as nat),
            ;
        } else {
            assert(a.units() < 0) by (nonlinear_arith)
                requires
                    a.mantissa < 0,
                    pow10((MAX_SCALE - a.scale) as nat) >= 1,
                    a.units() == a.mantissa * pow10((MAX_SCALE - a.scale) as nat),
            ;
        }
    } else {
        let p = pow10((a.scale - dp) as nat);
        let low = pow10((MAX_SCALE - a.scale) as nat);
        lemma_pow10_pos((a.scale - dp) as nat);
        lemma_pow10_add((a.scale - dp) as nat, (MAX_SCALE - a.scale) as nat);
        assert(((a.scale - dp) as nat + (MAX_SCALE - a.scale) as nat) as nat == (MAX_SCALE
            - dp) as nat);
        let big = pow10((MAX_SCALE - dp) as nat);
        assert(big == p * low);
        let m = a.mantissa as int;
        let mag = if m < 0 {
            -m
        } else {
            m
        };
        let q = round_half_even(mag, p);
        lemma_round_half_even_close(mag, p);
        // |q * p - mag| <= p / 2, so 2 * |q * p - mag| <= p
        let rm = rounded_mantissa(m, p);
        assert(r.mantissa == rm);
        assert(r.units() == rm * big);
        assert(a.units() == m * low);
        assert(-p <= 2 * (rm * p - m) <= p) by {
            if m < 0 {
                assert(rm == -q);
                assert(rm * p - m == -(q * p - mag)) by (nonlinear_arith)
                    requires
                        rm == -q,
                        m == -mag,
                ;
            } else {
                assert(rm == q);
            }
        }
        assert(r.units() - a.units() == (rm * p - m) * low) by (nonlinear_arith)
            requires
                r.units() == rm * big,
                a.units() == m * low,
                big == p * low,
        ;
        assert(-big <= 2 * (r.units() - a.units()) <= big) by (nonlinear_arith)
            requires
                -p <= 2 * (rm * p - m) <= p,
                r.units() - a.units() == (rm * p - m) * low,
                big == p * low,
                low >= 1,
        ;
        if m >= 0 {
            assert(q >= 0);
            assert(rm >= 0);
            assert(r.units() >= 0) by (nonlinear_arith)
                requires
                    rm >= 0,
                    big >= 1,
                    r.units() == rm * big,
            ;
            assert(a.units() >= 0) by (nonlinear_arith)
                requires
                    m >= 0,
                    low >= 1,
                    a.units() == m * low,
            ;
        }
        if m <= 0 {
            assert(q >= 0);
            if m == 0 {
                assert(rm == round_half_even(0, p));
                assert(0int / p == 0 && 0int % p == 0) by (nonlinear_arith)
                    requires
                        p >= 1,
                ;
            }
            assert(rm <= 0);
            assert(r.units() <= 0) by (nonlinear_arith)
                requires
                    rm <= 0,
                    big >= 1,
                    r.units() == rm * big,
            ;
        }
        if m > 0 {
            assert(a.units() > 0) by (nonlinear_arith)
                requires
                    m > 0,
                    low >= 1,
                    a.units() == m * low,
            ;
        }
        if m < 0 {
            assert(a.units() < 0) by (nonlinear_arith)
                requires
                    m < 0,
                    low >= 1,
                    a.units() == m * low,
            ;
        }
    }
}

/// Rounding half to even moves a non-negative number by at most half a step.
pub proof fn lemma_round_half_even_close(m: int, p: int)
    requires
        m >= 0,
        p >= 1,
    ensures
        round_half_even(m, p) >= 0,
        -p <= 2 * (round_half_even(m, p) * p - m) <= p,
{
    let q = m / p;
    let rem = m % p;
    assert(m == q * p + rem && 0 <= rem < p) by (nonlinear_arith)
        requires
            p >= 1,
            q == m / p,
            rem == m % p,
    ;
    assert(q >= 0) by (nonlinear_arith)
        requires
            m >= 0,
            p >= 1,
            q == m / p,
    ;
    if 2 * rem > p || (2 * rem == p && q % 2 == 1) {
        assert((q + 1) * p - m == p - rem) by (nonlinear_arith)
            requires
                m == q * p + rem,
        ;
    } else {
        assert(q * p - m == -rem);
    }
}

/// `Ord::max` on decimals: `b` unless `a` is strictly greater.
pub fn decimal_max(a: Amount, b: Amount) -> (r: Amount)
    requires
        a.wf(),
        b.wf(),
    ensures
        r == (if b.units() < a.units() {
            a
        } else {
            b
        }),
{
    if decimal_lt(b, a) {
        a
    } else {
        b
    }
}

/// `Ord::min` on decimals: `a` unless it is strictly greater than `b`.
pub fn decimal_min(a: Amount, b: Amount) -> (r: Amount)
    requires
        a.wf(),
        b.wf(),
    ensures
        r == (if b.units() < a.units() {
            b
        } else {
            a
        }),
{
    if decimal_lt(b, a) {
        b
    } else {
        a
    }
}

} // verus!
