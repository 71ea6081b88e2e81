//! Arbitrary-precision decimals held as plain values.
//!
//! A [`Decimal`] is an unscaled integer, kept as little-endian
//! two's-complement bytes, together with a scale: the number it stands for is
//! `unscaled * 10^(-scale)`. The arithmetic itself is done by the
//! `bigdecimal` crate; this module states what each operation returns.

use bigdecimal::num_bigint::BigInt;
use bigdecimal::BigDecimal;
use vstd::prelude::*;
use vstd::std_specs::cmp::PartialEqSpecImpl;

verus! {

/// Largest magnitude of the scale of a [`Decimal`].
pub const MAX_SCALE: i64 = 1_000_000;

/// Largest number of digit bytes of a decimal that [`Decimal::inverse`]
/// inverts.
pub const MAX_INVERSE_WIDTH: usize = 64;

/// Largest magnitude of the scale of a decimal that [`Decimal::inverse`]
/// inverts.
pub const MAX_INVERSE_SCALE: i64 = 150;

/// `10^n`.
pub open spec fn pow10(n: nat) -> nat
    decreases n,
{
    if n == 0 {
        1
    } else {
        10 * pow10((n - 1) as nat)
    }
}

/// `256^n`.
pub open spec fn pow256(n: nat) -> nat
    decreases n,
{
    if n == 0 {
        1
    } else {
        256 * pow256((n - 1) as nat)
    }
}

/// The natural number whose little-endian base-256 digits are `bytes`.
pub open spec fn unsigned_le(bytes: Seq<u8>) -> nat
    decreases bytes.len(),
{
    if bytes.len() == 0 {
        0
    } else {
        bytes[0] as nat + 256 * unsigned_le(bytes.drop_first())
    }
}

/// The integer whose little-endian two's-complement bytes are `bytes`;
/// the empty sequence stands for zero.
pub open spec fn signed_le(bytes: Seq<u8>) -> int {
    if bytes.len() > 0 && bytes.last() >= 128 {
        unsigned_le(bytes) - pow256(bytes.len())
    } else {
        unsigned_le(bytes) as int
    }
}

/// The mathematical content of a [`Decimal`]: it stands for
/// `unscaled * 10^(-scale)`. Two values with different scales are different
/// values here even where they stand for the same number.
pub struct DecimalValue {
    pub unscaled: int,
    pub scale: int,
}

/// What `bigdecimal` returns for `num / den`, as `(unscaled, scale)`, where
/// `num` is `(num_unscaled, num_scale)` and `den` is `(den_unscaled, den_scale)`.
pub uninterp spec fn quotient_parts(
    num_unscaled: int,
    num_scale: int,
    den_unscaled: int,
    den_scale: int,
) -> (int, int);

/// What is known of the scale of a quotient without working it out. Where
/// `bigdecimal` hands the numerator back (it is zero, or the divisor is one)
/// the scale is the numerator's. Otherwise the crate starts from the
/// difference of the two scales and only adds to it: one for every digit by
/// which it has to shift the numerator to reach the divisor, which is no
/// more often than the divisor has digits, and one for every further digit
/// of the quotient, which is less than a hundred times.
pub open spec fn quotient_scale_bound(
    scale: int,
    num_scale: int,
    den_unscaled: int,
    den_scale: int,
) -> bool {
    ||| scale == num_scale
    ||| (num_scale - den_scale <= scale && forall|digits: nat|
        -pow10(digits) < den_unscaled < #[trigger] pow10(digits) ==> scale <= num_scale - den_scale
            + digits + 100)
}

impl DecimalValue {
    /// The scale lies within the bound that every [`Decimal`] keeps.
    pub open spec fn in_range(self) -> bool {
        -MAX_SCALE <= self.scale <= MAX_SCALE
    }

    /// Zero with scale zero.
    pub open spec fn zero() -> DecimalValue {
        DecimalValue { unscaled: 0, scale: 0 }
    }

    /// The value stands for the number one.
    pub open spec fn is_one(self) -> bool {
        self.scale >= 0 && self.unscaled == pow10(self.scale as nat)
    }

    /// The unscaled integer after rescaling to `scale`, which is at least
    /// the value's own scale.
    pub open spec fn aligned(self, scale: int) -> int {
        self.unscaled * pow10((scale - self.scale) as nat)
    }

    /// The two values stand for the same number, whatever their scales.
    pub open spec fn same_number(self, other: DecimalValue) -> bool {
        let scale = if self.scale >= other.scale {
            self.scale
        } else {
            other.scale
        };
        self.aligned(scale) == other.aligned(scale)
    }

    /// The exact sum, carried at the larger of the two scales.
    pub open spec fn plus(self, other: DecimalValue) -> DecimalValue {
        let scale = if self.scale >= other.scale {
            self.scale
        } else {
            other.scale
        };
        DecimalValue { unscaled: self.aligned(scale) + other.aligned(scale), scale }
    }

    /// The exact product. A factor that stands for one hands the other
    /// factor back unchanged; otherwise the scales add up.
    pub open spec fn times(self, other: DecimalValue) -> DecimalValue {
        if self.is_one() {
            other
        } else if other.is_one() {
            self
        } else {
            DecimalValue {
                unscaled: self.unscaled * other.unscaled,
                scale: self.scale + other.scale,
            }
        }
    }

    /// The quotient as `bigdecimal` computes it (rounded to its working
    /// precision); meaningful for a divisor other than zero.
    pub open spec fn over(self, other: DecimalValue) -> DecimalValue {
        let q = quotient_parts(self.unscaled, self.scale, other.unscaled, other.scale);
        DecimalValue { unscaled: q.0, scale: q.1 }
    }

    /// The product where its scale stays in range.
    pub open spec fn checked_times(self, other: DecimalValue) -> Option<DecimalValue> {
        if self.times(other).in_range() {
            Some(self.times(other))
        } else {
            None
        }
    }

    /// The quotient where the divisor is not zero and the scale of the
    /// result stays in range.
    pub open spec fn checked_over(self, other: DecimalValue) -> Option<DecimalValue> {
        if other.unscaled != 0 && self.over(other).in_range() {
            Some(self.over(other))
        } else {
            None
        }
    }
}

/// The value that the plain parts of a decimal stand for.
pub open spec fn value_of(digits: Seq<u8>, scale: i64) -> DecimalValue {
    DecimalValue { unscaled: signed_le(digits), scale: scale as int }
}

/// An arbitrary-precision decimal number. `==` compares the numbers that
/// two decimals stand for, so `1.0` and `1.00` are equal.
#[derive(Debug, Eq)]
pub struct Decimal {
    digits: Vec<u8>,
    scale: i64,
}

impl View for Decimal {
    type V = DecimalValue;

    closed spec fn view(&self) -> DecimalValue {
        value_of(self.digits@, self.scale)
    }
}

impl PartialEq for Decimal {
    fn eq(&self, other: &Decimal) -> (r: bool) {
        proof {
            use_type_invariant(self);
            use_type_invariant(other);
        }
        eq_parts(&self.digits, self.scale, &other.digits, other.scale)
    }
}

impl PartialEqSpecImpl for Decimal {
    open spec fn obeys_eq_spec() -> bool {
        true
    }

    open spec fn eq_spec(&self, other: &Decimal) -> bool {
        self@.same_number(other@)
    }
}

impl Clone for Decimal {
    fn clone(&self) -> (r: Self)
        ensures
            r@ == self@,
            r.width() == self.width(),
    {
        proof {
            use_type_invariant(self);
        }
        Decimal { digits: self.digits.clone(), scale: self.scale }
    }
}

impl Decimal {
    /// Every decimal keeps its scale in range.
    #[verifier::type_invariant]
    pub open spec fn well_formed(self) -> bool {
        self@.in_range()
    }

    /// The number of bytes that hold the digits.
    pub closed spec fn width(&self) -> nat {
        self.digits@.len()
    }

    /// Whether [`Decimal::inverse`] inverts the decimal: it is zero, or it
    /// has at most [`MAX_INVERSE_WIDTH`] digit bytes and a scale of at most
    /// [`MAX_INVERSE_SCALE`] either way.
    pub open spec fn invertible(&self) -> bool {
        self@.unscaled == 0 || (self.width() <= MAX_INVERSE_WIDTH && -MAX_INVERSE_SCALE
            <= self@.scale <= MAX_INVERSE_SCALE)
    }

    /// Builds a decimal from the two's-complement little-endian bytes of its
    /// unscaled integer and its scale; `None` where the scale is out of range.
    pub fn new(digits: Vec<u8>, scale: i64) -> (r: Option<Decimal>)
        ensures
            r is Some <==> -MAX_SCALE <= scale <= MAX_SCALE,
            r is Some ==> r->0@ == value_of(digits@, scale) && r->0.width() == digits@.len(),
    {
        if -MAX_SCALE <= scale && scale <= MAX_SCALE {
            Some(Decimal { digits, scale })
        } else {
            None
        }
    }

    /// Zero with scale zero.
    pub fn zero() -> (r: Decimal)
        ensures
            r@ == DecimalValue::zero(),
    {
        Decimal { digits: Vec::new(), scale: 0 }
    }

    /// The two's-complement little-endian bytes of the unscaled integer.
    pub fn digits(&self) -> (r: &Vec<u8>)
        ensures
            signed_le(r@) == self@.unscaled,
            r@.len() == self.width(),
    {
        &self.digits
    }

    /// The scale: the number of decimal places where it is positive.
    pub fn scale(&self) -> (r: i64)
        ensures
            r == self@.scale,
            -MAX_SCALE <= r <= MAX_SCALE,
    {
        proof {
            use_type_invariant(self);
        }
        self.scale
    }

    /// The exact sum of two decimals.
    pub fn add(&self, other: &Decimal) -> (r: Decimal)
        ensures
            r@ == self@.plus(other@),
    {
        proof {
            use_type_invariant(self);
            use_type_invariant(other);
        }
        let (digits, scale) = add_parts(&self.digits, self.scale, &other.digits, other.scale);
        Decimal { digits, scale }
    }

    /// The exact product of two decimals; `None` where its scale would leave
    /// the range.
    pub fn checked_mul(&self, other: &Decimal) -> (r: Option<Decimal>)
        ensures
            r is Some <==> self@.checked_times(other@) is Some,
            r is Some ==> r->0@ == self@.times(other@),
    {
        proof {
            use_type_invariant(self);
            use_type_invariant(other);
        }
        let (digits, scale) = mul_parts(&self.digits, self.scale, &other.digits, other.scale);
        Decimal::new(digits, scale)
    }

    /// The quotient of two decimals, rounded as `bigdecimal` rounds it;
    /// `None` where the divisor is zero or the scale of the quotient would
    /// leave the range.
    pub fn checked_div(&self, other: &Decimal) -> (r: Option<Decimal>)
        ensures
            r is Some <==> self@.checked_over(other@) is Some,
            r is Some ==> r->0@ == self@.over(other@),
            other@.unscaled != 0 ==> quotient_scale_bound(
                self@.over(other@).scale,
                self@.scale,
                other@.unscaled,
                other@.scale,
            ),
    {
        proof {
            use_type_invariant(self);
            use_type_invariant(other);
        }
        if other.is_zero() {
            None
        } else {
            let (digits, scale) = div_parts(&self.digits, self.scale, &other.digits, other.scale);
            Decimal::new(digits, scale)
        }
    }

    /// The reciprocal, as `bigdecimal` approximates it. Zero and one are
    /// their own reciprocals here. `None` where the decimal is not
    /// [`invertible`](Decimal::invertible), or the scale of the result would
    /// leave the range.
    ///
    /// Beyond zero and one nothing is stated of the reciprocal, because it is
    /// no function of the number alone: `bigdecimal` starts from a guess that
    /// it computes with `f64::exp2`, whose precision `std` leaves open from
    /// platform to platform and from call to call, and refines the guess
    /// until two rounds agree to a hundred digits. The bounds of
    /// `invertible` keep that guess a normal float; outside them the crate
    /// falls back on a guess from which the rounds need not ever agree.
    pub fn inverse(&self) -> (r: Option<Decimal>)
        ensures
            !self.invertible() ==> r is None,
            self.invertible() && (self@.unscaled == 0 || self@.is_one()) ==> r is Some && r->0@
                == self@,
    {
        proof {
            use_type_invariant(self);
        }
        if self.is_zero() || (self.digits.len() <= MAX_INVERSE_WIDTH && -MAX_INVERSE_SCALE
            <= self.scale && self.scale <= MAX_INVERSE_SCALE) {
            let (digits, scale) = inverse_parts(&self.digits, self.scale);
            Decimal::new(digits, scale)
        } else {
            None
        }
    }

    /// Whether the decimal stands for zero.
    pub fn is_zero(&self) -> (r: bool)
        ensures
            r == (self@.unscaled == 0),
    {
        let mut i: usize = 0;
        while i < self.digits.len()
            invariant
                i <= self.digits.len(),
                forall|k: int| 0 <= k < i ==> self.digits@[k] == 0,
            decreases self.digits.len() - i,
        {
            if self.digits[i] != 0 {
                proof {
                    lemma_signed_zero(self.digits@);
                }
                return false;
            }
            i += 1;
        }
        proof {
            lemma_signed_zero(self.digits@);
        }
        true
    }
}

/// `10^(a + b)` is `10^a * 10^b`.
pub proof fn lemma_pow10_adds(a: nat, b: nat)
    ensures
        pow10(a + b) == pow10(a) * pow10(b),
    decreases a,
{
    if a > 0 {
        lemma_pow10_adds((a - 1) as nat, b);
        assert(pow10(a + b) == 10 * pow10((a - 1 + b) as nat));
        assert(10 * (pow10((a - 1) as nat) * pow10(b)) == (10 * pow10((a - 1) as nat)) * pow10(b))
            by (nonlinear_arith);
    } else {
        assert(pow10(a + b) == 1 * pow10(b));
    }
}

/// Rescaling goes step by step: a value aligned to a larger scale is the
/// value aligned to a scale in between, times the power of ten that is left.
pub proof fn lemma_aligned_further(value: DecimalValue, between: int, scale: int)
    requires
        value.scale <= between <= scale,
    ensures
        value.aligned(scale) == value.aligned(between) * pow10((scale - between) as nat),
{
    lemma_pow10_adds((between - value.scale) as nat, (scale - between) as nat);
    let x = value.unscaled;
    let p = pow10((between - value.scale) as nat) as int;
    let q = pow10((scale - between) as nat) as int;
    assert(x * (p * q) == (x * p) * q) by (nonlinear_arith);
}

/// `10^n` is positive.
pub proof fn lemma_pow10_positive(n: nat)
    ensures
        pow10(n) > 0,
    decreases n,
{
    if n > 0 {
        lemma_pow10_positive((n - 1) as nat);
    }
}

/// Two values stand for the same number exactly where they agree at a
/// scale, any scale, that both fit.
pub proof fn lemma_same_number_at(a: DecimalValue, b: DecimalValue, scale: int)
    requires
        a.scale <= scale,
        b.scale <= scale,
    ensures
        a.same_number(b) <==> a.aligned(scale) == b.aligned(scale),
{
    let common = if a.scale >= b.scale {
        a.scale
    } else {
        b.scale
    };
    lemma_aligned_further(a, common, scale);
    lemma_aligned_further(b, common, scale);
    lemma_pow10_positive((scale - common) as nat);
    let x = a.aligned(common);
    let y = b.aligned(common);
    let q = pow10((scale - common) as nat) as int;
    assert(x * q == y * q <==> x == y) by (nonlinear_arith)
        requires
            q > 0,
    ;
}

/// To stand for the same number is an equivalence.
pub proof fn lemma_same_number_is_an_equivalence(a: DecimalValue, b: DecimalValue, c: DecimalValue)
    ensures
        a.same_number(a),
        a.same_number(b) ==> b.same_number(a),
        a.same_number(b) && b.same_number(c) ==> a.same_number(c),
{
    let ab = if a.scale >= b.scale {
        a.scale
    } else {
        b.scale
    };
    let scale = if ab >= c.scale {
        ab
    } else {
        c.scale
    };
    lemma_same_number_at(a, b, scale);
    lemma_same_number_at(b, c, scale);
    lemma_same_number_at(a, c, scale);
}

/// Addition is exact: at any scale that both terms fit, the sum is the sum
/// of the terms.
pub proof fn lemma_plus_is_exact(a: DecimalValue, b: DecimalValue, scale: int)
    requires
        a.scale <= scale,
        b.scale <= scale,
    ensures
        a.plus(b).scale == if a.scale >= b.scale {
            a.scale
        } else {
            b.scale
        },
        a.plus(b).aligned(scale) == a.aligned(scale) + b.aligned(scale),
{
    let sum = a.plus(b);
    lemma_aligned_further(a, sum.scale, scale);
    lemma_aligned_further(b, sum.scale, scale);
    let x = a.aligned(sum.scale);
    let y = b.aligned(sum.scale);
    let q = pow10((scale - sum.scale) as nat) as int;
    assert(sum.aligned(scale) == (x + y) * q);
    assert((x + y) * q == x * q + y * q) by (nonlinear_arith);
}

/// Multiplication is exact: at the sum of two scales that the factors fit,
/// the product is the product of the factors.
pub proof fn lemma_times_is_exact(a: DecimalValue, b: DecimalValue, left: int, right: int)
    requires
        a.scale <= left,
        b.scale <= right,
    ensures
        a.times(b).scale <= left + right,
        a.times(b).aligned(left + right) == a.aligned(left) * b.aligned(right),
{
    let p = pow10((left - a.scale) as nat) as int;
    let q = pow10((right - b.scale) as nat) as int;
    if a.is_one() {
        lemma_pow10_adds(a.scale as nat, (left - a.scale) as nat);
        lemma_pow10_adds(left as nat, (right - b.scale) as nat);
        let one = pow10(left as nat) as int;
        assert(a.aligned(left) == one);
        assert(b.aligned(left + right) == b.unscaled * (one * q));
        assert(b.unscaled * (one * q) == one * (b.unscaled * q)) by (nonlinear_arith);
    } else if b.is_one() {
        lemma_pow10_adds(b.scale as nat, (right - b.scale) as nat);
        lemma_pow10_adds((left - a.scale) as nat, right as nat);
        let one = pow10(right as nat) as int;
        assert(b.aligned(right) == one);
        assert(a.aligned(left + right) == a.unscaled * (p * one));
        assert(a.unscaled * (p * one) == (a.unscaled * p) * one) by (nonlinear_arith);
    } else {
        lemma_pow10_adds((left - a.scale) as nat, (right - b.scale) as nat);
        assert((a.unscaled * b.unscaled) * (p * q) == (a.unscaled * p) * (b.unscaled * q))
            by (nonlinear_arith);
    }
}

/// `256^n` is positive.
proof fn lemma_pow256_positive(n: nat)
    ensures
        pow256(n) > 0,
    decreases n,
{
    if n > 0 {
        lemma_pow256_positive((n - 1) as nat);
    }
}

/// A little-endian number of `n` digits is below `256^n`, reaches
/// `128 * 256^(n-1)` where its last digit does, and is zero exactly where
/// every digit is.
proof fn lemma_unsigned_bounds(bytes: Seq<u8>)
    ensures
        unsigned_le(bytes) < pow256(bytes.len()),
        bytes.len() > 0 && bytes.last() >= 128 ==> 2 * unsigned_le(bytes) >= pow256(bytes.len()),
        unsigned_le(bytes) == 0 <==> forall|k: int| 0 <= k < bytes.len() ==> bytes[k] == 0,
    decreases bytes.len(),
{
    if bytes.len() == 0 {
    } else {
        let rest = bytes.drop_first();
        lemma_unsigned_bounds(rest);
        lemma_pow256_positive(rest.len());
        assert(pow256(bytes.len()) == 256 * pow256(rest.len()));
        if rest.len() > 0 {
            assert(rest.last() == bytes.last());
        } else {
            assert(pow256(0) == 1);
        }
        if unsigned_le(bytes) == 0 {
            assert forall|k: int| 0 <= k < bytes.len() implies bytes[k] == 0 by {
                if k > 0 {
                    assert(rest[k - 1] == bytes[k]);
                }
            }
        }
        if forall|k: int| 0 <= k < bytes.len() ==> bytes[k] == 0 {
            assert forall|k: int| 0 <= k < rest.len() implies rest[k] == 0 by {
                assert(rest[k] == bytes[k + 1]);
            }
        }
    }
}

/// A two's-complement number is zero exactly where every byte is zero.
proof fn lemma_signed_zero(bytes: Seq<u8>)
    ensures
        signed_le(bytes) == 0 <==> forall|k: int| 0 <= k < bytes.len() ==> bytes[k] == 0,
{
    lemma_unsigned_bounds(bytes);
    if bytes.len() > 0 && bytes.last() >= 128 {
        assert(bytes[bytes.len() - 1] != 0);
    }
}

/// Calls `bigdecimal`'s `+` on two decimals given by their parts. The crate
/// rescales the operand with the smaller scale by a power of ten and adds the
/// unscaled integers, so the sum is exact and carries the larger scale.
#[verifier::external_body]
fn add_parts(a: &Vec<u8>, a_scale: i64, b: &Vec<u8>, b_scale: i64) -> (r: (Vec<u8>, i64))
    requires
        -MAX_SCALE <= a_scale <= MAX_SCALE,
        -MAX_SCALE <= b_scale <= MAX_SCALE,
    ensures
        value_of(r.0@, r.1) == value_of(a@, a_scale).plus(value_of(b@, b_scale)),
{
    let x = BigDecimal::new(BigInt::from_signed_bytes_le(a), a_scale);
    let y = BigDecimal::new(BigInt::from_signed_bytes_le(b), b_scale);
    let (unscaled, scale) = (x + y).into_bigint_and_exponent();
    (unscaled.to_signed_bytes_le(), scale)
}

/// Calls `bigdecimal`'s `==` on two decimals given by their parts. The crate
/// rescales the operand with the smaller scale by a power of ten and
/// compares the unscaled integers.
#[verifier::external_body]
fn eq_parts(a: &Vec<u8>, a_scale: i64, b: &Vec<u8>, b_scale: i64) -> (r: bool)
    requires
        -MAX_SCALE <= a_scale <= MAX_SCALE,
        -MAX_SCALE <= b_scale <= MAX_SCALE,
    ensures
        r == value_of(a@, a_scale).same_number(value_of(b@, b_scale)),
{
    let x = BigDecimal::new(BigInt::from_signed_bytes_le(a), a_scale);
    let y = BigDecimal::new(BigInt::from_signed_bytes_le(b), b_scale);
    x == y
}

/// Calls `bigdecimal`'s `*` on two decimals given by their parts. The crate
/// returns the other operand where one of them equals one, and otherwise
/// multiplies the unscaled integers and adds the scales.
#[verifier::external_body]
fn mul_parts(a: &Vec<u8>, a_scale: i64, b: &Vec<u8>, b_scale: i64) -> (r: (Vec<u8>, i64))
    requires
        -MAX_SCALE <= a_scale <= MAX_SCALE,
        -MAX_SCALE <= b_scale <= MAX_SCALE,
    ensures
        value_of(r.0@, r.1) == value_of(a@, a_scale).times(value_of(b@, b_scale)),
{
    let x = BigDecimal::new(BigInt::from_signed_bytes_le(a), a_scale);
    let y = BigDecimal::new(BigInt::from_signed_bytes_le(b), b_scale);
    let (unscaled, scale) = (x * y).into_bigint_and_exponent();
    (unscaled.to_signed_bytes_le(), scale)
}

/// Calls `bigdecimal`'s `/` on two decimals given by their parts. The crate
/// panics on a zero divisor, which is left out here; otherwise it divides
/// digit by digit up to its working precision of a hundred digits and
/// rounds. The result is named, not spelled out; of its scale the second
/// clause states the bound that the crate's loops show.
#[verifier::external_body]
fn div_parts(a: &Vec<u8>, a_scale: i64, b: &Vec<u8>, b_scale: i64) -> (r: (Vec<u8>, i64))
    requires
        -MAX_SCALE <= a_scale <= MAX_SCALE,
        -MAX_SCALE <= b_scale <= MAX_SCALE,
        signed_le(b@) != 0,
    ensures
        (signed_le(r.0@), r.1 as int) == quotient_parts(
            signed_le(a@),
            a_scale as int,
            signed_le(b@),
            b_scale as int,
        ),
        quotient_scale_bound(r.1 as int, a_scale as int, signed_le(b@), b_scale as int),
{
    let x = BigDecimal::new(BigInt::from_signed_bytes_le(a), a_scale);
    let y = BigDecimal::new(BigInt::from_signed_bytes_le(b), b_scale);
    let (unscaled, scale) = (x / y).into_bigint_and_exponent();
    (unscaled.to_signed_bytes_le(), scale)
}

/// Calls `bigdecimal`'s `inverse` on a decimal given by its parts. The crate
/// hands zero and one back as they are. For any other number it refines a
/// guess until two rounds agree. The guess is made with `f64::exp2`, whose
/// precision `std` leaves open, so the result is not named and nothing more
/// is stated of it. Where the guess is no normal float the crate starts from
/// a power of ten from which the rounds never agree; the bounds on the bytes
/// and the scale keep the exponent of the guess between -1011 and 499, so
/// that it is normal.
#[verifier::external_body]
fn inverse_parts(a: &Vec<u8>, a_scale: i64) -> (r: (Vec<u8>, i64))
    requires
        -MAX_SCALE <= a_scale <= MAX_SCALE,
        signed_le(a@) == 0 || (a@.len() <= MAX_INVERSE_WIDTH && -MAX_INVERSE_SCALE <= a_scale
            <= MAX_INVERSE_SCALE),
    ensures
        signed_le(a@) == 0 || value_of(a@, a_scale).is_one() ==> value_of(r.0@, r.1) == value_of(
            a@,
            a_scale,
        ),
{
    let x = BigDecimal::new(BigInt::from_signed_bytes_le(a), a_scale);
    let (unscaled, scale) = x.inverse().into_bigint_and_exponent();
    (unscaled.to_signed_bytes_le(), scale)
}

} // verus!
