//! Exact rational numbers of any size.
//!
//! A `Number` keeps its numerator and denominator as bytes. All arithmetic
//! on it is done by `num_rational::BigRational`; the functions that hand a
//! number to it and take the result back are the private ones at the end of
//! this file, and what they state of the result is taken on trust. Each of
//! them builds its operands with `BigInt::from_signed_bytes_le` and
//! `BigRational::new`, which puts a fraction into lowest terms, and takes
//! the bytes of the result with `BigInt::to_signed_bytes_le`.

use vstd::prelude::*;
use num_bigint::BigInt;
use num_rational::BigRational;
use num_traits::Signed;
use num_traits::ToPrimitive;

verus! {

/// The number that the little-endian bytes `b` hold without a sign.
pub open spec fn unsigned_le(b: Seq<u8>) -> nat
    decreases b.len(),
{
    if b.len() == 0 {
        0
    } else {
        b[0] as nat + 256 * unsigned_le(b.drop_first())
    }
}

/// 256 to the power of `n`.
pub open spec fn pow256(n: nat) -> nat
    decreases n,
{
    if n == 0 {
        1
    } else {
        256 * pow256((n - 1) as nat)
    }
}

/// The integer that the little-endian bytes `b` hold in two's complement.
pub open spec fn signed_le(b: Seq<u8>) -> int {
    if b.len() > 0 && b.last() >= 128 {
        unsigned_le(b) - pow256(b.len())
    } else {
        unsigned_le(b) as int
    }
}

/// The largest whole number that is not above `x`.
pub open spec fn floor_of(x: real) -> int {
    x.floor()
}

/// The smallest whole number that is not below `x`.
pub open spec fn ceil_of(x: real) -> int {
    0 - ((0 as real) - x).floor()
}

/// `x` without its fraction.
pub open spec fn trunc_of(x: real) -> int {
    if x >= (0 as real) {
        floor_of(x)
    } else {
        ceil_of(x)
    }
}

/// The whole number nearest to `x`; a half goes away from zero.
pub open spec fn round_of(x: real) -> int {
    if x >= (0 as real) {
        floor_of(x + (1 as real) / (2 as real))
    } else {
        ceil_of(x - (1 as real) / (2 as real))
    }
}

/// `x` without its sign.
pub open spec fn abs_of(x: real) -> real {
    if x >= (0 as real) {
        x
    } else {
        (0 as real) - x
    }
}

/// Whether `x` is a whole number.
pub open spec fn is_whole(x: real) -> bool {
    x == x.floor() as real
}

/// Whether `d` times `x` is a whole number.
pub open spec fn makes_whole(x: real, d: int) -> bool {
    is_whole(x * (d as real))
}

/// The denominator of `x` in lowest terms: the least positive whole number
/// that makes `x` whole when multiplied with it.
pub open spec fn denominator_of(x: real) -> int {
    choose|d: int|
        d >= 1 && #[trigger] makes_whole(x, d) && forall|e: int|
            1 <= e < d ==> !#[trigger] makes_whole(x, e)
}

/// The numerator of `x` in lowest terms.
pub open spec fn numerator_of(x: real) -> int {
    (x * (denominator_of(x) as real)).floor()
}

/// The digit for a number below ten.
pub open spec fn digit_char(n: int) -> char {
    if n == 0 {
        '0'
    } else if n == 1 {
        '1'
    } else if n == 2 {
        '2'
    } else if n == 3 {
        '3'
    } else if n == 4 {
        '4'
    } else if n == 5 {
        '5'
    } else if n == 6 {
        '6'
    } else if n == 7 {
        '7'
    } else if n == 8 {
        '8'
    } else {
        '9'
    }
}

/// A natural number in decimal digits.
pub open spec fn nat_text(n: nat) -> Seq<char>
    decreases n,
{
    if n < 10 {
        seq![digit_char(n as int)]
    } else {
        nat_text(n / 10).push(digit_char((n % 10) as int))
    }
}

/// A whole number in decimal digits, with `-` in front of a negative one.
pub open spec fn int_text(i: int) -> Seq<char> {
    if i < 0 {
        seq!['-'] + nat_text((-i) as nat)
    } else {
        nat_text(i as nat)
    }
}

/// The text that the number `x` is written with: its numerator in lowest
/// terms and, unless the number is whole, `/` and its denominator.
pub open spec fn number_text(x: real) -> Seq<char> {
    if denominator_of(x) == 1 {
        int_text(numerator_of(x))
    } else {
        int_text(numerator_of(x)) + seq!['/'] + nat_text(denominator_of(x) as nat)
    }
}

/// A rational number of any size, held exactly: numerator and denominator
/// as little-endian bytes in two's complement. The denominator is never
/// zero.
#[derive(Debug)]
pub struct Number {
    numer: Vec<u8>,
    denom: Vec<u8>,
}

impl View for Number {
    type V = real;

    closed spec fn view(&self) -> real {
        (signed_le(self.numer@) as real) / (signed_le(self.denom@) as real)
    }
}

impl Clone for Number {
    fn clone(&self) -> (r: Number)
        ensures
            r@ == self@,
    {
        proof {
            use_type_invariant(self);
        }
        let numer = self.numer.clone();
        let denom = self.denom.clone();
        assert(numer@ =~= self.numer@);
        assert(denom@ =~= self.denom@);
        Number { numer, denom }
    }
}

impl PartialEq for Number {
    fn eq(&self, other: &Number) -> (r: bool) {
        ratio_eq(self, other)
    }
}

impl vstd::std_specs::cmp::PartialEqSpecImpl for Number {
    open spec fn obeys_eq_spec() -> bool {
        true
    }

    open spec fn eq_spec(&self, other: &Number) -> bool {
        self@ == other@
    }
}

impl Eq for Number {

}

impl Number {
    #[verifier::type_invariant]
    spec fn denominator_is_not_zero(self) -> bool {
        signed_le(self.denom@) != 0
    }

    /// The whole number `n`.
    pub fn from_integer(n: i64) -> (r: Number)
        ensures
            r@ == n as real,
    {
        ratio_from_integer(n)
    }

    /// Whether the two numbers are the same number.
    pub fn equals(&self, other: &Number) -> (b: bool)
        ensures
            b == (self@ == other@),
    {
        ratio_eq(self, other)
    }

    /// Whether this number is the smaller one.
    pub fn less_than(&self, other: &Number) -> (b: bool)
        ensures
            b == (self@ < other@),
    {
        ratio_lt(self, other)
    }

    /// The number as text.
    pub fn to_text(&self) -> (s: String)
        ensures
            s@ == number_text(self@),
    {
        ratio_to_text(self)
    }
}

/// `BigRational::from_integer` on `BigInt::from(n)`: the rational number
/// that is the integer `n`.
#[verifier::external_body]
pub(crate) fn ratio_from_integer(n: i64) -> (r: Number)
    ensures
        r@ == n as real,
{
    let x = BigRational::from_integer(BigInt::from(n));
    Number { numer: x.numer().to_signed_bytes_le(), denom: x.denom().to_signed_bytes_le() }
}

/// `BigRational::new`: the quotient of the integers `n` and `d`. It panics
/// on a zero denominator, which the precondition excludes.
#[verifier::external_body]
pub(crate) fn ratio_new(n: i64, d: i64) -> (r: Number)
    requires
        d != 0,
    ensures
        r@ == (n as real) / (d as real),
{
    let x = BigRational::new(BigInt::from(n), BigInt::from(d));
    Number { numer: x.numer().to_signed_bytes_le(), denom: x.denom().to_signed_bytes_le() }
}

/// `+` of `BigRational`: the exact sum.
#[verifier::external_body]
pub(crate) fn ratio_add(a: &Number, b: &Number) -> (r: Number)
    ensures
        r@ == a@ + b@,
{
    let x = BigRational::new(
        BigInt::from_signed_bytes_le(&a.numer),
        BigInt::from_signed_bytes_le(&a.denom),
    );
    let y = BigRational::new(
        BigInt::from_signed_bytes_le(&b.numer),
        BigInt::from_signed_bytes_le(&b.denom),
    );
    let z = x + y;
    Number { numer: z.numer().to_signed_bytes_le(), denom: z.denom().to_signed_bytes_le() }
}

/// `-` of `BigRational`: the exact difference.
#[verifier::external_body]
pub(crate) fn ratio_sub(a: &Number, b: &Number) -> (r: Number)
    ensures
        r@ == a@ - b@,
{
    let x = BigRational::new(
        BigInt::from_signed_bytes_le(&a.numer),
        BigInt::from_signed_bytes_le(&a.denom),
    );
    let y = BigRational::new(
        BigInt::from_signed_bytes_le(&b.numer),
        BigInt::from_signed_bytes_le(&b.denom),
    );
    let z = x - y;
    Number { numer: z.numer().to_signed_bytes_le(), denom: z.denom().to_signed_bytes_le() }
}

/// `*` of `BigRational`: the exact product.
#[verifier::external_body]
pub(crate) fn ratio_mul(a: &Number, b: &Number) -> (r: Number)
    ensures
        r@ == a@ * b@,
{
    let x = BigRational::new(
        BigInt::from_signed_bytes_le(&a.numer),
        BigInt::from_signed_bytes_le(&a.denom),
    );
    let y = BigRational::new(
        BigInt::from_signed_bytes_le(&b.numer),
        BigInt::from_signed_bytes_le(&b.denom),
    );
    let z = x * y;
    Number { numer: z.numer().to_signed_bytes_le(), denom: z.denom().to_signed_bytes_le() }
}

/// `/` of `BigRational`: the exact quotient. It panics on a zero divisor,
/// which the precondition excludes.
#[verifier::external_body]
pub(crate) fn ratio_div(a: &Number, b: &Number) -> (r: Number)
    requires
        b@ != 0 as real,
    ensures
        r@ == a@ / b@,
{
    let x = BigRational::new(
        BigInt::from_signed_bytes_le(&a.numer),
        BigInt::from_signed_bytes_le(&a.denom),
    );
    let y = BigRational::new(
        BigInt::from_signed_bytes_le(&b.numer),
        BigInt::from_signed_bytes_le(&b.denom),
    );
    let z = x / y;
    Number { numer: z.numer().to_signed_bytes_le(), denom: z.denom().to_signed_bytes_le() }
}

/// `BigRational::floor`: rounds towards minus infinity.
#[verifier::external_body]
pub(crate) fn ratio_floor(a: &Number) -> (r: Number)
    ensures
        r@ == floor_of(a@) as real,
{
    let x = BigRational::new(
        BigInt::from_signed_bytes_le(&a.numer),
        BigInt::from_signed_bytes_le(&a.denom),
    );
    let z = x.floor();
    Number { numer: z.numer().to_signed_bytes_le(), denom: z.denom().to_signed_bytes_le() }
}

/// `BigRational::ceil`: rounds towards plus infinity.
#[verifier::external_body]
pub(crate) fn ratio_ceil(a: &Number) -> (r: Number)
    ensures
        r@ == ceil_of(a@) as real,
{
    let x = BigRational::new(
        BigInt::from_signed_bytes_le(&a.numer),
        BigInt::from_signed_bytes_le(&a.denom),
    );
    let z = x.ceil();
    Number { numer: z.numer().to_signed_bytes_le(), denom: z.denom().to_signed_bytes_le() }
}

/// `BigRational::round`: rounds to the nearest integer, a half away from
/// zero.
#[verifier::external_body]
pub(crate) fn ratio_round(a: &Number) -> (r: Number)
    ensures
        r@ == round_of(a@) as real,
{
    let x = BigRational::new(
        BigInt::from_signed_bytes_le(&a.numer),
        BigInt::from_signed_bytes_le(&a.denom),
    );
    let z = x.round();
    Number { numer: z.numer().to_signed_bytes_le(), denom: z.denom().to_signed_bytes_le() }
}

/// `Signed::abs` of `BigRational`: the number without its sign.
#[verifier::external_body]
pub(crate) fn ratio_abs(a: &Number) -> (r: Number)
    ensures
        r@ == abs_of(a@),
{
    let x = BigRational::new(
        BigInt::from_signed_bytes_le(&a.numer),
        BigInt::from_signed_bytes_le(&a.denom),
    );
    let z = x.abs();
    Number { numer: z.numer().to_signed_bytes_le(), denom: z.denom().to_signed_bytes_le() }
}

/// `==` of `BigRational`: whether the two are the same number.
#[verifier::external_body]
pub(crate) fn ratio_eq(a: &Number, b: &Number) -> (r: bool)
    ensures
        r == (a@ == b@),
{
    let x = BigRational::new(
        BigInt::from_signed_bytes_le(&a.numer),
        BigInt::from_signed_bytes_le(&a.denom),
    );
    let y = BigRational::new(
        BigInt::from_signed_bytes_le(&b.numer),
        BigInt::from_signed_bytes_le(&b.denom),
    );
    x == y
}

/// `<` of `BigRational`: whether `a` is the smaller number.
#[verifier::external_body]
pub(crate) fn ratio_lt(a: &Number, b: &Number) -> (r: bool)
    ensures
        r == (a@ < b@),
{
    let x = BigRational::new(
        BigInt::from_signed_bytes_le(&a.numer),
        BigInt::from_signed_bytes_le(&a.denom),
    );
    let y = BigRational::new(
        BigInt::from_signed_bytes_le(&b.numer),
        BigInt::from_signed_bytes_le(&b.denom),
    );
    x < y
}

/// `BigRational::to_integer`, which rounds towards zero, and `to_u16` of
/// `ToPrimitive` on the result, which gives the integer where it fits. The
/// precondition keeps the integer within `u16`.
#[verifier::external_body]
pub(crate) fn ratio_to_u16(a: &Number) -> (r: u16)
    requires
        (0 as real) - (1 as real) < a@ < 65536 as real,
    ensures
        r == trunc_of(a@),
{
    let x = BigRational::new(
        BigInt::from_signed_bytes_le(&a.numer),
        BigInt::from_signed_bytes_le(&a.denom),
    );
    x.to_integer().to_u16().unwrap()
}

/// `Display` of `BigRational`, which writes a number in lowest terms: the
/// numerator as `Display` of `BigInt` writes it, in decimal digits behind a
/// `-` where it is negative, then `/` and the denominator unless that is 1.
#[verifier::external_body]
pub(crate) fn ratio_to_text(a: &Number) -> (s: String)
    ensures
        s@ == number_text(a@),
{
    let x = BigRational::new(
        BigInt::from_signed_bytes_le(&a.numer),
        BigInt::from_signed_bytes_le(&a.denom),
    );
    format!("{}", x)
}

} // verus!
