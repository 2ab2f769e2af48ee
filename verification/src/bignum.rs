//! Arbitrary-precision integers, held as two's complement big-endian bytes.
//!
//! The arithmetic itself is done by `substreams::scalar::BigInt`; each operation
//! here converts its operands, makes one call and converts the result back.
use substreams::scalar::BigInt;
use vstd::prelude::*;

verus! {

/// `256^n`.
pub open spec fn pow256(n: nat) -> nat
    decreases n,
{
    if n == 0 {
        1
    } else {
        256 * pow256((n - 1) as nat)
    }
}

/// Unsigned big-endian value of a byte sequence (the empty sequence is 0).
pub open spec fn be_value(s: Seq<u8>) -> nat
    decreases s.len(),
{
    if s.len() == 0 {
        0
    } else {
        be_value(s.drop_last()) * 256 + s.last() as nat
    }
}

/// Two's complement big-endian value of a byte sequence (the empty sequence is 0).
pub open spec fn signed_be_value(s: Seq<u8>) -> int {
    if s.len() > 0 && s[0] >= 128 {
        be_value(s) - pow256(s.len())
    } else {
        be_value(s) as int
    }
}

/// Absolute value.
pub open spec fn abs_int(v: int) -> int {
    if v < 0 {
        -v
    } else {
        v
    }
}

/// Integer division rounding toward zero, as Rust and `num-bigint` divide.
pub open spec fn trunc_div(a: int, b: int) -> int {
    let q = abs_int(a) / abs_int(b);
    if (a < 0) != (b < 0) {
        -q
    } else {
        q
    }
}

/// `base^exp`.
pub open spec fn pow_int(base: int, exp: nat) -> int
    decreases exp,
{
    if exp == 0 {
        1
    } else {
        base * pow_int(base, (exp - 1) as nat)
    }
}

/// The character of a decimal digit `d < 10`.
pub open spec fn digit_char(d: nat) -> char {
    if d == 0 {
        '0'
    } else if d == 1 {
        '1'
    } else if d == 2 {
        '2'
    } else if d == 3 {
        '3'
    } else if d == 4 {
        '4'
    } else if d == 5 {
        '5'
    } else if d == 6 {
        '6'
    } else if d == 7 {
        '7'
    } else if d == 8 {
        '8'
    } else {
        '9'
    }
}

/// Decimal digits of a natural number, most significant first, without leading zeros
/// ("0" for zero).
pub open spec fn nat_text(n: nat) -> Seq<char>
    decreases n,
{
    if n < 10 {
        seq![digit_char(n)]
    } else {
        nat_text(n / 10).push(digit_char(n % 10))
    }
}

/// Decimal text of an integer: a `-` before the digits of a negative value.
pub open spec fn int_text(v: int) -> Seq<char> {
    if v < 0 {
        seq!['-'] + nat_text((-v) as nat)
    } else {
        nat_text(v as nat)
    }
}

/// An arbitrary-precision integer, held as two's complement big-endian bytes.
/// Any byte sequence is a valid value; the empty one is zero.
#[derive(Clone, Debug)]
pub struct BigNum {
    pub bytes: Vec<u8>,
}

impl View for BigNum {
    type V = int;

    open spec fn view(&self) -> int {
        signed_be_value(self.bytes@)
    }
}

impl BigNum {
    /// A copy with the same value.
    pub fn duplicate(&self) -> (r: BigNum)
        ensures
            r@ == self@,
            r.bytes@ == self.bytes@,
    {
        let b = self.bytes.clone();
        assert(b@ =~= self.bytes@);
        BigNum { bytes: b }
    }

    /// Zero.
    pub fn zero() -> (r: BigNum)
        ensures
            r@ == 0,
    {
        BigNum { bytes: Vec::new() }
    }

    /// The value of two's complement big-endian bytes.
    pub fn from_signed_bytes_be(bytes: &[u8]) -> (r: BigNum)
        ensures
            r@ == signed_be_value(bytes@),
    {
        let v = vstd::slice::slice_to_vec(bytes);
        assert(v@ =~= bytes@);
        BigNum { bytes: v }
    }
}

/// Calls `BigInt::from_unsigned_bytes_be`: the result has the unsigned big-endian
/// value of `bytes`.
#[verifier::external_body]
pub(crate) fn from_unsigned_bytes_be(bytes: &[u8]) -> (r: BigNum)
    ensures
        r@ == be_value(bytes@) as int,
{
    BigNum { bytes: BigInt::from_unsigned_bytes_be(bytes).to_signed_bytes_be() }
}

/// Calls `BigInt::from(u64)`: the result has the value of `v`.
#[verifier::external_body]
pub(crate) fn from_u64(v: u64) -> (r: BigNum)
    ensures
        r@ == v as int,
{
    BigNum { bytes: BigInt::from(v).to_signed_bytes_be() }
}

/// Calls `BigInt::from(i64)`: the result has the value of `v`.
#[verifier::external_body]
pub(crate) fn from_i64(v: i64) -> (r: BigNum)
    ensures
        r@ == v as int,
{
    BigNum { bytes: BigInt::from(v).to_signed_bytes_be() }
}

/// Calls `BigInt - BigInt`: the exact difference.
#[verifier::external_body]
pub(crate) fn difference(a: &BigNum, b: &BigNum) -> (r: BigNum)
    ensures
        r@ == a@ - b@,
{
    let x = BigInt::from_signed_bytes_be(&a.bytes) - BigInt::from_signed_bytes_be(&b.bytes);
    BigNum { bytes: x.to_signed_bytes_be() }
}

/// Calls `BigInt + BigInt`: the exact sum.
#[verifier::external_body]
pub(crate) fn sum(a: &BigNum, b: &BigNum) -> (r: BigNum)
    ensures
        r@ == a@ + b@,
{
    let x = BigInt::from_signed_bytes_be(&a.bytes) + BigInt::from_signed_bytes_be(&b.bytes);
    BigNum { bytes: x.to_signed_bytes_be() }
}

/// Calls `BigInt * BigInt`: the exact product.
#[verifier::external_body]
pub(crate) fn product(a: &BigNum, b: &BigNum) -> (r: BigNum)
    ensures
        r@ == a@ * b@,
{
    let x = BigInt::from_signed_bytes_be(&a.bytes) * BigInt::from_signed_bytes_be(&b.bytes);
    BigNum { bytes: x.to_signed_bytes_be() }
}

/// Calls `BigInt / BigInt`, which rounds toward zero and panics on a zero divisor.
#[verifier::external_body]
pub(crate) fn quotient(a: &BigNum, b: &BigNum) -> (r: BigNum)
    requires
        b@ != 0,
    ensures
        r@ == trunc_div(a@, b@),
{
    let x = BigInt::from_signed_bytes_be(&a.bytes) / BigInt::from_signed_bytes_be(&b.bytes);
    BigNum { bytes: x.to_signed_bytes_be() }
}

/// Calls `BigInt::neg`: the negated value.
#[verifier::external_body]
pub(crate) fn neg(a: &BigNum) -> (r: BigNum)
    ensures
        r@ == -a@,
{
    BigNum { bytes: BigInt::from_signed_bytes_be(&a.bytes).neg().to_signed_bytes_be() }
}

/// Calls `BigInt::absolute`: the absolute value.
#[verifier::external_body]
pub(crate) fn absolute(a: &BigNum) -> (r: BigNum)
    ensures
        r@ == abs_int(a@),
{
    BigNum { bytes: BigInt::from_signed_bytes_be(&a.bytes).absolute().to_signed_bytes_be() }
}

/// Calls `BigInt::pow`: `a` raised to `exp`.
#[verifier::external_body]
pub(crate) fn pow(a: &BigNum, exp: u32) -> (r: BigNum)
    ensures
        r@ == pow_int(a@, exp as nat),
{
    BigNum { bytes: BigInt::from_signed_bytes_be(&a.bytes).pow(exp).to_signed_bytes_be() }
}

/// Calls `BigInt < BigInt`: whether `a` is smaller than `b`.
#[verifier::external_body]
pub(crate) fn lt(a: &BigNum, b: &BigNum) -> (r: bool)
    ensures
        r == (a@ < b@),
{
    BigInt::from_signed_bytes_be(&a.bytes) < BigInt::from_signed_bytes_be(&b.bytes)
}

/// Calls `BigInt == BigInt`: whether both have the same value.
#[verifier::external_body]
pub(crate) fn eq(a: &BigNum, b: &BigNum) -> (r: bool)
    ensures
        r == (a@ == b@),
{
    BigInt::from_signed_bytes_be(&a.bytes) == BigInt::from_signed_bytes_be(&b.bytes)
}

/// Calls `BigInt::to_string`: decimal digits, with a `-` before a negative value.
#[verifier::external_body]
pub(crate) fn to_decimal_string(a: &BigNum) -> (r: String)
    ensures
        r@ == int_text(a@),
{
    BigInt::from_signed_bytes_be(&a.bytes).to_string()
}

} // verus!
