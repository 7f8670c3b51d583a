//! Big natural numbers as little-endian byte strings, and the arithmetic
//! that `num-bigint` performs on them.
use vstd::prelude::*;
use vstd::arithmetic::div_mod::*;
use num_bigint::{BigInt, BigUint};
use num_integer::Integer;
use num_traits::{One, Zero};

verus! {

/// The natural number whose little-endian base-256 digits are `s`
/// (the empty string denotes zero).
pub open spec fn le_value(s: Seq<u8>) -> nat
    decreases s.len(),
{
    if s.len() == 0 {
        0
    } else {
        s[0] as nat + 256 * le_value(s.drop_first())
    }
}

/// The shortest little-endian base-256 digit string of `v`; zero is `[0]`.
pub open spec fn le_bytes(v: nat) -> Seq<u8>
    decreases v,
{
    if v < 256 {
        seq![v as u8]
    } else {
        seq![(v % 256) as u8] + le_bytes(v / 256)
    }
}

/// Reading back the digits of `v` gives `v`.
pub proof fn lemma_le_value_le_bytes(v: nat)
    ensures
        le_value(le_bytes(v)) == v,
    decreases v,
{
    let s = le_bytes(v);
    if v < 256 {
        assert(s.drop_first() =~= Seq::<u8>::empty());
        assert(le_value(s.drop_first()) == 0);
        assert(s[0] as nat == v);
    } else {
        lemma_le_value_le_bytes(v / 256);
        assert(s.drop_first() =~= le_bytes(v / 256));
        assert(s[0] as nat == v % 256);
        lemma_fundamental_div_mod(v as int, 256);
    }
}

/// `b` raised to the power `e`.
pub open spec fn nat_pow(b: nat, e: nat) -> nat
    decreases e,
{
    if e == 0 {
        1
    } else {
        b * nat_pow(b, (e - 1) as nat)
    }
}

/// Greatest common divisor, by Euclid's recursion (`gcd(a, 0) == a`).
pub open spec fn gcd_nat(a: nat, b: nat) -> nat
    decreases b,
{
    if b == 0 {
        a
    } else {
        gcd_nat(b, a % b)
    }
}

/// Absolute value.
pub open spec fn abs_int(x: int) -> nat {
    if x < 0 {
        (-x) as nat
    } else {
        x as nat
    }
}

/// Quotient rounded toward zero.
pub open spec fn trunc_div(x: int, y: int) -> int {
    let q = (abs_int(x) / abs_int(y)) as int;
    if (x < 0) == (y < 0) {
        q
    } else {
        -q
    }
}

/// Remainder that takes the sign of the dividend.
pub open spec fn trunc_rem(x: int, y: int) -> int {
    let r = (abs_int(x) % abs_int(y)) as int;
    if x < 0 {
        -r
    } else {
        r
    }
}

/// The integer whose two's-complement little-endian bytes are `s` (the
/// empty string denotes zero).
pub open spec fn int_value(s: Seq<u8>) -> int {
    if s.len() > 0 && s.last() >= 128 {
        le_value(s) - nat_pow(256, s.len())
    } else {
        le_value(s) as int
    }
}

/// `BigUint::from_bytes_le` then `BigUint::to_bytes_le`: the shortest digit
/// string of the same number.
#[verifier::external_body]
fn biguint_canonical(bytes: &Vec<u8>) -> (r: Vec<u8>)
    ensures
        r@ == le_bytes(le_value(bytes@)),
{
    BigUint::from_bytes_le(bytes).to_bytes_le()
}

/// The shortest digit string of the number that `bytes` denote (trailing
/// zero bytes dropped; zero is `[0]`).
pub fn canonical(bytes: &Vec<u8>) -> (r: Vec<u8>)
    ensures
        r@ == le_bytes(le_value(bytes@)),
{
    biguint_canonical(bytes)
}

/// A single digit denotes itself.
pub proof fn lemma_le_value_single(b: u8)
    ensures
        le_value(seq![b]) == b as nat,
        le_bytes(b as nat) == seq![b],
{
    assert(seq![b].drop_first() =~= Seq::<u8>::empty());
    assert(le_value(Seq::<u8>::empty()) == 0);
    assert(le_bytes(b as nat) =~= seq![b]);
}

/// Each number has exactly one shortest digit string.
pub proof fn lemma_le_bytes_injective(v: nat, w: nat)
    requires
        le_bytes(v) == le_bytes(w),
    ensures
        v == w,
{
    lemma_le_value_le_bytes(v);
    lemma_le_value_le_bytes(w);
}

/// A digit string of length `k` denotes a number below `256^k`.
pub proof fn lemma_le_value_bound(s: Seq<u8>)
    ensures
        le_value(s) < nat_pow(256, s.len()),
    decreases s.len(),
{
    if s.len() > 0 {
        lemma_le_value_bound(s.drop_first());
        assert(nat_pow(256, s.len()) == 256 * nat_pow(256, (s.len() - 1) as nat));
    }
}

/// `BigUint` addition (`Add`): the digits of `a + b`.
#[verifier::external_body]
pub(crate) fn biguint_add(a: &Vec<u8>, b: &Vec<u8>) -> (r: Vec<u8>)
    ensures
        r@ == le_bytes(le_value(a@) + le_value(b@)),
{
    (BigUint::from_bytes_le(a) + BigUint::from_bytes_le(b)).to_bytes_le()
}

/// `BigUint` subtraction (`Sub`): the digits of `a - b`; it panics when
/// `b > a`, which `requires` leaves out.
#[verifier::external_body]
pub(crate) fn biguint_sub(a: &Vec<u8>, b: &Vec<u8>) -> (r: Vec<u8>)
    requires
        le_value(b@) <= le_value(a@),
    ensures
        r@ == le_bytes((le_value(a@) - le_value(b@)) as nat),
{
    (BigUint::from_bytes_le(a) - BigUint::from_bytes_le(b)).to_bytes_le()
}

/// `BigUint` multiplication (`Mul`): the digits of `a * b`.
#[verifier::external_body]
pub(crate) fn biguint_mul(a: &Vec<u8>, b: &Vec<u8>) -> (r: Vec<u8>)
    ensures
        r@ == le_bytes(le_value(a@) * le_value(b@)),
{
    (BigUint::from_bytes_le(a) * BigUint::from_bytes_le(b)).to_bytes_le()
}

/// `BigUint` remainder (`Rem`): the digits of `a % b`; it panics on a zero
/// divisor, which `requires` leaves out.
#[verifier::external_body]
pub(crate) fn biguint_rem(a: &Vec<u8>, b: &Vec<u8>) -> (r: Vec<u8>)
    requires
        le_value(b@) > 0,
    ensures
        r@ == le_bytes(le_value(a@) % le_value(b@)),
{
    (BigUint::from_bytes_le(a) % BigUint::from_bytes_le(b)).to_bytes_le()
}

/// `BigUint::modpow`: the digits of `base^exp % m`; it panics on a zero
/// modulus, which `requires` leaves out.
#[verifier::external_body]
pub(crate) fn biguint_modpow(base: &Vec<u8>, exp: &Vec<u8>, m: &Vec<u8>) -> (r: Vec<u8>)
    requires
        le_value(m@) > 0,
    ensures
        r@ == le_bytes(nat_pow(le_value(base@), le_value(exp@)) % le_value(m@)),
{
    let base = BigUint::from_bytes_le(base);
    base.modpow(&BigUint::from_bytes_le(exp), &BigUint::from_bytes_le(m)).to_bytes_le()
}

/// `num_integer::Integer::gcd` on `BigUint`: the digits of the greatest
/// common divisor (`gcd(a, 0) == a`, `gcd(0, b) == b`).
#[verifier::external_body]
pub(crate) fn biguint_gcd(a: &Vec<u8>, b: &Vec<u8>) -> (r: Vec<u8>)
    ensures
        r@ == le_bytes(gcd_nat(le_value(a@), le_value(b@))),
{
    BigUint::from_bytes_le(a).gcd(&BigUint::from_bytes_le(b)).to_bytes_le()
}

/// `BigInt::from(BigUint)`: the non-negative integer `a`, in two's
/// complement (`BigInt::to_signed_bytes_le`).
#[verifier::external_body]
pub(crate) fn bigint_from_biguint(a: &Vec<u8>) -> (r: Vec<u8>)
    ensures
        int_value(r@) == le_value(a@),
{
    BigInt::from(BigUint::from_bytes_le(a)).to_signed_bytes_le()
}

/// `BigInt` addition (`Add`), on two's-complement bytes.
#[verifier::external_body]
pub(crate) fn bigint_add(a: &Vec<u8>, b: &Vec<u8>) -> (r: Vec<u8>)
    ensures
        int_value(r@) == int_value(a@) + int_value(b@),
{
    (BigInt::from_signed_bytes_le(a) + BigInt::from_signed_bytes_le(b)).to_signed_bytes_le()
}

/// `BigInt` subtraction (`Sub`), on two's-complement bytes.
#[verifier::external_body]
pub(crate) fn bigint_sub(a: &Vec<u8>, b: &Vec<u8>) -> (r: Vec<u8>)
    ensures
        int_value(r@) == int_value(a@) - int_value(b@),
{
    (BigInt::from_signed_bytes_le(a) - BigInt::from_signed_bytes_le(b)).to_signed_bytes_le()
}

/// `BigInt` multiplication (`Mul`), on two's-complement bytes.
#[verifier::external_body]
pub(crate) fn bigint_mul(a: &Vec<u8>, b: &Vec<u8>) -> (r: Vec<u8>)
    ensures
        int_value(r@) == int_value(a@) * int_value(b@),
{
    (BigInt::from_signed_bytes_le(a) * BigInt::from_signed_bytes_le(b)).to_signed_bytes_le()
}

/// `BigInt` division (`Div`), on two's-complement bytes: the quotient rounded
/// toward zero; it panics on a zero divisor, which `requires` leaves out.
#[verifier::external_body]
pub(crate) fn bigint_div(a: &Vec<u8>, b: &Vec<u8>) -> (r: Vec<u8>)
    requires
        int_value(b@) != 0,
    ensures
        int_value(r@) == trunc_div(int_value(a@), int_value(b@)),
{
    (BigInt::from_signed_bytes_le(a) / BigInt::from_signed_bytes_le(b)).to_signed_bytes_le()
}

/// `BigInt` remainder (`Rem`), on two's-complement bytes: it takes the sign
/// of the dividend; it panics on a zero divisor, which `requires` leaves out.
#[verifier::external_body]
pub(crate) fn bigint_rem(a: &Vec<u8>, b: &Vec<u8>) -> (r: Vec<u8>)
    requires
        int_value(b@) != 0,
    ensures
        int_value(r@) == trunc_rem(int_value(a@), int_value(b@)),
{
    (BigInt::from_signed_bytes_le(a) % BigInt::from_signed_bytes_le(b)).to_signed_bytes_le()
}

/// `num_traits::Zero::is_zero` on a `BigInt` given in two's complement.
#[verifier::external_body]
pub(crate) fn bigint_is_zero(a: &Vec<u8>) -> (r: bool)
    ensures
        r == (int_value(a@) == 0),
{
    BigInt::from_signed_bytes_le(a).is_zero()
}

/// `num_traits::One::is_one` on a `BigInt` given in two's complement.
#[verifier::external_body]
pub(crate) fn bigint_is_one(a: &Vec<u8>) -> (r: bool)
    ensures
        r == (int_value(a@) == 1),
{
    BigInt::from_signed_bytes_le(a).is_one()
}

/// `BigInt::to_biguint` of a non-negative `BigInt` given in two's complement,
/// unwrapped, as the shortest digit string; a negative value gives `None`,
/// whose unwrapping panics, which `requires` leaves out.
#[verifier::external_body]
pub(crate) fn bigint_to_biguint(a: &Vec<u8>) -> (r: Vec<u8>)
    requires
        int_value(a@) >= 0,
    ensures
        r@ == le_bytes(int_value(a@) as nat),
{
    BigInt::from_signed_bytes_le(a).to_biguint().unwrap().to_bytes_le()
}

} // verus!
