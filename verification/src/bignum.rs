//! Unsigned big integers, modelled as little-endian byte strings.
//!
//! The arithmetic itself is done by the `num-bigint` crate; every operation
//! the library needs is a small trusted wrapper whose contract states the
//! mathematical value of the result in terms of the operands' values.

use vstd::prelude::*;
use vstd::arithmetic::power::pow;
use vstd::arithmetic::power2::pow2;

verus! {

/// Value of a little-endian byte string.
pub open spec fn le_val(s: Seq<u8>) -> nat
    decreases s.len(),
{
    if s.len() == 0 {
        0
    } else {
        s[0] as nat + 256 * le_val(s.drop_first())
    }
}

/// An arbitrary-precision unsigned integer, held as little-endian bytes.
pub struct Big {
    bytes: Vec<u8>,
}

impl View for Big {
    type V = nat;

    closed spec fn view(&self) -> nat {
        le_val(self.bytes@)
    }
}

/// `b^e mod m` over the mathematical integers, for a positive modulus.
pub open spec fn pow_mod(b: nat, e: nat, m: nat) -> nat
    recommends
        m > 0,
{
    (pow(b as int, e) % (m as int)) as nat
}

/// Relies on `num_bigint::BigUint::from` and `to_bytes_le`: the byte string
/// of a `u64` read back little-endian is that `u64`.
#[verifier::external_body]
pub fn big_from_u64(v: u64) -> (r: Big)
    ensures
        r@ == v,
{
    Big { bytes: num_bigint::BigUint::from(v).to_bytes_le() }
}

/// Relies on `num_bigint::BigUint`'s `Add`: arbitrary-precision sum.
#[verifier::external_body]
pub fn big_add(a: &Big, b: &Big) -> (r: Big)
    ensures
        r@ == a@ + b@,
{
    let x = num_bigint::BigUint::from_bytes_le(&a.bytes);
    let y = num_bigint::BigUint::from_bytes_le(&b.bytes);
    Big { bytes: (x + y).to_bytes_le() }
}

/// Relies on `num_bigint::BigUint`'s `Sub`, which requires the subtrahend
/// not to exceed the minuend.
#[verifier::external_body]
pub(crate) fn big_sub(a: &Big, b: &Big) -> (r: Big)
    requires
        b@ <= a@,
    ensures
        r@ == a@ - b@,
{
    let x = num_bigint::BigUint::from_bytes_le(&a.bytes);
    let y = num_bigint::BigUint::from_bytes_le(&b.bytes);
    Big { bytes: (x - y).to_bytes_le() }
}

/// Relies on `num_bigint::BigUint`'s `Mul`: arbitrary-precision product.
#[verifier::external_body]
pub fn big_mul(a: &Big, b: &Big) -> (r: Big)
    ensures
        r@ == a@ * b@,
{
    let x = num_bigint::BigUint::from_bytes_le(&a.bytes);
    let y = num_bigint::BigUint::from_bytes_le(&b.bytes);
    Big { bytes: (x * y).to_bytes_le() }
}

/// Relies on `num_bigint::BigUint`'s `Div`: Euclidean quotient; division by
/// zero is excluded because the crate panics on it.
#[verifier::external_body]
pub(crate) fn big_div(a: &Big, d: &Big) -> (r: Big)
    requires
        d@ > 0,
    ensures
        r@ == a@ / d@,
{
    let x = num_bigint::BigUint::from_bytes_le(&a.bytes);
    let y = num_bigint::BigUint::from_bytes_le(&d.bytes);
    Big { bytes: (x / y).to_bytes_le() }
}

/// Relies on `num_bigint::BigUint`'s `Rem`: Euclidean remainder; a zero
/// modulus is excluded because the crate panics on it.
#[verifier::external_body]
pub(crate) fn big_rem(a: &Big, m: &Big) -> (r: Big)
    requires
        m@ > 0,
    ensures
        r@ == a@ % m@,
{
    let x = num_bigint::BigUint::from_bytes_le(&a.bytes);
    let y = num_bigint::BigUint::from_bytes_le(&m.bytes);
    Big { bytes: (x % y).to_bytes_le() }
}

/// Relies on `num_bigint::BigUint::modpow`: `self^exponent mod modulus`,
/// which panics on a zero modulus.
#[verifier::external_body]
pub(crate) fn big_modpow(b: &Big, e: &Big, m: &Big) -> (r: Big)
    requires
        m@ > 0,
    ensures
        r@ == pow_mod(b@, e@, m@),
{
    let x = num_bigint::BigUint::from_bytes_le(&b.bytes);
    let y = num_bigint::BigUint::from_bytes_le(&e.bytes);
    let n = num_bigint::BigUint::from_bytes_le(&m.bytes);
    Big { bytes: x.modpow(&y, &n).to_bytes_le() }
}

/// Relies on `num_bigint::BigUint`'s `Shl`: `1 << t` is two to the `t`.
#[verifier::external_body]
pub(crate) fn big_one_shl(t: u64) -> (r: Big)
    ensures
        r@ == pow2(t as nat),
{
    Big { bytes: (num_bigint::BigUint::from(1u32) << t).to_bytes_le() }
}

/// Relies on `num_bigint::BigUint`'s `PartialEq`: numeric equality.
#[verifier::external_body]
pub fn big_eq(a: &Big, b: &Big) -> (r: bool)
    ensures
        r <==> a@ == b@,
{
    let x = num_bigint::BigUint::from_bytes_le(&a.bytes);
    let y = num_bigint::BigUint::from_bytes_le(&b.bytes);
    x == y
}

} // verus!
