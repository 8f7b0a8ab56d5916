//! Trusted bindings to the arbitrary-precision integer engine (openssl's
//! `BigNum`) and to the hash provider (sha3's `Sha3_512`).
//!
//! Each wrapper converts a `Big` to the engine's form, makes one engine
//! call, and converts the result back. Their contracts state what the
//! engine documents; nothing here is proved.

use vstd::prelude::*;
use vstd::arithmetic::power::pow;
use vstd::arithmetic::power2::pow2;
use crate::bignum::{Big, fits_engine};
use crate::primes::is_prime;
use sha3::Digest;

verus! {

#[verifier::external_type_specification]
#[verifier::external_body]
pub struct ExErrorStack(openssl::error::ErrorStack);

/// Relies on openssl's `BN_generate_prime_ex` with the safe flag: on
/// success the result is a prime of exactly `bits` bits (the engine sets
/// the top bit) for which `(p - 1) / 2` is also prime. The engine's
/// primality testing is probabilistic with negligible error; its verdict
/// is taken here as certain.
#[verifier::external_body]
pub(crate) fn bn_generate_safe_prime(bits: i32) -> (r: Result<
    Big,
    openssl::error::ErrorStack,
>)
    requires
        bits >= 3,
    ensures
        r matches Ok(p) ==> {
            &&& is_prime(p@)
            &&& is_prime(((p@ - 1) / 2) as nat)
            &&& pow2((bits - 1) as nat) <= p@ < pow2(bits as nat)
        },
{
    let mut p = openssl::bn::BigNum::new()?;
    p.generate_prime(bits, true, None, None)?;
    Ok(Big { bytes: p.to_vec() })
}

/// Relies on openssl's `BN_rand_range`: on success the result is a
/// uniformly random value in `[0, bound)`, from the engine's
/// cryptographically secure source.
#[verifier::external_body]
pub(crate) fn bn_rand_below(bound: &Big) -> (r: Result<Big, openssl::error::ErrorStack>)
    requires
        bound@ > 0,
        fits_engine(bound@),
    ensures
        r matches Ok(v) ==> v@ < bound@,
{
    let b = openssl::bn::BigNum::from_slice(&bound.bytes)?;
    let mut v = openssl::bn::BigNum::new()?;
    b.rand_range(&mut v)?;
    Ok(Big { bytes: v.to_vec() })
}

/// Relies on openssl's `BN_mod_exp`: on success the result is
/// `a^e mod m`.
#[verifier::external_body]
pub(crate) fn bn_mod_exp(a: &Big, e: &Big, m: &Big) -> (r: Result<
    Big,
    openssl::error::ErrorStack,
>)
    requires
        m@ > 0,
        fits_engine(a@),
        fits_engine(e@),
        fits_engine(m@),
    ensures
        r matches Ok(v) ==> v@ == pow(a@ as int, e@) % (m@ as int),
{
    let ab = openssl::bn::BigNum::from_slice(&a.bytes)?;
    let eb = openssl::bn::BigNum::from_slice(&e.bytes)?;
    let mb = openssl::bn::BigNum::from_slice(&m.bytes)?;
    let mut ctx = openssl::bn::BigNumContext::new()?;
    let mut v = openssl::bn::BigNum::new()?;
    v.mod_exp(&ab, &eb, &mb, &mut ctx)?;
    Ok(Big { bytes: v.to_vec() })
}

/// Relies on openssl's `BN_mod_mul`: on success the result is
/// `(a * b) mod m`.
#[verifier::external_body]
pub(crate) fn bn_mod_mul(a: &Big, b: &Big, m: &Big) -> (r: Result<
    Big,
    openssl::error::ErrorStack,
>)
    requires
        m@ > 0,
        fits_engine(a@),
        fits_engine(b@),
        fits_engine(m@),
    ensures
        r matches Ok(v) ==> v@ == (a@ * b@) % m@,
{
    let ab = openssl::bn::BigNum::from_slice(&a.bytes)?;
    let bb = openssl::bn::BigNum::from_slice(&b.bytes)?;
    let mb = openssl::bn::BigNum::from_slice(&m.bytes)?;
    let mut ctx = openssl::bn::BigNumContext::new()?;
    let mut v = openssl::bn::BigNum::new()?;
    v.mod_mul(&ab, &bb, &mb, &mut ctx)?;
    Ok(Big { bytes: v.to_vec() })
}

/// Relies on openssl's `BN_mod_add`: on success the result is
/// `(a + b) mod m`.
#[verifier::external_body]
pub(crate) fn bn_mod_add(a: &Big, b: &Big, m: &Big) -> (r: Result<
    Big,
    openssl::error::ErrorStack,
>)
    requires
        m@ > 0,
        fits_engine(a@),
        fits_engine(b@),
        fits_engine(m@),
    ensures
        r matches Ok(v) ==> v@ == (a@ + b@) % m@,
{
    let ab = openssl::bn::BigNum::from_slice(&a.bytes)?;
    let bb = openssl::bn::BigNum::from_slice(&b.bytes)?;
    let mb = openssl::bn::BigNum::from_slice(&m.bytes)?;
    let mut ctx = openssl::bn::BigNumContext::new()?;
    let mut v = openssl::bn::BigNum::new()?;
    v.mod_add(&ab, &bb, &mb, &mut ctx)?;
    Ok(Big { bytes: v.to_vec() })
}

/// Relies on openssl's `BN_sub`: on success the result is `a - b`
/// (the inputs here keep it nonnegative).
#[verifier::external_body]
pub(crate) fn bn_sub(a: &Big, b: &Big) -> (r: Result<Big, openssl::error::ErrorStack>)
    requires
        a@ >= b@,
        fits_engine(a@),
        fits_engine(b@),
    ensures
        r matches Ok(v) ==> v@ == a@ - b@,
{
    let ab = openssl::bn::BigNum::from_slice(&a.bytes)?;
    let bb = openssl::bn::BigNum::from_slice(&b.bytes)?;
    let mut v = openssl::bn::BigNum::new()?;
    v.checked_sub(&ab, &bb)?;
    Ok(Big { bytes: v.to_vec() })
}

/// Relies on openssl's `BN_div`: on success the result is `a / b`
/// rounded toward zero.
#[verifier::external_body]
pub(crate) fn bn_div(a: &Big, b: &Big) -> (r: Result<Big, openssl::error::ErrorStack>)
    requires
        b@ > 0,
        fits_engine(a@),
        fits_engine(b@),
    ensures
        r matches Ok(v) ==> v@ == a@ / b@,
{
    let ab = openssl::bn::BigNum::from_slice(&a.bytes)?;
    let bb = openssl::bn::BigNum::from_slice(&b.bytes)?;
    let mut ctx = openssl::bn::BigNumContext::new()?;
    let mut v = openssl::bn::BigNum::new()?;
    v.checked_div(&ab, &bb, &mut ctx)?;
    Ok(Big { bytes: v.to_vec() })
}

/// The digest that sha3's `Sha3_512` computes; it depends on the input
/// bytes alone.
pub uninterp spec fn sha3_512_of(input: Seq<u8>) -> Seq<u8>;

/// Relies on sha3's `Sha3_512`: a fresh hasher fed the input yields a
/// 64-byte digest determined by the input alone.
#[verifier::external_body]
pub(crate) fn sha3_512(input: &[u8]) -> (r: Vec<u8>)
    ensures
        r@ == sha3_512_of(input@),
        r@.len() == 64,
{
    let mut h = sha3::Sha3_512::new();
    h.update(input);
    h.finalize().to_vec()
}

} // verus!
