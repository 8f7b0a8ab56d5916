//! Schnorr-style signatures over a prime-order subgroup of the
//! multiplicative group modulo a safe prime.
//!
//! `KeyFactory::new` builds the group parameters, `generate_keys` derives
//! a keypair, `Key::sign` produces a commitment-challenge-response
//! signature, and `Key::verify` rebuilds the commitment and checks the
//! hash equality.

use vstd::prelude::*;
use vstd::arithmetic::power::{
    pow,
    lemma_pow_adds,
    lemma_pow_multiplies,
    lemma_pow_mod_noop,
    lemma1_pow,
};
use vstd::arithmetic::power2::{pow2, lemma_pow2_strictly_increases};
use vstd::arithmetic::div_mod::{
    lemma_fundamental_div_mod,
    lemma_small_mod,
    lemma_mod_bound,
    lemma_add_mod_noop,
    lemma_mul_mod_noop,
    lemma_mul_mod_noop_right,
};
use crate::bignum::{
    Big,
    nat_of_bytes,
    bytes_of_nat,
    fits_engine,
    lemma_nat_of_bytes_bound,
    concat_bytes,
    copy_bytes,
};
use crate::primes::{is_prime, lemma_odd_prime};
use crate::engine::{
    sha3_512,
    sha3_512_of,
    bn_generate_safe_prime,
    bn_rand_below,
    bn_mod_exp,
    bn_mod_mul,
    bn_mod_add,
    bn_sub,
    bn_div,
};

verus! {

/// The arithmetic or entropy provider failed.
#[derive(Debug)]
pub struct GenerationError;

/// Draws allowed when searching for a generator. Each draw fails only on
/// the identity, so even a handful is far more than ever needed.
const GENERATOR_DRAWS: u64 = 4096;

/// A message together with its signature: the hash-derived challenge and
/// the response proving knowledge of the private key.
pub struct SignedData {
    pub data: Vec<u8>,
    pub hash: Big,
    pub signature: Big,
}

/// Group parameters: a safe prime, the prime order of the subgroup of
/// squares, and a generator of that subgroup.
pub struct KeyFactory {
    pub prime1: Big,
    pub prime2: Big,
    pub generator: Big,
}

/// The private exponent, owned exclusively by its keypair: it has no
/// accessor and leaves only through the signing arithmetic. In
/// specifications it is visible as its numeric value alone.
pub struct SecretKey {
    key: Big,
}

impl View for SecretKey {
    type V = nat;

    closed spec fn view(&self) -> nat {
        self.key@
    }
}

/// A keypair bound to its group parameters.
pub struct Key {
    pub private_key: SecretKey,
    pub public_key: Big,
    pub prime1: Big,
    pub prime2: Big,
    pub generator: Big,
}

/// The group invariants: `p` and `q` are prime with `p = 2q + 1`, and `g`
/// generates the order-`q` subgroup — `g^q mod p == 1` with `g != 1`.
/// (`fits_engine` records that `p` is within the engine's size limit.)
pub open spec fn group_wf(p: nat, q: nat, g: nat) -> bool {
    &&& is_prime(p)
    &&& is_prime(q)
    &&& p == 2 * q + 1
    &&& g != 1
    &&& g < p
    &&& pow(g as int, q) % (p as int) == 1
    &&& fits_engine(p)
}

/// The challenge: the digest of the commitment's bytes followed by the
/// message, read as a big-endian integer. No reduction modulo the group
/// order is applied; signing and verification both use the raw value.
pub open spec fn challenge_of(commitment: nat, msg: Seq<u8>) -> nat {
    nat_of_bytes(sha3_512_of(bytes_of_nat(commitment) + msg))
}

/// What signing under private key `x` with nonce `k` produces: the
/// challenge `e` hashes the commitment `g^k mod p` with the message, and
/// the response is `s = (x * e + k) mod q`.
pub open spec fn sign_rel(
    p: nat,
    q: nat,
    g: nat,
    x: nat,
    msg: Seq<u8>,
    e: nat,
    s: nat,
    k: nat,
) -> bool {
    &&& k < q
    &&& e == challenge_of((pow(g as int, k) % (p as int)) as nat, msg)
    &&& s == (x * e + k) % q
}

/// What verification checks: the commitment rebuilt from the response and
/// the public key, `g^s * y^e mod p`, hashes back to the challenge.
pub open spec fn spec_verify(p: nat, g: nat, y: nat, msg: Seq<u8>, e: nat, s: nat) -> bool {
    challenge_of(((pow(g as int, s) * pow(y as int, e)) % (p as int)) as nat, msg) == e
}

impl KeyFactory {
    pub open spec fn wf(&self) -> bool {
        group_wf(self.prime1@, self.prime2@, self.generator@)
    }

    /// Build group parameters of the requested prime size: a safe prime
    /// `p` of exactly `prime_size` bits, the subgroup order
    /// `q = (p - 1) / 2`, and a generator found by squaring random draws
    /// until the result is a subgroup member other than the identity.
    ///
    /// Fails only when the arithmetic or entropy provider fails.
    pub fn new(prime_size: i32) -> (r: Result<KeyFactory, GenerationError>)
        requires
            prime_size >= 3,
        ensures
            r matches Ok(f) ==> {
                &&& f.wf()
                &&& pow2((prime_size - 1) as nat) <= f.prime1@ < pow2(prime_size as nat)
            },
    {
        let prime1 = match bn_generate_safe_prime(prime_size) {
            Ok(v) => v,
            Err(_) => return Err(GenerationError),
        };
        proof {
            lemma_pow2_strictly_increases(prime_size as nat, 8 * 0x7fff_ffff);
        }
        let one = Big::from_u64(1);
        let two = Big::from_u64(2);
        proof {
            lemma_pow2_strictly_increases(2, 8 * 0x7fff_ffff);
            vstd::arithmetic::power2::lemma2_to64();
        }
        let pm1 = match bn_sub(&prime1, &one) {
            Ok(v) => v,
            Err(_) => return Err(GenerationError),
        };
        let prime2 = match bn_div(&pm1, &two) {
            Ok(v) => v,
            Err(_) => return Err(GenerationError),
        };
        proof {
            assert(prime2@ == (prime1@ - 1) / 2);
            assert(is_prime(prime2@));
            // p is odd (q = 0 is not prime, so p != 2), hence p == 2q + 1.
            if prime1@ == 2 {
                assert((prime1@ - 1) / 2 == 0int);
            }
            lemma_odd_prime(prime1@);
            lemma_fundamental_div_mod(prime1@ as int, 2);
            lemma_fundamental_div_mod(prime1@ - 1, 2);
            assert(prime1@ == 2 * prime2@ + 1);
        }
        let mut draws: u64 = 0;
        while draws < GENERATOR_DRAWS
            invariant
                is_prime(prime1@),
                is_prime(prime2@),
                prime1@ == 2 * prime2@ + 1,
                fits_engine(prime1@),
                one@ == 1,
                two@ == 2,
                pow2((prime_size - 1) as nat) <= prime1@ < pow2(prime_size as nat),
            decreases GENERATOR_DRAWS - draws,
        {
            draws = draws + 1;
            let t = match bn_rand_below(&prime1) {
                Ok(v) => v,
                Err(_) => return Err(GenerationError),
            };
            let generator = match bn_mod_exp(&t, &two, &prime1) {
                Ok(v) => v,
                Err(_) => return Err(GenerationError),
            };
            proof {
                lemma_mod_bound(pow(t@ as int, 2), prime1@ as int);
            }
            if !generator.equals(&one) {
                let check = match bn_mod_exp(&generator, &prime2, &prime1) {
                    Ok(v) => v,
                    Err(_) => return Err(GenerationError),
                };
                if check.equals(&one) {
                    return Ok(KeyFactory { prime1, prime2, generator });
                }
            }
        }
        Err(GenerationError)
    }

    /// Derive a fresh keypair: draw the private key uniformly from
    /// `[0, q)` and set the public key to `g^(q - private) mod p`.
    ///
    /// Fails only when the arithmetic or entropy provider fails.
    pub fn generate_keys(&self) -> (r: Result<Key, GenerationError>)
        requires
            self.wf(),
        ensures
            r matches Ok(key) ==> {
                &&& key.wf()
                &&& key.prime1@ == self.prime1@
                &&& key.prime2@ == self.prime2@
                &&& key.generator@ == self.generator@
            },
    {
        let private_key = match bn_rand_below(&self.prime2) {
            Ok(v) => v,
            Err(_) => return Err(GenerationError),
        };
        let exp = match bn_sub(&self.prime2, &private_key) {
            Ok(v) => v,
            Err(_) => return Err(GenerationError),
        };
        let public_key = match bn_mod_exp(&self.generator, &exp, &self.prime1) {
            Ok(v) => v,
            Err(_) => return Err(GenerationError),
        };
        Ok(Key {
            private_key: SecretKey { key: private_key },
            public_key,
            prime1: self.prime1.duplicate(),
            prime2: self.prime2.duplicate(),
            generator: self.generator.duplicate(),
        })
    }
}

impl Key {
    /// The keypair invariants: well-formed group parameters, a private
    /// key below the group order, and
    /// `public_key == g^(q - private) mod p`.
    pub open spec fn wf(&self) -> bool {
        &&& group_wf(self.prime1@, self.prime2@, self.generator@)
        &&& self.private_key@ < self.prime2@
        &&& self.public_key@ == pow(
            self.generator@ as int,
            (self.prime2@ - self.private_key@) as nat,
        ) % (self.prime1@ as int)
    }

    /// Sign a message: draw a fresh nonce `k` from `[0, q)`, commit to
    /// `x = g^k mod p`, derive the challenge by hashing the commitment's
    /// bytes with the message, and respond with
    /// `(private * challenge + k) mod q`.
    ///
    /// Fails only when the arithmetic or entropy provider fails.
    pub fn sign(&self, message: &[u8]) -> (r: Result<SignedData, GenerationError>)
        requires
            self.wf(),
        ensures
            r matches Ok(sd) ==> {
                &&& sd.data@ == message@
                &&& fits_engine(sd.hash@)
                &&& fits_engine(sd.signature@)
                &&& exists|k: nat|
                    #[trigger] sign_rel(
                        self.prime1@,
                        self.prime2@,
                        self.generator@,
                        self.private_key@,
                        message@,
                        sd.hash@,
                        sd.signature@,
                        k,
                    )
            },
    {
        let nonce = match bn_rand_below(&self.prime2) {
            Ok(v) => v,
            Err(_) => return Err(GenerationError),
        };
        let x = match bn_mod_exp(&self.generator, &nonce, &self.prime1) {
            Ok(v) => v,
            Err(_) => return Err(GenerationError),
        };
        let input = concat_bytes(x.as_bytes(), message);
        let digest = sha3_512(input.as_slice());
        let hash = Big::from_bytes(digest.as_slice());
        proof {
            assert(hash@ == challenge_of(x@, message@));
            lemma_nat_of_bytes_bound(digest@);
            lemma_pow2_strictly_increases(8 * 64, 8 * 0x7fff_ffff);
        }
        let t = match bn_mod_mul(&self.private_key.key, &hash, &self.prime2) {
            Ok(v) => v,
            Err(_) => return Err(GenerationError),
        };
        let signature = match bn_mod_add(&t, &nonce, &self.prime2) {
            Ok(v) => v,
            Err(_) => return Err(GenerationError),
        };
        let sd = SignedData { data: copy_bytes(message), hash, signature };
        proof {
            let q = self.prime2@ as int;
            let xe = self.private_key@ * sd.hash@;
            lemma_small_mod(nonce@, self.prime2@);
            lemma_add_mod_noop(xe as int, nonce@ as int, q);
            assert(sd.signature@ == (xe + nonce@) % self.prime2@);
            lemma_mod_bound((xe + nonce@) as int, q);
            assert(sign_rel(
                self.prime1@,
                self.prime2@,
                self.generator@,
                self.private_key@,
                message@,
                sd.hash@,
                sd.signature@,
                nonce@,
            ));
        }
        Ok(sd)
    }

    /// Verify a signature against a public key: rebuild the commitment as
    /// `g^response * public^challenge mod p`, hash it with the message,
    /// and compare with the challenge. Returns `false` for an invalid
    /// signature; fails only when the arithmetic provider fails.
    pub fn verify(&self, message: &SignedData, pub_key: &Big) -> (r: Result<
        bool,
        GenerationError,
    >)
        requires
            self.wf(),
            fits_engine(pub_key@),
            fits_engine(message.hash@),
            fits_engine(message.signature@),
        ensures
            r matches Ok(b) ==> b == spec_verify(
                self.prime1@,
                self.generator@,
                pub_key@,
                message.data@,
                message.hash@,
                message.signature@,
            ),
    {
        let x1 = match bn_mod_exp(&self.generator, &message.signature, &self.prime1) {
            Ok(v) => v,
            Err(_) => return Err(GenerationError),
        };
        let x2 = match bn_mod_exp(pub_key, &message.hash, &self.prime1) {
            Ok(v) => v,
            Err(_) => return Err(GenerationError),
        };
        let x = match bn_mod_mul(&x1, &x2, &self.prime1) {
            Ok(v) => v,
            Err(_) => return Err(GenerationError),
        };
        proof {
            let pi = self.prime1@ as int;
            let gs = pow(self.generator@ as int, message.signature@);
            let ye = pow(pub_key@ as int, message.hash@);
            lemma_mod_bound(gs, pi);
            lemma_mod_bound(ye, pi);
            lemma_mul_mod_noop(gs, ye, pi);
            assert(x@ == ((gs * ye) % pi) as nat);
        }
        let input = concat_bytes(x.as_bytes(), message.data.as_slice());
        let digest = sha3_512(input.as_slice());
        let rebuilt = Big::from_bytes(digest.as_slice());
        Ok(rebuilt.equals(&message.hash))
    }
}

/// Law: a signature honestly produced under group parameters `(p, q, g)`,
/// private key `x` and nonce `k` verifies against the matching public key
/// `g^(q - x) mod p`, for every message and every challenge value.
pub proof fn lemma_sign_verifies(
    p: nat,
    q: nat,
    g: nat,
    x: nat,
    msg: Seq<u8>,
    e: nat,
    s: nat,
    k: nat,
)
    requires
        group_wf(p, q, g),
        x < q,
        sign_rel(p, q, g, x, msg, e, s, k),
    ensures
        spec_verify(p, g, (pow(g as int, (q - x) as nat) % (p as int)) as nat, msg, e, s),
{
    let pi = p as int;
    let gi = g as int;
    let qx = (q - x) as nat;
    let y = (pow(gi, qx) % pi) as nat;
    lemma_mod_bound(pow(gi, qx), pi);

    // The verifier's exponent product collapses to one power of g.
    lemma_pow_mod_noop(pow(gi, qx), e, pi);
    lemma_pow_multiplies(gi, qx, e);
    lemma_mul_mod_noop_right(pow(gi, s), pow(y as int, e), pi);
    lemma_mul_mod_noop_right(pow(gi, s), pow(gi, qx * e), pi);
    assert((pow(gi, s) * pow(y as int, e)) % pi == (pow(gi, s) * pow(gi, qx * e)) % pi);
    lemma_pow_adds(gi, s, qx * e);
    assert((pow(gi, s) * pow(gi, qx * e)) % pi == pow(gi, (s + qx * e) as nat) % pi);

    // The exponent s + (q - x) * e equals k + q * u for some u >= 0.
    let n = (x * e + k) as int;
    let t = n / (q as int);
    lemma_fundamental_div_mod(n, q as int);
    lemma_mod_bound(n, q as int);
    assert(n == q * t + s);
    assert(n < q * (e + 1)) by (nonlinear_arith)
        requires
            n == x * e + k,
            x < q,
            k < q,
    ;
    assert(t <= e) by (nonlinear_arith)
        requires
            n == q * t + s,
            s >= 0,
            n < q * (e + 1),
            q > 0,
    ;
    assert(t >= 0) by (nonlinear_arith)
        requires
            n == q * t + s,
            s < q,
            n >= 0,
            q > 0,
    ;
    let u = (e - t) as nat;
    assert(s + qx * e == k + q * u) by (nonlinear_arith)
        requires
            x * e + k == q * t + s,
            qx == q - x,
            u == e - t,
            x <= q,
            0 <= t <= e,
    ;

    // g^(k + q*u) mod p == g^k mod p, since g^q mod p == 1.
    lemma_pow_adds(gi, k, q * u);
    lemma_pow_multiplies(gi, q, u);
    lemma_mul_mod_noop_right(pow(gi, k), pow(gi, q * u), pi);
    lemma_pow_mod_noop(pow(gi, q), u, pi);
    lemma1_pow(u);
    lemma_small_mod(1, p);
    assert(pow(gi, q * u) % pi == 1);
    assert(pow(gi, (k + q * u) as nat) % pi == (pow(gi, k) * 1) % pi);
    assert((pow(gi, s) * pow(y as int, e)) % pi == pow(gi, k) % pi);
}

/// Law: for a well-formed keypair, every signature `sign` can have
/// produced verifies against the keypair's own public key.
pub proof fn lemma_correctness(key: Key, sd: SignedData)
    requires
        key.wf(),
        exists|k: nat|
            #[trigger] sign_rel(
                key.prime1@,
                key.prime2@,
                key.generator@,
                key.private_key@,
                sd.data@,
                sd.hash@,
                sd.signature@,
                k,
            ),
    ensures
        spec_verify(
            key.prime1@,
            key.generator@,
            key.public_key@,
            sd.data@,
            sd.hash@,
            sd.signature@,
        ),
{
    let k = choose|k: nat|
        sign_rel(
            key.prime1@,
            key.prime2@,
            key.generator@,
            key.private_key@,
            sd.data@,
            sd.hash@,
            sd.signature@,
            k,
        );
    lemma_sign_verifies(
        key.prime1@,
        key.prime2@,
        key.generator@,
        key.private_key@,
        sd.data@,
        sd.hash@,
        sd.signature@,
        k,
    );
}

/// Law: verification is deterministic — two results obtained from the
/// same inputs are equal, there being no hidden randomness in it.
pub proof fn lemma_verify_deterministic(
    p: nat,
    g: nat,
    y: nat,
    msg: Seq<u8>,
    e: nat,
    s: nat,
    r1: bool,
    r2: bool,
)
    requires
        r1 == spec_verify(p, g, y, msg, e, s),
        r2 == spec_verify(p, g, y, msg, e, s),
    ensures
        r1 == r2,
{
}

} // verus!
