use schnorr::{Big, KeyFactory};
use openssl::bn::{BigNum, BigNumContext};
use sha3::{Digest, Sha3_512};

/// Big-endian increment by one.
fn incremented(bytes: &[u8]) -> Vec<u8> {
    let mut v = bytes.to_vec();
    for i in (0..v.len()).rev() {
        if v[i] == 0xff {
            v[i] = 0;
        } else {
            v[i] += 1;
            return v;
        }
    }
    let mut w = vec![1u8];
    w.extend_from_slice(&v);
    w
}

fn to_bn(b: &Big) -> BigNum {
    BigNum::from_slice(&b.to_bytes()).unwrap()
}

#[test]
fn end_to_end_roundtrip() {
    let factory = KeyFactory::new(256).unwrap();
    let alice = factory.generate_keys().unwrap();
    let bob = factory.generate_keys().unwrap();

    let message = b"Hello World";
    let signed = alice.sign(message).unwrap();

    assert!(bob.verify(&signed, &alice.public_key).unwrap());
    assert!(!bob.verify(&signed, &bob.public_key).unwrap());
}

#[test]
fn tampered_message_rejected() {
    let factory = KeyFactory::new(128).unwrap();
    let key = factory.generate_keys().unwrap();
    let message = b"Hello World";
    let signed = key.sign(message).unwrap();
    assert!(key.verify(&signed, &key.public_key).unwrap());

    for i in 0..message.len() {
        let mut tampered = key.sign(message).unwrap();
        tampered.data[i] ^= 0x01;
        assert!(!key.verify(&tampered, &key.public_key).unwrap());
    }
}

#[test]
fn tampered_challenge_rejected() {
    let factory = KeyFactory::new(128).unwrap();
    let key = factory.generate_keys().unwrap();
    let mut signed = key.sign(b"challenge tamper").unwrap();
    signed.hash = Big::from_bytes(&incremented(&signed.hash.to_bytes()));
    assert!(!key.verify(&signed, &key.public_key).unwrap());
}

#[test]
fn tampered_response_rejected() {
    let factory = KeyFactory::new(128).unwrap();
    let key = factory.generate_keys().unwrap();
    let mut signed = key.sign(b"response tamper").unwrap();
    signed.signature = Big::from_bytes(&incremented(&signed.signature.to_bytes()));
    assert!(!key.verify(&signed, &key.public_key).unwrap());
}

#[test]
fn wrong_key_rejected() {
    let factory = KeyFactory::new(128).unwrap();
    let k1 = factory.generate_keys().unwrap();
    let k2 = factory.generate_keys().unwrap();
    let signed = k1.sign(b"addressed to nobody").unwrap();
    assert!(k1.verify(&signed, &k1.public_key).unwrap());
    assert!(!k1.verify(&signed, &k2.public_key).unwrap());
}

#[test]
fn nonces_are_fresh() {
    let factory = KeyFactory::new(128).unwrap();
    let key = factory.generate_keys().unwrap();
    let message = b"same message twice";
    let s1 = key.sign(message).unwrap();
    let s2 = key.sign(message).unwrap();
    let same_hash = s1.hash.equals(&s2.hash);
    let same_sig = s1.signature.equals(&s2.signature);
    assert!(!(same_hash && same_sig));
}

#[test]
fn group_invariants_hold() {
    let factory = KeyFactory::new(128).unwrap();
    let p = to_bn(&factory.prime1);
    let q = to_bn(&factory.prime2);
    let g = to_bn(&factory.generator);
    let one = BigNum::from_u32(1).unwrap();
    let two = BigNum::from_u32(2).unwrap();
    let mut ctx = BigNumContext::new().unwrap();

    assert_eq!(p.num_bits(), 128);
    assert!(p.is_prime(64, &mut ctx).unwrap());
    assert!(q.is_prime(64, &mut ctx).unwrap());

    // p == 2q + 1
    let mut qq = BigNum::new().unwrap();
    qq.checked_mul(&q, &two, &mut ctx).unwrap();
    let mut expect_p = BigNum::new().unwrap();
    expect_p.checked_add(&qq, &one).unwrap();
    assert_eq!(p, expect_p);

    // g != 1 and g^q mod p == 1
    assert_ne!(g, one);
    let mut gq = BigNum::new().unwrap();
    gq.mod_exp(&g, &q, &p, &mut ctx).unwrap();
    assert_eq!(gq, one);
}

#[test]
fn public_key_lies_in_subgroup() {
    let factory = KeyFactory::new(128).unwrap();
    let key = factory.generate_keys().unwrap();
    let p = to_bn(&factory.prime1);
    let q = to_bn(&factory.prime2);
    let y = to_bn(&key.public_key);
    let one = BigNum::from_u32(1).unwrap();
    let mut ctx = BigNumContext::new().unwrap();

    let mut yq = BigNum::new().unwrap();
    yq.mod_exp(&y, &q, &p, &mut ctx).unwrap();
    assert_eq!(yq, one);
}

#[test]
fn verification_is_deterministic() {
    let factory = KeyFactory::new(128).unwrap();
    let key = factory.generate_keys().unwrap();
    let signed = key.sign(b"idempotent check").unwrap();
    let r1 = key.verify(&signed, &key.public_key).unwrap();
    let r2 = key.verify(&signed, &key.public_key).unwrap();
    assert_eq!(r1, r2);

    let mut wrong = key.sign(b"idempotent check").unwrap();
    wrong.data[0] ^= 0xff;
    let w1 = key.verify(&wrong, &key.public_key).unwrap();
    let w2 = key.verify(&wrong, &key.public_key).unwrap();
    assert_eq!(w1, w2);
}

#[test]
fn verify_recomputes_the_reference_hash() {
    // A hand-built signature: verification must accept it exactly when its
    // challenge equals the SHA3-512 digest, computed here independently, of
    // the rebuilt commitment's bytes followed by the message.
    // With public key 1 the rebuilt commitment is g^response mod p, whatever
    // the challenge says, so a valid challenge can be computed here directly.
    let factory = KeyFactory::new(128).unwrap();
    let key = factory.generate_keys().unwrap();
    let p = to_bn(&factory.prime1);
    let g = to_bn(&factory.generator);
    let one = Big::from_u64(1);
    let mut ctx = BigNumContext::new().unwrap();

    let message = b"known answer";
    let response = Big::from_u64(0x0fed_cba9_8765_4321);

    let s = to_bn(&response);
    let mut x = BigNum::new().unwrap();
    x.mod_exp(&g, &s, &p, &mut ctx).unwrap();

    let mut hasher = Sha3_512::new();
    hasher.update(x.to_vec());
    hasher.update(message);
    let digest = hasher.finalize();

    let good = schnorr::SignedData {
        data: message.to_vec(),
        hash: Big::from_bytes(&digest),
        signature: response,
    };
    assert!(key.verify(&good, &one).unwrap());

    let bad = schnorr::SignedData {
        data: message.to_vec(),
        hash: Big::from_u64(0x1234_5678_9abc_def0),
        signature: Big::from_u64(0x0fed_cba9_8765_4321),
    };
    assert!(!key.verify(&bad, &one).unwrap());
}

#[test]
fn big_round_trips() {
    assert_eq!(Big::from_u64(0x1234).to_bytes(), vec![0x12, 0x34]);
    assert_eq!(Big::from_u64(0).to_bytes(), Vec::<u8>::new());
    assert_eq!(Big::from_u64(255).to_bytes(), vec![0xff]);
    assert_eq!(Big::from_u64(256).to_bytes(), vec![0x01, 0x00]);

    let stripped = Big::from_bytes(&[0x00, 0x00, 0x12, 0x34]);
    assert_eq!(stripped.to_bytes(), vec![0x12, 0x34]);
    assert!(stripped.equals(&Big::from_u64(0x1234)));
    assert!(!stripped.equals(&Big::from_u64(0x1235)));
    assert!(Big::from_bytes(&[0x00, 0x00]).is_zero());
    assert!(!Big::from_u64(1).is_zero());

    let copy = stripped.duplicate();
    assert!(copy.equals(&stripped));
    assert_eq!(stripped.as_bytes(), &[0x12, 0x34]);
}
