//! Arbitrary-precision natural numbers, held as minimal big-endian bytes.
//!
//! The mathematical value of a byte string is given by `nat_of_bytes`; a
//! `Big` keeps the minimal (no leading zero) form, so equal values have
//! equal bytes.

use vstd::prelude::*;
use vstd::arithmetic::div_mod::{lemma_fundamental_div_mod, lemma_fundamental_div_mod_converse};
use vstd::arithmetic::power2::{pow2, lemma_pow2_adds, lemma2_to64};

verus! {

/// Values the arithmetic engine accepts: the minimal byte form fits in an
/// `i32` length. Every value this library computes stays far below it.
pub open spec fn fits_engine(n: nat) -> bool {
    n < pow2(8 * 0x7fff_ffff)
}

/// The natural number denoted by a big-endian byte string.
pub open spec fn nat_of_bytes(s: Seq<u8>) -> nat
    decreases s.len(),
{
    if s.len() == 0 {
        0
    } else {
        (nat_of_bytes(s.drop_last()) * 256 + s.last()) as nat
    }
}

/// Minimal big-endian form: no leading zero byte (zero is the empty string).
pub open spec fn is_minimal(s: Seq<u8>) -> bool {
    s.len() == 0 || s[0] != 0
}

/// The minimal big-endian byte string denoting a natural number.
pub open spec fn bytes_of_nat(n: nat) -> Seq<u8>
    decreases n,
{
    if n == 0 {
        Seq::empty()
    } else {
        bytes_of_nat(n / 256).push((n % 256) as u8)
    }
}

/// `bytes_of_nat` is a right inverse of `nat_of_bytes`, and always minimal.
pub proof fn lemma_bytes_of_nat_ok(n: nat)
    ensures
        nat_of_bytes(bytes_of_nat(n)) == n,
        is_minimal(bytes_of_nat(n)),
    decreases n,
{
    if n != 0 {
        lemma_bytes_of_nat_ok(n / 256);
        let d = bytes_of_nat(n / 256);
        let s = d.push((n % 256) as u8);
        assert(s.drop_last() =~= d);
        lemma_fundamental_div_mod(n as int, 256);
        if n / 256 == 0 {
            assert(s[0] == (n % 256) as u8);
        } else {
            assert(d.len() > 0);
            assert(s[0] == d[0]);
        }
    }
}

/// A nonempty minimal byte string denotes a positive number.
pub proof fn lemma_minimal_positive(s: Seq<u8>)
    requires
        is_minimal(s),
        s.len() > 0,
    ensures
        nat_of_bytes(s) > 0,
    decreases s.len(),
{
    if s.len() == 1 {
        assert(nat_of_bytes(s) == nat_of_bytes(s.drop_last()) * 256 + s[0]);
    } else {
        let d = s.drop_last();
        assert(d[0] == s[0]);
        lemma_minimal_positive(d);
    }
}

/// On minimal byte strings, `bytes_of_nat` is also a left inverse of
/// `nat_of_bytes`: the minimal form of a value is unique.
pub proof fn lemma_minimal_round_trip(s: Seq<u8>)
    requires
        is_minimal(s),
    ensures
        bytes_of_nat(nat_of_bytes(s)) == s,
    decreases s.len(),
{
    if s.len() == 0 {
        assert(bytes_of_nat(0) =~= s);
    } else {
        let d = s.drop_last();
        let b = s.last();
        let n = nat_of_bytes(s);
        assert(n == nat_of_bytes(d) * 256 + b);
        lemma_fundamental_div_mod_converse(n as int, 256, nat_of_bytes(d) as int, b as int);
        assert(n / 256 == nat_of_bytes(d));
        assert(n % 256 == b);
        if s.len() == 1 {
            assert(d.len() == 0);
            assert(b == s[0]);
            assert(n == b);
        } else {
            assert(d[0] == s[0]);
            lemma_minimal_positive(d);
        }
        assert(n > 0);
        lemma_minimal_round_trip(d);
        assert(bytes_of_nat(n) == bytes_of_nat(nat_of_bytes(d)).push((n % 256) as u8));
        assert(bytes_of_nat(n) =~= s);
    }
}

/// Two minimal byte strings with the same value are the same bytes.
pub proof fn lemma_minimal_injective(a: Seq<u8>, b: Seq<u8>)
    requires
        is_minimal(a),
        is_minimal(b),
        nat_of_bytes(a) == nat_of_bytes(b),
    ensures
        a == b,
{
    lemma_minimal_round_trip(a);
    lemma_minimal_round_trip(b);
}

/// A byte string of length `k` denotes a value below `2^(8k)`.
pub proof fn lemma_nat_of_bytes_bound(s: Seq<u8>)
    ensures
        nat_of_bytes(s) < pow2(8 * s.len()),
    decreases s.len(),
{
    lemma2_to64();
    if s.len() > 0 {
        let d = s.drop_last();
        lemma_nat_of_bytes_bound(d);
        lemma_pow2_adds(8 * d.len(), 8);
        assert(nat_of_bytes(d) * 256 <= (pow2(8 * d.len()) - 1) * 256) by (nonlinear_arith)
            requires
                nat_of_bytes(d) <= pow2(8 * d.len()) - 1,
        ;
    }
}

/// Dropping one leading zero byte leaves the value unchanged.
proof fn lemma_drop_leading_zero(s: Seq<u8>)
    requires
        s.len() > 0,
        s[0] == 0,
    ensures
        nat_of_bytes(s.subrange(1, s.len() as int)) == nat_of_bytes(s),
    decreases s.len(),
{
    if s.len() == 1 {
        assert(nat_of_bytes(s) == nat_of_bytes(s.drop_last()) * 256 + s[0]);
    } else {
        let d = s.drop_last();
        let t = s.subrange(1, s.len() as int);
        assert(t.drop_last() =~= d.subrange(1, d.len() as int));
        assert(t.last() == s.last());
        lemma_drop_leading_zero(d);
    }
}

/// Dropping any all-zero prefix leaves the value unchanged.
pub proof fn lemma_drop_zero_prefix(s: Seq<u8>, i: int)
    requires
        0 <= i <= s.len(),
        forall|j: int| 0 <= j < i ==> s[j] == 0,
    ensures
        nat_of_bytes(s.subrange(i, s.len() as int)) == nat_of_bytes(s),
    decreases i,
{
    if i == 0 {
        assert(s.subrange(0, s.len() as int) =~= s);
    } else {
        lemma_drop_leading_zero(s);
        let t = s.subrange(1, s.len() as int);
        lemma_drop_zero_prefix(t, i - 1);
        assert(t.subrange(i - 1, t.len() as int) =~= s.subrange(i, s.len() as int));
    }
}

/// An arbitrary-precision natural number. The bytes are the value in
/// big-endian order with no leading zero; zero is the empty vector.
pub struct Big {
    pub(crate) bytes: Vec<u8>,
}

impl View for Big {
    type V = nat;

    closed spec fn view(&self) -> nat {
        nat_of_bytes(self.bytes@)
    }
}

impl Big {
    #[verifier::type_invariant]
    pub closed spec fn wf(&self) -> bool {
        is_minimal(self.bytes@)
    }

    /// The minimal big-endian bytes of the value, as a borrowed slice.
    pub fn as_bytes(&self) -> (r: &[u8])
        ensures
            r@ == bytes_of_nat(self@),
    {
        proof {
            use_type_invariant(self);
            lemma_minimal_round_trip(self.bytes@);
        }
        self.bytes.as_slice()
    }

    /// The value of a big-endian byte string; leading zeroes are dropped.
    pub fn from_bytes(v: &[u8]) -> (r: Big)
        ensures
            r@ == nat_of_bytes(v@),
    {
        let mut i: usize = 0;
        while i < v.len() && v[i] == 0
            invariant
                0 <= i <= v@.len(),
                forall|j: int| 0 <= j < i ==> v@[j] == 0,
            decreases v@.len() - i,
        {
            i = i + 1;
        }
        let mut bytes: Vec<u8> = Vec::new();
        let mut j: usize = i;
        while j < v.len()
            invariant
                i <= j <= v@.len(),
                bytes@ =~= v@.subrange(i as int, j as int),
            decreases v@.len() - j,
        {
            bytes.push(v[j]);
            j = j + 1;
        }
        proof {
            assert(bytes@ =~= v@.subrange(i as int, v@.len() as int));
            lemma_drop_zero_prefix(v@, i as int);
        }
        Big { bytes }
    }

    /// The value of a machine word.
    pub fn from_u64(v: u64) -> (r: Big)
        ensures
            r@ == v as nat,
    {
        let bytes = bytes_of_u64(v);
        proof {
            lemma_bytes_of_nat_ok(v as nat);
        }
        Big { bytes }
    }

    /// The minimal big-endian bytes of the value.
    pub fn to_bytes(&self) -> (r: Vec<u8>)
        ensures
            r@ == bytes_of_nat(self@),
    {
        proof {
            use_type_invariant(self);
            lemma_minimal_round_trip(self.bytes@);
        }
        copy_bytes(self.bytes.as_slice())
    }

    /// A copy with the same value.
    pub fn duplicate(&self) -> (r: Big)
        ensures
            r@ == self@,
    {
        proof {
            use_type_invariant(self);
        }
        Big { bytes: copy_bytes(self.bytes.as_slice()) }
    }

    /// Value equality.
    pub fn equals(&self, other: &Big) -> (r: bool)
        ensures
            r == (self@ == other@),
    {
        proof {
            use_type_invariant(self);
            use_type_invariant(other);
            if self@ == other@ {
                lemma_minimal_injective(self.bytes@, other.bytes@);
            }
        }
        bytes_eq(&self.bytes, &other.bytes)
    }

    /// Whether the value is zero.
    pub fn is_zero(&self) -> (r: bool)
        ensures
            r == (self@ == 0),
    {
        proof {
            use_type_invariant(self);
            if self.bytes@.len() > 0 {
                lemma_minimal_positive(self.bytes@);
            }
        }
        self.bytes.len() == 0
    }
}

/// The minimal big-endian bytes of a machine word.
fn bytes_of_u64(v: u64) -> (r: Vec<u8>)
    ensures
        r@ == bytes_of_nat(v as nat),
    decreases v,
{
    if v == 0 {
        Vec::new()
    } else {
        let mut r = bytes_of_u64(v / 256);
        r.push((v % 256) as u8);
        r
    }
}

/// A fresh copy of a byte string.
pub(crate) fn copy_bytes(v: &[u8]) -> (r: Vec<u8>)
    ensures
        r@ == v@,
{
    let mut r: Vec<u8> = Vec::new();
    let mut i: usize = 0;
    while i < v.len()
        invariant
            0 <= i <= v@.len(),
            r@ =~= v@.subrange(0, i as int),
        decreases v@.len() - i,
    {
        r.push(v[i]);
        i = i + 1;
    }
    proof {
        assert(r@ =~= v@);
    }
    r
}

/// Byte-for-byte equality of two vectors.
fn bytes_eq(a: &Vec<u8>, b: &Vec<u8>) -> (r: bool)
    ensures
        r == (a@ == b@),
{
    if a.len() != b.len() {
        return false;
    }
    let mut i: usize = 0;
    while i < a.len()
        invariant
            a@.len() == b@.len(),
            0 <= i <= a@.len(),
            forall|j: int| 0 <= j < i ==> a@[j] == b@[j],
        decreases a@.len() - i,
    {
        if a[i] != b[i] {
            return false;
        }
        i = i + 1;
    }
    proof {
        assert(a@ =~= b@);
    }
    true
}

/// Concatenation of two byte strings.
pub(crate) fn concat_bytes(a: &[u8], b: &[u8]) -> (r: Vec<u8>)
    ensures
        r@ == a@ + b@,
{
    let mut r: Vec<u8> = Vec::new();
    let mut i: usize = 0;
    while i < a.len()
        invariant
            0 <= i <= a@.len(),
            r@ =~= a@.subrange(0, i as int),
        decreases a@.len() - i,
    {
        r.push(a[i]);
        i = i + 1;
    }
    let mut j: usize = 0;
    while j < b.len()
        invariant
            0 <= j <= b@.len(),
            r@ =~= a@ + b@.subrange(0, j as int),
        decreases b@.len() - j,
    {
        r.push(b[j]);
        j = j + 1;
    }
    proof {
        assert(r@ =~= a@ + b@);
    }
    r
}

} // verus!
