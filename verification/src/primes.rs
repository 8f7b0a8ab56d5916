//! Primality, stated mathematically.

use vstd::prelude::*;

verus! {

/// `n` is a prime number.
pub open spec fn is_prime(n: nat) -> bool {
    n >= 2 && forall|d: nat| 1 < d < n ==> #[trigger] (n % d) != 0
}

/// Every prime other than 2 is odd.
pub proof fn lemma_odd_prime(n: nat)
    requires
        is_prime(n),
        n != 2,
    ensures
        n % 2 == 1,
{
    if n % 2 == 0 {
        assert(1 < 2 < n);
        assert(n % 2 != 0);
    }
}

} // verus!
