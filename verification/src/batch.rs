//! The sizes of batches: a batch holds a power of two many proofs, and at least two.
use vstd::prelude::*;

verus! {

/// Whether `n` is a power of two.
pub open spec fn is_power_of_two(n: nat) -> bool
    decreases n,
{
    n == 1 || (n >= 2 && n % 2 == 0 && is_power_of_two(n / 2))
}

/// Whether a batch may hold `n` proofs: at least two, and a power of two many.
pub open spec fn valid_batch_size(n: nat) -> bool {
    n >= 2 && is_power_of_two(n)
}

/// Whether `n` is a power of two.
pub fn check_power_of_two(n: usize) -> (r: bool)
    ensures
        r == is_power_of_two(n as nat),
{
    if n == 0 {
        return false;
    }
    let mut m = n;
    while m % 2 == 0
        invariant
            m >= 1,
            is_power_of_two(m as nat) == is_power_of_two(n as nat),
        decreases m,
    {
        m = m / 2;
    }
    m == 1
}

/// Whether a batch may hold `n` proofs.
pub fn check_batch_size(n: usize) -> (r: bool)
    ensures
        r == valid_batch_size(n as nat),
{
    n >= 2 && check_power_of_two(n)
}

/// Half of a power of two above one is a power of two, and twice the half is the whole.
pub proof fn lemma_half_power_of_two(n: nat)
    requires
        is_power_of_two(n),
        n > 1,
    ensures
        is_power_of_two(n / 2),
        n / 2 + n / 2 == n,
        n / 2 < n,
        n / 2 >= 1,
{
}

} // verus!
