//! The Collatz recurrence and an iterative, overflow-checked step counter.
use vstd::prelude::*;

verus! {

/// One application of the Collatz rule: halve an even value, map an odd one to `3n + 1`.
pub open spec fn step(n: nat) -> nat {
    if n % 2 == 0 {
        n / 2
    } else {
        3 * n + 1
    }
}

/// The value reached from `n` after `k` applications of the rule.
pub open spec fn iterate(n: nat, k: nat) -> nat
    decreases k,
{
    if k == 0 {
        n
    } else {
        step(iterate(n, (k - 1) as nat))
    }
}

/// `k` is the Collatz length of `n`: the trajectory first reaches 1 after `k` steps.
pub open spec fn is_collatz_length(n: nat, k: nat) -> bool {
    &&& iterate(n, k) == 1
    &&& forall|j: nat| j < k ==> #[trigger] iterate(n, j) != 1
}

/// The trajectory of `n`, up to and including step `k`, stays within `u128`.
pub open spec fn trajectory_fits(n: nat, k: nat) -> bool {
    forall|j: nat| j <= k ==> #[trigger] iterate(n, j) <= u128::MAX
}

/// Counting from `start`, the length `k` of `n` can be reported as a `u128`:
/// the trajectory stays within `u128` and the total `start + k` does too.
pub open spec fn reportable(n: nat, start: nat, k: nat) -> bool {
    &&& is_collatz_length(n, k)
    &&& trajectory_fits(n, k)
    &&& start + k <= u128::MAX
}

/// The count that a step count starts from: the given one, or zero.
pub open spec fn base(c: Option<u128>) -> nat {
    match c {
        Some(b) => b as nat,
        None => 0,
    }
}

/// The Collatz length is unique when it exists.
pub proof fn lemma_length_unique(n: nat, k1: nat, k2: nat)
    requires
        is_collatz_length(n, k1),
        is_collatz_length(n, k2),
    ensures
        k1 == k2,
{
    if k1 < k2 {
        assert(iterate(n, k1) != 1);
    } else if k2 < k1 {
        assert(iterate(n, k2) != 1);
    }
}

/// Counts the Collatz steps from `i` down to 1 and adds them to the running count
/// `c` (zero when absent). Returns `None` exactly when the answer cannot be
/// computed in `u128`: a value on the way exceeds `u128::MAX`, or the total does.
pub fn collatz(i: u128, c: Option<u128>) -> (r: Option<u128>)
    requires
        i >= 1,
    ensures
        r matches Some(total) ==> total >= base(c) && reportable(
            i as nat,
            base(c),
            (total - base(c)) as nat,
        ),
        r is None ==> forall|k: nat| !#[trigger] reportable(i as nat, base(c), k),
{
    let start: u128 = match c {
        Some(b) => b,
        None => 0,
    };
    let mut cur: u128 = i;
    let mut count: u128 = start;
    while cur != 1
        invariant
            start == base(c),
            start <= count,
            cur as nat == iterate(i as nat, (count - start) as nat),
            trajectory_fits(i as nat, (count - start) as nat),
            forall|j: nat| j < count - start ==> #[trigger] iterate(i as nat, j) != 1,
        decreases u128::MAX - count,
    {
        let ghost steps: nat = (count - start) as nat;
        if count == u128::MAX {
            proof {
                assert forall|k: nat| !reportable(i as nat, start as nat, k) by {
                    if reportable(i as nat, start as nat, k) && k < steps {
                        assert(iterate(i as nat, k) != 1);
                    }
                }
            }
            return None;
        }
        let next: u128;
        if cur % 2 == 0 {
            next = cur / 2;
        } else {
            if cur > (u128::MAX - 1) / 3 {
                proof {
                    assert(iterate(i as nat, steps + 1) == 3 * cur + 1);
                    assert forall|k: nat| !reportable(i as nat, start as nat, k) by {
                        if reportable(i as nat, start as nat, k) {
                            if k <= steps {
                                if k < steps {
                                    assert(iterate(i as nat, k) != 1);
                                }
                            } else {
                                assert(iterate(i as nat, steps + 1) <= u128::MAX);
                            }
                        }
                    }
                }
                return None;
            }
            next = 3 * cur + 1;
        }
        proof {
            assert(next as nat == iterate(i as nat, steps + 1));
            assert forall|j: nat| j <= steps + 1 implies #[trigger] iterate(i as nat, j) <= u128::MAX by {
                if j < steps + 1 {
                    assert(iterate(i as nat, j) <= u128::MAX);
                }
            }
        }
        cur = next;
        count = count + 1;
    }
    proof {
        let steps: nat = (count - start) as nat;
        assert(is_collatz_length(i as nat, steps));
    }
    Some(count)
}

} // verus!
