//! Walking upwards through a finite range of numbers, going round at the
//! top, and why such a walk leaves a finite set of taken numbers.

use vstd::prelude::*;
use vstd::arithmetic::div_mod::{
    lemma_fundamental_div_mod, lemma_mod_multiples_vanish, lemma_mod_self_0, lemma_small_mod,
};

verus! {

/// The number `steps` places after `x` in the range from zero up to, not
/// including, `size`, going round at the top.
pub open spec fn wrap_add(x: int, steps: nat, size: int) -> int {
    (x + steps) % size
}

/// No step stays in place; one step from the top goes round to zero, and
/// elsewhere it adds one.
pub proof fn lemma_wrap_one(x: int, size: int)
    requires
        0 <= x < size,
    ensures
        wrap_add(x, 0, size) == x,
        wrap_add(x, 1, size) == (if x + 1 == size {
            0
        } else {
            x + 1
        }),
{
    lemma_small_mod(x as nat, size as nat);
    if x + 1 == size {
        lemma_mod_self_0(size);
    } else {
        lemma_small_mod((x + 1) as nat, size as nat);
    }
}

/// Two walks in a row are one walk of their joint length.
pub proof fn lemma_wrap_add(x: int, a: nat, b: nat, size: int)
    requires
        0 < size,
    ensures
        wrap_add(wrap_add(x, a, size), b, size) == wrap_add(x, a + b, size),
        0 <= wrap_add(x, a, size) < size,
{
    let y = x + a;
    lemma_fundamental_div_mod(y, size);
    lemma_mod_multiples_vanish(y / size, y % size + b, size);
}

/// Walks of different lengths, both shorter than the range, end at different
/// numbers.
pub proof fn lemma_wrap_injective(x: int, j: nat, k: nat, size: int)
    requires
        j < k < size,
    ensures
        wrap_add(x, j, size) != wrap_add(x, k, size),
{
    let a = x + j;
    let b = x + k;
    if a % size == b % size {
        lemma_fundamental_div_mod(a, size);
        lemma_fundamental_div_mod(b, size);
        let qa = a / size;
        let qb = b / size;
        assert(b - a == size * qb - size * qa);
        assert(size * qb - size * qa == size * (qb - qa)) by (nonlinear_arith);
        assert(false) by (nonlinear_arith)
            requires
                0 < size * (qb - qa) < size,
                size > 0,
        ;
    }
}

/// Where a walk stands after `j` steps.
pub open spec fn stop<T>(stops: spec_fn(nat) -> T, j: nat) -> T {
    stops(j)
}

/// If the first `n` stops of a walk are pairwise different and all taken, at
/// least `n` things are taken: a walk without repetition that is longer than
/// the number of taken things meets one that is free.
pub proof fn lemma_walk_meets_free<T>(taken: Set<T>, stops: spec_fn(nat) -> T, n: nat)
    requires
        taken.finite(),
        forall|j: nat, k: nat|
            j < k < n ==> #[trigger] stop(stops, j) != #[trigger] stop(stops, k),
        forall|j: nat| j < n ==> taken.contains(#[trigger] stop(stops, j)),
    ensures
        n <= taken.len(),
    decreases n,
{
    if n > 0 {
        let last = stop(stops, (n - 1) as nat);
        assert(taken.contains(last));
        let rest = taken.remove(last);
        assert forall|j: nat| j < n - 1 implies rest.contains(#[trigger] stop(stops, j)) by {
            assert(taken.contains(stop(stops, j)));
            assert(stop(stops, j) != stop(stops, (n - 1) as nat));
        }
        lemma_walk_meets_free(rest, stops, (n - 1) as nat);
    }
}

} // verus!
