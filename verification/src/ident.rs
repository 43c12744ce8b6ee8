//! Record identifiers: 128-bit numbers, drawn at random and moved on to the
//! next free number when the draw is already taken.

use vstd::prelude::*;
use crate::walk::{
    lemma_walk_meets_free, lemma_wrap_add, lemma_wrap_injective, lemma_wrap_one, stop, wrap_add,
};

verus! {

/// The number of distinct identifiers.
pub open spec fn id_space() -> int {
    u128::MAX + 1
}

/// The identifier `steps` places after `start`, going round at the top.
pub open spec fn step(start: u128, steps: nat) -> u128 {
    wrap_add(start as int, steps, id_space()) as u128
}

/// True when `steps` is the first distance from `start` at which an
/// identifier outside `taken` is found.
pub open spec fn first_free_at(taken: Set<u128>, start: u128, steps: nat) -> bool {
    &&& !taken.contains(step(start, steps))
    &&& forall|k: nat| k < steps ==> taken.contains(#[trigger] step(start, k))
}

/// True when `id` is the first identifier outside `taken` met from `start`
/// upwards.
pub open spec fn first_free(taken: Set<u128>, start: u128, id: u128) -> bool {
    exists|steps: nat| #[trigger] first_free_at(taken, start, steps) && id == step(start, steps)
}

/// The second of two identifiers drawn in a row: the draw itself, or the
/// next number where it repeats the first.
pub open spec fn second_id(first: u128, draw: u128) -> u128 {
    if draw == first {
        step(draw, 1)
    } else {
        draw
    }
}

/// The bit pattern of a random (version 4, RFC variant) UUID.
pub open spec fn is_random_uuid(id: u128) -> bool {
    id & 0xf000_c000_0000_0000_0000u128 == 0x4000_8000_0000_0000_0000u128
}

/// Draws an identifier with `uuid::Uuid::new_v4` and hands it out as the
/// number that `Uuid::as_u128` gives.
///
/// The draw is random, so only what the outside function fixes in every draw
/// is claimed: the version and variant bits. It aborts when the operating
/// system's random source fails.
#[verifier::external_body]
pub(crate) fn random_uuid() -> (id: u128)
    ensures
        is_random_uuid(id),
{
    uuid::Uuid::new_v4().as_u128()
}

/// The identifier after `id`, going round at the top.
pub fn next_id(id: u128) -> (next: u128)
    ensures
        next == step(id, 1),
        next != id,
{
    proof {
        lemma_wrap_one(id as int, id_space());
    }
    if id == u128::MAX {
        0
    } else {
        id + 1
    }
}

/// The second of two identifiers drawn in a row.
pub fn second_of(first: u128, draw: u128) -> (id: u128)
    ensures
        id == second_id(first, draw),
        id != first,
{
    if draw == first {
        next_id(draw)
    } else {
        draw
    }
}

/// No step stays in place, and further steps add up.
pub proof fn lemma_step_add(start: u128, a: nat, b: nat)
    ensures
        step(start, 0) == start,
        step(step(start, a), b) == step(start, a + b),
{
    lemma_wrap_one(start as int, id_space());
    lemma_wrap_add(start as int, a, b, id_space());
}

/// If the first `n` identifiers from `start` are all taken, at least `n`
/// identifiers are taken: a walk longer than the number of taken identifiers
/// meets a free one.
pub proof fn lemma_steps_meet_free(taken: Set<u128>, start: u128, n: nat)
    requires
        taken.finite(),
        n <= id_space(),
        forall|j: nat| j < n ==> taken.contains(#[trigger] step(start, j)),
    ensures
        n <= taken.len(),
{
    let stops = |j: nat| step(start, j);
    assert forall|j: nat, k: nat| j < k < n implies #[trigger] stop(stops, j) != #[trigger] stop(
        stops,
        k,
    ) by {
        lemma_wrap_injective(start as int, j, k, id_space());
        lemma_wrap_add(start as int, j, 0, id_space());
        lemma_wrap_add(start as int, k, 0, id_space());
    }
    assert forall|j: nat| j < n implies taken.contains(#[trigger] stop(stops, j)) by {
        assert(taken.contains(step(start, j)));
    }
    lemma_walk_meets_free(taken, stops, n);
}

} // verus!
