//! Choosing from a snapshot: filters that compose, counts, and the window
//! that an offset and a limit cut out.

use vstd::prelude::*;

verus! {

/// The limit of a listing that names none.
pub const DEFAULT_LIMIT: usize = 100;

/// The largest limit a listing can have.
pub const MAX_LIMIT: usize = 1000;

/// The offset in force: zero where none is given.
pub open spec fn offset_of(offset: Option<usize>) -> nat {
    match offset {
        Some(o) => o as nat,
        None => 0,
    }
}

/// The limit in force: the default where none is given, and never more than
/// the cap.
pub open spec fn limit_of(limit: Option<usize>) -> nat {
    match limit {
        Some(l) => if l > MAX_LIMIT {
            MAX_LIMIT as nat
        } else {
            l as nat
        },
        None => DEFAULT_LIMIT as nat,
    }
}

/// Where the window starts in a sequence of `len` items.
pub open spec fn window_start(len: nat, offset: nat) -> nat {
    if offset < len {
        offset
    } else {
        len
    }
}

/// Where the window ends in a sequence of `len` items.
pub open spec fn window_end(len: nat, offset: nat, limit: nat) -> nat {
    if offset >= len || offset + limit >= len {
        len
    } else {
        offset + limit
    }
}

/// The items at the places from `offset` up to, not including, `offset +
/// limit`, as far as the sequence has them.
pub open spec fn window<T>(s: Seq<T>, offset: nat, limit: nat) -> Seq<T> {
    s.subrange(window_start(s.len(), offset) as int, window_end(s.len(), offset, limit) as int)
}

/// The number of items that pass a test.
pub open spec fn count<T>(s: Seq<T>, p: spec_fn(T) -> bool) -> nat {
    s.filter(p).len()
}

/// The offset in force.
pub fn effective_offset(offset: Option<usize>) -> (o: usize)
    ensures
        o == offset_of(offset),
{
    match offset {
        Some(o) => o,
        None => 0,
    }
}

/// The limit in force.
pub fn effective_limit(limit: Option<usize>) -> (l: usize)
    ensures
        l == limit_of(limit),
        l <= MAX_LIMIT,
{
    match limit {
        Some(l) => if l > MAX_LIMIT {
            MAX_LIMIT
        } else {
            l
        },
        None => DEFAULT_LIMIT,
    }
}

/// The places where the window starts and ends in a sequence of `len` items.
pub fn window_bounds(len: usize, offset: usize, limit: usize) -> (b: (usize, usize))
    ensures
        b.0 == window_start(len as nat, offset as nat),
        b.1 == window_end(len as nat, offset as nat, limit as nat),
        b.0 <= b.1 <= len,
{
    if offset >= len {
        (len, len)
    } else if limit >= len - offset {
        (offset, len)
    } else {
        (offset, offset + limit)
    }
}

/// What a window holds: the items from the offset on, in their order, as many
/// as the limit and the end of the sequence allow.
pub proof fn law_window_contents<T>(s: Seq<T>, offset: nat, limit: nat)
    ensures
        window(s, offset, limit).len() <= limit,
        offset < s.len() ==> window(s, offset, limit).len() == (if s.len() - offset < limit {
            s.len() - offset
        } else {
            limit as int
        }),
        forall|i: int|
            0 <= i < window(s, offset, limit).len() ==> window(s, offset, limit)[i] == s[offset
                + i],
{
}

/// An offset at or beyond the end gives an empty window.
pub proof fn law_window_beyond_end<T>(s: Seq<T>, offset: nat, limit: nat)
    requires
        offset >= s.len(),
    ensures
        window(s, offset, limit) == Seq::<T>::empty(),
{
    assert(window(s, offset, limit) =~= Seq::<T>::empty());
}

/// A limit above the cap counts as the cap, and no window holds more items
/// than the cap.
pub proof fn law_limit_capped<T>(s: Seq<T>, offset: Option<usize>, limit: Option<usize>)
    ensures
        limit matches Some(l) && l > MAX_LIMIT ==> limit_of(limit) == MAX_LIMIT,
        limit_of(limit) <= MAX_LIMIT,
        window(s, offset_of(offset), limit_of(limit)).len() <= MAX_LIMIT,
{
}

/// The test that two tests both pass.
pub open spec fn both<T>(p: spec_fn(T) -> bool, q: spec_fn(T) -> bool) -> spec_fn(T) -> bool {
    |x: T| p(x) && q(x)
}

/// Filtering twice is filtering once by both tests.
pub proof fn lemma_filter_twice<T>(s: Seq<T>, p: spec_fn(T) -> bool, q: spec_fn(T) -> bool)
    ensures
        s.filter(p).filter(q) == s.filter(both(p, q)),
    decreases s.len(),
{
    reveal(Seq::filter);
    if s.len() > 0 {
        let front = s.drop_last();
        lemma_filter_twice(front, p, q);
        if p(s.last()) {
            front.filter(p).lemma_filter_push(s.last(), q);
        }
    }
}

/// Two filters give the same records in the same order whichever is applied
/// first.
pub proof fn law_filters_commute<T>(s: Seq<T>, p: spec_fn(T) -> bool, q: spec_fn(T) -> bool)
    ensures
        s.filter(p).filter(q) == s.filter(q).filter(p),
{
    lemma_filter_twice(s, p, q);
    lemma_filter_twice(s, q, p);
    lemma_filter_same(s, both(p, q), both(q, p));
}

/// Tests that agree on every item of a sequence filter it alike.
pub proof fn lemma_filter_same<T>(s: Seq<T>, p: spec_fn(T) -> bool, q: spec_fn(T) -> bool)
    requires
        forall|i: int| 0 <= i < s.len() ==> p(#[trigger] s[i]) == q(s[i]),
    ensures
        s.filter(p) == s.filter(q),
    decreases s.len(),
{
    reveal(Seq::filter);
    if s.len() > 0 {
        lemma_filter_same(s.drop_last(), p, q);
    }
}

/// Counting one item further: the count grows by one exactly when the item
/// passes the test.
pub proof fn lemma_count_next<T>(s: Seq<T>, p: spec_fn(T) -> bool, i: int)
    requires
        0 <= i < s.len(),
    ensures
        count(s.take(i + 1), p) == count(s.take(i), p) + (if p(s[i]) {
            1nat
        } else {
            0nat
        }),
        count(s.take(i), p) <= i,
{
    assert(s.take(i + 1) =~= s.take(i).push(s[i]));
    s.take(i).lemma_filter_push(s[i], p);
    s.take(i).lemma_filter_len(p);
}

/// Filtering one item further: the item is added exactly when it passes the
/// test.
pub proof fn lemma_filter_next<T>(s: Seq<T>, p: spec_fn(T) -> bool, i: int)
    requires
        0 <= i < s.len(),
    ensures
        s.take(i + 1).filter(p) == (if p(s[i]) {
            s.take(i).filter(p).push(s[i])
        } else {
            s.take(i).filter(p)
        }),
{
    assert(s.take(i + 1) =~= s.take(i).push(s[i]));
    s.take(i).lemma_filter_push(s[i], p);
}

} // verus!
