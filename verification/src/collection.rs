//! A collection of records, each stored under its own identifier, newest
//! first.

use vstd::prelude::*;
use crate::ident::{first_free, first_free_at, lemma_step_add, lemma_steps_meet_free, next_id, step};
use crate::status::StoreError;

verus! {

/// A record that a collection can hold: it has a model, an identifier that
/// the model fixes, and can be copied.
pub trait Record: View + Sized {
    /// The identifier of a record, read from its model.
    spec fn key_of(m: Self::V) -> u128;

    /// The identifier of the record.
    fn key(&self) -> (k: u128)
        ensures
            k == Self::key_of(self@),
    ;

    /// A copy of the record.
    fn duplicate(&self) -> (r: Self)
        ensures
            r@ == self@,
    ;
}

/// A change to a stored record that leaves its identifier alone.
pub trait Edit<R: Record>: Sized {
    /// The model of the record after the change.
    spec fn edited(&self, m: R::V) -> R::V;

    /// The record after the change.
    fn apply(self, current: &R) -> (r: R)
        ensures
            r@ == self.edited(current@),
    ;

    /// The change leaves the identifier alone.
    proof fn lemma_keeps_key(&self, m: R::V)
        ensures
            R::key_of(self.edited(m)) == R::key_of(m),
    ;
}

/// The models of a sequence of records.
pub open spec fn models<R: Record>(s: Seq<R>) -> Seq<R::V> {
    s.map_values(|r: R| r@)
}

/// True when a record of `s` has the identifier `id`.
pub open spec fn has_key<R: Record>(s: Seq<R::V>, id: u128) -> bool {
    exists|i: int| 0 <= i < s.len() && R::key_of(#[trigger] s[i]) == id
}

/// True when no two records of `s` share an identifier.
pub open spec fn distinct_keys<R: Record>(s: Seq<R::V>) -> bool {
    forall|i: int, j: int|
        0 <= i < j < s.len() ==> R::key_of(#[trigger] s[i]) != R::key_of(#[trigger] s[j])
}

/// The identifiers in use.
pub open spec fn keys<R: Record>(s: Seq<R::V>) -> Set<u128> {
    Set::new(|id: u128| has_key::<R>(s, id))
}

/// The place of the record with the identifier `id`.
pub open spec fn place<R: Record>(s: Seq<R::V>, id: u128) -> int {
    choose|i: int| 0 <= i < s.len() && R::key_of(#[trigger] s[i]) == id
}

/// The record with the identifier `id`, if there is one.
pub open spec fn find<R: Record>(s: Seq<R::V>, id: u128) -> Option<R::V> {
    if has_key::<R>(s, id) {
        Some(s[place::<R>(s, id)])
    } else {
        None
    }
}

/// The records with a new one put in front.
pub open spec fn with_front<R: Record>(s: Seq<R::V>, m: R::V) -> Seq<R::V> {
    seq![m] + s
}

/// The test that a record's identifier is another one than `id`.
pub open spec fn other_than<R: Record>(id: u128) -> spec_fn(R::V) -> bool {
    |m: R::V| R::key_of(m) != id
}

/// The records without the one that has the identifier `id`.
pub open spec fn without<R: Record>(s: Seq<R::V>, id: u128) -> Seq<R::V> {
    s.filter(other_than::<R>(id))
}

/// The records with the one that has the identifier `id` changed by `f`.
pub open spec fn with_edit<R: Record>(s: Seq<R::V>, id: u128, f: spec_fn(R::V) -> R::V) -> Seq<R::V> {
    s.map_values(|m: R::V| if R::key_of(m) == id { f(m) } else { m })
}

/// Records under pairwise distinct identifiers, newest first.
pub struct Collection<R: Record> {
    items: Vec<R>,
}

impl<R: Record> View for Collection<R> {
    type V = Seq<R::V>;

    closed spec fn view(&self) -> Seq<R::V> {
        models::<R>(self.items@)
    }
}

impl<R: Record> Collection<R> {
    #[verifier::type_invariant]
    spec fn inv(self) -> bool {
        distinct_keys::<R>(self@)
    }

    /// Takes the records out and leaves the collection empty.
    fn take_items(&mut self) -> (items: Vec<R>)
        ensures
            models::<R>(items@) == old(self)@,
            distinct_keys::<R>(old(self)@),
            final(self)@ == Seq::<R::V>::empty(),
    {
        proof {
            use_type_invariant(&*self);
        }
        let mut items: Vec<R> = Vec::new();
        assert(models::<R>(items@) =~= Seq::<R::V>::empty());
        std::mem::swap(&mut self.items, &mut items);
        items
    }

    /// An empty collection.
    pub fn new() -> (c: Self)
        ensures
            c@ == Seq::<R::V>::empty(),
    {
        let c = Collection { items: Vec::new() };
        assert(c@ =~= Seq::<R::V>::empty());
        c
    }

    /// The number of records.
    pub fn len(&self) -> (n: usize)
        ensures
            n == self@.len(),
            distinct_keys::<R>(self@),
    {
        proof {
            use_type_invariant(self);
        }
        self.items.len()
    }

    /// The records as they stand, for reading.
    pub fn records(&self) -> (items: &Vec<R>)
        ensures
            models::<R>(items@) == self@,
            distinct_keys::<R>(self@),
    {
        proof {
            use_type_invariant(self);
        }
        &self.items
    }

    /// The place of the record with the identifier `id`.
    pub fn position(&self, id: u128) -> (at: Option<usize>)
        ensures
            distinct_keys::<R>(self@),
            match at {
                Some(i) => i < self@.len() && R::key_of(self@[i as int]) == id && i == place::<R>(
                    self@,
                    id,
                ),
                None => !has_key::<R>(self@, id),
            },
    {
        proof {
            use_type_invariant(self);
        }
        let mut i: usize = 0;
        while i < self.items.len()
            invariant
                i <= self.items.len(),
                self@ == models::<R>(self.items@),
                distinct_keys::<R>(self@),
                forall|k: int| 0 <= k < i ==> R::key_of(#[trigger] self@[k]) != id,
            decreases self.items.len() - i,
        {
            if self.items[i].key() == id {
                proof {
                    lemma_place::<R>(self@, id, i as int);
                }
                return Some(i);
            }
            i += 1;
        }
        None
    }

    /// The record with the identifier `id`, if there is one.
    pub fn get(&self, id: u128) -> (r: Option<&R>)
        ensures
            r is Some <==> has_key::<R>(self@, id),
            r matches Some(x) ==> find::<R>(self@, id) == Some(x@),
    {
        match self.position(id) {
            Some(i) => {
                proof {
                    lemma_place::<R>(self@, id, i as int);
                }
                Some(&self.items[i])
            },
            None => None,
        }
    }

    /// A copy of all records, in their order.
    pub fn snapshot(&self) -> (copy: Vec<R>)
        ensures
            models::<R>(copy@) == self@,
    {
        let mut copy: Vec<R> = Vec::new();
        let mut i: usize = 0;
        while i < self.items.len()
            invariant
                i <= self.items.len(),
                copy.len() == i,
                forall|k: int| 0 <= k < i ==> copy@[k]@ == self.items@[k]@,
            decreases self.items.len() - i,
        {
            copy.push(self.items[i].duplicate());
            i += 1;
        }
        assert(models::<R>(copy@) =~= self@);
        copy
    }

    /// The first identifier from `candidate` upwards that no record has yet:
    /// `candidate` itself unless it is in use.
    pub fn unused_key(&self, candidate: u128) -> (id: u128)
        ensures
            first_free(keys::<R>(self@), candidate, id),
            !has_key::<R>(self@, id),
            distinct_keys::<R>(self@),
    {
        proof {
            use_type_invariant(self);
        }
        let ghost taken = keys::<R>(self@);
        let ghost mut steps: nat = 0;
        let mut id = candidate;
        let mut tried: usize = 0;
        proof {
            lemma_keys_finite::<R>(self@);
            lemma_step_add(candidate, 0, 0);
        }
        loop
            invariant
                taken == keys::<R>(self@),
                taken.finite(),
                taken.len() <= self@.len(),
                self@.len() == self.items.len(),
                steps == tried,
                tried <= self.items.len(),
                id == step(candidate, steps),
                forall|k: nat| k < steps ==> taken.contains(#[trigger] step(candidate, k)),
            ensures
                first_free_at(taken, candidate, steps),
                id == step(candidate, steps),
            decreases self.items.len() - tried,
        {
            if self.position(id).is_none() {
                break ;
            }
            proof {
                assert(taken.contains(step(candidate, steps)));
                lemma_steps_meet_free(taken, candidate, steps + 1);
                lemma_step_add(candidate, steps, 1);
                steps = steps + 1;
            }
            id = next_id(id);
            tried = tried + 1;
        }
        id
    }

    /// Puts a record in front of the others, unless its identifier is in
    /// use: then nothing changes.
    pub fn insert(&mut self, record: R) -> (res: Result<(), StoreError>)
        ensures
            distinct_keys::<R>(final(self)@),
            match res {
                Ok(_) => {
                    &&& !has_key::<R>(old(self)@, R::key_of(record@))
                    &&& final(self)@ == with_front::<R>(old(self)@, record@)
                    &&& keys::<R>(final(self)@) == keys::<R>(old(self)@).insert(
                        R::key_of(record@),
                    )
                },
                Err(e) => e == StoreError::Taken && has_key::<R>(old(self)@, R::key_of(record@))
                    && final(self)@ == old(self)@,
            },
    {
        if self.position(record.key()).is_some() {
            return Err(StoreError::Taken);
        }
        let mut items = self.take_items();
        items.insert(0, record);
        proof {
            law_insert_distinct::<R>(old(self)@, record@);
            lemma_front_keys::<R>(old(self)@, record@);
            assert(models::<R>(items@) =~= with_front::<R>(old(self)@, record@));
        }
        self.items = items;
        Ok(())
    }

    /// Changes the record with the identifier `id` and hands back a copy of
    /// the changed record; without such a record nothing changes.
    pub fn update<E: Edit<R>>(&mut self, id: u128, edit: E) -> (res: Result<R, StoreError>)
        ensures
            distinct_keys::<R>(final(self)@),
            match res {
                Ok(r) => has_key::<R>(old(self)@, id) && Some(r@) == find::<R>(final(self)@, id)
                    && r@ == edit.edited(find::<R>(old(self)@, id).unwrap()) && final(self)@
                    == with_edit::<R>(old(self)@, id, |m: R::V| edit.edited(m)),
                Err(e) => e == StoreError::NotFound && !has_key::<R>(old(self)@, id) 
                    && final(self)@ == old(self)@,
            },
    {
        match self.position(id) {
            None => Err(StoreError::NotFound),
            Some(i) => {
                let ghost before = self@;
                let ghost change = |m: R::V| edit.edited(m);
                proof {
                    edit.lemma_keeps_key(before[i as int]);
                    lemma_place::<R>(before, id, i as int);
                }
                let changed = edit.apply(&self.items[i]);
                let copy = changed.duplicate();
                let mut items = self.take_items();
                items.set(i, changed);
                proof {
                    lemma_edit_at::<R>(before, id, change, i as int);
                    assert(models::<R>(items@) =~= before.update(i as int, changed@));
                }
                self.items = items;
                proof {
                    lemma_place::<R>(self@, id, i as int);
                }
                Ok(copy)
            },
        }
    }

    /// Removes the record with the identifier `id`; without such a record
    /// nothing changes.
    pub fn delete(&mut self, id: u128) -> (res: Result<(), StoreError>)
        ensures
            distinct_keys::<R>(final(self)@),
            final(self)@ == without::<R>(old(self)@, id),
            match res {
                Ok(_) => has_key::<R>(old(self)@, id),
                Err(e) => e == StoreError::NotFound && !has_key::<R>(old(self)@, id) 
                    && final(self)@ == old(self)@,
            },
    {
        match self.position(id) {
            None => {
                proof {
                    law_delete_absent::<R>(self@, id);
                }
                Err(StoreError::NotFound)
            },
            Some(i) => {
                let mut items = self.take_items();
                items.remove(i);
                proof {
                    lemma_without_at::<R>(old(self)@, id, i as int);
                    assert(models::<R>(items@) =~= old(self)@.remove(i as int));
                }
                self.items = items;
                Ok(())
            },
        }
    }
}

/// Under distinct identifiers a record's place is where its identifier is
/// found.
pub proof fn lemma_place<R: Record>(s: Seq<R::V>, id: u128, i: int)
    requires
        distinct_keys::<R>(s),
        0 <= i < s.len(),
        R::key_of(s[i]) == id,
    ensures
        has_key::<R>(s, id),
        place::<R>(s, id) == i,
        find::<R>(s, id) == Some(s[i]),
{
    let j = place::<R>(s, id);
    assert(0 <= j < s.len() && R::key_of(s[j]) == id);
    if i < j {
        assert(R::key_of(s[i]) != R::key_of(s[j]));
    } else if j < i {
        assert(R::key_of(s[j]) != R::key_of(s[i]));
    }
}

/// The identifiers in use are finitely many, no more than the records.
pub proof fn lemma_keys_finite<R: Record>(s: Seq<R::V>)
    ensures
        keys::<R>(s).finite(),
        keys::<R>(s).len() <= s.len(),
{
    let ids = s.map_values(|m: R::V| R::key_of(m));
    assert forall|id: u128| keys::<R>(s).contains(id) <==> ids.to_set().contains(id) by {
        if keys::<R>(s).contains(id) {
            let i = choose|i: int| 0 <= i < s.len() && R::key_of(#[trigger] s[i]) == id;
            assert(ids[i] == id);
        }
        if ids.to_set().contains(id) {
            let i = choose|i: int| 0 <= i < ids.len() && ids[i] == id;
            assert(R::key_of(s[i]) == id);
        }
    }
    assert(keys::<R>(s) =~= ids.to_set());
    vstd::seq_lib::seq_to_set_is_finite(ids);
    ids.lemma_cardinality_of_set();
}

/// A filter that every record passes keeps them all.
pub proof fn lemma_filter_all<T>(s: Seq<T>, p: spec_fn(T) -> bool)
    requires
        forall|i: int| 0 <= i < s.len() ==> p(#[trigger] s[i]),
    ensures
        s.filter(p) == s,
    decreases s.len(),
{
    reveal(Seq::filter);
    if s.len() > 0 {
        lemma_filter_all(s.drop_last(), p);
        assert(s.drop_last().push(s.last()) =~= s);
    }
}

/// Under distinct identifiers, leaving out the record with an identifier is
/// removing the record at its place.
pub proof fn lemma_without_at<R: Record>(s: Seq<R::V>, id: u128, i: int)
    requires
        distinct_keys::<R>(s),
        0 <= i < s.len(),
        R::key_of(s[i]) == id,
    ensures
        without::<R>(s, id) == s.remove(i),
        distinct_keys::<R>(s.remove(i)),
        !has_key::<R>(s.remove(i), id),
{
    let p = other_than::<R>(id);
    let head = s.take(i);
    let tail = s.skip(i + 1);
    assert(s =~= head + (seq![s[i]] + tail));
    Seq::filter_distributes_over_add(head, seq![s[i]] + tail, p);
    tail.lemma_filter_prepend(s[i], p);
    assert forall|k: int| 0 <= k < head.len() implies p(#[trigger] head[k]) by {
        assert(R::key_of(s[k]) != R::key_of(s[i]));
    }
    assert forall|k: int| 0 <= k < tail.len() implies p(#[trigger] tail[k]) by {
        assert(R::key_of(s[i]) != R::key_of(s[k + i + 1]));
    }
    lemma_filter_all(head, p);
    lemma_filter_all(tail, p);
    assert(s.remove(i) =~= head + (Seq::<R::V>::empty() + tail));
    let t = s.remove(i);
    assert forall|a: int, b: int| 0 <= a < b < t.len() implies R::key_of(#[trigger] t[a])
        != R::key_of(#[trigger] t[b]) by {
        let a0 = if a < i { a } else { a + 1 };
        let b0 = if b < i { b } else { b + 1 };
        assert(R::key_of(s[a0]) != R::key_of(s[b0]));
    }
    assert forall|k: int| 0 <= k < t.len() implies R::key_of(#[trigger] t[k]) != id by {
        let k0 = if k < i { k } else { k + 1 };
        if k0 < i {
            assert(R::key_of(s[k0]) != R::key_of(s[i]));
        } else {
            assert(R::key_of(s[i]) != R::key_of(s[k0]));
        }
    }
}

/// Under distinct identifiers, changing the record with an identifier is
/// changing the record at its place, and a change that leaves the identifier
/// alone keeps the identifiers distinct.
pub proof fn lemma_edit_at<R: Record>(s: Seq<R::V>, id: u128, f: spec_fn(R::V) -> R::V, i: int)
    requires
        distinct_keys::<R>(s),
        0 <= i < s.len(),
        R::key_of(s[i]) == id,
        R::key_of(f(s[i])) == id,
    ensures
        with_edit::<R>(s, id, f) == s.update(i, f(s[i])),
        distinct_keys::<R>(s.update(i, f(s[i]))),
{
    let t = s.update(i, f(s[i]));
    assert forall|k: int| 0 <= k < s.len() implies #[trigger] with_edit::<R>(s, id, f)[k]
        == t[k] by {
        if k < i {
            assert(R::key_of(s[k]) != R::key_of(s[i]));
        } else if i < k {
            assert(R::key_of(s[i]) != R::key_of(s[k]));
        }
    }
    assert(with_edit::<R>(s, id, f) =~= t);
    assert forall|a: int, b: int| 0 <= a < b < t.len() implies R::key_of(#[trigger] t[a])
        != R::key_of(#[trigger] t[b]) by {
        assert(R::key_of(s[a]) != R::key_of(s[b]));
    }
}

/// Identifiers stay pairwise distinct when a record under an unused
/// identifier is put in front.
pub proof fn law_insert_distinct<R: Record>(s: Seq<R::V>, m: R::V)
    requires
        distinct_keys::<R>(s),
        !has_key::<R>(s, R::key_of(m)),
    ensures
        distinct_keys::<R>(with_front::<R>(s, m)),
        has_key::<R>(with_front::<R>(s, m), R::key_of(m)),
{
    let t = with_front::<R>(s, m);
    assert forall|a: int, b: int| 0 <= a < b < t.len() implies R::key_of(#[trigger] t[a])
        != R::key_of(#[trigger] t[b]) by {
        assert(t[b] == s[b - 1]);
        if a == 0 {
            assert(t[a] == m);
        } else {
            assert(t[a] == s[a - 1]);
            assert(R::key_of(s[a - 1]) != R::key_of(s[b - 1]));
        }
    }
    assert(t[0] == m);
}

/// A record in front adds its identifier to those in use.
pub proof fn lemma_front_keys<R: Record>(s: Seq<R::V>, m: R::V)
    ensures
        keys::<R>(with_front::<R>(s, m)) == keys::<R>(s).insert(R::key_of(m)),
{
    let t = with_front::<R>(s, m);
    assert forall|id: u128| keys::<R>(t).contains(id) <==> keys::<R>(s).insert(
        R::key_of(m),
    ).contains(id) by {
        if has_key::<R>(t, id) {
            let i = choose|i: int| 0 <= i < t.len() && R::key_of(#[trigger] t[i]) == id;
            if i > 0 {
                assert(t[i] == s[i - 1]);
            }
        }
        if R::key_of(m) == id {
            assert(t[0] == m);
        }
        if has_key::<R>(s, id) {
            let i = choose|i: int| 0 <= i < s.len() && R::key_of(#[trigger] s[i]) == id;
            assert(t[i + 1] == s[i]);
        }
    }
    assert(keys::<R>(t) =~= keys::<R>(s).insert(R::key_of(m)));
}

/// A record that was put in is found again under its identifier, unchanged,
/// and the records that were there before are found as before.
pub proof fn law_insert_then_find<R: Record>(s: Seq<R::V>, m: R::V, other: u128)
    requires
        distinct_keys::<R>(s),
        !has_key::<R>(s, R::key_of(m)),
    ensures
        find::<R>(with_front::<R>(s, m), R::key_of(m)) == Some(m),
        other != R::key_of(m) ==> find::<R>(with_front::<R>(s, m), other) == find::<R>(s, other),
{
    let t = with_front::<R>(s, m);
    law_insert_distinct::<R>(s, m);
    assert(t[0] == m);
    lemma_place::<R>(t, R::key_of(m), 0);
    if other != R::key_of(m) {
        if has_key::<R>(s, other) {
            let i = place::<R>(s, other);
            assert(t[i + 1] == s[i]);
            lemma_place::<R>(s, other, i);
            lemma_place::<R>(t, other, i + 1);
        } else if has_key::<R>(t, other) {
            let i = place::<R>(t, other);
            assert(t[i] == s[i - 1]);
        }
    }
}

/// Removing under an identifier that no record has changes nothing.
pub proof fn law_delete_absent<R: Record>(s: Seq<R::V>, id: u128)
    requires
        !has_key::<R>(s, id),
    ensures
        without::<R>(s, id) == s,
{
    lemma_filter_all(s, other_than::<R>(id));
}

/// After a removal no record has the identifier, the identifiers of the
/// others are as distinct as before, and the others are found as before.
pub proof fn law_delete_removes<R: Record>(s: Seq<R::V>, id: u128, other: u128)
    requires
        distinct_keys::<R>(s),
    ensures
        !has_key::<R>(without::<R>(s, id), id),
        distinct_keys::<R>(without::<R>(s, id)),
        other != id ==> find::<R>(without::<R>(s, id), other) == find::<R>(s, other),
{
    if has_key::<R>(s, id) {
        let i = place::<R>(s, id);
        lemma_without_at::<R>(s, id, i);
        let t = s.remove(i);
        if other != id {
            if has_key::<R>(s, other) {
                let k = place::<R>(s, other);
                lemma_place::<R>(s, other, k);
                if k < i {
                    assert(t[k] == s[k]);
                    lemma_place::<R>(t, other, k);
                } else {
                    assert(t[k - 1] == s[k]);
                    lemma_place::<R>(t, other, k - 1);
                }
            } else if has_key::<R>(t, other) {
                let k = place::<R>(t, other);
                if k < i {
                    assert(t[k] == s[k]);
                } else {
                    assert(t[k] == s[k + 1]);
                }
            }
        }
    } else {
        law_delete_absent::<R>(s, id);
    }
}

} // verus!
