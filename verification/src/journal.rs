//! A list of records that are labelled by the clock: each label is the
//! decimal notation of a millisecond count, moved on to the next count when
//! the label is already in use.

use vstd::prelude::*;
use crate::decimal::{decimal, decimal_string, lemma_decimal_injective};
use crate::status::StoreError;
use crate::text::same_text;
use crate::walk::{
    lemma_walk_meets_free, lemma_wrap_add, lemma_wrap_injective, lemma_wrap_one, stop, wrap_add,
};

verus! {

/// A record that a journal can hold: it has a model, a label that the model
/// fixes, and can be copied.
pub trait Labeled: View + Sized {
    /// The label of a record, read from its model.
    spec fn label_of(m: Self::V) -> Seq<char>;

    /// The label of the record.
    fn label(&self) -> (l: &String)
        ensures
            l@ == Self::label_of(self@),
    ;

    /// A copy of the record.
    fn duplicate(&self) -> (r: Self)
        ensures
            r@ == self@,
    ;
}

/// The number of distinct millisecond counts.
pub open spec fn tick_space() -> int {
    u64::MAX + 1
}

/// The millisecond count `steps` after `start`, going round at the top.
pub open spec fn tick(start: i64, steps: nat) -> i64 {
    (wrap_add(start - i64::MIN, steps, tick_space()) + i64::MIN) as i64
}

/// The label that stands for the millisecond count `steps` after `start`.
pub open spec fn label_at(start: i64, steps: nat) -> Seq<char> {
    decimal(tick(start, steps) as int)
}

/// The models of a sequence of records.
pub open spec fn entries<T: Labeled>(s: Seq<T>) -> Seq<T::V> {
    s.map_values(|r: T| r@)
}

/// True when a record of `s` has the label `label`.
pub open spec fn has_label<T: Labeled>(s: Seq<T::V>, label: Seq<char>) -> bool {
    exists|i: int| 0 <= i < s.len() && T::label_of(#[trigger] s[i]) == label
}

/// True when no two records of `s` share a label.
pub open spec fn distinct_labels<T: Labeled>(s: Seq<T::V>) -> bool {
    forall|i: int, j: int|
        0 <= i < j < s.len() ==> T::label_of(#[trigger] s[i]) != T::label_of(#[trigger] s[j])
}

/// The labels in use.
pub open spec fn labels<T: Labeled>(s: Seq<T::V>) -> Set<Seq<char>> {
    Set::new(|label: Seq<char>| has_label::<T>(s, label))
}

/// True when `steps` is the first distance from `start` at which a label
/// outside `taken` is found.
pub open spec fn first_unused_at(taken: Set<Seq<char>>, start: i64, steps: nat) -> bool {
    &&& !taken.contains(label_at(start, steps))
    &&& forall|k: nat| k < steps ==> taken.contains(#[trigger] label_at(start, k))
}

/// True when `label` is the first label outside `taken` met from the
/// millisecond count `start` upwards.
pub open spec fn first_unused(taken: Set<Seq<char>>, start: i64, label: Seq<char>) -> bool {
    exists|steps: nat| #[trigger]
        first_unused_at(taken, start, steps) && label == label_at(start, steps)
}

/// The millisecond count after `n`, going round at the top.
pub fn next_tick(n: i64) -> (next: i64)
    ensures
        next == tick(n, 1),
{
    proof {
        lemma_wrap_one(n - i64::MIN, tick_space());
    }
    if n == i64::MAX {
        i64::MIN
    } else {
        n + 1
    }
}

/// No step stays in place, and further steps add up.
pub proof fn lemma_tick_add(start: i64, a: nat, b: nat)
    ensures
        tick(start, 0) == start,
        tick(tick(start, a), b) == tick(start, a + b),
{
    lemma_wrap_one(start - i64::MIN, tick_space());
    lemma_wrap_add(start - i64::MIN, a, b, tick_space());
}

/// If the first `n` labels from `start` are all taken, at least `n` labels
/// are taken.
pub proof fn lemma_labels_meet_unused(taken: Set<Seq<char>>, start: i64, n: nat)
    requires
        taken.finite(),
        n <= tick_space(),
        forall|j: nat| j < n ==> taken.contains(#[trigger] label_at(start, j)),
    ensures
        n <= taken.len(),
{
    let stops = |j: nat| label_at(start, j);
    assert forall|j: nat, k: nat| j < k < n implies #[trigger] stop(stops, j) != #[trigger] stop(
        stops,
        k,
    ) by {
        lemma_wrap_injective(start - i64::MIN, j, k, tick_space());
        lemma_wrap_add(start - i64::MIN, j, 0, tick_space());
        lemma_wrap_add(start - i64::MIN, k, 0, tick_space());
        if label_at(start, j) == label_at(start, k) {
            lemma_decimal_injective(tick(start, j) as int, tick(start, k) as int);
        }
    }
    assert forall|j: nat| j < n implies taken.contains(#[trigger] stop(stops, j)) by {
        assert(taken.contains(label_at(start, j)));
    }
    lemma_walk_meets_free(taken, stops, n);
}

/// The labels in use are finitely many, no more than the records.
pub proof fn lemma_labels_finite<T: Labeled>(s: Seq<T::V>)
    ensures
        labels::<T>(s).finite(),
        labels::<T>(s).len() <= s.len(),
{
    let all = s.map_values(|m: T::V| T::label_of(m));
    assert forall|l: Seq<char>| labels::<T>(s).contains(l) <==> all.to_set().contains(l) by {
        if labels::<T>(s).contains(l) {
            let i = choose|i: int| 0 <= i < s.len() && T::label_of(#[trigger] s[i]) == l;
            assert(all[i] == l);
        }
        if all.to_set().contains(l) {
            let i = choose|i: int| 0 <= i < all.len() && all[i] == l;
            assert(T::label_of(s[i]) == l);
        }
    }
    assert(labels::<T>(s) =~= all.to_set());
    vstd::seq_lib::seq_to_set_is_finite(all);
    all.lemma_cardinality_of_set();
}

/// Labels stay pairwise distinct when a record under an unused label is put
/// in front or at the end, and its label joins those in use.
pub proof fn law_put_distinct<T: Labeled>(s: Seq<T::V>, m: T::V)
    requires
        distinct_labels::<T>(s),
        !has_label::<T>(s, T::label_of(m)),
    ensures
        distinct_labels::<T>(seq![m] + s),
        distinct_labels::<T>(s.push(m)),
        labels::<T>(seq![m] + s) == labels::<T>(s).insert(T::label_of(m)),
        labels::<T>(s.push(m)) == labels::<T>(s).insert(T::label_of(m)),
{
    lemma_put_labels::<T>(s, m);
    let front = seq![m] + s;
    assert forall|a: int, b: int| 0 <= a < b < front.len() implies T::label_of(
        #[trigger] front[a],
    ) != T::label_of(#[trigger] front[b]) by {
        assert(front[b] == s[b - 1]);
        if a > 0 {
            assert(front[a] == s[a - 1]);
            assert(T::label_of(s[a - 1]) != T::label_of(s[b - 1]));
        }
    }
    let back = s.push(m);
    assert forall|a: int, b: int| 0 <= a < b < back.len() implies T::label_of(#[trigger] back[a])
        != T::label_of(#[trigger] back[b]) by {
        assert(back[a] == s[a]);
        if b < s.len() {
            assert(back[b] == s[b]);
            assert(T::label_of(s[a]) != T::label_of(s[b]));
        }
    }
}

/// A record in front or at the end adds its label to those in use.
pub proof fn lemma_put_labels<T: Labeled>(s: Seq<T::V>, m: T::V)
    ensures
        labels::<T>(seq![m] + s) == labels::<T>(s).insert(T::label_of(m)),
        labels::<T>(s.push(m)) == labels::<T>(s).insert(T::label_of(m)),
{
    let front = seq![m] + s;
    let back = s.push(m);
    let grown = labels::<T>(s).insert(T::label_of(m));
    assert forall|l: Seq<char>| labels::<T>(front).contains(l) <==> grown.contains(l) by {
        if has_label::<T>(front, l) {
            let i = choose|i: int| 0 <= i < front.len() && T::label_of(#[trigger] front[i]) == l;
            if i > 0 {
                assert(front[i] == s[i - 1]);
            }
        }
        if T::label_of(m) == l {
            assert(front[0] == m);
        }
        if has_label::<T>(s, l) {
            let i = choose|i: int| 0 <= i < s.len() && T::label_of(#[trigger] s[i]) == l;
            assert(front[i + 1] == s[i]);
        }
    }
    assert forall|l: Seq<char>| labels::<T>(back).contains(l) <==> grown.contains(l) by {
        if has_label::<T>(back, l) {
            let i = choose|i: int| 0 <= i < back.len() && T::label_of(#[trigger] back[i]) == l;
            if i < s.len() {
                assert(back[i] == s[i]);
            }
        }
        if T::label_of(m) == l {
            assert(back[s.len() as int] == m);
        }
        if has_label::<T>(s, l) {
            let i = choose|i: int| 0 <= i < s.len() && T::label_of(#[trigger] s[i]) == l;
            assert(back[i] == s[i]);
        }
    }
    assert(labels::<T>(front) =~= grown);
    assert(labels::<T>(back) =~= grown);
}

/// Records under pairwise distinct labels, in the order in which they were
/// put.
pub struct Journal<T: Labeled> {
    items: Vec<T>,
}

impl<T: Labeled> View for Journal<T> {
    type V = Seq<T::V>;

    closed spec fn view(&self) -> Seq<T::V> {
        entries::<T>(self.items@)
    }
}

impl<T: Labeled> Journal<T> {
    #[verifier::type_invariant]
    spec fn inv(self) -> bool {
        distinct_labels::<T>(self@)
    }

    /// Takes the records out and leaves the journal empty.
    fn take_items(&mut self) -> (items: Vec<T>)
        ensures
            entries::<T>(items@) == old(self)@,
            distinct_labels::<T>(old(self)@),
            final(self)@ == Seq::<T::V>::empty(),
    {
        proof {
            use_type_invariant(&*self);
        }
        let mut items: Vec<T> = Vec::new();
        assert(entries::<T>(items@) =~= Seq::<T::V>::empty());
        std::mem::swap(&mut self.items, &mut items);
        items
    }

    /// An empty journal.
    pub fn new() -> (j: Self)
        ensures
            j@ == Seq::<T::V>::empty(),
    {
        let j = Journal { items: Vec::new() };
        assert(j@ =~= Seq::<T::V>::empty());
        j
    }

    /// The number of records.
    pub fn len(&self) -> (n: usize)
        ensures
            n == self@.len(),
            distinct_labels::<T>(self@),
    {
        proof {
            use_type_invariant(self);
        }
        self.items.len()
    }

    /// The records as they stand, for reading.
    pub fn records(&self) -> (items: &Vec<T>)
        ensures
            entries::<T>(items@) == self@,
            distinct_labels::<T>(self@),
    {
        proof {
            use_type_invariant(self);
        }
        &self.items
    }

    /// A copy of all records, in their order.
    pub fn snapshot(&self) -> (copy: Vec<T>)
        ensures
            entries::<T>(copy@) == self@,
    {
        let mut copy: Vec<T> = Vec::new();
        let mut i: usize = 0;
        while i < self.items.len()
            invariant
                i <= self.items.len(),
                copy.len() == i,
                forall|k: int| 0 <= k < i ==> copy@[k]@ == self.items@[k]@,
            decreases self.items.len() - i,
        {
            copy.push(self.items[i].duplicate());
            i += 1;
        }
        assert(entries::<T>(copy@) =~= self@);
        copy
    }

    /// True when a record has the label.
    pub fn holds(&self, label: &str) -> (found: bool)
        ensures
            found == has_label::<T>(self@, label@),
    {
        let mut i: usize = 0;
        while i < self.items.len()
            invariant
                i <= self.items.len(),
                self@ == entries::<T>(self.items@),
                forall|k: int| 0 <= k < i ==> T::label_of(#[trigger] self@[k]) != label@,
            decreases self.items.len() - i,
        {
            if same_text(self.items[i].label().as_str(), label) {
                assert(T::label_of(self@[i as int]) == label@);
                return true;
            }
            i += 1;
        }
        false
    }

    /// The first label from the millisecond count `start` upwards that no
    /// record has yet: the notation of `start` itself unless it is in use.
    pub fn unused_label(&self, start: i64) -> (label: String)
        ensures
            first_unused(labels::<T>(self@), start, label@),
            !has_label::<T>(self@, label@),
    {
        let ghost taken = labels::<T>(self@);
        let ghost mut steps: nat = 0;
        let mut count = start;
        let mut label = decimal_string(count);
        let mut tried: usize = 0;
        proof {
            lemma_labels_finite::<T>(self@);
            lemma_tick_add(start, 0, 0);
        }
        loop
            invariant
                taken == labels::<T>(self@),
                taken.finite(),
                taken.len() <= self@.len(),
                self@.len() == self.items.len(),
                steps == tried,
                tried <= self.items.len(),
                count == tick(start, steps),
                label@ == label_at(start, steps),
                forall|k: nat| k < steps ==> taken.contains(#[trigger] label_at(start, k)),
            ensures
                first_unused_at(taken, start, steps),
                label@ == label_at(start, steps),
            decreases self.items.len() - tried,
        {
            if !self.holds(label.as_str()) {
                break ;
            }
            proof {
                assert(taken.contains(label_at(start, steps)));
                lemma_labels_meet_unused(taken, start, steps + 1);
                lemma_tick_add(start, steps, 1);
                steps = steps + 1;
            }
            count = next_tick(count);
            label = decimal_string(count);
            tried = tried + 1;
        }
        label
    }

    /// Puts a record in front of the others, unless its label is in use:
    /// then nothing changes.
    pub fn put_front(&mut self, record: T) -> (res: Result<(), StoreError>)
        ensures
            distinct_labels::<T>(final(self)@),
            match res {
                Ok(_) => {
                    &&& !has_label::<T>(old(self)@, T::label_of(record@))
                    &&& final(self)@ == seq![record@] + old(self)@
                    &&& labels::<T>(final(self)@) == labels::<T>(old(self)@).insert(
                        T::label_of(record@),
                    )
                },
                Err(e) => e == StoreError::Taken && has_label::<T>(
                    old(self)@,
                    T::label_of(record@),
                ) && final(self)@ == old(self)@,
            },
    {
        if self.holds(record.label().as_str()) {
            proof {
                use_type_invariant(&*self);
            }
            return Err(StoreError::Taken);
        }
        let mut items = self.take_items();
        items.insert(0, record);
        proof {
            law_put_distinct::<T>(old(self)@, record@);
            assert(entries::<T>(items@) =~= seq![record@] + old(self)@);
        }
        self.items = items;
        Ok(())
    }

    /// Puts a record behind the others, unless its label is in use: then
    /// nothing changes.
    pub fn put_back(&mut self, record: T) -> (res: Result<(), StoreError>)
        ensures
            distinct_labels::<T>(final(self)@),
            match res {
                Ok(_) => {
                    &&& !has_label::<T>(old(self)@, T::label_of(record@))
                    &&& final(self)@ == old(self)@.push(record@)
                    &&& labels::<T>(final(self)@) == labels::<T>(old(self)@).insert(
                        T::label_of(record@),
                    )
                },
                Err(e) => e == StoreError::Taken && has_label::<T>(
                    old(self)@,
                    T::label_of(record@),
                ) && final(self)@ == old(self)@,
            },
    {
        if self.holds(record.label().as_str()) {
            proof {
                use_type_invariant(&*self);
            }
            return Err(StoreError::Taken);
        }
        let mut items = self.take_items();
        items.push(record);
        proof {
            law_put_distinct::<T>(old(self)@, record@);
            assert(entries::<T>(items@) =~= old(self)@.push(record@));
        }
        self.items = items;
        Ok(())
    }

    /// Removes every record.
    pub fn clear(&mut self)
        ensures
            final(self)@ == Seq::<T::V>::empty(),
    {
        let _ = self.take_items();
    }
}

} // verus!
