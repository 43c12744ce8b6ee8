//! Keys that are new when they are handed out: why a run of creations never
//! gives the same key twice.

use vstd::prelude::*;

verus! {

/// True when `stages` are the sets of keys in use before, between and after
/// a run of creations, and `added` the keys that the creations handed out:
/// each key was unused when it was handed out and is in use from then on.
pub open spec fn grown_by<K>(stages: Seq<Set<K>>, added: Seq<K>) -> bool {
    &&& stages.len() == added.len() + 1
    &&& forall|k: int|
        0 <= k < added.len() ==> !(#[trigger] stages[k]).contains(added[k]) && stages[k + 1]
            == stages[k].insert(added[k])
}

/// A key is in use at a stage exactly when it was in use at the start or was
/// handed out before that stage.
pub proof fn lemma_stage_keys<K>(stages: Seq<Set<K>>, added: Seq<K>, k: int, key: K)
    requires
        grown_by(stages, added),
        0 <= k <= added.len(),
    ensures
        stages[k].contains(key) <==> (stages[0].contains(key) || exists|i: int|
            0 <= i < k && added[i] == key),
    decreases k,
{
    if k > 0 {
        lemma_stage_keys(stages, added, k - 1, key);
        assert(stages[k - 1 + 1] == stages[k - 1].insert(added[k - 1]));
    }
}

/// Whatever run of creations is made on one collection, the keys handed out
/// are pairwise distinct, none of them was in use before the run, and all of
/// them are in use after it.
pub proof fn law_created_keys_distinct<K>(stages: Seq<Set<K>>, added: Seq<K>)
    requires
        grown_by(stages, added),
    ensures
        forall|i: int, j: int| 0 <= i < j < added.len() ==> added[i] != added[j],
        forall|i: int| 0 <= i < added.len() ==> !stages[0].contains(#[trigger] added[i]),
        forall|i: int|
            0 <= i < added.len() ==> stages[added.len() as int].contains(#[trigger] added[i]),
{
    assert forall|i: int, j: int| 0 <= i < j < added.len() implies added[i] != added[j] by {
        lemma_stage_keys(stages, added, j, added[i]);
        assert(!stages[j].contains(added[j]));
    }
    assert forall|i: int| 0 <= i < added.len() implies !stages[0].contains(
        #[trigger] added[i],
    ) by {
        lemma_stage_keys(stages, added, i, added[i]);
        assert(!stages[i].contains(added[i]));
    }
    assert forall|i: int| 0 <= i < added.len() implies stages[added.len() as int].contains(
        #[trigger] added[i],
    ) by {
        lemma_stage_keys(stages, added, added.len() as int, added[i]);
    }
}

} // verus!
