//! The ranking order.
//!
//! A ranking pass produces a sequence of entries ordered by descending match
//! score, with ties broken by the items' insertion order.  The order is
//! defined by a deterministic insertion function, so a completed ranking is
//! a function of the candidate set and the pattern alone.

use vstd::prelude::*;

use crate::item::{item_score, ItemModel};
use crate::pattern::PatternModel;

verus! {

/// One ranked entry: the matched item's insertion position and its score.
#[derive(Clone, Copy, Debug, PartialEq, Eq, Structural)]
pub struct Entry {
    pub score: usize,
    pub index: usize,
}

/// The mathematical content of an entry.
pub ghost struct EntryModel {
    pub score: int,
    pub index: int,
}

impl View for Entry {
    type V = EntryModel;

    open spec fn view(&self) -> EntryModel {
        EntryModel { score: self.score as int, index: self.index as int }
    }
}

/// The models of a sequence of entries.
pub open spec fn entries_of(s: Seq<Entry>) -> Seq<EntryModel> {
    s.map_values(|e: Entry| e@)
}

/// Ranking precedence: a higher score comes first; equal scores keep the
/// items' insertion order.
pub open spec fn prec(a: EntryModel, b: EntryModel) -> bool {
    a.score > b.score || (a.score == b.score && a.index < b.index)
}

/// Ascending by precedence.
pub open spec fn sorted(s: Seq<EntryModel>) -> bool {
    forall|k1: int, k2: int| 0 <= k1 < k2 < s.len() ==> prec(s[k1], s[k2])
}

/// Insert an entry into a ranked sequence, before the first entry it
/// precedes.
pub open spec fn insert_entry(s: Seq<EntryModel>, e: EntryModel) -> Seq<EntryModel>
    decreases s.len(),
{
    if s.len() == 0 {
        seq![e]
    } else if prec(e, s[0]) {
        seq![e] + s
    } else {
        seq![s[0]] + insert_entry(s.drop_first(), e)
    }
}

/// The ranking of the first `n` items of the candidate set against a
/// pattern: each matching item, with its score and insertion position,
/// inserted in ranking order.
pub open spec fn rank_upto(p: PatternModel, items: Seq<ItemModel>, n: int) -> Seq<EntryModel>
    decreases n,
{
    if n <= 0 {
        Seq::empty()
    } else {
        let r = rank_upto(p, items, n - 1);
        match item_score(p, items[n - 1]) {
            Some(sc) => insert_entry(r, EntryModel { score: sc, index: n - 1 }),
            None => r,
        }
    }
}

/// The full ranking of a candidate set against a pattern.
pub open spec fn rank_of(p: PatternModel, items: Seq<ItemModel>) -> Seq<EntryModel> {
    rank_upto(p, items, items.len() as int)
}

pub proof fn lemma_insert_entry_len(s: Seq<EntryModel>, e: EntryModel)
    ensures
        insert_entry(s, e).len() == s.len() + 1,
    decreases s.len(),
{
    if s.len() == 0 {
    } else if prec(e, s[0]) {
    } else {
        lemma_insert_entry_len(s.drop_first(), e);
    }
}

/// Inserting yields exactly the old entries plus the new one: every element
/// of the result is the new entry or one of the old ones, the new entry is
/// present, and every old entry stays present.
pub proof fn lemma_insert_entry_membership(s: Seq<EntryModel>, e: EntryModel)
    ensures
        forall|k: int|
            0 <= k < insert_entry(s, e).len() ==> (insert_entry(s, e)[k] == e || s.contains(
                insert_entry(s, e)[k],
            )),
        insert_entry(s, e).contains(e),
        forall|x: EntryModel| s.contains(x) ==> #[trigger] insert_entry(s, e).contains(x),
    decreases s.len(),
{
    lemma_insert_entry_len(s, e);
    let r = insert_entry(s, e);
    if s.len() == 0 {
        assert(r[0] == e);
    } else if prec(e, s[0]) {
        assert(r[0] == e);
        assert forall|k: int| 0 <= k < r.len() implies (r[k] == e || s.contains(r[k])) by {
            if k > 0 {
                assert(r[k] == s[k - 1]);
            }
        }
        assert forall|x: EntryModel| s.contains(x) implies #[trigger] r.contains(x) by {
            let k = choose|k: int| 0 <= k < s.len() && s[k] == x;
            assert(r[k + 1] == x);
        }
    } else {
        lemma_insert_entry_membership(s.drop_first(), e);
        let rr = insert_entry(s.drop_first(), e);
        assert(r[0] == s[0]);
        assert forall|k: int| 0 <= k < r.len() implies (r[k] == e || s.contains(r[k])) by {
            if k == 0 {
                assert(s.contains(s[0]));
            } else {
                assert(r[k] == rr[k - 1]);
                if rr[k - 1] != e {
                    let j = choose|j: int|
                        0 <= j < s.drop_first().len() && s.drop_first()[j] == rr[k - 1];
                    assert(s[j + 1] == rr[k - 1]);
                }
            }
        }
        let ke = choose|k: int| 0 <= k < rr.len() && rr[k] == e;
        assert(r[ke + 1] == e);
        assert forall|x: EntryModel| s.contains(x) implies #[trigger] r.contains(x) by {
            let k = choose|k: int| 0 <= k < s.len() && s[k] == x;
            if k == 0 {
                assert(r[0] == x);
            } else {
                assert(s.drop_first()[k - 1] == x);
                assert(s.drop_first().contains(x));
                assert(rr.contains(x));
                let j = choose|j: int| 0 <= j < rr.len() && rr[j] == x;
                assert(r[j + 1] == x);
            }
        }
    }
}

/// Insertion keeps the ranking sorted, provided the new entry's insertion
/// position differs from every present one.
pub proof fn lemma_insert_entry_sorted(s: Seq<EntryModel>, e: EntryModel)
    requires
        sorted(s),
        forall|k: int| 0 <= k < s.len() ==> (#[trigger] s[k]).index != e.index,
    ensures
        sorted(insert_entry(s, e)),
    decreases s.len(),
{
    lemma_insert_entry_len(s, e);
    let r = insert_entry(s, e);
    if s.len() == 0 {
    } else if prec(e, s[0]) {
        assert forall|k1: int, k2: int| 0 <= k1 < k2 < r.len() implies prec(r[k1], r[k2]) by {
            if k1 == 0 {
                assert(r[k2] == s[k2 - 1]);
                if k2 > 1 {
                    assert(prec(s[0], s[k2 - 1]));
                }
            } else {
                assert(r[k1] == s[k1 - 1]);
                assert(r[k2] == s[k2 - 1]);
                assert(prec(s[k1 - 1], s[k2 - 1]));
            }
        }
    } else {
        let s1 = s.drop_first();
        assert forall|k: int| 0 <= k < s1.len() implies (#[trigger] s1[k]).index != e.index by {
            assert(s1[k] == s[k + 1]);
        }
        lemma_insert_entry_sorted(s1, e);
        lemma_insert_entry_membership(s1, e);
        let rr = insert_entry(s1, e);
        // The head precedes the new entry and every old tail entry, so it
        // precedes everything in the inserted tail.
        assert(prec(s[0], e));
        assert forall|k1: int, k2: int| 0 <= k1 < k2 < r.len() implies prec(r[k1], r[k2]) by {
            if k1 == 0 {
                assert(r[k2] == rr[k2 - 1]);
                assert(rr[k2 - 1] == e || s1.contains(rr[k2 - 1]));
                if rr[k2 - 1] != e {
                    let j = choose|j: int| 0 <= j < s1.len() && s1[j] == rr[k2 - 1];
                    assert(s1[j] == s[j + 1]);
                    assert(prec(s[0], s[j + 1]));
                }
            } else {
                assert(r[k1] == rr[k1 - 1]);
                assert(r[k2] == rr[k2 - 1]);
                assert(prec(rr[k1 - 1], rr[k2 - 1]));
            }
        }
    }
}

/// Inserting at the first position whose entry the new one precedes is the
/// same as the recursive insertion.
pub proof fn lemma_insert_entry_at(s: Seq<EntryModel>, e: EntryModel, pos: int)
    requires
        0 <= pos <= s.len(),
        forall|k: int| 0 <= k < pos ==> !prec(e, #[trigger] s[k]),
        pos < s.len() ==> prec(e, s[pos]),
    ensures
        insert_entry(s, e) == s.insert(pos, e),
    decreases s.len(),
{
    if s.len() == 0 {
        assert(insert_entry(s, e) =~= s.insert(0, e));
    } else if pos == 0 {
        assert(prec(e, s[0]));
        assert(insert_entry(s, e) =~= s.insert(0, e));
    } else {
        assert(!prec(e, s[0]));
        let s1 = s.drop_first();
        assert forall|k: int| 0 <= k < pos - 1 implies !prec(e, #[trigger] s1[k]) by {
            assert(s1[k] == s[k + 1]);
        }
        assert(pos - 1 < s1.len() ==> s1[pos - 1] == s[pos]);
        lemma_insert_entry_at(s1, e, pos - 1);
        assert(seq![s[0]] + s1.insert(pos - 1, e) =~= s.insert(pos, e));
    }
}

/// An entry that every present entry precedes is appended at the end.
pub proof fn lemma_insert_entry_append(s: Seq<EntryModel>, e: EntryModel)
    requires
        forall|k: int| 0 <= k < s.len() ==> prec(#[trigger] s[k], e),
    ensures
        insert_entry(s, e) == s.push(e),
    decreases s.len(),
{
    if s.len() == 0 {
        assert(insert_entry(s, e) =~= s.push(e));
    } else {
        assert(prec(s[0], e));
        assert(!prec(e, s[0]));
        let s1 = s.drop_first();
        assert forall|k: int| 0 <= k < s1.len() implies prec(#[trigger] s1[k], e) by {
            assert(s1[k] == s[k + 1]);
        }
        lemma_insert_entry_append(s1, e);
        assert(seq![s[0]] + s1.push(e) =~= s.push(e));
    }
}

/// What a ranking is: genuine entries only, every matching item present,
/// in sorted order.
pub open spec fn rank_invariant(
    p: PatternModel,
    items: Seq<ItemModel>,
    n: int,
    r: Seq<EntryModel>,
) -> bool {
    &&& forall|k: int|
        0 <= k < r.len() ==> 0 <= (#[trigger] r[k]).index < n && item_score(p, items[r[k].index])
            == Some(r[k].score)
    &&& forall|i: int|
        0 <= i < n && (#[trigger] item_score(p, items[i])) is Some ==> r.contains(
            EntryModel { score: item_score(p, items[i])->0, index: i },
        )
    &&& sorted(r)
}

/// The ranking of the first `n` items is a ranking in the above sense.
pub proof fn lemma_rank_upto_invariant(p: PatternModel, items: Seq<ItemModel>, n: int)
    requires
        n <= items.len(),
    ensures
        rank_invariant(p, items, n, rank_upto(p, items, n)),
    decreases n,
{
    if n <= 0 {
    } else {
        lemma_rank_upto_invariant(p, items, n - 1);
        let r0 = rank_upto(p, items, n - 1);
        match item_score(p, items[n - 1]) {
            Some(sc) => {
                let e = EntryModel { score: sc, index: n - 1 };
                let r = insert_entry(r0, e);
                lemma_insert_entry_len(r0, e);
                lemma_insert_entry_membership(r0, e);
                lemma_insert_entry_sorted(r0, e);
                assert forall|i: int|
                    0 <= i < n && (#[trigger] item_score(p, items[i])) is Some implies r.contains(
                    EntryModel { score: item_score(p, items[i])->0, index: i },
                ) by {
                    if i < n - 1 {
                        assert(r0.contains(EntryModel { score: item_score(p, items[i])->0, index: i }));
                    }
                }
            },
            None => {},
        }
    }
}

} // verus!
