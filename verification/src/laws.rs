//! The engine's laws: what holds of every burst, every candidate set and
//! every query, proved once and for all over the models that the public
//! contracts speak of.

use vstd::prelude::*;

use crate::coalesce::{latest_query, latest_reload, CommandModel};
use crate::engine::{apply_spec, engine_wf, EngineModel};
use crate::item::{item_score, ItemModel};
use crate::pattern::{pattern_of, PatternModel};
use crate::rank::{lemma_insert_entry_append, lemma_rank_upto_invariant, prec, rank_of, rank_upto,
    EntryModel};
use crate::text::{fold, has_control, match_width};

verus! {

/// In a burst holding only `Search` commands, the last one's query is the
/// surviving query and no reload survives.
pub proof fn lemma_latest_of_searches(cmds: Seq<CommandModel>)
    requires
        cmds.len() > 0,
        forall|i: int| 0 <= i < cmds.len() ==> (#[trigger] cmds[i]) is Search,
    ensures
        latest_query(cmds) == Some(cmds.last()->Search_0),
        latest_reload(cmds) is None,
    decreases cmds.len(),
{
    if cmds.len() == 1 {
    } else {
        let rest = cmds.drop_last();
        assert forall|i: int| 0 <= i < rest.len() implies (#[trigger] rest[i]) is Search by {
            assert(rest[i] == cmds[i]);
        }
        lemma_latest_of_searches(rest);
    }
}

/// Coalescing correctness: a burst of `Search` commands, however long,
/// leads to exactly one fresh pass whose pattern is compiled from the last
/// command's query; intermediate queries leave no trace, the candidate set
/// and its generation stay as they were, and the stale partial ranking is
/// discarded, so an intermediate query can never be published.
pub proof fn law_coalescing_last_query(m: EngineModel, cmds: Seq<CommandModel>)
    requires
        engine_wf(m),
        cmds.len() > 0,
        forall|i: int| 0 <= i < cmds.len() ==> (#[trigger] cmds[i]) is Search,
    ensures
        apply_spec(m, cmds).items == m.items,
        apply_spec(m, cmds).generation == m.generation,
        apply_spec(m, cmds).pattern == pattern_of(cmds.last()->Search_0),
        apply_spec(m, cmds).next == 0,
        apply_spec(m, cmds).ranked == Seq::<EntryModel>::empty(),
        engine_wf(apply_spec(m, cmds)),
        apply_spec(m, cmds) == apply_spec(m, seq![cmds.last()]),
{
    lemma_latest_of_searches(cmds);
    let single = seq![cmds.last()];
    assert(single.last() == cmds.last());
    assert(single.drop_last() =~= Seq::<CommandModel>::empty());
    assert(latest_reload(Seq::<CommandModel>::empty()) is None);
    assert(latest_query(single) == Some(cmds.last()->Search_0));
    assert(latest_reload(single) is None);
}

/// Reload resets ranking: a burst whose surviving reload replaces the
/// candidate set moves the engine to the next generation with an empty,
/// fresh pass, so no partial ranking of the superseded generation survives,
/// and the next snapshot is tagged with the incremented generation.
pub proof fn law_reload_resets_ranking(
    m: EngineModel,
    cmds: Seq<CommandModel>,
    items: Seq<ItemModel>,
)
    requires
        engine_wf(m),
        latest_reload(cmds) == Some(items),
    ensures
        apply_spec(m, cmds).generation == m.generation + 1,
        apply_spec(m, cmds).pass_generation == m.generation + 1,
        apply_spec(m, cmds).items == items,
        apply_spec(m, cmds).next == 0,
        apply_spec(m, cmds).ranked == Seq::<EntryModel>::empty(),
        engine_wf(apply_spec(m, cmds)),
{
}

/// Determinism: a completed, uninterrupted pass holds the full ranking of
/// its candidate set against its pattern, whatever the slice budgets were;
/// two completed passes over the same candidates and pattern are equal.
pub proof fn law_ranking_deterministic(m1: EngineModel, m2: EngineModel)
    requires
        engine_wf(m1),
        engine_wf(m2),
        m1.items == m2.items,
        m1.pattern == m2.pattern,
        m1.next == m1.items.len(),
        m2.next == m2.items.len(),
    ensures
        m1.ranked == rank_of(m1.pattern, m1.items),
        m1.ranked == m2.ranked,
{
}

/// Ranking order: in a full ranking, an earlier entry has the higher score,
/// or the same score and the earlier insertion position.
pub proof fn law_rank_order(p: PatternModel, items: Seq<ItemModel>, k1: int, k2: int)
    requires
        0 <= k1 < k2 < rank_of(p, items).len(),
    ensures
        prec(rank_of(p, items)[k1], rank_of(p, items)[k2]),
{
    lemma_rank_upto_invariant(p, items, items.len() as int);
}

/// Tie-break stability: two matching items with the same score stand in the
/// full ranking, in their insertion order.
pub proof fn law_tie_break_stable(p: PatternModel, items: Seq<ItemModel>, i: int, j: int)
    requires
        0 <= i < j < items.len(),
        item_score(p, items[i]) is Some,
        item_score(p, items[i]) == item_score(p, items[j]),
    ensures
        exists|ki: int, kj: int|
            0 <= ki < kj < rank_of(p, items).len() && rank_of(p, items)[ki] == (EntryModel {
                score: item_score(p, items[i])->0,
                index: i,
            }) && rank_of(p, items)[kj] == (EntryModel {
                score: item_score(p, items[j])->0,
                index: j,
            }),
{
    lemma_rank_upto_invariant(p, items, items.len() as int);
    let r = rank_of(p, items);
    let ei = EntryModel { score: item_score(p, items[i])->0, index: i };
    let ej = EntryModel { score: item_score(p, items[j])->0, index: j };
    assert(r.contains(ei));
    assert(r.contains(ej));
    let ki = choose|k: int| 0 <= k < r.len() && r[k] == ei;
    let kj = choose|k: int| 0 <= k < r.len() && r[k] == ej;
    if kj < ki {
        assert(prec(r[kj], r[ki]));
        assert(false);
    }
    assert(0 <= ki < kj < r.len() && r[ki] == ei && r[kj] == ej);
}

/// Every matching item of the examined prefix stands in the ranking, every
/// ranked entry is a matching item with its true score, and no item ranks
/// twice (positions and entries correspond one to one through the index).
pub proof fn law_rank_sound_and_complete(p: PatternModel, items: Seq<ItemModel>)
    ensures
        forall|k: int|
            0 <= k < rank_of(p, items).len() ==> {
                let e = #[trigger] rank_of(p, items)[k];
                0 <= e.index < items.len() && item_score(p, items[e.index]) == Some(e.score)
            },
        forall|i: int|
            0 <= i < items.len() && (#[trigger] item_score(p, items[i])) is Some ==> rank_of(
                p,
                items,
            ).contains(EntryModel { score: item_score(p, items[i])->0, index: i }),
{
    lemma_rank_upto_invariant(p, items, items.len() as int);
}

/// The empty query ranking of `n` items: every item, neutral score, in
/// insertion order.
pub proof fn lemma_empty_query_upto(items: Seq<ItemModel>, n: int)
    requires
        0 <= n <= items.len(),
    ensures
        rank_upto(pattern_of(Seq::<char>::empty()), items, n) =~= Seq::new(
            n as nat,
            |i: int| EntryModel { score: 0, index: i },
        ),
    decreases n,
{
    let pe = pattern_of(Seq::<char>::empty());
    assert(fold(Seq::<char>::empty()) =~= Seq::<char>::empty());
    if n == 0 {
    } else {
        lemma_empty_query_upto(items, n - 1);
        let prev = rank_upto(pe, items, n - 1);
        assert(match_width(pe.chars, fold(items[n - 1].name)) == Some(0int));
        assert(item_score(pe, items[n - 1]) == Some(0int));
        let e = EntryModel { score: 0, index: n - 1 };
        assert forall|k: int| 0 <= k < prev.len() implies prec(#[trigger] prev[k], e) by {
            assert(prev[k] == EntryModel { score: 0, index: k });
        }
        lemma_insert_entry_append(prev, e);
    }
}

/// Empty query: compiling the empty string and ranking yields every item
/// with the same neutral score, in insertion order.
pub proof fn law_empty_query(items: Seq<ItemModel>)
    ensures
        rank_of(pattern_of(Seq::<char>::empty()), items) == Seq::new(
            items.len(),
            |i: int| EntryModel { score: 0, index: i },
        ),
{
    lemma_empty_query_upto(items, items.len() as int);
}

/// An empty candidate set is a valid state: ranking over it yields the
/// empty result, never an error.
pub proof fn law_empty_candidates(p: PatternModel)
    ensures
        rank_of(p, Seq::<ItemModel>::empty()) == Seq::<EntryModel>::empty(),
{
}

/// A malformed query (one holding a control character) compiles to a
/// pattern that matches nothing: its ranking is empty, for any candidate
/// set, and compilation never fails.
pub proof fn law_malformed_query_matches_nothing(q: Seq<char>, items: Seq<ItemModel>, n: int)
    requires
        has_control(q),
        0 <= n <= items.len(),
    ensures
        rank_upto(pattern_of(q), items, n) == Seq::<EntryModel>::empty(),
    decreases n,
{
    if n > 0 {
        law_malformed_query_matches_nothing(q, items, n - 1);
    }
}

} // verus!
