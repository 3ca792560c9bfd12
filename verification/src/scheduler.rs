//! The match scheduler.
//!
//! A ranking pass walks the candidate set in insertion order and keeps the
//! entries ranked so far in ranking order.  Work proceeds in bounded slices:
//! one call to `advance` examines at most `budget` items and then yields, so
//! the host loop stays responsive to new commands.  A `reset` discards all
//! in-progress state; there is no incremental re-ranking across distinct
//! queries or reloads.

use vstd::prelude::*;

use crate::pattern::Pattern;
use crate::rank::{entries_of, insert_entry, lemma_insert_entry_at, lemma_insert_entry_len, prec,
    rank_upto, Entry, EntryModel};
use crate::store::CandidateStore;

verus! {

/// What one slice reports back to the driving loop.
#[derive(Clone, Copy, Debug, PartialEq, Eq, Structural)]
pub struct SliceReport {
    /// Whether the ranked ordering changed during this slice.
    pub changed: bool,
    /// Whether the pass has examined the whole candidate set.
    pub complete: bool,
    /// The generation this pass ranks.
    pub generation: u64,
}

/// The mathematical content of the scheduler: which generation the pass is
/// over, how many items it has examined, and the ranking built so far.
pub ghost struct SchedulerModel {
    pub pass_generation: int,
    pub next: int,
    pub ranked: Seq<EntryModel>,
}

/// The in-progress state of one ranking pass.
pub struct Scheduler {
    pub(crate) pass_generation: u64,
    pub(crate) next: usize,
    pub(crate) ranked: Vec<Entry>,
}

impl View for Scheduler {
    type V = SchedulerModel;

    closed spec fn view(&self) -> SchedulerModel {
        SchedulerModel {
            pass_generation: self.pass_generation as int,
            next: self.next as int,
            ranked: entries_of(self.ranked@),
        }
    }
}

/// Whether `a` ranks before `b`.
fn entry_precedes(a: &Entry, b: &Entry) -> (r: bool)
    ensures
        r == prec(a@, b@),
{
    a.score > b.score || (a.score == b.score && a.index < b.index)
}

/// Insert an entry at its ranking position.
fn insert_ranked(v: &mut Vec<Entry>, e: Entry)
    ensures
        entries_of(final(v)@) == insert_entry(entries_of(old(v)@), e@),
{
    let mut pos: usize = 0;
    while pos < v.len() && !entry_precedes(&e, &v[pos])
        invariant
            pos <= v@.len(),
            v == old(v),
            forall|k: int| 0 <= k < pos ==> !prec(e@, entries_of(v@)[k]),
        decreases v@.len() - pos,
    {
        pos += 1;
    }
    proof {
        lemma_insert_entry_at(entries_of(v@), e@, pos as int);
    }
    let ghost before = v@;
    v.insert(pos, e);
    proof {
        assert(entries_of(v@) =~= entries_of(before).insert(pos as int, e@));
    }
}

impl Scheduler {
    /// A scheduler with no pass in progress, over generation zero.
    pub fn new() -> (r: Scheduler)
        ensures
            r@ == (SchedulerModel { pass_generation: 0, next: 0, ranked: Seq::empty() }),
    {
        proof {
            assert(entries_of(Seq::<Entry>::empty()) =~= Seq::<EntryModel>::empty());
        }
        Scheduler { pass_generation: 0, next: 0, ranked: Vec::new() }
    }

    /// Discard all in-progress state and begin a fresh pass over the given
    /// generation.
    pub fn reset(&mut self, generation: u64)
        ensures
            final(self)@ == (SchedulerModel {
                pass_generation: generation as int,
                next: 0,
                ranked: Seq::empty(),
            }),
    {
        proof {
            assert(entries_of(Seq::<Entry>::empty()) =~= Seq::<EntryModel>::empty());
        }
        self.pass_generation = generation;
        self.next = 0;
        self.ranked = Vec::new();
    }

    /// The ranking built so far.
    pub fn ranked_entries(&self) -> (r: &Vec<Entry>)
        ensures
            entries_of(r@) == self@.ranked,
    {
        &self.ranked
    }

    /// Perform one bounded slice of the pass: examine at most `budget`
    /// further items and keep the ranking consistent with the examined
    /// prefix.  Reports whether the ranking changed and whether the pass is
    /// complete.
    pub fn advance(&mut self, pattern: &Pattern, store: &CandidateStore, budget: usize) -> (rep:
        SliceReport)
        requires
            old(self)@.next <= store@.items.len(),
            old(self)@.ranked == rank_upto(pattern@, store@.items, old(self)@.next),
        ensures
            final(self)@.pass_generation == old(self)@.pass_generation,
            final(self)@.next == if old(self)@.next + budget <= store@.items.len() {
                old(self)@.next + budget
            } else {
                store@.items.len() as int
            },
            final(self)@.ranked == rank_upto(pattern@, store@.items, final(self)@.next),
            rep.changed == (final(self)@.ranked != old(self)@.ranked),
            rep.complete == (final(self)@.next == store@.items.len()),
            rep.generation as int == old(self)@.pass_generation,
    {
        let n = store.len();
        let mut step: usize = 0;
        let mut changed = false;
        while step < budget && self.next < n
            invariant
                n == store@.items.len(),
                step <= budget,
                self@.next == old(self)@.next + step,
                self@.next <= n,
                self@.pass_generation == old(self)@.pass_generation,
                self@.ranked == rank_upto(pattern@, store@.items, self@.next),
                changed ==> self@.ranked.len() > old(self)@.ranked.len(),
                !changed ==> self@.ranked == old(self)@.ranked,
            decreases budget - step,
        {
            let ghost before = self@.ranked;
            let it = store.item(self.next);
            let sc = it.score(pattern);
            match sc {
                Some(s) => {
                    let e = Entry { score: s, index: self.next };
                    proof {
                        lemma_insert_entry_len(before, e@);
                    }
                    insert_ranked(&mut self.ranked, e);
                    changed = true;
                },
                None => {},
            }
            self.next = self.next + 1;
            step = step + 1;
        }
        SliceReport { changed, complete: self.next == n, generation: self.pass_generation }
    }
}

} // verus!
