//! The engine: one worker that owns the candidate store, the compiled
//! pattern and the ranking pass, driven by drained command bursts.
//!
//! The host loop realises the coalescer's states: it blocks for a first
//! command, drains the already-buffered rest without blocking, hands the
//! burst to [`Engine::apply`], and then calls [`Engine::tick`] in bounded
//! slices until the pass completes or a new command arrives.  A burst
//! arriving mid-pass simply leads to another `apply`, which discards the
//! stale pass, so partial results of a superseded generation or query are
//! never published.

use vstd::prelude::*;

use crate::coalesce::{cmd_models, coalesce, latest_query, latest_reload, Command, CommandModel};
use crate::item::{Item, ItemModel};
use crate::pattern::{compile, pattern_of, Pattern, PatternModel};
use crate::rank::{entries_of, rank_upto, Entry, EntryModel};
use crate::scheduler::{Scheduler, SliceReport};
use crate::store::CandidateStore;

verus! {

/// The mathematical content of the engine.
pub ghost struct EngineModel {
    /// The candidate set, in insertion order.
    pub items: Seq<ItemModel>,
    /// The generation of the candidate set.
    pub generation: int,
    /// The generation the in-progress pass ranks.
    pub pass_generation: int,
    /// The compiled current query.
    pub pattern: PatternModel,
    /// How many candidates the pass has examined.
    pub next: int,
    /// The ranking of the examined prefix.
    pub ranked: Seq<EntryModel>,
}

/// A well-formed engine: the pass ranks the current generation, has not run
/// past the candidate set, and its ranking is exactly the ranking of the
/// examined prefix.
pub open spec fn engine_wf(m: EngineModel) -> bool {
    &&& 0 <= m.next <= m.items.len()
    &&& m.ranked == rank_upto(m.pattern, m.items, m.next)
    &&& m.pass_generation == m.generation
}

/// What applying a drained burst does: the latest reload (if any) replaces
/// the candidate set and bumps the generation, the latest query (if any)
/// replaces the pattern, and any change discards the in-progress pass.
pub open spec fn apply_spec(m: EngineModel, cmds: Seq<CommandModel>) -> EngineModel {
    let items = match latest_reload(cmds) {
        Some(its) => its,
        None => m.items,
    };
    let generation = if latest_reload(cmds) is Some {
        m.generation + 1
    } else {
        m.generation
    };
    let pattern = match latest_query(cmds) {
        Some(q) => pattern_of(q),
        None => m.pattern,
    };
    if latest_reload(cmds) is Some || latest_query(cmds) is Some {
        EngineModel {
            items,
            generation,
            pass_generation: generation,
            pattern,
            next: 0,
            ranked: Seq::empty(),
        }
    } else {
        m
    }
}

/// The transient status of the engine after one slice.
pub enum EngineStatus {
    /// The pass is complete and nothing changed in its last slice.
    Idle,
    /// A pass over this generation is still in progress.
    Ranking(u64),
    /// The last slice changed the ranking of this generation.
    Changed(u64),
}

/// A published ranking: the entries of a pass, tagged with the generation
/// they rank.
pub struct RankedSnapshot {
    pub generation: u64,
    pub entries: Vec<Entry>,
}

/// The mathematical content of a snapshot.
pub ghost struct SnapshotModel {
    pub generation: int,
    pub entries: Seq<EntryModel>,
}

impl View for RankedSnapshot {
    type V = SnapshotModel;

    open spec fn view(&self) -> SnapshotModel {
        SnapshotModel { generation: self.generation as int, entries: entries_of(self.entries@) }
    }
}

/// The search engine worker's state.
pub struct Engine {
    pub(crate) store: CandidateStore,
    pub(crate) pattern: Pattern,
    pub(crate) sched: Scheduler,
}

impl View for Engine {
    type V = EngineModel;

    closed spec fn view(&self) -> EngineModel {
        EngineModel {
            items: self.store@.items,
            generation: self.store@.generation,
            pass_generation: self.sched@.pass_generation,
            pattern: self.pattern@,
            next: self.sched@.next,
            ranked: self.sched@.ranked,
        }
    }
}

impl Engine {
    /// A fresh engine: no candidates, generation zero, the empty query.
    pub fn new() -> (r: Engine)
        ensures
            engine_wf(r@),
            r@.items.len() == 0,
            r@.generation == 0,
            r@.pattern == pattern_of(Seq::<char>::empty()),
            r@.next == 0,
            r@.ranked == Seq::<EntryModel>::empty(),
    {
        let store = CandidateStore::new();
        let pattern = compile("");
        let sched = Scheduler::new();
        proof {
            reveal_strlit("");
            assert(""@ =~= Seq::<char>::empty());
        }
        Engine { store, pattern, sched }
    }

    /// Apply a drained burst of commands.  Only the latest reload and the
    /// latest query of the burst take effect; every superseded command is
    /// dropped without side effects.  Any change discards the in-progress
    /// pass, so a stale partial ranking is never carried over.
    pub fn apply(&mut self, cmds: Vec<Command>)
        requires
            engine_wf(old(self)@),
            old(self)@.generation < u64::MAX,
        ensures
            engine_wf(final(self)@),
            final(self)@ == apply_spec(old(self)@, cmd_models(cmds@)),
    {
        let ghost cms = cmd_models(cmds@);
        let plan = coalesce(cmds);
        let mut did_replace = false;
        match plan.reload {
            Some(v) => {
                self.store.replace(v);
                did_replace = true;
            },
            None => {},
        }
        match plan.query {
            Some(q) => {
                self.pattern = compile(q.as_str());
                did_replace = true;
            },
            None => {},
        }
        if did_replace {
            let g = self.store.generation();
            self.sched.reset(g);
        }
    }

    /// Perform one bounded slice of the ranking pass.
    pub fn tick(&mut self, budget: usize) -> (rep: SliceReport)
        requires
            engine_wf(old(self)@),
        ensures
            engine_wf(final(self)@),
            final(self)@.items == old(self)@.items,
            final(self)@.generation == old(self)@.generation,
            final(self)@.pattern == old(self)@.pattern,
            final(self)@.next == if old(self)@.next + budget <= old(self)@.items.len() {
                old(self)@.next + budget
            } else {
                old(self)@.items.len() as int
            },
            final(self)@.ranked == rank_upto(
                old(self)@.pattern,
                old(self)@.items,
                final(self)@.next,
            ),
            rep.changed == (final(self)@.ranked != old(self)@.ranked),
            rep.complete == (final(self)@.next == old(self)@.items.len()),
            rep.generation as int == old(self)@.generation,
    {
        self.sched.advance(&self.pattern, &self.store, budget)
    }

    /// The transient status after a slice.
    pub fn status(&self, rep: &SliceReport) -> (s: EngineStatus)
        ensures
            s == (if rep.changed {
                EngineStatus::Changed(rep.generation)
            } else if rep.complete {
                EngineStatus::Idle
            } else {
                EngineStatus::Ranking(rep.generation)
            }),
    {
        if rep.changed {
            EngineStatus::Changed(rep.generation)
        } else if rep.complete {
            EngineStatus::Idle
        } else {
            EngineStatus::Ranking(rep.generation)
        }
    }

    /// A read-only ranking snapshot, tagged with the generation it ranks.
    pub fn snapshot(&self) -> (snap: RankedSnapshot)
        ensures
            snap@.generation == self@.generation,
            snap@.entries == self@.ranked,
    {
        let g = self.store.generation();
        let src = self.sched.ranked_entries();
        let mut entries: Vec<Entry> = Vec::new();
        let mut i: usize = 0;
        while i < src.len()
            invariant
                i <= src@.len(),
                entries@ == src@.take(i as int),
            decreases src@.len() - i,
        {
            entries.push(src[i]);
            proof {
                assert(entries@ =~= src@.take(i + 1));
            }
            i += 1;
        }
        proof {
            assert(src@.take(src@.len() as int) =~= src@);
        }
        RankedSnapshot { generation: g, entries }
    }

    /// How many candidates the current generation holds.
    pub fn candidate_count(&self) -> (n: usize)
        ensures
            n == self@.items.len(),
    {
        self.store.len()
    }

    /// The current generation.
    pub fn generation(&self) -> (g: u64)
        ensures
            g as int == self@.generation,
    {
        self.store.generation()
    }

    /// Read-only access to one candidate of the current generation.
    pub fn item(&self, i: usize) -> (r: &Item)
        requires
            i < self@.items.len(),
        ensures
            r@ == self@.items[i as int],
    {
        self.store.item(i)
    }
}

} // verus!
