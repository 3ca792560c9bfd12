//! The candidate store.
//!
//! The store owns the current candidate set and a generation counter.  A
//! reload swaps the whole set atomically and bumps the generation; there are
//! no item-level updates.  Ranking state is tagged with a generation, and
//! state from a stale generation is discarded, never merged.

use vstd::prelude::*;

use crate::item::{models_of, Item, ItemModel};

verus! {

/// The mathematical content of the store: the candidate models in insertion
/// order, and the generation of the set.
pub ghost struct StoreModel {
    pub items: Seq<ItemModel>,
    pub generation: int,
}

/// The current candidate set, tagged with its generation.
pub struct CandidateStore {
    pub(crate) items: Vec<Item>,
    pub(crate) generation: u64,
}

impl View for CandidateStore {
    type V = StoreModel;

    closed spec fn view(&self) -> StoreModel {
        StoreModel { items: models_of(self.items@), generation: self.generation as int }
    }
}

impl CandidateStore {
    /// An empty store at generation zero.
    pub fn new() -> (r: CandidateStore)
        ensures
            r@.items.len() == 0,
            r@.generation == 0,
    {
        CandidateStore { items: Vec::new(), generation: 0 }
    }

    /// Swap the whole candidate set and move to the next generation.
    pub fn replace(&mut self, items: Vec<Item>)
        requires
            old(self)@.generation < u64::MAX,
        ensures
            final(self)@.items == models_of(items@),
            final(self)@.generation == old(self)@.generation + 1,
    {
        self.items = items;
        self.generation = self.generation + 1;
    }

    pub fn len(&self) -> (n: usize)
        ensures
            n == self@.items.len(),
    {
        self.items.len()
    }

    pub fn generation(&self) -> (g: u64)
        ensures
            g as int == self@.generation,
    {
        self.generation
    }

    /// Read-only access to one candidate.
    pub fn item(&self, i: usize) -> (r: &Item)
        requires
            i < self@.items.len(),
        ensures
            r@ == self@.items[i as int],
    {
        &self.items[i]
    }
}

} // verus!
