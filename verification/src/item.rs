//! Candidate items and their searchable columns.
//!
//! An item carries an opaque payload (a display name and a secondary
//! identifier string) and, derived from it once at construction, its
//! searchable text columns in raw and case-folded form.  Items are immutable
//! once built; any change to the candidate set is a wholesale reload.

use vstd::prelude::*;

use crate::pattern::{Pattern, PatternModel};
use crate::text::{chars_of, column_score, fold, fold_chars, score_column};

verus! {

/// The mathematical content of an item: its two searchable texts.
pub ghost struct ItemModel {
    pub name: Seq<char>,
    pub secondary: Seq<char>,
}

/// The searchable columns of an item, in order.
pub open spec fn cols_of(m: ItemModel) -> Seq<Seq<char>> {
    seq![m.name, m.secondary]
}

/// The text a column contributes to the match: verbatim under a
/// case-sensitive pattern, case-folded otherwise.
pub open spec fn scored_text(p: PatternModel, col: Seq<char>) -> Seq<char> {
    if p.sensitive {
        col
    } else {
        fold(col)
    }
}

/// The better of two optional scores; any score beats no match.
pub open spec fn opt_best(a: Option<int>, b: Option<int>) -> Option<int> {
    match (a, b) {
        (Some(x), Some(y)) => Some(
            if x >= y {
                x
            } else {
                y
            },
        ),
        (Some(x), None) => Some(x),
        (None, other) => other,
    }
}

/// Score of an item against a pattern: the best column score, or `None`
/// when no column matches.  An invalid pattern matches nothing.
pub open spec fn item_score(p: PatternModel, m: ItemModel) -> Option<int> {
    if !p.valid {
        None
    } else {
        opt_best(
            column_score(p.chars, scored_text(p, m.name)),
            column_score(p.chars, scored_text(p, m.secondary)),
        )
    }
}

/// One candidate of the search.
pub struct Item {
    display_name: String,
    secondary: String,
    name_raw: Vec<char>,
    name_folded: Vec<char>,
    sec_raw: Vec<char>,
    sec_folded: Vec<char>,
}

impl Item {
    /// The derived columns always mirror the payload strings.
    #[verifier::type_invariant]
    spec fn derived_columns_consistent(self) -> bool {
        &&& self.name_raw@ == self.display_name@
        &&& self.name_folded@ == fold(self.display_name@)
        &&& self.sec_raw@ == self.secondary@
        &&& self.sec_folded@ == fold(self.secondary@)
    }

    /// Build an item, deriving its searchable columns once.
    pub fn new(display_name: String, secondary: String) -> (r: Item)
        ensures
            r@ == (ItemModel { name: display_name@, secondary: secondary@ }),
    {
        let name_raw = chars_of(display_name.as_str());
        let name_folded = fold_chars(&name_raw);
        let sec_raw = chars_of(secondary.as_str());
        let sec_folded = fold_chars(&sec_raw);
        Item { display_name, secondary, name_raw, name_folded, sec_raw, sec_folded }
    }

    pub fn display_name(&self) -> (r: &String)
        ensures
            r@ == self@.name,
    {
        &self.display_name
    }

    pub fn secondary(&self) -> (r: &String)
        ensures
            r@ == self@.secondary,
    {
        &self.secondary
    }

    /// Score this item against a compiled pattern.  A scoring failure on a
    /// column is impossible by construction: every column either matches
    /// with a score or does not match, so a bad column degrades to "this
    /// item does not match", never to an aborted pass.
    pub fn score(&self, p: &Pattern) -> (r: Option<usize>)
        ensures
            r is Some <==> item_score(p@, self@) is Some,
            r matches Some(s) ==> item_score(p@, self@) == Some(s as int),
    {
        proof {
            use_type_invariant(self);
        }
        if !p.valid {
            return None;
        }
        let name_col = if p.sensitive {
            &self.name_raw
        } else {
            &self.name_folded
        };
        let sec_col = if p.sensitive {
            &self.sec_raw
        } else {
            &self.sec_folded
        };
        let a = score_column(&p.chars, name_col);
        let b = score_column(&p.chars, sec_col);
        match (a, b) {
            (Some(x), Some(y)) => if x >= y {
                Some(x)
            } else {
                Some(y)
            },
            (Some(x), None) => Some(x),
            (None, other) => other,
        }
    }
}

impl View for Item {
    type V = ItemModel;

    closed spec fn view(&self) -> ItemModel {
        ItemModel { name: self.display_name@, secondary: self.secondary@ }
    }
}

/// The models of a sequence of items.
pub open spec fn models_of(items: Seq<Item>) -> Seq<ItemModel> {
    items.map_values(|it: Item| it@)
}

} // verus!
