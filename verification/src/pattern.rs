//! The pattern compiler.
//!
//! A raw query string is compiled once into a matchable pattern.  The case
//! policy is "smart": when the query holds any capital letter the match is
//! case-sensitive; otherwise both query and columns are compared case-folded.
//! A query holding a control character is malformed and compiles to a
//! pattern that matches nothing (compilation never fails).

use vstd::prelude::*;

use crate::text::{chars_of, fold, fold_chars, has_control, has_upper, scan_control, scan_upper};

verus! {

/// The mathematical content of a compiled pattern.
pub ghost struct PatternModel {
    /// The query's characters, case-folded unless the match is case-sensitive.
    pub chars: Seq<char>,
    /// Whether the match is case-sensitive.
    pub sensitive: bool,
    /// Whether the query was well-formed; an invalid pattern matches nothing.
    pub valid: bool,
}

/// What compiling a query yields, as a function of the query text alone.
pub open spec fn pattern_of(q: Seq<char>) -> PatternModel {
    PatternModel {
        chars: if has_upper(q) {
            q
        } else {
            fold(q)
        },
        sensitive: has_upper(q),
        valid: !has_control(q),
    }
}

/// A compiled pattern.
pub struct Pattern {
    pub chars: Vec<char>,
    pub sensitive: bool,
    pub valid: bool,
}

impl View for Pattern {
    type V = PatternModel;

    open spec fn view(&self) -> PatternModel {
        PatternModel { chars: self.chars@, sensitive: self.sensitive, valid: self.valid }
    }
}

/// Compile a raw query.  Compilation is total and deterministic: the result
/// is a function of the query text alone, so compiling the same query twice
/// yields equal patterns.
pub fn compile(query: &str) -> (p: Pattern)
    ensures
        p@ == pattern_of(query@),
{
    let raw = chars_of(query);
    let sensitive = scan_upper(&raw);
    let valid = !scan_control(&raw);
    let chars = if sensitive {
        raw
    } else {
        fold_chars(&raw)
    };
    Pattern { chars, sensitive, valid }
}

} // verus!
