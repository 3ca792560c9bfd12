//! Characters and case folding.
//!
//! The case policy folds only the ASCII capital letters; all other
//! characters compare verbatim.  Control characters mark a query as
//! malformed (it then matches nothing rather than failing compilation).

use vstd::prelude::*;

verus! {

/// The ASCII capital letters, the only characters the case policy folds.
pub open spec fn is_upper(c: char) -> bool {
    65 <= (c as u32) && (c as u32) <= 90
}

/// ASCII control characters, which make a query malformed.
pub open spec fn is_control_char(c: char) -> bool {
    (c as u32) < 32 || (c as u32) == 127
}

/// Case folding of one character: a capital letter maps to the
/// corresponding small letter, everything else to itself.
pub open spec fn fold_char(c: char) -> char {
    if is_upper(c) {
        (c as u32 + 32) as char
    } else {
        c
    }
}

/// Case folding of a whole text.
pub open spec fn fold(s: Seq<char>) -> Seq<char> {
    s.map_values(|c: char| fold_char(c))
}

/// Whether any character of `s` is a capital letter.
pub open spec fn has_upper(s: Seq<char>) -> bool {
    exists|i: int| 0 <= i < s.len() && is_upper(s[i])
}

/// Whether any character of `s` is a control character.
pub open spec fn has_control(s: Seq<char>) -> bool {
    exists|i: int| 0 <= i < s.len() && is_control_char(s[i])
}

/// Width of the leftmost subsequence match: how many leading characters of
/// `t` the greedy left-to-right match of `p` consumes, or `None` when `p` is
/// not a subsequence of `t`.
pub open spec fn match_width(p: Seq<char>, t: Seq<char>) -> Option<int>
    decreases t.len(),
{
    if p.len() == 0 {
        Some(0)
    } else if t.len() == 0 {
        None
    } else if t[0] == p[0] {
        match match_width(p.drop_first(), t.drop_first()) {
            Some(w) => Some(w + 1),
            None => None,
        }
    } else {
        match match_width(p, t.drop_first()) {
            Some(w) => Some(w + 1),
            None => None,
        }
    }
}

/// Score of `p` against one searchable column `t`.  The match must finish
/// within a prefix of `t` no longer than twice the pattern length; a sparser
/// occurrence is treated as no match.  A tighter match scores higher; the
/// score of a non-empty pattern ranges over `0 ..= p.len()`, and the empty
/// pattern scores a neutral `0` against every column.
pub open spec fn column_score(p: Seq<char>, t: Seq<char>) -> Option<int> {
    match match_width(p, t) {
        Some(w) => if w <= 2 * p.len() {
            Some(2 * p.len() - w)
        } else {
            None
        },
        None => None,
    }
}

/// A matched width is never shorter than the pattern nor longer than the column.
pub proof fn lemma_match_width_bounds(p: Seq<char>, t: Seq<char>)
    ensures
        match_width(p, t) matches Some(w) ==> p.len() <= w <= t.len(),
    decreases t.len(),
{
    if p.len() == 0 {
    } else if t.len() == 0 {
    } else if t[0] == p[0] {
        lemma_match_width_bounds(p.drop_first(), t.drop_first());
    } else {
        lemma_match_width_bounds(p, t.drop_first());
    }
}

/// `Some(o + k)` when `o` holds a value, `None` otherwise.
pub open spec fn opt_add(o: Option<int>, k: int) -> Option<int> {
    match o {
        Some(w) => Some(w + k),
        None => None,
    }
}

pub fn fold_char_exec(c: char) -> (r: char)
    ensures
        r == fold_char(c),
{
    let code = c as u32;
    if 65 <= code && code <= 90 {
        let low = (code + 32) as u8;
        proof {
            assert((((code + 32) as u8) as u32) == code + 32) by (bit_vector)
                requires
                    65 <= code <= 90,
            ;
        }
        low as char
    } else {
        c
    }
}

/// The characters of a string, in order.
pub fn chars_of(s: &str) -> (r: Vec<char>)
    ensures
        r@ == s@,
{
    let n = s.unicode_len();
    let mut r: Vec<char> = Vec::new();
    let mut i: usize = 0;
    while i < n
        invariant
            i <= n,
            n == s@.len(),
            r@ == s@.take(i as int),
        decreases n - i,
    {
        let c = s.get_char(i);
        r.push(c);
        proof {
            assert(r@ =~= s@.take(i + 1));
        }
        i += 1;
    }
    proof {
        assert(s@.take(n as int) =~= s@);
    }
    r
}

/// Case folding of a whole column.
pub fn fold_chars(v: &Vec<char>) -> (r: Vec<char>)
    ensures
        r@ == fold(v@),
{
    let mut r: Vec<char> = Vec::new();
    let mut i: usize = 0;
    while i < v.len()
        invariant
            i <= v@.len(),
            r@ == fold(v@.take(i as int)),
        decreases v@.len() - i,
    {
        r.push(fold_char_exec(v[i]));
        proof {
            assert(r@ =~= fold(v@.take(i + 1)));
        }
        i += 1;
    }
    proof {
        assert(v@.take(v@.len() as int) =~= v@);
    }
    r
}

/// Whether the text holds any capital letter.
pub fn scan_upper(v: &Vec<char>) -> (r: bool)
    ensures
        r == has_upper(v@),
{
    let mut i: usize = 0;
    while i < v.len()
        invariant
            i <= v@.len(),
            forall|k: int| 0 <= k < i ==> !is_upper(v@[k]),
        decreases v@.len() - i,
    {
        let code = v[i] as u32;
        if 65 <= code && code <= 90 {
            return true;
        }
        i += 1;
    }
    false
}

/// Whether the text holds any control character.
pub fn scan_control(v: &Vec<char>) -> (r: bool)
    ensures
        r == has_control(v@),
{
    let mut i: usize = 0;
    while i < v.len()
        invariant
            i <= v@.len(),
            forall|k: int| 0 <= k < i ==> !is_control_char(v@[k]),
        decreases v@.len() - i,
    {
        let code = v[i] as u32;
        if code < 32 || code == 127 {
            return true;
        }
        i += 1;
    }
    false
}

/// Score of a pattern against one column: the greedy leftmost subsequence
/// match, accepted only when it finishes within twice the pattern length.
pub fn score_column(p: &Vec<char>, t: &Vec<char>) -> (r: Option<usize>)
    ensures
        r is Some <==> column_score(p@, t@) is Some,
        r matches Some(s) ==> column_score(p@, t@) == Some(s as int),
{
    let m = p.len();
    let n = t.len();
    let mut i: usize = 0;
    let mut j: usize = 0;
    proof {
        assert(p@.skip(0) =~= p@);
        assert(t@.skip(0) =~= t@);
    }
    while i < n && j < m
        invariant
            i <= n,
            j <= m,
            m == p@.len(),
            n == t@.len(),
            opt_add(match_width(p@.skip(j as int), t@.skip(i as int)), i as int) == match_width(
                p@,
                t@,
            ),
        decreases n - i,
    {
        proof {
            assert(p@.skip(j as int).len() > 0);
            assert(t@.skip(i as int).len() > 0);
            assert(p@.skip(j as int)[0] == p@[j as int]);
            assert(t@.skip(i as int)[0] == t@[i as int]);
            assert(p@.skip(j as int).drop_first() =~= p@.skip(j as int + 1));
            assert(t@.skip(i as int).drop_first() =~= t@.skip(i as int + 1));
        }
        if t[i] == p[j] {
            j += 1;
        }
        i += 1;
    }
    if j == m {
        proof {
            assert(p@.skip(j as int).len() == 0);
            assert(match_width(p@, t@) == Some(i as int));
            lemma_match_width_bounds(p@, t@);
        }
        let skips = i - m;
        if skips <= m {
            Some(m - skips)
        } else {
            None
        }
    } else {
        proof {
            assert(p@.skip(j as int).len() > 0);
            assert(t@.skip(i as int).len() == 0);
            assert(match_width(p@, t@) is None);
        }
        None
    }
}

} // verus!
