use sifter::item::Item;
use sifter::pattern::compile;

fn item(name: &str, secondary: &str) -> Item {
    Item::new(name.to_string(), secondary.to_string())
}

#[test]
fn lowercase_query_is_case_insensitive() {
    let p = compile("foo");
    assert!(!p.sensitive);
    assert!(p.valid);
    let it = item("FooBar", "");
    // Folded, the pattern sits at the very front: no character is skipped,
    // so the score is the full pattern length.
    assert_eq!(it.score(&p), Some(3));
}

#[test]
fn uppercase_query_is_case_sensitive() {
    let p = compile("Foo");
    assert!(p.sensitive);
    let miss = item("fooBar", "");
    assert!(miss.score(&p).is_none());
    let hit = item("FooBar", "");
    assert_eq!(hit.score(&p), Some(3));
}

#[test]
fn compile_is_deterministic() {
    let a = compile("Foo");
    let b = compile("Foo");
    assert_eq!(a.chars, b.chars);
    assert_eq!(a.sensitive, b.sensitive);
    assert_eq!(a.valid, b.valid);
}

#[test]
fn empty_query_matches_everything_neutrally() {
    let p = compile("");
    assert!(p.valid);
    assert!(!p.sensitive);
    let a = item("Alpha", "a.exe");
    let b = item("", "");
    assert_eq!(a.score(&p), Some(0));
    assert_eq!(b.score(&p), Some(0));
}

#[test]
fn control_characters_make_a_pattern_that_matches_nothing() {
    let p = compile("a\tb");
    assert!(!p.valid);
    let it = item("a\tb", "a\tb");
    assert!(it.score(&p).is_none());
}

#[test]
fn tighter_match_scores_higher() {
    let p = compile("a");
    let tight = item("Alpha", "");
    let loose = item("Gamma", "");
    // "Alpha" holds the "a" first, with nothing skipped; "Gamma" holds it
    // one character in, so one skip costs one point.
    assert_eq!(tight.score(&p), Some(1));
    assert_eq!(loose.score(&p), Some(0));
}

#[test]
fn sparse_occurrence_is_no_match() {
    // "Beta" holds an "a", but only past twice the pattern length.
    let p = compile("a");
    let it = item("Beta", "b.exe");
    assert!(it.score(&p).is_none());
}

#[test]
fn any_matching_column_suffices() {
    let p = compile("exe");
    let it = item("Alpha", "a.exe");
    assert!(it.score(&p).is_some());
}

#[test]
fn pattern_characters_must_appear_in_order() {
    let p = compile("ba");
    let it = item("ab", "");
    assert!(it.score(&p).is_none());
}
