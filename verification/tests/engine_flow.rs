use sifter::coalesce::{coalesce, Command};
use sifter::engine::{Engine, RankedSnapshot};
use sifter::item::Item;

fn demo_items() -> Vec<Item> {
    vec![
        Item::new("Alpha".to_string(), "a.exe".to_string()),
        Item::new("Beta".to_string(), "b.exe".to_string()),
        Item::new("Gamma".to_string(), "g.exe".to_string()),
    ]
}

fn run_to_completion(engine: &mut Engine, budget: usize) -> RankedSnapshot {
    loop {
        let rep = engine.tick(budget);
        if rep.complete {
            break;
        }
    }
    engine.snapshot()
}

fn ranked_names(engine: &Engine, snap: &RankedSnapshot) -> Vec<String> {
    let mut names = Vec::new();
    for e in &snap.entries {
        names.push(engine.item(e.index).display_name().clone());
    }
    names
}

#[test]
fn end_to_end_scenario() {
    let mut engine = Engine::new();
    engine.apply(vec![Command::Reload(demo_items())]);

    engine.apply(vec![Command::Search("al".to_string())]);
    let snap = run_to_completion(&mut engine, 8);
    assert_eq!(ranked_names(&engine, &snap), vec!["Alpha".to_string()]);

    engine.apply(vec![Command::Search("a".to_string())]);
    let snap = run_to_completion(&mut engine, 8);
    assert_eq!(
        ranked_names(&engine, &snap),
        vec!["Alpha".to_string(), "Gamma".to_string()]
    );
}

#[test]
fn coalesced_burst_ranks_only_the_last_query() {
    let mut engine = Engine::new();
    engine.apply(vec![Command::Reload(demo_items())]);
    // A burst of keystrokes drained at once: only "al" is ever ranked.
    engine.apply(vec![
        Command::Search("x".to_string()),
        Command::Search("zzz".to_string()),
        Command::Search("al".to_string()),
    ]);
    let snap = run_to_completion(&mut engine, 8);
    assert_eq!(ranked_names(&engine, &snap), vec!["Alpha".to_string()]);
}

#[test]
fn coalesce_keeps_latest_of_each_kind() {
    let plan = coalesce(vec![
        Command::Search("first".to_string()),
        Command::Reload(vec![Item::new("Old".to_string(), "o".to_string())]),
        Command::Search("last".to_string()),
        Command::Reload(vec![Item::new("New".to_string(), "n".to_string())]),
    ]);
    assert_eq!(plan.query.unwrap(), "last");
    let reload = plan.reload.unwrap();
    assert_eq!(reload.len(), 1);
    assert_eq!(reload[0].display_name(), "New");
}

#[test]
fn reload_resets_ranking_and_bumps_generation() {
    let mut engine = Engine::new();
    engine.apply(vec![Command::Reload(demo_items())]);
    assert_eq!(engine.generation(), 1);
    engine.apply(vec![Command::Search("a".to_string())]);

    // Interrupt the pass after one bounded slice.
    let rep = engine.tick(1);
    assert!(!rep.complete);
    assert_eq!(rep.generation, 1);

    // The reload discards the partial pass: the next snapshot is tagged
    // with the new generation and the ranking restarts empty.
    engine.apply(vec![Command::Reload(vec![Item::new(
        "Ares".to_string(),
        "ar.exe".to_string(),
    )])]);
    assert_eq!(engine.generation(), 2);
    let snap = engine.snapshot();
    assert_eq!(snap.generation, 2);
    assert!(snap.entries.is_empty());

    let snap = run_to_completion(&mut engine, 8);
    assert_eq!(snap.generation, 2);
    assert_eq!(ranked_names(&engine, &snap), vec!["Ares".to_string()]);
}

#[test]
fn completed_passes_are_deterministic_whatever_the_slicing() {
    let mut one = Engine::new();
    one.apply(vec![
        Command::Reload(demo_items()),
        Command::Search("a".to_string()),
    ]);
    let fine = run_to_completion(&mut one, 1);

    let mut two = Engine::new();
    two.apply(vec![
        Command::Reload(demo_items()),
        Command::Search("a".to_string()),
    ]);
    let coarse = run_to_completion(&mut two, 100);

    assert_eq!(fine.entries, coarse.entries);

    let mut three = Engine::new();
    three.apply(vec![
        Command::Reload(demo_items()),
        Command::Search("a".to_string()),
    ]);
    let again = run_to_completion(&mut three, 3);
    assert_eq!(fine.entries, again.entries);
}

#[test]
fn ties_keep_insertion_order() {
    let mut engine = Engine::new();
    engine.apply(vec![Command::Reload(vec![
        Item::new("Twin".to_string(), "t.exe".to_string()),
        Item::new("Twin".to_string(), "t.exe".to_string()),
    ])]);
    engine.apply(vec![Command::Search("twin".to_string())]);
    let snap = run_to_completion(&mut engine, 8);
    assert_eq!(snap.entries.len(), 2);
    assert_eq!(snap.entries[0].score, snap.entries[1].score);
    assert_eq!(snap.entries[0].index, 0);
    assert_eq!(snap.entries[1].index, 1);
}

#[test]
fn empty_query_yields_every_item_in_insertion_order() {
    let mut engine = Engine::new();
    engine.apply(vec![
        Command::Reload(demo_items()),
        Command::Search(String::new()),
    ]);
    let snap = run_to_completion(&mut engine, 2);
    assert_eq!(snap.entries.len(), 3);
    for (i, e) in snap.entries.iter().enumerate() {
        assert_eq!(e.index, i);
        assert_eq!(e.score, snap.entries[0].score);
    }
}

#[test]
fn empty_candidate_set_ranks_empty() {
    let mut engine = Engine::new();
    engine.apply(vec![Command::Search("a".to_string())]);
    let rep = engine.tick(8);
    assert!(rep.complete);
    let snap = engine.snapshot();
    assert!(snap.entries.is_empty());
}

#[test]
fn slices_are_bounded_and_report_completion() {
    let mut engine = Engine::new();
    engine.apply(vec![
        Command::Reload(demo_items()),
        Command::Search("a".to_string()),
    ]);
    let first = engine.tick(2);
    assert!(!first.complete);
    let second = engine.tick(2);
    assert!(second.complete);
    let idle = engine.tick(2);
    assert!(idle.complete);
    assert!(!idle.changed);
}
