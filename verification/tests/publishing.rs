use sifter::coalesce::Command;
use sifter::engine::{Engine, EngineStatus};
use sifter::item::Item;
use sifter::publisher::Publisher;

fn one_item() -> Vec<Item> {
    vec![Item::new("Alpha".to_string(), "a.exe".to_string())]
}

#[test]
fn unchanged_slices_publish_nothing() {
    let mut engine = Engine::new();
    let mut publisher = Publisher::new();
    // No candidates: the pass completes at once without any change.
    engine.apply(vec![Command::Search("a".to_string())]);
    let rep = engine.tick(4);
    assert!(!rep.changed);
    publisher.offer(&rep, engine.snapshot());
    assert!(publisher.take().is_none());
}

#[test]
fn changed_slices_publish_a_snapshot() {
    let mut engine = Engine::new();
    let mut publisher = Publisher::new();
    engine.apply(vec![
        Command::Reload(one_item()),
        Command::Search("a".to_string()),
    ]);
    let rep = engine.tick(4);
    assert!(rep.changed);
    assert!(rep.complete);
    publisher.offer(&rep, engine.snapshot());
    let out = publisher.take().expect("a changed slice stages a snapshot");
    assert_eq!(out.generation, 1);
    assert_eq!(out.entries.len(), 1);
    assert_eq!(out.entries[0].index, 0);
    // Taking empties the mailbox.
    assert!(publisher.take().is_none());
}

#[test]
fn newer_snapshots_supersede_unconsumed_ones() {
    let mut engine = Engine::new();
    let mut publisher = Publisher::new();

    engine.apply(vec![
        Command::Reload(one_item()),
        Command::Search("a".to_string()),
    ]);
    let rep = engine.tick(4);
    publisher.offer(&rep, engine.snapshot());

    // A reload supersedes the staged snapshot before the consumer ran.
    engine.apply(vec![Command::Reload(vec![
        Item::new("Beta".to_string(), "b.exe".to_string()),
        Item::new("Bravo".to_string(), "br.exe".to_string()),
    ])]);
    engine.apply(vec![Command::Search("b".to_string())]);
    loop {
        let rep = engine.tick(1);
        publisher.offer(&rep, engine.snapshot());
        if rep.complete {
            break;
        }
    }

    let out = publisher.take().expect("the final snapshot is staged");
    assert_eq!(out.generation, 2);
    assert_eq!(out.entries.len(), 2);
    assert!(publisher.take().is_none());
}

#[test]
fn status_follows_the_slice_report() {
    let mut engine = Engine::new();
    engine.apply(vec![
        Command::Reload(one_item()),
        Command::Search("a".to_string()),
    ]);
    let rep = engine.tick(4);
    assert!(matches!(engine.status(&rep), EngineStatus::Changed(1)));
    let rep = engine.tick(4);
    assert!(matches!(engine.status(&rep), EngineStatus::Idle));
}
