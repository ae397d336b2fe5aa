//! The batch resolver driven end to end with an in-memory store and a
//! scripted provider, covering reuse of stored names, generation on a miss,
//! retry on failure, persistence before return, skip on an unchanged name,
//! the halt on a persistence failure, and a second idempotent run.

use breadbot::batch::{eligible_members, is_authorized, Action, Batch, Member, OWNER_ID};
use breadbot::cache::NameCache;
use breadbot::gen::GenOutcome;

fn member(id: u64, name: &str, nick: Option<&str>) -> Member {
    Member {
        id,
        name: name.to_string(),
        nick: nick.map(|n| n.to_string()),
    }
}

/// Drives a batch to the end. `provider` scripts the outcome of each
/// generation call in order; a `Retry` consumes the next scripted outcome
/// too. Returns the resolved names, the actions of interest, and the count
/// of provider calls made.
struct Run {
    names: Vec<String>,
    generate_calls: usize,
    prompts: Vec<String>,
    persists: Vec<(u64, String)>,
    applies: Vec<(u64, String)>,
    skips: Vec<u64>,
    aborted: bool,
}

fn drive(mut batch: Batch, mut provider: Vec<GenOutcome>, persist_ok: bool) -> (Batch, Run) {
    provider.reverse();
    let mut run = Run {
        names: Vec::new(),
        generate_calls: 0,
        prompts: Vec::new(),
        persists: Vec::new(),
        applies: Vec::new(),
        skips: Vec::new(),
        aborted: false,
    };
    let mut action = batch.advance();
    loop {
        match action {
            Action::Done => break,
            Action::Aborted => {
                run.aborted = true;
                break;
            }
            Action::Skip { id } => {
                run.skips.push(id);
                action = batch.advance();
            }
            Action::Generate { prompt } | Action::Retry { error: _, prompt } => {
                run.generate_calls += 1;
                run.prompts.push(prompt);
                let outcome = provider.pop().expect("provider script exhausted");
                action = batch.on_generation(outcome);
            }
            Action::Persist { id, name } => {
                if persist_ok {
                    run.persists.push((id, name));
                }
                action = batch.on_persist(persist_ok);
            }
            Action::Apply { id, name } => {
                run.applies.push((id, name));
                batch.applied();
                action = batch.advance();
            }
        }
    }
    run.names = batch.results().clone();
    (batch, run)
}

fn content(s: &str) -> GenOutcome {
    GenOutcome::Content(s.to_string())
}

#[test]
fn stored_members_are_reused_without_generation() {
    let rows = vec![(1u64, "Breadley".to_string()), (2u64, "Crumb".to_string())];
    let cache = NameCache::from_rows(&rows);
    let members = vec![member(1, "Bradley", None), member(2, "Chris", None)];
    let (batch, run) = drive(Batch::new(members, cache), vec![], true);
    assert!(batch.finished());
    assert_eq!(run.generate_calls, 0);
    assert_eq!(run.names, vec!["Breadley".to_string(), "Crumb".to_string()]);
    assert!(run.persists.is_empty());
}

#[test]
fn missing_member_is_generated_and_persisted() {
    let cache = NameCache::new();
    let members = vec![member(7, "Bradix", None)];
    let (batch, run) = drive(
        Batch::new(members, cache),
        vec![content("Sure! Here you go: [Breadix]")],
        true,
    );
    assert!(batch.finished());
    assert_eq!(run.generate_calls, 1);
    assert_eq!(
        run.prompts,
        vec!["Rewrite the name Bradix to be a bread related pun.".to_string()]
    );
    assert_eq!(run.names, vec!["Breadix".to_string()]);
    assert_eq!(run.persists, vec![(7, "Breadix".to_string())]);
    assert_eq!(batch.stored_name(7), Some(&"Breadix".to_string()));
    assert_eq!(batch.record_count(), 1);
}

#[test]
fn retry_twice_then_success_writes_one_record() {
    let cache = NameCache::new();
    let members = vec![member(9, "Alby", None)];
    let (batch, run) = drive(
        Batch::new(members, cache),
        vec![
            GenOutcome::Failure,
            GenOutcome::NoChoice,
            content("[AlbyDough]"),
        ],
        true,
    );
    assert!(batch.finished());
    assert_eq!(run.generate_calls, 3);
    // Every retry re-asks with the same instruction.
    assert_eq!(run.prompts.len(), 3);
    assert!(run.prompts.iter().all(|p| p == &run.prompts[0]));
    assert_eq!(run.persists, vec![(9, "AlbyDough".to_string())]);
    assert_eq!(run.names, vec!["AlbyDough".to_string()]);
    assert_eq!(batch.record_count(), 1);
}

#[test]
fn malformed_output_is_retried() {
    let cache = NameCache::new();
    let members = vec![member(3, "Sam", None)];
    let (batch, run) = drive(
        Batch::new(members, cache),
        vec![content("no bracket at all"), content("[Samdough]")],
        true,
    );
    assert!(batch.finished());
    assert_eq!(run.generate_calls, 2);
    assert_eq!(run.names, vec!["Samdough".to_string()]);
}

#[test]
fn unchanged_name_is_skipped_not_applied() {
    let rows = vec![(4u64, "Breadix".to_string())];
    let cache = NameCache::from_rows(&rows);
    let members = vec![member(4, "Bradix", Some("Breadix"))];
    let (batch, run) = drive(Batch::new(members, cache), vec![], true);
    assert!(batch.finished());
    assert!(run.applies.is_empty());
    assert_eq!(run.skips, vec![4]);
    assert_eq!(run.names, vec!["Breadix".to_string()]);
}

#[test]
fn changed_name_is_applied() {
    let rows = vec![(4u64, "Breadix".to_string())];
    let cache = NameCache::from_rows(&rows);
    let members = vec![member(4, "Bradix", Some("Bradix"))];
    let (batch, run) = drive(Batch::new(members, cache), vec![], true);
    assert!(batch.finished());
    assert_eq!(run.applies, vec![(4, "Breadix".to_string())]);
    assert!(run.skips.is_empty());
}

#[test]
fn persistence_failure_halts_the_batch() {
    let cache = NameCache::new();
    let members = vec![member(5, "Ann", None), member(6, "Ben", None)];
    let (batch, run) = drive(
        Batch::new(members, cache),
        vec![content("[Anndough]")],
        false,
    );
    assert!(batch.halted());
    assert!(!batch.finished());
    assert!(run.aborted);
    // The failed upsert leaves no record and no resolved name.
    assert!(run.names.is_empty());
    assert_eq!(batch.record_count(), 0);
    assert!(batch.stored_name(5).is_none());
}

#[test]
fn second_run_reuses_every_record_and_generates_nothing() {
    let cache = NameCache::new();
    let members = vec![
        member(1, "Bradley", None),
        member(2, "Chris", None),
        member(3, "Sam", None),
    ];
    let (first, run1) = drive(
        Batch::new(members, cache),
        vec![content("[Breadley]"), content("[Crumb]"), content("[Samdough]")],
        true,
    );
    assert!(first.finished());
    assert_eq!(run1.generate_calls, 3);

    // Rebuild the store snapshot from what the first run persisted.
    let rows: Vec<(u64, String)> = run1.persists.clone();
    let cache2 = NameCache::from_rows(&rows);
    let members2 = vec![
        member(1, "Bradley", None),
        member(2, "Chris", None),
        member(3, "Sam", None),
    ];
    let (second, run2) = drive(Batch::new(members2, cache2), vec![], true);
    assert!(second.finished());
    assert_eq!(run2.generate_calls, 0);
    assert!(run2.persists.is_empty());
    assert_eq!(run1.names, run2.names);
}

#[test]
fn owner_is_not_renamed() {
    let members = vec![
        member(OWNER_ID, "Afkara", None),
        member(2, "Chris", None),
    ];
    let kept = eligible_members(members);
    assert_eq!(kept.len(), 1);
    assert_eq!(kept[0].id, 2);
}

#[test]
fn only_the_owner_is_authorized() {
    assert!(is_authorized(OWNER_ID));
    assert!(!is_authorized(12345));
}

#[test]
fn later_rows_overwrite_earlier_ones() {
    let rows = vec![
        (1u64, "Old".to_string()),
        (1u64, "New".to_string()),
    ];
    let cache = NameCache::from_rows(&rows);
    assert_eq!(cache.get(1), Some(&"New".to_string()));
    assert_eq!(cache.len(), 1);
}
