use gpt_exchange::commit::{CallOutcome, CommitCycle, CommitOutcome, CommitStep};
use gpt_exchange::field::ShortCode;

fn batch(items: &[(&str, u32)]) -> Vec<(ShortCode, u32)> {
    items
        .iter()
        .map(|(c, n)| (ShortCode::from_text(c), *n))
        .collect()
}

/// Runs a cycle, answering each storage call with the next outcome, and
/// returns the steps asked for as text.
fn run(items: &[(&str, u32)], outcomes: &[CallOutcome]) -> Vec<String> {
    let (mut cycle, mut step) = CommitCycle::new(batch(items));
    let mut seen = Vec::new();
    let mut answers = outcomes.iter();
    loop {
        match &step {
            CommitStep::Begin => seen.push("begin".to_owned()),
            CommitStep::Increase(c, n) => seen.push(format!("increase {} {}", c.as_str(), n)),
            CommitStep::End => seen.push("end".to_owned()),
            CommitStep::Done(o) => {
                seen.push(format!("done {:?}", o));
                assert!(cycle.is_finished());
                return seen;
            }
        }
        let outcome = *answers.next().expect("more steps than outcomes");
        step = cycle.advance(outcome);
    }
}

use CallOutcome::{Failed, Succeeded};

#[test]
fn empty_snapshot_issues_no_call() {
    assert_eq!(run(&[], &[]), vec!["done Skipped"]);
}

#[test]
fn failed_increase_does_not_stop_the_cycle() {
    let steps = run(
        &[("a", 1), ("b", 2), ("c", 3)],
        &[Succeeded, Succeeded, Failed, Succeeded, Succeeded],
    );
    assert_eq!(
        steps,
        vec![
            "begin",
            "increase a 1",
            "increase b 2",
            "increase c 3",
            "end",
            "done Committed"
        ]
    );
}

#[test]
fn all_increases_failing_still_commit() {
    let steps = run(&[("a", 1), ("b", 2)], &[Succeeded, Failed, Failed, Succeeded]);
    assert_eq!(
        steps,
        vec!["begin", "increase a 1", "increase b 2", "end", "done Committed"]
    );
}

#[test]
fn failed_begin_ends_the_cycle() {
    assert_eq!(run(&[("a", 1)], &[Failed]), vec!["begin", "done BeginFailed"]);
}

#[test]
fn failed_end_is_reported() {
    assert_eq!(
        run(&[("a", 4)], &[Succeeded, Succeeded, Failed]),
        vec!["begin", "increase a 4", "end", "done EndFailed"]
    );
}

#[test]
fn finished_cycle_stays_finished() {
    let (mut cycle, step) = CommitCycle::new(batch(&[]));
    assert!(matches!(step, CommitStep::Done(CommitOutcome::Skipped)));
    assert!(matches!(
        cycle.advance(Succeeded),
        CommitStep::Done(CommitOutcome::Skipped)
    ));
}
