use comet_delta::commit::{
    append_start, append_step, create_outcome, AppendStep, CommitOutcome, MAX_RETRIES,
};
use comet_delta::error::DeltaError;
use delta_kernel::Error;

/// Hands in `outcomes` while commits are asked for, and counts the commits.
fn run(outcomes: Vec<CommitOutcome>) -> (usize, Option<Result<u64, DeltaError>>) {
    let mut step = append_start();
    let mut commits = 0;
    for outcome in outcomes {
        match step {
            AppendStep::Commit(state) => {
                commits += 1;
                step = append_step(state, outcome);
            }
            AppendStep::Finish(result) => return (commits, Some(result)),
        }
    }
    match step {
        AppendStep::Commit(_) => (commits, None),
        AppendStep::Finish(result) => (commits, Some(result)),
    }
}

fn transient(n: usize) -> Vec<CommitOutcome> {
    (0..n).map(|_| CommitOutcome::Retryable).collect()
}

#[test]
fn a_table_is_created_only_by_a_commit() {
    assert!(create_outcome(CommitOutcome::Committed(0)).is_ok());
    match create_outcome(CommitOutcome::Conflicted(0)) {
        Err(DeltaError::Generic(message)) => {
            assert_eq!(message, "transaction conflicted with version 0")
        }
        other => panic!("unexpected end: {other:?}"),
    }
    match create_outcome(CommitOutcome::Retryable) {
        Err(DeltaError::Generic(message)) => {
            assert_eq!(
                message,
                "transaction was not committed after a transient failure"
            )
        }
        other => panic!("unexpected end: {other:?}"),
    }
    assert!(matches!(
        create_outcome(CommitOutcome::Failed(Error::generic("disk full"))),
        Err(DeltaError::Kernel(_))
    ));
}

#[test]
fn a_first_commit_returns_its_version() {
    let (commits, result) = run(vec![CommitOutcome::Committed(7)]);
    assert_eq!(commits, 1);
    assert!(matches!(result, Some(Ok(7))));
}

#[test]
fn the_last_retry_can_still_succeed() {
    let mut outcomes = transient(MAX_RETRIES as usize);
    outcomes.push(CommitOutcome::Committed(12));
    let (commits, result) = run(outcomes);
    assert_eq!(commits, 6);
    assert!(matches!(result, Some(Ok(12))));
}

#[test]
fn retries_are_bounded() {
    let (commits, result) = run(transient(20));
    assert_eq!(commits, 6);
    match result {
        Some(Err(DeltaError::Generic(message))) => {
            assert_eq!(message, "exceeded maximum retries committing transaction")
        }
        other => panic!("unexpected end: {other:?}"),
    }
}

#[test]
fn five_transient_failures_leave_one_more_try() {
    let (commits, result) = run(transient(5));
    assert_eq!(commits, 5);
    assert!(result.is_none());
}

#[test]
fn a_conflict_names_the_version() {
    let (_, result) = run(vec![
        CommitOutcome::Retryable,
        CommitOutcome::Conflicted(1204),
    ]);
    match result {
        Some(Err(DeltaError::Generic(message))) => {
            assert_eq!(message, "transaction conflicted with version 1204")
        }
        other => panic!("unexpected end: {other:?}"),
    }
}

#[test]
fn a_kernel_failure_is_passed_on() {
    let (_, result) = run(vec![CommitOutcome::Failed(Error::generic("disk full"))]);
    match result {
        Some(Err(error)) => {
            assert!(matches!(error, DeltaError::Kernel(_)));
            assert_eq!(error.text(), "Generic delta kernel error: disk full");
        }
        other => panic!("unexpected end: {other:?}"),
    }
}
