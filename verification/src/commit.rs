//! Commits: how the creation of a table ends, and which outcome ends the commit loop of an append.

use vstd::prelude::*;

use crate::error::{DeltaError, DeltaErrorView};
use crate::text::{append_decimal, decimal};

verus! {

/// How often a commit is tried again after a transient failure.
pub const MAX_RETRIES: u32 = 5;

/// How one try to commit ended.
#[derive(Debug)]
pub enum CommitOutcome {
    /// The transaction is in the table, as this version.
    Committed(u64),
    /// Another writer committed this version first.
    Conflicted(u64),
    /// A transient failure; the same transaction can be committed again.
    Retryable,
    /// The kernel gave up.
    Failed(delta_kernel::Error),
}

/// What an append does next.
#[derive(Debug)]
pub enum AppendStep {
    /// Commit the transaction, and hand in the outcome with this state.
    Commit(AppendState),
    /// End with this result.
    Finish(Result<u64, DeltaError>),
}

/// What an [`AppendStep`] says.
pub ghost enum AppendStepView {
    /// Commit, after so many retries.
    Commit(nat),
    Finish(Result<u64, DeltaErrorView>),
}

impl View for AppendStep {
    type V = AppendStepView;

    open spec fn view(&self) -> AppendStepView {
        match self {
            AppendStep::Commit(state) => AppendStepView::Commit(state.retries()),
            AppendStep::Finish(Ok(version)) => AppendStepView::Finish(Ok(*version)),
            AppendStep::Finish(Err(error)) => AppendStepView::Finish(Err(error@)),
        }
    }
}

/// An append about to commit: how many of its tries so far were retries.
#[derive(Debug)]
pub struct AppendState {
    retries: u32,
}

impl AppendState {
    /// How many of the tries so far were retries.
    pub closed spec fn retries(self) -> nat {
        self.retries as nat
    }

    #[verifier::type_invariant]
    spec fn within_limit(self) -> bool {
        self.retries <= MAX_RETRIES
    }
}

/// What is said when the tries are used up.
pub open spec fn retries_exceeded() -> DeltaErrorView {
    DeltaErrorView::Generic("exceeded maximum retries committing transaction"@)
}

/// What is said of a conflict.
pub open spec fn conflict(version: u64) -> DeltaErrorView {
    DeltaErrorView::Generic("transaction conflicted with version "@ + decimal(version as nat))
}

/// What is said if the creation of a table was not committed, for a transient reason.
pub open spec fn not_committed() -> DeltaErrorView {
    DeltaErrorView::Generic("transaction was not committed after a transient failure"@)
}

/// What an append does that has come to so many retries.
pub open spec fn next_try(retries: nat) -> AppendStepView {
    if retries > MAX_RETRIES {
        AppendStepView::Finish(Err(retries_exceeded()))
    } else {
        AppendStepView::Commit(retries)
    }
}

/// What an append does after a try that came after so many retries.
pub open spec fn after_try(retries: nat, outcome: CommitOutcome) -> AppendStepView {
    match outcome {
        CommitOutcome::Committed(version) => AppendStepView::Finish(Ok(version)),
        CommitOutcome::Conflicted(version) => AppendStepView::Finish(Err(conflict(version))),
        CommitOutcome::Retryable => next_try(retries + 1),
        CommitOutcome::Failed(error) => AppendStepView::Finish(Err(DeltaErrorView::Kernel(error))),
    }
}

fn conflict_error(version: u64) -> (error: DeltaError)
    ensures
        error@ == conflict(version),
{
    let mut message = "transaction conflicted with version ".to_owned();
    append_decimal(&mut message, version);
    DeltaError::Generic(message)
}

/// How the creation of a table ends whose one commit ended so. It succeeds exactly if the
/// transaction was committed; where another writer came first, the table already exists.
pub fn create_outcome(outcome: CommitOutcome) -> (created: Result<(), DeltaError>)
    ensures
        created is Ok <==> outcome is Committed,
        created matches Err(e) ==> match outcome {
            CommitOutcome::Conflicted(version) => e@ == conflict(version),
            CommitOutcome::Retryable => e@ == not_committed(),
            CommitOutcome::Failed(error) => e@ == DeltaErrorView::Kernel(error),
            CommitOutcome::Committed(_) => false,
        },
        outcome matches CommitOutcome::Conflicted(version) ==> created matches Err(
            DeltaError::Generic(m),
        ) && m@ == "transaction conflicted with version "@ + decimal(version as nat),
        outcome is Retryable ==> (created matches Err(DeltaError::Generic(m)) && m@
            == "transaction was not committed after a transient failure"@),
        outcome matches CommitOutcome::Failed(error) ==> created matches Err(
            DeltaError::Kernel(e),
        ) && e == error,
{
    match outcome {
        CommitOutcome::Committed(_) => Ok(()),
        CommitOutcome::Conflicted(version) => Err(conflict_error(version)),
        CommitOutcome::Retryable => {
            Err(
                DeltaError::Generic(
                    "transaction was not committed after a transient failure".to_owned(),
                ),
            )
        },
        CommitOutcome::Failed(error) => Err(DeltaError::Kernel(error)),
    }
}

/// Decides whether to commit again.
fn commit_again(retries: u32) -> (step: AppendStep)
    ensures
        step@ == next_try(retries as nat),
{
    if retries > MAX_RETRIES {
        AppendStep::Finish(
            Err(DeltaError::Generic("exceeded maximum retries committing transaction".to_owned())),
        )
    } else {
        AppendStep::Commit(AppendState { retries })
    }
}

/// Begins the commit of an append whose data file is written.
pub fn append_start() -> (step: AppendStep)
    ensures
        step@ == AppendStepView::Commit(0),
        step matches AppendStep::Commit(state) && state.retries() == 0,
{
    commit_again(0)
}

/// Takes in how a commit ended and says what is next.
pub fn append_step(state: AppendState, outcome: CommitOutcome) -> (step: AppendStep)
    ensures
        step@ == after_try(state.retries(), outcome),
        outcome matches CommitOutcome::Committed(version) ==> step matches AppendStep::Finish(
            Ok(v),
        ) && v == version,
        outcome matches CommitOutcome::Conflicted(version) ==> step matches AppendStep::Finish(
            Err(DeltaError::Generic(m)),
        ) && m@ == "transaction conflicted with version "@ + decimal(version as nat),
        outcome matches CommitOutcome::Failed(error) ==> step matches AppendStep::Finish(
            Err(DeltaError::Kernel(e)),
        ) && e == error,
        outcome is Retryable && state.retries() < MAX_RETRIES ==> (step matches AppendStep::Commit(
            next,
        ) && next.retries() == state.retries() + 1),
        outcome is Retryable && state.retries() >= MAX_RETRIES ==> (step matches AppendStep::Finish(
            Err(DeltaError::Generic(m)),
        ) && m@ == "exceeded maximum retries committing transaction"@),
{
    proof {
        use_type_invariant(&state);
    }
    match outcome {
        CommitOutcome::Committed(version) => AppendStep::Finish(Ok(version)),
        CommitOutcome::Conflicted(version) => AppendStep::Finish(Err(conflict_error(version))),
        CommitOutcome::Retryable => commit_again(state.retries + 1),
        CommitOutcome::Failed(error) => AppendStep::Finish(Err(DeltaError::Kernel(error))),
    }
}

/// What an append does after it has taken in `outcomes`, one after the other, from where it has
/// come to so many retries. It takes in no more once it has finished.
pub open spec fn append_run(retries: nat, outcomes: Seq<CommitOutcome>) -> AppendStepView
    decreases outcomes.len(),
{
    if outcomes.len() == 0 {
        next_try(retries)
    } else {
        match after_try(retries, outcomes[0]) {
            AppendStepView::Commit(retries) => append_run(retries, outcomes.drop_first()),
            finish => finish,
        }
    }
}

/// The outcome that ends an append is the first that is not transient: `outcomes[n]`, if no more
/// than [`MAX_RETRIES`] came before it. The append then ends as that outcome says.
pub proof fn append_ends_with_first_decisive_outcome(
    retries: nat,
    outcomes: Seq<CommitOutcome>,
    n: int,
)
    requires
        0 <= n < outcomes.len(),
        retries + n <= MAX_RETRIES,
        forall|i: int| 0 <= i < n ==> #[trigger] outcomes[i] is Retryable,
        !(outcomes[n] is Retryable),
    ensures
        append_run(retries, outcomes) == after_try(0, outcomes[n]),
    decreases n,
{
    if n > 0 {
        let rest = outcomes.drop_first();
        assert(outcomes[0] is Retryable);
        assert forall|i: int| 0 <= i < n - 1 implies #[trigger] rest[i] is Retryable by {
            assert(outcomes[i + 1] is Retryable);
        }
        append_ends_with_first_decisive_outcome(retries + 1, rest, n - 1);
    }
}

/// A commit that went through is a success: if the first outcome that is not transient is a commit
/// of some version, and no more than [`MAX_RETRIES`] came before it, the append ends with exactly
/// that version. If it is a conflict the append fails and names the version, and if the kernel
/// gave up it fails with the kernel's error.
pub proof fn append_ends_as_the_table_does(outcomes: Seq<CommitOutcome>, n: int)
    requires
        0 <= n < outcomes.len(),
        n <= MAX_RETRIES,
        forall|i: int| 0 <= i < n ==> #[trigger] outcomes[i] is Retryable,
    ensures
        outcomes[n] matches CommitOutcome::Committed(version) ==> append_run(0, outcomes)
            == AppendStepView::Finish(Ok(version)),
        outcomes[n] matches CommitOutcome::Conflicted(version) ==> append_run(0, outcomes)
            == AppendStepView::Finish(
            Err(
                DeltaErrorView::Generic(
                    "transaction conflicted with version "@ + decimal(version as nat),
                ),
            ),
        ),
        outcomes[n] matches CommitOutcome::Failed(error) ==> append_run(0, outcomes)
            == AppendStepView::Finish(Err(DeltaErrorView::Kernel(error))),
{
    if !(outcomes[n] is Retryable) {
        append_ends_with_first_decisive_outcome(0, outcomes, n);
    }
}

/// An append succeeds exactly if one of its tries committed: the first outcome that is not
/// transient is the commit of that version, after at most [`MAX_RETRIES`] transient ones.
pub proof fn append_succeeds_exactly_on_a_commit(outcomes: Seq<CommitOutcome>, version: u64)
    ensures
        append_run(0, outcomes) == AppendStepView::Finish(Ok(version)) <==> exists|n: int|
            #![trigger outcomes[n]]
            0 <= n < outcomes.len() && n <= MAX_RETRIES && outcomes[n] == CommitOutcome::Committed(
                version,
            ) && forall|i: int| 0 <= i < n ==> #[trigger] outcomes[i] is Retryable,
{
    if append_run(0, outcomes) == AppendStepView::Finish(Ok(version)) {
        lemma_committed(0, outcomes, version);
    }
    if exists|n: int|
        #![trigger outcomes[n]]
        0 <= n < outcomes.len() && n <= MAX_RETRIES && outcomes[n] == CommitOutcome::Committed(
            version,
        ) && forall|i: int| 0 <= i < n ==> #[trigger] outcomes[i] is Retryable {
        let n = choose|n: int|
            #![trigger outcomes[n]]
            0 <= n < outcomes.len() && n <= MAX_RETRIES && outcomes[n] == CommitOutcome::Committed(
                version,
            ) && forall|i: int| 0 <= i < n ==> #[trigger] outcomes[i] is Retryable;
        append_ends_as_the_table_does(outcomes, n);
    }
}

/// The try that committed, where an append has succeeded.
proof fn lemma_committed(retries: nat, outcomes: Seq<CommitOutcome>, version: u64) -> (n: int)
    requires
        retries <= MAX_RETRIES,
        append_run(retries, outcomes) == AppendStepView::Finish(Ok(version)),
    ensures
        0 <= n < outcomes.len(),
        retries + n <= MAX_RETRIES,
        outcomes[n] == CommitOutcome::Committed(version),
        forall|i: int| 0 <= i < n ==> #[trigger] outcomes[i] is Retryable,
    decreases outcomes.len(),
{
    if outcomes[0] is Retryable {
        let rest = outcomes.drop_first();
        let n = lemma_committed(retries + 1, rest, version);
        assert forall|i: int| 0 <= i < n + 1 implies #[trigger] outcomes[i] is Retryable by {
            if i > 0 {
                assert(rest[i - 1] is Retryable);
            }
        }
        n + 1
    } else {
        0
    }
}

/// An append tries to commit once and then [`MAX_RETRIES`] times again, which are five: while all outcomes are
/// transient it goes on committing up to then, and after that it fails for good.
pub proof fn append_retries_are_bounded(retries: nat, outcomes: Seq<CommitOutcome>)
    requires
        retries <= MAX_RETRIES,
        forall|i: int| 0 <= i < outcomes.len() ==> #[trigger] outcomes[i] is Retryable,
    ensures
        MAX_RETRIES == 5,
        append_run(retries, outcomes) == if retries + outcomes.len() <= MAX_RETRIES {
            AppendStepView::Commit(retries + outcomes.len())
        } else {
            AppendStepView::Finish(Err(retries_exceeded()))
        },
    decreases outcomes.len(),
{
    if outcomes.len() > 0 {
        let rest = outcomes.drop_first();
        assert(outcomes[0] is Retryable);
        assert forall|i: int| 0 <= i < rest.len() implies #[trigger] rest[i] is Retryable by {
            assert(outcomes[i + 1] is Retryable);
        }
        if retries < MAX_RETRIES {
            append_retries_are_bounded(retries + 1, rest);
        }
    }
}

/// An append succeeds with a version only if the kernel reported that version
/// as committed.
pub proof fn append_reports_only_committed_versions(
    retries: nat,
    outcomes: Seq<CommitOutcome>,
    version: u64,
)
    requires
        append_run(retries, outcomes) == AppendStepView::Finish(Ok(version)),
    ensures
        exists|n: int|
            0 <= n < outcomes.len() && #[trigger] outcomes[n] == CommitOutcome::Committed(version),
    decreases outcomes.len(),
{
    if outcomes.len() > 0 {
        if outcomes[0] is Retryable {
            let rest = outcomes.drop_first();
            append_reports_only_committed_versions(retries + 1, rest, version);
            let n = choose|n: int|
                0 <= n < rest.len() && #[trigger] rest[n] == CommitOutcome::Committed(version);
            assert(outcomes[n + 1] == CommitOutcome::Committed(version));
        } else {
            assert(outcomes[0] == CommitOutcome::Committed(version));
        }
    }
}

} // verus!
