//! The copy engine's decisions. The engine tries to create each destination
//! so that the attempt fails when the destination is already there; whoever
//! runs it makes the attempts on disk and reports how each one ended. From
//! that report the functions here decide what follows: a record of the
//! operation, or another attempt under a restore name.

use vstd::prelude::*;
use crate::restore::{candidate_path, next_candidate};
use crate::text::text_eq;
use crate::types::{
    views, Conflict, ConflictView, CopiedFile, CopiedFileView, CopyError, CopyErrorView, CopyOp,
    CopyOpView, IoFailure, IoFailureView,
};

verus! {

/// How one attempt to create a destination and fill it ended.
#[derive(Debug, Clone)]
pub enum Attempt {
    /// The destination was created, and this many bytes went into it.
    Written(u64),
    /// The attempt failed.
    Failed(IoFailure),
}

/// The view of the result of an attempt.
pub enum AttemptView {
    Written(u64),
    Failed(IoFailureView),
}

impl View for Attempt {
    type V = AttemptView;

    open spec fn view(&self) -> AttemptView {
        match self {
            Attempt::Written(bytes) => AttemptView::Written(*bytes),
            Attempt::Failed(failure) => AttemptView::Failed(failure@),
        }
    }
}

/// What became of one operation.
#[derive(Debug, Clone)]
pub enum CopyOutcome {
    /// The content is at the planned destination.
    Copied(CopiedFile),
    /// The destination was taken, and the content is at a restore path.
    Conflicted(Conflict),
    /// The content was not written.
    Failed(CopyError),
}

/// The view of a record.
pub enum CopyOutcomeView {
    Copied(CopiedFileView),
    Conflicted(ConflictView),
    Failed(CopyErrorView),
}

impl View for CopyOutcome {
    type V = CopyOutcomeView;

    open spec fn view(&self) -> CopyOutcomeView {
        match self {
            CopyOutcome::Copied(copied) => CopyOutcomeView::Copied(copied@),
            CopyOutcome::Conflicted(conflict) => CopyOutcomeView::Conflicted(conflict@),
            CopyOutcome::Failed(error) => CopyOutcomeView::Failed(error@),
        }
    }
}

/// What follows an attempt: the attempt of the next number, or the record
/// that ends the operation.
pub enum StepView {
    Retry(nat),
    Done(CopyOutcomeView),
}

/// The path that an attempt tries: the planned destination for attempt 0,
/// the restore path of that number for every later one.
pub open spec fn target_path(op: CopyOpView, attempt: nat) -> Seq<char> {
    if attempt == 0 {
        op.dest
    } else {
        candidate_path(op.dest, attempt)
    }
}

/// The record of an operation whose attempt of the given number was
/// written: a copy where the path that was written is the planned
/// destination, a conflict that names both paths where it is another.
pub open spec fn written_outcome(op: CopyOpView, attempt: nat, bytes: u64) -> CopyOutcomeView {
    if target_path(op, attempt) == op.dest {
        CopyOutcomeView::Copied(
            CopiedFileView { source: op.source, dest: op.dest, size: bytes, xdg_dir: op.xdg_dir },
        )
    } else {
        CopyOutcomeView::Conflicted(
            ConflictView {
                restore_path: target_path(op, attempt),
                original_path: op.dest,
                size: bytes,
                xdg_dir: op.xdg_dir,
            },
        )
    }
}

/// The record of an operation that ended with the given failure.
pub open spec fn failed_outcome(op: CopyOpView, failure: IoFailureView) -> CopyOutcomeView {
    CopyOutcomeView::Failed(
        CopyErrorView { source: op.source, dest: op.dest, error: failure, xdg_dir: op.xdg_dir },
    )
}

/// What follows the attempt of the given number. A written attempt ends the
/// operation, as a copy or as a conflict. An attempt that found its path
/// taken is followed by the next one, as long as there is a next number.
/// Every other failure ends the operation at once.
pub open spec fn step_after(op: CopyOpView, attempt: nat, result: AttemptView) -> StepView {
    match result {
        AttemptView::Written(bytes) => StepView::Done(written_outcome(op, attempt, bytes)),
        AttemptView::Failed(failure) => if failure.already_exists && attempt < u32::MAX {
            StepView::Retry(attempt + 1)
        } else {
            StepView::Done(failed_outcome(op, failure))
        },
    }
}

/// An operation under way: the planned copy, the number of the attempt to
/// make next, and the path that this attempt tries.
pub struct CopyTask {
    op: CopyOp,
    attempt: u32,
    target: String,
}

/// What follows an attempt.
pub enum Step {
    /// Another attempt is to be made, on the path that comes with it.
    Retry(CopyTask),
    /// The operation is over, with this record.
    Done(CopyOutcome),
}

impl Step {
    /// The operation that the step belongs to, where it goes on.
    pub open spec fn op(self) -> Option<CopyOpView> {
        match self {
            Step::Retry(task) => Some(task.op()),
            Step::Done(_) => None,
        }
    }
}

impl View for Step {
    type V = StepView;

    open spec fn view(&self) -> StepView {
        match self {
            Step::Retry(task) => StepView::Retry(task.attempt()),
            Step::Done(outcome) => StepView::Done(outcome@),
        }
    }
}

impl CopyTask {
    /// The path held is the one that the attempt of the number held tries.
    #[verifier::type_invariant]
    spec fn on_target(self) -> bool {
        self.target@ == target_path(self.op@, self.attempt as nat)
    }

    /// The planned copy.
    pub closed spec fn op(self) -> CopyOpView {
        self.op@
    }

    /// The number of the attempt to make next: 0 for the planned
    /// destination, 1 and up for the restore paths.
    pub closed spec fn attempt(self) -> nat {
        self.attempt as nat
    }

    /// Starts an operation: its first attempt tries the planned destination.
    pub fn begin(op: CopyOp) -> (task: CopyTask)
        ensures
            task.op() == op@,
            task.attempt() == 0,
    {
        let target = op.dest.clone();
        CopyTask { op, attempt: 0, target }
    }

    /// The file to read from.
    pub fn source(&self) -> (path: &str)
        ensures
            path@ == self.op().source,
    {
        self.op.source.as_str()
    }

    /// The path to create, and to fail on if it is already there.
    pub fn target(&self) -> (path: &str)
        ensures
            path@ == target_path(self.op(), self.attempt()),
    {
        proof {
            use_type_invariant(self);
        }
        self.target.as_str()
    }

    /// The size that the plan gave for the file. The operation counts this
    /// much towards the progress of the run, however it ends.
    pub fn declared_size(&self) -> (size: u64)
        ensures
            size == self.op().size,
    {
        self.op.size
    }

    /// Takes the result of the attempt and decides what follows. A written
    /// attempt ends the operation: as a copy where the planned destination
    /// was written, as a conflict where a restore path was. An attempt that
    /// found its path taken leads to the restore path of the next number;
    /// after the last number the operation ends as an error. Every other
    /// failure ends the operation as an error at once.
    pub fn advance(self, result: Attempt) -> (step: Step)
        ensures
            step@ == step_after(self.op(), self.attempt(), result@),
            step is Retry ==> step.op() == Some(self.op()),
    {
        proof {
            use_type_invariant(&self);
        }
        let CopyTask { op, attempt, target } = self;
        match result {
            Attempt::Written(bytes) => {
                if attempt == 0 || text_eq(target.as_str(), op.dest.as_str()) {
                    Step::Done(
                        CopyOutcome::Copied(
                            CopiedFile {
                                source: op.source,
                                dest: op.dest,
                                size: bytes,
                                xdg_dir: op.xdg_dir,
                            },
                        ),
                    )
                } else {
                    Step::Done(
                        CopyOutcome::Conflicted(
                            Conflict {
                                restore_path: target,
                                original_path: op.dest,
                                size: bytes,
                                xdg_dir: op.xdg_dir,
                            },
                        ),
                    )
                }
            },
            Attempt::Failed(failure) => {
                if failure.already_exists && attempt < u32::MAX {
                    let next = attempt + 1;
                    let target = next_candidate(op.dest.as_str(), next);
                    Step::Retry(CopyTask { op, attempt: next, target })
                } else {
                    Step::Done(
                        CopyOutcome::Failed(
                            CopyError {
                                source: op.source,
                                dest: op.dest,
                                error: failure,
                                xdg_dir: op.xdg_dir,
                            },
                        ),
                    )
                }
            },
        }
    }
}

/// The number of workers that a run uses: the number asked for, and one
/// where none was asked for.
pub fn worker_count(jobs: usize) -> (workers: usize)
    ensures
        workers >= 1,
        workers == if jobs == 0 {
            1
        } else {
            jobs as int
        },
{
    if jobs == 0 {
        1
    } else {
        jobs
    }
}

/// What becomes of an operation whose attempts, from the one of the given
/// number on, end as the answers say. Nothing, where the answers run out
/// before the operation is over.
pub open spec fn settle(op: CopyOpView, attempt: nat, answers: Seq<AttemptView>) -> Option<
    CopyOutcomeView,
>
    decreases answers.len(),
{
    if answers.len() == 0 {
        None
    } else {
        match step_after(op, attempt, answers.first()) {
            StepView::Done(outcome) => Some(outcome),
            StepView::Retry(next) => settle(op, next, answers.drop_first()),
        }
    }
}

/// What becomes of an operation whose attempts end as the answers say.
pub open spec fn outcome_of(op: CopyOpView, answers: Seq<AttemptView>) -> Option<
    CopyOutcomeView,
> {
    settle(op, 0, answers)
}

/// An attempt that found its path taken.
pub open spec fn found_taken(answer: AttemptView) -> bool {
    answer matches AttemptView::Failed(failure) && failure.already_exists
}

/// Runs an operation against recorded answers: the first answer is taken
/// for the attempt on the planned destination, each further one for the next
/// restore path. Returns the record that ends the operation, or nothing
/// where the answers run out first. Answers behind the one that ends the
/// operation are not looked at.
pub fn replay(op: CopyOp, answers: Vec<Attempt>) -> (outcome: Option<CopyOutcome>)
    ensures
        match outcome {
            Some(outcome) => outcome_of(op@, views(answers@)) == Some(outcome@),
            None => outcome_of(op@, views(answers@)) is None,
        },
{
    let ghost all = views(answers@);
    let ghost planned = op@;
    let mut task = CopyTask::begin(op);
    assert(all.skip(0) =~= all);
    for answer in it: answers
        invariant
            all == views(it.seq()),
            all == views(answers@),
            planned == op@,
            task.op() == planned,
            settle(planned, task.attempt(), all.skip(it.index() as int)) == outcome_of(
                planned,
                all,
            ),
    {
        proof {
            let k = it.index() as int;
            assert(all.skip(k).drop_first() =~= all.skip(k + 1));
        }
        match task.advance(answer) {
            Step::Done(outcome) => {
                return Some(outcome);
            },
            Step::Retry(next) => {
                task = next;
            },
        }
    }
    None
}

/// Attempts that find their paths taken only move the operation on to
/// the next number.
pub proof fn lemma_settle_skips_taken(
    op: CopyOpView,
    attempt: nat,
    answers: Seq<AttemptView>,
    taken: nat,
)
    requires
        taken <= answers.len(),
        attempt + taken <= u32::MAX,
        forall|i: int| 0 <= i < taken ==> found_taken(#[trigger] answers[i]),
    ensures
        settle(op, attempt, answers) == settle(op, attempt + taken, answers.skip(taken as int)),
    decreases taken,
{
    if taken == 0 {
        assert(answers.skip(0) =~= answers);
    } else {
        let rest = answers.drop_first();
        lemma_settle_skips_taken(op, attempt + 1, rest, (taken - 1) as nat);
        assert(rest.skip(taken - 1) =~= answers.skip(taken as int));
    }
}

/// A destination that is free takes the content at once: the operation
/// ends as a copy to the planned destination, with no conflict and no error.
pub proof fn lemma_free_destination(op: CopyOpView, answers: Seq<AttemptView>, bytes: u64)
    requires
        answers.len() > 0,
        answers[0] == AttemptView::Written(bytes),
    ensures
        outcome_of(op, answers) == Some(
            CopyOutcomeView::Copied(
                CopiedFileView {
                    source: op.source,
                    dest: op.dest,
                    size: bytes,
                    xdg_dir: op.xdg_dir,
                },
            ),
        ),
{
}

/// A destination that is taken is left alone: where the planned destination
/// and the restore paths before the one of number `taken` are found taken,
/// and that one is free and another path than the planned destination, the
/// operation ends as a conflict that names that restore path and the
/// planned destination.
pub proof fn lemma_taken_destination(
    op: CopyOpView,
    answers: Seq<AttemptView>,
    taken: nat,
    bytes: u64,
)
    requires
        1 <= taken <= u32::MAX,
        taken < answers.len(),
        forall|i: int| 0 <= i < taken ==> found_taken(#[trigger] answers[i]),
        answers[taken as int] == AttemptView::Written(bytes),
        candidate_path(op.dest, taken) != op.dest,
    ensures
        outcome_of(op, answers) == Some(
            CopyOutcomeView::Conflicted(
                ConflictView {
                    restore_path: candidate_path(op.dest, taken),
                    original_path: op.dest,
                    size: bytes,
                    xdg_dir: op.xdg_dir,
                },
            ),
        ),
{
    lemma_settle_skips_taken(op, 0, answers, taken);
}

/// A failure other than a taken path ends the operation at once, as one
/// error that carries this failure; no further path is tried.
pub proof fn lemma_failure_ends(
    op: CopyOpView,
    answers: Seq<AttemptView>,
    taken: nat,
    failure: IoFailureView,
)
    requires
        taken <= u32::MAX,
        taken < answers.len(),
        forall|i: int| 0 <= i < taken ==> found_taken(#[trigger] answers[i]),
        answers[taken as int] == AttemptView::Failed(failure),
        !failure.already_exists || taken == u32::MAX,
    ensures
        outcome_of(op, answers) == Some(failed_outcome(op, failure)),
{
    lemma_settle_skips_taken(op, 0, answers, taken);
}

/// A conflict names two different paths: the planned destination of its
/// operation, which the engine did not write to, and the restore path of
/// one of the attempts.
pub proof fn lemma_conflict_names_two_paths(
    op: CopyOpView,
    answers: Seq<AttemptView>,
    conflict: ConflictView,
)
    requires
        outcome_of(op, answers) == Some(CopyOutcomeView::Conflicted(conflict)),
    ensures
        conflict.original_path == op.dest,
        conflict.restore_path != conflict.original_path,
        exists|attempt: nat|
            1 <= attempt <= u32::MAX && conflict.restore_path == #[trigger] candidate_path(
                op.dest,
                attempt,
            ),
{
    lemma_settled_conflict(op, 0, answers, conflict);
}

/// The same, from any attempt on.
proof fn lemma_settled_conflict(
    op: CopyOpView,
    attempt: nat,
    answers: Seq<AttemptView>,
    conflict: ConflictView,
)
    requires
        attempt <= u32::MAX,
        settle(op, attempt, answers) == Some(CopyOutcomeView::Conflicted(conflict)),
    ensures
        conflict.original_path == op.dest,
        conflict.restore_path != conflict.original_path,
        exists|number: nat|
            1 <= number <= u32::MAX && conflict.restore_path == #[trigger] candidate_path(
                op.dest,
                number,
            ),
    decreases answers.len(),
{
    if let StepView::Retry(next) = step_after(op, attempt, answers.first()) {
        lemma_settled_conflict(op, next, answers.drop_first(), conflict);
    }
}

/// Whether a record is that of the given operation: it names the
/// operation's paths and its directory.
pub open spec fn record_of(op: CopyOpView, outcome: CopyOutcomeView) -> bool {
    match outcome {
        CopyOutcomeView::Copied(copied) => copied.source == op.source && copied.dest == op.dest
            && copied.xdg_dir == op.xdg_dir,
        CopyOutcomeView::Conflicted(conflict) => conflict.original_path == op.dest
            && conflict.xdg_dir == op.xdg_dir,
        CopyOutcomeView::Failed(error) => error.source == op.source && error.dest == op.dest
            && error.xdg_dir == op.xdg_dir,
    }
}

/// The record that ends an operation is the record of that operation,
/// whatever its attempts met.
pub proof fn lemma_record_names_its_operation(
    op: CopyOpView,
    answers: Seq<AttemptView>,
    outcome: CopyOutcomeView,
)
    requires
        outcome_of(op, answers) == Some(outcome),
    ensures
        record_of(op, outcome),
{
    lemma_settled_record(op, 0, answers, outcome);
}

/// The same, from any attempt on.
proof fn lemma_settled_record(
    op: CopyOpView,
    attempt: nat,
    answers: Seq<AttemptView>,
    outcome: CopyOutcomeView,
)
    requires
        settle(op, attempt, answers) == Some(outcome),
    ensures
        record_of(op, outcome),
    decreases answers.len(),
{
    if let StepView::Retry(next) = step_after(op, attempt, answers.first()) {
        lemma_settled_record(op, next, answers.drop_first(), outcome);
    }
}

} // verus!
