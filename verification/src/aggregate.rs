//! The result of a run: one record for each operation, whatever the order in
//! which the operations ended and however they were shared out to workers.

use vstd::prelude::*;
use vstd::multiset::Multiset;
use crate::copy::{outcome_of, AttemptView, CopyOutcome, CopyOutcomeView};
use crate::types::{
    views, ConflictView, CopiedFileView, CopyErrorView, CopyOpView, CopyResult, CopyResultView,
};

verus! {

/// The bytes that a record adds to the total: those written, and none for a
/// failure.
pub open spec fn outcome_bytes(outcome: CopyOutcomeView) -> nat {
    match outcome {
        CopyOutcomeView::Copied(copied) => copied.size as nat,
        CopyOutcomeView::Conflicted(conflict) => conflict.size as nat,
        CopyOutcomeView::Failed(_) => 0,
    }
}

/// The bytes that a sequence of records adds to the total.
pub open spec fn total_bytes(outcomes: Seq<CopyOutcomeView>) -> nat
    decreases outcomes.len(),
{
    if outcomes.len() == 0 {
        0
    } else {
        total_bytes(outcomes.drop_last()) + outcome_bytes(outcomes.last())
    }
}

impl CopyResultView {
    /// The result of a run before any operation has ended.
    pub open spec fn empty() -> CopyResultView {
        CopyResultView {
            copied: Seq::empty(),
            conflicts: Seq::empty(),
            errors: Seq::empty(),
            bytes_copied: 0,
        }
    }

    /// The result with one more record, put behind those of its kind, and
    /// with its bytes added.
    pub open spec fn record(self, outcome: CopyOutcomeView) -> CopyResultView {
        match outcome {
            CopyOutcomeView::Copied(copied) => CopyResultView {
                copied: self.copied.push(copied),
                bytes_copied: self.bytes_copied + copied.size as nat,
                ..self
            },
            CopyOutcomeView::Conflicted(conflict) => CopyResultView {
                conflicts: self.conflicts.push(conflict),
                bytes_copied: self.bytes_copied + conflict.size as nat,
                ..self
            },
            CopyOutcomeView::Failed(error) => CopyResultView {
                errors: self.errors.push(error),
                ..self
            },
        }
    }

    /// Two results as one: the records of the second behind those of the
    /// first, and the bytes of both.
    pub open spec fn merge(self, other: CopyResultView) -> CopyResultView {
        CopyResultView {
            copied: self.copied + other.copied,
            conflicts: self.conflicts + other.conflicts,
            errors: self.errors + other.errors,
            bytes_copied: self.bytes_copied + other.bytes_copied,
        }
    }

    /// The number of records.
    pub open spec fn count(self) -> nat {
        self.copied.len() + self.conflicts.len() + self.errors.len()
    }

    /// The records without their order.
    pub open spec fn outcomes(self) -> Multiset<CopyOutcomeView> {
        self.copied.map_values(|copied: CopiedFileView| CopyOutcomeView::Copied(copied))
            .to_multiset().add(
            self.conflicts.map_values(
                |conflict: ConflictView| CopyOutcomeView::Conflicted(conflict),
            ).to_multiset(),
        ).add(
            self.errors.map_values(|error: CopyErrorView| CopyOutcomeView::Failed(error))
                .to_multiset(),
        )
    }
}

/// The result of a run whose operations ended with the given records, in
/// this order.
pub open spec fn tally(outcomes: Seq<CopyOutcomeView>) -> CopyResultView
    decreases outcomes.len(),
{
    if outcomes.len() == 0 {
        CopyResultView::empty()
    } else {
        tally(outcomes.drop_last()).record(outcomes.last())
    }
}

impl CopyResult {
    /// The result of a run before any operation has ended.
    pub fn new() -> (result: CopyResult)
        ensures
            result@ == CopyResultView::empty(),
    {
        let result = CopyResult {
            copied: Vec::new(),
            conflicts: Vec::new(),
            errors: Vec::new(),
            bytes_copied: 0,
        };
        assert(result@.copied =~= Seq::empty());
        assert(result@.conflicts =~= Seq::empty());
        assert(result@.errors =~= Seq::empty());
        result
    }

    /// Takes in the record of one operation and adds its bytes to the total.
    pub fn record(&mut self, outcome: CopyOutcome)
        requires
            old(self)@.bytes_copied + outcome_bytes(outcome@) <= u64::MAX,
        ensures
            final(self)@ == old(self)@.record(outcome@),
    {
        match outcome {
            CopyOutcome::Copied(copied) => {
                self.bytes_copied = self.bytes_copied + copied.size;
                self.copied.push(copied);
                assert(final(self)@.copied =~= old(self)@.copied.push(copied@));
            },
            CopyOutcome::Conflicted(conflict) => {
                self.bytes_copied = self.bytes_copied + conflict.size;
                self.conflicts.push(conflict);
                assert(final(self)@.conflicts =~= old(self)@.conflicts.push(conflict@));
            },
            CopyOutcome::Failed(error) => {
                self.errors.push(error);
                assert(final(self)@.errors =~= old(self)@.errors.push(error@));
            },
        }
    }

    /// Takes in the records that another worker gathered.
    pub fn merge(&mut self, other: CopyResult)
        requires
            old(self)@.bytes_copied + other@.bytes_copied <= u64::MAX,
        ensures
            final(self)@ == old(self)@.merge(other@),
    {
        let ghost theirs = other@;
        let mut other = other;
        self.bytes_copied = self.bytes_copied + other.bytes_copied;
        self.copied.append(&mut other.copied);
        self.conflicts.append(&mut other.conflicts);
        self.errors.append(&mut other.errors);
        assert(final(self)@.copied =~= old(self)@.copied + theirs.copied);
        assert(final(self)@.conflicts =~= old(self)@.conflicts + theirs.conflicts);
        assert(final(self)@.errors =~= old(self)@.errors + theirs.errors);
    }
}

/// Gathers the records of a run into its result.
pub fn collect(outcomes: Vec<CopyOutcome>) -> (result: CopyResult)
    requires
        total_bytes(views(outcomes@)) <= u64::MAX,
    ensures
        result@ == tally(views(outcomes@)),
{
    let ghost all = views(outcomes@);
    let mut result = CopyResult::new();
    for outcome in it: outcomes
        invariant
            all == views(it.seq()),
            result@ == tally(all.take(it.index() as int)),
            total_bytes(all) <= u64::MAX,
    {
        proof {
            let k = it.index() as int;
            assert(all.take(k + 1).drop_last() =~= all.take(k));
            lemma_total_bytes_grows(all, k + 1);
            lemma_tally_bytes(all.take(k));
        }
        result.record(outcome);
    }
    assert(all.take(all.len() as int) =~= all);
    result
}

/// The bytes of the first records are no more than the bytes of all.
pub proof fn lemma_total_bytes_grows(outcomes: Seq<CopyOutcomeView>, count: int)
    requires
        0 <= count <= outcomes.len(),
    ensures
        total_bytes(outcomes.take(count)) <= total_bytes(outcomes),
    decreases outcomes.len(),
{
    if count == outcomes.len() {
        assert(outcomes.take(count) =~= outcomes);
    } else {
        assert(outcomes.drop_last().take(count) =~= outcomes.take(count));
        lemma_total_bytes_grows(outcomes.drop_last(), count);
    }
}

/// The total of a result is the bytes of its records.
pub proof fn lemma_tally_bytes(outcomes: Seq<CopyOutcomeView>)
    ensures
        tally(outcomes).bytes_copied == total_bytes(outcomes),
    decreases outcomes.len(),
{
    if outcomes.len() > 0 {
        lemma_tally_bytes(outcomes.drop_last());
    }
}

/// Every operation that ended has exactly one record in the result: the
/// copies, the conflicts and the errors together are as many as the
/// operations.
pub proof fn lemma_one_record_each(outcomes: Seq<CopyOutcomeView>)
    ensures
        tally(outcomes).count() == outcomes.len(),
        tally(outcomes).outcomes() == outcomes.to_multiset(),
    decreases outcomes.len(),
{
    broadcast use vstd::seq_lib::group_to_multiset_ensures;

    if outcomes.len() > 0 {
        lemma_one_record_each(outcomes.drop_last());
        lemma_record_adds_one(tally(outcomes.drop_last()), outcomes.last());
        assert(outcomes.drop_last().push(outcomes.last()) =~= outcomes);
    }
}

/// A record that is taken in is one more record, and changes no other.
pub proof fn lemma_record_adds_one(result: CopyResultView, outcome: CopyOutcomeView)
    ensures
        result.record(outcome).count() == result.count() + 1,
        result.record(outcome).outcomes() == result.outcomes().insert(outcome),
{
    broadcast use vstd::seq_lib::group_to_multiset_ensures;

    let after = result.record(outcome);
    let as_copied = |copied: CopiedFileView| CopyOutcomeView::Copied(copied);
    let as_conflict = |conflict: ConflictView| CopyOutcomeView::Conflicted(conflict);
    let as_failed = |error: CopyErrorView| CopyOutcomeView::Failed(error);
    match outcome {
        CopyOutcomeView::Copied(copied) => {
            assert(after.copied.map_values(as_copied) =~= result.copied.map_values(
                as_copied,
            ).push(outcome));
        },
        CopyOutcomeView::Conflicted(conflict) => {
            assert(after.conflicts.map_values(as_conflict) =~= result.conflicts.map_values(
                as_conflict,
            ).push(outcome));
        },
        CopyOutcomeView::Failed(error) => {
            assert(after.errors.map_values(as_failed) =~= result.errors.map_values(
                as_failed,
            ).push(outcome));
        },
    }
}

/// The records of several workers, one worker's behind the other's.
pub open spec fn in_turn(parts: Seq<Seq<CopyOutcomeView>>) -> Seq<CopyOutcomeView>
    decreases parts.len(),
{
    if parts.len() == 0 {
        Seq::empty()
    } else {
        in_turn(parts.drop_last()) + parts.last()
    }
}

/// The result of a run whose workers each gathered their own records, and
/// whose results were merged in the end.
pub open spec fn merged(parts: Seq<Seq<CopyOutcomeView>>) -> CopyResultView
    decreases parts.len(),
{
    if parts.len() == 0 {
        CopyResultView::empty()
    } else {
        merged(parts.drop_last()).merge(tally(parts.last()))
    }
}

/// Merging the results of two workers gives what one worker would have
/// gathered from the records of both.
pub proof fn lemma_merge_of_tallies(first: Seq<CopyOutcomeView>, second: Seq<CopyOutcomeView>)
    ensures
        tally(first).merge(tally(second)) == tally(first + second),
    decreases second.len(),
{
    if second.len() == 0 {
        assert(first + second =~= first);
        assert(tally(first).merge(tally(second)) =~= tally(first));
    } else {
        lemma_merge_of_tallies(first, second.drop_last());
        assert((first + second).drop_last() =~= first + second.drop_last());
        assert(tally(first).merge(tally(second)) =~= tally(first + second));
    }
}

/// However the operations are shared out to workers, the merged result
/// holds what a single worker would have gathered, and so one record for
/// each operation.
pub proof fn lemma_workers_do_not_matter(parts: Seq<Seq<CopyOutcomeView>>)
    ensures
        merged(parts) == tally(in_turn(parts)),
        merged(parts).count() == in_turn(parts).len(),
        merged(parts).outcomes() == in_turn(parts).to_multiset(),
    decreases parts.len(),
{
    if parts.len() > 0 {
        lemma_workers_do_not_matter(parts.drop_last());
        lemma_merge_of_tallies(in_turn(parts.drop_last()), parts.last());
    }
    lemma_one_record_each(in_turn(parts));
}

/// Taking one record out takes its bytes out.
proof fn lemma_total_bytes_without(outcomes: Seq<CopyOutcomeView>, i: int)
    requires
        0 <= i < outcomes.len(),
    ensures
        total_bytes(outcomes) == total_bytes(outcomes.remove(i)) + outcome_bytes(outcomes[i]),
    decreases outcomes.len(),
{
    if i == outcomes.len() - 1 {
        assert(outcomes.remove(i) =~= outcomes.drop_last());
    } else {
        lemma_total_bytes_without(outcomes.drop_last(), i);
        assert(outcomes.remove(i).drop_last() =~= outcomes.drop_last().remove(i));
    }
}

/// The same records in another order have the same bytes.
proof fn lemma_total_bytes_any_order(first: Seq<CopyOutcomeView>, second: Seq<CopyOutcomeView>)
    requires
        first.to_multiset() == second.to_multiset(),
    ensures
        total_bytes(first) == total_bytes(second),
    decreases first.len(),
{
    broadcast use vstd::seq_lib::group_to_multiset_ensures;

    assert(first.len() == first.to_multiset().len());
    if first.len() > 0 {
        let last = first.last();
        let most = first.drop_last();
        assert(most.push(last) =~= first);
        assert(second.to_multiset().count(last) > 0);
        let j = choose|j: int| 0 <= j < second.len() && second[j] == last;
        assert(most.to_multiset() =~= first.to_multiset().remove(last));
        lemma_total_bytes_any_order(most, second.remove(j));
        lemma_total_bytes_without(second, j);
    }
}

/// The order in which the operations end does not show in the result: the
/// same records in another order give the same records, as many of them,
/// and the same bytes.
pub proof fn lemma_order_does_not_matter(
    first: Seq<CopyOutcomeView>,
    second: Seq<CopyOutcomeView>,
)
    requires
        first.to_multiset() == second.to_multiset(),
    ensures
        tally(first).outcomes() == tally(second).outcomes(),
        tally(first).count() == tally(second).count(),
        tally(first).bytes_copied == tally(second).bytes_copied,
{
    broadcast use vstd::seq_lib::group_to_multiset_ensures;

    assert(first.len() == first.to_multiset().len());
    lemma_one_record_each(first);
    lemma_one_record_each(second);
    lemma_tally_bytes(first);
    lemma_tally_bytes(second);
    lemma_total_bytes_any_order(first, second);
}

/// Whether the answers given for each operation of a plan bring each
/// operation to its end.
pub open spec fn all_settled(ops: Seq<CopyOpView>, answers: Seq<Seq<AttemptView>>) -> bool {
    &&& answers.len() == ops.len()
    &&& forall|i: int| 0 <= i < ops.len() ==> (#[trigger] outcome_of(ops[i], answers[i])) is Some
}

/// The records of a plan's operations, each operation with its own answers.
pub open spec fn records(ops: Seq<CopyOpView>, answers: Seq<Seq<AttemptView>>) -> Seq<
    CopyOutcomeView,
> {
    Seq::new(ops.len(), |i: int| outcome_of(ops[i], answers[i])->0)
}

/// A plan of N operations that have all ended leaves N records.
pub proof fn lemma_plan_is_accounted_for(ops: Seq<CopyOpView>, answers: Seq<Seq<AttemptView>>)
    requires
        all_settled(ops, answers),
    ensures
        tally(records(ops, answers)).count() == ops.len(),
{
    lemma_one_record_each(records(ops, answers));
}

/// Where every planned destination is free, every operation ends as a
/// copy: there is no conflict and no error.
pub proof fn lemma_free_destinations(ops: Seq<CopyOpView>, answers: Seq<Seq<AttemptView>>)
    requires
        answers.len() == ops.len(),
        forall|i: int|
            0 <= i < ops.len() ==> (#[trigger] answers[i]).len() > 0 && answers[i][0] is Written,
    ensures
        tally(records(ops, answers)).copied.len() == ops.len(),
        tally(records(ops, answers)).conflicts.len() == 0,
        tally(records(ops, answers)).errors.len() == 0,
    decreases ops.len(),
{
    if ops.len() > 0 {
        assert(records(ops, answers).drop_last() =~= records(ops.drop_last(), answers.drop_last()));
        lemma_free_destinations(ops.drop_last(), answers.drop_last());
    }
}

/// A file that cannot be read costs its own operation and no other: where
/// the first attempt of one operation fails for another reason than a taken
/// path, and every other planned destination is free, the result holds one
/// error, and a copy for each of the others.
pub proof fn lemma_failure_stays_alone(
    ops: Seq<CopyOpView>,
    answers: Seq<Seq<AttemptView>>,
    unread: int,
)
    requires
        answers.len() == ops.len(),
        0 <= unread < ops.len(),
        forall|i: int| 0 <= i < ops.len() ==> (#[trigger] answers[i]).len() > 0,
        forall|i: int| 0 <= i < ops.len() && i != unread ==> (#[trigger] answers[i])[0] is Written,
        answers[unread][0] matches AttemptView::Failed(failure) && !failure.already_exists,
    ensures
        tally(records(ops, answers)).errors.len() == 1,
        tally(records(ops, answers)).copied.len() == ops.len() - 1,
        tally(records(ops, answers)).conflicts.len() == 0,
    decreases ops.len(),
{
    let last = ops.len() - 1;
    let first_ops = ops.drop_last();
    let first_answers = answers.drop_last();
    assert(records(ops, answers).drop_last() =~= records(first_ops, first_answers));
    if unread == last {
        lemma_free_destinations(first_ops, first_answers);
    } else {
        lemma_failure_stays_alone(first_ops, first_answers, unread);
    }
}

} // verus!
