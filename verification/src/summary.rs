//! What a run comes to once every worker has stopped.
//!
//! A failed entry stops nothing but itself. At the end the outcomes of all
//! workers are put together: how many entries were converted, how many were
//! not, and which were the first of those. Any failure makes the run end with
//! a code other than zero.

use crate::partition::{chunk_len, chunk_start, lemma_chunks_lie_end_to_end};
use crate::task::{ConversionOutcome, FailureKind, OutcomeView};
use crate::walk::SourceEntryView;
use vstd::prelude::*;

verus! {

/// How many failures a summary names.
pub const REPORTED_FAILURES: usize = 5;

/// A failure as the summary names it.
#[derive(Debug, PartialEq, Eq)]
pub struct FailureNote {
    /// The step that failed.
    pub kind: FailureKind,
    /// The source that could not be converted.
    pub path: String,
}

/// A `FailureNote` as text.
pub struct FailureNoteView {
    pub kind: FailureKind,
    pub path: Seq<char>,
}

impl View for FailureNote {
    type V = FailureNoteView;

    open spec fn view(&self) -> FailureNoteView {
        FailureNoteView { kind: self.kind, path: self.path@ }
    }
}

/// What the notes hold.
pub open spec fn note_views(notes: Seq<FailureNote>) -> Seq<FailureNoteView> {
    Seq::new(notes.len(), |i: int| notes[i]@)
}

/// What the outcomes hold.
pub open spec fn outcome_views(outcomes: Seq<ConversionOutcome>) -> Seq<OutcomeView> {
    Seq::new(outcomes.len(), |i: int| outcomes[i]@)
}

/// What the outcomes of several workers hold.
pub open spec fn outcome_views_of_all(per_worker: Seq<Vec<ConversionOutcome>>) -> Seq<
    Seq<OutcomeView>,
> {
    Seq::new(per_worker.len(), |i: int| outcome_views(per_worker[i]@))
}

/// The failures among `outcomes`, in their order.
pub open spec fn failures_of(outcomes: Seq<OutcomeView>) -> Seq<FailureNoteView>
    decreases outcomes.len(),
{
    if outcomes.len() == 0 {
        Seq::empty()
    } else {
        match outcomes.last() {
            OutcomeView::Failure { kind, path } => failures_of(outcomes.drop_last()).push(
                FailureNoteView { kind, path },
            ),
            OutcomeView::Success { .. } => failures_of(outcomes.drop_last()),
        }
    }
}

/// How many of `outcomes` are failures.
pub open spec fn failure_count(outcomes: Seq<OutcomeView>) -> nat {
    failures_of(outcomes).len()
}

/// The summary of a run.
#[derive(Debug)]
pub struct RunSummary {
    converted: usize,
    failed: usize,
    first_failures: Vec<FailureNote>,
}

/// A `RunSummary` as text.
pub struct SummaryView {
    /// Entries that were converted.
    pub converted: nat,
    /// Entries that were not.
    pub failed: nat,
    /// The first failures, `REPORTED_FAILURES` at most, in their order.
    pub first_failures: Seq<FailureNoteView>,
}

impl SummaryView {
    /// The code that the run ends with: zero exactly if nothing failed.
    pub open spec fn exit_code(self) -> u8 {
        if self.failed == 0 {
            0
        } else {
            1
        }
    }
}

/// The summary of a run that ended in `outcomes`.
pub open spec fn summary_of(outcomes: Seq<OutcomeView>) -> SummaryView {
    let failures = failures_of(outcomes);
    SummaryView {
        converted: (outcomes.len() - failures.len()) as nat,
        failed: failures.len(),
        first_failures: if failures.len() <= REPORTED_FAILURES {
            failures
        } else {
            failures.subrange(0, REPORTED_FAILURES as int)
        },
    }
}

/// There are no more failures than outcomes.
pub proof fn lemma_failures_are_outcomes(outcomes: Seq<OutcomeView>)
    ensures
        failures_of(outcomes).len() <= outcomes.len(),
        failures_of(outcomes).len() == 0 <==> forall|i: int|
            0 <= i < outcomes.len() ==> #[trigger] outcomes[i] is Success,
    decreases outcomes.len(),
{
    if outcomes.len() > 0 {
        let before = outcomes.drop_last();
        lemma_failures_are_outcomes(before);
        if failures_of(outcomes).len() == 0 {
            assert forall|i: int| 0 <= i < outcomes.len() implies #[trigger] outcomes[i] is Success by {
                if i < before.len() {
                    assert(before[i] == outcomes[i]);
                }
            }
        } else if outcomes.last() is Success {
            let i = choose|i: int| 0 <= i < before.len() && !(#[trigger] before[i] is Success);
            assert(outcomes[i] == before[i]);
        }
    }
}

impl View for RunSummary {
    type V = SummaryView;

    closed spec fn view(&self) -> SummaryView {
        SummaryView {
            converted: self.converted as nat,
            failed: self.failed as nat,
            first_failures: note_views(self.first_failures@),
        }
    }
}

/// Puts the outcomes of all workers in one row, worker after worker.
pub fn gather(per_worker: Vec<Vec<ConversionOutcome>>) -> (all: Vec<ConversionOutcome>)
    ensures
        outcome_views(all@) == outcome_views_of_all(per_worker@).flatten(),
{
    let ghost rows = per_worker@;
    let ghost views = outcome_views_of_all(rows);
    let mut all: Vec<ConversionOutcome> = Vec::new();
    proof {
        assert(views.take(0).flatten_alt() =~= outcome_views(all@));
        views.take(0).lemma_flatten_and_flatten_alt_are_equivalent();
    }
    for row in it: per_worker
        invariant
            it.seq() == rows,
            views == outcome_views_of_all(rows),
            outcome_views(all@) == views.take(it.index() as int).flatten(),
    {
        let ghost done = it.index() as int;
        let ghost before = outcome_views(all@);
        let mut row = row;
        all.append(&mut row);
        proof {
            assert(outcome_views(all@) =~= before + views[done]);
            let upto = views.take(done + 1);
            assert(upto.drop_last() =~= views.take(done));
            upto.lemma_flatten_and_flatten_alt_are_equivalent();
            views.take(done).lemma_flatten_and_flatten_alt_are_equivalent();
        }
    }
    assert(views.take(views.len() as int) =~= views);
    all
}

impl RunSummary {
    /// The summary of a run that ended in `outcomes`.
    pub fn of(outcomes: &Vec<ConversionOutcome>) -> (summary: RunSummary)
        ensures
            summary@ == summary_of(outcome_views(outcomes@)),
    {
        let ghost views = outcome_views(outcomes@);
        let mut converted: usize = 0;
        let mut failed: usize = 0;
        let mut first_failures: Vec<FailureNote> = Vec::new();
        let mut i: usize = 0;
        while i < outcomes.len()
            invariant
                i <= outcomes.len(),
                views == outcome_views(outcomes@),
                converted + failed == i,
                failed == failures_of(views.take(i as int)).len(),
                first_failures.len() <= REPORTED_FAILURES,
                note_views(first_failures@) == summary_of(views.take(i as int)).first_failures,
            decreases outcomes.len() - i,
        {
            proof {
                assert(views.take(i as int + 1).drop_last() =~= views.take(i as int));
                assert(views.take(i as int + 1).last() == outcomes@[i as int]@);
            }
            let ghost before = failures_of(views.take(i as int));
            match &outcomes[i] {
                ConversionOutcome::Success { .. } => {
                    converted += 1;
                },
                ConversionOutcome::Failure { kind, path } => {
                    if failed < REPORTED_FAILURES {
                        let ghost notes = note_views(first_failures@);
                        let note = FailureNote { kind: *kind, path: path.clone() };
                        first_failures.push(note);
                        assert(note_views(first_failures@) =~= notes.push(note@));
                    } else {
                        assert(before.push(FailureNoteView { kind: *kind, path: path@ }).subrange(
                            0,
                            REPORTED_FAILURES as int,
                        ) =~= before.subrange(0, REPORTED_FAILURES as int));
                    }
                    failed += 1;
                },
            }
            i += 1;
        }
        assert(views.take(i as int) =~= views);
        RunSummary { converted, failed, first_failures }
    }

    /// The summary of a run whose workers ended in `per_worker`, one row of
    /// outcomes for each worker.
    pub fn of_workers(per_worker: Vec<Vec<ConversionOutcome>>) -> (summary: RunSummary)
        ensures
            summary@ == summary_of(outcome_views_of_all(per_worker@).flatten()),
    {
        let all = gather(per_worker);
        RunSummary::of(&all)
    }

    /// Entries that were converted.
    pub fn converted(&self) -> (n: usize)
        ensures
            n == self@.converted,
    {
        self.converted
    }

    /// Entries that were not converted.
    pub fn failed(&self) -> (n: usize)
        ensures
            n == self@.failed,
    {
        self.failed
    }

    /// The first failures, `REPORTED_FAILURES` at most, in the order of the outcomes.
    pub fn first_failures(&self) -> (notes: &Vec<FailureNote>)
        ensures
            note_views(notes@) == self@.first_failures,
    {
        &self.first_failures
    }

    /// The code that the run ends with: zero exactly if nothing failed.
    pub fn exit_code(&self) -> (code: u8)
        ensures
            code == self@.exit_code(),
            code == 0 <==> self@.failed == 0,
    {
        if self.failed == 0 {
            0
        } else {
            1
        }
    }
}

/// Whether the rows of outcomes are those of workers that each went through
/// the whole of its chunk of `entries`: each row has one outcome for each
/// entry of the chunk, about that entry.
pub open spec fn went_through(
    per_worker: Seq<Seq<OutcomeView>>,
    entries: Seq<SourceEntryView>,
    workers: nat,
) -> bool {
    &&& per_worker.len() == workers
    &&& forall|i: int|
        0 <= i < workers ==> (#[trigger] per_worker[i]).len() == chunk_len(
            entries.len(),
            workers,
            i as nat,
        )
    &&& forall|i: int, j: int|
        0 <= i < workers && 0 <= j < per_worker[i].len() ==> (#[trigger] per_worker[i][j]).source()
            == entries[chunk_start(entries.len(), workers, i as nat) + j].path
}

/// The first `count` rows, one after the other, are about the entries up to
/// the start of chunk `count`, one outcome for each.
proof fn lemma_rows_join(
    per_worker: Seq<Seq<OutcomeView>>,
    entries: Seq<SourceEntryView>,
    workers: nat,
    count: nat,
)
    requires
        workers > 0,
        count <= workers,
        went_through(per_worker, entries, workers),
    ensures
        per_worker.take(count as int).flatten().len() == chunk_start(
            entries.len(),
            workers,
            count,
        ),
        forall|k: int|
            0 <= k < chunk_start(entries.len(), workers, count) ==> (#[trigger] per_worker.take(
                count as int,
            ).flatten()[k]).source() == entries[k].path,
    decreases count,
{
    let rows = per_worker.take(count as int);
    rows.lemma_flatten_and_flatten_alt_are_equivalent();
    if count == 0 {
        lemma_chunks_lie_end_to_end(entries.len(), workers, 0);
    } else {
        let before = per_worker.take(count - 1);
        lemma_rows_join(per_worker, entries, workers, (count - 1) as nat);
        before.lemma_flatten_and_flatten_alt_are_equivalent();
        lemma_chunks_lie_end_to_end(entries.len(), workers, (count - 1) as nat);
        assert(rows.drop_last() =~= before);
        assert(rows.last() == per_worker[count - 1]);
        let start = chunk_start(entries.len(), workers, (count - 1) as nat);
        assert forall|k: int|
            0 <= k < chunk_start(entries.len(), workers, count) implies (#[trigger] rows.flatten()[k]).source()
            == entries[k].path by {
            if k < start {
                assert(rows.flatten()[k] == before.flatten()[k]);
            } else {
                assert(rows.flatten()[k] == per_worker[count - 1][k - start]);
            }
        }
    }
}

/// Where every worker goes through the whole of its chunk, every entry of the
/// run has exactly one outcome: the outcomes of all workers, put in one row,
/// are as many as the entries and are about them in their order, and the
/// summary counts each entry once, as converted or as failed.
pub proof fn lemma_every_entry_has_one_outcome(
    per_worker: Seq<Seq<OutcomeView>>,
    entries: Seq<SourceEntryView>,
    workers: nat,
)
    requires
        workers > 0,
        went_through(per_worker, entries, workers),
    ensures
        per_worker.flatten().len() == entries.len(),
        forall|k: int|
            0 <= k < entries.len() ==> (#[trigger] per_worker.flatten()[k]).source()
                == entries[k].path,
        summary_of(per_worker.flatten()).converted + summary_of(per_worker.flatten()).failed
            == entries.len(),
{
    lemma_rows_join(per_worker, entries, workers, workers);
    lemma_chunks_lie_end_to_end(entries.len(), workers, (workers - 1) as nat);
    assert(per_worker.take(workers as int) =~= per_worker);
    lemma_failures_are_outcomes(per_worker.flatten());
}

} // verus!
