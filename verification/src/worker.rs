//! One worker and its chunk.
//!
//! A worker takes the entries of its chunk one after the other, in their
//! order. For each it asks the caller for the work that needs the file system
//! or the codec, one step at a time, and is told how the step ended. It counts
//! every entry it is done with in its lane and keeps how each one ended.

use crate::path::{destination, file_name, file_name_of};
use crate::progress::{ProgressState, ProgressView};
use crate::summary::{failure_count, outcome_views};
use crate::task::{
    action_view, Action, ActionView, ConversionOutcome, ConversionTask, OutcomeView, Settings,
    SettingsView, Stage, StepOutcome, TaskView,
};
use crate::walk::{entry_views, SourceEntry, SourceEntryView};
use vstd::prelude::*;

verus! {

/// A worker at work on its chunk.
#[derive(Debug)]
pub struct Worker<'a> {
    entries: Vec<SourceEntry>,
    settings: &'a Settings,
    task: Option<ConversionTask>,
    progress: ProgressState,
    outcomes: Vec<ConversionOutcome>,
    called_off: bool,
}

/// A `Worker` as text.
pub struct WorkerView {
    /// The chunk.
    pub entries: Seq<SourceEntryView>,
    /// What the run goes by.
    pub settings: SettingsView,
    /// The entry in work; none where the worker has stopped.
    pub task: Option<TaskView>,
    /// The lane of the worker.
    pub progress: ProgressView,
    /// How the entries ended that the worker is done with, in their order.
    pub outcomes: Seq<OutcomeView>,
    /// Whether the worker was called off.
    pub called_off: bool,
}

impl WorkerView {
    /// The task for entry `index` of the chunk.
    pub open spec fn task_for(self, index: int) -> TaskView {
        TaskView::start(self.entries[index].path, self.settings)
    }

    /// What the outcome of entry `index` is if it was converted.
    pub open spec fn success_of(self, index: int) -> OutcomeView {
        OutcomeView::Success {
            source: self.entries[index].path,
            destination: destination(
                self.entries[index].path,
                self.settings.target,
                self.settings.dest_dir,
            ),
            original_removed: self.settings.delete_original,
        }
    }

    /// A worker that has not begun. With an empty chunk it has stopped at once.
    pub open spec fn start(entries: Seq<SourceEntryView>, settings: SettingsView) -> WorkerView {
        let lane = ProgressView {
            completed: 0,
            failed: 0,
            total: entries.len(),
            message: Seq::empty(),
            finished: false,
        };
        if entries.len() == 0 {
            WorkerView {
                entries,
                settings,
                task: None,
                progress: lane.closed(),
                outcomes: Seq::empty(),
                called_off: false,
            }
        } else {
            WorkerView {
                entries,
                settings,
                task: Some(TaskView::start(entries[0].path, settings)),
                progress: lane,
                outcomes: Seq::empty(),
                called_off: false,
            }
        }
    }

    /// What the caller has to do next; nothing where the worker has stopped.
    pub open spec fn action(self) -> Option<ActionView> {
        match self.task {
            Some(task) => task.action(),
            None => None,
        }
    }

    /// Whether the worker goes on after an entry ended in `done`: there is
    /// another entry, and no failure that ends the work.
    pub open spec fn goes_on_after(self, done: OutcomeView) -> bool {
        self.outcomes.len() + 1 < self.entries.len() && (done is Success
            || !self.settings.fail_fast)
    }

    /// The worker after the entry in work ended in `done`: the entry is
    /// counted, and the next one is taken up or the lane closed.
    pub open spec fn with_outcome(self, done: OutcomeView) -> WorkerView {
        let outcomes = self.outcomes.push(done);
        let progress = self.progress.recorded(file_name(done.source()), done is Success);
        if self.goes_on_after(done) {
            WorkerView {
                task: Some(self.task_for(outcomes.len() as int)),
                progress,
                outcomes,
                ..self
            }
        } else {
            WorkerView { task: None, progress: progress.closed(), outcomes, ..self }
        }
    }

    /// The worker after the step it asked for ended in `outcome`.
    pub open spec fn after(self, outcome: StepOutcome) -> WorkerView {
        match self.task {
            None => self,
            Some(task) => match task.advanced(outcome).outcome() {
                None => WorkerView { task: Some(task.advanced(outcome)), ..self },
                Some(done) => self.with_outcome(done),
            },
        }
    }

    /// Whether the worker stands between two entries: it has stopped, or
    /// nothing is done yet for the entry in work.
    pub open spec fn is_between_entries(self) -> bool {
        match self.task {
            Some(task) => task.stage is Pending,
            None => true,
        }
    }

    /// The worker after the run was called off. Between two entries a worker
    /// that has not stopped stops; in the middle of an entry it goes on.
    pub open spec fn told_to_stop(self) -> WorkerView {
        if self.task is Some && self.is_between_entries() {
            WorkerView { task: None, progress: self.progress.closed(), called_off: true, ..self }
        } else {
            self
        }
    }

    /// Whether the worker has stopped before the end of its chunk.
    pub open spec fn is_halted(self) -> bool {
        self.task is None && self.outcomes.len() < self.entries.len()
    }

    /// What holds of every worker: it is done with a beginning of its chunk,
    /// entry by entry; its lane counts what it is done with; and the entry in
    /// work is the one after those.
    pub open spec fn wf(self) -> bool {
        &&& self.outcomes.len() <= self.entries.len()
        &&& forall|i: int|
            0 <= i < self.outcomes.len() ==> {
                ||| #[trigger] self.outcomes[i] == self.success_of(i)
                ||| self.outcomes[i] matches OutcomeView::Failure { path, .. } && path
                    == self.entries[i].path
            }
        &&& self.settings.fail_fast ==> forall|i: int|
            0 <= i < self.outcomes.len() && #[trigger] self.outcomes[i] is Failure ==> i
                == self.outcomes.len() - 1 && self.task is None
        &&& self.progress.total == self.entries.len()
        &&& self.progress.completed == self.outcomes.len()
        &&& self.progress.failed == failure_count(self.outcomes)
        &&& self.progress.finished == (self.task is None)
        &&& self.task matches Some(task) ==> {
            &&& self.outcomes.len() < self.entries.len()
            &&& task.source == self.entries[self.outcomes.len() as int].path
            &&& task.destination == destination(
                task.source,
                self.settings.target,
                self.settings.dest_dir,
            )
            &&& task.delete_original == self.settings.delete_original
            &&& task.action() is Some
        }
        &&& self.called_off ==> self.task is None
        &&& self.is_halted() ==> self.called_off || (self.settings.fail_fast
            && self.outcomes.len() > 0 && self.outcomes.last() is Failure)
    }
}

impl<'a> View for Worker<'a> {
    type V = WorkerView;

    closed spec fn view(&self) -> WorkerView {
        WorkerView {
            entries: entry_views(self.entries@),
            settings: self.settings@,
            task: match self.task {
                Some(task) => Some(task@),
                None => None,
            },
            progress: self.progress@,
            outcomes: outcome_views(self.outcomes@),
            called_off: self.called_off,
        }
    }
}

/// A worker that has not begun is in order.
pub proof fn lemma_start_is_wf(entries: Seq<SourceEntryView>, settings: SettingsView)
    ensures
        WorkerView::start(entries, settings).wf(),
{
}

/// A worker stays in order whatever its steps end in.
pub proof fn lemma_worker_stays_wf(worker: WorkerView, outcome: StepOutcome)
    requires
        worker.wf(),
    ensures
        worker.after(outcome).wf(),
{
    let next = worker.after(outcome);
    if let Some(task) = worker.task {
        if let Some(done) = task.advanced(outcome).outcome() {
            let n = worker.outcomes.len() as int;
            assert(next.outcomes.drop_last() =~= worker.outcomes);
            assert(next.outcomes[n] == done);
            assert forall|i: int| 0 <= i < next.outcomes.len() implies ({
                ||| #[trigger] next.outcomes[i] == next.success_of(i)
                ||| next.outcomes[i] matches OutcomeView::Failure { path, .. } && path
                    == next.entries[i].path
            }) by {
                if i < n {
                    assert(next.outcomes[i] == worker.outcomes[i]);
                    assert(next.success_of(i) == worker.success_of(i));
                }
            }
            if worker.settings.fail_fast {
                assert forall|i: int|
                    0 <= i < next.outcomes.len() && #[trigger] next.outcomes[i] is Failure implies i
                    == next.outcomes.len() - 1 && next.task is None by {
                    if i < n {
                        assert(next.outcomes[i] == worker.outcomes[i]);
                    }
                }
            }
        }
    }
}

impl<'a> Worker<'a> {
    #[verifier::type_invariant]
    spec fn in_order(self) -> bool {
        self@.wf()
    }

    /// A worker for the chunk `entries`, which has not begun.
    pub fn new(entries: Vec<SourceEntry>, settings: &'a Settings) -> (worker: Worker<'a>)
        ensures
            worker@ == WorkerView::start(entry_views(entries@), settings@),
    {
        let mut progress = ProgressState::new(entries.len());
        let task = if entries.len() == 0 {
            progress.finish();
            None
        } else {
            Some(ConversionTask::new(&entries[0], settings))
        };
        let outcomes: Vec<ConversionOutcome> = Vec::new();
        proof {
            lemma_start_is_wf(entry_views(entries@), settings@);
            assert(outcome_views(outcomes@) =~= Seq::<OutcomeView>::empty());
        }
        Worker { entries, settings, task, progress, outcomes, called_off: false }
    }

    /// What the caller has to do next; nothing where the worker has stopped.
    pub fn next_action(&self) -> (action: Option<Action>)
        ensures
            action_view(action) == self@.action(),
            action is None <==> self@.task is None,
            self@.wf(),
    {
        proof {
            use_type_invariant(self);
        }
        match &self.task {
            Some(task) => task.next_action(),
            None => None,
        }
    }

    /// Takes note of how the step that the worker asked for ended.
    pub fn on_result(self, outcome: StepOutcome) -> (next: Worker<'a>)
        ensures
            next@ == self@.after(outcome),
            next@.wf(),
    {
        proof {
            use_type_invariant(&self);
            lemma_worker_stays_wf(self@, outcome);
        }
        let ghost before = self@;
        let Worker { entries, settings, task, progress, outcomes, called_off } = self;
        let mut progress = progress;
        let mut outcomes = outcomes;
        match task {
            None => Worker { entries, settings, task: None, progress, outcomes, called_off },
            Some(current) => {
                let mut current = current;
                current.advance(outcome);
                match current.outcome() {
                    None => Worker {
                        entries,
                        settings,
                        task: Some(current),
                        progress,
                        outcomes,
                        called_off,
                    },
                    Some(done) => {
                        assert(outcomes.len() == before.outcomes.len());
                        assert(entries.len() == before.entries.len());
                        let succeeded = done.is_success();
                        let name = file_name_of(done.source());
                        let goes_on = outcomes.len() + 1 < entries.len() && (succeeded
                            || !settings.fail_fast);
                        progress.record(name, succeeded);
                        outcomes.push(done);
                        assert(outcome_views(outcomes@) =~= before.outcomes.push(done@));
                        let task = if goes_on {
                            Some(ConversionTask::new(&entries[outcomes.len()], settings))
                        } else {
                            progress.finish();
                            None
                        };
                        Worker { entries, settings, task, progress, outcomes, called_off }
                    },
                }
            },
        }
    }

    /// Calls the worker off. Between two entries it stops at once and closes
    /// its lane; in the middle of an entry it goes on, and can be called off
    /// again when it is done with the entry.
    pub fn stop(self) -> (next: Worker<'a>)
        ensures
            next@ == self@.told_to_stop(),
            next@.wf(),
    {
        proof {
            use_type_invariant(&self);
        }
        let Worker { entries, settings, task, progress, outcomes, called_off } = self;
        let mut progress = progress;
        match task {
            Some(current) => {
                if matches!(current.stage(), Stage::Pending) {
                    progress.finish();
                    Worker { entries, settings, task: None, progress, outcomes, called_off: true }
                } else {
                    Worker { entries, settings, task: Some(current), progress, outcomes, called_off }
                }
            },
            None => Worker { entries, settings, task: None, progress, outcomes, called_off },
        }
    }

    /// Whether the worker was called off and has stopped for it.
    pub fn is_called_off(&self) -> (yes: bool)
        ensures
            yes == self@.called_off,
            yes ==> self@.task is None,
    {
        proof {
            use_type_invariant(self);
        }
        self.called_off
    }

    /// Whether the worker has stopped, at the end of its chunk or before it.
    pub fn is_finished(&self) -> (yes: bool)
        ensures
            yes == (self@.task is None),
    {
        self.task.is_none()
    }

    /// Whether the worker has stopped before the end of its chunk. It does so
    /// only where it was called off, or after a failure where the first
    /// failure ends the work.
    pub fn is_halted(&self) -> (yes: bool)
        ensures
            yes == self@.is_halted(),
            yes ==> self@.called_off || (self@.settings.fail_fast && self@.outcomes.len() > 0
                && self@.outcomes.last() is Failure),
    {
        proof {
            use_type_invariant(self);
        }
        self.task.is_none() && self.outcomes.len() < self.entries.len()
    }

    /// The lane of the worker.
    pub fn progress(&self) -> (lane: &ProgressState)
        ensures
            lane@ == self@.progress,
            self@.wf(),
    {
        proof {
            use_type_invariant(self);
        }
        &self.progress
    }

    /// The chunk of the worker.
    pub fn entries(&self) -> (entries: &Vec<SourceEntry>)
        ensures
            entry_views(entries@) == self@.entries,
    {
        &self.entries
    }

    /// How the entries ended that the worker is done with, in the order of the chunk.
    pub fn outcomes(&self) -> (outcomes: &Vec<ConversionOutcome>)
        ensures
            outcome_views(outcomes@) == self@.outcomes,
            self@.wf(),
    {
        proof {
            use_type_invariant(self);
        }
        &self.outcomes
    }

    /// Takes the outcomes out of a worker that has stopped; a worker still at
    /// work is handed back as it is. The outcomes are those of a beginning of
    /// the chunk, entry by entry, and of the whole chunk unless the worker
    /// stopped early.
    pub fn join(self) -> (outcomes: Result<Vec<ConversionOutcome>, Worker<'a>>)
        ensures
            outcomes is Ok <==> self@.task is None,
            outcomes matches Ok(o) ==> {
                &&& outcome_views(o@) == self@.outcomes
                &&& o.len() <= self@.entries.len()
                &&& !self@.is_halted() ==> o.len() == self@.entries.len()
                &&& forall|i: int|
                    0 <= i < o.len() ==> (#[trigger] o@[i])@.source() == self@.entries[i].path
            },
            outcomes matches Err(worker) ==> worker@ == self@,
            self@.wf(),
    {
        proof {
            use_type_invariant(&self);
        }
        if self.task.is_none() {
            let ghost views = self@.outcomes;
            assert forall|i: int| 0 <= i < self.outcomes.len() implies (
            #[trigger] self.outcomes@[i])@.source() == self@.entries[i].path by {
                assert(self.outcomes@[i]@ == views[i]);
                assert(views[i] == self@.success_of(i) || views[i] is Failure);
            }
            Ok(self.outcomes)
        } else {
            Err(self)
        }
    }
}

/// Calling a worker off leaves it in order and loses nothing: what it is done
/// with stays, its counts stay, and between two entries it asks for nothing
/// more.
pub proof fn lemma_called_off_worker_has_stopped(worker: WorkerView)
    requires
        worker.wf(),
    ensures
        worker.told_to_stop().wf(),
        worker.told_to_stop().outcomes == worker.outcomes,
        worker.told_to_stop().entries == worker.entries,
        worker.told_to_stop().progress.completed == worker.progress.completed,
        worker.told_to_stop().progress.total == worker.progress.total,
        worker.is_between_entries() ==> worker.told_to_stop().action() is None,
        !worker.is_between_entries() ==> worker.told_to_stop() == worker,
{
}

/// The source of an entry is removed only after its copy is written: where a
/// worker asks to delete a file, the step before was the saving of that
/// file's copy, and it succeeded.
pub proof fn lemma_delete_only_after_save(worker: WorkerView, outcome: StepOutcome)
    requires
        worker.wf(),
        worker.after(outcome).action() is Some,
        worker.after(outcome).action()->0 is Delete,
    ensures
        outcome == StepOutcome::Succeeded,
        worker.settings.delete_original,
        worker.action() == Some(
            ActionView::Save {
                path: destination(
                    worker.after(outcome).action()->0->Delete_path,
                    worker.settings.target,
                    worker.settings.dest_dir,
                ),
            },
        ),
{
}

/// A worker takes its entries in their order and skips none: what it is done
/// with is a beginning of its chunk, each outcome is about the entry at its
/// place, and a step moves the worker on by one entry at most.
pub proof fn lemma_entries_in_order(worker: WorkerView, outcome: StepOutcome)
    requires
        worker.wf(),
    ensures
        worker.after(outcome).entries == worker.entries,
        worker.outcomes.len() <= worker.after(outcome).outcomes.len() <= worker.outcomes.len() + 1,
        worker.after(outcome).outcomes.len() <= worker.entries.len(),
        worker.after(outcome).outcomes.subrange(0, worker.outcomes.len() as int)
            == worker.outcomes,
        forall|i: int|
            0 <= i < worker.after(outcome).outcomes.len() ==> (
            #[trigger] worker.after(outcome).outcomes[i]).source() == worker.entries[i].path,
{
    lemma_worker_stays_wf(worker, outcome);
    let next = worker.after(outcome);
    assert(next.outcomes.subrange(0, worker.outcomes.len() as int) =~= worker.outcomes);
    assert forall|i: int| 0 <= i < next.outcomes.len() implies (#[trigger] next.outcomes[i]).source()
        == worker.entries[i].path by {
        assert(next.outcomes[i] == next.success_of(i) || next.outcomes[i] is Failure);
    }
}

/// The lane of a worker never runs backwards and never passes its total.
pub proof fn lemma_lane_is_monotonic(worker: WorkerView, outcome: StepOutcome)
    requires
        worker.wf(),
    ensures
        worker.progress.completed <= worker.after(outcome).progress.completed
            <= worker.after(outcome).progress.total,
        worker.after(outcome).progress.total == worker.progress.total,
        worker.progress.failed <= worker.after(outcome).progress.failed,
{
    lemma_worker_stays_wf(worker, outcome);
    let next = worker.after(outcome);
    if next.outcomes.len() > worker.outcomes.len() {
        assert(next.outcomes.drop_last() =~= worker.outcomes);
    }
}

} // verus!
