//! The way of one entry from source file to converted copy.
//!
//! An entry passes through a fixed row of stages. Each stage is left by one
//! step. Four steps need the file system or the codec and can fail; the others
//! cannot. A failed step ends the entry with the kind of the failure.

use crate::path::{destination, destination_path};
use crate::walk::SourceEntry;
use vstd::prelude::*;

verus! {

/// Which step of a conversion failed.
#[derive(Clone, Copy, Debug, PartialEq, Eq, Structural)]
pub enum FailureKind {
    /// The source file could not be opened.
    Open,
    /// The codec could not decode the source file.
    Decode,
    /// The converted copy could not be encoded or written.
    Save,
    /// The source file could not be removed.
    Delete,
}

/// How far the conversion of one entry has come.
#[derive(Clone, Copy, Debug, PartialEq, Eq, Structural)]
pub enum Stage {
    /// Nothing has been done.
    Pending,
    /// The source file is open.
    Opened,
    /// The source file is decoded.
    Decoded,
    /// The destination path is in use.
    Renamed,
    /// The converted copy is written.
    Saved,
    /// The source file is removed.
    DeletedOriginal,
    /// The source file stays.
    SkippedDelete,
    /// The entry is counted as converted.
    Done,
    /// A step failed; nothing more is done for the entry.
    Failed(FailureKind),
}

/// The work that leads from one stage to the next.
#[derive(Clone, Copy, Debug, PartialEq, Eq, Structural)]
pub enum Step {
    /// Open the source file.
    Open,
    /// Decode what was opened.
    Decode,
    /// Take the destination path into use.
    Rename,
    /// Encode and write the converted copy.
    Save,
    /// Remove the source file.
    Delete,
    /// Leave the source file where it is.
    SkipDelete,
    /// Count the entry.
    Report,
}

/// How a step ended.
#[derive(Clone, Copy, Debug, PartialEq, Eq, Structural)]
pub enum StepOutcome {
    /// The step did its work.
    Succeeded,
    /// The step could not do its work.
    Failed,
}

impl FailureKind {
    /// What went wrong with a source, in words that can follow its path.
    pub open spec fn message_text(self) -> Seq<char> {
        match self {
            FailureKind::Open => "could not be opened"@,
            FailureKind::Decode => "could not be decoded"@,
            FailureKind::Save => "could not be saved in the new format"@,
            FailureKind::Delete => "was converted, but could not be deleted"@,
        }
    }

    /// Says in words what went wrong with a source.
    pub fn message(&self) -> (text: String)
        ensures
            text@ == self.message_text(),
    {
        match self {
            FailureKind::Open => "could not be opened".to_owned(),
            FailureKind::Decode => "could not be decoded".to_owned(),
            FailureKind::Save => "could not be saved in the new format".to_owned(),
            FailureKind::Delete => "was converted, but could not be deleted".to_owned(),
        }
    }
}

impl Step {
    /// The failure that this step can end in, if it can fail.
    pub open spec fn failure(self) -> Option<FailureKind> {
        match self {
            Step::Open => Some(FailureKind::Open),
            Step::Decode => Some(FailureKind::Decode),
            Step::Save => Some(FailureKind::Save),
            Step::Delete => Some(FailureKind::Delete),
            Step::Rename | Step::SkipDelete | Step::Report => None,
        }
    }

    /// Whether this step needs the file system or the codec.
    pub open spec fn is_outside(self) -> bool {
        self.failure() is Some
    }

    /// Computes `failure`.
    pub fn failure_kind(self) -> (kind: Option<FailureKind>)
        ensures
            kind == self.failure(),
    {
        match self {
            Step::Open => Some(FailureKind::Open),
            Step::Decode => Some(FailureKind::Decode),
            Step::Save => Some(FailureKind::Save),
            Step::Delete => Some(FailureKind::Delete),
            Step::Rename | Step::SkipDelete | Step::Report => None,
        }
    }
}

impl Stage {
    /// The step that leaves this stage; none leaves `Done` or `Failed`.
    pub open spec fn step(self, delete_original: bool) -> Option<Step> {
        match self {
            Stage::Pending => Some(Step::Open),
            Stage::Opened => Some(Step::Decode),
            Stage::Decoded => Some(Step::Rename),
            Stage::Renamed => Some(Step::Save),
            Stage::Saved => if delete_original {
                Some(Step::Delete)
            } else {
                Some(Step::SkipDelete)
            },
            Stage::DeletedOriginal | Stage::SkippedDelete => Some(Step::Report),
            Stage::Done | Stage::Failed(_) => None,
        }
    }

    /// The stage that follows when the step of this stage did its work.
    pub open spec fn successor(self, delete_original: bool) -> Stage {
        match self {
            Stage::Pending => Stage::Opened,
            Stage::Opened => Stage::Decoded,
            Stage::Decoded => Stage::Renamed,
            Stage::Renamed => Stage::Saved,
            Stage::Saved => if delete_original {
                Stage::DeletedOriginal
            } else {
                Stage::SkippedDelete
            },
            Stage::DeletedOriginal | Stage::SkippedDelete => Stage::Done,
            Stage::Done | Stage::Failed(_) => self,
        }
    }

    /// The stage that follows this one when its step ended in `outcome`.
    /// A step that cannot fail is taken whatever `outcome` says.
    pub open spec fn after(self, outcome: StepOutcome, delete_original: bool) -> Stage {
        match self.step(delete_original) {
            Some(step) => match (outcome, step.failure()) {
                (StepOutcome::Failed, Some(kind)) => Stage::Failed(kind),
                _ => self.successor(delete_original),
            },
            None => self,
        }
    }

    /// This stage, or the one that its step leads to where that step needs
    /// nothing from outside and decides nothing: `Rename` and `SkipDelete`.
    pub open spec fn settled(self, delete_original: bool) -> Stage {
        match self.step(delete_original) {
            Some(Step::Rename) | Some(Step::SkipDelete) => self.successor(delete_original),
            _ => self,
        }
    }

    /// Whether nothing follows this stage.
    pub open spec fn is_terminal(self) -> bool {
        self is Done || self is Failed
    }

    /// Computes `step`.
    pub fn next_step(self, delete_original: bool) -> (step: Option<Step>)
        ensures
            step == self.step(delete_original),
            step is None <==> self.is_terminal(),
    {
        match self {
            Stage::Pending => Some(Step::Open),
            Stage::Opened => Some(Step::Decode),
            Stage::Decoded => Some(Step::Rename),
            Stage::Renamed => Some(Step::Save),
            Stage::Saved => if delete_original {
                Some(Step::Delete)
            } else {
                Some(Step::SkipDelete)
            },
            Stage::DeletedOriginal | Stage::SkippedDelete => Some(Step::Report),
            Stage::Done | Stage::Failed(_) => None,
        }
    }

    /// Computes `after`.
    pub fn advance(self, outcome: StepOutcome, delete_original: bool) -> (next: Stage)
        ensures
            next == self.after(outcome, delete_original),
    {
        match self.next_step(delete_original) {
            None => self,
            Some(step) => {
                match (outcome, step.failure_kind()) {
                    (StepOutcome::Failed, Some(kind)) => Stage::Failed(kind),
                    _ => match self {
                        Stage::Pending => Stage::Opened,
                        Stage::Opened => Stage::Decoded,
                        Stage::Decoded => Stage::Renamed,
                        Stage::Renamed => Stage::Saved,
                        Stage::Saved => if delete_original {
                            Stage::DeletedOriginal
                        } else {
                            Stage::SkippedDelete
                        },
                        Stage::DeletedOriginal | Stage::SkippedDelete => Stage::Done,
                        Stage::Done | Stage::Failed(_) => self,
                    },
                }
            },
        }
    }
}

/// What all workers of a run go by. No worker changes it.
#[derive(Debug, PartialEq, Eq)]
pub struct Settings {
    /// The extension of the converted copies, which names their format.
    pub target: String,
    /// The directory for the converted copies; without one, each copy goes
    /// beside its source.
    pub dest_dir: Option<String>,
    /// Whether a source is removed once its copy is written.
    pub delete_original: bool,
    /// Whether the first failure ends the work of a worker.
    pub fail_fast: bool,
}

/// `Settings` as text.
pub struct SettingsView {
    pub target: Seq<char>,
    pub dest_dir: Option<Seq<char>>,
    pub delete_original: bool,
    pub fail_fast: bool,
}

impl View for Settings {
    type V = SettingsView;

    open spec fn view(&self) -> SettingsView {
        SettingsView {
            target: self.target@,
            dest_dir: match self.dest_dir {
                Some(dir) => Some(dir@),
                None => None,
            },
            delete_original: self.delete_original,
            fail_fast: self.fail_fast,
        }
    }
}

/// Work on one entry that only the caller can do.
#[derive(Debug, PartialEq, Eq)]
pub enum Action {
    /// Open the file at `path` for reading.
    Open { path: String },
    /// Decode the file that was opened.
    Decode,
    /// Encode what was decoded and write it to `path`.
    Save { path: String },
    /// Remove the file at `path`.
    Delete { path: String },
}

/// An `Action` as text.
pub enum ActionView {
    Open { path: Seq<char> },
    Decode,
    Save { path: Seq<char> },
    Delete { path: Seq<char> },
}

impl View for Action {
    type V = ActionView;

    open spec fn view(&self) -> ActionView {
        match self {
            Action::Open { path } => ActionView::Open { path: path@ },
            Action::Decode => ActionView::Decode,
            Action::Save { path } => ActionView::Save { path: path@ },
            Action::Delete { path } => ActionView::Delete { path: path@ },
        }
    }
}

/// The view of an action that may be missing.
pub open spec fn action_view(action: Option<Action>) -> Option<ActionView> {
    match action {
        Some(a) => Some(a@),
        None => None,
    }
}

/// How the conversion of one entry ended.
#[derive(Debug, PartialEq, Eq)]
pub enum ConversionOutcome {
    /// The copy is written at `destination`.
    Success { source: String, destination: String, original_removed: bool },
    /// A step failed for the source at `path`.
    Failure { kind: FailureKind, path: String },
}

/// A `ConversionOutcome` as text.
pub enum OutcomeView {
    Success { source: Seq<char>, destination: Seq<char>, original_removed: bool },
    Failure { kind: FailureKind, path: Seq<char> },
}

impl View for ConversionOutcome {
    type V = OutcomeView;

    open spec fn view(&self) -> OutcomeView {
        match self {
            ConversionOutcome::Success { source, destination, original_removed } => {
                OutcomeView::Success {
                    source: source@,
                    destination: destination@,
                    original_removed: *original_removed,
                }
            },
            ConversionOutcome::Failure { kind, path } => OutcomeView::Failure {
                kind: *kind,
                path: path@,
            },
        }
    }
}

/// The view of an outcome that may be missing.
pub open spec fn outcome_view(outcome: Option<ConversionOutcome>) -> Option<OutcomeView> {
    match outcome {
        Some(o) => Some(o@),
        None => None,
    }
}

impl OutcomeView {
    /// The source that the outcome is about.
    pub open spec fn source(self) -> Seq<char> {
        match self {
            OutcomeView::Success { source, .. } => source,
            OutcomeView::Failure { path, .. } => path,
        }
    }
}

impl ConversionOutcome {
    /// Whether the entry was converted.
    pub fn is_success(&self) -> (yes: bool)
        ensures
            yes == (self@ is Success),
    {
        match self {
            ConversionOutcome::Success { .. } => true,
            ConversionOutcome::Failure { .. } => false,
        }
    }

    /// The path of the source that the outcome is about.
    pub fn source(&self) -> (path: &str)
        ensures
            path@ == self@.source(),
    {
        match self {
            ConversionOutcome::Success { source, .. } => source.as_str(),
            ConversionOutcome::Failure { path, .. } => path.as_str(),
        }
    }
}

/// The conversion of one entry: where it comes from, where it goes, and how
/// far it is. Between two calls it never rests at a stage whose step needs
/// nothing from outside.
#[derive(Debug)]
pub struct ConversionTask {
    source: String,
    destination: String,
    delete_original: bool,
    stage: Stage,
}

/// A `ConversionTask` as text.
pub struct TaskView {
    pub source: Seq<char>,
    pub destination: Seq<char>,
    pub delete_original: bool,
    pub stage: Stage,
}

impl TaskView {
    /// The task for the source at `path`, with nothing done.
    pub open spec fn start(path: Seq<char>, settings: SettingsView) -> TaskView {
        TaskView {
            source: path,
            destination: destination(path, settings.target, settings.dest_dir),
            delete_original: settings.delete_original,
            stage: Stage::Pending,
        }
    }

    /// The step that the task waits for.
    pub open spec fn step(self) -> Option<Step> {
        self.stage.step(self.delete_original)
    }

    /// What the caller has to do next; nothing where the task is over or only
    /// waits to be counted.
    pub open spec fn action(self) -> Option<ActionView> {
        match self.step() {
            Some(Step::Open) => Some(ActionView::Open { path: self.source }),
            Some(Step::Decode) => Some(ActionView::Decode),
            Some(Step::Save) => Some(ActionView::Save { path: self.destination }),
            Some(Step::Delete) => Some(ActionView::Delete { path: self.source }),
            _ => None,
        }
    }

    /// The task after the step it waited for ended in `outcome`.
    pub open spec fn advanced(self, outcome: StepOutcome) -> TaskView {
        TaskView {
            stage: self.stage.after(outcome, self.delete_original).settled(self.delete_original),
            ..self
        }
    }

    /// How the conversion ended, once the copy is written and the source
    /// dealt with, or a step has failed.
    pub open spec fn outcome(self) -> Option<OutcomeView> {
        match self.stage {
            Stage::Failed(kind) => Some(OutcomeView::Failure { kind, path: self.source }),
            Stage::DeletedOriginal => Some(
                OutcomeView::Success {
                    source: self.source,
                    destination: self.destination,
                    original_removed: true,
                },
            ),
            Stage::SkippedDelete => Some(
                OutcomeView::Success {
                    source: self.source,
                    destination: self.destination,
                    original_removed: false,
                },
            ),
            Stage::Done => Some(
                OutcomeView::Success {
                    source: self.source,
                    destination: self.destination,
                    original_removed: self.delete_original,
                },
            ),
            _ => None,
        }
    }
}

impl View for ConversionTask {
    type V = TaskView;

    closed spec fn view(&self) -> TaskView {
        TaskView {
            source: self.source@,
            destination: self.destination@,
            delete_original: self.delete_original,
            stage: self.stage,
        }
    }
}

/// The directory of the settings, borrowed.
fn dest_dir_of(settings: &Settings) -> (dir: Option<&str>)
    ensures
        crate::path::dir_view(dir) == settings@.dest_dir,
{
    match &settings.dest_dir {
        Some(dir) => Some(dir.as_str()),
        None => None,
    }
}

impl ConversionTask {
    #[verifier::type_invariant]
    spec fn at_rest(self) -> bool {
        self.stage == self.stage.settled(self.delete_original)
    }

    /// The task for `entry`, with nothing done.
    pub fn new(entry: &SourceEntry, settings: &Settings) -> (task: ConversionTask)
        ensures
            task@ == TaskView::start(entry@.path, settings@),
    {
        let source = entry.path();
        let destination = destination_path(
            source,
            settings.target.as_str(),
            dest_dir_of(settings),
        );
        ConversionTask {
            source: source.to_owned(),
            destination,
            delete_original: settings.delete_original,
            stage: Stage::Pending,
        }
    }

    /// How far the task is.
    pub fn stage(&self) -> (stage: Stage)
        ensures
            stage == self@.stage,
            stage == stage.settled(self@.delete_original),
    {
        proof {
            use_type_invariant(self);
        }
        self.stage
    }

    /// The path of the source.
    pub fn source(&self) -> (path: &str)
        ensures
            path@ == self@.source,
    {
        self.source.as_str()
    }

    /// The path of the converted copy.
    pub fn destination(&self) -> (path: &str)
        ensures
            path@ == self@.destination,
    {
        self.destination.as_str()
    }

    /// What the caller has to do next.
    pub fn next_action(&self) -> (action: Option<Action>)
        ensures
            action_view(action) == self@.action(),
            action is None <==> self@.outcome() is Some,
    {
        proof {
            use_type_invariant(self);
        }
        match self.stage.next_step(self.delete_original) {
            Some(Step::Open) => Some(Action::Open { path: self.source.clone() }),
            Some(Step::Decode) => Some(Action::Decode),
            Some(Step::Save) => Some(Action::Save { path: self.destination.clone() }),
            Some(Step::Delete) => Some(Action::Delete { path: self.source.clone() }),
            _ => None,
        }
    }

    /// Takes note of how the step that the task waited for ended.
    pub fn advance(&mut self, outcome: StepOutcome)
        ensures
            final(self)@ == old(self)@.advanced(outcome),
    {
        let next = self.stage.advance(outcome, self.delete_original);
        let rested = match next.next_step(self.delete_original) {
            Some(Step::Rename) | Some(Step::SkipDelete) => next.advance(
                StepOutcome::Succeeded,
                self.delete_original,
            ),
            _ => next,
        };
        self.stage = rested;
    }

    /// How the conversion ended, once it has.
    pub fn outcome(&self) -> (outcome: Option<ConversionOutcome>)
        ensures
            outcome_view(outcome) == self@.outcome(),
    {
        match self.stage {
            Stage::Failed(kind) => Some(
                ConversionOutcome::Failure { kind, path: self.source.clone() },
            ),
            Stage::DeletedOriginal => Some(
                ConversionOutcome::Success {
                    source: self.source.clone(),
                    destination: self.destination.clone(),
                    original_removed: true,
                },
            ),
            Stage::SkippedDelete => Some(
                ConversionOutcome::Success {
                    source: self.source.clone(),
                    destination: self.destination.clone(),
                    original_removed: false,
                },
            ),
            Stage::Done => Some(
                ConversionOutcome::Success {
                    source: self.source.clone(),
                    destination: self.destination.clone(),
                    original_removed: self.delete_original,
                },
            ),
            _ => None,
        }
    }
}

/// The stage of an entry after the first `n` of `outcomes`, starting at `Pending`.
pub open spec fn stage_after(outcomes: Seq<StepOutcome>, n: nat, delete_original: bool) -> Stage
    recommends
        n <= outcomes.len(),
    decreases n,
{
    if n == 0 {
        Stage::Pending
    } else {
        stage_after(outcomes, (n - 1) as nat, delete_original).after(
            outcomes[n - 1],
            delete_original,
        )
    }
}

/// The source file is removed only after the copy is written: whatever the
/// steps of an entry ended in, where the next step is `Delete`, the step
/// before it was `Save`, and it succeeded.
pub proof fn lemma_delete_follows_save(outcomes: Seq<StepOutcome>, n: nat, delete_original: bool)
    requires
        n <= outcomes.len(),
        stage_after(outcomes, n, delete_original).step(delete_original) == Some(Step::Delete),
    ensures
        delete_original,
        n >= 1,
        stage_after(outcomes, (n - 1) as nat, delete_original).step(delete_original) == Some(
            Step::Save,
        ),
        outcomes[n - 1] == StepOutcome::Succeeded,
{
}

/// The stage `DeletedOriginal` is reached only with the delete flag set, and
/// only through `Saved`.
pub proof fn lemma_deleted_only_when_saved(
    outcomes: Seq<StepOutcome>,
    n: nat,
    delete_original: bool,
)
    requires
        n <= outcomes.len(),
        stage_after(outcomes, n, delete_original) == Stage::DeletedOriginal,
    ensures
        delete_original,
        n >= 1,
        stage_after(outcomes, (n - 1) as nat, delete_original) == Stage::Saved,
        outcomes[n - 1] == StepOutcome::Succeeded,
{
}

/// Without the delete flag no run of steps asks for `Delete`.
pub proof fn lemma_no_delete_without_flag(outcomes: Seq<StepOutcome>, n: nat)
    requires
        n <= outcomes.len(),
    ensures
        stage_after(outcomes, n, false).step(false) != Some(Step::Delete),
{
}

/// An entry is over after at most six steps, and a finished entry stays as it is.
pub proof fn lemma_stage_row_is_finite(outcomes: Seq<StepOutcome>, n: nat, delete_original: bool)
    requires
        6 <= n <= outcomes.len(),
    ensures
        stage_after(outcomes, n, delete_original).is_terminal(),
    decreases n,
{
    reveal_with_fuel(stage_after, 7);
    if n > 6 {
        lemma_stage_row_is_finite(outcomes, (n - 1) as nat, delete_original);
    }
}

} // verus!
