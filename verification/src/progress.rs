//! How far each worker has come.
//!
//! Every worker owns one lane. A lane counts the entries that the worker is
//! done with, of a total that is fixed when the lane is made, and remembers
//! the name of the last one. The count only grows and never passes the total.
//! A lane is closed once; after that nothing changes it.

use crate::decimal::{digits_of, push_number};
use crate::text::{chars_of, push_char, push_range};
use vstd::prelude::*;

verus! {

/// The message of a lane that is closed.
pub open spec fn done_marker() -> Seq<char> {
    seq!['D', 'o', 'n', 'e', '!']
}

/// One lane of the progress display.
#[derive(Debug)]
pub struct ProgressState {
    completed_count: usize,
    failed_count: usize,
    total_count: usize,
    last_message: String,
    finished: bool,
}

/// What a lane shows.
pub struct ProgressView {
    /// Entries that the worker is done with, converted or not.
    pub completed: nat,
    /// Those among them that could not be converted.
    pub failed: nat,
    /// Entries that the worker was given.
    pub total: nat,
    /// The file name of the last entry, or the marker of a closed lane.
    pub message: Seq<char>,
    /// Whether the lane is closed.
    pub finished: bool,
}

impl ProgressView {
    /// Whether the counts are in order.
    pub open spec fn wf(self) -> bool {
        self.failed <= self.completed <= self.total
    }

    /// Whether the lane takes one more entry: it is open and not yet full.
    pub open spec fn is_open(self) -> bool {
        !self.finished && self.completed < self.total
    }

    /// The lane after one more entry with the file name `name`. A lane that
    /// is closed or full stays as it is.
    pub open spec fn recorded(self, name: Seq<char>, succeeded: bool) -> ProgressView {
        if self.is_open() {
            ProgressView {
                completed: self.completed + 1,
                failed: if succeeded {
                    self.failed
                } else {
                    self.failed + 1
                },
                message: name,
                ..self
            }
        } else {
            self
        }
    }

    /// The lane after it was closed. A closed lane stays as it is.
    pub open spec fn closed(self) -> ProgressView {
        if self.finished {
            self
        } else {
            ProgressView { finished: true, message: done_marker(), ..self }
        }
    }

    /// How the failures of a lane are shown: not at all where there are none.
    pub open spec fn failure_note(self) -> Seq<char> {
        if self.failed == 0 {
            Seq::empty()
        } else {
            seq![' ', '('] + digits_of(self.failed) + seq![' ', 'f', 'a', 'i', 'l', 'e', 'd', ')']
        }
    }

    /// The line that stands for the lane: count, total, failures and message.
    pub open spec fn label(self) -> Seq<char> {
        digits_of(self.completed) + seq!['/'] + digits_of(self.total) + self.failure_note()
            + seq![' '] + self.message
    }
}

impl View for ProgressState {
    type V = ProgressView;

    closed spec fn view(&self) -> ProgressView {
        ProgressView {
            completed: self.completed_count as nat,
            failed: self.failed_count as nat,
            total: self.total_count as nat,
            message: self.last_message@,
            finished: self.finished,
        }
    }
}

impl ProgressState {
    #[verifier::type_invariant]
    spec fn counts_in_order(self) -> bool {
        self.failed_count <= self.completed_count <= self.total_count
    }

    /// An open lane for `total` entries, with nothing counted and no message.
    pub fn new(total: usize) -> (lane: ProgressState)
        ensures
            lane@ == (ProgressView {
                completed: 0,
                failed: 0,
                total: total as nat,
                message: Seq::empty(),
                finished: false,
            }),
    {
        ProgressState {
            completed_count: 0,
            failed_count: 0,
            total_count: total,
            last_message: String::new(),
            finished: false,
        }
    }

    /// Counts one more entry and takes its file name as the message. Returns
    /// whether the entry was counted: a lane that is closed or full does not
    /// change.
    pub fn record(&mut self, name: String, succeeded: bool) -> (counted: bool)
        ensures
            counted == old(self)@.is_open(),
            final(self)@ == old(self)@.recorded(name@, succeeded),
            old(self)@.completed <= final(self)@.completed <= final(self)@.total,
            final(self)@.total == old(self)@.total,
            final(self)@.wf(),
    {
        proof {
            use_type_invariant(&*self);
        }
        if self.finished || self.completed_count >= self.total_count {
            return false;
        }
        self.completed_count = self.completed_count + 1;
        if !succeeded {
            self.failed_count = self.failed_count + 1;
        }
        self.last_message = name;
        true
    }

    /// Closes the lane and puts the marker in place of the message. Returns
    /// whether the lane was open before.
    pub fn finish(&mut self) -> (closed_now: bool)
        ensures
            closed_now == !old(self)@.finished,
            final(self)@ == old(self)@.closed(),
            final(self)@.completed == old(self)@.completed,
            final(self)@.total == old(self)@.total,
            final(self)@.wf(),
    {
        proof {
            use_type_invariant(&*self);
        }
        if self.finished {
            return false;
        }
        let marker = "Done!".to_owned();
        proof {
            reveal_strlit("Done!");
            assert(marker@ =~= done_marker());
        }
        self.last_message = marker;
        self.finished = true;
        true
    }

    /// Entries that the worker is done with.
    pub fn completed_count(&self) -> (n: usize)
        ensures
            n == self@.completed,
            self@.wf(),
    {
        proof {
            use_type_invariant(self);
        }
        self.completed_count
    }

    /// Entries that could not be converted.
    pub fn failed_count(&self) -> (n: usize)
        ensures
            n == self@.failed,
            self@.wf(),
    {
        proof {
            use_type_invariant(self);
        }
        self.failed_count
    }

    /// Entries that the worker was given.
    pub fn total_count(&self) -> (n: usize)
        ensures
            n == self@.total,
            self@.wf(),
    {
        proof {
            use_type_invariant(self);
        }
        self.total_count
    }

    /// The file name of the last entry, or the marker of a closed lane.
    pub fn last_message(&self) -> (message: &str)
        ensures
            message@ == self@.message,
    {
        self.last_message.as_str()
    }

    /// Whether the lane is closed.
    pub fn is_finished(&self) -> (finished: bool)
        ensures
            finished == self@.finished,
    {
        self.finished
    }

    /// The line that stands for the lane.
    pub fn label(&self) -> (line: String)
        ensures
            line@ == self@.label(),
    {
        let mut line = String::new();
        push_number(&mut line, self.completed_count);
        push_char(&mut line, '/');
        push_number(&mut line, self.total_count);
        if self.failed_count > 0 {
            push_char(&mut line, ' ');
            push_char(&mut line, '(');
            push_number(&mut line, self.failed_count);
            let note = chars_of(" failed)");
            proof {
                reveal_strlit(" failed)");
                assert(note@ =~= seq![' ', 'f', 'a', 'i', 'l', 'e', 'd', ')']);
            }
            push_range(&mut line, &note, 0, note.len());
            assert(note@.subrange(0, note.len() as int) =~= note@);
        }
        push_char(&mut line, ' ');
        let message = chars_of(self.last_message.as_str());
        push_range(&mut line, &message, 0, message.len());
        proof {
            assert(message@.subrange(0, message.len() as int) =~= message@);
            assert(line@ =~= self@.label());
        }
        line
    }
}

/// The lines of all lanes, in the order of the lanes.
pub fn lane_labels(lanes: &Vec<ProgressState>) -> (lines: Vec<String>)
    ensures
        lines.len() == lanes.len(),
        forall|i: int| 0 <= i < lanes.len() ==> (#[trigger] lines@[i])@ == lanes@[i]@.label(),
{
    let mut lines: Vec<String> = Vec::new();
    let mut i: usize = 0;
    while i < lanes.len()
        invariant
            i <= lanes.len(),
            lines.len() == i,
            forall|j: int| 0 <= j < i ==> (#[trigger] lines@[j])@ == lanes@[j]@.label(),
        decreases lanes.len() - i,
    {
        lines.push(lanes[i].label());
        i += 1;
    }
    lines
}

/// Whatever is recorded and whenever the lane is closed, the count does not
/// fall and does not pass the total, and the total stays.
pub proof fn lemma_progress_is_monotonic(lane: ProgressView, name: Seq<char>, succeeded: bool)
    requires
        lane.wf(),
    ensures
        lane.recorded(name, succeeded).wf(),
        lane.closed().wf(),
        lane.completed <= lane.recorded(name, succeeded).completed <= lane.total,
        lane.recorded(name, succeeded).total == lane.total,
        lane.closed().completed == lane.completed,
        lane.closed().total == lane.total,
{
}

/// Closing is final: a closed lane takes no entry, and closing it again
/// changes nothing.
pub proof fn lemma_closed_lane_is_final(lane: ProgressView, name: Seq<char>, succeeded: bool)
    ensures
        lane.closed().finished,
        lane.closed().recorded(name, succeeded) == lane.closed(),
        lane.closed().closed() == lane.closed(),
{
}

} // verus!
