//! The steps of a run: what is to be done for one entry, what is logged for
//! it and what it adds to the counters.

use vstd::prelude::*;
use vstd::string::*;
use crate::entry::EntryKind;
use crate::stats::{CopyStats, Counts};

verus! {

/// What is done for an entry.
#[derive(Clone, Copy, Debug, PartialEq, Eq, Structural)]
pub enum Step {
    /// Nothing: the entry is excluded. It still advances the progress count.
    Skip,
    /// Nothing is changed; the intended change is logged.
    Simulate,
    /// The directory is created, or the file copied, and the source's
    /// permissions are set on the result. `announce` asks for a log line once
    /// that is done.
    Perform { announce: bool },
}

/// The mathematical content of an [`Action`].
pub struct ActionView {
    pub kind: EntryKind,
    pub source: Seq<char>,
    pub destination: Seq<char>,
    pub step: Step,
}

/// One step of a run: an entry of the source tree, where it goes, and what is
/// done about it.
#[derive(Debug, PartialEq, Eq)]
pub struct Action {
    /// File or directory.
    pub kind: EntryKind,
    /// The path of the entry in the source tree.
    pub source: String,
    /// The path of its counterpart below the destination root.
    pub destination: String,
    /// What is done.
    pub step: Step,
}

impl View for Action {
    type V = ActionView;

    open spec fn view(&self) -> ActionView {
        ActionView {
            kind: self.kind,
            source: self.source@,
            destination: self.destination@,
            step: self.step,
        }
    }
}

impl Clone for Action {
    fn clone(&self) -> (copy: Action)
        ensures
            copy@ == self@,
    {
        Action {
            kind: self.kind,
            source: self.source.clone(),
            destination: self.destination.clone(),
            step: self.step,
        }
    }
}

impl DeepView for Action {
    type V = ActionView;

    open spec fn deep_view(&self) -> ActionView {
        self@
    }
}

/// The mark that opens every log line of a simulated step.
pub open spec fn simulated_mark() -> Seq<char> {
    "[DRY RUN] "@
}

impl ActionView {
    /// The step changes the destination.
    pub open spec fn mutates(self) -> bool {
        self.step is Perform
    }

    /// The same step in a dry run: a change becomes its simulation, and a
    /// skip stays a skip.
    pub open spec fn simulated(self) -> ActionView {
        ActionView {
            step: match self.step {
                Step::Skip => Step::Skip,
                _ => Step::Simulate,
            },
            ..self
        }
    }

    /// What the step adds to the counters: one file or one directory, and
    /// nothing for a skip.
    pub open spec fn counts(self) -> Counts {
        match (self.step, self.kind) {
            (Step::Skip, _) => Counts::zero(),
            (_, EntryKind::File) => Counts { files: 1, dirs: 0 },
            (_, EntryKind::Directory) => Counts { files: 0, dirs: 1 },
        }
    }

    /// The line that the step logs, if it logs one.
    ///
    /// A simulated step always logs, and its line opens with the mark of a
    /// simulation. A performed step logs where it was asked to announce
    /// itself. A skip logs nothing.
    pub open spec fn log_line(self) -> Option<Seq<char>> {
        match (self.step, self.kind) {
            (Step::Skip, _) => None,
            (Step::Simulate, EntryKind::Directory) => Some(
                simulated_mark() + "mkdir "@ + self.destination,
            ),
            (Step::Simulate, EntryKind::File) => Some(
                simulated_mark() + self.source + " -> "@ + self.destination,
            ),
            (Step::Perform { announce }, EntryKind::Directory) => if announce {
                Some("[DIR] "@ + self.destination)
            } else {
                None
            },
            (Step::Perform { announce }, EntryKind::File) => if announce {
                Some("[FILE] "@ + self.source + " -> "@ + self.destination)
            } else {
                None
            },
        }
    }
}

impl Action {
    /// Whether the step changes the destination.
    pub fn mutates(&self) -> (m: bool)
        ensures
            m == self@.mutates(),
    {
        match self.step {
            Step::Perform { .. } => true,
            _ => false,
        }
    }

    /// What the step adds to the counters.
    pub fn contribution(&self) -> (stats: CopyStats)
        ensures
            stats@ == self@.counts(),
    {
        match (self.step, self.kind) {
            (Step::Skip, _) => CopyStats { files: 0, dirs: 0 },
            (_, EntryKind::File) => CopyStats { files: 1, dirs: 0 },
            (_, EntryKind::Directory) => CopyStats { files: 0, dirs: 1 },
        }
    }

    /// The line to log for the step, if it logs one.
    pub fn log_line(&self) -> (line: Option<String>)
        ensures
            line is Some <==> self@.log_line() is Some,
            line matches Some(l) ==> Some(l@) == self@.log_line(),
    {
        match (self.step, self.kind) {
            (Step::Skip, _) => None,
            (Step::Simulate, EntryKind::Directory) => {
                let mut line = String::from_str("[DRY RUN] ");
                line.append("mkdir ");
                line.append(self.destination.as_str());
                Some(line)
            },
            (Step::Simulate, EntryKind::File) => {
                let mut line = String::from_str("[DRY RUN] ");
                line.append(self.source.as_str());
                line.append(" -> ");
                line.append(self.destination.as_str());
                Some(line)
            },
            (Step::Perform { announce }, EntryKind::Directory) => {
                if announce {
                    let mut line = String::from_str("[DIR] ");
                    line.append(self.destination.as_str());
                    Some(line)
                } else {
                    None
                }
            },
            (Step::Perform { announce }, EntryKind::File) => {
                if announce {
                    let mut line = String::from_str("[FILE] ");
                    line.append(self.source.as_str());
                    line.append(" -> ");
                    line.append(self.destination.as_str());
                    Some(line)
                } else {
                    None
                }
            },
        }
    }
}

} // verus!
