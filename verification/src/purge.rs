//! Emptying the table.
//!
//! Unless the caller has confirmed already, the run asks first and goes on
//! only after a `y` or a `yes`. Then it looks whether there is any row, and
//! empties the table if there is.

use crate::store::{Command, Halt, Reply};
use crate::text::{trim, trimmed};
use vstd::prelude::*;

verus! {

/// An ASCII capital letter as its small letter; any other character as it
/// is.
pub open spec fn lowered(c: char) -> char {
    if 'A' <= c && c <= 'Z' {
        ((c as u8 + 32) as u8) as char
    } else {
        c
    }
}

/// Two texts that are equal but for the case of ASCII letters.
pub open spec fn same_ignoring_case(a: Seq<char>, b: Seq<char>) -> bool {
    &&& a.len() == b.len()
    &&& forall|i: int| 0 <= i < a.len() ==> lowered(#[trigger] a[i]) == lowered(b[i])
}

/// Whether an answer says yes: trimmed, it is `y` or `yes` in any case.
pub open spec fn is_yes(answer: Seq<char>) -> bool {
    let t = trimmed(answer);
    same_ignoring_case(t, seq!['y']) || same_ignoring_case(t, seq!['y', 'e', 's'])
}

/// Whether an answer says yes.
pub fn is_affirmative(answer: &str) -> (yes: bool)
    ensures
        yes == is_yes(answer@),
{
    let t = trim(answer);
    let ghost y = seq!['y'];
    let ghost yes = seq!['y', 'e', 's'];
    if !t.is_ascii() {
        proof {
            let i = choose|i: int| 0 <= i < t@.len() && !('\0' <= #[trigger] t@[i] <= '\u{7f}');
            if same_ignoring_case(t@, y) {
                assert(lowered(t@[i]) == lowered(y[i]));
            }
            if same_ignoring_case(t@, yes) {
                assert(lowered(t@[i]) == lowered(yes[i]));
            }
        }
        return false;
    }
    let bytes = t.as_bytes();
    proof {
        vstd::utf8::is_ascii_chars_encode_utf8(t@);
    }
    let n = bytes.len();
    if n == 1 {
        let r = bytes[0] == 121 || bytes[0] == 89;
        proof {
            assert(t@[0] as u8 == bytes[0]);
            assert(r == (lowered(t@[0]) == lowered(y[0])));
            if r {
                assert(same_ignoring_case(t@, y));
            }
        }
        r
    } else if n == 3 {
        let r = (bytes[0] == 121 || bytes[0] == 89) && (bytes[1] == 101 || bytes[1] == 69) && (
        bytes[2] == 115 || bytes[2] == 83);
        proof {
            assert(t@[0] as u8 == bytes[0]);
            assert(t@[1] as u8 == bytes[1]);
            assert(t@[2] as u8 == bytes[2]);
            assert((bytes[0] == 121 || bytes[0] == 89) == (lowered(t@[0]) == lowered(yes[0])));
            assert((bytes[1] == 101 || bytes[1] == 69) == (lowered(t@[1]) == lowered(yes[1])));
            assert((bytes[2] == 115 || bytes[2] == 83) == (lowered(t@[2]) == lowered(yes[2])));
            if r {
                assert(same_ignoring_case(t@, yes));
            }
        }
        r
    } else {
        false
    }
}

/// The step that a purge is at.
#[derive(Clone, Copy, PartialEq, Eq, Structural, Debug)]
pub enum PurgePhase {
    /// Waiting for the answer to the question whether to go on.
    Confirm,
    /// Ask the store whether there is any row.
    Probe,
    /// Empty the table.
    Truncate,
    /// Nothing is left to do.
    Finished,
}

/// How a purge ended.
#[derive(Clone, Copy, PartialEq, Eq, Structural, Debug)]
pub enum PurgeOutcome {
    /// The answer was not a yes: the table is as it was.
    Cancelled,
    /// There was no row to delete.
    NothingToDelete,
    /// All rows were deleted.
    Deleted,
}

/// The state of a purge.
#[derive(Clone, Copy, PartialEq, Eq, Structural, Debug)]
pub struct Purge {
    /// The step that the run is at.
    pub phase: PurgePhase,
    /// How the run ended, once it has.
    pub outcome: Option<PurgeOutcome>,
    /// Why the run stopped, if it did.
    pub halt: Option<Halt>,
}

impl Purge {
    /// The state at the start: a run that is confirmed already goes to the
    /// store at once, any other waits for an answer.
    pub open spec fn initial(confirmed: bool) -> Purge {
        Purge {
            phase: if confirmed {
                PurgePhase::Probe
            } else {
                PurgePhase::Confirm
            },
            outcome: None,
            halt: None,
        }
    }

    /// Whether the run waits for an answer.
    pub open spec fn awaits_answer(self) -> bool {
        self.halt is None && self.phase == PurgePhase::Confirm
    }

    /// The state after an answer: a yes moves the run on, anything else
    /// cancels it. A run that does not wait for an answer stays as it is.
    pub open spec fn spec_answer(self, answer: Seq<char>) -> Purge {
        if !self.awaits_answer() {
            self
        } else if is_yes(answer) {
            Purge { phase: PurgePhase::Probe, ..self }
        } else {
            Purge { phase: PurgePhase::Finished, outcome: Some(PurgeOutcome::Cancelled), ..self }
        }
    }

    /// The command to perform next; none while the run waits for an answer
    /// and when it is over.
    pub open spec fn spec_pending(self) -> Option<Command> {
        if self.halt is Some {
            None
        } else {
            match self.phase {
                PurgePhase::Probe => Some(Command::HasRows),
                PurgePhase::Truncate => Some(Command::Truncate),
                _ => None,
            }
        }
    }

    /// The state after the reply to the pending command.
    pub open spec fn spec_accept(self, reply: Reply) -> Purge {
        if self.spec_pending() is None {
            self
        } else {
            match (self.phase, reply) {
                (_, Reply::Failed) => Purge { halt: Some(Halt::StoreFailed), ..self },
                (PurgePhase::Probe, Reply::Present(any)) => if any {
                    Purge { phase: PurgePhase::Truncate, ..self }
                } else {
                    Purge {
                        phase: PurgePhase::Finished,
                        outcome: Some(PurgeOutcome::NothingToDelete),
                        ..self
                    }
                },
                (PurgePhase::Truncate, Reply::Done) => Purge {
                    phase: PurgePhase::Finished,
                    outcome: Some(PurgeOutcome::Deleted),
                    ..self
                },
                _ => Purge { halt: Some(Halt::UnexpectedReply), ..self },
            }
        }
    }

    /// A run; `confirmed` says whether the caller has confirmed already.
    pub fn new(confirmed: bool) -> (run: Purge)
        ensures
            run == Purge::initial(confirmed),
    {
        Purge {
            phase: if confirmed {
                PurgePhase::Probe
            } else {
                PurgePhase::Confirm
            },
            outcome: None,
            halt: None,
        }
    }

    /// Whether the run waits for an answer.
    pub fn needs_answer(&self) -> (waiting: bool)
        ensures
            waiting == self.awaits_answer(),
    {
        self.halt.is_none() && self.phase == PurgePhase::Confirm
    }

    /// Takes the answer to the question whether to go on.
    pub fn answer(&mut self, answer: &str)
        ensures
            *final(self) == old(self).spec_answer(answer@),
    {
        if !self.needs_answer() {
            return ;
        }
        if is_affirmative(answer) {
            self.phase = PurgePhase::Probe;
        } else {
            self.phase = PurgePhase::Finished;
            self.outcome = Some(PurgeOutcome::Cancelled);
        }
    }

    /// The command to perform next.
    pub fn pending(&self) -> (command: Option<Command>)
        ensures
            command == self.spec_pending(),
    {
        if self.halt.is_some() {
            return None;
        }
        match self.phase {
            PurgePhase::Probe => Some(Command::HasRows),
            PurgePhase::Truncate => Some(Command::Truncate),
            _ => None,
        }
    }

    /// Takes the reply to the pending command.
    pub fn accept(&mut self, reply: Reply)
        ensures
            *final(self) == old(self).spec_accept(reply),
    {
        if self.pending().is_none() {
            return ;
        }
        match (self.phase, reply) {
            (_, Reply::Failed) => {
                self.halt = Some(Halt::StoreFailed);
            },
            (PurgePhase::Probe, Reply::Present(any)) => {
                if any {
                    self.phase = PurgePhase::Truncate;
                } else {
                    self.phase = PurgePhase::Finished;
                    self.outcome = Some(PurgeOutcome::NothingToDelete);
                }
            },
            (PurgePhase::Truncate, Reply::Done) => {
                self.phase = PurgePhase::Finished;
                self.outcome = Some(PurgeOutcome::Deleted);
            },
            _ => {
                self.halt = Some(Halt::UnexpectedReply);
            },
        }
    }
}

/// Without a yes nothing is ever sent to the store: a run that was not
/// confirmed and got another answer is over, cancelled, and has no command.
pub proof fn lemma_no_purge_without_yes(answer: Seq<char>)
    requires
        !is_yes(answer),
    ensures
        Purge::initial(false).spec_pending() is None,
        Purge::initial(false).spec_answer(answer).spec_pending() is None,
        Purge::initial(false).spec_answer(answer).outcome == Some(PurgeOutcome::Cancelled),
{
}

} // verus!
