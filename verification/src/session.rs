//! The loop of a session as a state machine: prompt, read a line, dispatch
//! it, and prompt again or stop.
//!
//! The caller writes the prompt, reads the line and carries out what the
//! dispatch asks for. This module decides where the session stands after
//! each of these.

use vstd::prelude::*;
use crate::command::CommandResult;

verus! {

/// What is written before each line is read.
pub const PROMPT: &'static str = "$ ";

/// Where a session stands.
#[derive(Debug, Clone, Copy, PartialEq, Eq, Structural)]
pub enum Phase {
    /// The prompt is to be written.
    Prompting,
    /// A line is to be read.
    ReadingLine,
    /// The line that was read is to be dispatched.
    Dispatching,
    /// The session has ended.
    Terminated,
}

/// What the caller reports to the session.
#[derive(Debug, Clone, Copy, PartialEq, Eq, Structural)]
pub enum Event {
    /// The prompt was written.
    Prompted,
    /// A line was read.
    Line,
    /// The input has ended.
    EndOfInput,
    /// The line was dispatched, with this result.
    Dispatched(CommandResult),
}

/// The phase that follows `phase` on `event`. An event that the phase does
/// not wait for changes nothing.
pub open spec fn next_spec(phase: Phase, event: Event) -> Phase {
    match (phase, event) {
        (Phase::Prompting, Event::Prompted) => Phase::ReadingLine,
        (Phase::ReadingLine, Event::Line) => Phase::Dispatching,
        (Phase::ReadingLine, Event::EndOfInput) => Phase::Terminated,
        (Phase::Dispatching, Event::Dispatched(CommandResult::Exit)) => Phase::Terminated,
        (Phase::Dispatching, Event::Dispatched(_)) => Phase::Prompting,
        _ => phase,
    }
}

impl Phase {
    /// The phase in which a session starts.
    pub fn start() -> (r: Phase)
        ensures
            r == Phase::Prompting,
    {
        Phase::Prompting
    }

    /// The phase that follows this one on `event`.
    pub fn next(self, event: Event) -> (r: Phase)
        ensures
            r == next_spec(self, event),
    {
        match (self, event) {
            (Phase::Prompting, Event::Prompted) => Phase::ReadingLine,
            (Phase::ReadingLine, Event::Line) => Phase::Dispatching,
            (Phase::ReadingLine, Event::EndOfInput) => Phase::Terminated,
            (Phase::Dispatching, Event::Dispatched(CommandResult::Exit)) => Phase::Terminated,
            (Phase::Dispatching, Event::Dispatched(_)) => Phase::Prompting,
            (phase, _) => phase,
        }
    }

    /// Whether the session has ended.
    pub fn is_terminated(&self) -> (r: bool)
        ensures
            r == (*self == Phase::Terminated),
    {
        match self {
            Phase::Terminated => true,
            _ => false,
        }
    }
}

/// A session that has ended stays ended. A session ends only when the input
/// ends while a line is read, or when a dispatch results in `Exit`: neither
/// `Success` nor `Fail` ends it.
pub proof fn lemma_termination(phase: Phase, event: Event)
    ensures
        next_spec(Phase::Terminated, event) == Phase::Terminated,
        phase != Phase::Terminated && next_spec(phase, event) == Phase::Terminated ==> (phase
            == Phase::ReadingLine && event == Event::EndOfInput) || (phase == Phase::Dispatching
            && event == Event::Dispatched(CommandResult::Exit)),
        next_spec(Phase::Dispatching, Event::Dispatched(CommandResult::Success))
            == Phase::Prompting,
        next_spec(Phase::Dispatching, Event::Dispatched(CommandResult::Fail)) == Phase::Prompting,
{
}

/// The prompt is a dollar sign and a space.
pub proof fn lemma_prompt()
    ensures
        PROMPT@ == seq!['$', ' '],
{
    reveal_strlit("$ ");
    assert(PROMPT@ =~= seq!['$', ' ']);
}

} // verus!
