use shell_engine::command::CommandResult;
use shell_engine::session::{Event, Phase, PROMPT};

#[test]
fn prompt_is_dollar_and_space() {
    assert_eq!(PROMPT, "$ ");
}

#[test]
fn session_starts_prompting() {
    assert_eq!(Phase::start(), Phase::Prompting);
    assert!(!Phase::start().is_terminated());
}

#[test]
fn session_goes_round_until_exit() {
    let mut phase = Phase::start();
    phase = phase.next(Event::Prompted);
    assert_eq!(phase, Phase::ReadingLine);
    phase = phase.next(Event::Line);
    assert_eq!(phase, Phase::Dispatching);
    phase = phase.next(Event::Dispatched(CommandResult::Fail));
    assert_eq!(phase, Phase::Prompting);
    phase = phase.next(Event::Prompted).next(Event::Line);
    phase = phase.next(Event::Dispatched(CommandResult::Success));
    assert_eq!(phase, Phase::Prompting);
    phase = phase.next(Event::Prompted).next(Event::Line);
    phase = phase.next(Event::Dispatched(CommandResult::Exit));
    assert_eq!(phase, Phase::Terminated);
    assert!(phase.is_terminated());
}

#[test]
fn session_ends_with_the_input() {
    let phase = Phase::start().next(Event::Prompted).next(Event::EndOfInput);
    assert_eq!(phase, Phase::Terminated);
}

#[test]
fn terminated_is_final() {
    for event in [
        Event::Prompted,
        Event::Line,
        Event::EndOfInput,
        Event::Dispatched(CommandResult::Success),
        Event::Dispatched(CommandResult::Exit),
    ] {
        assert_eq!(Phase::Terminated.next(event), Phase::Terminated);
    }
}

#[test]
fn unexpected_events_change_nothing() {
    assert_eq!(Phase::Prompting.next(Event::Line), Phase::Prompting);
    assert_eq!(Phase::Prompting.next(Event::EndOfInput), Phase::Prompting);
    assert_eq!(Phase::Prompting.next(Event::Dispatched(CommandResult::Exit)), Phase::Prompting);
    assert_eq!(Phase::ReadingLine.next(Event::Prompted), Phase::ReadingLine);
    assert_eq!(Phase::Dispatching.next(Event::EndOfInput), Phase::Dispatching);
}
