use password_gate::gate::{
    begin, interpret_key, is_waiting, permits_saving, run_script, should_save_password, step,
    warning_for, ConfirmationDecision, GateAction, GateEvent, GateReport, GateState, KeyInput,
};
use password_gate::strength::StrengthScore;

const ACCEPTED: GateState = GateState::Resolved(ConfirmationDecision::Accept);

const ABORTED: GateState = GateState::Resolved(ConfirmationDecision::Abort);

const ALL_EVENTS: [GateEvent; 9] = [
    GateEvent::Open,
    GateEvent::WarningShown,
    GateEvent::RawModeEntered,
    GateEvent::SwitchFailed,
    GateEvent::ReadFailed,
    GateEvent::Key(KeyInput::Enter),
    GateEvent::Key(KeyInput::Char('q')),
    GateEvent::Key(KeyInput::Char('x')),
    GateEvent::Key(KeyInput::Other),
];

fn entered(mut more: Vec<GateEvent>) -> Vec<GateEvent> {
    let mut events = vec![GateEvent::Open, GateEvent::WarningShown, GateEvent::RawModeEntered];
    events.append(&mut more);
    events
}

fn report(state: GateState, shown: usize, asked: usize, entered: usize, restored: usize) -> GateReport {
    GateReport {
        state,
        warnings_shown: shown,
        raw_mode_asked: asked,
        raw_mode_entered: entered,
        terminal_restored: restored,
    }
}

#[test]
fn enter_accepts_and_q_aborts() {
    assert_eq!(interpret_key(KeyInput::Enter), Some(ConfirmationDecision::Accept));
    assert_eq!(interpret_key(KeyInput::Char('q')), Some(ConfirmationDecision::Abort));
    assert_eq!(interpret_key(KeyInput::Char('Q')), Some(ConfirmationDecision::Abort));
}

#[test]
fn other_keys_decide_nothing() {
    assert_eq!(interpret_key(KeyInput::Other), None);
    assert_eq!(interpret_key(KeyInput::Char('y')), None);
    assert_eq!(interpret_key(KeyInput::Char('n')), None);
    assert_eq!(interpret_key(KeyInput::Char('\n')), None);
    assert_eq!(interpret_key(KeyInput::Char(' ')), None);
    assert_eq!(interpret_key(KeyInput::Char('p')), None);
}

#[test]
fn opening_an_idle_prompt_asks_for_the_warning_first() {
    assert_eq!(
        step(GateState::Idle, GateEvent::Open),
        (GateState::Warning, GateAction::ShowWarning)
    );
}

#[test]
fn the_switch_is_asked_for_once_the_warning_is_shown() {
    assert_eq!(
        step(GateState::Warning, GateEvent::WarningShown),
        (GateState::Switching, GateAction::EnterRawMode)
    );
}

#[test]
fn a_key_is_asked_for_once_the_terminal_is_switched() {
    assert_eq!(
        step(GateState::Switching, GateEvent::RawModeEntered),
        (GateState::AwaitingKey, GateAction::ReadKey)
    );
}

#[test]
fn a_failed_switch_aborts_and_leaves_the_terminal_alone() {
    assert_eq!(step(GateState::Switching, GateEvent::SwitchFailed), (ABORTED, GateAction::Nothing));
    assert_eq!(step(GateState::Warning, GateEvent::SwitchFailed), (ABORTED, GateAction::Nothing));
}

#[test]
fn an_idle_prompt_ignores_everything_but_open() {
    for event in ALL_EVENTS {
        if event != GateEvent::Open {
            assert_eq!(step(GateState::Idle, event), (GateState::Idle, GateAction::Nothing));
        }
    }
}

#[test]
fn an_entering_prompt_ignores_what_it_did_not_ask_for() {
    for event in ALL_EVENTS {
        if event != GateEvent::WarningShown && event != GateEvent::SwitchFailed {
            assert_eq!(step(GateState::Warning, event), (GateState::Warning, GateAction::Nothing));
        }
        if event != GateEvent::RawModeEntered && event != GateEvent::SwitchFailed {
            assert_eq!(
                step(GateState::Switching, event),
                (GateState::Switching, GateAction::Nothing)
            );
        }
    }
}

#[test]
fn enter_while_awaiting_resolves_accept() {
    assert_eq!(
        step(GateState::AwaitingKey, GateEvent::Key(KeyInput::Enter)),
        (ACCEPTED, GateAction::RestoreTerminal)
    );
}

#[test]
fn q_while_awaiting_resolves_abort() {
    assert_eq!(
        step(GateState::AwaitingKey, GateEvent::Key(KeyInput::Char('q'))),
        (ABORTED, GateAction::RestoreTerminal)
    );
    assert_eq!(
        step(GateState::AwaitingKey, GateEvent::Key(KeyInput::Char('Q'))),
        (ABORTED, GateAction::RestoreTerminal)
    );
}

#[test]
fn any_other_key_keeps_the_prompt_waiting() {
    for key in [KeyInput::Other, KeyInput::Char('x'), KeyInput::Char('w'), KeyInput::Char('\r')] {
        assert_eq!(
            step(GateState::AwaitingKey, GateEvent::Key(key)),
            (GateState::AwaitingKey, GateAction::ReadKey)
        );
    }
    for event in [
        GateEvent::Open,
        GateEvent::WarningShown,
        GateEvent::RawModeEntered,
        GateEvent::SwitchFailed,
    ] {
        assert_eq!(
            step(GateState::AwaitingKey, event),
            (GateState::AwaitingKey, GateAction::ReadKey)
        );
    }
}

#[test]
fn a_failed_read_resolves_abort() {
    assert_eq!(
        step(GateState::AwaitingKey, GateEvent::ReadFailed),
        (ABORTED, GateAction::RestoreTerminal)
    );
}

#[test]
fn a_resolved_prompt_stays_resolved() {
    for state in [ACCEPTED, ABORTED] {
        for event in ALL_EVENTS {
            assert_eq!(step(state, event), (state, GateAction::Nothing));
        }
    }
}

#[test]
fn only_the_waiting_state_holds_the_terminal() {
    assert!(is_waiting(GateState::AwaitingKey));
    assert!(!is_waiting(GateState::Idle));
    assert!(!is_waiting(GateState::Warning));
    assert!(!is_waiting(GateState::Switching));
    assert!(!is_waiting(ACCEPTED));
    assert!(!is_waiting(ABORTED));
}

#[test]
fn script_waits_until_a_recognized_key_arrives() {
    let waiting = run_script(&entered(vec![
        GateEvent::Key(KeyInput::Char('x')),
        GateEvent::Key(KeyInput::Other),
        GateEvent::Key(KeyInput::Char('z')),
    ]));
    assert_eq!(waiting, report(GateState::AwaitingKey, 1, 1, 1, 0));
    let answered = run_script(&entered(vec![
        GateEvent::Key(KeyInput::Char('x')),
        GateEvent::Key(KeyInput::Other),
        GateEvent::Key(KeyInput::Enter),
    ]));
    assert_eq!(answered, report(ACCEPTED, 1, 1, 1, 1));
}

#[test]
fn script_restores_the_terminal_once_on_success() {
    assert_eq!(
        run_script(&entered(vec![GateEvent::Key(KeyInput::Enter)])),
        report(ACCEPTED, 1, 1, 1, 1)
    );
    assert_eq!(
        run_script(&entered(vec![
            GateEvent::Key(KeyInput::Char('Q')),
            GateEvent::Key(KeyInput::Enter),
            GateEvent::Open,
            GateEvent::WarningShown,
            GateEvent::RawModeEntered,
            GateEvent::ReadFailed,
        ])),
        report(ABORTED, 1, 1, 1, 1)
    );
}

#[test]
fn script_restores_the_terminal_once_on_a_failed_read() {
    assert_eq!(run_script(&entered(vec![GateEvent::ReadFailed])), report(ABORTED, 1, 1, 1, 1));
    assert_eq!(
        run_script(&entered(vec![
            GateEvent::Key(KeyInput::Char('a')),
            GateEvent::ReadFailed,
            GateEvent::ReadFailed,
            GateEvent::Key(KeyInput::Enter),
        ])),
        report(ABORTED, 1, 1, 1, 1)
    );
}

#[test]
fn script_never_restores_a_terminal_that_was_not_switched() {
    assert_eq!(
        run_script(&vec![GateEvent::Open, GateEvent::WarningShown, GateEvent::SwitchFailed]),
        report(ABORTED, 1, 1, 0, 0)
    );
    assert_eq!(
        run_script(&vec![GateEvent::Open, GateEvent::SwitchFailed]),
        report(ABORTED, 1, 0, 0, 0)
    );
    assert_eq!(
        run_script(&vec![
            GateEvent::Open,
            GateEvent::WarningShown,
            GateEvent::SwitchFailed,
            GateEvent::RawModeEntered,
            GateEvent::Key(KeyInput::Enter),
            GateEvent::ReadFailed,
        ]),
        report(ABORTED, 1, 1, 0, 0)
    );
}

#[test]
fn script_shows_the_warning_before_it_switches() {
    assert_eq!(run_script(&vec![GateEvent::Open]), report(GateState::Warning, 1, 0, 0, 0));
    assert_eq!(
        run_script(&vec![GateEvent::Open, GateEvent::RawModeEntered, GateEvent::Open]),
        report(GateState::Warning, 1, 0, 0, 0)
    );
    assert_eq!(
        run_script(&vec![GateEvent::Open, GateEvent::WarningShown, GateEvent::WarningShown]),
        report(GateState::Switching, 1, 1, 0, 0)
    );
}

#[test]
fn script_that_never_opens_never_touches_the_terminal() {
    assert_eq!(run_script(&vec![]), report(GateState::Idle, 0, 0, 0, 0));
    assert_eq!(
        run_script(&vec![
            GateEvent::Key(KeyInput::Enter),
            GateEvent::ReadFailed,
            GateEvent::WarningShown,
            GateEvent::RawModeEntered,
            GateEvent::SwitchFailed,
        ]),
        report(GateState::Idle, 0, 0, 0, 0)
    );
}

#[test]
fn warning_names_the_password_and_both_keys() {
    assert_eq!(
        warning_for("hunter2"),
        "hunter2 is a weak password. Press Enter to continue anyway. Press Q to abort and try again!"
    );
    assert_eq!(
        warning_for(""),
        " is a weak password. Press Enter to continue anyway. Press Q to abort and try again!"
    );
}

#[test]
fn a_strong_password_is_saved_whatever_was_answered() {
    let strong = StrengthScore { points: 83 };
    for state in [
        GateState::Idle,
        GateState::Warning,
        GateState::Switching,
        GateState::AwaitingKey,
        ACCEPTED,
        ABORTED,
    ] {
        assert!(permits_saving(strong, state));
        assert!(should_save_password("Aa1!Aa1!Aa1!Aa1!", state));
    }
}

#[test]
fn a_weak_password_is_saved_only_after_accept() {
    let weak = StrengthScore { points: 57 };
    assert!(permits_saving(weak, ACCEPTED));
    assert!(should_save_password("aaaaaaaaaaaaaaaa", ACCEPTED));
    assert!(should_save_password("", ACCEPTED));
    for state in [
        ABORTED,
        GateState::Idle,
        GateState::Warning,
        GateState::Switching,
        GateState::AwaitingKey,
    ] {
        assert!(!permits_saving(weak, state));
        assert!(!should_save_password("aaaaaaaaaaaaaaaa", state));
        assert!(!should_save_password("", state));
    }
}

#[test]
fn the_threshold_itself_is_not_weak() {
    let edge = StrengthScore { points: 80 };
    assert!(permits_saving(edge, ABORTED));
}

#[test]
fn a_weak_rating_enters_the_confirmation() {
    assert_eq!(begin(StrengthScore { points: 79 }), (GateState::Warning, GateAction::ShowWarning));
    assert_eq!(begin(StrengthScore { points: 0 }), (GateState::Warning, GateAction::ShowWarning));
}

#[test]
fn a_strong_rating_leaves_the_confirmation_idle() {
    assert_eq!(begin(StrengthScore { points: 80 }), (GateState::Idle, GateAction::Nothing));
    assert_eq!(begin(StrengthScore { points: 100 }), (GateState::Idle, GateAction::Nothing));
}

fn drive(rating: StrengthScore, switch_works: bool, mut keys: Vec<GateEvent>) -> (GateState, Vec<&'static str>) {
    let mut log = Vec::new();
    let (mut state, mut action) = begin(rating);
    loop {
        let event = match action {
            GateAction::ShowWarning => {
                log.push("warn");
                GateEvent::WarningShown
            }
            GateAction::EnterRawMode => {
                log.push("enable");
                if switch_works {
                    GateEvent::RawModeEntered
                } else {
                    GateEvent::SwitchFailed
                }
            }
            GateAction::ReadKey => {
                log.push("read");
                keys.remove(0)
            }
            GateAction::RestoreTerminal => {
                log.push("disable");
                return (state, log);
            }
            GateAction::Nothing => return (state, log),
        };
        (state, action) = step(state, event);
    }
}

#[test]
fn a_weak_password_goes_through_the_whole_confirmation() {
    let rating = StrengthScore { points: 57 };
    let keys = vec![
        GateEvent::Key(KeyInput::Other),
        GateEvent::Key(KeyInput::Char('x')),
        GateEvent::Key(KeyInput::Enter),
    ];
    let (state, log) = drive(rating, true, keys);
    assert_eq!(state, ACCEPTED);
    assert_eq!(log, vec!["warn", "enable", "read", "read", "read", "disable"]);
    assert!(permits_saving(rating, state));
}

#[test]
fn a_failed_read_ends_the_confirmation_with_the_terminal_restored() {
    let rating = StrengthScore { points: 57 };
    let (state, log) = drive(rating, true, vec![GateEvent::ReadFailed]);
    assert_eq!(state, ABORTED);
    assert_eq!(log, vec!["warn", "enable", "read", "disable"]);
    assert!(!permits_saving(rating, state));
}

#[test]
fn a_terminal_that_cannot_be_switched_reads_nothing_and_is_not_restored() {
    let rating = StrengthScore { points: 57 };
    let (state, log) = drive(rating, false, vec![]);
    assert_eq!(state, ABORTED);
    assert_eq!(log, vec!["warn", "enable"]);
    assert!(!permits_saving(rating, state));
}

#[test]
fn a_strong_password_asks_nothing_of_the_terminal() {
    let rating = StrengthScore { points: 90 };
    let (state, log) = drive(rating, true, vec![]);
    assert_eq!(state, GateState::Idle);
    assert!(log.is_empty());
    assert!(permits_saving(rating, state));
}
