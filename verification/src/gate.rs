//! The confirmation gate: the prompt that settles whether a weak password
//! is kept after all.
//!
//! The prompt is a state machine. Its caller shows the warning, switches the
//! terminal and reads the keys, one thing at a time; the prompt says what
//! the caller has to do next and what each answer means.

use vstd::prelude::*;
use vstd::string::StringExecFns;
use crate::strength::{analysis_of, score, StrengthScore};

verus! {

/// How the prompt was answered.
#[derive(Clone, Copy, Debug, PartialEq, Eq, Structural)]
pub enum ConfirmationDecision {
    /// Keep the weak password.
    Accept,
    /// Drop it.
    Abort,
}

/// Where the prompt stands. On the way from `Idle` to `AwaitingKey` it
/// passes through `Warning` and `Switching`.
#[derive(Clone, Copy, Debug, PartialEq, Eq, Structural)]
pub enum GateState {
    /// Not entered yet.
    Idle,
    /// Entered; the warning is being shown. The terminal is untouched.
    Warning,
    /// The warning has been shown; the terminal is being switched to
    /// deliver single keys.
    Switching,
    /// The terminal delivers single keys and the prompt waits for one.
    AwaitingKey,
    /// Answered, for good.
    Resolved(ConfirmationDecision),
}

/// One keystroke, as far as the prompt tells keys apart.
#[derive(Clone, Copy, Debug, PartialEq, Eq, Structural)]
pub enum KeyInput {
    /// Enter or Return.
    Enter,
    /// A key that stands for a character.
    Char(char),
    /// Any other key, or an event that is no key at all.
    Other,
}

/// What happened outside the prompt.
#[derive(Clone, Copy, Debug, PartialEq, Eq, Structural)]
pub enum GateEvent {
    /// A weak password is waiting for a decision.
    Open,
    /// The warning has been shown.
    WarningShown,
    /// The terminal now delivers single keys.
    RawModeEntered,
    /// The terminal could not be made ready: the warning could not be
    /// written, or single keys could not be switched on. The terminal is as
    /// it was.
    SwitchFailed,
    /// A key arrived.
    Key(KeyInput),
    /// Reading a key failed.
    ReadFailed,
}

/// What the caller of the prompt has to do next.
#[derive(Clone, Copy, Debug, PartialEq, Eq, Structural)]
pub enum GateAction {
    /// Show the warning, then report `WarningShown` or `SwitchFailed`.
    ShowWarning,
    /// Switch the terminal to deliver single keys, then report
    /// `RawModeEntered` or `SwitchFailed`.
    EnterRawMode,
    /// Read a key, then report it or `ReadFailed`.
    ReadKey,
    /// Switch the terminal back; the prompt is answered.
    RestoreTerminal,
    /// Nothing: the prompt is idle or answered, or the event meant nothing
    /// where the prompt stands.
    Nothing,
}

/// The decision that `key` stands for, if any: Enter accepts, `q` and `Q`
/// abort.
pub open spec fn decision_of(key: KeyInput) -> Option<ConfirmationDecision> {
    match key {
        KeyInput::Enter => Some(ConfirmationDecision::Accept),
        KeyInput::Char(c) => if c == 'q' || c == 'Q' {
            Some(ConfirmationDecision::Abort)
        } else {
            None
        },
        KeyInput::Other => None,
    }
}

/// The state after `event` arrives in `state`. Each state answers to the
/// events that its caller was asked for and ignores the others; a failure
/// aborts.
pub open spec fn next_state(state: GateState, event: GateEvent) -> GateState {
    match state {
        GateState::Idle => match event {
            GateEvent::Open => GateState::Warning,
            _ => GateState::Idle,
        },
        GateState::Warning => match event {
            GateEvent::WarningShown => GateState::Switching,
            GateEvent::SwitchFailed => GateState::Resolved(ConfirmationDecision::Abort),
            _ => GateState::Warning,
        },
        GateState::Switching => match event {
            GateEvent::RawModeEntered => GateState::AwaitingKey,
            GateEvent::SwitchFailed => GateState::Resolved(ConfirmationDecision::Abort),
            _ => GateState::Switching,
        },
        GateState::AwaitingKey => match event {
            GateEvent::Key(key) => match decision_of(key) {
                Some(decision) => GateState::Resolved(decision),
                None => GateState::AwaitingKey,
            },
            GateEvent::ReadFailed => GateState::Resolved(ConfirmationDecision::Abort),
            _ => GateState::AwaitingKey,
        },
        GateState::Resolved(decision) => GateState::Resolved(decision),
    }
}

/// Whether the terminal delivers single keys while the prompt is in `state`.
pub open spec fn holds_raw_mode(state: GateState) -> bool {
    state == GateState::AwaitingKey
}

/// What the caller has to do when the prompt moves from `before` to
/// `after`: read a key whenever the prompt waits for one; show the warning
/// on entering; switch the terminal once the warning has been shown; switch
/// it back on leaving the state in which it delivers single keys, and only
/// then.
pub open spec fn action_between(before: GateState, after: GateState) -> GateAction {
    if after == GateState::AwaitingKey {
        GateAction::ReadKey
    } else if before == GateState::Idle && after == GateState::Warning {
        GateAction::ShowWarning
    } else if before == GateState::Warning && after == GateState::Switching {
        GateAction::EnterRawMode
    } else if before == GateState::AwaitingKey && after is Resolved {
        GateAction::RestoreTerminal
    } else {
        GateAction::Nothing
    }
}

/// The decision that `key` stands for, if any.
pub fn interpret_key(key: KeyInput) -> (decision: Option<ConfirmationDecision>)
    ensures
        decision == decision_of(key),
{
    match key {
        KeyInput::Enter => Some(ConfirmationDecision::Accept),
        KeyInput::Char(c) => if c == 'q' || c == 'Q' {
            Some(ConfirmationDecision::Abort)
        } else {
            None
        },
        KeyInput::Other => None,
    }
}

/// Moves the prompt from `state` on `event`: the new state, and what the
/// caller has to do next.
pub fn step(state: GateState, event: GateEvent) -> (moved: (GateState, GateAction))
    ensures
        moved.0 == next_state(state, event),
        moved.1 == action_between(state, moved.0),
{
    match state {
        GateState::Idle => match event {
            GateEvent::Open => (GateState::Warning, GateAction::ShowWarning),
            _ => (GateState::Idle, GateAction::Nothing),
        },
        GateState::Warning => match event {
            GateEvent::WarningShown => (GateState::Switching, GateAction::EnterRawMode),
            GateEvent::SwitchFailed => (
                GateState::Resolved(ConfirmationDecision::Abort),
                GateAction::Nothing,
            ),
            _ => (GateState::Warning, GateAction::Nothing),
        },
        GateState::Switching => match event {
            GateEvent::RawModeEntered => (GateState::AwaitingKey, GateAction::ReadKey),
            GateEvent::SwitchFailed => (
                GateState::Resolved(ConfirmationDecision::Abort),
                GateAction::Nothing,
            ),
            _ => (GateState::Switching, GateAction::Nothing),
        },
        GateState::AwaitingKey => match event {
            GateEvent::Key(key) => match interpret_key(key) {
                Some(decision) => (GateState::Resolved(decision), GateAction::RestoreTerminal),
                None => (GateState::AwaitingKey, GateAction::ReadKey),
            },
            GateEvent::ReadFailed => (
                GateState::Resolved(ConfirmationDecision::Abort),
                GateAction::RestoreTerminal,
            ),
            _ => (GateState::AwaitingKey, GateAction::ReadKey),
        },
        GateState::Resolved(decision) => (GateState::Resolved(decision), GateAction::Nothing),
    }
}

/// Where the confirmation starts for a password with `rating`: a weak
/// password enters it, any other leaves it idle, so that nothing is asked
/// of the user or of the terminal.
pub open spec fn opening(rating: StrengthScore) -> GateState {
    if rating.weak() {
        GateState::Warning
    } else {
        GateState::Idle
    }
}

/// Starts the confirmation for a password with `rating`: the state to go
/// on from, and what the caller has to do next.
pub fn begin(rating: StrengthScore) -> (moved: (GateState, GateAction))
    ensures
        moved.0 == opening(rating),
        moved.1 == action_between(GateState::Idle, moved.0),
{
    if rating.is_weak() {
        step(GateState::Idle, GateEvent::Open)
    } else {
        (GateState::Idle, GateAction::Nothing)
    }
}

/// The state that the prompt reaches from `start` after `events`, in order.
pub open spec fn run(start: GateState, events: Seq<GateEvent>) -> GateState
    decreases events.len(),
{
    if events.len() == 0 {
        start
    } else {
        next_state(run(start, events.drop_last()), events.last())
    }
}

/// How often the prompt, moving from `start` through `events`, asks its
/// caller for `action`.
pub open spec fn times_asked(start: GateState, events: Seq<GateEvent>, action: GateAction) -> nat
    decreases events.len(),
{
    if events.len() == 0 {
        0
    } else {
        let earlier = times_asked(start, events.drop_last(), action);
        if action_between(run(start, events.drop_last()), run(start, events)) == action {
            earlier + 1
        } else {
            earlier
        }
    }
}

/// How often the terminal comes to deliver single keys while the prompt
/// moves from `start` through `events`.
pub open spec fn times_acquired(start: GateState, events: Seq<GateEvent>) -> nat
    decreases events.len(),
{
    if events.len() == 0 {
        0
    } else {
        let earlier = times_acquired(start, events.drop_last());
        if !holds_raw_mode(run(start, events.drop_last())) && holds_raw_mode(run(start, events)) {
            earlier + 1
        } else {
            earlier
        }
    }
}

/// What became of a prompt that was fed a list of events.
#[derive(Clone, Copy, Debug, PartialEq, Eq, Structural)]
pub struct GateReport {
    /// The state that the prompt reached.
    pub state: GateState,
    /// How often the caller was asked to show the warning.
    pub warnings_shown: usize,
    /// How often the caller was asked to switch the terminal to single keys.
    pub raw_mode_asked: usize,
    /// How often the terminal came to deliver single keys.
    pub raw_mode_entered: usize,
    /// How often the caller was asked to switch the terminal back.
    pub terminal_restored: usize,
}

/// However the prompt is driven from `Idle`:
///
/// - the warning is asked for exactly once, on entering;
/// - the switch to single keys is asked for at most once, and only after
///   the warning;
/// - the terminal comes to deliver single keys at most once, and only
///   where the switch was asked for;
/// - a key is asked for only once the terminal delivers single keys;
/// - the terminal is switched back as often as it came to deliver single
///   keys by the time the prompt is answered, and not before: once where a
///   key or a failed read answered it, never where the switch failed.
pub proof fn lemma_terminal_switched_once(events: Seq<GateEvent>)
    ensures
        times_asked(GateState::Idle, events, GateAction::ShowWarning) == (if run(
            GateState::Idle,
            events,
        ) == GateState::Idle {
            0nat
        } else {
            1nat
        }),
        times_asked(GateState::Idle, events, GateAction::EnterRawMode) <= times_asked(
            GateState::Idle,
            events,
            GateAction::ShowWarning,
        ),
        times_acquired(GateState::Idle, events) <= times_asked(
            GateState::Idle,
            events,
            GateAction::EnterRawMode,
        ),
        times_asked(GateState::Idle, events, GateAction::ReadKey) > 0 ==> times_acquired(
            GateState::Idle,
            events,
        ) == 1,
        times_asked(GateState::Idle, events, GateAction::RestoreTerminal) == (if run(
            GateState::Idle,
            events,
        ) is Resolved {
            times_acquired(GateState::Idle, events)
        } else {
            0nat
        }),
        match run(GateState::Idle, events) {
            GateState::Idle | GateState::Warning => times_asked(
                GateState::Idle,
                events,
                GateAction::EnterRawMode,
            ) == 0,
            GateState::Switching => times_asked(GateState::Idle, events, GateAction::EnterRawMode)
                == 1 && times_acquired(GateState::Idle, events) == 0,
            GateState::AwaitingKey => times_acquired(GateState::Idle, events) == 1,
            GateState::Resolved(_) => true,
        },
    decreases events.len(),
{
    if events.len() > 0 {
        lemma_terminal_switched_once(events.drop_last());
    }
}

/// Feeds `events` to a prompt that starts `Idle` and reports where it ends
/// and how often it asked for the warning and for the terminal to be
/// switched either way.
pub fn run_script(events: &Vec<GateEvent>) -> (report: GateReport)
    ensures
        report.state == run(GateState::Idle, events@),
        report.warnings_shown == times_asked(GateState::Idle, events@, GateAction::ShowWarning),
        report.raw_mode_asked == times_asked(GateState::Idle, events@, GateAction::EnterRawMode),
        report.raw_mode_entered == times_acquired(GateState::Idle, events@),
        report.terminal_restored == times_asked(
            GateState::Idle,
            events@,
            GateAction::RestoreTerminal,
        ),
        report.raw_mode_entered <= report.raw_mode_asked <= report.warnings_shown <= 1,
        report.terminal_restored == (if report.state is Resolved {
            report.raw_mode_entered
        } else {
            0usize
        }),
{
    let mut state = GateState::Idle;
    let mut warnings_shown: usize = 0;
    let mut raw_mode_asked: usize = 0;
    let mut raw_mode_entered: usize = 0;
    let mut terminal_restored: usize = 0;
    let mut i: usize = 0;
    while i < events.len()
        invariant
            i <= events.len(),
            state == run(GateState::Idle, events@.take(i as int)),
            warnings_shown == times_asked(
                GateState::Idle,
                events@.take(i as int),
                GateAction::ShowWarning,
            ),
            raw_mode_asked == times_asked(
                GateState::Idle,
                events@.take(i as int),
                GateAction::EnterRawMode,
            ),
            raw_mode_entered == times_acquired(GateState::Idle, events@.take(i as int)),
            terminal_restored == times_asked(
                GateState::Idle,
                events@.take(i as int),
                GateAction::RestoreTerminal,
            ),
        decreases events.len() - i,
    {
        proof {
            let longer = events@.take(i as int + 1);
            assert(longer.drop_last() =~= events@.take(i as int));
            assert(longer.last() == events@[i as int]);
            lemma_terminal_switched_once(events@.take(i as int));
            lemma_terminal_switched_once(longer);
        }
        let (next, action) = step(state, events[i]);
        match action {
            GateAction::ShowWarning => {
                warnings_shown += 1;
            },
            GateAction::EnterRawMode => {
                raw_mode_asked += 1;
            },
            GateAction::RestoreTerminal => {
                terminal_restored += 1;
            },
            _ => {},
        }
        if is_waiting(next) && !is_waiting(state) {
            raw_mode_entered += 1;
        }
        state = next;
        i += 1;
    }
    proof {
        assert(events@.take(events@.len() as int) =~= events@);
        lemma_terminal_switched_once(events@);
    }
    GateReport { state, warnings_shown, raw_mode_asked, raw_mode_entered, terminal_restored }
}

/// Whether the terminal delivers single keys while the prompt is in `state`.
pub fn is_waiting(state: GateState) -> (waiting: bool)
    ensures
        waiting == holds_raw_mode(state),
{
    match state {
        GateState::AwaitingKey => true,
        _ => false,
    }
}

/// Whether `event` leaves a waiting prompt waiting: anything but a failed
/// read and a key that stands for a decision.
pub open spec fn keeps_waiting(event: GateEvent) -> bool {
    match event {
        GateEvent::Key(key) => decision_of(key) is None,
        GateEvent::ReadFailed => false,
        _ => true,
    }
}

/// The events that bring the prompt from `Idle` to where it waits for a
/// key: the request to open, the warning shown, the terminal switched.
pub open spec fn entering() -> Seq<GateEvent> {
    seq![GateEvent::Open, GateEvent::WarningShown, GateEvent::RawModeEntered]
}

/// Entering brings an idle prompt to where it waits for a key.
pub proof fn lemma_entering_waits()
    ensures
        run(GateState::Idle, entering()) == GateState::AwaitingKey,
{
    let all = entering();
    let two = all.drop_last();
    let one = two.drop_last();
    assert(run(GateState::Idle, one.drop_last()) == GateState::Idle);
    assert(run(GateState::Idle, one) == GateState::Warning);
    assert(run(GateState::Idle, two) == GateState::Switching);
}

/// A switch that fails answers the prompt with `Abort` before the terminal
/// ever delivers single keys, so that it is never switched back; this holds
/// whether the warning or the switch itself failed, and whatever arrives
/// afterwards.
pub proof fn lemma_failed_switch_aborts(shown: bool, later: Seq<GateEvent>)
    ensures
        ({
            let opened = if shown {
                seq![GateEvent::Open, GateEvent::WarningShown, GateEvent::SwitchFailed]
            } else {
                seq![GateEvent::Open, GateEvent::SwitchFailed]
            };
            &&& run(GateState::Idle, opened + later) == GateState::Resolved(
                ConfirmationDecision::Abort,
            )
            &&& times_acquired(GateState::Idle, opened + later) == 0
            &&& times_asked(GateState::Idle, opened + later, GateAction::RestoreTerminal) == 0
            &&& times_asked(GateState::Idle, opened + later, GateAction::ReadKey) == 0
        }),
{
    let opened = if shown {
        seq![GateEvent::Open, GateEvent::WarningShown, GateEvent::SwitchFailed]
    } else {
        seq![GateEvent::Open, GateEvent::SwitchFailed]
    };
    if shown {
        let two = opened.drop_last();
        let one = two.drop_last();
        assert(run(GateState::Idle, one.drop_last()) == GateState::Idle);
        assert(run(GateState::Idle, one) == GateState::Warning);
        assert(run(GateState::Idle, two) == GateState::Switching);
        assert(times_acquired(GateState::Idle, one.drop_last()) == 0);
        assert(times_acquired(GateState::Idle, one) == 0);
        assert(times_acquired(GateState::Idle, two) == 0);
    } else {
        let one = opened.drop_last();
        assert(run(GateState::Idle, one.drop_last()) == GateState::Idle);
        assert(run(GateState::Idle, one) == GateState::Warning);
        assert(times_acquired(GateState::Idle, one.drop_last()) == 0);
        assert(times_acquired(GateState::Idle, one) == 0);
    }
    assert(run(GateState::Idle, opened) == GateState::Resolved(ConfirmationDecision::Abort));
    assert(times_acquired(GateState::Idle, opened) == 0);
    lemma_acquired_after_resolved(opened, later);
    lemma_terminal_switched_once(opened + later);
}

/// Once the prompt is answered, the terminal never comes to deliver single
/// keys again.
pub proof fn lemma_acquired_after_resolved(first: Seq<GateEvent>, later: Seq<GateEvent>)
    requires
        run(GateState::Idle, first) is Resolved,
    ensures
        run(GateState::Idle, first + later) == run(GateState::Idle, first),
        times_acquired(GateState::Idle, first + later) == times_acquired(GateState::Idle, first),
    decreases later.len(),
{
    if later.len() == 0 {
        assert(first + later =~= first);
    } else {
        assert((first + later).drop_last() =~= first + later.drop_last());
        lemma_acquired_after_resolved(first, later.drop_last());
    }
}

/// Running through two lists of events one after the other is running
/// through their concatenation.
pub proof fn lemma_run_concat(start: GateState, first: Seq<GateEvent>, second: Seq<GateEvent>)
    ensures
        run(start, first + second) == run(run(start, first), second),
    decreases second.len(),
{
    if second.len() == 0 {
        assert(first + second =~= first);
    } else {
        assert((first + second).drop_last() =~= first + second.drop_last());
        assert((first + second).last() == second.last());
        lemma_run_concat(start, first, second.drop_last());
    }
}

/// An answered prompt stays answered, with the same decision, whatever
/// arrives.
pub proof fn lemma_resolved_is_final(decision: ConfirmationDecision, events: Seq<GateEvent>)
    ensures
        run(GateState::Resolved(decision), events) == GateState::Resolved(decision),
    decreases events.len(),
{
    if events.len() > 0 {
        lemma_resolved_is_final(decision, events.drop_last());
    }
}

/// A waiting prompt goes on waiting through any number of keys that stand
/// for no decision.
pub proof fn lemma_ignored_keys_keep_waiting(events: Seq<GateEvent>)
    requires
        forall|i: int| 0 <= i < events.len() ==> keeps_waiting(#[trigger] events[i]),
    ensures
        run(GateState::AwaitingKey, events) == GateState::AwaitingKey,
    decreases events.len(),
{
    if events.len() > 0 {
        lemma_ignored_keys_keep_waiting(events.drop_last());
    }
}

/// A waiting prompt is answered by the first key that stands for a decision:
/// the keys before it are ignored, and nothing after it changes the answer.
pub proof fn lemma_first_decisive_key_answers(
    ignored: Seq<GateEvent>,
    key: KeyInput,
    decision: ConfirmationDecision,
    later: Seq<GateEvent>,
)
    requires
        forall|i: int| 0 <= i < ignored.len() ==> keeps_waiting(#[trigger] ignored[i]),
        decision_of(key) == Some(decision),
    ensures
        run(GateState::AwaitingKey, ignored + seq![GateEvent::Key(key)] + later)
            == GateState::Resolved(decision),
{
    let decisive = seq![GateEvent::Key(key)];
    lemma_run_concat(GateState::AwaitingKey, ignored + decisive, later);
    lemma_run_concat(GateState::AwaitingKey, ignored, decisive);
    lemma_ignored_keys_keep_waiting(ignored);
    assert(run(GateState::AwaitingKey, decisive.drop_last()) == GateState::AwaitingKey);
    assert(run(GateState::AwaitingKey, decisive) == GateState::Resolved(decision));
    lemma_resolved_is_final(decision, later);
}

/// A failed read answers a waiting prompt with `Abort`, whatever keys were
/// ignored before it and whatever arrives after it.
pub proof fn lemma_failed_read_aborts(ignored: Seq<GateEvent>, later: Seq<GateEvent>)
    requires
        forall|i: int| 0 <= i < ignored.len() ==> keeps_waiting(#[trigger] ignored[i]),
    ensures
        run(GateState::AwaitingKey, ignored + seq![GateEvent::ReadFailed] + later)
            == GateState::Resolved(ConfirmationDecision::Abort),
{
    let failure = seq![GateEvent::ReadFailed];
    lemma_run_concat(GateState::AwaitingKey, ignored + failure, later);
    lemma_run_concat(GateState::AwaitingKey, ignored, failure);
    lemma_ignored_keys_keep_waiting(ignored);
    assert(run(GateState::AwaitingKey, failure.drop_last()) == GateState::AwaitingKey);
    assert(run(GateState::AwaitingKey, failure) == GateState::Resolved(
        ConfirmationDecision::Abort,
    ));
    lemma_resolved_is_final(ConfirmationDecision::Abort, later);
}

/// The warning that is shown for a weak password.
pub open spec fn warning_text(password: Seq<char>) -> Seq<char> {
    password
        + " is a weak password. Press Enter to continue anyway. Press Q to abort and try again!"@
}

/// The warning that is shown for a weak password: the password, then what
/// is wrong with it and which two keys answer the prompt.
pub fn warning_for(password: &str) -> (message: String)
    ensures
        message@ == warning_text(password@),
{
    let mut message = String::from_str(password);
    message.append(
        " is a weak password. Press Enter to continue anyway. Press Q to abort and try again!",
    );
    message
}

/// Whether a password with `rating` may be saved when the prompt stands at
/// `gate`: a password that is not weak may, a weak one only once the prompt
/// has been answered with `Accept`.
pub open spec fn may_save(rating: StrengthScore, gate: GateState) -> bool {
    !rating.weak() || gate == GateState::Resolved(ConfirmationDecision::Accept)
}

/// Whether a password with `rating` may be saved when the prompt stands at
/// `gate`.
pub fn permits_saving(rating: StrengthScore, gate: GateState) -> (save: bool)
    ensures
        save == may_save(rating, gate),
{
    if rating.is_weak() {
        match gate {
            GateState::Resolved(ConfirmationDecision::Accept) => true,
            _ => false,
        }
    } else {
        true
    }
}

/// Whether `password` may be saved when the prompt stands at `gate`. The
/// prompt matters for a weak password only.
pub fn should_save_password(password: &str, gate: GateState) -> (save: bool)
    ensures
        save == may_save(
            StrengthScore { points: analysis_of(password@).rating() as u32 },
            gate,
        ),
{
    permits_saving(score(password), gate)
}

} // verus!
