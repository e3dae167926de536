//! Arbitration of one optimization run: the supervisor races the driver's
//! completion against the caller's control stream, and these are the
//! decisions it takes on each event, stated as a pure transition relation.

use vstd::prelude::*;

verus! {

/// A command sent by the caller over the control channel.
pub enum ControlCommand {
    /// Request a graceful early stop of the run.
    Terminate,
    /// Stands for every other command the channel can carry; the run treats
    /// any of them as an abnormal caller disconnect.
    Unsupported,
}

/// One event the arbitration loop can wake up on.
pub enum RunEvent {
    /// The next control command arrived.
    Command(ControlCommand),
    /// The control channel closed: no further commands will ever arrive.
    ChannelClosed,
    /// The optimization driver finished, with a final report or an error.
    DriverFinished,
}

/// What the arbitration loop must do in reaction to one event.
pub enum RunAction {
    /// Consume the single-use abort writer, signal it, and keep looping.
    SignalAbort,
    /// A second `Terminate`: stop with the typed `AlreadyTerminated` error.
    FailAlreadyTerminated,
    /// Stop with the `ClientHungUp` error, abandoning the driver.
    FailDisconnected,
    /// Return the driver's own result, whatever it was.
    ReturnDriverResult,
}

/// The supervisor's whole mutable state: whether the single-use abort
/// signal writer is still held (it is consumed by the first `Terminate`).
pub struct RunSupervisor {
    pub abort_pending: bool,
}

/// The supervisor state after reacting to `e` in state `s`.
pub open spec fn next_state(s: RunSupervisor, e: RunEvent) -> RunSupervisor {
    match e {
        RunEvent::Command(ControlCommand::Terminate) => RunSupervisor { abort_pending: false },
        _ => s,
    }
}

/// The action the supervisor takes on event `e` in state `s`.
pub open spec fn action_of(s: RunSupervisor, e: RunEvent) -> RunAction {
    match e {
        RunEvent::Command(ControlCommand::Terminate) => {
            if s.abort_pending {
                RunAction::SignalAbort
            } else {
                RunAction::FailAlreadyTerminated
            }
        },
        RunEvent::Command(ControlCommand::Unsupported) => RunAction::FailDisconnected,
        RunEvent::ChannelClosed => RunAction::FailDisconnected,
        RunEvent::DriverFinished => RunAction::ReturnDriverResult,
    }
}

/// An action on which the arbitration loop returns to the caller; only a
/// first `Terminate` lets the loop keep waiting.
pub open spec fn is_terminal(a: RunAction) -> bool {
    !(a is SignalAbort)
}

impl RunSupervisor {
    /// A fresh supervisor: the abort writer is still held.
    pub fn new() -> (s: Self)
        ensures
            s.abort_pending,
    {
        RunSupervisor { abort_pending: true }
    }

    /// React to one event: the exec side of the transition relation.
    pub fn step(&mut self, e: RunEvent) -> (a: RunAction)
        ensures
            *final(self) == next_state(*old(self), e),
            a == action_of(*old(self), e),
    {
        match e {
            RunEvent::Command(ControlCommand::Terminate) => {
                let was_pending = self.abort_pending;
                self.abort_pending = false;
                if was_pending {
                    RunAction::SignalAbort
                } else {
                    RunAction::FailAlreadyTerminated
                }
            },
            RunEvent::Command(ControlCommand::Unsupported) => RunAction::FailDisconnected,
            RunEvent::ChannelClosed => RunAction::FailDisconnected,
            RunEvent::DriverFinished => RunAction::ReturnDriverResult,
        }
    }
}

/// Law: the abort signal is raised at most once per run. An event makes the
/// supervisor signal only from a state that still holds the writer, and the
/// writer is gone in the state that follows.
pub proof fn lemma_abort_signaled_at_most_once(s: RunSupervisor, e: RunEvent)
    ensures
        action_of(s, e) is SignalAbort ==> s.abort_pending,
        action_of(s, e) is SignalAbort ==> !next_state(s, e).abort_pending,
{
}

/// Law: a first `Terminate` signals the abort exactly once and is not itself
/// an error; a second `Terminate` afterwards is the typed
/// `AlreadyTerminated` failure, never a silent reuse of the writer.
pub proof fn lemma_terminate_then_terminate(s: RunSupervisor)
    requires
        s.abort_pending,
    ensures
        action_of(s, RunEvent::Command(ControlCommand::Terminate)) is SignalAbort,
        action_of(
            next_state(s, RunEvent::Command(ControlCommand::Terminate)),
            RunEvent::Command(ControlCommand::Terminate),
        ) is FailAlreadyTerminated,
{
}

/// Law: a disconnect — the channel closing, or any command other than
/// `Terminate` — ends the run with the disconnect action, whatever state the
/// supervisor is in.
pub proof fn lemma_disconnect_always_fatal(s: RunSupervisor, e: RunEvent)
    requires
        e is ChannelClosed || e == RunEvent::Command(ControlCommand::Unsupported),
    ensures
        action_of(s, e) is FailDisconnected,
{
}

/// Law: the loop never stalls on a decisive event. Driver completion always
/// returns the driver's result, channel closure always returns, and the only
/// event the loop keeps waiting after is a first `Terminate`.
pub proof fn lemma_decisive_events_terminate(s: RunSupervisor, e: RunEvent)
    ensures
        e is DriverFinished ==> action_of(s, e) is ReturnDriverResult,
        e is ChannelClosed ==> is_terminal(action_of(s, e)),
        !is_terminal(action_of(s, e)) ==> e == RunEvent::Command(ControlCommand::Terminate)
            && s.abort_pending,
{
}

/// How many times a loop that starts in state `s` and observes `events` in
/// order signals the abort before it returns; events after the first
/// terminal action are never acted on.
pub open spec fn abort_signals(s: RunSupervisor, events: Seq<RunEvent>) -> nat
    decreases events.len(),
{
    if events.len() == 0 {
        0
    } else {
        let a = action_of(s, events[0]);
        (if a is SignalAbort {
            1nat
        } else {
            0nat
        }) + (if is_terminal(a) {
            0nat
        } else {
            abort_signals(next_state(s, events[0]), events.skip(1))
        })
    }
}

/// Whether a loop that starts in state `s` has returned to the caller by
/// the time it has observed `events`.
pub open spec fn run_returns(s: RunSupervisor, events: Seq<RunEvent>) -> bool
    decreases events.len(),
{
    if events.len() == 0 {
        false
    } else if is_terminal(action_of(s, events[0])) {
        true
    } else {
        run_returns(next_state(s, events[0]), events.skip(1))
    }
}

/// Law: once the abort writer is consumed, no later event can signal the
/// abort again, however the run goes on.
pub proof fn lemma_no_signal_after_consumed(s: RunSupervisor, events: Seq<RunEvent>)
    requires
        !s.abort_pending,
    ensures
        abort_signals(s, events) == 0,
{
    if events.len() > 0 {
        assert(!(action_of(s, events[0]) is SignalAbort));
        assert(is_terminal(action_of(s, events[0])));
    }
}

/// Law: over one whole run — any sequence of observed events from any
/// starting state — the single-use abort signal is raised at most once.
pub proof fn lemma_run_signals_at_most_once(s: RunSupervisor, events: Seq<RunEvent>)
    ensures
        abort_signals(s, events) <= 1,
{
    if events.len() > 0 {
        let a = action_of(s, events[0]);
        if a is SignalAbort {
            lemma_no_signal_after_consumed(next_state(s, events[0]), events.skip(1));
        }
    }
}

/// The first terminal action a loop starting in `s` takes over `events`,
/// if it returns within them.
pub open spec fn run_outcome(s: RunSupervisor, events: Seq<RunEvent>) -> Option<RunAction>
    decreases events.len(),
{
    if events.len() == 0 {
        None
    } else {
        let a = action_of(s, events[0]);
        if is_terminal(a) {
            Some(a)
        } else {
            run_outcome(next_state(s, events[0]), events.skip(1))
        }
    }
}

/// Law: a run that returns has exactly one outcome, and it is one of the
/// three terminal actions — the driver's own result carried through, the
/// disconnect error, or the repeated-terminate error.
pub proof fn lemma_run_outcome_terminal(s: RunSupervisor, events: Seq<RunEvent>)
    ensures
        run_outcome(s, events) is Some <==> run_returns(s, events),
        run_outcome(s, events) matches Some(a) ==> (a is ReturnDriverResult
            || a is FailDisconnected || a is FailAlreadyTerminated),
    decreases events.len(),
{
    if events.len() > 0 && !is_terminal(action_of(s, events[0])) {
        lemma_run_outcome_terminal(next_state(s, events[0]), events.skip(1));
    }
}

/// Law: the run cannot hang. If the events a loop observes ever include the
/// channel closing or the driver finishing, the loop has returned to the
/// caller by the end of them — with the driver's own result or with one
/// terminal error, never neither.
pub proof fn lemma_run_returns(s: RunSupervisor, events: Seq<RunEvent>)
    requires
        exists|i: int|
            0 <= i < events.len() && (events[i] is ChannelClosed || events[i] is DriverFinished),
    ensures
        run_returns(s, events),
    decreases events.len(),
{
    let i = choose|i: int|
        0 <= i < events.len() && (events[i] is ChannelClosed || events[i] is DriverFinished);
    if !is_terminal(action_of(s, events[0])) {
        assert(i >= 1);
        assert(events.skip(1)[i - 1] == events[i]);
        lemma_run_returns(next_state(s, events[0]), events.skip(1));
    }
}

} // verus!
