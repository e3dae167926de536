use optcore::supervisor::{ControlCommand, RunAction, RunEvent, RunSupervisor};

#[test]
fn first_terminate_signals_abort() {
    let mut sup = RunSupervisor::new();
    assert!(sup.abort_pending);
    let a = sup.step(RunEvent::Command(ControlCommand::Terminate));
    assert!(matches!(a, RunAction::SignalAbort));
    assert!(!sup.abort_pending);
}

#[test]
fn second_terminate_is_typed_failure() {
    let mut sup = RunSupervisor::new();
    let first = sup.step(RunEvent::Command(ControlCommand::Terminate));
    assert!(matches!(first, RunAction::SignalAbort));
    let second = sup.step(RunEvent::Command(ControlCommand::Terminate));
    assert!(matches!(second, RunAction::FailAlreadyTerminated));
    assert!(!sup.abort_pending);
}

#[test]
fn channel_closure_is_disconnect() {
    let mut sup = RunSupervisor::new();
    let a = sup.step(RunEvent::ChannelClosed);
    assert!(matches!(a, RunAction::FailDisconnected));
}

#[test]
fn channel_closure_after_terminate_is_still_disconnect() {
    let mut sup = RunSupervisor::new();
    sup.step(RunEvent::Command(ControlCommand::Terminate));
    let a = sup.step(RunEvent::ChannelClosed);
    assert!(matches!(a, RunAction::FailDisconnected));
}

#[test]
fn unsupported_command_is_disconnect() {
    let mut sup = RunSupervisor::new();
    let a = sup.step(RunEvent::Command(ControlCommand::Unsupported));
    assert!(matches!(a, RunAction::FailDisconnected));
}

#[test]
fn driver_completion_returns_driver_result() {
    let mut sup = RunSupervisor::new();
    let a = sup.step(RunEvent::DriverFinished);
    assert!(matches!(a, RunAction::ReturnDriverResult));
}

#[test]
fn driver_completion_after_terminate_returns_driver_result() {
    let mut sup = RunSupervisor::new();
    let a = sup.step(RunEvent::Command(ControlCommand::Terminate));
    assert!(matches!(a, RunAction::SignalAbort));
    let b = sup.step(RunEvent::DriverFinished);
    assert!(matches!(b, RunAction::ReturnDriverResult));
}
