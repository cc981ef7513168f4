use server_boot::dispatch::{dispatch, AdminCommand, DispatchPath};
use server_boot::ids::RoomId;
use server_boot::startup::{exit_code, next_action, runtime_worker_count, step, Phase, StartupAction, StepOutcome};
use server_boot::version::version;

#[test]
fn startup_advances_in_strict_order() {
    let p0 = Phase::Boot;
    assert_eq!(next_action(p0), StartupAction::LoadConfig);
    let p1 = step(p0, StepOutcome::ConfigLoaded);
    assert_eq!(p1, Phase::HasConfig);
    assert_eq!(next_action(p1), StartupAction::InitDiagnostics);
    let p2 = step(p1, StepOutcome::DiagnosticsActive);
    assert_eq!(p2, Phase::HasDiagnostics);
    assert_eq!(next_action(p2), StartupAction::BuildRuntime);
    let p3 = step(p2, StepOutcome::RuntimeBuilt);
    assert_eq!(p3, Phase::HasRuntime);
    assert_eq!(next_action(p3), StartupAction::LoadStorage);
    let p4 = step(p3, StepOutcome::StorageLoaded);
    assert_eq!(p4, Phase::HasStorage);
    assert_eq!(next_action(p4), StartupAction::Dispatch);
    let p5 = step(p4, StepOutcome::CommandSucceeded);
    assert_eq!(p5, Phase::Done);
    assert_eq!(next_action(p5), StartupAction::Exit);
    assert_eq!(exit_code(p5), 0);
}

#[test]
fn storage_failure_prevents_dispatch() {
    let p = step(Phase::HasRuntime, StepOutcome::StorageFailed);
    assert_eq!(p, Phase::Failed);
    assert_eq!(next_action(p), StartupAction::Exit);
    assert_ne!(next_action(p), StartupAction::Dispatch);
    assert_ne!(exit_code(p), 0);
    // The failure is absorbing: no later outcome revives startup.
    let q = step(p, StepOutcome::StorageLoaded);
    assert_eq!(q, Phase::Failed);
}

#[test]
fn config_failure_is_fatal_before_anything_else() {
    let p = step(Phase::Boot, StepOutcome::ConfigFailed);
    assert_eq!(p, Phase::Failed);
    assert_eq!(exit_code(p), 1);
}

#[test]
fn misordered_outcome_is_fatal() {
    let p = step(Phase::Boot, StepOutcome::StorageLoaded);
    assert_eq!(p, Phase::Failed);
}

#[test]
fn graceful_server_stop_exits_cleanly() {
    let p = step(Phase::HasStorage, StepOutcome::ServerStopped);
    assert_eq!(p, Phase::Done);
    assert_eq!(exit_code(p), 0);
}

#[test]
fn failed_command_exits_nonzero() {
    let p = step(Phase::HasStorage, StepOutcome::CommandFailed);
    assert_eq!(p, Phase::Failed);
    assert_ne!(exit_code(p), 0);
}

#[test]
fn runtime_has_at_least_one_worker() {
    assert!(runtime_worker_count() >= 1);
}

#[test]
fn dispatch_without_subcommand_starts_the_server() {
    match dispatch(None) {
        DispatchPath::StartServer => {}
        DispatchPath::RunCommand(_) => panic!("no subcommand must start the server"),
    }
}

#[test]
fn dispatch_with_subcommand_runs_it() {
    let id = RoomId::new("!abc:room.example").expect("valid");
    match dispatch(Some(AdminCommand::PurgeRoomAliases(id))) {
        DispatchPath::StartServer => panic!("a subcommand must be run"),
        DispatchPath::RunCommand(AdminCommand::PurgeRoomAliases(room)) => {
            assert_eq!(room.as_str(), "!abc:room.example");
        }
    }
}

#[test]
fn version_without_annotation_is_the_base() {
    assert_eq!(version("0.7.0", None), "0.7.0");
}

#[test]
fn version_with_annotation_appends_it_in_parentheses() {
    assert_eq!(version("0.7.0", Some("deadbeef")), "0.7.0 (deadbeef)");
}
