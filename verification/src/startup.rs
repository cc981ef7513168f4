//! Startup sequencing.
//!
//! Process startup is a strict chain: configuration, diagnostics, runtime,
//! storage, dispatch. The sequencer below is the chain's state machine: each
//! phase names the step to perform next, and the outcome of that step drives
//! the machine forward — or into the terminal failure phase, from which no
//! later step ever runs.

use vstd::prelude::*;

verus! {

/// How far startup has come. `Done` and `Failed` are terminal.
#[derive(Clone, Copy, Debug, PartialEq, Eq, Structural)]
pub enum Phase {
    /// Nothing has run yet.
    Boot,
    /// The configuration is loaded and validated.
    HasConfig,
    /// Process-wide diagnostics are active.
    HasDiagnostics,
    /// The task runtime is constructed.
    HasRuntime,
    /// The store is open and published: dispatch may run.
    HasStorage,
    /// The dispatched work finished successfully.
    Done,
    /// Some step failed; nothing later runs.
    Failed,
}

/// The outcome of one startup step, reported back to the sequencer.
#[derive(Clone, Copy, Debug, PartialEq, Eq, Structural)]
pub enum StepOutcome {
    ConfigLoaded,
    ConfigFailed,
    DiagnosticsActive,
    DiagnosticsFailed,
    RuntimeBuilt,
    RuntimeFailed,
    StorageLoaded,
    StorageFailed,
    CommandSucceeded,
    CommandFailed,
    ServerStopped,
    ServerFailed,
}

/// What the process must do next in a given phase.
#[derive(Clone, Copy, Debug, PartialEq, Eq, Structural)]
pub enum StartupAction {
    LoadConfig,
    InitDiagnostics,
    BuildRuntime,
    LoadStorage,
    Dispatch,
    Exit,
}

/// The step each phase calls for, in the strict startup order; terminal
/// phases call for process exit.
pub open spec fn action_of(p: Phase) -> StartupAction {
    match p {
        Phase::Boot => StartupAction::LoadConfig,
        Phase::HasConfig => StartupAction::InitDiagnostics,
        Phase::HasDiagnostics => StartupAction::BuildRuntime,
        Phase::HasRuntime => StartupAction::LoadStorage,
        Phase::HasStorage => StartupAction::Dispatch,
        Phase::Done => StartupAction::Exit,
        Phase::Failed => StartupAction::Exit,
    }
}

/// One transition of the sequencer. Each phase advances only on the
/// successful outcome of its own step; every failure, and every outcome that
/// does not belong to the phase, is fatal. Terminal phases absorb everything.
pub open spec fn transition(p: Phase, o: StepOutcome) -> Phase {
    match p {
        Phase::Boot => match o {
            StepOutcome::ConfigLoaded => Phase::HasConfig,
            _ => Phase::Failed,
        },
        Phase::HasConfig => match o {
            StepOutcome::DiagnosticsActive => Phase::HasDiagnostics,
            _ => Phase::Failed,
        },
        Phase::HasDiagnostics => match o {
            StepOutcome::RuntimeBuilt => Phase::HasRuntime,
            _ => Phase::Failed,
        },
        Phase::HasRuntime => match o {
            StepOutcome::StorageLoaded => Phase::HasStorage,
            _ => Phase::Failed,
        },
        Phase::HasStorage => match o {
            StepOutcome::CommandSucceeded => Phase::Done,
            StepOutcome::ServerStopped => Phase::Done,
            _ => Phase::Failed,
        },
        Phase::Done => Phase::Done,
        Phase::Failed => Phase::Failed,
    }
}

/// The phase reached from `Boot` after a sequence of step outcomes.
pub open spec fn run_from(p: Phase, outcomes: Seq<StepOutcome>) -> Phase
    decreases outcomes.len(),
{
    if outcomes.len() == 0 {
        p
    } else {
        run_from(transition(p, outcomes.first()), outcomes.drop_first())
    }
}

/// Executable transition of the sequencer.
pub fn step(p: Phase, o: StepOutcome) -> (q: Phase)
    ensures
        q == transition(p, o),
{
    match p {
        Phase::Boot => match o {
            StepOutcome::ConfigLoaded => Phase::HasConfig,
            _ => Phase::Failed,
        },
        Phase::HasConfig => match o {
            StepOutcome::DiagnosticsActive => Phase::HasDiagnostics,
            _ => Phase::Failed,
        },
        Phase::HasDiagnostics => match o {
            StepOutcome::RuntimeBuilt => Phase::HasRuntime,
            _ => Phase::Failed,
        },
        Phase::HasRuntime => match o {
            StepOutcome::StorageLoaded => Phase::HasStorage,
            _ => Phase::Failed,
        },
        Phase::HasStorage => match o {
            StepOutcome::CommandSucceeded => Phase::Done,
            StepOutcome::ServerStopped => Phase::Done,
            _ => Phase::Failed,
        },
        Phase::Done => Phase::Done,
        Phase::Failed => Phase::Failed,
    }
}

/// Executable: the step a phase calls for.
pub fn next_action(p: Phase) -> (a: StartupAction)
    ensures
        a == action_of(p),
{
    match p {
        Phase::Boot => StartupAction::LoadConfig,
        Phase::HasConfig => StartupAction::InitDiagnostics,
        Phase::HasDiagnostics => StartupAction::BuildRuntime,
        Phase::HasRuntime => StartupAction::LoadStorage,
        Phase::HasStorage => StartupAction::Dispatch,
        Phase::Done => StartupAction::Exit,
        Phase::Failed => StartupAction::Exit,
    }
}

/// The exit code a terminal phase maps to: zero exactly on success.
pub fn exit_code(p: Phase) -> (c: i32)
    ensures
        (c == 0) == (p == Phase::Done),
        p == Phase::Failed ==> c == 1,
{
    match p {
        Phase::Done => 0,
        _ => 1,
    }
}

/// Relies on `num_cpus::get`: the number of logical execution units of the
/// host, documented to be at least one.
#[verifier::external_body]
fn logical_cpu_count() -> (n: usize)
    ensures
        1 <= n,
{
    num_cpus::get()
}

/// The runtime's worker count: one worker per available execution unit of
/// the host, hence never zero.
pub fn runtime_worker_count() -> (n: usize)
    ensures
        1 <= n,
{
    logical_cpu_count()
}

/// A terminal phase absorbs every later outcome: once startup has failed
/// (or finished), no sequence of outcomes leads anywhere else.
pub proof fn lemma_terminal_absorbs(p: Phase, outcomes: Seq<StepOutcome>)
    requires
        p == Phase::Done || p == Phase::Failed,
    ensures
        run_from(p, outcomes) == p,
    decreases outcomes.len(),
{
    if outcomes.len() > 0 {
        lemma_terminal_absorbs(transition(p, outcomes.first()), outcomes.drop_first());
    }
}

/// Dispatch waits for storage: the sequencer reaches the phase whose action
/// is `Dispatch` only after a `StorageLoaded` outcome was reported — so a
/// storage step that fails keeps the dispatched work from ever starting.
pub proof fn lemma_storage_precedes_dispatch(p: Phase, outcomes: Seq<StepOutcome>)
    requires
        run_from(p, outcomes) == Phase::HasStorage,
        p != Phase::HasStorage,
    ensures
        outcomes.contains(StepOutcome::StorageLoaded),
    decreases outcomes.len(),
{
    assert(outcomes.len() > 0);
    let q = transition(p, outcomes.first());
    if q == Phase::HasStorage {
        assert(outcomes[0] == StepOutcome::StorageLoaded);
    } else {
        lemma_storage_precedes_dispatch(q, outcomes.drop_first());
        let k = choose|k: int|
            0 <= k < outcomes.drop_first().len() && outcomes.drop_first()[k]
                == StepOutcome::StorageLoaded;
        assert(outcomes[k + 1] == StepOutcome::StorageLoaded);
    }
}

/// A failed storage step is fatal: once `StorageFailed` is reported, the
/// machine never again stands in the phase whose action is `Dispatch`.
pub proof fn lemma_storage_failure_blocks_dispatch(outcomes: Seq<StepOutcome>, k: int)
    requires
        0 <= k < outcomes.len(),
        outcomes[k] == StepOutcome::StorageFailed,
    ensures
        action_of(run_from(Phase::Boot, outcomes)) != StartupAction::Dispatch,
{
    lemma_fatal_outcome_terminates(Phase::Boot, outcomes, k);
}

/// After any outcome that every non-terminal phase treats as fatal — in
/// particular `StorageFailed` — the machine stands in a terminal phase, and
/// stays there.
pub proof fn lemma_fatal_outcome_terminates(p: Phase, outcomes: Seq<StepOutcome>, k: int)
    requires
        0 <= k < outcomes.len(),
        outcomes[k] == StepOutcome::StorageFailed,
    ensures
        run_from(p, outcomes) == Phase::Done || run_from(p, outcomes) == Phase::Failed,
    decreases outcomes.len(),
{
    let q = transition(p, outcomes.first());
    if k == 0 {
        assert(q == Phase::Done || q == Phase::Failed);
        lemma_terminal_absorbs(q, outcomes.drop_first());
    } else {
        lemma_fatal_outcome_terminates(q, outcomes.drop_first(), k - 1);
    }
}

}
