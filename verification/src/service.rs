//! The life of the service process: what is done from its launch to its end, in what order, and
//! what is reported of it.

use vstd::prelude::*;

use crate::platform::RunState;

verus! {

/// How many seconds old a temporary file has to be at startup to be removed.
pub const STALE_TEMPORARY_SECONDS: u64 = 300;

/// How many commands may wait for the owner.
pub const COMMAND_CAPACITY: usize = 32;

/// What the service does next.
#[derive(Clone, Copy, Debug, PartialEq, Eq, Structural)]
pub enum ServiceStep {
    /// Read the launch arguments and check the name that the system calls the service by.
    ReadArguments,
    /// Make sure that no other instance runs.
    AcquireInstance,
    /// Restrict the access to the data directory.
    ProtectRoot,
    /// Restrict the access to what is in it.
    ProtectArtifacts,
    /// Remove temporary files that were left behind.
    RecoverTemporaries,
    /// Load the settings.
    LoadSettings,
    /// Load the key that the state is signed with, or make one.
    LoadKey,
    /// Load the state.
    LoadState,
    /// Start to write logs.
    StartLogging,
    /// Restrict the access to the logs too.
    ProtectLogs,
    /// Listen to the service control manager.
    RegisterControls,
    /// Report that the service starts.
    ReportStarting,
    /// Start what runs tasks.
    StartRuntime,
    /// Bring the operations to an end that were left pending.
    RecoverOperations,
    /// Build the client of the inventory server.
    BuildRemote,
    /// Start to handle commands.
    SpawnOwner,
    /// Report that the service runs.
    ReportRunning,
    /// Serve until the service is told to stop.
    Serve,
    /// Report that the service has stopped.
    ReportStopped,
    /// Nothing: the service has ended.
    Finished,
    /// Nothing: a step failed.
    Failed,
}

/// What came of a step.
#[derive(Clone, Copy, Debug, PartialEq, Eq, Structural)]
pub enum ServiceEvent {
    /// It was done.
    Done,
    /// The settings were loaded; `configured` tells whether nothing is missing in them.
    Loaded { configured: bool },
    /// It failed.
    Failed,
}

/// A run of the service.
#[derive(Clone, Copy, Debug, PartialEq, Eq, Structural)]
pub struct ServiceRun {
    pub step: ServiceStep,
    /// Whether nothing is missing in the settings, once they are loaded.
    pub configured: bool,
}

/// The step after one that was done.
pub open spec fn following(step: ServiceStep, configured: bool) -> ServiceStep {
    match step {
        ServiceStep::ReadArguments => ServiceStep::AcquireInstance,
        ServiceStep::AcquireInstance => ServiceStep::ProtectRoot,
        ServiceStep::ProtectRoot => ServiceStep::ProtectArtifacts,
        ServiceStep::ProtectArtifacts => ServiceStep::RecoverTemporaries,
        ServiceStep::RecoverTemporaries => ServiceStep::LoadSettings,
        ServiceStep::LoadSettings => ServiceStep::LoadKey,
        ServiceStep::LoadKey => ServiceStep::LoadState,
        ServiceStep::LoadState => ServiceStep::StartLogging,
        ServiceStep::StartLogging => ServiceStep::ProtectLogs,
        ServiceStep::ProtectLogs => ServiceStep::RegisterControls,
        ServiceStep::RegisterControls => ServiceStep::ReportStarting,
        ServiceStep::ReportStarting => ServiceStep::StartRuntime,
        ServiceStep::StartRuntime => if configured {
            ServiceStep::RecoverOperations
        } else {
            ServiceStep::SpawnOwner
        },
        ServiceStep::RecoverOperations => ServiceStep::BuildRemote,
        ServiceStep::BuildRemote => ServiceStep::SpawnOwner,
        ServiceStep::SpawnOwner => ServiceStep::ReportRunning,
        ServiceStep::ReportRunning => ServiceStep::Serve,
        ServiceStep::Serve => ServiceStep::ReportStopped,
        ServiceStep::ReportStopped => ServiceStep::Finished,
        ServiceStep::Finished => ServiceStep::Finished,
        ServiceStep::Failed => ServiceStep::Failed,
    }
}

/// Whether an event belongs to a step: only the settings are loaded with an answer.
pub open spec fn completes(step: ServiceStep, event: ServiceEvent) -> bool {
    match event {
        ServiceEvent::Done => step != ServiceStep::LoadSettings && step != ServiceStep::Finished
            && step != ServiceStep::Failed,
        ServiceEvent::Loaded { .. } => step == ServiceStep::LoadSettings,
        ServiceEvent::Failed => false,
    }
}

/// The run after an event. The first failure ends it; an event that does not belong to the step
/// changes nothing.
pub open spec fn run_after(run: ServiceRun, event: ServiceEvent) -> ServiceRun {
    if event == ServiceEvent::Failed {
        if run.step == ServiceStep::Finished {
            run
        } else {
            ServiceRun { step: ServiceStep::Failed, ..run }
        }
    } else if completes(run.step, event) {
        let configured = match event {
            ServiceEvent::Loaded { configured } => configured,
            _ => run.configured,
        };
        ServiceRun { step: following(run.step, configured), configured }
    } else {
        run
    }
}

/// The beginning of a run.
pub open spec fn launched() -> ServiceRun {
    ServiceRun { step: ServiceStep::ReadArguments, configured: false }
}

/// Begins a run.
pub fn launch() -> (run: ServiceRun)
    ensures
        run == launched(),
{
    ServiceRun { step: ServiceStep::ReadArguments, configured: false }
}

fn next_step(step: ServiceStep, configured: bool) -> (next: ServiceStep)
    ensures
        next == following(step, configured),
{
    match step {
        ServiceStep::ReadArguments => ServiceStep::AcquireInstance,
        ServiceStep::AcquireInstance => ServiceStep::ProtectRoot,
        ServiceStep::ProtectRoot => ServiceStep::ProtectArtifacts,
        ServiceStep::ProtectArtifacts => ServiceStep::RecoverTemporaries,
        ServiceStep::RecoverTemporaries => ServiceStep::LoadSettings,
        ServiceStep::LoadSettings => ServiceStep::LoadKey,
        ServiceStep::LoadKey => ServiceStep::LoadState,
        ServiceStep::LoadState => ServiceStep::StartLogging,
        ServiceStep::StartLogging => ServiceStep::ProtectLogs,
        ServiceStep::ProtectLogs => ServiceStep::RegisterControls,
        ServiceStep::RegisterControls => ServiceStep::ReportStarting,
        ServiceStep::ReportStarting => ServiceStep::StartRuntime,
        ServiceStep::StartRuntime => if configured {
            ServiceStep::RecoverOperations
        } else {
            ServiceStep::SpawnOwner
        },
        ServiceStep::RecoverOperations => ServiceStep::BuildRemote,
        ServiceStep::BuildRemote => ServiceStep::SpawnOwner,
        ServiceStep::SpawnOwner => ServiceStep::ReportRunning,
        ServiceStep::ReportRunning => ServiceStep::Serve,
        ServiceStep::Serve => ServiceStep::ReportStopped,
        ServiceStep::ReportStopped => ServiceStep::Finished,
        ServiceStep::Finished => ServiceStep::Finished,
        ServiceStep::Failed => ServiceStep::Failed,
    }
}

/// Takes the next step of a run.
pub fn run_service(run: ServiceRun, event: ServiceEvent) -> (next: ServiceRun)
    ensures
        next == run_after(run, event),
{
    match event {
        ServiceEvent::Failed => if run.step == ServiceStep::Finished {
            run
        } else {
            ServiceRun { step: ServiceStep::Failed, configured: run.configured }
        },
        ServiceEvent::Loaded { configured } => if run.step == ServiceStep::LoadSettings {
            ServiceRun { step: next_step(run.step, configured), configured }
        } else {
            run
        },
        ServiceEvent::Done => if run.step == ServiceStep::LoadSettings || run.step
            == ServiceStep::Finished || run.step == ServiceStep::Failed {
            run
        } else {
            ServiceRun {
                step: next_step(run.step, run.configured),
                configured: run.configured,
            }
        },
    }
}

/// What is reported to the service control manager.
#[derive(Clone, Copy, Debug, PartialEq, Eq, Structural)]
pub struct StatusReport {
    pub state: RunState,
    pub checkpoint: u32,
    /// How many seconds the next report may take.
    pub wait_hint_seconds: u64,
}

/// What a step reports to the service control manager, if it reports anything.
pub open spec fn report_of(step: ServiceStep) -> Option<StatusReport> {
    match step {
        ServiceStep::ReportStarting => Some(
            StatusReport { state: RunState::StartPending, checkpoint: 1, wait_hint_seconds: 10 },
        ),
        ServiceStep::ReportRunning => Some(
            StatusReport { state: RunState::Running, checkpoint: 0, wait_hint_seconds: 0 },
        ),
        ServiceStep::ReportStopped => Some(
            StatusReport { state: RunState::Stopped, checkpoint: 0, wait_hint_seconds: 0 },
        ),
        _ => None,
    }
}

/// Gives what a step reports to the service control manager.
pub fn status_report(step: ServiceStep) -> (report: Option<StatusReport>)
    ensures
        report == report_of(step),
{
    match step {
        ServiceStep::ReportStarting => Some(
            StatusReport { state: RunState::StartPending, checkpoint: 1, wait_hint_seconds: 10 },
        ),
        ServiceStep::ReportRunning => Some(
            StatusReport { state: RunState::Running, checkpoint: 0, wait_hint_seconds: 0 },
        ),
        ServiceStep::ReportStopped => Some(
            StatusReport { state: RunState::Stopped, checkpoint: 0, wait_hint_seconds: 0 },
        ),
        _ => None,
    }
}

/// The steps of a whole run, in order.
pub open spec fn whole_run(configured: bool) -> Seq<ServiceStep> {
    seq![
        ServiceStep::ReadArguments,
        ServiceStep::AcquireInstance,
        ServiceStep::ProtectRoot,
        ServiceStep::ProtectArtifacts,
        ServiceStep::RecoverTemporaries,
        ServiceStep::LoadSettings,
        ServiceStep::LoadKey,
        ServiceStep::LoadState,
        ServiceStep::StartLogging,
        ServiceStep::ProtectLogs,
        ServiceStep::RegisterControls,
        ServiceStep::ReportStarting,
        ServiceStep::StartRuntime,
    ] + (if configured {
        seq![ServiceStep::RecoverOperations, ServiceStep::BuildRemote]
    } else {
        seq![]
    }) + seq![
        ServiceStep::SpawnOwner,
        ServiceStep::ReportRunning,
        ServiceStep::Serve,
        ServiceStep::ReportStopped,
        ServiceStep::Finished,
    ]
}

/// The run after some events.
pub open spec fn run_of(events: Seq<ServiceEvent>) -> ServiceRun
    decreases events.len(),
{
    if events.len() == 0 {
        launched()
    } else {
        run_after(run_of(events.drop_last()), events.last())
    }
}

/// The steps that were done after some events, in order.
pub open spec fn steps_done(events: Seq<ServiceEvent>) -> Seq<ServiceStep>
    decreases events.len(),
{
    if events.len() == 0 {
        Seq::empty()
    } else {
        let before = run_of(events.drop_last());
        if completes(before.step, events.last()) {
            steps_done(events.drop_last()).push(before.step)
        } else {
            steps_done(events.drop_last())
        }
    }
}

/// Whatever comes of the steps, those that were done are the first ones of a whole run, in order
/// and each once; and as long as nothing failed, the next one of a whole run is what is done next.
/// So the service reports that it runs only after everything before that was done, which is, where
/// nothing is missing in the settings, also the recovery of the operations that were left pending.
pub proof fn steps_are_done_in_order(events: Seq<ServiceEvent>)
    ensures
        ({
            let run = run_of(events);
            let done = steps_done(events);
            let order = whole_run(run.configured);
            &&& done.len() < order.len()
            &&& done == order.take(done.len() as int)
            &&& run.step == ServiceStep::Failed || run.step == order[done.len() as int]
        }),
    decreases events.len(),
{
    if events.len() > 0 {
        let earlier = events.drop_last();
        steps_are_done_in_order(earlier);
        let before = run_of(earlier);
        let done = steps_done(earlier);
        let order = whole_run(before.configured);
        let after = run_of(events);
        let next = whole_run(after.configured);
        if completes(before.step, events.last()) {
            assert(next[done.len() as int] == before.step);
            assert(next.take(done.len() as int) =~= done) by {
                assert(order.take(done.len() as int) =~= next.take(done.len() as int));
            }
            assert(next.take(done.len() as int + 1) =~= done.push(before.step));
        }
    } else {
        assert(whole_run(false).take(0) =~= Seq::empty());
    }
}

/// A service that reports that it runs has recovered its pending operations first, where nothing
/// was missing in its settings.
pub proof fn running_follows_recovery(events: Seq<ServiceEvent>)
    requires
        run_of(events).step == ServiceStep::ReportRunning,
        run_of(events).configured,
    ensures
        steps_done(events).contains(ServiceStep::RecoverOperations),
        steps_done(events).contains(ServiceStep::LoadState),
{
    steps_are_done_in_order(events);
    let done = steps_done(events);
    let order = whole_run(true);
    assert(order[13] == ServiceStep::RecoverOperations);
    assert(order[7] == ServiceStep::LoadState);
    assert(done.len() == 16);
    assert(done[13] == order[13]);
    assert(done[7] == order[7]);
}

/// A run that failed stays failed.
pub proof fn failures_end_the_run(run: ServiceRun, event: ServiceEvent)
    requires
        run.step == ServiceStep::Failed,
    ensures
        run_after(run, event) == run,
{
}

/// A step that fails ends the run, unless it is over; a step that is done never does.
pub proof fn only_failures_fail(run: ServiceRun, event: ServiceEvent)
    ensures
        run.step != ServiceStep::Finished ==> run_after(run, ServiceEvent::Failed).step
            == ServiceStep::Failed,
        run.step == ServiceStep::Finished ==> run_after(run, event) == run,
        event != ServiceEvent::Failed && run.step != ServiceStep::Failed ==> run_after(
            run,
            event,
        ).step != ServiceStep::Failed,
        event is Loaded && run.step == ServiceStep::LoadSettings ==> run_after(
            run,
            event,
        ).configured == event->configured,
        run.step != ServiceStep::LoadSettings ==> run_after(run, event).configured
            == run.configured,
{
}

/// The service manager is told three times: that the service starts, with time to do so; that it
/// runs; and that it has stopped. Nothing else is reported.
pub proof fn reports_follow_the_run(step: ServiceStep)
    ensures
        report_of(step) is Some <==> step == ServiceStep::ReportStarting || step
            == ServiceStep::ReportRunning || step == ServiceStep::ReportStopped,
        step == ServiceStep::ReportRunning ==> report_of(step)->0.state == RunState::Running,
        step == ServiceStep::ReportStopped ==> report_of(step)->0.state == RunState::Stopped,
        step == ServiceStep::ReportStarting ==> report_of(step)->0.state
            == RunState::StartPending,
        report_of(step) is Some ==> (report_of(step)->0.wait_hint_seconds > 0 <==> report_of(
            step,
        )->0.state == RunState::StartPending),
        report_of(step) is Some ==> (report_of(step)->0.checkpoint > 0 <==> report_of(
            step,
        )->0.state == RunState::StartPending),
{
}

} // verus!
