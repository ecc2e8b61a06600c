//! The owner of the service's settings and state: what it does with a command, step by step.
//!
//! The owner decides; everything that touches the outside world is an action that it asks for and
//! an event that it is told of afterwards.

use vstd::prelude::*;

use crate::checkin;
use crate::client::ErrorView;
use crate::config;
use crate::config::Settings;
use crate::config::SettingsView;
use crate::evidence::OperationView;
use crate::failure;
use crate::failure::Failure;
use crate::failure::FailureView;
use crate::instant;
use crate::ipc::CheckinEntry;
use crate::ipc::CheckinEntryView;
use crate::ipc::IpcResponse;
use crate::ipc::ResponseView;
use crate::ipc::ServiceCommand;
use crate::lifecycle;
use crate::lifecycle::FsmState;
use crate::model;
use crate::model::Asset;
use crate::model::AssetSummaryView;
use crate::model::Duplicate;
use crate::model::PlanView;
use crate::model::ServiceState;
use crate::model::StateView;
use crate::model::SyncPlan;
use crate::model::SyncResult;
use crate::model::SyncResultView;
use crate::model::Timestamp;
use crate::snapshot;
use crate::status;
use crate::sync_engine;
use crate::sync_engine::ExecutionOutcome;
use crate::sync_engine::ExecutionOutcomeView;
use crate::text;

verus! {

// ---------------------------------------------------------------------------------------------
// Commands, actions and events
// ---------------------------------------------------------------------------------------------

/// Settings to change to, and whether the service is configured with them.
#[derive(Clone, Debug, PartialEq, Eq)]
pub struct SettingsUpdate {
    pub settings: Settings,
    pub configured: bool,
}

/// What is known from outside when a command comes in.
#[derive(Debug)]
pub struct CommandInputs {
    /// The settings that are still to be made; the service is configured if there are none.
    pub missing: Vec<String>,
    /// For a change of a setting: the settings with the change, or why the change is refused.
    pub update: Result<SettingsUpdate, String>,
    /// The time.
    pub now: Timestamp,
}

/// The deep view of [`CommandInputs`].
#[verifier::ext_equal]
pub struct InputsView {
    pub missing: Seq<Seq<char>>,
    pub update: Result<(SettingsView, bool), Seq<char>>,
    pub now: Timestamp,
}

impl DeepView for CommandInputs {
    type V = InputsView;

    open spec fn deep_view(&self) -> InputsView {
        InputsView {
            missing: self.missing.deep_view(),
            update: match self.update {
                Ok(update) => Ok((update.settings.deep_view(), update.configured)),
                Err(message) => Err(message@),
            },
            now: self.now,
        }
    }
}

/// What the owner asks for.
#[derive(Debug, PartialEq, Eq)]
pub enum OwnerAction {
    /// Protect a token.
    Encrypt { plaintext: String },
    /// Recover the protected token.
    Decrypt { ciphertext: Vec<u8> },
    /// Build a client for the inventory server.
    BuildRemote { settings: Settings },
    /// Make settings durable.
    SaveSettings { settings: Settings },
    /// Discover the hardware, gather what the server has for it, and plan.
    Gather,
    /// Carry out a plan.
    Execute { plan: SyncPlan, computer_asset_id: Option<u64>, candidate: ServiceState },
    /// Make a state durable.
    SaveState { state: ServiceState },
    /// Note in the journal that operations are part of the durable state.
    Commit { operation_ids: Vec<String> },
    /// Answer the command, and begin to use the settings that were saved: with another polling
    /// interval, if there is one, and with the client that was built, if one was.
    Adopt { polling_hours: Option<u64>, replace_remote: bool, response: IpcResponse },
    /// Answer the command.
    Respond { response: IpcResponse },
    /// Nothing: the event was not awaited.
    Ignore,
}

/// The deep view of an [`OwnerAction`].
#[verifier::ext_equal]
pub enum OwnerActionView {
    Encrypt { plaintext: Seq<char> },
    Decrypt { ciphertext: Seq<u8> },
    BuildRemote { settings: SettingsView },
    SaveSettings { settings: SettingsView },
    Gather,
    Execute { plan: PlanView, computer_asset_id: Option<u64>, candidate: StateView },
    SaveState { state: StateView },
    Commit { operation_ids: Seq<Seq<char>> },
    Adopt { polling_hours: Option<u64>, replace_remote: bool, response: ResponseView },
    Respond { response: ResponseView },
    Ignore,
}

impl DeepView for OwnerAction {
    type V = OwnerActionView;

    open spec fn deep_view(&self) -> OwnerActionView {
        match self {
            OwnerAction::Encrypt { plaintext } => OwnerActionView::Encrypt {
                plaintext: plaintext@,
            },
            OwnerAction::Decrypt { ciphertext } => OwnerActionView::Decrypt {
                ciphertext: ciphertext@,
            },
            OwnerAction::BuildRemote { settings } => OwnerActionView::BuildRemote {
                settings: settings.deep_view(),
            },
            OwnerAction::SaveSettings { settings } => OwnerActionView::SaveSettings {
                settings: settings.deep_view(),
            },
            OwnerAction::Gather => OwnerActionView::Gather,
            OwnerAction::Execute { plan, computer_asset_id, candidate } =>
                OwnerActionView::Execute {
                plan: plan.deep_view(),
                computer_asset_id: *computer_asset_id,
                candidate: candidate.deep_view(),
            },
            OwnerAction::SaveState { state } => OwnerActionView::SaveState {
                state: state.deep_view(),
            },
            OwnerAction::Commit { operation_ids } => OwnerActionView::Commit {
                operation_ids: operation_ids.deep_view(),
            },
            OwnerAction::Adopt { polling_hours, replace_remote, response } =>
                OwnerActionView::Adopt {
                polling_hours: *polling_hours,
                replace_remote: *replace_remote,
                response: response.deep_view(),
            },
            OwnerAction::Respond { response } => OwnerActionView::Respond {
                response: response.deep_view(),
            },
            OwnerAction::Ignore => OwnerActionView::Ignore,
        }
    }
}

/// What came of an action.
#[derive(Debug, PartialEq, Eq)]
pub enum OwnerEvent {
    /// The token is protected; `configured` tells whether the service is with it.
    Encrypted { ciphertext: Vec<u8>, configured: bool },
    /// The token was recovered.
    Decrypted,
    /// The client was built.
    RemoteBuilt,
    /// The settings are durable.
    SettingsSaved,
    /// A plan was made from what was gathered; `warnings` are those of gathering.
    Planned { plan: SyncPlan, warnings: Vec<String>, system_asset: Option<Asset> },
    /// The plan was carried out.
    Executed { outcome: ExecutionOutcome },
    /// The state is durable.
    StateSaved,
    /// The journal has been told.
    Committed,
    /// The action failed.
    Failed { failure: Failure },
}

/// The deep view of an [`OwnerEvent`].
#[verifier::ext_equal]
pub enum OwnerEventView {
    Encrypted { ciphertext: Seq<u8>, configured: bool },
    Decrypted,
    RemoteBuilt,
    SettingsSaved,
    Planned {
        plan: PlanView,
        warnings: Seq<Seq<char>>,
        system_asset: Option<AssetSummaryView>,
    },
    Executed { outcome: ExecutionOutcomeView },
    StateSaved,
    Committed,
    Failed { failure: FailureView },
}

/// The summary of an asset that may be missing.
pub open spec fn optional_summary(asset: Option<Asset>) -> Option<AssetSummaryView> {
    match asset {
        Some(asset) => Some(model::summary_of(asset)),
        None => None,
    }
}

impl DeepView for OwnerEvent {
    type V = OwnerEventView;

    open spec fn deep_view(&self) -> OwnerEventView {
        match self {
            OwnerEvent::Encrypted { ciphertext, configured } => OwnerEventView::Encrypted {
                ciphertext: ciphertext@,
                configured: *configured,
            },
            OwnerEvent::Decrypted => OwnerEventView::Decrypted,
            OwnerEvent::RemoteBuilt => OwnerEventView::RemoteBuilt,
            OwnerEvent::SettingsSaved => OwnerEventView::SettingsSaved,
            OwnerEvent::Planned { plan, warnings, system_asset } => OwnerEventView::Planned {
                plan: plan.deep_view(),
                warnings: warnings.deep_view(),
                system_asset: optional_summary(*system_asset),
            },
            OwnerEvent::Executed { outcome } => OwnerEventView::Executed {
                outcome: outcome.deep_view(),
            },
            OwnerEvent::StateSaved => OwnerEventView::StateSaved,
            OwnerEvent::Committed => OwnerEventView::Committed,
            OwnerEvent::Failed { failure } => OwnerEventView::Failed {
                failure: failure.deep_view(),
            },
        }
    }
}

// ---------------------------------------------------------------------------------------------
// Work in progress
// ---------------------------------------------------------------------------------------------

/// A change of settings on its way.
#[derive(Debug)]
pub struct SettingsChange {
    pub settings: Settings,
    pub configured: bool,
    /// Whether the polling interval is published anew.
    pub polling: bool,
    pub message: String,
}

/// The deep view of a [`SettingsChange`].
#[verifier::ext_equal]
pub struct ChangeView {
    pub settings: SettingsView,
    pub configured: bool,
    pub polling: bool,
    pub message: Seq<char>,
}

impl DeepView for SettingsChange {
    type V = ChangeView;

    open spec fn deep_view(&self) -> ChangeView {
        ChangeView {
            settings: self.settings.deep_view(),
            configured: self.configured,
            polling: self.polling,
            message: self.message@,
        }
    }
}

/// What a plan is carried out for.
#[derive(Debug)]
pub enum Task {
    /// A synchronization that began at an instant; so far it has given this many warnings.
    Sync { now: Timestamp, warnings: usize },
    /// The check-in of one monitor or of all; these have been chosen.
    Checkin { serial: Option<String>, checked_in: Vec<CheckinEntry> },
}

/// The deep view of a [`Task`].
#[verifier::ext_equal]
pub enum TaskView {
    Sync { now: Timestamp, warnings: nat },
    Checkin { serial: Option<Seq<char>>, checked_in: Seq<CheckinEntryView> },
}

impl DeepView for Task {
    type V = TaskView;

    open spec fn deep_view(&self) -> TaskView {
        match self {
            Task::Sync { now, warnings } => TaskView::Sync {
                now: *now,
                warnings: *warnings as nat,
            },
            Task::Checkin { serial, checked_in } => TaskView::Checkin {
                serial: serial.deep_view(),
                checked_in: checked_in.deep_view(),
            },
        }
    }
}

/// What the owner is waiting for.
#[derive(Debug)]
pub enum Work {
    /// The next command.
    Ready,
    /// The protected token.
    Encrypting,
    /// A client for changed settings.
    Building { change: SettingsChange },
    /// Changed settings to be durable.
    SavingSettings { change: SettingsChange, built: bool },
    /// The recovered token.
    Decrypting { task: Task },
    /// The plan of a synchronization.
    Planning { now: Timestamp },
    /// A plan to be carried out.
    Executing { task: Task, candidate: ServiceState },
    /// The state to be durable.
    SavingState { task: Task, candidate: ServiceState, operations: Vec<String> },
    /// The journal to be told.
    Committing { task: Task },
    /// The note of a failed synchronization to be durable.
    SavingFailure { candidate: ServiceState, failure: Failure },
}

/// The deep view of [`Work`].
#[verifier::ext_equal]
pub enum WorkView {
    Ready,
    Encrypting,
    Building { change: ChangeView },
    SavingSettings { change: ChangeView, built: bool },
    Decrypting { task: TaskView },
    Planning { now: Timestamp },
    Executing { task: TaskView, candidate: StateView },
    SavingState { task: TaskView, candidate: StateView, operations: Seq<Seq<char>> },
    Committing { task: TaskView },
    SavingFailure { candidate: StateView, failure: FailureView },
}

impl DeepView for Work {
    type V = WorkView;

    open spec fn deep_view(&self) -> WorkView {
        match self {
            Work::Ready => WorkView::Ready,
            Work::Encrypting => WorkView::Encrypting,
            Work::Building { change } => WorkView::Building { change: change.deep_view() },
            Work::SavingSettings { change, built } => WorkView::SavingSettings {
                change: change.deep_view(),
                built: *built,
            },
            Work::Decrypting { task } => WorkView::Decrypting { task: task.deep_view() },
            Work::Planning { now } => WorkView::Planning { now: *now },
            Work::Executing { task, candidate } => WorkView::Executing {
                task: task.deep_view(),
                candidate: candidate.deep_view(),
            },
            Work::SavingState { task, candidate, operations } => WorkView::SavingState {
                task: task.deep_view(),
                candidate: candidate.deep_view(),
                operations: operations.deep_view(),
            },
            Work::Committing { task } => WorkView::Committing { task: task.deep_view() },
            Work::SavingFailure { candidate, failure } => WorkView::SavingFailure {
                candidate: candidate.deep_view(),
                failure: failure.deep_view(),
            },
        }
    }
}

/// The owner of the settings and the state.
#[derive(Debug)]
pub struct CommandOwner {
    pub settings: Settings,
    pub state: FsmState,
    pub persisted: ServiceState,
    pub work: Work,
}

/// The deep view of a [`CommandOwner`].
#[verifier::ext_equal]
pub struct OwnerView {
    pub settings: SettingsView,
    pub state: FsmState,
    pub persisted: StateView,
    pub work: WorkView,
}

impl DeepView for CommandOwner {
    type V = OwnerView;

    open spec fn deep_view(&self) -> OwnerView {
        OwnerView {
            settings: self.settings.deep_view(),
            state: self.state,
            persisted: self.persisted.deep_view(),
            work: self.work.deep_view(),
        }
    }
}

/// Whether a task began at an instant that has a calendar date.
pub open spec fn valid_task(task: TaskView) -> bool {
    task is Sync ==> instant::valid_instant(task->Sync_now)
}

/// Whether everything that the owner holds has calendar dates.
pub open spec fn well_formed(owner: OwnerView) -> bool {
    &&& snapshot::valid_state(owner.persisted)
    &&& match owner.work {
        WorkView::Decrypting { task } => valid_task(task),
        WorkView::Planning { now } => instant::valid_instant(now),
        WorkView::Executing { task, candidate } => valid_task(task) && snapshot::valid_state(
            candidate,
        ),
        WorkView::SavingState { task, candidate, .. } => valid_task(task) && snapshot::valid_state(
            candidate,
        ),
        WorkView::Committing { task } => valid_task(task),
        WorkView::SavingFailure { candidate, .. } => snapshot::valid_state(candidate),
        _ => true,
    }
}

/// Whether the monitors that an event brings have calendar dates.
pub open spec fn valid_event(event: OwnerEventView) -> bool {
    match event {
        OwnerEventView::Planned { plan, .. } => snapshot::valid_monitors(plan.next_monitors),
        OwnerEventView::Executed { outcome } => snapshot::valid_monitors(outcome.next_monitors),
        _ => true,
    }
}

// ---------------------------------------------------------------------------------------------
// Steps
// ---------------------------------------------------------------------------------------------

/// An answer that ends the command.
pub open spec fn answered(owner: OwnerView, response: ResponseView) -> (
    OwnerView,
    OwnerActionView,
) {
    (OwnerView { work: WorkView::Ready, ..owner }, OwnerActionView::Respond { response })
}

/// An error that ends the command.
pub open spec fn refused(owner: OwnerView, message: Seq<char>) -> (OwnerView, OwnerActionView) {
    answered(owner, ResponseView::Error { message })
}

/// The beginning of a change of settings: a configured service needs another client first.
pub open spec fn change_begun(owner: OwnerView, change: ChangeView) -> (
    OwnerView,
    OwnerActionView,
) {
    if change.configured {
        (
            OwnerView { work: WorkView::Building { change }, ..owner },
            OwnerActionView::BuildRemote { settings: change.settings },
        )
    } else {
        (
            OwnerView { work: WorkView::SavingSettings { change, built: false }, ..owner },
            OwnerActionView::SaveSettings { settings: change.settings },
        )
    }
}

/// The beginning of a task: the token is needed.
pub open spec fn task_begun(owner: OwnerView, task: TaskView) -> (OwnerView, OwnerActionView) {
    (
        OwnerView { work: WorkView::Decrypting { task }, ..owner },
        OwnerActionView::Decrypt { ciphertext: owner.settings.api_token_encrypted },
    )
}

/// The beginning of a check-in.
pub open spec fn checkin_begun(owner: OwnerView, configured: bool, serial: Option<Seq<char>>) -> (
    OwnerView,
    OwnerActionView,
) {
    match checkin::refusal(configured, owner.persisted.known_monitors, serial) {
        Some(message) => refused(owner, message),
        None => task_begun(owner, TaskView::Checkin { serial, checked_in: Seq::empty() }),
    }
}

/// What the owner does first with a command.
pub open spec fn begun(owner: OwnerView, command: ServiceCommand, inputs: InputsView) -> (
    OwnerView,
    OwnerActionView,
) {
    let configured = inputs.missing.len() == 0;
    match command {
        ServiceCommand::GetConfig => answered(
            owner,
            ResponseView::Config {
                settings: config::with_token_view(owner.settings, Seq::empty()),
                missing: inputs.missing,
            },
        ),
        ServiceCommand::SetConfig { field, value } => match inputs.update {
            Err(message) => refused(owner, message),
            Ok((settings, configured)) => change_begun(
                owner,
                ChangeView {
                    settings,
                    configured,
                    polling: true,
                    message: "updated "@ + field@,
                },
            ),
        },
        ServiceCommand::SetToken { value } => if value@.len() == 0 {
            refused(owner, "API token must not be empty"@)
        } else {
            (
                OwnerView { work: WorkView::Encrypting, ..owner },
                OwnerActionView::Encrypt { plaintext: value@ },
            )
        },
        ServiceCommand::GetStatus => answered(
            owner,
            status::projected_status(owner.state, owner.settings, owner.persisted, false),
        ),
        ServiceCommand::GetStatusFull => answered(
            owner,
            status::projected_status(owner.state, owner.settings, owner.persisted, true),
        ),
        ServiceCommand::TriggerSync => if configured {
            task_begun(
                OwnerView { state: FsmState::Syncing, ..owner },
                TaskView::Sync { now: inputs.now, warnings: 0 },
            )
        } else {
            refused(owner, "service is not configured"@)
        },
        ServiceCommand::CheckinAll => checkin_begun(owner, configured, None),
        ServiceCommand::CheckinSerial { serial } => checkin_begun(
            owner,
            configured,
            Some(serial@),
        ),
    }
}

/// The state that notes a failed synchronization.
pub open spec fn noted_failure(persisted: StateView, now: Timestamp, failure: FailureView) -> StateView {
    StateView {
        last_sync_time: Some(instant::offset_text(now.seconds, now.nanos)),
        last_sync_result: Some(
            SyncResultView::Failed { error: failure::failure_text(failure.causes) },
        ),
        ..persisted
    }
}

/// The end of a task that failed before the state was saved. A failed synchronization is noted in
/// the state, with all that caused it; a failed check-in is answered.
pub open spec fn task_failed(owner: OwnerView, task: TaskView, failure: FailureView) -> (
    OwnerView,
    OwnerActionView,
) {
    match task {
        TaskView::Sync { now, .. } => {
            let candidate = noted_failure(owner.persisted, now, failure);
            (
                OwnerView { work: WorkView::SavingFailure { candidate, failure }, ..owner },
                OwnerActionView::SaveState { state: candidate },
            )
        },
        TaskView::Checkin { .. } => refused(owner, failure::outermost(failure.causes)),
    }
}

/// How a synchronization that gave some warnings ended.
pub open spec fn sync_result(warnings: Seq<Seq<char>>) -> SyncResultView {
    if warnings.len() == 0 {
        SyncResultView::Success
    } else {
        SyncResultView::PartialSuccess { warnings }
    }
}

/// The state that a planned synchronization leads to.
pub open spec fn sync_candidate(
    persisted: StateView,
    now: Timestamp,
    plan: PlanView,
    system_asset: Option<AssetSummaryView>,
) -> StateView {
    StateView {
        last_sync_time: Some(instant::offset_text(now.seconds, now.nanos)),
        last_sync_result: Some(sync_result(plan.warnings)),
        matched_asset: system_asset,
        known_monitors: plan.next_monitors,
    }
}

/// What follows the plan of a synchronization.
pub open spec fn sync_planned(
    owner: OwnerView,
    now: Timestamp,
    plan: PlanView,
    warnings: Seq<Seq<char>>,
    system_asset: Option<AssetSummaryView>,
) -> (OwnerView, OwnerActionView) {
    let complete = PlanView { warnings: plan.warnings + warnings, ..plan };
    let candidate = sync_candidate(owner.persisted, now, complete, system_asset);
    (
        OwnerView {
            work: WorkView::Executing { task: TaskView::Sync { now, warnings: 0 }, candidate },
            ..owner
        },
        OwnerActionView::Execute {
            plan: complete,
            computer_asset_id: match system_asset {
                Some(asset) => Some(asset.id),
                None => None,
            },
            candidate,
        },
    )
}

/// What follows the recovery of the token for a check-in.
pub open spec fn checkin_planned(owner: OwnerView, serial: Option<Seq<char>>) -> (
    OwnerView,
    OwnerActionView,
) {
    let monitors = owner.persisted.known_monitors;
    let plan = checkin::forced_plan(monitors, serial, owner.settings.checkin_status_id);
    let entries = checkin::forced_entries(monitors, serial);
    if entries.len() == 0 {
        if serial is Some {
            refused(owner, "monitor is not eligible for check-in"@)
        } else {
            answered(owner, ResponseView::CheckinResult { checked_in: entries })
        }
    } else {
        let candidate = StateView { known_monitors: plan.next_monitors, ..owner.persisted };
        (
            OwnerView {
                work: WorkView::Executing {
                    task: TaskView::Checkin { serial, checked_in: entries },
                    candidate,
                },
                ..owner
            },
            OwnerActionView::Execute { plan, computer_asset_id: None, candidate },
        )
    }
}

/// What follows a plan that was carried out.
pub open spec fn plan_executed(
    owner: OwnerView,
    task: TaskView,
    candidate: StateView,
    outcome: ExecutionOutcomeView,
) -> (OwnerView, OwnerActionView) {
    let saved = match task {
        TaskView::Sync { .. } => StateView {
            known_monitors: outcome.next_monitors,
            matched_asset: outcome.matched_asset,
            ..candidate
        },
        TaskView::Checkin { .. } => StateView {
            known_monitors: outcome.next_monitors,
            ..candidate
        },
    };
    let next = match task {
        TaskView::Sync { now, .. } => TaskView::Sync { now, warnings: outcome.warnings.len() },
        TaskView::Checkin { .. } => task,
    };
    (
        OwnerView {
            work: WorkView::SavingState {
                task: next,
                candidate: saved,
                operations: outcome.confirmed_operations,
            },
            ..owner
        },
        OwnerActionView::SaveState { state: saved },
    )
}

/// The message after a synchronization that gave some warnings.
pub open spec fn sync_message(warnings: nat) -> Seq<char> {
    if warnings == 0 {
        "synchronization completed"@
    } else {
        "synchronization completed with "@ + text::decimal_text(warnings) + " warning(s)"@
    }
}

/// What follows the commit of a task.
pub open spec fn task_committed(owner: OwnerView, task: TaskView) -> (OwnerView, OwnerActionView) {
    match task {
        TaskView::Sync { warnings, .. } => answered(
            OwnerView { state: FsmState::Idle, ..owner },
            ResponseView::Done { message: sync_message(warnings) },
        ),
        TaskView::Checkin { checked_in, .. } => answered(
            owner,
            ResponseView::CheckinResult { checked_in },
        ),
    }
}

/// The message after a commit that failed.
pub open spec fn commit_failure(failure: FailureView) -> Seq<char> {
    "state candidate saved but journal commit failed: "@ + failure::outermost(failure.causes)
}

/// What follows a commit that failed: the state is saved, but the journal does not say so.
pub open spec fn task_uncommitted(owner: OwnerView, task: TaskView, failure: FailureView) -> (
    OwnerView,
    OwnerActionView,
) {
    match task {
        TaskView::Sync { .. } => refused(
            OwnerView { state: FsmState::Error, ..owner },
            commit_failure(failure),
        ),
        TaskView::Checkin { .. } => refused(owner, commit_failure(failure)),
    }
}

/// What follows settings that are durable.
pub open spec fn settings_adopted(owner: OwnerView, change: ChangeView, built: bool) -> (
    OwnerView,
    OwnerActionView,
) {
    (
        OwnerView {
            settings: change.settings,
            state: lifecycle::resting_state(change.configured),
            work: WorkView::Ready,
            ..owner
        },
        OwnerActionView::Adopt {
            polling_hours: if change.polling {
                Some(change.settings.interval_hours)
            } else {
                None
            },
            replace_remote: built,
            response: ResponseView::Done { message: change.message },
        },
    )
}

/// What the owner does with an event. An event that is not awaited changes nothing.
pub open spec fn resumed(owner: OwnerView, event: OwnerEventView) -> (OwnerView, OwnerActionView) {
    match owner.work {
        WorkView::Ready => (owner, OwnerActionView::Ignore),
        WorkView::Encrypting => match event {
            OwnerEventView::Encrypted { ciphertext, configured } => change_begun(
                owner,
                ChangeView {
                    settings: config::with_token_view(owner.settings, ciphertext),
                    configured,
                    polling: false,
                    message: "API token updated"@,
                },
            ),
            OwnerEventView::Failed { failure } => refused(
                owner,
                failure::outermost(
                    failure::in_context(failure, "failed to encrypt API token"@).causes,
                ),
            ),
            _ => (owner, OwnerActionView::Ignore),
        },
        WorkView::Building { change } => match event {
            OwnerEventView::RemoteBuilt => (
                OwnerView { work: WorkView::SavingSettings { change, built: true }, ..owner },
                OwnerActionView::SaveSettings { settings: change.settings },
            ),
            OwnerEventView::Failed { failure } => refused(
                owner,
                failure::outermost(failure.causes),
            ),
            _ => (owner, OwnerActionView::Ignore),
        },
        WorkView::SavingSettings { change, built } => match event {
            OwnerEventView::SettingsSaved => settings_adopted(owner, change, built),
            OwnerEventView::Failed { failure } => refused(
                owner,
                failure::outermost(failure.causes),
            ),
            _ => (owner, OwnerActionView::Ignore),
        },
        WorkView::Decrypting { task } => match event {
            OwnerEventView::Decrypted => match task {
                TaskView::Sync { now, .. } => (
                    OwnerView { work: WorkView::Planning { now }, ..owner },
                    OwnerActionView::Gather,
                ),
                TaskView::Checkin { serial, .. } => checkin_planned(owner, serial),
            },
            OwnerEventView::Failed { failure } => task_failed(owner, task, failure),
            _ => (owner, OwnerActionView::Ignore),
        },
        WorkView::Planning { now } => match event {
            OwnerEventView::Planned { plan, warnings, system_asset } => sync_planned(
                owner,
                now,
                plan,
                warnings,
                system_asset,
            ),
            OwnerEventView::Failed { failure } => task_failed(
                owner,
                TaskView::Sync { now, warnings: 0 },
                failure,
            ),
            _ => (owner, OwnerActionView::Ignore),
        },
        WorkView::Executing { task, candidate } => match event {
            OwnerEventView::Executed { outcome } => plan_executed(owner, task, candidate, outcome),
            OwnerEventView::Failed { failure } => task_failed(owner, task, failure),
            _ => (owner, OwnerActionView::Ignore),
        },
        WorkView::SavingState { task, candidate, operations } => match event {
            OwnerEventView::StateSaved => (
                OwnerView { persisted: candidate, work: WorkView::Committing { task }, ..owner },
                OwnerActionView::Commit { operation_ids: operations },
            ),
            OwnerEventView::Failed { failure } => task_failed(owner, task, failure),
            _ => (owner, OwnerActionView::Ignore),
        },
        WorkView::Committing { task } => match event {
            OwnerEventView::Committed => task_committed(owner, task),
            OwnerEventView::Failed { failure } => task_uncommitted(owner, task, failure),
            _ => (owner, OwnerActionView::Ignore),
        },
        WorkView::SavingFailure { candidate, failure } => match event {
            OwnerEventView::StateSaved => refused(
                OwnerView {
                    persisted: candidate,
                    state: failure::failed_state(failure.server),
                    ..owner
                },
                failure::failure_text(failure.causes),
            ),
            OwnerEventView::Failed { failure: second } => refused(
                owner,
                failure::outermost(second.causes),
            ),
            _ => (owner, OwnerActionView::Ignore),
        },
    }
}

fn respond(response: IpcResponse) -> (action: OwnerAction)
    ensures
        action.deep_view() == (OwnerActionView::Respond { response: response.deep_view() }),
{
    OwnerAction::Respond { response }
}

fn refuse(message: String) -> (action: OwnerAction)
    ensures
        action.deep_view() == (OwnerActionView::Respond {
            response: ResponseView::Error { message: message@ },
        }),
{
    OwnerAction::Respond { response: IpcResponse::Error { message } }
}

impl CommandOwner {
    /// Takes ownership of settings and state when the service starts.
    pub fn new(settings: Settings, configured: bool, persisted: ServiceState) -> (owner: Self)
        requires
            snapshot::valid_state(persisted.deep_view()),
        ensures
            well_formed(owner.deep_view()),
            owner.deep_view() == (OwnerView {
                settings: settings.deep_view(),
                state: lifecycle::resting_state(configured),
                persisted: persisted.deep_view(),
                work: WorkView::Ready,
            }),
    {
        CommandOwner {
            settings,
            state: lifecycle::configuration_state(configured),
            persisted,
            work: Work::Ready,
        }
    }

    fn begin_change(&mut self, change: SettingsChange) -> (action: OwnerAction)
        requires
            well_formed(old(self).deep_view()),
            old(self).deep_view().work is Ready,
        ensures
            (final(self).deep_view(), action.deep_view()) == change_begun(
                old(self).deep_view(),
                change.deep_view(),
            ),
            well_formed(final(self).deep_view()),
    {
        let settings = change.settings.duplicate();
        if change.configured {
            self.work = Work::Building { change };
            OwnerAction::BuildRemote { settings }
        } else {
            self.work = Work::SavingSettings { change, built: false };
            OwnerAction::SaveSettings { settings }
        }
    }

    fn begin_task(&mut self, task: Task) -> (action: OwnerAction)
        requires
            well_formed(old(self).deep_view()),
            valid_task(task.deep_view()),
        ensures
            (final(self).deep_view(), action.deep_view()) == task_begun(
                old(self).deep_view(),
                task.deep_view(),
            ),
            well_formed(final(self).deep_view()),
    {
        self.work = Work::Decrypting { task };
        OwnerAction::Decrypt {
            ciphertext: config::copy_bytes(self.settings.snipeit.api_token_encrypted.as_slice()),
        }
    }

    fn begin_checkin(&mut self, configured: bool, serial: Option<String>) -> (action: OwnerAction)
        requires
            well_formed(old(self).deep_view()),
            old(self).deep_view().work is Ready,
        ensures
            (final(self).deep_view(), action.deep_view()) == checkin_begun(
                old(self).deep_view(),
                configured,
                serial.deep_view(),
            ),
            well_formed(final(self).deep_view()),
    {
        match checkin::preflight(configured, &self.persisted.known_monitors, &serial) {
            Some(message) => refuse(message),
            None => {
                let checked_in: Vec<CheckinEntry> = Vec::new();
                proof {
                    assert(checked_in.deep_view() =~= Seq::empty());
                }
                self.begin_task(Task::Checkin { serial, checked_in })
            },
        }
    }

    fn report(&self, full: bool) -> (action: OwnerAction)
        requires
            well_formed(self.deep_view()),
        ensures
            action.deep_view() == (OwnerActionView::Respond {
                response: status::projected_status(
                    self.state,
                    self.settings.deep_view(),
                    self.persisted.deep_view(),
                    full,
                ),
            }),
    {
        respond(
            status::service_status_projection(self.state, &self.settings, &self.persisted, full),
        )
    }

    /// Begins a command.
    pub fn handle(&mut self, command: ServiceCommand, inputs: CommandInputs) -> (action:
        OwnerAction)
        requires
            well_formed(old(self).deep_view()),
            old(self).deep_view().work is Ready,
            instant::valid_instant(inputs.now),
        ensures
            (final(self).deep_view(), action.deep_view()) == begun(
                old(self).deep_view(),
                command,
                inputs.deep_view(),
            ),
            well_formed(final(self).deep_view()),
    {
        let configured = inputs.missing.len() == 0;
        match command {
            ServiceCommand::GetConfig => respond(
                IpcResponse::Config {
                    settings: config::redact_settings(&self.settings),
                    missing: inputs.missing,
                },
            ),
            ServiceCommand::SetConfig { field, value: _ } => match inputs.update {
                Err(message) => refuse(message),
                Ok(update) => {
                    let mut message = "updated ".to_owned();
                    message.append(field.as_str());
                    self.begin_change(
                        SettingsChange {
                            settings: update.settings,
                            configured: update.configured,
                            polling: true,
                            message,
                        },
                    )
                },
            },
            ServiceCommand::SetToken { value } => {
                let chars = text::to_chars(value.as_str());
                if chars.len() == 0 {
                    refuse("API token must not be empty".to_owned())
                } else {
                    self.work = Work::Encrypting;
                    OwnerAction::Encrypt { plaintext: value }
                }
            },
            ServiceCommand::GetStatus => self.report(false),
            ServiceCommand::GetStatusFull => self.report(true),
            ServiceCommand::TriggerSync => self.trigger_sync(configured, inputs.now),
            ServiceCommand::CheckinAll => self.begin_checkin(configured, None),
            ServiceCommand::CheckinSerial { serial } => self.begin_checkin(
                configured,
                Some(serial),
            ),
        }
    }

    fn trigger_sync(&mut self, configured: bool, now: Timestamp) -> (action: OwnerAction)
        requires
            well_formed(old(self).deep_view()),
            old(self).deep_view().work is Ready,
            instant::valid_instant(now),
        ensures
            well_formed(final(self).deep_view()),
            (final(self).deep_view(), action.deep_view()) == if configured {
                task_begun(
                    OwnerView { state: FsmState::Syncing, ..old(self).deep_view() },
                    TaskView::Sync { now, warnings: 0 },
                )
            } else {
                refused(old(self).deep_view(), "service is not configured"@)
            },
    {
        if !configured {
            return refuse("service is not configured".to_owned());
        }
        self.state = FsmState::Syncing;
        self.begin_task(Task::Sync { now, warnings: 0 })
    }

    fn fail_task(&mut self, task: Task, failure: Failure) -> (action: OwnerAction)
        requires
            well_formed(old(self).deep_view()),
            old(self).deep_view().work is Ready,
            valid_task(task.deep_view()),
        ensures
            (final(self).deep_view(), action.deep_view()) == task_failed(
                old(self).deep_view(),
                task.deep_view(),
                failure.deep_view(),
            ),
            well_formed(final(self).deep_view()),
    {
        match task {
            Task::Sync { now, warnings: _ } => {
                let candidate = ServiceState {
                    last_sync_time: Some(instant::to_rfc3339(now)),
                    last_sync_result: Some(SyncResult::Failed { error: failure.message() }),
                    matched_asset: self.persisted.matched_asset.duplicate(),
                    known_monitors: self.persisted.known_monitors.duplicate(),
                };
                let state = candidate.duplicate();
                self.work = Work::SavingFailure { candidate, failure };
                OwnerAction::SaveState { state }
            },
            Task::Checkin { .. } => refuse(failure.summary()),
        }
    }

    fn execute_sync(
        &mut self,
        now: Timestamp,
        plan: SyncPlan,
        warnings: Vec<String>,
        system_asset: Option<Asset>,
    ) -> (action: OwnerAction)
        requires
            well_formed(old(self).deep_view()),
            old(self).deep_view().work is Ready,
            instant::valid_instant(now),
            snapshot::valid_monitors(plan.deep_view().next_monitors),
        ensures
            (final(self).deep_view(), action.deep_view()) == sync_planned(
                old(self).deep_view(),
                now,
                plan.deep_view(),
                warnings.deep_view(),
                optional_summary(system_asset),
            ),
            well_formed(final(self).deep_view()),
    {
        let mut plan = plan;
        let mut more = warnings;
        let ghost planned = plan.deep_view();
        let ghost gathered = more.deep_view();
        plan.warnings.append(&mut more);
        proof {
            assert(plan.warnings.deep_view() =~= planned.warnings + gathered);
        }
        let result = if plan.warnings.len() == 0 {
            SyncResult::Success
        } else {
            SyncResult::PartialSuccess { warnings: plan.warnings.duplicate() }
        };
        let (computer_asset_id, matched_asset) = match &system_asset {
            Some(asset) => (Some(asset.id), Some(model::asset_summary(asset))),
            None => (None, None),
        };
        let candidate = ServiceState {
            last_sync_time: Some(instant::to_rfc3339(now)),
            last_sync_result: Some(result),
            matched_asset,
            known_monitors: plan.next_monitor_state.entries.duplicate(),
        };
        let copy = candidate.duplicate();
        self.work = Work::Executing { task: Task::Sync { now, warnings: 0 }, candidate };
        OwnerAction::Execute { plan, computer_asset_id, candidate: copy }
    }

    fn force_checkin(&mut self, serial: Option<String>) -> (action: OwnerAction)
        requires
            well_formed(old(self).deep_view()),
            old(self).deep_view().work is Ready,
        ensures
            (final(self).deep_view(), action.deep_view()) == checkin_planned(
                old(self).deep_view(),
                serial.deep_view(),
            ),
            well_formed(final(self).deep_view()),
    {
        let status_id: u64 = self.settings.snipeit.checkin_status_id;
        let (plan, checked_in) = checkin::plan_forced_checkin(
            &self.persisted.known_monitors,
            &serial,
            status_id,
        );
        proof {
            checkin::lemma_forced_monitors_valid(
                self.persisted.deep_view().known_monitors,
                serial.deep_view(),
                status_id,
            );
        }
        if checked_in.len() == 0 {
            if serial.is_some() {
                return refuse("monitor is not eligible for check-in".to_owned());
            }
            return respond(IpcResponse::CheckinResult { checked_in });
        }
        let mut candidate = self.persisted.duplicate();
        candidate.known_monitors = plan.next_monitor_state.entries.duplicate();
        let copy = candidate.duplicate();
        self.work = Work::Executing { task: Task::Checkin { serial, checked_in }, candidate };
        OwnerAction::Execute { plan, computer_asset_id: None, candidate: copy }
    }

    fn save_outcome(
        &mut self,
        task: Task,
        candidate: ServiceState,
        outcome: ExecutionOutcome,
    ) -> (action: OwnerAction)
        requires
            well_formed(old(self).deep_view()),
            old(self).deep_view().work is Ready,
            valid_task(task.deep_view()),
            snapshot::valid_state(candidate.deep_view()),
            snapshot::valid_monitors(outcome.deep_view().next_monitors),
        ensures
            (final(self).deep_view(), action.deep_view()) == plan_executed(
                old(self).deep_view(),
                task.deep_view(),
                candidate.deep_view(),
                outcome.deep_view(),
            ),
            well_formed(final(self).deep_view()),
    {
        let mut candidate = candidate;
        candidate.known_monitors = outcome.next_monitor_state.entries;
        let warnings: usize = outcome.warnings.len();
        let task = match task {
            Task::Sync { now, warnings: _ } => {
                candidate.matched_asset = outcome.matched_asset;
                Task::Sync { now, warnings }
            },
            Task::Checkin { serial, checked_in } => Task::Checkin { serial, checked_in },
        };
        let state = candidate.duplicate();
        self.work =
        Work::SavingState { task, candidate, operations: outcome.confirmed_operations };
        OwnerAction::SaveState { state }
    }

    fn finish_task(&mut self, task: Task) -> (action: OwnerAction)
        requires
            well_formed(old(self).deep_view()),
            old(self).deep_view().work is Ready,
        ensures
            (final(self).deep_view(), action.deep_view()) == task_committed(
                old(self).deep_view(),
                task.deep_view(),
            ),
            well_formed(final(self).deep_view()),
    {
        match task {
            Task::Sync { now: _, warnings } => {
                self.state = FsmState::Idle;
                let message = if warnings == 0 {
                    "synchronization completed".to_owned()
                } else {
                    let count = text::decimal(warnings as u128);
                    text::join3("synchronization completed with ", count.as_str(), " warning(s)")
                };
                respond(IpcResponse::Done { message })
            },
            Task::Checkin { serial: _, checked_in } => respond(
                IpcResponse::CheckinResult { checked_in },
            ),
        }
    }

    fn abandon_commit(&mut self, task: Task, failure: Failure) -> (action: OwnerAction)
        requires
            well_formed(old(self).deep_view()),
            old(self).deep_view().work is Ready,
        ensures
            (final(self).deep_view(), action.deep_view()) == task_uncommitted(
                old(self).deep_view(),
                task.deep_view(),
                failure.deep_view(),
            ),
            well_formed(final(self).deep_view()),
    {
        let mut message = "state candidate saved but journal commit failed: ".to_owned();
        let reason = failure.summary();
        message.append(reason.as_str());
        match task {
            Task::Sync { .. } => {
                self.state = FsmState::Error;
            },
            Task::Checkin { .. } => {},
        }
        refuse(message)
    }

    fn adopt_settings(&mut self, change: SettingsChange, built: bool) -> (action: OwnerAction)
        requires
            well_formed(old(self).deep_view()),
            old(self).deep_view().work is Ready,
        ensures
            (final(self).deep_view(), action.deep_view()) == settings_adopted(
                old(self).deep_view(),
                change.deep_view(),
                built,
            ),
            well_formed(final(self).deep_view()),
    {
        let polling_hours = if change.polling {
            Some(change.settings.polling.interval_hours)
        } else {
            None
        };
        self.settings = change.settings;
        self.state = lifecycle::configuration_state(change.configured);
        OwnerAction::Adopt {
            polling_hours,
            replace_remote: built,
            response: IpcResponse::Done { message: change.message },
        }
    }

    /// Goes on with the work in progress.
    pub fn resume(&mut self, event: OwnerEvent) -> (action: OwnerAction)
        requires
            well_formed(old(self).deep_view()),
            valid_event(event.deep_view()),
        ensures
            (final(self).deep_view(), action.deep_view()) == resumed(
                old(self).deep_view(),
                event.deep_view(),
            ),
            well_formed(final(self).deep_view()),
    {
        let mut work = Work::Ready;
        std::mem::swap(&mut work, &mut self.work);
        match work {
            Work::Ready => OwnerAction::Ignore,
            Work::Encrypting => match event {
                OwnerEvent::Encrypted { ciphertext, configured } => {
                    let settings = config::with_token(&self.settings, ciphertext);
                    self.begin_change(
                        SettingsChange {
                            settings,
                            configured,
                            polling: false,
                            message: "API token updated".to_owned(),
                        },
                    )
                },
                OwnerEvent::Failed { failure } => refuse(
                    failure.context("failed to encrypt API token").summary(),
                ),
                _ => {
                    self.work = Work::Encrypting;
                    OwnerAction::Ignore
                },
            },
            Work::Building { change } => match event {
                OwnerEvent::RemoteBuilt => {
                    let settings = change.settings.duplicate();
                    self.work = Work::SavingSettings { change, built: true };
                    OwnerAction::SaveSettings { settings }
                },
                OwnerEvent::Failed { failure } => refuse(failure.summary()),
                _ => {
                    self.work = Work::Building { change };
                    OwnerAction::Ignore
                },
            },
            Work::SavingSettings { change, built } => match event {
                OwnerEvent::SettingsSaved => self.adopt_settings(change, built),
                OwnerEvent::Failed { failure } => refuse(failure.summary()),
                _ => {
                    self.work = Work::SavingSettings { change, built };
                    OwnerAction::Ignore
                },
            },
            Work::Decrypting { task } => match event {
                OwnerEvent::Decrypted => match task {
                    Task::Sync { now, warnings: _ } => {
                        self.work = Work::Planning { now };
                        OwnerAction::Gather
                    },
                    Task::Checkin { serial, checked_in: _ } => self.force_checkin(serial),
                },
                OwnerEvent::Failed { failure } => self.fail_task(task, failure),
                _ => {
                    self.work = Work::Decrypting { task };
                    OwnerAction::Ignore
                },
            },
            Work::Planning { now } => match event {
                OwnerEvent::Planned { plan, warnings, system_asset } => self.execute_sync(
                    now,
                    plan,
                    warnings,
                    system_asset,
                ),
                OwnerEvent::Failed { failure } => self.fail_task(
                    Task::Sync { now, warnings: 0 },
                    failure,
                ),
                _ => {
                    self.work = Work::Planning { now };
                    OwnerAction::Ignore
                },
            },
            Work::Executing { task, candidate } => match event {
                OwnerEvent::Executed { outcome } => self.save_outcome(task, candidate, outcome),
                OwnerEvent::Failed { failure } => self.fail_task(task, failure),
                _ => {
                    self.work = Work::Executing { task, candidate };
                    OwnerAction::Ignore
                },
            },
            Work::SavingState { task, candidate, operations } => match event {
                OwnerEvent::StateSaved => {
                    self.persisted = candidate;
                    self.work = Work::Committing { task };
                    OwnerAction::Commit { operation_ids: operations }
                },
                OwnerEvent::Failed { failure } => self.fail_task(task, failure),
                _ => {
                    self.work = Work::SavingState { task, candidate, operations };
                    OwnerAction::Ignore
                },
            },
            Work::Committing { task } => match event {
                OwnerEvent::Committed => self.finish_task(task),
                OwnerEvent::Failed { failure } => self.abandon_commit(task, failure),
                _ => {
                    self.work = Work::Committing { task };
                    OwnerAction::Ignore
                },
            },
            Work::SavingFailure { candidate, failure } => match event {
                OwnerEvent::StateSaved => {
                    self.persisted = candidate;
                    self.state = failure::state_after_sync_error(&failure);
                    refuse(failure.message())
                },
                OwnerEvent::Failed { failure: second } => refuse(second.summary()),
                _ => {
                    self.work = Work::SavingFailure { candidate, failure };
                    OwnerAction::Ignore
                },
            },
        }
    }
}

// ---------------------------------------------------------------------------------------------
// Laws
// ---------------------------------------------------------------------------------------------

/// The state whose saving the owner waits for.
pub open spec fn awaited_state(work: WorkView) -> Option<StateView> {
    match work {
        WorkView::SavingState { candidate, .. } => Some(candidate),
        WorkView::SavingFailure { candidate, .. } => Some(candidate),
        _ => None,
    }
}

/// The settings whose saving the owner waits for.
pub open spec fn awaited_settings(work: WorkView) -> Option<SettingsView> {
    match work {
        WorkView::SavingSettings { change, .. } => Some(change.settings),
        _ => None,
    }
}

/// The state in memory changes only when a state has become durable, and then to that state: the
/// owner never reports what was not saved. A command by itself never changes it.
pub proof fn memory_follows_durable_state(
    owner: OwnerView,
    event: OwnerEventView,
    command: ServiceCommand,
    inputs: InputsView,
)
    ensures
        begun(owner, command, inputs).0.persisted == owner.persisted,
        resumed(owner, event).0.persisted != owner.persisted ==> {
            &&& event is StateSaved
            &&& awaited_state(owner.work) == Some(resumed(owner, event).0.persisted)
        },
{
}

/// The owner waits for a state to be saved only after it has asked for just that.
pub proof fn awaited_states_are_requested(owner: OwnerView, event: OwnerEventView)
    requires
        !(resumed(owner, event).1 is Ignore),
        awaited_state(resumed(owner, event).0.work) is Some,
    ensures
        resumed(owner, event).1 == (OwnerActionView::SaveState {
            state: awaited_state(resumed(owner, event).0.work)->0,
        }),
{
}

/// The settings in use change only when settings have become durable, and then to those. A change
/// that fails at any point leaves the settings, the state and what was persisted as they were.
pub proof fn settings_follow_durable_settings(
    owner: OwnerView,
    event: OwnerEventView,
    command: ServiceCommand,
    inputs: InputsView,
)
    ensures
        begun(owner, command, inputs).0.settings == owner.settings,
        resumed(owner, event).0.settings != owner.settings ==> {
            &&& event is SettingsSaved
            &&& awaited_settings(owner.work) == Some(resumed(owner, event).0.settings)
        },
        event is Failed && (owner.work is Encrypting || owner.work is Building
            || owner.work is SavingSettings) ==> resumed(owner, event).0 == (OwnerView {
            work: WorkView::Ready,
            ..owner
        }) && resumed(owner, event).1 is Respond,
{
}

/// Operations are committed to the journal only once the state that they led to is durable, and
/// only those that the execution confirmed.
pub proof fn commits_follow_durable_state(owner: OwnerView, event: OwnerEventView)
    requires
        resumed(owner, event).1 is Commit,
    ensures
        event is StateSaved,
        owner.work is SavingState,
        resumed(owner, event).1->operation_ids == owner.work->operations,
        resumed(owner, event).0.persisted == awaited_state(owner.work)->0,
{
}

/// How many events a command may still need.
pub open spec fn remaining_steps(work: WorkView) -> nat {
    match work {
        WorkView::Ready => 0,
        WorkView::Committing { .. } => 1,
        WorkView::SavingFailure { .. } => 1,
        WorkView::SavingSettings { .. } => 1,
        WorkView::SavingState { .. } => 2,
        WorkView::Building { .. } => 2,
        WorkView::Executing { .. } => 3,
        WorkView::Encrypting => 3,
        WorkView::Planning { .. } => 4,
        WorkView::Decrypting { .. } => 5,
    }
}

/// Every command is answered, exactly once: each awaited event brings the owner closer to being
/// ready for the next command, and it is ready precisely when it answers.
pub proof fn commands_are_answered(
    owner: OwnerView,
    event: OwnerEventView,
    command: ServiceCommand,
    inputs: InputsView,
)
    ensures
        ({
            let (next, action) = resumed(owner, event);
            &&& action is Ignore ==> next == owner
            &&& !(action is Ignore) ==> remaining_steps(next.work) < remaining_steps(owner.work)
            &&& !(action is Ignore) ==> (next.work is Ready <==> (action is Respond
                || action is Adopt))
        }),
        owner.work is Ready ==> ({
            let (next, action) = begun(owner, command, inputs);
            next.work is Ready <==> action is Respond
        }),
{
}

/// A failed event is never left without consequence while the owner waits for one.
pub proof fn failures_are_never_ignored(owner: OwnerView, failure: FailureView)
    requires
        !(owner.work is Ready),
    ensures
        !(resumed(owner, OwnerEventView::Failed { failure }).1 is Ignore),
{
}

/// A synchronization that fails before its state is saved leaves everything that was persisted but
/// the note of the failure, and the monitors and the matched asset in particular.
pub proof fn failed_synchronizations_keep_the_inventory(
    persisted: StateView,
    now: Timestamp,
    failure: FailureView,
)
    ensures
        noted_failure(persisted, now, failure).known_monitors == persisted.known_monitors,
        noted_failure(persisted, now, failure).matched_asset == persisted.matched_asset,
        noted_failure(persisted, now, failure).last_sync_result == Some(
            SyncResultView::Failed { error: failure::failure_text(failure.causes) },
        ),
{
}

/// A synchronization patches the computer: where a plan with an update was made for a known asset,
/// the first operation of what is carried out is that update of that asset. Without an asset or an
/// update, nothing is patched. The rest of the plan, and the warnings of gathering behind its own,
/// are handed on, with the state that the plan leads to.
pub proof fn synchronizations_patch_the_computer(
    owner: OwnerView,
    now: Timestamp,
    plan: SyncPlan,
    warnings: Vec<String>,
    system_asset: Option<Asset>,
)
    requires
        owner.work == (WorkView::Planning { now }),
    ensures
        ({
            let event = OwnerEvent::Planned { plan, warnings, system_asset };
            let (next, action) = resumed(owner, event.deep_view());
            let operations = sync_engine::planned_operations(
                action->plan,
                action->computer_asset_id,
            );
            let made = plan.deep_view();
            let patches: int = if made.asset_update is Some && system_asset is Some {
                1
            } else {
                0
            };
            &&& action is Execute
            &&& patches == 1 ==> operations.len() > 0 && operations[0].operation == (
            OperationView::Patch {
                asset_id: system_asset->0.id,
                request: made.asset_update->0,
            })
            &&& patches == 0 ==> forall|i: int|
                0 <= i < operations.len() ==> !((#[trigger] operations[i]).operation is Patch)
            &&& operations.len() == patches + made.monitor_checkouts.len()
                + made.monitor_checkins.len()
            &&& action->plan.next_monitors == made.next_monitors
            &&& action->plan.monitor_checkouts == made.monitor_checkouts
            &&& action->plan.monitor_checkins == made.monitor_checkins
            &&& action->plan.warnings == made.warnings + warnings.deep_view()
            &&& action->candidate.known_monitors == made.next_monitors
            &&& system_asset is None ==> action->candidate.matched_asset is None
            &&& system_asset is Some ==> action->candidate.matched_asset is Some
                && action->candidate.matched_asset->0.id == system_asset->0.id
                && action->candidate.matched_asset->0.name == system_asset->0.name@
                && action->candidate.matched_asset->0.serial == system_asset->0.serial.deep_view()
                && action->candidate.matched_asset->0.asset_tag
                == system_asset->0.asset_tag.deep_view()
            &&& action->candidate.last_sync_time == Some(
                instant::offset_text(now.seconds, now.nanos),
            )
            &&& made.warnings.len() + warnings@.len() == 0 ==> action->candidate.last_sync_result
                == Some(SyncResultView::Success)
            &&& made.warnings.len() + warnings@.len() > 0 ==> action->candidate.last_sync_result
                == Some(
                SyncResultView::PartialSuccess { warnings: made.warnings + warnings.deep_view() },
            )
            &&& next.settings == owner.settings
            &&& next.state == owner.state
            &&& next.persisted == owner.persisted
        }),
{
    let event = OwnerEvent::Planned { plan, warnings, system_asset };
    let (next, action) = resumed(owner, event.deep_view());
    let operations = sync_engine::planned_operations(action->plan, action->computer_asset_id);
    sync_engine::plans_come_to_their_operations(action->plan, action->computer_asset_id, 0);
    assert forall|i: int| 0 <= i < operations.len() && (plan.deep_view().asset_update is None
        || system_asset is None) implies !((#[trigger] operations[i]).operation is Patch) by {
        sync_engine::plans_come_to_their_operations(action->plan, action->computer_asset_id, i);
    }
}

/// A synchronization that succeeds goes through its steps in order, and ends idle: the token is
/// recovered, the inventory gathered, the plan carried out, the state that it led to saved, what was
/// confirmed committed, and the caller told. What is durable then has the monitors and the matched
/// asset of the outcome, and the time and the result of the synchronization.
pub proof fn successful_synchronizations_end_idle(
    owner: OwnerView,
    inputs: InputsView,
    plan: PlanView,
    warnings: Seq<Seq<char>>,
    system_asset: Option<AssetSummaryView>,
    outcome: ExecutionOutcomeView,
)
    requires
        inputs.missing.len() == 0,
    ensures
        ({
            let triggered = begun(owner, ServiceCommand::TriggerSync, inputs);
            let gathering = resumed(triggered.0, OwnerEventView::Decrypted);
            let executing = resumed(
                gathering.0,
                OwnerEventView::Planned { plan, warnings, system_asset },
            );
            let saving = resumed(executing.0, OwnerEventView::Executed { outcome });
            let committing = resumed(saving.0, OwnerEventView::StateSaved);
            let done = resumed(committing.0, OwnerEventView::Committed);
            let all = plan.warnings + warnings;
            let saved = StateView {
                last_sync_time: Some(instant::offset_text(inputs.now.seconds, inputs.now.nanos)),
                last_sync_result: Some(
                    if all.len() == 0 {
                        SyncResultView::Success
                    } else {
                        SyncResultView::PartialSuccess { warnings: all }
                    },
                ),
                matched_asset: outcome.matched_asset,
                known_monitors: outcome.next_monitors,
            };
            &&& triggered.1 == (OwnerActionView::Decrypt {
                ciphertext: owner.settings.api_token_encrypted,
            })
            &&& gathering.1 == OwnerActionView::Gather
            &&& executing.1 is Execute
            &&& saving.1 == (OwnerActionView::SaveState { state: saved })
            &&& committing.1 == (OwnerActionView::Commit {
                operation_ids: outcome.confirmed_operations,
            })
            &&& done.1 == (OwnerActionView::Respond {
                response: ResponseView::Done {
                    message: if outcome.warnings.len() == 0 {
                        "synchronization completed"@
                    } else {
                        "synchronization completed with "@ + text::decimal_text(
                            outcome.warnings.len(),
                        ) + " warning(s)"@
                    },
                },
            })
            &&& triggered.0.state == FsmState::Syncing
            &&& gathering.0.state == FsmState::Syncing
            &&& executing.0.state == FsmState::Syncing
            &&& saving.0.state == FsmState::Syncing
            &&& committing.0.state == FsmState::Syncing
            &&& saving.0.persisted == owner.persisted
            &&& committing.0.persisted == saved
            &&& done.0 == (OwnerView {
                settings: owner.settings,
                state: FsmState::Idle,
                persisted: saved,
                work: WorkView::Ready,
            })
        }),
{
}

/// A synchronization that fails before its state is saved notes the failure, whichever step it
/// failed in: the inventory stays as it is, the time and the failure are saved, the caller is told
/// all causes, and the service is unconfigured if the server refused the token or the permission,
/// and in error otherwise. Where even that cannot be saved, nothing changes.
pub proof fn failed_synchronizations_are_noted(
    owner: OwnerView,
    now: Timestamp,
    failure: FailureView,
    second: FailureView,
)
    requires
        match owner.work {
            WorkView::Decrypting { task } => task is Sync && task->Sync_now == now,
            WorkView::Planning { now: began } => began == now,
            WorkView::Executing { task, .. } => task is Sync && task->Sync_now == now,
            WorkView::SavingState { task, .. } => task is Sync && task->Sync_now == now,
            _ => false,
        },
    ensures
        ({
            let noting = resumed(owner, OwnerEventView::Failed { failure });
            let noted = resumed(noting.0, OwnerEventView::StateSaved);
            let lost = resumed(noting.0, OwnerEventView::Failed { failure: second });
            let error = text::joined(failure.causes, ": "@);
            let saved = StateView {
                last_sync_time: Some(instant::offset_text(now.seconds, now.nanos)),
                last_sync_result: Some(SyncResultView::Failed { error }),
                matched_asset: owner.persisted.matched_asset,
                known_monitors: owner.persisted.known_monitors,
            };
            let refused_by_server = failure.server == Some(ErrorView::AuthFailure)
                || failure.server == Some(ErrorView::PermissionDenied);
            &&& noting.1 == (OwnerActionView::SaveState { state: saved })
            &&& noting.0.persisted == owner.persisted
            &&& noted.1 == (OwnerActionView::Respond {
                response: ResponseView::Error { message: error },
            })
            &&& noted.0 == (OwnerView {
                settings: owner.settings,
                state: if refused_by_server {
                    FsmState::Unconfigured
                } else {
                    FsmState::Error
                },
                persisted: saved,
                work: WorkView::Ready,
            })
            &&& lost.0 == (OwnerView { work: WorkView::Ready, ..owner })
            &&& second.causes.len() > 0 ==> lost.1 == (OwnerActionView::Respond {
                response: ResponseView::Error { message: second.causes[0] },
            })
        }),
{
}

/// A check-in that succeeds recovers the token, carries out the plan for the monitors that can be
/// checked in, saves, commits and answers which they were. Of what is durable only the monitors
/// change, and the lifecycle does not.
pub proof fn successful_checkins_change_only_monitors(
    owner: OwnerView,
    inputs: InputsView,
    serial: Option<String>,
    outcome: ExecutionOutcomeView,
)
    requires
        checkin::refusal(
            inputs.missing.len() == 0,
            owner.persisted.known_monitors,
            serial.deep_view(),
        ) is None,
        checkin::forced_entries(owner.persisted.known_monitors, serial.deep_view()).len() > 0,
    ensures
        ({
            let command = match serial {
                Some(serial) => ServiceCommand::CheckinSerial { serial },
                None => ServiceCommand::CheckinAll,
            };
            let monitors = owner.persisted.known_monitors;
            let plan = checkin::forced_plan(
                monitors,
                serial.deep_view(),
                owner.settings.checkin_status_id,
            );
            let accepted = begun(owner, command, inputs);
            let executing = resumed(accepted.0, OwnerEventView::Decrypted);
            let saving = resumed(executing.0, OwnerEventView::Executed { outcome });
            let committing = resumed(saving.0, OwnerEventView::StateSaved);
            let done = resumed(committing.0, OwnerEventView::Committed);
            let saved = StateView { known_monitors: outcome.next_monitors, ..owner.persisted };
            &&& accepted.1 == (OwnerActionView::Decrypt {
                ciphertext: owner.settings.api_token_encrypted,
            })
            &&& executing.1 == (OwnerActionView::Execute {
                plan,
                computer_asset_id: None,
                candidate: StateView { known_monitors: plan.next_monitors, ..owner.persisted },
            })
            &&& saving.1 == (OwnerActionView::SaveState { state: saved })
            &&& committing.1 == (OwnerActionView::Commit {
                operation_ids: outcome.confirmed_operations,
            })
            &&& done.1 == (OwnerActionView::Respond {
                response: ResponseView::CheckinResult {
                    checked_in: checkin::forced_entries(monitors, serial.deep_view()),
                },
            })
            &&& done.0 == (OwnerView {
                settings: owner.settings,
                state: owner.state,
                persisted: saved,
                work: WorkView::Ready,
            })
        }),
{
}

/// A check-in that is refused, or that fails before its state is saved, changes nothing; the caller
/// is told why. When there is nothing to check in, that is the answer.
pub proof fn unsuccessful_checkins_change_nothing(
    owner: OwnerView,
    inputs: InputsView,
    serial: String,
    failure: FailureView,
)
    ensures
        ({
            let idle = OwnerView { work: WorkView::Ready, ..owner };
            let configured = inputs.missing.len() == 0;
            let monitors = owner.persisted.known_monitors;
            let refusal = checkin::refusal(configured, monitors, Some(serial@));
            let one = begun(owner, ServiceCommand::CheckinSerial { serial }, inputs);
            let all = begun(owner, ServiceCommand::CheckinAll, inputs);
            let planned = resumed(all.0, OwnerEventView::Decrypted);
            let failed = resumed(owner, OwnerEventView::Failed { failure });
            let concerned = match owner.work {
                WorkView::Decrypting { task } => task is Checkin,
                WorkView::Executing { task, .. } => task is Checkin,
                WorkView::SavingState { task, .. } => task is Checkin,
                _ => false,
            };
            &&& refusal is Some ==> one == (
                idle,
                OwnerActionView::Respond {
                    response: ResponseView::Error { message: refusal->0 },
                },
            )
            &&& configured && checkin::forced_entries(monitors, None).len() == 0 ==> planned == (
                idle,
                OwnerActionView::Respond {
                    response: ResponseView::CheckinResult { checked_in: Seq::empty() },
                },
            )
            &&& concerned ==> failed.0 == idle && (failure.causes.len() > 0 ==> failed.1 == (
            OwnerActionView::Respond {
                response: ResponseView::Error { message: failure.causes[0] },
            }))
        }),
{
    let monitors = owner.persisted.known_monitors;
    checkin::requests_are_accepted_where_possible(inputs.missing.len() == 0, monitors, Seq::empty());
    let entries = checkin::forced_entries(monitors, None);
    if entries.len() == 0 {
        assert(entries =~= Seq::<CheckinEntryView>::empty());
    }
}

/// Without what it needs, the service neither synchronizes nor checks in: it says so and stays as it
/// is.
pub proof fn unconfigured_owners_refuse_work(
    owner: OwnerView,
    command: ServiceCommand,
    inputs: InputsView,
)
    requires
        inputs.missing.len() > 0,
        command is TriggerSync || command is CheckinAll || command is CheckinSerial,
    ensures
        begun(owner, command, inputs) == (
            OwnerView { work: WorkView::Ready, ..owner },
            OwnerActionView::Respond {
                response: ResponseView::Error { message: "service is not configured"@ },
            },
        ),
{
}

/// A change of the settings takes effect once it is saved, and not before: a service that is
/// configured with it builds its client first, and replaces it; the scheduler is given the new
/// interval. A change that is not valid, or that fails on its way, changes nothing.
pub proof fn settings_change_once_saved(
    owner: OwnerView,
    inputs: InputsView,
    field: String,
    value: String,
    failure: FailureView,
)
    ensures
        ({
            let idle = OwnerView { work: WorkView::Ready, ..owner };
            let begin = begun(owner, ServiceCommand::SetConfig { field, value }, inputs);
            let built = resumed(begin.0, OwnerEventView::RemoteBuilt);
            match inputs.update {
                Err(message) => begin == (
                    idle,
                    OwnerActionView::Respond { response: ResponseView::Error { message } },
                ),
                Ok((settings, configured)) => {
                    let saving = if configured {
                        built
                    } else {
                        begin
                    };
                    let saved = resumed(saving.0, OwnerEventView::SettingsSaved);
                    &&& configured ==> begin.1 == (OwnerActionView::BuildRemote { settings })
                    &&& saving.1 == (OwnerActionView::SaveSettings { settings })
                    &&& begin.0.settings == owner.settings
                    &&& saving.0.settings == owner.settings
                    &&& saved.1 == (OwnerActionView::Adopt {
                        polling_hours: Some(settings.interval_hours),
                        replace_remote: configured,
                        response: ResponseView::Done { message: "updated "@ + field@ },
                    })
                    &&& saved.0 == (OwnerView {
                        settings,
                        state: if configured {
                            FsmState::Idle
                        } else {
                            FsmState::Unconfigured
                        },
                        persisted: owner.persisted,
                        work: WorkView::Ready,
                    })
                    &&& resumed(begin.0, OwnerEventView::Failed { failure }).0 == idle
                    &&& resumed(saving.0, OwnerEventView::Failed { failure }).0 == idle
                },
            }
        }),
{
}

/// A token that is set is protected, and stands in the settings in place of the old one once they
/// are saved; nothing else in them changes, and the schedule stays. An empty token is refused, and a
/// failure on the way changes nothing.
pub proof fn tokens_change_once_saved(
    owner: OwnerView,
    inputs: InputsView,
    value: String,
    ciphertext: Seq<u8>,
    configured: bool,
    failure: FailureView,
)
    ensures
        ({
            let idle = OwnerView { work: WorkView::Ready, ..owner };
            let begin = begun(owner, ServiceCommand::SetToken { value }, inputs);
            let protected = resumed(
                begin.0,
                OwnerEventView::Encrypted { ciphertext, configured },
            );
            let saving = if configured {
                resumed(protected.0, OwnerEventView::RemoteBuilt)
            } else {
                protected
            };
            let saved = resumed(saving.0, OwnerEventView::SettingsSaved);
            let settings = SettingsView { api_token_encrypted: ciphertext, ..owner.settings };
            &&& value@.len() == 0 ==> begin == (
                idle,
                OwnerActionView::Respond {
                    response: ResponseView::Error { message: "API token must not be empty"@ },
                },
            )
            &&& value@.len() > 0 ==> {
                &&& begin.1 == (OwnerActionView::Encrypt { plaintext: value@ })
                &&& configured ==> protected.1 == (OwnerActionView::BuildRemote { settings })
                &&& saving.1 == (OwnerActionView::SaveSettings { settings })
                &&& saved.1 == (OwnerActionView::Adopt {
                    polling_hours: None,
                    replace_remote: configured,
                    response: ResponseView::Done { message: "API token updated"@ },
                })
                &&& saved.0.settings == settings
                &&& saved.0.persisted == owner.persisted
                &&& saved.0.state == if configured {
                    FsmState::Idle
                } else {
                    FsmState::Unconfigured
                }
                &&& saved.0.work is Ready
                &&& resumed(begin.0, OwnerEventView::Failed { failure }).0 == idle
                &&& resumed(protected.0, OwnerEventView::Failed { failure }).0 == idle
                &&& resumed(saving.0, OwnerEventView::Failed { failure }).0 == idle
                &&& resumed(begin.0, OwnerEventView::Failed { failure }).1 == (
                OwnerActionView::Respond {
                    response: ResponseView::Error { message: "failed to encrypt API token"@ },
                })
            }
        }),
{
}

/// Questions are answered at once, from what is there, and change nothing. The settings are shown
/// without the token, and otherwise as they are.
pub proof fn questions_change_nothing(owner: OwnerView, inputs: InputsView)
    ensures
        ({
            let idle = OwnerView { work: WorkView::Ready, ..owner };
            let config = begun(owner, ServiceCommand::GetConfig, inputs);
            let brief = begun(owner, ServiceCommand::GetStatus, inputs);
            let full = begun(owner, ServiceCommand::GetStatusFull, inputs);
            &&& config == (
                idle,
                OwnerActionView::Respond {
                    response: ResponseView::Config {
                        settings: SettingsView {
                            api_token_encrypted: Seq::empty(),
                            ..owner.settings
                        },
                        missing: inputs.missing,
                    },
                },
            )
            &&& brief.0 == idle
            &&& full.0 == idle
            &&& brief.1 == (OwnerActionView::Respond {
                response: ResponseView::Status {
                    state: lifecycle::state_name(owner.state),
                    last_sync: owner.persisted.last_sync_time,
                    next_sync: None,
                    snipeit_url: owner.settings.url,
                },
            })
            &&& full.1 is Respond && full.1->Respond_response is StatusFull
            &&& full.1->Respond_response->StatusFull_state == lifecycle::state_name(owner.state)
            &&& full.1->Respond_response->StatusFull_last_sync == owner.persisted.last_sync_time
            &&& full.1->Respond_response->StatusFull_snipeit_url == owner.settings.url
            &&& full.1->Respond_response->matched_asset == owner.persisted.matched_asset
            &&& full.1->Respond_response->monitors.len() == owner.persisted.known_monitors.len()
        }),
{
}

/// When the state is saved but the journal cannot be told, what was saved stays, the caller is told
/// of it, and a synchronization leaves the service in error.
pub proof fn failed_commits_keep_the_saved_state(owner: OwnerView, failure: FailureView)
    requires
        owner.work is Committing,
        failure.causes.len() > 0,
    ensures
        ({
            let (next, action) = resumed(owner, OwnerEventView::Failed { failure });
            &&& next.persisted == owner.persisted
            &&& next.settings == owner.settings
            &&& next.work is Ready
            &&& owner.work->Committing_task is Sync ==> next.state == FsmState::Error
            &&& owner.work->Committing_task is Checkin ==> next.state == owner.state
            &&& action == (OwnerActionView::Respond {
                response: ResponseView::Error {
                    message: "state candidate saved but journal commit failed: "@
                        + failure.causes[0],
                },
            })
        }),
{
}

/// An event that nothing asked for is ignored.
pub proof fn unexpected_events_are_ignored(owner: OwnerView, event: OwnerEventView)
    requires
        !(event is Failed) || owner.work is Ready,
        !(owner.work is Encrypting && event is Encrypted),
        !(owner.work is Building && event is RemoteBuilt),
        !(owner.work is SavingSettings && event is SettingsSaved),
        !(owner.work is Decrypting && event is Decrypted),
        !(owner.work is Planning && event is Planned),
        !(owner.work is Executing && event is Executed),
        !(owner.work is SavingState && event is StateSaved),
        !(owner.work is Committing && event is Committed),
        !(owner.work is SavingFailure && event is StateSaved),
    ensures
        resumed(owner, event) == (owner, OwnerActionView::Ignore),
{
}

} // verus!
