//! Snapshots of what the service reports, and their projection into status responses.

use vstd::prelude::*;

use crate::config;
use crate::config::Settings;
use crate::instant;
use crate::ipc::IpcResponse;
use crate::ipc::MonitorStatus;
use crate::ipc::MonitorStatusView;
use crate::ipc::ResponseView;
use crate::lifecycle;
use crate::lifecycle::FsmState;
use crate::model::AssetSummary;
use crate::model::AssetSummaryView;
use crate::model::Duplicate;
use crate::model::MonitorSyncEntry;
use crate::model::MonitorView;
use crate::model::ServiceState;
use crate::model::StateView;
use crate::model::Timestamp;
use crate::snapshot;

verus! {

/// The text of an instant that may be missing.
pub open spec fn optional_instant_text(instant: Option<Timestamp>) -> Option<Seq<char>> {
    match instant {
        Some(instant) => Some(instant::offset_text(instant.seconds, instant.nanos)),
        None => None,
    }
}

/// What a client learns of a monitor.
pub open spec fn monitor_status(monitor: MonitorView) -> MonitorStatusView {
    MonitorStatusView {
        serial: monitor.serial,
        asset_id: monitor.snipeit_asset_id,
        checked_out: monitor.checked_out,
        absent_since: optional_instant_text(monitor.absent_since),
    }
}

/// What a client learns of the monitors, in order.
pub open spec fn monitor_statuses(monitors: Seq<MonitorView>) -> Seq<MonitorStatusView> {
    Seq::new(monitors.len(), |i: int| monitor_status(monitors[i]))
}

/// Lists what a client learns of the monitors.
pub fn report_monitors(monitors: &Vec<MonitorSyncEntry>) -> (statuses: Vec<MonitorStatus>)
    requires
        snapshot::valid_monitors(monitors.deep_view()),
    ensures
        statuses.deep_view() == monitor_statuses(monitors.deep_view()),
{
    let mut statuses: Vec<MonitorStatus> = Vec::new();
    let mut index: usize = 0;
    while index < monitors.len()
        invariant
            index <= monitors@.len(),
            statuses@.len() == index,
            snapshot::valid_monitors(monitors.deep_view()),
            forall|i: int|
                0 <= i < index ==> (#[trigger] statuses@[i]).deep_view() == monitor_status(
                    monitors@[i].deep_view(),
                ),
        decreases monitors.len() - index,
    {
        let monitor = &monitors[index];
        proof {
            assert(snapshot::valid_monitor(monitors.deep_view()[index as int]));
        }
        let absent_since = match monitor.absent_since {
            Some(moment) => Some(instant::to_rfc3339(moment)),
            None => None,
        };
        statuses.push(
            MonitorStatus {
                serial: monitor.serial.clone(),
                asset_id: monitor.snipeit_asset_id,
                checked_out: monitor.checked_out,
                absent_since,
            },
        );
        index += 1;
    }
    proof {
        assert(statuses.deep_view() =~= monitor_statuses(monitors.deep_view()));
    }
    statuses
}

/// The status of a service, read off its persisted state.
pub open spec fn projected_status(
    state: FsmState,
    settings: config::SettingsView,
    persisted: StateView,
    full: bool,
) -> ResponseView {
    if full {
        ResponseView::StatusFull {
            state: lifecycle::state_name(state),
            last_sync: persisted.last_sync_time,
            next_sync: None,
            snipeit_url: settings.url,
            matched_asset: persisted.matched_asset,
            monitors: monitor_statuses(persisted.known_monitors),
        }
    } else {
        ResponseView::Status {
            state: lifecycle::state_name(state),
            last_sync: persisted.last_sync_time,
            next_sync: None,
            snipeit_url: settings.url,
        }
    }
}

/// Projects the persisted state into a status response.
pub fn service_status_projection(
    state: FsmState,
    settings: &Settings,
    persisted: &ServiceState,
    full: bool,
) -> (response: IpcResponse)
    requires
        snapshot::valid_monitors(persisted.deep_view().known_monitors),
    ensures
        response.deep_view() == projected_status(
            state,
            settings.deep_view(),
            persisted.deep_view(),
            full,
        ),
{
    if !full {
        return IpcResponse::Status {
            state: state.name(),
            last_sync: persisted.last_sync_time.duplicate(),
            next_sync: None,
            snipeit_url: settings.snipeit.url.clone(),
        };
    }
    IpcResponse::StatusFull {
        state: state.name(),
        last_sync: persisted.last_sync_time.duplicate(),
        next_sync: None,
        snipeit_url: settings.snipeit.url.clone(),
        matched_asset: persisted.matched_asset.duplicate(),
        monitors: report_monitors(&persisted.known_monitors),
    }
}

/// What the service makes public: committed data and its state, without any secret.
#[derive(Clone, Debug, PartialEq, Eq)]
pub struct PublicStatusSnapshot {
    pub state: String,
    pub last_sync: Option<String>,
    pub snipeit_url: String,
    pub matched_asset: Option<AssetSummary>,
    pub monitors: Vec<MonitorStatus>,
    pub configured: bool,
    pub config_generation: u64,
}

/// The deep view of a [`PublicStatusSnapshot`].
#[verifier::ext_equal]
pub struct PublicStatusView {
    pub state: Seq<char>,
    pub last_sync: Option<Seq<char>>,
    pub snipeit_url: Seq<char>,
    pub matched_asset: Option<AssetSummaryView>,
    pub monitors: Seq<MonitorStatusView>,
    pub configured: bool,
    pub config_generation: u64,
}

impl DeepView for PublicStatusSnapshot {
    type V = PublicStatusView;

    open spec fn deep_view(&self) -> PublicStatusView {
        PublicStatusView {
            state: self.state@,
            last_sync: self.last_sync.deep_view(),
            snipeit_url: self.snipeit_url@,
            matched_asset: self.matched_asset.deep_view(),
            monitors: self.monitors.deep_view(),
            configured: self.configured,
            config_generation: self.config_generation,
        }
    }
}

/// The next automatic synchronization, with the configuration generation that it was planned for.
#[derive(Clone, Debug, PartialEq, Eq)]
pub struct ScheduleSnapshot {
    pub config_generation: u64,
    pub next_sync: Option<String>,
}

/// The snapshot of committed state and the settings that are not secret.
pub open spec fn public_status(
    state: Seq<char>,
    snipeit_url: Seq<char>,
    configured: bool,
    config_generation: u64,
    persisted: StateView,
) -> PublicStatusView {
    PublicStatusView {
        state,
        last_sync: persisted.last_sync_time,
        snipeit_url,
        matched_asset: persisted.matched_asset,
        monitors: monitor_statuses(persisted.known_monitors),
        configured,
        config_generation,
    }
}

impl PublicStatusSnapshot {
    /// Builds a snapshot.
    pub fn from_parts(
        state: String,
        snipeit_url: String,
        configured: bool,
        config_generation: u64,
        persisted: &ServiceState,
    ) -> (status: Self)
        requires
            snapshot::valid_monitors(persisted.deep_view().known_monitors),
        ensures
            status.deep_view() == public_status(
                state@,
                snipeit_url@,
                configured,
                config_generation,
                persisted.deep_view(),
            ),
    {
        PublicStatusSnapshot {
            state,
            last_sync: persisted.last_sync_time.duplicate(),
            snipeit_url,
            matched_asset: persisted.matched_asset.duplicate(),
            monitors: report_monitors(&persisted.known_monitors),
            configured,
            config_generation,
        }
    }
}

/// The next synchronization that may be reported: one that was planned for the configuration that
/// the status reports.
pub open spec fn reported_next_sync(
    status: PublicStatusView,
    schedule_generation: u64,
    next_sync: Option<Seq<char>>,
) -> Option<Seq<char>> {
    if status.configured && status.config_generation == schedule_generation {
        next_sync
    } else {
        None
    }
}

/// The response that a snapshot and a schedule make.
pub open spec fn snapshot_response(
    status: PublicStatusView,
    schedule_generation: u64,
    next_sync: Option<Seq<char>>,
    full: bool,
) -> ResponseView {
    let next = reported_next_sync(status, schedule_generation, next_sync);
    if full {
        ResponseView::StatusFull {
            state: status.state,
            last_sync: status.last_sync,
            next_sync: next,
            snipeit_url: status.snipeit_url,
            matched_asset: status.matched_asset,
            monitors: status.monitors,
        }
    } else {
        ResponseView::Status {
            state: status.state,
            last_sync: status.last_sync,
            next_sync: next,
            snipeit_url: status.snipeit_url,
        }
    }
}

/// Projects a snapshot and a schedule into a status response.
pub fn project_status(
    status: &PublicStatusSnapshot,
    schedule: &ScheduleSnapshot,
    full: bool,
) -> (response: IpcResponse)
    ensures
        response.deep_view() == snapshot_response(
            status.deep_view(),
            schedule.config_generation,
            schedule.next_sync.deep_view(),
            full,
        ),
{
    let next_sync = if status.configured && status.config_generation
        == schedule.config_generation {
        schedule.next_sync.duplicate()
    } else {
        None
    };
    if full {
        IpcResponse::StatusFull {
            state: status.state.clone(),
            last_sync: status.last_sync.duplicate(),
            next_sync,
            snipeit_url: status.snipeit_url.clone(),
            matched_asset: status.matched_asset.duplicate(),
            monitors: status.monitors.duplicate(),
        }
    } else {
        IpcResponse::Status {
            state: status.state.clone(),
            last_sync: status.last_sync.duplicate(),
            next_sync,
            snipeit_url: status.snipeit_url.clone(),
        }
    }
}

/// Neither a schedule of another configuration nor the schedule of a service that is not
/// configured is ever reported.
pub proof fn stale_schedules_are_not_reported(
    status: PublicStatusView,
    schedule_generation: u64,
    next_sync: Option<Seq<char>>,
    full: bool,
)
    requires
        !status.configured || status.config_generation != schedule_generation,
    ensures
        match snapshot_response(status, schedule_generation, next_sync, full) {
            ResponseView::Status { next_sync, .. } => next_sync is None,
            ResponseView::StatusFull { next_sync, .. } => next_sync is None,
            _ => false,
        },
{
}

// ---------------------------------------------------------------------------------------------
// Publication
// ---------------------------------------------------------------------------------------------

/// What the scheduler has to know of the active configuration.
#[derive(Clone, Copy, Debug, PartialEq, Eq, Structural)]
pub struct ScheduleInput {
    pub configured: bool,
    /// The interval between synchronizations, in seconds.
    pub interval: u64,
    pub generation: u64,
}

/// The single writer of the published status and of the scheduler's input.
#[derive(Debug, PartialEq, Eq)]
pub struct StatusPublisher {
    pub status: PublicStatusSnapshot,
    pub schedule: ScheduleInput,
    pub generation: u64,
}

/// Whether the scheduler's input belongs to the current generation.
pub open spec fn publisher_consistent(publisher: StatusPublisher) -> bool {
    publisher.schedule.generation == publisher.generation
}

impl StatusPublisher {
    /// Starts without a configuration.
    pub fn new() -> (publisher: Self)
        ensures
            publisher_consistent(publisher),
            publisher.generation == 0,
            publisher.schedule == (ScheduleInput { configured: false, interval: 0, generation: 0 }),
            publisher.status.deep_view() == (PublicStatusView {
                state: "Unconfigured"@,
                last_sync: None,
                snipeit_url: Seq::empty(),
                matched_asset: None,
                monitors: Seq::empty(),
                configured: false,
                config_generation: 0,
            }),
    {
        let status = PublicStatusSnapshot {
            state: "Unconfigured".to_owned(),
            last_sync: None,
            snipeit_url: String::new(),
            matched_asset: None,
            monitors: Vec::new(),
            configured: false,
            config_generation: 0,
        };
        proof {
            assert(status.monitors.deep_view() =~= Seq::empty());
            assert(status.snipeit_url@ =~= Seq::empty());
        }
        StatusPublisher {
            status,
            schedule: ScheduleInput { configured: false, interval: 0, generation: 0 },
            generation: 0,
        }
    }

    /// Publishes committed state. The configuration generation stays.
    pub fn publish(
        &mut self,
        state: String,
        snipeit_url: String,
        configured: bool,
        persisted: &ServiceState,
    )
        requires
            snapshot::valid_monitors(persisted.deep_view().known_monitors),
        ensures
            final(self).status.deep_view() == public_status(
                state@,
                snipeit_url@,
                configured,
                old(self).generation,
                persisted.deep_view(),
            ),
            final(self).schedule == old(self).schedule,
            final(self).generation == old(self).generation,
    {
        self.status =
        PublicStatusSnapshot::from_parts(
            state,
            snipeit_url,
            configured,
            self.generation,
            persisted,
        );
    }

    /// Begins the next configuration generation and hands it to the scheduler.
    pub fn activate_configuration(&mut self, configured: bool, interval: u64) -> (generation: u64)
        requires
            old(self).generation < u64::MAX,
        ensures
            generation == old(self).generation + 1,
            final(self).generation == generation,
            final(self).schedule == (ScheduleInput { configured, interval, generation }),
            final(self).status == old(self).status,
            publisher_consistent(*final(self)),
    {
        self.generation = self.generation + 1;
        self.schedule = ScheduleInput { configured, interval, generation: self.generation };
        self.generation
    }

    /// Begins the first configuration generation from the settings that were loaded, and
    /// publishes the state that was.
    pub fn publish_startup_activation(
        &mut self,
        configured: bool,
        snipeit_url: String,
        interval: u64,
        persisted: &ServiceState,
    )
        requires
            old(self).generation < u64::MAX,
            snapshot::valid_monitors(persisted.deep_view().known_monitors),
        ensures
            final(self).generation == old(self).generation + 1,
            final(self).schedule == (ScheduleInput {
                configured,
                interval,
                generation: final(self).generation,
            }),
            final(self).status.deep_view() == public_status(
                lifecycle::state_name(lifecycle::resting_state(configured)),
                snipeit_url@,
                configured,
                final(self).generation,
                persisted.deep_view(),
            ),
            publisher_consistent(*final(self)),
    {
        let _generation: u64 = self.activate_configuration(configured, interval);
        let state = lifecycle::configuration_state(configured).name();
        self.publish(state, snipeit_url, configured, persisted);
    }
}

/// A status report says of every monitor, in order, what is known of it: its serial, its asset,
/// whether it is checked out, and since when it is absent, if it is.
pub proof fn reports_cover_every_monitor(monitors: Seq<MonitorView>, index: int)
    ensures
        monitor_statuses(monitors).len() == monitors.len(),
        0 <= index < monitors.len() ==> {
            let report = monitor_statuses(monitors)[index];
            let monitor = monitors[index];
            &&& report.serial == monitor.serial
            &&& report.asset_id == monitor.snipeit_asset_id
            &&& report.checked_out == monitor.checked_out
            &&& report.absent_since is Some <==> monitor.absent_since is Some
            &&& monitor.absent_since is Some ==> report.absent_since == Some(
                instant::offset_text(
                    monitor.absent_since->0.seconds,
                    monitor.absent_since->0.nanos,
                ),
            )
        },
{
}

/// A schedule that belongs to the active configuration is reported. A full report says what a brief
/// one says, and the matched asset and the monitors as published.
pub proof fn current_schedules_are_reported(
    status: PublicStatusView,
    schedule_generation: u64,
    next_sync: Option<Seq<char>>,
)
    ensures
        ({
            let brief = snapshot_response(status, schedule_generation, next_sync, false);
            let full = snapshot_response(status, schedule_generation, next_sync, true);
            &&& brief is Status
            &&& full is StatusFull
            &&& status.configured && status.config_generation == schedule_generation
                ==> brief->Status_next_sync == next_sync
            &&& brief->Status_state == status.state
            &&& brief->Status_last_sync == status.last_sync
            &&& brief->Status_snipeit_url == status.snipeit_url
            &&& full->StatusFull_state == brief->Status_state
            &&& full->StatusFull_last_sync == brief->Status_last_sync
            &&& full->StatusFull_next_sync == brief->Status_next_sync
            &&& full->StatusFull_snipeit_url == brief->Status_snipeit_url
            &&& full->matched_asset == status.matched_asset
            &&& full->monitors == status.monitors
        }),
{
}

/// What is published of a state is what a report that is made from the state itself says, but for
/// the schedule, which only the publication knows.
pub proof fn publications_agree_with_the_state(
    state: FsmState,
    settings: config::SettingsView,
    persisted: StateView,
    configured: bool,
    generation: u64,
    full: bool,
)
    ensures
        ({
            let published = public_status(
                lifecycle::state_name(state),
                settings.url,
                configured,
                generation,
                persisted,
            );
            &&& snapshot_response(published, generation, None, full) == projected_status(
                state,
                settings,
                persisted,
                full,
            )
            &&& published.configured == configured
            &&& published.config_generation == generation
            &&& published.last_sync == persisted.last_sync_time
            &&& published.matched_asset == persisted.matched_asset
            &&& published.monitors.len() == persisted.known_monitors.len()
        }),
{
}

} // verus!
