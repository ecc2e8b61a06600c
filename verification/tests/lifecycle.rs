use snipespotter::config::{LoggingSettings, PollingSettings, Settings, SnipeItSettings};
use snipespotter::json::Json;
use snipespotter::ipc::{IpcResponse, ServiceCommand};
use snipespotter::lifecycle::{
    configuration_state, pending_operations, transition, FsmState, JournalRecord,
    ServiceController, SyncFailure,
};
use snipespotter::model::{AssetSummary, MonitorSyncEntry, ServiceState, Timestamp};
use snipespotter::status::service_status_projection;

fn settings(url: &str) -> Settings {
    Settings {
        snipeit: SnipeItSettings {
            url: url.to_owned(),
            api_token_encrypted: Vec::new(),
            checkout_status_id: 2,
            checkin_status_id: 1,
        },
        polling: PollingSettings { interval_hours: 4 },
        logging: LoggingSettings {
            level: "info".to_owned(),
            max_files: 7,
        },
        monitors: Json::Null,
    }
}

#[test]
fn lifecycle_and_auth_failure() {
    assert_eq!(
        transition(FsmState::Bootstrap, false, None),
        FsmState::LoadConfig
    );
    assert_eq!(
        transition(FsmState::LoadConfig, false, None),
        FsmState::Unconfigured
    );
    assert_eq!(
        transition(
            FsmState::Syncing,
            true,
            Some(Err(SyncFailure::Authentication))
        ),
        FsmState::Unconfigured
    );
}

#[test]
fn the_other_transitions_lead_where_they_should() {
    assert_eq!(transition(FsmState::LoadConfig, true, None), FsmState::Decrypt);
    assert_eq!(
        transition(FsmState::Decrypt, true, None),
        FsmState::ValidateConfig
    );
    assert_eq!(transition(FsmState::ValidateConfig, true, None), FsmState::Idle);
    assert_eq!(
        transition(FsmState::Syncing, true, Some(Ok(()))),
        FsmState::Idle
    );
    assert_eq!(
        transition(FsmState::Syncing, true, Some(Err(SyncFailure::Transient))),
        FsmState::Error
    );
    assert_eq!(
        transition(FsmState::Syncing, true, Some(Err(SyncFailure::Permission))),
        FsmState::Unconfigured
    );
    assert_eq!(configuration_state(true), FsmState::Idle);
    assert_eq!(configuration_state(false), FsmState::Unconfigured);
}

#[test]
fn duplicate_sync_coalesces() {
    let mut controller = ServiceController::new(settings(""));
    assert!(matches!(
        controller.handle(&ServiceCommand::TriggerSync, Vec::new()),
        IpcResponse::Done { .. }
    ));
    assert!(
        matches!(controller.handle(&ServiceCommand::TriggerSync, Vec::new()), IpcResponse::Done { message } if message.contains("already"))
    );
    assert!(controller.take_sync_request());
    assert!(!controller.take_sync_request());
}

#[test]
fn service_status_projection_preserves_persisted_full_status() {
    let seen = Timestamp {
        seconds: 1_767_225_600,
        nanos: 0,
    };
    let settings = settings("https://example.test");
    let persisted = ServiceState {
        last_sync_time: Some(String::from("2026-01-01T00:00:00Z")),
        matched_asset: Some(AssetSummary {
            id: 7,
            name: String::from("computer"),
            serial: Some(String::from("SYS")),
            asset_tag: None,
        }),
        known_monitors: vec![MonitorSyncEntry {
            serial: String::from("MON"),
            snipeit_asset_id: Some(8),
            last_seen: seen,
            absent_since: None,
            checked_out: true,
        }],
        ..ServiceState::default()
    };
    let response = service_status_projection(FsmState::Idle, &settings, &persisted, true);
    assert!(matches!(response, IpcResponse::StatusFull { .. }));
    if let IpcResponse::StatusFull {
        state,
        matched_asset,
        monitors,
        ..
    } = response
    {
        assert_eq!(state, "Idle");
        assert_eq!(matched_asset.map(|asset| asset.id), Some(7));
        assert_eq!(monitors.len(), 1);
        assert_eq!(monitors[0].asset_id, Some(8));
        assert!(monitors[0].checked_out);
    }
}

#[test]
fn absences_are_reported_as_instants() {
    let instant = Timestamp {
        seconds: 1_767_225_600,
        nanos: 0,
    };
    let persisted = ServiceState {
        known_monitors: vec![MonitorSyncEntry {
            serial: String::from("MON"),
            snipeit_asset_id: None,
            last_seen: instant,
            absent_since: Some(instant),
            checked_out: false,
        }],
        ..ServiceState::default()
    };
    let response = service_status_projection(FsmState::Error, &settings("u"), &persisted, true);
    if let IpcResponse::StatusFull { monitors, state, .. } = response {
        assert_eq!(state, "Error");
        assert_eq!(
            monitors[0].absent_since.as_deref(),
            Some("2026-01-01T00:00:00+00:00")
        );
    } else {
        panic!("a full status was asked for");
    }
}

#[test]
fn journal_recovery_is_deterministic() {
    let records = vec![
        JournalRecord::Prepared {
            operation_id: String::from("b"),
        },
        JournalRecord::Prepared {
            operation_id: String::from("a"),
        },
        JournalRecord::Confirmed {
            operation_id: String::from("b"),
        },
    ];
    assert_eq!(pending_operations(&records), vec![String::from("a")]);
}

#[test]
fn pending_operations_come_in_order_and_once() {
    let prepared = |id: &str| JournalRecord::Prepared {
        operation_id: id.to_owned(),
    };
    let records = vec![prepared("c"), prepared("a"), prepared("c"), prepared("b")];
    assert_eq!(pending_operations(&records), vec!["a", "b", "c"]);
}
