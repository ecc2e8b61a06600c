use snipespotter::client::{NetworkErrorKind, SnipeItError};
use snipespotter::config::{
    decrypt_config, redact_settings, with_token, InvalidToken, LoggingSettings, PollingSettings,
    Settings, SnipeItSettings,
};
use snipespotter::evidence::Operation;
use snipespotter::failure::{state_after_sync_error, Failure};
use snipespotter::ipc::{CheckinEntry, IpcResponse, ServiceCommand};
use snipespotter::journal::{commit_after_state_save, pending_with_evidence, JournalRecord};
use snipespotter::json::{get_text, Json};
use snipespotter::lifecycle::FsmState;
use snipespotter::model::{
    AssetSummary, MonitorSyncEntry, MonitorSyncState, ServiceState, SyncPlan, SyncResult,
    Timestamp,
};
use snipespotter::owner::{
    CommandInputs, CommandOwner, OwnerAction, OwnerEvent, SettingsUpdate, Work,
};
use snipespotter::snapshot::read_state;
use snipespotter::startup::{recover_pending, StartupAction, StartupEvent};
use snipespotter::sync_engine::{
    execute_plan_with_candidate, ExecutionAction, ExecutionEvent, ExecutionOutcome,
};

const EPOCH: Timestamp = Timestamp {
    seconds: 0,
    nanos: 0,
};
const NOW: Timestamp = Timestamp {
    seconds: 1_767_225_600,
    nanos: 0,
};

fn settings(url: &str, token: Vec<u8>) -> Settings {
    Settings {
        snipeit: SnipeItSettings {
            url: url.to_owned(),
            api_token_encrypted: token,
            checkout_status_id: 1,
            checkin_status_id: 2,
        },
        polling: PollingSettings { interval_hours: 4 },
        logging: LoggingSettings {
            level: "info".to_owned(),
            max_files: 7,
        },
        monitors: Json::Null,
    }
}

fn checkin_settings() -> Settings {
    settings("https://example.test", vec![0x42])
}

fn monitor_entry(
    serial: &str,
    snipeit_asset_id: Option<u64>,
    absent_since: Option<Timestamp>,
    checked_out: bool,
) -> MonitorSyncEntry {
    MonitorSyncEntry {
        serial: serial.to_owned(),
        snipeit_asset_id,
        last_seen: EPOCH,
        absent_since,
        checked_out,
    }
}

fn single_monitor_state(
    serial: &str,
    snipeit_asset_id: Option<u64>,
    absent_since: Option<Timestamp>,
    checked_out: bool,
) -> ServiceState {
    ServiceState {
        known_monitors: vec![monitor_entry(
            serial,
            snipeit_asset_id,
            absent_since,
            checked_out,
        )],
        ..ServiceState::default()
    }
}

/// An owner and the world around it.
struct World {
    owner: CommandOwner,
    records: Vec<JournalRecord>,
    encrypted: Vec<String>,
    decrypted: usize,
    saved_settings: Vec<Settings>,
    saved_states: Vec<ServiceState>,
    checkins: Vec<(u64, u64)>,
    built: usize,
    ciphertext: Vec<u8>,
    planned: Option<Result<(SyncPlan, Vec<String>), Failure>>,
    fail_settings: bool,
    fail_state: bool,
    fail_commit: bool,
    fail_build: bool,
}

impl World {
    fn new(settings: Settings, configured: bool, persisted: ServiceState) -> World {
        World {
            owner: CommandOwner::new(settings, configured, persisted),
            records: Vec::new(),
            encrypted: Vec::new(),
            decrypted: 0,
            saved_settings: Vec::new(),
            saved_states: Vec::new(),
            checkins: Vec::new(),
            built: 0,
            ciphertext: vec![0xAA, 0x55],
            planned: None,
            fail_settings: false,
            fail_state: false,
            fail_commit: false,
            fail_build: false,
        }
    }

    fn execute(&mut self, plan: SyncPlan, computer: Option<u64>, candidate: &ServiceState) -> ExecutionOutcome {
        let base = self.owner.persisted.clone();
        let mut execution = execute_plan_with_candidate(plan, computer, &base, candidate);
        loop {
            let event = match execution.next_action() {
                ExecutionAction::Append { record } => {
                    self.records.push(record);
                    ExecutionEvent::Appended
                }
                ExecutionAction::Call { operation } => {
                    if let Operation::Checkin(checkin) = &operation {
                        self.checkins
                            .push((checkin.source_asset_id, checkin.request.status_id));
                    }
                    ExecutionEvent::Moved
                }
                ExecutionAction::Finish { outcome } => return outcome,
                ExecutionAction::Stop => panic!("nothing fails here"),
            };
            execution.record_event(event);
        }
    }

    fn perform(&mut self, action: OwnerAction) -> Result<OwnerEvent, IpcResponse> {
        let failed = |cause: &str| OwnerEvent::Failed {
            failure: Failure::of(cause),
        };
        Ok(match action {
            OwnerAction::Encrypt { plaintext } => {
                self.encrypted.push(plaintext);
                OwnerEvent::Encrypted {
                    ciphertext: self.ciphertext.clone(),
                    configured: true,
                }
            }
            OwnerAction::Decrypt { .. } => {
                self.decrypted += 1;
                OwnerEvent::Decrypted
            }
            OwnerAction::BuildRemote { .. } => {
                self.built += 1;
                if self.fail_build {
                    failed("factory failed")
                } else {
                    OwnerEvent::RemoteBuilt
                }
            }
            OwnerAction::SaveSettings { settings } => {
                if self.fail_settings {
                    failed("injected settings save failure")
                } else {
                    self.saved_settings.push(settings);
                    OwnerEvent::SettingsSaved
                }
            }
            OwnerAction::Gather => match self.planned.take().expect("a plan is prepared") {
                Ok((plan, warnings)) => OwnerEvent::Planned {
                    plan,
                    warnings,
                    system_asset: None,
                },
                Err(failure) => OwnerEvent::Failed { failure },
            },
            OwnerAction::Execute {
                plan,
                computer_asset_id,
                candidate,
            } => OwnerEvent::Executed {
                outcome: self.execute(plan, computer_asset_id, &candidate),
            },
            OwnerAction::SaveState { state } => {
                if self.fail_state {
                    failed("injected state save failure")
                } else {
                    self.saved_states.push(state);
                    OwnerEvent::StateSaved
                }
            }
            OwnerAction::Commit { operation_ids } => {
                if self.fail_commit {
                    failed("injected commit failure")
                } else {
                    let commit = commit_after_state_save(&self.records, &operation_ids);
                    self.records = commit.compacted.expect("the phases are in order");
                    OwnerEvent::Committed
                }
            }
            OwnerAction::Adopt { response, .. } | OwnerAction::Respond { response } => {
                return Err(response)
            }
            OwnerAction::Ignore => panic!("every event was asked for"),
        })
    }

    fn request_with(&mut self, command: ServiceCommand, inputs: CommandInputs) -> IpcResponse {
        let mut action = self.owner.handle(command, inputs);
        loop {
            match self.perform(action) {
                Ok(event) => action = self.owner.resume(event),
                Err(response) => {
                    assert_eq!(format!("{:?}", self.owner.work), format!("{:?}", Work::Ready));
                    return response;
                }
            }
        }
    }

    fn request(&mut self, command: ServiceCommand) -> IpcResponse {
        self.request_with(
            command,
            CommandInputs {
                missing: Vec::new(),
                update: Err("no update".to_owned()),
                now: NOW,
            },
        )
    }

    fn set_config(&mut self, updated: Settings, configured: bool) -> IpcResponse {
        self.request_with(
            ServiceCommand::SetConfig {
                field: "snipeit.url".to_owned(),
                value: updated.snipeit.url.clone(),
            },
            CommandInputs {
                missing: Vec::new(),
                update: Ok(SettingsUpdate {
                    settings: updated,
                    configured,
                }),
                now: NOW,
            },
        )
    }

    fn checkin_serial(&mut self, serial: &str) -> IpcResponse {
        self.request(ServiceCommand::CheckinSerial {
            serial: serial.to_owned(),
        })
    }

    fn full_status(&mut self) -> (String, Option<String>, usize, Vec<bool>) {
        match self.request(ServiceCommand::GetStatusFull) {
            IpcResponse::StatusFull {
                state,
                last_sync,
                monitors,
                ..
            } => (
                state,
                last_sync,
                monitors.len(),
                monitors.iter().map(|monitor| monitor.checked_out).collect(),
            ),
            other => panic!("expected full status response: {other:?}"),
        }
    }
}

fn error_message(response: IpcResponse) -> String {
    match response {
        IpcResponse::Error { message } => message,
        other => panic!("expected an error: {other:?}"),
    }
}

fn empty_plan(warnings: Vec<String>) -> SyncPlan {
    SyncPlan {
        asset_update: None,
        monitor_checkouts: Vec::new(),
        monitor_checkins: Vec::new(),
        next_monitor_state: MonitorSyncState {
            entries: Vec::new(),
        },
        warnings,
    }
}

#[test]
fn factory_failure_preserves_active_settings() {
    let original = settings("https://old.example", vec![0x42]);
    let mut world = World::new(original.clone(), true, ServiceState::default());
    world.fail_build = true;
    let response = world.set_config(settings("https://new.example", vec![0x42]), true);
    assert_eq!(error_message(response), "factory failed");
    assert_eq!(world.owner.settings, original);
    assert!(world.saved_settings.is_empty());
}

#[test]
fn set_token_uses_injected_secret_and_settings_ports() {
    let mut world = World::new(settings("", Vec::new()), false, ServiceState::default());
    let response = world.request(ServiceCommand::SetToken {
        value: "test-token".to_owned(),
    });
    assert!(matches!(response, IpcResponse::Done { .. }));
    assert_eq!(world.encrypted, vec!["test-token"]);
    assert_eq!(world.saved_settings.len(), 1);
    assert_eq!(
        world.saved_settings[0].snipeit.api_token_encrypted,
        [0xAA, 0x55]
    );
    assert_eq!(
        world.owner.settings.snipeit.api_token_encrypted,
        [0xAA, 0x55]
    );
}

#[test]
fn classifies_sync_errors_by_typed_cause() {
    let auth = Failure::from_server(SnipeItError::AuthFailure).context("gather failed");
    assert_eq!(state_after_sync_error(&auth), FsmState::Unconfigured);
    let permission = Failure::from_server(SnipeItError::PermissionDenied);
    assert_eq!(state_after_sync_error(&permission), FsmState::Unconfigured);
    let network = Failure::from_server(SnipeItError::NetworkError {
        kind: NetworkErrorKind::Connect,
    });
    assert_eq!(state_after_sync_error(&network), FsmState::Error);
    assert_eq!(
        state_after_sync_error(&Failure::of("discovery failed")),
        FsmState::Error
    );
}

#[test]
fn full_status_uses_persisted_asset_and_monitor_state() {
    let persisted = ServiceState {
        last_sync_time: Some(String::from("2026-01-01T00:00:00Z")),
        matched_asset: Some(AssetSummary {
            id: 7,
            name: String::from("computer"),
            serial: Some(String::from("SYS")),
            asset_tag: None,
        }),
        known_monitors: vec![MonitorSyncEntry {
            last_seen: NOW,
            ..monitor_entry("MON", Some(8), None, true)
        }],
        ..ServiceState::default()
    };
    let mut world = World::new(settings("", Vec::new()), false, persisted);
    let response = world.request(ServiceCommand::GetStatusFull);
    if let IpcResponse::StatusFull {
        matched_asset,
        monitors,
        ..
    } = response
    {
        assert_eq!(matched_asset.map(|asset| asset.id), Some(7));
        assert_eq!(monitors.len(), 1);
        assert_eq!(monitors[0].asset_id, Some(8));
    } else {
        panic!("a full status was asked for");
    }
}

#[test]
fn saved_candidate_survives_journal_commit_failure() {
    let mut world = World::new(
        checkin_settings(),
        true,
        single_monitor_state("MON-1", Some(1), Some(EPOCH), true),
    );
    world.fail_commit = true;
    let message = error_message(world.checkin_serial("MON-1"));
    assert!(message.contains("state candidate saved"));
    let saved = world
        .saved_states
        .first()
        .cloned()
        .expect("state candidate was not saved");
    let (_, last_sync, _, checked_out) = world.full_status();
    assert_eq!(last_sync, saved.last_sync_time);
    assert_eq!(checked_out, vec![false]);
    assert!(!world.records.is_empty());
}

#[test]
fn set_config_save_failure_preserves_redacted_active_settings() {
    let mut world = World::new(
        settings("https://before.example", vec![0x42]),
        true,
        ServiceState::default(),
    );
    world.fail_settings = true;
    let response = world.set_config(settings("https://after.example", vec![0x42]), true);
    assert!(error_message(response).contains("settings save failure"));
    let IpcResponse::Config { settings, .. } = world.request(ServiceCommand::GetConfig) else {
        panic!("expected redacted config response");
    };
    assert_eq!(settings.snipeit.url, "https://before.example");
    assert!(settings.snipeit.api_token_encrypted.is_empty());
}

#[test]
fn set_token_save_failure_preserves_active_token_and_never_redacts_plaintext() {
    let mut world = World::new(
        settings("https://example.test", vec![0x11]),
        true,
        ServiceState::default(),
    );
    world.fail_settings = true;
    let response = world.request(ServiceCommand::SetToken {
        value: "new-plaintext-token".to_owned(),
    });
    assert!(error_message(response).contains("settings save failure"));
    let IpcResponse::Config { settings, .. } = world.request(ServiceCommand::GetConfig) else {
        panic!("expected redacted config response");
    };
    assert!(settings.snipeit.api_token_encrypted.is_empty());
    assert!(!format!("{settings:?}").contains("new-plaintext-token"));
    assert_eq!(world.owner.settings.snipeit.api_token_encrypted, vec![0x11]);
}

#[test]
fn sync_state_save_failure_returns_error_and_preserves_previous_status() {
    let previous = ServiceState {
        last_sync_time: Some(String::from("before")),
        last_sync_result: Some(SyncResult::Success),
        ..ServiceState::default()
    };
    let mut world = World::new(checkin_settings(), true, previous);
    world.fail_state = true;
    world.planned = Some(Err(Failure::of("remote unavailable")));
    let response = world.request(ServiceCommand::TriggerSync);
    assert!(error_message(response).contains("state save failure"));
    let (state, last_sync, monitors, _) = world.full_status();
    assert_eq!(state, "syncing");
    assert_eq!(last_sync.as_deref(), Some("before"));
    assert_eq!(monitors, 0);
}

#[test]
fn trigger_sync_classifies_typed_failures_and_persists_the_returned_cause() {
    for (error, expected_state, expected_message) in [
        (
            SnipeItError::AuthFailure,
            "Unconfigured",
            "failed to resolve Snipe-IT asset: Snipe-IT authentication failed",
        ),
        (
            SnipeItError::PermissionDenied,
            "Unconfigured",
            "failed to resolve Snipe-IT asset: Snipe-IT permission denied",
        ),
        (
            SnipeItError::RateLimited {
                retry_after: Some(7),
            },
            "Error",
            "failed to resolve Snipe-IT asset: Snipe-IT rate limit exceeded",
        ),
        (
            SnipeItError::ServerError {
                status: 503,
                message: String::from("temporarily unavailable"),
            },
            "Error",
            "failed to resolve Snipe-IT asset: Snipe-IT server error 503: temporarily unavailable",
        ),
    ] {
        let mut world = World::new(checkin_settings(), true, ServiceState::default());
        let failure =
            Failure::from_server(error).context("failed to resolve Snipe-IT asset");
        world.planned = Some(Err(failure));
        let response = world.request(ServiceCommand::TriggerSync);
        assert_eq!(error_message(response), expected_message);
        let (state, last_sync, _, _) = world.full_status();
        assert_eq!(state, expected_state);
        assert_eq!(last_sync.as_deref(), Some("2026-01-01T00:00:00+00:00"));
        assert_eq!(world.saved_states.len(), 1);
        assert_eq!(
            world.saved_states[0].last_sync_result,
            Some(SyncResult::Failed {
                error: expected_message.to_owned()
            })
        );
    }
    let mut world = World::new(checkin_settings(), true, ServiceState::default());
    world.planned = Some(Err(Failure::of("hardware discovery failed")));
    let response = world.request(ServiceCommand::TriggerSync);
    assert_eq!(error_message(response), "hardware discovery failed");
    assert_eq!(world.full_status().0, "Error");
}

#[test]
fn trigger_sync_persists_partial_success_warnings_and_returns_idle() {
    let mut world = World::new(checkin_settings(), true, ServiceState::default());
    let first = String::from("computer asset is missing; asset update suppressed");
    let second = String::from("computer SYS-1 has no matching Snipe-IT asset");
    world.planned = Some(Ok((empty_plan(vec![first.clone()]), vec![second.clone()])));
    assert_eq!(
        world.request(ServiceCommand::TriggerSync),
        IpcResponse::Done {
            message: String::from("synchronization completed with 2 warning(s)"),
        }
    );
    let (state, last_sync, _, _) = world.full_status();
    assert_eq!(state, "Idle");
    assert_eq!(last_sync.as_deref(), Some("2026-01-01T00:00:00+00:00"));
    assert_eq!(world.saved_states.len(), 1);
    assert_eq!(
        world.saved_states[0].last_sync_result,
        Some(SyncResult::PartialSuccess {
            warnings: vec![first, second],
        })
    );
}

#[test]
fn checkin_all_selects_only_absent_checked_out_nonzero_assets() {
    let initial_state = ServiceState {
        known_monitors: vec![
            monitor_entry("MON-ELIGIBLE-A", Some(11), Some(EPOCH), true),
            monitor_entry("MON-PRESENT", Some(12), None, true),
            monitor_entry("MON-ALREADY-IN", Some(13), Some(EPOCH), false),
            monitor_entry("MON-UNMAPPED", None, Some(EPOCH), true),
            monitor_entry("MON-ZERO", Some(0), Some(EPOCH), true),
            monitor_entry("MON-ELIGIBLE-B", Some(22), Some(EPOCH), true),
        ],
        ..ServiceState::default()
    };
    let mut world = World::new(checkin_settings(), true, initial_state);
    let response = world.request(ServiceCommand::CheckinAll);
    assert_eq!(
        response,
        IpcResponse::CheckinResult {
            checked_in: vec![
                CheckinEntry {
                    serial: String::from("MON-ELIGIBLE-A"),
                    asset_id: 11,
                },
                CheckinEntry {
                    serial: String::from("MON-ELIGIBLE-B"),
                    asset_id: 22,
                },
            ]
        }
    );
    assert_eq!(world.checkins, vec![(11, 2), (22, 2)]);
    assert_eq!(
        world.saved_states[0].known_monitors,
        vec![
            monitor_entry("MON-ELIGIBLE-A", Some(11), Some(EPOCH), false),
            monitor_entry("MON-PRESENT", Some(12), None, true),
            monitor_entry("MON-ALREADY-IN", Some(13), Some(EPOCH), false),
            monitor_entry("MON-UNMAPPED", None, Some(EPOCH), true),
            monitor_entry("MON-ZERO", Some(0), Some(EPOCH), true),
            monitor_entry("MON-ELIGIBLE-B", Some(22), Some(EPOCH), false),
        ]
    );
    let (state, _, _, checked_out) = world.full_status();
    assert_eq!(state, "Idle");
    assert_eq!(checked_out, vec![false, true, false, true, true, false]);
    assert!(
        world.records.is_empty(),
        "successful CheckinAll must compact terminal journal records"
    );
}

#[test]
fn checkin_reports_state_save_failure_and_retains_remote_evidence() {
    let mut world = World::new(
        checkin_settings(),
        true,
        single_monitor_state("MON-1", Some(11), Some(EPOCH), true),
    );
    world.fail_state = true;
    let response = world.checkin_serial("MON-1");
    assert!(error_message(response).contains("injected state save failure"));
    assert_eq!(world.checkins, vec![(11, 2)]);
    assert_eq!(world.full_status().3, vec![true]);

    assert_eq!(world.records.len(), 2, "pending evidence must not be compacted");
    let pending = pending_with_evidence(&world.records).expect("the phases are in order");
    assert_eq!(pending.len(), 1);
    assert_eq!(pending[0].operation_id, "checkin:11:2");
    let outcome = pending[0].remote_outcome.as_ref().expect("it was observed");
    assert_eq!(get_text(outcome, "status").as_deref(), Some("applied"));
    let candidate = pending[0].candidate_state.as_ref().expect("it is retained");
    let state = snipespotter::json::get(candidate, "state").expect("it holds a state");
    let state = read_state(state).expect("it can be read");
    assert!(!state.known_monitors[0].checked_out);
}

fn refused_checkin(persisted: ServiceState) -> String {
    let mut world = World::new(checkin_settings(), true, persisted);
    let message = error_message(world.checkin_serial("MON-1"));
    assert_eq!(world.decrypted, 0);
    assert_eq!(world.built, 0);
    assert!(world.checkins.is_empty());
    assert!(world.records.is_empty());
    message
}

#[test]
fn checkin_serial_rejects_present_monitor() {
    assert_eq!(
        refused_checkin(single_monitor_state("MON-1", Some(1), None, true)),
        "monitor MON-1 is present and cannot be checked in"
    );
}

#[test]
fn checkin_serial_rejects_already_checked_in_monitor() {
    assert_eq!(
        refused_checkin(single_monitor_state("MON-1", Some(1), Some(EPOCH), false)),
        "monitor MON-1 is already checked in"
    );
}

#[test]
fn checkin_serial_rejects_unmapped_monitor() {
    assert_eq!(
        refused_checkin(single_monitor_state("MON-1", None, Some(EPOCH), true)),
        "monitor MON-1 has no Snipe-IT asset mapping"
    );
}

#[test]
fn checkin_serial_rejects_unknown_monitor_before_remote_boundaries() {
    assert_eq!(
        refused_checkin(ServiceState::default()),
        "monitor MON-1 is unknown"
    );
}

#[test]
fn checkin_serial_success_commits_state_before_response() {
    let mut world = World::new(
        checkin_settings(),
        true,
        single_monitor_state("MON-1", Some(1), Some(EPOCH), true),
    );
    let response = world.checkin_serial("MON-1");
    assert_eq!(
        response,
        IpcResponse::CheckinResult {
            checked_in: vec![CheckinEntry {
                serial: String::from("MON-1"),
                asset_id: 1,
            }]
        }
    );
    assert_eq!(world.saved_states.len(), 1);
    assert_eq!(world.saved_states[0].known_monitors.len(), 1);
    assert!(!world.saved_states[0].known_monitors[0].checked_out);
    assert!(world.records.is_empty());
}

#[test]
fn commands_are_refused_while_something_is_missing() {
    let mut world = World::new(settings("", Vec::new()), false, ServiceState::default());
    let inputs = || CommandInputs {
        missing: vec!["snipeit.url".to_owned()],
        update: Err("unknown field".to_owned()),
        now: NOW,
    };
    let response = world.request_with(ServiceCommand::TriggerSync, inputs());
    assert_eq!(error_message(response), "service is not configured");
    let response = world.request_with(ServiceCommand::CheckinAll, inputs());
    assert_eq!(error_message(response), "service is not configured");
    let response = world.request_with(
        ServiceCommand::SetConfig {
            field: "x".to_owned(),
            value: "y".to_owned(),
        },
        inputs(),
    );
    assert_eq!(error_message(response), "unknown field");
    let response = world.request(ServiceCommand::SetToken {
        value: String::new(),
    });
    assert_eq!(error_message(response), "API token must not be empty");
    let response = world.request_with(ServiceCommand::GetConfig, inputs());
    assert!(matches!(response, IpcResponse::Config { missing, .. } if missing == vec!["snipeit.url"]));
}

#[test]
fn changed_settings_are_adopted() {
    let mut world = World::new(settings("", Vec::new()), false, ServiceState::default());
    let updated = settings("https://new.example", vec![1]);
    assert_eq!(
        world.set_config(updated.clone(), true),
        IpcResponse::Done {
            message: "updated snipeit.url".to_owned()
        }
    );
    assert_eq!(world.built, 1);
    assert_eq!(world.owner.settings, updated);
    assert_eq!(world.owner.state, FsmState::Idle);
}

#[test]
fn decrypted_tokens_are_texts() {
    let stored = settings("https://example.test", vec![7]);
    let decrypted = decrypt_config(&stored, b"config-test-token".to_vec());
    let decrypted = match decrypted {
        Ok(decrypted) => decrypted,
        Err(error) => panic!("{}", error.message()),
    };
    assert_eq!(decrypted.url, "https://example.test");
    assert_eq!(decrypted.api_token, "config-test-token");
    assert_eq!(decrypted.checkout_status_id, 1);
    assert_eq!(decrypted.checkin_status_id, 2);
    assert!(matches!(
        decrypt_config(&stored, vec![0xFF, 0xFE, 0xFD]),
        Err(InvalidToken)
    ));
    assert!(InvalidToken.message().contains("not UTF-8"));
    assert!(redact_settings(&with_token(&stored, vec![9]))
        .snipeit
        .api_token_encrypted
        .is_empty());
}

#[test]
fn restart_recovers_observed_checkin_without_repeating_mutation() {
    let initial_state = single_monitor_state("MON-1", Some(11), Some(EPOCH), true);
    let mut first = World::new(checkin_settings(), true, initial_state.clone());
    first.fail_state = true;
    let response = first.checkin_serial("MON-1");
    assert!(error_message(response).contains("injected state save failure"));
    assert_eq!(first.checkins, vec![(11, 2)]);
    assert_eq!(first.full_status().3, vec![true]);
    let mut records = first.records;
    assert_eq!(records.len(), 2);
    assert!(matches!(
        &records[0],
        JournalRecord::Prepared { operation_id, .. } if operation_id == "checkin:11:2"
    ));
    let JournalRecord::RemoteOutcomeObserved {
        operation_id,
        candidate_state: Some(candidate),
        ..
    } = &records[1]
    else {
        panic!("the outcome was observed");
    };
    assert_eq!(operation_id, "checkin:11:2");
    let candidate = snipespotter::json::get(candidate, "state").expect("it holds a state");
    let candidate = read_state(candidate).expect("it can be read");
    assert!(!candidate.known_monitors[0].checked_out);

    let mut recovery =
        recover_pending(&records, initial_state).expect("the phases are in order");
    let mut reconciliations: usize = 0;
    let mut recovered_states = Vec::new();
    loop {
        let event = match recovery.next_action() {
            StartupAction::Call { operation } => {
                assert!(matches!(operation, Operation::Checkin(_)));
                reconciliations += 1;
                StartupEvent::Called { asset: None }
            }
            StartupAction::Append { record } => {
                records.push(record);
                StartupEvent::Appended
            }
            StartupAction::Load => StartupEvent::Loaded {
                records: records.clone(),
            },
            StartupAction::Save { state } => {
                recovered_states.push(state);
                StartupEvent::Saved
            }
            StartupAction::Commit { operation_ids } => {
                let commit = commit_after_state_save(&records, &operation_ids);
                records = commit.compacted.expect("the phases are in order");
                StartupEvent::Committed
            }
            StartupAction::Done => break,
            StartupAction::Stop { message } => panic!("{message}"),
        };
        recovery.record_event(event);
    }
    assert_eq!(recovered_states.len(), 1);
    assert_eq!(recovered_states[0].known_monitors.len(), 1);
    assert!(!recovered_states[0].known_monitors[0].checked_out);
    assert_eq!(
        recovered_states[0].known_monitors[0].snipeit_asset_id,
        Some(11)
    );
    assert_eq!(reconciliations, 1);
    assert!(records.is_empty());

    let mut second = World::new(checkin_settings(), true, recovery.persisted);
    for _ in 0..2 {
        let (_, _, monitors, checked_out) = second.full_status();
        assert_eq!(monitors, 1);
        assert_eq!(checked_out, vec![false]);
    }
    assert!(second.saved_states.is_empty());
    assert!(second.checkins.is_empty());
}

#[test]
fn config_update_queued_during_sync_is_used_by_next_operation() {
    let mut world = World::new(
        settings("https://old.example", vec![0x42]),
        true,
        ServiceState::default(),
    );
    world.planned = Some(Ok((empty_plan(Vec::new()), Vec::new())));
    let response = world.request(ServiceCommand::TriggerSync);
    assert!(
        matches!(response, IpcResponse::Done { ref message } if message.contains("completed"))
    );
    assert_eq!(world.built, 0);
    let response = world.set_config(settings("https://new.example", vec![0x42]), true);
    assert!(
        matches!(response, IpcResponse::Done { ref message } if message == "updated snipeit.url")
    );
    assert_eq!(world.saved_settings.len(), 1);
    assert_eq!(world.saved_settings[0].snipeit.url, "https://new.example");
    assert_eq!(world.built, 1);
    world.planned = Some(Ok((empty_plan(Vec::new()), Vec::new())));
    let response = world.request(ServiceCommand::TriggerSync);
    assert!(
        matches!(response, IpcResponse::Done { ref message } if message.contains("completed"))
    );
    assert_eq!(world.owner.settings.snipeit.url, "https://new.example");
}

#[test]
fn cancelled_response_does_not_skip_state_commit_or_journal_compaction() {
    let mut world = World::new(
        checkin_settings(),
        true,
        single_monitor_state("MON-1", Some(1), Some(EPOCH), true),
    );
    let mut action = world.owner.handle(
        ServiceCommand::CheckinSerial {
            serial: String::from("MON-1"),
        },
        CommandInputs {
            missing: Vec::new(),
            update: Err("no update".to_owned()),
            now: NOW,
        },
    );
    loop {
        if matches!(action, OwnerAction::SaveState { .. }) {
            let pending = pending_with_evidence(&world.records).expect("the phases are in order");
            assert_eq!(pending.len(), 1);
            assert_eq!(pending[0].operation_id, "checkin:1:2");
            assert!(pending[0].remote_outcome.is_some());
        }
        match world.perform(action) {
            Ok(event) => action = world.owner.resume(event),
            Err(_nobody_waits_for_it) => break,
        }
    }
    assert_eq!(world.full_status().3, vec![false]);
    assert_eq!(world.saved_states.len(), 1);
    let monitor = world.saved_states[0]
        .known_monitors
        .iter()
        .find(|monitor| monitor.serial == "MON-1")
        .expect("the saved state holds it");
    assert!(!monitor.checked_out);
    assert!(world.records.is_empty());
    assert!(pending_with_evidence(&world.records)
        .expect("the phases are in order")
        .is_empty());
}

#[test]
fn failures_are_answered_in_short_and_synchronizations_in_full() {
    let failed = || OwnerEvent::Failed {
        failure: Failure::of("disk full").context("failed to write the file"),
    };
    let answer = |action: OwnerAction| match action {
        OwnerAction::Respond { response } => error_message(response),
        other => panic!("expected an answer: {other:?}"),
    };
    let inputs = || CommandInputs {
        missing: Vec::new(),
        update: Err("no update".to_owned()),
        now: NOW,
    };

    let mut owner = CommandOwner::new(checkin_settings(), true, ServiceState::default());
    owner.handle(
        ServiceCommand::SetToken {
            value: "token".to_owned(),
        },
        inputs(),
    );
    assert_eq!(answer(owner.resume(failed())), "failed to encrypt API token");

    let monitors = single_monitor_state("MON-1", Some(1), Some(EPOCH), true);
    let mut world = World::new(checkin_settings(), true, monitors.clone());
    let checkin = ServiceCommand::CheckinSerial {
        serial: "MON-1".to_owned(),
    };
    let mut action = world.owner.handle(checkin, inputs());
    while !matches!(action, OwnerAction::Commit { .. }) {
        let event = world.perform(action).expect("the task is not over");
        action = world.owner.resume(event);
    }
    assert_eq!(
        answer(world.owner.resume(failed())),
        "state candidate saved but journal commit failed: failed to write the file"
    );

    let mut owner = CommandOwner::new(checkin_settings(), true, monitors);
    owner.handle(ServiceCommand::TriggerSync, inputs());
    let OwnerAction::SaveState { state } = owner.resume(failed()) else {
        panic!("the failure is noted");
    };
    assert_eq!(
        state.last_sync_result,
        Some(SyncResult::Failed {
            error: "failed to write the file: disk full".to_owned()
        })
    );
    assert_eq!(
        answer(owner.resume(OwnerEvent::StateSaved)),
        "failed to write the file: disk full"
    );
}
