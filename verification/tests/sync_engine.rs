use snipespotter::evidence::{
    apply_candidate_state, apply_recovered_candidate_states, write_operation, Operation,
};
use snipespotter::journal::{commit_after_state_save, pending_with_evidence, JournalRecord};
use snipespotter::json::{get, get_text, get_u64, Json};
use snipespotter::model::{
    Asset, AssetModel, AssetPatchRequest, AssetSummary, CheckinRequest, CheckoutRequest,
    MonitorCheckin, MonitorCheckout, MonitorSyncEntry, MonitorSyncState, NamedReference,
    ServiceState, SyncPlan, SyncResult, Timestamp,
};
use snipespotter::snapshot::{complete_candidate_state, read_state};
use snipespotter::startup::{recover_pending, StartupAction, StartupEvent};
use snipespotter::sync_engine::{
    checkin_is_applied, checkout_is_applied, execute_plan, execute_plan_with_candidate,
    patch_is_applied, Execution, ExecutionAction, ExecutionEvent, ExecutionOutcome,
};

const EPOCH: Timestamp = Timestamp {
    seconds: 0,
    nanos: 0,
};

fn json(text: &str) -> Json {
    let value: serde_json::Value = serde_json::from_str(text).expect("the text is JSON");
    convert(&value)
}

fn convert(value: &serde_json::Value) -> Json {
    match value {
        serde_json::Value::Null => Json::Null,
        serde_json::Value::Bool(value) => Json::Bool(*value),
        serde_json::Value::Number(number) => match number.as_u64() {
            Some(value) => Json::Unsigned(value),
            None => Json::Float(number.to_string()),
        },
        serde_json::Value::String(text) => Json::Text(text.clone()),
        serde_json::Value::Array(items) => Json::List(items.iter().map(convert).collect()),
        serde_json::Value::Object(fields) => Json::Object(
            fields
                .iter()
                .map(|(name, value)| (name.clone(), convert(value)))
                .collect(),
        ),
    }
}

fn blank_asset() -> Asset {
    Asset {
        id: 0,
        name: String::new(),
        serial: None,
        asset_tag: None,
        status_label: None,
        assigned_to: None,
        model: None,
    }
}

fn summary(id: u64, name: &str, serial: &str, tag: &str) -> AssetSummary {
    AssetSummary {
        id,
        name: name.to_owned(),
        serial: Some(serial.to_owned()),
        asset_tag: Some(tag.to_owned()),
    }
}

fn monitor(serial: &str, asset_id: u64, checked_out: bool) -> MonitorSyncEntry {
    MonitorSyncEntry {
        serial: serial.to_owned(),
        snipeit_asset_id: Some(asset_id),
        last_seen: EPOCH,
        absent_since: None,
        checked_out,
    }
}

fn known(monitors: Vec<MonitorSyncEntry>) -> ServiceState {
    ServiceState {
        known_monitors: monitors,
        ..ServiceState::default()
    }
}

fn reference(id: u64, name: &str) -> NamedReference {
    NamedReference {
        id,
        name: name.to_owned(),
    }
}

fn checkout(operation_id: &str, source: u64, target: u64) -> MonitorCheckout {
    MonitorCheckout {
        operation_id: operation_id.to_owned(),
        source_asset_id: source,
        request: CheckoutRequest {
            checkout_to_type: String::from("asset"),
            assigned_asset: target,
            status_id: 3,
        },
    }
}

fn checkout_plan() -> SyncPlan {
    SyncPlan {
        asset_update: None,
        monitor_checkouts: vec![checkout("checkout:1", 1, 2)],
        monitor_checkins: Vec::new(),
        next_monitor_state: MonitorSyncState {
            entries: Vec::new(),
        },
        warnings: Vec::new(),
    }
}

fn checkin_operation() -> MonitorCheckin {
    MonitorCheckin {
        operation_id: String::from("checkin:1"),
        source_asset_id: 1,
        request: CheckinRequest { status_id: 4 },
    }
}

fn prepared_with(operation_id: &str, operation: Json, state: &ServiceState) -> JournalRecord {
    JournalRecord::Prepared {
        operation_id: operation_id.to_owned(),
        operation: Json::Object(vec![
            ("version".to_owned(), Json::Unsigned(1)),
            ("operation".to_owned(), operation),
            (
                "candidate_state".to_owned(),
                complete_candidate_state(operation_id, state),
            ),
        ]),
    }
}

fn prepared_record(operation_id: &str, operation: Json) -> JournalRecord {
    prepared_with(operation_id, operation, &ServiceState::default())
}

fn legacy_record(operation_id: &str, operation: Json) -> JournalRecord {
    JournalRecord::Prepared {
        operation_id: operation_id.to_owned(),
        operation,
    }
}

fn observed(operation_id: &str, status: &str, candidate: Option<Json>) -> JournalRecord {
    JournalRecord::RemoteOutcomeObserved {
        operation_id: operation_id.to_owned(),
        outcome: Json::Object(vec![("status".to_owned(), Json::Text(status.to_owned()))]),
        candidate_state: candidate,
    }
}

fn checkout_json(operation: &MonitorCheckout) -> Json {
    write_operation(&Operation::Checkout(operation.clone()))
}

fn checkin_json(operation: &MonitorCheckin) -> Json {
    write_operation(&Operation::Checkin(operation.clone()))
}

fn patch_json(asset_id: u64, request: &AssetPatchRequest) -> Json {
    write_operation(&Operation::Patch {
        asset_id,
        request: request.clone(),
    })
}

fn serial_patch(serial: &str) -> AssetPatchRequest {
    AssetPatchRequest {
        serial: Some(serial.to_owned()),
        ..AssetPatchRequest::default()
    }
}

/// A server that notes the calls that are made, and a journal.
#[derive(Default)]
struct Fake {
    fail_checkout: bool,
    fail_checkin: bool,
    calls: Vec<String>,
    records: Vec<JournalRecord>,
}

impl Fake {
    fn call(&mut self, operation: &Operation) -> Result<Option<Asset>, ()> {
        match operation {
            Operation::Patch { asset_id, .. } => {
                self.calls.push(format!("patch:{asset_id}"));
                Ok(Some(Asset {
                    id: *asset_id,
                    name: String::from("patched-computer"),
                    serial: Some(String::from("PATCHED-SYS")),
                    asset_tag: Some(String::from("PATCHED-TAG")),
                    ..blank_asset()
                }))
            }
            Operation::Checkout(operation) => {
                self.calls.push(operation.operation_id.clone());
                if self.fail_checkout {
                    return Err(());
                }
                Ok(None)
            }
            Operation::Checkin(operation) => {
                self.calls.push(operation.operation_id.clone());
                if self.fail_checkin {
                    return Err(());
                }
                Ok(None)
            }
        }
    }

    fn execute(&mut self, mut execution: Execution) -> Option<ExecutionOutcome> {
        loop {
            match execution.next_action() {
                ExecutionAction::Append { record } => {
                    self.records.push(record);
                    execution.record_event(ExecutionEvent::Appended);
                }
                ExecutionAction::Call { operation } => {
                    let event = match self.call(&operation) {
                        Ok(Some(asset)) => ExecutionEvent::Patched { asset },
                        Ok(None) => ExecutionEvent::Moved,
                        Err(()) => ExecutionEvent::Failed,
                    };
                    execution.record_event(event);
                }
                ExecutionAction::Finish { outcome } => return Some(outcome),
                ExecutionAction::Stop => return None,
            }
        }
    }

    /// Replays what is pending, up to the point where the state is to be saved.
    fn recover_pending(&mut self) -> Result<Vec<String>, String> {
        let mut recovery = recover_pending(&self.records, ServiceState::default())
            .map_err(|error| error.message())?;
        loop {
            match recovery.next_action() {
                StartupAction::Call { operation } => {
                    let asset = self
                        .call(&operation)
                        .map_err(|()| "injected failure".to_owned())?;
                    recovery.record_event(StartupEvent::Called { asset });
                }
                StartupAction::Append { record } => {
                    self.records.push(record);
                    recovery.record_event(StartupEvent::Appended);
                }
                StartupAction::Load | StartupAction::Done => return Ok(recovery.observed),
                StartupAction::Stop { message } => return Err(message),
                StartupAction::Save { .. } | StartupAction::Commit { .. } => {
                    panic!("the records are loaded first")
                }
            }
        }
    }

    fn commit(&mut self, operation_ids: &Vec<String>) {
        let commit = commit_after_state_save(&self.records, operation_ids);
        self.records = commit.compacted.expect("the phases are in order");
    }

    fn pending(&self) -> usize {
        pending_with_evidence(&self.records)
            .expect("the phases are in order")
            .len()
    }

    fn candidate(&self, wanted: &str) -> Option<&Json> {
        self.records.iter().find_map(|record| match record {
            JournalRecord::RemoteOutcomeObserved {
                operation_id,
                candidate_state: Some(candidate),
                ..
            } if operation_id == wanted => Some(candidate),
            _ => None,
        })
    }

    fn candidate_state(&self, wanted: &str) -> ServiceState {
        let candidate = self.candidate(wanted).expect("there is a snapshot");
        read_state(get(candidate, "state").expect("it holds a state")).expect("it is readable")
    }
}

#[test]
fn desired_state_predicates_compare_only_requested_fields() {
    let asset = Asset {
        id: 1,
        name: String::from("name"),
        serial: Some(String::from("serial")),
        asset_tag: Some(String::from("tag")),
        status_label: Some(reference(4, "")),
        assigned_to: None,
        model: Some(AssetModel {
            id: 5,
            name: String::new(),
            manufacturer: None,
            category: None,
        }),
    };
    assert!(patch_is_applied(
        &asset,
        &AssetPatchRequest {
            serial: Some(String::from("serial")),
            model_id: Some(5),
            ..AssetPatchRequest::default()
        }
    ));
    assert!(!patch_is_applied(
        &asset,
        &AssetPatchRequest {
            asset_tag: Some(String::from("other")),
            ..AssetPatchRequest::default()
        }
    ));
    assert!(checkin_is_applied(
        &asset,
        &MonitorCheckin {
            operation_id: String::from("checkin"),
            source_asset_id: 1,
            request: CheckinRequest { status_id: 4 },
        }
    ));
}

#[test]
fn desired_checkout_and_checkin_state_require_both_assignment_fields() {
    let checkout = checkout_plan().monitor_checkouts[0].clone();
    let assigned_only = Asset {
        assigned_to: Some(reference(2, "computer")),
        ..blank_asset()
    };
    assert!(!checkout_is_applied(&assigned_only, &checkout));
    let checked_out = Asset {
        assigned_to: Some(reference(2, "computer")),
        status_label: Some(reference(3, "deployed")),
        ..blank_asset()
    };
    assert!(checkout_is_applied(&checked_out, &checkout));

    let checkin = checkin_operation();
    let available = Asset {
        status_label: Some(reference(4, "available")),
        ..blank_asset()
    };
    assert!(checkin_is_applied(&available, &checkin));
    let wrong_status = Asset {
        status_label: Some(reference(5, "ready")),
        ..blank_asset()
    };
    assert!(!checkin_is_applied(&wrong_status, &checkin));
}

#[test]
fn observed_outcomes_are_reconciled_before_recovery_commit() {
    let checkout = checkout_plan().monitor_checkouts.remove(0);
    let id = checkout.operation_id.clone();
    let mut fake = Fake {
        records: vec![
            prepared_record(&id, checkout_json(&checkout)),
            observed(
                &id,
                "applied",
                Some(complete_candidate_state(&id, &ServiceState::default())),
            ),
        ],
        ..Fake::default()
    };
    let before = fake.records.len();
    fake.recover_pending().expect("the evidence is valid");
    assert_eq!(fake.calls, vec![id]);
    assert_eq!(fake.records.len(), before);
}

#[test]
fn mutation_evidence_contains_complete_candidate_state() {
    let candidate = ServiceState {
        last_sync_time: Some(String::from("2026-01-01T00:00:00Z")),
        last_sync_result: Some(SyncResult::Success),
        matched_asset: Some(summary(9, "computer", "SYS", "TAG")),
        known_monitors: vec![monitor("MON", 1, true)],
    };
    let mut fake = Fake::default();
    fake.execute(execute_plan_with_candidate(
        checkout_plan(),
        None,
        &ServiceState::default(),
        &candidate,
    ))
    .expect("nothing fails");
    let evidence = fake.candidate("checkout:1").expect("missing candidate evidence");
    assert_eq!(get_text(evidence, "kind").as_deref(), Some("service_state"));
    assert_eq!(get_u64(evidence, "version"), Some(1));
    let state = get(evidence, "state").expect("there is a state");
    assert!(get(state, "last_sync_time").is_some());
    assert!(get(state, "matched_asset").is_some());
    assert!(get(state, "known_monitors").is_some());
}

#[test]
fn recovery_reports_candidate_state_for_startup_commit() {
    let checkout = checkout_plan().monitor_checkouts.remove(0);
    let mut fake = Fake {
        records: vec![prepared_record(
            &checkout.operation_id,
            checkout_json(&checkout),
        )],
        ..Fake::default()
    };
    let recovered = fake.recover_pending().expect("the evidence is valid");
    assert_eq!(recovered, vec![checkout.operation_id]);
    let pending = pending_with_evidence(&fake.records).expect("the phases are in order");
    assert_eq!(pending.len(), 1);
    assert!(pending[0].remote_outcome.is_some());
    assert!(pending[0].candidate_state.is_some());
}

#[test]
fn recovered_candidate_states_require_evidence_and_apply_transactionally() {
    let mut state = known(vec![monitor("MON", 7, false)]);
    let ids = vec![String::from("checkout:7")];
    let records = vec![legacy_record(
        "checkout:7",
        json(
            r#"{"version":1,"operation":{},"candidate_state":{"version":1,"kind":"service_state","operation_id":"checkout:7","state":{}}}"#,
        ),
    )];
    assert!(apply_recovered_candidate_states(&mut state, &records, &ids).is_err());
    assert!(!state.known_monitors[0].checked_out);

    let records = vec![
        prepared_record("checkout:7", json("{}")),
        observed(
            "checkout:7",
            "reconciled",
            Some(json(
                r#"{"version":1,"kind":"service_state","operation_id":"checkout:7","state":{"last_sync_time":null,"last_sync_result":null,"matched_asset":null,"known_monitors":[{"serial":"MON","snipeit_asset_id":7,"last_seen":"1970-01-01T00:00:00Z","checked_out":true}]}}"#,
            )),
        ),
    ];
    assert_eq!(
        apply_recovered_candidate_states(&mut state, &records, &ids),
        Ok(())
    );
    assert!(state.known_monitors[0].checked_out);
}

#[test]
fn recovered_monitor_snapshot_replaces_signed_monitor_state() {
    let mut state = ServiceState::default();
    let records = vec![
        prepared_record("checkout:7", json("{}")),
        observed(
            "checkout:7",
            "reconciled",
            Some(json(
                r#"{"version":1,"kind":"service_state","operation_id":"checkout:7","state":{"last_sync_time":null,"last_sync_result":null,"matched_asset":null,"known_monitors":[{"serial":"MON","snipeit_asset_id":7,"last_seen":"2026-01-01T00:00:00Z","checked_out":true}]}}"#,
            )),
        ),
    ];
    assert_eq!(
        apply_recovered_candidate_states(&mut state, &records, &vec![String::from("checkout:7")]),
        Ok(())
    );
    assert_eq!(state.known_monitors.len(), 1);
    assert_eq!(state.known_monitors[0].serial, "MON");
    assert_eq!(state.known_monitors[0].last_seen.seconds, 1_767_225_600);
    assert!(state.known_monitors[0].checked_out);
}

#[test]
fn recovered_asset_patch_updates_signed_match() {
    let mut state = ServiceState {
        matched_asset: Some(summary(9, "computer", "OLD", "TAG")),
        ..ServiceState::default()
    };
    let id = "patch:9:serialized";
    let records = vec![
        prepared_record(id, json("{}")),
        observed(
            id,
            "reconciled",
            Some(json(
                r#"{"version":1,"kind":"service_state","operation_id":"patch:9:serialized","state":{"last_sync_time":null,"last_sync_result":null,"matched_asset":{"id":9,"name":"computer","serial":"NEW","asset_tag":"TAG"},"known_monitors":[]}}"#,
            )),
        ),
    ];
    assert_eq!(
        apply_recovered_candidate_states(&mut state, &records, &vec![id.to_owned()]),
        Ok(())
    );
    assert_eq!(
        state
            .matched_asset
            .as_ref()
            .and_then(|asset| asset.serial.as_deref()),
        Some("NEW")
    );
}

#[test]
fn candidate_state_applies_monitor_assignment_by_asset_id() {
    let state = apply_candidate_state(
        "checkout:7",
        &json(
            r#"{"version":1,"kind":"service_state","operation_id":"checkout:7","state":{"last_sync_time":null,"last_sync_result":null,"matched_asset":null,"known_monitors":[{"serial":"MON","snipeit_asset_id":7,"last_seen":"1970-01-01T00:00:00Z","checked_out":true}]}}"#,
        ),
    )
    .expect("the snapshot is valid");
    assert!(state.known_monitors[0].checked_out);
}

#[test]
fn recovered_candidate_state_must_bind_to_journal_operation() {
    let mut state = known(vec![monitor("MON", 7, false)]);
    let records = vec![
        prepared_record("checkout:7", json("{}")),
        observed(
            "checkout:7",
            "reconciled",
            Some(json(
                r#"{"version":1,"kind":"service_state","operation_id":"checkin:7","state":{"entries":[]}}"#,
            )),
        ),
    ];
    assert!(apply_recovered_candidate_states(
        &mut state,
        &records,
        &vec![String::from("checkout:7")]
    )
    .is_err());
    assert!(!state.known_monitors[0].checked_out);
}

#[test]
fn recovered_candidate_snapshots_follow_durable_journal_order() {
    let mut state = ServiceState::default();
    let matched = |id: u64, name: &str, serial: &str| ServiceState {
        matched_asset: Some(AssetSummary {
            id,
            name: name.to_owned(),
            serial: Some(serial.to_owned()),
            asset_tag: None,
        }),
        ..ServiceState::default()
    };
    let z_state = matched(1, "z-state", "Z");
    let a_state = matched(2, "a-state", "A");
    let records = vec![
        prepared_record("z-operation", json("{}")),
        prepared_record("a-operation", json("{}")),
        observed(
            "z-operation",
            "reconciled",
            Some(complete_candidate_state("z-operation", &z_state)),
        ),
        observed(
            "a-operation",
            "reconciled",
            Some(complete_candidate_state("a-operation", &a_state)),
        ),
    ];
    assert_eq!(
        apply_recovered_candidate_states(
            &mut state,
            &records,
            &vec![String::from("a-operation"), String::from("z-operation")],
        ),
        Ok(()),
        "recovered candidate snapshots should apply"
    );
    assert_eq!(state.matched_asset, a_state.matched_asset);
}

#[test]
fn recovery_replays_in_durable_prepared_order_and_compacts() {
    let checkout = checkout_plan().monitor_checkouts.remove(0);
    let patch_id = String::from("patch:9:{\"serial\":\"SYS\"}");
    let mut fake = Fake {
        records: vec![
            prepared_record(&checkout.operation_id, checkout_json(&checkout)),
            prepared_record(&patch_id, patch_json(9, &serial_patch("SYS"))),
        ],
        ..Fake::default()
    };
    let confirmed = fake.recover_pending().expect("the evidence is valid");
    assert_eq!(confirmed, vec![checkout.operation_id.clone(), patch_id]);
    assert_eq!(
        fake.calls,
        vec![checkout.operation_id, String::from("patch:9")]
    );
    assert_eq!(fake.pending(), 2);
    assert!(fake.records.iter().all(|record| matches!(
        record,
        JournalRecord::Prepared { .. } | JournalRecord::RemoteOutcomeObserved { .. }
    )));
    fake.commit(&confirmed);
    assert!(fake.records.is_empty());
}

#[test]
fn recovery_rejects_payload_id_mismatch_and_keeps_pending() {
    let mut checkout = checkout_plan().monitor_checkouts.remove(0);
    let journal_id = checkout.operation_id.clone();
    checkout.operation_id = String::from("checkout:different");
    let mut fake = Fake {
        records: vec![legacy_record(&journal_id, checkout_json(&checkout))],
        ..Fake::default()
    };
    assert!(fake.recover_pending().is_err());
    assert_eq!(fake.pending(), 1);
}

#[test]
fn versioned_patch_payload_must_match_operation_id() {
    let operation_id = String::from("patch:9:{\"serial\":\"EXPECTED\"}");
    let mut fake = Fake {
        records: vec![prepared_record(
            &operation_id,
            patch_json(9, &serial_patch("ACTUAL")),
        )],
        ..Fake::default()
    };
    assert!(fake.recover_pending().is_err());
    assert_eq!(fake.pending(), 1);
}

#[test]
fn remote_failure_leaves_prepared_record() {
    let mut fake = Fake {
        fail_checkout: true,
        ..Fake::default()
    };
    assert!(fake
        .execute(execute_plan(checkout_plan(), Some(2)))
        .is_none());
    assert_eq!(fake.pending(), 1);
}

#[test]
fn execute_plan_orders_patch_checkout_and_checkin() {
    let mut plan = checkout_plan();
    plan.asset_update = Some(serial_patch("SYS"));
    plan.monitor_checkins.push(checkin_operation());
    let mut fake = Fake::default();
    let outcome = fake
        .execute(execute_plan(plan, Some(9)))
        .expect("nothing fails");
    assert_eq!(fake.calls, vec!["patch:9", "checkout:1", "checkin:1"]);
    assert_eq!(
        outcome.confirmed_operations,
        vec!["patch:9:{\"serial\":\"SYS\"}", "checkout:1", "checkin:1"]
    );
    assert_eq!(fake.pending(), 3);
    assert_eq!(
        fake.records
            .iter()
            .filter(|record| matches!(record, JournalRecord::RemoteOutcomeObserved { .. }))
            .count(),
        3
    );
    fake.commit(&outcome.confirmed_operations);
    assert!(fake.records.is_empty());
}

#[test]
fn checkin_failure_leaves_only_failing_operation_prepared() {
    let mut plan = checkout_plan();
    plan.monitor_checkins.push(checkin_operation());
    let mut fake = Fake {
        fail_checkin: true,
        ..Fake::default()
    };
    assert!(fake.execute(execute_plan(plan, Some(2))).is_none());
    let pending = pending_with_evidence(&fake.records).expect("the phases are in order");
    assert_eq!(pending.len(), 2);
    assert_eq!(pending[0].operation_id, "checkout:1");
    assert_eq!(pending[1].operation_id, "checkin:1");
    assert!(fake.records.iter().any(|record| matches!(
        record,
        JournalRecord::RemoteOutcomeObserved { operation_id, .. }
            if operation_id == "checkout:1"
    )));
}

#[test]
fn recovery_replays_checkin_and_waits_for_state_commit() {
    let operation = checkin_operation();
    let mut fake = Fake {
        records: vec![prepared_record(
            &operation.operation_id,
            checkin_json(&operation),
        )],
        ..Fake::default()
    };
    let confirmed = fake.recover_pending().expect("the evidence is valid");
    assert_eq!(confirmed, vec![String::from("checkin:1")]);
    assert_eq!(fake.calls, vec![String::from("checkin:1")]);
    assert_eq!(fake.pending(), 1);
    fake.commit(&confirmed);
    assert!(fake.records.is_empty());
}

#[test]
fn successful_mutation_records_operation_specific_monitor_delta() {
    let mut plan = checkout_plan();
    plan.monitor_checkouts.push(checkout("checkout:2", 2, 3));
    plan.next_monitor_state = MonitorSyncState {
        entries: vec![monitor("MON-1", 1, true), monitor("MON-2", 2, true)],
    };
    let mut fake = Fake::default();
    fake.execute(execute_plan(plan, Some(2)))
        .expect("nothing fails");
    let candidate = fake.candidate("checkout:1").expect("there is a snapshot");
    assert_eq!(get_text(candidate, "kind").as_deref(), Some("service_state"));
    assert_eq!(
        get_text(candidate, "operation_id").as_deref(),
        Some("checkout:1")
    );
    assert!(get(candidate, "state").is_some());
}

#[test]
fn successful_checkin_records_cleared_candidate_state() {
    let mut plan = checkout_plan();
    plan.monitor_checkouts.clear();
    plan.monitor_checkins = vec![checkin_operation()];
    plan.next_monitor_state = MonitorSyncState {
        entries: vec![MonitorSyncEntry {
            absent_since: Some(EPOCH),
            ..monitor("MON", 1, false)
        }],
    };
    let mut fake = Fake::default();
    fake.execute(execute_plan(plan, None)).expect("nothing fails");
    let candidate = fake.candidate("checkin:1").expect("there is a snapshot");
    assert_eq!(get_text(candidate, "kind").as_deref(), Some("service_state"));
    assert_eq!(
        get_text(candidate, "operation_id").as_deref(),
        Some("checkin:1")
    );
    assert!(!fake.candidate_state("checkin:1").known_monitors[0].checked_out);
}

#[test]
fn each_operation_journals_only_state_reached_by_that_operation() {
    let mut plan = checkout_plan();
    plan.monitor_checkouts.push(checkout("checkout:2", 2, 3));
    plan.next_monitor_state = MonitorSyncState {
        entries: vec![monitor("MON-1", 1, true), monitor("MON-2", 2, true)],
    };
    let final_state = known(plan.next_monitor_state.entries.clone());
    let mut fake = Fake::default();
    fake.execute(execute_plan_with_candidate(
        plan,
        Some(2),
        &known(vec![monitor("MON-1", 1, false)]),
        &final_state,
    ))
    .expect("nothing fails");
    let first_state = fake.candidate_state("checkout:1");
    let second_state = fake.candidate_state("checkout:2");
    assert_eq!(first_state.known_monitors.len(), 1);
    assert!(first_state.known_monitors[0].checked_out);
    assert_eq!(second_state.known_monitors.len(), 2);
    assert!(second_state
        .known_monitors
        .iter()
        .all(|entry| entry.checked_out));
}

#[test]
fn successful_patch_records_remote_asset_metadata() {
    let plan = SyncPlan {
        asset_update: Some(AssetPatchRequest {
            serial: Some(String::from("PATCHED-SYS")),
            asset_tag: Some(String::from("PATCHED-TAG")),
            ..AssetPatchRequest::default()
        }),
        monitor_checkouts: Vec::new(),
        ..checkout_plan()
    };
    let base_state = ServiceState {
        matched_asset: Some(summary(9, "old-computer", "OLD-SYS", "OLD-TAG")),
        ..ServiceState::default()
    };
    let final_state = ServiceState {
        matched_asset: Some(summary(9, "gathered-computer", "GATHERED-SYS", "GATHERED-TAG")),
        ..base_state.clone()
    };
    let mut fake = Fake::default();
    let outcome = fake
        .execute(execute_plan_with_candidate(plan, Some(9), &base_state, &final_state))
        .expect("nothing fails");
    let id = outcome.confirmed_operations[0].clone();
    assert_eq!(
        fake.candidate_state(&id).matched_asset,
        Some(summary(9, "patched-computer", "PATCHED-SYS", "PATCHED-TAG"))
    );
}

#[test]
fn prepared_patch_recovery_records_authoritative_asset_metadata() {
    let operation_id = String::from("patch:9:{\"serial\":\"SYS\"}");
    let prepared_state = ServiceState {
        matched_asset: Some(summary(9, "gathered-computer", "GATHERED-SYS", "GATHERED-TAG")),
        ..ServiceState::default()
    };
    let mut fake = Fake {
        records: vec![prepared_with(
            &operation_id,
            patch_json(9, &serial_patch("SYS")),
            &prepared_state,
        )],
        ..Fake::default()
    };
    fake.recover_pending().expect("the evidence is valid");
    assert_eq!(
        fake.candidate_state(&operation_id).matched_asset,
        Some(summary(9, "patched-computer", "PATCHED-SYS", "PATCHED-TAG"))
    );
}

#[test]
fn raw_legacy_prepared_records_are_recoverable() {
    let operation = checkout_plan().monitor_checkouts.remove(0);
    let mut fake = Fake {
        records: vec![legacy_record(
            &operation.operation_id,
            checkout_json(&operation),
        )],
        ..Fake::default()
    };
    let recovered = fake.recover_pending().expect("the evidence is valid");
    assert_eq!(recovered, vec![operation.operation_id]);
    assert_eq!(fake.calls, vec![String::from("checkout:1")]);
}

#[test]
fn raw_legacy_patch_and_checkin_records_are_recoverable() {
    let patch_id = String::from("patch:9:{\"serial\":\"SYS\"}");
    let checkin = checkin_operation();
    let mut fake = Fake {
        records: vec![
            legacy_record(&patch_id, json(r#"{"serial":"SYS"}"#)),
            legacy_record(&checkin.operation_id, checkin_json(&checkin)),
        ],
        ..Fake::default()
    };
    let recovered = fake.recover_pending().expect("the evidence is valid");
    assert_eq!(recovered, vec![patch_id, checkin.operation_id]);
    assert_eq!(
        fake.calls,
        vec![String::from("patch:9"), String::from("checkin:1")]
    );
}

#[test]
fn legacy_recovery_preserves_unrelated_persisted_state() {
    let operation = checkout_plan().monitor_checkouts.remove(0);
    let mut fake = Fake {
        records: vec![legacy_record(
            &operation.operation_id,
            checkout_json(&operation),
        )],
        ..Fake::default()
    };
    let recovered = fake.recover_pending().expect("the evidence is valid");
    let mut state = ServiceState {
        matched_asset: Some(summary(9, "computer", "SYS", "TAG")),
        known_monitors: vec![monitor("MON-1", 1, false), monitor("MON-2", 2, true)],
        ..ServiceState::default()
    };
    let before_unrelated_asset = state.matched_asset.clone();
    let before_unrelated_monitor = state.known_monitors[1].clone();
    assert_eq!(
        apply_recovered_candidate_states(&mut state, &fake.records, &recovered),
        Ok(())
    );
    assert_eq!(state.matched_asset, before_unrelated_asset);
    assert_eq!(state.known_monitors.len(), 2);
    assert!(state.known_monitors[0].checked_out);
    assert_eq!(state.known_monitors[1], before_unrelated_monitor);
}

#[test]
fn legacy_patch_and_checkin_apply_only_operation_deltas() {
    let patch_id = String::from("patch:9:{\"serial\":\"NEW-SYS\"}");
    let checkin = checkin_operation();
    let mut fake = Fake {
        records: vec![
            legacy_record(&patch_id, json(r#"{"serial":"NEW-SYS"}"#)),
            legacy_record(&checkin.operation_id, checkin_json(&checkin)),
        ],
        ..Fake::default()
    };
    let recovered = fake.recover_pending().expect("the evidence is valid");
    let mut state = ServiceState {
        matched_asset: Some(summary(9, "computer", "OLD-SYS", "TAG")),
        known_monitors: vec![monitor("MON", 1, true)],
        ..ServiceState::default()
    };
    assert_eq!(
        apply_recovered_candidate_states(&mut state, &fake.records, &recovered),
        Ok(())
    );
    let asset = state.matched_asset.expect("the asset is kept");
    assert_eq!(asset.serial.as_deref(), Some("NEW-SYS"));
    assert_eq!(asset.asset_tag.as_deref(), Some("TAG"));
    assert!(!state.known_monitors[0].checked_out);
}

#[test]
fn legacy_unknown_and_mismatched_records_are_rejected() {
    let mut fake = Fake {
        records: vec![legacy_record(
            "checkout:1",
            checkout_json(&checkout("checkout:other", 1, 2)),
        )],
        ..Fake::default()
    };
    assert!(fake.recover_pending().is_err());
}

#[test]
fn success_retains_confirmation_until_state_commit() {
    let mut fake = Fake::default();
    let outcome = fake
        .execute(execute_plan(checkout_plan(), Some(2)))
        .expect("nothing fails");
    assert_eq!(
        outcome.confirmed_operations,
        vec![String::from("checkout:1")]
    );
    assert_eq!(fake.records.len(), 2);
    assert_eq!(fake.pending(), 1);
    assert!(fake.records.iter().any(|record| matches!(
        record,
        JournalRecord::RemoteOutcomeObserved { operation_id, .. }
            if operation_id == "checkout:1"
    )));
    fake.commit(&outcome.confirmed_operations);
    assert!(fake.records.is_empty());
}

#[test]
fn an_interrupted_service_recovers_its_state() {
    let checkout = checkout_plan().monitor_checkouts.remove(0);
    let state = known(vec![monitor("MON", 1, true)]);
    let mut records = vec![prepared_with(
        &checkout.operation_id,
        checkout_json(&checkout),
        &state,
    )];
    let mut recovery = recover_pending(&records, ServiceState::default())
        .expect("the phases are in order");
    let mut saved = None;
    loop {
        let event = match recovery.next_action() {
            StartupAction::Call { .. } => StartupEvent::Called { asset: None },
            StartupAction::Append { record } => {
                records.push(record);
                StartupEvent::Appended
            }
            StartupAction::Load => StartupEvent::Loaded {
                records: records.clone(),
            },
            StartupAction::Save { state } => {
                saved = Some(state);
                StartupEvent::Saved
            }
            StartupAction::Commit { operation_ids } => {
                assert!(saved.is_some(), "the state is saved first");
                let commit = commit_after_state_save(&records, &operation_ids);
                records = commit.compacted.expect("the phases are in order");
                StartupEvent::Committed
            }
            StartupAction::Done => break,
            StartupAction::Stop { message } => panic!("{message}"),
        };
        recovery.record_event(event);
    }
    assert!(records.is_empty());
    assert_eq!(recovery.persisted, state);
    assert_eq!(saved, Some(state));
}
