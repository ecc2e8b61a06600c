use snipespotter::evidence::{
    apply_legacy_operation_delta, apply_recovered_candidate_states, decode_prepared_operation,
    merge_recovered_asset, observe_remote_outcome, prepare, validate_legacy_operation,
    validate_operation_id_binding, write_operation, EvidenceFault, Operation, RecoveredError,
};
use snipespotter::journal::{JournalRecord, PendingOperation, PhaseError};
use snipespotter::json::{get, get_text, Json};
use snipespotter::model::{
    Asset, AssetModel, AssetPatchRequest, AssetSummary, CheckinRequest, CheckoutRequest,
    MonitorCheckin, MonitorCheckout, MonitorSyncEntry, NamedReference, ServiceState, SyncResult,
    Timestamp,
};
use snipespotter::operation_id::PatchIdError;
use snipespotter::snapshot::{
    complete_candidate_state, read_state, validate_candidate_state, write_state, CandidateFault,
    SignedField,
};
use snipespotter::sync_engine::{mutation_step, plan_replay, MutationStep};

fn convert(value: &serde_json::Value) -> Json {
    match value {
        serde_json::Value::Null => Json::Null,
        serde_json::Value::Bool(value) => Json::Bool(*value),
        serde_json::Value::Number(number) => match number.as_u64() {
            Some(value) => Json::Unsigned(value),
            None => Json::Float(number.to_string()),
        },
        serde_json::Value::String(text) => Json::Text(text.clone()),
        serde_json::Value::Array(items) => Json::List(items.iter().map(convert).collect()),
        serde_json::Value::Object(fields) => Json::Object(
            fields
                .iter()
                .map(|(name, value)| (name.clone(), convert(value)))
                .collect(),
        ),
    }
}

fn json(text: &str) -> Json {
    convert(&serde_json::from_str(text).expect("the text is JSON"))
}

fn checkout(id: &str) -> Operation {
    Operation::Checkout(MonitorCheckout {
        operation_id: id.to_owned(),
        source_asset_id: 7,
        request: CheckoutRequest {
            checkout_to_type: "asset".to_owned(),
            assigned_asset: 9,
            status_id: 3,
        },
    })
}

fn checkin(id: &str) -> Operation {
    Operation::Checkin(MonitorCheckin {
        operation_id: id.to_owned(),
        source_asset_id: 7,
        request: CheckinRequest { status_id: 4 },
    })
}

fn patch(serial: &str) -> Operation {
    Operation::Patch {
        asset_id: 9,
        request: AssetPatchRequest {
            serial: Some(serial.to_owned()),
            ..AssetPatchRequest::default()
        },
    }
}

fn summary(id: u64) -> AssetSummary {
    AssetSummary {
        id,
        name: "computer".to_owned(),
        serial: Some("SYS".to_owned()),
        asset_tag: None,
    }
}

fn monitor(instant: Timestamp) -> MonitorSyncEntry {
    MonitorSyncEntry {
        serial: "MON".to_owned(),
        snipeit_asset_id: Some(7),
        last_seen: instant,
        absent_since: None,
        checked_out: false,
    }
}

#[test]
fn operations_are_written_and_read_back() {
    let id = "patch:9:{\"serial\":\"SYS\"}";
    assert_eq!(
        validate_operation_id_binding(id, &write_operation(&patch("SYS"))),
        Ok(patch("SYS"))
    );
    assert_eq!(
        validate_operation_id_binding("checkout:7", &write_operation(&checkout("checkout:7"))),
        Ok(checkout("checkout:7"))
    );
    assert_eq!(
        validate_legacy_operation("checkin:7", &write_operation(&checkin("checkin:7"))),
        Ok(checkin("checkin:7"))
    );
    let candidate = complete_candidate_state("checkout:7", &ServiceState::default());
    let JournalRecord::Prepared { operation, .. } =
        prepare("checkout:7", &checkout("checkout:7"), candidate)
    else {
        panic!("an operation is prepared");
    };
    let decoded = decode_prepared_operation("checkout:7", &operation).expect("it is valid");
    assert_eq!(decoded.operation, checkout("checkout:7"));
    assert!(decoded.candidate_state.is_some());
}

#[test]
fn versioned_records_are_refused_for_a_reason() {
    let cases = [
        ("checkout:7", r#"{"version":2}"#, EvidenceFault::UnsupportedVersion(2)),
        ("checkout:7", r#"{"version":1}"#, EvidenceFault::MissingPayload),
        (
            "patch:9",
            r#"{"version":1,"operation":{}}"#,
            EvidenceFault::PatchId(PatchIdError::Malformed),
        ),
        (
            "patch:9:{}",
            r#"{"version":1,"operation":{"serial":5}}"#,
            EvidenceFault::InvalidPatch,
        ),
        (
            "patch:9:{}",
            r#"{"version":1,"operation":{"serial":"A"}}"#,
            EvidenceFault::PatchMismatch,
        ),
        (
            "checkout:7",
            r#"{"version":1,"operation":{}}"#,
            EvidenceFault::InvalidCheckout,
        ),
        (
            "checkin:7",
            r#"{"version":1,"operation":{}}"#,
            EvidenceFault::InvalidCheckin,
        ),
        (
            "other:7",
            r#"{"version":1,"operation":{}}"#,
            EvidenceFault::UnknownKind,
        ),
        (
            "patch:9:{}",
            r#"{"version":1,"operation":{}}"#,
            EvidenceFault::MissingCandidate,
        ),
        (
            "patch:9:{}",
            r#"{"version":1,"operation":{},"candidate_state":{}}"#,
            EvidenceFault::Candidate(CandidateFault::WithoutOperationId),
        ),
    ];
    for (id, prepared, fault) in cases {
        assert_eq!(
            decode_prepared_operation(id, &json(prepared)).err(),
            Some(fault),
            "{prepared}"
        );
        assert!(!fault.message(id).is_empty());
    }
    assert_eq!(
        validate_operation_id_binding("checkout:7", &write_operation(&checkout("checkout:8"))),
        Err(EvidenceFault::CheckoutMismatch)
    );
    assert_eq!(
        validate_operation_id_binding("checkin:7", &write_operation(&checkin("checkin:8"))),
        Err(EvidenceFault::CheckinMismatch)
    );
    assert_eq!(
        EvidenceFault::MissingPayload.message("checkout:7"),
        "prepared operation payload is missing: checkout:7"
    );
}

#[test]
fn legacy_records_are_refused_for_a_reason() {
    let cases = [
        ("patch:9:x", r#"{"serial":5}"#, EvidenceFault::LegacyInvalidPatch),
        (
            "patch:9:x",
            r#"{"serial":"A","operation_id":"b"}"#,
            EvidenceFault::LegacyAmbiguousPatch,
        ),
        ("checkout:7", "{}", EvidenceFault::LegacyInvalidCheckout),
        ("checkin:7", "{}", EvidenceFault::LegacyInvalidCheckin),
        ("other", "{}", EvidenceFault::LegacyUnknownKind),
    ];
    for (id, payload, fault) in cases {
        assert_eq!(validate_legacy_operation(id, &json(payload)), Err(fault));
    }
    assert_eq!(
        validate_legacy_operation("checkout:7", &write_operation(&checkout("checkout:8"))),
        Err(EvidenceFault::LegacyCheckoutMismatch)
    );
    assert_eq!(
        validate_legacy_operation("checkin:7", &write_operation(&checkin("checkin:8"))),
        Err(EvidenceFault::LegacyCheckinMismatch)
    );
}

#[test]
fn legacy_operations_change_only_what_they_name() {
    let instant = Timestamp {
        seconds: 0,
        nanos: 0,
    };
    let state = ServiceState {
        matched_asset: Some(summary(9)),
        known_monitors: vec![monitor(instant)],
        ..ServiceState::default()
    };
    let patched = apply_legacy_operation_delta(state.clone(), &patch("NEW")).expect("it matches");
    assert_eq!(
        patched.matched_asset.and_then(|asset| asset.serial),
        Some("NEW".to_owned())
    );
    let out = apply_legacy_operation_delta(state.clone(), &checkout("checkout:7"));
    assert!(out.expect("it is known").known_monitors[0].checked_out);

    assert_eq!(
        apply_legacy_operation_delta(ServiceState::default(), &patch("NEW")),
        Err(EvidenceFault::LegacyPatchWithoutAsset)
    );
    let other = ServiceState {
        matched_asset: Some(summary(8)),
        ..ServiceState::default()
    };
    assert_eq!(
        apply_legacy_operation_delta(other, &patch("NEW")),
        Err(EvidenceFault::LegacyPatchAssetMismatch)
    );
    assert_eq!(
        apply_legacy_operation_delta(ServiceState::default(), &checkin("checkin:7")),
        Err(EvidenceFault::LegacyMonitorUnmapped(7))
    );
}

#[test]
fn recovered_states_are_refused_for_a_reason() {
    let candidate = complete_candidate_state("checkout:7", &ServiceState::default());
    let prepared = prepare("checkout:7", &checkout("checkout:7"), candidate);
    let ids = vec!["checkout:7".to_owned()];
    let mut state = ServiceState::default();

    let absent = apply_recovered_candidate_states(&mut state, &Vec::new(), &ids);
    assert_eq!(
        absent,
        Err(RecoveredError::Evidence {
            operation_id: "checkout:7".to_owned(),
            fault: EvidenceFault::EvidenceMissing
        })
    );
    let unobserved =
        apply_recovered_candidate_states(&mut state, &vec![prepared.clone()], &ids);
    assert_eq!(
        unobserved,
        Err(RecoveredError::Evidence {
            operation_id: "checkout:7".to_owned(),
            fault: EvidenceFault::OutcomeMissing
        })
    );
    let disordered = vec![prepared.clone(), prepared];
    let refused = apply_recovered_candidate_states(&mut state, &disordered, &ids);
    assert_eq!(
        refused,
        Err(RecoveredError::Phase(PhaseError::DuplicatePrepared(
            "checkout:7".to_owned()
        )))
    );
    assert_eq!(
        refused.map_err(|error| error.message()),
        Err("duplicate prepared operation: checkout:7".to_owned())
    );
    assert_eq!(state, ServiceState::default());
}

#[test]
fn candidates_are_refused_for_a_reason() {
    let start = r#"{"version":1,"kind":"service_state","operation_id":"x""#;
    let cases = [
        ("{}".to_owned(), CandidateFault::WithoutOperationId),
        (
            r#"{"operation_id":"y"}"#.to_owned(),
            CandidateFault::OperationIdMismatch,
        ),
        (
            r#"{"operation_id":"x","version":2,"kind":"service_state"}"#.to_owned(),
            CandidateFault::Unsupported,
        ),
        (format!("{start}}}"), CandidateFault::WithoutState),
        (
            format!("{start},\"state\":{{}}}}"),
            CandidateFault::WithoutField(SignedField::LastSyncTime),
        ),
        (
            format!(
                "{start},\"state\":{{\"last_sync_time\":null,\"last_sync_result\":null,\"matched_asset\":null}}}}"
            ),
            CandidateFault::WithoutField(SignedField::KnownMonitors),
        ),
        (
            format!(
                "{start},\"state\":{{\"last_sync_time\":5,\"last_sync_result\":null,\"matched_asset\":null,\"known_monitors\":[]}}}}"
            ),
            CandidateFault::InvalidState,
        ),
        (
            format!(
                "{start},\"state\":{{\"last_sync_time\":null,\"last_sync_result\":null,\"matched_asset\":null,\"known_monitors\":[{{\"serial\":\"\",\"last_seen\":\"1970-01-01T00:00:00Z\",\"checked_out\":true}}]}}}}"
            ),
            CandidateFault::EmptySerial,
        ),
    ];
    for (candidate, fault) in cases {
        assert_eq!(
            validate_candidate_state("x", &json(&candidate)),
            Err(fault),
            "{candidate}"
        );
        assert!(!fault.message().is_empty());
    }
}

#[test]
fn states_are_written_and_read_back() {
    let instants = [
        Timestamp {
            seconds: 0,
            nanos: 0,
        },
        Timestamp {
            seconds: 1_767_225_600,
            nanos: 123_000_000,
        },
        Timestamp {
            seconds: -1,
            nanos: 999_999_999,
        },
        Timestamp {
            seconds: 59,
            nanos: 1_500_000_000,
        },
        Timestamp {
            seconds: -8_334_601_228_800,
            nanos: 0,
        },
        Timestamp {
            seconds: 8_210_266_876_799,
            nanos: 999_999_999,
        },
    ];
    for instant in instants {
        let state = ServiceState {
            last_sync_time: Some("2026-01-01T00:00:00+00:00".to_owned()),
            last_sync_result: Some(SyncResult::PartialSuccess {
                warnings: vec!["a \"quoted\" one".to_owned()],
            }),
            matched_asset: Some(summary(9)),
            known_monitors: vec![MonitorSyncEntry {
                absent_since: Some(instant),
                ..monitor(instant)
            }],
        };
        assert_eq!(read_state(&write_state(&state)), Some(state.clone()));
        let candidate = complete_candidate_state("x", &state);
        assert_eq!(validate_candidate_state("x", &candidate), Ok(state));
    }
    let failed = ServiceState {
        last_sync_result: Some(SyncResult::Failed {
            error: "e".to_owned(),
        }),
        ..ServiceState::default()
    };
    assert_eq!(read_state(&write_state(&failed)), Some(failed));
}

fn asset() -> Asset {
    Asset {
        id: 7,
        name: "n".to_owned(),
        serial: Some("A".to_owned()),
        asset_tag: None,
        status_label: Some(NamedReference {
            id: 3,
            name: String::new(),
        }),
        assigned_to: Some(NamedReference {
            id: 9,
            name: String::new(),
        }),
        model: Some(AssetModel {
            id: 5,
            name: String::new(),
            manufacturer: None,
            category: None,
        }),
    }
}

#[test]
fn operations_are_sent_only_where_they_are_not_shown() {
    let current = asset();
    assert_eq!(
        mutation_step(&checkout("c"), None),
        MutationStep::Read { asset_id: 7 }
    );
    assert_eq!(
        mutation_step(&patch("A"), None),
        MutationStep::Read { asset_id: 9 }
    );
    assert_eq!(
        mutation_step(&checkout("c"), Some(&current)),
        MutationStep::Applied { asset: None }
    );
    assert_eq!(mutation_step(&checkin("c"), Some(&current)), MutationStep::Send);
    assert_eq!(
        mutation_step(&patch("A"), Some(&current)),
        MutationStep::Applied {
            asset: Some(&current)
        }
    );
    assert_eq!(mutation_step(&patch("B"), Some(&current)), MutationStep::Send);
}

#[test]
fn replays_take_the_latest_snapshot() {
    let prepared_candidate = complete_candidate_state("checkout:7", &ServiceState::default());
    let JournalRecord::Prepared { operation, .. } = prepare(
        "checkout:7",
        &checkout("checkout:7"),
        prepared_candidate.clone(),
    ) else {
        panic!("an operation is prepared");
    };
    let pending = PendingOperation {
        operation_id: "checkout:7".to_owned(),
        operation,
        remote_outcome: None,
        candidate_state: None,
    };
    let replay = plan_replay(&pending).expect("the evidence is valid");
    assert_eq!(replay.operation, checkout("checkout:7"));
    assert_eq!(replay.candidate_state, Some(prepared_candidate.clone()));

    let merged = merge_recovered_asset(Some(prepared_candidate), Some(&asset()));
    let merged = merged.expect("the snapshot has a state").expect("it is kept");
    let state = get(&merged, "state").expect("it holds a state");
    let matched = get(state, "matched_asset").expect("it is set");
    assert_eq!(get_text(matched, "name").as_deref(), Some("n"));
    assert_eq!(
        merge_recovered_asset(Some(Json::Null), Some(&asset())),
        Err(EvidenceFault::CandidateWithoutObject)
    );
    let JournalRecord::RemoteOutcomeObserved { outcome, .. } =
        observe_remote_outcome("checkout:7", "applied", None)
    else {
        panic!("an outcome is observed");
    };
    assert_eq!(get_text(&outcome, "status").as_deref(), Some("applied"));
}
