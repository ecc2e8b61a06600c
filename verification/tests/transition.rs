use snipespotter::model::{
    Asset, AssetPatchRequest, AssetSummary, CheckinRequest, CheckoutRequest, MonitorCheckin,
    MonitorCheckout, MonitorSyncEntry, MonitorSyncState, ServiceState, SyncPlan, Timestamp,
};
use snipespotter::operation_id::{
    announced_asset_id, operation_kind, patch_asset_id, patch_operation_id, serialize_operation,
    OperationKind, PatchIdError,
};
use snipespotter::transition::state_after_operation;

fn monitor(serial: &str, asset_id: u64, checked_out: bool) -> MonitorSyncEntry {
    MonitorSyncEntry {
        serial: serial.to_owned(),
        snipeit_asset_id: Some(asset_id),
        last_seen: Timestamp {
            seconds: 0,
            nanos: 0,
        },
        absent_since: None,
        checked_out,
    }
}

fn known(monitors: Vec<MonitorSyncEntry>) -> ServiceState {
    ServiceState {
        known_monitors: monitors,
        ..ServiceState::default()
    }
}

fn summary(id: u64, name: &str, serial: &str, tag: &str) -> AssetSummary {
    AssetSummary {
        id,
        name: name.to_owned(),
        serial: Some(serial.to_owned()),
        asset_tag: Some(tag.to_owned()),
    }
}

fn checkout(operation_id: &str, source: u64) -> MonitorCheckout {
    MonitorCheckout {
        operation_id: operation_id.to_owned(),
        source_asset_id: source,
        request: CheckoutRequest {
            checkout_to_type: String::from("asset"),
            assigned_asset: 9,
            status_id: 3,
        },
    }
}

fn plan(checkouts: Vec<MonitorCheckout>, entries: Vec<MonitorSyncEntry>) -> SyncPlan {
    SyncPlan {
        asset_update: None,
        monitor_checkouts: checkouts,
        monitor_checkins: Vec::new(),
        next_monitor_state: MonitorSyncState { entries },
        warnings: Vec::new(),
    }
}

#[test]
fn candidate_monitor_transition_replaces_same_serial_asset_identity() {
    let base_state = known(vec![monitor("MON", 7, false)]);
    let final_state = known(vec![monitor("MON", 8, true)]);
    let plan = plan(
        vec![checkout("checkout:8", 8)],
        final_state.known_monitors.clone(),
    );

    let state = state_after_operation(
        &base_state,
        &final_state,
        &plan,
        &"checkout:8".to_owned(),
        None,
    );

    assert_eq!(state.known_monitors.len(), 1);
    assert_eq!(state.known_monitors[0].serial, "MON");
    assert_eq!(state.known_monitors[0].snipeit_asset_id, Some(8));
    assert!(state.known_monitors[0].checked_out);
}

#[test]
fn candidate_monitor_transition_reconciles_by_serial_when_asset_id_changes() {
    let base_state = known(vec![monitor("MON", 7, false)]);
    let final_state = known(vec![monitor("MON", 8, false)]);
    let plan = plan(
        vec![checkout("checkout:7", 7)],
        final_state.known_monitors.clone(),
    );

    let state = state_after_operation(
        &base_state,
        &final_state,
        &plan,
        &"checkout:7".to_owned(),
        None,
    );

    assert_eq!(state.known_monitors.len(), 1);
    assert_eq!(state.known_monitors[0].serial, "MON");
    assert_eq!(state.known_monitors[0].snipeit_asset_id, Some(8));
    assert!(state.known_monitors[0].checked_out);
}

#[test]
fn monitor_snapshot_retains_returned_patch_metadata() {
    let base_state = ServiceState {
        matched_asset: Some(summary(9, "old-computer", "OLD-SYS", "OLD-TAG")),
        ..ServiceState::default()
    };
    let final_state = ServiceState {
        matched_asset: Some(summary(
            9,
            "gathered-computer",
            "GATHERED-SYS",
            "GATHERED-TAG",
        )),
        ..base_state.clone()
    };
    let plan = SyncPlan {
        asset_update: Some(AssetPatchRequest {
            serial: Some(String::from("PATCHED-SYS")),
            asset_tag: Some(String::from("PATCHED-TAG")),
            ..AssetPatchRequest::default()
        }),
        ..plan(vec![checkout("checkout:2", 2)], Vec::new())
    };
    let patched_asset = Asset {
        id: 9,
        name: String::from("patched-computer"),
        serial: Some(String::from("PATCHED-SYS")),
        asset_tag: Some(String::from("PATCHED-TAG")),
        status_label: None,
        assigned_to: None,
        model: None,
    };

    let state = state_after_operation(
        &base_state,
        &final_state,
        &plan,
        &"checkout:2".to_owned(),
        Some(&patched_asset),
    );

    assert_eq!(
        state.matched_asset,
        Some(summary(9, "patched-computer", "PATCHED-SYS", "PATCHED-TAG"))
    );
}

#[test]
fn operation_snapshot_follows_explicit_transition_order() {
    let base_state = ServiceState {
        matched_asset: Some(summary(9, "old-computer", "OLD-SYS", "OLD-TAG")),
        known_monitors: vec![monitor("OLD-MON", 1, false)],
        ..ServiceState::default()
    };
    let final_state = ServiceState {
        matched_asset: Some(summary(9, "new-computer", "NEW-SYS", "NEW-TAG")),
        known_monitors: vec![monitor("NEW-MON", 2, true)],
        ..ServiceState::default()
    };
    let plan = SyncPlan {
        asset_update: Some(AssetPatchRequest {
            serial: Some(String::from("NEW-SYS")),
            asset_tag: Some(String::from("NEW-TAG")),
            ..AssetPatchRequest::default()
        }),
        monitor_checkins: vec![MonitorCheckin {
            operation_id: String::from("checkin:1"),
            source_asset_id: 1,
            request: CheckinRequest { status_id: 4 },
        }],
        ..plan(
            vec![checkout("checkout:2", 2)],
            final_state.known_monitors.clone(),
        )
    };

    let patch_state = state_after_operation(
        &base_state,
        &final_state,
        &plan,
        &"patch:9:{\"serial\":\"NEW-SYS\",\"asset_tag\":\"NEW-TAG\"}".to_owned(),
        None,
    );
    assert_eq!(
        patch_state.matched_asset,
        Some(summary(9, "old-computer", "NEW-SYS", "NEW-TAG"))
    );
    assert_eq!(patch_state.known_monitors, base_state.known_monitors);

    let checkout_state = state_after_operation(
        &base_state,
        &final_state,
        &plan,
        &"checkout:2".to_owned(),
        None,
    );
    assert_eq!(
        checkout_state.matched_asset,
        Some(summary(9, "old-computer", "OLD-SYS", "OLD-TAG"))
    );
    assert_eq!(
        checkout_state.known_monitors,
        vec![
            base_state.known_monitors[0].clone(),
            final_state.known_monitors[0].clone(),
        ]
    );

    let checkin_state = state_after_operation(
        &base_state,
        &final_state,
        &plan,
        &"checkin:1".to_owned(),
        None,
    );
    assert_eq!(checkin_state.matched_asset, base_state.matched_asset);
    assert_eq!(
        checkin_state.known_monitors,
        vec![final_state.known_monitors[0].clone()]
    );
}

#[test]
fn operations_are_identified_by_their_requests() {
    let request = AssetPatchRequest {
        name: Some("a\"b".to_owned()),
        serial: None,
        asset_tag: None,
        model_id: Some(5),
    };
    assert_eq!(
        serialize_operation(&request),
        "{\"name\":\"a\\\"b\",\"model_id\":5}"
    );
    let id = patch_operation_id(9, &request);
    assert_eq!(id, "patch:9:{\"name\":\"a\\\"b\",\"model_id\":5}");
    assert_eq!(patch_asset_id(&id), Ok(Some(9)));
    assert_eq!(announced_asset_id(&id), Some(9));
    assert_eq!(operation_kind(&id), OperationKind::Patch);
    assert_eq!(operation_kind("checkout:1"), OperationKind::Checkout);
    assert_eq!(operation_kind("checkin:1"), OperationKind::Checkin);
    assert_eq!(operation_kind("other"), OperationKind::Unknown);
    assert_eq!(patch_asset_id("checkout:1"), Ok(None));
}

#[test]
fn texts_are_escaped_in_patches() {
    let request = AssetPatchRequest {
        name: Some("\u{8}\t\n\u{c}\r\u{1}\u{1f}\u{7f}\\/é\"".to_owned()),
        serial: None,
        asset_tag: None,
        model_id: None,
    };
    assert_eq!(
        serialize_operation(&request),
        "{\"name\":\"\\b\\t\\n\\f\\r\\u0001\\u001f\u{7f}\\\\/é\\\"\"}"
    );
}

#[test]
fn malformed_patch_identifiers_are_refused_for_a_reason() {
    for (id, error, message) in [
        (
            "patch:9",
            PatchIdError::Malformed,
            "malformed prepared patch operation ID",
        ),
        (
            "patch:x:{}",
            PatchIdError::InvalidAssetId,
            "invalid asset ID in prepared patch operation",
        ),
        (
            "patch:0:{}",
            PatchIdError::ZeroAssetId,
            "prepared patch asset ID must be nonzero",
        ),
    ] {
        assert_eq!(patch_asset_id(id), Err(error));
        assert_eq!(error.message(), message);
    }
}
