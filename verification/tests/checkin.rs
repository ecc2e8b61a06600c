use snipespotter::checkin::{
    checkin_operation_id, forced_checkin_ineligibility, plan_forced_checkin, preflight,
    ForcedCheckinIneligibility,
};
use snipespotter::ipc::CheckinEntry;
use snipespotter::model::{MonitorSyncEntry, Timestamp};

fn monitor(serial: &str, asset: Option<u64>, absent: bool, checked_out: bool) -> MonitorSyncEntry {
    let instant = Timestamp {
        seconds: 0,
        nanos: 0,
    };
    MonitorSyncEntry {
        serial: serial.to_owned(),
        snipeit_asset_id: asset,
        last_seen: instant,
        absent_since: if absent { Some(instant) } else { None },
        checked_out,
    }
}

#[test]
fn only_absent_monitors_that_are_out_can_be_checked_in() {
    assert_eq!(
        forced_checkin_ineligibility(&monitor("M", Some(1), true, true)),
        None
    );
    assert_eq!(
        forced_checkin_ineligibility(&monitor("M", Some(1), false, true)),
        Some(ForcedCheckinIneligibility::Present)
    );
    assert_eq!(
        forced_checkin_ineligibility(&monitor("M", Some(1), true, false)),
        Some(ForcedCheckinIneligibility::AlreadyCheckedIn)
    );
    assert_eq!(
        forced_checkin_ineligibility(&monitor("M", Some(0), true, true)),
        Some(ForcedCheckinIneligibility::Unmapped)
    );
}

#[test]
fn requests_are_refused_before_anything_is_done() {
    let monitors = vec![monitor("M", Some(1), true, true)];
    assert_eq!(preflight(true, &monitors, &Some("M".to_owned())), None);
    assert_eq!(preflight(true, &monitors, &None), None);
    assert_eq!(
        preflight(false, &monitors, &None).as_deref(),
        Some("service is not configured")
    );
    assert_eq!(
        preflight(true, &monitors, &Some(String::new())).as_deref(),
        Some("monitor serial must not be empty")
    );
    assert_eq!(
        preflight(true, &monitors, &Some("X".to_owned())).as_deref(),
        Some("monitor X is unknown")
    );
}

#[test]
fn a_plan_checks_in_what_it_reports() {
    let monitors = vec![
        monitor("A", Some(1), true, true),
        monitor("B", Some(2), false, true),
        monitor("C", Some(3), true, true),
    ];
    let (plan, entries) = plan_forced_checkin(&monitors, &Some("C".to_owned()), 9);
    assert_eq!(
        entries,
        vec![CheckinEntry {
            serial: "C".to_owned(),
            asset_id: 3
        }]
    );
    assert_eq!(plan.monitor_checkins.len(), 1);
    assert_eq!(plan.monitor_checkins[0].operation_id, "checkin:3:9");
    assert_eq!(plan.monitor_checkins[0].source_asset_id, 3);
    assert_eq!(plan.monitor_checkins[0].request.status_id, 9);
    assert!(plan.monitor_checkouts.is_empty());
    let after = &plan.next_monitor_state.entries;
    assert_eq!(after.len(), 3);
    assert!(after[0].checked_out);
    assert!(!after[2].checked_out);
    assert_eq!(checkin_operation_id(11, 2), "checkin:11:2");
}
