use snipespotter::ipc::IpcResponse;
use snipespotter::model::ServiceState;
use snipespotter::status::{
    project_status, PublicStatusSnapshot, ScheduleInput, ScheduleSnapshot, StatusPublisher,
};

#[test]
fn snapshot_schedule_generation_consistency_suppresses_stale_next_sync() {
    let status = PublicStatusSnapshot {
        state: String::from("Idle"),
        last_sync: Some(String::from("old")),
        snipeit_url: String::from("https://example.test"),
        matched_asset: None,
        monitors: Vec::new(),
        configured: true,
        config_generation: 2,
    };
    let schedule = ScheduleSnapshot {
        config_generation: 1,
        next_sync: Some(String::from("stale")),
    };
    let response = project_status(&status, &schedule, false);
    assert!(matches!(
        response,
        IpcResponse::Status {
            next_sync: None,
            ..
        }
    ));
}

#[test]
fn unconfigured_status_suppresses_schedule_even_when_generations_match() {
    let status = PublicStatusSnapshot {
        state: String::from("Unconfigured"),
        last_sync: None,
        snipeit_url: String::new(),
        matched_asset: None,
        monitors: Vec::new(),
        configured: false,
        config_generation: 3,
    };
    let schedule = ScheduleSnapshot {
        config_generation: 3,
        next_sync: Some(String::from("must-not-leak")),
    };
    let response = project_status(&status, &schedule, true);
    assert!(matches!(
        response,
        IpcResponse::StatusFull {
            next_sync: None,
            ..
        }
    ));
}

#[test]
fn a_schedule_of_the_same_configuration_is_reported() {
    let mut publisher = StatusPublisher::new();
    let generation = publisher.activate_configuration(true, 3600);
    publisher.publish(
        "Idle".to_owned(),
        "https://example.test".to_owned(),
        true,
        &ServiceState::default(),
    );
    assert_eq!(
        publisher.schedule,
        ScheduleInput {
            configured: true,
            interval: 3600,
            generation
        }
    );
    let schedule = ScheduleSnapshot {
        config_generation: generation,
        next_sync: Some("soon".to_owned()),
    };
    let response = project_status(&publisher.status, &schedule, false);
    assert_eq!(
        response,
        IpcResponse::Status {
            state: "Idle".to_owned(),
            last_sync: None,
            next_sync: Some("soon".to_owned()),
            snipeit_url: "https://example.test".to_owned(),
        }
    );
    assert!(publisher.activate_configuration(true, 60) > generation);
}

#[test]
fn the_startup_is_published() {
    let mut publisher = StatusPublisher::new();
    publisher.publish_startup_activation(true, "u".to_owned(), 60, &ServiceState::default());
    assert!(publisher.status.configured);
    assert_eq!(publisher.status.snipeit_url, "u");
    assert_eq!(publisher.schedule.interval, 60);
    assert_eq!(publisher.schedule.generation, publisher.status.config_generation);
}
