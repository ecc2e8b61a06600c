use snipespotter::model::ServiceState;
use snipespotter::platform::{
    admit_state_key, check_callback_name, check_mutex_name, data_blob_length, handle_control,
    is_elevated, is_invalid_pid_error, load_state, owner_is_dead, restricted_logs, runtime_artifacts, runtime_options,
    service_controls_for, ControlReply, ControlRequest, InvalidMutexName, InvalidStateKey,
    OwnerAnswer, OwnerProbe, RunState, UnauthenticatedState,
};
use snipespotter::service::{launch, run_service, status_report, ServiceEvent, ServiceStep};

#[test]
fn owner_is_dead_closes_open_process_handle() {
    let query = owner_is_dead(OwnerProbe::Open, OwnerAnswer::Opened);
    assert_eq!(
        query,
        OwnerProbe::ReadExitCode,
        "owner_is_dead must query the process exit code"
    );
    for (answer, dead) in [
        (OwnerAnswer::ExitCode { code: 0 }, true),
        (OwnerAnswer::ExitCode { code: 259 }, false),
        (OwnerAnswer::Unreadable, false),
    ] {
        let close = owner_is_dead(query, answer);
        assert_eq!(
            close,
            OwnerProbe::Close { dead },
            "the process handle must be closed after querying the exit code"
        );
        assert_eq!(
            owner_is_dead(close, OwnerAnswer::Closed),
            OwnerProbe::Done { dead }
        );
    }
}

const ERROR_INVALID_PARAMETER: i32 = 0x8007_0057_u32 as i32;
const ERROR_ACCESS_DENIED: i32 = 0x8007_0005_u32 as i32;

#[test]
fn invalid_pid_error_matches_only_the_typed_win32_code() {
    assert!(is_invalid_pid_error(ERROR_INVALID_PARAMETER));
    assert!(!is_invalid_pid_error(ERROR_ACCESS_DENIED));
}

#[test]
fn a_process_that_does_not_exist_has_ended() {
    assert_eq!(
        owner_is_dead(OwnerProbe::Open, OwnerAnswer::NotOpened { code: ERROR_INVALID_PARAMETER }),
        OwnerProbe::Done { dead: true }
    );
    assert_eq!(
        owner_is_dead(OwnerProbe::Open, OwnerAnswer::NotOpened { code: ERROR_ACCESS_DENIED }),
        OwnerProbe::Done { dead: false }
    );
}

#[test]
fn status_projection_exposes_stop_controls_only_for_running_state() {
    assert!(service_controls_for(RunState::Running));
    assert!(!service_controls_for(RunState::StartPending));
    assert!(!service_controls_for(RunState::Stopped));
}

#[test]
fn control_requests_are_answered() {
    assert_eq!(
        handle_control(ControlRequest::Interrogate),
        ControlReply {
            implemented: true,
            stop: false
        }
    );
    assert_eq!(
        handle_control(ControlRequest::Stop),
        ControlReply {
            implemented: true,
            stop: true
        }
    );
    assert_eq!(
        handle_control(ControlRequest::Other),
        ControlReply {
            implemented: false,
            stop: false
        }
    );
}

#[test]
fn the_service_name_is_not_an_option() {
    let texts = |values: &[&str]| -> Vec<String> {
        values.iter().map(|value| (*value).to_owned()).collect()
    };
    assert_eq!(
        runtime_options(texts(&["Spotter", "--data-root", "x"])),
        texts(&["--data-root", "x"])
    );
    assert_eq!(
        runtime_options(texts(&["--data-root", "x"])),
        texts(&["--data-root", "x"])
    );
    assert_eq!(runtime_options(Vec::new()), Vec::<String>::new());
    assert_eq!(
        check_callback_name(&Some("Other".to_owned()), "Spotter").as_deref(),
        Some("service callback name Other does not match registered service Spotter")
    );
    assert_eq!(check_callback_name(&Some("Spotter".to_owned()), "Spotter"), None);
    assert_eq!(check_callback_name(&Some("--x".to_owned()), "Spotter"), None);
    assert_eq!(check_callback_name(&None, "Spotter"), None);
}

#[test]
fn mutex_names_are_checked() {
    assert_eq!(check_mutex_name("Global\\Spotter"), Ok(()));
    assert_eq!(check_mutex_name(""), Err(InvalidMutexName));
    assert_eq!(check_mutex_name("a\0b"), Err(InvalidMutexName));
    assert_eq!(
        InvalidMutexName.message(),
        "mutex name must not be empty or contain NUL bytes"
    );
}

#[test]
fn elevation_needs_a_whole_answer() {
    assert!(is_elevated(Some((4, 1))));
    assert!(!is_elevated(Some((4, 0))));
    assert!(!is_elevated(Some((3, 1))));
    assert!(!is_elevated(None));
}

#[test]
fn secrets_and_state_are_admitted() {
    assert_eq!(data_blob_length(7), Some(7));
    assert_eq!(data_blob_length(u32::MAX as usize + 1), None);
    assert_eq!(admit_state_key(vec![1; 32]), Ok(vec![1; 32]));
    assert_eq!(admit_state_key(vec![1; 31]), Err(InvalidStateKey));
    assert_eq!(
        InvalidStateKey.message(),
        "state HMAC key has invalid length"
    );
    let stored = ServiceState {
        last_sync_time: Some("t".to_owned()),
        ..ServiceState::default()
    };
    assert_eq!(load_state(None), Ok(ServiceState::default()));
    assert_eq!(load_state(Some((stored.clone(), true))), Ok(stored.clone()));
    assert_eq!(load_state(Some((stored, false))), Err(UnauthenticatedState));
    assert_eq!(
        UnauthenticatedState.message(),
        "service state authentication failed"
    );
    assert_eq!(
        runtime_artifacts(),
        vec![
            "settings.toml",
            "state.toml",
            "state-hmac-key.bin",
            "operations.jsonl",
            "logs"
        ]
    );
}

#[test]
fn only_log_files_are_restricted_in_the_log_directory() {
    let entries = vec![
        ("spotter-svc.log.1".to_owned(), true),
        ("spotter-svc.log.d".to_owned(), false),
        ("other.txt".to_owned(), true),
    ];
    assert_eq!(restricted_logs(&entries), vec!["spotter-svc.log.1"]);
}

#[test]
fn the_service_starts_in_order() {
    let mut run = launch();
    let mut steps = Vec::new();
    while run.step != ServiceStep::Finished {
        steps.push(run.step);
        let event = if run.step == ServiceStep::LoadSettings {
            ServiceEvent::Loaded { configured: true }
        } else {
            ServiceEvent::Done
        };
        run = run_service(run, event);
    }
    let position = |wanted: ServiceStep| steps.iter().position(|step| *step == wanted);
    assert_eq!(steps.len(), 19);
    assert_eq!(position(ServiceStep::ReadArguments), Some(0));
    assert!(position(ServiceStep::RecoverOperations) < position(ServiceStep::ReportRunning));
    assert!(position(ServiceStep::LoadState) < position(ServiceStep::RecoverOperations));
    assert_eq!(
        status_report(ServiceStep::ReportRunning).map(|report| report.state),
        Some(RunState::Running)
    );
    assert_eq!(status_report(ServiceStep::Serve), None);
}

#[test]
fn a_service_without_settings_recovers_nothing_and_a_failed_one_never_runs() {
    let mut run = launch();
    for _ in 0..5 {
        run = run_service(run, ServiceEvent::Done);
    }
    assert_eq!(run.step, ServiceStep::LoadSettings);
    let failed = run_service(run, ServiceEvent::Failed);
    assert_eq!(failed.step, ServiceStep::Failed);
    assert_eq!(run_service(failed, ServiceEvent::Done).step, ServiceStep::Failed);
    run = run_service(run, ServiceEvent::Loaded { configured: false });
    while run.step != ServiceStep::ReportRunning {
        assert_ne!(run.step, ServiceStep::RecoverOperations);
        run = run_service(run, ServiceEvent::Done);
    }
}

#[test]
fn missing_state_defaults_and_invalid_key_is_rejected() {
    let state = load_state(None).expect("no state is the empty state");
    assert!(state.last_sync_time.is_none());
    assert!(state.known_monitors.is_empty());
    assert!(admit_state_key(vec![0_u8; 31]).is_err());
}
