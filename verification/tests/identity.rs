use snipespotter::failure::Failure;
use snipespotter::identity::{
    canonicalize_without_reparse, CanonicalError, CanonicalStep, executable_from_command_line, identity_failure, native_query_with_profile,
    paths_equal_case_insensitive, validate_path_components, CommandLineError, IdentityStep,
    NativeServerIdentityQuery, SameAccountPolicy, SameAccountServerIdentityQuery, ServerFacts,
    ServerIdentity, ServiceIdentityError, STILL_ACTIVE,
};
use std::path::{Component, Path};

fn components(path: &str) -> Vec<String> {
    Path::new(path)
        .components()
        .filter_map(|component| match component {
            Component::Normal(value) => value.to_str().map(str::to_owned),
            _ => None,
        })
        .collect()
}

#[test]
fn path_comparison_is_case_insensitive() {
    assert!(paths_equal_case_insensitive(
        r"C:\SnipeSpotter\spotter-svc.exe",
        r"c:\snipespotter\SPOTTER-SVC.EXE",
    ));
}

#[test]
fn path_comparison_does_not_ignore_trailing_dot_or_space() {
    assert!(!paths_equal_case_insensitive(
        r"C:\SnipeSpotter\spotter-svc.exe",
        r"C:\SnipeSpotter\spotter-svc.exe.",
    ));
    assert!(!paths_equal_case_insensitive(
        r"C:\SnipeSpotter\spotter-svc.exe",
        r"C:\SnipeSpotter\spotter-svc.exe ",
    ));
}

#[test]
fn path_component_policy_rejects_trailing_dot_or_space() {
    assert!(validate_path_components(&components(r"C:\SnipeSpotter\spotter-svc.exe.")).is_err());
    assert!(validate_path_components(&components(r"C:\SnipeSpotter\spotter-svc.exe ")).is_err());
    assert!(validate_path_components(&components(r"C:\SnipeSpotter\spotter-svc.exe")).is_ok());
}

#[test]
fn identity_errors_do_not_include_token_material() {
    let error = ServiceIdentityError::UnexpectedIdentity {
        observed_account: String::from("S-1-5-21-redacted"),
    };
    assert!(error.message().contains("S-1-5-21-redacted"));
    assert!(!error.message().contains("token material"));
}

#[test]
fn executables_are_read_from_command_lines() {
    assert_eq!(
        executable_from_command_line(r#""C:\Program Files\svc.exe" --service"#),
        Ok(r"C:\Program Files\svc.exe".to_owned())
    );
    assert_eq!(
        executable_from_command_line(r#""C:\svc.exe"#),
        Err(CommandLineError::UnterminatedQuote)
    );
    assert_eq!(
        executable_from_command_line("   "),
        Err(CommandLineError::NoExecutable)
    );
    assert_eq!(
        executable_from_command_line(r"C:\svc.exe --service"),
        Ok(r"C:\svc.exe".to_owned())
    );
}

fn known_facts() -> ServerFacts {
    ServerFacts {
        privileged: true,
        process_id: Some(42),
        exit_code: Some(STILL_ACTIVE),
        local_system: Some(true),
        account: Some("S-1-5-18".to_owned()),
        current_user: None,
        image_path: Some(r"C:\svc.exe".to_owned()),
        registered_path: Some(r"C:\svc.exe".to_owned()),
        canonical_image: Some(r"C:\SVC.EXE".to_owned()),
        canonical_expected: Some(r"c:\svc.exe".to_owned()),
        final_exit_code: Some(STILL_ACTIVE),
    }
}

fn accepted(step: IdentityStep) -> bool {
    matches!(step, IdentityStep::Accepted { .. })
}

#[test]
fn a_genuine_server_is_accepted() {
    let step = NativeServerIdentityQuery.query(&known_facts());
    match step {
        IdentityStep::Accepted { identity } => {
            assert_eq!(
                identity,
                ServerIdentity {
                    process_id: 42,
                    account_sid: "S-1-5-18".to_owned(),
                    image_path: r"C:\svc.exe".to_owned(),
                }
            );
        }
        other => panic!("{other:?}"),
    }
}

#[test]
fn servers_that_ended_or_are_others_are_rejected() {
    let ended = ServerFacts {
        exit_code: Some(0),
        ..known_facts()
    };
    assert!(matches!(
        native_query_with_profile(&ended, &None),
        IdentityStep::Rejected { error: ServiceIdentityError::ServiceRestarting }
    ));
    let ended_later = ServerFacts {
        final_exit_code: Some(0),
        ..known_facts()
    };
    assert!(!accepted(native_query_with_profile(&ended_later, &None)));
    let other_image = ServerFacts {
        canonical_image: Some(r"C:\other.exe".to_owned()),
        ..known_facts()
    };
    assert!(matches!(
        native_query_with_profile(&other_image, &None),
        IdentityStep::Rejected { error: ServiceIdentityError::UnexpectedExecutable { .. } }
    ));
    let other_account = ServerFacts {
        local_system: Some(false),
        current_user: Some("S-1-5-21-1".to_owned()),
        account: Some("S-1-5-21-2".to_owned()),
        ..known_facts()
    };
    assert!(matches!(
        native_query_with_profile(&other_account, &None),
        IdentityStep::Rejected { error: ServiceIdentityError::UnexpectedIdentity { .. } }
    ));
}

#[test]
fn unknown_facts_are_asked_for() {
    let nothing = ServerFacts {
        privileged: false,
        process_id: None,
        exit_code: None,
        local_system: None,
        account: None,
        current_user: None,
        image_path: None,
        registered_path: None,
        canonical_image: None,
        canonical_expected: None,
        final_exit_code: None,
    };
    assert!(matches!(
        native_query_with_profile(&nothing, &None),
        IdentityStep::EnablePrivilege
    ));
    let query = SameAccountServerIdentityQuery {
        policy: SameAccountPolicy::default(),
    };
    assert!(!accepted(query.query(&nothing)));
}

#[test]
fn failures_keep_their_cause() {
    let error = identity_failure(Failure::of("query failed"));
    assert!(matches!(error, ServiceIdentityError::IdentityQueryFailed { .. }));
    assert!(!error.message().is_empty());
}

#[test]
fn links_and_loose_paths_are_not_followed() {
    let path = components(r"C:\SnipeSpotter\spotter-svc.exe");
    assert_eq!(
        canonicalize_without_reparse(&path, None, None),
        CanonicalStep::Inspect
    );
    assert_eq!(
        canonicalize_without_reparse(&path, Some(0x20), None),
        CanonicalStep::Normalize
    );
    assert_eq!(
        canonicalize_without_reparse(&path, Some(0x20), Some(12)),
        CanonicalStep::Take { length: 12 }
    );
    for (attributes, length, error, message) in [
        (
            Some(0x420),
            None,
            CanonicalError::ReparsePoint,
            "executable path is a reparse point",
        ),
        (
            Some(0x20),
            Some(0),
            CanonicalError::NotNormalized,
            "failed to normalize executable path",
        ),
        (
            Some(0x20),
            Some(32_769),
            CanonicalError::NotNormalized,
            "failed to normalize executable path",
        ),
    ] {
        assert_eq!(
            canonicalize_without_reparse(&path, attributes, length),
            CanonicalStep::Rejected { error }
        );
        assert_eq!(error.message(), message);
    }
    assert_eq!(
        canonicalize_without_reparse(&components("spotter-svc.exe."), None, None),
        CanonicalStep::Rejected {
            error: CanonicalError::LooseComponent
        }
    );
}

#[test]
fn a_failed_query_is_described_by_its_outermost_cause() {
    let failure = Failure::of("access is denied").context("failed to open the process");
    let error = identity_failure(failure);
    assert_eq!(
        error.message(),
        "service identity query failed: failed to open the process"
    );
}
