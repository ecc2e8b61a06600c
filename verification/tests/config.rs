use snipespotter::config::{
    censored_display, decrypt_config, guard_remote_identity_change, interval_seconds,
    redact_settings, remote_identity_changed, with_token, IdentityChangeError, LoggingSettings,
    PollingSettings, Settings, SnipeItSettings,
};
use snipespotter::journal::JournalRecord;
use snipespotter::json::Json;
use snipespotter::recovery::{OperatorRecovery, RecoveryOutcome, RecoveryReason};

fn settings() -> Settings {
    Settings {
        snipeit: SnipeItSettings {
            url: String::new(),
            api_token_encrypted: Vec::new(),
            checkout_status_id: 2,
            checkin_status_id: 1,
        },
        polling: PollingSettings { interval_hours: 4 },
        logging: LoggingSettings {
            level: "info".to_owned(),
            max_files: 7,
        },
        monitors: Json::Null,
    }
}

fn clean(records: Vec<JournalRecord>) -> Option<RecoveryOutcome> {
    Some(RecoveryOutcome::Clean { records })
}

fn prepared() -> JournalRecord {
    JournalRecord::Prepared {
        operation_id: String::from("x"),
        operation: Json::Object(Vec::new()),
    }
}

#[test]
fn censored_display_reveals_only_token_presence() {
    let mut settings = settings();
    settings.snipeit.url = String::from("https://example.test");
    settings.snipeit.api_token_encrypted = b"do-not-log-me".to_vec();
    let display = censored_display(&settings);
    assert!(display
        .iter()
        .any(|(key, value)| { key == "snipeit.api_token_encrypted" && value == "<configured>" }));
    assert!(display
        .iter()
        .all(|(_, value)| !value.contains("do-not-log-me")));
}

#[test]
fn pending_journal_blocks_identity_changes() {
    let mut current = settings();
    current.snipeit.url = String::from("https://old.example");
    current.snipeit.checkout_status_id = 5;
    current.snipeit.checkin_status_id = 6;
    let mut token_only = current.clone();
    token_only.snipeit.api_token_encrypted = vec![9];
    assert!(!remote_identity_changed(&current, &token_only));

    let pending = clean(vec![prepared()]);
    for candidate in [
        {
            let mut value = current.clone();
            value.snipeit.url = String::from("https://new.example");
            value
        },
        {
            let mut value = current.clone();
            value.snipeit.checkout_status_id = 7;
            value
        },
        {
            let mut value = current.clone();
            value.snipeit.checkin_status_id = 8;
            value
        },
    ] {
        assert!(remote_identity_changed(&current, &candidate));
        assert!(guard_remote_identity_change(&current, &candidate, &pending).is_err());
    }
    assert_eq!(
        guard_remote_identity_change(&current, &token_only, &pending),
        Ok(())
    );

    let mut changed = current.clone();
    changed.snipeit.url = String::from("https://new.example");
    assert_eq!(
        guard_remote_identity_change(&current, &changed, &clean(Vec::new())),
        Ok(())
    );

    let committed = clean(vec![
        prepared(),
        JournalRecord::RemoteOutcomeObserved {
            operation_id: String::from("x"),
            outcome: Json::Object(Vec::new()),
            candidate_state: None,
        },
        JournalRecord::StateCommitted {
            operation_id: String::from("x"),
        },
    ]);
    assert_eq!(
        guard_remote_identity_change(&current, &changed, &committed),
        Ok(())
    );

    let malformed = Some(RecoveryOutcome::Corrupt {
        reason: RecoveryReason::MalformedFinalRecord,
    });
    assert!(guard_remote_identity_change(&current, &changed, &malformed).is_err());
}

#[test]
fn each_refused_change_has_its_reason() {
    let current = settings();
    let mut changed = current.clone();
    changed.snipeit.url = String::from("https://new.example");
    assert_eq!(
        guard_remote_identity_change(&current, &changed, &None),
        Err(IdentityChangeError::JournalInvalid)
    );
    let blocked = Some(RecoveryOutcome::NeedsOperatorRecovery(
        OperatorRecovery::new(RecoveryReason::BlockedMarkerPresent, Vec::new(), 0),
    ));
    assert_eq!(
        guard_remote_identity_change(&current, &changed, &blocked),
        Err(IdentityChangeError::RecoveryBlocked)
    );
    assert_eq!(
        guard_remote_identity_change(&current, &changed, &clean(vec![prepared()])),
        Err(IdentityChangeError::OperationsPending)
    );
    for error in [
        IdentityChangeError::JournalInvalid,
        IdentityChangeError::RecoveryBlocked,
        IdentityChangeError::OperationsPending,
    ] {
        assert!(!error.message().is_empty());
    }
}

#[test]
fn tokens_are_set_and_redacted() {
    let with = with_token(&settings(), vec![1, 2]);
    assert_eq!(with.snipeit.api_token_encrypted, vec![1, 2]);
    assert!(redact_settings(&with).snipeit.api_token_encrypted.is_empty());
    let display = censored_display(&settings());
    assert!(display
        .iter()
        .any(|(key, value)| key == "snipeit.api_token_encrypted" && value != "<configured>"));
    assert_eq!(interval_seconds(4), 14_400);
}

#[test]
fn decrypt_config_roundtrips_fields_and_token_without_exposing_ciphertext() {
    let token = b"config-test-token";
    let ciphertext: Vec<u8> = token.iter().map(|byte| byte ^ 0x5a).collect();
    let mut settings = settings();
    settings.snipeit.url = String::from("https://example.test");
    settings.snipeit.api_token_encrypted = ciphertext.clone();
    settings.snipeit.checkout_status_id = 11;
    settings.snipeit.checkin_status_id = 12;
    let decrypted = decrypt_config(&settings, token.to_vec()).expect("the token is a text");
    assert_eq!(decrypted.url, "https://example.test");
    assert_eq!(decrypted.api_token, "config-test-token");
    assert_eq!(decrypted.checkout_status_id, 11);
    assert_eq!(decrypted.checkin_status_id, 12);
    let rendered = format!("{:?}", censored_display(&settings));
    assert!(!rendered.contains("config-test-token"));
    assert!(!rendered.contains(&format!("{ciphertext:?}")));
}

#[test]
fn decrypt_config_rejects_dpapi_encrypted_invalid_utf8_without_leaking_bytes() {
    let plaintext = [0xFF, 0xFE, 0xFD];
    let mut settings = settings();
    settings.snipeit.api_token_encrypted = vec![0xA5, 0xA4, 0xA7];
    let error = decrypt_config(&settings, plaintext.to_vec())
        .err()
        .expect("invalid decrypted UTF-8 must be rejected");
    let rendered = error.message();
    assert!(rendered.contains("not UTF-8"));
    assert!(!rendered.contains("config-test-token"));
    assert!(!rendered.contains(&format!("{:?}", settings.snipeit.api_token_encrypted)));
}
