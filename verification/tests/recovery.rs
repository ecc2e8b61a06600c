use snipespotter::journal::{compact, JournalRecord};
use snipespotter::json::Json;
use snipespotter::path::FilePath;
use snipespotter::recovery::{
    admit_mutation, blocked_marker_body, blocked_marker_path, classify_bytes, decode_lines,
    journal_lines, journal_read, load, quarantine_digest, recover_journal, quarantine_path, recovery_notice, write_quarantine,
    AfterQuarantine, InvalidRecord,
    OperatorRecovery, ParsedLine, PreservationFailure, RecoveryEvent, RecoveryOutcome,
    RecoveryReason, RecoveryStep,
};
use snipespotter::sha256::sha256_hex;
use std::collections::BTreeMap;

fn json(value: &serde_json::Value) -> Json {
    match value {
        serde_json::Value::Null => Json::Null,
        serde_json::Value::Bool(value) => Json::Bool(*value),
        serde_json::Value::Number(number) => match number.as_u64() {
            Some(value) => Json::Unsigned(value),
            None => Json::Float(number.to_string()),
        },
        serde_json::Value::String(text) => Json::Text(text.clone()),
        serde_json::Value::Array(items) => Json::List(items.iter().map(json).collect()),
        serde_json::Value::Object(fields) => Json::Object(
            fields
                .iter()
                .map(|(name, value)| (name.clone(), json(value)))
                .collect(),
        ),
    }
}

fn record(value: &serde_json::Value) -> Option<JournalRecord> {
    let operation_id = value.get("operation_id")?.as_str()?.to_owned();
    match value.get("phase")?.as_str()? {
        "prepared" => Some(JournalRecord::Prepared {
            operation_id,
            operation: json(value.get("operation")?),
        }),
        "remote_outcome_observed" => Some(JournalRecord::RemoteOutcomeObserved {
            operation_id,
            outcome: json(value.get("outcome")?),
            candidate_state: value.get("candidate_state").map(json),
        }),
        "state_committed" => Some(JournalRecord::StateCommitted { operation_id }),
        "confirmed" => Some(JournalRecord::Confirmed { operation_id }),
        _ => None,
    }
}

fn parse(line: &[u8]) -> ParsedLine {
    match serde_json::from_slice::<serde_json::Value>(line) {
        Ok(value) => match record(&value) {
            Some(record) => ParsedLine::Record(record),
            None => ParsedLine::Malformed,
        },
        Err(error) if error.is_eof() => ParsedLine::Incomplete,
        Err(_) => ParsedLine::Malformed,
    }
}

fn named(name: &str) -> FilePath {
    FilePath {
        directory: "data".to_owned(),
        file_name: Some(name.to_owned()),
    }
}

fn name_of(path: &FilePath) -> String {
    path.file_name.clone().expect("the path has a name")
}

/// Files by name, and which of them cannot be written.
struct Disk {
    files: BTreeMap<String, Vec<u8>>,
    fail_quarantine: bool,
    fail_marker: bool,
    fail_replacement: bool,
}

impl Disk {
    fn with_journal(bytes: &[u8]) -> Disk {
        let mut files = BTreeMap::new();
        files.insert("operations.jsonl".to_owned(), bytes.to_vec());
        Disk {
            files,
            fail_quarantine: false,
            fail_marker: false,
            fail_replacement: false,
        }
    }

    fn journal(&self) -> &[u8] {
        &self.files["operations.jsonl"]
    }

    fn quarantine_name(&self) -> Option<String> {
        self.files
            .keys()
            .find(|name| name.starts_with("operations.jsonl.quarantine-"))
            .cloned()
    }

    fn write_quarantine(&mut self, bytes: &[u8], timestamp: u128) -> FilePath {
        let journal = named("operations.jsonl");
        let digest = quarantine_digest(bytes);
        let mut attempt: u64 = 0;
        loop {
            let path = write_quarantine(&journal, timestamp, &digest, attempt)
                .expect("there are attempts left");
            if !self.files.contains_key(&name_of(&path)) {
                self.files.insert(name_of(&path), bytes.to_vec());
                return path;
            }
            attempt += 1;
        }
    }

    fn perform(&mut self, step: &RecoveryStep) -> RecoveryEvent {
        let journal = named("operations.jsonl");
        let marker = name_of(&blocked_marker_path(&journal));
        match step {
            RecoveryStep::InspectMarker => {
                if self.files.contains_key(&marker) {
                    RecoveryEvent::MarkerFound
                } else {
                    RecoveryEvent::MarkerAbsent
                }
            }
            RecoveryStep::ReadJournal => match self.files.get("operations.jsonl") {
                None => RecoveryEvent::JournalMissing,
                Some(bytes) => journal_read(bytes.clone(), parse),
            },
            RecoveryStep::Quarantine { bytes, .. } => {
                if self.fail_quarantine {
                    return RecoveryEvent::QuarantineFailed;
                }
                let path = self.write_quarantine(bytes, 42);
                RecoveryEvent::QuarantineWritten { path }
            }
            RecoveryStep::WriteMarker { quarantine, .. } => {
                if self.fail_marker {
                    return RecoveryEvent::MarkerFailed;
                }
                let body = blocked_marker_body(
                    RecoveryReason::IncompleteUnterminatedSuffix,
                    "2026-01-01T00:00:00Z",
                    &vec![name_of(quarantine)],
                );
                self.files.insert(marker, body.into_bytes());
                RecoveryEvent::MarkerWritten
            }
            RecoveryStep::Replace { bytes, .. } => {
                if self.fail_replacement {
                    return RecoveryEvent::ReplacementFailed;
                }
                self.files
                    .insert("operations.jsonl".to_owned(), bytes.clone());
                RecoveryEvent::ReplacementWritten
            }
            RecoveryStep::Done { .. } | RecoveryStep::Unreadable => {
                panic!("there is nothing to do")
            }
        }
    }

    fn check_marker(&self) -> Result<(), String> {
        let marker = name_of(&blocked_marker_path(&named("operations.jsonl")));
        admit_mutation(self.files.contains_key(&marker)).map_err(|error| error.message())
    }

    fn append(&mut self, line: &[u8]) -> Result<(), String> {
        self.check_marker()?;
        let mut bytes = self.journal().to_vec();
        bytes.extend_from_slice(line);
        self.files.insert("operations.jsonl".to_owned(), bytes);
        Ok(())
    }

    fn compact(&mut self) -> Result<(), String> {
        self.check_marker()?;
        let RecoveryOutcome::Clean { records } = classify_bytes(self.journal(), parse) else {
            panic!("the journal is clean");
        };
        if compact(&records) == Ok(Vec::new()) {
            self.files.insert("operations.jsonl".to_owned(), Vec::new());
        }
        Ok(())
    }

    fn recover(&mut self) -> RecoveryOutcome {
        let mut step = RecoveryStep::InspectMarker;
        loop {
            match step {
                RecoveryStep::Done { outcome } => return outcome,
                RecoveryStep::Unreadable => panic!("the journal can be read"),
                waiting => {
                    let event = self.perform(&waiting);
                    step = recover_journal(&named("operations.jsonl"), waiting, event);
                }
            }
        }
    }
}

#[test]
fn malformed_and_partial_records_are_rejected() {
    assert!(!matches!(
        classify_bytes(b"{\"phase\":\"prepared\"}\nnot-json\n", parse),
        RecoveryOutcome::Clean { .. }
    ));
    let lines = |bytes: &[u8]| -> Vec<ParsedLine> {
        journal_lines(bytes).lines.iter().map(|line| parse(line)).collect()
    };
    assert_eq!(
        load(lines(b"{\"phase\":\"prepared\"}\nnot-json\n")),
        Err(InvalidRecord)
    );
    assert_eq!(InvalidRecord.message(), "invalid operation journal record");
    let loaded = load(lines(
        b"{\"phase\":\"prepared\",\"operation_id\":\"a\",\"operation\":{}}\n",
    ));
    assert_eq!(loaded.expect("the record is complete").len(), 1);
    let outcome = classify_bytes(
        b"{\"phase\":\"prepared\",\"operation_id\":\"a\",\"operation\":{}}\n",
        parse,
    );
    assert!(matches!(outcome, RecoveryOutcome::Clean { records } if records.len() == 1));
}

#[test]
fn journal_truncation_prefix_property() {
    let record = br#"{"phase":"prepared","operation_id":"a","operation":{}}
{"phase":"remote_outcome_observed","operation_id":"a","outcome":{"status":"applied"}}
{"phase":"state_committed","operation_id":"a"}
"#;
    for cut in 0..=record.len() {
        let bytes = &record[..cut];
        let outcome = classify_bytes(bytes, parse);
        if let RecoveryOutcome::Clean { records } = outcome {
            let complete_lines = bytes
                .split(|byte| *byte == b'\n')
                .filter(|line| !line.is_empty())
                .count();
            assert!(records.len() <= complete_lines, "cut={cut}");
        }
    }
}

#[test]
fn a_truncated_journal_is_never_corrupt() {
    let whole = br#"{"phase":"prepared","operation_id":"a","operation":{}}
{"phase":"remote_outcome_observed","operation_id":"a","outcome":{"status":"applied"}}
{"phase":"state_committed","operation_id":"a"}
"#;
    let RecoveryOutcome::Clean { records: all } = classify_bytes(whole, parse) else {
        panic!("the whole journal is clean");
    };
    assert_eq!(all.len(), 3);
    for cut in 0..=whole.len() {
        let bytes = &whole[..cut];
        match classify_bytes(bytes, parse) {
            RecoveryOutcome::Clean { records } => {
                assert_eq!(records, all[..records.len()], "cut={cut}");
                assert_eq!(records.len(), journal_lines(bytes).lines.len(), "cut={cut}");
            }
            RecoveryOutcome::NeedsOperatorRecovery(recovery) => {
                assert_eq!(
                    *recovery.reason(),
                    RecoveryReason::IncompleteUnterminatedSuffix
                );
                let terminated = bytes.iter().filter(|byte| **byte == b'\n').count();
                assert_eq!(recovery.validated_record_count(), terminated, "cut={cut}");
            }
            other => panic!("cut={cut}: {other:?}"),
        }
    }
}

#[test]
fn every_line_is_decoded() {
    let bytes = b"{\"phase\":\"state_committed\",\"operation_id\":\"a\"}\n\n{";
    assert_eq!(
        decode_lines(bytes, parse),
        vec![
            ParsedLine::Record(JournalRecord::StateCommitted {
                operation_id: "a".to_owned()
            }),
            ParsedLine::Incomplete,
            ParsedLine::Incomplete,
        ]
    );
    let event = journal_read(bytes.to_vec(), parse);
    assert!(
        matches!(event, RecoveryEvent::JournalRead { bytes: read, parsed } if read == bytes && parsed.len() == 3)
    );
}

#[test]
fn recovery_notice_survives_pre_subscriber_window() {
    let journal_path = FilePath {
        directory: "/var/lib/SnipeSpotter".to_owned(),
        file_name: Some("operations.jsonl".to_owned()),
    };
    let quarantine = FilePath {
        directory: "/var/lib/SnipeSpotter".to_owned(),
        file_name: Some("operations.jsonl.quarantine-1234-deadbeefdeadbeef".to_owned()),
    };
    let marker = blocked_marker_path(&journal_path);
    let outcome = RecoveryOutcome::NeedsOperatorRecovery(OperatorRecovery::new(
        RecoveryReason::IncompleteUnterminatedSuffix,
        vec![quarantine, marker],
        3,
    ));

    let notice = recovery_notice(&journal_path, &outcome);
    assert!(!notice.is_empty());
    assert!(notice.len() < 512);
    assert!(notice.contains("reason=incomplete unterminated journal suffix"));
    assert!(notice.contains(
        "evidence_paths=operations.jsonl.quarantine-1234-deadbeefdeadbeef,operations.jsonl.recovery-blocked"
    ));
    assert!(notice.contains("validated_record_count=3"));
    assert!(!notice.contains("var/lib"));
    assert!(!notice.contains('/'));
}

#[test]
fn journal_recovery_classification_table() {
    let prepared = b"{\"phase\":\"prepared\",\"operation_id\":\"a\",\"operation\":{}}\n";
    assert!(
        matches!(classify_bytes(prepared, parse), RecoveryOutcome::Clean { records } if records.len() == 1)
    );

    let incomplete = b"{\"phase\":\"prepared\",\"operation_id\":\"a\",\"operation\":{";
    let outcome = classify_bytes(incomplete, parse);
    assert!(matches!(outcome, RecoveryOutcome::NeedsOperatorRecovery(_)));
    if let RecoveryOutcome::NeedsOperatorRecovery(recovery) = outcome {
        assert_eq!(recovery.validated_record_count(), 0);
        assert!(recovery.evidence_paths().is_empty());
    }

    let complete_without_newline = prepared.strip_suffix(b"\\n").unwrap_or(prepared);
    assert!(
        matches!(classify_bytes(complete_without_newline, parse), RecoveryOutcome::Clean { records } if records.len() == 1)
    );
}

#[test]
fn unterminated_complete_record_retains_evidence() {
    let bytes = b"{\"phase\":\"prepared\",\"operation_id\":\"a\",\"operation\":{}}";
    let outcome = classify_bytes(bytes, parse);
    assert!(matches!(outcome, RecoveryOutcome::Clean { records } if records.len() == 1));
}

#[test]
fn phases_out_of_order_are_corrupt() {
    let bytes = b"{\"phase\":\"state_committed\",\"operation_id\":\"a\"}\n";
    assert_eq!(
        classify_bytes(bytes, parse),
        RecoveryOutcome::Corrupt {
            reason: RecoveryReason::InvalidPhaseSequence
        }
    );
    assert_eq!(
        classify_bytes(b"not-json", parse),
        RecoveryOutcome::Corrupt {
            reason: RecoveryReason::MalformedFinalRecord
        }
    );
}

fn recover_with(stage: &str, original: &[u8]) -> RecoveryOutcome {
    let mut disk = Disk::with_journal(original);
    disk.fail_quarantine = stage == "quarantine";
    disk.fail_marker = stage == "marker";
    disk.fail_replacement = stage == "replacement";
    disk.recover()
}

#[test]
fn journal_preservation_failure_is_closed() {
    let incomplete = br#"{"phase":"prepared","operation_id":"a","operation":{} }
{"#;
    let complete = br#"{"phase":"prepared","operation_id":"a","operation":{}}"#;
    let failure_cases = [
        (
            "quarantine",
            incomplete.as_slice(),
            PreservationFailure::QuarantineWrite,
        ),
        (
            "marker",
            incomplete.as_slice(),
            PreservationFailure::MarkerWrite,
        ),
        (
            "replacement",
            complete.as_slice(),
            PreservationFailure::Replacement,
        ),
    ];
    for (stage, original, expected) in failure_cases {
        let outcome = recover_with(stage, original);
        assert!(
            matches!(outcome, RecoveryOutcome::PreservationFailed(failure) if failure == expected)
        );
    }
}

#[test]
fn journal_recovery_crash_boundary_table() {
    let incomplete = br#"{"phase":"prepared","operation_id":"a","operation":{} }
{"#;
    let complete = br#"{"phase":"prepared","operation_id":"a","operation":{}}"#;
    let boundaries = [
        (
            "preserve",
            incomplete.as_slice(),
            true,
            false,
            false,
            PreservationFailure::QuarantineWrite,
        ),
        (
            "marker",
            incomplete.as_slice(),
            false,
            true,
            false,
            PreservationFailure::MarkerWrite,
        ),
        (
            "normalize",
            complete.as_slice(),
            false,
            false,
            true,
            PreservationFailure::Replacement,
        ),
    ];
    for (boundary, original, fail_quarantine, fail_marker, fail_replacement, expected) in boundaries
    {
        let mut disk = Disk::with_journal(original);
        disk.fail_quarantine = fail_quarantine;
        disk.fail_marker = fail_marker;
        disk.fail_replacement = fail_replacement;
        let outcome = disk.recover();
        assert!(
            matches!(outcome, RecoveryOutcome::PreservationFailed(failure) if failure == expected),
            "boundary={boundary}"
        );
        assert_eq!(disk.journal(), original, "boundary={boundary}");
    }
}

#[test]
fn normalization_quarantines_exact_original_and_replaces_atomically() {
    let original = br#"{"phase":"prepared","operation_id":"secret-token","operation":{"token":"never-log"}}"#;
    let mut disk = Disk::with_journal(original);
    let outcome = disk.recover();
    assert!(matches!(outcome, RecoveryOutcome::Clean { records } if records.len() == 1));
    let mut expected = original.to_vec();
    expected.push(b'\n');
    assert_eq!(disk.journal(), expected);
    let quarantine = disk
        .quarantine_name()
        .expect("quarantine artifact was not created");
    assert_eq!(disk.files[&quarantine], original);
}

#[test]
fn incomplete_tail_creates_sticky_redacted_marker() {
    let original = br#"{"phase":"prepared","operation_id":"secret-token","operation":{"token":"never-log"}}
{"#;
    let mut disk = Disk::with_journal(original);
    let first = disk.recover();
    assert!(matches!(first, RecoveryOutcome::NeedsOperatorRecovery(_)));
    let marker = name_of(&blocked_marker_path(&named("operations.jsonl")));
    let marker_text =
        String::from_utf8(disk.files[&marker].clone()).expect("the marker is a text");
    assert!(marker_text.contains("incomplete unterminated journal suffix"));
    assert!(!marker_text.contains("secret-token"));
    assert!(!marker_text.contains("never-log"));
    assert_eq!(disk.journal(), original);

    let second = disk.recover();
    assert!(
        matches!(second, RecoveryOutcome::NeedsOperatorRecovery(recovery) if recovery.reason() == &RecoveryReason::BlockedMarkerPresent)
    );
}

#[test]
fn blocked_marker_survives_restart_with_valid_looking_prefix() {
    let original = br#"{"phase":"prepared","operation_id":"checkout:1","operation":{"operation_id":"checkout:1"}}
{"#;
    let mut disk = Disk::with_journal(original);
    let first = disk.recover();
    assert!(matches!(first, RecoveryOutcome::NeedsOperatorRecovery(_)));
    let marker = name_of(&blocked_marker_path(&named("operations.jsonl")));
    assert!(disk.files.contains_key(&marker));

    // A restart cannot make the prefix admissible by rewriting the journal bytes.
    disk.files.insert(
        "operations.jsonl".to_owned(),
        br#"{"phase":"prepared","operation_id":"checkout:1","operation":{"operation_id":"checkout:1"}}
"#
        .to_vec(),
    );
    for _ in 0..3 {
        let outcome = disk.recover();
        assert!(matches!(
            outcome,
            RecoveryOutcome::NeedsOperatorRecovery(recovery)
                if recovery.reason() == &RecoveryReason::BlockedMarkerPresent
        ));
    }
    assert!(disk.files.contains_key(&marker));
}

#[test]
fn quarantine_name_contains_exactly_sixteen_digest_hex_digits() {
    let mut disk = Disk::with_journal(br#"{"phase":"prepared","operation_id":"a","operation":{}}"#);
    disk.recover();
    let name = disk
        .quarantine_name()
        .expect("quarantine artifact was not created");
    let digest = name
        .strip_prefix("operations.jsonl.quarantine-")
        .and_then(|suffix| suffix.split_once('-'))
        .map(|(_, digest)| digest)
        .expect("quarantine name has no digest");
    assert_eq!(digest.len(), 16);
    assert!(digest.bytes().all(|byte| byte.is_ascii_hexdigit()));
}

#[test]
fn active_append_refuses_a_sticky_recovery_marker() {
    let mut disk = Disk::with_journal(b"");
    let marker = name_of(&blocked_marker_path(&named("operations.jsonl")));
    disk.files
        .insert(marker, b"operator recovery\n".to_vec());

    let error = disk
        .append(b"{\"phase\":\"prepared\",\"operation_id\":\"must-not-write\",\"operation\":{}}\n")
        .expect_err("a blocked journal must reject active appends");
    assert!(error.contains("recovery is blocked"));
    assert!(disk.journal().is_empty());
}

#[test]
fn compaction_refuses_a_sticky_recovery_marker() {
    let mut disk = Disk::with_journal(b"");
    disk.append(b"{\"phase\":\"prepared\",\"operation_id\":\"must-not-compact\",\"operation\":{}}\n")
        .expect("nothing blocks the journal");
    let before = disk.journal().to_vec();
    let marker = name_of(&blocked_marker_path(&named("operations.jsonl")));
    disk.files
        .insert(marker, b"operator recovery\n".to_vec());

    let error = disk
        .compact()
        .expect_err("a blocked journal must reject compaction");
    assert!(error.contains("recovery is blocked"));
    assert_eq!(disk.journal(), before);
}

#[test]
fn malformed_journal_quarantines_original_without_leaking_summary_data() {
    let original = br#"{"phase":"prepared","operation_id":"sensitive-id","operation":{"token":"sensitive-body"}}
not-json
{"phase":"state_committed","operation_id":"sensitive-id"}
"#;
    let mut disk = Disk::with_journal(original);
    let outcome = disk.recover();
    assert!(matches!(
        outcome,
        RecoveryOutcome::Corrupt {
            reason: RecoveryReason::MalformedMiddleRecord
        }
    ));
    let notice = recovery_notice(&named("operations.jsonl"), &outcome);
    assert!(!notice.contains("sensitive"));
    assert_eq!(disk.journal(), original);
    let quarantine = disk
        .quarantine_name()
        .expect("quarantine artifact was not created");
    assert_eq!(disk.files[&quarantine], original);
}

#[test]
fn journal_quarantine_collision_preserves_original() {
    let original = b"evidence bytes";
    let mut disk = Disk::with_journal(original);
    let digest = sha256_hex(original)[..16].to_owned();
    assert_eq!(quarantine_digest(original), digest);
    let first = quarantine_path(&named("operations.jsonl"), 42, &digest, 0);
    disk.files
        .insert(name_of(&first), b"existing evidence".to_vec());

    let second = disk.write_quarantine(original, 42);
    assert_ne!(second, first);
    assert_eq!(disk.journal(), original);
    assert_eq!(disk.files[&name_of(&first)], b"existing evidence");
    assert_eq!(disk.files[&name_of(&second)], original);
    assert_eq!(
        write_quarantine(&named("operations.jsonl"), 42, &digest, 64),
        None
    );
}

#[test]
fn journals_that_cannot_be_read_stay_untouched() {
    let journal = named("operations.jsonl");
    assert_eq!(
        recover_journal(&journal, RecoveryStep::InspectMarker, RecoveryEvent::MarkerUnknown),
        RecoveryStep::Done {
            outcome: RecoveryOutcome::NeedsOperatorRecovery(OperatorRecovery::new(
                RecoveryReason::BlockedMarkerPresent,
                vec![blocked_marker_path(&journal)],
                0,
            ))
        }
    );
    assert_eq!(
        recover_journal(&journal, RecoveryStep::ReadJournal, RecoveryEvent::JournalUnreadable),
        RecoveryStep::Unreadable
    );
    let missing =
        recover_journal(&journal, RecoveryStep::ReadJournal, RecoveryEvent::JournalMissing);
    assert_eq!(
        missing,
        RecoveryStep::Done {
            outcome: RecoveryOutcome::Clean {
                records: Vec::new()
            }
        }
    );
    let normalizing = recover_journal(
        &journal,
        RecoveryStep::ReadJournal,
        RecoveryEvent::JournalRead {
            bytes: b"{}".to_vec(),
            parsed: vec![ParsedLine::Record(JournalRecord::Prepared {
                operation_id: "a".to_owned(),
                operation: Json::Null,
            })],
        },
    );
    assert!(matches!(
        normalizing,
        RecoveryStep::Quarantine {
            next: AfterQuarantine::Normalize { .. },
            ..
        }
    ));
}

#[test]
fn an_appended_record_is_loaded_after_the_others() {
    let first = b"{\"phase\":\"prepared\",\"operation_id\":\"a\",\"operation\":{}}\n".to_vec();
    let line = b"{\"phase\":\"state_committed\",\"operation_id\":\"a\"}";
    let mut whole = first.clone();
    whole.extend(line);
    whole.push(b'\n');
    let old = load(decode_lines(&first, parse)).expect("the first line holds a record");
    let all = load(decode_lines(&whole, parse)).expect("both lines hold a record");
    assert_eq!(all.len(), old.len() + 1);
    assert_eq!(all[..old.len()], old);
    assert_eq!(
        all[old.len()],
        JournalRecord::StateCommitted {
            operation_id: "a".to_owned()
        }
    );
    whole.extend(b"not a record\n");
    assert_eq!(load(decode_lines(&whole, parse)), Err(InvalidRecord));
}
