use snipespotter::journal::{
    commit_after_state_save, compact, compact_after_state_commit, pending_with_evidence,
    JournalRecord, PhaseError,
};
use snipespotter::json::Json;

fn field(name: &str, value: u64) -> Json {
    Json::Object(vec![(name.to_owned(), Json::Unsigned(value))])
}

fn text_field(name: &str, value: &str) -> Json {
    Json::Object(vec![(name.to_owned(), Json::Text(value.to_owned()))])
}

fn prepared(id: &str, operation: Json) -> JournalRecord {
    JournalRecord::Prepared {
        operation_id: id.to_owned(),
        operation,
    }
}

fn observed(id: &str, candidate_state: Option<Json>) -> JournalRecord {
    JournalRecord::RemoteOutcomeObserved {
        operation_id: id.to_owned(),
        outcome: text_field("status", "applied"),
        candidate_state,
    }
}

fn committed(id: &str) -> JournalRecord {
    JournalRecord::StateCommitted {
        operation_id: id.to_owned(),
    }
}

fn empty() -> Json {
    Json::Object(Vec::new())
}

#[test]
fn durable_replay_and_compaction() {
    let mut records = vec![prepared("b", field("x", 2)), prepared("a", field("x", 1))];
    for (operation_id, next) in [("b", 2), ("a", 1)] {
        records.push(observed(operation_id, Some(field("next", next))));
    }
    assert_eq!(
        pending_with_evidence(&records)
            .expect("the phases are in order")
            .len(),
        2
    );
    let mut compacted = compact(&records).expect("the phases are in order");
    assert_eq!(compacted.len(), 4);
    assert!(matches!(
        compacted.last(),
        Some(JournalRecord::RemoteOutcomeObserved {
            operation_id,
            candidate_state: Some(candidate_state),
            ..
        }) if operation_id == "a" && candidate_state == &field("next", 1)
    ));
    for operation_id in ["a", "b"] {
        compacted.push(committed(operation_id));
    }
    assert_eq!(compact(&compacted), Ok(Vec::new()));
    assert_eq!(compact_after_state_commit(&compacted), Ok(Vec::new()));
}

#[test]
fn observed_outcome_remains_recoverable_until_state_commit() {
    let records = vec![
        prepared("operation", text_field("serial", "MON")),
        JournalRecord::RemoteOutcomeObserved {
            operation_id: String::from("operation"),
            outcome: text_field("status", "unknown"),
            candidate_state: Some(text_field("monitor", "MON")),
        },
    ];
    let pending = pending_with_evidence(&records).expect("the phases are in order");
    assert_eq!(pending.len(), 1);
    assert_eq!(pending[0].operation_id, "operation");
    assert_eq!(
        pending[0].candidate_state,
        Some(text_field("monitor", "MON"))
    );
}

#[test]
fn pending_rejects_invalid_phase_sequences() {
    let records = vec![observed("operation", None), prepared("operation", empty())];
    assert!(pending_with_evidence(&records).is_err());

    let records = vec![
        prepared("operation", empty()),
        observed("operation", None),
        observed("operation", None),
    ];
    assert!(pending_with_evidence(&records).is_err());

    let records = vec![committed("operation")];
    assert!(pending_with_evidence(&records).is_err());
}

#[test]
fn pending_rejects_duplicate_and_post_terminal_prepared_records() {
    let records = vec![
        prepared("operation", field("attempt", 1)),
        prepared("operation", field("attempt", 1)),
    ];
    assert!(pending_with_evidence(&records).is_err());

    let records = vec![
        prepared("operation", empty()),
        observed("operation", None),
        committed("operation"),
        prepared("operation", empty()),
    ];
    assert!(pending_with_evidence(&records).is_err());
}

#[test]
fn pending_preserves_durable_prepared_order() {
    let records = vec![
        prepared("z-operation", text_field("state", "z")),
        prepared("a-operation", text_field("state", "a")),
        observed("z-operation", None),
        observed("a-operation", None),
    ];
    assert_eq!(
        pending_with_evidence(&records)
            .expect("the phases are in order")
            .into_iter()
            .map(|pending| pending.operation_id)
            .collect::<Vec<_>>(),
        vec![String::from("z-operation"), String::from("a-operation")]
    );
}

#[test]
fn every_phase_error_has_its_records_and_its_message() {
    let id = "x".to_owned();
    let cases = [
        (
            vec![
                prepared("x", empty()),
                observed("x", None),
                committed("x"),
                prepared("x", empty()),
            ],
            PhaseError::PreparedAfterCommit(id.clone()),
        ),
        (
            vec![prepared("x", empty()), prepared("x", empty())],
            PhaseError::DuplicatePrepared(id.clone()),
        ),
        (
            vec![observed("x", None)],
            PhaseError::OutcomeBeforePrepared(id.clone()),
        ),
        (
            vec![
                prepared("x", empty()),
                observed("x", None),
                observed("x", None),
            ],
            PhaseError::DuplicateOutcome(id.clone()),
        ),
        (
            vec![committed("x")],
            PhaseError::CommitBeforePrepared(id.clone()),
        ),
        (
            vec![
                prepared("x", empty()),
                JournalRecord::Confirmed {
                    operation_id: id.clone(),
                },
            ],
            PhaseError::CommitBeforeOutcome(id.clone()),
        ),
    ];
    for (records, error) in cases {
        assert!(error.message().ends_with(": x"), "{}", error.message());
        assert_eq!(pending_with_evidence(&records), Err(error));
    }
    assert_eq!(
        PhaseError::CommitBeforeOutcome(id).message(),
        "state committed before remote outcome: x"
    );
}

#[test]
fn a_saved_state_commits_its_operations() {
    let records = vec![
        prepared("a", empty()),
        prepared("b", empty()),
        observed("a", None),
    ];
    let commit = commit_after_state_save(&records, &vec!["a".to_owned()]);
    assert_eq!(commit.appended, vec![committed("a")]);
    assert_eq!(commit.compacted, Ok(vec![prepared("b", empty())]));
}

#[test]
fn commits_take_only_what_they_name() {
    let records = vec![
        prepared("a", field("x", 1)),
        prepared("b", field("x", 2)),
        prepared("c", field("x", 3)),
        prepared("d", field("x", 4)),
        observed("a", None),
        observed("b", Some(field("next", 2))),
        observed("c", None),
    ];
    let before = pending_with_evidence(&records).expect("the phases are in order");
    let commit = commit_after_state_save(&records, &vec!["c".to_owned(), "a".to_owned()]);
    let compacted = commit.compacted.expect("both were observed");
    let after = pending_with_evidence(&compacted).expect("the phases are in order");
    assert_eq!(after, vec![before[1].clone(), before[3].clone()]);

    let refused = |ids: &[&str]| {
        let ids = ids.iter().map(|id| (*id).to_owned()).collect();
        commit_after_state_save(&records, &ids).compacted.err()
    };
    assert_eq!(
        refused(&["a", "d"]),
        Some(PhaseError::CommitBeforeOutcome("d".to_owned()))
    );
    assert_eq!(
        refused(&["x"]),
        Some(PhaseError::CommitBeforePrepared("x".to_owned()))
    );
    assert_eq!(
        refused(&["a", "a"]),
        Some(PhaseError::CommitBeforePrepared("a".to_owned()))
    );
}
