//! The operation journal: its records, their phase order, what is still pending, and compaction.

use vstd::prelude::*;

use crate::json;
use crate::json::Json;
use crate::json::JsonView;
use crate::model::Duplicate;

verus! {

/// One durable phase of an operation.
///
/// New records follow `Prepared`, `RemoteOutcomeObserved`, `StateCommitted`. `Confirmed` is an
/// older name of `StateCommitted` that is still read.
#[derive(Clone, Debug, PartialEq, Eq)]
pub enum JournalRecord {
    Prepared { operation_id: String, operation: Json },
    RemoteOutcomeObserved { operation_id: String, outcome: Json, candidate_state: Option<Json> },
    StateCommitted { operation_id: String },
    Confirmed { operation_id: String },
}

/// The deep view of a [`JournalRecord`].
#[verifier::ext_equal]
pub enum RecordView {
    Prepared { operation_id: Seq<char>, operation: JsonView },
    RemoteOutcomeObserved {
        operation_id: Seq<char>,
        outcome: JsonView,
        candidate_state: Option<JsonView>,
    },
    StateCommitted { operation_id: Seq<char> },
    Confirmed { operation_id: Seq<char> },
}

impl DeepView for JournalRecord {
    type V = RecordView;

    open spec fn deep_view(&self) -> RecordView {
        match self {
            JournalRecord::Prepared { operation_id, operation } => RecordView::Prepared {
                operation_id: operation_id@,
                operation: json::json_view(*operation),
            },
            JournalRecord::RemoteOutcomeObserved { operation_id, outcome, candidate_state } =>
            RecordView::RemoteOutcomeObserved {
                operation_id: operation_id@,
                outcome: json::json_view(*outcome),
                candidate_state: candidate_state.deep_view(),
            },
            JournalRecord::StateCommitted { operation_id } => RecordView::StateCommitted {
                operation_id: operation_id@,
            },
            JournalRecord::Confirmed { operation_id } => RecordView::Confirmed {
                operation_id: operation_id@,
            },
        }
    }
}

impl Duplicate for JournalRecord {
    fn duplicate(&self) -> (copy: Self) {
        match self {
            JournalRecord::Prepared { operation_id, operation } => JournalRecord::Prepared {
                operation_id: operation_id.clone(),
                operation: operation.duplicate(),
            },
            JournalRecord::RemoteOutcomeObserved { operation_id, outcome, candidate_state } =>
            JournalRecord::RemoteOutcomeObserved {
                operation_id: operation_id.clone(),
                outcome: outcome.duplicate(),
                candidate_state: candidate_state.duplicate(),
            },
            JournalRecord::StateCommitted { operation_id } => JournalRecord::StateCommitted {
                operation_id: operation_id.clone(),
            },
            JournalRecord::Confirmed { operation_id } => JournalRecord::Confirmed {
                operation_id: operation_id.clone(),
            },
        }
    }
}

/// The evidence of an operation that has not reached a durable state commit.
#[derive(Clone, Debug, PartialEq, Eq)]
pub struct PendingOperation {
    pub operation_id: String,
    pub operation: Json,
    pub remote_outcome: Option<Json>,
    pub candidate_state: Option<Json>,
}

/// The deep view of a [`PendingOperation`].
#[verifier::ext_equal]
pub struct PendingView {
    pub operation_id: Seq<char>,
    pub operation: JsonView,
    pub remote_outcome: Option<JsonView>,
    pub candidate_state: Option<JsonView>,
}

impl DeepView for PendingOperation {
    type V = PendingView;

    open spec fn deep_view(&self) -> PendingView {
        PendingView {
            operation_id: self.operation_id@,
            operation: json::json_view(self.operation),
            remote_outcome: self.remote_outcome.deep_view(),
            candidate_state: self.candidate_state.deep_view(),
        }
    }
}

/// A record that breaks the order of the phases of its operation.
#[derive(Clone, Debug, PartialEq, Eq)]
pub enum PhaseError {
    PreparedAfterCommit(String),
    DuplicatePrepared(String),
    OutcomeBeforePrepared(String),
    DuplicateOutcome(String),
    CommitBeforePrepared(String),
    CommitBeforeOutcome(String),
}

/// The deep view of a [`PhaseError`].
#[verifier::ext_equal]
pub enum PhaseErrorView {
    PreparedAfterCommit(Seq<char>),
    DuplicatePrepared(Seq<char>),
    OutcomeBeforePrepared(Seq<char>),
    DuplicateOutcome(Seq<char>),
    CommitBeforePrepared(Seq<char>),
    CommitBeforeOutcome(Seq<char>),
}

impl DeepView for PhaseError {
    type V = PhaseErrorView;

    open spec fn deep_view(&self) -> PhaseErrorView {
        match self {
            PhaseError::PreparedAfterCommit(id) => PhaseErrorView::PreparedAfterCommit(id@),
            PhaseError::DuplicatePrepared(id) => PhaseErrorView::DuplicatePrepared(id@),
            PhaseError::OutcomeBeforePrepared(id) => PhaseErrorView::OutcomeBeforePrepared(id@),
            PhaseError::DuplicateOutcome(id) => PhaseErrorView::DuplicateOutcome(id@),
            PhaseError::CommitBeforePrepared(id) => PhaseErrorView::CommitBeforePrepared(id@),
            PhaseError::CommitBeforeOutcome(id) => PhaseErrorView::CommitBeforeOutcome(id@),
        }
    }
}

/// The message of a phase error.
pub open spec fn phase_message(error: PhaseErrorView) -> Seq<char> {
    match error {
        PhaseErrorView::PreparedAfterCommit(id) => "prepared operation follows terminal commit: "@
            + id,
        PhaseErrorView::DuplicatePrepared(id) => "duplicate prepared operation: "@ + id,
        PhaseErrorView::OutcomeBeforePrepared(id) =>
        "remote outcome observed before prepared operation: "@ + id,
        PhaseErrorView::DuplicateOutcome(id) => "duplicate remote outcome observed: "@ + id,
        PhaseErrorView::CommitBeforePrepared(id) => "state committed before prepared operation: "@
            + id,
        PhaseErrorView::CommitBeforeOutcome(id) => "state committed before remote outcome: "@ + id,
    }
}

impl PhaseError {
    /// Renders the error for an operator.
    pub fn message(&self) -> (text: String)
        ensures
            text@ == phase_message(self.deep_view()),
    {
        match self {
            PhaseError::PreparedAfterCommit(id) =>
            "prepared operation follows terminal commit: ".to_owned().concat(id.as_str()),
            PhaseError::DuplicatePrepared(id) => "duplicate prepared operation: ".to_owned().concat(
                id.as_str(),
            ),
            PhaseError::OutcomeBeforePrepared(id) =>
            "remote outcome observed before prepared operation: ".to_owned().concat(id.as_str()),
            PhaseError::DuplicateOutcome(id) =>
            "duplicate remote outcome observed: ".to_owned().concat(id.as_str()),
            PhaseError::CommitBeforePrepared(id) =>
            "state committed before prepared operation: ".to_owned().concat(id.as_str()),
            PhaseError::CommitBeforeOutcome(id) =>
            "state committed before remote outcome: ".to_owned().concat(id.as_str()),
        }
    }
}

// ---------------------------------------------------------------------------------------------
// Replaying the phases
// ---------------------------------------------------------------------------------------------

/// What a prefix of the journal establishes: the pending operations in the order in which they
/// were prepared, and the operations that have been committed.
#[verifier::ext_equal]
pub struct Progress {
    pub pending: Seq<PendingView>,
    pub terminal: Seq<Seq<char>>,
}

/// The position of the pending operation `id` at or after `from`, or the number of operations.
pub open spec fn position_from(pending: Seq<PendingView>, id: Seq<char>, from: int) -> int
    decreases pending.len() - from,
{
    if from >= pending.len() {
        pending.len() as int
    } else if pending[from].operation_id == id {
        from
    } else {
        position_from(pending, id, from + 1)
    }
}

/// What [`position_from`] returns: the first operation with that ID, if there is one.
pub proof fn lemma_position_from(pending: Seq<PendingView>, id: Seq<char>, from: int)
    requires
        0 <= from <= pending.len(),
    ensures
        from <= position_from(pending, id, from) <= pending.len(),
        position_from(pending, id, from) < pending.len() ==> pending[position_from(
            pending,
            id,
            from,
        )].operation_id == id,
        forall|i: int|
            from <= i < position_from(pending, id, from) ==> (#[trigger] pending[i]).operation_id
                != id,
    decreases pending.len() - from,
{
    if from < pending.len() && pending[from].operation_id != id {
        lemma_position_from(pending, id, from + 1);
    }
}

/// A pending operation that has only been prepared.
pub open spec fn prepared_only(id: Seq<char>, operation: JsonView) -> PendingView {
    PendingView {
        operation_id: id,
        operation,
        remote_outcome: None,
        candidate_state: None,
    }
}

/// The effect of one record.
pub open spec fn advance(progress: Progress, record: RecordView) -> Result<
    Progress,
    PhaseErrorView,
> {
    match record {
        RecordView::Prepared { operation_id, operation } => {
            if progress.terminal.contains(operation_id) {
                Err(PhaseErrorView::PreparedAfterCommit(operation_id))
            } else if position_from(progress.pending, operation_id, 0) < progress.pending.len() {
                Err(PhaseErrorView::DuplicatePrepared(operation_id))
            } else {
                Ok(
                    Progress {
                        pending: progress.pending.push(prepared_only(operation_id, operation)),
                        terminal: progress.terminal,
                    },
                )
            }
        },
        RecordView::RemoteOutcomeObserved { operation_id, outcome, candidate_state } => {
            let position = position_from(progress.pending, operation_id, 0);
            if position >= progress.pending.len() {
                Err(PhaseErrorView::OutcomeBeforePrepared(operation_id))
            } else if progress.pending[position].remote_outcome is Some {
                Err(PhaseErrorView::DuplicateOutcome(operation_id))
            } else {
                let observed = PendingView {
                    remote_outcome: Some(outcome),
                    candidate_state,
                    ..progress.pending[position]
                };
                Ok(
                    Progress {
                        pending: progress.pending.update(position, observed),
                        terminal: progress.terminal,
                    },
                )
            }
        },
        RecordView::StateCommitted { operation_id } => commit(progress, operation_id),
        RecordView::Confirmed { operation_id } => commit(progress, operation_id),
    }
}

/// The effect of a commit record.
pub open spec fn commit(progress: Progress, id: Seq<char>) -> Result<Progress, PhaseErrorView> {
    let position = position_from(progress.pending, id, 0);
    if position >= progress.pending.len() {
        Err(PhaseErrorView::CommitBeforePrepared(id))
    } else if progress.pending[position].remote_outcome is None {
        Err(PhaseErrorView::CommitBeforeOutcome(id))
    } else {
        Ok(
            Progress {
                pending: progress.pending.remove(position),
                terminal: progress.terminal.push(id),
            },
        )
    }
}

/// What an empty journal establishes.
pub open spec fn nothing_yet() -> Progress {
    Progress { pending: Seq::empty(), terminal: Seq::empty() }
}

/// What a journal establishes, or the first record that breaks the order of the phases.
pub open spec fn replay(records: Seq<RecordView>) -> Result<Progress, PhaseErrorView>
    decreases records.len(),
{
    if records.len() == 0 {
        Ok(nothing_yet())
    } else {
        match replay(records.drop_last()) {
            Err(error) => Err(error),
            Ok(progress) => advance(progress, records.last()),
        }
    }
}

/// An error in a prefix is the error of the whole journal.
pub proof fn lemma_replay_error_sticks(records: Seq<RecordView>, count: int)
    requires
        0 <= count <= records.len(),
        replay(records.take(count)) is Err,
    ensures
        replay(records) == replay(records.take(count)),
    decreases records.len() - count,
{
    if count < records.len() {
        assert(records.take(count + 1).drop_last() == records.take(count));
        lemma_replay_error_sticks(records, count + 1);
    } else {
        assert(records.take(count) == records);
    }
}

fn find_pending(pending: &Vec<PendingOperation>, id: &String) -> (position: usize)
    ensures
        position <= pending@.len(),
        position == position_from(pending.deep_view(), id@, 0),
{
    let mut index: usize = 0;
    while index < pending.len()
        invariant
            index <= pending@.len(),
            position_from(pending.deep_view(), id@, 0) == position_from(
                pending.deep_view(),
                id@,
                index as int,
            ),
        decreases pending.len() - index,
    {
        if pending[index].operation_id == *id {
            return index;
        }
        index += 1;
    }
    index
}

/// Whether a list of strings holds one with the given characters.
pub fn contains_text(values: &Vec<String>, wanted: &String) -> (found: bool)
    ensures
        found == values.deep_view().contains(wanted@),
{
    let mut index: usize = 0;
    while index < values.len()
        invariant
            index <= values@.len(),
            forall|i: int| 0 <= i < index ==> #[trigger] values.deep_view()[i] != wanted@,
        decreases values.len() - index,
    {
        if values[index] == *wanted {
            proof {
                assert(values.deep_view()[index as int] == wanted@);
            }
            return true;
        }
        index += 1;
    }
    false
}

fn commit_pending(
    pending: &mut Vec<PendingOperation>,
    terminal: &mut Vec<String>,
    id: &String,
) -> (failure: Option<PhaseError>)
    ensures
        ({
            let before = Progress {
                pending: old(pending).deep_view(),
                terminal: old(terminal).deep_view(),
            };
            let after = Progress {
                pending: final(pending).deep_view(),
                terminal: final(terminal).deep_view(),
            };
            match failure {
                None => commit(before, id@) == Ok::<Progress, PhaseErrorView>(after),
                Some(error) => commit(before, id@) == Err::<Progress, PhaseErrorView>(
                    error.deep_view(),
                ),
            }
        }),
{
    let ghost before = pending.deep_view();
    let position = find_pending(pending, id);
    if position >= pending.len() {
        return Some(PhaseError::CommitBeforePrepared(id.clone()));
    }
    if pending[position].remote_outcome.is_none() {
        return Some(PhaseError::CommitBeforeOutcome(id.clone()));
    }
    let ghost terminal_before = terminal.deep_view();
    pending.remove(position);
    terminal.push(id.clone());
    proof {
        assert(pending.deep_view() == before.remove(position as int));
        assert(terminal.deep_view() == terminal_before.push(id@));
    }
    None
}

fn advance_pending(
    pending: &mut Vec<PendingOperation>,
    terminal: &mut Vec<String>,
    record: &JournalRecord,
) -> (failure: Option<PhaseError>)
    ensures
        ({
            let before = Progress {
                pending: old(pending).deep_view(),
                terminal: old(terminal).deep_view(),
            };
            let after = Progress {
                pending: final(pending).deep_view(),
                terminal: final(terminal).deep_view(),
            };
            match failure {
                None => advance(before, record.deep_view()) == Ok::<Progress, PhaseErrorView>(
                    after,
                ),
                Some(error) => advance(before, record.deep_view()) == Err::<
                    Progress,
                    PhaseErrorView,
                >(error.deep_view()),
            }
        }),
{
    let ghost before = pending.deep_view();
    match record {
        JournalRecord::Prepared { operation_id, operation } => {
            if contains_text(terminal, operation_id) {
                return Some(PhaseError::PreparedAfterCommit(operation_id.clone()));
            }
            if find_pending(pending, operation_id) < pending.len() {
                return Some(PhaseError::DuplicatePrepared(operation_id.clone()));
            }
            pending.push(
                PendingOperation {
                    operation_id: operation_id.clone(),
                    operation: operation.duplicate(),
                    remote_outcome: None,
                    candidate_state: None,
                },
            );
            proof {
                assert(pending.deep_view() == before.push(
                    prepared_only(operation_id@, json::json_view(*operation)),
                ));
            }
            None
        },
        JournalRecord::RemoteOutcomeObserved { operation_id, outcome, candidate_state } => {
            let position = find_pending(pending, operation_id);
            if position >= pending.len() {
                return Some(PhaseError::OutcomeBeforePrepared(operation_id.clone()));
            }
            if pending[position].remote_outcome.is_some() {
                return Some(PhaseError::DuplicateOutcome(operation_id.clone()));
            }
            let observed = PendingOperation {
                operation_id: pending[position].operation_id.clone(),
                operation: pending[position].operation.duplicate(),
                remote_outcome: Some(outcome.duplicate()),
                candidate_state: candidate_state.duplicate(),
            };
            let ghost view = observed.deep_view();
            pending.set(position, observed);
            proof {
                assert(pending.deep_view() == before.update(position as int, view));
            }
            None
        },
        JournalRecord::StateCommitted { operation_id } => commit_pending(
            pending,
            terminal,
            operation_id,
        ),
        JournalRecord::Confirmed { operation_id } => commit_pending(pending, terminal, operation_id),
    }
}

/// Reconstructs the pending operations, in the order in which they were prepared, with the
/// evidence that the journal holds of each.
pub fn pending_with_evidence(records: &Vec<JournalRecord>) -> (result: Result<
    Vec<PendingOperation>,
    PhaseError,
>)
    ensures
        match result {
            Ok(pending) => replay(records.deep_view()) is Ok && replay(
                records.deep_view(),
            )->Ok_0.pending == pending.deep_view(),
            Err(error) => replay(records.deep_view()) == Err::<Progress, PhaseErrorView>(
                error.deep_view(),
            ),
        },
{
    let mut pending: Vec<PendingOperation> = Vec::new();
    let mut terminal: Vec<String> = Vec::new();
    let mut index: usize = 0;
    proof {
        assert(pending.deep_view() == Seq::<PendingView>::empty());
        assert(terminal.deep_view() == Seq::<Seq<char>>::empty());
        assert(records.deep_view().take(0) == Seq::<RecordView>::empty());
    }
    while index < records.len()
        invariant
            index <= records@.len(),
            replay(records.deep_view().take(index as int)) == Ok::<Progress, PhaseErrorView>(
                Progress { pending: pending.deep_view(), terminal: terminal.deep_view() },
            ),
        decreases records.len() - index,
    {
        proof {
            let next = records.deep_view().take(index + 1);
            assert(next.drop_last() == records.deep_view().take(index as int));
            assert(next.last() == records@[index as int].deep_view());
        }
        match advance_pending(&mut pending, &mut terminal, &records[index]) {
            Some(error) => {
                proof {
                    lemma_replay_error_sticks(records.deep_view(), index + 1);
                }
                return Err(error);
            },
            None => {},
        }
        index += 1;
    }
    proof {
        assert(records.deep_view().take(index as int) == records.deep_view());
    }
    Ok(pending)
}

// ---------------------------------------------------------------------------------------------
// Compaction
// ---------------------------------------------------------------------------------------------

/// The records that carry the evidence of one pending operation.
pub open spec fn evidence_records(pending: PendingView) -> Seq<RecordView> {
    let prepared = RecordView::Prepared {
        operation_id: pending.operation_id,
        operation: pending.operation,
    };
    match pending.remote_outcome {
        Some(outcome) => seq![
            prepared,
            RecordView::RemoteOutcomeObserved {
                operation_id: pending.operation_id,
                outcome,
                candidate_state: pending.candidate_state,
            },
        ],
        None => seq![prepared],
    }
}

/// The records that carry the evidence of the pending operations, and nothing else.
pub open spec fn compaction(pending: Seq<PendingView>) -> Seq<RecordView>
    decreases pending.len(),
{
    if pending.len() == 0 {
        Seq::empty()
    } else {
        compaction(pending.drop_last()) + evidence_records(pending.last())
    }
}

/// Reduces a journal to the evidence of its pending operations.
pub fn compact(records: &Vec<JournalRecord>) -> (result: Result<Vec<JournalRecord>, PhaseError>)
    ensures
        match result {
            Ok(compacted) => replay(records.deep_view()) is Ok && compacted.deep_view()
                == compaction(replay(records.deep_view())->Ok_0.pending),
            Err(error) => replay(records.deep_view()) == Err::<Progress, PhaseErrorView>(
                error.deep_view(),
            ),
        },
{
    let pending = match pending_with_evidence(records) {
        Ok(pending) => pending,
        Err(error) => {
            return Err(error);
        },
    };
    let mut compacted: Vec<JournalRecord> = Vec::new();
    let mut index: usize = 0;
    proof {
        assert(pending.deep_view().take(0) == Seq::<PendingView>::empty());
        assert(compacted.deep_view() == Seq::<RecordView>::empty());
    }
    while index < pending.len()
        invariant
            index <= pending@.len(),
            compacted.deep_view() == compaction(pending.deep_view().take(index as int)),
        decreases pending.len() - index,
    {
        let ghost before = compacted.deep_view();
        let operation = &pending[index];
        compacted.push(
            JournalRecord::Prepared {
                operation_id: operation.operation_id.clone(),
                operation: operation.operation.duplicate(),
            },
        );
        match &operation.remote_outcome {
            Some(outcome) => {
                compacted.push(
                    JournalRecord::RemoteOutcomeObserved {
                        operation_id: operation.operation_id.clone(),
                        outcome: outcome.duplicate(),
                        candidate_state: operation.candidate_state.duplicate(),
                    },
                );
            },
            None => {},
        }
        proof {
            let next = pending.deep_view().take(index + 1);
            assert(next.drop_last() == pending.deep_view().take(index as int));
            assert(next.last() == operation.deep_view());
            assert(compacted.deep_view() == before + evidence_records(operation.deep_view()));
        }
        index += 1;
    }
    proof {
        assert(pending.deep_view().take(index as int) == pending.deep_view());
    }
    Ok(compacted)
}

/// Reduces a journal once the outcomes that it holds have reached the signed state.
pub fn compact_after_state_commit(records: &Vec<JournalRecord>) -> (result: Result<
    Vec<JournalRecord>,
    PhaseError,
>)
    ensures
        match result {
            Ok(compacted) => replay(records.deep_view()) is Ok && compacted.deep_view()
                == compaction(replay(records.deep_view())->Ok_0.pending),
            Err(error) => replay(records.deep_view()) == Err::<Progress, PhaseErrorView>(
                error.deep_view(),
            ),
        },
{
    compact(records)
}

/// The commit records of some operations.
pub open spec fn commit_records(ids: Seq<Seq<char>>) -> Seq<RecordView> {
    Seq::new(ids.len(), |i: int| RecordView::StateCommitted { operation_id: ids[i] })
}

/// What a state commit does to the journal: the records to append, each durably and in order, and
/// then what the journal is reduced to.
#[derive(Debug, PartialEq, Eq)]
pub struct JournalCommit {
    pub appended: Vec<JournalRecord>,
    pub compacted: Result<Vec<JournalRecord>, PhaseError>,
}

/// Records that the state holding the outcomes of some operations has been saved.
///
/// `records` is the journal before the commit. One record is appended for each operation, in
/// order; only then is the journal reduced to what is still pending.
pub fn commit_after_state_save(
    records: &Vec<JournalRecord>,
    operation_ids: &Vec<String>,
) -> (commit: JournalCommit)
    ensures
        commit.appended.deep_view() == commit_records(operation_ids.deep_view()),
        ({
            let journal = records.deep_view() + commit_records(operation_ids.deep_view());
            match commit.compacted {
                Ok(compacted) => replay(journal) is Ok && compacted.deep_view() == compaction(
                    replay(journal)->Ok_0.pending,
                ),
                Err(error) => replay(journal) == Err::<Progress, PhaseErrorView>(error.deep_view()),
            }
        }),
{
    let mut journal = records.duplicate();
    let mut appended: Vec<JournalRecord> = Vec::new();
    let mut index: usize = 0;
    let ghost wanted = commit_records(operation_ids.deep_view());
    while index < operation_ids.len()
        invariant
            index <= operation_ids@.len(),
            wanted == commit_records(operation_ids.deep_view()),
            appended.deep_view() == wanted.take(index as int),
            journal.deep_view() == records.deep_view() + wanted.take(index as int),
        decreases operation_ids.len() - index,
    {
        let ghost journal_before = journal.deep_view();
        let ghost appended_before = appended.deep_view();
        let record = JournalRecord::StateCommitted { operation_id: operation_ids[index].clone() };
        journal.push(record.duplicate());
        appended.push(record);
        proof {
            assert(journal.deep_view() == journal_before.push(wanted[index as int]));
            assert(appended.deep_view() == appended_before.push(wanted[index as int]));
            assert(wanted.take(index + 1) == wanted.take(index as int).push(wanted[index as int]));
        }
        index += 1;
    }
    proof {
        assert(wanted.take(index as int) == wanted);
    }
    let compacted = compact_after_state_commit(&journal);
    JournalCommit { appended, compacted }
}

// ---------------------------------------------------------------------------------------------
// Laws
// ---------------------------------------------------------------------------------------------

/// What holds of the progress of every journal whose phases are in order: each pending operation
/// is pending once, none of them has been committed, and a candidate state is only kept beside an
/// observed outcome.
pub open spec fn consistent(progress: Progress) -> bool {
    &&& forall|i: int, j: int|
        0 <= i < j < progress.pending.len() ==> (#[trigger] progress.pending[i]).operation_id != (
        #[trigger] progress.pending[j]).operation_id
    &&& forall|i: int|
        0 <= i < progress.pending.len() ==> !progress.terminal.contains(
            (#[trigger] progress.pending[i]).operation_id,
        )
    &&& forall|i: int|
        0 <= i < progress.pending.len() && (#[trigger] progress.pending[i]).candidate_state is Some
            ==> progress.pending[i].remote_outcome is Some
}

proof fn lemma_advance_is_consistent(progress: Progress, record: RecordView)
    requires
        consistent(progress),
        advance(progress, record) is Ok,
    ensures
        consistent(advance(progress, record)->Ok_0),
{
    let id = match record {
        RecordView::Prepared { operation_id, .. } => operation_id,
        RecordView::RemoteOutcomeObserved { operation_id, .. } => operation_id,
        RecordView::StateCommitted { operation_id } => operation_id,
        RecordView::Confirmed { operation_id } => operation_id,
    };
    lemma_position_from(progress.pending, id, 0);
    let after = advance(progress, record)->Ok_0;
    match record {
        RecordView::Prepared { operation_id, operation } => {
            assert forall|i: int, j: int| 0 <= i < j < after.pending.len() implies (
            #[trigger] after.pending[i]).operation_id != (
            #[trigger] after.pending[j]).operation_id by {
                assert(after.pending[i] == progress.pending[i]);
            }
        },
        RecordView::RemoteOutcomeObserved { .. } => {},
        _ => {
            let position = position_from(progress.pending, id, 0);
            assert forall|i: int| 0 <= i < after.pending.len() implies !after.terminal.contains(
                (#[trigger] after.pending[i]).operation_id,
            ) by {
                let source = if i < position {
                    i
                } else {
                    i + 1
                };
                assert(after.pending[i] == progress.pending[source]);
                assert(progress.pending[source].operation_id != id) by {
                    assert(progress.pending[position].operation_id == id);
                }
                if after.terminal.contains(after.pending[i].operation_id) {
                    let k = choose|k: int|
                        0 <= k < after.terminal.len() && after.terminal[k]
                            == after.pending[i].operation_id;
                    assert(k < progress.terminal.len());
                    assert(progress.terminal[k] == progress.pending[source].operation_id);
                    assert(progress.terminal.contains(progress.pending[source].operation_id));
                }
            }
        },
    }
}

/// A journal whose phases are in order has each pending operation once, and never one that has
/// been committed.
pub proof fn replay_is_consistent(records: Seq<RecordView>)
    requires
        replay(records) is Ok,
    ensures
        consistent(replay(records)->Ok_0),
    decreases records.len(),
{
    if records.len() > 0 {
        replay_is_consistent(records.drop_last());
        lemma_advance_is_consistent(replay(records.drop_last())->Ok_0, records.last());
    }
}

proof fn lemma_replay_append(records: Seq<RecordView>, record: RecordView)
    ensures
        replay(records.push(record)) == match replay(records) {
            Err(error) => Err(error),
            Ok(progress) => advance(progress, record),
        },
{
    assert(records.push(record).drop_last() == records);
}

proof fn lemma_compaction_replays(pending: Seq<PendingView>)
    requires
        consistent(Progress { pending, terminal: Seq::empty() }),
    ensures
        replay(compaction(pending)) == Ok::<Progress, PhaseErrorView>(
            Progress { pending, terminal: Seq::empty() },
        ),
    decreases pending.len(),
{
    if pending.len() > 0 {
        let shorter = pending.drop_last();
        let last = pending.last();
        assert(consistent(Progress { pending: shorter, terminal: Seq::empty() })) by {
            assert forall|i: int, j: int| 0 <= i < j < shorter.len() implies (
            #[trigger] shorter[i]).operation_id != (#[trigger] shorter[j]).operation_id by {
                assert(pending[i].operation_id != pending[j].operation_id);
            }
            assert forall|i: int|
                0 <= i < shorter.len() && (#[trigger] shorter[i]).candidate_state
                    is Some implies shorter[i].remote_outcome is Some by {
                assert(pending[i].candidate_state is Some);
            }
        }
        lemma_compaction_replays(shorter);
        let base = compaction(shorter);
        let prepared = RecordView::Prepared {
            operation_id: last.operation_id,
            operation: last.operation,
        };
        lemma_position_from(shorter, last.operation_id, 0);
        let position = position_from(shorter, last.operation_id, 0);
        if position < shorter.len() {
            assert(pending[position].operation_id != pending[pending.len() - 1].operation_id);
        }
        lemma_replay_append(base, prepared);
        let added = shorter.push(prepared_only(last.operation_id, last.operation));
        assert(replay(base.push(prepared)) == Ok::<Progress, PhaseErrorView>(
            Progress { pending: added, terminal: Seq::empty() },
        ));
        match last.remote_outcome {
            None => {
                assert(last.candidate_state is None) by {
                    assert(pending[pending.len() - 1] == last);
                }
                assert(added == pending);
                assert(compaction(pending) == base.push(prepared));
            },
            Some(outcome) => {
                let observed = RecordView::RemoteOutcomeObserved {
                    operation_id: last.operation_id,
                    outcome,
                    candidate_state: last.candidate_state,
                };
                lemma_position_from(added, last.operation_id, 0);
                let found = position_from(added, last.operation_id, 0);
                assert(added[shorter.len() as int].operation_id == last.operation_id);
                if found < shorter.len() {
                    assert(added[found] == pending[found]);
                    assert(pending[found].operation_id != pending[pending.len() - 1].operation_id);
                }
                assert(found == shorter.len());
                lemma_replay_append(base.push(prepared), observed);
                assert(added.update(found, last) == pending);
                assert(compaction(pending) == base.push(prepared).push(observed));
            },
        }
    } else {
        assert(pending == Seq::<PendingView>::empty());
    }
}

/// Compaction loses nothing that is pending: replaying the compacted journal gives exactly the
/// pending operations of the journal that was compacted, with the same evidence and order.
pub proof fn compaction_keeps_pending(records: Seq<RecordView>)
    requires
        replay(records) is Ok,
    ensures
        replay(compaction(replay(records)->Ok_0.pending)) == Ok::<Progress, PhaseErrorView>(
            Progress { pending: replay(records)->Ok_0.pending, terminal: Seq::empty() },
        ),
{
    replay_is_consistent(records);
    lemma_compaction_replays(replay(records)->Ok_0.pending);
}

/// Compacting twice is compacting once.
pub proof fn compaction_is_idempotent(records: Seq<RecordView>)
    requires
        replay(records) is Ok,
    ensures
        ({
            let once = compaction(replay(records)->Ok_0.pending);
            replay(once) is Ok && compaction(replay(once)->Ok_0.pending) == once
        }),
{
    compaction_keeps_pending(records);
}

/// The IDs of the operations that a journal prepares, in order.
pub open spec fn prepared_ids(records: Seq<RecordView>) -> Seq<Seq<char>>
    decreases records.len(),
{
    if records.len() == 0 {
        Seq::empty()
    } else {
        let before = prepared_ids(records.drop_last());
        match records.last() {
            RecordView::Prepared { operation_id, .. } => before.push(operation_id),
            _ => before,
        }
    }
}

/// The IDs that are not among the excluded ones, in order.
pub open spec fn without(ids: Seq<Seq<char>>, excluded: Seq<Seq<char>>) -> Seq<Seq<char>>
    decreases ids.len(),
{
    if ids.len() == 0 {
        Seq::empty()
    } else {
        let before = without(ids.drop_last(), excluded);
        if excluded.contains(ids.last()) {
            before
        } else {
            before.push(ids.last())
        }
    }
}

/// The IDs of pending operations, in order.
pub open spec fn pending_ids(pending: Seq<PendingView>) -> Seq<Seq<char>> {
    Seq::new(pending.len(), |i: int| pending[i].operation_id)
}

proof fn lemma_without_one_more(
    ids: Seq<Seq<char>>,
    excluded: Seq<Seq<char>>,
    id: Seq<char>,
    position: int,
)
    requires
        0 <= position < without(ids, excluded).len(),
        without(ids, excluded)[position] == id,
        forall|i: int, j: int|
            0 <= i < j < without(ids, excluded).len() ==> #[trigger] without(ids, excluded)[i]
                != #[trigger] without(ids, excluded)[j],
    ensures
        without(ids, excluded.push(id)) == without(ids, excluded).remove(position),
    decreases ids.len(),
{
    let kept = without(ids, excluded);
    let more = excluded.push(id);
    let shorter = without(ids.drop_last(), excluded);
    assert forall|x: Seq<char>| #[trigger] more.contains(x) == (excluded.contains(x) || x == id) by {
        if excluded.contains(x) {
            let k = choose|k: int| 0 <= k < excluded.len() && excluded[k] == x;
            assert(more[k] == x);
        }
        if x == id {
            assert(more[excluded.len() as int] == x);
        }
        if more.contains(x) {
            let k = choose|k: int| 0 <= k < more.len() && more[k] == x;
            if k < excluded.len() {
                assert(excluded[k] == x);
            }
        }
    }
    if excluded.contains(ids.last()) {
        lemma_without_one_more(ids.drop_last(), excluded, id, position);
    } else if position < shorter.len() {
        assert(kept[position] == shorter[position]);
        assert(kept[shorter.len() as int] == ids.last());
        assert(ids.last() != id);
        assert forall|i: int, j: int| 0 <= i < j < shorter.len() implies #[trigger] shorter[i]
            != #[trigger] shorter[j] by {
            assert(kept[i] != kept[j]);
        }
        lemma_without_one_more(ids.drop_last(), excluded, id, position);
        assert(shorter.remove(position).push(ids.last()) == kept.remove(position));
    } else {
        assert(ids.last() == id);
        assert(kept.remove(position) == shorter);
        assert forall|i: int| 0 <= i < shorter.len() implies #[trigger] shorter[i] != id by {
            assert(kept[i] != kept[position]);
        }
        lemma_without_absent(ids.drop_last(), excluded, id);
    }
}

proof fn lemma_without_absent(ids: Seq<Seq<char>>, excluded: Seq<Seq<char>>, id: Seq<char>)
    requires
        forall|i: int| 0 <= i < without(ids, excluded).len() ==> #[trigger] without(ids, excluded)[i]
            != id,
    ensures
        without(ids, excluded.push(id)) == without(ids, excluded),
    decreases ids.len(),
{
    if ids.len() > 0 {
        let kept = without(ids, excluded);
        let shorter = without(ids.drop_last(), excluded);
        let more = excluded.push(id);
        assert forall|i: int| 0 <= i < shorter.len() implies #[trigger] shorter[i] != id by {
            assert(kept[i] == shorter[i]);
        }
        lemma_without_absent(ids.drop_last(), excluded, id);
        let last = ids.last();
        if excluded.contains(last) {
            let k = choose|k: int| 0 <= k < excluded.len() && excluded[k] == last;
            assert(more[k] == last);
        } else {
            assert(kept[shorter.len() as int] == last);
            if more.contains(last) {
                let k = choose|k: int| 0 <= k < more.len() && more[k] == last;
                if k < excluded.len() {
                    assert(excluded[k] == last);
                }
            }
        }
    }
}

/// The pending operations are the prepared ones that have not been committed, in the order in
/// which they were prepared.
pub proof fn pending_follows_prepared_order(records: Seq<RecordView>)
    requires
        replay(records) is Ok,
    ensures
        pending_ids(replay(records)->Ok_0.pending) == without(
            prepared_ids(records),
            replay(records)->Ok_0.terminal,
        ),
    decreases records.len(),
{
    if records.len() > 0 {
        let before = replay(records.drop_last())->Ok_0;
        let after = replay(records)->Ok_0;
        pending_follows_prepared_order(records.drop_last());
        replay_is_consistent(records.drop_last());
        let ids = prepared_ids(records.drop_last());
        match records.last() {
            RecordView::Prepared { operation_id, operation } => {
                assert(prepared_ids(records).drop_last() == ids);
                assert(pending_ids(after.pending) == pending_ids(before.pending).push(
                    operation_id,
                ));
            },
            RecordView::RemoteOutcomeObserved { operation_id, .. } => {
                lemma_position_from(before.pending, operation_id, 0);
                assert(pending_ids(after.pending) == pending_ids(before.pending));
            },
            RecordView::StateCommitted { operation_id } => {
                lemma_commit_order(before, ids, operation_id);
            },
            RecordView::Confirmed { operation_id } => {
                lemma_commit_order(before, ids, operation_id);
            },
        }
    }
}

proof fn lemma_commit_order(before: Progress, ids: Seq<Seq<char>>, id: Seq<char>)
    requires
        consistent(before),
        commit(before, id) is Ok,
        pending_ids(before.pending) == without(ids, before.terminal),
    ensures
        pending_ids(commit(before, id)->Ok_0.pending) == without(
            ids,
            commit(before, id)->Ok_0.terminal,
        ),
{
    let after = commit(before, id)->Ok_0;
    let position = position_from(before.pending, id, 0);
    lemma_position_from(before.pending, id, 0);
    let kept = without(ids, before.terminal);
    assert forall|i: int, j: int| 0 <= i < j < kept.len() implies #[trigger] kept[i]
        != #[trigger] kept[j] by {
        assert(before.pending[i].operation_id == kept[i]);
        assert(before.pending[j].operation_id == kept[j]);
    }
    assert(kept[position] == id) by {
        assert(pending_ids(before.pending)[position] == id);
    }
    lemma_without_one_more(ids, before.terminal, id, position);
    assert(pending_ids(after.pending) == pending_ids(before.pending).remove(position));
}

/// Once every pending operation has been committed, nothing is left to compact.
///
/// The commits may come in any order, as long as each names one of the pending operations and
/// every outcome has been observed.
pub proof fn committing_everything_empties_the_journal(
    records: Seq<RecordView>,
    ids: Seq<Seq<char>>,
)
    requires
        replay(records) is Ok,
        ids.no_duplicates(),
        ids.len() == replay(records)->Ok_0.pending.len(),
        forall|i: int|
            0 <= i < ids.len() ==> pending_ids(replay(records)->Ok_0.pending).contains(
                #[trigger] ids[i],
            ),
        forall|i: int|
            0 <= i < replay(records)->Ok_0.pending.len() ==> (
            #[trigger] replay(records)->Ok_0.pending[i]).remote_outcome is Some,
    ensures
        replay(records + commit_records(ids)) is Ok,
        replay(records + commit_records(ids))->Ok_0.pending.len() == 0,
        compaction(replay(records + commit_records(ids))->Ok_0.pending).len() == 0,
    decreases ids.len(),
{
    let progress = replay(records)->Ok_0;
    if ids.len() == 0 {
        assert(records + commit_records(ids) == records);
    } else {
        replay_is_consistent(records);
        let id = ids[0];
        let record = RecordView::StateCommitted { operation_id: id };
        let rest = ids.drop_first();
        lemma_position_from(progress.pending, id, 0);
        let position = position_from(progress.pending, id, 0);
        let k = choose|k: int|
            0 <= k < pending_ids(progress.pending).len() && pending_ids(progress.pending)[k] == id;
        assert(progress.pending[k].operation_id == id);
        assert(position <= k);
        lemma_replay_append(records, record);
        let next = replay(records.push(record))->Ok_0;
        assert(next.pending == progress.pending.remove(position));
        assert forall|i: int| 0 <= i < rest.len() implies pending_ids(next.pending).contains(
            #[trigger] rest[i],
        ) by {
            assert(rest[i] == ids[i + 1]);
            assert(ids[i + 1] != ids[0]);
            let source = choose|source: int|
                0 <= source < pending_ids(progress.pending).len() && pending_ids(
                    progress.pending,
                )[source] == ids[i + 1];
            let target = if source < position {
                source
            } else {
                source - 1
            };
            assert(source != position);
            assert(next.pending[target] == progress.pending[source]);
            assert(pending_ids(next.pending)[target] == rest[i]);
        }
        assert forall|i: int| 0 <= i < next.pending.len() implies (
        #[trigger] next.pending[i]).remote_outcome is Some by {
            let source = if i < position {
                i
            } else {
                i + 1
            };
            assert(next.pending[i] == progress.pending[source]);
        }
        assert(rest.no_duplicates()) by {
            assert forall|i: int, j: int|
                0 <= i < rest.len() && 0 <= j < rest.len() && i != j implies rest[i]
                != rest[j] by {
                assert(ids[i + 1] != ids[j + 1]);
            }
        }
        committing_everything_empties_the_journal(records.push(record), rest);
        assert(records.push(record) + commit_records(rest) == records + commit_records(ids));
    }
}

/// Whether an operation is pending and its outcome has been observed.
pub open spec fn is_observed(pending: Seq<PendingView>, id: Seq<char>) -> bool {
    exists|k: int|
        0 <= k < pending.len() && (#[trigger] pending[k]).operation_id == id
            && pending[k].remote_outcome is Some
}

/// Whether operations can be committed: each is named once, is pending, and has been observed.
pub open spec fn committable(pending: Seq<PendingView>, ids: Seq<Seq<char>>) -> bool {
    &&& ids.no_duplicates()
    &&& forall|i: int| 0 <= i < ids.len() ==> is_observed(pending, #[trigger] ids[i])
}

/// The pending operations that are not named, in order.
pub open spec fn remaining(pending: Seq<PendingView>, ids: Seq<Seq<char>>) -> Seq<PendingView>
    decreases pending.len(),
{
    if pending.len() == 0 {
        Seq::empty()
    } else {
        let before = remaining(pending.drop_last(), ids);
        if ids.contains(pending.last().operation_id) {
            before
        } else {
            before.push(pending.last())
        }
    }
}

proof fn lemma_contains_rest(ids: Seq<Seq<char>>, id: Seq<char>)
    requires
        ids.len() > 0,
        id != ids[0],
    ensures
        ids.contains(id) == ids.drop_first().contains(id),
{
    let rest = ids.drop_first();
    if ids.contains(id) {
        let k = choose|k: int| 0 <= k < ids.len() && ids[k] == id;
        assert(rest[k - 1] == id);
    }
    if rest.contains(id) {
        let k = choose|k: int| 0 <= k < rest.len() && rest[k] == id;
        assert(ids[k + 1] == id);
    }
}

proof fn lemma_remaining_absent(pending: Seq<PendingView>, ids: Seq<Seq<char>>)
    requires
        ids.len() > 0,
        forall|i: int| 0 <= i < pending.len() ==> (#[trigger] pending[i]).operation_id != ids[0],
    ensures
        remaining(pending, ids) == remaining(pending, ids.drop_first()),
    decreases pending.len(),
{
    if pending.len() > 0 {
        let shorter = pending.drop_last();
        assert forall|i: int| 0 <= i < shorter.len() implies (#[trigger] shorter[i]).operation_id
            != ids[0] by {
            assert(shorter[i] == pending[i]);
        }
        lemma_remaining_absent(shorter, ids);
        assert(pending[pending.len() - 1].operation_id != ids[0]);
        lemma_contains_rest(ids, pending.last().operation_id);
    }
}

proof fn lemma_remaining_removed(pending: Seq<PendingView>, ids: Seq<Seq<char>>, position: int)
    requires
        ids.len() > 0,
        0 <= position < pending.len(),
        pending[position].operation_id == ids[0],
        forall|i: int|
            0 <= i < pending.len() && i != position ==> (#[trigger] pending[i]).operation_id
                != ids[0],
    ensures
        remaining(pending, ids) == remaining(pending.remove(position), ids.drop_first()),
    decreases pending.len(),
{
    let shorter = pending.drop_last();
    let removed = pending.remove(position);
    if position == pending.len() - 1 {
        assert(removed == shorter);
        assert(ids.contains(pending.last().operation_id)) by {
            assert(ids[0] == pending.last().operation_id);
        }
        assert forall|i: int| 0 <= i < shorter.len() implies (#[trigger] shorter[i]).operation_id
            != ids[0] by {
            assert(shorter[i] == pending[i]);
        }
        lemma_remaining_absent(shorter, ids);
    } else {
        assert forall|i: int| 0 <= i < shorter.len() && i != position implies (
        #[trigger] shorter[i]).operation_id != ids[0] by {
            assert(shorter[i] == pending[i]);
        }
        assert(shorter[position] == pending[position]);
        lemma_remaining_removed(shorter, ids, position);
        assert(removed.drop_last() == shorter.remove(position));
        assert(removed.last() == pending.last());
        assert(pending[pending.len() - 1].operation_id != ids[0]);
        lemma_contains_rest(ids, pending.last().operation_id);
    }
}

/// Committing an operation changes of the others neither that they are pending nor that they have
/// been observed; it is itself pending no more.
proof fn lemma_observed_elsewhere(pending: Seq<PendingView>, position: int, id: Seq<char>)
    requires
        0 <= position < pending.len(),
        forall|i: int|
            0 <= i < pending.len() && i != position ==> (#[trigger] pending[i]).operation_id
                != pending[position].operation_id,
    ensures
        is_observed(pending.remove(position), id) <==> is_observed(pending, id) && id
            != pending[position].operation_id,
{
    let removed = pending.remove(position);
    if is_observed(removed, id) {
        let k = choose|k: int|
            0 <= k < removed.len() && (#[trigger] removed[k]).operation_id == id
                && removed[k].remote_outcome is Some;
        let source = if k < position {
            k
        } else {
            k + 1
        };
        assert(removed[k] == pending[source]);
    }
    if is_observed(pending, id) && id != pending[position].operation_id {
        let k = choose|k: int|
            0 <= k < pending.len() && (#[trigger] pending[k]).operation_id == id
                && pending[k].remote_outcome is Some;
        let target = if k < position {
            k
        } else {
            k - 1
        };
        assert(removed[target] == pending[k]);
    }
}

/// Committing operations takes them, and only them, out of what is pending.
///
/// The commits are in order exactly if each operation is named once, is pending, and has been
/// observed. What stays pending then is the rest, with its evidence and in its order, and the
/// compacted journal says just that.
pub proof fn commits_take_what_they_name(records: Seq<RecordView>, ids: Seq<Seq<char>>)
    requires
        replay(records) is Ok,
    ensures
        replay(records + commit_records(ids)) is Ok <==> committable(
            replay(records)->Ok_0.pending,
            ids,
        ),
        replay(records + commit_records(ids)) is Ok ==> {
            let rest = remaining(replay(records)->Ok_0.pending, ids);
            &&& replay(records + commit_records(ids))->Ok_0.pending == rest
            &&& replay(records + commit_records(ids))->Ok_0.terminal
                == replay(records)->Ok_0.terminal + ids
            &&& replay(compaction(rest)) == Ok::<Progress, PhaseErrorView>(
                Progress { pending: rest, terminal: Seq::empty() },
            )
        },
    decreases ids.len(),
{
    let progress = replay(records)->Ok_0;
    let pending = progress.pending;
    let whole = records + commit_records(ids);
    if ids.len() == 0 {
        assert(whole == records);
        lemma_remaining_all(pending, ids);
        assert(progress.terminal + ids == progress.terminal);
        assert(committable(pending, ids));
    } else {
        replay_is_consistent(records);
        let id = ids[0];
        let rest = ids.drop_first();
        let record = RecordView::StateCommitted { operation_id: id };
        lemma_position_from(pending, id, 0);
        lemma_replay_append(records, record);
        let position = position_from(pending, id, 0);
        assert(commit_records(ids)[0] == record);
        assert(whole == records.push(record) + commit_records(rest));
        if commit(progress, id) is Ok {
            assert(is_observed(pending, id)) by {
                assert(pending[position].operation_id == id);
            }
            let next = replay(records.push(record))->Ok_0;
            assert(next.pending == pending.remove(position));
            assert forall|i: int| 0 <= i < pending.len() && i != position implies (
            #[trigger] pending[i]).operation_id != pending[position].operation_id by {
                if i < position {
                    assert(pending[i].operation_id != id);
                }
            }
            commits_take_what_they_name(records.push(record), rest);
            lemma_remaining_removed(pending, ids, position);
            lemma_committable_rest(pending, ids, position);
            assert(progress.terminal.push(id) + rest == progress.terminal + ids);
        } else {
            assert(whole.take(records.len() as int + 1) == records.push(record));
            lemma_replay_error_sticks(whole, records.len() as int + 1);
            if is_observed(pending, id) {
                let k = choose|k: int|
                    0 <= k < pending.len() && (#[trigger] pending[k]).operation_id == id
                        && pending[k].remote_outcome is Some;
                assert(position <= k);
                assert(position == k);
            }
            assert(!is_observed(pending, ids[0]));
            assert(!committable(pending, ids));
        }
    }
    if replay(whole) is Ok {
        compaction_keeps_pending(whole);
    }
}

proof fn lemma_remaining_all(pending: Seq<PendingView>, ids: Seq<Seq<char>>)
    requires
        ids.len() == 0,
    ensures
        remaining(pending, ids) == pending,
    decreases pending.len(),
{
    if pending.len() > 0 {
        lemma_remaining_all(pending.drop_last(), ids);
        assert(pending.drop_last().push(pending.last()) == pending);
    }
}

proof fn lemma_committable_rest(pending: Seq<PendingView>, ids: Seq<Seq<char>>, position: int)
    requires
        ids.len() > 0,
        0 <= position < pending.len(),
        pending[position].operation_id == ids[0],
        is_observed(pending, ids[0]),
        forall|i: int|
            0 <= i < pending.len() && i != position ==> (#[trigger] pending[i]).operation_id
                != pending[position].operation_id,
    ensures
        committable(pending, ids) == committable(pending.remove(position), ids.drop_first()),
{
    let rest = ids.drop_first();
    let removed = pending.remove(position);
    if committable(pending, ids) {
        assert forall|i: int| 0 <= i < rest.len() implies is_observed(removed, #[trigger] rest[i]) by {
            assert(rest[i] == ids[i + 1]);
            assert(ids[i + 1] != ids[0]);
            lemma_observed_elsewhere(pending, position, rest[i]);
        }
        assert forall|i: int, j: int|
            0 <= i < rest.len() && 0 <= j < rest.len() && i != j implies rest[i] != rest[j] by {
            assert(ids[i + 1] != ids[j + 1]);
        }
    }
    if committable(removed, rest) {
        assert forall|i: int| 0 <= i < ids.len() implies is_observed(pending, #[trigger] ids[i]) by {
            if i > 0 {
                assert(rest[i - 1] == ids[i]);
                lemma_observed_elsewhere(pending, position, ids[i]);
            }
        }
        assert forall|i: int, j: int|
            0 <= i < ids.len() && 0 <= j < ids.len() && i != j implies ids[i] != ids[j] by {
            if i > 0 && j > 0 {
                assert(rest[i - 1] != rest[j - 1]);
            } else {
                let k = if i > 0 {
                    i
                } else {
                    j
                };
                assert(rest[k - 1] == ids[k]);
                assert(is_observed(removed, rest[k - 1]));
                lemma_observed_elsewhere(pending, position, ids[k]);
            }
        }
    }
}

/// Whether an operation is pending at a position, before which no other has its identifier.
pub open spec fn pending_at(pending: Seq<PendingView>, id: Seq<char>, position: int) -> bool {
    &&& 0 <= position < pending.len()
    &&& pending[position].operation_id == id
    &&& forall|i: int| 0 <= i < position ==> (#[trigger] pending[i]).operation_id != id
}

/// What is announced becomes pending, behind everything that is, without an outcome; unless it is
/// pending or was committed before, which are errors that name it.
pub proof fn announced_operations_become_pending(
    progress: Progress,
    id: Seq<char>,
    operation: JsonView,
)
    ensures
        ({
            let next = advance(progress, RecordView::Prepared { operation_id: id, operation });
            let known = pending_ids(progress.pending).contains(id);
            &&& progress.terminal.contains(id) ==> next == Err::<Progress, PhaseErrorView>(
                PhaseErrorView::PreparedAfterCommit(id),
            )
            &&& !progress.terminal.contains(id) && known ==> next == Err::<
                Progress,
                PhaseErrorView,
            >(PhaseErrorView::DuplicatePrepared(id))
            &&& !progress.terminal.contains(id) && !known ==> {
                &&& next is Ok
                &&& next->Ok_0.terminal == progress.terminal
                &&& next->Ok_0.pending.len() == progress.pending.len() + 1
                &&& next->Ok_0.pending.drop_last() == progress.pending
                &&& next->Ok_0.pending.last().operation_id == id
                &&& next->Ok_0.pending.last().operation == operation
                &&& next->Ok_0.pending.last().remote_outcome is None
                &&& next->Ok_0.pending.last().candidate_state is None
            }
        }),
{
    lemma_position_from(progress.pending, id, 0);
    let position = position_from(progress.pending, id, 0);
    if pending_ids(progress.pending).contains(id) {
        let k = choose|k: int|
            0 <= k < progress.pending.len() && pending_ids(progress.pending)[k] == id;
        assert(progress.pending[k].operation_id == id);
    }
    if position < progress.pending.len() {
        assert(pending_ids(progress.pending)[position] == id);
    }
}

/// An outcome goes to the pending operation that it names, with its snapshot, and changes nothing
/// else; unless that has an outcome, or nothing pending has that name, which are errors that name
/// it.
pub proof fn outcomes_go_to_their_operation(
    progress: Progress,
    id: Seq<char>,
    outcome: JsonView,
    candidate_state: Option<JsonView>,
    position: int,
)
    requires
        pending_at(progress.pending, id, position),
    ensures
        ({
            let next = advance(
                progress,
                RecordView::RemoteOutcomeObserved { operation_id: id, outcome, candidate_state },
            );
            let before = progress.pending[position];
            &&& before.remote_outcome is Some ==> next == Err::<Progress, PhaseErrorView>(
                PhaseErrorView::DuplicateOutcome(id),
            )
            &&& before.remote_outcome is None ==> {
                &&& next is Ok
                &&& next->Ok_0.terminal == progress.terminal
                &&& next->Ok_0.pending.len() == progress.pending.len()
                &&& next->Ok_0.pending[position].operation_id == id
                &&& next->Ok_0.pending[position].operation == before.operation
                &&& next->Ok_0.pending[position].remote_outcome == Some(outcome)
                &&& next->Ok_0.pending[position].candidate_state == candidate_state
                &&& forall|i: int|
                    0 <= i < progress.pending.len() && i != position ==> (
                    #[trigger] next->Ok_0.pending[i]) == progress.pending[i]
            }
        }),
{
    lemma_position_from(progress.pending, id, 0);
}

/// A commit takes the pending operation that it names out of what is pending, if its outcome is
/// known, and leaves the others, in their order; otherwise it is an error that names it. Both
/// records of a commit do so.
pub proof fn commits_take_their_operation(progress: Progress, id: Seq<char>, position: int)
    requires
        pending_at(progress.pending, id, position),
    ensures
        ({
            let next = advance(progress, RecordView::StateCommitted { operation_id: id });
            &&& advance(progress, RecordView::Confirmed { operation_id: id }) == next
            &&& progress.pending[position].remote_outcome is None ==> next == Err::<
                Progress,
                PhaseErrorView,
            >(PhaseErrorView::CommitBeforeOutcome(id))
            &&& progress.pending[position].remote_outcome is Some ==> {
                &&& next is Ok
                &&& next->Ok_0.pending == progress.pending.take(position)
                    + progress.pending.skip(position + 1)
                &&& next->Ok_0.terminal == progress.terminal.push(id)
            }
        }),
{
    lemma_position_from(progress.pending, id, 0);
    assert(progress.pending.remove(position) =~= progress.pending.take(position)
        + progress.pending.skip(position + 1));
}

/// An outcome or a commit for what was never announced is an error that names it.
pub proof fn unannounced_operations_are_errors(
    progress: Progress,
    id: Seq<char>,
    outcome: JsonView,
    candidate_state: Option<JsonView>,
)
    requires
        !pending_ids(progress.pending).contains(id),
    ensures
        advance(
            progress,
            RecordView::RemoteOutcomeObserved { operation_id: id, outcome, candidate_state },
        ) == Err::<Progress, PhaseErrorView>(PhaseErrorView::OutcomeBeforePrepared(id)),
        advance(progress, RecordView::StateCommitted { operation_id: id }) == Err::<
            Progress,
            PhaseErrorView,
        >(PhaseErrorView::CommitBeforePrepared(id)),
        advance(progress, RecordView::Confirmed { operation_id: id }) == Err::<
            Progress,
            PhaseErrorView,
        >(PhaseErrorView::CommitBeforePrepared(id)),
{
    lemma_position_from(progress.pending, id, 0);
    let position = position_from(progress.pending, id, 0);
    if position < progress.pending.len() {
        assert(pending_ids(progress.pending)[position] == id);
    }
}

} // verus!
