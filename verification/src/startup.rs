//! Recovery at startup: what was left pending is replayed, becomes part of the state, and leaves
//! the journal.

use vstd::prelude::*;

use crate::evidence;
use crate::evidence::Operation;
use crate::evidence::OperationView;
use crate::failure;
use crate::failure::Failure;
use crate::failure::FailureView;
use crate::journal;
use crate::journal::JournalRecord;
use crate::journal::PendingOperation;
use crate::journal::PendingView;
use crate::journal::PhaseError;
use crate::journal::PhaseErrorView;
use crate::journal::Progress;
use crate::journal::RecordView;
use crate::json;
use crate::model::Asset;
use crate::model::AssetSummaryView;
use crate::model::Duplicate;
use crate::model::ServiceState;
use crate::model::StateView;
use crate::snapshot;
use crate::sync_engine;
use crate::transition;

verus! {

/// Where startup recovery stands.
#[derive(Debug)]
pub enum StartupPhase {
    /// The next pending operation is to be replayed; once there is none, the journal is to be
    /// loaded again.
    Replaying,
    /// The outcome of the operation is to be made durable.
    Recording { record: JournalRecord },
    /// The state is to be made durable.
    Saving { candidate: ServiceState },
    /// The journal is to be told of the durable state.
    Committing { candidate: ServiceState },
    /// Recovery is over.
    Finished,
    /// Recovery cannot go on.
    Stopped { message: String },
}

/// The deep view of a [`StartupPhase`].
#[verifier::ext_equal]
pub enum StartupPhaseView {
    Replaying,
    Recording { record: RecordView },
    Saving { candidate: StateView },
    Committing { candidate: StateView },
    Finished,
    Stopped { message: Seq<char> },
}

impl DeepView for StartupPhase {
    type V = StartupPhaseView;

    open spec fn deep_view(&self) -> StartupPhaseView {
        match self {
            StartupPhase::Replaying => StartupPhaseView::Replaying,
            StartupPhase::Recording { record } => StartupPhaseView::Recording {
                record: record.deep_view(),
            },
            StartupPhase::Saving { candidate } => StartupPhaseView::Saving {
                candidate: candidate.deep_view(),
            },
            StartupPhase::Committing { candidate } => StartupPhaseView::Committing {
                candidate: candidate.deep_view(),
            },
            StartupPhase::Finished => StartupPhaseView::Finished,
            StartupPhase::Stopped { message } => StartupPhaseView::Stopped { message: message@ },
        }
    }
}

/// Startup recovery in progress.
#[derive(Debug)]
pub struct StartupRecovery {
    pub persisted: ServiceState,
    pub pending: Vec<PendingOperation>,
    pub observed: Vec<String>,
    pub phase: StartupPhase,
}

/// The deep view of a [`StartupRecovery`].
#[verifier::ext_equal]
pub struct StartupView {
    pub persisted: StateView,
    pub pending: Seq<PendingView>,
    pub observed: Seq<Seq<char>>,
    pub phase: StartupPhaseView,
}

impl DeepView for StartupRecovery {
    type V = StartupView;

    open spec fn deep_view(&self) -> StartupView {
        StartupView {
            persisted: self.persisted.deep_view(),
            pending: self.pending.deep_view(),
            observed: self.observed.deep_view(),
            phase: self.phase.deep_view(),
        }
    }
}

/// Whether the operations are replayed in order.
pub open spec fn well_formed(recovery: StartupView) -> bool {
    &&& recovery.observed.len() <= recovery.pending.len()
    &&& forall|i: int|
        0 <= i < recovery.observed.len() ==> #[trigger] recovery.observed[i]
            == recovery.pending[i].operation_id
    &&& match recovery.phase {
        StartupPhaseView::Recording { record } => recovery.observed.len() < recovery.pending.len(),
        StartupPhaseView::Saving { .. } => recovery.observed.len() == recovery.pending.len(),
        StartupPhaseView::Committing { .. } => recovery.observed.len() == recovery.pending.len(),
        _ => true,
    }
}

/// What startup recovery asks for.
#[derive(Debug, PartialEq, Eq)]
pub enum StartupAction {
    /// Make sure that the server has carried out an operation.
    Call { operation: Operation },
    /// Make a record durable.
    Append { record: JournalRecord },
    /// Load the journal.
    Load,
    /// Make a state durable.
    Save { state: ServiceState },
    /// Note in the journal that operations are part of the durable state.
    Commit { operation_ids: Vec<String> },
    /// Start the service with the recovered state.
    Done,
    /// Give up.
    Stop { message: String },
}

/// The deep view of a [`StartupAction`].
#[verifier::ext_equal]
pub enum StartupActionView {
    Call { operation: OperationView },
    Append { record: RecordView },
    Load,
    Save { state: StateView },
    Commit { operation_ids: Seq<Seq<char>> },
    Done,
    Stop { message: Seq<char> },
}

impl DeepView for StartupAction {
    type V = StartupActionView;

    open spec fn deep_view(&self) -> StartupActionView {
        match self {
            StartupAction::Call { operation } => StartupActionView::Call {
                operation: operation.deep_view(),
            },
            StartupAction::Append { record } => StartupActionView::Append {
                record: record.deep_view(),
            },
            StartupAction::Load => StartupActionView::Load,
            StartupAction::Save { state } => StartupActionView::Save { state: state.deep_view() },
            StartupAction::Commit { operation_ids } => StartupActionView::Commit {
                operation_ids: operation_ids.deep_view(),
            },
            StartupAction::Done => StartupActionView::Done,
            StartupAction::Stop { message } => StartupActionView::Stop { message: message@ },
        }
    }
}

/// What came of an action.
#[derive(Debug, PartialEq, Eq)]
pub enum StartupEvent {
    /// The server has carried out the operation; for a patch it reports the asset.
    Called { asset: Option<Asset> },
    /// The record is durable.
    Appended,
    /// The journal holds these records.
    Loaded { records: Vec<JournalRecord> },
    /// The state is durable.
    Saved,
    /// The journal has been told.
    Committed,
    /// The action failed.
    Failed { failure: Failure },
}

/// The deep view of a [`StartupEvent`].
#[verifier::ext_equal]
pub enum StartupEventView {
    Called { asset: Option<AssetSummaryView> },
    Appended,
    Loaded { records: Seq<RecordView> },
    Saved,
    Committed,
    Failed { failure: FailureView },
}

impl DeepView for StartupEvent {
    type V = StartupEventView;

    open spec fn deep_view(&self) -> StartupEventView {
        match self {
            StartupEvent::Called { asset } => StartupEventView::Called {
                asset: transition::patched_summary(
                    match asset {
                        Some(asset) => Some(asset),
                        None => None,
                    },
                ),
            },
            StartupEvent::Appended => StartupEventView::Appended,
            StartupEvent::Loaded { records } => StartupEventView::Loaded {
                records: records.deep_view(),
            },
            StartupEvent::Saved => StartupEventView::Saved,
            StartupEvent::Committed => StartupEventView::Committed,
            StartupEvent::Failed { failure } => StartupEventView::Failed {
                failure: failure.deep_view(),
            },
        }
    }
}

/// What recovery asks for while operations are replayed.
pub open spec fn replay_action(recovery: StartupView) -> StartupActionView {
    let done = recovery.observed.len() as int;
    if done < recovery.pending.len() {
        match sync_engine::replay_of(recovery.pending[done]) {
            Ok(replay) => StartupActionView::Call { operation: replay.operation },
            Err(fault) => StartupActionView::Stop {
                message: evidence::fault_text(fault, recovery.pending[done].operation_id),
            },
        }
    } else if done == 0 {
        StartupActionView::Done
    } else {
        StartupActionView::Load
    }
}

/// What recovery asks for.
pub open spec fn action_of(recovery: StartupView) -> StartupActionView {
    match recovery.phase {
        StartupPhaseView::Replaying => replay_action(recovery),
        StartupPhaseView::Recording { record } => StartupActionView::Append { record },
        StartupPhaseView::Saving { candidate } => StartupActionView::Save { state: candidate },
        StartupPhaseView::Committing { .. } => StartupActionView::Commit {
            operation_ids: recovery.observed,
        },
        StartupPhaseView::Finished => StartupActionView::Done,
        StartupPhaseView::Stopped { message } => StartupActionView::Stop { message },
    }
}

/// Recovery that cannot go on.
pub open spec fn stopped(recovery: StartupView, message: Seq<char>) -> StartupView {
    StartupView { phase: StartupPhaseView::Stopped { message }, ..recovery }
}

/// Recovery after one more operation.
pub open spec fn one_more(recovery: StartupView) -> StartupView {
    let id = recovery.pending[recovery.observed.len() as int].operation_id;
    StartupView {
        observed: recovery.observed.push(id),
        phase: StartupPhaseView::Replaying,
        ..recovery
    }
}

/// Recovery after the server has carried out an operation.
pub open spec fn after_call(recovery: StartupView, asset: Option<AssetSummaryView>) -> StartupView {
    let pending = recovery.pending[recovery.observed.len() as int];
    match sync_engine::replay_of(pending) {
        Err(fault) => recovery,
        Ok(replay) => match sync_engine::reconciliation(pending, replay.candidate_state, asset) {
            Err(fault) => stopped(recovery, evidence::fault_text(fault, pending.operation_id)),
            Ok(None) => one_more(recovery),
            Ok(Some(record)) => StartupView {
                phase: StartupPhaseView::Recording { record },
                ..recovery
            },
        },
    }
}

/// Recovery after the journal has been loaded again.
pub open spec fn after_load(recovery: StartupView, records: Seq<RecordView>) -> StartupView {
    match journal::replay(records) {
        Err(error) => stopped(recovery, journal::phase_message(error)),
        Ok(progress) => match evidence::recovered_state(
            recovery.persisted,
            progress.pending,
            recovery.observed,
        ) {
            Ok(candidate) => StartupView {
                phase: StartupPhaseView::Saving { candidate },
                ..recovery
            },
            Err(error) => stopped(
                recovery,
                evidence::fault_text(error.fault, error.operation_id),
            ),
        },
    }
}

/// Recovery after an event. An event that does not belong to the action changes nothing.
pub open spec fn after_event(recovery: StartupView, event: StartupEventView) -> StartupView {
    match event {
        StartupEventView::Failed { failure } => match action_of(recovery) {
            StartupActionView::Done => recovery,
            StartupActionView::Stop { .. } => recovery,
            _ => stopped(recovery, failure::outermost(failure.causes)),
        },
        StartupEventView::Called { asset } => if action_of(recovery) is Call {
            after_call(recovery, asset)
        } else {
            recovery
        },
        StartupEventView::Appended => if recovery.phase is Recording {
            one_more(recovery)
        } else {
            recovery
        },
        StartupEventView::Loaded { records } => if action_of(recovery) is Load {
            after_load(recovery, records)
        } else {
            recovery
        },
        StartupEventView::Saved => match recovery.phase {
            StartupPhaseView::Saving { candidate } => StartupView {
                phase: StartupPhaseView::Committing { candidate },
                ..recovery
            },
            _ => recovery,
        },
        StartupEventView::Committed => match recovery.phase {
            StartupPhaseView::Committing { candidate } => StartupView {
                persisted: candidate,
                phase: StartupPhaseView::Finished,
                ..recovery
            },
            _ => recovery,
        },
    }
}

/// Begins recovery with the records of the journal and the state that was loaded.
pub fn recover_pending(records: &Vec<JournalRecord>, persisted: ServiceState) -> (result: Result<
    StartupRecovery,
    PhaseError,
>)
    ensures
        match result {
            Ok(recovery) => {
                &&& journal::replay(records.deep_view()) is Ok
                &&& recovery.deep_view() == (StartupView {
                    persisted: persisted.deep_view(),
                    pending: journal::replay(records.deep_view())->Ok_0.pending,
                    observed: Seq::empty(),
                    phase: StartupPhaseView::Replaying,
                })
                &&& well_formed(recovery.deep_view())
            },
            Err(error) => journal::replay(records.deep_view()) == Err::<
                Progress,
                PhaseErrorView,
            >(error.deep_view()),
        },
{
    match journal::pending_with_evidence(records) {
        Err(error) => Err(error),
        Ok(pending) => {
            let observed: Vec<String> = Vec::new();
            proof {
                assert(observed.deep_view() =~= Seq::empty());
            }
            Ok(
                StartupRecovery {
                    persisted,
                    pending,
                    observed,
                    phase: StartupPhase::Replaying,
                },
            )
        },
    }
}

impl StartupRecovery {
    /// Tells what is to be done next.
    pub fn next_action(&self) -> (action: StartupAction)
        requires
            well_formed(self.deep_view()),
        ensures
            action.deep_view() == action_of(self.deep_view()),
    {
        match &self.phase {
            StartupPhase::Replaying => {
                let done: usize = self.observed.len();
                if done < self.pending.len() {
                    match sync_engine::plan_replay(&self.pending[done]) {
                        Ok(replay) => StartupAction::Call { operation: replay.operation },
                        Err(fault) => StartupAction::Stop {
                            message: fault.message(self.pending[done].operation_id.as_str()),
                        },
                    }
                } else if done == 0 {
                    StartupAction::Done
                } else {
                    StartupAction::Load
                }
            },
            StartupPhase::Recording { record } => StartupAction::Append {
                record: record.duplicate(),
            },
            StartupPhase::Saving { candidate } => StartupAction::Save {
                state: candidate.duplicate(),
            },
            StartupPhase::Committing { .. } => StartupAction::Commit {
                operation_ids: self.observed.duplicate(),
            },
            StartupPhase::Finished => StartupAction::Done,
            StartupPhase::Stopped { message } => StartupAction::Stop { message: message.clone() },
        }
    }

    fn confirm(&mut self)
        requires
            well_formed(old(self).deep_view()),
            old(self).deep_view().observed.len() < old(self).deep_view().pending.len(),
        ensures
            final(self).deep_view() == one_more(old(self).deep_view()),
            well_formed(final(self).deep_view()),
    {
        let done: usize = self.observed.len();
        let ghost before = self.observed.deep_view();
        let id = self.pending[done].operation_id.clone();
        self.observed.push(id);
        self.phase = StartupPhase::Replaying;
        proof {
            assert(self.observed.deep_view() =~= before.push(
                self.pending.deep_view()[done as int].operation_id,
            ));
        }
    }

    fn called(&mut self, asset: Option<Asset>)
        requires
            well_formed(old(self).deep_view()),
            action_of(old(self).deep_view()) is Call,
            old(self).deep_view().phase is Replaying,
        ensures
            final(self).deep_view() == after_call(
                old(self).deep_view(),
                transition::patched_summary(
                    match asset {
                        Some(asset) => Some(&asset),
                        None => None,
                    },
                ),
            ),
            well_formed(final(self).deep_view()),
    {
        let done: usize = self.observed.len();
        match sync_engine::plan_replay(&self.pending[done]) {
            Err(_) => {},
            Ok(replay) => {
                let reported = match &asset {
                    Some(asset) => Some(asset),
                    None => None,
                };
                match sync_engine::reconcile(
                    &self.pending[done],
                    replay.candidate_state,
                    reported,
                ) {
                    Err(fault) => {
                        let message = fault.message(self.pending[done].operation_id.as_str());
                        self.phase = StartupPhase::Stopped { message };
                    },
                    Ok(None) => self.confirm(),
                    Ok(Some(record)) => {
                        self.phase = StartupPhase::Recording { record };
                    },
                }
            },
        }
    }

    fn loaded(&mut self, records: &Vec<JournalRecord>)
        requires
            well_formed(old(self).deep_view()),
            action_of(old(self).deep_view()) is Load,
            old(self).deep_view().phase is Replaying,
        ensures
            final(self).deep_view() == after_load(old(self).deep_view(), records.deep_view()),
            well_formed(final(self).deep_view()),
    {
        let mut candidate = self.persisted.duplicate();
        match evidence::apply_recovered_candidate_states(&mut candidate, records, &self.observed) {
            Ok(()) => {
                self.phase = StartupPhase::Saving { candidate };
            },
            Err(error) => {
                self.phase = StartupPhase::Stopped { message: error.message() };
            },
        }
    }

    /// Takes what came of the action.
    pub fn record_event(&mut self, event: StartupEvent)
        requires
            well_formed(old(self).deep_view()),
        ensures
            final(self).deep_view() == after_event(old(self).deep_view(), event.deep_view()),
            well_formed(final(self).deep_view()),
    {
        match event {
            StartupEvent::Failed { failure } => match self.next_action() {
                StartupAction::Done => {},
                StartupAction::Stop { .. } => {},
                _ => {
                    self.phase = StartupPhase::Stopped { message: failure.summary() };
                },
            },
            StartupEvent::Called { asset } => match self.next_action() {
                StartupAction::Call { .. } => self.called(asset),
                _ => {},
            },
            StartupEvent::Appended => match &self.phase {
                StartupPhase::Recording { .. } => self.confirm(),
                _ => {},
            },
            StartupEvent::Loaded { records } => match self.next_action() {
                StartupAction::Load => self.loaded(&records),
                _ => {},
            },
            StartupEvent::Saved => match &self.phase {
                StartupPhase::Saving { candidate } => {
                    let candidate = candidate.duplicate();
                    self.phase = StartupPhase::Committing { candidate };
                },
                _ => {},
            },
            StartupEvent::Committed => match &self.phase {
                StartupPhase::Committing { candidate } => {
                    self.persisted = candidate.duplicate();
                    self.phase = StartupPhase::Finished;
                },
                _ => {},
            },
        }
    }
}

// ---------------------------------------------------------------------------------------------
// Laws
// ---------------------------------------------------------------------------------------------

/// Recovery after some events.
pub open spec fn recovered(start: StartupView, events: Seq<StartupEventView>) -> StartupView
    decreases events.len(),
{
    if events.len() == 0 {
        start
    } else {
        after_event(recovered(start, events.drop_last()), events.last())
    }
}

/// The journal after some events, given what it held at first.
pub open spec fn journal_after(
    records: Seq<RecordView>,
    start: StartupView,
    events: Seq<StartupEventView>,
) -> Seq<RecordView>
    decreases events.len(),
{
    if events.len() == 0 {
        records
    } else {
        let before = journal_after(records, start, events.drop_last());
        match (recovered(start, events.drop_last()).phase, events.last()) {
            (StartupPhaseView::Recording { record }, StartupEventView::Appended) => before.push(
                record,
            ),
            _ => before,
        }
    }
}

/// What the journal holds while operations are replayed: the same operations are pending, and the
/// outcome of each that has been replayed is on record.
pub open spec fn journal_matches(recovery: StartupView, records: Seq<RecordView>) -> bool {
    let pending = journal::replay(records)->Ok_0.pending;
    let done = recovery.observed.len() as int;
    &&& journal::replay(records) is Ok
    &&& pending.len() == recovery.pending.len()
    &&& forall|i: int|
        0 <= i < pending.len() ==> (#[trigger] pending[i]).operation_id
            == recovery.pending[i].operation_id
    &&& forall|i: int|
        0 <= i < done && i < pending.len() ==> (#[trigger] pending[i]).remote_outcome is Some
    &&& forall|i: int|
        done <= i < pending.len() ==> (#[trigger] pending[i]).remote_outcome
            == recovery.pending[i].remote_outcome
    &&& match recovery.phase {
        StartupPhaseView::Recording { record } => {
            &&& done < pending.len()
            &&& record is RemoteOutcomeObserved
            &&& record->RemoteOutcomeObserved_operation_id == recovery.pending[done].operation_id
            &&& pending[done].remote_outcome is None
        },
        _ => true,
    }
}

proof fn lemma_recorded_outcome_matches(recovery: StartupView, records: Seq<RecordView>)
    requires
        well_formed(recovery),
        journal_matches(recovery, records),
        recovery.phase is Recording,
    ensures
        journal_matches(one_more(recovery), records.push(recovery.phase->record)),
{
    let record = recovery.phase->record;
    let done = recovery.observed.len() as int;
    let before = journal::replay(records)->Ok_0;
    let id = recovery.pending[done].operation_id;
    assert(records.push(record).drop_last() =~= records);
    journal::replay_is_consistent(records);
    journal::lemma_position_from(before.pending, id, 0);
    let position = journal::position_from(before.pending, id, 0);
    assert(before.pending[done].operation_id == id);
    assert(position == done);
    let after = journal::replay(records.push(record))->Ok_0;
    let next = one_more(recovery);
    assert forall|i: int| 0 <= i < after.pending.len() implies (
    #[trigger] after.pending[i]).operation_id == next.pending[i].operation_id by {
        assert(before.pending[i].operation_id == recovery.pending[i].operation_id);
    }
    assert forall|i: int| 0 <= i < done + 1 && i < after.pending.len() implies (
    #[trigger] after.pending[i]).remote_outcome is Some by {
        if i < done {
            assert(after.pending[i] == before.pending[i]);
        }
    }
    assert forall|i: int| done + 1 <= i < after.pending.len() implies (
    #[trigger] after.pending[i]).remote_outcome == next.pending[i].remote_outcome by {
        assert(after.pending[i] == before.pending[i]);
    }
}

/// Whatever happens during startup recovery, the journal keeps every operation pending, with the
/// outcome of each that has been replayed.
pub proof fn recovery_is_accounted_for(
    records: Seq<RecordView>,
    start: StartupView,
    events: Seq<StartupEventView>,
)
    requires
        journal::replay(records) is Ok,
        start.pending == journal::replay(records)->Ok_0.pending,
        start.observed.len() == 0,
        start.phase == StartupPhaseView::Replaying,
    ensures
        well_formed(recovered(start, events)),
        recovered(start, events).pending == start.pending,
        journal_matches(recovered(start, events), journal_after(records, start, events)),
    decreases events.len(),
{
    if events.len() > 0 {
        recovery_is_accounted_for(records, start, events.drop_last());
        let before = recovered(start, events.drop_last());
        let held = journal_after(records, start, events.drop_last());
        match events.last() {
            StartupEventView::Appended => {
                if before.phase is Recording {
                    lemma_recorded_outcome_matches(before, held);
                }
            },
            StartupEventView::Called { asset } => {},
            _ => {},
        }
    }
}

/// When startup recovery has made the state durable and commits, all operations that were pending
/// have been replayed, and once the journal has been told, none is pending any more.
pub proof fn recovery_empties_the_journal(
    records: Seq<RecordView>,
    start: StartupView,
    events: Seq<StartupEventView>,
)
    requires
        journal::replay(records) is Ok,
        start.pending == journal::replay(records)->Ok_0.pending,
        start.observed.len() == 0,
        start.phase == StartupPhaseView::Replaying,
        action_of(recovered(start, events)) is Commit,
    ensures
        ({
            let ids = action_of(recovered(start, events))->operation_ids;
            let held = journal_after(records, start, events) + journal::commit_records(ids);
            &&& ids =~= journal::pending_ids(start.pending)
            &&& journal::replay(held) is Ok
            &&& journal::replay(held)->Ok_0.pending.len() == 0
        }),
{
    recovery_is_accounted_for(records, start, events);
    let last = recovered(start, events);
    let held = journal_after(records, start, events);
    let ids = last.observed;
    let pending = journal::replay(held)->Ok_0.pending;
    journal::replay_is_consistent(held);
    assert forall|i: int| 0 <= i < ids.len() implies #[trigger] ids[i] == journal::pending_ids(
        start.pending,
    )[i] by {
    }
    assert forall|i: int| 0 <= i < ids.len() implies journal::pending_ids(pending).contains(
        #[trigger] ids[i],
    ) by {
        assert(pending[i].operation_id == ids[i]);
        assert(journal::pending_ids(pending)[i] == ids[i]);
    }
    assert(ids.no_duplicates()) by {
        assert forall|i: int, j: int| 0 <= i < ids.len() && 0 <= j < ids.len() && i != j implies ids[i]
            != ids[j] by {
            assert(pending[i].operation_id == ids[i]);
            assert(pending[j].operation_id == ids[j]);
        }
    }
    journal::committing_everything_empties_the_journal(held, ids);
}

/// Whether evidence is complete: every operation can be replayed with a snapshot, and every
/// outcome comes with the state that it led to.
pub open spec fn complete(pending: Seq<PendingView>) -> bool {
    &&& forall|i: int|
        0 <= i < pending.len() ==> {
            &&& sync_engine::replay_of(#[trigger] pending[i]) is Ok
            &&& sync_engine::replay_of(pending[i])->Ok_0.candidate_state is Some
        }
    &&& forall|i: int|
        0 <= i < pending.len() && (#[trigger] pending[i]).remote_outcome is Some
            ==> evidence::records_some_state(pending[i])
}

/// Whether nothing outside fails during some events, and the journal is loaded as it stands.
pub open spec fn undisturbed(
    records: Seq<RecordView>,
    start: StartupView,
    events: Seq<StartupEventView>,
) -> bool
    decreases events.len(),
{
    events.len() > 0 ==> {
        &&& undisturbed(records, start, events.drop_last())
        &&& match events.last() {
            StartupEventView::Failed { .. } => false,
            StartupEventView::Loaded { records: loaded } => loaded == journal_after(
                records,
                start,
                events.drop_last(),
            ),
            _ => true,
        }
    }
}

/// What holds of undisturbed recovery from complete evidence: the journal has an outcome and a
/// state for every operation that has been replayed, and holds of the others what it held at
/// first.
pub open spec fn on_course(recovery: StartupView, records: Seq<RecordView>) -> bool {
    let pending = journal::replay(records)->Ok_0.pending;
    let done = recovery.observed.len() as int;
    &&& !(recovery.phase is Stopped)
    &&& forall|i: int|
        0 <= i < done && i < pending.len() ==> evidence::records_some_state(#[trigger] pending[i])
    &&& forall|i: int|
        done <= i < pending.len() ==> #[trigger] pending[i] == recovery.pending[i]
    &&& match recovery.phase {
        StartupPhaseView::Recording { record } => {
            &&& record is RemoteOutcomeObserved
            &&& json::text_field(record->RemoteOutcomeObserved_outcome, "status"@) is Some
            &&& record->RemoteOutcomeObserved_candidate_state is Some
            &&& snapshot::candidate_state(
                record->RemoteOutcomeObserved_operation_id,
                record->RemoteOutcomeObserved_candidate_state->0,
            ) is Ok
        },
        _ => true,
    }
}

proof fn lemma_call_stays_on_course(
    recovery: StartupView,
    records: Seq<RecordView>,
    asset: Option<AssetSummaryView>,
)
    requires
        well_formed(recovery),
        journal_matches(recovery, records),
        on_course(recovery, records),
        complete(recovery.pending),
        action_of(recovery) is Call,
        recovery.phase is Replaying,
    ensures
        on_course(after_call(recovery, asset), records),
{
    let done = recovery.observed.len() as int;
    let pending = recovery.pending[done];
    let held = journal::replay(records)->Ok_0.pending;
    assert(held[done] == pending);
    assert(sync_engine::replay_of(pending) is Ok);
    let candidate = sync_engine::replay_of(pending)->Ok_0.candidate_state->0;
    assert(snapshot::candidate_state(pending.operation_id, candidate) is Ok);
    match asset {
        Some(summary) => {
            evidence::merged_snapshots_hold_the_reported_asset(
                pending.operation_id,
                candidate,
                summary,
            );
        },
        None => {},
    }
    let next = after_call(recovery, asset);
    if pending.remote_outcome is Some {
        assert(evidence::records_some_state(pending));
        assert(next == one_more(recovery));
    } else {
        let fields = evidence::outcome_json("reconciled"@)->Object_0;
        assert(fields[0].0 == "status"@);
        json::lemma_field_at(fields, 0);
    }
}

proof fn lemma_record_stays_on_course(recovery: StartupView, records: Seq<RecordView>)
    requires
        well_formed(recovery),
        journal_matches(recovery, records),
        on_course(recovery, records),
        recovery.phase is Recording,
    ensures
        on_course(one_more(recovery), records.push(recovery.phase->record)),
{
    let record = recovery.phase->record;
    let done = recovery.observed.len() as int;
    let before = journal::replay(records)->Ok_0;
    let id = recovery.pending[done].operation_id;
    assert(records.push(record).drop_last() =~= records);
    journal::replay_is_consistent(records);
    journal::lemma_position_from(before.pending, id, 0);
    assert(before.pending[done].operation_id == id);
    assert(journal::position_from(before.pending, id, 0) == done);
    let after = journal::replay(records.push(record))->Ok_0;
    let state = snapshot::candidate_state(
        id,
        record->RemoteOutcomeObserved_candidate_state->0,
    )->Ok_0;
    assert(evidence::records_state(after.pending[done], state));
    assert forall|i: int| 0 <= i < done + 1 && i < after.pending.len() implies
        evidence::records_some_state(#[trigger] after.pending[i]) by {
        if i < done {
            assert(after.pending[i] == before.pending[i]);
        }
    }
    assert forall|i: int| done + 1 <= i < after.pending.len() implies #[trigger] after.pending[i]
        == recovery.pending[i] by {
        assert(after.pending[i] == before.pending[i]);
    }
}

proof fn lemma_load_stays_on_course(recovery: StartupView, records: Seq<RecordView>)
    requires
        well_formed(recovery),
        journal_matches(recovery, records),
        on_course(recovery, records),
        action_of(recovery) is Load,
        recovery.phase is Replaying,
    ensures
        on_course(after_load(recovery, records), records),
        after_load(recovery, records).phase is Saving,
{
    let pending = journal::replay(records)->Ok_0.pending;
    assert forall|i: int| 0 <= i < pending.len() && recovery.observed.contains(
        (#[trigger] pending[i]).operation_id,
    ) implies evidence::records_some_state(pending[i]) by {
    }
    evidence::complete_evidence_is_applied(recovery.persisted, pending, recovery.observed, 0);
    assert forall|i: int| 0 <= i < recovery.observed.len() implies #[trigger] recovery.observed[i]
        == pending[i].operation_id by {
        assert(pending[i].operation_id == recovery.pending[i].operation_id);
    }
    sync_engine::lemma_no_evidence_is_absent(recovery.observed, pending, 0);
}

/// Recovery from complete evidence does not stop by itself: unless something outside fails, it
/// replays every operation, and then has a state to save.
pub proof fn complete_evidence_is_recovered(
    records: Seq<RecordView>,
    start: StartupView,
    events: Seq<StartupEventView>,
)
    requires
        journal::replay(records) is Ok,
        start.pending == journal::replay(records)->Ok_0.pending,
        start.observed.len() == 0,
        start.phase == StartupPhaseView::Replaying,
        complete(start.pending),
        undisturbed(records, start, events),
    ensures
        on_course(recovered(start, events), journal_after(records, start, events)),
        !(action_of(recovered(start, events)) is Stop),
    decreases events.len(),
{
    recovery_is_accounted_for(records, start, events);
    if events.len() > 0 {
        complete_evidence_is_recovered(records, start, events.drop_last());
        recovery_is_accounted_for(records, start, events.drop_last());
        let before = recovered(start, events.drop_last());
        let held = journal_after(records, start, events.drop_last());
        match events.last() {
            StartupEventView::Called { asset } => {
                if action_of(before) is Call {
                    lemma_call_stays_on_course(before, held, asset);
                }
            },
            StartupEventView::Appended => {
                if before.phase is Recording {
                    lemma_record_stays_on_course(before, held);
                }
            },
            StartupEventView::Loaded { .. } => {
                if action_of(before) is Load {
                    lemma_load_stays_on_course(before, held);
                }
            },
            _ => {},
        }
    }
}

/// A plan that was interrupted at any point is recovered at the next start: unless something
/// outside fails, recovery asks the server for the operations that the journal announces, in the
/// order and in the form in which they were planned, and never stops before it has a state to
/// save.
pub proof fn interrupted_plans_are_recovered(
    plan: sync_engine::ExecutionView,
    history: Seq<sync_engine::ExecutionEventView>,
    start: StartupView,
    events: Seq<StartupEventView>,
)
    requires
        sync_engine::well_formed(plan),
        plan.confirmed.len() == 0,
        plan.phase == sync_engine::ExecutionPhase::Preparing,
        sync_engine::distinct_ids(plan.operations),
        sync_engine::retellable(plan),
        start.pending == journal::replay(sync_engine::journaled(plan, history))->Ok_0.pending,
        start.observed.len() == 0,
        start.phase == StartupPhaseView::Replaying,
        undisturbed(sync_engine::journaled(plan, history), start, events),
    ensures
        ({
            let now = recovered(start, events);
            let done = now.observed.len() as int;
            &&& !(action_of(now) is Stop)
            &&& now.phase is Replaying && done < start.pending.len() ==> action_of(now) == (
            StartupActionView::Call { operation: plan.operations[done].operation })
        }),
{
    let records = sync_engine::journaled(plan, history);
    let reached = sync_engine::executed(plan, history);
    sync_engine::execution_is_accounted_for(plan, history);
    sync_engine::interrupted_plans_are_replayed_as_planned(plan, history);
    assert(complete(start.pending)) by {
        assert forall|i: int| 0 <= i < start.pending.len() implies {
            &&& sync_engine::replay_of(#[trigger] start.pending[i]) is Ok
            &&& sync_engine::replay_of(start.pending[i])->Ok_0.candidate_state is Some
        } by {
            assert(sync_engine::tells(start.pending[i], reached.operations[i]));
        }
    }
    complete_evidence_is_recovered(records, start, events);
    recovery_is_accounted_for(records, start, events);
    let done = recovered(start, events).observed.len() as int;
    if done < start.pending.len() {
        assert(sync_engine::tells(start.pending[done], reached.operations[done]));
    }
}

/// The recovered state is in memory only after it has become durable and the journal has been
/// told.
pub proof fn recovered_state_is_durable_first(recovery: StartupView, event: StartupEventView)
    requires
        after_event(recovery, event).persisted != recovery.persisted,
    ensures
        event is Committed,
        recovery.phase is Committing,
        after_event(recovery, event).persisted == recovery.phase->Committing_candidate,
{
}

/// Startup recovery asks for the pending operations in their order, one after the other, each as it
/// was announced. The answer for one whose outcome is on record settles it; the answer for another
/// is recorded first, under its identifier, with the asset that the server reported, and settles it
/// once it is recorded.
pub proof fn pending_operations_are_replayed_in_turn(
    recovery: StartupView,
    asset: Option<AssetSummaryView>,
)
    requires
        well_formed(recovery),
        recovery.phase is Replaying,
        recovery.observed.len() < recovery.pending.len(),
        sync_engine::replay_of(recovery.pending[recovery.observed.len() as int]) is Ok,
    ensures
        ({
            let pending = recovery.pending[recovery.observed.len() as int];
            let replay = sync_engine::replay_of(pending)->Ok_0;
            let called = after_event(recovery, StartupEventView::Called { asset });
            let settled = recovery.observed.push(pending.operation_id);
            &&& action_of(recovery) == (StartupActionView::Call { operation: replay.operation })
            &&& called.pending == recovery.pending
            &&& called.persisted == recovery.persisted
            &&& pending.remote_outcome is Some && replay.candidate_state is Some ==> called.observed
                == settled && called.phase is Replaying
            &&& pending.remote_outcome is None && replay.candidate_state is Some ==> {
                let record = action_of(called)->record;
                let before = snapshot::candidate_state(
                    pending.operation_id,
                    replay.candidate_state->0,
                );
                let after = snapshot::candidate_state(
                    pending.operation_id,
                    record->candidate_state->0,
                );
                let appended = after_event(called, StartupEventView::Appended);
                &&& action_of(called) is Append
                &&& record is RemoteOutcomeObserved
                &&& record->RemoteOutcomeObserved_operation_id == pending.operation_id
                &&& record->candidate_state is Some
                &&& before is Ok
                &&& after is Ok
                &&& asset is None ==> after == before
                &&& asset is Some ==> after->Ok_0 == (StateView {
                    matched_asset: asset,
                    ..before->Ok_0
                })
                &&& called.observed == recovery.observed
                &&& appended.observed == settled
                &&& appended.phase is Replaying
                &&& appended.persisted == recovery.persisted
            }
        }),
{
    let pending = recovery.pending[recovery.observed.len() as int];
    let replay = sync_engine::replay_of(pending)->Ok_0;
    sync_engine::outcomes_come_before_announcements(pending);
    if replay.candidate_state is Some && asset is Some {
        evidence::merged_snapshots_hold_the_reported_asset(
            pending.operation_id,
            replay.candidate_state->0,
            asset->0,
        );
    }
}

/// A journal in which nothing is pending leaves nothing to do. Once everything pending is settled,
/// the journal is read again; the state that it tells of is saved, then what was settled is
/// committed, and then recovery is done, with that state and nothing else.
pub proof fn settled_recovery_is_saved_and_committed(
    recovery: StartupView,
    records: Seq<RecordView>,
)
    requires
        well_formed(recovery),
        recovery.phase is Replaying,
        recovery.observed.len() == recovery.pending.len(),
    ensures
        ({
            let loaded = after_event(recovery, StartupEventView::Loaded { records });
            let saved = after_event(loaded, StartupEventView::Saved);
            let committed = after_event(saved, StartupEventView::Committed);
            let told = evidence::recovered_state(
                recovery.persisted,
                journal::replay(records)->Ok_0.pending,
                recovery.observed,
            );
            &&& recovery.pending.len() == 0 ==> action_of(recovery) is Done
            &&& recovery.pending.len() > 0 ==> action_of(recovery) is Load
            &&& recovery.pending.len() > 0 && (journal::replay(records) is Err || told is Err)
                ==> action_of(loaded) is Stop
            &&& recovery.pending.len() > 0 && journal::replay(records) is Ok && told is Ok ==> {
                &&& action_of(loaded) == (StartupActionView::Save { state: told->Ok_0 })
                &&& action_of(saved) == (StartupActionView::Commit {
                    operation_ids: recovery.observed,
                })
                &&& action_of(committed) is Done
                &&& loaded.persisted == recovery.persisted
                &&& saved.persisted == recovery.persisted
                &&& committed.persisted == told->Ok_0
            }
        }),
{
}

/// A failure stops recovery with its outermost cause, wherever it is; the state stays as it was, and
/// nothing sets recovery going again. Only a recovery that is done is past failing.
pub proof fn failures_stop_recovery(
    recovery: StartupView,
    failure: FailureView,
    event: StartupEventView,
)
    requires
        failure.causes.len() > 0,
    ensures
        ({
            let failed = after_event(recovery, StartupEventView::Failed { failure });
            &&& failed.persisted == recovery.persisted
            &&& failed.observed == recovery.observed
            &&& action_of(recovery) is Done || action_of(recovery) is Stop ==> failed == recovery
            &&& !(action_of(recovery) is Done) && !(action_of(recovery) is Stop) ==> action_of(
                failed,
            ) == (StartupActionView::Stop { message: failure.causes[0] }) && after_event(
                failed,
                event,
            ) == failed
        }),
{
}

} // verus!
