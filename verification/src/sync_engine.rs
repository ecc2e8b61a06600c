//! Journal-backed execution of synchronization plans, and replay of what was left pending.

use vstd::prelude::*;

use crate::evidence;
use crate::evidence::EvidenceFault;
use crate::evidence::Operation;
use crate::evidence::OperationView;
use crate::journal;
use crate::journal::JournalRecord;
use crate::journal::PendingOperation;
use crate::journal::PendingView;
use crate::journal::RecordView;
use crate::json;
use crate::json::Json;
use crate::json::JsonView;
use crate::model;
use crate::model::Asset;
use crate::model::AssetPatchRequest;
use crate::model::AssetSummary;
use crate::model::AssetSummaryView;
use crate::model::CheckinView;
use crate::model::CheckoutView;
use crate::model::Duplicate;
use crate::model::MonitorCheckin;
use crate::model::MonitorCheckout;
use crate::model::MonitorSyncState;
use crate::model::MonitorView;
use crate::model::PlanView;
use crate::model::ServiceState;
use crate::model::StateView;
use crate::model::SyncPlan;
use crate::operation_id;
use crate::snapshot;
use crate::transition;

verus! {

// ---------------------------------------------------------------------------------------------
// Desired state
// ---------------------------------------------------------------------------------------------

/// Whether an asset already has every field that a patch sets.
pub open spec fn patch_applied(asset: Asset, request: AssetPatchRequest) -> bool {
    &&& request.name matches Some(name) ==> asset.name@ == name@
    &&& request.serial matches Some(serial) ==> (asset.serial matches Some(current) && current@
        == serial@)
    &&& request.asset_tag matches Some(tag) ==> (asset.asset_tag matches Some(current) && current@
        == tag@)
    &&& request.model_id matches Some(id) ==> (asset.model matches Some(model) && model.id == id)
}

/// Whether an asset already has every field that a patch sets. Fields that the patch leaves alone
/// do not matter.
pub fn patch_is_applied(asset: &Asset, request: &AssetPatchRequest) -> (applied: bool)
    ensures
        applied == patch_applied(*asset, *request),
{
    let name = match &request.name {
        Some(name) => asset.name == *name,
        None => true,
    };
    let serial = match &request.serial {
        Some(serial) => match &asset.serial {
            Some(current) => *current == *serial,
            None => false,
        },
        None => true,
    };
    let tag = match &request.asset_tag {
        Some(tag) => match &asset.asset_tag {
            Some(current) => *current == *tag,
            None => false,
        },
        None => true,
    };
    let model = match request.model_id {
        Some(id) => match &asset.model {
            Some(model) => model.id == id,
            None => false,
        },
        None => true,
    };
    name && serial && tag && model
}

/// Whether an asset is already assigned to the target of a check-out, with its status.
pub open spec fn checkout_applied(asset: Asset, operation: MonitorCheckout) -> bool {
    &&& asset.assigned_to matches Some(assigned) && assigned.id
        == operation.request.assigned_asset
    &&& asset.status_label matches Some(status) && status.id == operation.request.status_id
}

/// Whether an asset is already assigned to the target of a check-out, with its status.
pub fn checkout_is_applied(asset: &Asset, operation: &MonitorCheckout) -> (applied: bool)
    ensures
        applied == checkout_applied(*asset, *operation),
{
    let assigned = match &asset.assigned_to {
        Some(assigned) => assigned.id == operation.request.assigned_asset,
        None => false,
    };
    let status = match &asset.status_label {
        Some(status) => status.id == operation.request.status_id,
        None => false,
    };
    assigned && status
}

/// Whether an asset is already unassigned, with the status of a check-in.
pub open spec fn checkin_applied(asset: Asset, operation: MonitorCheckin) -> bool {
    &&& asset.assigned_to is None
    &&& asset.status_label matches Some(status) && status.id == operation.request.status_id
}

/// Whether an asset is already unassigned, with the status of a check-in.
pub fn checkin_is_applied(asset: &Asset, operation: &MonitorCheckin) -> (applied: bool)
    ensures
        applied == checkin_applied(*asset, *operation),
{
    let status = match &asset.status_label {
        Some(status) => status.id == operation.request.status_id,
        None => false,
    };
    asset.assigned_to.is_none() && status
}

/// Whether the inventory already shows what an operation is to bring about.
pub open spec fn shows(asset: Asset, operation: Operation) -> bool {
    match operation {
        Operation::Patch { request, .. } => patch_applied(asset, request),
        Operation::Checkout(checkout) => checkout_applied(asset, checkout),
        Operation::Checkin(checkin) => checkin_applied(asset, checkin),
    }
}

/// The asset that an operation changes.
pub open spec fn subject(operation: Operation) -> u64 {
    match operation {
        Operation::Patch { asset_id, .. } => asset_id,
        Operation::Checkout(checkout) => checkout.source_asset_id,
        Operation::Checkin(checkin) => checkin.source_asset_id,
    }
}

/// What is to be done to bring an operation about.
#[derive(Debug, PartialEq, Eq)]
pub enum MutationStep<'a> {
    /// Read the asset that the operation changes.
    Read { asset_id: u64 },
    /// Send the operation.
    Send,
    /// Nothing: the inventory shows it already. A patch has the asset for its result.
    Applied { asset: Option<&'a Asset> },
}

/// Decides what is to be done to bring an operation about: the asset is read first, and the
/// operation is sent only if the asset does not show it already. `current` is the asset, once it
/// was read.
pub fn mutation_step<'a>(operation: &Operation, current: Option<&'a Asset>) -> (step: MutationStep<
    'a,
>)
    ensures
        match current {
            None => step == (MutationStep::Read { asset_id: subject(*operation) }),
            Some(asset) => if shows(*asset, *operation) {
                step == (MutationStep::Applied {
                    asset: if *operation is Patch {
                        current
                    } else {
                        None
                    },
                })
            } else {
                step == MutationStep::Send
            },
        },
{
    match current {
        None => {
            let asset_id: u64 = match operation {
                Operation::Patch { asset_id, .. } => *asset_id,
                Operation::Checkout(checkout) => checkout.source_asset_id,
                Operation::Checkin(checkin) => checkin.source_asset_id,
            };
            MutationStep::Read { asset_id }
        },
        Some(asset) => match operation {
            Operation::Patch { request, .. } => if patch_is_applied(asset, request) {
                MutationStep::Applied { asset: current }
            } else {
                MutationStep::Send
            },
            Operation::Checkout(checkout) => if checkout_is_applied(asset, checkout) {
                MutationStep::Applied { asset: None }
            } else {
                MutationStep::Send
            },
            Operation::Checkin(checkin) => if checkin_is_applied(asset, checkin) {
                MutationStep::Applied { asset: None }
            } else {
                MutationStep::Send
            },
        },
    }
}

/// Whether an asset is one that the server may give back once it has carried out an operation on
/// `before`: what the operation sets is set, and the rest is as it was.
pub open spec fn carried_out(before: Asset, operation: Operation, after: Asset) -> bool {
    match operation {
        Operation::Patch { request, .. } => {
            &&& after.name@ == match request.name {
                Some(name) => name@,
                None => before.name@,
            }
            &&& after.serial.deep_view() == match request.serial {
                Some(serial) => Some(serial@),
                None => before.serial.deep_view(),
            }
            &&& after.asset_tag.deep_view() == match request.asset_tag {
                Some(tag) => Some(tag@),
                None => before.asset_tag.deep_view(),
            }
            &&& match request.model_id {
                Some(id) => after.model is Some && after.model->0.id == id,
                None => after.model == before.model,
            }
        },
        Operation::Checkout(checkout) => {
            &&& after.assigned_to is Some
            &&& after.assigned_to->0.id == checkout.request.assigned_asset
            &&& after.status_label is Some
            &&& after.status_label->0.id == checkout.request.status_id
        },
        Operation::Checkin(checkin) => {
            &&& after.assigned_to is None
            &&& after.status_label is Some
            &&& after.status_label->0.id == checkin.request.status_id
        },
    }
}

/// An operation that was carried out is not sent again: the inventory then shows it, whatever the
/// asset was like before.
pub proof fn operations_are_not_repeated(before: Asset, operation: Operation, after: Asset)
    requires
        carried_out(before, operation, after),
    ensures
        shows(after, operation),
{
}

// ---------------------------------------------------------------------------------------------
// The operations of a plan
// ---------------------------------------------------------------------------------------------

/// An operation under its identifier.
#[derive(Clone, Debug, PartialEq, Eq)]
pub struct PlannedOperation {
    pub operation_id: String,
    pub operation: Operation,
}

/// The deep view of a [`PlannedOperation`].
#[verifier::ext_equal]
pub struct PlannedView {
    pub operation_id: Seq<char>,
    pub operation: OperationView,
}

impl DeepView for PlannedOperation {
    type V = PlannedView;

    open spec fn deep_view(&self) -> PlannedView {
        PlannedView {
            operation_id: self.operation_id@,
            operation: self.operation.deep_view(),
        }
    }
}

/// The patch of a plan. There is one only if the computer has an asset.
pub open spec fn planned_patch(plan: PlanView, computer_asset_id: Option<u64>) -> Seq<PlannedView> {
    match (plan.asset_update, computer_asset_id) {
        (Some(request), Some(asset_id)) => seq![
            PlannedView {
                operation_id: operation_id::patch_id(asset_id, request),
                operation: OperationView::Patch { asset_id, request },
            },
        ],
        _ => Seq::empty(),
    }
}

/// The check-outs of a plan.
pub open spec fn planned_checkouts(checkouts: Seq<CheckoutView>) -> Seq<PlannedView> {
    Seq::new(
        checkouts.len(),
        |i: int|
            PlannedView {
                operation_id: checkouts[i].operation_id,
                operation: OperationView::Checkout(checkouts[i]),
            },
    )
}

/// The check-ins of a plan.
pub open spec fn planned_checkins(checkins: Seq<CheckinView>) -> Seq<PlannedView> {
    Seq::new(
        checkins.len(),
        |i: int|
            PlannedView {
                operation_id: checkins[i].operation_id,
                operation: OperationView::Checkin(checkins[i]),
            },
    )
}

/// The operations of a plan in the order in which they are carried out: the patch, the check-outs,
/// the check-ins.
pub open spec fn planned_operations(plan: PlanView, computer_asset_id: Option<u64>) -> Seq<
    PlannedView,
> {
    planned_patch(plan, computer_asset_id) + planned_checkouts(plan.monitor_checkouts)
        + planned_checkins(plan.monitor_checkins)
}

/// Lists the operations of a plan in the order in which they are carried out.
pub fn list_operations(plan: &SyncPlan, computer_asset_id: Option<u64>) -> (operations: Vec<
    PlannedOperation,
>)
    ensures
        operations.deep_view() == planned_operations(plan.deep_view(), computer_asset_id),
{
    let mut operations: Vec<PlannedOperation> = Vec::new();
    proof {
        assert(operations.deep_view() =~= Seq::<PlannedView>::empty());
    }
    match (&plan.asset_update, computer_asset_id) {
        (Some(request), Some(asset_id)) => {
            operations.push(
                PlannedOperation {
                    operation_id: operation_id::patch_operation_id(asset_id, request),
                    operation: Operation::Patch { asset_id, request: request.duplicate() },
                },
            );
        },
        _ => {},
    }
    let ghost first = planned_patch(plan.deep_view(), computer_asset_id);
    let ghost second = planned_checkouts(plan.deep_view().monitor_checkouts);
    let ghost third = planned_checkins(plan.deep_view().monitor_checkins);
    proof {
        assert(operations.deep_view() =~= first + second.take(0));
    }
    let mut index: usize = 0;
    while index < plan.monitor_checkouts.len()
        invariant
            index <= plan.monitor_checkouts@.len(),
            second == planned_checkouts(plan.deep_view().monitor_checkouts),
            operations.deep_view() == first + second.take(index as int),
        decreases plan.monitor_checkouts.len() - index,
    {
        let checkout = &plan.monitor_checkouts[index];
        let ghost before = operations.deep_view();
        let operation = PlannedOperation {
            operation_id: checkout.operation_id.clone(),
            operation: Operation::Checkout(checkout.duplicate()),
        };
        let ghost view = operation.deep_view();
        operations.push(operation);
        proof {
            assert(view == second[index as int]);
            assert(operations.deep_view() =~= before.push(view));
            assert(operations.deep_view() =~= first + second.take(index + 1));
        }
        index += 1;
    }
    proof {
        assert(operations.deep_view() =~= first + second + third.take(0));
    }
    index = 0;
    while index < plan.monitor_checkins.len()
        invariant
            index <= plan.monitor_checkins@.len(),
            third == planned_checkins(plan.deep_view().monitor_checkins),
            operations.deep_view() == first + second + third.take(index as int),
        decreases plan.monitor_checkins.len() - index,
    {
        let checkin = &plan.monitor_checkins[index];
        let ghost before = operations.deep_view();
        let operation = PlannedOperation {
            operation_id: checkin.operation_id.clone(),
            operation: Operation::Checkin(checkin.duplicate()),
        };
        let ghost view = operation.deep_view();
        operations.push(operation);
        proof {
            assert(view == third[index as int]);
            assert(operations.deep_view() =~= before.push(view));
            assert(operations.deep_view() =~= first + second + third.take(index + 1));
        }
        index += 1;
    }
    proof {
        assert(third.take(index as int) =~= third);
    }
    operations
}

// ---------------------------------------------------------------------------------------------
// Execution
// ---------------------------------------------------------------------------------------------

/// How far the current operation has got.
#[derive(Clone, Copy, Debug, PartialEq, Eq, Structural)]
pub enum ExecutionPhase {
    /// The operation has to be announced in the journal.
    Preparing,
    /// The operation has been announced; the server has to carry it out.
    Calling,
    /// The server has carried it out; the outcome has to be recorded.
    Observing,
    /// Execution has stopped at this operation; `prepared` says whether it had been announced.
    Stopped { prepared: bool },
}

/// A plan that is being carried out.
#[derive(Debug)]
pub struct Execution {
    plan: SyncPlan,
    operations: Vec<PlannedOperation>,
    planned_state: ServiceState,
    current_state: ServiceState,
    matched_asset: Option<AssetSummary>,
    confirmed: Vec<String>,
    phase: ExecutionPhase,
}

/// The deep view of an [`Execution`].
///
/// The number of confirmed operations is the position of the current one.
#[verifier::ext_equal]
pub struct ExecutionView {
    pub plan: PlanView,
    pub operations: Seq<PlannedView>,
    pub planned_state: StateView,
    pub current_state: StateView,
    pub matched_asset: Option<AssetSummaryView>,
    pub confirmed: Seq<Seq<char>>,
    pub phase: ExecutionPhase,
}

impl DeepView for Execution {
    type V = ExecutionView;

    closed spec fn deep_view(&self) -> ExecutionView {
        ExecutionView {
            plan: self.plan.deep_view(),
            operations: self.operations.deep_view(),
            planned_state: self.planned_state.deep_view(),
            current_state: self.current_state.deep_view(),
            matched_asset: self.matched_asset.deep_view(),
            confirmed: self.confirmed.deep_view(),
            phase: self.phase,
        }
    }
}

/// What holds of every execution: the states can be written down, and there is a current operation
/// unless all of them are confirmed.
pub open spec fn well_formed(execution: ExecutionView) -> bool {
    &&& snapshot::valid_state(execution.planned_state)
    &&& snapshot::valid_state(execution.current_state)
    &&& execution.confirmed.len() <= execution.operations.len()
    &&& execution.phase != ExecutionPhase::Preparing ==> execution.confirmed.len()
        < execution.operations.len()
}

/// What an execution has to do next.
#[derive(Debug, PartialEq, Eq)]
pub enum ExecutionAction {
    /// Append a record to the journal, durably.
    Append { record: JournalRecord },
    /// Ask the server to carry out an operation.
    Call { operation: Operation },
    /// Nothing: the plan has been carried out.
    Finish { outcome: ExecutionOutcome },
    /// Nothing: a step has failed.
    Stop,
}

/// The deep view of an [`ExecutionAction`].
#[verifier::ext_equal]
pub enum ActionView {
    Append { record: RecordView },
    Call { operation: OperationView },
    Finish { outcome: ExecutionOutcomeView },
    Stop,
}

impl DeepView for ExecutionAction {
    type V = ActionView;

    open spec fn deep_view(&self) -> ActionView {
        match self {
            ExecutionAction::Append { record } => ActionView::Append { record: record.deep_view() },
            ExecutionAction::Call { operation } => ActionView::Call {
                operation: operation.deep_view(),
            },
            ExecutionAction::Finish { outcome } => ActionView::Finish {
                outcome: outcome.deep_view(),
            },
            ExecutionAction::Stop => ActionView::Stop,
        }
    }
}

/// What a plan that has been carried out leaves behind.
///
/// The confirmed operations stay uncommitted until the state has been saved.
#[derive(Clone, Debug, PartialEq, Eq)]
pub struct ExecutionOutcome {
    pub next_monitor_state: MonitorSyncState,
    pub matched_asset: Option<AssetSummary>,
    pub warnings: Vec<String>,
    pub confirmed_operations: Vec<String>,
}

/// The deep view of an [`ExecutionOutcome`].
#[verifier::ext_equal]
pub struct ExecutionOutcomeView {
    pub next_monitors: Seq<MonitorView>,
    pub matched_asset: Option<AssetSummaryView>,
    pub warnings: Seq<Seq<char>>,
    pub confirmed_operations: Seq<Seq<char>>,
}

impl DeepView for ExecutionOutcome {
    type V = ExecutionOutcomeView;

    open spec fn deep_view(&self) -> ExecutionOutcomeView {
        ExecutionOutcomeView {
            next_monitors: self.next_monitor_state.entries.deep_view(),
            matched_asset: self.matched_asset.deep_view(),
            warnings: self.warnings.deep_view(),
            confirmed_operations: self.confirmed_operations.deep_view(),
        }
    }
}

/// What came of an action.
#[derive(Clone, Debug, PartialEq, Eq)]
pub enum ExecutionEvent {
    /// The record is durable.
    Appended,
    /// The server patched the asset, or found it patched, and reports it.
    Patched { asset: Asset },
    /// The server moved the monitor, or found it moved.
    Moved,
    /// The action failed.
    Failed,
}

/// The deep view of an [`ExecutionEvent`].
#[verifier::ext_equal]
pub enum ExecutionEventView {
    Appended,
    Patched { summary: AssetSummaryView },
    Moved,
    Failed,
}

impl DeepView for ExecutionEvent {
    type V = ExecutionEventView;

    open spec fn deep_view(&self) -> ExecutionEventView {
        match self {
            ExecutionEvent::Appended => ExecutionEventView::Appended,
            ExecutionEvent::Patched { asset } => ExecutionEventView::Patched {
                summary: model::summary_of(*asset),
            },
            ExecutionEvent::Moved => ExecutionEventView::Moved,
            ExecutionEvent::Failed => ExecutionEventView::Failed,
        }
    }
}

/// The state that the current operation is expected to lead to.
pub open spec fn expected_state(execution: ExecutionView) -> StateView {
    transition::state_after(
        execution.current_state,
        execution.planned_state,
        execution.plan,
        execution.operations[execution.confirmed.len() as int].operation_id,
        None,
    )
}

/// The record that announces the current operation.
pub open spec fn announcement(execution: ExecutionView) -> RecordView {
    let current = execution.operations[execution.confirmed.len() as int];
    evidence::prepared_record(
        current.operation_id,
        current.operation,
        snapshot::candidate_json(current.operation_id, expected_state(execution)),
    )
}

/// The record that the server has carried out the current operation.
pub open spec fn observation(execution: ExecutionView) -> RecordView {
    let current = execution.operations[execution.confirmed.len() as int];
    evidence::observed_record(
        current.operation_id,
        "applied"@,
        Some(snapshot::candidate_json(current.operation_id, execution.current_state)),
    )
}

/// What an execution has to do next: announce the operation, have it carried out, record the
/// outcome, and go on with the next one.
pub open spec fn action_of(execution: ExecutionView) -> ActionView {
    match execution.phase {
        ExecutionPhase::Preparing => if execution.confirmed.len() >= execution.operations.len() {
            ActionView::Finish {
                outcome: ExecutionOutcomeView {
                    next_monitors: execution.plan.next_monitors,
                    matched_asset: execution.matched_asset,
                    warnings: execution.plan.warnings,
                    confirmed_operations: execution.confirmed,
                },
            }
        } else {
            ActionView::Append { record: announcement(execution) }
        },
        ExecutionPhase::Calling => ActionView::Call {
            operation: execution.operations[execution.confirmed.len() as int].operation,
        },
        ExecutionPhase::Observing => ActionView::Append { record: observation(execution) },
        ExecutionPhase::Stopped { .. } => ActionView::Stop,
    }
}

/// The execution after an event. An event that does not belong to the action changes nothing.
pub open spec fn after_event(execution: ExecutionView, event: ExecutionEventView) -> ExecutionView {
    let position = execution.confirmed.len() as int;
    match (execution.phase, event) {
        (ExecutionPhase::Preparing, ExecutionEventView::Appended) => if position
            < execution.operations.len() {
            ExecutionView { phase: ExecutionPhase::Calling, ..execution }
        } else {
            execution
        },
        (ExecutionPhase::Preparing, ExecutionEventView::Failed) => if position
            < execution.operations.len() {
            ExecutionView { phase: ExecutionPhase::Stopped { prepared: false }, ..execution }
        } else {
            execution
        },
        (ExecutionPhase::Calling, ExecutionEventView::Patched { summary }) =>
        if execution.operations[position].operation is Patch {
            ExecutionView {
                phase: ExecutionPhase::Observing,
                matched_asset: Some(summary),
                current_state: StateView {
                    matched_asset: Some(summary),
                    ..execution.current_state
                },
                ..execution
            }
        } else {
            execution
        },
        (ExecutionPhase::Calling, ExecutionEventView::Moved) =>
        if execution.operations[position].operation is Patch {
            execution
        } else {
            ExecutionView {
                phase: ExecutionPhase::Observing,
                current_state: expected_state(execution),
                ..execution
            }
        },
        (ExecutionPhase::Calling, ExecutionEventView::Failed) => ExecutionView {
            phase: ExecutionPhase::Stopped { prepared: true },
            ..execution
        },
        (ExecutionPhase::Observing, ExecutionEventView::Appended) => ExecutionView {
            phase: ExecutionPhase::Preparing,
            confirmed: execution.confirmed.push(execution.operations[position].operation_id),
            ..execution
        },
        (ExecutionPhase::Observing, ExecutionEventView::Failed) => ExecutionView {
            phase: ExecutionPhase::Stopped { prepared: true },
            ..execution
        },
        _ => execution,
    }
}

/// The execution of a plan before its first step.
pub open spec fn starting(
    plan: PlanView,
    computer_asset_id: Option<u64>,
    base: StateView,
    planned: StateView,
) -> ExecutionView {
    ExecutionView {
        plan,
        operations: planned_operations(plan, computer_asset_id),
        planned_state: planned,
        current_state: StateView {
            last_sync_time: planned.last_sync_time,
            last_sync_result: planned.last_sync_result,
            ..base
        },
        matched_asset: planned.matched_asset,
        confirmed: Seq::empty(),
        phase: ExecutionPhase::Preparing,
    }
}

// What operations keep of the monitors.

/// Whether all of some monitors have a property.
pub open spec fn all_monitors(monitors: Seq<MonitorView>, kept: spec_fn(MonitorView) -> bool) -> bool {
    forall|i: int| 0 <= i < monitors.len() ==> kept(#[trigger] monitors[i])
}

/// A monitor once it is checked out or in.
pub open spec fn moved(monitor: MonitorView, checked_out: bool) -> MonitorView {
    MonitorView { checked_out, ..monitor }
}

/// Whether a property of monitors does not depend on whether they are checked out.
pub open spec fn ignores_moves(kept: spec_fn(MonitorView) -> bool) -> bool {
    forall|monitor: MonitorView, checked_out: bool|
        kept(monitor) ==> kept(#[trigger] moved(monitor, checked_out))
}

proof fn lemma_unrelated_keep(
    monitors: Seq<MonitorView>,
    asset_id: u64,
    serial: Option<Seq<char>>,
    kept: spec_fn(MonitorView) -> bool,
)
    requires
        all_monitors(monitors, kept),
    ensures
        all_monitors(transition::unrelated_monitors(monitors, asset_id, serial), kept),
    decreases monitors.len(),
{
    if monitors.len() > 0 {
        let shorter = monitors.drop_last();
        assert(all_monitors(shorter, kept)) by {
            assert forall|i: int| 0 <= i < shorter.len() implies kept(#[trigger] shorter[i]) by {
                assert(kept(monitors[i]));
            }
        }
        lemma_unrelated_keep(shorter, asset_id, serial, kept);
        assert(kept(monitors[monitors.len() - 1]));
    }
}

proof fn lemma_monitors_after_keep(
    monitors: Seq<MonitorView>,
    planned: Seq<MonitorView>,
    asset_id: u64,
    checked_out: bool,
    kept: spec_fn(MonitorView) -> bool,
)
    requires
        all_monitors(monitors, kept),
        all_monitors(planned, kept),
        ignores_moves(kept),
    ensures
        all_monitors(transition::monitors_after(monitors, planned, asset_id, checked_out), kept),
{
    match transition::planned_entry(monitors, planned, asset_id) {
        None => {
            lemma_unrelated_keep(
                monitors,
                asset_id,
                transition::mapped_serial(monitors, asset_id),
                kept,
            );
        },
        Some(entry) => {
            lemma_unrelated_keep(monitors, asset_id, Some(entry.serial), kept);
            transition::lemma_asset_from(monitors, asset_id, 0);
            transition::lemma_asset_from(planned, asset_id, 0);
            match transition::mapped_serial(monitors, asset_id) {
                Some(serial) => {
                    transition::lemma_serial_from(planned, serial, 0);
                },
                None => {},
            }
            assert(kept(entry));
            assert(kept(moved(entry, checked_out)));
        },
    }
}

proof fn lemma_applied_keep(
    monitors: Seq<MonitorView>,
    planned: Seq<MonitorView>,
    operations: Seq<(Seq<char>, u64)>,
    checked_out: bool,
    last: Seq<char>,
    from: int,
    kept: spec_fn(MonitorView) -> bool,
)
    requires
        all_monitors(monitors, kept),
        all_monitors(planned, kept),
        ignores_moves(kept),
        0 <= from,
    ensures
        all_monitors(
            transition::applied_through(
                monitors,
                planned,
                operations,
                checked_out,
                last,
                from,
            ).0,
            kept,
        ),
    decreases operations.len() - from,
{
    if from < operations.len() {
        lemma_monitors_after_keep(monitors, planned, operations[from].1, checked_out, kept);
        let next = transition::monitors_after(monitors, planned, operations[from].1, checked_out);
        if operations[from].0 != last {
            lemma_applied_keep(next, planned, operations, checked_out, last, from + 1, kept);
        }
    }
}

/// The monitors of the state that an operation leads to have every property that the monitors
/// have that it is made of, if the property does not depend on whether they are checked out.
pub proof fn operations_keep_monitor_properties(
    base: StateView,
    planned: StateView,
    plan: PlanView,
    id: Seq<char>,
    patched: Option<AssetSummaryView>,
    kept: spec_fn(MonitorView) -> bool,
)
    requires
        all_monitors(base.known_monitors, kept),
        all_monitors(planned.known_monitors, kept),
        ignores_moves(kept),
    ensures
        all_monitors(
            transition::state_after(base, planned, plan, id, patched).known_monitors,
            kept,
        ),
{
    let checkouts = transition::checkout_targets(plan.monitor_checkouts);
    let checkins = transition::checkin_targets(plan.monitor_checkins);
    lemma_applied_keep(base.known_monitors, planned.known_monitors, checkouts, true, id, 0, kept);
    let middle = transition::applied_through(
        base.known_monitors,
        planned.known_monitors,
        checkouts,
        true,
        id,
        0,
    ).0;
    lemma_applied_keep(middle, planned.known_monitors, checkins, false, id, 0, kept);
}

proof fn lemma_state_after_valid(
    base: StateView,
    planned: StateView,
    plan: PlanView,
    id: Seq<char>,
    patched: Option<AssetSummaryView>,
)
    requires
        snapshot::valid_state(base),
        snapshot::valid_state(planned),
    ensures
        snapshot::valid_state(transition::state_after(base, planned, plan, id, patched)),
{
    let kept = |monitor: MonitorView| snapshot::valid_monitor(monitor);
    operations_keep_monitor_properties(base, planned, plan, id, patched, kept);
    let after = transition::state_after(base, planned, plan, id, patched).known_monitors;
    assert forall|i: int| 0 <= i < after.len() implies snapshot::valid_monitor(
        #[trigger] after[i],
    ) by {
        assert(kept(after[i]));
    }
}

proof fn lemma_state_after_readable(
    base: StateView,
    planned: StateView,
    plan: PlanView,
    id: Seq<char>,
    patched: Option<AssetSummaryView>,
)
    requires
        snapshot::readable_state(base),
        snapshot::readable_state(planned),
    ensures
        snapshot::readable_state(transition::state_after(base, planned, plan, id, patched)),
{
    let kept = |monitor: MonitorView| snapshot::readable_monitor(monitor);
    operations_keep_monitor_properties(base, planned, plan, id, patched, kept);
    let after = transition::state_after(base, planned, plan, id, patched).known_monitors;
    assert forall|i: int| 0 <= i < after.len() implies snapshot::readable_monitor(
        #[trigger] after[i],
    ) by {
        assert(kept(after[i]));
    }
}

/// Events keep executions well-formed.
pub proof fn events_keep_executions_well_formed(
    execution: ExecutionView,
    event: ExecutionEventView,
)
    requires
        well_formed(execution),
    ensures
        well_formed(after_event(execution, event)),
{
    if execution.confirmed.len() < execution.operations.len() {
        lemma_state_after_valid(
            execution.current_state,
            execution.planned_state,
            execution.plan,
            execution.operations[execution.confirmed.len() as int].operation_id,
            None,
        );
    }
}

/// Starts a plan, journaling for every mutation the complete state that it leads to.
pub fn execute_plan_with_candidate(
    plan: SyncPlan,
    computer_asset_id: Option<u64>,
    base_state: &ServiceState,
    candidate_state: &ServiceState,
) -> (execution: Execution)
    requires
        snapshot::valid_state(base_state.deep_view()),
        snapshot::valid_state(candidate_state.deep_view()),
    ensures
        execution.deep_view() == starting(
            plan.deep_view(),
            computer_asset_id,
            base_state.deep_view(),
            candidate_state.deep_view(),
        ),
        well_formed(execution.deep_view()),
{
    let operations = list_operations(&plan, computer_asset_id);
    let current_state = ServiceState {
        last_sync_time: candidate_state.last_sync_time.duplicate(),
        last_sync_result: candidate_state.last_sync_result.duplicate(),
        matched_asset: base_state.matched_asset.duplicate(),
        known_monitors: base_state.known_monitors.duplicate(),
    };
    let confirmed: Vec<String> = Vec::new();
    proof {
        assert(confirmed.deep_view() =~= Seq::<Seq<char>>::empty());
    }
    Execution {
        plan,
        operations,
        planned_state: candidate_state.duplicate(),
        current_state,
        matched_asset: candidate_state.matched_asset.duplicate(),
        confirmed,
        phase: ExecutionPhase::Preparing,
    }
}

/// Starts a plan on a state of which nothing is known but the monitors that the plan expects.
pub fn execute_plan(plan: SyncPlan, computer_asset_id: Option<u64>) -> (execution: Execution)
    requires
        snapshot::valid_monitors(plan.deep_view().next_monitors),
    ensures
        execution.deep_view() == starting(
            plan.deep_view(),
            computer_asset_id,
            model::empty_state(),
            StateView {
                known_monitors: plan.deep_view().next_monitors,
                ..model::empty_state()
            },
        ),
        well_formed(execution.deep_view()),
{
    let candidate = ServiceState {
        last_sync_time: None,
        last_sync_result: None,
        matched_asset: None,
        known_monitors: plan.next_monitor_state.entries.duplicate(),
    };
    execute_plan_with_candidate(plan, computer_asset_id, &ServiceState::default(), &candidate)
}

impl Execution {
    fn expected(&self) -> (state: ServiceState)
        requires
            self.deep_view().confirmed.len() < self.deep_view().operations.len(),
        ensures
            state.deep_view() == expected_state(self.deep_view()),
    {
        let position: usize = self.confirmed.len();
        transition::state_after_operation(
            &self.current_state,
            &self.planned_state,
            &self.plan,
            &self.operations[position].operation_id,
            None,
        )
    }

    /// What has to be done next.
    pub fn next_action(&self) -> (action: ExecutionAction)
        requires
            well_formed(self.deep_view()),
        ensures
            action.deep_view() == action_of(self.deep_view()),
    {
        let position: usize = self.confirmed.len();
        match self.phase {
            ExecutionPhase::Preparing => if position >= self.operations.len() {
                ExecutionAction::Finish {
                    outcome: ExecutionOutcome {
                        next_monitor_state: MonitorSyncState {
                            entries: self.plan.next_monitor_state.entries.duplicate(),
                        },
                        matched_asset: self.matched_asset.duplicate(),
                        warnings: self.plan.warnings.duplicate(),
                        confirmed_operations: self.confirmed.duplicate(),
                    },
                }
            } else {
                let current = &self.operations[position];
                proof {
                    lemma_state_after_valid(
                        self.deep_view().current_state,
                        self.deep_view().planned_state,
                        self.deep_view().plan,
                        current.operation_id@,
                        None,
                    );
                }
                let expected = self.expected();
                let candidate = snapshot::complete_candidate_state(
                    current.operation_id.as_str(),
                    &expected,
                );
                ExecutionAction::Append {
                    record: evidence::prepare(
                        current.operation_id.as_str(),
                        &current.operation,
                        candidate,
                    ),
                }
            },
            ExecutionPhase::Calling => ExecutionAction::Call {
                operation: self.operations[position].operation.duplicate(),
            },
            ExecutionPhase::Observing => {
                let current = &self.operations[position];
                let candidate = snapshot::complete_candidate_state(
                    current.operation_id.as_str(),
                    &self.current_state,
                );
                ExecutionAction::Append {
                    record: evidence::observe_remote_outcome(
                        current.operation_id.as_str(),
                        "applied",
                        Some(candidate),
                    ),
                }
            },
            ExecutionPhase::Stopped { .. } => ExecutionAction::Stop,
        }
    }

    /// Takes note of what came of the action.
    pub fn record_event(&mut self, event: ExecutionEvent)
        requires
            well_formed(old(self).deep_view()),
        ensures
            final(self).deep_view() == after_event(old(self).deep_view(), event.deep_view()),
            well_formed(final(self).deep_view()),
    {
        proof {
            events_keep_executions_well_formed(self.deep_view(), event.deep_view());
        }
        let position: usize = self.confirmed.len();
        match (self.phase, event) {
            (ExecutionPhase::Preparing, ExecutionEvent::Appended) => {
                if position < self.operations.len() {
                    self.phase = ExecutionPhase::Calling;
                }
            },
            (ExecutionPhase::Preparing, ExecutionEvent::Failed) => {
                if position < self.operations.len() {
                    self.phase = ExecutionPhase::Stopped { prepared: false };
                }
            },
            (ExecutionPhase::Calling, ExecutionEvent::Patched { asset }) => {
                match self.operations[position].operation {
                    Operation::Patch { .. } => {
                        self.phase = ExecutionPhase::Observing;
                        self.matched_asset = Some(model::asset_summary(&asset));
                        self.current_state.matched_asset = Some(model::asset_summary(&asset));
                    },
                    _ => {},
                }
            },
            (ExecutionPhase::Calling, ExecutionEvent::Moved) => {
                match self.operations[position].operation {
                    Operation::Patch { .. } => {},
                    _ => {
                        let expected = self.expected();
                        self.current_state = expected;
                        self.phase = ExecutionPhase::Observing;
                    },
                }
            },
            (ExecutionPhase::Calling, ExecutionEvent::Failed) => {
                self.phase = ExecutionPhase::Stopped { prepared: true };
            },
            (ExecutionPhase::Observing, ExecutionEvent::Appended) => {
                let ghost before = self.confirmed.deep_view();
                let id = self.operations[position].operation_id.clone();
                self.confirmed.push(id);
                self.phase = ExecutionPhase::Preparing;
                proof {
                    assert(self.confirmed.deep_view() =~= before.push(id@));
                }
            },
            (ExecutionPhase::Observing, ExecutionEvent::Failed) => {
                self.phase = ExecutionPhase::Stopped { prepared: true };
            },
            _ => {},
        }
    }
}

// ---------------------------------------------------------------------------------------------
// Laws of execution
// ---------------------------------------------------------------------------------------------

/// An execution after some events.
pub open spec fn executed(start: ExecutionView, events: Seq<ExecutionEventView>) -> ExecutionView
    decreases events.len(),
{
    if events.len() == 0 {
        start
    } else {
        after_event(executed(start, events.drop_last()), events.last())
    }
}

/// The records that an execution has made durable after some events.
pub open spec fn journaled(start: ExecutionView, events: Seq<ExecutionEventView>) -> Seq<RecordView>
    decreases events.len(),
{
    if events.len() == 0 {
        Seq::empty()
    } else {
        let before = journaled(start, events.drop_last());
        match (action_of(executed(start, events.drop_last())), events.last()) {
            (ActionView::Append { record }, ExecutionEventView::Appended) => before.push(record),
            _ => before,
        }
    }
}

/// Whether the current operation has been announced in the journal.
pub open spec fn announced(phase: ExecutionPhase) -> bool {
    match phase {
        ExecutionPhase::Preparing => false,
        ExecutionPhase::Calling => true,
        ExecutionPhase::Observing => true,
        ExecutionPhase::Stopped { prepared } => prepared,
    }
}

/// Whether no two operations share an identifier.
pub open spec fn distinct_ids(operations: Seq<PlannedView>) -> bool {
    forall|i: int, j: int|
        0 <= i < j < operations.len() ==> (#[trigger] operations[i]).operation_id != (
        #[trigger] operations[j]).operation_id
}

/// Whether pending evidence announces an operation together with a state that can be written down.
pub open spec fn announces(pending: PendingView, planned: PlannedView) -> bool {
    &&& pending.operation_id == planned.operation_id
    &&& exists|state: StateView| #[trigger]
        snapshot::valid_state(state) && pending.operation == evidence::prepared_json(
            evidence::operation_json(planned.operation),
            snapshot::candidate_json(planned.operation_id, state),
        )
}

/// What the journal of an execution holds: the outcome of every confirmed operation, the
/// announcement of the current one if it was made, and nothing of the others.
pub open spec fn journal_matches(execution: ExecutionView, records: Seq<RecordView>) -> bool {
    let done = execution.confirmed.len();
    &&& journal::replay(records) is Ok
    &&& journal::replay(records)->Ok_0.terminal.len() == 0
    &&& journal::replay(records)->Ok_0.pending.len() == done + if announced(execution.phase) {
        1int
    } else {
        0
    }
    &&& forall|i: int|
        0 <= i < journal::replay(records)->Ok_0.pending.len() ==> announces(
            #[trigger] journal::replay(records)->Ok_0.pending[i],
            execution.operations[i],
        )
    &&& forall|i: int|
        0 <= i < journal::replay(records)->Ok_0.pending.len() ==> ((
        #[trigger] journal::replay(records)->Ok_0.pending[i]).remote_outcome is Some <==> i < done)
    &&& forall|i: int|
        0 <= i < done ==> #[trigger] execution.confirmed[i] == execution.operations[i].operation_id
}

proof fn lemma_push_keeps_errors_out(records: Seq<RecordView>, record: RecordView)
    requires
        journal::replay(records) is Ok,
    ensures
        journal::replay(records.push(record)) == journal::advance(journal::replay(records)->Ok_0, record),
{
    assert(records.push(record).drop_last() =~= records);
}

proof fn lemma_announcement_matches(execution: ExecutionView, records: Seq<RecordView>)
    requires
        well_formed(execution),
        distinct_ids(execution.operations),
        journal_matches(execution, records),
        execution.phase == ExecutionPhase::Preparing,
        execution.confirmed.len() < execution.operations.len(),
    ensures
        journal_matches(
            ExecutionView { phase: ExecutionPhase::Calling, ..execution },
            records.push(announcement(execution)),
        ),
{
    let done = execution.confirmed.len() as int;
    let before = journal::replay(records)->Ok_0;
    let current = execution.operations[done];
    let record = announcement(execution);
    lemma_push_keeps_errors_out(records, record);
    journal::lemma_position_from(before.pending, current.operation_id, 0);
    let position = journal::position_from(before.pending, current.operation_id, 0);
    if position < before.pending.len() {
        assert(announces(before.pending[position], execution.operations[position]));
        assert(execution.operations[position].operation_id
            != execution.operations[done].operation_id);
    }
    assert(!before.terminal.contains(current.operation_id));
    let payload = evidence::prepared_json(
        evidence::operation_json(current.operation),
        snapshot::candidate_json(current.operation_id, expected_state(execution)),
    );
    let added = journal::prepared_only(current.operation_id, payload);
    let after = journal::replay(records.push(record))->Ok_0;
    assert(after.pending == before.pending.push(added));
    lemma_state_after_valid(
        execution.current_state,
        execution.planned_state,
        execution.plan,
        current.operation_id,
        None,
    );
    assert(snapshot::valid_state(expected_state(execution)));
    assert(announces(added, current));
    assert forall|i: int| 0 <= i < after.pending.len() implies announces(
        #[trigger] after.pending[i],
        execution.operations[i],
    ) by {
        if i < before.pending.len() {
            assert(after.pending[i] == before.pending[i]);
        }
    }
    assert forall|i: int| 0 <= i < after.pending.len() implies ((
    #[trigger] after.pending[i]).remote_outcome is Some <==> i < done) by {
        if i < before.pending.len() {
            assert(after.pending[i] == before.pending[i]);
        }
    }
}

proof fn lemma_observation_matches(execution: ExecutionView, records: Seq<RecordView>)
    requires
        well_formed(execution),
        distinct_ids(execution.operations),
        journal_matches(execution, records),
        execution.phase == ExecutionPhase::Observing,
    ensures
        journal_matches(
            after_event(execution, ExecutionEventView::Appended),
            records.push(observation(execution)),
        ),
{
    let done = execution.confirmed.len() as int;
    let before = journal::replay(records)->Ok_0;
    let current = execution.operations[done];
    let record = observation(execution);
    lemma_push_keeps_errors_out(records, record);
    journal::lemma_position_from(before.pending, current.operation_id, 0);
    let position = journal::position_from(before.pending, current.operation_id, 0);
    assert(announces(before.pending[done], current));
    assert(position <= done);
    if position < done {
        assert(announces(before.pending[position], execution.operations[position]));
        assert(execution.operations[position].operation_id
            != execution.operations[done].operation_id);
    }
    assert(before.pending[done].remote_outcome is None);
    let after = journal::replay(records.push(record))->Ok_0;
    let next = after_event(execution, ExecutionEventView::Appended);
    assert forall|i: int| 0 <= i < after.pending.len() implies announces(
        #[trigger] after.pending[i],
        next.operations[i],
    ) by {
        assert(announces(before.pending[i], execution.operations[i]));
        assert(after.pending[i].operation == before.pending[i].operation);
        assert(after.pending[i].operation_id == before.pending[i].operation_id);
    }
    assert forall|i: int| 0 <= i < after.pending.len() implies ((
    #[trigger] after.pending[i]).remote_outcome is Some <==> i < next.confirmed.len()) by {
        if i != done {
            assert(after.pending[i] == before.pending[i]);
        }
    }
    assert forall|i: int| 0 <= i < next.confirmed.len() implies #[trigger] next.confirmed[i]
        == next.operations[i].operation_id by {
        if i < done {
            assert(next.confirmed[i] == execution.confirmed[i]);
        }
    }
}

/// Whatever happens during the execution of a plan, the journal accounts for it: the server is
/// only asked to carry out an operation that the journal announces, every operation that is
/// confirmed has its outcome recorded, and when a step fails, the journal leaves pending exactly
/// the confirmed operations with their outcomes and, if it had been announced, the operation that
/// failed, without one.
pub proof fn execution_is_accounted_for(start: ExecutionView, events: Seq<ExecutionEventView>)
    requires
        well_formed(start),
        start.confirmed.len() == 0,
        start.phase == ExecutionPhase::Preparing,
        distinct_ids(start.operations),
    ensures
        well_formed(executed(start, events)),
        executed(start, events).operations == start.operations,
        executed(start, events).plan == start.plan,
        executed(start, events).planned_state == start.planned_state,
        journal_matches(executed(start, events), journaled(start, events)),
    decreases events.len(),
{
    if events.len() == 0 {
        assert(journaled(start, events) =~= Seq::<RecordView>::empty());
    } else {
        execution_is_accounted_for(start, events.drop_last());
        let before = executed(start, events.drop_last());
        let records = journaled(start, events.drop_last());
        let event = events.last();
        events_keep_executions_well_formed(before, event);
        match (before.phase, event) {
            (ExecutionPhase::Preparing, ExecutionEventView::Appended) => {
                if before.confirmed.len() < before.operations.len() {
                    lemma_announcement_matches(before, records);
                }
            },
            (ExecutionPhase::Observing, ExecutionEventView::Appended) => {
                lemma_observation_matches(before, records);
            },
            _ => {},
        }
    }
}

/// A plan that has been carried out has confirmed all of its operations, in order.
pub proof fn finished_plans_confirm_every_operation(
    start: ExecutionView,
    events: Seq<ExecutionEventView>,
)
    requires
        well_formed(start),
        start.confirmed.len() == 0,
        start.phase == ExecutionPhase::Preparing,
        distinct_ids(start.operations),
        action_of(executed(start, events)) is Finish,
    ensures
        ({
            let outcome = action_of(executed(start, events))->Finish_outcome;
            &&& outcome.confirmed_operations =~= Seq::new(
                start.operations.len(),
                |i: int| start.operations[i].operation_id,
            )
            &&& outcome.next_monitors == start.plan.next_monitors
            &&& outcome.warnings == start.plan.warnings
        }),
{
    execution_is_accounted_for(start, events);
    let last = executed(start, events);
    assert forall|i: int| 0 <= i < last.confirmed.len() implies #[trigger] last.confirmed[i]
        == start.operations[i].operation_id by {
    }
}

// ---------------------------------------------------------------------------------------------
// Recovery of pending operations
// ---------------------------------------------------------------------------------------------

/// What the evidence of a pending operation asks for: the operation to reconcile with the server,
/// and the snapshot that is on record.
#[verifier::ext_equal]
pub struct ReplayView {
    pub operation: OperationView,
    pub candidate_state: Option<JsonView>,
}

/// How a pending operation is replayed. The snapshot of the outcome goes before that of the
/// announcement.
pub open spec fn replay_of(pending: PendingView) -> Result<ReplayView, EvidenceFault> {
    match evidence::prepared_operation(pending.operation_id, pending.operation) {
        Err(fault) => Err(fault),
        Ok(prepared) => {
            let candidate = if pending.candidate_state is Some {
                pending.candidate_state
            } else {
                prepared.candidate_state
            };
            match candidate {
                None => Ok(
                    ReplayView { operation: prepared.operation, candidate_state: candidate },
                ),
                Some(snapshot) => match snapshot::candidate_state(pending.operation_id, snapshot) {
                    Err(fault) => Err(EvidenceFault::Candidate(fault)),
                    Ok(_) => Ok(
                        ReplayView { operation: prepared.operation, candidate_state: candidate },
                    ),
                },
            }
        },
    }
}

/// How a pending operation is replayed.
#[derive(Debug, PartialEq, Eq)]
pub struct Replay {
    pub operation: Operation,
    pub candidate_state: Option<Json>,
}

impl DeepView for Replay {
    type V = ReplayView;

    open spec fn deep_view(&self) -> ReplayView {
        ReplayView {
            operation: self.operation.deep_view(),
            candidate_state: self.candidate_state.deep_view(),
        }
    }
}

/// Decides how a pending operation is replayed.
pub fn plan_replay(pending: &PendingOperation) -> (result: Result<Replay, EvidenceFault>)
    ensures
        match result {
            Ok(plan) => replay_of(pending.deep_view()) == Ok::<ReplayView, EvidenceFault>(
                plan.deep_view(),
            ),
            Err(fault) => replay_of(pending.deep_view()) == Err::<ReplayView, EvidenceFault>(
                fault,
            ),
        },
{
    let id = pending.operation_id.as_str();
    let prepared = match evidence::decode_prepared_operation(id, &pending.operation) {
        Ok(prepared) => prepared,
        Err(fault) => {
            return Err(fault);
        },
    };
    let candidate = match &pending.candidate_state {
        Some(candidate) => Some(candidate.duplicate()),
        None => prepared.candidate_state,
    };
    match &candidate {
        None => {},
        Some(snapshot) => match snapshot::validate_candidate_state(id, snapshot) {
            Ok(_) => {},
            Err(fault) => {
                return Err(EvidenceFault::Candidate(fault));
            },
        },
    }
    Ok(Replay { operation: prepared.operation, candidate_state: candidate })
}

/// The record of a replayed operation, if its outcome was not on record already. `asset` is what
/// the server reported.
pub open spec fn reconciliation(
    pending: PendingView,
    candidate: Option<JsonView>,
    asset: Option<AssetSummaryView>,
) -> Result<Option<RecordView>, EvidenceFault> {
    match evidence::with_authoritative_asset(candidate, asset) {
        Err(fault) => Err(fault),
        Ok(merged) => if pending.remote_outcome is Some {
            Ok(None)
        } else {
            Ok(Some(evidence::observed_record(pending.operation_id, "reconciled"@, merged)))
        },
    }
}

/// Decides what is recorded once the server has carried out a replayed operation.
pub fn reconcile(
    pending: &PendingOperation,
    candidate: Option<Json>,
    asset: Option<&Asset>,
) -> (result: Result<Option<JournalRecord>, EvidenceFault>)
    ensures
        match result {
            Ok(record) => reconciliation(
                pending.deep_view(),
                candidate.deep_view(),
                transition::patched_summary(asset),
            ) == Ok::<Option<RecordView>, EvidenceFault>(record.deep_view()),
            Err(fault) => reconciliation(
                pending.deep_view(),
                candidate.deep_view(),
                transition::patched_summary(asset),
            ) == Err::<Option<RecordView>, EvidenceFault>(fault),
        },
{
    match evidence::merge_recovered_asset(candidate, asset) {
        Err(fault) => Err(fault),
        Ok(merged) => if pending.remote_outcome.is_some() {
            Ok(None)
        } else {
            Ok(
                Some(
                    evidence::observe_remote_outcome(
                        pending.operation_id.as_str(),
                        "reconciled",
                        merged,
                    ),
                ),
            )
        },
    }
}

// ---------------------------------------------------------------------------------------------
// Laws of recovery
// ---------------------------------------------------------------------------------------------

/// Whether a plan can be told again from its journal: each operation goes by an identifier of its
/// own kind, and the states that the plan starts from and leads to read back once they are written
/// down.
pub open spec fn retellable(start: ExecutionView) -> bool {
    &&& forall|i: int|
        0 <= i < start.operations.len() ==> evidence::belongs_to(
            (#[trigger] start.operations[i]).operation,
            start.operations[i].operation_id,
        )
    &&& snapshot::readable_state(start.current_state)
    &&& snapshot::readable_state(start.planned_state)
}

/// Whether pending evidence is replayed as the operation that was planned, with a snapshot.
pub open spec fn tells(pending: PendingView, planned: PlannedView) -> bool {
    &&& pending.operation_id == planned.operation_id
    &&& evidence::prepared_operation(pending.operation_id, pending.operation) is Ok
    &&& replay_of(pending) is Ok
    &&& replay_of(pending)->Ok_0.operation == planned.operation
    &&& replay_of(pending)->Ok_0.candidate_state is Some
}

/// Whether the server has not carried out the current operation yet.
pub open spec fn settled(phase: ExecutionPhase) -> bool {
    match phase {
        ExecutionPhase::Preparing => true,
        ExecutionPhase::Calling => true,
        ExecutionPhase::Observing => false,
        ExecutionPhase::Stopped { prepared } => !prepared,
    }
}

/// What the journal of a plan tells: every operation that it leaves pending is replayed as
/// planned, each outcome comes with the state that it led to, and the last of them with the state
/// that execution goes on from.
pub open spec fn journal_tells(execution: ExecutionView, records: Seq<RecordView>) -> bool {
    let pending = journal::replay(records)->Ok_0.pending;
    let done = execution.confirmed.len() as int;
    &&& forall|i: int|
        0 <= i < pending.len() ==> tells(#[trigger] pending[i], execution.operations[i])
    &&& forall|i: int| 0 <= i < done ==> evidence::records_some_state(#[trigger] pending[i])
    &&& settled(execution.phase) && done > 0 ==> evidence::records_state(
        pending[done - 1],
        execution.current_state,
    )
}

proof fn lemma_identifiers_are_not_empty(operation: OperationView, id: Seq<char>)
    requires
        evidence::belongs_to(operation, id),
    ensures
        id.len() > 0,
{
    reveal_strlit("patch:");
    reveal_strlit("checkout:");
    reveal_strlit("checkin:");
}

proof fn lemma_announcement_tells(execution: ExecutionView, records: Seq<RecordView>)
    requires
        well_formed(execution),
        distinct_ids(execution.operations),
        retellable(execution),
        journal_matches(execution, records),
        journal_tells(execution, records),
        execution.phase == ExecutionPhase::Preparing,
        execution.confirmed.len() < execution.operations.len(),
    ensures
        journal_tells(
            ExecutionView { phase: ExecutionPhase::Calling, ..execution },
            records.push(announcement(execution)),
        ),
{
    let done = execution.confirmed.len() as int;
    let before = journal::replay(records)->Ok_0;
    let current = execution.operations[done];
    let record = announcement(execution);
    lemma_announcement_matches(execution, records);
    lemma_push_keeps_errors_out(records, record);
    let expected = expected_state(execution);
    let candidate = snapshot::candidate_json(current.operation_id, expected);
    let payload = evidence::prepared_json(evidence::operation_json(current.operation), candidate);
    let added = journal::prepared_only(current.operation_id, payload);
    let after = journal::replay(records.push(record))->Ok_0;
    assert(after.pending == before.pending.push(added));
    assert(evidence::belongs_to(current.operation, current.operation_id));
    lemma_identifiers_are_not_empty(current.operation, current.operation_id);
    lemma_state_after_readable(
        execution.current_state,
        execution.planned_state,
        execution.plan,
        current.operation_id,
        None,
    );
    snapshot::readable_states_are_read_back(current.operation_id, expected);
    evidence::prepared_operations_are_read_back(
        current.operation_id,
        current.operation,
        candidate,
    );
    assert(tells(added, current));
    assert forall|i: int| 0 <= i < after.pending.len() implies tells(
        #[trigger] after.pending[i],
        execution.operations[i],
    ) by {
        if i < before.pending.len() {
            assert(after.pending[i] == before.pending[i]);
        }
    }
    assert forall|i: int| 0 <= i < done implies evidence::records_some_state(#[trigger] after.pending[i]) by {
        assert(after.pending[i] == before.pending[i]);
    }
    if done > 0 {
        assert(after.pending[done - 1] == before.pending[done - 1]);
    }
}

proof fn lemma_observation_tells(execution: ExecutionView, records: Seq<RecordView>)
    requires
        well_formed(execution),
        distinct_ids(execution.operations),
        retellable(execution),
        journal_matches(execution, records),
        journal_tells(execution, records),
        execution.phase == ExecutionPhase::Observing,
    ensures
        journal_tells(
            after_event(execution, ExecutionEventView::Appended),
            records.push(observation(execution)),
        ),
{
    let done = execution.confirmed.len() as int;
    let before = journal::replay(records)->Ok_0;
    let current = execution.operations[done];
    let record = observation(execution);
    let next = after_event(execution, ExecutionEventView::Appended);
    lemma_observation_matches(execution, records);
    lemma_push_keeps_errors_out(records, record);
    journal::lemma_position_from(before.pending, current.operation_id, 0);
    let position = journal::position_from(before.pending, current.operation_id, 0);
    assert(tells(before.pending[done], current));
    assert(position <= done);
    if position < done {
        assert(tells(before.pending[position], execution.operations[position]));
        assert(execution.operations[position].operation_id
            != execution.operations[done].operation_id);
    }
    assert(before.pending[done].remote_outcome is None);
    let after = journal::replay(records.push(record))->Ok_0;
    assert(evidence::belongs_to(current.operation, current.operation_id));
    lemma_identifiers_are_not_empty(current.operation, current.operation_id);
    snapshot::readable_states_are_read_back(current.operation_id, execution.current_state);
    let fields = evidence::outcome_json("applied"@)->Object_0;
    assert(fields[0].0 == "status"@);
    json::lemma_field_at(fields, 0);
    assert(evidence::records_state(after.pending[done], execution.current_state));
    assert(tells(after.pending[done], current));
    assert forall|i: int| 0 <= i < after.pending.len() implies tells(
        #[trigger] after.pending[i],
        next.operations[i],
    ) by {
        if i != done {
            assert(after.pending[i] == before.pending[i]);
        }
    }
    assert forall|i: int| 0 <= i < next.confirmed.len() implies evidence::records_some_state(
        #[trigger] after.pending[i],
    ) by {
        if i != done {
            assert(after.pending[i] == before.pending[i]);
        }
    }
}

/// What was started can be recovered, wherever it stops: every operation that the journal of a
/// plan leaves pending is replayed as it was planned, with a snapshot of the state that it leads
/// to.
pub proof fn interrupted_plans_are_replayed_as_planned(
    start: ExecutionView,
    events: Seq<ExecutionEventView>,
)
    requires
        well_formed(start),
        start.confirmed.len() == 0,
        start.phase == ExecutionPhase::Preparing,
        distinct_ids(start.operations),
        retellable(start),
    ensures
        retellable(executed(start, events)),
        journal_tells(executed(start, events), journaled(start, events)),
    decreases events.len(),
{
    execution_is_accounted_for(start, events);
    if events.len() > 0 {
        interrupted_plans_are_replayed_as_planned(start, events.drop_last());
        execution_is_accounted_for(start, events.drop_last());
        let before = executed(start, events.drop_last());
        let records = journaled(start, events.drop_last());
        let event = events.last();
        match (before.phase, event) {
            (ExecutionPhase::Preparing, ExecutionEventView::Appended) => {
                if before.confirmed.len() < before.operations.len() {
                    lemma_announcement_tells(before, records);
                }
            },
            (ExecutionPhase::Calling, ExecutionEventView::Moved) => {
                lemma_state_after_readable(
                    before.current_state,
                    before.planned_state,
                    before.plan,
                    before.operations[before.confirmed.len() as int].operation_id,
                    None,
                );
            },
            (ExecutionPhase::Observing, ExecutionEventView::Appended) => {
                lemma_observation_tells(before, records);
            },
            _ => {},
        }
    }
}

proof fn lemma_evidence_restores(
    execution: ExecutionView,
    pending: Seq<PendingView>,
    state: StateView,
    from: int,
)
    requires
        0 <= from <= execution.confirmed.len() <= pending.len() <= execution.operations.len(),
        distinct_ids(execution.operations),
        forall|i: int|
            0 <= i < pending.len() ==> (#[trigger] pending[i]).operation_id
                == execution.operations[i].operation_id,
        forall|i: int|
            0 <= i < execution.confirmed.len() ==> #[trigger] execution.confirmed[i]
                == execution.operations[i].operation_id,
        forall|i: int| 0 <= i < execution.confirmed.len() ==> evidence::records_some_state(#[trigger] pending[i]),
    ensures
        evidence::evidence_applied(state, pending, execution.confirmed, from) is Ok,
        from == execution.confirmed.len() ==> evidence::evidence_applied(
            state,
            pending,
            execution.confirmed,
            from,
        )->Ok_0 == state,
        from < execution.confirmed.len() ==> evidence::records_state(
            pending[execution.confirmed.len() - 1],
            evidence::evidence_applied(state, pending, execution.confirmed, from)->Ok_0,
        ),
    decreases execution.confirmed.len() - from,
{
    let done = execution.confirmed.len() as int;
    if from < done {
        assert(execution.confirmed[from] == pending[from].operation_id);
        let next = choose|next: StateView| evidence::records_state(pending[from], next);
        assert(evidence::records_some_state(pending[from]));
        assert(evidence::evidence_effect(state, pending[from]) == Ok::<StateView, EvidenceFault>(
            next,
        ));
        lemma_evidence_restores(execution, pending, next, from + 1);
    } else {
        lemma_unconfirmed_evidence_is_skipped(execution, pending, state, from);
    }
}

proof fn lemma_unconfirmed_evidence_is_skipped(
    execution: ExecutionView,
    pending: Seq<PendingView>,
    state: StateView,
    from: int,
)
    requires
        0 <= execution.confirmed.len() <= from <= pending.len() <= execution.operations.len(),
        distinct_ids(execution.operations),
        forall|i: int|
            0 <= i < pending.len() ==> (#[trigger] pending[i]).operation_id
                == execution.operations[i].operation_id,
        forall|i: int|
            0 <= i < execution.confirmed.len() ==> #[trigger] execution.confirmed[i]
                == execution.operations[i].operation_id,
    ensures
        evidence::evidence_applied(state, pending, execution.confirmed, from) == Ok::<
            StateView,
            evidence::FaultView,
        >(state),
    decreases pending.len() - from,
{
    if from < pending.len() {
        let id = pending[from].operation_id;
        if execution.confirmed.contains(id) {
            let i = execution.confirmed.index_of(id);
            assert(execution.operations[i].operation_id == execution.operations[from].operation_id);
        }
        lemma_unconfirmed_evidence_is_skipped(execution, pending, state, from + 1);
    }
}

/// Operations that are all pending lack no evidence.
pub proof fn lemma_no_evidence_is_absent(
    wanted: Seq<Seq<char>>,
    pending: Seq<PendingView>,
    from: int,
)
    requires
        0 <= from <= wanted.len() <= pending.len(),
        forall|i: int| 0 <= i < wanted.len() ==> #[trigger] wanted[i] == pending[i].operation_id,
    ensures
        evidence::first_absent(wanted, pending, from) == wanted.len(),
    decreases wanted.len() - from,
{
    if from < wanted.len() {
        assert(journal::pending_ids(pending)[from] == wanted[from]);
        lemma_no_evidence_is_absent(wanted, pending, from + 1);
    }
}

/// Between two operations of a plan, the journal restores the state that execution goes on from:
/// whatever state recovery starts with, the evidence of the confirmed operations leads to exactly
/// that one.
pub proof fn journals_restore_the_current_state(
    start: ExecutionView,
    events: Seq<ExecutionEventView>,
    persisted: StateView,
)
    requires
        well_formed(start),
        start.confirmed.len() == 0,
        start.phase == ExecutionPhase::Preparing,
        distinct_ids(start.operations),
        retellable(start),
        settled(executed(start, events).phase),
        executed(start, events).confirmed.len() > 0,
    ensures
        evidence::recovered_state(
            persisted,
            journal::replay(journaled(start, events))->Ok_0.pending,
            executed(start, events).confirmed,
        ) == Ok::<StateView, evidence::FaultView>(executed(start, events).current_state),
{
    execution_is_accounted_for(start, events);
    interrupted_plans_are_replayed_as_planned(start, events);
    let last = executed(start, events);
    let pending = journal::replay(journaled(start, events))->Ok_0.pending;
    assert forall|i: int| 0 <= i < pending.len() implies (#[trigger] pending[i]).operation_id
        == last.operations[i].operation_id by {
        assert(tells(pending[i], last.operations[i]));
    }
    lemma_evidence_restores(last, pending, persisted, 0);
    lemma_no_evidence_is_absent(last.confirmed, pending, 0);
}

// ---------------------------------------------------------------------------------------------
// What operations, plans and events come to
// ---------------------------------------------------------------------------------------------

/// An asset shows a patch exactly if every field that the patch sets has that very value; a patch
/// that differs in a single field is not shown, and is sent.
pub proof fn patches_are_shown_field_by_field(
    asset: Asset,
    asset_id: u64,
    request: AssetPatchRequest,
)
    ensures
        ({
            let shown = shows(asset, Operation::Patch { asset_id, request });
            let name_differs = request.name is Some && asset.name@ != request.name->0@;
            let serial_differs = request.serial is Some && (asset.serial is None
                || asset.serial->0@ != request.serial->0@);
            let tag_differs = request.asset_tag is Some && (asset.asset_tag is None
                || asset.asset_tag->0@ != request.asset_tag->0@);
            let model_differs = request.model_id is Some && (asset.model is None
                || asset.model->0.id != request.model_id->0);
            &&& name_differs ==> !shown
            &&& serial_differs ==> !shown
            &&& tag_differs ==> !shown
            &&& model_differs ==> !shown
            &&& !name_differs && !serial_differs && !tag_differs && !model_differs ==> shown
        }),
{
}

/// An asset shows an operation exactly if carrying it out would leave the asset as it is.
pub proof fn shown_operations_change_nothing(asset: Asset, operation: Operation)
    ensures
        shows(asset, operation) <==> carried_out(asset, operation, asset),
{
}

/// Two patches that both leave their traces on one asset agree wherever both set a field.
pub proof fn shown_patches_agree(
    asset: Asset,
    first: AssetPatchRequest,
    second: AssetPatchRequest,
)
    requires
        patch_applied(asset, first),
        patch_applied(asset, second),
    ensures
        first.name is Some && second.name is Some ==> first.name->0@ == second.name->0@,
        first.serial is Some && second.serial is Some ==> first.serial->0@ == second.serial->0@,
        first.asset_tag is Some && second.asset_tag is Some ==> first.asset_tag->0@
            == second.asset_tag->0@,
        first.model_id is Some && second.model_id is Some ==> first.model_id == second.model_id,
{
}

/// A check-out is shown by an asset that has both the assignment and the status that were asked
/// for; a check-in by an asset that has no assignment and that status. So no asset shows both.
pub proof fn moves_are_shown_by_assignment_and_status(
    asset: Asset,
    checkout: MonitorCheckout,
    checkin: MonitorCheckin,
)
    ensures
        shows(asset, Operation::Checkout(checkout)) <==> asset.assigned_to is Some
            && asset.assigned_to->0.id == checkout.request.assigned_asset && asset.status_label
            is Some && asset.status_label->0.id == checkout.request.status_id,
        shows(asset, Operation::Checkin(checkin)) <==> asset.assigned_to is None
            && asset.status_label is Some && asset.status_label->0.id == checkin.request.status_id,
        !(shows(asset, Operation::Checkout(checkout)) && shows(
            asset,
            Operation::Checkin(checkin),
        )),
        subject(Operation::Checkout(checkout)) == checkout.source_asset_id,
        subject(Operation::Checkin(checkin)) == checkin.source_asset_id,
{
}

/// A patch is about the asset that it names.
pub proof fn patches_are_about_their_asset(asset_id: u64, request: AssetPatchRequest)
    ensures
        subject(Operation::Patch { asset_id, request }) == asset_id,
{
}

/// A plan comes to its patch of the computer, if it has one and the computer's asset is known, then
/// its check-outs, then its check-ins, each once, in their order and under their identifiers, and
/// nothing else.
pub proof fn plans_come_to_their_operations(
    plan: PlanView,
    computer_asset_id: Option<u64>,
    index: int,
)
    ensures
        ({
            let operations = planned_operations(plan, computer_asset_id);
            let patches: int = if plan.asset_update is Some && computer_asset_id is Some {
                1
            } else {
                0
            };
            let checkouts = plan.monitor_checkouts.len();
            let checkins = plan.monitor_checkins.len();
            &&& operations.len() == patches + checkouts + checkins
            &&& patches == 1 ==> operations[0].operation == (OperationView::Patch {
                asset_id: computer_asset_id->0,
                request: plan.asset_update->0,
            }) && operations[0].operation_id == operation_id::patch_id(
                computer_asset_id->0,
                plan.asset_update->0,
            )
            &&& 0 <= index < checkouts ==> {
                let planned = operations[patches + index];
                &&& planned.operation == OperationView::Checkout(plan.monitor_checkouts[index])
                &&& planned.operation_id == plan.monitor_checkouts[index].operation_id
            }
            &&& 0 <= index < checkins ==> {
                let planned = operations[patches + checkouts + index];
                &&& planned.operation == OperationView::Checkin(plan.monitor_checkins[index])
                &&& planned.operation_id == plan.monitor_checkins[index].operation_id
            }
            &&& 0 <= index < operations.len() ==> (operations[index].operation is Patch <==> patches
                == 1 && index == 0)
        }),
{
    let operations = planned_operations(plan, computer_asset_id);
    let patch = planned_patch(plan, computer_asset_id);
    let checkouts = planned_checkouts(plan.monitor_checkouts);
    let checkins = planned_checkins(plan.monitor_checkins);
    assert(operations.len() == patch.len() + checkouts.len() + checkins.len());
    if 0 <= index < operations.len() {
        if index < patch.len() {
            assert(operations[index] == patch[index]);
        } else if index < patch.len() + checkouts.len() {
            assert(operations[index] == checkouts[index - patch.len()]);
        } else {
            assert(operations[index] == checkins[index - patch.len() - checkouts.len()]);
        }
    }
}

/// Whether the server reported an asset for a patch: while the patch was being asked for, this
/// event answered it.
pub open spec fn reported_for_patch(
    start: ExecutionView,
    events: Seq<ExecutionEventView>,
    step: int,
    summary: AssetSummaryView,
) -> bool {
    &&& 0 <= step < events.len()
    &&& action_of(executed(start, events.take(step))) is Call
    &&& action_of(executed(start, events.take(step)))->Call_operation is Patch
    &&& events[step] == (ExecutionEventView::Patched { summary })
}

/// Whether no move of a plan has an identifier that announces a patch.
pub open spec fn moves_are_no_patches(plan: PlanView) -> bool {
    &&& forall|i: int|
        0 <= i < plan.monitor_checkouts.len() ==> operation_id::announced_asset(
            (#[trigger] plan.monitor_checkouts[i]).operation_id,
        ) is None
    &&& forall|i: int|
        0 <= i < plan.monitor_checkins.len() ==> operation_id::announced_asset(
            (#[trigger] plan.monitor_checkins[i]).operation_id,
        ) is None
}

proof fn lemma_reported(
    plan: PlanView,
    computer_asset_id: Option<u64>,
    base: StateView,
    planned: StateView,
    events: Seq<ExecutionEventView>,
)
    ensures
        ({
            let start = starting(plan, computer_asset_id, base, planned);
            let last = executed(start, events);
            let patching = plan.asset_update is Some && computer_asset_id is Some;
            &&& last.plan == plan
            &&& last.operations == start.operations
            &&& last.planned_state == planned
            &&& last.confirmed.len() <= start.operations.len()
            &&& last.phase != ExecutionPhase::Preparing ==> last.confirmed.len()
                < start.operations.len()
            &&& forall|i: int|
                0 <= i < last.confirmed.len() ==> #[trigger] last.confirmed[i]
                    == start.operations[i].operation_id
            &&& last.current_state.last_sync_time == planned.last_sync_time
            &&& last.current_state.last_sync_result == planned.last_sync_result
            &&& !patching ==> last.matched_asset == planned.matched_asset && (moves_are_no_patches(
                plan,
            ) ==> last.current_state.matched_asset == base.matched_asset)
            &&& patching && (last.confirmed.len() > 0 || last.phase == ExecutionPhase::Observing)
                ==> {
                &&& last.matched_asset is Some
                &&& moves_are_no_patches(plan) ==> last.current_state.matched_asset
                    == last.matched_asset
                &&& exists|step: int| #[trigger]
                    reported_for_patch(start, events, step, last.matched_asset->0)
            }
        }),
    decreases events.len(),
{
    let start = starting(plan, computer_asset_id, base, planned);
    let last = executed(start, events);
    if events.len() > 0 {
        let shorter = events.drop_last();
        let before = executed(start, shorter);
        let event = events.last();
        lemma_reported(plan, computer_asset_id, base, planned, shorter);
        plans_come_to_their_operations(plan, computer_asset_id, before.confirmed.len() as int);
        let patching = plan.asset_update is Some && computer_asset_id is Some;
        assert(events.take(events.len() - 1) =~= shorter);
        if patching && (before.confirmed.len() > 0 || before.phase == ExecutionPhase::Observing) {
            let step = choose|step: int| #[trigger]
                reported_for_patch(start, shorter, step, before.matched_asset->0);
            assert(events.take(step) =~= shorter.take(step));
            assert(reported_for_patch(start, events, step, before.matched_asset->0));
            assert(last.matched_asset == before.matched_asset);
        }
        match (before.phase, event) {
            (ExecutionPhase::Calling, ExecutionEventView::Moved) => {
                let position = before.confirmed.len() as int;
                if !(before.operations[position].operation is Patch) {
                    let id = before.operations[position].operation_id;
                    let patches: int = if patching {
                        1
                    } else {
                        0
                    };
                    let checkouts = plan.monitor_checkouts.len();
                    plans_come_to_their_operations(plan, computer_asset_id, position - patches);
                    plans_come_to_their_operations(
                        plan,
                        computer_asset_id,
                        position - patches - checkouts,
                    );
                    if position - patches < checkouts {
                        assert(id == plan.monitor_checkouts[position - patches].operation_id);
                    } else {
                        assert(id == plan.monitor_checkins[position - patches
                            - checkouts].operation_id);
                    }
                    transition::operations_change_what_they_are_about(
                        before.current_state,
                        planned,
                        plan,
                        id,
                        None,
                    );
                }
            },
            _ => {},
        }
        if patching && last.phase == ExecutionPhase::Observing && before.phase
            == ExecutionPhase::Calling && before.confirmed.len() == 0 {
            assert(event == (ExecutionEventView::Patched { summary: last.matched_asset->0 }));
            assert(reported_for_patch(start, events, events.len() - 1, last.matched_asset->0));
        }
    }
}

/// A plan that has been carried out reports the matched asset: with a patch, the asset that the
/// server reported for it; without one, the asset that was planned for. It has every monitor that
/// the plan leads to, every warning of the plan, and confirms every operation in order.
pub proof fn finished_plans_report_the_patched_asset(
    plan: PlanView,
    computer_asset_id: Option<u64>,
    base: StateView,
    planned: StateView,
    events: Seq<ExecutionEventView>,
)
    requires
        action_of(executed(starting(plan, computer_asset_id, base, planned), events)) is Finish,
    ensures
        ({
            let start = starting(plan, computer_asset_id, base, planned);
            let outcome = action_of(executed(start, events))->Finish_outcome;
            let operations = planned_operations(plan, computer_asset_id);
            &&& plan.asset_update is Some && computer_asset_id is Some ==> {
                &&& outcome.matched_asset is Some
                &&& exists|step: int| #[trigger]
                    reported_for_patch(start, events, step, outcome.matched_asset->0)
            }
            &&& plan.asset_update is None || computer_asset_id is None ==> outcome.matched_asset
                == planned.matched_asset
            &&& outcome.next_monitors == plan.next_monitors
            &&& outcome.warnings == plan.warnings
            &&& outcome.confirmed_operations.len() == operations.len()
            &&& forall|i: int|
                0 <= i < operations.len() ==> #[trigger] outcome.confirmed_operations[i]
                    == operations[i].operation_id
        }),
{
    lemma_reported(plan, computer_asset_id, base, planned, events);
    plans_come_to_their_operations(plan, computer_asset_id, 0);
}

/// While a plan is carried out, the state that is recorded belongs to the current synchronization.
/// Once the server has answered a patch, that state has the asset that the server reported; before
/// that, and without a patch, it has the asset of the state that the execution began with.
pub proof fn recorded_states_have_the_reported_asset(
    plan: PlanView,
    computer_asset_id: Option<u64>,
    base: StateView,
    planned: StateView,
    events: Seq<ExecutionEventView>,
)
    requires
        moves_are_no_patches(plan),
    ensures
        ({
            let start = starting(plan, computer_asset_id, base, planned);
            let last = executed(start, events);
            &&& last.current_state.last_sync_time == planned.last_sync_time
            &&& last.current_state.last_sync_result == planned.last_sync_result
            &&& events.len() == 0 ==> last.current_state.known_monitors == base.known_monitors
            &&& events.len() == 0 || plan.asset_update is None || computer_asset_id is None
                ==> last.current_state.matched_asset == base.matched_asset
            &&& plan.asset_update is Some && computer_asset_id is Some && last.confirmed.len() > 0
                ==> {
                &&& last.current_state.matched_asset is Some
                &&& exists|step: int| #[trigger]
                    reported_for_patch(start, events, step, last.current_state.matched_asset->0)
            }
        }),
{
    lemma_reported(plan, computer_asset_id, base, planned, events);
}

/// An execution goes from operation to operation: it announces the operation, asks for it once it is
/// announced, records the outcome once it was answered, and goes on once the outcome is recorded.
/// Only the answer to a patch changes the matched asset, and only answers change the state.
pub proof fn executions_take_operations_in_turn(
    execution: ExecutionView,
    summary: AssetSummaryView,
)
    requires
        well_formed(execution),
        execution.confirmed.len() < execution.operations.len(),
    ensures
        ({
            let current = execution.operations[execution.confirmed.len() as int];
            let appended = after_event(execution, ExecutionEventView::Appended);
            let patched = after_event(execution, ExecutionEventView::Patched { summary });
            let moved = after_event(execution, ExecutionEventView::Moved);
            &&& execution.phase == ExecutionPhase::Preparing ==> {
                &&& action_of(execution) is Append
                &&& action_of(execution)->record is Prepared
                &&& action_of(execution)->record->Prepared_operation_id == current.operation_id
                &&& action_of(appended) == (ActionView::Call { operation: current.operation })
                &&& appended == (ExecutionView { phase: appended.phase, ..execution })
            }
            &&& execution.phase == ExecutionPhase::Calling ==> {
                &&& action_of(execution) == (ActionView::Call { operation: current.operation })
                &&& current.operation is Patch ==> {
                    &&& patched.matched_asset == Some(summary)
                    &&& patched.current_state.matched_asset == Some(summary)
                    &&& patched.current_state.known_monitors
                        == execution.current_state.known_monitors
                    &&& patched.confirmed == execution.confirmed
                    &&& action_of(patched) is Append
                    &&& action_of(patched)->record is RemoteOutcomeObserved
                    &&& action_of(patched)->record->RemoteOutcomeObserved_operation_id
                        == current.operation_id
                    &&& moved == execution
                }
                &&& !(current.operation is Patch) ==> {
                    &&& moved.matched_asset == execution.matched_asset
                    &&& moved.confirmed == execution.confirmed
                    &&& action_of(moved) is Append
                    &&& action_of(moved)->record is RemoteOutcomeObserved
                    &&& action_of(moved)->record->RemoteOutcomeObserved_operation_id
                        == current.operation_id
                    &&& patched == execution
                }
            }
            &&& execution.phase == ExecutionPhase::Observing ==> {
                &&& action_of(execution) is Append
                &&& appended.phase == ExecutionPhase::Preparing
                &&& appended.confirmed == execution.confirmed.push(current.operation_id)
                &&& appended.current_state == execution.current_state
                &&& appended.matched_asset == execution.matched_asset
            }
        }),
{
}

/// A failure stops an execution, wherever it is, and nothing that happens afterwards sets it going
/// again; only an execution that has finished is past failing.
pub proof fn failures_stop_the_execution(execution: ExecutionView, event: ExecutionEventView)
    ensures
        ({
            let failed = after_event(execution, ExecutionEventView::Failed);
            &&& !(action_of(execution) is Finish) ==> action_of(failed) is Stop
            &&& action_of(execution) is Finish ==> failed == execution
            &&& failed.confirmed == execution.confirmed
            &&& failed.current_state == execution.current_state
            &&& failed.matched_asset == execution.matched_asset
            &&& action_of(execution) is Stop ==> after_event(execution, event) == execution
            &&& execution.phase == ExecutionPhase::Calling || execution.phase
                == ExecutionPhase::Observing ==> failed.phase == (ExecutionPhase::Stopped {
                prepared: true,
            })
            &&& execution.phase == ExecutionPhase::Preparing && !(action_of(execution) is Finish)
                ==> failed.phase == (ExecutionPhase::Stopped { prepared: false })
        }),
{
}

/// What an execution writes about an operation can be read: the announcement holds the operation
/// and the state that it is expected to lead to, and the outcome holds the state that it led to.
pub proof fn executions_record_what_they_do(execution: ExecutionView)
    requires
        well_formed(execution),
        execution.confirmed.len() < execution.operations.len(),
        execution.phase == ExecutionPhase::Preparing || execution.phase
            == ExecutionPhase::Observing,
        snapshot::readable_state(execution.current_state),
        snapshot::readable_state(execution.planned_state),
        evidence::belongs_to(
            execution.operations[execution.confirmed.len() as int].operation,
            execution.operations[execution.confirmed.len() as int].operation_id,
        ),
    ensures
        ({
            let current = execution.operations[execution.confirmed.len() as int];
            let record = action_of(execution)->record;
            &&& execution.phase == ExecutionPhase::Preparing ==> {
                let read = evidence::prepared_operation(
                    current.operation_id,
                    record->Prepared_operation,
                );
                &&& record is Prepared
                &&& read is Ok
                &&& read->Ok_0.operation == current.operation
                &&& read->Ok_0.candidate_state is Some
                &&& snapshot::candidate_state(
                    current.operation_id,
                    read->Ok_0.candidate_state->0,
                ) == Ok::<StateView, snapshot::CandidateFault>(expected_state(execution))
            }
            &&& execution.phase == ExecutionPhase::Observing ==> {
                &&& record is RemoteOutcomeObserved
                &&& record->candidate_state is Some
                &&& snapshot::candidate_state(
                    current.operation_id,
                    record->candidate_state->0,
                ) == Ok::<StateView, snapshot::CandidateFault>(execution.current_state)
                &&& json::text_field(record->outcome, "status"@) == Some("applied"@)
            }
        }),
{
    let current = execution.operations[execution.confirmed.len() as int];
    lemma_identifiers_are_not_empty(current.operation, current.operation_id);
    if execution.phase == ExecutionPhase::Preparing {
        let expected = expected_state(execution);
        lemma_state_after_readable(
            execution.current_state,
            execution.planned_state,
            execution.plan,
            current.operation_id,
            None,
        );
        snapshot::readable_states_are_read_back(current.operation_id, expected);
        evidence::prepared_operations_are_read_back(
            current.operation_id,
            current.operation,
            snapshot::candidate_json(current.operation_id, expected),
        );
    } else {
        snapshot::readable_states_are_read_back(current.operation_id, execution.current_state);
    }
}

/// An interrupted operation is taken up with the state of its recorded outcome, where there is one,
/// and otherwise with the state of its announcement; and as the operation that was announced.
pub proof fn outcomes_come_before_announcements(pending: PendingView)
    ensures
        replay_of(pending) is Ok ==> {
            let replay = replay_of(pending)->Ok_0;
            let announced = evidence::prepared_operation(pending.operation_id, pending.operation);
            &&& announced is Ok
            &&& replay.operation == announced->Ok_0.operation
            &&& pending.candidate_state is Some ==> replay.candidate_state
                == pending.candidate_state
            &&& pending.candidate_state is None ==> replay.candidate_state
                == announced->Ok_0.candidate_state
            &&& replay.candidate_state is Some ==> snapshot::candidate_state(
                pending.operation_id,
                replay.candidate_state->0,
            ) is Ok
        },
        evidence::prepared_operation(pending.operation_id, pending.operation) is Err ==> replay_of(
            pending,
        ) is Err,
{
}

/// An outcome that is on record is not recorded again; one that is not is recorded under the
/// operation's identifier, as reconciled, with the state that was taken up.
pub proof fn outcomes_are_recorded_once(
    pending: PendingView,
    candidate: Option<JsonView>,
    asset: Option<AssetSummaryView>,
)
    ensures
        reconciliation(pending, candidate, asset) is Ok ==> {
            let record = reconciliation(pending, candidate, asset)->Ok_0;
            &&& record is Some <==> pending.remote_outcome is None
            &&& record is Some ==> {
                &&& record->0 is RemoteOutcomeObserved
                &&& record->0->RemoteOutcomeObserved_operation_id == pending.operation_id
                &&& json::text_field(record->0->outcome, "status"@) == Some("reconciled"@)
                &&& asset is None || candidate is None ==> record->0->candidate_state == candidate
            }
        },
{
}

} // verus!
