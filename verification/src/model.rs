//! Inventory data: assets, monitors, plans and the persisted service state.
//!
//! Each type has a mathematical counterpart, its deep view, in which strings are character
//! sequences and lists are sequences.

use vstd::prelude::*;

verus! {

/// Values that can be copied without changing what they stand for.
pub trait Duplicate: DeepView + Sized {
    /// Copies the value.
    fn duplicate(&self) -> (copy: Self)
        ensures
            copy.deep_view() == self.deep_view(),
    ;
}

impl Duplicate for u64 {
    fn duplicate(&self) -> (copy: Self) {
        *self
    }
}

impl Duplicate for u8 {
    fn duplicate(&self) -> (copy: Self) {
        *self
    }
}

impl Duplicate for String {
    fn duplicate(&self) -> (copy: Self) {
        self.clone()
    }
}

impl<T: Duplicate> Duplicate for Option<T> {
    fn duplicate(&self) -> (copy: Self) {
        match self {
            Some(value) => Some(value.duplicate()),
            None => None,
        }
    }
}

impl<T: Duplicate> Duplicate for Vec<T> {
    fn duplicate(&self) -> (copy: Self) {
        let mut copy: Vec<T> = Vec::new();
        let mut index: usize = 0;
        while index < self.len()
            invariant
                index <= self@.len(),
                copy@.len() == index,
                forall|i: int|
                    0 <= i < index ==> (#[trigger] copy@[i]).deep_view() == self@[i].deep_view(),
            decreases self.len() - index,
        {
            copy.push(self[index].duplicate());
            index += 1;
        }
        proof {
            assert(copy.deep_view() == self.deep_view());
        }
        copy
    }
}

/// An instant in UTC: whole seconds since the Unix epoch and the nanoseconds after them.
#[derive(Clone, Copy, Debug, PartialEq, Eq, Structural)]
pub struct Timestamp {
    pub seconds: i64,
    pub nanos: u32,
}

impl DeepView for Timestamp {
    type V = Timestamp;

    open spec fn deep_view(&self) -> Timestamp {
        *self
    }
}

impl Duplicate for Timestamp {
    fn duplicate(&self) -> (copy: Self) {
        *self
    }
}

/// What the service remembers of the asset that stands for this computer.
#[derive(Clone, Debug, PartialEq, Eq)]
pub struct AssetSummary {
    pub id: u64,
    pub name: String,
    pub serial: Option<String>,
    pub asset_tag: Option<String>,
}

/// The deep view of an [`AssetSummary`].
#[verifier::ext_equal]
pub struct AssetSummaryView {
    pub id: u64,
    pub name: Seq<char>,
    pub serial: Option<Seq<char>>,
    pub asset_tag: Option<Seq<char>>,
}

impl DeepView for AssetSummary {
    type V = AssetSummaryView;

    open spec fn deep_view(&self) -> AssetSummaryView {
        AssetSummaryView {
            id: self.id,
            name: self.name@,
            serial: self.serial.deep_view(),
            asset_tag: self.asset_tag.deep_view(),
        }
    }
}

impl Duplicate for AssetSummary {
    fn duplicate(&self) -> (copy: Self) {
        AssetSummary {
            id: self.id,
            name: self.name.clone(),
            serial: self.serial.duplicate(),
            asset_tag: self.asset_tag.duplicate(),
        }
    }
}

/// What the service remembers of one monitor.
#[derive(Clone, Debug, PartialEq, Eq)]
pub struct MonitorSyncEntry {
    pub serial: String,
    pub snipeit_asset_id: Option<u64>,
    pub last_seen: Timestamp,
    pub absent_since: Option<Timestamp>,
    pub checked_out: bool,
}

/// The deep view of a [`MonitorSyncEntry`].
#[verifier::ext_equal]
pub struct MonitorView {
    pub serial: Seq<char>,
    pub snipeit_asset_id: Option<u64>,
    pub last_seen: Timestamp,
    pub absent_since: Option<Timestamp>,
    pub checked_out: bool,
}

impl DeepView for MonitorSyncEntry {
    type V = MonitorView;

    open spec fn deep_view(&self) -> MonitorView {
        MonitorView {
            serial: self.serial@,
            snipeit_asset_id: self.snipeit_asset_id,
            last_seen: self.last_seen,
            absent_since: self.absent_since,
            checked_out: self.checked_out,
        }
    }
}

impl Duplicate for MonitorSyncEntry {
    fn duplicate(&self) -> (copy: Self) {
        MonitorSyncEntry {
            serial: self.serial.clone(),
            snipeit_asset_id: self.snipeit_asset_id,
            last_seen: self.last_seen,
            absent_since: self.absent_since,
            checked_out: self.checked_out,
        }
    }
}

/// How the last synchronization ended.
#[derive(Clone, Debug, PartialEq, Eq)]
pub enum SyncResult {
    Success,
    PartialSuccess { warnings: Vec<String> },
    Failed { error: String },
}

/// The deep view of a [`SyncResult`].
#[verifier::ext_equal]
pub enum SyncResultView {
    Success,
    PartialSuccess { warnings: Seq<Seq<char>> },
    Failed { error: Seq<char> },
}

impl DeepView for SyncResult {
    type V = SyncResultView;

    open spec fn deep_view(&self) -> SyncResultView {
        match self {
            SyncResult::Success => SyncResultView::Success,
            SyncResult::PartialSuccess { warnings } => SyncResultView::PartialSuccess {
                warnings: warnings.deep_view(),
            },
            SyncResult::Failed { error } => SyncResultView::Failed { error: error@ },
        }
    }
}

impl Duplicate for SyncResult {
    fn duplicate(&self) -> (copy: Self) {
        match self {
            SyncResult::Success => SyncResult::Success,
            SyncResult::PartialSuccess { warnings } => SyncResult::PartialSuccess {
                warnings: warnings.duplicate(),
            },
            SyncResult::Failed { error } => SyncResult::Failed { error: error.clone() },
        }
    }
}

/// The state that the service signs and persists between runs.
#[derive(Clone, Debug, PartialEq, Eq)]
pub struct ServiceState {
    pub last_sync_time: Option<String>,
    pub last_sync_result: Option<SyncResult>,
    pub matched_asset: Option<AssetSummary>,
    pub known_monitors: Vec<MonitorSyncEntry>,
}

/// The deep view of a [`ServiceState`].
#[verifier::ext_equal]
pub struct StateView {
    pub last_sync_time: Option<Seq<char>>,
    pub last_sync_result: Option<SyncResultView>,
    pub matched_asset: Option<AssetSummaryView>,
    pub known_monitors: Seq<MonitorView>,
}

impl DeepView for ServiceState {
    type V = StateView;

    open spec fn deep_view(&self) -> StateView {
        StateView {
            last_sync_time: self.last_sync_time.deep_view(),
            last_sync_result: self.last_sync_result.deep_view(),
            matched_asset: self.matched_asset.deep_view(),
            known_monitors: self.known_monitors.deep_view(),
        }
    }
}

impl Duplicate for ServiceState {
    fn duplicate(&self) -> (copy: Self) {
        ServiceState {
            last_sync_time: self.last_sync_time.duplicate(),
            last_sync_result: self.last_sync_result.duplicate(),
            matched_asset: self.matched_asset.duplicate(),
            known_monitors: self.known_monitors.duplicate(),
        }
    }
}

/// The state of a service that has never synchronized.
pub open spec fn empty_state() -> StateView {
    StateView {
        last_sync_time: None,
        last_sync_result: None,
        matched_asset: None,
        known_monitors: Seq::empty(),
    }
}

impl Default for ServiceState {
    fn default() -> (state: Self)
        ensures
            state.deep_view() == empty_state(),
    {
        let state = ServiceState {
            last_sync_time: None,
            last_sync_result: None,
            matched_asset: None,
            known_monitors: Vec::new(),
        };
        proof {
            assert(state.known_monitors.deep_view() == Seq::<MonitorView>::empty());
        }
        state
    }
}

/// A reference to a named record of the inventory server.
#[derive(Clone, Debug, PartialEq, Eq)]
pub struct NamedReference {
    pub id: u64,
    pub name: String,
}

/// A manufacturer known to the inventory server.
#[derive(Clone, Debug, PartialEq, Eq)]
pub struct Manufacturer {
    pub id: u64,
    pub name: String,
}

/// A category known to the inventory server.
#[derive(Clone, Debug, PartialEq, Eq)]
pub struct Category {
    pub id: u64,
    pub name: String,
}

/// An asset model known to the inventory server.
#[derive(Clone, Debug, PartialEq, Eq)]
pub struct AssetModel {
    pub id: u64,
    pub name: String,
    pub manufacturer: Option<Manufacturer>,
    pub category: Option<Category>,
}

/// An asset as the inventory server reports it.
#[derive(Clone, Debug, PartialEq, Eq)]
pub struct Asset {
    pub id: u64,
    pub name: String,
    pub serial: Option<String>,
    pub asset_tag: Option<String>,
    pub status_label: Option<NamedReference>,
    pub assigned_to: Option<NamedReference>,
    pub model: Option<AssetModel>,
}

/// The fields of an asset that a patch sets; absent fields are left alone.
#[derive(Clone, Debug, PartialEq, Eq)]
pub struct AssetPatchRequest {
    pub name: Option<String>,
    pub serial: Option<String>,
    pub asset_tag: Option<String>,
    pub model_id: Option<u64>,
}

/// The deep view of an [`AssetPatchRequest`].
#[verifier::ext_equal]
pub struct PatchView {
    pub name: Option<Seq<char>>,
    pub serial: Option<Seq<char>>,
    pub asset_tag: Option<Seq<char>>,
    pub model_id: Option<u64>,
}

impl DeepView for AssetPatchRequest {
    type V = PatchView;

    open spec fn deep_view(&self) -> PatchView {
        PatchView {
            name: self.name.deep_view(),
            serial: self.serial.deep_view(),
            asset_tag: self.asset_tag.deep_view(),
            model_id: self.model_id,
        }
    }
}

impl Duplicate for AssetPatchRequest {
    fn duplicate(&self) -> (copy: Self) {
        AssetPatchRequest {
            name: self.name.duplicate(),
            serial: self.serial.duplicate(),
            asset_tag: self.asset_tag.duplicate(),
            model_id: self.model_id,
        }
    }
}

impl Default for AssetPatchRequest {
    fn default() -> (request: Self)
        ensures
            request.deep_view() == (PatchView {
                name: None,
                serial: None,
                asset_tag: None,
                model_id: None,
            }),
    {
        AssetPatchRequest { name: None, serial: None, asset_tag: None, model_id: None }
    }
}

/// The body of a check-out request.
#[derive(Clone, Debug, PartialEq, Eq)]
pub struct CheckoutRequest {
    pub checkout_to_type: String,
    pub assigned_asset: u64,
    pub status_id: u64,
}

/// The body of a check-in request.
#[derive(Clone, Copy, Debug, PartialEq, Eq, Structural)]
pub struct CheckinRequest {
    pub status_id: u64,
}

/// One planned monitor check-out.
#[derive(Clone, Debug, PartialEq, Eq)]
pub struct MonitorCheckout {
    pub operation_id: String,
    pub source_asset_id: u64,
    pub request: CheckoutRequest,
}

/// The deep view of a [`MonitorCheckout`].
#[verifier::ext_equal]
pub struct CheckoutView {
    pub operation_id: Seq<char>,
    pub source_asset_id: u64,
    pub checkout_to_type: Seq<char>,
    pub assigned_asset: u64,
    pub status_id: u64,
}

impl DeepView for MonitorCheckout {
    type V = CheckoutView;

    open spec fn deep_view(&self) -> CheckoutView {
        CheckoutView {
            operation_id: self.operation_id@,
            source_asset_id: self.source_asset_id,
            checkout_to_type: self.request.checkout_to_type@,
            assigned_asset: self.request.assigned_asset,
            status_id: self.request.status_id,
        }
    }
}

impl Duplicate for MonitorCheckout {
    fn duplicate(&self) -> (copy: Self) {
        MonitorCheckout {
            operation_id: self.operation_id.clone(),
            source_asset_id: self.source_asset_id,
            request: CheckoutRequest {
                checkout_to_type: self.request.checkout_to_type.clone(),
                assigned_asset: self.request.assigned_asset,
                status_id: self.request.status_id,
            },
        }
    }
}

/// One planned monitor check-in.
#[derive(Clone, Debug, PartialEq, Eq)]
pub struct MonitorCheckin {
    pub operation_id: String,
    pub source_asset_id: u64,
    pub request: CheckinRequest,
}

/// The deep view of a [`MonitorCheckin`].
#[verifier::ext_equal]
pub struct CheckinView {
    pub operation_id: Seq<char>,
    pub source_asset_id: u64,
    pub status_id: u64,
}

impl DeepView for MonitorCheckin {
    type V = CheckinView;

    open spec fn deep_view(&self) -> CheckinView {
        CheckinView {
            operation_id: self.operation_id@,
            source_asset_id: self.source_asset_id,
            status_id: self.request.status_id,
        }
    }
}

impl Duplicate for MonitorCheckin {
    fn duplicate(&self) -> (copy: Self) {
        MonitorCheckin {
            operation_id: self.operation_id.clone(),
            source_asset_id: self.source_asset_id,
            request: self.request,
        }
    }
}

/// The monitors that a plan expects to know once it has been carried out.
#[derive(Clone, Debug, PartialEq, Eq)]
pub struct MonitorSyncState {
    pub entries: Vec<MonitorSyncEntry>,
}

/// The mutations that a synchronization has to carry out.
#[derive(Clone, Debug, PartialEq, Eq)]
pub struct SyncPlan {
    pub asset_update: Option<AssetPatchRequest>,
    pub monitor_checkouts: Vec<MonitorCheckout>,
    pub monitor_checkins: Vec<MonitorCheckin>,
    pub next_monitor_state: MonitorSyncState,
    pub warnings: Vec<String>,
}

/// The deep view of a [`SyncPlan`].
#[verifier::ext_equal]
pub struct PlanView {
    pub asset_update: Option<PatchView>,
    pub monitor_checkouts: Seq<CheckoutView>,
    pub monitor_checkins: Seq<CheckinView>,
    pub next_monitors: Seq<MonitorView>,
    pub warnings: Seq<Seq<char>>,
}

impl DeepView for SyncPlan {
    type V = PlanView;

    open spec fn deep_view(&self) -> PlanView {
        PlanView {
            asset_update: self.asset_update.deep_view(),
            monitor_checkouts: self.monitor_checkouts.deep_view(),
            monitor_checkins: self.monitor_checkins.deep_view(),
            next_monitors: self.next_monitor_state.entries.deep_view(),
            warnings: self.warnings.deep_view(),
        }
    }
}

/// The summary that the service keeps of an asset.
pub open spec fn summary_of(asset: Asset) -> AssetSummaryView {
    AssetSummaryView {
        id: asset.id,
        name: asset.name@,
        serial: asset.serial.deep_view(),
        asset_tag: asset.asset_tag.deep_view(),
    }
}

/// Summarizes an asset for the persisted state.
pub fn asset_summary(asset: &Asset) -> (summary: AssetSummary)
    ensures
        summary.deep_view() == summary_of(*asset),
{
    AssetSummary {
        id: asset.id,
        name: asset.name.clone(),
        serial: asset.serial.duplicate(),
        asset_tag: asset.asset_tag.duplicate(),
    }
}

/// The summary of an asset says of it what the asset says of itself.
pub proof fn summaries_are_faithful(asset: Asset)
    ensures
        summary_of(asset).id == asset.id,
        summary_of(asset).name == asset.name@,
        asset.serial is None ==> summary_of(asset).serial is None,
        asset.serial is Some ==> summary_of(asset).serial == Some(asset.serial->0@),
        asset.asset_tag is None ==> summary_of(asset).asset_tag is None,
        asset.asset_tag is Some ==> summary_of(asset).asset_tag == Some(asset.asset_tag->0@),
{
}

/// A service that has never synchronized knows nothing.
pub proof fn empty_states_know_nothing()
    ensures
        empty_state().last_sync_time is None,
        empty_state().last_sync_result is None,
        empty_state().matched_asset is None,
        empty_state().known_monitors.len() == 0,
{
}

} // verus!
