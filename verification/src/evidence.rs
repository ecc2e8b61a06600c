//! Prepared operations as the journal carries them, and what recovery makes of them.

use vstd::prelude::*;

use crate::journal;
use crate::journal::JournalRecord;
use crate::journal::PendingOperation;
use crate::journal::PendingView;
use crate::journal::PhaseError;
use crate::journal::RecordView;
use crate::json;
use crate::json::Json;
use crate::json::JsonView;
use crate::model;
use crate::model::Asset;
use crate::model::AssetPatchRequest;
use crate::model::AssetSummary;
use crate::model::AssetSummaryView;
use crate::model::CheckinRequest;
use crate::model::CheckinView;
use crate::model::CheckoutRequest;
use crate::model::CheckoutView;
use crate::model::Duplicate;
use crate::model::MonitorCheckin;
use crate::model::MonitorCheckout;
use crate::model::MonitorView;
use crate::model::PatchView;
use crate::model::ServiceState;
use crate::model::StateView;
use crate::operation_id;
use crate::operation_id::OperationKind;
use crate::operation_id::PatchIdError;
use crate::snapshot;
use crate::snapshot::CandidateFault;
use crate::text;
use crate::transition;

verus! {

// ---------------------------------------------------------------------------------------------
// Operations as JSON
// ---------------------------------------------------------------------------------------------

/// One mutation of the inventory server.
#[derive(Clone, Debug, PartialEq, Eq)]
pub enum Operation {
    Patch { asset_id: u64, request: AssetPatchRequest },
    Checkout(MonitorCheckout),
    Checkin(MonitorCheckin),
}

/// The deep view of an [`Operation`].
#[verifier::ext_equal]
pub enum OperationView {
    Patch { asset_id: u64, request: PatchView },
    Checkout(CheckoutView),
    Checkin(CheckinView),
}

impl DeepView for Operation {
    type V = OperationView;

    open spec fn deep_view(&self) -> OperationView {
        match self {
            Operation::Patch { asset_id, request } => OperationView::Patch {
                asset_id: *asset_id,
                request: request.deep_view(),
            },
            Operation::Checkout(checkout) => OperationView::Checkout(checkout.deep_view()),
            Operation::Checkin(checkin) => OperationView::Checkin(checkin.deep_view()),
        }
    }
}

impl Duplicate for Operation {
    fn duplicate(&self) -> (copy: Self) {
        match self {
            Operation::Patch { asset_id, request } => Operation::Patch {
                asset_id: *asset_id,
                request: request.duplicate(),
            },
            Operation::Checkout(checkout) => Operation::Checkout(checkout.duplicate()),
            Operation::Checkin(checkin) => Operation::Checkin(checkin.duplicate()),
        }
    }
}

/// Adds a text field if there is one.
pub open spec fn with_text(
    fields: Seq<(Seq<char>, JsonView)>,
    name: Seq<char>,
    value: Option<Seq<char>>,
) -> Seq<(Seq<char>, JsonView)> {
    match value {
        Some(text) => fields.push((name, JsonView::Text(text))),
        None => fields,
    }
}

/// The fields of a patch: those that it sets, in declaration order.
pub open spec fn patch_fields(request: PatchView) -> Seq<(Seq<char>, JsonView)> {
    let name = with_text(Seq::empty(), "name"@, request.name);
    let serial = with_text(name, "serial"@, request.serial);
    let tag = with_text(serial, "asset_tag"@, request.asset_tag);
    match request.model_id {
        Some(id) => tag.push(("model_id"@, JsonView::Unsigned(id))),
        None => tag,
    }
}

/// The JSON form of the payload of an operation.
pub open spec fn operation_json(operation: OperationView) -> JsonView {
    match operation {
        OperationView::Patch { request, .. } => JsonView::Object(patch_fields(request)),
        OperationView::Checkout(checkout) => JsonView::Object(
            seq![
                ("operation_id"@, JsonView::Text(checkout.operation_id)),
                ("source_asset_id"@, JsonView::Unsigned(checkout.source_asset_id)),
                (
                    "request"@,
                    JsonView::Object(
                        seq![
                            ("checkout_to_type"@, JsonView::Text(checkout.checkout_to_type)),
                            ("assigned_asset"@, JsonView::Unsigned(checkout.assigned_asset)),
                            ("status_id"@, JsonView::Unsigned(checkout.status_id)),
                        ],
                    ),
                ),
            ],
        ),
        OperationView::Checkin(checkin) => JsonView::Object(
            seq![
                ("operation_id"@, JsonView::Text(checkin.operation_id)),
                ("source_asset_id"@, JsonView::Unsigned(checkin.source_asset_id)),
                (
                    "request"@,
                    JsonView::Object(seq![("status_id"@, JsonView::Unsigned(checkin.status_id))]),
                ),
            ],
        ),
    }
}

fn push_text(fields: &mut Vec<(String, Json)>, name: &str, value: &Option<String>)
    ensures
        json::fields_view(final(fields)@) == with_text(
            json::fields_view(old(fields)@),
            name@,
            value.deep_view(),
        ),
{
    match value {
        Some(text) => {
            json::push_field(fields, name, Json::Text(text.clone()));
        },
        None => {},
    }
}

/// Writes the payload of an operation as JSON.
pub fn write_operation(operation: &Operation) -> (value: Json)
    ensures
        json::json_view(value) == operation_json(operation.deep_view()),
{
    let mut fields: Vec<(String, Json)> = Vec::new();
    proof {
        assert(json::fields_view(fields@) =~= Seq::<(Seq<char>, JsonView)>::empty());
    }
    match operation {
        Operation::Patch { asset_id: _, request } => {
            push_text(&mut fields, "name", &request.name);
            push_text(&mut fields, "serial", &request.serial);
            push_text(&mut fields, "asset_tag", &request.asset_tag);
            match request.model_id {
                Some(id) => {
                    json::push_field(&mut fields, "model_id", Json::Unsigned(id));
                },
                None => {},
            }
        },
        Operation::Checkout(checkout) => {
            json::push_field(
                &mut fields,
                "operation_id",
                Json::Text(checkout.operation_id.clone()),
            );
            json::push_field(
                &mut fields,
                "source_asset_id",
                Json::Unsigned(checkout.source_asset_id),
            );
            let mut request: Vec<(String, Json)> = Vec::new();
            json::push_field(
                &mut request,
                "checkout_to_type",
                Json::Text(checkout.request.checkout_to_type.clone()),
            );
            json::push_field(
                &mut request,
                "assigned_asset",
                Json::Unsigned(checkout.request.assigned_asset),
            );
            json::push_field(
                &mut request,
                "status_id",
                Json::Unsigned(checkout.request.status_id),
            );
            proof {
                let expected = operation_json(operation.deep_view())->Object_0[2].1->Object_0;
                assert(json::fields_view(request@) =~= expected);
            }
            json::push_field(&mut fields, "request", json::object(request));
        },
        Operation::Checkin(checkin) => {
            json::push_field(
                &mut fields,
                "operation_id",
                Json::Text(checkin.operation_id.clone()),
            );
            json::push_field(
                &mut fields,
                "source_asset_id",
                Json::Unsigned(checkin.source_asset_id),
            );
            let mut request: Vec<(String, Json)> = Vec::new();
            json::push_field(&mut request, "status_id", Json::Unsigned(checkin.request.status_id));
            proof {
                let expected = operation_json(operation.deep_view())->Object_0[2].1->Object_0;
                assert(json::fields_view(request@) =~= expected);
            }
            json::push_field(&mut fields, "request", json::object(request));
        },
    }
    proof {
        assert(json::fields_view(fields@) =~= operation_json(operation.deep_view())->Object_0);
    }
    json::object(fields)
}

/// A patch request; only an object is one.
pub open spec fn decoded_patch(value: JsonView) -> Option<PatchView> {
    match (
        value is Object,
        snapshot::decoded_optional_text(json::field(value, "name"@)),
        snapshot::decoded_optional_text(json::field(value, "serial"@)),
        snapshot::decoded_optional_text(json::field(value, "asset_tag"@)),
        snapshot::decoded_optional_number(json::field(value, "model_id"@)),
    ) {
        (true, Some(name), Some(serial), Some(asset_tag), Some(model_id)) => Some(
            PatchView { name, serial, asset_tag, model_id },
        ),
        _ => None,
    }
}

/// A monitor check-out.
pub open spec fn decoded_checkout(value: JsonView) -> Option<CheckoutView> {
    match (
        json::text_field(value, "operation_id"@),
        json::number_field(value, "source_asset_id"@),
        json::field(value, "request"@),
    ) {
        (Some(operation_id), Some(source_asset_id), Some(request)) => match (
            json::text_field(request, "checkout_to_type"@),
            json::number_field(request, "assigned_asset"@),
            json::number_field(request, "status_id"@),
        ) {
            (Some(checkout_to_type), Some(assigned_asset), Some(status_id)) => Some(
                CheckoutView {
                    operation_id,
                    source_asset_id,
                    checkout_to_type,
                    assigned_asset,
                    status_id,
                },
            ),
            _ => None,
        },
        _ => None,
    }
}

/// A monitor check-in.
pub open spec fn decoded_checkin(value: JsonView) -> Option<CheckinView> {
    match (
        json::text_field(value, "operation_id"@),
        json::number_field(value, "source_asset_id"@),
        json::field(value, "request"@),
    ) {
        (Some(operation_id), Some(source_asset_id), Some(request)) => match json::number_field(
            request,
            "status_id"@,
        ) {
            Some(status_id) => Some(CheckinView { operation_id, source_asset_id, status_id }),
            None => None,
        },
        _ => None,
    }
}

fn read_patch(value: &Json) -> (result: Option<AssetPatchRequest>)
    ensures
        result.deep_view() == decoded_patch(json::json_view(*value)),
{
    match value {
        Json::Object(_) => {},
        _ => {
            return None;
        },
    }
    let name = match snapshot::read_optional_text(json::get(value, "name")) {
        Some(name) => name,
        None => {
            return None;
        },
    };
    let serial = match snapshot::read_optional_text(json::get(value, "serial")) {
        Some(serial) => serial,
        None => {
            return None;
        },
    };
    let asset_tag = match snapshot::read_optional_text(json::get(value, "asset_tag")) {
        Some(asset_tag) => asset_tag,
        None => {
            return None;
        },
    };
    let model_id = match snapshot::read_optional_number(json::get(value, "model_id")) {
        Some(model_id) => model_id,
        None => {
            return None;
        },
    };
    Some(AssetPatchRequest { name, serial, asset_tag, model_id })
}

fn read_checkout(value: &Json) -> (result: Option<MonitorCheckout>)
    ensures
        result.deep_view() == decoded_checkout(json::json_view(*value)),
{
    match (
        json::get_text(value, "operation_id"),
        json::get_u64(value, "source_asset_id"),
        json::get(value, "request"),
    ) {
        (Some(operation_id), Some(source_asset_id), Some(request)) => match (
            json::get_text(request, "checkout_to_type"),
            json::get_u64(request, "assigned_asset"),
            json::get_u64(request, "status_id"),
        ) {
            (Some(checkout_to_type), Some(assigned_asset), Some(status_id)) => Some(
                MonitorCheckout {
                    operation_id,
                    source_asset_id,
                    request: CheckoutRequest { checkout_to_type, assigned_asset, status_id },
                },
            ),
            _ => None,
        },
        _ => None,
    }
}

fn read_checkin(value: &Json) -> (result: Option<MonitorCheckin>)
    ensures
        result.deep_view() == decoded_checkin(json::json_view(*value)),
{
    match (
        json::get_text(value, "operation_id"),
        json::get_u64(value, "source_asset_id"),
        json::get(value, "request"),
    ) {
        (Some(operation_id), Some(source_asset_id), Some(request)) => match json::get_u64(
            request,
            "status_id",
        ) {
            Some(status_id) => Some(
                MonitorCheckin {
                    operation_id,
                    source_asset_id,
                    request: CheckinRequest { status_id },
                },
            ),
            None => None,
        },
        _ => None,
    }
}

// ---------------------------------------------------------------------------------------------
// Prepared operations
// ---------------------------------------------------------------------------------------------

/// Why the evidence of an operation cannot be used.
#[derive(Clone, Copy, Debug, PartialEq, Eq, Structural)]
pub enum EvidenceFault {
    PatchId(PatchIdError),
    UnsupportedVersion(u64),
    MissingPayload,
    MissingCandidate,
    InvalidPatch,
    PatchMismatch,
    InvalidCheckout,
    CheckoutMismatch,
    InvalidCheckin,
    CheckinMismatch,
    UnknownKind,
    LegacyInvalidPatch,
    LegacyAmbiguousPatch,
    LegacyInvalidCheckout,
    LegacyCheckoutMismatch,
    LegacyInvalidCheckin,
    LegacyCheckinMismatch,
    LegacyUnknownKind,
    LegacyPatchWithoutAsset,
    LegacyPatchAssetMismatch,
    LegacyMonitorUnmapped(u64),
    Candidate(CandidateFault),
    CandidateWithoutObject,
    OutcomeMissing,
    OutcomeInvalid,
    EvidenceMissing,
}

/// The message of a fault in the evidence of the operation `id`.
pub open spec fn fault_text(fault: EvidenceFault, id: Seq<char>) -> Seq<char> {
    match fault {
        EvidenceFault::PatchId(error) => match error {
            PatchIdError::Malformed => "malformed prepared patch operation ID"@,
            PatchIdError::InvalidAssetId => "invalid asset ID in prepared patch operation"@,
            PatchIdError::ZeroAssetId => "prepared patch asset ID must be nonzero"@,
        },
        EvidenceFault::UnsupportedVersion(version) => "unsupported prepared operation version: "@
            + text::decimal_text(version as nat),
        EvidenceFault::MissingPayload => "prepared operation payload is missing: "@ + id,
        EvidenceFault::MissingCandidate => "prepared candidate state is missing: "@ + id,
        EvidenceFault::InvalidPatch => "invalid prepared asset patch operation"@,
        EvidenceFault::PatchMismatch => "prepared patch operation ID does not match payload"@,
        EvidenceFault::InvalidCheckout => "invalid prepared monitor checkout operation"@,
        EvidenceFault::CheckoutMismatch => "prepared checkout operation ID does not match payload"@,
        EvidenceFault::InvalidCheckin => "invalid prepared monitor check-in operation"@,
        EvidenceFault::CheckinMismatch => "prepared check-in operation ID does not match payload"@,
        EvidenceFault::UnknownKind => "unknown prepared operation kind: "@ + id,
        EvidenceFault::LegacyInvalidPatch => "invalid legacy prepared asset patch operation"@,
        EvidenceFault::LegacyAmbiguousPatch => "ambiguous legacy patch operation payload: "@ + id,
        EvidenceFault::LegacyInvalidCheckout =>
        "invalid legacy prepared monitor checkout operation"@,
        EvidenceFault::LegacyCheckoutMismatch =>
        "legacy checkout operation ID does not match payload"@,
        EvidenceFault::LegacyInvalidCheckin => "invalid legacy prepared monitor check-in operation"@,
        EvidenceFault::LegacyCheckinMismatch =>
        "legacy check-in operation ID does not match payload"@,
        EvidenceFault::LegacyUnknownKind => "unknown legacy prepared operation kind: "@ + id,
        EvidenceFault::LegacyPatchWithoutAsset =>
        "legacy patch recovery requires a matched asset: "@ + id,
        EvidenceFault::LegacyPatchAssetMismatch =>
        "legacy patch asset ID does not match persisted state: "@ + id,
        EvidenceFault::LegacyMonitorUnmapped(asset_id) =>
        "legacy monitor recovery found no asset mapping: "@ + text::decimal_text(asset_id as nat),
        EvidenceFault::Candidate(fault) => snapshot::candidate_fault_text(fault),
        EvidenceFault::CandidateWithoutObject =>
        "recovered candidate state is missing state object"@,
        EvidenceFault::OutcomeMissing => "recovered operation outcome is missing: "@ + id,
        EvidenceFault::OutcomeInvalid => "recovered operation outcome is invalid: "@ + id,
        EvidenceFault::EvidenceMissing => "recovered operation evidence is missing: "@ + id,
    }
}

impl EvidenceFault {
    /// Renders a fault in the evidence of an operation.
    pub fn message(&self, operation_id: &str) -> (text: String)
        ensures
            text@ == fault_text(*self, operation_id@),
    {
        match self {
            EvidenceFault::PatchId(error) => error.message(),
            EvidenceFault::UnsupportedVersion(version) =>
            "unsupported prepared operation version: ".to_owned().concat(
                text::decimal(*version as u128).as_str(),
            ),
            EvidenceFault::MissingPayload =>
            "prepared operation payload is missing: ".to_owned().concat(operation_id),
            EvidenceFault::MissingCandidate =>
            "prepared candidate state is missing: ".to_owned().concat(operation_id),
            EvidenceFault::InvalidPatch => "invalid prepared asset patch operation".to_owned(),
            EvidenceFault::PatchMismatch =>
            "prepared patch operation ID does not match payload".to_owned(),
            EvidenceFault::InvalidCheckout =>
            "invalid prepared monitor checkout operation".to_owned(),
            EvidenceFault::CheckoutMismatch =>
            "prepared checkout operation ID does not match payload".to_owned(),
            EvidenceFault::InvalidCheckin =>
            "invalid prepared monitor check-in operation".to_owned(),
            EvidenceFault::CheckinMismatch =>
            "prepared check-in operation ID does not match payload".to_owned(),
            EvidenceFault::UnknownKind => "unknown prepared operation kind: ".to_owned().concat(
                operation_id,
            ),
            EvidenceFault::LegacyInvalidPatch =>
            "invalid legacy prepared asset patch operation".to_owned(),
            EvidenceFault::LegacyAmbiguousPatch =>
            "ambiguous legacy patch operation payload: ".to_owned().concat(operation_id),
            EvidenceFault::LegacyInvalidCheckout =>
            "invalid legacy prepared monitor checkout operation".to_owned(),
            EvidenceFault::LegacyCheckoutMismatch =>
            "legacy checkout operation ID does not match payload".to_owned(),
            EvidenceFault::LegacyInvalidCheckin =>
            "invalid legacy prepared monitor check-in operation".to_owned(),
            EvidenceFault::LegacyCheckinMismatch =>
            "legacy check-in operation ID does not match payload".to_owned(),
            EvidenceFault::LegacyUnknownKind =>
            "unknown legacy prepared operation kind: ".to_owned().concat(operation_id),
            EvidenceFault::LegacyPatchWithoutAsset =>
            "legacy patch recovery requires a matched asset: ".to_owned().concat(operation_id),
            EvidenceFault::LegacyPatchAssetMismatch =>
            "legacy patch asset ID does not match persisted state: ".to_owned().concat(
                operation_id,
            ),
            EvidenceFault::LegacyMonitorUnmapped(asset_id) =>
            "legacy monitor recovery found no asset mapping: ".to_owned().concat(
                text::decimal(*asset_id as u128).as_str(),
            ),
            EvidenceFault::Candidate(fault) => fault.message(),
            EvidenceFault::CandidateWithoutObject =>
            "recovered candidate state is missing state object".to_owned(),
            EvidenceFault::OutcomeMissing =>
            "recovered operation outcome is missing: ".to_owned().concat(operation_id),
            EvidenceFault::OutcomeInvalid =>
            "recovered operation outcome is invalid: ".to_owned().concat(operation_id),
            EvidenceFault::EvidenceMissing =>
            "recovered operation evidence is missing: ".to_owned().concat(operation_id),
        }
    }
}

/// The operation that the payload of a versioned record describes. The payload must be the one
/// that the identifier was made for.
pub open spec fn bound_operation(id: Seq<char>, payload: JsonView) -> Result<
    OperationView,
    EvidenceFault,
> {
    match operation_id::patch_target(id) {
        Err(error) => Err(EvidenceFault::PatchId(error)),
        Ok(Some(asset_id)) => match decoded_patch(payload) {
            None => Err(EvidenceFault::InvalidPatch),
            Some(request) => if operation_id::patch_id(asset_id, request) != id {
                Err(EvidenceFault::PatchMismatch)
            } else {
                Ok(OperationView::Patch { asset_id, request })
            },
        },
        Ok(None) => match operation_id::kind_of(id) {
            OperationKind::Checkout => match decoded_checkout(payload) {
                None => Err(EvidenceFault::InvalidCheckout),
                Some(checkout) => if checkout.operation_id != id {
                    Err(EvidenceFault::CheckoutMismatch)
                } else {
                    Ok(OperationView::Checkout(checkout))
                },
            },
            OperationKind::Checkin => match decoded_checkin(payload) {
                None => Err(EvidenceFault::InvalidCheckin),
                Some(checkin) => if checkin.operation_id != id {
                    Err(EvidenceFault::CheckinMismatch)
                } else {
                    Ok(OperationView::Checkin(checkin))
                },
            },
            _ => Err(EvidenceFault::UnknownKind),
        },
    }
}

/// The operation that an unversioned record describes: the payload is the operation itself.
pub open spec fn legacy_operation(id: Seq<char>, payload: JsonView) -> Result<
    OperationView,
    EvidenceFault,
> {
    match operation_id::patch_target(id) {
        Err(error) => Err(EvidenceFault::PatchId(error)),
        Ok(Some(asset_id)) => match decoded_patch(payload) {
            None => Err(EvidenceFault::LegacyInvalidPatch),
            Some(request) => if json::field(payload, "operation_id"@) is Some {
                Err(EvidenceFault::LegacyAmbiguousPatch)
            } else {
                Ok(OperationView::Patch { asset_id, request })
            },
        },
        Ok(None) => match operation_id::kind_of(id) {
            OperationKind::Checkout => match decoded_checkout(payload) {
                None => Err(EvidenceFault::LegacyInvalidCheckout),
                Some(checkout) => if checkout.operation_id != id {
                    Err(EvidenceFault::LegacyCheckoutMismatch)
                } else {
                    Ok(OperationView::Checkout(checkout))
                },
            },
            OperationKind::Checkin => match decoded_checkin(payload) {
                None => Err(EvidenceFault::LegacyInvalidCheckin),
                Some(checkin) => if checkin.operation_id != id {
                    Err(EvidenceFault::LegacyCheckinMismatch)
                } else {
                    Ok(OperationView::Checkin(checkin))
                },
            },
            _ => Err(EvidenceFault::LegacyUnknownKind),
        },
    }
}

/// A prepared operation: the mutation, and the snapshot of the state that it leads to. Records of
/// older versions have no snapshot.
#[derive(Clone, Debug, PartialEq, Eq)]
pub struct PreparedOperation {
    pub operation: Operation,
    pub candidate_state: Option<Json>,
}

/// The deep view of a [`PreparedOperation`].
#[verifier::ext_equal]
pub struct PreparedView {
    pub operation: OperationView,
    pub candidate_state: Option<JsonView>,
}

impl DeepView for PreparedOperation {
    type V = PreparedView;

    open spec fn deep_view(&self) -> PreparedView {
        PreparedView {
            operation: self.operation.deep_view(),
            candidate_state: self.candidate_state.deep_view(),
        }
    }
}

/// What the payload of a prepared record holds.
pub open spec fn prepared_operation(id: Seq<char>, prepared: JsonView) -> Result<
    PreparedView,
    EvidenceFault,
> {
    match json::number_field(prepared, "version"@) {
        None => match legacy_operation(id, prepared) {
            Err(fault) => Err(fault),
            Ok(operation) => Ok(PreparedView { operation, candidate_state: None }),
        },
        Some(version) => if version != 1 {
            Err(EvidenceFault::UnsupportedVersion(version))
        } else {
            match json::field(prepared, "operation"@) {
                None => Err(EvidenceFault::MissingPayload),
                Some(payload) => match bound_operation(id, payload) {
                    Err(fault) => Err(fault),
                    Ok(operation) => match json::field(prepared, "candidate_state"@) {
                        None => Err(EvidenceFault::MissingCandidate),
                        Some(candidate) => match snapshot::candidate_state(id, candidate) {
                            Err(fault) => Err(EvidenceFault::Candidate(fault)),
                            Ok(_) => Ok(
                                PreparedView { operation, candidate_state: Some(candidate) },
                            ),
                        },
                    },
                },
            }
        },
    }
}

/// Checks that a payload belongs to an operation identifier, and reads the operation.
pub fn validate_operation_id_binding(operation_id: &str, payload: &Json) -> (result: Result<
    Operation,
    EvidenceFault,
>)
    ensures
        match result {
            Ok(operation) => bound_operation(operation_id@, json::json_view(*payload)) == Ok::<
                OperationView,
                EvidenceFault,
            >(operation.deep_view()),
            Err(fault) => bound_operation(operation_id@, json::json_view(*payload)) == Err::<
                OperationView,
                EvidenceFault,
            >(fault),
        },
{
    match operation_id::patch_asset_id(operation_id) {
        Err(error) => {
            return Err(EvidenceFault::PatchId(error));
        },
        Ok(Some(asset_id)) => {
            return match read_patch(payload) {
                None => Err(EvidenceFault::InvalidPatch),
                Some(request) => {
                    let expected = operation_id::patch_operation_id(asset_id, &request);
                    if !text::same_text(expected.as_str(), operation_id) {
                        Err(EvidenceFault::PatchMismatch)
                    } else {
                        Ok(Operation::Patch { asset_id, request })
                    }
                },
            };
        },
        Ok(None) => {},
    }
    match operation_id::operation_kind(operation_id) {
        OperationKind::Checkout => match read_checkout(payload) {
            None => Err(EvidenceFault::InvalidCheckout),
            Some(checkout) => if !text::same_text(checkout.operation_id.as_str(), operation_id) {
                Err(EvidenceFault::CheckoutMismatch)
            } else {
                Ok(Operation::Checkout(checkout))
            },
        },
        OperationKind::Checkin => match read_checkin(payload) {
            None => Err(EvidenceFault::InvalidCheckin),
            Some(checkin) => if !text::same_text(checkin.operation_id.as_str(), operation_id) {
                Err(EvidenceFault::CheckinMismatch)
            } else {
                Ok(Operation::Checkin(checkin))
            },
        },
        _ => Err(EvidenceFault::UnknownKind),
    }
}

/// Checks an unversioned payload against its operation identifier, and reads the operation.
pub fn validate_legacy_operation(operation_id: &str, payload: &Json) -> (result: Result<
    Operation,
    EvidenceFault,
>)
    ensures
        match result {
            Ok(operation) => legacy_operation(operation_id@, json::json_view(*payload)) == Ok::<
                OperationView,
                EvidenceFault,
            >(operation.deep_view()),
            Err(fault) => legacy_operation(operation_id@, json::json_view(*payload)) == Err::<
                OperationView,
                EvidenceFault,
            >(fault),
        },
{
    match operation_id::patch_asset_id(operation_id) {
        Err(error) => {
            return Err(EvidenceFault::PatchId(error));
        },
        Ok(Some(asset_id)) => {
            return match read_patch(payload) {
                None => Err(EvidenceFault::LegacyInvalidPatch),
                Some(request) => if json::get(payload, "operation_id").is_some() {
                    Err(EvidenceFault::LegacyAmbiguousPatch)
                } else {
                    Ok(Operation::Patch { asset_id, request })
                },
            };
        },
        Ok(None) => {},
    }
    match operation_id::operation_kind(operation_id) {
        OperationKind::Checkout => match read_checkout(payload) {
            None => Err(EvidenceFault::LegacyInvalidCheckout),
            Some(checkout) => if !text::same_text(checkout.operation_id.as_str(), operation_id) {
                Err(EvidenceFault::LegacyCheckoutMismatch)
            } else {
                Ok(Operation::Checkout(checkout))
            },
        },
        OperationKind::Checkin => match read_checkin(payload) {
            None => Err(EvidenceFault::LegacyInvalidCheckin),
            Some(checkin) => if !text::same_text(checkin.operation_id.as_str(), operation_id) {
                Err(EvidenceFault::LegacyCheckinMismatch)
            } else {
                Ok(Operation::Checkin(checkin))
            },
        },
        _ => Err(EvidenceFault::LegacyUnknownKind),
    }
}

/// Reads the payload of a prepared record.
pub fn decode_prepared_operation(operation_id: &str, prepared: &Json) -> (result: Result<
    PreparedOperation,
    EvidenceFault,
>)
    ensures
        match result {
            Ok(decoded) => prepared_operation(operation_id@, json::json_view(*prepared)) == Ok::<
                PreparedView,
                EvidenceFault,
            >(decoded.deep_view()),
            Err(fault) => prepared_operation(operation_id@, json::json_view(*prepared)) == Err::<
                PreparedView,
                EvidenceFault,
            >(fault),
        },
{
    let version = match json::get_u64(prepared, "version") {
        Some(version) => version,
        None => {
            return match validate_legacy_operation(operation_id, prepared) {
                Ok(operation) => Ok(PreparedOperation { operation, candidate_state: None }),
                Err(fault) => Err(fault),
            };
        },
    };
    if version != 1 {
        return Err(EvidenceFault::UnsupportedVersion(version));
    }
    let payload = match json::get(prepared, "operation") {
        Some(payload) => payload,
        None => {
            return Err(EvidenceFault::MissingPayload);
        },
    };
    let operation = match validate_operation_id_binding(operation_id, payload) {
        Ok(operation) => operation,
        Err(fault) => {
            return Err(fault);
        },
    };
    let candidate = match json::get(prepared, "candidate_state") {
        Some(candidate) => candidate,
        None => {
            return Err(EvidenceFault::MissingCandidate);
        },
    };
    match snapshot::validate_candidate_state(operation_id, candidate) {
        Ok(_) => Ok(
            PreparedOperation { operation, candidate_state: Some(candidate.duplicate()) },
        ),
        Err(fault) => Err(EvidenceFault::Candidate(fault)),
    }
}

// ---------------------------------------------------------------------------------------------
// Writing journal records
// ---------------------------------------------------------------------------------------------

/// The payload of a prepared record.
pub open spec fn prepared_json(operation: JsonView, candidate: JsonView) -> JsonView {
    JsonView::Object(
        seq![
            ("version"@, JsonView::Unsigned(1)),
            ("operation"@, operation),
            ("candidate_state"@, candidate),
        ],
    )
}

/// The outcome that is recorded once the server has carried out an operation.
pub open spec fn outcome_json(status: Seq<char>) -> JsonView {
    JsonView::Object(seq![("status"@, JsonView::Text(status))])
}

/// Whether an operation is the one that an identifier was made for.
pub open spec fn belongs_to(operation: OperationView, id: Seq<char>) -> bool {
    match operation {
        OperationView::Patch { asset_id, request } => asset_id != 0 && id == operation_id::patch_id(
            asset_id,
            request,
        ),
        OperationView::Checkout(checkout) => checkout.operation_id == id && operation_id::kind_of(id)
            == OperationKind::Checkout,
        OperationView::Checkin(checkin) => checkin.operation_id == id && operation_id::kind_of(id)
            == OperationKind::Checkin,
    }
}

proof fn lemma_patch_round_trip(request: PatchView)
    ensures
        decoded_patch(JsonView::Object(patch_fields(request))) == Some(request),
{
    reveal_strlit("name");
    reveal_strlit("serial");
    reveal_strlit("asset_tag");
    reveal_strlit("model_id");
    assert("name"@.len() == 4);
    assert("serial"@.len() == 6);
    assert("asset_tag"@.len() == 9);
    assert("model_id"@.len() == 8);
    let fields = patch_fields(request);
    json::lemma_field_from(fields, "name"@, 0);
    json::lemma_field_from(fields, "serial"@, 0);
    json::lemma_field_from(fields, "asset_tag"@, 0);
    json::lemma_field_from(fields, "model_id"@, 0);
    let name = with_text(Seq::empty(), "name"@, request.name);
    let serial = with_text(name, "serial"@, request.serial);
    let tag = with_text(serial, "asset_tag"@, request.asset_tag);
    if request.name is Some {
        assert(fields[0] == ("name"@, JsonView::Text(request.name->Some_0)));
    }
    if request.serial is Some {
        assert(fields[name.len() as int] == ("serial"@, JsonView::Text(request.serial->Some_0)));
    }
    if request.asset_tag is Some {
        assert(fields[serial.len() as int] == (
            "asset_tag"@,
            JsonView::Text(request.asset_tag->Some_0),
        ));
    }
    if request.model_id is Some {
        assert(fields[tag.len() as int] == (
            "model_id"@,
            JsonView::Unsigned(request.model_id->Some_0),
        ));
    }
}

proof fn lemma_checkout_round_trip(checkout: CheckoutView)
    ensures
        decoded_checkout(operation_json(OperationView::Checkout(checkout))) == Some(checkout),
{
    let fields = operation_json(OperationView::Checkout(checkout))->Object_0;
    let request = fields[2].1->Object_0;
    reveal_strlit("operation_id");
    reveal_strlit("source_asset_id");
    reveal_strlit("request");
    reveal_strlit("checkout_to_type");
    reveal_strlit("assigned_asset");
    reveal_strlit("status_id");
    assert("operation_id"@.len() == 12);
    assert("source_asset_id"@.len() == 15);
    assert("request"@.len() == 7);
    assert("checkout_to_type"@.len() == 16);
    assert("assigned_asset"@.len() == 14);
    assert("status_id"@.len() == 9);
    assert(fields[0].0 == "operation_id"@);
    assert(fields[1].0 == "source_asset_id"@);
    assert(fields[2].0 == "request"@);
    assert(request[0].0 == "checkout_to_type"@);
    assert(request[1].0 == "assigned_asset"@);
    assert(request[2].0 == "status_id"@);
    json::lemma_field_at(fields, 0);
    json::lemma_field_at(fields, 1);
    json::lemma_field_at(fields, 2);
    json::lemma_field_at(request, 0);
    json::lemma_field_at(request, 1);
    json::lemma_field_at(request, 2);
}

proof fn lemma_checkin_round_trip(checkin: CheckinView)
    ensures
        decoded_checkin(operation_json(OperationView::Checkin(checkin))) == Some(checkin),
{
    let fields = operation_json(OperationView::Checkin(checkin))->Object_0;
    let request = fields[2].1->Object_0;
    reveal_strlit("operation_id");
    reveal_strlit("source_asset_id");
    reveal_strlit("request");
    reveal_strlit("status_id");
    assert("operation_id"@.len() == 12);
    assert("source_asset_id"@.len() == 15);
    assert("request"@.len() == 7);
    assert("status_id"@.len() == 9);
    assert(fields[0].0 == "operation_id"@);
    assert(fields[1].0 == "source_asset_id"@);
    assert(fields[2].0 == "request"@);
    assert(request[0].0 == "status_id"@);
    json::lemma_field_at(fields, 0);
    json::lemma_field_at(fields, 1);
    json::lemma_field_at(fields, 2);
    json::lemma_field_at(request, 0);
}

proof fn lemma_kinds_exclude_patch(id: Seq<char>)
    requires
        operation_id::kind_of(id) == OperationKind::Checkout || operation_id::kind_of(id) == OperationKind::Checkin,
    ensures
        operation_id::patch_target(id) == Ok::<Option<u64>, PatchIdError>(None),
{
}

/// Recovery reads back what was prepared: the payload of a record that was prepared for an
/// operation under its own identifier, with a valid snapshot, decodes to that operation and that
/// snapshot.
pub proof fn prepared_operations_are_read_back(
    id: Seq<char>,
    operation: OperationView,
    candidate: JsonView,
)
    requires
        belongs_to(operation, id),
        snapshot::candidate_state(id, candidate) is Ok,
    ensures
        bound_operation(id, operation_json(operation)) == Ok::<OperationView, EvidenceFault>(
            operation,
        ),
        prepared_operation(id, prepared_json(operation_json(operation), candidate)) == Ok::<
            PreparedView,
            EvidenceFault,
        >(PreparedView { operation, candidate_state: Some(candidate) }),
{
    match operation {
        OperationView::Patch { asset_id, request } => {
            operation_id::patch_id_names_its_asset(asset_id, request);
            lemma_patch_round_trip(request);
        },
        OperationView::Checkout(checkout) => {
            lemma_kinds_exclude_patch(id);
            lemma_checkout_round_trip(checkout);
        },
        OperationView::Checkin(checkin) => {
            lemma_kinds_exclude_patch(id);
            lemma_checkin_round_trip(checkin);
        },
    }
    let fields = prepared_json(operation_json(operation), candidate)->Object_0;
    reveal_strlit("version");
    reveal_strlit("operation");
    reveal_strlit("candidate_state");
    assert("version"@.len() == 7);
    assert("operation"@.len() == 9);
    assert("candidate_state"@.len() == 15);
    assert(fields[0].0 == "version"@);
    assert(fields[1].0 == "operation"@);
    assert(fields[2].0 == "candidate_state"@);
    json::lemma_field_at(fields, 0);
    json::lemma_field_at(fields, 1);
    json::lemma_field_at(fields, 2);
}

/// The record that announces an operation before the server is asked to carry it out.
pub open spec fn prepared_record(
    id: Seq<char>,
    operation: OperationView,
    candidate: JsonView,
) -> RecordView {
    RecordView::Prepared {
        operation_id: id,
        operation: prepared_json(operation_json(operation), candidate),
    }
}

/// The record that the server has carried out an operation.
pub open spec fn observed_record(
    id: Seq<char>,
    status: Seq<char>,
    candidate: Option<JsonView>,
) -> RecordView {
    RecordView::RemoteOutcomeObserved {
        operation_id: id,
        outcome: outcome_json(status),
        candidate_state: candidate,
    }
}

/// Makes the record that announces an operation.
pub fn prepare(operation_id: &str, operation: &Operation, candidate: Json) -> (record:
    JournalRecord)
    ensures
        record.deep_view() == prepared_record(
            operation_id@,
            operation.deep_view(),
            json::json_view(candidate),
        ),
{
    let mut fields: Vec<(String, Json)> = Vec::new();
    let ghost view = json::json_view(candidate);
    json::push_field(&mut fields, "version", Json::Unsigned(1));
    json::push_field(&mut fields, "operation", write_operation(operation));
    json::push_field(&mut fields, "candidate_state", candidate);
    proof {
        assert(json::fields_view(fields@) =~= prepared_json(
            operation_json(operation.deep_view()),
            view,
        )->Object_0);
    }
    JournalRecord::Prepared {
        operation_id: operation_id.to_owned(),
        operation: json::object(fields),
    }
}

/// Makes the record that the server has carried out an operation.
pub fn observe_remote_outcome(
    operation_id: &str,
    status: &str,
    candidate: Option<Json>,
) -> (record: JournalRecord)
    ensures
        record.deep_view() == observed_record(operation_id@, status@, candidate.deep_view()),
{
    let mut fields: Vec<(String, Json)> = Vec::new();
    json::push_field(&mut fields, "status", Json::Text(status.to_owned()));
    proof {
        assert(json::fields_view(fields@) =~= outcome_json(status@)->Object_0);
    }
    JournalRecord::RemoteOutcomeObserved {
        operation_id: operation_id.to_owned(),
        outcome: json::object(fields),
        candidate_state: candidate,
    }
}

// ---------------------------------------------------------------------------------------------
// Applying recovered evidence
// ---------------------------------------------------------------------------------------------

/// An asset summary with the fields of a patch replaced.
pub open spec fn patched(summary: AssetSummaryView, request: PatchView) -> AssetSummaryView {
    AssetSummaryView {
        id: summary.id,
        name: match request.name {
            Some(name) => name,
            None => summary.name,
        },
        serial: if request.serial is Some {
            request.serial
        } else {
            summary.serial
        },
        asset_tag: if request.asset_tag is Some {
            request.asset_tag
        } else {
            summary.asset_tag
        },
    }
}

/// The state once the first monitor that is mapped to an asset has been checked out or in.
pub open spec fn monitor_delta(state: StateView, asset_id: u64, checked_out: bool) -> Result<
    StateView,
    EvidenceFault,
> {
    let position = transition::asset_from(state.known_monitors, asset_id, 0);
    if position >= state.known_monitors.len() {
        Err(EvidenceFault::LegacyMonitorUnmapped(asset_id))
    } else {
        Ok(
            StateView {
                known_monitors: state.known_monitors.update(
                    position,
                    MonitorView { checked_out, ..state.known_monitors[position] },
                ),
                ..state
            },
        )
    }
}

/// The state once an operation without a snapshot has been carried out: only what the operation is
/// about changes.
pub open spec fn legacy_delta(state: StateView, operation: OperationView) -> Result<
    StateView,
    EvidenceFault,
> {
    match operation {
        OperationView::Patch { asset_id, request } => match state.matched_asset {
            None => Err(EvidenceFault::LegacyPatchWithoutAsset),
            Some(summary) => if summary.id != asset_id {
                Err(EvidenceFault::LegacyPatchAssetMismatch)
            } else {
                Ok(StateView { matched_asset: Some(patched(summary, request)), ..state })
            },
        },
        OperationView::Checkout(checkout) => monitor_delta(state, checkout.source_asset_id, true),
        OperationView::Checkin(checkin) => monitor_delta(state, checkin.source_asset_id, false),
    }
}

/// The state that a snapshot replaces any other with.
pub open spec fn snapshot_effect(id: Seq<char>, candidate: JsonView) -> Result<
    StateView,
    EvidenceFault,
> {
    match snapshot::candidate_state(id, candidate) {
        Ok(state) => Ok(state),
        Err(fault) => Err(EvidenceFault::Candidate(fault)),
    }
}

/// The state once the evidence of one operation has been applied.
pub open spec fn evidence_effect(state: StateView, pending: PendingView) -> Result<
    StateView,
    EvidenceFault,
> {
    match pending.remote_outcome {
        None => Err(EvidenceFault::OutcomeMissing),
        Some(outcome) => if json::text_field(outcome, "status"@) is None {
            Err(EvidenceFault::OutcomeInvalid)
        } else {
            match pending.candidate_state {
                Some(candidate) => snapshot_effect(pending.operation_id, candidate),
                None => match prepared_operation(pending.operation_id, pending.operation) {
                    Err(fault) => Err(fault),
                    Ok(prepared) => match prepared.candidate_state {
                        Some(candidate) => snapshot_effect(pending.operation_id, candidate),
                        None => legacy_delta(state, prepared.operation),
                    },
                },
            }
        },
    }
}

/// Whether pending evidence holds the outcome of an operation and a state that it led to.
pub open spec fn records_state(pending: PendingView, state: StateView) -> bool {
    &&& pending.remote_outcome matches Some(outcome) && json::text_field(outcome, "status"@) is Some
    &&& pending.candidate_state matches Some(candidate) && snapshot::candidate_state(
        pending.operation_id,
        candidate,
    ) == Ok::<StateView, CandidateFault>(state)
}

/// Whether pending evidence holds the outcome of an operation and some state that it led to.
pub open spec fn records_some_state(pending: PendingView) -> bool {
    exists|state: StateView| #[trigger] records_state(pending, state)
}

/// A fault in the evidence of an operation.
#[verifier::ext_equal]
pub struct FaultView {
    pub operation_id: Seq<char>,
    pub fault: EvidenceFault,
}

/// The state once the evidence of the wanted operations has been applied, in journal order.
pub open spec fn evidence_applied(
    state: StateView,
    pending: Seq<PendingView>,
    wanted: Seq<Seq<char>>,
    from: int,
) -> Result<StateView, FaultView>
    decreases pending.len() - from,
{
    if from >= pending.len() {
        Ok(state)
    } else if !wanted.contains(pending[from].operation_id) {
        evidence_applied(state, pending, wanted, from + 1)
    } else {
        match evidence_effect(state, pending[from]) {
            Err(fault) => Err(FaultView { operation_id: pending[from].operation_id, fault }),
            Ok(next) => evidence_applied(next, pending, wanted, from + 1),
        }
    }
}

/// The position of the first wanted operation, at or after `from`, that is not pending.
pub open spec fn first_absent(
    wanted: Seq<Seq<char>>,
    pending: Seq<PendingView>,
    from: int,
) -> int
    decreases wanted.len() - from,
{
    if from >= wanted.len() {
        wanted.len() as int
    } else if !journal::pending_ids(pending).contains(wanted[from]) {
        from
    } else {
        first_absent(wanted, pending, from + 1)
    }
}

/// The state that the recovered operations lead to. Every one of them must have evidence.
pub open spec fn recovered_state(
    state: StateView,
    pending: Seq<PendingView>,
    wanted: Seq<Seq<char>>,
) -> Result<StateView, FaultView> {
    match evidence_applied(state, pending, wanted, 0) {
        Err(fault) => Err(fault),
        Ok(next) => {
            let absent = first_absent(wanted, pending, 0);
            if absent < wanted.len() {
                Err(
                    FaultView {
                        operation_id: wanted[absent],
                        fault: EvidenceFault::EvidenceMissing,
                    },
                )
            } else {
                Ok(next)
            }
        },
    }
}

fn apply_monitor_delta(state: ServiceState, asset_id: u64, checked_out: bool) -> (result: Result<
    ServiceState,
    EvidenceFault,
>)
    ensures
        match result {
            Ok(next) => monitor_delta(state.deep_view(), asset_id, checked_out) == Ok::<
                StateView,
                EvidenceFault,
            >(next.deep_view()),
            Err(fault) => monitor_delta(state.deep_view(), asset_id, checked_out) == Err::<
                StateView,
                EvidenceFault,
            >(fault),
        },
{
    let mut state = state;
    let ghost before = state.known_monitors.deep_view();
    let position = transition::find_asset(&state.known_monitors, asset_id);
    if position >= state.known_monitors.len() {
        return Err(EvidenceFault::LegacyMonitorUnmapped(asset_id));
    }
    let mut entry = state.known_monitors[position].duplicate();
    entry.checked_out = checked_out;
    let ghost view = entry.deep_view();
    state.known_monitors.set(position, entry);
    proof {
        assert(state.known_monitors.deep_view() =~= before.update(position as int, view));
    }
    Ok(state)
}

/// Applies an operation that has no snapshot.
pub fn apply_legacy_operation_delta(state: ServiceState, operation: &Operation) -> (result: Result<
    ServiceState,
    EvidenceFault,
>)
    ensures
        match result {
            Ok(next) => legacy_delta(state.deep_view(), operation.deep_view()) == Ok::<
                StateView,
                EvidenceFault,
            >(next.deep_view()),
            Err(fault) => legacy_delta(state.deep_view(), operation.deep_view()) == Err::<
                StateView,
                EvidenceFault,
            >(fault),
        },
{
    match operation {
        Operation::Patch { asset_id, request } => {
            let mut state = state;
            let summary = match &state.matched_asset {
                None => {
                    return Err(EvidenceFault::LegacyPatchWithoutAsset);
                },
                Some(summary) => summary,
            };
            if summary.id != *asset_id {
                return Err(EvidenceFault::LegacyPatchAssetMismatch);
            }
            let next = AssetSummary {
                id: summary.id,
                name: match &request.name {
                    Some(name) => name.clone(),
                    None => summary.name.clone(),
                },
                serial: if request.serial.is_some() {
                    request.serial.duplicate()
                } else {
                    summary.serial.duplicate()
                },
                asset_tag: if request.asset_tag.is_some() {
                    request.asset_tag.duplicate()
                } else {
                    summary.asset_tag.duplicate()
                },
            };
            state.matched_asset = Some(next);
            Ok(state)
        },
        Operation::Checkout(checkout) => apply_monitor_delta(
            state,
            checkout.source_asset_id,
            true,
        ),
        Operation::Checkin(checkin) => apply_monitor_delta(state, checkin.source_asset_id, false),
    }
}

/// Replaces the state with the one that a snapshot holds.
pub fn apply_candidate_state(operation_id: &str, candidate: &Json) -> (result: Result<
    ServiceState,
    EvidenceFault,
>)
    ensures
        match result {
            Ok(next) => snapshot_effect(operation_id@, json::json_view(*candidate)) == Ok::<
                StateView,
                EvidenceFault,
            >(next.deep_view()),
            Err(fault) => snapshot_effect(operation_id@, json::json_view(*candidate)) == Err::<
                StateView,
                EvidenceFault,
            >(fault),
        },
{
    match snapshot::validate_candidate_state(operation_id, candidate) {
        Ok(state) => Ok(state),
        Err(fault) => Err(EvidenceFault::Candidate(fault)),
    }
}

fn apply_evidence(state: ServiceState, pending: &PendingOperation) -> (result: Result<
    ServiceState,
    EvidenceFault,
>)
    ensures
        match result {
            Ok(next) => evidence_effect(state.deep_view(), pending.deep_view()) == Ok::<
                StateView,
                EvidenceFault,
            >(next.deep_view()),
            Err(fault) => evidence_effect(state.deep_view(), pending.deep_view()) == Err::<
                StateView,
                EvidenceFault,
            >(fault),
        },
{
    let outcome = match &pending.remote_outcome {
        None => {
            return Err(EvidenceFault::OutcomeMissing);
        },
        Some(outcome) => outcome,
    };
    if json::get_text(outcome, "status").is_none() {
        return Err(EvidenceFault::OutcomeInvalid);
    }
    let id = pending.operation_id.as_str();
    match &pending.candidate_state {
        Some(candidate) => apply_candidate_state(id, candidate),
        None => match decode_prepared_operation(id, &pending.operation) {
            Err(fault) => Err(fault),
            Ok(prepared) => match &prepared.candidate_state {
                Some(candidate) => apply_candidate_state(id, candidate),
                None => apply_legacy_operation_delta(state, &prepared.operation),
            },
        },
    }
}

/// Why recovered operations could not be applied.
#[derive(Clone, Debug, PartialEq, Eq)]
pub enum RecoveredError {
    Phase(PhaseError),
    Evidence { operation_id: String, fault: EvidenceFault },
}

impl RecoveredError {
    /// Renders the error.
    pub fn message(&self) -> (text: String)
        ensures
            text@ == match self {
                RecoveredError::Phase(error) => journal::phase_message(error.deep_view()),
                RecoveredError::Evidence { operation_id, fault } => fault_text(
                    *fault,
                    operation_id@,
                ),
            },
    {
        match self {
            RecoveredError::Phase(error) => error.message(),
            RecoveredError::Evidence { operation_id, fault } => fault.message(
                operation_id.as_str(),
            ),
        }
    }
}

fn is_pending(pending: &Vec<PendingOperation>, id: &String) -> (found: bool)
    ensures
        found == journal::pending_ids(pending.deep_view()).contains(id@),
{
    let mut index: usize = 0;
    let ghost ids = journal::pending_ids(pending.deep_view());
    while index < pending.len()
        invariant
            index <= pending@.len(),
            ids == journal::pending_ids(pending.deep_view()),
            forall|i: int| 0 <= i < index ==> #[trigger] ids[i] != id@,
        decreases pending.len() - index,
    {
        if pending[index].operation_id == *id {
            proof {
                assert(ids[index as int] == id@);
            }
            return true;
        }
        index += 1;
    }
    false
}

/// Applies the evidence of recovered operations to the state, all of it or none.
///
/// `records` is the journal; the evidence of the operations in `operation_ids` is applied in the
/// order of the journal. If any of them lacks usable evidence, the state stays as it is.
pub fn apply_recovered_candidate_states(
    state: &mut ServiceState,
    records: &Vec<JournalRecord>,
    operation_ids: &Vec<String>,
) -> (result: Result<(), RecoveredError>)
    ensures
        match journal::replay(records.deep_view()) {
            Err(error) => {
                &&& result matches Err(RecoveredError::Phase(found)) && found.deep_view() == error
                &&& final(state).deep_view() == old(state).deep_view()
            },
            Ok(progress) => match recovered_state(
                old(state).deep_view(),
                progress.pending,
                operation_ids.deep_view(),
            ) {
                Ok(next) => result is Ok && final(state).deep_view() == next,
                Err(expected) => {
                    &&& result matches Err(RecoveredError::Evidence { operation_id, fault })
                        && operation_id@ == expected.operation_id && fault == expected.fault
                    &&& final(state).deep_view() == old(state).deep_view()
                },
            },
        },
{
    let pending = match journal::pending_with_evidence(records) {
        Ok(pending) => pending,
        Err(error) => {
            return Err(RecoveredError::Phase(error));
        },
    };
    let ghost views = pending.deep_view();
    let ghost wanted = operation_ids.deep_view();
    let ghost start = state.deep_view();
    let mut candidate = state.duplicate();
    let mut index: usize = 0;
    while index < pending.len()
        invariant
            index <= pending@.len(),
            views == pending.deep_view(),
            wanted == operation_ids.deep_view(),
            start == state.deep_view(),
            start == old(state).deep_view(),
            journal::replay(records.deep_view()) is Ok,
            journal::replay(records.deep_view())->Ok_0.pending == views,
            evidence_applied(start, views, wanted, 0) == evidence_applied(
                candidate.deep_view(),
                views,
                wanted,
                index as int,
            ),
        decreases pending.len() - index,
    {
        proof {
            assert(views[index as int] == pending@[index as int].deep_view());
        }
        if journal::contains_text(operation_ids, &pending[index].operation_id) {
            match apply_evidence(candidate, &pending[index]) {
                Ok(next) => {
                    candidate = next;
                },
                Err(fault) => {
                    return Err(
                        RecoveredError::Evidence {
                            operation_id: pending[index].operation_id.clone(),
                            fault,
                        },
                    );
                },
            }
        }
        index += 1;
    }
    let mut position: usize = 0;
    while position < operation_ids.len()
        invariant
            position <= operation_ids@.len(),
            views == pending.deep_view(),
            wanted == operation_ids.deep_view(),
            start == state.deep_view(),
            start == old(state).deep_view(),
            journal::replay(records.deep_view()) is Ok,
            journal::replay(records.deep_view())->Ok_0.pending == views,
            evidence_applied(start, views, wanted, 0) == Ok::<StateView, FaultView>(
                candidate.deep_view(),
            ),
            first_absent(wanted, views, 0) == first_absent(wanted, views, position as int),
        decreases operation_ids.len() - position,
    {
        proof {
            assert(wanted[position as int] == operation_ids@[position as int]@);
        }
        if !is_pending(&pending, &operation_ids[position]) {
            return Err(
                RecoveredError::Evidence {
                    operation_id: operation_ids[position].clone(),
                    fault: EvidenceFault::EvidenceMissing,
                },
            );
        }
        position += 1;
    }
    *state = candidate;
    Ok(())
}

/// A snapshot whose matched asset is the one that the server reported. Without a report, or
/// without a snapshot, nothing changes.
pub open spec fn with_authoritative_asset(
    candidate: Option<JsonView>,
    asset: Option<AssetSummaryView>,
) -> Result<Option<JsonView>, EvidenceFault> {
    match (asset, candidate) {
        (None, _) => Ok(candidate),
        (Some(_), None) => Ok(None),
        (Some(summary), Some(candidate)) => match json::field(candidate, "state"@) {
            Some(JsonView::Object(fields)) => Ok(
                Some(
                    json::with_field(
                        candidate,
                        "state"@,
                        json::with_field(
                            JsonView::Object(fields),
                            "matched_asset"@,
                            snapshot::summary_json(summary),
                        ),
                    ),
                ),
            ),
            _ => Err(EvidenceFault::CandidateWithoutObject),
        },
    }
}

/// Puts the asset that the server reported into a snapshot.
pub fn merge_recovered_asset(
    candidate: Option<Json>,
    authoritative_asset: Option<&Asset>,
) -> (result: Result<Option<Json>, EvidenceFault>)
    ensures
        match result {
            Ok(merged) => with_authoritative_asset(
                candidate.deep_view(),
                transition::patched_summary(authoritative_asset),
            ) == Ok::<Option<JsonView>, EvidenceFault>(merged.deep_view()),
            Err(fault) => with_authoritative_asset(
                candidate.deep_view(),
                transition::patched_summary(authoritative_asset),
            ) == Err::<Option<JsonView>, EvidenceFault>(fault),
        },
{
    let asset = match authoritative_asset {
        None => {
            return Ok(candidate);
        },
        Some(asset) => asset,
    };
    let candidate = match candidate {
        None => {
            return Ok(None);
        },
        Some(candidate) => candidate,
    };
    let state = match json::get(&candidate, "state") {
        Some(state) => match state {
            Json::Object(_) => state.duplicate(),
            _ => {
                return Err(EvidenceFault::CandidateWithoutObject);
            },
        },
        None => {
            return Err(EvidenceFault::CandidateWithoutObject);
        },
    };
    let summary = model::asset_summary(asset);
    let state = json::set_field(state, "matched_asset", snapshot::write_summary(&summary));
    Ok(Some(json::set_field(candidate, "state", state)))
}

/// Evidence that holds an outcome and a state for every wanted operation can be applied.
pub proof fn complete_evidence_is_applied(
    state: StateView,
    pending: Seq<PendingView>,
    wanted: Seq<Seq<char>>,
    from: int,
)
    requires
        0 <= from <= pending.len(),
        forall|i: int|
            0 <= i < pending.len() && wanted.contains((#[trigger] pending[i]).operation_id)
                ==> records_some_state(pending[i]),
    ensures
        evidence_applied(state, pending, wanted, from) is Ok,
    decreases pending.len() - from,
{
    if from < pending.len() {
        if wanted.contains(pending[from].operation_id) {
            assert(records_some_state(pending[from]));
            let next = choose|next: StateView| records_state(pending[from], next);
            complete_evidence_is_applied(next, pending, wanted, from + 1);
        } else {
            complete_evidence_is_applied(state, pending, wanted, from + 1);
        }
    }
}

/// Recovery is transactional in its result: if any recovered operation lacks usable evidence, the
/// outcome is a fault and not a partly applied state, and each operation that is applied has an
/// observed outcome.
pub proof fn applied_evidence_was_observed(
    state: StateView,
    pending: Seq<PendingView>,
    wanted: Seq<Seq<char>>,
    from: int,
)
    requires
        0 <= from <= pending.len(),
        evidence_applied(state, pending, wanted, from) is Ok,
    ensures
        forall|i: int|
            from <= i < pending.len() && wanted.contains(
                (#[trigger] pending[i]).operation_id,
            ) ==> pending[i].remote_outcome is Some,
    decreases pending.len() - from,
{
    if from < pending.len() {
        if !wanted.contains(pending[from].operation_id) {
            applied_evidence_was_observed(state, pending, wanted, from + 1);
        } else {
            let next = evidence_effect(state, pending[from])->Ok_0;
            applied_evidence_was_observed(next, pending, wanted, from + 1);
        }
    }
}

/// A snapshot into which the reported asset was put is still valid, and holds the reported asset
/// in place of the one before.
pub proof fn merged_snapshots_hold_the_reported_asset(
    id: Seq<char>,
    candidate: JsonView,
    summary: AssetSummaryView,
)
    requires
        snapshot::candidate_state(id, candidate) is Ok,
    ensures
        with_authoritative_asset(Some(candidate), Some(summary)) is Ok,
        ({
            let merged = with_authoritative_asset(Some(candidate), Some(summary))->Ok_0;
            merged is Some && snapshot::candidate_state(id, merged->Some_0) == Ok::<
                StateView,
                CandidateFault,
            >(
                StateView {
                    matched_asset: Some(summary),
                    ..snapshot::candidate_state(id, candidate)->Ok_0
                },
            )
        }),
{
    let state = json::field(candidate, "state"@)->Some_0;
    let written = snapshot::summary_json(summary);
    let inner = json::with_field(state, "matched_asset"@, written);
    reveal_strlit("version");
    reveal_strlit("kind");
    reveal_strlit("operation_id");
    reveal_strlit("state");
    reveal_strlit("last_sync_time");
    reveal_strlit("last_sync_result");
    reveal_strlit("matched_asset");
    reveal_strlit("known_monitors");
    assert("version"@.len() == 7);
    assert("kind"@.len() == 4);
    assert("operation_id"@.len() == 12);
    assert("state"@.len() == 5);
    assert("last_sync_time"@.len() == 14);
    assert("last_sync_result"@.len() == 16);
    assert("matched_asset"@.len() == 13);
    assert("known_monitors"@.len() == 14);
    assert(candidate is Object);
    assert(state is Object);
    json::set_field_is_read_back(candidate, "state"@, inner, "version"@);
    json::set_field_is_read_back(candidate, "state"@, inner, "kind"@);
    json::set_field_is_read_back(candidate, "state"@, inner, "operation_id"@);
    json::set_field_is_read_back(state, "matched_asset"@, written, "last_sync_time"@);
    json::set_field_is_read_back(state, "matched_asset"@, written, "last_sync_result"@);
    json::set_field_is_read_back(state, "matched_asset"@, written, "known_monitors"@);
    snapshot::lemma_summary_round_trip(summary);
}

/// Old evidence tells of one change. A patch is applied to the matched asset, if it is that asset,
/// and sets what it asks for; a move is applied to the first monitor with the asset, if there is
/// one, and sets its assignment; nothing else changes.
pub proof fn old_evidence_changes_what_it_is_about(
    state: StateView,
    asset_id: u64,
    request: PatchView,
    checkout: CheckoutView,
    checkin: CheckinView,
)
    ensures
        ({
            let patched = legacy_delta(state, OperationView::Patch { asset_id, request });
            let applies = state.matched_asset is Some && state.matched_asset->0.id == asset_id;
            &&& patched is Ok <==> applies
            &&& applies ==> {
                let before = state.matched_asset->0;
                let after = patched->Ok_0.matched_asset;
                &&& after is Some
                &&& after->0.id == asset_id
                &&& after->0.name == if request.name is Some {
                    request.name->0
                } else {
                    before.name
                }
                &&& after->0.serial == if request.serial is Some {
                    request.serial
                } else {
                    before.serial
                }
                &&& after->0.asset_tag == if request.asset_tag is Some {
                    request.asset_tag
                } else {
                    before.asset_tag
                }
                &&& patched->Ok_0 == (StateView { matched_asset: after, ..state })
            }
        }),
        moved_to(
            state,
            legacy_delta(state, OperationView::Checkout(checkout)),
            checkout.source_asset_id,
            true,
        ),
        moved_to(
            state,
            legacy_delta(state, OperationView::Checkin(checkin)),
            checkin.source_asset_id,
            false,
        ),
{
    transition::searches_find_the_first(
        state.known_monitors,
        checkout.source_asset_id,
        Seq::empty(),
    );
    transition::searches_find_the_first(
        state.known_monitors,
        checkin.source_asset_id,
        Seq::empty(),
    );
    let out = transition::asset_from(state.known_monitors, checkout.source_asset_id, 0);
    if out < state.known_monitors.len() {
        assert(first_with_asset(state.known_monitors, checkout.source_asset_id, out));
    }
    let back = transition::asset_from(state.known_monitors, checkin.source_asset_id, 0);
    if back < state.known_monitors.len() {
        assert(first_with_asset(state.known_monitors, checkin.source_asset_id, back));
    }
}

/// Whether the first monitor with an asset stands at a position.
pub open spec fn first_with_asset(monitors: Seq<MonitorView>, asset_id: u64, position: int) -> bool {
    &&& 0 <= position < monitors.len()
    &&& monitors[position].snipeit_asset_id == Some(asset_id)
    &&& forall|i: int|
        0 <= i < position ==> (#[trigger] monitors[i]).snipeit_asset_id != Some(asset_id)
}

/// Whether a state came about by moving the first monitor with an asset, or a fault says that there
/// is none.
pub open spec fn moved_to(
    before: StateView,
    result: Result<StateView, EvidenceFault>,
    asset_id: u64,
    checked_out: bool,
) -> bool {
    match result {
        Ok(after) => {
            &&& after.last_sync_time == before.last_sync_time
            &&& after.last_sync_result == before.last_sync_result
            &&& after.matched_asset == before.matched_asset
            &&& after.known_monitors.len() == before.known_monitors.len()
            &&& exists|position: int| #[trigger]
                first_with_asset(before.known_monitors, asset_id, position)
                    && after.known_monitors[position] == (MonitorView {
                    checked_out,
                    ..before.known_monitors[position]
                }) && forall|i: int|
                    0 <= i < before.known_monitors.len() && i != position ==> (
                    #[trigger] after.known_monitors[i]) == before.known_monitors[i]
        },
        Err(fault) => {
            &&& fault == EvidenceFault::LegacyMonitorUnmapped(asset_id)
            &&& forall|i: int|
                0 <= i < before.known_monitors.len() ==> (
                #[trigger] before.known_monitors[i]).snipeit_asset_id != Some(asset_id)
        },
    }
}

/// An operation that is read from its payload belongs to its identifier: a patch is the one that
/// the identifier is made of, and a move carries the identifier and is of its kind. A payload that
/// is read as older evidence names the asset of its identifier, or carries the identifier.
pub proof fn read_operations_belong_to_their_identifier(id: Seq<char>, payload: JsonView)
    ensures
        bound_operation(id, payload) is Ok ==> belongs_to(bound_operation(id, payload)->Ok_0, id),
        legacy_operation(id, payload) is Ok ==> match legacy_operation(id, payload)->Ok_0 {
            OperationView::Patch { asset_id, .. } => operation_id::announced_asset(id) == Some(
                asset_id,
            ) && asset_id != 0 && json::field(payload, "operation_id"@) is None,
            OperationView::Checkout(checkout) => checkout.operation_id == id
                && operation_id::kind_of(id) == OperationKind::Checkout,
            OperationView::Checkin(checkin) => checkin.operation_id == id
                && operation_id::kind_of(id) == OperationKind::Checkin,
        },
{
}

/// Evidence of the present version holds the operation and a snapshot that can be read; older
/// evidence holds the operation alone; evidence of any other version is refused, with the version.
pub proof fn evidence_is_read_by_version(id: Seq<char>, prepared: JsonView)
    ensures
        ({
            let version = json::number_field(prepared, "version"@);
            let read = prepared_operation(id, prepared);
            &&& version is Some && version->0 != 1 ==> read == Err::<PreparedView, EvidenceFault>(
                EvidenceFault::UnsupportedVersion(version->0),
            )
            &&& read is Ok ==> version is None || version->0 == 1
            &&& version is Some && read is Ok ==> {
                &&& read->Ok_0.candidate_state is Some
                &&& read->Ok_0.candidate_state == json::field(prepared, "candidate_state"@)
                &&& snapshot::candidate_state(id, read->Ok_0.candidate_state->0) is Ok
                &&& belongs_to(read->Ok_0.operation, id)
            }
            &&& version is None && read is Ok ==> read->Ok_0.candidate_state is None
        }),
{
    read_operations_belong_to_their_identifier(id, prepared);
    if json::field(prepared, "operation"@) is Some {
        read_operations_belong_to_their_identifier(id, json::field(prepared, "operation"@)->0);
    }
}

/// Evidence counts only with an outcome that has a status. It then tells of the state in the
/// snapshot of the outcome, failing that of the state in the snapshot of the announcement, and
/// failing that of the announced change to the state so far.
pub proof fn outcomes_tell_the_state(state: StateView, pending: PendingView)
    ensures
        ({
            let effect = evidence_effect(state, pending);
            let usable = pending.remote_outcome is Some && json::text_field(
                pending.remote_outcome->0,
                "status"@,
            ) is Some;
            let announced = prepared_operation(pending.operation_id, pending.operation);
            &&& effect is Ok ==> usable
            &&& pending.remote_outcome is None ==> effect == Err::<StateView, EvidenceFault>(
                EvidenceFault::OutcomeMissing,
            )
            &&& pending.remote_outcome is Some && !usable ==> effect == Err::<
                StateView,
                EvidenceFault,
            >(EvidenceFault::OutcomeInvalid)
            &&& usable && pending.candidate_state is Some && effect is Ok
                ==> snapshot::candidate_state(
                pending.operation_id,
                pending.candidate_state->0,
            ) == Ok::<StateView, CandidateFault>(effect->Ok_0)
            &&& usable && pending.candidate_state is None && announced is Ok
                && announced->Ok_0.candidate_state is Some && effect is Ok
                ==> snapshot::candidate_state(
                pending.operation_id,
                announced->Ok_0.candidate_state->0,
            ) == Ok::<StateView, CandidateFault>(effect->Ok_0)
            &&& usable && pending.candidate_state is None && announced is Ok
                && announced->Ok_0.candidate_state is None ==> effect == legacy_delta(
                state,
                announced->Ok_0.operation,
            )
            &&& usable && pending.candidate_state is None && announced is Err ==> effect is Err
        }),
{
}

proof fn lemma_last_evidence(
    state: StateView,
    pending: Seq<PendingView>,
    wanted: Seq<Seq<char>>,
    from: int,
    told: StateView,
)
    requires
        0 <= from < pending.len(),
        wanted.contains(pending.last().operation_id),
        records_state(pending.last(), told),
        evidence_applied(state, pending, wanted, from) is Ok,
    ensures
        evidence_applied(state, pending, wanted, from) == Ok::<StateView, FaultView>(told),
    decreases pending.len() - from,
{
    if from == pending.len() - 1 {
        assert(evidence_applied(told, pending, wanted, from + 1) == Ok::<StateView, FaultView>(
            told,
        ));
    } else if wanted.contains(pending[from].operation_id) {
        let next = evidence_effect(state, pending[from])->Ok_0;
        lemma_last_evidence(next, pending, wanted, from + 1, told);
    } else {
        lemma_last_evidence(state, pending, wanted, from + 1, told);
    }
}

proof fn lemma_first_absent(wanted: Seq<Seq<char>>, pending: Seq<PendingView>, from: int)
    requires
        0 <= from <= wanted.len(),
    ensures
        ({
            let absent = first_absent(wanted, pending, from);
            &&& from <= absent <= wanted.len()
            &&& absent < wanted.len() ==> !journal::pending_ids(pending).contains(wanted[absent])
            &&& forall|i: int|
                from <= i < absent ==> journal::pending_ids(pending).contains(#[trigger] wanted[i])
        }),
    decreases wanted.len() - from,
{
    if from < wanted.len() && journal::pending_ids(pending).contains(wanted[from]) {
        lemma_first_absent(wanted, pending, from + 1);
    }
}

/// Recovery succeeds only where every wanted operation is pending; where nothing is wanted it
/// leaves the state as it is; and where the last pending operation is wanted, and its outcome is
/// recorded with a state, that is the recovered state.
pub proof fn recovered_states_are_the_last_recorded(
    state: StateView,
    pending: Seq<PendingView>,
    wanted: Seq<Seq<char>>,
    told: StateView,
    index: int,
)
    ensures
        recovered_state(state, pending, wanted) is Ok && 0 <= index < wanted.len()
            ==> journal::pending_ids(pending).contains(wanted[index]),
        recovered_state(state, pending, wanted) is Ok && pending.len() > 0 && wanted.contains(
            pending.last().operation_id,
        ) && records_state(pending.last(), told) ==> recovered_state(state, pending, wanted)
            == Ok::<StateView, FaultView>(told),
        recovered_state(state, pending, Seq::empty()) == Ok::<StateView, FaultView>(state),
{
    lemma_first_absent(wanted, pending, 0);
    if recovered_state(state, pending, wanted) is Ok && pending.len() > 0 && wanted.contains(
        pending.last().operation_id,
    ) && records_state(pending.last(), told) {
        lemma_last_evidence(state, pending, wanted, 0, told);
    }
    lemma_nothing_wanted(state, pending, 0);
}

proof fn lemma_nothing_wanted(state: StateView, pending: Seq<PendingView>, from: int)
    requires
        0 <= from <= pending.len(),
    ensures
        evidence_applied(state, pending, Seq::empty(), from) == Ok::<StateView, FaultView>(state),
    decreases pending.len() - from,
{
    if from < pending.len() {
        lemma_nothing_wanted(state, pending, from + 1);
    }
}

/// The asset that the server reported replaces the one in a snapshot; without a report, or without
/// a snapshot, there is nothing to replace.
pub proof fn only_reported_assets_are_merged(
    candidate: Option<JsonView>,
    asset: Option<AssetSummaryView>,
)
    ensures
        with_authoritative_asset(candidate, None) == Ok::<Option<JsonView>, EvidenceFault>(
            candidate,
        ),
        with_authoritative_asset(None, asset) == Ok::<Option<JsonView>, EvidenceFault>(None),
{
}

/// What is announced of an operation holds its fields under their names: of a patch what it sets and
/// nothing else; of a move its identifier, its asset and what is asked for.
pub proof fn announcements_name_every_field(
    asset_id: u64,
    request: PatchView,
    checkout: CheckoutView,
    checkin: CheckinView,
)
    ensures
        ({
            let patch = operation_json(OperationView::Patch { asset_id, request });
            let out = operation_json(OperationView::Checkout(checkout));
            let back = operation_json(OperationView::Checkin(checkin));
            let asked = json::field(out, "request"@);
            let returned = json::field(back, "request"@);
            &&& json::text_field(patch, "name"@) == request.name
            &&& json::text_field(patch, "serial"@) == request.serial
            &&& json::text_field(patch, "asset_tag"@) == request.asset_tag
            &&& json::number_field(patch, "model_id"@) == request.model_id
            &&& json::text_field(out, "operation_id"@) == Some(checkout.operation_id)
            &&& json::number_field(out, "source_asset_id"@) == Some(checkout.source_asset_id)
            &&& asked is Some
            &&& json::text_field(asked->0, "checkout_to_type"@) == Some(checkout.checkout_to_type)
            &&& json::number_field(asked->0, "assigned_asset"@) == Some(checkout.assigned_asset)
            &&& json::number_field(asked->0, "status_id"@) == Some(checkout.status_id)
            &&& json::text_field(back, "operation_id"@) == Some(checkin.operation_id)
            &&& json::number_field(back, "source_asset_id"@) == Some(checkin.source_asset_id)
            &&& returned is Some
            &&& json::number_field(returned->0, "status_id"@) == Some(checkin.status_id)
        }),
{
    lemma_patch_round_trip(request);
    lemma_checkout_round_trip(checkout);
    lemma_checkin_round_trip(checkin);
    lemma_patch_members(request);
}

proof fn lemma_patch_members(request: PatchView)
    ensures
        json::text_field(JsonView::Object(patch_fields(request)), "name"@) == request.name,
        json::text_field(JsonView::Object(patch_fields(request)), "serial"@) == request.serial,
        json::text_field(JsonView::Object(patch_fields(request)), "asset_tag"@)
            == request.asset_tag,
        json::number_field(JsonView::Object(patch_fields(request)), "model_id"@)
            == request.model_id,
{
    reveal_strlit("name");
    reveal_strlit("serial");
    reveal_strlit("asset_tag");
    reveal_strlit("model_id");
    assert("name"@.len() == 4);
    assert("serial"@.len() == 6);
    assert("asset_tag"@.len() == 9);
    assert("model_id"@.len() == 8);
    let fields = patch_fields(request);
    json::lemma_field_from(fields, "name"@, 0);
    json::lemma_field_from(fields, "serial"@, 0);
    json::lemma_field_from(fields, "asset_tag"@, 0);
    json::lemma_field_from(fields, "model_id"@, 0);
    let name = with_text(Seq::empty(), "name"@, request.name);
    let serial = with_text(name, "serial"@, request.serial);
    let tag = with_text(serial, "asset_tag"@, request.asset_tag);
    if request.name is Some {
        assert(fields[0] == ("name"@, JsonView::Text(request.name->Some_0)));
    }
    if request.serial is Some {
        assert(fields[name.len() as int] == ("serial"@, JsonView::Text(request.serial->Some_0)));
    }
    if request.asset_tag is Some {
        assert(fields[serial.len() as int] == (
            "asset_tag"@,
            JsonView::Text(request.asset_tag->Some_0),
        ));
    }
    if request.model_id is Some {
        assert(fields[tag.len() as int] == (
            "model_id"@,
            JsonView::Unsigned(request.model_id->Some_0),
        ));
    }
}

/// The announcement and the outcome of an operation carry its identifier; the announcement is of the
/// present version and holds the operation and the snapshot, and the outcome its status and the
/// snapshot.
pub proof fn records_carry_their_operation(
    id: Seq<char>,
    operation: OperationView,
    candidate: JsonView,
    status: Seq<char>,
)
    ensures
        ({
            let announced = prepared_record(id, operation, candidate);
            let observed = observed_record(id, status, Some(candidate));
            &&& announced is Prepared
            &&& announced->Prepared_operation_id == id
            &&& json::number_field(announced->operation, "version"@) == Some(1u64)
            &&& json::field(announced->operation, "operation"@) == Some(operation_json(operation))
            &&& json::field(announced->operation, "candidate_state"@) == Some(candidate)
            &&& observed is RemoteOutcomeObserved
            &&& observed->RemoteOutcomeObserved_operation_id == id
            &&& json::text_field(observed->outcome, "status"@) == Some(status)
            &&& observed->candidate_state == Some(candidate)
        }),
{
    let fields = prepared_json(operation_json(operation), candidate)->Object_0;
    reveal_strlit("version");
    reveal_strlit("operation");
    reveal_strlit("candidate_state");
    assert("version"@.len() == 7);
    assert("operation"@.len() == 9);
    assert("candidate_state"@.len() == 15);
    json::lemma_field_at(fields, 0);
    json::lemma_field_at(fields, 1);
    json::lemma_field_at(fields, 2);
}

} // verus!
