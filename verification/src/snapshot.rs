//! The JSON form of the persisted state and of the candidate snapshots that the journal carries.

use vstd::prelude::*;

use crate::instant;
use crate::json;
use crate::json::Json;
use crate::json::JsonView;
use crate::model::AssetSummary;
use crate::model::AssetSummaryView;
use crate::model::MonitorSyncEntry;
use crate::model::MonitorView;
use crate::model::ServiceState;
use crate::model::StateView;
use crate::model::SyncResult;
use crate::model::SyncResultView;
use crate::model::Timestamp;
use crate::text;

verus! {

// ---------------------------------------------------------------------------------------------
// Writing
// ---------------------------------------------------------------------------------------------

/// Text, or null.
pub open spec fn optional_text(value: Option<Seq<char>>) -> JsonView {
    match value {
        Some(text) => JsonView::Text(text),
        None => JsonView::Null,
    }
}

/// A number, or null.
pub open spec fn optional_number(value: Option<u64>) -> JsonView {
    match value {
        Some(number) => JsonView::Unsigned(number),
        None => JsonView::Null,
    }
}

/// An instant as persisted data holds it.
pub open spec fn instant_json(instant: Timestamp) -> JsonView {
    JsonView::Text(instant::zulu_text(instant.seconds, instant.nanos))
}

/// The JSON form of an asset summary.
pub open spec fn summary_json(summary: AssetSummaryView) -> JsonView {
    JsonView::Object(
        seq![
            ("id"@, JsonView::Unsigned(summary.id)),
            ("name"@, JsonView::Text(summary.name)),
            ("serial"@, optional_text(summary.serial)),
            ("asset_tag"@, optional_text(summary.asset_tag)),
        ],
    )
}

/// The JSON form of a monitor.
pub open spec fn monitor_json(monitor: MonitorView) -> JsonView {
    JsonView::Object(
        seq![
            ("serial"@, JsonView::Text(monitor.serial)),
            ("snipeit_asset_id"@, optional_number(monitor.snipeit_asset_id)),
            ("last_seen"@, instant_json(monitor.last_seen)),
            (
                "absent_since"@,
                match monitor.absent_since {
                    Some(instant) => instant_json(instant),
                    None => JsonView::Null,
                },
            ),
            ("checked_out"@, JsonView::Bool(monitor.checked_out)),
        ],
    )
}

/// The JSON form of some texts.
pub open spec fn texts_json(texts: Seq<Seq<char>>) -> JsonView {
    JsonView::List(Seq::new(texts.len(), |i: int| JsonView::Text(texts[i])))
}

/// The JSON form of a result: the name of a plain variant, or an object whose one field is the
/// variant.
pub open spec fn result_json(result: SyncResultView) -> JsonView {
    match result {
        SyncResultView::Success => JsonView::Text("Success"@),
        SyncResultView::PartialSuccess { warnings } => JsonView::Object(
            seq![
                ("PartialSuccess"@, JsonView::Object(seq![("warnings"@, texts_json(warnings))])),
            ],
        ),
        SyncResultView::Failed { error } => JsonView::Object(
            seq![("Failed"@, JsonView::Object(seq![("error"@, JsonView::Text(error))]))],
        ),
    }
}

/// The JSON form of the persisted state.
pub open spec fn state_json(state: StateView) -> JsonView {
    JsonView::Object(
        seq![
            ("last_sync_time"@, optional_text(state.last_sync_time)),
            (
                "last_sync_result"@,
                match state.last_sync_result {
                    Some(result) => result_json(result),
                    None => JsonView::Null,
                },
            ),
            (
                "matched_asset"@,
                match state.matched_asset {
                    Some(summary) => summary_json(summary),
                    None => JsonView::Null,
                },
            ),
            (
                "known_monitors"@,
                JsonView::List(
                    Seq::new(
                        state.known_monitors.len(),
                        |i: int| monitor_json(state.known_monitors[i]),
                    ),
                ),
            ),
        ],
    )
}

/// A complete snapshot of the state that an operation leads to.
pub open spec fn candidate_json(operation_id: Seq<char>, state: StateView) -> JsonView {
    JsonView::Object(
        seq![
            ("version"@, JsonView::Unsigned(1)),
            ("kind"@, JsonView::Text("service_state"@)),
            ("operation_id"@, JsonView::Text(operation_id)),
            ("state"@, state_json(state)),
        ],
    )
}

/// The states all of whose instants have a calendar date.
pub open spec fn valid_state(state: StateView) -> bool {
    valid_monitors(state.known_monitors)
}

/// Monitors all of whose instants have a calendar date.
pub open spec fn valid_monitors(monitors: Seq<MonitorView>) -> bool {
    forall|i: int| 0 <= i < monitors.len() ==> valid_monitor(#[trigger] monitors[i])
}

/// The monitors all of whose instants have a calendar date.
pub open spec fn valid_monitor(monitor: MonitorView) -> bool {
    &&& instant::valid_instant(monitor.last_seen)
    &&& match monitor.absent_since {
        Some(instant) => instant::valid_instant(instant),
        None => true,
    }
}

fn write_optional_text(value: &Option<String>) -> (result: Json)
    ensures
        json::json_view(result) == optional_text(value.deep_view()),
{
    match value {
        Some(text) => Json::Text(text.clone()),
        None => Json::Null,
    }
}

fn write_instant(instant: Timestamp) -> (result: Json)
    requires
        instant::valid_instant(instant),
    ensures
        json::json_view(result) == instant_json(instant),
        decoded_instant(json::json_view(result)) == Some(instant),
{
    Json::Text(instant::to_zulu(instant))
}

/// Writes an asset summary as JSON.
pub fn write_summary(summary: &AssetSummary) -> (result: Json)
    ensures
        json::json_view(result) == summary_json(summary.deep_view()),
{
    let mut fields: Vec<(String, Json)> = Vec::new();
    json::push_field(&mut fields, "id", Json::Unsigned(summary.id));
    json::push_field(&mut fields, "name", Json::Text(summary.name.clone()));
    json::push_field(&mut fields, "serial", write_optional_text(&summary.serial));
    json::push_field(&mut fields, "asset_tag", write_optional_text(&summary.asset_tag));
    proof {
        assert(json::fields_view(fields@) =~= summary_json(summary.deep_view())->Object_0);
    }
    json::object(fields)
}

fn write_monitor(monitor: &MonitorSyncEntry) -> (result: Json)
    requires
        valid_monitor(monitor.deep_view()),
    ensures
        json::json_view(result) == monitor_json(monitor.deep_view()),
        decoded_monitor(json::json_view(result)) == Some(monitor.deep_view()),
{
    let mut fields: Vec<(String, Json)> = Vec::new();
    json::push_field(&mut fields, "serial", Json::Text(monitor.serial.clone()));
    let asset = match monitor.snipeit_asset_id {
        Some(id) => Json::Unsigned(id),
        None => Json::Null,
    };
    json::push_field(&mut fields, "snipeit_asset_id", asset);
    json::push_field(&mut fields, "last_seen", write_instant(monitor.last_seen));
    let absent = match monitor.absent_since {
        Some(instant) => write_instant(instant),
        None => Json::Null,
    };
    json::push_field(&mut fields, "absent_since", absent);
    json::push_field(&mut fields, "checked_out", Json::Bool(monitor.checked_out));
    proof {
        assert(json::fields_view(fields@) =~= monitor_json(monitor.deep_view())->Object_0);
        lemma_monitor_round_trip(monitor.deep_view());
    }
    json::object(fields)
}

fn write_texts(texts: &Vec<String>) -> (result: Json)
    ensures
        json::json_view(result) == texts_json(texts.deep_view()),
{
    let mut items: Vec<Json> = Vec::new();
    let mut index: usize = 0;
    while index < texts.len()
        invariant
            index <= texts@.len(),
            items@.len() == index,
            forall|i: int|
                0 <= i < index ==> json::json_view(#[trigger] items@[i]) == JsonView::Text(texts@[i]@),
        decreases texts.len() - index,
    {
        items.push(Json::Text(texts[index].clone()));
        index += 1;
    }
    proof {
        assert(json::items_view(items@) =~= texts_json(texts.deep_view())->List_0);
    }
    json::list(items)
}

fn single(name: &str, value: Json) -> (result: Json)
    ensures
        json::json_view(result) == JsonView::Object(seq![(name@, json::json_view(value))]),
{
    let mut fields: Vec<(String, Json)> = Vec::new();
    let ghost view = json::json_view(value);
    json::push_field(&mut fields, name, value);
    proof {
        assert(json::fields_view(fields@) =~= seq![(name@, view)]);
    }
    json::object(fields)
}

fn write_result(result: &SyncResult) -> (value: Json)
    ensures
        json::json_view(value) == result_json(result.deep_view()),
{
    match result {
        SyncResult::Success => Json::Text("Success".to_owned()),
        SyncResult::PartialSuccess { warnings } => single(
            "PartialSuccess",
            single("warnings", write_texts(warnings)),
        ),
        SyncResult::Failed { error } => single(
            "Failed",
            single("error", Json::Text(error.clone())),
        ),
    }
}

/// Writes the persisted state as JSON. Reading it gives back the state.
pub fn write_state(state: &ServiceState) -> (value: Json)
    requires
        valid_state(state.deep_view()),
    ensures
        json::json_view(value) == state_json(state.deep_view()),
        decoded_state(json::json_view(value)) == Some(state.deep_view()),
{
    let mut monitors: Vec<Json> = Vec::new();
    let mut index: usize = 0;
    while index < state.known_monitors.len()
        invariant
            index <= state.known_monitors@.len(),
            monitors@.len() == index,
            valid_state(state.deep_view()),
            forall|i: int|
                0 <= i < index ==> json::json_view(#[trigger] monitors@[i]) == monitor_json(
                    state.known_monitors@[i].deep_view(),
                ),
            forall|i: int|
                0 <= i < index ==> decoded_monitor(
                    monitor_json(#[trigger] state.deep_view().known_monitors[i]),
                ) == Some(state.deep_view().known_monitors[i]),
        decreases state.known_monitors.len() - index,
    {
        proof {
            assert(valid_monitor(state.deep_view().known_monitors[index as int]));
        }
        monitors.push(write_monitor(&state.known_monitors[index]));
        index += 1;
    }
    let mut fields: Vec<(String, Json)> = Vec::new();
    json::push_field(&mut fields, "last_sync_time", write_optional_text(&state.last_sync_time));
    let result = match &state.last_sync_result {
        Some(result) => write_result(result),
        None => Json::Null,
    };
    json::push_field(&mut fields, "last_sync_result", result);
    let asset = match &state.matched_asset {
        Some(summary) => write_summary(summary),
        None => Json::Null,
    };
    json::push_field(&mut fields, "matched_asset", asset);
    let ghost items = json::items_view(monitors@);
    json::push_field(&mut fields, "known_monitors", json::list(monitors));
    proof {
        let expected = Seq::new(
            state.deep_view().known_monitors.len(),
            |i: int| monitor_json(state.deep_view().known_monitors[i]),
        );
        assert(items =~= expected);
        assert(json::fields_view(fields@) =~= state_json(state.deep_view())->Object_0);
        lemma_state_round_trip(state.deep_view());
    }
    json::object(fields)
}

/// Writes the complete snapshot of the state that an operation leads to. Reading it gives back the
/// state.
pub fn complete_candidate_state(operation_id: &str, state: &ServiceState) -> (value: Json)
    requires
        valid_state(state.deep_view()),
    ensures
        json::json_view(value) == candidate_json(operation_id@, state.deep_view()),
        decoded_state(state_json(state.deep_view())) == Some(state.deep_view()),
        operation_id@.len() > 0 && serials_present(state.deep_view()) ==> candidate_state(
            operation_id@,
            json::json_view(value),
        ) == Ok::<StateView, CandidateFault>(state.deep_view()),
{
    let mut fields: Vec<(String, Json)> = Vec::new();
    json::push_field(&mut fields, "version", Json::Unsigned(1));
    json::push_field(&mut fields, "kind", Json::Text("service_state".to_owned()));
    json::push_field(&mut fields, "operation_id", Json::Text(operation_id.to_owned()));
    json::push_field(&mut fields, "state", write_state(state));
    proof {
        assert(json::fields_view(fields@) =~= candidate_json(
            operation_id@,
            state.deep_view(),
        )->Object_0);
        if operation_id@.len() > 0 && serials_present(state.deep_view()) {
            written_candidates_are_read_back(operation_id@, state.deep_view());
        }
    }
    json::object(fields)
}

// ---------------------------------------------------------------------------------------------
// Reading
// ---------------------------------------------------------------------------------------------

/// Text that may be absent or null. The outer `None` stands for anything else.
pub open spec fn decoded_optional_text(value: Option<JsonView>) -> Option<Option<Seq<char>>> {
    match value {
        None => Some(None),
        Some(JsonView::Null) => Some(None),
        Some(JsonView::Text(text)) => Some(Some(text)),
        _ => None,
    }
}

/// A number that may be absent or null. The outer `None` stands for anything else.
pub open spec fn decoded_optional_number(value: Option<JsonView>) -> Option<Option<u64>> {
    match value {
        None => Some(None),
        Some(JsonView::Null) => Some(None),
        Some(JsonView::Unsigned(number)) => Some(Some(number)),
        _ => None,
    }
}

/// An instant.
pub open spec fn decoded_instant(value: JsonView) -> Option<Timestamp> {
    match value {
        JsonView::Text(text) => match instant::denoted_instant(text) {
            Some((seconds, nanos)) => Some(Timestamp { seconds, nanos }),
            None => None,
        },
        _ => None,
    }
}

/// An instant that may be absent or null. The outer `None` stands for anything else.
pub open spec fn decoded_optional_instant(value: Option<JsonView>) -> Option<Option<Timestamp>> {
    match value {
        None => Some(None),
        Some(JsonView::Null) => Some(None),
        Some(other) => match decoded_instant(other) {
            Some(instant) => Some(Some(instant)),
            None => None,
        },
    }
}

/// An asset summary.
pub open spec fn decoded_summary(value: JsonView) -> Option<AssetSummaryView> {
    match (
        json::field(value, "id"@),
        json::field(value, "name"@),
        decoded_optional_text(json::field(value, "serial"@)),
        decoded_optional_text(json::field(value, "asset_tag"@)),
    ) {
        (
            Some(JsonView::Unsigned(id)),
            Some(JsonView::Text(name)),
            Some(serial),
            Some(asset_tag),
        ) => Some(AssetSummaryView { id, name, serial, asset_tag }),
        _ => None,
    }
}

/// A monitor.
pub open spec fn decoded_monitor(value: JsonView) -> Option<MonitorView> {
    match (
        json::field(value, "serial"@),
        decoded_optional_number(json::field(value, "snipeit_asset_id"@)),
        match json::field(value, "last_seen"@) {
            Some(seen) => decoded_instant(seen),
            None => None,
        },
        decoded_optional_instant(json::field(value, "absent_since"@)),
        json::field(value, "checked_out"@),
    ) {
        (
            Some(JsonView::Text(serial)),
            Some(snipeit_asset_id),
            Some(last_seen),
            Some(absent_since),
            Some(JsonView::Bool(checked_out)),
        ) => Some(
            MonitorView { serial, snipeit_asset_id, last_seen, absent_since, checked_out },
        ),
        _ => None,
    }
}

/// Some monitors; one that cannot be read spoils them all.
pub open spec fn decoded_monitors(items: Seq<JsonView>) -> Option<Seq<MonitorView>> {
    if forall|i: int| 0 <= i < items.len() ==> decoded_monitor(#[trigger] items[i]) is Some {
        Some(Seq::new(items.len(), |i: int| decoded_monitor(items[i])->Some_0))
    } else {
        None
    }
}

/// Some texts; anything else among them spoils them all.
pub open spec fn decoded_texts(items: Seq<JsonView>) -> Option<Seq<Seq<char>>> {
    if forall|i: int| 0 <= i < items.len() ==> (#[trigger] items[i]) is Text {
        Some(Seq::new(items.len(), |i: int| items[i]->Text_0))
    } else {
        None
    }
}

/// A synchronization result.
pub open spec fn decoded_result(value: JsonView) -> Option<SyncResultView> {
    match value {
        JsonView::Text(name) => if name == "Success"@ {
            Some(SyncResultView::Success)
        } else {
            None
        },
        JsonView::Object(fields) => if fields.len() != 1 {
            None
        } else if fields[0].0 == "PartialSuccess"@ {
            match json::field(fields[0].1, "warnings"@) {
                Some(JsonView::List(items)) => match decoded_texts(items) {
                    Some(warnings) => Some(SyncResultView::PartialSuccess { warnings }),
                    None => None,
                },
                _ => None,
            }
        } else if fields[0].0 == "Failed"@ {
            match json::field(fields[0].1, "error"@) {
                Some(JsonView::Text(error)) => Some(SyncResultView::Failed { error }),
                _ => None,
            }
        } else {
            None
        },
        _ => None,
    }
}

/// A synchronization result that may be absent or null.
pub open spec fn decoded_optional_result(value: Option<JsonView>) -> Option<
    Option<SyncResultView>,
> {
    match value {
        None => Some(None),
        Some(JsonView::Null) => Some(None),
        Some(other) => match decoded_result(other) {
            Some(result) => Some(Some(result)),
            None => None,
        },
    }
}

/// An asset summary that may be absent or null.
pub open spec fn decoded_optional_summary(value: Option<JsonView>) -> Option<
    Option<AssetSummaryView>,
> {
    match value {
        None => Some(None),
        Some(JsonView::Null) => Some(None),
        Some(other) => match decoded_summary(other) {
            Some(summary) => Some(Some(summary)),
            None => None,
        },
    }
}

/// The persisted state.
pub open spec fn decoded_state(value: JsonView) -> Option<StateView> {
    match (
        decoded_optional_text(json::field(value, "last_sync_time"@)),
        decoded_optional_result(json::field(value, "last_sync_result"@)),
        decoded_optional_summary(json::field(value, "matched_asset"@)),
        match json::field(value, "known_monitors"@) {
            Some(JsonView::List(items)) => decoded_monitors(items),
            _ => None,
        },
    ) {
        (Some(last_sync_time), Some(last_sync_result), Some(matched_asset), Some(known_monitors)) =>
        Some(StateView { last_sync_time, last_sync_result, matched_asset, known_monitors }),
        _ => None,
    }
}

/// A summary that was written is read back.
pub proof fn lemma_summary_round_trip(summary: AssetSummaryView)
    ensures
        decoded_summary(summary_json(summary)) == Some(summary),
{
    let fields = summary_json(summary)->Object_0;
    reveal_strlit("id");
    reveal_strlit("name");
    reveal_strlit("serial");
    reveal_strlit("asset_tag");
    assert("id"@.len() == 2);
    assert("name"@.len() == 4);
    assert("serial"@.len() == 6);
    assert("asset_tag"@.len() == 9);
    assert(fields[0].0 == "id"@);
    assert(fields[1].0 == "name"@);
    assert(fields[2].0 == "serial"@);
    assert(fields[3].0 == "asset_tag"@);
    json::lemma_field_at(fields, 0);
    json::lemma_field_at(fields, 1);
    json::lemma_field_at(fields, 2);
    json::lemma_field_at(fields, 3);
}

proof fn lemma_monitor_round_trip(monitor: MonitorView)
    requires
        decoded_instant(instant_json(monitor.last_seen)) == Some(monitor.last_seen),
        match monitor.absent_since {
            Some(instant) => decoded_instant(instant_json(instant)) == Some(instant),
            None => true,
        },
    ensures
        decoded_monitor(monitor_json(monitor)) == Some(monitor),
{
    let fields = monitor_json(monitor)->Object_0;
    reveal_strlit("serial");
    reveal_strlit("snipeit_asset_id");
    reveal_strlit("last_seen");
    reveal_strlit("absent_since");
    reveal_strlit("checked_out");
    assert("serial"@.len() == 6);
    assert("snipeit_asset_id"@.len() == 16);
    assert("last_seen"@.len() == 9);
    assert("absent_since"@.len() == 12);
    assert("checked_out"@.len() == 11);
    assert(fields[0].0 == "serial"@);
    assert(fields[1].0 == "snipeit_asset_id"@);
    assert(fields[2].0 == "last_seen"@);
    assert(fields[3].0 == "absent_since"@);
    assert(fields[4].0 == "checked_out"@);
    json::lemma_field_at(fields, 0);
    json::lemma_field_at(fields, 1);
    json::lemma_field_at(fields, 2);
    json::lemma_field_at(fields, 3);
    json::lemma_field_at(fields, 4);
}

proof fn lemma_result_round_trip(result: SyncResultView)
    ensures
        decoded_result(result_json(result)) == Some(result),
        !(result_json(result) is Null),
{
    reveal_strlit("PartialSuccess");
    reveal_strlit("Failed");
    assert("PartialSuccess"@.len() == 14);
    assert("Failed"@.len() == 6);
    match result {
        SyncResultView::Success => {},
        SyncResultView::PartialSuccess { warnings } => {
            let inner = seq![("warnings"@, texts_json(warnings))];
            json::lemma_field_at(inner, 0);
            assert(inner[0].0 == "warnings"@);
            assert(decoded_texts(texts_json(warnings)->List_0)->Some_0 =~= warnings);
        },
        SyncResultView::Failed { error } => {
            let inner = seq![("error"@, JsonView::Text(error))];
            json::lemma_field_at(inner, 0);
            assert(inner[0].0 == "error"@);
        },
    }
}

proof fn lemma_state_fields(state: StateView)
    ensures
        json::field(state_json(state), "last_sync_time"@) == Some(optional_text(state.last_sync_time)),
        json::field(state_json(state), "last_sync_result"@) == Some(state_json(state)->Object_0[1].1),
        json::field(state_json(state), "matched_asset"@) == Some(state_json(state)->Object_0[2].1),
        json::field(state_json(state), "known_monitors"@) == Some(state_json(state)->Object_0[3].1),
{
    let fields = state_json(state)->Object_0;
    reveal_strlit("last_sync_time");
    reveal_strlit("last_sync_result");
    reveal_strlit("matched_asset");
    reveal_strlit("known_monitors");
    assert("last_sync_time"@.len() == 14);
    assert("last_sync_result"@.len() == 16);
    assert("matched_asset"@.len() == 13);
    assert("known_monitors"@.len() == 14);
    assert(fields[0].0 == "last_sync_time"@);
    assert(fields[1].0 == "last_sync_result"@);
    assert(fields[2].0 == "matched_asset"@);
    assert(fields[3].0 == "known_monitors"@);
    assert("last_sync_time"@[0] != "known_monitors"@[0]);
    json::lemma_field_at(fields, 0);
    json::lemma_field_at(fields, 1);
    json::lemma_field_at(fields, 2);
    json::lemma_field_at(fields, 3);
}

proof fn lemma_state_round_trip(state: StateView)
    requires
        forall|i: int|
            0 <= i < state.known_monitors.len() ==> decoded_monitor(
                monitor_json(#[trigger] state.known_monitors[i]),
            ) == Some(state.known_monitors[i]),
    ensures
        decoded_state(state_json(state)) == Some(state),
{
    let fields = state_json(state)->Object_0;
    lemma_state_fields(state);
    match state.last_sync_result {
        Some(result) => {
            lemma_result_round_trip(result);
        },
        None => {},
    }
    match state.matched_asset {
        Some(summary) => {
            lemma_summary_round_trip(summary);
        },
        None => {},
    }
    let items = fields[3].1->List_0;
    assert forall|i: int| 0 <= i < items.len() implies decoded_monitor(
        #[trigger] items[i],
    ) is Some by {
        assert(items[i] == monitor_json(state.known_monitors[i]));
    }
    assert(decoded_monitors(items)->Some_0 =~= state.known_monitors);
}

/// What an optional reference stands for.
pub open spec fn found_view(value: Option<&Json>) -> Option<JsonView> {
    match value {
        Some(value) => Some(json::json_view(*value)),
        None => None,
    }
}

/// Reads text that may be absent or null.
pub fn read_optional_text(value: Option<&Json>) -> (result: Option<Option<String>>)
    ensures
        result.deep_view() == decoded_optional_text(found_view(value)),
{
    match value {
        None => Some(None),
        Some(Json::Null) => Some(None),
        Some(Json::Text(text)) => Some(Some(text.clone())),
        _ => None,
    }
}

/// Reads a number that may be absent or null.
pub fn read_optional_number(value: Option<&Json>) -> (result: Option<Option<u64>>)
    ensures
        result == decoded_optional_number(found_view(value)),
{
    match value {
        None => Some(None),
        Some(Json::Null) => Some(None),
        Some(Json::Unsigned(number)) => Some(Some(*number)),
        _ => None,
    }
}

fn read_instant(value: &Json) -> (result: Option<Timestamp>)
    ensures
        result == decoded_instant(json::json_view(*value)),
        result matches Some(instant) ==> instant::valid_instant(instant),
{
    match value {
        Json::Text(text) => instant::parse_instant(text.as_str()),
        _ => None,
    }
}

fn read_summary(value: &Json) -> (result: Option<AssetSummary>)
    ensures
        result.deep_view() == decoded_summary(json::json_view(*value)),
{
    let id = match json::get(value, "id") {
        Some(Json::Unsigned(id)) => *id,
        _ => {
            return None;
        },
    };
    let name = match json::get(value, "name") {
        Some(Json::Text(name)) => name.clone(),
        _ => {
            return None;
        },
    };
    let serial = match read_optional_text(json::get(value, "serial")) {
        Some(serial) => serial,
        None => {
            return None;
        },
    };
    let asset_tag = match read_optional_text(json::get(value, "asset_tag")) {
        Some(asset_tag) => asset_tag,
        None => {
            return None;
        },
    };
    Some(AssetSummary { id, name, serial, asset_tag })
}

fn read_monitor(value: &Json) -> (result: Option<MonitorSyncEntry>)
    ensures
        result.deep_view() == decoded_monitor(json::json_view(*value)),
        result matches Some(monitor) ==> valid_monitor(monitor.deep_view()),
{
    let serial = match json::get(value, "serial") {
        Some(Json::Text(serial)) => serial.clone(),
        _ => {
            return None;
        },
    };
    let snipeit_asset_id = match read_optional_number(json::get(value, "snipeit_asset_id")) {
        Some(id) => id,
        None => {
            return None;
        },
    };
    let last_seen = match json::get(value, "last_seen") {
        Some(seen) => match read_instant(seen) {
            Some(instant) => instant,
            None => {
                return None;
            },
        },
        None => {
            return None;
        },
    };
    let absent_since = match json::get(value, "absent_since") {
        None => None,
        Some(Json::Null) => None,
        Some(other) => match read_instant(other) {
            Some(instant) => Some(instant),
            None => {
                return None;
            },
        },
    };
    let checked_out = match json::get(value, "checked_out") {
        Some(Json::Bool(checked_out)) => *checked_out,
        _ => {
            return None;
        },
    };
    Some(MonitorSyncEntry { serial, snipeit_asset_id, last_seen, absent_since, checked_out })
}

fn read_monitors(items: &Vec<Json>) -> (result: Option<Vec<MonitorSyncEntry>>)
    ensures
        result.deep_view() == decoded_monitors(json::items_view(items@)),
        result matches Some(monitors) ==> forall|i: int|
            0 <= i < monitors@.len() ==> valid_monitor((#[trigger] monitors@[i]).deep_view()),
{
    let mut monitors: Vec<MonitorSyncEntry> = Vec::new();
    let mut index: usize = 0;
    let ghost views = json::items_view(items@);
    while index < items.len()
        invariant
            index <= items@.len(),
            views == json::items_view(items@),
            monitors@.len() == index,
            forall|i: int|
                0 <= i < index ==> decoded_monitor(#[trigger] views[i]) == Some(
                    monitors@[i].deep_view(),
                ),
            forall|i: int|
                0 <= i < index ==> valid_monitor((#[trigger] monitors@[i]).deep_view()),
        decreases items.len() - index,
    {
        match read_monitor(&items[index]) {
            Some(monitor) => {
                monitors.push(monitor);
            },
            None => {
                proof {
                    assert(decoded_monitor(views[index as int]) is None);
                }
                return None;
            },
        }
        index += 1;
    }
    proof {
        assert(decoded_monitors(views)->Some_0 =~= monitors.deep_view());
    }
    Some(monitors)
}

fn read_texts(items: &Vec<Json>) -> (result: Option<Vec<String>>)
    ensures
        result.deep_view() == decoded_texts(json::items_view(items@)),
{
    let mut texts: Vec<String> = Vec::new();
    let mut index: usize = 0;
    let ghost views = json::items_view(items@);
    while index < items.len()
        invariant
            index <= items@.len(),
            views == json::items_view(items@),
            texts@.len() == index,
            forall|i: int| 0 <= i < index ==> #[trigger] views[i] == JsonView::Text(texts@[i]@),
        decreases items.len() - index,
    {
        match &items[index] {
            Json::Text(text) => {
                texts.push(text.clone());
            },
            _ => {
                proof {
                    assert(!(views[index as int] is Text));
                }
                return None;
            },
        }
        index += 1;
    }
    proof {
        assert(decoded_texts(views)->Some_0 =~= texts.deep_view());
    }
    Some(texts)
}

fn read_result(value: &Json) -> (result: Option<SyncResult>)
    ensures
        result.deep_view() == decoded_result(json::json_view(*value)),
{
    match value {
        Json::Text(name) => if text::same_text(name.as_str(), "Success") {
            Some(SyncResult::Success)
        } else {
            None
        },
        Json::Object(fields) => {
            if fields.len() != 1 {
                return None;
            }
            proof {
                assert(json::json_view(*value)->Object_0[0] == (fields@[0].0@, json::json_view(fields@[0].1)));
            }
            if text::same_text(fields[0].0.as_str(), "PartialSuccess") {
                match json::get(&fields[0].1, "warnings") {
                    Some(Json::List(items)) => {
                        proof {
                            assert(json::json_view(Json::List(*items))->List_0 =~= json::items_view(
                                items@,
                            ));
                        }
                        match read_texts(items) {
                            Some(warnings) => Some(SyncResult::PartialSuccess { warnings }),
                            None => None,
                        }
                    },
                    _ => None,
                }
            } else if text::same_text(fields[0].0.as_str(), "Failed") {
                match json::get(&fields[0].1, "error") {
                    Some(Json::Text(error)) => Some(SyncResult::Failed { error: error.clone() }),
                    _ => None,
                }
            } else {
                None
            }
        },
        _ => None,
    }
}

/// Reads the persisted state.
pub fn read_state(value: &Json) -> (result: Option<ServiceState>)
    ensures
        result.deep_view() == decoded_state(json::json_view(*value)),
        result matches Some(state) ==> valid_state(state.deep_view()),
{
    let last_sync_time = match read_optional_text(json::get(value, "last_sync_time")) {
        Some(time) => time,
        None => {
            return None;
        },
    };
    let last_sync_result = match json::get(value, "last_sync_result") {
        None => None,
        Some(Json::Null) => None,
        Some(other) => match read_result(other) {
            Some(result) => Some(result),
            None => {
                return None;
            },
        },
    };
    let matched_asset = match json::get(value, "matched_asset") {
        None => None,
        Some(Json::Null) => None,
        Some(other) => match read_summary(other) {
            Some(summary) => Some(summary),
            None => {
                return None;
            },
        },
    };
    let known_monitors = match json::get(value, "known_monitors") {
        Some(Json::List(items)) => {
            proof {
                assert(json::json_view(Json::List(*items))->List_0 =~= json::items_view(items@));
            }
            match read_monitors(items) {
                Some(monitors) => monitors,
                None => {
                    return None;
                },
            }
        },
        _ => {
            return None;
        },
    };
    Some(ServiceState { last_sync_time, last_sync_result, matched_asset, known_monitors })
}

// ---------------------------------------------------------------------------------------------
// Candidate snapshots
// ---------------------------------------------------------------------------------------------

/// The fields that a complete snapshot must have.
#[derive(Clone, Copy, Debug, PartialEq, Eq, Structural)]
pub enum SignedField {
    LastSyncTime,
    LastSyncResult,
    MatchedAsset,
    KnownMonitors,
}

/// The name of a signed field.
pub open spec fn signed_field_name(field: SignedField) -> Seq<char> {
    match field {
        SignedField::LastSyncTime => "last_sync_time"@,
        SignedField::LastSyncResult => "last_sync_result"@,
        SignedField::MatchedAsset => "matched_asset"@,
        SignedField::KnownMonitors => "known_monitors"@,
    }
}

impl SignedField {
    /// The name of the field.
    pub fn name(&self) -> (name: String)
        ensures
            name@ == signed_field_name(*self),
    {
        match self {
            SignedField::LastSyncTime => "last_sync_time".to_owned(),
            SignedField::LastSyncResult => "last_sync_result".to_owned(),
            SignedField::MatchedAsset => "matched_asset".to_owned(),
            SignedField::KnownMonitors => "known_monitors".to_owned(),
        }
    }
}

/// Why a candidate snapshot cannot be used.
#[derive(Clone, Copy, Debug, PartialEq, Eq, Structural)]
pub enum CandidateFault {
    WithoutOperationId,
    OperationIdMismatch,
    Unsupported,
    WithoutState,
    WithoutField(SignedField),
    InvalidState,
    EmptySerial,
}

/// The message of a candidate fault.
pub open spec fn candidate_fault_text(fault: CandidateFault) -> Seq<char> {
    match fault {
        CandidateFault::WithoutOperationId => "candidate state is missing operation ID"@,
        CandidateFault::OperationIdMismatch =>
        "candidate state operation ID does not match journal operation"@,
        CandidateFault::Unsupported => "candidate state is not a supported complete snapshot"@,
        CandidateFault::WithoutState => "candidate state snapshot is missing"@,
        CandidateFault::WithoutField(field) => "candidate state is missing signed field: "@
            + signed_field_name(field),
        CandidateFault::InvalidState => "invalid complete candidate state"@,
        CandidateFault::EmptySerial => "candidate state contains an empty monitor serial"@,
    }
}

impl CandidateFault {
    /// Renders the fault.
    pub fn message(&self) -> (text: String)
        ensures
            text@ == candidate_fault_text(*self),
    {
        match self {
            CandidateFault::WithoutOperationId =>
            "candidate state is missing operation ID".to_owned(),
            CandidateFault::OperationIdMismatch =>
            "candidate state operation ID does not match journal operation".to_owned(),
            CandidateFault::Unsupported =>
            "candidate state is not a supported complete snapshot".to_owned(),
            CandidateFault::WithoutState => "candidate state snapshot is missing".to_owned(),
            CandidateFault::WithoutField(field) =>
            "candidate state is missing signed field: ".to_owned().concat(field.name().as_str()),
            CandidateFault::InvalidState => "invalid complete candidate state".to_owned(),
            CandidateFault::EmptySerial =>
            "candidate state contains an empty monitor serial".to_owned(),
        }
    }
}

/// The first signed field that a snapshot lacks.
pub open spec fn missing_field(state: JsonView) -> Option<SignedField> {
    if json::field(state, "last_sync_time"@) is None {
        Some(SignedField::LastSyncTime)
    } else if json::field(state, "last_sync_result"@) is None {
        Some(SignedField::LastSyncResult)
    } else if json::field(state, "matched_asset"@) is None {
        Some(SignedField::MatchedAsset)
    } else if json::field(state, "known_monitors"@) is None {
        Some(SignedField::KnownMonitors)
    } else {
        None
    }
}

/// Whether every monitor has a serial.
pub open spec fn serials_present(state: StateView) -> bool {
    forall|i: int|
        0 <= i < state.known_monitors.len() ==> (#[trigger] state.known_monitors[i]).serial.len()
            > 0
}

/// The state that the candidate snapshot of an operation holds.
pub open spec fn candidate_state(operation_id: Seq<char>, candidate: JsonView) -> Result<
    StateView,
    CandidateFault,
> {
    match json::text_field(candidate, "operation_id"@) {
        None => Err(CandidateFault::WithoutOperationId),
        Some(bound) => if bound.len() == 0 || bound != operation_id {
            Err(CandidateFault::OperationIdMismatch)
        } else if json::number_field(candidate, "version"@) != Some(1u64) || json::text_field(
            candidate,
            "kind"@,
        ) != Some("service_state"@) {
            Err(CandidateFault::Unsupported)
        } else {
            match json::field(candidate, "state"@) {
                None => Err(CandidateFault::WithoutState),
                Some(state) => match missing_field(state) {
                    Some(missing) => Err(CandidateFault::WithoutField(missing)),
                    None => match decoded_state(state) {
                        None => Err(CandidateFault::InvalidState),
                        Some(state) => if serials_present(state) {
                            Ok(state)
                        } else {
                            Err(CandidateFault::EmptySerial)
                        },
                    },
                },
            }
        },
    }
}

fn find_missing_field(state: &Json) -> (missing: Option<SignedField>)
    ensures
        missing == missing_field(json::json_view(*state)),
{
    if json::get(state, "last_sync_time").is_none() {
        Some(SignedField::LastSyncTime)
    } else if json::get(state, "last_sync_result").is_none() {
        Some(SignedField::LastSyncResult)
    } else if json::get(state, "matched_asset").is_none() {
        Some(SignedField::MatchedAsset)
    } else if json::get(state, "known_monitors").is_none() {
        Some(SignedField::KnownMonitors)
    } else {
        None
    }
}

fn has_all_serials(state: &ServiceState) -> (present: bool)
    ensures
        present == serials_present(state.deep_view()),
{
    let mut index: usize = 0;
    while index < state.known_monitors.len()
        invariant
            index <= state.known_monitors@.len(),
            forall|i: int|
                0 <= i < index ==> (#[trigger] state.deep_view().known_monitors[i]).serial.len()
                    > 0,
        decreases state.known_monitors.len() - index,
    {
        if state.known_monitors[index].serial.as_str().is_empty() {
            proof {
                assert(state.deep_view().known_monitors[index as int].serial.len() == 0);
            }
            return false;
        }
        index += 1;
    }
    true
}

/// Checks the candidate snapshot of an operation and reads the state that it holds.
pub fn validate_candidate_state(operation_id: &str, candidate: &Json) -> (result: Result<
    ServiceState,
    CandidateFault,
>)
    ensures
        match result {
            Ok(state) => candidate_state(operation_id@, json::json_view(*candidate)) == Ok::<
                StateView,
                CandidateFault,
            >(state.deep_view()) && valid_state(state.deep_view()),
            Err(fault) => candidate_state(operation_id@, json::json_view(*candidate)) == Err::<
                StateView,
                CandidateFault,
            >(fault),
        },
{
    let bound = match json::get_text(candidate, "operation_id") {
        None => {
            return Err(CandidateFault::WithoutOperationId);
        },
        Some(bound) => bound,
    };
    if bound.as_str().is_empty() || !text::same_text(bound.as_str(), operation_id) {
        return Err(CandidateFault::OperationIdMismatch);
    }
    let supported_version = match json::get_u64(candidate, "version") {
        Some(version) => version == 1,
        None => false,
    };
    let supported_kind = match json::get_text(candidate, "kind") {
        Some(kind) => text::same_text(kind.as_str(), "service_state"),
        None => false,
    };
    if !supported_version || !supported_kind {
        return Err(CandidateFault::Unsupported);
    }
    let state = match json::get(candidate, "state") {
        None => {
            return Err(CandidateFault::WithoutState);
        },
        Some(state) => state,
    };
    match find_missing_field(state) {
        Some(missing) => {
            return Err(CandidateFault::WithoutField(missing));
        },
        None => {},
    }
    match read_state(state) {
        None => Err(CandidateFault::InvalidState),
        Some(state) => if has_all_serials(&state) {
            Ok(state)
        } else {
            Err(CandidateFault::EmptySerial)
        },
    }
}

proof fn lemma_candidate_fields(operation_id: Seq<char>, state: StateView)
    ensures
        json::field(candidate_json(operation_id, state), "version"@) == Some(JsonView::Unsigned(1)),
        json::field(candidate_json(operation_id, state), "kind"@) == Some(
            JsonView::Text("service_state"@),
        ),
        json::field(candidate_json(operation_id, state), "operation_id"@) == Some(
            JsonView::Text(operation_id),
        ),
        json::field(candidate_json(operation_id, state), "state"@) == Some(state_json(state)),
        missing_field(state_json(state)) is None,
{
    let fields = candidate_json(operation_id, state)->Object_0;
    reveal_strlit("version");
    reveal_strlit("kind");
    reveal_strlit("operation_id");
    reveal_strlit("state");
    assert("version"@.len() == 7);
    assert("kind"@.len() == 4);
    assert("operation_id"@.len() == 12);
    assert("state"@.len() == 5);
    assert(fields[0].0 == "version"@);
    assert(fields[1].0 == "kind"@);
    assert(fields[2].0 == "operation_id"@);
    assert(fields[3].0 == "state"@);
    json::lemma_field_at(fields, 0);
    json::lemma_field_at(fields, 1);
    json::lemma_field_at(fields, 2);
    json::lemma_field_at(fields, 3);
    lemma_state_fields(state);
}

/// Reading a snapshot that was written for an operation gives back the state, provided that the
/// operation has an identifier, every monitor has a serial, and the instants read back.
pub proof fn written_candidates_are_read_back(operation_id: Seq<char>, state: StateView)
    requires
        operation_id.len() > 0,
        serials_present(state),
        decoded_state(state_json(state)) == Some(state),
    ensures
        candidate_state(operation_id, candidate_json(operation_id, state)) == Ok::<
            StateView,
            CandidateFault,
        >(state),
{
    lemma_candidate_fields(operation_id, state);
}

/// Whether a monitor has a serial, and instants that read back once they are written down.
pub open spec fn readable_monitor(monitor: MonitorView) -> bool {
    &&& monitor.serial.len() > 0
    &&& decoded_instant(instant_json(monitor.last_seen)) == Some(monitor.last_seen)
    &&& match monitor.absent_since {
        Some(instant) => decoded_instant(instant_json(instant)) == Some(instant),
        None => true,
    }
}

/// Whether every monitor of a state has a serial, and instants that read back.
pub open spec fn readable_state(state: StateView) -> bool {
    forall|i: int|
        0 <= i < state.known_monitors.len() ==> readable_monitor(
            #[trigger] state.known_monitors[i],
        )
}

/// Reading the snapshot of a readable state gives back the state.
pub proof fn readable_states_are_read_back(operation_id: Seq<char>, state: StateView)
    requires
        operation_id.len() > 0,
        readable_state(state),
    ensures
        candidate_state(operation_id, candidate_json(operation_id, state)) == Ok::<
            StateView,
            CandidateFault,
        >(state),
{
    assert forall|i: int| 0 <= i < state.known_monitors.len() implies decoded_monitor(
        monitor_json(#[trigger] state.known_monitors[i]),
    ) == Some(state.known_monitors[i]) by {
        assert(readable_monitor(state.known_monitors[i]));
        lemma_monitor_round_trip(state.known_monitors[i]);
    }
    lemma_state_round_trip(state);
    assert(serials_present(state)) by {
        assert forall|i: int| 0 <= i < state.known_monitors.len() implies (
        #[trigger] state.known_monitors[i]).serial.len() > 0 by {
            assert(readable_monitor(state.known_monitors[i]));
        }
    }
    written_candidates_are_read_back(operation_id, state);
}

/// A snapshot is read only if it is bound to the operation that it is read for, is of the version
/// and the kind that are known, holds all four fields of a state, and names a serial for every
/// monitor; and the state that is read is the one that stands in it.
pub proof fn read_snapshots_are_bound_and_complete(operation_id: Seq<char>, candidate: JsonView)
    ensures
        candidate_state(operation_id, candidate) is Ok ==> {
            let state = json::field(candidate, "state"@);
            let read = candidate_state(operation_id, candidate)->Ok_0;
            &&& operation_id.len() > 0
            &&& json::field(candidate, "operation_id"@) == Some(JsonView::Text(operation_id))
            &&& json::field(candidate, "version"@) == Some(JsonView::Unsigned(1))
            &&& json::field(candidate, "kind"@) == Some(JsonView::Text("service_state"@))
            &&& state is Some
            &&& json::field(state->0, "last_sync_time"@) is Some
            &&& json::field(state->0, "last_sync_result"@) is Some
            &&& json::field(state->0, "matched_asset"@) is Some
            &&& json::field(state->0, "known_monitors"@) is Some
            &&& decoded_state(state->0) == Some(read)
            &&& forall|i: int|
                0 <= i < read.known_monitors.len() ==> (#[trigger] read.known_monitors[i]).serial
                    != Seq::<char>::empty()
        },
{
    if candidate_state(operation_id, candidate) is Ok {
        let read = candidate_state(operation_id, candidate)->Ok_0;
        assert forall|i: int| 0 <= i < read.known_monitors.len() implies (
        #[trigger] read.known_monitors[i]).serial != Seq::<char>::empty() by {
            assert(read.known_monitors[i].serial.len() > 0);
        }
    }
}

/// A snapshot that is bound to another operation, or to none, is refused before anything else of it
/// is looked at; then one of another version or kind; then one without a state.
pub proof fn foreign_snapshots_are_refused(
    operation_id: Seq<char>,
    candidate: JsonView,
    bound: Seq<char>,
)
    ensures
        !(json::field(candidate, "operation_id"@) is Some && json::field(
            candidate,
            "operation_id"@,
        )->0 is Text) ==> candidate_state(operation_id, candidate) == Err::<
            StateView,
            CandidateFault,
        >(CandidateFault::WithoutOperationId),
        json::field(candidate, "operation_id"@) == Some(JsonView::Text(bound)) && bound
            != operation_id ==> candidate_state(operation_id, candidate) == Err::<
            StateView,
            CandidateFault,
        >(CandidateFault::OperationIdMismatch),
        json::field(candidate, "operation_id"@) == Some(JsonView::Text(operation_id))
            && operation_id.len() > 0 && json::field(candidate, "version"@) != Some(
            JsonView::Unsigned(1),
        ) ==> candidate_state(operation_id, candidate) == Err::<StateView, CandidateFault>(
            CandidateFault::Unsupported,
        ),
        json::field(candidate, "operation_id"@) == Some(JsonView::Text(operation_id))
            && operation_id.len() > 0 && json::field(candidate, "version"@) == Some(
            JsonView::Unsigned(1),
        ) && json::field(candidate, "kind"@) == Some(JsonView::Text("service_state"@))
            && json::field(candidate, "state"@) is None ==> candidate_state(
            operation_id,
            candidate,
        ) == Err::<StateView, CandidateFault>(CandidateFault::WithoutState),
{
}

/// A snapshot holds under their names the operation, the version, the kind and the state; the state
/// holds its four fields; and each monitor and the matched asset hold theirs. What is missing is
/// written as null.
pub proof fn snapshots_name_every_field(
    operation_id: Seq<char>,
    state: StateView,
    index: int,
)
    ensures
        ({
            let written = candidate_json(operation_id, state);
            let inner = json::field(written, "state"@)->0;
            let asset = json::field(inner, "matched_asset"@)->0;
            let items = json::field(inner, "known_monitors"@)->0;
            let monitor = items->List_0[index];
            let known = state.known_monitors[index];
            &&& json::field(written, "version"@) == Some(JsonView::Unsigned(1))
            &&& json::field(written, "kind"@) == Some(JsonView::Text("service_state"@))
            &&& json::field(written, "operation_id"@) == Some(JsonView::Text(operation_id))
            &&& json::field(written, "state"@) is Some
            &&& state.last_sync_time is Some ==> json::field(inner, "last_sync_time"@) == Some(
                JsonView::Text(state.last_sync_time->0),
            )
            &&& state.last_sync_time is None ==> json::field(inner, "last_sync_time"@) == Some(
                JsonView::Null,
            )
            &&& state.last_sync_result is None ==> json::field(inner, "last_sync_result"@) == Some(
                JsonView::Null,
            )
            &&& state.last_sync_result == Some(SyncResultView::Success) ==> json::field(
                inner,
                "last_sync_result"@,
            ) == Some(JsonView::Text("Success"@))
            &&& state.matched_asset is None ==> asset is Null
            &&& state.matched_asset is Some ==> {
                &&& json::field(asset, "id"@) == Some(
                    JsonView::Unsigned(state.matched_asset->0.id),
                )
                &&& json::field(asset, "name"@) == Some(
                    JsonView::Text(state.matched_asset->0.name),
                )
                &&& json::field(asset, "serial"@) == Some(
                    match state.matched_asset->0.serial {
                        Some(serial) => JsonView::Text(serial),
                        None => JsonView::Null,
                    },
                )
                &&& json::field(asset, "asset_tag"@) == Some(
                    match state.matched_asset->0.asset_tag {
                        Some(tag) => JsonView::Text(tag),
                        None => JsonView::Null,
                    },
                )
            }
            &&& items is List
            &&& items->List_0.len() == state.known_monitors.len()
            &&& 0 <= index < state.known_monitors.len() ==> {
                &&& json::field(monitor, "serial"@) == Some(JsonView::Text(known.serial))
                &&& json::field(monitor, "snipeit_asset_id"@) == Some(
                    match known.snipeit_asset_id {
                        Some(id) => JsonView::Unsigned(id),
                        None => JsonView::Null,
                    },
                )
                &&& json::field(monitor, "last_seen"@) == Some(
                    JsonView::Text(
                        instant::zulu_text(known.last_seen.seconds, known.last_seen.nanos),
                    ),
                )
                &&& json::field(monitor, "checked_out"@) == Some(JsonView::Bool(known.checked_out))
                &&& json::field(monitor, "absent_since"@) == Some(
                    match known.absent_since {
                        Some(since) => JsonView::Text(
                            instant::zulu_text(since.seconds, since.nanos),
                        ),
                        None => JsonView::Null,
                    },
                )
            }
        }),
{
    lemma_candidate_fields(operation_id, state);
    lemma_state_fields(state);
    if state.matched_asset is Some {
        lemma_summary_fields(state.matched_asset->0);
    }
    if 0 <= index < state.known_monitors.len() {
        lemma_monitor_fields(state.known_monitors[index]);
    }
}

proof fn lemma_summary_fields(summary: AssetSummaryView)
    ensures
        json::field(summary_json(summary), "id"@) == Some(JsonView::Unsigned(summary.id)),
        json::field(summary_json(summary), "name"@) == Some(JsonView::Text(summary.name)),
        json::field(summary_json(summary), "serial"@) == Some(optional_text(summary.serial)),
        json::field(summary_json(summary), "asset_tag"@) == Some(optional_text(summary.asset_tag)),
{
    let fields = summary_json(summary)->Object_0;
    reveal_strlit("id");
    reveal_strlit("name");
    reveal_strlit("serial");
    reveal_strlit("asset_tag");
    assert("id"@.len() == 2);
    assert("name"@.len() == 4);
    assert("serial"@.len() == 6);
    assert("asset_tag"@.len() == 9);
    json::lemma_field_at(fields, 0);
    json::lemma_field_at(fields, 1);
    json::lemma_field_at(fields, 2);
    json::lemma_field_at(fields, 3);
}

proof fn lemma_monitor_fields(monitor: MonitorView)
    ensures
        json::field(monitor_json(monitor), "serial"@) == Some(JsonView::Text(monitor.serial)),
        json::field(monitor_json(monitor), "snipeit_asset_id"@) == Some(
            optional_number(monitor.snipeit_asset_id),
        ),
        json::field(monitor_json(monitor), "last_seen"@) == Some(instant_json(monitor.last_seen)),
        json::field(monitor_json(monitor), "absent_since"@) == Some(
            match monitor.absent_since {
                Some(instant) => instant_json(instant),
                None => JsonView::Null,
            },
        ),
        json::field(monitor_json(monitor), "checked_out"@) == Some(
            JsonView::Bool(monitor.checked_out),
        ),
{
    let fields = monitor_json(monitor)->Object_0;
    reveal_strlit("serial");
    reveal_strlit("snipeit_asset_id");
    reveal_strlit("last_seen");
    reveal_strlit("absent_since");
    reveal_strlit("checked_out");
    assert("serial"@.len() == 6);
    assert("snipeit_asset_id"@.len() == 16);
    assert("last_seen"@.len() == 9);
    assert("absent_since"@.len() == 12);
    assert("checked_out"@.len() == 11);
    json::lemma_field_at(fields, 0);
    json::lemma_field_at(fields, 1);
    json::lemma_field_at(fields, 2);
    json::lemma_field_at(fields, 3);
    json::lemma_field_at(fields, 4);
}

/// A text, a number or an instant that may be missing is read as missing where it is absent or null,
/// and is refused where it is of another type.
pub proof fn missing_values_are_absent_or_null(text: Seq<char>, number: u64)
    ensures
        decoded_optional_text(None) == Some(None::<Seq<char>>),
        decoded_optional_text(Some(JsonView::Null)) == Some(None::<Seq<char>>),
        decoded_optional_text(Some(JsonView::Text(text))) == Some(Some(text)),
        decoded_optional_text(Some(JsonView::Unsigned(number))) is None,
        decoded_optional_number(None) == Some(None::<u64>),
        decoded_optional_number(Some(JsonView::Null)) == Some(None::<u64>),
        decoded_optional_number(Some(JsonView::Unsigned(number))) == Some(Some(number)),
        decoded_optional_number(Some(JsonView::Text(text))) is None,
        decoded_optional_instant(None) == Some(None::<Timestamp>),
        decoded_optional_instant(Some(JsonView::Null)) == Some(None::<Timestamp>),
        decoded_optional_instant(Some(JsonView::Unsigned(number))) is None,
{
}

} // verus!
