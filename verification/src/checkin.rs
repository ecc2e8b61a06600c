//! Forced check-in: which monitors an operator may check in, and the plan that does it.

use vstd::prelude::*;

use crate::ipc::CheckinEntry;
use crate::ipc::CheckinEntryView;
use crate::model::CheckinRequest;
use crate::model::CheckinView;
use crate::model::Duplicate;
use crate::model::MonitorCheckin;
use crate::model::MonitorSyncEntry;
use crate::model::MonitorSyncState;
use crate::model::MonitorView;
use crate::model::PlanView;
use crate::model::SyncPlan;
use crate::snapshot;
use crate::operation_id;
use crate::operation_id::OperationKind;
use crate::text;
use crate::transition;

verus! {

/// Why a monitor cannot be checked in by force.
#[derive(Clone, Copy, Debug, PartialEq, Eq, Structural)]
pub enum ForcedCheckinIneligibility {
    /// It is connected.
    Present,
    /// It is not checked out.
    AlreadyCheckedIn,
    /// It has no asset.
    Unmapped,
}

/// Why a monitor cannot be checked in by force, if it cannot.
pub open spec fn ineligibility(monitor: MonitorView) -> Option<ForcedCheckinIneligibility> {
    if monitor.absent_since is None {
        Some(ForcedCheckinIneligibility::Present)
    } else if !monitor.checked_out {
        Some(ForcedCheckinIneligibility::AlreadyCheckedIn)
    } else if monitor.snipeit_asset_id is None || monitor.snipeit_asset_id == Some(0u64) {
        Some(ForcedCheckinIneligibility::Unmapped)
    } else {
        None
    }
}

/// Decides why a monitor cannot be checked in by force.
pub fn forced_checkin_ineligibility(monitor: &MonitorSyncEntry) -> (reason: Option<
    ForcedCheckinIneligibility,
>)
    ensures
        reason == ineligibility(monitor.deep_view()),
{
    if monitor.absent_since.is_none() {
        return Some(ForcedCheckinIneligibility::Present);
    }
    if !monitor.checked_out {
        return Some(ForcedCheckinIneligibility::AlreadyCheckedIn);
    }
    match monitor.snipeit_asset_id {
        None => Some(ForcedCheckinIneligibility::Unmapped),
        Some(id) => if id == 0 {
            Some(ForcedCheckinIneligibility::Unmapped)
        } else {
            None
        },
    }
}

/// How the refusal to check in one monitor is worded.
pub open spec fn refusal_ending(reason: ForcedCheckinIneligibility) -> Seq<char> {
    match reason {
        ForcedCheckinIneligibility::Present => " is present and cannot be checked in"@,
        ForcedCheckinIneligibility::AlreadyCheckedIn => " is already checked in"@,
        ForcedCheckinIneligibility::Unmapped => " has no Snipe-IT asset mapping"@,
    }
}

/// Why the check-in of one monitor is refused, if it is.
pub open spec fn serial_refusal(monitors: Seq<MonitorView>, serial: Seq<char>) -> Option<
    Seq<char>,
> {
    let position = transition::serial_from(monitors, serial, 0);
    if text::trimmed(serial).len() == 0 {
        Some("monitor serial must not be empty"@)
    } else if position >= monitors.len() {
        Some("monitor "@ + serial + " is unknown"@)
    } else {
        match ineligibility(monitors[position]) {
            Some(reason) => Some("monitor "@ + serial + refusal_ending(reason)),
            None => None,
        }
    }
}

/// Why a check-in is refused before anything is done, if it is.
pub open spec fn refusal(
    configured: bool,
    monitors: Seq<MonitorView>,
    serial: Option<Seq<char>>,
) -> Option<Seq<char>> {
    if !configured {
        Some("service is not configured"@)
    } else {
        match serial {
            Some(serial) => serial_refusal(monitors, serial),
            None => None,
        }
    }
}

/// Refuses a check-in that cannot be carried out, before anything is done.
pub fn preflight(
    configured: bool,
    monitors: &Vec<MonitorSyncEntry>,
    serial: &Option<String>,
) -> (refused: Option<String>)
    ensures
        refused.deep_view() == refusal(configured, monitors.deep_view(), serial.deep_view()),
{
    if !configured {
        return Some("service is not configured".to_owned());
    }
    let serial = match serial {
        Some(serial) => serial,
        None => {
            return None;
        },
    };
    let chars = text::to_chars(serial.as_str());
    let trimmed = text::trim(chars.as_slice());
    if trimmed.len() == 0 {
        return Some("monitor serial must not be empty".to_owned());
    }
    let position: usize = transition::find_serial(monitors, serial);
    if position >= monitors.len() {
        return Some(text::join3("monitor ", serial.as_str(), " is unknown"));
    }
    match forced_checkin_ineligibility(&monitors[position]) {
        None => None,
        Some(ForcedCheckinIneligibility::Present) => Some(
            text::join3("monitor ", serial.as_str(), " is present and cannot be checked in"),
        ),
        Some(ForcedCheckinIneligibility::AlreadyCheckedIn) => Some(
            text::join3("monitor ", serial.as_str(), " is already checked in"),
        ),
        Some(ForcedCheckinIneligibility::Unmapped) => Some(
            text::join3("monitor ", serial.as_str(), " has no Snipe-IT asset mapping"),
        ),
    }
}

/// Whether a monitor is checked in by a request for one serial or for all.
pub open spec fn chosen(monitor: MonitorView, serial: Option<Seq<char>>) -> bool {
    &&& ineligibility(monitor) is None
    &&& match serial {
        Some(serial) => monitor.serial == serial,
        None => true,
    }
}

fn is_chosen(monitor: &MonitorSyncEntry, serial: &Option<String>) -> (is: bool)
    ensures
        is == chosen(monitor.deep_view(), serial.deep_view()),
{
    let requested = match serial {
        Some(serial) => monitor.serial == *serial,
        None => true,
    };
    requested && forced_checkin_ineligibility(monitor).is_none()
}

/// The monitors that a request checks in, in order.
pub open spec fn chosen_monitors(monitors: Seq<MonitorView>, serial: Option<Seq<char>>) -> Seq<
    MonitorView,
>
    decreases monitors.len(),
{
    if monitors.len() == 0 {
        Seq::empty()
    } else {
        let before = chosen_monitors(monitors.drop_last(), serial);
        if chosen(monitors.last(), serial) {
            before.push(monitors.last())
        } else {
            before
        }
    }
}

/// The identifier of the check-in of an asset.
pub open spec fn checkin_id(asset_id: u64, status_id: u64) -> Seq<char> {
    "checkin:"@ + text::decimal_text(asset_id as nat) + ":"@ + text::decimal_text(
        status_id as nat,
    )
}

/// Makes the identifier of the check-in of an asset.
pub fn checkin_operation_id(asset_id: u64, status_id: u64) -> (id: String)
    ensures
        id@ == checkin_id(asset_id, status_id),
{
    let asset = text::decimal(asset_id as u128);
    let status = text::decimal(status_id as u128);
    let mut id = text::join3("checkin:", asset.as_str(), ":");
    id.append(status.as_str());
    id
}

/// The check-in of a monitor.
pub open spec fn checkin_of(monitor: MonitorView, status_id: u64) -> CheckinView {
    CheckinView {
        operation_id: checkin_id(monitor.snipeit_asset_id->0, status_id),
        source_asset_id: monitor.snipeit_asset_id->0,
        status_id,
    }
}

/// What a client learns of the check-in of a monitor.
pub open spec fn entry_of(monitor: MonitorView) -> CheckinEntryView {
    CheckinEntryView { serial: monitor.serial, asset_id: monitor.snipeit_asset_id->0 }
}

/// A monitor after a request.
pub open spec fn after_checkin(monitor: MonitorView, serial: Option<Seq<char>>) -> MonitorView {
    if chosen(monitor, serial) {
        MonitorView { checked_out: false, ..monitor }
    } else {
        monitor
    }
}

/// The plan of a forced check-in.
pub open spec fn forced_plan(
    monitors: Seq<MonitorView>,
    serial: Option<Seq<char>>,
    status_id: u64,
) -> PlanView {
    let chosen = chosen_monitors(monitors, serial);
    PlanView {
        asset_update: None,
        monitor_checkouts: Seq::empty(),
        monitor_checkins: Seq::new(chosen.len(), |i: int| checkin_of(chosen[i], status_id)),
        next_monitors: Seq::new(monitors.len(), |i: int| after_checkin(monitors[i], serial)),
        warnings: Seq::empty(),
    }
}

/// What a client learns of a forced check-in.
pub open spec fn forced_entries(monitors: Seq<MonitorView>, serial: Option<Seq<char>>) -> Seq<
    CheckinEntryView,
> {
    let chosen = chosen_monitors(monitors, serial);
    Seq::new(chosen.len(), |i: int| entry_of(chosen[i]))
}

/// Plans a forced check-in, and lists the monitors that it checks in.
pub fn plan_forced_checkin(
    monitors: &Vec<MonitorSyncEntry>,
    serial: &Option<String>,
    status_id: u64,
) -> (result: (SyncPlan, Vec<CheckinEntry>))
    ensures
        result.0.deep_view() == forced_plan(monitors.deep_view(), serial.deep_view(), status_id),
        result.1.deep_view() == forced_entries(monitors.deep_view(), serial.deep_view()),
{
    let mut checkins: Vec<MonitorCheckin> = Vec::new();
    let mut entries: Vec<CheckinEntry> = Vec::new();
    let mut next: Vec<MonitorSyncEntry> = Vec::new();
    let mut index: usize = 0;
    let ghost views = monitors.deep_view();
    let ghost wanted = serial.deep_view();
    proof {
        assert(views.take(0) =~= Seq::empty());
        assert(checkins.deep_view() =~= Seq::empty());
        assert(entries.deep_view() =~= Seq::empty());
    }
    while index < monitors.len()
        invariant
            index <= monitors@.len(),
            views == monitors.deep_view(),
            wanted == serial.deep_view(),
            next@.len() == index,
            forall|i: int|
                0 <= i < index ==> (#[trigger] next@[i]).deep_view() == after_checkin(
                    views[i],
                    wanted,
                ),
            checkins.deep_view() == ({
                let chosen = chosen_monitors(views.take(index as int), wanted);
                Seq::new(chosen.len(), |i: int| checkin_of(chosen[i], status_id))
            }),
            entries.deep_view() == forced_entries(views.take(index as int), wanted),
        decreases monitors.len() - index,
    {
        let monitor = &monitors[index];
        let mut after = monitor.duplicate();
        let ghost checkins_before = checkins.deep_view();
        let ghost entries_before = entries.deep_view();
        let ghost taken = views.take(index as int + 1);
        proof {
            assert(taken.drop_last() =~= views.take(index as int));
            assert(taken.last() == monitor.deep_view());
        }
        if is_chosen(monitor, serial) {
            let asset_id: u64 = match monitor.snipeit_asset_id {
                Some(id) => id,
                None => 0,
            };
            checkins.push(
                MonitorCheckin {
                    operation_id: checkin_operation_id(asset_id, status_id),
                    source_asset_id: asset_id,
                    request: CheckinRequest { status_id },
                },
            );
            entries.push(CheckinEntry { serial: monitor.serial.clone(), asset_id });
            after.checked_out = false;
            proof {
                assert(checkins.deep_view() =~= checkins_before.push(
                    checkin_of(monitor.deep_view(), status_id),
                ));
                assert(entries.deep_view() =~= entries_before.push(
                    entry_of(monitor.deep_view()),
                ));
                let chosen = chosen_monitors(taken, wanted);
                assert(checkins.deep_view() =~= Seq::new(
                    chosen.len(),
                    |i: int| checkin_of(chosen[i], status_id),
                ));
                assert(entries.deep_view() =~= forced_entries(taken, wanted));
            }
        }
        next.push(after);
        index += 1;
    }
    proof {
        assert(views.take(views.len() as int) =~= views);
    }
    let plan = SyncPlan {
        asset_update: None,
        monitor_checkouts: Vec::new(),
        monitor_checkins: checkins,
        next_monitor_state: MonitorSyncState { entries: next },
        warnings: Vec::new(),
    };
    proof {
        let expected = forced_plan(views, wanted, status_id);
        assert(plan.deep_view().monitor_checkouts =~= expected.monitor_checkouts);
        assert(plan.deep_view().next_monitors =~= expected.next_monitors);
        assert(plan.deep_view().warnings =~= expected.warnings);
    }
    (plan, entries)
}

/// A forced check-in changes a monitor only if it is absent, checked out and mapped to an asset,
/// and then only in that it is no longer checked out.
pub proof fn forced_checkin_touches_only_eligible_monitors(
    monitors: Seq<MonitorView>,
    serial: Option<Seq<char>>,
    status_id: u64,
    index: int,
)
    requires
        0 <= index < monitors.len(),
    ensures
        ({
            let before = monitors[index];
            let after = forced_plan(monitors, serial, status_id).next_monitors[index];
            &&& after == before || {
                &&& after == (MonitorView { checked_out: false, ..before })
                &&& before.absent_since is Some
                &&& before.checked_out
                &&& before.snipeit_asset_id is Some
                &&& before.snipeit_asset_id->0 != 0
                &&& serial is Some ==> before.serial == serial->0
            }
        }),
{
}

/// A request for one monitor that is not refused checks in at least one monitor, and each that
/// it checks in has the serial that was asked for.
pub proof fn accepted_serials_are_checked_in(monitors: Seq<MonitorView>, serial: Seq<char>)
    requires
        refusal(true, monitors, Some(serial)) is None,
    ensures
        forced_entries(monitors, Some(serial)).len() > 0,
        forall|i: int|
            0 <= i < forced_entries(monitors, Some(serial)).len() ==> (#[trigger] forced_entries(
                monitors,
                Some(serial),
            )[i]).serial == serial,
{
    let position = transition::serial_from(monitors, serial, 0);
    transition::lemma_serial_from(monitors, serial, 0);
    lemma_chosen_is_listed(monitors, Some(serial), position);
    lemma_listed_are_chosen(monitors, Some(serial));
}

proof fn lemma_chosen_is_listed(
    monitors: Seq<MonitorView>,
    serial: Option<Seq<char>>,
    index: int,
)
    requires
        0 <= index < monitors.len(),
        chosen(monitors[index], serial),
    ensures
        chosen_monitors(monitors, serial).len() > 0,
    decreases monitors.len(),
{
    if index < monitors.len() - 1 {
        lemma_chosen_is_listed(monitors.drop_last(), serial, index);
    }
}

proof fn lemma_listed_are_chosen(monitors: Seq<MonitorView>, serial: Option<Seq<char>>)
    ensures
        forall|i: int|
            0 <= i < chosen_monitors(monitors, serial).len() ==> chosen(
                #[trigger] chosen_monitors(monitors, serial)[i],
                serial,
            ),
    decreases monitors.len(),
{
    if monitors.len() > 0 {
        lemma_listed_are_chosen(monitors.drop_last(), serial);
        let before = chosen_monitors(monitors.drop_last(), serial);
        let all = chosen_monitors(monitors, serial);
        assert forall|i: int| 0 <= i < all.len() implies chosen(#[trigger] all[i], serial) by {
            if i < before.len() {
                assert(all[i] == before[i]);
            }
        }
    }
}

/// A forced check-in keeps the calendar dates of monitors.
pub proof fn lemma_forced_monitors_valid(
    monitors: Seq<MonitorView>,
    serial: Option<Seq<char>>,
    status_id: u64,
)
    requires
        snapshot::valid_monitors(monitors),
    ensures
        snapshot::valid_monitors(forced_plan(monitors, serial, status_id).next_monitors),
{
    let next = forced_plan(monitors, serial, status_id).next_monitors;
    assert forall|i: int| 0 <= i < next.len() implies snapshot::valid_monitor(
        #[trigger] next[i],
    ) by {
        assert(snapshot::valid_monitor(monitors[i]));
    }
}

proof fn lemma_chosen_sources(monitors: Seq<MonitorView>, serial: Option<Seq<char>>)
    ensures
        forall|j: int|
            0 <= j < chosen_monitors(monitors, serial).len() ==> monitors.contains(
                #[trigger] chosen_monitors(monitors, serial)[j],
            ) && chosen(chosen_monitors(monitors, serial)[j], serial),
        forall|i: int|
            0 <= i < monitors.len() && chosen(#[trigger] monitors[i], serial) ==> chosen_monitors(
                monitors,
                serial,
            ).contains(monitors[i]),
    decreases monitors.len(),
{
    if monitors.len() > 0 {
        let shorter = monitors.drop_last();
        let before = chosen_monitors(shorter, serial);
        let all = chosen_monitors(monitors, serial);
        lemma_chosen_sources(shorter, serial);
        assert forall|j: int| 0 <= j < all.len() implies monitors.contains(#[trigger] all[j])
            && chosen(all[j], serial) by {
            if j < before.len() {
                assert(all[j] == before[j]);
                let k = choose|k: int| 0 <= k < shorter.len() && shorter[k] == before[j];
                assert(monitors[k] == all[j]);
            } else {
                assert(monitors[monitors.len() - 1] == all[j]);
            }
        }
        assert forall|i: int|
            0 <= i < monitors.len() && chosen(#[trigger] monitors[i], serial) implies all.contains(
            monitors[i],
        ) by {
            if i < shorter.len() {
                assert(shorter[i] == monitors[i]);
                let k = choose|k: int| 0 <= k < before.len() && before[k] == monitors[i];
                assert(all[k] == monitors[i]);
            } else {
                assert(all[before.len() as int] == monitors[i]);
            }
        }
    }
}

/// Whether a monitor can be checked in: it is absent, checked out, and has an asset; and it is the
/// one that was asked for, if one was.
pub open spec fn can_be_checked_in(monitor: MonitorView, serial: Option<Seq<char>>) -> bool {
    &&& monitor.absent_since is Some
    &&& monitor.checked_out
    &&& monitor.snipeit_asset_id is Some
    &&& monitor.snipeit_asset_id->0 != 0
    &&& serial is Some ==> monitor.serial == serial->0
}

/// A forced check-in is planned for exactly the monitors that can be checked in: each has its
/// check-in, with its asset and the status, is answered, and is checked in afterwards; no other is
/// checked in, and nothing else is planned.
pub proof fn forced_checkins_are_those_that_can_be(
    monitors: Seq<MonitorView>,
    serial: Option<Seq<char>>,
    status_id: u64,
    index: int,
    position: int,
)
    ensures
        ({
            let plan = forced_plan(monitors, serial, status_id);
            let entries = forced_entries(monitors, serial);
            &&& plan.asset_update is None
            &&& plan.monitor_checkouts.len() == 0
            &&& plan.warnings.len() == 0
            &&& plan.monitor_checkins.len() == entries.len()
            &&& plan.next_monitors.len() == monitors.len()
            &&& 0 <= index < monitors.len() && can_be_checked_in(monitors[index], serial) ==> {
                &&& plan.next_monitors[index] == (MonitorView {
                    checked_out: false,
                    ..monitors[index]
                })
                &&& exists|j: int|
                    0 <= j < entries.len() && (#[trigger] entries[j]).serial
                        == monitors[index].serial && entries[j].asset_id
                        == monitors[index].snipeit_asset_id->0
                        && plan.monitor_checkins[j].source_asset_id
                        == monitors[index].snipeit_asset_id->0
                        && plan.monitor_checkins[j].status_id == status_id
            }
            &&& 0 <= index < monitors.len() && !can_be_checked_in(monitors[index], serial)
                ==> plan.next_monitors[index] == monitors[index]
            &&& 0 <= position < entries.len() ==> {
                &&& plan.monitor_checkins[position].source_asset_id == entries[position].asset_id
                &&& plan.monitor_checkins[position].status_id == status_id
                &&& exists|i: int|
                    0 <= i < monitors.len() && can_be_checked_in(#[trigger] monitors[i], serial)
                        && monitors[i].serial == entries[position].serial
                        && monitors[i].snipeit_asset_id == Some(entries[position].asset_id)
            }
        }),
{
    let all = chosen_monitors(monitors, serial);
    let entries = forced_entries(monitors, serial);
    lemma_chosen_sources(monitors, serial);
    if 0 <= index < monitors.len() && can_be_checked_in(monitors[index], serial) {
        assert(chosen(monitors[index], serial));
        let j = choose|j: int| 0 <= j < all.len() && all[j] == monitors[index];
        assert(entries[j].serial == monitors[index].serial);
    }
    if 0 <= position < entries.len() {
        let i = choose|i: int| 0 <= i < monitors.len() && monitors[i] == all[position];
        assert(can_be_checked_in(monitors[i], serial));
    }
}

/// The identifiers of check-ins tell check-ins of different assets, or with different statuses,
/// apart.
pub proof fn checkins_are_told_apart(asset_id: u64, status_id: u64, other: u64, other_status: u64)
    requires
        checkin_id(asset_id, status_id) == checkin_id(other, other_status),
    ensures
        asset_id == other,
        status_id == other_status,
{
    reveal_strlit("checkin:");
    reveal_strlit(":");
    let id = checkin_id(asset_id, status_id);
    let a = text::decimal_text(asset_id as nat);
    let b = text::decimal_text(other as nat);
    let c = text::decimal_text(status_id as nat);
    let d = text::decimal_text(other_status as nat);
    let rest = id.skip(8);
    text::lemma_decimal_value(asset_id as nat);
    text::lemma_decimal_value(other as nat);
    text::lemma_decimal_value(status_id as nat);
    text::lemma_decimal_value(other_status as nat);
    assert(rest =~= a + seq![':'] + c);
    assert(rest =~= b + seq![':'] + d);
    if a.len() < b.len() {
        assert(rest[a.len() as int] == ':');
        assert(rest[a.len() as int] == b[a.len() as int]);
        assert(text::is_digit(b[a.len() as int]));
    }
    if b.len() < a.len() {
        assert(rest[b.len() as int] == ':');
        assert(rest[b.len() as int] == a[b.len() as int]);
        assert(text::is_digit(a[b.len() as int]));
    }
    assert(a =~= rest.take(a.len() as int));
    assert(b =~= rest.take(a.len() as int));
    assert(c =~= rest.skip(a.len() as int + 1));
    assert(d =~= rest.skip(a.len() as int + 1));
    text::decimal_round_trip(asset_id as nat, u64::MAX as nat);
    text::decimal_round_trip(other as nat, u64::MAX as nat);
    text::decimal_round_trip(status_id as nat, u64::MAX as nat);
    text::decimal_round_trip(other_status as nat, u64::MAX as nat);
}

/// A request for one monitor is accepted exactly if the service is configured, the serial is not
/// blank, and the first monitor with that serial can be checked in; a request for all is accepted
/// by every configured service.
pub proof fn requests_are_accepted_where_possible(
    configured: bool,
    monitors: Seq<MonitorView>,
    serial: Seq<char>,
)
    ensures
        refusal(configured, monitors, None) is None <==> configured,
        refusal(configured, monitors, Some(serial)) is None <==> {
            &&& configured
            &&& text::trimmed(serial).len() > 0
            &&& exists|first: int|
                0 <= first < monitors.len() && can_be_checked_in(
                    #[trigger] monitors[first],
                    Some(serial),
                ) && forall|i: int| 0 <= i < first ==> (#[trigger] monitors[i]).serial != serial
        },
{
    transition::searches_find_the_first(monitors, 0, serial);
    let position = transition::serial_from(monitors, serial, 0);
    if refusal(configured, monitors, Some(serial)) is None {
        assert(can_be_checked_in(monitors[position], Some(serial)));
    }
    if exists|first: int|
        0 <= first < monitors.len() && can_be_checked_in(#[trigger] monitors[first], Some(serial))
            && forall|i: int| 0 <= i < first ==> (#[trigger] monitors[i]).serial != serial {
        let first = choose|first: int|
            0 <= first < monitors.len() && can_be_checked_in(
                #[trigger] monitors[first],
                Some(serial),
            ) && forall|i: int| 0 <= i < first ==> (#[trigger] monitors[i]).serial != serial;
        assert(position <= first);
        if position < first {
            assert(monitors[position].serial != serial);
        }
    }
}

/// The check-ins of a forced plan are under identifiers of check-ins, which announce no patch.
pub proof fn forced_checkins_are_under_their_kind(asset_id: u64, status_id: u64)
    ensures
        operation_id::kind_of(checkin_id(asset_id, status_id)) == OperationKind::Checkin,
        operation_id::announced_asset(checkin_id(asset_id, status_id)) is None,
{
    let rest = checkin_id(asset_id, status_id).skip("checkin:"@.len() as int);
    assert(checkin_id(asset_id, status_id) =~= "checkin:"@ + rest);
    operation_id::identifiers_begin_with_their_kind(rest);
}

/// A monitor that is named but cannot be checked in is refused with what keeps it from that, in this
/// order: it is present, it is checked in, it has no asset. One that is not known, and a blank
/// serial, are refused as such; and a service that is not configured refuses everything.
pub proof fn refusals_say_why(
    configured: bool,
    monitors: Seq<MonitorView>,
    serial: Seq<char>,
    first: int,
)
    ensures
        refusal(false, monitors, Some(serial)) == Some("service is not configured"@),
        refusal(false, monitors, None) == Some("service is not configured"@),
        configured && text::trimmed(serial).len() == 0 ==> refusal(
            configured,
            monitors,
            Some(serial),
        ) == Some("monitor serial must not be empty"@),
        configured && text::trimmed(serial).len() > 0 && (forall|i: int|
            0 <= i < monitors.len() ==> (#[trigger] monitors[i]).serial != serial) ==> refusal(
            configured,
            monitors,
            Some(serial),
        ) == Some("monitor "@ + serial + " is unknown"@),
        configured && text::trimmed(serial).len() > 0 && 0 <= first < monitors.len()
            && monitors[first].serial == serial && (forall|i: int|
            0 <= i < first ==> (#[trigger] monitors[i]).serial != serial) ==> {
            let refused = refusal(configured, monitors, Some(serial));
            let monitor = monitors[first];
            &&& monitor.absent_since is None ==> refused == Some(
                "monitor "@ + serial + " is present and cannot be checked in"@,
            )
            &&& monitor.absent_since is Some && !monitor.checked_out ==> refused == Some(
                "monitor "@ + serial + " is already checked in"@,
            )
            &&& monitor.absent_since is Some && monitor.checked_out && (monitor.snipeit_asset_id
                is None || monitor.snipeit_asset_id->0 == 0) ==> refused == Some(
                "monitor "@ + serial + " has no Snipe-IT asset mapping"@,
            )
        },
{
    transition::searches_find_the_first(monitors, 0, serial);
    let position = transition::serial_from(monitors, serial, 0);
    if 0 <= first < monitors.len() && monitors[first].serial == serial && forall|i: int|
        0 <= i < first ==> (#[trigger] monitors[i]).serial != serial {
        assert(position <= first);
        if position < first {
            assert(monitors[position].serial != serial);
        }
    }
    if position < monitors.len() {
        assert(monitors[position].serial == serial);
    }
}

/// The check-ins of a forced plan are under the identifiers of their asset and status.
pub proof fn forced_checkins_are_identified(
    monitors: Seq<MonitorView>,
    serial: Option<Seq<char>>,
    status_id: u64,
    position: int,
)
    requires
        0 <= position < forced_plan(monitors, serial, status_id).monitor_checkins.len(),
    ensures
        ({
            let checkin = forced_plan(monitors, serial, status_id).monitor_checkins[position];
            &&& checkin.operation_id == "checkin:"@ + text::decimal_text(
                checkin.source_asset_id as nat,
            ) + ":"@ + text::decimal_text(checkin.status_id as nat)
            &&& checkin.status_id == status_id
        }),
{
}

} // verus!
