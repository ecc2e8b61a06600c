//! How each operation of a plan changes the persisted state.

use vstd::prelude::*;

use crate::model;
use crate::model::Asset;
use crate::model::AssetPatchRequest;
use crate::model::AssetSummary;
use crate::model::AssetSummaryView;
use crate::model::CheckinView;
use crate::model::CheckoutView;
use crate::model::Duplicate;
use crate::model::MonitorSyncEntry;
use crate::model::MonitorView;
use crate::model::PatchView;
use crate::model::PlanView;
use crate::model::ServiceState;
use crate::model::StateView;
use crate::model::SyncPlan;
use crate::operation_id;

verus! {

/// The position of the first monitor with an asset at or after `from`, or the number of monitors.
pub open spec fn asset_from(monitors: Seq<MonitorView>, asset_id: u64, from: int) -> int
    decreases monitors.len() - from,
{
    if from >= monitors.len() {
        monitors.len() as int
    } else if monitors[from].snipeit_asset_id == Some(asset_id) {
        from
    } else {
        asset_from(monitors, asset_id, from + 1)
    }
}

/// The position of the first monitor with a serial at or after `from`, or the number of monitors.
pub open spec fn serial_from(monitors: Seq<MonitorView>, serial: Seq<char>, from: int) -> int
    decreases monitors.len() - from,
{
    if from >= monitors.len() {
        monitors.len() as int
    } else if monitors[from].serial == serial {
        from
    } else {
        serial_from(monitors, serial, from + 1)
    }
}

/// What [`asset_from`] returns: the first monitor with that asset, if there is one.
pub proof fn lemma_asset_from(monitors: Seq<MonitorView>, asset_id: u64, from: int)
    requires
        0 <= from <= monitors.len(),
    ensures
        from <= asset_from(monitors, asset_id, from) <= monitors.len(),
        asset_from(monitors, asset_id, from) < monitors.len() ==> monitors[asset_from(
            monitors,
            asset_id,
            from,
        )].snipeit_asset_id == Some(asset_id),
    decreases monitors.len() - from,
{
    if from < monitors.len() && monitors[from].snipeit_asset_id != Some(asset_id) {
        lemma_asset_from(monitors, asset_id, from + 1);
    }
}

/// What [`serial_from`] returns: the first monitor with that serial, if there is one.
pub proof fn lemma_serial_from(monitors: Seq<MonitorView>, serial: Seq<char>, from: int)
    requires
        0 <= from <= monitors.len(),
    ensures
        from <= serial_from(monitors, serial, from) <= monitors.len(),
        serial_from(monitors, serial, from) < monitors.len() ==> monitors[serial_from(
            monitors,
            serial,
            from,
        )].serial == serial,
    decreases monitors.len() - from,
{
    if from < monitors.len() && monitors[from].serial != serial {
        lemma_serial_from(monitors, serial, from + 1);
    }
}

/// Finds the first monitor with an asset; the number of monitors stands for "none".
pub fn find_asset(monitors: &Vec<MonitorSyncEntry>, asset_id: u64) -> (position: usize)
    ensures
        position <= monitors@.len(),
        position == asset_from(monitors.deep_view(), asset_id, 0),
{
    let mut index: usize = 0;
    while index < monitors.len()
        invariant
            index <= monitors@.len(),
            asset_from(monitors.deep_view(), asset_id, 0) == asset_from(
                monitors.deep_view(),
                asset_id,
                index as int,
            ),
        decreases monitors.len() - index,
    {
        match monitors[index].snipeit_asset_id {
            Some(id) => {
                if id == asset_id {
                    return index;
                }
            },
            None => {},
        }
        index += 1;
    }
    index
}

/// Finds the first monitor with a serial; the number of monitors stands for "none".
pub fn find_serial(monitors: &Vec<MonitorSyncEntry>, serial: &String) -> (position: usize)
    ensures
        position <= monitors@.len(),
        position == serial_from(monitors.deep_view(), serial@, 0),
{
    let mut index: usize = 0;
    while index < monitors.len()
        invariant
            index <= monitors@.len(),
            serial_from(monitors.deep_view(), serial@, 0) == serial_from(
                monitors.deep_view(),
                serial@,
                index as int,
            ),
        decreases monitors.len() - index,
    {
        if monitors[index].serial == *serial {
            return index;
        }
        index += 1;
    }
    index
}

/// Whether a monitor is neither mapped to an asset nor known by a serial.
pub open spec fn unrelated(monitor: MonitorView, asset_id: u64, serial: Option<Seq<char>>) -> bool {
    &&& monitor.snipeit_asset_id != Some(asset_id)
    &&& match serial {
        Some(serial) => monitor.serial != serial,
        None => true,
    }
}

/// The monitors that are neither mapped to an asset nor known by a serial, in order.
pub open spec fn unrelated_monitors(
    monitors: Seq<MonitorView>,
    asset_id: u64,
    serial: Option<Seq<char>>,
) -> Seq<MonitorView>
    decreases monitors.len(),
{
    if monitors.len() == 0 {
        Seq::empty()
    } else {
        let before = unrelated_monitors(monitors.drop_last(), asset_id, serial);
        if unrelated(monitors.last(), asset_id, serial) {
            before.push(monitors.last())
        } else {
            before
        }
    }
}

fn keep_unrelated(
    monitors: &Vec<MonitorSyncEntry>,
    asset_id: u64,
    serial: &Option<String>,
) -> (kept: Vec<MonitorSyncEntry>)
    ensures
        kept.deep_view() == unrelated_monitors(
            monitors.deep_view(),
            asset_id,
            serial.deep_view(),
        ),
{
    let mut kept: Vec<MonitorSyncEntry> = Vec::new();
    let mut index: usize = 0;
    let ghost views = monitors.deep_view();
    proof {
        assert(views.take(0) == Seq::<MonitorView>::empty());
        assert(kept.deep_view() == Seq::<MonitorView>::empty());
    }
    while index < monitors.len()
        invariant
            index <= monitors@.len(),
            views == monitors.deep_view(),
            kept.deep_view() == unrelated_monitors(
                views.take(index as int),
                asset_id,
                serial.deep_view(),
            ),
        decreases monitors.len() - index,
    {
        let entry = &monitors[index];
        let same_asset = match entry.snipeit_asset_id {
            Some(id) => id == asset_id,
            None => false,
        };
        let same_serial = match serial {
            Some(serial) => entry.serial == *serial,
            None => false,
        };
        let ghost before = kept.deep_view();
        proof {
            assert(views.take(index + 1).drop_last() == views.take(index as int));
            assert(views.take(index + 1).last() == entry.deep_view());
        }
        if !same_asset && !same_serial {
            kept.push(entry.duplicate());
            proof {
                assert(kept.deep_view() == before.push(entry.deep_view()));
            }
        }
        index += 1;
    }
    proof {
        assert(views.take(index as int) == views);
    }
    kept
}

/// The serial of the monitor that is mapped to an asset.
pub open spec fn mapped_serial(monitors: Seq<MonitorView>, asset_id: u64) -> Option<Seq<char>> {
    let position = asset_from(monitors, asset_id, 0);
    if position < monitors.len() {
        Some(monitors[position].serial)
    } else {
        None
    }
}

/// The entry of the planned state that describes the monitor behind an asset: the one with the
/// serial that the asset is mapped to now, or else the one that is mapped to the asset.
pub open spec fn planned_entry(
    monitors: Seq<MonitorView>,
    planned: Seq<MonitorView>,
    asset_id: u64,
) -> Option<MonitorView> {
    let by_asset = asset_from(planned, asset_id, 0);
    let fallback = if by_asset < planned.len() {
        Some(planned[by_asset])
    } else {
        None
    };
    match mapped_serial(monitors, asset_id) {
        Some(serial) => {
            let by_serial = serial_from(planned, serial, 0);
            if by_serial < planned.len() {
                Some(planned[by_serial])
            } else {
                fallback
            }
        },
        None => fallback,
    }
}

/// The monitors once the monitor behind `asset_id` has been checked out or in.
///
/// Its planned entry moves to the end, in place of every entry of the same asset or serial. If the
/// plan knows no such monitor, it is forgotten.
pub open spec fn monitors_after(
    monitors: Seq<MonitorView>,
    planned: Seq<MonitorView>,
    asset_id: u64,
    checked_out: bool,
) -> Seq<MonitorView> {
    match planned_entry(monitors, planned, asset_id) {
        None => unrelated_monitors(monitors, asset_id, mapped_serial(monitors, asset_id)),
        Some(entry) => unrelated_monitors(monitors, asset_id, Some(entry.serial)).push(
            MonitorView { checked_out, ..entry },
        ),
    }
}

/// Applies one check-out or check-in to the known monitors.
pub fn apply_monitor_transition(
    monitors: &Vec<MonitorSyncEntry>,
    planned: &Vec<MonitorSyncEntry>,
    asset_id: u64,
    checked_out: bool,
) -> (result: Vec<MonitorSyncEntry>)
    ensures
        result.deep_view() == monitors_after(
            monitors.deep_view(),
            planned.deep_view(),
            asset_id,
            checked_out,
        ),
{
    let position = find_asset(monitors, asset_id);
    let prior_serial: Option<String> = if position < monitors.len() {
        Some(monitors[position].serial.clone())
    } else {
        None
    };
    let by_asset = find_asset(planned, asset_id);
    let chosen: usize = match &prior_serial {
        Some(serial) => {
            let by_serial = find_serial(planned, serial);
            if by_serial < planned.len() {
                by_serial
            } else {
                by_asset
            }
        },
        None => by_asset,
    };
    if chosen >= planned.len() {
        return keep_unrelated(monitors, asset_id, &prior_serial);
    }
    let mut entry = planned[chosen].duplicate();
    entry.checked_out = checked_out;
    let serial = Some(entry.serial.clone());
    let mut result = keep_unrelated(monitors, asset_id, &serial);
    let ghost before = result.deep_view();
    let ghost view = entry.deep_view();
    result.push(entry);
    proof {
        assert(result.deep_view() == before.push(view));
    }
    result
}

/// An operation's identifier and the asset that it moves.
pub open spec fn checkout_targets(operations: Seq<CheckoutView>) -> Seq<(Seq<char>, u64)> {
    Seq::new(
        operations.len(),
        |i: int| (operations[i].operation_id, operations[i].source_asset_id),
    )
}

/// An operation's identifier and the asset that it moves.
pub open spec fn checkin_targets(operations: Seq<CheckinView>) -> Seq<(Seq<char>, u64)> {
    Seq::new(
        operations.len(),
        |i: int| (operations[i].operation_id, operations[i].source_asset_id),
    )
}

/// Applies operations in order, from `from` on, up to and including the one called `last`. The
/// second component says whether it was met.
pub open spec fn applied_through(
    monitors: Seq<MonitorView>,
    planned: Seq<MonitorView>,
    operations: Seq<(Seq<char>, u64)>,
    checked_out: bool,
    last: Seq<char>,
    from: int,
) -> (Seq<MonitorView>, bool)
    decreases operations.len() - from,
{
    if from >= operations.len() {
        (monitors, false)
    } else {
        let next = monitors_after(monitors, planned, operations[from].1, checked_out);
        if operations[from].0 == last {
            (next, true)
        } else {
            applied_through(next, planned, operations, checked_out, last, from + 1)
        }
    }
}

/// The monitors once the operations of a plan have been carried out up to the one called `last`:
/// first the check-outs, then the check-ins.
pub open spec fn monitors_through(
    monitors: Seq<MonitorView>,
    planned: Seq<MonitorView>,
    plan: PlanView,
    last: Seq<char>,
) -> Seq<MonitorView> {
    let (after_checkouts, met) = applied_through(
        monitors,
        planned,
        checkout_targets(plan.monitor_checkouts),
        true,
        last,
        0,
    );
    if met {
        after_checkouts
    } else {
        applied_through(
            after_checkouts,
            planned,
            checkin_targets(plan.monitor_checkins),
            false,
            last,
            0,
        ).0
    }
}

/// The summary that a patch is expected to leave behind: what is known of the asset, with the
/// patched fields replaced. Nothing is expected of an asset that is not known at all.
pub open spec fn projected_summary(
    base: Option<AssetSummaryView>,
    planned: Option<AssetSummaryView>,
    asset_id: u64,
    request: PatchView,
) -> Option<AssetSummaryView> {
    let known = if base is Some {
        base
    } else {
        planned
    };
    match known {
        None => None,
        Some(summary) => Some(
            AssetSummaryView {
                id: asset_id,
                name: match request.name {
                    Some(name) => name,
                    None => summary.name,
                },
                serial: if request.serial is Some {
                    request.serial
                } else {
                    summary.serial
                },
                asset_tag: if request.asset_tag is Some {
                    request.asset_tag
                } else {
                    summary.asset_tag
                },
            },
        ),
    }
}

/// Projects the summary that a patch is expected to leave behind.
pub fn projected_asset_summary(
    base: &Option<AssetSummary>,
    planned: &Option<AssetSummary>,
    asset_id: u64,
    request: &AssetPatchRequest,
) -> (summary: Option<AssetSummary>)
    ensures
        summary.deep_view() == projected_summary(
            base.deep_view(),
            planned.deep_view(),
            asset_id,
            request.deep_view(),
        ),
{
    let known = match base {
        Some(summary) => summary,
        None => match planned {
            Some(summary) => summary,
            None => {
                return None;
            },
        },
    };
    Some(
        AssetSummary {
            id: asset_id,
            name: match &request.name {
                Some(name) => name.clone(),
                None => known.name.clone(),
            },
            serial: if request.serial.is_some() {
                request.serial.duplicate()
            } else {
                known.serial.duplicate()
            },
            asset_tag: if request.asset_tag.is_some() {
                request.asset_tag.duplicate()
            } else {
                known.asset_tag.duplicate()
            },
        },
    )
}

/// The state that is reached once the operation called `id` of a plan has been carried out.
///
/// `patched` is what the server returned for a patch, if it is known. The patch operation changes
/// the matched asset only; a monitor operation carries with it every monitor operation that the
/// plan lists before it.
pub open spec fn state_after(
    base: StateView,
    planned: StateView,
    plan: PlanView,
    id: Seq<char>,
    patched: Option<AssetSummaryView>,
) -> StateView {
    let state = StateView {
        last_sync_time: planned.last_sync_time,
        last_sync_result: planned.last_sync_result,
        matched_asset: if patched is Some {
            patched
        } else {
            base.matched_asset
        },
        known_monitors: base.known_monitors,
    };
    match (plan.asset_update, operation_id::announced_asset(id)) {
        (Some(request), Some(asset_id)) => if patched is Some {
            state
        } else {
            StateView {
                matched_asset: projected_summary(
                    base.matched_asset,
                    planned.matched_asset,
                    asset_id,
                    request,
                ),
                ..state
            }
        },
        _ => StateView {
            known_monitors: monitors_through(
                base.known_monitors,
                planned.known_monitors,
                plan,
                id,
            ),
            ..state
        },
    }
}

/// What the server returned for a patch, as the state keeps it.
pub open spec fn patched_summary(patched: Option<&Asset>) -> Option<AssetSummaryView> {
    match patched {
        Some(asset) => Some(model::summary_of(*asset)),
        None => None,
    }
}

fn monitors_up_to(
    monitors: &Vec<MonitorSyncEntry>,
    planned: &Vec<MonitorSyncEntry>,
    plan: &SyncPlan,
    last: &String,
) -> (result: Vec<MonitorSyncEntry>)
    ensures
        result.deep_view() == monitors_through(
            monitors.deep_view(),
            planned.deep_view(),
            plan.deep_view(),
            last@,
        ),
{
    let mut current = monitors.duplicate();
    let ghost checkouts = checkout_targets(plan.deep_view().monitor_checkouts);
    let ghost checkins = checkin_targets(plan.deep_view().monitor_checkins);
    let mut index: usize = 0;
    while index < plan.monitor_checkouts.len()
        invariant
            index <= plan.monitor_checkouts@.len(),
            checkouts == checkout_targets(plan.deep_view().monitor_checkouts),
            applied_through(monitors.deep_view(), planned.deep_view(), checkouts, true, last@, 0)
                == applied_through(
                current.deep_view(),
                planned.deep_view(),
                checkouts,
                true,
                last@,
                index as int,
            ),
        decreases plan.monitor_checkouts.len() - index,
    {
        let operation = &plan.monitor_checkouts[index];
        proof {
            assert(checkouts[index as int] == (
                operation.operation_id@,
                operation.source_asset_id,
            ));
        }
        current = apply_monitor_transition(&current, planned, operation.source_asset_id, true);
        if operation.operation_id == *last {
            return current;
        }
        index += 1;
    }
    let ghost middle = current.deep_view();
    index = 0;
    while index < plan.monitor_checkins.len()
        invariant
            index <= plan.monitor_checkins@.len(),
            checkins == checkin_targets(plan.deep_view().monitor_checkins),
            applied_through(middle, planned.deep_view(), checkins, false, last@, 0)
                == applied_through(
                current.deep_view(),
                planned.deep_view(),
                checkins,
                false,
                last@,
                index as int,
            ),
            applied_through(monitors.deep_view(), planned.deep_view(), checkouts, true, last@, 0)
                == (middle, false),
            checkouts == checkout_targets(plan.deep_view().monitor_checkouts),
        decreases plan.monitor_checkins.len() - index,
    {
        let operation = &plan.monitor_checkins[index];
        proof {
            assert(checkins[index as int] == (operation.operation_id@, operation.source_asset_id));
        }
        current = apply_monitor_transition(&current, planned, operation.source_asset_id, false);
        if operation.operation_id == *last {
            return current;
        }
        index += 1;
    }
    current
}

/// Computes the state that is reached once one operation of a plan has been carried out.
pub fn state_after_operation(
    base_state: &ServiceState,
    final_state: &ServiceState,
    plan: &SyncPlan,
    operation_id: &String,
    patched_asset: Option<&Asset>,
) -> (state: ServiceState)
    ensures
        state.deep_view() == state_after(
            base_state.deep_view(),
            final_state.deep_view(),
            plan.deep_view(),
            operation_id@,
            patched_summary(patched_asset),
        ),
{
    let matched_asset = match patched_asset {
        Some(asset) => Some(model::asset_summary(asset)),
        None => base_state.matched_asset.duplicate(),
    };
    let last_sync_time = final_state.last_sync_time.duplicate();
    let last_sync_result = final_state.last_sync_result.duplicate();
    match (&plan.asset_update, operation_id::announced_asset_id(operation_id.as_str())) {
        (Some(request), Some(asset_id)) => {
            let matched_asset = if patched_asset.is_some() {
                matched_asset
            } else {
                projected_asset_summary(
                    &base_state.matched_asset,
                    &final_state.matched_asset,
                    asset_id,
                    request,
                )
            };
            ServiceState {
                last_sync_time,
                last_sync_result,
                matched_asset,
                known_monitors: base_state.known_monitors.duplicate(),
            }
        },
        _ => ServiceState {
            last_sync_time,
            last_sync_result,
            matched_asset,
            known_monitors: monitors_up_to(
                &base_state.known_monitors,
                &final_state.known_monitors,
                plan,
                operation_id,
            ),
        },
    }
}

// ---------------------------------------------------------------------------------------------
// Laws
// ---------------------------------------------------------------------------------------------

proof fn lemma_unrelated_monitors(
    monitors: Seq<MonitorView>,
    asset_id: u64,
    serial: Option<Seq<char>>,
)
    ensures
        forall|i: int|
            0 <= i < unrelated_monitors(monitors, asset_id, serial).len() ==> unrelated(
                #[trigger] unrelated_monitors(monitors, asset_id, serial)[i],
                asset_id,
                serial,
            ),
        forall|i: int|
            0 <= i < monitors.len() && unrelated(#[trigger] monitors[i], asset_id, serial)
                ==> unrelated_monitors(monitors, asset_id, serial).contains(monitors[i]),
    decreases monitors.len(),
{
    if monitors.len() > 0 {
        let shorter = monitors.drop_last();
        let kept = unrelated_monitors(monitors, asset_id, serial);
        let before = unrelated_monitors(shorter, asset_id, serial);
        lemma_unrelated_monitors(shorter, asset_id, serial);
        assert forall|i: int|
            0 <= i < monitors.len() && unrelated(
                #[trigger] monitors[i],
                asset_id,
                serial,
            ) implies kept.contains(monitors[i]) by {
            if i < shorter.len() {
                assert(shorter[i] == monitors[i]);
                let k = choose|k: int| 0 <= k < before.len() && before[k] == monitors[i];
                assert(kept[k] == monitors[i]);
            } else {
                assert(kept[before.len() as int] == monitors[i]);
            }
        }
    }
}

/// A monitor operation leaves at most one entry for its asset, with the requested assignment, and
/// keeps every monitor that it is not about.
pub proof fn monitor_operations_touch_one_monitor(
    monitors: Seq<MonitorView>,
    planned: Seq<MonitorView>,
    asset_id: u64,
    checked_out: bool,
)
    ensures
        ({
            let after = monitors_after(monitors, planned, asset_id, checked_out);
            match planned_entry(monitors, planned, asset_id) {
                Some(entry) => {
                    &&& after.len() > 0
                    &&& after.last() == MonitorView { checked_out, ..entry }
                    &&& forall|i: int|
                        0 <= i < after.len() - 1 ==> (#[trigger] after[i]).serial != entry.serial
                            && after[i].snipeit_asset_id != Some(asset_id)
                    &&& forall|i: int|
                        0 <= i < monitors.len() && unrelated(
                            #[trigger] monitors[i],
                            asset_id,
                            Some(entry.serial),
                        ) ==> after.contains(monitors[i])
                },
                None => {
                    &&& forall|i: int|
                        0 <= i < after.len() ==> (#[trigger] after[i]).snipeit_asset_id != Some(
                            asset_id,
                        )
                    &&& forall|i: int|
                        0 <= i < monitors.len() && unrelated(
                            #[trigger] monitors[i],
                            asset_id,
                            mapped_serial(monitors, asset_id),
                        ) ==> after.contains(monitors[i])
                },
            }
        }),
{
    let after = monitors_after(monitors, planned, asset_id, checked_out);
    match planned_entry(monitors, planned, asset_id) {
        Some(entry) => {
            let kept = unrelated_monitors(monitors, asset_id, Some(entry.serial));
            lemma_unrelated_monitors(monitors, asset_id, Some(entry.serial));
            assert forall|i: int|
                0 <= i < after.len() - 1 implies (#[trigger] after[i]).serial != entry.serial
                && after[i].snipeit_asset_id != Some(asset_id) by {
                assert(after[i] == kept[i]);
            }
            assert forall|i: int|
                0 <= i < monitors.len() && unrelated(
                    #[trigger] monitors[i],
                    asset_id,
                    Some(entry.serial),
                ) implies after.contains(monitors[i]) by {
                let k = choose|k: int| 0 <= k < kept.len() && kept[k] == monitors[i];
                assert(after[k] == monitors[i]);
            }
        },
        None => {
            lemma_unrelated_monitors(monitors, asset_id, mapped_serial(monitors, asset_id));
        },
    }
}

proof fn lemma_first_with_asset(monitors: Seq<MonitorView>, asset_id: u64, from: int)
    requires
        0 <= from <= monitors.len(),
    ensures
        forall|i: int|
            from <= i < asset_from(monitors, asset_id, from) ==> (
            #[trigger] monitors[i]).snipeit_asset_id != Some(asset_id),
    decreases monitors.len() - from,
{
    if from < monitors.len() && monitors[from].snipeit_asset_id != Some(asset_id) {
        lemma_first_with_asset(monitors, asset_id, from + 1);
    }
}

proof fn lemma_first_with_serial(monitors: Seq<MonitorView>, serial: Seq<char>, from: int)
    requires
        0 <= from <= monitors.len(),
    ensures
        forall|i: int|
            from <= i < serial_from(monitors, serial, from) ==> (#[trigger] monitors[i]).serial
                != serial,
    decreases monitors.len() - from,
{
    if from < monitors.len() && monitors[from].serial != serial {
        lemma_first_with_serial(monitors, serial, from + 1);
    }
}

/// A search finds the first monitor with an asset, or with a serial, and says so where there is
/// none.
pub proof fn searches_find_the_first(monitors: Seq<MonitorView>, asset_id: u64, serial: Seq<char>)
    ensures
        ({
            let found = asset_from(monitors, asset_id, 0);
            &&& 0 <= found <= monitors.len()
            &&& found < monitors.len() ==> monitors[found].snipeit_asset_id == Some(asset_id)
            &&& forall|i: int|
                0 <= i < found ==> (#[trigger] monitors[i]).snipeit_asset_id != Some(asset_id)
        }),
        ({
            let found = serial_from(monitors, serial, 0);
            &&& 0 <= found <= monitors.len()
            &&& found < monitors.len() ==> monitors[found].serial == serial
            &&& forall|i: int| 0 <= i < found ==> (#[trigger] monitors[i]).serial != serial
        }),
{
    lemma_asset_from(monitors, asset_id, 0);
    lemma_serial_from(monitors, serial, 0);
    lemma_first_with_asset(monitors, asset_id, 0);
    lemma_first_with_serial(monitors, serial, 0);
}

/// What the plan has for an asset: the entry of the monitor that the asset is known as, if that
/// monitor is planned for; otherwise the first entry with the asset; otherwise nothing.
pub proof fn planned_entries_are_those_of_the_asset(
    monitors: Seq<MonitorView>,
    planned: Seq<MonitorView>,
    asset_id: u64,
    known: int,
)
    ensures
        match planned_entry(monitors, planned, asset_id) {
            Some(entry) => planned.contains(entry) && (entry.snipeit_asset_id == Some(asset_id)
                || exists|i: int|
                0 <= i < monitors.len() && (#[trigger] monitors[i]).snipeit_asset_id == Some(
                    asset_id,
                ) && monitors[i].serial == entry.serial),
            None => forall|i: int|
                0 <= i < planned.len() ==> (#[trigger] planned[i]).snipeit_asset_id != Some(asset_id),
        },
        0 <= known < monitors.len() && monitors[known].snipeit_asset_id == Some(asset_id) && (forall|
            i: int,
        |
            0 <= i < known ==> (#[trigger] monitors[i]).snipeit_asset_id != Some(asset_id)) && (
        exists|i: int|
            0 <= i < planned.len() && (#[trigger] planned[i]).serial == monitors[known].serial)
            ==> planned_entry(monitors, planned, asset_id) is Some && planned_entry(
            monitors,
            planned,
            asset_id,
        )->0.serial == monitors[known].serial,
{
    searches_find_the_first(monitors, asset_id, Seq::empty());
    searches_find_the_first(planned, asset_id, Seq::empty());
    let position = asset_from(monitors, asset_id, 0);
    if position < monitors.len() {
        searches_find_the_first(planned, asset_id, monitors[position].serial);
    }
    match planned_entry(monitors, planned, asset_id) {
        Some(entry) => {
            let by_asset = asset_from(planned, asset_id, 0);
            if position < monitors.len() && serial_from(planned, monitors[position].serial, 0)
                < planned.len() {
                assert(planned[serial_from(planned, monitors[position].serial, 0)] == entry);
            } else {
                assert(planned[by_asset] == entry);
            }
        },
        None => {},
    }
    if 0 <= known < monitors.len() && monitors[known].snipeit_asset_id == Some(asset_id) && forall|
        i: int,
    |
        0 <= i < known ==> (#[trigger] monitors[i]).snipeit_asset_id != Some(asset_id) {
        assert(position <= known);
        if position < known {
            assert(monitors[position].snipeit_asset_id != Some(asset_id));
        }
    }
}

/// The monitors that are kept are all that are not concerned, in their order.
pub proof fn unrelated_monitors_keep_their_order(
    monitors: Seq<MonitorView>,
    asset_id: u64,
    serial: Option<Seq<char>>,
)
    ensures
        unrelated_monitors(monitors, asset_id, serial) == monitors.filter(
            |monitor: MonitorView|
                monitor.snipeit_asset_id != Some(asset_id) && (serial is None || monitor.serial
                    != serial->0),
        ),
    decreases monitors.len(),
{
    reveal(Seq::filter);
    if monitors.len() > 0 {
        unrelated_monitors_keep_their_order(monitors.drop_last(), asset_id, serial);
    }
}

/// The summary that a patch is expected to lead to has the identifier of the asset and what the
/// patch sets; the rest is as it was known, from the state before or else from the plan. Where
/// nothing was known, nothing is expected.
pub proof fn projections_set_what_is_requested(
    base: Option<AssetSummaryView>,
    planned: Option<AssetSummaryView>,
    asset_id: u64,
    request: PatchView,
)
    ensures
        ({
            let expected = projected_summary(base, planned, asset_id, request);
            let known = if base is Some {
                base->0
            } else {
                planned->0
            };
            &&& expected is Some <==> base is Some || planned is Some
            &&& expected is Some ==> {
                &&& expected->0.id == asset_id
                &&& request.name is Some ==> expected->0.name == request.name->0
                &&& request.name is None ==> expected->0.name == known.name
                &&& request.serial is Some ==> expected->0.serial == request.serial
                &&& request.serial is None ==> expected->0.serial == known.serial
                &&& request.asset_tag is Some ==> expected->0.asset_tag == request.asset_tag
                &&& request.asset_tag is None ==> expected->0.asset_tag == known.asset_tag
            }
        }),
{
}

/// Every operation leads to a state of the current synchronization. A patch changes of the rest
/// only the matched asset, to what the server reported, where it did, and otherwise to what is
/// expected of the patch; a move changes only the monitors.
pub proof fn operations_change_what_they_are_about(
    base: StateView,
    planned: StateView,
    plan: PlanView,
    id: Seq<char>,
    patched: Option<AssetSummaryView>,
)
    ensures
        ({
            let after = state_after(base, planned, plan, id, patched);
            let is_patch = plan.asset_update is Some && operation_id::announced_asset(id) is Some;
            &&& after.last_sync_time == planned.last_sync_time
            &&& after.last_sync_result == planned.last_sync_result
            &&& patched is Some ==> after.matched_asset == patched
            &&& is_patch ==> after.known_monitors == base.known_monitors
            &&& is_patch && patched is None && base.matched_asset is Some ==> {
                &&& after.matched_asset is Some
                &&& after.matched_asset->0.id == operation_id::announced_asset(id)->0
                &&& plan.asset_update->0.serial is Some ==> after.matched_asset->0.serial
                    == plan.asset_update->0.serial
                &&& plan.asset_update->0.serial is None ==> after.matched_asset->0.serial
                    == base.matched_asset->0.serial
            }
            &&& !is_patch && patched is None ==> after.matched_asset == base.matched_asset
        }),
{
}

proof fn lemma_applied_last(
    monitors: Seq<MonitorView>,
    planned: Seq<MonitorView>,
    operations: Seq<(Seq<char>, u64)>,
    checked_out: bool,
    index: int,
    from: int,
)
    requires
        0 <= from <= index < operations.len(),
        forall|i: int| from <= i < index ==> (#[trigger] operations[i]).0 != operations[index].0,
    ensures
        applied_through(monitors, planned, operations, checked_out, operations[index].0, from).1,
        exists|before: Seq<MonitorView>|
            applied_through(
                monitors,
                planned,
                operations,
                checked_out,
                operations[index].0,
                from,
            ).0 == #[trigger] monitors_after(before, planned, operations[index].1, checked_out),
    decreases index - from,
{
    if from < index {
        let next = monitors_after(monitors, planned, operations[from].1, checked_out);
        assert(operations[from].0 != operations[index].0);
        lemma_applied_last(next, planned, operations, checked_out, index, from + 1);
    }
}

proof fn lemma_not_met(
    monitors: Seq<MonitorView>,
    planned: Seq<MonitorView>,
    operations: Seq<(Seq<char>, u64)>,
    checked_out: bool,
    last: Seq<char>,
    from: int,
)
    requires
        0 <= from,
        forall|i: int| from <= i < operations.len() ==> (#[trigger] operations[i]).0 != last,
    ensures
        !applied_through(monitors, planned, operations, checked_out, last, from).1,
    decreases operations.len() - from,
{
    if from < operations.len() {
        let next = monitors_after(monitors, planned, operations[from].1, checked_out);
        lemma_not_met(next, planned, operations, checked_out, last, from + 1);
    }
}

/// Whether the monitors show that the monitor with an asset was moved: every entry with the asset
/// has the requested assignment, and if the plan has an entry with the asset, the last monitor is
/// one that the plan has, with that assignment.
pub open spec fn shows_move(
    after: Seq<MonitorView>,
    planned: Seq<MonitorView>,
    asset_id: u64,
    checked_out: bool,
) -> bool {
    &&& forall|i: int|
        0 <= i < after.len() && (#[trigger] after[i]).snipeit_asset_id == Some(asset_id)
            ==> after[i].checked_out == checked_out
    &&& (exists|i: int|
        0 <= i < planned.len() && (#[trigger] planned[i]).snipeit_asset_id == Some(asset_id)) ==> {
        &&& after.len() > 0
        &&& after.last().checked_out == checked_out
        &&& exists|i: int|
            0 <= i < planned.len() && (#[trigger] planned[i]).serial == after.last().serial
                && planned[i].snipeit_asset_id == after.last().snipeit_asset_id
                && planned[i].last_seen == after.last().last_seen && planned[i].absent_since
                == after.last().absent_since
    }
}

proof fn lemma_shows_move(
    monitors: Seq<MonitorView>,
    planned: Seq<MonitorView>,
    asset_id: u64,
    checked_out: bool,
)
    ensures
        shows_move(
            monitors_after(monitors, planned, asset_id, checked_out),
            planned,
            asset_id,
            checked_out,
        ),
{
    let after = monitors_after(monitors, planned, asset_id, checked_out);
    monitor_operations_touch_one_monitor(monitors, planned, asset_id, checked_out);
    planned_entries_are_those_of_the_asset(monitors, planned, asset_id, 0);
    assert forall|i: int|
        0 <= i < after.len() && (#[trigger] after[i]).snipeit_asset_id == Some(
            asset_id,
        ) implies after[i].checked_out == checked_out by {
        if i < after.len() - 1 {
        }
    }
    match planned_entry(monitors, planned, asset_id) {
        Some(entry) => {
            let k = choose|k: int| 0 <= k < planned.len() && planned[k] == entry;
            assert(planned[k].serial == after.last().serial);
        },
        None => {},
    }
}

/// A move leads to a state that shows it: after a check-out the monitor with the asset is checked
/// out, and after a check-in it is not. This is said of plans whose identifiers tell operations
/// apart and are not those of a patch.
pub proof fn moves_lead_to_states_that_show_them(
    base: StateView,
    planned: StateView,
    plan: PlanView,
    index: int,
)
    ensures
        0 <= index < plan.monitor_checkouts.len() && operation_id::announced_asset(
            plan.monitor_checkouts[index].operation_id,
        ) is None && (forall|i: int|
            0 <= i < index ==> (#[trigger] plan.monitor_checkouts[i]).operation_id
                != plan.monitor_checkouts[index].operation_id) ==> shows_move(
            state_after(
                base,
                planned,
                plan,
                plan.monitor_checkouts[index].operation_id,
                None,
            ).known_monitors,
            planned.known_monitors,
            plan.monitor_checkouts[index].source_asset_id,
            true,
        ),
        0 <= index < plan.monitor_checkins.len() && operation_id::announced_asset(
            plan.monitor_checkins[index].operation_id,
        ) is None && (forall|i: int|
            0 <= i < index ==> (#[trigger] plan.monitor_checkins[i]).operation_id
                != plan.monitor_checkins[index].operation_id) && (forall|i: int|
            0 <= i < plan.monitor_checkouts.len() ==> (
            #[trigger] plan.monitor_checkouts[i]).operation_id
                != plan.monitor_checkins[index].operation_id) ==> shows_move(
            state_after(
                base,
                planned,
                plan,
                plan.monitor_checkins[index].operation_id,
                None,
            ).known_monitors,
            planned.known_monitors,
            plan.monitor_checkins[index].source_asset_id,
            false,
        ),
{
    let outs = checkout_targets(plan.monitor_checkouts);
    let ins = checkin_targets(plan.monitor_checkins);
    let monitors = base.known_monitors;
    let goal = planned.known_monitors;
    if 0 <= index < plan.monitor_checkouts.len() && operation_id::announced_asset(
        plan.monitor_checkouts[index].operation_id,
    ) is None && forall|i: int|
        0 <= i < index ==> (#[trigger] plan.monitor_checkouts[i]).operation_id
            != plan.monitor_checkouts[index].operation_id {
        assert forall|i: int| 0 <= i < index implies (#[trigger] outs[i]).0 != outs[index].0 by {
            assert(plan.monitor_checkouts[i].operation_id
                != plan.monitor_checkouts[index].operation_id);
        }
        lemma_applied_last(monitors, goal, outs, true, index, 0);
        let result = applied_through(monitors, goal, outs, true, outs[index].0, 0).0;
        let before = choose|before: Seq<MonitorView>|
            result == #[trigger] monitors_after(before, goal, outs[index].1, true);
        lemma_shows_move(before, goal, outs[index].1, true);
    }
    if 0 <= index < plan.monitor_checkins.len() && operation_id::announced_asset(
        plan.monitor_checkins[index].operation_id,
    ) is None && (forall|i: int|
        0 <= i < index ==> (#[trigger] plan.monitor_checkins[i]).operation_id
            != plan.monitor_checkins[index].operation_id) && (forall|i: int|
        0 <= i < plan.monitor_checkouts.len() ==> (#[trigger] plan.monitor_checkouts[i]).operation_id
            != plan.monitor_checkins[index].operation_id) {
        let last = ins[index].0;
        assert forall|i: int| 0 <= i < index implies (#[trigger] ins[i]).0 != ins[index].0 by {
            assert(plan.monitor_checkins[i].operation_id
                != plan.monitor_checkins[index].operation_id);
        }
        assert forall|i: int| 0 <= i < outs.len() implies (#[trigger] outs[i]).0 != last by {
            assert(plan.monitor_checkouts[i].operation_id
                != plan.monitor_checkins[index].operation_id);
        }
        lemma_not_met(monitors, goal, outs, true, last, 0);
        let middle = applied_through(monitors, goal, outs, true, last, 0).0;
        lemma_applied_last(middle, goal, ins, false, index, 0);
        let result = applied_through(middle, goal, ins, false, last, 0).0;
        let before = choose|before: Seq<MonitorView>|
            result == #[trigger] monitors_after(before, goal, ins[index].1, false);
        lemma_shows_move(before, goal, ins[index].1, false);
    }
}

/// Whether a monitor is there and is the only one with its serial.
pub open spec fn stands_alone(monitors: Seq<MonitorView>, monitor: MonitorView) -> bool {
    &&& monitors.contains(monitor)
    &&& forall|i: int|
        0 <= i < monitors.len() && (#[trigger] monitors[i]).serial == monitor.serial ==> monitors[i]
            == monitor
}

proof fn lemma_applied_leaves_alone(
    monitors: Seq<MonitorView>,
    planned: Seq<MonitorView>,
    operations: Seq<(Seq<char>, u64)>,
    checked_out: bool,
    last: Seq<char>,
    from: int,
    monitor: MonitorView,
)
    requires
        0 <= from,
        stands_alone(monitors, monitor),
        forall|i: int| 0 <= i < planned.len() ==> (#[trigger] planned[i]).serial != monitor.serial,
        forall|i: int|
            0 <= i < operations.len() ==> Some((#[trigger] operations[i]).1)
                != monitor.snipeit_asset_id,
    ensures
        stands_alone(
            applied_through(monitors, planned, operations, checked_out, last, from).0,
            monitor,
        ),
    decreases operations.len() - from,
{
    if from < operations.len() {
        let asset_id = operations[from].1;
        let next = monitors_after(monitors, planned, asset_id, checked_out);
        assert(stands_alone(next, monitor)) by {
            monitor_operations_touch_one_monitor(monitors, planned, asset_id, checked_out);
            planned_entries_are_those_of_the_asset(monitors, planned, asset_id, 0);
            searches_find_the_first(monitors, asset_id, Seq::empty());
            let k = choose|k: int| 0 <= k < monitors.len() && monitors[k] == monitor;
            match planned_entry(monitors, planned, asset_id) {
                Some(entry) => {
                    let e = choose|e: int| 0 <= e < planned.len() && planned[e] == entry;
                    assert(planned[e].serial != monitor.serial);
                    assert(unrelated(monitors[k], asset_id, Some(entry.serial)));
                    let kept = unrelated_monitors(monitors, asset_id, Some(entry.serial));
                    lemma_unrelated_monitors(monitors, asset_id, Some(entry.serial));
                    lemma_kept_are_known(monitors, asset_id, Some(entry.serial));
                    assert forall|i: int|
                        0 <= i < next.len() && (#[trigger] next[i]).serial
                            == monitor.serial implies next[i] == monitor by {
                        if i < kept.len() {
                            assert(next[i] == kept[i]);
                            let s = choose|s: int|
                                0 <= s < monitors.len() && monitors[s] == kept[i];
                            assert(monitors[s].serial == monitor.serial);
                        }
                    }
                },
                None => {
                    let serial = mapped_serial(monitors, asset_id);
                    let position = asset_from(monitors, asset_id, 0);
                    if position < monitors.len() {
                        if monitors[position].serial == monitor.serial {
                            assert(monitors[position] == monitor);
                        }
                    }
                    assert(unrelated(monitors[k], asset_id, serial));
                    lemma_kept_are_known(monitors, asset_id, serial);
                    assert forall|i: int|
                        0 <= i < next.len() && (#[trigger] next[i]).serial
                            == monitor.serial implies next[i] == monitor by {
                        let s = choose|s: int| 0 <= s < monitors.len() && monitors[s] == next[i];
                        assert(monitors[s].serial == monitor.serial);
                    }
                },
            }
        }
        if operations[from].0 != last {
            lemma_applied_leaves_alone(
                next,
                planned,
                operations,
                checked_out,
                last,
                from + 1,
                monitor,
            );
        }
    }
}

proof fn lemma_kept_are_known(
    monitors: Seq<MonitorView>,
    asset_id: u64,
    serial: Option<Seq<char>>,
)
    ensures
        forall|i: int|
            0 <= i < unrelated_monitors(monitors, asset_id, serial).len() ==> monitors.contains(
                #[trigger] unrelated_monitors(monitors, asset_id, serial)[i],
            ),
    decreases monitors.len(),
{
    if monitors.len() > 0 {
        let shorter = monitors.drop_last();
        let before = unrelated_monitors(shorter, asset_id, serial);
        let kept = unrelated_monitors(monitors, asset_id, serial);
        lemma_kept_are_known(shorter, asset_id, serial);
        assert forall|i: int| 0 <= i < kept.len() implies monitors.contains(#[trigger] kept[i]) by {
            if i < before.len() {
                assert(kept[i] == before[i]);
                let k = choose|k: int| 0 <= k < shorter.len() && shorter[k] == before[i];
                assert(monitors[k] == kept[i]);
            } else {
                assert(monitors[monitors.len() - 1] == kept[i]);
            }
        }
    }
}

/// A monitor that the plan says nothing of, neither by its serial nor by its asset, stays as it is,
/// whichever operation is carried out.
pub proof fn operations_leave_other_monitors_alone(
    base: StateView,
    planned: StateView,
    plan: PlanView,
    id: Seq<char>,
    patched: Option<AssetSummaryView>,
    monitor: MonitorView,
)
    requires
        stands_alone(base.known_monitors, monitor),
        forall|i: int|
            0 <= i < planned.known_monitors.len() ==> (
            #[trigger] planned.known_monitors[i]).serial != monitor.serial,
        forall|i: int|
            0 <= i < plan.monitor_checkouts.len() ==> Some(
                (#[trigger] plan.monitor_checkouts[i]).source_asset_id,
            ) != monitor.snipeit_asset_id,
        forall|i: int|
            0 <= i < plan.monitor_checkins.len() ==> Some(
                (#[trigger] plan.monitor_checkins[i]).source_asset_id,
            ) != monitor.snipeit_asset_id,
    ensures
        stands_alone(state_after(base, planned, plan, id, patched).known_monitors, monitor),
{
    let outs = checkout_targets(plan.monitor_checkouts);
    let ins = checkin_targets(plan.monitor_checkins);
    assert forall|i: int| 0 <= i < outs.len() implies Some((#[trigger] outs[i]).1)
        != monitor.snipeit_asset_id by {
        assert(Some(plan.monitor_checkouts[i].source_asset_id) != monitor.snipeit_asset_id);
    }
    assert forall|i: int| 0 <= i < ins.len() implies Some((#[trigger] ins[i]).1)
        != monitor.snipeit_asset_id by {
        assert(Some(plan.monitor_checkins[i].source_asset_id) != monitor.snipeit_asset_id);
    }
    lemma_applied_leaves_alone(
        base.known_monitors,
        planned.known_monitors,
        outs,
        true,
        id,
        0,
        monitor,
    );
    let middle = applied_through(
        base.known_monitors,
        planned.known_monitors,
        outs,
        true,
        id,
        0,
    ).0;
    lemma_applied_leaves_alone(middle, planned.known_monitors, ins, false, id, 0, monitor);
}

/// What the server reports of an asset is taken as the asset says it; no report is none.
pub proof fn reported_assets_are_summarized(asset: &Asset)
    ensures
        patched_summary(None) is None,
        patched_summary(Some(asset)) is Some,
        patched_summary(Some(asset))->0.id == asset.id,
        patched_summary(Some(asset))->0.name == asset.name@,
        asset.serial is Some ==> patched_summary(Some(asset))->0.serial == Some(
            asset.serial->0@,
        ),
        asset.serial is None ==> patched_summary(Some(asset))->0.serial is None,
        asset.asset_tag is Some ==> patched_summary(Some(asset))->0.asset_tag == Some(
            asset.asset_tag->0@,
        ),
        asset.asset_tag is None ==> patched_summary(Some(asset))->0.asset_tag is None,
{
}

} // verus!
