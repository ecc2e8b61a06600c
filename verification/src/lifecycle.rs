//! The life cycle of the service and the requests that it queues.

use vstd::prelude::*;

use crate::config;
use crate::config::Settings;
use crate::ipc::IpcResponse;
use crate::ipc::ResponseView;
use crate::ipc::ServiceCommand;
use crate::text;

verus! {

/// Where the service stands.
#[derive(Clone, Copy, Debug, PartialEq, Eq, Structural)]
pub enum FsmState {
    Bootstrap,
    LoadConfig,
    Unconfigured,
    Decrypt,
    ValidateConfig,
    Idle,
    Syncing,
    Error,
}

/// Why a synchronization failed.
#[derive(Clone, Copy, Debug, PartialEq, Eq, Structural)]
pub enum SyncFailure {
    Transient,
    Authentication,
    Permission,
}

/// The state that follows the end of a synchronization.
pub open spec fn after_sync(result: Option<Result<(), SyncFailure>>) -> FsmState {
    match result {
        None => FsmState::Error,
        Some(Ok(_)) => FsmState::Idle,
        Some(Err(SyncFailure::Transient)) => FsmState::Error,
        Some(Err(_)) => FsmState::Unconfigured,
    }
}

/// The state that follows a state, given whether the service is configured and how the last
/// synchronization ended.
pub open spec fn next_state(
    state: FsmState,
    configured: bool,
    result: Option<Result<(), SyncFailure>>,
) -> FsmState {
    match state {
        FsmState::Bootstrap => FsmState::LoadConfig,
        FsmState::LoadConfig => if configured {
            FsmState::Decrypt
        } else {
            FsmState::Unconfigured
        },
        FsmState::Unconfigured => FsmState::Unconfigured,
        FsmState::Decrypt => FsmState::ValidateConfig,
        FsmState::ValidateConfig => if configured {
            FsmState::Idle
        } else {
            FsmState::Unconfigured
        },
        FsmState::Idle => FsmState::Syncing,
        FsmState::Syncing => after_sync(result),
        FsmState::Error => FsmState::Idle,
    }
}

/// Advances the life cycle.
pub fn transition(
    state: FsmState,
    configured: bool,
    result: Option<Result<(), SyncFailure>>,
) -> (next: FsmState)
    ensures
        next == next_state(state, configured, result),
{
    match state {
        FsmState::Bootstrap => FsmState::LoadConfig,
        FsmState::Decrypt => FsmState::ValidateConfig,
        FsmState::Unconfigured => FsmState::Unconfigured,
        FsmState::Idle => FsmState::Syncing,
        FsmState::Error => FsmState::Idle,
        FsmState::LoadConfig => if configured {
            FsmState::Decrypt
        } else {
            FsmState::Unconfigured
        },
        FsmState::ValidateConfig => if configured {
            FsmState::Idle
        } else {
            FsmState::Unconfigured
        },
        FsmState::Syncing => match result {
            None => FsmState::Error,
            Some(Ok(())) => FsmState::Idle,
            Some(Err(SyncFailure::Transient)) => FsmState::Error,
            Some(Err(SyncFailure::Authentication)) => FsmState::Unconfigured,
            Some(Err(SyncFailure::Permission)) => FsmState::Unconfigured,
        },
    }
}

/// A service that is not configured reaches the unconfigured state from its start and stays
/// there; it never reaches a synchronization.
pub proof fn unconfigured_service_never_synchronizes(
    first: Option<Result<(), SyncFailure>>,
    second: Option<Result<(), SyncFailure>>,
    third: Option<Result<(), SyncFailure>>,
)
    ensures
        ({
            let loaded = next_state(FsmState::Bootstrap, false, first);
            let settled = next_state(loaded, false, second);
            &&& settled == FsmState::Unconfigured
            &&& next_state(settled, false, third) == FsmState::Unconfigured
        }),
{
}

/// A configured service is idle after its start has been worked through.
pub proof fn configured_service_becomes_idle(result: Option<Result<(), SyncFailure>>)
    ensures
        ({
            let loading = next_state(FsmState::Bootstrap, true, result);
            let decrypting = next_state(loading, true, result);
            let validating = next_state(decrypting, true, result);
            next_state(validating, true, result) == FsmState::Idle
        }),
{
}

/// The name under which a state is reported.
pub open spec fn state_name(state: FsmState) -> Seq<char> {
    match state {
        FsmState::Bootstrap => "Bootstrap"@,
        FsmState::LoadConfig => "LoadConfig"@,
        FsmState::Unconfigured => "Unconfigured"@,
        FsmState::Decrypt => "Decrypt"@,
        FsmState::ValidateConfig => "ValidateConfig"@,
        FsmState::Idle => "Idle"@,
        FsmState::Syncing => "syncing"@,
        FsmState::Error => "Error"@,
    }
}

impl FsmState {
    /// Names the state for a client.
    pub fn name(self) -> (name: String)
        ensures
            name@ == state_name(self),
    {
        match self {
            FsmState::Bootstrap => "Bootstrap".to_owned(),
            FsmState::LoadConfig => "LoadConfig".to_owned(),
            FsmState::Unconfigured => "Unconfigured".to_owned(),
            FsmState::Decrypt => "Decrypt".to_owned(),
            FsmState::ValidateConfig => "ValidateConfig".to_owned(),
            FsmState::Idle => "Idle".to_owned(),
            FsmState::Syncing => "syncing".to_owned(),
            FsmState::Error => "Error".to_owned(),
        }
    }
}

/// The state of a service that waits for commands.
pub open spec fn resting_state(configured: bool) -> FsmState {
    if configured {
        FsmState::Idle
    } else {
        FsmState::Unconfigured
    }
}

/// Decides the state of a service that waits for commands.
pub fn configuration_state(configured: bool) -> (state: FsmState)
    ensures
        state == resting_state(configured),
{
    if configured {
        FsmState::Idle
    } else {
        FsmState::Unconfigured
    }
}

/// Takes commands in order and remembers one synchronization request at a time.
#[derive(Debug, PartialEq, Eq)]
pub struct ServiceController {
    pub state: FsmState,
    pub settings: Settings,
    pub sync_pending: bool,
}

/// What a command to a controller is answered, and whether a synchronization is pending
/// afterwards.
pub open spec fn controlled(
    state: FsmState,
    settings: config::SettingsView,
    pending: bool,
    missing: Seq<Seq<char>>,
    command: ServiceCommand,
) -> (ResponseView, bool) {
    match command {
        ServiceCommand::GetConfig => (
            ResponseView::Config {
                settings: config::with_token_view(settings, Seq::empty()),
                missing,
            },
            pending,
        ),
        ServiceCommand::GetStatus => (plain_status(state, settings), pending),
        ServiceCommand::GetStatusFull => (plain_status(state, settings), pending),
        ServiceCommand::TriggerSync => if state == FsmState::Syncing || pending {
            (ResponseView::Done { message: "sync already queued"@ }, pending)
        } else {
            (ResponseView::Done { message: "sync queued"@ }, true)
        },
        ServiceCommand::SetConfig { .. } => (
            ResponseView::Done { message: "configuration update accepted"@ },
            pending,
        ),
        ServiceCommand::SetToken { .. } => (
            ResponseView::Done { message: "configuration update accepted"@ },
            pending,
        ),
        ServiceCommand::CheckinAll => (
            ResponseView::CheckinResult { checked_in: Seq::empty() },
            pending,
        ),
        ServiceCommand::CheckinSerial { .. } => (
            ResponseView::CheckinResult { checked_in: Seq::empty() },
            pending,
        ),
    }
}

/// The status that needs no persisted state.
pub open spec fn plain_status(state: FsmState, settings: config::SettingsView) -> ResponseView {
    ResponseView::Status {
        state: state_name(state),
        last_sync: None,
        next_sync: None,
        snipeit_url: settings.url,
    }
}

impl ServiceController {
    /// Starts a controller.
    pub fn new(settings: Settings) -> (controller: Self)
        ensures
            controller.state == FsmState::Bootstrap,
            controller.settings == settings,
            !controller.sync_pending,
    {
        ServiceController { state: FsmState::Bootstrap, settings, sync_pending: false }
    }

    fn report(&self) -> (response: IpcResponse)
        ensures
            response.deep_view() == plain_status(self.state, self.settings.deep_view()),
    {
        IpcResponse::Status {
            state: self.state.name(),
            last_sync: None,
            next_sync: None,
            snipeit_url: self.settings.snipeit.url.clone(),
        }
    }

    /// Takes one command. `missing` names the settings that are still to be made.
    pub fn handle(&mut self, command: &ServiceCommand, missing: Vec<String>) -> (response:
        IpcResponse)
        ensures
            final(self).state == old(self).state,
            final(self).settings == old(self).settings,
            (response.deep_view(), final(self).sync_pending) == controlled(
                old(self).state,
                old(self).settings.deep_view(),
                old(self).sync_pending,
                missing.deep_view(),
                *command,
            ),
    {
        match command {
            ServiceCommand::GetConfig => IpcResponse::Config {
                settings: config::redact_settings(&self.settings),
                missing,
            },
            ServiceCommand::GetStatus => self.report(),
            ServiceCommand::GetStatusFull => self.report(),
            ServiceCommand::TriggerSync => {
                if self.state == FsmState::Syncing || self.sync_pending {
                    IpcResponse::Done { message: "sync already queued".to_owned() }
                } else {
                    self.sync_pending = true;
                    IpcResponse::Done { message: "sync queued".to_owned() }
                }
            },
            ServiceCommand::SetConfig { .. } => IpcResponse::Done {
                message: "configuration update accepted".to_owned(),
            },
            ServiceCommand::SetToken { .. } => IpcResponse::Done {
                message: "configuration update accepted".to_owned(),
            },
            ServiceCommand::CheckinAll => nothing_checked_in(),
            ServiceCommand::CheckinSerial { .. } => nothing_checked_in(),
        }
    }

    /// Takes the requested synchronization, if there is one.
    pub fn take_sync_request(&mut self) -> (requested: bool)
        ensures
            requested == old(self).sync_pending,
            !final(self).sync_pending,
            final(self).state == old(self).state,
            final(self).settings == old(self).settings,
    {
        let requested = self.sync_pending;
        self.sync_pending = false;
        requested
    }
}

fn nothing_checked_in() -> (response: IpcResponse)
    ensures
        response.deep_view() == (ResponseView::CheckinResult { checked_in: Seq::empty() }),
{
    let response = IpcResponse::CheckinResult { checked_in: Vec::new() };
    proof {
        assert(response.deep_view()->checked_in =~= Seq::empty());
    }
    response
}

/// However often a synchronization is requested before it is taken, it is queued once: the
/// requests after the first are answered as already queued and change nothing.
pub proof fn duplicate_requests_coalesce(
    state: FsmState,
    settings: config::SettingsView,
    missing: Seq<Seq<char>>,
)
    ensures
        controlled(state, settings, true, missing, ServiceCommand::TriggerSync) == (
            ResponseView::Done { message: "sync already queued"@ },
            true,
        ),
        state != FsmState::Syncing ==> controlled(
            state,
            settings,
            false,
            missing,
            ServiceCommand::TriggerSync,
        ).1,
{
}

// ---------------------------------------------------------------------------------------------
// Prepared and confirmed operations
// ---------------------------------------------------------------------------------------------

/// A record of a minimal operation journal.
#[derive(Clone, Debug, PartialEq, Eq)]
pub enum JournalRecord {
    Prepared { operation_id: String },
    Confirmed { operation_id: String },
}

/// The operations that are prepared but not confirmed after some records.
pub open spec fn unconfirmed(records: Seq<JournalRecord>) -> Set<Seq<char>>
    decreases records.len(),
{
    if records.len() == 0 {
        Set::empty()
    } else {
        let before = unconfirmed(records.drop_last());
        match records.last() {
            JournalRecord::Prepared { operation_id } => before.insert(operation_id@),
            JournalRecord::Confirmed { operation_id } => before.remove(operation_id@),
        }
    }
}

/// Whether texts stand in ascending order, each once.
pub open spec fn ascending(texts: Seq<Seq<char>>) -> bool {
    forall|i: int, j: int|
        0 <= i < j < texts.len() ==> text::precedes(#[trigger] texts[i], #[trigger] texts[j])
}

fn insert_sorted(ids: &mut Vec<String>, id: &String)
    requires
        ascending(old(ids).deep_view()),
    ensures
        ascending(final(ids).deep_view()),
        final(ids).deep_view().to_set() == old(ids).deep_view().to_set().insert(id@),
{
    let ghost before = ids.deep_view();
    let mut index: usize = 0;
    while index < ids.len() && text::is_before(ids[index].as_str(), id.as_str())
        invariant
            index <= ids@.len(),
            ids.deep_view() == before,
            forall|i: int| 0 <= i < index ==> text::precedes(#[trigger] before[i], id@),
        decreases ids.len() - index,
    {
        proof {
            assert(before[index as int] == ids@[index as int]@);
        }
        index += 1;
    }
    if index < ids.len() && ids[index] == *id {
        proof {
            assert(before[index as int] == id@);
            assert(before.contains(id@));
            assert(before.to_set().insert(id@) =~= before.to_set());
        }
        return ;
    }
    proof {
        if index < ids.len() {
            assert(before[index as int] == ids@[index as int]@);
            text::text_order_is_total(before[index as int], id@, id@);
        }
    }
    ids.insert(index, id.clone());
    proof {
        let after = ids.deep_view();
        assert(after =~= before.insert(index as int, id@));
        assert forall|i: int, j: int| 0 <= i < j < after.len() implies text::precedes(
            #[trigger] after[i],
            #[trigger] after[j],
        ) by {
            if j == index {
                assert(after[i] == before[i]);
            } else if i == index {
                assert(after[j] == before[j - 1]);
                if j - 1 > index {
                    text::text_order_is_total(id@, before[index as int], before[j - 1]);
                }
            } else {
                assert(after[i] == if i < index {
                    before[i]
                } else {
                    before[i - 1]
                });
                assert(after[j] == if j < index {
                    before[j]
                } else {
                    before[j - 1]
                });
            }
        }
        assert forall|id_: Seq<char>| after.to_set().contains(id_) implies before.to_set().insert(
            id@,
        ).contains(id_) by {
            let k = choose|k: int| 0 <= k < after.len() && after[k] == id_;
            if k < index {
                assert(before[k] == id_);
            } else if k > index {
                assert(before[k - 1] == id_);
            }
        }
        assert forall|id_: Seq<char>|
            before.to_set().insert(id@).contains(id_) implies after.to_set().contains(id_) by {
            if id_ == id@ {
                assert(after[index as int] == id_);
            } else {
                let k = choose|k: int| 0 <= k < before.len() && before[k] == id_;
                if k < index {
                    assert(after[k] == id_);
                } else {
                    assert(after[k + 1] == id_);
                }
            }
        }
        assert(after.to_set() =~= before.to_set().insert(id@));
    }
}

fn remove_sorted(ids: &mut Vec<String>, id: &String)
    requires
        ascending(old(ids).deep_view()),
    ensures
        ascending(final(ids).deep_view()),
        final(ids).deep_view().to_set() == old(ids).deep_view().to_set().remove(id@),
{
    let ghost before = ids.deep_view();
    let mut index: usize = 0;
    while index < ids.len() && ids[index] != *id
        invariant
            index <= ids@.len(),
            ids.deep_view() == before,
            forall|i: int| 0 <= i < index ==> #[trigger] before[i] != id@,
        decreases ids.len() - index,
    {
        proof {
            assert(before[index as int] == ids@[index as int]@);
        }
        index += 1;
    }
    if index >= ids.len() {
        proof {
            assert(before.to_set().remove(id@) =~= before.to_set());
        }
        return ;
    }
    let _removed = ids.remove(index);
    proof {
        let after = ids.deep_view();
        assert(before[index as int] == id@);
        assert(after =~= before.remove(index as int));
        assert forall|i: int, j: int| 0 <= i < j < after.len() implies text::precedes(
            #[trigger] after[i],
            #[trigger] after[j],
        ) by {
            let p = if i < index {
                i
            } else {
                i + 1
            };
            let q = if j < index {
                j
            } else {
                j + 1
            };
            assert(text::precedes(before[p], before[q]));
        }
        assert forall|id_: Seq<char>| after.to_set().contains(id_) implies before.to_set().remove(
            id@,
        ).contains(id_) by {
            let k = choose|k: int| 0 <= k < after.len() && after[k] == id_;
            if k < index {
                assert(before[k] == id_);
            } else {
                assert(before[k + 1] == id_);
                text::text_order_is_total(before[index as int], before[k + 1], id@);
            }
        }
        assert forall|id_: Seq<char>|
            before.to_set().remove(id@).contains(id_) implies after.to_set().contains(id_) by {
            let k = choose|k: int| 0 <= k < before.len() && before[k] == id_;
            if k < index {
                assert(after[k] == id_);
            } else {
                assert(after[k - 1] == id_);
            }
        }
        assert(after.to_set() =~= before.to_set().remove(id@));
    }
}

/// Lists the operations that are prepared but not confirmed, in ascending order.
pub fn pending_operations(records: &[JournalRecord]) -> (pending: Vec<String>)
    ensures
        ascending(pending.deep_view()),
        pending.deep_view().to_set() == unconfirmed(records@),
{
    let mut pending: Vec<String> = Vec::new();
    let mut index: usize = 0;
    proof {
        assert(pending.deep_view() =~= Seq::empty());
        assert(pending.deep_view().to_set() =~= Set::empty());
        assert(records@.take(0) =~= Seq::empty());
    }
    while index < records.len()
        invariant
            index <= records@.len(),
            ascending(pending.deep_view()),
            pending.deep_view().to_set() == unconfirmed(records@.take(index as int)),
        decreases records.len() - index,
    {
        proof {
            assert(records@.take(index as int + 1).drop_last() =~= records@.take(index as int));
        }
        match &records[index] {
            JournalRecord::Prepared { operation_id } => insert_sorted(&mut pending, operation_id),
            JournalRecord::Confirmed { operation_id } => remove_sorted(&mut pending, operation_id),
        }
        index += 1;
    }
    proof {
        assert(records@.take(records@.len() as int) =~= records@);
    }
    pending
}

/// An operation that was confirmed last is not pending, whatever came before.
pub proof fn confirmed_operations_are_not_pending(records: Seq<JournalRecord>, id: String)
    ensures
        !unconfirmed(records.push(JournalRecord::Confirmed { operation_id: id })).contains(id@),
        unconfirmed(records.push(JournalRecord::Prepared { operation_id: id })).contains(id@),
{
    let confirmed = records.push(JournalRecord::Confirmed { operation_id: id });
    let prepared = records.push(JournalRecord::Prepared { operation_id: id });
    assert(confirmed.drop_last() =~= records);
    assert(prepared.drop_last() =~= records);
}

/// A synchronization that ends leaves the service idle if it succeeded, in error if it may succeed
/// later or was not made at all, and unconfigured otherwise, whatever the settings are.
pub proof fn synchronizations_decide_the_next_state(configured: bool, failure: SyncFailure)
    ensures
        next_state(FsmState::Syncing, configured, Some(Ok(()))) == FsmState::Idle,
        next_state(FsmState::Syncing, configured, None) == FsmState::Error,
        failure == SyncFailure::Transient ==> next_state(
            FsmState::Syncing,
            configured,
            Some(Err(failure)),
        ) == FsmState::Error,
        failure != SyncFailure::Transient ==> next_state(
            FsmState::Syncing,
            configured,
            Some(Err(failure)),
        ) == FsmState::Unconfigured,
{
}

/// Only an idle service begins to synchronize, and it always does; a service in error becomes idle
/// again; an unconfigured one stays so; and without its settings no service becomes idle from its
/// start.
pub proof fn only_idle_services_synchronize(
    state: FsmState,
    configured: bool,
    result: Option<Result<(), SyncFailure>>,
)
    ensures
        next_state(state, configured, result) == FsmState::Syncing <==> state == FsmState::Idle,
        next_state(FsmState::Error, configured, result) == FsmState::Idle,
        next_state(FsmState::Unconfigured, configured, result) == FsmState::Unconfigured,
        state != FsmState::Syncing && state != FsmState::Error && !configured ==> next_state(
            state,
            configured,
            result,
        ) != FsmState::Idle,
        next_state(state, configured, result) != FsmState::Bootstrap,
{
}

/// Every state is reported under a name of its own.
pub proof fn states_are_told_apart(first: FsmState, second: FsmState)
    requires
        state_name(first) == state_name(second),
    ensures
        first == second,
{
    reveal_strlit("Bootstrap");
    reveal_strlit("LoadConfig");
    reveal_strlit("Unconfigured");
    reveal_strlit("Decrypt");
    reveal_strlit("ValidateConfig");
    reveal_strlit("Idle");
    reveal_strlit("syncing");
    reveal_strlit("Error");
    assert("Decrypt"@[0] == 'D');
    assert("syncing"@[0] == 's');
    let length = state_name(first).len();
    assert(state_name(second).len() == length);
    assert(first == FsmState::Bootstrap <==> length == 9);
    assert(second == FsmState::Bootstrap <==> length == 9);
}

/// Only a request to synchronize can make one pending. No command makes it less so, and a service
/// that is synchronizing takes no further request.
pub proof fn only_requests_make_synchronizations_pending(
    state: FsmState,
    settings: config::SettingsView,
    pending: bool,
    missing: Seq<Seq<char>>,
    command: ServiceCommand,
)
    ensures
        ({
            let (response, after) = controlled(state, settings, pending, missing, command);
            &&& pending ==> after
            &&& !(command is TriggerSync) ==> after == pending
            &&& command is TriggerSync && state == FsmState::Syncing ==> after == pending
                && response == (ResponseView::Done { message: "sync already queued"@ })
            &&& command is TriggerSync && state != FsmState::Syncing && !pending ==> after
                && response == (ResponseView::Done { message: "sync queued"@ })
            &&& command is GetConfig ==> response == (ResponseView::Config {
                settings: config::SettingsView {
                    api_token_encrypted: Seq::empty(),
                    ..settings
                },
                missing,
            })
            &&& command is GetStatus || command is GetStatusFull ==> response is Status
                && response->Status_snipeit_url == settings.url && response->Status_state
                == state_name(state)
        }),
{
}

/// Whether a record announces an operation.
pub open spec fn announces(record: JournalRecord, id: Seq<char>) -> bool {
    record is Prepared && record->Prepared_operation_id@ == id
}

/// Whether a record confirms an operation.
pub open spec fn confirms(record: JournalRecord, id: Seq<char>) -> bool {
    record is Confirmed && record->Confirmed_operation_id@ == id
}

/// An operation is pending exactly if it was announced and has not been confirmed since.
pub proof fn pending_operations_await_confirmation(records: Seq<JournalRecord>, id: Seq<char>)
    ensures
        unconfirmed(records).contains(id) <==> exists|i: int|
            0 <= i < records.len() && announces(#[trigger] records[i], id) && forall|j: int|
                i < j < records.len() ==> !confirms(#[trigger] records[j], id),
    decreases records.len(),
{
    if records.len() > 0 {
        let before = records.drop_last();
        let last = records.len() - 1;
        pending_operations_await_confirmation(before, id);
        if unconfirmed(records).contains(id) {
            if announces(records[last], id) {
            } else {
                let i = choose|i: int|
                    0 <= i < before.len() && announces(#[trigger] before[i], id) && forall|j: int|
                        i < j < before.len() ==> !confirms(#[trigger] before[j], id);
                assert(announces(records[i], id));
                assert forall|j: int| i < j < records.len() implies !confirms(
                    #[trigger] records[j],
                    id,
                ) by {
                    if j < last {
                        assert(!confirms(before[j], id));
                    }
                }
            }
        }
        if exists|i: int|
            0 <= i < records.len() && announces(#[trigger] records[i], id) && forall|j: int|
                i < j < records.len() ==> !confirms(#[trigger] records[j], id) {
            let i = choose|i: int|
                0 <= i < records.len() && announces(#[trigger] records[i], id) && forall|j: int|
                    i < j < records.len() ==> !confirms(#[trigger] records[j], id);
            if i < last {
                assert(!confirms(records[last], id));
                assert(announces(before[i], id));
                assert forall|j: int| i < j < before.len() implies !confirms(
                    #[trigger] before[j],
                    id,
                ) by {
                    assert(!confirms(records[j], id));
                }
            }
        }
    }
}

/// Identifiers that are listed in ascending order each come before all that follow, and none comes
/// twice.
pub proof fn ascending_identifiers_differ(texts: Seq<Seq<char>>, earlier: int, later: int)
    requires
        ascending(texts),
        0 <= earlier < later < texts.len(),
    ensures
        text::precedes(texts[earlier], texts[later]),
        texts[earlier] != texts[later],
{
    text::text_order_is_total(texts[earlier], texts[later], texts[later]);
}

} // verus!
