//! The single-owner command queue: which synchronizations are accepted, which join one that was
//! accepted before, and when one has completed.

use vstd::prelude::*;

use crate::ipc::ServiceCommand;

verus! {

/// Why a queue cannot be made.
#[derive(Clone, Copy, Debug, PartialEq, Eq, Structural)]
pub struct ZeroCapacity;

impl ZeroCapacity {
    /// Describes the error.
    pub fn message(&self) -> (message: String)
        ensures
            message@ == "FSM channel capacity must be nonzero"@,
    {
        "FSM channel capacity must be nonzero".to_owned()
    }
}

/// The generations of synchronization requests.
#[derive(Clone, Copy, Debug, PartialEq, Eq, Structural)]
pub struct SyncQueue {
    /// Whether a synchronization has been accepted and has not ended.
    pub sync_pending: bool,
    /// The generation that was given out last.
    pub last_generation: u64,
    /// The generation of the synchronization that was accepted last.
    pub pending_generation: u64,
    /// The generation of the synchronization that ended last.
    pub completed_generation: u64,
}

/// Whether the generations are in order: none is in use that was not given out, and while a
/// synchronization is pending, its generation has not completed.
pub open spec fn well_formed(queue: SyncQueue) -> bool {
    &&& queue.pending_generation <= queue.last_generation
    &&& queue.completed_generation <= queue.pending_generation
    &&& queue.sync_pending ==> queue.completed_generation < queue.pending_generation
}

/// What becomes of a command.
#[derive(Clone, Copy, Debug, PartialEq, Eq, Structural)]
pub enum Admission {
    /// It is sent to the owner; a synchronization under a generation of its own.
    Send { generation: Option<u64> },
    /// It joins the pending synchronization, whose generation this is.
    Coalesced { generation: u64 },
}

/// The message that a client gets whose synchronization joined another.
pub open spec fn coalesced_text() -> Seq<char> {
    "sync already queued"@
}

/// Gives the message that a client gets whose synchronization joined another.
pub fn coalesced_message() -> (message: String)
    ensures
        message@ == coalesced_text(),
{
    "sync already queued".to_owned()
}

/// What becomes of a synchronization request.
pub open spec fn sync_admission(queue: SyncQueue) -> Admission {
    if queue.sync_pending {
        Admission::Coalesced { generation: queue.pending_generation }
    } else {
        Admission::Send { generation: Some((queue.last_generation + 1) as u64) }
    }
}

/// The queue after a synchronization request.
pub open spec fn after_sync_request(queue: SyncQueue) -> SyncQueue {
    let allocated = (queue.last_generation + 1) as u64;
    if queue.sync_pending {
        SyncQueue { last_generation: allocated, ..queue }
    } else {
        SyncQueue {
            sync_pending: true,
            last_generation: allocated,
            pending_generation: allocated,
            ..queue
        }
    }
}

/// The queue after the end of a synchronization.
pub open spec fn after_completion(queue: SyncQueue, generation: u64) -> SyncQueue {
    SyncQueue { sync_pending: false, completed_generation: generation, ..queue }
}

impl SyncQueue {
    /// Makes a queue for a channel of some capacity.
    pub fn new(capacity: usize) -> (result: Result<SyncQueue, ZeroCapacity>)
        ensures
            result == if capacity == 0 {
                Err::<SyncQueue, ZeroCapacity>(ZeroCapacity)
            } else {
                Ok::<SyncQueue, ZeroCapacity>(
                    SyncQueue {
                        sync_pending: false,
                        last_generation: 0,
                        pending_generation: 0,
                        completed_generation: 0,
                    },
                )
            },
            result is Ok ==> well_formed(result->Ok_0),
    {
        if capacity == 0 {
            return Err(ZeroCapacity);
        }
        Ok(
            SyncQueue {
                sync_pending: false,
                last_generation: 0,
                pending_generation: 0,
                completed_generation: 0,
            },
        )
    }

    /// Accepts a command, or lets it join the pending synchronization.
    pub fn enqueue_with_generation(&mut self, command: &ServiceCommand) -> (admission: Admission)
        requires
            well_formed(*old(self)),
            old(self).last_generation < u64::MAX,
        ensures
            well_formed(*final(self)),
            *command is TriggerSync ==> admission == sync_admission(*old(self)) && *final(self)
                == after_sync_request(*old(self)),
            !(*command is TriggerSync) ==> admission == (Admission::Send { generation: None })
                && *final(self) == *old(self),
    {
        match command {
            ServiceCommand::TriggerSync => {
                let allocated: u64 = self.last_generation + 1;
                self.last_generation = allocated;
                if self.sync_pending {
                    return Admission::Coalesced { generation: self.pending_generation };
                }
                self.sync_pending = true;
                self.pending_generation = allocated;
                Admission::Send { generation: Some(allocated) }
            },
            _ => Admission::Send { generation: None },
        }
    }

    /// Takes back an accepted synchronization that could not be sent.
    pub fn send_failed(&mut self, admission: Admission)
        requires
            well_formed(*old(self)),
        ensures
            well_formed(*final(self)),
            *final(self) == if admission matches Admission::Send { generation: Some(_) } {
                SyncQueue { sync_pending: false, ..*old(self) }
            } else {
                *old(self)
            },
    {
        match admission {
            Admission::Send { generation: Some(_) } => {
                self.sync_pending = false;
            },
            _ => {},
        }
    }

    /// Notes that the owner has answered a command that was sent under this generation.
    pub fn complete(&mut self, generation: Option<u64>)
        requires
            well_formed(*old(self)),
            generation is Some ==> old(self).sync_pending && generation->0
                == old(self).pending_generation,
        ensures
            well_formed(*final(self)),
            *final(self) == match generation {
                Some(generation) => after_completion(*old(self), generation),
                None => *old(self),
            },
    {
        match generation {
            Some(generation) => {
                self.sync_pending = false;
                self.completed_generation = generation;
            },
            None => {},
        }
    }

    /// Whether the synchronization of a generation has ended.
    pub fn has_completed(&self, target: u64) -> (completed: bool)
        ensures
            completed == (self.completed_generation >= target),
    {
        self.completed_generation >= target
    }
}

/// The generation under which a request is served.
pub open spec fn target_of(admission: Admission) -> Option<u64> {
    match admission {
        Admission::Send { generation } => generation,
        Admission::Coalesced { generation } => Some(generation),
    }
}

/// Two requests for a synchronization, the second before the first has ended, wait for the same
/// one: the second joins the first, whether or not other commands come in between. Its end
/// satisfies both, also if it comes before they begin to wait.
pub proof fn requests_before_completion_share_a_synchronization(queue: SyncQueue)
    requires
        well_formed(queue),
        queue.last_generation < u64::MAX,
    ensures
        ({
            let first = target_of(sync_admission(queue));
            let between = after_sync_request(queue);
            let second = sync_admission(between);
            let ended = after_completion(between, between.pending_generation);
            &&& second is Coalesced
            &&& first is Some
            &&& target_of(second) == first
            &&& ended.completed_generation >= first->0
            &&& !ended.sync_pending
        }),
{
}

/// Once a synchronization has ended, the next request starts another, under a later generation
/// that has not completed.
pub proof fn requests_after_completion_start_anew(queue: SyncQueue)
    requires
        well_formed(queue),
        queue.sync_pending,
        queue.last_generation < u64::MAX,
    ensures
        ({
            let ended = after_completion(queue, queue.pending_generation);
            let next = sync_admission(ended);
            &&& next is Send
            &&& next->Send_generation is Some
            &&& next->Send_generation->0 > queue.last_generation
            &&& ended.completed_generation < next->Send_generation->0
        }),
{
}

/// Where a status request is answered.
#[derive(Clone, Copy, Debug, PartialEq, Eq, Structural)]
pub enum StatusRoute {
    /// From the channel that the running service publishes to.
    Published,
    /// From the snapshot that the queue was made with.
    Snapshot,
    /// By the owner, in turn.
    Owner,
}

/// Where a status request is answered, given what is there to answer it from.
pub open spec fn route_of(published: bool, snapshot: bool) -> StatusRoute {
    if published {
        StatusRoute::Published
    } else if snapshot {
        StatusRoute::Snapshot
    } else {
        StatusRoute::Owner
    }
}

/// Decides where a status request is answered.
pub fn request_status(published: bool, snapshot: bool) -> (route: StatusRoute)
    ensures
        route == route_of(published, snapshot),
{
    if published {
        StatusRoute::Published
    } else if snapshot {
        StatusRoute::Snapshot
    } else {
        StatusRoute::Owner
    }
}

/// How a command is answered.
#[derive(Clone, Copy, Debug, PartialEq, Eq, Structural)]
pub enum RequestRoute {
    /// It is a status request.
    Status { full: bool },
    /// It goes through the queue.
    Queue,
}

/// Decides how a command is answered.
pub fn route_request(command: &ServiceCommand) -> (route: RequestRoute)
    ensures
        route == match *command {
            ServiceCommand::GetStatus => RequestRoute::Status { full: false },
            ServiceCommand::GetStatusFull => RequestRoute::Status { full: true },
            _ => RequestRoute::Queue,
        },
{
    match command {
        ServiceCommand::GetStatus => RequestRoute::Status { full: false },
        ServiceCommand::GetStatusFull => RequestRoute::Status { full: true },
        _ => RequestRoute::Queue,
    }
}

/// Every request to synchronize is given a generation to wait for that has not completed: a new one,
/// or the one that is pending. The generation that is pending completes all requests that wait for
/// it, and no later one.
pub proof fn requests_wait_for_what_is_pending(queue: SyncQueue)
    requires
        well_formed(queue),
        queue.last_generation < u64::MAX,
    ensures
        ({
            let admission = sync_admission(queue);
            let after = after_sync_request(queue);
            let target = target_of(admission);
            &&& target is Some
            &&& target->0 == after.pending_generation
            &&& target->0 > queue.completed_generation
            &&& after.sync_pending
            &&& after.last_generation == queue.last_generation + 1
            &&& admission is Coalesced <==> queue.sync_pending
            &&& queue.sync_pending ==> after.pending_generation == queue.pending_generation
            &&& !queue.sync_pending ==> after.pending_generation == after.last_generation
            &&& after.completed_generation == queue.completed_generation
            &&& after_completion(after, target->0).completed_generation == target->0
            &&& !after_completion(after, target->0).sync_pending
            &&& after_completion(after, target->0).last_generation == after.last_generation
        }),
{
}

/// A question about the status goes to what is published, failing that to the snapshot, and failing
/// that to the owner.
pub proof fn published_status_goes_first(snapshot: bool)
    ensures
        route_of(true, snapshot) == StatusRoute::Published,
        route_of(false, true) == StatusRoute::Snapshot,
        route_of(false, false) == StatusRoute::Owner,
{
}

} // verus!
