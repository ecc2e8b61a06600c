//! Automatic synchronization: one per interval, counted from activation or from the end of the
//! last one.
//!
//! Instants of the monotonic clock are nanoseconds since some fixed start; intervals are whole
//! seconds.

use vstd::prelude::*;

use crate::instant;
use crate::model::Timestamp;
use crate::status::ScheduleInput;

verus! {

/// The nanoseconds in a second.
pub const NANOS_PER_SECOND: u128 = 1_000_000_000;

/// The longest delay that can be projected onto the calendar, in nanoseconds: `i64::MAX`
/// milliseconds.
pub const LONGEST_DELAY: u128 = 9_223_372_036_854_775_807_000_000;

/// The instant one interval after another.
pub open spec fn deadline_after(moment: u64, interval: u64) -> int {
    moment + interval * NANOS_PER_SECOND
}

/// The delay that is projected for a deadline: none if it has passed or is too far away for the
/// calendar.
pub open spec fn projected_delay(deadline: u128, now: u64) -> int {
    if deadline <= now || deadline - now > LONGEST_DELAY {
        0
    } else {
        deadline - now
    }
}

/// The second in which a wall-clock instant lies after a delay.
pub open spec fn delayed_second(wall: Timestamp, delay: int) -> int {
    wall.seconds + (wall.nanos + delay) / NANOS_PER_SECOND as int
}

/// The nanoseconds after that second.
pub open spec fn delayed_nanos(wall: Timestamp, delay: int) -> int {
    (wall.nanos + delay) % (NANOS_PER_SECOND as int)
}

/// Renders the wall-clock instant of a deadline. `now` and `wall` are the same instant on the
/// monotonic clock and on the wall clock.
pub fn rfc3339_from_instant(deadline: u128, now: u64, wall: Timestamp) -> (text: String)
    requires
        instant::valid_instant(wall),
        wall.nanos < NANOS_PER_SECOND,
        delayed_second(wall, projected_delay(deadline, now)) <= instant::LAST_SECOND,
    ensures
        text@ == instant::offset_text(
            delayed_second(wall, projected_delay(deadline, now)) as i64,
            delayed_nanos(wall, projected_delay(deadline, now)) as u32,
        ),
{
    let current: u128 = now as u128;
    let delay: u128 = if deadline <= current || deadline - current > LONGEST_DELAY {
        0
    } else {
        deadline - current
    };
    let total: u128 = wall.nanos as u128 + delay;
    let seconds: i64 = (total / NANOS_PER_SECOND) as i64;
    let nanos: u32 = (total % NANOS_PER_SECOND) as u32;
    let moment = Timestamp { seconds: wall.seconds + seconds, nanos };
    instant::to_rfc3339(moment)
}

/// The deadline of the next automatic synchronization, if there is one: the service is configured
/// with an interval, and the configuration is the one that was observed.
pub open spec fn next_deadline(
    configured: bool,
    interval: u64,
    completed_at: u64,
    observed_generation: u64,
    current_generation: u64,
) -> Option<int> {
    if configured && observed_generation == current_generation && interval != 0 {
        Some(deadline_after(completed_at, interval))
    } else {
        None
    }
}

/// Projects the next automatic synchronization onto the monotonic clock.
pub fn project_next_sync(
    configured: bool,
    interval: u64,
    completed_at: u64,
    observed_generation: u64,
    current_generation: u64,
) -> (deadline: Option<u128>)
    ensures
        match deadline {
            Some(deadline) => next_deadline(
                configured,
                interval,
                completed_at,
                observed_generation,
                current_generation,
            ) == Some(deadline as int),
            None => next_deadline(
                configured,
                interval,
                completed_at,
                observed_generation,
                current_generation,
            ) is None,
        },
{
    if !configured || observed_generation != current_generation {
        return None;
    }
    if interval == 0 {
        return None;
    }
    let length: u128 = interval as u128 * NANOS_PER_SECOND;
    Some(completed_at as u128 + length)
}

/// What a change of settings does to the automatic schedule.
#[derive(Clone, Copy, Debug, PartialEq, Eq, Structural)]
pub enum ArmDecision {
    /// The schedule stays.
    Unchanged,
    /// A full interval begins.
    ArmFromNow,
    /// There is no schedule any more.
    Cleared,
}

/// What a change of settings does to the automatic schedule: only a change of the interval and
/// the step from or to being configured touch it.
pub open spec fn arming(
    previously_configured: bool,
    now_configured: bool,
    previous_interval: u64,
    new_interval: u64,
) -> ArmDecision {
    if previously_configured && !now_configured {
        ArmDecision::Cleared
    } else if now_configured && (!previously_configured || previous_interval != new_interval) {
        ArmDecision::ArmFromNow
    } else {
        ArmDecision::Unchanged
    }
}

/// Decides what a change of settings does to the automatic schedule.
pub fn arm_on_settings_change(
    previously_configured: bool,
    now_configured: bool,
    previous_interval: u64,
    new_interval: u64,
) -> (decision: ArmDecision)
    ensures
        decision == arming(
            previously_configured,
            now_configured,
            previous_interval,
            new_interval,
        ),
{
    if previously_configured && !now_configured {
        return ArmDecision::Cleared;
    }
    if !previously_configured && now_configured {
        return ArmDecision::ArmFromNow;
    }
    if now_configured && previous_interval != new_interval {
        return ArmDecision::ArmFromNow;
    }
    ArmDecision::Unchanged
}

// ---------------------------------------------------------------------------------------------
// The scheduler
// ---------------------------------------------------------------------------------------------

/// Where the scheduler stands.
#[derive(Clone, Copy, Debug, PartialEq, Eq, Structural)]
pub enum SchedulerPhase {
    /// It is about to read its input.
    Reading,
    /// There is nothing to schedule; it waits for another input.
    Waiting,
    /// It waits for the deadline, or for another input.
    Armed { generation: u64, deadline: u128 },
    /// It submits a synchronization.
    Submitting { generation: u64 },
    /// It waits for the end of a synchronization.
    Completing { target: u64 },
    /// It has stopped.
    Stopped,
}

/// What the scheduler is told.
#[derive(Clone, Copy, Debug, PartialEq, Eq, Structural)]
pub enum SchedulerEvent {
    /// The input as it is at the monotonic instant `now`.
    Input { input: ScheduleInput, now: u64 },
    /// The input has changed.
    Changed,
    /// The deadline has come.
    Due,
    /// The synchronization was accepted, or joined one that was, under this generation.
    Accepted { target: u64 },
    /// The synchronization has ended.
    Completed,
    /// A channel that the scheduler needs is closed.
    Closed,
}

/// What the scheduler publishes: the deadline of the next synchronization, if there is one.
#[derive(Clone, Copy, Debug, PartialEq, Eq, Structural)]
pub struct Publication {
    pub generation: u64,
    pub deadline: Option<u128>,
}

/// One step of the scheduler: where it stands next, and what it publishes.
#[derive(Clone, Copy, Debug, PartialEq, Eq, Structural)]
pub struct SchedulerStep {
    pub phase: SchedulerPhase,
    pub publication: Option<Publication>,
}

/// The step to a phase that publishes nothing.
pub open spec fn quiet(phase: SchedulerPhase) -> SchedulerStep {
    SchedulerStep { phase, publication: None }
}

/// What the scheduler does with its input.
pub open spec fn evaluated(input: ScheduleInput, now: u64) -> SchedulerStep {
    if !input.configured {
        SchedulerStep {
            phase: SchedulerPhase::Waiting,
            publication: Some(Publication { generation: input.generation, deadline: None }),
        }
    } else if input.interval == 0 {
        quiet(SchedulerPhase::Waiting)
    } else {
        let deadline = deadline_after(now, input.interval) as u128;
        SchedulerStep {
            phase: SchedulerPhase::Armed { generation: input.generation, deadline },
            publication: Some(
                Publication { generation: input.generation, deadline: Some(deadline) },
            ),
        }
    }
}

/// The step that an event makes. Events that do not belong to the phase change nothing.
pub open spec fn scheduler_step(phase: SchedulerPhase, event: SchedulerEvent) -> SchedulerStep {
    match phase {
        SchedulerPhase::Reading => match event {
            SchedulerEvent::Input { input, now } => evaluated(input, now),
            SchedulerEvent::Closed => quiet(SchedulerPhase::Stopped),
            _ => quiet(phase),
        },
        SchedulerPhase::Waiting => match event {
            SchedulerEvent::Changed => quiet(SchedulerPhase::Reading),
            SchedulerEvent::Closed => quiet(SchedulerPhase::Stopped),
            _ => quiet(phase),
        },
        SchedulerPhase::Armed { generation, deadline } => match event {
            SchedulerEvent::Changed => quiet(SchedulerPhase::Reading),
            SchedulerEvent::Due => SchedulerStep {
                phase: SchedulerPhase::Submitting { generation },
                publication: Some(Publication { generation, deadline: None }),
            },
            SchedulerEvent::Closed => quiet(SchedulerPhase::Stopped),
            _ => quiet(phase),
        },
        SchedulerPhase::Submitting { generation } => match event {
            SchedulerEvent::Accepted { target } => quiet(SchedulerPhase::Completing { target }),
            SchedulerEvent::Closed => SchedulerStep {
                phase: SchedulerPhase::Stopped,
                publication: Some(Publication { generation, deadline: None }),
            },
            _ => quiet(phase),
        },
        SchedulerPhase::Completing { target } => match event {
            SchedulerEvent::Completed => quiet(SchedulerPhase::Reading),
            SchedulerEvent::Closed => quiet(SchedulerPhase::Stopped),
            _ => quiet(phase),
        },
        SchedulerPhase::Stopped => quiet(phase),
    }
}

fn silent(phase: SchedulerPhase) -> (step: SchedulerStep)
    ensures
        step == quiet(phase),
{
    SchedulerStep { phase, publication: None }
}

fn evaluate(input: ScheduleInput, now: u64) -> (step: SchedulerStep)
    ensures
        step == evaluated(input, now),
{
    if !input.configured {
        return SchedulerStep {
            phase: SchedulerPhase::Waiting,
            publication: Some(Publication { generation: input.generation, deadline: None }),
        };
    }
    match project_next_sync(true, input.interval, now, input.generation, input.generation) {
        None => silent(SchedulerPhase::Waiting),
        Some(deadline) => SchedulerStep {
            phase: SchedulerPhase::Armed { generation: input.generation, deadline },
            publication: Some(
                Publication { generation: input.generation, deadline: Some(deadline) },
            ),
        },
    }
}

/// Advances the scheduler.
pub fn run_scheduler(phase: SchedulerPhase, event: SchedulerEvent) -> (step: SchedulerStep)
    ensures
        step == scheduler_step(phase, event),
{
    match phase {
        SchedulerPhase::Reading => match event {
            SchedulerEvent::Input { input, now } => evaluate(input, now),
            SchedulerEvent::Closed => silent(SchedulerPhase::Stopped),
            _ => silent(phase),
        },
        SchedulerPhase::Waiting => match event {
            SchedulerEvent::Changed => silent(SchedulerPhase::Reading),
            SchedulerEvent::Closed => silent(SchedulerPhase::Stopped),
            _ => silent(phase),
        },
        SchedulerPhase::Armed { generation, deadline: _ } => match event {
            SchedulerEvent::Changed => silent(SchedulerPhase::Reading),
            SchedulerEvent::Due => SchedulerStep {
                phase: SchedulerPhase::Submitting { generation },
                publication: Some(Publication { generation, deadline: None }),
            },
            SchedulerEvent::Closed => silent(SchedulerPhase::Stopped),
            _ => silent(phase),
        },
        SchedulerPhase::Submitting { generation } => match event {
            SchedulerEvent::Accepted { target } => silent(SchedulerPhase::Completing { target }),
            SchedulerEvent::Closed => SchedulerStep {
                phase: SchedulerPhase::Stopped,
                publication: Some(Publication { generation, deadline: None }),
            },
            _ => silent(phase),
        },
        SchedulerPhase::Completing { target: _ } => match event {
            SchedulerEvent::Completed => silent(SchedulerPhase::Reading),
            SchedulerEvent::Closed => silent(SchedulerPhase::Stopped),
            _ => silent(phase),
        },
        SchedulerPhase::Stopped => silent(phase),
    }
}

/// Where the scheduler stands after some events.
pub open spec fn phase_after(events: Seq<SchedulerEvent>) -> SchedulerPhase
    decreases events.len(),
{
    if events.len() == 0 {
        SchedulerPhase::Reading
    } else {
        scheduler_step(phase_after(events.drop_last()), events.last()).phase
    }
}

/// What the scheduler has published last after some events.
pub open spec fn published_after(events: Seq<SchedulerEvent>) -> Option<Publication>
    decreases events.len(),
{
    if events.len() == 0 {
        None
    } else {
        let step = scheduler_step(phase_after(events.drop_last()), events.last());
        if step.publication is Some {
            step.publication
        } else {
            published_after(events.drop_last())
        }
    }
}

/// How many synchronizations the scheduler has submitted after some events.
pub open spec fn submissions(events: Seq<SchedulerEvent>) -> nat
    decreases events.len(),
{
    if events.len() == 0 {
        0
    } else {
        let before = phase_after(events.drop_last());
        submissions(events.drop_last()) + if before is Armed && events.last() is Due {
            1nat
        } else {
            0
        }
    }
}

/// How many times the scheduler has been armed after some events.
pub open spec fn armings(events: Seq<SchedulerEvent>) -> nat
    decreases events.len(),
{
    if events.len() == 0 {
        0
    } else {
        let before = phase_after(events.drop_last());
        armings(events.drop_last()) + if before is Reading && phase_after(events) is Armed {
            1nat
        } else {
            0
        }
    }
}

/// While the scheduler waits for a deadline, it is that deadline that is published; while a
/// synchronization is submitted or runs, none is.
pub proof fn published_schedule_is_truthful(events: Seq<SchedulerEvent>)
    ensures
        match phase_after(events) {
            SchedulerPhase::Armed { generation, deadline } => published_after(events) == Some(
                Publication { generation, deadline: Some(deadline) },
            ),
            SchedulerPhase::Submitting { generation } => published_after(events) == Some(
                Publication { generation, deadline: None },
            ),
            SchedulerPhase::Completing { .. } => published_after(events) is Some
                && published_after(events)->0.deadline is None,
            _ => true,
        },
    decreases events.len(),
{
    if events.len() > 0 {
        published_schedule_is_truthful(events.drop_last());
    }
}

/// Every submission uses up one full interval: the scheduler never submits more often than it was
/// armed, so nothing is caught up on.
pub proof fn submissions_never_outnumber_armings(events: Seq<SchedulerEvent>)
    ensures
        submissions(events) + if phase_after(events) is Armed {
            1nat
        } else {
            0
        } <= armings(events),
    decreases events.len(),
{
    if events.len() > 0 {
        submissions_never_outnumber_armings(events.drop_last());
    }
}

/// The end of a synchronization arms one full interval of the configuration that is then current.
pub proof fn completion_arms_a_full_interval(target: u64, input: ScheduleInput, now: u64)
    requires
        input.configured,
        input.interval != 0,
    ensures
        ({
            let reading = scheduler_step(
                SchedulerPhase::Completing { target },
                SchedulerEvent::Completed,
            ).phase;
            let armed = scheduler_step(reading, SchedulerEvent::Input { input, now }).phase;
            &&& armed is Armed
            &&& armed->Armed_generation == input.generation
            &&& armed->Armed_deadline == now + input.interval * NANOS_PER_SECOND
        }),
{
}

/// A change of the settings supersedes the schedule, whatever the scheduler waits for: the new
/// input is read, and the scheduler then waits for one full interval of it, from that moment on,
/// or for a configuration, with nothing scheduled. What was armed before is forgotten.
pub proof fn changes_supersede_the_schedule(
    phase: SchedulerPhase,
    other: SchedulerPhase,
    input: ScheduleInput,
    now: u64,
)
    requires
        phase is Armed || phase is Waiting,
        other is Armed || other is Waiting,
    ensures
        ({
            let reading = scheduler_step(phase, SchedulerEvent::Changed);
            let step = scheduler_step(reading.phase, SchedulerEvent::Input { input, now });
            &&& reading.phase == scheduler_step(other, SchedulerEvent::Changed).phase
            &&& input.configured && input.interval > 0 ==> {
                &&& step.phase is Armed
                &&& step.phase->Armed_generation == input.generation
                &&& step.phase->Armed_deadline == now + input.interval * 1_000_000_000
                &&& step.publication is Some
                &&& step.publication->0.generation == input.generation
                &&& step.publication->0.deadline == Some(step.phase->Armed_deadline)
            }
            &&& !input.configured ==> {
                &&& step.phase is Waiting
                &&& step.publication is Some
                &&& step.publication->0.generation == input.generation
                &&& step.publication->0.deadline is None
            }
            &&& input.configured && input.interval == 0 ==> {
                &&& step.phase is Waiting
                &&& step.publication is None
            }
        }),
{
}

/// A deadline leads to one submission, which is waited for: nothing is scheduled meanwhile, no
/// further deadline counts, and only the end of that synchronization lets the scheduler go on.
pub proof fn submissions_are_waited_for(
    generation: u64,
    deadline: u128,
    target: u64,
    event: SchedulerEvent,
)
    ensures
        ({
            let due = scheduler_step(
                SchedulerPhase::Armed { generation, deadline },
                SchedulerEvent::Due,
            );
            let accepted = scheduler_step(due.phase, SchedulerEvent::Accepted { target });
            let later = scheduler_step(accepted.phase, event);
            &&& due.phase is Submitting
            &&& due.publication is Some
            &&& due.publication->0.generation == generation
            &&& due.publication->0.deadline is None
            &&& accepted.phase == (SchedulerPhase::Completing { target })
            &&& accepted.publication is None
            &&& !(event is Completed) && !(event is Closed) ==> later.phase == accepted.phase
            &&& event is Completed ==> later.phase is Reading
            &&& later.publication is None
        }),
{
}

/// The scheduler ends when its channels close, whatever it does, and never otherwise; once it has
/// ended it does nothing more. A schedule that is being submitted is no longer announced.
pub proof fn schedulers_end_when_channels_close(phase: SchedulerPhase, event: SchedulerEvent)
    ensures
        scheduler_step(phase, SchedulerEvent::Closed).phase is Stopped,
        scheduler_step(phase, event).phase is Stopped ==> event is Closed || phase is Stopped,
        scheduler_step(phase, SchedulerEvent::Closed).publication is Some ==> scheduler_step(
            phase,
            SchedulerEvent::Closed,
        ).publication->0.deadline is None,
        phase is Submitting ==> scheduler_step(phase, SchedulerEvent::Closed).publication is Some,
        phase is Stopped ==> scheduler_step(phase, event).publication is None,
{
}

/// A submission comes from a deadline only, and a deadline from an input only: no other event makes
/// the scheduler submit, and none arms it.
pub proof fn only_deadlines_submit(phase: SchedulerPhase, event: SchedulerEvent)
    ensures
        scheduler_step(phase, event).phase is Submitting && !(phase is Submitting) ==> phase is Armed
            && event is Due,
        scheduler_step(phase, event).phase is Armed && scheduler_step(phase, event).phase != phase
            ==> phase is Reading && event is Input,
        phase is Armed && !(event is Changed) && !(event is Due) && !(event is Closed)
            ==> scheduler_step(phase, event).phase == phase,
        phase is Waiting && !(event is Changed) && !(event is Closed) ==> scheduler_step(
            phase,
            event,
        ).phase == phase,
{
}

/// Settings reset the deadline exactly if they configure the service, unconfigure it, or change the
/// interval of a configured one.
pub proof fn unrelated_settings_keep_the_deadline(
    before: bool,
    after: bool,
    old_interval: u64,
    interval: u64,
)
    ensures
        arming(before, after, old_interval, interval) is Unchanged <==> before == after && (
        old_interval == interval || !after),
        arming(before, after, old_interval, interval) is Cleared <==> before && !after,
{
}

/// A synchronization is projected exactly if the service is configured with an interval and the
/// schedule is of the current configuration; the deadline is then one interval after completion.
pub proof fn projections_are_one_interval_ahead(
    configured: bool,
    interval: u64,
    completed_at: u64,
    observed: u64,
    current: u64,
)
    ensures
        next_deadline(configured, interval, completed_at, observed, current) is Some <==> configured
            && interval > 0 && observed == current,
        next_deadline(configured, interval, completed_at, observed, current) is Some
            ==> next_deadline(configured, interval, completed_at, observed, current)->0
            == completed_at + interval * 1_000_000_000,
{
}

/// The instant of a deadline is as far from the time on the wall as the deadline is from the moment
/// at which it is read; a deadline that has passed is now.
pub proof fn deadlines_keep_their_distance(deadline: u128, now: u64, wall: Timestamp)
    requires
        wall.nanos < 1_000_000_000,
        deadline - now <= LONGEST_DELAY,
    ensures
        ({
            let delay = projected_delay(deadline, now);
            let second = delayed_second(wall, delay);
            let nanos = delayed_nanos(wall, delay);
            &&& delay == if deadline <= now {
                0int
            } else {
                deadline - now
            }
            &&& 0 <= nanos < 1_000_000_000
            &&& second * 1_000_000_000 + nanos == wall.seconds * 1_000_000_000 + wall.nanos + delay
        }),
{
}

} // verus!
