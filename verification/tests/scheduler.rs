use snipespotter::fsm::{Admission, SyncQueue};
use snipespotter::ipc::ServiceCommand;
use snipespotter::model::Timestamp;
use snipespotter::scheduler::{
    arm_on_settings_change, project_next_sync, rfc3339_from_instant, run_scheduler, ArmDecision,
    Publication, SchedulerEvent, SchedulerPhase, SchedulerStep,
};
use snipespotter::status::ScheduleInput;

const SECOND: u64 = 1_000_000_000;

#[test]
fn scheduler_activation_and_completion_cadence() {
    let completed_at: u64 = 5 * SECOND;
    let interval: u64 = 7;
    let armed = project_next_sync(true, interval, completed_at, 1, 1);
    let deadline = armed.expect("configured schedule must arm");
    assert_eq!(
        deadline - u128::from(completed_at),
        u128::from(interval * SECOND)
    );
    assert!(project_next_sync(false, interval, completed_at, 1, 1).is_none());
    assert!(project_next_sync(true, interval, completed_at, 2, 1).is_none());
    assert!(project_next_sync(true, 0, completed_at, 1, 1).is_none());
}

#[test]
fn scheduler_config_reset_matrix() {
    let hour = 3600;
    assert_eq!(
        arm_on_settings_change(false, true, hour, hour),
        ArmDecision::ArmFromNow
    );
    assert_eq!(
        arm_on_settings_change(true, false, hour, hour),
        ArmDecision::Cleared
    );
    assert_eq!(
        arm_on_settings_change(true, true, hour, 60),
        ArmDecision::ArmFromNow
    );
    assert_eq!(
        arm_on_settings_change(true, true, hour, hour),
        ArmDecision::Unchanged
    );
    assert_eq!(
        arm_on_settings_change(false, false, hour, hour),
        ArmDecision::Unchanged
    );
    assert_eq!(
        arm_on_settings_change(false, true, hour, hour),
        arm_on_settings_change(false, true, hour, 0)
    );
}

#[test]
fn deadlines_are_written_as_instants() {
    let wall = Timestamp {
        seconds: 1_767_225_600,
        nanos: 0,
    };
    assert_eq!(
        rfc3339_from_instant(u128::from(10 * SECOND), 7 * SECOND, wall),
        "2026-01-01T00:00:03+00:00"
    );
    assert_eq!(
        rfc3339_from_instant(u128::from(SECOND), 7 * SECOND, wall),
        "2026-01-01T00:00:00+00:00"
    );
}

#[test]
fn a_schedule_runs_from_activation_to_completion() {
    let input = ScheduleInput {
        configured: true,
        interval: 60,
        generation: 3,
    };
    let armed = run_scheduler(
        SchedulerPhase::Reading,
        SchedulerEvent::Input { input, now: 0 },
    );
    let deadline = u128::from(60 * SECOND);
    assert_eq!(
        armed,
        SchedulerStep {
            phase: SchedulerPhase::Armed {
                generation: 3,
                deadline
            },
            publication: Some(Publication {
                generation: 3,
                deadline: Some(deadline)
            }),
        }
    );
    let due = run_scheduler(armed.phase, SchedulerEvent::Due);
    assert_eq!(due.phase, SchedulerPhase::Submitting { generation: 3 });
    let accepted = run_scheduler(due.phase, SchedulerEvent::Accepted { target: 9 });
    assert_eq!(accepted.phase, SchedulerPhase::Completing { target: 9 });
    let completed = run_scheduler(accepted.phase, SchedulerEvent::Completed);
    assert_eq!(completed.phase, SchedulerPhase::Reading);
    let again = run_scheduler(
        completed.phase,
        SchedulerEvent::Input {
            input,
            now: 90 * SECOND,
        },
    );
    assert_eq!(
        again.phase,
        SchedulerPhase::Armed {
            generation: 3,
            deadline: u128::from(150 * SECOND)
        }
    );
    let closed = run_scheduler(again.phase, SchedulerEvent::Closed);
    assert_eq!(closed.phase, SchedulerPhase::Stopped);
}

#[test]
fn an_unconfigured_schedule_waits() {
    let input = ScheduleInput {
        configured: false,
        interval: 60,
        generation: 4,
    };
    let waiting = run_scheduler(
        SchedulerPhase::Reading,
        SchedulerEvent::Input { input, now: 0 },
    );
    assert_eq!(waiting.phase, SchedulerPhase::Waiting);
    assert_eq!(
        run_scheduler(waiting.phase, SchedulerEvent::Changed).phase,
        SchedulerPhase::Reading
    );
}

#[test]
fn scheduler_clock_and_closed_channel() {
    let input = |configured: bool, generation: u64| ScheduleInput {
        configured,
        interval: 1,
        generation,
    };
    let mut phase = SchedulerPhase::Reading;
    for event in [
        SchedulerEvent::Input {
            input: input(false, 1),
            now: 0,
        },
        SchedulerEvent::Changed,
        SchedulerEvent::Input {
            input: input(false, 2),
            now: 1_000_000,
        },
        SchedulerEvent::Closed,
    ] {
        phase = run_scheduler(phase, event).phase;
    }
    assert_eq!(phase, SchedulerPhase::Stopped);

    let armed = run_scheduler(
        SchedulerPhase::Reading,
        SchedulerEvent::Input {
            input: input(true, 1),
            now: 0,
        },
    );
    assert!(matches!(armed.phase, SchedulerPhase::Armed { .. }));
    assert_eq!(
        run_scheduler(armed.phase, SchedulerEvent::Closed).phase,
        SchedulerPhase::Stopped
    );
}

#[test]
fn scheduler_manual_and_coalesced_generation() {
    let mut queue = SyncQueue::new(4).expect("there is room");
    let Admission::Send {
        generation: Some(first),
    } = queue.enqueue_with_generation(&ServiceCommand::TriggerSync)
    else {
        panic!("the first request is sent");
    };
    assert_eq!(
        queue.enqueue_with_generation(&ServiceCommand::TriggerSync),
        Admission::Coalesced { generation: first }
    );
    queue.complete(Some(first));
    assert!(queue.has_completed(first));
}

#[test]
fn scheduler_scheduler_completion_before_wait_is_not_lost() {
    let mut queue = SyncQueue::new(4).expect("there is room");
    let Admission::Send {
        generation: Some(target),
    } = queue.enqueue_with_generation(&ServiceCommand::TriggerSync)
    else {
        panic!("the request is sent");
    };
    queue.complete(Some(target));
    assert!(queue.has_completed(target));
    let waiting = SchedulerPhase::Completing { target };
    assert_eq!(
        run_scheduler(waiting, SchedulerEvent::Completed).phase,
        SchedulerPhase::Reading
    );
}
