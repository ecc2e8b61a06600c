use snipespotter::fsm::{
    coalesced_message, request_status, route_request, Admission, RequestRoute, StatusRoute,
    SyncQueue, ZeroCapacity,
};
use snipespotter::ipc::ServiceCommand;

#[test]
fn rejects_zero_capacity() {
    assert!(SyncQueue::new(0).is_err());
}

#[test]
fn a_queue_without_room_is_described() {
    assert_eq!(SyncQueue::new(0), Err(ZeroCapacity));
    assert!(!ZeroCapacity.message().is_empty());
}

#[test]
fn synchronizations_coalesce_until_they_complete() {
    let mut queue = SyncQueue::new(4).expect("there is room");
    let first = queue.enqueue_with_generation(&ServiceCommand::TriggerSync);
    assert_eq!(first, Admission::Send { generation: Some(1) });
    assert_eq!(
        queue.enqueue_with_generation(&ServiceCommand::TriggerSync),
        Admission::Coalesced { generation: 1 }
    );
    assert_eq!(
        queue.enqueue_with_generation(&ServiceCommand::GetConfig),
        Admission::Send { generation: None }
    );
    assert!(!queue.has_completed(1));
    queue.complete(Some(1));
    assert!(queue.has_completed(1));
    assert_eq!(
        queue.enqueue_with_generation(&ServiceCommand::TriggerSync),
        Admission::Send { generation: Some(3) }
    );
    assert!(coalesced_message().contains("already"));
}

#[test]
fn a_request_that_was_not_sent_is_forgotten() {
    let mut queue = SyncQueue::new(1).expect("there is room");
    let admission = queue.enqueue_with_generation(&ServiceCommand::TriggerSync);
    queue.send_failed(admission);
    assert!(matches!(
        queue.enqueue_with_generation(&ServiceCommand::TriggerSync),
        Admission::Send { generation: Some(_) }
    ));
}

#[test]
fn status_requests_do_not_wait_for_the_owner() {
    assert_eq!(
        route_request(&ServiceCommand::GetStatus),
        RequestRoute::Status { full: false }
    );
    assert_eq!(
        route_request(&ServiceCommand::GetStatusFull),
        RequestRoute::Status { full: true }
    );
    assert_eq!(route_request(&ServiceCommand::TriggerSync), RequestRoute::Queue);
    assert_eq!(request_status(true, true), StatusRoute::Published);
    assert_eq!(request_status(false, true), StatusRoute::Snapshot);
    assert_eq!(request_status(false, false), StatusRoute::Owner);
}

#[test]
fn coalesces_sync_until_committed_handler_finishes() {
    let mut queue = SyncQueue::new(2).expect("there is room");
    let Admission::Send {
        generation: Some(first),
    } = queue.enqueue_with_generation(&ServiceCommand::TriggerSync)
    else {
        panic!("the first request is sent");
    };
    assert_eq!(
        queue.enqueue_with_generation(&ServiceCommand::TriggerSync),
        Admission::Coalesced { generation: first }
    );
    assert_eq!(coalesced_message(), "sync already queued");
    queue.complete(Some(first));
    assert!(matches!(
        queue.enqueue_with_generation(&ServiceCommand::TriggerSync),
        Admission::Send {
            generation: Some(_)
        }
    ));
}

#[test]
fn fsm_scheduler_completion_before_wait_is_not_lost() {
    let mut queue = SyncQueue::new(2).expect("there is room");
    let Admission::Send {
        generation: Some(target),
    } = queue.enqueue_with_generation(&ServiceCommand::TriggerSync)
    else {
        panic!("the request is sent");
    };
    assert!(!queue.has_completed(target));
    queue.complete(Some(target));
    assert!(queue.has_completed(target));
}
