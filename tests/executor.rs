use ruin::executor::{Executor, IdleAction, PollOutcome, TaskId, TaskIds, MAX_PROCESSES};

#[test]
fn spawn_order_is_poll_order() {
    let mut ids = TaskIds::new();
    let mut exec: Executor<&str, u32> = Executor::new();
    let a = ids.next_id();
    let b = ids.next_id();
    exec.spawn(a, "a");
    exec.spawn(b, "b");
    let (id, task, waker) = exec.next_ready().unwrap();
    assert_eq!((id, task, waker), (a, "a", None));
    exec.finish_poll(id, task, 0, PollOutcome::Ready);
    let (id, task, _) = exec.next_ready().unwrap();
    assert_eq!((id, task), (b, "b"));
    exec.finish_poll(id, task, 0, PollOutcome::Ready);
    assert!(exec.next_ready().is_none());
    assert_eq!(exec.task_count(), 0);
}

#[test]
fn single_wake_requeues_once() {
    let mut exec: Executor<u8, u32> = Executor::new();
    let t = TaskId(7);
    exec.spawn(t, 1);
    let (id, task, waker) = exec.next_ready().unwrap();
    assert_eq!(waker, None);
    exec.finish_poll(id, task, 77, PollOutcome::Pending);
    assert!(exec.next_ready().is_none());
    assert_eq!(exec.idle_action(), IdleAction::Sleep);
    assert!(exec.wake(t));
    assert_eq!(exec.idle_action(), IdleAction::Resume);
    let (id, task, waker) = exec.next_ready().unwrap();
    assert_eq!((id, task, waker), (t, 1, Some(77)));
    exec.finish_poll(id, task, 77, PollOutcome::Ready);
    assert!(exec.next_ready().is_none());
}

#[test]
fn stale_ids_are_skipped() {
    let mut exec: Executor<u8, u32> = Executor::new();
    exec.spawn(TaskId(1), 10);
    exec.spawn(TaskId(2), 20);
    let (id, task, _) = exec.next_ready().unwrap();
    // the task wakes itself while it is polled, then completes
    assert!(exec.wake(id));
    exec.finish_poll(id, task, 0, PollOutcome::Ready);
    let (id, task, _) = exec.next_ready().unwrap();
    assert_eq!((id, task), (TaskId(2), 20));
    exec.finish_poll(id, task, 0, PollOutcome::Ready);
    assert!(exec.next_ready().is_none());
}

#[test]
fn duplicate_or_full_spawn_is_refused() {
    let mut exec: Executor<u8, u32> = Executor::new();
    assert!(exec.can_spawn(TaskId(3)));
    exec.spawn(TaskId(3), 0);
    assert!(!exec.can_spawn(TaskId(3)));
    for i in 1..MAX_PROCESSES as u64 {
        exec.spawn(TaskId(100 + i), 0);
    }
    assert!(!exec.can_spawn(TaskId(99)));
}

#[test]
fn wake_on_full_queue_drops_id() {
    let mut exec: Executor<u8, u32> = Executor::new();
    for i in 0..MAX_PROCESSES as u64 {
        exec.spawn(TaskId(i), 0);
    }
    assert!(!exec.wake(TaskId(0)));
    let mut polled = 0;
    while let Some((id, task, _)) = exec.next_ready() {
        exec.finish_poll(id, task, 0, PollOutcome::Ready);
        polled += 1;
    }
    assert_eq!(polled, MAX_PROCESSES);
}

#[test]
fn idle_action_on_empty_executor_is_sleep() {
    let exec: Executor<u8, u32> = Executor::new();
    assert_eq!(exec.idle_action(), IdleAction::Sleep);
}

#[test]
fn task_ids_increase() {
    let mut ids = TaskIds::new();
    assert_eq!(ids.next_id(), TaskId(0));
    assert_eq!(ids.next_id(), TaskId(1));
    assert_eq!(ids.next_id(), TaskId(2));
}
