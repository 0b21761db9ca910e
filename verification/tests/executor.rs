use jura_os::task::executor::Executor;
use jura_os::task::Poll;

#[test]
fn new_executor_is_idle() {
    let mut executor: Executor<&str> = Executor::new();
    assert!(executor.is_idle());
    assert_eq!(executor.ready_count(), 0);
    assert!(executor.next_ready().is_none());
}

#[test]
fn spawn_mints_strictly_increasing_identities() {
    let mut executor: Executor<u32> = Executor::new();
    let first = executor.spawn(10);
    let second = executor.spawn(20);
    let third = executor.spawn(30);
    assert_eq!(first.as_u64(), 0);
    assert_eq!(second.as_u64(), 1);
    assert_eq!(third.as_u64(), 2);
    assert!(executor.has_task(first) && executor.has_task(second) && executor.has_task(third));
    assert_eq!(executor.ready_count(), 3);
    assert!(!executor.is_idle());
}

#[test]
fn task_completing_on_its_first_poll_is_gone_from_everything() {
    let mut executor: Executor<&str> = Executor::new();
    let id = executor.spawn("done at once");
    assert!(executor.has_task(id));
    assert!(executor.is_ready(id));
    let (task, handle) = executor.next_ready().unwrap();
    assert_eq!(task.id(), id);
    assert_eq!(handle.task_id(), id);
    assert!(executor.has_cached_handle(id));
    executor.settle(task, Poll::Ready(()));
    assert!(!executor.has_task(id));
    assert!(!executor.has_cached_handle(id));
    assert!(!executor.is_ready(id));
    assert!(executor.is_idle());
    // Its stale handle wakes nothing.
    executor.wake(&handle);
    assert!(!executor.is_ready(id));
    assert!(executor.is_idle());
    assert!(executor.next_ready().is_none());
    // Its identity is not used again.
    let next = executor.spawn("another");
    assert_ne!(next, id);
    assert_eq!(next.as_u64(), 1);
}

#[test]
fn tasks_are_handed_out_in_the_order_spawned() {
    let mut executor: Executor<&str> = Executor::new();
    let a = executor.spawn("a");
    let b = executor.spawn("b");
    let (mut task, _) = executor.next_ready().unwrap();
    assert_eq!(task.id(), a);
    assert_eq!(*task.computation_mut(), "a");
    executor.settle(task, Poll::Pending);
    let (mut task, _) = executor.next_ready().unwrap();
    assert_eq!(task.id(), b);
    assert_eq!(*task.computation_mut(), "b");
    executor.settle(task, Poll::Pending);
    assert!(executor.next_ready().is_none());
}

#[test]
fn suspended_task_waits_until_its_handle_is_invoked() {
    let mut executor: Executor<u32> = Executor::new();
    let id = executor.spawn(0);
    let (mut task, handle) = executor.next_ready().unwrap();
    *task.computation_mut() += 1;
    executor.settle(task, Poll::Pending);
    // Not polled again on speculation.
    assert!(executor.is_idle());
    assert!(executor.next_ready().is_none());
    assert!(executor.has_task(id));
    assert!(executor.has_cached_handle(id));
    executor.wake(&handle);
    assert!(executor.is_ready(id));
    let (mut task, again) = executor.next_ready().unwrap();
    // The computation kept its state and the handle is the cached one.
    assert_eq!(*task.computation_mut(), 1);
    assert_eq!(again, handle);
    executor.settle(task, Poll::Ready(()));
    assert!(!executor.has_task(id));
}

#[test]
fn task_woken_during_its_poll_is_ready_afterwards() {
    let mut executor: Executor<&str> = Executor::new();
    let id = executor.spawn("wakes itself");
    let (task, handle) = executor.next_ready().unwrap();
    assert!(executor.has_task(id));
    executor.wake(&handle);
    executor.settle(task, Poll::Pending);
    assert!(executor.is_ready(id));
    let (task, _) = executor.next_ready().unwrap();
    assert_eq!(task.id(), id);
    executor.settle(task, Poll::Pending);
    assert!(executor.is_idle());
}

#[test]
fn completion_takes_every_entry_of_the_task_out_of_the_ready_queue() {
    let mut executor: Executor<&str> = Executor::new();
    let a = executor.spawn("a");
    let b = executor.spawn("b");
    let (task_a, handle_a) = executor.next_ready().unwrap();
    // `a` is woken twice while it is polled, around a wake of nothing else.
    executor.wake(&handle_a);
    executor.wake(&handle_a);
    assert_eq!(executor.ready_count(), 3);
    executor.settle(task_a, Poll::Ready(()));
    assert!(!executor.is_ready(a));
    assert!(executor.is_ready(b));
    assert_eq!(executor.ready_count(), 1);
    let (task_b, _) = executor.next_ready().unwrap();
    assert_eq!(task_b.id(), b);
    executor.settle(task_b, Poll::Ready(()));
    assert!(executor.is_idle());
}

#[test]
fn duplicate_wakes_give_duplicate_polls() {
    let mut executor: Executor<&str> = Executor::new();
    let id = executor.spawn("t");
    let (task, handle) = executor.next_ready().unwrap();
    executor.settle(task, Poll::Pending);
    executor.wake(&handle);
    executor.wake(&handle);
    assert_eq!(executor.ready_count(), 2);
    let (task, _) = executor.next_ready().unwrap();
    executor.settle(task, Poll::Pending);
    let (task, _) = executor.next_ready().unwrap();
    assert_eq!(task.id(), id);
    executor.settle(task, Poll::Pending);
    assert!(executor.is_idle());
}
