use hermes::queue::TaskQueue;
use hermes::queue::TaskState;

#[test]
fn test_enqueue_and_acquire() {
    let mut queue = TaskQueue::new(2);
    assert!(queue.enqueue("t1", 123, "youtube", 0));
    assert!(queue.acquire("t1", 1));
    assert_eq!(queue.running_count(), 1);
}

#[test]
fn test_complete_releases_slot() {
    let mut queue = TaskQueue::new(1);
    queue.enqueue("t1", 123, "youtube", 0);
    queue.acquire("t1", 1);
    assert_eq!(queue.running_count(), 1);

    queue.complete("t1");
    assert_eq!(queue.running_count(), 0);
}

#[test]
fn test_duplicate_enqueue() {
    let mut queue = TaskQueue::new(2);
    assert!(queue.enqueue("t1", 123, "youtube", 0));
    assert!(!queue.enqueue("t1", 123, "youtube", 0));
}

#[test]
fn test_stats() {
    let mut queue = TaskQueue::new(3);
    queue.enqueue("t1", 100, "youtube", 0);
    queue.enqueue("t2", 100, "playlist", 0);
    queue.acquire("t1", 1);

    let stats = queue.stats();
    assert_eq!(stats.running, 1);
    assert_eq!(stats.queued, 1);
    assert_eq!(stats.max_concurrent, 3);
}

#[test]
fn test_duplicate_enqueue_leaves_state_unchanged() {
    let mut queue = TaskQueue::new(2);
    assert!(queue.enqueue("job", 7, "youtube", 11));
    let before = queue.stats();
    assert!(!queue.enqueue("job", 99, "playlist", 55));
    let after = queue.stats();
    assert_eq!(before.queued, after.queued);
    assert_eq!(before.total_tracked, after.total_tracked);
    let t = queue.get_status("job").expect("tracked");
    assert_eq!(t.chat_id, 7);
    assert_eq!(t.task_type, "youtube");
    assert_eq!(t.enqueued_at, 11);
}

#[test]
fn test_admission_bound_scenario() {
    // Two slots; three jobs. The third admission is refused until a
    // holder releases its slot.
    let mut queue = TaskQueue::new(2);
    assert!(queue.enqueue("t1", 1, "youtube", 0));
    assert!(queue.enqueue("t2", 1, "youtube", 0));
    assert!(queue.enqueue("t3", 1, "youtube", 0));
    assert!(queue.acquire("t1", 1));
    assert!(queue.acquire("t2", 1));
    assert!(!queue.acquire("t3", 1));

    let stats = queue.stats();
    assert_eq!(stats.running, 2);
    assert_eq!(stats.queued, 1);

    queue.complete("t1");
    assert!(queue.acquire("t3", 2));
    assert_eq!(queue.running_count(), 2);
}

#[test]
fn test_release_is_idempotent() {
    let mut queue = TaskQueue::new(1);
    queue.enqueue("t1", 1, "youtube", 0);
    queue.acquire("t1", 1);
    queue.complete("t1");
    assert_eq!(queue.running_count(), 0);
    // A second completion, a failure and a cancellation never double-free.
    queue.complete("t1");
    queue.fail("t1");
    assert!(queue.cancel("t1"));
    assert_eq!(queue.running_count(), 0);

    // Releasing without ever acquiring is safe too.
    queue.enqueue("t2", 1, "youtube", 0);
    queue.fail("t2");
    assert_eq!(queue.running_count(), 0);
}

#[test]
fn test_cancel_unknown_task() {
    let mut queue = TaskQueue::new(1);
    assert!(!queue.cancel("missing"));
}

#[test]
fn test_progress_and_status() {
    let mut queue = TaskQueue::new(1);
    queue.enqueue("t1", 5, "youtube", 0);
    queue.acquire("t1", 3);
    queue.update_progress("t1", 40, Some("1.2MB/s".to_string()));
    let t = queue.get_status("t1").expect("tracked");
    assert_eq!(t.status, TaskState::Running);
    assert_eq!(t.progress, 40);
    assert_eq!(t.speed.as_deref(), Some("1.2MB/s"));
    assert_eq!(t.started_at, Some(3));
    // Unknown ids are ignored.
    queue.update_progress("zz", 90, None);
    assert!(queue.get_status("zz").is_none());
}

#[test]
fn test_cleanup_old_keeps_active_tasks() {
    let mut queue = TaskQueue::new(2);
    queue.enqueue("old-done", 1, "youtube", 0);
    queue.acquire("old-done", 1);
    queue.complete("old-done");
    queue.enqueue("old-queued", 1, "youtube", 0);
    queue.enqueue("young-done", 1, "youtube", 900);
    queue.acquire("young-done", 901);
    queue.complete("young-done");

    // Sweep at time 1000 with a 300 second retention window.
    queue.cleanup_old(300, 1000);
    assert!(queue.get_status("old-done").is_none());
    assert!(queue.get_status("old-queued").is_some());
    assert!(queue.get_status("young-done").is_some());
}

#[test]
fn test_get_user_tasks_filters_by_chat() {
    let mut queue = TaskQueue::new(2);
    queue.enqueue("a", 1, "youtube", 0);
    queue.enqueue("b", 2, "youtube", 0);
    queue.enqueue("c", 1, "playlist", 0);
    let tasks = queue.get_user_tasks(1);
    assert_eq!(tasks.len(), 2);
    assert_eq!(tasks[0].task_id, "a");
    assert_eq!(tasks[1].task_id, "c");
}

#[test]
fn test_terminal_states_are_sticky() {
    // No task leaves a terminal state: later transitions change nothing
    // but the slot bookkeeping.
    let mut queue = TaskQueue::new(2);
    queue.enqueue("t1", 1, "youtube", 0);
    queue.acquire("t1", 1);
    assert!(queue.cancel("t1"));
    let t = queue.get_status("t1").expect("tracked");
    assert_eq!(t.status, TaskState::Cancelled);

    queue.complete("t1");
    let t = queue.get_status("t1").expect("tracked");
    assert_eq!(t.status, TaskState::Cancelled);
    assert_ne!(t.progress, 100);

    queue.fail("t1");
    let t = queue.get_status("t1").expect("tracked");
    assert_eq!(t.status, TaskState::Cancelled);

    // A terminal task is not resurrected by a later admission either.
    assert!(queue.acquire("t1", 9));
    let t = queue.get_status("t1").expect("tracked");
    assert_eq!(t.status, TaskState::Cancelled);
    assert_eq!(t.started_at, Some(1));
}
