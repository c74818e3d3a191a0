use nexus_cli::task::Task;
use nexus_cli::task_pool::TaskPool;

fn task(id: &str) -> Task {
    Task::new(id.to_string(), "fib_input".to_string(), vec![1])
}

#[test]
fn tasks_come_out_in_order() {
    let mut pool = TaskPool::new(10);
    assert_eq!(pool.add_tasks(vec![task("a"), task("b"), task("c")]), 3);
    assert_eq!(pool.len(), 3);
    assert_eq!(pool.get_task().unwrap().task_id, "a");
    assert_eq!(pool.get_task().unwrap().task_id, "b");
    assert_eq!(pool.get_task().unwrap().task_id, "c");
    assert!(pool.get_task().is_none());
    assert_eq!(pool.len(), 0);
}

#[test]
fn capacity_limits_the_queue() {
    let mut pool = TaskPool::new(2);
    assert_eq!(pool.add_tasks(vec![task("a"), task("b"), task("c")]), 2);
    assert_eq!(pool.len(), 2);
    pool.get_task();
    assert_eq!(pool.add_tasks(vec![task("c"), task("d")]), 1);
    assert_eq!(pool.get_task().unwrap().task_id, "b");
    assert_eq!(pool.get_task().unwrap().task_id, "c");
}

#[test]
fn duplicate_ids_are_refused() {
    let mut pool = TaskPool::new(10);
    assert_eq!(pool.add_tasks(vec![task("a"), task("a")]), 1);
    assert_eq!(pool.add_tasks(vec![task("a"), task("b")]), 1);
    assert_eq!(pool.len(), 2);
}

#[test]
fn completed_ids_are_refused() {
    let mut pool = TaskPool::new(10);
    pool.mark_completed("a");
    assert_eq!(pool.add_tasks(vec![task("a"), task("b")]), 1);
    assert_eq!(pool.get_task().unwrap().task_id, "b");
}

#[test]
fn marking_does_not_remove_queued_tasks() {
    let mut pool = TaskPool::new(10);
    pool.add_tasks(vec![task("a")]);
    pool.mark_completed("a");
    assert_eq!(pool.len(), 1);
}

#[test]
fn zero_capacity_takes_nothing() {
    let mut pool = TaskPool::new(0);
    assert_eq!(pool.add_tasks(vec![task("a")]), 0);
    assert!(pool.get_task().is_none());
}

#[test]
fn oldest_completed_ids_are_forgotten_past_the_limit() {
    let mut pool = TaskPool::new(10);
    for i in 0..1001 {
        pool.mark_completed(&format!("t{}", i));
    }
    // The first 500 ids are forgotten, the rest are still remembered.
    assert_eq!(pool.add_tasks(vec![task("t0"), task("t499")]), 2);
    assert_eq!(pool.add_tasks(vec![task("t500"), task("t1000")]), 0);
}

#[test]
fn marking_twice_keeps_one_entry() {
    let mut pool = TaskPool::new(10);
    for _ in 0..1001 {
        pool.mark_completed("same");
    }
    pool.mark_completed("other");
    assert_eq!(pool.add_tasks(vec![task("same"), task("other")]), 0);
}
