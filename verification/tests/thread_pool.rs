use object_storage::thread_pool::{PoolCreationError, TaskOutcome, ThreadPool};

#[test]
fn a_pool_without_workers_cannot_be_made() {
    assert_eq!(ThreadPool::<u32>::new(0).err(), Some(PoolCreationError));
    assert!(ThreadPool::<u32>::new(1).is_ok());
    assert!(ThreadPool::<u32>::new(usize::MAX).is_ok());
}

#[test]
fn a_new_pool_is_idle() {
    let mut pool = ThreadPool::<u32>::new(4).unwrap();
    assert_eq!(pool.size(), 4);
    assert_eq!(pool.running(), 0);
    assert_eq!(pool.waiting(), 0);
    assert_eq!(pool.next(), None);
    pool.finish(TaskOutcome::Completed);
    assert_eq!(pool.running(), 0);
}

#[test]
fn tasks_are_taken_in_the_order_in_which_they_were_handed_in() {
    let mut pool = ThreadPool::new(3).unwrap();
    assert_eq!(pool.execute("a"), Ok(()));
    assert_eq!(pool.execute("b"), Ok(()));
    assert_eq!(pool.execute("c"), Ok(()));
    assert_eq!(pool.waiting(), 3);
    assert_eq!(pool.next(), Some("a"));
    assert_eq!(pool.next(), Some("b"));
    assert_eq!(pool.execute("d"), Ok(()));
    assert_eq!(pool.next(), Some("c"));
    assert_eq!(pool.running(), 3);
    assert_eq!(pool.waiting(), 1);
}

#[test]
fn more_connections_than_workers_all_get_their_turn() {
    let workers = 2;
    let tasks = 5;
    let mut pool = ThreadPool::new(workers).unwrap();
    for task in 0..tasks {
        assert_eq!(pool.execute(task), Ok(()));
    }
    let mut started = Vec::new();
    let mut ended = 0;
    while ended < tasks {
        while let Some(task) = pool.next() {
            started.push(task);
            assert!(pool.running() <= workers);
        }
        assert!(pool.running() > 0);
        pool.finish(TaskOutcome::Completed);
        ended += 1;
    }
    assert_eq!(started, vec![0, 1, 2, 3, 4]);
    assert_eq!(pool.running(), 0);
    assert_eq!(pool.waiting(), 0);
}

#[test]
fn no_task_starts_while_all_workers_are_busy() {
    let mut pool = ThreadPool::new(1).unwrap();
    assert_eq!(pool.execute(1), Ok(()));
    assert_eq!(pool.execute(2), Ok(()));
    assert_eq!(pool.next(), Some(1));
    assert_eq!(pool.next(), None);
    assert_eq!(pool.waiting(), 1);
    assert_eq!(pool.running(), 1);
    pool.finish(TaskOutcome::Completed);
    assert_eq!(pool.next(), Some(2));
}

#[test]
fn a_task_that_failed_frees_its_worker() {
    let mut pool = ThreadPool::new(1).unwrap();
    assert_eq!(pool.execute(1), Ok(()));
    assert_eq!(pool.execute(2), Ok(()));
    assert_eq!(pool.next(), Some(1));
    pool.finish(TaskOutcome::Failed);
    assert_eq!(pool.size(), 1);
    assert_eq!(pool.running(), 0);
    assert_eq!(pool.next(), Some(2));
    pool.finish(TaskOutcome::Failed);
    assert_eq!(pool.running(), 0);
    assert_eq!(pool.size(), 1);
}

#[test]
fn a_pool_that_is_shut_down_takes_no_task_in() {
    let mut pool = ThreadPool::new(1).unwrap();
    assert_eq!(pool.execute(1), Ok(()));
    assert_eq!(pool.execute(2), Ok(()));
    assert_eq!(pool.next(), Some(1));
    assert!(!pool.may_stop());
    pool.shut_down();
    assert_eq!(pool.execute(3), Err(3));
    assert_eq!(pool.waiting(), 1);
    assert_eq!(pool.running(), 1);
    pool.shut_down();
    assert_eq!(pool.execute(4), Err(4));
}

#[test]
fn tasks_that_wait_at_shut_down_still_get_their_turn() {
    let mut pool = ThreadPool::new(1).unwrap();
    assert_eq!(pool.execute(1), Ok(()));
    assert_eq!(pool.execute(2), Ok(()));
    assert_eq!(pool.next(), Some(1));
    pool.shut_down();
    assert!(!pool.may_stop());
    pool.finish(TaskOutcome::Completed);
    assert!(!pool.may_stop());
    assert_eq!(pool.next(), Some(2));
    assert!(pool.may_stop());
    pool.finish(TaskOutcome::Completed);
    assert!(pool.may_stop());
    assert_eq!(pool.next(), None);
    assert_eq!(pool.running(), 0);
}

#[test]
fn workers_of_a_pool_that_is_not_shut_down_do_not_stop() {
    let mut pool = ThreadPool::<u32>::new(2).unwrap();
    assert!(!pool.may_stop());
    assert_eq!(pool.execute(1), Ok(()));
    assert_eq!(pool.next(), Some(1));
    pool.finish(TaskOutcome::Completed);
    assert!(!pool.may_stop());
}
