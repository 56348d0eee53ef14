use ringcore::multitask::executor::{Executor, Polled, Step};
use ringcore::multitask::task::{Collection, Error, Id, IdSource, Task, TaskWaker, QUEUE_CAPACITY};

#[test]
fn identifiers_grow() {
    let mut source = IdSource::new();
    let a = Id::new(&mut source).unwrap();
    let b = Id::new(&mut source).unwrap();
    let c = Task::new(&mut source).unwrap().id();
    assert_eq!(a.as_u64(), 0);
    assert_eq!(b.as_u64(), 1);
    assert_eq!(c.as_u64(), 2);
    assert!(a < b && b < c);
    assert_eq!(Id::from_u64(1), b);
}

#[test]
fn kinds_of_task() {
    let mut source = IdSource::new();
    assert!(!Task::new(&mut source).unwrap().polling());
    let task = Task::new_poll(&mut source).unwrap();
    assert!(task.polling());
    assert_eq!(task.waker().id(), task.id());
    assert_eq!(TaskWaker::new(task.id()), task.waker());
}

#[test]
fn a_task_that_completes_at_once_is_polled_once() {
    let mut source = IdSource::new();
    let mut executor = Executor::new();
    let task = Task::new_poll(&mut source).unwrap();
    executor.spawn(task).unwrap();
    assert_eq!(executor.next(), Step::Poll(task.id(), task.waker()));
    executor.finish(task.id(), Polled::Ready);
    assert!(!executor.tasks_mut().contains(task.id()));
    assert_eq!(executor.next(), Step::Idle);
}

#[test]
fn a_task_that_waits_runs_again_when_it_is_woken() {
    let mut source = IdSource::new();
    let mut executor = Executor::new();
    let task = Task::new_poll(&mut source).unwrap();
    executor.spawn(task).unwrap();
    let waker = match executor.next() {
        Step::Poll(id, waker) => {
            assert_eq!(id, task.id());
            waker
        }
        other => panic!("{:?}", other),
    };
    executor.finish(task.id(), Polled::Pending);
    assert!(executor.tasks_mut().contains(task.id()));
    assert_eq!(executor.next(), Step::Idle);
    waker.wake_task(executor.tasks_mut()).unwrap();
    assert_eq!(executor.next(), Step::Poll(task.id(), task.waker()));
    executor.finish(task.id(), Polled::Ready);
    assert!(!executor.tasks_mut().contains(task.id()));
    assert_eq!(executor.next(), Step::Idle);
}

#[test]
fn waking_a_completed_task_runs_nothing() {
    let mut source = IdSource::new();
    let mut executor = Executor::new();
    let task = Task::new_poll(&mut source).unwrap();
    executor.spawn(task).unwrap();
    assert_eq!(executor.next(), Step::Poll(task.id(), task.waker()));
    executor.finish(task.id(), Polled::Ready);
    assert_eq!(executor.wake(task.id()), Ok(()));
    assert_eq!(task.waker().wake_task(executor.tasks_mut()), Ok(()));
    assert_eq!(executor.next(), Step::Skip(task.id()));
    assert_eq!(executor.next(), Step::Skip(task.id()));
    assert_eq!(executor.next(), Step::Idle);
}

#[test]
fn a_sleeping_task_waits_for_its_first_wake() {
    let mut source = IdSource::new();
    let mut executor = Executor::new();
    let task = Task::new(&mut source).unwrap();
    executor.spawn(task).unwrap();
    assert_eq!(executor.next(), Step::Idle);
    executor.wake(task.id()).unwrap();
    assert_eq!(executor.next(), Step::Poll(task.id(), task.waker()));
    // A wake that arrives while the task is polled is kept for afterwards.
    executor.wake(task.id()).unwrap();
    executor.finish(task.id(), Polled::Pending);
    assert_eq!(executor.next(), Step::Poll(task.id(), task.waker()));
    executor.finish(task.id(), Polled::Ready);
    assert_eq!(executor.next(), Step::Idle);
}

#[test]
fn tasks_run_in_the_order_in_which_they_were_woken() {
    let mut source = IdSource::new();
    let mut tasks = Collection::new();
    let a = Task::new(&mut source).unwrap();
    let b = Task::new(&mut source).unwrap();
    tasks.add_task_as_sleep(a).unwrap();
    tasks.add_task_as_woken(b).unwrap();
    assert!(tasks.woken_task_exists());
    tasks.push_woken_task_id(a.id()).unwrap();
    assert_eq!(tasks.pop_woken_task_id(), Some(b.id()));
    assert_eq!(tasks.pop_woken_task_id(), Some(a.id()));
    assert_eq!(tasks.pop_woken_task_id(), None);
    assert!(!tasks.woken_task_exists());
    assert_eq!(tasks.get(a.id()), Some(a));
    assert_eq!(tasks.remove_task(a.id()), Some(a));
    assert_eq!(tasks.remove_task(a.id()), None);
    assert_eq!(tasks.get(a.id()), None);
    assert_eq!(tasks.create_waker(b.id()), b.waker());
}

#[test]
fn an_identifier_that_is_taken_is_refused() {
    let mut source = IdSource::new();
    let mut tasks = Collection::new();
    let task = Task::new(&mut source).unwrap();
    assert_eq!(tasks.add_task_as_sleep(task), Ok(()));
    assert_eq!(tasks.add_task_as_sleep(task), Err(Error::IdConflict));
    assert_eq!(tasks.add_task_as_woken(task), Err(Error::IdConflict));
    assert!(!tasks.woken_task_exists());
}

#[test]
fn a_full_queue_refuses_and_changes_nothing() {
    let mut source = IdSource::new();
    let mut executor = Executor::new();
    let first = Task::new_poll(&mut source).unwrap();
    executor.spawn(first).unwrap();
    for _ in 1..QUEUE_CAPACITY {
        executor.wake(first.id()).unwrap();
    }
    assert_eq!(executor.wake(first.id()), Err(Error::QueueFull));
    let late = Task::new_poll(&mut source).unwrap();
    assert_eq!(executor.spawn(late), Err(Error::QueueFull));
    assert!(!executor.tasks_mut().contains(late.id()));
    // A task that need not be queued is still taken in.
    let sleeper = Task::new(&mut source).unwrap();
    assert_eq!(executor.spawn(sleeper), Ok(()));
    // Room is made by running; a task may be taken in while another is polled.
    assert_eq!(executor.next(), Step::Poll(first.id(), first.waker()));
    assert_eq!(executor.spawn(late), Ok(()));
    executor.finish(first.id(), Polled::Pending);
    for _ in 1..QUEUE_CAPACITY {
        assert_eq!(executor.next(), Step::Poll(first.id(), first.waker()));
        executor.finish(first.id(), Polled::Pending);
    }
    assert_eq!(executor.next(), Step::Poll(late.id(), late.waker()));
    executor.finish(late.id(), Polled::Ready);
    assert_eq!(executor.next(), Step::Idle);
}

#[test]
fn one_wake_is_one_poll_among_other_tasks() {
    let mut source = IdSource::new();
    let mut executor = Executor::new();
    let other = Task::new_poll(&mut source).unwrap();
    let task = Task::new_poll(&mut source).unwrap();
    let third = Task::new(&mut source).unwrap();
    executor.spawn(other).unwrap();
    executor.spawn(task).unwrap();
    executor.spawn(third).unwrap();
    let mut polls = 0;
    let mut woken = false;
    loop {
        match executor.next() {
            Step::Idle => break,
            Step::Skip(_) => {}
            Step::Poll(id, waker) => {
                if id == task.id() {
                    polls += 1;
                    // The first poll waits and is woken once, while the
                    // other tasks wake each other; the second completes.
                    if woken {
                        executor.finish(id, Polled::Ready);
                    } else {
                        woken = true;
                        executor.finish(id, Polled::Pending);
                        waker.wake_task(executor.tasks_mut()).unwrap();
                        executor.wake(third.id()).unwrap();
                    }
                } else if id == other.id() && polls < 2 {
                    executor.wake(other.id()).unwrap();
                    executor.finish(id, Polled::Pending);
                } else {
                    executor.finish(id, Polled::Ready);
                }
            }
        }
    }
    assert_eq!(polls, 2);
    assert!(!executor.tasks_mut().contains(task.id()));
    // A wake after the end runs nothing.
    executor.wake(task.id()).unwrap();
    assert_eq!(executor.next(), Step::Skip(task.id()));
    assert_eq!(executor.next(), Step::Idle);
}
