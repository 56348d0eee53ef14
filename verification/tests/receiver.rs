use ringcore::addr::PhysAddr;
use ringcore::multitask::executor::{Executor, Polled, Step};
use ringcore::multitask::task::{Collection, IdSource, Task, QUEUE_CAPACITY};
use ringcore::ring::command;
use ringcore::ring::event;
use ringcore::ring::transfer;
use ringcore::ring::trb::{CommandComplete, Completion, TransferEvent, Trb};
use ringcore::ring::{CycleBit, Doorbell};
use ringcore::transferor::{Error, ReceiveFuture, Received, Receiver, SendError, Transferor};

fn addr(a: u64) -> PhysAddr {
    PhysAddr::new(a).unwrap()
}

fn command(ptr: u64, code: u8) -> Completion {
    Completion::Command(CommandComplete::new(ptr, code, CycleBit::new(true)))
}

#[test]
fn register_fulfill_take_yields_the_completion() {
    let mut source = IdSource::new();
    let mut tasks = Collection::new();
    let task = Task::new(&mut source).unwrap();
    tasks.add_task_as_sleep(task).unwrap();
    let mut receiver = Receiver::new();
    assert_eq!(receiver.try_insert(addr(0x1000), task.waker()), Ok(()));
    assert_eq!(receiver.trb_arrives(addr(0x1000)), Ok(false));
    assert_eq!(receiver.take(addr(0x1000)), Ok(None));
    let c = command(0x1000, 1);
    assert_eq!(receiver.try_receive(c, &mut tasks), Ok(()));
    assert_eq!(tasks.pop_woken_task_id(), Some(task.id()));
    assert_eq!(receiver.trb_arrives(addr(0x1000)), Ok(true));
    assert_eq!(receiver.take(addr(0x1000)), Ok(Some(c)));
    assert_eq!(receiver.take(addr(0x1000)), Err(Error::NotRegistered));
    assert_eq!(receiver.trb_arrives(addr(0x1000)), Err(Error::NotRegistered));
}

#[test]
fn a_completion_for_an_unknown_address_is_refused() {
    let mut tasks = Collection::new();
    let mut receiver = Receiver::new();
    assert_eq!(receiver.try_receive(command(0x1000, 1), &mut tasks), Err(Error::NotRegistered));
    assert!(!tasks.woken_task_exists());
    assert_eq!(receiver.take(addr(0x1000)), Err(Error::NotRegistered));
}

#[test]
fn an_address_is_registered_once() {
    let mut source = IdSource::new();
    let mut tasks = Collection::new();
    let a = Task::new(&mut source).unwrap();
    let b = Task::new(&mut source).unwrap();
    let mut receiver = Receiver::new();
    assert_eq!(receiver.try_insert(addr(0x1000), a.waker()), Ok(()));
    assert_eq!(receiver.try_insert(addr(0x1000), b.waker()), Err(Error::AlreadyRegistered));
    let c = command(0x1000, 1);
    receiver.try_receive(c, &mut tasks).unwrap();
    // The refused registration has changed nothing: the first task is woken.
    assert_eq!(tasks.pop_woken_task_id(), Some(a.id()));
    // Until it is taken, the address stays registered.
    assert_eq!(receiver.try_insert(addr(0x1000), b.waker()), Err(Error::AlreadyRegistered));
    assert_eq!(receiver.take(addr(0x1000)), Ok(Some(c)));
    assert_eq!(receiver.try_insert(addr(0x1000), b.waker()), Ok(()));
}

#[test]
fn completions_may_arrive_in_any_order() {
    let mut source = IdSource::new();
    let mut tasks = Collection::new();
    let a = Task::new(&mut source).unwrap();
    let b = Task::new(&mut source).unwrap();
    let mut receiver = Receiver::new();
    receiver.try_insert(addr(0x10), a.waker()).unwrap();
    receiver.try_insert(addr(0x20), b.waker()).unwrap();
    let for_b = Completion::Transfer(TransferEvent::new(0x20, 1, CycleBit::new(true)));
    let for_a = command(0x10, 5);
    receiver.try_receive(for_b, &mut tasks).unwrap();
    receiver.try_receive(for_a, &mut tasks).unwrap();
    assert_eq!(tasks.pop_woken_task_id(), Some(b.id()));
    assert_eq!(tasks.pop_woken_task_id(), Some(a.id()));
    assert_eq!(receiver.take(addr(0x10)), Ok(Some(for_a)));
    assert_eq!(receiver.take(addr(0x20)), Ok(Some(for_b)));
}

#[test]
fn a_completion_is_kept_when_the_task_cannot_be_woken() {
    let mut source = IdSource::new();
    let mut tasks = Collection::new();
    let task = Task::new(&mut source).unwrap();
    let mut receiver = Receiver::new();
    receiver.try_insert(addr(0x10), task.waker()).unwrap();
    for _ in 0..QUEUE_CAPACITY {
        tasks.push_woken_task_id(task.id()).unwrap();
    }
    let c = command(0x10, 1);
    assert_eq!(receiver.try_receive(c, &mut tasks), Err(Error::ReadyQueueFull));
    assert_eq!(receiver.trb_arrives(addr(0x10)), Ok(true));
    // With room in the queue the delivery succeeds, and the handle is spent.
    for _ in 0..QUEUE_CAPACITY {
        tasks.pop_woken_task_id().unwrap();
    }
    assert_eq!(receiver.try_receive(c, &mut tasks), Ok(()));
    assert_eq!(tasks.pop_woken_task_id(), Some(task.id()));
    assert_eq!(receiver.try_receive(c, &mut tasks), Ok(()));
    assert_eq!(tasks.pop_woken_task_id(), None);
    assert_eq!(receiver.take(addr(0x10)), Ok(Some(c)));
}

#[test]
fn a_completion_that_arrives_while_the_task_waits_is_found() {
    // The task sends a command, registers its address and suspends.
    let mut source = IdSource::new();
    let mut executor = Executor::new();
    let task = Task::new_poll(&mut source).unwrap();
    executor.spawn(task).unwrap();
    let mut commands = command::Ring::new(addr(0x10_0000));
    let mut receiver = Receiver::new();
    let side = match executor.next() {
        Step::Poll(_, waker) => Transferor::new(waker),
        other => panic!("{:?}", other),
    };
    let sent = commands.send_enable_slot().unwrap();
    side.try_register_with_receiver(&mut receiver, sent).unwrap();
    let wait = ReceiveFuture::new(sent);
    assert_eq!(wait.poll(&mut receiver), Received::Pending);
    executor.finish(task.id(), Polled::Pending);
    assert_eq!(executor.next(), Step::Idle);

    // The controller reports the completion; the event loop delivers it.
    let mut events = event::Ring::new(16, addr(0x20_0000));
    let x = CommandComplete::new(sent.as_u64(), 1, CycleBit::new(true));
    events.write_slot(0, x.into_raw());
    match event::step(&mut events, &mut receiver, executor.tasks_mut()) {
        event::Step::Consumed { dequeue_pointer, handled } => {
            assert_eq!(dequeue_pointer.as_u64(), 0x20_0010);
            assert_eq!(handled, event::Handled::Delivered(Completion::Command(x)));
        }
        other => panic!("{:?}", other),
    }
    assert!(matches!(
        event::step(&mut events, &mut receiver, executor.tasks_mut()),
        event::Step::Suspend
    ));

    // The task runs again and finds the completion without waiting.
    assert_eq!(executor.next(), Step::Poll(task.id(), task.waker()));
    assert_eq!(wait.poll(&mut receiver), Received::Ready(Completion::Command(x)));
    executor.finish(task.id(), Polled::Ready);
    assert_eq!(executor.next(), Step::Idle);
    assert_eq!(receiver.trb_arrives(sent), Err(Error::NotRegistered));
}

#[test]
fn the_event_loop_drops_what_it_cannot_deliver() {
    let mut tasks = Collection::new();
    let mut receiver = Receiver::new();
    let mut events = event::Ring::new(4, addr(0x20_0000));
    let stray = TransferEvent::new(0x5550, 1, CycleBit::new(true));
    events.write_slot(0, stray.into_raw());
    events.write_slot(1, [0, 0, 0, (40 << 10) | 1]);
    let mut link = Trb::new_link(addr(0x20_0000));
    link.set_c(CycleBit::new(true));
    events.write_slot(2, link.into_raw());
    let mut handled = Vec::new();
    loop {
        match event::step(&mut events, &mut receiver, &mut tasks) {
            event::Step::Suspend => break,
            event::Step::Consumed { handled: h, .. } => handled.push(h),
        }
    }
    assert_eq!(
        handled,
        vec![
            event::Handled::Spurious(Completion::Transfer(stray)),
            event::Handled::Unrecognized,
            event::Handled::Ignored(link),
        ]
    );
    assert!(!tasks.woken_task_exists());
    assert_eq!(events.dequeue_addr().as_u64(), 0x20_0030);
}

#[test]
fn a_request_is_registered_before_it_is_sent() {
    let mut source = IdSource::new();
    let mut tasks = Collection::new();
    let task = Task::new(&mut source).unwrap();
    let side = Transferor::new(task.waker());
    let mut receiver = Receiver::new();
    let mut transfers = transfer::Ring::new(addr(0x30_0000), 2, 3);
    let noop = Trb::new_noop(CycleBit::new(false));

    let (sent, doorbell) = side.send(&mut transfers, &mut receiver, noop).unwrap();
    assert_eq!(sent.as_u64(), 0x30_0000);
    assert_eq!(doorbell, Doorbell { index: 2, target: 3 });
    assert_eq!(receiver.trb_arrives(sent), Ok(false));
    let done = Completion::Transfer(TransferEvent::new(0x30_0000, 1, CycleBit::new(true)));
    receiver.try_receive(done, &mut tasks).unwrap();
    assert_eq!(tasks.pop_woken_task_id(), Some(task.id()));
    assert_eq!(side.get_trb(sent).poll(&mut receiver), Received::Ready(done));

    // An address that is still registered is not used again.
    receiver.try_insert(addr(0x30_0010), task.waker()).unwrap();
    assert_eq!(side.send(&mut transfers, &mut receiver, noop), Err(SendError::AlreadyRegistered));
    assert_eq!(transfers.slot(1), [0; 4]);
    assert_eq!(transfers.addr_to_enqueue_ptr().as_u64(), 0x30_0010);
    // A full ring registers nothing.
    let stale = Completion::Transfer(TransferEvent::new(0x30_0010, 1, CycleBit::new(true)));
    receiver.try_receive(stale, &mut tasks).unwrap();
    assert_eq!(receiver.take(addr(0x30_0010)), Ok(Some(stale)));
    transfers.write_slot(1, [0, 0, 0, 1]);
    assert_eq!(side.send(&mut transfers, &mut receiver, noop), Err(SendError::QueueIsFull));
    assert_eq!(receiver.trb_arrives(addr(0x30_0010)), Err(Error::NotRegistered));

    let mut commands = command::Ring::new(addr(0x10_0000));
    let (sent, doorbell) =
        side.send_command(&mut commands, &mut receiver, Trb::new_enable_slot()).unwrap();
    assert_eq!(sent.as_u64(), 0x10_0000);
    assert_eq!(doorbell, Doorbell { index: 0, target: 0 });
    assert_eq!(commands.slot(0), [0, 0, 0, (9 << 10) | 1]);
    assert_eq!(receiver.trb_arrives(sent), Ok(false));
    commands.write_slot(1, [0, 0, 0, 1]);
    assert_eq!(
        side.send_command(&mut commands, &mut receiver, Trb::new_enable_slot()),
        Err(SendError::QueueIsFull)
    );
}

#[test]
fn a_look_that_finds_nothing_changes_nothing() {
    let mut source = IdSource::new();
    let mut tasks = Collection::new();
    let task = Task::new(&mut source).unwrap();
    let mut receiver = Receiver::new();
    receiver.try_insert(addr(0x40), task.waker()).unwrap();
    assert_eq!(receiver.take(addr(0x40)), Ok(None));
    assert_eq!(receiver.take(addr(0x40)), Ok(None));
    assert_eq!(ReceiveFuture::new(addr(0x40)).poll(&mut receiver), Received::Pending);
    // The address is still registered, with its handle.
    assert_eq!(receiver.try_insert(addr(0x40), task.waker()), Err(Error::AlreadyRegistered));
    let c = command(0x40, 9);
    assert_eq!(receiver.try_receive(c, &mut tasks), Ok(()));
    assert_eq!(tasks.pop_woken_task_id(), Some(task.id()));
    assert_eq!(receiver.take(addr(0x40)), Ok(Some(c)));
}
