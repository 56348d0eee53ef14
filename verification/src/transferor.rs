//! The registry that matches the completion events of the controller with
//! the requests that caused them.
//!
//! A request is known by the address of the record that asked for it. Who
//! sends a request registers its address with a handle that wakes its task;
//! the event loop stores the completion under the address and invokes the
//! handle; the task, when it runs again, takes the completion out.
//! Completions may arrive in any order.

use crate::addr::PhysAddr;
use crate::multitask::task;
use crate::multitask::task::{Collection, TaskWaker};
use crate::ring::command;
use crate::ring::transfer;
use crate::ring::trb::{raw_pointer, Completion, Trb};
use crate::ring::Doorbell;
use std::collections::BTreeMap;
use vstd::pervasive::unreached;
use vstd::prelude::*;

verus! {

/// Why the registry refused a call.
#[derive(Clone, Copy, Debug, PartialEq, Eq, Structural)]
pub enum Error {
    /// The address is registered and its completion was not taken yet.
    AlreadyRegistered,
    /// The address is not registered.
    NotRegistered,
    /// The completion was stored, but the task could not be woken because
    /// the queue of woken tasks is full; the handle stays registered.
    ReadyQueueFull,
}

/// What the registry holds: under each registered address the completion
/// that has arrived for it, if any, and the handles that have not been
/// invoked yet.
pub struct State {
    pub trbs: Map<u64, Option<Completion>>,
    pub wakers: Map<u64, TaskWaker>,
}

impl State {
    /// Only a registered address has a handle.
    pub open spec fn wf(self) -> bool {
        forall|a: u64| #[trigger] self.wakers.contains_key(a) ==> self.trbs.contains_key(a)
    }

    /// Whether `addr` is registered.
    pub open spec fn registered(self, addr: u64) -> bool {
        self.trbs.contains_key(addr)
    }

    /// Whether the completion for `addr` has arrived and was not taken.
    pub open spec fn fulfilled(self, addr: u64) -> bool {
        self.trbs.contains_key(addr) && self.trbs[addr].is_some()
    }

    /// Registers `addr` with the handle `waker`, unless it is registered.
    pub open spec fn try_insert(self, addr: u64, waker: TaskWaker) -> (State, Result<(), Error>) {
        if self.registered(addr) {
            (self, Err(Error::AlreadyRegistered))
        } else {
            (
                State { trbs: self.trbs.insert(addr, None), wakers: self.wakers.insert(addr, waker) },
                Ok(()),
            )
        }
    }

    /// The registry with `trb` stored under `addr`.
    pub open spec fn store(self, addr: u64, trb: Completion) -> State {
        State { trbs: self.trbs.insert(addr, Some(trb)), ..self }
    }

    /// Delivers the completion `trb` for the request at `addr`. An address
    /// that is not registered is refused and nothing changes. Otherwise the
    /// completion is stored; then the handle of the address, if it still has
    /// one, is invoked on `tasks` and dropped. Where the queue of woken tasks
    /// is full, the handle stays and the call reports it.
    pub open spec fn try_receive(self, addr: u64, trb: Completion, tasks: task::State) -> (
        State,
        task::State,
        Result<(), Error>,
    ) {
        if !self.registered(addr) {
            (self, tasks, Err(Error::NotRegistered))
        } else if !self.wakers.contains_key(addr) {
            (self.store(addr, trb), tasks, Ok(()))
        } else if tasks.saturated() {
            (self.store(addr, trb), tasks, Err(Error::ReadyQueueFull))
        } else {
            (
                State { wakers: self.wakers.remove(addr), ..self.store(addr, trb) },
                tasks.wake(self.wakers[addr].spec_id()),
                Ok(()),
            )
        }
    }

    /// Takes the completion for `addr` out, if it has arrived: the address is
    /// then registered no more. Where it has not arrived nothing changes.
    pub open spec fn take(self, addr: u64) -> (State, Result<Option<Completion>, Error>) {
        if !self.registered(addr) {
            (self, Err(Error::NotRegistered))
        } else if self.trbs[addr].is_none() {
            (self, Ok(None))
        } else {
            (
                State { trbs: self.trbs.remove(addr), wakers: self.wakers.remove(addr) },
                Ok(self.trbs[addr]),
            )
        }
    }

    /// Registering an address, delivering a completion for it and taking it
    /// out yields exactly that completion, and afterwards the address is free
    /// again. The registration succeeds unless the address was registered;
    /// the delivery succeeds unless the queue of woken tasks is full; where
    /// both succeed the task of the handle that was registered is woken.
    pub proof fn lemma_register_fulfill_take(
        self,
        addr: u64,
        waker: TaskWaker,
        trb: Completion,
        tasks: task::State,
    )
        requires
            self.wf(),
        ensures
            ({
                let (registered, inserted) = self.try_insert(addr, waker);
                let (fulfilled, woken, received) = registered.try_receive(addr, trb, tasks);
                let (taken, result) = fulfilled.take(addr);
                &&& inserted is Ok <==> !self.registered(addr)
                &&& received is Ok <==> !(registered.wakers.contains_key(addr) && tasks.saturated())
                &&& inserted is Ok && received is Ok ==> woken == tasks.wake(waker.spec_id())
                &&& result == Ok::<Option<Completion>, Error>(Some(trb))
                &&& !taken.registered(addr)
                &&& taken.wf()
            }),
    {
        let (registered, inserted) = self.try_insert(addr, waker);
        let (fulfilled, woken, received) = registered.try_receive(addr, trb, tasks);
        let (taken, result) = fulfilled.take(addr);
        assert forall|a: u64| #[trigger] taken.wakers.contains_key(a) implies taken.trbs.contains_key(
            a,
        ) by {
            assert(self.wakers.contains_key(a));
        }
    }

    /// A completion for an address that was never registered is refused as
    /// not registered, and registering an address that is registered is
    /// refused as already registered; neither changes anything.
    pub proof fn lemma_refusals(self, addr: u64, waker: TaskWaker, trb: Completion, tasks: task::State)
        ensures
            !self.registered(addr) ==> self.try_receive(addr, trb, tasks) == (
                self,
                tasks,
                Err::<(), Error>(Error::NotRegistered),
            ),
            self.registered(addr) ==> self.try_insert(addr, waker) == (
                self,
                Err::<(), Error>(Error::AlreadyRegistered),
            ),
            !self.registered(addr) ==> self.try_insert(addr, waker).0.registered(addr)
                && self.try_insert(addr, waker).0.try_insert(addr, waker).1 == Err::<(), Error>(
                Error::AlreadyRegistered,
            ),
    {
    }

    /// A completion that is delivered for a registered address is stored
    /// whether or not the task could be woken: the task finds it when it
    /// next looks.
    pub proof fn lemma_completion_waits(self, addr: u64, trb: Completion, tasks: task::State)
        requires
            self.wf(),
            self.registered(addr),
        ensures
            self.try_receive(addr, trb, tasks).0.fulfilled(addr),
            self.try_receive(addr, trb, tasks).0.take(addr).1 == Ok::<Option<Completion>, Error>(
                Some(trb),
            ),
            self.try_receive(addr, trb, tasks).0.wf(),
    {
        let after = self.try_receive(addr, trb, tasks).0;
        assert forall|a: u64| #[trigger] after.wakers.contains_key(a) implies after.trbs.contains_key(
            a,
        ) by {
            assert(self.wakers.contains_key(a));
        }
    }
}

/// The registry of the requests whose completion is awaited.
pub struct Receiver {
    trbs: BTreeMap<u64, Option<Completion>>,
    wakers: BTreeMap<u64, TaskWaker>,
}

impl View for Receiver {
    type V = State;

    closed spec fn view(&self) -> State {
        State { trbs: self.trbs@, wakers: self.wakers@ }
    }
}

impl Receiver {
    /// The registry is one that [`State::wf`] describes.
    pub open spec fn wf(self) -> bool {
        self@.wf()
    }

    /// A registry without addresses.
    pub fn new() -> (r: Receiver)
        ensures
            r.wf(),
            r@.trbs == Map::<u64, Option<Completion>>::empty(),
            r@.wakers == Map::<u64, TaskWaker>::empty(),
    {
        Receiver { trbs: BTreeMap::new(), wakers: BTreeMap::new() }
    }

    /// Registers the request at `addr_to_trb` with the handle `waker`. It is
    /// refused, and nothing changes, exactly when the address is registered.
    /// To be called before the controller is told of the request.
    pub fn try_insert(&mut self, addr_to_trb: PhysAddr, waker: TaskWaker) -> (r: Result<(), Error>)
        requires
            old(self).wf(),
        ensures
            final(self).wf(),
            (final(self)@, r) == old(self)@.try_insert(addr_to_trb@, waker),
    {
        let addr: u64 = addr_to_trb.as_u64();
        if self.trbs.contains_key(&addr) {
            return Err(Error::AlreadyRegistered);
        }
        self.trbs.insert(addr, None);
        self.wakers.insert(addr, waker);
        proof {
            assert forall|a: u64| #[trigger] self@.wakers.contains_key(a) implies self@.trbs.contains_key(
                a,
            ) by {
                if a != addr {
                    assert(old(self)@.wakers.contains_key(a));
                }
            }
            assert(self@.trbs =~= old(self)@.trbs.insert(addr, None));
            assert(self@.wakers =~= old(self)@.wakers.insert(addr, waker));
        }
        Ok(())
    }

    /// Delivers the completion `trb` for the request that it names: stores
    /// it, then invokes the handle of the request on `tasks` and drops it.
    /// See [`State::try_receive`] for each case.
    pub fn try_receive(&mut self, trb: Completion, tasks: &mut Collection) -> (r: Result<(), Error>)
        requires
            old(self).wf(),
            old(tasks).wf(),
        ensures
            final(self).wf(),
            final(tasks).wf(),
            (final(self)@, final(tasks)@, r) == old(self)@.try_receive(
                raw_pointer(trb.raw()),
                trb,
                old(tasks)@,
            ),
    {
        let addr_to_trb: u64 = trb.trb_ptr();
        match self.store_trb(trb) {
            Ok(()) => {},
            Err(e) => {
                return Err(e);
            },
        }
        match self.wake_transferor(addr_to_trb, tasks) {
            Ok(()) => Ok(()),
            Err(Error::ReadyQueueFull) => Err(Error::ReadyQueueFull),
            Err(_) => Ok(()),
        }
    }

    /// Stores `trb` under the address that it names, if that is registered.
    fn store_trb(&mut self, trb: Completion) -> (r: Result<(), Error>)
        requires
            old(self).wf(),
        ensures
            final(self).wf(),
            match r {
                Ok(_) => old(self)@.registered(raw_pointer(trb.raw())) && final(self)@ == old(self)@.store(raw_pointer(trb.raw()), trb),
                Err(e) => e == Error::NotRegistered && !old(self)@.registered(
                    raw_pointer(trb.raw()),
                ) && final(self)@ == old(self)@,
            },
    {
        let addr_to_transfer_trb: u64 = trb.trb_ptr();
        if !self.trbs.contains_key(&addr_to_transfer_trb) {
            return Err(Error::NotRegistered);
        }
        self.trbs.insert(addr_to_transfer_trb, Some(trb));
        proof {
            assert forall|a: u64| #[trigger] self@.wakers.contains_key(a) implies self@.trbs.contains_key(
                a,
            ) by {
                assert(old(self)@.wakers.contains_key(a));
            }
        }
        Ok(())
    }

    /// Invokes the handle of `addr_to_trb` on `tasks` and drops it. Where
    /// there is no handle the call reports the address as not registered;
    /// where the queue of woken tasks is full the handle stays.
    fn wake_transferor(&mut self, addr_to_trb: u64, tasks: &mut Collection) -> (r: Result<
        (),
        Error,
    >)
        requires
            old(self).wf(),
            old(tasks).wf(),
        ensures
            final(self).wf(),
            final(tasks).wf(),
            match r {
                Ok(_) => {
                    &&& old(self)@.wakers.contains_key(addr_to_trb)
                    &&& !old(tasks)@.saturated()
                    &&& final(self)@ == (State {
                        wakers: old(self)@.wakers.remove(addr_to_trb),
                        ..old(self)@
                    })
                    &&& final(tasks)@ == old(tasks)@.wake(
                        old(self)@.wakers[addr_to_trb].spec_id(),
                    )
                },
                Err(e) => {
                    &&& final(self)@ == old(self)@
                    &&& final(tasks)@ == old(tasks)@
                    &&& e == (if old(self)@.wakers.contains_key(addr_to_trb) {
                        Error::ReadyQueueFull
                    } else {
                        Error::NotRegistered
                    })
                    &&& old(self)@.wakers.contains_key(addr_to_trb) ==> old(tasks)@.saturated()
                },
            },
    {
        let waker: TaskWaker = match self.wakers.get(&addr_to_trb) {
            Some(waker) => *waker,
            None => {
                return Err(Error::NotRegistered);
            },
        };
        match waker.wake_task(tasks) {
            Ok(()) => {},
            Err(_) => {
                return Err(Error::ReadyQueueFull);
            },
        }
        self.wakers.remove(&addr_to_trb);
        proof {
            assert forall|a: u64| #[trigger] self@.wakers.contains_key(a) implies self@.trbs.contains_key(
                a,
            ) by {
                assert(old(self)@.wakers.contains_key(a));
            }
        }
        Ok(())
    }

    /// Whether the completion for `addr` has arrived; an address that is not
    /// registered is refused.
    pub fn trb_arrives(&self, addr: PhysAddr) -> (r: Result<bool, Error>)
        ensures
            match r {
                Ok(arrived) => self@.registered(addr@) && arrived == self@.fulfilled(addr@),
                Err(e) => e == Error::NotRegistered && !self@.registered(addr@),
            },
    {
        match self.trbs.get(&addr.as_u64()) {
            Some(trb) => Ok(trb.is_some()),
            None => Err(Error::NotRegistered),
        }
    }

    /// Removes `addr`, whose completion has arrived, with the completion
    /// and with its handle, and hands the completion out.
    fn remove_entry(&mut self, addr: PhysAddr) -> (r: Result<Option<Completion>, Error>)
        requires
            old(self).wf(),
            old(self)@.fulfilled(addr@),
        ensures
            final(self).wf(),
            (final(self)@, r) == old(self)@.take(addr@),
    {
        let key: u64 = addr.as_u64();
        match self.trbs.remove(&key) {
            Some(trb) => {
                self.wakers.remove(&key);
                proof {
                    assert forall|a: u64| #[trigger]
                        self@.wakers.contains_key(a) implies self@.trbs.contains_key(a) by {
                        assert(old(self)@.wakers.contains_key(a));
                    }
                }
                Ok(trb)
            },
            None => unreached(),
        }
    }

    /// Takes the completion for `addr` out, if it has arrived; the address is
    /// then registered no more. Where it has not arrived the result is
    /// `Ok(None)` and nothing changes; an address that is not registered is
    /// refused.
    pub fn take(&mut self, addr: PhysAddr) -> (r: Result<Option<Completion>, Error>)
        requires
            old(self).wf(),
        ensures
            final(self).wf(),
            (final(self)@, r) == old(self)@.take(addr@),
    {
        match self.trb_arrives(addr) {
            Err(e) => Err(e),
            Ok(false) => Ok(None),
            Ok(true) => self.remove_entry(addr),
        }
    }
}

/// What a task that awaits a completion finds when it looks.
#[derive(Clone, Copy, Debug, PartialEq, Eq)]
pub enum Received {
    /// The completion has arrived.
    Ready(Completion),
    /// The completion has not arrived: the task waits to be woken.
    Pending,
}

/// The wait for the completion of the request at one address.
#[derive(Clone, Copy, Debug)]
pub struct ReceiveFuture {
    addr_to_trb: PhysAddr,
}

impl ReceiveFuture {
    /// The address of the request.
    pub closed spec fn addr(self) -> u64 {
        self.addr_to_trb@
    }

    /// The wait for the completion of the request at `addr_to_trb`.
    pub fn new(addr_to_trb: PhysAddr) -> (r: ReceiveFuture)
        ensures
            r.addr() == addr_to_trb@,
    {
        ReceiveFuture { addr_to_trb }
    }

    /// Looks whether the completion has arrived, and takes it out of
    /// `receiver` if so. The address has to be registered.
    pub fn poll(&self, receiver: &mut Receiver) -> (r: Received)
        requires
            old(receiver).wf(),
            old(receiver)@.registered(self.addr()),
        ensures
            final(receiver).wf(),
            final(receiver)@ == old(receiver)@.take(self.addr()).0,
            match r {
                Received::Ready(trb) => old(receiver)@.take(self.addr()).1 == Ok::<
                    Option<Completion>,
                    Error,
                >(Some(trb)),
                Received::Pending => old(receiver)@.take(self.addr()).1 == Ok::<
                    Option<Completion>,
                    Error,
                >(None),
            },
    {
        match receiver.take(self.addr_to_trb) {
            Ok(Some(trb)) => Received::Ready(trb),
            Ok(None) => Received::Pending,
            Err(_) => unreached(),
        }
    }
}

/// Why a request was not sent.
#[derive(Clone, Copy, Debug, PartialEq, Eq, Structural)]
pub enum SendError {
    /// The ring takes no record.
    QueueIsFull,
    /// The address that the record would get is registered: a completion
    /// for it is still awaited or was not taken.
    AlreadyRegistered,
}

/// One side of an exchange with the controller: it registers the requests
/// that it has sent and waits for their completions.
#[derive(Clone, Copy, Debug)]
pub struct Transferor {
    waker: TaskWaker,
}

impl Transferor {
    /// The handle that wakes the task of this side.
    pub closed spec fn waker(self) -> TaskWaker {
        self.waker
    }

    /// The side of the task that `waker` wakes.
    pub fn new(waker: TaskWaker) -> (r: Transferor)
        ensures
            r.waker() == waker,
    {
        Transferor { waker }
    }

    /// Registers the request at `addr_to_trb` with `receiver`.
    pub fn try_register_with_receiver(&self, receiver: &mut Receiver, addr_to_trb: PhysAddr) -> (r:
        Result<(), Error>)
        requires
            old(receiver).wf(),
        ensures
            final(receiver).wf(),
            (final(receiver)@, r) == old(receiver)@.try_insert(addr_to_trb@, self.waker()),
    {
        receiver.try_insert(addr_to_trb, self.waker)
    }

    /// Sends the transfer `trb` on `ring` and registers it with `receiver`.
    ///
    /// The address that the record will get is registered first, so that its
    /// completion cannot arrive before the registration. The call fails, and
    /// nothing changes, when the ring is full, or else when the address is
    /// registered. On success the result is the address of the record and
    /// the doorbell write that tells the controller of it.
    pub fn send(&self, ring: &mut transfer::Ring, receiver: &mut Receiver, trb: Trb) -> (r: Result<
        (PhysAddr, Doorbell),
        SendError,
    >)
        requires
            old(ring).wf(),
            old(receiver).wf(),
        ensures
            final(ring).wf(),
            final(receiver).wf(),
            final(ring).slot_id() == old(ring).slot_id(),
            final(ring).endpoint() == old(ring).endpoint(),
            match r {
                Ok((a, doorbell)) => {
                    &&& !old(ring)@.full()
                    &&& a@ == old(ring)@.slot_addr(old(ring)@.enqueue_ptr)
                    &&& doorbell == (Doorbell {
                        index: old(ring).slot_id(),
                        target: old(ring).endpoint(),
                    })
                    &&& final(ring)@ == old(ring)@.send(trb.raw())
                    &&& (final(receiver)@, Ok::<(), Error>(())) == old(receiver)@.try_insert(
                        a@,
                        self.waker(),
                    )
                },
                Err(e) => {
                    &&& final(ring)@ == old(ring)@
                    &&& final(receiver)@ == old(receiver)@
                    &&& e == (if old(ring)@.full() {
                        SendError::QueueIsFull
                    } else {
                        SendError::AlreadyRegistered
                    })
                    &&& old(ring)@.full() || old(receiver)@.registered(
                        old(ring)@.slot_addr(old(ring)@.enqueue_ptr) as u64,
                    )
                },
            },
    {
        if ring.full() {
            return Err(SendError::QueueIsFull);
        }
        let addr_to_trb = ring.addr_to_enqueue_ptr();
        match receiver.try_insert(addr_to_trb, self.waker) {
            Ok(()) => {},
            Err(_) => {
                return Err(SendError::AlreadyRegistered);
            },
        }
        match ring.send(trb) {
            Ok(a) => Ok((a, ring.doorbell())),
            Err(_) => unreached(),
        }
    }

    /// Sends the command `trb` on `ring` and registers it with `receiver`,
    /// as [`Transferor::send`] does for a transfer.
    pub fn send_command(&self, ring: &mut command::Ring, receiver: &mut Receiver, trb: Trb) -> (r:
        Result<(PhysAddr, Doorbell), SendError>)
        requires
            old(ring).wf(),
            old(receiver).wf(),
        ensures
            final(ring).wf(),
            final(receiver).wf(),
            match r {
                Ok((a, doorbell)) => {
                    &&& !old(ring)@.full()
                    &&& a@ == old(ring)@.slot_addr(old(ring)@.enqueue_ptr)
                    &&& doorbell == (Doorbell { index: 0, target: 0 })
                    &&& final(ring)@ == old(ring)@.send(trb.raw())
                    &&& (final(receiver)@, Ok::<(), Error>(())) == old(receiver)@.try_insert(
                        a@,
                        self.waker(),
                    )
                },
                Err(e) => {
                    &&& final(ring)@ == old(ring)@
                    &&& final(receiver)@ == old(receiver)@
                    &&& e == (if old(ring)@.full() {
                        SendError::QueueIsFull
                    } else {
                        SendError::AlreadyRegistered
                    })
                    &&& old(ring)@.full() || old(receiver)@.registered(
                        old(ring)@.slot_addr(old(ring)@.enqueue_ptr) as u64,
                    )
                },
            },
    {
        if ring.full() {
            return Err(SendError::QueueIsFull);
        }
        let addr_to_trb = ring.addr_to_enqueue_ptr();
        match receiver.try_insert(addr_to_trb, self.waker) {
            Ok(()) => {},
            Err(_) => {
                return Err(SendError::AlreadyRegistered);
            },
        }
        match ring.send(trb) {
            Ok(a) => Ok((a, ring.notify_command_is_sent())),
            Err(_) => unreached(),
        }
    }

    /// The wait for the completion of the request at `addr_to_trb`.
    pub fn get_trb(&self, addr_to_trb: PhysAddr) -> (r: ReceiveFuture)
        ensures
            r.addr() == addr_to_trb@,
    {
        ReceiveFuture::new(addr_to_trb)
    }
}

} // verus!
