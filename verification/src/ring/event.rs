//! The ring on which the controller reports what it has done.
//!
//! The controller is the producer and software the consumer. Software reads
//! the slot under its cursor when the cycle bit of that slot equals the one
//! it expects, and never writes the ring.

use crate::addr::{PhysAddr, ADDR_LIMIT};
use crate::multitask::task::Collection;
use crate::ring::trb::{
    cycle_of, decode, raw_cycle, raw_pointer, raw_type, Completion, Entry, Error, Trb,
    ID_COMMAND_COMPLETE, ID_TRANSFER_EVENT,
};
use crate::ring::{CycleBit, Raw, SLOT_SIZE};
use crate::transferor;
use crate::transferor::Receiver;
use vstd::prelude::*;

verus! {

/// What a consumer ring is made of: its slots, each as four words, the
/// address of slot 0, the cursor and the cycle bit that the consumer
/// expects.
pub struct State {
    pub slots: Seq<Seq<u32>>,
    pub base: u64,
    pub dequeue_ptr: int,
    pub cycle: bool,
}

impl State {
    /// There is a slot, the cursor is on one, and every slot has a physical
    /// address.
    pub open spec fn wf(self) -> bool {
        &&& 1 <= self.slots.len() <= usize::MAX
        &&& 0 <= self.dequeue_ptr < self.slots.len()
        &&& self.base + SLOT_SIZE * self.slots.len() <= ADDR_LIMIT
    }

    /// The record under the cursor.
    pub open spec fn front(self) -> Seq<u32> {
        self.slots[self.dequeue_ptr]
    }

    /// Whether there is nothing to read: whether the cycle bit of the record
    /// under the cursor differs from the expected one.
    pub open spec fn empty(self) -> bool {
        raw_cycle(self.front()) != self.cycle
    }

    /// The address of slot `index`.
    pub open spec fn slot_addr(self, index: int) -> int {
        self.base + SLOT_SIZE * index
    }

    /// The ring with the cursor one slot further; behind the last slot comes
    /// slot 0, and the expected cycle bit stays.
    pub open spec fn advance(self) -> State {
        State { dequeue_ptr: (self.dequeue_ptr + 1) % (self.slots.len() as int), ..self }
    }
}

/// The consumer side of an event ring.
pub struct Ring {
    raw: Raw,
    dequeue_ptr: usize,
    cycle_bit: CycleBit,
}

impl View for Ring {
    type V = State;

    closed spec fn view(&self) -> State {
        State {
            slots: self.raw.slots(),
            base: self.raw.base(),
            dequeue_ptr: self.dequeue_ptr as int,
            cycle: self.cycle_bit@,
        }
    }
}

impl Ring {
    /// The ring is one that [`State::wf`] describes.
    pub closed spec fn wf(self) -> bool {
        &&& self.raw.wf()
        &&& self@.wf()
    }

    /// What follows from well-formedness over the view.
    pub proof fn lemma_wf(self)
        requires
            self.wf(),
        ensures
            self@.wf(),
    {
    }

    /// A ring of `num_trb` slots that the controller sees at `base`. Every
    /// slot is zero, the cursor is at slot 0 and the expected cycle bit is
    /// set, so the ring is empty.
    pub fn new(num_trb: usize, base: PhysAddr) -> (r: Ring)
        requires
            0 < num_trb,
            base@ + SLOT_SIZE * num_trb <= ADDR_LIMIT,
        ensures
            r.wf(),
            r@.slots == Seq::new(num_trb as nat, |i: int| seq![0u32, 0u32, 0u32, 0u32]),
            r@.base == base@,
            r@.dequeue_ptr == 0,
            r@.cycle,
    {
        Ring { raw: Raw::new(num_trb, base), dequeue_ptr: 0, cycle_bit: CycleBit::new(true) }
    }

    /// The number of slots.
    pub fn len(&self) -> (r: usize)
        ensures
            r == self@.slots.len(),
    {
        self.raw.len()
    }

    /// The address at which the controller sees slot 0.
    pub fn phys_addr(&self) -> (r: PhysAddr)
        ensures
            r@ == self@.base,
    {
        self.raw.phys_addr()
    }

    /// The address of the slot under the cursor: what the controller's
    /// dequeue-pointer register has to hold.
    pub fn dequeue_addr(&self) -> (r: PhysAddr)
        requires
            self.wf(),
        ensures
            r@ == self@.slot_addr(self@.dequeue_ptr),
    {
        self.raw.addr_of(self.dequeue_ptr)
    }

    /// Stores `raw` in slot `index`, as the controller does when it reports
    /// an event; the other slots, the cursor and the expected cycle bit stay.
    pub fn write_slot(&mut self, index: usize, raw: [u32; 4])
        requires
            old(self).wf(),
            index < old(self)@.slots.len(),
        ensures
            final(self).wf(),
            final(self)@ == (State {
                slots: old(self)@.slots.update(index as int, raw@),
                ..old(self)@
            }),
    {
        self.raw.set(index, raw);
    }

    /// Whether there is nothing to read.
    pub fn empty(&self) -> (r: bool)
        requires
            self.wf(),
        ensures
            r == self@.empty(),
    {
        let raw: [u32; 4] = self.raw.get(self.dequeue_ptr);
        cycle_of(&raw) != self.cycle_bit.as_bool()
    }

    /// Reads the record under the cursor. The result is `None`, and nothing
    /// changes, exactly when the ring is empty. Otherwise the cursor moves
    /// on, and the result holds the record as [`Trb::try_from_raw`] reads it:
    /// the record with the words of the slot, or [`Error::InvalidId`] when
    /// the tag of the slot is none of the known ones.
    pub fn dequeue(&mut self) -> (r: Option<Result<Trb, Error>>)
        requires
            old(self).wf(),
        ensures
            final(self).wf(),
            match r {
                None => old(self)@.empty() && final(self)@ == old(self)@,
                Some(read) => {
                    &&& !old(self)@.empty()
                    &&& final(self)@ == old(self)@.advance()
                    &&& match read {
                        Ok(t) => t.wf() && t.raw() == old(self)@.front() && decode(
                            old(self)@.front(),
                        ) == Ok::<Entry, Error>(t@),
                        Err(e) => e == Error::InvalidId && decode(old(self)@.front()) == Err::<
                            Entry,
                            Error,
                        >(Error::InvalidId),
                    }
                },
            },
    {
        if self.empty() {
            return None;
        }
        let raw: [u32; 4] = self.raw.get(self.dequeue_ptr);
        self.increment_dequeue_ptr();
        Some(Trb::try_from_raw(raw))
    }

    /// Moves the cursor on; behind the last slot comes slot 0.
    fn increment_dequeue_ptr(&mut self)
        requires
            old(self).wf(),
        ensures
            final(self).wf(),
            final(self)@ == old(self)@.advance(),
    {
        let len: usize = self.raw.len();
        let index: usize = self.dequeue_ptr;
        if index + 1 < len {
            assert((index + 1) % (len as int) == index + 1) by (nonlinear_arith)
                requires
                    0 <= index + 1 < len,
            ;
            self.dequeue_ptr = index + 1;
        } else {
            assert((index + 1) % (len as int) == 0) by (nonlinear_arith)
                requires
                    index + 1 == len,
                    len > 0,
            ;
            self.dequeue_ptr = 0;
        }
    }
}

/// What became of a record that the event loop read.
#[derive(Clone, Copy, Debug, PartialEq, Eq)]
pub enum Handled {
    /// A completion: it was stored for the task that awaits it, and the
    /// task was woken if it had not been.
    Delivered(Completion),
    /// A completion for an address that nobody has registered: it is
    /// dropped, and the loop goes on.
    Spurious(Completion),
    /// A completion that was stored, but whose task could not be woken
    /// because the queue of woken tasks is full.
    NotWoken(Completion),
    /// A record that is no completion.
    Ignored(Trb),
    /// A record whose tag is none of the known ones.
    Unrecognized,
}

/// What the event loop has to do after one step.
#[derive(Clone, Copy, Debug, PartialEq, Eq)]
pub enum Step {
    /// There was nothing to read: suspend until woken.
    Suspend,
    /// A record was read: write `dequeue_pointer` to the controller's
    /// dequeue-pointer register, then step again.
    Consumed { dequeue_pointer: PhysAddr, handled: Handled },
}

/// Whether `raw` is the record of a completion.
pub open spec fn is_completion(raw: Seq<u32>) -> bool {
    raw_type(raw) == ID_COMMAND_COMPLETE || raw_type(raw) == ID_TRANSFER_EVENT
}

/// One step of the event loop: reads the record under the cursor of `ring`,
/// if there is one, and hands a completion to `receiver`, which wakes the
/// task that awaits it on `tasks`.
///
/// Where the ring is empty nothing changes and the loop has to suspend.
/// Otherwise the cursor moves on and the result names the address that the
/// controller's dequeue-pointer register has to get. A completion goes to
/// [`Receiver::try_receive`], whatever the outcome; every other record
/// leaves `receiver` and `tasks` as they are.
pub fn step(ring: &mut Ring, receiver: &mut Receiver, tasks: &mut Collection) -> (r: Step)
    requires
        old(ring).wf(),
        old(receiver).wf(),
        old(tasks).wf(),
    ensures
        final(ring).wf(),
        final(receiver).wf(),
        final(tasks).wf(),
        match r {
            Step::Suspend => {
                &&& old(ring)@.empty()
                &&& final(ring)@ == old(ring)@
                &&& final(receiver)@ == old(receiver)@
                &&& final(tasks)@ == old(tasks)@
            },
            Step::Consumed { dequeue_pointer, handled } => {
                let front = old(ring)@.front();
                let delivery = |trb: Completion|
                    old(receiver)@.try_receive(raw_pointer(front), trb, old(tasks)@);
                &&& !old(ring)@.empty()
                &&& final(ring)@ == old(ring)@.advance()
                &&& dequeue_pointer@ == final(ring)@.slot_addr(final(ring)@.dequeue_ptr)
                &&& match handled {
                    Handled::Delivered(trb) => {
                        &&& is_completion(front)
                        &&& trb.raw() == front
                        &&& (trb is Command) == (raw_type(front) == ID_COMMAND_COMPLETE)
                        &&& delivery(trb) == (final(receiver)@, final(tasks)@, Ok::<
                            (),
                            transferor::Error,
                        >(()))
                    },
                    Handled::Spurious(trb) => {
                        &&& is_completion(front)
                        &&& trb.raw() == front
                        &&& (trb is Command) == (raw_type(front) == ID_COMMAND_COMPLETE)
                        &&& delivery(trb) == (final(receiver)@, final(tasks)@, Err::<
                            (),
                            transferor::Error,
                        >(transferor::Error::NotRegistered))
                    },
                    Handled::NotWoken(trb) => {
                        &&& is_completion(front)
                        &&& trb.raw() == front
                        &&& (trb is Command) == (raw_type(front) == ID_COMMAND_COMPLETE)
                        &&& delivery(trb) == (final(receiver)@, final(tasks)@, Err::<
                            (),
                            transferor::Error,
                        >(transferor::Error::ReadyQueueFull))
                    },
                    Handled::Ignored(trb) => {
                        &&& !is_completion(front)
                        &&& trb.wf()
                        &&& trb.raw() == front
                        &&& final(receiver)@ == old(receiver)@
                        &&& final(tasks)@ == old(tasks)@
                    },
                    Handled::Unrecognized => {
                        &&& decode(front) is Err
                        &&& final(receiver)@ == old(receiver)@
                        &&& final(tasks)@ == old(tasks)@
                    },
                }
            },
        },
{
    let read = match ring.dequeue() {
        None => {
            return Step::Suspend;
        },
        Some(read) => read,
    };
    let dequeue_pointer = ring.dequeue_addr();
    let handled = match read {
        Err(_) => Handled::Unrecognized,
        Ok(Trb::CommandComplete(c)) => deliver(Completion::Command(c), receiver, tasks),
        Ok(Trb::TransferEvent(t)) => deliver(Completion::Transfer(t), receiver, tasks),
        Ok(trb) => Handled::Ignored(trb),
    };
    Step::Consumed { dequeue_pointer, handled }
}

/// Hands the completion `trb` to `receiver` and says what became of it.
fn deliver(trb: Completion, receiver: &mut Receiver, tasks: &mut Collection) -> (r: Handled)
    requires
        old(receiver).wf(),
        old(tasks).wf(),
    ensures
        final(receiver).wf(),
        final(tasks).wf(),
        ({
            let delivery = old(receiver)@.try_receive(raw_pointer(trb.raw()), trb, old(tasks)@);
            &&& delivery.0 == final(receiver)@
            &&& delivery.1 == final(tasks)@
            &&& r == (match delivery.2 {
                Ok(_) => Handled::Delivered(trb),
                Err(transferor::Error::ReadyQueueFull) => Handled::NotWoken(trb),
                Err(_) => Handled::Spurious(trb),
            })
            &&& delivery.2 != Err::<(), transferor::Error>(transferor::Error::AlreadyRegistered)
        }),
{
    match receiver.try_receive(trb, tasks) {
        Ok(()) => Handled::Delivered(trb),
        Err(transferor::Error::ReadyQueueFull) => Handled::NotWoken(trb),
        Err(_) => Handled::Spurious(trb),
    }
}

} // verus!
