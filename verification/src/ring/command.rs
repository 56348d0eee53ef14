//! The ring on which software sends commands to the controller.
//!
//! Software is the producer. It may write the slot under its cursor when the
//! cycle bit of that slot differs from its own; it stamps its own cycle bit
//! into what it writes. The last slot is kept for a link record that sends
//! the controller back to slot 0: when the cursor reaches it, the link is
//! written, the cursor returns to slot 0 and the producer's cycle bit turns
//! over.

use crate::addr::{aligned_to, PhysAddr, ADDR_LIMIT};
use crate::bits::insert_bit;
use crate::ring::trb;
use crate::ring::trb::{
    cycle_of, decode, encode, lemma_control_word_update, lemma_cycle_update, lemma_decode_encode,
    raw_cycle, Entry, Trb, ID_LINK,
};
use crate::ring::{CycleBit, Doorbell, Raw, SLOT_SIZE};
use vstd::prelude::*;

verus! {

/// The number of slots of a command ring: one page of 16-byte records.
pub const SIZE_OF_RING: usize = 256;

/// Why a command was not sent.
#[derive(Clone, Copy, Debug, PartialEq, Eq, Structural)]
pub enum Error {
    /// The slot under the cursor is not the producer's to write.
    QueueIsFull,
}

/// What a producer ring is made of: its slots, each as four words, the
/// address of slot 0, the cursor and the producer's cycle bit.
pub struct State {
    pub slots: Seq<Seq<u32>>,
    pub base: u64,
    pub enqueue_ptr: int,
    pub cycle: bool,
}

/// `raw` with the cycle bit `cycle` stamped into it.
pub open spec fn stamped(raw: Seq<u32>, cycle: bool) -> Seq<u32> {
    raw.update(3, insert_bit(raw[3], 0, cycle))
}

impl State {
    /// There are at least two slots, the cursor is on a slot before the
    /// last, and every slot has a physical address.
    pub open spec fn wf(self) -> bool {
        &&& 2 <= self.slots.len() <= usize::MAX
        &&& 0 <= self.enqueue_ptr < self.slots.len() - 1
        &&& self.base + SLOT_SIZE * self.slots.len() <= ADDR_LIMIT
    }

    /// The number of records that fit in the ring: every slot but the last,
    /// which holds the link.
    pub open spec fn capacity(self) -> int {
        self.slots.len() - 1
    }

    /// Whether slot `index` is the producer's to write: whether its cycle bit
    /// differs from the producer's.
    pub open spec fn owned_by_software(self, index: int) -> bool {
        raw_cycle(self.slots[index]) != self.cycle
    }

    /// Whether the ring refuses a record: whether the slot under the cursor
    /// is not the producer's.
    pub open spec fn full(self) -> bool {
        !self.owned_by_software(self.enqueue_ptr)
    }

    /// The address of slot `index`.
    pub open spec fn slot_addr(self, index: int) -> int {
        self.base + SLOT_SIZE * index
    }

    /// The link record that closes the ring in the current lap.
    pub open spec fn link(self) -> Seq<u32> {
        encode(Entry::Link { ring_base: self.base, cycle: self.cycle })
    }

    /// The ring after `raw` was written under the cursor. Where the cursor
    /// then reaches the last slot, the link is written there, the cursor
    /// goes back to slot 0 and the cycle bit turns over.
    pub open spec fn enqueue(self, raw: Seq<u32>) -> State {
        if self.enqueue_ptr + 1 < self.slots.len() - 1 {
            State {
                slots: self.slots.update(self.enqueue_ptr, raw),
                enqueue_ptr: self.enqueue_ptr + 1,
                ..self
            }
        } else {
            State {
                slots: self.slots.update(self.enqueue_ptr, raw).update(
                    self.slots.len() - 1,
                    self.link(),
                ),
                enqueue_ptr: 0,
                cycle: !self.cycle,
                ..self
            }
        }
    }

    /// The ring after `raw` was sent: stamped with the producer's cycle bit
    /// and written under the cursor.
    pub open spec fn send(self, raw: Seq<u32>) -> State {
        self.enqueue(stamped(raw, self.cycle))
    }

    /// The ring after the controller has turned the cycle bit of slot `index`
    /// over, which hands the slot to the other side.
    pub open spec fn flip(self, index: int) -> State {
        State {
            slots: self.slots.update(
                index,
                stamped(self.slots[index], !raw_cycle(self.slots[index])),
            ),
            ..self
        }
    }

    /// The ring after the controller has turned the cycle bits of the first
    /// `n` slots over.
    pub open spec fn flip_first(self, n: nat) -> State
        decreases n,
    {
        if n == 0 {
            self
        } else {
            self.flip_first((n - 1) as nat).flip(n - 1)
        }
    }

    /// The ring after the records of `raws` were sent one after the other, or
    /// `None` where the ring refused one of them.
    pub open spec fn send_all(self, raws: Seq<Seq<u32>>) -> Option<State>
        decreases raws.len(),
    {
        if raws.len() == 0 {
            Some(self)
        } else if self.full() {
            None
        } else {
            self.send(raws.first()).send_all(raws.drop_first())
        }
    }
}

impl State {
    /// A record that was sent belongs to the controller: the slot that it
    /// went to carries the cycle bit that the producer had.
    pub proof fn lemma_send_hands_slot_over(self, raw: Seq<u32>)
        requires
            self.wf(),
            raw.len() == 4,
        ensures
            raw_cycle(self.send(raw).slots[self.enqueue_ptr]) == self.cycle,
            self.send(raw).wf(),
            self.send(raw).slots.len() == self.slots.len(),
            self.send(raw).base == self.base,
    {
        lemma_cycle_update(raw[3], self.cycle);
    }

    /// The ring never refuses a record before its capacity is used up: where
    /// the slots from the cursor to the last record slot are the producer's,
    /// as many records as there are such slots are all accepted. They lie in
    /// the order in which they were sent, each stamped with the producer's
    /// cycle bit, and the slots before the cursor keep what they held. Where
    /// the records end before the last record slot, the cursor is behind
    /// them and the rest of the ring is as it was; where they fill it, the
    /// link closes the lap, the cursor is back on slot 0 and the cycle bit
    /// has turned over.
    pub proof fn lemma_accepts_up_to_capacity(self, raws: Seq<Seq<u32>>)
        requires
            self.wf(),
            forall|i: int| self.enqueue_ptr <= i < self.capacity() ==> self.owned_by_software(i),
            raws.len() <= self.capacity() - self.enqueue_ptr,
            forall|i: int| 0 <= i < raws.len() ==> (#[trigger] raws[i]).len() == 4,
        ensures
            self.send_all(raws) is Some,
            ({
                let after = self.send_all(raws)->Some_0;
                &&& after.wf()
                &&& after.base == self.base
                &&& after.slots.len() == self.slots.len()
                &&& forall|i: int|
                    0 <= i < raws.len() ==> #[trigger] after.slots[self.enqueue_ptr + i] == stamped(
                        raws[i],
                        self.cycle,
                    )
                &&& forall|i: int| 0 <= i < self.enqueue_ptr ==> after.slots[i] == self.slots[i]
                &&& raws.len() < self.capacity() - self.enqueue_ptr ==> {
                    &&& after.enqueue_ptr == self.enqueue_ptr + raws.len()
                    &&& after.cycle == self.cycle
                    &&& forall|i: int|
                        self.enqueue_ptr + raws.len() <= i < self.slots.len() ==> after.slots[i]
                            == self.slots[i]
                }
                &&& raws.len() == self.capacity() - self.enqueue_ptr ==> {
                    &&& after.enqueue_ptr == 0
                    &&& after.cycle == !self.cycle
                    &&& after.slots[self.capacity()] == self.link()
                }
            }),
        decreases raws.len(),
    {
        if raws.len() > 0 {
            let next = self.send(raws.first());
            let rest = raws.drop_first();
            self.lemma_send_hands_slot_over(raws.first());
            assert(self.owned_by_software(self.enqueue_ptr));
            assert(forall|i: int| 0 <= i < rest.len() ==> rest[i] == raws[i + 1]);
            if self.enqueue_ptr + 1 < self.capacity() {
                assert forall|i: int| next.enqueue_ptr <= i < next.capacity() implies next.owned_by_software(
                    i,
                ) by {
                    assert(self.owned_by_software(i));
                }
                next.lemma_accepts_up_to_capacity(rest);
                let after = next.send_all(rest)->Some_0;
                assert forall|i: int| 0 <= i < raws.len() implies #[trigger] after.slots[self.enqueue_ptr
                    + i] == stamped(raws[i], self.cycle) by {
                    if i > 0 {
                        assert(after.slots[next.enqueue_ptr + (i - 1)] == stamped(
                            rest[i - 1],
                            next.cycle,
                        ));
                    }
                }
            } else {
                assert(rest.len() == 0);
                assert(next.send_all(rest) == Some(next));
            }
        }
    }

    /// After a full lap over a ring whose record slots were all the
    /// producer's, every record slot is the producer's again: the records of
    /// the lap carry the cycle bit that the producer had, and the producer's
    /// cycle bit has turned over. The ring refuses the next record only if
    /// the cycle bit of slot 0 is changed in between.
    pub proof fn lemma_lap_returns_slots(self, raws: Seq<Seq<u32>>)
        requires
            self.wf(),
            self.enqueue_ptr == 0,
            forall|i: int| 0 <= i < self.capacity() ==> self.owned_by_software(i),
            raws.len() == self.capacity(),
            forall|i: int| 0 <= i < raws.len() ==> (#[trigger] raws[i]).len() == 4,
        ensures
            self.send_all(raws) is Some,
            ({
                let after = self.send_all(raws)->Some_0;
                &&& after.enqueue_ptr == 0
                &&& after.cycle == !self.cycle
                &&& forall|i: int| 0 <= i < after.capacity() ==> after.owned_by_software(i)
                &&& !after.full()
                &&& decode(after.slots[after.capacity()]) == Ok::<Entry, trb::Error>(
                    Entry::Link { ring_base: self.base, cycle: self.cycle },
                )
            }),
    {
        self.lemma_accepts_up_to_capacity(raws);
        let after = self.send_all(raws)->Some_0;
        assert forall|i: int| 0 <= i < after.capacity() implies after.owned_by_software(i) by {
            assert(after.slots[self.enqueue_ptr + i] == stamped(raws[i], self.cycle));
            lemma_cycle_update(raws[i][3], self.cycle);
        }
        lemma_decode_encode(Entry::Link { ring_base: self.base, cycle: self.cycle });
    }
}

impl State {
    /// Turning the cycle bits of the first `n` slots over changes those
    /// slots and nothing else.
    pub proof fn lemma_flip_first(self, n: nat)
        requires
            n <= self.slots.len(),
            forall|i: int| 0 <= i < n ==> (#[trigger] self.slots[i]).len() == 4,
        ensures
            self.flip_first(n).slots.len() == self.slots.len(),
            self.flip_first(n).base == self.base,
            self.flip_first(n).enqueue_ptr == self.enqueue_ptr,
            self.flip_first(n).cycle == self.cycle,
            forall|i: int|
                0 <= i < n ==> raw_cycle(#[trigger] self.flip_first(n).slots[i]) == !raw_cycle(
                    self.slots[i],
                ),
            forall|i: int|
                n <= i < self.slots.len() ==> #[trigger] self.flip_first(n).slots[i]
                    == self.slots[i],
        decreases n,
    {
        if n > 0 {
            self.lemma_flip_first((n - 1) as nat);
            let before = self.flip_first((n - 1) as nat);
            assert(before.slots[n - 1] == self.slots[n - 1]);
            lemma_cycle_update(self.slots[n - 1][3], !raw_cycle(self.slots[n - 1]));
        }
    }

    /// When a full ring is met. Records are sent to a ring whose record
    /// slots were all the producer's, as many as fit at most, and the
    /// controller then turns the cycle bits of the first `consumed` of them
    /// over. While records still fit, the ring is not full, whatever the
    /// controller has turned over. When the lap is complete, the ring is
    /// full exactly when the controller has turned the cycle bit of slot 0
    /// over: a record that it has left alone carries the cycle bit of the
    /// lap before and is written over.
    pub proof fn lemma_full_after_consumption(self, raws: Seq<Seq<u32>>, consumed: nat)
        requires
            self.wf(),
            self.enqueue_ptr == 0,
            forall|i: int| 0 <= i < self.capacity() ==> self.owned_by_software(i),
            raws.len() <= self.capacity(),
            forall|i: int| 0 <= i < raws.len() ==> (#[trigger] raws[i]).len() == 4,
            consumed <= raws.len(),
        ensures
            self.send_all(raws) is Some,
            self.send_all(raws)->Some_0.flip_first(consumed).full() == (raws.len()
                == self.capacity() && consumed >= 1),
    {
        self.lemma_accepts_up_to_capacity(raws);
        let sent = self.send_all(raws)->Some_0;
        assert forall|i: int| 0 <= i < consumed implies (#[trigger] sent.slots[i]).len() == 4 by {
            assert(sent.slots[self.enqueue_ptr + i] == stamped(raws[i], self.cycle));
        }
        sent.lemma_flip_first(consumed);
        let after = sent.flip_first(consumed);
        if raws.len() == self.capacity() {
            assert(sent.slots[self.enqueue_ptr + 0] == stamped(raws[0], self.cycle));
            lemma_cycle_update(raws[0][3], self.cycle);
            if consumed >= 1 {
                assert(raw_cycle(after.slots[0]) == !raw_cycle(sent.slots[0]));
            } else {
                assert(after.slots[0] == sent.slots[0]);
            }
        } else {
            assert(after.slots[after.enqueue_ptr] == sent.slots[after.enqueue_ptr]);
            assert(self.owned_by_software(after.enqueue_ptr));
        }
    }
}

/// The producer side of a command ring.
pub struct Ring {
    raw: Raw,
    enqueue_ptr: usize,
    cycle_bit: CycleBit,
}

impl View for Ring {
    type V = State;

    closed spec fn view(&self) -> State {
        State {
            slots: self.raw.slots(),
            base: self.raw.base(),
            enqueue_ptr: self.enqueue_ptr as int,
            cycle: self.cycle_bit@,
        }
    }
}

impl Ring {
    /// The ring is one that [`State::wf`] describes.
    pub closed spec fn wf(self) -> bool {
        &&& self.raw.wf()
        &&& self@.wf()
    }

    /// What follows from well-formedness over the view.
    pub proof fn lemma_wf(self)
        requires
            self.wf(),
        ensures
            self@.wf(),
    {
    }

    /// A ring of [`SIZE_OF_RING`] slots that the controller sees at `base`.
    /// Every slot is zero, the cursor is at slot 0 and the cycle bit is set.
    pub fn new(base: PhysAddr) -> (r: Ring)
        requires
            base@ + SLOT_SIZE * SIZE_OF_RING <= ADDR_LIMIT,
        ensures
            r.wf(),
            r@.slots == Seq::new(
                SIZE_OF_RING as nat,
                |i: int| seq![0u32, 0u32, 0u32, 0u32],
            ),
            r@.base == base@,
            r@.enqueue_ptr == 0,
            r@.cycle,
    {
        Ring { raw: Raw::new(SIZE_OF_RING, base), enqueue_ptr: 0, cycle_bit: CycleBit::new(true) }
    }

    /// Sends an enable-slot command. On success the result is the address of
    /// the slot that holds it; the caller then rings the doorbell.
    pub fn send_enable_slot(&mut self) -> (r: Result<PhysAddr, Error>)
        requires
            old(self).wf(),
        ensures
            final(self).wf(),
            match r {
                Ok(a) => {
                    &&& !old(self)@.full()
                    &&& a@ == old(self)@.slot_addr(old(self)@.enqueue_ptr)
                    &&& final(self)@ == old(self)@.send(encode(Entry::EnableSlot { cycle: false }))
                },
                Err(e) => e == Error::QueueIsFull && old(self)@.full() && final(self)@ == old(self)@,
            },
    {
        let enable_slot = Trb::new_enable_slot();
        self.send(enable_slot)
    }

    /// Sends an address-device command for the slot `slot_id`.
    /// `addr_to_input_context` must be a multiple of 16. On success the
    /// result is the address of the slot that holds the command; the caller
    /// then rings the doorbell.
    pub fn send_address_device(&mut self, addr_to_input_context: PhysAddr, slot_id: u8) -> (r:
        Result<PhysAddr, Error>)
        requires
            old(self).wf(),
            aligned_to(addr_to_input_context@, 16),
        ensures
            final(self).wf(),
            match r {
                Ok(a) => {
                    &&& !old(self)@.full()
                    &&& a@ == old(self)@.slot_addr(old(self)@.enqueue_ptr)
                    &&& final(self)@ == old(self)@.send(
                        encode(
                            Entry::AddressDevice {
                                input_context_addr: addr_to_input_context@,
                                slot_id,
                                cycle: false,
                            },
                        ),
                    )
                },
                Err(e) => e == Error::QueueIsFull && old(self)@.full() && final(self)@ == old(self)@,
            },
    {
        let address_device = Trb::new_address_device(addr_to_input_context, slot_id);
        self.send(address_device)
    }

    /// Sends a configure-endpoint command for the slot `slot_id`.
    /// `context_addr` must be a multiple of 16. On success the result is the
    /// address of the slot that holds the command; the caller then rings the
    /// doorbell.
    pub fn send_configure_endpoint(&mut self, context_addr: PhysAddr, slot_id: u8) -> (r: Result<
        PhysAddr,
        Error,
    >)
        requires
            old(self).wf(),
            aligned_to(context_addr@, 16),
        ensures
            final(self).wf(),
            match r {
                Ok(a) => {
                    &&& !old(self)@.full()
                    &&& a@ == old(self)@.slot_addr(old(self)@.enqueue_ptr)
                    &&& final(self)@ == old(self)@.send(
                        encode(
                            Entry::ConfigureEndpoint {
                                context_addr: context_addr@,
                                slot_id,
                                cycle: false,
                            },
                        ),
                    )
                },
                Err(e) => e == Error::QueueIsFull && old(self)@.full() && final(self)@ == old(self)@,
            },
    {
        let configure_endpoint = Trb::new_configure_endpoint(context_addr, slot_id);
        self.send(configure_endpoint)
    }

    /// Sends `trb`: stamps the producer's cycle bit into it and writes it
    /// under the cursor. The ring refuses it exactly when the slot under the
    /// cursor is not the producer's; then nothing changes. On success the
    /// result is the address of the slot that holds the record.
    pub fn send(&mut self, trb: Trb) -> (r: Result<PhysAddr, Error>)
        requires
            old(self).wf(),
        ensures
            final(self).wf(),
            match r {
                Ok(a) => {
                    &&& !old(self)@.full()
                    &&& a@ == old(self)@.slot_addr(old(self)@.enqueue_ptr)
                    &&& final(self)@ == old(self)@.send(trb.raw())
                },
                Err(e) => e == Error::QueueIsFull && old(self)@.full() && final(self)@ == old(self)@,
            },
    {
        let mut trb = trb;
        trb.set_c(self.cycle_bit);
        self.try_enqueue(trb)
    }

    /// The address at which the controller sees slot 0.
    pub fn phys_addr(&self) -> (r: PhysAddr)
        ensures
            r@ == self@.base,
    {
        self.raw.phys_addr()
    }

    /// The record in slot `index`.
    pub fn slot(&self, index: usize) -> (r: [u32; 4])
        requires
            index < self@.slots.len(),
        ensures
            r@ == self@.slots[index as int],
    {
        self.raw.get(index)
    }

    /// Stores `raw` in slot `index`, as the controller does when it hands a
    /// slot back; the other slots, the cursor and the cycle bit stay.
    pub fn write_slot(&mut self, index: usize, raw: [u32; 4])
        requires
            old(self).wf(),
            index < old(self)@.slots.len(),
        ensures
            final(self).wf(),
            final(self)@ == (State {
                slots: old(self)@.slots.update(index as int, raw@),
                ..old(self)@
            }),
    {
        self.raw.set(index, raw);
    }

    /// Writes `trb` under the cursor unless the ring is full.
    fn try_enqueue(&mut self, trb: Trb) -> (r: Result<PhysAddr, Error>)
        requires
            old(self).wf(),
        ensures
            final(self).wf(),
            match r {
                Ok(a) => {
                    &&& !old(self)@.full()
                    &&& a@ == old(self)@.slot_addr(old(self)@.enqueue_ptr)
                    &&& final(self)@ == old(self)@.enqueue(trb.raw())
                },
                Err(e) => e == Error::QueueIsFull && old(self)@.full() && final(self)@ == old(self)@,
            },
    {
        if self.full() {
            Err(Error::QueueIsFull)
        } else {
            Ok(self.enqueue(trb))
        }
    }

    /// Whether the slot under the cursor is not the producer's to write.
    pub fn full(&self) -> (r: bool)
        requires
            self.wf(),
        ensures
            r == self@.full(),
    {
        let raw: [u32; 4] = self.raw.get(self.enqueue_ptr);
        cycle_of(&raw) == self.cycle_bit.as_bool()
    }

    /// Writes `trb` under the cursor and moves the cursor on.
    fn enqueue(&mut self, trb: Trb) -> (r: PhysAddr)
        requires
            old(self).wf(),
        ensures
            final(self).wf(),
            r@ == old(self)@.slot_addr(old(self)@.enqueue_ptr),
            final(self)@ == old(self)@.enqueue(trb.raw()),
    {
        self.write_trb_on_memory(trb);
        let addr_to_trb = self.addr_to_enqueue_ptr();
        self.increment_enqueue_ptr();
        addr_to_trb
    }

    /// Writes `trb` under the cursor.
    fn write_trb_on_memory(&mut self, trb: Trb)
        requires
            old(self).wf(),
        ensures
            final(self).wf(),
            final(self)@ == (State {
                slots: old(self)@.slots.update(old(self)@.enqueue_ptr, trb.raw()),
                ..old(self)@
            }),
    {
        self.raw.set(self.enqueue_ptr, trb.into_raw());
    }

    /// The doorbell write that tells the controller of a command that was
    /// sent: register 0 gets the value 0.
    pub fn notify_command_is_sent(&self) -> (r: Doorbell)
        ensures
            r == (Doorbell { index: 0, target: 0 }),
    {
        Doorbell { index: 0, target: 0 }
    }

    /// The address of the slot under the cursor: the address that the next
    /// record gets.
    pub fn addr_to_enqueue_ptr(&self) -> (r: PhysAddr)
        requires
            self.wf(),
        ensures
            r@ == self@.slot_addr(self@.enqueue_ptr),
    {
        self.raw.addr_of(self.enqueue_ptr)
    }

    /// Moves the cursor on; where it reaches the last slot, closes the lap.
    fn increment_enqueue_ptr(&mut self)
        requires
            old(self).wf(),
        ensures
            final(self).wf(),
            final(self)@ == (if old(self)@.enqueue_ptr + 1 < old(self)@.slots.len() - 1 {
                State { enqueue_ptr: old(self)@.enqueue_ptr + 1, ..old(self)@ }
            } else {
                State {
                    slots: old(self)@.slots.update(
                        old(self)@.slots.len() - 1,
                        old(self)@.link(),
                    ),
                    enqueue_ptr: 0,
                    cycle: !old(self)@.cycle,
                    ..old(self)@
                }
            }),
    {
        self.enqueue_ptr += 1;
        if self.enqueue_ptr < self.len() - 1 {
            return ;
        }
        self.append_link_trb();
        self.move_enqueue_ptr_to_the_beginning();
    }

    /// The number of slots.
    pub fn len(&self) -> (r: usize)
        ensures
            r == self@.slots.len(),
    {
        self.raw.len()
    }

    /// Writes the link of the current lap into the last slot.
    fn append_link_trb(&mut self)
        requires
            old(self).raw.wf(),
            old(self)@.slots.len() >= 2,
            old(self).enqueue_ptr == old(self)@.slots.len() - 1,
        ensures
            final(self).raw.wf(),
            final(self)@ == (State {
                slots: old(self)@.slots.update(
                    old(self)@.slots.len() - 1,
                    old(self)@.link(),
                ),
                ..old(self)@
            }),
    {
        let mut link = Trb::new_link(self.phys_addr());
        link.set_c(self.cycle_bit);
        proof {
            lemma_link_stamped(self@.base, self@.cycle);
        }
        self.raw.set(self.enqueue_ptr, link.into_raw());
    }

    /// Puts the cursor on slot 0 and turns the cycle bit over.
    fn move_enqueue_ptr_to_the_beginning(&mut self)
        requires
            old(self).raw.wf(),
        ensures
            final(self).raw.wf(),
            final(self)@ == (State { enqueue_ptr: 0, cycle: !old(self)@.cycle, ..old(self)@ }),
    {
        self.enqueue_ptr = 0;
        self.cycle_bit.toggle();
    }
}

/// Stamping a cycle bit into a link with the cycle bit clear gives the link
/// with that cycle bit.
proof fn lemma_link_stamped(base: u64, cycle: bool)
    ensures
        stamped(encode(Entry::Link { ring_base: base, cycle: false }), cycle) == encode(
            Entry::Link { ring_base: base, cycle },
        ),
{
    lemma_control_word_update(ID_LINK, 0, true, false, 0, 0, cycle);
    assert(stamped(encode(Entry::Link { ring_base: base, cycle: false }), cycle) =~= encode(
        Entry::Link { ring_base: base, cycle },
    ));
}

} // verus!
