//! The ring buffer that software shares with the controller.
//!
//! A ring is a fixed number of 16-byte slots. Each slot carries one bit, the
//! cycle bit, that says which side may write it: a producer owns the slots
//! whose cycle bit differs from its own, a consumer reads the slots whose
//! cycle bit equals the one it expects. Neither side reads the other's
//! cursor.

pub mod command;
pub mod event;
pub mod transfer;
pub mod trb;

use crate::addr::{byte_count, PhysAddr, ADDR_LIMIT};
use crate::ring::trb::{cycle_of, raw_cycle, Trb};
use vstd::prelude::*;

verus! {

/// The one-bit generation mark of a ring or of a slot.
#[derive(Clone, Copy, Debug, PartialEq, Eq, Structural)]
pub struct CycleBit(bool);

impl View for CycleBit {
    type V = bool;

    closed spec fn view(&self) -> bool {
        self.0
    }
}

impl CycleBit {
    /// The cycle bit with the value `val`.
    pub fn new(val: bool) -> (r: CycleBit)
        ensures
            r@ == val,
    {
        CycleBit(val)
    }

    /// Turns the bit over.
    pub fn toggle(&mut self)
        ensures
            final(self)@ == !old(self)@,
    {
        self.0 = !self.0;
    }

    /// The bit as a `bool`.
    pub fn as_bool(self) -> (r: bool)
        ensures
            r == self@,
    {
        self.0
    }
}

impl From<CycleBit> for bool {
    fn from(cycle_bit: CycleBit) -> (r: bool) {
        cycle_bit.0
    }
}

impl vstd::std_specs::convert::FromSpecImpl<CycleBit> for bool {
    open spec fn obeys_from_spec() -> bool {
        true
    }

    open spec fn from_spec(cycle_bit: CycleBit) -> bool {
        cycle_bit@
    }
}

/// A write to the doorbell registers, which tells the controller to look at
/// a ring: the register `index` gets the value `target`. Register 0 belongs
/// to the command ring; register `n` to the device in slot `n`, and the value
/// names the endpoint.
#[derive(Clone, Copy, Debug, PartialEq, Eq, Structural)]
pub struct Doorbell {
    pub index: u8,
    pub target: u8,
}

/// Why a ring took no record.
#[derive(Clone, Copy, Debug, PartialEq, Eq, Structural)]
pub enum Error {
    /// The slot under the cursor is not the producer's to write.
    Full,
}

/// The size of a slot in bytes.
pub const SLOT_SIZE: usize = 16;

/// The memory of a ring: its slots and the address at which the controller
/// sees the first of them. It also holds the cursor and the cycle bit of a
/// producer that wraps at the end of the memory.
pub struct Raw {
    arr: Vec<[u32; 4]>,
    base: PhysAddr,
    enqueue_ptr: usize,
    cycle_bit: CycleBit,
}

impl Raw {
    /// The slots, each as its four words.
    pub closed spec fn slots(self) -> Seq<Seq<u32>> {
        self.arr@.map_values(|slot: [u32; 4]| slot@)
    }

    /// The address at which the controller sees slot 0.
    pub closed spec fn base(self) -> u64 {
        self.base@
    }

    /// The index of the slot that the next record goes to.
    pub closed spec fn enqueue_index(self) -> int {
        self.enqueue_ptr as int
    }

    /// The cycle bit with which the next record is expected to be stamped.
    pub closed spec fn cycle(self) -> bool {
        self.cycle_bit@
    }

    /// The ring has a slot, its cursor points at one, and every slot has a
    /// physical address.
    pub closed spec fn wf(self) -> bool {
        &&& 0 < self.arr.len()
        &&& self.enqueue_ptr < self.arr.len()
        &&& self.base@ + SLOT_SIZE * self.arr.len() <= ADDR_LIMIT
    }

    /// What follows from well-formedness over the public names.
    pub proof fn lemma_wf(self)
        requires
            self.wf(),
        ensures
            0 < self.slots().len() <= usize::MAX,
            0 <= self.enqueue_index() < self.slots().len(),
            self.base() + SLOT_SIZE * self.slots().len() <= ADDR_LIMIT,
    {
    }

    /// The address of slot `index`.
    pub open spec fn slot_addr(self, index: int) -> int {
        self.base() + SLOT_SIZE * index
    }

    /// Whether the producer may write the slot under its cursor: whether the
    /// cycle bit of that slot differs from the producer's.
    pub open spec fn spec_enqueueable(self) -> bool {
        raw_cycle(self.slots()[self.enqueue_index()]) != self.cycle()
    }

    /// A ring of `num_trb` slots that the controller sees at `base`. Every
    /// slot is zero, the cursor is at slot 0 and the cycle bit is set.
    pub fn new(num_trb: usize, base: PhysAddr) -> (r: Raw)
        requires
            0 < num_trb,
            base@ + SLOT_SIZE * num_trb <= ADDR_LIMIT,
        ensures
            r.wf(),
            r.slots() == Seq::new(num_trb as nat, |i: int| seq![0u32, 0u32, 0u32, 0u32]),
            r.base() == base@,
            r.enqueue_index() == 0,
            r.cycle(),
    {
        let mut arr: Vec<[u32; 4]> = Vec::new();
        let mut i: usize = 0;
        while i < num_trb
            invariant
                i <= num_trb,
                arr.len() == i,
                forall|j: int| 0 <= j < i ==> (#[trigger] arr[j])@ == seq![0u32, 0u32, 0u32, 0u32],
            decreases num_trb - i,
        {
            let zero: [u32; 4] = [0; 4];
            assert(zero@ =~= seq![0u32, 0u32, 0u32, 0u32]);
            arr.push(zero);
            i += 1;
        }
        let r = Raw { arr, base, enqueue_ptr: 0, cycle_bit: CycleBit::new(true) };
        assert(r.slots() =~= Seq::new(num_trb as nat, |i: int| seq![0u32, 0u32, 0u32, 0u32]));
        r
    }

    /// The number of slots.
    pub fn len(&self) -> (r: usize)
        ensures
            r == self.slots().len(),
    {
        self.arr.len()
    }

    /// The address at which the controller sees slot 0.
    pub fn phys_addr(&self) -> (r: PhysAddr)
        ensures
            r@ == self.base(),
    {
        self.base
    }

    /// The address at which the controller sees slot `index`.
    pub fn addr_of(&self, index: usize) -> (r: PhysAddr)
        requires
            self.wf(),
            index < self.slots().len(),
        ensures
            r@ == self.slot_addr(index as int),
    {
        let size: u64 = byte_count(SLOT_SIZE) as u64;
        assert(size * index <= SLOT_SIZE * self.arr.len()) by (nonlinear_arith)
            requires
                size == SLOT_SIZE,
                index < self.arr.len(),
        ;
        self.base.offset(size * (index as u64))
    }

    /// The record in slot `index`.
    pub fn get(&self, index: usize) -> (r: [u32; 4])
        requires
            index < self.slots().len(),
        ensures
            r@ == self.slots()[index as int],
    {
        self.arr[index]
    }

    /// Stores `raw` in slot `index`; the other slots, the cursor and the
    /// cycle bit stay. This is also what the controller does to the memory
    /// of a ring.
    pub fn set(&mut self, index: usize, raw: [u32; 4])
        requires
            index < old(self).slots().len(),
        ensures
            final(self).slots() == old(self).slots().update(index as int, raw@),
            final(self).base() == old(self).base(),
            final(self).enqueue_index() == old(self).enqueue_index(),
            final(self).cycle() == old(self).cycle(),
            final(self).wf() == old(self).wf(),
    {
        self.arr.set(index, raw);
        assert(self.slots() =~= old(self).slots().update(index as int, raw@));
    }

    /// Whether the producer may write the slot under its cursor.
    pub fn enqueueable(&self) -> (r: bool)
        requires
            self.wf(),
        ensures
            r == self.spec_enqueueable(),
    {
        let raw: [u32; 4] = self.arr[self.enqueue_ptr];
        cycle_of(&raw) != self.cycle_bit.as_bool()
    }

    /// Stores `trb` in the slot under the cursor and moves the cursor on. At
    /// the end of the memory the cursor goes back to slot 0 and the cycle bit
    /// turns over. The result is the address of the slot that holds the
    /// record. Where the slot is not the producer's to write, the record is
    /// refused with [`Error::Full`] and nothing changes.
    pub fn enqueue(&mut self, trb: Trb) -> (r: Result<PhysAddr, Error>)
        requires
            old(self).wf(),
        ensures
            final(self).wf(),
            final(self).base() == old(self).base(),
            match r {
                Ok(a) => {
                    &&& old(self).spec_enqueueable()
                    &&& a@ == old(self).slot_addr(old(self).enqueue_index())
                    &&& final(self).slots() == old(self).slots().update(
                        old(self).enqueue_index(),
                        trb.raw(),
                    )
                    &&& final(self).enqueue_index() == (old(self).enqueue_index() + 1) % (old(
                        self,
                    ).slots().len() as int)
                    &&& final(self).cycle() == (if old(self).enqueue_index() + 1 == old(
                        self,
                    ).slots().len() {
                        !old(self).cycle()
                    } else {
                        old(self).cycle()
                    })
                },
                Err(e) => {
                    &&& e == Error::Full
                    &&& !old(self).spec_enqueueable()
                    &&& final(self).slots() == old(self).slots()
                    &&& final(self).enqueue_index() == old(self).enqueue_index()
                    &&& final(self).cycle() == old(self).cycle()
                },
            },
    {
        if !self.enqueueable() {
            return Err(Error::Full);
        }
        let index: usize = self.enqueue_ptr;
        let addr = self.addr_of(index);
        self.arr.set(index, trb.into_raw());
        assert(self.slots() =~= old(self).slots().update(index as int, trb.raw()));

        self.enqueue_ptr += 1;
        if self.enqueue_ptr < self.len() {
            assert((index + 1) % (self.arr.len() as int) == index + 1) by (nonlinear_arith)
                requires
                    0 <= index + 1 < self.arr.len(),
            ;
            return Ok(addr);
        }
        self.enqueue_ptr %= self.len();
        self.cycle_bit.toggle();
        Ok(addr)
    }
}

} // verus!
