//! The ring on which software hands the controller the transfers of one
//! endpoint.
//!
//! It is produced like the command ring; it also knows the device slot and
//! the endpoint that it belongs to, which its doorbell names.

use crate::addr::{PhysAddr, ADDR_LIMIT};
use crate::ring::command;
use crate::ring::command::{Error, State, SIZE_OF_RING};
use crate::ring::trb::Trb;
use crate::ring::{Doorbell, SLOT_SIZE};
use std::collections::BTreeMap;
use vstd::prelude::*;

verus! {

/// The producer side of the transfer ring of one endpoint.
pub struct Ring {
    ring: command::Ring,
    slot_id: u8,
    endpoint: u8,
}

impl View for Ring {
    type V = State;

    closed spec fn view(&self) -> State {
        self.ring@
    }
}

impl Ring {
    /// The ring is one that [`State::wf`] describes.
    pub closed spec fn wf(self) -> bool {
        self.ring.wf()
    }

    /// The device slot that the ring belongs to.
    pub closed spec fn slot_id(self) -> u8 {
        self.slot_id
    }

    /// The index of the endpoint that the ring belongs to.
    pub closed spec fn endpoint(self) -> u8 {
        self.endpoint
    }

    /// What follows from well-formedness over the view.
    pub proof fn lemma_wf(self)
        requires
            self.wf(),
        ensures
            self@.wf(),
    {
        self.ring.lemma_wf();
    }

    /// A ring of [`SIZE_OF_RING`] slots that the controller sees at `base`,
    /// for the endpoint `endpoint` of the device in slot `slot_id`. Every
    /// slot is zero, the cursor is at slot 0 and the cycle bit is set.
    pub fn new(base: PhysAddr, slot_id: u8, endpoint: u8) -> (r: Ring)
        requires
            base@ + SLOT_SIZE * SIZE_OF_RING <= ADDR_LIMIT,
        ensures
            r.wf(),
            r.slot_id() == slot_id,
            r.endpoint() == endpoint,
            r@.slots == Seq::new(
                SIZE_OF_RING as nat,
                |i: int| seq![0u32, 0u32, 0u32, 0u32],
            ),
            r@.base == base@,
            r@.enqueue_ptr == 0,
            r@.cycle,
    {
        Ring { ring: command::Ring::new(base), slot_id, endpoint }
    }

    /// Sends `trb`, as [`command::Ring::send`] does. On success the caller
    /// then rings the doorbell of the ring.
    pub fn send(&mut self, trb: Trb) -> (r: Result<PhysAddr, Error>)
        requires
            old(self).wf(),
        ensures
            final(self).wf(),
            final(self).slot_id() == old(self).slot_id(),
            final(self).endpoint() == old(self).endpoint(),
            match r {
                Ok(a) => {
                    &&& !old(self)@.full()
                    &&& a@ == old(self)@.slot_addr(old(self)@.enqueue_ptr)
                    &&& final(self)@ == old(self)@.send(trb.raw())
                },
                Err(e) => e == Error::QueueIsFull && old(self)@.full() && final(self)@ == old(
                    self,
                )@,
            },
    {
        self.ring.send(trb)
    }

    /// The number of slots.
    pub fn len(&self) -> (r: usize)
        ensures
            r == self@.slots.len(),
    {
        self.ring.len()
    }

    /// Whether the slot under the cursor is not the producer's to write.
    pub fn full(&self) -> (r: bool)
        requires
            self.wf(),
        ensures
            r == self@.full(),
    {
        self.ring.full()
    }

    /// The address that the next record gets.
    pub fn addr_to_enqueue_ptr(&self) -> (r: PhysAddr)
        requires
            self.wf(),
        ensures
            r@ == self@.slot_addr(self@.enqueue_ptr),
    {
        self.ring.addr_to_enqueue_ptr()
    }

    /// The address at which the controller sees slot 0.
    pub fn phys_addr(&self) -> (r: PhysAddr)
        ensures
            r@ == self@.base,
    {
        self.ring.phys_addr()
    }

    /// The record in slot `index`.
    pub fn slot(&self, index: usize) -> (r: [u32; 4])
        requires
            index < self@.slots.len(),
        ensures
            r@ == self@.slots[index as int],
    {
        self.ring.slot(index)
    }

    /// Stores `raw` in slot `index`, as the controller does when it hands a
    /// slot back; the other slots, the cursor and the cycle bit stay.
    pub fn write_slot(&mut self, index: usize, raw: [u32; 4])
        requires
            old(self).wf(),
            index < old(self)@.slots.len(),
        ensures
            final(self).wf(),
            final(self).slot_id() == old(self).slot_id(),
            final(self).endpoint() == old(self).endpoint(),
            final(self)@ == (State {
                slots: old(self)@.slots.update(index as int, raw@),
                ..old(self)@
            }),
    {
        self.ring.write_slot(index, raw);
    }

    /// The doorbell write that tells the controller of a transfer that was
    /// sent: the register of the device slot gets the index of the endpoint.
    pub fn doorbell(&self) -> (r: Doorbell)
        ensures
            r == (Doorbell { index: self.slot_id(), target: self.endpoint() }),
    {
        Doorbell { index: self.slot_id, target: self.endpoint }
    }
}

/// Why a transfer was not sent.
#[derive(Clone, Copy, Debug, PartialEq, Eq, Structural)]
pub enum SendError {
    /// The endpoint has no ring yet.
    NoRing,
    /// The ring of the endpoint takes no record.
    QueueIsFull,
}

/// The number under which the ring of an endpoint is kept: the device slot
/// in the upper byte, the index of the endpoint in the lower one.
pub open spec fn key_of(slot_id: u8, endpoint: u8) -> u64 {
    (slot_id * 256 + endpoint) as u64
}

/// What a transfer ring is: what it holds and whom it belongs to.
pub struct Described {
    pub state: State,
    pub slot_id: u8,
    pub endpoint: u8,
}

impl Ring {
    /// What the ring is.
    pub open spec fn described(self) -> Described {
        Described { state: self@, slot_id: self.slot_id(), endpoint: self.endpoint() }
    }
}

/// The transfer rings of all devices. A ring is made when its endpoint is
/// first used, not before.
pub struct Rings {
    rings: BTreeMap<u64, Ring>,
}

impl View for Rings {
    type V = Map<u64, Described>;

    /// What each ring is, under the number of its endpoint.
    closed spec fn view(&self) -> Map<u64, Described> {
        self.rings@.map_values(|ring: Ring| ring.described())
    }
}

impl Rings {
    /// Each ring is well-formed and stands under the number of the endpoint
    /// that it belongs to.
    pub closed spec fn wf(self) -> bool {
        forall|k: u64| #[trigger]
            self.rings@.contains_key(k) ==> self.rings@[k].wf() && k == key_of(
                self.rings@[k].slot_id(),
                self.rings@[k].endpoint(),
            )
    }

    /// What follows from well-formedness over the view.
    pub proof fn lemma_wf(self)
        requires
            self.wf(),
        ensures
            forall|k: u64| #[trigger]
                self@.contains_key(k) ==> self@[k].state.wf() && k == key_of(
                    self@[k].slot_id,
                    self@[k].endpoint,
                ),
    {
        assert forall|k: u64| #[trigger] self@.contains_key(k) implies self@[k].state.wf() && k
            == key_of(self@[k].slot_id, self@[k].endpoint) by {
            assert(self.rings@.contains_key(k));
            self.rings@[k].lemma_wf();
        }
    }

    /// Whether the endpoint `endpoint` of the device in slot `slot_id` has a
    /// ring.
    pub open spec fn has_ring(self, slot_id: u8, endpoint: u8) -> bool {
        self@.contains_key(key_of(slot_id, endpoint))
    }

    /// No rings.
    pub fn new() -> (r: Rings)
        ensures
            r.wf(),
            r@ == Map::<u64, Described>::empty(),
    {
        let r = Rings { rings: BTreeMap::new() };
        assert(r@ =~= Map::<u64, Described>::empty());
        r
    }

    /// The number under which the ring of an endpoint is kept.
    fn key(slot_id: u8, endpoint: u8) -> (r: u64)
        ensures
            r == key_of(slot_id, endpoint),
    {
        (slot_id as u64) * 256 + endpoint as u64
    }

    /// Whether the endpoint has a ring.
    pub fn contains(&self, slot_id: u8, endpoint: u8) -> (r: bool)
        ensures
            r == self.has_ring(slot_id, endpoint),
    {
        self.rings.contains_key(&Self::key(slot_id, endpoint))
    }

    /// Makes the ring of the endpoint at `base`, unless the endpoint has one:
    /// then nothing changes, and the result is `false`. A ring that is made
    /// has every slot zero, its cursor at slot 0 and its cycle bit set.
    pub fn create(&mut self, slot_id: u8, endpoint: u8, base: PhysAddr) -> (r: bool)
        requires
            old(self).wf(),
            base@ + SLOT_SIZE * SIZE_OF_RING <= ADDR_LIMIT,
        ensures
            final(self).wf(),
            r == !old(self).has_ring(slot_id, endpoint),
            !r ==> final(self)@ == old(self)@,
            r ==> final(self)@ == old(self)@.insert(
                key_of(slot_id, endpoint),
                Described {
                    state: State {
                        slots: Seq::new(
                            SIZE_OF_RING as nat,
                            |i: int| seq![0u32, 0u32, 0u32, 0u32],
                        ),
                        base: base@,
                        enqueue_ptr: 0,
                        cycle: true,
                    },
                    slot_id,
                    endpoint,
                },
            ),
    {
        let key: u64 = Self::key(slot_id, endpoint);
        if self.rings.contains_key(&key) {
            return false;
        }
        let ring = Ring::new(base, slot_id, endpoint);
        self.rings.insert(key, ring);
        proof {
            assert forall|k: u64| #[trigger] self.rings@.contains_key(k) implies self.rings@[k].wf()
                && k == key_of(self.rings@[k].slot_id(), self.rings@[k].endpoint()) by {
                if k != key {
                    assert(old(self).rings@.contains_key(k));
                }
            }
            assert(self@ =~= old(self)@.insert(key, ring.described()));
        }
        true
    }

    /// The record in slot `index` of the ring of the endpoint, or `None`
    /// where the endpoint has no ring or the ring no such slot.
    pub fn slot(&self, slot_id: u8, endpoint: u8, index: usize) -> (r: Option<[u32; 4]>)
        ensures
            match r {
                Some(raw) => {
                    &&& self.has_ring(slot_id, endpoint)
                    &&& index < self@[key_of(slot_id, endpoint)].state.slots.len()
                    &&& raw@ == self@[key_of(slot_id, endpoint)].state.slots[index as int]
                },
                None => !self.has_ring(slot_id, endpoint) || index >= self@[key_of(
                    slot_id,
                    endpoint,
                )].state.slots.len(),
            },
    {
        match self.rings.get(&Self::key(slot_id, endpoint)) {
            Some(ring) => {
                if index < ring.len() {
                    Some(ring.slot(index))
                } else {
                    None
                }
            },
            None => None,
        }
    }

    /// Stores `raw` in slot `index` of the ring of the endpoint, as the
    /// controller does when it hands a slot back. The result says whether
    /// there is such a slot; where there is none nothing changes.
    pub fn write_slot(&mut self, slot_id: u8, endpoint: u8, index: usize, raw: [u32; 4]) -> (r:
        bool)
        requires
            old(self).wf(),
        ensures
            final(self).wf(),
            r == (old(self).has_ring(slot_id, endpoint) && index < old(self)@[key_of(
                slot_id,
                endpoint,
            )].state.slots.len()),
            !r ==> final(self)@ == old(self)@,
            r ==> {
                let key = key_of(slot_id, endpoint);
                let before = old(self)@[key];
                final(self)@ == old(self)@.insert(
                    key,
                    Described {
                        state: State {
                            slots: before.state.slots.update(index as int, raw@),
                            ..before.state
                        },
                        ..before
                    },
                )
            },
    {
        let key: u64 = Self::key(slot_id, endpoint);
        let mut ring = match self.rings.remove(&key) {
            Some(ring) => ring,
            None => {
                proof {
                    assert(self@ =~= old(self)@);
                }
                return false;
            },
        };
        assert(old(self).rings@.contains_key(key));
        let ghost before = ring.described();
        let found = index < ring.len();
        if found {
            ring.write_slot(index, raw);
        }
        self.rings.insert(key, ring);
        proof {
            assert forall|k: u64| #[trigger] self.rings@.contains_key(k) implies self.rings@[k].wf()
                && k == key_of(self.rings@[k].slot_id(), self.rings@[k].endpoint()) by {
                if k != key {
                    assert(old(self).rings@.contains_key(k));
                }
            }
            assert(self@ =~= old(self)@.insert(key, ring.described()));
            if !found {
                assert(ring.described() == before);
                assert(self@ =~= old(self)@);
            }
        }
        found
    }

    /// Sends `trb` on the ring of the endpoint. It fails, and nothing
    /// changes, when the endpoint has no ring, or else when its ring is full.
    /// On success the result is the address of the record and the doorbell
    /// write that tells the controller of it; the other rings stay.
    pub fn send(&mut self, slot_id: u8, endpoint: u8, trb: Trb) -> (r: Result<
        (PhysAddr, Doorbell),
        SendError,
    >)
        requires
            old(self).wf(),
        ensures
            final(self).wf(),
            match r {
                Ok((a, doorbell)) => {
                    let key = key_of(slot_id, endpoint);
                    let before = old(self)@[key];
                    &&& old(self).has_ring(slot_id, endpoint)
                    &&& !before.state.full()
                    &&& a@ == before.state.slot_addr(before.state.enqueue_ptr)
                    &&& doorbell == (Doorbell { index: slot_id, target: endpoint })
                    &&& final(self)@ == old(self)@.insert(
                        key,
                        Described { state: before.state.send(trb.raw()), ..before },
                    )
                },
                Err(e) => {
                    &&& final(self)@ == old(self)@
                    &&& e == (if old(self).has_ring(slot_id, endpoint) {
                        SendError::QueueIsFull
                    } else {
                        SendError::NoRing
                    })
                    &&& old(self).has_ring(slot_id, endpoint) ==> old(self)@[key_of(
                        slot_id,
                        endpoint,
                    )].state.full()
                },
            },
    {
        let key: u64 = Self::key(slot_id, endpoint);
        let mut ring = match self.rings.remove(&key) {
            Some(ring) => ring,
            None => {
                proof {
                    assert(self@ =~= old(self)@);
                }
                return Err(SendError::NoRing);
            },
        };
        assert(old(self).rings@.contains_key(key));
        let ghost before = ring.described();
        let sent = ring.send(trb);
        let doorbell = ring.doorbell();
        self.rings.insert(key, ring);
        proof {
            assert forall|k: u64| #[trigger] self.rings@.contains_key(k) implies self.rings@[k].wf()
                && k == key_of(self.rings@[k].slot_id(), self.rings@[k].endpoint()) by {
                if k != key {
                    assert(old(self).rings@.contains_key(k));
                }
            }
            assert(self@ =~= old(self)@.insert(key, ring.described()));
        }
        match sent {
            Ok(a) => Ok((a, doorbell)),
            Err(_) => {
                proof {
                    assert(ring.described() == before);
                    assert(self@ =~= old(self)@);
                }
                Err(SendError::QueueIsFull)
            },
        }
    }
}

} // verus!
