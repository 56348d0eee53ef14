use ringcore::addr::PhysAddr;
use ringcore::ring::command;
use ringcore::ring::event;
use ringcore::ring::transfer;
use ringcore::ring::trb;
use ringcore::ring::trb::{CommandComplete, TransferEvent, Trb};
use ringcore::ring::{CycleBit, Doorbell, Error, Raw};

const BASE: u64 = 0x10_0000;

fn base() -> PhysAddr {
    PhysAddr::new(BASE).unwrap()
}

fn flip_cycle(ring: &mut command::Ring, index: usize) {
    let mut raw = ring.slot(index);
    raw[3] ^= 1;
    ring.write_slot(index, raw);
}

#[test]
fn cycle_bit_toggles() {
    let mut c = CycleBit::new(true);
    assert!(c.as_bool());
    c.toggle();
    assert!(!c.as_bool());
    c.toggle();
    assert_eq!(c, CycleBit::new(true));
    assert!(bool::from(c));
    assert!(!bool::from(CycleBit::new(false)));
}

#[test]
fn a_fresh_ring_takes_every_record_up_to_its_capacity() {
    let mut ring = command::Ring::new(base());
    assert_eq!(ring.len(), 256);
    assert_eq!(ring.phys_addr().as_u64(), BASE);
    for i in 0..255u64 {
        assert!(!ring.full(), "full before record {}", i);
        let a = ring.send_enable_slot().unwrap();
        assert_eq!(a.as_u64(), BASE + 16 * i);
    }
    for i in 0..255 {
        assert_eq!(ring.slot(i), [0, 0, 0, (9 << 10) | 1]);
    }
}

#[test]
fn the_last_slot_gets_the_link_and_the_cycle_bit_turns() {
    let mut ring = command::Ring::new(base());
    for _ in 0..254 {
        ring.send_enable_slot().unwrap();
    }
    assert_eq!(ring.slot(255), [0; 4]);
    ring.send_enable_slot().unwrap();
    assert_eq!(ring.slot(255), [BASE as u32, 0, 0, (6 << 10) | 2 | 1]);
    // The next record goes to slot 0 with the other cycle bit.
    let a = ring.send_address_device(PhysAddr::new(0x2000).unwrap(), 7).unwrap();
    assert_eq!(a.as_u64(), BASE);
    assert_eq!(ring.slot(0), [0x2000, 0, 0, (7 << 24) | (11 << 10)]);
}

#[test]
fn queue_is_full_after_the_controller_took_255_entries() {
    let mut ring = command::Ring::new(base());
    for _ in 0..255 {
        ring.send_enable_slot().unwrap();
    }
    for i in 0..255 {
        flip_cycle(&mut ring, i);
    }
    assert!(ring.full());
    assert_eq!(ring.send_enable_slot(), Err(command::Error::QueueIsFull));
    assert_eq!(ring.send(Trb::new_noop(CycleBit::new(false))), Err(command::Error::QueueIsFull));
    // Nothing was written.
    assert_eq!(ring.slot(0), [0, 0, 0, 9 << 10]);
    // A slot that is handed back takes the next record.
    flip_cycle(&mut ring, 0);
    assert!(!ring.full());
    assert_eq!(ring.send_enable_slot().unwrap().as_u64(), BASE);
    assert!(ring.full());
    assert_eq!(
        ring.send_configure_endpoint(PhysAddr::new(0x40).unwrap(), 1),
        Err(command::Error::QueueIsFull)
    );
}

#[test]
fn a_lap_that_nobody_touched_is_written_over() {
    let mut ring = command::Ring::new(base());
    for _ in 0..255 {
        ring.send_enable_slot().unwrap();
    }
    assert!(!ring.full());
    assert_eq!(ring.send_enable_slot().unwrap().as_u64(), BASE);
    assert_eq!(ring.slot(0), [0, 0, 0, 9 << 10]);
}

#[test]
fn raw_ring_wraps_at_its_end() {
    let mut raw = Raw::new(2, base());
    assert_eq!(raw.len(), 2);
    assert!(raw.enqueueable());
    assert_eq!(raw.enqueue(Trb::new_noop(CycleBit::new(true))), Ok(base()));
    assert_eq!(raw.get(0), [0, 0, 0, (8 << 10) | 1]);
    assert_eq!(raw.addr_of(1).as_u64(), BASE + 16);
    let second = raw.enqueue(Trb::new_noop(CycleBit::new(true))).unwrap();
    assert_eq!(second.as_u64(), BASE + 16);
    assert_eq!(raw.get(1), [0, 0, 0, (8 << 10) | 1]);
    // Back at slot 0 with the cycle bit clear: the records of the first lap
    // may be written over.
    assert!(raw.enqueueable());
    assert_eq!(raw.enqueue(Trb::new_noop(CycleBit::new(false))), Ok(base()));
    assert_eq!(raw.get(0), [0, 0, 0, 8 << 10]);
}

#[test]
fn raw_ring_refuses_a_slot_that_is_not_its_own() {
    let mut raw = Raw::new(2, base());
    raw.enqueue(Trb::new_noop(CycleBit::new(true))).unwrap();
    // Slot 1 carries the producer's cycle bit.
    raw.set(1, [7, 7, 7, 1]);
    assert!(!raw.enqueueable());
    assert_eq!(raw.enqueue(Trb::new_enable_slot()), Err(Error::Full));
    assert_eq!(raw.get(0), [0, 0, 0, (8 << 10) | 1]);
    assert_eq!(raw.get(1), [7, 7, 7, 1]);
    // The cursor has stayed: once the slot is handed back it is the one
    // that is written.
    raw.set(1, [7, 7, 7, 0]);
    assert_eq!(raw.enqueue(Trb::new_enable_slot()).unwrap().as_u64(), BASE + 16);
    assert_eq!(raw.get(1), [0, 0, 0, 9 << 10]);
}

#[test]
fn an_empty_event_ring_yields_nothing() {
    let mut ring = event::Ring::new(4, base());
    assert!(ring.empty());
    assert_eq!(ring.dequeue(), None);
    assert_eq!(ring.dequeue_addr().as_u64(), BASE);
    assert_eq!(ring.len(), 4);
    assert_eq!(ring.phys_addr().as_u64(), BASE);
}

#[test]
fn events_come_out_in_the_order_of_the_slots() {
    let mut ring = event::Ring::new(3, base());
    let first = CommandComplete::new(0x100, 1, CycleBit::new(true));
    let second = TransferEvent::new(0x200, 4, CycleBit::new(true));
    ring.write_slot(0, first.into_raw());
    ring.write_slot(1, second.into_raw());
    assert_eq!(ring.dequeue(), Some(Ok(Trb::CommandComplete(first))));
    assert_eq!(ring.dequeue_addr().as_u64(), BASE + 16);
    assert_eq!(ring.dequeue(), Some(Ok(Trb::TransferEvent(second))));
    assert_eq!(ring.dequeue_addr().as_u64(), BASE + 32);
    assert_eq!(ring.dequeue(), None);
}

#[test]
fn an_event_with_an_unknown_tag_is_reported_and_passed() {
    let mut ring = event::Ring::new(2, base());
    ring.write_slot(0, [0, 0, 0, (63 << 10) | 1]);
    ring.write_slot(1, CommandComplete::new(0x100, 1, CycleBit::new(true)).into_raw());
    assert_eq!(ring.dequeue(), Some(Err(trb::Error::InvalidId)));
    assert!(ring.dequeue().unwrap().is_ok());
    // Behind the last slot the cursor is on slot 0 again, and the expected
    // cycle bit is the same.
    assert_eq!(ring.dequeue_addr().as_u64(), BASE);
    assert_eq!(ring.dequeue(), Some(Err(trb::Error::InvalidId)));
}

#[test]
fn a_transfer_ring_names_its_endpoint() {
    let mut ring = transfer::Ring::new(base(), 3, 5);
    assert_eq!(ring.doorbell(), Doorbell { index: 3, target: 5 });
    assert_eq!(ring.phys_addr().as_u64(), BASE);
    assert_eq!(ring.addr_to_enqueue_ptr().as_u64(), BASE);
    assert!(!ring.full());
    let a = ring.send(Trb::new_noop(CycleBit::new(false))).unwrap();
    assert_eq!(a.as_u64(), BASE);
    assert_eq!(ring.slot(0), [0, 0, 0, (8 << 10) | 1]);
    assert_eq!(ring.addr_to_enqueue_ptr().as_u64(), BASE + 16);
    ring.write_slot(1, [0, 0, 0, 1]);
    assert!(ring.full());
    assert_eq!(ring.send(Trb::new_enable_slot()), Err(command::Error::QueueIsFull));
    assert_eq!(command::Ring::new(base()).notify_command_is_sent(), Doorbell { index: 0, target: 0 });
}

#[test]
fn transfer_rings_are_made_when_they_are_first_used() {
    let mut rings = transfer::Rings::new();
    assert!(!rings.contains(1, 3));
    assert_eq!(rings.send(1, 3, Trb::new_enable_slot()), Err(transfer::SendError::NoRing));
    assert!(rings.create(1, 3, PhysAddr::new(0x40_0000).unwrap()));
    assert!(rings.contains(1, 3));
    assert!(!rings.contains(3, 1));
    // A second ring for the endpoint is not made.
    assert!(!rings.create(1, 3, PhysAddr::new(0x50_0000).unwrap()));
    assert!(rings.create(2, 3, PhysAddr::new(0x60_0000).unwrap()));
    let (a, doorbell) = rings.send(1, 3, Trb::new_enable_slot()).unwrap();
    assert_eq!(a.as_u64(), 0x40_0000);
    assert_eq!(doorbell, Doorbell { index: 1, target: 3 });
    let (a, doorbell) = rings.send(2, 3, Trb::new_enable_slot()).unwrap();
    assert_eq!(a.as_u64(), 0x60_0000);
    assert_eq!(doorbell, Doorbell { index: 2, target: 3 });
    let (a, _) = rings.send(1, 3, Trb::new_enable_slot()).unwrap();
    assert_eq!(a.as_u64(), 0x40_0010);
    assert_eq!(rings.slot(1, 3, 1), Some([0, 0, 0, (9 << 10) | 1]));
    assert_eq!(rings.slot(1, 3, 2), Some([0; 4]));
    assert_eq!(rings.slot(1, 3, 256), None);
    assert_eq!(rings.slot(1, 4, 0), None);
    // A slot that carries the producer's cycle bit is not written.
    assert!(rings.write_slot(1, 3, 2, [0, 0, 0, 1]));
    assert!(!rings.write_slot(1, 3, 256, [0, 0, 0, 1]));
    assert!(!rings.write_slot(9, 9, 0, [0, 0, 0, 1]));
    assert_eq!(rings.send(1, 3, Trb::new_enable_slot()), Err(transfer::SendError::QueueIsFull));
    assert_eq!(rings.slot(1, 3, 2), Some([0, 0, 0, 1]));
    assert!(rings.send(2, 3, Trb::new_enable_slot()).is_ok());
}
