use ringcore::addr::PhysAddr;
use ringcore::ring::trb::{
    completion_code_of, cycle_of, pointer_of, slot_id_of, type_of, AddressDevice, CommandComplete,
    Completion, ConfigureEndpoint, EnableSlot, Error, Link, Noop, TransferEvent, Trb, Ty,
};
use ringcore::ring::CycleBit;

fn addr(a: u64) -> PhysAddr {
    PhysAddr::new(a).unwrap()
}

#[test]
fn enable_slot_has_its_tag_and_nothing_else() {
    let raw = Trb::new_enable_slot().into_raw();
    assert_eq!(raw, [0, 0, 0, 9 << 10]);
    assert_eq!(EnableSlot::new().into_raw(), raw);
}

#[test]
fn noop_carries_the_cycle_bit_it_was_made_with() {
    assert_eq!(Trb::new_noop(CycleBit::new(true)).into_raw(), [0, 0, 0, (8 << 10) | 1]);
    assert_eq!(Trb::new_noop(CycleBit::new(false)).into_raw(), [0, 0, 0, 8 << 10]);
    assert_eq!(Noop::new(CycleBit::new(true)).into_raw(), [0, 0, 0, (8 << 10) | 1]);
}

#[test]
fn link_points_to_the_ring_and_toggles() {
    let raw = Trb::new_link(addr(0x1_2345_6000)).into_raw();
    assert_eq!(raw, [0x2345_6000, 0x1, 0, (6 << 10) | 2]);
    assert_eq!(Link::new(addr(0x1_2345_6000)).into_raw(), raw);
}

#[test]
fn address_device_holds_pointer_and_slot() {
    let raw = Trb::new_address_device(addr(0xf_0000_1230), 5).into_raw();
    assert_eq!(raw, [0x0000_1230, 0xf, 0, (5 << 24) | (11 << 10)]);
    assert_eq!(AddressDevice::new(addr(0xf_0000_1230), 5).into_raw(), raw);
    assert_eq!(pointer_of(&raw), 0xf_0000_1230);
    assert_eq!(slot_id_of(&raw), 5);
    assert_eq!(type_of(&raw), 11);
    assert!(!cycle_of(&raw));
}

#[test]
fn configure_endpoint_holds_pointer_and_slot() {
    let raw = Trb::new_configure_endpoint(addr(0x8000), 255).into_raw();
    assert_eq!(raw, [0x8000, 0, 0, (255 << 24) | (12 << 10)]);
    assert_eq!(ConfigureEndpoint::new(addr(0x8000), 255).into_raw(), raw);
}

#[test]
fn completions_hold_code_and_pointer() {
    let c = CommandComplete::new(0xabcd_0000_1110, 1, CycleBit::new(true));
    assert_eq!(c.into_raw(), [0x0000_1110, 0xabcd, 1 << 24, (33 << 10) | 1]);
    assert_eq!(c.completion_code(), 1);
    assert_eq!(c.trb_ptr(), 0xabcd_0000_1110);
    let t = TransferEvent::new(0x20, 13, CycleBit::new(false));
    assert_eq!(t.into_raw(), [0x20, 0, 13 << 24, 32 << 10]);
    assert_eq!(t.completion_code(), 13);
    assert_eq!(t.trb_ptr(), 0x20);
    assert_eq!(Completion::Command(c).trb_ptr(), 0xabcd_0000_1110);
    assert_eq!(Completion::Transfer(t).completion_code(), 13);
    assert_eq!(completion_code_of(&c.into_raw()), 1);
}

#[test]
fn set_c_changes_the_cycle_bit_only() {
    let mut trb = Trb::new_address_device(addr(0x40), 3);
    trb.set_c(CycleBit::new(true));
    assert_eq!(trb.into_raw(), [0x40, 0, 0, (3 << 24) | (11 << 10) | 1]);
    trb.set_c(CycleBit::new(false));
    assert_eq!(trb.into_raw(), [0x40, 0, 0, (3 << 24) | (11 << 10)]);
}

#[test]
fn every_kind_decodes_to_itself() {
    let all = [
        Trb::new_link(addr(0x1000)),
        Trb::new_noop(CycleBit::new(true)),
        Trb::new_enable_slot(),
        Trb::new_address_device(addr(0xffff_ffff_fff0), 200),
        Trb::new_configure_endpoint(addr(0x10), 1),
        Trb::CommandComplete(CommandComplete::new(u64::MAX, 255, CycleBit::new(true))),
        Trb::TransferEvent(TransferEvent::new(0, 0, CycleBit::new(false))),
    ];
    for trb in all {
        assert_eq!(Trb::try_from_raw(trb.into_raw()), Ok(trb));
        let mut stamped = trb;
        stamped.set_c(CycleBit::new(true));
        assert_eq!(Trb::try_from_raw(stamped.into_raw()), Ok(stamped));
    }
}

#[test]
fn decoding_keeps_the_fields() {
    let raw = [0x0000_1230, 0xf, 0, (5 << 24) | (11 << 10) | 1];
    match Trb::try_from_raw(raw) {
        Ok(Trb::AddressDevice(a)) => assert_eq!(a.into_raw(), raw),
        other => panic!("{:?}", other),
    }
    let raw = [0x10, 0x20, 7 << 24, (33 << 10) | 1];
    match Trb::try_from_raw(raw) {
        Ok(Trb::CommandComplete(c)) => {
            assert_eq!(c.completion_code(), 7);
            assert_eq!(c.trb_ptr(), 0x20_0000_0010);
        }
        other => panic!("{:?}", other),
    }
}

#[test]
fn unknown_tags_are_refused() {
    for tag in 0u32..64 {
        let raw = [0, 0, 0, tag << 10];
        let known = [6, 8, 9, 11, 12, 32, 33].contains(&tag);
        assert_eq!(Trb::try_from_raw(raw).is_ok(), known, "tag {}", tag);
        assert_eq!(Ty::try_from_raw(&raw).is_ok(), known, "tag {}", tag);
        if !known {
            assert_eq!(Trb::try_from_raw(raw), Err(Error::InvalidId));
        }
    }
    assert_eq!(Trb::try_from_raw([0; 4]), Err(Error::InvalidId));
    assert_eq!(Trb::try_from_raw([u32::MAX; 4]), Err(Error::InvalidId));
}

#[test]
fn tags_of_the_kinds() {
    assert_eq!(Ty::Link.id(), 6);
    assert_eq!(Ty::Noop.id(), 8);
    assert_eq!(Ty::EnableSlot.id(), 9);
    assert_eq!(Ty::AddressDevice.id(), 11);
    assert_eq!(Ty::ConfigureEndpoint.id(), 12);
    assert_eq!(Ty::TransferEvent.id(), 32);
    assert_eq!(Ty::CommandComplete.id(), 33);
    assert_eq!(Ty::try_from_raw(&[0, 0, 0, 33 << 10]), Ok(Ty::CommandComplete));
}
