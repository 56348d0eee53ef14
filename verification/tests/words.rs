use ringcore::addr::{PhysAddr, ADDR_LIMIT};

#[test]
fn an_address_has_52_bits() {
    assert_eq!(PhysAddr::new(0).unwrap().as_u64(), 0);
    assert_eq!(PhysAddr::zero().as_u64(), 0);
    assert_eq!(PhysAddr::new(ADDR_LIMIT - 1).unwrap().as_u64(), 0xf_ffff_ffff_ffff);
    assert_eq!(PhysAddr::new(ADDR_LIMIT), None);
    assert_eq!(PhysAddr::new(u64::MAX), None);
}

#[test]
fn alignment_is_a_question_of_the_low_bits() {
    let a = PhysAddr::new(0x1230).unwrap();
    assert!(a.is_aligned(16));
    assert!(a.is_aligned(1));
    assert!(!a.is_aligned(32));
    assert!(!a.is_aligned(0x1000));
    assert!(PhysAddr::zero().is_aligned(1 << 63));
}

#[test]
fn addresses_add_up_to_the_limit() {
    let a = PhysAddr::new(0x1000).unwrap();
    assert_eq!(a.offset(0x234).as_u64(), 0x1234);
    assert_eq!(a.checked_add(16).unwrap().as_u64(), 0x1010);
    assert_eq!(a.checked_add(ADDR_LIMIT - 0x1001).unwrap().as_u64(), ADDR_LIMIT - 1);
    assert_eq!(a.checked_add(ADDR_LIMIT - 0x1000), None);
    assert_eq!(a.checked_add(u64::MAX), None);
}
