use ringcore::addr::PhysAddr;
use ringcore::ahci::{
    device_is_present, get_available_command_slot, init_command_header_and_table,
    init_command_list_header, init_command_table, init_fis, is_idle, num_of_command_slots,
    port_exists, ready_to_start, slot_available, stop, supports_64bit_addressing, CommandList,
    Error, Header, PhysicalRegionDescriptorTable, RegFixH2D, Table,
};
use ringcore::bar::{Bar, BarType, Bir, Index, TypeSpec};
use ringcore::capability::{ExtendedCapability, Iter, SupportedProtocol};
use ringcore::msi;
use ringcore::msi::MessageControl;

fn addr(a: u64) -> PhysAddr {
    PhysAddr::new(a).unwrap()
}

#[test]
fn the_first_free_slot_is_taken() {
    assert_eq!(get_available_command_slot(0, 32), Some(0));
    assert_eq!(get_available_command_slot(0b0111, 32), Some(3));
    assert_eq!(get_available_command_slot(0b0111, 3), None);
    assert_eq!(get_available_command_slot(u32::MAX, 32), None);
    assert_eq!(get_available_command_slot(0x7fff_ffff, 32), Some(31));
    assert_eq!(get_available_command_slot(0, 0), None);
    assert!(slot_available(0b0100, 1));
    assert!(!slot_available(0b0100, 2));
    assert!(port_exists(0x8000_0001, 31));
    assert!(port_exists(0x8000_0001, 0));
    assert!(!port_exists(0x8000_0001, 1));
}

#[test]
fn a_frame_starts_with_its_tag() {
    let fis = RegFixH2D::null();
    let mut same = RegFixH2D::null();
    same.set_command(0);
    assert_eq!(fis, same);
    same.set_command(0x25);
    assert_ne!(fis, same);
    assert_eq!(RegFixH2D::ID, 0x27);
}

#[test]
fn the_block_address_is_split() {
    let mut fis = RegFixH2D::null();
    fis.set_lba(0x12_3456_789a_bcde);
    let mut expected = RegFixH2D::null();
    expected.set_upper_lba_as_u32(0x1234_5678);
    // Of the low part only twelve bits are kept.
    let mut low = expected;
    low.set_lba(0xcde);
    assert_ne!(expected, low);
    assert_eq!(fis, {
        let mut f = RegFixH2D::null();
        f.set_lba(0xcde);
        f.set_upper_lba_as_u32(0x1234_5678);
        f
    });
    // The high part keeps its low 24 bits.
    let mut a = RegFixH2D::null();
    a.set_upper_lba_as_u32(0xff12_3456);
    let mut b = RegFixH2D::null();
    b.set_upper_lba_as_u32(0x0012_3456);
    assert_eq!(a, b);
}

#[test]
fn a_frame_for_a_read() {
    let mut fis = RegFixH2D::null();
    init_fis(&mut fis);
    let mut expected = RegFixH2D::null();
    expected.set_c(true);
    expected.set_command(0x25);
    expected.set_device(0x40);
    assert_eq!(fis, expected);
    expected.set_count(1);
    assert_ne!(fis, expected);
}

#[test]
fn a_descriptor_holds_address_and_length() {
    let mut d = PhysicalRegionDescriptorTable::null();
    d.set_dba(addr(0x1_0000_0002));
    d.set_dbc(8191);
    let mut e = PhysicalRegionDescriptorTable::null();
    e.set_dbc(0xffc0_0000 | 8191);
    assert_ne!(d, e);
    e.set_dba(addr(0x1_0000_0002));
    // The length keeps its low 22 bits.
    assert_eq!(d, e);
    e.set_dbc(8193);
    assert_ne!(d, e);
}

#[test]
fn a_header_counts_its_descriptors() {
    let mut header = Header::null();
    assert_eq!(header.prdtl(), 0);
    init_command_list_header(&mut header, 1);
    assert_eq!(header.prdtl(), 1);
    init_command_list_header(&mut header, 16);
    assert_eq!(header.prdtl(), 1);
    init_command_list_header(&mut header, 17);
    assert_eq!(header.prdtl(), 2);
    init_command_list_header(&mut header, 128);
    assert_eq!(header.prdtl(), 8);
    let mut expected = Header::null();
    expected.set_cfl(5);
    expected.set_prdtl(8);
    assert_eq!(header, expected);
    // The length of the frame keeps its low five bits.
    expected.set_cfl(0x25);
    assert_eq!(header, expected);
    expected.set_command_table_base_addr(addr(0x80));
    assert_ne!(header, expected);
}

#[test]
fn a_command_list_points_to_its_tables() {
    let list = CommandList::new(&vec![addr(0x1000), addr(0x1_0000_2080)]);
    assert_eq!(list.headers.len(), 2);
    assert_eq!(list.tables.len(), 2);
    let mut first = Header::null();
    first.set_command_table_base_addr(addr(0x1000));
    let mut second = Header::null();
    second.set_command_table_base_addr(addr(0x2080));
    assert_eq!(list.headers[0], first);
    // Only the low half of the address fits in the header.
    assert_eq!(list.headers[1], second);
    assert_eq!(list.tables[0], Table::null());
    assert_eq!(list.tables[1], Table::null());
    assert!(CommandList::new(&Vec::new()).headers.is_empty());
}

#[test]
fn the_descriptors_of_a_read() {
    let mut table = Table::null();
    init_command_table(&mut table, 2, 17, addr(0x10_0000));
    let mut first = PhysicalRegionDescriptorTable::null();
    first.set_dba(addr(0x10_0000));
    first.set_dbc(8191);
    let mut last = PhysicalRegionDescriptorTable::null();
    last.set_dba(addr(0x10_1000));
    last.set_dbc(17 * 512 - 1);
    assert_eq!(table.prdt[0], first);
    assert_eq!(table.prdt[1], last);
    for i in 2..8 {
        assert_eq!(table.prdt[i], PhysicalRegionDescriptorTable::null());
    }
    assert_eq!(table.fis, RegFixH2D::null());
}

#[test]
fn a_read_is_prepared_in_the_first_free_slot() {
    let addrs = vec![addr(0x1000), addr(0x2000), addr(0x3000)];
    let mut list = CommandList::new(&addrs);
    let before = CommandList::new(&addrs);
    assert_eq!(
        init_command_header_and_table(&mut list, 0b111, 3, 1, addr(0x10_0000)),
        Err(Error::SlotIsNotAvailable)
    );
    assert_eq!(list.headers, before.headers);
    assert_eq!(list.tables, before.tables);

    assert_eq!(init_command_header_and_table(&mut list, 0b101, 3, 1, addr(0x10_0000)), Ok(1));
    assert_eq!(list.headers[0], before.headers[0]);
    assert_eq!(list.headers[2], before.headers[2]);
    assert_eq!(list.tables[0], before.tables[0]);
    assert_eq!(list.tables[2], before.tables[2]);
    let mut header = before.headers[1];
    init_command_list_header(&mut header, 1);
    assert_eq!(list.headers[1], header);
    let mut table = Table::null();
    init_command_table(&mut table, 1, 1, addr(0x10_0000));
    init_fis(&mut table.fis);
    assert_eq!(list.tables[1], table);
    let mut piece = PhysicalRegionDescriptorTable::null();
    piece.set_dba(addr(0x10_0000));
    piece.set_dbc(511);
    assert_eq!(list.tables[1].prdt[0], piece);
}

#[test]
fn base_address_registers() {
    assert_eq!(Bar::new(0xfebf_0000).ty(), BarType::Bar32Bit);
    assert_eq!(Bar::new(0xfebf_000c).ty(), BarType::Bar32Bit);
    assert_eq!(Bar::new(0xfebf_0002).ty(), BarType::Bar64Bit);
    assert_eq!(Bar::new(0xfebf_000e).as_u32(), 0xfebf_000e);
    assert_eq!(Bar::new(0xfebf_0008).base_addr(None).unwrap().as_u64(), 0xfebf_0000);
    assert_eq!(
        Bar::new(0xfebf_0008).base_addr(Some(Bar::new(7))).unwrap().as_u64(),
        0xfebf_0000
    );
    assert_eq!(
        Bar::new(0xfebf_000e).base_addr(Some(Bar::new(7))).unwrap().as_u64(),
        0x7_febf_0000
    );
    assert_eq!(Bar::new(0xfebf_0002).base_addr(None), None);
    // Two registers that hold more than 52 bits hold no address.
    assert_eq!(Bar::new(0xfebf_0002).base_addr(Some(Bar::new(0x0010_0000))), None);
    assert_eq!(
        Bar::new(0xfebf_0002).base_addr(Some(Bar::new(0x000f_ffff))).unwrap().as_u64(),
        0xf_ffff_febf_0000
    );
    let function = TypeSpec::new([0xfebf_0000, 0xfebf_000e, 0x7, 0, 0, 0xfebf_0002]);
    assert_eq!(function.bar(Index::new(1)), Bar::new(0xfebf_000e));
    assert_eq!(function.base_addr(Index::new(0)).unwrap().as_u64(), 0xfebf_0000);
    assert_eq!(function.base_addr(Index::new(1)).unwrap().as_u64(), 0x7_febf_0000);
    // The last register has no register behind it.
    assert_eq!(function.base_addr(Index::new(5)), None);
    assert_eq!(Bar::default(), Bar::new(0));
    assert_eq!(Index::new(5).as_usize(), 5);
    assert_eq!(Index::new(0).register_index(), Some(4));
    assert_eq!(Index::new(5).register_index(), Some(9));
    assert_eq!(Bir::new(0x1234_5003).into_index(), Index::new(3));
}

#[test]
fn message_control() {
    let mut control = MessageControl::from_u16(0xfff0);
    control.init_for_xhci();
    assert_eq!(control.as_u16(), 0xff81);
    let mut control = MessageControl::from_u16(0);
    control.set_num_of_enabled_interrupt_vectors(0b101);
    assert_eq!(control.as_u16(), 0x50);
    // Only three bits fit.
    control.set_num_of_enabled_interrupt_vectors(0b1010);
    assert_eq!(control.as_u16(), 0x20);
    control.set_interrupt_status(true);
    assert_eq!(control.as_u16(), 0x21);
    control.set_interrupt_status(false);
    assert_eq!(control.as_u16(), 0x20);
    assert_eq!(u16::from(MessageControl::from(0x1234)), 0x1234);
    assert_eq!(MessageControl::from(0x81), MessageControl::from_u16(0x81));
    assert_eq!(msi::get_message_control(0xabcd_1234).as_u16(), 0xabcd);
    assert_eq!(msi::set_message_control(0xabcd_1234, MessageControl::from_u16(0x81)), 0x0081_1234);
}

#[test]
fn the_tables_of_msi_x() {
    assert_eq!(msi::table_size(0), 1);
    assert_eq!(msi::table_size(0x07ff_0000), 2048);
    assert_eq!(msi::table_size(0xf803_ffff), 4);
    assert_eq!(msi::table_offset(0x0000_2003), 0x2000);
    assert_eq!(msi::pending_bit_table_len(1), 1);
    assert_eq!(msi::pending_bit_table_len(64), 1);
    assert_eq!(msi::pending_bit_table_len(65), 2);
    assert_eq!(msi::pending_bit_table_len(0), 0);
    assert_eq!(msi::enable_interrupt(0x0003_0011), 0xf003_0011);
}

#[test]
fn the_list_of_extended_capabilities() {
    let mut walk = Iter::new(0xfebf_0000, 0x40);
    assert_eq!(walk.addr(), Some(0xfebf_0100));
    // A legacy-support capability, four words long.
    assert_eq!(walk.next(0x0000_0401), Some(ExtendedCapability::UsbLegacySupport(0xfebf_0100)));
    assert_eq!(walk.addr(), Some(0xfebf_0110));
    // A supported protocol, the next one 0x10 words on.
    assert_eq!(
        walk.next(0x0300_1002),
        Some(ExtendedCapability::SupportedProtocol(SupportedProtocol::new(0xfebf_0110)))
    );
    assert_eq!(walk.addr(), Some(0xfebf_0150));
    // Something else, at the end of the list.
    assert_eq!(walk.next(0x0000_00c0), Some(ExtendedCapability::UnImplemented));
    assert_eq!(walk.addr(), None);
    assert_eq!(walk.next(0x0000_0401), None);
    assert_eq!(Iter::new(0xfebf_0000, 0).addr(), None);
    assert_eq!(Iter::new(u64::MAX - 7, 2).addr(), None);
    assert_eq!(SupportedProtocol::psic(0x5000_0000), 5);
    assert_eq!(SupportedProtocol::psic(0xf123_4567), 15);
}

#[test]
fn the_registers_of_a_port() {
    assert_eq!(num_of_command_slots(0), 1);
    assert_eq!(num_of_command_slots(0x0000_1f00), 32);
    assert_eq!(num_of_command_slots(0xffff_e0ff), 1);
    assert_eq!(num_of_command_slots(0xc734_ff05), 32);
    assert_eq!(num_of_command_slots(0x0000_0400), 5);
    assert!(supports_64bit_addressing(0x8000_0000));
    assert!(!supports_64bit_addressing(0x7fff_ffff));
    assert_eq!(stop(0xffff_ffff), 0xffff_ffee);
    assert_eq!(stop(0x0000_0011), 0);
    assert!(is_idle(0x0000_3fff));
    assert!(!is_idle(0x4000));
    assert!(!is_idle(0x8000));
    assert!(device_is_present(0x0000_0003));
    assert!(device_is_present(0x0000_0113));
    assert!(!device_is_present(0x0000_0001));
    assert!(!device_is_present(0x0000_0100));
    assert!(device_is_present(0x0000_0200));
    assert!(device_is_present(0x0000_0601));
    assert!(device_is_present(0x0000_0800));
    assert!(!device_is_present(0x0000_0300));
    // A port starts when it takes frames in, is at rest and has a device.
    assert!(ready_to_start(0x10, 0x3));
    assert!(ready_to_start(0x4011, 0x123));
    assert!(!ready_to_start(0x8010, 0x3));
    assert!(!ready_to_start(0x0000, 0x3));
    assert!(!ready_to_start(0x10, 0x1));
}
