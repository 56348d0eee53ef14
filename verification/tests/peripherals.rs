use ringcore::mouse::{MouseButtons, MouseDevice};
use ringcore::paging::{
    bytes_to_pages, entry_exists, get_addr_from_table_entry, get_offset_of_entry, ptr_to_entry,
    PageMapInfo, TableType,
};
use ringcore::mem;
use ringcore::addr::PhysAddr;
use ringcore::paging::{allocate_page_for_page_table, calculate_vram_bytes, MemoryDescriptor, MemoryType};
use ringcore::syscalls::{sys_write, Syscalls};
use ringcore::ustar::{next_entry, Meta};

fn feed(mouse: MouseDevice, bytes: &[i32]) -> (bool, MouseDevice) {
    let mut state = (false, mouse);
    for b in bytes {
        state = state.1.put_data(*b);
    }
    state
}

#[test]
fn the_mouse_waits_for_the_acknowledgement() {
    let mouse = MouseDevice::new();
    assert_eq!(mouse.phase, 0);
    let (whole, mouse) = feed(mouse, &[0x08, 0x00, 0xfb]);
    assert!(!whole);
    assert_eq!(mouse, MouseDevice::new());
    let (whole, mouse) = feed(mouse, &[0xfa]);
    assert!(!whole);
    assert_eq!(mouse.phase, 1);
}

#[test]
fn a_packet_has_three_bytes() {
    let (_, mouse) = feed(MouseDevice::new(), &[0xfa]);
    let (whole, mouse) = feed(mouse, &[0x09]);
    assert!(!whole);
    assert_eq!(mouse.phase, 2);
    let (whole, mouse) = feed(mouse, &[5]);
    assert!(!whole);
    assert_eq!(mouse.phase, 3);
    let (whole, mouse) = feed(mouse, &[7]);
    assert!(whole);
    assert_eq!(mouse.phase, 1);
    assert_eq!(mouse.data_from_device, [0x09, 5, 7]);
    assert_eq!(mouse.x_speed, 5);
    assert_eq!(mouse.y_speed, -7);
    assert_eq!(mouse.buttons, MouseButtons { left: true, center: false, right: false });
}

#[test]
fn the_signs_come_from_the_first_byte() {
    let (_, mouse) = feed(MouseDevice::new(), &[0xfa]);
    let (whole, mouse) = feed(mouse, &[0x08 | 0x10 | 0x20 | 0x06, 0xff, 0xfe]);
    assert!(whole);
    assert_eq!(mouse.x_speed, -1);
    assert_eq!(mouse.y_speed, 2);
    assert_eq!(mouse.buttons, MouseButtons { left: false, center: true, right: true });
    let (whole, mouse) = feed(mouse, &[0x08 | 0x10, 0x00, 0x00]);
    assert!(whole);
    assert_eq!(mouse.x_speed, -256);
    assert_eq!(mouse.y_speed, 0);
}

#[test]
fn a_byte_that_cannot_start_a_packet_is_dropped() {
    let (_, mouse) = feed(MouseDevice::new(), &[0xfa]);
    for bad in [0x00, 0x07, 0x48, 0x88, 0xc8, 0xf7] {
        assert!(!MouseDevice::is_correct_first_byte_from_device(bad));
        assert_eq!(mouse.put_data(bad), (false, mouse));
    }
    assert!(MouseDevice::is_correct_first_byte_from_device(0x3f));
}

#[test]
fn an_unknown_phase_starts_over() {
    let lost = MouseDevice { phase: 17, ..MouseDevice::new() };
    assert_eq!(lost.put_data(0x55), (true, MouseDevice { phase: 1, ..MouseDevice::new() }));
    let mut buttons = MouseButtons::new();
    buttons.purse_data(0x05);
    assert_eq!(buttons, MouseButtons { left: true, center: true, right: false });
}

#[test]
fn levels_of_page_tables() {
    assert_eq!(TableType::Pml4.next_table(), Some(TableType::Pdpt));
    assert_eq!(TableType::Pdpt.next_table(), Some(TableType::Pd));
    assert_eq!(TableType::Pd.next_table(), Some(TableType::Pt));
    assert_eq!(TableType::Pt.next_table(), None);
    assert_eq!(TableType::Pml4.shift(), 39);
    assert_eq!(TableType::Pt.shift(), 12);
}

#[test]
fn entries_of_page_tables() {
    let virt = 0xffff_ffff_8020_3000u64;
    assert_eq!(get_offset_of_entry(virt, TableType::Pml4), 511 * 8);
    assert_eq!(get_offset_of_entry(virt, TableType::Pdpt), 510 * 8);
    assert_eq!(get_offset_of_entry(virt, TableType::Pd), 1 * 8);
    assert_eq!(get_offset_of_entry(virt, TableType::Pt), 3 * 8);
    assert_eq!(ptr_to_entry(virt, 0x5000, TableType::Pt), 0x5018);
    assert!(entry_exists(0x1001));
    assert!(!entry_exists(0x1000));
    assert_eq!(get_addr_from_table_entry(0x8000_0000_0012_3fff), 0x8000_0000_0012_3000);
    assert_eq!(bytes_to_pages(0), 0);
    assert_eq!(bytes_to_pages(1), 1);
    assert_eq!(bytes_to_pages(0x1000), 1);
    assert_eq!(bytes_to_pages(0x1001), 2);
    assert_eq!(bytes_to_pages((512 + 4 + 128) * 1024), 161);
    let info = PageMapInfo::new(0xffff_ffff_8000_0000, 0x20_0000, 0x1000);
    assert_eq!(info, PageMapInfo { virt: 0xffff_ffff_8000_0000, phys: 0x20_0000, bytes: 0x1000 });
}

#[test]
fn numbers_of_system_calls() {
    assert_eq!(Syscalls::Inb.as_u64(), 0);
    assert_eq!(Syscalls::UnmapPages.as_u64(), 11);
    assert_eq!(Syscalls::from_u64(4), Some(Syscalls::Halt));
    assert_eq!(Syscalls::from_u64(8), Some(Syscalls::AllocatePages));
    for n in 0..12 {
        assert_eq!(Syscalls::from_u64(n).unwrap().as_u64(), n);
    }
    assert_eq!(Syscalls::from_u64(12), None);
    assert_eq!(Syscalls::from_u64(u64::MAX), None);
}

fn block(name: &[u8], size: &[u8], magic: &[u8]) -> [u8; 512] {
    let mut block = [0u8; 512];
    block[..name.len()].copy_from_slice(name);
    block[124..124 + size.len()].copy_from_slice(size);
    block[257..257 + magic.len()].copy_from_slice(magic);
    block
}

#[test]
fn the_size_of_a_file_is_octal() {
    let meta = Meta::from_block(&block(b"a.txt", b"00000000017\0", b"ustar\0"));
    assert_eq!(meta.filesize_as_dec(), 15);
    let meta = Meta::from_block(&block(b"a.txt", b"00000001000\0", b"ustar\0"));
    assert_eq!(meta.filesize_as_dec(), 512);
    let meta = Meta::from_block(&block(b"a.txt", b"77777777777\0", b"ustar\0"));
    assert_eq!(meta.filesize_as_dec(), 0o77777777777);
    let meta = Meta::from_block(&block(b"a.txt", b"00000000000\0", b"ustar\0"));
    assert_eq!(meta.filesize_as_dec(), 0);
}

#[test]
fn the_name_of_a_file_has_no_zero_bytes_around_it() {
    let meta = Meta::from_block(&block(b"build/kernel.bin", b"00000000017\0", b"ustar\0"));
    assert_eq!(meta.name(), "build/kernel.bin");
    let meta = Meta::from_block(&block(b"\0\0x\0y", b"00000000000\0", b"ustar\0"));
    assert_eq!(meta.name(), "x\0y");
    assert_eq!(meta.name_bytes(), b"x\0y");
    let meta = Meta::from_block(&block(b"\xff\xfe", b"00000000000\0", b"ustar\0"));
    assert_eq!(meta.name_bytes(), b"\xff\xfe");
    let meta = Meta::from_block(&block(b"", b"00000000000\0", b"ustar\0"));
    assert_eq!(meta.name(), "");
    let full = [b'n'; 100];
    let meta = Meta::from_block(&block(&full, b"00000000000\0", b"ustar\0"));
    assert_eq!(meta.name().len(), 100);
    let meta = Meta::from_block(&block("caf\u{e9}".as_bytes(), b"00000000000\0", b"ustar\0"));
    assert_eq!(meta.name(), "caf\u{e9}");
}

#[test]
fn the_mark_of_the_format() {
    assert!(Meta::from_block(&block(b"a", b"00000000000\0", b"ustar\0")).is_ustar());
    assert!(Meta::from_block(&block(b"a", b"00000000000\0", b"ustar ")).is_ustar());
    assert!(!Meta::from_block(&block(b"a", b"00000000000\0", b"ustaR\0")).is_ustar());
    assert!(!Meta::from_block(&block(b"a", b"00000000000\0", b"")).is_ustar());
}

#[test]
fn the_next_header_follows_the_blocks_of_the_file() {
    assert_eq!(next_entry(0, 0), Some(512));
    assert_eq!(next_entry(0, 1), Some(1024));
    assert_eq!(next_entry(512, 512), Some(1536));
    assert_eq!(next_entry(512, 513), Some(2048));
    assert_eq!(next_entry(0, usize::MAX), None);
    assert_eq!(next_entry(usize::MAX - 600, 10), None);
}

#[test]
fn text_is_written_if_it_is_text() {
    assert_eq!(sys_write(1, b"hello"), (5, Some("hello")));
    assert_eq!(sys_write(1, "caf\u{e9}".as_bytes()), (5, Some("caf\u{e9}")));
    assert_eq!(sys_write(1, b""), (0, Some("")));
    assert_eq!(sys_write(1, b"\xffhello"), (0, None));
}

#[test]
fn the_pages_of_a_stretch_of_memory() {
    let frames = mem::map_pages(PhysAddr::new(0xfebf_0010).unwrap(), 0x20);
    assert_eq!(frames.start_frame.as_u64(), 0xfebf_0000);
    assert_eq!(frames.num_pages, 1);
    assert_eq!(frames.page_offset, 0x10);
    let frames = mem::map_pages(PhysAddr::new(0xfebf_0ff0).unwrap(), 0x20);
    assert_eq!(frames.num_pages, 2);
    assert_eq!(frames.page_offset, 0xff0);
    let frames = mem::map_pages(PhysAddr::new(0x1000).unwrap(), 0x3000);
    assert_eq!(frames.start_frame.as_u64(), 0x1000);
    assert_eq!(frames.num_pages, 4);
    assert_eq!(frames.page_offset, 0);
    assert_eq!(mem::unmap_pages(PhysAddr::new(0x1000).unwrap(), 0x3000), 3);
    assert_eq!(mem::unmap_pages(PhysAddr::new(0x1010).unwrap(), 0x20), 0);
    assert_eq!(PhysAddr::new(0x1234).unwrap().align_down(0x100).as_u64(), 0x1200);
    assert_eq!(PhysAddr::new(0x1234).unwrap().align_down(1).as_u64(), 0x1234);
}

#[test]
fn a_page_for_a_page_table_comes_from_free_memory() {
    let used = MemoryDescriptor { ty: MemoryType::Other, phys_start: 0, page_count: 16 };
    let free = MemoryDescriptor { ty: MemoryType::Conventional, phys_start: 0x10_0000, page_count: 2 };
    let more = MemoryDescriptor { ty: MemoryType::Conventional, phys_start: 0x80_0000, page_count: 9 };
    let mut map = vec![used, free, more];
    assert_eq!(allocate_page_for_page_table(&mut map), Some(0x10_0000));
    assert_eq!(
        map,
        vec![
            used,
            MemoryDescriptor { ty: MemoryType::Conventional, phys_start: 0x10_1000, page_count: 1 },
            more
        ]
    );
    let mut none = vec![used];
    assert_eq!(allocate_page_for_page_table(&mut none), None);
    assert_eq!(none, vec![used]);
    assert_eq!(allocate_page_for_page_table(&mut Vec::new()), None);
    assert_eq!(calculate_vram_bytes(32, 1920, 1080), 1920 * 1080 * 4);
    assert_eq!(calculate_vram_bytes(24, 3, 1), 9);
    assert_eq!(calculate_vram_bytes(255, 65535, 65535), 255 * 65535 * 65535 / 8);
}

#[test]
fn the_mouse_takes_any_number() {
    // Before the acknowledgement only the acknowledgement counts.
    for value in [i32::MIN, -1, 0x1fa, 0xfa00, i32::MAX] {
        assert_eq!(MouseDevice::new().put_data(value), (false, MouseDevice::new()));
    }
    let (_, waiting) = feed(MouseDevice::new(), &[0xfa]);
    // Of a first value only bits 3, 6 and 7 are looked at.
    assert!(MouseDevice::is_correct_first_byte_from_device(0x108));
    assert!(MouseDevice::is_correct_first_byte_from_device(-0xf8));
    assert!(!MouseDevice::is_correct_first_byte_from_device(-1));
    assert!(!MouseDevice::is_correct_first_byte_from_device(i32::MIN));
    assert_eq!(waiting.put_data(-1), (false, waiting));
    let (whole, mouse) = feed(waiting, &[0x108 | 0x01, 1000, -7]);
    assert!(whole);
    assert_eq!(mouse.data_from_device, [0x109, 1000, -7]);
    assert_eq!(mouse.x_speed, 1000);
    assert_eq!(mouse.y_speed, 7);
    assert_eq!(mouse.buttons, MouseButtons { left: true, center: false, right: false });
    // With the sign flags every bit above the low eight is set.
    let (whole, mouse) = feed(mouse, &[0x38, 0x1234, i32::MIN]);
    assert!(whole);
    assert_eq!(mouse.x_speed, 0x1234 | -256);
    assert_eq!(mouse.y_speed, 256);
    let (whole, mouse) = feed(mouse, &[0x08, i32::MIN, i32::MAX]);
    assert!(whole);
    assert_eq!(mouse.x_speed, i32::MIN);
    assert_eq!(mouse.y_speed, -i32::MAX);
    let mut buttons = MouseButtons::new();
    buttons.purse_data(-1);
    assert_eq!(buttons, MouseButtons { left: true, center: true, right: true });
    buttons.purse_data(i32::MIN);
    assert_eq!(buttons, MouseButtons::new());
}
