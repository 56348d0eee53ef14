//! The command list of a SATA port: the command headers, the command tables
//! with their frames and descriptor tables, and the choice of a command slot.

use crate::addr::{aligned_to, PhysAddr, ADDR_LIMIT};
use crate::bits::{
    extract_bits, get_bits, insert_bit, insert_bits, lemma_extract_bound, lemma_field_max_values,
    lemma_insert_then_extract, lemma_insert_twice, lemma_truncated_fits, set_bit, set_bits,
};
use crate::ring::trb::{high_word, lemma_pointer_halves, low_word};
use vstd::prelude::*;

verus! {

/// The number of descriptors in a command table.
pub const NUM_OF_PRDT: usize = 8;

/// The greatest number of ports of a controller.
pub const MAX_PORTS: usize = 32;

/// The number of bytes of a sector.
pub const SECTOR_SIZE: u32 = 512;

/// Why a command could not be prepared.
#[derive(Clone, Copy, Debug, PartialEq, Eq, Structural)]
pub enum Error {
    /// Every command slot is in use.
    SlotIsNotAvailable,
}

/// The frame with which the host hands a command to the device.
#[derive(Clone, Copy, Debug, PartialEq, Eq)]
pub struct RegFixH2D([u32; 5]);

impl View for RegFixH2D {
    type V = Seq<u32>;

    closed spec fn view(&self) -> Seq<u32> {
        self.0@
    }
}

impl RegFixH2D {
    /// The tag of the kind of frame.
    pub const ID: u8 = 0x27;

    /// A frame has five words.
    pub proof fn lemma_len(self)
        ensures
            self@.len() == 5,
    {
    }

    /// The frame with its tag in bits 0 to 7 of word 0 and every other bit
    /// zero.
    pub fn null() -> (r: RegFixH2D)
        ensures
            r@ == seq![insert_bits(0, 0, 7, 0x27), 0u32, 0u32, 0u32, 0u32],
    {
        let mut fis = RegFixH2D([0; 5]);
        fis.set_fis_type(0x27);
        assert(fis@ =~= seq![insert_bits(0, 0, 7, 0x27), 0u32, 0u32, 0u32, 0u32]);
        fis
    }

    /// Writes the tag: bits 0 to 7 of word 0.
    fn set_fis_type(&mut self, ty: u8)
        ensures
            final(self)@ == old(self)@.update(0, insert_bits(old(self)@[0], 0, 7, ty as u32)),
    {
        proof {
            lemma_field_max_values();
        }
        self.0[0] = set_bits(self.0[0], 0, 7, ty as u32);
    }

    /// Writes the flag that says that the frame carries a command: bit 15 of
    /// word 0.
    pub fn set_c(&mut self, c: bool)
        ensures
            final(self)@ == old(self)@.update(0, insert_bit(old(self)@[0], 15, c)),
    {
        self.0[0] = set_bit(self.0[0], 15, c);
    }

    /// Writes the command: bits 16 to 23 of word 0.
    pub fn set_command(&mut self, command: u8)
        ensures
            final(self)@ == old(self)@.update(0, insert_bits(old(self)@[0], 16, 23, command as u32)),
    {
        proof {
            lemma_field_max_values();
        }
        self.0[0] = set_bits(self.0[0], 16, 23, command as u32);
    }

    /// Writes the low part of the block address: bits 0 to 23 of word 1 get
    /// the low 24 bits of `lba`.
    fn set_lba_as_u32(&mut self, lba: u32)
        ensures
            final(self)@ == old(self)@.update(
                1,
                insert_bits(old(self)@[1], 0, 23, lba & 0xff_ffff),
            ),
    {
        proof {
            lemma_field_max_values();
            lemma_truncated_fits(lba, 0, 23);
        }
        self.0[1] = set_bits(self.0[1], 0, 23, lba & 0xff_ffff);
    }

    /// Writes the device register: bits 24 to 31 of word 1.
    pub fn set_device(&mut self, device: u8)
        ensures
            final(self)@ == old(self)@.update(1, insert_bits(old(self)@[1], 24, 31, device as u32)),
    {
        proof {
            lemma_field_max_values();
        }
        self.0[1] = set_bits(self.0[1], 24, 31, device as u32);
    }

    /// Writes the high part of the block address: bits 0 to 23 of word 2 get
    /// the low 24 bits of `lba`.
    pub fn set_upper_lba_as_u32(&mut self, lba: u32)
        ensures
            final(self)@ == old(self)@.update(
                2,
                insert_bits(old(self)@[2], 0, 23, lba & 0xff_ffff),
            ),
    {
        proof {
            lemma_field_max_values();
            lemma_truncated_fits(lba, 0, 23);
        }
        self.0[2] = set_bits(self.0[2], 0, 23, lba & 0xff_ffff);
    }

    /// Writes the number of sectors: bits 0 to 15 of word 3.
    pub fn set_count(&mut self, count: u16)
        ensures
            final(self)@ == old(self)@.update(3, insert_bits(old(self)@[3], 0, 15, count as u32)),
    {
        proof {
            lemma_field_max_values();
        }
        self.0[3] = set_bits(self.0[3], 0, 15, count as u32);
    }

    /// Writes the block address `lba`: its low 12 bits go to the low part,
    /// what lies above bit 24 goes to the high part. `lba` has to be below
    /// 2 to the 56, so that the high part is a 32-bit number.
    pub fn set_lba(&mut self, lba: u64)
        requires
            lba < 0x100_0000_0000_0000,
        ensures
            final(self)@ == old(self)@.update(
                1,
                insert_bits(old(self)@[1], 0, 23, ((lba & 0xfff) as u32) & 0xff_ffff),
            ).update(2, insert_bits(old(self)@[2], 0, 23, ((lba >> 24) as u32) & 0xff_ffff)),
    {
        assert(lba < 0x100_0000_0000_0000 ==> (lba & 0xfff) <= 0xfff && (lba >> 24) <= 0xffff_ffff)
            by (bit_vector);
        self.set_lba_as_u32((lba & 0xfff) as u32);
        self.set_upper_lba_as_u32((lba >> 24) as u32);
    }
}

/// One entry of the descriptor table of a command: a piece of the buffer.
#[derive(Clone, Copy, Debug, PartialEq, Eq)]
pub struct PhysicalRegionDescriptorTable([u32; 8]);

impl View for PhysicalRegionDescriptorTable {
    type V = Seq<u32>;

    closed spec fn view(&self) -> Seq<u32> {
        self.0@
    }
}

impl PhysicalRegionDescriptorTable {
    /// An entry has eight words.
    pub proof fn lemma_len(self)
        ensures
            self@.len() == 8,
    {
    }

    /// Writes the address of the piece: words 0 and 1. `addr` must be a
    /// multiple of 2.
    pub fn set_dba(&mut self, addr: PhysAddr)
        requires
            aligned_to(addr@, 2),
        ensures
            final(self)@ == old(self)@.update(0, low_word(addr@)).update(1, high_word(addr@)),
    {
        self.set_dba_as_u64(addr.as_u64());
    }

    /// Writes the length of the piece less one: bits 0 to 21 of word 3 get
    /// the low 22 bits of `dbc`. `dbc` must be odd.
    pub fn set_dbc(&mut self, dbc: u32)
        requires
            dbc & 1 == 1,
        ensures
            final(self)@ == old(self)@.update(
                3,
                insert_bits(old(self)@[3], 0, 21, dbc & 0x3f_ffff),
            ),
    {
        self.set_dbc_as_u32(dbc);
    }

    /// The entry with every word zero.
    pub fn null() -> (r: PhysicalRegionDescriptorTable)
        ensures
            r@ == Seq::new(8, |i: int| 0u32),
    {
        let r = PhysicalRegionDescriptorTable([0; 8]);
        assert(r@ =~= Seq::new(8, |i: int| 0u32));
        r
    }

    /// Writes the 64 bits of `dba` into words 0 and 1.
    fn set_dba_as_u64(&mut self, dba: u64)
        ensures
            final(self)@ == old(self)@.update(0, low_word(dba)).update(1, high_word(dba)),
    {
        proof {
            lemma_pointer_halves(dba);
        }
        let low: u64 = dba & 0xffff_ffff;
        let high: u64 = dba >> 32;
        self.0[0] = low as u32;
        self.0[1] = high as u32;
    }

    /// Writes the low 22 bits of `dbc` into bits 0 to 21 of word 3.
    fn set_dbc_as_u32(&mut self, dbc: u32)
        ensures
            final(self)@ == old(self)@.update(
                3,
                insert_bits(old(self)@[3], 0, 21, dbc & 0x3f_ffff),
            ),
    {
        proof {
            lemma_field_max_values();
            lemma_truncated_fits(dbc, 0, 21);
        }
        self.0[3] = set_bits(self.0[3], 0, 21, dbc & 0x3f_ffff);
    }
}

/// The header of one command slot.
#[derive(Clone, Copy, Debug, PartialEq, Eq)]
pub struct Header([u32; 8]);

impl View for Header {
    type V = Seq<u32>;

    closed spec fn view(&self) -> Seq<u32> {
        self.0@
    }
}

impl Header {
    /// A header has eight words.
    pub proof fn lemma_len(self)
        ensures
            self@.len() == 8,
    {
    }

    /// The header with every word zero.
    pub fn null() -> (r: Header)
        ensures
            r@ == Seq::new(8, |i: int| 0u32),
    {
        let r = Header([0; 8]);
        assert(r@ =~= Seq::new(8, |i: int| 0u32));
        r
    }

    /// Writes the address of the command table: word 2 gets its low 32
    /// bits. `addr` must be a multiple of 128.
    pub fn set_command_table_base_addr(&mut self, addr: PhysAddr)
        requires
            aligned_to(addr@, 128),
        ensures
            final(self)@ == old(self)@.update(2, low_word(addr@)),
    {
        self.set_ctba(addr.as_u64());
    }

    /// Writes the low 32 bits of `ctba` into word 2.
    fn set_ctba(&mut self, ctba: u64)
        ensures
            final(self)@ == old(self)@.update(2, low_word(ctba)),
    {
        proof {
            lemma_pointer_halves(ctba);
        }
        let low: u64 = ctba & 0xffff_ffff;
        self.0[2] = low as u32;
    }

    /// Writes the length of the frame in words: bits 0 to 4 of word 0 get
    /// the low five bits of `cfl`.
    pub fn set_cfl(&mut self, cfl: u8)
        ensures
            final(self)@ == old(self)@.update(
                0,
                insert_bits(old(self)@[0], 0, 4, (cfl as u32) & 0x1f),
            ),
    {
        proof {
            lemma_field_max_values();
            lemma_truncated_fits(cfl as u32, 0, 4);
        }
        self.0[0] = set_bits(self.0[0], 0, 4, (cfl as u32) & 0x1f);
    }

    /// Writes the number of descriptors: bits 16 to 31 of word 0.
    pub fn set_prdtl(&mut self, prdtl: u16)
        ensures
            final(self)@ == old(self)@.update(0, insert_bits(old(self)@[0], 16, 31, prdtl as u32)),
    {
        proof {
            lemma_field_max_values();
        }
        self.0[0] = set_bits(self.0[0], 16, 31, prdtl as u32);
    }

    /// The number of descriptors: bits 16 to 31 of word 0.
    pub fn prdtl(&self) -> (r: u16)
        ensures
            r == extract_bits(self@[0], 16, 31),
    {
        let n: u32 = get_bits(self.0[0], 16, 31);
        proof {
            lemma_field_max_values();
            lemma_extract_bound(self.0[0], 16, 31);
        }
        n as u16
    }
}

/// The table of one command: the frame and the descriptors of the buffer.
#[derive(Clone, Copy, Debug, PartialEq, Eq)]
pub struct Table {
    pub fis: RegFixH2D,
    pub prdt: [PhysicalRegionDescriptorTable; 8],
}

impl Table {
    /// Whether the frame is empty and every descriptor zero.
    pub open spec fn is_null(self) -> bool {
        &&& self.fis@ == seq![insert_bits(0, 0, 7, 0x27), 0u32, 0u32, 0u32, 0u32]
        &&& forall|i: int|
            0 <= i < NUM_OF_PRDT ==> (#[trigger] self.prdt[i])@ == Seq::new(8, |i: int| 0u32)
    }

    /// The table with an empty frame and every descriptor zero.
    pub fn null() -> (r: Table)
        ensures
            r.is_null(),
    {
        Table { fis: RegFixH2D::null(), prdt: [PhysicalRegionDescriptorTable::null(); 8] }
    }
}

/// The command list of a port: one header and one table for each command
/// slot.
pub struct CommandList {
    pub headers: Vec<Header>,
    pub tables: Vec<Table>,
}

impl CommandList {
    /// There is a table for every header.
    pub open spec fn wf(self) -> bool {
        self.headers.len() == self.tables.len()
    }

    /// A command list with one slot for each address in `table_addrs`, which
    /// are the addresses at which the controller sees the command tables.
    /// Each header points to its table and is zero otherwise; each table is
    /// empty. The addresses must be multiples of 128.
    pub fn new(table_addrs: &Vec<PhysAddr>) -> (r: CommandList)
        requires
            forall|i: int| 0 <= i < table_addrs.len() ==> aligned_to((#[trigger] table_addrs[i])@, 128),
        ensures
            r.wf(),
            r.headers.len() == table_addrs.len(),
            forall|i: int|
                0 <= i < table_addrs.len() ==> (#[trigger] r.headers[i])@ == Seq::new(
                    8,
                    |i: int| 0u32,
                ).update(2, low_word(table_addrs[i]@)),
            forall|i: int| 0 <= i < table_addrs.len() ==> (#[trigger] r.tables[i]).is_null(),
    {
        let mut headers: Vec<Header> = Vec::new();
        let mut i: usize = 0;
        while i < table_addrs.len()
            invariant
                i <= table_addrs.len(),
                headers.len() == i,
                forall|j: int| 0 <= j < i ==> (#[trigger] headers[j])@ == Seq::new(8, |i: int| 0u32),
            decreases table_addrs.len() - i,
        {
            headers.push(Header::null());
            i += 1;
        }
        let tables = Self::new_tables(table_addrs.len());
        let mut list = CommandList { headers, tables };
        list.set_ptrs_of_headers(table_addrs);
        list
    }

    /// As many empty command tables as `num_of_slots` says.
    fn new_tables(num_of_slots: usize) -> (r: Vec<Table>)
        ensures
            r.len() == num_of_slots,
            forall|i: int| 0 <= i < num_of_slots ==> (#[trigger] r[i]).is_null(),
    {
        let mut tables: Vec<Table> = Vec::new();
        let mut i: usize = 0;
        while i < num_of_slots
            invariant
                i <= num_of_slots,
                tables.len() == i,
                forall|j: int| 0 <= j < i ==> (#[trigger] tables[j]).is_null(),
            decreases num_of_slots - i,
        {
            tables.push(Table::null());
            i += 1;
        }
        tables
    }

    /// Lets each header point to the table at the same index.
    fn set_ptrs_of_headers(&mut self, table_addrs: &Vec<PhysAddr>)
        requires
            old(self).headers.len() == table_addrs.len(),
            forall|i: int| 0 <= i < table_addrs.len() ==> aligned_to((#[trigger] table_addrs[i])@, 128),
        ensures
            final(self).tables == old(self).tables,
            final(self).headers.len() == old(self).headers.len(),
            forall|i: int|
                0 <= i < table_addrs.len() ==> (#[trigger] final(self).headers[i])@ == old(
                    self,
                ).headers[i]@.update(2, low_word(table_addrs[i]@)),
    {
        let mut i: usize = 0;
        while i < table_addrs.len()
            invariant
                i <= table_addrs.len(),
                self.tables == old(self).tables,
                self.headers.len() == table_addrs.len(),
                old(self).headers.len() == table_addrs.len(),
                forall|j: int|
                    0 <= j < table_addrs.len() ==> aligned_to((#[trigger] table_addrs[j])@, 128),
                forall|j: int|
                    0 <= j < i ==> (#[trigger] self.headers[j])@ == old(self).headers[j]@.update(
                        2,
                        low_word(table_addrs[j]@),
                    ),
                forall|j: int|
                    i <= j < table_addrs.len() ==> (#[trigger] self.headers[j]) == old(
                        self,
                    ).headers[j],
            decreases table_addrs.len() - i,
        {
            let mut header: Header = self.headers[i];
            header.set_command_table_base_addr(table_addrs[i]);
            self.headers.set(i, header);
            i += 1;
        }
    }
}

/// The bit of the command register of a port that lets the port process
/// its command list.
pub const CMD_START: u32 = 0x1;

/// The bit of the command register that lets the port take frames in.
pub const CMD_FIS_RECEIVE_ENABLE: u32 = 0x10;

/// The bit of the command register that says that the port is taking frames
/// in.
pub const CMD_FIS_RECEIVE_RUNNING: u32 = 0x4000;

/// The bit of the command register that says that the port is processing
/// its command list.
pub const CMD_COMMAND_LIST_RUNNING: u32 = 0x8000;

/// The bit of the capabilities of the controller that says that it takes
/// 64-bit addresses.
pub const CAP_SUPPORTS_64BIT: u32 = 0x8000_0000;

/// The number of command slots of each port, which the capabilities of the
/// controller hold less one in bits 8 to 12.
pub fn num_of_command_slots(cap: u32) -> (r: usize)
    ensures
        r == ((cap >> 8) & 0x1f) + 1,
        1 <= r <= 32,
{
    let n: u32 = (cap >> 8) & 0x1f;
    assert(n <= 0x1f) by (bit_vector)
        requires
            n == (cap >> 8) & 0x1f,
    ;
    (n + 1) as usize
}

/// Whether the controller takes 64-bit addresses.
pub fn supports_64bit_addressing(cap: u32) -> (r: bool)
    ensures
        r == (cap & CAP_SUPPORTS_64BIT != 0),
{
    cap & CAP_SUPPORTS_64BIT != 0
}

/// The command register `cmd` with the port told to stop: neither to
/// process its command list nor to take frames in.
pub fn stop(cmd: u32) -> (r: u32)
    ensures
        r == cmd & !(CMD_START | CMD_FIS_RECEIVE_ENABLE),
{
    cmd & !(CMD_START | CMD_FIS_RECEIVE_ENABLE)
}

/// Whether the port has come to rest: whether it neither processes its
/// command list nor takes frames in.
pub fn is_idle(cmd: u32) -> (r: bool)
    ensures
        r == (cmd & (CMD_COMMAND_LIST_RUNNING | CMD_FIS_RECEIVE_RUNNING) == 0),
{
    cmd & (CMD_COMMAND_LIST_RUNNING | CMD_FIS_RECEIVE_RUNNING) == 0
}

/// Whether a device is attached to the port, as its status register says:
/// the detection field in bits 0 to 3 is 3, or the power field in bits 8 to
/// 11 is 2, 6 or 8.
pub open spec fn spec_device_is_present(ssts: u32) -> bool {
    ssts & 0xf == 3 || (ssts >> 8) & 0xf == 2 || (ssts >> 8) & 0xf == 6 || (ssts >> 8) & 0xf == 8
}

/// Whether a device is attached to the port.
#[verifier::when_used_as_spec(spec_device_is_present)]
pub fn device_is_present(ssts: u32) -> (r: bool)
    ensures
        r == spec_device_is_present(ssts),
{
    let power: u32 = (ssts >> 8) & 0xf;
    ssts & 0xf == 3 || power == 2 || power == 6 || power == 8
}

/// Whether the port may be started: it does not process its command list,
/// it takes frames in, and a device is attached.
pub fn ready_to_start(cmd: u32, ssts: u32) -> (r: bool)
    ensures
        r == (cmd & CMD_COMMAND_LIST_RUNNING == 0 && cmd & CMD_FIS_RECEIVE_ENABLE != 0
            && spec_device_is_present(ssts)),
{
    cmd & CMD_COMMAND_LIST_RUNNING == 0 && cmd & CMD_FIS_RECEIVE_ENABLE != 0 && device_is_present(
        ssts,
    )
}

/// Whether the port `index` exists: whether bit `index` of the register of
/// implemented ports is set.
pub fn port_exists(ports_implemented: u32, index: usize) -> (r: bool)
    requires
        index < MAX_PORTS,
    ensures
        r == (ports_implemented & (1u32 << (index as u32)) != 0),
{
    ports_implemented & (1u32 << (index as u32)) != 0
}

/// Whether the command slot `index` is free: whether bit `index` of the
/// slots in use is clear.
pub open spec fn spec_slot_available(used_slots: u32, index: int) -> bool {
    used_slots & (1u32 << (index as u32)) == 0
}

/// Whether the command slot `index` is free.
pub fn slot_available(used_slots: u32, index: usize) -> (r: bool)
    requires
        index < 32,
    ensures
        r == spec_slot_available(used_slots, index as int),
{
    used_slots & (1u32 << (index as u32)) == 0
}

/// The first free command slot among the `num_of_command_slots` slots of a
/// port, or `None` where every one is in use. `used_slots` has a bit set for
/// each slot that holds a command.
pub fn get_available_command_slot(used_slots: u32, num_of_command_slots: usize) -> (r: Option<
    usize,
>)
    requires
        num_of_command_slots <= 32,
    ensures
        match r {
            Some(i) => {
                &&& i < num_of_command_slots
                &&& spec_slot_available(used_slots, i as int)
                &&& forall|j: int| 0 <= j < i ==> !spec_slot_available(used_slots, j)
            },
            None => forall|j: int|
                0 <= j < num_of_command_slots ==> !spec_slot_available(used_slots, j),
        },
{
    let mut i: usize = 0;
    while i < num_of_command_slots
        invariant
            i <= num_of_command_slots <= 32,
            forall|j: int| 0 <= j < i ==> !spec_slot_available(used_slots, j),
        decreases num_of_command_slots - i,
    {
        if slot_available(used_slots, i) {
            return Some(i);
        }
        i += 1;
    }
    None
}

/// The number of descriptors that a read of `sector_cnt` sectors needs: one
/// for every sixteen sectors.
pub open spec fn descriptors_for(sector_cnt: u16) -> int {
    (sector_cnt - 1) / 16 + 1
}

/// Fills the header of a command in for a read of `sector_cnt` sectors: the
/// frame has five words, and there is one descriptor for every sixteen
/// sectors. `sector_cnt` must not be zero.
pub fn init_command_list_header(header: &mut Header, sector_cnt: u16)
    requires
        sector_cnt > 0,
    ensures
        final(header)@ == old(header)@.update(
            0,
            insert_bits(
                insert_bits(old(header)@[0], 0, 4, 5),
                16,
                31,
                descriptors_for(sector_cnt) as u32,
            ),
        ),
{
    proof {
        header.lemma_len();
        assert(5u32 & 0x1f == 5) by (bit_vector);
        let n: u16 = (sector_cnt - 1) as u16;
        assert(n >> 4 == n / 16) by (bit_vector);
    }
    header.set_cfl(5);
    header.set_prdtl(((sector_cnt - 1) >> 4) + 1);
}

/// Fills the frame of a command in for a read that starts at block 0: the
/// command flag is set, the command is a read with 48-bit addresses, and the
/// device register selects block addressing.
pub fn init_fis(fis: &mut RegFixH2D)
    ensures
        final(fis)@ == old(fis)@.update(
            1,
            insert_bits(insert_bits(old(fis)@[1], 0, 23, 0), 24, 31, 0x40),
        ).update(2, insert_bits(old(fis)@[2], 0, 23, 0)).update(
            0,
            insert_bits(insert_bit(old(fis)@[0], 15, true), 16, 23, 0x25),
        ),
{
    proof {
        fis.lemma_len();
        assert((0u64 & 0xfff) as u32 & 0xff_ffff == 0 && (0u64 >> 24) as u32 & 0xff_ffff == 0)
            by (bit_vector);
    }
    fis.set_lba(0);
    fis.set_c(true);
    fis.set_command(0x25);
    fis.set_device(0x40);
    assert(fis@ =~= old(fis)@.update(
        1,
        insert_bits(insert_bits(old(fis)@[1], 0, 23, 0), 24, 31, 0x40),
    ).update(2, insert_bits(old(fis)@[2], 0, 23, 0)).update(
        0,
        insert_bits(insert_bit(old(fis)@[0], 15, true), 16, 23, 0x25),
    ));
}

/// The size in bytes of the piece of a buffer that one descriptor covers.
pub const PIECE_SIZE: u64 = 4096;

/// The length field of descriptor `index` of a read of `sector_cnt` sectors
/// that has `prdtl` descriptors: the last one holds the length of the whole
/// read less one, the others that of two pieces less one.
pub open spec fn piece_length(index: int, prdtl: int, sector_cnt: u16) -> u32 {
    if index == prdtl - 1 {
        (((sector_cnt as u32) << 9) - 1) as u32 & 0x3f_ffff
    } else {
        8191
    }
}

/// Descriptor `index` of a read into the buffer at `buf`, written over
/// `before`.
pub open spec fn piece(before: Seq<u32>, index: int, prdtl: int, sector_cnt: u16, buf: u64) -> Seq<
    u32,
> {
    before.update(0, low_word((buf + PIECE_SIZE * index) as u64)).update(
        1,
        high_word((buf + PIECE_SIZE * index) as u64),
    ).update(3, insert_bits(before[3], 0, 21, piece_length(index, prdtl, sector_cnt)))
}

/// Fills the first `prdtl` descriptors of `table` in for a read of
/// `sector_cnt` sectors into the buffer at `buf`: descriptor `i` points
/// `i` pieces into the buffer. The frame and the other descriptors stay.
pub fn init_command_table(table: &mut Table, prdtl: usize, sector_cnt: u16, buf: PhysAddr)
    requires
        1 <= prdtl <= NUM_OF_PRDT,
        sector_cnt >= 1,
        aligned_to(buf@, 2),
        buf@ + PIECE_SIZE * prdtl <= ADDR_LIMIT,
    ensures
        final(table).fis == old(table).fis,
        forall|i: int|
            0 <= i < prdtl ==> (#[trigger] final(table).prdt[i])@ == piece(
                old(table).prdt[i]@,
                i,
                prdtl as int,
                sector_cnt,
                buf@,
            ),
        forall|i: int|
            prdtl <= i < NUM_OF_PRDT ==> #[trigger] final(table).prdt[i] == old(table).prdt[i],
{
    let mut i: usize = 0;
    while i < prdtl
        invariant
            i <= prdtl <= NUM_OF_PRDT,
            aligned_to(buf@, 2),
            buf@ + PIECE_SIZE * prdtl <= ADDR_LIMIT,
            table.fis == old(table).fis,
            forall|j: int|
                0 <= j < i ==> (#[trigger] table.prdt[j])@ == old(table).prdt[j]@.update(
                    0,
                    low_word((buf@ + PIECE_SIZE * j) as u64),
                ).update(1, high_word((buf@ + PIECE_SIZE * j) as u64)).update(
                    3,
                    insert_bits(old(table).prdt[j]@[3], 0, 21, 8191),
                ),
            forall|j: int| i <= j < NUM_OF_PRDT ==> #[trigger] table.prdt[j] == old(table).prdt[j],
        decreases prdtl - i,
    {
        let offset: u64 = 4 * 1024 * (i as u64);
        let piece_addr = buf.offset(offset);
        proof {
            let b: u64 = buf@;
            assert(b & !1u64 == b && offset <= 0x8000 && offset & 0xfff == 0 && b + offset
                < 0x10_0000_0000_0000 ==> (((b + offset) as u64) & !1u64 == ((b + offset) as u64)))
                by (bit_vector);
            assert(offset & 0xfff == 0 && offset <= 0x8000) by (bit_vector)
                requires
                    i <= 8,
                    offset == 4096 * (i as u64),
            ;
            assert(8191u32 & 1 == 1 && 8191u32 & 0x3f_ffff == 8191) by (bit_vector);
            table.prdt[i as int].lemma_len();
        }
        let mut entry = table.prdt[i];
        entry.set_dba(piece_addr);
        entry.set_dbc(8 * 1024 - 1);
        table.prdt[i] = entry;
        i += 1;
    }
    let sectors: u32 = sector_cnt as u32;
    let shifted: u32 = sectors << 9;
    assert(shifted >= 1 && ((shifted - 1) as u32) & 1 == 1) by (bit_vector)
        requires
            1 <= sectors <= 0xffff,
            shifted == sectors << 9,
    ;
    let length: u32 = shifted - 1;
    proof {
        lemma_field_max_values();
        lemma_truncated_fits(length, 0, 21);
        lemma_insert_twice(old(table).prdt[prdtl - 1]@[3], 0, 21, 8191, length & 0x3f_ffff);
        table.prdt[prdtl - 1].lemma_len();
    }
    let mut last = table.prdt[prdtl - 1];
    last.set_dbc(length);
    table.prdt[prdtl - 1] = last;
}

/// Prepares a read of `sector_cnt` sectors into the buffer at `buf`: takes
/// the first free command slot and fills its header, its descriptors and
/// its frame in. The result is the slot, which the caller then issues; it
/// is [`Error::SlotIsNotAvailable`], and nothing changes, exactly when none
/// of the `num_of_command_slots` slots is free. `used_slots` has a bit set
/// for each slot that holds a command.
pub fn init_command_header_and_table(
    list: &mut CommandList,
    used_slots: u32,
    num_of_command_slots: usize,
    sector_cnt: u16,
    buf: PhysAddr,
) -> (r: Result<usize, Error>)
    requires
        old(list).wf(),
        num_of_command_slots <= old(list).headers.len(),
        num_of_command_slots <= 32,
        1 <= sector_cnt <= 128,
        aligned_to(buf@, 2),
        buf@ + PIECE_SIZE * NUM_OF_PRDT <= ADDR_LIMIT,
    ensures
        final(list).wf(),
        final(list).headers.len() == old(list).headers.len(),
        match r {
            Err(e) => {
                &&& e == Error::SlotIsNotAvailable
                &&& forall|j: int|
                    0 <= j < num_of_command_slots ==> !spec_slot_available(used_slots, j)
                &&& *final(list) == *old(list)
            },
            Ok(slot) => {
                let prdtl = descriptors_for(sector_cnt);
                &&& slot < num_of_command_slots
                &&& spec_slot_available(used_slots, slot as int)
                &&& forall|j: int| 0 <= j < slot ==> !spec_slot_available(used_slots, j)
                &&& forall|j: int|
                    0 <= j < old(list).headers.len() && j != slot ==> final(list).headers[j] == old(
                        list,
                    ).headers[j] && final(list).tables[j] == old(list).tables[j]
                &&& final(list).headers[slot as int]@ == old(list).headers[slot as int]@.update(
                    0,
                    insert_bits(
                        insert_bits(old(list).headers[slot as int]@[0], 0, 4, 5),
                        16,
                        31,
                        prdtl as u32,
                    ),
                )
                &&& forall|i: int|
                    0 <= i < prdtl ==> (#[trigger] final(list).tables[slot as int].prdt[i])@
                        == piece(old(list).tables[slot as int].prdt[i]@, i, prdtl, sector_cnt, buf@)
                &&& forall|i: int|
                    prdtl <= i < NUM_OF_PRDT ==> #[trigger] final(list).tables[slot as int].prdt[i]
                        == old(list).tables[slot as int].prdt[i]
                &&& final(list).tables[slot as int].fis@ == old(list).tables[slot as int].fis@.update(
                    1,
                    insert_bits(
                        insert_bits(old(list).tables[slot as int].fis@[1], 0, 23, 0),
                        24,
                        31,
                        0x40,
                    ),
                ).update(2, insert_bits(old(list).tables[slot as int].fis@[2], 0, 23, 0)).update(
                    0,
                    insert_bits(
                        insert_bit(old(list).tables[slot as int].fis@[0], 15, true),
                        16,
                        23,
                        0x25,
                    ),
                )
            },
        },
{
    let slot_index: usize = match get_available_command_slot(used_slots, num_of_command_slots) {
        Some(slot_index) => slot_index,
        None => {
            return Err(Error::SlotIsNotAvailable);
        },
    };
    let mut header: Header = list.headers[slot_index];
    init_command_list_header(&mut header, sector_cnt);
    let prdtl: usize = header.prdtl() as usize;
    proof {
        header.lemma_len();
        list.headers[slot_index as int].lemma_len();
        lemma_field_max_values();
        lemma_insert_then_extract(
            insert_bits(list.headers[slot_index as int]@[0], 0, 4, 5),
            16,
            31,
            descriptors_for(sector_cnt) as u32,
        );
    }
    list.headers.set(slot_index, header);
    let mut table: Table = list.tables[slot_index];
    init_command_table(&mut table, prdtl, sector_cnt, buf);
    init_fis(&mut table.fis);
    list.tables.set(slot_index, table);
    Ok(slot_index)
}

} // verus!
