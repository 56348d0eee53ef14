//! Arithmetic on the four levels of page tables.

use vstd::prelude::*;

verus! {

/// The size of an entry of a page table in bytes.
pub const TABLE_ENTRY_SIZE: usize = 8;

/// The flag of an entry that says that what it points to exists.
pub const PAGE_EXISTS: usize = 1;

/// The size of a page in bytes.
pub const BYTES_OF_PAGE: usize = 0x1000;

/// The levels of page tables, from the root down.
#[derive(Clone, Copy, Debug, PartialEq, Eq, Structural)]
pub enum TableType {
    Pml4,
    Pdpt,
    Pd,
    Pt,
}

impl TableType {
    /// The level below, if there is one.
    pub fn next_table(&self) -> (r: Option<TableType>)
        ensures
            r == (match *self {
                TableType::Pt => None,
                TableType::Pd => Some(TableType::Pt),
                TableType::Pdpt => Some(TableType::Pd),
                TableType::Pml4 => Some(TableType::Pdpt),
            }),
    {
        match self {
            TableType::Pt => None,
            TableType::Pd => Some(TableType::Pt),
            TableType::Pdpt => Some(TableType::Pd),
            TableType::Pml4 => Some(TableType::Pdpt),
        }
    }

    /// The bit of a virtual address at which the index into a table of the
    /// level starts.
    pub open spec fn spec_shift(self) -> u64 {
        match self {
            TableType::Pml4 => 39,
            TableType::Pdpt => 30,
            TableType::Pd => 21,
            TableType::Pt => 12,
        }
    }

    /// The bit of a virtual address at which the index into a table of the
    /// level starts.
    #[verifier::when_used_as_spec(spec_shift)]
    pub fn shift(self) -> (r: u64)
        ensures
            r == self.spec_shift(),
    {
        match self {
            TableType::Pml4 => 39,
            TableType::Pdpt => 30,
            TableType::Pd => 21,
            TableType::Pt => 12,
        }
    }
}

/// A stretch of virtual addresses and the physical addresses that it is
/// mapped to.
#[derive(Clone, Copy, Debug, PartialEq, Eq, Structural)]
pub struct PageMapInfo {
    pub virt: u64,
    pub phys: u64,
    pub bytes: u64,
}

impl PageMapInfo {
    /// The mapping of `bytes` bytes at `virt` to `phys`.
    pub fn new(virt: u64, phys: u64, bytes: u64) -> (r: PageMapInfo)
        ensures
            r == (PageMapInfo { virt, phys, bytes }),
    {
        PageMapInfo { virt, phys, bytes }
    }
}

/// The kind of a stretch of the memory map.
#[derive(Clone, Copy, Debug, PartialEq, Eq, Structural)]
pub enum MemoryType {
    /// Memory that is free to use.
    Conventional,
    /// Memory that is in use or cannot be used.
    Other,
}

/// One stretch of the memory map that the firmware hands over.
#[derive(Clone, Copy, Debug, PartialEq, Eq, Structural)]
pub struct MemoryDescriptor {
    pub ty: MemoryType,
    pub phys_start: u64,
    pub page_count: u64,
}

/// The index of the first stretch of free memory in `mem_map`, or the length
/// of `mem_map` where there is none.
pub open spec fn first_conventional(mem_map: Seq<MemoryDescriptor>) -> int
    decreases mem_map.len(),
{
    if mem_map.len() == 0 || mem_map[0].ty == MemoryType::Conventional {
        0
    } else {
        1 + first_conventional(mem_map.drop_first())
    }
}

/// Takes one page for a page table from the first stretch of free memory in
/// `mem_map`: the stretch then starts one page later and is one page
/// shorter. The result is the address of the page, or `None`, and nothing
/// changes, where no stretch is free. A free stretch has to hold a page and
/// to end below the greatest address.
pub fn allocate_page_for_page_table(mem_map: &mut Vec<MemoryDescriptor>) -> (r: Option<u64>)
    requires
        forall|i: int|
            0 <= i < old(mem_map).len() && (#[trigger] old(mem_map)[i]).ty == MemoryType::Conventional
                ==> old(mem_map)[i].page_count > 0 && old(mem_map)[i].phys_start + BYTES_OF_PAGE
                <= u64::MAX,
    ensures
        ({
            let found = first_conventional(old(mem_map)@);
            if found < old(mem_map).len() {
                &&& r == Some(old(mem_map)[found].phys_start)
                &&& final(mem_map)@ == old(mem_map)@.update(
                    found,
                    MemoryDescriptor {
                        ty: MemoryType::Conventional,
                        phys_start: (old(mem_map)[found].phys_start + BYTES_OF_PAGE) as u64,
                        page_count: (old(mem_map)[found].page_count - 1) as u64,
                    },
                )
            } else {
                r.is_none() && final(mem_map)@ == old(mem_map)@
            }
        }),
{
    let mut i: usize = 0;
    while i < mem_map.len()
        invariant
            i <= mem_map.len(),
            mem_map@ == old(mem_map)@,
            forall|j: int| 0 <= j < i ==> (#[trigger] mem_map[j]).ty != MemoryType::Conventional,
            forall|j: int|
                0 <= j < mem_map.len() && (#[trigger] mem_map[j]).ty == MemoryType::Conventional
                    ==> mem_map[j].page_count > 0 && mem_map[j].phys_start + BYTES_OF_PAGE
                    <= u64::MAX,
        decreases mem_map.len() - i,
    {
        let descriptor: MemoryDescriptor = mem_map[i];
        if descriptor.ty == MemoryType::Conventional {
            let addr: u64 = descriptor.phys_start;
            proof {
                lemma_first_conventional(mem_map@, i as int);
            }
            mem_map.set(
                i,
                MemoryDescriptor {
                    ty: MemoryType::Conventional,
                    phys_start: descriptor.phys_start + 0x1000,
                    page_count: descriptor.page_count - 1,
                },
            );
            return Some(addr);
        }
        i += 1;
    }
    proof {
        lemma_first_conventional(mem_map@, mem_map.len() as int);
    }
    None
}

/// Where no stretch before `index` is free and the stretch at `index` is,
/// or `index` is the length, `index` is the first free stretch.
proof fn lemma_first_conventional(mem_map: Seq<MemoryDescriptor>, index: int)
    requires
        0 <= index <= mem_map.len(),
        forall|j: int| 0 <= j < index ==> (#[trigger] mem_map[j]).ty != MemoryType::Conventional,
        index < mem_map.len() ==> mem_map[index].ty == MemoryType::Conventional,
    ensures
        first_conventional(mem_map) == index,
    decreases mem_map.len(),
{
    if index > 0 {
        let rest = mem_map.drop_first();
        assert forall|j: int| 0 <= j < index - 1 implies (#[trigger] rest[j]).ty
            != MemoryType::Conventional by {
            assert(rest[j] == mem_map[j + 1]);
        }
        lemma_first_conventional(rest, index - 1);
    }
}

/// The number of bytes of a frame buffer with `bits_per_pixel` bits for each
/// of its `width` times `height` pixels.
pub fn calculate_vram_bytes(bits_per_pixel: u8, width: u16, height: u16) -> (r: u64)
    ensures
        r == (bits_per_pixel * width * height) / 8,
{
    assert(width * height <= 0xffff * 0xffff) by (nonlinear_arith)
        requires
            width <= 0xffff,
            height <= 0xffff,
    ;
    let pixels: u64 = (width as u64) * (height as u64);
    assert((bits_per_pixel as u64) * pixels <= 0xff * (0xffff * 0xffff)) by (nonlinear_arith)
        requires
            bits_per_pixel <= 0xff,
            pixels <= 0xffff * 0xffff,
    ;
    assert((bits_per_pixel as u64) * pixels == bits_per_pixel * width * height)
        by (nonlinear_arith)
        requires
            pixels == (width as u64) * (height as u64),
    ;
    (bits_per_pixel as u64) * pixels / 8
}

/// The number of pages that `bytes` bytes need.
pub fn bytes_to_pages(bytes: u64) -> (r: u64)
    requires
        bytes + BYTES_OF_PAGE - 1 <= u64::MAX,
    ensures
        r == (bytes + BYTES_OF_PAGE - 1) / (BYTES_OF_PAGE as int),
{
    (bytes + 0xfff) / 0x1000
}

/// The offset in bytes, in a table of the level `table`, of the entry for
/// the virtual address `virt_addr`: eight times the nine bits of the address
/// that index the level.
pub fn get_offset_of_entry(virt_addr: u64, table: TableType) -> (r: u64)
    ensures
        r == ((virt_addr >> table.spec_shift()) & 0x1ff) * TABLE_ENTRY_SIZE,
        r < BYTES_OF_PAGE,
{
    let shifted: u64 = virt_addr >> table.shift();
    let index: u64 = shifted & 0x1ff;
    assert(index <= 0x1ff) by (bit_vector)
        requires
            index == shifted & 0x1ff,
    ;
    index * 8
}

/// The address of the entry for the virtual address `virt` in the table of
/// the level `table` at `table_addr`.
pub fn ptr_to_entry(virt: u64, table_addr: u64, table: TableType) -> (r: u64)
    requires
        table_addr + BYTES_OF_PAGE <= u64::MAX,
    ensures
        r == table_addr + ((virt >> table.spec_shift()) & 0x1ff) * TABLE_ENTRY_SIZE,
{
    table_addr + get_offset_of_entry(virt, table)
}

/// Whether what the entry points to exists.
pub fn entry_exists(entry: u64) -> (r: bool)
    ensures
        r == (entry & 1 == 1),
{
    entry & 1 == 1
}

/// The address that the entry points to: the entry without its twelve low
/// bits.
pub fn get_addr_from_table_entry(entry: u64) -> (r: u64)
    ensures
        r == entry & 0xffff_ffff_ffff_f000,
{
    entry & 0xffff_ffff_ffff_f000
}

} // verus!
