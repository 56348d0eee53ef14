//! How a stretch of physical memory is laid out in pages when it is mapped.

use crate::addr::{lemma_powers_of_two, PhysAddr, ADDR_LIMIT};
use vstd::prelude::*;

verus! {

/// The size of a page in bytes.
pub const PAGE_SIZE: u64 = 4096;

/// Calls `Bytes::as_num_of_pages` of `os_units` for pages of 4 KiB, which
/// gives the number of pages that the bytes need. The crate adds the page
/// size to the number and then takes one off; the sum must not overflow.
#[verifier::external_body]
fn pages_for(bytes: usize) -> (r: usize)
    requires
        bytes + 4096 <= usize::MAX,
    ensures
        r == (bytes + 4095) / 4096,
{
    os_units::Bytes::new(bytes).as_num_of_pages::<x86_64::structures::paging::Size4KiB>().as_usize()
}

/// The pages that a stretch of physical memory lies in.
#[derive(Clone, Copy, Debug, PartialEq, Eq)]
pub struct Frames {
    /// The address of the first page.
    pub start_frame: PhysAddr,
    /// The number of pages.
    pub num_pages: usize,
    /// The offset of the stretch in its first page.
    pub page_offset: u64,
}

/// The start of the page that `addr` lies in.
pub open spec fn frame_of(addr: u64) -> u64 {
    addr & !4095u64
}

/// The pages that have to be mapped to reach the `object_size` bytes at
/// `start`: those from the page of the first byte to the page behind the
/// last byte.
pub fn map_pages(start: PhysAddr, object_size: usize) -> (r: Frames)
    requires
        start@ + object_size < ADDR_LIMIT,
        object_size + 2 * PAGE_SIZE <= usize::MAX,
    ensures
        r.start_frame@ == frame_of(start@),
        r.num_pages == (frame_of((start@ + object_size) as u64) - frame_of(start@)) / 4096 + 1,
        r.page_offset == start@ % 4096,
{
    proof {
        lemma_powers_of_two();
    }
    let start_frame_addr = start.align_down(PAGE_SIZE);
    let end_frame_addr = start.offset(object_size as u64).align_down(PAGE_SIZE);
    proof {
        let s: u64 = start@;
        let e: u64 = (start@ + object_size) as u64;
        assert(s <= e ==> (s & !4095u64) <= (e & !4095u64) && (e & !4095u64) - (s & !4095u64) <= e
            - s + 4095 && ((e & !4095u64) - (s & !4095u64)) % 4096 == 0 && (4096u64 - 1) as u64
            == 4095) by (bit_vector);
    }
    let span: u64 = end_frame_addr.as_u64() - start_frame_addr.as_u64();
    let num_pages = pages_for(span as usize + 1);
    Frames { start_frame: start_frame_addr, num_pages, page_offset: start.as_u64() % PAGE_SIZE }
}

/// The number of pages that are unmapped with the `object_size` bytes at
/// `start`: those from the page of the first byte up to, and without, the
/// page behind the last byte.
pub fn unmap_pages(start: PhysAddr, object_size: usize) -> (r: usize)
    requires
        start@ + object_size < ADDR_LIMIT,
        object_size + 2 * PAGE_SIZE <= usize::MAX,
    ensures
        r == (frame_of((start@ + object_size) as u64) - frame_of(start@)) / 4096,
{
    proof {
        lemma_powers_of_two();
    }
    let start_frame_addr = start.align_down(PAGE_SIZE);
    let end_frame_addr = start.offset(object_size as u64).align_down(PAGE_SIZE);
    proof {
        let s: u64 = start@;
        let e: u64 = (start@ + object_size) as u64;
        assert(s <= e ==> (s & !4095u64) <= (e & !4095u64) && (e & !4095u64) - (s & !4095u64) <= e
            - s + 4095 && ((e & !4095u64) - (s & !4095u64)) % 4096 == 0 && (4096u64 - 1) as u64
            == 4095) by (bit_vector);
    }
    let span: u64 = end_frame_addr.as_u64() - start_frame_addr.as_u64();
    pages_for(span as usize)
}

} // verus!
