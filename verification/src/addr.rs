//! Physical addresses as the controller sees them.
//!
//! A physical address is a 52-bit number. The checks that decide whether a
//! number is one, and whether it has an alignment, are made by the `x86_64`
//! crate; this module holds the result as a plain integer with an invariant.

use vstd::prelude::*;

verus! {

/// One more than the greatest physical address.
pub const ADDR_LIMIT: u64 = 0x10_0000_0000_0000;

/// Whether `align` is a power of two.
pub open spec fn is_power_of_two(align: u64) -> bool {
    align != 0 && align & ((align - 1) as u64) == 0
}

/// Whether `addr` has no bit set below `align`, a power of two: whether it is
/// a multiple of `align`.
pub open spec fn aligned_to(addr: u64, align: u64) -> bool {
    addr & !((align - 1) as u64) == addr
}

/// Calls `PhysAddr::try_new` of `x86_64` and gives the accepted address back
/// as a number. The crate accepts exactly the numbers that have no bit set
/// in the range 52 to 64.
#[verifier::external_body]
fn checked_addr(addr: u64) -> (r: Option<u64>)
    ensures
        r == (if addr < ADDR_LIMIT {
            Some(addr)
        } else {
            None
        }),
{
    match x86_64::PhysAddr::try_new(addr) {
        Ok(p) => Some(p.as_u64()),
        Err(_) => None,
    }
}

/// Calls `PhysAddr::is_aligned` of `x86_64`. The crate clears the bits of
/// `addr` below `align` and compares with `addr`; it panics when `addr` is no
/// physical address or `align` is no power of two, which are excluded here.
#[verifier::external_body]
fn addr_is_aligned(addr: u64, align: u64) -> (r: bool)
    requires
        addr < ADDR_LIMIT,
        is_power_of_two(align),
    ensures
        r == aligned_to(addr, align),
{
    x86_64::PhysAddr::new(addr).is_aligned(align)
}

/// Calls `PhysAddr::align_down` of `x86_64`. The crate clears the bits of
/// `addr` below `align`; it panics when `addr` is no physical address or
/// `align` is no power of two, which are excluded here.
#[verifier::external_body]
fn addr_align_down(addr: u64, align: u64) -> (r: u64)
    requires
        addr < ADDR_LIMIT,
        is_power_of_two(align),
    ensures
        r == addr & !((align - 1) as u64),
{
    x86_64::PhysAddr::new(addr).align_down(align).as_u64()
}

/// Calls `Add<u64>` of `x86_64` on a `PhysAddr`. The crate adds the numbers
/// and panics when the sum overflows or is no physical address, which are
/// excluded here.
#[verifier::external_body]
fn addr_plus(addr: u64, by: u64) -> (r: u64)
    requires
        addr + by < ADDR_LIMIT,
    ensures
        r == addr + by,
{
    (x86_64::PhysAddr::new(addr) + by).as_u64()
}

/// Calls `Bytes::new` and `Bytes::as_usize` of `os_units`, which wrap and
/// unwrap a number of bytes unchanged.
#[verifier::external_body]
pub(crate) fn byte_count(bytes: usize) -> (r: usize)
    ensures
        r == bytes,
{
    os_units::Bytes::new(bytes).as_usize()
}

/// A physical address: a number below [`ADDR_LIMIT`].
#[derive(Clone, Copy, Debug, PartialEq, Eq)]
pub struct PhysAddr {
    raw: u64,
}

impl View for PhysAddr {
    type V = u64;

    closed spec fn view(&self) -> u64 {
        self.raw
    }
}

impl PhysAddr {
    /// Every address is below the limit.
    #[verifier::type_invariant]
    closed spec fn in_range(self) -> bool {
        self.raw < ADDR_LIMIT
    }

    /// The address `addr`, or `None` when `addr` does not fit in 52 bits.
    pub fn new(addr: u64) -> (r: Option<PhysAddr>)
        ensures
            addr < ADDR_LIMIT ==> r.is_some() && r.unwrap()@ == addr,
            addr >= ADDR_LIMIT ==> r.is_none(),
    {
        match checked_addr(addr) {
            Some(raw) => Some(PhysAddr { raw }),
            None => None,
        }
    }

    /// The address zero.
    pub fn zero() -> (r: PhysAddr)
        ensures
            r@ == 0,
    {
        PhysAddr { raw: 0 }
    }

    /// The address as a number.
    pub fn as_u64(self) -> (r: u64)
        ensures
            r == self@,
            r < ADDR_LIMIT,
    {
        proof {
            use_type_invariant(&self);
        }
        self.raw
    }

    /// Whether the address is a multiple of `align`, a power of two.
    pub fn is_aligned(self, align: u64) -> (r: bool)
        requires
            is_power_of_two(align),
        ensures
            r == aligned_to(self@, align),
    {
        proof {
            use_type_invariant(&self);
        }
        addr_is_aligned(self.raw, align)
    }

    /// The greatest multiple of `align`, a power of two, that is not above
    /// the address.
    pub fn align_down(self, align: u64) -> (r: PhysAddr)
        requires
            is_power_of_two(align),
        ensures
            r@ == self@ & !((align - 1) as u64),
            r@ <= self@,
            aligned_to(r@, align),
    {
        proof {
            use_type_invariant(&self);
            let a: u64 = self.raw;
            let m: u64 = (align - 1) as u64;
            assert(a & !m <= a && (a & !m) & !m == a & !m) by (bit_vector);
        }
        PhysAddr { raw: addr_align_down(self.raw, align) }
    }

    /// The address `by` bytes further.
    pub fn offset(self, by: u64) -> (r: PhysAddr)
        requires
            self@ + by < ADDR_LIMIT,
        ensures
            r@ == self@ + by,
    {
        PhysAddr { raw: addr_plus(self.raw, by) }
    }

    /// The address `by` bytes further, or `None` when that is no address.
    pub fn checked_add(self, by: u64) -> (r: Option<PhysAddr>)
        ensures
            self@ + by < ADDR_LIMIT ==> r.is_some() && r.unwrap()@ == self@ + by,
            self@ + by >= ADDR_LIMIT ==> r.is_none(),
    {
        proof {
            use_type_invariant(&self);
        }
        if by < ADDR_LIMIT - self.raw {
            Some(self.offset(by))
        } else {
            None
        }
    }
}

/// The alignments that the hardware asks for are powers of two.
pub proof fn lemma_powers_of_two()
    ensures
        is_power_of_two(2),
        is_power_of_two(16),
        is_power_of_two(64),
        is_power_of_two(128),
        is_power_of_two(4096),
{
    assert(2u64 & ((2u64 - 1) as u64) == 0 && 16u64 & ((16u64 - 1) as u64) == 0 && 64u64 & ((64u64
        - 1) as u64) == 0 && 128u64 & ((128u64 - 1) as u64) == 0 && 4096u64 & ((4096u64 - 1) as u64)
        == 0) by (bit_vector);
}

/// For the alignments that the controller asks for, an address is aligned
/// exactly when it is a multiple of the alignment.
pub proof fn lemma_aligned_is_multiple(addr: u64)
    ensures
        aligned_to(addr, 16) == (addr % 16 == 0),
        aligned_to(addr, 64) == (addr % 64 == 0),
{
    assert((addr & !15u64 == addr) == (addr % 16 == 0) && (addr & !63u64 == addr) == (addr % 64
        == 0)) by (bit_vector);
}

} // verus!
