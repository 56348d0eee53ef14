//! The list of extended capabilities of the host controller.
//!
//! Each capability starts with a header word: its kind in bits 0 to 7, and
//! in bits 8 to 15 the distance to the next capability in 32-bit words, or
//! zero at the end of the list. Reading the headers is left to the caller.

use crate::bits::{extract_bits, get_bits, lemma_extract_bound};
use vstd::prelude::*;

verus! {

/// The kind of the capability for the hand-over from the firmware.
pub const ID_USB_LEGACY_SUPPORT: u8 = 1;

/// The kind of the capability that names a protocol.
pub const ID_SUPPORTED_PROTOCOL: u8 = 2;

/// A capability that names a protocol that the controller supports.
#[derive(Clone, Copy, Debug, PartialEq, Eq, Structural)]
pub struct SupportedProtocol {
    /// The address of the capability.
    pub head: u64,
}

impl SupportedProtocol {
    /// The capability at `head`.
    pub fn new(head: u64) -> (r: SupportedProtocol)
        ensures
            r.head == head,
    {
        SupportedProtocol { head }
    }

    /// The number of speed descriptions that follow the four words of the
    /// capability: bits 28 to 31 of its third word.
    pub fn psic(third_word: u32) -> (r: u8)
        ensures
            r == extract_bits(third_word, 28, 31),
            r < 16,
    {
        let psic: u32 = get_bits(third_word, 28, 31);
        proof {
            lemma_extract_bound(third_word, 28, 31);
            assert(0xffff_ffffu32 >> 28u32 == 15) by (bit_vector);
        }
        psic as u8
    }
}

/// One capability of the list.
#[derive(Clone, Copy, Debug, PartialEq, Eq, Structural)]
pub enum ExtendedCapability {
    /// The hand-over from the firmware, at this address.
    UsbLegacySupport(u64),
    /// A supported protocol.
    SupportedProtocol(SupportedProtocol),
    /// A capability of another kind.
    UnImplemented,
}

/// The kind that the header names.
pub open spec fn header_id(header: u32) -> u32 {
    header & 0xff
}

/// The distance in bytes to the next capability that the header names, or
/// zero at the end of the list.
pub open spec fn header_next(header: u32) -> u32 {
    ((header >> 8) & 0xff) << 2
}

/// The capability at `addr` whose header is `header`.
pub open spec fn capability_at(addr: u64, header: u32) -> ExtendedCapability {
    if header_id(header) == ID_USB_LEGACY_SUPPORT {
        ExtendedCapability::UsbLegacySupport(addr)
    } else if header_id(header) == ID_SUPPORTED_PROTOCOL {
        ExtendedCapability::SupportedProtocol(SupportedProtocol { head: addr })
    } else {
        ExtendedCapability::UnImplemented
    }
}

/// The address behind `addr` at which the list goes on, if it does.
pub open spec fn address_of_next(addr: u64, header: u32) -> Option<u64> {
    if header_next(header) == 0 || addr + header_next(header) > u64::MAX {
        None
    } else {
        Some((addr + header_next(header)) as u64)
    }
}

/// The walk along the list.
#[derive(Clone, Copy, Debug, PartialEq, Eq, Structural)]
pub struct Iter {
    addr: Option<u64>,
}

impl Iter {
    /// The address of the capability that comes next, if there is one.
    pub closed spec fn spec_addr(&self) -> Option<u64> {
        self.addr
    }

    /// The walk along the list of the controller whose registers start at
    /// `mmio_base`. `xecp` is the distance of the first capability in 32-bit
    /// words, as the capability parameters name it; zero says that there is
    /// no list.
    pub fn new(mmio_base: u64, xecp: u16) -> (r: Iter)
        ensures
            r.spec_addr() == (if xecp == 0 || mmio_base + 4 * xecp > u64::MAX {
                None
            } else {
                Some((mmio_base + 4 * xecp) as u64)
            }),
    {
        if xecp > 0 {
            Iter { addr: mmio_base.checked_add(4 * (xecp as u64)) }
        } else {
            Iter { addr: None }
        }
    }

    /// The address of the capability that comes next, whose header the
    /// caller has to read.
    #[verifier::when_used_as_spec(spec_addr)]
    pub fn addr(&self) -> (r: Option<u64>)
        ensures
            r == self.spec_addr(),
    {
        self.addr
    }

    /// Goes on by one capability, whose header is `header`. The result is
    /// the capability; the walk is then at the one that the header points
    /// to. At the end of the list the result is `None`.
    pub fn next(&mut self, header: u32) -> (r: Option<ExtendedCapability>)
        ensures
            match old(self).spec_addr() {
                None => r.is_none() && final(self).spec_addr().is_none(),
                Some(a) => r == Some(capability_at(a, header)) && final(self).spec_addr()
                    == address_of_next(a, header),
            },
    {
        let a: u64 = match self.addr {
            Some(a) => a,
            None => {
                return None;
            },
        };
        let next_addr = Self::next_addr(a, header);
        let item = match Self::id(header) {
            1 => ExtendedCapability::UsbLegacySupport(a),
            2 => ExtendedCapability::SupportedProtocol(SupportedProtocol::new(a)),
            _ => ExtendedCapability::UnImplemented,
        };
        self.addr = next_addr;
        Some(item)
    }

    /// The address behind `addr` at which the list goes on, if it does.
    fn next_addr(addr: u64, header: u32) -> (r: Option<u64>)
        ensures
            r == address_of_next(addr, header),
    {
        let words: u32 = (header >> 8) & 0xff;
        assert(words <= 0xff && (words << 2) <= 0x3fc) by (bit_vector)
            requires
                words == (header >> 8) & 0xff,
        ;
        let offset: u32 = words << 2;
        if offset == 0 {
            None
        } else {
            addr.checked_add(offset as u64)
        }
    }

    /// The kind that the header names.
    fn id(header: u32) -> (r: u8)
        ensures
            r == header_id(header),
    {
        let id: u32 = header & 0xff;
        assert(id <= 0xff) by (bit_vector)
            requires
                id == header & 0xff,
        ;
        id as u8
    }
}

} // verus!
