//! The base address registers of a PCI function.

use crate::addr::{PhysAddr, ADDR_LIMIT};
use vstd::prelude::*;

verus! {

/// The width of the address that a base address register holds.
#[derive(Clone, Copy, Debug, PartialEq, Eq, Structural)]
pub enum BarType {
    Bar32Bit,
    Bar64Bit,
}

/// The number of base address registers of a function.
pub const NUM_OF_BARS: u32 = 6;

/// The number of a base address register.
#[derive(Clone, Copy, Debug, PartialEq, Eq, Structural)]
pub struct Index(u32);

impl View for Index {
    type V = u32;

    closed spec fn view(&self) -> u32 {
        self.0
    }
}

impl Index {
    /// The number `index`, which has to be below [`NUM_OF_BARS`].
    pub fn new(index: u32) -> (r: Index)
        requires
            index < NUM_OF_BARS,
        ensures
            r@ == index,
    {
        Index(index)
    }

    /// The number as a `usize`.
    pub fn as_usize(self) -> (r: usize)
        ensures
            r == self@,
    {
        self.0 as usize
    }

    /// The number of the configuration register that holds the base address
    /// register: four more than its own, where that does not overflow.
    pub fn register_index(self) -> (r: Option<usize>)
        ensures
            self@ + 4 <= u32::MAX ==> r == Some((self@ + 4) as usize),
            self@ + 4 > u32::MAX ==> r.is_none(),
    {
        match self.0.checked_add(4) {
            Some(n) => Some(n as usize),
            None => None,
        }
    }
}

/// The value of a base address register.
#[derive(Clone, Copy, Debug, PartialEq, Eq, Structural)]
pub struct Bar(u32);

impl View for Bar {
    type V = u32;

    closed spec fn view(&self) -> u32 {
        self.0
    }
}

impl Default for Bar {
    fn default() -> (r: Bar)
        ensures
            r@ == 0,
    {
        Bar(0)
    }
}

/// The address that a 32-bit register holds: the register without its four
/// low bits.
pub open spec fn address_32(bar: u32) -> u64 {
    (bar & !0xfu32) as u64
}

/// The address that a 64-bit register and the register behind it hold.
pub open spec fn address_64(bar: u32, upper: u32) -> u64 {
    ((bar & !0xfu32) as u64) | ((upper as u64) << 32)
}

impl Bar {
    /// The register with the value `bar`.
    pub fn new(bar: u32) -> (r: Bar)
        ensures
            r@ == bar,
    {
        Bar(bar)
    }

    /// The two low bits of the register, which name the width.
    pub open spec fn type_bits(self) -> u32 {
        self@ & 0b11
    }

    /// The width that the register names. Its two low bits have to be 0 or
    /// 2; other values name no width.
    pub fn ty(self) -> (r: BarType)
        requires
            self.type_bits() == 0 || self.type_bits() == 2,
        ensures
            r == (if self.type_bits() == 0 {
                BarType::Bar32Bit
            } else {
                BarType::Bar64Bit
            }),
    {
        let ty_raw: u32 = self.0 & 0b11;
        if ty_raw == 0 {
            BarType::Bar32Bit
        } else {
            BarType::Bar64Bit
        }
    }

    /// The value of the register.
    pub fn as_u32(self) -> (r: u32)
        ensures
            r == self@,
    {
        self.0
    }

    /// The address that the register holds, together with the register
    /// `upper` behind it where it is a 64-bit one. Without `upper` only a
    /// 32-bit register has an address. The result is `None` too where the two
    /// registers hold no physical address.
    pub fn base_addr(self, upper: Option<Bar>) -> (r: Option<PhysAddr>)
        requires
            self.type_bits() == 0 || self.type_bits() == 2,
        ensures
            match r {
                Some(a) => if self.type_bits() == 0 {
                    a@ == address_32(self@)
                } else {
                    upper.is_some() && a@ == address_64(self@, upper.unwrap()@)
                },
                None => self.type_bits() == 2 && (upper.is_none() || address_64(
                    self@,
                    upper.unwrap()@,
                ) >= ADDR_LIMIT),
            },
    {
        match upper {
            Some(upper) => match self.ty() {
                BarType::Bar64Bit => self.base_addr_64(upper),
                BarType::Bar32Bit => self.base_addr_32(),
            },
            None => self.base_addr_32(),
        }
    }

    /// The address that a 32-bit register holds.
    fn base_addr_32(self) -> (r: Option<PhysAddr>)
        requires
            self.type_bits() == 0 || self.type_bits() == 2,
        ensures
            match r {
                Some(a) => self.type_bits() == 0 && a@ == address_32(self@),
                None => self.type_bits() == 2,
            },
    {
        match self.ty() {
            BarType::Bar32Bit => {
                let addr: u64 = (self.0 & !0xf) as u64;
                PhysAddr::new(addr)
            },
            BarType::Bar64Bit => None,
        }
    }

    /// The address that a 64-bit register and the register behind it hold.
    fn base_addr_64(self, upper: Bar) -> (r: Option<PhysAddr>)
        requires
            self.type_bits() == 0 || self.type_bits() == 2,
        ensures
            match r {
                Some(a) => self.type_bits() == 2 && a@ == address_64(self@, upper@),
                None => self.type_bits() == 0 || address_64(self@, upper@) >= ADDR_LIMIT,
            },
    {
        match self.ty() {
            BarType::Bar32Bit => None,
            BarType::Bar64Bit => {
                let addr: u64 = ((self.0 & !0xf) as u64) | ((upper.0 as u64) << 32);
                PhysAddr::new(addr)
            },
        }
    }
}

/// The base address registers of a function.
#[derive(Clone, Copy, Debug, PartialEq, Eq)]
pub struct TypeSpec {
    bars: [u32; 6],
}

impl TypeSpec {
    /// The values of the registers.
    pub closed spec fn bars(self) -> Seq<u32> {
        self.bars@
    }

    /// The registers with the values `bars`.
    pub fn new(bars: [u32; 6]) -> (r: TypeSpec)
        ensures
            r.bars() == bars@,
    {
        TypeSpec { bars }
    }

    /// The register `index`.
    pub fn bar(&self, index: Index) -> (r: Bar)
        requires
            index@ < NUM_OF_BARS,
        ensures
            r@ == self.bars()[index@ as int],
    {
        Bar::new(self.bars[index.as_usize()])
    }

    /// The address that the register `index` holds, together with the
    /// register behind it where it is a 64-bit one; the last register has
    /// none behind it. The two low bits of the register have to name a
    /// width. The result is `None` where the registers hold no address.
    pub fn base_addr(&self, index: Index) -> (r: Option<PhysAddr>)
        requires
            index@ < NUM_OF_BARS,
            self.bars()[index@ as int] & 0b11 == 0 || self.bars()[index@ as int] & 0b11 == 2,
        ensures
            ({
                let bar = self.bars()[index@ as int];
                match r {
                    Some(a) => if bar & 0b11 == 0 {
                        a@ == address_32(bar)
                    } else {
                        index@ < 5 && a@ == address_64(bar, self.bars()[index@ + 1])
                    },
                    None => bar & 0b11 == 2 && (index@ == 5 || address_64(
                        bar,
                        self.bars()[index@ + 1],
                    ) >= ADDR_LIMIT),
                }
            }),
    {
        let upper = if index.as_usize() == 5 {
            None
        } else {
            Some(Bar::new(self.bars[index.as_usize() + 1]))
        };

        self.bar(index).base_addr(upper)
    }
}

/// The number of the base address register behind which the table of an
/// MSI-X capability lies.
#[derive(Clone, Copy, Debug, PartialEq, Eq, Structural)]
pub struct Bir(Index);

impl Bir {
    /// The number of the register.
    pub closed spec fn index(self) -> Index {
        self.0
    }

    /// The number in the three low bits of `register`, the second register
    /// of the capability. It has to be the number of a base address register.
    pub fn new(register: u32) -> (r: Bir)
        requires
            register & 0b111 < NUM_OF_BARS,
        ensures
            r.index()@ == register & 0b111,
    {
        Bir(Index::new(register & 0b111))
    }

    /// The number of the register.
    pub fn into_index(self) -> (r: Index)
        ensures
            r == self.index(),
    {
        self.0
    }
}

} // verus!
