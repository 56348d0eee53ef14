//! The registers of the message-signalled interrupt capabilities of a PCI
//! function.

use bitfield::{Bit, BitRange};
use vstd::prelude::*;

verus! {

/// The 16-bit word that has ones in the bits `lsb..=msb` and zeros
/// elsewhere.
pub open spec fn range_mask(msb: u16, lsb: u16) -> u16
    recommends
        lsb <= msb < 16,
{
    ((0xffffu16 << ((15 - msb) as u16)) >> ((15 - msb + lsb) as u16)) << lsb
}

/// `word` with the bits `lsb..=msb` replaced by the low bits of `value`.
pub open spec fn with_range(word: u16, msb: u16, lsb: u16, value: u16) -> u16
    recommends
        lsb <= msb < 16,
{
    (word & !range_mask(msb, lsb)) | ((value << lsb) & range_mask(msb, lsb))
}

/// `word` with bit `bit` set to `value`.
pub open spec fn with_flag(word: u16, bit: u16, value: bool) -> u16
    recommends
        bit < 16,
{
    if value {
        word | (1u16 << bit)
    } else {
        word & !(1u16 << bit)
    }
}

/// Calls `BitRange::<u16>::set_bit_range` of `bitfield` on a `u16`. The
/// crate clears the bits `lsb..=msb` and puts the low bits of `value` there;
/// its shifts overflow when the range leaves the word, which is excluded
/// here.
#[verifier::external_body]
fn set_bit_range(word: u16, msb: usize, lsb: usize, value: u16) -> (r: u16)
    requires
        lsb <= msb < 16,
    ensures
        r == with_range(word, msb as u16, lsb as u16, value),
{
    let mut w = word;
    w.set_bit_range(msb, lsb, value);
    w
}

/// Calls `Bit::set_bit` of `bitfield` on a `u16`. The crate sets or clears
/// the one bit; its shifts overflow when `bit` is not below 16, which is
/// excluded here.
#[verifier::external_body]
fn set_flag(word: u16, bit: usize, value: bool) -> (r: u16)
    requires
        bit < 16,
    ensures
        r == with_flag(word, bit as u16, value),
{
    let mut w = word;
    w.set_bit(bit, value);
    w
}

/// The message control register of an MSI capability.
#[derive(Clone, Copy, Debug, PartialEq, Eq, Structural)]
pub struct MessageControl(u16);

impl View for MessageControl {
    type V = u16;

    closed spec fn view(&self) -> u16 {
        self.0
    }
}

impl MessageControl {
    /// The register with the value `control`.
    pub fn from_u16(control: u16) -> (r: MessageControl)
        ensures
            r@ == control,
    {
        MessageControl(control)
    }

    /// The value of the register.
    pub fn as_u16(self) -> (r: u16)
        ensures
            r == self@,
    {
        self.0
    }

    /// Switches the interrupts on: bit 0.
    pub fn set_interrupt_status(&mut self, status: bool)
        ensures
            final(self)@ == with_flag(old(self)@, 0, status),
    {
        self.0 = set_flag(self.0, 0, status);
    }

    /// Writes the number of vectors in use, as a power of two: bits 4 to 6.
    pub fn set_num_of_enabled_interrupt_vectors(&mut self, n: u16)
        ensures
            final(self)@ == with_range(old(self)@, 6, 4, n),
    {
        self.0 = set_bit_range(self.0, 6, 4, n);
    }

    /// Sets the register up for the host controller: interrupts on, one
    /// vector. Bit 0 is set, bits 4 to 6 are clear, the rest stays.
    pub fn init_for_xhci(&mut self)
        ensures
            final(self)@ == (old(self)@ & !0x70u16) | 1u16,
    {
        let before: u16 = self.0;
        self.set_interrupt_status(true);
        self.set_num_of_enabled_interrupt_vectors(0);
        assert((((before | (1u16 << 0u16)) & !(((0xffffu16 << 9u16) >> 13u16) << 4u16)) | ((0u16
            << 4u16) & (((0xffffu16 << 9u16) >> 13u16) << 4u16))) == ((before & !0x70u16) | 1u16))
            by (bit_vector);
    }
}

impl From<u16> for MessageControl {
    fn from(control: u16) -> (r: MessageControl) {
        MessageControl(control)
    }
}

impl vstd::std_specs::convert::FromSpecImpl<u16> for MessageControl {
    open spec fn obeys_from_spec() -> bool {
        true
    }

    closed spec fn from_spec(control: u16) -> MessageControl {
        MessageControl(control)
    }
}

/// The register that is made from a number holds the number.
pub proof fn lemma_from_u16(control: u16)
    ensures
        <MessageControl as vstd::std_specs::convert::FromSpec<u16>>::from_spec(control)@ == control,
{
}

impl From<MessageControl> for u16 {
    fn from(control: MessageControl) -> (r: u16) {
        control.0
    }
}

impl vstd::std_specs::convert::FromSpecImpl<MessageControl> for u16 {
    open spec fn obeys_from_spec() -> bool {
        true
    }

    open spec fn from_spec(control: MessageControl) -> u16 {
        control@
    }
}

/// The message control register in the first register of the capability: its
/// upper half.
pub fn get_message_control(register: u32) -> (r: MessageControl)
    ensures
        r@ == (register >> 16) as u16,
{
    let upper: u32 = register >> 16;
    assert(upper <= 0xffff) by (bit_vector)
        requires
            upper == register >> 16,
    ;
    MessageControl(upper as u16)
}

/// The first register of the capability with `message_control` as its upper
/// half; the lower half stays.
pub fn set_message_control(register: u32, message_control: MessageControl) -> (r: u32)
    ensures
        r == (register & 0xffff) | ((message_control@ as u32) << 16),
{
    let mut register = register;
    register = register & 0xffff;
    register = register | ((message_control.0 as u32) << 16);
    register
}

/// The number of entries of the table of an MSI-X capability, which its
/// first register holds less one in bits 16 to 26.
pub fn table_size(register: u32) -> (r: usize)
    ensures
        r == ((register >> 16) & 0x7ff) + 1,
{
    let n: u32 = (register >> 16) & 0x7ff;
    assert(n <= 0x7ff) by (bit_vector)
        requires
            n == (register >> 16) & 0x7ff,
    ;
    (n + 1) as usize
}

/// The offset of a table of an MSI-X capability behind its base address:
/// the register without its three low bits.
pub fn table_offset(register: u32) -> (r: u32)
    ensures
        r == register & !0b111u32,
{
    register & !0b111
}

/// The number of 64-bit words of the table of pending bits for `entries`
/// interrupts.
pub fn pending_bit_table_len(entries: usize) -> (r: usize)
    requires
        entries + 63 <= usize::MAX,
    ensures
        r == (entries + 63) / 64,
{
    (entries + 63) / 64
}

/// The first register of an MSI-X capability with the interrupts switched
/// on.
pub fn enable_interrupt(register: u32) -> (r: u32)
    ensures
        r == register | 0xf000_0000,
{
    register | 0xf000_0000
}

} // verus!
