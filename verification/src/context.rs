//! The contexts that describe a device and its endpoints to the controller.
//!
//! A context is eight 32-bit words with fields at fixed bits. The setters
//! here write one field and leave every other bit as it was.

use crate::addr::{aligned_to, PhysAddr};
use crate::bits::{
    extract_bit, get_bit, insert_bit, insert_bits, lemma_field_max_values, lemma_truncated_fits,
    set_bit, set_bits,
};
use crate::ring::trb::{high_word, lemma_pointer_halves, low_word};
use crate::ring::CycleBit;
use vstd::prelude::*;

verus! {

/// The kinds of endpoint, as an endpoint context names them.
#[derive(Clone, Copy, Debug, PartialEq, Eq, Structural)]
pub enum EndpointType {
    NotValid,
    IsochronousOut,
    BulkOut,
    InterruptOut,
    Control,
    IsochronousIn,
    BulkIn,
    InterruptIn,
}

impl EndpointType {
    /// The number of the kind.
    pub open spec fn spec_as_u8(self) -> u8 {
        match self {
            EndpointType::NotValid => 0,
            EndpointType::IsochronousOut => 1,
            EndpointType::BulkOut => 2,
            EndpointType::InterruptOut => 3,
            EndpointType::Control => 4,
            EndpointType::IsochronousIn => 5,
            EndpointType::BulkIn => 6,
            EndpointType::InterruptIn => 7,
        }
    }

    /// The number of the kind.
    #[verifier::when_used_as_spec(spec_as_u8)]
    pub fn as_u8(self) -> (r: u8)
        ensures
            r == self.spec_as_u8(),
            r < 8,
    {
        match self {
            EndpointType::NotValid => 0,
            EndpointType::IsochronousOut => 1,
            EndpointType::BulkOut => 2,
            EndpointType::InterruptOut => 3,
            EndpointType::Control => 4,
            EndpointType::IsochronousIn => 5,
            EndpointType::BulkIn => 6,
            EndpointType::InterruptIn => 7,
        }
    }

    /// The kind with the number `n`, if there is one.
    pub fn from_u8(n: u8) -> (r: Option<EndpointType>)
        ensures
            n < 8 ==> r.is_some() && r.unwrap().spec_as_u8() == n,
            n >= 8 ==> r.is_none(),
    {
        match n {
            0 => Some(EndpointType::NotValid),
            1 => Some(EndpointType::IsochronousOut),
            2 => Some(EndpointType::BulkOut),
            3 => Some(EndpointType::InterruptOut),
            4 => Some(EndpointType::Control),
            5 => Some(EndpointType::IsochronousIn),
            6 => Some(EndpointType::BulkIn),
            7 => Some(EndpointType::InterruptIn),
            _ => None,
        }
    }
}

/// An endpoint context.
#[derive(Clone, Copy, Debug, PartialEq, Eq)]
pub struct Endpoint([u32; 8]);

impl View for Endpoint {
    type V = Seq<u32>;

    closed spec fn view(&self) -> Seq<u32> {
        self.0@
    }
}

impl Endpoint {
    /// A context has eight words.
    pub proof fn lemma_len(self)
        ensures
            self@.len() == 8,
    {
    }

    /// Writes the kind of the endpoint: bits 3 to 5 of word 1.
    pub fn set_endpoint_type(&mut self, ty: EndpointType)
        ensures
            final(self)@ == old(self)@.update(1, insert_bits(old(self)@[1], 3, 5, ty.spec_as_u8() as u32)),
    {
        proof {
            lemma_field_max_values();
        }
        self.0[1] = set_bits(self.0[1], 3, 5, ty.as_u8() as u32);
    }

    /// Writes the greatest burst size: bits 8 to 15 of word 1.
    pub fn set_max_burst_size(&mut self, sz: u8)
        ensures
            final(self)@ == old(self)@.update(1, insert_bits(old(self)@[1], 8, 15, sz as u32)),
    {
        proof {
            lemma_field_max_values();
        }
        self.0[1] = set_bits(self.0[1], 8, 15, sz as u32);
    }

    /// Writes the interval: bits 16 to 23 of word 0.
    pub fn set_interval(&mut self, interval: u8)
        ensures
            final(self)@ == old(self)@.update(0, insert_bits(old(self)@[0], 16, 23, interval as u32)),
    {
        proof {
            lemma_field_max_values();
        }
        self.0[0] = set_bits(self.0[0], 16, 23, interval as u32);
    }

    /// Writes the number of primary streams: bits 10 to 14 of word 0. The
    /// field has five bits, so `s` has to be below 32.
    pub fn set_max_primary_streams(&mut self, s: u8)
        requires
            s < 32,
        ensures
            final(self)@ == old(self)@.update(0, insert_bits(old(self)@[0], 10, 14, s as u32)),
    {
        proof {
            lemma_field_max_values();
        }
        self.0[0] = set_bits(self.0[0], 10, 14, s as u32);
    }

    /// Writes the multiplier: bits 8 and 9 of word 0. The field has two
    /// bits, so `m` has to be below 4.
    pub fn set_mult(&mut self, m: u8)
        requires
            m < 4,
        ensures
            final(self)@ == old(self)@.update(0, insert_bits(old(self)@[0], 8, 9, m as u32)),
    {
        proof {
            lemma_field_max_values();
        }
        self.0[0] = set_bits(self.0[0], 8, 9, m as u32);
    }

    /// Writes the address at which the controller starts to read the
    /// transfer ring: word 2 gets the low half and keeps its bit 0, the
    /// cycle state; word 3 gets the high half. `a` must be a multiple of 16.
    pub fn set_dequeue_ptr(&mut self, a: PhysAddr)
        requires
            aligned_to(a@, 16),
        ensures
            final(self)@ == old(self)@.update(
                2,
                low_word(a@) | (if extract_bit(old(self)@[2], 0) {
                    1u32
                } else {
                    0u32
                }),
            ).update(3, high_word(a@)),
    {
        proof {
            lemma_pointer_halves(a@);
        }
        let l: u64 = a.as_u64() & 0xffff_ffff;
        let u: u64 = a.as_u64() >> 32;
        let state: u32 = if get_bit(self.0[2], 0) {
            1
        } else {
            0
        };
        self.0[2] = (l as u32) | state;
        self.0[3] = u as u32;
    }

    /// Writes the greatest packet size: bits 16 to 31 of word 1.
    pub fn set_max_packet_size(&mut self, sz: u16)
        ensures
            final(self)@ == old(self)@.update(1, insert_bits(old(self)@[1], 16, 31, sz as u32)),
    {
        proof {
            lemma_field_max_values();
        }
        self.0[1] = set_bits(self.0[1], 16, 31, sz as u32);
    }

    /// Writes the cycle state with which the controller starts to read the
    /// transfer ring: bit 0 of word 2.
    pub fn set_dequeue_cycle_state(&mut self, c: CycleBit)
        ensures
            final(self)@ == old(self)@.update(2, insert_bit(old(self)@[2], 0, c@)),
    {
        self.0[2] = set_bit(self.0[2], 0, c.as_bool());
    }

    /// Writes the error count: bits 1 and 2 of word 1. The field has two
    /// bits, so `c` has to be below 4.
    pub fn set_error_count(&mut self, c: u8)
        requires
            c < 4,
        ensures
            final(self)@ == old(self)@.update(1, insert_bits(old(self)@[1], 1, 2, c as u32)),
    {
        proof {
            lemma_field_max_values();
        }
        self.0[1] = set_bits(self.0[1], 1, 2, c as u32);
    }

    /// Whether every word of the context is zero.
    pub open spec fn is_null(self) -> bool {
        self@ == Seq::new(8, |i: int| 0u32)
    }

    /// The context with every word zero.
    pub fn null() -> (r: Endpoint)
        ensures
            r.is_null(),
    {
        let r = Endpoint([0; 8]);
        assert(r@ =~= Seq::new(8, |i: int| 0u32));
        r
    }
}

/// The two contexts of one endpoint number: out and in.
#[derive(Clone, Copy, Debug, PartialEq, Eq)]
pub struct EndpointOutIn {
    pub out: Endpoint,
    pub input: Endpoint,
}

impl EndpointOutIn {
    /// Whether every word of both contexts is zero.
    pub open spec fn is_null(self) -> bool {
        self.out.is_null() && self.input.is_null()
    }

    /// Both contexts zero.
    pub fn null() -> (r: EndpointOutIn)
        ensures
            r.is_null(),
    {
        EndpointOutIn { out: Endpoint::null(), input: Endpoint::null() }
    }
}

/// A slot context.
#[derive(Clone, Copy, Debug, PartialEq, Eq)]
pub struct Slot([u32; 8]);

impl View for Slot {
    type V = Seq<u32>;

    closed spec fn view(&self) -> Seq<u32> {
        self.0@
    }
}

impl Slot {
    /// Whether every word of the context is zero.
    pub open spec fn is_null(self) -> bool {
        self@ == Seq::new(8, |i: int| 0u32)
    }

    /// The context with every word zero.
    pub fn null() -> (r: Slot)
        ensures
            r.is_null(),
    {
        let r = Slot([0; 8]);
        assert(r@ =~= Seq::new(8, |i: int| 0u32));
        r
    }

    /// Writes the number of context entries: bits 27 to 31 of word 0 get the
    /// low five bits of `n`.
    pub fn set_context_entries(&mut self, n: u8)
        ensures
            final(self)@ == old(self)@.update(
                0,
                insert_bits(old(self)@[0], 27, 31, (n as u32) & 0x1f),
            ),
    {
        proof {
            lemma_field_max_values();
            lemma_truncated_fits(n as u32, 27, 31);
        }
        self.0[0] = set_bits(self.0[0], 27, 31, (n as u32) & 0x1f);
    }

    /// Writes the number of the root hub port: bits 16 to 23 of word 1.
    pub fn set_root_hub_port_number(&mut self, n: u8)
        ensures
            final(self)@ == old(self)@.update(1, insert_bits(old(self)@[1], 16, 23, n as u32)),
    {
        proof {
            lemma_field_max_values();
        }
        self.0[1] = set_bits(self.0[1], 16, 23, n as u32);
    }
}

/// The number of endpoint numbers besides the default one.
pub const NUM_OF_ENDPOINTS: usize = 15;

/// A device context: the slot, the default endpoint and the other endpoints.
#[derive(Clone, Copy, Debug, PartialEq, Eq)]
pub struct Device {
    pub slot: Slot,
    pub ep_0: Endpoint,
    pub ep_inout: [EndpointOutIn; 15],
}

impl Device {
    /// Whether every word of the context is zero.
    pub open spec fn is_null(self) -> bool {
        &&& self.slot.is_null()
        &&& self.ep_0.is_null()
        &&& forall|i: int| 0 <= i < NUM_OF_ENDPOINTS ==> (#[trigger] self.ep_inout[i]).is_null()
    }

    /// The context with every word zero.
    pub fn null() -> (r: Device)
        ensures
            r.is_null(),
    {
        Device { slot: Slot::null(), ep_0: Endpoint::null(), ep_inout: [EndpointOutIn::null(); 15] }
    }
}

/// The part of an input context that says which contexts the controller has
/// to look at.
pub trait InputControl {
    /// The eight words, each as a 64-bit number.
    spec fn words(&self) -> Seq<u64>;

    /// The number of flags in a word.
    spec fn flags_per_word(&self) -> nat;

    /// A context has eight words.
    proof fn lemma_len(&self)
        ensures
            self.words().len() == 8,
    ;

    /// Sets the add flag `index`: bit `index` of word 1.
    fn set_aflag(&mut self, index: usize)
        requires
            index < old(self).flags_per_word(),
        ensures
            final(self).words() == old(self).words().update(
                1,
                old(self).words()[1] | (1u64 << (index as u64)),
            ),
            final(self).flags_per_word() == old(self).flags_per_word(),
    ;

    /// Clears the add flag `index`: bit `index` of word 1.
    fn clear_aflag(&mut self, index: usize)
        requires
            index < old(self).flags_per_word(),
        ensures
            final(self).words() == old(self).words().update(
                1,
                old(self).words()[1] & !(1u64 << (index as u64)),
            ),
            final(self).flags_per_word() == old(self).flags_per_word(),
    ;
}

/// The input control context of a controller with 32-byte contexts.
#[derive(Clone, Copy, Debug, PartialEq, Eq)]
pub struct InputControl32Bit([u32; 8]);

impl InputControl32Bit {
    /// The context with every word zero.
    pub fn null() -> (r: InputControl32Bit)
        ensures
            r.words() == Seq::new(8, |i: int| 0u64),
    {
        let r = InputControl32Bit([0; 8]);
        assert(r.words() =~= Seq::new(8, |i: int| 0u64));
        r
    }
}

impl InputControl for InputControl32Bit {
    closed spec fn words(&self) -> Seq<u64> {
        Seq::new(8, |i: int| self.0[i] as u64)
    }

    open spec fn flags_per_word(&self) -> nat {
        32
    }

    proof fn lemma_len(&self) {
    }

    fn set_aflag(&mut self, index: usize) {
        let word: u32 = self.0[1];
        let shift: u32 = index as u32;
        assert(shift < 32 ==> ((word | (1u32 << shift)) as u64) == ((word as u64) | (1u64 << (
        shift as u64)))) by (bit_vector);
        self.0[1] = word | (1u32 << shift);
        assert(self.words() =~= old(self).words().update(
            1,
            old(self).words()[1] | (1u64 << (index as u64)),
        ));
    }

    fn clear_aflag(&mut self, index: usize) {
        let word: u32 = self.0[1];
        let shift: u32 = index as u32;
        assert(shift < 32 ==> ((word & !(1u32 << shift)) as u64) == ((word as u64) & !(1u64 << (
        shift as u64)))) by (bit_vector);
        self.0[1] = word & !(1u32 << shift);
        assert(self.words() =~= old(self).words().update(
            1,
            old(self).words()[1] & !(1u64 << (index as u64)),
        ));
    }
}

/// The input control context of a controller with 64-byte contexts.
#[derive(Clone, Copy, Debug, PartialEq, Eq)]
pub struct InputControl64Bit([u64; 8]);

impl InputControl64Bit {
    /// The context with every word zero.
    pub fn null() -> (r: InputControl64Bit)
        ensures
            r.words() == Seq::new(8, |i: int| 0u64),
    {
        let r = InputControl64Bit([0; 8]);
        assert(r.words() =~= Seq::new(8, |i: int| 0u64));
        r
    }
}

impl InputControl for InputControl64Bit {
    closed spec fn words(&self) -> Seq<u64> {
        self.0@
    }

    open spec fn flags_per_word(&self) -> nat {
        64
    }

    proof fn lemma_len(&self) {
    }

    fn set_aflag(&mut self, index: usize) {
        let shift: u64 = index as u64;
        self.0[1] = self.0[1] | (1u64 << shift);
    }

    fn clear_aflag(&mut self, index: usize) {
        let shift: u64 = index as u64;
        self.0[1] = self.0[1] & !(1u64 << shift);
    }
}

/// An input context with 32-byte contexts.
#[derive(Clone, Copy, Debug, PartialEq, Eq)]
pub struct InputWithControl32Bit {
    pub control: InputControl32Bit,
    pub device: Device,
}

impl InputWithControl32Bit {
    /// The context with every word zero.
    pub fn null() -> (r: InputWithControl32Bit)
        ensures
            r.control.words() == Seq::new(8, |i: int| 0u64),
            r.device.is_null(),
    {
        InputWithControl32Bit { control: InputControl32Bit::null(), device: Device::null() }
    }
}

/// An input context with 64-byte contexts.
#[derive(Clone, Copy, Debug, PartialEq, Eq)]
pub struct InputWithControl64Bit {
    pub control: InputControl64Bit,
    pub device: Device,
}

impl InputWithControl64Bit {
    /// The context with every word zero.
    pub fn null() -> (r: InputWithControl64Bit)
        ensures
            r.control.words() == Seq::new(8, |i: int| 0u64),
            r.device.is_null(),
    {
        InputWithControl64Bit { control: InputControl64Bit::null(), device: Device::null() }
    }
}

/// The control part of an input context, to be written.
pub enum ControlMut<'a> {
    Bit32(&'a mut InputControl32Bit),
    Bit64(&'a mut InputControl64Bit),
}

/// An input context, in the size that the controller uses.
#[derive(Clone, Copy, Debug, PartialEq, Eq)]
pub enum Input {
    Bit32(InputWithControl32Bit),
    Bit64(InputWithControl64Bit),
}

impl Input {
    /// The device context in the input context.
    pub open spec fn device(self) -> Device {
        match self {
            Input::Bit32(b32) => b32.device,
            Input::Bit64(b64) => b64.device,
        }
    }

    /// The words of the control part, each as a 64-bit number.
    pub open spec fn control_words(self) -> Seq<u64> {
        match self {
            Input::Bit32(b32) => b32.control.words(),
            Input::Bit64(b64) => b64.control.words(),
        }
    }

    /// The control part has eight words.
    pub proof fn lemma_len(self)
        ensures
            self.control_words().len() == 8,
    {
        match self {
            Input::Bit32(b32) => b32.control.lemma_len(),
            Input::Bit64(b64) => b64.control.lemma_len(),
        }
    }

    /// The context with every word zero: with 64-byte contexts where `csz`
    /// is set, with 32-byte contexts where it is not.
    pub fn null(csz: bool) -> (r: Input)
        ensures
            (r is Bit64) == csz,
            r.control_words() == Seq::new(8, |i: int| 0u64),
            r.device().is_null(),
    {
        if csz {
            Input::Bit64(InputWithControl64Bit::null())
        } else {
            Input::Bit32(InputWithControl32Bit::null())
        }
    }

    /// The control part, to be written; the device context stays.
    pub fn control_mut(&mut self) -> (r: ControlMut<'_>)
        ensures
            match r {
                ControlMut::Bit32(c) => (*old(self)) is Bit32 && *c == (*old(self))->Bit32_0.control
                    && *final(self) == Input::Bit32(
                    InputWithControl32Bit {
                        control: *final(c),
                        device: (*old(self))->Bit32_0.device,
                    },
                ),
                ControlMut::Bit64(c) => (*old(self)) is Bit64 && *c == (*old(self))->Bit64_0.control
                    && *final(self) == Input::Bit64(
                    InputWithControl64Bit {
                        control: *final(c),
                        device: (*old(self))->Bit64_0.device,
                    },
                ),
            },
    {
        match self {
            Input::Bit32(b32) => ControlMut::Bit32(&mut b32.control),
            Input::Bit64(b64) => ControlMut::Bit64(&mut b64.control),
        }
    }

    /// The device context, to be written; the control part stays.
    pub fn device_mut(&mut self) -> (r: &mut Device)
        ensures
            *r == old(self).device(),
            final(self).device() == *final(r),
            final(self).control_words() == old(self).control_words(),
            ((*final(self)) is Bit64) == ((*old(self)) is Bit64),
    {
        match self {
            Input::Bit32(b32) => &mut b32.device,
            Input::Bit64(b64) => &mut b64.device,
        }
    }

    /// Sets the add flag `index` of the control part. The flag has to exist:
    /// `index` is below 32 with 32-byte contexts, below 64 with 64-byte ones.
    pub fn set_aflag(&mut self, index: usize)
        requires
            index < (if (*old(self)) is Bit64 {
                64int
            } else {
                32int
            }),
        ensures
            final(self).control_words() == old(self).control_words().update(
                1,
                old(self).control_words()[1] | (1u64 << (index as u64)),
            ),
            final(self).device() == old(self).device(),
            ((*final(self)) is Bit64) == ((*old(self)) is Bit64),
    {
        match self.control_mut() {
            ControlMut::Bit32(c) => c.set_aflag(index),
            ControlMut::Bit64(c) => c.set_aflag(index),
        }
    }

    /// Clears the add flag `index` of the control part. The flag has to
    /// exist, as for [`Input::set_aflag`].
    pub fn clear_aflag(&mut self, index: usize)
        requires
            index < (if (*old(self)) is Bit64 {
                64int
            } else {
                32int
            }),
        ensures
            final(self).control_words() == old(self).control_words().update(
                1,
                old(self).control_words()[1] & !(1u64 << (index as u64)),
            ),
            final(self).device() == old(self).device(),
            ((*final(self)) is Bit64) == ((*old(self)) is Bit64),
    {
        match self.control_mut() {
            ControlMut::Bit32(c) => c.clear_aflag(index),
            ControlMut::Bit64(c) => c.clear_aflag(index),
        }
    }
}

/// The contexts of one device: the input context that software fills in and
/// the device context that the controller keeps.
#[derive(Clone, Copy, Debug, PartialEq, Eq)]
pub struct Context {
    pub input: Input,
    pub output_device: Device,
}

impl Context {
    /// Contexts with every word zero, in the size that `csz` says.
    pub fn new(csz: bool) -> (r: Context)
        ensures
            (r.input is Bit64) == csz,
            r.input.control_words() == Seq::new(8, |i: int| 0u64),
            r.input.device().is_null(),
            r.output_device.is_null(),
    {
        Context { input: Input::null(csz), output_device: Device::null() }
    }
}

} // verus!
