//! The 16-byte records that travel on the rings.
//!
//! A record is four 32-bit words. Bit 0 of the last word is the cycle bit,
//! bits 10 to 15 of it hold the tag that says which kind of record it is.
//! [`Entry`] is what a record means; [`encode`] and [`decode`] relate the two.

use crate::addr::{aligned_to, PhysAddr};
use crate::bits::{
    extract_bit, extract_bits, get_bit, get_bits, insert_bit, insert_bits, lemma_extract_bound,
    lemma_field_max_values, set_bit, set_bits,
};
use crate::ring::CycleBit;
use vstd::prelude::*;

verus! {

/// Tag of a link record.
pub const ID_LINK: u8 = 6;

/// Tag of a no-op record.
pub const ID_NOOP: u8 = 8;

/// Tag of an enable-slot command.
pub const ID_ENABLE_SLOT: u8 = 9;

/// Tag of an address-device command.
pub const ID_ADDRESS_DEVICE: u8 = 11;

/// Tag of a configure-endpoint command.
pub const ID_CONFIGURE_ENDPOINT: u8 = 12;

/// Tag of a transfer event.
pub const ID_TRANSFER_EVENT: u8 = 32;

/// Tag of a command-completion event.
pub const ID_COMMAND_COMPLETE: u8 = 33;

/// What a record means.
pub enum Entry {
    /// Continue at `ring_base` and turn the expected cycle bit over.
    Link { ring_base: u64, cycle: bool },
    /// Do nothing.
    Noop { cycle: bool },
    /// Give a device slot out.
    EnableSlot { cycle: bool },
    /// Give the device in slot `slot_id` an address.
    AddressDevice { input_context_addr: u64, slot_id: u8, cycle: bool },
    /// Set the endpoints of the device in slot `slot_id` up.
    ConfigureEndpoint { context_addr: u64, slot_id: u8, cycle: bool },
    /// The command at `originating_trb_ptr` ended with `completion_code`.
    CommandCompletion { completion_code: u8, originating_trb_ptr: u64, cycle: bool },
    /// The transfer at `originating_trb_ptr` ended with `completion_code`.
    TransferCompletion { completion_code: u8, originating_trb_ptr: u64, cycle: bool },
}

/// Why a record could not be read.
#[derive(Clone, Copy, Debug, PartialEq, Eq, Structural)]
pub enum Error {
    /// The tag is none of the known ones.
    InvalidId,
}

/// The cycle bit of a record.
pub open spec fn raw_cycle(raw: Seq<u32>) -> bool {
    extract_bit(raw[3], 0)
}

/// The tag of a record.
pub open spec fn raw_type(raw: Seq<u32>) -> u32 {
    extract_bits(raw[3], 10, 15)
}

/// The slot number that a record carries in the top byte of its last word.
pub open spec fn raw_slot_id(raw: Seq<u32>) -> u32 {
    extract_bits(raw[3], 24, 31)
}

/// The completion code that an event carries in the top byte of its third
/// word.
pub open spec fn raw_completion_code(raw: Seq<u32>) -> u32 {
    extract_bits(raw[2], 24, 31)
}

/// The 64-bit pointer that the first two words of a record make up.
pub open spec fn raw_pointer(raw: Seq<u32>) -> u64 {
    (raw[0] + raw[1] * 0x1_0000_0000) as u64
}

/// The low half of a pointer.
pub open spec fn low_word(p: u64) -> u32 {
    (p % 0x1_0000_0000) as u32
}

/// The high half of a pointer.
pub open spec fn high_word(p: u64) -> u32 {
    (p / 0x1_0000_0000) as u32
}

/// The last word of a record with the tag `ty`, the slot number `slot_id`,
/// the cycle bit `cycle` and, for a link, the toggle flag.
pub open spec fn control_word(ty: u8, slot_id: u8, toggle: bool, cycle: bool) -> u32 {
    ((slot_id as u32) << 24) | ((ty as u32) << 10) | (if toggle {
        2u32
    } else {
        0u32
    }) | (if cycle {
        1u32
    } else {
        0u32
    })
}

/// The record that stands for `e`. Bits that no field uses are zero; a link
/// has its toggle flag set.
pub open spec fn encode(e: Entry) -> Seq<u32> {
    match e {
        Entry::Link { ring_base, cycle } => seq![
            low_word(ring_base),
            high_word(ring_base),
            0u32,
            control_word(ID_LINK, 0, true, cycle),
        ],
        Entry::Noop { cycle } => seq![0u32, 0u32, 0u32, control_word(ID_NOOP, 0, false, cycle)],
        Entry::EnableSlot { cycle } => seq![
            0u32,
            0u32,
            0u32,
            control_word(ID_ENABLE_SLOT, 0, false, cycle),
        ],
        Entry::AddressDevice { input_context_addr, slot_id, cycle } => seq![
            low_word(input_context_addr),
            high_word(input_context_addr),
            0u32,
            control_word(ID_ADDRESS_DEVICE, slot_id, false, cycle),
        ],
        Entry::ConfigureEndpoint { context_addr, slot_id, cycle } => seq![
            low_word(context_addr),
            high_word(context_addr),
            0u32,
            control_word(ID_CONFIGURE_ENDPOINT, slot_id, false, cycle),
        ],
        Entry::CommandCompletion { completion_code, originating_trb_ptr, cycle } => seq![
            low_word(originating_trb_ptr),
            high_word(originating_trb_ptr),
            (completion_code as u32) << 24,
            control_word(ID_COMMAND_COMPLETE, 0, false, cycle),
        ],
        Entry::TransferCompletion { completion_code, originating_trb_ptr, cycle } => seq![
            low_word(originating_trb_ptr),
            high_word(originating_trb_ptr),
            (completion_code as u32) << 24,
            control_word(ID_TRANSFER_EVENT, 0, false, cycle),
        ],
    }
}

/// Whether `ty` is the tag of a kind of record that this crate knows.
pub open spec fn known_type(ty: u32) -> bool {
    ty == ID_LINK || ty == ID_NOOP || ty == ID_ENABLE_SLOT || ty == ID_ADDRESS_DEVICE || ty
        == ID_CONFIGURE_ENDPOINT || ty == ID_TRANSFER_EVENT || ty == ID_COMMAND_COMPLETE
}

/// What the record `raw` means, or [`Error::InvalidId`] when its tag is none
/// of the known ones.
pub open spec fn decode(raw: Seq<u32>) -> Result<Entry, Error> {
    let ty = raw_type(raw);
    let cycle = raw_cycle(raw);
    let pointer = raw_pointer(raw);
    let slot_id = raw_slot_id(raw) as u8;
    let completion_code = raw_completion_code(raw) as u8;
    if ty == ID_LINK {
        Ok(Entry::Link { ring_base: pointer, cycle })
    } else if ty == ID_NOOP {
        Ok(Entry::Noop { cycle })
    } else if ty == ID_ENABLE_SLOT {
        Ok(Entry::EnableSlot { cycle })
    } else if ty == ID_ADDRESS_DEVICE {
        Ok(Entry::AddressDevice { input_context_addr: pointer, slot_id, cycle })
    } else if ty == ID_CONFIGURE_ENDPOINT {
        Ok(Entry::ConfigureEndpoint { context_addr: pointer, slot_id, cycle })
    } else if ty == ID_COMMAND_COMPLETE {
        Ok(Entry::CommandCompletion { completion_code, originating_trb_ptr: pointer, cycle })
    } else if ty == ID_TRANSFER_EVENT {
        Ok(Entry::TransferCompletion { completion_code, originating_trb_ptr: pointer, cycle })
    } else {
        Err(Error::InvalidId)
    }
}

/// A record whose tag is none of the known ones is refused, whatever else it
/// holds: it never reads as a record of some kind.
pub proof fn lemma_decode_refuses_unknown_tags(raw: Seq<u32>)
    ensures
        known_type(raw_type(raw)) <==> decode(raw) is Ok,
        !known_type(raw_type(raw)) ==> decode(raw) == Err::<Entry, Error>(Error::InvalidId),
{
}

/// The fields of a control word read back as they were put in.
pub proof fn lemma_control_word_fields(ty: u8, slot_id: u8, toggle: bool, cycle: bool)
    requires
        ty < 64,
    ensures
        extract_bits(control_word(ty, slot_id, toggle, cycle), 10, 15) == ty,
        extract_bits(control_word(ty, slot_id, toggle, cycle), 24, 31) == slot_id,
        extract_bit(control_word(ty, slot_id, toggle, cycle), 1) == toggle,
        extract_bit(control_word(ty, slot_id, toggle, cycle), 0) == cycle,
{
    let t: u32 = ty as u32;
    let s: u32 = slot_id as u32;
    let tg: u32 = if toggle {
        2
    } else {
        0
    };
    let c: u32 = if cycle {
        1
    } else {
        0
    };
    let w: u32 = (s << 24) | (t << 10) | tg | c;
    assert(w == control_word(ty, slot_id, toggle, cycle));
    assert(t < 64 && s < 256 && (tg == 0 || tg == 2) && (c == 0 || c == 1) && w == ((s << 24) | (t
        << 10) | tg | c) ==> ((w & ((0xffff_ffffu32 >> 26u32) << 10u32)) >> 10u32) == t && ((w & ((
    0xffff_ffffu32 >> 24u32) << 24u32)) >> 24u32) == s && ((w & (1u32 << 1u32) != 0) == (tg == 2))
        && ((w & (1u32 << 0u32) != 0) == (c == 1))) by (bit_vector);
}

/// The two halves of a pointer make the pointer up again.
pub proof fn lemma_pointer_halves(p: u64)
    ensures
        low_word(p) + high_word(p) * 0x1_0000_0000 == p,
        low_word(p) == p & 0xffff_ffff,
        high_word(p) == p >> 32,
{
    assert(p & 0xffff_ffff == p % 0x1_0000_0000 && p >> 32 == p / 0x1_0000_0000) by (bit_vector);
}

/// A completion code reads back from the word it was put in.
pub proof fn lemma_completion_code_field(code: u8)
    ensures
        extract_bits((code as u32) << 24, 24, 31) == code,
{
    let c: u32 = code as u32;
    assert(c < 256 ==> (((c << 24u32) & ((0xffff_ffffu32 >> 24u32) << 24u32)) >> 24u32) == c)
        by (bit_vector);
}

/// Decoding the record of an entry gives the entry back, whatever its
/// fields hold.
pub proof fn lemma_decode_encode(e: Entry)
    ensures
        decode(encode(e)) == Ok::<Entry, Error>(e),
{
    let raw = encode(e);
    match e {
        Entry::Link { ring_base, cycle } => {
            lemma_control_word_fields(ID_LINK, 0, true, cycle);
            lemma_pointer_halves(ring_base);
        },
        Entry::Noop { cycle } => {
            lemma_control_word_fields(ID_NOOP, 0, false, cycle);
        },
        Entry::EnableSlot { cycle } => {
            lemma_control_word_fields(ID_ENABLE_SLOT, 0, false, cycle);
        },
        Entry::AddressDevice { input_context_addr, slot_id, cycle } => {
            lemma_control_word_fields(ID_ADDRESS_DEVICE, slot_id, false, cycle);
            lemma_pointer_halves(input_context_addr);
        },
        Entry::ConfigureEndpoint { context_addr, slot_id, cycle } => {
            lemma_control_word_fields(ID_CONFIGURE_ENDPOINT, slot_id, false, cycle);
            lemma_pointer_halves(context_addr);
        },
        Entry::CommandCompletion { completion_code, originating_trb_ptr, cycle } => {
            lemma_control_word_fields(ID_COMMAND_COMPLETE, 0, false, cycle);
            lemma_pointer_halves(originating_trb_ptr);
            lemma_completion_code_field(completion_code);
        },
        Entry::TransferCompletion { completion_code, originating_trb_ptr, cycle } => {
            lemma_control_word_fields(ID_TRANSFER_EVENT, 0, false, cycle);
            lemma_pointer_halves(originating_trb_ptr);
            lemma_completion_code_field(completion_code);
        },
    }
}


/// Writing one field of a control word leaves the other fields as they
/// were.
pub proof fn lemma_control_word_update(
    ty: u8,
    slot_id: u8,
    toggle: bool,
    cycle: bool,
    new_ty: u8,
    new_slot_id: u8,
    new_flag: bool,
)
    requires
        ty < 64,
        new_ty < 64,
    ensures
        control_word(0, 0, false, false) == 0,
        insert_bits(control_word(ty, slot_id, toggle, cycle), 10, 15, new_ty as u32)
            == control_word(new_ty, slot_id, toggle, cycle),
        insert_bits(control_word(ty, slot_id, toggle, cycle), 24, 31, new_slot_id as u32)
            == control_word(ty, new_slot_id, toggle, cycle),
        insert_bit(control_word(ty, slot_id, toggle, cycle), 1, new_flag) == control_word(
            ty,
            slot_id,
            new_flag,
            cycle,
        ),
        insert_bit(control_word(ty, slot_id, toggle, cycle), 0, new_flag) == control_word(
            ty,
            slot_id,
            toggle,
            new_flag,
        ),
{
    let t: u32 = ty as u32;
    let s: u32 = slot_id as u32;
    let tg: u32 = if toggle {
        2
    } else {
        0
    };
    let c: u32 = if cycle {
        1
    } else {
        0
    };
    let nt: u32 = new_ty as u32;
    let ns: u32 = new_slot_id as u32;
    let w: u32 = (s << 24) | (t << 10) | tg | c;
    assert(w == control_word(ty, slot_id, toggle, cycle));
    assert(((0u32 << 24) | (0u32 << 10) | 0u32 | 0u32) == 0) by (bit_vector);
    assert(t < 64 && nt < 64 && s < 256 && ns < 256 && (tg == 0 || tg == 2) && (c == 0 || c == 1)
        && w == ((s << 24) | (t << 10) | tg | c) ==> ((w & !((0xffff_ffffu32 >> 26u32) << 10u32))
        | (nt << 10u32)) == ((s << 24) | (nt << 10) | tg | c) && ((w & !((0xffff_ffffu32 >> 24u32)
        << 24u32)) | (ns << 24u32)) == ((ns << 24) | (t << 10) | tg | c) && (w | (1u32 << 1u32))
        == ((s << 24) | (t << 10) | 2u32 | c) && (w & !(1u32 << 1u32)) == ((s << 24) | (t << 10)
        | 0u32 | c) && (w | (1u32 << 0u32)) == ((s << 24) | (t << 10) | tg | 1u32) && (w & !(1u32
        << 0u32)) == ((s << 24) | (t << 10) | tg | 0u32)) by (bit_vector);
}

/// Writing the cycle bit of any word leaves its tag and its slot number as
/// they were.
pub proof fn lemma_cycle_update(word: u32, cycle: bool)
    ensures
        extract_bit(insert_bit(word, 0, cycle), 0) == cycle,
        extract_bits(insert_bit(word, 0, cycle), 10, 15) == extract_bits(word, 10, 15),
        extract_bits(insert_bit(word, 0, cycle), 24, 31) == extract_bits(word, 24, 31),
{
    assert(((word | (1u32 << 0u32)) & (1u32 << 0u32)) != 0 && ((word & !(1u32 << 0u32)) & (1u32
        << 0u32)) == 0 && (((word | (1u32 << 0u32)) & ((0xffff_ffffu32 >> 26u32) << 10u32))
        >> 10u32) == ((word & ((0xffff_ffffu32 >> 26u32) << 10u32)) >> 10u32) && (((word & !(1u32
        << 0u32)) & ((0xffff_ffffu32 >> 26u32) << 10u32)) >> 10u32) == ((word & ((0xffff_ffffu32
        >> 26u32) << 10u32)) >> 10u32) && (((word | (1u32 << 0u32)) & ((0xffff_ffffu32 >> 24u32)
        << 24u32)) >> 24u32) == ((word & ((0xffff_ffffu32 >> 24u32) << 24u32)) >> 24u32) && (((
    word & !(1u32 << 0u32)) & ((0xffff_ffffu32 >> 24u32) << 24u32)) >> 24u32) == ((word & ((
    0xffff_ffffu32 >> 24u32) << 24u32)) >> 24u32)) by (bit_vector);
}

/// The cycle bit of the record `raw`.
pub fn cycle_of(raw: &[u32; 4]) -> (r: bool)
    ensures
        r == raw_cycle(raw@),
{
    get_bit(raw[3], 0)
}

/// The tag of the record `raw`.
pub fn type_of(raw: &[u32; 4]) -> (r: u8)
    ensures
        r == raw_type(raw@),
        r < 64,
{
    let ty: u32 = get_bits(raw[3], 10, 15);
    proof {
        lemma_extract_bound(raw[3], 10, 15);
        lemma_field_max_values();
    }
    ty as u8
}

/// The slot number in the record `raw`.
pub fn slot_id_of(raw: &[u32; 4]) -> (r: u8)
    ensures
        r == raw_slot_id(raw@),
{
    let id: u32 = get_bits(raw[3], 24, 31);
    proof {
        lemma_extract_bound(raw[3], 24, 31);
        lemma_field_max_values();
    }
    id as u8
}

/// The completion code in the record `raw`.
pub fn completion_code_of(raw: &[u32; 4]) -> (r: u8)
    ensures
        r == raw_completion_code(raw@),
{
    let code: u32 = get_bits(raw[2], 24, 31);
    proof {
        lemma_extract_bound(raw[2], 24, 31);
        lemma_field_max_values();
    }
    code as u8
}

/// The pointer in the first two words of the record `raw`.
pub fn pointer_of(raw: &[u32; 4]) -> (r: u64)
    ensures
        r == raw_pointer(raw@),
{
    let low: u64 = raw[0] as u64;
    let high: u64 = raw[1] as u64;
    low + high * 0x1_0000_0000
}

/// `raw` with the cycle bit set to `cycle`.
fn with_cycle(raw: [u32; 4], cycle: bool) -> (r: [u32; 4])
    ensures
        r@ == raw@.update(3, insert_bit(raw[3], 0, cycle)),
{
    let mut words = raw;
    words[3] = set_bit(words[3], 0, cycle);
    words
}

/// `raw` with the tag set to `ty`.
fn with_type(raw: [u32; 4], ty: u8) -> (r: [u32; 4])
    requires
        ty < 64,
    ensures
        r@ == raw@.update(3, insert_bits(raw[3], 10, 15, ty as u32)),
{
    let mut words = raw;
    proof {
        lemma_field_max_values();
    }
    words[3] = set_bits(words[3], 10, 15, ty as u32);
    words
}

/// `raw` with the slot number set to `slot_id`.
fn with_slot_id(raw: [u32; 4], slot_id: u8) -> (r: [u32; 4])
    ensures
        r@ == raw@.update(3, insert_bits(raw[3], 24, 31, slot_id as u32)),
{
    let mut words = raw;
    proof {
        lemma_field_max_values();
    }
    words[3] = set_bits(words[3], 24, 31, slot_id as u32);
    words
}

/// `raw` with the pointer `p` in its first two words.
fn with_pointer(raw: [u32; 4], p: u64) -> (r: [u32; 4])
    ensures
        r@ == raw@.update(0, low_word(p)).update(1, high_word(p)),
{
    let mut words = raw;
    proof {
        lemma_pointer_halves(p);
    }
    let low: u64 = p & 0xffff_ffff;
    let high: u64 = p >> 32;
    words[0] = low as u32;
    words[1] = high as u32;
    words
}


/// A link record: the last record of a producer ring.
#[derive(Clone, Copy, Debug, PartialEq, Eq)]
pub struct Link([u32; 4]);

impl Link {
    /// The four words of the record.
    pub closed spec fn raw(self) -> Seq<u32> {
        self.0@
    }

    /// Whether the record carries the tag of its kind.
    pub open spec fn wf(self) -> bool {
        raw_type(self.raw()) == ID_LINK
    }

    /// A link to the ring that starts at `ring_base`, with the toggle flag set
    /// and the cycle bit clear.
    pub fn new(ring_base: PhysAddr) -> (r: Link)
        ensures
            r.raw() == encode(Entry::Link { ring_base: ring_base@, cycle: false }),
            r.wf(),
    {
        let mut words = with_pointer([0; 4], ring_base.as_u64());
        words = with_type(words, ID_LINK);
        words[3] = set_bit(words[3], 1, true);
        proof {
            lemma_control_word_update(0, 0, false, false, ID_LINK, 0, true);
            lemma_control_word_update(ID_LINK, 0, false, false, 0, 0, true);
            lemma_control_word_fields(ID_LINK, 0, true, false);
            assert(words@ =~= encode(Entry::Link { ring_base: ring_base@, cycle: false }));
        }
        Link(words)
    }

    /// Stamps the cycle bit `c` into the record; nothing else changes.
    pub fn set_cycle_bit(&mut self, c: CycleBit)
        ensures
            final(self).raw() == old(self).raw().update(
                3,
                insert_bit(old(self).raw()[3], 0, c@),
            ),
            final(self).wf() == old(self).wf(),
    {
        proof {
            lemma_cycle_update(self.0[3], c@);
        }
        self.0 = with_cycle(self.0, c.as_bool());
    }

    /// The four words of the record.
    pub fn into_raw(self) -> (r: [u32; 4])
        ensures
            r@ == self.raw(),
    {
        self.0
    }
}

/// A record that asks for nothing.
#[derive(Clone, Copy, Debug, PartialEq, Eq)]
pub struct Noop([u32; 4]);

impl Noop {
    /// The four words of the record.
    pub closed spec fn raw(self) -> Seq<u32> {
        self.0@
    }

    /// Whether the record carries the tag of its kind.
    pub open spec fn wf(self) -> bool {
        raw_type(self.raw()) == ID_NOOP
    }

    /// A no-op with the cycle bit `cycle_bit`.
    pub fn new(cycle_bit: CycleBit) -> (r: Noop)
        ensures
            r.raw() == encode(Entry::Noop { cycle: cycle_bit@ }),
            r.wf(),
    {
        let mut words = with_cycle([0; 4], cycle_bit.as_bool());
        words = with_type(words, ID_NOOP);
        proof {
            lemma_control_word_update(0, 0, false, false, ID_NOOP, 0, cycle_bit@);
            lemma_control_word_update(0, 0, false, cycle_bit@, ID_NOOP, 0, false);
            lemma_control_word_fields(ID_NOOP, 0, false, cycle_bit@);
            assert(words@ =~= encode(Entry::Noop { cycle: cycle_bit@ }));
        }
        Noop(words)
    }

    /// Stamps the cycle bit `c` into the record; nothing else changes.
    pub fn set_cycle_bit(&mut self, c: CycleBit)
        ensures
            final(self).raw() == old(self).raw().update(
                3,
                insert_bit(old(self).raw()[3], 0, c@),
            ),
            final(self).wf() == old(self).wf(),
    {
        proof {
            lemma_cycle_update(self.0[3], c@);
        }
        self.0 = with_cycle(self.0, c.as_bool());
    }

    /// The four words of the record.
    pub fn into_raw(self) -> (r: [u32; 4])
        ensures
            r@ == self.raw(),
    {
        self.0
    }
}

/// The command that asks the controller for a device slot.
#[derive(Clone, Copy, Debug, PartialEq, Eq)]
pub struct EnableSlot([u32; 4]);

impl EnableSlot {
    /// The four words of the record.
    pub closed spec fn raw(self) -> Seq<u32> {
        self.0@
    }

    /// Whether the record carries the tag of its kind.
    pub open spec fn wf(self) -> bool {
        raw_type(self.raw()) == ID_ENABLE_SLOT
    }

    /// An enable-slot command with the cycle bit clear.
    pub fn new() -> (r: EnableSlot)
        ensures
            r.raw() == encode(Entry::EnableSlot { cycle: false }),
            r.wf(),
    {
        let mut enable_slot = EnableSlot([0; 4]);
        enable_slot.set_trb_type(ID_ENABLE_SLOT);
        proof {
            lemma_control_word_update(0, 0, false, false, ID_ENABLE_SLOT, 0, false);
            lemma_control_word_fields(ID_ENABLE_SLOT, 0, false, false);
            assert(enable_slot.0@ =~= encode(Entry::EnableSlot { cycle: false }));
        }
        enable_slot
    }

    /// Writes the tag `ty` into the record.
    fn set_trb_type(&mut self, ty: u8)
        requires
            ty < 64,
        ensures
            final(self).0@ == old(self).0@.update(3, insert_bits(old(self).0[3], 10, 15, ty as u32)),
    {
        self.0 = with_type(self.0, ty);
    }

    /// Stamps the cycle bit `c` into the record; nothing else changes.
    pub fn set_cycle_bit(&mut self, c: CycleBit)
        ensures
            final(self).raw() == old(self).raw().update(
                3,
                insert_bit(old(self).raw()[3], 0, c@),
            ),
            final(self).wf() == old(self).wf(),
    {
        proof {
            lemma_cycle_update(self.0[3], c@);
        }
        self.0 = with_cycle(self.0, c.as_bool());
    }

    /// The four words of the record.
    pub fn into_raw(self) -> (r: [u32; 4])
        ensures
            r@ == self.raw(),
    {
        self.0
    }
}

/// The command that gives the device in a slot its address.
#[derive(Clone, Copy, Debug, PartialEq, Eq)]
pub struct AddressDevice([u32; 4]);

impl AddressDevice {
    /// The four words of the record.
    pub closed spec fn raw(self) -> Seq<u32> {
        self.0@
    }

    /// Whether the record carries the tag of its kind.
    pub open spec fn wf(self) -> bool {
        raw_type(self.raw()) == ID_ADDRESS_DEVICE
    }

    /// An address-device command for the slot `slot_id`, with the cycle bit clear.
    /// `input_context_addr` must be a multiple of 16.
    pub fn new(input_context_addr: PhysAddr, slot_id: u8) -> (r: AddressDevice)
        requires
            aligned_to(input_context_addr@, 16),
        ensures
            r.raw() == encode(Entry::AddressDevice { input_context_addr: input_context_addr@, slot_id, cycle: false }),
            r.wf(),
    {
        let mut trb = AddressDevice([0; 4]);
        trb.set_input_context_ptr_as_u64(input_context_addr.as_u64());
        trb.set_trb_type(ID_ADDRESS_DEVICE);
        trb.set_slot_id(slot_id);
        proof {
            lemma_control_word_update(0, 0, false, false, ID_ADDRESS_DEVICE, 0, false);
            lemma_control_word_update(ID_ADDRESS_DEVICE, 0, false, false, 0, slot_id, false);
            lemma_control_word_fields(ID_ADDRESS_DEVICE, slot_id, false, false);
            assert(trb.0@ =~= encode(
                Entry::AddressDevice { input_context_addr: input_context_addr@, slot_id, cycle: false },
            ));
        }
        trb
    }

    /// Writes the tag `ty` into the record.
    fn set_trb_type(&mut self, ty: u8)
        requires
            ty < 64,
        ensures
            final(self).0@ == old(self).0@.update(3, insert_bits(old(self).0[3], 10, 15, ty as u32)),
    {
        self.0 = with_type(self.0, ty);
    }

    /// Writes the slot number `id` into the record.
    fn set_slot_id(&mut self, id: u8)
        ensures
            final(self).0@ == old(self).0@.update(3, insert_bits(old(self).0[3], 24, 31, id as u32)),
    {
        self.0 = with_slot_id(self.0, id);
    }

    /// Writes the pointer `p` into the first two words of the record.
    fn set_input_context_ptr_as_u64(&mut self, p: u64)
        ensures
            final(self).0@ == old(self).0@.update(0, low_word(p)).update(1, high_word(p)),
    {
        self.0 = with_pointer(self.0, p);
    }

    /// Stamps the cycle bit `c` into the record; nothing else changes.
    pub fn set_cycle_bit(&mut self, c: CycleBit)
        ensures
            final(self).raw() == old(self).raw().update(
                3,
                insert_bit(old(self).raw()[3], 0, c@),
            ),
            final(self).wf() == old(self).wf(),
    {
        proof {
            lemma_cycle_update(self.0[3], c@);
        }
        self.0 = with_cycle(self.0, c.as_bool());
    }

    /// The four words of the record.
    pub fn into_raw(self) -> (r: [u32; 4])
        ensures
            r@ == self.raw(),
    {
        self.0
    }
}

/// The command that sets the endpoints of a device up.
#[derive(Clone, Copy, Debug, PartialEq, Eq)]
pub struct ConfigureEndpoint([u32; 4]);

impl ConfigureEndpoint {
    /// The four words of the record.
    pub closed spec fn raw(self) -> Seq<u32> {
        self.0@
    }

    /// Whether the record carries the tag of its kind.
    pub open spec fn wf(self) -> bool {
        raw_type(self.raw()) == ID_CONFIGURE_ENDPOINT
    }

    /// A configure-endpoint command for the slot `slot_id`, with the cycle bit clear.
    /// `context_addr` must be a multiple of 16.
    pub fn new(context_addr: PhysAddr, slot_id: u8) -> (r: ConfigureEndpoint)
        requires
            aligned_to(context_addr@, 16),
        ensures
            r.raw() == encode(Entry::ConfigureEndpoint { context_addr: context_addr@, slot_id, cycle: false }),
            r.wf(),
    {
        let mut trb = ConfigureEndpoint([0; 4]);
        trb.set_context_addr(context_addr);
        trb.set_trb_type(ID_CONFIGURE_ENDPOINT);
        trb.set_slot_id(slot_id);
        proof {
            lemma_control_word_update(0, 0, false, false, ID_CONFIGURE_ENDPOINT, 0, false);
            lemma_control_word_update(ID_CONFIGURE_ENDPOINT, 0, false, false, 0, slot_id, false);
            lemma_control_word_fields(ID_CONFIGURE_ENDPOINT, slot_id, false, false);
            assert(trb.0@ =~= encode(
                Entry::ConfigureEndpoint { context_addr: context_addr@, slot_id, cycle: false },
            ));
        }
        trb
    }

    /// Writes the tag `ty` into the record.
    fn set_trb_type(&mut self, ty: u8)
        requires
            ty < 64,
        ensures
            final(self).0@ == old(self).0@.update(3, insert_bits(old(self).0[3], 10, 15, ty as u32)),
    {
        self.0 = with_type(self.0, ty);
    }

    /// Writes the slot number `id` into the record.
    fn set_slot_id(&mut self, id: u8)
        ensures
            final(self).0@ == old(self).0@.update(3, insert_bits(old(self).0[3], 24, 31, id as u32)),
    {
        self.0 = with_slot_id(self.0, id);
    }

    /// Writes the address `a` into the first two words of the record.
    fn set_context_addr(&mut self, a: PhysAddr)
        requires
            aligned_to(a@, 16),
        ensures
            final(self).0@ == old(self).0@.update(0, low_word(a@)).update(1, high_word(a@)),
    {
        self.0 = with_pointer(self.0, a.as_u64());
    }

    /// Stamps the cycle bit `c` into the record; nothing else changes.
    pub fn set_cycle_bit(&mut self, c: CycleBit)
        ensures
            final(self).raw() == old(self).raw().update(
                3,
                insert_bit(old(self).raw()[3], 0, c@),
            ),
            final(self).wf() == old(self).wf(),
    {
        proof {
            lemma_cycle_update(self.0[3], c@);
        }
        self.0 = with_cycle(self.0, c.as_bool());
    }

    /// The four words of the record.
    pub fn into_raw(self) -> (r: [u32; 4])
        ensures
            r@ == self.raw(),
    {
        self.0
    }
}

/// The event with which the controller reports the end of a command.
#[derive(Clone, Copy, Debug, PartialEq, Eq)]
pub struct CommandComplete([u32; 4]);

impl CommandComplete {
    /// The four words of the record.
    pub closed spec fn raw(self) -> Seq<u32> {
        self.0@
    }

    /// Whether the record carries the tag of its kind.
    pub open spec fn wf(self) -> bool {
        raw_type(self.raw()) == ID_COMMAND_COMPLETE
    }

    /// The event that reports the end of the command at `trb_ptr`.
    pub fn new(trb_ptr: u64, completion_code: u8, cycle_bit: CycleBit) -> (r: CommandComplete)
        ensures
            r.raw() == encode(
                Entry::CommandCompletion {
                    completion_code,
                    originating_trb_ptr: trb_ptr,
                    cycle: cycle_bit@,
                },
            ),
            r.wf(),
    {
        let mut words = with_pointer([0; 4], trb_ptr);
        proof {
            lemma_field_max_values();
        }
        words[2] = set_bits(words[2], 24, 31, completion_code as u32);
        words = with_type(words, ID_COMMAND_COMPLETE);
        words = with_cycle(words, cycle_bit.as_bool());
        proof {
            lemma_control_word_update(0, 0, false, false, ID_COMMAND_COMPLETE, 0, false);
            lemma_control_word_update(ID_COMMAND_COMPLETE, 0, false, false, 0, 0, cycle_bit@);
            lemma_control_word_fields(ID_COMMAND_COMPLETE, 0, false, cycle_bit@);
            lemma_code_word(completion_code);
            assert(words@ =~= encode(
                Entry::CommandCompletion {
                    completion_code,
                    originating_trb_ptr: trb_ptr,
                    cycle: cycle_bit@,
                },
            ));
        }
        CommandComplete(words)
    }

    /// The code with which the command ended.
    pub fn completion_code(&self) -> (r: u8)
        ensures
            r == raw_completion_code(self.raw()),
    {
        completion_code_of(&self.0)
    }

    /// The address of the record that asked for the command.
    pub fn trb_ptr(&self) -> (r: u64)
        ensures
            r == raw_pointer(self.raw()),
    {
        pointer_of(&self.0)
    }

    /// Stamps the cycle bit `c` into the record; nothing else changes.
    pub fn set_cycle_bit(&mut self, c: CycleBit)
        ensures
            final(self).raw() == old(self).raw().update(
                3,
                insert_bit(old(self).raw()[3], 0, c@),
            ),
            final(self).wf() == old(self).wf(),
    {
        proof {
            lemma_cycle_update(self.0[3], c@);
        }
        self.0 = with_cycle(self.0, c.as_bool());
    }

    /// The four words of the record.
    pub fn into_raw(self) -> (r: [u32; 4])
        ensures
            r@ == self.raw(),
    {
        self.0
    }
}

/// The event with which the controller reports the end of a transfer.
#[derive(Clone, Copy, Debug, PartialEq, Eq)]
pub struct TransferEvent([u32; 4]);

impl TransferEvent {
    /// The four words of the record.
    pub closed spec fn raw(self) -> Seq<u32> {
        self.0@
    }

    /// Whether the record carries the tag of its kind.
    pub open spec fn wf(self) -> bool {
        raw_type(self.raw()) == ID_TRANSFER_EVENT
    }

    /// The event that reports the end of the transfer at `trb_ptr`.
    pub fn new(trb_ptr: u64, completion_code: u8, cycle_bit: CycleBit) -> (r: TransferEvent)
        ensures
            r.raw() == encode(
                Entry::TransferCompletion {
                    completion_code,
                    originating_trb_ptr: trb_ptr,
                    cycle: cycle_bit@,
                },
            ),
            r.wf(),
    {
        let mut words = with_pointer([0; 4], trb_ptr);
        proof {
            lemma_field_max_values();
        }
        words[2] = set_bits(words[2], 24, 31, completion_code as u32);
        words = with_type(words, ID_TRANSFER_EVENT);
        words = with_cycle(words, cycle_bit.as_bool());
        proof {
            lemma_control_word_update(0, 0, false, false, ID_TRANSFER_EVENT, 0, false);
            lemma_control_word_update(ID_TRANSFER_EVENT, 0, false, false, 0, 0, cycle_bit@);
            lemma_control_word_fields(ID_TRANSFER_EVENT, 0, false, cycle_bit@);
            lemma_code_word(completion_code);
            assert(words@ =~= encode(
                Entry::TransferCompletion {
                    completion_code,
                    originating_trb_ptr: trb_ptr,
                    cycle: cycle_bit@,
                },
            ));
        }
        TransferEvent(words)
    }

    /// The code with which the transfer ended.
    pub fn completion_code(&self) -> (r: u8)
        ensures
            r == raw_completion_code(self.raw()),
    {
        completion_code_of(&self.0)
    }

    /// The address of the record that asked for the transfer.
    pub fn trb_ptr(&self) -> (r: u64)
        ensures
            r == raw_pointer(self.raw()),
    {
        pointer_of(&self.0)
    }

    /// Stamps the cycle bit `c` into the record; nothing else changes.
    pub fn set_cycle_bit(&mut self, c: CycleBit)
        ensures
            final(self).raw() == old(self).raw().update(
                3,
                insert_bit(old(self).raw()[3], 0, c@),
            ),
            final(self).wf() == old(self).wf(),
    {
        proof {
            lemma_cycle_update(self.0[3], c@);
        }
        self.0 = with_cycle(self.0, c.as_bool());
    }

    /// The four words of the record.
    pub fn into_raw(self) -> (r: [u32; 4])
        ensures
            r@ == self.raw(),
    {
        self.0
    }
}

/// Putting a completion code into an empty word gives the word that the
/// record of a completion holds.
proof fn lemma_code_word(code: u8)
    ensures
        insert_bits(0, 24, 31, code as u32) == (code as u32) << 24,
{
    let c: u32 = code as u32;
    assert(((0u32 & !((0xffff_ffffu32 >> 24u32) << 24u32)) | (c << 24u32)) == (c << 24u32))
        by (bit_vector);
}

/// The kinds of record that this crate knows.
#[derive(Clone, Copy, Debug, PartialEq, Eq, Structural)]
pub enum Ty {
    Link,
    Noop,
    EnableSlot,
    AddressDevice,
    ConfigureEndpoint,
    TransferEvent,
    CommandComplete,
}

impl Ty {
    /// The tag of the kind.
    pub open spec fn spec_id(self) -> u8 {
        match self {
            Ty::Link => ID_LINK,
            Ty::Noop => ID_NOOP,
            Ty::EnableSlot => ID_ENABLE_SLOT,
            Ty::AddressDevice => ID_ADDRESS_DEVICE,
            Ty::ConfigureEndpoint => ID_CONFIGURE_ENDPOINT,
            Ty::TransferEvent => ID_TRANSFER_EVENT,
            Ty::CommandComplete => ID_COMMAND_COMPLETE,
        }
    }

    /// The tag of the kind.
    #[verifier::when_used_as_spec(spec_id)]
    pub fn id(self) -> (r: u8)
        ensures
            r == self.spec_id(),
    {
        match self {
            Ty::Link => ID_LINK,
            Ty::Noop => ID_NOOP,
            Ty::EnableSlot => ID_ENABLE_SLOT,
            Ty::AddressDevice => ID_ADDRESS_DEVICE,
            Ty::ConfigureEndpoint => ID_CONFIGURE_ENDPOINT,
            Ty::TransferEvent => ID_TRANSFER_EVENT,
            Ty::CommandComplete => ID_COMMAND_COMPLETE,
        }
    }

    /// The kind of the record `raw`: the one whose tag the record carries, or
    /// [`Error::InvalidId`] when there is none.
    pub fn try_from_raw(raw: &[u32; 4]) -> (r: Result<Ty, Error>)
        ensures
            match r {
                Ok(ty) => raw_type(raw@) == ty.spec_id(),
                Err(e) => e == Error::InvalidId && !known_type(raw_type(raw@)),
            },
    {
        let id: u8 = type_of(raw);
        if id == ID_LINK {
            Ok(Ty::Link)
        } else if id == ID_NOOP {
            Ok(Ty::Noop)
        } else if id == ID_ENABLE_SLOT {
            Ok(Ty::EnableSlot)
        } else if id == ID_ADDRESS_DEVICE {
            Ok(Ty::AddressDevice)
        } else if id == ID_CONFIGURE_ENDPOINT {
            Ok(Ty::ConfigureEndpoint)
        } else if id == ID_TRANSFER_EVENT {
            Ok(Ty::TransferEvent)
        } else if id == ID_COMMAND_COMPLETE {
            Ok(Ty::CommandComplete)
        } else {
            Err(Error::InvalidId)
        }
    }
}

impl Entry {
    /// The entry with its cycle bit replaced by `cycle`.
    pub open spec fn with_cycle(self, cycle: bool) -> Entry {
        match self {
            Entry::Link { ring_base, .. } => Entry::Link { ring_base, cycle },
            Entry::Noop { .. } => Entry::Noop { cycle },
            Entry::EnableSlot { .. } => Entry::EnableSlot { cycle },
            Entry::AddressDevice { input_context_addr, slot_id, .. } => Entry::AddressDevice {
                input_context_addr,
                slot_id,
                cycle,
            },
            Entry::ConfigureEndpoint { context_addr, slot_id, .. } => Entry::ConfigureEndpoint {
                context_addr,
                slot_id,
                cycle,
            },
            Entry::CommandCompletion {
                completion_code,
                originating_trb_ptr,
                ..
            } => Entry::CommandCompletion { completion_code, originating_trb_ptr, cycle },
            Entry::TransferCompletion {
                completion_code,
                originating_trb_ptr,
                ..
            } => Entry::TransferCompletion { completion_code, originating_trb_ptr, cycle },
        }
    }
}

/// A record of any of the known kinds.
#[derive(Clone, Copy, Debug, PartialEq, Eq)]
pub enum Trb {
    Link(Link),
    Noop(Noop),
    EnableSlot(EnableSlot),
    AddressDevice(AddressDevice),
    ConfigureEndpoint(ConfigureEndpoint),
    CommandComplete(CommandComplete),
    TransferEvent(TransferEvent),
}

impl View for Trb {
    type V = Entry;

    /// What the record means. It is meaningful for a record that is
    /// well-formed.
    open spec fn view(&self) -> Entry {
        decode(self.raw())->Ok_0
    }
}

impl Trb {
    /// The four words of the record.
    pub open spec fn raw(self) -> Seq<u32> {
        match self {
            Trb::Link(t) => t.raw(),
            Trb::Noop(t) => t.raw(),
            Trb::EnableSlot(t) => t.raw(),
            Trb::AddressDevice(t) => t.raw(),
            Trb::ConfigureEndpoint(t) => t.raw(),
            Trb::CommandComplete(t) => t.raw(),
            Trb::TransferEvent(t) => t.raw(),
        }
    }

    /// The kind of the record.
    pub open spec fn ty(self) -> Ty {
        match self {
            Trb::Link(_) => Ty::Link,
            Trb::Noop(_) => Ty::Noop,
            Trb::EnableSlot(_) => Ty::EnableSlot,
            Trb::AddressDevice(_) => Ty::AddressDevice,
            Trb::ConfigureEndpoint(_) => Ty::ConfigureEndpoint,
            Trb::CommandComplete(_) => Ty::CommandComplete,
            Trb::TransferEvent(_) => Ty::TransferEvent,
        }
    }

    /// Whether the record carries the tag of its kind.
    pub open spec fn wf(self) -> bool {
        raw_type(self.raw()) == self.ty().spec_id()
    }

    /// A no-op with the cycle bit `cycle_bit`.
    pub fn new_noop(cycle_bit: CycleBit) -> (r: Trb)
        ensures
            r == Trb::Noop(r->Noop_0),
            r.raw() == encode(Entry::Noop { cycle: cycle_bit@ }),
            r@ == (Entry::Noop { cycle: cycle_bit@ }),
            r.wf(),
    {
        proof {
            lemma_decode_encode(Entry::Noop { cycle: cycle_bit@ });
        }
        Trb::Noop(Noop::new(cycle_bit))
    }

    /// An enable-slot command with the cycle bit clear.
    pub fn new_enable_slot() -> (r: Trb)
        ensures
            r == Trb::EnableSlot(r->EnableSlot_0),
            r.raw() == encode(Entry::EnableSlot { cycle: false }),
            r@ == (Entry::EnableSlot { cycle: false }),
            r.wf(),
    {
        proof {
            lemma_decode_encode(Entry::EnableSlot { cycle: false });
        }
        Trb::EnableSlot(EnableSlot::new())
    }

    /// A link to the ring that starts at `a`, with the cycle bit clear.
    pub fn new_link(a: PhysAddr) -> (r: Trb)
        ensures
            r == Trb::Link(r->Link_0),
            r.raw() == encode(Entry::Link { ring_base: a@, cycle: false }),
            r@ == (Entry::Link { ring_base: a@, cycle: false }),
            r.wf(),
    {
        proof {
            lemma_decode_encode(Entry::Link { ring_base: a@, cycle: false });
        }
        Trb::Link(Link::new(a))
    }

    /// An address-device command for the slot `slot_id`, with the cycle bit
    /// clear. `input_context_addr` must be a multiple of 16.
    pub fn new_address_device(input_context_addr: PhysAddr, slot_id: u8) -> (r: Trb)
        requires
            aligned_to(input_context_addr@, 16),
        ensures
            r == Trb::AddressDevice(r->AddressDevice_0),
            r.raw() == encode(
                Entry::AddressDevice {
                    input_context_addr: input_context_addr@,
                    slot_id,
                    cycle: false,
                },
            ),
            r@ == (Entry::AddressDevice {
                input_context_addr: input_context_addr@,
                slot_id,
                cycle: false,
            }),
            r.wf(),
    {
        proof {
            lemma_decode_encode(
                Entry::AddressDevice {
                    input_context_addr: input_context_addr@,
                    slot_id,
                    cycle: false,
                },
            );
        }
        Trb::AddressDevice(AddressDevice::new(input_context_addr, slot_id))
    }

    /// A configure-endpoint command for the slot `slot_id`, with the cycle
    /// bit clear. `context_addr` must be a multiple of 16.
    pub fn new_configure_endpoint(context_addr: PhysAddr, slot_id: u8) -> (r: Trb)
        requires
            aligned_to(context_addr@, 16),
        ensures
            r == Trb::ConfigureEndpoint(r->ConfigureEndpoint_0),
            r.raw() == encode(
                Entry::ConfigureEndpoint { context_addr: context_addr@, slot_id, cycle: false },
            ),
            r@ == (Entry::ConfigureEndpoint { context_addr: context_addr@, slot_id, cycle: false }),
            r.wf(),
    {
        proof {
            lemma_decode_encode(
                Entry::ConfigureEndpoint { context_addr: context_addr@, slot_id, cycle: false },
            );
        }
        Trb::ConfigureEndpoint(ConfigureEndpoint::new(context_addr, slot_id))
    }

    /// Stamps the cycle bit `c` into the record: the last word gets `c` in
    /// bit 0, and the record then means what it meant before with the cycle
    /// bit `c`.
    pub fn set_c(&mut self, c: CycleBit)
        ensures
            final(self).raw() == old(self).raw().update(
                3,
                insert_bit(old(self).raw()[3], 0, c@),
            ),
            final(self).ty() == old(self).ty(),
            final(self).wf() == old(self).wf(),
            old(self).wf() ==> final(self)@ == old(self)@.with_cycle(c@),
    {
        proof {
            lemma_cycle_update(self.raw()[3], c@);
        }
        match self {
            Trb::Link(l) => l.set_cycle_bit(c),
            Trb::Noop(n) => n.set_cycle_bit(c),
            Trb::EnableSlot(e) => e.set_cycle_bit(c),
            Trb::AddressDevice(a) => a.set_cycle_bit(c),
            Trb::ConfigureEndpoint(e) => e.set_cycle_bit(c),
            Trb::CommandComplete(e) => e.set_cycle_bit(c),
            Trb::TransferEvent(e) => e.set_cycle_bit(c),
        }
    }

    /// The four words of the record.
    pub fn into_raw(self) -> (r: [u32; 4])
        ensures
            r@ == self.raw(),
    {
        match self {
            Trb::Link(l) => l.into_raw(),
            Trb::Noop(n) => n.into_raw(),
            Trb::EnableSlot(e) => e.into_raw(),
            Trb::AddressDevice(a) => a.into_raw(),
            Trb::ConfigureEndpoint(c) => c.into_raw(),
            Trb::CommandComplete(c) => c.into_raw(),
            Trb::TransferEvent(t) => t.into_raw(),
        }
    }

    /// Reads the record `raw`. The result is the record of the kind whose tag
    /// `raw` carries, holding the words of `raw` unchanged; it is
    /// [`Error::InvalidId`] exactly when the tag is none of the known ones.
    pub fn try_from_raw(raw: [u32; 4]) -> (r: Result<Trb, Error>)
        ensures
            match r {
                Ok(t) => t.wf() && t.raw() == raw@ && decode(raw@) == Ok::<Entry, Error>(t@),
                Err(e) => e == Error::InvalidId && decode(raw@) == Err::<Entry, Error>(
                    Error::InvalidId,
                ),
            },
    {
        match Ty::try_from_raw(&raw) {
            Ok(ty) => match ty {
                Ty::Link => Ok(Trb::Link(Link(raw))),
                Ty::Noop => Ok(Trb::Noop(Noop(raw))),
                Ty::EnableSlot => Ok(Trb::EnableSlot(EnableSlot(raw))),
                Ty::AddressDevice => Ok(Trb::AddressDevice(AddressDevice(raw))),
                Ty::ConfigureEndpoint => Ok(Trb::ConfigureEndpoint(ConfigureEndpoint(raw))),
                Ty::TransferEvent => Ok(Trb::TransferEvent(TransferEvent(raw))),
                Ty::CommandComplete => Ok(Trb::CommandComplete(CommandComplete(raw))),
            },
            Err(_) => Err(Error::InvalidId),
        }
    }

    /// A record has four words.
    pub proof fn lemma_raw_len(self)
        ensures
            self.raw().len() == 4,
    {
        match self {
            Trb::Link(t) => assert(t.0@.len() == 4),
            Trb::Noop(t) => assert(t.0@.len() == 4),
            Trb::EnableSlot(t) => assert(t.0@.len() == 4),
            Trb::AddressDevice(t) => assert(t.0@.len() == 4),
            Trb::ConfigureEndpoint(t) => assert(t.0@.len() == 4),
            Trb::CommandComplete(t) => assert(t.0@.len() == 4),
            Trb::TransferEvent(t) => assert(t.0@.len() == 4),
        }
    }

    /// A well-formed record decodes to what it means, and what it means is
    /// of the kind of the record.
    pub proof fn lemma_wf_decodes(self)
        requires
            self.wf(),
        ensures
            decode(self.raw()) == Ok::<Entry, Error>(self@),
            match self {
                Trb::Link(_) => self@ is Link,
                Trb::Noop(_) => self@ is Noop,
                Trb::EnableSlot(_) => self@ is EnableSlot,
                Trb::AddressDevice(_) => self@ is AddressDevice,
                Trb::ConfigureEndpoint(_) => self@ is ConfigureEndpoint,
                Trb::CommandComplete(_) => self@ is CommandCompletion,
                Trb::TransferEvent(_) => self@ is TransferCompletion,
            },
    {
    }

    /// Two well-formed records with the same words are the same record.
    pub proof fn lemma_raw_injective(a: Trb, b: Trb)
        requires
            a.wf(),
            b.wf(),
            a.raw() == b.raw(),
        ensures
            a == b,
    {
        match (a, b) {
            (Trb::Link(x), Trb::Link(y)) => {
                assert(x.0@ == y.0@);
                assert(x.0 == y.0);
            },
            (Trb::Noop(x), Trb::Noop(y)) => {
                assert(x.0@ == y.0@);
                assert(x.0 == y.0);
            },
            (Trb::EnableSlot(x), Trb::EnableSlot(y)) => {
                assert(x.0@ == y.0@);
                assert(x.0 == y.0);
            },
            (Trb::AddressDevice(x), Trb::AddressDevice(y)) => {
                assert(x.0@ == y.0@);
                assert(x.0 == y.0);
            },
            (Trb::ConfigureEndpoint(x), Trb::ConfigureEndpoint(y)) => {
                assert(x.0@ == y.0@);
                assert(x.0 == y.0);
            },
            (Trb::CommandComplete(x), Trb::CommandComplete(y)) => {
                assert(x.0@ == y.0@);
                assert(x.0 == y.0);
            },
            (Trb::TransferEvent(x), Trb::TransferEvent(y)) => {
                assert(x.0@ == y.0@);
                assert(x.0 == y.0);
            },
            _ => {},
        }
    }
}

/// The report that the controller makes when a request has ended.
#[derive(Clone, Copy, Debug, PartialEq, Eq)]
pub enum Completion {
    /// A command has ended.
    Command(CommandComplete),
    /// A transfer has ended.
    Transfer(TransferEvent),
}

impl Completion {
    /// The four words of the event.
    pub open spec fn raw(self) -> Seq<u32> {
        match self {
            Completion::Command(c) => c.raw(),
            Completion::Transfer(t) => t.raw(),
        }
    }

    /// The address of the record that asked for what has ended.
    pub fn trb_ptr(&self) -> (r: u64)
        ensures
            r == raw_pointer(self.raw()),
    {
        match self {
            Completion::Command(c) => c.trb_ptr(),
            Completion::Transfer(t) => t.trb_ptr(),
        }
    }

    /// The code with which it ended.
    pub fn completion_code(&self) -> (r: u8)
        ensures
            r == raw_completion_code(self.raw()),
    {
        match self {
            Completion::Command(c) => c.completion_code(),
            Completion::Transfer(t) => t.completion_code(),
        }
    }
}

} // verus!
