//! Bit fields inside machine words.
//!
//! The hardware records of this crate pack several fields into one 32-bit
//! word. The spec functions here say what a word holds in a field; the
//! executable functions read and write fields through the `bit_field` crate.

use bit_field::BitField;
use vstd::prelude::*;

verus! {

/// The word that has ones in the bits `lo..=hi` and zeros elsewhere.
pub open spec fn field_mask(lo: u32, hi: u32) -> u32
    recommends
        lo <= hi < 32,
{
    (0xffff_ffffu32 >> ((31 - hi + lo) as u32)) << lo
}

/// The greatest value that the field `lo..=hi` can hold.
pub open spec fn field_max(lo: u32, hi: u32) -> u32
    recommends
        lo <= hi < 32,
{
    0xffff_ffffu32 >> ((31 - hi + lo) as u32)
}

/// `word` with the bits `lo..=hi` replaced by `value`; the other bits stay.
pub open spec fn insert_bits(word: u32, lo: u32, hi: u32, value: u32) -> u32
    recommends
        lo <= hi < 32,
        value <= field_max(lo, hi),
{
    (word & !field_mask(lo, hi)) | (value << lo)
}

/// The value that `word` holds in the bits `lo..=hi`.
pub open spec fn extract_bits(word: u32, lo: u32, hi: u32) -> u32
    recommends
        lo <= hi < 32,
{
    (word & field_mask(lo, hi)) >> lo
}

/// `word` with bit `bit` set to `value`.
pub open spec fn insert_bit(word: u32, bit: u32, value: bool) -> u32
    recommends
        bit < 32,
{
    if value {
        word | (1u32 << bit)
    } else {
        word & !(1u32 << bit)
    }
}

/// Whether bit `bit` of `word` is one.
pub open spec fn extract_bit(word: u32, bit: u32) -> bool
    recommends
        bit < 32,
{
    word & (1u32 << bit) != 0
}

/// Calls `BitField::set_bits` of `bit_field` on a `u32` with the inclusive
/// range `lo..=hi`. The crate replaces exactly those bits by `value` and
/// panics when the range leaves the word or `value` has a one above the
/// field's width; both are excluded here.
#[verifier::external_body]
pub(crate) fn set_bits(word: u32, lo: usize, hi: usize, value: u32) -> (r: u32)
    requires
        lo <= hi < 32,
        value <= field_max(lo as u32, hi as u32),
    ensures
        r == insert_bits(word, lo as u32, hi as u32, value),
{
    let mut w = word;
    w.set_bits(lo..=hi, value);
    w
}

/// Calls `BitField::get_bits` of `bit_field` on a `u32` with the inclusive
/// range `lo..=hi`. The crate shifts the bits above and below the range away
/// and panics when the range leaves the word.
#[verifier::external_body]
pub(crate) fn get_bits(word: u32, lo: usize, hi: usize) -> (r: u32)
    requires
        lo <= hi < 32,
    ensures
        r == extract_bits(word, lo as u32, hi as u32),
{
    word.get_bits(lo..=hi)
}

/// Calls `BitField::set_bit` of `bit_field` on a `u32`. The crate sets or
/// clears the one bit and panics when `bit` is not below 32.
#[verifier::external_body]
pub(crate) fn set_bit(word: u32, bit: usize, value: bool) -> (r: u32)
    requires
        bit < 32,
    ensures
        r == insert_bit(word, bit as u32, value),
{
    let mut w = word;
    w.set_bit(bit, value);
    w
}

/// Calls `BitField::get_bit` of `bit_field` on a `u32`. The crate tests the
/// one bit and panics when `bit` is not below 32.
#[verifier::external_body]
pub(crate) fn get_bit(word: u32, bit: usize) -> (r: bool)
    requires
        bit < 32,
    ensures
        r == extract_bit(word, bit as u32),
{
    word.get_bit(bit)
}

/// A field that was written reads back, and the bits outside it are those of
/// the word before.
pub proof fn lemma_insert_then_extract(word: u32, lo: u32, hi: u32, value: u32)
    requires
        lo <= hi < 32,
        value <= field_max(lo, hi),
    ensures
        extract_bits(insert_bits(word, lo, hi, value), lo, hi) == value,
        insert_bits(word, lo, hi, value) & !field_mask(lo, hi) == word & !field_mask(lo, hi),
{
    let n: u32 = (31 - hi + lo) as u32;
    assert(lo <= n < 32 && value <= (0xffff_ffffu32 >> n) ==> ((((word & !((0xffff_ffffu32 >> n)
        << lo)) | (value << lo)) & ((0xffff_ffffu32 >> n) << lo)) >> lo) == value && (((word & !((
    0xffff_ffffu32 >> n) << lo)) | (value << lo)) & !((0xffff_ffffu32 >> n) << lo)) == (word & !((
    0xffff_ffffu32 >> n) << lo))) by (bit_vector);
}

/// Of two values written into one field the second stays.
pub proof fn lemma_insert_twice(word: u32, lo: u32, hi: u32, first: u32, second: u32)
    requires
        lo <= hi < 32,
        first <= field_max(lo, hi),
        second <= field_max(lo, hi),
    ensures
        insert_bits(insert_bits(word, lo, hi, first), lo, hi, second) == insert_bits(
            word,
            lo,
            hi,
            second,
        ),
{
    let n: u32 = (31 - hi + lo) as u32;
    assert(lo <= n < 32 && first <= (0xffff_ffffu32 >> n) && second <= (0xffff_ffffu32 >> n) ==> (
    (((word & !((0xffff_ffffu32 >> n) << lo)) | (first << lo)) & !((0xffff_ffffu32 >> n) << lo)) | (
    second << lo)) == ((word & !((0xffff_ffffu32 >> n) << lo)) | (second << lo)))
        by (bit_vector);
}

/// What a field holds is never above the greatest value of its width.
pub proof fn lemma_extract_bound(word: u32, lo: u32, hi: u32)
    requires
        lo <= hi < 32,
    ensures
        extract_bits(word, lo, hi) <= field_max(lo, hi),
{
    let n: u32 = (31 - hi + lo) as u32;
    assert(lo <= n < 32 ==> ((word & ((0xffff_ffffu32 >> n) << lo)) >> lo) <= (0xffff_ffffu32
        >> n)) by (bit_vector);
}

/// The low bits of a value, as many as a field has, fit in the field.
pub proof fn lemma_truncated_fits(value: u32, lo: u32, hi: u32)
    requires
        lo <= hi < 32,
    ensures
        value & field_max(lo, hi) <= field_max(lo, hi),
{
    let n: u32 = (31 - hi + lo) as u32;
    assert(n < 32 ==> (value & (0xffff_ffffu32 >> n)) <= (0xffff_ffffu32 >> n)) by (bit_vector);
}

/// The greatest values of the field widths that the records of this crate
/// use.
pub proof fn lemma_field_max_values()
    ensures
        forall|lo: u32, hi: u32| lo <= hi < 32 && hi - lo == 0 ==> #[trigger] field_max(lo, hi) == 1,
        forall|lo: u32, hi: u32| lo <= hi < 32 && hi - lo == 1 ==> #[trigger] field_max(lo, hi) == 3,
        forall|lo: u32, hi: u32| lo <= hi < 32 && hi - lo == 2 ==> #[trigger] field_max(lo, hi) == 7,
        forall|lo: u32, hi: u32|
            lo <= hi < 32 && hi - lo == 4 ==> #[trigger] field_max(lo, hi) == 31,
        forall|lo: u32, hi: u32|
            lo <= hi < 32 && hi - lo == 5 ==> #[trigger] field_max(lo, hi) == 63,
        forall|lo: u32, hi: u32|
            lo <= hi < 32 && hi - lo == 7 ==> #[trigger] field_max(lo, hi) == 255,
        forall|lo: u32, hi: u32|
            lo <= hi < 32 && hi - lo == 15 ==> #[trigger] field_max(lo, hi) == 65535,
        forall|lo: u32, hi: u32|
            lo <= hi < 32 && hi - lo == 21 ==> #[trigger] field_max(lo, hi) == 0x3f_ffff,
        forall|lo: u32, hi: u32|
            lo <= hi < 32 && hi - lo == 23 ==> #[trigger] field_max(lo, hi) == 0xff_ffff,
        forall|lo: u32, hi: u32|
            lo <= hi < 32 && hi - lo == 31 ==> #[trigger] field_max(lo, hi) == 0xffff_ffff,
{
    assert(0xffff_ffffu32 >> 31u32 == 1 && 0xffff_ffffu32 >> 30u32 == 3 && 0xffff_ffffu32 >> 29u32
        == 7 && 0xffff_ffffu32 >> 27u32 == 31 && 0xffff_ffffu32 >> 26u32 == 63 && 0xffff_ffffu32
        >> 24u32 == 255 && 0xffff_ffffu32 >> 16u32 == 65535 && 0xffff_ffffu32 >> 10u32
        == 0x3f_ffff && 0xffff_ffffu32 >> 8u32 == 0xff_ffff && 0xffff_ffffu32 >> 0u32
        == 0xffff_ffff) by (bit_vector);
}

} // verus!
