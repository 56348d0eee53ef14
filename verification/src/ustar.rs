//! The header of a file in a tar archive.

use crate::text::utf8;
use vstd::pervasive::unreached;
use vstd::prelude::*;
use vstd::slice::slice_subrange;
use vstd::string::StringSliceAdditionalSpecFns;
use vstd::utf8::valid_utf8;

verus! {

/// The size of a block of an archive in bytes.
pub const BLOCK_SIZE: usize = 512;

/// The value of the first `n` bytes of `digits`, read as octal digits.
pub open spec fn octal_value(digits: Seq<u8>, n: nat) -> int
    decreases n,
{
    if n == 0 {
        0
    } else {
        octal_value(digits, (n - 1) as nat) * 8 + (digits[n - 1] - 0x30)
    }
}

/// The index of the first byte of `bytes` that is not zero, or the length of
/// `bytes` where every byte is zero.
pub open spec fn first_nonzero(bytes: Seq<u8>) -> int
    decreases bytes.len(),
{
    if bytes.len() == 0 || bytes[0] != 0 {
        0
    } else {
        1 + first_nonzero(bytes.drop_first())
    }
}

/// The index behind the last byte of `bytes` that is not zero, or 0 where
/// every byte is zero.
pub open spec fn end_of_nonzero(bytes: Seq<u8>) -> int
    decreases bytes.len(),
{
    if bytes.len() == 0 || bytes.last() != 0 {
        bytes.len() as int
    } else {
        end_of_nonzero(bytes.drop_last())
    }
}

/// `bytes` without the zero bytes at its start and at its end.
pub open spec fn trimmed(bytes: Seq<u8>) -> Seq<u8> {
    if first_nonzero(bytes) >= end_of_nonzero(bytes) {
        Seq::empty()
    } else {
        bytes.subrange(first_nonzero(bytes), end_of_nonzero(bytes))
    }
}

/// What the header of a file says of it.
#[derive(Clone, Copy, Debug, PartialEq, Eq)]
pub struct Meta {
    name: [u8; 100],
    size: [u8; 12],
    magic: [u8; 6],
}

impl Meta {
    /// The name field.
    pub closed spec fn name_field(self) -> Seq<u8> {
        self.name@
    }

    /// The size field.
    pub closed spec fn size_field(self) -> Seq<u8> {
        self.size@
    }

    /// The field that marks the format of the archive.
    pub closed spec fn magic_field(self) -> Seq<u8> {
        self.magic@
    }

    /// The header in the block `block`: the name is its first 100 bytes, the
    /// size the 12 bytes from byte 124, the mark of the format the 6 bytes
    /// from byte 257.
    pub fn from_block(block: &[u8; 512]) -> (r: Meta)
        ensures
            r.name_field() == block@.subrange(0, 100),
            r.size_field() == block@.subrange(124, 136),
            r.magic_field() == block@.subrange(257, 263),
    {
        let mut name: [u8; 100] = [0; 100];
        let mut i: usize = 0;
        while i < 100
            invariant
                i <= 100,
                forall|j: int| 0 <= j < i ==> name[j] == block[j],
            decreases 100 - i,
        {
            name[i] = block[i];
            i += 1;
        }
        let mut size: [u8; 12] = [0; 12];
        let mut i: usize = 0;
        while i < 12
            invariant
                i <= 12,
                forall|j: int| 0 <= j < i ==> size[j] == block[124 + j],
            decreases 12 - i,
        {
            size[i] = block[124 + i];
            i += 1;
        }
        let mut magic: [u8; 6] = [0; 6];
        let mut i: usize = 0;
        while i < 6
            invariant
                i <= 6,
                forall|j: int| 0 <= j < i ==> magic[j] == block[257 + j],
            decreases 6 - i,
        {
            magic[i] = block[257 + i];
            i += 1;
        }
        assert(name@ =~= block@.subrange(0, 100));
        assert(size@ =~= block@.subrange(124, 136));
        assert(magic@ =~= block@.subrange(257, 263));
        Meta { name, size, magic }
    }

    /// Whether the header belongs to an archive of the format: whether its
    /// mark starts with the letters of the format's name.
    pub fn is_ustar(&self) -> (r: bool)
        ensures
            r == (self.magic_field().subrange(0, 5) == seq![0x75u8, 0x73u8, 0x74u8, 0x61u8, 0x72u8]),
    {
        let r = self.magic[0] == 0x75 && self.magic[1] == 0x73 && self.magic[2] == 0x74
            && self.magic[3] == 0x61 && self.magic[4] == 0x72;
        proof {
            let expected = seq![0x75u8, 0x73u8, 0x74u8, 0x61u8, 0x72u8];
            let found = self.magic@.subrange(0, 5);
            if r {
                assert(found =~= expected);
            } else {
                if found == expected {
                    assert(found[0] == expected[0]);
                    assert(found[1] == expected[1]);
                    assert(found[2] == expected[2]);
                    assert(found[3] == expected[3]);
                    assert(found[4] == expected[4]);
                }
            }
        }
        r
    }

    /// The size of the file: the first eleven bytes of the size field, read
    /// as octal digits. None of them may lie below the digit zero, and the
    /// number has to fit in a `usize`.
    pub fn filesize_as_dec(&self) -> (r: usize)
        requires
            forall|d: int| 0 <= d < 11 ==> 0x30 <= #[trigger] self.size_field()[d],
            octal_value(self.size_field(), 11) <= usize::MAX,
        ensures
            r == octal_value(self.size_field(), 11),
    {
        let mut sz: usize = 0;

        let mut d: usize = 0;
        while d < self.size.len() - 1
            invariant
                d <= 11,
                self.size.len() == 12,
                sz == octal_value(self.size@, d as nat),
                forall|k: int| 0 <= k < 11 ==> 0x30 <= #[trigger] self.size@[k],
                octal_value(self.size@, 11) <= usize::MAX,
            decreases 11 - d,
        {
            proof {
                lemma_octal_monotonic(self.size@, (d + 1) as nat, 11);
            }
            sz = sz * 8;
            sz = sz + (self.size[d] - 0x30) as usize;
            d += 1;
        }
        sz
    }

    /// The bytes of the name of the file: the name field without the zero
    /// bytes at its start and at its end.
    pub fn name_bytes(&self) -> (r: &[u8])
        ensures
            r@ == trimmed(self.name_field()),
    {
        let len: usize = self.name.len();
        let mut start: usize = 0;
        while start < len && self.name[start] == 0
            invariant
                start <= len == 100,
                forall|j: int| 0 <= j < start ==> self.name@[j] == 0,
            decreases len - start,
        {
            start += 1;
        }
        let mut end: usize = len;
        while end > start && self.name[end - 1] == 0
            invariant
                start <= end <= len == 100,
                forall|j: int| end <= j < len ==> self.name@[j] == 0,
            decreases end,
        {
            end -= 1;
        }
        proof {
            lemma_first_nonzero(self.name@, start as int);
            if end == start {
                lemma_end_of_nonzero(self.name@, 0);
            } else {
                lemma_end_of_nonzero(self.name@, end as int);
            }
            assert(self.name@.subrange(start as int, end as int) =~= trimmed(self.name@));
        }
        slice_subrange(self.name.as_slice(), start, end)
    }

    /// The name of the file: the name field without the zero bytes at its
    /// start and at its end. What is left has to be valid UTF-8.
    pub fn name(&self) -> (r: &str)
        requires
            valid_utf8(trimmed(self.name_field())),
        ensures
            r.spec_bytes() == trimmed(self.name_field()),
    {
        match utf8(self.name_bytes()) {
            Some(s) => s,
            None => unreached(),
        }
    }
}

/// The offset of the header that follows a file of `filesize` bytes whose
/// header is at `offset`: behind the header and the blocks of the file.
pub fn next_entry(offset: usize, filesize: usize) -> (r: Option<usize>)
    ensures
        offset + ((filesize + 511) / 512 + 1) * 512 <= usize::MAX ==> r == Some(
            (offset + ((filesize + 511) / 512 + 1) * 512) as usize,
        ),
        offset + ((filesize + 511) / 512 + 1) * 512 > usize::MAX ==> r.is_none(),
{
    if filesize > usize::MAX - 511 {
        return None;
    }
    let blocks: usize = (filesize + 511) / 512 + 1;
    if blocks > (usize::MAX - offset) / 512 {
        return None;
    }
    Some(offset + blocks * 512)
}

/// The value of the digits grows with their number.
proof fn lemma_octal_monotonic(digits: Seq<u8>, n: nat, m: nat)
    requires
        n <= m <= digits.len(),
        forall|k: int| 0 <= k < m ==> 0x30 <= #[trigger] digits[k],
    ensures
        0 <= octal_value(digits, n) <= octal_value(digits, m),
    decreases m,
{
    if n == 0 {
        if m > 0 {
            lemma_octal_monotonic(digits, 0, (m - 1) as nat);
        }
    } else if n < m {
        lemma_octal_monotonic(digits, n, (m - 1) as nat);
    } else {
        lemma_octal_monotonic(digits, (n - 1) as nat, (m - 1) as nat);
    }
}

/// Where the bytes before `start` are zero and the byte at `start` is not,
/// or `start` is the length, `start` is the index of the first byte that is
/// not zero.
proof fn lemma_first_nonzero(bytes: Seq<u8>, start: int)
    requires
        0 <= start <= bytes.len(),
        forall|j: int| 0 <= j < start ==> bytes[j] == 0,
        start < bytes.len() ==> bytes[start] != 0,
    ensures
        first_nonzero(bytes) == start,
    decreases bytes.len(),
{
    if start > 0 {
        let rest = bytes.drop_first();
        assert forall|j: int| 0 <= j < start - 1 implies rest[j] == 0 by {
            assert(rest[j] == bytes[j + 1]);
        }
        lemma_first_nonzero(rest, start - 1);
    }
}

/// Where the bytes from `end` on are zero and the byte before `end` is not,
/// or `end` is 0, `end` is the index behind the last byte that is not zero.
proof fn lemma_end_of_nonzero(bytes: Seq<u8>, end: int)
    requires
        0 <= end <= bytes.len(),
        forall|j: int| end <= j < bytes.len() ==> bytes[j] == 0,
        end > 0 ==> bytes[end - 1] != 0,
    ensures
        end_of_nonzero(bytes) == end,
    decreases bytes.len(),
{
    if end < bytes.len() {
        let rest = bytes.drop_last();
        lemma_end_of_nonzero(rest, end);
    }
}

} // verus!
