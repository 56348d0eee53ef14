//! The numbers of the system calls.

use crate::text::utf8;
use vstd::prelude::*;
use vstd::string::StringSliceAdditionalSpecFns;
use vstd::utf8::valid_utf8;

verus! {

/// The file descriptor of the standard output.
pub const STDOUT: i32 = 1;

/// Answers the call that writes the bytes `buf` to the file `fildes`, which
/// has to be the standard output. Where the bytes are valid UTF-8 the result
/// is their number and the text to show; else it is zero and nothing is
/// shown.
pub fn sys_write<'a>(fildes: i32, buf: &'a [u8]) -> (r: (i32, Option<&'a str>))
    requires
        fildes == STDOUT,
        buf.len() <= i32::MAX,
    ensures
        valid_utf8(buf@) ==> r.0 == buf.len() && r.1.is_some() && r.1.unwrap().spec_bytes()
            == buf@,
        !valid_utf8(buf@) ==> r.0 == 0 && r.1.is_none(),
{
    match utf8(buf) {
        Some(s) => (buf.len() as i32, Some(s)),
        None => (0, None),
    }
}

/// The system calls, in the order of their numbers.
#[derive(Clone, Copy, Debug, PartialEq, Eq, Structural)]
pub enum Syscalls {
    Inb,
    Outb,
    Inl,
    Outl,
    Halt,
    DisableInterrupt,
    EnableInterrupt,
    EnableInterruptAndHalt,
    AllocatePages,
    DeallocatePages,
    MapPages,
    UnmapPages,
}

impl Syscalls {
    /// The number of the call.
    pub open spec fn spec_as_u64(self) -> u64 {
        match self {
            Syscalls::Inb => 0,
            Syscalls::Outb => 1,
            Syscalls::Inl => 2,
            Syscalls::Outl => 3,
            Syscalls::Halt => 4,
            Syscalls::DisableInterrupt => 5,
            Syscalls::EnableInterrupt => 6,
            Syscalls::EnableInterruptAndHalt => 7,
            Syscalls::AllocatePages => 8,
            Syscalls::DeallocatePages => 9,
            Syscalls::MapPages => 10,
            Syscalls::UnmapPages => 11,
        }
    }

    /// The number of the call.
    #[verifier::when_used_as_spec(spec_as_u64)]
    pub fn as_u64(self) -> (r: u64)
        ensures
            r == self.spec_as_u64(),
    {
        match self {
            Syscalls::Inb => 0,
            Syscalls::Outb => 1,
            Syscalls::Inl => 2,
            Syscalls::Outl => 3,
            Syscalls::Halt => 4,
            Syscalls::DisableInterrupt => 5,
            Syscalls::EnableInterrupt => 6,
            Syscalls::EnableInterruptAndHalt => 7,
            Syscalls::AllocatePages => 8,
            Syscalls::DeallocatePages => 9,
            Syscalls::MapPages => 10,
            Syscalls::UnmapPages => 11,
        }
    }

    /// The call with the number `n`, if there is one.
    pub fn from_u64(n: u64) -> (r: Option<Syscalls>)
        ensures
            n < 12 ==> r.is_some() && r.unwrap().spec_as_u64() == n,
            n >= 12 ==> r.is_none(),
    {
        match n {
            0 => Some(Syscalls::Inb),
            1 => Some(Syscalls::Outb),
            2 => Some(Syscalls::Inl),
            3 => Some(Syscalls::Outl),
            4 => Some(Syscalls::Halt),
            5 => Some(Syscalls::DisableInterrupt),
            6 => Some(Syscalls::EnableInterrupt),
            7 => Some(Syscalls::EnableInterruptAndHalt),
            8 => Some(Syscalls::AllocatePages),
            9 => Some(Syscalls::DeallocatePages),
            10 => Some(Syscalls::MapPages),
            11 => Some(Syscalls::UnmapPages),
            _ => None,
        }
    }
}

} // verus!
