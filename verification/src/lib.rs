//! Driver core of a small kernel.
//!
//! The heart of it is the protocol with which software and a host
//! controller share rings of 16-byte records ([`ring`]), the registry that
//! matches the completion events of the controller with the requests that
//! caused them ([`transferor`]), and the cooperative scheduler that runs the
//! driver tasks ([`multitask`]). Around it stand the records that describe
//! devices to the controllers ([`context`], [`endpoint`], [`ahci`]), the
//! registers of PCI functions ([`bar`], [`msi`], [`capability`]), and small
//! pieces of the kernel that are plain arithmetic ([`paging`], [`mem`],
//! [`ustar`], [`mouse`], [`syscalls`]).
//!
//! Everything here computes on plain values. Reaching the hardware, that is
//! memory that the controller sees, registers, I/O ports and interrupts, is
//! left to the caller.

pub mod addr;
pub mod ahci;
pub mod bar;
pub mod bits;
pub mod capability;
pub mod context;
pub mod descriptor;
pub mod endpoint;
pub mod fully_operational;
pub mod mem;
pub mod mouse;
pub mod msi;
pub mod multitask;
pub mod paging;
pub mod ring;
pub mod syscalls;
pub mod text;
pub mod transferor;
pub mod ustar;
