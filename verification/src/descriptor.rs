//! What a device says of itself: its descriptors.

use vstd::prelude::*;

verus! {

/// What a device says of one of its endpoints.
#[derive(Clone, Copy, Debug, PartialEq, Eq, Structural)]
pub struct Endpoint {
    /// The number of the endpoint in bits 0 to 3, its direction in bit 7.
    pub endpoint_address: u8,
    /// The kind of transfer.
    pub attributes: u8,
    /// The greatest packet size.
    pub max_packet_size: u16,
    /// The interval at which the endpoint is served.
    pub interval: u8,
}

/// What a device says of one of its interfaces.
#[derive(Clone, Copy, Debug, PartialEq, Eq, Structural)]
pub struct Interface {
    pub class: u8,
    pub subclass: u8,
    pub protocol: u8,
}

impl Interface {
    /// The class, the subclass and the protocol of the interface.
    pub open spec fn spec_ty(&self) -> (u8, u8, u8) {
        (self.class, self.subclass, self.protocol)
    }

    /// The class, the subclass and the protocol of the interface.
    #[verifier::when_used_as_spec(spec_ty)]
    pub fn ty(&self) -> (r: (u8, u8, u8))
        ensures
            r == self.spec_ty(),
    {
        (self.class, self.subclass, self.protocol)
    }
}

/// One descriptor of a device.
#[derive(Clone, Copy, Debug, PartialEq, Eq, Structural)]
pub enum Descriptor {
    Device,
    Configuration,
    Str,
    Interface(Interface),
    Endpoint(Endpoint),
    Hid,
}

} // verus!
