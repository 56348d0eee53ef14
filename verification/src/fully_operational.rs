//! A device whose descriptors were read and whose endpoints are known.

use crate::context::EndpointType;
use crate::descriptor::Descriptor;
use crate::endpoint::Endpoint;
use vstd::pervasive::unreached;
use vstd::prelude::*;

verus! {

/// Why a transfer could not be issued.
#[derive(Clone, Copy, Debug, PartialEq, Eq, Structural)]
pub enum Error {
    /// The device has no endpoint of the kind.
    NoSuchEndpoint(EndpointType),
}

/// A device in the state in which it can be used.
pub struct FullyOperational {
    descriptors: Vec<Descriptor>,
    eps: Vec<Endpoint>,
}

/// Whether `descriptors` holds an interface descriptor.
pub open spec fn has_interface(descriptors: Seq<Descriptor>) -> bool {
    exists|i: int| 0 <= i < descriptors.len() && #[trigger] descriptors[i] is Interface
}

impl FullyOperational {
    /// The descriptors of the device.
    pub closed spec fn spec_descriptors(&self) -> Seq<Descriptor> {
        self.descriptors@
    }

    /// The endpoints of the device besides the default one.
    pub closed spec fn endpoints(&self) -> Seq<Endpoint> {
        self.eps@
    }

    /// Each endpoint names a kind that there is.
    pub open spec fn wf(&self) -> bool {
        forall|i: int|
            0 <= i < self.endpoints().len() ==> (#[trigger] self.endpoints()[i]).desc().type_number()
                < 8
    }

    /// The device with the descriptors `descriptors` and the endpoints
    /// `eps`.
    pub fn new(descriptors: Vec<Descriptor>, eps: Vec<Endpoint>) -> (r: FullyOperational)
        ensures
            r.spec_descriptors() == descriptors@,
            r.endpoints() == eps@,
    {
        FullyOperational { descriptors, eps }
    }

    /// The class, the subclass and the protocol of the first interface of
    /// the device, which has to have one.
    pub fn ty(&self) -> (r: (u8, u8, u8))
        requires
            has_interface(self.spec_descriptors()),
        ensures
            exists|i: int|
                0 <= i < self.spec_descriptors().len() && (
                #[trigger] self.spec_descriptors()[i]) is Interface
                    && self.spec_descriptors()[i]->Interface_0.spec_ty() == r && forall|j: int|
                    0 <= j < i ==> !((#[trigger] self.spec_descriptors()[j]) is Interface),
    {
        let mut i: usize = 0;
        while i < self.descriptors.len()
            invariant
                i <= self.descriptors.len(),
                forall|j: int| 0 <= j < i ==> !((#[trigger] self.descriptors@[j]) is Interface),
            decreases self.descriptors.len() - i,
        {
            if let Descriptor::Interface(interface) = &self.descriptors[i] {
                assert(self.spec_descriptors()[i as int] is Interface);
                return interface.ty();
            }
            i += 1;
        }
        proof {
            let found = choose|i: int|
                0 <= i < self.spec_descriptors().len() && #[trigger] self.spec_descriptors()[i]
                    is Interface;
            assert(!(self.descriptors@[found] is Interface));
        }
        unreached()
    }

    /// The index of the first endpoint of the kind `ty`, to which a transfer
    /// for that kind goes, or [`Error::NoSuchEndpoint`] where the device has
    /// none.
    pub fn endpoint_of_type(&self, ty: EndpointType) -> (r: Result<usize, Error>)
        requires
            self.wf(),
        ensures
            match r {
                Ok(i) => {
                    &&& i < self.endpoints().len()
                    &&& self.endpoints()[i as int].desc().type_number() == ty.spec_as_u8()
                    &&& forall|j: int|
                        0 <= j < i ==> (#[trigger] self.endpoints()[j]).desc().type_number()
                            != ty.spec_as_u8()
                },
                Err(e) => {
                    &&& e == Error::NoSuchEndpoint(ty)
                    &&& forall|j: int|
                        0 <= j < self.endpoints().len() ==> (
                        #[trigger] self.endpoints()[j]).desc().type_number() != ty.spec_as_u8()
                },
            },
    {
        let mut i: usize = 0;
        while i < self.eps.len()
            invariant
                i <= self.eps.len(),
                self.wf(),
                forall|j: int|
                    0 <= j < i ==> (#[trigger] self.eps@[j]).desc().type_number()
                        != ty.spec_as_u8(),
            decreases self.eps.len() - i,
        {
            assert(self.endpoints()[i as int].desc().type_number() < 8);
            if self.eps[i].ty().as_u8() == ty.as_u8() {
                return Ok(i);
            }
            i += 1;
        }
        Err(Error::NoSuchEndpoint(ty))
    }

    /// The descriptors of the device.
    pub fn descriptors(&self) -> (r: &[Descriptor])
        ensures
            r@ == self.spec_descriptors(),
    {
        self.descriptors.as_slice()
    }
}

} // verus!
