//! The endpoints of a device, as their descriptors describe them, and how
//! their contexts are filled in.

use crate::bits::{extract_bit, extract_bits, get_bit, get_bits, insert_bit, insert_bits};
use crate::context;
use crate::context::{Context, EndpointType, NUM_OF_ENDPOINTS};
use crate::descriptor;
use crate::ring::CycleBit;
use vstd::pervasive::unreached;
use vstd::prelude::*;

verus! {

impl descriptor::Endpoint {
    /// The number of the endpoint.
    pub open spec fn number(self) -> u32 {
        extract_bits(self.endpoint_address as u32, 0, 3)
    }

    /// Whether the endpoint sends to the host.
    pub open spec fn is_input(self) -> bool {
        extract_bit(self.endpoint_address as u32, 7)
    }

    /// The index of the endpoint's context in a device context: twice the
    /// number, and one more for an endpoint that sends to the host.
    pub open spec fn dci(self) -> int {
        2 * self.number() + (if self.is_input() {
            1int
        } else {
            0int
        })
    }

    /// The number of the kind of the endpoint.
    pub open spec fn type_number(self) -> int {
        if self.attributes == 0 {
            0
        } else if self.endpoint_address == 0 {
            self.attributes as int
        } else {
            self.attributes + 4
        }
    }

    /// The descriptor can be written into a device context: the endpoint has
    /// a context there, and its kind is one that there is.
    pub open spec fn wf(self) -> bool {
        &&& self.number() < NUM_OF_ENDPOINTS
        &&& self.type_number() < 8
    }
}

/// One endpoint of a device.
#[derive(Clone, Copy, Debug, PartialEq, Eq)]
pub struct Endpoint {
    desc: descriptor::Endpoint,
}

impl Endpoint {
    /// The descriptor of the endpoint.
    pub closed spec fn desc(self) -> descriptor::Endpoint {
        self.desc
    }

    /// The endpoint that `desc` describes.
    pub fn new(desc: descriptor::Endpoint) -> (r: Endpoint)
        ensures
            r.desc() == desc,
    {
        Endpoint { desc }
    }

    /// The kind of the endpoint. The descriptor has to name one that there
    /// is.
    pub fn ty(&self) -> (r: EndpointType)
        requires
            self.desc().type_number() < 8,
        ensures
            r.spec_as_u8() == self.desc().type_number(),
    {
        ContextInitializer::new(&self.desc).ep_ty()
    }

    /// Fills the contexts of the device in for the endpoint: see
    /// [`ContextInitializer::init`].
    pub fn init_context(&mut self, cx: &mut Context)
        requires
            old(self).desc().wf(),
        ensures
            final(self).desc() == old(self).desc(),
            initialized(*old(cx), old(self).desc(), *final(cx)),
    {
        ContextInitializer::new(&self.desc).init(cx);
    }
}

/// The endpoint context after the fields of `desc` were written into `before`.
pub open spec fn initialized_words(before: Seq<u32>, desc: descriptor::Endpoint) -> Seq<u32> {
    let word1 = insert_bits(
        insert_bits(
            insert_bits(
                insert_bits(before[1], 3, 5, desc.type_number() as u32),
                16,
                31,
                desc.max_packet_size as u32,
            ),
            8,
            15,
            0,
        ),
        1,
        2,
        3,
    );
    let word0 = insert_bits(
        insert_bits(insert_bits(before[0], 10, 14, 0), 8, 9, 0),
        16,
        23,
        desc.interval as u32,
    );
    before.update(1, word1).update(2, insert_bit(before[2], 0, true)).update(0, word0)
}

/// Whether `after` is `before` with the endpoint of `desc` set up: in the
/// input control context the add flag 1 is clear and the add flag of the
/// endpoint is set; in the device context that the controller keeps, the
/// context of the endpoint holds the fields of `desc`; all else is as it
/// was.
pub open spec fn initialized(before: Context, desc: descriptor::Endpoint, after: Context) -> bool {
    let index = desc.number() as int;
    let slot = before.output_device.ep_inout[index];
    &&& after.input.device() == before.input.device()
    &&& (after.input is Bit64) == (before.input is Bit64)
    &&& after.input.control_words() == before.input.control_words().update(
        1,
        (before.input.control_words()[1] & !(1u64 << 1u64)) | (1u64 << (desc.dci() as u64)),
    )
    &&& after.output_device.slot == before.output_device.slot
    &&& after.output_device.ep_0 == before.output_device.ep_0
    &&& forall|i: int|
        0 <= i < NUM_OF_ENDPOINTS && i != index ==> after.output_device.ep_inout[i]
            == before.output_device.ep_inout[i]
    &&& if desc.is_input() {
        &&& after.output_device.ep_inout[index].out == slot.out
        &&& after.output_device.ep_inout[index].input@ == initialized_words(slot.input@, desc)
    } else {
        &&& after.output_device.ep_inout[index].input == slot.input
        &&& after.output_device.ep_inout[index].out@ == initialized_words(slot.out@, desc)
    }
}

/// Fills the contexts of a device in for one endpoint.
pub struct ContextInitializer {
    ep: descriptor::Endpoint,
}

impl ContextInitializer {
    /// The descriptor of the endpoint.
    pub closed spec fn ep(self) -> descriptor::Endpoint {
        self.ep
    }

    /// The initializer for the endpoint that `ep` describes.
    pub fn new(ep: &descriptor::Endpoint) -> (r: ContextInitializer)
        ensures
            r.ep() == *ep,
    {
        ContextInitializer { ep: *ep }
    }

    /// Sets the add flag of the endpoint and writes its context.
    pub fn init(&mut self, context: &mut Context)
        requires
            old(self).ep().wf(),
        ensures
            final(self).ep() == old(self).ep(),
            initialized(*old(context), old(self).ep(), *final(context)),
    {
        self.set_aflag(context);
        self.init_ep_context(context);
    }

    /// Clears the add flag 1 and sets the add flag of the endpoint.
    fn set_aflag(&mut self, context: &mut Context)
        requires
            old(self).ep().number() < NUM_OF_ENDPOINTS,
        ensures
            final(self).ep() == old(self).ep(),
            final(context).output_device == old(context).output_device,
            final(context).input.device() == old(context).input.device(),
            (final(context).input is Bit64) == (old(context).input is Bit64),
            final(context).input.control_words() == old(context).input.control_words().update(
                1,
                (old(context).input.control_words()[1] & !(1u64 << 1u64)) | (1u64 << (old(
                    self,
                ).ep().dci() as u64)),
            ),
    {
        let dci: usize = self.calculate_dci() as usize;

        proof {
            context.input.lemma_len();
        }
        context.input.clear_aflag(1);
        context.input.set_aflag(dci);
    }

    /// The index of the endpoint's context in a device context.
    fn calculate_dci(&self) -> (r: u8)
        requires
            self.ep().number() < NUM_OF_ENDPOINTS,
        ensures
            r == self.ep().dci(),
            r < 32,
    {
        let a: u32 = self.ep.endpoint_address as u32;
        let number: u32 = get_bits(a, 0, 3);
        let direction: u32 = if get_bit(a, 7) {
            1
        } else {
            0
        };
        (2 * number + direction) as u8
    }

    /// Writes the fields of the descriptor into the context of the endpoint.
    fn init_ep_context(&mut self, context: &mut Context)
        requires
            old(self).ep().wf(),
        ensures
            final(self).ep() == old(self).ep(),
            final(context).input == old(context).input,
            final(context).output_device.slot == old(context).output_device.slot,
            final(context).output_device.ep_0 == old(context).output_device.ep_0,
            forall|i: int|
                0 <= i < NUM_OF_ENDPOINTS && i != old(self).ep().number()
                    ==> final(context).output_device.ep_inout[i] == old(
                    context,
                ).output_device.ep_inout[i],
            ({
                let index = old(self).ep().number() as int;
                let slot = old(context).output_device.ep_inout[index];
                if old(self).ep().is_input() {
                    &&& final(context).output_device.ep_inout[index].out == slot.out
                    &&& final(context).output_device.ep_inout[index].input@ == initialized_words(
                        slot.input@,
                        old(self).ep(),
                    )
                } else {
                    &&& final(context).output_device.ep_inout[index].input == slot.input
                    &&& final(context).output_device.ep_inout[index].out@ == initialized_words(
                        slot.out@,
                        old(self).ep(),
                    )
                }
            }),
    {
        let ep_ty = self.ep_ty();
        let max_packet_size = self.ep.max_packet_size;
        let interval = self.ep.interval;

        let c = self.ep_context(context);
        proof {
            c.lemma_len();
        }
        c.set_endpoint_type(ep_ty);
        c.set_max_packet_size(max_packet_size);
        c.set_max_burst_size(0);
        c.set_dequeue_cycle_state(CycleBit::new(true));
        c.set_max_primary_streams(0);
        c.set_mult(0);
        c.set_error_count(3);
        c.set_interval(interval);
        proof {
            let before = if self.ep().is_input() {
                old(context).output_device.ep_inout[self.ep().number() as int].input@
            } else {
                old(context).output_device.ep_inout[self.ep().number() as int].out@
            };
            assert(c@ =~= initialized_words(before, self.ep()));
        }
    }

    /// The context of the endpoint in the device context that the
    /// controller keeps.
    fn ep_context<'a>(&mut self, context: &'a mut Context) -> (r: &'a mut context::Endpoint)
        requires
            old(self).ep().number() < NUM_OF_ENDPOINTS,
        ensures
            final(self).ep() == old(self).ep(),
            final(context).input == old(context).input,
            final(context).output_device.slot == old(context).output_device.slot,
            final(context).output_device.ep_0 == old(context).output_device.ep_0,
            ({
                let index = old(self).ep().number() as int;
                let slot = old(context).output_device.ep_inout[index];
                &&& *r == (if old(self).ep().is_input() {
                    slot.input
                } else {
                    slot.out
                })
                &&& final(context).output_device.ep_inout@ == old(
                    context,
                ).output_device.ep_inout@.update(
                    index,
                    if old(self).ep().is_input() {
                        context::EndpointOutIn { input: *final(r), out: slot.out }
                    } else {
                        context::EndpointOutIn { out: *final(r), input: slot.input }
                    },
                )
            }),
    {
        let a: u32 = self.ep.endpoint_address as u32;
        let ep_idx: usize = get_bits(a, 0, 3) as usize;
        let out_input: bool = get_bit(a, 7);
        let context_inout = &mut context.output_device.ep_inout[ep_idx];
        if out_input {
            &mut context_inout.input
        } else {
            &mut context_inout.out
        }
    }

    /// The kind of the endpoint.
    fn ep_ty(&self) -> (r: EndpointType)
        requires
            self.ep().type_number() < 8,
        ensures
            r.spec_as_u8() == self.ep().type_number(),
    {
        let number: u8 = if self.ep.attributes == 0 {
            0
        } else {
            self.ep.attributes + if self.ep.endpoint_address == 0 {
                0
            } else {
                4
            }
        };
        match EndpointType::from_u8(number) {
            Some(ty) => ty,
            None => unreached(),
        }
    }
}

} // verus!
