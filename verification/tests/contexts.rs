use ringcore::addr::PhysAddr;
use ringcore::context::{
    Context, ControlMut, Device, Endpoint, EndpointOutIn, EndpointType, Input, InputControl,
    InputControl32Bit, InputControl64Bit, InputWithControl32Bit, InputWithControl64Bit, Slot,
};
use ringcore::endpoint;
use ringcore::descriptor;
use ringcore::descriptor::Endpoint as Descriptor;
use ringcore::descriptor::Interface;
use ringcore::endpoint::ContextInitializer;
use ringcore::fully_operational;
use ringcore::fully_operational::FullyOperational;
use ringcore::ring::CycleBit;

/// Builds the context that has the given words, with the public setters.
fn endpoint_with(word0: (u8, u8, u8), word1: (u8, EndpointType, u8, u16), cycle: bool) -> Endpoint {
    let mut c = Endpoint::null();
    c.set_mult(word0.0);
    c.set_max_primary_streams(word0.1);
    c.set_interval(word0.2);
    c.set_error_count(word1.0);
    c.set_endpoint_type(word1.1);
    c.set_max_burst_size(word1.2);
    c.set_max_packet_size(word1.3);
    c.set_dequeue_cycle_state(CycleBit::new(cycle));
    c
}

#[test]
fn kinds_of_endpoint_have_their_numbers() {
    assert_eq!(EndpointType::Control.as_u8(), 4);
    assert_eq!(EndpointType::NotValid.as_u8(), 0);
    assert_eq!(EndpointType::InterruptIn.as_u8(), 7);
    for n in 0..8 {
        assert_eq!(EndpointType::from_u8(n).unwrap().as_u8(), n);
    }
    assert_eq!(EndpointType::from_u8(8), None);
    assert_eq!(EndpointType::from_u8(255), None);
}

#[test]
fn each_setter_writes_its_field() {
    let null = Endpoint::null();
    let mut c = null;
    c.set_endpoint_type(EndpointType::Control);
    assert_eq!(c, endpoint_with((0, 0, 0), (0, EndpointType::Control, 0, 0), false));
    assert_ne!(c, null);
    let mut c = null;
    c.set_max_burst_size(0xab);
    c.set_max_packet_size(0x1234);
    c.set_error_count(3);
    c.set_endpoint_type(EndpointType::InterruptIn);
    let mut d = null;
    d.set_endpoint_type(EndpointType::InterruptIn);
    d.set_error_count(3);
    d.set_max_packet_size(0x1234);
    d.set_max_burst_size(0xab);
    assert_eq!(c, d);
    // Writing a field again replaces it.
    d.set_max_burst_size(0);
    d.set_max_burst_size(0xab);
    assert_eq!(c, d);
    d.set_max_burst_size(0xac);
    assert_ne!(c, d);
}

#[test]
fn the_dequeue_pointer_keeps_the_cycle_state() {
    let mut with_state = Endpoint::null();
    with_state.set_dequeue_cycle_state(CycleBit::new(true));
    with_state.set_dequeue_ptr(PhysAddr::new(0x1_0000_2340).unwrap());
    let mut state_last = Endpoint::null();
    state_last.set_dequeue_ptr(PhysAddr::new(0x1_0000_2340).unwrap());
    assert_ne!(with_state, state_last);
    state_last.set_dequeue_cycle_state(CycleBit::new(true));
    assert_eq!(with_state, state_last);
}

#[test]
fn null_contexts_are_equal_everywhere() {
    let device = Device::null();
    assert_eq!(device.ep_0, Endpoint::null());
    assert_eq!(device.slot, Slot::null());
    for pair in device.ep_inout {
        assert_eq!(pair, EndpointOutIn::null());
        assert_eq!(pair.out, Endpoint::null());
        assert_eq!(pair.input, Endpoint::null());
    }
    assert_eq!(InputWithControl32Bit::null().device, device);
    assert_eq!(InputWithControl64Bit::null().device, device);
    assert_eq!(InputWithControl32Bit::null().control, InputControl32Bit::null());
    assert_eq!(InputWithControl64Bit::null().control, InputControl64Bit::null());
    assert_eq!(Context::new(false).input, Input::Bit32(InputWithControl32Bit::null()));
    assert_eq!(Context::new(true).input, Input::Bit64(InputWithControl64Bit::null()));
    assert_eq!(Context::new(true).output_device, device);
    assert_eq!(Input::null(true), Input::Bit64(InputWithControl64Bit::null()));
}

#[test]
fn slot_fields() {
    let mut slot = Slot::null();
    slot.set_context_entries(31);
    slot.set_root_hub_port_number(4);
    let mut other = Slot::null();
    other.set_root_hub_port_number(4);
    assert_ne!(slot, other);
    other.set_context_entries(31);
    assert_eq!(slot, other);
    // Only five bits fit.
    other.set_context_entries(0xff);
    assert_eq!(slot, other);
    other.set_context_entries(0xfe);
    assert_ne!(slot, other);
}

#[test]
fn add_flags_are_set_and_cleared() {
    let mut c = InputControl32Bit::null();
    c.set_aflag(0);
    c.set_aflag(31);
    let mut d = InputControl32Bit::null();
    d.set_aflag(31);
    assert_ne!(c, d);
    c.clear_aflag(0);
    assert_eq!(c, d);
    let mut wide = InputControl64Bit::null();
    wide.set_aflag(63);
    assert_ne!(wide, InputControl64Bit::null());
    wide.clear_aflag(63);
    assert_eq!(wide, InputControl64Bit::null());
}

#[test]
fn the_parts_of_an_input_context_are_written_apart() {
    let mut input = Input::null(false);
    match input.control_mut() {
        ControlMut::Bit32(c) => c.set_aflag(3),
        ControlMut::Bit64(_) => panic!("a 32-byte context has a 32-bit control part"),
    }
    input.device_mut().ep_0.set_interval(9);
    let mut control = InputControl32Bit::null();
    control.set_aflag(3);
    let mut device = Device::null();
    device.ep_0.set_interval(9);
    assert_eq!(input, Input::Bit32(InputWithControl32Bit { control, device }));

    let mut input = Input::null(true);
    input.set_aflag(40);
    input.set_aflag(1);
    input.clear_aflag(1);
    let mut control = InputControl64Bit::null();
    control.set_aflag(40);
    assert_eq!(input, Input::Bit64(InputWithControl64Bit { control, device: Device::null() }));
    assert!(matches!(input.control_mut(), ControlMut::Bit64(_)));
}

#[test]
fn an_endpoint_is_set_up_from_its_descriptor() {
    // Endpoint 2, towards the host, interrupt transfers.
    let desc =
        Descriptor { endpoint_address: 0x82, attributes: 3, max_packet_size: 8, interval: 10 };
    let mut cx = Context::new(false);
    endpoint::Endpoint::new(desc).init_context(&mut cx);

    let mut control = InputControl32Bit::null();
    control.set_aflag(5);
    assert_eq!(
        cx.input,
        Input::Bit32(InputWithControl32Bit { control, device: Device::null() })
    );
    let expected = endpoint_with((0, 0, 10), (3, EndpointType::InterruptIn, 0, 8), true);
    for (i, pair) in cx.output_device.ep_inout.iter().enumerate() {
        if i == 2 {
            assert_eq!(pair.input, expected);
            assert_eq!(pair.out, Endpoint::null());
        } else {
            assert_eq!(*pair, EndpointOutIn::null());
        }
    }
    assert_eq!(cx.output_device.ep_0, Endpoint::null());
}

#[test]
fn an_endpoint_from_the_host_gets_the_out_context() {
    let desc =
        Descriptor { endpoint_address: 0x01, attributes: 2, max_packet_size: 512, interval: 0 };
    let mut cx = Context::new(true);
    let mut first = Input::null(true);
    first.set_aflag(1);
    cx.input = first;
    ContextInitializer::new(&desc).init(&mut cx);
    // The add flag 1 is cleared, that of the endpoint is set.
    let mut control = InputControl64Bit::null();
    control.set_aflag(2);
    assert_eq!(
        cx.input,
        Input::Bit64(InputWithControl64Bit { control, device: Device::null() })
    );
    let expected = endpoint_with((0, 0, 0), (3, EndpointType::BulkIn, 0, 512), true);
    assert_eq!(cx.output_device.ep_inout[1].out, expected);
    assert_eq!(cx.output_device.ep_inout[1].input, Endpoint::null());
}

#[test]
fn a_device_is_known_by_its_first_interface() {
    let keyboard = Interface { class: 3, subclass: 1, protocol: 1 };
    let other = Interface { class: 8, subclass: 6, protocol: 0x50 };
    let interrupt_in =
        Descriptor { endpoint_address: 0x81, attributes: 3, max_packet_size: 8, interval: 10 };
    let bulk_out =
        Descriptor { endpoint_address: 0x02, attributes: 2, max_packet_size: 512, interval: 0 };
    let device = FullyOperational::new(
        vec![
            descriptor::Descriptor::Device,
            descriptor::Descriptor::Configuration,
            descriptor::Descriptor::Interface(keyboard),
            descriptor::Descriptor::Endpoint(interrupt_in),
            descriptor::Descriptor::Interface(other),
            descriptor::Descriptor::Endpoint(bulk_out),
        ],
        vec![endpoint::Endpoint::new(bulk_out), endpoint::Endpoint::new(interrupt_in)],
    );
    assert_eq!(device.ty(), (3, 1, 1));
    assert_eq!(keyboard.ty(), (3, 1, 1));
    assert_eq!(device.descriptors().len(), 6);
    assert_eq!(device.descriptors()[3], descriptor::Descriptor::Endpoint(interrupt_in));
    assert_eq!(endpoint::Endpoint::new(interrupt_in).ty(), EndpointType::InterruptIn);
    assert_eq!(endpoint::Endpoint::new(bulk_out).ty(), EndpointType::BulkIn);
    assert_eq!(device.endpoint_of_type(EndpointType::InterruptIn), Ok(1));
    assert_eq!(device.endpoint_of_type(EndpointType::BulkIn), Ok(0));
    assert_eq!(
        device.endpoint_of_type(EndpointType::Control),
        Err(fully_operational::Error::NoSuchEndpoint(EndpointType::Control))
    );
}
