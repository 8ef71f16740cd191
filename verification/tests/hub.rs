use usb_platform::error::{Error, ErrorKind};
use usb_platform::hub::{
    ChildAccess, ConnectionInfoRequest, ControlOutcome, DescriptorRequest, DeviceDescriptor,
    HubAccess, HubHandle, HubPort, NodeConnectionInfo, DESCRIPTOR_HEADER_SIZE,
    MAX_DESCRIPTOR_LENGTH,
};
use windows_sys::Win32::Devices::Usb::{
    IOCTL_USB_GET_DESCRIPTOR_FROM_NODE_CONNECTION, IOCTL_USB_GET_NODE_CONNECTION_INFORMATION_EX,
    USB_DESCRIPTOR_REQUEST, USB_NODE_CONNECTION_INFORMATION_EX,
};
use windows_sys::Win32::Foundation::{ERROR_ACCESS_DENIED, ERROR_GEN_FAILURE};

fn hub(raw: isize) -> HubHandle {
    HubHandle::by_devinst(HubAccess::Opened(raw)).expect("the channel is open")
}

fn answer(request: &DescriptorRequest, payload: &[u8]) -> DescriptorRequest {
    let mut buffer = request.buffer.clone();
    buffer[DESCRIPTOR_HEADER_SIZE..DESCRIPTOR_HEADER_SIZE + payload.len()]
        .copy_from_slice(payload);
    DescriptorRequest { handle: request.handle, control_code: request.control_code, buffer }
}

#[test]
fn a_hub_is_had_only_where_its_channel_is_open() {
    assert_eq!(HubHandle::by_devinst(HubAccess::NoInterface), None);
    assert_eq!(HubHandle::by_devinst(HubAccess::OpenFailed), None);
    assert_eq!(HubHandle::by_devinst(HubAccess::Opened(0x1f4)).map(|h| h.raw()), Some(0x1f4));
}

#[test]
fn descriptor_request_is_laid_out_byte_for_byte() {
    let request = hub(9).descriptor_request(3, 0x02, 0x01, 0x0409, 18).unwrap();
    assert_eq!(request.handle, 9);
    assert_eq!(request.control_code, IOCTL_USB_GET_DESCRIPTOR_FROM_NODE_CONNECTION);
    let mut expected = vec![3, 0, 0, 0, 0x80, 0x06, 0x01, 0x02, 0x09, 0x04, 18, 0];
    expected.extend([0u8; 18]);
    assert_eq!(request.buffer, expected);
    let request = hub(9).descriptor_request(0x1234_5678, 0xff, 0xfe, 0xabcd, 0x0123).unwrap();
    assert_eq!(
        request.buffer[..DESCRIPTOR_HEADER_SIZE],
        [0x78, 0x56, 0x34, 0x12, 0x80, 0x06, 0xfe, 0xff, 0xcd, 0xab, 0x23, 0x01]
    );
    assert_eq!(request.buffer.len(), DESCRIPTOR_HEADER_SIZE + 0x0123);
    assert!(request.buffer[DESCRIPTOR_HEADER_SIZE..].iter().all(|b| *b == 0));
}

#[test]
fn control_codes_are_those_of_the_system() {
    assert_eq!(hub(1).get_descriptor(1, 1, 0, 0).control_code, 2229264);
    assert_eq!(hub(1).get_descriptor(1, 1, 0, 0).control_code, 0x0022_0410);
    assert_eq!(hub(1).get_node_connection_info(1).control_code, 2229320);
    assert_eq!(hub(1).get_node_connection_info(1).control_code, 0x0022_0448);
    assert_eq!(ERROR_GEN_FAILURE, 31);
}

#[test]
fn descriptor_header_is_what_stands_before_the_data() {
    assert_eq!(DESCRIPTOR_HEADER_SIZE + 1, std::mem::size_of::<USB_DESCRIPTOR_REQUEST>());
    assert_eq!(std::mem::align_of::<USB_DESCRIPTOR_REQUEST>(), 1);
}

#[test]
fn descriptor_request_with_no_room() {
    let request = hub(1).descriptor_request(1, 1, 0, 0, 0).unwrap();
    assert_eq!(request.buffer, vec![1, 0, 0, 0, 0x80, 0x06, 0, 1, 0, 0, 0, 0]);
    assert_eq!(request.finish(ControlOutcome::Done { bytes_returned: 30 }), Ok(vec![]));
}

#[test]
fn requests_above_the_ceiling_are_refused() {
    assert_eq!(MAX_DESCRIPTOR_LENGTH, 4095);
    let h = hub(1);
    assert!(h.descriptor_request(1, 1, 0, 0, 4095).is_ok());
    assert_eq!(h.descriptor_request(1, 1, 0, 0, 4096), Err(Error::LengthTooLarge));
    assert_eq!(h.descriptor_request(1, 1, 0, 0, 65535), Err(Error::LengthTooLarge));
    assert_eq!(h.descriptor_request(1, 1, 0, 0, 65536 + 18), Err(Error::LengthTooLarge));
    assert_eq!(h.descriptor_request(1, 1, 0, 0, usize::MAX), Err(Error::LengthTooLarge));
    assert_eq!(Error::LengthTooLarge.kind(), ErrorKind::InvalidInput);
}

#[test]
fn get_descriptor_asks_for_as_much_as_one_request_may() {
    let request = hub(5).get_descriptor(2, 0x03, 0x02, 0x0409);
    assert_eq!(request.handle, 5);
    assert_eq!(request.control_code, IOCTL_USB_GET_DESCRIPTOR_FROM_NODE_CONNECTION);
    assert_eq!(request.buffer.len(), DESCRIPTOR_HEADER_SIZE + 4095);
    assert_eq!(
        request.buffer[..DESCRIPTOR_HEADER_SIZE],
        [2, 0, 0, 0, 0x80, 0x06, 0x02, 0x03, 0x09, 0x04, 0xff, 0x0f]
    );
    assert_eq!(request, hub(5).descriptor_request(2, 0x03, 0x02, 0x0409, 4095).unwrap());
}

#[test]
fn the_descriptor_is_what_was_written_behind_the_header() {
    let h = hub(1);
    let payload: Vec<u8> = (1..=18).collect();
    let sent = h.get_descriptor(1, 1, 0, 0);
    let got = answer(&sent, &payload).finish(ControlOutcome::Done { bytes_returned: 12 + 18 });
    assert_eq!(got, Ok(payload.clone()));
    let got = answer(&sent, &payload).finish(ControlOutcome::Done { bytes_returned: 12 + 4 });
    assert_eq!(got, Ok(vec![1, 2, 3, 4]));
    let got = answer(&sent, &payload).finish(ControlOutcome::Done { bytes_returned: 13 });
    assert_eq!(got, Ok(vec![1]));
}

#[test]
fn an_answer_that_ends_within_the_header_holds_no_descriptor() {
    let h = hub(1);
    let sent = h.get_descriptor(1, 1, 0, 0);
    for bytes_returned in [0, 1, 4, 11, 12] {
        let got = answer(&sent, &[7; 18]).finish(ControlOutcome::Done { bytes_returned });
        assert_eq!(got, Ok(vec![]), "{bytes_returned}");
    }
}

#[test]
fn an_answer_is_never_read_past_the_buffer() {
    let h = hub(1);
    let sent = h.descriptor_request(1, 1, 0, 0, 8).unwrap();
    let filled = answer(&sent, &[1, 2, 3, 4, 5, 6, 7, 8]);
    assert_eq!(
        filled.finish(ControlOutcome::Done { bytes_returned: 20 }),
        Ok(vec![1, 2, 3, 4, 5, 6, 7, 8])
    );
    for bytes_returned in [21, 4107, 65536, u32::MAX] {
        let filled = answer(&sent, &[1, 2, 3, 4, 5, 6, 7, 8]);
        assert_eq!(
            filled.finish(ControlOutcome::Done { bytes_returned }),
            Ok(vec![1, 2, 3, 4, 5, 6, 7, 8]),
            "{bytes_returned}"
        );
    }
    for len in 0..=12 {
        let short = DescriptorRequest { handle: 1, control_code: 0, buffer: vec![9; len] };
        assert_eq!(short.finish(ControlOutcome::Done { bytes_returned: 100 }), Ok(vec![]));
    }
    let one = DescriptorRequest { handle: 1, control_code: 0, buffer: vec![9; 13] };
    assert_eq!(one.finish(ControlOutcome::Done { bytes_returned: 100 }), Ok(vec![9]));
}

#[test]
fn a_general_failure_means_a_suspended_device() {
    let h = hub(1);
    let failed = h.get_descriptor(1, 1, 0, 0).finish(ControlOutcome::Failed {
        status: ERROR_GEN_FAILURE,
    });
    assert_eq!(failed, Err(Error::DeviceSuspended));
    assert_eq!(Error::DeviceSuspended.kind(), ErrorKind::Status);
    let failed = h.get_descriptor(1, 1, 0, 0).finish(ControlOutcome::Failed { status: 31 });
    assert_eq!(failed, Err(Error::DeviceSuspended));
}

#[test]
fn other_failures_carry_their_status() {
    let h = hub(1);
    for status in [0, 1, ERROR_ACCESS_DENIED, 30, 32, 87, u32::MAX] {
        let failed = h.get_descriptor(1, 1, 0, 0).finish(ControlOutcome::Failed { status });
        assert_eq!(failed, Err(Error::Os(status)));
    }
    assert_eq!(Error::Os(5).kind(), ErrorKind::Status);
}

#[test]
fn connection_query_is_the_port_and_zeros() {
    let request = hub(77).get_node_connection_info(0x0102_0304);
    assert_eq!(request.handle, 77);
    assert_eq!(request.control_code, IOCTL_USB_GET_NODE_CONNECTION_INFORMATION_EX);
    assert_eq!(request.buffer.len(), std::mem::size_of::<USB_NODE_CONNECTION_INFORMATION_EX>());
    assert_eq!(request.buffer.len(), 46);
    assert_eq!(request.buffer[..4], [4, 3, 2, 1]);
    assert!(request.buffer[4..].iter().all(|b| *b == 0));
}

fn connection_answer() -> Vec<u8> {
    vec![
        2, 0, 0, 0, // connection index
        18, 1, 0x10, 0x02, 0xef, 0x02, 0x01, 64, // descriptor: length .. max packet size
        0x6b, 0x1d, 0x04, 0x01, 0x10, 0x05, // vendor, product, version
        1, 2, 3, 1, // string indices, configurations
        1, // current configuration
        2, // speed
        0, // hub
        9, 0, // address
        3, 0, 0, 0, // open pipes
        1, 0, 0, 0, // status
        7, 5, 0x81, 3, 8, 0, 10, 0, 0, 0, 0, // first pipe
    ]
}

fn expected_info() -> NodeConnectionInfo {
    NodeConnectionInfo {
        connection_index: 2,
        device_descriptor: DeviceDescriptor {
            length: 18,
            descriptor_type: 1,
            usb_version: 0x0210,
            class: 0xef,
            subclass: 2,
            protocol: 1,
            max_packet_size_0: 64,
            vendor_id: 0x1d6b,
            product_id: 0x0104,
            device_version: 0x0510,
            manufacturer_index: 1,
            product_index: 2,
            serial_number_index: 3,
            num_configurations: 1,
        },
        current_configuration_value: 1,
        speed: 2,
        device_is_hub: false,
        device_address: 9,
        number_of_open_pipes: 3,
        connection_status: 1,
    }
}

#[test]
fn connection_answer_is_read_field_by_field() {
    let bytes = connection_answer();
    assert_eq!(bytes.len(), 46);
    let request = ConnectionInfoRequest { handle: 1, control_code: 0, buffer: bytes.clone() };
    assert_eq!(request.finish(ControlOutcome::Done { bytes_returned: 46 }), Ok(expected_info()));
    let mut hub_bytes = bytes.clone();
    hub_bytes[24] = 1;
    hub_bytes[27..31].copy_from_slice(&[0xff, 0xff, 0xff, 0xff]);
    hub_bytes[31..35].copy_from_slice(&[0x78, 0x56, 0x34, 0x12]);
    let request = ConnectionInfoRequest { handle: 1, control_code: 0, buffer: hub_bytes };
    let info = request.finish(ControlOutcome::Done { bytes_returned: 0 }).unwrap();
    assert!(info.device_is_hub);
    assert_eq!(info.number_of_open_pipes, u32::MAX);
    assert_eq!(info.connection_status, 0x1234_5678);
}

#[test]
fn connection_answer_that_is_short_reads_as_zeros() {
    let bytes = connection_answer();
    let request = ConnectionInfoRequest { handle: 1, control_code: 0, buffer: bytes[..26].to_vec() };
    let info = request.finish(ControlOutcome::Done { bytes_returned: 26 }).unwrap();
    let mut expected = expected_info();
    expected.device_address = 9;
    expected.number_of_open_pipes = 0;
    expected.connection_status = 0;
    assert_eq!(info, expected);
    let request = ConnectionInfoRequest { handle: 1, control_code: 0, buffer: vec![] };
    let info = request.finish(ControlOutcome::Done { bytes_returned: 0 }).unwrap();
    assert_eq!(info.connection_index, 0);
    assert_eq!(info.device_descriptor.vendor_id, 0);
    let unanswered = hub(1).get_node_connection_info(6);
    let info = unanswered.finish(ControlOutcome::Done { bytes_returned: 46 }).unwrap();
    assert_eq!(info.connection_index, 6);
    assert_eq!(info.device_descriptor.length, 0);
}

#[test]
fn connection_query_that_is_refused_carries_the_status() {
    for status in [5, 31, 1167] {
        let request = hub(1).get_node_connection_info(1);
        assert_eq!(request.finish(ControlOutcome::Failed { status }), Err(Error::Os(status)));
    }
}

#[test]
fn a_port_needs_a_parent_an_open_hub_and_a_number() {
    let port = HubPort::by_child_devinst(ChildAccess {
        parent: Some(HubAccess::Opened(12)),
        port_number: Some(4),
    })
    .unwrap();
    assert_eq!(port.port_number(), 4);
    assert_eq!(port.hub_handle().raw(), 12);

    let no_parent = ChildAccess { parent: None, port_number: Some(4) };
    assert_eq!(HubPort::by_child_devinst(no_parent), Err(Error::NoParentHub));
    assert_eq!(Error::NoParentHub.kind(), ErrorKind::Structure);
    let nothing = ChildAccess { parent: None, port_number: None };
    assert_eq!(HubPort::by_child_devinst(nothing), Err(Error::NoParentHub));

    for parent in [HubAccess::NoInterface, HubAccess::OpenFailed] {
        for port_number in [Some(4), None] {
            let closed = ChildAccess { parent: Some(parent), port_number };
            assert_eq!(HubPort::by_child_devinst(closed), Err(Error::HubUnavailable));
        }
    }
    assert_eq!(Error::HubUnavailable.kind(), ErrorKind::Io);

    let no_number = ChildAccess { parent: Some(HubAccess::Opened(12)), port_number: None };
    assert_eq!(HubPort::by_child_devinst(no_number), Err(Error::NotConnected));
    assert_eq!(Error::NotConnected.kind(), ErrorKind::Structure);
}

#[test]
fn a_port_asks_its_hub_about_itself() {
    let port = HubPort::by_child_devinst(ChildAccess {
        parent: Some(HubAccess::Opened(12)),
        port_number: Some(4),
    })
    .unwrap();
    assert_eq!(port.get_node_connection_info(), hub(12).get_node_connection_info(4));
    assert_eq!(port.get_descriptor(1, 0, 0), hub(12).get_descriptor(4, 1, 0, 0));
    assert_eq!(port.get_descriptor(3, 2, 0x0409), hub(12).get_descriptor(4, 3, 2, 0x0409));
    assert_ne!(port.get_descriptor(3, 2, 0x0409), hub(12).get_descriptor(5, 3, 2, 0x0409));
    assert_ne!(port.get_descriptor(3, 2, 0x0409), hub(13).get_descriptor(4, 3, 2, 0x0409));
}
