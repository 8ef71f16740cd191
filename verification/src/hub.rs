//! Queries to a hub about the device on one of its ports.
//!
//! The hub is reached through a control channel that the caller holds
//! open. This module decides what is sent through the channel and what the
//! answer means: it lays out each request's buffer byte for byte, and
//! reads the answer out of the same buffer without ever looking past its
//! end. Sending the request is the caller's part.

use vstd::prelude::*;
use crate::error::Error;

verus! {

/// The most descriptor bytes that one request may ask for. Hubs have been
/// seen to refuse longer requests for descriptors that they do not hold
/// ready.
pub const MAX_DESCRIPTOR_LENGTH: usize = 4095;

/// The size of what stands in a descriptor request before the descriptor's
/// bytes: the port and the setup packet.
pub const DESCRIPTOR_HEADER_SIZE: usize = 12;

/// The status `ERROR_GEN_FAILURE` of `windows_sys`, which is 31.
#[verifier::external_body]
fn general_failure_status() -> (r: u32)
    ensures
        r == 31,
{
    windows_sys::Win32::Foundation::ERROR_GEN_FAILURE
}

/// The control code `IOCTL_USB_GET_DESCRIPTOR_FROM_NODE_CONNECTION` of
/// `windows_sys`, which is 2229264.
#[verifier::external_body]
fn descriptor_control_code() -> (r: u32)
    ensures
        r == 2229264,
{
    windows_sys::Win32::Devices::Usb::IOCTL_USB_GET_DESCRIPTOR_FROM_NODE_CONNECTION
}

/// The control code `IOCTL_USB_GET_NODE_CONNECTION_INFORMATION_EX` of
/// `windows_sys`, which is 2229320.
#[verifier::external_body]
fn connection_info_control_code() -> (r: u32)
    ensures
        r == 2229320,
{
    windows_sys::Win32::Devices::Usb::IOCTL_USB_GET_NODE_CONNECTION_INFORMATION_EX
}

/// The size in bytes of `USB_NODE_CONNECTION_INFORMATION_EX` of
/// `windows_sys`, a packed structure whose fields take 46 bytes together.
#[verifier::external_body]
fn connection_info_size() -> (r: usize)
    ensures
        r == 46,
{
    core::mem::size_of::<windows_sys::Win32::Devices::Usb::USB_NODE_CONNECTION_INFORMATION_EX>()
}

/// The two bytes of `x`, the low one first.
pub open spec fn le16(x: u16) -> Seq<u8> {
    seq![(x % 256) as u8, (x / 256) as u8]
}

/// The four bytes of `x`, the lowest first.
pub open spec fn le32(x: u32) -> Seq<u8> {
    seq![
        (x % 256) as u8,
        (x / 256 % 256) as u8,
        (x / 65536 % 256) as u8,
        (x / 16777216) as u8,
    ]
}

/// `n` zero bytes.
pub open spec fn zeros(n: nat) -> Seq<u8> {
    Seq::new(n, |i: int| 0u8)
}

/// The value field of the setup packet that asks for a descriptor: its
/// type in the high byte, its index in the low byte.
pub open spec fn descriptor_value(descriptor_type: u8, descriptor_index: u8) -> u16 {
    (descriptor_type * 256 + descriptor_index) as u16
}

/// The header of a descriptor request: the port, then the setup packet of
/// a standard device-to-host `GET_DESCRIPTOR` request.
pub open spec fn descriptor_header(
    port_number: u32,
    descriptor_type: u8,
    descriptor_index: u8,
    language_id: u16,
    length: u16,
) -> Seq<u8> {
    le32(port_number) + seq![0x80u8, 0x06u8] + le16(
        descriptor_value(descriptor_type, descriptor_index),
    ) + le16(language_id) + le16(length)
}

/// The buffer of a descriptor request: the header, then room for as many
/// bytes as are asked for.
pub open spec fn descriptor_frame(
    port_number: u32,
    descriptor_type: u8,
    descriptor_index: u8,
    language_id: u16,
    length: u16,
) -> Seq<u8> {
    descriptor_header(port_number, descriptor_type, descriptor_index, language_id, length)
        + zeros(length as nat)
}

/// The descriptor bytes in an answer of which the system says that it
/// wrote `bytes_returned` bytes, header included: what follows the header,
/// as far as was written and as far as the buffer goes.
pub open spec fn descriptor_payload(buffer: Seq<u8>, bytes_returned: u32) -> Seq<u8> {
    let room = if buffer.len() > DESCRIPTOR_HEADER_SIZE {
        buffer.len() - DESCRIPTOR_HEADER_SIZE
    } else {
        0
    };
    let written = if bytes_returned > DESCRIPTOR_HEADER_SIZE {
        bytes_returned - DESCRIPTOR_HEADER_SIZE
    } else {
        0
    };
    let n = if written < room {
        written
    } else {
        room
    };
    if n == 0 {
        Seq::empty()
    } else {
        buffer.subrange(DESCRIPTOR_HEADER_SIZE as int, DESCRIPTOR_HEADER_SIZE + n)
    }
}

/// The buffer of a connection query: the port, then zeros up to the size
/// of the answer.
pub open spec fn connection_info_frame(port_number: u32) -> Seq<u8> {
    le32(port_number) + zeros(42)
}

/// What a failure status of a descriptor request means.
pub open spec fn descriptor_failure(status: u32) -> Error {
    if status == 31 {
        Error::DeviceSuspended
    } else {
        Error::Os(status)
    }
}

/// How a request through the control channel ended.
#[derive(Clone, Copy, Debug, PartialEq, Eq, Structural)]
pub enum ControlOutcome {
    /// The system carried the request out and wrote this many bytes into
    /// the buffer.
    Done { bytes_returned: u32 },
    /// The system refused the request, with this status.
    Failed { status: u32 },
}

/// A request for a descriptor, ready to be sent.
#[derive(Debug, PartialEq, Eq)]
pub struct DescriptorRequest {
    /// The channel to send it through.
    pub handle: isize,
    /// The control code to send it under.
    pub control_code: u32,
    /// What is sent, and where the answer is written.
    pub buffer: Vec<u8>,
}

/// A query for what is connected to a port, ready to be sent.
#[derive(Debug, PartialEq, Eq)]
pub struct ConnectionInfoRequest {
    /// The channel to send it through.
    pub handle: isize,
    /// The control code to send it under.
    pub control_code: u32,
    /// What is sent, and where the answer is written.
    pub buffer: Vec<u8>,
}

fn push_le16(buffer: &mut Vec<u8>, x: u16)
    ensures
        final(buffer)@ == old(buffer)@ + le16(x),
{
    buffer.push((x % 256) as u8);
    buffer.push((x / 256) as u8);
    assert(buffer@ =~= old(buffer)@ + le16(x));
}

fn push_le32(buffer: &mut Vec<u8>, x: u32)
    ensures
        final(buffer)@ == old(buffer)@ + le32(x),
{
    buffer.push((x % 256) as u8);
    buffer.push((x / 256 % 256) as u8);
    buffer.push((x / 65536 % 256) as u8);
    buffer.push((x / 16777216) as u8);
    assert(buffer@ =~= old(buffer)@ + le32(x));
}

fn push_zeros(buffer: &mut Vec<u8>, n: usize)
    ensures
        final(buffer)@ == old(buffer)@ + zeros(n as nat),
{
    let mut i: usize = 0;
    assert(buffer@ =~= old(buffer)@ + zeros(0));
    while i < n
        invariant
            i <= n,
            buffer@ == old(buffer)@ + zeros(i as nat),
        decreases n - i,
    {
        buffer.push(0u8);
        i += 1;
        assert(buffer@ =~= old(buffer)@ + zeros(i as nat));
    }
}

impl DescriptorRequest {
    /// Reads the answer to the request.
    ///
    /// Where the system carried the request out, the descriptor is what
    /// follows the header in the buffer, as far as the system says it
    /// wrote and never past the end of the buffer: an answer that is said
    /// to end within the header holds no descriptor bytes. Where it
    /// refused, a general failure is taken to mean a suspended device,
    /// and any other status is handed on.
    pub fn finish(self, outcome: ControlOutcome) -> (r: Result<Vec<u8>, Error>)
        ensures
            match outcome {
                ControlOutcome::Done { bytes_returned } => r matches Ok(bytes) && bytes@
                    == descriptor_payload(self.buffer@, bytes_returned),
                ControlOutcome::Failed { status } => r == Err::<Vec<u8>, Error>(
                    descriptor_failure(status),
                ),
            },
    {
        match outcome {
            ControlOutcome::Failed { status } => {
                if status == general_failure_status() {
                    Err(Error::DeviceSuspended)
                } else {
                    Err(Error::Os(status))
                }
            },
            ControlOutcome::Done { bytes_returned } => {
                let room: usize = if self.buffer.len() > DESCRIPTOR_HEADER_SIZE {
                    self.buffer.len() - DESCRIPTOR_HEADER_SIZE
                } else {
                    0
                };
                let written: usize = if bytes_returned as usize > DESCRIPTOR_HEADER_SIZE {
                    bytes_returned as usize - DESCRIPTOR_HEADER_SIZE
                } else {
                    0
                };
                let n: usize = if written < room {
                    written
                } else {
                    room
                };
                let mut bytes: Vec<u8> = Vec::new();
                if n == 0 {
                    return Ok(bytes);
                }
                let mut i: usize = 0;
                assert(bytes@ =~= self.buffer@.subrange(
                    DESCRIPTOR_HEADER_SIZE as int,
                    DESCRIPTOR_HEADER_SIZE + i,
                ));
                while i < n
                    invariant
                        i <= n,
                        DESCRIPTOR_HEADER_SIZE + n <= self.buffer@.len() <= usize::MAX,
                        bytes@ == self.buffer@.subrange(
                            DESCRIPTOR_HEADER_SIZE as int,
                            DESCRIPTOR_HEADER_SIZE + i,
                        ),
                    decreases n - i,
                {
                    bytes.push(self.buffer[DESCRIPTOR_HEADER_SIZE + i]);
                    i += 1;
                    assert(bytes@ =~= self.buffer@.subrange(
                        DESCRIPTOR_HEADER_SIZE as int,
                        DESCRIPTOR_HEADER_SIZE + i,
                    ));
                }
                Ok(bytes)
            },
        }
    }
}

/// The byte at `at` of an answer. Past the end of the buffer an answer
/// reads as zeros, which is what the buffer held before the request.
pub open spec fn byte_at(buffer: Seq<u8>, at: int) -> u8 {
    if 0 <= at < buffer.len() {
        buffer[at]
    } else {
        0
    }
}

/// The 16-bit number at `at` of an answer, low byte first.
pub open spec fn u16_at(buffer: Seq<u8>, at: int) -> u16 {
    (byte_at(buffer, at) + byte_at(buffer, at + 1) * 256) as u16
}

/// The 32-bit number at `at` of an answer, lowest byte first.
pub open spec fn u32_at(buffer: Seq<u8>, at: int) -> u32 {
    (byte_at(buffer, at) + byte_at(buffer, at + 1) * 256 + byte_at(buffer, at + 2) * 65536
        + byte_at(buffer, at + 3) * 16777216) as u32
}

fn read_u8(buffer: &Vec<u8>, at: usize) -> (r: u8)
    ensures
        r == byte_at(buffer@, at as int),
{
    if at < buffer.len() {
        buffer[at]
    } else {
        0
    }
}

fn read_u16(buffer: &Vec<u8>, at: usize) -> (r: u16)
    requires
        at < 0x1000,
    ensures
        r == u16_at(buffer@, at as int),
{
    read_u8(buffer, at) as u16 + read_u8(buffer, at + 1) as u16 * 256
}

fn read_u32(buffer: &Vec<u8>, at: usize) -> (r: u32)
    requires
        at < 0x1000,
    ensures
        r == u32_at(buffer@, at as int),
{
    read_u8(buffer, at) as u32 + read_u8(buffer, at + 1) as u32 * 256 + read_u8(
        buffer,
        at + 2,
    ) as u32 * 65536 + read_u8(buffer, at + 3) as u32 * 16777216
}

/// The device descriptor, as a hub holds it for a connected device.
#[derive(Clone, Copy, Debug, PartialEq, Eq, Structural)]
pub struct DeviceDescriptor {
    pub length: u8,
    pub descriptor_type: u8,
    pub usb_version: u16,
    pub class: u8,
    pub subclass: u8,
    pub protocol: u8,
    pub max_packet_size_0: u8,
    pub vendor_id: u16,
    pub product_id: u16,
    pub device_version: u16,
    pub manufacturer_index: u8,
    pub product_index: u8,
    pub serial_number_index: u8,
    pub num_configurations: u8,
}

/// What a hub says of one of its ports.
#[derive(Clone, Copy, Debug, PartialEq, Eq, Structural)]
pub struct NodeConnectionInfo {
    pub connection_index: u32,
    pub device_descriptor: DeviceDescriptor,
    pub current_configuration_value: u8,
    pub speed: u8,
    pub device_is_hub: bool,
    pub device_address: u16,
    pub number_of_open_pipes: u32,
    pub connection_status: u32,
}

/// What the bytes of an answer to a connection query say, field by field
/// in the packed layout of the system's structure.
pub open spec fn connection_info(buffer: Seq<u8>) -> NodeConnectionInfo {
    NodeConnectionInfo {
        connection_index: u32_at(buffer, 0),
        device_descriptor: DeviceDescriptor {
            length: byte_at(buffer, 4),
            descriptor_type: byte_at(buffer, 5),
            usb_version: u16_at(buffer, 6),
            class: byte_at(buffer, 8),
            subclass: byte_at(buffer, 9),
            protocol: byte_at(buffer, 10),
            max_packet_size_0: byte_at(buffer, 11),
            vendor_id: u16_at(buffer, 12),
            product_id: u16_at(buffer, 14),
            device_version: u16_at(buffer, 16),
            manufacturer_index: byte_at(buffer, 18),
            product_index: byte_at(buffer, 19),
            serial_number_index: byte_at(buffer, 20),
            num_configurations: byte_at(buffer, 21),
        },
        current_configuration_value: byte_at(buffer, 22),
        speed: byte_at(buffer, 23),
        device_is_hub: byte_at(buffer, 24) != 0,
        device_address: u16_at(buffer, 25),
        number_of_open_pipes: u32_at(buffer, 27),
        connection_status: u32_at(buffer, 31),
    }
}

impl ConnectionInfoRequest {
    /// Reads the answer to the query: the fields of the answer where the
    /// system carried the query out, its status where it refused.
    pub fn finish(self, outcome: ControlOutcome) -> (r: Result<NodeConnectionInfo, Error>)
        ensures
            r == match outcome {
                ControlOutcome::Done { bytes_returned } => Ok::<NodeConnectionInfo, Error>(
                    connection_info(self.buffer@),
                ),
                ControlOutcome::Failed { status } => Err(Error::Os(status)),
            },
    {
        match outcome {
            ControlOutcome::Failed { status } => Err(Error::Os(status)),
            ControlOutcome::Done { bytes_returned } => {
                let buffer = &self.buffer;
                Ok(
                    NodeConnectionInfo {
                        connection_index: read_u32(buffer, 0),
                        device_descriptor: DeviceDescriptor {
                            length: read_u8(buffer, 4),
                            descriptor_type: read_u8(buffer, 5),
                            usb_version: read_u16(buffer, 6),
                            class: read_u8(buffer, 8),
                            subclass: read_u8(buffer, 9),
                            protocol: read_u8(buffer, 10),
                            max_packet_size_0: read_u8(buffer, 11),
                            vendor_id: read_u16(buffer, 12),
                            product_id: read_u16(buffer, 14),
                            device_version: read_u16(buffer, 16),
                            manufacturer_index: read_u8(buffer, 18),
                            product_index: read_u8(buffer, 19),
                            serial_number_index: read_u8(buffer, 20),
                            num_configurations: read_u8(buffer, 21),
                        },
                        current_configuration_value: read_u8(buffer, 22),
                        speed: read_u8(buffer, 23),
                        device_is_hub: read_u8(buffer, 24) != 0,
                        device_address: read_u16(buffer, 25),
                        number_of_open_pipes: read_u32(buffer, 27),
                        connection_status: read_u32(buffer, 31),
                    },
                )
            },
        }
    }
}

/// What looking for a hub's control channel gave.
#[derive(Clone, Copy, Debug, PartialEq, Eq, Structural)]
pub enum HubAccess {
    /// The hub has no interface through which to reach it.
    NoInterface,
    /// The hub has an interface, and it could not be opened.
    OpenFailed,
    /// The channel is open, under this handle.
    Opened(isize),
}

/// What is known of a device for reaching it through its hub.
#[derive(Clone, Copy, Debug, PartialEq, Eq, Structural)]
pub struct ChildAccess {
    /// What looking for the control channel of the device's parent gave,
    /// or nothing where the device has no parent.
    pub parent: Option<HubAccess>,
    /// The number of the hub's port that the device is on, where the
    /// device has that property.
    pub port_number: Option<u32>,
}

/// An open control channel to a hub.
#[derive(Debug, PartialEq, Eq)]
pub struct HubHandle(isize);

impl HubHandle {
    /// The handle of the channel.
    pub closed spec fn handle(self) -> isize {
        self.0
    }

    /// The handle of the channel.
    pub fn raw(&self) -> (r: isize)
        ensures
            r == self.handle(),
    {
        self.0
    }

    /// The channel to a hub, where looking for it gave one.
    pub fn by_devinst(devinst: HubAccess) -> (r: Option<HubHandle>)
        ensures
            match devinst {
                HubAccess::Opened(raw) => r matches Some(hub) && hub.handle() == raw,
                _ => r is None,
            },
    {
        match devinst {
            HubAccess::Opened(raw) => Some(HubHandle(raw)),
            _ => None,
        }
    }

    /// The query for what is connected to the port `port_number`.
    pub fn get_node_connection_info(&self, port_number: u32) -> (r: ConnectionInfoRequest)
        ensures
            r.handle == self.handle(),
            r.control_code == 2229320,
            r.buffer@ == connection_info_frame(port_number),
    {
        let size = connection_info_size();
        let mut buffer: Vec<u8> = Vec::new();
        push_le32(&mut buffer, port_number);
        push_zeros(&mut buffer, size - 4);
        assert(buffer@ =~= connection_info_frame(port_number));
        let control_code = connection_info_control_code();
        ConnectionInfoRequest { handle: self.0, control_code, buffer }
    }

    /// Lays out the request for `length` bytes of a descriptor.
    fn frame_descriptor_request(
        &self,
        port_number: u32,
        descriptor_type: u8,
        descriptor_index: u8,
        language_id: u16,
        length: u16,
    ) -> (r: DescriptorRequest)
        ensures
            r.handle == self.handle(),
            r.control_code == 2229264,
            r.buffer@ == descriptor_frame(
                port_number,
                descriptor_type,
                descriptor_index,
                language_id,
                length,
            ),
    {
        let value: u16 = descriptor_type as u16 * 256 + descriptor_index as u16;
        let mut buffer: Vec<u8> = Vec::new();
        push_le32(&mut buffer, port_number);
        buffer.push(0x80);
        buffer.push(0x06);
        push_le16(&mut buffer, value);
        push_le16(&mut buffer, language_id);
        push_le16(&mut buffer, length);
        push_zeros(&mut buffer, length as usize);
        assert(buffer@ =~= descriptor_frame(
            port_number,
            descriptor_type,
            descriptor_index,
            language_id,
            length,
        ));
        DescriptorRequest { handle: self.0, control_code: descriptor_control_code(), buffer }
    }

    /// The request for `length` bytes of a descriptor of the device on the
    /// port `port_number`. A request for more than
    /// [`MAX_DESCRIPTOR_LENGTH`] bytes is refused.
    pub fn descriptor_request(
        &self,
        port_number: u32,
        descriptor_type: u8,
        descriptor_index: u8,
        language_id: u16,
        length: usize,
    ) -> (r: Result<DescriptorRequest, Error>)
        ensures
            match r {
                Ok(request) => {
                    &&& length <= MAX_DESCRIPTOR_LENGTH
                    &&& request.handle == self.handle()
                    &&& request.control_code == 2229264
                    &&& request.buffer@ == descriptor_frame(
                        port_number,
                        descriptor_type,
                        descriptor_index,
                        language_id,
                        length as u16,
                    )
                },
                Err(e) => length > MAX_DESCRIPTOR_LENGTH && e == Error::LengthTooLarge,
            },
    {
        if length > MAX_DESCRIPTOR_LENGTH {
            return Err(Error::LengthTooLarge);
        }
        Ok(
            self.frame_descriptor_request(
                port_number,
                descriptor_type,
                descriptor_index,
                language_id,
                length as u16,
            ),
        )
    }

    /// The request for a descriptor of the device on the port
    /// `port_number`, with room for as many bytes as one request may ask
    /// for.
    pub fn get_descriptor(
        &self,
        port_number: u32,
        descriptor_type: u8,
        descriptor_index: u8,
        language_id: u16,
    ) -> (r: DescriptorRequest)
        ensures
            r.handle == self.handle(),
            r.control_code == 2229264,
            r.buffer@ == descriptor_frame(
                port_number,
                descriptor_type,
                descriptor_index,
                language_id,
                4095,
            ),
    {
        self.frame_descriptor_request(
            port_number,
            descriptor_type,
            descriptor_index,
            language_id,
            MAX_DESCRIPTOR_LENGTH as u16,
        )
    }
}

/// One port of a hub, with the open control channel to the hub.
#[derive(Debug, PartialEq, Eq)]
pub struct HubPort {
    hub_handle: HubHandle,
    port_number: u32,
}

impl HubPort {
    /// The hub that the port is on.
    pub closed spec fn hub(self) -> HubHandle {
        self.hub_handle
    }

    /// The number of the port.
    pub closed spec fn port(self) -> u32 {
        self.port_number
    }

    /// The channel to the hub that the port is on.
    pub fn hub_handle(&self) -> (r: &HubHandle)
        ensures
            *r == self.hub(),
    {
        &self.hub_handle
    }

    /// The number of the port.
    pub fn port_number(&self) -> (r: u32)
        ensures
            r == self.port(),
    {
        self.port_number
    }

    /// The port that a device is on.
    ///
    /// Fails where the device has no parent; else where the parent's
    /// control channel could not be had; else where the device has no port
    /// number.
    pub fn by_child_devinst(devinst: ChildAccess) -> (r: Result<HubPort, Error>)
        ensures
            match devinst.parent {
                None => r == Err::<HubPort, Error>(Error::NoParentHub),
                Some(HubAccess::Opened(raw)) => match devinst.port_number {
                    Some(port_number) => r matches Ok(port) && port.hub().handle() == raw
                        && port.port() == port_number,
                    None => r == Err::<HubPort, Error>(Error::NotConnected),
                },
                Some(_) => r == Err::<HubPort, Error>(Error::HubUnavailable),
            },
    {
        let parent_hub = match devinst.parent {
            Some(parent_hub) => parent_hub,
            None => {
                return Err(Error::NoParentHub);
            },
        };
        let hub_handle = match HubHandle::by_devinst(parent_hub) {
            Some(hub_handle) => hub_handle,
            None => {
                return Err(Error::HubUnavailable);
            },
        };
        let port_number = match devinst.port_number {
            Some(port_number) => port_number,
            None => {
                return Err(Error::NotConnected);
            },
        };
        Ok(HubPort { hub_handle, port_number })
    }

    /// The query for what is connected to the port.
    pub fn get_node_connection_info(&self) -> (r: ConnectionInfoRequest)
        ensures
            r.handle == self.hub().handle(),
            r.control_code == 2229320,
            r.buffer@ == connection_info_frame(self.port()),
    {
        self.hub_handle.get_node_connection_info(self.port_number)
    }

    /// The request for a descriptor of the device on the port.
    pub fn get_descriptor(&self, descriptor_type: u8, descriptor_index: u8, language_id: u16) -> (r:
        DescriptorRequest)
        ensures
            r.handle == self.hub().handle(),
            r.control_code == 2229264,
            r.buffer@ == descriptor_frame(
                self.port(),
                descriptor_type,
                descriptor_index,
                language_id,
                4095,
            ),
    {
        self.hub_handle.get_descriptor(
            self.port_number,
            descriptor_type,
            descriptor_index,
            language_id,
        )
    }
}

/// An answer that is said to end within the header holds no descriptor
/// bytes.
pub proof fn lemma_short_answer_is_empty(buffer: Seq<u8>, bytes_returned: u32)
    requires
        bytes_returned <= DESCRIPTOR_HEADER_SIZE,
    ensures
        descriptor_payload(buffer, bytes_returned).len() == 0,
{
}

/// The descriptor bytes of an answer are bytes of the buffer behind the
/// header, in their order, and no more of them than the system says it
/// wrote there or than the buffer holds.
pub proof fn lemma_payload_within_buffer(buffer: Seq<u8>, bytes_returned: u32)
    ensures
        descriptor_payload(buffer, bytes_returned).len() + DESCRIPTOR_HEADER_SIZE <= buffer.len()
            || descriptor_payload(buffer, bytes_returned).len() == 0,
        descriptor_payload(buffer, bytes_returned).len() + DESCRIPTOR_HEADER_SIZE <= bytes_returned
            || descriptor_payload(buffer, bytes_returned).len() == 0,
        forall|i: int|
            0 <= i < descriptor_payload(buffer, bytes_returned).len() ==> descriptor_payload(
                buffer,
                bytes_returned,
            )[i] == buffer[DESCRIPTOR_HEADER_SIZE + i],
{
}

/// A request that is not refused has room for exactly the bytes that were
/// asked for behind its header, and an answer to it that fills the room
/// gives that many bytes.
pub proof fn lemma_frame_room(
    port_number: u32,
    descriptor_type: u8,
    descriptor_index: u8,
    language_id: u16,
    length: u16,
)
    ensures
        descriptor_frame(
            port_number,
            descriptor_type,
            descriptor_index,
            language_id,
            length,
        ).len() == DESCRIPTOR_HEADER_SIZE + length,
        descriptor_payload(
            descriptor_frame(port_number, descriptor_type, descriptor_index, language_id, length),
            (DESCRIPTOR_HEADER_SIZE + length) as u32,
        ).len() == length,
{
}

} // verus!
