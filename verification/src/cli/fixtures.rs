//! Sample values the command tests feed through fake transports.
use vstd::prelude::*;
use crate::kmdf::filter_eval::DriverEvent;
use crate::proto::{OpenResponse, ProtocolVersion};

verus! {

pub const DEFAULT_PACKET_ID: u64 = 0x1234;
pub const DEFAULT_SOCKET_PROCESS_ID: u64 = 7;
pub const DEFAULT_FLOW_ID: u64 = 0xfeed;
pub const DEFAULT_FLOW_PROCESS_ID: u64 = 42;
pub const DEFAULT_CAPABILITIES: u32 = 0x1f;

/// A minimal IPv4 header: TCP, TTL 64, 192.168.1.10 to 192.168.1.1.
pub fn ipv4_frame() -> (v: Vec<u8>)
    ensures
        v@ == seq![0x45u8, 0x00, 0x00, 0x14, 0x12, 0x34, 0x00, 0x00, 64, 6, 0x9c, 0x93, 192, 168, 1, 10, 192, 168, 1, 1],
{
    vec![0x45, 0x00, 0x00, 0x14, 0x12, 0x34, 0x00, 0x00, 64, 6, 0x9c, 0x93, 192, 168, 1, 10, 192, 168, 1, 1]
}

/// A socket connect by `process_id`.
pub fn socket_connect_event(process_id: u64) -> (e: DriverEvent)
    ensures
        e == (DriverEvent::SocketConnect { process_id }),
{
    DriverEvent::socket_connect(process_id)
}

/// A successful open response with the default capabilities.
pub fn reflect_open_response() -> (r: OpenResponse)
    ensures
        r == (OpenResponse { version: ProtocolVersion::spec_current(), capabilities: DEFAULT_CAPABILITIES, status: 0 }),
{
    OpenResponse::success(DEFAULT_CAPABILITIES)
}

/// The default flow established by `process_id`.
pub fn flow_established_event(process_id: u64) -> (e: DriverEvent)
    ensures
        e == (DriverEvent::FlowEstablished { flow_id: DEFAULT_FLOW_ID, process_id }),
{
    DriverEvent::flow_established(DEFAULT_FLOW_ID, process_id)
}

} // verus!
