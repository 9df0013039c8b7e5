//! Values for exercising the user-mode helpers.
use vstd::prelude::*;
use crate::proto::{OpenResponse, ProtocolVersion};
use crate::user::handle::DynamicHandle;

verus! {

/// The bytes of a 20-byte IPv4 TCP header from 192.168.1.10 to
/// 192.168.1.1 with TTL 64 and a valid checksum.
pub open spec fn spec_network_frame() -> Seq<u8> {
    seq![0x45u8, 0x00, 0x00, 0x14, 0x12, 0x34, 0x00, 0x00, 64, 6, 0x9c, 0x93, 192, 168, 1, 10, 192, 168, 1, 1]
}

/// A 20-byte IPv4 TCP header.
pub fn network_frame_bytes() -> (v: Vec<u8>)
    ensures
        v@ == spec_network_frame(),
{
    let v: Vec<u8> = vec![0x45, 0x00, 0x00, 0x14, 0x12, 0x34, 0x00, 0x00, 64, 6, 0x9c, 0x93, 192, 168, 1, 10, 192, 168, 1, 1];
    assert(v@ =~= spec_network_frame());
    v
}

/// The handle an accepted open response gives.
pub fn opened_handle(response: OpenResponse) -> (h: DynamicHandle)
    requires
        response.status == 0,
        response.version == ProtocolVersion::spec_current(),
    ensures
        h.spec_capabilities() == response.capabilities,
{
    let r = DynamicHandle::from_open_response(response);
    r.unwrap()
}

} // verus!
