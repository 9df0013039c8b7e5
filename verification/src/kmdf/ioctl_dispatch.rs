//! Dispatching device control requests (open, receive, send) to a handle.
use vstd::prelude::*;
use crate::shared::{IOCTL_OPEN, IOCTL_RECV, IOCTL_SEND};
use crate::proto::{
    CapabilityFlags, EncodeIntoError, FlowEventKind, Layer, OpenRequest, OpenRequestDecodeError, OpenResponse,
    ProtocolVersion, SocketEventKind, decode_open_request, encode_open_response_into, spec_open_request_check,
    spec_open_response_bytes, open_request_decoded_from,
};
use crate::kmdf_core::{ByteRingError, HandleState, spec_mark_running};
use crate::kmdf::network_runtime::{AcceptedReinjection, spec_accept};
use crate::kmdf::runtime_device::{
    RuntimeDevice, RuntimeDeviceError, request_filter, network_event_queued, socket_event_queued, flow_event_queued,
};
use crate::wire::spliced;
use vstd::bytes::*;
use crate::kmdf::runtime_device::device_error_text;
use crate::proto::open_request_error_text;
use crate::text::{decimal, hex_digits, push_hex, with_two_numbers};
use vstd::string::StringExecFns;

verus! {

/// Why a control request failed.
#[derive(Debug, Clone, PartialEq, Eq)]
pub enum RuntimeIoctlError {
    UnsupportedIoctl(u32),
    OutputTooSmall { required: usize, provided: usize },
    DecodeOpen(OpenRequestDecodeError),
    Device(RuntimeDeviceError),
}

/// A handle's control surface: its device and the last packet accepted for
/// reinjection.
#[derive(Debug, Clone)]
pub struct RuntimeIoctlDispatcher {
    device: RuntimeDevice,
    last_reinjection: Option<AcceptedReinjection>,
}

/// The open response the driver sends: success, with checksum
/// recalculation and network reinjection (bits 0x1 and 0x2).
pub open spec fn driver_open_response() -> OpenResponse {
    OpenResponse { version: ProtocolVersion::spec_current(), capabilities: 3, status: 0 }
}

/// Whether two devices agree on everything but the given parts.
pub open spec fn same_device(a: RuntimeDevice, b: RuntimeDevice) -> bool {
    &&& a.spec_state() == b.spec_state()
    &&& a.spec_request() == b.spec_request()
    &&& a.spec_engine() == b.spec_engine()
    &&& a.spec_frames() == b.spec_frames()
    &&& a.spec_capacity() == b.spec_capacity()
    &&& a.spec_tokens() == b.spec_tokens()
}

/// What a control request does, as `dispatch_into` performs it: the
/// dispatcher before and after, the request's code and input, the output
/// buffer before and after, and the result.
pub open spec fn dispatched(
    old_d: RuntimeIoctlDispatcher,
    new_d: RuntimeIoctlDispatcher,
    ioctl: u32,
    input: Seq<u8>,
    old_out: Seq<u8>,
    new_out: Seq<u8>,
    r: Result<usize, RuntimeIoctlError>,
) -> bool {
    &&& (ioctl != IOCTL_OPEN && ioctl != IOCTL_RECV && ioctl != IOCTL_SEND ==> r == Err::<usize, RuntimeIoctlError>(
                RuntimeIoctlError::UnsupportedIoctl(ioctl),
            ) && same_device(new_d.spec_device(), old_d.spec_device()) && new_out == old_out
                && new_d.spec_last() == old_d.spec_last())
    &&& (ioctl == IOCTL_OPEN ==> new_d.spec_last() == old_d.spec_last() && match spec_open_request_check(input) {
                Some(e) => r == Err::<usize, RuntimeIoctlError>(RuntimeIoctlError::DecodeOpen(e))
                    && same_device(new_d.spec_device(), old_d.spec_device()) && new_out == old_out,
                None => {
                    let layer = Layer::spec_from_wire(input[4])->0;
                    let filter = input.subrange(20, 20 + crate::proto::le32_at(input, 16));
                    match request_filter(layer, filter) {
                        Err(m) => (r matches Err(RuntimeIoctlError::Device(RuntimeDeviceError::FilterCompile(x))) && x@ == m)
                            && same_device(new_d.spec_device(), old_d.spec_device()) && new_out == old_out,
                        Ok(engine) => if spec_mark_running(old_d.spec_device().spec_state()) is None {
                            (r matches Err(RuntimeIoctlError::Device(RuntimeDeviceError::InvalidState(m)))
                                && m@ == "mark_running requires Opening state"@)
                                && same_device(new_d.spec_device(), old_d.spec_device())
                                && new_out == old_out
                        } else {
                            &&& new_d.spec_device().spec_state() == HandleState::Running
                            &&& new_d.spec_device().spec_engine() == engine
                            &&& new_d.spec_device().spec_frames() == old_d.spec_device().spec_frames()
                            &&& new_d.spec_device().spec_tokens() == old_d.spec_device().spec_tokens()
                            &&& if old_out.len() < 12 {
                                r == Err::<usize, RuntimeIoctlError>(RuntimeIoctlError::OutputTooSmall {
                                    required: 12,
                                    provided: old_out.len() as usize,
                                }) && new_out == old_out
                            } else {
                                r == Ok::<usize, RuntimeIoctlError>(12)
                                    && new_out == spliced(old_out, 0, spec_open_response_bytes(driver_open_response()))
                            }
                        },
                    }
                },
            })
    &&& (ioctl == IOCTL_RECV ==> new_d.spec_last() == old_d.spec_last() && ({
                let d = old_d.spec_device();
                if d.spec_state() != HandleState::Running {
                    r == Err::<usize, RuntimeIoctlError>(RuntimeIoctlError::Device(RuntimeDeviceError::RecvDisabled))
                        && same_device(new_d.spec_device(), d) && new_out == old_out
                } else if d.spec_frames().len() == 0 {
                    r == Err::<usize, RuntimeIoctlError>(RuntimeIoctlError::Device(RuntimeDeviceError::QueueEmpty))
                        && same_device(new_d.spec_device(), d) && new_out == old_out
                } else if d.spec_frames()[0].len() > old_out.len() {
                    r == Err::<usize, RuntimeIoctlError>(RuntimeIoctlError::Device(RuntimeDeviceError::QueueStorage(
                        ByteRingError::OutputTooSmall { required: d.spec_frames()[0].len() as usize, provided: old_out.len() as usize },
                    ))) && same_device(new_d.spec_device(), d) && new_out == old_out
                } else {
                    r == Ok::<usize, RuntimeIoctlError>(d.spec_frames()[0].len() as usize)
                        && new_d.spec_device().spec_frames() == d.spec_frames().drop_first()
                        && new_d.spec_device().spec_state() == d.spec_state()
                        && new_d.spec_device().spec_tokens() == d.spec_tokens()
                        && new_out == spliced(old_out, 0, d.spec_frames()[0])
                }
            }))
    &&& (ioctl == IOCTL_SEND ==> new_out == old_out && ({
                let d = old_d.spec_device();
                let s = d.spec_state();
                if s == HandleState::SendShutdown || s == HandleState::Closing || s == HandleState::Closed {
                    r == Err::<usize, RuntimeIoctlError>(RuntimeIoctlError::Device(RuntimeDeviceError::SendDisabled))
                        && same_device(new_d.spec_device(), d) && new_d.spec_last() == old_d.spec_last()
                } else if s == HandleState::Opening {
                    (r matches Err(RuntimeIoctlError::Device(RuntimeDeviceError::InvalidState(m)))
                        && m@ == "send requires Running or RecvShutdown state"@)
                        && same_device(new_d.spec_device(), d) && new_d.spec_last() == old_d.spec_last()
                } else {
                    &&& new_d.spec_device().spec_tokens() == spec_accept(d.spec_tokens(), input).0
                    &&& new_d.spec_device().spec_state() == s
                    &&& new_d.spec_device().spec_frames() == d.spec_frames()
                    &&& match spec_accept(d.spec_tokens(), input).1 {
                        Ok((layer, id, bytes)) => r == Ok::<usize, RuntimeIoctlError>(0)
                            && (new_d.spec_last() matches Some(a) && a.layer == layer && a.packet_id == id
                                && a.packet.view() == bytes),
                        Err(e) => r == Err::<usize, RuntimeIoctlError>(RuntimeIoctlError::Device(RuntimeDeviceError::NetworkRuntime(e)))
                            && new_d.spec_last() == old_d.spec_last(),
                    }
                }
            }))
}

impl RuntimeIoctlDispatcher {
    /// The handle's device.
    pub closed spec fn spec_device(&self) -> RuntimeDevice {
        self.device
    }

    /// The last packet accepted for reinjection.
    pub closed spec fn spec_last(&self) -> Option<AcceptedReinjection> {
        self.last_reinjection
    }

    pub closed spec fn wf(&self) -> bool {
        self.device.wf()
    }

    /// A dispatcher for a new handle with the given queue capacity.
    pub fn new(queue_capacity: usize) -> (d: RuntimeIoctlDispatcher)
        ensures
            d.wf(),
            d.spec_device().spec_state() == HandleState::Opening,
            d.spec_device().spec_engine() is None,
            d.spec_device().spec_request() is None,
            d.spec_device().spec_frames() == Seq::<Seq<u8>>::empty(),
            d.spec_device().spec_capacity() == queue_capacity,
            d.spec_device().spec_tokens().next_token == 1,
            d.spec_last() is None,
    {
        RuntimeIoctlDispatcher { device: RuntimeDevice::new(queue_capacity), last_reinjection: None }
    }

    /// Queues a network event on the device (see
    /// `RuntimeDevice::queue_network_event`).
    pub fn queue_network_event(&mut self, layer: Layer, packet_id: u64, packet: &[u8]) -> (r: Result<(), RuntimeIoctlError>)
        requires
            old(self).wf(),
            packet@.len() <= isize::MAX,
        ensures
            final(self).wf(),
            final(self).spec_last() == old(self).spec_last(),
            match r {
                Ok(()) => network_event_queued(old(self).spec_device(), final(self).spec_device(), layer, packet_id, packet@, Ok(())),
                Err(RuntimeIoctlError::Device(e)) => network_event_queued(
                    old(self).spec_device(),
                    final(self).spec_device(),
                    layer,
                    packet_id,
                    packet@,
                    Err(e),
                ),
                Err(_) => false,
            },
    {
        match self.device.queue_network_event(layer, packet_id, packet) {
            Ok(()) => Ok(()),
            Err(e) => Err(RuntimeIoctlError::Device(e)),
        }
    }

    /// Queues a socket event on the device.
    pub fn queue_socket_event(&mut self, kind: SocketEventKind, process_id: u64) -> (r: Result<(), RuntimeIoctlError>)
        requires
            old(self).wf(),
        ensures
            final(self).wf(),
            final(self).spec_last() == old(self).spec_last(),
            match r {
                Ok(()) => socket_event_queued(old(self).spec_device(), final(self).spec_device(), kind, process_id, Ok(())),
                Err(RuntimeIoctlError::Device(e)) => socket_event_queued(
                    old(self).spec_device(),
                    final(self).spec_device(),
                    kind,
                    process_id,
                    Err(e),
                ),
                Err(_) => false,
            },
    {
        match self.device.queue_socket_event(kind, process_id) {
            Ok(()) => Ok(()),
            Err(e) => Err(RuntimeIoctlError::Device(e)),
        }
    }

    /// Queues a flow event on the device.
    pub fn queue_flow_event(&mut self, kind: FlowEventKind, flow_id: u64, process_id: u64) -> (r: Result<(), RuntimeIoctlError>)
        requires
            old(self).wf(),
        ensures
            final(self).wf(),
            final(self).spec_last() == old(self).spec_last(),
            match r {
                Ok(()) => flow_event_queued(old(self).spec_device(), final(self).spec_device(), kind, flow_id, process_id, Ok(())),
                Err(RuntimeIoctlError::Device(e)) => flow_event_queued(
                    old(self).spec_device(),
                    final(self).spec_device(),
                    kind,
                    flow_id,
                    process_id,
                    Err(e),
                ),
                Err(_) => false,
            },
    {
        match self.device.queue_flow_event(kind, flow_id, process_id) {
            Ok(()) => Ok(()),
            Err(e) => Err(RuntimeIoctlError::Device(e)),
        }
    }

    /// The last packet accepted for reinjection.
    pub fn last_reinjection(&self) -> (r: Option<&AcceptedReinjection>)
        ensures
            match self.spec_last() {
                Some(a) => r == Some(&a),
                None => r is None,
            },
    {
        match &self.last_reinjection {
            Some(a) => Some(a),
            None => None,
        }
    }

    /// The request the handle was opened with.
    pub fn last_open_request(&self) -> (r: Option<&OpenRequest>)
        ensures
            match self.spec_device().spec_request() {
                Some(q) => r == Some(&q),
                None => r is None,
            },
    {
        self.device.last_open_request()
    }

    /// Runs one control request: IOCTL_OPEN opens the handle from an open
    /// request and writes the open response, IOCTL_RECV hands out the
    /// oldest queued frame, IOCTL_SEND accepts a packet for reinjection
    /// (writing nothing); any other code is refused.
    pub fn dispatch_into(&mut self, ioctl: u32, input: &[u8], output: &mut [u8]) -> (r: Result<usize, RuntimeIoctlError>)
        requires
            old(self).wf(),
        ensures
            final(self).wf(),
            dispatched(*old(self), *final(self), ioctl, input@, old(output)@, final(output)@, r),
    {
        if ioctl == IOCTL_OPEN {
            self.dispatch_open_into(input, output)
        } else if ioctl == IOCTL_RECV {
            match self.device.recv_into(output) {
                Ok(n) => Ok(n),
                Err(e) => Err(RuntimeIoctlError::Device(e)),
            }
        } else if ioctl == IOCTL_SEND {
            let accepted = match self.device.send(input) {
                Ok(a) => a,
                Err(e) => {
                    return Err(RuntimeIoctlError::Device(e));
                },
            };
            self.last_reinjection = Some(accepted);
            Ok(0)
        } else {
            Err(RuntimeIoctlError::UnsupportedIoctl(ioctl))
        }
    }

    fn dispatch_open_into(&mut self, input: &[u8], output: &mut [u8]) -> (r: Result<usize, RuntimeIoctlError>)
        requires
            old(self).wf(),
        ensures
            final(self).wf(),
            final(self).spec_last() == old(self).spec_last(),
            match spec_open_request_check(input@) {
                Some(e) => r == Err::<usize, RuntimeIoctlError>(RuntimeIoctlError::DecodeOpen(e))
                    && same_device(final(self).spec_device(), old(self).spec_device()) && final(output)@ == old(output)@,
                None => {
                    let layer = Layer::spec_from_wire(input@[4])->0;
                    let filter = input@.subrange(20, 20 + crate::proto::le32_at(input@, 16));
                    match request_filter(layer, filter) {
                        Err(m) => (r matches Err(RuntimeIoctlError::Device(RuntimeDeviceError::FilterCompile(x))) && x@ == m)
                            && same_device(final(self).spec_device(), old(self).spec_device()) && final(output)@ == old(output)@,
                        Ok(engine) => if spec_mark_running(old(self).spec_device().spec_state()) is None {
                            (r matches Err(RuntimeIoctlError::Device(RuntimeDeviceError::InvalidState(m)))
                                && m@ == "mark_running requires Opening state"@)
                                && same_device(final(self).spec_device(), old(self).spec_device())
                                && final(output)@ == old(output)@
                        } else {
                            &&& final(self).spec_device().spec_state() == HandleState::Running
                            &&& final(self).spec_device().spec_engine() == engine
                            &&& final(self).spec_device().spec_frames() == old(self).spec_device().spec_frames()
                            &&& final(self).spec_device().spec_tokens() == old(self).spec_device().spec_tokens()
                            &&& if old(output)@.len() < 12 {
                                r == Err::<usize, RuntimeIoctlError>(RuntimeIoctlError::OutputTooSmall {
                                    required: 12,
                                    provided: old(output)@.len() as usize,
                                }) && final(output)@ == old(output)@
                            } else {
                                r == Ok::<usize, RuntimeIoctlError>(12)
                                    && final(output)@ == spliced(old(output)@, 0, spec_open_response_bytes(driver_open_response()))
                            }
                        },
                    }
                },
            },
    {
        let request = match decode_open_request(input) {
            Ok(req) => req,
            Err(e) => {
                return Err(RuntimeIoctlError::DecodeOpen(e));
            },
        };
        match self.device.open_with_request(request) {
            Ok(()) => {},
            Err(e) => {
                return Err(RuntimeIoctlError::Device(e));
            },
        }
        let capabilities = CapabilityFlags::checksum_recalc().union(CapabilityFlags::network_reinject()).bits();
        assert(0x1u32 | 0x2u32 == 3u32) by (bit_vector);
        proof {
            lemma_auto_spec_u16_to_from_le_bytes();
            lemma_auto_spec_u32_to_from_le_bytes();
            assert(spec_open_response_bytes(driver_open_response()).len() == 12);
        }
        match encode_open_response_into(OpenResponse::success(capabilities), output) {
            Ok(n) => Ok(n),
            Err(EncodeIntoError::BufferTooSmall { required, provided }) => Err(RuntimeIoctlError::OutputTooSmall { required, provided }),
        }
    }
}


/// The text of a control request error.
pub open spec fn ioctl_error_text(e: RuntimeIoctlError) -> Seq<char> {
    match e {
        RuntimeIoctlError::UnsupportedIoctl(code) => "unsupported ioctl: 0x"@ + hex_digits(code as nat, 8),
        RuntimeIoctlError::OutputTooSmall { required, provided } => "output buffer too small: required "@
            + decimal(required as nat) + " bytes but provided "@ + decimal(provided as nat) + ""@,
        RuntimeIoctlError::DecodeOpen(x) => open_request_error_text(x),
        RuntimeIoctlError::Device(x) => device_error_text(x),
    }
}

impl RuntimeIoctlError {
    /// The error's text.
    pub fn to_string(&self) -> (s: String)
        ensures
            s@ == ioctl_error_text(*self),
    {
        match self {
            RuntimeIoctlError::UnsupportedIoctl(code) => {
                let mut s = "unsupported ioctl: 0x".to_owned();
                push_hex(&mut s, *code as u64, 8);
                s
            },
            RuntimeIoctlError::OutputTooSmall { required, provided } => with_two_numbers(
                "output buffer too small: required ", *required as u64, " bytes but provided ", *provided as u64, ""),
            RuntimeIoctlError::DecodeOpen(x) => x.to_string(),
            RuntimeIoctlError::Device(x) => x.to_string(),
        }
    }
}

} // verus!
