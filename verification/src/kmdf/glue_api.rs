//! The surface the C glue calls: control requests and queued network
//! events, answered with a status and a byte count.
use vstd::prelude::*;
use crate::proto::Layer;
use crate::kmdf_core::{ByteRingError, GlueIoResult, GlueIoStatus, HandleState};
use crate::kmdf::ioctl_dispatch::{RuntimeIoctlDispatcher, RuntimeIoctlError, dispatched};
use crate::kmdf::runtime_device::{RuntimeDevice, RuntimeDeviceError, network_event_queued};

verus! {

/// A handle as the C glue holds it.
#[derive(Debug, Clone)]
pub struct RuntimeGlueApi {
    dispatcher: RuntimeIoctlDispatcher,
}

/// The status a failed request reports.
pub open spec fn glue_status(e: RuntimeIoctlError) -> GlueIoStatus {
    match e {
        RuntimeIoctlError::UnsupportedIoctl(_) => GlueIoStatus::UnsupportedIoctl,
        RuntimeIoctlError::DecodeOpen(_) => GlueIoStatus::DecodeOpen,
        RuntimeIoctlError::OutputTooSmall { .. } => GlueIoStatus::OutputTooSmall,
        RuntimeIoctlError::Device(d) => match d {
            RuntimeDeviceError::QueueEmpty => GlueIoStatus::QueueEmpty,
            RuntimeDeviceError::RecvDisabled => GlueIoStatus::RecvDisabled,
            RuntimeDeviceError::SendDisabled => GlueIoStatus::SendDisabled,
            RuntimeDeviceError::InvalidState(_) => GlueIoStatus::InvalidState,
            RuntimeDeviceError::FilterCompile(_) => GlueIoStatus::DecodeOpen,
            RuntimeDeviceError::EncodeInto(_) => GlueIoStatus::NetworkRuntime,
            RuntimeDeviceError::QueueStorage(ByteRingError::OutputTooSmall { .. }) => GlueIoStatus::OutputTooSmall,
            RuntimeDeviceError::QueueStorage(ByteRingError::FrameTooLarge) => GlueIoStatus::NetworkRuntime,
            RuntimeDeviceError::NetworkRuntime(_) => GlueIoStatus::NetworkRuntime,
        },
    }
}

/// The glue answer to a request's outcome: success with the bytes written,
/// or the error's status with none.
pub open spec fn glue_result(r: Result<usize, RuntimeIoctlError>) -> GlueIoResult {
    match r {
        Ok(n) => GlueIoResult { status: GlueIoStatus::Success, bytes_written: n as u32 },
        Err(e) => GlueIoResult { status: glue_status(e), bytes_written: 0 },
    }
}

/// The glue answer to a request that writes nothing.
pub open spec fn glue_unit_result(r: Result<(), RuntimeIoctlError>) -> GlueIoResult {
    match r {
        Ok(()) => GlueIoResult { status: GlueIoStatus::Success, bytes_written: 0 },
        Err(e) => GlueIoResult { status: glue_status(e), bytes_written: 0 },
    }
}

/// Queueing a network event through the glue: the device changes as
/// `network_event_queued` says, and a failure is the device's error.
pub open spec fn network_event_glued(
    d: RuntimeDevice,
    n: RuntimeDevice,
    layer: Layer,
    packet_id: u64,
    packet: Seq<u8>,
    r: Result<(), RuntimeIoctlError>,
) -> bool {
    match r {
        Ok(()) => network_event_queued(d, n, layer, packet_id, packet, Ok(())),
        Err(RuntimeIoctlError::Device(e)) => network_event_queued(d, n, layer, packet_id, packet, Err(e)),
        Err(_) => false,
    }
}

/// Maps a request error to the status the glue reports.
pub fn map_ioctl_error(err: RuntimeIoctlError) -> (s: GlueIoStatus)
    ensures
        s == glue_status(err),
{
    match err {
        RuntimeIoctlError::UnsupportedIoctl(_) => GlueIoStatus::UnsupportedIoctl,
        RuntimeIoctlError::DecodeOpen(_) => GlueIoStatus::DecodeOpen,
        RuntimeIoctlError::OutputTooSmall { .. } => GlueIoStatus::OutputTooSmall,
        RuntimeIoctlError::Device(d) => match d {
            RuntimeDeviceError::QueueEmpty => GlueIoStatus::QueueEmpty,
            RuntimeDeviceError::RecvDisabled => GlueIoStatus::RecvDisabled,
            RuntimeDeviceError::SendDisabled => GlueIoStatus::SendDisabled,
            RuntimeDeviceError::InvalidState(_) => GlueIoStatus::InvalidState,
            RuntimeDeviceError::FilterCompile(_) => GlueIoStatus::DecodeOpen,
            RuntimeDeviceError::EncodeInto(_) => GlueIoStatus::NetworkRuntime,
            RuntimeDeviceError::QueueStorage(ByteRingError::OutputTooSmall { .. }) => GlueIoStatus::OutputTooSmall,
            RuntimeDeviceError::QueueStorage(ByteRingError::FrameTooLarge) => GlueIoStatus::NetworkRuntime,
            RuntimeDeviceError::NetworkRuntime(_) => GlueIoStatus::NetworkRuntime,
        },
    }
}

impl RuntimeGlueApi {
    pub closed spec fn spec_dispatcher(&self) -> RuntimeIoctlDispatcher {
        self.dispatcher
    }

    pub closed spec fn wf(&self) -> bool {
        self.dispatcher.wf()
    }

    /// A new handle with the given queue capacity.
    pub fn new(queue_capacity: usize) -> (g: RuntimeGlueApi)
        ensures
            g.wf(),
            g.spec_dispatcher().spec_device().spec_state() == HandleState::Opening,
            g.spec_dispatcher().spec_device().spec_capacity() == queue_capacity,
            g.spec_dispatcher().spec_device().spec_frames() == Seq::<Seq<u8>>::empty(),
            g.spec_dispatcher().spec_last() is None,
    {
        RuntimeGlueApi { dispatcher: RuntimeIoctlDispatcher::new(queue_capacity) }
    }

    /// Queues a network event on the handle (see
    /// `RuntimeDevice::queue_network_event`); the last accepted packet is
    /// kept.
    pub fn queue_network_event(&mut self, layer: Layer, packet_id: u64, packet: &[u8]) -> (r: Result<(), RuntimeIoctlError>)
        requires
            old(self).wf(),
            packet@.len() <= isize::MAX,
        ensures
            final(self).wf(),
            final(self).spec_dispatcher().spec_last() == old(self).spec_dispatcher().spec_last(),
            network_event_glued(old(self).spec_dispatcher().spec_device(), final(self).spec_dispatcher().spec_device(),
                layer, packet_id, packet@, r),
    {
        self.dispatcher.queue_network_event(layer, packet_id, packet)
    }

    /// Runs a control request and answers with its status and the bytes
    /// written to `output`.
    pub fn device_control(&mut self, ioctl: u32, input: &[u8], output: &mut [u8]) -> (res: GlueIoResult)
        requires
            old(self).wf(),
        ensures
            final(self).wf(),
            exists|r: Result<usize, RuntimeIoctlError>|
                dispatched(old(self).spec_dispatcher(), final(self).spec_dispatcher(), ioctl, input@, old(output)@, final(output)@, r)
                && res == #[trigger] glue_result(r),
    {
        let r = self.dispatcher.dispatch_into(ioctl, input, output);
        let res = match r {
            Ok(bytes_written) => GlueIoResult { status: GlueIoStatus::Success, bytes_written: bytes_written as u32 },
            Err(err) => GlueIoResult { status: map_ioctl_error(err), bytes_written: 0 },
        };
        assert(res == glue_result(r));
        res
    }

    /// Queues a network event whose layer arrives as its wire code: a code
    /// that names no layer is refused with `InvalidLayer`.
    pub fn queue_network_event_wire(&mut self, layer_wire: u8, packet_id: u64, packet: &[u8]) -> (res: GlueIoResult)
        requires
            old(self).wf(),
            packet@.len() <= isize::MAX,
        ensures
            final(self).wf(),
            Layer::spec_from_wire(layer_wire) is None ==> res == (GlueIoResult { status: GlueIoStatus::InvalidLayer, bytes_written: 0 })
                && *final(self) == *old(self),
            Layer::spec_from_wire(layer_wire) is Some ==> final(self).spec_dispatcher().spec_last()
                == old(self).spec_dispatcher().spec_last() && exists|r: Result<(), RuntimeIoctlError>|
                network_event_glued(old(self).spec_dispatcher().spec_device(), final(self).spec_dispatcher().spec_device(),
                    Layer::spec_from_wire(layer_wire).unwrap(), packet_id, packet@, r)
                && res == #[trigger] glue_unit_result(r),
        {
        let layer = match Layer::from_wire(layer_wire) {
            Some(l) => l,
            None => {
                return GlueIoResult { status: GlueIoStatus::InvalidLayer, bytes_written: 0 };
            },
        };
        let r = self.queue_network_event(layer, packet_id, packet);
        let res = match r {
            Ok(()) => GlueIoResult { status: GlueIoStatus::Success, bytes_written: 0 },
            Err(err) => GlueIoResult { status: map_ioctl_error(err), bytes_written: 0 },
        };
        assert(res == glue_unit_result(r));
        res
    }
}

} // verus!
