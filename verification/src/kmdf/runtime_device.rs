//! One open device handle: its lifecycle, its filter, the queue of frames
//! waiting for user mode and the reinjection table.
use vstd::prelude::*;
use vstd::slice::slice_subrange;
use vstd::bytes::*;
use crate::proto::{
    EncodeIntoError, FlowEventKind, Layer, OpenRequest, SocketEventKind, encode_flow_event_payload_into,
    encode_runtime_event_into, encode_socket_event_payload_into, spec_runtime_event_bytes,
    spec_socket_payload_bytes, spec_flow_payload_bytes,
};
use crate::kmdf_core::{
    ByteRing, ByteRingError, HandleState, TokenTableView, spec_ring_push, spec_mark_running, spec_shutdown_recv,
    spec_shutdown_send, spec_close, spec_issue,
};
use crate::kmdf::filter_eval::{
    DriverEvent, EngineView, FilterCompileError, FilterEngine, engine_matches, engine_matches_packet,
    spec_engine_from_bytes,
};
use crate::kmdf::network_runtime::{
    AcceptedReinjection, NetworkRuntime, NetworkRuntimeError, is_network, network_event_frame, spec_accept,
    spec_issue_into,
};
use crate::kmdf::reinject::ReinjectionTable;
use crate::wire::spliced;
use crate::kmdf::network_runtime::network_error_text;
use crate::text::{decimal, with_two_numbers};

verus! {

/// How many frames the queue can hold at most.
pub const RUNTIME_FRAME_SLOTS: usize = 32;
/// The largest frame the queue stores.
pub const RUNTIME_FRAME_BYTES: usize = 2048;

/// Why the device refused a call.
#[derive(Debug, Clone, PartialEq, Eq)]
pub enum RuntimeDeviceError {
    InvalidState(&'static str),
    RecvDisabled,
    SendDisabled,
    QueueEmpty,
    FilterCompile(FilterCompileError),
    EncodeInto(EncodeIntoError),
    QueueStorage(ByteRingError),
    NetworkRuntime(NetworkRuntimeError),
}

/// A device handle.
#[derive(Debug, Clone)]
pub struct RuntimeDevice {
    state: HandleState,
    open_request: Option<OpenRequest>,
    filter_engine: Option<FilterEngine>,
    queue: ByteRing<32, 2048>,
    queue_capacity: usize,
    reinjection: ReinjectionTable,
}

/// The frames after queueing `frame` with room for `cap`: nothing with no
/// room, else `frame` at the back after dropping the oldest frame when the
/// queue already holds `min(cap, 32)`.
pub open spec fn enqueue(frames: Seq<Seq<u8>>, cap: usize, frame: Seq<u8>) -> Seq<Seq<u8>> {
    if cap == 0 {
        frames
    } else {
        let eff = if cap < 32 { cap as int } else { 32 };
        let kept = if frames.len() == eff { frames.drop_first() } else { frames };
        spec_ring_push(kept, 32, frame)
    }
}

/// Whether the filter (if any) lets an event through.
pub open spec fn filter_allows(engine: Option<EngineView>, ev: DriverEvent) -> bool {
    match engine {
        None => true,
        Some(e) => engine_matches(e, ev),
    }
}

/// Whether the filter (if any) lets a packet seen on `layer` through; a
/// packet on a non-network layer is not filtered here.
pub open spec fn filter_allows_packet(engine: Option<EngineView>, layer: Layer, p: Seq<u8>) -> bool {
    match engine {
        None => true,
        Some(e) => !is_network(layer) || engine_matches_packet(e, layer, p),
    }
}

/// The filter an open request installs: none for an empty program, else
/// its program loaded for the request's layer.
pub open spec fn request_filter(layer: Layer, filter_ir: Seq<u8>) -> Result<Option<EngineView>, Seq<char>> {
    if filter_ir.len() == 0 {
        Ok(None)
    } else {
        match spec_engine_from_bytes(layer, filter_ir) {
            Ok(e) => Ok(Some(e)),
            Err(m) => Err(m),
        }
    }
}

/// How queueing a network event changes a device: nothing but the queue
/// and the tokens may change; a handle that is not running refuses; a
/// packet the filter refuses is dropped; otherwise a token is issued and
/// the network event frame carrying it is queued, or the issue error is
/// reported.
pub open spec fn network_event_queued(
    d: RuntimeDevice,
    n: RuntimeDevice,
    layer: Layer,
    packet_id: u64,
    packet: Seq<u8>,
    r: Result<(), RuntimeDeviceError>,
) -> bool {
    &&& n.spec_state() == d.spec_state()
    &&& n.spec_request() == d.spec_request()
    &&& n.spec_engine() == d.spec_engine()
    &&& n.spec_capacity() == d.spec_capacity()
    &&& d.spec_state() != HandleState::Running ==> r == Err::<(), RuntimeDeviceError>(RuntimeDeviceError::RecvDisabled)
        && n.spec_frames() == d.spec_frames() && n.spec_tokens() == d.spec_tokens()
    &&& d.spec_state() == HandleState::Running && !filter_allows_packet(d.spec_engine(), layer, packet) ==> r is Ok
        && n.spec_frames() == d.spec_frames() && n.spec_tokens() == d.spec_tokens()
    &&& d.spec_state() == HandleState::Running && filter_allows_packet(d.spec_engine(), layer, packet) ==> ({
        let (t1, issued) = spec_issue_into(d.spec_tokens(), layer, packet_id, packet.len(), 2048);
        &&& n.spec_tokens() == t1
        &&& match issued {
            Err(e) => r == Err::<(), RuntimeDeviceError>(RuntimeDeviceError::NetworkRuntime(e))
                && n.spec_frames() == d.spec_frames(),
            Ok(_) => r is Ok && n.spec_frames() == enqueue(d.spec_frames(), d.spec_capacity(),
                network_event_frame(layer, spec_issue(d.spec_tokens(), 256, packet_id).1, packet)),
        }
    })
}

/// How queueing a socket event changes a device: only the queue may
/// change; a handle that is not running refuses; the connect event is
/// queued when the filter lets it through.
pub open spec fn socket_event_queued(
    d: RuntimeDevice,
    n: RuntimeDevice,
    kind: SocketEventKind,
    process_id: u64,
    r: Result<(), RuntimeDeviceError>,
) -> bool {
    &&& n.spec_state() == d.spec_state()
    &&& n.spec_request() == d.spec_request()
    &&& n.spec_engine() == d.spec_engine()
    &&& n.spec_capacity() == d.spec_capacity()
    &&& n.spec_tokens() == d.spec_tokens()
    &&& d.spec_state() != HandleState::Running ==> r == Err::<(), RuntimeDeviceError>(RuntimeDeviceError::RecvDisabled)
        && n.spec_frames() == d.spec_frames()
    &&& d.spec_state() == HandleState::Running ==> r is Ok && n.spec_frames() == (
        if filter_allows(d.spec_engine(), DriverEvent::SocketConnect { process_id }) {
            enqueue(d.spec_frames(), d.spec_capacity(),
                spec_runtime_event_bytes(Layer::Socket, spec_socket_payload_bytes(kind, process_id)))
        } else {
            d.spec_frames()
        })
}

/// How queueing a flow event changes a device, as for sockets.
pub open spec fn flow_event_queued(
    d: RuntimeDevice,
    n: RuntimeDevice,
    kind: FlowEventKind,
    flow_id: u64,
    process_id: u64,
    r: Result<(), RuntimeDeviceError>,
) -> bool {
    &&& n.spec_state() == d.spec_state()
    &&& n.spec_request() == d.spec_request()
    &&& n.spec_engine() == d.spec_engine()
    &&& n.spec_capacity() == d.spec_capacity()
    &&& n.spec_tokens() == d.spec_tokens()
    &&& d.spec_state() != HandleState::Running ==> r == Err::<(), RuntimeDeviceError>(RuntimeDeviceError::RecvDisabled)
        && n.spec_frames() == d.spec_frames()
    &&& d.spec_state() == HandleState::Running ==> r is Ok && n.spec_frames() == (
        if filter_allows(d.spec_engine(), DriverEvent::FlowEstablished { flow_id, process_id }) {
            enqueue(d.spec_frames(), d.spec_capacity(),
                spec_runtime_event_bytes(Layer::Flow, spec_flow_payload_bytes(kind, flow_id, process_id)))
        } else {
            d.spec_frames()
        })
}

impl RuntimeDevice {
    pub closed spec fn spec_state(&self) -> HandleState {
        self.state
    }

    pub closed spec fn spec_request(&self) -> Option<OpenRequest> {
        self.open_request
    }

    pub closed spec fn spec_engine(&self) -> Option<EngineView> {
        match self.filter_engine {
            Some(e) => Some(e@),
            None => None,
        }
    }

    /// The queued frames, oldest first.
    pub closed spec fn spec_frames(&self) -> Seq<Seq<u8>> {
        self.queue.view()
    }

    pub closed spec fn spec_capacity(&self) -> usize {
        self.queue_capacity
    }

    pub closed spec fn spec_tokens(&self) -> TokenTableView {
        self.reinjection.spec_view()
    }

    /// The queue and table are well formed and the queue holds at most
    /// `min(capacity, 32)` frames.
    pub closed spec fn wf(&self) -> bool {
        &&& self.queue.wf()
        &&& self.reinjection.wf()
        &&& self.queue.view().len() <= (if self.queue_capacity < 32 { self.queue_capacity as int } else { 32 })
    }

    /// A handle in the Opening state with an empty queue of the given
    /// capacity (at most 32 frames are kept whatever it is).
    pub fn new(queue_capacity: usize) -> (d: RuntimeDevice)
        ensures
            d.wf(),
            d.spec_state() == HandleState::Opening,
            d.spec_request() is None,
            d.spec_engine() is None,
            d.spec_frames() == Seq::<Seq<u8>>::empty(),
            d.spec_capacity() == queue_capacity,
            d.spec_tokens().next_token == 1,
    {
        RuntimeDevice {
            state: HandleState::opening(),
            open_request: None,
            filter_engine: None,
            queue: ByteRing::new(),
            queue_capacity,
            reinjection: ReinjectionTable::default(),
        }
    }

    /// Opens the handle without a request or filter.
    pub fn open(&mut self) -> (r: Result<(), RuntimeDeviceError>)
        requires
            old(self).wf(),
        ensures
            final(self).wf(),
            final(self).spec_frames() == old(self).spec_frames(),
            final(self).spec_tokens() == old(self).spec_tokens(),
            final(self).spec_capacity() == old(self).spec_capacity(),
            match spec_mark_running(old(self).spec_state()) {
                Some(s) => r is Ok && final(self).spec_state() == s && final(self).spec_request() is None
                    && final(self).spec_engine() is None,
                None => (r matches Err(RuntimeDeviceError::InvalidState(m)) && m@ == "mark_running requires Opening state"@)
                    && final(self).spec_state() == old(self).spec_state()
                    && final(self).spec_request() == old(self).spec_request()
                    && final(self).spec_engine() == old(self).spec_engine(),
            },
    {
        match self.state.mark_running() {
            Ok(()) => {},
            Err(m) => {
                return Err(RuntimeDeviceError::InvalidState(m));
            },
        }
        self.open_request = None;
        self.filter_engine = None;
        Ok(())
    }

    /// Opens the handle with a request: its filter program (if any) is
    /// loaded for its layer first, and a program that does not load leaves
    /// the handle as it was.
    pub fn open_with_request(&mut self, request: OpenRequest) -> (r: Result<(), RuntimeDeviceError>)
        requires
            old(self).wf(),
        ensures
            final(self).wf(),
            final(self).spec_frames() == old(self).spec_frames(),
            final(self).spec_tokens() == old(self).spec_tokens(),
            final(self).spec_capacity() == old(self).spec_capacity(),
            match request_filter(request.layer, request.filter_ir@) {
                Err(m) => r matches Err(RuntimeDeviceError::FilterCompile(e)) && e@ == m
                    && final(self).spec_state() == old(self).spec_state()
                    && final(self).spec_request() == old(self).spec_request()
                    && final(self).spec_engine() == old(self).spec_engine(),
                Ok(engine) => match spec_mark_running(old(self).spec_state()) {
                    Some(s) => r is Ok && final(self).spec_state() == s && final(self).spec_request() == Some(request)
                        && final(self).spec_engine() == engine,
                    None => (r matches Err(RuntimeDeviceError::InvalidState(m)) && m@ == "mark_running requires Opening state"@)
                        && final(self).spec_state() == old(self).spec_state()
                        && final(self).spec_request() == old(self).spec_request()
                        && final(self).spec_engine() == old(self).spec_engine(),
                },
            },
    {
        let engine = match compile_filter_for_request(&request) {
            Ok(e) => e,
            Err(e) => {
                return Err(e);
            },
        };
        match self.state.mark_running() {
            Ok(()) => {},
            Err(m) => {
                return Err(RuntimeDeviceError::InvalidState(m));
            },
        }
        self.open_request = Some(request);
        self.filter_engine = engine;
        Ok(())
    }

    /// The request the handle was opened with.
    pub fn last_open_request(&self) -> (r: Option<&OpenRequest>)
        ensures
            match self.spec_request() {
                Some(q) => r == Some(&q),
                None => r is None,
            },
    {
        match &self.open_request {
            Some(q) => Some(q),
            None => None,
        }
    }

    fn filter_allows_event(&self, event: &DriverEvent) -> (b: bool)
        ensures
            b == filter_allows(self.spec_engine(), *event),
    {
        match &self.filter_engine {
            None => true,
            Some(engine) => engine.matches(event),
        }
    }

    fn filter_allows_network(&self, layer: Layer, packet: &[u8]) -> (b: bool)
        ensures
            b == filter_allows_packet(self.spec_engine(), layer, packet@),
    {
        match &self.filter_engine {
            None => true,
            Some(engine) => match layer {
                Layer::Network | Layer::NetworkForward => engine.matches_network_packet(layer, packet),
                _ => true,
            },
        }
    }

    fn enqueue_frame(&mut self, raw: &[u8]) -> (r: Result<(), RuntimeDeviceError>)
        requires
            old(self).wf(),
        ensures
            final(self).wf(),
            final(self).spec_state() == old(self).spec_state(),
            final(self).spec_request() == old(self).spec_request(),
            final(self).spec_engine() == old(self).spec_engine(),
            final(self).spec_tokens() == old(self).spec_tokens(),
            final(self).spec_capacity() == old(self).spec_capacity(),
            raw@.len() <= 2048 || old(self).spec_capacity() == 0 ==> r is Ok
                && final(self).spec_frames() == enqueue(old(self).spec_frames(), old(self).spec_capacity(), raw@),
            raw@.len() > 2048 && old(self).spec_capacity() != 0 ==> r == Err::<(), RuntimeDeviceError>(
                RuntimeDeviceError::QueueStorage(ByteRingError::FrameTooLarge),
            ),
    {
        if self.queue_capacity != 0 {
            let effective_capacity = if self.queue_capacity < 32 { self.queue_capacity } else { 32 };
            if self.queue.len() == effective_capacity {
                let _ = self.queue.drop_oldest();
            }
            match self.queue.push(raw) {
                Ok(()) => {},
                Err(e) => {
                    return Err(RuntimeDeviceError::QueueStorage(e));
                },
            }
        }
        Ok(())
    }

    /// Queues a network event for a packet when the handle is running and
    /// its filter lets the packet through, spending a reinjection token.
    pub fn queue_network_event(&mut self, layer: Layer, packet_id: u64, packet: &[u8]) -> (r: Result<(), RuntimeDeviceError>)
        requires
            old(self).wf(),
            packet@.len() <= isize::MAX,
        ensures
            final(self).wf(),
            network_event_queued(*old(self), *final(self), layer, packet_id, packet@, r),
    {
        if !matches!(self.state, HandleState::Running) {
            return Err(RuntimeDeviceError::RecvDisabled);
        }
        if !self.filter_allows_network(layer, packet) {
            return Ok(());
        }
        let mut raw: Vec<u8> = vec![0u8; 2048];
        let written = match NetworkRuntime::issue_event_into(&mut self.reinjection, layer, packet_id, packet, raw.as_mut_slice()) {
            Ok(n) => n,
            Err(e) => {
                return Err(RuntimeDeviceError::NetworkRuntime(e));
            },
        };
        proof {
            lemma_network_frame_len(layer, spec_issue(old(self).spec_tokens(), 256, packet_id).1, packet@);
        }
        let frame = slice_subrange(raw.as_slice(), 0, written);
        proof {
            assert(frame@ =~= network_event_frame(layer, spec_issue(old(self).spec_tokens(), 256, packet_id).1, packet@));
        }
        self.enqueue_frame(frame)
    }

    fn ensure_recv_running(&self) -> (r: Result<(), RuntimeDeviceError>)
        ensures
            self.spec_state() == HandleState::Running ==> r is Ok,
            self.spec_state() != HandleState::Running ==> r == Err::<(), RuntimeDeviceError>(RuntimeDeviceError::RecvDisabled),
    {
        if !matches!(self.state, HandleState::Running) {
            return Err(RuntimeDeviceError::RecvDisabled);
        }
        Ok(())
    }

    /// Queues a socket event when the handle is running and its filter
    /// lets the connect event of the process through.
    pub fn queue_socket_event(&mut self, kind: SocketEventKind, process_id: u64) -> (r: Result<(), RuntimeDeviceError>)
        requires
            old(self).wf(),
        ensures
            final(self).wf(),
            socket_event_queued(*old(self), *final(self), kind, process_id, r),
    {
        match self.ensure_recv_running() {
            Ok(()) => {},
            Err(e) => {
                return Err(e);
            },
        }
        let event = DriverEvent::socket_connect(process_id);
        if !self.filter_allows_event(&event) {
            return Ok(());
        }
        proof {
            lemma_event_frame_lens(kind, FlowEventKind::Established, 0, process_id);
        }
        let mut payload: Vec<u8> = vec![0u8; 16];
        let payload_written = match encode_socket_event_payload_into(kind, process_id, payload.as_mut_slice()) {
            Ok(n) => n,
            Err(e) => {
                return Err(RuntimeDeviceError::EncodeInto(e));
            },
        };
        let body = slice_subrange(payload.as_slice(), 0, payload_written);
        let mut raw: Vec<u8> = vec![0u8; 2048];
        let written = match encode_runtime_event_into(Layer::Socket, body, raw.as_mut_slice()) {
            Ok(n) => n,
            Err(e) => {
                return Err(RuntimeDeviceError::EncodeInto(e));
            },
        };
        let frame = slice_subrange(raw.as_slice(), 0, written);
        proof {
            assert(body@ =~= spec_socket_payload_bytes(kind, process_id));
            assert(frame@ =~= spec_runtime_event_bytes(Layer::Socket, spec_socket_payload_bytes(kind, process_id)));
        }
        self.enqueue_frame(frame)
    }

    /// Queues a flow event when the handle is running and its filter lets
    /// the established event of the flow through.
    pub fn queue_flow_event(&mut self, kind: FlowEventKind, flow_id: u64, process_id: u64) -> (r: Result<(), RuntimeDeviceError>)
        requires
            old(self).wf(),
        ensures
            final(self).wf(),
            flow_event_queued(*old(self), *final(self), kind, flow_id, process_id, r),
    {
        match self.ensure_recv_running() {
            Ok(()) => {},
            Err(e) => {
                return Err(e);
            },
        }
        let event = DriverEvent::flow_established(flow_id, process_id);
        if !self.filter_allows_event(&event) {
            return Ok(());
        }
        proof {
            lemma_event_frame_lens(SocketEventKind::Connect, kind, flow_id, process_id);
        }
        let mut payload: Vec<u8> = vec![0u8; 24];
        let payload_written = match encode_flow_event_payload_into(kind, flow_id, process_id, payload.as_mut_slice()) {
            Ok(n) => n,
            Err(e) => {
                return Err(RuntimeDeviceError::EncodeInto(e));
            },
        };
        let body = slice_subrange(payload.as_slice(), 0, payload_written);
        let mut raw: Vec<u8> = vec![0u8; 2048];
        let written = match encode_runtime_event_into(Layer::Flow, body, raw.as_mut_slice()) {
            Ok(n) => n,
            Err(e) => {
                return Err(RuntimeDeviceError::EncodeInto(e));
            },
        };
        let frame = slice_subrange(raw.as_slice(), 0, written);
        proof {
            assert(body@ =~= spec_flow_payload_bytes(kind, flow_id, process_id));
            assert(frame@ =~= spec_runtime_event_bytes(Layer::Flow, spec_flow_payload_bytes(kind, flow_id, process_id)));
        }
        self.enqueue_frame(frame)
    }

    /// Hands the oldest queued frame to user mode.
    pub fn recv_into(&mut self, output: &mut [u8]) -> (r: Result<usize, RuntimeDeviceError>)
        requires
            old(self).wf(),
        ensures
            final(self).wf(),
            final(self).spec_state() == old(self).spec_state(),
            final(self).spec_request() == old(self).spec_request(),
            final(self).spec_engine() == old(self).spec_engine(),
            final(self).spec_capacity() == old(self).spec_capacity(),
            final(self).spec_tokens() == old(self).spec_tokens(),
            old(self).spec_state() != HandleState::Running ==> r == Err::<usize, RuntimeDeviceError>(RuntimeDeviceError::RecvDisabled)
                && final(self).spec_frames() == old(self).spec_frames() && final(output)@ == old(output)@,
            old(self).spec_state() == HandleState::Running && old(self).spec_frames().len() == 0 ==>
                r == Err::<usize, RuntimeDeviceError>(RuntimeDeviceError::QueueEmpty)
                && final(self).spec_frames() == old(self).spec_frames() && final(output)@ == old(output)@,
            old(self).spec_state() == HandleState::Running && old(self).spec_frames().len() > 0
                && old(self).spec_frames()[0].len() > old(output)@.len() ==> r == Err::<usize, RuntimeDeviceError>(
                    RuntimeDeviceError::QueueStorage(ByteRingError::OutputTooSmall {
                        required: old(self).spec_frames()[0].len() as usize,
                        provided: old(output)@.len() as usize,
                    }),
                ) && final(self).spec_frames() == old(self).spec_frames() && final(output)@ == old(output)@,
            old(self).spec_state() == HandleState::Running && old(self).spec_frames().len() > 0
                && old(self).spec_frames()[0].len() <= old(output)@.len() ==> r == Ok::<usize, RuntimeDeviceError>(
                    old(self).spec_frames()[0].len() as usize,
                ) && final(self).spec_frames() == old(self).spec_frames().drop_first()
                && final(output)@ == spliced(old(output)@, 0, old(self).spec_frames()[0]),
    {
        if !matches!(self.state, HandleState::Running) {
            return Err(RuntimeDeviceError::RecvDisabled);
        }
        match self.queue.pop_into(output) {
            Err(e) => Err(RuntimeDeviceError::QueueStorage(e)),
            Ok(None) => Err(RuntimeDeviceError::QueueEmpty),
            Ok(Some(n)) => Ok(n),
        }
    }

    /// Accepts a send request while sending is open (Running or
    /// RecvShutdown).
    pub fn send(&mut self, raw: &[u8]) -> (r: Result<AcceptedReinjection, RuntimeDeviceError>)
        requires
            old(self).wf(),
        ensures
            final(self).wf(),
            final(self).spec_state() == old(self).spec_state(),
            final(self).spec_request() == old(self).spec_request(),
            final(self).spec_engine() == old(self).spec_engine(),
            final(self).spec_capacity() == old(self).spec_capacity(),
            final(self).spec_frames() == old(self).spec_frames(),
            ({
                let s = old(self).spec_state();
                if s == HandleState::SendShutdown || s == HandleState::Closing || s == HandleState::Closed {
                    r == Err::<AcceptedReinjection, RuntimeDeviceError>(RuntimeDeviceError::SendDisabled)
                        && final(self).spec_tokens() == old(self).spec_tokens()
                } else if s == HandleState::Opening {
                    (r matches Err(RuntimeDeviceError::InvalidState(m)) && m@ == "send requires Running or RecvShutdown state"@)
                        && final(self).spec_tokens() == old(self).spec_tokens()
                } else {
                    &&& final(self).spec_tokens() == spec_accept(old(self).spec_tokens(), raw@).0
                    &&& match spec_accept(old(self).spec_tokens(), raw@).1 {
                        Ok((layer, id, bytes)) => r matches Ok(a) && a.layer == layer && a.packet_id == id && a.packet.view() == bytes,
                        Err(e) => r == Err::<AcceptedReinjection, RuntimeDeviceError>(RuntimeDeviceError::NetworkRuntime(e)),
                    }
                }
            }),
    {
        if matches!(self.state, HandleState::SendShutdown | HandleState::Closing | HandleState::Closed) {
            return Err(RuntimeDeviceError::SendDisabled);
        }
        if matches!(self.state, HandleState::Opening) {
            return Err(RuntimeDeviceError::InvalidState("send requires Running or RecvShutdown state"));
        }
        match NetworkRuntime::accept_send(&mut self.reinjection, raw) {
            Ok(a) => Ok(a),
            Err(e) => Err(RuntimeDeviceError::NetworkRuntime(e)),
        }
    }

    /// Running -> RecvShutdown.
    pub fn shutdown_recv(&mut self) -> (r: Result<(), RuntimeDeviceError>)
        requires
            old(self).wf(),
        ensures
            final(self).wf(),
            final(self).spec_request() == old(self).spec_request(),
            final(self).spec_engine() == old(self).spec_engine(),
            final(self).spec_capacity() == old(self).spec_capacity(),
            final(self).spec_frames() == old(self).spec_frames(),
            final(self).spec_tokens() == old(self).spec_tokens(),
            match spec_shutdown_recv(old(self).spec_state()) {
                Some(s) => r is Ok && final(self).spec_state() == s,
                None => (r matches Err(RuntimeDeviceError::InvalidState(m)) && m@ == "shutdown_recv requires Running state"@)
                    && final(self).spec_state() == old(self).spec_state(),
            },
    {
        match self.state.shutdown_recv() {
            Ok(()) => Ok(()),
            Err(m) => Err(RuntimeDeviceError::InvalidState(m)),
        }
    }

    /// RecvShutdown -> SendShutdown.
    pub fn shutdown_send(&mut self) -> (r: Result<(), RuntimeDeviceError>)
        requires
            old(self).wf(),
        ensures
            final(self).wf(),
            final(self).spec_request() == old(self).spec_request(),
            final(self).spec_engine() == old(self).spec_engine(),
            final(self).spec_capacity() == old(self).spec_capacity(),
            final(self).spec_frames() == old(self).spec_frames(),
            final(self).spec_tokens() == old(self).spec_tokens(),
            match spec_shutdown_send(old(self).spec_state()) {
                Some(s) => r is Ok && final(self).spec_state() == s,
                None => (r matches Err(RuntimeDeviceError::InvalidState(m)) && m@ == "shutdown_send requires RecvShutdown state"@)
                    && final(self).spec_state() == old(self).spec_state(),
            },
    {
        match self.state.shutdown_send() {
            Ok(()) => Ok(()),
            Err(m) => Err(RuntimeDeviceError::InvalidState(m)),
        }
    }

    /// SendShutdown -> Closed, dropping the request, the filter and every
    /// queued frame.
    pub fn close(&mut self) -> (r: Result<(), RuntimeDeviceError>)
        requires
            old(self).wf(),
        ensures
            final(self).wf(),
            final(self).spec_capacity() == old(self).spec_capacity(),
            final(self).spec_tokens() == old(self).spec_tokens(),
            match spec_close(old(self).spec_state()) {
                Some(s) => r is Ok && final(self).spec_state() == s && final(self).spec_request() is None
                    && final(self).spec_engine() is None && final(self).spec_frames() == Seq::<Seq<u8>>::empty(),
                None => (r matches Err(RuntimeDeviceError::InvalidState(m)) && m@ == "close requires SendShutdown state"@)
                    && final(self).spec_state() == old(self).spec_state()
                    && final(self).spec_request() == old(self).spec_request()
                    && final(self).spec_engine() == old(self).spec_engine()
                    && final(self).spec_frames() == old(self).spec_frames(),
            },
    {
        match self.state.close() {
            Ok(()) => {},
            Err(m) => {
                return Err(RuntimeDeviceError::InvalidState(m));
            },
        }
        self.open_request = None;
        self.filter_engine = None;
        self.queue.clear();
        Ok(())
    }
}

proof fn lemma_network_frame_len(layer: Layer, token: u64, packet: Seq<u8>)
    requires
        packet.len() <= isize::MAX,
    ensures
        network_event_frame(layer, token, packet).len() == 32 + packet.len(),
{
    lemma_auto_spec_u16_to_from_le_bytes();
    lemma_auto_spec_u32_to_from_le_bytes();
    lemma_auto_spec_u64_to_from_le_bytes();
}

proof fn lemma_event_frame_lens(sk: SocketEventKind, fk: FlowEventKind, flow_id: u64, process_id: u64)
    ensures
        spec_socket_payload_bytes(sk, process_id).len() == 16,
        spec_flow_payload_bytes(fk, flow_id, process_id).len() == 24,
        spec_runtime_event_bytes(Layer::Socket, spec_socket_payload_bytes(sk, process_id)).len() == 32,
        spec_runtime_event_bytes(Layer::Flow, spec_flow_payload_bytes(fk, flow_id, process_id)).len() == 40,
{
    lemma_auto_spec_u16_to_from_le_bytes();
    lemma_auto_spec_u32_to_from_le_bytes();
    lemma_auto_spec_u64_to_from_le_bytes();
}

fn compile_filter_for_request(request: &OpenRequest) -> (r: Result<Option<FilterEngine>, RuntimeDeviceError>)
    ensures
        match request_filter(request.layer, request.filter_ir@) {
            Ok(None) => r matches Ok(None),
            Ok(Some(v)) => r matches Ok(Some(e)) && e@ == v,
            Err(m) => r matches Err(RuntimeDeviceError::FilterCompile(e)) && e@ == m,
        },
{
    if request.filter_ir.len() == 0 {
        return Ok(None);
    }
    match FilterEngine::from_ir_bytes(request.layer, request.filter_ir.as_slice()) {
        Ok(e) => Ok(Some(e)),
        Err(e) => Err(RuntimeDeviceError::FilterCompile(e)),
    }
}


/// The text of a device error.
pub open spec fn device_error_text(e: RuntimeDeviceError) -> Seq<char> {
    match e {
        RuntimeDeviceError::InvalidState(m) => m@,
        RuntimeDeviceError::RecvDisabled => "runtime recv path is disabled"@,
        RuntimeDeviceError::SendDisabled => "runtime send path is disabled"@,
        RuntimeDeviceError::QueueEmpty => "runtime queue is empty"@,
        RuntimeDeviceError::FilterCompile(x) => x@,
        RuntimeDeviceError::EncodeInto(EncodeIntoError::BufferTooSmall { required, provided }) =>
            "runtime encode buffer too small: required "@ + decimal(required as nat) + " bytes but provided "@
                + decimal(provided as nat) + ""@,
        RuntimeDeviceError::QueueStorage(ByteRingError::FrameTooLarge) => "runtime frame exceeds fixed queue storage"@,
        RuntimeDeviceError::QueueStorage(ByteRingError::OutputTooSmall { required, provided }) =>
            "runtime output buffer too small: required "@ + decimal(required as nat) + " bytes but provided "@
                + decimal(provided as nat) + ""@,
        RuntimeDeviceError::NetworkRuntime(x) => network_error_text(x),
    }
}

impl RuntimeDeviceError {
    /// The error's text.
    pub fn to_string(&self) -> (s: String)
        ensures
            s@ == device_error_text(*self),
    {
        match self {
            RuntimeDeviceError::InvalidState(m) => (*m).to_owned(),
            RuntimeDeviceError::RecvDisabled => "runtime recv path is disabled".to_owned(),
            RuntimeDeviceError::SendDisabled => "runtime send path is disabled".to_owned(),
            RuntimeDeviceError::QueueEmpty => "runtime queue is empty".to_owned(),
            RuntimeDeviceError::FilterCompile(x) => x.to_string(),
            RuntimeDeviceError::EncodeInto(EncodeIntoError::BufferTooSmall { required, provided }) => with_two_numbers(
                "runtime encode buffer too small: required ", *required as u64, " bytes but provided ", *provided as u64, ""),
            RuntimeDeviceError::QueueStorage(ByteRingError::FrameTooLarge) => "runtime frame exceeds fixed queue storage".to_owned(),
            RuntimeDeviceError::QueueStorage(ByteRingError::OutputTooSmall { required, provided }) => with_two_numbers(
                "runtime output buffer too small: required ", *required as u64, " bytes but provided ", *provided as u64, ""),
            RuntimeDeviceError::NetworkRuntime(x) => x.to_string(),
        }
    }
}

} // verus!
