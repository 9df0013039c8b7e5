//! The binary protocol spoken between user mode and the driver: the open
//! handshake, runtime event frames with their network, socket and flow
//! payloads, and runtime send (reinjection) requests.
//!
//! Every multi-byte integer is little-endian. Each decoder is specified by a
//! `spec_*_check` function giving the error, if any, for a byte sequence, and
//! by the fields it reads at fixed offsets; each encoder by the exact byte
//! sequence it produces. The `lemma_*_roundtrip` proofs state that decoding
//! what an encoder produced gives the encoded values back.
use vstd::prelude::*;
use vstd::bytes::*;
use vstd::slice::slice_subrange;
use crate::wire::{read_u16_le, read_u32_le, read_u64_le, push_u16_le, push_u32_le, push_u64_le, extend_bytes, copy_into, spliced, spec_i16_to_le_bytes, lemma_i16_u16_roundtrip};

use crate::text::{decimal, with_number, with_two_numbers};
use vstd::string::StringExecFns;

verus! {

broadcast use vstd::seq_lib::group_seq_properties;

/// Protocol version carried in every header.
#[derive(Debug, Clone, Copy, PartialEq, Eq, Structural)]
pub struct ProtocolVersion {
    pub major: u16,
    pub minor: u16,
}

impl ProtocolVersion {
    /// The version this build speaks: 0.1.
    pub open spec fn spec_current() -> ProtocolVersion {
        ProtocolVersion { major: 0, minor: 1 }
    }

    /// The version this build speaks: 0.1.
    pub fn current() -> (v: ProtocolVersion)
        ensures
            v == Self::spec_current(),
    {
        ProtocolVersion { major: 0, minor: 1 }
    }
}

/// Whether a version is the one this build speaks.
pub open spec fn is_current(major: u16, minor: u16) -> bool {
    major == 0 && minor == 1
}

/// The five interception layers.
#[derive(Debug, Clone, Copy, PartialEq, Eq, Structural)]
pub enum Layer {
    Network,
    NetworkForward,
    Flow,
    Socket,
    Reflect,
}

impl Layer {
    /// Wire code of a layer.
    pub open spec fn spec_wire(self) -> u8 {
        match self {
            Layer::Network => 1,
            Layer::NetworkForward => 2,
            Layer::Flow => 3,
            Layer::Socket => 4,
            Layer::Reflect => 5,
        }
    }

    /// Layer of a wire code, if the code names one.
    pub open spec fn spec_from_wire(value: u8) -> Option<Layer> {
        if value == 1 {
            Some(Layer::Network)
        } else if value == 2 {
            Some(Layer::NetworkForward)
        } else if value == 3 {
            Some(Layer::Flow)
        } else if value == 4 {
            Some(Layer::Socket)
        } else if value == 5 {
            Some(Layer::Reflect)
        } else {
            None
        }
    }

    /// Every layer, in wire-code order.
    pub fn all() -> (r: [Layer; 5])
        ensures
            r@ == seq![Layer::Network, Layer::NetworkForward, Layer::Flow, Layer::Socket, Layer::Reflect],
    {
        let r = [Layer::Network, Layer::NetworkForward, Layer::Flow, Layer::Socket, Layer::Reflect];
        assert(r@ =~= seq![Layer::Network, Layer::NetworkForward, Layer::Flow, Layer::Socket, Layer::Reflect]);
        r
    }

    /// Wire code of this layer.
    pub fn to_wire(self) -> (w: u8)
        ensures
            w == self.spec_wire(),
    {
        match self {
            Layer::Network => 1,
            Layer::NetworkForward => 2,
            Layer::Flow => 3,
            Layer::Socket => 4,
            Layer::Reflect => 5,
        }
    }

    /// Layer named by a wire code; `None` for any other byte.
    pub fn from_wire(value: u8) -> (r: Option<Layer>)
        ensures
            r == Self::spec_from_wire(value),
    {
        match value {
            1 => Some(Layer::Network),
            2 => Some(Layer::NetworkForward),
            3 => Some(Layer::Flow),
            4 => Some(Layer::Socket),
            5 => Some(Layer::Reflect),
            _ => None,
        }
    }
}

/// A layer's wire code names that layer, and a byte that names a layer is
/// that layer's wire code.
pub proof fn lemma_layer_wire_roundtrip(layer: Layer, value: u8)
    ensures
        Layer::spec_from_wire(layer.spec_wire()) == Some(layer),
        Layer::spec_from_wire(value) matches Some(l) ==> l.spec_wire() == value,
{
}

/// Capabilities a driver reports in its open response.
#[derive(Debug, Clone, Copy, PartialEq, Eq, Structural)]
pub struct CapabilityFlags {
    bits: u32,
}

impl CapabilityFlags {
    /// The flag with bit 0x0001.
    pub fn checksum_recalc() -> (f: CapabilityFlags)
        ensures
            f.spec_bits() == 0x0001,
    {
        CapabilityFlags { bits: 0x0001 }
    }

    /// The flag with bit 0x0002.
    pub fn network_reinject() -> (f: CapabilityFlags)
        ensures
            f.spec_bits() == 0x0002,
    {
        CapabilityFlags { bits: 0x0002 }
    }

    /// The flag with bit 0x0004.
    pub fn flow_events() -> (f: CapabilityFlags)
        ensures
            f.spec_bits() == 0x0004,
    {
        CapabilityFlags { bits: 0x0004 }
    }

    /// The flag with bit 0x0008.
    pub fn socket_events() -> (f: CapabilityFlags)
        ensures
            f.spec_bits() == 0x0008,
    {
        CapabilityFlags { bits: 0x0008 }
    }

    /// The flag with bit 0x0010.
    pub fn reflect_events() -> (f: CapabilityFlags)
        ensures
            f.spec_bits() == 0x0010,
    {
        CapabilityFlags { bits: 0x0010 }
    }

    /// The raw bit set.
    pub closed spec fn spec_bits(self) -> u32 {
        self.bits
    }

    /// The raw bit set.
    pub fn bits(self) -> (b: u32)
        ensures
            b == self.spec_bits(),
    {
        self.bits
    }

    /// Every flag of either set.
    pub fn union(self, other: CapabilityFlags) -> (r: CapabilityFlags)
        ensures
            r.spec_bits() == self.spec_bits() | other.spec_bits(),
    {
        CapabilityFlags { bits: self.bits | other.bits }
    }

    /// Whether every flag of `other` is set here.
    pub fn contains(self, other: CapabilityFlags) -> (r: bool)
        ensures
            r == (self.spec_bits() & other.spec_bits() == other.spec_bits()),
    {
        self.bits & other.bits == other.bits
    }
}

/// The handshake request that opens a handle.
#[derive(Debug, Clone, PartialEq, Eq)]
pub struct OpenRequest {
    pub version: ProtocolVersion,
    pub layer: Layer,
    pub priority: i16,
    pub flags: u64,
    pub filter_len: u32,
    pub filter_ir: Vec<u8>,
}

impl OpenRequest {
    /// A request in the current version; `filter_len` is the filter's
    /// length, cut to 32 bits.
    pub fn new(layer: Layer, filter_ir: Vec<u8>, priority: i16, flags: u64) -> (r: OpenRequest)
        ensures
            r.version == ProtocolVersion::spec_current(),
            r.layer == layer,
            r.priority == priority,
            r.flags == flags,
            r.filter_len == filter_ir@.len() as u32,
            r.filter_ir@ == filter_ir@,
    {
        let filter_len = filter_ir.len() as u32;
        OpenRequest { version: ProtocolVersion::current(), layer, priority, flags, filter_len, filter_ir }
    }
}

/// The driver's answer to an open request.
#[derive(Debug, Clone, Copy, PartialEq, Eq, Structural)]
pub struct OpenResponse {
    pub version: ProtocolVersion,
    pub capabilities: u32,
    pub status: u32,
}

impl OpenResponse {
    /// A successful response (status 0) in the current version.
    pub fn success(capabilities: u32) -> (r: OpenResponse)
        ensures
            r == (OpenResponse { version: ProtocolVersion::spec_current(), capabilities, status: 0 }),
    {
        OpenResponse { version: ProtocolVersion::current(), capabilities, status: 0 }
    }
}

pub const OPEN_REQUEST_HEADER_LEN: usize = 20;
pub const OPEN_RESPONSE_LEN: usize = 12;
pub const RUNTIME_EVENT_MAGIC: [u8; 4] = [0x57, 0x44, 0x52, 0x54];
pub const RUNTIME_EVENT_HEADER_LEN: usize = 16;
pub const RUNTIME_SEND_MAGIC: [u8; 4] = [0x57, 0x44, 0x53, 0x4e];
pub const RUNTIME_SEND_HEADER_LEN: usize = 24;
pub const SOCKET_EVENT_PAYLOAD_LEN: usize = 16;
pub const FLOW_EVENT_PAYLOAD_LEN: usize = 24;
pub const NETWORK_EVENT_PAYLOAD_MAGIC: [u8; 4] = [0x57, 0x44, 0x4e, 0x57];
pub const NETWORK_EVENT_PAYLOAD_HEADER_LEN: usize = 16;

/// The bytes `WDRT` that open a runtime event frame.
pub open spec fn event_magic() -> Seq<u8> {
    seq![0x57u8, 0x44u8, 0x52u8, 0x54u8]
}

/// The bytes `WDSN` that open a runtime send request.
pub open spec fn send_magic() -> Seq<u8> {
    seq![0x57u8, 0x44u8, 0x53u8, 0x4eu8]
}

/// The bytes `WDNW` that open a network event payload.
pub open spec fn network_magic() -> Seq<u8> {
    seq![0x57u8, 0x44u8, 0x4eu8, 0x57u8]
}

/// Little-endian `u16` at `raw[at .. at + 2]`.
pub open spec fn le16_at(raw: Seq<u8>, at: int) -> u16 {
    spec_u16_from_le_bytes(raw.subrange(at, at + 2))
}

/// Little-endian `u32` at `raw[at .. at + 4]`.
pub open spec fn le32_at(raw: Seq<u8>, at: int) -> u32 {
    spec_u32_from_le_bytes(raw.subrange(at, at + 4))
}

/// Little-endian `u64` at `raw[at .. at + 8]`.
pub open spec fn le64_at(raw: Seq<u8>, at: int) -> u64 {
    spec_u64_from_le_bytes(raw.subrange(at, at + 8))
}

/// Bytes of a version: major then minor.
pub open spec fn version_bytes(major: u16, minor: u16) -> Seq<u8> {
    spec_u16_to_le_bytes(major) + spec_u16_to_le_bytes(minor)
}

/// Header of a runtime event frame.
#[derive(Debug, Clone, Copy, PartialEq, Eq, Structural)]
pub struct RuntimeEventHeader {
    pub version: ProtocolVersion,
    pub layer: Layer,
    pub payload_len: u32,
}

/// A decoded runtime event frame; `payload` borrows from the raw bytes.
#[derive(Debug, Clone, Copy, PartialEq, Eq)]
pub struct RuntimeEventFrame<'a> {
    pub header: RuntimeEventHeader,
    pub payload: &'a [u8],
}

/// A decoded network event payload; `packet` borrows from the raw bytes.
#[derive(Debug, Clone, Copy, PartialEq, Eq)]
pub struct NetworkEventPayload<'a> {
    pub reinjection_token: u64,
    pub packet: &'a [u8],
}

/// Header of a runtime send request.
#[derive(Debug, Clone, Copy, PartialEq, Eq, Structural)]
pub struct RuntimeSendRequestHeader {
    pub version: ProtocolVersion,
    pub layer: Layer,
    pub reinjection_token: u64,
    pub payload_len: u32,
}

/// A decoded runtime send request; `payload` borrows from the raw bytes.
#[derive(Debug, Clone, Copy, PartialEq, Eq)]
pub struct RuntimeSendRequest<'a> {
    pub header: RuntimeSendRequestHeader,
    pub payload: &'a [u8],
}

/// Kinds of socket events.
#[derive(Debug, Clone, Copy, PartialEq, Eq, Structural)]
pub enum SocketEventKind {
    Connect,
}

impl SocketEventKind {
    /// Wire code of a socket event kind.
    pub open spec fn spec_code(self) -> u32 {
        match self {
            SocketEventKind::Connect => 2,
        }
    }

    /// Kind of a wire code, if the code names one.
    pub open spec fn spec_from_code(value: u32) -> Option<SocketEventKind> {
        if value == 2 { Some(SocketEventKind::Connect) } else { None }
    }

    /// Wire code of this kind.
    pub fn code(self) -> (c: u32)
        ensures
            c == self.spec_code(),
    {
        match self {
            SocketEventKind::Connect => 2,
        }
    }

    /// Kind named by a wire code; `None` for any other value.
    pub fn from_code(value: u32) -> (r: Option<SocketEventKind>)
        ensures
            r == Self::spec_from_code(value),
    {
        if value == 2 { Some(SocketEventKind::Connect) } else { None }
    }
}

/// Kinds of flow events.
#[derive(Debug, Clone, Copy, PartialEq, Eq, Structural)]
pub enum FlowEventKind {
    Established,
}

impl FlowEventKind {
    /// Wire code of a flow event kind.
    pub open spec fn spec_code(self) -> u32 {
        match self {
            FlowEventKind::Established => 4,
        }
    }

    /// Kind of a wire code, if the code names one.
    pub open spec fn spec_from_code(value: u32) -> Option<FlowEventKind> {
        if value == 4 { Some(FlowEventKind::Established) } else { None }
    }

    /// Wire code of this kind.
    pub fn code(self) -> (c: u32)
        ensures
            c == self.spec_code(),
    {
        match self {
            FlowEventKind::Established => 4,
        }
    }

    /// Kind named by a wire code; `None` for any other value.
    pub fn from_code(value: u32) -> (r: Option<FlowEventKind>)
        ensures
            r == Self::spec_from_code(value),
    {
        if value == 4 { Some(FlowEventKind::Established) } else { None }
    }
}

/// Event kind codes name their kinds and nothing else.
pub proof fn lemma_event_kind_code_roundtrip(s: SocketEventKind, f: FlowEventKind, value: u32)
    ensures
        SocketEventKind::spec_from_code(s.spec_code()) == Some(s),
        FlowEventKind::spec_from_code(f.spec_code()) == Some(f),
        SocketEventKind::spec_from_code(value) matches Some(k) ==> k.spec_code() == value,
        FlowEventKind::spec_from_code(value) matches Some(k) ==> k.spec_code() == value,
{
}

/// A socket event: its kind and the process that raised it.
#[derive(Debug, Clone, Copy, PartialEq, Eq, Structural)]
pub struct SocketEventPayload {
    kind: SocketEventKind,
    process_id: u64,
}

impl SocketEventPayload {
    /// Kind of the event.
    pub closed spec fn spec_kind(self) -> SocketEventKind {
        self.kind
    }

    /// Process of the event.
    pub closed spec fn spec_process_id(self) -> u64 {
        self.process_id
    }

    /// A payload with the given fields.
    pub fn new(kind: SocketEventKind, process_id: u64) -> (p: SocketEventPayload)
        ensures
            p.spec_kind() == kind,
            p.spec_process_id() == process_id,
    {
        SocketEventPayload { kind, process_id }
    }

    /// Kind of the event.
    pub fn kind(self) -> (k: SocketEventKind)
        ensures
            k == self.spec_kind(),
    {
        self.kind
    }

    /// Process of the event.
    pub fn process_id(self) -> (p: u64)
        ensures
            p == self.spec_process_id(),
    {
        self.process_id
    }
}

/// A flow event: its kind, the flow and the process that owns it.
#[derive(Debug, Clone, Copy, PartialEq, Eq, Structural)]
pub struct FlowEventPayload {
    kind: FlowEventKind,
    flow_id: u64,
    process_id: u64,
}

impl FlowEventPayload {
    /// Kind of the event.
    pub closed spec fn spec_kind(self) -> FlowEventKind {
        self.kind
    }

    /// Flow of the event.
    pub closed spec fn spec_flow_id(self) -> u64 {
        self.flow_id
    }

    /// Process of the event.
    pub closed spec fn spec_process_id(self) -> u64 {
        self.process_id
    }

    /// A payload with the given fields.
    pub fn new(kind: FlowEventKind, flow_id: u64, process_id: u64) -> (p: FlowEventPayload)
        ensures
            p.spec_kind() == kind,
            p.spec_flow_id() == flow_id,
            p.spec_process_id() == process_id,
    {
        FlowEventPayload { kind, flow_id, process_id }
    }

    /// Kind of the event.
    pub fn kind(self) -> (k: FlowEventKind)
        ensures
            k == self.spec_kind(),
    {
        self.kind
    }

    /// Flow of the event.
    pub fn flow_id(self) -> (f: u64)
        ensures
            f == self.spec_flow_id(),
    {
        self.flow_id
    }

    /// Process of the event.
    pub fn process_id(self) -> (p: u64)
        ensures
            p == self.spec_process_id(),
    {
        self.process_id
    }
}

/// Why a runtime event frame, or a payload inside one, failed to decode.
#[derive(Debug, Clone, PartialEq, Eq, Structural)]
pub enum RuntimeEventDecodeError {
    HeaderTooShort,
    InvalidMagic,
    UnsupportedLayer(u8),
    ProtocolVersionMismatch { major: u16, minor: u16 },
    TruncatedPayload { expected: usize, actual: usize },
    NetworkPayloadHeaderTooShort,
    InvalidNetworkPayloadMagic,
    TruncatedNetworkPacket { expected: usize, actual: usize },
    InvalidSocketPayloadLength(usize),
    InvalidFlowPayloadLength(usize),
    UnsupportedSocketEventKind(u32),
    UnsupportedFlowEventKind(u32),
}

/// Why a runtime send request failed to decode.
#[derive(Debug, Clone, PartialEq, Eq, Structural)]
pub enum RuntimeSendDecodeError {
    HeaderTooShort,
    InvalidMagic,
    UnsupportedLayer(u8),
    ProtocolVersionMismatch { major: u16, minor: u16 },
    TruncatedPayload { expected: usize, actual: usize },
}

/// Why an open request failed to decode.
#[derive(Debug, Clone, PartialEq, Eq, Structural)]
pub enum OpenRequestDecodeError {
    HeaderTooShort,
    UnsupportedLayer(u8),
    ProtocolVersionMismatch { major: u16, minor: u16 },
    TruncatedFilter { expected: usize, actual: usize },
}

/// Why an open response failed to decode.
#[derive(Debug, Clone, PartialEq, Eq, Structural)]
pub enum OpenResponseDecodeError {
    BufferTooShort,
    ProtocolVersionMismatch { major: u16, minor: u16 },
}

/// Why an encoder could not write into a caller's buffer.
#[derive(Debug, Clone, PartialEq, Eq, Structural)]
pub enum EncodeIntoError {
    BufferTooSmall { required: usize, provided: usize },
}

/// What an encoder writing into `old` (leaving `new`) must do with the
/// encoding `bytes`: refuse a buffer that is too short and leave it as it
/// was, or write `bytes` at its start and report their length.
pub open spec fn encoded_into(
    old: Seq<u8>,
    new: Seq<u8>,
    bytes: Seq<u8>,
    r: Result<usize, EncodeIntoError>,
) -> bool {
    if old.len() < bytes.len() {
        &&& r == Err::<usize, EncodeIntoError>(
            EncodeIntoError::BufferTooSmall { required: bytes.len() as usize, provided: old.len() as usize },
        )
        &&& new == old
    } else {
        &&& r == Ok::<usize, EncodeIntoError>(bytes.len() as usize)
        &&& new == spliced(old, 0, bytes)
    }
}

/// Writes `bytes` at the start of `output`, or refuses a short buffer.
fn write_encoded(bytes: &Vec<u8>, output: &mut [u8]) -> (r: Result<usize, EncodeIntoError>)
    ensures
        encoded_into(old(output)@, final(output)@, bytes@, r),
{
    if output.len() < bytes.len() {
        return Err(EncodeIntoError::BufferTooSmall { required: bytes.len(), provided: output.len() });
    }
    copy_into(output, 0, bytes.as_slice());
    Ok(bytes.len())
}

/// Bytes of an open request: version, layer byte, a zero byte, priority,
/// flags, the filter length field and the filter bytes.
pub open spec fn spec_open_request_bytes(r: OpenRequest) -> Seq<u8> {
    version_bytes(r.version.major, r.version.minor) + seq![r.layer.spec_wire(), 0u8]
        + spec_i16_to_le_bytes(r.priority) + spec_u64_to_le_bytes(r.flags)
        + spec_u32_to_le_bytes(r.filter_len) + r.filter_ir@
}

/// Encodes an open request.
pub fn encode_open_request(request: &OpenRequest) -> (bytes: Vec<u8>)
    ensures
        bytes@ == spec_open_request_bytes(*request),
{
    let mut bytes: Vec<u8> = Vec::new();
    push_u16_le(&mut bytes, request.version.major);
    push_u16_le(&mut bytes, request.version.minor);
    bytes.push(request.layer.to_wire());
    bytes.push(0);
    push_u16_le(&mut bytes, request.priority as u16);
    push_u64_le(&mut bytes, request.flags);
    push_u32_le(&mut bytes, request.filter_len);
    extend_bytes(&mut bytes, request.filter_ir.as_slice());
    bytes
}

/// The error, if any, that decoding `raw` as an open request reports.
pub open spec fn spec_open_request_check(raw: Seq<u8>) -> Option<OpenRequestDecodeError> {
    if raw.len() < 20 {
        Some(OpenRequestDecodeError::HeaderTooShort)
    } else if !is_current(le16_at(raw, 0), le16_at(raw, 2)) {
        Some(OpenRequestDecodeError::ProtocolVersionMismatch { major: le16_at(raw, 0), minor: le16_at(raw, 2) })
    } else if Layer::spec_from_wire(raw[4]) is None {
        Some(OpenRequestDecodeError::UnsupportedLayer(raw[4]))
    } else if raw.len() < 20 + le32_at(raw, 16) {
        Some(OpenRequestDecodeError::TruncatedFilter {
            expected: (20 + le32_at(raw, 16)) as usize,
            actual: raw.len() as usize,
        })
    } else {
        None
    }
}

/// Whether `req` holds what an accepted `raw` encodes.
pub open spec fn open_request_decoded_from(raw: Seq<u8>, req: OpenRequest) -> bool {
    &&& req.version == ProtocolVersion::spec_current()
    &&& Layer::spec_from_wire(raw[4]) == Some(req.layer)
    &&& req.priority == le16_at(raw, 6) as i16
    &&& req.flags == le64_at(raw, 8)
    &&& req.filter_len == le32_at(raw, 16)
    &&& req.filter_ir@ == raw.subrange(20, 20 + le32_at(raw, 16))
}

/// Decodes an open request; bytes after the filter are ignored.
pub fn decode_open_request(raw: &[u8]) -> (r: Result<OpenRequest, OpenRequestDecodeError>)
    ensures
        match r {
            Ok(req) => spec_open_request_check(raw@) is None && open_request_decoded_from(raw@, req),
            Err(e) => spec_open_request_check(raw@) == Some(e),
        },
{
    if raw.len() < OPEN_REQUEST_HEADER_LEN {
        return Err(OpenRequestDecodeError::HeaderTooShort);
    }
    let major = read_u16_le(raw, 0);
    let minor = read_u16_le(raw, 2);
    if !(major == 0 && minor == 1) {
        return Err(OpenRequestDecodeError::ProtocolVersionMismatch { major, minor });
    }
    let layer = match Layer::from_wire(raw[4]) {
        Some(l) => l,
        None => return Err(OpenRequestDecodeError::UnsupportedLayer(raw[4])),
    };
    let priority = read_u16_le(raw, 6) as i16;
    let flags = read_u64_le(raw, 8);
    let filter_len = read_u32_le(raw, 16);
    let expected_wide = 20u64 + filter_len as u64;
    if (raw.len() as u64) < expected_wide {
        return Err(OpenRequestDecodeError::TruncatedFilter { expected: expected_wide as usize, actual: raw.len() });
    }
    let expected = expected_wide as usize;
    let filter = slice_subrange(raw, OPEN_REQUEST_HEADER_LEN, expected);
    let mut filter_ir: Vec<u8> = Vec::new();
    extend_bytes(&mut filter_ir, filter);
    Ok(OpenRequest { version: ProtocolVersion::current(), layer, priority, flags, filter_len, filter_ir })
}

/// Decoding an encoded open request gives the request back, when its
/// version is the current one and its length field matches its filter.
pub proof fn lemma_open_request_roundtrip(r: OpenRequest)
    requires
        r.version == ProtocolVersion::spec_current(),
        r.filter_len == r.filter_ir@.len(),
    ensures
        spec_open_request_check(spec_open_request_bytes(r)) is None,
        forall|req: OpenRequest|
            open_request_decoded_from(spec_open_request_bytes(r), req) <==> (
                req.version == r.version && req.layer == r.layer && req.priority == r.priority
                && req.flags == r.flags && req.filter_len == r.filter_len
                && req.filter_ir@ == r.filter_ir@),
{
    lemma_auto_spec_u16_to_from_le_bytes();
    lemma_auto_spec_u32_to_from_le_bytes();
    lemma_auto_spec_u64_to_from_le_bytes();
    lemma_i16_u16_roundtrip(r.priority);
    let b = spec_open_request_bytes(r);
    let p0 = spec_u16_to_le_bytes(r.version.major);
    let p1 = spec_u16_to_le_bytes(r.version.minor);
    let p2 = seq![r.layer.spec_wire(), 0u8];
    let p3 = spec_i16_to_le_bytes(r.priority);
    let p4 = spec_u64_to_le_bytes(r.flags);
    let p5 = spec_u32_to_le_bytes(r.filter_len);
    assert(b.subrange(0, 2) =~= p0);
    assert(b.subrange(2, 4) =~= p1);
    assert(b[4] == r.layer.spec_wire());
    assert(b.subrange(6, 8) =~= p3);
    assert(b.subrange(8, 16) =~= p4);
    assert(b.subrange(16, 20) =~= p5);
    assert(b.subrange(20, 20 + r.filter_len) =~= r.filter_ir@);
}

/// Bytes of an open response: version, capabilities, status.
pub open spec fn spec_open_response_bytes(r: OpenResponse) -> Seq<u8> {
    version_bytes(r.version.major, r.version.minor) + spec_u32_to_le_bytes(r.capabilities)
        + spec_u32_to_le_bytes(r.status)
}

fn open_response_bytes(response: OpenResponse) -> (bytes: Vec<u8>)
    ensures
        bytes@ == spec_open_response_bytes(response),
        bytes@.len() == 12,
{
    proof {
        lemma_auto_spec_u16_to_from_le_bytes();
        lemma_auto_spec_u32_to_from_le_bytes();
    }
    let mut bytes: Vec<u8> = Vec::new();
    push_u16_le(&mut bytes, response.version.major);
    push_u16_le(&mut bytes, response.version.minor);
    push_u32_le(&mut bytes, response.capabilities);
    push_u32_le(&mut bytes, response.status);
    bytes
}

/// Encodes an open response into a new 12-byte buffer.
pub fn encode_open_response(response: OpenResponse) -> (bytes: Vec<u8>)
    ensures
        bytes@ == spec_open_response_bytes(response),
{
    open_response_bytes(response)
}

/// Encodes an open response at the start of `output`, or reports that the
/// buffer is shorter than 12 bytes.
pub fn encode_open_response_into(response: OpenResponse, output: &mut [u8]) -> (r: Result<usize, EncodeIntoError>)
    ensures
        encoded_into(old(output)@, final(output)@, spec_open_response_bytes(response), r),
{
    let bytes = open_response_bytes(response);
    write_encoded(&bytes, output)
}

/// The error, if any, that decoding `raw` as an open response reports.
pub open spec fn spec_open_response_check(raw: Seq<u8>) -> Option<OpenResponseDecodeError> {
    if raw.len() < 12 {
        Some(OpenResponseDecodeError::BufferTooShort)
    } else if !is_current(le16_at(raw, 0), le16_at(raw, 2)) {
        Some(OpenResponseDecodeError::ProtocolVersionMismatch { major: le16_at(raw, 0), minor: le16_at(raw, 2) })
    } else {
        None
    }
}

/// The response an accepted `raw` encodes.
pub open spec fn spec_open_response_of(raw: Seq<u8>) -> OpenResponse {
    OpenResponse {
        version: ProtocolVersion::spec_current(),
        capabilities: le32_at(raw, 4),
        status: le32_at(raw, 8),
    }
}

/// Decodes an open response; bytes after the twelfth are ignored.
pub fn decode_open_response(raw: &[u8]) -> (r: Result<OpenResponse, OpenResponseDecodeError>)
    ensures
        match spec_open_response_check(raw@) {
            Some(e) => r == Err::<OpenResponse, OpenResponseDecodeError>(e),
            None => r == Ok::<OpenResponse, OpenResponseDecodeError>(spec_open_response_of(raw@)),
        },
{
    if raw.len() < OPEN_RESPONSE_LEN {
        return Err(OpenResponseDecodeError::BufferTooShort);
    }
    let major = read_u16_le(raw, 0);
    let minor = read_u16_le(raw, 2);
    if !(major == 0 && minor == 1) {
        return Err(OpenResponseDecodeError::ProtocolVersionMismatch { major, minor });
    }
    Ok(OpenResponse {
        version: ProtocolVersion::current(),
        capabilities: read_u32_le(raw, 4),
        status: read_u32_le(raw, 8),
    })
}

/// Decoding an encoded open response in the current version gives it back.
pub proof fn lemma_open_response_roundtrip(r: OpenResponse)
    requires
        r.version == ProtocolVersion::spec_current(),
    ensures
        spec_open_response_check(spec_open_response_bytes(r)) is None,
        spec_open_response_of(spec_open_response_bytes(r)) == r,
{
    lemma_auto_spec_u16_to_from_le_bytes();
    lemma_auto_spec_u32_to_from_le_bytes();
    let b = spec_open_response_bytes(r);
    assert(b.subrange(0, 2) =~= spec_u16_to_le_bytes(r.version.major));
    assert(b.subrange(2, 4) =~= spec_u16_to_le_bytes(r.version.minor));
    assert(b.subrange(4, 8) =~= spec_u32_to_le_bytes(r.capabilities));
    assert(b.subrange(8, 12) =~= spec_u32_to_le_bytes(r.status));
}

/// Bytes of a runtime event frame: `WDRT`, the current version, the layer
/// byte, three zero bytes, the payload length and the payload.
pub open spec fn spec_runtime_event_bytes(layer: Layer, payload: Seq<u8>) -> Seq<u8> {
    event_magic() + version_bytes(0, 1) + seq![layer.spec_wire(), 0u8, 0u8, 0u8]
        + spec_u32_to_le_bytes(payload.len() as u32) + payload
}

fn push_magic(bytes: &mut Vec<u8>, magic: [u8; 4])
    ensures
        final(bytes)@ == old(bytes)@ + magic@,
{
    bytes.push(magic[0]);
    bytes.push(magic[1]);
    bytes.push(magic[2]);
    bytes.push(magic[3]);
    assert(final(bytes)@ =~= old(bytes)@ + magic@);
}

fn push_current_version(bytes: &mut Vec<u8>)
    ensures
        final(bytes)@ == old(bytes)@ + version_bytes(0, 1),
{
    push_u16_le(bytes, 0);
    push_u16_le(bytes, 1);
    assert(final(bytes)@ =~= old(bytes)@ + version_bytes(0, 1));
}

fn runtime_event_bytes(layer: Layer, payload: &[u8]) -> (bytes: Vec<u8>)
    requires
        payload@.len() <= u32::MAX,
    ensures
        bytes@ == spec_runtime_event_bytes(layer, payload@),
{
    let mut bytes: Vec<u8> = Vec::new();
    push_magic(&mut bytes, RUNTIME_EVENT_MAGIC);
    assert(RUNTIME_EVENT_MAGIC@ =~= event_magic());
    push_current_version(&mut bytes);
    bytes.push(layer.to_wire());
    bytes.push(0);
    bytes.push(0);
    bytes.push(0);
    push_u32_le(&mut bytes, payload.len() as u32);
    extend_bytes(&mut bytes, payload);
    assert(bytes@ =~= spec_runtime_event_bytes(layer, payload@));
    bytes
}

/// Encodes a runtime event frame around `payload`.
pub fn encode_runtime_event(layer: Layer, payload: &[u8]) -> (bytes: Vec<u8>)
    requires
        payload@.len() <= u32::MAX,
    ensures
        bytes@ == spec_runtime_event_bytes(layer, payload@),
{
    runtime_event_bytes(layer, payload)
}

/// Encodes a runtime event frame at the start of `output`, or reports that
/// the buffer is shorter than the frame.
pub fn encode_runtime_event_into(layer: Layer, payload: &[u8], output: &mut [u8]) -> (r: Result<usize, EncodeIntoError>)
    requires
        payload@.len() <= u32::MAX,
    ensures
        encoded_into(old(output)@, final(output)@, spec_runtime_event_bytes(layer, payload@), r),
{
    let bytes = runtime_event_bytes(layer, payload);
    write_encoded(&bytes, output)
}

/// Whether the first four bytes of `raw` are `magic`.
pub open spec fn has_magic(raw: Seq<u8>, magic: Seq<u8>) -> bool {
    raw.subrange(0, 4) == magic
}

fn starts_with_magic(raw: &[u8], magic: [u8; 4]) -> (r: bool)
    requires
        raw@.len() >= 4,
    ensures
        r == has_magic(raw@, magic@),
{
    let r = raw[0] == magic[0] && raw[1] == magic[1] && raw[2] == magic[2] && raw[3] == magic[3];
    if r {
        assert(raw@.subrange(0, 4) =~= magic@);
    } else {
        assert(raw@.subrange(0, 4)[0] == raw@[0]);
        assert(raw@.subrange(0, 4)[1] == raw@[1]);
        assert(raw@.subrange(0, 4)[2] == raw@[2]);
        assert(raw@.subrange(0, 4)[3] == raw@[3]);
    }
    r
}

/// The error, if any, that decoding `raw` as a runtime event frame reports.
pub open spec fn spec_runtime_event_check(raw: Seq<u8>) -> Option<RuntimeEventDecodeError> {
    if raw.len() < 16 {
        Some(RuntimeEventDecodeError::HeaderTooShort)
    } else if !has_magic(raw, event_magic()) {
        Some(RuntimeEventDecodeError::InvalidMagic)
    } else if !is_current(le16_at(raw, 4), le16_at(raw, 6)) {
        Some(RuntimeEventDecodeError::ProtocolVersionMismatch { major: le16_at(raw, 4), minor: le16_at(raw, 6) })
    } else if Layer::spec_from_wire(raw[8]) is None {
        Some(RuntimeEventDecodeError::UnsupportedLayer(raw[8]))
    } else if raw.len() < 16 + le32_at(raw, 12) {
        Some(RuntimeEventDecodeError::TruncatedPayload {
            expected: (16 + le32_at(raw, 12)) as usize,
            actual: raw.len() as usize,
        })
    } else {
        None
    }
}

/// Whether `frame` holds what an accepted `raw` encodes.
pub open spec fn runtime_event_decoded_from(raw: Seq<u8>, frame: RuntimeEventFrame) -> bool {
    &&& frame.header.version == ProtocolVersion::spec_current()
    &&& Layer::spec_from_wire(raw[8]) == Some(frame.header.layer)
    &&& frame.header.payload_len == le32_at(raw, 12)
    &&& frame.payload@ == raw.subrange(16, 16 + le32_at(raw, 12))
}

/// Decodes a runtime event frame; bytes after the payload are ignored.
pub fn decode_runtime_event(raw: &[u8]) -> (r: Result<RuntimeEventFrame<'_>, RuntimeEventDecodeError>)
    ensures
        match r {
            Ok(frame) => spec_runtime_event_check(raw@) is None && runtime_event_decoded_from(raw@, frame),
            Err(e) => spec_runtime_event_check(raw@) == Some(e),
        },
{
    if raw.len() < RUNTIME_EVENT_HEADER_LEN {
        return Err(RuntimeEventDecodeError::HeaderTooShort);
    }
    assert(RUNTIME_EVENT_MAGIC@ =~= event_magic());
    if !starts_with_magic(raw, RUNTIME_EVENT_MAGIC) {
        return Err(RuntimeEventDecodeError::InvalidMagic);
    }
    let major = read_u16_le(raw, 4);
    let minor = read_u16_le(raw, 6);
    if !(major == 0 && minor == 1) {
        return Err(RuntimeEventDecodeError::ProtocolVersionMismatch { major, minor });
    }
    let layer = match Layer::from_wire(raw[8]) {
        Some(l) => l,
        None => return Err(RuntimeEventDecodeError::UnsupportedLayer(raw[8])),
    };
    let payload_len = read_u32_le(raw, 12);
    let expected_wide = 16u64 + payload_len as u64;
    if (raw.len() as u64) < expected_wide {
        return Err(RuntimeEventDecodeError::TruncatedPayload { expected: expected_wide as usize, actual: raw.len() });
    }
    let expected = expected_wide as usize;
    Ok(RuntimeEventFrame {
        header: RuntimeEventHeader { version: ProtocolVersion::current(), layer, payload_len },
        payload: slice_subrange(raw, RUNTIME_EVENT_HEADER_LEN, expected),
    })
}

/// Decoding an encoded runtime event frame gives back its layer and payload.
pub proof fn lemma_runtime_event_roundtrip(layer: Layer, payload: Seq<u8>)
    requires
        payload.len() <= u32::MAX,
    ensures
        spec_runtime_event_check(spec_runtime_event_bytes(layer, payload)) is None,
        forall|frame: RuntimeEventFrame|
            runtime_event_decoded_from(spec_runtime_event_bytes(layer, payload), frame) <==> (
                frame.header.version == ProtocolVersion::spec_current() && frame.header.layer == layer
                && frame.header.payload_len == payload.len() && frame.payload@ == payload),
{
    lemma_auto_spec_u16_to_from_le_bytes();
    lemma_auto_spec_u32_to_from_le_bytes();
    let b = spec_runtime_event_bytes(layer, payload);
    assert(b.subrange(0, 4) =~= event_magic());
    assert(b.subrange(4, 6) =~= spec_u16_to_le_bytes(0));
    assert(b.subrange(6, 8) =~= spec_u16_to_le_bytes(1));
    assert(b[8] == layer.spec_wire());
    assert(b.subrange(12, 16) =~= spec_u32_to_le_bytes(payload.len() as u32));
    assert(b.subrange(16, 16 + payload.len() as int) =~= payload);
}

/// Bytes of a network event payload: `WDNW`, the reinjection token, the
/// packet length and the packet.
pub open spec fn spec_network_payload_bytes(token: u64, packet: Seq<u8>) -> Seq<u8> {
    network_magic() + spec_u64_to_le_bytes(token) + spec_u32_to_le_bytes(packet.len() as u32) + packet
}

fn network_payload_bytes(token: u64, packet: &[u8]) -> (bytes: Vec<u8>)
    requires
        packet@.len() <= u32::MAX,
    ensures
        bytes@ == spec_network_payload_bytes(token, packet@),
{
    let mut bytes: Vec<u8> = Vec::new();
    push_magic(&mut bytes, NETWORK_EVENT_PAYLOAD_MAGIC);
    assert(NETWORK_EVENT_PAYLOAD_MAGIC@ =~= network_magic());
    push_u64_le(&mut bytes, token);
    push_u32_le(&mut bytes, packet.len() as u32);
    extend_bytes(&mut bytes, packet);
    bytes
}

/// Encodes a network event payload.
pub fn encode_network_event_payload(reinjection_token: u64, packet: &[u8]) -> (bytes: Vec<u8>)
    requires
        packet@.len() <= u32::MAX,
    ensures
        bytes@ == spec_network_payload_bytes(reinjection_token, packet@),
{
    network_payload_bytes(reinjection_token, packet)
}

/// Encodes a network event payload at the start of `output`, or reports
/// that the buffer is too short.
pub fn encode_network_event_payload_into(reinjection_token: u64, packet: &[u8], output: &mut [u8]) -> (r: Result<usize, EncodeIntoError>)
    requires
        packet@.len() <= u32::MAX,
    ensures
        encoded_into(old(output)@, final(output)@, spec_network_payload_bytes(reinjection_token, packet@), r),
{
    let bytes = network_payload_bytes(reinjection_token, packet);
    write_encoded(&bytes, output)
}

/// The error, if any, that decoding `raw` as a network event payload reports.
pub open spec fn spec_network_payload_check(raw: Seq<u8>) -> Option<RuntimeEventDecodeError> {
    if raw.len() < 16 {
        Some(RuntimeEventDecodeError::NetworkPayloadHeaderTooShort)
    } else if !has_magic(raw, network_magic()) {
        Some(RuntimeEventDecodeError::InvalidNetworkPayloadMagic)
    } else if raw.len() < 16 + le32_at(raw, 12) {
        Some(RuntimeEventDecodeError::TruncatedNetworkPacket {
            expected: (16 + le32_at(raw, 12)) as usize,
            actual: raw.len() as usize,
        })
    } else {
        None
    }
}

/// Whether `p` holds what an accepted `raw` encodes.
pub open spec fn network_payload_decoded_from(raw: Seq<u8>, p: NetworkEventPayload) -> bool {
    &&& p.reinjection_token == le64_at(raw, 4)
    &&& p.packet@ == raw.subrange(16, 16 + le32_at(raw, 12))
}

/// Decodes a network event payload; bytes after the packet are ignored.
pub fn decode_network_event_payload(raw: &[u8]) -> (r: Result<NetworkEventPayload<'_>, RuntimeEventDecodeError>)
    ensures
        match r {
            Ok(p) => spec_network_payload_check(raw@) is None && network_payload_decoded_from(raw@, p),
            Err(e) => spec_network_payload_check(raw@) == Some(e),
        },
{
    if raw.len() < NETWORK_EVENT_PAYLOAD_HEADER_LEN {
        return Err(RuntimeEventDecodeError::NetworkPayloadHeaderTooShort);
    }
    assert(NETWORK_EVENT_PAYLOAD_MAGIC@ =~= network_magic());
    if !starts_with_magic(raw, NETWORK_EVENT_PAYLOAD_MAGIC) {
        return Err(RuntimeEventDecodeError::InvalidNetworkPayloadMagic);
    }
    let reinjection_token = read_u64_le(raw, 4);
    let packet_len = read_u32_le(raw, 12);
    let expected_wide = 16u64 + packet_len as u64;
    if (raw.len() as u64) < expected_wide {
        return Err(RuntimeEventDecodeError::TruncatedNetworkPacket { expected: expected_wide as usize, actual: raw.len() });
    }
    let expected = expected_wide as usize;
    Ok(NetworkEventPayload { reinjection_token, packet: slice_subrange(raw, NETWORK_EVENT_PAYLOAD_HEADER_LEN, expected) })
}

/// Decoding an encoded network event payload gives back token and packet.
pub proof fn lemma_network_payload_roundtrip(token: u64, packet: Seq<u8>)
    requires
        packet.len() <= u32::MAX,
    ensures
        spec_network_payload_check(spec_network_payload_bytes(token, packet)) is None,
        forall|p: NetworkEventPayload|
            network_payload_decoded_from(spec_network_payload_bytes(token, packet), p) <==> (
                p.reinjection_token == token && p.packet@ == packet),
{
    lemma_auto_spec_u32_to_from_le_bytes();
    lemma_auto_spec_u64_to_from_le_bytes();
    let b = spec_network_payload_bytes(token, packet);
    assert(b.subrange(0, 4) =~= network_magic());
    assert(b.subrange(4, 12) =~= spec_u64_to_le_bytes(token));
    assert(b.subrange(12, 16) =~= spec_u32_to_le_bytes(packet.len() as u32));
    assert(b.subrange(16, 16 + packet.len() as int) =~= packet);
}

/// Bytes of a runtime send request: `WDSN`, the current version, the layer
/// byte, three zero bytes, the token, the payload length and the payload.
pub open spec fn spec_runtime_send_bytes(layer: Layer, token: u64, payload: Seq<u8>) -> Seq<u8> {
    send_magic() + version_bytes(0, 1) + seq![layer.spec_wire(), 0u8, 0u8, 0u8]
        + spec_u64_to_le_bytes(token) + spec_u32_to_le_bytes(payload.len() as u32) + payload
}

/// Encodes a runtime send request that reinjects `payload` under `token`.
pub fn encode_runtime_send_request(layer: Layer, reinjection_token: u64, payload: &[u8]) -> (bytes: Vec<u8>)
    requires
        payload@.len() <= u32::MAX,
    ensures
        bytes@ == spec_runtime_send_bytes(layer, reinjection_token, payload@),
{
    let mut bytes: Vec<u8> = Vec::new();
    push_magic(&mut bytes, RUNTIME_SEND_MAGIC);
    assert(RUNTIME_SEND_MAGIC@ =~= send_magic());
    push_current_version(&mut bytes);
    bytes.push(layer.to_wire());
    bytes.push(0);
    bytes.push(0);
    bytes.push(0);
    push_u64_le(&mut bytes, reinjection_token);
    push_u32_le(&mut bytes, payload.len() as u32);
    extend_bytes(&mut bytes, payload);
    assert(bytes@ =~= spec_runtime_send_bytes(layer, reinjection_token, payload@));
    bytes
}

/// The error, if any, that decoding `raw` as a runtime send request reports.
pub open spec fn spec_runtime_send_check(raw: Seq<u8>) -> Option<RuntimeSendDecodeError> {
    if raw.len() < 24 {
        Some(RuntimeSendDecodeError::HeaderTooShort)
    } else if !has_magic(raw, send_magic()) {
        Some(RuntimeSendDecodeError::InvalidMagic)
    } else if !is_current(le16_at(raw, 4), le16_at(raw, 6)) {
        Some(RuntimeSendDecodeError::ProtocolVersionMismatch { major: le16_at(raw, 4), minor: le16_at(raw, 6) })
    } else if Layer::spec_from_wire(raw[8]) is None {
        Some(RuntimeSendDecodeError::UnsupportedLayer(raw[8]))
    } else if raw.len() < 24 + le32_at(raw, 20) {
        Some(RuntimeSendDecodeError::TruncatedPayload {
            expected: (24 + le32_at(raw, 20)) as usize,
            actual: raw.len() as usize,
        })
    } else {
        None
    }
}

/// Whether `req` holds what an accepted `raw` encodes.
pub open spec fn runtime_send_decoded_from(raw: Seq<u8>, req: RuntimeSendRequest) -> bool {
    &&& req.header.version == ProtocolVersion::spec_current()
    &&& Layer::spec_from_wire(raw[8]) == Some(req.header.layer)
    &&& req.header.reinjection_token == le64_at(raw, 12)
    &&& req.header.payload_len == le32_at(raw, 20)
    &&& req.payload@ == raw.subrange(24, 24 + le32_at(raw, 20))
}

/// Decodes a runtime send request; bytes after the payload are ignored.
pub fn decode_runtime_send_request(raw: &[u8]) -> (r: Result<RuntimeSendRequest<'_>, RuntimeSendDecodeError>)
    ensures
        match r {
            Ok(req) => spec_runtime_send_check(raw@) is None && runtime_send_decoded_from(raw@, req),
            Err(e) => spec_runtime_send_check(raw@) == Some(e),
        },
{
    if raw.len() < RUNTIME_SEND_HEADER_LEN {
        return Err(RuntimeSendDecodeError::HeaderTooShort);
    }
    assert(RUNTIME_SEND_MAGIC@ =~= send_magic());
    if !starts_with_magic(raw, RUNTIME_SEND_MAGIC) {
        return Err(RuntimeSendDecodeError::InvalidMagic);
    }
    let major = read_u16_le(raw, 4);
    let minor = read_u16_le(raw, 6);
    if !(major == 0 && minor == 1) {
        return Err(RuntimeSendDecodeError::ProtocolVersionMismatch { major, minor });
    }
    let layer = match Layer::from_wire(raw[8]) {
        Some(l) => l,
        None => return Err(RuntimeSendDecodeError::UnsupportedLayer(raw[8])),
    };
    let reinjection_token = read_u64_le(raw, 12);
    let payload_len = read_u32_le(raw, 20);
    let expected_wide = 24u64 + payload_len as u64;
    if (raw.len() as u64) < expected_wide {
        return Err(RuntimeSendDecodeError::TruncatedPayload { expected: expected_wide as usize, actual: raw.len() });
    }
    let expected = expected_wide as usize;
    Ok(RuntimeSendRequest {
        header: RuntimeSendRequestHeader { version: ProtocolVersion::current(), layer, reinjection_token, payload_len },
        payload: slice_subrange(raw, RUNTIME_SEND_HEADER_LEN, expected),
    })
}

/// Decoding an encoded runtime send request gives back layer, token and
/// payload.
pub proof fn lemma_runtime_send_roundtrip(layer: Layer, token: u64, payload: Seq<u8>)
    requires
        payload.len() <= u32::MAX,
    ensures
        spec_runtime_send_check(spec_runtime_send_bytes(layer, token, payload)) is None,
        forall|req: RuntimeSendRequest|
            runtime_send_decoded_from(spec_runtime_send_bytes(layer, token, payload), req) <==> (
                req.header.version == ProtocolVersion::spec_current() && req.header.layer == layer
                && req.header.reinjection_token == token && req.header.payload_len == payload.len()
                && req.payload@ == payload),
{
    lemma_auto_spec_u16_to_from_le_bytes();
    lemma_auto_spec_u32_to_from_le_bytes();
    lemma_auto_spec_u64_to_from_le_bytes();
    let b = spec_runtime_send_bytes(layer, token, payload);
    assert(b.subrange(0, 4) =~= send_magic());
    assert(b.subrange(4, 6) =~= spec_u16_to_le_bytes(0));
    assert(b.subrange(6, 8) =~= spec_u16_to_le_bytes(1));
    assert(b[8] == layer.spec_wire());
    assert(b.subrange(12, 20) =~= spec_u64_to_le_bytes(token));
    assert(b.subrange(20, 24) =~= spec_u32_to_le_bytes(payload.len() as u32));
    assert(b.subrange(24, 24 + payload.len() as int) =~= payload);
}

/// Bytes of a socket event payload: kind code, four zero bytes, process id.
pub open spec fn spec_socket_payload_bytes(kind: SocketEventKind, process_id: u64) -> Seq<u8> {
    spec_u32_to_le_bytes(kind.spec_code()) + spec_u32_to_le_bytes(0) + spec_u64_to_le_bytes(process_id)
}

fn socket_payload_bytes(kind: SocketEventKind, process_id: u64) -> (bytes: Vec<u8>)
    ensures
        bytes@ == spec_socket_payload_bytes(kind, process_id),
        bytes@.len() == 16,
{
    proof {
        lemma_auto_spec_u32_to_from_le_bytes();
        lemma_auto_spec_u64_to_from_le_bytes();
    }
    let mut bytes: Vec<u8> = Vec::new();
    push_u32_le(&mut bytes, kind.code());
    push_u32_le(&mut bytes, 0);
    push_u64_le(&mut bytes, process_id);
    bytes
}

/// Encodes a socket event payload (16 bytes).
pub fn encode_socket_event_payload(kind: SocketEventKind, process_id: u64) -> (bytes: Vec<u8>)
    ensures
        bytes@ == spec_socket_payload_bytes(kind, process_id),
{
    socket_payload_bytes(kind, process_id)
}

/// Encodes a socket event payload at the start of `output`, or reports that
/// the buffer is shorter than 16 bytes.
pub fn encode_socket_event_payload_into(kind: SocketEventKind, process_id: u64, output: &mut [u8]) -> (r: Result<usize, EncodeIntoError>)
    ensures
        encoded_into(old(output)@, final(output)@, spec_socket_payload_bytes(kind, process_id), r),
{
    let bytes = socket_payload_bytes(kind, process_id);
    write_encoded(&bytes, output)
}

/// The error, if any, that decoding `raw` as a socket event payload reports.
pub open spec fn spec_socket_payload_check(raw: Seq<u8>) -> Option<RuntimeEventDecodeError> {
    if raw.len() != 16 {
        Some(RuntimeEventDecodeError::InvalidSocketPayloadLength(raw.len() as usize))
    } else if SocketEventKind::spec_from_code(le32_at(raw, 0)) is None {
        Some(RuntimeEventDecodeError::UnsupportedSocketEventKind(le32_at(raw, 0)))
    } else {
        None
    }
}

/// Decodes a socket event payload, which must be exactly 16 bytes; the
/// reserved bytes 4..8 are not read.
pub fn decode_socket_event_payload(raw: &[u8]) -> (r: Result<SocketEventPayload, RuntimeEventDecodeError>)
    ensures
        match r {
            Ok(p) => spec_socket_payload_check(raw@) is None
                && SocketEventKind::spec_from_code(le32_at(raw@, 0)) == Some(p.spec_kind())
                && p.spec_process_id() == le64_at(raw@, 8),
            Err(e) => spec_socket_payload_check(raw@) == Some(e),
        },
{
    if raw.len() != SOCKET_EVENT_PAYLOAD_LEN {
        return Err(RuntimeEventDecodeError::InvalidSocketPayloadLength(raw.len()));
    }
    let kind_code = read_u32_le(raw, 0);
    let kind = match SocketEventKind::from_code(kind_code) {
        Some(k) => k,
        None => return Err(RuntimeEventDecodeError::UnsupportedSocketEventKind(kind_code)),
    };
    let process_id = read_u64_le(raw, 8);
    Ok(SocketEventPayload::new(kind, process_id))
}

/// Decoding an encoded socket event payload gives back kind and process.
pub proof fn lemma_socket_payload_roundtrip(kind: SocketEventKind, process_id: u64)
    ensures
        spec_socket_payload_check(spec_socket_payload_bytes(kind, process_id)) is None,
        SocketEventKind::spec_from_code(le32_at(spec_socket_payload_bytes(kind, process_id), 0)) == Some(kind),
        le64_at(spec_socket_payload_bytes(kind, process_id), 8) == process_id,
{
    lemma_auto_spec_u32_to_from_le_bytes();
    lemma_auto_spec_u64_to_from_le_bytes();
    let b = spec_socket_payload_bytes(kind, process_id);
    assert(b.subrange(0, 4) =~= spec_u32_to_le_bytes(kind.spec_code()));
    assert(b.subrange(8, 16) =~= spec_u64_to_le_bytes(process_id));
}

/// Bytes of a flow event payload: kind code, four zero bytes, flow id,
/// process id.
pub open spec fn spec_flow_payload_bytes(kind: FlowEventKind, flow_id: u64, process_id: u64) -> Seq<u8> {
    spec_u32_to_le_bytes(kind.spec_code()) + spec_u32_to_le_bytes(0) + spec_u64_to_le_bytes(flow_id)
        + spec_u64_to_le_bytes(process_id)
}

fn flow_payload_bytes(kind: FlowEventKind, flow_id: u64, process_id: u64) -> (bytes: Vec<u8>)
    ensures
        bytes@ == spec_flow_payload_bytes(kind, flow_id, process_id),
        bytes@.len() == 24,
{
    proof {
        lemma_auto_spec_u32_to_from_le_bytes();
        lemma_auto_spec_u64_to_from_le_bytes();
    }
    let mut bytes: Vec<u8> = Vec::new();
    push_u32_le(&mut bytes, kind.code());
    push_u32_le(&mut bytes, 0);
    push_u64_le(&mut bytes, flow_id);
    push_u64_le(&mut bytes, process_id);
    bytes
}

/// Encodes a flow event payload (24 bytes).
pub fn encode_flow_event_payload(kind: FlowEventKind, flow_id: u64, process_id: u64) -> (bytes: Vec<u8>)
    ensures
        bytes@ == spec_flow_payload_bytes(kind, flow_id, process_id),
{
    flow_payload_bytes(kind, flow_id, process_id)
}

/// Encodes a flow event payload at the start of `output`, or reports that
/// the buffer is shorter than 24 bytes.
pub fn encode_flow_event_payload_into(kind: FlowEventKind, flow_id: u64, process_id: u64, output: &mut [u8]) -> (r: Result<usize, EncodeIntoError>)
    ensures
        encoded_into(old(output)@, final(output)@, spec_flow_payload_bytes(kind, flow_id, process_id), r),
{
    let bytes = flow_payload_bytes(kind, flow_id, process_id);
    write_encoded(&bytes, output)
}

/// The error, if any, that decoding `raw` as a flow event payload reports.
pub open spec fn spec_flow_payload_check(raw: Seq<u8>) -> Option<RuntimeEventDecodeError> {
    if raw.len() != 24 {
        Some(RuntimeEventDecodeError::InvalidFlowPayloadLength(raw.len() as usize))
    } else if FlowEventKind::spec_from_code(le32_at(raw, 0)) is None {
        Some(RuntimeEventDecodeError::UnsupportedFlowEventKind(le32_at(raw, 0)))
    } else {
        None
    }
}

/// Decodes a flow event payload, which must be exactly 24 bytes; the
/// reserved bytes 4..8 are not read.
pub fn decode_flow_event_payload(raw: &[u8]) -> (r: Result<FlowEventPayload, RuntimeEventDecodeError>)
    ensures
        match r {
            Ok(p) => spec_flow_payload_check(raw@) is None
                && FlowEventKind::spec_from_code(le32_at(raw@, 0)) == Some(p.spec_kind())
                && p.spec_flow_id() == le64_at(raw@, 8) && p.spec_process_id() == le64_at(raw@, 16),
            Err(e) => spec_flow_payload_check(raw@) == Some(e),
        },
{
    if raw.len() != FLOW_EVENT_PAYLOAD_LEN {
        return Err(RuntimeEventDecodeError::InvalidFlowPayloadLength(raw.len()));
    }
    let kind_code = read_u32_le(raw, 0);
    let kind = match FlowEventKind::from_code(kind_code) {
        Some(k) => k,
        None => return Err(RuntimeEventDecodeError::UnsupportedFlowEventKind(kind_code)),
    };
    let flow_id = read_u64_le(raw, 8);
    let process_id = read_u64_le(raw, 16);
    Ok(FlowEventPayload::new(kind, flow_id, process_id))
}

/// Decoding an encoded flow event payload gives back kind, flow and process.
pub proof fn lemma_flow_payload_roundtrip(kind: FlowEventKind, flow_id: u64, process_id: u64)
    ensures
        spec_flow_payload_check(spec_flow_payload_bytes(kind, flow_id, process_id)) is None,
        FlowEventKind::spec_from_code(le32_at(spec_flow_payload_bytes(kind, flow_id, process_id), 0)) == Some(kind),
        le64_at(spec_flow_payload_bytes(kind, flow_id, process_id), 8) == flow_id,
        le64_at(spec_flow_payload_bytes(kind, flow_id, process_id), 16) == process_id,
{
    lemma_auto_spec_u32_to_from_le_bytes();
    lemma_auto_spec_u64_to_from_le_bytes();
    let b = spec_flow_payload_bytes(kind, flow_id, process_id);
    assert(b.subrange(0, 4) =~= spec_u32_to_le_bytes(kind.spec_code()));
    assert(b.subrange(8, 16) =~= spec_u64_to_le_bytes(flow_id));
    assert(b.subrange(16, 24) =~= spec_u64_to_le_bytes(process_id));
}


/// The text of a runtime event decode error.
pub open spec fn event_error_text(e: RuntimeEventDecodeError) -> Seq<char> {
    match e {
        RuntimeEventDecodeError::HeaderTooShort => "runtime event header too short"@,
        RuntimeEventDecodeError::InvalidMagic => "runtime event magic mismatch"@,
        RuntimeEventDecodeError::UnsupportedLayer(l) => "unsupported runtime event layer: "@ + decimal(l as nat) + ""@,
        RuntimeEventDecodeError::ProtocolVersionMismatch { major, minor } => "runtime event protocol mismatch: "@
            + decimal(major as nat) + "."@ + decimal(minor as nat) + ""@,
        RuntimeEventDecodeError::TruncatedPayload { expected, actual } => "runtime event payload truncated: expected "@
            + decimal(expected as nat) + " bytes got "@ + decimal(actual as nat) + ""@,
        RuntimeEventDecodeError::NetworkPayloadHeaderTooShort => "runtime network payload header too short"@,
        RuntimeEventDecodeError::InvalidNetworkPayloadMagic => "runtime network payload magic mismatch"@,
        RuntimeEventDecodeError::TruncatedNetworkPacket { expected, actual } => "runtime network packet truncated: expected "@
            + decimal(expected as nat) + " bytes got "@ + decimal(actual as nat) + ""@,
        RuntimeEventDecodeError::InvalidSocketPayloadLength(n) => "invalid socket event payload length: "@ + decimal(n as nat) + ""@,
        RuntimeEventDecodeError::InvalidFlowPayloadLength(n) => "invalid flow event payload length: "@ + decimal(n as nat) + ""@,
        RuntimeEventDecodeError::UnsupportedSocketEventKind(k) => "unsupported socket event kind: "@ + decimal(k as nat) + ""@,
        RuntimeEventDecodeError::UnsupportedFlowEventKind(k) => "unsupported flow event kind: "@ + decimal(k as nat) + ""@,
    }
}

impl RuntimeEventDecodeError {
    /// The error's text.
    pub fn to_string(&self) -> (s: String)
        ensures
            s@ == event_error_text(*self),
    {
        match self {
            RuntimeEventDecodeError::HeaderTooShort => "runtime event header too short".to_owned(),
            RuntimeEventDecodeError::InvalidMagic => "runtime event magic mismatch".to_owned(),
            RuntimeEventDecodeError::UnsupportedLayer(l) => with_number("unsupported runtime event layer: ", *l as u64, ""),
            RuntimeEventDecodeError::ProtocolVersionMismatch { major, minor } => with_two_numbers(
                "runtime event protocol mismatch: ", *major as u64, ".", *minor as u64, ""),
            RuntimeEventDecodeError::TruncatedPayload { expected, actual } => with_two_numbers(
                "runtime event payload truncated: expected ", *expected as u64, " bytes got ", *actual as u64, ""),
            RuntimeEventDecodeError::NetworkPayloadHeaderTooShort => "runtime network payload header too short".to_owned(),
            RuntimeEventDecodeError::InvalidNetworkPayloadMagic => "runtime network payload magic mismatch".to_owned(),
            RuntimeEventDecodeError::TruncatedNetworkPacket { expected, actual } => with_two_numbers(
                "runtime network packet truncated: expected ", *expected as u64, " bytes got ", *actual as u64, ""),
            RuntimeEventDecodeError::InvalidSocketPayloadLength(n) => with_number("invalid socket event payload length: ", *n as u64, ""),
            RuntimeEventDecodeError::InvalidFlowPayloadLength(n) => with_number("invalid flow event payload length: ", *n as u64, ""),
            RuntimeEventDecodeError::UnsupportedSocketEventKind(k) => with_number("unsupported socket event kind: ", *k as u64, ""),
            RuntimeEventDecodeError::UnsupportedFlowEventKind(k) => with_number("unsupported flow event kind: ", *k as u64, ""),
        }
    }
}

/// The text of a runtime send decode error.
pub open spec fn send_error_text(e: RuntimeSendDecodeError) -> Seq<char> {
    match e {
        RuntimeSendDecodeError::HeaderTooShort => "runtime send request header too short"@,
        RuntimeSendDecodeError::InvalidMagic => "runtime send request magic mismatch"@,
        RuntimeSendDecodeError::UnsupportedLayer(l) => "unsupported runtime send layer: "@ + decimal(l as nat) + ""@,
        RuntimeSendDecodeError::ProtocolVersionMismatch { major, minor } => "runtime send protocol mismatch: "@
            + decimal(major as nat) + "."@ + decimal(minor as nat) + ""@,
        RuntimeSendDecodeError::TruncatedPayload { expected, actual } => "runtime send payload truncated: expected "@
            + decimal(expected as nat) + " bytes got "@ + decimal(actual as nat) + ""@,
    }
}

impl RuntimeSendDecodeError {
    /// The error's text.
    pub fn to_string(&self) -> (s: String)
        ensures
            s@ == send_error_text(*self),
    {
        match self {
            RuntimeSendDecodeError::HeaderTooShort => "runtime send request header too short".to_owned(),
            RuntimeSendDecodeError::InvalidMagic => "runtime send request magic mismatch".to_owned(),
            RuntimeSendDecodeError::UnsupportedLayer(l) => with_number("unsupported runtime send layer: ", *l as u64, ""),
            RuntimeSendDecodeError::ProtocolVersionMismatch { major, minor } => with_two_numbers(
                "runtime send protocol mismatch: ", *major as u64, ".", *minor as u64, ""),
            RuntimeSendDecodeError::TruncatedPayload { expected, actual } => with_two_numbers(
                "runtime send payload truncated: expected ", *expected as u64, " bytes got ", *actual as u64, ""),
        }
    }
}

/// The text of an open request decode error.
pub open spec fn open_request_error_text(e: OpenRequestDecodeError) -> Seq<char> {
    match e {
        OpenRequestDecodeError::HeaderTooShort => "open request header too short"@,
        OpenRequestDecodeError::UnsupportedLayer(l) => "unsupported open request layer: "@ + decimal(l as nat) + ""@,
        OpenRequestDecodeError::ProtocolVersionMismatch { major, minor } => "open request protocol mismatch: "@
            + decimal(major as nat) + "."@ + decimal(minor as nat) + ""@,
        OpenRequestDecodeError::TruncatedFilter { expected, actual } => "open request filter truncated: expected "@
            + decimal(expected as nat) + " bytes got "@ + decimal(actual as nat) + ""@,
    }
}

impl OpenRequestDecodeError {
    /// The error's text.
    pub fn to_string(&self) -> (s: String)
        ensures
            s@ == open_request_error_text(*self),
    {
        match self {
            OpenRequestDecodeError::HeaderTooShort => "open request header too short".to_owned(),
            OpenRequestDecodeError::UnsupportedLayer(l) => with_number("unsupported open request layer: ", *l as u64, ""),
            OpenRequestDecodeError::ProtocolVersionMismatch { major, minor } => with_two_numbers(
                "open request protocol mismatch: ", *major as u64, ".", *minor as u64, ""),
            OpenRequestDecodeError::TruncatedFilter { expected, actual } => with_two_numbers(
                "open request filter truncated: expected ", *expected as u64, " bytes got ", *actual as u64, ""),
        }
    }
}

/// The text of an open response decode error.
pub open spec fn open_response_error_text(e: OpenResponseDecodeError) -> Seq<char> {
    match e {
        OpenResponseDecodeError::BufferTooShort => "open response buffer too short"@,
        OpenResponseDecodeError::ProtocolVersionMismatch { major, minor } => "open response protocol mismatch: "@
            + decimal(major as nat) + "."@ + decimal(minor as nat) + ""@,
    }
}

impl OpenResponseDecodeError {
    /// The error's text.
    pub fn to_string(&self) -> (s: String)
        ensures
            s@ == open_response_error_text(*self),
    {
        match self {
            OpenResponseDecodeError::BufferTooShort => "open response buffer too short".to_owned(),
            OpenResponseDecodeError::ProtocolVersionMismatch { major, minor } => with_two_numbers(
                "open response protocol mismatch: ", *major as u64, ".", *minor as u64, ""),
        }
    }
}

/// The text of an encode-into error.
pub open spec fn encode_into_error_text(e: EncodeIntoError) -> Seq<char> {
    match e {
        EncodeIntoError::BufferTooSmall { required, provided } => "encode output buffer too small: required "@
            + decimal(required as nat) + " bytes but provided "@ + decimal(provided as nat) + ""@,
    }
}

impl EncodeIntoError {
    /// The error's text.
    pub fn to_string(&self) -> (s: String)
        ensures
            s@ == encode_into_error_text(*self),
    {
        match self {
            EncodeIntoError::BufferTooSmall { required, provided } => with_two_numbers(
                "encode output buffer too small: required ", *required as u64, " bytes but provided ", *provided as u64, ""),
        }
    }
}

} // verus!
