//! Received events: runtime frames decoded into packets, socket events and
//! flow events, and IPv4 header checksum repair.
use vstd::prelude::*;
use vstd::arithmetic::div_mod::lemma_add_mod_noop;
use vstd::bytes::*;
use crate::proto::{
    lemma_flow_payload_roundtrip, lemma_layer_wire_roundtrip, lemma_network_payload_roundtrip,
    lemma_runtime_event_roundtrip, lemma_socket_payload_roundtrip, spec_flow_payload_bytes, spec_network_payload_bytes,
    spec_runtime_event_bytes, spec_socket_payload_bytes,
    FlowEventKind, FlowEventPayload, Layer, RuntimeEventDecodeError, SocketEventKind, SocketEventPayload,
    decode_flow_event_payload, decode_network_event_payload, decode_runtime_event, decode_socket_event_payload,
    le32_at, le64_at, spec_flow_payload_check, spec_network_payload_check, spec_runtime_event_check,
    spec_socket_payload_check,
};
use crate::wire::{be16, extend_bytes};
use crate::user::error::{UserError, UserErrorView, undecodable_frame_text};

verus! {

/// Whether changing a packet left its header checksum stale.
#[derive(Debug, Clone, Copy, PartialEq, Eq, Structural)]
pub enum ChecksumUpdate {
    Clean,
    Dirty,
}

/// A received IPv4 packet.
#[derive(Debug, Clone)]
pub struct NetworkPacket {
    layer: Layer,
    bytes: Vec<u8>,
    header_len: usize,
    checksum_dirty: bool,
    reinjection_token: Option<u64>,
}

/// A received event.
#[derive(Debug, Clone)]
pub enum RecvEvent {
    Network(NetworkPacket),
    Socket(SocketEventPayload),
    Flow(FlowEventPayload),
}

/// The sum of the first `k` big-endian 16-bit words of `h`.
pub open spec fn words_sum(h: Seq<u8>, k: nat) -> nat
    decreases k,
{
    if k == 0 {
        0
    } else {
        words_sum(h, (k - 1) as nat) + be16(h[2 * (k - 1)], h[2 * (k - 1) + 1]) as nat
    }
}

/// Folding the carries of a sum back into its low 16 bits until none are
/// left.
pub open spec fn fold16(s: nat) -> nat
    decreases s,
{
    if s < 0x1_0000 {
        s
    } else {
        proof {
            lemma_fold_step_smaller(s);
        }
        fold16(s % 0x1_0000 + s / 0x1_0000)
    }
}

pub proof fn lemma_fold_step_smaller(s: nat)
    requires
        s >= 0x1_0000,
    ensures
        s % 0x1_0000 + s / 0x1_0000 < s,
{
    assert(s % 0x1_0000 + s / 0x1_0000 < s) by (nonlinear_arith)
        requires
            s >= 0x1_0000,
    ;
}

pub proof fn lemma_fold16_bound(s: nat)
    ensures
        fold16(s) < 0x1_0000,
    decreases s,
{
    if s >= 0x1_0000 {
        lemma_fold_step_smaller(s);
        lemma_fold16_bound(s % 0x1_0000 + s / 0x1_0000);
    }
}

/// The IPv4 header checksum of `h`: the ones' complement of the
/// ones'-complement sum of its 16-bit words (an odd last byte is left out),
/// the words added in 32 bits that wrap.
pub open spec fn header_checksum(h: Seq<u8>) -> u16 {
    !(fold16(words_sum(h, h.len() / 2) % 0x1_0000_0000) as u16)
}

/// Computes the IPv4 header checksum of `header`.
pub fn ipv4_header_checksum(header: &[u8]) -> (c: u16)
    ensures
        c == header_checksum(header@),
{
    let n = header.len();
    let mut sum: u32 = 0;
    let mut i: usize = 0;
    while i + 1 < n
        invariant
            n == header@.len(),
            i % 2 == 0,
            i <= n,
            sum == words_sum(header@, (i / 2) as nat) % 0x1_0000_0000,
        decreases n - i,
    {
        let word = (header[i] as u32) * 256 + (header[i + 1] as u32);
        let ghost before = words_sum(header@, (i / 2) as nat);
        assert(words_sum(header@, ((i + 2) / 2) as nat) == before + word);
        let ghost prev = sum;
        sum = sum.wrapping_add(word);
        assert(sum == (prev + word) % 0x1_0000_0000);
        proof {
            lemma_add_mod_noop(before as int, word as int, 0x1_0000_0000);
            assert((word as int) % 0x1_0000_0000 == word);
        }
        i = i + 2;
    }
    assert(i / 2 == n / 2);
    let ghost total: nat = sum as nat;
    while (sum >> 16u32) != 0
        invariant
            fold16(sum as nat) == fold16(total),
        decreases sum,
    {
        let hi = sum >> 16u32;
        let lo = sum & 0xffffu32;
        assert(hi == sum / 0x1_0000 && lo == sum % 0x1_0000) by (bit_vector)
            requires
                hi == sum >> 16u32,
                lo == sum & 0xffffu32,
        ;
        proof {
            lemma_fold_step_smaller(sum as nat);
        }
        sum = lo + hi;
    }
    assert(sum >> 16u32 == 0 ==> sum < 0x1_0000) by (bit_vector);
    !(sum as u16)
}

/// A received packet as its layer, bytes, header length, whether its
/// checksum is stale, and its reinjection token.
pub struct PacketView {
    pub layer: Layer,
    pub bytes: Seq<u8>,
    pub header_len: nat,
    pub dirty: bool,
    pub token: Option<u64>,
}

impl NetworkPacket {
    pub closed spec fn spec_view(&self) -> PacketView {
        PacketView {
            layer: self.layer,
            bytes: self.bytes@,
            header_len: self.header_len as nat,
            dirty: self.checksum_dirty,
            token: self.reinjection_token,
        }
    }

    /// A packet always holds a whole IPv4 header of at least 20 bytes.
    pub closed spec fn wf(&self) -> bool {
        20 <= self.header_len <= 60 && self.header_len <= self.bytes@.len()
    }

    pub fn layer(&self) -> (l: Layer)
        ensures
            l == self.spec_view().layer,
    {
        self.layer
    }

    pub fn bytes(&self) -> (b: &[u8])
        ensures
            b@ == self.spec_view().bytes,
    {
        self.bytes.as_slice()
    }

    pub fn reinjection_token(&self) -> (t: Option<u64>)
        ensures
            t == self.spec_view().token,
    {
        self.reinjection_token
    }

    /// Sets the IPv4 TTL (byte 8); a new value leaves the checksum stale.
    pub fn set_ipv4_ttl(&mut self, ttl: u8) -> (u: ChecksumUpdate)
        requires
            old(self).wf(),
        ensures
            final(self).wf(),
            final(self).spec_view().layer == old(self).spec_view().layer,
            final(self).spec_view().header_len == old(self).spec_view().header_len,
            final(self).spec_view().token == old(self).spec_view().token,
            old(self).spec_view().bytes[8] == ttl ==> u == ChecksumUpdate::Clean && final(self).spec_view() == old(self).spec_view(),
            old(self).spec_view().bytes[8] != ttl ==> u == ChecksumUpdate::Dirty
                && final(self).spec_view().bytes == old(self).spec_view().bytes.update(8, ttl)
                && final(self).spec_view().dirty,
    {
        if self.bytes[8] == ttl {
            return ChecksumUpdate::Clean;
        }
        self.bytes.set(8, ttl);
        self.checksum_dirty = true;
        ChecksumUpdate::Dirty
    }

    /// Recomputes a stale header checksum; a clean packet is left alone.
    pub fn repair_checksums(&mut self) -> (r: Result<(), UserError>)
        requires
            old(self).wf(),
        ensures
            final(self).wf(),
            r is Ok,
            final(self).spec_view().layer == old(self).spec_view().layer,
            final(self).spec_view().header_len == old(self).spec_view().header_len,
            final(self).spec_view().token == old(self).spec_view().token,
            !final(self).spec_view().dirty,
            !old(self).spec_view().dirty ==> final(self).spec_view().bytes == old(self).spec_view().bytes,
            old(self).spec_view().dirty ==> final(self).spec_view().bytes == repaired(old(self).spec_view().bytes, old(self).spec_view().header_len),
    {
        if self.header_len < 20 || self.bytes.len() < self.header_len {
            return Err(UserError::InvalidFrame("invalid ipv4 header length"));
        }
        if self.checksum_dirty {
            self.bytes.set(10, 0);
            self.bytes.set(11, 0);
            let checksum = {
                let header = vstd::slice::slice_subrange(self.bytes.as_slice(), 0, self.header_len);
                ipv4_header_checksum(header)
            };
            self.bytes.set(10, (checksum >> 8u16) as u8);
            self.bytes.set(11, (checksum & 0xffu16) as u8);
            self.checksum_dirty = false;
        }
        Ok(())
    }
}

/// The header bytes with a zeroed checksum field.
pub open spec fn zeroed_checksum(bytes: Seq<u8>) -> Seq<u8> {
    bytes.update(10, 0).update(11, 0)
}

/// The packet with its header checksum recomputed over its first
/// `header_len` bytes (with the checksum field zeroed) and written
/// big-endian at bytes 10 and 11.
pub open spec fn repaired(bytes: Seq<u8>, header_len: nat) -> Seq<u8> {
    let c = header_checksum(zeroed_checksum(bytes).subrange(0, header_len as int));
    zeroed_checksum(bytes).update(10, (c >> 8u16) as u8).update(11, (c & 0xffu16) as u8)
}


/// A received event as plain values.
pub enum EventView {
    Network(PacketView),
    Socket { kind: SocketEventKind, process_id: u64 },
    Flow { kind: FlowEventKind, flow_id: u64, process_id: u64 },
}

impl RecvEvent {
    pub open spec fn spec_view(&self) -> EventView {
        match self {
            RecvEvent::Network(p) => EventView::Network(p.spec_view()),
            RecvEvent::Socket(s) => EventView::Socket { kind: s.spec_kind(), process_id: s.spec_process_id() },
            RecvEvent::Flow(f) => EventView::Flow { kind: f.spec_kind(), flow_id: f.spec_flow_id(), process_id: f.spec_process_id() },
        }
    }

    /// A network event holds a well-formed packet.
    pub closed spec fn wf(&self) -> bool {
        match self {
            RecvEvent::Network(p) => p.wf(),
            _ => true,
        }
    }
}

/// The packet `raw` holds as an IPv4 packet seen on `layer`: it must have
/// a whole header (version 4, IHL of at least 5).
pub open spec fn packet_of(raw: Seq<u8>, layer: Layer, token: Option<u64>) -> Result<EventView, UserErrorView> {
    if raw.len() < 20 {
        Err(UserErrorView::InvalidFrame("frame too short for ipv4 header"@))
    } else if raw[0] >> 4u8 != 4 || raw[0] & 0x0fu8 < 5 {
        Err(UserErrorView::InvalidFrame("unsupported frame format"@))
    } else if raw.len() < (raw[0] & 0x0fu8) as int * 4 {
        Err(UserErrorView::InvalidFrame("frame shorter than ipv4 header length"@))
    } else {
        Ok(EventView::Network(PacketView {
            layer,
            bytes: raw,
            header_len: ((raw[0] & 0x0fu8) as nat * 4) as nat,
            dirty: false,
            token,
        }))
    }
}

/// The packet a network event payload carries, with its token; a payload
/// without the network payload header is read as a bare IPv4 packet on the
/// Network layer.
pub open spec fn network_payload_event(layer: Layer, raw: Seq<u8>) -> Result<EventView, UserErrorView> {
    match spec_network_payload_check(raw) {
        None => packet_of(raw.subrange(16, 16 + le32_at(raw, 12)), layer, Some(le64_at(raw, 4))),
        Some(RuntimeEventDecodeError::InvalidNetworkPayloadMagic) | Some(RuntimeEventDecodeError::NetworkPayloadHeaderTooShort) =>
            packet_of(raw, Layer::Network, None),
        Some(_) => Err(UserErrorView::InvalidFrame(undecodable_frame_text())),
    }
}

/// What a received buffer decodes to: a runtime frame by its layer (reflect
/// frames are not decoded), or, without a runtime frame header, a bare IPv4
/// packet on the Network layer.
pub open spec fn spec_decode_event(raw: Seq<u8>) -> Result<EventView, UserErrorView> {
    match spec_runtime_event_check(raw) {
        None => {
            let payload = raw.subrange(16, 16 + le32_at(raw, 12));
            match Layer::spec_from_wire(raw[8])->0 {
                Layer::Network => network_payload_event(Layer::Network, payload),
                Layer::NetworkForward => network_payload_event(Layer::NetworkForward, payload),
                Layer::Socket => match spec_socket_payload_check(payload) {
                    None => Ok(EventView::Socket {
                        kind: SocketEventKind::spec_from_code(le32_at(payload, 0))->0,
                        process_id: le64_at(payload, 8),
                    }),
                    Some(_) => Err(UserErrorView::InvalidFrame(undecodable_frame_text())),
                },
                Layer::Flow => match spec_flow_payload_check(payload) {
                    None => Ok(EventView::Flow {
                        kind: FlowEventKind::spec_from_code(le32_at(payload, 0))->0,
                        flow_id: le64_at(payload, 8),
                        process_id: le64_at(payload, 16),
                    }),
                    Some(_) => Err(UserErrorView::InvalidFrame(undecodable_frame_text())),
                },
                Layer::Reflect => Err(UserErrorView::InvalidFrame("reflect runtime events are not decoded yet"@)),
            }
        },
        Some(RuntimeEventDecodeError::InvalidMagic) | Some(RuntimeEventDecodeError::HeaderTooShort) =>
            packet_of(raw, Layer::Network, None),
        Some(_) => Err(UserErrorView::InvalidFrame(undecodable_frame_text())),
    }
}

/// A decoded packet that carries a reinjection token came out of a
/// network event payload, whose length is a 32-bit field.
pub proof fn lemma_token_packet_fits(raw: Seq<u8>)
    ensures
        spec_decode_event(raw) matches Ok(EventView::Network(p)) ==> (p.token is Some ==> p.bytes.len() <= u32::MAX),
{
    if spec_runtime_event_check(raw) is None {
        let payload = raw.subrange(16, 16 + le32_at(raw, 12));
        if spec_network_payload_check(payload) is None {
            let inner = payload.subrange(16, 16 + le32_at(payload, 12));
            assert(inner.len() == le32_at(payload, 12));
        }
    }
}

/// The outcome of decoding agrees with the spec outcome `o`.
pub open spec fn event_decoded(r: Result<RecvEvent, UserError>, o: Result<EventView, UserErrorView>) -> bool {
    match o {
        Ok(v) => r matches Ok(e) && e.spec_view() == v && e.wf(),
        Err(x) => r matches Err(e) && e@ == x,
    }
}

fn decode_network_packet_with_metadata(raw: &[u8], layer: Layer, reinjection_token: Option<u64>) -> (r: Result<RecvEvent, UserError>)
    ensures
        event_decoded(r, packet_of(raw@, layer, reinjection_token)),
{
    if raw.len() < 20 {
        return Err(UserError::InvalidFrame("frame too short for ipv4 header"));
    }
    let first = raw[0];
    let version = first >> 4u8;
    let ihl_words = first & 0x0fu8;
    if version != 4 || ihl_words < 5 {
        return Err(UserError::InvalidFrame("unsupported frame format"));
    }
    let header_len = (ihl_words as usize) * 4;
    if raw.len() < header_len {
        return Err(UserError::InvalidFrame("frame shorter than ipv4 header length"));
    }
    assert(ihl_words <= 15) by (bit_vector)
        requires
            ihl_words == first & 0x0fu8,
    ;
    let mut bytes: Vec<u8> = Vec::new();
    extend_bytes(&mut bytes, raw);
    Ok(RecvEvent::Network(NetworkPacket { layer, bytes, header_len, checksum_dirty: false, reinjection_token }))
}

fn decode_runtime_network_packet(layer: Layer, raw: &[u8]) -> (r: Result<RecvEvent, UserError>)
    ensures
        event_decoded(r, network_payload_event(layer, raw@)),
{
    match decode_network_event_payload(raw) {
        Ok(payload) => decode_network_packet_with_metadata(payload.packet, layer, Some(payload.reinjection_token)),
        Err(RuntimeEventDecodeError::InvalidNetworkPayloadMagic) | Err(RuntimeEventDecodeError::NetworkPayloadHeaderTooShort) => {
            decode_network_packet_with_metadata(raw, Layer::Network, None)
        },
        Err(e) => Err(UserError::from_decode(e)),
    }
}

impl RecvEvent {
    /// Decodes a received buffer.
    pub fn decode(raw: &[u8]) -> (r: Result<RecvEvent, UserError>)
        ensures
            event_decoded(r, spec_decode_event(raw@)),
    {
        match decode_runtime_event(raw) {
            Ok(frame) => match frame.header.layer {
                Layer::Network | Layer::NetworkForward => decode_runtime_network_packet(frame.header.layer, frame.payload),
                Layer::Socket => match decode_socket_event_payload(frame.payload) {
                    Ok(p) => Ok(RecvEvent::Socket(p)),
                    Err(e) => Err(UserError::from_decode(e)),
                },
                Layer::Flow => match decode_flow_event_payload(frame.payload) {
                    Ok(p) => Ok(RecvEvent::Flow(p)),
                    Err(e) => Err(UserError::from_decode(e)),
                },
                Layer::Reflect => Err(UserError::InvalidFrame("reflect runtime events are not decoded yet")),
            },
            Err(RuntimeEventDecodeError::InvalidMagic) | Err(RuntimeEventDecodeError::HeaderTooShort) => {
                decode_network_packet_with_metadata(raw, Layer::Network, None)
            },
            Err(e) => Err(UserError::from_decode(e)),
        }
    }

    /// The packet of a network event.
    pub fn packet(&self) -> (p: Option<&NetworkPacket>)
        ensures
            match self {
                RecvEvent::Network(q) => p == Some(q),
                _ => p is None,
            },
    {
        match self {
            RecvEvent::Network(q) => Some(q),
            _ => None,
        }
    }

    /// The packet of a network event, for changing it.
    pub fn packet_mut(&mut self) -> (p: Option<&mut NetworkPacket>)
        ensures
            match *old(self) {
                RecvEvent::Network(q) => p matches Some(r) && *r == q && *final(self) == RecvEvent::Network(*final(r)),
                _ => p is None && *final(self) == *old(self),
            },
    {
        match self {
            RecvEvent::Network(q) => Some(q),
            _ => None,
        }
    }

    /// The payload of a socket event.
    pub fn socket(&self) -> (s: Option<&SocketEventPayload>)
        ensures
            match self {
                RecvEvent::Socket(q) => s == Some(q),
                _ => s is None,
            },
    {
        match self {
            RecvEvent::Socket(q) => Some(q),
            _ => None,
        }
    }

    /// The payload of a flow event.
    pub fn flow(&self) -> (f: Option<&FlowEventPayload>)
        ensures
            match self {
                RecvEvent::Flow(q) => f == Some(q),
                _ => f is None,
            },
    {
        match self {
            RecvEvent::Flow(q) => Some(q),
            _ => None,
        }
    }

    /// Repairs the checksum of a network event's packet.
    pub fn repair_checksums(&mut self) -> (r: Result<(), UserError>)
        requires
            old(self).wf(),
        ensures
            final(self).wf(),
            r is Ok,
            match (old(self).spec_view(), final(self).spec_view()) {
                (EventView::Network(a), EventView::Network(b)) => b.layer == a.layer && b.header_len == a.header_len
                    && b.token == a.token && !b.dirty
                    && b.bytes == (if a.dirty { repaired(a.bytes, a.header_len) } else { a.bytes }),
                (EventView::Network(_), _) => false,
                (x, y) => y == x,
            },
    {
        match self {
            RecvEvent::Network(packet) => packet.repair_checksums(),
            _ => Ok(()),
        }
    }
}

/// What the driver issues for a packet on a network layer decodes, on the
/// user side, to that packet on that layer with its reinjection token
/// (as any buffer holding the packet decodes: an IPv4 packet with a whole
/// header).
pub proof fn lemma_issued_network_event_decodes(layer: Layer, token: u64, packet: Seq<u8>)
    requires
        layer == Layer::Network || layer == Layer::NetworkForward,
        packet.len() + 16 <= u32::MAX,
    ensures
        spec_decode_event(spec_runtime_event_bytes(layer, spec_network_payload_bytes(token, packet))) == packet_of(
            packet,
            layer,
            Some(token),
        ),
{
    lemma_auto_spec_u16_to_from_le_bytes();
    lemma_auto_spec_u32_to_from_le_bytes();
    lemma_auto_spec_u64_to_from_le_bytes();
    let payload = spec_network_payload_bytes(token, packet);
    lemma_network_payload_roundtrip(token, packet);
    lemma_runtime_event_roundtrip(layer, payload);
    lemma_layer_wire_roundtrip(layer, 0);
    let raw = spec_runtime_event_bytes(layer, payload);
    assert(raw[8] == layer.spec_wire());
    assert(raw.subrange(12, 16) =~= spec_u32_to_le_bytes(payload.len() as u32));
    assert(le32_at(raw, 12) == payload.len());
    assert(raw.subrange(16, 16 + le32_at(raw, 12)) =~= payload);
    assert(payload.subrange(4, 12) =~= spec_u64_to_le_bytes(token));
    assert(le64_at(payload, 4) == token);
    assert(payload.subrange(12, 16) =~= spec_u32_to_le_bytes(packet.len() as u32));
    assert(le32_at(payload, 12) == packet.len());
    assert(payload.subrange(16, 16 + le32_at(payload, 12)) =~= packet);
}

/// A valid IPv4 packet that the driver issues on a network layer decodes
/// to a network event holding exactly that packet, on that layer, with
/// that reinjection token.
pub proof fn lemma_issued_ipv4_packet_decodes(layer: Layer, token: u64, packet: Seq<u8>)
    requires
        layer == Layer::Network || layer == Layer::NetworkForward,
        packet.len() + 16 <= u32::MAX,
        packet.len() >= 20,
        packet[0] >> 4u8 == 4,
        packet[0] & 0x0fu8 >= 5,
        packet.len() >= (packet[0] & 0x0fu8) as int * 4,
    ensures
        spec_decode_event(spec_runtime_event_bytes(layer, spec_network_payload_bytes(token, packet))) matches Ok(
            EventView::Network(p),
        ) && p.layer == layer && p.bytes == packet && p.token == Some(token),
{
    lemma_issued_network_event_decodes(layer, token, packet);
}

/// A socket event frame decodes to that socket event.
pub proof fn lemma_socket_event_decodes(kind: SocketEventKind, process_id: u64)
    ensures
        spec_decode_event(spec_runtime_event_bytes(Layer::Socket, spec_socket_payload_bytes(kind, process_id)))
            == Ok::<EventView, UserErrorView>(EventView::Socket { kind, process_id }),
{
    lemma_auto_spec_u16_to_from_le_bytes();
    lemma_auto_spec_u32_to_from_le_bytes();
    lemma_auto_spec_u64_to_from_le_bytes();
    let payload = spec_socket_payload_bytes(kind, process_id);
    lemma_socket_payload_roundtrip(kind, process_id);
    assert(payload.len() == 16);
    lemma_runtime_event_roundtrip(Layer::Socket, payload);
    lemma_layer_wire_roundtrip(Layer::Socket, 0);
    let raw = spec_runtime_event_bytes(Layer::Socket, payload);
    assert(raw[8] == Layer::Socket.spec_wire());
    assert(raw.subrange(12, 16) =~= spec_u32_to_le_bytes(payload.len() as u32));
    assert(le32_at(raw, 12) == payload.len());
    assert(raw.subrange(16, 16 + le32_at(raw, 12)) =~= payload);
}

/// A flow event frame decodes to that flow event.
pub proof fn lemma_flow_event_decodes(kind: FlowEventKind, flow_id: u64, process_id: u64)
    ensures
        spec_decode_event(spec_runtime_event_bytes(Layer::Flow, spec_flow_payload_bytes(kind, flow_id, process_id)))
            == Ok::<EventView, UserErrorView>(EventView::Flow { kind, flow_id, process_id }),
{
    lemma_auto_spec_u16_to_from_le_bytes();
    lemma_auto_spec_u32_to_from_le_bytes();
    lemma_auto_spec_u64_to_from_le_bytes();
    let payload = spec_flow_payload_bytes(kind, flow_id, process_id);
    lemma_flow_payload_roundtrip(kind, flow_id, process_id);
    assert(payload.len() == 24);
    lemma_runtime_event_roundtrip(Layer::Flow, payload);
    lemma_layer_wire_roundtrip(Layer::Flow, 0);
    let raw = spec_runtime_event_bytes(Layer::Flow, payload);
    assert(raw[8] == Layer::Flow.spec_wire());
    assert(raw.subrange(12, 16) =~= spec_u32_to_le_bytes(payload.len() as u32));
    assert(le32_at(raw, 12) == payload.len());
    assert(raw.subrange(16, 16 + le32_at(raw, 12)) =~= payload);
}

/// Folding keeps a sum's residue modulo 0xffff and, for a positive sum,
/// lands in 1..=0xffff.
pub proof fn lemma_fold16_residue(s: nat)
    ensures
        s == 0 ==> fold16(s) == 0,
        s > 0 ==> 1 <= fold16(s) <= 0xffff && fold16(s) % 0xffff == s % 0xffff,
    decreases s,
{
    if s >= 0x1_0000 {
        lemma_fold_step_smaller(s);
        let t = s % 0x1_0000 + s / 0x1_0000;
        assert(t > 0 && t % 0xffff == s % 0xffff) by (nonlinear_arith)
            requires
                s >= 0x1_0000,
                t == s % 0x1_0000 + s / 0x1_0000,
        ;
        lemma_fold16_residue(t);
    }
}

/// Each of the first `k` words adds at most 0xffff.
pub proof fn lemma_words_sum_bound(h: Seq<u8>, k: nat)
    ensures
        words_sum(h, k) <= k * 0xffff,
    decreases k,
{
    if k > 0 {
        lemma_words_sum_bound(h, (k - 1) as nat);
    }
}

/// Sums of words over bytes that agree on the first `2k` positions are
/// equal.
proof fn lemma_words_sum_agree(a: Seq<u8>, b: Seq<u8>, k: nat)
    requires
        2 * k <= a.len(),
        2 * k <= b.len(),
        forall|i: int| 0 <= i < 2 * k ==> a[i] == b[i],
    ensures
        words_sum(a, k) == words_sum(b, k),
    decreases k,
{
    if k > 0 {
        lemma_words_sum_agree(a, b, (k - 1) as nat);
        assert(a[2 * (k - 1)] == b[2 * (k - 1)]);
        assert(a[2 * (k - 1) + 1] == b[2 * (k - 1) + 1]);
    }
}

/// Filling the zeroed checksum word (bytes 10 and 11) adds its value to
/// the sum of the words.
proof fn lemma_words_sum_fill_checksum(a: Seq<u8>, b: Seq<u8>, k: nat)
    requires
        k >= 6,
        a.len() == b.len(),
        2 * k <= a.len(),
        a[10] == 0,
        a[11] == 0,
        forall|i: int| 0 <= i < a.len() && i != 10 && i != 11 ==> a[i] == b[i],
    ensures
        words_sum(b, k) == words_sum(a, k) + be16(b[10], b[11]),
    decreases k,
{
    if k == 6 {
        lemma_words_sum_agree(a, b, 5);
    } else {
        lemma_words_sum_fill_checksum(a, b, (k - 1) as nat);
        assert(a[2 * (k - 1)] == b[2 * (k - 1)]);
        assert(a[2 * (k - 1) + 1] == b[2 * (k - 1) + 1]);
    }
}

/// A header whose zeroed checksum word is filled with the checksum of the
/// header as it was then checks: its checksum comes out 0.
pub proof fn lemma_filled_checksum_checks(a: Seq<u8>)
    requires
        12 <= a.len() <= 60,
        a[10] == 0,
        a[11] == 0,
    ensures
        ({
            let c = header_checksum(a);
            header_checksum(a.update(10, (c >> 8u16) as u8).update(11, (c & 0xffu16) as u8)) == 0
        }),
{
    let k = a.len() / 2;
    let c = header_checksum(a);
    let b = a.update(10, (c >> 8u16) as u8).update(11, (c & 0xffu16) as u8);
    let s0 = words_sum(a, k);
    lemma_words_sum_bound(a, k);
    assert(s0 <= 30 * 0xffff) by (nonlinear_arith)
        requires
            s0 <= k * 0xffff,
            k <= 30,
    ;
    assert(s0 % 0x1_0000_0000 == s0);
    let f = fold16(s0);
    lemma_fold16_bound(s0);
    lemma_fold16_residue(s0);
    assert(c == !(f as u16));
    let fu = f as u16;
    assert(fu as int == f);
    assert((!fu) as int == 0xffff - fu as int) by (bit_vector);
    let hi = (c >> 8u16) as u8;
    let lo = (c & 0xffu16) as u8;
    assert(hi as int * 256 + lo as int == c as int) by (bit_vector)
        requires
            hi == (c >> 8u16) as u8,
            lo == (c & 0xffu16) as u8,
    ;
    lemma_words_sum_fill_checksum(a, b, k);
    let s1 = words_sum(b, k);
    assert(s1 == s0 + (0xffff - f));
    assert(s1 > 0);
    assert(s1 % 0xffff == 0) by (nonlinear_arith)
        requires
            s1 == s0 + (0xffff - f),
            s0 == 0 ==> f == 0,
            s0 > 0 ==> f % 0xffff == s0 % 0xffff,
            0 <= f <= 0xffff,
    ;
    lemma_fold16_residue(s1);
    assert(s1 <= 31 * 0xffff);
    assert(s1 % 0x1_0000_0000 == s1);
    assert(fold16(s1) == 0xffff);
    assert(!(0xffffu16) == 0u16) by (bit_vector);
}

} // verus!
