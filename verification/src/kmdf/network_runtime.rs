//! Handing network packets to user mode with a reinjection token, and
//! accepting them back for reinjection.
use vstd::prelude::*;
use vstd::bytes::*;
use crate::proto::{
    EncodeIntoError, Layer, RuntimeSendDecodeError, decode_runtime_send_request, encode_network_event_payload,
    encode_runtime_event, spec_runtime_event_bytes, spec_network_payload_bytes, spec_runtime_send_check,
    runtime_send_decoded_from, event_magic, spec_runtime_send_bytes, lemma_runtime_send_roundtrip, lemma_layer_wire_roundtrip, network_magic, version_bytes, le32_at, le64_at,
};
use crate::wire::{copy_into, push_u16_le, push_u32_le, push_u64_le, spliced};
use crate::kmdf_core::{FixedPacket, FixedPacketError, ReinjectionError, TokenTableView, spec_issue, spec_consume, table_wf, tokens_unique, lemma_issue_then_consume, lemma_consume_is_one_shot, lemma_table_ops_keep_tokens_unique};
use crate::kmdf::reinject::ReinjectionTable;
use crate::kmdf::filter_eval::{layer_name, layer_name_str};
use crate::proto::{encode_into_error_text, send_error_text};
use crate::kmdf_core::fixed_packet_error_text;
use vstd::string::StringExecFns;

verus! {

/// The most bytes an accepted packet may have.
pub const ACCEPTED_PACKET_BYTES: usize = 2048;

/// A packet that user mode sent back, with the id of the packet it
/// replaces.
#[derive(Debug, Clone, PartialEq, Eq)]
pub struct AcceptedReinjection {
    pub layer: Layer,
    pub packet_id: u64,
    pub packet: FixedPacket<2048>,
}

/// The network event path: issuing events and accepting send requests.
#[derive(Debug, Clone, Copy, PartialEq, Eq, Structural)]
pub struct NetworkRuntime;

/// Why the network path refused an event or a send request.
#[derive(Debug, Clone, PartialEq, Eq, Structural)]
pub enum NetworkRuntimeError {
    UnsupportedLayer(Layer),
    EncodeInto(EncodeIntoError),
    PacketBuffer(FixedPacketError),
    DecodeSend(RuntimeSendDecodeError),
    UnknownToken,
}

pub open spec fn is_network(layer: Layer) -> bool {
    layer == Layer::Network || layer == Layer::NetworkForward
}

/// The frame of a network event: a runtime event around a network payload.
pub open spec fn network_event_frame(layer: Layer, token: u64, packet: Seq<u8>) -> Seq<u8> {
    spec_runtime_event_bytes(layer, spec_network_payload_bytes(token, packet))
}

/// What issuing an event into a buffer of `out_len` bytes does: refuse a
/// non-network layer, refuse a short buffer (no token is spent), else
/// spend the next token; gives the table after and the result.
pub open spec fn spec_issue_into(v: TokenTableView, layer: Layer, packet_id: u64, packet_len: nat, out_len: nat) -> (TokenTableView, Result<usize, NetworkRuntimeError>) {
    if !is_network(layer) {
        (v, Err(NetworkRuntimeError::UnsupportedLayer(layer)))
    } else if out_len < 32 + packet_len {
        (v, Err(NetworkRuntimeError::EncodeInto(EncodeIntoError::BufferTooSmall {
            required: (32 + packet_len) as usize,
            provided: out_len as usize,
        })))
    } else {
        (spec_issue(v, 256, packet_id).0, Ok((32 + packet_len) as usize))
    }
}

/// What accepting a send request gives: the request must decode, be for a
/// network layer, carry a packet that fits, and redeem a live token.
pub open spec fn spec_accept(v: TokenTableView, raw: Seq<u8>) -> (TokenTableView, Result<(Layer, u64, Seq<u8>), NetworkRuntimeError>) {
    match spec_runtime_send_check(raw) {
        Some(e) => (v, Err(NetworkRuntimeError::DecodeSend(e))),
        None => {
            let layer = Layer::spec_from_wire(raw[8])->0;
            let payload = raw.subrange(24, 24 + le32_at(raw, 20));
            if !is_network(layer) {
                (v, Err(NetworkRuntimeError::UnsupportedLayer(layer)))
            } else if payload.len() > 2048 {
                (v, Err(NetworkRuntimeError::PacketBuffer(FixedPacketError::PacketTooLarge {
                    required: payload.len() as usize,
                    capacity: 2048,
                })))
            } else {
                match spec_consume(v, le64_at(raw, 12)) {
                    (v2, Ok(id)) => (v2, Ok((layer, id, payload))),
                    (v2, Err(_)) => (v2, Err(NetworkRuntimeError::UnknownToken)),
                }
            }
        },
    }
}

fn check_network_layer(layer: Layer) -> (r: Result<(), NetworkRuntimeError>)
    ensures
        is_network(layer) ==> r is Ok,
        !is_network(layer) ==> r == Err::<(), NetworkRuntimeError>(NetworkRuntimeError::UnsupportedLayer(layer)),
{
    match layer {
        Layer::Network | Layer::NetworkForward => Ok(()),
        _ => Err(NetworkRuntimeError::UnsupportedLayer(layer)),
    }
}

/// The first 32 bytes of a network event frame: event header, then the
/// payload header.
fn event_head(layer: Layer, token: u64, packet_len: usize) -> (h: Vec<u8>)
    requires
        packet_len <= isize::MAX,
    ensures
        h@.len() == 32,
        h@ == event_magic() + version_bytes(0, 1) + seq![layer.spec_wire(), 0u8, 0u8, 0u8]
            + spec_u32_to_le_bytes((16 + packet_len) as u32) + network_magic() + spec_u64_to_le_bytes(token)
            + spec_u32_to_le_bytes(packet_len as u32),
{
    let mut h: Vec<u8> = Vec::new();
    h.push(0x57);
    h.push(0x44);
    h.push(0x52);
    h.push(0x54);
    push_u16_le(&mut h, 0);
    push_u16_le(&mut h, 1);
    h.push(layer.to_wire());
    h.push(0);
    h.push(0);
    h.push(0);
    push_u32_le(&mut h, (16u64 + packet_len as u64) as u32);
    h.push(0x57);
    h.push(0x44);
    h.push(0x4e);
    h.push(0x57);
    push_u64_le(&mut h, token);
    push_u32_le(&mut h, packet_len as u32);
    proof {
        lemma_auto_spec_u16_to_from_le_bytes();
        lemma_auto_spec_u32_to_from_le_bytes();
        lemma_auto_spec_u64_to_from_le_bytes();
    }
    assert(h@ =~= event_magic() + version_bytes(0, 1) + seq![layer.spec_wire(), 0u8, 0u8, 0u8]
        + spec_u32_to_le_bytes((16 + packet_len) as u32) + network_magic() + spec_u64_to_le_bytes(token)
        + spec_u32_to_le_bytes(packet_len as u32));
    h
}

impl NetworkRuntime {
    /// Writes a network event for a packet into `output`, spending a fresh
    /// reinjection token, and gives the frame's length; a short buffer is
    /// refused before any token is spent.
    pub fn issue_event_into(
        table: &mut ReinjectionTable,
        layer: Layer,
        packet_id: u64,
        packet: &[u8],
        output: &mut [u8],
    ) -> (r: Result<usize, NetworkRuntimeError>)
        requires
            old(table).wf(),
            packet@.len() <= isize::MAX,
        ensures
            final(table).wf(),
            (final(table).spec_view(), r) == spec_issue_into(old(table).spec_view(), layer, packet_id, packet@.len(), old(output)@.len()),
            r is Ok ==> final(output)@ == spliced(old(output)@, 0, network_event_frame(layer, spec_issue(old(table).spec_view(), 256, packet_id).1, packet@)),
            r is Err ==> final(output)@ == old(output)@,
    {
        match check_network_layer(layer) {
            Ok(()) => {},
            Err(e) => {
                return Err(e);
            },
        }
        let n = packet.len();
        let required = 32 + n;
        if output.len() < required {
            return Err(NetworkRuntimeError::EncodeInto(EncodeIntoError::BufferTooSmall { required, provided: output.len() }));
        }
        let token = table.issue_for_network_packet(packet_id);
        let head = event_head(layer, token.raw(), n);
        copy_into(output, 0, head.as_slice());
        copy_into(output, 32, packet);
        proof {
            let frame = network_event_frame(layer, token.spec_raw(), packet@);
            lemma_auto_spec_u16_to_from_le_bytes();
            lemma_auto_spec_u32_to_from_le_bytes();
            lemma_auto_spec_u64_to_from_le_bytes();
            assert(spec_network_payload_bytes(token.spec_raw(), packet@).len() == 16 + packet@.len());
            assert(frame =~= head@ + packet@);
            assert(final(output)@ =~= spliced(old(output)@, 0, frame));
        }
        Ok(required)
    }

    /// Encodes a network event for a packet, spending a fresh token.
    pub fn issue_event(table: &mut ReinjectionTable, layer: Layer, packet_id: u64, packet: &[u8]) -> (r: Result<Vec<u8>, NetworkRuntimeError>)
        requires
            old(table).wf(),
            packet@.len() + 16 <= u32::MAX,
        ensures
            final(table).wf(),
            !is_network(layer) ==> r == Err::<Vec<u8>, NetworkRuntimeError>(NetworkRuntimeError::UnsupportedLayer(layer))
                && final(table).spec_view() == old(table).spec_view(),
            is_network(layer) ==> (r matches Ok(bytes) && final(table).spec_view() == spec_issue(old(table).spec_view(), 256, packet_id).0
                && bytes@ == network_event_frame(layer, spec_issue(old(table).spec_view(), 256, packet_id).1, packet@)),
    {
        match check_network_layer(layer) {
            Ok(()) => {},
            Err(e) => {
                return Err(e);
            },
        }
        let token = table.issue_for_network_packet(packet_id);
        let payload = encode_network_event_payload(token.raw(), packet);
        proof {
            lemma_auto_spec_u32_to_from_le_bytes();
            lemma_auto_spec_u64_to_from_le_bytes();
            assert(payload@.len() == 16 + packet@.len());
        }
        Ok(encode_runtime_event(layer, payload.as_slice()))
    }

    /// Accepts a send request: decodes it, checks the layer, copies the
    /// packet and redeems its token, giving the packet and the id of the
    /// packet it replaces.
    pub fn accept_send(table: &mut ReinjectionTable, raw: &[u8]) -> (r: Result<AcceptedReinjection, NetworkRuntimeError>)
        requires
            old(table).wf(),
        ensures
            final(table).wf(),
            final(table).spec_view() == spec_accept(old(table).spec_view(), raw@).0,
            match spec_accept(old(table).spec_view(), raw@).1 {
                Ok((layer, id, bytes)) => r matches Ok(a) && a.layer == layer && a.packet_id == id
                    && a.packet.view() == bytes && a.packet.wf(),
                Err(e) => r == Err::<AcceptedReinjection, NetworkRuntimeError>(e),
            },
    {
        let request = match decode_runtime_send_request(raw) {
            Ok(req) => req,
            Err(e) => {
                return Err(NetworkRuntimeError::DecodeSend(e));
            },
        };
        match check_network_layer(request.header.layer) {
            Ok(()) => {},
            Err(e) => {
                return Err(e);
            },
        }
        let packet = match FixedPacket::<2048>::copy_from_slice(request.payload) {
            Ok(p) => p,
            Err(e) => {
                return Err(NetworkRuntimeError::PacketBuffer(e));
            },
        };
        let packet_id = match table.consume_raw(request.header.reinjection_token) {
            Ok(id) => id,
            Err(ReinjectionError::UnknownToken) => {
                return Err(NetworkRuntimeError::UnknownToken);
            },
        };
        Ok(AcceptedReinjection { layer: request.header.layer, packet_id, packet })
    }
}


/// A packet handed out on a network layer comes back exactly once: the
/// send request that carries its token (with at most 2048 bytes) is
/// accepted with the packet's id, layer and the bytes sent, and the same
/// request afterwards is refused as an unknown token. (Tokens count up
/// from 1; the last counter value, `u64::MAX`, is left out.)
pub proof fn lemma_issue_then_accept_once(v: TokenTableView, layer: Layer, packet_id: u64, sent: Seq<u8>)
    requires
        table_wf(v, 256),
        tokens_unique(v),
        v.next_token < u64::MAX,
        is_network(layer),
        sent.len() <= 2048,
    ensures
        ({
            let (v1, token) = spec_issue(v, 256, packet_id);
            let raw = spec_runtime_send_bytes(layer, token, sent);
            &&& spec_accept(v1, raw).1 == Ok::<(Layer, u64, Seq<u8>), NetworkRuntimeError>((layer, packet_id, sent))
            &&& spec_accept(spec_accept(v1, raw).0, raw).1 == Err::<(Layer, u64, Seq<u8>), NetworkRuntimeError>(NetworkRuntimeError::UnknownToken)
        }),
{
    let (v1, token) = spec_issue(v, 256, packet_id);
    let raw = spec_runtime_send_bytes(layer, token, sent);
    lemma_runtime_send_roundtrip(layer, token, sent);
    lemma_auto_spec_u16_to_from_le_bytes();
    lemma_auto_spec_u32_to_from_le_bytes();
    lemma_auto_spec_u64_to_from_le_bytes();
    assert(raw[8] == layer.spec_wire());
    assert(raw.subrange(12, 20) =~= spec_u64_to_le_bytes(token));
    assert(le64_at(raw, 12) == token);
    assert(raw.subrange(20, 24) =~= spec_u32_to_le_bytes(sent.len() as u32));
    assert(le32_at(raw, 20) == sent.len());
    assert(raw.subrange(24, 24 + sent.len() as int) =~= sent);
    lemma_layer_wire_roundtrip(layer, 0);
    lemma_issue_then_consume(v, 256, packet_id);
    lemma_table_ops_keep_tokens_unique(v, 256, packet_id, 0);
    lemma_consume_is_one_shot(v1, 256, token);
}


/// The text of a network path error.
pub open spec fn network_error_text(e: NetworkRuntimeError) -> Seq<char> {
    match e {
        NetworkRuntimeError::UnsupportedLayer(l) => "network runtime does not support layer "@ + layer_name(l),
        NetworkRuntimeError::EncodeInto(x) => encode_into_error_text(x),
        NetworkRuntimeError::PacketBuffer(x) => fixed_packet_error_text(x),
        NetworkRuntimeError::DecodeSend(x) => send_error_text(x),
        NetworkRuntimeError::UnknownToken => "unknown reinjection token"@,
    }
}

impl NetworkRuntimeError {
    /// The error's text.
    pub fn to_string(&self) -> (s: String)
        ensures
            s@ == network_error_text(*self),
    {
        match self {
            NetworkRuntimeError::UnsupportedLayer(l) => {
                let mut s = "network runtime does not support layer ".to_owned();
                s.append(layer_name_str(*l));
                s
            },
            NetworkRuntimeError::EncodeInto(x) => x.to_string(),
            NetworkRuntimeError::PacketBuffer(x) => x.to_string(),
            NetworkRuntimeError::DecodeSend(x) => x.to_string(),
            NetworkRuntimeError::UnknownToken => "unknown reinjection token".to_owned(),
        }
    }
}

} // verus!
