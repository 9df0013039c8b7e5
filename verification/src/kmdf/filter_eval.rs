//! Evaluating filter programs inside the driver: checking a decoded
//! program against the layer it will run on, and running it on events and
//! network packets.
use vstd::prelude::*;
use crate::proto::Layer;
use crate::wire::{be16, be32, be16_of, be32_of};
use crate::filter::fields::{Field, field_name, lower_chars, spec_field_of_name, field_of_str};
use crate::filter::lower::field_value;
use crate::filter::parser::ValueView;
use crate::filter::semantics::{Findings, visit_event};
use crate::filter::ir::{FilterIr, IrView, LayerMask, OpCode, OpView, decode_ir, lemma_field_encoding, decode_error_text, encode_ir, names_view, ops_view, spec_decode_ir, spec_ir_bytes};
use crate::filter::{compile, compile_error_text, spec_compile, lemma_compiled_filter_roundtrip};
use crate::text::join3;
use vstd::string::StringExecFns;

verus! {

/// Something the driver saw, to be matched against a filter.
#[derive(Debug, Clone, Copy, PartialEq, Eq, Structural)]
pub enum DriverEvent {
    NetworkPacket { layer: Layer, protocol: u8 },
    SocketConnect { process_id: u64 },
    ReflectOpen { handle_id: u64 },
    ReflectClose { handle_id: u64 },
    FlowEstablished { flow_id: u64, process_id: u64 },
}

impl DriverEvent {
    pub fn network_packet(layer: Layer, protocol: u8) -> (e: DriverEvent)
        ensures
            e == (DriverEvent::NetworkPacket { layer, protocol }),
    {
        DriverEvent::NetworkPacket { layer, protocol }
    }

    pub fn socket_connect(process_id: u64) -> (e: DriverEvent)
        ensures
            e == (DriverEvent::SocketConnect { process_id }),
    {
        DriverEvent::SocketConnect { process_id }
    }

    pub fn reflect_open(handle_id: u64) -> (e: DriverEvent)
        ensures
            e == (DriverEvent::ReflectOpen { handle_id }),
    {
        DriverEvent::ReflectOpen { handle_id }
    }

    pub fn reflect_close(handle_id: u64) -> (e: DriverEvent)
        ensures
            e == (DriverEvent::ReflectClose { handle_id }),
    {
        DriverEvent::ReflectClose { handle_id }
    }

    pub fn flow_established(flow_id: u64, process_id: u64) -> (e: DriverEvent)
        ensures
            e == (DriverEvent::FlowEstablished { flow_id, process_id }),
    {
        DriverEvent::FlowEstablished { flow_id, process_id }
    }

    /// The layer an event belongs to.
    pub open spec fn spec_layer(self) -> Layer {
        match self {
            DriverEvent::NetworkPacket { layer, .. } => layer,
            DriverEvent::SocketConnect { .. } => Layer::Socket,
            DriverEvent::ReflectOpen { .. } => Layer::Reflect,
            DriverEvent::ReflectClose { .. } => Layer::Reflect,
            DriverEvent::FlowEstablished { .. } => Layer::Flow,
        }
    }

    /// The code an `event == ...` test compares with: reflect open 1 (also
    /// for network packets), socket connect 2, reflect close 3, flow
    /// established 4.
    pub open spec fn spec_event_code(self) -> u64 {
        match self {
            DriverEvent::NetworkPacket { .. } => 1,
            DriverEvent::SocketConnect { .. } => 2,
            DriverEvent::ReflectOpen { .. } => 1,
            DriverEvent::ReflectClose { .. } => 3,
            DriverEvent::FlowEstablished { .. } => 4,
        }
    }

    /// The process an event carries, if any.
    pub open spec fn spec_process_id(self) -> Option<u64> {
        match self {
            DriverEvent::SocketConnect { process_id } => Some(process_id),
            DriverEvent::FlowEstablished { process_id, .. } => Some(process_id),
            _ => None,
        }
    }

    fn layer(self) -> (l: Layer)
        ensures
            l == self.spec_layer(),
    {
        match self {
            DriverEvent::NetworkPacket { layer, .. } => layer,
            DriverEvent::SocketConnect { .. } => Layer::Socket,
            DriverEvent::ReflectOpen { .. } => Layer::Reflect,
            DriverEvent::ReflectClose { .. } => Layer::Reflect,
            DriverEvent::FlowEstablished { .. } => Layer::Flow,
        }
    }

    fn event_code(self) -> (c: u64)
        ensures
            c == self.spec_event_code(),
    {
        match self {
            DriverEvent::NetworkPacket { .. } => 1,
            DriverEvent::SocketConnect { .. } => 2,
            DriverEvent::ReflectOpen { .. } => 1,
            DriverEvent::ReflectClose { .. } => 3,
            DriverEvent::FlowEstablished { .. } => 4,
        }
    }

    fn process_id(self) -> (p: Option<u64>)
        ensures
            p == self.spec_process_id(),
    {
        match self {
            DriverEvent::SocketConnect { process_id } => Some(process_id),
            DriverEvent::FlowEstablished { process_id, .. } => Some(process_id),
            _ => None,
        }
    }

    /// The flow id of a flow event.
    pub fn flow_id(self) -> (f: Option<u64>)
        ensures
            f == (match self {
                DriverEvent::FlowEstablished { flow_id, .. } => Some(flow_id),
                _ => None::<u64>,
            }),
    {
        match self {
            DriverEvent::FlowEstablished { flow_id, .. } => Some(flow_id),
            _ => None,
        }
    }
}

/// The value a `layer == ...` test compares with for each layer.
pub open spec fn layer_value(layer: Layer) -> u64 {
    match layer {
        Layer::Network => 1,
        Layer::NetworkForward => 2,
        Layer::Flow => 3,
        Layer::Socket => 4,
        Layer::Reflect => 5,
    }
}

/// The layer bit of a layer.
pub open spec fn layer_bit(layer: Layer) -> u8 {
    match layer {
        Layer::Network => 0x01,
        Layer::NetworkForward => 0x02,
        Layer::Flow => 0x04,
        Layer::Socket => 0x08,
        Layer::Reflect => 0x10,
    }
}

/// The layer's name as `Debug` writes it.
pub open spec fn layer_name(layer: Layer) -> Seq<char> {
    match layer {
        Layer::Network => "Network"@,
        Layer::NetworkForward => "NetworkForward"@,
        Layer::Flow => "Flow"@,
        Layer::Socket => "Socket"@,
        Layer::Reflect => "Reflect"@,
    }
}

pub open spec fn is_network_layer(layer: Layer) -> bool {
    layer == Layer::Network || layer == Layer::NetworkForward
}

fn layer_value_of(layer: Layer) -> (v: u64)
    ensures
        v == layer_value(layer),
{
    match layer {
        Layer::Network => 1,
        Layer::NetworkForward => 2,
        Layer::Flow => 3,
        Layer::Socket => 4,
        Layer::Reflect => 5,
    }
}

fn layer_mask(layer: Layer) -> (m: LayerMask)
    ensures
        m.spec_bits() == layer_bit(layer),
{
    match layer {
        Layer::Network => LayerMask::network(),
        Layer::NetworkForward => LayerMask::network_forward(),
        Layer::Flow => LayerMask::flow(),
        Layer::Socket => LayerMask::socket(),
        Layer::Reflect => LayerMask::reflect(),
    }
}

/// The layer's name as `Debug` writes it.
pub fn layer_name_str(layer: Layer) -> (s: &'static str)
    ensures
        s@ == layer_name(layer),
{
    match layer {
        Layer::Network => "Network",
        Layer::NetworkForward => "NetworkForward",
        Layer::Flow => "Flow",
        Layer::Socket => "Socket",
        Layer::Reflect => "Reflect",
    }
}

/// Why a filter cannot run in the driver.
#[derive(Debug, Clone, PartialEq, Eq)]
pub struct FilterCompileError {
    msg: String,
}

impl View for FilterCompileError {
    type V = Seq<char>;

    closed spec fn view(&self) -> Seq<char> {
        self.msg@
    }
}

impl FilterCompileError {
    fn new(msg: String) -> (e: FilterCompileError)
        ensures
            e@ == msg@,
    {
        FilterCompileError { msg }
    }

    /// The error's text.
    pub fn to_string(&self) -> (s: String)
        ensures
            s@ == self@,
    {
        self.msg.clone()
    }
}

/// `unsupported field/value combination for layer {layer}: layer`.
pub open spec fn layer_combination_error(layer: Layer) -> Seq<char> {
    "unsupported field/value combination for layer "@ + layer_name(layer) + ": layer"@
}

/// `unsupported field/value combination for layer {layer}: event`.
pub open spec fn event_combination_error(layer: Layer) -> Seq<char> {
    "unsupported field/value combination for layer "@ + layer_name(layer) + ": event"@
}

/// `unsupported field for FilterEngine runtime subset: {field}`.
pub open spec fn subset_error(field: Seq<char>) -> Seq<char> {
    "unsupported field for FilterEngine runtime subset: "@ + field
}

/// Whether an `event == v` test can match on a layer.
pub open spec fn event_code_fits(layer: Layer, v: u64) -> bool {
    match layer {
        Layer::Socket => v == 2,
        Layer::Flow => v == 4,
        Layer::Reflect => v == 1 || v == 3,
        _ => true,
    }
}

/// Whether `field` (with the compared value, for a test) may appear in a
/// filter for `layer`. Network layers take the packet fields and `layer`;
/// the others take `event`, `processId` (not on Reflect) and `layer`. A
/// test of `layer` or `event` must compare with a value that can match.
pub open spec fn check_field(layer: Layer, field: Seq<char>, value: Option<u64>) -> Result<(), Seq<char>> {
    let f = spec_field_of_name(field);
    if is_network_layer(layer) {
        match f {
            Some(Field::Event) | Some(Field::ProcessId) | None => Err(subset_error(field)),
            Some(Field::Layer) => if value matches Some(v) && v != layer_value(layer) {
                Err(layer_combination_error(layer))
            } else {
                Ok(())
            },
            _ => Ok(()),
        }
    } else {
        match f {
            Some(Field::Event) => if value matches Some(v) && !event_code_fits(layer, v) {
                Err(event_combination_error(layer))
            } else {
                Ok(())
            },
            Some(Field::ProcessId) => if layer == Layer::Reflect {
                Err("unsupported field for layer Reflect: processId"@)
            } else {
                Ok(())
            },
            Some(Field::Layer) => if value matches Some(v) && v != layer_value(layer) {
                Err(layer_combination_error(layer))
            } else {
                Ok(())
            },
            _ => Err(subset_error(field)),
        }
    }
}

/// Checks every name of `fields`, first to last.
pub open spec fn check_fields(layer: Layer, fields: Seq<Seq<char>>) -> Result<(), Seq<char>>
    decreases fields.len(),
{
    if fields.len() == 0 {
        Ok(())
    } else {
        match check_fields(layer, fields.drop_last()) {
            Err(m) => Err(m),
            Ok(()) => check_field(layer, fields.last(), None),
        }
    }
}

/// Checks one instruction for a layer.
pub open spec fn check_op(layer: Layer, op: OpView) -> Result<(), Seq<char>> {
    match op {
        OpView::FieldTest { field, value } => check_field(layer, field, Some(value)),
        OpView::PacketLoad32 { .. } | OpView::PacketLoad16 { .. } | OpView::PacketLoad8 { .. } => if is_network_layer(layer) {
            Ok(())
        } else {
            Err("unsupported opcode for FilterEngine runtime subset: packet load"@)
        },
        _ => Ok(()),
    }
}

/// Checks every instruction, first to last.
pub open spec fn check_ops(layer: Layer, ops: Seq<OpView>) -> Result<(), Seq<char>>
    decreases ops.len(),
{
    if ops.len() == 0 {
        Ok(())
    } else {
        match check_ops(layer, ops.drop_last()) {
            Err(m) => Err(m),
            Ok(()) => check_op(layer, ops.last()),
        }
    }
}

/// Whether an instruction pushes a value (a test) rather than combining.
pub open spec fn is_leaf(op: OpView) -> bool {
    !(op is And) && !(op is Or) && !(op is Not)
}

/// The stack depth after running `ops[i..]` from depth `depth`, if no
/// operator finds too few operands.
pub open spec fn shape_from(ops: Seq<OpView>, i: int, depth: int) -> Option<int>
    decreases ops.len() - i,
{
    if i < 0 || i >= ops.len() {
        Some(depth)
    } else {
        match ops[i] {
            OpView::Not => if depth < 1 { None } else { shape_from(ops, i + 1, depth) },
            OpView::And | OpView::Or => if depth < 2 { None } else { shape_from(ops, i + 1, depth - 1) },
            _ => shape_from(ops, i + 1, depth + 1),
        }
    }
}

/// Checks a program's shape.
pub open spec fn check_shape(ops: Seq<OpView>) -> Result<(), Seq<char>> {
    if ops.len() == 0 {
        Err("filter program is empty"@)
    } else if shape_from(ops, 0, 0) != Some(1int) {
        Err("invalid filter program"@)
    } else {
        Ok(())
    }
}

/// Whether a decoded program can run on `layer`: its required layers (if
/// any) include the layer, it reads packet bytes only on a network layer,
/// its fields and tests suit the layer, and it is well formed.
pub open spec fn check_ir(layer: Layer, ir: IrView) -> Result<(), Seq<char>> {
    if ir.required_layers != 0 && ir.required_layers & layer_bit(layer) != layer_bit(layer) {
        Err("incompatible filter for "@ + layer_name(layer) + ": requires different layer"@)
    } else if ir.needs_payload && !is_network_layer(layer) {
        Err("payload predicates are not supported by FilterEngine"@)
    } else {
        match check_fields(layer, ir.referenced_fields) {
            Err(m) => Err(m),
            Ok(()) => match check_ops(layer, ir.program) {
                Err(m) => Err(m),
                Ok(()) => check_shape(ir.program),
            },
        }
    }
}

/// Runs the stack program `ops[i..]` on `stack`, where `leaves[k]` is the
/// value test `k` pushes (`None` stops the run). The result is the one
/// value left at the end; a missing operand or a stack that does not end
/// with exactly one value gives `None`.
pub open spec fn run_ops(ops: Seq<OpView>, i: int, stack: Seq<bool>, leaves: Seq<Option<bool>>) -> Option<bool>
    decreases ops.len() - i,
{
    if i < 0 || i >= ops.len() {
        if stack.len() == 1 { Some(stack[0]) } else { None }
    } else {
        match ops[i] {
            OpView::And => if stack.len() < 2 {
                None
            } else {
                run_ops(ops, i + 1, stack.drop_last().drop_last().push(stack[stack.len() - 2] && stack.last()), leaves)
            },
            OpView::Or => if stack.len() < 2 {
                None
            } else {
                run_ops(ops, i + 1, stack.drop_last().drop_last().push(stack[stack.len() - 2] || stack.last()), leaves)
            },
            OpView::Not => if stack.len() < 1 {
                None
            } else {
                run_ops(ops, i + 1, stack.drop_last().push(!stack.last()), leaves)
            },
            _ => match leaves[i] {
                None => None,
                Some(b) => run_ops(ops, i + 1, stack.push(b), leaves),
            },
        }
    }
}

/// What a field test gives on an event: `event`, `processId` and `layer`
/// compare the event's values; any other field does not match.
pub open spec fn event_field_test(ev: DriverEvent, field: Seq<char>, value: u64) -> bool {
    match spec_field_of_name(field) {
        Some(Field::Event) => ev.spec_event_code() == value,
        Some(Field::ProcessId) => ev.spec_process_id() == Some(value),
        Some(Field::Layer) => layer_value(ev.spec_layer()) == value,
        _ => false,
    }
}

/// The value each instruction pushes when run on an event: packet loads
/// stop the run.
pub open spec fn event_leaves(ops: Seq<OpView>, ev: DriverEvent) -> Seq<Option<bool>> {
    Seq::new(ops.len(), |k: int| match ops[k] {
        OpView::FieldTest { field, value } => Some(event_field_test(ev, field, value)),
        OpView::PacketLoad32 { .. } | OpView::PacketLoad16 { .. } | OpView::PacketLoad8 { .. } => None,
        _ => Some(false),
    })
}

/// The IP version nibble of a packet.
pub open spec fn ip_version(p: Seq<u8>) -> Option<u8> {
    if p.len() > 0 { Some(p[0] >> 4u8) } else { None }
}

/// The transport protocol number of an IPv4 or IPv6 packet.
pub open spec fn ip_protocol(p: Seq<u8>) -> Option<u8> {
    match ip_version(p) {
        Some(4) => if p.len() > 9 { Some(p[9]) } else { None },
        Some(6) => if p.len() > 6 { Some(p[6]) } else { None },
        _ => None,
    }
}

/// Big-endian byte, word and double word at an offset, when in bounds.
pub open spec fn load_u8(p: Seq<u8>, off: int) -> Option<u8> {
    if 0 <= off < p.len() { Some(p[off]) } else { None }
}

pub open spec fn load_u16(p: Seq<u8>, off: int) -> Option<u16> {
    if 0 <= off && off + 2 <= p.len() { Some(be16(p[off], p[off + 1]) as u16) } else { None }
}

pub open spec fn load_u32(p: Seq<u8>, off: int) -> Option<u32> {
    if 0 <= off && off + 4 <= p.len() { Some(be32(p[off], p[off + 1], p[off + 2], p[off + 3]) as u32) } else { None }
}

/// Source and destination address of an IPv4 packet.
pub open spec fn ipv4_addrs(p: Seq<u8>) -> Option<(u32, u32)> {
    if ip_version(p) == Some(4u8) && p.len() >= 20 {
        Some((load_u32(p, 12)->0, load_u32(p, 16)->0))
    } else {
        None
    }
}

/// Source and destination port of a TCP or UDP packet over IPv4 (after
/// the header whose length the IHL gives) or IPv6 (after the fixed
/// 40-byte header).
pub open spec fn transport_ports(p: Seq<u8>) -> Option<(u16, u16)> {
    match ip_version(p) {
        Some(4) => if p.len() <= 9 || !(p[9] == 6 || p[9] == 17) {
            None
        } else {
            let h = (p[0] & 0x0fu8) as int * 4;
            if h + 4 <= p.len() { Some((load_u16(p, h)->0, load_u16(p, h + 2)->0)) } else { None }
        },
        Some(6) => if p.len() <= 6 || !(p[6] == 6 || p[6] == 17) {
            None
        } else if 44 <= p.len() {
            Some((load_u16(p, 40)->0, load_u16(p, 42)->0))
        } else {
            None
        },
        _ => None,
    }
}

/// (local, remote) out of (source, destination): inbound traffic
/// (Network) is addressed to the local side, outbound (NetworkForward)
/// comes from it.
pub open spec fn local_remote<T>(layer: Layer, pair: Option<(T, T)>) -> Option<(T, T)> {
    match pair {
        Some((src, dst)) => if layer == Layer::Network {
            Some((dst, src))
        } else if layer == Layer::NetworkForward {
            Some((src, dst))
        } else {
            None
        },
        None => None,
    }
}

/// The netmask of a prefix length. A length above 32 (which `compile`
/// never writes) wraps the shift count as a release build computes it.
pub open spec fn match_mask(prefix: u8) -> u32 {
    if prefix == 0 { 0 } else { (0xffff_ffffu32 << ((32 - prefix % 32) % 32) as u32) as u32 }
}

/// Whether an address matches an encoded address test: the prefix length
/// in bits 32..40, the network in the low 32 bits.
pub open spec fn ipv4_matches(actual: u32, encoded: u64) -> bool {
    actual & match_mask(((encoded >> 32u64) & 0xffu64) as u8) == encoded as u32
}

/// What a field test gives on a packet seen on a network layer.
pub open spec fn network_field_test(layer: Layer, p: Seq<u8>, field: Seq<char>, value: u64) -> bool {
    match spec_field_of_name(field) {
        Some(Field::Tcp) => (if ip_protocol(p) == Some(6u8) { 1u64 } else { 0 }) == value,
        Some(Field::Udp) => (if ip_protocol(p) == Some(17u8) { 1u64 } else { 0 }) == value,
        Some(Field::Ipv4) => (if ip_version(p) == Some(4u8) { 1u64 } else { 0 }) == value,
        Some(Field::Ipv6) => (if ip_version(p) == Some(6u8) { 1u64 } else { 0 }) == value,
        Some(Field::LocalAddr) => local_remote(layer, ipv4_addrs(p)) matches Some((l, _)) && ipv4_matches(l, value),
        Some(Field::RemoteAddr) => local_remote(layer, ipv4_addrs(p)) matches Some((_, r)) && ipv4_matches(r, value),
        Some(Field::LocalPort) => local_remote(layer, transport_ports(p)) matches Some((l, _)) && l as u64 == value,
        Some(Field::RemotePort) => local_remote(layer, transport_ports(p)) matches Some((_, r)) && r as u64 == value,
        Some(Field::Inbound) => (if layer == Layer::Network { 1u64 } else { 0 }) == value,
        Some(Field::Outbound) => (if layer == Layer::NetworkForward { 1u64 } else { 0 }) == value,
        Some(Field::Layer) => layer_value(layer) == value,
        _ => false,
    }
}

/// The value each instruction pushes when run on a packet.
pub open spec fn network_leaves(ops: Seq<OpView>, layer: Layer, p: Seq<u8>) -> Seq<Option<bool>> {
    Seq::new(ops.len(), |k: int| match ops[k] {
        OpView::FieldTest { field, value } => Some(network_field_test(layer, p, field, value)),
        OpView::PacketLoad32 { offset, value } => Some(load_u32(p, offset as int) == Some(value)),
        OpView::PacketLoad16 { offset, value } => Some(load_u16(p, offset as int) == Some(value)),
        OpView::PacketLoad8 { offset, value } => Some(load_u8(p, offset as int) == Some(value)),
        _ => Some(false),
    })
}

/// A filter program checked for the layer it runs on.
#[derive(Debug, Clone, PartialEq, Eq)]
pub struct FilterEngine {
    layer: Layer,
    ir: FilterIr,
}

/// An engine as its layer and program.
pub struct EngineView {
    pub layer: Layer,
    pub ir: IrView,
}

impl View for FilterEngine {
    type V = EngineView;

    closed spec fn view(&self) -> EngineView {
        EngineView { layer: self.layer, ir: self.ir@ }
    }
}

/// What matching an event gives: no match for an event of another layer,
/// else the program's value, with no match where the run stops.
pub open spec fn engine_matches(e: EngineView, ev: DriverEvent) -> bool {
    ev.spec_layer() == e.layer && run_ops(e.ir.program, 0, Seq::empty(), event_leaves(e.ir.program, ev)) == Some(true)
}

/// What matching a packet gives: only a network engine on its own layer
/// can match, by the program's value.
pub open spec fn engine_matches_packet(e: EngineView, layer: Layer, p: Seq<u8>) -> bool {
    is_network_layer(e.layer) && layer == e.layer
        && run_ops(e.ir.program, 0, Seq::empty(), network_leaves(e.ir.program, layer, p)) == Some(true)
}

fn field_of_name(field: &str) -> (f: Option<Field>)
    ensures
        f == spec_field_of_name(field@),
{
    field_of_str(field)
}

fn subset_message(field: &str) -> (m: String)
    ensures
        m@ == subset_error(field@),
{
    let mut m = "unsupported field for FilterEngine runtime subset: ".to_owned();
    m.append(field);
    m
}

fn validate_supported_field(layer: Layer, field: &str, value: Option<u64>) -> (r: Result<(), FilterCompileError>)
    ensures
        match check_field(layer, field@, value) {
            Ok(()) => r is Ok,
            Err(m) => r matches Err(e) && e@ == m,
        },
{
    let f = field_of_name(field);
    let net = match layer {
        Layer::Network | Layer::NetworkForward => true,
        _ => false,
    };
    if net {
        match f {
            Some(Field::Event) | Some(Field::ProcessId) | None => {
                Err(FilterCompileError::new(subset_message(field)))
            },
            Some(Field::Layer) => match value {
                Some(v) => if v != layer_value_of(layer) {
                    Err(FilterCompileError::new(join3("unsupported field/value combination for layer ", layer_name_str(layer), ": layer")))
                } else {
                    Ok(())
                },
                None => Ok(()),
            },
            _ => Ok(()),
        }
    } else {
        match f {
            Some(Field::Event) => {
                let fits = match value {
                    Some(v) => match layer {
                        Layer::Socket => v == 2,
                        Layer::Flow => v == 4,
                        Layer::Reflect => v == 1 || v == 3,
                        _ => true,
                    },
                    None => true,
                };
                if !fits {
                    Err(FilterCompileError::new(join3("unsupported field/value combination for layer ", layer_name_str(layer), ": event")))
                } else {
                    Ok(())
                }
            },
            Some(Field::ProcessId) => match layer {
                Layer::Reflect => Err(FilterCompileError::new("unsupported field for layer Reflect: processId".to_owned())),
                _ => Ok(()),
            },
            Some(Field::Layer) => match value {
                Some(v) => if v != layer_value_of(layer) {
                    Err(FilterCompileError::new(join3("unsupported field/value combination for layer ", layer_name_str(layer), ": layer")))
                } else {
                    Ok(())
                },
                None => Ok(()),
            },
            _ => Err(FilterCompileError::new(subset_message(field))),
        }
    }
}

fn validate_program_shape(program: &Vec<OpCode>) -> (r: Result<(), FilterCompileError>)
    ensures
        match check_shape(ops_view(program@)) {
            Ok(()) => r is Ok,
            Err(m) => r matches Err(e) && e@ == m,
        },
{
    let ghost ops = ops_view(program@);
    if program.len() == 0 {
        return Err(FilterCompileError::new("filter program is empty".to_owned()));
    }
    let mut depth: usize = 0;
    let mut i: usize = 0;
    while i < program.len()
        invariant
            ops == ops_view(program@),
            i <= program@.len(),
            depth <= i,
            shape_from(ops, 0, 0) == shape_from(ops, i as int, depth as int),
        decreases program@.len() - i,
    {
        match &program[i] {
            OpCode::Not => {
                if depth < 1 {
                    return Err(FilterCompileError::new("invalid filter program".to_owned()));
                }
            },
            OpCode::And | OpCode::Or => {
                if depth < 2 {
                    return Err(FilterCompileError::new("invalid filter program".to_owned()));
                }
                depth = depth - 1;
            },
            _ => {
                depth = depth + 1;
            },
        }
        i = i + 1;
    }
    if depth != 1 {
        return Err(FilterCompileError::new("invalid filter program".to_owned()));
    }
    Ok(())
}

fn validate_ir(layer: Layer, ir: &FilterIr) -> (r: Result<(), FilterCompileError>)
    ensures
        match check_ir(layer, ir@) {
            Ok(()) => r is Ok,
            Err(m) => r matches Err(e) && e@ == m,
        },
{
    let selected = layer_mask(layer);
    let required = ir.required_layers.bits();
    if required != 0 && !ir.required_layers.contains(selected) {
        return Err(FilterCompileError::new(join3("incompatible filter for ", layer_name_str(layer), ": requires different layer")));
    }
    let net = match layer {
        Layer::Network | Layer::NetworkForward => true,
        _ => false,
    };
    if ir.needs_payload && !net {
        return Err(FilterCompileError::new("payload predicates are not supported by FilterEngine".to_owned()));
    }
    let ghost names = names_view(ir.referenced_fields@);
    let mut i: usize = 0;
    assert(names.take(0) =~= Seq::<Seq<char>>::empty());
    while i < ir.referenced_fields.len()
        invariant
            names == names_view(ir.referenced_fields@),
            i <= names.len(),
            check_fields(layer, names.take(i as int)) is Ok,
            ir@.required_layers == 0 || ir@.required_layers & layer_bit(layer) == layer_bit(layer),
            !(ir@.needs_payload && !is_network_layer(layer)),
        decreases names.len() - i,
    {
        let ghost next = names.take(i + 1);
        assert(next.drop_last() =~= names.take(i as int));
        match validate_supported_field(layer, ir.referenced_fields[i], None) {
            Ok(()) => {},
            Err(e) => {
                proof {
                    lemma_check_fields_prefix_err(layer, names, i + 1);
                }
                return Err(e);
            },
        }
        i = i + 1;
    }
    assert(names.take(i as int) =~= names);
    let ghost ops = ops_view(ir.program@);
    let mut k: usize = 0;
    assert(ops.take(0) =~= Seq::<OpView>::empty());
    while k < ir.program.len()
        invariant
            ops == ops_view(ir.program@),
            k <= ops.len(),
            check_ops(layer, ops.take(k as int)) is Ok,
            check_fields(layer, names_view(ir.referenced_fields@)) is Ok,
            ir@.required_layers == 0 || ir@.required_layers & layer_bit(layer) == layer_bit(layer),
            !(ir@.needs_payload && !is_network_layer(layer)),
            net == is_network_layer(layer),
        decreases ops.len() - k,
    {
        let ghost next = ops.take(k + 1);
        assert(next.drop_last() =~= ops.take(k as int));
        let step = match &ir.program[k] {
            OpCode::FieldTest { field, value } => validate_supported_field(layer, *field, Some(*value)),
            OpCode::PacketLoad32 { .. } | OpCode::PacketLoad16 { .. } | OpCode::PacketLoad8 { .. } => if !net {
                Err(FilterCompileError::new("unsupported opcode for FilterEngine runtime subset: packet load".to_owned()))
            } else {
                Ok(())
            },
            _ => Ok(()),
        };
        match step {
            Ok(()) => {},
            Err(e) => {
                proof {
                    lemma_check_ops_prefix_err(layer, ops, k + 1);
                }
                return Err(e);
            },
        }
        k = k + 1;
    }
    assert(ops.take(k as int) =~= ops);
    validate_program_shape(&ir.program)
}

proof fn lemma_check_fields_prefix_err(layer: Layer, names: Seq<Seq<char>>, n: int)
    requires
        0 < n <= names.len(),
        check_fields(layer, names.take(n)) is Err,
    ensures
        check_fields(layer, names) == check_fields(layer, names.take(n)),
    decreases names.len() - n,
{
    if n < names.len() {
        assert(names.take(n + 1).drop_last() =~= names.take(n));
        assert(check_fields(layer, names.take(n + 1)) == check_fields(layer, names.take(n)));
        lemma_check_fields_prefix_err(layer, names, n + 1);
    } else {
        assert(names.take(n) =~= names);
    }
}

proof fn lemma_check_ops_prefix_err(layer: Layer, ops: Seq<OpView>, n: int)
    requires
        0 < n <= ops.len(),
        check_ops(layer, ops.take(n)) is Err,
    ensures
        check_ops(layer, ops) == check_ops(layer, ops.take(n)),
    decreases ops.len() - n,
{
    if n < ops.len() {
        assert(ops.take(n + 1).drop_last() =~= ops.take(n));
        assert(check_ops(layer, ops.take(n + 1)) == check_ops(layer, ops.take(n)));
        lemma_check_ops_prefix_err(layer, ops, n + 1);
    } else {
        assert(ops.take(n) =~= ops);
    }
}


fn network_ip_version(p: &[u8]) -> (r: Option<u8>)
    ensures
        r == ip_version(p@),
{
    if p.len() > 0 { Some(p[0] >> 4u8) } else { None }
}

fn network_protocol(p: &[u8]) -> (r: Option<u8>)
    ensures
        r == ip_protocol(p@),
{
    match network_ip_version(p) {
        Some(4) => if p.len() > 9 { Some(p[9]) } else { None },
        Some(6) => if p.len() > 6 { Some(p[6]) } else { None },
        _ => None,
    }
}

fn load_packet_u8(p: &[u8], off: u16) -> (r: Option<u8>)
    ensures
        r == load_u8(p@, off as int),
{
    let o = off as usize;
    if o < p.len() { Some(p[o]) } else { None }
}

fn load_packet_u16(p: &[u8], off: usize) -> (r: Option<u16>)
    ensures
        r == load_u16(p@, off as int),
{
    if off < p.len() && p.len() - off >= 2 { Some(be16_of(p[off], p[off + 1])) } else { None }
}

fn load_packet_u32(p: &[u8], off: usize) -> (r: Option<u32>)
    ensures
        r == load_u32(p@, off as int),
{
    if off < p.len() && p.len() - off >= 4 { Some(be32_of(p[off], p[off + 1], p[off + 2], p[off + 3])) } else { None }
}

fn ipv4_addrs_of(p: &[u8]) -> (r: Option<(u32, u32)>)
    ensures
        r == ipv4_addrs(p@),
{
    if network_ip_version(p) == Some(4u8) && p.len() >= 20 {
        match (load_packet_u32(p, 12), load_packet_u32(p, 16)) {
            (Some(src), Some(dst)) => Some((src, dst)),
            _ => None,
        }
    } else {
        None
    }
}

fn transport_ports_of(p: &[u8]) -> (r: Option<(u16, u16)>)
    ensures
        r == transport_ports(p@),
{
    match network_ip_version(p) {
        Some(4) => {
            if p.len() <= 9 || !(p[9] == 6 || p[9] == 17) {
                return None;
            }
            let h = ((p[0] & 0x0fu8) as usize) * 4;
            match (load_packet_u16(p, h), load_packet_u16(p, h + 2)) {
                (Some(src), Some(dst)) => if h + 4 <= p.len() { Some((src, dst)) } else { None },
                _ => None,
            }
        },
        Some(6) => {
            if p.len() <= 6 || !(p[6] == 6 || p[6] == 17) {
                return None;
            }
            match (load_packet_u16(p, 40), load_packet_u16(p, 42)) {
                (Some(src), Some(dst)) => Some((src, dst)),
                _ => None,
            }
        },
        _ => None,
    }
}

fn local_remote_of<T: Copy>(layer: Layer, pair: Option<(T, T)>) -> (r: Option<(T, T)>)
    ensures
        r == local_remote(layer, pair),
{
    match pair {
        Some((src, dst)) => match layer {
            Layer::Network => Some((dst, src)),
            Layer::NetworkForward => Some((src, dst)),
            _ => None,
        },
        None => None,
    }
}

fn match_mask_of(prefix: u8) -> (m: u32)
    ensures
        m == match_mask(prefix),
{
    if prefix == 0 {
        0
    } else {
        let shift: u8 = (32 - prefix % 32) % 32;
        0xffff_ffffu32 << (shift as u32)
    }
}

fn ipv4_match(actual: u32, encoded: u64) -> (r: bool)
    ensures
        r == ipv4_matches(actual, encoded),
{
    let prefix = ((encoded >> 32u64) & 0xffu64) as u8;
    let expected = encoded as u32;
    (actual & match_mask_of(prefix)) == expected
}

fn flag(b: bool) -> (v: u64)
    ensures
        v == (if b { 1u64 } else { 0u64 }),
{
    if b { 1 } else { 0 }
}

fn eval_network_field_test(layer: Layer, p: &[u8], field: &str, value: u64) -> (r: bool)
    ensures
        r == network_field_test(layer, p@, field@, value),
{
    match field_of_name(field) {
        Some(Field::Tcp) => flag(network_protocol(p) == Some(6u8)) == value,
        Some(Field::Udp) => flag(network_protocol(p) == Some(17u8)) == value,
        Some(Field::Ipv4) => flag(network_ip_version(p) == Some(4u8)) == value,
        Some(Field::Ipv6) => flag(network_ip_version(p) == Some(6u8)) == value,
        Some(Field::LocalAddr) => match local_remote_of(layer, ipv4_addrs_of(p)) {
            Some((l, _)) => ipv4_match(l, value),
            None => false,
        },
        Some(Field::RemoteAddr) => match local_remote_of(layer, ipv4_addrs_of(p)) {
            Some((_, r)) => ipv4_match(r, value),
            None => false,
        },
        Some(Field::LocalPort) => match local_remote_of(layer, transport_ports_of(p)) {
            Some((l, _)) => l as u64 == value,
            None => false,
        },
        Some(Field::RemotePort) => match local_remote_of(layer, transport_ports_of(p)) {
            Some((_, r)) => r as u64 == value,
            None => false,
        },
        Some(Field::Inbound) => flag(layer == Layer::Network) == value,
        Some(Field::Outbound) => flag(layer == Layer::NetworkForward) == value,
        Some(Field::Layer) => layer_value_of(layer) == value,
        _ => false,
    }
}

fn eval_field_test(ev: DriverEvent, field: &str, value: u64) -> (r: bool)
    ensures
        r == event_field_test(ev, field@, value),
{
    match field_of_name(field) {
        Some(Field::Event) => ev.event_code() == value,
        Some(Field::ProcessId) => ev.process_id() == Some(value),
        Some(Field::Layer) => layer_value_of(ev.layer()) == value,
        _ => false,
    }
}

/// Pops two values and pushes their conjunction or disjunction; `false`
/// if there are not two.
fn combine(stack: &mut Vec<bool>, conj: bool) -> (ok: bool)
    ensures
        ok == (old(stack)@.len() >= 2),
        ok ==> final(stack)@ == old(stack)@.drop_last().drop_last().push(
            if conj {
                old(stack)@[old(stack)@.len() - 2] && old(stack)@.last()
            } else {
                old(stack)@[old(stack)@.len() - 2] || old(stack)@.last()
            },
        ),
{
    if stack.len() < 2 {
        return false;
    }
    let rhs = stack.pop().unwrap();
    let lhs = stack.pop().unwrap();
    stack.push(if conj { lhs && rhs } else { lhs || rhs });
    true
}

fn finish_stack(stack: &mut Vec<bool>) -> (r: Option<bool>)
    ensures
        r == (if old(stack)@.len() == 1 { Some(old(stack)@[0]) } else { None::<bool> }),
{
    match stack.pop() {
        None => None,
        Some(result) => if stack.len() == 0 { Some(result) } else { None },
    }
}

/// Runs a program on an event.
fn evaluate_program(program: &Vec<OpCode>, ev: DriverEvent) -> (r: Option<bool>)
    ensures
        r == run_ops(ops_view(program@), 0, Seq::empty(), event_leaves(ops_view(program@), ev)),
{
    let ghost ops = ops_view(program@);
    let ghost leaves = event_leaves(ops, ev);
    let mut stack: Vec<bool> = Vec::new();
    let mut i: usize = 0;
    while i < program.len()
        invariant
            ops == ops_view(program@),
            leaves == event_leaves(ops, ev),
            i <= ops.len(),
            run_ops(ops, 0, Seq::empty(), leaves) == run_ops(ops, i as int, stack@, leaves),
        decreases ops.len() - i,
    {
        match &program[i] {
            OpCode::FieldTest { field, value } => {
                stack.push(eval_field_test(ev, *field, *value));
            },
            OpCode::PacketLoad32 { .. } | OpCode::PacketLoad16 { .. } | OpCode::PacketLoad8 { .. } => {
                return None;
            },
            OpCode::And => {
                if !combine(&mut stack, true) {
                    return None;
                }
            },
            OpCode::Or => {
                if !combine(&mut stack, false) {
                    return None;
                }
            },
            OpCode::Not => {
                match stack.pop() {
                    Some(v) => stack.push(!v),
                    None => {
                        return None;
                    },
                }
            },
        }
        i = i + 1;
    }
    finish_stack(&mut stack)
}

/// Runs a program on a packet seen on a network layer.
fn evaluate_network_program(program: &Vec<OpCode>, layer: Layer, p: &[u8]) -> (r: Option<bool>)
    ensures
        r == run_ops(ops_view(program@), 0, Seq::empty(), network_leaves(ops_view(program@), layer, p@)),
{
    let ghost ops = ops_view(program@);
    let ghost leaves = network_leaves(ops, layer, p@);
    let mut stack: Vec<bool> = Vec::new();
    let mut i: usize = 0;
    while i < program.len()
        invariant
            ops == ops_view(program@),
            leaves == network_leaves(ops, layer, p@),
            i <= ops.len(),
            run_ops(ops, 0, Seq::empty(), leaves) == run_ops(ops, i as int, stack@, leaves),
        decreases ops.len() - i,
    {
        match &program[i] {
            OpCode::FieldTest { field, value } => {
                stack.push(eval_network_field_test(layer, p, *field, *value));
            },
            OpCode::PacketLoad32 { offset, value } => {
                stack.push(load_packet_u32(p, *offset as usize) == Some(*value));
            },
            OpCode::PacketLoad16 { offset, value } => {
                stack.push(load_packet_u16(p, *offset as usize) == Some(*value));
            },
            OpCode::PacketLoad8 { offset, value } => {
                stack.push(load_packet_u8(p, *offset) == Some(*value));
            },
            OpCode::And => {
                if !combine(&mut stack, true) {
                    return None;
                }
            },
            OpCode::Or => {
                if !combine(&mut stack, false) {
                    return None;
                }
            },
            OpCode::Not => {
                match stack.pop() {
                    Some(v) => stack.push(!v),
                    None => {
                        return None;
                    },
                }
            },
        }
        i = i + 1;
    }
    finish_stack(&mut stack)
}


/// What loading a `WDIR` program for a layer gives: the decoded program
/// if it decodes and suits the layer, else the first error's text.
pub open spec fn spec_engine_from_bytes(layer: Layer, bytes: Seq<u8>) -> Result<EngineView, Seq<char>> {
    match spec_decode_ir(bytes) {
        Err(e) => Err(decode_error_text(e)),
        Ok(ir) => match check_ir(layer, ir) {
            Err(m) => Err(m),
            Ok(()) => Ok(EngineView { layer, ir }),
        },
    }
}

/// What compiling filter text for a layer gives: the compiled program,
/// encoded and loaded again.
pub open spec fn spec_engine_compile(layer: Layer, text: Seq<char>) -> Result<EngineView, Seq<char>> {
    match spec_compile(text) {
        Err(e) => Err(compile_error_text(e)),
        Ok(ir) => spec_engine_from_bytes(layer, spec_ir_bytes(ir)),
    }
}

/// The outcome of loading an engine agrees with the spec outcome `o`.
pub open spec fn engine_loaded(r: Result<FilterEngine, FilterCompileError>, o: Result<EngineView, Seq<char>>) -> bool {
    match o {
        Ok(v) => r matches Ok(e) && e@ == v,
        Err(m) => r matches Err(e) && e@ == m,
    }
}

impl FilterEngine {
    /// Compiles filter text, encodes it and loads it for `layer`, as a
    /// program that arrived from user mode would be.
    pub fn compile(layer: Layer, input: &str) -> (r: Result<FilterEngine, FilterCompileError>)
        ensures
            engine_loaded(r, spec_engine_compile(layer, input@)),
    {
        let ir = match compile(input) {
            Ok(ir) => ir,
            Err(e) => {
                return Err(FilterCompileError::new(e.to_string()));
            },
        };
        let bytes = encode_ir(&ir);
        Self::from_ir_bytes(layer, bytes.as_slice())
    }

    /// Decodes a `WDIR` program and loads it for `layer`.
    pub fn from_ir_bytes(layer: Layer, input: &[u8]) -> (r: Result<FilterEngine, FilterCompileError>)
        ensures
            engine_loaded(r, spec_engine_from_bytes(layer, input@)),
    {
        let ir = match decode_ir(input) {
            Ok(ir) => ir,
            Err(e) => {
                return Err(FilterCompileError::new(e.to_string()));
            },
        };
        Self::from_ir(layer, ir)
    }

    fn from_ir(layer: Layer, ir: FilterIr) -> (r: Result<FilterEngine, FilterCompileError>)
        ensures
            match check_ir(layer, ir@) {
                Ok(()) => r matches Ok(e) && e@ == (EngineView { layer, ir: ir@ }),
                Err(m) => r matches Err(e) && e@ == m,
            },
    {
        match validate_ir(layer, &ir) {
            Ok(()) => Ok(FilterEngine { layer, ir }),
            Err(e) => Err(e),
        }
    }

    /// Whether an event matches: it must be of the engine's layer, and the
    /// program must run to `true` on it.
    pub fn matches(&self, event: &DriverEvent) -> (r: bool)
        ensures
            r == engine_matches(self@, *event),
    {
        if event.layer() != self.layer {
            return false;
        }
        match evaluate_program(&self.ir.program, *event) {
            Some(b) => b,
            None => false,
        }
    }

    /// Whether a packet seen on `layer` matches: the engine must be for a
    /// network layer and for `layer`, and the program must run to `true`.
    pub fn matches_network_packet(&self, layer: Layer, packet: &[u8]) -> (r: bool)
        ensures
            r == engine_matches_packet(self@, layer, packet@),
    {
        let net = match self.layer {
            Layer::Network | Layer::NetworkForward => true,
            _ => false,
        };
        if !net || layer != self.layer {
            return false;
        }
        match evaluate_network_program(&self.ir.program, layer, packet) {
            Some(b) => b,
            None => false,
        }
    }
}

proof fn lemma_run_defined(ops: Seq<OpView>, i: int, stack: Seq<bool>, leaves: Seq<Option<bool>>)
    requires
        0 <= i <= ops.len(),
        shape_from(ops, i, stack.len() as int) == Some(1int),
        forall|k: int| i <= k < ops.len() && is_leaf(ops[k]) ==> (#[trigger] leaves[k]) is Some,
    ensures
        run_ops(ops, i, stack, leaves) is Some,
    decreases ops.len() - i,
{
    if i < ops.len() {
        match ops[i] {
            OpView::And => {
                lemma_run_defined(ops, i + 1, stack.drop_last().drop_last().push(stack[stack.len() - 2] && stack.last()), leaves);
            },
            OpView::Or => {
                lemma_run_defined(ops, i + 1, stack.drop_last().drop_last().push(stack[stack.len() - 2] || stack.last()), leaves);
            },
            OpView::Not => {
                lemma_run_defined(ops, i + 1, stack.drop_last().push(!stack.last()), leaves);
            },
            _ => {
                assert(is_leaf(ops[i]));
                assert(leaves[i] is Some);
                lemma_run_defined(ops, i + 1, stack.push(leaves[i]->0), leaves);
            },
        }
    }
}

proof fn lemma_check_ops_no_loads(layer: Layer, ops: Seq<OpView>)
    requires
        check_ops(layer, ops) is Ok,
        !is_network_layer(layer),
    ensures
        forall|k: int| 0 <= k < ops.len() ==> !(#[trigger] ops[k] is PacketLoad32) && !(ops[k] is PacketLoad16) && !(ops[k] is PacketLoad8),
    decreases ops.len(),
{
    if ops.len() > 0 {
        lemma_check_ops_no_loads(layer, ops.drop_last());
        assert forall|k: int| 0 <= k < ops.len() implies !(#[trigger] ops[k] is PacketLoad32) && !(ops[k] is PacketLoad16) && !(ops[k] is PacketLoad8) by {
            if k < ops.len() - 1 {
                assert(ops[k] == ops.drop_last()[k]);
            }
        }
    }
}

/// A program that loads for a layer always runs to a value there: on a
/// network layer for every packet, on any other layer for every event, so
/// a match is decided by the program and never by a failed run.
pub proof fn lemma_loaded_program_runs(layer: Layer, ir: IrView, ev: DriverEvent, packet: Seq<u8>)
    requires
        check_ir(layer, ir) is Ok,
    ensures
        is_network_layer(layer) ==> run_ops(ir.program, 0, Seq::empty(), network_leaves(ir.program, layer, packet)) is Some,
        !is_network_layer(layer) ==> run_ops(ir.program, 0, Seq::empty(), event_leaves(ir.program, ev)) is Some,
{
    let ops = ir.program;
    assert(shape_from(ops, 0, Seq::<bool>::empty().len() as int) == Some(1int));
    if is_network_layer(layer) {
        lemma_run_defined(ops, 0, Seq::empty(), network_leaves(ops, layer, packet));
    } else {
        lemma_check_ops_no_loads(layer, ops);
        let leaves = event_leaves(ops, ev);
        assert forall|k: int| 0 <= k < ops.len() && is_leaf(ops[k]) implies (#[trigger] leaves[k]) is Some by {
            assert(!(ops[k] is PacketLoad32) && !(ops[k] is PacketLoad16) && !(ops[k] is PacketLoad8));
        }
        lemma_run_defined(ops, 0, Seq::empty(), leaves);
    }
}


/// Compiling filter text for a layer loads exactly the compiled program
/// when it suits the layer, and refuses it with the check's error
/// otherwise (for programs of at most 4096 instructions, the most the
/// binary format carries).
pub proof fn lemma_compiled_engine(layer: Layer, text: Seq<char>)
    requires
        spec_compile(text) matches Ok(ir) && ir.program.len() <= 4096,
    ensures
        spec_compile(text) matches Ok(ir) && spec_engine_compile(layer, text) == (match check_ir(layer, ir) {
            Ok(()) => Ok(EngineView { layer, ir }),
            Err(m) => Err::<EngineView, Seq<char>>(m),
        }),
{
    lemma_compiled_filter_roundtrip(text);
    let ir = spec_compile(text)->Ok_0;
    let d = spec_decode_ir(spec_ir_bytes(ir))->Ok_0;
    assert(d == ir);
}

/// Ports are read from the bytes that carry them, and a network layer
/// decides which side is local: for a TCP or UDP packet, the source port
/// is the big-endian word right after the IP header (at 40 for IPv6, at
/// the IHL's length for IPv4) and the destination port the word after
/// it; on the Network layer (inbound) `localPort` is the destination port
/// and `remotePort` the source port, on NetworkForward (outbound) the other
/// way round.
pub proof fn lemma_ports_come_from_transport_header(p: Seq<u8>, value: u64)
    ensures
        p.len() >= 44 && p[0] >> 4u8 == 6 && (p[6] == 6 || p[6] == 17) ==> {
            let src = p[40] as u64 * 256 + p[41] as u64;
            let dst = p[42] as u64 * 256 + p[43] as u64;
            &&& network_field_test(Layer::Network, p, field_name(Field::LocalPort), value) == (value == dst)
            &&& network_field_test(Layer::Network, p, field_name(Field::RemotePort), value) == (value == src)
            &&& network_field_test(Layer::NetworkForward, p, field_name(Field::LocalPort), value) == (value == src)
            &&& network_field_test(Layer::NetworkForward, p, field_name(Field::RemotePort), value) == (value == dst)
        },
        p.len() > 9 && p[0] >> 4u8 == 4 && (p[9] == 6 || p[9] == 17) && (p[0] & 0x0fu8) as int * 4 + 4 <= p.len() ==> {
            let h = (p[0] & 0x0fu8) as int * 4;
            let src = p[h] as u64 * 256 + p[h + 1] as u64;
            let dst = p[h + 2] as u64 * 256 + p[h + 3] as u64;
            &&& network_field_test(Layer::Network, p, field_name(Field::LocalPort), value) == (value == dst)
            &&& network_field_test(Layer::Network, p, field_name(Field::RemotePort), value) == (value == src)
            &&& network_field_test(Layer::NetworkForward, p, field_name(Field::LocalPort), value) == (value == src)
            &&& network_field_test(Layer::NetworkForward, p, field_name(Field::RemotePort), value) == (value == dst)
        },
{
    lemma_field_encoding(Field::LocalPort);
    lemma_field_encoding(Field::RemotePort);
}

/// The name an event goes by in an `event == ...` test, in lower case.
pub open spec fn event_name(e: DriverEvent) -> Seq<char> {
    match e {
        DriverEvent::ReflectOpen { .. } => "open"@,
        DriverEvent::SocketConnect { .. } => "connect"@,
        DriverEvent::ReflectClose { .. } => "close"@,
        DriverEvent::FlowEstablished { .. } => "established"@,
        DriverEvent::NetworkPacket { .. } => Seq::empty(),
    }
}

/// The filter compiler and the driver agree on events: for every event
/// kind and any spelling `v` of its name, the value the lowering writes
/// for `event == v` is the event's code, a positive `event == v` test
/// requires exactly the layer that emits the event (so such a filter
/// loads on that layer), the test holds for the event, and it fails for
/// every other kind of event on the same layer.
pub proof fn lemma_event_tests_name_their_events(e: DriverEvent, other: DriverEvent, v: Seq<char>, s: Findings)
    requires
        !(e is NetworkPacket),
        lower_chars(v) == event_name(e),
    ensures
        field_value(Field::Event, ValueView::Symbol(v)) == Ok::<u64, Seq<char>>(e.spec_event_code()),
        visit_event(ValueView::Symbol(v), s, true) == Ok::<Findings, Seq<char>>(s.with_layers(layer_bit(e.spec_layer()))),
        event_field_test(e, field_name(Field::Event), e.spec_event_code()),
        !(other is NetworkPacket) && other.spec_layer() == e.spec_layer() && event_name(other) != event_name(e)
            ==> !event_field_test(other, field_name(Field::Event), e.spec_event_code()),
{
    reveal_strlit("open");
    reveal_strlit("connect");
    reveal_strlit("close");
    reveal_strlit("established");
    lemma_field_encoding(Field::Event);
    assert("open"@.len() == 4 && "connect"@.len() == 7 && "close"@.len() == 5 && "established"@.len() == 11);
    assert("open"@ != "connect"@);
    assert("open"@ != "close"@);
    assert("connect"@ != "close"@);
    assert("open"@ != "established"@);
    assert("connect"@ != "established"@);
    assert("close"@ != "established"@);
}

} // verus!
