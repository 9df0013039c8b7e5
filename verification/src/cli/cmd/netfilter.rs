//! `netfilter`: check a network filter against the device, watch the
//! packets it passes, or take one packet and send it back.
use vstd::prelude::*;
use vstd::string::StringExecFns;
use crate::cli::cmd::budget::{capture_timestamp, is_timestamp, TimeoutBudget};
use crate::cli::cmd::common::{
    decimal_text, field_views, hex4, hex4_string, join_lines, joined, push_stream_fields, push_stream_json,
    render_stream_json, render_summary, stream_fields, stream_json, stream_result_json, string_views, summary_fields,
};
use crate::cli::cmd::netdump::{
    lemma_packet_summary_failure, packet_summary_of, summarize_packet_event, timestamp_view, PacketSummaryView,
    MAX_RECV_BYTES,
};
use crate::cli::error::{CliError, CliErrorView};
use crate::cli::output::{json_escape, push_json_escaped};
use crate::cli::runtime::{is_runtime_failure, map_runtime_error, runtime_cli_error};
use crate::proto::{encode_runtime_send_request, spec_runtime_send_bytes, Layer};
use crate::text::{decimal, join3, push_decimal};
use crate::user::device::{default_device_path, DeviceAvailability};
use crate::user::error::{user_error_text, UserErrorView};
use crate::user::frame::{lemma_token_packet_fits, spec_decode_event, EventView, RecvEvent};
use crate::user::handle::{spec_network_config, HandleConfig};
use crate::user::runtime::{
    io_failure_view, RuntimeError, RuntimeErrorView, RuntimeOpenConfig, RuntimeSession, RuntimeTransport,
};
use crate::wire::{be16, be16_of, extend_bytes};

verus! {

/// What `netfilter` does with the filter.
#[derive(Debug, Clone, Copy, PartialEq, Eq, Structural)]
pub enum NetfilterMode {
    Validate,
    Observe,
    Reinject,
}

/// The arguments of `netfilter`.
#[derive(Debug)]
pub struct NetfilterCmd {
    pub filter: String,
    pub mode: NetfilterMode,
    pub count: u64,
    pub follow: bool,
    pub json: bool,
    pub verbose: bool,
    pub timeout_ms: u64,
}

/// What `netfilter` reports of one observed packet.
#[derive(Debug)]
pub struct NetworkSummary {
    pub ttl: u8,
    pub checksum: u16,
    pub packet_len: usize,
    pub timestamp: String,
}

impl View for NetworkSummary {
    type V = PacketSummaryView;

    open spec fn view(&self) -> PacketSummaryView {
        PacketSummaryView {
            ttl: self.ttl,
            checksum: self.checksum,
            packet_len: self.packet_len as nat,
            timestamp: self.timestamp@,
        }
    }
}

/// The packet `netfilter` takes to send back.
#[derive(Debug)]
pub struct ReinjectPacket {
    pub layer: Layer,
    pub reinjection_token: u64,
    pub ttl: u8,
    pub checksum: u16,
    pub packet_len: usize,
    pub timestamp: String,
    pub packet_bytes: Vec<u8>,
}

/// A packet to send back, as plain values.
pub struct ReinjectView {
    pub layer: Layer,
    pub reinjection_token: u64,
    pub ttl: u8,
    pub checksum: u16,
    pub packet_len: nat,
    pub timestamp: Seq<char>,
    pub packet_bytes: Seq<u8>,
}

impl View for ReinjectPacket {
    type V = ReinjectView;

    open spec fn view(&self) -> ReinjectView {
        ReinjectView {
            layer: self.layer,
            reinjection_token: self.reinjection_token,
            ttl: self.ttl,
            checksum: self.checksum,
            packet_len: self.packet_len as nat,
            timestamp: self.timestamp@,
            packet_bytes: self.packet_bytes@,
        }
    }
}

/// A refused argument of `netfilter`.
pub open spec fn netfilter_argument_error(message: Seq<char>, suggestion: Seq<char>) -> CliErrorView {
    CliErrorView { command: "netfilter"@, code: 2, category: "argument_error"@, message, suggestion }
}

/// The verdict on count, follow and mode: at least one packet; validate
/// and reinject take exactly one without `--follow`; observing more than
/// one needs `--follow`.
pub open spec fn netfilter_count_verdict(count: u64, follow: bool, mode: NetfilterMode) -> Result<(), CliErrorView> {
    if count == 0 {
        Err(netfilter_argument_error("count must be greater than 0"@, "set --count to 1 or more"@))
    } else if (mode == NetfilterMode::Validate || mode == NetfilterMode::Reinject) && (count != 1 || follow) {
        Err(netfilter_argument_error(
            "validate and reinject modes do not accept streaming count/follow semantics"@,
            "omit --count/--follow outside observe mode"@,
        ))
    } else if mode == NetfilterMode::Observe && !follow && count > 1 {
        Err(netfilter_argument_error(
            "count greater than 1 requires --follow in observe mode"@,
            "add --follow or use --count 1"@,
        ))
    } else {
        Ok(())
    }
}

/// Checks count and follow against the mode.
pub fn validate_count(count: u64, follow: bool, mode: NetfilterMode) -> (r: Result<(), CliError>)
    ensures
        match netfilter_count_verdict(count, follow, mode) {
            Ok(()) => r is Ok,
            Err(e) => r matches Err(x) && x@ == e,
        },
{
    if count == 0 {
        return Err(CliError::argument_error("netfilter", "count must be greater than 0", "set --count to 1 or more"));
    }
    let single = match mode {
        NetfilterMode::Validate | NetfilterMode::Reinject => true,
        NetfilterMode::Observe => false,
    };
    if single && (count != 1 || follow) {
        return Err(CliError::argument_error(
            "netfilter",
            "validate and reinject modes do not accept streaming count/follow semantics",
            "omit --count/--follow outside observe mode",
        ));
    }
    if !single && !follow && count > 1 {
        return Err(CliError::argument_error(
            "netfilter",
            "count greater than 1 requires --follow in observe mode",
            "add --follow or use --count 1",
        ));
    }
    Ok(())
}

/// The verdict on the arguments, before the device is reached; on success
/// the encoded filter.
pub open spec fn netfilter_arguments(cmd: NetfilterCmd) -> Result<Seq<u8>, CliErrorView> {
    match netfilter_count_verdict(cmd.count, cmd.follow, cmd.mode) {
        Err(e) => Err(e),
        Ok(()) => match spec_network_config(cmd.filter@) {
            Err(e) => Err(netfilter_argument_error(
                "invalid network filter: "@ + user_error_text(e),
                "use a valid network-layer filter expression"@,
            )),
            Ok(ir) => if cmd.timeout_ms == 0 {
                Err(runtime_cli_error("netfilter"@, io_failure_view("timeout-ms must be greater than 0"@)))
            } else {
                Ok(ir)
            },
        },
    }
}

/// The name a layer is printed with.
pub open spec fn runtime_layer_text(layer: Layer) -> Seq<char> {
    match layer {
        Layer::Network => "NETWORK"@,
        Layer::NetworkForward => "NETWORK_FORWARD"@,
        Layer::Flow => "FLOW"@,
        Layer::Socket => "SOCKET"@,
        Layer::Reflect => "REFLECT"@,
    }
}

/// The name a layer is printed with.
pub fn runtime_layer_name(layer: Layer) -> (s: &'static str)
    ensures
        s@ == runtime_layer_text(layer),
{
    match layer {
        Layer::Network => "NETWORK",
        Layer::NetworkForward => "NETWORK_FORWARD",
        Layer::Flow => "FLOW",
        Layer::Socket => "SOCKET",
        Layer::Reflect => "REFLECT",
    }
}

/// The fields a single-packet mode adds in verbose mode.
pub open spec fn timeout_fields(verbose: bool, device_path: Seq<char>, timeout_ms: u64) -> Seq<(Seq<char>, Seq<char>)> {
    if verbose {
        seq![("device_path"@, device_path), ("timeout_ms"@, decimal(timeout_ms as nat))]
    } else {
        Seq::empty()
    }
}

/// The JSON members a single-packet mode adds in verbose mode.
pub open spec fn timeout_json(verbose: bool, device_path: Seq<char>, timeout_ms: u64) -> Seq<char> {
    if verbose {
        ",\"device_path\":\""@ + json_escape(device_path) + "\",\"timeout_ms\":"@ + decimal(timeout_ms as nat)
    } else {
        Seq::empty()
    }
}

fn push_timeout_fields<'a>(fields: &mut Vec<(&'a str, String)>, verbose: bool, device_path: &str, timeout_ms: u64)
    ensures
        field_views(final(fields)@) == field_views(old(fields)@) + timeout_fields(verbose, device_path@, timeout_ms),
{
    if verbose {
        fields.push(("device_path", device_path.to_owned()));
        fields.push(("timeout_ms", decimal_text(timeout_ms)));
    }
    assert(field_views(fields@) =~= field_views(old(fields)@) + timeout_fields(verbose, device_path@, timeout_ms));
}

fn push_timeout_json(line: &mut String, verbose: bool, device_path: &str, timeout_ms: u64)
    ensures
        final(line)@ == old(line)@ + timeout_json(verbose, device_path@, timeout_ms),
{
    if verbose {
        line.append(",\"device_path\":\"");
        push_json_escaped(line, device_path);
        line.append("\",\"timeout_ms\":");
        push_decimal(line, timeout_ms);
    }
    assert(line@ =~= old(line)@ + timeout_json(verbose, device_path@, timeout_ms));
}

/// The result of validate mode.
pub open spec fn validate_output(
    filter: Seq<char>,
    ir_bytes: nat,
    verbose: bool,
    device_path: Seq<char>,
    timeout_ms: u64,
    json: bool,
) -> Seq<char> {
    if json {
        "{\"command\":\"netfilter\",\"status\":\"ok\",\"mode\":\"validate\",\"filter\":\""@ + json_escape(filter)
            + "\",\"layer\":\"NETWORK\",\"ir_bytes\":"@ + decimal(ir_bytes) + timeout_json(verbose, device_path, timeout_ms)
            + "}"@
    } else {
        "NETFILTER OK"@ + summary_fields(
            seq![("mode"@, "validate"@), ("layer"@, "NETWORK"@), ("filter"@, filter), ("ir_bytes"@, decimal(ir_bytes))]
                + timeout_fields(verbose, device_path, timeout_ms),
        )
    }
}

/// Renders the result of validate mode.
pub fn render_validate(filter: &str, ir_bytes: usize, verbose: bool, device_path: &str, timeout_ms: u64, json: bool) -> (s: String)
    ensures
        s@ == validate_output(filter@, ir_bytes as nat, verbose, device_path@, timeout_ms, json),
{
    if json {
        let mut line = "{\"command\":\"netfilter\",\"status\":\"ok\",\"mode\":\"validate\",\"filter\":\"".to_owned();
        push_json_escaped(&mut line, filter);
        line.append("\",\"layer\":\"NETWORK\",\"ir_bytes\":");
        push_decimal(&mut line, ir_bytes as u64);
        push_timeout_json(&mut line, verbose, device_path, timeout_ms);
        line.append("}");
        return line;
    }
    let mut fields: Vec<(&str, String)> = Vec::new();
    fields.push(("mode", "validate".to_owned()));
    fields.push(("layer", "NETWORK".to_owned()));
    fields.push(("filter", filter.to_owned()));
    fields.push(("ir_bytes", decimal_text(ir_bytes as u64)));
    let ghost head = field_views(fields@);
    push_timeout_fields(&mut fields, verbose, device_path, timeout_ms);
    assert(head =~= seq![
        ("mode"@, "validate"@),
        ("layer"@, "NETWORK"@),
        ("filter"@, filter@),
        ("ir_bytes"@, decimal(ir_bytes as nat)),
    ]);
    render_summary("NETFILTER OK", fields.as_slice())
}

/// The summary fields of one observed packet.
pub open spec fn observe_fields(
    s: PacketSummaryView,
    filter: Seq<char>,
    verbose: bool,
    device_path: Seq<char>,
    count: u64,
    follow: bool,
) -> Seq<(Seq<char>, Seq<char>)> {
    seq![
        ("mode"@, "observe"@),
        ("filter"@, filter),
        ("layer"@, "NETWORK"@),
        ("ttl"@, decimal(s.ttl as nat)),
        ("checksum"@, hex4(s.checksum)),
        ("packet_len"@, decimal(s.packet_len)),
        ("timestamp"@, s.timestamp),
    ] + stream_fields(verbose, device_path, count, follow)
}

/// The text line of one observed packet.
pub open spec fn observe_line(s: PacketSummaryView, filter: Seq<char>, verbose: bool, device_path: Seq<char>, count: u64, follow: bool) -> Seq<char> {
    "NETFILTER OK"@ + summary_fields(observe_fields(s, filter, verbose, device_path, count, follow))
}

/// The JSON members of one observed packet (its object without the
/// opening brace).
pub open spec fn observe_members(s: PacketSummaryView, filter: Seq<char>, verbose: bool, device_path: Seq<char>, count: u64, follow: bool) -> Seq<char> {
    "\"mode\":\"observe\",\"filter\":\""@ + json_escape(filter) + "\",\"layer\":\"NETWORK\",\"ttl\":"@ + decimal(s.ttl as nat)
        + ",\"checksum\":\""@ + hex4(s.checksum) + "\",\"packet_len\":"@ + decimal(s.packet_len) + ",\"timestamp\":\""@
        + json_escape(s.timestamp) + "\""@ + stream_json(verbose, device_path, count, follow) + "}"@
}

impl NetworkSummary {
    /// The packet as a summary line.
    pub fn render_text(&self, filter: &str, verbose: bool, device_path: &str, count: u64, follow: bool) -> (line: String)
        ensures
            line@ == observe_line(self@, filter@, verbose, device_path@, count, follow),
    {
        let mut fields: Vec<(&str, String)> = Vec::new();
        fields.push(("mode", "observe".to_owned()));
        fields.push(("filter", filter.to_owned()));
        fields.push(("layer", "NETWORK".to_owned()));
        fields.push(("ttl", decimal_text(self.ttl as u64)));
        fields.push(("checksum", hex4_string(self.checksum)));
        fields.push(("packet_len", decimal_text(self.packet_len as u64)));
        fields.push(("timestamp", self.timestamp.clone()));
        let ghost head = field_views(fields@);
        push_stream_fields(&mut fields, verbose, device_path, count, follow);
        assert(head =~= observe_fields(self@, filter@, verbose, device_path@, count, follow).take(7));
        assert(field_views(fields@) =~= observe_fields(self@, filter@, verbose, device_path@, count, follow));
        render_summary("NETFILTER OK", fields.as_slice())
    }

    /// The packet's JSON members, without the opening brace.
    pub fn render_json_members(&self, filter: &str, verbose: bool, device_path: &str, count: u64, follow: bool) -> (m: String)
        ensures
            m@ == observe_members(self@, filter@, verbose, device_path@, count, follow),
    {
        let mut line = "\"mode\":\"observe\",\"filter\":\"".to_owned();
        push_json_escaped(&mut line, filter);
        line.append("\",\"layer\":\"NETWORK\",\"ttl\":");
        push_decimal(&mut line, self.ttl as u64);
        line.append(",\"checksum\":\"");
        let h = hex4_string(self.checksum);
        line.append(h.as_str());
        line.append("\",\"packet_len\":");
        push_decimal(&mut line, self.packet_len as u64);
        line.append(",\"timestamp\":\"");
        push_json_escaped(&mut line, self.timestamp.as_str());
        line.append("\"");
        push_stream_json(&mut line, verbose, device_path, count, follow);
        line.append("}");
        line
    }
}

/// The views of the summaries.
pub open spec fn network_views(events: Seq<NetworkSummary>) -> Seq<PacketSummaryView> {
    Seq::new(events.len(), |i: int| events[i]@)
}

/// The result of observe mode.
pub open spec fn observe_output(
    filter: Seq<char>,
    events: Seq<PacketSummaryView>,
    verbose: bool,
    device_path: Seq<char>,
    count: u64,
    follow: bool,
    json: bool,
) -> Seq<char> {
    if json {
        stream_result_json(
            "{\"command\":\"netfilter\",\"status\":\"ok\","@,
            Seq::new(events.len(), |i: int| observe_members(events[i], filter, verbose, device_path, count, follow)),
        )
    } else {
        joined(Seq::new(events.len(), |i: int| observe_line(events[i], filter, verbose, device_path, count, follow)), seq!['\n'])
    }
}

/// Renders the result of observe mode.
pub fn render_observe(
    filter: &str,
    events: &Vec<NetworkSummary>,
    verbose: bool,
    device_path: &str,
    count: u64,
    follow: bool,
    json: bool,
) -> (s: String)
    ensures
        s@ == observe_output(filter@, network_views(events@), verbose, device_path@, count, follow, json),
{
    let mut parts: Vec<String> = Vec::new();
    let mut i: usize = 0;
    while i < events.len()
        invariant
            i <= events@.len(),
            parts@.len() == i,
            forall|k: int| 0 <= k < i ==> (#[trigger] parts@[k])@ == (if json {
                observe_members(events@[k]@, filter@, verbose, device_path@, count, follow)
            } else {
                observe_line(events@[k]@, filter@, verbose, device_path@, count, follow)
            }),
        decreases events@.len() - i,
    {
        if json {
            parts.push(events[i].render_json_members(filter, verbose, device_path, count, follow));
        } else {
            parts.push(events[i].render_text(filter, verbose, device_path, count, follow));
        }
        i = i + 1;
    }
    if json {
        let s = render_stream_json("{\"command\":\"netfilter\",\"status\":\"ok\",", &parts);
        assert(string_views(parts@) =~= Seq::new(
            events@.len(),
            |k: int| observe_members(network_views(events@)[k], filter@, verbose, device_path@, count, follow),
        ));
        s
    } else {
        let s = join_lines(&parts);
        assert(string_views(parts@) =~= Seq::new(
            events@.len(),
            |k: int| observe_line(network_views(events@)[k], filter@, verbose, device_path@, count, follow),
        ));
        s
    }
}

/// The fields of the sent-back packet.
pub open spec fn reinject_fields(p: ReinjectView, filter: Seq<char>, verbose: bool, device_path: Seq<char>, timeout_ms: u64) -> Seq<
    (Seq<char>, Seq<char>),
> {
    seq![
        ("mode"@, "reinject"@),
        ("filter"@, filter),
        ("layer"@, runtime_layer_text(p.layer)),
        ("reinjection_token"@, decimal(p.reinjection_token as nat)),
        ("ttl"@, decimal(p.ttl as nat)),
        ("checksum"@, hex4(p.checksum)),
        ("packet_len"@, decimal(p.packet_len)),
        ("timestamp"@, p.timestamp),
    ] + timeout_fields(verbose, device_path, timeout_ms)
}

/// The result of reinject mode.
pub open spec fn reinject_output(
    filter: Seq<char>,
    p: ReinjectView,
    verbose: bool,
    device_path: Seq<char>,
    timeout_ms: u64,
    json: bool,
) -> Seq<char> {
    if json {
        "{\"command\":\"netfilter\",\"status\":\"ok\",\"mode\":\"reinject\",\"filter\":\""@ + json_escape(filter)
            + "\",\"layer\":\""@ + runtime_layer_text(p.layer) + "\",\"reinjection_token\":"@
            + decimal(p.reinjection_token as nat) + ",\"ttl\":"@ + decimal(p.ttl as nat) + ",\"checksum\":\""@
            + hex4(p.checksum) + "\",\"packet_len\":"@ + decimal(p.packet_len) + ",\"timestamp\":\""@
            + json_escape(p.timestamp) + "\""@ + timeout_json(verbose, device_path, timeout_ms) + "}"@
    } else {
        "NETFILTER OK"@ + summary_fields(reinject_fields(p, filter, verbose, device_path, timeout_ms))
    }
}

/// Renders the result of reinject mode.
pub fn render_reinject(
    filter: &str,
    packet: &ReinjectPacket,
    verbose: bool,
    device_path: &str,
    timeout_ms: u64,
    json: bool,
) -> (s: String)
    ensures
        s@ == reinject_output(filter@, packet@, verbose, device_path@, timeout_ms, json),
{
    if json {
        let mut line = "{\"command\":\"netfilter\",\"status\":\"ok\",\"mode\":\"reinject\",\"filter\":\"".to_owned();
        push_json_escaped(&mut line, filter);
        line.append("\",\"layer\":\"");
        line.append(runtime_layer_name(packet.layer));
        line.append("\",\"reinjection_token\":");
        push_decimal(&mut line, packet.reinjection_token);
        line.append(",\"ttl\":");
        push_decimal(&mut line, packet.ttl as u64);
        line.append(",\"checksum\":\"");
        let h = hex4_string(packet.checksum);
        line.append(h.as_str());
        line.append("\",\"packet_len\":");
        push_decimal(&mut line, packet.packet_len as u64);
        line.append(",\"timestamp\":\"");
        push_json_escaped(&mut line, packet.timestamp.as_str());
        line.append("\"");
        push_timeout_json(&mut line, verbose, device_path, timeout_ms);
        line.append("}");
        return line;
    }
    let mut fields: Vec<(&str, String)> = Vec::new();
    fields.push(("mode", "reinject".to_owned()));
    fields.push(("filter", filter.to_owned()));
    fields.push(("layer", runtime_layer_name(packet.layer).to_owned()));
    fields.push(("reinjection_token", decimal_text(packet.reinjection_token)));
    fields.push(("ttl", decimal_text(packet.ttl as u64)));
    fields.push(("checksum", hex4_string(packet.checksum)));
    fields.push(("packet_len", decimal_text(packet.packet_len as u64)));
    fields.push(("timestamp", packet.timestamp.clone()));
    let ghost head = field_views(fields@);
    push_timeout_fields(&mut fields, verbose, device_path, timeout_ms);
    assert(head =~= reinject_fields(packet@, filter@, verbose, device_path@, timeout_ms).take(8));
    assert(field_views(fields@) =~= reinject_fields(packet@, filter@, verbose, device_path@, timeout_ms));
    render_summary("NETFILTER OK", fields.as_slice())
}

/// The summary `netfilter` reports of an observed buffer.
pub open spec fn network_summary_of(
    device_path: Seq<char>,
    raw: Seq<u8>,
    timestamp: Result<Seq<char>, RuntimeErrorView>,
) -> Result<PacketSummaryView, CliErrorView> {
    packet_summary_of("netfilter"@, "failed to decode runtime network frame from "@, device_path, raw, timestamp)
}

/// Summarizes an observed buffer with the given capture timestamp.
pub fn summarize_network(device_path: &str, raw: &[u8], timestamp: Result<String, RuntimeError>) -> (r: Result<
    NetworkSummary,
    CliError,
>)
    ensures
        match network_summary_of(device_path@, raw@, timestamp_view(timestamp)) {
            Ok(v) => r matches Ok(s) && s@ == v,
            Err(e) => r matches Err(x) && x@ == e,
        },
{
    match summarize_packet_event("netfilter", "failed to decode runtime network frame from ", device_path, raw, timestamp) {
        Ok(s) => Ok(NetworkSummary { ttl: s.ttl, checksum: s.checksum, packet_len: s.packet_len, timestamp: s.timestamp }),
        Err(e) => Err(e),
    }
}

/// Summarizes an observed buffer, stamped with the time of capture.
pub fn decode_network_summary(device_path: &str, raw: &[u8]) -> (r: Result<NetworkSummary, CliError>)
    ensures
        exists|t: Result<Seq<char>, RuntimeErrorView>|
            {
                &&& (t matches Ok(s) ==> is_timestamp(s))
                &&& match #[trigger] network_summary_of(device_path@, raw@, t) {
                    Ok(v) => r matches Ok(s) && s@ == v,
                    Err(e) => r matches Err(x) && x@ == e,
                }
            },
        r matches Err(x) ==> is_runtime_failure("netfilter"@, x@),
{
    let timestamp = capture_timestamp();
    let ghost t = timestamp_view(timestamp);
    proof {
        lemma_packet_summary_failure("netfilter"@, "failed to decode runtime network frame from "@, device_path@, raw@, t);
    }
    summarize_network(device_path, raw, timestamp)
}

/// The error `netfilter` reports for an I/O failure with `message`.
pub open spec fn netfilter_io(message: Seq<char>) -> CliErrorView {
    runtime_cli_error("netfilter"@, io_failure_view(message))
}

/// The packet `netfilter` takes from a received buffer to send back: a
/// network packet of at least 12 bytes that carries a reinjection token.
pub open spec fn reinject_packet_of(
    device_path: Seq<char>,
    raw: Seq<u8>,
    timestamp: Result<Seq<char>, RuntimeErrorView>,
) -> Result<ReinjectView, CliErrorView> {
    match spec_decode_event(raw) {
        Err(e) => Err(netfilter_io("failed to decode runtime network frame from "@ + device_path + ": "@ + user_error_text(e))),
        Ok(EventView::Network(p)) => if p.bytes.len() < 12 {
            Err(netfilter_io("decoded runtime packet from "@ + device_path + " was shorter than the ipv4 checksum offset"@))
        } else {
            match p.token {
                None => Err(netfilter_io(
                    "decoded runtime packet from "@ + device_path + " did not include a reinjection token"@,
                )),
                Some(token) => match timestamp {
                    Err(t) => Err(runtime_cli_error("netfilter"@, t)),
                    Ok(ts) => Ok(ReinjectView {
                        layer: p.layer,
                        reinjection_token: token,
                        ttl: p.bytes[8],
                        checksum: be16(p.bytes[10], p.bytes[11]) as u16,
                        packet_len: p.bytes.len(),
                        timestamp: ts,
                        packet_bytes: p.bytes,
                    }),
                },
            }
        },
        Ok(_) => Err(netfilter_io("decoded runtime event from "@ + device_path + " did not contain a network packet"@)),
    }
}

/// Takes the packet to send back out of a received buffer, with the given
/// capture timestamp.
pub fn summarize_reinject(device_path: &str, raw: &[u8], timestamp: Result<String, RuntimeError>) -> (r: Result<
    ReinjectPacket,
    CliError,
>)
    ensures
        match reinject_packet_of(device_path@, raw@, timestamp_view(timestamp)) {
            Ok(v) => r matches Ok(s) && s@ == v,
            Err(e) => r matches Err(x) && x@ == e,
        },
        r matches Ok(s) ==> s.packet_bytes@.len() <= u32::MAX,
{
    proof {
        lemma_token_packet_fits(raw@);
    }
    let event = match RecvEvent::decode(raw) {
        Ok(e) => e,
        Err(err) => {
            let mut m = join3("failed to decode runtime network frame from ", device_path, ": ");
            let text = err.to_string();
            m.append(text.as_str());
            return Err(map_runtime_error("netfilter", RuntimeError::io_failure(m)));
        },
    };
    let packet = match event.packet() {
        Some(p) => p,
        None => {
            let m = join3("decoded runtime event from ", device_path, " did not contain a network packet");
            return Err(map_runtime_error("netfilter", RuntimeError::io_failure(m)));
        },
    };
    let bytes = packet.bytes();
    if bytes.len() < 12 {
        let m = join3("decoded runtime packet from ", device_path, " was shorter than the ipv4 checksum offset");
        return Err(map_runtime_error("netfilter", RuntimeError::io_failure(m)));
    }
    let reinjection_token = match packet.reinjection_token() {
        Some(t) => t,
        None => {
            let m = join3("decoded runtime packet from ", device_path, " did not include a reinjection token");
            return Err(map_runtime_error("netfilter", RuntimeError::io_failure(m)));
        },
    };
    let ts = match timestamp {
        Ok(t) => t,
        Err(e) => return Err(map_runtime_error("netfilter", e)),
    };
    let mut packet_bytes: Vec<u8> = Vec::new();
    extend_bytes(&mut packet_bytes, bytes);
    assert(packet_bytes@ =~= bytes@);
    Ok(ReinjectPacket {
        layer: packet.layer(),
        reinjection_token,
        ttl: bytes[8],
        checksum: be16_of(bytes[10], bytes[11]),
        packet_len: bytes.len(),
        timestamp: ts,
        packet_bytes,
    })
}

/// Takes the packet to send back, stamped with the time of capture.
pub fn decode_network_reinject_packet(device_path: &str, raw: &[u8]) -> (r: Result<ReinjectPacket, CliError>)
    ensures
        exists|t: Result<Seq<char>, RuntimeErrorView>|
            {
                &&& (t matches Ok(s) ==> is_timestamp(s))
                &&& match #[trigger] reinject_packet_of(device_path@, raw@, t) {
                    Ok(v) => r matches Ok(s) && s@ == v,
                    Err(e) => r matches Err(x) && x@ == e,
                }
            },
        r matches Ok(s) ==> s.packet_bytes@.len() <= u32::MAX,
{
    let timestamp = capture_timestamp();
    let ghost t = timestamp_view(timestamp);
    summarize_reinject(device_path, raw, timestamp)
}

/// Every way a received buffer can fail to give a packet to send back is
/// a runtime failure of `netfilter`.
pub proof fn lemma_reinject_failure(device_path: Seq<char>, raw: Seq<u8>, timestamp: Result<Seq<char>, RuntimeErrorView>)
    ensures
        reinject_packet_of(device_path, raw, timestamp) matches Err(e) ==> is_runtime_failure("netfilter"@, e),
{
    match spec_decode_event(raw) {
        Err(e) => {
            let m = "failed to decode runtime network frame from "@ + device_path + ": "@ + user_error_text(e);
            assert(netfilter_io(m) == runtime_cli_error("netfilter"@, io_failure_view(m)));
        },
        Ok(EventView::Network(p)) => {
            let m1 = "decoded runtime packet from "@ + device_path + " was shorter than the ipv4 checksum offset"@;
            assert(netfilter_io(m1) == runtime_cli_error("netfilter"@, io_failure_view(m1)));
            let m2 = "decoded runtime packet from "@ + device_path + " did not include a reinjection token"@;
            assert(netfilter_io(m2) == runtime_cli_error("netfilter"@, io_failure_view(m2)));
            if let Err(t) = timestamp {
                assert(runtime_cli_error("netfilter"@, t) == runtime_cli_error("netfilter"@, t));
            }
        },
        Ok(_) => {
            let m = "decoded runtime event from "@ + device_path + " did not contain a network packet"@;
            assert(netfilter_io(m) == runtime_cli_error("netfilter"@, io_failure_view(m)));
        },
    }
}

/// Whether `p` is the packet a received buffer `raw` gives to send back,
/// stamped with some capture timestamp.
pub open spec fn reinjected_from(device_path: Seq<char>, raw: Seq<u8>, p: ReinjectView) -> bool {
    exists|ts: Seq<char>| is_timestamp(ts) && reinject_packet_of(device_path, raw, Ok(ts)) == Ok::<ReinjectView, CliErrorView>(p)
}

/// What reinject mode sends for a received buffer: the packet it carries,
/// stamped with the time of capture, and the send request that hands that
/// packet back with its layer and reinjection token.
pub fn reinject_request_for(device_path: &str, raw: &[u8]) -> (r: Result<(ReinjectPacket, Vec<u8>), CliError>)
    ensures
        r matches Ok((p, request)) ==> reinjected_from(device_path@, raw@, p@)
            && request@ == spec_runtime_send_bytes(p.layer, p.reinjection_token, p.packet_bytes@),
        r matches Err(x) ==> is_runtime_failure("netfilter"@, x@),
{
    let timestamp = capture_timestamp();
    let ghost t = timestamp_view(timestamp);
    let packet = match summarize_reinject(device_path, raw, timestamp) {
        Ok(p) => p,
        Err(e) => {
            proof {
                lemma_reinject_failure(device_path@, raw@, t);
            }
            return Err(e);
        },
    };
    assert(reinjected_from(device_path@, raw@, packet@)) by {
        if let Ok(ts) = t {
            assert(reinject_packet_of(device_path@, raw@, Ok(ts)) == Ok::<ReinjectView, CliErrorView>(packet@));
        }
    }
    let request = encode_runtime_send_request(packet.layer, packet.reinjection_token, packet.packet_bytes.as_slice());
    Ok((packet, request))
}

/// Whether `v` is what observe mode reports of some received buffer,
/// stamped with some capture time.
pub open spec fn observed(device_path: Seq<char>, v: PacketSummaryView) -> bool {
    exists|raw: Seq<u8>, t: Result<Seq<char>, RuntimeErrorView>|
        #[trigger] network_summary_of(device_path, raw, t) == Ok::<PacketSummaryView, CliErrorView>(v)
}

/// Whether `line` is what `netfilter` prints in its mode after a run in
/// which the device reported `device_path`: for validate, the size of the
/// encoded filter `ir`; for observe, `count` packet summaries; for
/// reinject, the packet sent back.
pub open spec fn netfilter_output(cmd: NetfilterCmd, ir: Seq<u8>, line: Seq<char>) -> bool {
    match cmd.mode {
        NetfilterMode::Validate => exists|device_path: Seq<char>|
            line == #[trigger] validate_output(cmd.filter@, ir.len(), cmd.verbose, device_path, cmd.timeout_ms, cmd.json),
        NetfilterMode::Observe => exists|events: Seq<PacketSummaryView>, device_path: Seq<char>|
            events.len() == cmd.count && line == #[trigger] observe_output(
                cmd.filter@,
                events,
                cmd.verbose,
                device_path,
                cmd.count,
                cmd.follow,
                cmd.json,
            ) && forall|i: int| 0 <= i < events.len() ==> #[trigger] observed(device_path, events[i]),
        NetfilterMode::Reinject => exists|p: ReinjectView, raw: Seq<u8>, device_path: Seq<char>|
            #[trigger] reinjected_from(device_path, raw, p)
                && line == #[trigger] reinject_output(cmd.filter@, p, cmd.verbose, device_path, cmd.timeout_ms, cmd.json),
    }
}

impl NetfilterCmd {
    /// Runs `netfilter` against `transport`: checks the arguments and
    /// compiles the filter for a network handle, probes the device (a
    /// missing one is reported) and opens a handle with the encoded
    /// filter. Validate mode reports the filter; observe mode opens a
    /// session and summarizes `count` packets; reinject mode takes one
    /// packet and sends it back through the session with its layer and
    /// token. Every step runs under the time budget. The transport decides
    /// whether the steps succeed; a refused argument is reported before it
    /// is reached.
    #[verifier::loop_isolation(false)]
    pub fn execute_with_transport<T: RuntimeTransport>(self, transport: T) -> (r: Result<String, CliError>)
        ensures
            netfilter_arguments(self) matches Err(e) ==> (r matches Err(x) && x@ == e),
            netfilter_arguments(self) is Ok ==> (r matches Err(x) ==> is_runtime_failure("netfilter"@, x@)),
            r matches Ok(line) ==> (netfilter_arguments(self) matches Ok(ir) && netfilter_output(self, ir, line@)),
    {
        let NetfilterCmd { filter, mode, count, follow, json, verbose, timeout_ms } = self;
        match validate_count(count, follow, mode) {
            Ok(()) => {},
            Err(e) => return Err(e),
        }
        let cfg = match HandleConfig::network(filter.as_str()) {
            Ok(c) => c,
            Err(err) => {
                let mut m = "invalid network filter: ".to_owned();
                let text = err.to_string();
                m.append(text.as_str());
                return Err(CliError::argument_error("netfilter", m.as_str(), "use a valid network-layer filter expression"));
            },
        };
        let budget = match TimeoutBudget::new("netfilter", timeout_ms) {
            Ok(b) => b,
            Err(e) => return Err(map_runtime_error("netfilter", e)),
        };
        let mut ir: Vec<u8> = Vec::new();
        extend_bytes(&mut ir, cfg.filter_ir());
        let ir_len = ir.len();
        let open_config = RuntimeOpenConfig::network(ir);

        if let Err(e) = budget.check("probe") {
            return Err(map_runtime_error("netfilter", e));
        }
        let availability = match transport.probe() {
            Ok(a) => a,
            Err(e) => return Err(map_runtime_error("netfilter", e)),
        };
        if let Err(e) = budget.check("probe") {
            return Err(map_runtime_error("netfilter", e));
        }
        if let DeviceAvailability::Missing = availability {
            return Err(map_runtime_error("netfilter", RuntimeError::device_unavailable(default_device_path())));
        }

        if let Err(e) = budget.check("open") {
            return Err(map_runtime_error("netfilter", e));
        }
        let probe = match transport.open(&open_config) {
            Ok(p) => p,
            Err(e) => return Err(map_runtime_error("netfilter", e)),
        };
        if let Err(e) = budget.check("open") {
            return Err(map_runtime_error("netfilter", e));
        }
        let device_path = probe.device_path.as_str();

        match mode {
            NetfilterMode::Validate => {
                let line = render_validate(filter.as_str(), ir_len, verbose, device_path, timeout_ms, json);
                Ok(line)
            },
            NetfilterMode::Observe => {
                if let Err(e) = budget.check("open_session") {
                    return Err(map_runtime_error("netfilter", e));
                }
                let mut session = match transport.open_session(&open_config) {
                    Ok(s) => s,
                    Err(e) => return Err(map_runtime_error("netfilter", e)),
                };
                if let Err(e) = budget.check("open_session") {
                    return Err(map_runtime_error("netfilter", e));
                }
                let mut events: Vec<NetworkSummary> = Vec::new();
                let mut n: u64 = 0;
                while n < count
                    invariant
                        n <= count,
                        events@.len() == n,
                        forall|i: int| 0 <= i < events@.len() ==> #[trigger] observed(device_path@, events@[i]@),
                                decreases count - n,
                {
                    if let Err(e) = budget.check("recv") {
                        return Err(map_runtime_error("netfilter", e));
                    }
                    let raw = match session.recv_one(MAX_RECV_BYTES) {
                        Ok(raw) => raw,
                        Err(e) => return Err(map_runtime_error("netfilter", e)),
                    };
                    if let Err(e) = budget.check("recv") {
                        return Err(map_runtime_error("netfilter", e));
                    }
                    let summary = match decode_network_summary(device_path, raw.as_slice()) {
                        Ok(s) => s,
                        Err(e) => return Err(e),
                    };
                    assert(observed(device_path@, summary@));
                    events.push(summary);
                    n = n + 1;
                }
                if let Err(e) = budget.check("close_session") {
                    return Err(map_runtime_error("netfilter", e));
                }
                match session.close() {
                    Ok(()) => {},
                    Err(e) => return Err(map_runtime_error("netfilter", e)),
                }
                if let Err(e) = budget.check("close_session") {
                    return Err(map_runtime_error("netfilter", e));
                }
                let line = render_observe(filter.as_str(), &events, verbose, device_path, count, follow, json);
                assert(network_views(events@).len() == count);
                Ok(line)
            },
            NetfilterMode::Reinject => {
                if let Err(e) = budget.check("open_session") {
                    return Err(map_runtime_error("netfilter", e));
                }
                let mut session = match transport.open_session(&open_config) {
                    Ok(s) => s,
                    Err(e) => return Err(map_runtime_error("netfilter", e)),
                };
                if let Err(e) = budget.check("open_session") {
                    return Err(map_runtime_error("netfilter", e));
                }
                if let Err(e) = budget.check("recv") {
                    return Err(map_runtime_error("netfilter", e));
                }
                let raw = match session.recv_one(MAX_RECV_BYTES) {
                    Ok(raw) => raw,
                    Err(e) => return Err(map_runtime_error("netfilter", e)),
                };
                if let Err(e) = budget.check("recv") {
                    return Err(map_runtime_error("netfilter", e));
                }
                let (packet, request) = match reinject_request_for(device_path, raw.as_slice()) {
                    Ok(pr) => pr,
                    Err(e) => return Err(e),
                };
                if let Err(e) = budget.check("send") {
                    return Err(map_runtime_error("netfilter", e));
                }
                match session.send_one(request.as_slice()) {
                    Ok(()) => {},
                    Err(e) => return Err(map_runtime_error("netfilter", e)),
                }
                if let Err(e) = budget.check("send") {
                    return Err(map_runtime_error("netfilter", e));
                }
                if let Err(e) = budget.check("close_session") {
                    return Err(map_runtime_error("netfilter", e));
                }
                match session.close() {
                    Ok(()) => {},
                    Err(e) => return Err(map_runtime_error("netfilter", e)),
                }
                if let Err(e) = budget.check("close_session") {
                    return Err(map_runtime_error("netfilter", e));
                }
                let line = render_reinject(filter.as_str(), &packet, verbose, device_path, timeout_ms, json);
                Ok(line)
            },
        }
    }
}

} // verus!
