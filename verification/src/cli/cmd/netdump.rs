//! `netdump`: capture network packets and print one summary per packet.
use vstd::prelude::*;
use vstd::string::StringExecFns;
use crate::cli::cmd::budget::{capture_timestamp, is_timestamp, TimeoutBudget};
use crate::cli::cmd::common::{
    bool_text, char_is_whitespace, field_views, hex4, hex4_string, join_lines, push_stream_fields, push_stream_json,
    render_stream_json, render_summary, stream_fields, stream_json, stream_result_json, string_views, summary_fields,
    joined, white_space, decimal_text,
};
use crate::cli::error::{CliError, CliErrorView};
use crate::cli::output::{json_escape, push_json_escaped};
use crate::cli::runtime::{is_runtime_failure, map_runtime_error, runtime_cli_error};
use crate::text::{chars_of, decimal, join3, push_decimal};
use crate::user::device::{default_device_path, DeviceAvailability};
use crate::user::error::user_error_text;
use crate::user::frame::{spec_decode_event, EventView, RecvEvent};
use crate::user::runtime::{
    device_unavailable_view, io_failure_view, RuntimeError, RuntimeErrorView, RuntimeOpenConfig, RuntimeSession,
    RuntimeTransport,
};
use crate::wire::{be16, be16_of};

verus! {

/// The most bytes one receive asks for.
pub const MAX_RECV_BYTES: usize = 65_535;

/// The arguments of `netdump`.
#[derive(Debug)]
pub struct NetdumpCmd {
    pub filter: Option<String>,
    pub count: u64,
    pub follow: bool,
    pub json: bool,
    pub verbose: bool,
    pub timeout_ms: u64,
}

/// What `netdump` reports of one packet.
#[derive(Debug)]
pub struct NetdumpEventSummary {
    pub ttl: u8,
    pub checksum: u16,
    pub packet_len: usize,
    pub timestamp: String,
}

/// A packet summary as plain values.
pub struct PacketSummaryView {
    pub ttl: u8,
    pub checksum: u16,
    pub packet_len: nat,
    pub timestamp: Seq<char>,
}

impl View for NetdumpEventSummary {
    type V = PacketSummaryView;

    open spec fn view(&self) -> PacketSummaryView {
        PacketSummaryView {
            ttl: self.ttl,
            checksum: self.checksum,
            packet_len: self.packet_len as nat,
            timestamp: self.timestamp@,
        }
    }
}

/// Whether every character of `s` is white space.
pub open spec fn all_white_space(s: Seq<char>) -> bool {
    forall|i: int| 0 <= i < s.len() ==> white_space(#[trigger] s[i])
}

/// The verdict on the filter argument: runtime capture takes none, so
/// anything but white space is refused.
pub open spec fn netdump_filter_verdict(filter: Option<Seq<char>>) -> Result<(), CliErrorView> {
    match filter {
        Some(f) => if all_white_space(f) {
            Ok(())
        } else {
            Err(CliErrorView {
                command: "netdump"@,
                code: 2,
                category: "argument_error"@,
                message: "runtime netdump filtering is not implemented yet"@,
                suggestion: "omit --filter for runtime capture"@,
            })
        },
        None => Ok(()),
    }
}

/// The verdict on count and follow: at least one packet, and more than
/// one only with `--follow`.
pub open spec fn netdump_count_verdict(count: u64, follow: bool) -> Result<(), CliErrorView> {
    if count == 0 {
        Err(CliErrorView {
            command: "netdump"@,
            code: 2,
            category: "argument_error"@,
            message: "count must be greater than 0"@,
            suggestion: "set --count to 1 or more"@,
        })
    } else if !follow && count > 1 {
        Err(CliErrorView {
            command: "netdump"@,
            code: 2,
            category: "argument_error"@,
            message: "count greater than 1 requires --follow"@,
            suggestion: "add --follow or use --count 1"@,
        })
    } else {
        Ok(())
    }
}

/// Refuses a filter that is not blank.
#[verifier::loop_isolation(false)]
pub fn validate_filter(filter: Option<&str>) -> (r: Result<(), CliError>)
    ensures
        match netdump_filter_verdict(match filter { Some(f) => Some(f@), None => None }) {
            Ok(()) => r is Ok,
            Err(e) => r matches Err(x) && x@ == e,
        },
{
    match filter {
        None => Ok(()),
        Some(f) => {
            let cs = chars_of(f);
            let mut i: usize = 0;
            while i < cs.len()
                invariant
                    cs@ == f@,
                    i <= cs@.len(),
                    forall|k: int| 0 <= k < i ==> white_space(#[trigger] f@[k]),
                decreases cs@.len() - i,
            {
                if !char_is_whitespace(cs[i]) {
                    assert(!white_space(f@[i as int]));
                    return Err(CliError::argument_error(
                        "netdump",
                        "runtime netdump filtering is not implemented yet",
                        "omit --filter for runtime capture",
                    ));
                }
                i = i + 1;
            }
            Ok(())
        },
    }
}

/// Checks count and follow.
pub fn validate_count(count: u64, follow: bool) -> (r: Result<(), CliError>)
    ensures
        match netdump_count_verdict(count, follow) {
            Ok(()) => r is Ok,
            Err(e) => r matches Err(x) && x@ == e,
        },
{
    if count == 0 {
        return Err(CliError::argument_error("netdump", "count must be greater than 0", "set --count to 1 or more"));
    }
    if !follow && count > 1 {
        return Err(CliError::argument_error(
            "netdump",
            "count greater than 1 requires --follow",
            "add --follow or use --count 1",
        ));
    }
    Ok(())
}

/// A timestamp reading as plain values.
pub open spec fn timestamp_view(t: Result<String, RuntimeError>) -> Result<Seq<char>, RuntimeErrorView> {
    match t {
        Ok(s) => Ok(s@),
        Err(e) => Err(e@),
    }
}

/// The summary a command reports of a received buffer, given the capture
/// timestamp: it must decode to a network packet of at least 12 bytes,
/// whose TTL, checksum and length are reported. A buffer that does not
/// decode is reported with `decode_failure`, the device path and the
/// decoding error.
pub open spec fn packet_summary_of(
    command: Seq<char>,
    decode_failure: Seq<char>,
    device_path: Seq<char>,
    raw: Seq<u8>,
    timestamp: Result<Seq<char>, RuntimeErrorView>,
) -> Result<PacketSummaryView, CliErrorView> {
    match spec_decode_event(raw) {
        Err(e) => Err(runtime_cli_error(command, io_failure_view(decode_failure + device_path + ": "@ + user_error_text(e)))),
        Ok(EventView::Network(p)) => if p.bytes.len() < 12 {
            Err(runtime_cli_error(command, io_failure_view(
                "decoded runtime packet from "@ + device_path + " was shorter than the ipv4 checksum offset"@,
            )))
        } else {
            match timestamp {
                Err(t) => Err(runtime_cli_error(command, t)),
                Ok(ts) => Ok(PacketSummaryView {
                    ttl: p.bytes[8],
                    checksum: be16(p.bytes[10], p.bytes[11]) as u16,
                    packet_len: p.bytes.len(),
                    timestamp: ts,
                }),
            }
        },
        Ok(_) => Err(runtime_cli_error(command, io_failure_view(
            "decoded runtime event from "@ + device_path + " did not contain a network packet"@,
        ))),
    }
}

/// Every way a received buffer can fail to give a packet summary is a
/// runtime failure of the command.
pub proof fn lemma_packet_summary_failure(
    command: Seq<char>,
    decode_failure: Seq<char>,
    device_path: Seq<char>,
    raw: Seq<u8>,
    timestamp: Result<Seq<char>, RuntimeErrorView>,
)
    ensures
        packet_summary_of(command, decode_failure, device_path, raw, timestamp) matches Err(e)
            ==> is_runtime_failure(command, e),
{
    match spec_decode_event(raw) {
        Err(e) => {
            let m = decode_failure + device_path + ": "@ + user_error_text(e);
            assert(runtime_cli_error(command, io_failure_view(m)) == runtime_cli_error(command, io_failure_view(m)));
        },
        Ok(EventView::Network(p)) => {
            let m = "decoded runtime packet from "@ + device_path + " was shorter than the ipv4 checksum offset"@;
            assert(runtime_cli_error(command, io_failure_view(m)) == runtime_cli_error(command, io_failure_view(m)));
            if let Err(t) = timestamp {
                assert(runtime_cli_error(command, t) == runtime_cli_error(command, t));
            }
        },
        Ok(_) => {
            let m = "decoded runtime event from "@ + device_path + " did not contain a network packet"@;
            assert(runtime_cli_error(command, io_failure_view(m)) == runtime_cli_error(command, io_failure_view(m)));
        },
    }
}

/// The summary `netdump` reports of a received buffer.
pub open spec fn netdump_summary_of(
    device_path: Seq<char>,
    raw: Seq<u8>,
    timestamp: Result<Seq<char>, RuntimeErrorView>,
) -> Result<PacketSummaryView, CliErrorView> {
    packet_summary_of("netdump"@, "failed to decode runtime frame from "@, device_path, raw, timestamp)
}

/// Whether `v` is what `netdump` reports of some received buffer, stamped
/// with some capture time.
pub open spec fn captured(device_path: Seq<char>, v: PacketSummaryView) -> bool {
    exists|raw: Seq<u8>, t: Result<Seq<char>, RuntimeErrorView>|
        #[trigger] netdump_summary_of(device_path, raw, t) == Ok::<PacketSummaryView, CliErrorView>(v)
}

/// Summarizes a received buffer for `command` with the given capture
/// timestamp.
pub fn summarize_packet_event(
    command: &'static str,
    decode_failure: &str,
    device_path: &str,
    raw: &[u8],
    timestamp: Result<String, RuntimeError>,
) -> (r: Result<NetdumpEventSummary, CliError>)
    ensures
        match packet_summary_of(command@, decode_failure@, device_path@, raw@, timestamp_view(timestamp)) {
            Ok(v) => r matches Ok(s) && s@ == v,
            Err(e) => r matches Err(x) && x@ == e,
        },
{
    let event = match RecvEvent::decode(raw) {
        Ok(e) => e,
        Err(err) => {
            let mut m = join3(decode_failure, device_path, ": ");
            let text = err.to_string();
            m.append(text.as_str());
            return Err(map_runtime_error(command, RuntimeError::io_failure(m)));
        },
    };
    let packet = match event.packet() {
        Some(p) => p,
        None => {
            let m = join3("decoded runtime event from ", device_path, " did not contain a network packet");
            return Err(map_runtime_error(command, RuntimeError::io_failure(m)));
        },
    };
    let bytes = packet.bytes();
    if bytes.len() < 12 {
        let m = join3("decoded runtime packet from ", device_path, " was shorter than the ipv4 checksum offset");
        return Err(map_runtime_error(command, RuntimeError::io_failure(m)));
    }
    let ts = match timestamp {
        Ok(t) => t,
        Err(e) => return Err(map_runtime_error(command, e)),
    };
    Ok(NetdumpEventSummary {
        ttl: bytes[8],
        checksum: be16_of(bytes[10], bytes[11]),
        packet_len: bytes.len(),
        timestamp: ts,
    })
}

/// Summarizes a received buffer with the given capture timestamp.
pub fn summarize_event(device_path: &str, raw: &[u8], timestamp: Result<String, RuntimeError>) -> (r: Result<
    NetdumpEventSummary,
    CliError,
>)
    ensures
        match netdump_summary_of(device_path@, raw@, timestamp_view(timestamp)) {
            Ok(v) => r matches Ok(s) && s@ == v,
            Err(e) => r matches Err(x) && x@ == e,
        },
{
    summarize_packet_event("netdump", "failed to decode runtime frame from ", device_path, raw, timestamp)
}

/// Summarizes a received buffer, stamped with the time of capture.
pub fn decode_event_summary(device_path: &str, raw: &[u8]) -> (r: Result<NetdumpEventSummary, CliError>)
    ensures
        exists|t: Result<Seq<char>, RuntimeErrorView>|
            {
                &&& (t matches Ok(s) ==> is_timestamp(s))
                &&& match #[trigger] netdump_summary_of(device_path@, raw@, t) {
                    Ok(v) => r matches Ok(s) && s@ == v,
                    Err(e) => r matches Err(x) && x@ == e,
                }
            },
        r matches Err(x) ==> is_runtime_failure("netdump"@, x@),
{
    let timestamp = capture_timestamp();
    let ghost t = timestamp_view(timestamp);
    let r = summarize_event(device_path, raw, timestamp);
    assert(t matches Ok(s) ==> is_timestamp(s));
    proof {
        lemma_packet_summary_failure("netdump"@, "failed to decode runtime frame from "@, device_path@, raw@, t);
    }
    r
}

/// The summary fields of one packet.
pub open spec fn netdump_fields(s: PacketSummaryView, verbose: bool, device_path: Seq<char>, count: u64, follow: bool) -> Seq<
    (Seq<char>, Seq<char>),
> {
    seq![
        ("layer"@, "NETWORK"@),
        ("ttl"@, decimal(s.ttl as nat)),
        ("checksum"@, hex4(s.checksum)),
        ("packet_len"@, decimal(s.packet_len)),
        ("timestamp"@, s.timestamp),
    ] + stream_fields(verbose, device_path, count, follow)
}

/// The text line of one packet.
pub open spec fn netdump_line(s: PacketSummaryView, verbose: bool, device_path: Seq<char>, count: u64, follow: bool) -> Seq<char> {
    "NETDUMP OK"@ + summary_fields(netdump_fields(s, verbose, device_path, count, follow))
}

/// The JSON members of one packet (its object without the opening brace).
pub open spec fn netdump_members(s: PacketSummaryView, verbose: bool, device_path: Seq<char>, count: u64, follow: bool) -> Seq<char> {
    "\"layer\":\"NETWORK\",\"ttl\":"@ + decimal(s.ttl as nat) + ",\"checksum\":\""@ + hex4(s.checksum)
        + "\",\"packet_len\":"@ + decimal(s.packet_len) + ",\"timestamp\":\""@ + json_escape(s.timestamp) + "\""@
        + stream_json(verbose, device_path, count, follow) + "}"@
}

impl NetdumpEventSummary {
    /// The packet as a summary line.
    pub fn render_text(&self, verbose: bool, device_path: &str, count: u64, follow: bool) -> (line: String)
        ensures
            line@ == netdump_line(self@, verbose, device_path@, count, follow),
    {
        let mut fields: Vec<(&str, String)> = Vec::new();
        fields.push(("layer", "NETWORK".to_owned()));
        fields.push(("ttl", decimal_text(self.ttl as u64)));
        fields.push(("checksum", hex4_string(self.checksum)));
        fields.push(("packet_len", decimal_text(self.packet_len as u64)));
        fields.push(("timestamp", self.timestamp.clone()));
        let ghost head = field_views(fields@);
        push_stream_fields(&mut fields, verbose, device_path, count, follow);
        assert(head =~= netdump_fields(self@, verbose, device_path@, count, follow).take(5));
        assert(field_views(fields@) =~= netdump_fields(self@, verbose, device_path@, count, follow));
        render_summary("NETDUMP OK", fields.as_slice())
    }

    /// The packet's JSON members, without the opening brace.
    pub fn render_json_members(&self, verbose: bool, device_path: &str, count: u64, follow: bool) -> (m: String)
        ensures
            m@ == netdump_members(self@, verbose, device_path@, count, follow),
    {
        let mut line = "\"layer\":\"NETWORK\",\"ttl\":".to_owned();
        push_decimal(&mut line, self.ttl as u64);
        line.append(",\"checksum\":\"");
        let h = hex4_string(self.checksum);
        line.append(h.as_str());
        line.append("\",\"packet_len\":");
        push_decimal(&mut line, self.packet_len as u64);
        line.append(",\"timestamp\":\"");
        push_json_escaped(&mut line, self.timestamp.as_str());
        line.append("\"");
        push_stream_json(&mut line, verbose, device_path, count, follow);
        line.append("}");
        line
    }

    /// The packet as a JSON object.
    pub fn render_json(&self, verbose: bool, device_path: &str, count: u64, follow: bool) -> (line: String)
        ensures
            line@ == seq!['{'] + netdump_members(self@, verbose, device_path@, count, follow),
    {
        let mut line = "{".to_owned();
        let m = self.render_json_members(verbose, device_path, count, follow);
        line.append(m.as_str());
        proof {
            reveal_strlit("{");
        }
        assert(line@ =~= seq!['{'] + netdump_members(self@, verbose, device_path@, count, follow));
        line
    }
}

/// The packets' text lines, one per line.
pub open spec fn netdump_text(events: Seq<PacketSummaryView>, verbose: bool, device_path: Seq<char>, count: u64, follow: bool) -> Seq<char> {
    joined(Seq::new(events.len(), |i: int| netdump_line(events[i], verbose, device_path, count, follow)), seq!['\n'])
}

/// The packets' JSON result.
pub open spec fn netdump_json(events: Seq<PacketSummaryView>, verbose: bool, device_path: Seq<char>, count: u64, follow: bool) -> Seq<char> {
    stream_result_json(
        "{\"command\":\"netdump\",\"status\":\"ok\","@,
        Seq::new(events.len(), |i: int| netdump_members(events[i], verbose, device_path, count, follow)),
    )
}

/// The views of the summaries.
pub open spec fn summary_views(events: Seq<NetdumpEventSummary>) -> Seq<PacketSummaryView> {
    Seq::new(events.len(), |i: int| events[i]@)
}

/// The packets as text lines.
pub fn render_text(events: &Vec<NetdumpEventSummary>, verbose: bool, device_path: &str, count: u64, follow: bool) -> (s: String)
    ensures
        s@ == netdump_text(summary_views(events@), verbose, device_path@, count, follow),
{
    let mut lines: Vec<String> = Vec::new();
    let mut i: usize = 0;
    while i < events.len()
        invariant
            i <= events@.len(),
            lines@.len() == i,
            forall|k: int| 0 <= k < i ==> (#[trigger] lines@[k])@ == netdump_line(events@[k]@, verbose, device_path@, count, follow),
        decreases events@.len() - i,
    {
        lines.push(events[i].render_text(verbose, device_path, count, follow));
        i = i + 1;
    }
    let s = join_lines(&lines);
    assert(string_views(lines@) =~= Seq::new(events@.len(), |k: int| netdump_line(summary_views(events@)[k], verbose, device_path@, count, follow)));
    s
}

/// The packets as a JSON result.
pub fn render_json(events: &Vec<NetdumpEventSummary>, verbose: bool, device_path: &str, count: u64, follow: bool) -> (s: String)
    ensures
        s@ == netdump_json(summary_views(events@), verbose, device_path@, count, follow),
{
    let mut bodies: Vec<String> = Vec::new();
    let mut i: usize = 0;
    while i < events.len()
        invariant
            i <= events@.len(),
            bodies@.len() == i,
            forall|k: int| 0 <= k < i ==> (#[trigger] bodies@[k])@ == netdump_members(events@[k]@, verbose, device_path@, count, follow),
        decreases events@.len() - i,
    {
        bodies.push(events[i].render_json_members(verbose, device_path, count, follow));
        i = i + 1;
    }
    let s = render_stream_json("{\"command\":\"netdump\",\"status\":\"ok\",", &bodies);
    assert(string_views(bodies@) =~= Seq::new(events@.len(), |k: int| netdump_members(summary_views(events@)[k], verbose, device_path@, count, follow)));
    s
}

/// The verdict on the arguments, before the device is reached.
pub open spec fn netdump_arguments(cmd: NetdumpCmd) -> Result<(), CliErrorView> {
    match netdump_filter_verdict(match cmd.filter { Some(f) => Some(f@), None => None }) {
        Err(e) => Err(e),
        Ok(()) => match netdump_count_verdict(cmd.count, cmd.follow) {
            Err(e) => Err(e),
            Ok(()) => if cmd.timeout_ms == 0 {
                Err(runtime_cli_error("netdump"@, io_failure_view("timeout-ms must be greater than 0"@)))
            } else {
                Ok(())
            },
        },
    }
}

impl NetdumpCmd {
    /// Runs `netdump` against `transport`: checks the arguments, probes
    /// the device (a missing one is reported), opens a network handle
    /// without a filter and a session, receives `count` packets, closes
    /// the session and renders the summaries, every step under the time
    /// budget. The transport decides whether the steps succeed; a refused
    /// argument is reported before it is reached.
    #[verifier::loop_isolation(false)]
    pub fn execute_with_transport<T: RuntimeTransport>(self, transport: T) -> (r: Result<String, CliError>)
        ensures
            netdump_arguments(self) matches Err(e) ==> (r matches Err(x) && x@ == e),
            netdump_arguments(self) is Ok ==> (r matches Err(x) ==> is_runtime_failure("netdump"@, x@)),
            r matches Ok(line) ==> exists|events: Seq<PacketSummaryView>, device_path: Seq<char>|
                events.len() == self.count && #[trigger] line@ == (if self.json {
                    netdump_json(events, self.verbose, device_path, self.count, self.follow)
                } else {
                    netdump_text(events, self.verbose, device_path, self.count, self.follow)
                }) && forall|i: int| 0 <= i < events.len() ==> #[trigger] captured(device_path, events[i]),
    {
        let ghost this = self;
        let NetdumpCmd { filter, count, follow, json, verbose, timeout_ms } = self;
        let filter_arg: Option<&str> = match &filter {
            Some(f) => Some(f.as_str()),
            None => None,
        };
        match validate_filter(filter_arg) {
            Ok(()) => {},
            Err(e) => return Err(e),
        }
        match validate_count(count, follow) {
            Ok(()) => {},
            Err(e) => return Err(e),
        }
        let budget = match TimeoutBudget::new("netdump", timeout_ms) {
            Ok(b) => b,
            Err(e) => return Err(map_runtime_error("netdump", e)),
        };
        let open_config = RuntimeOpenConfig::network(Vec::new());

        if let Err(e) = budget.check("probe") {
            return Err(map_runtime_error("netdump", e));
        }
        let availability = match transport.probe() {
            Ok(a) => a,
            Err(e) => return Err(map_runtime_error("netdump", e)),
        };
        if let Err(e) = budget.check("probe") {
            return Err(map_runtime_error("netdump", e));
        }
        if let DeviceAvailability::Missing = availability {
            return Err(map_runtime_error("netdump", RuntimeError::device_unavailable(default_device_path())));
        }

        if let Err(e) = budget.check("open") {
            return Err(map_runtime_error("netdump", e));
        }
        let probe = match transport.open(&open_config) {
            Ok(p) => p,
            Err(e) => return Err(map_runtime_error("netdump", e)),
        };
        if let Err(e) = budget.check("open") {
            return Err(map_runtime_error("netdump", e));
        }
        if let Err(e) = budget.check("open_session") {
            return Err(map_runtime_error("netdump", e));
        }
        let mut session = match transport.open_session(&open_config) {
            Ok(s) => s,
            Err(e) => return Err(map_runtime_error("netdump", e)),
        };
        if let Err(e) = budget.check("open_session") {
            return Err(map_runtime_error("netdump", e));
        }

        let device_path = probe.device_path.as_str();
        let mut events: Vec<NetdumpEventSummary> = Vec::new();
        let mut n: u64 = 0;
        while n < count
            invariant
                n <= count,
                events@.len() == n,
                forall|i: int| 0 <= i < events@.len() ==> #[trigger] captured(device_path@, events@[i]@),
                decreases count - n,
        {
            if let Err(e) = budget.check("recv") {
                return Err(map_runtime_error("netdump", e));
            }
            let raw = match session.recv_one(MAX_RECV_BYTES) {
                Ok(raw) => raw,
                Err(e) => return Err(map_runtime_error("netdump", e)),
            };
            if let Err(e) = budget.check("recv") {
                return Err(map_runtime_error("netdump", e));
            }
            let summary = match decode_event_summary(device_path, raw.as_slice()) {
                Ok(s) => s,
                Err(e) => return Err(e),
            };
            assert(captured(device_path@, summary@));
            events.push(summary);
            n = n + 1;
        }

        if let Err(e) = budget.check("close_session") {
            return Err(map_runtime_error("netdump", e));
        }
        match session.close() {
            Ok(()) => {},
            Err(e) => return Err(map_runtime_error("netdump", e)),
        }
        if let Err(e) = budget.check("close_session") {
            return Err(map_runtime_error("netdump", e));
        }

        let line = if json {
            render_json(&events, verbose, device_path, count, follow)
        } else {
            render_text(&events, verbose, device_path, count, follow)
        };
        assert(summary_views(events@).len() == count);
        Ok(line)
    }
}

} // verus!
