//! `flowtrack`: wait for flow establishment events and print them.
use vstd::prelude::*;
use vstd::string::StringExecFns;
use crate::cli::cmd::budget::{capture_timestamp, is_timestamp, TimeoutBudget};
use crate::cli::cmd::common::{
    decimal_text, field_views, join_lines, joined, push_stream_fields, push_stream_json, render_stream_json,
    render_summary, stream_fields, stream_json, stream_result_json, string_views, summary_fields,
};
use crate::cli::cmd::netdump::{timestamp_view, MAX_RECV_BYTES};
use crate::cli::error::{CliError, CliErrorView};
use crate::cli::output::{json_escape, push_json_escaped};
use crate::cli::runtime::{is_runtime_failure, map_runtime_error, runtime_cli_error};
use crate::proto::FlowEventKind;
use crate::text::{decimal, join3, push_decimal};
use crate::user::device::{default_device_path, DeviceAvailability};
use crate::user::error::user_error_text;
use crate::user::frame::{spec_decode_event, EventView, RecvEvent};
use crate::user::runtime::{
    io_failure_view, RuntimeError, RuntimeErrorView, RuntimeOpenConfig, RuntimeSession, RuntimeTransport,
};

verus! {

/// The arguments of `flowtrack`.
#[derive(Debug)]
pub struct FlowtrackCmd {
    pub process_id: Option<u64>,
    pub count: u64,
    pub follow: bool,
    pub json: bool,
    pub verbose: bool,
    pub timeout_ms: u64,
}

/// What `flowtrack` reports of one flow event.
#[derive(Debug)]
pub struct FlowtrackSummary {
    pub event: FlowEventKind,
    pub flow_id: u64,
    pub process_id: u64,
    pub timestamp: String,
}

/// A flow summary as plain values.
pub struct FlowSummaryView {
    pub event: FlowEventKind,
    pub flow_id: u64,
    pub process_id: u64,
    pub timestamp: Seq<char>,
}

impl View for FlowtrackSummary {
    type V = FlowSummaryView;

    open spec fn view(&self) -> FlowSummaryView {
        FlowSummaryView {
            event: self.event,
            flow_id: self.flow_id,
            process_id: self.process_id,
            timestamp: self.timestamp@,
        }
    }
}

/// The error `flowtrack` reports for an I/O failure with `message`.
pub open spec fn flowtrack_io(message: Seq<char>) -> CliErrorView {
    runtime_cli_error("flowtrack"@, io_failure_view(message))
}

/// The verdict on count and follow: at least one event, and more than one
/// only with `--follow`.
pub open spec fn flowtrack_count_verdict(count: u64, follow: bool) -> Result<(), CliErrorView> {
    if count == 0 {
        Err(CliErrorView {
            command: "flowtrack"@,
            code: 2,
            category: "argument_error"@,
            message: "count must be greater than 0"@,
            suggestion: "set --count to 1 or more"@,
        })
    } else if !follow && count > 1 {
        Err(CliErrorView {
            command: "flowtrack"@,
            code: 2,
            category: "argument_error"@,
            message: "count greater than 1 requires --follow"@,
            suggestion: "add --follow or use --count 1"@,
        })
    } else {
        Ok(())
    }
}

/// Checks count and follow.
pub fn validate_count(count: u64, follow: bool) -> (r: Result<(), CliError>)
    ensures
        match flowtrack_count_verdict(count, follow) {
            Ok(()) => r is Ok,
            Err(e) => r matches Err(x) && x@ == e,
        },
{
    if count == 0 {
        return Err(CliError::argument_error("flowtrack", "count must be greater than 0", "set --count to 1 or more"));
    }
    if !follow && count > 1 {
        return Err(CliError::argument_error(
            "flowtrack",
            "count greater than 1 requires --follow",
            "add --follow or use --count 1",
        ));
    }
    Ok(())
}

/// What a received buffer gives `flowtrack`, given the capture timestamp:
/// it must decode to a flow event; an event of another process than the
/// one asked for is passed over (`None`).
pub open spec fn flow_summary_of(
    device_path: Seq<char>,
    raw: Seq<u8>,
    process_id_filter: Option<u64>,
    timestamp: Result<Seq<char>, RuntimeErrorView>,
) -> Result<Option<FlowSummaryView>, CliErrorView> {
    match spec_decode_event(raw) {
        Err(e) => Err(flowtrack_io("failed to decode runtime flow frame from "@ + device_path + ": "@ + user_error_text(e))),
        Ok(EventView::Flow { kind, flow_id, process_id }) => if process_id_filter matches Some(expected) && process_id
            != expected {
            Ok(None)
        } else {
            match timestamp {
                Err(t) => Err(runtime_cli_error("flowtrack"@, t)),
                Ok(ts) => Ok(Some(FlowSummaryView { event: kind, flow_id, process_id, timestamp: ts })),
            }
        },
        Ok(_) => Err(flowtrack_io("decoded runtime event from "@ + device_path + " did not contain a flow event"@)),
    }
}

/// Reads a received buffer with the given capture timestamp.
pub fn summarize_flow(
    device_path: &str,
    raw: &[u8],
    process_id_filter: Option<u64>,
    timestamp: Result<String, RuntimeError>,
) -> (r: Result<Option<FlowtrackSummary>, CliError>)
    ensures
        match flow_summary_of(device_path@, raw@, process_id_filter, timestamp_view(timestamp)) {
            Ok(Some(v)) => r matches Ok(Some(s)) && s@ == v,
            Ok(None) => r matches Ok(None),
            Err(e) => r matches Err(x) && x@ == e,
        },
{
    let event = match RecvEvent::decode(raw) {
        Ok(e) => e,
        Err(err) => {
            let mut m = join3("failed to decode runtime flow frame from ", device_path, ": ");
            let text = err.to_string();
            m.append(text.as_str());
            return Err(map_runtime_error("flowtrack", RuntimeError::io_failure(m)));
        },
    };
    let flow = match event.flow() {
        Some(f) => f,
        None => {
            let m = join3("decoded runtime event from ", device_path, " did not contain a flow event");
            return Err(map_runtime_error("flowtrack", RuntimeError::io_failure(m)));
        },
    };
    if let Some(expected) = process_id_filter {
        if flow.process_id() != expected {
            return Ok(None);
        }
    }
    let ts = match timestamp {
        Ok(t) => t,
        Err(e) => return Err(map_runtime_error("flowtrack", e)),
    };
    Ok(Some(FlowtrackSummary { event: flow.kind(), flow_id: flow.flow_id(), process_id: flow.process_id(), timestamp: ts }))
}

/// Reads a received buffer, stamping a kept event with the time of
/// capture.
pub fn decode_flow_summary(device_path: &str, raw: &[u8], process_id_filter: Option<u64>) -> (r: Result<
    Option<FlowtrackSummary>,
    CliError,
>)
    ensures
        exists|t: Result<Seq<char>, RuntimeErrorView>|
            {
                &&& (t matches Ok(s) ==> is_timestamp(s))
                &&& match #[trigger] flow_summary_of(device_path@, raw@, process_id_filter, t) {
                    Ok(Some(v)) => r matches Ok(Some(s)) && s@ == v,
                    Ok(None) => r matches Ok(None),
                    Err(e) => r matches Err(x) && x@ == e,
                }
            },
        r matches Ok(Some(s)) ==> (process_id_filter matches Some(p) ==> s.process_id == p),
        r matches Err(x) ==> is_runtime_failure("flowtrack"@, x@),
{
    let timestamp = capture_timestamp();
    let ghost t = timestamp_view(timestamp);
    let r = summarize_flow(device_path, raw, process_id_filter, timestamp);
    proof {
        match spec_decode_event(raw@) {
            Err(e) => {
                assert(flowtrack_io("failed to decode runtime flow frame from "@ + device_path@ + ": "@ + user_error_text(e))
                    == runtime_cli_error("flowtrack"@, io_failure_view(
                    "failed to decode runtime flow frame from "@ + device_path@ + ": "@ + user_error_text(e))));
            },
            Ok(EventView::Flow { kind, flow_id, process_id }) => {
                if let Err(te) = t {
                    assert(runtime_cli_error("flowtrack"@, te) == runtime_cli_error("flowtrack"@, te));
                }
            },
            Ok(_) => {
                assert(flowtrack_io("decoded runtime event from "@ + device_path@ + " did not contain a flow event"@)
                    == runtime_cli_error("flowtrack"@, io_failure_view(
                    "decoded runtime event from "@ + device_path@ + " did not contain a flow event"@)));
            },
        }
    }
    r
}

/// The name a flow event kind is printed with.
pub open spec fn flow_kind_text(kind: FlowEventKind) -> Seq<char> {
    match kind {
        FlowEventKind::Established => "ESTABLISHED"@,
    }
}

/// The name a flow event kind is printed with.
pub fn render_flow_event_kind(kind: FlowEventKind) -> (s: &'static str)
    ensures
        s@ == flow_kind_text(kind),
{
    match kind {
        FlowEventKind::Established => "ESTABLISHED",
    }
}

/// The summary fields of one flow event.
pub open spec fn flowtrack_fields(s: FlowSummaryView, verbose: bool, device_path: Seq<char>, count: u64, follow: bool) -> Seq<
    (Seq<char>, Seq<char>),
> {
    seq![
        ("event"@, flow_kind_text(s.event)),
        ("flow_id"@, decimal(s.flow_id as nat)),
        ("process_id"@, decimal(s.process_id as nat)),
        ("timestamp"@, s.timestamp),
    ] + stream_fields(verbose, device_path, count, follow)
}

/// The text line of one flow event.
pub open spec fn flowtrack_line(s: FlowSummaryView, verbose: bool, device_path: Seq<char>, count: u64, follow: bool) -> Seq<char> {
    "FLOWTRACK OK"@ + summary_fields(flowtrack_fields(s, verbose, device_path, count, follow))
}

/// The JSON members of one flow event (its object without the opening
/// brace).
pub open spec fn flowtrack_members(s: FlowSummaryView, verbose: bool, device_path: Seq<char>, count: u64, follow: bool) -> Seq<char> {
    "\"event\":\""@ + flow_kind_text(s.event) + "\",\"flow_id\":"@ + decimal(s.flow_id as nat) + ",\"process_id\":"@
        + decimal(s.process_id as nat) + ",\"timestamp\":\""@ + json_escape(s.timestamp) + "\""@
        + stream_json(verbose, device_path, count, follow) + "}"@
}

impl FlowtrackSummary {
    /// The event as a summary line.
    pub fn render_text(&self, verbose: bool, device_path: &str, count: u64, follow: bool) -> (line: String)
        ensures
            line@ == flowtrack_line(self@, verbose, device_path@, count, follow),
    {
        let mut fields: Vec<(&str, String)> = Vec::new();
        fields.push(("event", render_flow_event_kind(self.event).to_owned()));
        fields.push(("flow_id", decimal_text(self.flow_id)));
        fields.push(("process_id", decimal_text(self.process_id)));
        fields.push(("timestamp", self.timestamp.clone()));
        let ghost head = field_views(fields@);
        push_stream_fields(&mut fields, verbose, device_path, count, follow);
        assert(head =~= flowtrack_fields(self@, verbose, device_path@, count, follow).take(4));
        assert(field_views(fields@) =~= flowtrack_fields(self@, verbose, device_path@, count, follow));
        render_summary("FLOWTRACK OK", fields.as_slice())
    }

    /// The event's JSON members, without the opening brace.
    pub fn render_json_members(&self, verbose: bool, device_path: &str, count: u64, follow: bool) -> (m: String)
        ensures
            m@ == flowtrack_members(self@, verbose, device_path@, count, follow),
    {
        let mut line = "\"event\":\"".to_owned();
        line.append(render_flow_event_kind(self.event));
        line.append("\",\"flow_id\":");
        push_decimal(&mut line, self.flow_id);
        line.append(",\"process_id\":");
        push_decimal(&mut line, self.process_id);
        line.append(",\"timestamp\":\"");
        push_json_escaped(&mut line, self.timestamp.as_str());
        line.append("\"");
        push_stream_json(&mut line, verbose, device_path, count, follow);
        line.append("}");
        line
    }
}

/// The views of the summaries.
pub open spec fn flow_views(events: Seq<FlowtrackSummary>) -> Seq<FlowSummaryView> {
    Seq::new(events.len(), |i: int| events[i]@)
}

/// The flow events as text lines.
pub open spec fn flowtrack_text(events: Seq<FlowSummaryView>, verbose: bool, device_path: Seq<char>, count: u64, follow: bool) -> Seq<char> {
    joined(Seq::new(events.len(), |i: int| flowtrack_line(events[i], verbose, device_path, count, follow)), seq!['\n'])
}

/// The flow events as a JSON result.
pub open spec fn flowtrack_json(events: Seq<FlowSummaryView>, verbose: bool, device_path: Seq<char>, count: u64, follow: bool) -> Seq<char> {
    stream_result_json(
        "{\"command\":\"flowtrack\",\"status\":\"ok\","@,
        Seq::new(events.len(), |i: int| flowtrack_members(events[i], verbose, device_path, count, follow)),
    )
}

/// Renders the flow events as text lines.
pub fn render_text(events: &Vec<FlowtrackSummary>, verbose: bool, device_path: &str, count: u64, follow: bool) -> (s: String)
    ensures
        s@ == flowtrack_text(flow_views(events@), verbose, device_path@, count, follow),
{
    let mut lines: Vec<String> = Vec::new();
    let mut i: usize = 0;
    while i < events.len()
        invariant
            i <= events@.len(),
            lines@.len() == i,
            forall|k: int| 0 <= k < i ==> (#[trigger] lines@[k])@ == flowtrack_line(events@[k]@, verbose, device_path@, count, follow),
        decreases events@.len() - i,
    {
        lines.push(events[i].render_text(verbose, device_path, count, follow));
        i = i + 1;
    }
    let s = join_lines(&lines);
    assert(string_views(lines@) =~= Seq::new(events@.len(), |k: int| flowtrack_line(flow_views(events@)[k], verbose, device_path@, count, follow)));
    s
}

/// Renders the flow events as a JSON result.
pub fn render_json(events: &Vec<FlowtrackSummary>, verbose: bool, device_path: &str, count: u64, follow: bool) -> (s: String)
    ensures
        s@ == flowtrack_json(flow_views(events@), verbose, device_path@, count, follow),
{
    let mut bodies: Vec<String> = Vec::new();
    let mut i: usize = 0;
    while i < events.len()
        invariant
            i <= events@.len(),
            bodies@.len() == i,
            forall|k: int| 0 <= k < i ==> (#[trigger] bodies@[k])@ == flowtrack_members(events@[k]@, verbose, device_path@, count, follow),
        decreases events@.len() - i,
    {
        bodies.push(events[i].render_json_members(verbose, device_path, count, follow));
        i = i + 1;
    }
    let s = render_stream_json("{\"command\":\"flowtrack\",\"status\":\"ok\",", &bodies);
    assert(string_views(bodies@) =~= Seq::new(events@.len(), |k: int| flowtrack_members(flow_views(events@)[k], verbose, device_path@, count, follow)));
    s
}

/// The verdict on the arguments, before the device is reached.
pub open spec fn flowtrack_arguments(cmd: FlowtrackCmd) -> Result<(), CliErrorView> {
    match flowtrack_count_verdict(cmd.count, cmd.follow) {
        Err(e) => Err(e),
        Ok(()) => if cmd.timeout_ms == 0 {
            Err(runtime_cli_error("flowtrack"@, io_failure_view("timeout-ms must be greater than 0"@)))
        } else {
            Ok(())
        },
    }
}

/// Whether `v` is what `cmd` keeps of some received buffer: a flow event
/// of the requested process, stamped with some capture time.
pub open spec fn kept_flow(cmd: FlowtrackCmd, device_path: Seq<char>, v: FlowSummaryView) -> bool {
    exists|raw: Seq<u8>, t: Result<Seq<char>, RuntimeErrorView>|
        #[trigger] flow_summary_of(device_path, raw, cmd.process_id, t) == Ok::<Option<FlowSummaryView>, CliErrorView>(Some(v))
}

impl FlowtrackCmd {
    /// Runs `flowtrack` against `transport`: checks the arguments, probes
    /// the device (a missing one is reported), opens a flow handle and a
    /// session, receives until `count` flow events of the requested
    /// process have arrived, closes the session and renders them, every
    /// step under the time budget. The transport decides whether the
    /// steps succeed; a refused argument is reported before it is reached.
    /// Receiving stops, as a failure, after `u64::MAX` frames.
    #[verifier::loop_isolation(false)]
    pub fn execute_with_transport<T: RuntimeTransport>(self, transport: T) -> (r: Result<String, CliError>)
        ensures
            flowtrack_arguments(self) matches Err(e) ==> (r matches Err(x) && x@ == e),
            flowtrack_arguments(self) is Ok ==> (r matches Err(x) ==> is_runtime_failure("flowtrack"@, x@)),
            r matches Ok(line) ==> exists|events: Seq<FlowSummaryView>, device_path: Seq<char>|
                events.len() == self.count as usize && #[trigger] line@ == (if self.json {
                    flowtrack_json(events, self.verbose, device_path, self.count, self.follow)
                } else {
                    flowtrack_text(events, self.verbose, device_path, self.count, self.follow)
                }) && (self.process_id matches Some(p) ==> forall|i: int| 0 <= i < events.len() ==> events[i].process_id == p)
                && forall|i: int| 0 <= i < events.len() ==> #[trigger] kept_flow(self, device_path, events[i]),
    {
        let ghost this = self;
        let FlowtrackCmd { process_id, count, follow, json, verbose, timeout_ms } = self;
        match validate_count(count, follow) {
            Ok(()) => {},
            Err(e) => return Err(e),
        }
        let budget = match TimeoutBudget::new("flowtrack", timeout_ms) {
            Ok(b) => b,
            Err(e) => return Err(map_runtime_error("flowtrack", e)),
        };
        let open_config = RuntimeOpenConfig::flow();

        if let Err(e) = budget.check("probe") {
            return Err(map_runtime_error("flowtrack", e));
        }
        let availability = match transport.probe() {
            Ok(a) => a,
            Err(e) => return Err(map_runtime_error("flowtrack", e)),
        };
        if let Err(e) = budget.check("probe") {
            return Err(map_runtime_error("flowtrack", e));
        }
        if let DeviceAvailability::Missing = availability {
            return Err(map_runtime_error("flowtrack", RuntimeError::device_unavailable(default_device_path())));
        }

        if let Err(e) = budget.check("open") {
            return Err(map_runtime_error("flowtrack", e));
        }
        let probe = match transport.open(&open_config) {
            Ok(p) => p,
            Err(e) => return Err(map_runtime_error("flowtrack", e)),
        };
        if let Err(e) = budget.check("open") {
            return Err(map_runtime_error("flowtrack", e));
        }
        if let Err(e) = budget.check("open_session") {
            return Err(map_runtime_error("flowtrack", e));
        }
        let mut session = match transport.open_session(&open_config) {
            Ok(s) => s,
            Err(e) => return Err(map_runtime_error("flowtrack", e)),
        };
        if let Err(e) = budget.check("open_session") {
            return Err(map_runtime_error("flowtrack", e));
        }

        let device_path = probe.device_path.as_str();
        let wanted = count as usize;
        let mut matches: Vec<FlowtrackSummary> = Vec::new();
        let mut frames: u64 = 0;
        while matches.len() < wanted
            invariant
                matches@.len() <= wanted,
                process_id matches Some(p) ==> forall|i: int| 0 <= i < matches@.len() ==> matches@[i].process_id == p,
                forall|i: int| 0 <= i < matches@.len() ==> #[trigger] kept_flow(this, device_path@, matches@[i]@),
            decreases u64::MAX - frames,
        {
            if frames == u64::MAX {
                let m = "flowtrack recv gave up after the frame counter's limit without enough matching events".to_owned();
                return Err(map_runtime_error("flowtrack", RuntimeError::io_failure(m)));
            }
            frames = frames + 1;
            if let Err(e) = budget.check("recv") {
                return Err(map_runtime_error("flowtrack", e));
            }
            let raw = match session.recv_one(MAX_RECV_BYTES) {
                Ok(raw) => raw,
                Err(e) => return Err(map_runtime_error("flowtrack", e)),
            };
            if let Err(e) = budget.check("recv") {
                return Err(map_runtime_error("flowtrack", e));
            }
            match decode_flow_summary(device_path, raw.as_slice(), process_id) {
                Ok(Some(s)) => {
                    assert(kept_flow(this, device_path@, s@));
                    matches.push(s);
                },
                Ok(None) => {},
                Err(e) => return Err(e),
            }
        }

        if let Err(e) = budget.check("close_session") {
            return Err(map_runtime_error("flowtrack", e));
        }
        match session.close() {
            Ok(()) => {},
            Err(e) => return Err(map_runtime_error("flowtrack", e)),
        }
        if let Err(e) = budget.check("close_session") {
            return Err(map_runtime_error("flowtrack", e));
        }

        let line = if json {
            render_json(&matches, verbose, device_path, count, follow)
        } else {
            render_text(&matches, verbose, device_path, count, follow)
        };
        assert(flow_views(matches@).len() == count as usize);
        Ok(line)
    }
}

} // verus!
