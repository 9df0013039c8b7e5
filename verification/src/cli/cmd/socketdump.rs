//! `socketdump`: wait for socket events that a runtime filter accepts and
//! print them.
use vstd::prelude::*;
use vstd::string::StringExecFns;
use crate::cli::cmd::budget::{capture_timestamp, is_timestamp, TimeoutBudget};
use crate::cli::cmd::common::{
    bool_string, bool_text, decimal_text, field_views, join_lines, joined, push_stream_fields, push_stream_json,
    render_stream_json, render_summary, stream_fields, stream_json, stream_result_json, string_views, summary_fields,
};
use crate::cli::cmd::netdump::{timestamp_view, MAX_RECV_BYTES};
use crate::cli::error::{CliError, CliErrorView};
use crate::cli::output::{json_escape, push_json_escaped};
use crate::cli::runtime::{is_runtime_failure, map_runtime_error, runtime_cli_error};
use crate::kmdf::filter_eval::{engine_matches, spec_engine_compile, DriverEvent, EngineView, FilterEngine};
use crate::proto::{Layer, SocketEventKind};
use crate::text::{decimal, join3, push_decimal};
use crate::user::device::{default_device_path, DeviceAvailability};
use crate::user::error::user_error_text;
use crate::user::frame::{spec_decode_event, EventView, RecvEvent};
use crate::user::runtime::{
    io_failure_view, RuntimeError, RuntimeErrorView, RuntimeOpenConfig, RuntimeSession, RuntimeTransport,
};

verus! {

/// The arguments of `socketdump`.
#[derive(Debug)]
pub struct SocketdumpCmd {
    pub filter: String,
    pub process_id: Option<u64>,
    pub count: u64,
    pub follow: bool,
    pub json: bool,
    pub verbose: bool,
    pub timeout_ms: u64,
}

/// What `socketdump` reports of one socket event.
#[derive(Debug)]
pub struct SocketdumpSummary {
    pub event: SocketEventKind,
    pub process_id: u64,
    pub matched: bool,
    pub timestamp: String,
}

/// A socket summary as plain values.
pub struct SocketSummaryView {
    pub event: SocketEventKind,
    pub process_id: u64,
    pub matched: bool,
    pub timestamp: Seq<char>,
}

impl View for SocketdumpSummary {
    type V = SocketSummaryView;

    open spec fn view(&self) -> SocketSummaryView {
        SocketSummaryView {
            event: self.event,
            process_id: self.process_id,
            matched: self.matched,
            timestamp: self.timestamp@,
        }
    }
}

/// The error `socketdump` reports for an I/O failure with `message`.
pub open spec fn socketdump_io(message: Seq<char>) -> CliErrorView {
    runtime_cli_error("socketdump"@, io_failure_view(message))
}

/// The verdict on count and follow: at least one event, and more than one
/// only with `--follow`.
pub open spec fn socketdump_count_verdict(count: u64, follow: bool) -> Result<(), CliErrorView> {
    if count == 0 {
        Err(CliErrorView {
            command: "socketdump"@,
            code: 2,
            category: "argument_error"@,
            message: "count must be greater than 0"@,
            suggestion: "set --count to 1 or more"@,
        })
    } else if !follow && count > 1 {
        Err(CliErrorView {
            command: "socketdump"@,
            code: 2,
            category: "argument_error"@,
            message: "count greater than 1 requires --follow"@,
            suggestion: "add --follow or use --count 1"@,
        })
    } else {
        Ok(())
    }
}

/// Checks count and follow.
pub fn validate_count(count: u64, follow: bool) -> (r: Result<(), CliError>)
    ensures
        match socketdump_count_verdict(count, follow) {
            Ok(()) => r is Ok,
            Err(e) => r matches Err(x) && x@ == e,
        },
{
    if count == 0 {
        return Err(CliError::argument_error("socketdump", "count must be greater than 0", "set --count to 1 or more"));
    }
    if !follow && count > 1 {
        return Err(CliError::argument_error(
            "socketdump",
            "count greater than 1 requires --follow",
            "add --follow or use --count 1",
        ));
    }
    Ok(())
}

/// What a received buffer gives `socketdump`, given the capture timestamp:
/// it must decode to a socket event; an event of another process than the
/// one asked for, or one the filter refuses, is passed over (`None`).
pub open spec fn socket_summary_of(
    device_path: Seq<char>,
    raw: Seq<u8>,
    process_id_filter: Option<u64>,
    engine: EngineView,
    timestamp: Result<Seq<char>, RuntimeErrorView>,
) -> Result<Option<SocketSummaryView>, CliErrorView> {
    match spec_decode_event(raw) {
        Err(e) => Err(socketdump_io("failed to decode runtime socket frame from "@ + device_path + ": "@ + user_error_text(e))),
        Ok(EventView::Socket { kind, process_id }) => if process_id_filter matches Some(expected) && process_id
            != expected {
            Ok(None)
        } else if !engine_matches(engine, DriverEvent::SocketConnect { process_id }) {
            Ok(None)
        } else {
            match timestamp {
                Err(t) => Err(runtime_cli_error("socketdump"@, t)),
                Ok(ts) => Ok(Some(SocketSummaryView { event: kind, process_id, matched: true, timestamp: ts })),
            }
        },
        Ok(_) => Err(socketdump_io("decoded runtime event from "@ + device_path + " did not contain a socket event"@)),
    }
}

/// Reads a received buffer with the given capture timestamp.
pub fn summarize_socket(
    device_path: &str,
    raw: &[u8],
    process_id_filter: Option<u64>,
    engine: &FilterEngine,
    timestamp: Result<String, RuntimeError>,
) -> (r: Result<Option<SocketdumpSummary>, CliError>)
    ensures
        match socket_summary_of(device_path@, raw@, process_id_filter, engine@, timestamp_view(timestamp)) {
            Ok(Some(v)) => r matches Ok(Some(s)) && s@ == v,
            Ok(None) => r matches Ok(None),
            Err(e) => r matches Err(x) && x@ == e,
        },
{
    let event = match RecvEvent::decode(raw) {
        Ok(e) => e,
        Err(err) => {
            let mut m = join3("failed to decode runtime socket frame from ", device_path, ": ");
            let text = err.to_string();
            m.append(text.as_str());
            return Err(map_runtime_error("socketdump", RuntimeError::io_failure(m)));
        },
    };
    let socket = match event.socket() {
        Some(s) => s,
        None => {
            let m = join3("decoded runtime event from ", device_path, " did not contain a socket event");
            return Err(map_runtime_error("socketdump", RuntimeError::io_failure(m)));
        },
    };
    if let Some(expected) = process_id_filter {
        if socket.process_id() != expected {
            return Ok(None);
        }
    }
    let driver_event = DriverEvent::socket_connect(socket.process_id());
    if !engine.matches(&driver_event) {
        return Ok(None);
    }
    let ts = match timestamp {
        Ok(t) => t,
        Err(e) => return Err(map_runtime_error("socketdump", e)),
    };
    Ok(Some(SocketdumpSummary { event: socket.kind(), process_id: socket.process_id(), matched: true, timestamp: ts }))
}

/// Reads a received buffer, stamping a kept event with the time of
/// capture.
pub fn decode_socket_summary(
    device_path: &str,
    raw: &[u8],
    process_id_filter: Option<u64>,
    engine: &FilterEngine,
) -> (r: Result<Option<SocketdumpSummary>, CliError>)
    ensures
        exists|t: Result<Seq<char>, RuntimeErrorView>|
            {
                &&& (t matches Ok(s) ==> is_timestamp(s))
                &&& match #[trigger] socket_summary_of(device_path@, raw@, process_id_filter, engine@, t) {
                    Ok(Some(v)) => r matches Ok(Some(s)) && s@ == v,
                    Ok(None) => r matches Ok(None),
                    Err(e) => r matches Err(x) && x@ == e,
                }
            },
        r matches Ok(Some(s)) ==> (process_id_filter matches Some(p) ==> s.process_id == p),
        r matches Err(x) ==> is_runtime_failure("socketdump"@, x@),
{
    let timestamp = capture_timestamp();
    let ghost t = timestamp_view(timestamp);
    let r = summarize_socket(device_path, raw, process_id_filter, engine, timestamp);
    proof {
        match spec_decode_event(raw@) {
            Err(e) => {
                assert(socketdump_io("failed to decode runtime socket frame from "@ + device_path@ + ": "@ + user_error_text(e))
                    == runtime_cli_error("socketdump"@, io_failure_view(
                    "failed to decode runtime socket frame from "@ + device_path@ + ": "@ + user_error_text(e))));
            },
            Ok(EventView::Socket { kind, process_id }) => {
                if let Err(te) = t {
                    assert(runtime_cli_error("socketdump"@, te) == runtime_cli_error("socketdump"@, te));
                }
            },
            Ok(_) => {
                assert(socketdump_io("decoded runtime event from "@ + device_path@ + " did not contain a socket event"@)
                    == runtime_cli_error("socketdump"@, io_failure_view(
                    "decoded runtime event from "@ + device_path@ + " did not contain a socket event"@)));
            },
        }
    }
    r
}

/// The name a socket event kind is printed with.
pub open spec fn socket_kind_text(kind: SocketEventKind) -> Seq<char> {
    match kind {
        SocketEventKind::Connect => "CONNECT"@,
    }
}

/// The name a socket event kind is printed with.
pub fn render_socket_event_kind(kind: SocketEventKind) -> (s: &'static str)
    ensures
        s@ == socket_kind_text(kind),
{
    match kind {
        SocketEventKind::Connect => "CONNECT",
    }
}

/// The summary fields of one socket event.
pub open spec fn socketdump_fields(s: SocketSummaryView, verbose: bool, device_path: Seq<char>, count: u64, follow: bool) -> Seq<
    (Seq<char>, Seq<char>),
> {
    seq![
        ("event"@, socket_kind_text(s.event)),
        ("process_id"@, decimal(s.process_id as nat)),
        ("matched"@, bool_text(s.matched)),
        ("timestamp"@, s.timestamp),
    ] + stream_fields(verbose, device_path, count, follow)
}

/// The text line of one socket event.
pub open spec fn socketdump_line(s: SocketSummaryView, verbose: bool, device_path: Seq<char>, count: u64, follow: bool) -> Seq<char> {
    "SOCKETDUMP OK"@ + summary_fields(socketdump_fields(s, verbose, device_path, count, follow))
}

/// The JSON members of one socket event (its object without the opening
/// brace).
pub open spec fn socketdump_members(s: SocketSummaryView, verbose: bool, device_path: Seq<char>, count: u64, follow: bool) -> Seq<char> {
    "\"event\":\""@ + socket_kind_text(s.event) + "\",\"process_id\":"@ + decimal(s.process_id as nat) + ",\"matched\":"@
        + bool_text(s.matched) + ",\"timestamp\":\""@ + json_escape(s.timestamp) + "\""@
        + stream_json(verbose, device_path, count, follow) + "}"@
}

impl SocketdumpSummary {
    /// The event as a summary line.
    pub fn render_text(&self, verbose: bool, device_path: &str, count: u64, follow: bool) -> (line: String)
        ensures
            line@ == socketdump_line(self@, verbose, device_path@, count, follow),
    {
        let mut fields: Vec<(&str, String)> = Vec::new();
        fields.push(("event", render_socket_event_kind(self.event).to_owned()));
        fields.push(("process_id", decimal_text(self.process_id)));
        fields.push(("matched", bool_string(self.matched)));
        fields.push(("timestamp", self.timestamp.clone()));
        let ghost head = field_views(fields@);
        push_stream_fields(&mut fields, verbose, device_path, count, follow);
        assert(head =~= socketdump_fields(self@, verbose, device_path@, count, follow).take(4));
        assert(field_views(fields@) =~= socketdump_fields(self@, verbose, device_path@, count, follow));
        render_summary("SOCKETDUMP OK", fields.as_slice())
    }

    /// The event's JSON members, without the opening brace.
    pub fn render_json_members(&self, verbose: bool, device_path: &str, count: u64, follow: bool) -> (m: String)
        ensures
            m@ == socketdump_members(self@, verbose, device_path@, count, follow),
    {
        let mut line = "\"event\":\"".to_owned();
        line.append(render_socket_event_kind(self.event));
        line.append("\",\"process_id\":");
        push_decimal(&mut line, self.process_id);
        line.append(",\"matched\":");
        line.append(if self.matched { "true" } else { "false" });
        line.append(",\"timestamp\":\"");
        push_json_escaped(&mut line, self.timestamp.as_str());
        line.append("\"");
        push_stream_json(&mut line, verbose, device_path, count, follow);
        line.append("}");
        line
    }
}

/// The views of the summaries.
pub open spec fn socket_views(events: Seq<SocketdumpSummary>) -> Seq<SocketSummaryView> {
    Seq::new(events.len(), |i: int| events[i]@)
}

/// The socket events as text lines.
pub open spec fn socketdump_text(events: Seq<SocketSummaryView>, verbose: bool, device_path: Seq<char>, count: u64, follow: bool) -> Seq<char> {
    joined(Seq::new(events.len(), |i: int| socketdump_line(events[i], verbose, device_path, count, follow)), seq!['\n'])
}

/// The socket events as a JSON result.
pub open spec fn socketdump_json(events: Seq<SocketSummaryView>, verbose: bool, device_path: Seq<char>, count: u64, follow: bool) -> Seq<char> {
    stream_result_json(
        "{\"command\":\"socketdump\",\"status\":\"ok\","@,
        Seq::new(events.len(), |i: int| socketdump_members(events[i], verbose, device_path, count, follow)),
    )
}

/// Renders the socket events as text lines.
pub fn render_text(events: &Vec<SocketdumpSummary>, verbose: bool, device_path: &str, count: u64, follow: bool) -> (s: String)
    ensures
        s@ == socketdump_text(socket_views(events@), verbose, device_path@, count, follow),
{
    let mut lines: Vec<String> = Vec::new();
    let mut i: usize = 0;
    while i < events.len()
        invariant
            i <= events@.len(),
            lines@.len() == i,
            forall|k: int| 0 <= k < i ==> (#[trigger] lines@[k])@ == socketdump_line(events@[k]@, verbose, device_path@, count, follow),
        decreases events@.len() - i,
    {
        lines.push(events[i].render_text(verbose, device_path, count, follow));
        i = i + 1;
    }
    let s = join_lines(&lines);
    assert(string_views(lines@) =~= Seq::new(events@.len(), |k: int| socketdump_line(socket_views(events@)[k], verbose, device_path@, count, follow)));
    s
}

/// Renders the socket events as a JSON result.
pub fn render_json(events: &Vec<SocketdumpSummary>, verbose: bool, device_path: &str, count: u64, follow: bool) -> (s: String)
    ensures
        s@ == socketdump_json(socket_views(events@), verbose, device_path@, count, follow),
{
    let mut bodies: Vec<String> = Vec::new();
    let mut i: usize = 0;
    while i < events.len()
        invariant
            i <= events@.len(),
            bodies@.len() == i,
            forall|k: int| 0 <= k < i ==> (#[trigger] bodies@[k])@ == socketdump_members(events@[k]@, verbose, device_path@, count, follow),
        decreases events@.len() - i,
    {
        bodies.push(events[i].render_json_members(verbose, device_path, count, follow));
        i = i + 1;
    }
    let s = render_stream_json("{\"command\":\"socketdump\",\"status\":\"ok\",", &bodies);
    assert(string_views(bodies@) =~= Seq::new(events@.len(), |k: int| socketdump_members(socket_views(events@)[k], verbose, device_path@, count, follow)));
    s
}

/// The verdict on the arguments, before the device is reached; on success
/// the engine the filter compiles to on the Socket layer.
pub open spec fn socketdump_arguments(cmd: SocketdumpCmd) -> Result<EngineView, CliErrorView> {
    match socketdump_count_verdict(cmd.count, cmd.follow) {
        Err(e) => Err(e),
        Ok(()) => match spec_engine_compile(Layer::Socket, cmd.filter@) {
            Err(m) => Err(CliErrorView {
                command: "socketdump"@,
                code: 2,
                category: "argument_error"@,
                message: "invalid socket filter: "@ + m,
                suggestion: "use runtime-supported socket predicates such as event == CONNECT"@,
            }),
            Ok(engine) => if cmd.timeout_ms == 0 {
                Err(runtime_cli_error("socketdump"@, io_failure_view("timeout-ms must be greater than 0"@)))
            } else {
                Ok(engine)
            },
        },
    }
}

/// Whether `v` is what `cmd` keeps of some received buffer: a socket event
/// of the requested process that the command's filter accepts, stamped
/// with some capture time.
pub open spec fn kept_event(cmd: SocketdumpCmd, device_path: Seq<char>, v: SocketSummaryView) -> bool {
    exists|raw: Seq<u8>, t: Result<Seq<char>, RuntimeErrorView>|
        #[trigger] socket_summary_of(device_path, raw, cmd.process_id, socketdump_arguments(cmd)->Ok_0, t)
            == Ok::<Option<SocketSummaryView>, CliErrorView>(Some(v))
}

impl SocketdumpCmd {
    /// Runs `socketdump` against `transport`: checks the arguments and
    /// compiles the filter for the Socket layer, probes the device (a
    /// missing one is reported), opens a socket handle and a session,
    /// receives until `count` socket events of the requested process that
    /// the filter accepts have arrived, closes the session and renders
    /// them, every step under the time budget. The transport decides
    /// whether the steps succeed; a refused argument is reported before it
    /// is reached. Receiving stops, as a failure, after `u64::MAX` frames.
    #[verifier::loop_isolation(false)]
    pub fn execute_with_transport<T: RuntimeTransport>(self, transport: T) -> (r: Result<String, CliError>)
        ensures
            socketdump_arguments(self) matches Err(e) ==> (r matches Err(x) && x@ == e),
            socketdump_arguments(self) is Ok ==> (r matches Err(x) ==> is_runtime_failure("socketdump"@, x@)),
            r matches Ok(line) ==> exists|events: Seq<SocketSummaryView>, device_path: Seq<char>|
                events.len() == self.count as usize && #[trigger] line@ == (if self.json {
                    socketdump_json(events, self.verbose, device_path, self.count, self.follow)
                } else {
                    socketdump_text(events, self.verbose, device_path, self.count, self.follow)
                }) && (self.process_id matches Some(p) ==> forall|i: int| 0 <= i < events.len() ==> events[i].process_id == p)
                && forall|i: int| 0 <= i < events.len() ==> #[trigger] kept_event(self, device_path, events[i]),
    {
        let ghost this = self;
        let SocketdumpCmd { filter, process_id, count, follow, json, verbose, timeout_ms } = self;
        match validate_count(count, follow) {
            Ok(()) => {},
            Err(e) => return Err(e),
        }
        let engine = match FilterEngine::compile(Layer::Socket, filter.as_str()) {
            Ok(e) => e,
            Err(err) => {
                let mut m = "invalid socket filter: ".to_owned();
                let text = err.to_string();
                m.append(text.as_str());
                return Err(CliError::argument_error(
                    "socketdump",
                    m.as_str(),
                    "use runtime-supported socket predicates such as event == CONNECT",
                ));
            },
        };
        let budget = match TimeoutBudget::new("socketdump", timeout_ms) {
            Ok(b) => b,
            Err(e) => return Err(map_runtime_error("socketdump", e)),
        };
        let open_config = RuntimeOpenConfig::socket();

        if let Err(e) = budget.check("probe") {
            return Err(map_runtime_error("socketdump", e));
        }
        let availability = match transport.probe() {
            Ok(a) => a,
            Err(e) => return Err(map_runtime_error("socketdump", e)),
        };
        if let Err(e) = budget.check("probe") {
            return Err(map_runtime_error("socketdump", e));
        }
        if let DeviceAvailability::Missing = availability {
            return Err(map_runtime_error("socketdump", RuntimeError::device_unavailable(default_device_path())));
        }

        if let Err(e) = budget.check("open") {
            return Err(map_runtime_error("socketdump", e));
        }
        let probe = match transport.open(&open_config) {
            Ok(p) => p,
            Err(e) => return Err(map_runtime_error("socketdump", e)),
        };
        if let Err(e) = budget.check("open") {
            return Err(map_runtime_error("socketdump", e));
        }
        if let Err(e) = budget.check("open_session") {
            return Err(map_runtime_error("socketdump", e));
        }
        let mut session = match transport.open_session(&open_config) {
            Ok(s) => s,
            Err(e) => return Err(map_runtime_error("socketdump", e)),
        };
        if let Err(e) = budget.check("open_session") {
            return Err(map_runtime_error("socketdump", e));
        }

        let device_path = probe.device_path.as_str();
        let wanted = count as usize;
        let mut matches: Vec<SocketdumpSummary> = Vec::new();
        let mut frames: u64 = 0;
        while matches.len() < wanted
            invariant
                matches@.len() <= wanted,
                process_id matches Some(p) ==> forall|i: int| 0 <= i < matches@.len() ==> matches@[i].process_id == p,
                forall|i: int| 0 <= i < matches@.len() ==> #[trigger] kept_event(this, device_path@, matches@[i]@),
            decreases u64::MAX - frames,
        {
            if frames == u64::MAX {
                let m = "socketdump recv gave up after the frame counter's limit without enough matching events".to_owned();
                return Err(map_runtime_error("socketdump", RuntimeError::io_failure(m)));
            }
            frames = frames + 1;
            if let Err(e) = budget.check("recv") {
                return Err(map_runtime_error("socketdump", e));
            }
            let raw = match session.recv_one(MAX_RECV_BYTES) {
                Ok(raw) => raw,
                Err(e) => return Err(map_runtime_error("socketdump", e)),
            };
            if let Err(e) = budget.check("recv") {
                return Err(map_runtime_error("socketdump", e));
            }
            match decode_socket_summary(device_path, raw.as_slice(), process_id, &engine) {
                Ok(Some(s)) => {
                    assert(kept_event(this, device_path@, s@));
                    matches.push(s);
                },
                Ok(None) => {},
                Err(e) => return Err(e),
            }
        }

        if let Err(e) = budget.check("close_session") {
            return Err(map_runtime_error("socketdump", e));
        }
        match session.close() {
            Ok(()) => {},
            Err(e) => return Err(map_runtime_error("socketdump", e)),
        }
        if let Err(e) = budget.check("close_session") {
            return Err(map_runtime_error("socketdump", e));
        }

        let line = if json {
            render_json(&matches, verbose, device_path, count, follow)
        } else {
            render_text(&matches, verbose, device_path, count, follow)
        };
        assert(socket_views(matches@).len() == count as usize);
        Ok(line)
    }
}

} // verus!
