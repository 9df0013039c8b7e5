//! `reflectctl`: probe the device and open or close a reflect handle.
use vstd::prelude::*;
use vstd::string::StringExecFns;
use crate::cli::cmd::budget::TimeoutBudget;
use crate::cli::cmd::common::{decimal_text, field_views, render_summary, summary_fields};
use crate::cli::error::{CliError, CliErrorView};
use crate::cli::output::{json_escape, push_json_escaped};
use crate::cli::runtime::{map_runtime_error, runtime_cli_error};
use crate::text::{decimal, push_decimal};
use crate::user::device::{default_device_path, DeviceAvailability};
use crate::user::runtime::{
    io_failure_view, RuntimeError, RuntimeErrorView, RuntimeOpenConfig, RuntimeProbe, RuntimeTransport,
};

verus! {

/// What `reflectctl` does.
#[derive(Debug, Clone, Copy, PartialEq, Eq, Structural)]
pub enum ReflectAction {
    Probe,
    Open,
    Close,
    Capabilities,
    State,
}

/// The name of an action.
pub open spec fn action_text(action: ReflectAction) -> Seq<char> {
    match action {
        ReflectAction::Probe => "probe"@,
        ReflectAction::Open => "open"@,
        ReflectAction::Close => "close"@,
        ReflectAction::Capabilities => "capabilities"@,
        ReflectAction::State => "state"@,
    }
}

impl ReflectAction {
    /// The action's name.
    pub fn as_str(self) -> (s: &'static str)
        ensures
            s@ == action_text(self),
    {
        match self {
            ReflectAction::Probe => "probe",
            ReflectAction::Open => "open",
            ReflectAction::Close => "close",
            ReflectAction::Capabilities => "capabilities",
            ReflectAction::State => "state",
        }
    }
}

/// The arguments of `reflectctl`.
#[derive(Debug)]
pub struct ReflectctlCmd {
    pub action: ReflectAction,
    pub json: bool,
    pub verbose: bool,
    pub timeout_ms: u64,
}

/// What `reflectctl` reports on success.
#[derive(Debug)]
pub struct ReflectSuccess {
    pub device: &'static str,
    pub capabilities: Option<u32>,
    pub protocol: Option<String>,
    pub state: &'static str,
    pub action: &'static str,
    pub timeout_ms: u64,
    pub verbose: bool,
}

/// A success report as plain values.
pub struct ReflectView {
    pub device: Seq<char>,
    pub capabilities: Option<u32>,
    pub protocol: Option<Seq<char>>,
    pub state: Seq<char>,
    pub action: Seq<char>,
    pub timeout_ms: u64,
    pub verbose: bool,
}

impl View for ReflectSuccess {
    type V = ReflectView;

    open spec fn view(&self) -> ReflectView {
        ReflectView {
            device: self.device@,
            capabilities: self.capabilities,
            protocol: match self.protocol {
                Some(p) => Some(p@),
                None => None,
            },
            state: self.state@,
            action: self.action@,
            timeout_ms: self.timeout_ms,
            verbose: self.verbose,
        }
    }
}

/// The protocol version a probe reported, as `major.minor`, when it
/// reported both parts.
pub open spec fn protocol_text(major: Option<u16>, minor: Option<u16>) -> Option<Seq<char>> {
    match (major, minor) {
        (Some(a), Some(b)) => Some(decimal(a as nat) + "."@ + decimal(b as nat)),
        _ => None,
    }
}

/// The protocol version a probe reported, as `major.minor`.
pub fn format_protocol(probe: &RuntimeProbe) -> (r: Option<String>)
    ensures
        match protocol_text(probe.protocol_major, probe.protocol_minor) {
            Some(t) => r matches Some(s) && s@ == t,
            None => r is None,
        },
{
    match (probe.protocol_major, probe.protocol_minor) {
        (Some(major), Some(minor)) => {
            let mut s = String::new();
            push_decimal(&mut s, major as u64);
            s.append(".");
            push_decimal(&mut s, minor as u64);
            assert(s@ =~= decimal(major as nat) + "."@ + decimal(minor as nat));
            Some(s)
        },
        _ => None,
    }
}

/// The fields of a success report.
pub open spec fn reflect_fields(v: ReflectView) -> Seq<(Seq<char>, Seq<char>)> {
    seq![
        ("device"@, v.device),
        ("capabilities"@, match v.capabilities {
            Some(c) => decimal(c as nat),
            None => "unknown"@,
        }),
        ("protocol"@, match v.protocol {
            Some(p) => p,
            None => "unknown"@,
        }),
        ("state"@, v.state),
    ] + if v.verbose {
        seq![("action"@, v.action), ("timeout_ms"@, decimal(v.timeout_ms as nat))]
    } else {
        Seq::empty()
    }
}

/// A success report as a text line.
pub open spec fn reflect_text(v: ReflectView) -> Seq<char> {
    "REFLECTCTL OK"@ + summary_fields(reflect_fields(v))
}

/// A success report as a JSON object.
pub open spec fn reflect_json(v: ReflectView) -> Seq<char> {
    "{\"command\":\"reflectctl\",\"status\":\"ok\",\"device\":\""@ + json_escape(v.device) + "\",\"capabilities\":"@
        + match v.capabilities {
        Some(c) => decimal(c as nat),
        None => "null"@,
    } + ",\"protocol\":"@ + match v.protocol {
        Some(p) => "\""@ + json_escape(p) + "\""@,
        None => "null"@,
    } + ",\"state\":\""@ + json_escape(v.state) + "\""@ + if v.verbose {
        ",\"action\":\""@ + json_escape(v.action) + "\",\"timeout_ms\":"@ + decimal(v.timeout_ms as nat)
    } else {
        Seq::empty()
    } + "}"@
}

impl ReflectSuccess {
    /// The device answered a probe.
    pub fn probed(action: ReflectAction, timeout_ms: u64, verbose: bool) -> (s: ReflectSuccess)
        ensures
            s@ == (ReflectView {
                device: "ready"@,
                capabilities: None,
                protocol: None,
                state: "Probed"@,
                action: action_text(action),
                timeout_ms,
                verbose,
            }),
    {
        ReflectSuccess {
            device: "ready",
            capabilities: None,
            protocol: None,
            state: "Probed",
            action: action.as_str(),
            timeout_ms,
            verbose,
        }
    }

    /// A handle was opened and reported `probe`; `state` names where it
    /// stands.
    pub fn from_probe(
        action: ReflectAction,
        timeout_ms: u64,
        verbose: bool,
        probe: RuntimeProbe,
        state: &'static str,
    ) -> (s: ReflectSuccess)
        ensures
            s@ == (ReflectView {
                device: "ready"@,
                capabilities: probe.capabilities,
                protocol: protocol_text(probe.protocol_major, probe.protocol_minor),
                state: state@,
                action: action_text(action),
                timeout_ms,
                verbose,
            }),
    {
        let protocol = format_protocol(&probe);
        ReflectSuccess {
            device: "ready",
            capabilities: probe.capabilities,
            protocol,
            state,
            action: action.as_str(),
            timeout_ms,
            verbose,
        }
    }

    /// The report as a summary line.
    pub fn render_text(&self) -> (line: String)
        ensures
            line@ == reflect_text(self@),
    {
        let mut fields: Vec<(&str, String)> = Vec::new();
        fields.push(("device", self.device.to_owned()));
        let caps = match self.capabilities {
            Some(c) => decimal_text(c as u64),
            None => "unknown".to_owned(),
        };
        fields.push(("capabilities", caps));
        let protocol = match &self.protocol {
            Some(p) => p.clone(),
            None => "unknown".to_owned(),
        };
        fields.push(("protocol", protocol));
        fields.push(("state", self.state.to_owned()));
        if self.verbose {
            fields.push(("action", self.action.to_owned()));
            fields.push(("timeout_ms", decimal_text(self.timeout_ms)));
        }
        assert(field_views(fields@) =~= reflect_fields(self@));
        render_summary("REFLECTCTL OK", fields.as_slice())
    }

    /// The report as a JSON object.
    pub fn render_json(&self) -> (line: String)
        ensures
            line@ == reflect_json(self@),
    {
        let mut line = "{\"command\":\"reflectctl\",\"status\":\"ok\",\"device\":\"".to_owned();
        push_json_escaped(&mut line, self.device);
        line.append("\",\"capabilities\":");
        match self.capabilities {
            Some(c) => push_decimal(&mut line, c as u64),
            None => line.append("null"),
        }
        line.append(",\"protocol\":");
        match &self.protocol {
            Some(p) => {
                line.append("\"");
                push_json_escaped(&mut line, p.as_str());
                line.append("\"");
            },
            None => line.append("null"),
        }
        line.append(",\"state\":\"");
        push_json_escaped(&mut line, self.state);
        line.append("\"");
        if self.verbose {
            line.append(",\"action\":\"");
            push_json_escaped(&mut line, self.action);
            line.append("\",\"timeout_ms\":");
            push_decimal(&mut line, self.timeout_ms);
        }
        line.append("}");
        assert(line@ =~= reflect_json(self@));
        line
    }
}

/// The error `reflectctl` reports for a runtime error: in verbose mode
/// the message names the action and the budget.
pub open spec fn reflect_error(action: ReflectAction, timeout_ms: u64, verbose: bool, err: RuntimeErrorView) -> CliErrorView {
    let base = runtime_cli_error("reflectctl"@, err);
    if verbose {
        CliErrorView {
            message: base.message + " [action="@ + action_text(action) + ", timeout_ms="@ + decimal(timeout_ms as nat) + "]"@,
            ..base
        }
    } else {
        base
    }
}

/// Reports a runtime error as `reflectctl`'s, with the action and the
/// budget in verbose mode.
pub fn map_runtime_error_with_context(action: ReflectAction, timeout_ms: u64, verbose: bool, err: RuntimeError) -> (e: CliError)
    ensures
        e@ == reflect_error(action, timeout_ms, verbose, err@),
{
    let mut cli_error = map_runtime_error("reflectctl", err);
    if verbose {
        let mut m = cli_error.message.clone();
        m.append(" [action=");
        m.append(action.as_str());
        m.append(", timeout_ms=");
        push_decimal(&mut m, timeout_ms);
        m.append("]");
        cli_error.message = m;
    }
    cli_error
}

/// The state a successful action reports.
pub open spec fn reflect_state(action: ReflectAction) -> Seq<char> {
    match action {
        ReflectAction::Probe => "Probed"@,
        ReflectAction::Close => "CloseAttempted"@,
        _ => "Open"@,
    }
}

/// Whether `v` is a success report of `cmd`: the device is ready, the
/// state follows the action, and a probe reports neither capabilities nor
/// protocol.
pub open spec fn reflect_report(cmd: ReflectctlCmd, v: ReflectView) -> bool {
    &&& v.device == "ready"@
    &&& v.state == reflect_state(cmd.action)
    &&& v.action == action_text(cmd.action)
    &&& v.timeout_ms == cmd.timeout_ms
    &&& v.verbose == cmd.verbose
    &&& cmd.action == ReflectAction::Probe ==> v.capabilities is None && v.protocol is None
}

impl ReflectctlCmd {
    /// Runs `reflectctl` against `transport`: starts the budget (zero is
    /// refused), probes the device (a missing one is reported); then probe
    /// reports the device ready, close opens a reflect handle and asks the
    /// transport to close, and the other actions open a reflect handle and
    /// report what it said. Every step runs under the time budget; every
    /// error carries the action and budget in verbose mode. The transport
    /// decides whether the steps succeed.
    pub fn execute_with_transport<T: RuntimeTransport>(self, transport: T) -> (r: Result<String, CliError>)
        ensures
            self.timeout_ms == 0 ==> (r matches Err(x) && x@ == reflect_error(
                self.action,
                self.timeout_ms,
                self.verbose,
                io_failure_view("timeout-ms must be greater than 0"@),
            )),
            r matches Err(x) ==> exists|e: RuntimeErrorView|
                x@ == #[trigger] reflect_error(self.action, self.timeout_ms, self.verbose, e),
            r matches Ok(line) ==> exists|v: ReflectView|
                reflect_report(self, v) && #[trigger] line@ == (if self.json {
                    reflect_json(v)
                } else {
                    reflect_text(v)
                }),
    {
        let ReflectctlCmd { action, json, verbose, timeout_ms } = self;
        let budget = match TimeoutBudget::new("reflectctl", timeout_ms) {
            Ok(b) => b,
            Err(e) => return Err(map_runtime_error_with_context(action, timeout_ms, verbose, e)),
        };
        let open_config = RuntimeOpenConfig::reflect();

        if let Err(e) = budget.check("probe") {
            return Err(map_runtime_error_with_context(action, timeout_ms, verbose, e));
        }
        let availability = match transport.probe() {
            Ok(a) => a,
            Err(e) => return Err(map_runtime_error_with_context(action, timeout_ms, verbose, e)),
        };
        if let Err(e) = budget.check("probe") {
            return Err(map_runtime_error_with_context(action, timeout_ms, verbose, e));
        }
        if let DeviceAvailability::Missing = availability {
            return Err(map_runtime_error_with_context(
                action,
                timeout_ms,
                verbose,
                RuntimeError::device_unavailable(default_device_path()),
            ));
        }

        let success = match action {
            ReflectAction::Probe => ReflectSuccess::probed(action, timeout_ms, verbose),
            ReflectAction::Open | ReflectAction::Capabilities | ReflectAction::State => {
                if let Err(e) = budget.check("open") {
                    return Err(map_runtime_error_with_context(action, timeout_ms, verbose, e));
                }
                let probe = match transport.open(&open_config) {
                    Ok(p) => p,
                    Err(e) => return Err(map_runtime_error_with_context(action, timeout_ms, verbose, e)),
                };
                if let Err(e) = budget.check("open") {
                    return Err(map_runtime_error_with_context(action, timeout_ms, verbose, e));
                }
                ReflectSuccess::from_probe(action, timeout_ms, verbose, probe, "Open")
            },
            ReflectAction::Close => {
                if let Err(e) = budget.check("open") {
                    return Err(map_runtime_error_with_context(action, timeout_ms, verbose, e));
                }
                let probe = match transport.open(&open_config) {
                    Ok(p) => p,
                    Err(e) => return Err(map_runtime_error_with_context(action, timeout_ms, verbose, e)),
                };
                if let Err(e) = budget.check("open") {
                    return Err(map_runtime_error_with_context(action, timeout_ms, verbose, e));
                }
                if let Err(e) = budget.check("close") {
                    return Err(map_runtime_error_with_context(action, timeout_ms, verbose, e));
                }
                match transport.close() {
                    Ok(()) => {},
                    Err(e) => return Err(map_runtime_error_with_context(action, timeout_ms, verbose, e)),
                }
                if let Err(e) = budget.check("close") {
                    return Err(map_runtime_error_with_context(action, timeout_ms, verbose, e));
                }
                ReflectSuccess::from_probe(action, timeout_ms, verbose, probe, "CloseAttempted")
            },
        };
        let line = if json {
            success.render_json()
        } else {
            success.render_text()
        };
        assert(reflect_report(self, success@));
        Ok(line)
    }
}

} // verus!
