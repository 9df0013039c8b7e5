use wd_rust::cli::cmd::budget::{budget_verdict, timestamp_from_clock, TimeoutBudget};
use wd_rust::cli::cmd::common::{escape_summary_value, is_summary_value_safe, render_summary};
use wd_rust::cli::cmd::netdump::{self, summarize_event, validate_filter, NetdumpEventSummary};
use wd_rust::cli::cmd::netfilter::{
    self, render_reinject, render_validate, runtime_layer_name, summarize_reinject, NetfilterMode,
};
use wd_rust::cli::cmd::reflectctl::{
    format_protocol, map_runtime_error_with_context, ReflectAction, ReflectSuccess,
};
use wd_rust::cli::cmd::flowtrack::FlowtrackSummary;
use wd_rust::cli::cmd::socketdump::SocketdumpSummary;
use wd_rust::cli::error::CliError;
use wd_rust::cli::fixtures;
use wd_rust::cli::output::{escape_json_string, nibble_to_hex, render_error_json, render_error_text, OutputMode};
use wd_rust::cli::runtime::map_runtime_error;
use wd_rust::proto::{
    encode_network_event_payload, encode_runtime_event, encode_runtime_send_request, FlowEventKind, Layer,
    SocketEventKind,
};
use wd_rust::user::runtime::{RuntimeError, RuntimeProbe};

const DEVICE: &str = r"\\.\WdRust";

fn netdump_summary(ttl: u8, checksum: u16, packet_len: usize, timestamp: &str) -> NetdumpEventSummary {
    NetdumpEventSummary {
        ttl,
        checksum,
        packet_len,
        timestamp: timestamp.to_string(),
    }
}

#[test]
fn summary_line_quotes_only_unsafe_values() {
    let line = render_summary(
        "X OK",
        &[("a", "plain".to_string()), ("b", "two words".to_string()), ("c", "tab\there".to_string())],
    );
    assert_eq!(line, "X OK a=plain b=\"two words\" c=\"tab\\there\"");
    assert!(is_summary_value_safe("alpha-01"));
    assert!(!is_summary_value_safe(""));
    assert!(!is_summary_value_safe("a b"));
    assert!(!is_summary_value_safe("a\u{85}b"));
    assert_eq!(escape_summary_value("q\"\\\r"), "q\\\"\\\\\\r");
}

#[test]
fn json_escape_writes_control_characters_as_unicode_escapes() {
    assert_eq!(escape_json_string("a\u{1}b\u{1f}"), "a\\u0001b\\u001f");
    assert_eq!(escape_json_string("é\u{7f}"), "é\u{7f}");
    assert_eq!(nibble_to_hex(11), 'b');
    assert_eq!(nibble_to_hex(9), '9');
    assert_eq!(OutputMode::from_json_flag(true), OutputMode::Json);
    assert_eq!(OutputMode::from_json_flag(false), OutputMode::Text);
}

#[test]
fn error_lines_render_every_field_exactly() {
    let err = map_runtime_error("netdump", RuntimeError::io_failure("boom".to_string()));
    assert_eq!(
        render_error_text(&err),
        "NETDUMP ERROR code=6 category=io_failure message=boom suggestion=retry the command and inspect verbose diagnostics"
    );
    assert_eq!(
        render_error_json(&err),
        "{\"command\":\"netdump\",\"status\":\"error\",\"code\":6,\"category\":\"io_failure\",\"message\":\"boom\",\"suggestion\":\"retry the command and inspect verbose diagnostics\"}"
    );
    let arg = CliError::argument_error("netfilter", "bad", "fix it");
    assert_eq!(arg.code, 2);
    assert_eq!(arg.category, "argument_error");
}

#[test]
fn netdump_summary_renders_text_and_json_exactly() {
    let summary = summarize_event(DEVICE, &fixtures::ipv4_frame(), Ok("123".to_string()))
        .expect("fixture frame should summarize");
    assert_eq!(summary.ttl, 64);
    assert_eq!(summary.checksum, 0x9c93);
    assert_eq!(summary.packet_len, 20);

    let events = vec![summary];
    assert_eq!(
        netdump::render_text(&events, false, DEVICE, 1, false),
        "NETDUMP OK layer=NETWORK ttl=64 checksum=0x9c93 packet_len=20 timestamp=123"
    );
    assert_eq!(
        netdump::render_json(&events, false, DEVICE, 1, false),
        "{\"command\":\"netdump\",\"status\":\"ok\",\"layer\":\"NETWORK\",\"ttl\":64,\"checksum\":\"0x9c93\",\"packet_len\":20,\"timestamp\":\"123\"}"
    );
    assert_eq!(
        netdump::render_text(&events, true, DEVICE, 1, false),
        "NETDUMP OK layer=NETWORK ttl=64 checksum=0x9c93 packet_len=20 timestamp=123 device_path=\"\\\\\\\\.\\\\WdRust\" count=1 follow=false"
    );
}

#[test]
fn netdump_json_lists_several_events_in_an_array() {
    let events = vec![netdump_summary(1, 0x0a, 20, "5"), netdump_summary(2, 0xbeef, 21, "6")];
    assert_eq!(
        netdump::render_json(&events, false, DEVICE, 2, true),
        "{\"command\":\"netdump\",\"status\":\"ok\",\"events\":[{\"layer\":\"NETWORK\",\"ttl\":1,\"checksum\":\"0x000a\",\"packet_len\":20,\"timestamp\":\"5\"},{\"layer\":\"NETWORK\",\"ttl\":2,\"checksum\":\"0xbeef\",\"packet_len\":21,\"timestamp\":\"6\"}]}"
    );
    assert_eq!(
        netdump::render_text(&events, false, DEVICE, 2, true),
        "NETDUMP OK layer=NETWORK ttl=1 checksum=0x000a packet_len=20 timestamp=5\nNETDUMP OK layer=NETWORK ttl=2 checksum=0xbeef packet_len=21 timestamp=6"
    );
}

#[test]
fn netdump_decoding_failures_name_the_device() {
    let err = summarize_event(DEVICE, &[0u8; 8], Ok("1".to_string())).expect_err("short frame should fail");
    assert_eq!(err.code, 6);
    assert_eq!(
        err.message,
        "failed to decode runtime frame from \\\\.\\WdRust: frame too short for ipv4 header"
    );
    let err = summarize_event(DEVICE, &fixtures::ipv4_frame(), Err(RuntimeError::io_failure("clock".to_string())))
        .expect_err("a failed clock reading should fail");
    assert_eq!(err.message, "clock");
    assert_eq!(err.command, "netdump");
}

#[test]
fn netdump_refuses_a_filter_unless_blank() {
    assert!(validate_filter(None).is_ok());
    assert!(validate_filter(Some(" \t ")).is_ok());
    let err = validate_filter(Some("tcp")).expect_err("a filter is not supported");
    assert_eq!(err.message, "runtime netdump filtering is not implemented yet");
    assert_eq!(err.suggestion, "omit --filter for runtime capture");
}

#[test]
fn netfilter_count_rules_match_each_mode() {
    let err = netfilter::validate_count(0, false, NetfilterMode::Observe).expect_err("zero count");
    assert_eq!(err.message, "count must be greater than 0");
    let err = netfilter::validate_count(2, false, NetfilterMode::Validate).expect_err("validate takes one");
    assert_eq!(
        err.message,
        "validate and reinject modes do not accept streaming count/follow semantics"
    );
    let err = netfilter::validate_count(1, true, NetfilterMode::Reinject).expect_err("reinject does not follow");
    assert_eq!(err.suggestion, "omit --count/--follow outside observe mode");
    let err = netfilter::validate_count(3, false, NetfilterMode::Observe).expect_err("observe needs follow");
    assert_eq!(err.message, "count greater than 1 requires --follow in observe mode");
    assert!(netfilter::validate_count(3, true, NetfilterMode::Observe).is_ok());
}

#[test]
fn netfilter_validate_and_reinject_render_exactly() {
    assert_eq!(
        render_validate("tcp", 42, false, DEVICE, 5000, true),
        "{\"command\":\"netfilter\",\"status\":\"ok\",\"mode\":\"validate\",\"filter\":\"tcp\",\"layer\":\"NETWORK\",\"ir_bytes\":42}"
    );
    assert_eq!(
        render_validate("tcp and inbound", 42, false, DEVICE, 5000, false),
        "NETFILTER OK mode=validate layer=NETWORK filter=\"tcp and inbound\" ir_bytes=42"
    );

    let frame = encode_runtime_event(
        Layer::NetworkForward,
        &encode_network_event_payload(9, &fixtures::ipv4_frame()),
    );
    let packet = summarize_reinject(DEVICE, &frame, Ok("77".to_string())).expect("frame carries a token");
    assert_eq!(packet.layer, Layer::NetworkForward);
    assert_eq!(packet.reinjection_token, 9);
    assert_eq!(packet.packet_bytes, fixtures::ipv4_frame());
    assert_eq!(runtime_layer_name(Layer::NetworkForward), "NETWORK_FORWARD");
    assert_eq!(
        render_reinject("tcp", &packet, true, "dev", 10, false),
        "NETFILTER OK mode=reinject filter=tcp layer=NETWORK_FORWARD reinjection_token=9 ttl=64 checksum=0x9c93 packet_len=20 timestamp=77 device_path=dev timeout_ms=10"
    );
    assert_eq!(
        render_reinject("tcp", &packet, false, "dev", 10, true),
        "{\"command\":\"netfilter\",\"status\":\"ok\",\"mode\":\"reinject\",\"filter\":\"tcp\",\"layer\":\"NETWORK_FORWARD\",\"reinjection_token\":9,\"ttl\":64,\"checksum\":\"0x9c93\",\"packet_len\":20,\"timestamp\":\"77\"}"
    );
}

#[test]
fn netfilter_reinject_needs_a_reinjection_token() {
    let err = summarize_reinject(DEVICE, &fixtures::ipv4_frame(), Ok("1".to_string()))
        .expect_err("a bare packet carries no token");
    assert_eq!(
        err.message,
        "decoded runtime packet from \\\\.\\WdRust did not include a reinjection token"
    );
}

#[test]
fn timeout_budget_reports_elapsed_and_budget_in_milliseconds() {
    let err = budget_verdict("netdump", "recv", 2_500_999_999, 1_000).expect_err("over budget");
    assert_eq!(err.message(), "netdump recv exceeded timeout budget (elapsed=2500ms timeout=1000ms)");
    assert_eq!(err.code(), 6);
    assert!(budget_verdict("netdump", "recv", 1_000_000_000, 1_000).is_ok());

    let err = TimeoutBudget::new("reflectctl", 0).err().expect("zero budget is refused");
    assert_eq!(err.message(), "timeout-ms must be greater than 0");
    let budget = TimeoutBudget::new("reflectctl", 60_000).ok().expect("budget starts");
    assert!(budget.check("probe").is_ok());
}

#[test]
fn timestamps_are_decimal_milliseconds() {
    assert_eq!(timestamp_from_clock(Ok(1_700_000_000_123)).expect("reading"), "1700000000123");
    let err = timestamp_from_clock(Err("before".to_string())).expect_err("clock before epoch");
    assert_eq!(err.message(), "system clock before unix epoch: before");
}

#[test]
fn reflectctl_reports_render_exactly() {
    let probed = ReflectSuccess::probed(ReflectAction::Probe, 5000, false);
    assert_eq!(
        probed.render_json(),
        "{\"command\":\"reflectctl\",\"status\":\"ok\",\"device\":\"ready\",\"capabilities\":null,\"protocol\":null,\"state\":\"Probed\"}"
    );
    assert_eq!(
        probed.render_text(),
        "REFLECTCTL OK device=ready capabilities=unknown protocol=unknown state=Probed"
    );

    let probe = RuntimeProbe {
        device_path: DEVICE.to_string(),
        capabilities: Some(31),
        protocol_major: Some(0),
        protocol_minor: Some(1),
    };
    assert_eq!(format_protocol(&probe), Some("0.1".to_string()));
    let opened = ReflectSuccess::from_probe(ReflectAction::State, 250, true, probe, "Open");
    assert_eq!(
        opened.render_json(),
        "{\"command\":\"reflectctl\",\"status\":\"ok\",\"device\":\"ready\",\"capabilities\":31,\"protocol\":\"0.1\",\"state\":\"Open\",\"action\":\"state\",\"timeout_ms\":250}"
    );
    assert_eq!(ReflectAction::Capabilities.as_str(), "capabilities");
}

#[test]
fn reflectctl_verbose_errors_name_action_and_budget() {
    let err = map_runtime_error_with_context(
        ReflectAction::Open,
        5000,
        true,
        RuntimeError::open_failed("denied".to_string()),
    );
    assert_eq!(err.message, "denied [action=open, timeout_ms=5000]");
    assert_eq!(err.code, 4);
    let quiet = map_runtime_error_with_context(
        ReflectAction::Open,
        5000,
        false,
        RuntimeError::open_failed("denied".to_string()),
    );
    assert_eq!(quiet.message, "denied");
}

#[test]
fn documented_success_lines_render_exactly() {
    let probe = RuntimeProbe {
        device_path: DEVICE.to_string(),
        capabilities: Some(31),
        protocol_major: Some(0),
        protocol_minor: Some(1),
    };
    let opened = ReflectSuccess::from_probe(ReflectAction::Open, 5000, false, probe, "Open");
    assert_eq!(opened.render_text(), "REFLECTCTL OK device=ready capabilities=31 protocol=0.1 state=Open");

    let socket = SocketdumpSummary {
        event: SocketEventKind::Connect,
        process_id: 7,
        matched: true,
        timestamp: "1744165948456".to_string(),
    };
    assert_eq!(
        socket.render_text(false, DEVICE, 1, false),
        "SOCKETDUMP OK event=CONNECT process_id=7 matched=true timestamp=1744165948456"
    );

    let flow = FlowtrackSummary {
        event: FlowEventKind::Established,
        flow_id: 65261,
        process_id: 42,
        timestamp: "1744165948799".to_string(),
    };
    assert_eq!(
        flow.render_text(false, DEVICE, 1, false),
        "FLOWTRACK OK event=ESTABLISHED flow_id=65261 process_id=42 timestamp=1744165948799"
    );
}

#[test]
fn reinject_request_hands_back_the_received_packet() {
    let frame = encode_runtime_event(Layer::Network, &encode_network_event_payload(101, &fixtures::ipv4_frame()));
    let (packet, request) = netfilter::reinject_request_for(DEVICE, &frame).expect("a tokened network frame");
    assert_eq!(packet.reinjection_token, 101);
    assert_eq!(packet.layer, Layer::Network);
    assert_eq!(packet.packet_bytes, fixtures::ipv4_frame());
    assert_eq!(request, encode_runtime_send_request(Layer::Network, 101, &fixtures::ipv4_frame()));

    let untokened = encode_runtime_event(Layer::Socket, &[0u8; 12]);
    let err = netfilter::reinject_request_for(DEVICE, &untokened).expect_err("not a network packet");
    assert_eq!(err.category, "io_failure");
}

#[test]
fn summary_values_with_any_unicode_whitespace_are_quoted() {
    for code in 0u32..=0x10ffff {
        if let Some(c) = char::from_u32(code) {
            if c.is_control() || c == '"' || c == '\\' || c == '=' {
                continue;
            }
            let value = c.to_string();
            assert_eq!(is_summary_value_safe(&value), !c.is_whitespace(), "character U+{code:04X}");
        }
    }
}
