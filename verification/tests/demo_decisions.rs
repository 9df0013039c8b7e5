use wd_rust::demo::conn_monitor::{
    flow_poll, render_flow_event, render_socket_event, socket_poll, timestamp_ms_from_reading,
};
use wd_rust::demo::dns_redirect::{
    dns_open_config, dns_redirect_action, extract_dst_ipv4, is_dns_request, parse_ipv4_ihl,
    redirect_limit_reached, redirects_after, rewrite_dst_ipv4, DnsAction,
};
use wd_rust::proto::{
    decode_runtime_send_request, encode_flow_event_payload, encode_network_event_payload,
    encode_runtime_event, encode_socket_event_payload, FlowEventKind, FlowEventPayload, Layer,
    SocketEventKind, SocketEventPayload,
};
use wd_rust::user::runtime::RuntimeError;

fn dns_query() -> Vec<u8> {
    vec![
        0x45, 0, 0, 28, 0, 1, 0, 0, 64, 17, 0x66, 0xce, 10, 0, 0, 2, 10, 0, 0, 1, 0x14, 0xe9, 0,
        53, 0, 8, 0xab, 0xcd,
    ]
}

#[test]
fn dns_requests_are_udp_packets_to_port_53() {
    assert!(is_dns_request(&dns_query()));
    let mut tcp = dns_query();
    tcp[9] = 6;
    assert!(!is_dns_request(&tcp));
    let mut other_port = dns_query();
    other_port[23] = 54;
    assert!(!is_dns_request(&other_port));
    assert!(!is_dns_request(&dns_query()[..27]));
    assert_eq!(parse_ipv4_ihl(&dns_query()), Some(5));
    assert_eq!(parse_ipv4_ihl(&[0x65]), None);
    assert_eq!(extract_dst_ipv4(&dns_query()), Some([10, 0, 0, 1]));
    assert_eq!(extract_dst_ipv4(&[0u8; 19]), None);
}

#[test]
fn rewriting_sets_destination_checksum_and_clears_udp_checksum() {
    let rewritten = rewrite_dst_ipv4(&dns_query(), [8, 8, 8, 8]);
    assert_eq!(
        rewritten,
        vec![
            69, 0, 0, 28, 0, 1, 0, 0, 64, 17, 96, 191, 10, 0, 0, 2, 8, 8, 8, 8, 20, 233, 0, 53, 0,
            8, 0, 0
        ]
    );
    assert!(is_dns_request(&rewritten));
    assert_eq!(rewrite_dst_ipv4(&[1, 2, 3], [8, 8, 8, 8]), vec![1, 2, 3]);
}

#[test]
fn redirector_sends_dns_requests_to_google_and_others_back_unchanged() {
    let frame = encode_runtime_event(Layer::Network, &encode_network_event_payload(5, &dns_query()));
    match dns_redirect_action(&frame) {
        DnsAction::Redirect { request, original } => {
            assert_eq!(original, Some([10, 0, 0, 1]));
            let sent = decode_runtime_send_request(&request).expect("request decodes");
            assert_eq!(sent.header.reinjection_token, 5);
            assert_eq!(sent.payload, rewrite_dst_ipv4(&dns_query(), [8, 8, 8, 8]).as_slice());
        }
        _ => panic!("a DNS request should be redirected"),
    }

    let mut tcp = dns_query();
    tcp[9] = 6;
    let frame = encode_runtime_event(Layer::Network, &encode_network_event_payload(6, &tcp));
    match dns_redirect_action(&frame) {
        DnsAction::Reinject(request) => {
            let sent = decode_runtime_send_request(&request).expect("request decodes");
            assert_eq!(sent.payload, tcp.as_slice());
        }
        _ => panic!("other traffic should be sent back as it came"),
    }

    assert!(matches!(dns_redirect_action(&dns_query()), DnsAction::Skip));
    let socket = encode_runtime_event(Layer::Socket, &encode_socket_event_payload(SocketEventKind::Connect, 1));
    assert!(matches!(dns_redirect_action(&socket), DnsAction::Skip));
}

#[test]
fn redirector_filter_pins_the_forward_layer_and_is_refused_for_a_network_handle() {
    let err = dns_open_config().expect_err("outbound needs the network forward layer");
    assert_eq!(err.code(), 6);
    assert_eq!(
        err.message(),
        "filter compile failed: filter required layers are incompatible with Layer::Network"
    );
}

#[test]
fn monitor_lines_pad_the_sequence_number() {
    assert_eq!(
        render_socket_event(3, SocketEventPayload::new(SocketEventKind::Connect, 42), 1000),
        "[   3] [SOCKET] CONNECT pid=42 @ 1000ms"
    );
    assert_eq!(
        render_flow_event(12345, FlowEventPayload::new(FlowEventKind::Established, 9, 7), 5),
        "[12345] [FLOW]   ESTABLISHED flow_id=9 pid=7 @ 5ms"
    );
}

#[test]
fn monitor_polls_skip_empty_queues_and_keep_other_errors() {
    let socket = encode_runtime_event(Layer::Socket, &encode_socket_event_payload(SocketEventKind::Connect, 8));
    let event = socket_poll(Ok(socket)).expect("poll").expect("socket event");
    assert_eq!(event.process_id(), 8);
    assert!(socket_poll(Err(RuntimeError::io_failure("empty".to_string()))).expect("io failure is idle").is_none());
    let err = socket_poll(Err(RuntimeError::open_failed("denied".to_string()))).expect_err("other errors stop");
    assert_eq!(err.code(), 4);

    let flow = encode_runtime_event(Layer::Flow, &encode_flow_event_payload(FlowEventKind::Established, 3, 4));
    let event = flow_poll(Ok(flow)).expect("poll").expect("flow event");
    assert_eq!(event.flow_id(), 3);
    assert!(flow_poll(Ok(vec![1, 2, 3])).expect("undecodable frames are passed over").is_none());
}

#[test]
fn clock_readings_become_event_timestamps() {
    assert_eq!(timestamp_ms_from_reading(Ok(1_744_165_948_799)), 1_744_165_948_799);
    assert_eq!(timestamp_ms_from_reading(Ok(u64::MAX as u128 + 5)), 4);
    assert_eq!(timestamp_ms_from_reading(Err("before the epoch".to_string())), 0);
}

#[test]
fn redirector_counts_redirects_and_stops_at_its_limit() {
    assert!(!redirect_limit_reached(0, 1_000));
    assert!(!redirect_limit_reached(3, 2));
    assert!(redirect_limit_reached(3, 3));
    assert_eq!(redirects_after(2, &DnsAction::Skip), 2);
    assert_eq!(redirects_after(2, &DnsAction::Reinject(vec![1])), 2);
    assert_eq!(redirects_after(2, &DnsAction::Redirect { request: vec![1], original: None }), 3);
}

#[test]
fn rewrite_accepts_a_cut_udp_header_and_leaves_a_valid_header_checksum() {
    let mut packet = vec![
        0x45, 0x00, 0x00, 0x1b, 0x12, 0x34, 0x00, 0x00, 64, 17, 0x00, 0x00, 192, 168, 1, 10, 192, 168, 1, 1,
    ];
    packet.extend_from_slice(&[0x30, 0x39, 0x00, 0x35, 0x00, 0x07, 0xab]);
    assert_eq!(packet.len(), 27);

    let rewritten = rewrite_dst_ipv4(&packet, [8, 8, 8, 8]);
    assert_eq!(rewritten.len(), packet.len());
    assert_eq!(&rewritten[16..20], &[8, 8, 8, 8]);
    assert_eq!(rewritten[26], 0xab, "half a UDP checksum is left as it is");
    assert_eq!(&rewritten[20..26], &packet[20..26]);
    assert_eq!(wd_rust::user::frame::ipv4_header_checksum(&rewritten[..20]), 0);

    let mut full = packet.clone();
    full.push(0xcd);
    let rewritten = rewrite_dst_ipv4(&full, [8, 8, 8, 8]);
    assert_eq!(&rewritten[26..28], &[0, 0], "a whole UDP checksum is cleared");
    assert_eq!(wd_rust::user::frame::ipv4_header_checksum(&rewritten[..20]), 0);
}
