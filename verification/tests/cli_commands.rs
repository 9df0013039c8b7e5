use std::sync::{Arc, Mutex};

use wd_rust::cli::cmd::flowtrack::FlowtrackCmd;
use wd_rust::cli::cmd::netdump::NetdumpCmd;
use wd_rust::cli::cmd::netfilter::{NetfilterCmd, NetfilterMode};
use wd_rust::cli::cmd::reflectctl::{ReflectAction, ReflectctlCmd};
use wd_rust::cli::cmd::socketdump::SocketdumpCmd;
use wd_rust::cli::fixtures;
use wd_rust::cli::output::render_error_text;
use wd_rust::kmdf::network_runtime::AcceptedReinjection;
use wd_rust::kmdf::runtime_device::RuntimeDevice;
use wd_rust::proto::{
    decode_runtime_send_request, encode_flow_event_payload, encode_network_event_payload,
    encode_runtime_event, encode_socket_event_payload, FlowEventKind, Layer, SocketEventKind,
};
use wd_rust::user::device::{default_device_path, DeviceAvailability};
use wd_rust::user::handle::HandleConfig;
use wd_rust::user::runtime::{
    RuntimeError, RuntimeOpenConfig, RuntimeProbe, RuntimeSession, RuntimeTransport,
};

#[derive(Debug)]
struct MissingDeviceTransport;

#[derive(Debug)]
struct BufferedSession {
    frames: Vec<Vec<u8>>,
    sent: Arc<Mutex<Vec<Vec<u8>>>>,
}

impl RuntimeSession for BufferedSession {
    fn recv_one(&mut self, _max_bytes: usize) -> Result<Vec<u8>, RuntimeError> {
        if self.frames.is_empty() {
            return Err(RuntimeError::io_failure("buffer exhausted".to_string()));
        }
        Ok(self.frames.remove(0))
    }

    fn send_one(&mut self, bytes: &[u8]) -> Result<(), RuntimeError> {
        self.sent
            .lock()
            .expect("send buffer mutex should not be poisoned")
            .push(bytes.to_vec());
        Ok(())
    }

    fn close(self) -> Result<(), RuntimeError> {
        Ok(())
    }
}

impl RuntimeTransport for MissingDeviceTransport {
    type Session = BufferedSession;

    fn probe(&self) -> Result<DeviceAvailability, RuntimeError> {
        Ok(DeviceAvailability::Missing)
    }

    fn open(&self, _config: &RuntimeOpenConfig) -> Result<RuntimeProbe, RuntimeError> {
        Err(RuntimeError::device_unavailable(default_device_path()))
    }

    fn open_session(&self, _config: &RuntimeOpenConfig) -> Result<Self::Session, RuntimeError> {
        Err(RuntimeError::device_unavailable(default_device_path()))
    }
}

fn present_probe() -> RuntimeProbe {
    RuntimeProbe {
        device_path: default_device_path().to_string(),
        capabilities: None,
        protocol_major: None,
        protocol_minor: None,
    }
}

#[derive(Debug)]
struct BufferedTransport {
    frames: Vec<Vec<u8>>,
    sent: Arc<Mutex<Vec<Vec<u8>>>>,
}

impl BufferedTransport {
    fn with_frames(frames: Vec<Vec<u8>>) -> Self {
        BufferedTransport {
            frames,
            sent: Arc::new(Mutex::new(Vec::new())),
        }
    }
}

impl RuntimeTransport for BufferedTransport {
    type Session = BufferedSession;

    fn probe(&self) -> Result<DeviceAvailability, RuntimeError> {
        Ok(DeviceAvailability::Present)
    }

    fn open(&self, _config: &RuntimeOpenConfig) -> Result<RuntimeProbe, RuntimeError> {
        Ok(present_probe())
    }

    fn open_session(&self, _config: &RuntimeOpenConfig) -> Result<Self::Session, RuntimeError> {
        Ok(BufferedSession {
            frames: self.frames.clone(),
            sent: Arc::clone(&self.sent),
        })
    }
}

#[derive(Debug)]
struct RecordingTransport {
    frames: Vec<Vec<u8>>,
    sent: Arc<Mutex<Vec<Vec<u8>>>>,
    opens: Arc<Mutex<Vec<RuntimeOpenConfig>>>,
}

impl RuntimeTransport for RecordingTransport {
    type Session = BufferedSession;

    fn probe(&self) -> Result<DeviceAvailability, RuntimeError> {
        Ok(DeviceAvailability::Present)
    }

    fn open(&self, config: &RuntimeOpenConfig) -> Result<RuntimeProbe, RuntimeError> {
        self.opens
            .lock()
            .expect("open config mutex should not be poisoned")
            .push(config.clone());
        Ok(present_probe())
    }

    fn open_session(&self, config: &RuntimeOpenConfig) -> Result<Self::Session, RuntimeError> {
        self.opens
            .lock()
            .expect("open config mutex should not be poisoned")
            .push(config.clone());
        Ok(BufferedSession {
            frames: self.frames.clone(),
            sent: Arc::clone(&self.sent),
        })
    }
}

#[derive(Debug)]
struct LoopbackSession {
    device: RuntimeDevice,
    accepted: Arc<Mutex<Option<AcceptedReinjection>>>,
}

impl RuntimeSession for LoopbackSession {
    fn recv_one(&mut self, _max_bytes: usize) -> Result<Vec<u8>, RuntimeError> {
        let mut output = [0u8; 2048];
        let written = self
            .device
            .recv_into(&mut output)
            .map_err(|err| RuntimeError::io_failure(format!("loopback recv failed: {}", err.to_string())))?;
        Ok(output[..written].to_vec())
    }

    fn send_one(&mut self, bytes: &[u8]) -> Result<(), RuntimeError> {
        let accepted = self
            .device
            .send(bytes)
            .map_err(|err| RuntimeError::io_failure(format!("loopback send failed: {}", err.to_string())))?;
        *self
            .accepted
            .lock()
            .expect("accepted mutex should not be poisoned") = Some(accepted);
        Ok(())
    }

    fn close(self) -> Result<(), RuntimeError> {
        Ok(())
    }
}

#[derive(Debug)]
enum LoopbackEvent {
    Network { layer: Layer, packet_id: u64, packet: Vec<u8> },
    Flow { kind: FlowEventKind, flow_id: u64, process_id: u64 },
    Socket { kind: SocketEventKind, process_id: u64 },
}

#[derive(Debug)]
struct LoopbackTransport {
    event: LoopbackEvent,
    accepted: Arc<Mutex<Option<AcceptedReinjection>>>,
}

impl LoopbackTransport {
    fn new(event: LoopbackEvent) -> Self {
        LoopbackTransport {
            event,
            accepted: Arc::new(Mutex::new(None)),
        }
    }
}

impl RuntimeTransport for LoopbackTransport {
    type Session = LoopbackSession;

    fn probe(&self) -> Result<DeviceAvailability, RuntimeError> {
        Ok(DeviceAvailability::Present)
    }

    fn open(&self, _config: &RuntimeOpenConfig) -> Result<RuntimeProbe, RuntimeError> {
        Ok(present_probe())
    }

    fn open_session(&self, _config: &RuntimeOpenConfig) -> Result<Self::Session, RuntimeError> {
        let mut device = RuntimeDevice::new(8);
        device
            .open()
            .map_err(|err| RuntimeError::io_failure(format!("loopback open failed: {}", err.to_string())))?;
        let queued = match &self.event {
            LoopbackEvent::Network { layer, packet_id, packet } => {
                device.queue_network_event(*layer, *packet_id, packet)
            }
            LoopbackEvent::Flow { kind, flow_id, process_id } => {
                device.queue_flow_event(*kind, *flow_id, *process_id)
            }
            LoopbackEvent::Socket { kind, process_id } => device.queue_socket_event(*kind, *process_id),
        };
        queued.map_err(|err| RuntimeError::io_failure(format!("loopback queue failed: {}", err.to_string())))?;
        Ok(LoopbackSession {
            device,
            accepted: Arc::clone(&self.accepted),
        })
    }
}

#[derive(Debug, Clone, Copy)]
struct FakePresentTransport;

#[derive(Debug)]
struct FakeSession;

impl RuntimeSession for FakeSession {
    fn recv_one(&mut self, _max_bytes: usize) -> Result<Vec<u8>, RuntimeError> {
        Err(RuntimeError::io_failure(
            "reflectctl test session does not receive packets".to_string(),
        ))
    }

    fn send_one(&mut self, _bytes: &[u8]) -> Result<(), RuntimeError> {
        Err(RuntimeError::io_failure(
            "reflectctl test session does not send packets".to_string(),
        ))
    }

    fn close(self) -> Result<(), RuntimeError> {
        Ok(())
    }
}

fn reflect_probe() -> RuntimeProbe {
    RuntimeProbe {
        device_path: default_device_path().to_string(),
        capabilities: Some(7),
        protocol_major: Some(1),
        protocol_minor: Some(0),
    }
}

impl RuntimeTransport for FakePresentTransport {
    type Session = FakeSession;

    fn probe(&self) -> Result<DeviceAvailability, RuntimeError> {
        Ok(DeviceAvailability::Present)
    }

    fn open(&self, _config: &RuntimeOpenConfig) -> Result<RuntimeProbe, RuntimeError> {
        Ok(reflect_probe())
    }

    fn close(&self) -> Result<(), RuntimeError> {
        Ok(())
    }

    fn open_session(&self, _config: &RuntimeOpenConfig) -> Result<Self::Session, RuntimeError> {
        Ok(FakeSession)
    }
}

#[derive(Debug)]
struct ReflectRecordingTransport {
    opens: Arc<Mutex<Vec<RuntimeOpenConfig>>>,
}

impl RuntimeTransport for ReflectRecordingTransport {
    type Session = FakeSession;

    fn probe(&self) -> Result<DeviceAvailability, RuntimeError> {
        Ok(DeviceAvailability::Present)
    }

    fn open(&self, config: &RuntimeOpenConfig) -> Result<RuntimeProbe, RuntimeError> {
        self.opens
            .lock()
            .expect("open config mutex should not be poisoned")
            .push(config.clone());
        Ok(reflect_probe())
    }

    fn close(&self) -> Result<(), RuntimeError> {
        Ok(())
    }

    fn open_session(&self, _config: &RuntimeOpenConfig) -> Result<Self::Session, RuntimeError> {
        Ok(FakeSession)
    }
}

fn netfilter_cmd(mode: NetfilterMode) -> NetfilterCmd {
    NetfilterCmd {
        filter: "tcp and inbound".to_string(),
        mode,
        count: 1,
        follow: false,
        json: false,
        verbose: false,
        timeout_ms: 5_000,
    }
}

fn netdump_cmd(count: u64) -> NetdumpCmd {
    NetdumpCmd {
        filter: None,
        count,
        follow: false,
        json: false,
        verbose: false,
        timeout_ms: 5_000,
    }
}

fn flowtrack_cmd(process_id: Option<u64>, count: u64) -> FlowtrackCmd {
    FlowtrackCmd {
        process_id,
        count,
        follow: false,
        json: false,
        verbose: false,
        timeout_ms: 5_000,
    }
}

fn socketdump_cmd(filter: &str, process_id: Option<u64>) -> SocketdumpCmd {
    SocketdumpCmd {
        filter: filter.to_string(),
        process_id,
        count: 1,
        follow: false,
        json: false,
        verbose: false,
        timeout_ms: 5_000,
    }
}

// netfilter

#[test]
fn netfilter_validate_missing_device_maps_to_cli_error() {
    let cmd = netfilter_cmd(NetfilterMode::Validate);

    let err = cmd
        .execute_with_transport(MissingDeviceTransport)
        .expect_err("missing device should surface as cli error");
    assert_eq!(err.code, 3);
    assert_eq!(err.category, "device_unavailable");
}

#[test]
fn netfilter_observe_decodes_runtime_network_summary() {
    let cmd = netfilter_cmd(NetfilterMode::Observe);

    let line = cmd
        .execute_with_transport(BufferedTransport::with_frames(vec![fixtures::ipv4_frame()]))
        .expect("observe mode should render runtime network event");
    assert!(line.contains("NETFILTER OK"), "unexpected output: {line}");
    assert!(line.contains("mode=observe"), "unexpected output: {line}");
    assert!(line.contains("layer=NETWORK"), "unexpected output: {line}");
}

#[test]
fn netfilter_observe_passes_network_open_config_with_compiled_filter_ir() {
    let filter = "tcp and inbound";
    let expected_filter_ir = HandleConfig::network(filter)
        .expect("filter should compile")
        .filter_ir()
        .to_vec();
    let cmd = netfilter_cmd(NetfilterMode::Observe);
    let opens = Arc::new(Mutex::new(Vec::new()));

    assert!(
        !expected_filter_ir.is_empty(),
        "compiled filter ir should not be empty"
    );

    cmd.execute_with_transport(RecordingTransport {
        frames: vec![fixtures::ipv4_frame()],
        sent: Arc::new(Mutex::new(Vec::new())),
        opens: Arc::clone(&opens),
    })
    .expect("observe mode should pass compiled network open config");

    let opens = opens.lock().expect("open config mutex should not be poisoned");
    assert_eq!(
        *opens,
        vec![
            RuntimeOpenConfig::network(expected_filter_ir.clone()),
            RuntimeOpenConfig::network(expected_filter_ir)
        ]
    );
}

#[test]
fn netfilter_reinject_sends_runtime_request() {
    let cmd = netfilter_cmd(NetfilterMode::Reinject);
    let sent = Arc::new(Mutex::new(Vec::new()));
    let frame = encode_runtime_event(
        Layer::Network,
        &encode_network_event_payload(101, &fixtures::ipv4_frame()),
    );

    let line = cmd
        .execute_with_transport(BufferedTransport {
            frames: vec![frame],
            sent: Arc::clone(&sent),
        })
        .expect("reinject mode should send runtime request");
    assert!(line.contains("NETFILTER OK"), "unexpected output: {line}");
    assert!(line.contains("mode=reinject"), "unexpected output: {line}");

    let sent = sent.lock().expect("send buffer mutex should not be poisoned");
    assert_eq!(sent.len(), 1, "reinject should issue exactly one send");
    let request =
        decode_runtime_send_request(&sent[0]).expect("sent payload should match runtime contract");
    assert_eq!(request.header.layer, Layer::Network);
    assert_eq!(request.header.reinjection_token, 101);
    assert_eq!(request.payload, fixtures::ipv4_frame().as_slice());
}

#[test]
fn netfilter_reinject_preserves_network_forward_layer() {
    let cmd = netfilter_cmd(NetfilterMode::Reinject);
    let sent = Arc::new(Mutex::new(Vec::new()));
    let frame = encode_runtime_event(
        Layer::NetworkForward,
        &encode_network_event_payload(202, &fixtures::ipv4_frame()),
    );

    cmd.execute_with_transport(BufferedTransport {
        frames: vec![frame],
        sent: Arc::clone(&sent),
    })
    .expect("reinject mode should send runtime request");

    let sent = sent.lock().expect("send buffer mutex should not be poisoned");
    let request =
        decode_runtime_send_request(&sent[0]).expect("sent payload should match runtime contract");
    assert_eq!(request.header.layer, Layer::NetworkForward);
    assert_eq!(request.header.reinjection_token, 202);
}

#[test]
fn netfilter_reinject_round_trips_through_driver_core_contract() {
    let cmd = netfilter_cmd(NetfilterMode::Reinject);
    let transport = LoopbackTransport::new(LoopbackEvent::Network {
        layer: Layer::Network,
        packet_id: 404,
        packet: fixtures::ipv4_frame(),
    });
    let accepted = Arc::clone(&transport.accepted);

    let line = cmd
        .execute_with_transport(transport)
        .expect("reinject mode should round-trip through driver core contract");
    assert!(line.contains("NETFILTER OK"), "unexpected output: {line}");
    assert!(line.contains("mode=reinject"), "unexpected output: {line}");

    let accepted = accepted.lock().expect("accepted mutex should not be poisoned");
    let accepted = accepted.as_ref().expect("driver core should accept reinjection");
    assert_eq!(accepted.layer, Layer::Network);
    assert_eq!(accepted.packet_id, 404);
    assert_eq!(accepted.packet.as_slice(), fixtures::ipv4_frame().as_slice());
}

// netdump

#[test]
fn netdump_missing_device_maps_to_cli_error() {
    let err = netdump_cmd(1)
        .execute_with_transport(MissingDeviceTransport)
        .expect_err("missing device should surface as cli error");
    assert_eq!(err.code, 3);
    assert_eq!(err.category, "device_unavailable");
}

#[test]
fn netdump_decodes_runtime_frame_into_summary() {
    let line = netdump_cmd(1)
        .execute_with_transport(BufferedTransport::with_frames(vec![fixtures::ipv4_frame()]))
        .expect("runtime frame should decode");
    assert!(line.contains("NETDUMP OK"), "unexpected output: {line}");
    assert!(line.contains("layer=NETWORK"), "unexpected output: {line}");
    assert!(line.contains("ttl="), "unexpected output: {line}");
    assert!(line.contains("checksum="), "unexpected output: {line}");
    assert!(line.contains("packet_len="), "unexpected output: {line}");
    assert!(line.contains("timestamp="), "unexpected output: {line}");
}

#[test]
fn netdump_passes_network_open_config_without_filter_ir() {
    let opens = Arc::new(Mutex::new(Vec::new()));

    netdump_cmd(1)
        .execute_with_transport(RecordingTransport {
            frames: vec![fixtures::ipv4_frame()],
            sent: Arc::new(Mutex::new(Vec::new())),
            opens: Arc::clone(&opens),
        })
        .expect("netdump should use runtime network open config");

    let opens = opens.lock().expect("open config mutex should not be poisoned");
    assert_eq!(
        *opens,
        vec![
            RuntimeOpenConfig::network(Vec::new()),
            RuntimeOpenConfig::network(Vec::new())
        ]
    );
}

#[test]
fn netdump_netdump_count_greater_than_one_requires_follow() {
    let err = netdump_cmd(2)
        .execute_with_transport(BufferedTransport::with_frames(Vec::new()))
        .expect_err("count>1 without follow should fail before runtime access");
    assert_eq!(err.code, 2);
    assert_eq!(err.category, "argument_error");
}

// flowtrack

#[test]
fn flowtrack_missing_device_maps_to_cli_error() {
    let err = flowtrack_cmd(None, 1)
        .execute_with_transport(MissingDeviceTransport)
        .expect_err("missing device should surface as cli error");
    assert_eq!(err.code, 3);
    assert_eq!(err.category, "device_unavailable");
}

#[test]
fn flowtrack_decodes_runtime_event_summary() {
    let frame = encode_runtime_event(
        Layer::Flow,
        &encode_flow_event_payload(FlowEventKind::Established, 9001, 42),
    );

    let line = flowtrack_cmd(Some(42), 1)
        .execute_with_transport(BufferedTransport::with_frames(vec![frame]))
        .expect("flow runtime event should render");
    assert!(line.contains("FLOWTRACK OK"), "unexpected output: {line}");
    assert!(line.contains("event=ESTABLISHED"), "unexpected output: {line}");
    assert!(line.contains("flow_id=9001"), "unexpected output: {line}");
    assert!(line.contains("process_id=42"), "unexpected output: {line}");
}

#[test]
fn flowtrack_loopback_transport_uses_driver_core_flow_event_path() {
    let line = flowtrack_cmd(Some(42), 1)
        .execute_with_transport(LoopbackTransport::new(LoopbackEvent::Flow {
            kind: FlowEventKind::Established,
            flow_id: 9001,
            process_id: 42,
        }))
        .expect("loopback flow runtime event should render");
    assert!(line.contains("FLOWTRACK OK"), "unexpected output: {line}");
    assert!(line.contains("event=ESTABLISHED"), "unexpected output: {line}");
    assert!(line.contains("flow_id=9001"), "unexpected output: {line}");
    assert!(line.contains("process_id=42"), "unexpected output: {line}");
}

#[test]
fn flowtrack_passes_flow_open_config_to_runtime_transport() {
    let opens = Arc::new(Mutex::new(Vec::new()));
    let frame = encode_runtime_event(
        Layer::Flow,
        &encode_flow_event_payload(FlowEventKind::Established, 9001, 42),
    );

    flowtrack_cmd(None, 1)
        .execute_with_transport(RecordingTransport {
            frames: vec![frame],
            sent: Arc::new(Mutex::new(Vec::new())),
            opens: Arc::clone(&opens),
        })
        .expect("flowtrack should use runtime flow open config");

    let opens = opens.lock().expect("open config mutex should not be poisoned");
    assert_eq!(
        *opens,
        vec![RuntimeOpenConfig::flow(), RuntimeOpenConfig::flow()]
    );
}

#[test]
fn flowtrack_count_greater_than_one_requires_follow() {
    let err = flowtrack_cmd(None, 2)
        .execute_with_transport(BufferedTransport::with_frames(Vec::new()))
        .expect_err("count>1 without follow should fail");
    assert_eq!(err.code, 2);
    assert_eq!(err.category, "argument_error");
}

// socketdump

#[test]
fn socketdump_missing_device_maps_to_cli_error() {
    let err = socketdump_cmd("event == CONNECT", None)
        .execute_with_transport(MissingDeviceTransport)
        .expect_err("missing device should surface as cli error");
    assert_eq!(err.code, 3);
    assert_eq!(err.category, "device_unavailable");
}

#[test]
fn socketdump_decodes_runtime_event_and_matches_filter() {
    let frame = encode_runtime_event(
        Layer::Socket,
        &encode_socket_event_payload(SocketEventKind::Connect, 7),
    );

    let line = socketdump_cmd("event == CONNECT and processId == 7", Some(7))
        .execute_with_transport(BufferedTransport::with_frames(vec![frame]))
        .expect("socket runtime event should render");
    assert!(line.contains("SOCKETDUMP OK"), "unexpected output: {line}");
    assert!(line.contains("event=CONNECT"), "unexpected output: {line}");
    assert!(line.contains("process_id=7"), "unexpected output: {line}");
    assert!(line.contains("matched=true"), "unexpected output: {line}");
}

#[test]
fn socketdump_loopback_transport_uses_driver_core_socket_event_path() {
    let line = socketdump_cmd("event == CONNECT and processId == 7", Some(7))
        .execute_with_transport(LoopbackTransport::new(LoopbackEvent::Socket {
            kind: SocketEventKind::Connect,
            process_id: 7,
        }))
        .expect("loopback socket runtime event should render");
    assert!(line.contains("SOCKETDUMP OK"), "unexpected output: {line}");
    assert!(line.contains("event=CONNECT"), "unexpected output: {line}");
    assert!(line.contains("process_id=7"), "unexpected output: {line}");
    assert!(line.contains("matched=true"), "unexpected output: {line}");
}

#[test]
fn socketdump_passes_socket_open_config_to_runtime_transport() {
    let opens = Arc::new(Mutex::new(Vec::new()));
    let frame = encode_runtime_event(
        Layer::Socket,
        &encode_socket_event_payload(SocketEventKind::Connect, 77),
    );

    socketdump_cmd("event == CONNECT", None)
        .execute_with_transport(RecordingTransport {
            frames: vec![frame],
            sent: Arc::new(Mutex::new(Vec::new())),
            opens: Arc::clone(&opens),
        })
        .expect("socketdump should use runtime socket open config");

    let opens = opens.lock().expect("open config mutex should not be poisoned");
    assert_eq!(
        *opens,
        vec![RuntimeOpenConfig::socket(), RuntimeOpenConfig::socket()]
    );
}

#[test]
fn socketdump_invalid_filter_maps_to_argument_error() {
    let err = socketdump_cmd("tcp and inbound", None)
        .execute_with_transport(BufferedTransport::with_frames(Vec::new()))
        .expect_err("invalid runtime subset filter should fail");
    assert_eq!(err.code, 2);
    assert_eq!(err.category, "argument_error");
}

// reflectctl

#[test]
fn reflectctl_close_success_output_is_honest_about_close_state() {
    let cmd = ReflectctlCmd {
        action: ReflectAction::Close,
        json: false,
        verbose: false,
        timeout_ms: 5_000,
    };

    let line = cmd
        .execute_with_transport(FakePresentTransport)
        .expect("close action should succeed");
    assert!(line.contains("state=CloseAttempted"), "unexpected output: {line}");
    assert!(!line.contains("state=Closed"), "unexpected output: {line}");
}

#[test]
fn reflectctl_open_passes_reflect_open_config_and_reports_open_metadata() {
    let cmd = ReflectctlCmd {
        action: ReflectAction::Open,
        json: false,
        verbose: false,
        timeout_ms: 5_000,
    };
    let opens = Arc::new(Mutex::new(Vec::new()));

    let line = cmd
        .execute_with_transport(ReflectRecordingTransport {
            opens: Arc::clone(&opens),
        })
        .expect("open action should use reflect runtime open config");
    assert!(line.contains("REFLECTCTL OK"), "unexpected output: {line}");
    assert!(line.contains("capabilities=7"), "unexpected output: {line}");
    assert!(line.contains("protocol=1.0"), "unexpected output: {line}");
    assert!(line.contains("state=Open"), "unexpected output: {line}");

    let opens = opens.lock().expect("open config mutex should not be poisoned");
    assert_eq!(*opens, vec![RuntimeOpenConfig::reflect()]);
}

fn is_supported_runtime_category(line: &str) -> bool {
    line.contains("category=device_unavailable")
        || line.contains("category=open_failed")
        || line.contains("category=protocol_mismatch")
        || line.contains("category=io_failure")
}

fn assert_reflectctl_text_or_runtime_error(action: ReflectAction, name: &str, expected_state: &str) {
    let cmd = ReflectctlCmd {
        action,
        json: false,
        verbose: false,
        timeout_ms: 5_000,
    };

    match cmd.execute_with_transport(MissingDeviceTransport) {
        Ok(line) => {
            assert!(line.contains("REFLECTCTL OK"), "unexpected stdout: {line}");
            assert!(line.contains("device=ready"), "unexpected stdout: {line}");
            assert!(
                line.contains(&format!("state={expected_state}")),
                "unexpected stdout: {line}"
            );
        }
        Err(err) => {
            let line = render_error_text(&err);
            assert!(
                line.contains("REFLECTCTL ERROR"),
                "reflectctl --action {name} should use shared text error output, stderr={line}"
            );
            assert!(line.contains("code="), "reflectctl --action {name} should include runtime code, stderr={line}");
            assert!(
                is_supported_runtime_category(&line),
                "reflectctl --action {name} should include shared runtime category, stderr={line}"
            );
        }
    }
}

#[test]
fn reflectctl_probe_reports_runtime_contract_text_or_device_unavailable() {
    assert_reflectctl_text_or_runtime_error(ReflectAction::Probe, "probe", "Probed");
}

#[test]
fn reflectctl_open_reports_runtime_contract_text_or_device_unavailable() {
    assert_reflectctl_text_or_runtime_error(ReflectAction::Open, "open", "Open");
}

#[test]
fn reflectctl_close_reports_runtime_contract_text_or_device_unavailable() {
    assert_reflectctl_text_or_runtime_error(ReflectAction::Close, "close", "CloseAttempted");
}

#[test]
fn reflectctl_capabilities_reports_runtime_contract_text_or_device_unavailable() {
    assert_reflectctl_text_or_runtime_error(ReflectAction::Capabilities, "capabilities", "Open");
}

#[test]
fn reflectctl_state_reports_runtime_contract_text_or_device_unavailable() {
    assert_reflectctl_text_or_runtime_error(ReflectAction::State, "state", "Open");
}
