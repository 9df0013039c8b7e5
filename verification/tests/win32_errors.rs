use wd_rust::user::device::DeviceAvailability;
use wd_rust::proto::{decode_open_request, encode_open_response, Layer, OpenResponse, ProtocolVersion};
use wd_rust::user::handle::HandleConfig;
use wd_rust::user::runtime::RuntimeOpenConfig;
use wd_rust::user::win32::{
    classify_open_error, classify_probe_last_error, close_call_failure, open_call_failure,
    open_request_bytes, probe_from_open_response, recv_call_failure, send_call_failure,
};
use windows_sys::Win32::Foundation::{
    ERROR_ACCESS_DENIED, ERROR_FILE_NOT_FOUND, ERROR_INVALID_DATA, ERROR_PATH_NOT_FOUND,
    ERROR_SHARING_VIOLATION,
};

#[test]
fn probe_maps_not_found_to_missing() {
    let result = classify_probe_last_error(ERROR_FILE_NOT_FOUND);
    assert_eq!(result, Ok(DeviceAvailability::Missing));

    let result = classify_probe_last_error(ERROR_PATH_NOT_FOUND);
    assert_eq!(result, Ok(DeviceAvailability::Missing));
}

#[test]
fn probe_maps_other_errors_to_io_failure() {
    let err = classify_probe_last_error(ERROR_INVALID_DATA)
        .expect_err("non not-found probe error should map to RuntimeError");
    assert_eq!(err.category(), "io_failure");
    assert_eq!(err.code(), 6);
}

#[test]
fn open_maps_not_found_to_device_unavailable() {
    let err = classify_open_error(ERROR_FILE_NOT_FOUND, r"\\.\WdRust");
    assert_eq!(err.category(), "device_unavailable");
    assert_eq!(err.code(), 3);
}

#[test]
fn open_maps_access_issues_to_open_failed() {
    let denied = classify_open_error(ERROR_ACCESS_DENIED, r"\\.\WdRust");
    assert_eq!(denied.category(), "open_failed");
    assert_eq!(denied.code(), 4);

    let sharing = classify_open_error(ERROR_SHARING_VIOLATION, r"\\.\WdRust");
    assert_eq!(sharing.category(), "open_failed");
    assert_eq!(sharing.code(), 4);
}

#[test]
fn open_maps_other_errors_to_io_failure() {
    let err = classify_open_error(ERROR_INVALID_DATA, r"\\.\WdRust");
    assert_eq!(err.category(), "io_failure");
    assert_eq!(err.code(), 6);
}

#[test]
fn open_responses_report_capabilities_or_refusal() {
    let probe = probe_from_open_response("dev", &encode_open_response(OpenResponse::success(0x1f)))
        .expect("a successful response opens");
    assert_eq!(probe.device_path, "dev");
    assert_eq!(probe.capabilities, Some(0x1f));
    assert_eq!(probe.protocol_major, Some(ProtocolVersion::current().major));

    let refused = OpenResponse {
        version: ProtocolVersion::current(),
        capabilities: 0,
        status: 7,
    };
    let err = probe_from_open_response("dev", &encode_open_response(refused)).expect_err("status 7");
    assert_eq!(err.category(), "open_failed");
    assert_eq!(err.message(), "open response reported status 7 for dev");

    let err = probe_from_open_response("dev", &[1, 2]).expect_err("short response");
    assert_eq!(err.category(), "protocol_mismatch");
    assert_eq!(err.message(), "open response decode failed for dev: open response buffer too short");
}

#[test]
fn failed_calls_name_the_call_the_device_and_the_error() {
    assert_eq!(
        recv_call_failure("dev", 31).message(),
        "DeviceIoControl(IOCTL_RECV) failed for dev with win32 error 31"
    );
    assert_eq!(send_call_failure("dev", 5).category(), "io_failure");
    assert_eq!(open_call_failure("dev", 5).category(), "open_failed");
    assert_eq!(close_call_failure("dev", 6).message(), "CloseHandle failed for dev with win32 error 6");
    let err = classify_open_error(ERROR_ACCESS_DENIED, "dev");
    assert_eq!(err.message(), "CreateFileA failed for dev with win32 error 5");
}

fn assert_open_request_encoding(
    config: RuntimeOpenConfig,
    expected_layer: Layer,
    expected_filter_ir: Vec<u8>,
    expected_priority: i16,
    expected_flags: u64,
) {
    let request_bytes = open_request_bytes(&config);
    let request = decode_open_request(&request_bytes).expect("open request should decode");
    assert_eq!(request.version, ProtocolVersion::current());
    assert_eq!(request.layer, expected_layer);
    assert_eq!(request.priority, expected_priority);
    assert_eq!(request.flags, expected_flags);
    assert_eq!(request.filter_ir, expected_filter_ir);
    assert_eq!(request.filter_len as usize, request.filter_ir.len());
}

#[test]
fn open_encodes_socket_open_request() {
    assert_open_request_encoding(RuntimeOpenConfig::socket(), Layer::Socket, Vec::new(), 0, 0);
}

#[test]
fn open_encodes_flow_open_request() {
    assert_open_request_encoding(RuntimeOpenConfig::flow(), Layer::Flow, Vec::new(), 0, 0);
}

#[test]
fn open_encodes_reflect_open_request() {
    assert_open_request_encoding(RuntimeOpenConfig::reflect(), Layer::Reflect, Vec::new(), 0, 0);
}

#[test]
fn open_encodes_network_open_request_with_filter_ir() {
    let filter_ir = HandleConfig::network("tcp and inbound")
        .expect("filter should compile")
        .filter_ir()
        .to_vec();
    assert!(!filter_ir.is_empty(), "compiled filter ir should not be empty");
    assert_open_request_encoding(RuntimeOpenConfig::network(filter_ir.clone()), Layer::Network, filter_ir, 0, 0);
}

#[test]
fn open_encodes_full_open_request_header_from_custom_runtime_config() {
    let filter_ir = vec![0x57, 0x44, 0x49, 0x52, 0x01, 0xaa, 0xbb];
    assert_open_request_encoding(
        RuntimeOpenConfig::new(Layer::NetworkForward, filter_ir.clone(), -12, 0x0102_0304_0506_0708),
        Layer::NetworkForward,
        filter_ir,
        -12,
        0x0102_0304_0506_0708,
    );
}

#[test]
fn open_session_rejects_invalid_open_response() {
    let err = probe_from_open_response(r"\\.\WdRust", &[0u8; 4])
        .expect_err("invalid open response should reject session");
    assert_eq!(err.category(), "protocol_mismatch");
}

#[test]
fn open_closes_handle_when_open_response_reports_failure() {
    let response = encode_open_response(OpenResponse {
        version: ProtocolVersion::current(),
        capabilities: 0x1f,
        status: 9,
    });
    let err = probe_from_open_response(r"\\.\WdRust", &response)
        .expect_err("non-zero open response status should fail");
    assert_eq!(err.category(), "open_failed");
}
