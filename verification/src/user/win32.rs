//! What the Windows transport makes of the device's answers: which Win32
//! errors mean a missing device or a refused open, the open request a
//! configuration is sent as, what an open response reports, and the
//! errors of failed calls.
use vstd::prelude::*;
use vstd::string::StringExecFns;
use crate::proto::{
    decode_open_response, encode_open_request, open_response_error_text, spec_open_request_bytes,
    spec_open_response_check, spec_open_response_of, OpenRequest, ProtocolVersion,
};
use crate::text::{decimal, push_decimal};
use crate::user::device::{default_device_path, spec_device_path, DeviceAvailability};
use crate::user::runtime::{
    device_unavailable_view, io_failure_view, RuntimeError, RuntimeErrorView, RuntimeOpenConfig, RuntimeProbe,
};

verus! {

/// Win32 `ERROR_FILE_NOT_FOUND`.
pub const ERROR_FILE_NOT_FOUND: u32 = 2;
/// Win32 `ERROR_PATH_NOT_FOUND`.
pub const ERROR_PATH_NOT_FOUND: u32 = 3;
/// Win32 `ERROR_ACCESS_DENIED`.
pub const ERROR_ACCESS_DENIED: u32 = 5;
/// Win32 `ERROR_SHARING_VIOLATION`.
pub const ERROR_SHARING_VIOLATION: u32 = 32;

/// The view of a refused open with `message`.
pub open spec fn open_failed_view(message: Seq<char>) -> RuntimeErrorView {
    RuntimeErrorView {
        code: 4,
        category: "open_failed"@,
        message,
        suggestion: "verify permissions and exclusive access settings"@,
    }
}

/// The view of a protocol mismatch with `message`.
pub open spec fn protocol_mismatch_view(message: Seq<char>) -> RuntimeErrorView {
    RuntimeErrorView {
        code: 5,
        category: "protocol_mismatch"@,
        message,
        suggestion: "verify driver and user-mode binaries are from the same build"@,
    }
}

/// Whether a Win32 error says the device path does not exist.
pub fn is_not_found_error(last_error: u32) -> (r: bool)
    ensures
        r == (last_error == ERROR_FILE_NOT_FOUND || last_error == ERROR_PATH_NOT_FOUND),
{
    last_error == ERROR_FILE_NOT_FOUND || last_error == ERROR_PATH_NOT_FOUND
}

/// Whether a Win32 error says opening was refused (access or sharing).
pub fn is_open_failure_error(last_error: u32) -> (r: bool)
    ensures
        r == (last_error == ERROR_ACCESS_DENIED || last_error == ERROR_SHARING_VIOLATION),
{
    last_error == ERROR_ACCESS_DENIED || last_error == ERROR_SHARING_VIOLATION
}

/// `{prefix}{path}{middle}{code}` with the code in decimal.
fn call_failure_text(prefix: &str, path: &str, middle: &str, code: u64) -> (s: String)
    ensures
        s@ == prefix@ + path@ + middle@ + decimal(code as nat),
{
    let mut s = prefix.to_owned();
    s.append(path);
    s.append(middle);
    push_decimal(&mut s, code);
    s
}

/// What a failed attribute query of the device path means: a missing
/// device when the path does not exist, an I/O failure otherwise.
pub fn classify_probe_last_error(last_error: u32) -> (r: Result<DeviceAvailability, RuntimeError>)
    ensures
        (last_error == ERROR_FILE_NOT_FOUND || last_error == ERROR_PATH_NOT_FOUND) ==> r == Ok::<
            DeviceAvailability,
            RuntimeError,
        >(DeviceAvailability::Missing),
        !(last_error == ERROR_FILE_NOT_FOUND || last_error == ERROR_PATH_NOT_FOUND) ==> (r matches Err(e) && e@
            == io_failure_view(
            "GetFileAttributesA failed for "@ + spec_device_path() + " with win32 error "@ + decimal(last_error as nat),
        )),
{
    if is_not_found_error(last_error) {
        return Ok(DeviceAvailability::Missing);
    }
    Err(RuntimeError::io_failure(call_failure_text(
        "GetFileAttributesA failed for ",
        default_device_path(),
        " with win32 error ",
        last_error as u64,
    )))
}

/// What a failed open of `device_path` means: a missing device, a refused
/// open (access or sharing), or an I/O failure.
pub fn classify_open_error(last_error: u32, device_path: &str) -> (e: RuntimeError)
    ensures
        (last_error == ERROR_FILE_NOT_FOUND || last_error == ERROR_PATH_NOT_FOUND) ==> e@ == device_unavailable_view(
            device_path@,
        ),
        (last_error == ERROR_ACCESS_DENIED || last_error == ERROR_SHARING_VIOLATION) ==> e@ == open_failed_view(
            "CreateFileA failed for "@ + device_path@ + " with win32 error "@ + decimal(last_error as nat),
        ),
        !(last_error == ERROR_FILE_NOT_FOUND || last_error == ERROR_PATH_NOT_FOUND || last_error == ERROR_ACCESS_DENIED
            || last_error == ERROR_SHARING_VIOLATION) ==> e@ == io_failure_view(
            "CreateFileA failed for "@ + device_path@ + " with win32 error "@ + decimal(last_error as nat),
        ),
{
    if is_not_found_error(last_error) {
        return RuntimeError::device_unavailable(device_path);
    }
    let m = call_failure_text("CreateFileA failed for ", device_path, " with win32 error ", last_error as u64);
    if is_open_failure_error(last_error) {
        return RuntimeError::open_failed(m);
    }
    RuntimeError::io_failure(m)
}

/// Encodes the open request for `config`.
pub fn open_request_bytes(config: &RuntimeOpenConfig) -> (bytes: Vec<u8>)
    ensures
        exists|r: OpenRequest|
            {
                &&& r.version == ProtocolVersion::spec_current()
                &&& r.layer == config.spec_layer()
                &&& r.priority == config.spec_priority()
                &&& r.flags == config.spec_flags()
                &&& r.filter_len == config.spec_filter_ir().len() as u32
                &&& r.filter_ir@ == config.spec_filter_ir()
                &&& bytes@ == #[trigger] spec_open_request_bytes(r)
            },
{
    let mut filter: Vec<u8> = Vec::new();
    crate::wire::extend_bytes(&mut filter, config.filter_ir());
    assert(filter@ =~= config.spec_filter_ir());
    let request = OpenRequest::new(config.layer(), filter, config.priority(), config.flags());
    encode_open_request(&request)
}

/// What an open response reports for `device_path`: a protocol mismatch
/// when it does not decode, a refused open when its status is not 0, and
/// otherwise the capabilities and version it carries.
pub open spec fn spec_probe_from_response(device_path: Seq<char>, response: Seq<u8>) -> Result<
    (Option<u32>, Option<u16>, Option<u16>),
    RuntimeErrorView,
> {
    match spec_open_response_check(response) {
        Some(e) => Err(protocol_mismatch_view(
            "open response decode failed for "@ + device_path + ": "@ + open_response_error_text(e),
        )),
        None => {
            let r = spec_open_response_of(response);
            if r.status != 0 {
                Err(open_failed_view(
                    "open response reported status "@ + decimal(r.status as nat) + " for "@ + device_path,
                ))
            } else {
                Ok((Some(r.capabilities), Some(r.version.major), Some(r.version.minor)))
            }
        },
    }
}

/// Reads the open response the device wrote for `device_path`.
pub fn probe_from_open_response(device_path: &str, response: &[u8]) -> (r: Result<RuntimeProbe, RuntimeError>)
    ensures
        match spec_probe_from_response(device_path@, response@) {
            Ok((caps, major, minor)) => r matches Ok(p) && p.device_path@ == device_path@ && p.capabilities == caps
                && p.protocol_major == major && p.protocol_minor == minor,
            Err(e) => r matches Err(x) && x@ == e,
        },
{
    let decoded = match decode_open_response(response) {
        Ok(d) => d,
        Err(err) => {
            let mut m = "open response decode failed for ".to_owned();
            m.append(device_path);
            m.append(": ");
            let text = err.to_string();
            m.append(text.as_str());
            return Err(RuntimeError::protocol_mismatch(m));
        },
    };
    if decoded.status != 0 {
        let mut m = "open response reported status ".to_owned();
        push_decimal(&mut m, decoded.status as u64);
        m.append(" for ");
        m.append(device_path);
        return Err(RuntimeError::open_failed(m));
    }
    Ok(RuntimeProbe {
        device_path: device_path.to_owned(),
        capabilities: Some(decoded.capabilities),
        protocol_major: Some(decoded.version.major),
        protocol_minor: Some(decoded.version.minor),
    })
}

/// The refused open reported when the open control call on `device_path`
/// failed.
pub fn open_call_failure(device_path: &str, last_error: u32) -> (e: RuntimeError)
    ensures
        e@ == open_failed_view(
            "DeviceIoControl(IOCTL_OPEN) failed for "@ + device_path@ + " with win32 error "@ + decimal(
                last_error as nat,
            ),
        ),
{
    RuntimeError::open_failed(call_failure_text(
        "DeviceIoControl(IOCTL_OPEN) failed for ",
        device_path,
        " with win32 error ",
        last_error as u64,
    ))
}

/// The I/O failure reported when receiving on `device_path` failed.
pub fn recv_call_failure(device_path: &str, last_error: u32) -> (e: RuntimeError)
    ensures
        e@ == io_failure_view(
            "DeviceIoControl(IOCTL_RECV) failed for "@ + device_path@ + " with win32 error "@ + decimal(
                last_error as nat,
            ),
        ),
{
    RuntimeError::io_failure(call_failure_text(
        "DeviceIoControl(IOCTL_RECV) failed for ",
        device_path,
        " with win32 error ",
        last_error as u64,
    ))
}

/// The I/O failure reported when sending on `device_path` failed.
pub fn send_call_failure(device_path: &str, last_error: u32) -> (e: RuntimeError)
    ensures
        e@ == io_failure_view(
            "DeviceIoControl(IOCTL_SEND) failed for "@ + device_path@ + " with win32 error "@ + decimal(
                last_error as nat,
            ),
        ),
{
    RuntimeError::io_failure(call_failure_text(
        "DeviceIoControl(IOCTL_SEND) failed for ",
        device_path,
        " with win32 error ",
        last_error as u64,
    ))
}

/// The I/O failure reported when closing the handle of `device_path`
/// failed.
pub fn close_call_failure(device_path: &str, last_error: u32) -> (e: RuntimeError)
    ensures
        e@ == io_failure_view(
            "CloseHandle failed for "@ + device_path@ + " with win32 error "@ + decimal(last_error as nat),
        ),
{
    RuntimeError::io_failure(call_failure_text("CloseHandle failed for ", device_path, " with win32 error ", last_error as u64))
}

} // verus!
