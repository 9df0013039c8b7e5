//! The runtime interface: how a handle is opened, what opening reports,
//! runtime errors, and the transport and session traits that carry
//! frames to and from the device.
use vstd::prelude::*;
use crate::proto::Layer;
use crate::user::device::DeviceAvailability;
use crate::text::join3;

verus! {

/// What opening a handle reported.
#[derive(Debug, Clone, PartialEq, Eq)]
pub struct RuntimeProbe {
    pub device_path: String,
    pub capabilities: Option<u32>,
    pub protocol_major: Option<u16>,
    pub protocol_minor: Option<u16>,
}

/// How to open a handle: the layer, the encoded filter, the priority and
/// the flags.
#[derive(Debug, Clone, PartialEq, Eq)]
pub struct RuntimeOpenConfig {
    layer: Layer,
    filter_ir: Vec<u8>,
    priority: i16,
    flags: u64,
}

impl RuntimeOpenConfig {
    pub closed spec fn spec_layer(&self) -> Layer {
        self.layer
    }

    pub closed spec fn spec_filter_ir(&self) -> Seq<u8> {
        self.filter_ir@
    }

    pub closed spec fn spec_priority(&self) -> i16 {
        self.priority
    }

    pub closed spec fn spec_flags(&self) -> u64 {
        self.flags
    }

    pub fn new(layer: Layer, filter_ir: Vec<u8>, priority: i16, flags: u64) -> (c: RuntimeOpenConfig)
        ensures
            c.spec_layer() == layer,
            c.spec_filter_ir() == filter_ir@,
            c.spec_priority() == priority,
            c.spec_flags() == flags,
    {
        RuntimeOpenConfig { layer, filter_ir, priority, flags }
    }

    /// A Network handle with the given filter, priority 0 and no flags.
    pub fn network(filter_ir: Vec<u8>) -> (c: RuntimeOpenConfig)
        ensures
            c.spec_layer() == Layer::Network,
            c.spec_filter_ir() == filter_ir@,
            c.spec_priority() == 0,
            c.spec_flags() == 0,
    {
        Self::new(Layer::Network, filter_ir, 0, 0)
    }

    /// A Socket handle without a filter.
    pub fn socket() -> (c: RuntimeOpenConfig)
        ensures
            c.spec_layer() == Layer::Socket,
            c.spec_filter_ir() == Seq::<u8>::empty(),
            c.spec_priority() == 0,
            c.spec_flags() == 0,
    {
        Self::new(Layer::Socket, Vec::new(), 0, 0)
    }

    /// A Flow handle without a filter.
    pub fn flow() -> (c: RuntimeOpenConfig)
        ensures
            c.spec_layer() == Layer::Flow,
            c.spec_filter_ir() == Seq::<u8>::empty(),
            c.spec_priority() == 0,
            c.spec_flags() == 0,
    {
        Self::new(Layer::Flow, Vec::new(), 0, 0)
    }

    /// A Reflect handle without a filter.
    pub fn reflect() -> (c: RuntimeOpenConfig)
        ensures
            c.spec_layer() == Layer::Reflect,
            c.spec_filter_ir() == Seq::<u8>::empty(),
            c.spec_priority() == 0,
            c.spec_flags() == 0,
    {
        Self::new(Layer::Reflect, Vec::new(), 0, 0)
    }

    pub fn layer(&self) -> (l: Layer)
        ensures
            l == self.spec_layer(),
    {
        self.layer
    }

    pub fn filter_ir(&self) -> (b: &[u8])
        ensures
            b@ == self.spec_filter_ir(),
    {
        self.filter_ir.as_slice()
    }

    pub fn priority(&self) -> (p: i16)
        ensures
            p == self.spec_priority(),
    {
        self.priority
    }

    pub fn flags(&self) -> (f: u64)
        ensures
            f == self.spec_flags(),
    {
        self.flags
    }
}

/// A runtime failure with its exit code, category, message and a
/// suggestion for the user.
#[derive(Debug, Clone, PartialEq, Eq)]
pub struct RuntimeError {
    code: u8,
    category: &'static str,
    message: String,
    suggestion: &'static str,
}

/// A runtime error as plain values.
pub struct RuntimeErrorView {
    pub code: u8,
    pub category: Seq<char>,
    pub message: Seq<char>,
    pub suggestion: Seq<char>,
}

impl View for RuntimeError {
    type V = RuntimeErrorView;

    closed spec fn view(&self) -> RuntimeErrorView {
        RuntimeErrorView { code: self.code, category: self.category@, message: self.message@, suggestion: self.suggestion@ }
    }
}

/// The view of an I/O failure with `message`.
pub open spec fn io_failure_view(message: Seq<char>) -> RuntimeErrorView {
    RuntimeErrorView {
        code: 6,
        category: "io_failure"@,
        message,
        suggestion: "retry the command and inspect verbose diagnostics"@,
    }
}

/// The view of the error that reports no device at `path`.
pub open spec fn device_unavailable_view(path: Seq<char>) -> RuntimeErrorView {
    RuntimeErrorView {
        code: 3,
        category: "device_unavailable"@,
        message: "WdRust device not found at "@ + path + ""@,
        suggestion: "verify driver is installed and device link is present"@,
    }
}

impl RuntimeError {
    /// The device was not found at `path` (code 3).
    pub fn device_unavailable(path: &str) -> (e: RuntimeError)
        ensures
            e@ == (RuntimeErrorView {
                code: 3,
                category: "device_unavailable"@,
                message: "WdRust device not found at "@ + path@ + ""@,
                suggestion: "verify driver is installed and device link is present"@,
            }),
    {
        RuntimeError {
            code: 3,
            category: "device_unavailable",
            message: join3("WdRust device not found at ", path, ""),
            suggestion: "verify driver is installed and device link is present",
        }
    }

    /// Opening failed (code 4).
    pub fn open_failed(message: String) -> (e: RuntimeError)
        ensures
            e@ == (RuntimeErrorView {
                code: 4,
                category: "open_failed"@,
                message: message@,
                suggestion: "verify permissions and exclusive access settings"@,
            }),
    {
        RuntimeError {
            code: 4,
            category: "open_failed",
            message,
            suggestion: "verify permissions and exclusive access settings",
        }
    }

    /// The two sides speak different protocol versions (code 5).
    pub fn protocol_mismatch(message: String) -> (e: RuntimeError)
        ensures
            e@ == (RuntimeErrorView {
                code: 5,
                category: "protocol_mismatch"@,
                message: message@,
                suggestion: "verify driver and user-mode binaries are from the same build"@,
            }),
    {
        RuntimeError {
            code: 5,
            category: "protocol_mismatch",
            message,
            suggestion: "verify driver and user-mode binaries are from the same build",
        }
    }

    /// Input or output failed (code 6).
    pub fn io_failure(message: String) -> (e: RuntimeError)
        ensures
            e@ == (RuntimeErrorView {
                code: 6,
                category: "io_failure"@,
                message: message@,
                suggestion: "retry the command and inspect verbose diagnostics"@,
            }),
    {
        RuntimeError {
            code: 6,
            category: "io_failure",
            message,
            suggestion: "retry the command and inspect verbose diagnostics",
        }
    }

    pub fn code(&self) -> (c: u8)
        ensures
            c == self@.code,
    {
        self.code
    }

    pub fn category(&self) -> (c: &'static str)
        ensures
            c@ == self@.category,
    {
        self.category
    }

    pub fn message(&self) -> (m: &str)
        ensures
            m@ == self@.message,
    {
        self.message.as_str()
    }

    pub fn suggestion(&self) -> (s: &'static str)
        ensures
            s@ == self@.suggestion,
    {
        self.suggestion
    }

    /// The error's text: its message.
    pub fn to_string(&self) -> (s: String)
        ensures
            s@ == self@.message,
    {
        self.message.clone()
    }
}

/// An open session with the device: receives and sends frames.
pub trait RuntimeSession: Sized {
    fn recv_one(&mut self, max_bytes: usize) -> Result<Vec<u8>, RuntimeError>;

    fn send_one(&mut self, bytes: &[u8]) -> Result<(), RuntimeError>;

    fn close(self) -> Result<(), RuntimeError>;
}

/// A way to reach the device: probe for it, open handles and sessions.
pub trait RuntimeTransport {
    type Session: RuntimeSession;

    fn probe(&self) -> Result<DeviceAvailability, RuntimeError>;

    fn open(&self, config: &RuntimeOpenConfig) -> Result<RuntimeProbe, RuntimeError>;

    fn open_session(&self, config: &RuntimeOpenConfig) -> Result<Self::Session, RuntimeError>;

    /// Releases the transport. Unless an implementation says otherwise,
    /// there is nothing to release and closing succeeds.
    fn close(&self) -> (r: Result<(), RuntimeError>)
        default_ensures
            r is Ok,
    {
        Ok(())
    }
}

} // verus!
