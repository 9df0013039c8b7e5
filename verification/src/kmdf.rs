//! The driver's runtime: filter evaluation, the handle state machine, the
//! event queue and reinjection table, and the IOCTL surface.
pub mod filter_eval;
pub mod queue;
pub mod reinject;
pub mod network_runtime;
pub mod runtime_device;
pub mod ioctl_dispatch;
pub mod glue_api;
