//! The user-mode side: decoding received events, repairing packet
//! checksums, preparing handles, and the runtime transport interface.
pub mod device;
pub mod error;
pub mod frame;
pub mod handle;
pub mod runtime;
pub mod test_support;
pub mod win32;
