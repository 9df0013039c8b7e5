//! The decisions of the two demonstration programs: redirecting DNS
//! requests to another server, and monitoring socket and flow events.
pub mod conn_monitor;
pub mod dns_redirect;
