//! User-mode and driver-side core of a packet interception runtime: the wire
//! protocol shared by both sides, the filter language compiler and its
//! binary program format, the driver's queueing and reinjection state
//! machines, and the user-mode event decoding helpers.
use vstd::prelude::*;

pub mod shared;
pub mod wire;
pub mod proto;
pub mod kmdf_core;
pub mod kmdf;
pub mod text;
pub mod filter;
pub mod user;
pub mod cli;
pub mod demo;
