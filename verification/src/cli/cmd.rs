//! One module per command, and what they share.
pub mod budget;
pub mod common;
pub mod flowtrack;
pub mod netdump;
pub mod netfilter;
pub mod reflectctl;
pub mod socketdump;
