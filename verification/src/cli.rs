//! The command-line tools' core: argument checks, the conversations with
//! the runtime transport, and the rendering of results and errors as text
//! or JSON lines.
pub mod cmd;
pub mod error;
pub mod fixtures;
pub mod output;
pub mod runtime;

use vstd::prelude::*;
use crate::cli::cmd::flowtrack::{flowtrack_arguments, FlowtrackCmd};
use crate::cli::cmd::netdump::{netdump_arguments, NetdumpCmd};
use crate::cli::cmd::netfilter::{netfilter_arguments, NetfilterCmd};
use crate::cli::cmd::reflectctl::{reflect_error, ReflectctlCmd};
use crate::cli::cmd::socketdump::{socketdump_arguments, SocketdumpCmd};
use crate::cli::error::CliError;
use crate::cli::output::OutputMode;
use crate::user::runtime::{io_failure_view, RuntimeTransport};

verus! {

/// The tool's arguments: one command.
#[derive(Debug)]
pub struct Cli {
    pub command: Commands,
}

/// The commands of the tool.
#[derive(Debug)]
pub enum Commands {
    Netdump(NetdumpCmd),
    Netfilter(NetfilterCmd),
    Flowtrack(FlowtrackCmd),
    Socketdump(SocketdumpCmd),
    Reflectctl(ReflectctlCmd),
}

/// Whether a command asked for JSON output.
pub open spec fn wants_json(command: Commands) -> bool {
    match command {
        Commands::Netdump(c) => c.json,
        Commands::Netfilter(c) => c.json,
        Commands::Flowtrack(c) => c.json,
        Commands::Socketdump(c) => c.json,
        Commands::Reflectctl(c) => c.json,
    }
}

impl Commands {
    /// How the command prints: JSON when it asked for it.
    pub fn output_mode(&self) -> (m: OutputMode)
        ensures
            m == OutputMode::spec_from_json_flag(wants_json(*self)),
    {
        let json = match self {
            Commands::Netdump(c) => c.json,
            Commands::Netfilter(c) => c.json,
            Commands::Flowtrack(c) => c.json,
            Commands::Socketdump(c) => c.json,
            Commands::Reflectctl(c) => c.json,
        };
        OutputMode::from_json_flag(json)
    }

    /// Runs the command against `transport`. A refused argument is
    /// reported as the command reports it, before the transport is
    /// reached.
    pub fn execute_with_transport<T: RuntimeTransport>(self, transport: T) -> (r: Result<String, CliError>)
        ensures
            match self {
                Commands::Netdump(c) => netdump_arguments(c) matches Err(e) ==> (r matches Err(x) && x@ == e),
                Commands::Netfilter(c) => netfilter_arguments(c) matches Err(e) ==> (r matches Err(x) && x@ == e),
                Commands::Flowtrack(c) => flowtrack_arguments(c) matches Err(e) ==> (r matches Err(x) && x@ == e),
                Commands::Socketdump(c) => socketdump_arguments(c) matches Err(e) ==> (r matches Err(x) && x@ == e),
                Commands::Reflectctl(c) => c.timeout_ms == 0 ==> (r matches Err(x) && x@ == reflect_error(
                    c.action,
                    c.timeout_ms,
                    c.verbose,
                    io_failure_view("timeout-ms must be greater than 0"@),
                )),
            },
    {
        match self {
            Commands::Netdump(c) => c.execute_with_transport(transport),
            Commands::Netfilter(c) => c.execute_with_transport(transport),
            Commands::Flowtrack(c) => c.execute_with_transport(transport),
            Commands::Socketdump(c) => c.execute_with_transport(transport),
            Commands::Reflectctl(c) => c.execute_with_transport(transport),
        }
    }
}

} // verus!
