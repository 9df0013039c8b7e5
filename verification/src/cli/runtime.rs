//! Carrying runtime errors over into command errors.
use vstd::prelude::*;
use crate::cli::error::{CliError, CliErrorView};
use crate::user::runtime::RuntimeError;

verus! {

/// The command error that reports `err` for `command`: same code,
/// category, message and suggestion.
pub open spec fn runtime_cli_error(command: Seq<char>, err: crate::user::runtime::RuntimeErrorView) -> CliErrorView {
    CliErrorView {
        command,
        code: err.code,
        category: err.category,
        message: err.message,
        suggestion: err.suggestion,
    }
}

/// Whether `e` is `command`'s report of some runtime error: a failure the
/// transport, the clock or a received frame caused, not a refused argument.
pub open spec fn is_runtime_failure(command: Seq<char>, e: CliErrorView) -> bool {
    exists|err: crate::user::runtime::RuntimeErrorView| e == #[trigger] runtime_cli_error(command, err)
}

/// Reports a runtime error as `command`'s error.
pub fn map_runtime_error(command: &'static str, err: RuntimeError) -> (e: CliError)
    ensures
        e@ == runtime_cli_error(command@, err@),
{
    let message = err.to_string();
    CliError::from_runtime(command, err.code(), err.category(), message.as_str(), err.suggestion())
}

} // verus!
