//! The error a command reports: which command, the exit code, a category,
//! a message and a suggestion.
use vstd::prelude::*;

verus! {

/// A command's failure.
#[derive(Debug, Clone, PartialEq, Eq)]
pub struct CliError {
    pub command: &'static str,
    pub code: u8,
    pub category: &'static str,
    pub message: String,
    pub suggestion: &'static str,
}

/// A command's failure as plain values.
pub struct CliErrorView {
    pub command: Seq<char>,
    pub code: u8,
    pub category: Seq<char>,
    pub message: Seq<char>,
    pub suggestion: Seq<char>,
}

impl View for CliError {
    type V = CliErrorView;

    open spec fn view(&self) -> CliErrorView {
        CliErrorView {
            command: self.command@,
            code: self.code,
            category: self.category@,
            message: self.message@,
            suggestion: self.suggestion@,
        }
    }
}

impl CliError {
    /// A bad argument: exit code 2, category `argument_error`.
    pub fn argument_error(command: &'static str, message: &str, suggestion: &'static str) -> (e: CliError)
        ensures
            e@ == (CliErrorView {
                command: command@,
                code: 2,
                category: "argument_error"@,
                message: message@,
                suggestion: suggestion@,
            }),
    {
        CliError { command, code: 2, category: "argument_error", message: message.to_owned(), suggestion }
    }

    /// A runtime failure carried over with its own code and category.
    pub fn from_runtime(
        command: &'static str,
        code: u8,
        category: &'static str,
        message: &str,
        suggestion: &'static str,
    ) -> (e: CliError)
        ensures
            e@ == (CliErrorView { command: command@, code, category: category@, message: message@, suggestion: suggestion@ }),
    {
        CliError { command, code, category, message: message.to_owned(), suggestion }
    }
}

} // verus!
