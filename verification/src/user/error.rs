//! Errors of the user-mode helpers.
use vstd::prelude::*;
use crate::filter::{CompileError, CompileErrorView, compile_error_text};
use crate::text::{decimal, with_number};
use crate::proto::RuntimeEventDecodeError;

verus! {

/// Why a user-mode helper failed.
#[derive(Debug)]
pub enum UserError {
    FilterCompile(CompileError),
    InvalidFrame(&'static str),
    IncompatibleLayer(&'static str),
    OpenResponseStatus(u32),
    ProtocolVersionMismatch,
}

/// A user error with its texts as character sequences.
pub enum UserErrorView {
    FilterCompile(CompileErrorView),
    InvalidFrame(Seq<char>),
    IncompatibleLayer(Seq<char>),
    OpenResponseStatus(u32),
    ProtocolVersionMismatch,
}

impl View for UserError {
    type V = UserErrorView;

    open spec fn view(&self) -> UserErrorView {
        match self {
            UserError::FilterCompile(e) => UserErrorView::FilterCompile(e@),
            UserError::InvalidFrame(m) => UserErrorView::InvalidFrame(m@),
            UserError::IncompatibleLayer(m) => UserErrorView::IncompatibleLayer(m@),
            UserError::OpenResponseStatus(s) => UserErrorView::OpenResponseStatus(*s),
            UserError::ProtocolVersionMismatch => UserErrorView::ProtocolVersionMismatch,
        }
    }
}

/// The text of a user error.
pub open spec fn user_error_text(e: UserErrorView) -> Seq<char> {
    match e {
        UserErrorView::FilterCompile(c) => compile_error_text(c),
        UserErrorView::InvalidFrame(m) => m,
        UserErrorView::IncompatibleLayer(m) => m,
        UserErrorView::OpenResponseStatus(s) => "open response returned non-zero status: "@ + decimal(s as nat) + ""@,
        UserErrorView::ProtocolVersionMismatch => "protocol version mismatch"@,
    }
}

/// The text a frame that fails to decode reports.
pub open spec fn undecodable_frame_text() -> Seq<char> {
    "runtime event frame does not decode"@
}

impl UserError {
    /// The error's text.
    pub fn to_string(&self) -> (s: String)
        ensures
            s@ == user_error_text(self@),
    {
        match self {
            UserError::FilterCompile(e) => e.to_string(),
            UserError::InvalidFrame(m) => (*m).to_owned(),
            UserError::IncompatibleLayer(m) => (*m).to_owned(),
            UserError::OpenResponseStatus(s) => with_number("open response returned non-zero status: ", *s as u64, ""),
            UserError::ProtocolVersionMismatch => "protocol version mismatch".to_owned(),
        }
    }

    /// The error for a compile failure.
    pub fn from_compile(e: CompileError) -> (u: UserError)
        ensures
            u@ == UserErrorView::FilterCompile(e@),
    {
        UserError::FilterCompile(e)
    }

    /// The error for a runtime frame that does not decode.
    pub fn from_decode(e: RuntimeEventDecodeError) -> (u: UserError)
        ensures
            u@ == UserErrorView::InvalidFrame(undecodable_frame_text()),
    {
        UserError::InvalidFrame("runtime event frame does not decode")
    }
}

} // verus!
