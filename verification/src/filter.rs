//! The filter language: text is lexed, parsed, checked and lowered into a
//! stack program, which has a binary encoding (`WDIR`) that the driver
//! decodes and evaluates.
pub mod fields;
pub mod ir;
pub mod lexer;
pub mod parser;
pub mod semantics;
pub mod lower;

use vstd::prelude::*;
use crate::filter::ir::{FilterIr, IrView, ir_encodable, spec_decode_ir, spec_ir_bytes, lemma_ir_roundtrip};
use crate::filter::lexer::{LexError, LexErrorView, lex, spec_lex, tokens_view};
use crate::filter::parser::{ParseError, ParseErrorView, parse, spec_parse};
use crate::filter::semantics::{
    SemanticError, analyze, spec_analyze, lemma_analysis_bounds, known_layer_bits, strictly_sorted,
    lemma_referenced_fields_sorted, lemma_sorted_names_unique, lemma_visit_payload, lemma_visit_keeps_network, spec_visit,
    no_findings,
};
use crate::filter::lower::{
    lower, spec_lower, lemma_lowered_ops_encodable, stack_depth, has_packet_load, lowered_well_shaped,
    lemma_lowered_program_shape,
};
use crate::filter::parser::reads_packet;
use crate::text::{decimal, push_decimal};
use vstd::string::StringExecFns;

verus! {

/// Why filter text did not compile: the stage that refused it.
#[derive(Debug)]
pub enum CompileError {
    Lex(LexError),
    Parse(ParseError),
    Semantic(SemanticError),
}

/// A compile error with its texts as character sequences.
pub enum CompileErrorView {
    Lex(LexErrorView),
    Parse(ParseErrorView),
    Semantic(Seq<char>),
}

impl View for CompileError {
    type V = CompileErrorView;

    open spec fn view(&self) -> CompileErrorView {
        match self {
            CompileError::Lex(e) => CompileErrorView::Lex(e@),
            CompileError::Parse(e) => CompileErrorView::Parse(e@),
            CompileError::Semantic(e) => CompileErrorView::Semantic(e@),
        }
    }
}

/// What compiling `text` gives: its tokens are parsed into an expression,
/// which is analysed and then lowered; the first stage that fails decides
/// the error.
pub open spec fn spec_compile(text: Seq<char>) -> Result<IrView, CompileErrorView> {
    match spec_lex(text) {
        Err(e) => Err(CompileErrorView::Lex(e)),
        Ok(tokens) => match spec_parse(tokens) {
            Err(e) => Err(CompileErrorView::Parse(e)),
            Ok(expr) => match spec_analyze(expr) {
                Err(m) => Err(CompileErrorView::Semantic(m)),
                Ok(info) => match spec_lower(expr, info) {
                    Err(m) => Err(CompileErrorView::Semantic(m)),
                    Ok(ir) => Ok(ir),
                },
            },
        },
    }
}

/// Compiles filter text into a filter program.
pub fn compile(input: &str) -> (r: Result<FilterIr, CompileError>)
    ensures
        match spec_compile(input@) {
            Ok(ir) => r matches Ok(x) && x@ == ir,
            Err(e) => r matches Err(x) && x@ == e,
        },
{
    let tokens = match lex(input) {
        Ok(t) => t,
        Err(e) => {
            return Err(CompileError::Lex(e));
        },
    };
    let expr = match parse(tokens.as_slice()) {
        Ok(x) => x,
        Err(e) => {
            return Err(CompileError::Parse(e));
        },
    };
    let info = match analyze(&expr) {
        Ok(i) => i,
        Err(e) => {
            return Err(CompileError::Semantic(e));
        },
    };
    match lower(&expr, info) {
        Ok(ir) => Ok(ir),
        Err(e) => Err(CompileError::Semantic(e)),
    }
}

/// The text of a lex error.
pub open spec fn lex_error_text(e: LexErrorView) -> Seq<char> {
    "lex error at position "@ + decimal(e.pos as nat) + ": "@ + e.message
}

/// The text of a parse error.
pub open spec fn parse_error_text(e: ParseErrorView) -> Seq<char> {
    "parse error at token "@ + decimal(e.pos as nat) + ": "@ + e.message
}

/// The text of a compile error: that of the stage's error.
pub open spec fn compile_error_text(e: CompileErrorView) -> Seq<char> {
    match e {
        CompileErrorView::Lex(x) => lex_error_text(x),
        CompileErrorView::Parse(x) => parse_error_text(x),
        CompileErrorView::Semantic(m) => m,
    }
}

impl LexError {
    /// `lex error at position {pos}: {message}`.
    pub fn to_string(&self) -> (s: String)
        ensures
            s@ == lex_error_text(self@),
    {
        let mut s = "lex error at position ".to_owned();
        push_decimal(&mut s, self.pos as u64);
        s.append(": ");
        s.append(self.message.as_str());
        s
    }
}

impl ParseError {
    /// `parse error at token {pos}: {message}`.
    pub fn to_string(&self) -> (s: String)
        ensures
            s@ == parse_error_text(self@),
    {
        let mut s = "parse error at token ".to_owned();
        push_decimal(&mut s, self.pos as u64);
        s.append(": ");
        s.append(self.message.as_str());
        s
    }
}

impl SemanticError {
    /// The error's message.
    pub fn to_string(&self) -> (s: String)
        ensures
            s@ == self@,
    {
        self.message().to_owned()
    }
}

impl CompileError {
    /// The text of the failing stage's error.
    pub fn to_string(&self) -> (s: String)
        ensures
            s@ == compile_error_text(self@),
    {
        match self {
            CompileError::Lex(e) => e.to_string(),
            CompileError::Parse(e) => e.to_string(),
            CompileError::Semantic(e) => e.to_string(),
        }
    }
}


/// A filter that compiles, and whose program has at most 4096
/// instructions, is within what the `WDIR` decoder accepts: decoding its
/// encoding gives the same filter back.
pub proof fn lemma_compiled_filter_roundtrip(text: Seq<char>)
    requires
        spec_compile(text) matches Ok(ir) && ir.program.len() <= 4096,
    ensures
        spec_compile(text) matches Ok(ir) && ir_encodable(ir) && (spec_decode_ir(spec_ir_bytes(ir)) matches Ok(d)
            && d.required_layers == ir.required_layers && d.needs_payload == ir.needs_payload
            && d.referenced_fields == ir.referenced_fields && d.program == ir.program),
{
    let tokens = spec_lex(text)->Ok_0;
    let expr = spec_parse(tokens)->Ok_0;
    lemma_analysis_bounds(expr);
    lemma_lowered_ops_encodable(expr);
    let ir = spec_compile(text)->Ok_0;
    assert(known_layer_bits(ir.required_layers));
    assert(ir.required_layers & !0x1fu8 == 0);
    assert(ir_encodable(ir));
    lemma_ir_roundtrip(ir);
}

/// Every compiled filter lists its referenced field names in strictly
/// increasing byte order, so none twice; its program is a well-formed
/// stack program that leaves exactly one result; it needs the packet
/// payload exactly when its program loads packet bytes; and a filter that
/// needs the payload requires the Network layer.
pub proof fn lemma_compiled_filter_shape(text: Seq<char>)
    ensures
        spec_compile(text) matches Ok(ir) ==> {
            &&& strictly_sorted(ir.referenced_fields)
            &&& forall|i: int, j: int|
                0 <= i < ir.referenced_fields.len() && 0 <= j < ir.referenced_fields.len() && i != j
                    ==> ir.referenced_fields[i] != ir.referenced_fields[j]
            &&& stack_depth(ir.program, 0) == Some(1int)
            &&& (ir.needs_payload <==> has_packet_load(ir.program))
            &&& (ir.needs_payload ==> ir.required_layers & 1u8 == 1u8)
        },
{
    if let Ok(ir) = spec_compile(text) {
        let tokens = spec_lex(text)->Ok_0;
        let expr = spec_parse(tokens)->Ok_0;
        lemma_referenced_fields_sorted(expr);
        lemma_sorted_names_unique(ir.referenced_fields);
        lemma_lowered_program_shape(expr);
        reveal(lowered_well_shaped);
        lemma_visit_payload(expr, no_findings(), false, true);
        lemma_visit_keeps_network(expr, no_findings(), false, true);
        assert(ir.needs_payload == reads_packet(expr));
    }
}

} // verus!
