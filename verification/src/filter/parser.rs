//! Parsing tokens into a filter expression.
//!
//! Grammar, loosest binding first: `or` chains of `and` chains of
//! `not`-prefixed primaries; a primary is a parenthesised expression, a
//! packet test `packet[off] == v` (also `packet16`, `packet32`), a field
//! test `field == value`, or a bare symbol.
use vstd::prelude::*;
use vstd::string::StringExecFns;
use crate::filter::fields::{lower_chars, str_eq_ignore_case};
use crate::filter::lexer::{Token, TokenKind, TokenKindView, TokenView, tokens_view};

verus! {

/// A filter expression.
#[derive(Debug, PartialEq, Eq)]
pub enum Expr {
    And(Box<Expr>, Box<Expr>),
    Or(Box<Expr>, Box<Expr>),
    Not(Box<Expr>),
    Predicate(Predicate),
}

/// How many bytes a packet test reads.
#[derive(Debug, Clone, Copy, PartialEq, Eq, Structural)]
pub enum PacketWidth {
    Byte,
    Word,
    Dword,
}

/// The right-hand side of a field test.
#[derive(Debug, Clone, PartialEq, Eq)]
pub enum Value {
    Number(u64),
    Symbol(String),
}

/// A test at the leaves of an expression.
#[derive(Debug, Clone, PartialEq, Eq)]
pub enum Predicate {
    BareSymbol(String),
    FieldEq { field: String, value: Value },
    PacketEq { width: PacketWidth, offset: u16, value: u64 },
}

/// A value with its symbol as a character sequence.
pub enum ValueView {
    Number(u64),
    Symbol(Seq<char>),
}

/// A predicate with its texts as character sequences.
pub enum PredicateView {
    BareSymbol(Seq<char>),
    FieldEq { field: Seq<char>, value: ValueView },
    PacketEq { width: PacketWidth, offset: u16, value: u64 },
}

/// An expression with its texts as character sequences.
pub enum ExprView {
    And(Box<ExprView>, Box<ExprView>),
    Or(Box<ExprView>, Box<ExprView>),
    Not(Box<ExprView>),
    Predicate(PredicateView),
}

/// Whether an expression tests packet bytes anywhere.
pub open spec fn reads_packet(e: ExprView) -> bool
    decreases e,
{
    match e {
        ExprView::And(l, r) => reads_packet(*l) || reads_packet(*r),
        ExprView::Or(l, r) => reads_packet(*l) || reads_packet(*r),
        ExprView::Not(x) => reads_packet(*x),
        ExprView::Predicate(p) => p is PacketEq,
    }
}

impl View for Value {
    type V = ValueView;

    open spec fn view(&self) -> ValueView {
        match self {
            Value::Number(n) => ValueView::Number(*n),
            Value::Symbol(s) => ValueView::Symbol(s@),
        }
    }
}

impl View for Predicate {
    type V = PredicateView;

    open spec fn view(&self) -> PredicateView {
        match self {
            Predicate::BareSymbol(s) => PredicateView::BareSymbol(s@),
            Predicate::FieldEq { field, value } => PredicateView::FieldEq { field: field@, value: value@ },
            Predicate::PacketEq { width, offset, value } => PredicateView::PacketEq {
                width: *width,
                offset: *offset,
                value: *value,
            },
        }
    }
}

/// The view of an expression.
pub open spec fn expr_view(e: Expr) -> ExprView
    decreases e,
{
    match e {
        Expr::And(l, r) => ExprView::And(Box::new(expr_view(*l)), Box::new(expr_view(*r))),
        Expr::Or(l, r) => ExprView::Or(Box::new(expr_view(*l)), Box::new(expr_view(*r))),
        Expr::Not(x) => ExprView::Not(Box::new(expr_view(*x))),
        Expr::Predicate(p) => ExprView::Predicate(p@),
    }
}

impl View for Expr {
    type V = ExprView;

    open spec fn view(&self) -> ExprView {
        expr_view(*self)
    }
}

/// Tokens that do not form an expression, with the position of the token
/// where parsing stopped.
#[derive(Debug)]
pub struct ParseError {
    pub pos: usize,
    pub message: String,
}

/// A parse error with its message as a character sequence.
pub struct ParseErrorView {
    pub pos: usize,
    pub message: Seq<char>,
}

impl View for ParseError {
    type V = ParseErrorView;

    open spec fn view(&self) -> ParseErrorView {
        ParseErrorView { pos: self.pos, message: self.message@ }
    }
}

/// What parsing from a token index gives: an expression and the index
/// after it, or an error.
pub type Parsed = Result<(ExprView, int), ParseErrorView>;

pub open spec fn parse_error(pos: usize, message: Seq<char>) -> ParseErrorView {
    ParseErrorView { pos, message }
}

/// The position of the last token, where a parse that ran out of tokens
/// stops (0 without tokens).
pub open spec fn spec_last_pos(t: Seq<TokenView>) -> usize {
    if t.len() > 0 { t.last().pos } else { 0 }
}

/// Whether token `i` exists and has kind `k`.
pub open spec fn kind_at(t: Seq<TokenView>, i: int, k: TokenKindView) -> bool {
    0 <= i < t.len() && t[i].kind == k
}

/// The index after a token of kind `k` expected at `i`.
pub open spec fn expect_at(t: Seq<TokenView>, i: int, k: TokenKindView, msg: Seq<char>) -> Result<int, ParseErrorView> {
    if i < t.len() {
        if t[i].kind == k { Ok(i + 1) } else { Err(parse_error(t[i].pos, msg)) }
    } else {
        Err(parse_error(spec_last_pos(t), msg))
    }
}

/// A number token expected at `i`.
pub open spec fn number_at(t: Seq<TokenView>, i: int, msg: Seq<char>) -> Result<u64, ParseErrorView> {
    if i < t.len() {
        match t[i].kind {
            TokenKindView::Number(n) => Ok(n),
            _ => Err(parse_error(t[i].pos, msg)),
        }
    } else {
        Err(parse_error(spec_last_pos(t), msg))
    }
}

/// The width a packet accessor name selects, in any letter case.
pub open spec fn packet_width(name: Seq<char>) -> Option<PacketWidth> {
    if lower_chars(name) == "packet"@ {
        Some(PacketWidth::Byte)
    } else if lower_chars(name) == "packet16"@ {
        Some(PacketWidth::Word)
    } else if lower_chars(name) == "packet32"@ {
        Some(PacketWidth::Dword)
    } else {
        None
    }
}

/// The rest of a packet test after `name[`, whose name token is at `at`;
/// `i` indexes the offset token.
pub open spec fn parse_packet_rest(t: Seq<TokenView>, at: int, name: Seq<char>, i: int) -> Parsed {
    match number_at(t, i, "expected packet offset"@) {
        Err(e) => Err(e),
        Ok(off) => if off > u16::MAX {
            Err(parse_error(t[at].pos, "packet offset is out of range"@))
        } else {
            match expect_at(t, i + 1, TokenKindView::RBracket, "expected ']'"@) {
                Err(e) => Err(e),
                Ok(j) => match expect_at(t, j, TokenKindView::EqEq, "expected '=='"@) {
                    Err(e) => Err(e),
                    Ok(k) => match number_at(t, k, "expected packet value"@) {
                        Err(e) => Err(e),
                        Ok(v) => match packet_width(name) {
                            None => Err(parse_error(t[at].pos, "unsupported packet accessor '"@ + name + "'"@)),
                            Some(w) => Ok((ExprView::Predicate(PredicateView::PacketEq { width: w, offset: off as u16, value: v }), k + 1)),
                        },
                    },
                },
            }
        },
    }
}

/// A primary at `i` that starts with the identifier `name`.
pub open spec fn parse_named(t: Seq<TokenView>, i: int, name: Seq<char>) -> Parsed {
    if kind_at(t, i + 1, TokenKindView::LBracket) {
        parse_packet_rest(t, i, name, i + 2)
    } else if kind_at(t, i + 1, TokenKindView::EqEq) {
        if i + 2 < t.len() {
            match t[i + 2].kind {
                TokenKindView::Number(n) => Ok((ExprView::Predicate(PredicateView::FieldEq { field: name, value: ValueView::Number(n) }), i + 3)),
                TokenKindView::Ident(v) => Ok((ExprView::Predicate(PredicateView::FieldEq { field: name, value: ValueView::Symbol(v) }), i + 3)),
                _ => Err(parse_error(t[i + 2].pos, "expected number or symbol after '=='"@)),
            }
        } else {
            Err(parse_error(t[i].pos, "expected value after '=='"@))
        }
    } else {
        Ok((ExprView::Predicate(PredicateView::BareSymbol(name)), i + 1))
    }
}

/// `a or b or ...` at `i`.
pub open spec fn spec_parse_or(t: Seq<TokenView>, i: int) -> Parsed
    decreases t.len() - i, 5int,
{
    if 0 <= i <= t.len() {
        match spec_parse_and(t, i) {
            Err(e) => Err(e),
            Ok((l, j)) => if i <= j <= t.len() { parse_or_rest(t, j, l) } else { Ok((l, j)) },
        }
    } else {
        Err(parse_error(spec_last_pos(t), "expected expression"@))
    }
}

/// The `or b or ...` that follows an operand `left` ending at `i`.
pub open spec fn parse_or_rest(t: Seq<TokenView>, i: int, left: ExprView) -> Parsed
    decreases t.len() - i, 4int,
{
    if 0 <= i && kind_at(t, i, TokenKindView::Or) {
        match spec_parse_and(t, i + 1) {
            Err(e) => Err(e),
            Ok((r, j)) => if i + 1 <= j <= t.len() {
                parse_or_rest(t, j, ExprView::Or(Box::new(left), Box::new(r)))
            } else {
                Ok((ExprView::Or(Box::new(left), Box::new(r)), j))
            },
        }
    } else {
        Ok((left, i))
    }
}

/// `a and b and ...` at `i`.
pub open spec fn spec_parse_and(t: Seq<TokenView>, i: int) -> Parsed
    decreases t.len() - i, 3int,
{
    if 0 <= i <= t.len() {
        match spec_parse_not(t, i) {
            Err(e) => Err(e),
            Ok((l, j)) => if i <= j <= t.len() { parse_and_rest(t, j, l) } else { Ok((l, j)) },
        }
    } else {
        Err(parse_error(spec_last_pos(t), "expected expression"@))
    }
}

/// The `and b and ...` that follows an operand `left` ending at `i`.
pub open spec fn parse_and_rest(t: Seq<TokenView>, i: int, left: ExprView) -> Parsed
    decreases t.len() - i, 2int,
{
    if 0 <= i && kind_at(t, i, TokenKindView::And) {
        match spec_parse_not(t, i + 1) {
            Err(e) => Err(e),
            Ok((r, j)) => if i + 1 <= j <= t.len() {
                parse_and_rest(t, j, ExprView::And(Box::new(left), Box::new(r)))
            } else {
                Ok((ExprView::And(Box::new(left), Box::new(r)), j))
            },
        }
    } else {
        Ok((left, i))
    }
}

/// `not ... not primary` at `i`.
pub open spec fn spec_parse_not(t: Seq<TokenView>, i: int) -> Parsed
    decreases t.len() - i, 1int,
{
    if 0 <= i && kind_at(t, i, TokenKindView::Not) {
        match spec_parse_not(t, i + 1) {
            Err(e) => Err(e),
            Ok((x, j)) => Ok((ExprView::Not(Box::new(x)), j)),
        }
    } else {
        spec_parse_primary(t, i)
    }
}

/// A primary at `i`.
pub open spec fn spec_parse_primary(t: Seq<TokenView>, i: int) -> Parsed
    decreases t.len() - i, 0int,
{
    if 0 <= i && kind_at(t, i, TokenKindView::LParen) {
        match spec_parse_or(t, i + 1) {
            Err(e) => Err(e),
            Ok((x, j)) => match expect_at(t, j, TokenKindView::RParen, "expected ')'"@) {
                Err(e) => Err(e),
                Ok(k) => Ok((x, k)),
            },
        }
    } else if i < 0 || i >= t.len() {
        Err(parse_error(spec_last_pos(t), "expected expression"@))
    } else {
        match t[i].kind {
            TokenKindView::Ident(name) => parse_named(t, i, name),
            _ => Err(parse_error(t[i].pos, "expected identifier"@)),
        }
    }
}

/// The expression the tokens form, or the first parse error.
pub open spec fn spec_parse(t: Seq<TokenView>) -> Result<ExprView, ParseErrorView> {
    match spec_parse_or(t, 0) {
        Err(e) => Err(e),
        Ok((x, j)) => if j != t.len() {
            Err(parse_error(t[j].pos, "unexpected trailing token"@))
        } else {
            Ok(x)
        },
    }
}

/// The outcome of an exec parse step agrees with the spec outcome `p`
/// from index `i`.
pub open spec fn parsed_matches(r: Result<(Expr, usize), ParseError>, p: Parsed, i: int, n: int) -> bool {
    match p {
        Ok((x, j)) => r matches Ok((e, k)) && e@ == x && k == j && i <= j <= n,
        Err(err) => r matches Err(e) && e@ == err,
    }
}

fn err_at(pos: usize, message: &str) -> (e: ParseError)
    ensures
        e@ == parse_error(pos, message@),
{
    ParseError { pos, message: message.to_owned() }
}

fn last_pos(tokens: &[Token]) -> (p: usize)
    ensures
        p == spec_last_pos(tokens_view(tokens@)),
{
    if tokens.len() > 0 {
        tokens[tokens.len() - 1].pos
    } else {
        0
    }
}

fn match_kind(tokens: &[Token], i: usize, k: &TokenKind) -> (r: bool)
    requires
        !(k is Ident) && !(k is Number),
    ensures
        r == kind_at(tokens_view(tokens@), i as int, k@),
{
    if i < tokens.len() {
        match (&tokens[i].kind, k) {
            (TokenKind::EqEq, TokenKind::EqEq) => true,
            (TokenKind::LBracket, TokenKind::LBracket) => true,
            (TokenKind::RBracket, TokenKind::RBracket) => true,
            (TokenKind::LParen, TokenKind::LParen) => true,
            (TokenKind::RParen, TokenKind::RParen) => true,
            (TokenKind::And, TokenKind::And) => true,
            (TokenKind::Or, TokenKind::Or) => true,
            (TokenKind::Not, TokenKind::Not) => true,
            _ => false,
        }
    } else {
        false
    }
}

fn expect_kind(tokens: &[Token], i: usize, k: &TokenKind, msg: &str) -> (r: Result<usize, ParseError>)
    requires
        !(k is Ident) && !(k is Number),
    ensures
        match expect_at(tokens_view(tokens@), i as int, k@, msg@) {
            Ok(j) => r == Ok::<usize, ParseError>(j as usize) && j <= tokens@.len(),
            Err(e) => r matches Err(x) && x@ == e,
        },
{
    if i < tokens.len() {
        if match_kind(tokens, i, k) {
            Ok(i + 1)
        } else {
            Err(err_at(tokens[i].pos, msg))
        }
    } else {
        Err(err_at(last_pos(tokens), msg))
    }
}

fn expect_number(tokens: &[Token], i: usize, msg: &str) -> (r: Result<u64, ParseError>)
    ensures
        match number_at(tokens_view(tokens@), i as int, msg@) {
            Ok(n) => r == Ok::<u64, ParseError>(n),
            Err(e) => r matches Err(x) && x@ == e,
        },
{
    if i < tokens.len() {
        match &tokens[i].kind {
            TokenKind::Number(n) => Ok(*n),
            _ => Err(err_at(tokens[i].pos, msg)),
        }
    } else {
        Err(err_at(last_pos(tokens), msg))
    }
}

fn packet_width_of(name: &str) -> (w: Option<PacketWidth>)
    ensures
        w == packet_width(name@),
{
    if str_eq_ignore_case(name, "packet") {
        Some(PacketWidth::Byte)
    } else if str_eq_ignore_case(name, "packet16") {
        Some(PacketWidth::Word)
    } else if str_eq_ignore_case(name, "packet32") {
        Some(PacketWidth::Dword)
    } else {
        None
    }
}

fn parse_packet_at(tokens: &[Token], at: usize, name: &String, i: usize) -> (r: Result<(Expr, usize), ParseError>)
    requires
        at < tokens@.len(),
        at + 2 == i,
    ensures
        parsed_matches(r, parse_packet_rest(tokens_view(tokens@), at as int, name@, i as int), at as int, tokens@.len() as int),
{
    let _n = tokens.len();
    let off = match expect_number(tokens, i, "expected packet offset") {
        Ok(n) => n,
        Err(e) => {
            return Err(e);
        },
    };
    if off > 0xffff {
        return Err(err_at(tokens[at].pos, "packet offset is out of range"));
    }
    let j = match expect_kind(tokens, i + 1, &TokenKind::RBracket, "expected ']'") {
        Ok(j) => j,
        Err(e) => {
            return Err(e);
        },
    };
    let k = match expect_kind(tokens, j, &TokenKind::EqEq, "expected '=='") {
        Ok(k) => k,
        Err(e) => {
            return Err(e);
        },
    };
    let v = match expect_number(tokens, k, "expected packet value") {
        Ok(v) => v,
        Err(e) => {
            return Err(e);
        },
    };
    match packet_width_of(name.as_str()) {
        None => {
            let mut message = "unsupported packet accessor '".to_owned();
            message.append(name.as_str());
            message.append("'");
            Err(ParseError { pos: tokens[at].pos, message })
        },
        Some(w) => Ok((Expr::Predicate(Predicate::PacketEq { width: w, offset: off as u16, value: v }), k + 1)),
    }
}

fn parse_named_at(tokens: &[Token], i: usize, name: &String) -> (r: Result<(Expr, usize), ParseError>)
    requires
        i < tokens@.len(),
    ensures
        parsed_matches(r, parse_named(tokens_view(tokens@), i as int, name@), i as int, tokens@.len() as int),
{
    let _n = tokens.len();
    if match_kind(tokens, i + 1, &TokenKind::LBracket) {
        parse_packet_at(tokens, i, name, i + 2)
    } else if match_kind(tokens, i + 1, &TokenKind::EqEq) {
        if i + 2 < tokens.len() {
            match &tokens[i + 2].kind {
                TokenKind::Number(n) => Ok((Expr::Predicate(Predicate::FieldEq { field: name.clone(), value: Value::Number(*n) }), i + 3)),
                TokenKind::Ident(v) => Ok((Expr::Predicate(Predicate::FieldEq { field: name.clone(), value: Value::Symbol(v.clone()) }), i + 3)),
                _ => Err(err_at(tokens[i + 2].pos, "expected number or symbol after '=='")),
            }
        } else {
            Err(err_at(tokens[i].pos, "expected value after '=='"))
        }
    } else {
        Ok((Expr::Predicate(Predicate::BareSymbol(name.clone())), i + 1))
    }
}

fn parse_or(tokens: &[Token], i: usize) -> (r: Result<(Expr, usize), ParseError>)
    requires
        i <= tokens@.len(),
    ensures
        parsed_matches(r, spec_parse_or(tokens_view(tokens@), i as int), i as int, tokens@.len() as int),
    decreases tokens@.len() - i, 5int,
{
    let _n = tokens.len();
    let ghost t = tokens_view(tokens@);
    let (mut left, mut k) = match parse_and(tokens, i) {
        Ok(v) => v,
        Err(e) => {
            return Err(e);
        },
    };
    while match_kind(tokens, k, &TokenKind::Or)
        invariant
            t == tokens_view(tokens@),
            i <= k <= tokens@.len(),
            tokens@.len() <= usize::MAX,
            spec_parse_or(t, i as int) == parse_or_rest(t, k as int, left@),
        decreases tokens@.len() - k,
    {
        let (right, j) = match parse_and(tokens, k + 1) {
            Ok(v) => v,
            Err(e) => {
                return Err(e);
            },
        };
        left = Expr::Or(Box::new(left), Box::new(right));
        k = j;
    }
    Ok((left, k))
}

fn parse_and(tokens: &[Token], i: usize) -> (r: Result<(Expr, usize), ParseError>)
    requires
        i <= tokens@.len(),
    ensures
        parsed_matches(r, spec_parse_and(tokens_view(tokens@), i as int), i as int, tokens@.len() as int),
    decreases tokens@.len() - i, 3int,
{
    let _n = tokens.len();
    let ghost t = tokens_view(tokens@);
    let (mut left, mut k) = match parse_not(tokens, i) {
        Ok(v) => v,
        Err(e) => {
            return Err(e);
        },
    };
    while match_kind(tokens, k, &TokenKind::And)
        invariant
            t == tokens_view(tokens@),
            i <= k <= tokens@.len(),
            tokens@.len() <= usize::MAX,
            spec_parse_and(t, i as int) == parse_and_rest(t, k as int, left@),
        decreases tokens@.len() - k,
    {
        let (right, j) = match parse_not(tokens, k + 1) {
            Ok(v) => v,
            Err(e) => {
                return Err(e);
            },
        };
        left = Expr::And(Box::new(left), Box::new(right));
        k = j;
    }
    Ok((left, k))
}

fn parse_not(tokens: &[Token], i: usize) -> (r: Result<(Expr, usize), ParseError>)
    requires
        i <= tokens@.len(),
    ensures
        parsed_matches(r, spec_parse_not(tokens_view(tokens@), i as int), i as int, tokens@.len() as int),
    decreases tokens@.len() - i, 1int,
{
    let _n = tokens.len();
    if match_kind(tokens, i, &TokenKind::Not) {
        match parse_not(tokens, i + 1) {
            Ok((x, j)) => Ok((Expr::Not(Box::new(x)), j)),
            Err(e) => Err(e),
        }
    } else {
        parse_primary(tokens, i)
    }
}

fn parse_primary(tokens: &[Token], i: usize) -> (r: Result<(Expr, usize), ParseError>)
    requires
        i <= tokens@.len(),
    ensures
        parsed_matches(r, spec_parse_primary(tokens_view(tokens@), i as int), i as int, tokens@.len() as int),
    decreases tokens@.len() - i, 0int,
{
    let _n = tokens.len();
    if match_kind(tokens, i, &TokenKind::LParen) {
        let (inner, j) = match parse_or(tokens, i + 1) {
            Ok(v) => v,
            Err(e) => {
                return Err(e);
            },
        };
        match expect_kind(tokens, j, &TokenKind::RParen, "expected ')'") {
            Ok(k) => Ok((inner, k)),
            Err(e) => Err(e),
        }
    } else if i >= tokens.len() {
        Err(err_at(last_pos(tokens), "expected expression"))
    } else {
        match &tokens[i].kind {
            TokenKind::Ident(name) => parse_named_at(tokens, i, name),
            _ => Err(err_at(tokens[i].pos, "expected identifier")),
        }
    }
}

/// Parses a token sequence into one expression that uses every token.
pub fn parse(tokens: &[Token]) -> (r: Result<Expr, ParseError>)
    ensures
        match spec_parse(tokens_view(tokens@)) {
            Ok(x) => r matches Ok(e) && e@ == x,
            Err(err) => r matches Err(e) && e@ == err,
        },
{
    let (expr, j) = match parse_or(tokens, 0) {
        Ok(v) => v,
        Err(e) => {
            return Err(e);
        },
    };
    if j != tokens.len() {
        return Err(err_at(tokens[j].pos, "unexpected trailing token"));
    }
    Ok(expr)
}

proof fn lemma_or_rest_shape(t: Seq<TokenView>, i: int, left: ExprView)
    ensures
        parse_or_rest(t, i, left) matches Ok((e, j)) ==> if kind_at(t, i, TokenKindView::Or) {
            e is Or
        } else {
            e == left && j == i
        },
    decreases t.len() - i,
{
    if kind_at(t, i, TokenKindView::Or) {
        if let Ok((r, j)) = spec_parse_and(t, i + 1) {
            if i + 1 <= j <= t.len() {
                lemma_or_rest_shape(t, j, ExprView::Or(Box::new(left), Box::new(r)));
            }
        }
    }
}

proof fn lemma_and_rest_shape(t: Seq<TokenView>, i: int, left: ExprView)
    ensures
        parse_and_rest(t, i, left) matches Ok((e, j)) ==> if kind_at(t, i, TokenKindView::And) {
            e is And
        } else {
            e == left && j == i
        },
    decreases t.len() - i,
{
    if kind_at(t, i, TokenKindView::And) {
        if let Ok((r, j)) = spec_parse_not(t, i + 1) {
            if i + 1 <= j <= t.len() {
                lemma_and_rest_shape(t, j, ExprView::And(Box::new(left), Box::new(r)));
            }
        }
    }
}

/// `not` binds tighter than `and`, and `and` tighter than `or`, over any
/// tokens: the `or` level joins operands only at `or` tokens and only into
/// `Or` nodes, the `and` level only at `and` tokens into `And` nodes; so an
/// `or`-level parse whose result is not an `Or` is exactly the `and`-level
/// parse (no `or` was consumed), and an `and`-level parse whose result is
/// not an `And` is exactly a single `not`-level operand.
pub proof fn lemma_operator_precedence(t: Seq<TokenView>, i: int, left: ExprView)
    ensures
        parse_or_rest(t, i, left) matches Ok((e, j)) ==> (kind_at(t, i, TokenKindView::Or) ==> e is Or)
            && (!kind_at(t, i, TokenKindView::Or) ==> e == left && j == i),
        parse_and_rest(t, i, left) matches Ok((e, j)) ==> (kind_at(t, i, TokenKindView::And) ==> e is And)
            && (!kind_at(t, i, TokenKindView::And) ==> e == left && j == i),
        spec_parse_or(t, i) matches Ok((e, _)) && !(e is Or) ==> spec_parse_or(t, i) == spec_parse_and(t, i),
        spec_parse_and(t, i) matches Ok((e, _)) && !(e is And) ==> spec_parse_and(t, i) == spec_parse_not(t, i),
{
    lemma_or_rest_shape(t, i, left);
    lemma_and_rest_shape(t, i, left);
    if 0 <= i <= t.len() {
        if let Ok((l, j)) = spec_parse_and(t, i) {
            if i <= j <= t.len() {
                lemma_or_rest_shape(t, j, l);
                if kind_at(t, j, TokenKindView::Or) {
                    if let Ok((e, _)) = parse_or_rest(t, j, l) {
                        assert(e is Or);
                    }
                }
            }
        }
        if let Ok((l, j)) = spec_parse_not(t, i) {
            if i <= j <= t.len() {
                lemma_and_rest_shape(t, j, l);
            }
        }
    }
}

} // verus!
