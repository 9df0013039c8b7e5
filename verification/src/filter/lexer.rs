//! Splitting filter text into tokens.
//!
//! Positions count characters from the start of the text. Every character
//! before a token, or before the character a lex error points at, is ASCII,
//! so a position is also the byte offset of that token in the UTF-8 text.
use vstd::prelude::*;
use crate::filter::fields::{lower_chars, str_eq_ignore_case};
use crate::text::{push_char, chars_of};

verus! {

/// What a token is.
#[derive(Debug, Clone, PartialEq, Eq)]
pub enum TokenKind {
    Ident(String),
    Number(u64),
    EqEq,
    LBracket,
    RBracket,
    LParen,
    RParen,
    And,
    Or,
    Not,
}

/// A token kind with its identifier as a character sequence.
pub enum TokenKindView {
    Ident(Seq<char>),
    Number(u64),
    EqEq,
    LBracket,
    RBracket,
    LParen,
    RParen,
    And,
    Or,
    Not,
}

impl View for TokenKind {
    type V = TokenKindView;

    open spec fn view(&self) -> TokenKindView {
        match self {
            TokenKind::Ident(s) => TokenKindView::Ident(s@),
            TokenKind::Number(n) => TokenKindView::Number(*n),
            TokenKind::EqEq => TokenKindView::EqEq,
            TokenKind::LBracket => TokenKindView::LBracket,
            TokenKind::RBracket => TokenKindView::RBracket,
            TokenKind::LParen => TokenKindView::LParen,
            TokenKind::RParen => TokenKindView::RParen,
            TokenKind::And => TokenKindView::And,
            TokenKind::Or => TokenKindView::Or,
            TokenKind::Not => TokenKindView::Not,
        }
    }
}

/// A token and the position where it starts.
#[derive(Debug, Clone, PartialEq, Eq)]
pub struct Token {
    pub kind: TokenKind,
    pub pos: usize,
}

/// A token as a kind view and a position.
pub struct TokenView {
    pub kind: TokenKindView,
    pub pos: usize,
}

impl View for Token {
    type V = TokenView;

    open spec fn view(&self) -> TokenView {
        TokenView { kind: self.kind@, pos: self.pos }
    }
}

/// Views of a sequence of tokens.
pub open spec fn tokens_view(ts: Seq<Token>) -> Seq<TokenView> {
    Seq::new(ts.len(), |k: int| ts[k]@)
}

/// Text that does not lex, with the position of the offending character.
#[derive(Debug)]
pub struct LexError {
    pub pos: usize,
    pub message: String,
}

/// A lex error with its message as a character sequence.
pub struct LexErrorView {
    pub pos: usize,
    pub message: Seq<char>,
}

impl View for LexError {
    type V = LexErrorView;

    open spec fn view(&self) -> LexErrorView {
        LexErrorView { pos: self.pos, message: self.message@ }
    }
}

/// A class of characters that a token runs over.
#[derive(Clone, Copy)]
pub enum CharClass {
    /// `0`-`9`.
    Digit,
    /// `0`-`9`, `a`-`f`, `A`-`F`.
    HexDigit,
    /// ASCII letters, digits and `_`.
    Word,
    /// `0`-`9`, `.` and `/`, the characters of an IPv4 address or prefix.
    Address,
}

/// ASCII whitespace: space, tab, line feed, form feed, carriage return.
pub open spec fn is_space(c: char) -> bool {
    c == ' ' || c == '\t' || c == '\n' || c == '\x0C' || c == '\r'
}

pub open spec fn is_digit(c: char) -> bool {
    '0' <= c <= '9'
}

pub open spec fn is_alpha(c: char) -> bool {
    ('a' <= c <= 'z') || ('A' <= c <= 'Z')
}

/// Whether `c` is in class `k`.
pub open spec fn in_class(k: CharClass, c: char) -> bool {
    match k {
        CharClass::Digit => is_digit(c),
        CharClass::HexDigit => is_digit(c) || ('a' <= c <= 'f') || ('A' <= c <= 'F'),
        CharClass::Word => is_digit(c) || is_alpha(c) || c == '_',
        CharClass::Address => is_digit(c) || c == '.' || c == '/',
    }
}

/// The end of the run of class-`k` characters of `s` that starts at `i`.
pub open spec fn run_end(s: Seq<char>, i: int, k: CharClass) -> int
    decreases s.len() - i,
{
    if 0 <= i < s.len() && in_class(k, s[i]) {
        run_end(s, i + 1, k)
    } else {
        i
    }
}

/// A run of class-`k` characters ends within the text, after its start,
/// at the first character outside the class.
pub proof fn lemma_run_end(s: Seq<char>, i: int, k: CharClass)
    requires
        0 <= i <= s.len(),
    ensures
        i <= run_end(s, i, k) <= s.len(),
        forall|j: int| i <= j < run_end(s, i, k) ==> in_class(k, #[trigger] s[j]),
        run_end(s, i, k) < s.len() ==> !in_class(k, s[run_end(s, i, k)]),
    decreases s.len() - i,
{
    if i < s.len() && in_class(k, s[i]) {
        lemma_run_end(s, i + 1, k);
    }
}

/// The value of a digit character (hexadecimal digits included).
pub open spec fn digit_value(c: char) -> nat {
    if is_digit(c) {
        (c as u32 - '0' as u32) as nat
    } else if 'a' <= c <= 'f' {
        (c as u32 - 'a' as u32 + 10) as nat
    } else {
        (c as u32 - 'A' as u32 + 10) as nat
    }
}

/// The number that `d` writes in base `radix`, most significant digit first.
pub open spec fn digits_value(d: Seq<char>, radix: nat) -> nat
    decreases d.len(),
{
    if d.len() == 0 {
        0
    } else {
        digits_value(d.drop_last(), radix) * radix + digit_value(d.last())
    }
}

proof fn lemma_digits_value_prefix(d: Seq<char>, radix: nat, k: int)
    requires
        0 <= k <= d.len(),
        radix >= 1,
    ensures
        digits_value(d.take(k), radix) <= digits_value(d, radix),
    decreases d.len(),
{
    if k < d.len() {
        lemma_digits_value_prefix(d.drop_last(), radix, k);
        assert(d.drop_last().take(k) =~= d.take(k));
        let x = digits_value(d.drop_last(), radix);
        assert(x * radix >= x) by (nonlinear_arith)
            requires
                radix >= 1,
        ;
    } else {
        assert(d.take(k) =~= d);
    }
}

/// The first byte of the UTF-8 encoding of `c`.
pub open spec fn utf8_lead_byte(c: char) -> u8 {
    let v = c as u32;
    if v < 0x80 {
        v as u8
    } else if v < 0x800 {
        (0xc0u32 | (v >> 6u32)) as u8
    } else if v < 0x10000 {
        (0xe0u32 | (v >> 12u32)) as u8
    } else {
        (0xf0u32 | (v >> 18u32)) as u8
    }
}

/// A lex error at `pos`.
pub open spec fn lex_error(pos: int, message: Seq<char>) -> LexErrorView {
    LexErrorView { pos: pos as usize, message }
}

/// A token of kind `kind` at `pos`.
pub open spec fn token_at(kind: TokenKindView, pos: int) -> TokenView {
    TokenView { kind, pos: pos as usize }
}

/// The kind of a word token: a keyword in any letter case, or an
/// identifier.
pub open spec fn word_kind(raw: Seq<char>) -> TokenKindView {
    if lower_chars(raw) == "and"@ {
        TokenKindView::And
    } else if lower_chars(raw) == "or"@ {
        TokenKindView::Or
    } else if lower_chars(raw) == "not"@ {
        TokenKindView::Not
    } else {
        TokenKindView::Ident(raw)
    }
}

/// Lexing `s` from position `i`, with the tokens `acc` already read.
///
/// A digit run that is followed by `.` continues over digits, `.` and `/`
/// and reads as an identifier (an IPv4 address or prefix); any other digit
/// run is a decimal number, and `0x` or `0X` starts a hexadecimal one.
pub open spec fn lex_from(s: Seq<char>, i: int, acc: Seq<TokenView>) -> Result<Seq<TokenView>, LexErrorView>
    decreases s.len() - i,
{
    if i < 0 || i >= s.len() {
        Ok(acc)
    } else {
        let c = s[i];
        if is_space(c) {
            lex_from(s, i + 1, acc)
        } else if c == '=' {
            if i + 1 < s.len() && s[i + 1] == '=' {
                lex_from(s, i + 2, acc.push(token_at(TokenKindView::EqEq, i)))
            } else {
                Err(lex_error(i, "expected '=' after '='"@))
            }
        } else if c == '[' {
            lex_from(s, i + 1, acc.push(token_at(TokenKindView::LBracket, i)))
        } else if c == ']' {
            lex_from(s, i + 1, acc.push(token_at(TokenKindView::RBracket, i)))
        } else if c == '(' {
            lex_from(s, i + 1, acc.push(token_at(TokenKindView::LParen, i)))
        } else if c == ')' {
            lex_from(s, i + 1, acc.push(token_at(TokenKindView::RParen, i)))
        } else if is_digit(c) {
            if i + 1 < s.len() && c == '0' && (s[i + 1] == 'x' || s[i + 1] == 'X') {
                let e = run_end(s, i + 2, CharClass::HexDigit);
                proof {
                    lemma_run_end(s, i + 2, CharClass::HexDigit);
                }
                if e == i + 2 {
                    Err(lex_error(i, "invalid hex literal"@))
                } else if digits_value(s.subrange(i + 2, e), 16) > u64::MAX {
                    Err(lex_error(i, "hex literal out of range"@))
                } else {
                    lex_from(s, e, acc.push(token_at(TokenKindView::Number(digits_value(s.subrange(i + 2, e), 16) as u64), i)))
                }
            } else {
                let e = run_end(s, i, CharClass::Digit);
                proof {
                    lemma_run_end(s, i, CharClass::Digit);
                    lemma_run_end(s, e, CharClass::Address);
                }
                if e < s.len() && s[e] == '.' {
                    let a = run_end(s, e, CharClass::Address);
                    lex_from(s, a, acc.push(token_at(TokenKindView::Ident(s.subrange(i, a)), i)))
                } else if digits_value(s.subrange(i, e), 10) > u64::MAX {
                    Err(lex_error(i, "number literal out of range"@))
                } else {
                    lex_from(s, e, acc.push(token_at(TokenKindView::Number(digits_value(s.subrange(i, e), 10) as u64), i)))
                }
            }
        } else if is_alpha(c) || c == '_' {
            let e = run_end(s, i + 1, CharClass::Word);
            proof {
                lemma_run_end(s, i + 1, CharClass::Word);
            }
            lex_from(s, e, acc.push(token_at(word_kind(s.subrange(i, e)), i)))
        } else {
            Err(lex_error(i, "unexpected character '"@ + seq![utf8_lead_byte(c) as char] + "'"@))
        }
    }
}

/// The tokens of `s`, or the first lex error.
pub open spec fn spec_lex(s: Seq<char>) -> Result<Seq<TokenView>, LexErrorView> {
    lex_from(s, 0, Seq::empty())
}

fn char_in_class(k: CharClass, c: char) -> (r: bool)
    ensures
        r == in_class(k, c),
{
    match k {
        CharClass::Digit => '0' <= c && c <= '9',
        CharClass::HexDigit => ('0' <= c && c <= '9') || ('a' <= c && c <= 'f') || ('A' <= c && c <= 'F'),
        CharClass::Word => ('0' <= c && c <= '9') || ('a' <= c && c <= 'z') || ('A' <= c && c <= 'Z') || c == '_',
        CharClass::Address => ('0' <= c && c <= '9') || c == '.' || c == '/',
    }
}

/// The end of the run of class-`k` characters that starts at `i`.
fn scan(s: &Vec<char>, i: usize, k: CharClass) -> (e: usize)
    requires
        i <= s@.len(),
    ensures
        e == run_end(s@, i as int, k),
{
    let mut j = i;
    while j < s.len() && char_in_class(k, s[j])
        invariant
            i <= j <= s@.len(),
            run_end(s@, i as int, k) == run_end(s@, j as int, k),
        decreases s@.len() - j,
    {
        j = j + 1;
    }
    j
}

fn digit_of(c: char) -> (d: u64)
    requires
        is_digit(c) || ('a' <= c <= 'f') || ('A' <= c <= 'F'),
    ensures
        d == digit_value(c),
{
    if '0' <= c && c <= '9' {
        ((c as u32) - ('0' as u32)) as u64
    } else if 'a' <= c && c <= 'f' {
        ((c as u32) - ('a' as u32) + 10) as u64
    } else {
        ((c as u32) - ('A' as u32) + 10) as u64
    }
}

/// The value of the digits `s[start..end]` in base `radix`, if it fits in
/// a `u64`.
fn parse_digits(s: &Vec<char>, start: usize, end: usize, radix: u64) -> (r: Option<u64>)
    requires
        start <= end <= s@.len(),
        radix == 10 || radix == 16,
        forall|j: int| start <= j < end ==> in_class(
            if radix == 10 { CharClass::Digit } else { CharClass::HexDigit },
            #[trigger] s@[j],
        ),
    ensures
        r matches Some(v) ==> v == digits_value(s@.subrange(start as int, end as int), radix as nat),
        r is None ==> digits_value(s@.subrange(start as int, end as int), radix as nat) > u64::MAX,
{
    let ghost d = s@.subrange(start as int, end as int);
    let mut v: u64 = 0;
    let mut j = start;
    assert(d.take(0) =~= Seq::<char>::empty());
    while j < end
        invariant
            start <= j <= end <= s@.len(),
            radix == 10 || radix == 16,
            d == s@.subrange(start as int, end as int),
            forall|x: int| start <= x < end ==> in_class(
                if radix == 10 { CharClass::Digit } else { CharClass::HexDigit },
                #[trigger] s@[x],
            ),
            v == digits_value(d.take(j - start), radix as nat),
        decreases end - j,
    {
        let c = s[j];
        assert(in_class(if radix == 10 { CharClass::Digit } else { CharClass::HexDigit }, s@[j as int]));
        let dv = digit_of(c);
        let ghost next = d.take(j + 1 - start);
        assert(next.drop_last() =~= d.take(j - start));
        assert(next.last() == c);
        assert(digits_value(next, radix as nat) == v * radix + dv);
        match v.checked_mul(radix) {
            None => {
                proof {
                    lemma_digits_value_prefix(d, radix as nat, j + 1 - start);
                }
                return None;
            },
            Some(m) => match m.checked_add(dv) {
                None => {
                    proof {
                        lemma_digits_value_prefix(d, radix as nat, j + 1 - start);
                    }
                    return None;
                },
                Some(w) => {
                    v = w;
                },
            },
        }
        j = j + 1;
    }
    assert(d.take(end - start) =~= d);
    Some(v)
}

fn lead_byte_char(c: char) -> (r: char)
    ensures
        r == utf8_lead_byte(c) as char,
{
    let v = c as u32;
    let b: u8 = if v < 0x80 {
        v as u8
    } else if v < 0x800 {
        (0xc0u32 | (v >> 6u32)) as u8
    } else if v < 0x10000 {
        (0xe0u32 | (v >> 12u32)) as u8
    } else {
        (0xf0u32 | (v >> 18u32)) as u8
    };
    b as char
}

fn word_token_kind(raw: &str) -> (k: TokenKind)
    ensures
        k@ == word_kind(raw@),
{
    if str_eq_ignore_case(raw, "and") {
        TokenKind::And
    } else if str_eq_ignore_case(raw, "or") {
        TokenKind::Or
    } else if str_eq_ignore_case(raw, "not") {
        TokenKind::Not
    } else {
        TokenKind::Ident(raw.to_owned())
    }
}

fn err_at(pos: usize, message: &str) -> (e: LexError)
    ensures
        e@ == lex_error(pos as int, message@),
{
    LexError { pos, message: message.to_owned() }
}

/// Splits filter text into tokens; whitespace separates them and is
/// dropped.
pub fn lex(input: &str) -> (r: Result<Vec<Token>, LexError>)
    ensures
        match spec_lex(input@) {
            Ok(ts) => r matches Ok(v) && tokens_view(v@) == ts,
            Err(e) => r matches Err(x) && x@ == e,
        },
{
    let s = chars_of(input);
    let n = s.len();
    let ghost t = input@;
    let mut i: usize = 0;
    let mut tokens: Vec<Token> = Vec::new();
    assert(tokens_view(tokens@) =~= Seq::<TokenView>::empty());
    while i < n
        invariant
            n == s@.len(),
            s@ == t,
            t == input@,
            i <= n,
            spec_lex(t) == lex_from(t, i as int, tokens_view(tokens@)),
        decreases n - i,
    {
        let c = s[i];
        let ghost acc = tokens_view(tokens@);
        let tok: Token;
        let next: usize;
        if c == ' ' || c == '\t' || c == '\n' || c == '\x0C' || c == '\r' {
            i = i + 1;
            continue;
        } else if c == '=' {
            if i + 1 < n && s[i + 1] == '=' {
                tok = Token { kind: TokenKind::EqEq, pos: i };
                next = i + 2;
            } else {
                return Err(err_at(i, "expected '=' after '='"));
            }
        } else if c == '[' {
            tok = Token { kind: TokenKind::LBracket, pos: i };
            next = i + 1;
        } else if c == ']' {
            tok = Token { kind: TokenKind::RBracket, pos: i };
            next = i + 1;
        } else if c == '(' {
            tok = Token { kind: TokenKind::LParen, pos: i };
            next = i + 1;
        } else if c == ')' {
            tok = Token { kind: TokenKind::RParen, pos: i };
            next = i + 1;
        } else if '0' <= c && c <= '9' {
            if i + 1 < n && c == '0' && (s[i + 1] == 'x' || s[i + 1] == 'X') {
                let e = scan(&s, i + 2, CharClass::HexDigit);
                proof {
                    lemma_run_end(t, i + 2, CharClass::HexDigit);
                }
                if e == i + 2 {
                    return Err(err_at(i, "invalid hex literal"));
                }
                match parse_digits(&s, i + 2, e, 16) {
                    None => {
                        return Err(err_at(i, "hex literal out of range"));
                    },
                    Some(v) => {
                        tok = Token { kind: TokenKind::Number(v), pos: i };
                        next = e;
                    },
                }
            } else {
                let e = scan(&s, i, CharClass::Digit);
                proof {
                    lemma_run_end(t, i as int, CharClass::Digit);
                }
                if e < n && s[e] == '.' {
                    let a = scan(&s, e, CharClass::Address);
                    proof {
                        lemma_run_end(t, e as int, CharClass::Address);
                    }
                    let raw = input.substring_char(i, a);
                    tok = Token { kind: TokenKind::Ident(raw.to_owned()), pos: i };
                    next = a;
                } else {
                    match parse_digits(&s, i, e, 10) {
                        None => {
                            return Err(err_at(i, "number literal out of range"));
                        },
                        Some(v) => {
                            tok = Token { kind: TokenKind::Number(v), pos: i };
                            next = e;
                        },
                    }
                }
            }
        } else if ('a' <= c && c <= 'z') || ('A' <= c && c <= 'Z') || c == '_' {
            let e = scan(&s, i + 1, CharClass::Word);
            proof {
                lemma_run_end(t, i + 1, CharClass::Word);
            }
            let raw = input.substring_char(i, e);
            tok = Token { kind: word_token_kind(raw), pos: i };
            next = e;
        } else {
            let mut message = "unexpected character '".to_owned();
            push_char(&mut message, lead_byte_char(c));
            push_char(&mut message, '\'');
            proof {
                reveal_strlit("'");
                assert(message@ =~= "unexpected character '"@ + seq![utf8_lead_byte(c) as char] + "'"@);
            }
            return Err(LexError { pos: i, message });
        }
        assert(tokens_view(tokens@.push(tok)) =~= acc.push(tok@));
        tokens.push(tok);
        i = next;
    }
    Ok(tokens)
}

} // verus!
