//! Error lines as text or JSON, and JSON string escaping.
use vstd::prelude::*;
use vstd::string::StringExecFns;
use crate::cli::error::{CliError, CliErrorView};
use crate::text::{ascii_uppercase, chars_of, decimal, digit_char, hex_char, push_char, push_decimal, upper_chars};

verus! {

/// How a command prints its result.
#[derive(Debug, Clone, Copy, PartialEq, Eq, Structural)]
pub enum OutputMode {
    Text,
    Json,
}

impl OutputMode {
    /// JSON when the flag is set, text otherwise.
    pub open spec fn spec_from_json_flag(json: bool) -> OutputMode {
        if json { OutputMode::Json } else { OutputMode::Text }
    }

    /// JSON when the flag is set, text otherwise.
    pub fn from_json_flag(json: bool) -> (m: OutputMode)
        ensures
            m == OutputMode::spec_from_json_flag(json),
    {
        if json {
            OutputMode::Json
        } else {
            OutputMode::Text
        }
    }
}

/// How one character is written inside a JSON string: quote, backslash
/// and the control characters escaped, everything else as it is.
pub open spec fn json_escape_char(c: char) -> Seq<char> {
    if c == '"' {
        seq!['\\', '"']
    } else if c == '\\' {
        seq!['\\', '\\']
    } else if c == '\n' {
        seq!['\\', 'n']
    } else if c == '\r' {
        seq!['\\', 'r']
    } else if c == '\t' {
        seq!['\\', 't']
    } else if (c as u32) < 0x20 {
        seq!['\\', 'u', '0', '0', hex_char(((c as u32) / 16) as nat), hex_char(((c as u32) % 16) as nat)]
    } else {
        seq![c]
    }
}

/// `s` escaped for use inside a JSON string.
pub open spec fn json_escape(s: Seq<char>) -> Seq<char>
    decreases s.len(),
{
    if s.len() == 0 {
        Seq::empty()
    } else {
        json_escape(s.drop_last()) + json_escape_char(s.last())
    }
}

/// The lower-case hexadecimal digit of `nibble`; past 15 the letters run
/// on past `f` (the byte arithmetic overflows past 168).
pub fn nibble_to_hex(nibble: u8) -> (c: char)
    requires
        nibble <= 168,
    ensures
        c == hex_char(nibble as nat),
{
    if nibble <= 9 {
        (nibble + 48) as char
    } else {
        (nibble - 10 + 97) as char
    }
}

/// Appends `c` escaped for a JSON string.
fn push_json_escaped_char(out: &mut String, c: char)
    ensures
        final(out)@ == old(out)@ + json_escape_char(c),
{
    if c == '"' {
        push_char(out, '\\');
        push_char(out, '"');
    } else if c == '\\' {
        push_char(out, '\\');
        push_char(out, '\\');
    } else if c == '\n' {
        push_char(out, '\\');
        push_char(out, 'n');
    } else if c == '\r' {
        push_char(out, '\\');
        push_char(out, 'r');
    } else if c == '\t' {
        push_char(out, '\\');
        push_char(out, 't');
    } else if (c as u32) < 0x20 {
        let v = c as u32;
        push_char(out, '\\');
        push_char(out, 'u');
        push_char(out, '0');
        push_char(out, '0');
        push_char(out, nibble_to_hex((v / 16) as u8));
        push_char(out, nibble_to_hex((v % 16) as u8));
    } else {
        push_char(out, c);
    }
    assert(out@ =~= old(out)@ + json_escape_char(c));
}

/// Appends `value` escaped for a JSON string.
pub fn push_json_escaped(out: &mut String, value: &str)
    ensures
        final(out)@ == old(out)@ + json_escape(value@),
{
    let cs = chars_of(value);
    let ghost start = out@;
    let mut i: usize = 0;
    while i < cs.len()
        invariant
            cs@ == value@,
            i <= cs@.len(),
            out@ == start + json_escape(value@.take(i as int)),
        decreases cs@.len() - i,
    {
        let ghost before = out@;
        push_json_escaped_char(out, cs[i]);
        proof {
            let t = value@.take(i as int + 1);
            assert(t.drop_last() =~= value@.take(i as int));
            assert(t.last() == cs@[i as int]);
            assert(out@ =~= start + json_escape(t));
        }
        i = i + 1;
    }
    assert(value@.take(i as int) =~= value@);
}

/// `value` escaped for a JSON string.
pub fn escape_json_string(value: &str) -> (s: String)
    ensures
        s@ == json_escape(value@),
{
    let mut s = String::new();
    push_json_escaped(&mut s, value);
    assert(s@ =~= json_escape(value@));
    s
}

/// The text line of an error: the command in upper case, `ERROR`, then
/// code, category, message and suggestion as `key=value`.
pub open spec fn error_text(e: CliErrorView) -> Seq<char> {
    upper_chars(e.command) + " ERROR code="@ + decimal(e.code as nat) + " category="@ + e.category
        + " message="@ + e.message + " suggestion="@ + e.suggestion
}

/// The JSON object of an error, every string escaped.
pub open spec fn error_json(e: CliErrorView) -> Seq<char> {
    "{\"command\":\""@ + json_escape(e.command) + "\",\"status\":\"error\",\"code\":"@ + decimal(e.code as nat)
        + ",\"category\":\""@ + json_escape(e.category) + "\",\"message\":\""@ + json_escape(e.message)
        + "\",\"suggestion\":\""@ + json_escape(e.suggestion) + "\"}"@
}

/// An error as a text line.
pub fn render_error_text(err: &CliError) -> (s: String)
    ensures
        s@ == error_text(err@),
{
    let mut s = ascii_uppercase(err.command);
    s.append(" ERROR code=");
    push_decimal(&mut s, err.code as u64);
    s.append(" category=");
    s.append(err.category);
    s.append(" message=");
    s.append(err.message.as_str());
    s.append(" suggestion=");
    s.append(err.suggestion);
    s
}

/// An error as a JSON object.
pub fn render_error_json(err: &CliError) -> (s: String)
    ensures
        s@ == error_json(err@),
{
    let mut s = "{\"command\":\"".to_owned();
    push_json_escaped(&mut s, err.command);
    s.append("\",\"status\":\"error\",\"code\":");
    push_decimal(&mut s, err.code as u64);
    s.append(",\"category\":\"");
    push_json_escaped(&mut s, err.category);
    s.append("\",\"message\":\"");
    push_json_escaped(&mut s, err.message.as_str());
    s.append("\",\"suggestion\":\"");
    push_json_escaped(&mut s, err.suggestion);
    s.append("\"}");
    s
}

/// Every character of `decimal(n)` is a digit.
proof fn lemma_decimal_digits(n: nat)
    ensures
        forall|i: int| 0 <= i < decimal(n).len() ==> 48 <= (#[trigger] decimal(n)[i] as u32) <= 57,
    decreases n,
{
    let c = digit_char(n % 10);
    assert(48 <= (c as u32) <= 57);
    if n >= 10 {
        lemma_decimal_digits(n / 10);
        let d = decimal(n / 10);
        assert(decimal(n) == d.push(c));
        assert forall|i: int| 0 <= i < decimal(n).len() implies 48 <= (#[trigger] decimal(n)[i] as u32) <= 57 by {
            if i < d.len() {
                assert(decimal(n)[i] == d[i]);
            }
        }
    } else {
        assert(decimal(n) == seq![digit_char(n)]);
    }
}

/// JSON escaping leaves no control character below U+0020 in its output.
pub proof fn lemma_json_escape_printable(s: Seq<char>)
    ensures
        forall|i: int| 0 <= i < json_escape(s).len() ==> (#[trigger] json_escape(s)[i] as u32) >= 0x20,
    decreases s.len(),
{
    if s.len() > 0 {
        lemma_json_escape_printable(s.drop_last());
        let head = json_escape(s.drop_last());
        let tail = json_escape_char(s.last());
        assert(json_escape(s) == head + tail);
        assert forall|i: int| 0 <= i < json_escape(s).len() implies (#[trigger] json_escape(s)[i] as u32) >= 0x20 by {
            if i >= head.len() {
                assert(json_escape(s)[i] == tail[i - head.len()]);
            } else {
                assert(json_escape(s)[i] == head[i]);
            }
        }
    }
}

/// Whether no character of `s` lies below U+0020.
pub open spec fn printable(s: Seq<char>) -> bool {
    forall|i: int| 0 <= i < s.len() ==> (#[trigger] s[i] as u32) >= 0x20
}

proof fn lemma_printable_concat(a: Seq<char>, b: Seq<char>)
    requires
        printable(a),
        printable(b),
    ensures
        printable(a + b),
{
    assert forall|i: int| 0 <= i < (a + b).len() implies (#[trigger] (a + b)[i] as u32) >= 0x20 by {
        if i < a.len() {
            assert((a + b)[i] == a[i]);
        } else {
            assert((a + b)[i] == b[i - a.len()]);
        }
    }
}

/// The JSON form of any error holds no control character: whatever the
/// command, category, message and suggestion hold, the line is safe to
/// print on one line.
pub proof fn lemma_error_json_printable(e: CliErrorView)
    ensures
        printable(error_json(e)),
{
    reveal_strlit("{\"command\":\"");
    reveal_strlit("\",\"status\":\"error\",\"code\":");
    reveal_strlit(",\"category\":\"");
    reveal_strlit("\",\"message\":\"");
    reveal_strlit("\",\"suggestion\":\"");
    reveal_strlit("\"}");
    lemma_json_escape_printable(e.command);
    lemma_json_escape_printable(e.category);
    lemma_json_escape_printable(e.message);
    lemma_json_escape_printable(e.suggestion);
    lemma_decimal_digits(e.code as nat);
    let p1 = "{\"command\":\""@;
    let p2 = "\",\"status\":\"error\",\"code\":"@;
    let p3 = ",\"category\":\""@;
    let p4 = "\",\"message\":\""@;
    let p5 = "\",\"suggestion\":\""@;
    let p6 = "\"}"@;
    assert(printable(p1));
    assert(printable(p2));
    assert(printable(p3));
    assert(printable(p4));
    assert(printable(p5));
    assert(printable(p6));
    assert(printable(decimal(e.code as nat)));
    assert(printable(json_escape(e.command)));
    assert(printable(json_escape(e.category)));
    assert(printable(json_escape(e.message)));
    assert(printable(json_escape(e.suggestion)));
    lemma_printable_concat(p1, json_escape(e.command));
    let a1 = p1 + json_escape(e.command);
    lemma_printable_concat(a1, p2);
    let a2 = a1 + p2;
    lemma_printable_concat(a2, decimal(e.code as nat));
    let a3 = a2 + decimal(e.code as nat);
    lemma_printable_concat(a3, p3);
    let a4 = a3 + p3;
    lemma_printable_concat(a4, json_escape(e.category));
    let a5 = a4 + json_escape(e.category);
    lemma_printable_concat(a5, p4);
    let a6 = a5 + p4;
    lemma_printable_concat(a6, json_escape(e.message));
    let a7 = a6 + json_escape(e.message);
    lemma_printable_concat(a7, p5);
    let a8 = a7 + p5;
    lemma_printable_concat(a8, json_escape(e.suggestion));
    let a9 = a8 + json_escape(e.suggestion);
    lemma_printable_concat(a9, p6);
}

} // verus!
