//! The `PREFIX key=value ...` summary line that every command prints.
use vstd::prelude::*;
use vstd::string::StringExecFns;
use crate::cli::output::{json_escape, push_json_escaped};
use crate::text::{chars_of, decimal, hex_digits, push_char, push_decimal, push_hex};

verus! {

/// Whether `c` has the Unicode White_Space property: `\t` through `\r`,
/// the space, U+0085, U+00A0, U+1680, U+2000 through U+200A, U+2028,
/// U+2029, U+202F, U+205F and U+3000.
pub open spec fn white_space(c: char) -> bool {
    let v = c as u32;
    ||| 0x09 <= v <= 0x0d
    ||| v == 0x20
    ||| v == 0x85
    ||| v == 0xa0
    ||| v == 0x1680
    ||| 0x2000 <= v <= 0x200a
    ||| v == 0x2028
    ||| v == 0x2029
    ||| v == 0x202f
    ||| v == 0x205f
    ||| v == 0x3000
}

/// Whether `c` has the Unicode White_Space property (what
/// `char::is_whitespace` answers).
pub(crate) fn char_is_whitespace(c: char) -> (r: bool)
    ensures
        r == white_space(c),
{
    let v = c as u32;
    (0x09 <= v && v <= 0x0d) || v == 0x20 || v == 0x85 || v == 0xa0 || v == 0x1680 || (0x2000 <= v && v <= 0x200a)
        || v == 0x2028 || v == 0x2029 || v == 0x202f || v == 0x205f || v == 0x3000
}

/// Whether `c` is a control character (general category Cc: U+0000 to
/// U+001F and U+007F to U+009F).
pub open spec fn control_char(c: char) -> bool {
    (c as u32) <= 0x1f || (0x7f <= (c as u32) && (c as u32) <= 0x9f)
}

fn is_control_char(c: char) -> (r: bool)
    ensures
        r == control_char(c),
{
    let v = c as u32;
    v <= 0x1f || (0x7f <= v && v <= 0x9f)
}

/// Whether `c` may stand unquoted in a summary value.
pub open spec fn plain_summary_char(c: char) -> bool {
    !white_space(c) && c != '=' && !control_char(c) && c != '"' && c != '\\'
}

/// Whether a value may stand unquoted: not empty, and no white space,
/// `=`, control character, quote or backslash.
pub open spec fn summary_value_safe(v: Seq<char>) -> bool {
    v.len() > 0 && forall|i: int| 0 <= i < v.len() ==> plain_summary_char(#[trigger] v[i])
}

/// How a value is written: as it is when safe, else quoted and escaped.
pub open spec fn summary_value(v: Seq<char>) -> Seq<char> {
    if summary_value_safe(v) {
        v
    } else {
        seq!['"'] + json_escape(v) + seq!['"']
    }
}

/// ` key=value` for every field, in order.
pub open spec fn summary_fields(fields: Seq<(Seq<char>, Seq<char>)>) -> Seq<char>
    decreases fields.len(),
{
    if fields.len() == 0 {
        Seq::empty()
    } else {
        summary_fields(fields.drop_last()) + seq![' '] + fields.last().0 + seq!['='] + summary_value(fields.last().1)
    }
}

/// The fields as pairs of character sequences.
pub open spec fn field_views(fields: Seq<(&str, String)>) -> Seq<(Seq<char>, Seq<char>)> {
    Seq::new(fields.len(), |i: int| (fields[i].0@, fields[i].1@))
}

/// Whether `value` may stand unquoted in a summary line.
pub fn is_summary_value_safe(value: &str) -> (r: bool)
    ensures
        r == summary_value_safe(value@),
{
    let cs = chars_of(value);
    if cs.len() == 0 {
        return false;
    }
    let mut i: usize = 0;
    while i < cs.len()
        invariant
            cs@ == value@,
            i <= cs@.len(),
            forall|k: int| 0 <= k < i ==> plain_summary_char(#[trigger] value@[k]),
        decreases cs@.len() - i,
    {
        let c = cs[i];
        if char_is_whitespace(c) || c == '=' || is_control_char(c) || c == '"' || c == '\\' {
            assert(!plain_summary_char(value@[i as int]));
            return false;
        }
        i = i + 1;
    }
    true
}

/// `value` escaped as inside a JSON string.
pub fn escape_summary_value(value: &str) -> (s: String)
    ensures
        s@ == json_escape(value@),
{
    let mut s = String::new();
    push_json_escaped(&mut s, value);
    assert(s@ =~= json_escape(value@));
    s
}

/// `prefix` followed by ` key=value` for every field; a value that is
/// empty or holds white space, `=`, a control character, a quote or a
/// backslash is quoted and escaped.
pub fn render_summary(prefix: &str, fields: &[(&str, String)]) -> (line: String)
    ensures
        line@ == prefix@ + summary_fields(field_views(fields@)),
{
    let mut line = prefix.to_owned();
    let mut i: usize = 0;
    while i < fields.len()
        invariant
            i <= fields@.len(),
            line@ == prefix@ + summary_fields(field_views(fields@.take(i as int))),
        decreases fields@.len() - i,
    {
        let key = fields[i].0;
        let value = fields[i].1.as_str();
        let ghost before = line@;
        push_char(&mut line, ' ');
        line.append(key);
        push_char(&mut line, '=');
        if is_summary_value_safe(value) {
            line.append(value);
        } else {
            push_char(&mut line, '"');
            push_json_escaped(&mut line, value);
            push_char(&mut line, '"');
        }
        proof {
            let t = fields@.take(i as int + 1);
            assert(field_views(t).drop_last() =~= field_views(fields@.take(i as int)));
            assert(field_views(t).last() == (key@, value@));
            assert(line@ =~= before + seq![' '] + key@ + seq!['='] + summary_value(value@));
        }
        i = i + 1;
    }
    assert(fields@.take(i as int) =~= fields@);
    line
}

/// `true` or `false`.
pub open spec fn bool_text(b: bool) -> Seq<char> {
    if b { "true"@ } else { "false"@ }
}

/// `true` or `false` as a string.
pub fn bool_string(b: bool) -> (s: String)
    ensures
        s@ == bool_text(b),
{
    if b { "true".to_owned() } else { "false".to_owned() }
}

/// `0x` and four lower-case hexadecimal digits.
pub open spec fn hex4(n: u16) -> Seq<char> {
    "0x"@ + hex_digits(n as nat, 4)
}

/// `n` as `0x` and four lower-case hexadecimal digits.
pub fn hex4_string(n: u16) -> (s: String)
    ensures
        s@ == hex4(n),
{
    let mut s = "0x".to_owned();
    push_hex(&mut s, n as u64, 4);
    s
}

/// `n` in decimal, as a string.
pub fn decimal_text(n: u64) -> (s: String)
    ensures
        s@ == decimal(n as nat),
{
    let mut s = String::new();
    push_decimal(&mut s, n);
    assert(s@ =~= decimal(n as nat));
    s
}

/// The parts one after another with `sep` between them.
pub open spec fn joined(parts: Seq<Seq<char>>, sep: Seq<char>) -> Seq<char>
    decreases parts.len(),
{
    if parts.len() == 0 {
        Seq::empty()
    } else if parts.len() == 1 {
        parts[0]
    } else {
        joined(parts.drop_last(), sep) + sep + parts.last()
    }
}

/// The characters of every string.
pub open spec fn string_views(v: Seq<String>) -> Seq<Seq<char>> {
    Seq::new(v.len(), |i: int| v[i]@)
}

/// The lines joined with newlines.
pub fn join_lines(lines: &Vec<String>) -> (s: String)
    ensures
        s@ == joined(string_views(lines@), seq!['\n']),
{
    let mut s = String::new();
    let mut i: usize = 0;
    while i < lines.len()
        invariant
            i <= lines@.len(),
            s@ == joined(string_views(lines@.take(i as int)), seq!['\n']),
        decreases lines@.len() - i,
    {
        let ghost before = s@;
        if i > 0 {
            push_char(&mut s, '\n');
        }
        s.append(lines[i].as_str());
        proof {
            let t = lines@.take(i as int + 1);
            assert(string_views(t).drop_last() =~= string_views(lines@.take(i as int)));
            assert(string_views(t).last() == lines@[i as int]@);
            if i == 0 {
                assert(before =~= Seq::<char>::empty());
                assert(s@ =~= joined(string_views(t), seq!['\n']));
            } else {
                assert(s@ =~= joined(string_views(t), seq!['\n']));
            }
        }
        i = i + 1;
    }
    assert(lines@.take(i as int) =~= lines@);
    s
}

/// The fields a streaming command adds in verbose mode: device path,
/// count and follow.
pub open spec fn stream_fields(verbose: bool, device_path: Seq<char>, count: u64, follow: bool) -> Seq<(Seq<char>, Seq<char>)> {
    if verbose {
        seq![("device_path"@, device_path), ("count"@, decimal(count as nat)), ("follow"@, bool_text(follow))]
    } else {
        Seq::empty()
    }
}

/// Appends the verbose fields of a streaming command.
pub fn push_stream_fields<'a>(fields: &mut Vec<(&'a str, String)>, verbose: bool, device_path: &str, count: u64, follow: bool)
    ensures
        field_views(final(fields)@) == field_views(old(fields)@) + stream_fields(verbose, device_path@, count, follow),
{
    if verbose {
        fields.push(("device_path", device_path.to_owned()));
        fields.push(("count", decimal_text(count)));
        fields.push(("follow", bool_string(follow)));
    }
    assert(field_views(fields@) =~= field_views(old(fields)@) + stream_fields(verbose, device_path@, count, follow));
}

/// The JSON members a streaming command adds in verbose mode.
pub open spec fn stream_json(verbose: bool, device_path: Seq<char>, count: u64, follow: bool) -> Seq<char> {
    if verbose {
        ",\"device_path\":\""@ + json_escape(device_path) + "\",\"count\":"@ + decimal(count as nat) + ",\"follow\":"@
            + bool_text(follow)
    } else {
        Seq::empty()
    }
}

/// Appends the verbose JSON members of a streaming command.
pub fn push_stream_json(line: &mut String, verbose: bool, device_path: &str, count: u64, follow: bool)
    ensures
        final(line)@ == old(line)@ + stream_json(verbose, device_path@, count, follow),
{
    if verbose {
        line.append(",\"device_path\":\"");
        push_json_escaped(line, device_path);
        line.append("\",\"count\":");
        push_decimal(line, count);
        line.append(",\"follow\":");
        line.append(if follow { "true" } else { "false" });
    }
    assert(line@ =~= old(line)@ + stream_json(verbose, device_path@, count, follow));
}

/// The JSON result of a streaming command, from the members of each
/// event's object (without its opening brace): one event's members follow
/// `head` directly; otherwise the objects stand in an `events` array.
pub open spec fn stream_result_json(head: Seq<char>, bodies: Seq<Seq<char>>) -> Seq<char> {
    if bodies.len() == 1 {
        head + bodies[0]
    } else {
        head + "\"events\":["@ + joined(Seq::new(bodies.len(), |i: int| seq!['{'] + bodies[i]), seq![',']) + "]}"@
    }
}

/// Renders the JSON result of a streaming command.
pub fn render_stream_json(head: &str, bodies: &Vec<String>) -> (s: String)
    ensures
        s@ == stream_result_json(head@, string_views(bodies@)),
{
    let mut s = head.to_owned();
    if bodies.len() == 1 {
        s.append(bodies[0].as_str());
        return s;
    }
    s.append("\"events\":[");
    let ghost start = s@;
    let ghost objs = Seq::new(bodies@.len(), |i: int| seq!['{'] + bodies@[i]@);
    let mut i: usize = 0;
    while i < bodies.len()
        invariant
            i <= bodies@.len(),
            objs == Seq::new(bodies@.len(), |i: int| seq!['{'] + bodies@[i]@),
            s@ == start + joined(objs.take(i as int), seq![',']),
        decreases bodies@.len() - i,
    {
        let ghost before = s@;
        if i > 0 {
            push_char(&mut s, ',');
        }
        push_char(&mut s, '{');
        s.append(bodies[i].as_str());
        proof {
            let t = objs.take(i as int + 1);
            assert(t.drop_last() =~= objs.take(i as int));
            assert(t.last() == seq!['{'] + bodies@[i as int]@);
            if i == 0 {
                assert(joined(objs.take(0), seq![',']) =~= Seq::<char>::empty());
            }
            assert(s@ =~= start + joined(t, seq![',']));
        }
        i = i + 1;
    }
    s.append("]}");
    proof {
        assert(objs.take(i as int) =~= objs);
        assert(Seq::new(string_views(bodies@).len(), |i: int| seq!['{'] + string_views(bodies@)[i]) =~= objs);
    }
    s
}

} // verus!
