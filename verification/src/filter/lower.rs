//! Lowering a checked expression into a stack program, and reading IPv4
//! address values.
use vstd::prelude::*;
use crate::filter::fields::{Field, field_name, lower_chars, str_eq_ignore_case};
use crate::filter::ir::{FilterIr, IrView, OpCode, OpView, ops_view, op_encodable, lemma_field_encoding};
use crate::filter::lexer::{CharClass, run_end, lemma_run_end, digits_value, in_class};
use crate::filter::parser::{Expr, ExprView, PacketWidth, Predicate, PredicateView, Value, ValueView, reads_packet};
use crate::filter::semantics::{SemanticError, SemanticInfo, SemanticInfoView, spec_canonical_field};
use crate::text::{chars_of, join3};
use vstd::string::StringExecFns;

verus! {

/// One decimal octet of a dotted IPv4 address starting at `i`: one to
/// three digits, no leading zero unless the octet is `0`, at most 255.
/// Gives the value and the index after the digits.
pub open spec fn octet_at(s: Seq<char>, i: int) -> Option<(u8, int)> {
    let e = run_end(s, i, CharClass::Digit);
    if e == i || e - i > 3 || (e - i > 1 && s[i] == '0') || digits_value(s.subrange(i, e), 10) > 255 {
        None
    } else {
        Some((digits_value(s.subrange(i, e), 10) as u8, e))
    }
}

/// The address `s` writes as four dotted decimal octets (as
/// `std::net::Ipv4Addr` reads it), in network byte order.
pub open spec fn parse_ipv4(s: Seq<char>) -> Option<u32> {
    match octet_at(s, 0) {
        None => None,
        Some((a, i)) => if !(i < s.len() && s[i] == '.') { None } else {
            match octet_at(s, i + 1) {
                None => None,
                Some((b, j)) => if !(j < s.len() && s[j] == '.') { None } else {
                    match octet_at(s, j + 1) {
                        None => None,
                        Some((c, k)) => if !(k < s.len() && s[k] == '.') { None } else {
                            match octet_at(s, k + 1) {
                                None => None,
                                Some((d, m)) => if m != s.len() {
                                    None
                                } else {
                                    Some((a as u32 * 0x100_0000 + b as u32 * 0x1_0000 + c as u32 * 0x100 + d as u32) as u32)
                                },
                            }
                        },
                    }
                },
            }
        },
    }
}

/// A decimal `u8` as `str::parse::<u8>` reads it: an optional `+`, then
/// one or more digits, with a value of at most 255.
pub open spec fn parse_u8_decimal(s: Seq<char>) -> Option<u8> {
    let d = if s.len() > 0 && s[0] == '+' { s.subrange(1, s.len() as int) } else { s };
    if d.len() == 0 || run_end(d, 0, CharClass::Digit) != d.len() || digits_value(d, 10) > 255 {
        None
    } else {
        Some(digits_value(d, 10) as u8)
    }
}

/// The index of the first `/` of `s` at or after `i`, or the length.
pub open spec fn slash_at(s: Seq<char>, i: int) -> int
    decreases s.len() - i,
{
    if 0 <= i < s.len() && s[i] != '/' {
        slash_at(s, i + 1)
    } else {
        i
    }
}

/// The ipv4_prefix_mask of a prefix length of at most 32.
pub open spec fn prefix_mask(prefix: u8) -> u32 {
    if prefix == 0 { 0 } else { (0xffff_ffffu32 << ((32 - prefix) as u32)) as u32 }
}

/// The value an address test compares with: the prefix length in the high
/// 32 bits and the network address (the address under its ipv4_prefix_mask) in the
/// low 32 bits. A plain address is a /32 prefix.
pub open spec fn ipv4_match_value(raw: Seq<char>) -> Option<u64> {
    let k = slash_at(raw, 0);
    if k < raw.len() {
        match (parse_ipv4(raw.subrange(0, k)), parse_u8_decimal(raw.subrange(k + 1, raw.len() as int))) {
            (Some(a), Some(p)) => if p > 32 {
                None
            } else {
                Some((((p as u64) << 32u64) | ((a & prefix_mask(p)) as u64)) as u64)
            },
            _ => None,
        }
    } else {
        match parse_ipv4(raw) {
            Some(a) => Some((((32u64) << 32u64) | (a as u64)) as u64),
            None => None,
        }
    }
}

/// The field a bare symbol tests, in any letter case.
pub open spec fn bool_symbol_field(sym: Seq<char>) -> Option<Field> {
    let low = lower_chars(sym);
    if low == "tcp"@ {
        Some(Field::Tcp)
    } else if low == "udp"@ {
        Some(Field::Udp)
    } else if low == "ipv4"@ {
        Some(Field::Ipv4)
    } else if low == "ipv6"@ {
        Some(Field::Ipv6)
    } else if low == "outbound"@ {
        Some(Field::Outbound)
    } else if low == "inbound"@ {
        Some(Field::Inbound)
    } else {
        None
    }
}

/// The number a field test compares with.
pub open spec fn field_value(f: Field, v: ValueView) -> Result<u64, Seq<char>> {
    match v {
        ValueView::Number(n) => Ok(n),
        ValueView::Symbol(s) => {
            let low = lower_chars(s);
            let refused = Err("unsupported symbolic value '"@ + s + "' for field '"@ + field_name(f) + "'"@);
            if f == Field::Event && low == "open"@ {
                Ok(1)
            } else if f == Field::Event && low == "connect"@ {
                Ok(2)
            } else if f == Field::Event && low == "close"@ {
                Ok(3)
            } else if f == Field::Event && low == "established"@ {
                Ok(4)
            } else if f == Field::Layer && low == "network"@ {
                Ok(1)
            } else if f == Field::Layer && low == "network_forward"@ {
                Ok(2)
            } else if f == Field::Layer && low == "flow"@ {
                Ok(3)
            } else if f == Field::Layer && low == "socket"@ {
                Ok(4)
            } else if f == Field::Layer && low == "reflect"@ {
                Ok(5)
            } else if f == Field::LocalAddr || f == Field::RemoteAddr {
                match ipv4_match_value(s) {
                    Some(x) => Ok(x),
                    None => refused,
                }
            } else {
                refused
            }
        },
    }
}

/// The instruction of one test.
pub open spec fn spec_lower_predicate(p: PredicateView) -> Result<OpView, Seq<char>> {
    match p {
        PredicateView::BareSymbol(sym) => match bool_symbol_field(sym) {
            Some(f) => Ok(OpView::FieldTest { field: field_name(f), value: 1 }),
            None => Err("unsupported symbol '"@ + sym + "'"@),
        },
        PredicateView::FieldEq { field, value } => match spec_canonical_field(field) {
            None => Err("unsupported field '"@ + field + "'"@),
            Some(f) => match field_value(f, value) {
                Ok(v) => Ok(OpView::FieldTest { field: field_name(f), value: v }),
                Err(m) => Err(m),
            },
        },
        PredicateView::PacketEq { width, offset, value } => match width {
            PacketWidth::Dword => if value > u32::MAX {
                Err("packet32 value out of range for u32"@)
            } else {
                Ok(OpView::PacketLoad32 { offset, value: value as u32 })
            },
            PacketWidth::Word => if value > u16::MAX {
                Err("packet16 value out of range for u16"@)
            } else {
                Ok(OpView::PacketLoad16 { offset, value: value as u16 })
            },
            PacketWidth::Byte => if value > u8::MAX {
                Err("packet value out of range for u8"@)
            } else {
                Ok(OpView::PacketLoad8 { offset, value: value as u8 })
            },
        },
    }
}

/// The stack program of an expression: operands first, then the operator.
pub open spec fn spec_lower_expr(e: ExprView) -> Result<Seq<OpView>, Seq<char>>
    decreases e,
{
    match e {
        ExprView::And(l, r) => match spec_lower_expr(*l) {
            Err(m) => Err(m),
            Ok(a) => match spec_lower_expr(*r) {
                Err(m) => Err(m),
                Ok(b) => Ok(a + b + seq![OpView::And]),
            },
        },
        ExprView::Or(l, r) => match spec_lower_expr(*l) {
            Err(m) => Err(m),
            Ok(a) => match spec_lower_expr(*r) {
                Err(m) => Err(m),
                Ok(b) => Ok(a + b + seq![OpView::Or]),
            },
        },
        ExprView::Not(x) => match spec_lower_expr(*x) {
            Err(m) => Err(m),
            Ok(a) => Ok(a + seq![OpView::Not]),
        },
        ExprView::Predicate(p) => match spec_lower_predicate(p) {
            Err(m) => Err(m),
            Ok(op) => Ok(seq![op]),
        },
    }
}

/// The compiled filter: the analysis's findings with the lowered program.
pub open spec fn spec_lower(e: ExprView, info: SemanticInfoView) -> Result<IrView, Seq<char>> {
    match spec_lower_expr(e) {
        Err(m) => Err(m),
        Ok(ops) => Ok(IrView {
            required_layers: info.required_layers,
            needs_payload: info.needs_payload,
            referenced_fields: info.referenced_fields,
            program: ops,
        }),
    }
}

fn scan_digits(s: &Vec<char>, i: usize) -> (e: usize)
    requires
        i <= s@.len(),
    ensures
        e == run_end(s@, i as int, CharClass::Digit),
{
    let mut j = i;
    while j < s.len() && '0' <= s[j] && s[j] <= '9'
        invariant
            i <= j <= s@.len(),
            run_end(s@, i as int, CharClass::Digit) == run_end(s@, j as int, CharClass::Digit),
        decreases s@.len() - j,
    {
        j = j + 1;
    }
    j
}

/// The value of the decimal digits `s[i..e]`, which are at most three.
fn small_decimal(s: &Vec<char>, i: usize, e: usize) -> (v: u32)
    requires
        i <= e <= s@.len(),
        e - i <= 3,
        forall|j: int| i <= j < e ==> in_class(CharClass::Digit, #[trigger] s@[j]),
    ensures
        v == digits_value(s@.subrange(i as int, e as int), 10),
{
    let ghost d = s@.subrange(i as int, e as int);
    let mut v: u32 = 0;
    let mut j = i;
    assert(d.take(0) =~= Seq::<char>::empty());
    while j < e
        invariant
            i <= j <= e <= s@.len(),
            e - i <= 3,
            d == s@.subrange(i as int, e as int),
            forall|x: int| i <= x < e ==> in_class(CharClass::Digit, #[trigger] s@[x]),
            v == digits_value(d.take(j - i), 10),
            v < if j - i == 0 { 1int } else if j - i == 1 { 10int } else if j - i == 2 { 100int } else { 1000int },
        decreases e - j,
    {
        let c = s[j];
        assert(in_class(CharClass::Digit, s@[j as int]));
        let ghost next = d.take(j + 1 - i);
        assert(next.drop_last() =~= d.take(j - i));
        assert(next.last() == c);
        v = v * 10 + ((c as u32) - ('0' as u32));
        j = j + 1;
    }
    assert(d.take(e - i) =~= d);
    v
}

fn octet_of(s: &Vec<char>, i: usize) -> (r: Option<(u8, usize)>)
    requires
        i <= s@.len(),
    ensures
        match octet_at(s@, i as int) {
            Some((v, e)) => r == Some((v, e as usize)) && i < e <= s@.len(),
            None => r is None,
        },
{
    let e = scan_digits(s, i);
    proof {
        lemma_run_end(s@, i as int, CharClass::Digit);
    }
    if e == i || e - i > 3 || (e - i > 1 && s[i] == '0') {
        return None;
    }
    let v = small_decimal(s, i, e);
    if v > 255 {
        return None;
    }
    Some((v as u8, e))
}

/// Reads a dotted-decimal IPv4 address.
pub fn parse_ipv4_chars(s: &Vec<char>) -> (r: Option<u32>)
    ensures
        r == parse_ipv4(s@),
{
    let (a, i) = match octet_of(s, 0) {
        Some(x) => x,
        None => {
            return None;
        },
    };
    if !(i < s.len() && s[i] == '.') {
        return None;
    }
    let (b, j) = match octet_of(s, i + 1) {
        Some(x) => x,
        None => {
            return None;
        },
    };
    if !(j < s.len() && s[j] == '.') {
        return None;
    }
    let (c, k) = match octet_of(s, j + 1) {
        Some(x) => x,
        None => {
            return None;
        },
    };
    if !(k < s.len() && s[k] == '.') {
        return None;
    }
    let (d, m) = match octet_of(s, k + 1) {
        Some(x) => x,
        None => {
            return None;
        },
    };
    if m != s.len() {
        return None;
    }
    Some((a as u32) * 0x100_0000 + (b as u32) * 0x1_0000 + (c as u32) * 0x100 + (d as u32))
}

fn subvec(s: &Vec<char>, from: usize, to: usize) -> (v: Vec<char>)
    requires
        from <= to <= s@.len(),
    ensures
        v@ == s@.subrange(from as int, to as int),
{
    let mut v: Vec<char> = Vec::new();
    let mut k = from;
    while k < to
        invariant
            from <= k <= to <= s@.len(),
            v@ == s@.subrange(from as int, k as int),
        decreases to - k,
    {
        v.push(s[k]);
        k = k + 1;
        assert(v@ =~= s@.subrange(from as int, k as int));
    }
    v
}

fn parse_u8_chars(s: &Vec<char>) -> (r: Option<u8>)
    ensures
        r == parse_u8_decimal(s@),
{
    let start: usize = if s.len() > 0 && s[0] == '+' { 1 } else { 0 };
    let d = subvec(s, start, s.len());
    assert(d@ =~= if s@.len() > 0 && s@[0] == '+' { s@.subrange(1, s@.len() as int) } else { s@ });
    if d.len() == 0 {
        return None;
    }
    let e = scan_digits(&d, 0);
    proof {
        lemma_run_end(d@, 0, CharClass::Digit);
    }
    if e != d.len() {
        return None;
    }
    let mut v: u32 = 0;
    let mut k: usize = 0;
    assert(d@.take(0) =~= Seq::<char>::empty());
    while k < d.len()
        invariant
            k <= d@.len(),
            e == d@.len(),
            e == run_end(d@, 0, CharClass::Digit),
            d@ == (if s@.len() > 0 && s@[0] == '+' { s@.subrange(1, s@.len() as int) } else { s@ }),
            forall|x: int| 0 <= x < d@.len() ==> in_class(CharClass::Digit, #[trigger] d@[x]),
            v <= 255,
            v == digits_value(d@.take(k as int), 10),
        decreases d@.len() - k,
    {
        let c = d[k];
        assert(in_class(CharClass::Digit, d@[k as int]));
        let ghost next = d@.take(k + 1);
        assert(next.drop_last() =~= d@.take(k as int));
        assert(next.last() == c);
        v = v * 10 + ((c as u32) - ('0' as u32));
        assert(v == digits_value(next, 10));
        if v > 255 {
            proof {
                lemma_value_prefix_bound(d@, k + 1);
            }
            return None;
        }
        k = k + 1;
    }
    assert(d@.take(k as int) =~= d@);
    Some(v as u8)
}

proof fn lemma_value_prefix_bound(d: Seq<char>, k: int)
    requires
        0 <= k <= d.len(),
    ensures
        digits_value(d.take(k), 10) <= digits_value(d, 10),
    decreases d.len(),
{
    if k < d.len() {
        lemma_value_prefix_bound(d.drop_last(), k);
        assert(d.drop_last().take(k) =~= d.take(k));
    } else {
        assert(d.take(k) =~= d);
    }
}

fn find_slash(s: &Vec<char>) -> (k: usize)
    ensures
        k == slash_at(s@, 0),
        k <= s@.len(),
        k < s@.len() ==> s@[k as int] == '/',
{
    let mut k: usize = 0;
    while k < s.len() && s[k] != '/'
        invariant
            k <= s@.len(),
            slash_at(s@, 0) == slash_at(s@, k as int),
        decreases s@.len() - k,
    {
        k = k + 1;
    }
    k
}

fn ipv4_prefix_mask(prefix: u8) -> (m: u32)
    requires
        prefix <= 32,
    ensures
        m == prefix_mask(prefix),
{
    if prefix == 0 { 0 } else { 0xffff_ffffu32 << ((32 - prefix) as u32) }
}

/// The value an address test compares with, if `raw` is an IPv4 address
/// or an address with a prefix length of at most 32.
pub fn parse_ipv4_match_value(raw: &str) -> (r: Option<u64>)
    ensures
        r == ipv4_match_value(raw@),
{
    let s = chars_of(raw);
    let k = find_slash(&s);
    if k < s.len() {
        let addr = subvec(&s, 0, k);
        let pre = subvec(&s, k + 1, s.len());
        match (parse_ipv4_chars(&addr), parse_u8_chars(&pre)) {
            (Some(a), Some(p)) => {
                if p > 32 {
                    None
                } else {
                    Some(((p as u64) << 32u64) | ((a & ipv4_prefix_mask(p)) as u64))
                }
            },
            _ => None,
        }
    } else {
        match parse_ipv4_chars(&s) {
            Some(a) => Some((32u64 << 32u64) | (a as u64)),
            None => None,
        }
    }
}

fn map_bool_symbol(sym: &str) -> (r: Option<Field>)
    ensures
        r == bool_symbol_field(sym@),
{
    if str_eq_ignore_case(sym, "tcp") {
        Some(Field::Tcp)
    } else if str_eq_ignore_case(sym, "udp") {
        Some(Field::Udp)
    } else if str_eq_ignore_case(sym, "ipv4") {
        Some(Field::Ipv4)
    } else if str_eq_ignore_case(sym, "ipv6") {
        Some(Field::Ipv6)
    } else if str_eq_ignore_case(sym, "outbound") {
        Some(Field::Outbound)
    } else if str_eq_ignore_case(sym, "inbound") {
        Some(Field::Inbound)
    } else {
        None
    }
}

fn refused_value(s: &String, f: Field) -> (e: SemanticError)
    ensures
        e@ == "unsupported symbolic value '"@ + s@ + "' for field '"@ + field_name(f) + "'"@,
{
    let mut m = join3("unsupported symbolic value '", s.as_str(), "' for field '");
    m.append(f.as_str());
    m.append("'");
    SemanticError::from_message(m)
}

fn map_value(f: Field, v: &Value) -> (r: Result<u64, SemanticError>)
    ensures
        match field_value(f, v@) {
            Ok(x) => r == Ok::<u64, SemanticError>(x),
            Err(m) => r matches Err(e) && e@ == m,
        },
{
    match v {
        Value::Number(n) => Ok(*n),
        Value::Symbol(s) => {
            let t = s.as_str();
            let is_event = f == Field::Event;
            let is_layer = f == Field::Layer;
            if is_event && str_eq_ignore_case(t, "open") {
                Ok(1)
            } else if is_event && str_eq_ignore_case(t, "connect") {
                Ok(2)
            } else if is_event && str_eq_ignore_case(t, "close") {
                Ok(3)
            } else if is_event && str_eq_ignore_case(t, "established") {
                Ok(4)
            } else if is_layer && str_eq_ignore_case(t, "network") {
                Ok(1)
            } else if is_layer && str_eq_ignore_case(t, "network_forward") {
                Ok(2)
            } else if is_layer && str_eq_ignore_case(t, "flow") {
                Ok(3)
            } else if is_layer && str_eq_ignore_case(t, "socket") {
                Ok(4)
            } else if is_layer && str_eq_ignore_case(t, "reflect") {
                Ok(5)
            } else if f == Field::LocalAddr || f == Field::RemoteAddr {
                match parse_ipv4_match_value(t) {
                    Some(x) => Ok(x),
                    None => Err(refused_value(s, f)),
                }
            } else {
                Err(refused_value(s, f))
            }
        },
    }
}

fn lower_predicate(p: &Predicate) -> (r: Result<OpCode, SemanticError>)
    ensures
        match spec_lower_predicate(p@) {
            Ok(op) => r matches Ok(o) && o@ == op,
            Err(m) => r matches Err(e) && e@ == m,
        },
{
    match p {
        Predicate::BareSymbol(sym) => match map_bool_symbol(sym.as_str()) {
            Some(f) => Ok(OpCode::FieldTest { field: f.as_str(), value: 1 }),
            None => Err(SemanticError::from_message(join3("unsupported symbol '", sym.as_str(), "'"))),
        },
        Predicate::FieldEq { field, value } => {
            let f = match crate::filter::semantics::canonical_field(field.as_str()) {
                Some(f) => f,
                None => {
                    return Err(SemanticError::from_message(join3("unsupported field '", field.as_str(), "'")));
                },
            };
            match map_value(f, value) {
                Ok(v) => Ok(OpCode::FieldTest { field: f.as_str(), value: v }),
                Err(e) => Err(e),
            }
        },
        Predicate::PacketEq { width, offset, value } => match width {
            PacketWidth::Dword => if *value > 0xffff_ffff {
                Err(SemanticError::from_message("packet32 value out of range for u32".to_owned()))
            } else {
                Ok(OpCode::PacketLoad32 { offset: *offset, value: *value as u32 })
            },
            PacketWidth::Word => if *value > 0xffff {
                Err(SemanticError::from_message("packet16 value out of range for u16".to_owned()))
            } else {
                Ok(OpCode::PacketLoad16 { offset: *offset, value: *value as u16 })
            },
            PacketWidth::Byte => if *value > 0xff {
                Err(SemanticError::from_message("packet value out of range for u8".to_owned()))
            } else {
                Ok(OpCode::PacketLoad8 { offset: *offset, value: *value as u8 })
            },
        },
    }
}

fn lower_expr(e: &Expr, program: &mut Vec<OpCode>) -> (r: Result<(), SemanticError>)
    ensures
        match spec_lower_expr(e@) {
            Ok(ops) => r is Ok && ops_view(final(program)@) == ops_view(old(program)@) + ops,
            Err(m) => r matches Err(x) && x@ == m,
        },
    decreases e,
{
    let ghost start = ops_view(program@);
    match e {
        Expr::And(l, r) => {
            match lower_expr(l, program) {
                Ok(()) => {},
                Err(m) => {
                    return Err(m);
                },
            }
            match lower_expr(r, program) {
                Ok(()) => {},
                Err(m) => {
                    return Err(m);
                },
            }
            let ghost before = program@;
            program.push(OpCode::And);
            assert(ops_view(program@) =~= ops_view(before).push(OpView::And));
        },
        Expr::Or(l, r) => {
            match lower_expr(l, program) {
                Ok(()) => {},
                Err(m) => {
                    return Err(m);
                },
            }
            match lower_expr(r, program) {
                Ok(()) => {},
                Err(m) => {
                    return Err(m);
                },
            }
            let ghost before = program@;
            program.push(OpCode::Or);
            assert(ops_view(program@) =~= ops_view(before).push(OpView::Or));
        },
        Expr::Not(x) => {
            match lower_expr(x, program) {
                Ok(()) => {},
                Err(m) => {
                    return Err(m);
                },
            }
            let ghost before = program@;
            program.push(OpCode::Not);
            assert(ops_view(program@) =~= ops_view(before).push(OpView::Not));
        },
        Expr::Predicate(p) => {
            let op = match lower_predicate(p) {
                Ok(op) => op,
                Err(m) => {
                    return Err(m);
                },
            };
            let ghost before = program@;
            program.push(op);
            assert(ops_view(program@) =~= ops_view(before).push(op@));
        },
    }
    assert(ops_view(program@) =~= start + spec_lower_expr(e@)->Ok_0);
    Ok(())
}

/// Lowers a checked expression into its stack program, keeping the
/// analysis's findings.
pub fn lower(expr: &Expr, info: SemanticInfo) -> (r: Result<FilterIr, SemanticError>)
    ensures
        match spec_lower(expr@, info@) {
            Ok(ir) => r matches Ok(x) && x@ == ir,
            Err(m) => r matches Err(e) && e@ == m,
        },
{
    let mut program: Vec<OpCode> = Vec::new();
    assert(ops_view(program@) =~= Seq::<OpView>::empty());
    match lower_expr(expr, &mut program) {
        Ok(()) => {},
        Err(e) => {
            return Err(e);
        },
    }
    assert(ops_view(program@) =~= spec_lower_expr(expr@)->Ok_0);
    Ok(FilterIr {
        required_layers: info.required_layers,
        needs_payload: info.needs_payload,
        referenced_fields: info.referenced_fields,
        program,
    })
}


/// Every instruction of a lowered program names a known field.
pub proof fn lemma_lowered_ops_encodable(e: ExprView)
    ensures
        spec_lower_expr(e) matches Ok(ops) ==> forall|i: int| 0 <= i < ops.len() ==> op_encodable(#[trigger] ops[i]),
    decreases e,
{
    match e {
        ExprView::And(l, r) => {
            lemma_lowered_ops_encodable(*l);
            lemma_lowered_ops_encodable(*r);
            if let (Ok(a), Ok(b)) = (spec_lower_expr(*l), spec_lower_expr(*r)) {
                let ops = a + b + seq![OpView::And];
                assert forall|i: int| 0 <= i < ops.len() implies op_encodable(#[trigger] ops[i]) by {
                    if i < a.len() {
                        assert(ops[i] == a[i]);
                    } else if i < a.len() + b.len() {
                        assert(ops[i] == b[i - a.len()]);
                    }
                }
            }
        },
        ExprView::Or(l, r) => {
            lemma_lowered_ops_encodable(*l);
            lemma_lowered_ops_encodable(*r);
            if let (Ok(a), Ok(b)) = (spec_lower_expr(*l), spec_lower_expr(*r)) {
                let ops = a + b + seq![OpView::Or];
                assert forall|i: int| 0 <= i < ops.len() implies op_encodable(#[trigger] ops[i]) by {
                    if i < a.len() {
                        assert(ops[i] == a[i]);
                    } else if i < a.len() + b.len() {
                        assert(ops[i] == b[i - a.len()]);
                    }
                }
            }
        },
        ExprView::Not(x) => {
            lemma_lowered_ops_encodable(*x);
            if let Ok(a) = spec_lower_expr(*x) {
                let ops = a + seq![OpView::Not];
                assert forall|i: int| 0 <= i < ops.len() implies op_encodable(#[trigger] ops[i]) by {
                    if i < a.len() {
                        assert(ops[i] == a[i]);
                    }
                }
            }
        },
        ExprView::Predicate(p) => {
            if let Ok(op) = spec_lower_predicate(p) {
                match p {
                    PredicateView::BareSymbol(sym) => {
                        lemma_field_encoding(bool_symbol_field(sym)->0);
                    },
                    PredicateView::FieldEq { field, .. } => {
                        lemma_field_encoding(spec_canonical_field(field)->0);
                    },
                    _ => {},
                }
                assert(seq![op][0] == op);
            }
        },
    }
}

/// The stack depth a program leaves when run from depth `d`, or `None`
/// when an operator finds too few operands: a field test or packet load
/// pushes one result, `not` replaces one, `and` and `or` take two and
/// push one.
pub open spec fn stack_depth(ops: Seq<OpView>, d: int) -> Option<int>
    decreases ops.len(),
{
    if ops.len() == 0 {
        Some(d)
    } else {
        match stack_depth(ops.drop_last(), d) {
            None => None,
            Some(x) => match ops.last() {
                OpView::Not => if x >= 1 { Some(x) } else { None },
                OpView::And | OpView::Or => if x >= 2 { Some(x - 1) } else { None },
                _ => Some(x + 1),
            },
        }
    }
}

/// Whether an instruction reads packet bytes.
pub open spec fn is_packet_load(op: OpView) -> bool {
    op is PacketLoad32 || op is PacketLoad16 || op is PacketLoad8
}

proof fn lemma_stack_depth_concat(a: Seq<OpView>, b: Seq<OpView>, d: int)
    ensures
        stack_depth(a + b, d) == match stack_depth(a, d) {
            None => None,
            Some(x) => stack_depth(b, x),
        },
    decreases b.len(),
{
    if b.len() == 0 {
        assert(a + b =~= a);
    } else {
        lemma_stack_depth_concat(a, b.drop_last(), d);
        assert((a + b).drop_last() =~= a + b.drop_last());
        assert((a + b).last() == b.last());
    }
}

proof fn lemma_stack_depth_shift(b: Seq<OpView>, d: int, y: int, e: int)
    requires
        stack_depth(b, d) == Some(y),
        e >= 0,
    ensures
        stack_depth(b, d + e) == Some(y + e),
    decreases b.len(),
{
    if b.len() > 0 {
        let x = stack_depth(b.drop_last(), d)->0;
        lemma_stack_depth_shift(b.drop_last(), d, x, e);
    }
}

/// Whether a program loads packet bytes anywhere.
pub open spec fn has_packet_load(ops: Seq<OpView>) -> bool {
    exists|i: int| 0 <= i < ops.len() && #[trigger] is_packet_load(ops[i])
}

/// Whether the program an expression lowers to, if it lowers, is a
/// well-formed stack program that loads packet bytes exactly when the
/// expression tests them.
#[verifier::opaque]
pub open spec fn lowered_well_shaped(e: ExprView) -> bool {
    spec_lower_expr(e) matches Ok(ops) ==> stack_depth(ops, 0) == Some(1int) && (has_packet_load(ops) <==> reads_packet(e))
}

/// A lowered expression is a well-formed stack program: run from an empty
/// stack, no operator lacks operands and exactly one result is left; and
/// it loads packet bytes exactly when the expression tests them.
pub proof fn lemma_lowered_program_shape(e: ExprView)
    ensures
        lowered_well_shaped(e),
    decreases e,
{
    match e {
        ExprView::And(l, r) => {
            lemma_lowered_program_shape(*l);
            lemma_lowered_program_shape(*r);
            lemma_lowered_binary(e, *l, *r, OpView::And);
        },
        ExprView::Or(l, r) => {
            lemma_lowered_program_shape(*l);
            lemma_lowered_program_shape(*r);
            lemma_lowered_binary(e, *l, *r, OpView::Or);
        },
        ExprView::Not(x) => {
            lemma_lowered_program_shape(*x);
            lemma_lowered_not(e, *x);
        },
        ExprView::Predicate(p) => lemma_lowered_predicate(p),
    }
}

proof fn lemma_lowered_predicate(p: PredicateView)
    ensures
        lowered_well_shaped(ExprView::Predicate(p)),
{
    reveal(lowered_well_shaped);
    if let Ok(op) = spec_lower_predicate(p) {
        let ops = seq![op];
        assert(spec_lower_expr(ExprView::Predicate(p)) == Ok::<Seq<OpView>, Seq<char>>(ops));
        assert(ops.drop_last() =~= Seq::<OpView>::empty());
        assert(stack_depth(ops.drop_last(), 0) == Some(0int));
        assert(ops.last() == op);
        assert(!(op is Not || op is And || op is Or));
        assert(stack_depth(ops, 0) == Some(1int));
        if p is PacketEq {
            assert(is_packet_load(ops[0]));
        }
    }
}

proof fn lemma_lowered_not(e: ExprView, x: ExprView)
    requires
        e == ExprView::Not(Box::new(x)),
        lowered_well_shaped(x),
    ensures
        lowered_well_shaped(e),
{
    reveal(lowered_well_shaped);
    if let Ok(a) = spec_lower_expr(x) {
        let ops = a + seq![OpView::Not];
        assert(spec_lower_expr(e) == Ok::<Seq<OpView>, Seq<char>>(ops));
        assert(ops.drop_last() =~= a);
        if has_packet_load(ops) {
            let i = choose|i: int| 0 <= i < ops.len() && #[trigger] is_packet_load(ops[i]);
            assert(i < a.len() && is_packet_load(a[i]));
        }
        if has_packet_load(a) {
            let i = choose|i: int| 0 <= i < a.len() && #[trigger] is_packet_load(a[i]);
            assert(ops[i] == a[i]);
        }
    }
}

proof fn lemma_lowered_binary(e: ExprView, l: ExprView, r: ExprView, op: OpView)
    requires
        (op == OpView::And && e == ExprView::And(Box::new(l), Box::new(r)))
            || (op == OpView::Or && e == ExprView::Or(Box::new(l), Box::new(r))),
        lowered_well_shaped(l),
        lowered_well_shaped(r),
    ensures
        lowered_well_shaped(e),
{
    reveal(lowered_well_shaped);
    if let (Ok(a), Ok(b)) = (spec_lower_expr(l), spec_lower_expr(r)) {
        let ops = a + b + seq![op];
        assert(spec_lower_expr(e) == Ok::<Seq<OpView>, Seq<char>>(ops));
        assert(ops.drop_last() =~= a + b);
        lemma_stack_depth_concat(a, b, 0);
        lemma_stack_depth_shift(b, 0, 1, 1);
        if has_packet_load(ops) {
            let i = choose|i: int| 0 <= i < ops.len() && #[trigger] is_packet_load(ops[i]);
            if i < a.len() {
                assert(ops[i] == a[i]);
            } else {
                assert(i < a.len() + b.len());
                assert(ops[i] == b[i - a.len()]);
            }
        }
        if has_packet_load(a) {
            let i = choose|i: int| 0 <= i < a.len() && #[trigger] is_packet_load(a[i]);
            assert(ops[i] == a[i]);
        }
        if has_packet_load(b) {
            let i = choose|i: int| 0 <= i < b.len() && #[trigger] is_packet_load(b[i]);
            assert(ops[a.len() + i] == b[i]);
        }
    }
}

} // verus!
