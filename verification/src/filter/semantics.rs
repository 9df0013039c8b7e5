//! Checking a parsed filter and working out what it needs: the layers a
//! match can come from, whether packet bytes are read, and which fields
//! are named.
//!
//! A test only adds layers when it is not negated. An `and` whose other
//! side (positively) selects `event == OPEN` puts its operand in reflect
//! context, where `layer == ...` adds no layer.
use vstd::prelude::*;
use crate::filter::fields::{
    Field, field_name, lower_chars, str_eq_ignore_case, name_lt, name_lt_from, lemma_name_lt_transitive,
    lemma_name_lt_irreflexive,
};
use crate::filter::ir::{LayerMask, names_view, is_field_name, lemma_field_encoding};
use crate::filter::parser::{Expr, ExprView, Predicate, PredicateView, Value, ValueView, reads_packet};
use crate::text::{ascii_lowercase, join3};

verus! {

/// A filter that parses but does not make sense.
#[derive(Debug)]
pub struct SemanticError {
    message: String,
}

impl View for SemanticError {
    type V = Seq<char>;

    closed spec fn view(&self) -> Seq<char> {
        self.message@
    }
}

impl SemanticError {
    /// An error with the given text.
    pub fn from_message(message: String) -> (e: SemanticError)
        ensures
            e@ == message@,
    {
        SemanticError { message }
    }

    /// The error's text.
    pub fn message(&self) -> (m: &str)
        ensures
            m@ == self@,
    {
        self.message.as_str()
    }
}

/// What a filter needs, as found by `analyze`.
#[derive(Debug, Clone)]
pub struct SemanticInfo {
    pub required_layers: LayerMask,
    pub needs_payload: bool,
    pub referenced_fields: Vec<&'static str>,
}

/// Semantic information with the field names as character sequences.
pub struct SemanticInfoView {
    pub required_layers: u8,
    pub needs_payload: bool,
    pub referenced_fields: Seq<Seq<char>>,
}

impl View for SemanticInfo {
    type V = SemanticInfoView;

    open spec fn view(&self) -> SemanticInfoView {
        SemanticInfoView {
            required_layers: self.required_layers.spec_bits(),
            needs_payload: self.needs_payload,
            referenced_fields: names_view(self.referenced_fields@),
        }
    }
}

/// What the visit over an expression has found so far.
pub struct Findings {
    pub layers: u8,
    pub payload: bool,
    pub fields: Set<Field>,
    pub flow_selected: bool,
    pub packet_used: bool,
}

impl Findings {
    pub open spec fn with_layers(self, bits: u8) -> Findings {
        Findings { layers: self.layers | bits, ..self }
    }

    pub open spec fn with_field(self, f: Field) -> Findings {
        Findings { fields: self.fields.insert(f), ..self }
    }

    /// Adds `bits` when the test is not negated.
    pub open spec fn with_layers_if(self, pol: bool, bits: u8) -> Findings {
        if pol { self.with_layers(bits) } else { self }
    }
}

/// The field a field test names, in any letter case (`packet` is not one).
pub open spec fn spec_canonical_field(name: Seq<char>) -> Option<Field> {
    let low = lower_chars(name);
    if low == "event"@ {
        Some(Field::Event)
    } else if low == "layer"@ {
        Some(Field::Layer)
    } else if low == "processid"@ {
        Some(Field::ProcessId)
    } else if low == "tcp"@ {
        Some(Field::Tcp)
    } else if low == "udp"@ {
        Some(Field::Udp)
    } else if low == "ipv4"@ {
        Some(Field::Ipv4)
    } else if low == "ipv6"@ {
        Some(Field::Ipv6)
    } else if low == "localaddr"@ {
        Some(Field::LocalAddr)
    } else if low == "remoteaddr"@ {
        Some(Field::RemoteAddr)
    } else if low == "localport"@ {
        Some(Field::LocalPort)
    } else if low == "remoteport"@ {
        Some(Field::RemotePort)
    } else if low == "outbound"@ {
        Some(Field::Outbound)
    } else if low == "inbound"@ {
        Some(Field::Inbound)
    } else {
        None
    }
}

/// A bare symbol's effect.
pub open spec fn visit_symbol(sym: Seq<char>, s: Findings, pol: bool) -> Result<Findings, Seq<char>> {
    let low = lower_chars(sym);
    if low == "tcp"@ {
        Ok(s.with_field(Field::Tcp))
    } else if low == "udp"@ {
        Ok(s.with_field(Field::Udp))
    } else if low == "ipv4"@ {
        Ok(s.with_layers_if(pol, 0x01u8).with_layers_if(pol, 0x02u8).with_field(Field::Ipv4))
    } else if low == "ipv6"@ {
        Ok(s.with_layers_if(pol, 0x01u8).with_layers_if(pol, 0x02u8).with_field(Field::Ipv6))
    } else if low == "outbound"@ {
        Ok(s.with_layers_if(pol, 0x02u8).with_field(Field::Outbound))
    } else if low == "inbound"@ {
        Ok(s.with_layers_if(pol, 0x01u8).with_field(Field::Inbound))
    } else {
        Err("unsupported symbol '"@ + low + "'"@)
    }
}

/// The effect of `event == value`, after the field is recorded.
pub open spec fn visit_event(value: ValueView, s: Findings, pol: bool) -> Result<Findings, Seq<char>> {
    match value {
        ValueView::Symbol(v) => if lower_chars(v) == "open"@ {
            Ok(s.with_layers_if(pol, 0x10u8))
        } else if lower_chars(v) == "connect"@ {
            Ok(s.with_layers_if(pol, 0x08u8))
        } else if lower_chars(v) == "close"@ {
            Ok(s.with_layers_if(pol, 0x10u8))
        } else if lower_chars(v) == "established"@ {
            Ok(s.with_layers_if(pol, 0x04u8))
        } else {
            Err("unsupported event '"@ + v + "'"@)
        },
        ValueView::Number(_) => Err("event comparison expects symbolic value"@),
    }
}

/// The effect of `layer == value`, after the field is recorded.
pub open spec fn visit_layer(value: ValueView, s: Findings, ctx: bool, pol: bool) -> Result<Findings, Seq<char>> {
    let on = pol && !ctx;
    match value {
        ValueView::Symbol(v) => if lower_chars(v) == "flow"@ {
            Ok(if on { Findings { flow_selected: true, ..s }.with_layers(0x04u8) } else { s })
        } else if lower_chars(v) == "network"@ {
            Ok(s.with_layers_if(on, 0x01u8))
        } else if lower_chars(v) == "network_forward"@ {
            Ok(s.with_layers_if(on, 0x02u8))
        } else if lower_chars(v) == "socket"@ {
            Ok(s.with_layers_if(on, 0x08u8))
        } else if lower_chars(v) == "reflect"@ {
            Ok(s.with_layers_if(on, 0x10u8))
        } else {
            Err("unsupported layer '"@ + v + "'"@)
        },
        ValueView::Number(_) => Err("layer comparison expects symbolic value"@),
    }
}

/// The effect of one test.
pub open spec fn spec_visit_predicate(p: PredicateView, s: Findings, ctx: bool, pol: bool) -> Result<Findings, Seq<char>> {
    match p {
        PredicateView::BareSymbol(sym) => visit_symbol(sym, s, pol),
        PredicateView::FieldEq { field, value } => match spec_canonical_field(field) {
            None => Err("unsupported field '"@ + field + "'"@),
            Some(f) => {
                let s1 = s.with_field(f);
                if f == Field::Event {
                    visit_event(value, s1, pol)
                } else if f == Field::Layer {
                    visit_layer(value, s1, ctx, pol)
                } else if f == Field::ProcessId {
                    match value {
                        ValueView::Number(_) => Ok(s1.with_layers_if(pol, 0x08u8)),
                        ValueView::Symbol(v) => Err("processId comparison expects numeric value, got '"@ + v + "'"@),
                    }
                } else if f == Field::LocalPort || f == Field::RemotePort || f == Field::LocalAddr || f == Field::RemoteAddr {
                    Ok(s1.with_layers_if(pol, 0x01u8).with_layers_if(pol, 0x02u8))
                } else {
                    Ok(s1)
                }
            },
        },
        PredicateView::PacketEq { .. } => Ok(
            Findings { packet_used: true, payload: true, ..s }.with_layers(0x01u8).with_field(Field::Packet),
        ),
    }
}

/// Whether `e`, read with polarity `pol`, contains a non-negated
/// `event == OPEN` test.
pub open spec fn positive_reflect_open(e: ExprView, pol: bool) -> bool
    decreases e,
{
    match e {
        ExprView::And(l, r) => positive_reflect_open(*l, pol) || positive_reflect_open(*r, pol),
        ExprView::Or(l, r) => positive_reflect_open(*l, pol) || positive_reflect_open(*r, pol),
        ExprView::Not(x) => positive_reflect_open(*x, !pol),
        ExprView::Predicate(PredicateView::FieldEq { field, value }) => pol && lower_chars(field) == "event"@
            && (value matches ValueView::Symbol(v) && lower_chars(v) == "open"@),
        ExprView::Predicate(_) => false,
    }
}

/// The visit over an expression, left operand first; the first error stops it.
pub open spec fn spec_visit(e: ExprView, s: Findings, ctx: bool, pol: bool) -> Result<Findings, Seq<char>>
    decreases e,
{
    match e {
        ExprView::And(l, r) => {
            let lctx = ctx || positive_reflect_open(*r, pol);
            let rctx = ctx || positive_reflect_open(*l, pol);
            match spec_visit(*l, s, lctx, pol) {
                Err(m) => Err(m),
                Ok(s1) => spec_visit(*r, s1, rctx, pol),
            }
        },
        ExprView::Or(l, r) => match spec_visit(*l, s, ctx, pol) {
            Err(m) => Err(m),
            Ok(s1) => spec_visit(*r, s1, ctx, pol),
        },
        ExprView::Not(x) => spec_visit(*x, s, ctx, !pol),
        ExprView::Predicate(p) => spec_visit_predicate(p, s, ctx, pol),
    }
}

/// The fields in the order of the byte order of their names.
pub open spec fn fields_in_name_order() -> Seq<Field> {
    seq![
        Field::Event,
        Field::Inbound,
        Field::Ipv4,
        Field::Ipv6,
        Field::Layer,
        Field::LocalAddr,
        Field::LocalPort,
        Field::Outbound,
        Field::Packet,
        Field::ProcessId,
        Field::RemoteAddr,
        Field::RemotePort,
        Field::Tcp,
        Field::Udp,
    ]
}

/// The names of the fields of `order` that are in `set`, in that order.
pub open spec fn listed(order: Seq<Field>, set: Set<Field>) -> Seq<Seq<char>>
    decreases order.len(),
{
    if order.len() == 0 {
        Seq::empty()
    } else {
        listed(order.drop_last(), set) + if set.contains(order.last()) {
            seq![field_name(order.last())]
        } else {
            Seq::empty()
        }
    }
}

/// Before the visit: nothing found.
pub open spec fn no_findings() -> Findings {
    Findings { layers: 0, payload: false, fields: Set::empty(), flow_selected: false, packet_used: false }
}

/// The result of analysing an expression: the visit, then the rule that a
/// filter selecting the FLOW layer may not read packet bytes.
pub open spec fn spec_analyze(e: ExprView) -> Result<SemanticInfoView, Seq<char>> {
    match spec_visit(e, no_findings(), false, true) {
        Err(m) => Err(m),
        Ok(s) => if s.flow_selected && s.packet_used {
            Err("packet access is not valid for FLOW"@)
        } else {
            Ok(SemanticInfoView {
                required_layers: s.layers,
                needs_payload: s.payload,
                referenced_fields: listed(fields_in_name_order(), s.fields),
            })
        },
    }
}

/// The position of a field in `fields_in_name_order`.
pub open spec fn name_rank(f: Field) -> int {
    match f {
        Field::Event => 0,
        Field::Inbound => 1,
        Field::Ipv4 => 2,
        Field::Ipv6 => 3,
        Field::Layer => 4,
        Field::LocalAddr => 5,
        Field::LocalPort => 6,
        Field::Outbound => 7,
        Field::Packet => 8,
        Field::ProcessId => 9,
        Field::RemoteAddr => 10,
        Field::RemotePort => 11,
        Field::Tcp => 12,
        Field::Udp => 13,
    }
}

proof fn lemma_name_rank(f: Field)
    ensures
        0 <= name_rank(f) < 14,
        fields_in_name_order()[name_rank(f)] == f,
{
}

proof fn lemma_rank_of_index(k: int)
    requires
        0 <= k < 14,
    ensures
        name_rank(fields_in_name_order()[k]) == k,
{
    if k == 0 {} else if k == 1 {} else if k == 2 {} else if k == 3 {} else if k == 4 {} else if k == 5 {}
    else if k == 6 {} else if k == 7 {} else if k == 8 {} else if k == 9 {} else if k == 10 {}
    else if k == 11 {} else if k == 12 {} else {}
}

fn rank_of(f: Field) -> (r: usize)
    ensures
        r == name_rank(f),
{
    match f {
        Field::Event => 0,
        Field::Inbound => 1,
        Field::Ipv4 => 2,
        Field::Ipv6 => 3,
        Field::Layer => 4,
        Field::LocalAddr => 5,
        Field::LocalPort => 6,
        Field::Outbound => 7,
        Field::Packet => 8,
        Field::ProcessId => 9,
        Field::RemoteAddr => 10,
        Field::RemotePort => 11,
        Field::Tcp => 12,
        Field::Udp => 13,
    }
}

fn field_at_rank(k: usize) -> (f: Field)
    requires
        k < 14,
    ensures
        f == fields_in_name_order()[k as int],
{
    if k == 0 { Field::Event } else if k == 1 { Field::Inbound } else if k == 2 { Field::Ipv4 } else if k == 3 {
        Field::Ipv6
    } else if k == 4 { Field::Layer } else if k == 5 { Field::LocalAddr } else if k == 6 { Field::LocalPort }
    else if k == 7 { Field::Outbound } else if k == 8 { Field::Packet } else if k == 9 { Field::ProcessId }
    else if k == 10 { Field::RemoteAddr } else if k == 11 { Field::RemotePort } else if k == 12 { Field::Tcp }
    else { Field::Udp }
}

/// The visit's state: found layers and flags, and one mark per field in
/// name order.
struct Walk {
    layers: LayerMask,
    payload: bool,
    seen: Vec<bool>,
    flow_selected: bool,
    packet_used: bool,
}

impl View for Walk {
    type V = Findings;

    closed spec fn view(&self) -> Findings {
        Findings {
            layers: self.layers.spec_bits(),
            payload: self.payload,
            fields: Set::new(|f: Field| self.seen@[name_rank(f)]),
            flow_selected: self.flow_selected,
            packet_used: self.packet_used,
        }
    }
}

impl Walk {
    closed spec fn wf(&self) -> bool {
        self.seen@.len() == 14
    }

    fn new() -> (w: Walk)
        ensures
            w.wf(),
            w@ == no_findings(),
    {
        let w = Walk { layers: LayerMask::empty(), payload: false, seen: vec![false; 14], flow_selected: false, packet_used: false };
        assert(w@.fields =~= Set::<Field>::empty());
        w
    }

    fn add_field(&mut self, f: Field)
        requires
            old(self).wf(),
        ensures
            final(self).wf(),
            final(self)@ == old(self)@.with_field(f),
    {
        let ghost before = self@;
        let r = rank_of(f);
        proof {
            lemma_name_rank(f);
        }
        self.seen.set(r, true);
        assert forall|g: Field| #[trigger] self@.fields.contains(g) == before.fields.insert(f).contains(g) by {
            lemma_name_rank(g);
        }
        assert(self@.fields =~= before.fields.insert(f));
    }

    fn add_layers_if(&mut self, pol: bool, bits: LayerMask)
        requires
            old(self).wf(),
        ensures
            final(self).wf(),
            final(self)@ == old(self)@.with_layers_if(pol, bits.spec_bits()),
    {
        if pol {
            self.layers.insert(bits);
        }
    }

    fn field_names(&self) -> (v: Vec<&'static str>)
        requires
            self.wf(),
        ensures
            names_view(v@) == listed(fields_in_name_order(), self@.fields),
    {
        let mut v: Vec<&'static str> = Vec::new();
        let mut k: usize = 0;
        assert(names_view(v@) =~= listed(fields_in_name_order().take(0), self@.fields));
        while k < 14
            invariant
                self.wf(),
                k <= 14,
                names_view(v@) == listed(fields_in_name_order().take(k as int), self@.fields),
            decreases 14 - k,
        {
            let f = field_at_rank(k);
            let ghost order = fields_in_name_order().take(k + 1);
            assert(order.drop_last() =~= fields_in_name_order().take(k as int));
            assert(order.last() == f);
            proof {
                lemma_rank_of_index(k as int);
            }
            if self.seen[k] {
                let name = f.as_str();
                assert(names_view(v@.push(name)) =~= names_view(v@).push(name@));
                v.push(name);
            }
            assert(names_view(v@) =~= listed(order, self@.fields));
            k = k + 1;
        }
        assert(fields_in_name_order().take(14) =~= fields_in_name_order());
        v
    }
}

fn quoted_error(prefix: &str, text: &str) -> (e: SemanticError)
    ensures
        e@ == prefix@ + text@ + "'"@,
{
    SemanticError::from_message(join3(prefix, text, "'"))
}

fn plain_error(text: &str) -> (e: SemanticError)
    ensures
        e@ == text@,
{
    SemanticError::from_message(text.to_owned())
}

pub(crate) fn canonical_field(name: &str) -> (r: Option<Field>)
    ensures
        r == spec_canonical_field(name@),
{
    if str_eq_ignore_case(name, "event") {
        Some(Field::Event)
    } else if str_eq_ignore_case(name, "layer") {
        Some(Field::Layer)
    } else if str_eq_ignore_case(name, "processid") {
        Some(Field::ProcessId)
    } else if str_eq_ignore_case(name, "tcp") {
        Some(Field::Tcp)
    } else if str_eq_ignore_case(name, "udp") {
        Some(Field::Udp)
    } else if str_eq_ignore_case(name, "ipv4") {
        Some(Field::Ipv4)
    } else if str_eq_ignore_case(name, "ipv6") {
        Some(Field::Ipv6)
    } else if str_eq_ignore_case(name, "localaddr") {
        Some(Field::LocalAddr)
    } else if str_eq_ignore_case(name, "remoteaddr") {
        Some(Field::RemoteAddr)
    } else if str_eq_ignore_case(name, "localport") {
        Some(Field::LocalPort)
    } else if str_eq_ignore_case(name, "remoteport") {
        Some(Field::RemotePort)
    } else if str_eq_ignore_case(name, "outbound") {
        Some(Field::Outbound)
    } else if str_eq_ignore_case(name, "inbound") {
        Some(Field::Inbound)
    } else {
        None
    }
}

/// The outcome of a visit step matches the spec outcome `o`.
pub open spec fn walked(o: Result<Findings, Seq<char>>, r: Result<(), SemanticError>, after: Findings) -> bool {
    match o {
        Ok(s) => r is Ok && after == s,
        Err(m) => r matches Err(e) && e@ == m,
    }
}

fn walk_symbol(sym: &String, w: &mut Walk, pol: bool) -> (r: Result<(), SemanticError>)
    requires
        old(w).wf(),
    ensures
        final(w).wf(),
        walked(visit_symbol(sym@, old(w)@, pol), r, final(w)@),
{
    let low = ascii_lowercase(sym.as_str());
    if str_eq_ignore_case(sym.as_str(), "tcp") {
        w.add_field(Field::Tcp);
    } else if str_eq_ignore_case(sym.as_str(), "udp") {
        w.add_field(Field::Udp);
    } else if str_eq_ignore_case(sym.as_str(), "ipv4") {
        w.add_layers_if(pol, LayerMask::network());
        w.add_layers_if(pol, LayerMask::network_forward());
        w.add_field(Field::Ipv4);
    } else if str_eq_ignore_case(sym.as_str(), "ipv6") {
        w.add_layers_if(pol, LayerMask::network());
        w.add_layers_if(pol, LayerMask::network_forward());
        w.add_field(Field::Ipv6);
    } else if str_eq_ignore_case(sym.as_str(), "outbound") {
        w.add_layers_if(pol, LayerMask::network_forward());
        w.add_field(Field::Outbound);
    } else if str_eq_ignore_case(sym.as_str(), "inbound") {
        w.add_layers_if(pol, LayerMask::network());
        w.add_field(Field::Inbound);
    } else {
        return Err(quoted_error("unsupported symbol '", low.as_str()));
    }
    Ok(())
}

fn walk_event(value: &Value, w: &mut Walk, pol: bool) -> (r: Result<(), SemanticError>)
    requires
        old(w).wf(),
    ensures
        final(w).wf(),
        walked(visit_event(value@, old(w)@, pol), r, final(w)@),
{
    match value {
        Value::Symbol(v) => {
            if str_eq_ignore_case(v.as_str(), "open") {
                w.add_layers_if(pol, LayerMask::reflect());
            } else if str_eq_ignore_case(v.as_str(), "connect") {
                w.add_layers_if(pol, LayerMask::socket());
            } else if str_eq_ignore_case(v.as_str(), "close") {
                w.add_layers_if(pol, LayerMask::reflect());
            } else if str_eq_ignore_case(v.as_str(), "established") {
                w.add_layers_if(pol, LayerMask::flow());
            } else {
                return Err(quoted_error("unsupported event '", v.as_str()));
            }
            Ok(())
        },
        Value::Number(_) => Err(plain_error("event comparison expects symbolic value")),
    }
}

fn walk_layer(value: &Value, w: &mut Walk, ctx: bool, pol: bool) -> (r: Result<(), SemanticError>)
    requires
        old(w).wf(),
    ensures
        final(w).wf(),
        walked(visit_layer(value@, old(w)@, ctx, pol), r, final(w)@),
{
    let on = pol && !ctx;
    match value {
        Value::Symbol(v) => {
            if str_eq_ignore_case(v.as_str(), "flow") {
                if on {
                    w.flow_selected = true;
                    w.layers.insert(LayerMask::flow());
                }
            } else if str_eq_ignore_case(v.as_str(), "network") {
                w.add_layers_if(on, LayerMask::network());
            } else if str_eq_ignore_case(v.as_str(), "network_forward") {
                w.add_layers_if(on, LayerMask::network_forward());
            } else if str_eq_ignore_case(v.as_str(), "socket") {
                w.add_layers_if(on, LayerMask::socket());
            } else if str_eq_ignore_case(v.as_str(), "reflect") {
                w.add_layers_if(on, LayerMask::reflect());
            } else {
                return Err(quoted_error("unsupported layer '", v.as_str()));
            }
            Ok(())
        },
        Value::Number(_) => Err(plain_error("layer comparison expects symbolic value")),
    }
}

fn visit_predicate(p: &Predicate, w: &mut Walk, ctx: bool, pol: bool) -> (r: Result<(), SemanticError>)
    requires
        old(w).wf(),
    ensures
        final(w).wf(),
        walked(spec_visit_predicate(p@, old(w)@, ctx, pol), r, final(w)@),
{
    match p {
        Predicate::BareSymbol(sym) => walk_symbol(sym, w, pol),
        Predicate::FieldEq { field, value } => {
            let f = match canonical_field(field.as_str()) {
                Some(f) => f,
                None => {
                    return Err(quoted_error("unsupported field '", field.as_str()));
                },
            };
            w.add_field(f);
            match f {
                Field::Event => walk_event(value, w, pol),
                Field::Layer => walk_layer(value, w, ctx, pol),
                Field::ProcessId => match value {
                    Value::Number(_) => {
                        w.add_layers_if(pol, LayerMask::socket());
                        Ok(())
                    },
                    Value::Symbol(v) => Err(quoted_error("processId comparison expects numeric value, got '", v.as_str())),
                },
                Field::LocalPort | Field::RemotePort | Field::LocalAddr | Field::RemoteAddr => {
                    w.add_layers_if(pol, LayerMask::network());
                    w.add_layers_if(pol, LayerMask::network_forward());
                    Ok(())
                },
                _ => Ok(()),
            }
        },
        Predicate::PacketEq { .. } => {
            w.packet_used = true;
            w.payload = true;
            w.layers.insert(LayerMask::network());
            w.add_field(Field::Packet);
            Ok(())
        },
    }
}

fn contains_positive_reflect_open(e: &Expr, pol: bool) -> (r: bool)
    ensures
        r == positive_reflect_open(e@, pol),
    decreases e,
{
    match e {
        Expr::And(l, r) => contains_positive_reflect_open(l, pol) || contains_positive_reflect_open(r, pol),
        Expr::Or(l, r) => contains_positive_reflect_open(l, pol) || contains_positive_reflect_open(r, pol),
        Expr::Not(x) => contains_positive_reflect_open(x, !pol),
        Expr::Predicate(Predicate::FieldEq { field, value }) => {
            pol && str_eq_ignore_case(field.as_str(), "event") && match value {
                Value::Symbol(v) => str_eq_ignore_case(v.as_str(), "open"),
                Value::Number(_) => false,
            }
        },
        Expr::Predicate(_) => false,
    }
}

fn visit(e: &Expr, w: &mut Walk, ctx: bool, pol: bool) -> (r: Result<(), SemanticError>)
    requires
        old(w).wf(),
    ensures
        final(w).wf(),
        walked(spec_visit(e@, old(w)@, ctx, pol), r, final(w)@),
    decreases e,
{
    match e {
        Expr::And(l, r) => {
            let lctx = ctx || contains_positive_reflect_open(r, pol);
            let rctx = ctx || contains_positive_reflect_open(l, pol);
            match visit(l, w, lctx, pol) {
                Ok(()) => visit(r, w, rctx, pol),
                Err(m) => Err(m),
            }
        },
        Expr::Or(l, r) => match visit(l, w, ctx, pol) {
            Ok(()) => visit(r, w, ctx, pol),
            Err(m) => Err(m),
        },
        Expr::Not(x) => visit(x, w, ctx, !pol),
        Expr::Predicate(p) => visit_predicate(p, w, ctx, pol),
    }
}

/// Checks an expression and works out the layers it needs, whether it
/// reads packet bytes and the fields it names (each once, in the byte
/// order of their names).
pub fn analyze(expr: &Expr) -> (r: Result<SemanticInfo, SemanticError>)
    ensures
        match spec_analyze(expr@) {
            Ok(info) => r matches Ok(x) && x@ == info,
            Err(m) => r matches Err(e) && e@ == m,
        },
{
    let mut w = Walk::new();
    match visit(expr, &mut w, false, true) {
        Ok(()) => {},
        Err(e) => {
            return Err(e);
        },
    }
    if w.flow_selected && w.packet_used {
        return Err(plain_error("packet access is not valid for FLOW"));
    }
    let referenced_fields = w.field_names();
    Ok(SemanticInfo { required_layers: w.layers, needs_payload: w.payload, referenced_fields })
}


/// Whether a layer bit set holds only the five layer bits.
pub open spec fn known_layer_bits(bits: u8) -> bool {
    bits & !0x1fu8 == 0
}

proof fn lemma_or_known(x: u8, b: u8)
    requires
        known_layer_bits(x),
        known_layer_bits(b),
    ensures
        known_layer_bits(x | b),
{
    assert((x & !0x1fu8 == 0 && b & !0x1fu8 == 0) ==> ((x | b) & !0x1fu8 == 0)) by (bit_vector);
}

proof fn lemma_layer_constants()
    ensures
        known_layer_bits(0x01u8),
        known_layer_bits(0x02u8),
        known_layer_bits(0x04u8),
        known_layer_bits(0x08u8),
        known_layer_bits(0x10u8),
        known_layer_bits(0u8),
{
    assert(0x01u8 & !0x1fu8 == 0) by (bit_vector);
    assert(0x02u8 & !0x1fu8 == 0) by (bit_vector);
    assert(0x04u8 & !0x1fu8 == 0) by (bit_vector);
    assert(0x08u8 & !0x1fu8 == 0) by (bit_vector);
    assert(0x10u8 & !0x1fu8 == 0) by (bit_vector);
    assert(0u8 & !0x1fu8 == 0) by (bit_vector);
}

proof fn lemma_visit_predicate_layers(p: PredicateView, s: Findings, ctx: bool, pol: bool)
    requires
        known_layer_bits(s.layers),
    ensures
        spec_visit_predicate(p, s, ctx, pol) matches Ok(t) ==> known_layer_bits(t.layers),
{
    lemma_layer_constants();
    let x = s.layers;
    lemma_or_known(x, 0x01u8);
    lemma_or_known(x, 0x02u8);
    lemma_or_known(x, 0x04u8);
    lemma_or_known(x, 0x08u8);
    lemma_or_known(x, 0x10u8);
    lemma_or_known(x | 0x01u8, 0x02u8);
}

proof fn lemma_visit_layers(e: ExprView, s: Findings, ctx: bool, pol: bool)
    requires
        known_layer_bits(s.layers),
    ensures
        spec_visit(e, s, ctx, pol) matches Ok(t) ==> known_layer_bits(t.layers),
    decreases e,
{
    match e {
        ExprView::And(l, r) => {
            lemma_visit_layers(*l, s, ctx || positive_reflect_open(*r, pol), pol);
            if let Ok(s1) = spec_visit(*l, s, ctx || positive_reflect_open(*r, pol), pol) {
                lemma_visit_layers(*r, s1, ctx || positive_reflect_open(*l, pol), pol);
            }
        },
        ExprView::Or(l, r) => {
            lemma_visit_layers(*l, s, ctx, pol);
            if let Ok(s1) = spec_visit(*l, s, ctx, pol) {
                lemma_visit_layers(*r, s1, ctx, pol);
            }
        },
        ExprView::Not(x) => {
            lemma_visit_layers(*x, s, ctx, !pol);
        },
        ExprView::Predicate(p) => {
            lemma_visit_predicate_layers(p, s, ctx, pol);
        },
    }
}

proof fn lemma_listed_names(order: Seq<Field>, set: Set<Field>)
    ensures
        listed(order, set).len() <= order.len(),
        forall|i: int| 0 <= i < listed(order, set).len() ==> is_field_name(#[trigger] listed(order, set)[i]),
    decreases order.len(),
{
    if order.len() > 0 {
        lemma_listed_names(order.drop_last(), set);
        let prev = listed(order.drop_last(), set);
        let cur = listed(order, set);
        lemma_field_encoding(order.last());
        assert forall|i: int| 0 <= i < cur.len() implies is_field_name(#[trigger] cur[i]) by {
            if i < prev.len() {
                assert(cur[i] == prev[i]);
            } else {
                assert(cur[i] == field_name(order.last()));
            }
        }
    }
}

/// What an analysis finds holds only layer bits, and names each field at
/// most once, by its canonical name.
pub proof fn lemma_analysis_bounds(e: ExprView)
    ensures
        spec_analyze(e) matches Ok(info) ==> {
            &&& known_layer_bits(info.required_layers)
            &&& info.referenced_fields.len() <= 14
            &&& forall|i: int| 0 <= i < info.referenced_fields.len() ==> is_field_name(#[trigger] info.referenced_fields[i])
        },
{
    lemma_layer_constants();
    lemma_visit_layers(e, no_findings(), false, true);
    assert(known_layer_bits(no_findings().layers));
    assert(fields_in_name_order().len() == 14);
    if let Ok(s) = spec_visit(e, no_findings(), false, true) {
        lemma_listed_names(fields_in_name_order(), s.fields);
        assert(known_layer_bits(s.layers));
    }
}

/// Only a packet test sets the payload finding.
proof fn lemma_visit_predicate_payload(p: PredicateView, s: Findings, ctx: bool, pol: bool)
    ensures
        spec_visit_predicate(p, s, ctx, pol) matches Ok(s2) ==> s2.payload == (s.payload || p is PacketEq),
{
}

/// An analysis needs the packet payload exactly when the expression tests
/// packet bytes.
pub proof fn lemma_visit_payload(e: ExprView, s: Findings, ctx: bool, pol: bool)
    ensures
        spec_visit(e, s, ctx, pol) matches Ok(s2) ==> s2.payload == (s.payload || reads_packet(e)),
    decreases e,
{
    match e {
        ExprView::And(l, r) => {
            let lctx = ctx || positive_reflect_open(*r, pol);
            let rctx = ctx || positive_reflect_open(*l, pol);
            lemma_visit_payload(*l, s, lctx, pol);
            if let Ok(s1) = spec_visit(*l, s, lctx, pol) {
                lemma_visit_payload(*r, s1, rctx, pol);
            }
        },
        ExprView::Or(l, r) => {
            lemma_visit_payload(*l, s, ctx, pol);
            if let Ok(s1) = spec_visit(*l, s, ctx, pol) {
                lemma_visit_payload(*r, s1, ctx, pol);
            }
        },
        ExprView::Not(x) => lemma_visit_payload(*x, s, ctx, !pol),
        ExprView::Predicate(p) => lemma_visit_predicate_payload(p, s, ctx, pol),
    }
}

/// Whether the names are in strictly increasing byte order.
pub open spec fn strictly_sorted(names: Seq<Seq<char>>) -> bool {
    forall|i: int, j: int| 0 <= i < j < names.len() ==> name_lt(#[trigger] names[i], #[trigger] names[j])
}

/// The names of the fields of `order`, in that order.
pub open spec fn names_of(order: Seq<Field>) -> Seq<Seq<char>> {
    Seq::new(order.len(), |i: int| field_name(order[i]))
}

proof fn lemma_sorted_from_adjacent(names: Seq<Seq<char>>)
    requires
        forall|i: int| 0 <= i < names.len() - 1 ==> name_lt(#[trigger] names[i], names[i + 1]),
    ensures
        strictly_sorted(names),
{
    assert forall|i: int, j: int| 0 <= i < j < names.len() implies name_lt(#[trigger] names[i], #[trigger] names[j]) by {
        lemma_sorted_step(names, i, j);
    }
}

proof fn lemma_sorted_step(names: Seq<Seq<char>>, i: int, j: int)
    requires
        forall|k: int| 0 <= k < names.len() - 1 ==> name_lt(#[trigger] names[k], names[k + 1]),
        0 <= i < j < names.len(),
    ensures
        name_lt(names[i], names[j]),
    decreases j - i,
{
    if j > i + 1 {
        lemma_sorted_step(names, i, j - 1);
        assert(name_lt(names[j - 1], names[j]));
        lemma_name_lt_transitive(names[i], names[j - 1], names[j], 0);
    }
}

/// The fields of `fields_in_name_order` have their names in strictly
/// increasing byte order.
proof fn lemma_name_order_sorted()
    ensures
        strictly_sorted(names_of(fields_in_name_order())),
{
    let names = names_of(fields_in_name_order());
    reveal_with_fuel(name_lt_from, 8);
    assert(name_lt(names[0], names[1]));
    assert(name_lt(names[1], names[2]));
    assert(name_lt(names[2], names[3]));
    assert(name_lt(names[3], names[4]));
    assert(name_lt(names[4], names[5]));
    assert(name_lt(names[5], names[6]));
    assert(name_lt(names[6], names[7]));
    assert(name_lt(names[7], names[8]));
    assert(name_lt(names[8], names[9]));
    assert(name_lt(names[9], names[10]));
    assert(name_lt(names[10], names[11]));
    assert(name_lt(names[11], names[12]));
    assert(name_lt(names[12], names[13]));
    lemma_sorted_from_adjacent(names);
}

proof fn lemma_listed_sorted(order: Seq<Field>, set: Set<Field>)
    requires
        strictly_sorted(names_of(order)),
    ensures
        strictly_sorted(listed(order, set)),
        forall|i: int| 0 <= i < listed(order, set).len() ==> exists|k: int|
            0 <= k < order.len() && #[trigger] listed(order, set)[i] == field_name(order[k]),
    decreases order.len(),
{
    if order.len() > 0 {
        let prev_order = order.drop_last();
        assert forall|i: int, j: int| 0 <= i < j < names_of(prev_order).len() implies name_lt(
            #[trigger] names_of(prev_order)[i],
            #[trigger] names_of(prev_order)[j],
        ) by {
            assert(names_of(prev_order)[i] == names_of(order)[i]);
            assert(names_of(prev_order)[j] == names_of(order)[j]);
        }
        lemma_listed_sorted(prev_order, set);
        let prev = listed(prev_order, set);
        let cur = listed(order, set);
        let last = field_name(order.last());
        assert forall|i: int| 0 <= i < prev.len() implies name_lt(#[trigger] prev[i], last) by {
            let k = choose|k: int| 0 <= k < prev_order.len() && prev[i] == field_name(prev_order[k]);
            assert(names_of(order)[k] == field_name(order[k]));
            assert(names_of(order)[order.len() - 1] == last);
        }
        assert forall|i: int, j: int| 0 <= i < j < cur.len() implies name_lt(#[trigger] cur[i], #[trigger] cur[j]) by {
            assert(cur[i] == prev[i]);
            if j < prev.len() {
                assert(cur[j] == prev[j]);
            } else {
                assert(cur[j] == last);
            }
        }
        assert forall|i: int| 0 <= i < cur.len() implies exists|k: int|
            0 <= k < order.len() && #[trigger] cur[i] == field_name(order[k]) by {
            if i < prev.len() {
                assert(cur[i] == prev[i]);
                let k = choose|k: int| 0 <= k < prev_order.len() && prev[i] == field_name(prev_order[k]);
                assert(order[k] == prev_order[k]);
            } else {
                assert(cur[i] == field_name(order[order.len() - 1]));
            }
        }
    }
}

/// What an analysis reports as the referenced fields is their names in
/// strictly increasing byte order: sorted, each at most once.
pub proof fn lemma_referenced_fields_sorted(e: ExprView)
    ensures
        spec_analyze(e) matches Ok(info) ==> strictly_sorted(info.referenced_fields),
{
    lemma_name_order_sorted();
    if let Ok(s) = spec_visit(e, no_findings(), false, true) {
        lemma_listed_sorted(fields_in_name_order(), s.fields);
    }
}

/// A sorted list of names holds no name twice.
pub proof fn lemma_sorted_names_unique(names: Seq<Seq<char>>)
    requires
        strictly_sorted(names),
    ensures
        forall|i: int, j: int| 0 <= i < names.len() && 0 <= j < names.len() && i != j ==> names[i] != names[j],
{
    assert forall|i: int, j: int| 0 <= i < names.len() && 0 <= j < names.len() && i != j implies names[i] != names[j] by {
        lemma_name_lt_irreflexive(names[i], 0);
        if i < j {
            assert(name_lt(names[i], names[j]));
        } else {
            assert(name_lt(names[j], names[i]));
        }
    }
}

proof fn lemma_or_keeps_network_bit()
    by (bit_vector)
    ensures
        forall|x: u8, b: u8| #![trigger x | b] x & 1u8 == 1u8 ==> (x | b) & 1u8 == 1u8,
        forall|x: u8| #![trigger x | 1u8] (x | 1u8) & 1u8 == 1u8,
{
}

proof fn lemma_visit_predicate_keeps_network(p: PredicateView, s: Findings, ctx: bool, pol: bool)
    ensures
        spec_visit_predicate(p, s, ctx, pol) matches Ok(t) ==> ((s.layers & 1u8 == 1u8 || p is PacketEq)
            ==> t.layers & 1u8 == 1u8),
{
    lemma_or_keeps_network_bit();
}

/// A visit never drops the Network layer, and adds it for a packet test.
pub proof fn lemma_visit_keeps_network(e: ExprView, s: Findings, ctx: bool, pol: bool)
    ensures
        spec_visit(e, s, ctx, pol) matches Ok(t) ==> ((s.layers & 1u8 == 1u8 || reads_packet(e)) ==> t.layers & 1u8
            == 1u8),
    decreases e,
{
    match e {
        ExprView::And(l, r) => {
            let lctx = ctx || positive_reflect_open(*r, pol);
            let rctx = ctx || positive_reflect_open(*l, pol);
            lemma_visit_keeps_network(*l, s, lctx, pol);
            if let Ok(s1) = spec_visit(*l, s, lctx, pol) {
                lemma_visit_keeps_network(*r, s1, rctx, pol);
            }
        },
        ExprView::Or(l, r) => {
            lemma_visit_keeps_network(*l, s, ctx, pol);
            if let Ok(s1) = spec_visit(*l, s, ctx, pol) {
                lemma_visit_keeps_network(*r, s1, ctx, pol);
            }
        },
        ExprView::Not(x) => lemma_visit_keeps_network(*x, s, ctx, !pol),
        ExprView::Predicate(p) => lemma_visit_predicate_keeps_network(p, s, ctx, pol),
    }
}

} // verus!
