//! The field names a filter program may test, and case-sensitive and
//! ASCII case-insensitive comparisons of text against them.
use vstd::prelude::*;
use vstd::string::{is_ascii_spec_bytes, StringSliceAdditionalSpecFns, StrSliceExecFns};

verus! {

/// A field a filter can name.
#[derive(Debug, Clone, Copy, PartialEq, Eq, Structural)]
pub enum Field {
    Event,
    Layer,
    ProcessId,
    Tcp,
    Udp,
    Ipv4,
    Ipv6,
    LocalAddr,
    RemoteAddr,
    LocalPort,
    RemotePort,
    Outbound,
    Inbound,
    Packet,
}

/// The canonical spelling of a field.
pub open spec fn field_name(f: Field) -> Seq<char> {
    match f {
        Field::Event => seq!['e', 'v', 'e', 'n', 't'],
        Field::Layer => seq!['l', 'a', 'y', 'e', 'r'],
        Field::ProcessId => seq!['p', 'r', 'o', 'c', 'e', 's', 's', 'I', 'd'],
        Field::Tcp => seq!['t', 'c', 'p'],
        Field::Udp => seq!['u', 'd', 'p'],
        Field::Ipv4 => seq!['i', 'p', 'v', '4'],
        Field::Ipv6 => seq!['i', 'p', 'v', '6'],
        Field::LocalAddr => seq!['l', 'o', 'c', 'a', 'l', 'A', 'd', 'd', 'r'],
        Field::RemoteAddr => seq!['r', 'e', 'm', 'o', 't', 'e', 'A', 'd', 'd', 'r'],
        Field::LocalPort => seq!['l', 'o', 'c', 'a', 'l', 'P', 'o', 'r', 't'],
        Field::RemotePort => seq!['r', 'e', 'm', 'o', 't', 'e', 'P', 'o', 'r', 't'],
        Field::Outbound => seq!['o', 'u', 't', 'b', 'o', 'u', 'n', 'd'],
        Field::Inbound => seq!['i', 'n', 'b', 'o', 'u', 'n', 'd'],
        Field::Packet => seq!['p', 'a', 'c', 'k', 'e', 't'],
    }
}

/// The ASCII bytes of a field's canonical spelling.
pub open spec fn field_bytes(f: Field) -> Seq<u8> {
    Seq::new(field_name(f).len(), |i: int| field_name(f)[i] as u8)
}

/// The field whose canonical spelling is exactly `c`.
pub open spec fn spec_field_of_name(c: Seq<char>) -> Option<Field> {
    if c == field_name(Field::Event) {
        Some(Field::Event)
    } else if c == field_name(Field::Layer) {
        Some(Field::Layer)
    } else if c == field_name(Field::ProcessId) {
        Some(Field::ProcessId)
    } else if c == field_name(Field::Tcp) {
        Some(Field::Tcp)
    } else if c == field_name(Field::Udp) {
        Some(Field::Udp)
    } else if c == field_name(Field::Ipv4) {
        Some(Field::Ipv4)
    } else if c == field_name(Field::Ipv6) {
        Some(Field::Ipv6)
    } else if c == field_name(Field::LocalAddr) {
        Some(Field::LocalAddr)
    } else if c == field_name(Field::RemoteAddr) {
        Some(Field::RemoteAddr)
    } else if c == field_name(Field::LocalPort) {
        Some(Field::LocalPort)
    } else if c == field_name(Field::RemotePort) {
        Some(Field::RemotePort)
    } else if c == field_name(Field::Outbound) {
        Some(Field::Outbound)
    } else if c == field_name(Field::Inbound) {
        Some(Field::Inbound)
    } else if c == field_name(Field::Packet) {
        Some(Field::Packet)
    } else {
        None
    }
}

/// The field whose canonical ASCII bytes are exactly `b`.
pub open spec fn spec_field_of_bytes(b: Seq<u8>) -> Option<Field> {
    if b == field_bytes(Field::Event) {
        Some(Field::Event)
    } else if b == field_bytes(Field::Layer) {
        Some(Field::Layer)
    } else if b == field_bytes(Field::ProcessId) {
        Some(Field::ProcessId)
    } else if b == field_bytes(Field::Tcp) {
        Some(Field::Tcp)
    } else if b == field_bytes(Field::Udp) {
        Some(Field::Udp)
    } else if b == field_bytes(Field::Ipv4) {
        Some(Field::Ipv4)
    } else if b == field_bytes(Field::Ipv6) {
        Some(Field::Ipv6)
    } else if b == field_bytes(Field::LocalAddr) {
        Some(Field::LocalAddr)
    } else if b == field_bytes(Field::RemoteAddr) {
        Some(Field::RemoteAddr)
    } else if b == field_bytes(Field::LocalPort) {
        Some(Field::LocalPort)
    } else if b == field_bytes(Field::RemotePort) {
        Some(Field::RemotePort)
    } else if b == field_bytes(Field::Outbound) {
        Some(Field::Outbound)
    } else if b == field_bytes(Field::Inbound) {
        Some(Field::Inbound)
    } else if b == field_bytes(Field::Packet) {
        Some(Field::Packet)
    } else {
        None
    }
}

/// ASCII lower case of a character.
pub open spec fn lower_char(c: char) -> char {
    if 'A' <= c && c <= 'Z' { ((c as u32) + 32) as char } else { c }
}

/// ASCII lower case of a text.
pub open spec fn lower_chars(s: Seq<char>) -> Seq<char> {
    Seq::new(s.len(), |i: int| lower_char(s[i]))
}

/// ASCII lower case of one character.
pub fn to_lower_char(c: char) -> (r: char)
    ensures
        r == lower_char(c),
{
    if 'A' <= c && c <= 'Z' {
        let b = (c as u32) as u8;
        (b + 32) as char
    } else {
        c
    }
}

/// Whether `s` reads exactly `lit`.
pub fn str_eq(s: &str, lit: &str) -> (r: bool)
    ensures
        r == (s@ == lit@),
{
    let n = s.unicode_len();
    if n != lit.unicode_len() {
        return false;
    }
    let mut i: usize = 0;
    while i < n
        invariant
            n == s@.len(),
            n == lit@.len(),
            i <= n,
            forall|k: int| 0 <= k < i ==> s@[k] == lit@[k],
        decreases n - i,
    {
        if s.get_char(i) != lit.get_char(i) {
            return false;
        }
        i = i + 1;
    }
    assert(s@ =~= lit@);
    true
}

/// Whether the ASCII lower case of `s` reads exactly `lit`.
pub fn str_eq_ignore_case(s: &str, lit: &str) -> (r: bool)
    ensures
        r == (lower_chars(s@) == lit@),
{
    let n = s.unicode_len();
    if n != lit.unicode_len() {
        return false;
    }
    let mut i: usize = 0;
    while i < n
        invariant
            n == s@.len(),
            n == lit@.len(),
            i <= n,
            forall|k: int| 0 <= k < i ==> lower_char(s@[k]) == lit@[k],
        decreases n - i,
    {
        if to_lower_char(s.get_char(i)) != lit.get_char(i) {
            assert(lower_chars(s@)[i as int] != lit@[i as int]);
            return false;
        }
        i = i + 1;
    }
    assert(lower_chars(s@) =~= lit@);
    true
}

/// Whether two byte sequences are equal.
pub fn bytes_eq(a: &[u8], b: &[u8]) -> (r: bool)
    ensures
        r == (a@ == b@),
{
    if a.len() != b.len() {
        return false;
    }
    let mut i: usize = 0;
    while i < a.len()
        invariant
            a@.len() == b@.len(),
            i <= a@.len(),
            forall|k: int| 0 <= k < i ==> a@[k] == b@[k],
        decreases a@.len() - i,
    {
        if a[i] != b[i] {
            return false;
        }
        i = i + 1;
    }
    assert(a@ =~= b@);
    true
}

impl Field {
    /// Every field, in declaration order.
    pub open spec fn all() -> Seq<Field> {
        seq![Field::Event, Field::Layer, Field::ProcessId, Field::Tcp, Field::Udp, Field::Ipv4, Field::Ipv6, Field::LocalAddr, Field::RemoteAddr, Field::LocalPort, Field::RemotePort, Field::Outbound, Field::Inbound, Field::Packet]
    }

    /// The canonical spelling of this field.
    pub fn as_str(self) -> (s: &'static str)
        ensures
            s@ == field_name(self),
            s.spec_bytes() == field_bytes(self),
    {
        broadcast use is_ascii_spec_bytes;
        match self {
            Field::Event => {
                proof {
                    reveal_strlit("event");
                }
                let s = "event";
                assert(s@ =~= field_name(self));
                assert(vstd::string::is_ascii(s));
                assert(s.spec_bytes() =~= field_bytes(self));
                s
            },
            Field::Layer => {
                proof {
                    reveal_strlit("layer");
                }
                let s = "layer";
                assert(s@ =~= field_name(self));
                assert(vstd::string::is_ascii(s));
                assert(s.spec_bytes() =~= field_bytes(self));
                s
            },
            Field::ProcessId => {
                proof {
                    reveal_strlit("processId");
                }
                let s = "processId";
                assert(s@ =~= field_name(self));
                assert(vstd::string::is_ascii(s));
                assert(s.spec_bytes() =~= field_bytes(self));
                s
            },
            Field::Tcp => {
                proof {
                    reveal_strlit("tcp");
                }
                let s = "tcp";
                assert(s@ =~= field_name(self));
                assert(vstd::string::is_ascii(s));
                assert(s.spec_bytes() =~= field_bytes(self));
                s
            },
            Field::Udp => {
                proof {
                    reveal_strlit("udp");
                }
                let s = "udp";
                assert(s@ =~= field_name(self));
                assert(vstd::string::is_ascii(s));
                assert(s.spec_bytes() =~= field_bytes(self));
                s
            },
            Field::Ipv4 => {
                proof {
                    reveal_strlit("ipv4");
                }
                let s = "ipv4";
                assert(s@ =~= field_name(self));
                assert(vstd::string::is_ascii(s));
                assert(s.spec_bytes() =~= field_bytes(self));
                s
            },
            Field::Ipv6 => {
                proof {
                    reveal_strlit("ipv6");
                }
                let s = "ipv6";
                assert(s@ =~= field_name(self));
                assert(vstd::string::is_ascii(s));
                assert(s.spec_bytes() =~= field_bytes(self));
                s
            },
            Field::LocalAddr => {
                proof {
                    reveal_strlit("localAddr");
                }
                let s = "localAddr";
                assert(s@ =~= field_name(self));
                assert(vstd::string::is_ascii(s));
                assert(s.spec_bytes() =~= field_bytes(self));
                s
            },
            Field::RemoteAddr => {
                proof {
                    reveal_strlit("remoteAddr");
                }
                let s = "remoteAddr";
                assert(s@ =~= field_name(self));
                assert(vstd::string::is_ascii(s));
                assert(s.spec_bytes() =~= field_bytes(self));
                s
            },
            Field::LocalPort => {
                proof {
                    reveal_strlit("localPort");
                }
                let s = "localPort";
                assert(s@ =~= field_name(self));
                assert(vstd::string::is_ascii(s));
                assert(s.spec_bytes() =~= field_bytes(self));
                s
            },
            Field::RemotePort => {
                proof {
                    reveal_strlit("remotePort");
                }
                let s = "remotePort";
                assert(s@ =~= field_name(self));
                assert(vstd::string::is_ascii(s));
                assert(s.spec_bytes() =~= field_bytes(self));
                s
            },
            Field::Outbound => {
                proof {
                    reveal_strlit("outbound");
                }
                let s = "outbound";
                assert(s@ =~= field_name(self));
                assert(vstd::string::is_ascii(s));
                assert(s.spec_bytes() =~= field_bytes(self));
                s
            },
            Field::Inbound => {
                proof {
                    reveal_strlit("inbound");
                }
                let s = "inbound";
                assert(s@ =~= field_name(self));
                assert(vstd::string::is_ascii(s));
                assert(s.spec_bytes() =~= field_bytes(self));
                s
            },
            Field::Packet => {
                proof {
                    reveal_strlit("packet");
                }
                let s = "packet";
                assert(s@ =~= field_name(self));
                assert(vstd::string::is_ascii(s));
                assert(s.spec_bytes() =~= field_bytes(self));
                s
            },
        }
    }
}

/// The field spelled exactly `s`.
pub fn field_of_str(s: &str) -> (r: Option<Field>)
    ensures
        r == spec_field_of_name(s@),
{
    if str_eq(s, Field::Event.as_str()) {
        return Some(Field::Event);
    }
    if str_eq(s, Field::Layer.as_str()) {
        return Some(Field::Layer);
    }
    if str_eq(s, Field::ProcessId.as_str()) {
        return Some(Field::ProcessId);
    }
    if str_eq(s, Field::Tcp.as_str()) {
        return Some(Field::Tcp);
    }
    if str_eq(s, Field::Udp.as_str()) {
        return Some(Field::Udp);
    }
    if str_eq(s, Field::Ipv4.as_str()) {
        return Some(Field::Ipv4);
    }
    if str_eq(s, Field::Ipv6.as_str()) {
        return Some(Field::Ipv6);
    }
    if str_eq(s, Field::LocalAddr.as_str()) {
        return Some(Field::LocalAddr);
    }
    if str_eq(s, Field::RemoteAddr.as_str()) {
        return Some(Field::RemoteAddr);
    }
    if str_eq(s, Field::LocalPort.as_str()) {
        return Some(Field::LocalPort);
    }
    if str_eq(s, Field::RemotePort.as_str()) {
        return Some(Field::RemotePort);
    }
    if str_eq(s, Field::Outbound.as_str()) {
        return Some(Field::Outbound);
    }
    if str_eq(s, Field::Inbound.as_str()) {
        return Some(Field::Inbound);
    }
    if str_eq(s, Field::Packet.as_str()) {
        return Some(Field::Packet);
    }
    None
}

/// The field whose canonical ASCII bytes are exactly `b`.
pub fn field_of_bytes(b: &[u8]) -> (r: Option<Field>)
    ensures
        r == spec_field_of_bytes(b@),
{
    if bytes_eq(b, Field::Event.as_str().as_bytes()) {
        return Some(Field::Event);
    }
    if bytes_eq(b, Field::Layer.as_str().as_bytes()) {
        return Some(Field::Layer);
    }
    if bytes_eq(b, Field::ProcessId.as_str().as_bytes()) {
        return Some(Field::ProcessId);
    }
    if bytes_eq(b, Field::Tcp.as_str().as_bytes()) {
        return Some(Field::Tcp);
    }
    if bytes_eq(b, Field::Udp.as_str().as_bytes()) {
        return Some(Field::Udp);
    }
    if bytes_eq(b, Field::Ipv4.as_str().as_bytes()) {
        return Some(Field::Ipv4);
    }
    if bytes_eq(b, Field::Ipv6.as_str().as_bytes()) {
        return Some(Field::Ipv6);
    }
    if bytes_eq(b, Field::LocalAddr.as_str().as_bytes()) {
        return Some(Field::LocalAddr);
    }
    if bytes_eq(b, Field::RemoteAddr.as_str().as_bytes()) {
        return Some(Field::RemoteAddr);
    }
    if bytes_eq(b, Field::LocalPort.as_str().as_bytes()) {
        return Some(Field::LocalPort);
    }
    if bytes_eq(b, Field::RemotePort.as_str().as_bytes()) {
        return Some(Field::RemotePort);
    }
    if bytes_eq(b, Field::Outbound.as_str().as_bytes()) {
        return Some(Field::Outbound);
    }
    if bytes_eq(b, Field::Inbound.as_str().as_bytes()) {
        return Some(Field::Inbound);
    }
    if bytes_eq(b, Field::Packet.as_str().as_bytes()) {
        return Some(Field::Packet);
    }
    None
}

/// Whether name `a` comes before name `b` in byte order, looking from
/// position `i` on (the characters before `i` being equal).
pub open spec fn name_lt_from(a: Seq<char>, b: Seq<char>, i: nat) -> bool
    decreases a.len() - i,
{
    if i >= a.len() {
        i < b.len()
    } else if i >= b.len() {
        false
    } else if a[i as int] != b[i as int] {
        (a[i as int] as u32) < (b[i as int] as u32)
    } else {
        name_lt_from(a, b, i + 1)
    }
}

/// Whether name `a` comes strictly before name `b` in byte order.
pub open spec fn name_lt(a: Seq<char>, b: Seq<char>) -> bool {
    name_lt_from(a, b, 0)
}

pub proof fn lemma_name_lt_transitive(a: Seq<char>, b: Seq<char>, c: Seq<char>, i: nat)
    requires
        name_lt_from(a, b, i),
        name_lt_from(b, c, i),
    ensures
        name_lt_from(a, c, i),
    decreases a.len() - i,
{
    if i < a.len() && i < b.len() && i < c.len() && a[i as int] == b[i as int] && b[i as int] == c[i as int] {
        lemma_name_lt_transitive(a, b, c, i + 1);
    }
}

pub proof fn lemma_name_lt_irreflexive(a: Seq<char>, i: nat)
    ensures
        !name_lt_from(a, a, i),
    decreases a.len() - i,
{
    if i < a.len() {
        lemma_name_lt_irreflexive(a, i + 1);
    }
}

} // verus!
