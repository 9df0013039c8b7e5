//! Redirecting outbound DNS requests (UDP port 53) to 8.8.8.8: which
//! received packets are DNS requests, how their destination is rewritten,
//! and what is sent back for each received frame.
use vstd::prelude::*;
use vstd::string::StringExecFns;
use crate::proto::{encode_runtime_send_request, spec_runtime_send_bytes};
use crate::user::error::user_error_text;
use crate::user::frame::{
    header_checksum, ipv4_header_checksum, lemma_filled_checksum_checks, lemma_token_packet_fits, spec_decode_event, EventView, RecvEvent,
};
use crate::user::handle::{spec_network_config, HandleConfig};
use crate::user::runtime::{io_failure_view, RuntimeError, RuntimeOpenConfig};
use crate::wire::{be16, extend_bytes};

verus! {

/// The UDP port of DNS.
pub const DNS_PORT: u8 = 53;

/// The filter the redirector opens its handle with.
pub open spec fn dns_filter_text() -> Seq<char> {
    "udp and outbound"@
}

/// The header length field of an IPv4 packet (in 32-bit words), when the
/// first byte says version 4 and at least five words.
pub open spec fn spec_ipv4_ihl(bytes: Seq<u8>) -> Option<u8> {
    if bytes.len() == 0 {
        None
    } else if bytes[0] >> 4u8 != 4 || bytes[0] & 0x0fu8 < 5 {
        None
    } else {
        Some(bytes[0] & 0x0fu8)
    }
}

/// The IPv4 header length field, in 32-bit words.
pub fn parse_ipv4_ihl(bytes: &[u8]) -> (r: Option<u8>)
    ensures
        r == spec_ipv4_ihl(bytes@),
{
    if bytes.len() == 0 {
        return None;
    }
    let version = bytes[0] >> 4u8;
    let ihl = bytes[0] & 0x0fu8;
    if version != 4 || ihl < 5 {
        return None;
    }
    Some(ihl)
}

/// Whether `bytes` is a DNS request: an IPv4 packet carrying UDP (protocol
/// 17) with a whole UDP header whose destination port is 53.
pub open spec fn spec_is_dns_request(bytes: Seq<u8>) -> bool {
    match spec_ipv4_ihl(bytes) {
        None => false,
        Some(ihl) => {
            let h = ihl as int * 4;
            bytes.len() >= h + 8 && bytes[9] == 17 && be16(bytes[h + 2], bytes[h + 3]) == DNS_PORT as int
        },
    }
}

/// Whether `bytes` is a DNS request.
pub fn is_dns_request(bytes: &[u8]) -> (r: bool)
    ensures
        r == spec_is_dns_request(bytes@),
{
    let ihl = match parse_ipv4_ihl(bytes) {
        Some(ihl) => ihl,
        None => return false,
    };
    let ip_header_len = ihl as usize * 4;
    if bytes.len() < ip_header_len + 8 {
        return false;
    }
    let protocol = bytes[9];
    if protocol != 17 {
        return false;
    }
    let dst_port = (bytes[ip_header_len + 2] as u16) * 256 + (bytes[ip_header_len + 3] as u16);
    dst_port == DNS_PORT as u16
}

/// The destination address of an IPv4 packet with a whole fixed header.
pub open spec fn spec_dst_ipv4(bytes: Seq<u8>) -> Option<[u8; 4]> {
    if bytes.len() < 20 {
        None
    } else {
        Some([bytes[16], bytes[17], bytes[18], bytes[19]])
    }
}

/// The destination address of an IPv4 packet.
pub fn extract_dst_ipv4(bytes: &[u8]) -> (r: Option<[u8; 4]>)
    ensures
        r == spec_dst_ipv4(bytes@),
{
    if bytes.len() < 20 {
        return None;
    }
    Some([bytes[16], bytes[17], bytes[18], bytes[19]])
}

/// The header length in bytes that the first byte states.
pub open spec fn stated_header_len(bytes: Seq<u8>) -> int {
    (bytes[0] & 0x0fu8) as int * 4
}

/// Whether a packet can be rewritten: shorter than a fixed header (left as
/// it is), or holding its whole stated header (whose checksum is
/// recomputed).
pub open spec fn rewritable(bytes: Seq<u8>) -> bool {
    bytes.len() < 20 || stated_header_len(bytes) <= bytes.len()
}

/// `bytes` with the destination address replaced and the header checksum
/// cleared.
pub open spec fn with_new_dst(bytes: Seq<u8>, new_dst: [u8; 4]) -> Seq<u8> {
    bytes.update(16, new_dst[0]).update(17, new_dst[1]).update(18, new_dst[2]).update(19, new_dst[3]).update(
        10,
        0,
    ).update(11, 0)
}

/// A packet sent to `new_dst` instead: the destination address replaced,
/// the IPv4 header checksum recomputed, and the UDP checksum set to zero
/// (no checksum) when the packet holds both of its bytes. A packet shorter than a
/// fixed header is left as it is.
pub open spec fn spec_rewrite_dst(bytes: Seq<u8>, new_dst: [u8; 4]) -> Seq<u8> {
    if bytes.len() < 20 {
        bytes
    } else {
        let h = stated_header_len(bytes);
        let m = with_new_dst(bytes, new_dst);
        let c = header_checksum(m.subrange(0, h));
        let m2 = m.update(10, (c >> 8u16) as u8).update(11, (c & 0xffu16) as u8);
        if m2.len() >= h + 8 {
            m2.update(h + 6, 0).update(h + 7, 0)
        } else {
            m2
        }
    }
}

/// A rewritten packet whose header holds at least the fixed 20 bytes
/// carries a header checksum that checks.
pub proof fn lemma_rewrite_checksum_valid(bytes: Seq<u8>, new_dst: [u8; 4])
    requires
        bytes.len() >= 20,
        20 <= stated_header_len(bytes) <= bytes.len(),
    ensures
        header_checksum(spec_rewrite_dst(bytes, new_dst).subrange(0, stated_header_len(bytes))) == 0,
{
    let h = stated_header_len(bytes);
    let b0 = bytes[0];
    assert(b0 & 0x0fu8 <= 15) by (bit_vector);
    let m = with_new_dst(bytes, new_dst);
    let a = m.subrange(0, h);
    lemma_filled_checksum_checks(a);
    let c = header_checksum(a);
    let m2 = m.update(10, (c >> 8u16) as u8).update(11, (c & 0xffu16) as u8);
    let r = spec_rewrite_dst(bytes, new_dst);
    assert(r.subrange(0, h) =~= a.update(10, (c >> 8u16) as u8).update(11, (c & 0xffu16) as u8));
}

/// Rewrites the destination address of an IPv4 packet.
pub fn rewrite_dst_ipv4(bytes: &[u8], new_dst: [u8; 4]) -> (modified: Vec<u8>)
    requires
        rewritable(bytes@),
    ensures
        modified@ == spec_rewrite_dst(bytes@, new_dst),
        bytes@.len() >= 20 && stated_header_len(bytes@) >= 20 ==> header_checksum(
            modified@.subrange(0, stated_header_len(bytes@)),
        ) == 0,
{
    proof {
        if bytes@.len() >= 20 && stated_header_len(bytes@) >= 20 {
            lemma_rewrite_checksum_valid(bytes@, new_dst);
        }
    }
    let mut modified: Vec<u8> = Vec::new();
    extend_bytes(&mut modified, bytes);
    assert(modified@ =~= bytes@);
    if modified.len() < 20 {
        return modified;
    }
    modified.set(16, new_dst[0]);
    modified.set(17, new_dst[1]);
    modified.set(18, new_dst[2]);
    modified.set(19, new_dst[3]);
    let ihl = (modified[0] & 0x0fu8) as usize * 4;
    modified.set(10, 0);
    modified.set(11, 0);
    assert(modified@ =~= with_new_dst(bytes@, new_dst));
    let mut header: Vec<u8> = Vec::new();
    let mut i: usize = 0;
    while i < ihl
        invariant
            ihl <= modified@.len(),
            i <= ihl,
            header@ == modified@.subrange(0, i as int),
        decreases ihl - i,
    {
        header.push(modified[i]);
        i = i + 1;
        assert(header@ =~= modified@.subrange(0, i as int));
    }
    let checksum = ipv4_header_checksum(header.as_slice());
    modified.set(10, (checksum >> 8u16) as u8);
    modified.set(11, (checksum & 0xffu16) as u8);
    if modified.len() >= ihl + 8 {
        modified.set(ihl + 6, 0);
        modified.set(ihl + 7, 0);
    }
    modified
}

/// 8.8.8.8.
pub open spec fn google_dns() -> [u8; 4] {
    [8u8, 8u8, 8u8, 8u8]
}

/// What the redirector does with one received frame.
pub enum DnsAction {
    /// Nothing is sent back.
    Skip,
    /// The packet is sent back as it came.
    Reinject(Vec<u8>),
    /// The packet is sent back to 8.8.8.8; it was addressed to `original`.
    Redirect { request: Vec<u8>, original: Option<[u8; 4]> },
}

/// The action as plain values.
pub enum DnsActionView {
    Skip,
    Reinject(Seq<u8>),
    Redirect { request: Seq<u8>, original: Option<[u8; 4]> },
}

impl View for DnsAction {
    type V = DnsActionView;

    open spec fn view(&self) -> DnsActionView {
        match self {
            DnsAction::Skip => DnsActionView::Skip,
            DnsAction::Reinject(r) => DnsActionView::Reinject(r@),
            DnsAction::Redirect { request, original } => DnsActionView::Redirect { request: request@, original: *original },
        }
    }
}

/// What the redirector does with a received frame: frames that do not
/// decode to a network packet, and packets without a reinjection token,
/// are passed over; a packet that is not a DNS request, or already goes to
/// 8.8.8.8, is sent back as it came; any other DNS request is sent back
/// rewritten to 8.8.8.8.
pub open spec fn spec_dns_action(raw: Seq<u8>) -> DnsActionView {
    match spec_decode_event(raw) {
        Ok(EventView::Network(p)) => match p.token {
            None => DnsActionView::Skip,
            Some(token) => if !spec_is_dns_request(p.bytes) || spec_dst_ipv4(p.bytes) == Some(google_dns()) {
                DnsActionView::Reinject(spec_runtime_send_bytes(p.layer, token, p.bytes))
            } else {
                DnsActionView::Redirect {
                    request: spec_runtime_send_bytes(p.layer, token, spec_rewrite_dst(p.bytes, google_dns())),
                    original: spec_dst_ipv4(p.bytes),
                }
            },
        },
        _ => DnsActionView::Skip,
    }
}

/// A DNS request holds its whole header and UDP header, so it can be
/// rewritten.
proof fn lemma_dns_request_rewritable(bytes: Seq<u8>)
    requires
        spec_is_dns_request(bytes),
    ensures
        rewritable(bytes),
{
}

/// Decides what to send back for a received frame.
pub fn dns_redirect_action(raw: &[u8]) -> (a: DnsAction)
    ensures
        a@ == spec_dns_action(raw@),
{
    proof {
        lemma_token_packet_fits(raw@);
    }
    let event = match RecvEvent::decode(raw) {
        Ok(e) => e,
        Err(_) => return DnsAction::Skip,
    };
    let packet = match event.packet() {
        Some(p) => p,
        None => return DnsAction::Skip,
    };
    let token = match packet.reinjection_token() {
        Some(t) => t,
        None => return DnsAction::Skip,
    };
    let bytes = packet.bytes();
    let google: [u8; 4] = [8, 8, 8, 8];
    let original = extract_dst_ipv4(bytes);
    let already = match original {
        Some(d) => d[0] == 8 && d[1] == 8 && d[2] == 8 && d[3] == 8,
        None => false,
    };
    assert(already == (spec_dst_ipv4(bytes@) == Some(google_dns())));
    if !is_dns_request(bytes) || already {
        return DnsAction::Reinject(encode_runtime_send_request(packet.layer(), token, bytes));
    }
    proof {
        lemma_dns_request_rewritable(bytes@);
    }
    assert(google@ == google_dns()@);
    let modified = rewrite_dst_ipv4(bytes, google);
    assert(google == google_dns());
    let request = encode_runtime_send_request(packet.layer(), token, modified.as_slice());
    DnsAction::Redirect { request, original }
}

/// Whether the redirector has redirected all it was asked to: a limit of
/// 0 never stops it.
pub fn redirect_limit_reached(max_count: u64, processed: u64) -> (r: bool)
    ensures
        r == (max_count > 0 && processed >= max_count),
{
    max_count > 0 && processed >= max_count
}

/// The count of redirected requests after `action`: one more for a
/// redirect, unchanged otherwise.
pub fn redirects_after(processed: u64, action: &DnsAction) -> (n: u64)
    requires
        processed < u64::MAX,
    ensures
        n == if action is Redirect { processed + 1 } else { processed as int },
{
    match action {
        DnsAction::Redirect { .. } => processed + 1,
        _ => processed,
    }
}

/// The open configuration of the redirector: a network handle whose
/// filter takes outbound UDP; a filter that failed to compile would be an
/// I/O failure.
pub fn dns_open_config() -> (r: Result<RuntimeOpenConfig, RuntimeError>)
    ensures
        match spec_network_config(dns_filter_text()) {
            Ok(ir) => r matches Ok(c) && c.spec_layer() == crate::proto::Layer::Network && c.spec_filter_ir() == ir
                && c.spec_priority() == 0 && c.spec_flags() == 0,
            Err(e) => r matches Err(x) && x@ == io_failure_view("filter compile failed: "@ + user_error_text(e)),
        },
{
    let cfg = match HandleConfig::network("udp and outbound") {
        Ok(c) => c,
        Err(err) => {
            let mut m = "filter compile failed: ".to_owned();
            let text = err.to_string();
            m.append(text.as_str());
            return Err(RuntimeError::io_failure(m));
        },
    };
    let mut ir: Vec<u8> = Vec::new();
    extend_bytes(&mut ir, cfg.filter_ir());
    assert(ir@ =~= cfg.spec_filter_ir());
    Ok(RuntimeOpenConfig::network(ir))
}

/// Redirecting a DNS request keeps its length and makes `new_dst` its
/// destination; it stays a request to the DNS port.
pub proof fn lemma_rewrite_redirects(bytes: Seq<u8>, new_dst: [u8; 4])
    requires
        spec_is_dns_request(bytes),
    ensures
        spec_rewrite_dst(bytes, new_dst).len() == bytes.len(),
        spec_dst_ipv4(spec_rewrite_dst(bytes, new_dst)) == Some(new_dst),
        spec_is_dns_request(spec_rewrite_dst(bytes, new_dst)),
{
    let r = spec_rewrite_dst(bytes, new_dst);
    let h = stated_header_len(bytes);
    assert(r[16] == new_dst[0]);
    assert(r[17] == new_dst[1]);
    assert(r[18] == new_dst[2]);
    assert(r[19] == new_dst[3]);
    assert(r[0] == bytes[0]);
    assert(r[9] == bytes[9]);
    assert(r[h + 2] == bytes[h + 2]);
    assert(r[h + 3] == bytes[h + 3]);
    assert(spec_dst_ipv4(r) == Some([r[16], r[17], r[18], r[19]]));
    assert([r[16], r[17], r[18], r[19]] =~= new_dst);
}

} // verus!
