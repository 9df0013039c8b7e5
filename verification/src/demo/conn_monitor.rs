//! Monitoring socket connects and flow establishments: what one poll of a
//! session gives, and the line printed for each event.
use vstd::prelude::*;
use vstd::string::StringExecFns;
use crate::cli::cmd::budget::{millis_since_unix_epoch, system_now};
use crate::cli::cmd::flowtrack::flow_kind_text;
use crate::cli::cmd::socketdump::socket_kind_text;
use crate::cli::cmd::flowtrack::render_flow_event_kind;
use crate::cli::cmd::socketdump::render_socket_event_kind;
use crate::proto::{FlowEventPayload, SocketEventPayload};
use crate::text::{decimal, push_char, push_decimal};
use crate::user::frame::{spec_decode_event, EventView, RecvEvent};
use crate::user::runtime::{RuntimeError, RuntimeErrorView};

verus! {

/// The socket event a received frame holds, if it decodes to one.
pub open spec fn spec_socket_event(raw: Seq<u8>) -> Option<EventView> {
    match spec_decode_event(raw) {
        Ok(EventView::Socket { kind, process_id }) => Some(EventView::Socket { kind, process_id }),
        _ => None,
    }
}

/// The flow event a received frame holds, if it decodes to one.
pub open spec fn spec_flow_event(raw: Seq<u8>) -> Option<EventView> {
    match spec_decode_event(raw) {
        Ok(EventView::Flow { kind, flow_id, process_id }) => Some(EventView::Flow { kind, flow_id, process_id }),
        _ => None,
    }
}

/// What one poll of the socket session gives: the socket event of a frame
/// that decodes to one, nothing for another frame or for an I/O failure
/// (code 6: the queue may just be empty), and any other error as it is.
pub fn socket_poll(received: Result<Vec<u8>, RuntimeError>) -> (r: Result<Option<SocketEventPayload>, RuntimeError>)
    ensures
        received matches Ok(raw) ==> match spec_socket_event(raw@) {
            Some(EventView::Socket { kind, process_id }) => r matches Ok(Some(p)) && p.spec_kind() == kind
                && p.spec_process_id() == process_id,
            _ => r matches Ok(None),
        },
        received matches Err(e) ==> (if e@.code == 6 {
            r matches Ok(None)
        } else {
            r matches Err(x) && x@ == e@
        }),
{
    match received {
        Ok(raw) => match RecvEvent::decode(raw.as_slice()) {
            Ok(event) => match event.socket() {
                Some(p) => Ok(Some(*p)),
                None => Ok(None),
            },
            Err(_) => Ok(None),
        },
        Err(e) => if e.code() == 6 {
            Ok(None)
        } else {
            Err(e)
        },
    }
}

/// What one poll of the flow session gives, as for sockets.
pub fn flow_poll(received: Result<Vec<u8>, RuntimeError>) -> (r: Result<Option<FlowEventPayload>, RuntimeError>)
    ensures
        received matches Ok(raw) ==> match spec_flow_event(raw@) {
            Some(EventView::Flow { kind, flow_id, process_id }) => r matches Ok(Some(p)) && p.spec_kind() == kind
                && p.spec_flow_id() == flow_id && p.spec_process_id() == process_id,
            _ => r matches Ok(None),
        },
        received matches Err(e) ==> (if e@.code == 6 {
            r matches Ok(None)
        } else {
            r matches Err(x) && x@ == e@
        }),
{
    match received {
        Ok(raw) => match RecvEvent::decode(raw.as_slice()) {
            Ok(event) => match event.flow() {
                Some(p) => Ok(Some(*p)),
                None => Ok(None),
            },
            Err(_) => Ok(None),
        },
        Err(e) => if e.code() == 6 {
            Ok(None)
        } else {
            Err(e)
        },
    }
}

/// `s` right-aligned in `width` characters, padded with spaces.
pub open spec fn pad_left(s: Seq<char>, width: nat) -> Seq<char> {
    if s.len() >= width {
        s
    } else {
        Seq::new((width - s.len()) as nat, |i: int| ' ') + s
    }
}

fn padded_decimal(n: u64, width: usize) -> (s: String)
    ensures
        s@ == pad_left(decimal(n as nat), width as nat),
{
    let mut digits = String::new();
    push_decimal(&mut digits, n);
    assert(digits@ =~= decimal(n as nat));
    let len = digits.unicode_len();
    let mut s = String::new();
    let mut i: usize = len;
    while i < width
        invariant
            len == decimal(n as nat).len(),
            len <= i <= width || (len > width && i == len),
            s@ == Seq::new((i - len) as nat, |k: int| ' '),
        decreases width - i,
    {
        push_char(&mut s, ' ');
        i = i + 1;
        assert(s@ =~= Seq::new((i - len) as nat, |k: int| ' '));
    }
    s.append(digits.as_str());
    proof {
        if len >= width {
            assert(s@ =~= decimal(n as nat));
        } else {
            assert(s@ =~= pad_left(decimal(n as nat), width as nat));
        }
    }
    s
}

/// The line printed for the `seq`-th socket event, seen at `timestamp`
/// milliseconds: `[seq] [SOCKET] KIND pid=.. @ ..ms`, the number
/// right-aligned in four places.
pub open spec fn socket_event_line(seq: u64, event: SocketEventPayload, timestamp: u64) -> Seq<char> {
    "["@ + pad_left(decimal(seq as nat), 4) + "] [SOCKET] "@ + socket_kind_text(event.spec_kind()) + " pid="@
        + decimal(event.spec_process_id() as nat) + " @ "@ + decimal(timestamp as nat) + "ms"@
}

/// The line printed for a socket event.
pub fn render_socket_event(seq: u64, event: SocketEventPayload, timestamp: u64) -> (s: String)
    ensures
        s@ == socket_event_line(seq, event, timestamp),
{
    let mut s = "[".to_owned();
    let n = padded_decimal(seq, 4);
    s.append(n.as_str());
    s.append("] [SOCKET] ");
    s.append(render_socket_event_kind(event.kind()));
    s.append(" pid=");
    push_decimal(&mut s, event.process_id());
    s.append(" @ ");
    push_decimal(&mut s, timestamp);
    s.append("ms");
    s
}

/// The line printed for the `seq`-th flow event, seen at `timestamp`
/// milliseconds: `[seq] [FLOW]   KIND flow_id=.. pid=.. @ ..ms`.
pub open spec fn flow_event_line(seq: u64, event: FlowEventPayload, timestamp: u64) -> Seq<char> {
    "["@ + pad_left(decimal(seq as nat), 4) + "] [FLOW]   "@ + flow_kind_text(event.spec_kind()) + " flow_id="@
        + decimal(event.spec_flow_id() as nat) + " pid="@ + decimal(event.spec_process_id() as nat) + " @ "@
        + decimal(timestamp as nat) + "ms"@
}

/// The line printed for a flow event.
pub fn render_flow_event(seq: u64, event: FlowEventPayload, timestamp: u64) -> (s: String)
    ensures
        s@ == flow_event_line(seq, event, timestamp),
{
    let mut s = "[".to_owned();
    let n = padded_decimal(seq, 4);
    s.append(n.as_str());
    s.append("] [FLOW]   ");
    s.append(render_flow_event_kind(event.kind()));
    s.append(" flow_id=");
    push_decimal(&mut s, event.flow_id());
    s.append(" pid=");
    push_decimal(&mut s, event.process_id());
    s.append(" @ ");
    push_decimal(&mut s, timestamp);
    s.append("ms");
    s
}

/// The millisecond timestamp a clock reading gives: the milliseconds cut
/// to their low 64 bits, or 0 for a clock before the epoch.
pub open spec fn spec_timestamp_ms(reading: Result<u128, String>) -> u64 {
    match reading {
        Ok(ms) => ms as u64,
        Err(_) => 0,
    }
}

/// Turns a reading of milliseconds since the epoch into the timestamp
/// shown beside an event.
pub fn timestamp_ms_from_reading(reading: Result<u128, String>) -> (t: u64)
    ensures
        t == spec_timestamp_ms(reading),
{
    match reading {
        Ok(ms) => ms as u64,
        Err(_) => 0,
    }
}

/// Milliseconds since the Unix epoch, cut to 64 bits, or 0 when the clock
/// lies before the epoch. The clock decides the value, and every value of
/// the type can come of some reading.
pub fn now_timestamp_ms() -> u64 {
    let now = system_now();
    timestamp_ms_from_reading(millis_since_unix_epoch(&now))
}

} // verus!
