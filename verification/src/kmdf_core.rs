//! Driver core types that need no allocation in the original design: the
//! handle lifecycle, the C ABI result of the glue layer, one-shot
//! reinjection tokens, a bounded token table, a bounded packet copy and a
//! bounded FIFO ring of frames.
use vstd::prelude::*;
use vstd::arithmetic::div_mod::lemma_fundamental_div_mod_converse;
use vstd::slice::slice_subrange;
use crate::wire::{copy_into, spliced, extend_bytes};

use crate::text::{decimal, with_two_numbers};

verus! {

/// Lifecycle of a driver handle.
#[derive(Debug, Clone, Copy, PartialEq, Eq, Structural)]
pub enum HandleState {
    Opening,
    Running,
    RecvShutdown,
    SendShutdown,
    Closing,
    Closed,
}

/// Position of a state along the lifecycle.
pub open spec fn state_rank(s: HandleState) -> nat {
    match s {
        HandleState::Opening => 0,
        HandleState::Running => 1,
        HandleState::RecvShutdown => 2,
        HandleState::SendShutdown => 3,
        HandleState::Closing => 4,
        HandleState::Closed => 5,
    }
}

/// The state `mark_running` moves to, if it accepts `s`.
pub open spec fn spec_mark_running(s: HandleState) -> Option<HandleState> {
    if s == HandleState::Opening { Some(HandleState::Running) } else { None }
}

/// The state `shutdown_recv` moves to, if it accepts `s`.
pub open spec fn spec_shutdown_recv(s: HandleState) -> Option<HandleState> {
    if s == HandleState::Running { Some(HandleState::RecvShutdown) } else { None }
}

/// The state `shutdown_send` moves to, if it accepts `s`.
pub open spec fn spec_shutdown_send(s: HandleState) -> Option<HandleState> {
    if s == HandleState::RecvShutdown { Some(HandleState::SendShutdown) } else { None }
}

/// The state `close` moves to, if it accepts `s`.
pub open spec fn spec_close(s: HandleState) -> Option<HandleState> {
    if s == HandleState::SendShutdown { Some(HandleState::Closed) } else { None }
}

/// Whether a transition took `old` to `new` as `step` says, reporting
/// success exactly when `step` accepts `old` and leaving a refused state
/// as it was.
pub open spec fn transitioned(step: Option<HandleState>, old: HandleState, new: HandleState, ok: bool) -> bool {
    match step {
        Some(next) => ok && new == next,
        None => !ok && new == old,
    }
}

impl HandleState {
    /// The first state of every handle.
    pub fn opening() -> (s: HandleState)
        ensures
            s == HandleState::Opening,
    {
        HandleState::Opening
    }

    /// Opening -> Running.
    pub fn mark_running(&mut self) -> (r: Result<(), &'static str>)
        ensures
            transitioned(spec_mark_running(*old(self)), *old(self), *final(self), r is Ok),
            r matches Err(m) ==> m@ == "mark_running requires Opening state"@,
    {
        if let HandleState::Opening = *self {
            *self = HandleState::Running;
            Ok(())
        } else {
            Err("mark_running requires Opening state")
        }
    }

    /// Running -> RecvShutdown.
    pub fn shutdown_recv(&mut self) -> (r: Result<(), &'static str>)
        ensures
            transitioned(spec_shutdown_recv(*old(self)), *old(self), *final(self), r is Ok),
            r matches Err(m) ==> m@ == "shutdown_recv requires Running state"@,
    {
        if let HandleState::Running = *self {
            *self = HandleState::RecvShutdown;
            Ok(())
        } else {
            Err("shutdown_recv requires Running state")
        }
    }

    /// RecvShutdown -> SendShutdown.
    pub fn shutdown_send(&mut self) -> (r: Result<(), &'static str>)
        ensures
            transitioned(spec_shutdown_send(*old(self)), *old(self), *final(self), r is Ok),
            r matches Err(m) ==> m@ == "shutdown_send requires RecvShutdown state"@,
    {
        if let HandleState::RecvShutdown = *self {
            *self = HandleState::SendShutdown;
            Ok(())
        } else {
            Err("shutdown_send requires RecvShutdown state")
        }
    }

    /// SendShutdown -> Closed, passing through Closing.
    pub fn close(&mut self) -> (r: Result<(), &'static str>)
        ensures
            transitioned(spec_close(*old(self)), *old(self), *final(self), r is Ok),
            r matches Err(m) ==> m@ == "close requires SendShutdown state"@,
    {
        if let HandleState::SendShutdown = *self {
            *self = HandleState::Closing;
            *self = HandleState::Closed;
            Ok(())
        } else {
            Err("close requires SendShutdown state")
        }
    }

    /// Whether the handle is closed.
    pub fn is_closed(self) -> (b: bool)
        ensures
            b == (self == HandleState::Closed),
    {
        if let HandleState::Closed = self { true } else { false }
    }
}

/// Every accepted transition moves forward along the lifecycle, a closed
/// handle accepts no transition, and the one order that reaches Closed from
/// Opening is mark_running, shutdown_recv, shutdown_send, close.
pub proof fn lemma_handle_lifecycle(s: HandleState)
    ensures
        spec_mark_running(s) matches Some(n) ==> state_rank(n) > state_rank(s),
        spec_shutdown_recv(s) matches Some(n) ==> state_rank(n) > state_rank(s),
        spec_shutdown_send(s) matches Some(n) ==> state_rank(n) > state_rank(s),
        spec_close(s) matches Some(n) ==> state_rank(n) > state_rank(s),
        s == HandleState::Closed ==> spec_mark_running(s) is None && spec_shutdown_recv(s) is None
            && spec_shutdown_send(s) is None && spec_close(s) is None,
        spec_mark_running(HandleState::Opening) == Some(HandleState::Running),
        spec_shutdown_recv(HandleState::Running) == Some(HandleState::RecvShutdown),
        spec_shutdown_send(HandleState::RecvShutdown) == Some(HandleState::SendShutdown),
        spec_close(HandleState::SendShutdown) == Some(HandleState::Closed),
{
}

/// A transition asked of a handle.
pub enum HandleOp {
    MarkRunning,
    ShutdownRecv,
    ShutdownSend,
    Close,
}

/// The state `op` moves to, if it accepts `s`.
pub open spec fn spec_step(op: HandleOp, s: HandleState) -> Option<HandleState> {
    match op {
        HandleOp::MarkRunning => spec_mark_running(s),
        HandleOp::ShutdownRecv => spec_shutdown_recv(s),
        HandleOp::ShutdownSend => spec_shutdown_send(s),
        HandleOp::Close => spec_close(s),
    }
}

/// Asks `ops` of a handle in state `s`, in order: the state reached and
/// the transitions that were accepted, in order. A refused transition
/// leaves the state as it was.
pub open spec fn run_ops(s: HandleState, ops: Seq<HandleOp>) -> (HandleState, Seq<HandleOp>)
    decreases ops.len(),
{
    if ops.len() == 0 {
        (s, Seq::empty())
    } else {
        let (t, accepted) = run_ops(s, ops.drop_last());
        match spec_step(ops.last(), t) {
            Some(n) => (n, accepted.push(ops.last())),
            None => (t, accepted),
        }
    }
}

/// The one order of transitions that closes a handle.
pub open spec fn lifecycle() -> Seq<HandleOp> {
    seq![HandleOp::MarkRunning, HandleOp::ShutdownRecv, HandleOp::ShutdownSend, HandleOp::Close]
}

/// The state after the first `k` transitions of the lifecycle.
pub open spec fn lifecycle_state(k: nat) -> HandleState {
    if k == 0 {
        HandleState::Opening
    } else if k == 1 {
        HandleState::Running
    } else if k == 2 {
        HandleState::RecvShutdown
    } else if k == 3 {
        HandleState::SendShutdown
    } else {
        HandleState::Closed
    }
}

proof fn lemma_run_ops_follows_lifecycle(ops: Seq<HandleOp>)
    ensures
        run_ops(HandleState::Opening, ops).1.len() <= 4,
        run_ops(HandleState::Opening, ops).1 == lifecycle().take(run_ops(HandleState::Opening, ops).1.len() as int),
        run_ops(HandleState::Opening, ops).0 == lifecycle_state(run_ops(HandleState::Opening, ops).1.len()),
    decreases ops.len(),
{
    if ops.len() > 0 {
        lemma_run_ops_follows_lifecycle(ops.drop_last());
        let (t, accepted) = run_ops(HandleState::Opening, ops.drop_last());
        let k = accepted.len();
        if let Some(n) = spec_step(ops.last(), t) {
            assert(k < 4);
            assert(ops.last() == lifecycle()[k as int]);
            assert(accepted.push(ops.last()) =~= lifecycle().take(k as int + 1));
        }
    }
}

/// Over any sequence of transitions asked of a new handle, in any order:
/// the handle ends closed exactly when the accepted transitions were
/// mark_running, shutdown_recv, shutdown_send and close, in that order; a
/// refused transition leaves the state as it was (see `run_ops`); and a
/// closed handle refuses every transition.
pub proof fn lemma_handle_lifecycle_over_sequences(ops: Seq<HandleOp>, op: HandleOp)
    ensures
        (run_ops(HandleState::Opening, ops).0 == HandleState::Closed) <==> (run_ops(HandleState::Opening, ops).1
            == lifecycle()),
        run_ops(HandleState::Opening, ops).0 == HandleState::Closed ==> spec_step(op, HandleState::Closed) is None,
{
    lemma_run_ops_follows_lifecycle(ops);
    let accepted = run_ops(HandleState::Opening, ops).1;
    if accepted.len() == 4 {
        assert(lifecycle().take(4) =~= lifecycle());
    }
    if accepted == lifecycle() {
        assert(accepted.len() == 4);
    }
}

/// Status the C glue layer reports; its number is its position here.
#[derive(Debug, Clone, Copy, PartialEq, Eq, Structural)]
pub enum GlueIoStatus {
    Success,
    UnsupportedIoctl,
    DecodeOpen,
    OutputTooSmall,
    QueueEmpty,
    RecvDisabled,
    SendDisabled,
    InvalidState,
    NetworkRuntime,
    InvalidPointer,
    InvalidHandle,
    InvalidLayer,
}

impl GlueIoStatus {
    /// Number of a status.
    pub open spec fn spec_code(self) -> u32 {
        match self {
            GlueIoStatus::Success => 0,
            GlueIoStatus::UnsupportedIoctl => 1,
            GlueIoStatus::DecodeOpen => 2,
            GlueIoStatus::OutputTooSmall => 3,
            GlueIoStatus::QueueEmpty => 4,
            GlueIoStatus::RecvDisabled => 5,
            GlueIoStatus::SendDisabled => 6,
            GlueIoStatus::InvalidState => 7,
            GlueIoStatus::NetworkRuntime => 8,
            GlueIoStatus::InvalidPointer => 9,
            GlueIoStatus::InvalidHandle => 10,
            GlueIoStatus::InvalidLayer => 11,
        }
    }

    /// Number of this status.
    pub fn code(self) -> (c: u32)
        ensures
            c == self.spec_code(),
    {
        match self {
            GlueIoStatus::Success => 0,
            GlueIoStatus::UnsupportedIoctl => 1,
            GlueIoStatus::DecodeOpen => 2,
            GlueIoStatus::OutputTooSmall => 3,
            GlueIoStatus::QueueEmpty => 4,
            GlueIoStatus::RecvDisabled => 5,
            GlueIoStatus::SendDisabled => 6,
            GlueIoStatus::InvalidState => 7,
            GlueIoStatus::NetworkRuntime => 8,
            GlueIoStatus::InvalidPointer => 9,
            GlueIoStatus::InvalidHandle => 10,
            GlueIoStatus::InvalidLayer => 11,
        }
    }
}

/// Result of a glue call: a status and the number of bytes written.
#[derive(Debug, Clone, Copy, PartialEq, Eq, Structural)]
pub struct GlueIoResult {
    pub status: GlueIoStatus,
    pub bytes_written: u32,
}

/// A token that lets user mode reinject one captured packet.
#[derive(Debug, Clone, Copy, PartialEq, Eq, Hash, Structural)]
pub struct ReinjectionToken(u64);

impl ReinjectionToken {
    /// Raw value of a token.
    pub closed spec fn spec_raw(self) -> u64 {
        self.0
    }

    /// A token with the given raw value.
    pub fn new(raw: u64) -> (t: ReinjectionToken)
        ensures
            t.spec_raw() == raw,
    {
        ReinjectionToken(raw)
    }

    /// Raw value of this token.
    pub fn raw(self) -> (r: u64)
        ensures
            r == self.spec_raw(),
    {
        self.0
    }
}

/// Why a token was refused.
#[derive(Debug, Clone, Copy, PartialEq, Eq, Structural)]
pub enum ReinjectionError {
    UnknownToken,
}

impl ReinjectionError {
    /// Human-readable description.
    pub fn to_string(&self) -> (s: String)
        ensures
            s@ == "unknown reinjection token"@,
    {
        String::from_str("unknown reinjection token")
    }
}

/// Abstract state of a token table: the next token to issue, the slot the
/// next issue writes, and each slot's `(token, packet id)` if it holds one.
pub struct TokenTableView {
    pub next_token: u64,
    pub write_index: int,
    pub slots: Seq<Option<(u64, u64)>>,
}

/// Token held by a slot entry.
pub open spec fn entry_token(e: Option<(u64, u64)>) -> u64 {
    match e {
        Some(p) => p.0,
        None => 0,
    }
}

/// Packet id held by a slot entry.
pub open spec fn entry_packet(e: Option<(u64, u64)>) -> u64 {
    match e {
        Some(p) => p.1,
        None => 0,
    }
}

/// Index of the first slot at or after `from` that holds `token`.
pub open spec fn find_token_from(slots: Seq<Option<(u64, u64)>>, token: u64, from: int) -> Option<int>
    decreases slots.len() - from,
{
    if from < 0 || from >= slots.len() {
        None
    } else if slots[from] matches Some(entry) && entry.0 == token {
        Some(from)
    } else {
        find_token_from(slots, token, from + 1)
    }
}

/// Index of the first slot that holds `token`.
pub open spec fn find_token(slots: Seq<Option<(u64, u64)>>, token: u64) -> Option<int> {
    find_token_from(slots, token, 0)
}

/// The state after issuing a token for `packet_id` in a table of `n`
/// slots, and the token issued: the next token counter (saturating at
/// `u64::MAX`) is issued and, when there are slots, written over the oldest
/// slot together with the packet id.
pub open spec fn spec_issue(v: TokenTableView, n: nat, packet_id: u64) -> (TokenTableView, u64) {
    let token = v.next_token;
    let next = if v.next_token < u64::MAX { (v.next_token + 1) as u64 } else { u64::MAX };
    if n == 0 {
        (TokenTableView { next_token: next, ..v }, token)
    } else {
        (
            TokenTableView {
                next_token: next,
                write_index: (v.write_index + 1) % (n as int),
                slots: v.slots.update(v.write_index, Some((token, packet_id))),
            },
            token,
        )
    }
}

/// The state after consuming `token`, and the result: the first slot that
/// holds the token is emptied and its packet id returned; an absent token
/// is refused and nothing changes.
pub open spec fn spec_consume(v: TokenTableView, token: u64) -> (TokenTableView, Result<u64, ReinjectionError>) {
    match find_token(v.slots, token) {
        Some(i) => (
            TokenTableView { slots: v.slots.update(i, None), ..v },
            Ok(entry_packet(v.slots[i])),
        ),
        None => (v, Err(ReinjectionError::UnknownToken)),
    }
}

/// Whether a table state is well formed for `n` slots.
pub open spec fn table_wf(v: TokenTableView, n: nat) -> bool {
    &&& v.slots.len() == n
    &&& 0 <= v.write_index
    &&& (n > 0 ==> v.write_index < n)
    &&& (n == 0 ==> v.write_index == 0)
    &&& v.next_token >= 1
}

/// Whether every stored token was issued before (is below the counter) and
/// no two slots hold the same token, tokens issued once the counter has
/// saturated excepted.
pub open spec fn tokens_unique(v: TokenTableView) -> bool {
    &&& forall|i: int| 0 <= i < v.slots.len() && v.slots[i] is Some ==> {
        let t = entry_token(v.slots[i]);
        1 <= t && (t < v.next_token || t == u64::MAX)
    }
    &&& forall|i: int, j: int|
        0 <= i < v.slots.len() && 0 <= j < v.slots.len() && i != j && v.slots[i] is Some
            && v.slots[j] is Some && entry_token(v.slots[i]) == entry_token(v.slots[j]) ==> entry_token(v.slots[i]) == u64::MAX
}

/// A fixed table of `N` outstanding reinjection tokens; issuing past `N`
/// overwrites the oldest entry.
#[derive(Debug, Clone)]
pub struct FixedReinjectionTable<const N: usize> {
    next_token: u64,
    write_index: usize,
    slots: Vec<Option<(u64, u64)>>,
}

impl<const N: usize> FixedReinjectionTable<N> {
    /// Abstract state of the table.
    pub closed spec fn view(&self) -> TokenTableView {
        TokenTableView { next_token: self.next_token, write_index: self.write_index as int, slots: self.slots@ }
    }

    /// Whether the table is well formed for its `N` slots.
    pub open spec fn wf(&self) -> bool {
        table_wf(self.view(), N as nat)
    }

    /// An empty table whose first token is 1.
    pub fn new() -> (t: Self)
        ensures
            t.wf(),
            t.view() == empty_table(N as nat),
            t.view().next_token == 1,
            t.view().write_index == 0,
            t.view().slots == Seq::new(N as nat, |i: int| None::<(u64, u64)>),
    {
        let mut slots: Vec<Option<(u64, u64)>> = Vec::new();
        let mut i: usize = 0;
        while i < N
            invariant
                i <= N,
                slots@ == Seq::new(i as nat, |k: int| None::<(u64, u64)>),
            decreases N - i,
        {
            slots.push(None);
            i = i + 1;
            assert(slots@ =~= Seq::new(i as nat, |k: int| None::<(u64, u64)>));
        }
        FixedReinjectionTable { next_token: 1, write_index: 0, slots }
    }

    /// Issues the next token for `packet_id`.
    pub fn issue_for_network_packet(&mut self, packet_id: u64) -> (token: ReinjectionToken)
        requires
            old(self).wf(),
        ensures
            final(self).wf(),
            (final(self).view(), token.spec_raw()) == spec_issue(old(self).view(), N as nat, packet_id),
    {
        let token = ReinjectionToken::new(self.next_token);
        let next = if self.next_token < u64::MAX { self.next_token + 1 } else { u64::MAX };
        if N != 0 {
            let w = self.write_index;
            self.slots.set(w, Some((token.raw(), packet_id)));
            self.write_index = (w + 1) % N;
        }
        self.next_token = next;
        assert(self.view() == spec_issue(old(self).view(), N as nat, packet_id).0);
        token
    }

    /// Consumes `token`, returning the packet id it was issued for.
    pub fn consume(&mut self, token: ReinjectionToken) -> (r: Result<u64, ReinjectionError>)
        requires
            old(self).wf(),
        ensures
            final(self).wf(),
            (final(self).view(), r) == spec_consume(old(self).view(), token.spec_raw()),
    {
        let t = token.raw();
        let n = self.slots.len();
        let mut i: usize = 0;
        let mut found: Option<usize> = None;
        while i < n
            invariant_except_break
                found is None,
                find_token(self.slots@, t) == find_token_from(self.slots@, t, i as int),
            invariant
                n == self.slots@.len(),
                i <= n,
            ensures
                found matches Some(k) ==> find_token(self.slots@, t) == Some(k as int),
                found is None ==> find_token(self.slots@, t) is None,
            decreases n - i,
        {
            if let Some(entry) = self.slots[i] {
                if entry.0 == t {
                    assert(find_token_from(self.slots@, t, i as int) == Some(i as int));
                    found = Some(i);
                    break;
                }
            }
            i = i + 1;
        }
        proof {
            lemma_find_token_from(self.slots@, t, 0);
        }
        match found {
            Some(k) => {
                let entry = self.slots[k];
                let packet_id = match entry {
                    Some(e) => e.1,
                    None => 0,
                };
                self.slots.set(k, None);
                Ok(packet_id)
            },
            None => Err(ReinjectionError::UnknownToken),
        }
    }

    /// Consumes the token with the given raw value.
    pub fn consume_raw(&mut self, token: u64) -> (r: Result<u64, ReinjectionError>)
        requires
            old(self).wf(),
        ensures
            final(self).wf(),
            (final(self).view(), r) == spec_consume(old(self).view(), token),
    {
        self.consume(ReinjectionToken::new(token))
    }
}

impl<const N: usize> Default for FixedReinjectionTable<N> {
    fn default() -> (t: Self)
        ensures
            t.wf(),
            t.view().next_token == 1,
            t.view().write_index == 0,
            t.view().slots == Seq::new(N as nat, |i: int| None::<(u64, u64)>),
    {
        Self::new()
    }
}

/// A found slot holds the token and no earlier slot does.
proof fn lemma_find_token_from(slots: Seq<Option<(u64, u64)>>, token: u64, from: int)
    requires
        0 <= from,
    ensures
        find_token_from(slots, token, from) matches Some(i) ==> from <= i < slots.len()
            && slots[i] is Some && entry_token(slots[i]) == token,
        find_token_from(slots, token, from) is None ==> forall|k: int|
            from <= k < slots.len() ==> !(slots[k] is Some && entry_token(slots[k]) == token),
    decreases slots.len() - from,
{
    if from < slots.len() {
        lemma_find_token_from(slots, token, from + 1);
    }
}

/// Issuing and consuming keep tokens unique.
pub proof fn lemma_table_ops_keep_tokens_unique(v: TokenTableView, n: nat, packet_id: u64, token: u64)
    requires
        table_wf(v, n),
        tokens_unique(v),
    ensures
        table_wf(spec_issue(v, n, packet_id).0, n),
        tokens_unique(spec_issue(v, n, packet_id).0),
        table_wf(spec_consume(v, token).0, n),
        tokens_unique(spec_consume(v, token).0),
{
    lemma_find_token_from(v.slots, token, 0);
    let w = spec_issue(v, n, packet_id).0;
    if n > 0 {
        assert forall|i: int, j: int|
            0 <= i < w.slots.len() && 0 <= j < w.slots.len() && i != j && w.slots[i] is Some
                && w.slots[j] is Some && entry_token(w.slots[i]) == entry_token(w.slots[j]) implies entry_token(w.slots[i]) == u64::MAX by {
            if i == v.write_index || j == v.write_index {
            }
        }
    }
}

/// A token issued while the counter is below `u64::MAX` can be consumed
/// right away and yields the packet id it was issued for.
pub proof fn lemma_issue_then_consume(v: TokenTableView, n: nat, packet_id: u64)
    requires
        n > 0,
        table_wf(v, n),
        tokens_unique(v),
        v.next_token < u64::MAX,
    ensures
        ({
            let (v1, token) = spec_issue(v, n, packet_id);
            spec_consume(v1, token).1 == Ok::<u64, ReinjectionError>(packet_id)
        }),
{
    let (v1, token) = spec_issue(v, n, packet_id);
    lemma_find_token_from(v1.slots, token, 0);
    assert(v1.slots[v.write_index] == Some((token, packet_id)));
    match find_token(v1.slots, token) {
        Some(i) => {
            if i != v.write_index {
                assert(v.slots[i] is Some && entry_token(v.slots[i]) == token);
            }
        },
        None => {},
    }
}

/// Tokens are one-shot: once consumed, a token below `u64::MAX` is refused.
pub proof fn lemma_consume_is_one_shot(v: TokenTableView, n: nat, token: u64)
    requires
        table_wf(v, n),
        tokens_unique(v),
        token != u64::MAX,
        spec_consume(v, token).1 is Ok,
    ensures
        spec_consume(spec_consume(v, token).0, token).1 == Err::<u64, ReinjectionError>(ReinjectionError::UnknownToken),
{
    let v1 = spec_consume(v, token).0;
    lemma_find_token_from(v.slots, token, 0);
    lemma_find_token_from(v1.slots, token, 0);
    let i = find_token(v.slots, token).unwrap();
    match find_token(v1.slots, token) {
        Some(j) => {
            assert(j != i);
            assert(v.slots[j] is Some && entry_token(v.slots[j]) == token);
        },
        None => {},
    }
}

/// Issuing overwrites the oldest slot: the token it held is then refused.
pub proof fn lemma_issue_evicts_oldest(v: TokenTableView, n: nat, packet_id: u64)
    requires
        n > 0,
        table_wf(v, n),
        tokens_unique(v),
        v.slots[v.write_index] is Some,
        entry_token(v.slots[v.write_index]) != u64::MAX,
    ensures
        spec_consume(spec_issue(v, n, packet_id).0, entry_token(v.slots[v.write_index])).1
            == Err::<u64, ReinjectionError>(ReinjectionError::UnknownToken),
{
    let old_token = entry_token(v.slots[v.write_index]);
    let v1 = spec_issue(v, n, packet_id).0;
    lemma_find_token_from(v1.slots, old_token, 0);
    match find_token(v1.slots, old_token) {
        Some(j) => {
            assert(j != v.write_index);
            assert(v.slots[j] is Some && entry_token(v.slots[j]) == old_token);
        },
        None => {},
    }
}

/// A request made of a token table: issue a token for a packet id, or
/// consume a token.
pub enum TokenOp {
    Issue(u64),
    Consume(u64),
}

/// Whether token `t` may still be consumed after `k` issues in a table of
/// `n` slots when the tokens in `used` have been consumed: it was issued,
/// it is among the last `n` issued, and it has not been consumed.
pub open spec fn token_live(k: nat, n: nat, used: Set<u64>, t: u64) -> bool {
    &&& 1 <= t
    &&& t <= k
    &&& k < t + n
    &&& !used.contains(t)
}

/// The token discipline after `ops`, for a table of `n` slots: the packet
/// id each issued token stands for (token `t` at index `t - 1`, tokens
/// numbered from 1), and the tokens consumed so far.
pub open spec fn token_model(ops: Seq<TokenOp>, n: nat) -> (Seq<u64>, Set<u64>)
    decreases ops.len(),
{
    if ops.len() == 0 {
        (Seq::empty(), Set::empty())
    } else {
        let (pids, used) = token_model(ops.drop_last(), n);
        match ops.last() {
            TokenOp::Issue(p) => (pids.push(p), used),
            TokenOp::Consume(t) => if token_live(pids.len(), n, used, t) {
                (pids, used.insert(t))
            } else {
                (pids, used)
            },
        }
    }
}

/// What the discipline answers to the last request of `ops`: an issue
/// gets the next token number; a consume gets the packet id of a token
/// still live, and is refused otherwise.
pub open spec fn model_answer(ops: Seq<TokenOp>, n: nat) -> Result<u64, ReinjectionError> {
    let (pids, used) = token_model(ops.drop_last(), n);
    match ops.last() {
        TokenOp::Issue(_) => Ok((pids.len() + 1) as u64),
        TokenOp::Consume(t) => if token_live(pids.len(), n, used, t) {
            Ok(pids[t - 1])
        } else {
            Err(ReinjectionError::UnknownToken)
        },
    }
}

/// An empty table of `n` slots, as `FixedReinjectionTable::new` makes it.
pub open spec fn empty_table(n: nat) -> TokenTableView {
    TokenTableView { next_token: 1, write_index: 0, slots: Seq::new(n, |i: int| None::<(u64, u64)>) }
}

/// The table state after making the requests `ops` of `v`.
pub open spec fn run_table(v: TokenTableView, n: nat, ops: Seq<TokenOp>) -> TokenTableView
    decreases ops.len(),
{
    if ops.len() == 0 {
        v
    } else {
        let u = run_table(v, n, ops.drop_last());
        match ops.last() {
            TokenOp::Issue(p) => spec_issue(u, n, p).0,
            TokenOp::Consume(t) => spec_consume(u, t).0,
        }
    }
}

/// What the table answers to the last request of `ops`, made of `v`.
pub open spec fn table_answer(v: TokenTableView, n: nat, ops: Seq<TokenOp>) -> Result<u64, ReinjectionError> {
    let u = run_table(v, n, ops.drop_last());
    match ops.last() {
        TokenOp::Issue(p) => Ok(spec_issue(u, n, p).1),
        TokenOp::Consume(t) => spec_consume(u, t).1,
    }
}

/// How a table state stands for the discipline after `pids.len()` issues:
/// the counter is the next token number, the write index follows it, each
/// live token sits in its slot with its packet id, and every filled slot
/// holds a live token.
spec fn table_models(v: TokenTableView, n: nat, pids: Seq<u64>, used: Set<u64>) -> bool {
    let k = pids.len();
    &&& table_wf(v, n)
    &&& v.next_token == k + 1
    &&& v.write_index == k % n
    &&& forall|t: u64| used.contains(t) ==> 1 <= t <= k
    &&& forall|t: u64| #[trigger] token_live(k, n, used, t)
        ==> v.slots[(t - 1) % (n as int)] == Some((t, pids[t - 1]))
    &&& forall|j: int| 0 <= j < n && #[trigger] v.slots[j] is Some ==> {
        let t = entry_token(v.slots[j]);
        &&& token_live(k, n, used, t)
        &&& (t - 1) % (n as int) == j
        &&& entry_packet(v.slots[j]) == pids[t - 1]
    }
}

/// Two numbers less than `n` apart with the same residue are equal.
proof fn lemma_same_residue(a: int, b: int, n: int)
    requires
        n > 0,
        0 <= a,
        0 <= b,
        a < b + n,
        b < a + n,
        a % n == b % n,
    ensures
        a == b,
{
    lemma_fundamental_div_mod_converse_ints(a, n);
    lemma_fundamental_div_mod_converse_ints(b, n);
    assert(a == b) by (nonlinear_arith)
        requires
            n > 0,
            a == n * (a / n) + a % n,
            b == n * (b / n) + b % n,
            a % n == b % n,
            a < b + n,
            b < a + n,
    ;
}

proof fn lemma_fundamental_div_mod_converse_ints(a: int, n: int)
    requires
        n > 0,
    ensures
        a == n * (a / n) + a % n,
{
    vstd::arithmetic::div_mod::lemma_fundamental_div_mod(a, n);
}

proof fn lemma_table_models_run(ops: Seq<TokenOp>, n: nat)
    requires
        n > 0,
        token_model(ops, n).0.len() < u64::MAX,
    ensures
        table_models(run_table(empty_table(n), n, ops), n, token_model(ops, n).0, token_model(ops, n).1),
    decreases ops.len(),
{
    if ops.len() == 0 {
        assert(0int % (n as int) == 0) by (nonlinear_arith)
            requires
                n > 0,
        ;
    } else {
        let prefix = ops.drop_last();
        lemma_table_models_run(prefix, n);
        let u = run_table(empty_table(n), n, prefix);
        let (pids, used) = token_model(prefix, n);
        let kn = pids.len();
        let k = kn as int;
        let ni = n as int;
        match ops.last() {
            TokenOp::Issue(p) => {
                let v = spec_issue(u, n, p).0;
                let pids2 = pids.push(p);
                let w = k % ni;
                assert(v.slots[w] == Some(((k + 1) as u64, p)));
                vstd::arithmetic::div_mod::lemma_add_mod_noop(k as int, 1, ni);
                assert((w + 1) % ni == (k as int + 1) % ni) by {
                    if ni > 1 {
                        vstd::arithmetic::div_mod::lemma_small_mod(1, ni as nat);
                    } else {
                        assert((w + 1) % ni == 0 && (k as int + 1) % ni == 0) by (nonlinear_arith)
                            requires ni == 1;
                    }
                }
                assert forall|t: u64| #[trigger] token_live(kn + 1, n, used, t) implies v.slots[(t - 1) % ni] == Some((t, pids2[t - 1])) by {
                    if t as int == k + 1 {
                    } else {
                        assert(token_live(kn, n, used, t));
                        if (t - 1) % ni == w {
                            lemma_same_residue(t - 1, k as int, ni);
                        }
                    }
                }
                assert forall|j: int| 0 <= j < n && #[trigger] v.slots[j] is Some implies {
                    let t = entry_token(v.slots[j]);
                    &&& token_live(kn + 1, n, used, t)
                    &&& (t - 1) % ni == j
                    &&& entry_packet(v.slots[j]) == pids2[t - 1]
                } by {
                    if j != w {
                        assert(u.slots[j] is Some);
                        let t = entry_token(u.slots[j]);
                        if (t as int) + n == k + 1 {
                            assert((t - 1) as int == k - ni);
                            assert((k - ni) % ni == k % ni) by {
                                vstd::arithmetic::div_mod::lemma_mod_sub_multiples_vanish(k as int, ni);
                            }
                        }
                    }
                }
            },
            TokenOp::Consume(t) => {
                lemma_find_token_from(u.slots, t, 0);
                if token_live(kn, n, used, t) {
                    let j0 = (t - 1) % ni;
                    assert(u.slots[j0] == Some((t, pids[t - 1])));
                    match find_token(u.slots, t) {
                        Some(i) => {
                            assert(u.slots[i] is Some);
                        },
                        None => {
                            assert(u.slots[j0] is Some);
                            assert(false);
                        },
                    }
                    let i = find_token(u.slots, t).unwrap();
                    assert(i == j0);
                    let v = spec_consume(u, t).0;
                    let used2 = used.insert(t);
                    assert forall|t2: u64| #[trigger] token_live(kn, n, used2, t2) implies v.slots[(t2 - 1) % ni] == Some((t2, pids[t2 - 1])) by {
                        assert(token_live(kn, n, used, t2));
                        if (t2 - 1) % ni == j0 {
                            lemma_same_residue(t2 - 1, t - 1, ni);
                        }
                    }
                    assert forall|j: int| 0 <= j < n && #[trigger] v.slots[j] is Some implies {
                        let t2 = entry_token(v.slots[j]);
                        &&& token_live(kn, n, used2, t2)
                        &&& (t2 - 1) % ni == j
                        &&& entry_packet(v.slots[j]) == pids[t2 - 1]
                    } by {
                        assert(j != j0);
                        assert(u.slots[j] is Some);
                    }
                } else {
                    match find_token(u.slots, t) {
                        Some(i) => {
                            assert(u.slots[i] is Some);
                            assert(false);
                        },
                        None => {},
                    }
                }
            },
        }
    }
}

/// Over any interleaving of issues and consumes made of a new table of
/// `n > 0` slots, while fewer than `u64::MAX` tokens have been issued:
/// the i-th token issued is `i`; a consume of token `t` succeeds, with
/// the packet id `t` was issued for, exactly when `t` was issued, is among
/// the last `n` issued and has not been consumed yet; every other consume
/// is refused as an unknown token.
pub proof fn lemma_token_discipline(ops: Seq<TokenOp>, n: nat)
    requires
        n > 0,
        ops.len() > 0,
        token_model(ops, n).0.len() < u64::MAX,
    ensures
        table_answer(empty_table(n), n, ops) == model_answer(ops, n),
{
    let prefix = ops.drop_last();
    lemma_table_models_run(prefix, n);
    let u = run_table(empty_table(n), n, prefix);
    let (pids, used) = token_model(prefix, n);
    let kn = pids.len();
        let k = kn as int;
    let ni = n as int;
    match ops.last() {
        TokenOp::Issue(p) => {},
        TokenOp::Consume(t) => {
            lemma_find_token_from(u.slots, t, 0);
            if token_live(kn, n, used, t) {
                let j0 = (t - 1) % ni;
                assert(u.slots[j0] == Some((t, pids[t - 1])));
                match find_token(u.slots, t) {
                    Some(i) => {
                        assert(u.slots[i] is Some);
                    },
                    None => {
                        assert(u.slots[j0] is Some);
                        assert(false);
                    },
                }
            } else {
                match find_token(u.slots, t) {
                    Some(i) => {
                        assert(u.slots[i] is Some);
                        assert(false);
                    },
                    None => {},
                }
            }
        },
    }
}

/// Why a frame could not be pushed to or popped from a ring.
#[derive(Debug, Clone, Copy, PartialEq, Eq, Structural)]
pub enum ByteRingError {
    FrameTooLarge,
    OutputTooSmall { required: usize, provided: usize },
}

/// Why a packet could not be copied into fixed storage.
#[derive(Debug, Clone, Copy, PartialEq, Eq, Structural)]
pub enum FixedPacketError {
    PacketTooLarge { required: usize, capacity: usize },
}

/// A packet of at most `BYTES` bytes.
#[derive(Debug, Clone, PartialEq, Eq)]
pub struct FixedPacket<const BYTES: usize> {
    data: Vec<u8>,
}

impl<const BYTES: usize> FixedPacket<BYTES> {
    /// Bytes of the packet.
    pub closed spec fn view(&self) -> Seq<u8> {
        self.data@
    }

    /// Whether the packet fits its storage.
    pub open spec fn wf(&self) -> bool {
        self.view().len() <= BYTES
    }

    /// An empty packet.
    pub fn new() -> (p: Self)
        ensures
            p.wf(),
            p.view() == Seq::<u8>::empty(),
    {
        FixedPacket { data: Vec::new() }
    }

    /// A copy of `input`, refused when it is longer than `BYTES`.
    pub fn copy_from_slice(input: &[u8]) -> (r: Result<Self, FixedPacketError>)
        ensures
            input@.len() > BYTES ==> r == Err::<Self, FixedPacketError>(
                FixedPacketError::PacketTooLarge { required: input@.len() as usize, capacity: BYTES },
            ),
            input@.len() <= BYTES ==> (r matches Ok(p) && p.wf() && p.view() == input@),
    {
        if input.len() > BYTES {
            return Err(FixedPacketError::PacketTooLarge { required: input.len(), capacity: BYTES });
        }
        let mut data: Vec<u8> = Vec::new();
        extend_bytes(&mut data, input);
        Ok(FixedPacket { data })
    }

    /// The packet's bytes.
    pub fn as_slice(&self) -> (s: &[u8])
        ensures
            s@ == self.view(),
    {
        self.data.as_slice()
    }

    /// Number of bytes in the packet.
    pub fn len(&self) -> (n: usize)
        ensures
            n == self.view().len(),
    {
        self.data.len()
    }
}

impl<const BYTES: usize> Default for FixedPacket<BYTES> {
    fn default() -> (p: Self)
        ensures
            p.wf(),
            p.view() == Seq::<u8>::empty(),
    {
        Self::new()
    }
}

/// Slot `i` places after `head` in a ring of `slots` slots.
pub open spec fn ring_slot(head: int, i: int, slots: int) -> int {
    if head + i < slots { head + i } else { head + i - slots }
}

/// The queue after pushing `frame` into a ring of `slots` slots holding
/// `frames`: a full ring drops its oldest frame first.
pub open spec fn spec_ring_push(frames: Seq<Seq<u8>>, slots: nat, frame: Seq<u8>) -> Seq<Seq<u8>> {
    if frames.len() < slots {
        frames.push(frame)
    } else {
        frames.drop_first().push(frame)
    }
}

/// A FIFO of at most `SLOTS` frames of at most `BYTES` bytes each; pushing
/// into a full ring drops the oldest frame.
#[derive(Debug, Clone)]
pub struct ByteRing<const SLOTS: usize, const BYTES: usize> {
    storage: Vec<Vec<u8>>,
    head: usize,
    len: usize,
}

fn ring_advance(head: usize, i: usize, slots: usize) -> (r: usize)
    requires
        head < slots,
        i <= slots,
    ensures
        r == ring_slot(head as int, i as int, slots as int),
{
    if i < slots - head { head + i } else { i - (slots - head) }
}

impl<const SLOTS: usize, const BYTES: usize> ByteRing<SLOTS, BYTES> {
    /// Queued frames, oldest first.
    pub closed spec fn view(&self) -> Seq<Seq<u8>> {
        Seq::new(self.len as nat, |i: int| self.storage@[ring_slot(self.head as int, i, SLOTS as int)]@)
    }

    /// Whether the ring's storage is consistent.
    pub closed spec fn wf(&self) -> bool {
        &&& self.storage@.len() == SLOTS
        &&& (SLOTS > 0 ==> self.head < SLOTS)
        &&& (SLOTS == 0 ==> self.head == 0)
        &&& self.len <= SLOTS
        &&& forall|i: int| 0 <= i < SLOTS ==> #[trigger] self.storage@[i]@.len() <= BYTES
    }

    /// An empty ring.
    pub fn new() -> (r: Self)
        ensures
            r.wf(),
            r.view() == Seq::<Seq<u8>>::empty(),
    {
        let mut storage: Vec<Vec<u8>> = Vec::new();
        let mut i: usize = 0;
        while i < SLOTS
            invariant
                i <= SLOTS,
                storage@.len() == i,
                forall|k: int| 0 <= k < i ==> #[trigger] storage@[k]@.len() == 0,
            decreases SLOTS - i,
        {
            storage.push(Vec::new());
            i = i + 1;
        }
        let r = ByteRing { storage, head: 0, len: 0 };
        assert(r.view() =~= Seq::<Seq<u8>>::empty());
        r
    }

    /// Queues a copy of `frame`, dropping the oldest frame of a full ring;
    /// refuses a frame longer than `BYTES`; a ring of no slots keeps nothing.
    pub fn push(&mut self, frame: &[u8]) -> (r: Result<(), ByteRingError>)
        requires
            old(self).wf(),
        ensures
            final(self).wf(),
            frame@.len() > BYTES ==> r == Err::<(), ByteRingError>(ByteRingError::FrameTooLarge)
                && final(self).view() == old(self).view(),
            frame@.len() <= BYTES && SLOTS == 0 ==> r is Ok && final(self).view() == old(self).view(),
            frame@.len() <= BYTES && SLOTS > 0 ==> r is Ok
                && final(self).view() == spec_ring_push(old(self).view(), SLOTS as nat, frame@),
    {
        if frame.len() > BYTES {
            return Err(ByteRingError::FrameTooLarge);
        }
        if SLOTS == 0 {
            return Ok(());
        }
        let ghost before = self.view();
        let index = if self.len < SLOTS {
            ring_advance(self.head, self.len, SLOTS)
        } else {
            let current = self.head;
            self.head = ring_advance(self.head, 1, SLOTS);
            current
        };
        let mut copy: Vec<u8> = Vec::new();
        extend_bytes(&mut copy, frame);
        self.storage.set(index, copy);
        if self.len < SLOTS {
            self.len = self.len + 1;
        }
        assert(self.view() =~= spec_ring_push(before, SLOTS as nat, frame@));
        Ok(())
    }

    /// Removes the oldest frame and copies it to the start of `output`;
    /// `None` when the ring is empty. An output shorter than the frame is
    /// refused and the frame stays queued.
    pub fn pop_into(&mut self, output: &mut [u8]) -> (r: Result<Option<usize>, ByteRingError>)
        requires
            old(self).wf(),
        ensures
            final(self).wf(),
            old(self).view().len() == 0 ==> r == Ok::<Option<usize>, ByteRingError>(None)
                && final(self).view() == old(self).view() && final(output)@ == old(output)@,
            old(self).view().len() > 0 && old(self).view()[0].len() > old(output)@.len() ==>
                r == Err::<Option<usize>, ByteRingError>(ByteRingError::OutputTooSmall {
                    required: old(self).view()[0].len() as usize,
                    provided: old(output)@.len() as usize,
                }) && final(self).view() == old(self).view() && final(output)@ == old(output)@,
            old(self).view().len() > 0 && old(self).view()[0].len() <= old(output)@.len() ==>
                r == Ok::<Option<usize>, ByteRingError>(Some(old(self).view()[0].len() as usize))
                && final(self).view() == old(self).view().drop_first()
                && final(output)@ == spliced(old(output)@, 0, old(self).view()[0]),
    {
        if self.len == 0 || SLOTS == 0 {
            return Ok(None);
        }
        let ghost before = self.view();
        let index = self.head;
        let frame_len = self.storage[index].len();
        if frame_len > output.len() {
            return Err(ByteRingError::OutputTooSmall { required: frame_len, provided: output.len() });
        }
        copy_into(output, 0, self.storage[index].as_slice());
        self.storage.set(index, Vec::new());
        self.head = ring_advance(self.head, 1, SLOTS);
        self.len = self.len - 1;
        assert(self.view() =~= before.drop_first());
        Ok(Some(frame_len))
    }

    /// Drops the oldest frame; false when the ring is empty.
    pub fn drop_oldest(&mut self) -> (dropped: bool)
        requires
            old(self).wf(),
        ensures
            final(self).wf(),
            dropped == (old(self).view().len() > 0),
            dropped ==> final(self).view() == old(self).view().drop_first(),
            !dropped ==> final(self).view() == old(self).view(),
    {
        if self.len == 0 || SLOTS == 0 {
            return false;
        }
        let ghost before = self.view();
        let index = self.head;
        self.storage.set(index, Vec::new());
        self.head = ring_advance(self.head, 1, SLOTS);
        self.len = self.len - 1;
        assert(self.view() =~= before.drop_first());
        true
    }

    /// Drops every frame.
    pub fn clear(&mut self)
        requires
            old(self).wf(),
        ensures
            final(self).wf(),
            final(self).view() == Seq::<Seq<u8>>::empty(),
    {
        while self.drop_oldest()
            invariant
                self.wf(),
            ensures
                self.wf(),
                self.view().len() == 0,
            decreases self.view().len(),
        {
        }
        assert(self.view() =~= Seq::<Seq<u8>>::empty());
    }

    /// Number of queued frames.
    pub fn len(&self) -> (n: usize)
        requires
            self.wf(),
        ensures
            n == self.view().len(),
    {
        self.len
    }
}

impl<const SLOTS: usize, const BYTES: usize> Default for ByteRing<SLOTS, BYTES> {
    fn default() -> (r: Self)
        ensures
            r.wf(),
            r.view() == Seq::<Seq<u8>>::empty(),
    {
        Self::new()
    }
}

/// The ring is first-in first-out and bounded: a pushed frame becomes the
/// newest, the frames before it keep their order (the oldest one dropped
/// when the ring was full), and the ring never holds more than its slots.
pub proof fn lemma_ring_fifo(frames: Seq<Seq<u8>>, slots: nat, frame: Seq<u8>)
    requires
        slots > 0,
        frames.len() <= slots,
    ensures
        spec_ring_push(frames, slots, frame).len() <= slots,
        spec_ring_push(frames, slots, frame).last() == frame,
        frames.len() < slots ==> spec_ring_push(frames, slots, frame).drop_last() == frames,
        frames.len() == slots ==> spec_ring_push(frames, slots, frame).drop_last() == frames.drop_first(),
{
    assert(frames.push(frame).drop_last() =~= frames);
    if frames.len() > 0 {
        assert(frames.drop_first().push(frame).drop_last() =~= frames.drop_first());
    }
}


/// The text of a fixed-packet error.
pub open spec fn fixed_packet_error_text(e: FixedPacketError) -> Seq<char> {
    match e {
        FixedPacketError::PacketTooLarge { required, capacity } => "packet exceeds fixed storage: required "@
            + decimal(required as nat) + " bytes but capacity is "@ + decimal(capacity as nat) + ""@,
    }
}

impl FixedPacketError {
    /// The error's text.
    pub fn to_string(&self) -> (s: String)
        ensures
            s@ == fixed_packet_error_text(*self),
    {
        match self {
            FixedPacketError::PacketTooLarge { required, capacity } => with_two_numbers(
                "packet exceeds fixed storage: required ", *required as u64, " bytes but capacity is ", *capacity as u64, ""),
        }
    }
}

} // verus!
