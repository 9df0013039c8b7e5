//! The time budget a command runs under, and the capture timestamp of an
//! event.
use vstd::prelude::*;
use vstd::string::StringExecFns;
use std::time::{Instant, SystemTime};
use crate::text::{decimal, push_decimal, push_decimal_wide};
use crate::user::runtime::{io_failure_view, RuntimeError};

verus! {

#[verifier::external_type_specification]
#[verifier::external_body]
pub struct ExInstant(Instant);

#[verifier::external_type_specification]
#[verifier::external_body]
pub struct ExSystemTime(SystemTime);

/// `Instant::now`. Nothing is claimed of the instant.
#[verifier::external_body]
fn instant_now() -> Instant {
    Instant::now()
}

/// `Instant::elapsed`, as whole nanoseconds. Nothing is claimed of the
/// reading: it depends on the clock.
#[verifier::external_body]
fn nanos_since(start: &Instant) -> u128 {
    start.elapsed().as_nanos()
}

/// `SystemTime::now`. Nothing is claimed of the time.
#[verifier::external_body]
pub(crate) fn system_now() -> SystemTime {
    SystemTime::now()
}

/// `SystemTime::duration_since(UNIX_EPOCH)`: whole milliseconds since the
/// epoch, or the error's text when `t` lies before it. Nothing is claimed
/// of either: they depend on the clock.
#[verifier::external_body]
pub(crate) fn millis_since_unix_epoch(t: &SystemTime) -> Result<u128, String> {
    match t.duration_since(std::time::UNIX_EPOCH) {
        Ok(d) => Ok(d.as_millis()),
        Err(e) => Err(e.to_string()),
    }
}

/// The message of a step that ran past its budget.
pub open spec fn over_budget_message(command: Seq<char>, step: Seq<char>, elapsed_ns: nat, timeout_ms: nat) -> Seq<char> {
    command + " "@ + step + " exceeded timeout budget (elapsed="@ + decimal(elapsed_ns / 1_000_000)
        + "ms timeout="@ + decimal(timeout_ms) + "ms)"@
}

/// The verdict on a reading of the clock: an I/O failure when more than
/// `timeout_ms` milliseconds (`elapsed_ns` is in nanoseconds) have passed.
pub fn budget_verdict(command: &str, step: &str, elapsed_ns: u128, timeout_ms: u64) -> (r: Result<(), RuntimeError>)
    ensures
        elapsed_ns > timeout_ms * 1_000_000 ==> (r matches Err(e) && e@ == io_failure_view(
            over_budget_message(command@, step@, elapsed_ns as nat, timeout_ms as nat),
        )),
        elapsed_ns <= timeout_ms * 1_000_000 ==> r is Ok,
{
    let limit = (timeout_ms as u128) * 1_000_000;
    if elapsed_ns > limit {
        let mut m = command.to_owned();
        m.append(" ");
        m.append(step);
        m.append(" exceeded timeout budget (elapsed=");
        push_decimal_wide(&mut m, elapsed_ns / 1_000_000);
        m.append("ms timeout=");
        push_decimal(&mut m, timeout_ms);
        m.append("ms)");
        return Err(RuntimeError::io_failure(m));
    }
    Ok(())
}

/// A time budget started when the command began.
#[derive(Debug)]
pub struct TimeoutBudget {
    start: Instant,
    timeout_ms: u64,
    command: &'static str,
}

impl TimeoutBudget {
    pub closed spec fn spec_timeout_ms(&self) -> u64 {
        self.timeout_ms
    }

    pub closed spec fn spec_command(&self) -> Seq<char> {
        self.command@
    }

    /// Starts a budget of `timeout_ms` milliseconds for `command`; zero
    /// is refused.
    pub fn new(command: &'static str, timeout_ms: u64) -> (r: Result<TimeoutBudget, RuntimeError>)
        ensures
            timeout_ms == 0 ==> (r matches Err(e) && e@ == io_failure_view("timeout-ms must be greater than 0"@)),
            timeout_ms != 0 ==> (r matches Ok(b) && b.spec_timeout_ms() == timeout_ms && b.spec_command() == command@),
    {
        if timeout_ms == 0 {
            return Err(RuntimeError::io_failure("timeout-ms must be greater than 0".to_owned()));
        }
        Ok(TimeoutBudget { start: instant_now(), timeout_ms, command })
    }

    /// Fails with an I/O failure naming `step` when the budget is spent;
    /// the clock decides which.
    pub fn check(&self, step: &str) -> (r: Result<(), RuntimeError>)
        ensures
            r matches Err(e) ==> exists|ns: nat|
                ns > self.spec_timeout_ms() * 1_000_000 && e@ == io_failure_view(
                    #[trigger] over_budget_message(self.spec_command(), step@, ns, self.spec_timeout_ms() as nat),
                ),
    {
        let ns = nanos_since(&self.start);
        let r = budget_verdict(self.command, step, ns, self.timeout_ms);
        proof {
            if r is Err {
                assert(over_budget_message(self.command@, step@, ns as nat, self.timeout_ms as nat)
                    == over_budget_message(self.spec_command(), step@, ns as nat, self.spec_timeout_ms() as nat));
            }
        }
        r
    }
}

/// The text of the capture timestamp `ms` milliseconds after the epoch,
/// or the failure of a clock before it.
pub fn timestamp_from_clock(reading: Result<u128, String>) -> (r: Result<String, RuntimeError>)
    ensures
        reading matches Ok(ms) ==> (r matches Ok(s) && s@ == decimal(ms as nat)),
        reading matches Err(m) ==> (r matches Err(e) && e@ == io_failure_view("system clock before unix epoch: "@ + m@)),
{
    match reading {
        Ok(ms) => {
            let mut s = String::new();
            push_decimal_wide(&mut s, ms);
            assert(s@ =~= decimal(ms as nat));
            Ok(s)
        },
        Err(m) => {
            let mut msg = "system clock before unix epoch: ".to_owned();
            msg.append(m.as_str());
            Err(RuntimeError::io_failure(msg))
        },
    }
}

/// Whether `s` is a timestamp: some number of milliseconds in decimal.
pub open spec fn is_timestamp(s: Seq<char>) -> bool {
    exists|ms: nat| s == decimal(ms)
}

/// The capture timestamp: milliseconds since the epoch in decimal, or an
/// I/O failure when the clock lies before the epoch.
pub fn capture_timestamp() -> (r: Result<String, RuntimeError>)
    ensures
        r matches Ok(s) ==> is_timestamp(s@),
        r matches Err(e) ==> exists|m: Seq<char>| e@ == io_failure_view(#[trigger] ("system clock before unix epoch: "@ + m)),
{
    let now = system_now();
    let reading = millis_since_unix_epoch(&now);
    let ghost seen = reading;
    let r = timestamp_from_clock(reading);
    proof {
        match seen {
            Ok(ms) => {
                assert(r matches Ok(s) && s@ == decimal(ms as nat));
            },
            Err(m) => {
                assert(r matches Err(e) && e@ == io_failure_view("system clock before unix epoch: "@ + m@));
            },
        }
    }
    r
}

} // verus!
