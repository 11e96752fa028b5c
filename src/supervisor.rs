//! The client's connection supervisor: which endpoint to dial next, and
//! how long to wait after a failure. The dialing, probing and sleeping are
//! done by the caller.
use vstd::prelude::*;
use crate::room::digit_char;
use crate::text::{push_char, push_str};

verus! {

pub const LOCAL_WS_URL: &'static str = "ws://localhost:3005/ws";

pub const REMOTE_WS_URL: &'static str = "wss://letshang.onrender.com/ws";

/// Attempts beyond this many do not lengthen the wait.
pub const MAX_BACKOFF_STEPS: u32 = 6;

pub const BACKOFF_STEP_SECS: u64 = 5;

/// A sync service to dial.
#[derive(Clone, Copy, Debug, PartialEq, Eq)]
pub struct Endpoint {
    pub label: &'static str,
    pub url: &'static str,
    /// Whether the endpoint may be parked and needs a warm-up request first.
    pub cold_start: bool,
    /// Where the warm-up request goes.
    pub health_url: &'static str,
}

/// The endpoint that runs on this machine.
pub fn local_endpoint() -> (r: Endpoint)
    ensures
        !r.cold_start,
{
    Endpoint {
        label: "local development",
        url: LOCAL_WS_URL,
        cold_start: false,
        health_url: "http://localhost:3005/healthz",
    }
}

/// The hosted endpoint.
pub fn remote_endpoint() -> (r: Endpoint)
    ensures
        r.cold_start,
{
    Endpoint {
        label: "Render deployment",
        url: REMOTE_WS_URL,
        cold_start: true,
        health_url: "https://letshang.onrender.com/healthz",
    }
}

/// The endpoints in the order they are tried: the hosted one, then the
/// local one; the local one first when preferred; never the local one when
/// disabled.
pub fn connection_endpoints(disable_local: bool, prefer_local: bool) -> (r: Vec<Endpoint>)
    ensures
        r@.len() == if disable_local { 1int } else { 2int },
        disable_local ==> r@[0].cold_start,
        !disable_local && prefer_local ==> !r@[0].cold_start && r@[1].cold_start,
        !disable_local && !prefer_local ==> r@[0].cold_start && !r@[1].cold_start,
{
    let mut endpoints: Vec<Endpoint> = Vec::new();
    if prefer_local && !disable_local {
        endpoints.push(local_endpoint());
    }
    endpoints.push(remote_endpoint());
    if !prefer_local && !disable_local {
        endpoints.push(local_endpoint());
    }
    endpoints
}

/// Seconds to wait after the `attempt`-th failed dial: five per attempt, at
/// most thirty.
pub open spec fn backoff(attempt: u32) -> u64 {
    (BACKOFF_STEP_SECS * (if attempt < MAX_BACKOFF_STEPS {
        attempt
    } else {
        MAX_BACKOFF_STEPS
    })) as u64
}

pub fn backoff_secs(attempt: u32) -> (r: u64)
    ensures
        r == backoff(attempt),
        r <= 30,
{
    let capped = if attempt < MAX_BACKOFF_STEPS {
        attempt
    } else {
        MAX_BACKOFF_STEPS
    };
    BACKOFF_STEP_SECS * capped as u64
}

/// The decimal digits of `n`.
pub open spec fn decimal(n: nat) -> Seq<char>
    decreases n,
{
    if n < 10 {
        seq![digit_char(n as int)]
    } else {
        decimal(n / 10).push(digit_char((n % 10) as int))
    }
}

/// Appends the decimal digits of `n` to `s`.
pub fn push_decimal(s: &mut String, n: u32)
    ensures
        final(s)@ == old(s)@ + decimal(n as nat),
    decreases n,
{
    if n >= 10 {
        push_decimal(s, n / 10);
    }
    let d: u8 = 48 + (n % 10) as u8;
    push_char(s, d as char);
    assert(final(s)@ =~= old(s)@ + decimal(n as nat));
}

/// The status line published before a dial.
pub open spec fn connecting_status(label: Seq<char>, attempt: u32) -> Seq<char> {
    "Connecting to "@ + label + " sync server (attempt "@ + decimal(attempt as nat) + ")..."@
}

/// Where the supervisor stands in its round of dials.
pub struct Supervisor {
    pub endpoints: Vec<Endpoint>,
    /// Dials made since the start or the last manual retry.
    pub attempt: u32,
    /// Index of the endpoint to dial next.
    pub next: usize,
}

/// What to do next.
pub struct Dial {
    pub endpoint: Endpoint,
    pub attempt: u32,
    /// The status line to publish.
    pub status: String,
}

impl Supervisor {
    pub open spec fn wf(&self) -> bool {
        self.endpoints@.len() > 0 && self.next < self.endpoints@.len()
    }

    pub fn new(endpoints: Vec<Endpoint>) -> (r: Self)
        requires
            endpoints@.len() > 0,
        ensures
            r.wf(),
            r.attempt == 0,
            r.next == 0,
            r.endpoints == endpoints,
    {
        Supervisor { endpoints, attempt: 0, next: 0 }
    }

    /// The next dial: the next endpoint in order, counted as one more
    /// attempt.
    pub fn next_dial(&mut self) -> (r: Dial)
        requires
            old(self).wf(),
        ensures
            final(self).wf(),
            r.endpoint == old(self).endpoints@[old(self).next as int],
            final(self).attempt == if old(self).attempt < u32::MAX {
                (old(self).attempt + 1) as u32
            } else {
                u32::MAX
            },
            r.attempt == final(self).attempt,
            r.status@ == connecting_status(r.endpoint.label@, r.attempt),
            final(self).next == old(self).next,
            final(self).endpoints == old(self).endpoints,
    {
        if self.attempt < u32::MAX {
            self.attempt = self.attempt + 1;
        }
        let endpoint = self.endpoints[self.next];
        let mut status = String::from_str("Connecting to ");
        push_str(&mut status, endpoint.label);
        push_str(&mut status, " sync server (attempt ");
        push_decimal(&mut status, self.attempt);
        push_str(&mut status, ")...");
        Dial { endpoint, attempt: self.attempt, status }
    }

    /// The dial failed: moves to the following endpoint (back to the first
    /// after the last) and returns the seconds to wait.
    pub fn dial_failed(&mut self) -> (r: u64)
        requires
            old(self).wf(),
        ensures
            final(self).wf(),
            r == backoff(old(self).attempt),
            final(self).next == if old(self).next + 1 < old(self).endpoints@.len() {
                old(self).next + 1
            } else {
                0
            },
            final(self).attempt == old(self).attempt,
            final(self).endpoints == old(self).endpoints,
    {
        self.next = if self.next < self.endpoints.len() - 1 {
            self.next + 1
        } else {
            0
        };
        backoff_secs(self.attempt)
    }

    /// A manual retry: count attempts afresh and start from the first
    /// endpoint.
    pub fn manual_retry(&mut self)
        requires
            old(self).wf(),
        ensures
            final(self).wf(),
            final(self).attempt == 0,
            final(self).next == 0,
            final(self).endpoints == old(self).endpoints,
    {
        self.attempt = 0;
        self.next = 0;
    }
}

} // verus!
