//! Traffic statistics of the sync connection. Instants are milliseconds on
//! a monotonic clock, handed in by the caller.
use vstd::prelude::*;

verus! {

/// Counters and instants of the sync connection.
#[derive(Clone, Debug)]
pub struct SyncStats {
    pub bytes_out: u64,
    pub bytes_in: u64,
    pub messages_out: u64,
    pub messages_in: u64,
    pub last_message_at: Option<u64>,
    pub last_ping_sent: Option<u64>,
    pub last_ping_nonce: Option<u64>,
    pub last_rtt_ms: Option<u64>,
    pub last_disconnect_at: Option<u64>,
    pub reconnect_attempts: u32,
    pub connected_since: Option<u64>,
    pub endpoint_label: Option<String>,
}

/// What the statistics look like at one instant.
#[derive(Clone, Debug)]
pub struct SyncStatsSnapshot {
    pub bytes_out: u64,
    pub bytes_in: u64,
    pub messages_out: u64,
    pub messages_in: u64,
    pub last_rtt_ms: Option<u64>,
    pub last_message_age_ms: Option<u64>,
    pub connected_duration_ms: Option<u64>,
    pub reconnect_attempts: u32,
    pub endpoint_label: Option<String>,
    pub last_disconnect_ms: Option<u64>,
}

pub open spec fn plus(a: u64, b: u64) -> u64 {
    if a + b <= u64::MAX {
        (a + b) as u64
    } else {
        u64::MAX
    }
}

pub open spec fn since(then: Option<u64>, now: u64) -> Option<u64> {
    match then {
        Some(t) => Some(if now >= t { (now - t) as u64 } else { 0 }),
        None => None,
    }
}

fn elapsed(then: Option<u64>, now: u64) -> (r: Option<u64>)
    ensures
        r == since(then, now),
{
    match then {
        Some(t) => Some(if now >= t { now - t } else { 0 }),
        None => None,
    }
}

impl SyncStats {
    pub fn new() -> (r: Self)
        ensures
            r.bytes_out == 0 && r.bytes_in == 0 && r.messages_out == 0 && r.messages_in == 0,
            r.reconnect_attempts == 0,
            r.last_ping_nonce is None,
    {
        SyncStats {
            bytes_out: 0,
            bytes_in: 0,
            messages_out: 0,
            messages_in: 0,
            last_message_at: None,
            last_ping_sent: None,
            last_ping_nonce: None,
            last_rtt_ms: None,
            last_disconnect_at: None,
            reconnect_attempts: 0,
            connected_since: None,
            endpoint_label: None,
        }
    }

    /// Counts one frame of `bytes` sent at `now`; counters saturate.
    pub fn record_outgoing(&mut self, bytes: u64, now: u64)
        ensures
            final(self).bytes_out == plus(old(self).bytes_out, bytes),
            final(self).messages_out == plus(old(self).messages_out, 1),
            final(self).last_message_at == Some(now),
            final(self).bytes_in == old(self).bytes_in,
            final(self).messages_in == old(self).messages_in,
    {
        self.bytes_out = self.bytes_out.saturating_add(bytes);
        self.messages_out = self.messages_out.saturating_add(1);
        self.last_message_at = Some(now);
    }

    /// Counts one frame of `bytes` received at `now`; counters saturate.
    pub fn record_incoming(&mut self, bytes: u64, now: u64)
        ensures
            final(self).bytes_in == plus(old(self).bytes_in, bytes),
            final(self).messages_in == plus(old(self).messages_in, 1),
            final(self).last_message_at == Some(now),
            final(self).bytes_out == old(self).bytes_out,
            final(self).messages_out == old(self).messages_out,
    {
        self.bytes_in = self.bytes_in.saturating_add(bytes);
        self.messages_in = self.messages_in.saturating_add(1);
        self.last_message_at = Some(now);
    }

    /// A keepalive ping carrying `nonce` leaves at `now`.
    pub fn ping_sent(&mut self, nonce: u64, now: u64)
        ensures
            final(self).last_ping_nonce == Some(nonce),
            final(self).last_ping_sent == Some(now),
            final(self).last_rtt_ms == old(self).last_rtt_ms,
    {
        self.last_ping_nonce = Some(nonce);
        self.last_ping_sent = Some(now);
    }

    /// A pong carrying `nonce` arrived at `now`. When it answers the last
    /// ping, the round trip is recorded and the ping is settled; other pongs
    /// change nothing.
    pub fn record_pong(&mut self, nonce: u64, now: u64)
        ensures
            old(self).last_ping_nonce == Some(nonce) ==> final(self).last_ping_nonce is None
                && final(self).last_ping_sent is None && final(self).last_rtt_ms == match old(
                self,
            ).last_ping_sent {
                Some(_) => since(old(self).last_ping_sent, now),
                None => old(self).last_rtt_ms,
            },
            old(self).last_ping_nonce != Some(nonce) ==> *final(self) == *old(self),
    {
        if self.last_ping_nonce == Some(nonce) {
            match self.last_ping_sent {
                Some(_) => {
                    self.last_rtt_ms = elapsed(self.last_ping_sent, now);
                },
                None => {},
            }
            self.last_ping_nonce = None;
            self.last_ping_sent = None;
        }
    }

    /// The transport is gone: an outstanding ping will not be answered.
    pub fn clear_transport(&mut self)
        ensures
            final(self).last_ping_nonce is None,
            final(self).last_ping_sent is None,
            final(self).bytes_out == old(self).bytes_out,
            final(self).bytes_in == old(self).bytes_in,
    {
        self.last_ping_nonce = None;
        self.last_ping_sent = None;
    }

    pub fn mark_connected(&mut self, label: String, now: u64)
        ensures
            final(self).connected_since == Some(now),
            final(self).endpoint_label == Some(label),
            final(self).reconnect_attempts == old(self).reconnect_attempts,
    {
        self.connected_since = Some(now);
        self.endpoint_label = Some(label);
    }

    pub fn mark_disconnected(&mut self, now: u64)
        ensures
            final(self).connected_since is None,
            final(self).reconnect_attempts == if old(self).reconnect_attempts < u32::MAX {
                (old(self).reconnect_attempts + 1) as u32
            } else {
                u32::MAX
            },
            final(self).last_disconnect_at == Some(now),
    {
        self.connected_since = None;
        self.reconnect_attempts = self.reconnect_attempts.saturating_add(1);
        self.last_disconnect_at = Some(now);
    }

    /// The statistics as seen at `now`.
    pub fn snapshot(&self, now: u64) -> (r: SyncStatsSnapshot)
        ensures
            r.bytes_out == self.bytes_out,
            r.bytes_in == self.bytes_in,
            r.messages_out == self.messages_out,
            r.messages_in == self.messages_in,
            r.last_rtt_ms == self.last_rtt_ms,
            r.last_message_age_ms == since(self.last_message_at, now),
            r.connected_duration_ms == since(self.connected_since, now),
            r.last_disconnect_ms == since(self.last_disconnect_at, now),
            r.reconnect_attempts == self.reconnect_attempts,
    {
        let label = match &self.endpoint_label {
            Some(l) => Some(l.clone()),
            None => None,
        };
        SyncStatsSnapshot {
            bytes_out: self.bytes_out,
            bytes_in: self.bytes_in,
            messages_out: self.messages_out,
            messages_in: self.messages_in,
            last_rtt_ms: self.last_rtt_ms,
            last_message_age_ms: elapsed(self.last_message_at, now),
            connected_duration_ms: elapsed(self.connected_since, now),
            reconnect_attempts: self.reconnect_attempts,
            endpoint_label: label,
            last_disconnect_ms: elapsed(self.last_disconnect_at, now),
        }
    }
}

} // verus!
