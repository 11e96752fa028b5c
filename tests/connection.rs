use hang::stats::SyncStats;
use hang::supervisor::{backoff_secs, connection_endpoints, Supervisor};

#[test]
fn backoff_grows_by_five_up_to_thirty() {
    assert_eq!(backoff_secs(0), 0);
    assert_eq!(backoff_secs(1), 5);
    assert_eq!(backoff_secs(3), 15);
    assert_eq!(backoff_secs(6), 30);
    assert_eq!(backoff_secs(60), 30);
}

#[test]
fn endpoints_follow_the_flags() {
    let default = connection_endpoints(false, false);
    assert_eq!(default.len(), 2);
    assert!(default[0].cold_start && !default[1].cold_start);
    let prefer = connection_endpoints(false, true);
    assert!(!prefer[0].cold_start);
    assert_eq!(connection_endpoints(true, true).len(), 1);
}

#[test]
fn supervisor_cycles_and_resets() {
    let mut s = Supervisor::new(connection_endpoints(false, false));
    let d = s.next_dial();
    assert_eq!(d.attempt, 1);
    assert!(d.endpoint.cold_start);
    assert_eq!(s.dial_failed(), 5);
    let d = s.next_dial();
    assert!(!d.endpoint.cold_start);
    assert_eq!(s.dial_failed(), 10);
    assert!(s.next_dial().endpoint.cold_start);
    s.manual_retry();
    assert_eq!(s.next_dial().attempt, 1);
}

#[test]
fn stats_count_and_match_pongs() {
    let mut st = SyncStats::new();
    st.record_outgoing(10, 5);
    st.record_incoming(7, 6);
    st.ping_sent(99, 100);
    st.record_pong(98, 130);
    assert_eq!(st.last_rtt_ms, None);
    st.record_pong(99, 140);
    assert_eq!(st.last_rtt_ms, Some(40));
    st.mark_connected("local".to_string(), 200);
    st.mark_disconnected(300);
    let snap = st.snapshot(350);
    assert_eq!((snap.bytes_out, snap.bytes_in, snap.messages_out, snap.messages_in), (10, 7, 1, 1));
    assert_eq!(snap.reconnect_attempts, 1);
    assert_eq!(snap.last_disconnect_ms, Some(50));
    assert_eq!(snap.connected_duration_ms, None);
    st.record_outgoing(u64::MAX, 400);
    assert_eq!(st.bytes_out, u64::MAX);
}

#[test]
fn dial_status_names_the_attempt() {
    let mut s = Supervisor::new(connection_endpoints(true, false));
    assert_eq!(s.next_dial().status, "Connecting to Render deployment sync server (attempt 1)...");
    for _ in 0..10 {
        s.next_dial();
    }
    let d = s.next_dial();
    assert_eq!(d.status, "Connecting to Render deployment sync server (attempt 12)...");
    assert_eq!(d.endpoint.health_url, "https://letshang.onrender.com/healthz");
}
