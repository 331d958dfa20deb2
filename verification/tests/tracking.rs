use meme_expert::ingest::{FirehoseTracker, SurvivorPolicy, SurvivorTracker, SIG_CAP};
use meme_expert::pumpportal::{
    method_with_keys, sub_new_token, sub_trades, unsub_trades, Backoff, SubState,
};

fn strings(v: &[&str]) -> Vec<String> {
    v.iter().map(|s| s.to_string()).collect()
}

fn policy(max_subs: usize, flush_rows: usize) -> SurvivorPolicy {
    SurvivorPolicy {
        retention_ms: 24 * 3_600_000,
        survivor_age_ms: 40 * 60_000,
        death_silence_ms: 5 * 60_000,
        death_drawdown_ppm: 250_000,
        max_active_trade_subs: max_subs,
        writer_flush_rows: flush_rows,
    }
}

#[test]
fn request_texts() {
    assert_eq!(sub_new_token(), r#"{"method":"subscribeNewToken"}"#);
    assert_eq!(sub_trades(&strings(&["A", "B"])), r#"{"keys":["A","B"],"method":"subscribeTokenTrade"}"#);
    assert_eq!(unsub_trades(&strings(&["A"])), r#"{"keys":["A"],"method":"unsubscribeTokenTrade"}"#);
    assert_eq!(method_with_keys("m\"x", &strings(&["q\\"])), r#"{"keys":["q\\"],"method":"m\"x"}"#);
    assert_eq!(method_with_keys("m", &[]), r#"{"keys":[],"method":"m"}"#);
}

#[test]
fn subscription_state_round_trip() {
    let mut s = SubState::new();
    assert!(s.resubscribe_frames().is_empty());
    assert_eq!(s.subscribe_new_token(), r#"{"method":"subscribeNewToken"}"#);
    assert_eq!(s.subscribe_trades(&[]), None);
    let f = s.subscribe_trades(&strings(&["A", "B", "A"]));
    assert_eq!(f.as_deref(), Some(r#"{"keys":["A","B","A"],"method":"subscribeTokenTrade"}"#));
    assert_eq!(s.active_trade_subs(), 2);
    assert_eq!(
        s.resubscribe_frames(),
        vec![
            r#"{"method":"subscribeNewToken"}"#.to_string(),
            r#"{"keys":["A","B"],"method":"subscribeTokenTrade"}"#.to_string()
        ]
    );
    assert_eq!(s.unsubscribe_trades(&strings(&["A", "Z"]), false), None);
    assert_eq!(s.active_trade_subs(), 1);
    let f = s.unsubscribe_trades(&strings(&["B"]), true);
    assert_eq!(f.as_deref(), Some(r#"{"keys":["B"],"method":"unsubscribeTokenTrade"}"#));
    assert_eq!(s.active_trade_subs(), 0);
    assert_eq!(s.resubscribe_frames(), vec![r#"{"method":"subscribeNewToken"}"#.to_string()]);
}

#[test]
fn backoff_doubles_caps_and_resets() {
    let mut b = Backoff::new();
    let mut seen = Vec::new();
    for _ in 0..10 {
        seen.push(b.on_disconnect(1_000));
    }
    assert_eq!(seen, vec![500, 1000, 2000, 4000, 8000, 16000, 32000, 60000, 60000, 60000]);
    assert_eq!(b.on_disconnect(30_000_000_001), 500);
    assert_eq!(b.on_disconnect(30_000_000_000), 1000);
}

#[test]
fn launches_subscribe_up_to_the_cap() {
    let mut subs = SubState::new();
    let mut t: SurvivorTracker<u32> = SurvivorTracker::new(policy(2, 100));
    assert_eq!(
        t.on_new_token(&mut subs, "A".to_string(), 0, Some(30)).as_deref(),
        Some(r#"{"keys":["A"],"method":"subscribeTokenTrade"}"#)
    );
    assert!(t.on_new_token(&mut subs, "B".to_string(), 0, None).is_some());
    assert!(t.on_new_token(&mut subs, "C".to_string(), 0, Some(1)).is_none());
    assert_eq!(subs.active_trade_subs(), 2);
    assert_eq!(t.token_count(), 2);
    assert_eq!(t.tokens_seen(), 3);
}

#[test]
fn trades_buffer_and_flush_at_the_row_limit() {
    let mut subs = SubState::new();
    let mut t: SurvivorTracker<u32> = SurvivorTracker::new(policy(10, 3));
    t.on_new_token(&mut subs, "A".to_string(), 0, Some(100));
    assert_eq!(t.on_trade("A", 10, Some(200), 1), None);
    assert_eq!(t.on_trade("X", 11, None, 2), None);
    assert_eq!(t.on_trade("A", 12, Some(50), 3), Some(vec![1, 2, 3]));
    assert_eq!(t.trades_seen(), 3);
    assert_eq!(t.flush(), None);
    assert_eq!(t.on_trade("A", 13, None, 4), None);
    assert_eq!(t.flush(), Some(vec![4]));
}

#[test]
fn sweep_drops_collapsed_and_silent_and_promotes_survivors() {
    let mut subs = SubState::new();
    let mut t: SurvivorTracker<u32> = SurvivorTracker::new(policy(10, 100));
    t.on_new_token(&mut subs, "COLLAPSE".to_string(), 0, Some(100));
    t.on_new_token(&mut subs, "SILENT".to_string(), 0, Some(100));
    t.on_new_token(&mut subs, "ALIVE".to_string(), 0, Some(100));
    t.on_trade("COLLAPSE", 60_000, Some(400), 0);
    t.on_trade("COLLAPSE", 90_000, Some(99), 0); // below a quarter of the 400 peak
    t.on_trade("ALIVE", 200_000, Some(150), 0);
    let r = t.sweep(&mut subs, 240_000); // SILENT: 240 s since launch, silence window is 300 s
    assert_eq!(r.dropped, 1);
    assert_eq!(r.survivors, 0);
    assert_eq!(r.active, 2);
    assert_eq!(r.unsub_frame.as_deref(), Some(r#"{"keys":["COLLAPSE"],"method":"unsubscribeTokenTrade"}"#));
    let r = t.sweep(&mut subs, 400_000);
    assert_eq!(r.dropped, 1);
    assert_eq!(r.unsub_frame.as_deref(), Some(r#"{"keys":["SILENT"],"method":"unsubscribeTokenTrade"}"#));
    assert_eq!(t.token_count(), 1);
    t.on_trade("ALIVE", 2_390_000, Some(150), 0);
    let r = t.sweep(&mut subs, 40 * 60_000);
    assert_eq!((r.dropped, r.survivors, r.active), (0, 1, 1));
    assert!(r.unsub_frame.is_none());
    // a survivor is not judged dead any more, only expired at retention
    let r = t.sweep(&mut subs, 3 * 3_600_000);
    assert_eq!((r.dropped, r.survivors, r.active), (0, 0, 1));
    let r = t.sweep(&mut subs, 24 * 3_600_000);
    assert_eq!((r.dropped, r.survivors, r.active), (1, 0, 0));
    assert_eq!(r.unsub_frame.as_deref(), Some(r#"{"keys":["ALIVE"],"method":"unsubscribeTokenTrade"}"#));
    assert_eq!(t.token_count(), 0);
}

#[test]
fn drawdown_boundary_is_strict() {
    let mut subs = SubState::new();
    let mut t: SurvivorTracker<u32> = SurvivorTracker::new(policy(10, 100));
    t.on_new_token(&mut subs, "EDGE".to_string(), 0, Some(400));
    t.on_trade("EDGE", 1_000, Some(100), 0); // exactly a quarter: not collapsed
    assert_eq!(t.sweep(&mut subs, 2_000).dropped, 0);
    t.on_trade("EDGE", 3_000, Some(99), 0);
    assert_eq!(t.sweep(&mut subs, 4_000).dropped, 1);
}

#[test]
fn firehose_keeps_trades_of_seen_launches_once() {
    let mut f: FirehoseTracker<u32> = FirehoseTracker::new(Some(60_000), 100);
    assert_eq!(f.on_trade("A", 5, None, 0), None);
    f.on_new_token("A".to_string(), 1_000);
    assert_eq!(f.on_trade("A", 2_000, Some("s1".to_string()), 1), None);
    assert_eq!(f.on_trade("A", 2_001, Some("s1".to_string()), 2), None); // replayed
    assert_eq!(f.on_trade("A", 61_000, None, 3), None);
    assert_eq!(f.on_trade("A", 61_001, None, 4), None); // past the early window
    assert_eq!(f.counters(), (1, 5, 2));
    assert_eq!(f.flush(), Some(vec![1, 3]));
    f.on_new_token("B".to_string(), 10_000);
    assert_eq!(f.sweep(5_000), 1);
    assert_eq!(f.token_count(), 1);
    assert_eq!(f.on_trade("A", 2_000, None, 5), None);
    assert_eq!(f.counters(), (2, 6, 2));
    assert!(SIG_CAP >= 1);
}

#[test]
fn firehose_flushes_at_the_row_limit() {
    let mut f: FirehoseTracker<u32> = FirehoseTracker::new(None, 2);
    f.on_new_token("A".to_string(), 0);
    assert_eq!(f.on_trade("A", 1_000_000, None, 1), None);
    assert_eq!(f.on_trade("A", 2_000_000, None, 2), Some(vec![1, 2]));
    assert_eq!(f.flush(), None);
}

#[test]
fn unsubscribing_fresh_mints_restores_the_set() {
    let mut s = SubState::new();
    s.subscribe_trades(&strings(&["A"]));
    s.subscribe_trades(&strings(&["X", "Y"]));
    assert_eq!(s.active_trade_subs(), 3);
    s.unsubscribe_trades(&strings(&["X", "Y"]), true);
    assert_eq!(s.active_trade_subs(), 1);
    assert_eq!(s.resubscribe_frames(), vec![r#"{"keys":["A"],"method":"subscribeTokenTrade"}"#.to_string()]);
}

#[test]
fn relaunch_of_a_watched_mint_starts_over() {
    let mut subs = SubState::new();
    let mut t: SurvivorTracker<u32> = SurvivorTracker::new(policy(10, 100));
    t.on_new_token(&mut subs, "A".to_string(), 0, Some(400));
    t.on_trade("A", 1_000, Some(10), 0); // collapsed against the 400 peak
    t.on_new_token(&mut subs, "A".to_string(), 2_000, Some(10)); // peak starts over at 10
    assert_eq!(t.token_count(), 1);
    assert_eq!(subs.active_trade_subs(), 1);
    assert_eq!(t.sweep(&mut subs, 3_000).dropped, 0);
}
