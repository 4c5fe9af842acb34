use std::sync::{Arc, Mutex};
use sysutils::stats::{loss_percent, State};

#[test]
fn loss_of_ten_sent_seven_received_is_thirty() {
    assert_eq!(loss_percent(10, 7), 30);
}

#[test]
fn loss_of_nothing_sent_is_zero() {
    assert_eq!(loss_percent(0, 0), 0);
}

#[test]
fn loss_is_rounded_down() {
    assert_eq!(loss_percent(3, 2), 33);
    assert_eq!(loss_percent(3, 1), 66);
    assert_eq!(loss_percent(7, 0), 100);
    assert_eq!(loss_percent(7, 7), 0);
    assert_eq!(loss_percent(1000, 1), 99);
    assert_eq!(loss_percent(1000, 999), 0);
}

#[test]
fn loss_at_the_limits_of_the_counters() {
    assert_eq!(loss_percent(u32::MAX, 0), 100);
    assert_eq!(loss_percent(u32::MAX, u32::MAX), 0);
    assert_eq!(loss_percent(u32::MAX, 1), 99);
}

#[test]
fn more_replies_than_requests_shows_no_loss() {
    assert_eq!(loss_percent(3, 5), 0);
    assert_eq!(loss_percent(0, 5), 0);
}

#[test]
fn fresh_state_is_all_zero() {
    let state = State::new();
    let snap = state.snapshot();
    assert_eq!(snap.requests_sent, 0);
    assert_eq!(snap.replies_received, 0);
    assert_eq!(snap.min_rtt, None);
    assert_eq!(snap.max_rtt, None);
    assert_eq!(snap.total_rtt, 0);
    assert_eq!(state.requests_sent(), 0);
    assert_eq!(state.replies_received(), 0);
}

#[test]
fn sends_are_counted() {
    let mut state = State::new();
    for n in 1..=5u32 {
        state.record_send();
        assert_eq!(state.requests_sent(), n);
        assert_eq!(state.replies_received(), 0);
    }
}

#[test]
fn replies_fold_into_min_max_and_total() {
    let mut state = State::new();
    for _ in 0..4 {
        state.record_send();
    }
    assert!(state.record_reply(300));
    let snap = state.snapshot();
    assert_eq!((snap.min_rtt, snap.max_rtt, snap.total_rtt), (Some(300), Some(300), 300));
    assert!(state.record_reply(100));
    assert!(state.record_reply(900));
    assert!(state.record_reply(500));
    let snap = state.snapshot();
    assert_eq!(snap.requests_sent, 4);
    assert_eq!(snap.replies_received, 4);
    assert_eq!(snap.min_rtt, Some(100));
    assert_eq!(snap.max_rtt, Some(900));
    assert_eq!(snap.total_rtt, 1800);
}

#[test]
fn total_does_not_overflow_sixty_four_bits() {
    let mut state = State::new();
    for _ in 0..3 {
        state.record_send();
        assert!(state.record_reply(u64::MAX));
    }
    let snap = state.snapshot();
    assert_eq!(snap.total_rtt, 3 * (u64::MAX as u128));
    assert_eq!(snap.min_rtt, Some(u64::MAX));
    assert_eq!(snap.max_rtt, Some(u64::MAX));
}

#[test]
fn a_zero_rtt_is_a_sample_like_any_other() {
    let mut state = State::new();
    state.record_send();
    state.record_send();
    assert!(state.record_reply(5));
    assert!(state.record_reply(0));
    let snap = state.snapshot();
    assert_eq!(snap.min_rtt, Some(0));
    assert_eq!(snap.max_rtt, Some(5));
}

#[test]
fn a_reply_without_a_request_is_not_counted() {
    let mut state = State::new();
    assert!(!state.record_reply(10));
    assert_eq!(state.replies_received(), 0);
    state.record_send();
    assert!(state.record_reply(10));
    assert!(!state.record_reply(20));
    let snap = state.snapshot();
    assert_eq!(snap.requests_sent, 1);
    assert_eq!(snap.replies_received, 1);
    assert_eq!(snap.max_rtt, Some(10));
    assert_eq!(snap.total_rtt, 10);
}

#[test]
fn after_n_cycles_n_requests_and_at_most_n_replies() {
    let mut state = State::new();
    for n in 1..=100u32 {
        state.record_send();
        let mid = state.snapshot();
        assert_eq!(mid.requests_sent, n);
        assert!(mid.replies_received <= n);
        state.record_reply(n as u64);
        let snap = state.snapshot();
        assert_eq!(snap.requests_sent, n);
        assert_eq!(snap.replies_received, n);
    }
}

#[test]
fn interleaved_snapshots_never_show_more_replies_than_requests() {
    // Two users of one lock, each taking it a thousand times: the order in
    // which they get it is replayed here from a fixed pseudo-random stream.
    let shared = Arc::new(Mutex::new(State::new()));
    let writer = Arc::clone(&shared);
    let reader = Arc::clone(&shared);
    let (mut writes, mut reads) = (0u32, 0u32);
    let mut seed: u32 = 2024;
    let mut last = 0;
    while writes < 1000 || reads < 1000 {
        seed = seed.wrapping_mul(1664525).wrapping_add(1013904223);
        let writer_turn = reads >= 1000 || (writes < 1000 && (seed >> 16) % 2 == 0);
        if writer_turn {
            writer.lock().unwrap().record_send();
            if (seed >> 20) % 3 != 0 {
                writer.lock().unwrap().record_reply(seed as u64);
            }
            writes += 1;
        } else {
            let snap = reader.lock().unwrap().snapshot();
            assert!(snap.replies_received <= snap.requests_sent);
            assert!(snap.requests_sent >= last);
            assert_eq!(snap.requests_sent, writes);
            last = snap.requests_sent;
            reads += 1;
        }
    }
    let end = shared.lock().unwrap().snapshot();
    assert_eq!(end.requests_sent, 1000);
    assert!(end.replies_received <= 1000);
}
