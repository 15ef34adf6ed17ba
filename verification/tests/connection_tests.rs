use bybit_stream::connection::{endpoint_uris, renewal_delay_secs, Backoff};
use rand::SeedableRng;

#[test]
fn uris_join_base_and_endpoint() {
    let eps = vec!["public/linear".to_string(), "private".to_string()];
    assert_eq!(
        endpoint_uris("wss://stream.bybit.com/v5/", &eps),
        vec!["wss://stream.bybit.com/v5/public/linear".to_string(), "wss://stream.bybit.com/v5/private".to_string()]
    );
    assert!(endpoint_uris("x", &vec![]).is_empty());
}

#[test]
fn backoff_doubles_and_caps() {
    let mut b = Backoff::new();
    let mut waits: Vec<u64> = Vec::new();
    for _ in 0..13 {
        waits.push(b.wait_after_attempt(false, 0));
    }
    assert_eq!(waits, vec![1, 2, 4, 8, 16, 32, 64, 128, 256, 512, 1024, 1024, 1024]);
    assert_eq!(b.retry_delay, 8192);
    assert_eq!(b.next_wait(5), 1029);
    // A connection starts the delay over: the wait after it is one second.
    assert_eq!(b.wait_after_attempt(true, 3), 4);
    assert_eq!(b.retry_delay, 2);
    assert_eq!(b.wait_after_attempt(false, 0), 2);
}

#[test]
fn backoff_waits_before_it_stops() {
    let mut b = Backoff::new();
    for _ in 0..63 {
        assert!(b.can_double());
        b.wait_after_attempt(false, 0);
    }
    assert_eq!(b.retry_delay, 1u64 << 63);
    assert!(!b.can_double());
    // The last wait is still computed; only the doubling after it is refused.
    assert_eq!(b.next_wait(2), 1026);
    // A connection still resets the delay.
    assert_eq!(b.wait_after_attempt(true, 0), 1);
}

#[test]
fn random_waits_stay_in_range() {
    let mut rng = rand::rngs::StdRng::seed_from_u64(7);
    let mut b = Backoff::new();
    for k in 0..20u32 {
        let base = std::cmp::min(1u64 << k, 1024);
        let w = b.wait_after_attempt_random(false, &mut rng);
        assert!(w >= base && w <= base + 5, "wait {} at step {}", w, k);
    }
    for _ in 0..100 {
        let d = renewal_delay_secs();
        assert!((14400..64800).contains(&d));
    }
}
