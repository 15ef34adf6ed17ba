use bybit_stream::history::{MessageStore, RETENTION_NANOS};
use bybit_stream::tickers::{Data, MessageData};

fn sample(symbol: &str) -> MessageData {
    MessageData {
        topic: format!("tickers.{}", symbol),
        datatype: "snapshot".to_string(),
        data: Data {
            symbol: symbol.to_string(),
            tickDirection: None,
            price24hPcnt: None,
            lastPrice: None,
            prevPrice24h: None,
            highPrice24h: None,
            lowPrice24h: None,
            prevPrice1h: None,
            markPrice: None,
            indexPrice: None,
            openInterest: None,
            openInterestValue: None,
            turnover24h: None,
            volume24h: None,
            nextFundingTime: None,
            fundingRate: None,
            bid1Price: None,
            bid1Size: None,
            ask1Price: None,
            ask1Size: None,
        },
        cs: 1,
        ts_millis: 1,
    }
}

fn keys(s: &MessageStore) -> Vec<i64> {
    let mut k: Vec<i64> = s.entries.keys().copied().collect();
    k.sort();
    k
}

#[test]
fn messages_expire_after_two_hundred_hours() {
    let mut s = MessageStore::new();
    let t0: i64 = 1_700_000_000_000_000_000;
    s.record(t0, "e".to_string(), sample("A"), t0);
    s.record(t0 + 5, "e".to_string(), sample("B"), t0 + 5);
    assert_eq!(keys(&s), vec![t0, t0 + 5]);
    s.record(t0 + RETENTION_NANOS, "e".to_string(), sample("C"), t0 + RETENTION_NANOS);
    assert_eq!(keys(&s), vec![t0 + 5, t0 + RETENTION_NANOS]);
}

#[test]
fn same_receive_time_replaces() {
    let mut s = MessageStore::new();
    s.record(10, "a".to_string(), sample("A"), 10);
    s.record(10, "b".to_string(), sample("B"), 11);
    assert_eq!(s.entries.len(), 1);
    let (endpoint, data) = s.entries.get(&10).unwrap();
    assert_eq!(endpoint, "b");
    assert_eq!(data.data.symbol, "B");
}

#[test]
fn too_old_message_is_not_kept() {
    let mut s = MessageStore::new();
    s.record(0, "a".to_string(), sample("A"), RETENTION_NANOS);
    assert!(s.entries.is_empty());
    assert!(s.record_fits(0, 5));
    assert!(!s.record_fits(i64::MIN, 5));
}
