use bybit_stream::buckets::TradeBuckets;
use bybit_stream::json::Json;
use bybit_stream::trades::{aggregate, keep_summary, trade_route, TradeData, TradeMessage, TradeRoute};

fn trade(ts: i64, symbol: &str, price: &str, tick: Option<&str>, block: bool) -> TradeData {
    TradeData {
        timestamp: ts,
        symbol: symbol.to_string(),
        side: "Buy".to_string(),
        volume: "0.01".to_string(),
        price: price.to_string(),
        tick_direction: tick.map(|t| t.to_string()),
        trade_id: format!("{}-{}", symbol, ts),
        block_trade: block,
    }
}

#[test]
fn trade_routes() {
    let topic = |t: &str| Ok(Json::Object(vec![("topic".to_string(), Json::Str(t.to_string()))]));
    assert!(matches!(trade_route(&topic("publicTrade.BTCUSDT")), TradeRoute::Trades));
    assert!(matches!(trade_route(&topic("tickers.BTCUSDT")), TradeRoute::Tickers));
    assert!(matches!(trade_route(&topic("orderbook.50.BTCUSDT")), TradeRoute::Other));
    assert!(matches!(trade_route(&Ok(Json::Null)), TradeRoute::NoTopic));
    assert!(matches!(trade_route(&Err("e".to_string())), TradeRoute::NotJson(_)));
}

#[test]
fn summary_of_a_bucket() {
    let trades = vec![
        trade(9_000, "BTCUSDT", "100.5", Some("PlusTick"), false),
        trade(9_200, "BTCUSDT", "99", None, true),
        trade(9_500, "BTCUSDT", "101", Some("MinusTick"), true),
    ];
    let c = aggregate(&trades, 10_000).unwrap();
    assert_eq!(c.start, 9_000);
    assert_eq!(c.end, 9_500);
    assert_eq!(c.lasttimestamp, 9_500);
    assert_eq!(c.open, "100.5");
    assert_eq!(c.close, "101");
    // Prices are compared as text, as the exchange wrote them.
    assert_eq!(c.high, "99");
    assert_eq!(c.low, "100.5");
    assert_eq!(c.trade_count, 3);
    assert_eq!(c.max_tick_direction.as_deref(), Some("PlusTick"));
    assert_eq!(c.min_tick_direction.as_deref(), Some("MinusTick"));
    assert_eq!(c.block_trade_count, 2);
    assert_eq!(c.bucket_start, 10_000);
    assert_eq!(c.bucket_end, 11_000);
    assert_eq!(c.average_delay, 1_250);
}

#[test]
fn summary_delays_round_toward_zero() {
    let trades = vec![trade(10_001, "X", "1", None, false), trade(11_002, "X", "1", None, false)];
    let c = aggregate(&trades, 10_000).unwrap();
    // (-1 + -2) / 2 rounds toward zero.
    assert_eq!(c.average_delay, -1);
    assert_eq!(c.max_tick_direction, None);
}

#[test]
fn summary_refused_on_overflow() {
    let trades = vec![trade(i64::MIN, "X", "1", None, false)];
    assert!(aggregate(&trades, 10_000).is_none());
    let trades = vec![trade(0, "X", "1", None, false)];
    assert!(aggregate(&trades, i64::MAX).is_none());
}

#[test]
fn summaries_kept_for_two_hundred_hours() {
    let ms = 1_700_000_000_000i64;
    let now = (ms as u128) * 1_000_000;
    assert!(keep_summary(ms, now));
    assert!(keep_summary(ms - 720_000_000, now));
    assert!(!keep_summary(ms - 720_000_001, now));
    // A trade 201 hours old is dropped.
    assert!(!keep_summary(ms, now + 201 * 3600 * 1_000_000_000));
    // A trade time in the future is kept.
    assert!(keep_summary(ms + 5, now));
    // Times before the epoch are measured the same way.
    assert!(keep_summary(-1_000, 0));
    assert!(!keep_summary(-720_000_001, 0));
}

#[test]
fn buckets_collect_and_flush() {
    let mut b = TradeBuckets::new();
    let msg = TradeMessage {
        topic: "publicTrade.BTCUSDT".to_string(),
        ts: 1,
        msg_type: "snapshot".to_string(),
        data: vec![
            trade(9_000, "BTCUSDT", "10", None, false),
            trade(9_100, "ETHUSDT", "2", None, false),
            trade(9_200, "BTCUSDT", "11", None, false),
        ],
    };
    b.add_trades(&msg);
    let mut out = b.flush(10_000);
    out.sort_by(|x, y| x.symbol.cmp(&y.symbol));
    assert_eq!(out.len(), 2);
    assert_eq!(out[0].symbol, "BTCUSDT");
    assert_eq!(out[0].trades.len(), 2);
    assert_eq!(out[0].core.as_ref().unwrap().close, "11");
    assert_eq!(out[1].symbol, "ETHUSDT");
    assert!(b.flush(11_000).is_empty());
    b.add_trades(&TradeMessage { topic: String::new(), ts: 2, msg_type: String::new(), data: vec![trade(1, "ETHUSDT", "3", None, false)] });
    let again = b.flush(12_000);
    assert_eq!(again.len(), 1);
    assert_eq!(again[0].symbol, "ETHUSDT");
}

fn topic_json(t: &str) -> Result<Json, String> {
    Ok(Json::Object(vec![("topic".to_string(), Json::Str(t.to_string()))]))
}

fn message(data: Vec<TradeData>) -> TradeMessage {
    TradeMessage { topic: "publicTrade.X".to_string(), ts: 1, msg_type: "snapshot".to_string(), data }
}

#[test]
fn only_trade_frames_file_trades() {
    let mut b = TradeBuckets::new();
    let m = || message(vec![trade(5, "BTCUSDT", "10", None, false)]);
    assert!(matches!(b.file_frame(&topic_json("tickers.BTCUSDT"), Some(m())), TradeRoute::Tickers));
    assert!(matches!(b.file_frame(&topic_json("orderbook.BTCUSDT"), Some(m())), TradeRoute::Other));
    assert!(matches!(b.file_frame(&Ok(Json::Null), Some(m())), TradeRoute::NoTopic));
    assert!(matches!(b.file_frame(&Err("bad".to_string()), Some(m())), TradeRoute::NotJson(_)));
    assert!(matches!(b.file_frame(&topic_json("publicTrade.BTCUSDT"), None), TradeRoute::Trades));
    assert!(b.flush(10).is_empty());
    assert!(matches!(b.file_frame(&topic_json("publicTrade.BTCUSDT"), Some(m())), TradeRoute::Trades));
    let out = b.flush(10);
    assert_eq!(out.len(), 1);
    assert_eq!(out[0].trades.len(), 1);
}

#[test]
fn every_trade_is_counted_once() {
    let mut b = TradeBuckets::new();
    b.add_trades(&message(vec![trade(1, "A", "1", None, false), trade(2, "B", "1", None, false)]));
    b.add_trades(&message(vec![trade(3, "A", "2", None, false)]));
    let mut out = b.flush(10);
    out.sort_by(|x, y| x.symbol.cmp(&y.symbol));
    assert_eq!(out.iter().map(|s| s.core.as_ref().unwrap().trade_count).collect::<Vec<_>>(), vec![2, 1]);
    assert_eq!(out[0].trades.iter().map(|t| t.timestamp).collect::<Vec<_>>(), vec![1, 3]);
    b.add_trades(&message(vec![trade(4, "B", "1", None, false)]));
    let again = b.flush(20);
    assert_eq!(again.len(), 1);
    assert_eq!(again[0].symbol, "B");
    assert_eq!(again[0].core.as_ref().unwrap().trade_count, 1);
}
