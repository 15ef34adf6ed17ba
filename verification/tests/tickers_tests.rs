use bybit_stream::json::Json;
use bybit_stream::text::IntErrorKind;
use bybit_stream::tickers::{
    funding_time_micros, new_message, ticker_route, Data, FundingTimeError, MessageData, TickerBuffer,
    TickerRoute,
};
use std::str::FromStr;

fn dec(s: &str) -> Option<bigdecimal::BigDecimal> {
    Some(bigdecimal::BigDecimal::from_str(s).unwrap())
}

fn sample(symbol: &str) -> MessageData {
    MessageData {
        topic: format!("tickers.{}", symbol),
        datatype: "snapshot".to_string(),
        data: Data {
            symbol: symbol.to_string(),
            tickDirection: Some("PlusTick".to_string()),
            price24hPcnt: dec("0.017103"),
            lastPrice: dec("17216.00"),
            prevPrice24h: dec("16926.50"),
            highPrice24h: dec("17281.50"),
            lowPrice24h: dec("16915.00"),
            prevPrice1h: dec("17238.00"),
            markPrice: dec("17217.33"),
            indexPrice: dec("17227.36"),
            openInterest: dec("68744.761"),
            openInterestValue: dec("1183601235.91"),
            turnover24h: dec("1570383121.943499"),
            volume24h: dec("91705.276"),
            nextFundingTime: Some(1_673_280_000),
            fundingRate: dec("-0.000212"),
            bid1Price: dec("17215.50"),
            bid1Size: dec("84.489"),
            ask1Price: dec("17216.00"),
            ask1Size: dec("83.020"),
        },
        cs: 24987956059,
        ts_millis: 1673272861686,
    }
}

#[test]
fn funding_times() {
    assert_eq!(funding_time_micros("1673280000000"), Ok(1_673_280_000));
    assert_eq!(funding_time_micros("1999"), Ok(1));
    assert_eq!(funding_time_micros("-1999"), Ok(-1));
    assert_eq!(funding_time_micros("0"), Ok(0));
    assert_eq!(funding_time_micros("abc"), Err(FundingTimeError::NotAnInteger(IntErrorKind::InvalidDigit)));
    assert_eq!(funding_time_micros(""), Err(FundingTimeError::NotAnInteger(IntErrorKind::Empty)));
    assert_eq!(funding_time_micros("9223372036854775807"), Ok(9_223_372_036_854_775));
    assert_eq!(funding_time_micros("9223372036854775808"), Err(FundingTimeError::NotAnInteger(IntErrorKind::PosOverflow)));
}

#[test]
fn ticker_routes() {
    let topic = |t: &str| Ok(Json::Object(vec![("topic".to_string(), Json::Str(t.to_string()))]));
    assert!(matches!(ticker_route(&topic("tickers.BTCUSDT")), TickerRoute::Ticker));
    assert!(matches!(ticker_route(&topic("publicTrade.BTCUSDT")), TickerRoute::OtherTopic(ref t) if t == "publicTrade.BTCUSDT"));
    assert!(matches!(ticker_route(&Ok(Json::Null)), TickerRoute::NoTopic));
    let numeric = Ok(Json::Object(vec![("topic".to_string(), Json::Bool(false))]));
    assert!(matches!(ticker_route(&numeric), TickerRoute::NoTopic));
    assert!(matches!(ticker_route(&Err("bad".to_string())), TickerRoute::NotJson(ref e) if e == "bad"));
}

#[test]
fn rows_carry_every_field() {
    let row = new_message(sample("BTCUSD"), "wss://x/v5/public/linear", 1_700_000_000_000_000);
    assert_eq!(row.symbol, "BTCUSD");
    assert_eq!(row.datatype, "snapshot");
    assert_eq!(row.tickdirection.as_deref(), Some("PlusTick"));
    assert_eq!(row.lastprice, dec("17216.00"));
    assert_eq!(row.fundingrate, dec("-0.000212"));
    assert_eq!(row.nextfundingtime, Some(1_673_280_000));
    assert_eq!(row.cs, Some(24987956059));
    assert_eq!(row.ts_millis, Some(1673272861686));
    assert_eq!(row.endpoint.as_deref(), Some("wss://x/v5/public/linear"));
    assert_eq!(row.receivedat, 1_700_000_000_000_000);
}

#[test]
fn buffer_hands_rows_over_once() {
    let mut b = TickerBuffer::new();
    assert!(b.on_tick().is_empty());
    assert!(b.push_ticker(sample("A"), "e", 1));
    assert!(b.push_ticker(sample("B"), "e", 2));
    assert!(!b.push_ticker(sample("C"), "e", i64::MAX));
    let rows = b.on_tick();
    assert_eq!(rows.iter().map(|r| r.symbol.as_str()).collect::<Vec<_>>(), vec!["A", "B"]);
    assert!(b.on_tick().is_empty());
}

#[test]
fn only_ticker_frames_buffer_rows() {
    let topic = |t: &str| Ok(Json::Object(vec![("topic".to_string(), Json::Str(t.to_string()))]));
    let mut b = TickerBuffer::new();
    let (r, ok) = b.file_frame(&topic("publicTrade.BTCUSDT"), Some(sample("BTCUSDT")), "e", 1);
    assert!(matches!(r, TickerRoute::OtherTopic(ref t) if t == "publicTrade.BTCUSDT") && ok);
    let (r, ok) = b.file_frame(&Ok(Json::Null), Some(sample("BTCUSDT")), "e", 1);
    assert!(matches!(r, TickerRoute::NoTopic) && ok);
    let (r, ok) = b.file_frame(&Err("x".to_string()), Some(sample("BTCUSDT")), "e", 1);
    assert!(matches!(r, TickerRoute::NotJson(_)) && ok);
    let (r, ok) = b.file_frame(&topic("tickers.BTCUSDT"), None, "e", 1);
    assert!(matches!(r, TickerRoute::Ticker) && ok);
    assert!(b.on_tick().is_empty());
    let (r, ok) = b.file_frame(&topic("tickers.BTCUSDT"), Some(sample("BTCUSDT")), "e", i64::MAX);
    assert!(matches!(r, TickerRoute::Ticker) && !ok);
    assert!(b.on_tick().is_empty());
    let (_, ok) = b.file_frame(&topic("tickers.BTCUSDT"), Some(sample("BTCUSDT")), "e", 1_700_000_000_000_000);
    assert!(ok);
    let rows = b.on_tick();
    assert_eq!(rows.len(), 1);
    assert_eq!(rows[0].endpoint.as_deref(), Some("e"));
}
