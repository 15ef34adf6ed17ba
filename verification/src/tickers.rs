//! Ticker rows: recognising ticker messages, reading the funding time, and
//! buffering rows until the next database write.
use vstd::prelude::*;
use crate::clock::{chrono_micros_valid, micros_are_valid};
use crate::json::Json;
use crate::text::{IntErrorKind, is_prefix, parse_i64, parse_int, starts_with, trunc_div};

verus! {

#[verifier::external_type_specification]
#[verifier::external_body]
pub struct ExBigDecimal(bigdecimal::BigDecimal);

/// The `data` member of a ticker message. `nextFundingTime` is the instant as
/// a count of microseconds since the epoch.
#[allow(non_snake_case)]
pub struct Data {
    pub symbol: String,
    pub tickDirection: Option<String>,
    pub price24hPcnt: Option<bigdecimal::BigDecimal>,
    pub lastPrice: Option<bigdecimal::BigDecimal>,
    pub prevPrice24h: Option<bigdecimal::BigDecimal>,
    pub highPrice24h: Option<bigdecimal::BigDecimal>,
    pub lowPrice24h: Option<bigdecimal::BigDecimal>,
    pub prevPrice1h: Option<bigdecimal::BigDecimal>,
    pub markPrice: Option<bigdecimal::BigDecimal>,
    pub indexPrice: Option<bigdecimal::BigDecimal>,
    pub openInterest: Option<bigdecimal::BigDecimal>,
    pub openInterestValue: Option<bigdecimal::BigDecimal>,
    pub turnover24h: Option<bigdecimal::BigDecimal>,
    pub volume24h: Option<bigdecimal::BigDecimal>,
    pub nextFundingTime: Option<i64>,
    pub fundingRate: Option<bigdecimal::BigDecimal>,
    pub bid1Price: Option<bigdecimal::BigDecimal>,
    pub bid1Size: Option<bigdecimal::BigDecimal>,
    pub ask1Price: Option<bigdecimal::BigDecimal>,
    pub ask1Size: Option<bigdecimal::BigDecimal>,
}

/// A ticker message; `ts_millis` is its time in milliseconds since the epoch.
pub struct MessageData {
    pub topic: String,
    pub datatype: String,
    pub data: Data,
    pub cs: i64,
    pub ts_millis: i64,
}

/// A row of the tickers table. Times are counts since the epoch:
/// `nextfundingtime` and `receivedat` in microseconds, `ts_millis` in milliseconds.
pub struct NewMessage {
    pub datatype: String,
    pub symbol: String,
    pub tickdirection: Option<String>,
    pub price24hpcnt: Option<bigdecimal::BigDecimal>,
    pub lastprice: Option<bigdecimal::BigDecimal>,
    pub prevprice24h: Option<bigdecimal::BigDecimal>,
    pub highprice24h: Option<bigdecimal::BigDecimal>,
    pub lowprice24h: Option<bigdecimal::BigDecimal>,
    pub prevprice1h: Option<bigdecimal::BigDecimal>,
    pub markprice: Option<bigdecimal::BigDecimal>,
    pub indexprice: Option<bigdecimal::BigDecimal>,
    pub openinterest: Option<bigdecimal::BigDecimal>,
    pub openinterestvalue: Option<bigdecimal::BigDecimal>,
    pub turnover24h: Option<bigdecimal::BigDecimal>,
    pub volume24h: Option<bigdecimal::BigDecimal>,
    pub nextfundingtime: Option<i64>,
    pub fundingrate: Option<bigdecimal::BigDecimal>,
    pub bid1price: Option<bigdecimal::BigDecimal>,
    pub bid1size: Option<bigdecimal::BigDecimal>,
    pub ask1price: Option<bigdecimal::BigDecimal>,
    pub ask1size: Option<bigdecimal::BigDecimal>,
    pub cs: Option<i64>,
    pub ts_millis: Option<i64>,
    pub endpoint: Option<String>,
    pub receivedat: i64,
}

/// Why a funding time text was refused.
#[derive(Debug, Clone, Copy, PartialEq, Eq, Structural)]
pub enum FundingTimeError {
    /// The text is not a decimal `i64`.
    NotAnInteger(IntErrorKind),
    /// The instant lies outside chrono's range.
    OutOfRange,
}

/// The funding time of a ticker: the text is an integer, which divided by
/// 1000 (toward zero) is the instant in microseconds.
pub open spec fn funding_time(s: Seq<char>) -> Result<i64, FundingTimeError> {
    match parse_int(s, i64::MIN as int, i64::MAX as int) {
        Err(k) => Err(FundingTimeError::NotAnInteger(k)),
        Ok(v) => {
            let m = trunc_div(v, 1000) as i64;
            if chrono_micros_valid(m) {
                Ok(m)
            } else {
                Err(FundingTimeError::OutOfRange)
            }
        },
    }
}

/// Reads the funding time text of a ticker.
pub fn funding_time_micros(s: &str) -> (r: Result<i64, FundingTimeError>)
    ensures
        r == funding_time(s@),
{
    let v = match parse_i64(s) {
        Ok(v) => v,
        Err(k) => {
            return Err(FundingTimeError::NotAnInteger(k));
        },
    };
    let m: i64 = match v.checked_div(1000) {
        Some(m) => m,
        None => {
            return Err(FundingTimeError::OutOfRange);
        },
    };
    assert(m == trunc_div(v as int, 1000));
    if micros_are_valid(m) {
        Ok(m)
    } else {
        Err(FundingTimeError::OutOfRange)
    }
}

/// What a text frame is to the ticker writer.
pub enum TickerRoute {
    /// The text is not JSON; the decoder's description of the fault.
    NotJson(String),
    /// The JSON has no string `topic`.
    NoTopic,
    /// A topic of another kind.
    OtherTopic(String),
    /// A `tickers` topic: the frame is a ticker message.
    Ticker,
}

/// The kind of a decoded frame: `Ticker` when its `topic` starts with `tickers`.
pub open spec fn ticker_route_of(parsed: Result<Json, String>) -> (int, Seq<char>) {
    match parsed {
        Err(e) => (0, e@),
        Ok(v) => match v.at("topic"@).str_view() {
            None => (1, Seq::empty()),
            Some(t) => if is_prefix("tickers"@, t) {
                (3, Seq::empty())
            } else {
                (2, t)
            },
        },
    }
}

/// A route as a number (0 not JSON, 1 no topic, 2 other topic, 3 ticker)
/// and the text it carries.
pub open spec fn ticker_route_view(r: TickerRoute) -> (int, Seq<char>) {
    match r {
        TickerRoute::NotJson(e) => (0, e@),
        TickerRoute::NoTopic => (1, Seq::empty()),
        TickerRoute::OtherTopic(t) => (2, t@),
        TickerRoute::Ticker => (3, Seq::empty()),
    }
}

/// Classifies a decoded text frame for the ticker writer.
pub fn ticker_route(parsed: &Result<Json, String>) -> (r: TickerRoute)
    ensures
        ticker_route_view(r) == ticker_route_of(*parsed),
{
    match parsed {
        Err(e) => TickerRoute::NotJson(e.clone()),
        Ok(v) => match v.str_at("topic") {
            None => TickerRoute::NoTopic,
            Some(t) => if starts_with(t, "tickers") {
                TickerRoute::Ticker
            } else {
                TickerRoute::OtherTopic(t.to_string())
            },
        },
    }
}

/// The row of a ticker message received at `receivedat` from `endpoint`:
/// every field carried over, the check sum and time made optional.
pub open spec fn is_row_of(r: NewMessage, m: MessageData, endpoint: Seq<char>, receivedat: i64) -> bool {
    &&& r.datatype == m.datatype
    &&& r.symbol == m.data.symbol
    &&& r.tickdirection == m.data.tickDirection
    &&& r.price24hpcnt == m.data.price24hPcnt
    &&& r.lastprice == m.data.lastPrice
    &&& r.prevprice24h == m.data.prevPrice24h
    &&& r.highprice24h == m.data.highPrice24h
    &&& r.lowprice24h == m.data.lowPrice24h
    &&& r.prevprice1h == m.data.prevPrice1h
    &&& r.markprice == m.data.markPrice
    &&& r.indexprice == m.data.indexPrice
    &&& r.openinterest == m.data.openInterest
    &&& r.openinterestvalue == m.data.openInterestValue
    &&& r.turnover24h == m.data.turnover24h
    &&& r.volume24h == m.data.volume24h
    &&& r.nextfundingtime == m.data.nextFundingTime
    &&& r.fundingrate == m.data.fundingRate
    &&& r.bid1price == m.data.bid1Price
    &&& r.bid1size == m.data.bid1Size
    &&& r.ask1price == m.data.ask1Price
    &&& r.ask1size == m.data.ask1Size
    &&& r.cs == Some(m.cs)
    &&& r.ts_millis == Some(m.ts_millis)
    &&& (r.endpoint matches Some(e) && e@ == endpoint)
    &&& r.receivedat == receivedat
}

/// The row of a ticker message; the receive time must be a valid instant in
/// microseconds.
pub fn new_message(parsed: MessageData, endpoint: &str, receivedat: i64) -> (r: NewMessage)
    requires
        chrono_micros_valid(receivedat),
    ensures
        is_row_of(r, parsed, endpoint@, receivedat),
{
    let d = parsed.data;
    NewMessage {
        datatype: parsed.datatype,
        symbol: d.symbol,
        tickdirection: d.tickDirection,
        price24hpcnt: d.price24hPcnt,
        lastprice: d.lastPrice,
        prevprice24h: d.prevPrice24h,
        highprice24h: d.highPrice24h,
        lowprice24h: d.lowPrice24h,
        prevprice1h: d.prevPrice1h,
        markprice: d.markPrice,
        indexprice: d.indexPrice,
        openinterest: d.openInterest,
        openinterestvalue: d.openInterestValue,
        turnover24h: d.turnover24h,
        volume24h: d.volume24h,
        nextfundingtime: d.nextFundingTime,
        fundingrate: d.fundingRate,
        bid1price: d.bid1Price,
        bid1size: d.bid1Size,
        ask1price: d.ask1Price,
        ask1size: d.ask1Size,
        cs: Some(parsed.cs),
        ts_millis: Some(parsed.ts_millis),
        endpoint: Some(endpoint.to_string()),
        receivedat,
    }
}

/// Rows waiting for the next database write, in arrival order.
pub struct TickerBuffer {
    pub rows: Vec<NewMessage>,
}

impl TickerBuffer {
    /// An empty buffer.
    pub fn new() -> (r: TickerBuffer)
        ensures
            r.rows@.len() == 0,
    {
        TickerBuffer { rows: Vec::new() }
    }

    /// Buffers the row of a ticker message. A receive time that is not a
    /// valid instant is refused and nothing is buffered.
    pub fn push_ticker(&mut self, parsed: MessageData, endpoint: &str, receivedat: i64) -> (r: bool)
        ensures
            r == chrono_micros_valid(receivedat),
            r ==> final(self).rows@.len() == old(self).rows@.len() + 1 && final(self).rows@.take(
                old(self).rows@.len() as int,
            ) == old(self).rows@ && is_row_of(
                final(self).rows@.last(),
                parsed,
                endpoint@,
                receivedat,
            ),
            !r ==> final(self).rows@ == old(self).rows@,
    {
        if !micros_are_valid(receivedat) {
            return false;
        }
        let row = new_message(parsed, endpoint, receivedat);
        self.rows.push(row);
        assert(self.rows@.take(old(self).rows@.len() as int) =~= old(self).rows@);
        true
    }

    /// Files a text frame received at `receivedat` from `endpoint`: when it is
    /// a ticker message (its `topic` starts with `tickers`) and `decoded`
    /// holds the message read from it, its row is buffered, unless the receive
    /// time is not a valid instant (then the answer is `false`). Any other
    /// frame buffers no row.
    pub fn file_frame(
        &mut self,
        parsed: &Result<Json, String>,
        decoded: Option<MessageData>,
        endpoint: &str,
        receivedat: i64,
    ) -> (r: (TickerRoute, bool))
        ensures
            ticker_route_view(r.0) == ticker_route_of(*parsed),
            match (r.0, decoded) {
                (TickerRoute::Ticker, Some(m)) => {
                    &&& r.1 == chrono_micros_valid(receivedat)
                    &&& r.1 ==> final(self).rows@.len() == old(self).rows@.len() + 1
                        && final(self).rows@.take(old(self).rows@.len() as int) == old(self).rows@
                        && is_row_of(final(self).rows@.last(), m, endpoint@, receivedat)
                    &&& !r.1 ==> final(self).rows@ == old(self).rows@
                },
                _ => r.1 && final(self).rows@ == old(self).rows@,
            },
    {
        let route = ticker_route(parsed);
        match route {
            TickerRoute::Ticker => match decoded {
                Some(m) => {
                    let accepted = self.push_ticker(m, endpoint, receivedat);
                    (route, accepted)
                },
                None => (route, true),
            },
            _ => (route, true),
        }
    }

    /// Hands over every buffered row, in arrival order, and empties the buffer.
    pub fn on_tick(&mut self) -> (r: Vec<NewMessage>)
        ensures
            r@ == old(self).rows@,
            final(self).rows@.len() == 0,
    {
        let mut out: Vec<NewMessage> = Vec::new();
        std::mem::swap(&mut out, &mut self.rows);
        out
    }
}

} // verus!
