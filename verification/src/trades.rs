//! Public trades: recognising trade messages, collecting trades per symbol,
//! and summarising each symbol's trades once per second.
use vstd::prelude::*;
use crate::json::Json;
use crate::text::{
    is_prefix,
    lemma_lex_asymmetric,
    lemma_lex_total,
    lemma_lex_transitive,
    lex_lt,
    starts_with,
    str_lt,
    trunc_div,
};

verus! {

/// One public trade. Prices and sizes are kept as the exchange wrote them.
pub struct TradeData {
    pub timestamp: i64,
    pub symbol: String,
    pub side: String,
    pub volume: String,
    pub price: String,
    pub tick_direction: Option<String>,
    pub trade_id: String,
    pub block_trade: bool,
}

/// A message of a `publicTrade` topic.
pub struct TradeMessage {
    pub topic: String,
    pub ts: i64,
    pub msg_type: String,
    pub data: Vec<TradeData>,
}

/// What a text frame is to the trade processor.
pub enum TradeRoute {
    /// The text is not JSON; the decoder's description of the fault.
    NotJson(String),
    /// The JSON has no string `topic`.
    NoTopic,
    /// A `publicTrade` topic: the frame is a trade message.
    Trades,
    /// A `tickers` topic, which the trade processor passes over.
    Tickers,
    /// Any other topic.
    Other,
}

/// The kind of a decoded frame by the start of its `topic` (0 not JSON,
/// 1 no topic, 2 trades, 3 tickers, 4 other).
pub open spec fn trade_route_of(parsed: Result<Json, String>) -> int {
    match parsed {
        Err(_) => 0,
        Ok(v) => match v.at("topic"@).str_view() {
            None => 1,
            Some(t) => if is_prefix("publicTrade"@, t) {
                2
            } else if is_prefix("tickers"@, t) {
                3
            } else {
                4
            },
        },
    }
}

/// The number of a route, as `trade_route_of` numbers them.
pub open spec fn trade_route_number(r: TradeRoute) -> int {
    match r {
        TradeRoute::NotJson(_) => 0,
        TradeRoute::NoTopic => 1,
        TradeRoute::Trades => 2,
        TradeRoute::Tickers => 3,
        TradeRoute::Other => 4,
    }
}

/// Classifies a decoded text frame for the trade processor.
pub fn trade_route(parsed: &Result<Json, String>) -> (r: TradeRoute)
    ensures
        trade_route_number(r) == trade_route_of(*parsed),
        r matches TradeRoute::NotJson(e) ==> *parsed matches Err(f) && e@ == f@,
{
    match parsed {
        Err(e) => TradeRoute::NotJson(e.clone()),
        Ok(v) => match v.str_at("topic") {
            None => TradeRoute::NoTopic,
            Some(t) => if starts_with(t, "publicTrade") {
                TradeRoute::Trades
            } else if starts_with(t, "tickers") {
                TradeRoute::Tickers
            } else {
                TradeRoute::Other
            },
        },
    }
}

/// The prices of the trades, in order.
pub open spec fn prices(trades: Seq<TradeData>) -> Seq<Seq<char>> {
    trades.map_values(|t: TradeData| t.price@)
}

/// The greatest text in lexicographic order (the last of equal ones).
pub open spec fn text_max(s: Seq<Seq<char>>) -> Seq<char>
    decreases s.len(),
{
    if s.len() <= 1 {
        s[0]
    } else {
        let m = text_max(s.drop_last());
        if lex_lt(s.last(), m) {
            m
        } else {
            s.last()
        }
    }
}

/// The least text in lexicographic order (the first of equal ones).
pub open spec fn text_min(s: Seq<Seq<char>>) -> Seq<char>
    decreases s.len(),
{
    if s.len() <= 1 {
        s[0]
    } else {
        let m = text_min(s.drop_last());
        if lex_lt(s.last(), m) {
            s.last()
        } else {
            m
        }
    }
}

/// The highest price text is one of the prices and none comes after it.
pub proof fn lemma_text_max(s: Seq<Seq<char>>)
    requires
        s.len() > 0,
    ensures
        s.contains(text_max(s)),
        forall|i: int| 0 <= i < s.len() ==> !lex_lt(text_max(s), #[trigger] s[i]),
    decreases s.len(),
{
    if s.len() == 1 {
        assert(s[0] == text_max(s));
        assert(!lex_lt(s[0], s[0])) by {
            crate::text::lemma_lex_irreflexive(s[0]);
        }
    } else {
        let f = s.drop_last();
        lemma_text_max(f);
        let m = text_max(f);
        let k = choose|k: int| 0 <= k < f.len() && f[k] == m;
        assert(s[k] == m);
        if lex_lt(s.last(), m) {
            assert forall|i: int| 0 <= i < s.len() implies !lex_lt(m, #[trigger] s[i]) by {
                if i < s.len() - 1 {
                    assert(s[i] == f[i]);
                } else {
                    lemma_lex_asymmetric(s.last(), m);
                }
            }
        } else {
            lemma_lex_total(s.last(), m);
            assert(s[s.len() - 1] == s.last());
            assert forall|i: int| 0 <= i < s.len() implies !lex_lt(s.last(), #[trigger] s[i]) by {
                if i < s.len() - 1 {
                    assert(s[i] == f[i]);
                    assert(!lex_lt(m, f[i]));
                    if lex_lt(s.last(), s[i]) && lex_lt(m, s.last()) {
                        lemma_lex_transitive(m, s.last(), s[i]);
                    }
                } else {
                    crate::text::lemma_lex_irreflexive(s.last());
                }
            }
        }
    }
}

/// The lowest price text is one of the prices and none comes before it.
pub proof fn lemma_text_min(s: Seq<Seq<char>>)
    requires
        s.len() > 0,
    ensures
        s.contains(text_min(s)),
        forall|i: int| 0 <= i < s.len() ==> !lex_lt(#[trigger] s[i], text_min(s)),
    decreases s.len(),
{
    if s.len() == 1 {
        assert(s[0] == text_min(s));
        assert(!lex_lt(s[0], s[0])) by {
            crate::text::lemma_lex_irreflexive(s[0]);
        }
    } else {
        let f = s.drop_last();
        lemma_text_min(f);
        let m = text_min(f);
        let k = choose|k: int| 0 <= k < f.len() && f[k] == m;
        assert(s[k] == m);
        if lex_lt(s.last(), m) {
            assert(s[s.len() - 1] == s.last());
            assert forall|i: int| 0 <= i < s.len() implies !lex_lt(#[trigger] s[i], s.last()) by {
                if i < s.len() - 1 {
                    assert(s[i] == f[i]);
                    assert(!lex_lt(f[i], m));
                    if lex_lt(s[i], s.last()) {
                        lemma_lex_transitive(s[i], s.last(), m);
                    }
                } else {
                    crate::text::lemma_lex_irreflexive(s.last());
                }
            }
        } else {
            assert forall|i: int| 0 <= i < s.len() implies !lex_lt(#[trigger] s[i], m) by {
                if i < s.len() - 1 {
                    assert(s[i] == f[i]);
                }
            }
        }
    }
}

/// The greatest tick direction among the trades that carry one.
pub open spec fn tick_max(trades: Seq<TradeData>) -> Option<Seq<char>>
    decreases trades.len(),
{
    if trades.len() == 0 {
        None
    } else {
        let m = tick_max(trades.drop_last());
        match trades.last().tick_direction {
            None => m,
            Some(t) => match m {
                None => Some(t@),
                Some(x) => if lex_lt(t@, x) {
                    Some(x)
                } else {
                    Some(t@)
                },
            },
        }
    }
}

/// The least tick direction among the trades that carry one.
pub open spec fn tick_min(trades: Seq<TradeData>) -> Option<Seq<char>>
    decreases trades.len(),
{
    if trades.len() == 0 {
        None
    } else {
        let m = tick_min(trades.drop_last());
        match trades.last().tick_direction {
            None => m,
            Some(t) => match m {
                None => Some(t@),
                Some(x) => if lex_lt(t@, x) {
                    Some(t@)
                } else {
                    Some(x)
                },
            },
        }
    }
}

/// Whether `t` carries the tick direction `d`.
pub open spec fn has_tick(t: TradeData, d: Seq<char>) -> bool {
    t.tick_direction matches Some(x) && x@ == d
}

/// The greatest tick direction is absent exactly when no trade carries one;
/// otherwise it is the direction of one of the trades and no trade's
/// direction comes after it.
pub proof fn lemma_tick_max(trades: Seq<TradeData>)
    ensures
        tick_max(trades) is None <==> forall|i: int|
            0 <= i < trades.len() ==> (#[trigger] trades[i]).tick_direction is None,
        tick_max(trades) matches Some(m) ==> exists|i: int|
            0 <= i < trades.len() && has_tick(#[trigger] trades[i], m),
        tick_max(trades) matches Some(m) ==> forall|i: int|
            0 <= i < trades.len() && (#[trigger] trades[i]).tick_direction is Some ==> !lex_lt(
                m,
                trades[i].tick_direction->0@,
            ),
    decreases trades.len(),
{
    if trades.len() > 0 {
        let f = trades.drop_last();
        let n = trades.len() - 1;
        lemma_tick_max(f);
        assert forall|i: int| 0 <= i < n implies trades[i] == f[i] by {}
        assert(trades[n] == trades.last());
        match trades.last().tick_direction {
            None => {
                match tick_max(f) {
                    Some(m) => {
                        let k = choose|k: int| 0 <= k < f.len() && has_tick(#[trigger] f[k], m);
                        assert(has_tick(trades[k], m));
                    },
                    None => {},
                }
            },
            Some(t) => {
                match tick_max(f) {
                    None => {
                        assert(has_tick(trades[n], t@));
                        assert forall|i: int|
                            0 <= i < trades.len() && (#[trigger] trades[i]).tick_direction is Some
                                implies !lex_lt(t@, trades[i].tick_direction->0@) by {
                            if i < n {
                                assert(f[i].tick_direction is None);
                            } else {
                                crate::text::lemma_lex_irreflexive(t@);
                            }
                        }
                    },
                    Some(x) => {
                        let k = choose|k: int| 0 <= k < f.len() && has_tick(#[trigger] f[k], x);
                        assert(has_tick(trades[k], x));
                        if lex_lt(t@, x) {
                            assert forall|i: int|
                                0 <= i < trades.len() && (#[trigger] trades[i]).tick_direction is Some
                                    implies !lex_lt(x, trades[i].tick_direction->0@) by {
                                if i < n {
                                    assert(f[i] == trades[i]);
                                } else {
                                    lemma_lex_asymmetric(t@, x);
                                }
                            }
                        } else {
                            assert(has_tick(trades[n], t@));
                            lemma_lex_total(t@, x);
                            assert forall|i: int|
                                0 <= i < trades.len() && (#[trigger] trades[i]).tick_direction is Some
                                    implies !lex_lt(t@, trades[i].tick_direction->0@) by {
                                if i < n {
                                    assert(f[i] == trades[i]);
                                    let d = trades[i].tick_direction->0@;
                                    assert(!lex_lt(x, d));
                                    if lex_lt(t@, d) && lex_lt(x, t@) {
                                        lemma_lex_transitive(x, t@, d);
                                    }
                                } else {
                                    crate::text::lemma_lex_irreflexive(t@);
                                }
                            }
                        }
                    },
                }
            },
        }
    }
}

/// The least tick direction is absent exactly when no trade carries one;
/// otherwise it is the direction of one of the trades and no trade's
/// direction comes before it.
pub proof fn lemma_tick_min(trades: Seq<TradeData>)
    ensures
        tick_min(trades) is None <==> forall|i: int|
            0 <= i < trades.len() ==> (#[trigger] trades[i]).tick_direction is None,
        tick_min(trades) matches Some(m) ==> exists|i: int|
            0 <= i < trades.len() && has_tick(#[trigger] trades[i], m),
        tick_min(trades) matches Some(m) ==> forall|i: int|
            0 <= i < trades.len() && (#[trigger] trades[i]).tick_direction is Some ==> !lex_lt(
                trades[i].tick_direction->0@,
                m,
            ),
    decreases trades.len(),
{
    if trades.len() > 0 {
        let f = trades.drop_last();
        let n = trades.len() - 1;
        lemma_tick_min(f);
        assert forall|i: int| 0 <= i < n implies trades[i] == f[i] by {}
        assert(trades[n] == trades.last());
        match trades.last().tick_direction {
            None => {
                match tick_min(f) {
                    Some(m) => {
                        let k = choose|k: int| 0 <= k < f.len() && has_tick(#[trigger] f[k], m);
                        assert(has_tick(trades[k], m));
                    },
                    None => {},
                }
            },
            Some(t) => {
                match tick_min(f) {
                    None => {
                        assert(has_tick(trades[n], t@));
                        assert forall|i: int|
                            0 <= i < trades.len() && (#[trigger] trades[i]).tick_direction is Some
                                implies !lex_lt(trades[i].tick_direction->0@, t@) by {
                            if i < n {
                                assert(f[i].tick_direction is None);
                            } else {
                                crate::text::lemma_lex_irreflexive(t@);
                            }
                        }
                    },
                    Some(x) => {
                        let k = choose|k: int| 0 <= k < f.len() && has_tick(#[trigger] f[k], x);
                        assert(has_tick(trades[k], x));
                        if lex_lt(t@, x) {
                            assert(has_tick(trades[n], t@));
                            assert forall|i: int|
                                0 <= i < trades.len() && (#[trigger] trades[i]).tick_direction is Some
                                    implies !lex_lt(trades[i].tick_direction->0@, t@) by {
                                if i < n {
                                    assert(f[i] == trades[i]);
                                    let d = trades[i].tick_direction->0@;
                                    assert(!lex_lt(d, x));
                                    if lex_lt(d, t@) {
                                        lemma_lex_transitive(d, t@, x);
                                    }
                                } else {
                                    crate::text::lemma_lex_irreflexive(t@);
                                }
                            }
                        } else {
                            assert forall|i: int|
                                0 <= i < trades.len() && (#[trigger] trades[i]).tick_direction is Some
                                    implies !lex_lt(trades[i].tick_direction->0@, x) by {
                                if i < n {
                                    assert(f[i] == trades[i]);
                                }
                            }
                        }
                    },
                }
            },
        }
    }
}

/// How many of the trades are block trades.
pub open spec fn block_count(trades: Seq<TradeData>) -> nat
    decreases trades.len(),
{
    if trades.len() == 0 {
        0
    } else {
        block_count(trades.drop_last()) + if trades.last().block_trade {
            1nat
        } else {
            0nat
        }
    }
}

/// The length of a summary bucket in milliseconds.
pub const BUCKET_MS: i64 = 1000;

/// The mean of the delays from the first trade to the bucket's start and
/// from the last trade to its end, rounded toward zero; `None` when a step
/// of that computation leaves `i64`.
pub open spec fn average_delay(bucket_start: int, first: int, last: int) -> Option<int> {
    let bucket_end = bucket_start + BUCKET_MS;
    let start_delay = bucket_start - first;
    let end_delay = bucket_end - last;
    let sum = start_delay + end_delay;
    if bucket_end > i64::MAX || start_delay < i64::MIN || start_delay > i64::MAX || end_delay
        < i64::MIN || end_delay > i64::MAX || sum < i64::MIN || sum > i64::MAX {
        None
    } else {
        Some(trunc_div(sum, 2))
    }
}

/// The summary of one symbol's trades in one bucket, without the quantities
/// that are sums of decimal fractions.
pub struct AggregateCore {
    pub start: i64,
    pub end: i64,
    pub open: String,
    pub close: String,
    pub high: String,
    pub low: String,
    pub lasttimestamp: i64,
    pub trade_count: usize,
    pub max_tick_direction: Option<String>,
    pub min_tick_direction: Option<String>,
    pub block_trade_count: usize,
    pub bucket_start: i64,
    pub bucket_end: i64,
    pub average_delay: i64,
}

/// The view of an optional text.
pub open spec fn opt_text(o: Option<String>) -> Option<Seq<char>> {
    match o {
        Some(s) => Some(s@),
        None => None,
    }
}

/// `c` summarises `trades` for the bucket starting at `bucket_start`: first
/// and last trade times and prices, highest and lowest price text, count,
/// tick direction extremes, block trades, bucket bounds and mean delay.
pub open spec fn summarises(c: AggregateCore, trades: Seq<TradeData>, bucket_start: i64) -> bool {
    &&& trades.len() > 0
    &&& c.start == trades[0].timestamp
    &&& c.end == trades.last().timestamp
    &&& c.lasttimestamp == trades.last().timestamp
    &&& c.open@ == trades[0].price@
    &&& c.close@ == trades.last().price@
    &&& c.high@ == text_max(prices(trades))
    &&& c.low@ == text_min(prices(trades))
    &&& c.trade_count == trades.len()
    &&& opt_text(c.max_tick_direction) == tick_max(trades)
    &&& opt_text(c.min_tick_direction) == tick_min(trades)
    &&& c.block_trade_count == block_count(trades)
    &&& c.bucket_start == bucket_start
    &&& c.bucket_end == bucket_start + BUCKET_MS
    &&& Some(c.average_delay as int) == average_delay(
        bucket_start as int,
        trades[0].timestamp as int,
        trades.last().timestamp as int,
    )
}

/// Of a summary of a bucket: the high and low prices are prices of its
/// trades with none above the high and none below the low; the greatest and
/// least tick directions are absent exactly when no trade carries one, and
/// otherwise are directions of its trades with none after the greatest and
/// none before the least; the trade count is the number of trades.
pub proof fn lemma_summary_extremes(c: AggregateCore, trades: Seq<TradeData>, bucket_start: i64)
    requires
        summarises(c, trades, bucket_start),
    ensures
        exists|i: int| 0 <= i < trades.len() && (#[trigger] trades[i]).price@ == c.high@,
        forall|i: int| 0 <= i < trades.len() ==> !lex_lt(c.high@, (#[trigger] trades[i]).price@),
        exists|i: int| 0 <= i < trades.len() && (#[trigger] trades[i]).price@ == c.low@,
        forall|i: int| 0 <= i < trades.len() ==> !lex_lt((#[trigger] trades[i]).price@, c.low@),
        c.max_tick_direction is None <==> forall|i: int|
            0 <= i < trades.len() ==> (#[trigger] trades[i]).tick_direction is None,
        c.min_tick_direction is None <==> forall|i: int|
            0 <= i < trades.len() ==> (#[trigger] trades[i]).tick_direction is None,
        c.max_tick_direction matches Some(m) ==> (exists|i: int|
            0 <= i < trades.len() && has_tick(#[trigger] trades[i], m@)) && forall|i: int|
            0 <= i < trades.len() && (#[trigger] trades[i]).tick_direction is Some ==> !lex_lt(
                m@,
                trades[i].tick_direction->0@,
            ),
        c.min_tick_direction matches Some(m) ==> (exists|i: int|
            0 <= i < trades.len() && has_tick(#[trigger] trades[i], m@)) && forall|i: int|
            0 <= i < trades.len() && (#[trigger] trades[i]).tick_direction is Some ==> !lex_lt(
                trades[i].tick_direction->0@,
                m@,
            ),
        c.trade_count == trades.len(),
{
    let ps = prices(trades);
    lemma_text_max(ps);
    lemma_text_min(ps);
    lemma_tick_max(trades);
    lemma_tick_min(trades);
    assert forall|i: int| 0 <= i < trades.len() implies ps[i] == (#[trigger] trades[i]).price@ by {}
    let kh = choose|k: int| 0 <= k < ps.len() && ps[k] == text_max(ps);
    assert(trades[kh].price@ == c.high@);
    let kl = choose|k: int| 0 <= k < ps.len() && ps[k] == text_min(ps);
    assert(trades[kl].price@ == c.low@);
    assert forall|i: int| 0 <= i < trades.len() implies !lex_lt(c.high@, (#[trigger] trades[i]).price@) by {
        assert(!lex_lt(text_max(ps), ps[i]));
    }
    assert forall|i: int| 0 <= i < trades.len() implies !lex_lt((#[trigger] trades[i]).price@, c.low@) by {
        assert(!lex_lt(ps[i], text_min(ps)));
    }
}

fn mean_delay(bucket_start: i64, first: i64, last: i64) -> (r: Option<i64>)
    ensures
        match average_delay(bucket_start as int, first as int, last as int) {
            Some(d) => r == Some(d as i64),
            None => r is None,
        },
{
    let bucket_end = bucket_start.checked_add(BUCKET_MS)?;
    let start_delay = bucket_start.checked_sub(first)?;
    let end_delay = bucket_end.checked_sub(last)?;
    let sum = start_delay.checked_add(end_delay)?;
    let d = sum.checked_div(2)?;
    Some(d)
}

fn clone_opt(o: &Option<String>) -> (r: Option<String>)
    ensures
        opt_text(r) == opt_text(*o),
{
    match o {
        Some(s) => Some(s.clone()),
        None => None,
    }
}

/// Summarises a non-empty bucket of trades; `None` when the mean delay
/// cannot be computed within `i64` (the computation would overflow).
pub fn aggregate(trades: &Vec<TradeData>, bucket_start: i64) -> (r: Option<AggregateCore>)
    requires
        trades@.len() > 0,
    ensures
        average_delay(
            bucket_start as int,
            trades@[0].timestamp as int,
            trades@.last().timestamp as int,
        ) is None <==> r is None,
        r matches Some(c) ==> summarises(c, trades@, bucket_start),
{
    let n = trades.len();
    let first = &trades[0];
    let last = &trades[n - 1];
    let average = mean_delay(bucket_start, first.timestamp, last.timestamp)?;
    let mut high: &String = &first.price;
    let mut low: &String = &first.price;
    let mut tmax: Option<String> = clone_opt(&first.tick_direction);
    let mut tmin: Option<String> = clone_opt(&first.tick_direction);
    let mut blocks: usize = if first.block_trade {
        1
    } else {
        0
    };
    let ghost ps = prices(trades@);
    assert(trades@.take(1).drop_last() =~= Seq::<TradeData>::empty());
    assert(trades@.take(1).last() == *first);
    assert(tick_max(trades@.take(1).drop_last()) is None);
    assert(tick_min(trades@.take(1).drop_last()) is None);
    assert(block_count(trades@.take(1).drop_last()) == 0);
    assert(tick_max(trades@.take(1)) == opt_text(first.tick_direction));
    assert(tick_min(trades@.take(1)) == opt_text(first.tick_direction));
    assert(prices(trades@).take(1) =~= seq![first.price@]);
    let mut i: usize = 1;
    while i < n
        invariant
            n == trades@.len(),
            1 <= i <= n,
            ps == prices(trades@),
            high@ == text_max(ps.take(i as int)),
            low@ == text_min(ps.take(i as int)),
            opt_text(tmax) == tick_max(trades@.take(i as int)),
            opt_text(tmin) == tick_min(trades@.take(i as int)),
            blocks == block_count(trades@.take(i as int)),
            blocks <= i,
        decreases n - i,
    {
        let t = &trades[i];
        let ghost tp = ps.take(i + 1);
        assert(tp.drop_last() =~= ps.take(i as int));
        assert(tp.last() == t.price@);
        let ghost tt = trades@.take(i + 1);
        assert(tt.drop_last() =~= trades@.take(i as int));
        assert(tt.last() == *t);
        if !str_lt(t.price.as_str(), high.as_str()) {
            high = &t.price;
        }
        if str_lt(t.price.as_str(), low.as_str()) {
            low = &t.price;
        }
        match &t.tick_direction {
            None => {},
            Some(d) => {
                tmax = match tmax {
                    None => Some(d.clone()),
                    Some(x) => if str_lt(d.as_str(), x.as_str()) {
                        Some(x)
                    } else {
                        Some(d.clone())
                    },
                };
                tmin = match tmin {
                    None => Some(d.clone()),
                    Some(x) => if str_lt(d.as_str(), x.as_str()) {
                        Some(d.clone())
                    } else {
                        Some(x)
                    },
                };
            },
        }
        if t.block_trade {
            blocks = blocks + 1;
        }
        i += 1;
    }
    assert(ps.take(n as int) =~= ps);
    assert(trades@.take(n as int) =~= trades@);
    Some(
        AggregateCore {
            start: first.timestamp,
            end: last.timestamp,
            open: first.price.clone(),
            close: last.price.clone(),
            high: high.clone(),
            low: low.clone(),
            lasttimestamp: last.timestamp,
            trade_count: n,
            max_tick_direction: tmax,
            min_tick_direction: tmin,
            block_trade_count: blocks,
            bucket_start,
            bucket_end: bucket_start + BUCKET_MS,
            average_delay: average,
        },
    )
}

/// How long a summary is kept, in nanoseconds (200 hours).
pub const SUMMARY_MAX_AGE_NANOS: u128 = 720_000_000_000_000;

/// Whether a summary is still kept at `now_nanos` (nanoseconds since the
/// epoch): its last trade time, in milliseconds since the epoch, is at most
/// 200 hours past, or lies in the future.
pub open spec fn summary_kept(lasttimestamp: int, now_nanos: int) -> bool {
    now_nanos <= lasttimestamp * 1_000_000 || now_nanos - lasttimestamp * 1_000_000
        <= SUMMARY_MAX_AGE_NANOS
}

/// Whether a summary whose last trade was at `lasttimestamp` (milliseconds)
/// is still kept at `now_nanos`.
pub fn keep_summary(lasttimestamp: i64, now_nanos: u128) -> (r: bool)
    ensures
        r == summary_kept(lasttimestamp as int, now_nanos as int),
{
    let at: i128 = (lasttimestamp as i128) * 1_000_000;
    if at >= 0 {
        let a = at as u128;
        now_nanos <= a || now_nanos - a <= SUMMARY_MAX_AGE_NANOS
    } else {
        let before = (0 - at) as u128;
        now_nanos <= SUMMARY_MAX_AGE_NANOS && before <= SUMMARY_MAX_AGE_NANOS - now_nanos
    }
}

} // verus!
