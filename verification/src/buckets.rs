//! Per-symbol trade buckets, shared between the tasks that add trades and the
//! task that summarises them every second.
use vstd::prelude::*;
use crate::topics::{flatten, texts};
use crate::json::Json;
use crate::trades::{
    AggregateCore,
    TradeData,
    TradeMessage,
    TradeRoute,
    aggregate,
    average_delay,
    summarises,
    trade_route,
    trade_route_number,
    trade_route_of,
};

verus! {

#[verifier::external_type_specification]
#[verifier::external_body]
#[verifier::reject_recursive_types(K)]
#[verifier::reject_recursive_types(V)]
#[verifier::reject_recursive_types(S)]
pub struct ExDashMap<K, V, S>(dashmap::DashMap<K, V, S>);

/// The buckets a map holds: each symbol and its trades in arrival order.
pub uninterp spec fn bucket_contents(m: dashmap::DashMap<String, Vec<TradeData>>) -> Map<
    Seq<char>,
    Seq<TradeData>,
>;

/// `DashMap::new()`: no buckets.
#[verifier::external_body]
pub(crate) fn new_bucket_map() -> (r: dashmap::DashMap<String, Vec<TradeData>>)
    ensures
        bucket_contents(r) =~= Map::empty(),
{
    dashmap::DashMap::new()
}


/// The trades filed under `symbol`, none when there is no bucket.
pub open spec fn bucket_of(c: Map<Seq<char>, Seq<TradeData>>, symbol: Seq<char>) -> Seq<TradeData> {
    if c.contains_key(symbol) {
        c[symbol]
    } else {
        Seq::empty()
    }
}

/// `map.entry(symbol).or_default().push(trade)`: the trade joins the end of
/// its symbol's bucket, which is made when missing.
#[verifier::external_body]
pub(crate) fn push_trade(m: &mut dashmap::DashMap<String, Vec<TradeData>>, symbol: String, trade: TradeData)
    ensures
        bucket_contents(*final(m)) == bucket_contents(*old(m)).insert(
            symbol@,
            bucket_of(bucket_contents(*old(m)), symbol@).push(trade),
        ),
{
    m.entry(symbol).or_default().push(trade);
}

/// The symbols of all buckets, each once; `DashMap::iter` walks them in an
/// order that is not stated.
#[verifier::external_body]
pub(crate) fn bucket_symbols(m: &dashmap::DashMap<String, Vec<TradeData>>) -> (r: Vec<String>)
    ensures
        texts(r@).no_duplicates(),
        forall|k: Seq<char>| bucket_contents(*m).contains_key(k) <==> texts(r@).contains(k),
{
    m.iter().map(|e| e.key().clone()).collect()
}

/// `map.insert(symbol, Vec::new())`: the bucket of `symbol` is left empty and
/// its former trades are handed back.
#[verifier::external_body]
pub(crate) fn take_bucket(m: &mut dashmap::DashMap<String, Vec<TradeData>>, symbol: &str) -> (r: Option<
    Vec<TradeData>,
>)
    ensures
        bucket_contents(*final(m)) == bucket_contents(*old(m)).insert(symbol@, Seq::empty()),
        r is Some <==> bucket_contents(*old(m)).contains_key(symbol@),
        r matches Some(v) ==> v@ == bucket_contents(*old(m))[symbol@],
{
    m.insert(symbol.to_string(), Vec::new())
}

/// The buckets after the trades are filed one after another.
pub open spec fn add_all(c: Map<Seq<char>, Seq<TradeData>>, trades: Seq<TradeData>) -> Map<
    Seq<char>,
    Seq<TradeData>,
>
    decreases trades.len(),
{
    if trades.len() == 0 {
        c
    } else {
        let before = add_all(c, trades.drop_last());
        before.insert(
            trades.last().symbol@,
            bucket_of(before, trades.last().symbol@).push(trades.last()),
        )
    }
}

/// A copy of a trade.
pub fn copy_trade(t: &TradeData) -> (r: TradeData)
    ensures
        r == *t,
{
    TradeData {
        timestamp: t.timestamp,
        symbol: t.symbol.clone(),
        side: t.side.clone(),
        volume: t.volume.clone(),
        price: t.price.clone(),
        tick_direction: match &t.tick_direction {
            Some(d) => Some(d.clone()),
            None => None,
        },
        trade_id: t.trade_id.clone(),
        block_trade: t.block_trade,
    }
}

/// A summarised bucket: its symbol, its trades, and their summary (`None`
/// when the mean delay leaves `i64`).
pub struct BucketSummary {
    pub symbol: String,
    pub trades: Vec<TradeData>,
    pub core: Option<AggregateCore>,
}

/// `s` is the summary of the non-empty bucket of `s.symbol` in `c`.
pub open spec fn summary_of(s: BucketSummary, c: Map<Seq<char>, Seq<TradeData>>, bucket_start: i64) -> bool {
    &&& c.contains_key(s.symbol@)
    &&& c[s.symbol@].len() > 0
    &&& s.trades@ == c[s.symbol@]
    &&& match s.core {
        Some(core) => summarises(core, s.trades@, bucket_start),
        None => average_delay(
            bucket_start as int,
            s.trades@[0].timestamp as int,
            s.trades@.last().timestamp as int,
        ) is None,
    }
}

/// Trades collected per symbol since the last summary.
pub struct TradeBuckets {
    map: dashmap::DashMap<String, Vec<TradeData>>,
}

impl TradeBuckets {
    /// The buckets: each symbol's trades in arrival order.
    pub closed spec fn contents(&self) -> Map<Seq<char>, Seq<TradeData>> {
        bucket_contents(self.map)
    }

    /// No buckets.
    pub fn new() -> (r: TradeBuckets)
        ensures
            r.contents() =~= Map::empty(),
    {
        TradeBuckets { map: new_bucket_map() }
    }

    /// Files every trade of a trade message under its symbol, in order.
    pub fn add_trades(&mut self, msg: &TradeMessage)
        ensures
            final(self).contents() == add_all(old(self).contents(), msg.data@),
    {
        let n = msg.data.len();
        let mut i: usize = 0;
        assert(msg.data@.take(0) =~= Seq::<TradeData>::empty());
        while i < n
            invariant
                n == msg.data@.len(),
                i <= n,
                self.contents() == add_all(old(self).contents(), msg.data@.take(i as int)),
            decreases n - i,
        {
            let t = copy_trade(&msg.data[i]);
            let ghost pre = msg.data@.take(i + 1);
            assert(pre.drop_last() =~= msg.data@.take(i as int));
            assert(pre.last() == t);
            push_trade(&mut self.map, t.symbol.clone(), t);
            i += 1;
        }
        assert(msg.data@.take(n as int) =~= msg.data@);
    }

    /// Files a text frame: when it is a trade message (its `topic` starts
    /// with `publicTrade`) and `decoded` holds the message read from it, its
    /// trades are filed; any other frame leaves the buckets as they were.
    pub fn file_frame(&mut self, parsed: &Result<Json, String>, decoded: Option<TradeMessage>) -> (r:
        TradeRoute)
        ensures
            trade_route_number(r) == trade_route_of(*parsed),
            r matches TradeRoute::NotJson(e) ==> *parsed matches Err(f) && e@ == f@,
            match (r, decoded) {
                (TradeRoute::Trades, Some(m)) => final(self).contents() == add_all(
                    old(self).contents(),
                    m.data@,
                ),
                _ => final(self).contents() == old(self).contents(),
            },
    {
        let r = trade_route(parsed);
        match r {
            TradeRoute::Trades => match decoded {
                Some(m) => {
                    self.add_trades(&m);
                },
                None => {},
            },
            _ => {},
        }
        r
    }

    /// Summarises every non-empty bucket and empties all of them; the
    /// symbols stay. The buckets come in the map's walking order.
    pub fn flush(&mut self, bucket_start: i64) -> (r: Vec<BucketSummary>)
        ensures
            forall|i: int| 0 <= i < r@.len() ==> summary_of(#[trigger] r@[i], old(self).contents(), bucket_start),
            forall|i: int, j: int| 0 <= i < j < r@.len() ==> r@[i].symbol@ != r@[j].symbol@,
            forall|k: Seq<char>|
                old(self).contents().contains_key(k) && old(self).contents()[k].len() > 0 ==> exists|
                    i: int,
                | 0 <= i < r@.len() && #[trigger] r@[i].symbol@ == k,
            final(self).contents().dom() == old(self).contents().dom(),
            forall|k: Seq<char>|
                #[trigger] final(self).contents().contains_key(k) ==> final(self).contents()[k].len() == 0,
            final(self).contents() == emptied(old(self).contents()),
    {
        let ghost c0 = self.contents();
        let symbols = bucket_symbols(&self.map);
        let ghost syms = texts(symbols@);
        let n = symbols.len();
        let mut out: Vec<BucketSummary> = Vec::new();
        let mut i: usize = 0;
        while i < n
            invariant
                n == symbols@.len(),
                syms == texts(symbols@),
                syms.no_duplicates(),
                forall|k: Seq<char>| c0.contains_key(k) <==> syms.contains(k),
                i <= n,
                self.contents().dom() == c0.dom(),
                forall|j: int| 0 <= j < i ==> self.contents()[#[trigger] syms[j]].len() == 0,
                forall|j: int| i <= j < n ==> self.contents()[#[trigger] syms[j]] == c0[syms[j]],
                forall|m: int| 0 <= m < out@.len() ==> summary_of(#[trigger] out@[m], c0, bucket_start),
                forall|m: int|
                    0 <= m < out@.len() ==> exists|j: int|
                        0 <= j < i && #[trigger] syms[j] == (#[trigger] out@[m]).symbol@,
                forall|m1: int, m2: int| 0 <= m1 < m2 < out@.len() ==> out@[m1].symbol@ != out@[m2].symbol@,
                forall|j: int|
                    0 <= j < i && c0[#[trigger] syms[j]].len() > 0 ==> exists|m: int|
                        0 <= m < out@.len() && #[trigger] out@[m].symbol@ == syms[j],
            decreases n - i,
        {
            let sym = &symbols[i];
            assert(syms[i as int] == sym@);
            assert(syms.contains(sym@));
            let ghost before = self.contents();
            let ghost out_before = out@;
            let taken = take_bucket(&mut self.map, sym.as_str());
            assert forall|j: int| 0 <= j < n && j != i implies #[trigger] syms[j] != syms[i as int] by {}
            match taken {
                Some(trades) => {
                    if trades.len() > 0 {
                        let core = aggregate(&trades, bucket_start);
                        let s = BucketSummary { symbol: sym.clone(), trades, core };
                        assert(summary_of(s, c0, bucket_start));
                        out.push(s);
                        assert forall|m: int| 0 <= m < out@.len() implies exists|j: int|
                            0 <= j < i + 1 && #[trigger] syms[j] == (#[trigger] out@[m]).symbol@ by {
                            if m < out_before.len() {
                                assert(out@[m] == out_before[m]);
                            } else {
                                assert(syms[i as int] == out@[m].symbol@);
                            }
                        }
                        assert forall|m1: int, m2: int|
                            0 <= m1 < m2 < out@.len() implies out@[m1].symbol@ != out@[m2].symbol@ by {
                            if m2 == out_before.len() {
                                assert(out@[m1] == out_before[m1]);
                                let j = choose|j: int| 0 <= j < i && #[trigger] syms[j] == out_before[m1].symbol@;
                                assert(syms[j] != syms[i as int]);
                            } else {
                                assert(out@[m1] == out_before[m1]);
                                assert(out@[m2] == out_before[m2]);
                            }
                        }
                        assert forall|j: int|
                            0 <= j < i + 1 && c0[#[trigger] syms[j]].len() > 0 implies exists|m: int|
                                0 <= m < out@.len() && #[trigger] out@[m].symbol@ == syms[j] by {
                            if j < i {
                                let m = choose|m: int| 0 <= m < out_before.len() && #[trigger] out_before[m].symbol@ == syms[j];
                                assert(out@[m] == out_before[m]);
                            } else {
                                assert(out@[out_before.len() as int].symbol@ == syms[j]);
                            }
                        }
                        assert forall|m: int| 0 <= m < out@.len() implies summary_of(#[trigger] out@[m], c0, bucket_start) by {
                            if m < out_before.len() {
                                assert(out@[m] == out_before[m]);
                            }
                        }
                    }
                },
                None => {},
            }
            i += 1;
        }
        assert forall|k: Seq<char>|
            #[trigger] self.contents().contains_key(k) implies self.contents()[k].len() == 0 by {
            assert(c0.contains_key(k));
            assert(syms.contains(k));
            let j = choose|j: int| 0 <= j < syms.len() && syms[j] == k;
        }
        assert forall|k: Seq<char>|
            c0.contains_key(k) && c0[k].len() > 0 implies exists|m: int|
                0 <= m < out@.len() && #[trigger] out@[m].symbol@ == k by {
            assert(syms.contains(k));
            let j = choose|j: int| 0 <= j < syms.len() && syms[j] == k;
        }
        assert forall|k: Seq<char>| #[trigger] self.contents().contains_key(k) implies self.contents()[k]
            =~= Seq::<TradeData>::empty() by {
            assert(self.contents()[k].len() == 0);
        }
        assert(self.contents() =~= emptied(c0));
        out
    }
}

/// The buckets after a summary: the same symbols, every bucket empty.
pub open spec fn emptied(c: Map<Seq<char>, Seq<TradeData>>) -> Map<Seq<char>, Seq<TradeData>> {
    c.map_values(|v: Seq<TradeData>| Seq::<TradeData>::empty())
}

/// The trades among `trades` of `symbol`, in order.
pub open spec fn trades_of(trades: Seq<TradeData>, symbol: Seq<char>) -> Seq<TradeData>
    decreases trades.len(),
{
    if trades.len() == 0 {
        Seq::empty()
    } else if trades.last().symbol@ == symbol {
        trades_of(trades.drop_last(), symbol).push(trades.last())
    } else {
        trades_of(trades.drop_last(), symbol)
    }
}

/// Filing trades puts each trade at the end of its own symbol's bucket, in
/// order, and into no other bucket; a bucket exists afterwards exactly when it
/// existed before or one of the trades has its symbol. So each filed trade is
/// in exactly one bucket, and the next summary of that symbol counts it.
pub proof fn lemma_add_all_bucket(
    c: Map<Seq<char>, Seq<TradeData>>,
    trades: Seq<TradeData>,
    symbol: Seq<char>,
)
    ensures
        bucket_of(add_all(c, trades), symbol) == bucket_of(c, symbol) + trades_of(trades, symbol),
        add_all(c, trades).contains_key(symbol) <==> (c.contains_key(symbol) || trades_of(
            trades,
            symbol,
        ).len() > 0),
    decreases trades.len(),
{
    if trades.len() == 0 {
        assert(bucket_of(c, symbol) + Seq::<TradeData>::empty() =~= bucket_of(c, symbol));
    } else {
        let f = trades.drop_last();
        lemma_add_all_bucket(c, f, symbol);
        if trades.last().symbol@ == symbol {
            assert((bucket_of(c, symbol) + trades_of(f, symbol)).push(trades.last()) =~= bucket_of(
                c,
                symbol,
            ) + trades_of(f, symbol).push(trades.last()));
        }
    }
}

/// Filing one list of trades after another is filing them together.
pub proof fn lemma_add_all_twice(
    c: Map<Seq<char>, Seq<TradeData>>,
    a: Seq<TradeData>,
    b: Seq<TradeData>,
)
    ensures
        add_all(add_all(c, a), b) == add_all(c, a + b),
    decreases b.len(),
{
    if b.len() == 0 {
        assert(a + b =~= a);
    } else {
        lemma_add_all_twice(c, a, b.drop_last());
        assert((a + b).drop_last() =~= a + b.drop_last());
        assert((a + b).last() == b.last());
    }
}

/// The buckets the summary numbered `i` finds, starting from the buckets `c`,
/// when the trades `filed[j]` are filed after summary `j - 1` and before
/// summary `j`: each summary empties every bucket it reads.
pub open spec fn buckets_at(
    c: Map<Seq<char>, Seq<TradeData>>,
    filed: Seq<Seq<TradeData>>,
    i: nat,
) -> Map<Seq<char>, Seq<TradeData>>
    decreases i,
{
    if i == 0 {
        add_all(c, filed[0])
    } else {
        add_all(emptied(buckets_at(c, filed, (i - 1) as nat)), filed[i as int])
    }
}

/// How many trades of `symbol` the first `n` summaries count.
pub open spec fn counted(
    c: Map<Seq<char>, Seq<TradeData>>,
    filed: Seq<Seq<TradeData>>,
    symbol: Seq<char>,
    n: nat,
) -> nat
    decreases n,
{
    if n == 0 {
        0
    } else {
        counted(c, filed, symbol, (n - 1) as nat) + bucket_of(
            buckets_at(c, filed, (n - 1) as nat),
            symbol,
        ).len()
    }
}

/// Picking a symbol's trades out of two lists one after the other.
pub proof fn lemma_trades_of_concat(a: Seq<TradeData>, b: Seq<TradeData>, symbol: Seq<char>)
    ensures
        trades_of(a + b, symbol) == trades_of(a, symbol) + trades_of(b, symbol),
    decreases b.len(),
{
    if b.len() == 0 {
        assert(a + b =~= a);
        assert(trades_of(a, symbol) + Seq::<TradeData>::empty() =~= trades_of(a, symbol));
    } else {
        lemma_trades_of_concat(a, b.drop_last(), symbol);
        assert((a + b).drop_last() =~= a + b.drop_last());
        assert((a + b).last() == b.last());
        if b.last().symbol@ == symbol {
            assert((trades_of(a, symbol) + trades_of(b.drop_last(), symbol)).push(b.last())
                =~= trades_of(a, symbol) + trades_of(b.drop_last(), symbol).push(b.last()));
        }
    }
}

/// All filed trades, in order, is the batches before the last followed by the last.
proof fn lemma_flatten_push(b: Seq<Seq<TradeData>>, x: Seq<TradeData>)
    ensures
        flatten(b.push(x)) == flatten(b) + x,
    decreases b.len(),
{
    if b.len() == 0 {
        assert(b.push(x).drop_first() =~= Seq::<Seq<TradeData>>::empty());
        assert(b.push(x)[0] == x);
        assert(flatten(b.push(x).drop_first()) == Seq::<TradeData>::empty());
        assert(flatten(b) == Seq::<TradeData>::empty());
        assert(x + Seq::<TradeData>::empty() =~= x);
        assert(Seq::<TradeData>::empty() + x =~= x);
    } else {
        lemma_flatten_push(b.drop_first(), x);
        assert(b.push(x).drop_first() =~= b.drop_first().push(x));
        assert(b.push(x)[0] == b[0]);
        assert(b[0] + (flatten(b.drop_first()) + x) =~= (b[0] + flatten(b.drop_first())) + x);
    }
}

/// Between two summaries, whatever the order in which messages and summaries
/// interleave: starting from empty buckets (a new map, or one just
/// summarised), the summary numbered `i` finds, for each symbol, exactly the
/// trades of that symbol filed since the summary before, in order; so a
/// symbol is summarised only when one of its trades was filed since, and the
/// first `n` summaries together count every filed trade of the symbol once.
pub proof fn lemma_each_trade_counted_once(
    c: Map<Seq<char>, Seq<TradeData>>,
    filed: Seq<Seq<TradeData>>,
    symbol: Seq<char>,
    n: nat,
)
    requires
        forall|k: Seq<char>| #[trigger] c.contains_key(k) ==> c[k].len() == 0,
        n <= filed.len(),
    ensures
        forall|i: int|
            0 <= i < n ==> bucket_of(#[trigger] buckets_at(c, filed, i as nat), symbol) == trades_of(
                filed[i],
                symbol,
            ),
        counted(c, filed, symbol, n) == trades_of(flatten(filed.take(n as int)), symbol).len(),
    decreases n,
{
    assert forall|i: int| 0 <= i < n implies bucket_of(#[trigger] buckets_at(c, filed, i as nat), symbol)
        == trades_of(filed[i], symbol) by {
        let base = if i == 0 {
            c
        } else {
            emptied(buckets_at(c, filed, (i - 1) as nat))
        };
        assert(buckets_at(c, filed, i as nat) == add_all(base, filed[i]));
        lemma_add_all_bucket(base, filed[i], symbol);
        assert(bucket_of(base, symbol) =~= Seq::<TradeData>::empty());
        assert(Seq::<TradeData>::empty() + trades_of(filed[i], symbol) =~= trades_of(filed[i], symbol));
    }
    if n == 0 {
        assert(filed.take(0) =~= Seq::<Seq<TradeData>>::empty());
    } else {
        let m = (n - 1) as nat;
        lemma_each_trade_counted_once(c, filed, symbol, m);
        assert(filed.take(n as int) =~= filed.take(m as int).push(filed[m as int]));
        lemma_flatten_push(filed.take(m as int), filed[m as int]);
        lemma_trades_of_concat(flatten(filed.take(m as int)), filed[m as int], symbol);
        assert(bucket_of(buckets_at(c, filed, m), symbol) == trades_of(filed[m as int], symbol));
    }
}

} // verus!
