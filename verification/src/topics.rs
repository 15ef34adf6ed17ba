//! Topic planning: removing repeated topics, pairing topics with trading
//! pairs, and cutting the result into subscription batches.
use vstd::prelude::*;
use crate::text::str_eq;

verus! {

/// The characters of each string.
pub open spec fn texts(v: Seq<String>) -> Seq<Seq<char>> {
    v.map_values(|s: String| s@)
}

/// The characters of each string of each batch.
pub open spec fn batch_texts(v: Seq<Vec<String>>) -> Seq<Seq<Seq<char>>> {
    v.map_values(|b: Vec<String>| texts(b@))
}

/// The topics with repeats removed, each kept where it first occurs.
pub open spec fn dedup(s: Seq<Seq<char>>) -> Seq<Seq<char>>
    decreases s.len(),
{
    if s.len() == 0 {
        s
    } else {
        let d = dedup(s.drop_last());
        if d.contains(s.last()) {
            d
        } else {
            d.push(s.last())
        }
    }
}

/// `topic.pair` for each trading pair, in the pairs' order.
pub open spec fn pair_topics(topic: Seq<char>, pairs: Seq<Seq<char>>) -> Seq<Seq<char>> {
    pairs.map_values(|p: Seq<char>| topic + "."@ + p)
}

/// Each topic paired with each trading pair: topics in order, and within a
/// topic the pairs in order.
pub open spec fn expand(topics: Seq<Seq<char>>, pairs: Seq<Seq<char>>) -> Seq<Seq<char>>
    decreases topics.len(),
{
    if topics.len() == 0 {
        Seq::empty()
    } else {
        expand(topics.drop_last(), pairs) + pair_topics(topics.last(), pairs)
    }
}

/// Consecutive batches of `n` items; the last may be shorter, none is empty.
pub open spec fn chunks<T>(s: Seq<T>, n: nat) -> Seq<Seq<T>>
    decreases s.len(),
{
    if s.len() == 0 || n == 0 {
        Seq::empty()
    } else if s.len() <= n {
        seq![s]
    } else {
        seq![s.take(n as int)] + chunks(s.skip(n as int), n)
    }
}

/// All items of all batches, in order.
pub open spec fn flatten<T>(b: Seq<Seq<T>>) -> Seq<T>
    decreases b.len(),
{
    if b.len() == 0 {
        Seq::empty()
    } else {
        b[0] + flatten(b.drop_first())
    }
}

/// Whether a topic text is already in the list.
pub fn contains_text(v: &Vec<String>, t: &str) -> (r: bool)
    ensures
        r == texts(v@).contains(t@),
{
    let n = v.len();
    let mut i: usize = 0;
    while i < n
        invariant
            n == v@.len(),
            i <= n,
            forall|k: int| 0 <= k < i ==> v@[k]@ != t@,
        decreases n - i,
    {
        if str_eq(v[i].as_str(), t) {
            assert(texts(v@)[i as int] == t@);
            return true;
        }
        i += 1;
    }
    assert forall|k: int| 0 <= k < texts(v@).len() implies texts(v@)[k] != t@ by {
        assert(texts(v@)[k] == v@[k]@);
    }
    false
}

/// The topics with repeats removed, first occurrences kept in order.
pub fn unique_topics(topics: &Vec<String>) -> (r: Vec<String>)
    ensures
        texts(r@) == dedup(texts(topics@)),
{
    let mut out: Vec<String> = Vec::new();
    let n = topics.len();
    let mut i: usize = 0;
    assert(texts(topics@).take(0) =~= Seq::<Seq<char>>::empty());
    assert(texts(out@) =~= Seq::<Seq<char>>::empty());
    while i < n
        invariant
            n == topics@.len(),
            i <= n,
            texts(out@) == dedup(texts(topics@).take(i as int)),
        decreases n - i,
    {
        let t = &topics[i];
        let seen = contains_text(&out, t.as_str());
        let ghost prefix = texts(topics@).take(i + 1);
        assert(prefix.drop_last() =~= texts(topics@).take(i as int));
        assert(prefix.last() == t@);
        if !seen {
            let ghost before = out@;
            out.push(t.clone());
            assert(texts(out@) =~= texts(before).push(t@));
        }
        i += 1;
    }
    assert(texts(topics@).take(n as int) =~= texts(topics@));
    out
}

/// Every topic of `topics` paired with every trading pair, or the topics as
/// they are when `keep_as_is` (the private endpoint takes no pairs).
pub fn all_topics(topics: &Vec<String>, trading_pairs: &Vec<String>, keep_as_is: bool) -> (r: Vec<
    String,
>)
    ensures
        texts(r@) == if keep_as_is {
            texts(topics@)
        } else {
            expand(texts(topics@), texts(trading_pairs@))
        },
{
    if keep_as_is {
        return topics.clone();
    }
    let ghost ps = texts(trading_pairs@);
    let mut out: Vec<String> = Vec::new();
    let n = topics.len();
    let m = trading_pairs.len();
    let mut i: usize = 0;
    assert(texts(topics@).take(0) =~= Seq::<Seq<char>>::empty());
    assert(texts(out@) =~= expand(texts(topics@).take(0), ps));
    while i < n
        invariant
            n == topics@.len(),
            m == trading_pairs@.len(),
            ps == texts(trading_pairs@),
            i <= n,
            texts(out@) == expand(texts(topics@).take(i as int), ps),
        decreases n - i,
    {
        let ghost base = texts(out@);
        let mut j: usize = 0;
        assert(ps.take(0) =~= Seq::<Seq<char>>::empty());
        assert(texts(out@) =~= base + pair_topics(topics@[i as int]@, ps.take(0)));
        while j < m
            invariant
                n == topics@.len(),
                m == trading_pairs@.len(),
                ps == texts(trading_pairs@),
                i < n,
                j <= m,
                texts(out@) == base + pair_topics(topics@[i as int]@, ps.take(j as int)),
            decreases m - j,
        {
            let s = topics[i].clone().concat(".").concat(trading_pairs[j].as_str());
            let ghost before = out@;
            out.push(s);
            assert(pair_topics(topics@[i as int]@, ps.take(j + 1)) =~= pair_topics(
                topics@[i as int]@,
                ps.take(j as int),
            ).push(topics@[i as int]@ + "."@ + trading_pairs@[j as int]@));
            assert(texts(out@) =~= texts(before).push(s@));
            j += 1;
        }
        let ghost prefix = texts(topics@).take(i + 1);
        assert(prefix.drop_last() =~= texts(topics@).take(i as int));
        assert(prefix.last() == topics@[i as int]@);
        assert(ps.take(m as int) =~= ps);
        i += 1;
    }
    assert(texts(topics@).take(n as int) =~= texts(topics@));
    out
}

/// Consecutive batches of `size` topics.
pub fn chunk_topics(topics: &Vec<String>, size: usize) -> (r: Vec<Vec<String>>)
    requires
        size > 0,
    ensures
        batch_texts(r@) == chunks(texts(topics@), size as nat),
{
    let ghost all = texts(topics@);
    let mut out: Vec<Vec<String>> = Vec::new();
    let n = topics.len();
    let mut i: usize = 0;
    assert(all.skip(0) =~= all);
    assert(batch_texts(out@) + chunks(all.skip(0), size as nat) =~= chunks(all, size as nat));
    while i < n
        invariant
            n == topics@.len(),
            all == texts(topics@),
            size > 0,
            i <= n,
            batch_texts(out@) + chunks(all.skip(i as int), size as nat) == chunks(all, size as nat),
        decreases n - i,
    {
        let end = if n - i <= size {
            n
        } else {
            i + size
        };
        let mut c: Vec<String> = Vec::new();
        let mut k = i;
        assert(texts(c@) =~= all.subrange(i as int, i as int));
        while k < end
            invariant
                n == topics@.len(),
                all == texts(topics@),
                i <= k <= end <= n,
                texts(c@) == all.subrange(i as int, k as int),
            decreases end - k,
        {
            let ghost before = c@;
            c.push(topics[k].clone());
            assert(texts(c@) =~= texts(before).push(topics@[k as int]@));
            assert(all.subrange(i as int, k + 1) =~= all.subrange(i as int, k as int).push(
                all[k as int],
            ));
            k += 1;
        }
        let ghost rest = all.skip(i as int);
        let ghost before = out@;
        out.push(c);
        assert(batch_texts(out@) =~= batch_texts(before).push(texts(c@)));
        if n - i <= size {
            assert(rest =~= all.subrange(i as int, n as int));
            assert(chunks(rest, size as nat) =~= seq![rest]);
            assert(all.skip(n as int) =~= Seq::<Seq<char>>::empty());
            assert(chunks(all.skip(n as int), size as nat) =~= Seq::<Seq<Seq<char>>>::empty());
        } else {
            assert(rest.take(size as int) =~= all.subrange(i as int, end as int));
            assert(rest.skip(size as int) =~= all.skip(end as int));
        }
        assert(batch_texts(out@) + chunks(all.skip(end as int), size as nat) =~= chunks(
            all,
            size as nat,
        ));
        i = end;
    }
    assert(all.skip(n as int) =~= Seq::<Seq<char>>::empty());
    assert(batch_texts(out@) =~= batch_texts(out@) + chunks(all.skip(n as int), size as nat));
    out
}


/// After repeats are removed no topic occurs twice.
pub proof fn lemma_dedup_no_duplicates(s: Seq<Seq<char>>)
    ensures
        dedup(s).no_duplicates(),
    decreases s.len(),
{
    if s.len() > 0 {
        lemma_dedup_no_duplicates(s.drop_last());
        let d = dedup(s.drop_last());
        if !d.contains(s.last()) {
            let e = d.push(s.last());
            assert forall|i: int, j: int| 0 <= i < e.len() && 0 <= j < e.len() && i != j implies e[i]
                != e[j] by {
                if i < d.len() && j < d.len() {
                    assert(e[i] == d[i] && e[j] == d[j]);
                } else if i == d.len() {
                    assert(e[j] == d[j]);
                } else {
                    assert(e[i] == d[i]);
                }
            }
        }
    }
}

/// Removing repeats keeps exactly the topics that were there.
pub proof fn lemma_dedup_same_topics(s: Seq<Seq<char>>, x: Seq<char>)
    ensures
        dedup(s).contains(x) <==> s.contains(x),
    decreases s.len(),
{
    if s.len() > 0 {
        lemma_dedup_same_topics(s.drop_last(), x);
        let d = dedup(s.drop_last());
        if s.contains(x) {
            let k = choose|k: int| 0 <= k < s.len() && s[k] == x;
            if k < s.len() - 1 {
                assert(s.drop_last()[k] == x);
            }
        }
        if s.drop_last().contains(x) {
            let k = choose|k: int| 0 <= k < s.drop_last().len() && s.drop_last()[k] == x;
            assert(s[k] == x);
        }
        if !d.contains(s.last()) {
            let e = d.push(s.last());
            if d.contains(x) {
                let k = choose|k: int| 0 <= k < d.len() && d[k] == x;
                assert(e[k] == x);
            }
            if e.contains(x) && x != s.last() {
                let k = choose|k: int| 0 <= k < e.len() && e[k] == x;
                assert(d[k] == x);
            }
            assert(e[d.len() as int] == s.last());
        }
        assert(s[s.len() - 1] == s.last());
    }
}

/// The batches, put back together, are the topics in their order.
pub proof fn lemma_chunks_flatten<T>(s: Seq<T>, n: nat)
    requires
        n > 0,
    ensures
        flatten(chunks(s, n)) == s,
    decreases s.len(),
{
    if s.len() == 0 {
    } else if s.len() <= n {
        assert(seq![s].drop_first() =~= Seq::<Seq<T>>::empty());
        assert(flatten(seq![s]) =~= s + flatten(Seq::<Seq<T>>::empty()));
    } else {
        lemma_chunks_flatten(s.skip(n as int), n);
        let c = seq![s.take(n as int)] + chunks(s.skip(n as int), n);
        assert(c.drop_first() =~= chunks(s.skip(n as int), n));
        assert(c[0] == s.take(n as int));
        assert(s.take(n as int) + s.skip(n as int) =~= s);
    }
}

/// Every batch holds between one and `n` topics, and all but the last hold `n`.
pub proof fn lemma_chunk_sizes<T>(s: Seq<T>, n: nat)
    requires
        n > 0,
    ensures
        forall|i: int| 0 <= i < chunks(s, n).len() ==> 0 < #[trigger] chunks(s, n)[i].len() <= n,
        forall|i: int| 0 <= i < chunks(s, n).len() - 1 ==> #[trigger] chunks(s, n)[i].len() == n,
        chunks(s, n).len() == (s.len() + n - 1) / n as int,
    decreases s.len(),
{
    if s.len() == 0 {
        assert((n - 1) / n as int == 0) by (nonlinear_arith)
            requires
                n > 0,
        ;
    } else if s.len() <= n {
        assert((s.len() + n - 1) / n as int == 1) by (nonlinear_arith)
            requires
                n > 0,
                0 < s.len() <= n,
        ;
    } else {
        lemma_chunk_sizes(s.skip(n as int), n);
        let rest = chunks(s.skip(n as int), n);
        let c = seq![s.take(n as int)] + rest;
        assert forall|i: int| 0 < i < c.len() implies c[i] == rest[i - 1] by {}
        assert((s.len() + n - 1) / n as int == (s.len() - n + n - 1) / n as int + 1) by (
        nonlinear_arith)
            requires
                n > 0,
                s.len() > n,
        ;
    }
}

/// Pairing `k` topics with `m` pairs gives `k * m` topics, and the one at
/// `i * m + j` is topic `i`, a dot, and pair `j`.
pub proof fn lemma_expand_shape(topics: Seq<Seq<char>>, pairs: Seq<Seq<char>>)
    ensures
        expand(topics, pairs).len() == topics.len() * pairs.len(),
        forall|i: int, j: int|
            0 <= i < topics.len() && 0 <= j < pairs.len() ==> #[trigger] expand(topics, pairs)[i
                * pairs.len() + j] == topics[i] + "."@ + pairs[j],
    decreases topics.len(),
{
    let m = pairs.len() as int;
    if topics.len() == 0 {
    } else {
        let k = topics.len() as int;
        let front = topics.drop_last();
        lemma_expand_shape(front, pairs);
        let e = expand(topics, pairs);
        let f = expand(front, pairs);
        assert(f.len() == (k - 1) * m);
        assert((k - 1) * m + m == k * m) by (nonlinear_arith);
        assert forall|i: int, j: int| 0 <= i < k && 0 <= j < m implies #[trigger] e[i * m + j]
            == topics[i] + "."@ + pairs[j] by {
            if i < k - 1 {
                assert(i * m + j < (k - 1) * m) by (nonlinear_arith)
                    requires
                        0 <= i < k - 1,
                        0 <= j < m,
                ;
                assert(0 <= i * m + j) by (nonlinear_arith)
                    requires
                        0 <= i,
                        0 <= j,
                        0 <= m,
                ;
                assert(e[i * m + j] == f[i * m + j]);
                assert(front[i] == topics[i]);
            } else {
                assert(i * m + j == (k - 1) * m + j);
                assert(e[i * m + j] == pair_topics(topics.last(), pairs)[j]);
            }
        }
    }
}

} // verus!
