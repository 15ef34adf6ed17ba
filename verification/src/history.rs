//! The recent ticker messages of all endpoints, keyed by receive time and
//! kept for 200 hours.
use std::collections::HashMap;
use vstd::prelude::*;
use crate::tickers::MessageData;

verus! {

/// How long a message is kept, in nanoseconds (200 hours).
pub const RETENTION_NANOS: i64 = 720_000_000_000_000;

/// Whether a message received at `key` is kept at `now_ns`: it is younger
/// than the retention time.
pub open spec fn kept(key: i64, now_ns: i64) -> bool {
    now_ns - key < RETENTION_NANOS
}

/// The receive times that are kept at `now_ns`.
pub open spec fn kept_keys(now_ns: i64) -> Set<i64> {
    Set::new(|k: i64| kept(k, now_ns))
}

/// The messages, keyed by receive time, each with the endpoint it came from.
pub struct MessageStore {
    pub entries: HashMap<i64, (String, MessageData)>,
}

impl MessageStore {
    /// An empty store.
    pub fn new() -> (r: MessageStore)
        ensures
            r.entries@ == Map::<i64, (String, MessageData)>::empty(),
    {
        MessageStore { entries: HashMap::new() }
    }

    /// The receive times in the store, each once.
    fn keys(&self) -> (r: Vec<i64>)
        ensures
            forall|k: i64| r@.contains(k) <==> self.entries@.contains_key(k),
    {
        let mut out: Vec<i64> = Vec::new();
        for k in it: self.entries.keys()
            invariant
                it.seq().unref().to_set() == self.entries@.dom(),
                forall|x: i64| out@.contains(x) ==> self.entries@.contains_key(x),
                forall|x: i64|
                    self.entries@.contains_key(x) ==> out@.contains(x) || exists|j: int|
                        it.index() <= j < it.seq().len() && *it.seq()[j] == x,
        {
            let ghost i = it.index();
            assert(it.seq().unref()[i] == *k);
            assert(it.seq().unref().contains(*k));
            assert(it.seq().unref().to_set().contains(*k));
            let ghost before = out@;
            out.push(*k);
            assert forall|x: i64| out@.contains(x) implies self.entries@.contains_key(x) by {
                if x != *k {
                    let j = choose|j: int| 0 <= j < out@.len() && out@[j] == x;
                    assert(j < before.len());
                    assert(before[j] == x);
                    assert(before.contains(x));
                }
            }
            assert forall|x: i64| self.entries@.contains_key(x) implies out@.contains(x) || exists|j: int|
                it.index() + 1 <= j < it.seq().len() && *it.seq()[j] == x by {
                if before.contains(x) {
                    let j = choose|j: int| 0 <= j < before.len() && before[j] == x;
                    assert(out@[j] == x);
                } else if x == *k {
                    assert(out@[before.len() as int] == x);
                }
            }
        }
        out
    }

    /// Whether the store can be pruned at `now_ns` after a message received
    /// at `received_at` is added, with every age computed within `i64`.
    pub open spec fn ages_fit(&self, received_at: i64, now_ns: i64) -> bool {
        &&& i64::MIN <= now_ns - received_at <= i64::MAX
        &&& forall|k: i64|
            #[trigger] self.entries@.contains_key(k) ==> i64::MIN <= now_ns - k <= i64::MAX
    }

    /// Whether every age at `now_ns` fits in `i64`.
    pub fn record_fits(&self, received_at: i64, now_ns: i64) -> (r: bool)
        ensures
            r == self.ages_fit(received_at, now_ns),
    {
        if now_ns.checked_sub(received_at).is_none() {
            return false;
        }
        let ks = self.keys();
        let n = ks.len();
        let mut i: usize = 0;
        while i < n
            invariant
                n == ks@.len(),
                i <= n,
                forall|k: i64| ks@.contains(k) <==> self.entries@.contains_key(k),
                forall|j: int| 0 <= j < i ==> i64::MIN <= now_ns - (#[trigger] ks@[j]) <= i64::MAX,
            decreases n - i,
        {
            if now_ns.checked_sub(ks[i]).is_none() {
                assert(ks@.contains(ks@[i as int]));
                assert(self.entries@.contains_key(ks@[i as int]));
                return false;
            }
            i += 1;
        }
        assert forall|k: i64| #[trigger] self.entries@.contains_key(k) implies i64::MIN <= now_ns - k
            <= i64::MAX by {
            assert(ks@.contains(k));
            let j = choose|j: int| 0 <= j < ks@.len() && ks@[j] == k;
        }
        true
    }

    /// Files a message under its receive time, replacing one filed under the
    /// same time, then drops every message that is no longer kept at `now_ns`.
    pub fn record(&mut self, received_at: i64, endpoint_name: String, data: MessageData, now_ns: i64)
        requires
            old(self).ages_fit(received_at, now_ns),
        ensures
            final(self).entries@ == old(self).entries@.insert(received_at, (endpoint_name, data)).restrict(
                kept_keys(now_ns),
            ),
    {
        let ghost old_entries = self.entries@;
        self.entries.insert(received_at, (endpoint_name, data));
        let ghost full = self.entries@;
        assert(full == old_entries.insert(received_at, (endpoint_name, data)));
        let ks = self.keys();
        let n = ks.len();
        let mut i: usize = 0;
        while i < n
            invariant
                n == ks@.len(),
                i <= n,
                forall|k: i64| ks@.contains(k) <==> full.contains_key(k),
                forall|k: i64| #[trigger] full.contains_key(k) ==> i64::MIN <= now_ns - k <= i64::MAX,
                forall|k: i64|
                    #[trigger] self.entries@.contains_key(k) <==> full.contains_key(k) && (kept(k, now_ns)
                        || !ks@.take(i as int).contains(k)),
                forall|k: i64| #[trigger] self.entries@.contains_key(k) ==> self.entries@[k] == full[k],
            decreases n - i,
        {
            let k = ks[i];
            assert(ks@.contains(k));
            let ghost before = self.entries@;
            let ghost t0 = ks@.take(i as int);
            let ghost t1 = ks@.take(i + 1);
            assert(t1 =~= t0.push(k));
            assert forall|x: i64| t1.contains(x) <==> (t0.contains(x) || x == k) by {
                if t1.contains(x) {
                    let j = choose|j: int| 0 <= j < t1.len() && t1[j] == x;
                    if j < t0.len() {
                        assert(t0[j] == x);
                    }
                }
                if t0.contains(x) {
                    let j = choose|j: int| 0 <= j < t0.len() && t0[j] == x;
                    assert(t1[j] == x);
                }
                if x == k {
                    assert(t1[t0.len() as int] == x);
                }
            }
            if now_ns - k >= RETENTION_NANOS {
                self.entries.remove(&k);
                assert(self.entries@ == before.remove(k));
            }
            i += 1;
        }
        assert(ks@.take(n as int) =~= ks@);
        assert(self.entries@ =~= full.restrict(kept_keys(now_ns)));
    }
}

} // verus!
