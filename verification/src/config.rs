//! The application settings the connection logic reads.
use vstd::prelude::*;
use crate::text::str_eq;

verus! {

/// Settings of the collector: where to connect, which pairs to follow and
/// the topics of each endpoint kind (named by the last segment of its path).
pub struct AppConfig {
    pub base_url: String,
    pub endpoints: Vec<String>,
    pub trading_pairs: Vec<String>,
    pub topics: Vec<(String, Vec<String>)>,
}

/// The topic list filed under `key`, the first entry with that key.
pub open spec fn topic_lookup(entries: Seq<(String, Vec<String>)>, key: Seq<char>) -> Option<
    Vec<String>,
>
    decreases entries.len(),
{
    if entries.len() == 0 {
        None
    } else if entries[0].0@ == key {
        Some(entries[0].1)
    } else {
        topic_lookup(entries.drop_first(), key)
    }
}

impl AppConfig {
    /// No endpoint kind is filed twice.
    pub open spec fn keys_unique(&self) -> bool {
        forall|i: int, j: int|
            0 <= i < j < self.topics@.len() ==> self.topics@[i].0@ != self.topics@[j].0@
    }

    /// Whether no endpoint kind is filed twice, as in a map.
    pub fn topic_keys_unique(&self) -> (r: bool)
        ensures
            r == self.keys_unique(),
    {
        let n = self.topics.len();
        let mut i: usize = 0;
        while i < n
            invariant
                n == self.topics@.len(),
                i <= n,
                forall|a: int, b: int|
                    0 <= a < i && a < b < n ==> self.topics@[a].0@ != self.topics@[b].0@,
            decreases n - i,
        {
            let mut j: usize = i + 1;
            while j < n
                invariant
                    n == self.topics@.len(),
                    i < n,
                    i + 1 <= j <= n,
                    forall|a: int, b: int|
                        0 <= a < i && a < b < n ==> self.topics@[a].0@ != self.topics@[b].0@,
                    forall|b: int| i < b < j ==> self.topics@[i as int].0@ != self.topics@[b].0@,
                decreases n - j,
            {
                if str_eq(self.topics[i].0.as_str(), self.topics[j].0.as_str()) {
                    return false;
                }
                j += 1;
            }
            i += 1;
        }
        true
    }

    /// `topics.get(key)`.
    pub fn topics_for(&self, key: &str) -> (r: Option<&Vec<String>>)
        ensures
            r is None <==> topic_lookup(self.topics@, key@) is None,
            r matches Some(v) ==> topic_lookup(self.topics@, key@) == Some(*v),
    {
        let n = self.topics.len();
        let mut i: usize = 0;
        assert(self.topics@.skip(0) =~= self.topics@);
        while i < n
            invariant
                n == self.topics@.len(),
                i <= n,
                topic_lookup(self.topics@, key@) == topic_lookup(self.topics@.skip(i as int), key@),
            decreases n - i,
        {
            let ghost rest = self.topics@.skip(i as int);
            assert(rest[0] == self.topics@[i as int]);
            assert(rest.drop_first() =~= self.topics@.skip(i + 1));
            if str_eq(self.topics[i].0.as_str(), key) {
                assert(rest.len() > 0);
                return Some(&self.topics[i].1);
            }
            i += 1;
        }
        assert(self.topics@.skip(i as int).len() == 0);
        None
    }
}

/// With every endpoint kind filed once, the lookup of a kind gives its own
/// topic list, wherever it stands in the list: the settings behave as a map.
pub proof fn lemma_lookup_finds_entry(entries: Seq<(String, Vec<String>)>, i: int)
    requires
        0 <= i < entries.len(),
        forall|a: int, b: int| 0 <= a < b < entries.len() ==> entries[a].0@ != entries[b].0@,
    ensures
        topic_lookup(entries, entries[i].0@) == Some(entries[i].1),
    decreases entries.len(),
{
    if i > 0 {
        assert(entries[0].0@ != entries[i].0@);
        let rest = entries.drop_first();
        assert(rest[i - 1] == entries[i]);
        assert forall|a: int, b: int| 0 <= a < b < rest.len() implies rest[a].0@ != rest[b].0@ by {
            assert(rest[a] == entries[a + 1] && rest[b] == entries[b + 1]);
        }
        lemma_lookup_finds_entry(rest, i - 1);
    }
}

} // verus!
