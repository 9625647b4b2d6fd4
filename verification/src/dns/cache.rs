//! The DNS answer cache: answers under `<name>:<type>` keys in a `moka`
//! cache whose entries expire, an index from names to their keys, and hit and
//! miss counts.
use vstd::prelude::*;
use crate::assoc::{lemma_pairs_map_dom, lemma_pairs_map_get, lemma_pairs_map_update, lemma_push_unique, pairs_map, unique_keys};
use crate::config::models::{Config, string_views};
use crate::dns::wire::{DnsRecord, record_type_label, record_type_name, record_views};
use crate::scanner::cache::{
    MOKA_MAX_TTL_SECS, build_ttl_cache, cache_entry_count, cache_get, cache_insert, cache_invalidate,
    cache_invalidate_all,
};
use crate::text::same_chars;
use crate::time::Duration;
use crate::utils::utils::{elapsed_since, instant_now};

verus! {

/// `moka::sync::Cache::weighted_size`: an estimate of the total weight of the
/// entries, so nothing is promised of it.
#[verifier::external_body]
fn cache_weighted_size(cache: &moka::sync::Cache<String, DnsCacheItem>) -> u64 {
    cache.weighted_size()
}

/// Counts of the DNS cache. The hit rate is `hits` over `hits + misses`.
#[derive(Debug, Clone, Copy, PartialEq, Eq, Structural)]
pub struct CacheStats {
    /// Entries, as last estimated.
    pub entry_count: u64,
    /// Lookups that found a fresh answer.
    pub hits: u64,
    /// Lookups that found none or a stale one.
    pub misses: u64,
    /// Total weight of the entries, as last estimated.
    pub size: u64,
}

/// A cached answer: when it was cached and for how long it stays valid.
#[derive(Clone)]
pub struct DnsCacheItem {
    records: Vec<DnsRecord>,
    cached_at: std::time::Instant,
    ttl: Duration,
}

/// The records of a cached answer that is `age` old and valid for `ttl`:
/// the records while the answer is younger than `ttl`, otherwise none.
pub fn fresh_records(records: Vec<DnsRecord>, age: Duration, ttl: Duration) -> (r: Option<Vec<DnsRecord>>)
    ensures
        r == (if age.total_nanos() < ttl.total_nanos() { Some(records) } else { None }),
{
    if age.lt(&ttl) {
        Some(records)
    } else {
        None
    }
}

/// The key of the answer to `name` for type `qtype`: `<name>:<type name>`.
pub fn build_cache_key(name: &str, qtype: u16) -> (k: String)
    ensures
        k@ == name@ + ":"@ + record_type_name(qtype),
{
    let mut k = String::from_str(name);
    k.append(":");
    let label = record_type_label(qtype);
    k.append(label.as_str());
    k
}

/// The least time to live of `rs`, in seconds.
pub open spec fn least_ttl(rs: Seq<(Seq<char>, u32, crate::net::IpAddr)>) -> nat
    recommends
        rs.len() > 0,
    decreases rs.len(),
{
    if rs.len() <= 1 {
        rs[0].1 as nat
    } else {
        let m = least_ttl(rs.drop_last());
        if (rs.last().1 as nat) < m {
            rs.last().1 as nat
        } else {
            m
        }
    }
}

/// How long an answer stays cached, in seconds: the least time to live of
/// its records, but no more than `max_ttl`; `max_ttl` for no records.
pub open spec fn answer_ttl_secs(rs: Seq<(Seq<char>, u32, crate::net::IpAddr)>, max_ttl: nat) -> nat {
    if rs.len() == 0 {
        max_ttl
    } else if least_ttl(rs) < max_ttl {
        least_ttl(rs)
    } else {
        max_ttl
    }
}

/// How long `records` stay cached (see `answer_ttl_secs`).
pub fn calculate_min_ttl(records: &Vec<DnsRecord>, max_ttl: u32) -> (d: Duration)
    ensures
        d.total_nanos() == answer_ttl_secs(record_views(records@), max_ttl as nat) * 1_000_000_000,
{
    if records.len() == 0 {
        return Duration::from_secs(max_ttl as u64);
    }
    let ghost v = record_views(records@);
    let mut least: u32 = records[0].ttl;
    let mut i: usize = 1;
    assert(v.take(1).drop_last().len() == 0);
    while i < records.len()
        invariant
            1 <= i <= records@.len(),
            v == record_views(records@),
            least as nat == least_ttl(v.take(i as int)),
        decreases records@.len() - i,
    {
        assert(v.take(i + 1).drop_last() =~= v.take(i as int));
        if records[i].ttl < least {
            least = records[i].ttl;
        }
        i = i + 1;
    }
    assert(v.take(records@.len() as int) =~= v);
    if least < max_ttl {
        Duration::from_secs(least as u64)
    } else {
        Duration::from_secs(max_ttl as u64)
    }
}

/// `s` with every occurrence of `k` left out.
pub open spec fn without(s: Seq<Seq<char>>, k: Seq<char>) -> Seq<Seq<char>>
    decreases s.len(),
{
    if s.len() == 0 {
        s
    } else {
        let w = without(s.drop_last(), k);
        if s.last() == k {
            w
        } else {
            w.push(s.last())
        }
    }
}

/// The index after `key` is dropped: each name keeps its other keys, and a
/// name left with none is dropped.
pub open spec fn index_without(m: Map<Seq<char>, Seq<Seq<char>>>, key: Seq<char>) -> Map<Seq<char>, Seq<Seq<char>>> {
    Map::new(|d: Seq<char>| m.contains_key(d) && without(m[d], key).len() > 0, |d: Seq<char>| without(m[d], key))
}

/// The index after `key` is recorded for `name`: appended to the keys of
/// `name` unless it is among them.
pub open spec fn index_with(m: Map<Seq<char>, Seq<Seq<char>>>, name: Seq<char>, key: Seq<char>) -> Map<Seq<char>, Seq<Seq<char>>> {
    if m.contains_key(name) {
        if m[name].contains(key) {
            m
        } else {
            m.insert(name, m[name].push(key))
        }
    } else {
        m.insert(name, seq![key])
    }
}

/// The entries of an index as (name, keys) pairs of texts.
spec fn entry_pairs(es: Seq<(String, Vec<String>)>) -> Seq<(Seq<char>, Seq<Seq<char>>)> {
    es.map_values(|e: (String, Vec<String>)| (e.0@, string_views(e.1@)))
}

/// Leaving out `k` leaves out exactly `k`.
pub proof fn lemma_without(s: Seq<Seq<char>>, k: Seq<char>)
    ensures
        !without(s, k).contains(k),
        forall|x: Seq<char>| x != k ==> (without(s, k).contains(x) <==> s.contains(x)),
    decreases s.len(),
{
    if s.len() > 0 {
        let t = s.drop_last();
        lemma_without(t, k);
        let w = without(t, k);
        assert forall|x: Seq<char>| x != k implies (without(s, k).contains(x) <==> s.contains(x)) by {
            if s.contains(x) {
                let i = choose|i: int| 0 <= i < s.len() && s[i] == x;
                if i < s.len() - 1 {
                    assert(t[i] == x);
                    assert(t.contains(x));
                    assert(w.contains(x));
                    let j = choose|j: int| 0 <= j < w.len() && w[j] == x;
                    if s.last() != k {
                        assert(w.push(s.last())[j] == x);
                    }
                } else {
                    assert(w.push(s.last())[w.len() as int] == x);
                }
            }
            if without(s, k).contains(x) {
                let j = choose|j: int| 0 <= j < without(s, k).len() && without(s, k)[j] == x;
                if s.last() != k && j == w.len() {
                    assert(s[s.len() - 1] == x);
                } else {
                    assert(w[j] == x);
                    assert(t.contains(x));
                    let i = choose|i: int| 0 <= i < t.len() && t[i] == x;
                    assert(s[i] == x);
                }
            }
        }
        if s.last() != k {
            assert forall|j: int| 0 <= j < w.push(s.last()).len() implies w.push(s.last())[j] != k by {
                if j < w.len() {
                    assert(w[j] != k) by {
                        if w[j] == k {
                            assert(w.contains(k));
                        }
                    }
                }
            }
        }
    }
}

/// After a key is dropped from the index, no name lists it, and every name
/// still listed keeps all its other keys.
pub proof fn lemma_dropped_key_gone(m: Map<Seq<char>, Seq<Seq<char>>>, key: Seq<char>, d: Seq<char>)
    ensures
        index_without(m, key).contains_key(d) ==> !index_without(m, key)[d].contains(key),
        index_without(m, key).contains_key(d) ==> forall|x: Seq<char>| x != key
            ==> (index_without(m, key)[d].contains(x) <==> m[d].contains(x)),
{
    if m.contains_key(d) {
        lemma_without(m[d], key);
    }
}

/// A least time to live is at most that of each record.
proof fn lemma_least_ttl_below(rs: Seq<(Seq<char>, u32, crate::net::IpAddr)>, i: int)
    requires
        0 <= i < rs.len(),
    ensures
        least_ttl(rs) <= rs[i].1,
    decreases rs.len(),
{
    if rs.len() > 1 && i < rs.len() - 1 {
        lemma_least_ttl_below(rs.drop_last(), i);
        assert(rs.drop_last()[i] == rs[i]);
    }
}

/// A cached answer lives no longer than the configured time to live, nor
/// than any of its records.
pub proof fn lemma_answer_ttl_capped(rs: Seq<(Seq<char>, u32, crate::net::IpAddr)>, max_ttl: nat)
    ensures
        answer_ttl_secs(rs, max_ttl) <= max_ttl,
        forall|i: int| 0 <= i < rs.len() ==> answer_ttl_secs(rs, max_ttl) <= #[trigger] rs[i].1,
{
    assert forall|i: int| 0 <= i < rs.len() implies answer_ttl_secs(rs, max_ttl) <= #[trigger] rs[i].1 by {
        lemma_least_ttl_below(rs, i);
    }
}

/// From each name to the cache keys of its answers.
struct ReverseIndex {
    entries: Vec<(String, Vec<String>)>,
}

impl ReverseIndex {
    spec fn pairs(self) -> Seq<(Seq<char>, Seq<Seq<char>>)> {
        entry_pairs(self.entries@)
    }

    spec fn view(self) -> Map<Seq<char>, Seq<Seq<char>>> {
        pairs_map(self.pairs())
    }

    spec fn wf(self) -> bool {
        unique_keys(self.pairs())
    }

    fn new() -> (r: Self)
        ensures
            r.wf(),
            r.view() == Map::<Seq<char>, Seq<Seq<char>>>::empty(),
    {
        let r = ReverseIndex { entries: Vec::new() };
        assert(r.pairs() =~= Seq::empty());
        r
    }

    fn holds_key(keys: &Vec<String>, key: &str) -> (r: bool)
        ensures
            r == string_views(keys@).contains(key@),
    {
        let mut i: usize = 0;
        while i < keys.len()
            invariant
                i <= keys@.len(),
                forall|j: int| 0 <= j < i ==> keys@[j]@ != key@,
            decreases keys@.len() - i,
        {
            if same_chars(keys[i].as_str(), key) {
                assert(string_views(keys@)[i as int] == key@);
                return true;
            }
            i = i + 1;
        }
        false
    }

    fn add(&mut self, name: &str, key: &str)
        requires
            old(self).wf(),
        ensures
            final(self).wf(),
            final(self).view() == index_with(old(self).view(), name@, key@),
    {
        let ghost before = self.pairs();
        let mut i: usize = 0;
        while i < self.entries.len()
            invariant
                i <= self.entries@.len(),
                before == self.pairs(),
                before == old(self).pairs(),
                unique_keys(before),
                forall|j: int| 0 <= j < i ==> self.entries@[j].0@ != name@,
            decreases self.entries@.len() - i,
        {
            if same_chars(self.entries[i].0.as_str(), name) {
                proof {
                    lemma_pairs_map_get(before, i as int);
                }
                if Self::holds_key(&self.entries[i].1, key) {
                    return;
                }
                let (d, mut keys) = self.entries.remove(i);
                let ghost old_keys = string_views(keys@);
                keys.push(String::from_str(key));
                assert(string_views(keys@) =~= old_keys.push(key@));
                self.entries.insert(i, (d, keys));
                proof {
                    assert(self.pairs() =~= before.update(i as int, (before[i as int].0, old_keys.push(key@))));
                    lemma_pairs_map_update(before, i as int, old_keys.push(key@));
                }
                return;
            }
            i = i + 1;
        }
        proof {
            lemma_pairs_map_dom(before, name@);
        }
        let mut keys: Vec<String> = Vec::new();
        keys.push(String::from_str(key));
        assert(string_views(keys@) =~= seq![key@]);
        self.entries.push((String::from_str(name), keys));
        proof {
            assert(self.pairs() =~= before.push((name@, seq![key@])));
            lemma_push_unique(before, name@, seq![key@]);
        }
    }

    fn keys_without(keys: &Vec<String>, key: &str) -> (r: Vec<String>)
        ensures
            string_views(r@) == without(string_views(keys@), key@),
    {
        let mut r: Vec<String> = Vec::new();
        let ghost v = string_views(keys@);
        let mut i: usize = 0;
        while i < keys.len()
            invariant
                i <= keys@.len(),
                v == string_views(keys@),
                string_views(r@) == without(v.take(i as int), key@),
            decreases keys@.len() - i,
        {
            assert(v.take(i + 1).drop_last() =~= v.take(i as int));
            assert(v.take(i + 1).last() == keys@[i as int]@);
            if !same_chars(keys[i].as_str(), key) {
                let ghost before = string_views(r@);
                r.push(keys[i].clone());
                assert(string_views(r@) =~= before.push(keys@[i as int]@));
            }
            i = i + 1;
        }
        assert(v.take(keys@.len() as int) =~= v);
        r
    }

    fn remove_key(&mut self, key: &str)
        requires
            old(self).wf(),
        ensures
            final(self).wf(),
            final(self).view() == index_without(old(self).view(), key@),
    {
        let ghost s = self.pairs();
        let mut kept: Vec<(String, Vec<String>)> = Vec::new();
        let mut i: usize = 0;
        while i < self.entries.len()
            invariant
                i <= self.entries@.len(),
                s == self.pairs(),
                unique_keys(s),
                unique_keys(entry_pairs(kept@)),
                forall|j: int| 0 <= j < kept@.len() ==> pairs_map(s.take(i as int)).contains_key(#[trigger] kept@[j].0@),
                pairs_map(entry_pairs(kept@)) == index_without(pairs_map(s.take(i as int)), key@),
            decreases self.entries@.len() - i,
        {
            let ghost prefix = s.take(i as int);
            let ghost kp = entry_pairs(kept@);
            proof {
                assert(s.take(i + 1).drop_last() =~= prefix);
                assert(unique_keys(prefix));
                lemma_pairs_map_dom(prefix, s[i as int].0);
                if pairs_map(prefix).contains_key(s[i as int].0) {
                    let j = choose|j: int| 0 <= j < prefix.len() && prefix[j].0 == s[i as int].0;
                    assert(s[j].0 == s[i as int].0);
                }
            }
            let rest = Self::keys_without(&self.entries[i].1, key);
            if rest.len() > 0 {
                let ghost w = string_views(rest@);
                kept.push((self.entries[i].0.clone(), rest));
                proof {
                    let kp2 = entry_pairs(kept@);
                    assert(kp2 =~= kp.push((s[i as int].0, w)));
                    assert forall|j: int| 0 <= j < kp.len() implies kp[j].0 != s[i as int].0 by {
                        assert(pairs_map(prefix).contains_key(kept@[j].0@));
                    }
                    lemma_push_unique(kp, s[i as int].0, w);
                    assert(pairs_map(entry_pairs(kept@)) =~= index_without(pairs_map(s.take(i + 1)), key@));
                }
            } else {
                proof {
                    assert(pairs_map(entry_pairs(kept@)) =~= index_without(pairs_map(s.take(i + 1)), key@));
                }
            }
            i = i + 1;
        }
        assert(s.take(self.entries@.len() as int) =~= s);
        self.entries = kept;
    }

    fn clear(&mut self)
        ensures
            final(self).wf(),
            final(self).view() == Map::<Seq<char>, Seq<Seq<char>>>::empty(),
    {
        self.entries = Vec::new();
        assert(self.pairs() =~= Seq::empty());
    }
}

/// Answers by name and type, with the index from names to keys and counts.
pub struct DnsCache {
    max_ttl: u32,
    cache: moka::sync::Cache<String, DnsCacheItem>,
    reverse_index: ReverseIndex,
    stats: CacheStats,
    stored: Ghost<Map<Seq<char>, Seq<(Seq<char>, u32, crate::net::IpAddr)>>>,
}

/// The key an answer to `name` for type `qtype` is cached under
/// (`<name>:<type name>`, see `build_cache_key`).
pub open spec fn answer_key(name: Seq<char>, qtype: u16) -> Seq<char> {
    name + ":"@ + record_type_name(qtype)
}

/// Keys of the same name for types with different names differ.
pub proof fn lemma_answer_keys_apart(name: Seq<char>, t1: u16, t2: u16)
    requires
        record_type_name(t1) != record_type_name(t2),
    ensures
        answer_key(name, t1) != answer_key(name, t2),
{
    let p = name + ":"@;
    if answer_key(name, t1) == answer_key(name, t2) {
        assert(answer_key(name, t1).subrange(p.len() as int, answer_key(name, t1).len() as int) =~= record_type_name(t1));
        assert(answer_key(name, t2).subrange(p.len() as int, answer_key(name, t2).len() as int) =~= record_type_name(t2));
    }
}

/// An answer stored for one type of a name is not what is stored for another
/// type of that name: storing `rs` under `(name, t1)` leaves the entry of
/// `(name, t2)` as it was, whenever the two types have different names.
pub proof fn lemma_store_keeps_other_types(
    m: Map<Seq<char>, Seq<(Seq<char>, u32, crate::net::IpAddr)>>,
    name: Seq<char>,
    t1: u16,
    t2: u16,
    rs: Seq<(Seq<char>, u32, crate::net::IpAddr)>,
)
    requires
        record_type_name(t1) != record_type_name(t2),
    ensures
        m.insert(answer_key(name, t1), rs).contains_key(answer_key(name, t2)) == m.contains_key(answer_key(name, t2)),
        m.contains_key(answer_key(name, t2)) ==> m.insert(answer_key(name, t1), rs)[answer_key(name, t2)]
            == m[answer_key(name, t2)],
{
    lemma_answer_keys_apart(name, t1, t2);
}

impl DnsCache {
    #[verifier::type_invariant]
    spec fn index_wf(self) -> bool {
        self.reverse_index.wf()
    }

    /// From each name to the keys of its cached answers.
    pub closed spec fn index(self) -> Map<Seq<char>, Seq<Seq<char>>> {
        self.reverse_index.view()
    }

    /// The counts.
    pub closed spec fn counts(self) -> CacheStats {
        self.stats
    }

    /// The answers handed to the cache, by key: the records last stored under
    /// each key not dropped since. (Whether the cache still holds one depends
    /// on expiry and eviction.)
    pub closed spec fn stored_answers(self) -> Map<Seq<char>, Seq<(Seq<char>, u32, crate::net::IpAddr)>> {
        self.stored@
    }

    /// The longest time to live of an answer, in seconds.
    pub closed spec fn ttl_cap(self) -> u32 {
        self.max_ttl
    }

    /// An empty cache of up to `dns_cache_size` answers, each expiring
    /// `cache_expiry` seconds after it is cached, and living at most the DNS
    /// time to live.
    pub fn new(config: &Config) -> (c: Self)
        requires
            config.cache.cache_expiry <= MOKA_MAX_TTL_SECS,
        ensures
            c.index() == Map::<Seq<char>, Seq<Seq<char>>>::empty(),
            c.stored_answers() == Map::<Seq<char>, Seq<(Seq<char>, u32, crate::net::IpAddr)>>::empty(),
            c.counts() == (CacheStats { entry_count: 0, hits: 0, misses: 0, size: 0 }),
            c.ttl_cap() == config.dns.cache_ttl,
    {
        let expiry = Duration::from_secs(config.cache.cache_expiry);
        DnsCache {
            max_ttl: config.dns.cache_ttl,
            cache: build_ttl_cache(config.cache.dns_cache_size, expiry),
            reverse_index: ReverseIndex::new(),
            stats: CacheStats { entry_count: 0, hits: 0, misses: 0, size: 0 },
            stored: Ghost(Map::empty()),
        }
    }

    /// The cached answer to `name` for type `qtype`, if it is still valid
    /// (see `fresh_records`, given the answer's age); a stale answer is
    /// dropped with its key. A lookup that returns an answer counts as a hit,
    /// any other as a miss. What the cache holds, and how old it is, depend on
    /// expiry and the clock, so the answer itself is not promised.
    pub fn get(&mut self, name: &str, qtype: u16) -> (r: Option<Vec<DnsRecord>>)
        requires
            old(self).counts().hits < u64::MAX,
            old(self).counts().misses < u64::MAX,
        ensures
            r is Some ==> final(self).counts().hits == old(self).counts().hits + 1
                && final(self).counts().misses == old(self).counts().misses,
            r is None ==> final(self).counts().misses == old(self).counts().misses + 1
                && final(self).counts().hits == old(self).counts().hits,
            r is Some ==> final(self).index() == old(self).index(),
            r is None ==> (final(self).index() == old(self).index()
                || final(self).index() == index_without(old(self).index(), name@ + ":"@ + record_type_name(qtype))),
            r is Some ==> final(self).stored_answers() == old(self).stored_answers(),
            r is None ==> (final(self).stored_answers() == old(self).stored_answers()
                || final(self).stored_answers() == old(self).stored_answers().remove(answer_key(name@, qtype))),
            final(self).ttl_cap() == old(self).ttl_cap(),
    {
        let key = build_cache_key(name, qtype);
        let r = match cache_get(&self.cache, &key) {
            Some(item) => {
                let age = elapsed_since(&item.cached_at);
                let fresh = fresh_records(item.records, age, item.ttl);
                if fresh.is_none() {
                    cache_invalidate(&self.cache, &key);
                    self.remove_from_index(key.as_str());
                    proof {
                        use_type_invariant(&*self);
                    }
                    proof {
            use_type_invariant(&*self);
        }
        self.stored = Ghost(self.stored@.remove(key@));
                }
                fresh
            },
            None => None,
        };
        self.update_stats(r.is_some());
        r
    }

    /// Caches `records` as the answer to `name` for type `qtype`, valid for
    /// the time `calculate_min_ttl` gives, and records the key under `name`.
    pub fn set(&mut self, name: &str, qtype: u16, records: Vec<DnsRecord>)
        ensures
            final(self).index() == index_with(old(self).index(), name@, name@ + ":"@ + record_type_name(qtype)),
            final(self).stored_answers() == old(self).stored_answers().insert(answer_key(name@, qtype), record_views(records@)),
            final(self).counts() == old(self).counts(),
            final(self).ttl_cap() == old(self).ttl_cap(),
    {
        let key = build_cache_key(name, qtype);
        let ttl = calculate_min_ttl(&records, self.max_ttl);
        let item = DnsCacheItem { records, cached_at: instant_now(), ttl };
        let ghost answer = record_views(item.records@);
        cache_insert(&self.cache, key.clone(), item);
        self.add_to_index(name, key.as_str());
        proof {
            use_type_invariant(&*self);
        }
        self.stored = Ghost(self.stored@.insert(key@, answer));
    }

    /// Drops the answer to `name` for type `qtype` and its key.
    pub fn remove(&mut self, name: &str, qtype: u16)
        ensures
            final(self).index() == index_without(old(self).index(), name@ + ":"@ + record_type_name(qtype)),
            final(self).stored_answers() == old(self).stored_answers().remove(answer_key(name@, qtype)),
            final(self).counts() == old(self).counts(),
            final(self).ttl_cap() == old(self).ttl_cap(),
    {
        let key = build_cache_key(name, qtype);
        cache_invalidate(&self.cache, &key);
        self.remove_from_index(key.as_str());
        proof {
            use_type_invariant(&*self);
        }
        self.stored = Ghost(self.stored@.remove(key@));
    }

    /// Drops every answer and the whole index; the counts stay.
    pub fn clear(&mut self)
        ensures
            final(self).index() == Map::<Seq<char>, Seq<Seq<char>>>::empty(),
            final(self).stored_answers() == Map::<Seq<char>, Seq<(Seq<char>, u32, crate::net::IpAddr)>>::empty(),
            final(self).counts() == old(self).counts(),
            final(self).ttl_cap() == old(self).ttl_cap(),
    {
        cache_invalidate_all(&self.cache);
        let mut index = ReverseIndex::new();
        std::mem::swap(&mut index, &mut self.reverse_index);
        self.stored = Ghost(Map::empty());
    }

    /// The counts.
    pub fn stats(&self) -> (s: CacheStats)
        ensures
            s == self.counts(),
    {
        self.stats
    }

    fn add_to_index(&mut self, name: &str, key: &str)
        ensures
            final(self).index() == index_with(old(self).index(), name@, key@),
            final(self).counts() == old(self).counts(),
            final(self).stored_answers() == old(self).stored_answers(),
            final(self).ttl_cap() == old(self).ttl_cap(),
    {
        proof {
            use_type_invariant(&*self);
        }
        let mut index = ReverseIndex::new();
        std::mem::swap(&mut index, &mut self.reverse_index);
        index.add(name, key);
        self.reverse_index = index;
    }

    fn remove_from_index(&mut self, key: &str)
        ensures
            final(self).index() == index_without(old(self).index(), key@),
            final(self).counts() == old(self).counts(),
            final(self).stored_answers() == old(self).stored_answers(),
            final(self).ttl_cap() == old(self).ttl_cap(),
    {
        proof {
            use_type_invariant(&*self);
        }
        let mut index = ReverseIndex::new();
        std::mem::swap(&mut index, &mut self.reverse_index);
        index.remove_key(key);
        self.reverse_index = index;
    }

    fn update_stats(&mut self, hit: bool)
        requires
            old(self).counts().hits < u64::MAX,
            old(self).counts().misses < u64::MAX,
        ensures
            hit ==> final(self).counts().hits == old(self).counts().hits + 1
                && final(self).counts().misses == old(self).counts().misses,
            !hit ==> final(self).counts().misses == old(self).counts().misses + 1
                && final(self).counts().hits == old(self).counts().hits,
            final(self).index() == old(self).index(),
            final(self).stored_answers() == old(self).stored_answers(),
            final(self).ttl_cap() == old(self).ttl_cap(),
    {
        proof {
            use_type_invariant(&*self);
        }
        let mut st = self.stats;
        if hit {
            st.hits = st.hits + 1;
        } else {
            st.misses = st.misses + 1;
        }
        st.entry_count = cache_entry_count(&self.cache);
        st.size = cache_weighted_size(&self.cache);
        self.stats = st;
    }
}

} // verus!
