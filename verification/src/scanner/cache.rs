//! The scan cache: recent probe results and address lists per domain, held in
//! `moka` caches whose entries expire, with hit and miss counts.
use vstd::prelude::*;
use crate::config::models::Config;
use crate::net::IpAddr;
use crate::scanner::scanner::ScanResult;
use crate::time::Duration;
use crate::utils::utils::{elapsed_since, instant_now};
use std::collections::HashMap;

verus! {

/// A concurrent cache of the `moka` crate (`moka::sync::Cache`).
#[verifier::external_type_specification]
#[verifier::external_body]
#[verifier::reject_recursive_types(K)]
#[verifier::reject_recursive_types(V)]
#[verifier::reject_recursive_types(S)]
pub struct ExMokaCache<K, V, S>(moka::sync::Cache<K, V, S>);

/// The longest time to live `moka` accepts: 1000 years of 365 days, in seconds.
pub const MOKA_MAX_TTL_SECS: u64 = 31_536_000_000;

/// Builds a `moka::sync::Cache` (`Cache::builder`, `max_capacity`,
/// `time_to_live`, `build`) holding up to `capacity` entries, each expiring
/// `ttl` after its insertion. `build` panics on a time to live over 1000 years.
#[verifier::external_body]
pub(crate) fn build_ttl_cache<V: Clone + Send + Sync + 'static>(capacity: u64, ttl: Duration) -> moka::sync::Cache<String, V>
    requires
        ttl.total_nanos() <= MOKA_MAX_TTL_SECS * 1_000_000_000,
{
    moka::sync::Cache::builder()
        .max_capacity(capacity)
        .time_to_live(std::time::Duration::new(ttl.as_secs(), ttl.subsec_nanos()))
        .build()
}

/// `moka::sync::Cache::get`: a clone of the value under `key`. What is there
/// depends on expiry and eviction, so nothing is promised of the result.
#[verifier::external_body]
pub(crate) fn cache_get<V: Clone + Send + Sync + 'static>(cache: &moka::sync::Cache<String, V>, key: &String) -> Option<V> {
    cache.get(key)
}

/// `moka::sync::Cache::insert`: stores `value` under `key`.
#[verifier::external_body]
pub(crate) fn cache_insert<V: Clone + Send + Sync + 'static>(cache: &moka::sync::Cache<String, V>, key: String, value: V) {
    cache.insert(key, value)
}

/// `moka::sync::Cache::invalidate`: drops the entry under `key`.
#[verifier::external_body]
pub(crate) fn cache_invalidate<V: Clone + Send + Sync + 'static>(cache: &moka::sync::Cache<String, V>, key: &String) {
    cache.invalidate(key)
}

/// `moka::sync::Cache::invalidate_all`: drops every entry.
#[verifier::external_body]
pub(crate) fn cache_invalidate_all<V: Clone + Send + Sync + 'static>(cache: &moka::sync::Cache<String, V>) {
    cache.invalidate_all()
}

/// `moka::sync::Cache::entry_count`: an estimate of the number of entries,
/// so nothing is promised of it.
#[verifier::external_body]
pub(crate) fn cache_entry_count<V: Clone + Send + Sync + 'static>(cache: &moka::sync::Cache<String, V>) -> u64 {
    cache.entry_count()
}

/// Counts of the scan cache's lookups. The hit rate is `hits` over
/// `total_requests`.
#[derive(Debug, Clone, Copy, PartialEq, Eq, Structural)]
pub struct CacheStats {
    /// Lookups of scan results.
    pub total_requests: u64,
    /// Lookups that found fresh results.
    pub hits: u64,
    /// Lookups that found none or stale ones.
    pub misses: u64,
    /// Entries of the scan result cache, as last estimated.
    pub scan_cache_size: u64,
    /// Entries of the address list cache, as last estimated.
    pub ip_cache_size: u64,
}

impl CacheStats {
    /// All counts zero.
    pub fn zero() -> (s: Self)
        ensures
            s.total_requests == 0 && s.hits == 0 && s.misses == 0,
            s.scan_cache_size == 0 && s.ip_cache_size == 0,
    {
        CacheStats { total_requests: 0, hits: 0, misses: 0, scan_cache_size: 0, ip_cache_size: 0 }
    }
}

/// Cached results of one domain: when they were cached and for how long they stay valid.
#[derive(Clone)]
pub struct ScanCacheItem {
    results: Vec<ScanResult>,
    cached_at: std::time::Instant,
    ttl: Duration,
}

/// The results kept in the cache when they are `age` old and stay valid for `ttl`.
pub fn fresh_results(results: Vec<ScanResult>, age: Duration, ttl: Duration) -> (r: Option<Vec<ScanResult>>)
    ensures
        r == (if age.total_nanos() < ttl.total_nanos() { Some(results) } else { None }),
{
    if age.lt(&ttl) {
        Some(results)
    } else {
        None
    }
}

/// The key of a domain's scan results: `scan:<domain>`.
pub fn build_scan_cache_key(domain: &str) -> (k: String)
    ensures
        k@ == "scan:"@ + domain@,
{
    let mut k = String::from_str("scan:");
    k.append(domain);
    k
}

/// The key of a domain's address list: `ip:<domain>`.
pub fn build_ip_cache_key(domain: &str) -> (k: String)
    ensures
        k@ == "ip:"@ + domain@,
{
    let mut k = String::from_str("ip:");
    k.append(domain);
    k
}

/// Nanoseconds in one second.
pub open spec fn nanos_of_secs(secs: nat) -> nat {
    secs * 1_000_000_000
}

/// When `r` was scanned, in nanoseconds since the Unix epoch (the milliseconds
/// are read as a `u64`).
pub open spec fn scanned_nanos(r: ScanResult) -> nat {
    (r.scanned_at_ms as u64) as nat * 1_000_000
}

/// Whether some result of `rs`, scanned at or before `now`, is younger than `limit` (nanoseconds).
pub open spec fn some_younger(rs: Seq<ScanResult>, now: nat, limit: nat) -> bool {
    exists|i: int| 0 <= i < rs.len() && scanned_nanos(#[trigger] rs[i]) <= now && now - scanned_nanos(rs[i]) < limit
}

/// How long cached results stay valid, in seconds: the configured expiry when
/// there are none; 300 when the youngest was scanned less than a minute
/// before `now`, 120 when less than five minutes before, and 30 otherwise.
/// Results dated after `now` have no age.
pub open spec fn scan_ttl_secs(rs: Seq<ScanResult>, now: nat, cache_expiry: nat) -> nat {
    if rs.len() == 0 {
        cache_expiry
    } else if some_younger(rs, now, nanos_of_secs(60)) {
        300
    } else if some_younger(rs, now, nanos_of_secs(300)) {
        120
    } else {
        30
    }
}

/// How long the results stay valid when cached at `now` (time since the Unix
/// epoch); see `scan_ttl_secs`.
pub fn calculate_scan_ttl(results: &Vec<ScanResult>, now: Duration, cache_expiry: u64) -> (ttl: Duration)
    ensures
        ttl.total_nanos() == nanos_of_secs(scan_ttl_secs(results@, now.total_nanos(), cache_expiry as nat)),
{
    if results.len() == 0 {
        return Duration::from_secs(cache_expiry);
    }
    let now_nanos: u128 = now.as_nanos();
    let mut within_minute = false;
    let mut within_five = false;
    let mut i: usize = 0;
    while i < results.len()
        invariant
            i <= results@.len(),
            now_nanos == now.total_nanos(),
            within_minute == some_younger(results@.take(i as int), now_nanos as nat, nanos_of_secs(60)),
            within_five == some_younger(results@.take(i as int), now_nanos as nat, nanos_of_secs(300)),
        decreases results@.len() - i,
    {
        let scanned: u128 = ((results[i].scanned_at_ms as u64) as u128) * 1_000_000;
        if scanned <= now_nanos {
            let age = now_nanos - scanned;
            if age < 60_000_000_000 {
                within_minute = true;
            }
            if age < 300_000_000_000 {
                within_five = true;
            }
        }
        proof {
            let t = results@.take(i + 1);
            assert(t[i as int] == results@[i as int]);
            assert forall|lim: nat| some_younger(t, now_nanos as nat, lim) == (some_younger(results@.take(i as int), now_nanos as nat, lim)
                || (scanned_nanos(results@[i as int]) <= now_nanos && now_nanos - scanned_nanos(results@[i as int]) < lim)) by {
                if some_younger(results@.take(i as int), now_nanos as nat, lim) {
                    let j = choose|j: int| 0 <= j < i && scanned_nanos(#[trigger] results@.take(i as int)[j]) <= now_nanos
                        && now_nanos - scanned_nanos(results@.take(i as int)[j]) < lim;
                    assert(t[j] == results@[j]);
                }
                if some_younger(t, now_nanos as nat, lim) {
                    let j = choose|j: int| 0 <= j < i + 1 && scanned_nanos(#[trigger] t[j]) <= now_nanos
                        && now_nanos - scanned_nanos(t[j]) < lim;
                    if j < i {
                        assert(results@.take(i as int)[j] == t[j]);
                    }
                }
            }
        }
        i = i + 1;
    }
    assert(results@.take(results@.len() as int) =~= results@);
    if within_minute {
        Duration::from_secs(300)
    } else if within_five {
        Duration::from_secs(120)
    } else {
        Duration::from_secs(30)
    }
}

/// How long cached results stay valid, in seconds, with the clock reading
/// `now` (time since the Unix epoch, `None` for a clock set before it): as
/// `scan_ttl_secs`, except that with the clock before the epoch every result
/// is dated after now and so has no age.
pub open spec fn scan_ttl_secs_at(rs: Seq<ScanResult>, now: Option<nat>, cache_expiry: nat) -> nat {
    match now {
        Some(n) => scan_ttl_secs(rs, n, cache_expiry),
        None => if rs.len() == 0 { cache_expiry } else { 30 },
    }
}

/// How long the results stay valid when cached with the clock reading `now`
/// (see `scan_ttl_secs_at`).
pub fn scan_ttl_at(results: &Vec<ScanResult>, now: Option<Duration>, cache_expiry: u64) -> (ttl: Duration)
    ensures
        ttl.total_nanos() == nanos_of_secs(scan_ttl_secs_at(
            results@,
            match now { Some(d) => Some(d.total_nanos()), None => None },
            cache_expiry as nat,
        )),
{
    match now {
        Some(n) => calculate_scan_ttl(results, n, cache_expiry),
        None => {
            if results.len() == 0 {
                Duration::from_secs(cache_expiry)
            } else {
                Duration::from_secs(30)
            }
        },
    }
}

/// `SystemTime::now` as time since the Unix epoch (`duration_since`), `None`
/// for a clock set before the epoch; it depends on the clock, so nothing more
/// is promised of it.
#[verifier::external_body]
fn time_since_epoch() -> Option<Duration> {
    match std::time::SystemTime::now().duration_since(std::time::UNIX_EPOCH) {
        Ok(d) => Some(Duration::new(d.as_secs(), d.subsec_nanos())),
        Err(_) => None,
    }
}

/// Recent scan results and address lists per domain, with lookup counts.
pub struct ScanCache {
    cache_expiry: u64,
    scan_cache: moka::sync::Cache<String, ScanCacheItem>,
    ip_cache: moka::sync::Cache<String, Vec<IpAddr>>,
    stats: CacheStats,
    ip_lists: Ghost<Map<Seq<char>, Seq<IpAddr>>>,
}

/// The key the address list of `domain` is cached under (`ip:<domain>`).
pub open spec fn ip_list_key(domain: Seq<char>) -> Seq<char> {
    "ip:"@ + domain
}

/// Different domains have different address-list keys, so caching the list
/// of one domain leaves the list stored for any other as it was.
pub proof fn lemma_ip_list_keys_apart(m: Map<Seq<char>, Seq<IpAddr>>, d1: Seq<char>, d2: Seq<char>, ips: Seq<IpAddr>)
    requires
        d1 != d2,
    ensures
        ip_list_key(d1) != ip_list_key(d2),
        m.insert(ip_list_key(d1), ips).contains_key(ip_list_key(d2)) == m.contains_key(ip_list_key(d2)),
        m.contains_key(ip_list_key(d2)) ==> m.insert(ip_list_key(d1), ips)[ip_list_key(d2)] == m[ip_list_key(d2)],
{
    if ip_list_key(d1) == ip_list_key(d2) {
        let p = "ip:"@;
        assert(ip_list_key(d1).subrange(p.len() as int, ip_list_key(d1).len() as int) =~= d1);
        assert(ip_list_key(d2).subrange(p.len() as int, ip_list_key(d2).len() as int) =~= d2);
    }
}

impl ScanCache {
    #[verifier::type_invariant]
    spec fn counts_add_up(self) -> bool {
        self.stats.hits + self.stats.misses == self.stats.total_requests
    }

    /// The lookup counts.
    pub closed spec fn counts(self) -> CacheStats {
        self.stats
    }

    /// The expiry of entries, in seconds.
    pub closed spec fn expiry(self) -> u64 {
        self.cache_expiry
    }

    /// The address lists handed to the cache, by key: the list last stored
    /// under each key not dropped since, whole. (Whether the cache still holds
    /// one depends on expiry and eviction.)
    pub closed spec fn stored_ip_lists(self) -> Map<Seq<char>, Seq<IpAddr>> {
        self.ip_lists@
    }

    /// A cache of `scan_cache_size` results and a tenth as many address
    /// lists, whose entries expire after `cache_expiry` seconds.
    pub fn new(config: &Config) -> (c: Self)
        requires
            config.cache.cache_expiry <= MOKA_MAX_TTL_SECS,
        ensures
            c.counts() == CacheStats::zero_spec(),
            c.expiry() == config.cache.cache_expiry,
            c.stored_ip_lists() == Map::<Seq<char>, Seq<IpAddr>>::empty(),
    {
        let size = config.cache.scan_cache_size;
        let expiry = Duration::from_secs(config.cache.cache_expiry);
        ScanCache {
            cache_expiry: config.cache.cache_expiry,
            scan_cache: build_ttl_cache(size, expiry),
            ip_cache: build_ttl_cache(size / 10, expiry),
            stats: CacheStats::zero(),
            ip_lists: Ghost(Map::empty()),
        }
    }

    /// The cached results of `domain` if they are still valid. A lookup counts
    /// as a hit when it returns results and as a miss otherwise; stale results
    /// are dropped. What the cache holds depends on expiry, so the results
    /// themselves are not promised.
    pub fn get_scan_results(&mut self, domain: &str) -> (r: Option<Vec<ScanResult>>)
        requires
            old(self).counts().total_requests < u64::MAX,
        ensures
            final(self).counts().total_requests == old(self).counts().total_requests + 1,
            r is Some ==> final(self).counts().hits == old(self).counts().hits + 1
                && final(self).counts().misses == old(self).counts().misses,
            r is None ==> final(self).counts().misses == old(self).counts().misses + 1
                && final(self).counts().hits == old(self).counts().hits,
            final(self).stored_ip_lists() == old(self).stored_ip_lists(),
            final(self).expiry() == old(self).expiry(),
    {
        proof {
            use_type_invariant(&*self);
        }
        let key = build_scan_cache_key(domain);
        let r = match cache_get(&self.scan_cache, &key) {
            Some(item) => {
                let age = elapsed_since(&item.cached_at);
                let fresh = fresh_results(item.results, age, item.ttl);
                if fresh.is_none() {
                    cache_invalidate(&self.scan_cache, &key);
                }
                fresh
            },
            None => None,
        };
        self.update_stats(r.is_some());
        r
    }

    fn update_stats(&mut self, hit: bool)
        requires
            old(self).counts().total_requests < u64::MAX,
        ensures
            final(self).counts().total_requests == old(self).counts().total_requests + 1,
            hit ==> final(self).counts().hits == old(self).counts().hits + 1
                && final(self).counts().misses == old(self).counts().misses,
            !hit ==> final(self).counts().misses == old(self).counts().misses + 1
                && final(self).counts().hits == old(self).counts().hits,
            final(self).stored_ip_lists() == old(self).stored_ip_lists(),
            final(self).expiry() == old(self).expiry(),
    {
        proof {
            use_type_invariant(&*self);
        }
        let mut st = self.stats;
        st.total_requests = st.total_requests + 1;
        if hit {
            st.hits = st.hits + 1;
        } else {
            st.misses = st.misses + 1;
        }
        st.scan_cache_size = cache_entry_count(&self.scan_cache);
        st.ip_cache_size = cache_entry_count(&self.ip_cache);
        self.stats = st;
    }

    /// Caches `results` for `domain`; they stay valid for the time
    /// `scan_ttl_at` gives at the moment of caching.
    pub fn set_scan_results(&self, domain: &str, results: Vec<ScanResult>) {
        let key = build_scan_cache_key(domain);
        let ttl = scan_ttl_at(&results, time_since_epoch(), self.cache_expiry);
        let item = ScanCacheItem { results, cached_at: instant_now(), ttl };
        cache_insert(&self.scan_cache, key, item);
    }

    /// The cached address list of `domain`, if the cache still holds one.
    pub fn get_ips_for_domain(&self, domain: &str) -> Option<Vec<IpAddr>> {
        let key = build_ip_cache_key(domain);
        cache_get(&self.ip_cache, &key)
    }

    /// Caches the address list of `domain`, whole, under its key.
    pub fn set_ips_for_domain(&mut self, domain: &str, ips: Vec<IpAddr>)
        ensures
            final(self).stored_ip_lists() == old(self).stored_ip_lists().insert(ip_list_key(domain@), ips@),
            final(self).counts() == old(self).counts(),
            final(self).expiry() == old(self).expiry(),
    {
        proof {
            use_type_invariant(&*self);
        }
        let key = build_ip_cache_key(domain);
        self.ip_lists = Ghost(self.ip_lists@.insert(key@, ips@));
        cache_insert(&self.ip_cache, key, ips);
    }

    /// Drops the cached results of `domain`.
    pub fn remove_scan_results(&self, domain: &str) {
        let key = build_scan_cache_key(domain);
        cache_invalidate(&self.scan_cache, &key);
    }

    /// Drops the cached address list of `domain`.
    pub fn remove_ips_for_domain(&mut self, domain: &str)
        ensures
            final(self).stored_ip_lists() == old(self).stored_ip_lists().remove(ip_list_key(domain@)),
            final(self).counts() == old(self).counts(),
            final(self).expiry() == old(self).expiry(),
    {
        proof {
            use_type_invariant(&*self);
        }
        let key = build_ip_cache_key(domain);
        self.ip_lists = Ghost(self.ip_lists@.remove(key@));
        cache_invalidate(&self.ip_cache, &key);
    }

    /// Drops every entry and resets the counts.
    pub fn clear(&mut self)
        ensures
            final(self).counts() == CacheStats::zero_spec(),
            final(self).expiry() == old(self).expiry(),
            final(self).stored_ip_lists() == Map::<Seq<char>, Seq<IpAddr>>::empty(),
    {
        cache_invalidate_all(&self.scan_cache);
        cache_invalidate_all(&self.ip_cache);
        self.stats = CacheStats::zero();
        self.ip_lists = Ghost(Map::empty());
    }

    /// The lookup counts.
    pub fn get_stats(&self) -> (s: CacheStats)
        ensures
            s == self.counts(),
    {
        self.stats
    }

    /// A snapshot for saving: the counts; the entries themselves are not
    /// exported, so both maps are empty.
    pub fn export_data(&self) -> (e: CacheExport)
        ensures
            e.scan_data@ == Map::<String, Vec<ScanResult>>::empty(),
            e.ip_data@ == Map::<String, Vec<IpAddr>>::empty(),
            e.stats == self.counts(),
    {
        CacheExport { scan_data: HashMap::new(), ip_data: HashMap::new(), stats: self.stats }
    }

    /// Loads a saved snapshot; entries are not imported, so this changes
    /// nothing and always succeeds.
    pub fn import_data(&self, data: CacheExport) -> (r: Result<(), crate::error::RusherError>)
        ensures
            r is Ok,
    {
        Ok(())
    }
}

/// A snapshot of the cache for saving.
pub struct CacheExport {
    /// Results per domain.
    pub scan_data: HashMap<String, Vec<ScanResult>>,
    /// Address lists per domain.
    pub ip_data: HashMap<String, Vec<IpAddr>>,
    /// The counts.
    pub stats: CacheStats,
}

impl CacheStats {
    /// All counts zero.
    pub open spec fn zero_spec() -> CacheStats {
        CacheStats { total_requests: 0, hits: 0, misses: 0, scan_cache_size: 0, ip_cache_size: 0 }
    }
}

} // verus!
