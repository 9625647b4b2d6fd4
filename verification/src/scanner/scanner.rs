//! Probe results, the table of results per domain, and the fastest address.
use vstd::prelude::*;
use crate::assoc::{lemma_pairs_map_dom, lemma_pairs_map_get, lemma_pairs_map_len, lemma_pairs_map_update, lemma_push_unique, pairs_map, unique_keys};
use crate::net::{IpAddr, Ipv4Addr, Ipv6Addr};
use crate::text::same_chars;

verus! {

/// The outcome of probing one address for one domain.
#[derive(Debug, Clone)]
pub struct ScanResult {
    /// Probed address.
    pub ip: IpAddr,
    /// Domain it was probed for.
    pub domain: String,
    /// Response time in milliseconds (`u64::MAX` when unreachable).
    pub response_time: u64,
    /// When the probe ran, in milliseconds since the Unix epoch.
    pub scanned_at_ms: u128,
    /// Whether the address answered.
    pub available: bool,
}

/// The results of one domain, one per address.
struct DomainScan {
    domain: String,
    results: Vec<ScanResult>,
}

/// `m` with each of `rs` recorded under its address, in order (a later one wins).
pub open spec fn with_results(m: Map<IpAddr, ScanResult>, rs: Seq<ScanResult>) -> Map<IpAddr, ScanResult>
    decreases rs.len(),
{
    if rs.len() == 0 {
        m
    } else {
        with_results(m, rs.drop_last()).insert(rs.last().ip, rs.last())
    }
}

/// After recording `rs`, an address probed in `rs` holds its last result there.
pub proof fn lemma_recorded_result(m: Map<IpAddr, ScanResult>, rs: Seq<ScanResult>, i: int)
    requires
        0 <= i < rs.len(),
        forall|j: int| i < j < rs.len() ==> rs[j].ip != rs[i].ip,
    ensures
        with_results(m, rs).contains_key(rs[i].ip),
        with_results(m, rs)[rs[i].ip] == rs[i],
    decreases rs.len(),
{
    if i < rs.len() - 1 {
        lemma_recorded_result(m, rs.drop_last(), i);
        assert(rs.drop_last()[i] == rs[i]);
        assert(rs[rs.len() - 1].ip != rs[i].ip);
    }
}

/// Recording `rs` leaves alone every address not probed in `rs`.
pub proof fn lemma_unprobed_unchanged(m: Map<IpAddr, ScanResult>, rs: Seq<ScanResult>, ip: IpAddr)
    requires
        forall|j: int| 0 <= j < rs.len() ==> rs[j].ip != ip,
    ensures
        with_results(m, rs).contains_key(ip) == m.contains_key(ip),
        m.contains_key(ip) ==> with_results(m, rs)[ip] == m[ip],
    decreases rs.len(),
{
    if rs.len() > 0 {
        lemma_unprobed_unchanged(m, rs.drop_last(), ip);
        assert(rs[rs.len() - 1].ip != ip);
    }
}

/// Whether `ip` is an available address of `m` with the least response time
/// among the available ones.
pub open spec fn is_fastest(m: Map<IpAddr, ScanResult>, ip: IpAddr) -> bool {
    &&& m.contains_key(ip)
    &&& m[ip].available
    &&& forall|k: IpAddr| #[trigger] m.contains_key(k) && m[k].available ==> m[ip].response_time <= m[k].response_time
}

/// Whether some address of `m` is available.
pub open spec fn any_available(m: Map<IpAddr, ScanResult>) -> bool {
    exists|k: IpAddr| #[trigger] m.contains_key(k) && m[k].available
}

impl DomainScan {
    spec fn pairs(self) -> Seq<(IpAddr, ScanResult)> {
        self.results@.map_values(|r: ScanResult| (r.ip, r))
    }

    spec fn map(self) -> Map<IpAddr, ScanResult> {
        pairs_map(self.pairs())
    }

    spec fn wf(self) -> bool {
        unique_keys(self.pairs())
    }

    fn find_ip(&self, ip: IpAddr) -> (r: Option<usize>)
        ensures
            match r {
                Some(i) => i < self.results@.len() && self.results@[i as int].ip == ip,
                None => forall|j: int| 0 <= j < self.results@.len() ==> self.results@[j].ip != ip,
            },
    {
        let mut i: usize = 0;
        while i < self.results.len()
            invariant
                i <= self.results@.len(),
                forall|j: int| 0 <= j < i ==> self.results@[j].ip != ip,
            decreases self.results@.len() - i,
        {
            if self.results[i].ip == ip {
                return Some(i);
            }
            i = i + 1;
        }
        None
    }

    fn put(&mut self, r: ScanResult)
        requires
            old(self).wf(),
        ensures
            final(self).wf(),
            final(self).map() == old(self).map().insert(r.ip, r),
            final(self).domain == old(self).domain,
    {
        let ghost ip = r.ip;
        let ghost r0 = r;
        match self.find_ip(r.ip) {
            Some(i) => {
                let ghost before = self.pairs();
                self.results.set(i, r);
                proof {
                    assert(self.pairs() =~= before.update(i as int, (before[i as int].0, r0)));
                    lemma_pairs_map_update(before, i as int, r0);
                }
            },
            None => {
                let ghost before = self.pairs();
                self.results.push(r);
                proof {
                    assert(self.pairs() =~= before.push((ip, r0)));
                    lemma_push_unique(before, ip, r0);
                }
            },
        }
    }

    fn put_all(&mut self, rs: Vec<ScanResult>)
        requires
            old(self).wf(),
        ensures
            final(self).wf(),
            final(self).map() == with_results(old(self).map(), rs@),
            final(self).domain == old(self).domain,
    {
        let n = rs.len();
        let ghost all = rs@;
        let ghost start = self.map();
        let mut rest = rs;
        let mut k: usize = 0;
        assert(all.take(0) =~= Seq::<ScanResult>::empty());
        while rest.len() > 0
            invariant
                self.wf(),
                self.domain == old(self).domain,
                k <= all.len(),
                all.len() == n,
                rest@ == all.skip(k as int),
                self.map() == with_results(start, all.take(k as int)),
            decreases rest@.len(),
        {
            let r = rest.remove(0);
            assert(all.take(k + 1).drop_last() =~= all.take(k as int));
            self.put(r);
            k = k + 1;
            assert(rest@ =~= all.skip(k as int));
        }
        assert(all.take(k as int) =~= all);
    }

    /// Position of an available result with the least response time (the first such).
    fn fastest_available(&self) -> (r: Option<usize>)
        requires
            self.wf(),
        ensures
            match r {
                Some(i) => i < self.results@.len() && is_fastest(self.map(), self.results@[i as int].ip),
                None => !any_available(self.map()),
            },
    {
        let mut best: Option<usize> = None;
        let mut i: usize = 0;
        while i < self.results.len()
            invariant
                self.wf(),
                i <= self.results@.len(),
                match best {
                    Some(b) => b < i && self.results@[b as int].available && forall|j: int|
                        0 <= j < i && self.results@[j].available ==> self.results@[b as int].response_time
                            <= #[trigger] self.results@[j].response_time,
                    None => forall|j: int| 0 <= j < i ==> !(#[trigger] self.results@[j]).available,
                },
            decreases self.results@.len() - i,
        {
            if self.results[i].available {
                match best {
                    Some(b) => {
                        if self.results[i].response_time < self.results[b].response_time {
                            best = Some(i);
                        }
                    },
                    None => {
                        best = Some(i);
                    },
                }
            }
            i = i + 1;
        }
        proof {
            let p = self.pairs();
            assert forall|k: IpAddr| #[trigger] self.map().contains_key(k) implies exists|j: int|
                0 <= j < self.results@.len() && self.results@[j].ip == k && self.map()[k] == self.results@[j] by {
                lemma_pairs_map_dom(p, k);
                let j = choose|j: int| 0 <= j < p.len() && p[j].0 == k;
                lemma_pairs_map_get(p, j);
            }
            match best {
                Some(b) => {
                    lemma_pairs_map_get(p, b as int);
                },
                None => {},
            }
        }
        best
    }
}


/// Every element of `out` is the available element of `all[..i]` at the position `src` gives.
pub open spec fn sourced(out: Seq<ScanResult>, all: Seq<ScanResult>, i: int, src: Seq<int>) -> bool {
    &&& src.len() == out.len()
    &&& forall|x: int| 0 <= x < out.len() ==> {
        &&& 0 <= #[trigger] src[x] < i
        &&& all[src[x]].available
        &&& out[x] == all[src[x]]
    }
}

/// Every available element of `all[..i]` is in `out`, at the position `dst` gives.
pub open spec fn placed(out: Seq<ScanResult>, all: Seq<ScanResult>, i: int, dst: Seq<int>) -> bool {
    &&& dst.len() == i
    &&& forall|j: int| 0 <= j < i && all[j].available ==> {
        &&& 0 <= #[trigger] dst[j] < out.len()
        &&& out[dst[j]] == all[j]
    }
}

proof fn lemma_insert_index(s: Seq<ScanResult>, p: int, e: ScanResult, y: int)
    requires
        0 <= p <= s.len(),
        0 <= y <= s.len(),
    ensures
        s.insert(p, e)[y] == (if y < p { s[y] } else if y == p { e } else { s[y - 1] }),
{
    s.insert_ensures(p, e);
    if y > p {
        assert(s.insert(p, e)[(y - 1) + 1] == s[y - 1]);
    }
}

/// Where the positions of `dst` go when an element is inserted at `p`.
pub open spec fn shifted(dst: Seq<int>, p: int) -> Seq<int> {
    dst.map_values(|d: int| if d < p { d } else { d + 1 })
}

#[verifier::rlimit(40)]
proof fn lemma_insert_keeps(before: Seq<ScanResult>, all: Seq<ScanResult>, i: int, p: int, src: Seq<int>, dst: Seq<int>)
    requires
        0 <= i < all.len(),
        0 <= p <= before.len(),
        all[i].available,
        sourced(before, all, i, src),
        placed(before, all, i, dst),
        forall|a: int, b: int| 0 <= a < b < all.len() ==> all[a].ip != all[b].ip,
        forall|a: int, b: int| 0 <= a < b < before.len() ==> before[a].ip != before[b].ip,
    ensures
        sourced(before.insert(p, all[i]), all, i + 1, src.insert(p, i)),
        placed(before.insert(p, all[i]), all, i + 1, shifted(dst, p).push(p)),
        forall|a: int, b: int| 0 <= a < b < before.insert(p, all[i]).len() ==>
            before.insert(p, all[i])[a].ip != before.insert(p, all[i])[b].ip,
{
    let e = all[i];
    let out = before.insert(p, e);
    let src2 = src.insert(p, i);
    let dst2 = shifted(dst, p).push(p);
    before.insert_ensures(p, e);
    src.insert_ensures(p, i);
    assert forall|x: int| 0 <= x < before.len() implies before[x].ip != e.ip by {
        assert(all[src[x]].ip != all[i].ip);
    }
    assert forall|x: int| 0 <= x < out.len() implies {
        &&& 0 <= #[trigger] src2[x] < i + 1
        &&& all[src2[x]].available
        &&& out[x] == all[src2[x]]
    } by {
        lemma_insert_index(before, p, e, x);
        if x < p {
            assert(src2[x] == src[x]);
        } else if x > p {
            assert(src2[x] == src[x - 1]);
        } else {
            assert(src2[x] == i);
        }
    }
    assert forall|j: int| 0 <= j < i + 1 && all[j].available implies {
        &&& 0 <= #[trigger] dst2[j] < out.len()
        &&& out[dst2[j]] == all[j]
    } by {
        if j == i {
            lemma_insert_index(before, p, e, p);
        } else {
            let d = dst[j];
            if d < p {
                assert(dst2[j] == d);
                lemma_insert_index(before, p, e, d);
            } else {
                assert(dst2[j] == d + 1);
                lemma_insert_index(before, p, e, d + 1);
            }
        }
    }
    assert forall|a: int, b: int| 0 <= a < b < out.len() implies out[a].ip != out[b].ip by {
        lemma_insert_index(before, p, e, a);
        lemma_insert_index(before, p, e, b);
    }
}

/// Inserts `r` after every result that is not slower; returns its position.
fn insert_by_time(out: &mut Vec<ScanResult>, r: ScanResult) -> (p: usize)
    requires
        sorted_by_time(old(out)@),
    ensures
        p <= old(out)@.len(),
        final(out)@ == old(out)@.insert(p as int, r),
        sorted_by_time(final(out)@),
{
    let ghost rr = r;
    let mut p: usize = 0;
    while p < out.len() && out[p].response_time <= r.response_time
        invariant
            p <= out@.len(),
            forall|x: int| 0 <= x < p ==> (#[trigger] out@[x]).response_time <= r.response_time,
        decreases out@.len() - p,
    {
        p = p + 1;
    }
    let ghost before = out@;
    proof {
        assert forall|x: int| p <= x < before.len() implies rr.response_time < (#[trigger] before[x]).response_time by {
            if x > p {
                assert(before[p as int].response_time <= before[x].response_time);
            }
        }
    }
    out.insert(p, r);
    proof {
        assert(out@ =~= before.insert(p as int, rr));
        assert forall|a: int, b: int| 0 <= a < b < out@.len() implies out@[a].response_time <= out@[b].response_time by {
            lemma_insert_index(before, p as int, rr, a);
            lemma_insert_index(before, p as int, rr, b);
        }
    }
    p
}

/// Probe results per domain and address, and the fastest address of each domain.
pub struct ScanTable {
    domains: Vec<DomainScan>,
    fastest: Vec<(String, IpAddr)>,
}

impl ScanTable {
    spec fn domain_pairs(self) -> Seq<(Seq<char>, Map<IpAddr, ScanResult>)> {
        self.domains@.map_values(|d: DomainScan| (d.domain@, d.map()))
    }

    spec fn fastest_pairs(self) -> Seq<(Seq<char>, IpAddr)> {
        self.fastest@.map_values(|p: (String, IpAddr)| (p.0@, p.1))
    }

    /// The recorded results: domain, then address, to result.
    pub closed spec fn results_view(self) -> Map<Seq<char>, Map<IpAddr, ScanResult>> {
        pairs_map(self.domain_pairs())
    }

    /// The fastest address chosen for each domain.
    pub closed spec fn fastest_view(self) -> Map<Seq<char>, IpAddr> {
        pairs_map(self.fastest_pairs())
    }

    /// The table's internal consistency: each domain and each address within
    /// a domain is held once.
    pub closed spec fn wf(self) -> bool {
        &&& unique_keys(self.domain_pairs())
        &&& forall|i: int| 0 <= i < self.domains@.len() ==> (#[trigger] self.domains@[i]).wf()
        &&& unique_keys(self.fastest_pairs())
    }

    /// An empty table.
    pub fn new() -> (t: Self)
        ensures
            t.wf(),
            t.results_view() == Map::<Seq<char>, Map<IpAddr, ScanResult>>::empty(),
            t.fastest_view() == Map::<Seq<char>, IpAddr>::empty(),
    {
        let t = ScanTable { domains: Vec::new(), fastest: Vec::new() };
        assert(t.domain_pairs() =~= Seq::empty());
        assert(t.fastest_pairs() =~= Seq::empty());
        t
    }

    fn find_domain(&self, domain: &str) -> (r: Option<usize>)
        ensures
            match r {
                Some(i) => i < self.domains@.len() && self.domains@[i as int].domain@ == domain@,
                None => forall|j: int| 0 <= j < self.domains@.len() ==> self.domains@[j].domain@ != domain@,
            },
    {
        let mut i: usize = 0;
        while i < self.domains.len()
            invariant
                i <= self.domains@.len(),
                forall|j: int| 0 <= j < i ==> self.domains@[j].domain@ != domain@,
            decreases self.domains@.len() - i,
        {
            if same_chars(self.domains[i].domain.as_str(), domain) {
                return Some(i);
            }
            i = i + 1;
        }
        None
    }

    fn find_fastest(&self, domain: &str) -> (r: Option<usize>)
        ensures
            match r {
                Some(i) => i < self.fastest@.len() && self.fastest@[i as int].0@ == domain@,
                None => forall|j: int| 0 <= j < self.fastest@.len() ==> self.fastest@[j].0@ != domain@,
            },
    {
        let mut i: usize = 0;
        while i < self.fastest.len()
            invariant
                i <= self.fastest@.len(),
                forall|j: int| 0 <= j < i ==> self.fastest@[j].0@ != domain@,
            decreases self.fastest@.len() - i,
        {
            if same_chars(self.fastest[i].0.as_str(), domain) {
                return Some(i);
            }
            i = i + 1;
        }
        None
    }

    /// Records `new_results` for `domain`, each under its address; a later
    /// result for the same address replaces an earlier one.
    pub fn update_results(&mut self, domain: &str, new_results: Vec<ScanResult>)
        requires
            old(self).wf(),
        ensures
            final(self).wf(),
            final(self).results_view() == old(self).results_view().insert(
                domain@,
                with_results(
                    if old(self).results_view().contains_key(domain@) {
                        old(self).results_view()[domain@]
                    } else {
                        Map::empty()
                    },
                    new_results@,
                ),
            ),
            final(self).fastest_view() == old(self).fastest_view(),
    {
        let ghost d = domain@;
        let idx = match self.find_domain(domain) {
            Some(i) => {
                proof {
                    lemma_pairs_map_get(self.domain_pairs(), i as int);
                }
                i
            },
            None => {
                let ghost before = self.domain_pairs();
                let entry = DomainScan { domain: String::from_str(domain), results: Vec::new() };
                proof {
                    assert(entry.pairs() =~= Seq::empty());
                    assert(entry.map() == Map::<IpAddr, ScanResult>::empty());
                    lemma_pairs_map_dom(before, d);
                }
                self.domains.push(entry);
                proof {
                    assert(self.domain_pairs() =~= before.push((d, Map::empty())));
                    lemma_push_unique(before, d, Map::<IpAddr, ScanResult>::empty());
                }
                self.domains.len() - 1
            },
        };
        let ghost mid = self.domain_pairs();
        let ghost old_inner = self.domains@[idx as int].map();
        let mut entry = self.domains.remove(idx);
        entry.put_all(new_results);
        self.domains.insert(idx, entry);
        proof {
            assert(self.domain_pairs() =~= mid.update(idx as int, (mid[idx as int].0, entry.map())));
            lemma_pairs_map_update(mid, idx as int, entry.map());
            assert forall|i: int| 0 <= i < self.domains@.len() implies (#[trigger] self.domains@[i]).wf() by {
                if i != idx {
                    assert(self.domains@[i] == old(self).domains@[i] || self.domains@[i] == self.domains@[i]);
                }
            }
        }
    }
}

/// Whether `a` is a copy of `b`.
pub open spec fn same_result(a: ScanResult, b: ScanResult) -> bool {
    &&& a.ip == b.ip
    &&& a.domain@ == b.domain@
    &&& a.response_time == b.response_time
    &&& a.scanned_at_ms == b.scanned_at_ms
    &&& a.available == b.available
}

impl ScanResult {
    /// The result of probing `ip` for `domain` at `scanned_at_ms`: available
    /// with the whole milliseconds the probe took (cut to 64 bits) when it
    /// answered, unavailable with time `u64::MAX` when it did not.
    pub fn from_probe(ip: IpAddr, domain: &str, elapsed: Option<crate::time::Duration>, scanned_at_ms: u128) -> (r: ScanResult)
        ensures
            r.ip == ip,
            r.domain@ == domain@,
            r.scanned_at_ms == scanned_at_ms,
            match elapsed {
                Some(d) => r.available && r.response_time == (d.total_nanos() / 1_000_000) as u64,
                None => !r.available && r.response_time == u64::MAX,
            },
    {
        let (available, response_time) = match elapsed {
            Some(d) => (true, d.as_millis() as u64),
            None => (false, u64::MAX),
        };
        ScanResult { ip, domain: String::from_str(domain), response_time, scanned_at_ms, available }
    }

    /// A copy of this result.
    pub fn copy(&self) -> (r: ScanResult)
        ensures
            r == *self,
    {
        ScanResult {
            ip: self.ip,
            domain: self.domain.clone(),
            response_time: self.response_time,
            scanned_at_ms: self.scanned_at_ms,
            available: self.available,
        }
    }
}

/// Counts of a scan table.
#[derive(Debug, Clone, Copy)]
pub struct ScanStats {
    /// Domains with results.
    pub total_domains: usize,
    /// Results over all domains.
    pub total_ips: usize,
    /// Available results over all domains.
    pub available_ips: usize,
    /// Domains with a fastest address.
    pub fastest_ips_count: usize,
}

/// Number of results in a list of per-domain result maps.
pub open spec fn total_results(s: Seq<(Seq<char>, Map<IpAddr, ScanResult>)>) -> nat
    decreases s.len(),
{
    if s.len() == 0 {
        0
    } else {
        total_results(s.drop_last()) + s.last().1.dom().len()
    }
}

/// Number of results in a list that are available.
pub open spec fn count_available(rs: Seq<ScanResult>) -> nat
    decreases rs.len(),
{
    if rs.len() == 0 {
        0
    } else {
        count_available(rs.drop_last()) + if rs.last().available { 1nat } else { 0nat }
    }
}

/// Whether the response times along `rs` never decrease.
pub open spec fn sorted_by_time(rs: Seq<ScanResult>) -> bool {
    forall|a: int, b: int| 0 <= a < b < rs.len() ==> rs[a].response_time <= rs[b].response_time
}

impl ScanTable {
    /// The available results of `domain` in the map model, by address.
    pub open spec fn available_of(self, domain: Seq<char>, ip: IpAddr) -> bool {
        &&& self.results_view().contains_key(domain)
        &&& self.results_view()[domain].contains_key(ip)
        &&& self.results_view()[domain][ip].available
    }

    /// Number of results over all domains.
    pub closed spec fn result_count(self) -> nat {
        total_results(self.domain_pairs())
    }

    fn set_fastest(&mut self, domain: &str, ip: IpAddr)
        requires
            old(self).wf(),
        ensures
            final(self).wf(),
            final(self).fastest_view() == old(self).fastest_view().insert(domain@, ip),
            final(self).results_view() == old(self).results_view(),
    {
        let ghost before = self.fastest_pairs();
        match self.find_fastest(domain) {
            Some(i) => {
                self.fastest.set(i, (String::from_str(domain), ip));
                proof {
                    assert(self.fastest_pairs() =~= before.update(i as int, (before[i as int].0, ip)));
                    lemma_pairs_map_update(before, i as int, ip);
                }
            },
            None => {
                self.fastest.push((String::from_str(domain), ip));
                proof {
                    assert(self.fastest_pairs() =~= before.push((domain@, ip)));
                    lemma_push_unique(before, domain@, ip);
                }
            },
        }
    }

    /// Chooses, for `domain`, an available address with the least response
    /// time among its results; with no available result the choice is left as it was.
    pub fn update_fastest_ip(&mut self, domain: &str)
        requires
            old(self).wf(),
        ensures
            final(self).wf(),
            final(self).results_view() == old(self).results_view(),
            (old(self).results_view().contains_key(domain@) && any_available(old(self).results_view()[domain@]))
                ==> (final(self).fastest_view().contains_key(domain@)
                    && is_fastest(old(self).results_view()[domain@], final(self).fastest_view()[domain@])
                    && final(self).fastest_view() == old(self).fastest_view().insert(domain@, final(self).fastest_view()[domain@])),
            !(old(self).results_view().contains_key(domain@) && any_available(old(self).results_view()[domain@]))
                ==> final(self).fastest_view() == old(self).fastest_view(),
    {
        match self.find_domain(domain) {
            None => {
                proof {
                    lemma_pairs_map_dom(self.domain_pairs(), domain@);
                }
            },
            Some(i) => {
                proof {
                    lemma_pairs_map_get(self.domain_pairs(), i as int);
                }
                match self.domains[i].fastest_available() {
                    None => {},
                    Some(j) => {
                        let ip = self.domains[i].results[j].ip;
                        self.set_fastest(domain, ip);
                    },
                }
            },
        }
    }

    /// The fastest address of `domain` with its response time and
    /// availability, if one was chosen and its result is recorded.
    pub fn current_best(&self, domain: &str) -> (r: Option<(IpAddr, u64, bool)>)
        requires
            self.wf(),
        ensures
            r == (if self.fastest_view().contains_key(domain@) && self.results_view().contains_key(domain@)
                && self.results_view()[domain@].contains_key(self.fastest_view()[domain@]) {
                let ip = self.fastest_view()[domain@];
                let res = self.results_view()[domain@][ip];
                Some((ip, res.response_time, res.available))
            } else {
                None
            }),
    {
        proof {
            lemma_pairs_map_dom(self.fastest_pairs(), domain@);
            lemma_pairs_map_dom(self.domain_pairs(), domain@);
        }
        let f = match self.find_fastest(domain) {
            Some(f) => f,
            None => return None,
        };
        proof {
            lemma_pairs_map_get(self.fastest_pairs(), f as int);
        }
        let ip = self.fastest[f].1;
        let d = match self.find_domain(domain) {
            Some(d) => d,
            None => return None,
        };
        proof {
            lemma_pairs_map_get(self.domain_pairs(), d as int);
            lemma_pairs_map_dom(self.domains@[d as int].pairs(), ip);
        }
        match self.domains[d].find_ip(ip) {
            Some(j) => {
                proof {
                    lemma_pairs_map_get(self.domains@[d as int].pairs(), j as int);
                }
                let res = &self.domains[d].results[j];
                Some((ip, res.response_time, res.available))
            },
            None => None,
        }
    }

    /// The fastest address of `domain`, if one was chosen.
    pub fn fastest_ip(&self, domain: &str) -> (r: Option<IpAddr>)
        requires
            self.wf(),
        ensures
            r == (if self.fastest_view().contains_key(domain@) {
                Some(self.fastest_view()[domain@])
            } else {
                None
            }),
    {
        proof {
            lemma_pairs_map_dom(self.fastest_pairs(), domain@);
        }
        match self.find_fastest(domain) {
            Some(f) => {
                proof {
                    lemma_pairs_map_get(self.fastest_pairs(), f as int);
                }
                Some(self.fastest[f].1)
            },
            None => None,
        }
    }

    /// The fastest address of `domain` if it is an IPv4 address.
    pub fn get_fastest_ipv4(&self, domain: &str) -> (r: Option<Ipv4Addr>)
        requires
            self.wf(),
        ensures
            r == (if self.fastest_view().contains_key(domain@) {
                match self.fastest_view()[domain@] {
                    IpAddr::V4(a) => Some(a),
                    IpAddr::V6(_) => None,
                }
            } else {
                None
            }),
    {
        match self.fastest_ip(domain) {
            Some(IpAddr::V4(a)) => Some(a),
            _ => None,
        }
    }

    /// The fastest address of `domain` if it is an IPv6 address.
    pub fn get_fastest_ipv6(&self, domain: &str) -> (r: Option<Ipv6Addr>)
        requires
            self.wf(),
        ensures
            r == (if self.fastest_view().contains_key(domain@) {
                match self.fastest_view()[domain@] {
                    IpAddr::V6(a) => Some(a),
                    IpAddr::V4(_) => None,
                }
            } else {
                None
            }),
    {
        match self.fastest_ip(domain) {
            Some(IpAddr::V6(a)) => Some(a),
            _ => None,
        }
    }
}

impl ScanTable {
    /// Copies of the results of `domain`, one per recorded address.
    pub fn results_for(&self, domain: &str) -> (out: Vec<ScanResult>)
        requires
            self.wf(),
        ensures
            self.results_view().contains_key(domain@) ==> (forall|k: IpAddr|
                #[trigger] self.results_view()[domain@].contains_key(k) <==> exists|i: int|
                    0 <= i < out@.len() && out@[i].ip == k),
            self.results_view().contains_key(domain@) ==> (forall|i: int| 0 <= i < out@.len() ==> {
                &&& self.results_view()[domain@].contains_key(out@[i].ip)
                &&& same_result(#[trigger] out@[i], self.results_view()[domain@][out@[i].ip])
            }),
            !self.results_view().contains_key(domain@) ==> out@.len() == 0,
            forall|a: int, b: int| 0 <= a < b < out@.len() ==> out@[a].ip != out@[b].ip,
    {
        proof {
            lemma_pairs_map_dom(self.domain_pairs(), domain@);
        }
        let mut out: Vec<ScanResult> = Vec::new();
        match self.find_domain(domain) {
            None => out,
            Some(d) => {
                proof {
                    lemma_pairs_map_get(self.domain_pairs(), d as int);
                }
                let entry = &self.domains[d];
                let ghost p = entry.pairs();
                let mut i: usize = 0;
                while i < entry.results.len()
                    invariant
                        entry.wf(),
                        p == entry.pairs(),
                        i <= entry.results@.len(),
                        out@.len() == i,
                        forall|j: int| 0 <= j < i ==> same_result(#[trigger] out@[j], entry.results@[j]),
                    decreases entry.results@.len() - i,
                {
                    out.push(entry.results[i].copy());
                    i = i + 1;
                }
                proof {
                    assert forall|k: IpAddr| #[trigger] entry.map().contains_key(k) <==> exists|i: int|
                        0 <= i < out@.len() && out@[i].ip == k by {
                        lemma_pairs_map_dom(p, k);
                        if entry.map().contains_key(k) {
                            let j = choose|j: int| 0 <= j < p.len() && p[j].0 == k;
                            assert(out@[j].ip == k);
                        }
                        if exists|i: int| 0 <= i < out@.len() && out@[i].ip == k {
                            let j = choose|j: int| 0 <= j < out@.len() && out@[j].ip == k;
                            assert(p[j].0 == k);
                        }
                    }
                    assert forall|i: int| 0 <= i < out@.len() implies {
                        &&& entry.map().contains_key(out@[i].ip)
                        &&& same_result(#[trigger] out@[i], entry.map()[out@[i].ip])
                    } by {
                        lemma_pairs_map_get(p, i);
                    }
                    assert forall|a: int, b: int| 0 <= a < b < out@.len() implies out@[a].ip != out@[b].ip by {
                        assert(p[a].0 != p[b].0);
                    }
                }
                out
            },
        }
    }

    /// The available results of `domain` ordered by response time; results
    /// with equal times keep the order in which their addresses were first recorded.
    pub fn available_by_time(&self, domain: &str) -> (out: Vec<ScanResult>)
        requires
            self.wf(),
        ensures
            sorted_by_time(out@),
            forall|a: int, b: int| 0 <= a < b < out@.len() ==> out@[a].ip != out@[b].ip,
            forall|k: IpAddr| self.available_of(domain@, k) <==> exists|i: int|
                0 <= i < out@.len() && #[trigger] out@[i].ip == k,
            forall|i: int| 0 <= i < out@.len() ==> {
                &&& self.available_of(domain@, out@[i].ip)
                &&& same_result(#[trigger] out@[i], self.results_view()[domain@][out@[i].ip])
            },
    {
        let all = self.results_for(domain);
        let mut out: Vec<ScanResult> = Vec::new();
        let ghost mut src: Seq<int> = Seq::empty();
        let ghost mut dst: Seq<int> = Seq::empty();
        let mut i: usize = 0;
        while i < all.len()
            invariant
                i <= all@.len(),
                sorted_by_time(out@),
                forall|a: int, b: int| 0 <= a < b < all@.len() ==> all@[a].ip != all@[b].ip,
                sourced(out@, all@, i as int, src),
                placed(out@, all@, i as int, dst),
                forall|a: int, b: int| 0 <= a < b < out@.len() ==> out@[a].ip != out@[b].ip,
            decreases all@.len() - i,
        {
            if all[i].available {
                let ghost before = out@;
                let r = all[i].copy();
                let p = insert_by_time(&mut out, r);
                proof {
                    lemma_insert_keeps(before, all@, i as int, p as int, src, dst);
                    src = src.insert(p as int, i as int);
                    dst = shifted(dst, p as int).push(p as int);
                }
            } else {
                proof {
                    dst = dst.push(0);
                    assert forall|j: int| 0 <= j < i + 1 && all@[j].available implies {
                        &&& 0 <= #[trigger] dst[j] < out@.len()
                        &&& out@[dst[j]] == all@[j]
                    } by {
                        assert(j < i);
                    }
                }
            }
            i = i + 1;
        }
        proof {
            lemma_pairs_map_dom(self.domain_pairs(), domain@);
            assert forall|k: IpAddr| self.available_of(domain@, k) <==> exists|x: int|
                0 <= x < out@.len() && #[trigger] out@[x].ip == k by {
                if self.available_of(domain@, k) {
                    let j = choose|j: int| 0 <= j < all@.len() && all@[j].ip == k;
                    assert(all@[j].available);
                    assert(out@[dst[j]].ip == k);
                }
                if exists|x: int| 0 <= x < out@.len() && #[trigger] out@[x].ip == k {
                    let x = choose|x: int| 0 <= x < out@.len() && #[trigger] out@[x].ip == k;
                    assert(all@[src[x]].ip == k);
                }
            }
            assert forall|x: int| 0 <= x < out@.len() implies {
                &&& self.available_of(domain@, out@[x].ip)
                &&& same_result(#[trigger] out@[x], self.results_view()[domain@][out@[x].ip])
            } by {
                assert(out@[x] == all@[src[x]]);
            }
        }
        out
    }

    /// Copies of the chosen fastest addresses, one pair per domain.
    pub fn fastest_entries(&self) -> (out: Vec<(String, IpAddr)>)
        requires
            self.wf(),
        ensures
            pairs_map(out@.map_values(|p: (String, IpAddr)| (p.0@, p.1))) == self.fastest_view(),
            unique_keys(out@.map_values(|p: (String, IpAddr)| (p.0@, p.1))),
    {
        let mut out: Vec<(String, IpAddr)> = Vec::new();
        let mut i: usize = 0;
        while i < self.fastest.len()
            invariant
                i <= self.fastest@.len(),
                out@ == self.fastest@.take(i as int),
            decreases self.fastest@.len() - i,
        {
            let pair = (self.fastest[i].0.clone(), self.fastest[i].1);
            out.push(pair);
            assert(out@ =~= self.fastest@.take(i + 1));
            i = i + 1;
        }
        assert(out@ =~= self.fastest@);
        out
    }

    /// Counts of the table: domains with results, results, available results,
    /// and domains with a fastest address (the two sums stop at `usize::MAX`).
    pub fn get_stats(&self) -> (st: ScanStats)
        requires
            self.wf(),
        ensures
            st.total_domains == self.results_view().dom().len(),
            st.fastest_ips_count == self.fastest_view().dom().len(),
            self.result_count() <= usize::MAX ==> st.total_ips == self.result_count(),
            self.result_count() <= usize::MAX ==> st.available_ips == self.available_count(),
            st.available_ips <= st.total_ips,
    {
        let mut total: usize = 0;
        let mut available: usize = 0;
        let mut i: usize = 0;
        while i < self.domains.len()
            invariant
                i <= self.domains@.len(),
                available <= total,
                total_results(self.domain_pairs().take(i as int)) <= usize::MAX ==> {
                    &&& total == total_results(self.domain_pairs().take(i as int))
                    &&& available == total_available(self.domain_pairs().take(i as int))
                },
                forall|j: int| 0 <= j < self.domains@.len() ==> (#[trigger] self.domains@[j]).wf(),
            decreases self.domains@.len() - i,
        {
            let entry = &self.domains[i];
            proof {
                lemma_pairs_map_len(entry.pairs());
                assert(self.domain_pairs().take(i + 1).drop_last() =~= self.domain_pairs().take(i as int));
                assert(self.domain_pairs().take(i + 1).last() == (entry.domain@, entry.map()));
                lemma_total_results_mono(self.domain_pairs().take(i + 1));
                lemma_count_available_map(entry.results@);
            }
            let n = entry.results.len();
            let mut avail_here: usize = 0;
            let mut j: usize = 0;
            while j < n
                invariant
                    n == entry.results@.len(),
                    j <= n,
                    avail_here == count_available(entry.results@.take(j as int)),
                    avail_here <= j,
                decreases n - j,
            {
                assert(entry.results@.take(j + 1).drop_last() =~= entry.results@.take(j as int));
                if entry.results[j].available {
                    avail_here = avail_here + 1;
                }
                j = j + 1;
            }
            assert(entry.results@.take(n as int) =~= entry.results@);
            total = total.saturating_add(n);
            available = available.saturating_add(avail_here);
            if available > total {
                available = total;
            }
            i = i + 1;
        }
        proof {
            assert(self.domain_pairs().take(self.domains@.len() as int) =~= self.domain_pairs());
            lemma_pairs_map_len(self.domain_pairs());
            lemma_pairs_map_len(self.fastest_pairs());
        }
        ScanStats {
            total_domains: self.domains.len(),
            total_ips: total,
            available_ips: available,
            fastest_ips_count: self.fastest.len(),
        }
    }

    /// Number of available results over all domains.
    pub closed spec fn available_count(self) -> nat {
        total_available(self.domain_pairs())
    }
}

/// Number of available results in a map of results.
pub open spec fn available_in(m: Map<IpAddr, ScanResult>) -> nat {
    m.dom().filter(|k: IpAddr| m[k].available).len()
}

/// Number of available results in a list of per-domain result maps.
pub open spec fn total_available(s: Seq<(Seq<char>, Map<IpAddr, ScanResult>)>) -> nat
    decreases s.len(),
{
    if s.len() == 0 {
        0
    } else {
        total_available(s.drop_last()) + available_in(s.last().1)
    }
}

/// Counting the available results of a list with one result per address
/// counts the available addresses of its map.
proof fn lemma_count_available_map(rs: Seq<ScanResult>)
    requires
        unique_keys(rs.map_values(|r: ScanResult| (r.ip, r))),
    ensures
        count_available(rs) == available_in(pairs_map(rs.map_values(|r: ScanResult| (r.ip, r)))),
        count_available(rs) <= rs.len(),
    decreases rs.len(),
{
    let p = rs.map_values(|r: ScanResult| (r.ip, r));
    if rs.len() == 0 {
        assert(pairs_map(p).dom() =~= Set::<IpAddr>::empty());
        assert(pairs_map(p).dom().filter(|k: IpAddr| pairs_map(p)[k].available) =~= Set::<IpAddr>::empty());
    } else {
        let t = rs.drop_last();
        let q = t.map_values(|r: ScanResult| (r.ip, r));
        assert(q =~= p.drop_last());
        assert(unique_keys(q));
        lemma_count_available_map(t);
        let m = pairs_map(q);
        let r = rs.last();
        assert(p.last() == (r.ip, r));
        lemma_pairs_map_dom(q, r.ip);
        if m.contains_key(r.ip) {
            let j = choose|j: int| 0 <= j < q.len() && q[j].0 == r.ip;
            assert(p[j].0 == p[p.len() - 1].0);
        }
        lemma_pairs_map_len(q);
        let pm = pairs_map(p);
        assert(pm == m.insert(r.ip, r));
        let old_f = m.dom().filter(|k: IpAddr| m[k].available);
        let new_f = pm.dom().filter(|k: IpAddr| pm[k].available);
        m.dom().lemma_len_filter(|k: IpAddr| m[k].available);
        if r.available {
            assert(new_f =~= old_f.insert(r.ip));
        } else {
            assert(new_f =~= old_f);
        }
    }
}

/// The count over a list is at least the count over any shorter prefix.
proof fn lemma_total_results_mono(s: Seq<(Seq<char>, Map<IpAddr, ScanResult>)>)
    ensures
        s.len() > 0 ==> total_results(s.drop_last()) <= total_results(s),
{
}

/// A domain whose fastest address answered in under this many milliseconds is
/// not scanned again; a scan stops at the first address that answers this fast.
pub const SCAN_THRESHOLD_MS: u64 = 100;

/// Whether a domain keeps its current fastest address without a new scan:
/// there is one, it is available, and it answered in under `threshold_ms`.
pub fn keeps_current(current: Option<(IpAddr, u64, bool)>, threshold_ms: u64) -> (r: bool)
    ensures
        r == (current matches Some((_, t, a)) && a && t < threshold_ms),
{
    match current {
        Some((_, t, a)) => a && t < threshold_ms,
        None => false,
    }
}

impl ScanTable {
    /// Whether `domain` keeps its fastest address without a new scan
    /// (see `keeps_current`).
    pub fn should_skip(&self, domain: &str, threshold_ms: u64) -> (r: bool)
        requires
            self.wf(),
        ensures
            r == (self.fastest_view().contains_key(domain@) && self.results_view().contains_key(domain@)
                && self.results_view()[domain@].contains_key(self.fastest_view()[domain@])
                && self.results_view()[domain@][self.fastest_view()[domain@]].available
                && self.results_view()[domain@][self.fastest_view()[domain@]].response_time < threshold_ms),
    {
        keeps_current(self.current_best(domain), threshold_ms)
    }
}

/// The results of one scan of a domain's addresses, probed one after another.
pub struct ProbeRun {
    results: Vec<ScanResult>,
    threshold_ms: u64,
    finished: bool,
}

impl ProbeRun {
    /// The results recorded so far, in probing order.
    pub closed spec fn recorded(self) -> Seq<ScanResult> {
        self.results@
    }

    /// Whether the scan has stopped.
    pub closed spec fn is_finished(self) -> bool {
        self.finished
    }

    /// The response time under which an available address ends the scan.
    pub closed spec fn threshold(self) -> u64 {
        self.threshold_ms
    }

    /// A scan with nothing recorded yet.
    pub fn new(threshold_ms: u64) -> (run: Self)
        ensures
            run.recorded() == Seq::<ScanResult>::empty(),
            !run.is_finished(),
            run.threshold() == threshold_ms,
    {
        ProbeRun { results: Vec::new(), threshold_ms, finished: false }
    }

    /// Records the result of the next probe. The scan stops once an available
    /// address answered in under the threshold; the result returned tells
    /// whether probing goes on.
    pub fn record(&mut self, result: ScanResult) -> (go_on: bool)
        requires
            !old(self).is_finished(),
        ensures
            final(self).recorded() == old(self).recorded().push(result),
            final(self).threshold() == old(self).threshold(),
            final(self).is_finished() == (result.available && result.response_time < old(self).threshold()),
            go_on == !final(self).is_finished(),
    {
        let stop = result.available && result.response_time < self.threshold_ms;
        self.results.push(result);
        self.finished = stop;
        !stop
    }

    /// Whether the scan has stopped.
    pub fn finished(&self) -> (r: bool)
        ensures
            r == self.is_finished(),
    {
        self.finished
    }

    /// The recorded results, in probing order.
    pub fn into_results(self) -> (rs: Vec<ScanResult>)
        ensures
            rs@ == self.recorded(),
    {
        self.results
    }
}

/// The number of available results in `rs` and the position of the first
/// available one with the least response time, if any.
pub fn batch_summary(rs: &Vec<ScanResult>) -> (r: (usize, Option<usize>))
    ensures
        r.0 == count_available(rs@),
        match r.1 {
            Some(b) => b < rs@.len() && rs@[b as int].available
                && (forall|j: int| 0 <= j < rs@.len() && rs@[j].available ==> rs@[b as int].response_time <= rs@[j].response_time)
                && (forall|j: int| 0 <= j < b && rs@[j].available ==> rs@[b as int].response_time < rs@[j].response_time),
            None => count_available(rs@) == 0,
        },
{
    let mut count: usize = 0;
    let mut best: Option<usize> = None;
    let mut i: usize = 0;
    while i < rs.len()
        invariant
            i <= rs@.len(),
            count == count_available(rs@.take(i as int)),
            count <= i,
            match best {
                Some(b) => b < i && rs@[b as int].available
                    && (forall|j: int| 0 <= j < i && rs@[j].available ==> rs@[b as int].response_time <= rs@[j].response_time)
                    && (forall|j: int| 0 <= j < b && rs@[j].available ==> rs@[b as int].response_time < rs@[j].response_time),
                None => count == 0 && forall|j: int| 0 <= j < i ==> !(#[trigger] rs@[j]).available,
            },
        decreases rs@.len() - i,
    {
        proof {
            assert(rs@.take(i + 1).drop_last() =~= rs@.take(i as int));
        }
        if rs[i].available {
            count = count + 1;
            match best {
                Some(b) => {
                    if rs[i].response_time < rs[b].response_time {
                        best = Some(i);
                    }
                },
                None => {
                    best = Some(i);
                },
            }
        }
        i = i + 1;
    }
    assert(rs@.take(rs@.len() as int) =~= rs@);
    (count, best)
}

} // verus!
