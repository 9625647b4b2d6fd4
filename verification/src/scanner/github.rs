//! The GitHub meta document and the address ranges read from it.
use vstd::prelude::*;
use crate::config::models::{extend_strings, string_views};
use crate::text::same_chars;
use crate::time::Duration;
use crate::utils::utils::{elapsed_since, instant_now};

verus! {

/// The address ranges GitHub publishes, by service.
#[derive(Debug, Clone)]
pub struct GithubMetaResponse {
    pub hooks: Vec<String>,
    pub web: Vec<String>,
    pub api: Vec<String>,
    pub git: Vec<String>,
    pub packages: Vec<String>,
    pub pages: Vec<String>,
    pub importer: Vec<String>,
    pub actions: Vec<String>,
    pub dependabot: Vec<String>,
}

impl GithubMetaResponse {
    /// All published ranges, service by service in the order of the fields.
    pub open spec fn all_ranges(self) -> Seq<Seq<char>> {
        string_views(self.hooks@) + string_views(self.web@) + string_views(self.api@) + string_views(self.git@)
            + string_views(self.packages@) + string_views(self.pages@) + string_views(self.importer@)
            + string_views(self.actions@) + string_views(self.dependabot@)
    }
}

/// Whether `a` comes before `b` in the order of `str`: the first differing
/// character decides, and a proper prefix comes first.
pub open spec fn text_lt(a: Seq<char>, b: Seq<char>) -> bool
    decreases a.len(),
{
    if a.len() == 0 {
        b.len() > 0
    } else if b.len() == 0 {
        false
    } else if a[0] < b[0] {
        true
    } else if a[0] > b[0] {
        false
    } else {
        text_lt(a.drop_first(), b.drop_first())
    }
}

/// No text comes before itself.
pub proof fn lemma_text_lt_irreflexive(a: Seq<char>)
    ensures
        !text_lt(a, a),
    decreases a.len(),
{
    if a.len() > 0 {
        lemma_text_lt_irreflexive(a.drop_first());
    }
}

/// Of two different texts, one comes before the other, and not both ways.
pub proof fn lemma_text_lt_total(a: Seq<char>, b: Seq<char>)
    ensures
        a != b ==> (text_lt(a, b) || text_lt(b, a)),
        !(text_lt(a, b) && text_lt(b, a)),
    decreases a.len(),
{
    if a.len() > 0 && b.len() > 0 {
        lemma_text_lt_total(a.drop_first(), b.drop_first());
        if a[0] == b[0] && a.drop_first() == b.drop_first() {
            assert(a =~= seq![a[0]] + a.drop_first());
            assert(b =~= seq![b[0]] + b.drop_first());
        }
    } else if a.len() == 0 && b.len() == 0 {
        assert(a =~= b);
    }
}

/// The order of texts is transitive.
pub proof fn lemma_text_lt_transitive(a: Seq<char>, b: Seq<char>, c: Seq<char>)
    requires
        text_lt(a, b),
        text_lt(b, c),
    ensures
        text_lt(a, c),
    decreases a.len(),
{
    if a.len() > 0 && b.len() > 0 && c.len() > 0 && a[0] == b[0] && b[0] == c[0] {
        lemma_text_lt_transitive(a.drop_first(), b.drop_first(), c.drop_first());
    }
}

/// Whether `a` comes before `b` (see `text_lt`).
pub fn text_less(a: &str, b: &str) -> (r: bool)
    ensures
        r == text_lt(a@, b@),
{
    let na = a.unicode_len();
    let nb = b.unicode_len();
    let mut i: usize = 0;
    assert(a@.skip(0) =~= a@ && b@.skip(0) =~= b@);
    while i < na && i < nb
        invariant
            na == a@.len(),
            nb == b@.len(),
            i <= na,
            i <= nb,
            text_lt(a@, b@) == text_lt(a@.skip(i as int), b@.skip(i as int)),
        decreases na - i,
    {
        let ca = a.get_char(i);
        let cb = b.get_char(i);
        proof {
            assert(a@.skip(i as int)[0] == ca);
            assert(b@.skip(i as int)[0] == cb);
            assert(a@.skip(i as int).drop_first() =~= a@.skip(i + 1));
            assert(b@.skip(i as int).drop_first() =~= b@.skip(i + 1));
        }
        if ca != cb {
            return ca < cb;
        }
        i = i + 1;
    }
    na < nb
}

/// Whether each text of `s` comes before every later one.
pub open spec fn strictly_sorted(s: Seq<Seq<char>>) -> bool {
    forall|a: int, b: int| 0 <= a < b < s.len() ==> text_lt(s[a], s[b])
}

/// A sequence sorted in the order of texts without repeats is fixed by which
/// texts it holds: two such sequences with the same texts are equal.
pub proof fn lemma_sorted_texts_unique(a: Seq<Seq<char>>, b: Seq<Seq<char>>)
    requires
        strictly_sorted(a),
        strictly_sorted(b),
        forall|x: Seq<char>| a.contains(x) <==> b.contains(x),
    ensures
        a == b,
    decreases a.len() + b.len(),
{
    if a.len() == 0 || b.len() == 0 {
        if a.len() > 0 {
            assert(a.contains(a[0]));
        }
        if b.len() > 0 {
            assert(b.contains(b[0]));
        }
        assert(a =~= b);
    } else {
        assert(a.contains(a[0]));
        assert(b.contains(b[0]));
        let k = choose|k: int| 0 <= k < b.len() && b[k] == a[0];
        let m = choose|m: int| 0 <= m < a.len() && a[m] == b[0];
        if k > 0 && m > 0 {
            assert(text_lt(b[0], b[k]));
            assert(text_lt(a[0], a[m]));
            lemma_text_lt_total(a[0], b[0]);
        }
        let a1 = a.drop_first();
        let b1 = b.drop_first();
        assert forall|x: Seq<char>| a1.contains(x) <==> b1.contains(x) by {
            if a1.contains(x) {
                let i = choose|i: int| 0 <= i < a1.len() && a1[i] == x;
                assert(a[i + 1] == x);
                assert(text_lt(a[0], a[i + 1]));
                lemma_text_lt_irreflexive(a[0]);
                assert(b.contains(x));
                let j = choose|j: int| 0 <= j < b.len() && b[j] == x;
                assert(j != 0);
                assert(b1[j - 1] == x);
            }
            if b1.contains(x) {
                let i = choose|i: int| 0 <= i < b1.len() && b1[i] == x;
                assert(b[i + 1] == x);
                assert(text_lt(b[0], b[i + 1]));
                lemma_text_lt_irreflexive(b[0]);
                assert(a.contains(x));
                let j = choose|j: int| 0 <= j < a.len() && a[j] == x;
                assert(j != 0);
                assert(a1[j - 1] == x);
            }
        }
        assert(strictly_sorted(a1));
        assert(strictly_sorted(b1));
        lemma_sorted_texts_unique(a1, b1);
        assert(a =~= seq![a[0]] + a1);
        assert(b =~= seq![b[0]] + b1);
    }
}

/// Adds a copy of `t` to the sorted `out` where it belongs, unless it is there.
fn insert_sorted(out: &mut Vec<String>, t: &String)
    requires
        strictly_sorted(string_views(old(out)@)),
    ensures
        strictly_sorted(string_views(final(out)@)),
        forall|x: Seq<char>| #[trigger] string_views(final(out)@).contains(x) <==> (string_views(old(out)@).contains(x) || x == t@),
{
    let ghost before = string_views(out@);
    let mut p: usize = 0;
    while p < out.len() && text_less(out[p].as_str(), t.as_str())
        invariant
            p <= out@.len(),
            before == string_views(out@),
            forall|x: int| 0 <= x < p ==> text_lt(#[trigger] before[x], t@),
        decreases out@.len() - p,
    {
        p = p + 1;
    }
    if p < out.len() && same_chars(out[p].as_str(), t.as_str()) {
        assert(before[p as int] == t@);
        return;
    }
    proof {
        if p < before.len() {
            lemma_text_lt_total(before[p as int], t@);
            assert forall|x: int| p <= x < before.len() implies text_lt(t@, #[trigger] before[x]) by {
                if x > p {
                    lemma_text_lt_transitive(t@, before[p as int], before[x]);
                }
            }
        }
    }
    out.insert(p, t.clone());
    proof {
        let after = string_views(out@);
        assert(after =~= before.insert(p as int, t@));
        before.insert_ensures(p as int, t@);
        assert forall|a: int, b: int| 0 <= a < b < after.len() implies text_lt(after[a], after[b]) by {
            if b < p {
            } else if a < p && b == p {
            } else if a < p && b > p {
                assert(after[b] == before[b - 1]);
                lemma_text_lt_transitive(before[a], t@, before[b - 1]);
            } else if a == p {
                assert(after[b] == before[b - 1]);
            } else {
                assert(after[a] == before[a - 1]);
                assert(after[b] == before[b - 1]);
            }
        }
        assert forall|x: Seq<char>| #[trigger] after.contains(x) <==> (before.contains(x) || x == t@) by {
            if after.contains(x) {
                let i = choose|i: int| 0 <= i < after.len() && after[i] == x;
                if i < p {
                    assert(before[i] == x);
                } else if i > p {
                    assert(before[i - 1] == x);
                }
            }
            if before.contains(x) {
                let i = choose|i: int| 0 <= i < before.len() && before[i] == x;
                if i < p {
                    assert(after[i] == x);
                } else {
                    assert(after[i + 1] == x);
                }
            }
            if x == t@ {
                assert(after[p as int] == x);
            }
        }
    }
}

/// The texts of `v` in the order of `str`, each once.
pub fn sort_dedup(v: &Vec<String>) -> (out: Vec<String>)
    ensures
        strictly_sorted(string_views(out@)),
        forall|x: Seq<char>| #[trigger] string_views(out@).contains(x) <==> string_views(v@).contains(x),
{
    let mut out: Vec<String> = Vec::new();
    let mut i: usize = 0;
    while i < v.len()
        invariant
            i <= v@.len(),
            strictly_sorted(string_views(out@)),
            forall|x: Seq<char>| #[trigger] string_views(out@).contains(x) <==> string_views(v@.take(i as int)).contains(x),
        decreases v@.len() - i,
    {
        insert_sorted(&mut out, &v[i]);
        proof {
            let prev = string_views(v@.take(i as int));
            let next = string_views(v@.take(i + 1));
            assert(next =~= prev.push(v@[i as int]@));
            assert forall|x: Seq<char>| #[trigger] next.contains(x) <==> (prev.contains(x) || x == v@[i as int]@) by {
                if next.contains(x) {
                    let k = choose|k: int| 0 <= k < next.len() && next[k] == x;
                    if k < prev.len() {
                        assert(prev[k] == x);
                    }
                }
                if prev.contains(x) {
                    let k = choose|k: int| 0 <= k < prev.len() && prev[k] == x;
                    assert(next[k] == x);
                }
                if x == v@[i as int]@ {
                    assert(next[i as int] == x);
                }
            }
        }
        i = i + 1;
    }
    assert(v@.take(v@.len() as int) =~= v@);
    out
}

/// All ranges GitHub publishes followed by `custom`, sorted in the order of
/// `str` with repeats dropped.
pub fn flatten_ranges(meta: &GithubMetaResponse, custom: &Vec<String>) -> (out: Vec<String>)
    ensures
        strictly_sorted(string_views(out@)),
        forall|x: Seq<char>| #[trigger] string_views(out@).contains(x) <==> (meta.all_ranges() + string_views(custom@)).contains(x),
{
    let mut all: Vec<String> = Vec::new();
    extend_strings(&mut all, &meta.hooks);
    extend_strings(&mut all, &meta.web);
    extend_strings(&mut all, &meta.api);
    extend_strings(&mut all, &meta.git);
    extend_strings(&mut all, &meta.packages);
    extend_strings(&mut all, &meta.pages);
    extend_strings(&mut all, &meta.importer);
    extend_strings(&mut all, &meta.actions);
    extend_strings(&mut all, &meta.dependabot);
    extend_strings(&mut all, custom);
    assert(string_views(all@) =~= meta.all_ranges() + string_views(custom@));
    sort_dedup(&all)
}

impl GithubMetaResponse {
    /// Whether `self` and `other` hold the same ranges.
    pub open spec fn same_ranges(self, other: GithubMetaResponse) -> bool {
        &&& string_views(self.hooks@) == string_views(other.hooks@)
        &&& string_views(self.web@) == string_views(other.web@)
        &&& string_views(self.api@) == string_views(other.api@)
        &&& string_views(self.git@) == string_views(other.git@)
        &&& string_views(self.packages@) == string_views(other.packages@)
        &&& string_views(self.pages@) == string_views(other.pages@)
        &&& string_views(self.importer@) == string_views(other.importer@)
        &&& string_views(self.actions@) == string_views(other.actions@)
        &&& string_views(self.dependabot@) == string_views(other.dependabot@)
    }

    /// A copy of the document.
    pub fn copy(&self) -> (r: GithubMetaResponse)
        ensures
            r.same_ranges(*self),
            r.all_ranges() == self.all_ranges(),
    {
        let r = GithubMetaResponse {
            hooks: copy_strings(&self.hooks),
            web: copy_strings(&self.web),
            api: copy_strings(&self.api),
            git: copy_strings(&self.git),
            packages: copy_strings(&self.packages),
            pages: copy_strings(&self.pages),
            importer: copy_strings(&self.importer),
            actions: copy_strings(&self.actions),
            dependabot: copy_strings(&self.dependabot),
        };
        r
    }
}

fn copy_strings(v: &Vec<String>) -> (r: Vec<String>)
    ensures
        string_views(r@) == string_views(v@),
{
    let mut r: Vec<String> = Vec::new();
    extend_strings(&mut r, v);
    assert(string_views(r@) =~= string_views(v@));
    r
}

/// The value of the `Authorization` header of meta requests: `Bearer <token>`
/// when authentication is enabled and a non-empty token is set.
pub fn auth_header(auth_enabled: bool, token: &Option<String>) -> (h: Option<String>)
    ensures
        h is Some <==> (auth_enabled && (token matches Some(t) && t@.len() > 0)),
        h matches Some(v) ==> (token matches Some(t) && v@ == "Bearer "@ + t@),
{
    if !auth_enabled {
        return None;
    }
    match token {
        Some(t) => {
            if t.as_str().unicode_len() == 0 {
                None
            } else {
                let mut v = String::from_str("Bearer ");
                v.append(t.as_str());
                Some(v)
            }
        },
        None => None,
    }
}

/// What the client knows of its cache, for display.
#[derive(Debug, Clone)]
pub struct ApiStatus {
    /// Whether a document is cached.
    pub has_cache: bool,
    /// Whether the cached document is younger than the cache's time to live.
    pub cache_valid: bool,
    /// The cache's time to live.
    pub cache_ttl: Duration,
    /// The meta API URL.
    pub api_url: String,
    /// Whether requests carry a token.
    pub auth_enabled: bool,
}

/// The last meta document fetched, with when it was fetched.
pub struct MetaCache {
    entry: Option<(GithubMetaResponse, std::time::Instant)>,
    ttl: Duration,
}

impl MetaCache {
    /// The cached document, if any.
    pub closed spec fn cached(self) -> Option<GithubMetaResponse> {
        match self.entry {
            Some(e) => Some(e.0),
            None => None,
        }
    }

    /// The time to live of the cached document.
    pub closed spec fn time_to_live(self) -> Duration {
        self.ttl
    }

    /// An empty cache whose documents live for `ttl`.
    pub fn new(ttl: Duration) -> (c: Self)
        ensures
            c.cached() is None,
            c.time_to_live() == ttl,
    {
        MetaCache { entry: None, ttl }
    }

    /// Keeps `response`, fetched now.
    pub fn update_cache(&mut self, response: GithubMetaResponse)
        ensures
            final(self).cached() == Some(response),
            final(self).time_to_live() == old(self).time_to_live(),
    {
        self.entry = Some((response, instant_now()));
    }

    /// Drops the cached document.
    pub fn clear_cache(&mut self)
        ensures
            final(self).cached() is None,
            final(self).time_to_live() == old(self).time_to_live(),
    {
        self.entry = None;
    }

    /// Whether a document that is `age` old is still within the time to live.
    pub open spec fn fresh_at(self, age: Duration) -> bool {
        age.total_nanos() < self.time_to_live().total_nanos()
    }

    /// A copy of the cached document, taken to be `age` old, if it is younger
    /// than the time to live.
    pub fn response_at_age(&self, age: Duration) -> (r: Option<GithubMetaResponse>)
        ensures
            r is Some <==> (self.cached() is Some && self.fresh_at(age)),
            r matches Some(m) ==> m.same_ranges(self.cached().unwrap()),
    {
        match &self.entry {
            Some((response, _)) => {
                if age.lt(&self.ttl) {
                    Some(response.copy())
                } else {
                    None
                }
            },
            None => None,
        }
    }

    /// A copy of the cached document if it is younger than the time to live,
    /// its age read from the clock: a `Some` is a copy of the cached document,
    /// and an empty cache gives `None`.
    pub fn get_cached_response(&self) -> (r: Option<GithubMetaResponse>)
        ensures
            self.cached() is None ==> r is None,
            r matches Some(m) ==> (self.cached() matches Some(c) && m.same_ranges(c)),
    {
        match &self.entry {
            Some((_, fetched_at)) => {
                let age = elapsed_since(fetched_at);
                self.response_at_age(age)
            },
            None => None,
        }
    }

    /// The ranges of the cached document, taken to be `age` old, flattened as
    /// `flatten_ranges` does with `custom`, if it is younger than the time to live.
    pub fn ranges_at_age(&self, custom: &Vec<String>, age: Duration) -> (r: Option<Vec<String>>)
        ensures
            r is Some <==> (self.cached() is Some && self.fresh_at(age)),
            r matches Some(out) ==> (strictly_sorted(string_views(out@))
                && forall|x: Seq<char>| #[trigger] string_views(out@).contains(x)
                    <==> (self.cached().unwrap().all_ranges() + string_views(custom@)).contains(x)),
    {
        match &self.entry {
            Some((response, _)) => {
                if age.lt(&self.ttl) {
                    Some(flatten_ranges(response, custom))
                } else {
                    None
                }
            },
            None => None,
        }
    }

    /// The ranges of the cached document, flattened as `flatten_ranges` does
    /// with `custom`, if the document is younger than the time to live, its
    /// age read from the clock.
    pub fn get_cached_ip_ranges(&self, custom: &Vec<String>) -> (r: Option<Vec<String>>)
        ensures
            self.cached() is None ==> r is None,
            r matches Some(out) ==> (self.cached() matches Some(c) && strictly_sorted(string_views(out@))
                && forall|x: Seq<char>| #[trigger] string_views(out@).contains(x) <==> (c.all_ranges() + string_views(custom@)).contains(x)),
    {
        match &self.entry {
            Some((_, fetched_at)) => {
                let age = elapsed_since(fetched_at);
                self.ranges_at_age(custom, age)
            },
            None => None,
        }
    }

    /// The state of the cache for display, the cached document taken to be
    /// `age` old, with the API URL and whether requests carry a token.
    pub fn status_at_age(&self, api_url: &str, auth_enabled: bool, age: Duration) -> (st: ApiStatus)
        ensures
            st.has_cache == self.cached() is Some,
            st.cache_valid == (self.cached() is Some && self.fresh_at(age)),
            st.cache_ttl == self.time_to_live(),
            st.api_url@ == api_url@,
            st.auth_enabled == auth_enabled,
    {
        ApiStatus {
            has_cache: self.entry.is_some(),
            cache_valid: self.entry.is_some() && age.lt(&self.ttl),
            cache_ttl: self.ttl,
            api_url: String::from_str(api_url),
            auth_enabled,
        }
    }

    /// The state of the cache for display, with the API URL and whether
    /// requests carry a token.
    pub fn get_api_status(&self, api_url: &str, auth_enabled: bool) -> (st: ApiStatus)
        ensures
            st.has_cache == self.cached() is Some,
            self.cached() is None ==> !st.cache_valid,
            st.cache_ttl == self.time_to_live(),
            st.api_url@ == api_url@,
            st.auth_enabled == auth_enabled,
    {
        match &self.entry {
            Some((_, fetched_at)) => {
                let age = elapsed_since(fetched_at);
                self.status_at_age(api_url, auth_enabled, age)
            },
            None => self.status_at_age(api_url, auth_enabled, Duration::from_secs(0)),
        }
    }
}

} // verus!
