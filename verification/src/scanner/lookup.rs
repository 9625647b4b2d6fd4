//! Reading the addresses that the system's lookup tools print for a domain:
//! `nslookup` lines of the form `Address: <addr>` (or `地址: <addr>`), and
//! `dig +short` lines holding an address each.
use vstd::prelude::*;
use crate::config::models::string_views;
use crate::net::IpAddr;
use crate::scanner::ranges::{dedup_first, dedup_ips};
use crate::utils::utils::white_space;

verus! {

/// Where the first `\n` of `s` stands at or after `i` (`s.len()` if none does).
pub open spec fn newline_from(s: Seq<char>, i: int) -> int
    decreases s.len() - i,
{
    if i >= s.len() {
        s.len() as int
    } else if s[i] == '\n' {
        i
    } else {
        newline_from(s, i + 1)
    }
}

/// The first `\n` at or after `i` stands between `i` and the end.
pub proof fn lemma_newline_from_bounds(s: Seq<char>, i: int)
    requires
        0 <= i <= s.len(),
    ensures
        i <= newline_from(s, i) <= s.len(),
        newline_from(s, i) < s.len() ==> s[newline_from(s, i)] == '\n',
    decreases s.len() - i,
{
    if i < s.len() && s[i] != '\n' {
        lemma_newline_from_bounds(s, i + 1);
    }
}

/// A line as ended by a `\n`: without one `\r` at its end.
pub open spec fn without_cr(line: Seq<char>) -> Seq<char> {
    if line.len() > 0 && line.last() == '\r' {
        line.drop_last()
    } else {
        line
    }
}

/// The lines of a text as `str::lines` gives them: split at each `\n`, a
/// `\r` just before a `\n` dropped, and no empty line after a final `\n`
/// (so the empty text has no lines).
pub open spec fn lines_of(s: Seq<char>) -> Seq<Seq<char>>
    decreases s.len(),
{
    if s.len() == 0 {
        Seq::empty()
    } else {
        let e = newline_from(s, 0);
        proof {
            lemma_newline_from_bounds(s, 0);
        }
        if e >= s.len() {
            seq![s]
        } else {
            seq![without_cr(s.subrange(0, e))] + lines_of(s.subrange(e + 1, s.len() as int))
        }
    }
}

/// Splits `s` with `str::lines`: at each `\n`, dropping a `\r` before it, with
/// no empty line after a final `\n`.
#[verifier::external_body]
fn text_lines(s: &str) -> (r: Vec<String>)
    ensures
        string_views(r@) == lines_of(s@),
{
    s.lines().map(|l| l.to_string()).collect()
}

/// `s` without its leading white space.
pub open spec fn trim_start(s: Seq<char>) -> Seq<char>
    decreases s.len(),
{
    if s.len() > 0 && white_space(s[0]) {
        trim_start(s.drop_first())
    } else {
        s
    }
}

/// `s` without its trailing white space.
pub open spec fn trim_end(s: Seq<char>) -> Seq<char>
    decreases s.len(),
{
    if s.len() > 0 && white_space(s.last()) {
        trim_end(s.drop_last())
    } else {
        s
    }
}

/// `s` without leading and trailing white space (`str::trim`).
pub open spec fn trimmed(s: Seq<char>) -> Seq<char> {
    trim_end(trim_start(s))
}

proof fn lemma_trim_start_skip(s: Seq<char>, i: int)
    requires
        0 <= i <= s.len(),
        forall|j: int| 0 <= j < i ==> white_space(#[trigger] s[j]),
    ensures
        trim_start(s) == trim_start(s.skip(i)),
    decreases i,
{
    if i > 0 {
        assert(s.skip(1) =~= s.drop_first());
        lemma_trim_start_skip(s.drop_first(), i - 1);
        assert(s.drop_first().skip(i - 1) =~= s.skip(i));
    } else {
        assert(s.skip(0) =~= s);
    }
}

proof fn lemma_trim_end_take(s: Seq<char>, k: int)
    requires
        0 <= k <= s.len(),
        forall|j: int| k <= j < s.len() ==> white_space(#[trigger] s[j]),
    ensures
        trim_end(s) == trim_end(s.take(k)),
    decreases s.len() - k,
{
    if k < s.len() {
        assert(s.take(s.len() - 1) =~= s.drop_last());
        lemma_trim_end_take(s.drop_last(), k);
        assert(s.drop_last().take(k) =~= s.take(k));
    } else {
        assert(s.take(k) =~= s);
    }
}

fn is_space(c: char) -> (b: bool)
    ensures
        b == white_space(c),
{
    crate::utils::utils::is_whitespace_char(c)
}

/// `s` without leading and trailing white space.
pub fn trim_text(s: &str) -> (r: String)
    ensures
        r@ == trimmed(s@),
{
    let n = s.unicode_len();
    let mut i: usize = 0;
    while i < n && is_space(s.get_char(i))
        invariant
            n == s@.len(),
            i <= n,
            forall|j: int| 0 <= j < i ==> white_space(#[trigger] s@[j]),
        decreases n - i,
    {
        i = i + 1;
    }
    proof {
        lemma_trim_start_skip(s@, i as int);
    }
    let ghost rest = s@.skip(i as int);
    let mut k: usize = n;
    while k > i && is_space(s.get_char(k - 1))
        invariant
            n == s@.len(),
            i <= k <= n,
            rest == s@.skip(i as int),
            forall|j: int| k <= j < n ==> white_space(#[trigger] s@[j]),
        decreases k,
    {
        k = k - 1;
    }
    proof {
        if i < n {
            assert(!white_space(s@[i as int]));
        }
        assert(trim_start(rest) == rest);
        assert forall|j: int| (k - i) <= j < rest.len() implies white_space(#[trigger] rest[j]) by {
            assert(rest[j] == s@[i + j]);
        }
        lemma_trim_end_take(rest, (k - i) as int);
        assert(rest.take((k - i) as int) =~= s@.subrange(i as int, k as int));
        if k > i {
            assert(!white_space(s@[k - 1]));
            assert(s@.subrange(i as int, k as int).last() == s@[k - 1]);
        }
    }
    String::from_str(s.substring_char(i, k))
}

/// What follows `prefix` in `t`, if `t` starts with it.
pub open spec fn after_prefix(t: Seq<char>, prefix: Seq<char>) -> Option<Seq<char>> {
    if prefix.len() <= t.len() && t.take(prefix.len() as int) == prefix {
        Some(t.skip(prefix.len() as int))
    } else {
        None
    }
}

/// What follows `prefix` in `t`, if `t` starts with it.
fn strip_text_prefix(t: &str, prefix: &str) -> (r: Option<String>)
    ensures
        match r {
            Some(v) => after_prefix(t@, prefix@) == Some(v@),
            None => after_prefix(t@, prefix@) is None,
        },
{
    let n = t.unicode_len();
    let p = prefix.unicode_len();
    if p > n {
        return None;
    }
    let mut i: usize = 0;
    while i < p
        invariant
            n == t@.len(),
            p == prefix@.len(),
            p <= n,
            i <= p,
            forall|j: int| 0 <= j < i ==> t@[j] == prefix@[j],
        decreases p - i,
    {
        if t.get_char(i) != prefix.get_char(i) {
            assert(t@.take(p as int)[i as int] != prefix@[i as int]);
            return None;
        }
        i = i + 1;
    }
    assert(t@.take(p as int) =~= prefix@);
    assert(t@.subrange(p as int, n as int) =~= t@.skip(p as int));
    Some(String::from_str(t.substring_char(p, n)))
}

/// The address text of an `nslookup` line: after `Address:` (else `地址:`)
/// at the start of the trimmed line, trimmed.
pub open spec fn nslookup_candidate(line: Seq<char>) -> Option<Seq<char>> {
    let t = trimmed(line);
    match after_prefix(t, "Address:"@) {
        Some(rest) => Some(trimmed(rest)),
        None => match after_prefix(t, "地址:"@) {
            Some(rest) => Some(trimmed(rest)),
            None => None,
        },
    }
}

/// The address texts of the lines, in order.
pub open spec fn nslookup_texts(lines: Seq<Seq<char>>) -> Seq<Seq<char>>
    decreases lines.len(),
{
    if lines.len() == 0 {
        Seq::empty()
    } else {
        let before = nslookup_texts(lines.drop_last());
        match nslookup_candidate(lines.last()) {
            Some(c) => before.push(c),
            None => before,
        }
    }
}

/// The address texts `nslookup` printed in `output`, in order (they are not
/// yet known to be addresses).
pub fn nslookup_candidates(output: &str) -> (r: Vec<String>)
    ensures
        string_views(r@) == nslookup_texts(lines_of(output@)),
{
    let lines = text_lines(output);
    let ghost v = string_views(lines@);
    let mut r: Vec<String> = Vec::new();
    let mut i: usize = 0;
    assert(string_views(r@) =~= nslookup_texts(v.take(0)));
    while i < lines.len()
        invariant
            i <= lines@.len(),
            v == string_views(lines@),
            string_views(r@) == nslookup_texts(v.take(i as int)),
        decreases lines@.len() - i,
    {
        assert(v.take(i + 1).drop_last() =~= v.take(i as int));
        assert(v.take(i + 1).last() == lines@[i as int]@);
        let t = trim_text(lines[i].as_str());
        let rest = match strip_text_prefix(t.as_str(), "Address:") {
            Some(rest) => Some(rest),
            None => strip_text_prefix(t.as_str(), "地址:"),
        };
        match rest {
            Some(rest) => {
                let ghost before = string_views(r@);
                r.push(trim_text(rest.as_str()));
                assert(string_views(r@) =~= before.push(string_views(r@).last()));
            },
            None => {},
        }
        i = i + 1;
    }
    assert(v.take(lines@.len() as int) =~= v);
    r
}

/// The trimmed lines of `output`, each a possible address (`dig +short`).
pub fn dig_candidates(output: &str) -> (r: Vec<String>)
    ensures
        string_views(r@) == lines_of(output@).map_values(|l: Seq<char>| trimmed(l)),
{
    let lines = text_lines(output);
    let ghost v = string_views(lines@);
    let mut r: Vec<String> = Vec::new();
    let mut i: usize = 0;
    while i < lines.len()
        invariant
            i <= lines@.len(),
            v == string_views(lines@),
            string_views(r@) == v.take(i as int).map_values(|l: Seq<char>| trimmed(l)),
        decreases lines@.len() - i,
    {
        let ghost before = string_views(r@);
        let t = trim_text(lines[i].as_str());
        assert(t@ == trimmed(v[i as int]));
        r.push(t);
        assert(string_views(r@) =~= before.push(trimmed(v[i as int])));
        assert(v.take(i + 1).map_values(|l: Seq<char>| trimmed(l)) =~= v.take(i as int).map_values(
            |l: Seq<char>| trimmed(l),
        ).push(trimmed(v[i as int])));
        i = i + 1;
    }
    assert(v.take(lines@.len() as int) =~= v);
    r
}

/// The first of the three lists that is not empty (the last one if all are).
pub open spec fn first_nonempty(a: Seq<IpAddr>, b: Seq<IpAddr>, c: Seq<IpAddr>) -> Seq<IpAddr> {
    if a.len() > 0 {
        a
    } else if b.len() > 0 {
        b
    } else {
        c
    }
}

/// The addresses a domain resolves to, from the lookups tried in turn: those
/// of `nslookup`, else those of `dig`, else those of the system resolver,
/// each kept once in the order first seen. A lookup that was not run (as an
/// earlier one found addresses) is passed as an empty list.
pub fn pick_resolved(nslookup: Vec<IpAddr>, dig: Vec<IpAddr>, system: Vec<IpAddr>) -> (r: Vec<IpAddr>)
    ensures
        r@ == dedup_first(first_nonempty(nslookup@, dig@, system@)),
{
    if nslookup.len() > 0 {
        dedup_ips(&nslookup)
    } else if dig.len() > 0 {
        dedup_ips(&dig)
    } else {
        dedup_ips(&system)
    }
}

} // verus!
