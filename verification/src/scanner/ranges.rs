//! Which addresses are probed for a domain: the ranges GitHub publishes for
//! it, the addresses taken from each CIDR range, and fallback addresses.
use vstd::prelude::*;
use crate::config::models::{extend_strings, string_views};
use crate::scanner::github::GithubMetaResponse;
use crate::text::same_chars;
use crate::bits::{lemma_two_pow_mono, two_pow};
use crate::net::{IpAddr, Ipv4Addr, Ipv6Addr, ipv4_number};

verus! {

/// A network in CIDR notation: its first address and its prefix length.
#[derive(Debug, Clone, Copy, PartialEq, Eq, Structural)]
#[allow(inconsistent_fields)]
pub enum CidrRange {
    V4 { first: u32, len: u8 },
    V6 { first: u128, len: u8 },
}

/// What `cidr::IpCidr::from_str` makes of a text: the network's first address
/// and prefix length, or `None` where it refuses the text.
pub uninterp spec fn parsed_cidr(s: Seq<char>) -> Option<CidrRange>;

/// Parses `s` with `cidr::IpCidr::from_str`. The crate accepts `a/len` and a
/// plain address (read as a network of one host), and keeps prefix lengths
/// within 32 (IPv4) and 128 (IPv6).
#[verifier::external_body]
fn parse_cidr(s: &str) -> (r: Option<CidrRange>)
    ensures
        r == parsed_cidr(s@),
        r matches Some(CidrRange::V4 { len, .. }) ==> len <= 32,
        r matches Some(CidrRange::V6 { len, .. }) ==> len <= 128,
{
    match s.parse::<cidr::IpCidr>() {
        Ok(cidr::IpCidr::V4(c)) => Some(CidrRange::V4 { first: u32::from(c.first_address()), len: c.network_length() }),
        Ok(cidr::IpCidr::V6(c)) => Some(CidrRange::V6 { first: u128::from(c.first_address()), len: c.network_length() }),
        Err(_) => None,
    }
}

/// How many addresses are taken from an IPv4 network of `hosts` addresses,
/// leaving out its network and broadcast addresses: two from a network of more
/// than 256, otherwise all its other addresses but at most `max`.
pub open spec fn v4_take(hosts: nat, max: nat) -> nat {
    if hosts > 256 {
        2
    } else if hosts < 2 {
        0
    } else {
        min_nat((hosts - 2) as nat, max)
    }
}

/// How many addresses are taken from an IPv6 network of prefix length `len`:
/// two, but no more than the network holds after its first address.
pub open spec fn v6_take(len: nat) -> nat {
    if len >= 128 {
        0
    } else if len == 127 {
        1
    } else {
        2
    }
}

/// The smaller of `a` and `b`.
pub open spec fn min_nat(a: nat, b: nat) -> nat {
    if a <= b {
        a
    } else {
        b
    }
}

/// The `k` IPv4 addresses that follow `first`.
pub open spec fn v4_after(first: u32, k: nat) -> Seq<IpAddr> {
    Seq::new(k, |j: int| IpAddr::V4(Ipv4Addr { bits: (first + j + 1) as u32 }))
}

/// The `k` IPv6 addresses that follow `first`.
pub open spec fn v6_after(first: u128, k: nat) -> Seq<IpAddr> {
    Seq::new(k, |j: int| IpAddr::V6(Ipv6Addr { bits: (first + j + 1) as u128 }))
}

/// The addresses probed in a network: the first `n` after its first address
/// (`n` by `v4_take` for IPv4, by `v6_take` for IPv6), leaving out any that
/// would pass the largest address.
pub open spec fn cidr_hosts(r: CidrRange, max: nat) -> Seq<IpAddr> {
    match r {
        CidrRange::V4 { first, len } => v4_after(
            first,
            min_nat(v4_take(two_pow((32 - len) as nat), max), (u32::MAX - first) as nat),
        ),
        CidrRange::V6 { first, len } => v6_after(first, min_nat(v6_take(len as nat), (u128::MAX - first) as nat)),
    }
}

/// The addresses taken from an IPv4 network lie strictly between its first
/// (network) address and its last (broadcast) address.
pub proof fn lemma_v4_hosts_inside(first: u32, len: u8, max: nat, j: int)
    requires
        len <= 32,
        0 <= j < cidr_hosts(CidrRange::V4 { first, len }, max).len(),
    ensures
        cidr_hosts(CidrRange::V4 { first, len }, max)[j] matches IpAddr::V4(a)
            && first < a.bits < first + two_pow((32 - len) as nat) - 1,
{
    let n = v4_take(two_pow((32 - len) as nat), max);
    assert(j < n && j < u32::MAX - first);
    assert(((first + j + 1) as u32) == first + j + 1);
}

/// How many addresses are taken from an IPv4 network of prefix length `len`
/// (up to 32): exactly two from a network wider than a /24 (more than 256
/// addresses), all addresses but the network and broadcast ones up to `max`
/// from a /24 to a /30 (256 down to 4 addresses), and none from a /31 or a
/// /32; never running past the largest address.
pub proof fn lemma_v4_host_count(first: u32, len: u8, max: nat)
    requires
        len <= 32,
    ensures
        len < 24 ==> cidr_hosts(CidrRange::V4 { first, len }, max).len()
            == min_nat(2, (u32::MAX - first) as nat),
        24 <= len <= 30 ==> cidr_hosts(CidrRange::V4 { first, len }, max).len()
            == min_nat(min_nat((two_pow((32 - len) as nat) - 2) as nat, max), (u32::MAX - first) as nat),
        len >= 31 ==> cidr_hosts(CidrRange::V4 { first, len }, max).len() == 0,
{
    let h = two_pow((32 - len) as nat);
    if len < 24 {
        lemma_two_pow_mono(9, (32 - len) as nat);
        reveal_with_fuel(two_pow, 10);
        assert(two_pow(9) == 512);
    } else if len <= 30 {
        lemma_two_pow_mono(2, (32 - len) as nat);
        lemma_two_pow_mono((32 - len) as nat, 8);
        reveal_with_fuel(two_pow, 9);
        assert(two_pow(2) == 4);
        assert(two_pow(8) == 256);
    } else {
        lemma_two_pow_mono((32 - len) as nat, 1);
        reveal_with_fuel(two_pow, 2);
        assert(two_pow(1) == 2);
    }
}

/// `2^n` for `n` up to 8.
fn small_two_pow(n: u8) -> (p: u64)
    requires
        n <= 8,
    ensures
        p == two_pow(n as nat),
        p <= 256,
{
    let mut p: u64 = 1;
    let mut k: u8 = 0;
    while k < n
        invariant
            k <= n <= 8,
            p == two_pow(k as nat),
        decreases n - k,
    {
        proof {
            lemma_two_pow_mono((k + 1) as nat, 8);
            reveal_with_fuel(two_pow, 9);
            assert(two_pow(8) == 256);
        }
        p = p * 2;
        k = k + 1;
    }
    proof {
        lemma_two_pow_mono(n as nat, 8);
        reveal_with_fuel(two_pow, 9);
        assert(two_pow(8) == 256);
    }
    p
}

/// The addresses taken from `cidr`, counting from the address after the
/// first: for IPv4, two from a network of more than 256 addresses and otherwise
/// all but its network and broadcast addresses, at most `max_ips`; for IPv6,
/// two (fewer from a /127 or /128).
pub fn extract_ips_from_cidr(cidr: &CidrRange, max_ips: usize) -> (ips: Vec<IpAddr>)
    requires
        cidr matches CidrRange::V4 { len, .. } ==> len <= 32,
        cidr matches CidrRange::V6 { len, .. } ==> len <= 128,
    ensures
        ips@ == cidr_hosts(*cidr, max_ips as nat),
{
    let mut ips: Vec<IpAddr> = Vec::new();
    match *cidr {
        CidrRange::V4 { first, len } => {
            let host_bits: u8 = 32 - len;
            let ghost hosts = two_pow(host_bits as nat);
            let n: usize = if host_bits > 8 {
                proof {
                    lemma_two_pow_mono(9, host_bits as nat);
                    reveal_with_fuel(two_pow, 10);
                    assert(two_pow(9) == 512);
                }
                2
            } else {
                let total: u64 = small_two_pow(host_bits);
                if total < 2 {
                    0
                } else if total - 2 > max_ips as u64 {
                    max_ips
                } else {
                    (total - 2) as usize
                }
            };
            assert(n == v4_take(hosts, max_ips as nat) && n <= 256);
            let mut i: usize = 1;
            while i <= n
                invariant
                    1 <= i <= n + 1,
                    n <= 256,
                    ips@ == v4_after(first, min_nat((i - 1) as nat, (u32::MAX - first) as nat)),
                decreases n + 1 - i,
            {
                match first.checked_add(i as u32) {
                    Some(bits) => {
                        ips.push(IpAddr::V4(Ipv4Addr { bits }));
                        assert(ips@ =~= v4_after(first, min_nat(i as nat, (u32::MAX - first) as nat)));
                    },
                    None => {
                        assert(v4_after(first, min_nat((i - 1) as nat, (u32::MAX - first) as nat))
                            =~= v4_after(first, min_nat(i as nat, (u32::MAX - first) as nat)));
                    },
                }
                i = i + 1;
            }
        },
        CidrRange::V6 { first, len } => {
            let n: usize = if len >= 128 {
                0
            } else if len == 127 {
                1
            } else {
                2
            };
            let mut i: usize = 1;
            while i <= n
                invariant
                    1 <= i <= n + 1,
                    n == v6_take(len as nat),
                    ips@ == v6_after(first, min_nat((i - 1) as nat, (u128::MAX - first) as nat)),
                decreases n + 1 - i,
            {
                match first.checked_add(i as u128) {
                    Some(bits) => {
                        ips.push(IpAddr::V6(Ipv6Addr { bits }));
                        assert(ips@ =~= v6_after(first, min_nat(i as nat, (u128::MAX - first) as nat)));
                    },
                    None => {
                        assert(v6_after(first, min_nat((i - 1) as nat, (u128::MAX - first) as nat))
                            =~= v6_after(first, min_nat(i as nat, (u128::MAX - first) as nat)));
                    },
                }
                i = i + 1;
            }
        },
    }
    ips
}

/// The addresses taken from the text of one range; none where it does not parse.
pub open spec fn range_hosts(s: Seq<char>, max: nat) -> Seq<IpAddr> {
    match parsed_cidr(s) {
        Some(c) => cidr_hosts(c, max),
        None => Seq::empty(),
    }
}

/// `acc` followed by the addresses of `ranges`, range by range, stopping after
/// the first range at which at least `max * 10` addresses are gathered.
pub open spec fn gathered(ranges: Seq<Seq<char>>, max: nat, acc: Seq<IpAddr>) -> Seq<IpAddr>
    decreases ranges.len(),
{
    if ranges.len() == 0 {
        acc
    } else {
        let next = acc + range_hosts(ranges[0], max);
        if next.len() >= max * 10 {
            next
        } else {
            gathered(ranges.drop_first(), max, next)
        }
    }
}

/// `s` without repeats: each element where it first occurs.
pub open spec fn dedup_first(s: Seq<IpAddr>) -> Seq<IpAddr>
    decreases s.len(),
{
    if s.len() == 0 {
        s
    } else {
        let d = dedup_first(s.drop_last());
        if d.contains(s.last()) {
            d
        } else {
            d.push(s.last())
        }
    }
}

/// The addresses probed for a list of ranges: gathered, without repeats,
/// and at most the first 100.
pub open spec fn extracted_ips(ranges: Seq<Seq<char>>, max: nat) -> Seq<IpAddr> {
    let d = dedup_first(gathered(ranges, max, Seq::empty()));
    if d.len() > 100 {
        d.take(100)
    } else {
        d
    }
}

/// Whether no element of `s` occurs twice.
pub open spec fn distinct(s: Seq<IpAddr>) -> bool {
    forall|a: int, b: int| 0 <= a < b < s.len() ==> s[a] != s[b]
}

/// Dropping repeats keeps exactly the elements, each once.
pub proof fn lemma_dedup_first(s: Seq<IpAddr>)
    ensures
        distinct(dedup_first(s)),
        forall|x: IpAddr| dedup_first(s).contains(x) <==> s.contains(x),
        dedup_first(s).len() <= s.len(),
    decreases s.len(),
{
    if s.len() > 0 {
        let t = s.drop_last();
        lemma_dedup_first(t);
        assert forall|x: IpAddr| dedup_first(s).contains(x) <==> s.contains(x) by {
            if s.contains(x) && x != s.last() {
                let i = choose|i: int| 0 <= i < s.len() && s[i] == x;
                assert(t[i] == x);
            }
            if t.contains(x) {
                let i = choose|i: int| 0 <= i < t.len() && t[i] == x;
                assert(s[i] == x);
            }
            if x == s.last() {
                assert(s[s.len() - 1] == x);
            }
            let d = dedup_first(t);
            if !d.contains(s.last()) && d.push(s.last()).contains(x) && x != s.last() {
                let i = choose|i: int| 0 <= i < d.push(s.last()).len() && d.push(s.last())[i] == x;
                assert(d[i] == x);
            }
            if !d.contains(s.last()) && x == s.last() {
                assert(d.push(s.last())[d.len() as int] == x);
            }
            if !d.contains(s.last()) && d.contains(x) {
                let i = choose|i: int| 0 <= i < d.len() && d[i] == x;
                assert(d.push(s.last())[i] == x);
            }
        }
    }
}

/// Whether `ips` holds `ip`.
fn holds(ips: &Vec<IpAddr>, ip: IpAddr) -> (r: bool)
    ensures
        r == ips@.contains(ip),
{
    let mut i: usize = 0;
    while i < ips.len()
        invariant
            i <= ips@.len(),
            forall|j: int| 0 <= j < i ==> ips@[j] != ip,
        decreases ips@.len() - i,
    {
        if ips[i] == ip {
            return true;
        }
        i = i + 1;
    }
    false
}

/// `ips` without repeats, each address where it first occurs.
pub fn dedup_ips(ips: &Vec<IpAddr>) -> (out: Vec<IpAddr>)
    ensures
        out@ == dedup_first(ips@),
{
    let mut out: Vec<IpAddr> = Vec::new();
    let mut i: usize = 0;
    while i < ips.len()
        invariant
            i <= ips@.len(),
            out@ == dedup_first(ips@.take(i as int)),
        decreases ips@.len() - i,
    {
        proof {
            assert(ips@.take(i + 1).drop_last() =~= ips@.take(i as int));
            assert(ips@.take(i + 1).last() == ips@[i as int]);
        }
        if !holds(&out, ips[i]) {
            out.push(ips[i]);
        }
        i = i + 1;
    }
    assert(ips@.take(ips@.len() as int) =~= ips@);
    out
}

/// The addresses probed for `ranges`: from each range that parses as a CIDR
/// network, the addresses `extract_ips_from_cidr` takes, range by range until
/// at least `max_ips_per_cidr * 10` are gathered; then repeats are dropped and
/// at most the first 100 kept.
pub fn extract_ips_from_ranges(ranges: &Vec<String>, max_ips_per_cidr: usize) -> (ips: Vec<IpAddr>)
    requires
        max_ips_per_cidr * 10 <= usize::MAX,
    ensures
        ips@ == extracted_ips(string_views(ranges@), max_ips_per_cidr as nat),
        distinct(ips@),
        ips@.len() <= 100,
{
    let ghost views = string_views(ranges@);
    let ghost max = max_ips_per_cidr as nat;
    let limit: usize = max_ips_per_cidr * 10;
    let mut all: Vec<IpAddr> = Vec::new();
    let mut done = false;
    let mut i: usize = 0;
    assert(views.skip(0) =~= views);
    while i < ranges.len() && !done
        invariant
            i <= ranges@.len(),
            views == string_views(ranges@),
            max == max_ips_per_cidr as nat,
            limit == max * 10,
            !done ==> gathered(views, max, Seq::empty()) == gathered(views.skip(i as int), max, all@),
            done ==> gathered(views, max, Seq::empty()) == all@,
        decreases ranges@.len() - i, if done { 0int } else { 1int },
    {
        let ghost before = all@;
        proof {
            assert(views.skip(i as int).drop_first() =~= views.skip(i + 1));
            assert(views.skip(i as int)[0] == ranges@[i as int]@);
        }
        let text = ranges[i].as_str();
        assert(text@ == ranges@[i as int]@);
        let parsed = parse_cidr(text);
        assert(parsed == parsed_cidr(ranges@[i as int]@));
        match parsed {
            Some(c) => {
                let mut piece = extract_ips_from_cidr(&c, max_ips_per_cidr);
                let ghost p = piece@;
                all.append(&mut piece);
                assert(p == range_hosts(ranges@[i as int]@, max));
                assert(all@ =~= before + p);
            },
            None => {
                assert(range_hosts(ranges@[i as int]@, max) == Seq::<IpAddr>::empty());
                assert(all@ =~= before + Seq::<IpAddr>::empty());
            },
        }
        proof {
            assert(all@ == before + range_hosts(views.skip(i as int)[0], max));
        }
        i = i + 1;
        if all.len() >= limit {
            done = true;
        }
    }
    proof {
        if !done {
            assert(views.skip(i as int) =~= Seq::<Seq<char>>::empty());
        }
    }
    let mut ips = dedup_ips(&all);
    proof {
        lemma_dedup_first(all@);
    }
    if ips.len() > 100 {
        ips.truncate(100);
    }
    ips
}

/// The ranges that serve `domain`: GitHub's web and API ranges for
/// `github.com` and `gist.github.com`, its Pages ranges for `github.io`, and
/// its web ranges for any other domain.
pub open spec fn domain_ranges(meta: GithubMetaResponse, domain: Seq<char>) -> Seq<Seq<char>> {
    if domain == "github.com"@ || domain == "gist.github.com"@ {
        string_views(meta.web@) + string_views(meta.api@)
    } else if domain == "github.io"@ {
        string_views(meta.pages@)
    } else {
        string_views(meta.web@)
    }
}

/// Copies of the ranges that serve `domain` (see `domain_ranges`).
pub fn ranges_for_domain(meta: &GithubMetaResponse, domain: &str) -> (r: Vec<String>)
    ensures
        string_views(r@) == domain_ranges(*meta, domain@),
{
    let mut r: Vec<String> = Vec::new();
    assert(string_views(r@) =~= Seq::<Seq<char>>::empty());
    if same_chars(domain, "github.com") || same_chars(domain, "gist.github.com") {
        extend_strings(&mut r, &meta.web);
        extend_strings(&mut r, &meta.api);
        assert(string_views(r@) =~= string_views(meta.web@) + string_views(meta.api@));
    } else if same_chars(domain, "github.io") {
        extend_strings(&mut r, &meta.pages);
        assert(string_views(r@) =~= string_views(meta.pages@));
    } else {
        extend_strings(&mut r, &meta.web);
        assert(string_views(r@) =~= string_views(meta.web@));
    }
    r
}

/// The IPv4 address `a.b.c.d`.
pub open spec fn v4(a: u8, b: u8, c: u8, d: u8) -> IpAddr {
    IpAddr::V4(Ipv4Addr { bits: ipv4_number(a, b, c, d) as u32 })
}

/// The addresses probed for `domain` when no range yields any.
pub open spec fn fallback_ips(domain: Seq<char>) -> Seq<IpAddr> {
    if domain == "github.com"@ {
        seq![v4(140, 82, 112, 3), v4(140, 82, 113, 3), v4(140, 82, 114, 3), v4(140, 82, 115, 3)]
    } else if domain == "github.global.ssl.fastly.net"@ {
        seq![v4(151, 101, 1, 194), v4(151, 101, 65, 194), v4(151, 101, 129, 194), v4(151, 101, 193, 194)]
    } else if domain == "raw.githubusercontent.com"@ {
        seq![v4(185, 199, 108, 133), v4(185, 199, 109, 133), v4(185, 199, 110, 133), v4(185, 199, 111, 133)]
    } else if domain == "gist.github.com"@ {
        seq![v4(140, 82, 112, 4), v4(140, 82, 113, 4)]
    } else if domain == "github.io"@ {
        seq![v4(185, 199, 108, 153), v4(185, 199, 109, 153), v4(185, 199, 110, 153), v4(185, 199, 111, 153)]
    } else {
        seq![v4(192, 30, 255, 113), v4(192, 30, 255, 112)]
    }
}

fn push_v4(ips: &mut Vec<IpAddr>, a: u8, b: u8, c: u8, d: u8)
    ensures
        final(ips)@ == old(ips)@.push(v4(a, b, c, d)),
{
    ips.push(IpAddr::V4(Ipv4Addr::new(a, b, c, d)));
}

/// The known addresses of `domain`, used when no range yields an address.
pub fn get_fallback_ips(domain: &str) -> (ips: Vec<IpAddr>)
    ensures
        ips@ == fallback_ips(domain@),
{
    let mut ips: Vec<IpAddr> = Vec::new();
    if same_chars(domain, "github.com") {
        push_v4(&mut ips, 140, 82, 112, 3);
        push_v4(&mut ips, 140, 82, 113, 3);
        push_v4(&mut ips, 140, 82, 114, 3);
        push_v4(&mut ips, 140, 82, 115, 3);
    } else if same_chars(domain, "github.global.ssl.fastly.net") {
        push_v4(&mut ips, 151, 101, 1, 194);
        push_v4(&mut ips, 151, 101, 65, 194);
        push_v4(&mut ips, 151, 101, 129, 194);
        push_v4(&mut ips, 151, 101, 193, 194);
    } else if same_chars(domain, "raw.githubusercontent.com") {
        push_v4(&mut ips, 185, 199, 108, 133);
        push_v4(&mut ips, 185, 199, 109, 133);
        push_v4(&mut ips, 185, 199, 110, 133);
        push_v4(&mut ips, 185, 199, 111, 133);
    } else if same_chars(domain, "gist.github.com") {
        push_v4(&mut ips, 140, 82, 112, 4);
        push_v4(&mut ips, 140, 82, 113, 4);
    } else if same_chars(domain, "github.io") {
        push_v4(&mut ips, 185, 199, 108, 153);
        push_v4(&mut ips, 185, 199, 109, 153);
        push_v4(&mut ips, 185, 199, 110, 153);
        push_v4(&mut ips, 185, 199, 111, 153);
    } else {
        push_v4(&mut ips, 192, 30, 255, 113);
        push_v4(&mut ips, 192, 30, 255, 112);
    }
    assert(ips@ =~= fallback_ips(domain@));
    ips
}

/// The addresses to probe: the extracted ones followed by those the system
/// resolver gave (repeats dropped, each where it first occurs), or, where
/// that leaves none, the fallback addresses of `domain`. The flag tells
/// whether the fallback was taken.
pub fn plan_domain_ips(domain: &str, extracted: Vec<IpAddr>, resolved: &Vec<IpAddr>) -> (r: (Vec<IpAddr>, bool))
    ensures
        ({
            let merged = if resolved@.len() == 0 { extracted@ } else { dedup_first(extracted@ + resolved@) };
            if merged.len() == 0 {
                r.0@ == fallback_ips(domain@) && r.1
            } else {
                r.0@ == merged && !r.1
            }
        }),
{
    let mut ips = extracted;
    if resolved.len() > 0 {
        let ghost before = ips@;
        let mut more = resolved.clone();
        assert(more@ =~= resolved@);
        ips.append(&mut more);
        assert(ips@ =~= before + resolved@);
        ips = dedup_ips(&ips);
    }
    if ips.len() == 0 {
        (get_fallback_ips(domain), true)
    } else {
        (ips, false)
    }
}

} // verus!
