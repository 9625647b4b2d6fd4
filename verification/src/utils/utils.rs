//! General helpers.
use vstd::prelude::*;
use crate::bits::{
    bit_length, lemma_bit_length_le, lemma_two_pow_mono, round_div_half_even, round_half_even, two_pow,
};
use crate::text::{decimal, push_char, push_decimal};
use crate::time::Duration;

verus! {

/// How `format_duration` writes a span of `secs` whole seconds.
pub open spec fn duration_text(secs: nat) -> Seq<char> {
    if secs < 60 {
        decimal(secs) + "秒"@
    } else if secs < 3600 {
        decimal(secs / 60) + "分"@ + decimal(secs % 60) + "秒"@
    } else {
        decimal(secs / 3600) + "时"@ + decimal((secs % 3600) / 60) + "分"@ + decimal(secs % 60) + "秒"@
    }
}

/// Writes the whole seconds of `duration` as seconds, minutes and seconds, or
/// hours, minutes and seconds.
pub fn format_duration(duration: Duration) -> (s: String)
    ensures
        s@ == duration_text(duration.whole_secs()),
{
    let secs = duration.as_secs();
    let mut s = String::new();
    if secs < 60 {
        push_decimal(&mut s, secs);
        s.append("秒");
    } else if secs < 3600 {
        push_decimal(&mut s, secs / 60);
        s.append("分");
        push_decimal(&mut s, secs % 60);
        s.append("秒");
    } else {
        push_decimal(&mut s, secs / 3600);
        s.append("时");
        push_decimal(&mut s, (secs % 3600) / 60);
        s.append("分");
        push_decimal(&mut s, secs % 60);
        s.append("秒");
    }
    s
}

/// Whether `c` has the Unicode `White_Space` property: the controls U+0009 to
/// U+000D, space, U+0085, no-break space, U+1680, U+2000 to U+200A, the line
/// and paragraph separators, U+202F, U+205F and the ideographic space U+3000.
pub open spec fn white_space(c: char) -> bool {
    let u = c as u32;
    ||| 0x9 <= u <= 0xD
    ||| u == 0x20
    ||| u == 0x85
    ||| u == 0xA0
    ||| u == 0x1680
    ||| 0x2000 <= u <= 0x200A
    ||| u == 0x2028
    ||| u == 0x2029
    ||| u == 0x202F
    ||| u == 0x205F
    ||| u == 0x3000
}

/// `char::is_whitespace`: true exactly for the characters with the Unicode
/// `White_Space` property, which `white_space` lists.
#[verifier::external_body]
pub(crate) fn is_whitespace_char(c: char) -> (b: bool)
    ensures
        b == white_space(c),
{
    c.is_whitespace()
}

/// Whether every character of `s` is white space (so that trimming leaves nothing).
pub open spec fn blank(s: Seq<char>) -> bool {
    forall|i: int| 0 <= i < s.len() ==> white_space(#[trigger] s[i])
}

/// Whether `s` is empty or holds only white space.
pub fn is_blank(s: &str) -> (b: bool)
    ensures
        b == blank(s@),
{
    let n = s.unicode_len();
    let mut i: usize = 0;
    while i < n
        invariant
            n == s@.len(),
            i <= n,
            forall|j: int| 0 <= j < i ==> white_space(#[trigger] s@[j]),
        decreases n - i,
    {
        if !is_whitespace_char(s.get_char(i)) {
            return false;
        }
        i = i + 1;
    }
    true
}

/// A point in time (`std::time::Instant`).
#[verifier::external_type_specification]
#[verifier::external_body]
pub struct ExInstant(std::time::Instant);

/// `Instant::clone`: an `Instant` is `Copy`, so its clone is the same instant.
pub assume_specification[ <std::time::Instant as Clone>::clone ](i: &std::time::Instant) -> (r: std::time::Instant)
    ensures
        r == *i,
;

/// `Instant::now`: the current instant; nothing is promised of it.
#[verifier::external_body]
pub(crate) fn instant_now() -> std::time::Instant {
    std::time::Instant::now()
}

/// `Instant::elapsed`: the time since `start`, as a `Duration` of this crate;
/// it depends on the clock, so nothing is promised of it.
#[verifier::external_body]
pub(crate) fn elapsed_since(start: &std::time::Instant) -> Duration {
    let d = start.elapsed();
    Duration::new(d.as_secs(), d.subsec_nanos())
}

/// Runs `f` and returns its result with the time it took.
pub fn measure_time<F, R>(f: F) -> (out: (R, Duration))
    where
        F: FnOnce() -> R,
    requires
        f.requires(()),
    ensures
        f.ensures((), out.0),
{
    let start = instant_now();
    let result = f();
    let duration = elapsed_since(&start);
    (result, duration)
}

/// `1024^k` for `k` up to 5.
pub open spec fn kib_power(k: nat) -> nat {
    if k == 0 {
        1
    } else if k == 1 {
        1024
    } else if k == 2 {
        1048576
    } else if k == 3 {
        1073741824
    } else if k == 4 {
        1099511627776
    } else {
        1125899906842624
    }
}

/// The unit a byte count is shown in: 0 for B, 1 for KB, up to 5 for PB;
/// the largest `k` up to 5 with `1024^k <= bytes` (0 below 1024).
pub open spec fn byte_unit_index(bytes: nat) -> nat {
    if bytes < kib_power(1) {
        0
    } else if bytes < kib_power(2) {
        1
    } else if bytes < kib_power(3) {
        2
    } else if bytes < kib_power(4) {
        3
    } else if bytes < kib_power(5) {
        4
    } else {
        5
    }
}

/// The names of the units, B to PB.
pub open spec fn unit_name(k: nat) -> Seq<char> {
    if k == 0 {
        "B"@
    } else if k == 1 {
        "KB"@
    } else if k == 2 {
        "MB"@
    } else if k == 3 {
        "GB"@
    } else if k == 4 {
        "TB"@
    } else {
        "PB"@
    }
}

/// The position of the unit `bytes` is shown in (see `byte_unit_index`); the
/// number shown is `bytes / 1024^k`.
pub fn byte_unit_position(bytes: u64) -> (k: u32)
    ensures
        k == byte_unit_index(bytes as nat),
{
    if bytes < 1024 {
        0
    } else if bytes < 1048576 {
        1
    } else if bytes < 1073741824 {
        2
    } else if bytes < 1099511627776 {
        3
    } else if bytes < 1125899906842624 {
        4
    } else {
        5
    }
}

/// The name of the unit `bytes` is shown in.
pub fn byte_unit(bytes: u64) -> (u: &'static str)
    ensures
        u@ == unit_name(byte_unit_index(bytes as nat)),
{
    let k = byte_unit_position(bytes);
    if k == 0 {
        "B"
    } else if k == 1 {
        "KB"
    } else if k == 2 {
        "MB"
    } else if k == 3 {
        "GB"
    } else if k == 4 {
        "TB"
    } else {
        "PB"
    }
}

/// The value a 64-bit float holds for `n`: `n` itself below `2^53`, otherwise
/// `n` rounded to 53 significant bits, ties to even.
pub open spec fn double_value(n: nat) -> nat {
    let b = bit_length(n);
    if b <= 53 {
        n
    } else {
        let unit = two_pow((b - 53) as nat);
        round_half_even(n, unit) * unit
    }
}

/// The hundredths `format_bytes` shows for `bytes`: the float value of `bytes`
/// over `1024^k` (`k` its unit), rounded to hundredths, ties to even.
pub open spec fn shown_hundredths(bytes: nat) -> nat {
    round_half_even(double_value(bytes) * 100, kib_power(byte_unit_index(bytes)))
}

/// How `format_bytes` writes `bytes`: the number in its unit with two decimals,
/// a space and the unit's name.
pub open spec fn bytes_text(bytes: nat) -> Seq<char> {
    let h = shown_hundredths(bytes);
    decimal(h / 100) + seq!['.'] + decimal((h / 10) % 10) + decimal(h % 10) + seq![' ']
        + unit_name(byte_unit_index(bytes))
}

/// The float value of `bytes` (see `double_value`).
fn double_of(bytes: u64) -> (v: u128)
    ensures
        v == double_value(bytes as nat),
        v <= 0x1_0000_0000_0000_0800,
        bytes < 0x20_0000_0000_0000 ==> v == bytes,
{
    proof {
        reveal_with_fuel(two_pow, 65);
        assert(two_pow(11) == 2048);
        assert(two_pow(53) == 0x20_0000_0000_0000);
        assert(two_pow(64) == 0x1_0000_0000_0000_0000);
        lemma_bit_length_le(bytes as nat, 64);
        if bytes < 0x20_0000_0000_0000 {
            lemma_bit_length_le(bytes as nat, 53);
        }
    }
    let mut n: u64 = bytes;
    let mut bl: u32 = 0;
    while n > 0
        invariant
            bl + bit_length(n as nat) == bit_length(bytes as nat),
            bit_length(bytes as nat) <= 64,
        decreases n,
    {
        n = n / 2;
        bl = bl + 1;
    }
    if bl <= 53 {
        bytes as u128
    } else {
        let shift: u32 = bl - 53;
        let mut unit: u128 = 1;
        let mut i: u32 = 0;
        while i < shift
            invariant
                i <= shift,
                shift <= 11,
                unit == two_pow(i as nat),
                two_pow(11) == 2048,
            decreases shift - i,
        {
            proof {
                lemma_two_pow_mono((i + 1) as nat, 11);
            }
            unit = unit * 2;
            i = i + 1;
        }
        proof {
            lemma_two_pow_mono(i as nat, 11);
        }
        let q = round_div_half_even(bytes as u128, unit);
        proof {
            let a = bytes as int;
            let u = unit as int;
            vstd::arithmetic::div_mod::lemma_fundamental_div_mod(a, u);
            assert(q <= a / u + 1);
            assert((a / u) * u <= a);
            assert(q * u <= (a / u + 1) * u) by (nonlinear_arith)
                requires
                    q <= a / u + 1,
                    u > 0,
            ;
            assert((a / u + 1) * u == (a / u) * u + u) by (nonlinear_arith);
        }
        q * unit
    }
}

/// `1024^k` for a unit position `k` up to 5.
fn kib_power_of(k: u32) -> (d: u128)
    requires
        k <= 5,
    ensures
        d == kib_power(k as nat),
{
    if k == 0 {
        1
    } else if k == 1 {
        1024
    } else if k == 2 {
        1048576
    } else if k == 3 {
        1073741824
    } else if k == 4 {
        1099511627776
    } else {
        1125899906842624
    }
}

/// Writes a byte count in the largest unit up to PB that it reaches, with two
/// decimals: the float value of `bytes` over `1024^k`, rounded to hundredths
/// with ties to even, then a space and the unit's name.
pub fn format_bytes(bytes: u64) -> (s: String)
    ensures
        s@ == bytes_text(bytes as nat),
{
    let value = double_of(bytes);
    let k = byte_unit_position(bytes);
    let d = kib_power_of(k);
    let a: u128 = value * 100;
    let h = round_div_half_even(a, d);
    proof {
        vstd::arithmetic::div_mod::lemma_div_nonincreasing(a as int, d as int);
        if k < 5 {
            assert(value == bytes);
            assert(a < 1024 * 100 * d) by (nonlinear_arith)
                requires
                    a == value * 100,
                    value < 1024 * d,
            ;
            assert(a / d < 102400) by (nonlinear_arith)
                requires
                    a < 102400 * d,
                    d > 0,
            ;
        }
        assert(h <= a / d + 1);
        assert(h < 0x1_0000_0000);
    }
    let hh: u64 = h as u64;
    let mut s = String::new();
    push_decimal(&mut s, hh / 100);
    push_char(&mut s, '.');
    push_decimal(&mut s, (hh / 10) % 10);
    push_decimal(&mut s, hh % 10);
    push_char(&mut s, ' ');
    let unit = byte_unit(bytes);
    s.append(unit);
    proof {
        assert(s@ =~= bytes_text(bytes as nat));
    }
    s
}

} // verus!
