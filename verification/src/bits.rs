//! Powers of two, bit lengths and rounding of quotients.
use vstd::prelude::*;

verus! {

/// `2^n`.
pub open spec fn two_pow(n: nat) -> nat
    decreases n,
{
    if n == 0 {
        1
    } else {
        2 * two_pow((n - 1) as nat)
    }
}

/// Powers of two grow with the exponent.
pub proof fn lemma_two_pow_mono(a: nat, b: nat)
    requires
        a <= b,
    ensures
        1 <= two_pow(a) <= two_pow(b),
    decreases b,
{
    if b > 0 {
        if a < b {
            lemma_two_pow_mono(a, (b - 1) as nat);
        } else {
            lemma_two_pow_mono((a - 1) as nat, (b - 1) as nat);
        }
    }
}

/// The number of binary digits of `n` (0 for 0).
pub open spec fn bit_length(n: nat) -> nat
    decreases n,
{
    if n == 0 {
        0
    } else {
        1 + bit_length(n / 2)
    }
}

/// `a / d` rounded to the nearest integer, ties to the even one.
pub open spec fn round_half_even(a: nat, d: nat) -> nat {
    let q = a / d;
    let r = a % d;
    if 2 * r > d || (2 * r == d && q % 2 == 1) {
        q + 1
    } else {
        q
    }
}

/// For `n > 0`, `2^(bit_length(n) - 1) <= n < 2^bit_length(n)`.
pub proof fn lemma_bit_length_bounds(n: nat)
    ensures
        n == 0 ==> bit_length(n) == 0,
        n > 0 ==> bit_length(n) >= 1 && two_pow((bit_length(n) - 1) as nat) <= n < two_pow(bit_length(n)),
    decreases n,
{
    if n >= 2 {
        lemma_bit_length_bounds(n / 2);
        let b = bit_length(n / 2);
        assert(bit_length(n) == 1 + b);
        assert(two_pow(b) == 2 * two_pow((b - 1) as nat));
        assert(two_pow(b + 1) == 2 * two_pow(b));
    } else if n == 1 {
        assert(bit_length(1) == 1 + bit_length(0));
        assert(two_pow(1) == 2 * two_pow(0));
    }
}

/// `n < 2^m` bounds the bit length of `n` by `m`.
pub proof fn lemma_bit_length_le(n: nat, m: nat)
    requires
        n < two_pow(m),
    ensures
        bit_length(n) <= m,
{
    lemma_bit_length_bounds(n);
    if n > 0 && bit_length(n) > m {
        lemma_two_pow_mono(m, (bit_length(n) - 1) as nat);
    }
}

/// `a / d` rounded to the nearest integer, ties to the even one.
pub(crate) fn round_div_half_even(a: u128, d: u128) -> (q: u128)
    requires
        0 < d < 0x1_0000_0000_0000_0000_0000_0000,
        a < u128::MAX,
    ensures
        q == round_half_even(a as nat, d as nat),
{
    let q = a / d;
    let r = a % d;
    proof {
        vstd::arithmetic::div_mod::lemma_div_nonincreasing(a as int, d as int);
    }
    if 2 * r > d || (2 * r == d && q % 2 == 1) {
        q + 1
    } else {
        q
    }
}

} // verus!
