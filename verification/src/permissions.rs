//! File modes: the mode a server installer file is given — the file's current
//! mode with its fourth octal digit from the top set to 7, which grants the
//! owner execute permission while keeping the file-type digits in front of it.

use vstd::arithmetic::div_mod::lemma_breakdown;
use vstd::arithmetic::div_mod::lemma_fundamental_div_mod;
use vstd::arithmetic::div_mod::lemma_mod_multiples_basic;
use vstd::arithmetic::div_mod::lemma_mod_pos_bound;
use vstd::arithmetic::div_mod::lemma_multiply_divide_lt;
use vstd::arithmetic::mul::lemma_mul_inequality;
use vstd::arithmetic::mul::lemma_mul_is_commutative;
use vstd::arithmetic::power::lemma_pow_adds;
use vstd::arithmetic::power::lemma_pow_increases;
use vstd::arithmetic::power::lemma_pow_multiplies;
use vstd::arithmetic::power::lemma_pow_positive;
use vstd::arithmetic::power::pow;
use vstd::prelude::*;

verus! {

/// How many octal digits a value prints as.
pub open spec fn spec_octal_len(n: nat) -> nat
    decreases n,
{
    if n < 8 {
        1
    } else {
        1 + spec_octal_len((n / 8) as nat)
    }
}

proof fn lemma_pow8_values()
    ensures
        pow(8, 0) == 1,
        pow(8, 1) == 8,
        pow(8, 2) == 64,
        pow(8, 3) == 512,
        pow(8, 4) == 4096,
        pow(8, 5) == 32768,
        pow(8, 6) == 262144,
        pow(8, 7) == 2097152,
        pow(8, 8) == 16777216,
        pow(8, 9) == 134217728,
        pow(8, 10) == 1073741824,
        pow(8, 11) == 8589934592,
{
    reveal_with_fuel(pow, 13);
    assert(pow(8, 11) == 8589934592);
}

proof fn lemma_octal_len_bound(n: nat, k: nat)
    requires
        1 <= k,
        n < pow(8, k),
    ensures
        spec_octal_len(n) <= k,
    decreases n,
{
    if n >= 8 {
        reveal_with_fuel(pow, 2);
        assert(pow(8, k) == 8 * pow(8, (k - 1) as nat));
        if k == 1 {
            assert(false);
        }
        lemma_multiply_divide_lt(n as int, 8, pow(8, (k - 1) as nat));
        lemma_octal_len_bound((n / 8) as nat, (k - 1) as nat);
    }
}

/// Every mode of at least `0o1000` prints as at least four octal digits, so
/// it has the digit `owner_executable_mode` sets.
pub proof fn lemma_mode_has_four_digits(n: nat)
    requires
        n >= 512,
    ensures
        spec_octal_len(n) >= 4,
{
    assert(n / 8 >= 64) by (nonlinear_arith)
        requires
            n >= 512,
    ;
    assert(n / 8 / 8 >= 8) by (nonlinear_arith)
        requires
            n / 8 >= 64,
    ;
    assert(spec_octal_len(n) == 1 + spec_octal_len((n / 8) as nat));
    assert(spec_octal_len((n / 8) as nat) == 1 + spec_octal_len((n / 8 / 8) as nat));
    assert(spec_octal_len((n / 8 / 8) as nat) == 1 + spec_octal_len((n / 8 / 8 / 8) as nat));
    assert(spec_octal_len((n / 8 / 8 / 8) as nat) >= 1);
}

/// The mode with its fourth octal digit from the top set to 7 (the digit is
/// at place `p`, one eighth of the place of the leading three digits). Modes
/// shorter than four octal digits have no such digit and are not accepted.
pub fn owner_executable_mode(mode: u32) -> (r: u32)
    requires
        spec_octal_len(mode as nat) >= 4,
    ensures
        ({
            let p = pow(8, (spec_octal_len(mode as nat) - 4) as nat);
            r as int == mode as int - ((mode as int / p) % 8) * p + 7 * p
        }),
{
    proof {
        lemma_pow8_values();
        lemma_octal_len_bound(mode as nat, 11);
    }
    let ghost total = spec_octal_len(mode as nat);
    let mut q: u32 = mode;
    let mut len: u32 = 1;
    while q >= 8
        invariant
            total == spec_octal_len(mode as nat),
            total == spec_octal_len(q as nat) + len - 1,
            1 <= len <= total <= 11,
        decreases q,
    {
        q = q / 8;
        len = len + 1;
    }
    assert(len == total);
    let e = len - 4;
    assert(e <= 7);
    let mut p: u32 = 1;
    let mut k: u32 = 0;
    while k < e
        invariant
            k <= e <= 7,
            p as int == pow(8, k as nat),
        decreases e - k,
    {
        proof {
            lemma_pow8_values();
            lemma_pow_increases(8, k as nat, 6);
        }
        p = p * 8;
        k = k + 1;
    }
    proof {
        lemma_pow8_values();
        lemma_pow_increases(8, e as nat, 7);
    }
    proof {
        lemma_pow_positive(8, e as nat);
    }
    let d = (mode / p) % 8;
    proof {
        let m = mode as int;
        let pi = p as int;
        lemma_fundamental_div_mod(m, pi);
        lemma_mod_pos_bound(m / pi, 8);
        assert((d as int) * pi <= (m / pi) * pi) by {
            lemma_mul_inequality(d as int, m / pi, pi);
        }
        lemma_mod_pos_bound(m, pi);
        lemma_mul_is_commutative(pi, m / pi);
        assert((m / pi) * pi <= m);
    }
    let r64: u64 = mode as u64 - (d as u64) * (p as u64) + 7 * (p as u64);
    proof {
        let m = mode as int;
        let pi = p as int;
        let di = d as int;
        let pp = 8 * pi;
        lemma_pow_positive(8, e as nat);
        // the digit at place p sits inside mode % (8 p)
        assert(pp == pi * 8);
        lemma_breakdown(m, pi, 8);
        lemma_fundamental_div_mod(m, pp);
        lemma_mod_pos_bound(m, pi);
        lemma_mul_is_commutative(pi, di);
        lemma_mul_is_commutative(pp, m / pp);
        assert((r64 as int) == (m / pp) * pp + (m % pi) + 7 * pi);
        // 2^32 is a multiple of 8 p, so staying below the next multiple of
        // 8 p keeps the result below 2^32
        assert(pow(2, 3) == 8) by {
            reveal_with_fuel(pow, 4);
        }
        lemma_pow_multiplies(2, 3, (e + 1) as nat);
        assert(pp == pow(8, (e + 1) as nat)) by {
            reveal_with_fuel(pow, 2);
        }
        assert(pp == pow(2, (3 * e + 3) as nat));
        lemma_pow_adds(2, (3 * e + 3) as nat, (32 - (3 * e + 3)) as nat);
        let c = pow(2, (32 - (3 * e + 3)) as nat);
        lemma_pow_positive(2, (32 - (3 * e + 3)) as nat);
        assert(pow(2, 32) == pp * c);
        assert(pow(2, 32) == 4294967296) by {
            reveal_with_fuel(pow, 33);
        }
        lemma_multiply_divide_lt(m, pp, c);
        assert(m / pp + 1 <= c);
        assert((m / pp + 1) * pp <= c * pp) by {
            lemma_mul_inequality(m / pp + 1, c, pp);
        }
        assert((r64 as int) < (m / pp) * pp + pp);
        assert((m / pp) * pp + pp == (m / pp + 1) * pp) by (nonlinear_arith);
        assert(r64 as int <= 4294967295);
    }
    r64 as u32
}

} // verus!
