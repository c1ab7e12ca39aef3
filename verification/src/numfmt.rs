//! Integer decimal rendering.
//!
//! Wire values are fixed point (Q16.16) or IEEE-754 bit patterns, so the
//! human-readable equation strings and byte-size labels are computed here
//! with exact integer arithmetic: round-half-to-even division gives the
//! correctly rounded decimal digits, and `round_sig` reproduces the
//! rounding a binary floating-point conversion applies to wide integers.

use vstd::arithmetic::div_mod::{lemma_div_denominator, lemma_div_is_ordered_by_denominator};
use vstd::arithmetic::power2::pow2;
use vstd::prelude::*;
use vstd::string::*;

verus! {

/// The decimal digit character for `d`.
pub open spec fn dec_char(d: nat) -> char {
    if d == 0 {
        '0'
    } else if d == 1 {
        '1'
    } else if d == 2 {
        '2'
    } else if d == 3 {
        '3'
    } else if d == 4 {
        '4'
    } else if d == 5 {
        '5'
    } else if d == 6 {
        '6'
    } else if d == 7 {
        '7'
    } else if d == 8 {
        '8'
    } else {
        '9'
    }
}

/// Decimal digits of `n`, without leading zeroes (`0` for zero).
pub open spec fn spec_dec(n: nat) -> Seq<char>
    decreases n,
{
    if n < 10 {
        seq![dec_char(n)]
    } else {
        spec_dec(n / 10).push(dec_char(n % 10))
    }
}

/// Exactly `width` decimal digits of `n`, zero-padded on the left.
pub open spec fn spec_dec_pad(n: nat, width: nat) -> Seq<char>
    decreases width,
{
    if width == 0 {
        Seq::empty()
    } else {
        spec_dec_pad(n / 10, (width - 1) as nat).push(dec_char(n % 10))
    }
}

/// `num / den` rounded to the nearest integer, ties to even — the rounding
/// IEEE-754 arithmetic and fixed-precision decimal formatting use.
pub open spec fn spec_rhe(num: nat, den: nat) -> nat
    recommends
        den > 0,
{
    let q = num / den;
    let r = num % den;
    if 2 * r > den || (2 * r == den && q % 2 == 1) {
        q + 1
    } else {
        q
    }
}

/// Ten to the `n`.
pub open spec fn pow10(n: nat) -> nat
    decreases n,
{
    if n == 0 {
        1
    } else {
        10 * pow10((n - 1) as nat)
    }
}

/// The power of two `p` with `n / p < cap <= n / (p / 2)`; 1 when `n < cap`.
pub open spec fn scale_for(n: nat, cap: nat) -> nat
    recommends
        cap > 0,
    decreases n,
{
    if n < cap || cap == 0 {
        1
    } else {
        2 * scale_for(n / 2, cap)
    }
}

/// `n` rounded to the nearest multiple of `scale_for(n, cap)`, ties to
/// even: for `cap` of 2^24 or 2^53 this is the value a conversion of `n`
/// to IEEE-754 single or double precision yields.
pub open spec fn spec_round_sig(n: nat, cap: nat) -> nat
    recommends
        cap > 1,
{
    if n < cap {
        n
    } else {
        spec_rhe(n, scale_for(n, cap)) * scale_for(n, cap)
    }
}

/// Floor of the base-two logarithm.
pub open spec fn log2(n: nat) -> nat
    decreases n,
{
    if n < 2 {
        0
    } else {
        1 + log2(n / 2)
    }
}

/// `n` lies between the powers of two its logarithm names.
pub proof fn lemma_log2_bounds(n: nat)
    requires
        n >= 1,
    ensures
        pow2(log2(n)) <= n < pow2(log2(n) + 1),
    decreases n,
{
    if n < 2 {
        vstd::arithmetic::power2::lemma2_to64();
    } else {
        lemma_log2_bounds(n / 2);
        let l = log2(n / 2);
        assert(pow2(l + 1) == 2 * pow2(l)) by {
            vstd::arithmetic::power2::lemma_pow2_unfold(l + 1);
        };
        assert(pow2(l + 2) == 2 * pow2(l + 1)) by {
            vstd::arithmetic::power2::lemma_pow2_unfold(l + 2);
        };
    }
}

/// The IEEE-754 single-precision bit pattern of the positive value
/// `k / 2^16`, for `k` already rounded to at most 24 significant bits and
/// at least one (so the value is a normal number at least one).
pub open spec fn spec_f32_bits_q16(k: nat) -> u32
    recommends
        0x10000 <= k,
{
    let e = log2(k);
    let m = if e >= 23 {
        ((k - pow2(e)) as nat / pow2((e - 23) as nat)) as nat
    } else {
        ((k - pow2(e)) as nat * pow2((23 - e) as nat)) as nat
    };
    (((e - 16 + 127) * 0x800000) + m) as u32
}

/// Build the single-precision bit pattern of `k / 2^16`.
pub fn f32_bits_q16(k: u64) -> (r: u32)
    requires
        0x10000 <= k < 0x10000000000,
    ensures
        r == spec_f32_bits_q16(k as nat),
{
    let mut x = k;
    let mut e: u64 = 0;
    let mut p: u64 = 1;
    proof {
        vstd::arithmetic::power2::lemma2_to64();
    }
    while x >= 2
        invariant
            x == k as nat / pow2(e as nat),
            p == pow2(e as nat),
            x >= 1,
            1 <= p,
            e <= 40,
            0x10000 <= k < 0x10000000000,
            p <= k,
            log2(k as nat) == e + log2(x as nat),
        decreases x,
    {
        proof {
            vstd::arithmetic::power2::lemma_pow2_unfold(e as nat + 1);
            vstd::arithmetic::div_mod::lemma_div_denominator(k as int, p as int, 2);
            assert(k as nat / (p as nat * 2) >= 1) by {
                assert(x / 2 >= 1);
            };
            assert(pow2(e as nat + 1) <= k) by {
                assert(p * 2 <= k) by (nonlinear_arith)
                    requires
                        k as nat / (p as nat * 2) >= 1,
                        p >= 1,
                ;
            };
            assert(e + 1 <= 40) by {
                if e + 1 > 40 {
                    vstd::arithmetic::power2::lemma_pow2_strictly_increases(40, e as nat + 1);
                    vstd::arithmetic::power2::lemma2_to64_rest();
                }
            };
        }
        x = x / 2;
        e = e + 1;
        p = p * 2;
    }
    proof {
        assert(log2(x as nat) == 0);
        assert(log2(k as nat) == e);
        lemma_log2_bounds(k as nat);
        vstd::arithmetic::power2::lemma_pow2_unfold(e as nat + 1);
        assert(k - p < pow2(e as nat));
        vstd::arithmetic::power2::lemma2_to64();
    }
    let m: u64 = if e >= 23 {
        proof {
            assert(pow2(23) * pow2((e - 23) as nat) == pow2(e as nat)) by {
                vstd::arithmetic::power2::lemma_pow2_adds(23, (e - 23) as nat);
            };
            vstd::arithmetic::power2::lemma_pow2_pos((e - 23) as nat);
            assert(p / 0x800000 == pow2((e - 23) as nat)) by (nonlinear_arith)
                requires
                    p == 0x800000 * pow2((e - 23) as nat),
                    pow2((e - 23) as nat) >= 1,
            ;
            assert(((k - p) as nat) / (pow2((e - 23) as nat)) < 0x800000) by (nonlinear_arith)
                requires
                    0 <= k - p < pow2(e as nat),
                    pow2(e as nat) == 0x800000 * pow2((e - 23) as nat),
                    pow2((e - 23) as nat) >= 1,
            ;
        }
        (k - p) / (p / 0x800000)
    } else {
        proof {
            assert(pow2(e as nat) * pow2((23 - e) as nat) == pow2(23)) by {
                vstd::arithmetic::power2::lemma_pow2_adds(e as nat, (23 - e) as nat);
            };
            vstd::arithmetic::power2::lemma_pow2_pos((23 - e) as nat);
            assert(0x800000u64 / p == pow2((23 - e) as nat)) by (nonlinear_arith)
                requires
                    0x800000 == p * pow2((23 - e) as nat),
                    p >= 1,
            ;
            assert(((k - p) as nat) * (pow2((23 - e) as nat)) < 0x800000) by (nonlinear_arith)
                requires
                    0 <= k - p < pow2(e as nat),
                    pow2(e as nat) * pow2((23 - e) as nat) == 0x800000,
            ;
        }
        (k - p) * (0x800000 / p)
    };
    proof {
        assert(e >= 16) by {
            assert(pow2(e as nat + 1) > 0x10000);
            if e < 16 {
                assert(e + 1 <= 16);
                assert(pow2(e as nat + 1) <= pow2(16)) by {
                    if e as nat + 1 < 16 {
                        vstd::arithmetic::power2::lemma_pow2_strictly_increases(e as nat + 1, 16);
                    }
                };
                vstd::arithmetic::power2::lemma2_to64();
            }
        };
        assert(e <= 40) by {
            assert(pow2(e as nat) <= k);
            if e > 40 {
                vstd::arithmetic::power2::lemma_pow2_strictly_increases(40, e as nat);
                vstd::arithmetic::power2::lemma2_to64();
            }
        };
    }
    ((e as u32) + 111) * 0x800000 + (m as u32)
}

/// One digit as a string slice.
pub(crate) fn digit_str(d: u64) -> (r: &'static str)
    requires
        d < 10,
    ensures
        r@ == seq![dec_char(d as nat)],
{
    let s: &'static str = match d {
        0 => "0",
        1 => "1",
        2 => "2",
        3 => "3",
        4 => "4",
        5 => "5",
        6 => "6",
        7 => "7",
        8 => "8",
        _ => "9",
    };
    proof {
        reveal_strlit("0");
        reveal_strlit("1");
        reveal_strlit("2");
        reveal_strlit("3");
        reveal_strlit("4");
        reveal_strlit("5");
        reveal_strlit("6");
        reveal_strlit("7");
        reveal_strlit("8");
        reveal_strlit("9");
        assert(s@ =~= seq![dec_char(d as nat)]);
    }
    s
}

/// Decimal digits of `n`, without leading zeroes.
pub fn dec_string(n: u128) -> (r: String)
    ensures
        r@ == spec_dec(n as nat),
    decreases n,
{
    if n < 10 {
        digit_str(n as u64).to_owned()
    } else {
        let mut s = dec_string(n / 10);
        s.append(digit_str((n % 10) as u64));
        proof {
            assert(s@ =~= spec_dec(n as nat));
        }
        s
    }
}

/// Exactly `width` decimal digits of `n`, zero-padded on the left.
pub fn dec_pad_string(n: u128, width: usize) -> (r: String)
    ensures
        r@ == spec_dec_pad(n as nat, width as nat),
    decreases width,
{
    if width == 0 {
        String::new()
    } else {
        let mut s = dec_pad_string(n / 10, width - 1);
        s.append(digit_str((n % 10) as u64));
        proof {
            assert(s@ =~= spec_dec_pad(n as nat, width as nat));
        }
        s
    }
}

/// `num / den` rounded to nearest, ties to even.
pub fn rhe_div(num: u128, den: u128) -> (r: u128)
    requires
        den > 0,
    ensures
        r as nat == spec_rhe(num as nat, den as nat),
{
    let q = num / den;
    let rem = num % den;
    let other = den - rem;
    if rem > other || (rem == other && q % 2 == 1) {
        proof {
            assert(den >= 2);
            lemma_div_is_ordered_by_denominator(num as int, 2, den as int);
            assert(q < u128::MAX);
        }
        q + 1
    } else {
        q
    }
}

/// Round `n` to the precision of a floating-point significand that can
/// hold values below `cap`: the nearest multiple, ties to even, of the
/// smallest power of two `p` with `n / p < cap`.
pub fn round_sig(n: u128, cap: u128) -> (r: u128)
    requires
        2 <= cap <= 0x20000000000000,
        n < 0x10000000000000000,
    ensures
        r as nat == spec_round_sig(n as nat, cap as nat),
        r <= 0x20000000000000000,
        r <= 2 * n,
        cap >= 4 && n >= cap ==> 2 * r >= n,
        n < cap ==> r == n,
{
    let mut x = n;
    let mut p: u128 = 1;
    proof {
        assert(x == n / p);
        assert(scale_for(n as nat, cap as nat) == p * scale_for(x as nat, cap as nat));
    }
    while x >= cap
        invariant
            2 <= cap <= 0x20000000000000,
            n < 0x10000000000000000,
            1 <= p,
            x == n as nat / p as nat,
            p == 1 || (p <= n && n as nat / ((p / 2) as nat) >= cap && p % 2 == 0),
            scale_for(n as nat, cap as nat) == p * scale_for(x as nat, cap as nat),
        decreases x,
    {
        proof {
            lemma_div_denominator(n as int, p as int, 2);
            assert(n as nat / p as nat >= 2);
            assert(n >= 2 * p) by (nonlinear_arith)
                requires
                    n as nat / p as nat >= 2,
                    p >= 1,
            ;
            assert(scale_for(x as nat, cap as nat) == 2 * scale_for((x / 2) as nat, cap as nat));
            assert(p * (2 * scale_for((x / 2) as nat, cap as nat)) == (2 * p) * scale_for(
                (x / 2) as nat,
                cap as nat,
            )) by (nonlinear_arith);
        }
        x = x / 2;
        p = p * 2;
    }
    proof {
        assert(scale_for(x as nat, cap as nat) == 1);
        assert(p == scale_for(n as nat, cap as nat)) by (nonlinear_arith)
            requires
                scale_for(x as nat, cap as nat) == 1,
                scale_for(n as nat, cap as nat) == p * scale_for(x as nat, cap as nat),
        ;
    }
    if p == 1 {
        n
    } else {
        let q = rhe_div(n, p);
        proof {
            assert(q <= cap) by (nonlinear_arith)
                requires
                    q as nat == spec_rhe(n as nat, p as nat),
                    x == n as nat / p as nat,
                    x < cap,
                    p >= 1,
            ;
            let h = (p / 2) as nat;
            assert(cap * h <= n) by (nonlinear_arith)
                requires
                    n as nat / h >= cap,
                    h >= 1,
            ;
            assert(q * p <= 2 * n) by (nonlinear_arith)
                requires
                    q <= cap,
                    p % 2 == 0,
                    p >= 2,
                    h == p / 2,
                    cap * h <= n,
            ;
            if cap >= 4 && n >= cap {
                assert(p <= n as nat / 2) by (nonlinear_arith)
                    requires
                        cap >= 4,
                        p % 2 == 0,
                        p >= 2,
                        h == p / 2,
                        cap * h <= n,
                ;
                assert(q * p >= n - p) by (nonlinear_arith)
                    requires
                        q as nat == spec_rhe(n as nat, p as nat),
                        p >= 1,
                ;
                assert(2 * (q * p) >= n) by (nonlinear_arith)
                    requires
                        q * p >= n - p,
                        p <= n as nat / 2,
                ;
            }
        }
        q * p
    }
}

/// The first few powers of ten, written out for the solver.
pub proof fn lemma_pow10_values()
    ensures
        pow10(0) == 1,
        pow10(1) == 10,
        pow10(2) == 100,
        pow10(3) == 1000,
        pow10(4) == 10000,
        pow10(5) == 100000,
        pow10(6) == 1000000,
        pow10(7) == 10000000,
        pow10(8) == 100000000,
{
    assert(pow10(0) == 1);
    assert(pow10(1) == 10);
    assert(pow10(2) == 100);
    assert(pow10(3) == 1000);
    assert(pow10(4) == 10000);
    assert(pow10(5) == 100000);
    assert(pow10(6) == 1000000);
    assert(pow10(7) == 10000000);
    assert(pow10(8) == 100000000);
}

/// Ten to the `d`, for small `d`.
pub fn pow10_u64(d: usize) -> (r: u64)
    requires
        d <= 8,
    ensures
        r as nat == pow10(d as nat),
        1 <= r <= 100000000,
{
    proof {
        lemma_pow10_values();
    }
    let mut i: usize = 0;
    let mut m: u64 = 1;
    while i < d
        invariant
            i <= d <= 8,
            m as nat == pow10(i as nat),
            m >= 1,
        decreases d - i,
    {
        proof {
            lemma_pow10_values();
            assert(m <= 10000000);
        }
        m = m * 10;
        i = i + 1;
    }
    proof {
        lemma_pow10_values();
    }
    m
}

/// Digits of `m / 2^shift_den` written with `d` fixed decimal places,
/// rounded to nearest with ties to even (the rounding `{:.d$}` applies to
/// an exactly representable binary value).
pub open spec fn spec_fixed(m: nat, den: nat, d: nat) -> Seq<char>
    recommends
        den > 0,
{
    let n10 = spec_rhe(m * pow10(d), den);
    spec_dec(n10 / pow10(d)) + seq!['.'] + spec_dec_pad(n10 % pow10(d), d)
}

/// Render `m / den` with `d` decimal places, rounding half to even.
pub fn fixed_string(m: u128, den: u128, d: usize) -> (r: String)
    requires
        den > 0,
        d <= 8,
        m <= 0x20000000000000000,
    ensures
        r@ == spec_fixed(m as nat, den as nat, d as nat),
{
    let p10 = pow10_u64(d) as u128;
    proof {
        assert(m * p10 <= 0x20000000000000000 * 100000000) by (nonlinear_arith)
            requires
                m <= 0x20000000000000000,
                p10 <= 100000000,
        ;
    }
    let n10 = rhe_div(m * p10, den);
    let mut s = dec_string(n10 / p10);
    s.append(".");
    let frac = dec_pad_string(n10 % p10, d);
    s.append(frac.as_str());
    proof {
        reveal_strlit(".");
        assert(s@ =~= spec_fixed(m as nat, den as nat, d as nat));
    }
    s
}

/// The human-readable byte-size label: bytes, or KB / MB / GB with one or
/// two decimals, rounded exactly as a double-precision division by the
/// power-of-two unit would be.
pub open spec fn spec_format_bytes(bytes: u64) -> Seq<char> {
    let m = spec_round_sig(bytes as nat, 0x20000000000000);
    if bytes < 1024 {
        spec_dec(bytes as nat) + " B"@
    } else if bytes < 0x100000 {
        spec_fixed(m, 1024, 1) + " KB"@
    } else if bytes < 0x40000000 {
        spec_fixed(m, 0x100000, 1) + " MB"@
    } else {
        spec_fixed(m, 0x40000000, 2) + " GB"@
    }
}

/// Format a byte count as `B`, `KB`, `MB` or `GB` for display.
pub fn format_bytes(bytes: u64) -> (r: String)
    ensures
        r@ == spec_format_bytes(bytes),
{
    if bytes < 1024 {
        let mut s = dec_string(bytes as u128);
        s.append(" B");
        proof {
            assert(s@ =~= spec_format_bytes(bytes));
        }
        s
    } else {
        let m = round_sig(bytes as u128, 0x20000000000000);
        if bytes < 0x100000 {
            let mut s = fixed_string(m, 1024, 1);
            s.append(" KB");
            proof {
                assert(s@ =~= spec_format_bytes(bytes));
            }
            s
        } else if bytes < 0x40000000 {
            let mut s = fixed_string(m, 0x100000, 1);
            s.append(" MB");
            proof {
                assert(s@ =~= spec_format_bytes(bytes));
            }
            s
        } else {
            let mut s = fixed_string(m, 0x40000000, 2);
            s.append(" GB");
            proof {
                assert(s@ =~= spec_format_bytes(bytes));
            }
            s
        }
    }
}

} // verus!
