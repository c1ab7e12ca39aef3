//! Exact fixed-decimal rendering of IEEE-754 bit patterns.
//!
//! A finite float is `± m * 2^e`; its `{:.d}` rendering is the decimal
//! digits of `m * 2^e * 10^d`, rounded half to even. For a nonnegative
//! exponent the product is computed exactly — with arbitrary-precision
//! decimal digits once it outgrows machine words — and for a negative
//! exponent one rounded division produces the digits. Everything is
//! integer arithmetic; the contracts pin the exact character sequences.

use vstd::arithmetic::power2::pow2;
use vstd::prelude::*;
use vstd::string::*;

use crate::numfmt::{dec_char, dec_pad_string, dec_string, digit_str, pow10, pow10_u64, rhe_div,
    spec_dec, spec_dec_pad, spec_rhe};

verus! {

/// Value of little-endian decimal digits.
pub open spec fn digits_val(v: Seq<u8>) -> nat
    decreases v.len(),
{
    if v.len() == 0 {
        0
    } else {
        (v[0] + 10 * digits_val(v.drop_first())) as nat
    }
}

/// All entries are decimal digits.
pub open spec fn digits_ok(v: Seq<u8>) -> bool {
    forall|i: int| 0 <= i < v.len() ==> v[i] < 10
}

/// Digits with no zero in the most significant position.
pub open spec fn digits_canonical(v: Seq<u8>) -> bool {
    digits_ok(v) && (v.len() > 0 ==> v[v.len() - 1] != 0)
}

/// Ten to any power is positive.
pub proof fn lemma_pow10_pos(n: nat)
    ensures
        pow10(n) >= 1,
    decreases n,
{
    if n > 0 {
        lemma_pow10_pos((n - 1) as nat);
    }
}

/// Appending a digit adds it at the next decimal place.
pub proof fn lemma_digits_val_push(v: Seq<u8>, x: u8)
    ensures
        digits_val(v.push(x)) == digits_val(v) + x * pow10(v.len()),
    decreases v.len(),
{
    if v.len() == 0 {
        assert(v.push(x) =~= seq![x]);
        assert(digits_val(seq![x]) == x + 10 * digits_val(seq![x].drop_first()));
        assert(seq![x].drop_first() =~= Seq::<u8>::empty());
        assert(pow10(0) == 1);
        assert(x * 1 == x) by (nonlinear_arith);
    } else {
        assert(v.push(x).drop_first() =~= v.drop_first().push(x));
        lemma_digits_val_push(v.drop_first(), x);
        assert(digits_val(v.push(x)) == v[0] + 10 * (digits_val(v.drop_first()) + x * pow10(
            (v.len() - 1) as nat,
        )));
        assert(10 * (digits_val(v.drop_first()) + x * pow10((v.len() - 1) as nat)) == 10
            * digits_val(v.drop_first()) + x * pow10(v.len())) by (nonlinear_arith)
            requires
                pow10(v.len()) == 10 * pow10((v.len() - 1) as nat),
        ;
    }
}

/// The value of digits is bounded by ten to their count.
pub proof fn lemma_digits_val_bound(v: Seq<u8>)
    requires
        digits_ok(v),
    ensures
        digits_val(v) < pow10(v.len()),
    decreases v.len(),
{
    if v.len() == 0 {
    } else {
        lemma_digits_val_bound(v.drop_first());
        assert(digits_val(v) == v[0] + 10 * digits_val(v.drop_first()));
        assert(v[0] + 10 * digits_val(v.drop_first()) < 10 * pow10((v.len() - 1) as nat))
            by (nonlinear_arith)
            requires
                v[0] < 10,
                digits_val(v.drop_first()) < pow10((v.len() - 1) as nat),
        ;
    }
}

/// Splitting digits at place `d` splits the value at `10^d`.
pub proof fn lemma_digits_split(v: Seq<u8>, d: int)
    requires
        0 <= d <= v.len(),
    ensures
        digits_val(v) == digits_val(v.take(d)) + pow10(d as nat) * digits_val(v.skip(d)),
    decreases d,
{
    if d == 0 {
        assert(v.take(0) =~= Seq::<u8>::empty());
        assert(v.skip(0) =~= v);
        assert(pow10(0) == 1);
        assert(1 * digits_val(v) == digits_val(v)) by (nonlinear_arith);
    } else {
        assert(v.len() >= 1);
        lemma_digits_split(v.drop_first(), d - 1);
        assert(v.take(d).drop_first() =~= v.drop_first().take(d - 1));
        assert(v.skip(d) =~= v.drop_first().skip(d - 1));
        assert(digits_val(v.take(d)) == v[0] + 10 * digits_val(v.drop_first().take(d - 1)));
        let a = digits_val(v.drop_first().take(d - 1));
        let b = digits_val(v.drop_first().skip(d - 1));
        assert(digits_val(v.drop_first()) == a + pow10((d - 1) as nat) * b);
        assert(10 * (a + pow10((d - 1) as nat) * b) == 10 * a + pow10(d as nat) * b)
            by (nonlinear_arith)
            requires
                pow10(d as nat) == 10 * pow10((d - 1) as nat),
        ;
    }
}

/// Canonical digits read back, most significant first, as the plain
/// decimal rendering of their value.
pub proof fn lemma_canonical_dec(w: Seq<u8>)
    requires
        digits_canonical(w),
        w.len() >= 1,
    ensures
        spec_dec(digits_val(w)) == Seq::new(w.len(), |j: int| dec_char(w[w.len() - 1 - j] as nat)),
    decreases w.len(),
{
    if w.len() == 1 {
        assert(w.drop_first() =~= Seq::<u8>::empty());
        assert(digits_val(w.drop_first()) == 0);
        assert(digits_val(w) == w[0]);
        assert(spec_dec(w[0] as nat) =~= Seq::new(1, |j: int| dec_char(w[0] as nat)));
        assert(spec_dec(digits_val(w)) =~= Seq::new(
            w.len(),
            |j: int| dec_char(w[w.len() - 1 - j] as nat),
        ));
    } else {
        let rest = w.drop_first();
        lemma_canonical_dec(rest);
        assert(rest[rest.len() - 1] == w[w.len() - 1]);
        lemma_digits_val_bound(rest.take(rest.len() - 1));
        assert(rest.take(rest.len() - 1).len() == rest.len() - 1);
        lemma_digits_split(rest, rest.len() - 1);
        assert(rest.skip(rest.len() - 1) =~= seq![rest[rest.len() - 1]]);
        assert(digits_val(seq![rest[rest.len() - 1]]) == rest[rest.len() - 1] + 10 * digits_val(
            seq![rest[rest.len() - 1]].drop_first(),
        ));
        assert(seq![rest[rest.len() - 1]].drop_first() =~= Seq::<u8>::empty());
        lemma_pow10_pos((rest.len() - 1) as nat);
        assert(pow10((rest.len() - 1) as nat) * digits_val(rest.skip(rest.len() - 1)) >= pow10(
            (rest.len() - 1) as nat,
        ) * 1) by (nonlinear_arith)
            requires
                digits_val(rest.skip(rest.len() - 1)) >= 1,
                pow10((rest.len() - 1) as nat) >= 1,
        ;
        assert(digits_val(rest) >= 1);
        let n = digits_val(w);
        assert(n == w[0] + 10 * digits_val(rest));
        assert(n >= 10);
        assert(n / 10 == digits_val(rest) && n % 10 == w[0]) by (nonlinear_arith)
            requires
                n == w[0] + 10 * digits_val(rest),
                w[0] < 10,
        ;
        assert(spec_dec(n) == spec_dec(digits_val(rest)).push(dec_char(w[0] as nat)));
        assert(spec_dec(n) =~= Seq::new(w.len(), |j: int| dec_char(w[w.len() - 1 - j] as nat)));
    }
}

/// Zero-padded digits read back as the padded decimal rendering.
pub proof fn lemma_pad_digits(w: Seq<u8>, width: nat)
    requires
        digits_ok(w),
        w.len() <= width,
    ensures
        spec_dec_pad(digits_val(w), width) == Seq::new(
            width as nat,
            |j: int|
                dec_char(
                    if width - 1 - j < w.len() {
                        w[width - 1 - j] as nat
                    } else {
                        0
                    },
                ),
        ),
    decreases width,
{
    if width == 0 {
        assert(spec_dec_pad(digits_val(w), 0) =~= Seq::new(0, |j: int| dec_char(0)));
    } else if w.len() == 0 {
        lemma_pad_digits(w, (width - 1) as nat);
        assert(digits_val(w) == 0);
        assert(spec_dec_pad(0, width) == spec_dec_pad(0, (width - 1) as nat).push(dec_char(0)));
        assert(spec_dec_pad(digits_val(w), width) =~= Seq::new(
            width as nat,
            |j: int|
                dec_char(
                    if width - 1 - j < w.len() {
                        w[width - 1 - j] as nat
                    } else {
                        0
                    },
                ),
        ));
    } else {
        let rest = w.drop_first();
        lemma_pad_digits(rest, (width - 1) as nat);
        let n = digits_val(w);
        assert(n == w[0] + 10 * digits_val(rest));
        assert(n / 10 == digits_val(rest) && n % 10 == w[0]) by (nonlinear_arith)
            requires
                n == w[0] + 10 * digits_val(rest),
                w[0] < 10,
        ;
        assert(spec_dec_pad(n, width) == spec_dec_pad(digits_val(rest), (width - 1) as nat).push(
            dec_char(w[0] as nat),
        ));
        assert(spec_dec_pad(digits_val(w), width) =~= Seq::new(
            width as nat,
            |j: int|
                dec_char(
                    if width - 1 - j < w.len() {
                        w[width - 1 - j] as nat
                    } else {
                        0
                    },
                ),
        ));
    }
}

/// The little-endian decimal digits of a machine word.
fn digits_of_u128(n: u128) -> (r: Vec<u8>)
    ensures
        digits_canonical(r@),
        digits_val(r@) == n,
{
    let mut v: Vec<u8> = Vec::new();
    let mut x = n;
    proof {
        assert(pow10(0) == 1);
        assert(x * 1 == x) by (nonlinear_arith);
    }
    while x > 0
        invariant
            digits_ok(v@),
            x == 0 ==> (v@.len() == 0 || v@[v@.len() - 1] != 0),
            digits_val(v@) + x * pow10(v@.len()) == n,
        decreases x,
    {
        let dgt = (x % 10) as u8;
        proof {
            lemma_digits_val_push(v@, dgt);
            assert(digits_val(v@) + (x % 10) * pow10(v@.len()) + (x / 10) * (10 * pow10(v@.len()))
                == digits_val(v@) + x * pow10(v@.len())) by (nonlinear_arith)
                requires
                    x >= 1,
            ;
        }
        v.push(dgt);
        x = x / 10;
    }
    proof {
        assert(x * pow10(v@.len()) == 0) by (nonlinear_arith)
            requires
                x == 0,
        ;
    }
    v
}

/// Double a canonical digit vector in place.
fn double_digits(v: &mut Vec<u8>)
    requires
        digits_canonical(old(v)@),
    ensures
        digits_canonical(final(v)@),
        digits_val(final(v)@) == 2 * digits_val(old(v)@),
        final(v)@.len() <= old(v)@.len() + 1,
{
    let n = v.len();
    let mut carry: u8 = 0;
    let mut i: usize = 0;
    proof {
        assert(v@.take(0int) =~= Seq::<u8>::empty());
        assert(v@.skip(0int) =~= old(v)@.skip(0int));
        assert(old(v)@.skip(0int) =~= old(v)@);
        assert(pow10(0) == 1);
        let ghost dv0 = digits_val(old(v)@);
        assert(1 * (0 + 2 * dv0) == 2 * dv0) by (nonlinear_arith);
    }
    while i < n
        invariant
            n == v@.len(),
            n == old(v)@.len(),
            i <= n,
            carry <= 1,
            digits_ok(v@),
            v@.skip(i as int) =~= old(v)@.skip(i as int),
            digits_canonical(old(v)@),
            digits_val(v@.take(i as int)) + pow10(i as nat) * (carry + 2 * digits_val(
                old(v)@.skip(i as int),
            )) == 2 * digits_val(old(v)@),
            i == n && carry == 0 && n > 0 ==> v@[n - 1] != 0,
        decreases n - i,
    {
        let di = v[i];
        proof {
            assert(old(v)@.skip(i as int)[0] == old(v)@[i as int]);
            assert(di == old(v)@[i as int]);
        }
        let t = 2 * di + carry;
        let newd = t % 10;
        let newc = t / 10;
        let ghost pre = v@;
        v.set(i, newd);
        proof {
            assert(v@.take(i as int) =~= pre.take(i as int));
            assert(v@.take(i as int + 1) =~= pre.take(i as int).push(newd));
            assert(v@.skip(i as int + 1) =~= pre.skip(i as int + 1));
            assert(pre.skip(i as int + 1) =~= pre.skip(i as int).drop_first());
            assert(old(v)@.skip(i as int + 1) =~= old(v)@.skip(i as int).drop_first());
            assert(v@.skip(i as int + 1) =~= old(v)@.skip(i as int + 1));
            lemma_digits_val_push(pre.take(i as int), newd);
            let restv = digits_val(old(v)@.skip(i as int));
            let restv1 = digits_val(old(v)@.skip(i as int + 1));
            assert(old(v)@.skip(i as int).drop_first() =~= old(v)@.skip(i as int + 1));
            assert(restv == old(v)@[i as int] + 10 * restv1);
            assert(digits_val(pre.take(i as int)) + (newd as nat) * pow10(i as nat) + pow10(
                i as nat + 1,
            ) * ((newc as nat) + 2 * restv1) == digits_val(pre.take(i as int)) + pow10(i as nat) * (
            (carry as nat) + 2 * restv)) by (nonlinear_arith)
                requires
                    newd as nat + 10 * (newc as nat) == 2 * (di as nat) + carry as nat,
                    restv == di + 10 * restv1,
                    pow10(i as nat + 1) == 10 * pow10(i as nat),
            ;
            if i + 1 == n && newc == 0 {
                assert(old(v)@[i as int] >= 1);
                assert(newd >= 2);
            }
        }
        carry = newc;
        i = i + 1;
    }
    proof {
        assert(v@.take(n as int) =~= v@);
        assert(old(v)@.skip(n as int) =~= Seq::<u8>::empty());
        assert(pow10(n as nat) * ((carry as nat) + 0) == (carry as nat) * pow10(n as nat))
            by (nonlinear_arith);
    }
    if carry > 0 {
        let ghost pre = v@;
        v.push(carry);
        proof {
            lemma_digits_val_push(pre, carry);
        }
    }
}

/// Ten to a power never shrinks.
pub proof fn lemma_pow10_mono(a: nat, b: nat)
    requires
        a <= b,
    ensures
        pow10(a) <= pow10(b),
    decreases b,
{
    if a < b {
        lemma_pow10_mono(a, (b - 1) as nat);
        lemma_pow10_pos((b - 1) as nat);
    }
}

/// Powers of two up to eighty, written out for the solver.
proof fn lemma_pow2_to_80()
    ensures
        pow2(64) == 0x10000000000000000,
        pow2(80) == 0x100000000000000000000,
{
    vstd::arithmetic::power2::lemma2_to64();
    vstd::arithmetic::power2::lemma_pow2_adds(64, 16);
}

/// Two to the `k`, as a machine word.
fn pow2_u128(k: usize) -> (r: u128)
    requires
        k <= 80,
    ensures
        r == pow2(k as nat),
{
    proof {
        lemma_pow2_to_80();
        vstd::arithmetic::power2::lemma2_to64();
    }
    let mut p: u128 = 1;
    let mut i: usize = 0;
    while i < k
        invariant
            i <= k <= 80,
            p == pow2(i as nat),
        decreases k - i,
    {
        proof {
            if (i as nat) < 80 {
                vstd::arithmetic::power2::lemma_pow2_strictly_increases(i as nat, 80);
                lemma_pow2_to_80();
            }
            vstd::arithmetic::power2::lemma_pow2_unfold(i as nat + 1);
        }
        p = p * 2;
        i = i + 1;
    }
    p
}

/// Render the value of canonical digits with `d` fixed decimal places:
/// the digits above place `d` as the integer part, the low `d` places
/// zero-padded as the fraction.
fn digits_fixed_strings(v: &Vec<u8>, d: usize) -> (r: (String, String))
    requires
        digits_canonical(v@),
        1 <= d <= 8,
    ensures
        ({
            let n = digits_val(v@);
            r.0@ == spec_dec(n / pow10(d as nat)) && r.1@ == spec_dec_pad(
                n % pow10(d as nat),
                d as nat,
            )
        }),
{
    proof {
        lemma_pow10_pos(d as nat);
    }
    let ghost n = digits_val(v@);
    // Integer part.
    let mut ip = String::new();
    if v.len() <= d {
        ip.append("0");
        proof {
            reveal_strlit("0");
            lemma_digits_val_bound(v@);
            lemma_pow10_mono(v@.len(), d as nat);
            assert(n < pow10(d as nat));
            assert(n / pow10(d as nat) == 0 && n % pow10(d as nat) == n) by (nonlinear_arith)
                requires
                    n < pow10(d as nat),
                    pow10(d as nat) >= 1,
            ;
            assert(ip@ =~= spec_dec(n / pow10(d as nat)));
        }
    } else {
        let mut idx = v.len();
        while idx > d
            invariant
                d < v@.len(),
                d <= idx <= v@.len(),
                digits_canonical(v@),
                ip@ =~= Seq::new(
                    (v@.len() - idx) as nat,
                    |j: int| dec_char(v@[v@.len() - 1 - j] as nat),
                ),
            decreases idx,
        {
            idx = idx - 1;
            let ghost pre = ip@;
            ip.append(digit_str(v[idx] as u64));
            proof {
                assert(ip@ =~= Seq::new(
                    (v@.len() - idx) as nat,
                    |j: int| dec_char(v@[v@.len() - 1 - j] as nat),
                ));
            }
        }
        proof {
            let w = v@.skip(d as int);
            assert(w[w.len() - 1] == v@[v@.len() - 1]);
            lemma_canonical_dec(w);
            lemma_digits_split(v@, d as int);
            lemma_digits_val_bound(v@.take(d as int));
            let lo = digits_val(v@.take(d as int));
            let hi = digits_val(w);
            assert(n / pow10(d as nat) == hi && n % pow10(d as nat) == lo) by (nonlinear_arith)
                requires
                    n == lo + pow10(d as nat) * hi,
                    lo < pow10(d as nat),
                    pow10(d as nat) >= 1,
            ;
            assert(ip@ =~= spec_dec(n / pow10(d as nat)));
        }
    }
    // Fraction part.
    let ghost mlen = if v@.len() < d { v@.len() as int } else { d as int };
    let ghost w2 = v@.take(mlen);
    let mut fp = String::new();
    let mut j: usize = 0;
    while j < d
        invariant
            1 <= d <= 8,
            j <= d,
            digits_canonical(v@),
            mlen == if v@.len() < d {
                v@.len() as int
            } else {
                d as int
            },
            w2 == v@.take(mlen),
            fp@ =~= Seq::new(
                j as nat,
                |t: int|
                    dec_char(
                        if d - 1 - t < w2.len() {
                            w2[d - 1 - t] as nat
                        } else {
                            0
                        },
                    ),
            ),
        decreases d - j,
    {
        let idx = d - 1 - j;
        if idx < v.len() {
            fp.append(digit_str(v[idx] as u64));
        } else {
            fp.append("0");
            proof {
                reveal_strlit("0");
            }
        }
        proof {
            assert(fp@ =~= Seq::new(
                (j + 1) as nat,
                |t: int|
                    dec_char(
                        if d - 1 - t < w2.len() {
                            w2[d - 1 - t] as nat
                        } else {
                            0
                        },
                    ),
            ));
        }
        j = j + 1;
    }
    proof {
        lemma_pad_digits(w2, d as nat);
        if v@.len() < d {
            assert(w2 =~= v@);
            lemma_digits_val_bound(v@);
            lemma_pow10_mono(v@.len(), d as nat);
            assert(n % pow10(d as nat) == n) by (nonlinear_arith)
                requires
                    n < pow10(d as nat),
                    pow10(d as nat) >= 1,
            ;
        } else {
            lemma_digits_split(v@, d as int);
            lemma_digits_val_bound(v@.take(d as int));
            let lo = digits_val(v@.take(d as int));
            let hi = digits_val(v@.skip(d as int));
            assert(n % pow10(d as nat) == lo) by (nonlinear_arith)
                requires
                    n == lo + pow10(d as nat) * hi,
                    lo < pow10(d as nat),
                    pow10(d as nat) >= 1,
            ;
        }
        assert(fp@ =~= spec_dec_pad(n % pow10(d as nat), d as nat));
    }
    (ip, fp)
}

/// The scaled decimal integer behind a fixed-point rendering: the value
/// `m * 2^e`, times ten to the wanted decimals, rounded half to even
/// (exact when the exponent is nonnegative).
pub open spec fn spec_scaled10(m: nat, e: int, d: nat) -> nat {
    if e >= 0 {
        m * pow2(e as nat) * pow10(d)
    } else {
        spec_rhe(m * pow10(d), pow2((-e) as nat))
    }
}

/// The fixed-decimal rendering of `± m * 2^e` with `d` decimal places:
/// an optional sign, the integer digits, a point, and exactly `d`
/// fraction digits, rounded half to even.
pub open spec fn spec_fixed_point(neg: bool, m: nat, e: int, d: nat) -> Seq<char> {
    let n10 = spec_scaled10(m, e, d);
    (if neg {
        seq!['-']
    } else {
        Seq::<char>::empty()
    }) + spec_dec(n10 / pow10(d)) + seq!['.'] + spec_dec_pad(n10 % pow10(d), d)
}

/// Render `± m * 2^e` with `d` fixed decimal places.
pub fn fixed_point_string(neg: bool, m: u64, e: i32, d: usize) -> (r: String)
    requires
        m < 0x20000000000000,
        -1075 <= e <= 1000,
        1 <= d <= 8,
    ensures
        r@ == spec_fixed_point(neg, m as nat, e as int, d as nat),
{
    let p10 = pow10_u64(d) as u128;
    proof {
        lemma_pow2_to_80();
        assert(m as u128 * p10 < 0x20000000000000u128 * 100000000) by (nonlinear_arith)
            requires
                m < 0x20000000000000,
                p10 <= 100000000,
        ;
    }
    let md: u128 = m as u128 * p10;
    let ghost n10 = spec_scaled10(m as nat, e as int, d as nat);
    let (ip, fp) = if e < 0 {
        let k = if e == i32::MIN {
            0
        } else {
            (-e) as usize
        };
        if k >= 81 {
            proof {
                vstd::arithmetic::power2::lemma_pow2_unfold(81);
                if k > 81 {
                    vstd::arithmetic::power2::lemma_pow2_strictly_increases(81, k as nat);
                }
                assert(md < 0x100000000000000000000);
                assert(2 * (md as nat) < pow2(k as nat));
                let num = (m as nat) * pow10(d as nat);
                assert(num == md);
                assert(spec_rhe(num, pow2(k as nat)) == 0) by (nonlinear_arith)
                    requires
                        2 * num < pow2(k as nat),
                        pow2(k as nat) >= 1,
                ;
                assert(n10 == 0);
            }
            let ip = dec_string(0);
            let fp = dec_pad_string(0, d);
            proof {
                lemma_pow10_pos(d as nat);
                assert(0nat / pow10(d as nat) == 0 && 0nat % pow10(d as nat) == 0)
                    by (nonlinear_arith)
                    requires
                        pow10(d as nat) >= 1,
                ;
            }
            (ip, fp)
        } else {
            let den = pow2_u128(k);
            proof {
                vstd::arithmetic::power2::lemma_pow2_pos(k as nat);
            }
            let scaled = rhe_div(md, den);
            proof {
                assert(scaled == n10);
                lemma_pow10_pos(d as nat);
            }
            let ip = dec_string(scaled / p10);
            let fp = dec_pad_string(scaled % p10, d);
            (ip, fp)
        }
    } else if e <= 47 {
        let p2 = pow2_u128(e as usize);
        proof {
            vstd::arithmetic::power2::lemma2_to64();
            vstd::arithmetic::power2::lemma2_to64_rest();
            if (e as nat) < 47 {
                vstd::arithmetic::power2::lemma_pow2_strictly_increases(e as nat, 47);
            }
            assert(p2 <= 0x800000000000);
            assert(md < 0x100000000000000000000);
            assert(md * p2 < 0x80000000000000000000000000000000) by (nonlinear_arith)
                requires
                    md < 0x100000000000000000000,
                    p2 <= 0x800000000000,
            ;
            assert((m as nat * pow10(d as nat)) * pow2(e as nat) == m as nat * pow2(e as nat)
                * pow10(d as nat)) by (nonlinear_arith);
        }
        let scaled = md * p2;
        proof {
            assert(scaled == n10);
            lemma_pow10_pos(d as nat);
        }
        let ip = dec_string(scaled / p10);
        let fp = dec_pad_string(scaled % p10, d);
        (ip, fp)
    } else {
        let mut v = digits_of_u128(md);
        let mut i: i32 = 0;
        proof {
            vstd::arithmetic::power2::lemma2_to64();
            assert(md * pow2(0) == md) by (nonlinear_arith)
                requires
                    pow2(0) == 1,
            ;
        }
        while i < e
            invariant
                0 <= i <= e <= 1000,
                digits_canonical(v@),
                digits_val(v@) == md * pow2(i as nat),
            decreases e - i,
        {
            double_digits(&mut v);
            proof {
                vstd::arithmetic::power2::lemma_pow2_unfold(i as nat + 1);
                assert(2 * (md * pow2(i as nat)) == md * pow2(i as nat + 1)) by (nonlinear_arith)
                    requires
                        pow2(i as nat + 1) == 2 * pow2(i as nat),
                ;
            }
            i = i + 1;
        }
        proof {
            assert((m as nat * pow10(d as nat)) * pow2(e as nat) == m as nat * pow2(e as nat)
                * pow10(d as nat)) by (nonlinear_arith);
            assert(digits_val(v@) == n10);
        }
        digits_fixed_strings(&v, d)
    };
    let mut s = if neg {
        "-".to_owned()
    } else {
        String::new()
    };
    s.append(ip.as_str());
    s.append(".");
    s.append(fp.as_str());
    proof {
        reveal_strlit("-");
        reveal_strlit(".");
        assert("-"@ =~= seq!['-']);
        assert("."@ =~= seq!['.']);
        assert(s@ =~= spec_fixed_point(neg, m as nat, e as int, d as nat));
    }
    s
}

/// The fixed-decimal rendering of a double-precision bit pattern, as
/// `{:.d$}` formatting prints it: sign, exact digits with ties to even;
/// `inf` and `NaN` for the non-finite encodings.
pub open spec fn spec_fmt_f64(bits: u64, d: nat) -> Seq<char> {
    let neg = bits / 0x8000000000000000 == 1;
    let expf = (bits / 0x10000000000000) % 0x800;
    let frac = bits % 0x10000000000000;
    if expf == 0x7FF {
        if frac == 0 {
            if neg {
                "-inf"@
            } else {
                "inf"@
            }
        } else {
            "NaN"@
        }
    } else if expf == 0 {
        spec_fixed_point(neg, frac as nat, -1074, d)
    } else {
        spec_fixed_point(neg, (frac + 0x10000000000000) as nat, expf - 1075, d)
    }
}

/// Render a double-precision bit pattern with `d` decimal places.
pub fn fmt_f64_bits(bits: u64, d: usize) -> (r: String)
    requires
        1 <= d <= 8,
    ensures
        r@ == spec_fmt_f64(bits, d as nat),
{
    let neg = bits / 0x8000000000000000 == 1;
    let expf = (bits / 0x10000000000000) % 0x800;
    let frac = bits % 0x10000000000000;
    if expf == 0x7FF {
        if frac == 0 {
            if neg {
                "-inf".to_owned()
            } else {
                "inf".to_owned()
            }
        } else {
            "NaN".to_owned()
        }
    } else if expf == 0 {
        fixed_point_string(neg, frac, -1074, d)
    } else {
        fixed_point_string(neg, frac + 0x10000000000000, (expf as i32) - 1075, d)
    }
}

/// The fixed-decimal rendering of a single-precision bit pattern.
pub open spec fn spec_fmt_f32(bits: u32, d: nat) -> Seq<char> {
    let neg = bits / 0x80000000 == 1;
    let expf = (bits / 0x800000) % 0x100;
    let frac = bits % 0x800000;
    if expf == 0xFF {
        if frac == 0 {
            if neg {
                "-inf"@
            } else {
                "inf"@
            }
        } else {
            "NaN"@
        }
    } else if expf == 0 {
        spec_fixed_point(neg, frac as nat, -149, d)
    } else {
        spec_fixed_point(neg, (frac + 0x800000) as nat, expf - 150, d)
    }
}

/// Render a single-precision bit pattern with `d` decimal places.
pub fn fmt_f32_bits(bits: u32, d: usize) -> (r: String)
    requires
        1 <= d <= 8,
    ensures
        r@ == spec_fmt_f32(bits, d as nat),
{
    let neg = bits / 0x80000000 == 1;
    let expf = (bits / 0x800000) % 0x100;
    let frac = bits % 0x800000;
    if expf == 0xFF {
        if frac == 0 {
            if neg {
                "-inf".to_owned()
            } else {
                "inf".to_owned()
            }
        } else {
            "NaN".to_owned()
        }
    } else if expf == 0 {
        fixed_point_string(neg, frac as u64, -149, d)
    } else {
        fixed_point_string(neg, (frac + 0x800000) as u64, (expf as i32) - 150, d)
    }
}

} // verus!
