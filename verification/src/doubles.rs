//! The service's readings are binary floating-point numbers (IEEE doubles),
//! and the widget writes some of them with `{:.0}` and `{:.1}`. The library
//! carries a reading as a whole number of thousandths; this module states
//! which double stands for such a reading (the double nearest it, halves to
//! the even significand), what a product of two doubles rounds to, and how
//! the formatter writes a double: its exact binary value rounded to the
//! decimals asked for, halves to even.

use vstd::prelude::*;
use vstd::arithmetic::power2::{
    pow2,
    lemma_pow2_adds,
    lemma_pow2_pos,
    lemma_pow2_strictly_increases,
    lemma2_to64,
    lemma2_to64_rest,
};
use vstd::arithmetic::div_mod::{lemma_fundamental_div_mod, lemma_fundamental_div_mod_converse};
use crate::numbers::{abs, law_half_even_nearest, round_half_even, saturate_i32, whole_spec};
use crate::text::{digit, digit_char, nat_digits, push_digits, string_from_chars};

verus! {

/// `a` multiplied by `2^s` when `s` is not negative, else `a` itself.
pub open spec fn scaled_num(a: nat, s: int) -> nat {
    if s >= 0 {
        a * pow2(s as nat)
    } else {
        a
    }
}

/// `b` multiplied by `2^-s` when `s` is negative, else `b` itself; so that
/// `scaled_num(a, s) / scaled_den(b, s)` is `2^s * a / b`.
pub open spec fn scaled_den(b: nat, s: int) -> nat {
    if s >= 0 {
        b
    } else {
        b * pow2((-s) as nat)
    }
}

/// `2^s * a / b` lies in `[2^52, 2^53)`: `s` is the scale at which `a / b`
/// has a 53-bit significand, as a double holds it.
pub open spec fn in_binade(a: nat, b: nat, s: int) -> bool {
    pow2(52) * scaled_den(b, s) <= scaled_num(a, s) < pow2(53) * scaled_den(b, s)
}

/// The scale of the double nearest `a / b` (for `a, b > 0`).
pub open spec fn double_scale(a: nat, b: nat) -> int {
    choose|s: int| in_binade(a, b, s)
}

/// The significand of the double nearest `a / b`: `2^s * a / b` rounded to
/// a whole number, halves to even. The double is `double_sig / 2^s`.
pub open spec fn double_sig(a: nat, b: nat) -> nat {
    let s = double_scale(a, b);
    round_half_even(scaled_num(a, s), scaled_den(b, s))
}

/// `sig / 2^s` in whole units of `1 / tens`, rounded halves to even: what
/// `{:.0}` (`tens == 1`) or `{:.1}` (`tens == 10`) writes of a double.
pub open spec fn decimal_round(sig: nat, s: int, tens: nat) -> nat {
    round_half_even(scaled_num(sig * tens, -s), scaled_den(1, -s))
}

/// The magnitude `{:.0}` or `{:.1}` writes for the double nearest
/// `numer / denom`, in units or tenths.
pub open spec fn rounded_count(numer: int, denom: nat, tens: nat) -> nat {
    if numer == 0 {
        0
    } else {
        let a = abs(numer);
        decimal_round(double_sig(a, denom), double_scale(a, denom), tens)
    }
}

/// A magnitude in units (no decimals) or tenths (one decimal), written with a
/// minus sign when the value is negative, as the formatter writes it.
pub open spec fn count_text(negative: bool, q: nat, one_decimal: bool) -> Seq<char> {
    let sign = if negative {
        seq!['-']
    } else {
        Seq::<char>::empty()
    };
    if one_decimal {
        sign + nat_digits(q / 10) + seq!['.', digit_char(q % 10)]
    } else {
        sign + nat_digits(q)
    }
}

/// How `{:.1}` (`one_decimal`) or `{:.0}` writes the double nearest
/// `numer / denom`.
pub open spec fn float_text(numer: int, denom: nat, one_decimal: bool) -> Seq<char> {
    count_text(numer < 0, rounded_count(numer, denom, if one_decimal { 10 } else { 1 }), one_decimal)
}

/// The whole km/h that `{:.0}` writes for a wind of `w` thousandths of a
/// metre per second: the double of `w / 1000` times the double of 3.6,
/// rounded to a double, then to a whole number.
pub open spec fn kmh_count(w: int) -> nat {
    if w == 0 {
        0
    } else {
        let a = abs(w);
        let t = double_scale(a, 1000) + double_scale(36, 10);
        let p = double_sig(a, 1000) * double_sig(36, 10);
        decimal_round(double_sig(p, pow2(t as nat)), double_scale(p, pow2(t as nat)), 1)
    }
}

/// `sig / 2^s` rounded to a whole number, halves up (away from zero for this
/// positive value), as `f64::round` rounds.
pub open spec fn round_half_up_count(sig: nat, s: int) -> nat {
    (2 * scaled_num(sig, -s) + scaled_den(1, -s)) / (2 * scaled_den(1, -s))
}

/// What `.round() as i32` gives for the double nearest `v / 1000`: the
/// double rounded halves away from zero, saturated to `i32`.
pub open spec fn double_whole(v: int) -> int {
    if v == 0 {
        0
    } else {
        let a = abs(v);
        let r = round_half_up_count(double_sig(a, 1000), double_scale(a, 1000)) as int;
        saturate_i32(if v < 0 { -r } else { r })
    }
}

proof fn lemma_pow2_facts()
    ensures
        pow2(0) == 1,
        pow2(1) == 2,
        pow2(52) == 0x10_0000_0000_0000,
        pow2(53) == 0x20_0000_0000_0000,
        pow2(64) == 0x1_0000_0000_0000_0000,
{
    lemma2_to64();
    lemma2_to64_rest();
}

/// A power of two below `2^k` has an exponent below `k`.
proof fn lemma_exp_below(e: nat, k: nat)
    requires
        pow2(e) < pow2(k),
    ensures
        e < k,
{
    if e > k {
        lemma_pow2_strictly_increases(k, e);
    }
}

/// A power of two with a positive exponent is at least two.
proof fn lemma_pow2_at_least_two(d: nat)
    requires
        d >= 1,
    ensures
        pow2(d) >= 2,
{
    lemma_pow2_adds(1, (d - 1) as nat);
    lemma_pow2_pos((d - 1) as nat);
    lemma2_to64();
}

/// Of two scales that bring `a / b` into `[2^52, 2^53)`, the first is not
/// below the second.
proof fn lemma_binade_order(a: nat, b: nat, s1: int, s2: int)
    requires
        b > 0,
        in_binade(a, b, s1),
        in_binade(a, b, s2),
    ensures
        s1 >= s2,
{
    if s1 < s2 {
        lemma_binade_order_below(a, b, s1, s2);
    }
}

proof fn lemma_binade_order_below(a: nat, b: nat, s1: int, s2: int)
    requires
        b > 0,
        s1 < s2,
        in_binade(a, b, s1),
        in_binade(a, b, s2),
    ensures
        s2 <= s1,
{
    lemma_pow2_facts();
    let p52 = pow2(52);
    let p53 = pow2(53);
    let d = (s2 - s1) as nat;
    lemma_pow2_at_least_two(d);
    if s1 >= 0 {
        let u1 = s1 as nat;
        let u2 = s2 as nat;
        assert(u2 == u1 + d);
        lemma_pow2_adds(u1, d);
        let x = a * pow2(u1);
        assert(a * pow2(u2) == x * pow2(d)) by (nonlinear_arith)
            requires
                pow2(u2) == pow2(u1) * pow2(d),
                x == a * pow2(u1),
        ;
        assert(x * pow2(d) >= x * 2) by (nonlinear_arith)
            requires
                pow2(d) >= 2,
        ;
    } else if s2 <= 0 {
        let v1 = (-s1) as nat;
        let v2 = (-s2) as nat;
        assert(v1 == v2 + d);
        lemma_pow2_adds(v2, d);
        let y = b * pow2(v2);
        assert(b * pow2(v1) == y * pow2(d)) by (nonlinear_arith)
            requires
                pow2(v1) == pow2(v2) * pow2(d),
                y == b * pow2(v2),
        ;
        if s2 == 0 {
            assert(v2 == 0);
            assert(y == b);
            assert(scaled_num(a, s2) == a * 1);
        }
        assert(scaled_den(b, s2) == y && scaled_num(a, s2) == a);
        assert(p52 * (y * pow2(d)) >= p52 * (y * 2)) by (nonlinear_arith)
            requires
                pow2(d) >= 2,
                p52 > 0,
                y >= 0,
        ;
    } else {
        let v1 = (-s1) as nat;
        let u2 = s2 as nat;
        lemma_pow2_at_least_two(v1);
        lemma_pow2_at_least_two(u2);
        assert(p52 * (b * pow2(v1)) >= p52 * (b * 2)) by (nonlinear_arith)
            requires
                pow2(v1) >= 2,
                p52 > 0,
        ;
        assert(a * pow2(u2) >= a * 2) by (nonlinear_arith)
            requires
                pow2(u2) >= 2,
        ;
    }
}

/// The scale that brings `a / b` into `[2^52, 2^53)` is unique.
proof fn lemma_binade_unique(a: nat, b: nat, s1: int, s2: int)
    requires
        b > 0,
        in_binade(a, b, s1),
        in_binade(a, b, s2),
    ensures
        s1 == s2,
{
    lemma_binade_order(a, b, s1, s2);
    lemma_binade_order(a, b, s2, s1);
}

/// When `s` brings `a / b` into `[2^52, 2^53)`, the nearest double is the
/// one at scale `s`.
proof fn lemma_double_is(a: nat, b: nat, s: int)
    requires
        b > 0,
        in_binade(a, b, s),
    ensures
        double_scale(a, b) == s,
        double_sig(a, b) == round_half_even(scaled_num(a, s), scaled_den(b, s)),
{
    assert(exists|c: int| in_binade(a, b, c));
    let c = double_scale(a, b);
    lemma_binade_unique(a, b, c, s);
}

/// Scaling both terms of a quotient leaves its rounding unchanged.
proof fn lemma_rne_scale(x: nat, y: nat, c: nat)
    requires
        y > 0,
        c > 0,
    ensures
        round_half_even(x * c, y * c) == round_half_even(x, y),
{
    let q = x / y;
    let r = x % y;
    lemma_fundamental_div_mod(x as int, y as int);
    assert(x * c == q * (y * c) + r * c && 0 <= r * c < y * c) by (nonlinear_arith)
        requires
            x == y * q + r,
            0 <= r < y,
            c > 0,
    ;
    lemma_fundamental_div_mod_converse((x * c) as int, (y * c) as int, q as int, (r * c) as int);
    assert((2 * r < y) == (2 * (r * c) < y * c) && (2 * r > y) == (2 * (r * c) > y * c)) by (nonlinear_arith)
        requires
            c > 0,
    ;
}

/// The double of `p / 2^t` when `p` has scale `s0 <= 0` on its own: the
/// scale moves by `t` and the significand stays.
proof fn lemma_binade_shift(p: nat, s0: int, t: int)
    requires
        s0 <= 0,
        t >= 0,
        in_binade(p, 1, s0),
    ensures
        in_binade(p, pow2(t as nat), t + s0),
        round_half_even(scaled_num(p, t + s0), scaled_den(pow2(t as nat), t + s0)) == round_half_even(
            scaled_num(p, s0),
            scaled_den(1, s0),
        ),
{
    lemma_pow2_facts();
    let k = (-s0) as nat;
    let p52 = pow2(52);
    let p53 = pow2(53);
    if s0 == 0 {
        assert(k == 0);
        assert(scaled_num(p, s0) == p * 1);
    }
    assert(scaled_num(p, s0) == p && scaled_den(1, s0) == pow2(k));
    assert(p52 * pow2(k) <= p < p53 * pow2(k));
    if t + s0 >= 0 {
        let c = (t - k) as nat;
        lemma_pow2_adds(k, c);
        assert(pow2(t as nat) == pow2(k) * pow2(c));
        lemma_pow2_pos(c);
        assert(p52 * (pow2(k) * pow2(c)) <= p * pow2(c) < p53 * (pow2(k) * pow2(c))) by (nonlinear_arith)
            requires
                p52 * pow2(k) <= p < p53 * pow2(k),
                pow2(c) > 0,
        ;
        lemma_pow2_pos(k);
        lemma_rne_scale(p, pow2(k), pow2(c));
    } else {
        let v = (k - t) as nat;
        lemma_pow2_adds(t as nat, v);
        assert(scaled_den(pow2(t as nat), t + s0) == pow2(k));
    }
}

/// `n / d` rounded to a whole number, halves to even.
fn round_even(n: u128, d: u128) -> (q: u128)
    requires
        0 < d <= 0x8000_0000_0000_0000_0000_0000_0000_0000,
        n < 0x8000_0000_0000_0000_0000_0000_0000_0000,
    ensures
        q == round_half_even(n as nat, d as nat),
        q <= n / d + 1,
{
    let q0 = n / d;
    let r = n % d;
    if 2 * r < d {
        q0
    } else if 2 * r > d {
        q0 + 1
    } else if q0 % 2 == 0 {
        q0
    } else {
        q0 + 1
    }
}

/// `2^e`.
fn pow2_of(e: u32) -> (p: u128)
    requires
        e < 128,
    ensures
        p == pow2(e as nat),
{
    proof {
        lemma_pow2_facts();
        lemma_pow2_adds(64, 63);
        lemma2_to64_rest();
    }
    let mut p: u128 = 1;
    let mut i: u32 = 0;
    while i < e
        invariant
            i <= e,
            e < 128,
            p == pow2(i as nat),
            pow2(127) == 0x8000_0000_0000_0000_0000_0000_0000_0000,
        decreases e - i,
    {
        proof {
            lemma_pow2_adds(i as nat, 1);
            lemma2_to64();
            if i + 1 < 127 {
                lemma_pow2_strictly_increases((i + 1) as nat, 127);
            }
        }
        p = p * 2;
        i = i + 1;
    }
    p
}

/// The double nearest `a / b`: its significand and its scale.
fn nearest_double(a: u128, b: u128) -> (r: (u128, i64))
    requires
        0 < a < 0x4000_0000_0000_0000_0000_0000_0000,
        0 < b < 0x1_0000_0000_0000_0000,
    ensures
        in_binade(a as nat, b as nat, r.1 as int),
        r.0 == round_half_even(scaled_num(a as nat, r.1 as int), scaled_den(b as nat, r.1 as int)),
        pow2(52) <= r.0 <= pow2(53),
        -58 < r.1 < 117,
        a < pow2(52) * b ==> r.1 >= 1,
        a >= pow2(52) * b ==> r.1 <= 0,
{
    proof {
        lemma_pow2_facts();
        lemma_pow2_adds(53, 64);
        lemma_pow2_adds(52, 6);
        lemma2_to64();
    }
    let p52: u128 = 0x10_0000_0000_0000;
    let p53: u128 = 0x20_0000_0000_0000;
    let mut x: u128 = a;
    let mut y: u128 = b;
    let mut s: i64 = 0;
    if a < p52 * b {
        while x < p52 * y
            invariant
                y == b,
                0 < b < 0x1_0000_0000_0000_0000,
                a > 0,
                0 <= s < 117,
                x > 0,
                x == a * pow2(s as nat),
                x < p53 * b,
                pow2(s as nat) <= x,
                p52 == pow2(52),
                p53 == pow2(53),
                pow2(117) == pow2(53) * pow2(64),
                p52 == 0x10_0000_0000_0000,
                p53 == 0x20_0000_0000_0000,
                pow2(1) == 2,
                pow2(64) == 0x1_0000_0000_0000_0000,
            decreases p53 * b - x,
        {
            proof {
                lemma_pow2_adds(s as nat, 1);
                assert(2 * x == a * pow2((s + 1) as nat)) by (nonlinear_arith)
                    requires
                        x == a * pow2(s as nat),
                        pow2((s + 1) as nat) == pow2(s as nat) * 2,
                ;
                assert(p53 * b < pow2(117)) by (nonlinear_arith)
                    requires
                        p53 == pow2(53),
                        b < pow2(64),
                        pow2(117) == pow2(53) * pow2(64),
                        p53 > 0,
                ;
                lemma_exp_below((s + 1) as nat, 117);
            }
            x = x * 2;
            s = s + 1;
        }
    } else {
        assert(b * pow2(0) == b);
        assert(pow2(0) <= b);
        while x >= p53 * y
            invariant
                x == a,
                a < 0x4000_0000_0000_0000_0000_0000_0000,
                -58 < s <= 0,
                y > 0,
                y == b * pow2((-s) as nat),
                pow2((-s) as nat) <= y,
                p52 * y <= a,
                p52 == pow2(52),
                p53 == pow2(53),
                pow2(58) == 0x400_0000_0000_0000,
                p52 == 0x10_0000_0000_0000,
                p53 == 0x20_0000_0000_0000,
                pow2(0) == 1,
                pow2(1) == 2,
            decreases a - y,
        {
            proof {
                lemma_pow2_adds((-s) as nat, 1);
                assert(2 * y == b * pow2((-s + 1) as nat)) by (nonlinear_arith)
                    requires
                        y == b * pow2((-s) as nat),
                        pow2((-s + 1) as nat) == pow2((-s) as nat) * 2,
                ;
            }
            y = y * 2;
            s = s - 1;
            proof {
                lemma_exp_below((-s) as nat, 58);
            }
        }
        proof {
            assert(pow2((-s) as nat) < pow2(58));
            lemma_exp_below((-s) as nat, 58);
        }
    }
    proof {
        if s == 0 {
            assert(x == a * pow2(0) && y == b);
        }
        assert(p52 * y <= x < p53 * y);
    }
    let sig = round_even(x, y);
    proof {
        let q0 = x / y;
        lemma_fundamental_div_mod(x as int, y as int);
        assert(p52 <= q0 < p53) by (nonlinear_arith)
            requires
                x == y * q0 + x % y,
                0 <= x % y < y,
                p52 * y <= x < p53 * y,
        ;
    }
    (sig, s)
}

/// `sig / 2^s` in whole units of `1 / tens`, rounded halves to even.
fn decimal_round_of(sig: u128, s: i64, tens: u128) -> (q: u128)
    requires
        sig <= 0x20_0000_0000_0000,
        tens == 1 || tens == 10,
        -64 < s < 128,
    ensures
        q == decimal_round(sig as nat, s as int, tens as nat),
{
    let n = sig * tens;
    if s > 0 {
        let p = pow2_of(s as u32);
        proof {
            lemma_pow2_pos(s as nat);
            lemma2_to64();
            lemma_pow2_adds(64, 63);
            lemma2_to64_rest();
            if s < 127 {
                lemma_pow2_strictly_increases(s as nat, 127);
            }
        }
        round_even(n, p)
    } else {
        let p = pow2_of((-s) as u32);
        proof {
            lemma_pow2_facts();
            lemma_pow2_adds(64, 0);
            if -s < 64 {
                lemma_pow2_strictly_increases((-s) as nat, 64);
            }
            assert(n * p <= 0x20_0000_0000_0000 * 10 * 0x1_0000_0000_0000_0000) by (nonlinear_arith)
                requires
                    n <= 0x20_0000_0000_0000 * 10,
                    p <= 0x1_0000_0000_0000_0000,
            ;
            assert(scaled_num((sig * tens) as nat, -s as int) == n * p);
            assert(scaled_den(1, -s as int) == 1);
            assert((n * p) / 1 == n * p && (n * p) % 1 == 0);
        }
        n * p
    }
}

/// The magnitude `{:.0}` (`tens == 1`) or `{:.1}` (`tens == 10`) writes for
/// the double nearest `v / 1000`.
fn thousandths_count(v: i64, tens: u128) -> (q: u128)
    requires
        tens == 1 || tens == 10,
    ensures
        q == rounded_count(v as int, 1000, tens as nat),
{
    if v == 0 {
        return 0;
    }
    let a: u128 = if v == i64::MIN {
        0x8000_0000_0000_0000
    } else if v < 0 {
        (-v) as u128
    } else {
        v as u128
    };
    let (sig, s) = nearest_double(a, 1000);
    proof {
        lemma_double_is(a as nat, 1000, s as int);
        lemma_pow2_facts();
    }
    decimal_round_of(sig, s, tens)
}

/// Writes a magnitude in units or tenths, with a minus sign when negative.
fn write_count(negative: bool, q: u128, one_decimal: bool) -> (r: String)
    ensures
        r@ == count_text(negative, q as nat, one_decimal),
{
    let mut v: Vec<char> = Vec::new();
    if negative {
        v.push('-');
    }
    if one_decimal {
        push_digits(q / 10, &mut v);
        v.push('.');
        let d = digit(q % 10);
        v.push(d);
    } else {
        push_digits(q, &mut v);
    }
    assert(v@ =~= count_text(negative, q as nat, one_decimal));
    string_from_chars(v.as_slice())
}

/// Writes a reading given in thousandths as `{:.0}` or `{:.1}` writes the
/// double nearest it.
pub fn thousandths_text(v: i64, one_decimal: bool) -> (r: String)
    ensures
        r@ == float_text(v as int, 1000, one_decimal),
{
    let q = thousandths_count(v, if one_decimal { 10 } else { 1 });
    write_count(v < 0, q, one_decimal)
}

/// Writes a wind of `w` thousandths of a metre per second in whole km/h,
/// as `{:.0}` writes the product of its double and the double of 3.6.
pub fn kmh_text(w: i64) -> (r: String)
    ensures
        r@ == count_text(w < 0, kmh_count(w as int), false),
{
    let q = kmh(w);
    write_count(w < 0, q, false)
}

/// The whole km/h that `{:.0}` writes for a wind of `w` thousandths of a
/// metre per second, multiplied by 3.6 in doubles.
fn kmh(w: i64) -> (q: u128)
    ensures
        q == kmh_count(w as int),
{
    if w == 0 {
        return 0;
    }
    let a: u128 = if w == i64::MIN {
        0x8000_0000_0000_0000
    } else if w < 0 {
        (-w) as u128
    } else {
        w as u128
    };
    proof {
        lemma_pow2_facts();
    }
    let (sw, ew) = nearest_double(a, 1000);
    let (s36, e36) = nearest_double(36, 10);
    proof {
        lemma_double_is(a as nat, 1000, ew as int);
        lemma_double_is(36, 10, e36 as int);
        // the scale of w / 1000 is at least -1 and at most 62
        if ew < -1 {
            lemma_pow2_at_least_two(((-ew) - 1) as nat);
            lemma_pow2_adds(1, ((-ew) - 1) as nat);
            assert(pow2(52) * (1000 * pow2((-ew) as nat)) <= a);
            assert(pow2(52) * (1000 * pow2((-ew) as nat)) >= pow2(52) * (1000 * 4)) by (nonlinear_arith)
                requires
                    pow2((-ew) as nat) >= 4,
                    pow2(52) > 0,
            ;
        }
        if ew >= 63 {
            lemma_pow2_adds(63, (ew - 63) as nat);
            lemma_pow2_pos((ew - 63) as nat);
            lemma2_to64_rest();
            assert(a * pow2(ew as nat) >= pow2(ew as nat)) by (nonlinear_arith)
                requires
                    a >= 1,
            ;
            assert(pow2(ew as nat) >= pow2(63)) by (nonlinear_arith)
                requires
                    pow2(ew as nat) == pow2(63) * pow2((ew - 63) as nat),
                    pow2((ew - 63) as nat) >= 1,
            ;
        }
        // the scale of 3.6 is at least 1 and below 57
        if e36 >= 57 {
            lemma_pow2_adds(57, (e36 - 57) as nat);
            lemma_pow2_pos((e36 - 57) as nat);
            lemma2_to64_rest();
            assert(36 * pow2(e36 as nat) >= pow2(57)) by (nonlinear_arith)
                requires
                    pow2(e36 as nat) == pow2(57) * pow2((e36 - 57) as nat),
                    pow2((e36 - 57) as nat) >= 1,
            ;
        }
    }
    proof {
        assert(sw * s36 <= 0x20_0000_0000_0000 * 0x20_0000_0000_0000) by (nonlinear_arith)
            requires
                sw <= 0x20_0000_0000_0000,
                s36 <= 0x20_0000_0000_0000,
        ;
    }
    let p = sw * s36;
    proof {
        assert(pow2(52) * pow2(52) <= p <= pow2(53) * pow2(53)) by (nonlinear_arith)
            requires
                pow2(52) <= sw <= pow2(53),
                pow2(52) <= s36 <= pow2(53),
                p == sw * s36,
        ;
    }
    let (sp, e0) = nearest_double(p, 1);
    proof {
        // the product's own scale lies between -54 and 0
        if e0 <= -55 {
            lemma_pow2_adds(55, ((-e0) - 55) as nat);
            lemma_pow2_pos(((-e0) - 55) as nat);
            lemma_pow2_adds(52, 55);
            lemma_pow2_adds(53, 53);
            lemma_pow2_adds(52, 3);
            lemma2_to64();
            assert(pow2(52) * (1 * pow2((-e0) as nat)) >= pow2(52) * pow2(55)) by (nonlinear_arith)
                requires
                    pow2((-e0) as nat) == pow2(55) * pow2(((-e0) - 55) as nat),
                    pow2(((-e0) - 55) as nat) >= 1,
                    pow2(52) > 0,
            ;
        }
        let t = ew + e36;
        lemma_binade_shift(p as nat, e0 as int, t as int);
        lemma_double_is(p as nat, pow2(t as nat), t + e0);
    }
    decimal_round_of(sp, ew + e36 + e0, 1)
}

/// Below `2^42` thousandths the double nearest `a / 1000` rounds to the same
/// whole number as `a / 1000` itself; at or above it, both round beyond the
/// range of `i32`.
proof fn lemma_double_whole(a: nat, s: int, sig: nat)
    requires
        0 < a,
        in_binade(a, 1000, s),
        sig == round_half_even(scaled_num(a, s), scaled_den(1000, s)),
    ensures
        a < 0x400_0000_0000 ==> round_half_up_count(sig, s) == (a + 500) / 1000,
        a >= 0x400_0000_0000 ==> round_half_up_count(sig, s) > 0x8000_0001 && (a + 500) / 1000 > 0x8000_0001,
{
    lemma_pow2_facts();
    if s <= 0 {
        let v = (-s) as nat;
        lemma_pow2_pos(v);
        assert(scaled_den(1000, s) == 1000 * pow2(v)) by {
            if s == 0 {
                assert(pow2(v) == 1);
            }
        }
        assert(scaled_num(a, s) == a) by {
            if s == 0 {
                assert(a * pow2(0) == a * 1);
            }
        }
        assert(pow2(52) * (1000 * pow2(v)) >= pow2(52) * 1000) by (nonlinear_arith)
            requires
                pow2(v) >= 1,
                pow2(52) > 0,
        ;
        assert(a >= 0x400_0000_0000);
        // the double is at least 2^52, far beyond i32
        assert(scaled_num(sig, -s) == sig * pow2(v) && scaled_den(1, -s) == 1) by {
            if s == 0 {
                assert(sig * pow2(0) == sig * 1);
            }
        }
        law_half_even_nearest(a, 1000 * pow2(v));
        assert(sig >= 0x10_0000_0000_0000) by (nonlinear_arith)
            requires
                -(1000 * pow2(v)) <= 2 * (sig * (1000 * pow2(v)) - a),
                0x10_0000_0000_0000 * (1000 * pow2(v)) <= a,
                pow2(v) >= 1,
        ;
        assert(sig * pow2(v) >= sig) by (nonlinear_arith)
            requires
                pow2(v) >= 1,
        ;
        assert((2 * (sig * pow2(v)) + 1) / 2 == sig * pow2(v));
    } else {
        let u = s as nat;
        let d = pow2(u);
        lemma_pow2_pos(u);
        lemma_pow2_adds(1, (u - 1) as nat);
        let h = pow2((u - 1) as nat);
        assert(d == 2 * h);
        assert(scaled_num(sig, -s) == sig && scaled_den(1, -s) == d);
        assert(scaled_num(a, s) == a * d && scaled_den(1000, s) == 1000);
        law_half_even_nearest(a * d, 1000);
        let ad = a * d;
        assert(-500 <= 1000 * sig - ad <= 500);
        let k = (a + 500) / 1000;
        let r = (a + 500) % 1000;
        lemma_fundamental_div_mod((a + 500) as int, 1000);
        assert(a + 500 == 1000 * k + r);
        if a < 0x400_0000_0000 {
            assert(d > 512) by (nonlinear_arith)
                requires
                    0x10_0000_0000_0000 * 1000 <= a * d,
                    a < 0x400_0000_0000,
            ;
            let kd = k * d;
            let rd = r * d;
            assert(ad == 1000 * kd + rd - 500 * d) by (nonlinear_arith)
                requires
                    a + 500 == 1000 * k + r,
                    ad == a * d,
                    kd == k * d,
                    rd == r * d,
            ;
            assert(0 <= rd <= 999 * d) by (nonlinear_arith)
                requires
                    0 <= r < 1000,
                    rd == r * d,
                    d > 0,
            ;
            assert(2 * kd - d <= 2 * sig < 2 * kd + d);
            assert(k * (2 * d) == 2 * kd) by (nonlinear_arith)
                requires
                    kd == k * d,
            ;
            lemma_fundamental_div_mod_converse(
                (2 * sig + d) as int,
                (2 * d) as int,
                k as int,
                (2 * sig + d - 2 * kd) as int,
            );
        } else {
            assert(1000 * sig >= 0x400_0000_0000 * d - 500) by (nonlinear_arith)
                requires
                    1000 * sig - ad >= -500,
                    ad == a * d,
                    a >= 0x400_0000_0000,
                    d > 0,
            ;
            let n = 2 * sig + d;
            let q = n / (2 * d);
            lemma_fundamental_div_mod(n as int, (2 * d) as int);
            assert(q > 0x8000_0001) by (nonlinear_arith)
                requires
                    n == (2 * d) * q + n % (2 * d),
                    0 <= n % (2 * d) < 2 * d,
                    n == 2 * sig + d,
                    1000 * sig >= 0x400_0000_0000 * d - 500,
                    d >= 2,
            ;
        }
    }
}

/// Rounds a reading given in thousandths to a whole number as
/// `.round() as i32` rounds the double nearest it.
pub(crate) fn round_thousandths(v: i64) -> (r: i32)
    ensures
        r as int == double_whole(v as int),
        r as int == whole_spec(v as int),
{
    if v == 0 {
        return 0;
    }
    let a: u128 = if v == i64::MIN {
        0x8000_0000_0000_0000
    } else if v < 0 {
        (-v) as u128
    } else {
        v as u128
    };
    proof {
        lemma_pow2_facts();
    }
    let (sig, s) = nearest_double(a, 1000);
    proof {
        lemma_double_is(a as nat, 1000, s as int);
        lemma_double_whole(a as nat, s as int, sig as nat);
    }
    let m: u128 = if s > 0 {
        let p = pow2_of(s as u32);
        proof {
            lemma_pow2_adds(53, 64);
            lemma_pow2_pos(s as nat);
            lemma2_to64();
            if s < 117 {
                lemma_pow2_strictly_increases(s as nat, 117);
            }
            assert(scaled_num(sig as nat, -(s as int)) == sig && scaled_den(1, -(s as int)) == p);
        }
        (2 * sig + p) / (2 * p)
    } else {
        let p = pow2_of((-s) as u32);
        proof {
            lemma_pow2_adds(58, 0);
            lemma_pow2_adds(52, 6);
            lemma2_to64();
            if -s < 58 {
                lemma_pow2_strictly_increases((-s) as nat, 58);
            }
            assert(sig * p <= 0x20_0000_0000_0000 * 0x400_0000_0000_0000) by (nonlinear_arith)
                requires
                    sig <= 0x20_0000_0000_0000,
                    p <= 0x400_0000_0000_0000,
            ;
            assert(scaled_num(sig as nat, -(s as int)) == sig * p && scaled_den(1, -(s as int)) == 1) by {
                if s == 0 {
                    assert(sig * pow2(0) == sig * 1);
                }
            }
            let n: int = sig * p;
            lemma_fundamental_div_mod_converse(2 * n + 1, 2, n, 1);
        }
        sig * p
    };
    if v > 0 {
        if m > 0x7fff_ffff {
            i32::MAX
        } else {
            m as i32
        }
    } else {
        if m > 0x8000_0000 {
            i32::MIN
        } else {
            -(m as i128) as i32
        }
    }
}

} // verus!
