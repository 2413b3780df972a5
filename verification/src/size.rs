use vstd::prelude::*;
use crate::text::{self, chars_of, string_from_chars};

verus! {

/// `s` with a trailing ".0" removed, when the '.' there is the first '.' of `s`.
pub open spec fn strip_trailing_zero_spec(s: Seq<char>) -> Seq<char> {
    if s.len() >= 2 && s[s.len() - 1] == '0' && s[s.len() - 2] == '.'
        && !s.take(s.len() - 2).contains('.') {
        s.take(s.len() - 2)
    } else {
        s
    }
}

/// Removes the fraction ".0" from a number printed with one decimal place:
/// "1.0" becomes "1", while "1.5" and "10" stay as they are.
pub fn strip_trailing_zero(s: &str) -> (r: String)
    ensures
        r@ == strip_trailing_zero_spec(s@),
{
    let v = chars_of(s);
    let n = v.len();
    let mut i: usize = 0;
    while i < n && v[i] != '.'
        invariant
            n == v@.len(),
            v@ == s@,
            0 <= i <= n,
            forall|j: int| 0 <= j < i ==> v@[j] != '.',
        decreases n - i,
    {
        i = i + 1;
    }
    if i < n && n - i == 2 && v[i + 1] == '0' {
        let mut out: Vec<char> = Vec::new();
        for k in 0..i
            invariant
                i + 2 == n,
                n == v@.len(),
                out@ == v@.take(k as int),
        {
            out.push(v[k]);
            assert(v@.take(k + 1) =~= v@.take(k as int).push(v@[k as int]));
        }
        assert(!v@.take(n - 2).contains('.')) by {
            assert forall|j: int| 0 <= j < n - 2 implies #[trigger] v@.take(n - 2)[j] != '.' by {}
        }
        string_from_chars(&out)
    } else {
        proof {
            if n >= 2 && v@[n - 1] == '0' && v@[n - 2] == '.' && !v@.take(n - 2).contains('.') {
                assert(i < n);
                if i < n - 2 {
                    assert(v@.take(n - 2)[i as int] == '.');
                }
            }
        }
        string_from_chars(&v)
    }
}


/// `n / d` rounded to the nearest integer, ties to the even neighbour.
pub open spec fn div_round_even(n: nat, d: nat) -> nat
    recommends
        d > 0,
{
    let q = n / d;
    let r = n % d;
    if 2 * r > d || (2 * r == d && q % 2 == 1) {
        q + 1
    } else {
        q
    }
}

/// Two to the power `e`.
pub open spec fn pow_two(e: nat) -> nat
    decreases e,
{
    if e == 0 {
        1
    } else {
        2 * pow_two((e - 1) as nat)
    }
}

/// How many low bits of `b` fall outside a 53-bit significand.
pub open spec fn excess_bits(b: nat) -> nat
    decreases b,
{
    if b < 0x20_0000_0000_0000 {
        0
    } else {
        1 + excess_bits(b / 2)
    }
}

/// The value of `b` once held as a 64-bit float: rounded to 53 significant
/// bits, ties to even.
pub open spec fn float_value(b: nat) -> nat {
    let p = pow_two(excess_bits(b));
    div_round_even(b, p) * p
}

/// Sizes below 2^53 bytes are held exactly as floats: the float rounding only
/// matters for larger ones.
pub proof fn law_small_sizes_are_exact(b: nat)
    requires
        b < 0x20_0000_0000_0000,
    ensures
        float_value(b) == b,
{
    assert(excess_bits(b) == 0);
    assert(pow_two(0) == 1);
}

/// The binary unit a size is shown in: 0 for bytes, 1 for K, up to 4 for T.
pub open spec fn size_unit(b: nat) -> nat {
    if b >= 0x100_0000_0000 {
        4
    } else if b >= 0x4000_0000 {
        3
    } else if b >= 0x10_0000 {
        2
    } else if b >= 0x400 {
        1
    } else {
        0
    }
}

/// The number of bytes in unit `u` (see [`size_unit`]).
pub open spec fn unit_bytes(u: nat) -> nat {
    if u == 4 {
        0x100_0000_0000
    } else if u == 3 {
        0x4000_0000
    } else if u == 2 {
        0x10_0000
    } else if u == 1 {
        0x400
    } else {
        1
    }
}

/// The letter that follows a size shown in unit `u`.
pub open spec fn unit_suffix(u: nat) -> char {
    if u == 4 {
        'T'
    } else if u == 3 {
        'G'
    } else if u == 2 {
        'M'
    } else {
        'K'
    }
}

/// The size in its unit, in tenths, rounded as a one-decimal float print rounds.
pub open spec fn size_tenths(b: nat) -> nat {
    div_round_even(10 * float_value(b), unit_bytes(size_unit(b)))
}

/// A count of tenths printed with exactly one decimal place, such as "1.5".
pub open spec fn one_decimal(t: nat) -> Seq<char> {
    text::decimal(t / 10) + seq!['.', text::digit_char(t % 10)]
}

/// The size column: "-" for a directory, whole bytes below 1 KiB ("42B"),
/// else the size in K, M, G or T with one decimal, a ".0" dropped ("1K", "1.5K").
pub open spec fn format_size_spec(bytes: nat, is_dir: bool) -> Seq<char> {
    if is_dir {
        seq!['-']
    } else if size_unit(bytes) == 0 {
        text::decimal(bytes).push('B')
    } else {
        strip_trailing_zero_spec(one_decimal(size_tenths(bytes))).push(unit_suffix(size_unit(bytes)))
    }
}

fn div_round_even_exec(n: u128, d: u128) -> (r: u128)
    requires
        d > 0,
        n / d < u128::MAX,
    ensures
        r == div_round_even(n as nat, d as nat),
{
    let q = n / d;
    let rem = n % d;
    assert(rem < d);
    if rem > d - rem || (rem == d - rem && q % 2 == 1) {
        q + 1
    } else {
        q
    }
}

/// The value of `b as f64` (conversion rounds to nearest, ties to even), as an
/// exact integer.
fn float_value_exec(b: u64) -> (f: u128)
    ensures
        f == float_value(b as nat),
        f <= 0x2_0000_0000_0000_0000,
{
    let mut m: u128 = b as u128;
    let mut p: u128 = 1;
    let ghost mut s: nat = 0;
    while m >= 0x20_0000_0000_0000
        invariant
            p == pow_two(s),
            p >= 1,
            m == (b as nat) / (p as nat),
            excess_bits(b as nat) == s + excess_bits(m as nat),
            p <= 0x1_0000_0000_0000_0000,
            m >= 0x20_0000_0000_0000 ==> p * 0x20_0000_0000_0000 <= b,
            p == 1 || p * 0x10_0000_0000_0000 <= b,
        decreases m,
    {
        let ghost old_m = m;
        proof {
            vstd::arithmetic::div_mod::lemma_div_denominator(b as int, p as int, 2);
            assert(p * 0x20_0000_0000_0000 <= b);
        }
        m = m / 2;
        p = p * 2;
        proof {
            s = s + 1;
            assert(excess_bits(old_m as nat) == 1 + excess_bits(m as nat));
            if m >= 0x20_0000_0000_0000 {
                assert(m * p <= b) by {
                    vstd::arithmetic::div_mod::lemma_fundamental_div_mod(b as int, p as int);
                    vstd::arithmetic::div_mod::lemma_mod_pos_bound(b as int, p as int);
                }
                assert(p * 0x20_0000_0000_0000 <= b) by (nonlinear_arith)
                    requires m * p <= b, m >= 0x20_0000_0000_0000, p >= 1;
            }
        }
    }
    assert(excess_bits(m as nat) == 0);
    let q = b as u128 / p;
    assert(q == m);
    let rounded = div_round_even_exec(b as u128, p);
    assert(rounded <= 0x20_0000_0000_0000);
    proof {
        vstd::arithmetic::div_mod::lemma_fundamental_div_mod(b as int, p as int);
        vstd::arithmetic::div_mod::lemma_mod_pos_bound(b as int, p as int);
        assert(q * p <= b);
        if rounded == q + 1 {
            assert(rounded * p <= b + p) by (nonlinear_arith)
                requires rounded == q + 1, q * p <= b;
        }
        if p == 1 {
            assert(rounded == b);
        } else {
            assert(rounded * p <= 0x2_0000_0000_0000_0000) by (nonlinear_arith)
                requires rounded <= q + 1, q * p <= b, b < 0x1_0000_0000_0000_0000,
                    p * 0x10_0000_0000_0000 <= b, rounded * p <= b + p || rounded == q;
        }
    }
    rounded * p
}


/// Human-readable size of a listing entry: "-" for a directory, whole bytes
/// below 1 KiB, else K, M, G or T (powers of 1024) with one decimal place,
/// where a fraction of ".0" is dropped.
pub fn format_size(bytes: u64, is_dir: bool) -> (r: String)
    ensures
        r@ == format_size_spec(bytes as nat, is_dir),
{
    if is_dir {
        let mut out: Vec<char> = Vec::new();
        out.push('-');
        assert(out@ =~= seq!['-']);
        return string_from_chars(&out);
    }
    let kb: u64 = 1024;
    let mb: u64 = kb * 1024;
    let gb: u64 = mb * 1024;
    let tb: u64 = gb * 1024;
    let (unit, suffix): (u64, char) = if bytes >= tb {
        (tb, 'T')
    } else if bytes >= gb {
        (gb, 'G')
    } else if bytes >= mb {
        (mb, 'M')
    } else if bytes >= kb {
        (kb, 'K')
    } else {
        let mut out: Vec<char> = Vec::new();
        text::push_decimal(&mut out, bytes);
        out.push('B');
        return string_from_chars(&out);
    };
    assert(unit == unit_bytes(size_unit(bytes as nat)));
    assert(suffix == unit_suffix(size_unit(bytes as nat)));
    let f = float_value_exec(bytes);
    let tenths = div_round_even_exec(10 * f, unit as u128);
    assert(tenths <= (10 * f as int) / (unit as int) + 1);
    assert((10 * f as int) / (unit as int) <= (10 * f as int) / 1024) by {
        vstd::arithmetic::div_mod::lemma_div_is_ordered_by_denominator(10 * f as int, 1024, unit as int);
    }
    let t = tenths as u64;
    let mut printed: Vec<char> = Vec::new();
    text::push_decimal(&mut printed, t / 10);
    printed.push('.');
    printed.push(text::digit(t % 10));
    assert(printed@ =~= one_decimal(t as nat));
    let shown = string_from_chars(&printed);
    let stripped = strip_trailing_zero(shown.as_str());
    let mut out = chars_of(stripped.as_str());
    out.push(suffix);
    string_from_chars(&out)
}

} // verus!

verus! {

/// The size that the size column shows, in tenths of a byte: the number printed
/// (whole bytes, or tenths of its unit) times the size of its unit.
pub open spec fn shown_size_tenths(b: nat) -> nat {
    if size_unit(b) == 0 {
        10 * b
    } else {
        size_tenths(b) * unit_bytes(size_unit(b))
    }
}

proof fn lemma_div_round_even_monotone(n1: nat, n2: nat, d: nat)
    requires
        n1 <= n2,
        d > 0,
    ensures
        div_round_even(n1, d) <= div_round_even(n2, d),
{
    vstd::arithmetic::div_mod::lemma_div_is_ordered(n1 as int, n2 as int, d as int);
    vstd::arithmetic::div_mod::lemma_fundamental_div_mod(n1 as int, d as int);
    vstd::arithmetic::div_mod::lemma_fundamental_div_mod(n2 as int, d as int);
    vstd::arithmetic::div_mod::lemma_mod_pos_bound(n1 as int, d as int);
    vstd::arithmetic::div_mod::lemma_mod_pos_bound(n2 as int, d as int);
    let q1 = n1 / d;
    let q2 = n2 / d;
    if q1 == q2 {
        assert(d * q1 == d * q2);
        assert(n1 % d <= n2 % d);
    }
}

proof fn lemma_div_round_even_exact(k: nat, d: nat)
    requires
        d > 0,
    ensures
        div_round_even(k * d, d) == k,
{
    vstd::arithmetic::div_mod::lemma_div_by_multiple(k as int, d as int);
    vstd::arithmetic::div_mod::lemma_mod_multiples_basic(k as int, d as int);
}

proof fn lemma_pow_two_grows(a: nat, b: nat)
    requires
        a < b,
    ensures
        2 * pow_two(a) <= pow_two(b),
        pow_two(a) >= 1,
    decreases b,
{
    lemma_pow_two_positive(a);
    if b > a + 1 {
        lemma_pow_two_grows(a, (b - 1) as nat);
    }
}

proof fn lemma_pow_two_positive(a: nat)
    ensures
        pow_two(a) >= 1,
    decreases a,
{
    if a > 0 {
        lemma_pow_two_positive((a - 1) as nat);
    }
}

/// With `e` the excess bits of `b` and `p = 2^e`: `b / p` fits in 53 bits, and
/// takes all 53 where `e > 0`.
proof fn lemma_excess_bounds(b: nat)
    ensures
        b / pow_two(excess_bits(b)) < 0x20_0000_0000_0000,
        excess_bits(b) > 0 ==> b / pow_two(excess_bits(b)) >= 0x10_0000_0000_0000,
    decreases b,
{
    if b >= 0x20_0000_0000_0000 {
        let h = b / 2;
        lemma_excess_bounds(h);
        let e1 = excess_bits(h);
        lemma_pow_two_positive(e1);
        vstd::arithmetic::div_mod::lemma_div_denominator(b as int, 2, pow_two(e1) as int);
        assert(pow_two(excess_bits(b)) == 2 * pow_two(e1));
        assert(b / pow_two(excess_bits(b)) == h / pow_two(e1));
        if e1 == 0 {
            assert(pow_two(0) == 1);
        }
    }
}

proof fn lemma_excess_monotone(b1: nat, b2: nat)
    requires
        b1 <= b2,
    ensures
        excess_bits(b1) <= excess_bits(b2),
    decreases b2,
{
    if b1 >= 0x20_0000_0000_0000 {
        lemma_excess_monotone(b1 / 2, b2 / 2);
    }
}

/// Bounds of the float value of `b` in terms of `p = 2^e`, `e` its excess bits.
proof fn lemma_float_value_bounds(b: nat)
    ensures
        float_value(b) <= 0x20_0000_0000_0000 * pow_two(excess_bits(b)),
        excess_bits(b) > 0 ==> float_value(b) >= 0x10_0000_0000_0000 * pow_two(excess_bits(b)),
{
    let p = pow_two(excess_bits(b));
    lemma_pow_two_positive(excess_bits(b));
    lemma_excess_bounds(b);
    let q = b / p;
    let r = div_round_even(b, p);
    assert(q <= r <= q + 1);
    assert(r <= 0x20_0000_0000_0000);
    assert(r * p <= 0x20_0000_0000_0000 * p) by (nonlinear_arith)
        requires r <= 0x20_0000_0000_0000, p >= 1;
    if excess_bits(b) > 0 {
        assert(r * p >= 0x10_0000_0000_0000 * p) by (nonlinear_arith)
            requires r >= q, q >= 0x10_0000_0000_0000, p >= 1;
    }
}

/// Converting to a float never reverses the order of two sizes.
proof fn lemma_float_value_monotone(b1: nat, b2: nat)
    requires
        b1 <= b2,
    ensures
        float_value(b1) <= float_value(b2),
{
    let e1 = excess_bits(b1);
    let e2 = excess_bits(b2);
    lemma_excess_monotone(b1, b2);
    let p1 = pow_two(e1);
    let p2 = pow_two(e2);
    lemma_pow_two_positive(e1);
    if e1 == e2 {
        lemma_div_round_even_monotone(b1, b2, p1);
        let r1 = div_round_even(b1, p1);
        let r2 = div_round_even(b2, p1);
        assert(r1 * p1 <= r2 * p1) by (nonlinear_arith)
            requires r1 <= r2;
    } else {
        lemma_pow_two_grows(e1, e2);
        lemma_float_value_bounds(b1);
        lemma_float_value_bounds(b2);
        assert(0x20_0000_0000_0000 * p1 <= 0x10_0000_0000_0000 * p2) by (nonlinear_arith)
            requires 2 * p1 <= p2;
    }
}

/// A size shown in unit `u > 0` is at least ten tenths of that unit, and a size
/// below the next unit up shows at most 10240 tenths of its own unit.
proof fn lemma_shown_bounds(b: nat)
    ensures
        size_unit(b) > 0 ==> shown_size_tenths(b) >= 10 * unit_bytes(size_unit(b)),
        1 <= size_unit(b) < 4 ==> shown_size_tenths(b) <= 10240 * unit_bytes(size_unit(b)),
        size_unit(b) == 0 ==> shown_size_tenths(b) < 10 * 0x400,
{
    let u = size_unit(b);
    if u > 0 {
        let ub = unit_bytes(u);
        law_small_sizes_are_exact(ub);
        lemma_float_value_monotone(ub, b);
        lemma_div_round_even_monotone(10 * ub, 10 * float_value(b), ub);
        lemma_div_round_even_exact(10, ub);
        assert(size_tenths(b) >= 10);
        assert(size_tenths(b) * ub >= 10 * ub) by (nonlinear_arith)
            requires size_tenths(b) >= 10, ub >= 1;
        if u < 4 {
            law_small_sizes_are_exact(b);
            assert(b < 1024 * ub);
            lemma_div_round_even_monotone(10 * b, 10240 * ub, ub);
            lemma_div_round_even_exact(10240, ub);
            assert(size_tenths(b) <= 10240);
            assert(size_tenths(b) * ub <= 10240 * ub) by (nonlinear_arith)
                requires size_tenths(b) <= 10240, ub >= 1;
        }
    }
}

/// A larger file never shows a smaller size, also across unit boundaries: the
/// value that the size column shows (its number times its unit) grows with the
/// byte count.
pub proof fn law_larger_files_never_show_smaller_sizes(b1: nat, b2: nat)
    requires
        b1 <= b2,
    ensures
        shown_size_tenths(b1) <= shown_size_tenths(b2),
{
    let u1 = size_unit(b1);
    let u2 = size_unit(b2);
    lemma_shown_bounds(b1);
    lemma_shown_bounds(b2);
    if u1 == u2 && u1 > 0 {
        let ub = unit_bytes(u1);
        lemma_float_value_monotone(b1, b2);
        lemma_div_round_even_monotone(10 * float_value(b1), 10 * float_value(b2), ub);
        assert(size_tenths(b1) * ub <= size_tenths(b2) * ub) by (nonlinear_arith)
            requires size_tenths(b1) <= size_tenths(b2);
    }
}

} // verus!
