//! The percentage on a DISM progress line.
//!
//! DISM draws its progress as a bar such as `[=  45.6% =]`.  The label in front
//! of a `%` is read as a decimal number, rounded to the nearest single-precision
//! value, accepted up to 100 and cut to its whole part.  The rounding is stated
//! here exactly, in integers: below each whole number `m` the representable
//! values are a fixed distance apart, so a label rounds up to `m` exactly when it
//! lies within half that distance of `m`.
use vstd::prelude::*;
use crate::number::{all_digits, digit_value, digits_value};
use crate::text::{chars_of, find_char, first_index, is_ascii_digit, is_digit, slice_from, slice_range, slice_to};

verus! {

/// `b` to the power `n`.
pub open spec fn power(b: nat, n: nat) -> nat
    decreases n,
{
    if n == 0 {
        1
    } else {
        b * power(b, (n - 1) as nat)
    }
}

/// The digits and decimal points of `s`, in order.
pub open spec fn number_chars(s: Seq<char>) -> Seq<char>
    decreases s.len(),
{
    if s.len() == 0 {
        Seq::empty()
    } else if is_digit(s.last()) || s.last() == '.' {
        number_chars(s.drop_last()).push(s.last())
    } else {
        number_chars(s.drop_last())
    }
}

/// The digits before the first decimal point (all of `t` when it has none).
pub open spec fn whole_digits(t: Seq<char>) -> Seq<char> {
    match first_index(t, '.') {
        Some(k) => t.take(k),
        None => t,
    }
}

/// The digits after the first decimal point.
pub open spec fn fraction_digits(t: Seq<char>) -> Seq<char> {
    match first_index(t, '.') {
        Some(k) => t.skip(k + 1),
        None => Seq::empty(),
    }
}

/// `t` is a decimal number: digits with at most one decimal point, and at
/// least one digit on either side of it.
pub open spec fn decimal_number(t: Seq<char>) -> bool {
    &&& all_digits(whole_digits(t))
    &&& all_digits(fraction_digits(t))
    &&& whole_digits(t).len() + fraction_digits(t).len() > 0
}

/// Just below the whole number `m` (1 ≤ m ≤ 128) single-precision values are
/// `2^(1 - gap_exponent(m))` apart, so rounding to nearest reaches `m` from
/// `m - 2^-gap_exponent(m)` on; a tie goes to `m`, whose last bit is even.
pub open spec fn gap_exponent(m: nat) -> nat {
    if m <= 1 {
        25
    } else if m <= 2 {
        24
    } else if m <= 4 {
        23
    } else if m <= 8 {
        22
    } else if m <= 16 {
        21
    } else if m <= 32 {
        20
    } else if m <= 64 {
        19
    } else {
        18
    }
}

/// The percentage for the decimal `w + f / 10^l`.  Above 100 the nearest
/// single-precision value is still 100 up to `100 + 2^-18`; below it, the
/// whole part rises by one where the rounding reaches the next whole number.
pub open spec fn decimal_percent(w: nat, f: nat, l: nat) -> Option<u32> {
    if w > 100 || (w == 100 && f * power(2, 18) > power(10, l)) {
        None
    } else if w < 100 && f * power(2, gap_exponent(w + 1)) >= (power(2, gap_exponent(w + 1)) - 1) * power(10, l) {
        Some((w + 1) as u32)
    } else {
        Some(w as u32)
    }
}

/// The percentage a label gives, if it is a decimal number in range.
pub open spec fn label_percent(t: Seq<char>) -> Option<u32> {
    if decimal_number(t) {
        decimal_percent(digits_value(whole_digits(t)), digits_value(fraction_digits(t)), fraction_digits(t).len())
    } else {
        None
    }
}

/// Where the label of the `%` at `i` starts: just after the nearest `[`
/// before it, or at the start of the line.
pub open spec fn label_start(line: Seq<char>, i: int) -> int
    decreases i,
{
    if i <= 0 {
        0
    } else if line[i - 1] == '[' {
        i
    } else {
        label_start(line, i - 1)
    }
}

/// The digits and decimal points between the start of the label and the `%`
/// at `i`.
pub open spec fn label_at(line: Seq<char>, i: int) -> Seq<char> {
    number_chars(line.subrange(label_start(line, i), i))
}

/// The percentage of the first `%`, from position `i` on, whose label reads as
/// a percentage.
pub open spec fn percent_from(line: Seq<char>, i: nat) -> Option<u32>
    decreases line.len() - i,
{
    if i >= line.len() {
        None
    } else if line[i as int] == '%' && label_percent(label_at(line, i as int)) is Some {
        label_percent(label_at(line, i as int))
    } else {
        percent_from(line, i + 1)
    }
}

/// The percentage on a progress line.
pub open spec fn line_percent(line: Seq<char>) -> Option<u32> {
    percent_from(line, 0)
}

/// A progress percentage never exceeds 100: labels above it are skipped.
pub proof fn lemma_percent_at_most_hundred(line: Seq<char>)
    ensures
        line_percent(line) matches Some(p) ==> p <= 100,
{
    lemma_percent_from_at_most_hundred(line, 0);
}

proof fn lemma_percent_from_at_most_hundred(line: Seq<char>, i: nat)
    ensures
        percent_from(line, i) matches Some(p) ==> p <= 100,
    decreases line.len() - i,
{
    if i < line.len() {
        lemma_percent_from_at_most_hundred(line, i + 1);
    }
}

// ----------------------------------------------------------------------------
// Arithmetic facts
// ----------------------------------------------------------------------------

proof fn lemma_power_positive(b: nat, n: nat)
    requires
        b > 0,
    ensures
        power(b, n) > 0,
    decreases n,
{
    if n > 0 {
        lemma_power_positive(b, (n - 1) as nat);
        let p = power(b, (n - 1) as nat);
        assert(b * p > 0) by (nonlinear_arith)
            requires
                b > 0,
                p > 0,
        ;
    }
}

proof fn lemma_power_adds(b: nat, m: nat, n: nat)
    ensures
        power(b, m + n) == power(b, m) * power(b, n),
    decreases m,
{
    if m > 0 {
        let m1 = (m - 1) as nat;
        lemma_power_adds(b, m1, n);
        let x = power(b, m1);
        let y = power(b, n);
        assert(m1 + n == (m + n - 1) as nat);
        assert(power(b, m + n) == b * power(b, m1 + n));
        assert(power(b, m) == b * x);
        assert(b * (x * y) == (b * x) * y) by (nonlinear_arith);
    } else {
        assert(power(b, m) == 1);
        assert(m + n == n);
    }
}

proof fn lemma_power_ten(n: nat)
    ensures
        power(10, n) == power(2, n) * power(5, n),
    decreases n,
{
    if n > 0 {
        lemma_power_ten((n - 1) as nat);
        let a = power(2, (n - 1) as nat);
        let c = power(5, (n - 1) as nat);
        assert(power(10, n) == 10 * power(10, (n - 1) as nat));
        assert(power(2, n) == 2 * a);
        assert(power(5, n) == 5 * c);
        assert(10 * (a * c) == (2 * a) * (5 * c)) by (nonlinear_arith);
    } else {
        assert(power(10, n) == 1 && power(2, n) == 1 && power(5, n) == 1);
    }
}

/// `2^g` divides `10^25` for `g ≤ 25`.
proof fn lemma_scale_divisible(g: nat) -> (k: nat)
    requires
        g <= 25,
    ensures
        power(10, 25) == power(2, g) * k,
{
    lemma_power_ten(25);
    lemma_power_adds(2, g, (25 - g) as nat);
    let a = power(2, g);
    let b = power(2, (25 - g) as nat);
    let c = power(5, 25);
    assert((a * b) * c == a * (b * c)) by (nonlinear_arith);
    b * c
}

/// Writing a digit string as its first `k` digits followed by the rest.
proof fn lemma_digits_split(s: Seq<char>, k: int)
    requires
        all_digits(s),
        0 <= k <= s.len(),
    ensures
        digits_value(s) == digits_value(s.take(k)) * power(10, (s.len() - k) as nat) + digits_value(s.skip(k)),
        digits_value(s.skip(k)) < power(10, (s.len() - k) as nat),
    decreases s.len(),
{
    if k == s.len() {
        assert(s.take(k) =~= s);
        assert(s.skip(k) =~= Seq::<char>::empty());
        assert(digits_value(s.skip(k)) == 0);
        assert(power(10, (s.len() - k) as nat) == 1);
    } else {
        let t = s.drop_last();
        assert(all_digits(t)) by {
            assert forall|i: int| 0 <= i < t.len() implies is_digit(#[trigger] t[i]) by {
                assert(t[i] == s[i]);
            }
        }
        lemma_digits_split(t, k);
        assert(t.take(k) =~= s.take(k));
        assert(s.skip(k).drop_last() =~= t.skip(k));
        assert(s.skip(k).last() == s.last());
        assert(is_digit(s[s.len() - 1]));
        let d = digit_value(s.last());
        assert(d <= 9);
        let a = digits_value(s.take(k));
        let r = digits_value(t.skip(k));
        let p = power(10, (t.len() - k) as nat);
        assert(power(10, (s.len() - k) as nat) == 10 * p);
        assert(digits_value(s) == digits_value(t) * 10 + d);
        assert(digits_value(s.skip(k)) == r * 10 + d);
        assert((a * p + r) * 10 + d == a * (10 * p) + (r * 10 + d)) by (nonlinear_arith);
        assert(r * 10 + d < 10 * p) by (nonlinear_arith)
            requires
                r < p,
                d <= 9,
        ;
        assert(digits_value(s) == a * power(10, (s.len() - k) as nat) + digits_value(s.skip(k)));
    }
}

/// A digit string is worth nothing exactly when all its digits are `0`.
proof fn lemma_digits_zero(s: Seq<char>)
    requires
        all_digits(s),
    ensures
        (digits_value(s) == 0) == (forall|i: int| 0 <= i < s.len() ==> s[i] == '0'),
    decreases s.len(),
{
    if s.len() > 0 {
        let t = s.drop_last();
        assert(all_digits(t)) by {
            assert forall|i: int| 0 <= i < t.len() implies is_digit(#[trigger] t[i]) by {
                assert(t[i] == s[i]);
            }
        }
        lemma_digits_zero(t);
        assert(is_digit(s[s.len() - 1]));
        if digits_value(s) == 0 {
            assert forall|i: int| 0 <= i < s.len() implies s[i] == '0' by {
                if i < t.len() {
                    assert(t[i] == s[i]);
                }
            }
        }
        if forall|i: int| 0 <= i < s.len() ==> s[i] == '0' {
            assert forall|i: int| 0 <= i < t.len() implies t[i] == '0' by {
                assert(t[i] == s[i]);
            }
            assert(s[s.len() - 1] == '0');
        }
    }
}

/// Comparing `F = P·B + R` (with `R < B`) against a multiple of `B` only
/// needs the leading part `P`, unless the two are equal.
proof fn lemma_leading_part(f: nat, p: nat, r: nat, b: nat, t: nat, m: nat)
    requires
        f == p * b + r,
        r < b,
        m > 0,
    ensures
        (f * m >= t * m * b) == (p >= t),
        (f * m > t * m * b) == (p > t || (p == t && r > 0)),
{
    assert((f * m >= t * m * b) == (f >= t * b)) by (nonlinear_arith)
        requires
            m > 0,
    ;
    assert((f * m > t * m * b) == (f > t * b)) by (nonlinear_arith)
        requires
            m > 0,
    ;
    if p >= t {
        assert(p * b >= t * b) by (nonlinear_arith)
            requires
                p >= t,
        ;
    } else {
        assert(p * b + r < t * b) by (nonlinear_arith)
            requires
                p + 1 <= t,
                r < b,
        ;
    }
    if p > t {
        assert(p * b >= t * b + b) by (nonlinear_arith)
            requires
                p >= t + 1,
        ;
    }
}

/// The fraction digits padded with zeros to at least 25 places.
pub open spec fn padded(fs: Seq<char>) -> Seq<char> {
    fs + Seq::new(if fs.len() < 25 { (25 - fs.len()) as nat } else { 0 }, |i: int| '0')
}

/// The first 25 places of the fraction, as a whole number.
pub open spec fn window(fs: Seq<char>) -> nat {
    digits_value(padded(fs).take(25))
}

/// Every digit after the 25th place is `0`.
pub open spec fn zero_beyond_window(fs: Seq<char>) -> bool {
    forall|i: int| 25 <= i < fs.len() ==> fs[i] == '0'
}

/// What the comparisons of `decimal_percent` need of a fraction is read off
/// its first 25 places, and whether anything but zeros follows them.
proof fn lemma_window(fs: Seq<char>, g: nat)
    requires
        all_digits(fs),
        g <= 25,
    ensures
        (digits_value(fs) * power(2, g) >= (power(2, g) - 1) * power(10, fs.len()))
            == (window(fs) * power(2, g) >= (power(2, g) - 1) * power(10, 25)),
        (digits_value(fs) * power(2, g) > power(10, fs.len()))
            == (window(fs) * power(2, g) > power(10, 25) || (window(fs) * power(2, g) == power(10, 25) && !zero_beyond_window(fs))),
        window(fs) < power(10, 25),
{
    let pad: nat = if fs.len() < 25 { (25 - fs.len()) as nat } else { 0 };
    let ps = padded(fs);
    let n = fs.len();
    assert(ps.len() == n + pad);
    assert(all_digits(ps)) by {
        assert forall|i: int| 0 <= i < ps.len() implies is_digit(#[trigger] ps[i]) by {
            if i < n {
                assert(ps[i] == fs[i]);
            } else {
                assert(ps[i] == '0');
            }
        }
    }
    // The padding multiplies the fraction by 10^pad.
    lemma_digits_split(ps, n as int);
    assert(ps.take(n as int) =~= fs);
    let zeros = ps.skip(n as int);
    assert(all_digits(zeros)) by {
        assert forall|i: int| 0 <= i < zeros.len() implies is_digit(#[trigger] zeros[i]) by {
            assert(zeros[i] == ps[n + i]);
        }
    }
    lemma_digits_zero(zeros);
    assert forall|i: int| 0 <= i < zeros.len() implies zeros[i] == '0' by {
        assert(zeros[i] == ps[n + i]);
    }
    let fv = digits_value(fs);
    let fp = digits_value(ps);
    assert(fp == fv * power(10, pad));
    // The first 25 places and the rest.
    lemma_digits_split(ps, 25);
    let p = window(fs);
    let rest = ps.skip(25);
    let r = digits_value(rest);
    let bb = power(10, (ps.len() - 25) as nat);
    assert(fp == p * bb + r);
    assert(r < bb);
    lemma_power_positive(10, pad);
    lemma_power_positive(2, g);
    lemma_power_positive(10, (ps.len() - 25) as nat);
    lemma_power_adds(10, n, pad);
    lemma_power_adds(10, 25, (ps.len() - 25) as nat);
    assert(power(10, ps.len()) == power(10, n) * power(10, pad));
    assert(power(10, ps.len()) == power(10, 25) * bb);
    // Leading part of the window.
    lemma_digits_split(ps.take(25), 25);
    assert(ps.take(25).take(25) =~= ps.take(25));
    assert(all_digits(ps.take(25))) by {
        assert forall|i: int| 0 <= i < 25 implies is_digit(#[trigger] ps.take(25)[i]) by {
            assert(ps.take(25)[i] == ps[i]);
        }
    }
    lemma_digits_split(ps.take(25), 0);
    assert(ps.take(25).skip(0) =~= ps.take(25));
    // The beyond-window digits are those of `rest`.
    assert(all_digits(rest)) by {
        assert forall|i: int| 0 <= i < rest.len() implies is_digit(#[trigger] rest[i]) by {
            assert(rest[i] == ps[25 + i]);
        }
    }
    lemma_digits_zero(rest);
    assert(zero_beyond_window(fs) == (forall|i: int| 0 <= i < rest.len() ==> rest[i] == '0')) by {
        if zero_beyond_window(fs) {
            assert forall|i: int| 0 <= i < rest.len() implies rest[i] == '0' by {
                assert(rest[i] == ps[25 + i]);
                if 25 + i < n {
                    assert(ps[25 + i] == fs[25 + i]);
                }
            }
        }
        if forall|i: int| 0 <= i < rest.len() ==> rest[i] == '0' {
            assert forall|i: int| 25 <= i < n implies fs[i] == '0' by {
                assert(rest[i - 25] == ps[i]);
                assert(ps[i] == fs[i]);
            }
        }
    }
    let m = power(2, g);
    let tp = power(10, pad);
    // Scale both comparisons by 10^pad.
    let k = lemma_scale_divisible(g);
    assert(power(10, 25) == m * k);
    let t_up: nat = ((m - 1) * k) as nat;
    assert((m - 1) * power(10, 25) == t_up * m) by (nonlinear_arith)
        requires
            power(10, 25) == m * k,
            t_up == (m - 1) * k,
            m >= 1,
    ;
    lemma_leading_part(fp, p, r, bb, t_up, m);
    lemma_leading_part(fp, p, r, bb, k, m);
    assert((fv * m >= (m - 1) * power(10, n)) == (fp * m >= t_up * m * bb)) by (nonlinear_arith)
        requires
            fp == fv * tp,
            tp > 0,
            (m - 1) * power(10, 25) == t_up * m,
            power(10, n) * tp == power(10, 25) * bb,
            m >= 1,
    ;
    assert((p >= t_up) == (p * m >= (m - 1) * power(10, 25))) by (nonlinear_arith)
        requires
            (m - 1) * power(10, 25) == t_up * m,
            m >= 1,
    ;
    assert((fv * m > power(10, n)) == (fp * m > k * m * bb)) by (nonlinear_arith)
        requires
            fp == fv * tp,
            tp > 0,
            power(10, 25) == m * k,
            power(10, n) * tp == power(10, 25) * bb,
    ;
    assert((p > k) == (p * m > power(10, 25))) by (nonlinear_arith)
        requires
            power(10, 25) == m * k,
            m >= 1,
    ;
    assert((p == k) == (p * m == power(10, 25))) by (nonlinear_arith)
        requires
            power(10, 25) == m * k,
            m >= 1,
    ;
}

// ----------------------------------------------------------------------------
// Executable reading
// ----------------------------------------------------------------------------

proof fn lemma_power_monotone(b: nat, m: nat, n: nat)
    requires
        b >= 1,
        m <= n,
    ensures
        power(b, m) <= power(b, n),
{
    lemma_power_adds(b, m, (n - m) as nat);
    lemma_power_positive(b, (n - m) as nat);
    let x = power(b, m);
    let y = power(b, (n - m) as nat);
    assert(m + (n - m) as nat == n);
    assert(x <= x * y) by (nonlinear_arith)
        requires
            y >= 1,
    ;
}

/// `10^25`, the scale of the fraction window.
pub const WINDOW_SCALE: u128 = 10000000000000000000000000u128;

proof fn lemma_window_scale()
    ensures
        power(10, 25) == WINDOW_SCALE,
{
    assert(power(10, 25) == 10000000000000000000000000) by {
            reveal_with_fuel(power, 26);
        }
}

fn all_ascii_digits(s: &[char]) -> (r: bool)
    ensures
        r == all_digits(s@),
{
    for i in 0..s.len()
        invariant
            forall|j: int| 0 <= j < i ==> is_digit(#[trigger] s@[j]),
    {
        if !is_ascii_digit(s[i]) {
            return false;
        }
    }
    true
}

/// The digits and decimal points of `s`.
pub fn number_chars_of(s: &[char]) -> (r: Vec<char>)
    ensures
        r@ == number_chars(s@),
{
    let mut r: Vec<char> = Vec::new();
    for i in 0..s.len()
        invariant
            r@ == number_chars(s@.take(i as int)),
    {
        let c = s[i];
        proof {
            assert(s@.take(i + 1).drop_last() =~= s@.take(i as int));
            assert(s@.take(i + 1).last() == c);
        }
        if is_ascii_digit(c) || c == '.' {
            r.push(c);
        }
    }
    proof {
        assert(s@.take(s.len() as int) =~= s@);
    }
    r
}

/// `2^gap_exponent(m)`.
fn gap_scale(m: u64) -> (r: u128)
    requires
        1 <= m <= 100,
    ensures
        r == power(2, gap_exponent(m as nat)),
        262144 <= r <= 33554432,
{
    if m <= 1 {
        assert(power(2, 25) == 33554432) by {
            reveal_with_fuel(power, 26);
        }
        33554432
    } else if m <= 2 {
        assert(power(2, 24) == 16777216) by {
            reveal_with_fuel(power, 26);
        }
        16777216
    } else if m <= 4 {
        assert(power(2, 23) == 8388608) by {
            reveal_with_fuel(power, 26);
        }
        8388608
    } else if m <= 8 {
        assert(power(2, 22) == 4194304) by {
            reveal_with_fuel(power, 26);
        }
        4194304
    } else if m <= 16 {
        assert(power(2, 21) == 2097152) by {
            reveal_with_fuel(power, 26);
        }
        2097152
    } else if m <= 32 {
        assert(power(2, 20) == 1048576) by {
            reveal_with_fuel(power, 26);
        }
        1048576
    } else if m <= 64 {
        assert(power(2, 19) == 524288) by {
            reveal_with_fuel(power, 26);
        }
        524288
    } else {
        assert(power(2, 18) == 262144) by {
            reveal_with_fuel(power, 26);
        }
        262144
    }
}

/// The whole part of a label, or `None` once it is past 100.
fn whole_value(ws: &[char]) -> (r: Option<u64>)
    requires
        all_digits(ws@),
    ensures
        r matches Some(w) ==> w == digits_value(ws@) && w <= 100,
        r is None ==> digits_value(ws@) > 100,
{
    let mut w: u64 = 0;
    for i in 0..ws.len()
        invariant
            all_digits(ws@),
            w == digits_value(ws@.take(i as int)),
            w <= 100,
    {
        proof {
            assert(ws@.take(i + 1).drop_last() =~= ws@.take(i as int));
            assert(ws@.take(i + 1).last() == ws@[i as int]);
            assert(is_digit(ws@[i as int]));
        }
        w = w * 10 + ((ws[i] as u32 - 48) as u64);
        if w > 100 {
            proof {
                crate::number::lemma_digits_value_monotone(ws@, i + 1);
            }
            return None;
        }
    }
    proof {
        assert(ws@.take(ws.len() as int) =~= ws@);
    }
    Some(w)
}

/// The first 25 places of a fraction, as a whole number.
fn window_value(fs: &[char]) -> (r: u128)
    requires
        all_digits(fs@),
    ensures
        r == window(fs@),
{
    let ghost ps = padded(fs@);
    let mut p: u128 = 0;
    for j in 0..25usize
        invariant
            ps == padded(fs@),
            ps.len() >= 25,
            all_digits(fs@),
            p == digits_value(ps.take(j as int)),
            p < power(10, j as nat),
    {
        let d: u128 = if j < fs.len() {
            (fs[j] as u32 - 48) as u128
        } else {
            0
        };
        proof {
            assert(ps.take(j + 1).drop_last() =~= ps.take(j as int));
            assert(ps.take(j + 1).last() == ps[j as int]);
            if j < fs.len() {
                assert(ps[j as int] == fs@[j as int]);
                assert(is_digit(fs@[j as int]));
            } else {
                assert(ps[j as int] == '0');
            }
            assert(d == digit_value(ps[j as int]));
            assert(d <= 9);
            lemma_power_monotone(10, (j + 1) as nat, 25);
            lemma_window_scale();
            assert(power(10, (j + 1) as nat) == 10 * power(10, j as nat));
            assert(p * 10 + d < 10 * power(10, j as nat)) by (nonlinear_arith)
                requires
                    p < power(10, j as nat),
                    d <= 9,
            ;
        }
        p = p * 10 + d;
    }
    p
}

/// Whether every digit after the 25th place is `0`.
fn zeros_beyond_window(fs: &[char]) -> (r: bool)
    ensures
        r == zero_beyond_window(fs@),
{
    let mut j: usize = 25;
    while j < fs.len()
        invariant
            25 <= j,
            forall|i: int| 25 <= i < j && i < fs@.len() ==> fs@[i] == '0',
        decreases fs.len() - j,
    {
        if fs[j] != '0' {
            return false;
        }
        j = j + 1;
    }
    true
}

/// The percentage a progress label gives, if it is a decimal number in range.
pub fn label_value_percent(t: &[char]) -> (r: Option<u32>)
    ensures
        r == label_percent(t@),
{
    let found = find_char(t, '.');
    let (ws, fs) = match found {
        Some(k) => {
            let n = t.len();
            assert(k < n);
            (slice_to(t, k), slice_from(t, k + 1))
        },
        None => (slice_from(t, 0), Vec::new()),
    };
    proof {
        match first_index(t@, '.') {
            Some(k) => {
                assert(ws@ == whole_digits(t@));
                assert(fs@ == fraction_digits(t@));
            },
            None => {
                assert(t@.skip(0) =~= t@);
                assert(fs@ =~= fraction_digits(t@));
            },
        }
    }
    if !all_ascii_digits(ws.as_slice()) || !all_ascii_digits(fs.as_slice()) || (ws.len() == 0 && fs.len() == 0) {
        return None;
    }
    let w = match whole_value(ws.as_slice()) {
        Some(w) => w,
        None => return None,
    };
    let p = window_value(fs.as_slice());
    let ghost f = digits_value(fs@);
    let ghost l = fs@.len();
    proof {
        lemma_window_scale();
        lemma_window(fs@, 18);
        assert(power(2, 18) == 262144) by {
            reveal_with_fuel(power, 26);
        }
        assert(p < WINDOW_SCALE);
    }
    if w == 100 {
        let rest_zero = zeros_beyond_window(fs.as_slice());
        assert(p * 262144 < 340282366920938463463374607431768211455) by (nonlinear_arith)
            requires
                p < 10000000000000000000000000,
        ;
        let scaled = p * 262144;
        if scaled > WINDOW_SCALE || (scaled == WINDOW_SCALE && !rest_zero) {
            return None;
        }
        return Some(100);
    }
    let s = gap_scale(w + 1);
    proof {
        lemma_window(fs@, gap_exponent((w + 1) as nat));
    }
    proof {
        assert(p * s < 340282366920938463463374607431768211455) by (nonlinear_arith)
            requires
                p < 10000000000000000000000000,
                s <= 33554432,
        ;
        assert((s - 1) * WINDOW_SCALE < 340282366920938463463374607431768211455) by (nonlinear_arith)
            requires
                WINDOW_SCALE == 10000000000000000000000000,
                s <= 33554432,
        ;
    }
    let scaled = p * s;
    let bar = (s - 1) * WINDOW_SCALE;
    if scaled >= bar {
        Some((w + 1) as u32)
    } else {
        Some(w as u32)
    }
}

/// Where the label of the `%` at `i` starts.
fn label_start_of(line: &[char], i: usize) -> (r: usize)
    requires
        i <= line.len(),
    ensures
        r as int == label_start(line@, i as int),
        r <= i,
{
    let mut k: usize = i;
    while k > 0
        invariant
            k <= i <= line.len(),
            label_start(line@, i as int) == label_start(line@, k as int),
        decreases k,
    {
        if line[k - 1] == '[' {
            return k;
        }
        k = k - 1;
    }
    0
}

/// Parses the percentage out of a DISM progress line, e.g.
/// `[stdout] [=  45.6% =]` gives 45: the first `%` whose label (the digits and
/// decimal points since the nearest `[` before it) reads as a percentage.
pub fn parse_percent(line: &str) -> (r: Option<u32>)
    ensures
        r == line_percent(line@),
{
    let c = chars_of(line);
    let mut i: usize = 0;
    while i < c.len()
        invariant
            c@ == line@,
            i <= c.len(),
            percent_from(c@, 0) == percent_from(c@, i as nat),
        decreases c.len() - i,
    {
        if c[i] == '%' {
            let start = label_start_of(c.as_slice(), i);
            let label = number_chars_of(slice_range(c.as_slice(), start, i).as_slice());
            let r = label_value_percent(label.as_slice());
            if r.is_some() {
                return r;
            }
        }
        i = i + 1;
    }
    None
}

} // verus!
