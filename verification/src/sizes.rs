//! Byte counts as the front end shows them: the largest binary unit up to
//! GiB, with one decimal place.
//!
//! The count is taken as a double (exact below 2^53, else rounded to 53
//! significant bits, ties to even), divided by 1024 per unit, which is exact,
//! and printed to one decimal place with the last digit rounded half to even
//! on the exact value, as std's float formatting does.
use vstd::prelude::*;
use crate::number::{decimal, digit_char, digit_to_char, u64_decimal};
use crate::percent::power;
use crate::text::{chars_of, string_from};

verus! {

/// How many low bits of `n` a double cannot hold.
pub open spec fn excess_bits(n: nat) -> nat
    decreases n,
{
    if n < 9007199254740992 {
        0
    } else {
        1 + excess_bits(n / 2)
    }
}

/// Rounds `x / m` to a whole number, a tie going to the even one.
pub open spec fn round_half_even(x: nat, m: nat) -> nat {
    let q = x / m;
    let r = x % m;
    if 2 * r > m || (2 * r == m && q % 2 == 1) {
        q + 1
    } else {
        q
    }
}

/// The double nearest to `n`.
pub open spec fn nearest_double(n: nat) -> nat {
    let m = power(2, excess_bits(n));
    round_half_even(n, m) * m
}

/// The unit a value is shown in: 0 for B, 1 for KiB, 2 for MiB, 3 for GiB.
pub open spec fn unit_of(v: nat) -> nat {
    if v >= power(2, 30) {
        3
    } else if v >= power(2, 20) {
        2
    } else if v >= power(2, 10) {
        1
    } else {
        0
    }
}

pub open spec fn unit_name(u: nat) -> Seq<char> {
    if u == 0 {
        "B"@
    } else if u == 1 {
        "KiB"@
    } else if u == 2 {
        "MiB"@
    } else {
        "GiB"@
    }
}

/// The text of a byte count: `?` when unknown, whole bytes below 1 KiB,
/// else tenths of the unit.
pub open spec fn bytes_text(size: Option<u64>) -> Seq<char> {
    match size {
        None => "?"@,
        Some(n) => {
            let v = nearest_double(n as nat);
            let u = unit_of(v);
            if u == 0 {
                decimal(n as nat) + " B"@
            } else {
                let d = round_half_even(v * 10, power(2, 10 * u));
                decimal(d / 10) + seq!['.', digit_char(d % 10), ' '] + unit_name(u)
            }
        }
    }
}

proof fn lemma_powers()
    ensures
        power(2, 10) == 1024,
        power(2, 20) == 1048576,
        power(2, 30) == 1073741824,
        power(2, 53) == 9007199254740992,
{
    reveal_with_fuel(power, 54);
}

/// The double nearest to `n`, as a whole number.
fn nearest_double_of(n: u64) -> (v: u128)
    ensures
        v == nearest_double(n as nat),
        v <= 36893488147419103232u128,
        n < 9007199254740992 ==> v == n,
        n >= 9007199254740992 ==> v >= 9007199254740992,
{
    proof {
        lemma_powers();
    }
    let mut q: u64 = n;
    let mut m: u64 = 1;
    let ghost mut e: nat = 0;
    proof {
        assert(power(2, 0) == 1);
    }
    while q >= 9007199254740992
        invariant
            m == power(2, e),
            1 <= m < 4096,
            m == 1 ==> q == n && e == 0,
            m > 1 ==> q >= 4503599627370496,
            q == n / m,
            q * m <= n,
            excess_bits(n as nat) == e + excess_bits(q as nat),
            power(2, 53) == 9007199254740992,
        decreases q,
    {
        proof {
            vstd::arithmetic::div_mod::lemma_div_denominator(n as int, m as int, 2);
            assert(power(2, e + 1) == 2 * power(2, e));
            assert(m < 2048) by (nonlinear_arith)
                requires
                    q >= 9007199254740992,
                    q * m <= n,
                    n < 18446744073709551616,
            ;
            assert((q / 2) * (m * 2) <= n) by (nonlinear_arith)
                requires
                    q * m <= n,
            ;
            e = e + 1;
        }
        q = q / 2;
        m = m * 2;
    }
    let r = n % m;
    proof {
        assert(excess_bits(q as nat) == 0);
        assert(excess_bits(n as nat) == e);
    }
    let up = 2 * (r as u128) > (m as u128) || (2 * (r as u128) == (m as u128) && q % 2 == 1);
    proof {
        assert((q + 1) * m <= 36893488147419103232) by (nonlinear_arith)
            requires
                q < 9007199254740992,
                m < 4096,
        ;
    }
    proof {
        if m > 1 {
            assert(q * m >= 9007199254740992) by (nonlinear_arith)
                requires
                    q >= 4503599627370496,
                    m >= 2,
            ;
            assert((q + 1) * m >= q * m) by (nonlinear_arith);
        } else {
            assert(power(2, 0) == 1);
        }
    }
    if up {
        ((q as u128) + 1) * (m as u128)
    } else {
        (q as u128) * (m as u128)
    }
}

fn unit_text(u: u64) -> (r: Vec<char>)
    requires
        1 <= u <= 3,
    ensures
        r@ == unit_name(u as nat),
{
    if u == 1 {
        chars_of("KiB")
    } else if u == 2 {
        chars_of("MiB")
    } else {
        chars_of("GiB")
    }
}

/// A byte count for display, in the largest binary unit up to GiB, with one
/// decimal place; `?` when the size is unknown.
pub fn format_bytes(size: Option<u64>) -> (r: String)
    ensures
        r@ == bytes_text(size),
{
    let n = match size {
        None => return string_from(chars_of("?").as_slice()),
        Some(n) => n,
    };
    proof {
        lemma_powers();
    }
    let v = nearest_double_of(n);
    let u: u64 = if v >= 1073741824 {
        3
    } else if v >= 1048576 {
        2
    } else if v >= 1024 {
        1
    } else {
        0
    };
    if u == 0 {
        let mut t = u64_decimal(n);
        let mut tail = chars_of(" B");
        t.append(&mut tail);
        return string_from(t.as_slice());
    }
    let m: u128 = if u == 1 {
        1024
    } else if u == 2 {
        1048576
    } else {
        1073741824
    };
    proof {
        assert(m == power(2, 10 * u as nat)) by {
            reveal_with_fuel(power, 31);
        }
    }
    let x = v * 10;
    let q = x / m;
    let rem = x % m;
    let d128 = if 2 * rem > m || (2 * rem == m && q % 2 == 1) {
        q + 1
    } else {
        q
    };
    proof {
        assert(q * 1024 <= x) by (nonlinear_arith)
            requires
                q == x / m,
                m >= 1024,
        ;
        assert(d128 < 18446744073709551615) by (nonlinear_arith)
            requires
                q * 1024 <= x,
                x <= 368934881474191032320,
                d128 <= q + 1,
        ;
    }
    let d = d128 as u64;
    let mut t = u64_decimal(d / 10);
    t.push('.');
    t.push(digit_to_char(d % 10));
    t.push(' ');
    let mut name = unit_text(u);
    t.append(&mut name);
    proof {
        assert(t@ =~= decimal((d / 10) as nat) + seq!['.', digit_char((d % 10) as nat), ' '] + unit_name(u as nat));
    }
    string_from(t.as_slice())
}

} // verus!
