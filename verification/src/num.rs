//! Exact decimal arithmetic for JSON numbers: comparisons and remainders of
//! values scaled to a common denominator, and decimal formatting.
use vstd::prelude::*;
use crate::json::{JNum, num_wf};

verus! {

pub open spec fn pow10(e: nat) -> int
    decreases e,
{
    if e == 0 {
        1
    } else {
        10 * pow10((e - 1) as nat)
    }
}

/// The value of the decimal `m / 10^s`, scaled by `10^18` to an integer.
pub open spec fn scaled(m: int, s: nat) -> int {
    m * pow10((18 - s) as nat)
}

pub open spec fn abs(n: int) -> int {
    if n < 0 {
        -n
    } else {
        n
    }
}

/// Whether the decimal `vm / 10^vs` is an exact multiple of `qm / 10^qs`.
pub open spec fn is_decimal_multiple(vm: int, vs: nat, qm: int, qs: nat) -> bool {
    abs(scaled(vm, vs)) % abs(scaled(qm, qs)) == 0
}

pub proof fn lemma_pow10_pos(e: nat)
    ensures
        pow10(e) >= 1,
    decreases e,
{
    if e > 0 {
        lemma_pow10_pos((e - 1) as nat);
    }
}

pub proof fn lemma_pow10_mono(a: nat, b: nat)
    requires
        a <= b,
    ensures
        pow10(a) <= pow10(b),
    decreases b - a,
{
    lemma_pow10_pos(a);
    if a < b {
        lemma_pow10_mono(a, (b - 1) as nat);
        lemma_pow10_pos((b - 1) as nat);
    }
}

pub proof fn lemma_pow10_18()
    ensures
        pow10(18) == 1_000_000_000_000_000_000int,
{
    reveal_with_fuel(pow10, 20);
}

/// `10^e` for exponents up to 18.
pub fn pow10_u64(e: u32) -> (r: u64)
    requires
        e <= 18,
    ensures
        r == pow10(e as nat),
    decreases e,
{
    proof {
        lemma_pow10_pos(e as nat);
        lemma_pow10_mono(e as nat, 18);
        lemma_pow10_18();
    }
    if e == 0 {
        1
    } else {
        let p = pow10_u64(e - 1);
        proof {
            lemma_pow10_mono((e - 1) as nat, 17);
            reveal_with_fuel(pow10, 20);
        }
        10 * p
    }
}

/// The common-scale integer value of a normalized decimal.
pub fn scaled_i128(n: &JNum) -> (r: i128)
    requires
        num_wf(n.m as int, n.s as nat),
    ensures
        r == scaled(n.m as int, n.s as nat),
        -9_300_000_000_000_000_000_000_000_000_000_000_000int <= r
            <= 9_300_000_000_000_000_000_000_000_000_000_000_000int,
{
    let p = pow10_u64(18 - n.s);
    proof {
        lemma_pow10_pos((18 - n.s) as nat);
        lemma_pow10_mono((18 - n.s) as nat, 18);
        lemma_pow10_18();
        assert((n.m as int) * (p as int) <= 9_300_000_000_000_000_000_000_000_000_000_000_000int
            && (n.m as int) * (p as int)
            >= -9_300_000_000_000_000_000_000_000_000_000_000_000int) by (nonlinear_arith)
            requires
                -0x8000_0000_0000_0000 <= n.m as int <= 0x7fff_ffff_ffff_ffff,
                1 <= p as int <= 1_000_000_000_000_000_000int,
        ;
    }
    (n.m as i128) * (p as i128)
}

/// Whether `v` is an exact multiple of `q`; `q` must not be zero.
pub fn num_multiple_of(v: &JNum, q: &JNum) -> (r: bool)
    requires
        num_wf(v.m as int, v.s as nat),
        num_wf(q.m as int, q.s as nat),
        q.m != 0,
    ensures
        r == is_decimal_multiple(v.m as int, v.s as nat, q.m as int, q.s as nat),
{
    let a = scaled_i128(v);
    let b = scaled_i128(q);
    proof {
        lemma_pow10_pos((18 - q.s) as nat);
        assert(scaled(q.m as int, q.s as nat) != 0) by (nonlinear_arith)
            requires
                q.m != 0,
                scaled(q.m as int, q.s as nat) == (q.m as int) * pow10((18 - q.s) as nat),
                pow10((18 - q.s) as nat) >= 1,
        ;
    }
    let au: u128 = if a >= 0 {
        a as u128
    } else {
        (-a) as u128
    };
    let bu: u128 = if b >= 0 {
        b as u128
    } else {
        (-b) as u128
    };
    au % bu == 0
}

/// The decimal digits of a non-negative integer, most significant first.
pub open spec fn dec_str(n: nat) -> Seq<char>
    decreases n,
{
    if n < 10 {
        seq![digit_char(n)]
    } else {
        dec_str(n / 10).push(digit_char(n % 10))
    }
}

/// The digits of an integer, with a leading minus sign when negative.
pub open spec fn int_str(n: int) -> Seq<char> {
    if n < 0 {
        seq!['-'] + dec_str((-n) as nat)
    } else {
        dec_str(n as nat)
    }
}

/// `n` printed in exactly `w` digits, zero-padded.
pub open spec fn fixed_str(n: nat, w: nat) -> Seq<char>
    decreases w,
{
    if w <= 1 {
        seq![digit_char(n % 10)]
    } else {
        fixed_str(n / 10, (w - 1) as nat).push(digit_char(n % 10))
    }
}

/// The canonical rendering of the decimal `m / 10^s`: the integer part, and
/// for a positive scale a point followed by exactly `s` fraction digits.
pub open spec fn num_str(m: int, s: nat) -> Seq<char> {
    let a = if m < 0 {
        -m
    } else {
        m
    };
    let sign: Seq<char> = if m < 0 {
        seq!['-']
    } else {
        Seq::empty()
    };
    if s == 0 {
        sign + dec_str(a as nat)
    } else {
        sign + dec_str((a / pow10(s)) as nat) + seq!['.'] + fixed_str(
            (a % pow10(s)) as nat,
            s,
        )
    }
}

pub open spec fn digit_char(d: nat) -> char {
    if d == 0 {
        '0'
    } else if d == 1 {
        '1'
    } else if d == 2 {
        '2'
    } else if d == 3 {
        '3'
    } else if d == 4 {
        '4'
    } else if d == 5 {
        '5'
    } else if d == 6 {
        '6'
    } else if d == 7 {
        '7'
    } else if d == 8 {
        '8'
    } else {
        '9'
    }
}

/// One decimal digit as a string slice.
pub fn digit_str(d: u64) -> (r: &'static str)
    requires
        d < 10,
    ensures
        r@ == seq![digit_char(d as nat)],
{
    proof {
        reveal_strlit("0");
        reveal_strlit("1");
        reveal_strlit("2");
        reveal_strlit("3");
        reveal_strlit("4");
        reveal_strlit("5");
        reveal_strlit("6");
        reveal_strlit("7");
        reveal_strlit("8");
        reveal_strlit("9");
    }
    let r = if d == 0 {
        "0"
    } else if d == 1 {
        "1"
    } else if d == 2 {
        "2"
    } else if d == 3 {
        "3"
    } else if d == 4 {
        "4"
    } else if d == 5 {
        "5"
    } else if d == 6 {
        "6"
    } else if d == 7 {
        "7"
    } else {
        "8"
    };
    if d == 9 {
        "9"
    } else {
        proof {
            assert(r@ =~= seq![digit_char(d as nat)]);
        }
        r
    }
}

/// A non-negative integer in decimal.
pub fn fmt_u64(n: u64) -> (r: String)
    ensures
        r@ == dec_str(n as nat),
    decreases n,
{
    if n < 10 {
        digit_str(n).to_owned()
    } else {
        let mut s = fmt_u64(n / 10);
        s.append(digit_str(n % 10));
        proof {
            assert(s@ =~= dec_str(n as nat));
        }
        s
    }
}

/// A signed integer in decimal.
pub fn fmt_i64(n: i64) -> (r: String)
    ensures
        r@ == int_str(n as int),
{
    if n >= 0 {
        fmt_u64(n as u64)
    } else {
        let a: u64 = ((-(n as i128)) as u64);
        let mut s = String::from_str("-");
        s.append(fmt_u64(a).as_str());
        proof {
            reveal_strlit("-");
            assert(s@ =~= int_str(n as int));
        }
        s
    }
}

/// `n` in exactly `w` digits, zero-padded; `n` must fit.
pub fn fmt_fixed(n: u64, w: u32) -> (r: String)
    requires
        w >= 1,
    ensures
        r@ == fixed_str(n as nat, w as nat),
    decreases w,
{
    if w == 1 {
        digit_str(n % 10).to_owned()
    } else {
        let mut s = fmt_fixed(n / 10, w - 1);
        s.append(digit_str(n % 10));
        proof {
            assert(s@ =~= fixed_str(n as nat, w as nat));
        }
        s
    }
}

/// A normalized decimal in its canonical rendering.
pub fn fmt_num(n: &JNum) -> (r: String)
    requires
        num_wf(n.m as int, n.s as nat),
    ensures
        r@ == num_str(n.m as int, n.s as nat),
{
    let a: u64 = if n.m >= 0 {
        n.m as u64
    } else {
        (-(n.m as i128)) as u64
    };
    let mut s = if n.m < 0 {
        proof {
            reveal_strlit("-");
        }
        String::from_str("-")
    } else {
        proof {
            reveal_strlit("");
        }
        String::from_str("")
    };
    if n.s == 0 {
        s.append(fmt_u64(a).as_str());
        proof {
            assert(s@ =~= num_str(n.m as int, n.s as nat));
        }
        s
    } else {
        let p = pow10_u64(n.s);
        proof {
            lemma_pow10_pos(n.s as nat);
        }
        s.append(fmt_u64(a / p).as_str());
        proof {
            reveal_strlit(".");
        }
        s.append(".");
        s.append(fmt_fixed(a % p, n.s).as_str());
        proof {
            assert(s@ =~= num_str(n.m as int, n.s as nat));
        }
        s
    }
}

} // verus!
