//! A depth-bounded recursive-descent parser from text to structured values.
//! Each executable step is proved equal to a specification-level parser over
//! the character sequence.
use vstd::prelude::*;
use crate::json::{JNum, Json, JsonV};

verus! {

/// Nesting depth allowed in a document; deeper input is a parse error.
pub const MAX_DEPTH: u32 = 128;

pub open spec fn is_ws(c: char) -> bool {
    c == ' ' || c == '\t' || c == '\n' || c == '\r'
}

pub open spec fn is_digit(c: char) -> bool {
    48 <= c as u32 && c as u32 <= 57
}

/// Executable test for whitespace.
pub fn is_ws_char(c: char) -> (r: bool)
    ensures
        r == is_ws(c),
{
    c == ' ' || c == '\t' || c == '\n' || c == '\r'
}

/// Executable test for a decimal digit.
pub fn is_digit_char(c: char) -> (r: bool)
    ensures
        r == is_digit(c),
{
    let u = c as u32;
    48 <= u && u <= 57
}

pub open spec fn digit_of(c: char) -> int {
    c as u32 - 48
}

/// First index at or after `i` holding no whitespace.
pub open spec fn ws_end(s: Seq<char>, i: int) -> int
    decreases s.len() - i,
{
    if 0 <= i < s.len() && is_ws(s[i]) {
        ws_end(s, i + 1)
    } else {
        i
    }
}

/// First index at or after `i` holding no decimal digit.
pub open spec fn digits_end(s: Seq<char>, i: int) -> int
    decreases s.len() - i,
{
    if 0 <= i < s.len() && is_digit(s[i]) {
        digits_end(s, i + 1)
    } else {
        i
    }
}

pub proof fn lemma_digits_end(s: Seq<char>, i: int)
    requires
        0 <= i <= s.len(),
    ensures
        i <= digits_end(s, i) <= s.len(),
        forall|j: int| i <= j < digits_end(s, i) ==> is_digit(s[j]),
    decreases s.len() - i,
{
    if i < s.len() && is_digit(s[i]) {
        lemma_digits_end(s, i + 1);
    }
}

/// The value of the digit run `s[i..j)` accumulated onto `acc`, or `None`
/// once it exceeds `i64::MAX`.
pub open spec fn digits_acc(s: Seq<char>, i: int, j: int, acc: int) -> Option<int>
    decreases j - i,
{
    if j <= i {
        Some(acc)
    } else {
        match digits_acc(s, i, j - 1, acc) {
            None => None,
            Some(v) => {
                let v2 = v * 10 + digit_of(s[j - 1]);
                if v2 > i64::MAX {
                    None
                } else {
                    Some(v2)
                }
            },
        }
    }
}

/// Whitespace skip.
pub fn skip_ws(t: &Vec<char>, i: usize) -> (r: usize)
    requires
        i <= t.len(),
    ensures
        r == ws_end(t@, i as int),
        i <= r <= t.len(),
{
    let mut j = i;
    while j < t.len() && is_ws_char(t[j])
        invariant
            i <= j <= t.len(),
            ws_end(t@, i as int) == ws_end(t@, j as int),
        decreases t.len() - j,
    {
        j = j + 1;
    }
    j
}

/// Digit-run scan accumulating a capped value: returns the end of the run
/// and its value, or `None` when the value exceeds `i64::MAX`.
pub fn scan_digits(t: &Vec<char>, i: usize, acc: u64) -> (r: (usize, Option<u64>))
    requires
        i <= t.len(),
        acc <= i64::MAX as u64,
    ensures
        r.0 == digits_end(t@, i as int),
        i <= r.0 <= t.len(),
        match r.1 {
            Some(v) => digits_acc(t@, i as int, r.0 as int, acc as int) == Some(v as int) && v
                <= i64::MAX as u64,
            None => digits_acc(t@, i as int, r.0 as int, acc as int) is None,
        },
{
    let mut j = i;
    let mut m: u64 = acc;
    let mut overflow: bool = false;
    while j < t.len() && is_digit_char(t[j])
        invariant
            i <= j <= t.len(),
            digits_end(t@, i as int) == digits_end(t@, j as int),
            forall|k: int| i <= k < j ==> is_digit(t@[k]),
            !overflow ==> m <= i64::MAX as u64 && digits_acc(t@, i as int, j as int, acc as int)
                == Some(m as int),
            overflow ==> digits_acc(t@, i as int, j as int, acc as int) is None,
        decreases t.len() - j,
    {
        let d: u64 = (t[j] as u32 - 48) as u64;
        if !overflow {
            if m > (i64::MAX as u64 - d) / 10 {
                overflow = true;
                proof {
                    assert(m * 10 + d > i64::MAX);
                }
            } else {
                proof {
                    assert(m * 10 + d <= i64::MAX);
                }
                m = m * 10 + d;
            }
        }
        j = j + 1;
    }
    if overflow {
        (j, None)
    } else {
        (j, Some(m))
    }
}

/// Scale lift: multiplies the mantissa up while the scale is negative.
pub open spec fn norm_up(m: int, t: int) -> Option<(int, int)>
    decreases -t,
{
    if t >= 0 {
        Some((m, t))
    } else if m * 10 > i64::MAX {
        None
    } else {
        norm_up(m * 10, t + 1)
    }
}

/// Strips trailing zeros from the fraction.
pub open spec fn norm_down(m: int, t: int) -> (int, int)
    decreases t,
{
    if t > 0 && m % 10 == 0 {
        norm_down(m / 10, t - 1)
    } else {
        (m, t)
    }
}

/// Normalization of an unsigned mantissa and scale into a well-formed
/// decimal; `None` when the number does not fit the supported range.
pub open spec fn normalize_num(m: int, t: int) -> Option<(int, nat)> {
    if m == 0 {
        Some((0, 0))
    } else {
        match norm_up(m, t) {
            None => None,
            Some((m1, t1)) => {
                let r = norm_down(m1, t1);
                if r.1 > 18 {
                    None
                } else {
                    Some((r.0, r.1 as nat))
                }
            },
        }
    }
}

pub proof fn lemma_norm_up(m: int, t: int)
    requires
        1 <= m <= i64::MAX,
    ensures
        match norm_up(m, t) {
            Some(r) => 1 <= r.0 <= i64::MAX && r.1 >= 0 && (t >= 0 ==> r == (m, t)),
            None => true,
        },
    decreases -t,
{
    if t < 0 && m * 10 <= i64::MAX {
        lemma_norm_up(m * 10, t + 1);
    }
}

pub proof fn lemma_norm_down(m: int, t: int)
    requires
        1 <= m <= i64::MAX,
        t >= 0,
    ensures
        ({
            let r = norm_down(m, t);
            &&& 1 <= r.0 <= i64::MAX
            &&& 0 <= r.1 <= t
            &&& r.1 > 0 ==> r.0 % 10 != 0
        }),
    decreases t,
{
    if t > 0 && m % 10 == 0 {
        lemma_norm_down(m / 10, t - 1);
    }
}

/// The normalized result is a well-formed number.
pub proof fn lemma_normalize_wf(m: int, t: int)
    requires
        0 <= m <= i64::MAX,
    ensures
        match normalize_num(m, t) {
            Some(r) => crate::json::num_wf(r.0, r.1) && crate::json::num_wf(-r.0, r.1) && r.0
                >= 0,
            None => true,
        },
{
    if m != 0 {
        lemma_norm_up(m, t);
        match norm_up(m, t) {
            Some(r1) => {
                lemma_norm_down(r1.0, r1.1);
            },
            None => {},
        }
    }
}

/// Executable normalization.
pub fn normalize_exec(m0: u64, t0: i128) -> (r: Option<(u64, u32)>)
    requires
        m0 <= i64::MAX as u64,
        -0x4_0000_0000_0000_0000i128 <= t0 <= 0x4_0000_0000_0000_0000i128,
    ensures
        match r {
            Some(p) => normalize_num(m0 as int, t0 as int) == Some((p.0 as int, p.1 as nat)),
            None => normalize_num(m0 as int, t0 as int) is None,
        },
{
    if m0 == 0 {
        return Some((0, 0));
    }
    let mut m = m0;
    let mut t = t0;
    while t < 0
        invariant
            m0 != 0,
            m0 <= i64::MAX as u64,
            1 <= m <= i64::MAX as u64,
            t <= 0x4_0000_0000_0000_0000i128 + 19,
            norm_up(m0 as int, t0 as int) == norm_up(m as int, t as int),
        decreases -t,
    {
        if m > (i64::MAX as u64) / 10 {
            proof {
                assert(m * 10 > i64::MAX);
            }
            return None;
        }
        proof {
            assert(m * 10 <= i64::MAX);
        }
        m = m * 10;
        t = t + 1;
    }
    proof {
        lemma_norm_up(m0 as int, t0 as int);
    }
    let ghost up = norm_up(m0 as int, t0 as int)->Some_0;
    assert(up == (m as int, t as int));
    while t > 0 && m % 10 == 0
        invariant
            m0 != 0,
            m0 <= i64::MAX as u64,
            1 <= m <= i64::MAX as u64,
            0 <= t <= 0x4_0000_0000_0000_0000i128 + 19,
            norm_up(m0 as int, t0 as int) == Some(up),
            norm_down(up.0, up.1) == norm_down(m as int, t as int),
        decreases t,
    {
        m = m / 10;
        t = t - 1;
    }
    if t > 18 {
        None
    } else {
        Some((m, t as u32))
    }
}

/// A parsed number, before the sign is applied: mantissa and scale.
pub open spec fn finish_number(neg: bool, m: int, t: int, k: int) -> Option<((int, nat), int)> {
    match normalize_num(m, t) {
        None => None,
        Some(r) => Some(((if neg { -r.0 } else { r.0 }, r.1), k)),
    }
}

/// The exponent part (if any) and the final number.
pub open spec fn parse_number_exp(s: Seq<char>, k: int, neg: bool, m: int, fc: int) -> Option<
    ((int, nat), int),
> {
    if 0 <= k < s.len() && (s[k] == 'e' || s[k] == 'E') {
        let eneg = k + 1 < s.len() && s[k + 1] == '-';
        let epos = k + 1 < s.len() && s[k + 1] == '+';
        let d0 = if eneg || epos {
            k + 2
        } else {
            k + 1
        };
        let e_end = digits_end(s, d0);
        if e_end == d0 {
            None
        } else {
            match digits_acc(s, d0, e_end, 0) {
                None => None,
                Some(ev) => if ev > 1_000_000_000 {
                    None
                } else {
                    finish_number(neg, m, if eneg {
                        fc + ev
                    } else {
                        fc - ev
                    }, e_end)
                },
            }
        }
    } else {
        finish_number(neg, m, fc, k)
    }
}

/// The fraction part (if any) and what follows.
pub open spec fn parse_number_frac(s: Seq<char>, k: int, neg: bool, m1: int) -> Option<
    ((int, nat), int),
> {
    if 0 <= k < s.len() && s[k] == '.' {
        let f_end = digits_end(s, k + 1);
        if f_end == k + 1 {
            None
        } else {
            match digits_acc(s, k + 1, f_end, m1) {
                None => None,
                Some(m2) => parse_number_exp(s, f_end, neg, m2, f_end - (k + 1)),
            }
        }
    } else {
        parse_number_exp(s, k, neg, m1, 0)
    }
}

/// A JSON number starting at `i`: optional minus sign, an integer part with
/// no leading zero, an optional fraction, an optional exponent.
pub open spec fn parse_number_at(s: Seq<char>, i: int) -> Option<((int, nat), int)> {
    let neg = 0 <= i < s.len() && s[i] == '-';
    let j0 = if neg {
        i + 1
    } else {
        i
    };
    if !(0 <= j0 < s.len() && is_digit(s[j0])) {
        None
    } else if s[j0] == '0' && j0 + 1 < s.len() && is_digit(s[j0 + 1]) {
        None
    } else {
        let ip_end = digits_end(s, j0);
        match digits_acc(s, j0, ip_end, 0) {
            None => None,
            Some(m1) => parse_number_frac(s, ip_end, neg, m1),
        }
    }
}

/// Executable number parse; the result is a well-formed number and the index
/// just past it.
#[verifier::rlimit(60)]
pub fn parse_number(t: &Vec<char>, i: usize) -> (r: Option<(JNum, usize)>)
    requires
        i <= t.len(),
    ensures
        match r {
            Some(p) => {
                &&& parse_number_at(t@, i as int) == Some(
                    ((p.0.m as int, p.0.s as nat), p.1 as int),
                )
                &&& crate::json::num_wf(p.0.m as int, p.0.s as nat)
                &&& i < p.1 <= t.len()
            },
            None => parse_number_at(t@, i as int) is None,
        },
{
    let neg = i < t.len() && t[i] == '-';
    let j0 = if neg {
        i + 1
    } else {
        i
    };
    if !(j0 < t.len() && is_digit_char(t[j0])) {
        return None;
    }
    if t[j0] == '0' && j0 + 1 < t.len() && is_digit_char(t[j0 + 1]) {
        return None;
    }
    let (ip_end, m1o) = scan_digits(t, j0, 0);
    proof {
        lemma_digits_end(t@, j0 as int + 1);
        assert(digits_end(t@, j0 as int) == digits_end(t@, j0 as int + 1));
        assert(ip_end > j0);
    }
    let m1 = match m1o {
        Some(v) => v,
        None => {
            return None;
        },
    };
    // fraction
    let mut m2 = m1;
    let mut fc: usize = 0;
    let mut k = ip_end;
    let ghost after_frac = parse_number_frac(t@, ip_end as int, neg, m1 as int);
    if k < t.len() && t[k] == '.' {
        let (f_end, m2o) = scan_digits(t, k + 1, m1);
        if f_end == k + 1 {
            return None;
        }
        m2 = match m2o {
            Some(v) => v,
            None => {
                return None;
            },
        };
        fc = f_end - (k + 1);
        k = f_end;
    }
    assert(after_frac == parse_number_exp(t@, k as int, neg, m2 as int, fc as int));
    // exponent
    let mut t_scale: i128 = fc as i128;
    if k < t.len() && (t[k] == 'e' || t[k] == 'E') {
        let eneg = k + 1 < t.len() && t[k + 1] == '-';
        let epos = k + 1 < t.len() && t[k + 1] == '+';
        let d0 = if eneg || epos {
            k + 2
        } else {
            k + 1
        };
        if d0 > t.len() {
            proof {
                assert(digits_end(t@, d0 as int) == d0);
            }
            return None;
        }
        let (e_end, evo) = scan_digits(t, d0, 0);
        if e_end == d0 {
            return None;
        }
        let ev = match evo {
            Some(v) => v,
            None => {
                return None;
            },
        };
        if ev > 1_000_000_000 {
            return None;
        }
        t_scale = if eneg {
            fc as i128 + ev as i128
        } else {
            fc as i128 - ev as i128
        };
        k = e_end;
    }
    proof {
        lemma_normalize_wf(m2 as int, t_scale as int);
    }
    match normalize_exec(m2, t_scale) {
        None => None,
        Some((mf, sf)) => {
            let mm: i64 = if neg {
                -(mf as i64)
            } else {
                mf as i64
            };
            Some((JNum { m: mm, s: sf }, k))
        },
    }
}

/// The value of one hexadecimal digit.
pub open spec fn hex_val(c: char) -> Option<int> {
    let u = c as u32;
    if 48 <= u && u <= 57 {
        Some(u - 48)
    } else if 97 <= u && u <= 102 {
        Some(u - 87)
    } else if 65 <= u && u <= 70 {
        Some(u - 55)
    } else {
        None
    }
}

/// The value of four hexadecimal digits starting at `i`.
pub open spec fn hex4(s: Seq<char>, i: int) -> Option<int> {
    if 0 <= i && i + 4 <= s.len() {
        match (hex_val(s[i]), hex_val(s[i + 1]), hex_val(s[i + 2]), hex_val(s[i + 3])) {
            (Some(a), Some(b), Some(c), Some(d)) => Some(a * 4096 + b * 256 + c * 16 + d),
            _ => None,
        }
    } else {
        None
    }
}

/// The scalar value encoded by a surrogate pair.
pub open spec fn combine_surrogates(h: int, l: int) -> int {
    0x10000 + (h - 0xD800) * 0x400 + (l - 0xDC00)
}

/// The body of a string literal from `i` (just after the opening quote) to
/// its closing quote: ordinary characters, the short escapes, and `\u`
/// escapes including surrogate pairs. Unescaped control characters, lone
/// surrogates and unterminated strings are errors.
pub open spec fn parse_str_body(s: Seq<char>, i: int, acc: Seq<char>) -> Option<(Seq<char>, int)>
    decreases s.len() - i,
{
    if !(0 <= i < s.len()) {
        None
    } else {
        let c = s[i];
        if c == '"' {
            Some((acc, i + 1))
        } else if c == '\\' {
            if i + 1 >= s.len() {
                None
            } else {
                let e = s[i + 1];
                if e == '"' {
                    parse_str_body(s, i + 2, acc.push('"'))
                } else if e == '\\' {
                    parse_str_body(s, i + 2, acc.push('\\'))
                } else if e == '/' {
                    parse_str_body(s, i + 2, acc.push('/'))
                } else if e == 'b' {
                    parse_str_body(s, i + 2, acc.push('\u{0008}'))
                } else if e == 'f' {
                    parse_str_body(s, i + 2, acc.push('\u{000C}'))
                } else if e == 'n' {
                    parse_str_body(s, i + 2, acc.push('\n'))
                } else if e == 'r' {
                    parse_str_body(s, i + 2, acc.push('\r'))
                } else if e == 't' {
                    parse_str_body(s, i + 2, acc.push('\t'))
                } else if e == 'u' {
                    match hex4(s, i + 2) {
                        None => None,
                        Some(u) => if u < 0xD800 || u > 0xDFFF {
                            parse_str_body(s, i + 6, acc.push((u as u32) as char))
                        } else if u < 0xDC00 {
                            if i + 8 <= s.len() && s[i + 6] == '\\' && s[i + 7] == 'u' {
                                match hex4(s, i + 8) {
                                    None => None,
                                    Some(l) => if 0xDC00 <= l && l <= 0xDFFF {
                                        parse_str_body(
                                            s,
                                            i + 12,
                                            acc.push((combine_surrogates(u, l) as u32) as char),
                                        )
                                    } else {
                                        None
                                    },
                                }
                            } else {
                                None
                            }
                        } else {
                            None
                        },
                    }
                } else {
                    None
                }
            }
        } else if (c as u32) < 0x20 {
            None
        } else {
            parse_str_body(s, i + 1, acc.push(c))
        }
    }
}

pub proof fn lemma_str_body_progress(s: Seq<char>, i: int, acc: Seq<char>)
    ensures
        match parse_str_body(s, i, acc) {
            Some(r) => i < r.1 <= s.len(),
            None => true,
        },
    decreases s.len() - i,
{
    if 0 <= i < s.len() {
        let c = s[i];
        if c == '"' {
        } else if c == '\\' && i + 1 < s.len() {
            let e = s[i + 1];
            if e == 'u' {
                match hex4(s, i + 2) {
                    None => {},
                    Some(u) => if u < 0xD800 || u > 0xDFFF {
                        lemma_str_body_progress(s, i + 6, acc.push((u as u32) as char));
                    } else if u < 0xDC00 {
                        if i + 8 <= s.len() && s[i + 6] == '\\' && s[i + 7] == 'u' {
                            match hex4(s, i + 8) {
                                None => {},
                                Some(l) => if 0xDC00 <= l && l <= 0xDFFF {
                                    lemma_str_body_progress(
                                        s,
                                        i + 12,
                                        acc.push((combine_surrogates(u, l) as u32) as char),
                                    );
                                } else {
                                },
                            }
                        }
                    } else {
                    },
                }
            } else {
                lemma_str_body_progress(s, i + 2, acc.push(e));
                lemma_str_body_progress(s, i + 2, acc.push('"'));
                lemma_str_body_progress(s, i + 2, acc.push('\\'));
                lemma_str_body_progress(s, i + 2, acc.push('/'));
                lemma_str_body_progress(s, i + 2, acc.push('\u{0008}'));
                lemma_str_body_progress(s, i + 2, acc.push('\u{000C}'));
                lemma_str_body_progress(s, i + 2, acc.push('\n'));
                lemma_str_body_progress(s, i + 2, acc.push('\r'));
                lemma_str_body_progress(s, i + 2, acc.push('\t'));
            }
        } else {
            lemma_str_body_progress(s, i + 1, acc.push(c));
        }
    }
}

/// Executable hexadecimal digit value.
pub fn hex_val_exec(c: char) -> (r: Option<u32>)
    ensures
        match r {
            Some(u) => hex_val(c) == Some(u as int) && u <= 15,
            None => hex_val(c) is None,
        },
{
    let u = c as u32;
    if 48 <= u && u <= 57 {
        Some(u - 48)
    } else if 97 <= u && u <= 102 {
        Some(u - 87)
    } else if 65 <= u && u <= 70 {
        Some(u - 55)
    } else {
        None
    }
}

/// Executable read of four hexadecimal digits.
pub fn hex4_exec(t: &Vec<char>, i: usize) -> (r: Option<u32>)
    ensures
        match r {
            Some(u) => hex4(t@, i as int) == Some(u as int) && u <= 0xFFFF,
            None => hex4(t@, i as int) is None,
        },
{
    if t.len() < 4 || i > t.len() - 4 {
        return None;
    }
    let a = match hex_val_exec(t[i]) {
        Some(x) => x,
        None => {
            return None;
        },
    };
    let b = match hex_val_exec(t[i + 1]) {
        Some(x) => x,
        None => {
            return None;
        },
    };
    let c = match hex_val_exec(t[i + 2]) {
        Some(x) => x,
        None => {
            return None;
        },
    };
    let d = match hex_val_exec(t[i + 3]) {
        Some(x) => x,
        None => {
            return None;
        },
    };
    Some(a * 4096 + b * 256 + c * 16 + d)
}

/// Executable string-body parse: the decoded contents and the index just
/// past the closing quote.
#[verifier::rlimit(60)]
pub fn parse_string_body(t: &Vec<char>, i: usize) -> (r: Option<(String, usize)>)
    requires
        i <= t.len(),
    ensures
        match r {
            Some(p) => parse_str_body(t@, i as int, Seq::<char>::empty()) == Some(
                (p.0@, p.1 as int),
            ) && i < p.1 <= t.len(),
            None => parse_str_body(t@, i as int, Seq::<char>::empty()) is None,
        },
{
    broadcast use vstd::utf8::char_u32_cast;

    let mut out = String::new();
    let mut j = i;
    loop
        invariant
            i <= j <= t.len(),
            parse_str_body(t@, i as int, Seq::<char>::empty()) == parse_str_body(
                t@,
                j as int,
                out@,
            ),
        decreases t.len() - j,
    {
        if j >= t.len() {
            return None;
        }
        let c = t[j];
        if c == '"' {
            proof {
                lemma_str_body_progress(t@, i as int, Seq::<char>::empty());
            }
            return Some((out, j + 1));
        } else if c == '\\' {
            if j + 1 >= t.len() {
                return None;
            }
            let e = t[j + 1];
            if e == 'u' {
                let u = match hex4_exec(t, j + 2) {
                    Some(u) => u,
                    None => {
                        return None;
                    },
                };
                if u < 0xD800 || u > 0xDFFF {
                    let c2 = match crate::text::char_from_u32(u) {
                        Some(c2) => c2,
                        None => {
                            proof {
                                assert(false);
                            }
                            return None;
                        },
                    };
                    let ghost out0 = out@;
                    crate::text::push_char(&mut out, c2);
                    proof {
                        vstd::utf8::char_u32_cast(c2, u);
                        assert(c2 == (u as u32) as char);
                        assert(out@ == out0.push((u as u32) as char));
                    }
                    j = j + 2 + 4;
                } else if u < 0xDC00 {
                    if t.len() < 8 || j > t.len() - 8 {
                        return None;
                    }
                    if !(t[j + 6] == '\\' && t[j + 7] == 'u') {
                        return None;
                    }
                    let l = match hex4_exec(t, j + 8) {
                        Some(l) => l,
                        None => {
                            return None;
                        },
                    };
                    if !(0xDC00 <= l && l <= 0xDFFF) {
                        return None;
                    }
                    let comb: u32 = 0x10000 + (u - 0xD800) * 0x400 + (l - 0xDC00);
                    let c2 = match crate::text::char_from_u32(comb) {
                        Some(c2) => c2,
                        None => {
                            proof {
                                assert(false);
                            }
                            return None;
                        },
                    };
                    let ghost out0 = out@;
                    crate::text::push_char(&mut out, c2);
                    proof {
                        vstd::utf8::char_u32_cast(c2, comb);
                        assert(comb as int == combine_surrogates(u as int, l as int));
                        assert(c2 == (comb as u32) as char);
                        assert(out@ == out0.push((combine_surrogates(u as int, l as int) as u32) as char));
                    }
                    j = j + 2 + 10;
                } else {
                    return None;
                }
            } else {
                let dec: Option<char> = if e == '"' {
                    Some('"')
                } else if e == '\\' {
                    Some('\\')
                } else if e == '/' {
                    Some('/')
                } else if e == 'b' {
                    Some('\u{0008}')
                } else if e == 'f' {
                    Some('\u{000C}')
                } else if e == 'n' {
                    Some('\n')
                } else if e == 'r' {
                    Some('\r')
                } else if e == 't' {
                    Some('\t')
                } else {
                    None
                };
                match dec {
                    Some(d) => {
                        let ghost out0 = out@;
                        crate::text::push_char(&mut out, d);
                        proof {
                            assert(out@ == out0.push(d));
                        }
                        j = j + 2;
                    },
                    None => {
                        return None;
                    },
                }
            }
        } else if (c as u32) < 0x20 {
            return None;
        } else {
            let ghost out0 = out@;
            crate::text::push_char(&mut out, c);
            proof {
                assert(out@ == out0.push(c));
            }
            j = j + 1;
        }
    }
}

/// The next parse position: strictly past `i` and at most `len`. In every
/// reachable parse the candidate `j` already lies in that range.
pub open spec fn next_pos(i: int, j: int, len: int) -> int {
    if j <= i {
        i + 1
    } else if j > len {
        len
    } else {
        j
    }
}

/// A value starting at `i`: an object, array, string, number, or one of the
/// literals `true`, `false`, `null`. `d` bounds the nesting depth.
pub open spec fn parse_value_at(s: Seq<char>, i: int, d: nat) -> Option<(JsonV, int)>
    decreases d, s.len() - i, 0int,
{
    if !(0 <= i < s.len()) {
        None
    } else if d == 0 {
        None
    } else {
        let c = s[i];
        if c == '{' {
            let j = ws_end(s, i + 1);
            if 0 <= j < s.len() && s[j] == '}' {
                Some((JsonV::Obj(Seq::empty()), j + 1))
            } else {
                parse_members(s, j, (d - 1) as nat, Seq::empty())
            }
        } else if c == '[' {
            let j = ws_end(s, i + 1);
            if 0 <= j < s.len() && s[j] == ']' {
                Some((JsonV::Arr(Seq::empty()), j + 1))
            } else {
                parse_items(s, j, (d - 1) as nat, Seq::empty())
            }
        } else if c == '"' {
            match parse_str_body(s, i + 1, Seq::empty()) {
                None => None,
                Some(r) => Some((JsonV::Str(r.0), r.1)),
            }
        } else if c == 't' {
            if i + 4 <= s.len() && s[i + 1] == 'r' && s[i + 2] == 'u' && s[i + 3] == 'e' {
                Some((JsonV::Bool(true), i + 4))
            } else {
                None
            }
        } else if c == 'f' {
            if i + 5 <= s.len() && s[i + 1] == 'a' && s[i + 2] == 'l' && s[i + 3] == 's' && s[i
                + 4] == 'e' {
                Some((JsonV::Bool(false), i + 5))
            } else {
                None
            }
        } else if c == 'n' {
            if i + 4 <= s.len() && s[i + 1] == 'u' && s[i + 2] == 'l' && s[i + 3] == 'l' {
                Some((JsonV::Null, i + 4))
            } else {
                None
            }
        } else if c == '-' || is_digit(c) {
            match parse_number_at(s, i) {
                None => None,
                Some(r) => Some((JsonV::Num { m: r.0.0, s: r.0.1 }, r.1)),
            }
        } else {
            None
        }
    }
}

/// Array elements from the position of the first element, accumulating onto
/// `acc`, up to and including the closing bracket.
pub open spec fn parse_items(s: Seq<char>, i: int, d: nat, acc: Seq<JsonV>) -> Option<
    (JsonV, int),
>
    decreases d, s.len() - i, 1int,
{
    if !(0 <= i < s.len()) {
        None
    } else {
        match parse_value_at(s, i, d) {
        None => None,
        Some(r) => {
            let k = ws_end(s, r.1);
            let acc2 = acc.push(r.0);
            if 0 <= k < s.len() && s[k] == ',' {
                parse_items(s, next_pos(i, ws_end(s, k + 1), s.len() as int), d, acc2)
            } else if 0 <= k < s.len() && s[k] == ']' {
                Some((JsonV::Arr(acc2), k + 1))
            } else {
                None
            }
        },
        }
    }
}

/// Object members from the position of the first key, accumulating onto
/// `acc` with replacement of repeated keys, up to and including the closing
/// brace.
pub open spec fn parse_members(
    s: Seq<char>,
    i: int,
    d: nat,
    acc: Seq<(Seq<char>, JsonV)>,
) -> Option<(JsonV, int)>
    decreases d, s.len() - i, 1int,
{
    if !(0 <= i < s.len() && s[i] == '"') {
        None
    } else {
        match parse_str_body(s, i + 1, Seq::<char>::empty()) {
            None => None,
            Some(kr) => {
                let k = ws_end(s, kr.1);
                if !(0 <= k < s.len() && s[k] == ':') {
                    None
                } else {
                    let vp = next_pos(i, ws_end(s, k + 1), s.len() as int);
                    match parse_value_at(s, vp, d) {
                        None => None,
                        Some(vr) => {
                            let acc2 = crate::json::obj_set_v(acc, kr.0, vr.0);
                            let k2 = ws_end(s, vr.1);
                            if 0 <= k2 < s.len() && s[k2] == ',' {
                                parse_members(
                                    s,
                                    next_pos(i, ws_end(s, k2 + 1), s.len() as int),
                                    d,
                                    acc2,
                                )
                            } else if 0 <= k2 < s.len() && s[k2] == '}' {
                                Some((JsonV::Obj(acc2), k2 + 1))
                            } else {
                                None
                            }
                        },
                    }
                }
            }
        }
    }
}

/// A whole document: one value surrounded by whitespace.
pub open spec fn parse_json_spec(s: Seq<char>) -> Option<JsonV> {
    match parse_value_at(s, ws_end(s, 0), MAX_DEPTH as nat) {
        None => None,
        Some(r) => if ws_end(s, r.1) == s.len() {
            Some(r.0)
        } else {
            None
        },
    }
}

/// Member update keeps keys distinct and values well-formed.

pub proof fn lemma_obj_set_wf(ms: Seq<(Seq<char>, JsonV)>, k: Seq<char>, v: JsonV)
    requires
        crate::json::wf(JsonV::Obj(ms)),
        crate::json::wf(v),
    ensures
        crate::json::wf(JsonV::Obj(crate::json::obj_set_v(ms, k, v))),
{
    crate::json::lemma_wf_obj_elim(ms);
    crate::json::lemma_key_index_bounds(ms, k, 0);
    let j = crate::json::key_index(ms, k);
    let r = crate::json::obj_set_v(ms, k, v);
    if j < ms.len() {
        assert(ms[j].0 == k);
        assert(r == ms.update(j, (k, v)));
        assert forall|x: int| 0 <= x < r.len() implies crate::json::wf(#[trigger] r[x].1) by {
            if x == j {
                assert(r[x] == (k, v));
            } else {
                assert(r[x] == ms[x]);
            }
        }
        assert forall|x: int, y: int| 0 <= x < y < r.len() implies r[x].0 != r[y].0 by {
            if x == j {
                assert(r[x].0 == k);
            } else {
                assert(r[x] == ms[x]);
            }
            if y == j {
                assert(r[y].0 == k);
            } else {
                assert(r[y] == ms[y]);
            }
            assert(r[x].0 == ms[x].0);
            assert(r[y].0 == ms[y].0);
        }
    } else {
        assert(r == ms.push((k, v)));
        assert forall|x: int| 0 <= x < r.len() implies crate::json::wf(#[trigger] r[x].1) by {
            if x < ms.len() {
                assert(r[x] == ms[x]);
            } else {
                assert(r[x] == (k, v));
            }
        }
        assert forall|x: int, y: int| 0 <= x < y < r.len() implies r[x].0 != r[y].0 by {
            if y < ms.len() {
                assert(r[x] == ms[x] && r[y] == ms[y]);
            } else {
                assert(r[y] == (k, v));
                assert(r[x] == ms[x]);
                assert(ms[x].0 != k);
            }
        }
    }
    crate::json::lemma_wf_obj_intro(r);
}

/// Member update on the executable representation.
pub fn obj_set(ms: &mut Vec<(String, Json)>, key: String, v: Json)
    ensures
        crate::json::obj_view(final(ms)@) == crate::json::obj_set_v(
            crate::json::obj_view(old(ms)@),
            key@,
            v@,
        ),
{
    let ghost msv = crate::json::obj_view(ms@);
    let mut i: usize = 0;
    while i < ms.len()
        invariant
            0 <= i <= ms.len(),
            ms@ == old(ms)@,
            msv == crate::json::obj_view(ms@),
            crate::json::key_index_from(msv, key@, 0) == crate::json::key_index_from(
                msv,
                key@,
                i as int,
            ),
        decreases ms.len() - i,
    {
        if crate::text::str_eq(ms[i].0.as_str(), key.as_str()) {
            assert(crate::json::key_index_from(msv, key@, i as int) == i);
            let ghost kv = (key@, v@);
            let ghost s0 = ms@;
            let ghost pair = (key, v);
            ms.remove(i);
            let ghost s1 = ms@;
            ms.insert(i, (key, v));
            proof {
                assert(s1 == s0.remove(i as int));
                assert(ms@ == s1.insert(i as int, pair));
                vstd::seq_lib::lemma_update_is_remove_insert(s0, i as int, pair);
                assert(ms@ =~= s0.update(i as int, pair));
                assert(crate::json::obj_view(ms@) =~= msv.update(i as int, kv));
                assert(crate::json::obj_view(ms@) =~= crate::json::obj_set_v(msv, kv.0, kv.1));
            }
            return ;
        }
        assert(crate::json::key_index_from(msv, key@, i as int) == crate::json::key_index_from(
            msv,
            key@,
            i + 1,
        ));
        i = i + 1;
    }
    assert(crate::json::key_index_from(msv, key@, i as int) == msv.len());
    let ghost kv = (key@, v@);
    ms.push((key, v));
    proof {
        assert(crate::json::obj_view(ms@) =~= msv.push(kv));
        assert(crate::json::obj_view(ms@) =~= crate::json::obj_set_v(msv, kv.0, kv.1));
    }
}

/// Executable value parse: the parsed value is well-formed and the result
/// index lies strictly past `i`.
#[verifier::loop_isolation(false)]
#[verifier::rlimit(80)]
pub fn parse_value(t: &Vec<char>, i: usize, d: u32) -> (r: Option<(Json, usize)>)
    requires
        i <= t.len(),
    ensures
        match r {
            Some(p) => {
                &&& parse_value_at(t@, i as int, d as nat) == Some((p.0@, p.1 as int))
                &&& i < p.1 <= t.len()
                &&& crate::json::wf(p.0@)
            },
            None => parse_value_at(t@, i as int, d as nat) is None,
        },
    decreases d, t.len() - i, 0int,
{
    if i >= t.len() || d == 0 {
        return None;
    }
    let c = t[i];
    if c == '{' {
        let j = skip_ws(t, i + 1);
        if j < t.len() && t[j] == '}' {
            let mv: Vec<(String, Json)> = Vec::new();
            proof {
                assert(mv@.len() == 0);
                assert(crate::json::obj_view(mv@) =~= Seq::<(Seq<char>, JsonV)>::empty());
            }
            let r = Json::Obj(mv);
            proof {
                assert(r@ == JsonV::Obj(crate::json::obj_view(mv@)));
                assert(r@ =~= JsonV::Obj(Seq::empty()));
            }
            Some((r, j + 1))
        } else {
            parse_obj_body(t, j, i, d - 1)
        }
    } else if c == '[' {
        let j = skip_ws(t, i + 1);
        if j < t.len() && t[j] == ']' {
            let av: Vec<Json> = Vec::new();
            proof {
                assert(av@.len() == 0);
                assert(crate::json::arr_view(av@) =~= Seq::<JsonV>::empty());
            }
            let r = Json::Arr(av);
            proof {
                assert(r@ == JsonV::Arr(crate::json::arr_view(av@)));
                assert(r@ =~= JsonV::Arr(Seq::empty()));
            }
            Some((r, j + 1))
        } else {
            parse_arr_body(t, j, i, d - 1)
        }
    } else if c == '"' {
        match parse_string_body(t, i + 1) {
            None => None,
            Some((st, j)) => Some((Json::Str(st), j)),
        }
    } else if c == 't' {
        if t.len() - i >= 4 && t[i + 1] == 'r' && t[i + 2] == 'u' && t[i + 3] == 'e' {
            Some((Json::Bool(true), i + 4))
        } else {
            None
        }
    } else if c == 'f' {
        if t.len() - i >= 5 && t[i + 1] == 'a' && t[i + 2] == 'l' && t[i + 3] == 's' && t[i + 4]
            == 'e' {
            Some((Json::Bool(false), i + 5))
        } else {
            None
        }
    } else if c == 'n' {
        if t.len() - i >= 4 && t[i + 1] == 'u' && t[i + 2] == 'l' && t[i + 3] == 'l' {
            Some((Json::Null, i + 4))
        } else {
            None
        }
    } else if c == '-' || is_digit_char(c) {
        match parse_number(t, i) {
            None => None,
            Some((n, j)) => Some((Json::Num(n), j)),
        }
    } else {
        None
    }
}

/// Array elements; `i` is the position of the first element, `start` the
/// position of the opening bracket.
#[verifier::loop_isolation(false)]
#[verifier::rlimit(80)]
pub fn parse_arr_body(t: &Vec<char>, i: usize, start: usize, d: u32) -> (r: Option<
    (Json, usize),
>)
    requires
        i <= t.len(),
        start < t.len(),
        start < i,
    ensures
        match r {
            Some(p) => {
                &&& parse_items(t@, i as int, d as nat, Seq::<JsonV>::empty()) == Some(
                    (p.0@, p.1 as int),
                )
                &&& start < p.1 <= t.len()
                &&& crate::json::wf(p.0@)
            },
            None => parse_items(t@, i as int, d as nat, Seq::<JsonV>::empty()) is None,
        },
    decreases d, t.len() - i, 1int,
{
    let mut acc: Vec<Json> = Vec::new();
    let mut cur = i;
    let ghost full = parse_items(t@, i as int, d as nat, Seq::<JsonV>::empty());
    proof {
        assert(crate::json::arr_view(acc@) =~= Seq::<JsonV>::empty());
    }
    loop
        invariant
            i <= cur <= t.len(),
            full == parse_items(t@, cur as int, d as nat, crate::json::arr_view(acc@)),
            forall|x: int| 0 <= x < acc@.len() ==> crate::json::wf(#[trigger] acc@[x]@),
        decreases t.len() - cur,
    {
        let (v, j) = match parse_value(t, cur, d) {
            None => {
                return None;
            },
            Some(p) => p,
        };
        let ghost acc0 = crate::json::arr_view(acc@);
        acc.push(v);
        proof {
            assert(crate::json::arr_view(acc@) =~= acc0.push(v@));
        }
        let k = skip_ws(t, j);
        if k < t.len() && t[k] == ',' {
            let nxt = skip_ws(t, k + 1);
            proof {
                assert(next_pos(cur as int, nxt as int, t@.len() as int) == nxt as int);
            }
            cur = nxt;
        } else if k < t.len() && t[k] == ']' {
            let out = Json::Arr(acc);
            proof {
                assert(out@ is Arr);
                assert forall|x: int|
                    0 <= x < out@->Arr_0.len() implies crate::json::wf(
                    #[trigger] out@->Arr_0[x],
                ) by {
                    assert(out@->Arr_0[x] == acc@[x]@);
                }
                assert(crate::json::wf(out@));
            }
            return Some((out, k + 1));
        } else {
            return None;
        }
    }
}

/// Object members; `i` is the position of the first key, `start` the
/// position of the opening brace.
#[verifier::loop_isolation(false)]
#[verifier::rlimit(80)]
pub fn parse_obj_body(t: &Vec<char>, i: usize, start: usize, d: u32) -> (r: Option<
    (Json, usize),
>)
    requires
        i <= t.len(),
        start < t.len(),
        start < i,
    ensures
        match r {
            Some(p) => {
                &&& parse_members(t@, i as int, d as nat, Seq::<(Seq<char>, JsonV)>::empty())
                    == Some((p.0@, p.1 as int))
                &&& start < p.1 <= t.len()
                &&& crate::json::wf(p.0@)
            },
            None => parse_members(
                t@,
                i as int,
                d as nat,
                Seq::<(Seq<char>, JsonV)>::empty(),
            ) is None,
        },
    decreases d, t.len() - i, 1int,
{
    let mut acc: Vec<(String, Json)> = Vec::new();
    let mut cur = i;
    let ghost full = parse_members(t@, i as int, d as nat, Seq::<(Seq<char>, JsonV)>::empty());
    proof {
        assert(crate::json::obj_view(acc@) =~= Seq::<(Seq<char>, JsonV)>::empty());
    }
    loop
        invariant
            i <= cur <= t.len(),
            full == parse_members(t@, cur as int, d as nat, crate::json::obj_view(acc@)),
            crate::json::wf(JsonV::Obj(crate::json::obj_view(acc@))),
        decreases t.len() - cur,
    {
        if !(cur < t.len() && t[cur] == '"') {
            return None;
        }
        let (key, jk) = match parse_string_body(t, cur + 1) {
            None => {
                return None;
            },
            Some(p) => p,
        };
        let k = skip_ws(t, jk);
        if !(k < t.len() && t[k] == ':') {
            return None;
        }
        let vp = skip_ws(t, k + 1);
        proof {
            assert(next_pos(cur as int, ws_end(t@, k as int + 1), t@.len() as int) == vp as int);
        }
        let (v, jv) = match parse_value(t, vp, d) {
            None => {
                return None;
            },
            Some(p) => p,
        };
        let ghost acc0 = crate::json::obj_view(acc@);
        proof {
            lemma_obj_set_wf(acc0, key@, v@);
        }
        obj_set(&mut acc, key, v);
        let k2 = skip_ws(t, jv);
        if k2 < t.len() && t[k2] == ',' {
            let nxt = skip_ws(t, k2 + 1);
            proof {
                assert(next_pos(cur as int, nxt as int, t@.len() as int) == nxt as int);
            }
            cur = nxt;
        } else if k2 < t.len() && t[k2] == '}' {
            let out = Json::Obj(acc);
            return Some((out, k2 + 1));
        } else {
            return None;
        }
    }
}

/// Parses a whole document. The result is exactly what the specification
/// parser yields, and every parsed value is well-formed.
pub fn parse_json(text: &str) -> (r: Option<Json>)
    ensures
        match r {
            Some(v) => parse_json_spec(text@) == Some(v@) && crate::json::wf(v@),
            None => parse_json_spec(text@) is None,
        },
{
    let t = crate::text::str_to_chars(text);
    let start = skip_ws(&t, 0);
    match parse_value(&t, start, MAX_DEPTH) {
        None => None,
        Some((v, j)) => {
            let e = skip_ws(&t, j);
            if e == t.len() {
                Some(v)
            } else {
                None
            }
        },
    }
}

} // verus!
