//! Reading numbers and lists out of the text that git and tmux print.

use vstd::prelude::*;
use crate::text::chars_of;

verus! {

/// An ASCII decimal digit.
pub open spec fn is_ascii_digit(c: char) -> bool {
    '0' <= c && c <= '9'
}

/// The value of an ASCII decimal digit.
pub open spec fn digit_value(c: char) -> int {
    (c as int) - ('0' as int)
}

/// Every character of `s` is an ASCII decimal digit.
pub open spec fn all_digits(s: Seq<char>) -> bool {
    forall|i: int| 0 <= i < s.len() ==> is_ascii_digit(#[trigger] s[i])
}

/// The number written by the decimal digits `s` (0 for no digit).
pub open spec fn digits_value(s: Seq<char>) -> int
    decreases s.len(),
{
    if s.len() == 0 {
        0
    } else {
        10 * digits_value(s.drop_last()) + digit_value(s.last())
    }
}

/// Whether `s` starts with a sign that an integer parser takes: `+`, or `-`
/// for a signed type.
pub open spec fn has_sign(s: Seq<char>, signed: bool) -> bool {
    s.len() > 0 && (s[0] == '+' || (signed && s[0] == '-'))
}

/// What `str::parse` gives for an integer type whose values are `lo..=hi`:
/// an optional sign, then one or more ASCII digits whose value lies in the
/// range; anything else (the empty text, a lone sign, a space, an
/// overflowing value) is refused.
pub open spec fn parse_int_spec(s: Seq<char>, signed: bool, lo: int, hi: int) -> Option<int> {
    let body = if has_sign(s, signed) {
        s.drop_first()
    } else {
        s
    };
    let v = if has_sign(s, signed) && s[0] == '-' {
        -digits_value(body)
    } else {
        digits_value(body)
    };
    if body.len() == 0 || !all_digits(body) || v < lo || v > hi {
        None
    } else {
        Some(v)
    }
}

/// `s.parse::<i32>()`.
pub open spec fn parse_i32_spec(s: Seq<char>) -> Option<i32> {
    match parse_int_spec(s, true, i32::MIN as int, i32::MAX as int) {
        Some(v) => Some(v as i32),
        None => None,
    }
}

/// `s.parse::<usize>()`.
pub open spec fn parse_usize_spec(s: Seq<char>) -> Option<usize> {
    match parse_int_spec(s, false, 0, usize::MAX as int) {
        Some(v) => Some(v as usize),
        None => None,
    }
}

/// A number written in digits is never negative.
proof fn lemma_digits_value_nonneg(s: Seq<char>)
    requires
        all_digits(s),
    ensures
        digits_value(s) >= 0,
    decreases s.len(),
{
    if s.len() > 0 {
        lemma_digits_value_nonneg(s.drop_last());
        assert(is_ascii_digit(s[s.len() - 1]));
    }
}

/// Writing more digits never makes the number smaller.
proof fn lemma_digits_value_prefix(s: Seq<char>, k: int)
    requires
        all_digits(s),
        0 <= k <= s.len(),
    ensures
        digits_value(s.subrange(0, k)) <= digits_value(s),
    decreases s.len(),
{
    if k < s.len() {
        let t = s.drop_last();
        assert(all_digits(t)) by {
            assert forall|i: int| 0 <= i < t.len() implies is_ascii_digit(#[trigger] t[i]) by {
                assert(t[i] == s[i]);
            }
        }
        assert(t.subrange(0, k) =~= s.subrange(0, k));
        lemma_digits_value_prefix(t, k);
        lemma_digits_value_nonneg(t);
        assert(is_ascii_digit(s[s.len() - 1]));
    } else {
        assert(s.subrange(0, k) =~= s);
    }
}

/// The value of the digits `v[start..]`, if there is at least one, all are
/// ASCII digits and the value is at most `bound`.
fn parse_digits(v: &Vec<char>, start: usize, bound: u64) -> (r: Option<u64>)
    requires
        start <= v@.len(),
        bound >= 9,
    ensures
        r == (if start < v@.len() && all_digits(v@.skip(start as int)) && digits_value(
            v@.skip(start as int),
        ) <= bound {
            Some(digits_value(v@.skip(start as int)) as u64)
        } else {
            None::<u64>
        }),
{
    let ghost body = v@.skip(start as int);
    if start == v.len() {
        return None;
    }
    let mut acc: u64 = 0;
    let mut i = start;
    while i < v.len()
        invariant
            start <= i <= v@.len(),
            body == v@.skip(start as int),
            all_digits(body.subrange(0, i - start)),
            acc as int == digits_value(body.subrange(0, i - start)),
            acc <= bound,
            bound >= 9,
        decreases v@.len() - i,
    {
        let c = v[i];
        let ghost pre = body.subrange(0, i - start);
        let ghost next = body.subrange(0, i - start + 1);
        assert(next.drop_last() =~= pre);
        assert(next.last() == c);
        if !('0' <= c && c <= '9') {
            assert(body[i - start] == c);
            return None;
        }
        let d = (c as u32 - '0' as u32) as u64;
        assert(d as int == digit_value(c));
        assert(all_digits(next)) by {
            assert forall|j: int| 0 <= j < next.len() implies is_ascii_digit(#[trigger] next[j]) by {
                if j < next.len() - 1 {
                    assert(next[j] == pre[j]);
                }
            }
        }
        if acc > (bound - d) / 10 {
            proof {
                assert(acc * 10 + d > bound) by (nonlinear_arith)
                    requires
                        acc > (bound - d) / 10,
                        d <= 9,
                        bound >= 9,
                ;
                if all_digits(body) {
                    lemma_digits_value_prefix(body, i - start + 1);
                }
            }
            return None;
        }
        assert(acc * 10 + d <= bound) by (nonlinear_arith)
            requires
                acc <= (bound - d) / 10,
                d <= 9,
                bound >= 9,
        ;
        acc = acc * 10 + d;
        i = i + 1;
    }
    assert(body.subrange(0, i - start) =~= body);
    Some(acc)
}

/// Parses a decimal `i32` the way `str::parse::<i32>` does.
pub fn parse_i32(s: &str) -> (r: Option<i32>)
    ensures
        r == parse_i32_spec(s@),
{
    let v = chars_of(s);
    if v.len() == 0 {
        return None;
    }
    let c0 = v[0];
    let signed = c0 == '+' || c0 == '-';
    let neg = c0 == '-';
    let start: usize = if signed {
        1
    } else {
        0
    };
    let bound: u64 = if neg {
        2147483648
    } else {
        2147483647
    };
    let r = parse_digits(&v, start, bound);
    proof {
        let body = v@.skip(start as int);
        if signed {
            assert(body =~= s@.drop_first());
        } else {
            assert(body =~= s@);
        }
        if all_digits(body) {
            lemma_digits_value_nonneg(body);
        }
    }
    match r {
        None => None,
        Some(m) => {
            if neg {
                Some((0 - (m as i64)) as i32)
            } else {
                Some(m as i32)
            }
        },
    }
}

/// Parses a decimal `usize` the way `str::parse::<usize>` does.
pub fn parse_usize(s: &str) -> (r: Option<usize>)
    ensures
        r == parse_usize_spec(s@),
{
    let v = chars_of(s);
    if v.len() == 0 {
        return None;
    }
    let start: usize = if v[0] == '+' {
        1
    } else {
        0
    };
    let bound: u64 = usize::MAX as u64;
    let r = parse_digits(&v, start, bound);
    proof {
        let body = v@.skip(start as int);
        if start == 1 {
            assert(body =~= s@.drop_first());
        } else {
            assert(body =~= s@);
        }
        if all_digits(body) {
            lemma_digits_value_nonneg(body);
        }
    }
    match r {
        None => None,
        Some(m) => Some(m as usize),
    }
}

/// The ASCII digit for a value below ten.
pub open spec fn digit_char(d: int) -> char {
    (d + ('0' as int)) as char
}

/// The decimal digits of a natural number, without leading zeros.
pub open spec fn digits_of(n: nat) -> Seq<char>
    decreases n,
{
    if n < 10 {
        seq![digit_char(n as int)]
    } else {
        digits_of(n / 10).push(digit_char((n % 10) as int))
    }
}

/// How `printf '%d'` writes an integer: a `-` for a negative one, then the
/// digits of its magnitude.
pub open spec fn decimal_spec(n: int) -> Seq<char> {
    if n < 0 {
        seq!['-'] + digits_of((-n) as nat)
    } else {
        digits_of(n as nat)
    }
}

/// The digits of `n` are ASCII digits, at least one, and read back as `n`.
pub proof fn lemma_digits_of(n: nat)
    ensures
        digits_of(n).len() >= 1,
        all_digits(digits_of(n)),
        digits_value(digits_of(n)) == n,
    decreases n,
{
    if n < 10 {
        let s = digits_of(n);
        assert(s.drop_last() =~= Seq::<char>::empty());
        assert(digit_value(digit_char(n as int)) == n);
        assert(digits_value(s) == 10 * digits_value(s.drop_last()) + digit_value(s.last()));
        assert(is_ascii_digit(s[0]));
    } else {
        lemma_digits_of(n / 10);
        let s = digits_of(n);
        let p = digits_of(n / 10);
        assert(s.drop_last() =~= p);
        let d = (n % 10) as int;
        assert(digit_value(digit_char(d)) == d);
        assert(n == 10 * (n / 10) + n % 10) by (nonlinear_arith);
        assert(s.last() == digit_char(d));
        assert(digits_value(s) == 10 * digits_value(p) + digit_value(s.last()));
        assert forall|i: int| 0 <= i < s.len() implies is_ascii_digit(#[trigger] s[i]) by {
            if i < p.len() {
                assert(s[i] == p[i]);
            }
        }
    }
}

/// Reading back what `printf '%d'` wrote for an `i32` gives the same
/// number: `s.parse::<i32>()` undoes the decimal writing.
pub proof fn law_parse_i32_reads_decimal(n: i32)
    ensures
        parse_i32_spec(decimal_spec(n as int)) == Some(n),
{
    let s = decimal_spec(n as int);
    if n < 0 {
        let m = (-(n as int)) as nat;
        lemma_digits_of(m);
        assert(has_sign(s, true));
        assert(s.drop_first() =~= digits_of(m));
    } else {
        lemma_digits_of(n as nat);
        let d = digits_of(n as nat);
        assert(is_ascii_digit(d[0]));
        assert(!has_sign(s, true));
    }
}

} // verus!
