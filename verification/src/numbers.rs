//! Reading integers and checking float text, as `str::parse` does for
//! `u64`, `i64` and `f64`.

use crate::text::{ascii_digit, is_ascii_digit, lowercase_ascii, lowercase_chars};
use vstd::prelude::*;

verus! {

/// Every character is an ASCII digit.
pub open spec fn all_digits(s: Seq<char>) -> bool {
    forall|i: int| 0 <= i < s.len() ==> #[trigger] is_ascii_digit(s[i])
}

/// The value of a run of decimal digits.
pub open spec fn digits_value(s: Seq<char>) -> nat
    decreases s.len(),
{
    if s.len() == 0 {
        0
    } else {
        digits_value(s.drop_last()) * 10 + (s.last() as nat - '0' as nat) as nat
    }
}

/// The digits after an optional leading sign; `signs` says which signs are allowed.
pub open spec fn unsigned_body(s: Seq<char>, minus_allowed: bool) -> Seq<char> {
    if s.len() > 0 && (s[0] == '+' || (minus_allowed && s[0] == '-')) {
        s.drop_first()
    } else {
        s
    }
}

/// `u64::from_str`: an optional `+`, then one or more digits whose value fits.
pub open spec fn spec_parse_u64(s: Seq<char>) -> Option<u64> {
    let body = unsigned_body(s, false);
    if body.len() > 0 && all_digits(body) && digits_value(body) <= u64::MAX {
        Some(digits_value(body) as u64)
    } else {
        None
    }
}

/// `i64::from_str`: an optional `+` or `-`, then one or more digits whose
/// signed value fits.
pub open spec fn spec_parse_i64(s: Seq<char>) -> Option<i64> {
    let negative = s.len() > 0 && s[0] == '-';
    let body = unsigned_body(s, true);
    if body.len() > 0 && all_digits(body) {
        let v = digits_value(body) as int;
        if negative {
            if -v >= i64::MIN {
                Some((-v) as i64)
            } else {
                None
            }
        } else if v <= i64::MAX {
            Some(v as i64)
        } else {
            None
        }
    } else {
        None
    }
}

proof fn lemma_digits_value_step(s: Seq<char>, i: int)
    requires
        0 <= i < s.len(),
    ensures
        digits_value(s.subrange(0, i + 1)) == digits_value(s.subrange(0, i)) * 10 + (s[i] as nat - '0' as nat) as nat,
{
    assert(s.subrange(0, i + 1).drop_last() =~= s.subrange(0, i));
}

proof fn lemma_digits_value_monotone(s: Seq<char>, i: int)
    requires
        0 <= i <= s.len(),
        all_digits(s),
    ensures
        digits_value(s.subrange(0, i)) <= digits_value(s),
    decreases s.len() - i,
{
    if i < s.len() {
        lemma_digits_value_monotone(s, i + 1);
        lemma_digits_value_step(s, i);
        assert(is_ascii_digit(s[i]));
    } else {
        assert(s.subrange(0, i) =~= s);
    }
}

/// The value of the digits `s[from..]`, if all are digits and the value is at most `limit`.
fn digits_up_to(s: &[char], from: usize, limit: u64) -> (r: Option<u64>)
    requires
        from <= s@.len(),
    ensures
        ({
            let body = s@.skip(from as int);
            match r {
                Some(v) => body.len() > 0 && all_digits(body) && digits_value(body) == v && v <= limit,
                None => !(body.len() > 0 && all_digits(body) && digits_value(body) <= limit),
            }
        }),
{
    let ghost body = s@.skip(from as int);
    let n = s.len();
    if from == n {
        return None;
    }
    let mut value: u64 = 0;
    let mut i = from;
    while i < n
        invariant
            from <= i <= n == s@.len(),
            body == s@.skip(from as int),
            forall|k: int| from <= k < i ==> #[trigger] is_ascii_digit(s@[k]),
            value == digits_value(body.subrange(0, i - from)),
            value <= limit,
        decreases n - i,
    {
        let c = s[i];
        if !ascii_digit(c) {
            proof {
                assert(!is_ascii_digit(body[i - from]));
            }
            return None;
        }
        let d: u64 = (c as u32 - '0' as u32) as u64;
        proof {
            lemma_digits_value_step(body, i - from);
        }
        if d > limit || value > (limit - d) / 10 {
            proof {
                assert(value * 10 + d > limit) by (nonlinear_arith)
                    requires
                        d > limit || (d <= limit && value > (limit - d) / 10),
                        d < 10,
                ;
                assert forall|k: int| 0 <= k < i + 1 - from implies #[trigger] is_ascii_digit(body[k]) by {
                    assert(body[k] == s@[from + k]);
                }
                if all_digits(body) {
                    lemma_digits_value_monotone(body, i + 1 - from);
                }
            }
            return None;
        }
        proof {
            assert(value * 10 + d <= limit) by (nonlinear_arith)
                requires
                    d <= limit,
                    value <= (limit - d) / 10,
                    d < 10,
            ;
        }
        value = value * 10 + d;
        i = i + 1;
    }
    proof {
        assert(body.subrange(0, n - from) =~= body);
        assert forall|k: int| 0 <= k < body.len() implies #[trigger] is_ascii_digit(body[k]) by {
            assert(body[k] == s@[from + k]);
        }
    }
    Some(value)
}

/// `u64::from_str`.
pub fn parse_u64(s: &[char]) -> (r: Option<u64>)
    ensures
        r == spec_parse_u64(s@),
{
    let from: usize = if s.len() > 0 && s[0] == '+' { 1 } else { 0 };
    assert(s@.skip(from as int) =~= unsigned_body(s@, false));
    digits_up_to(s, from, u64::MAX)
}

/// `i64::from_str`.
pub fn parse_i64(s: &[char]) -> (r: Option<i64>)
    ensures
        r == spec_parse_i64(s@),
{
    let negative = s.len() > 0 && s[0] == '-';
    let from: usize = if s.len() > 0 && (s[0] == '+' || s[0] == '-') { 1 } else { 0 };
    assert(s@.skip(from as int) =~= unsigned_body(s@, true));
    if negative {
        match digits_up_to(s, from, 9223372036854775808u64) {
            Some(v) => {
                if v == 9223372036854775808u64 {
                    Some(i64::MIN)
                } else {
                    Some(-(v as i64))
                }
            },
            None => None,
        }
    } else {
        match digits_up_to(s, from, 9223372036854775807u64) {
            Some(v) => Some(v as i64),
            None => None,
        }
    }
}

/// The position after the run of digits in `s` starting at `i`.
pub open spec fn digit_run_end(s: Seq<char>, i: int) -> int
    decreases s.len() - i,
{
    if 0 <= i < s.len() && is_ascii_digit(s[i]) {
        digit_run_end(s, i + 1)
    } else {
        i
    }
}

/// The lowercased text is a decimal number in `f64::from_str`'s grammar:
/// digits with an optional fraction (at least one digit in all), then an
/// optional `e`, optional sign and at least one digit, and nothing else.
pub open spec fn decimal_float_body(t: Seq<char>) -> bool {
    let i = digit_run_end(t, 0);
    let has_point = i < t.len() && t[i] == '.';
    let j = if has_point { digit_run_end(t, i + 1) } else { i };
    let mantissa = i > 0 || (has_point && j > i + 1);
    if !mantissa {
        false
    } else if j == t.len() {
        true
    } else if t[j] == 'e' {
        let k = if j + 1 < t.len() && (t[j + 1] == '+' || t[j + 1] == '-') { j + 2 } else { j + 1 };
        let m = digit_run_end(t, k);
        m > k && m == t.len()
    } else {
        false
    }
}

/// `f64::from_str` accepts the text: after lowercasing, an optional sign and
/// then `inf`, `infinity`, `nan` or a decimal number.
pub open spec fn float_text_valid(s: Seq<char>) -> bool {
    let t = lowercase_ascii(s);
    let body = if t.len() > 0 && (t[0] == '+' || t[0] == '-') { t.drop_first() } else { t };
    body == "inf"@ || body == "infinity"@ || body == "nan"@ || decimal_float_body(body)
}

fn digit_run(t: &Vec<char>, i: usize) -> (j: usize)
    requires
        i <= t@.len(),
    ensures
        j == digit_run_end(t@, i as int),
        i <= j <= t@.len(),
{
    let mut j = i;
    while j < t.len() && ascii_digit(t[j])
        invariant
            i <= j <= t@.len(),
            digit_run_end(t@, i as int) == digit_run_end(t@, j as int),
        decreases t@.len() - j,
    {
        j = j + 1;
    }
    j
}

fn equals_literal(t: &Vec<char>, from: usize, lit: &str) -> (b: bool)
    requires
        from <= t@.len(),
    ensures
        b == (t@.skip(from as int) == lit@),
{
    let l = crate::text::str_to_chars(lit);
    let rest = crate::flat_json::copy_range(t, from, t.len());
    assert(rest@ =~= t@.skip(from as int));
    crate::text::chars_equal(rest.as_slice(), l.as_slice())
}

/// Whether `f64::from_str` accepts the text.
pub fn is_float_text(s: &[char]) -> (b: bool)
    ensures
        b == float_text_valid(s@),
{
    let t = lowercase_chars(s);
    let from: usize = if t.len() > 0 && (t[0] == '+' || t[0] == '-') { 1 } else { 0 };
    let ghost body = t@.skip(from as int);
    assert(body =~= (if t@.len() > 0 && (t@[0] == '+' || t@[0] == '-') { t@.drop_first() } else { t@ }));
    if equals_literal(&t, from, "inf") || equals_literal(&t, from, "infinity") || equals_literal(&t, from, "nan") {
        return true;
    }
    // the decimal form, read over `t` from `from`
    let i = digit_run(&t, from);
    let has_point = i < t.len() && t[i] == '.';
    let j = if has_point { digit_run(&t, i + 1) } else { i };
    proof {
        assert forall|a: int| from <= a <= t@.len() implies #[trigger] digit_run_end(t@, a) == digit_run_end(body, a - from) + from by {
            lemma_digit_run_shift(t@, from as int, a);
        }
    }
    let mantissa = i > from || (has_point && j > i + 1);
    if !mantissa {
        return false;
    }
    if j == t.len() {
        return true;
    }
    if t[j] == 'e' {
        let k = if j + 1 < t.len() && (t[j + 1] == '+' || t[j + 1] == '-') { j + 2 } else { j + 1 };
        let m = digit_run(&t, k);
        return m > k && m == t.len();
    }
    false
}

proof fn lemma_digit_run_shift(t: Seq<char>, from: int, a: int)
    requires
        0 <= from <= a <= t.len(),
    ensures
        digit_run_end(t, a) == digit_run_end(t.skip(from), a - from) + from,
    decreases t.len() - a,
{
    if a < t.len() {
        assert(t.skip(from)[a - from] == t[a]);
        if is_ascii_digit(t[a]) {
            lemma_digit_run_shift(t, from, a + 1);
        }
    }
}

} // verus!
