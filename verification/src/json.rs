//! A small JSON reader for GitHub release metadata: objects, arrays,
//! strings, numbers, booleans and null. Numbers keep the text they were
//! written as, checked against the grammar that `f64::from_str` accepts.
//!
//! Reading stops after the first value; what follows it is not looked at.

use crate::flat_json::{
    char_at, copy_range, digits_end, escape_for, escaped_char, expected_text,
    lemma_number_bounds, literal_at, number_end, separator_text, spec_expect, with_debug,
};
use crate::numbers::{float_text_valid, is_float_text};
use crate::text::{
    ascii_digit, char_from_code, chars_equal, chars_to_string, debug_option_char, hex_digit,
    hex_digit_value, is_ascii_digit, is_scalar_value, is_white_space, option_char_debug, str_to_chars,
    string_push_str, white_space,
};
use vstd::prelude::*;

verus! {

/// A JSON value. A number holds the text it was written as; an object keeps
/// its entries in the order written.
#[derive(Debug, PartialEq)]
pub enum Value {
    Null,
    Bool(bool),
    Number(String),
    String(String),
    Array(Vec<Value>),
    Object(Vec<(String, Value)>),
}

pub enum ValueView {
    Null,
    Bool(bool),
    Number(Seq<char>),
    String(Seq<char>),
    Array(Seq<ValueView>),
    Object(Seq<(Seq<char>, ValueView)>),
}

pub open spec fn value_view(v: Value) -> ValueView
    decreases v,
{
    match v {
        Value::Null => ValueView::Null,
        Value::Bool(b) => ValueView::Bool(b),
        Value::Number(t) => ValueView::Number(t@),
        Value::String(t) => ValueView::String(t@),
        Value::Array(items) => ValueView::Array(items_view(items@)),
        Value::Object(entries) => ValueView::Object(members_view(entries@)),
    }
}

pub open spec fn items_view(items: Seq<Value>) -> Seq<ValueView>
    decreases items,
{
    if items.len() == 0 {
        seq![]
    } else {
        items_view(items.drop_last()).push(value_view(items.last()))
    }
}

pub open spec fn members_view(entries: Seq<(String, Value)>) -> Seq<(Seq<char>, ValueView)>
    decreases entries,
{
    if entries.len() == 0 {
        seq![]
    } else {
        members_view(entries.drop_last()).push((entries.last().0@, value_view(entries.last().1)))
    }
}

impl View for Value {
    type V = ValueView;

    open spec fn view(&self) -> ValueView {
        value_view(*self)
    }
}


// ---- the grammar, over the characters `s` and a position `p` ----

/// Skips Unicode white space (`char::is_whitespace`).
pub open spec fn ws_end(s: Seq<char>, p: int) -> int
    decreases s.len() - p,
{
    if 0 <= p < s.len() && is_white_space(s[p]) {
        ws_end(s, p + 1)
    } else {
        p
    }
}

pub proof fn lemma_ws_end_bounds(s: Seq<char>, p: int)
    ensures
        ws_end(s, p) >= p,
        p <= s.len() ==> ws_end(s, p) <= s.len(),
    decreases s.len() - p,
{
    if 0 <= p < s.len() && is_white_space(s[p]) {
        lemma_ws_end_bounds(s, p + 1);
    }
}

pub open spec fn unterminated_message() -> Seq<char> {
    "文字列が閉じられていません"@
}

pub open spec fn bad_escape_message(found: Option<char>) -> Seq<char> {
    "不正なエスケープシーケンスです: "@ + option_char_debug(found)
}

pub open spec fn incomplete_unicode_message() -> Seq<char> {
    "\\uエスケープが不完全です"@
}

/// `ParseIntError`'s text for an invalid digit.
pub open spec fn invalid_digit_message() -> Seq<char> {
    "invalid digit found in string"@
}

pub open spec fn bad_code_point_message() -> Seq<char> {
    "不正なUnicodeコードポイントです"@
}

/// The value of a run of hexadecimal digits.
pub open spec fn hex_value(h: Seq<char>) -> nat
    decreases h.len(),
{
    if h.len() == 0 {
        0
    } else {
        hex_value(h.drop_last()) * 16 + match hex_digit_value(h.last()) {
            Some(d) => d as nat,
            None => 0,
        }
    }
}

pub open spec fn all_hex(h: Seq<char>) -> bool {
    forall|i: int| 0 <= i < h.len() ==> #[trigger] hex_digit_value(h[i]) is Some
}

/// `u32::from_str_radix(h, 16)` on the four characters of a `\u` escape:
/// an optional `+`, then hexadecimal digits only.
pub open spec fn radix16(h: Seq<char>) -> Option<nat> {
    let body = if h.len() > 0 && h[0] == '+' { h.drop_first() } else { h };
    if body.len() > 0 && all_hex(body) {
        Some(hex_value(body))
    } else {
        None
    }
}

/// The character of a `\u` escape whose four characters start at `p`.
pub open spec fn spec_unicode_escape(s: Seq<char>, p: int) -> Result<char, Seq<char>> {
    if p < 0 || p + 4 > s.len() {
        Err(incomplete_unicode_message())
    } else {
        match radix16(s.subrange(p, p + 4)) {
            None => Err(invalid_digit_message()),
            Some(code) => if code <= 0xFFFF && is_scalar_value(code as u32) {
                Ok(code as char)
            } else {
                Err(bad_code_point_message())
            },
        }
    }
}

/// The rest of a string literal from `p`, with `acc` read so far.
pub open spec fn string_chars(s: Seq<char>, p: int, acc: Seq<char>) -> Result<(Seq<char>, int), Seq<char>>
    decreases s.len() - p,
{
    if p < 0 || p >= s.len() {
        Err(unterminated_message())
    } else if s[p] == '"' {
        Ok((acc, p + 1))
    } else if s[p] == '\\' {
        match char_at(s, p + 1) {
            None => Err(bad_escape_message(None)),
            Some(e) => match escaped_char(e) {
                Some(x) => string_chars(s, p + 2, acc.push(x)),
                None => if e == 'u' {
                    match spec_unicode_escape(s, p + 2) {
                        Ok(c) => string_chars(s, p + 6, acc.push(c)),
                        Err(m) => Err(m),
                    }
                } else {
                    Err(bad_escape_message(Some(e)))
                },
            },
        }
    } else {
        string_chars(s, p + 1, acc.push(s[p]))
    }
}

/// A string literal after optional white space.
pub open spec fn spec_string(s: Seq<char>, p: int) -> Result<(Seq<char>, int), Seq<char>> {
    let q = ws_end(s, p);
    match spec_expect(s, q, '"') {
        Ok(r) => string_chars(s, r, seq![]),
        Err(m) => Err(m),
    }
}

pub proof fn lemma_string_chars_advances(s: Seq<char>, p: int, acc: Seq<char>)
    ensures
        string_chars(s, p, acc) is Ok ==> p < string_chars(s, p, acc)->Ok_0.1 <= s.len(),
    decreases s.len() - p,
{
    if p < 0 || p >= s.len() {
    } else if s[p] == '"' {
    } else if s[p] == '\\' {
        match char_at(s, p + 1) {
            None => {},
            Some(e) => match escaped_char(e) {
                Some(x) => lemma_string_chars_advances(s, p + 2, acc.push(x)),
                None => if e == 'u' {
                    match spec_unicode_escape(s, p + 2) {
                        Ok(c) => lemma_string_chars_advances(s, p + 6, acc.push(c)),
                        Err(m) => {},
                    }
                },
            },
        }
    } else {
        lemma_string_chars_advances(s, p + 1, acc.push(s[p]));
    }
}

pub proof fn lemma_string_advances(s: Seq<char>, p: int)
    ensures
        spec_string(s, p) is Ok ==> p < spec_string(s, p)->Ok_0.1 <= s.len(),
{
    let q = ws_end(s, p);
    lemma_ws_end_bounds(s, p);
    if spec_expect(s, q, '"') is Ok {
        lemma_string_chars_advances(s, q + 1, seq![]);
    }
}

pub open spec fn invalid_float_message() -> Seq<char> {
    "invalid float literal"@
}

/// A number at `p`: the longest `-`? digits (`.` digits)? ([eE] [+-]? digits)?
/// that can be read, accepted where `f64::from_str` accepts that text.
pub open spec fn spec_number(s: Seq<char>, p: int) -> Result<(ValueView, int), Seq<char>> {
    let raw = s.subrange(p, number_end(s, p));
    if float_text_valid(raw) {
        Ok((ValueView::Number(raw), number_end(s, p)))
    } else {
        Err(invalid_float_message())
    }
}

pub open spec fn spec_bool(s: Seq<char>, p: int) -> Result<(ValueView, int), Seq<char>> {
    if literal_at(s, p, "true"@) {
        Ok((ValueView::Bool(true), p + 4))
    } else if literal_at(s, p, "false"@) {
        Ok((ValueView::Bool(false), p + 5))
    } else {
        Err("真偽値のパースに失敗しました"@)
    }
}

pub open spec fn spec_null(s: Seq<char>, p: int) -> Result<(ValueView, int), Seq<char>> {
    if literal_at(s, p, "null"@) {
        Ok((ValueView::Null, p + 4))
    } else {
        Err("nullのパースに失敗しました"@)
    }
}

pub open spec fn unexpected_token_message(found: Option<char>) -> Seq<char> {
    "予期しないトークンです: "@ + option_char_debug(found)
}

pub open spec fn object_separator_message(found: Option<char>) -> Seq<char> {
    "','または'}'を期待しましたが"@ + option_char_debug(found) + "でした"@
}

pub open spec fn array_separator_message(found: Option<char>) -> Seq<char> {
    "','または']'を期待しましたが"@ + option_char_debug(found) + "でした"@
}

/// Never the case: a value that was read ends after its start.
pub open spec fn went_backwards_message() -> Seq<char> {
    "position went backwards"@
}

/// A value after optional white space.
pub open spec fn spec_value(s: Seq<char>, p: int) -> Result<(ValueView, int), Seq<char>>
    decreases s.len() - p, 1int,
{
    let q = ws_end(s, p);
    match char_at(s, q) {
        Some(c) => if c == '{' {
            proof {
                lemma_ws_end_bounds(s, p);
            }
            spec_object(s, q)
        } else if c == '[' {
            proof {
                lemma_ws_end_bounds(s, p);
            }
            spec_array(s, q)
        } else if c == '"' {
            match spec_string(s, q) {
                Ok((t, r)) => Ok((ValueView::String(t), r)),
                Err(m) => Err(m),
            }
        } else if c == 't' || c == 'f' {
            spec_bool(s, q)
        } else if c == 'n' {
            spec_null(s, q)
        } else if crate::text::is_ascii_digit(c) || c == '-' {
            spec_number(s, q)
        } else {
            Err(unexpected_token_message(Some(c)))
        },
        None => Err(unexpected_token_message(None)),
    }
}

/// An object whose `{` is at `p`.
pub open spec fn spec_object(s: Seq<char>, p: int) -> Result<(ValueView, int), Seq<char>>
    decreases s.len() - p, 0int,
{
    match spec_expect(s, p, '{') {
        Err(m) => Err(m),
        Ok(r) => {
            let r2 = ws_end(s, r);
            if char_at(s, r2) == Some('}') {
                Ok((ValueView::Object(seq![]), r2 + 1))
            } else {
                proof {
                    lemma_ws_end_bounds(s, r);
                }
                spec_object_members(s, r2, seq![])
            }
        },
    }
}

/// The members of an object from `p` on, with `acc` read so far.
pub open spec fn spec_object_members(s: Seq<char>, p: int, acc: Seq<(Seq<char>, ValueView)>) -> Result<(ValueView, int), Seq<char>>
    decreases s.len() - p, 0int,
{
    let q = ws_end(s, p);
    match spec_string(s, q) {
        Err(m) => Err(m),
        Ok((key, q2)) => {
            let q3 = ws_end(s, q2);
            match spec_expect(s, q3, ':') {
                Err(m) => Err(m),
                Ok(q4) => {
                    proof {
                        lemma_ws_end_bounds(s, p);
                        lemma_string_advances(s, q);
                        lemma_ws_end_bounds(s, q2);
                    }
                    match spec_value(s, q4) {
                        Err(m) => Err(m),
                        Ok((v, q5)) => if q5 < q4 {
                            Err(went_backwards_message())
                        } else {
                            let entries = acc.push((key, v));
                            let q6 = ws_end(s, q5);
                            match char_at(s, q6) {
                                Some(c) => if c == ',' {
                                    proof {
                                        lemma_ws_end_bounds(s, q5);
                                    }
                                    spec_object_members(s, q6 + 1, entries)
                                } else if c == '}' {
                                    Ok((ValueView::Object(entries), q6 + 1))
                                } else {
                                    Err(object_separator_message(Some(c)))
                                },
                                None => Err(object_separator_message(None)),
                            }
                        },
                    }
                },
            }
        },
    }
}

/// An array whose `[` is at `p`.
pub open spec fn spec_array(s: Seq<char>, p: int) -> Result<(ValueView, int), Seq<char>>
    decreases s.len() - p, 0int,
{
    match spec_expect(s, p, '[') {
        Err(m) => Err(m),
        Ok(r) => {
            let r2 = ws_end(s, r);
            if char_at(s, r2) == Some(']') {
                Ok((ValueView::Array(seq![]), r2 + 1))
            } else {
                proof {
                    lemma_ws_end_bounds(s, r);
                }
                spec_array_items(s, r2, seq![])
            }
        },
    }
}

/// The items of an array from `p` on, with `acc` read so far.
pub open spec fn spec_array_items(s: Seq<char>, p: int, acc: Seq<ValueView>) -> Result<(ValueView, int), Seq<char>>
    decreases s.len() - p, 2int,
{
    match spec_value(s, p) {
        Err(m) => Err(m),
        Ok((v, q)) => if q <= p {
            Err(went_backwards_message())
        } else {
            let items = acc.push(v);
            let q2 = ws_end(s, q);
            match char_at(s, q2) {
                Some(c) => if c == ',' {
                    proof {
                        lemma_ws_end_bounds(s, q);
                    }
                    spec_array_items(s, q2 + 1, items)
                } else if c == ']' {
                    Ok((ValueView::Array(items), q2 + 1))
                } else {
                    Err(array_separator_message(Some(c)))
                },
                None => Err(array_separator_message(None)),
            }
        },
    }
}

/// `json::parse`: the first value of the text.
pub open spec fn spec_parse(s: Seq<char>) -> Result<ValueView, Seq<char>> {
    match spec_value(s, 0) {
        Ok((v, _)) => Ok(v),
        Err(m) => Err(m),
    }
}


// ---- reading ----

/// A string read by the reader agrees with the grammar's answer.
pub open spec fn text_matches(r: Result<(String, usize), String>, spec: Result<(Seq<char>, int), Seq<char>>) -> bool {
    match spec {
        Ok((t, q)) => r is Ok && r->Ok_0.0@ == t && r->Ok_0.1 == q,
        Err(m) => r is Err && r->Err_0@ == m,
    }
}

/// A value read by the reader agrees with the grammar's answer.
pub open spec fn value_matches(r: Result<(Value, usize), String>, spec: Result<(ValueView, int), Seq<char>>) -> bool {
    match spec {
        Ok((v, q)) => r is Ok && r->Ok_0.0@ == v && r->Ok_0.1 == q,
        Err(m) => r is Err && r->Err_0@ == m,
    }
}

fn skip_whitespace(s: &Vec<char>, p: usize) -> (q: usize)
    requires
        p <= s@.len(),
    ensures
        q == ws_end(s@, p as int),
        p <= q <= s@.len(),
{
    let mut q = p;
    while q < s.len() && white_space(s[q])
        invariant
            p <= q <= s@.len(),
            ws_end(s@, p as int) == ws_end(s@, q as int),
        decreases s@.len() - q,
    {
        q = q + 1;
    }
    q
}

fn char_at_pos(s: &Vec<char>, p: usize) -> (c: Option<char>)
    ensures
        c == char_at(s@, p as int),
        s@.len() <= usize::MAX,
{
    if p < s.len() {
        Some(s[p])
    } else {
        None
    }
}

fn expect(s: &Vec<char>, p: usize, c: char) -> (r: Result<usize, String>)
    requires
        p <= s@.len(),
    ensures
        match spec_expect(s@, p as int, c) {
            Ok(q) => r is Ok && r->Ok_0 == q,
            Err(m) => r is Err && r->Err_0@ == m,
        },
{
    let found = char_at_pos(s, p);
    if found == Some(c) {
        Ok(p + 1)
    } else {
        Err(expected_text(c, found))
    }
}

/// The character of the `\u` escape whose four characters start at `p`.
fn parse_unicode_escape(s: &Vec<char>, p: usize) -> (r: Result<char, String>)
    requires
        p <= s@.len(),
    ensures
        match spec_unicode_escape(s@, p as int) {
            Ok(c) => r is Ok && r->Ok_0 == c,
            Err(m) => r is Err && r->Err_0@ == m,
        },
{
    if s.len() - p < 4 {
        return Err("\\uエスケープが不完全です".to_string());
    }
    let end = p + 4;
    let start: usize = if s[p] == '+' { p + 1 } else { p };
    let ghost h = s@.subrange(p as int, end as int);
    let ghost body = s@.subrange(start as int, end as int);
    assert(body =~= (if h.len() > 0 && h[0] == '+' { h.drop_first() } else { h }));
    let mut value: u32 = 0;
    let mut i = start;
    while i < end
        invariant
            p <= start <= i <= end,
            start <= p + 1,
            end == p + 4,
            end <= s@.len(),
            body == s@.subrange(start as int, end as int),
            h == s@.subrange(p as int, end as int),
            body == (if h.len() > 0 && h[0] == '+' { h.drop_first() } else { h }),
            value as nat == hex_value(s@.subrange(start as int, i as int)),
            all_hex(s@.subrange(start as int, i as int)),
            i - start == 0 ==> value == 0,
            i - start == 1 ==> value < 16,
            i - start == 2 ==> value < 256,
            i - start == 3 ==> value < 4096,
            i - start == 4 ==> value < 65536,
        decreases end - i,
    {
        assert(body[i - start] == s@[i as int]);
        let d = match hex_digit(s[i]) {
            Some(d) => d,
            None => {
                assert(hex_digit_value(body[i - start]) is None);
                assert(!all_hex(body));
                return Err("invalid digit found in string".to_string());
            },
        };
        let ghost before = s@.subrange(start as int, i as int);
        let ghost after = s@.subrange(start as int, i + 1);
        assert(after.drop_last() =~= before);
        assert(after.last() == s@[i as int]);
        assert forall|k: int| 0 <= k < after.len() implies #[trigger] hex_digit_value(after[k]) is Some by {
            if k < before.len() {
                assert(after[k] == before[k]);
            }
        }
        value = value * 16 + d;
        i = i + 1;
    }
    assert(s@.subrange(start as int, i as int) == body);
    match char_from_code(value) {
        Some(c) => Ok(c),
        None => Err("不正なUnicodeコードポイントです".to_string()),
    }
}

/// A string literal after optional white space at `p`.
fn parse_string(s: &Vec<char>, p: usize) -> (r: Result<(String, usize), String>)
    requires
        p <= s@.len(),
    ensures
        text_matches(r, spec_string(s@, p as int)),
        r is Ok ==> p < r->Ok_0.1 <= s@.len(),
{
    proof {
        lemma_string_advances(s@, p as int);
    }
    let q = skip_whitespace(s, p);
    let mut i = match expect(s, q, '"') {
        Ok(i) => i,
        Err(e) => {
            return Err(e);
        },
    };
    let mut acc: Vec<char> = Vec::new();
    loop
        invariant
            i <= s@.len(),
            spec_string(s@, p as int) == string_chars(s@, i as int, acc@),
            spec_string(s@, p as int) is Ok ==> p < spec_string(s@, p as int)->Ok_0.1 <= s@.len(),
        decreases s@.len() - i,
    {
        if i >= s.len() {
            return Err("文字列が閉じられていません".to_string());
        }
        let c = s[i];
        if c == '"' {
            return Ok((chars_to_string(acc.as_slice()), i + 1));
        } else if c == '\\' {
            let e = char_at_pos(s, i + 1);
            match e {
                None => {
                    return Err(with_debug("不正なエスケープシーケンスです: ", e));
                },
                Some(ec) => match escape_for(ec) {
                    Some(x) => {
                        acc.push(x);
                        i = i + 2;
                    },
                    None => {
                        if ec == 'u' {
                            let decoded = match parse_unicode_escape(s, i + 2) {
                                Ok(d) => d,
                                Err(m) => {
                                    return Err(m);
                                },
                            };
                            acc.push(decoded);
                            i = i + 6;
                        } else {
                            return Err(with_debug("不正なエスケープシーケンスです: ", e));
                        }
                    },
                },
            }
        } else {
            acc.push(c);
            i = i + 1;
        }
    }
}

fn digits_end_at(s: &Vec<char>, p: usize) -> (q: usize)
    requires
        p <= s@.len(),
    ensures
        q == digits_end(s@, p as int),
        p <= q <= s@.len(),
{
    let mut q = p;
    while q < s.len() && ascii_digit(s[q])
        invariant
            p <= q <= s@.len(),
            digits_end(s@, p as int) == digits_end(s@, q as int),
        decreases s@.len() - q,
    {
        q = q + 1;
    }
    q
}

fn number_end_at(s: &Vec<char>, p: usize) -> (q: usize)
    requires
        p <= s@.len(),
    ensures
        q == number_end(s@, p as int),
        p <= q <= s@.len(),
{
    proof {
        lemma_number_bounds(s@, p as int);
    }
    let p1 = if char_at_pos(s, p) == Some('-') { p + 1 } else { p };
    let p2 = digits_end_at(s, p1);
    let p3 = if char_at_pos(s, p2) == Some('.') { digits_end_at(s, p2 + 1) } else { p2 };
    let marker = char_at_pos(s, p3);
    if marker == Some('e') || marker == Some('E') {
        let sign = char_at_pos(s, p3 + 1);
        let k = if sign == Some('+') || sign == Some('-') { p3 + 2 } else { p3 + 1 };
        digits_end_at(s, k)
    } else {
        p3
    }
}

/// A number whose first character, a digit or `-`, is at `p`.
fn parse_number(s: &Vec<char>, p: usize) -> (r: Result<(Value, usize), String>)
    requires
        p < s@.len(),
        is_ascii_digit(s@[p as int]) || s@[p as int] == '-',
    ensures
        value_matches(r, spec_number(s@, p as int)),
        r is Ok ==> p < r->Ok_0.1 <= s@.len(),
{
    let end = number_end_at(s, p);
    proof {
        lemma_number_bounds(s@, p as int);
        crate::flat_json::lemma_digits_end_bounds(s@, p + 1);
    }
    let raw = copy_range(s, p, end);
    if is_float_text(raw.as_slice()) {
        Ok((Value::Number(chars_to_string(raw.as_slice())), end))
    } else {
        Err("invalid float literal".to_string())
    }
}

fn literal_here(s: &Vec<char>, p: usize, lit: &str) -> (b: bool)
    requires
        p <= s@.len(),
    ensures
        b == literal_at(s@, p as int, lit@),
        s@.len() <= usize::MAX,
{
    let l = str_to_chars(lit);
    if l.len() > s.len() - p {
        return false;
    }
    let piece = copy_range(s, p, p + l.len());
    chars_equal(piece.as_slice(), l.as_slice())
}

fn parse_bool(s: &Vec<char>, p: usize) -> (r: Result<(Value, usize), String>)
    requires
        p <= s@.len(),
    ensures
        value_matches(r, spec_bool(s@, p as int)),
        r is Ok ==> p < r->Ok_0.1 <= s@.len(),
{
    proof {
        reveal_strlit("true");
        reveal_strlit("false");
    }
    if literal_here(s, p, "true") {
        Ok((Value::Bool(true), p + 4))
    } else if literal_here(s, p, "false") {
        Ok((Value::Bool(false), p + 5))
    } else {
        Err("真偽値のパースに失敗しました".to_string())
    }
}

fn parse_null(s: &Vec<char>, p: usize) -> (r: Result<(Value, usize), String>)
    requires
        p <= s@.len(),
    ensures
        value_matches(r, spec_null(s@, p as int)),
        r is Ok ==> p < r->Ok_0.1 <= s@.len(),
{
    proof {
        reveal_strlit("null");
    }
    if literal_here(s, p, "null") {
        Ok((Value::Null, p + 4))
    } else {
        Err("nullのパースに失敗しました".to_string())
    }
}

fn array_separator_text(found: Option<char>) -> (m: String)
    ensures
        m@ == array_separator_message(found),
{
    let mut m = String::new();
    string_push_str(&mut m, "','または']'を期待しましたが");
    let d = debug_option_char(found);
    string_push_str(&mut m, d.as_str());
    string_push_str(&mut m, "でした");
    m
}

/// The value at `p`, after optional white space.
fn parse_value(s: &Vec<char>, p: usize) -> (r: Result<(Value, usize), String>)
    requires
        p <= s@.len(),
    ensures
        value_matches(r, spec_value(s@, p as int)),
        r is Ok ==> p < r->Ok_0.1 <= s@.len(),
    decreases s@.len() - p, 1int,
{
    let q = skip_whitespace(s, p);
    match char_at_pos(s, q) {
        None => Err(with_debug("予期しないトークンです: ", None)),
        Some(c) => {
            if c == '{' {
                parse_object(s, q)
            } else if c == '[' {
                parse_array(s, q)
            } else if c == '"' {
                match parse_string(s, q) {
                    Ok((t, r)) => Ok((Value::String(t), r)),
                    Err(m) => Err(m),
                }
            } else if c == 't' || c == 'f' {
                parse_bool(s, q)
            } else if c == 'n' {
                parse_null(s, q)
            } else if ascii_digit(c) || c == '-' {
                parse_number(s, q)
            } else {
                Err(with_debug("予期しないトークンです: ", Some(c)))
            }
        },
    }
}

/// The object whose `{` is at `p`.
fn parse_object(s: &Vec<char>, p: usize) -> (r: Result<(Value, usize), String>)
    requires
        p <= s@.len(),
    ensures
        value_matches(r, spec_object(s@, p as int)),
        r is Ok ==> p < r->Ok_0.1 <= s@.len(),
    decreases s@.len() - p, 0int,
{
    let r0 = match expect(s, p, '{') {
        Ok(r0) => r0,
        Err(e) => {
            return Err(e);
        },
    };
    let r2 = skip_whitespace(s, r0);
    let mut entries: Vec<(String, Value)> = Vec::new();
    if char_at_pos(s, r2) == Some('}') {
        assert(members_view(entries@) =~= seq![]);
        return Ok((Value::Object(entries), r2 + 1));
    }
    let mut i = r2;
    loop
        invariant
            p < i <= s@.len(),
            spec_object(s@, p as int) == spec_object_members(s@, i as int, members_view(entries@)),
        decreases s@.len() - i,
    {
        let q = skip_whitespace(s, i);
        let (key, q2) = match parse_string(s, q) {
            Ok(found) => found,
            Err(e) => {
                return Err(e);
            },
        };
        let q3 = skip_whitespace(s, q2);
        let q4 = match expect(s, q3, ':') {
            Ok(q4) => q4,
            Err(e) => {
                return Err(e);
            },
        };
        let (v, q5) = match parse_value(s, q4) {
            Ok(found) => found,
            Err(e) => {
                return Err(e);
            },
        };
        let ghost before = entries@;
        entries.push((key, v));
        assert(entries@.drop_last() =~= before);
        let q6 = skip_whitespace(s, q5);
        match char_at_pos(s, q6) {
            Some(c) => {
                if c == ',' {
                    i = q6 + 1;
                } else if c == '}' {
                    return Ok((Value::Object(entries), q6 + 1));
                } else {
                    return Err(separator_text(Some(c)));
                }
            },
            None => {
                return Err(separator_text(None));
            },
        }
    }
}

/// The array whose `[` is at `p`.
fn parse_array(s: &Vec<char>, p: usize) -> (r: Result<(Value, usize), String>)
    requires
        p <= s@.len(),
    ensures
        value_matches(r, spec_array(s@, p as int)),
        r is Ok ==> p < r->Ok_0.1 <= s@.len(),
    decreases s@.len() - p, 0int,
{
    let r0 = match expect(s, p, '[') {
        Ok(r0) => r0,
        Err(e) => {
            return Err(e);
        },
    };
    let r2 = skip_whitespace(s, r0);
    let mut items: Vec<Value> = Vec::new();
    if char_at_pos(s, r2) == Some(']') {
        assert(items_view(items@) =~= seq![]);
        return Ok((Value::Array(items), r2 + 1));
    }
    let mut i = r2;
    loop
        invariant
            p < i <= s@.len(),
            spec_array(s@, p as int) == spec_array_items(s@, i as int, items_view(items@)),
        decreases s@.len() - i,
    {
        let (v, q) = match parse_value(s, i) {
            Ok(found) => found,
            Err(e) => {
                return Err(e);
            },
        };
        let ghost before = items@;
        items.push(v);
        assert(items@.drop_last() =~= before);
        let q2 = skip_whitespace(s, q);
        match char_at_pos(s, q2) {
            Some(c) => {
                if c == ',' {
                    i = q2 + 1;
                } else if c == ']' {
                    return Ok((Value::Array(items), q2 + 1));
                } else {
                    return Err(array_separator_text(Some(c)));
                }
            },
            None => {
                return Err(array_separator_text(None));
            },
        }
    }
}

/// Reads the first JSON value of `input`; what follows it is not looked at.
pub fn parse(input: &str) -> (r: Result<Value, String>)
    ensures
        match spec_parse(input@) {
            Ok(v) => r is Ok && r->Ok_0@ == v,
            Err(m) => r is Err && r->Err_0@ == m,
        },
{
    let s = str_to_chars(input);
    match parse_value(&s, 0) {
        Ok((v, _)) => Ok(v),
        Err(e) => Err(e),
    }
}

// ---- looking into a value ----

/// The value of the first entry named `key`.
pub open spec fn member_value(entries: Seq<(Seq<char>, ValueView)>, key: Seq<char>) -> Option<ValueView>
    decreases entries.len(),
{
    if entries.len() == 0 {
        None
    } else if entries[0].0 == key {
        Some(entries[0].1)
    } else {
        member_value(entries.drop_first(), key)
    }
}

pub proof fn lemma_members_view(entries: Seq<(String, Value)>)
    ensures
        members_view(entries).len() == entries.len(),
        forall|k: int| 0 <= k < entries.len() ==> #[trigger] members_view(entries)[k] == (entries[k].0@, value_view(entries[k].1)),
    decreases entries.len(),
{
    if entries.len() > 0 {
        lemma_members_view(entries.drop_last());
        assert forall|k: int| 0 <= k < entries.len() implies #[trigger] members_view(entries)[k] == (entries[k].0@, value_view(entries[k].1)) by {
            if k < entries.len() - 1 {
                assert(entries.drop_last()[k] == entries[k]);
            }
        }
    }
}

pub proof fn lemma_items_view(items: Seq<Value>)
    ensures
        items_view(items).len() == items.len(),
        forall|k: int| 0 <= k < items.len() ==> #[trigger] items_view(items)[k] == value_view(items[k]),
    decreases items.len(),
{
    if items.len() > 0 {
        lemma_items_view(items.drop_last());
        assert forall|k: int| 0 <= k < items.len() implies #[trigger] items_view(items)[k] == value_view(items[k]) by {
            if k < items.len() - 1 {
                assert(items.drop_last()[k] == items[k]);
            }
        }
    }
}

impl Value {
    /// The value of the first entry named `key`, where this is an object.
    pub fn get(&self, key: &str) -> (r: Option<&Value>)
        ensures
            match self@ {
                ValueView::Object(entries) => match r {
                    Some(v) => member_value(entries, key@) == Some(v@),
                    None => member_value(entries, key@) is None,
                },
                _ => r is None,
            },
    {
        match self {
            Value::Object(entries) => {
                let wanted = key.to_string();
                let ghost es = members_view(entries@);
                assert(self@ == ValueView::Object(es));
                proof {
                    lemma_members_view(entries@);
                    assert(es.subrange(0, es.len() as int) =~= es);
                }
                let mut k: usize = 0;
                while k < entries.len()
                    invariant
                        k <= entries@.len(),
                        es == members_view(entries@),
                        es.len() == entries@.len(),
                        wanted@ == key@,
                        member_value(es, key@) == member_value(es.subrange(k as int, es.len() as int), key@),
                        self@ == ValueView::Object(es),
                        forall|j: int| 0 <= j < entries@.len() ==> #[trigger] es[j] == (entries@[j].0@, value_view(entries@[j].1)),
                    decreases entries@.len() - k,
                {
                    let ghost rest = es.subrange(k as int, es.len() as int);
                    assert(rest[0] == es[k as int]);
                    assert(rest.drop_first() =~= es.subrange(k + 1, es.len() as int));
                    if entries[k].0 == wanted {
                        assert(rest.len() > 0 && rest[0].0 == key@);
                        assert(member_value(rest, key@) == Some(value_view(entries@[k as int].1)));
                        return Some(&entries[k].1);
                    }
                    k = k + 1;
                }
                None
            },
            _ => None,
        }
    }

    /// The text, where this is a string.
    pub fn as_str(&self) -> (r: Option<&str>)
        ensures
            match self@ {
                ValueView::String(t) => r is Some && r->0@ == t,
                _ => r is None,
            },
    {
        match self {
            Value::String(t) => Some(t.as_str()),
            _ => None,
        }
    }

    /// The items, where this is an array.
    pub fn as_array(&self) -> (r: Option<&[Value]>)
        ensures
            match self@ {
                ValueView::Array(items) => r is Some && items_view(r->0@) == items,
                _ => r is None,
            },
    {
        match self {
            Value::Array(items) => Some(items.as_slice()),
            _ => None,
        }
    }
}

} // verus!
