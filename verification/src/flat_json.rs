//! The flat JSON object that yt-dlp prints for each progress update
//! (`--progress-template "download:%(progress)j"`): one object whose values
//! are strings, numbers, booleans or null.
//!
//! Numbers are kept as the text that was read; they are checked against the
//! grammar that `f64::from_str` accepts, so that converting them cannot fail.

use crate::text::{
    chars_to_string, debug_option_char, hex_digit, hex_digit_value, is_ascii_digit, is_scalar_value,
    option_char_debug, str_to_chars, string_push_str, char_from_code, ascii_digit,
};
use vstd::prelude::*;

verus! {

/// A value of the flat object. A number holds the text it was written as.
#[derive(Debug, PartialEq)]
pub enum JsonValue {
    Null,
    Bool(bool),
    Number(String),
    String(String),
}

pub enum JsonValueView {
    Null,
    Bool(bool),
    Number(Seq<char>),
    String(Seq<char>),
}

impl View for JsonValue {
    type V = JsonValueView;

    open spec fn view(&self) -> JsonValueView {
        match self {
            JsonValue::Null => JsonValueView::Null,
            JsonValue::Bool(b) => JsonValueView::Bool(*b),
            JsonValue::Number(t) => JsonValueView::Number(t@),
            JsonValue::String(t) => JsonValueView::String(t@),
        }
    }
}

/// Why a progress line could not be read.
#[derive(Debug, PartialEq)]
pub enum JsonParseError {
    Syntax(String),
    MissingField(String),
    UnexpectedType(String),
}

pub enum JsonParseErrorView {
    Syntax(Seq<char>),
    MissingField(Seq<char>),
    UnexpectedType(Seq<char>),
}

impl View for JsonParseError {
    type V = JsonParseErrorView;

    open spec fn view(&self) -> JsonParseErrorView {
        match self {
            JsonParseError::Syntax(m) => JsonParseErrorView::Syntax(m@),
            JsonParseError::MissingField(k) => JsonParseErrorView::MissingField(k@),
            JsonParseError::UnexpectedType(k) => JsonParseErrorView::UnexpectedType(k@),
        }
    }
}

// ---- the grammar, over the characters `s` and a position `p` ----

pub open spec fn is_json_ws(c: char) -> bool {
    c == ' ' || c == '\t' || c == '\n' || c == '\r'
}

pub open spec fn skip_ws(s: Seq<char>, p: int) -> int
    decreases s.len() - p,
{
    if 0 <= p < s.len() && is_json_ws(s[p]) {
        skip_ws(s, p + 1)
    } else {
        p
    }
}

pub open spec fn char_at(s: Seq<char>, p: int) -> Option<char> {
    if 0 <= p < s.len() {
        Some(s[p])
    } else {
        None
    }
}

pub open spec fn expected_message(c: char, found: Option<char>) -> Seq<char> {
    "'"@ + seq![c] + "'を期待しましたが"@ + option_char_debug(found) + "でした"@
}

pub open spec fn spec_expect(s: Seq<char>, p: int, c: char) -> Result<int, Seq<char>> {
    if char_at(s, p) == Some(c) {
        Ok(p + 1)
    } else {
        Err(expected_message(c, char_at(s, p)))
    }
}

pub open spec fn unterminated_message() -> Seq<char> {
    "文字列が閉じられていません"@
}

pub open spec fn bad_escape_message(found: Option<char>) -> Seq<char> {
    "不正なエスケープです: "@ + option_char_debug(found)
}

pub open spec fn incomplete_unicode_message() -> Seq<char> {
    "\\uエスケープが不完全です"@
}

pub open spec fn bad_hex_message() -> Seq<char> {
    "不正な16進数エスケープです"@
}

/// The character that a one-letter escape `\e` stands for.
pub open spec fn escaped_char(e: char) -> Option<char> {
    if e == '"' {
        Some('"')
    } else if e == '\\' {
        Some('\\')
    } else if e == '/' {
        Some('/')
    } else if e == 'n' {
        Some('\n')
    } else if e == 't' {
        Some('\t')
    } else if e == 'r' {
        Some('\r')
    } else if e == 'b' {
        Some('\u{8}')
    } else if e == 'f' {
        Some('\u{c}')
    } else {
        None
    }
}

/// Reads `n` more hexadecimal digits from `p` onto `value`.
pub open spec fn hex_digits_from(s: Seq<char>, p: int, n: nat, value: nat) -> Result<nat, Seq<char>>
    decreases n,
{
    if n == 0 {
        Ok(value)
    } else {
        match char_at(s, p) {
            None => Err(incomplete_unicode_message()),
            Some(c) => match hex_digit_value(c) {
                None => Err(bad_hex_message()),
                Some(d) => hex_digits_from(s, p + 1, (n - 1) as nat, (value * 16 + d) as nat),
            },
        }
    }
}

/// The character for a `\u` code: the code itself where it is a scalar value,
/// else U+FFFD.
pub open spec fn code_char(code: nat) -> char {
    if code <= 0xFFFF && is_scalar_value(code as u32) {
        code as char
    } else {
        '\u{FFFD}'
    }
}

pub proof fn lemma_hex_digits_bounds(s: Seq<char>, p: int, n: nat, value: nat)
    requires
        0 <= p <= s.len(),
    ensures
        hex_digits_from(s, p, n, value) is Ok ==> p + n <= s.len(),
    decreases n,
{
    if n > 0 {
        match char_at(s, p) {
            None => {},
            Some(c) => match hex_digit_value(c) {
                None => {},
                Some(d) => {
                    lemma_hex_digits_bounds(s, p + 1, (n - 1) as nat, (value * 16 + d) as nat);
                },
            },
        }
    }
}

/// The rest of a string literal from `p`, with `acc` read so far: the read
/// text and the position after the closing quote.
pub open spec fn string_body(s: Seq<char>, p: int, acc: Seq<char>) -> Result<(Seq<char>, int), Seq<char>>
    decreases s.len() - p,
{
    if p < 0 || p >= s.len() {
        Err(unterminated_message())
    } else if s[p] == '"' {
        Ok((acc, p + 1))
    } else if s[p] == '\\' {
        match char_at(s, p + 1) {
            None => Err(bad_escape_message(None)),
            Some(e) => match escaped_char(e) {
                Some(x) => string_body(s, p + 2, acc.push(x)),
                None => if e == 'u' {
                    match hex_digits_from(s, p + 2, 4, 0) {
                        Ok(code) => {
                            proof {
                                lemma_hex_digits_bounds(s, p + 2, 4, 0);
                            }
                            string_body(s, p + 6, acc.push(code_char(code)))
                        },
                        Err(m) => Err(m),
                    }
                } else {
                    Err(bad_escape_message(Some(e)))
                },
            },
        }
    } else {
        string_body(s, p + 1, acc.push(s[p]))
    }
}

/// A string literal at `p`: its text and the position after it.
pub open spec fn spec_parse_string(s: Seq<char>, p: int) -> Result<(Seq<char>, int), Seq<char>> {
    match spec_expect(s, p, '"') {
        Ok(q) => string_body(s, q, seq![]),
        Err(m) => Err(m),
    }
}

pub proof fn lemma_skip_ws_bounds(s: Seq<char>, p: int)
    ensures
        skip_ws(s, p) >= p,
        0 <= p <= s.len() ==> skip_ws(s, p) <= s.len(),
    decreases s.len() - p,
{
    if 0 <= p < s.len() && is_json_ws(s[p]) {
        lemma_skip_ws_bounds(s, p + 1);
    }
}

pub proof fn lemma_string_body_advances(s: Seq<char>, p: int, acc: Seq<char>)
    ensures
        string_body(s, p, acc) is Ok ==> p < string_body(s, p, acc)->Ok_0.1 <= s.len(),
    decreases s.len() - p,
{
    if p < 0 || p >= s.len() {
    } else if s[p] == '"' {
    } else if s[p] == '\\' {
        match char_at(s, p + 1) {
            None => {},
            Some(e) => match escaped_char(e) {
                Some(x) => lemma_string_body_advances(s, p + 2, acc.push(x)),
                None => if e == 'u' {
                    match hex_digits_from(s, p + 2, 4, 0) {
                        Ok(code) => {
                            lemma_hex_digits_bounds(s, p + 2, 4, 0);
                            lemma_string_body_advances(s, p + 6, acc.push(code_char(code)));
                        },
                        Err(m) => {},
                    }
                },
            },
        }
    } else {
        lemma_string_body_advances(s, p + 1, acc.push(s[p]));
    }
}

pub proof fn lemma_parse_string_advances(s: Seq<char>, p: int)
    ensures
        spec_parse_string(s, p) is Ok ==> p < spec_parse_string(s, p)->Ok_0.1 <= s.len(),
{
    if spec_expect(s, p, '"') is Ok {
        lemma_string_body_advances(s, p + 1, seq![]);
    }
}

/// The position after the run of ASCII digits starting at `p`.
pub open spec fn digits_end(s: Seq<char>, p: int) -> int
    decreases s.len() - p,
{
    if 0 <= p < s.len() && is_ascii_digit(s[p]) {
        digits_end(s, p + 1)
    } else {
        p
    }
}

pub proof fn lemma_digits_end_bounds(s: Seq<char>, p: int)
    ensures
        digits_end(s, p) >= p,
        0 <= p <= s.len() ==> digits_end(s, p) <= s.len(),
        forall|i: int| p <= i < digits_end(s, p) ==> #[trigger] is_ascii_digit(s[i]),
    decreases s.len() - p,
{
    if 0 <= p < s.len() && is_ascii_digit(s[p]) {
        lemma_digits_end_bounds(s, p + 1);
    }
}

pub open spec fn malformed_number_message() -> Seq<char> {
    "数値の形式が不正です"@
}

pub open spec fn unparsable_number_message() -> Seq<char> {
    "数値のパースに失敗しました"@
}

/// The end of the integer part, after an optional minus sign.
pub open spec fn number_int_end(s: Seq<char>, p: int) -> int {
    digits_end(s, if char_at(s, p) == Some('-') { p + 1 } else { p })
}

/// The end of the fraction part, if a `.` follows the integer part.
pub open spec fn number_frac_end(s: Seq<char>, p: int) -> int {
    let p2 = number_int_end(s, p);
    if char_at(s, p2) == Some('.') {
        digits_end(s, p2 + 1)
    } else {
        p2
    }
}

pub open spec fn number_has_exponent(s: Seq<char>, p: int) -> bool {
    let p3 = number_frac_end(s, p);
    char_at(s, p3) == Some('e') || char_at(s, p3) == Some('E')
}

/// Where the exponent digits start, past `e`/`E` and an optional sign.
pub open spec fn number_exp_digits_start(s: Seq<char>, p: int) -> int {
    let p3 = number_frac_end(s, p);
    if char_at(s, p3 + 1) == Some('+') || char_at(s, p3 + 1) == Some('-') {
        p3 + 2
    } else {
        p3 + 1
    }
}

pub open spec fn number_end(s: Seq<char>, p: int) -> int {
    if number_has_exponent(s, p) {
        digits_end(s, number_exp_digits_start(s, p))
    } else {
        number_frac_end(s, p)
    }
}

/// A number at `p`: `-`? digits (`.` digits)? ([eE] [+-]? digits)?, with at
/// least one digit before the exponent, and at least one exponent digit where
/// an exponent is written (as `f64::from_str` requires). Yields the text read.
pub open spec fn spec_parse_number(s: Seq<char>, p: int) -> Result<(Seq<char>, int), Seq<char>> {
    let p1 = if char_at(s, p) == Some('-') { p + 1 } else { p };
    let p2 = number_int_end(s, p);
    let has_digits = p2 > p1 || (char_at(s, p2) == Some('.') && number_frac_end(s, p) > p2 + 1);
    if !has_digits {
        Err(malformed_number_message())
    } else if number_has_exponent(s, p) && number_end(s, p) == number_exp_digits_start(s, p) {
        Err(unparsable_number_message())
    } else {
        Ok((s.subrange(p, number_end(s, p)), number_end(s, p)))
    }
}

pub open spec fn literal_at(s: Seq<char>, p: int, lit: Seq<char>) -> bool {
    0 <= p && p + lit.len() <= s.len() && s.subrange(p, p + lit.len()) == lit
}

pub open spec fn literal_message(lit: Seq<char>) -> Seq<char> {
    "'"@ + lit + "'を期待しました"@
}

pub open spec fn spec_parse_literal(s: Seq<char>, p: int, lit: Seq<char>, value: JsonValueView) -> Result<(JsonValueView, int), Seq<char>> {
    if literal_at(s, p, lit) {
        Ok((value, p + lit.len()))
    } else {
        Err(literal_message(lit))
    }
}

pub open spec fn unexpected_value_message(found: Option<char>) -> Seq<char> {
    "予期しない値です: "@ + option_char_debug(found)
}

/// A value after optional white space: a string, `true`, `false`, `null` or
/// a number.
pub open spec fn spec_parse_value(s: Seq<char>, p: int) -> Result<(JsonValueView, int), Seq<char>> {
    let q = skip_ws(s, p);
    match char_at(s, q) {
        Some(c) => if c == '"' {
            match spec_parse_string(s, q) {
                Ok((t, r)) => Ok((JsonValueView::String(t), r)),
                Err(m) => Err(m),
            }
        } else if c == 't' {
            spec_parse_literal(s, q, "true"@, JsonValueView::Bool(true))
        } else if c == 'f' {
            spec_parse_literal(s, q, "false"@, JsonValueView::Bool(false))
        } else if c == 'n' {
            spec_parse_literal(s, q, "null"@, JsonValueView::Null)
        } else if c == '-' || is_ascii_digit(c) {
            match spec_parse_number(s, q) {
                Ok((t, r)) => Ok((JsonValueView::Number(t), r)),
                Err(m) => Err(m),
            }
        } else {
            Err(unexpected_value_message(Some(c)))
        },
        None => Err(unexpected_value_message(None)),
    }
}

pub proof fn lemma_number_bounds(s: Seq<char>, p: int)
    requires
        0 <= p <= s.len(),
    ensures
        p <= number_int_end(s, p) <= number_frac_end(s, p) <= number_end(s, p) <= s.len(),
        number_has_exponent(s, p) ==> number_frac_end(s, p) < number_exp_digits_start(s, p) <= number_end(s, p),
{
    let p1 = if char_at(s, p) == Some('-') { p + 1 } else { p };
    lemma_digits_end_bounds(s, p1);
    let p2 = number_int_end(s, p);
    if char_at(s, p2) == Some('.') {
        lemma_digits_end_bounds(s, p2 + 1);
    }
    if number_has_exponent(s, p) {
        lemma_digits_end_bounds(s, number_exp_digits_start(s, p));
    }
}

pub proof fn lemma_parse_value_advances(s: Seq<char>, p: int)
    requires
        0 <= p <= s.len(),
    ensures
        spec_parse_value(s, p) is Ok ==> p < spec_parse_value(s, p)->Ok_0.1 <= s.len(),
{
    let q = skip_ws(s, p);
    reveal_strlit("true");
    reveal_strlit("false");
    reveal_strlit("null");
    lemma_skip_ws_bounds(s, p);
    lemma_parse_string_advances(s, q);
    if 0 <= q <= s.len() {
        lemma_number_bounds(s, q);
    }
}

pub open spec fn separator_message(found: Option<char>) -> Seq<char> {
    "','または'}'を期待しましたが"@ + option_char_debug(found) + "でした"@
}

/// The members of an object from `p` on, with `acc` read so far: the entries
/// in the order written, and the position after the closing brace.
pub open spec fn spec_members(s: Seq<char>, p: int, acc: Seq<(Seq<char>, JsonValueView)>) -> Result<(Seq<(Seq<char>, JsonValueView)>, int), Seq<char>>
    decreases s.len() - p,
{
    let q = skip_ws(s, p);
    match spec_parse_string(s, q) {
        Err(m) => Err(m),
        Ok((key, q2)) => {
            let q3 = skip_ws(s, q2);
            match spec_expect(s, q3, ':') {
                Err(m) => Err(m),
                Ok(q4) => match spec_parse_value(s, q4) {
                    Err(m) => Err(m),
                    Ok((v, q5)) => {
                        let entries = acc.push((key, v));
                        let q6 = skip_ws(s, q5);
                        match char_at(s, q6) {
                            Some(c) => if c == ',' {
                                proof {
                                    lemma_skip_ws_bounds(s, p);
                                    lemma_parse_string_advances(s, q);
                                    lemma_skip_ws_bounds(s, q2);
                                    lemma_parse_value_advances(s, q4);
                                    lemma_skip_ws_bounds(s, q5);
                                }
                                spec_members(s, q6 + 1, entries)
                            } else if c == '}' {
                                Ok((entries, q6 + 1))
                            } else {
                                Err(separator_message(Some(c)))
                            },
                            None => Err(separator_message(None)),
                        }
                    },
                },
            }
        },
    }
}

/// An object at `p` (after optional white space).
pub open spec fn spec_parse_object(s: Seq<char>, p: int) -> Result<(Seq<(Seq<char>, JsonValueView)>, int), Seq<char>> {
    let q = skip_ws(s, p);
    match spec_expect(s, q, '{') {
        Err(m) => Err(m),
        Ok(r) => {
            let r2 = skip_ws(s, r);
            if char_at(s, r2) == Some('}') {
                Ok((seq![], r2 + 1))
            } else {
                spec_members(s, r2, seq![])
            }
        },
    }
}

pub open spec fn trailing_message() -> Seq<char> {
    "JSONオブジェクトの後に余分な文字があります"@
}

/// The whole input is one object, with nothing but white space after it.
pub open spec fn spec_parse_flat_object(s: Seq<char>) -> Result<Seq<(Seq<char>, JsonValueView)>, Seq<char>> {
    match spec_parse_object(s, 0) {
        Err(m) => Err(m),
        Ok((entries, q)) => if skip_ws(s, q) == s.len() {
            Ok(entries)
        } else {
            Err(trailing_message())
        },
    }
}

/// The value of the last entry with this key, as a map filled in order keeps it.
pub open spec fn lookup(entries: Seq<(Seq<char>, JsonValueView)>, key: Seq<char>) -> Option<JsonValueView>
    decreases entries.len(),
{
    if entries.len() == 0 {
        None
    } else if entries.last().0 == key {
        Some(entries.last().1)
    } else {
        lookup(entries.drop_last(), key)
    }
}


/// The views of parsed entries, in order.
pub open spec fn entry_views(entries: Seq<(String, JsonValue)>) -> Seq<(Seq<char>, JsonValueView)> {
    entries.map_values(|e: (String, JsonValue)| (e.0@, e.1@))
}

/// `r` is what the spec result `spec` says, with the cursor left at `pos`.
pub open spec fn text_result_matches(r: Result<String, JsonParseError>, pos: int, spec: Result<(Seq<char>, int), Seq<char>>) -> bool {
    match spec {
        Ok((t, q)) => r is Ok && r->Ok_0@ == t && pos == q,
        Err(m) => r is Err && r->Err_0@ == JsonParseErrorView::Syntax(m),
    }
}

pub open spec fn value_result_matches(r: Result<JsonValue, JsonParseError>, pos: int, spec: Result<(JsonValueView, int), Seq<char>>) -> bool {
    match spec {
        Ok((v, q)) => r is Ok && r->Ok_0@ == v && pos == q,
        Err(m) => r is Err && r->Err_0@ == JsonParseErrorView::Syntax(m),
    }
}

pub open spec fn entries_result_matches(
    r: Result<Vec<(String, JsonValue)>, JsonParseError>,
    pos: int,
    spec: Result<(Seq<(Seq<char>, JsonValueView)>, int), Seq<char>>,
) -> bool {
    match spec {
        Ok((es, q)) => r is Ok && entry_views(r->Ok_0@) == es && pos == q,
        Err(m) => r is Err && r->Err_0@ == JsonParseErrorView::Syntax(m),
    }
}

fn syntax(message: &str) -> (e: JsonParseError)
    ensures
        e@ == JsonParseErrorView::Syntax(message@),
{
    JsonParseError::Syntax(message.to_string())
}

pub(crate) fn expected_text(c: char, found: Option<char>) -> (m: String)
    ensures
        m@ == expected_message(c, found),
{
    let mut m = String::new();
    string_push_str(&mut m, "'");
    crate::text::string_push(&mut m, c);
    string_push_str(&mut m, "'を期待しましたが");
    let d = debug_option_char(found);
    string_push_str(&mut m, d.as_str());
    string_push_str(&mut m, "でした");
    m
}

pub(crate) fn separator_text(found: Option<char>) -> (m: String)
    ensures
        m@ == separator_message(found),
{
    let mut m = String::new();
    string_push_str(&mut m, "','または'}'を期待しましたが");
    let d = debug_option_char(found);
    string_push_str(&mut m, d.as_str());
    string_push_str(&mut m, "でした");
    m
}

pub(crate) fn with_debug(prefix: &str, found: Option<char>) -> (m: String)
    ensures
        m@ == prefix@ + option_char_debug(found),
{
    let mut m = String::new();
    string_push_str(&mut m, prefix);
    let d = debug_option_char(found);
    string_push_str(&mut m, d.as_str());
    m
}

fn literal_text(literal: &str) -> (m: String)
    ensures
        m@ == literal_message(literal@),
{
    let mut m = String::new();
    string_push_str(&mut m, "'");
    string_push_str(&mut m, literal);
    string_push_str(&mut m, "'を期待しました");
    m
}

fn json_ws(c: char) -> (b: bool)
    ensures
        b == is_json_ws(c),
{
    c == ' ' || c == '\t' || c == '\n' || c == '\r'
}

pub(crate) fn escape_for(e: char) -> (r: Option<char>)
    ensures
        r == escaped_char(e),
{
    if e == '"' {
        Some('"')
    } else if e == '\\' {
        Some('\\')
    } else if e == '/' {
        Some('/')
    } else if e == 'n' {
        Some('\n')
    } else if e == 't' {
        Some('\t')
    } else if e == 'r' {
        Some('\r')
    } else if e == 'b' {
        Some('\u{8}')
    } else if e == 'f' {
        Some('\u{c}')
    } else {
        None
    }
}

/// The characters `v[a..b]`.
pub fn copy_range(v: &Vec<char>, a: usize, b: usize) -> (r: Vec<char>)
    requires
        a <= b <= v@.len(),
    ensures
        r@ == v@.subrange(a as int, b as int),
{
    let mut r: Vec<char> = Vec::new();
    let mut i = a;
    while i < b
        invariant
            a <= i <= b <= v@.len(),
            r@ == v@.subrange(a as int, i as int),
        decreases b - i,
    {
        r.push(v[i]);
        assert(v@.subrange(a as int, i + 1) =~= v@.subrange(a as int, i as int).push(v@[i as int]));
        i = i + 1;
    }
    r
}

/// A reading position over the characters of a JSON text.
pub struct JsonCursor {
    chars: Vec<char>,
    pos: usize,
}

impl View for JsonCursor {
    type V = (Seq<char>, int);

    /// The characters, and the position of the next one to read.
    closed spec fn view(&self) -> (Seq<char>, int) {
        (self.chars@, self.pos as int)
    }
}

impl JsonCursor {
    /// The position lies within the text.
    pub closed spec fn wf(&self) -> bool {
        self.pos <= self.chars@.len()
    }

    /// A cursor at the start of `input`.
    pub fn new(input: &str) -> (c: Self)
        ensures
            c.wf(),
            c@ == (input@, 0int),
    {
        JsonCursor { chars: str_to_chars(input), pos: 0 }
    }

    /// Skips spaces, tabs, newlines and carriage returns.
    pub fn skip_whitespace(&mut self)
        requires
            old(self).wf(),
        ensures
            final(self).wf(),
            final(self)@ == (old(self)@.0, skip_ws(old(self)@.0, old(self)@.1)),
    {
        while self.pos < self.chars.len() && json_ws(self.chars[self.pos])
            invariant
                self.wf(),
                self.chars@ == old(self).chars@,
                skip_ws(old(self)@.0, old(self)@.1) == skip_ws(self@.0, self@.1),
            decreases self.chars@.len() - self.pos,
        {
            self.pos = self.pos + 1;
        }
    }

    /// The next character, if any, without moving.
    pub fn peek(&self) -> (c: Option<char>)
        requires
            self.wf(),
        ensures
            c == char_at(self@.0, self@.1),
    {
        if self.pos < self.chars.len() {
            Some(self.chars[self.pos])
        } else {
            None
        }
    }

    /// The next character, if any, moving past it.
    pub fn advance(&mut self) -> (c: Option<char>)
        requires
            old(self).wf(),
        ensures
            final(self).wf(),
            final(self)@.0 == old(self)@.0,
            c == char_at(old(self)@.0, old(self)@.1),
            final(self)@.1 == (if c is Some { old(self)@.1 + 1 } else { old(self)@.1 }),
    {
        if self.pos < self.chars.len() {
            let c = self.chars[self.pos];
            self.pos = self.pos + 1;
            Some(c)
        } else {
            None
        }
    }

    /// Reads `expected`, or fails naming what was found instead.
    pub fn expect(&mut self, expected: char) -> (r: Result<(), JsonParseError>)
        requires
            old(self).wf(),
        ensures
            final(self).wf(),
            final(self)@.0 == old(self)@.0,
            match spec_expect(old(self)@.0, old(self)@.1, expected) {
                Ok(q) => r is Ok && final(self)@.1 == q,
                Err(m) => r is Err && r->Err_0@ == JsonParseErrorView::Syntax(m),
            },
    {
        let c = self.advance();
        match c {
            Some(found) => if found == expected {
                Ok(())
            } else {
                Err(JsonParseError::Syntax(expected_text(expected, c)))
            },
            None => Err(JsonParseError::Syntax(expected_text(expected, c))),
        }
    }

    /// Reads four hexadecimal digits of a `\u` escape.
    pub fn take_hex4(&mut self) -> (r: Result<u32, JsonParseError>)
        requires
            old(self).wf(),
        ensures
            final(self).wf(),
            final(self)@.0 == old(self)@.0,
            match hex_digits_from(old(self)@.0, old(self)@.1, 4, 0) {
                Ok(v) => r is Ok && r->Ok_0 == v && v < 0x10000 && final(self)@.1 == old(self)@.1 + 4,
                Err(m) => r is Err && r->Err_0@ == JsonParseErrorView::Syntax(m),
            },
    {
        let ghost s = old(self)@.0;
        let ghost p0 = old(self)@.1;
        let mut value: u32 = 0;
        let mut i: usize = 0;
        while i < 4
            invariant
                self.wf(),
                self@.0 == s,
                s == old(self)@.0,
                p0 == old(self)@.1,
                i <= 4,
                self@.1 == p0 + i,
                hex_digits_from(s, p0, 4, 0) == hex_digits_from(s, p0 + i, (4 - i) as nat, value as nat),
                i == 0 ==> value == 0,
                i == 1 ==> value < 16,
                i == 2 ==> value < 256,
                i == 3 ==> value < 4096,
                i == 4 ==> value < 65536,
            decreases 4 - i,
        {
            let c = match self.advance() {
                Some(c) => c,
                None => { return Err(syntax("\\uエスケープが不完全です")); },
            };
            let d = match hex_digit(c) {
                Some(d) => d,
                None => { return Err(syntax("不正な16進数エスケープです")); },
            };
            assert(d < 16);
            value = value * 16 + d;
            i = i + 1;
        }
        Ok(value)
    }

    /// Reads a string literal, decoding its escapes.
    pub fn parse_string(&mut self) -> (r: Result<String, JsonParseError>)
        requires
            old(self).wf(),
        ensures
            final(self).wf(),
            final(self)@.0 == old(self)@.0,
            text_result_matches(r, final(self)@.1, spec_parse_string(old(self)@.0, old(self)@.1)),
    {
        let ghost s = old(self)@.0;
        match self.expect('"') {
            Ok(()) => {},
            Err(e) => { return Err(e); },
        }
        let ghost q0 = self@.1;
        let mut acc: Vec<char> = Vec::new();
        loop
            invariant
                self.wf(),
                self@.0 == s,
                s == old(self)@.0,
                spec_parse_string(s, old(self)@.1) == string_body(s, q0, seq![]),
                string_body(s, q0, seq![]) == string_body(s, self@.1, acc@),
            decreases s.len() - self@.1,
        {
            let ghost p = self@.1;
            let c = self.advance();
            match c {
                None => {
                    return Err(syntax("文字列が閉じられていません"));
                },
                Some(ch) => {
                    if ch == '"' {
                        return Ok(chars_to_string(acc.as_slice()));
                    } else if ch == '\\' {
                        let e = self.advance();
                        match e {
                            None => {
                                return Err(JsonParseError::Syntax(with_debug("不正なエスケープです: ", e)));
                            },
                            Some(ec) => {
                                match escape_for(ec) {
                                    Some(x) => {
                                        acc.push(x);
                                    },
                                    None => {
                                        if ec == 'u' {
                                            let code = match self.take_hex4() {
                                                Ok(v) => v,
                                                Err(err) => { return Err(err); },
                                            };
                                            proof {
                                                lemma_hex_digits_bounds(s, p + 2, 4, 0);
                                            }
                                            let decoded = match char_from_code(code) {
                                                Some(x) => x,
                                                None => '\u{FFFD}',
                                            };
                                            assert(decoded == code_char(code as nat));
                                            acc.push(decoded);
                                        } else {
                                            return Err(JsonParseError::Syntax(with_debug("不正なエスケープです: ", e)));
                                        }
                                    },
                                }
                            },
                        }
                    } else {
                        acc.push(ch);
                    }
                },
            }
        }
    }

    /// Moves past a run of ASCII digits.
    fn skip_digits(&mut self)
        requires
            old(self).wf(),
        ensures
            final(self).wf(),
            final(self)@ == (old(self)@.0, digits_end(old(self)@.0, old(self)@.1)),
    {
        while self.pos < self.chars.len() && ascii_digit(self.chars[self.pos])
            invariant
                self.wf(),
                self.chars@ == old(self).chars@,
                digits_end(old(self)@.0, old(self)@.1) == digits_end(self@.0, self@.1),
            decreases self.chars@.len() - self.pos,
        {
            self.pos = self.pos + 1;
        }
    }

    /// Reads a number, yielding the text it is written as.
    pub fn parse_number(&mut self) -> (r: Result<String, JsonParseError>)
        requires
            old(self).wf(),
        ensures
            final(self).wf(),
            final(self)@.0 == old(self)@.0,
            text_result_matches(r, final(self)@.1, spec_parse_number(old(self)@.0, old(self)@.1)),
    {
        let ghost s = old(self)@.0;
        let ghost p = old(self)@.1;
        let start = self.pos;
        if self.peek() == Some('-') {
            self.advance();
        }
        let int_start = self.pos;
        self.skip_digits();
        let mut has_digits = self.pos > int_start;
        if self.peek() == Some('.') {
            self.advance();
            let frac_start = self.pos;
            self.skip_digits();
            if self.pos > frac_start {
                has_digits = true;
            }
        }
        let mut exponent = false;
        let mut exp_start: usize = 0;
        let marker = self.peek();
        if marker == Some('e') || marker == Some('E') {
            self.advance();
            let sign = self.peek();
            if sign == Some('+') || sign == Some('-') {
                self.advance();
            }
            exponent = true;
            exp_start = self.pos;
            self.skip_digits();
        }
        proof {
            lemma_number_bounds(s, p);
        }
        if !has_digits {
            return Err(syntax("数値の形式が不正です"));
        }
        if exponent && self.pos == exp_start {
            return Err(syntax("数値のパースに失敗しました"));
        }
        let text = copy_range(&self.chars, start, self.pos);
        Ok(chars_to_string(text.as_slice()))
    }

    /// Reads the literal `literal` and yields `value`.
    pub fn parse_literal(&mut self, literal: &str, value: JsonValue) -> (r: Result<JsonValue, JsonParseError>)
        requires
            old(self).wf(),
        ensures
            final(self).wf(),
            final(self)@.0 == old(self)@.0,
            value_result_matches(r, final(self)@.1, spec_parse_literal(old(self)@.0, old(self)@.1, literal@, value@)),
    {
        let lit = str_to_chars(literal);
        let n = lit.len();
        if n <= self.chars.len() - self.pos {
            let mut i: usize = 0;
            while i < n
                invariant
                    self.wf(),
                    self.chars@ == old(self).chars@,
                    self.pos == old(self).pos,
                    n == lit@.len(),
                    lit@ == literal@,
                    n <= self.chars.len() - self.pos,
                    i <= n,
                    forall|k: int| 0 <= k < i ==> self.chars@[self.pos + k] == lit@[k],
                decreases n - i,
            {
                if self.chars[self.pos + i] != lit[i] {
                    proof {
                        let sub = self.chars@.subrange(self.pos as int, self.pos + n);
                        assert(sub[i as int] != literal@[i as int]);
                        assert(sub != literal@);
                        assert(old(self)@.0 == self.chars@);
                        assert(old(self)@.1 == self.pos);
                        assert(!literal_at(old(self)@.0, old(self)@.1, literal@));
                    }
                    return Err(JsonParseError::Syntax(literal_text(literal)));
                }
                i = i + 1;
            }
            assert(self.chars@.subrange(self.pos as int, self.pos + n) =~= lit@);
            self.pos = self.pos + n;
            Ok(value)
        } else {
            Err(JsonParseError::Syntax(literal_text(literal)))
        }
    }

    /// Reads a value after optional white space.
    pub fn parse_value(&mut self) -> (r: Result<JsonValue, JsonParseError>)
        requires
            old(self).wf(),
        ensures
            final(self).wf(),
            final(self)@.0 == old(self)@.0,
            value_result_matches(r, final(self)@.1, spec_parse_value(old(self)@.0, old(self)@.1)),
    {
        self.skip_whitespace();
        let next = self.peek();
        match next {
            Some(c) => {
                if c == '"' {
                    match self.parse_string() {
                        Ok(t) => Ok(JsonValue::String(t)),
                        Err(e) => Err(e),
                    }
                } else if c == 't' {
                    self.parse_literal("true", JsonValue::Bool(true))
                } else if c == 'f' {
                    self.parse_literal("false", JsonValue::Bool(false))
                } else if c == 'n' {
                    self.parse_literal("null", JsonValue::Null)
                } else if c == '-' || ascii_digit(c) {
                    match self.parse_number() {
                        Ok(t) => Ok(JsonValue::Number(t)),
                        Err(e) => Err(e),
                    }
                } else {
                    Err(JsonParseError::Syntax(with_debug("予期しない値です: ", next)))
                }
            },
            None => Err(JsonParseError::Syntax(with_debug("予期しない値です: ", next))),
        }
    }

    /// Reads an object after optional white space: its entries in the order written.
    pub fn parse_object(&mut self) -> (r: Result<Vec<(String, JsonValue)>, JsonParseError>)
        requires
            old(self).wf(),
        ensures
            final(self).wf(),
            final(self)@.0 == old(self)@.0,
            entries_result_matches(r, final(self)@.1, spec_parse_object(old(self)@.0, old(self)@.1)),
    {
        let ghost s = old(self)@.0;
        self.skip_whitespace();
        match self.expect('{') {
            Ok(()) => {},
            Err(e) => { return Err(e); },
        }
        self.skip_whitespace();
        let mut entries: Vec<(String, JsonValue)> = Vec::new();
        if self.peek() == Some('}') {
            self.advance();
            assert(entry_views(entries@) =~= Seq::<(Seq<char>, JsonValueView)>::empty());
            return Ok(entries);
        }
        assert(entry_views(entries@) =~= Seq::<(Seq<char>, JsonValueView)>::empty());
        loop
            invariant
                self.wf(),
                self@.0 == s,
                s == old(self)@.0,
                spec_parse_object(s, old(self)@.1) == spec_members(s, self@.1, entry_views(entries@)),
            decreases s.len() - self@.1,
        {
            let ghost p = self@.1;
            let ghost before = entry_views(entries@);
            self.skip_whitespace();
            let ghost q = self@.1;
            let key = match self.parse_string() {
                Ok(k) => k,
                Err(e) => { return Err(e); },
            };
            let ghost q2 = self@.1;
            self.skip_whitespace();
            match self.expect(':') {
                Ok(()) => {},
                Err(e) => { return Err(e); },
            }
            let ghost q4 = self@.1;
            let value = match self.parse_value() {
                Ok(v) => v,
                Err(e) => { return Err(e); },
            };
            let ghost q5 = self@.1;
            entries.push((key, value));
            assert(entry_views(entries@) =~= before.push((key@, value@)));
            self.skip_whitespace();
            proof {
                lemma_skip_ws_bounds(s, p);
                lemma_parse_string_advances(s, q);
                lemma_skip_ws_bounds(s, q2);
                lemma_parse_value_advances(s, q4);
                lemma_skip_ws_bounds(s, q5);
            }
            let sep = self.advance();
            match sep {
                Some(c) => {
                    if c == ',' {
                    } else if c == '}' {
                        return Ok(entries);
                    } else {
                        return Err(JsonParseError::Syntax(separator_text(sep)));
                    }
                },
                None => {
                    return Err(JsonParseError::Syntax(separator_text(sep)));
                },
            }
        }
    }
}

/// The entries of a parsed flat object; a key read twice keeps its last value.
pub struct JsonObject {
    entries: Vec<(String, JsonValue)>,
}

impl View for JsonObject {
    type V = Seq<(Seq<char>, JsonValueView)>;

    closed spec fn view(&self) -> Seq<(Seq<char>, JsonValueView)> {
        entry_views(self.entries@)
    }
}

impl JsonObject {
    /// The value of `key`: that of its last entry.
    pub fn get(&self, key: &str) -> (r: Option<&JsonValue>)
        ensures
            match r {
                Some(v) => lookup(self@, key@) == Some(v@),
                None => lookup(self@, key@) is None,
            },
    {
        let wanted = key.to_string();
        let mut i = self.entries.len();
        assert(self.entries@.subrange(0, i as int) =~= self.entries@);
        while i > 0
            invariant
                i <= self.entries@.len(),
                wanted@ == key@,
                lookup(self@, key@) == lookup(entry_views(self.entries@.subrange(0, i as int)), key@),
            decreases i,
        {
            let ghost es = entry_views(self.entries@.subrange(0, i as int));
            assert(es.drop_last() =~= entry_views(self.entries@.subrange(0, i - 1)));
            if self.entries[i - 1].0 == wanted {
                return Some(&self.entries[i - 1].1);
            }
            i = i - 1;
        }
        None
    }

    /// The number of entries read.
    pub fn len(&self) -> (n: usize)
        ensures
            n == self@.len(),
    {
        self.entries.len()
    }
}

/// Reads `input` as exactly one flat JSON object, white space allowed around it.
pub fn parse_flat_json_object(input: &str) -> (r: Result<JsonObject, JsonParseError>)
    ensures
        match spec_parse_flat_object(input@) {
            Ok(es) => r is Ok && r->Ok_0@ == es,
            Err(m) => r is Err && r->Err_0@ == JsonParseErrorView::Syntax(m),
        },
{
    let mut cursor = JsonCursor::new(input);
    let entries = match cursor.parse_object() {
        Ok(es) => es,
        Err(e) => { return Err(e); },
    };
    cursor.skip_whitespace();
    if cursor.pos < cursor.chars.len() {
        return Err(syntax("JSONオブジェクトの後に余分な文字があります"));
    }
    Ok(JsonObject { entries })
}

/// The string value of `key`: `MissingField` where it is absent,
/// `UnexpectedType` where it holds something else.
pub fn get_string(map: &JsonObject, key: &str) -> (r: Result<String, JsonParseError>)
    ensures
        match lookup(map@, key@) {
            Some(JsonValueView::String(t)) => r is Ok && r->Ok_0@ == t,
            Some(_) => r is Err && r->Err_0@ == JsonParseErrorView::UnexpectedType(key@),
            None => r is Err && r->Err_0@ == JsonParseErrorView::MissingField(key@),
        },
{
    match map.get(key) {
        Some(JsonValue::String(s)) => Ok(s.clone()),
        Some(_) => Err(JsonParseError::UnexpectedType(key.to_string())),
        None => Err(JsonParseError::MissingField(key.to_string())),
    }
}

/// The number text of `key`: `None` where it is absent or null,
/// `UnexpectedType` where it holds a string or a boolean.
pub fn get_optional_number(map: &JsonObject, key: &str) -> (r: Result<Option<String>, JsonParseError>)
    ensures
        match lookup(map@, key@) {
            None | Some(JsonValueView::Null) => r is Ok && r->Ok_0 is None,
            Some(JsonValueView::Number(t)) => r is Ok && r->Ok_0 is Some && r->Ok_0->Some_0@ == t,
            Some(_) => r is Err && r->Err_0@ == JsonParseErrorView::UnexpectedType(key@),
        },
{
    match map.get(key) {
        None => Ok(None),
        Some(JsonValue::Null) => Ok(None),
        Some(JsonValue::Number(t)) => Ok(Some(t.clone())),
        Some(_) => Err(JsonParseError::UnexpectedType(key.to_string())),
    }
}

} // verus!
