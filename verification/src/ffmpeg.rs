//! ffmpeg: its command line, the `-progress pipe:1` blocks it prints, and
//! how its exit is judged.
//!
//! Each progress update is a block of `key=value` lines ending with
//! `progress=continue` or `progress=end`. Only the keys that the GUI shows
//! are read; values that are `N/A` or negative count as unknown.

use crate::flat_json::copy_range;
use crate::numbers::{float_text_valid, is_float_text, parse_i64, parse_u64, spec_parse_i64, spec_parse_u64};
use crate::text::{chars_equal, chars_to_string, split_by, split_chars, str_to_chars, string_views, trim_chars, trimmed};
use vstd::prelude::*;

verus! {

/// Why running ffmpeg failed.
#[derive(Debug)]
pub enum FfmpegError {
    Spawn(std::io::Error),
    StdoutUnavailable,
    ReadStdout(std::io::Error),
    Wait(std::io::Error),
    ExitFailure { code: i32, stderr: String },
    TerminatedWithoutCode { stderr: String },
}

/// How a progress block ends: `progress=end` marks the end of the output
/// stream, which says nothing of the process's exit code.
#[derive(Debug, Clone, Copy, PartialEq, Eq, Structural)]
pub enum ProgressState {
    Continue,
    End,
}

impl Default for ProgressState {
    fn default() -> (s: Self)
        ensures
            s == ProgressState::Continue,
    {
        ProgressState::Continue
    }
}

/// The elapsed output time of a block: a count of microseconds, or the
/// `HH:MM:SS.ffffff` text split at its colons (each part a number that
/// `f64::from_str` accepts, none negative), or unknown.
#[derive(Debug, Clone, PartialEq)]
pub enum OutTime {
    Micros(i64),
    Clock { hours: String, minutes: String, seconds: String },
    Unknown,
}

pub enum OutTimeView {
    Micros(i64),
    Clock { hours: Seq<char>, minutes: Seq<char>, seconds: Seq<char> },
    Unknown,
}

impl View for OutTime {
    type V = OutTimeView;

    open spec fn view(&self) -> OutTimeView {
        match self {
            OutTime::Micros(us) => OutTimeView::Micros(*us),
            OutTime::Clock { hours, minutes, seconds } => OutTimeView::Clock {
                hours: hours@,
                minutes: minutes@,
                seconds: seconds@,
            },
            OutTime::Unknown => OutTimeView::Unknown,
        }
    }
}

/// One parsed progress block. `fps` holds the text of the frame rate, which
/// `f64::from_str` accepts.
#[derive(Debug, Clone, PartialEq)]
pub struct FfmpegProgressBlock {
    pub frame: Option<u64>,
    pub fps: Option<String>,
    pub bitrate: Option<String>,
    pub total_size: Option<u64>,
    pub out_time: OutTime,
    pub speed: Option<String>,
    pub state: ProgressState,
}

pub struct FfmpegProgressBlockView {
    pub frame: Option<u64>,
    pub fps: Option<Seq<char>>,
    pub bitrate: Option<Seq<char>>,
    pub total_size: Option<u64>,
    pub out_time: OutTimeView,
    pub speed: Option<Seq<char>>,
    pub state: ProgressState,
}

pub open spec fn opt_view(o: Option<String>) -> Option<Seq<char>> {
    match o {
        Some(s) => Some(s@),
        None => None,
    }
}

impl View for FfmpegProgressBlock {
    type V = FfmpegProgressBlockView;

    open spec fn view(&self) -> FfmpegProgressBlockView {
        FfmpegProgressBlockView {
            frame: self.frame,
            fps: opt_view(self.fps),
            bitrate: opt_view(self.bitrate),
            total_size: self.total_size,
            out_time: self.out_time@,
            speed: opt_view(self.speed),
            state: self.state,
        }
    }
}

// ---- what a block means ----

/// The first position at or after `i` holding `c`, if any.
pub open spec fn index_of_from(s: Seq<char>, i: int, c: char) -> Option<int>
    decreases s.len() - i,
{
    if i < 0 || i >= s.len() {
        None
    } else if s[i] == c {
        Some(i)
    } else {
        index_of_from(s, i + 1, c)
    }
}

pub proof fn lemma_index_of_from(s: Seq<char>, i: int, c: char)
    ensures
        index_of_from(s, i, c) matches Some(j) ==> i <= j < s.len() && s[j] == c,
    decreases s.len() - i,
{
    if 0 <= i < s.len() && s[i] != c {
        lemma_index_of_from(s, i + 1, c);
    }
}

/// A line `key=value`, cut at its first `=`, with both sides trimmed;
/// `None` for a line without `=`.
pub open spec fn line_entry(line: Seq<char>) -> Option<(Seq<char>, Seq<char>)> {
    match index_of_from(line, 0, '=') {
        Some(i) => Some((trimmed(line.subrange(0, i)), trimmed(line.skip(i + 1)))),
        None => None,
    }
}

/// The entries of a block, in line order.
pub open spec fn block_entries(lines: Seq<Seq<char>>) -> Seq<(Seq<char>, Seq<char>)>
    decreases lines.len(),
{
    if lines.len() == 0 {
        seq![]
    } else {
        let rest = block_entries(lines.drop_last());
        match line_entry(lines.last()) {
            Some(e) => rest.push(e),
            None => rest,
        }
    }
}

/// The value of the last entry with this key: a key repeated in a block
/// keeps its last value.
pub open spec fn entry_lookup(entries: Seq<(Seq<char>, Seq<char>)>, key: Seq<char>) -> Option<Seq<char>>
    decreases entries.len(),
{
    if entries.len() == 0 {
        None
    } else if entries.last().0 == key {
        Some(entries.last().1)
    } else {
        entry_lookup(entries.drop_last(), key)
    }
}

/// A key's value read as an `i64`, kept only when it is not negative.
pub open spec fn nonneg_i64_entry(entries: Seq<(Seq<char>, Seq<char>)>, key: Seq<char>) -> Option<i64> {
    match entry_lookup(entries, key) {
        Some(v) => match spec_parse_i64(v) {
            Some(n) => if n >= 0 {
                Some(n)
            } else {
                None
            },
            None => None,
        },
        None => None,
    }
}

/// `N/A` and the empty text mean "not known yet".
pub open spec fn known_text(v: Option<Seq<char>>) -> Option<Seq<char>> {
    match v {
        Some(t) => if t.len() > 0 && t != "N/A"@ {
            Some(t)
        } else {
            None
        },
        None => None,
    }
}

/// One part of a clock time: a number text that `f64::from_str` accepts,
/// not written with a minus sign (a negative time is not known yet).
pub open spec fn clock_part(t: Seq<char>) -> bool {
    float_text_valid(t) && !(t.len() > 0 && t[0] == '-')
}

/// `HH:MM:SS.ffffff`: exactly three colon-separated parts, each a number text
/// without a minus sign; anything else, a negative time included, is unknown.
pub open spec fn clock_out_time(v: Seq<char>) -> OutTimeView {
    let parts = split_by(v, seq![':']);
    if parts.len() == 3 && clock_part(parts[0]) && clock_part(parts[1]) && clock_part(parts[2]) {
        OutTimeView::Clock { hours: parts[0], minutes: parts[1], seconds: parts[2] }
    } else {
        OutTimeView::Unknown
    }
}

/// The elapsed time: `out_time_us`, else `out_time_ms` times 1000, else the
/// `out_time` clock text, whichever is first known.
pub open spec fn spec_out_time(entries: Seq<(Seq<char>, Seq<char>)>) -> OutTimeView {
    match nonneg_i64_entry(entries, "out_time_us"@) {
        Some(us) => OutTimeView::Micros(us),
        None => match nonneg_i64_entry(entries, "out_time_ms"@) {
            Some(ms) => OutTimeView::Micros((ms * 1000) as i64),
            None => match entry_lookup(entries, "out_time"@) {
                Some(v) => clock_out_time(v),
                None => OutTimeView::Unknown,
            },
        },
    }
}

/// The block does not ask for a millisecond time too large to count in microseconds.
pub open spec fn out_time_in_range(lines: Seq<Seq<char>>) -> bool {
    let entries = block_entries(lines);
    (nonneg_i64_entry(entries, "out_time_us"@) is None && nonneg_i64_entry(entries, "out_time_ms"@) is Some)
        ==> nonneg_i64_entry(entries, "out_time_ms"@)->Some_0 * 1000 <= i64::MAX
}

pub open spec fn spec_progress_block(lines: Seq<Seq<char>>) -> FfmpegProgressBlockView {
    let es = block_entries(lines);
    FfmpegProgressBlockView {
        frame: match entry_lookup(es, "frame"@) {
            Some(v) => spec_parse_u64(v),
            None => None,
        },
        fps: match entry_lookup(es, "fps"@) {
            Some(v) => if float_text_valid(v) {
                Some(v)
            } else {
                None
            },
            None => None,
        },
        bitrate: known_text(entry_lookup(es, "bitrate"@)),
        total_size: match nonneg_i64_entry(es, "total_size"@) {
            Some(n) => Some(n as u64),
            None => None,
        },
        out_time: spec_out_time(es),
        speed: known_text(entry_lookup(es, "speed"@)),
        state: if entry_lookup(es, "progress"@) == Some("end"@) {
            ProgressState::End
        } else {
            ProgressState::Continue
        },
    }
}

pub open spec fn line_views(lines: Seq<&str>) -> Seq<Seq<char>> {
    lines.map_values(|l: &str| l@)
}

// ---- reading a block ----

pub open spec fn entry_views(entries: Seq<(Vec<char>, Vec<char>)>) -> Seq<(Seq<char>, Seq<char>)> {
    entries.map_values(|e: (Vec<char>, Vec<char>)| (e.0@, e.1@))
}

fn first_index_of(s: &Vec<char>, c: char) -> (r: Option<usize>)
    ensures
        match index_of_from(s@, 0, c) {
            Some(i) => r == Some(i as usize),
            None => r is None,
        },
{
    let n = s.len();
    let mut i: usize = 0;
    while i < n
        invariant
            i <= n == s@.len(),
            index_of_from(s@, 0, c) == index_of_from(s@, i as int, c),
        decreases n - i,
    {
        if s[i] == c {
            return Some(i);
        }
        i = i + 1;
    }
    None
}

fn split_line(line: &str) -> (r: Option<(Vec<char>, Vec<char>)>)
    ensures
        match line_entry(line@) {
            Some(e) => r is Some && r->Some_0.0@ == e.0 && r->Some_0.1@ == e.1,
            None => r is None,
        },
{
    let chars = str_to_chars(line);
    proof {
        lemma_index_of_from(chars@, 0, '=');
    }
    match first_index_of(&chars, '=') {
        Some(i) => {
            let key = copy_range(&chars, 0, i);
            let value = copy_range(&chars, i + 1, chars.len());
            assert(value@ =~= line@.skip(i + 1));
            Some((trim_chars(key.as_slice()), trim_chars(value.as_slice())))
        },
        None => None,
    }
}

fn collect_entries(block_lines: &[&str]) -> (entries: Vec<(Vec<char>, Vec<char>)>)
    ensures
        entry_views(entries@) == block_entries(line_views(block_lines@)),
{
    let mut entries: Vec<(Vec<char>, Vec<char>)> = Vec::new();
    let n = block_lines.len();
    assert(entry_views(entries@) =~= block_entries(line_views(block_lines@.subrange(0, 0))));
    for i in 0..n
        invariant
            n == block_lines@.len(),
            entry_views(entries@) == block_entries(line_views(block_lines@.subrange(0, i as int))),
    {
        let ghost before = entries@;
        let ghost upto = line_views(block_lines@.subrange(0, i + 1));
        assert(upto.drop_last() =~= line_views(block_lines@.subrange(0, i as int)));
        assert(upto.last() == block_lines@[i as int]@);
        match split_line(block_lines[i]) {
            Some(e) => {
                entries.push(e);
                assert(entry_views(entries@) =~= entry_views(before).push((e.0@, e.1@)));
            },
            None => {},
        }
    }
    assert(block_lines@.subrange(0, n as int) =~= block_lines@);
    entries
}

fn find_entry(entries: &Vec<(Vec<char>, Vec<char>)>, key: &str) -> (r: Option<usize>)
    ensures
        match entry_lookup(entry_views(entries@), key@) {
            Some(v) => r is Some && r->Some_0 < entries@.len() && entries@[r->Some_0 as int].1@ == v,
            None => r is None,
        },
{
    let k = str_to_chars(key);
    let mut i = entries.len();
    assert(entries@.subrange(0, i as int) =~= entries@);
    while i > 0
        invariant
            i <= entries@.len(),
            k@ == key@,
            entry_lookup(entry_views(entries@), key@) == entry_lookup(entry_views(entries@.subrange(0, i as int)), key@),
        decreases i,
    {
        let ghost es = entry_views(entries@.subrange(0, i as int));
        assert(es.drop_last() =~= entry_views(entries@.subrange(0, i - 1)));
        if chars_equal(entries[i - 1].0.as_slice(), k.as_slice()) {
            return Some(i - 1);
        }
        i = i - 1;
    }
    None
}

fn lookup_text(entries: &Vec<(Vec<char>, Vec<char>)>, key: &str) -> (r: Option<Vec<char>>)
    ensures
        match entry_lookup(entry_views(entries@), key@) {
            Some(v) => r is Some && r->Some_0@ == v,
            None => r is None,
        },
{
    match find_entry(entries, key) {
        Some(i) => Some(copy_range(&entries[i].1, 0, entries[i].1.len())),
        None => None,
    }
}

fn nonneg_i64(entries: &Vec<(Vec<char>, Vec<char>)>, key: &str) -> (r: Option<i64>)
    ensures
        r == nonneg_i64_entry(entry_views(entries@), key@),
{
    match lookup_text(entries, key) {
        Some(v) => match parse_i64(v.as_slice()) {
            Some(n) => if n >= 0 {
                Some(n)
            } else {
                None
            },
            None => None,
        },
        None => None,
    }
}

pub open spec fn opt_str_view(v: Option<&str>) -> Option<Seq<char>> {
    match v {
        Some(t) => Some(t@),
        None => None,
    }
}

/// A `bitrate` or `speed` value, unless it is `N/A` or empty: ffmpeg prints
/// `N/A` while the value is not settled.
pub fn non_na_string(value: Option<&str>) -> (r: Option<String>)
    ensures
        opt_view(r) == known_text(opt_str_view(value)),
{
    match value {
        Some(v) => {
            if !v.is_empty() && v.to_string() != "N/A".to_string() {
                Some(v.to_string())
            } else {
                None
            }
        },
        None => None,
    }
}

fn known_entry(entries: &Vec<(Vec<char>, Vec<char>)>, key: &str) -> (r: Option<String>)
    ensures
        opt_view(r) == known_text(entry_lookup(entry_views(entries@), key@)),
{
    match lookup_text(entries, key) {
        Some(v) => {
            let t = chars_to_string(v.as_slice());
            non_na_string(Some(t.as_str()))
        },
        None => non_na_string(None),
    }
}

fn is_clock_part(t: &Vec<char>) -> (b: bool)
    ensures
        b == clock_part(t@),
{
    is_float_text(t.as_slice()) && !(t.len() > 0 && t[0] == '-')
}

/// Splits an `out_time` value, `HH:MM:SS.ffffff`, into its three parts; it is
/// `Unknown` unless there are exactly three, each a number text that
/// `f64::from_str` accepts and that has no minus sign.
pub fn parse_out_time_string(value: &str) -> (t: OutTime)
    ensures
        t@ == clock_out_time(value@),
{
    let chars = str_to_chars(value);
    let parts = split_chars(chars.as_slice(), &[':']);
    proof {
        assert(seq![':'] =~= [':']@);
    }
    if parts.len() == 3 && is_clock_part(&parts[0]) && is_clock_part(&parts[1]) && is_clock_part(&parts[2]) {
        OutTime::Clock {
            hours: chars_to_string(parts[0].as_slice()),
            minutes: chars_to_string(parts[1].as_slice()),
            seconds: chars_to_string(parts[2].as_slice()),
        }
    } else {
        OutTime::Unknown
    }
}

/// Whether a block's `out_time_ms`, where it is the one used, counts in
/// microseconds without overflow.
pub fn progress_block_in_range(block_lines: &[&str]) -> (b: bool)
    ensures
        b == out_time_in_range(line_views(block_lines@)),
{
    let entries = collect_entries(block_lines);
    let us = nonneg_i64(&entries, "out_time_us");
    let ms = nonneg_i64(&entries, "out_time_ms");
    match (us, ms) {
        (None, Some(ms)) => ms <= 9223372036854775,
        _ => true,
    }
}

/// Reads one progress block (its lines, the closing `progress=...` line
/// included). Lines without `=` are ignored; for a repeated key the last
/// value counts.
pub fn parse_progress_block(block_lines: &[&str]) -> (block: FfmpegProgressBlock)
    requires
        out_time_in_range(line_views(block_lines@)),
    ensures
        block@ == spec_progress_block(line_views(block_lines@)),
{
    let entries = collect_entries(block_lines);
    let ghost es = block_entries(line_views(block_lines@));
    let frame = match lookup_text(&entries, "frame") {
        Some(v) => parse_u64(v.as_slice()),
        None => None,
    };
    let fps = match lookup_text(&entries, "fps") {
        Some(v) => if is_float_text(v.as_slice()) {
            Some(chars_to_string(v.as_slice()))
        } else {
            None
        },
        None => None,
    };
    let bitrate = known_entry(&entries, "bitrate");
    let total_size = match nonneg_i64(&entries, "total_size") {
        Some(n) => Some(n as u64),
        None => None,
    };
    let out_time = match nonneg_i64(&entries, "out_time_us") {
        Some(us) => OutTime::Micros(us),
        None => match nonneg_i64(&entries, "out_time_ms") {
            Some(ms) => OutTime::Micros(ms * 1000),
            None => match lookup_text(&entries, "out_time") {
                Some(v) => {
                    let text = chars_to_string(v.as_slice());
                    parse_out_time_string(text.as_str())
                },
                None => OutTime::Unknown,
            },
        },
    };
    let speed = known_entry(&entries, "speed");
    let state = match lookup_text(&entries, "progress") {
        Some(v) => {
            let end = str_to_chars("end");
            if chars_equal(v.as_slice(), end.as_slice()) {
                ProgressState::End
            } else {
                ProgressState::Continue
            }
        },
        None => ProgressState::Continue,
    };
    FfmpegProgressBlock { frame, fps, bitrate, total_size, out_time, speed, state }
}

/// Whether a line closes a progress block.
pub fn is_block_terminator(line: &str) -> (b: bool)
    ensures
        b == spec_block_terminator(line@),
{
    let chars = str_to_chars(line);
    let cont = str_to_chars("progress=continue");
    let end = str_to_chars("progress=end");
    chars_equal(chars.as_slice(), cont.as_slice()) || chars_equal(chars.as_slice(), end.as_slice())
}

/// A line that closes a progress block.
pub open spec fn spec_block_terminator(line: Seq<char>) -> bool {
    line == "progress=continue"@ || line == "progress=end"@
}

/// Adds a line read from ffmpeg to the block being gathered in `pending`.
/// Where the line closes the block, the block's lines, that line included,
/// are handed out and `pending` starts empty again.
pub fn gather_block_line(pending: &mut Vec<String>, line: String) -> (block: Option<Vec<String>>)
    ensures
        spec_block_terminator(line@) ==> block is Some && block->0@ == old(pending)@.push(line) && final(pending)@.len() == 0,
        !spec_block_terminator(line@) ==> block is None && final(pending)@ == old(pending)@.push(line),
{
    let closes = is_block_terminator(line.as_str());
    pending.push(line);
    if closes {
        let mut done: Vec<String> = Vec::new();
        std::mem::swap(&mut done, pending);
        Some(done)
    } else {
        None
    }
}

pub open spec fn spec_ffmpeg_args(args: Seq<Seq<char>>) -> Seq<Seq<char>> {
    args + seq!["-progress"@, "pipe:1"@, "-nostats"@]
}

/// The arguments handed to ffmpeg: the caller's, then `-progress pipe:1
/// -nostats`, always, so that progress arrives as key=value blocks on stdout.
pub fn ffmpeg_args(args: &[String]) -> (all: Vec<String>)
    ensures
        string_views(all@) == spec_ffmpeg_args(string_views(args@)),
{
    let mut all: Vec<String> = Vec::new();
    let n = args.len();
    for i in 0..n
        invariant
            n == args@.len(),
            string_views(all@) == string_views(args@.subrange(0, i as int)),
    {
        let ghost before = all@;
        let item = args[i].clone();
        all.push(item);
        assert(string_views(all@) =~= string_views(before).push(item@));
        assert(string_views(args@.subrange(0, i + 1)) =~= string_views(args@.subrange(0, i as int)).push(args@[i as int]@));
    }
    assert(args@.subrange(0, n as int) =~= args@);
    let ghost before = all@;
    all.push("-progress".to_string());
    all.push("pipe:1".to_string());
    all.push("-nostats".to_string());
    assert(string_views(all@) =~= spec_ffmpeg_args(string_views(args@)));
    all
}

/// Judges ffmpeg's exit: code 0 is success, another code is `ExitFailure`,
/// and no code (a signal) is `TerminatedWithoutCode`; failures carry stderr.
pub fn ffmpeg_exit_result(code: Option<i32>, stderr: String) -> (r: Result<(), FfmpegError>)
    ensures
        code == Some(0i32) ==> r is Ok,
        (code matches Some(c) && c != 0) ==> (r matches Err(FfmpegError::ExitFailure { code: c2, stderr: e })
            && Some(c2) == code && e@ == stderr@),
        code is None ==> (r matches Err(FfmpegError::TerminatedWithoutCode { stderr: e }) && e@ == stderr@),
{
    match code {
        Some(0) => Ok(()),
        Some(c) => Err(FfmpegError::ExitFailure { code: c, stderr }),
        None => Err(FfmpegError::TerminatedWithoutCode { stderr }),
    }
}

} // verus!
