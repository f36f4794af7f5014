//! yt-dlp: its command line, the progress lines it prints, and how its exit is judged.

use crate::text::{chars_to_string, str_to_chars, string_push, string_push_str, string_views};
use crate::flat_json::copy_range;
use vstd::prelude::*;

verus! {

/// The prefix of the progress lines that `--progress-template "download:%(progress)j"` makes yt-dlp print.
pub const PROGRESS_LINE_PREFIX: &'static str = "download:";

/// Why running yt-dlp failed.
#[derive(Debug)]
pub enum YtdlpError {
    Spawn(std::io::Error),
    ReadStdout(std::io::Error),
    Wait(std::io::Error),
    NonZeroExit { code: Option<i32>, stderr: String },
    Kill(std::io::Error),
}

/// What a successful yt-dlp run left on its standard error.
#[derive(Debug)]
pub struct YtdlpOutcome {
    pub stderr: String,
}

/// The JSON part of a progress line: the text after `download:`, or `None`
/// for any other line (version banners and the like).
pub open spec fn spec_progress_json_part(line: Seq<char>) -> Option<Seq<char>> {
    let prefix = "download:"@;
    if prefix.len() <= line.len() && line.subrange(0, prefix.len() as int) == prefix {
        Some(line.skip(prefix.len() as int))
    } else {
        None
    }
}

/// Splits `download:` off a progress line (`str::strip_prefix`).
pub fn progress_json_part(line: &str) -> (r: Option<String>)
    ensures
        match spec_progress_json_part(line@) {
            Some(t) => r is Some && r->Some_0@ == t,
            None => r is None,
        },
{
    let chars = str_to_chars(line);
    let prefix = str_to_chars(PROGRESS_LINE_PREFIX);
    let n = prefix.len();
    if n > chars.len() {
        return None;
    }
    let mut i: usize = 0;
    while i < n
        invariant
            n == prefix@.len() <= chars@.len(),
            prefix@ == PROGRESS_LINE_PREFIX@,
            chars@ == line@,
            i <= n,
            forall|k: int| 0 <= k < i ==> chars@[k] == prefix@[k],
        decreases n - i,
    {
        if chars[i] != prefix[i] {
            assert(chars@.subrange(0, n as int)[i as int] != prefix@[i as int]);
            return None;
        }
        i = i + 1;
    }
    assert(chars@.subrange(0, n as int) =~= prefix@);
    let rest = copy_range(&chars, n, chars.len());
    assert(rest@ =~= line@.skip(n as int));
    Some(chars_to_string(rest.as_slice()))
}

/// The arguments handed to yt-dlp: a newline per progress update rendered by
/// the progress template, then the caller's arguments, then the URL.
pub open spec fn spec_ytdlp_args(url: Seq<char>, extra: Seq<Seq<char>>) -> Seq<Seq<char>> {
    seq!["--newline"@, "--progress-template"@, "download:%(progress)j"@] + extra + seq![url]
}

/// The command-line arguments for downloading `url`.
pub fn ytdlp_args(url: &str, extra_args: &[String]) -> (args: Vec<String>)
    ensures
        string_views(args@) == spec_ytdlp_args(url@, string_views(extra_args@)),
{
    let mut args: Vec<String> = Vec::new();
    args.push("--newline".to_string());
    args.push("--progress-template".to_string());
    args.push("download:%(progress)j".to_string());
    let n = extra_args.len();
    for i in 0..n
        invariant
            n == extra_args@.len(),
            string_views(args@) == seq!["--newline"@, "--progress-template"@, "download:%(progress)j"@]
                + string_views(extra_args@.subrange(0, i as int)),
    {
        let ghost before = args@;
        let item = extra_args[i].clone();
        assert(item@ == extra_args@[i as int]@);
        args.push(item);
        assert(string_views(args@) =~= string_views(before).push(item@));
        assert(string_views(extra_args@.subrange(0, i + 1)) =~= string_views(extra_args@.subrange(0, i as int)).push(
            extra_args@[i as int]@,
        ));
        assert(string_views(args@) =~= seq!["--newline"@, "--progress-template"@, "download:%(progress)j"@]
            + string_views(extra_args@.subrange(0, i + 1)));
    }
    args.push(url.to_string());
    assert(extra_args@.subrange(0, n as int) =~= extra_args@);
    assert(string_views(args@) =~= spec_ytdlp_args(url@, string_views(extra_args@)));
    args
}

/// Appends one line of captured output and its newline.
pub fn append_line(buffer: &mut String, line: &str)
    ensures
        final(buffer)@ == old(buffer)@ + line@ + seq!['\n'],
{
    string_push_str(buffer, line);
    string_push(buffer, '\n');
}

/// Judges a finished yt-dlp process: success keeps its standard error; any
/// other exit is `NonZeroExit` with the exit code (if any) and standard error.
pub fn ytdlp_exit_result(success: bool, code: Option<i32>, stderr: String) -> (r: Result<YtdlpOutcome, YtdlpError>)
    ensures
        success ==> r is Ok && r->Ok_0.stderr@ == stderr@,
        !success ==> (r matches Err(YtdlpError::NonZeroExit { code: c, stderr: e }) && c == code && e@ == stderr@),
{
    if !success {
        return Err(YtdlpError::NonZeroExit { code, stderr });
    }
    Ok(YtdlpOutcome { stderr })
}

} // verus!
