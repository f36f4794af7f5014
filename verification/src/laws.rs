//! Properties of the log buffer, the download form, job numbering, version
//! checks, job events, the steps of a job and the start-up sequence, each
//! stated over the specifications that the operations' contracts use.

use crate::binary_manager::{spec_check_for_update, VersionCheckView};
use crate::binary_manager::{release_asset_of, release_assets_of};
use crate::control::{event_effect, first_job_with, spec_next_stage, with_status, PrepareStage};
use crate::flat_json::{hex_digits_from, string_body};
use crate::json::{all_hex, hex_value, spec_unicode_escape, ValueView};
use crate::queue::JobEventView;
use crate::text::{hex_digit_value, is_scalar_value};
use crate::ffmpeg::{block_entries, entry_lookup, line_entry, spec_out_time, spec_progress_block};
use crate::download_form::{id_after, nonblank_trimmed, spec_urls};
use crate::job::{JobView, JobStatusView};
use crate::logs::push_bounded;
use crate::queue::JobOutcomeView;
use crate::runner::{spec_next_step, RunEvent, RunStepView};
use crate::text::{is_white_space, lines_of, trim_end_index, trim_start_index, trimmed};
use vstd::prelude::*;

verus! {

// ---- the log buffer ----

/// The buffer after pushing `entries` one by one.
pub open spec fn push_all<T>(start: Seq<T>, capacity: nat, entries: Seq<T>) -> Seq<T>
    decreases entries.len(),
{
    if entries.len() == 0 {
        start
    } else {
        push_bounded(push_all(start, capacity, entries.drop_last()), capacity, entries.last())
    }
}

/// How many of the oldest entries no longer fit.
pub open spec fn overflow(total: int, capacity: nat) -> int {
    if total > capacity { total - capacity } else { 0 }
}

/// The log buffer holds the latest entries: pushing entries one by one onto a
/// buffer within its capacity leaves exactly the last `capacity` of all the
/// entries seen, oldest first (all of them where they fit), and never more
/// than `capacity`.
pub proof fn law_log_buffer_keeps_latest<T>(start: Seq<T>, capacity: nat, entries: Seq<T>)
    requires
        capacity >= 1,
        start.len() <= capacity,
    ensures
        push_all(start, capacity, entries) == (start + entries).skip(overflow((start.len() + entries.len()) as int, capacity)),
        push_all(start, capacity, entries).len() <= capacity,
    decreases entries.len(),
{
    let all = start + entries;
    if entries.len() == 0 {
        assert(all.skip(0) =~= start);
    } else {
        let front = entries.drop_last();
        let e = entries.last();
        law_log_buffer_keeps_latest(start, capacity, front);
        let before_all = start + front;
        let d = overflow(before_all.len() as int, capacity);
        let prev = before_all.skip(d);
        assert(all =~= before_all.push(e));
        if prev.len() >= capacity {
            assert(prev.drop_first().push(e) =~= all.skip(d + 1));
        } else {
            assert(d == 0);
            assert(prev.push(e) =~= all.skip(0));
        }
    }
}

// ---- the download form ----

proof fn lemma_trim_start(s: Seq<char>, i: int)
    requires
        0 <= i <= s.len(),
    ensures
        i <= trim_start_index(s, i) <= s.len(),
        trim_start_index(s, i) < s.len() ==> !is_white_space(s[trim_start_index(s, i)]),
    decreases s.len() - i,
{
    if i < s.len() && is_white_space(s[i]) {
        lemma_trim_start(s, i + 1);
    }
}

proof fn lemma_trim_end(s: Seq<char>, lo: int, j: int)
    requires
        0 <= lo <= j <= s.len(),
    ensures
        lo <= trim_end_index(s, lo, j) <= j,
        trim_end_index(s, lo, j) > lo ==> !is_white_space(s[trim_end_index(s, lo, j) - 1]),
    decreases j - lo,
{
    if lo < j && is_white_space(s[j - 1]) {
        lemma_trim_end(s, lo, j - 1);
    }
}

/// A trimmed text that is not empty starts and ends with a character that is
/// not white space.
pub proof fn lemma_trimmed_edges(s: Seq<char>)
    ensures
        trimmed(s).len() > 0 ==> !is_white_space(trimmed(s)[0]) && !is_white_space(trimmed(s).last()),
{
    let a = trim_start_index(s, 0);
    lemma_trim_start(s, 0);
    lemma_trim_end(s, a, s.len() as int);
}

/// What the form takes as URLs are not blank and carry no white space at
/// either end.
pub proof fn law_urls_are_trimmed_and_not_blank(input: Seq<char>)
    ensures
        forall|i: int|
            0 <= i < spec_urls(input).len() ==> {
                let u = #[trigger] spec_urls(input)[i];
                u.len() > 0 && !is_white_space(u[0]) && !is_white_space(u.last())
            },
{
    lemma_nonblank_trimmed(lines_of(input));
}

proof fn lemma_nonblank_trimmed(lines: Seq<Seq<char>>)
    ensures
        forall|i: int|
            0 <= i < nonblank_trimmed(lines).len() ==> {
                let u = #[trigger] nonblank_trimmed(lines)[i];
                u.len() > 0 && !is_white_space(u[0]) && !is_white_space(u.last())
            },
    decreases lines.len(),
{
    if lines.len() > 0 {
        let front = nonblank_trimmed(lines.drop_last());
        lemma_nonblank_trimmed(lines.drop_last());
        lemma_trimmed_edges(lines.last());
        assert forall|i: int| 0 <= i < nonblank_trimmed(lines).len() implies {
            let u = #[trigger] nonblank_trimmed(lines)[i];
            u.len() > 0 && !is_white_space(u[0]) && !is_white_space(u.last())
        } by {
            if i < front.len() {
                assert(nonblank_trimmed(lines)[i] == front[i]);
            }
        }
    }
}

// ---- job numbers ----

/// Job numbers handed out in turn are all different, however many are taken
/// (up to the 2^64 numbers there are), and whatever number comes first.
pub proof fn law_job_numbers_are_distinct(start: u64, i: int, j: int)
    requires
        0 <= i < j < 0x1_0000_0000_0000_0000,
    ensures
        id_after(start, i) != id_after(start, j),
{
}

/// Job numbers handed out in turn increase in the order of the calls, as long
/// as the counter has not passed `u64::MAX`.
pub proof fn law_job_numbers_increase(start: u64, i: int, j: int)
    requires
        0 <= i < j,
        start + j <= u64::MAX,
    ensures
        id_after(start, i) < id_after(start, j),
{
}

/// Taking a number from the allocator gives its current count and moves the
/// count up by one; below `u64::MAX` a later number is always larger.
pub proof fn law_allocator_counts_up(before: u64, issued: u64, after: u64)
    requires
        issued == before,
        after == (if before == u64::MAX { 0 } else { (before + 1) as u64 }),
        before < u64::MAX,
    ensures
        after > issued,
        after == id_after(before, 1),
{
}

// ---- version checks ----

/// An update is reported exactly when a version is recorded and differs from
/// the latest as text; with no recorded version the latest is reported as not
/// installed.
pub proof fn law_update_reported_exactly_when_versions_differ(current: Seq<char>, latest: Seq<char>)
    ensures
        spec_check_for_update(None, latest) == (VersionCheckView::NotInstalled { latest }),
        (spec_check_for_update(Some(current), latest) is UpToDate) == (current == latest),
        current != latest ==> spec_check_for_update(Some(current), latest) == (VersionCheckView::UpdateAvailable {
            current,
            latest,
        }),
{
}

// ---- job events ----

/// A status update touches one job only: the first with the event's number
/// gets the new status and keeps everything else, every other job stays as it
/// was, and a list without that number is left alone.
pub proof fn law_status_update_touches_one_job(jobs: Seq<JobView>, id: u64, status: JobStatusView)
    ensures
        with_status(jobs, id, status).len() == jobs.len(),
        forall|k: int|
            0 <= k < jobs.len() && !first_job_with(jobs, id, k) ==> #[trigger] with_status(jobs, id, status)[k]
                == jobs[k],
        forall|k: int|
            first_job_with(jobs, id, k) ==> #[trigger] with_status(jobs, id, status)[k] == (JobView {
                status,
                ..jobs[k]
            }),
{
    if exists|i: int| first_job_with(jobs, id, i) {
        let i = choose|i: int| first_job_with(jobs, id, i);
        assert forall|k: int| first_job_with(jobs, id, k) implies k == i by {
            if k < i {
                assert(jobs[k].id != id);
            } else if k > i {
                assert(jobs[i].id != id);
            }
        }
    }
}

// ---- the steps of a job ----

/// A job is converted only where only its audio is wanted, and any failure or
/// cancellation ends it at once: a cancellation always as `Cancelled`, a
/// failure always as `Failed` with the message reported.
pub proof fn law_job_steps(job: JobView, message: String)
    ensures
        (spec_next_step(job, RunEvent::DownloadSucceeded) is Convert <==> (job.audio_only is Some)),
        spec_next_step(job, RunEvent::Cancelled) == RunStepView::Finish(JobOutcomeView::Cancelled),
        spec_next_step(job, RunEvent::DownloadFailed(message)) == RunStepView::Finish(
            JobOutcomeView::Failed(message@),
        ),
        spec_next_step(job, RunEvent::ConvertFailed(message)) == RunStepView::Finish(
            JobOutcomeView::Failed(message@),
        ),
        spec_next_step(job, RunEvent::ConvertSucceeded) == RunStepView::Finish(JobOutcomeView::Completed),
{
}

// ---- start-up ----

/// Start-up installs yt-dlp and then ffmpeg; the update checks, yt-dlp's and
/// then ffmpeg's, follow only where they are turned on; every path ends.
pub proof fn law_update_checks_only_when_enabled(auto_update_check: bool)
    ensures
        spec_next_stage(PrepareStage::InstallYtdlp, auto_update_check) == PrepareStage::InstallFfmpeg,
        spec_next_stage(PrepareStage::InstallFfmpeg, auto_update_check) == (if auto_update_check {
            PrepareStage::CheckYtdlp
        } else {
            PrepareStage::Done
        }),
        spec_next_stage(PrepareStage::CheckYtdlp, auto_update_check) == PrepareStage::CheckFfmpeg,
        spec_next_stage(PrepareStage::CheckFfmpeg, auto_update_check) == PrepareStage::Done,
        spec_next_stage(PrepareStage::Done, auto_update_check) == PrepareStage::Done,
{
}

// ---- ffmpeg progress blocks ----

/// The key a progress line sets, if it sets one.
pub open spec fn line_key(line: Seq<char>) -> Option<Seq<char>> {
    match line_entry(line) {
        Some((k, _)) => Some(k),
        None => None,
    }
}

proof fn lemma_block_entries_concat(p: Seq<Seq<char>>, q: Seq<Seq<char>>)
    ensures
        block_entries(p + q) == block_entries(p) + block_entries(q),
    decreases q.len(),
{
    if q.len() == 0 {
        assert(p + q =~= p);
        assert(block_entries(q) =~= Seq::<(Seq<char>, Seq<char>)>::empty());
        assert(block_entries(p) + block_entries(q) =~= block_entries(p));
    } else {
        lemma_block_entries_concat(p, q.drop_last());
        assert((p + q).drop_last() =~= p + q.drop_last());
        assert((p + q).last() == q.last());
        match line_entry(q.last()) {
            Some(e) => {
                assert(block_entries(p) + block_entries(q) =~= (block_entries(p) + block_entries(q.drop_last())).push(e));
            },
            None => {},
        }
    }
}

proof fn lemma_lookup_concat(x: Seq<(Seq<char>, Seq<char>)>, y: Seq<(Seq<char>, Seq<char>)>, k: Seq<char>)
    ensures
        entry_lookup(x + y, k) == match entry_lookup(y, k) {
            Some(v) => Some(v),
            None => entry_lookup(x, k),
        },
    decreases y.len(),
{
    if y.len() == 0 {
        assert(x + y =~= x);
    } else {
        lemma_lookup_concat(x, y.drop_last(), k);
        assert((x + y).drop_last() =~= x + y.drop_last());
        assert((x + y).last() == y.last());
    }
}

/// Reading a block does not depend on the order of lines with different
/// keys: swapping two neighbouring lines leaves what is read unchanged unless
/// both lines set the same key (then the later one counts).
pub proof fn law_block_reading_ignores_order_of_distinct_keys(
    front: Seq<Seq<char>>,
    a: Seq<char>,
    b: Seq<char>,
    back: Seq<Seq<char>>,
)
    requires
        line_key(a) is None || line_key(a) != line_key(b),
    ensures
        spec_progress_block(front + seq![a, b] + back) == spec_progress_block(front + seq![b, a] + back),
{
    let x = front + seq![a, b] + back;
    let y = front + seq![b, a] + back;
    lemma_block_entries_concat(front + seq![a, b], back);
    lemma_block_entries_concat(front, seq![a, b]);
    lemma_block_entries_concat(front + seq![b, a], back);
    lemma_block_entries_concat(front, seq![b, a]);
    let mid_ab = block_entries(seq![a, b]);
    let mid_ba = block_entries(seq![b, a]);
    assert(seq![a, b].drop_last() =~= seq![a]);
    assert(seq![b, a].drop_last() =~= seq![b]);
    assert(seq![a].drop_last() =~= Seq::<Seq<char>>::empty());
    assert(seq![b].drop_last() =~= Seq::<Seq<char>>::empty());
    assert forall|k: Seq<char>| entry_lookup(block_entries(x), k) == entry_lookup(block_entries(y), k) by {
        let ef = block_entries(front);
        let eb = block_entries(back);
        lemma_lookup_concat(ef + mid_ab, eb, k);
        lemma_lookup_concat(ef, mid_ab, k);
        lemma_lookup_concat(ef + mid_ba, eb, k);
        lemma_lookup_concat(ef, mid_ba, k);
        assert(entry_lookup(mid_ab, k) == entry_lookup(mid_ba, k)) by {
            reveal_with_fuel(entry_lookup, 3);
            reveal_with_fuel(block_entries, 3);
        }
    }
    let ex = block_entries(x);
    let ey = block_entries(y);
    assert(spec_out_time(ex) == spec_out_time(ey)) by {
        assert(entry_lookup(ex, "out_time_us"@) == entry_lookup(ey, "out_time_us"@));
        assert(entry_lookup(ex, "out_time_ms"@) == entry_lookup(ey, "out_time_ms"@));
        assert(entry_lookup(ex, "out_time"@) == entry_lookup(ey, "out_time"@));
    }
    assert(entry_lookup(ex, "frame"@) == entry_lookup(ey, "frame"@));
    assert(entry_lookup(ex, "fps"@) == entry_lookup(ey, "fps"@));
    assert(entry_lookup(ex, "bitrate"@) == entry_lookup(ey, "bitrate"@));
    assert(entry_lookup(ex, "total_size"@) == entry_lookup(ey, "total_size"@));
    assert(entry_lookup(ex, "speed"@) == entry_lookup(ey, "speed"@));
    assert(entry_lookup(ex, "progress"@) == entry_lookup(ey, "progress"@));
}

// ---- job events, read as what the list shows ----

/// A status event (`StatusChanged` or `Progress`) for a job in the list sets
/// the first such job's status to the event's status and keeps the rest of
/// that job; the list keeps its length and its other jobs, and nothing is
/// logged. For a number no job carries, the list stays as it was.
pub proof fn law_status_events_set_the_job_status(jobs: Seq<JobView>, id: u64, status: JobStatusView, i: int)
    ensures
        ({
            let changed = event_effect(jobs, JobEventView::StatusChanged { job_id: id, status });
            let progressed = event_effect(jobs, JobEventView::Progress { job_id: id, status });
            &&& changed.1 is None
            &&& progressed.1 is None
            &&& changed.0.len() == jobs.len()
            &&& progressed.0 == changed.0
            &&& ((0 <= i < jobs.len() && jobs[i].id == id && forall|j: int| 0 <= j < i ==> jobs[j].id != id) ==> {
                &&& changed.0[i].status == status
                &&& changed.0[i].id == jobs[i].id
                &&& changed.0[i].url == jobs[i].url
                &&& changed.0[i].format_selection == jobs[i].format_selection
                &&& changed.0[i].audio_only == jobs[i].audio_only
                &&& changed.0[i].output_dir == jobs[i].output_dir
                &&& forall|k: int| 0 <= k < jobs.len() && k != i ==> changed.0[k] == jobs[k]
            })
            &&& ((forall|j: int| 0 <= j < jobs.len() ==> jobs[j].id != id) ==> changed.0 == jobs)
        }),
{
    law_status_update_touches_one_job(jobs, id, status);
    if 0 <= i < jobs.len() && jobs[i].id == id && forall|j: int| 0 <= j < i ==> jobs[j].id != id {
        assert(first_job_with(jobs, id, i));
        assert forall|k: int| 0 <= k < jobs.len() && k != i implies !first_job_with(jobs, id, k) by {
            if first_job_with(jobs, id, k) {
                if k < i {
                    assert(jobs[k].id != id);
                } else {
                    assert(jobs[i].id != id);
                }
            }
        }
    }
    if forall|j: int| 0 <= j < jobs.len() ==> jobs[j].id != id {
        assert(!exists|k: int| first_job_with(jobs, id, k));
    }
}

// ---- release assets ----

/// The readable assets keep the order of the items: those of two runs of
/// items are those of the first run followed by those of the second, and an
/// item appended at the end adds its asset, if readable, at the end.
pub proof fn law_release_assets_keep_array_order(a: Seq<ValueView>, b: Seq<ValueView>, x: ValueView)
    ensures
        release_assets_of(a + b) == release_assets_of(a) + release_assets_of(b),
        release_assets_of(a.push(x)) == match release_asset_of(x) {
            Some(v) => release_assets_of(a).push(v),
            None => release_assets_of(a),
        },
    decreases b.len(),
{
    if b.len() == 0 {
        assert(a + b =~= a);
        assert(release_assets_of(a) + release_assets_of(b) =~= release_assets_of(a));
    } else {
        law_release_assets_keep_array_order(a, b.drop_last(), x);
        assert((a + b).drop_last() =~= a + b.drop_last());
        assert((a + b).last() == b.last());
        match release_asset_of(b.last()) {
            Some(v) => {
                assert(release_assets_of(a) + release_assets_of(b) =~= (release_assets_of(a) + release_assets_of(
                    b.drop_last(),
                )).push(v));
            },
            None => {},
        }
    }
    assert(a.push(x).drop_last() =~= a);
}

// ---- \u escapes in progress lines ----

/// A `\uXXXX` escape inside a string literal of a progress line decodes to
/// the character whose code its four hexadecimal digits give, where that code
/// is a Unicode scalar value (U+FFFD otherwise); reading goes on after the
/// six characters of the escape.
pub proof fn law_unicode_escape_decodes_to_its_character(
    s: Seq<char>,
    p: int,
    acc: Seq<char>,
    d0: u32,
    d1: u32,
    d2: u32,
    d3: u32,
)
    requires
        0 <= p,
        p + 6 <= s.len(),
        s[p] == '\\',
        s[p + 1] == 'u',
        hex_digit_value(s[p + 2]) == Some(d0),
        hex_digit_value(s[p + 3]) == Some(d1),
        hex_digit_value(s[p + 4]) == Some(d2),
        hex_digit_value(s[p + 5]) == Some(d3),
    ensures
        ({
            let code = d0 * 4096 + d1 * 256 + d2 * 16 + d3;
            &&& code <= 0xFFFF
            &&& is_scalar_value(code as u32) ==> string_body(s, p, acc) == string_body(
                s,
                p + 6,
                acc.push((code as u32) as char),
            )
            &&& !is_scalar_value(code as u32) ==> string_body(s, p, acc) == string_body(
                s,
                p + 6,
                acc.push('\u{FFFD}'),
            )
        }),
{
    assert(d0 < 16 && d1 < 16 && d2 < 16 && d3 < 16);
    reveal_with_fuel(hex_digits_from, 5);
    assert(hex_digits_from(s, p + 2, 4, 0) == Ok::<nat, Seq<char>>((d0 * 4096 + d1 * 256 + d2 * 16 + d3) as nat));
}

/// In release metadata likewise, the four hexadecimal digits of a `\u`
/// escape give the character with that code where it is a Unicode scalar
/// value; a surrogate code is refused with its own message.
pub proof fn law_release_unicode_escape_decodes_to_its_character(
    s: Seq<char>,
    p: int,
    d0: u32,
    d1: u32,
    d2: u32,
    d3: u32,
)
    requires
        0 <= p,
        p + 4 <= s.len(),
        hex_digit_value(s[p]) == Some(d0),
        hex_digit_value(s[p + 1]) == Some(d1),
        hex_digit_value(s[p + 2]) == Some(d2),
        hex_digit_value(s[p + 3]) == Some(d3),
    ensures
        ({
            let code = d0 * 4096 + d1 * 256 + d2 * 16 + d3;
            &&& is_scalar_value(code as u32) ==> spec_unicode_escape(s, p) == Ok::<char, Seq<char>>(
                (code as u32) as char,
            )
            &&& !is_scalar_value(code as u32) ==> spec_unicode_escape(s, p) == Err::<char, Seq<char>>(
                "不正なUnicodeコードポイントです"@,
            )
        }),
{
    let h = s.subrange(p, p + 4);
    assert(h[0] == s[p] && h[1] == s[p + 1] && h[2] == s[p + 2] && h[3] == s[p + 3]);
    assert(d0 < 16 && d1 < 16 && d2 < 16 && d3 < 16);
    assert(h[0] != '+');
    assert(all_hex(h));
    assert(h.drop_last() =~= seq![h[0], h[1], h[2]]);
    assert(seq![h[0], h[1], h[2]].drop_last() =~= seq![h[0], h[1]]);
    assert(seq![h[0], h[1]].drop_last() =~= seq![h[0]]);
    assert(seq![h[0]].drop_last() =~= Seq::<char>::empty());
    reveal_with_fuel(hex_value, 5);
    assert(hex_value(h) == (d0 * 4096 + d1 * 256 + d2 * 16 + d3) as nat);
}

} // verus!
