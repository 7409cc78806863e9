//! The progress monitor: from the lines that the encoder prints while it
//! works to how far the job has come.
//!
//! Progress is a whole number of thousandths of a percent, from zero to
//! [`FULL`].

use crate::text::{all_digits, decimal_value, read_digits, string_views, to_chars, Digits};
use vstd::prelude::*;
use vstd::string::*;

verus! {

/// A finished job: one hundred percent.
pub const FULL: u32 = 100_000;

/// The pattern of the line that tells how much output the encoder has
/// written, in microseconds.
pub const OUT_TIME_PATTERN: &'static str = r"out_time_us=(\d+)";

/// The message of a job whose encoder ended with a failure.
pub const ENCODING_FAILED: &'static str = "FFmpeg encoding failed";

/// The capture group of [`OUT_TIME_PATTERN`] that holds the count.
pub const OUT_TIME_GROUP: usize = 1;

/// What the capture group `group` of the regular expression `pattern`
/// holds in its leftmost match in `line`. There is nothing where `pattern`
/// is no regular expression, where it matches nowhere in `line`, where it
/// has no such group, and where the match goes without that group.
pub uninterp spec fn regex_capture(pattern: Seq<char>, line: Seq<char>, group: nat) -> Option<Seq<char>>;

/// Searches `line` for `pattern` with `regex::Regex::new` and
/// `Regex::captures`, and hands out the text of the capture group `group`
/// by `Captures::get` and `Match::as_str`. The contract only names that
/// text: the same pattern, line and group always give the same capture,
/// and nothing more is claimed of it.
#[verifier::external_body]
fn capture_group(pattern: &str, line: &str, group: usize) -> (r: Option<String>)
    ensures
        match r {
            Some(text) => regex_capture(pattern@, line@, group as nat) == Some(text@),
            None => regex_capture(pattern@, line@, group as nat) is None,
        },
{
    let re = regex::Regex::new(pattern).ok()?;
    let caps = re.captures(line)?;
    Some(caps.get(group)?.as_str().to_string())
}

/// How far a job of `duration_us` microseconds has come once `elapsed_us`
/// microseconds of output are written: the ratio of the two, rounded down
/// and never more than [`FULL`]. A job without duration is finished from the
/// start.
pub open spec fn progress_of(elapsed_us: nat, duration_us: nat) -> nat {
    if duration_us == 0 {
        FULL as nat
    } else if elapsed_us * (FULL as nat) / duration_us >= FULL {
        FULL as nat
    } else {
        elapsed_us * (FULL as nat) / duration_us
    }
}

/// The progress that a captured count of microseconds stands for. A capture
/// that is empty or holds anything but the digits `0` to `9` stands for
/// none.
pub open spec fn progress_of_capture(digits: Seq<char>, duration_us: nat) -> Option<nat> {
    if digits.len() > 0 && all_digits(digits) {
        Some(progress_of(decimal_value(digits), duration_us))
    } else {
        None
    }
}

/// The progress that `line` reports, if it reports any.
pub open spec fn progress_of_line(line: Seq<char>, duration_us: nat) -> Option<nat> {
    match regex_capture(OUT_TIME_PATTERN@, line, OUT_TIME_GROUP as nat) {
        Some(digits) => progress_of_capture(digits, duration_us),
        None => None,
    }
}

/// Progress never leaves the range from zero to [`FULL`], and the more
/// output is written, the further the job has come.
pub proof fn lemma_progress_bounded_and_monotone(earlier_us: nat, later_us: nat, duration_us: nat)
    requires
        earlier_us <= later_us,
    ensures
        progress_of(earlier_us, duration_us) <= progress_of(later_us, duration_us) <= FULL,
        later_us >= duration_us ==> progress_of(later_us, duration_us) == FULL,
{
    if duration_us > 0 {
        let full = FULL as nat;
        assert(earlier_us * full / duration_us <= later_us * full / duration_us)
            by (nonlinear_arith)
            requires
                earlier_us <= later_us,
                duration_us > 0,
        ;
        if later_us >= duration_us {
            assert(later_us * full / duration_us >= full) by (nonlinear_arith)
                requires
                    later_us >= duration_us,
                    duration_us > 0,
            ;
        }
    }
}

/// The progress that a captured count of microseconds stands for; see
/// [`progress_of_capture`].
pub fn progress_from_capture(digits: &str, duration_us: u64) -> (r: Option<u32>)
    ensures
        match r {
            Some(p) => progress_of_capture(digits@, duration_us as nat) == Some(p as nat),
            None => progress_of_capture(digits@, duration_us as nat) is None,
        },
        r is Some ==> r->0 <= FULL,
{
    let chars = to_chars(digits);
    if chars.len() == 0 {
        return None;
    }
    let full = FULL as u64;
    proof {
        lemma_progress_bounded_and_monotone(
            decimal_value(chars@),
            decimal_value(chars@),
            duration_us as nat,
        );
    }
    match read_digits(&chars) {
        Digits::NotDigits => None,
        Digits::TooLarge => Some(FULL),
        Digits::Value(elapsed) => {
            if duration_us == 0 || elapsed >= duration_us {
                Some(FULL)
            } else {
                let p = (elapsed as u128) * (full as u128) / (duration_us as u128);
                assert(p < full) by (nonlinear_arith)
                    requires
                        p == (elapsed as int) * (full as int) / (duration_us as int),
                        elapsed < duration_us,
                        full > 0,
                ;
                Some(p as u32)
            }
        },
    }
}

/// The progress that `line` reports, if it reports any: the count behind
/// `out_time_us=`, held against the duration of the job.
pub fn parse_progress_line(line: &str, duration_us: u64) -> (r: Option<u32>)
    ensures
        match r {
            Some(p) => progress_of_line(line@, duration_us as nat) == Some(p as nat),
            None => progress_of_line(line@, duration_us as nat) is None,
        },
        r is Some ==> r->0 <= FULL,
{
    match capture_group(OUT_TIME_PATTERN, line, OUT_TIME_GROUP) {
        Some(digits) => progress_from_capture(digits.as_str(), duration_us),
        None => None,
    }
}

/// What an observer is told of a job.
#[derive(Clone, Copy, Debug, PartialEq, Eq, Structural)]
pub enum Status {
    /// The source is being examined.
    Analyzing,
    /// The encoder is at work.
    Converting,
    /// The job is done.
    Completed,
}

/// The label of a status.
pub open spec fn status_label(status: Status) -> Seq<char> {
    match status {
        Status::Analyzing => "analyzing"@,
        Status::Converting => "converting"@,
        Status::Completed => "completed"@,
    }
}

impl Status {
    /// The label by which observers know this status.
    pub fn label(&self) -> (r: &'static str)
        ensures
            r@ == status_label(*self),
    {
        match self {
            Status::Analyzing => "analyzing",
            Status::Converting => "converting",
            Status::Completed => "completed",
        }
    }
}

/// One report to the observers of a job: which job, how far it has come in
/// thousandths of a percent, and what it is doing.
#[derive(Debug)]
pub struct ProgressEvent {
    pub id: String,
    pub progress: u32,
    pub status: Status,
}

/// The part of a job that one run of the encoder covers.
#[derive(Clone, Copy, Debug, PartialEq, Eq, Structural)]
pub enum Stage {
    /// The only run of a single-pass job: from 5 to 100 percent.
    SinglePass,
    /// The first run of a two-pass job: from 5 to 50 percent.
    FirstPass,
    /// The second run of a two-pass job: from 50 to 100 percent.
    SecondPass,
    /// The run for tier `index` of `count` tiers: the tiers share the range
    /// from 0 to 90 percent in equal parts.
    Tier { index: u32, count: u32 },
}

/// Whether `stage` names a part of a job: a tier must be one of its count.
pub open spec fn stage_valid(stage: Stage) -> bool {
    match stage {
        Stage::Tier { index, count } => index < count,
        _ => true,
    }
}

/// Where in the job `stage` begins.
pub open spec fn stage_base(stage: Stage) -> nat {
    match stage {
        Stage::SinglePass => 5_000,
        Stage::FirstPass => 5_000,
        Stage::SecondPass => 50_000,
        Stage::Tier { index, count } => (index * 90_000int / count as int) as nat,
    }
}

/// How much of the job `stage` covers.
pub open spec fn stage_span(stage: Stage) -> nat {
    match stage {
        Stage::SinglePass => 95_000,
        Stage::FirstPass => 45_000,
        Stage::SecondPass => 50_000,
        Stage::Tier { index, count } => (90_000int / count as int) as nat,
    }
}

/// How far the job has come when `stage` has come `local` of [`FULL`].
pub open spec fn overall_progress(stage: Stage, local: nat) -> nat {
    stage_base(stage) + local * stage_span(stage) / (FULL as nat)
}

/// The progress of the job never leaves the part that the stage covers, nor
/// the range from zero to [`FULL`], and it never goes back while the stage
/// goes on.
pub proof fn lemma_overall_progress(stage: Stage, earlier: nat, later: nat)
    requires
        stage_valid(stage),
        earlier <= later <= FULL,
    ensures
        stage_base(stage) <= overall_progress(stage, earlier) <= overall_progress(stage, later),
        overall_progress(stage, later) <= stage_base(stage) + stage_span(stage) <= FULL,
        overall_progress(stage, 0) == stage_base(stage),
        overall_progress(stage, FULL as nat) == stage_base(stage) + stage_span(stage),
{
    let span = stage_span(stage);
    let full = FULL as nat;
    assert(0 <= earlier * span / full <= later * span / full <= span) by (nonlinear_arith)
        requires
            earlier <= later <= full,
            full > 0,
    ;
    assert(0 * span / full == 0 && full * span / full == span) by (nonlinear_arith)
        requires
            full > 0,
    ;
    match stage {
        Stage::Tier { index, count } => {
            lemma_tier_parts(index as nat, count as nat);
        },
        _ => {},
    }
}

/// The stages of a job follow each other without going back: the second
/// pass begins where the first one ends, and each tier begins no earlier
/// than the one before it ends.
pub proof fn lemma_stages_in_order(index: u32, count: u32)
    requires
        index + 1 < count,
    ensures
        stage_base(Stage::FirstPass) + stage_span(Stage::FirstPass) == stage_base(
            Stage::SecondPass,
        ),
        stage_base(Stage::Tier { index, count }) + stage_span(Stage::Tier { index, count })
            <= stage_base(Stage::Tier { index: (index + 1) as u32, count }),
{
    lemma_tier_parts(index as nat, count as nat);
}

/// The parts of the tiers lie side by side in the range up to 90 percent.
proof fn lemma_tier_parts(index: nat, count: nat)
    requires
        index < count,
    ensures
        index * 90_000int / (count as int) + 90_000int / (count as int) <= (index + 1) * 90_000int
            / (count as int) <= 90_000,
{
    let n = count as int;
    let a = index * 90_000int / n;
    let b = 90_000int / n;
    let c = (index + 1) * 90_000int / n;
    assert(a + b <= c && c <= 90_000) by (nonlinear_arith)
        requires
            0 <= index < n,
            a == index * 90_000int / n,
            b == 90_000int / n,
            c == (index + 1) * 90_000int / n,
    ;
}

impl Stage {
    /// How far the job has come when this stage has come `local` of
    /// [`FULL`].
    pub fn overall(&self, local: u32) -> (r: u32)
        requires
            stage_valid(*self),
            local <= FULL,
        ensures
            r == overall_progress(*self, local as nat),
            r <= FULL,
    {
        proof {
            lemma_overall_progress(*self, local as nat, local as nat);
        }
        let (base, span): (u64, u64) = match self {
            Stage::SinglePass => (5_000, 95_000),
            Stage::FirstPass => (5_000, 45_000),
            Stage::SecondPass => (50_000, 50_000),
            Stage::Tier { index, count } => (
                (*index as u64) * 90_000 / (*count as u64),
                90_000 / (*count as u64),
            ),
        };
        assert(base == stage_base(*self) && span == stage_span(*self));
        assert((local as u64) * span <= 100_000 * 95_000) by (nonlinear_arith)
            requires
                local <= 100_000,
                span <= 95_000,
        ;
        (base + (local as u64) * span / (FULL as u64)) as u32
    }
}

/// How a run of the encoder went, as its observers saw it.
#[derive(Debug)]
pub struct ProgressRun {
    /// The progress reports, in the order in which they were made.
    pub reports: Vec<u32>,
    /// Whether the encoder succeeded, and the reason if it did not.
    pub outcome: Result<(), String>,
}

/// The reports that the first `count` lines of a run give.
pub open spec fn line_reports(lines: Seq<Seq<char>>, duration_us: nat, count: nat) -> Seq<nat>
    decreases count,
{
    if count == 0 {
        Seq::empty()
    } else {
        let before = line_reports(lines, duration_us, (count - 1) as nat);
        match progress_of_line(lines[count - 1], duration_us) {
            Some(p) => before.push(p),
            None => before,
        }
    }
}

/// All reports of a run: those of its lines and, where the encoder
/// succeeded, a last one at [`FULL`].
pub open spec fn run_reports(lines: Seq<Seq<char>>, succeeded: bool, duration_us: nat) -> Seq<nat> {
    let from_lines = line_reports(lines, duration_us, lines.len());
    if succeeded {
        from_lines.push(FULL as nat)
    } else {
        from_lines
    }
}

/// The last word of a run: the closing report at [`FULL`] where the
/// encoder succeeded, the failure otherwise.
pub fn finish_run(succeeded: bool) -> (r: Result<u32, String>)
    ensures
        succeeded ==> r == Ok::<u32, String>(FULL),
        !succeeded ==> r is Err && r->Err_0@ == ENCODING_FAILED@,
{
    if succeeded {
        Ok(FULL)
    } else {
        Err(String::from_str(ENCODING_FAILED))
    }
}

/// Puts in front of `args` what makes the encoder print its progress as
/// lines on its standard output.
pub fn with_progress_args(args: Vec<String>) -> (full: Vec<String>)
    ensures
        string_views(full@) == seq!["-progress"@, "pipe:1"@, "-nostats"@] + string_views(args@),
{
    let mut full: Vec<String> = Vec::new();
    full.push(String::from_str("-progress"));
    full.push(String::from_str("pipe:1"));
    full.push(String::from_str("-nostats"));
    let ghost head = string_views(full@);
    assert(head =~= seq!["-progress"@, "pipe:1"@, "-nostats"@]);
    let mut args = args;
    let ghost tail = string_views(args@);
    full.append(&mut args);
    assert(string_views(full@) =~= head + tail);
    full
}

/// Follows a run of the encoder from the lines that it printed and the way
/// it ended. Each line that tells how much output is written gives one
/// report; a run that succeeded closes with a report at [`FULL`], and one
/// that failed closes with the failure and without that report.
pub fn run_ffmpeg_with_progress(lines: &Vec<String>, succeeded: bool, duration: u64) -> (run:
    ProgressRun)
    ensures
        run.reports@.map_values(|p: u32| p as nat) == run_reports(
            string_views(lines@),
            succeeded,
            duration as nat,
        ),
        forall|i: int| 0 <= i < run.reports.len() ==> (#[trigger] run.reports[i]) <= FULL,
        succeeded ==> run.outcome is Ok && run.reports.len() > 0 && run.reports[run.reports.len()
            - 1] == FULL,
        !succeeded ==> run.outcome is Err && run.outcome->Err_0@ == ENCODING_FAILED@,
{
    let ghost texts = string_views(lines@);
    let mut reports: Vec<u32> = Vec::new();
    let mut i: usize = 0;
    assert(reports@.map_values(|p: u32| p as nat) =~= line_reports(texts, duration as nat, 0));
    while i < lines.len()
        invariant
            i <= lines.len(),
            texts == string_views(lines@),
            reports@.map_values(|p: u32| p as nat) == line_reports(texts, duration as nat, i as nat),
            forall|k: int| 0 <= k < reports.len() ==> (#[trigger] reports[k]) <= FULL,
        decreases lines.len() - i,
    {
        let ghost before = reports@.map_values(|p: u32| p as nat);
        match parse_progress_line(lines[i].as_str(), duration) {
            Some(p) => {
                reports.push(p);
                assert(reports@.map_values(|p: u32| p as nat) =~= before.push(p as nat));
            },
            None => {},
        }
        i += 1;
    }
    let ghost before = reports@.map_values(|p: u32| p as nat);
    match finish_run(succeeded) {
        Ok(last) => {
            reports.push(last);
            assert(reports@.map_values(|p: u32| p as nat) =~= before.push(FULL as nat));
            ProgressRun { reports, outcome: Ok(()) }
        },
        Err(reason) => ProgressRun { reports, outcome: Err(reason) },
    }
}

} // verus!
