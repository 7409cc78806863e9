//! What the prober reports of a source file, read from the lines that it
//! prints.
//!
//! The prober is asked for one line per stream, `width,height,rate,duration`,
//! and one line for the container that holds the duration alone. A duration
//! is a plain decimal number of seconds.

use crate::text::{
    all_digits, char_views, decimal_value, parse_u32, push_text, push_texts, read_digits, split,
    split_chars, str_views, string_views, to_chars, trim_chars, trimmed, u32_of_text, Digits,
};
use vstd::prelude::*;
use vstd::string::*;

verus! {

/// Length and picture size of a source. The duration is in microseconds
/// and is never zero: a source without a known duration cannot be planned
/// for.
#[derive(Clone, Copy, Debug, PartialEq, Eq, Structural)]
pub struct VideoInfo {
    pub duration: u64,
    pub width: u32,
    pub height: u32,
}

/// Why the prober's lines give no [`VideoInfo`].
#[derive(Clone, Copy, Debug, PartialEq, Eq, Structural)]
pub enum ProbeFailure {
    /// The prober printed nothing but white space.
    NoVideoStream,
    /// No line gave a duration other than zero.
    NoDuration,
}

/// The message of a failure.
pub open spec fn failure_message(failure: ProbeFailure) -> Seq<char> {
    match failure {
        ProbeFailure::NoVideoStream => "No video stream found"@,
        ProbeFailure::NoDuration => "Could not determine video duration"@,
    }
}

impl ProbeFailure {
    /// The message of this failure.
    pub fn message(&self) -> (r: &'static str)
        ensures
            r@ == failure_message(*self),
    {
        match self {
            ProbeFailure::NoVideoStream => "No video stream found",
            ProbeFailure::NoDuration => "Could not determine video duration",
        }
    }
}

/// Ten to the power of `n`.
pub open spec fn pow10(n: nat) -> nat
    decreases n,
{
    if n == 0 {
        1
    } else {
        10 * pow10((n - 1) as nat)
    }
}

/// The microseconds that the digits behind the decimal point stand for.
/// Digits behind the sixth are dropped.
pub open spec fn fraction_micros(digits: Seq<char>) -> nat {
    if digits.len() >= 6 {
        decimal_value(digits.take(6))
    } else {
        decimal_value(digits) * pow10((6 - digits.len()) as nat)
    }
}

/// The microseconds that `s` spells as a number of seconds: digits, at most
/// one decimal point among them, and at least one digit. A time too long
/// for 64 bits counts as the longest time there is.
pub open spec fn micros_of_text(s: Seq<char>) -> Option<u64> {
    let parts = split(s, '.');
    let whole = parts[0];
    let fraction = if parts.len() == 2 {
        parts[1]
    } else {
        Seq::empty()
    };
    if parts.len() <= 2 && all_digits(whole) && all_digits(fraction) && whole.len()
        + fraction.len() > 0 {
        let exact = decimal_value(whole) * 1_000_000 + fraction_micros(fraction);
        if exact > u64::MAX {
            Some(u64::MAX)
        } else {
            Some(exact as u64)
        }
    } else {
        None
    }
}

/// What has been read of a source so far. Zero stands for not known.
#[derive(Clone, Copy, Debug, PartialEq, Eq, Structural)]
pub struct Scan {
    pub width: u32,
    pub height: u32,
    pub duration: u64,
}

/// What is known after a line with the fields `fields`.
///
/// A line of three fields or more is a stream: its first two fields are
/// width and height, and its fourth, if it has one, the duration. A line of
/// one field is the container: it gives the duration where no stream has
/// given one. A field that does not read as a number changes nothing.
pub open spec fn scan_line(state: Scan, fields: Seq<Seq<char>>) -> Scan {
    if fields.len() >= 3 {
        Scan {
            width: match u32_of_text(fields[0]) {
                Some(w) => w,
                None => state.width,
            },
            height: match u32_of_text(fields[1]) {
                Some(h) => h,
                None => state.height,
            },
            duration: if fields.len() >= 4 {
                match micros_of_text(fields[3]) {
                    Some(d) => d,
                    None => state.duration,
                }
            } else {
                state.duration
            },
        }
    } else if fields.len() == 1 {
        match micros_of_text(fields[0]) {
            Some(d) => if state.duration == 0 {
                Scan { duration: d, ..state }
            } else {
                state
            },
            None => state,
        }
    } else {
        state
    }
}

/// A line without the carriage return that may end it.
pub open spec fn strip_cr(line: Seq<char>) -> Seq<char> {
    if line.len() > 0 && line.last() == '\r' {
        line.drop_last()
    } else {
        line
    }
}

/// What is known after the first `count` of `lines`.
pub open spec fn scan_lines(lines: Seq<Seq<char>>, count: nat) -> Scan
    decreases count,
{
    if count == 0 {
        Scan { width: 0, height: 0, duration: 0 }
    } else {
        scan_line(
            scan_lines(lines, (count - 1) as nat),
            split(strip_cr(lines[count - 1]), ','),
        )
    }
}

/// What the prober's output says of the source.
pub open spec fn video_info_of(output: Seq<char>) -> Result<VideoInfo, ProbeFailure> {
    let text = trimmed(output);
    if text.len() == 0 {
        Err(ProbeFailure::NoVideoStream)
    } else {
        let lines = split(text, '\n');
        let scan = scan_lines(lines, lines.len());
        if scan.duration == 0 {
            Err(ProbeFailure::NoDuration)
        } else {
            Ok(VideoInfo { duration: scan.duration, width: scan.width, height: scan.height })
        }
    }
}

/// A run of digits spells a number under ten to the power of its length.
pub proof fn lemma_decimal_value_bound(s: Seq<char>)
    requires
        all_digits(s),
    ensures
        decimal_value(s) < pow10(s.len()),
    decreases s.len(),
{
    if s.len() > 0 {
        let front = s.drop_last();
        assert forall|i: int| 0 <= i < front.len() implies crate::text::is_digit(
            #[trigger] front[i],
        ) by {
            assert(front[i] == s[i]);
        }
        lemma_decimal_value_bound(front);
        assert(crate::text::is_digit(s[s.len() - 1]));
    }
}

/// Reads a picture dimension: digits, with or without a plus sign in
/// front, that fit 32 bits.
pub fn parse_dimension(field: &Vec<char>) -> (r: Option<u32>)
    ensures
        r == u32_of_text(field@),
{
    parse_u32(field)
}

/// Reads a number of seconds as microseconds; see [`micros_of_text`].
pub fn parse_seconds(field: &Vec<char>) -> (r: Option<u64>)
    ensures
        r == micros_of_text(field@),
{
    let parts = split_chars(field, '.');
    if parts.len() > 2 {
        return None;
    }
    assert(char_views(parts@)[0] == parts@[0]@);
    let none: Vec<char> = Vec::new();
    let fraction: &Vec<char> = if parts.len() == 2 {
        assert(char_views(parts@)[1] == parts@[1]@);
        &parts[1]
    } else {
        &none
    };
    let whole = &parts[0];
    if whole.len() == 0 && fraction.len() == 0 {
        return None;
    }
    let whole_value = read_digits(whole);
    let fraction_value = read_digits(fraction);
    match (whole_value, fraction_value) {
        (Digits::NotDigits, _) => {
            return None;
        },
        (_, Digits::NotDigits) => {
            return None;
        },
        _ => {},
    }
    // The first six digits behind the point, read as a number, and the
    // power of ten that makes microseconds of them.
    let mut first: Vec<char> = Vec::new();
    let mut k: usize = 0;
    while k < fraction.len() && k < 6
        invariant
            k <= fraction.len(),
            k <= 6,
            first@ == fraction@.take(k as int),
        decreases fraction.len() - k,
    {
        first.push(fraction[k]);
        assert(first@ =~= fraction@.take(k + 1));
        k += 1;
    }
    proof {
        if fraction.len() < 6 {
            assert(fraction@.take(fraction.len() as int) =~= fraction@);
        }
        assert forall|i: int| 0 <= i < first@.len() implies crate::text::is_digit(
            #[trigger] first@[i],
        ) by {
            assert(first@[i] == fraction@[i]);
        }
        lemma_decimal_value_bound(first@);
        reveal_with_fuel(pow10, 7);
    }
    let digits: u64 = match read_digits(&first) {
        Digits::Value(v) => v,
        _ => 0,
    };
    let scale: u64 = if k == 0 {
        1_000_000
    } else if k == 1 {
        100_000
    } else if k == 2 {
        10_000
    } else if k == 3 {
        1_000
    } else if k == 4 {
        100
    } else if k == 5 {
        10
    } else {
        1
    };
    assert(scale == pow10((6 - k) as nat));
    assert(digits < pow10(k as nat));
    assert(digits * scale < 1_000_000) by (nonlinear_arith)
        requires
            (k == 0 && digits < 1 && scale == 1_000_000) || (k == 1 && digits < 10 && scale
                == 100_000) || (k == 2 && digits < 100 && scale == 10_000) || (k == 3 && digits
                < 1_000 && scale == 1_000) || (k == 4 && digits < 10_000 && scale == 100) || (k
                == 5 && digits < 100_000 && scale == 10) || (k == 6 && digits < 1_000_000
                && scale == 1),
    ;
    let micros: u64 = digits * scale;
    assert(micros == fraction_micros(fraction@));
    match whole_value {
        Digits::Value(seconds) => {
            if seconds > (u64::MAX - micros) / 1_000_000 {
                Some(u64::MAX)
            } else {
                Some(seconds * 1_000_000 + micros)
            }
        },
        _ => Some(u64::MAX),
    }
}

/// What is known after a line with the fields `fields`; see [`scan_line`].
pub fn scan_fields(state: Scan, fields: &Vec<Vec<char>>) -> (r: Scan)
    ensures
        r == scan_line(state, char_views(fields@)),
{
    if fields.len() >= 3 {
        assert(char_views(fields@)[0] == fields@[0]@);
        assert(char_views(fields@)[1] == fields@[1]@);
        let width = match parse_dimension(&fields[0]) {
            Some(w) => w,
            None => state.width,
        };
        let height = match parse_dimension(&fields[1]) {
            Some(h) => h,
            None => state.height,
        };
        let duration = if fields.len() >= 4 {
            assert(char_views(fields@)[3] == fields@[3]@);
            match parse_seconds(&fields[3]) {
                Some(d) => d,
                None => state.duration,
            }
        } else {
            state.duration
        };
        Scan { width, height, duration }
    } else if fields.len() == 1 {
        assert(char_views(fields@)[0] == fields@[0]@);
        match parse_seconds(&fields[0]) {
            Some(d) => if state.duration == 0 {
                Scan { width: state.width, height: state.height, duration: d }
            } else {
                state
            },
            None => state,
        }
    } else {
        state
    }
}

/// Reads length and picture size of a source from what the prober printed;
/// see [`video_info_of`].
pub fn parse_video_info(output: &str) -> (r: Result<VideoInfo, ProbeFailure>)
    ensures
        r == video_info_of(output@),
        r is Ok ==> r->Ok_0.duration > 0,
{
    let all = to_chars(output);
    let text = trim_chars(&all);
    if text.len() == 0 {
        return Err(ProbeFailure::NoVideoStream);
    }
    let lines = split_chars(&text, '\n');
    let ghost texts = char_views(lines@);
    let mut scan = Scan { width: 0, height: 0, duration: 0 };
    let mut i: usize = 0;
    while i < lines.len()
        invariant
            i <= lines.len(),
            texts == char_views(lines@),
            scan == scan_lines(texts, i as nat),
        decreases lines.len() - i,
    {
        let line = &lines[i];
        assert(texts[i as int] == line@);
        let mut bare: Vec<char> = Vec::new();
        let end: usize = if line.len() > 0 && line[line.len() - 1] == '\r' {
            line.len() - 1
        } else {
            line.len()
        };
        let mut k: usize = 0;
        while k < end
            invariant
                k <= end <= line.len(),
                bare@ == line@.take(k as int),
            decreases end - k,
        {
            bare.push(line[k]);
            assert(bare@ =~= line@.take(k + 1));
            k += 1;
        }
        assert(bare@ =~= strip_cr(line@)) by {
            if end == line.len() {
                assert(line@.take(end as int) =~= line@);
            } else {
                assert(line@.take(end as int) =~= line@.drop_last());
            }
        }
        let fields = split_chars(&bare, ',');
        scan = scan_fields(scan, &fields);
        i += 1;
    }
    if scan.duration == 0 {
        Err(ProbeFailure::NoDuration)
    } else {
        Ok(VideoInfo { duration: scan.duration, width: scan.width, height: scan.height })
    }
}

/// Reads length and picture size of a source from what the prober printed,
/// and words the failure where there is one.
pub fn get_video_info(output: &str) -> (r: Result<VideoInfo, String>)
    ensures
        match r {
            Ok(info) => video_info_of(output@) == Ok::<VideoInfo, ProbeFailure>(info)
                && info.duration > 0,
            Err(message) => video_info_of(output@) is Err && message@ == failure_message(
                video_info_of(output@)->Err_0,
            ),
        },
{
    match parse_video_info(output) {
        Ok(info) => Ok(info),
        Err(failure) => Err(String::from_str(failure.message())),
    }
}

/// The arguments that make the prober print what [`get_video_info`] reads.
pub open spec fn video_info_args_of(input: Seq<char>) -> Seq<Seq<char>> {
    seq![
        "-v"@,
        "error"@,
        "-select_streams"@,
        "v:0"@,
        "-show_entries"@,
        "stream=width,height,r_frame_rate,duration"@,
        "-show_entries"@,
        "format=duration"@,
        "-of"@,
        "csv=p=0"@,
        input,
    ]
}

/// The arguments that make the prober print what [`get_video_info`] reads
/// of the file `input`.
pub fn video_info_args(input: &str) -> (args: Vec<String>)
    ensures
        string_views(args@) == video_info_args_of(input@),
{
    let mut args: Vec<String> = Vec::new();
    assert(string_views(args@) =~= Seq::<Seq<char>>::empty());
    let items = vec![
        "-v",
        "error",
        "-select_streams",
        "v:0",
        "-show_entries",
        "stream=width,height,r_frame_rate,duration",
        "-show_entries",
        "format=duration",
        "-of",
        "csv=p=0",
    ];
    let ghost head = str_views(items@);
    push_texts(&mut args, items);
    push_text(&mut args, input);
    assert(string_views(args@) =~= video_info_args_of(input@));
    args
}

} // verus!
