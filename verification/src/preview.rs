//! Previews of a source: single frames, a strip of frames, and the times
//! at which the scene changes.

use crate::probe::{micros_of_text, parse_seconds};
use crate::text::{
    char_is_space, char_views, decimal, decimal_padded, find_from, is_space, occurs_at,
    push_decimal, push_decimal_padded, push_string, push_text, push_texts, seconds_string,
    seconds_text, split, split_chars, string_views, to_chars,
};
use vstd::prelude::*;
use vstd::string::*;

verus! {

/// The bytes `data` in base64, with the standard alphabet and padding.
pub uninterp spec fn base64_standard(data: Seq<u8>) -> Seq<char>;

/// Encodes `data` with `base64::Engine::encode` on the `STANDARD` engine.
/// The contract only names the encoding. The input must be short enough
/// for the length of the encoding to fit `usize`; half the range is.
#[verifier::external_body]
fn encode_standard(data: &[u8]) -> (r: String)
    requires
        data@.len() <= usize::MAX / 2,
    ensures
        r@ == base64_standard(data@),
{
    base64::Engine::encode(&base64::engine::general_purpose::STANDARD, data)
}

/// What a frame is handed out as: a JPEG in a data URL.
pub open spec fn frame_url_of(data: Seq<u8>) -> Seq<char> {
    "data:image/jpeg;base64,"@ + base64_standard(data)
}

/// The data URL of the JPEG `data`. There is none for more bytes than half
/// the range of `usize`.
pub fn frame_data_url(data: &Vec<u8>) -> (r: Option<String>)
    ensures
        match r {
            Some(url) => data.len() <= usize::MAX / 2 && url@ == frame_url_of(data@),
            None => data.len() > usize::MAX / 2,
        },
{
    if data.len() > usize::MAX / 2 {
        return None;
    }
    let mut url = String::from_str("data:image/jpeg;base64,");
    let encoded = encode_standard(data.as_slice());
    url.append(encoded.as_str());
    Some(url)
}

/// The name of the file that a frame is written to; `unique` tells one
/// frame from another.
pub open spec fn frame_file_name_of(unique: Seq<char>) -> Seq<char> {
    "frame_"@ + unique + ".jpg"@
}

/// The name of the file that a frame is written to.
pub fn frame_file_name(unique: &str) -> (r: String)
    ensures
        r@ == frame_file_name_of(unique@),
{
    let mut r = String::from_str("frame_");
    r.append(unique);
    r.append(".jpg");
    r
}

/// The arguments that make the encoder write the frame at `timestamp`
/// microseconds of `input` to `frame_path`.
pub open spec fn frame_args_of(input: Seq<char>, timestamp: u64, frame_path: Seq<char>) -> Seq<
    Seq<char>,
> {
    seq![
        "-ss"@,
        seconds_text(timestamp as nat),
        "-i"@,
        input,
        "-vframes"@,
        "1"@,
        "-q:v"@,
        "5"@,
        "-y"@,
        frame_path,
    ]
}

/// The arguments for one frame; see [`frame_args_of`].
pub fn frame_args(input: &str, timestamp: u64, frame_path: &str) -> (args: Vec<String>)
    ensures
        string_views(args@) == frame_args_of(input@, timestamp, frame_path@),
{
    let mut args: Vec<String> = Vec::new();
    assert(string_views(args@) =~= Seq::<Seq<char>>::empty());
    push_text(&mut args, "-ss");
    push_string(&mut args, seconds_string(timestamp));
    push_text(&mut args, "-i");
    push_text(&mut args, input);
    let items = vec!["-vframes", "1", "-q:v", "5", "-y"];
    push_texts(&mut args, items);
    push_text(&mut args, frame_path);
    assert(string_views(args@) =~= frame_args_of(input@, timestamp, frame_path@));
    args
}

/// The time of frame `index` in a strip of `count` frames over `duration`
/// microseconds: the frames are spread evenly, the first at zero.
pub open spec fn strip_time(duration: nat, count: nat, index: nat) -> nat
    recommends
        index < count,
{
    index * duration / count
}

/// The times of the frames of a strip of `count` frames over `duration`
/// microseconds.
pub fn filmstrip_timestamps(duration: u64, count: u32) -> (times: Vec<u64>)
    ensures
        times.len() == count,
        forall|i: int|
            0 <= i < count ==> (#[trigger] times[i]) == strip_time(
                duration as nat,
                count as nat,
                i as nat,
            ),
        forall|i: int| 0 <= i < count ==> (#[trigger] times[i]) < duration || duration == 0,
{
    let mut times: Vec<u64> = Vec::new();
    let mut i: u32 = 0;
    while i < count
        invariant
            i <= count,
            times.len() == i,
            forall|k: int|
                0 <= k < i ==> (#[trigger] times[k]) == strip_time(
                    duration as nat,
                    count as nat,
                    k as nat,
                ),
            forall|k: int| 0 <= k < i ==> (#[trigger] times[k]) < duration || duration == 0,
        decreases count - i,
    {
        assert((i as u128) * (duration as u128) <= 0xffff_ffff * 0xffff_ffff_ffff_ffff)
            by (nonlinear_arith)
            requires
                i <= 0xffff_ffff,
                duration <= 0xffff_ffff_ffff_ffff,
        ;
        let t = (i as u128) * (duration as u128) / (count as u128);
        assert(t <= duration && (duration > 0 ==> t < duration)) by (nonlinear_arith)
            requires
                t == (i as int) * (duration as int) / (count as int),
                0 <= i < count,
                0 <= duration,
        ;
        times.push(t as u64);
        i += 1;
    }
    times
}

/// What stands for a frame that could not be extracted: the empty string.
pub fn frame_or_blank(frame: Result<String, String>) -> (r: String)
    ensures
        match frame {
            Ok(url) => r@ == url@,
            Err(_) => r@.len() == 0,
        },
{
    match frame {
        Ok(url) => url,
        Err(_) => String::new(),
    }
}

/// What stands in front of the time of a frame in the encoder's report of
/// the frames it has picked.
pub const SCENE_MARK: &'static str = "pts_time:";

/// The scene threshold that is used where none is given, in thousandths.
pub const DEFAULT_SCENE_THRESHOLD: u32 = 300;

/// Times up to this many microseconds are not counted as a change of
/// scene: the first frame is often picked for no other reason than being
/// the first.
pub const SCENE_FLOOR: u64 = 100_000;

/// A number of thousandths as a decimal fraction, without zeros at its
/// end.
pub open spec fn thousandths_text(t: nat) -> Seq<char> {
    let whole = t / 1000;
    let rest = t % 1000;
    if rest == 0 {
        decimal(whole)
    } else if rest % 100 == 0 {
        decimal(whole) + "."@ + decimal(rest / 100)
    } else if rest % 10 == 0 {
        decimal(whole) + "."@ + decimal_padded(rest / 10, 2)
    } else {
        decimal(whole) + "."@ + decimal_padded(rest, 3)
    }
}

/// The filter that picks the frames at which the scene changes by more
/// than `threshold` thousandths, and reports them.
pub open spec fn scene_filter_of(threshold: u32) -> Seq<char> {
    "select='gt(scene,"@ + thousandths_text(threshold as nat) + ")',showinfo"@
}

/// The arguments that make the encoder report the changes of scene in
/// `input`.
pub open spec fn scene_args_of(input: Seq<char>, threshold: u32) -> Seq<Seq<char>> {
    seq!["-i"@, input, "-vf"@, scene_filter_of(threshold), "-f"@, "null"@, "-"@]
}

/// The filter for the changes of scene; see [`scene_filter_of`].
pub fn scene_filter(threshold: u32) -> (r: String)
    ensures
        r@ == scene_filter_of(threshold),
{
    let whole = (threshold / 1000) as u64;
    let rest = (threshold % 1000) as u64;
    let mut r = String::from_str("select='gt(scene,");
    let ghost head = r@;
    push_decimal(&mut r, whole);
    if rest == 0 {
    } else if rest % 100 == 0 {
        r.append(".");
        push_decimal(&mut r, rest / 100);
    } else if rest % 10 == 0 {
        r.append(".");
        push_decimal_padded(&mut r, rest / 10, 2);
    } else {
        r.append(".");
        push_decimal_padded(&mut r, rest, 3);
    }
    assert(r@ =~= head + thousandths_text(threshold as nat));
    r.append(")',showinfo");
    r
}

/// The arguments for the changes of scene; see [`scene_args_of`]. Without
/// a threshold, [`DEFAULT_SCENE_THRESHOLD`] is used.
pub fn scene_args(input: &str, threshold: Option<u32>) -> (args: Vec<String>)
    ensures
        string_views(args@) == scene_args_of(
            input@,
            match threshold {
                Some(t) => t,
                None => DEFAULT_SCENE_THRESHOLD,
            },
        ),
{
    let threshold = match threshold {
        Some(t) => t,
        None => DEFAULT_SCENE_THRESHOLD,
    };
    let mut args: Vec<String> = Vec::new();
    assert(string_views(args@) =~= Seq::<Seq<char>>::empty());
    push_text(&mut args, "-i");
    push_text(&mut args, input);
    push_text(&mut args, "-vf");
    push_string(&mut args, scene_filter(threshold));
    let items = vec!["-f", "null", "-"];
    push_texts(&mut args, items);
    assert(string_views(args@) =~= scene_args_of(input@, threshold));
    args
}

/// What `s` begins with, up to its first white space.
pub open spec fn leading_word(s: Seq<char>) -> Seq<char>
    decreases s.len(),
{
    if s.len() == 0 || is_space(s[0]) {
        Seq::empty()
    } else {
        seq![s[0]] + leading_word(s.drop_first())
    }
}

/// Whether `needle` stands in `hay` at `at`, and nowhere before.
pub open spec fn first_occurrence(hay: Seq<char>, needle: Seq<char>, at: int) -> bool {
    &&& occurs_at(hay, needle, at)
    &&& forall|j: int| 0 <= j < at ==> !occurs_at(hay, needle, j)
}

/// The time that a line of the encoder's report gives for a picked frame,
/// in microseconds: the number behind the first [`SCENE_MARK`], if it is
/// one and is more than [`SCENE_FLOOR`].
pub open spec fn scene_time_in(line: Seq<char>) -> Option<u64> {
    if exists|at: int| first_occurrence(line, SCENE_MARK@, at) {
        let at = choose|at: int| first_occurrence(line, SCENE_MARK@, at);
        match micros_of_text(leading_word(line.skip(at + SCENE_MARK@.len()))) {
            Some(time) => if time > SCENE_FLOOR {
                Some(time)
            } else {
                None
            },
            None => None,
        }
    } else {
        None
    }
}

/// The times that the first `count` of `lines` give, in order.
pub open spec fn scene_times_in(lines: Seq<Seq<char>>, count: nat) -> Seq<u64>
    decreases count,
{
    if count == 0 {
        Seq::empty()
    } else {
        let before = scene_times_in(lines, (count - 1) as nat);
        match scene_time_in(lines[count - 1]) {
            Some(time) => before.push(time),
            None => before,
        }
    }
}

/// The times at which the scene changes, as the encoder's report `report`
/// gives them, line by line.
pub open spec fn scene_times_of(report: Seq<char>) -> Seq<u64> {
    scene_times_in(split(report, '\n'), split(report, '\n').len())
}

proof fn lemma_leading_word(s: Seq<char>, n: int)
    requires
        0 <= n <= s.len(),
        forall|i: int| 0 <= i < n ==> !is_space(#[trigger] s[i]),
        n == s.len() || is_space(s[n]),
    ensures
        leading_word(s) == s.take(n),
    decreases n,
{
    if n == 0 {
        assert(s.take(0) =~= Seq::<char>::empty());
    } else {
        let rest = s.drop_first();
        assert(!is_space(s[0]));
        assert forall|i: int| 0 <= i < n - 1 implies !is_space(#[trigger] rest[i]) by {
            assert(rest[i] == s[i + 1]);
        }
        lemma_leading_word(rest, n - 1);
        assert(seq![s[0]] + rest.take(n - 1) =~= s.take(n));
    }
}

proof fn lemma_first_occurrence_unique(hay: Seq<char>, needle: Seq<char>, a: int, b: int)
    requires
        first_occurrence(hay, needle, a),
        first_occurrence(hay, needle, b),
    ensures
        a == b,
{
}

/// Reads the time of a picked frame out of one line; see
/// [`scene_time_in`].
pub fn scene_time(line: &Vec<char>) -> (r: Option<u64>)
    ensures
        r == scene_time_in(line@),
{
    let mark = to_chars(SCENE_MARK);
    let at = match find_from(line, &mark, 0) {
        Some(at) => at,
        None => {
            assert forall|j: int| !first_occurrence(line@, SCENE_MARK@, j) by {
                if 0 <= j {
                    assert(!occurs_at(line@, SCENE_MARK@, j));
                }
            }
            return None;
        },
    };
    proof {
        assert(first_occurrence(line@, SCENE_MARK@, at as int));
        let chosen = choose|k: int| first_occurrence(line@, SCENE_MARK@, k);
        lemma_first_occurrence_unique(line@, SCENE_MARK@, chosen, at as int);
    }
    assert(occurs_at(line@, mark@, at as int));
    assert(at + mark.len() <= line.len());
    let from = at + mark.len();
    let mut word: Vec<char> = Vec::new();
    let mut i: usize = from;
    while i < line.len() && !char_is_space(line[i])
        invariant
            from <= i <= line.len(),
            word@ == line@.subrange(from as int, i as int),
            forall|k: int| from <= k < i ==> !is_space(#[trigger] line@[k]),
        decreases line.len() - i,
    {
        word.push(line[i]);
        assert(word@ =~= line@.subrange(from as int, i + 1));
        i += 1;
    }
    proof {
        let rest = line@.skip(from as int);
        assert forall|k: int| 0 <= k < i - from implies !is_space(#[trigger] rest[k]) by {
            assert(rest[k] == line@[k + from]);
        }
        lemma_leading_word(rest, i - from);
        assert(rest.take(i - from) =~= word@);
    }
    match parse_seconds(&word) {
        Some(time) => if time > SCENE_FLOOR {
            Some(time)
        } else {
            None
        },
        None => None,
    }
}

/// Reads the times at which the scene changes out of the encoder's
/// report; see [`scene_times_of`].
pub fn detect_scenes(report: &str) -> (times: Vec<u64>)
    ensures
        times@ == scene_times_of(report@),
        forall|i: int| 0 <= i < times.len() ==> (#[trigger] times[i]) > SCENE_FLOOR,
{
    let chars = to_chars(report);
    let lines = split_chars(&chars, '\n');
    let ghost texts = char_views(lines@);
    let mut times: Vec<u64> = Vec::new();
    let mut i: usize = 0;
    while i < lines.len()
        invariant
            i <= lines.len(),
            texts == char_views(lines@),
            times@ == scene_times_in(texts, i as nat),
            forall|k: int| 0 <= k < times.len() ==> (#[trigger] times[k]) > SCENE_FLOOR,
        decreases lines.len() - i,
    {
        assert(texts[i as int] == lines@[i as int]@);
        match scene_time(&lines[i]) {
            Some(time) => {
                times.push(time);
            },
            None => {},
        }
        i += 1;
    }
    times
}

} // verus!
