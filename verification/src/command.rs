//! What the encoder is told on its command line, for each kind of run.

use crate::bitrate::BitratePlan;
use crate::scale::{filter_text, ScalePolicy};
use crate::text::{
    decimal, decimal_string, push_string, push_text, push_texts, seconds_string, seconds_text,
    str_views, string_views,
};
use crate::tiers::Tier;
use vstd::prelude::*;
use vstd::string::*;

verus! {

/// Which part of which file a run encodes, and where the output goes.
#[derive(Debug)]
pub struct Clip {
    /// The source file.
    pub input_path: String,
    /// The file that the job writes.
    pub output_path: String,
    /// Where the clip starts in the source, in microseconds, if it is trimmed.
    pub trim_start: Option<u64>,
    /// How long the clip is, in microseconds, if it is trimmed.
    pub trim_duration: Option<u64>,
}

/// What a [`Clip`] says, with its paths as sequences of characters.
pub struct ClipView {
    pub input_path: Seq<char>,
    pub output_path: Seq<char>,
    pub trim_start: Option<u64>,
    pub trim_duration: Option<u64>,
}

impl View for Clip {
    type V = ClipView;

    open spec fn view(&self) -> ClipView {
        ClipView {
            input_path: self.input_path@,
            output_path: self.output_path@,
            trim_start: self.trim_start,
            trim_duration: self.trim_duration,
        }
    }
}

impl Clone for Clip {
    fn clone(&self) -> (r: Self)
        ensures
            r@ == self@,
    {
        Clip {
            input_path: self.input_path.clone(),
            output_path: self.output_path.clone(),
            trim_start: self.trim_start,
            trim_duration: self.trim_duration,
        }
    }
}

/// The software encoders that run in two passes.
#[derive(Clone, Copy, Debug, PartialEq, Eq, Structural)]
pub enum SoftwareCodec {
    /// H.264 by libx264.
    X264,
    /// HEVC by libx265.
    X265,
}

/// The passes of a two-pass run.
#[derive(Clone, Copy, Debug, PartialEq, Eq, Structural)]
pub enum Pass {
    /// Collects statistics and throws the output away.
    First,
    /// Encodes by the statistics of the first pass.
    Second,
}

/// A bitrate as the encoder reads it: the number and a `k`.
pub open spec fn kbps_text(kbps: u64) -> Seq<char> {
    decimal(kbps as nat) + "k"@
}

/// The seek to the start of a trimmed clip, in front of the input.
pub open spec fn seek_args(trim_start: Option<u64>) -> Seq<Seq<char>> {
    match trim_start {
        Some(start) => seq!["-ss"@, seconds_text(start as nat)],
        None => Seq::empty(),
    }
}

/// The limit to the length of a trimmed clip, behind the input.
pub open spec fn duration_args(trim_duration: Option<u64>) -> Seq<Seq<char>> {
    match trim_duration {
        Some(duration) => seq!["-t"@, seconds_text(duration as nat)],
        None => Seq::empty(),
    }
}

/// An input file.
pub open spec fn input_args(path: Seq<char>) -> Seq<Seq<char>> {
    seq!["-i"@, path]
}

/// The chapter sidecar as a second input, where there is one.
pub open spec fn sidecar_args(sidecar: Option<Seq<char>>) -> Seq<Seq<char>> {
    match sidecar {
        Some(path) => seq!["-i"@, path],
        None => Seq::empty(),
    }
}

/// Target, ceiling and buffer of the rate control.
pub open spec fn rate_args(plan: BitratePlan) -> Seq<Seq<char>> {
    seq![
        "-b:v"@,
        kbps_text(plan.target_kbps),
        "-maxrate"@,
        kbps_text(plan.max_kbps),
        "-bufsize"@,
        kbps_text(plan.buffer_kbps),
    ]
}

/// The picture filter of a video run.
pub open spec fn filter_args(scale: ScalePolicy) -> Seq<Seq<char>> {
    seq!["-vf"@, filter_text(scale)]
}

/// The audio track of a video run.
pub open spec fn audio_args() -> Seq<Seq<char>> {
    seq!["-c:a"@, "aac"@, "-b:a"@, "128k"@]
}

/// With a sidecar: all streams of the first input, the metadata of the
/// second. Without one: the index in front, for playback while loading.
pub open spec fn mapping_args(with_sidecar: bool) -> Seq<Seq<char>> {
    if with_sidecar {
        seq!["-map"@, "0"@, "-map_metadata"@, "1"@]
    } else {
        seq!["-movflags"@, "+faststart"@]
    }
}

/// What every run begins with: overwrite, seek, input.
pub open spec fn head_args(clip: ClipView) -> Seq<Seq<char>> {
    seq!["-y"@] + seek_args(clip.trim_start) + input_args(clip.input_path)
}

/// The single run of a job on the H.264 hardware encoder.
pub open spec fn hardware_h264_args(
    clip: ClipView,
    plan: BitratePlan,
    scale: ScalePolicy,
    sidecar: Option<Seq<char>>,
) -> Seq<Seq<char>> {
    head_args(clip) + sidecar_args(sidecar) + duration_args(clip.trim_duration) + seq![
        "-c:v"@,
        "h264_nvenc"@,
        "-preset"@,
        "p7"@,
        "-tune"@,
        "hq"@,
        "-rc"@,
        "vbr"@,
    ] + rate_args(plan) + seq!["-profile:v"@, "high"@] + filter_args(scale) + audio_args()
        + mapping_args(sidecar is Some) + seq![clip.output_path]
}

/// The single run of a job on the HEVC hardware encoder.
pub open spec fn hardware_hevc_args(clip: ClipView, plan: BitratePlan, scale: ScalePolicy) -> Seq<
    Seq<char>,
> {
    head_args(clip) + duration_args(clip.trim_duration) + seq![
        "-c:v"@,
        "hevc_nvenc"@,
        "-preset"@,
        "p7"@,
        "-tune"@,
        "hq"@,
        "-rc"@,
        "vbr"@,
    ] + rate_args(plan) + seq!["-profile:v"@, "main"@] + filter_args(scale) + audio_args() + seq![
        "-movflags"@,
        "+faststart"@,
        "-tag:v"@,
        "hvc1"@,
        clip.output_path,
    ]
}

/// The encoder and its preset, for a software codec.
pub open spec fn software_codec_args(codec: SoftwareCodec) -> Seq<Seq<char>> {
    match codec {
        SoftwareCodec::X264 => seq!["-c:v"@, "libx264"@, "-preset"@, "slow"@],
        SoftwareCodec::X265 => seq!["-c:v"@, "libx265"@, "-preset"@, "medium"@],
    }
}

/// Which pass this is, and where the statistics are kept: in files named
/// after the output.
pub open spec fn pass_args(pass: Pass, output_path: Seq<char>) -> Seq<Seq<char>> {
    match pass {
        Pass::First => seq!["-pass"@, "1"@, "-passlogfile"@, output_path],
        Pass::Second => seq!["-pass"@, "2"@, "-passlogfile"@, output_path],
    }
}

/// How a software run ends. HEVC is tagged for players that ask for it.
pub open spec fn software_tail_args(
    codec: SoftwareCodec,
    with_sidecar: bool,
    output_path: Seq<char>,
) -> Seq<Seq<char>> {
    match codec {
        SoftwareCodec::X264 => mapping_args(with_sidecar) + seq![output_path],
        SoftwareCodec::X265 => mapping_args(with_sidecar) + seq!["-tag:v"@, "hvc1"@, output_path],
    }
}

/// The first pass of a software job: statistics only, no audio, and the
/// output thrown away to `null_output`.
pub open spec fn first_pass_args(
    codec: SoftwareCodec,
    clip: ClipView,
    plan: BitratePlan,
    scale: ScalePolicy,
    null_output: Seq<char>,
) -> Seq<Seq<char>> {
    head_args(clip) + duration_args(clip.trim_duration) + software_codec_args(codec) + rate_args(
        plan,
    ) + filter_args(scale) + pass_args(Pass::First, clip.output_path) + seq![
        "-an"@,
        "-f"@,
        "null"@,
        null_output,
    ]
}

/// The second pass of a software job: the encode proper.
pub open spec fn second_pass_args(
    codec: SoftwareCodec,
    clip: ClipView,
    plan: BitratePlan,
    scale: ScalePolicy,
    sidecar: Option<Seq<char>>,
) -> Seq<Seq<char>> {
    head_args(clip) + sidecar_args(sidecar) + duration_args(clip.trim_duration)
        + software_codec_args(codec) + rate_args(plan) + filter_args(scale) + pass_args(
        Pass::Second,
        clip.output_path,
    ) + audio_args() + software_tail_args(codec, sidecar is Some, clip.output_path)
}

/// The statistics files that a two-pass job leaves beside its output.
pub open spec fn pass_log_paths(output_path: Seq<char>) -> Seq<Seq<char>> {
    seq![output_path + "-0.log"@, output_path + "-0.log.mbtree"@]
}

/// The picture filter of a tier: fit within the longest side without
/// enlarging, even dimensions, and the frame rate.
pub open spec fn tier_filter(tier: Tier) -> Seq<char> {
    "scale='min("@ + decimal(tier.max_dimension as nat) + ",iw)':'min("@ + decimal(
        tier.max_dimension as nat,
    ) + ",ih)':force_original_aspect_ratio=decrease,scale=trunc(iw/2)*2:trunc(ih/2)*2,fps="@
        + decimal(tier.fps as nat)
}

/// The picture filter of a GIF tier: that of the tier, and a palette made
/// from the clip itself.
pub open spec fn gif_filter(tier: Tier) -> Seq<char> {
    tier_filter(tier)
        + ",split[s0][s1];[s0]palettegen=stats_mode=diff[p];[s1][p]paletteuse=dither=bayer:bayer_scale=5"@
}

/// The whole seconds of the start of a clip: a fast seek in front of the
/// input.
pub open spec fn fast_seek_args(trim_start: Option<u64>) -> Seq<Seq<char>> {
    match trim_start {
        Some(start) => seq!["-ss"@, decimal(start as nat / 1_000_000)],
        None => Seq::empty(),
    }
}

/// The rest of the start of a clip: an exact seek behind the input, made
/// only where more than a millisecond is left.
pub open spec fn accurate_seek_args(trim_start: Option<u64>) -> Seq<Seq<char>> {
    match trim_start {
        Some(start) => if start % 1_000_000 > 1_000 {
            seq!["-ss"@, seconds_text(start as nat % 1_000_000)]
        } else {
            Seq::empty()
        },
        None => Seq::empty(),
    }
}

/// What every run of a tier begins with.
pub open spec fn tier_head_args(clip: ClipView) -> Seq<Seq<char>> {
    seq!["-y"@] + fast_seek_args(clip.trim_start) + input_args(clip.input_path)
        + accurate_seek_args(clip.trim_start) + duration_args(clip.trim_duration)
}

/// The quality of a tier as the encoder reads it; zero where the tier has
/// none.
pub open spec fn quality_text(tier: Tier) -> Seq<char> {
    match tier.quality {
        Some(q) => decimal(q as nat),
        None => decimal(0),
    }
}

/// The run of one tier of animated WebP.
pub open spec fn webp_args(clip: ClipView, tier: Tier) -> Seq<Seq<char>> {
    tier_head_args(clip) + seq![
        "-vf"@,
        tier_filter(tier),
        "-vcodec"@,
        "libwebp"@,
        "-lossless"@,
        "0"@,
        "-compression_level"@,
        "4"@,
        "-quality"@,
        quality_text(tier),
        "-loop"@,
        "0"@,
        "-an"@,
        clip.output_path,
    ]
}

/// The run of one tier of animated GIF.
pub open spec fn gif_args(clip: ClipView, tier: Tier) -> Seq<Seq<char>> {
    tier_head_args(clip) + seq!["-vf"@, gif_filter(tier), "-loop"@, "0"@, "-an"@, clip.output_path]
}

/// A bitrate as the encoder reads it.
fn kbps_string(kbps: u64) -> (r: String)
    ensures
        r@ == kbps_text(kbps),
{
    let mut r = decimal_string(kbps);
    r.append("k");
    r
}

fn push_seek(args: &mut Vec<String>, trim_start: Option<u64>)
    ensures
        string_views(final(args)@) == string_views(old(args)@) + seek_args(trim_start),
{
    match trim_start {
        Some(start) => {
            push_text(args, "-ss");
            push_string(args, seconds_string(start));
            assert(string_views(args@) =~= string_views(old(args)@) + seek_args(trim_start));
        },
        None => {
            assert(string_views(args@) =~= string_views(old(args)@) + seek_args(trim_start));
        },
    }
}

fn push_duration(args: &mut Vec<String>, trim_duration: Option<u64>)
    ensures
        string_views(final(args)@) == string_views(old(args)@) + duration_args(trim_duration),
{
    match trim_duration {
        Some(duration) => {
            push_text(args, "-t");
            push_string(args, seconds_string(duration));
            assert(string_views(args@) =~= string_views(old(args)@) + duration_args(
                trim_duration,
            ));
        },
        None => {
            assert(string_views(args@) =~= string_views(old(args)@) + duration_args(
                trim_duration,
            ));
        },
    }
}

fn push_input(args: &mut Vec<String>, path: &str)
    ensures
        string_views(final(args)@) == string_views(old(args)@) + input_args(path@),
{
    push_text(args, "-i");
    push_text(args, path);
    assert(string_views(args@) =~= string_views(old(args)@) + input_args(path@));
}

/// The view of an optional path.
pub open spec fn path_view(path: Option<&str>) -> Option<Seq<char>> {
    match path {
        Some(p) => Some(p@),
        None => None,
    }
}

fn push_sidecar(args: &mut Vec<String>, sidecar: Option<&str>)
    ensures
        string_views(final(args)@) == string_views(old(args)@) + sidecar_args(path_view(sidecar)),
{
    match sidecar {
        Some(path) => {
            push_text(args, "-i");
            push_text(args, path);
            assert(string_views(args@) =~= string_views(old(args)@) + sidecar_args(
                path_view(sidecar),
            ));
        },
        None => {
            assert(string_views(args@) =~= string_views(old(args)@) + sidecar_args(
                path_view(sidecar),
            ));
        },
    }
}

fn push_head(args: &mut Vec<String>, clip: &Clip)
    ensures
        string_views(final(args)@) == string_views(old(args)@) + head_args(clip@),
{
    push_text(args, "-y");
    push_seek(args, clip.trim_start);
    push_input(args, clip.input_path.as_str());
    assert(string_views(args@) =~= string_views(old(args)@) + head_args(clip@));
}

fn push_rate(args: &mut Vec<String>, plan: BitratePlan)
    ensures
        string_views(final(args)@) == string_views(old(args)@) + rate_args(plan),
{
    push_text(args, "-b:v");
    push_string(args, kbps_string(plan.target_kbps));
    push_text(args, "-maxrate");
    push_string(args, kbps_string(plan.max_kbps));
    push_text(args, "-bufsize");
    push_string(args, kbps_string(plan.buffer_kbps));
    assert(string_views(args@) =~= string_views(old(args)@) + rate_args(plan));
}

fn push_filter(args: &mut Vec<String>, scale: ScalePolicy)
    ensures
        string_views(final(args)@) == string_views(old(args)@) + filter_args(scale),
{
    push_text(args, "-vf");
    push_text(args, scale.filter());
    assert(string_views(args@) =~= string_views(old(args)@) + filter_args(scale));
}

fn push_audio(args: &mut Vec<String>)
    ensures
        string_views(final(args)@) == string_views(old(args)@) + audio_args(),
{
    let items = vec!["-c:a", "aac", "-b:a", "128k"];
    assert(str_views(items@) =~= audio_args());
    push_texts(args, items);
}

fn push_mapping(args: &mut Vec<String>, with_sidecar: bool)
    ensures
        string_views(final(args)@) == string_views(old(args)@) + mapping_args(with_sidecar),
{
    let items = if with_sidecar {
        vec!["-map", "0", "-map_metadata", "1"]
    } else {
        vec!["-movflags", "+faststart"]
    };
    assert(str_views(items@) =~= mapping_args(with_sidecar));
    push_texts(args, items);
}

fn push_software_codec(args: &mut Vec<String>, codec: SoftwareCodec)
    ensures
        string_views(final(args)@) == string_views(old(args)@) + software_codec_args(codec),
{
    let items = match codec {
        SoftwareCodec::X264 => vec!["-c:v", "libx264", "-preset", "slow"],
        SoftwareCodec::X265 => vec!["-c:v", "libx265", "-preset", "medium"],
    };
    assert(str_views(items@) =~= software_codec_args(codec));
    push_texts(args, items);
}

fn push_pass(args: &mut Vec<String>, pass: Pass, output_path: &str)
    ensures
        string_views(final(args)@) == string_views(old(args)@) + pass_args(pass, output_path@),
{
    push_text(args, "-pass");
    match pass {
        Pass::First => push_text(args, "1"),
        Pass::Second => push_text(args, "2"),
    }
    push_text(args, "-passlogfile");
    push_text(args, output_path);
    assert(string_views(args@) =~= string_views(old(args)@) + pass_args(pass, output_path@));
}

fn push_software_tail(
    args: &mut Vec<String>,
    codec: SoftwareCodec,
    with_sidecar: bool,
    output_path: &str,
)
    ensures
        string_views(final(args)@) == string_views(old(args)@) + software_tail_args(
            codec,
            with_sidecar,
            output_path@,
        ),
{
    push_mapping(args, with_sidecar);
    match codec {
        SoftwareCodec::X264 => {},
        SoftwareCodec::X265 => {
            push_text(args, "-tag:v");
            push_text(args, "hvc1");
        },
    }
    push_text(args, output_path);
    assert(string_views(args@) =~= string_views(old(args)@) + software_tail_args(
        codec,
        with_sidecar,
        output_path@,
    ));
}

/// The arguments of the single run of a job on the H.264 hardware encoder.
pub fn hardware_h264_run(
    clip: &Clip,
    plan: BitratePlan,
    scale: ScalePolicy,
    sidecar: Option<&str>,
) -> (args: Vec<String>)
    ensures
        string_views(args@) == hardware_h264_args(clip@, plan, scale, path_view(sidecar)),
{
    let mut args: Vec<String> = Vec::new();
    assert(string_views(args@) =~= Seq::<Seq<char>>::empty());
    push_head(&mut args, clip);
    assert(string_views(args@) =~= head_args(clip@));
    push_sidecar(&mut args, sidecar);
    push_duration(&mut args, clip.trim_duration);
    let codec = vec!["-c:v", "h264_nvenc", "-preset", "p7", "-tune", "hq", "-rc", "vbr"];
    assert(str_views(codec@) =~= seq![
        "-c:v"@,
        "h264_nvenc"@,
        "-preset"@,
        "p7"@,
        "-tune"@,
        "hq"@,
        "-rc"@,
        "vbr"@,
    ]);
    push_texts(&mut args, codec);
    push_rate(&mut args, plan);
    let profile = vec!["-profile:v", "high"];
    assert(str_views(profile@) =~= seq!["-profile:v"@, "high"@]);
    push_texts(&mut args, profile);
    push_filter(&mut args, scale);
    push_audio(&mut args);
    push_mapping(&mut args, sidecar.is_some());
    let ghost before = string_views(args@);
    push_text(&mut args, clip.output_path.as_str());
    assert(string_views(args@) =~= before + seq![clip@.output_path]);
    args
}

/// The arguments of the single run of a job on the HEVC hardware encoder.
pub fn hardware_hevc_run(clip: &Clip, plan: BitratePlan, scale: ScalePolicy) -> (args: Vec<String>)
    ensures
        string_views(args@) == hardware_hevc_args(clip@, plan, scale),
{
    let mut args: Vec<String> = Vec::new();
    assert(string_views(args@) =~= Seq::<Seq<char>>::empty());
    push_head(&mut args, clip);
    assert(string_views(args@) =~= head_args(clip@));
    push_duration(&mut args, clip.trim_duration);
    let codec = vec!["-c:v", "hevc_nvenc", "-preset", "p7", "-tune", "hq", "-rc", "vbr"];
    assert(str_views(codec@) =~= seq![
        "-c:v"@,
        "hevc_nvenc"@,
        "-preset"@,
        "p7"@,
        "-tune"@,
        "hq"@,
        "-rc"@,
        "vbr"@,
    ]);
    push_texts(&mut args, codec);
    push_rate(&mut args, plan);
    let profile = vec!["-profile:v", "main"];
    assert(str_views(profile@) =~= seq!["-profile:v"@, "main"@]);
    push_texts(&mut args, profile);
    push_filter(&mut args, scale);
    push_audio(&mut args);
    let ghost before = string_views(args@);
    let flags = vec!["-movflags", "+faststart", "-tag:v", "hvc1"];
    push_texts(&mut args, flags);
    push_text(&mut args, clip.output_path.as_str());
    assert(string_views(args@) =~= before + seq![
        "-movflags"@,
        "+faststart"@,
        "-tag:v"@,
        "hvc1"@,
        clip@.output_path,
    ]);
    args
}

/// The arguments of the first pass of a software job.
pub fn first_pass_run(
    codec: SoftwareCodec,
    clip: &Clip,
    plan: BitratePlan,
    scale: ScalePolicy,
    null_output: &str,
) -> (args: Vec<String>)
    ensures
        string_views(args@) == first_pass_args(codec, clip@, plan, scale, null_output@),
{
    let mut args: Vec<String> = Vec::new();
    assert(string_views(args@) =~= Seq::<Seq<char>>::empty());
    push_head(&mut args, clip);
    assert(string_views(args@) =~= head_args(clip@));
    push_duration(&mut args, clip.trim_duration);
    push_software_codec(&mut args, codec);
    push_rate(&mut args, plan);
    push_filter(&mut args, scale);
    push_pass(&mut args, Pass::First, clip.output_path.as_str());
    let ghost before = string_views(args@);
    let sink = vec!["-an", "-f", "null"];
    push_texts(&mut args, sink);
    push_text(&mut args, null_output);
    assert(string_views(args@) =~= before + seq!["-an"@, "-f"@, "null"@, null_output@]);
    args
}

/// The arguments of the second pass of a software job.
pub fn second_pass_run(
    codec: SoftwareCodec,
    clip: &Clip,
    plan: BitratePlan,
    scale: ScalePolicy,
    sidecar: Option<&str>,
) -> (args: Vec<String>)
    ensures
        string_views(args@) == second_pass_args(codec, clip@, plan, scale, path_view(sidecar)),
{
    let mut args: Vec<String> = Vec::new();
    assert(string_views(args@) =~= Seq::<Seq<char>>::empty());
    push_head(&mut args, clip);
    assert(string_views(args@) =~= head_args(clip@));
    push_sidecar(&mut args, sidecar);
    push_duration(&mut args, clip.trim_duration);
    push_software_codec(&mut args, codec);
    push_rate(&mut args, plan);
    push_filter(&mut args, scale);
    push_pass(&mut args, Pass::Second, clip.output_path.as_str());
    push_audio(&mut args);
    push_software_tail(&mut args, codec, sidecar.is_some(), clip.output_path.as_str());
    args
}

/// The statistics files that a two-pass job leaves beside its output.
pub fn pass_logs(output_path: &str) -> (paths: (String, String))
    ensures
        paths.0@ == pass_log_paths(output_path@)[0],
        paths.1@ == pass_log_paths(output_path@)[1],
{
    let mut log = String::from_str(output_path);
    log.append("-0.log");
    let mut tree = String::from_str(output_path);
    tree.append("-0.log.mbtree");
    (log, tree)
}

/// The picture filter of a tier.
pub fn tier_filter_string(tier: Tier) -> (r: String)
    ensures
        r@ == tier_filter(tier),
{
    let mut r = String::from_str("scale='min(");
    r.append(decimal_string(tier.max_dimension as u64).as_str());
    r.append(",iw)':'min(");
    r.append(decimal_string(tier.max_dimension as u64).as_str());
    r.append(
        ",ih)':force_original_aspect_ratio=decrease,scale=trunc(iw/2)*2:trunc(ih/2)*2,fps=",
    );
    r.append(decimal_string(tier.fps as u64).as_str());
    r
}

/// The picture filter of a GIF tier.
pub fn gif_filter_string(tier: Tier) -> (r: String)
    ensures
        r@ == gif_filter(tier),
{
    let mut r = tier_filter_string(tier);
    r.append(
        ",split[s0][s1];[s0]palettegen=stats_mode=diff[p];[s1][p]paletteuse=dither=bayer:bayer_scale=5",
    );
    r
}

fn push_tier_head(args: &mut Vec<String>, clip: &Clip)
    ensures
        string_views(final(args)@) == string_views(old(args)@) + tier_head_args(clip@),
{
    let ghost start = string_views(args@);
    push_text(args, "-y");
    match clip.trim_start {
        Some(s) => {
            push_text(args, "-ss");
            push_string(args, decimal_string(s / 1_000_000));
        },
        None => {},
    }
    assert(string_views(args@) =~= start + seq!["-y"@] + fast_seek_args(clip.trim_start));
    push_input(args, clip.input_path.as_str());
    let ghost middle = string_views(args@);
    match clip.trim_start {
        Some(s) => {
            if s % 1_000_000 > 1_000 {
                push_text(args, "-ss");
                push_string(args, seconds_string(s % 1_000_000));
            }
        },
        None => {},
    }
    assert(string_views(args@) =~= middle + accurate_seek_args(clip.trim_start));
    push_duration(args, clip.trim_duration);
    assert(string_views(args@) =~= start + tier_head_args(clip@));
}

/// The arguments of the run of one tier of animated WebP.
pub fn webp_run(clip: &Clip, tier: Tier) -> (args: Vec<String>)
    ensures
        string_views(args@) == webp_args(clip@, tier),
{
    let mut args: Vec<String> = Vec::new();
    assert(string_views(args@) =~= Seq::<Seq<char>>::empty());
    push_tier_head(&mut args, clip);
    let ghost head = string_views(args@);
    assert(head =~= tier_head_args(clip@));
    push_text(&mut args, "-vf");
    push_string(&mut args, tier_filter_string(tier));
    let codec = vec!["-vcodec", "libwebp", "-lossless", "0", "-compression_level", "4", "-quality"];
    push_texts(&mut args, codec);
    let quality: u64 = match tier.quality {
        Some(q) => q as u64,
        None => 0,
    };
    push_string(&mut args, decimal_string(quality));
    let tail = vec!["-loop", "0", "-an"];
    push_texts(&mut args, tail);
    push_text(&mut args, clip.output_path.as_str());
    assert(string_views(args@) =~= head + seq![
        "-vf"@,
        tier_filter(tier),
        "-vcodec"@,
        "libwebp"@,
        "-lossless"@,
        "0"@,
        "-compression_level"@,
        "4"@,
        "-quality"@,
        quality_text(tier),
        "-loop"@,
        "0"@,
        "-an"@,
        clip@.output_path,
    ]);
    args
}

/// The arguments of the run of one tier of animated GIF.
pub fn gif_run(clip: &Clip, tier: Tier) -> (args: Vec<String>)
    ensures
        string_views(args@) == gif_args(clip@, tier),
{
    let mut args: Vec<String> = Vec::new();
    assert(string_views(args@) =~= Seq::<Seq<char>>::empty());
    push_tier_head(&mut args, clip);
    let ghost head = string_views(args@);
    assert(head =~= tier_head_args(clip@));
    push_text(&mut args, "-vf");
    push_string(&mut args, gif_filter_string(tier));
    let tail = vec!["-loop", "0", "-an"];
    push_texts(&mut args, tail);
    push_text(&mut args, clip.output_path.as_str());
    assert(string_views(args@) =~= head + seq![
        "-vf"@,
        gif_filter(tier),
        "-loop"@,
        "0"@,
        "-an"@,
        clip@.output_path,
    ]);
    args
}

} // verus!
