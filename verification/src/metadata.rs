//! The summary of a media file: codecs, picture, sound and container, read
//! from the prober's JSON report. A report from which no duration can be
//! told has no summary.

use crate::json::{
    by_index, by_key, error_text, items_of, json_document, json_nodes, member, node_at,
    parse_document, subtree, text_of, unsigned_of, Node, Nodes, Step,
};
use crate::probe::{failure_message, micros_of_text, parse_seconds, ProbeFailure};
use crate::text::{
    char_views, clone_text, parse_u32, parse_u64, push_text, push_texts, split, split_chars,
    str_eq, string_views, text_view, to_chars, u32_of_text, u64_of_text,
};
use vstd::prelude::*;
use vstd::string::*;

verus! {

/// What the report says of the container. Every field is as the prober
/// wrote it, and absent where the prober wrote no string there.
#[derive(Debug)]
pub struct FormatRecord {
    pub format_name: Option<String>,
    pub format_long_name: Option<String>,
    pub duration: Option<String>,
    pub bit_rate: Option<String>,
}

/// What a [`FormatRecord`] says.
pub struct FormatRecordView {
    pub format_name: Option<Seq<char>>,
    pub format_long_name: Option<Seq<char>>,
    pub duration: Option<Seq<char>>,
    pub bit_rate: Option<Seq<char>>,
}

impl View for FormatRecord {
    type V = FormatRecordView;

    open spec fn view(&self) -> FormatRecordView {
        FormatRecordView {
            format_name: text_view(self.format_name),
            format_long_name: text_view(self.format_long_name),
            duration: text_view(self.duration),
            bit_rate: text_view(self.bit_rate),
        }
    }
}

/// What the report says of one stream. Every field is as the prober wrote
/// it, and absent where the prober wrote nothing of its type there.
#[derive(Debug)]
pub struct StreamRecord {
    pub codec_type: Option<String>,
    pub codec_name: Option<String>,
    pub codec_long_name: Option<String>,
    pub width: Option<u64>,
    pub height: Option<u64>,
    pub pix_fmt: Option<String>,
    pub color_space: Option<String>,
    pub bit_rate: Option<String>,
    pub r_frame_rate: Option<String>,
    pub duration: Option<String>,
    pub channels: Option<u64>,
    pub channel_layout: Option<String>,
    pub sample_rate: Option<String>,
}

/// What a [`StreamRecord`] says.
pub struct StreamRecordView {
    pub codec_type: Option<Seq<char>>,
    pub codec_name: Option<Seq<char>>,
    pub codec_long_name: Option<Seq<char>>,
    pub width: Option<u64>,
    pub height: Option<u64>,
    pub pix_fmt: Option<Seq<char>>,
    pub color_space: Option<Seq<char>>,
    pub bit_rate: Option<Seq<char>>,
    pub r_frame_rate: Option<Seq<char>>,
    pub duration: Option<Seq<char>>,
    pub channels: Option<u64>,
    pub channel_layout: Option<Seq<char>>,
    pub sample_rate: Option<Seq<char>>,
}

impl View for StreamRecord {
    type V = StreamRecordView;

    open spec fn view(&self) -> StreamRecordView {
        StreamRecordView {
            codec_type: text_view(self.codec_type),
            codec_name: text_view(self.codec_name),
            codec_long_name: text_view(self.codec_long_name),
            width: self.width,
            height: self.height,
            pix_fmt: text_view(self.pix_fmt),
            color_space: text_view(self.color_space),
            bit_rate: text_view(self.bit_rate),
            r_frame_rate: text_view(self.r_frame_rate),
            duration: text_view(self.duration),
            channels: self.channels,
            channel_layout: text_view(self.channel_layout),
            sample_rate: text_view(self.sample_rate),
        }
    }
}

/// The views of a list of stream records, in order.
pub open spec fn stream_views(streams: Seq<StreamRecord>) -> Seq<StreamRecordView> {
    Seq::new(streams.len(), |i: int| streams[i]@)
}

/// The string that the object `nodes` holds under `key`, if it holds one.
pub open spec fn text_at(nodes: Nodes, key: Seq<char>) -> Option<Seq<char>> {
    match node_at(nodes, by_key(key)) {
        Some(Node::Text(text)) => Some(text),
        _ => None,
    }
}

/// The number that the object `nodes` holds under `key`, if it holds one.
pub open spec fn unsigned_at(nodes: Nodes, key: Seq<char>) -> Option<u64> {
    match node_at(nodes, by_key(key)) {
        Some(Node::Unsigned(n)) => Some(n),
        _ => None,
    }
}

/// The container record that the document `nodes` holds under `format`.
/// Where it holds nothing there, every field is absent.
pub open spec fn format_record_of(nodes: Nodes) -> FormatRecordView {
    let format = subtree(nodes, by_key("format"@));
    if node_at(nodes, by_key("format"@)) is Some {
        FormatRecordView {
            format_name: text_at(format, "format_name"@),
            format_long_name: text_at(format, "format_long_name"@),
            duration: text_at(format, "duration"@),
            bit_rate: text_at(format, "bit_rate"@),
        }
    } else {
        FormatRecordView { format_name: None, format_long_name: None, duration: None, bit_rate: None }
    }
}

/// The stream record that the object `stream` holds.
pub open spec fn stream_record_of(stream: Nodes) -> StreamRecordView {
    StreamRecordView {
        codec_type: text_at(stream, "codec_type"@),
        codec_name: text_at(stream, "codec_name"@),
        codec_long_name: text_at(stream, "codec_long_name"@),
        width: unsigned_at(stream, "width"@),
        height: unsigned_at(stream, "height"@),
        pix_fmt: text_at(stream, "pix_fmt"@),
        color_space: text_at(stream, "color_space"@),
        bit_rate: text_at(stream, "bit_rate"@),
        r_frame_rate: text_at(stream, "r_frame_rate"@),
        duration: text_at(stream, "duration"@),
        channels: unsigned_at(stream, "channels"@),
        channel_layout: text_at(stream, "channel_layout"@),
        sample_rate: text_at(stream, "sample_rate"@),
    }
}

/// How many streams the document `nodes` lists under `streams`: none where
/// there is no array.
pub open spec fn stream_count_of(nodes: Nodes) -> nat {
    match node_at(nodes, by_key("streams"@)) {
        Some(Node::List(count)) => count,
        _ => 0,
    }
}

/// The stream records of the document `nodes`, in order.
pub open spec fn stream_records_of(nodes: Nodes) -> Seq<StreamRecordView> {
    Seq::new(
        stream_count_of(nodes),
        |i: int| stream_record_of(subtree(nodes, by_key("streams"@) + by_index(i as nat))),
    )
}

/// The part behind a path of the part behind another is the part behind
/// both.
proof fn lemma_subtree_twice(nodes: Nodes, first: Seq<Step>, second: Seq<Step>)
    ensures
        subtree(subtree(nodes, first), second) == subtree(nodes, first + second),
{
    assert forall|path: Seq<Step>| first + (second + path) == (first + second) + path by {
        assert(first + (second + path) =~= (first + second) + path);
    }
    assert(subtree(subtree(nodes, first), second) =~= subtree(nodes, first + second));
}

/// What lies at the start of the part behind a path lies at that path.
proof fn lemma_subtree_root(nodes: Nodes, path: Seq<Step>)
    ensures
        node_at(subtree(nodes, path), Seq::empty()) == node_at(nodes, path),
{
    assert(path + Seq::<Step>::empty() =~= path);
}

/// The string under `key` in the object `value`, if there is one.
fn read_text(value: &serde_json::Value, key: &str) -> (r: Option<String>)
    ensures
        text_view(r) == text_at(json_nodes(*value), key@),
{
    proof {
        lemma_subtree_root(json_nodes(*value), by_key(key@));
    }
    match member(value, key) {
        Some(child) => match text_of(child) {
            Some(text) => Some(String::from_str(text)),
            None => None,
        },
        None => None,
    }
}

/// The number under `key` in the object `value`, if there is one.
fn read_unsigned(value: &serde_json::Value, key: &str) -> (r: Option<u64>)
    ensures
        r == unsigned_at(json_nodes(*value), key@),
{
    proof {
        lemma_subtree_root(json_nodes(*value), by_key(key@));
    }
    match member(value, key) {
        Some(child) => unsigned_of(child),
        None => None,
    }
}

/// Reads the record of one stream.
fn read_stream(value: &serde_json::Value) -> (r: StreamRecord)
    ensures
        r@ == stream_record_of(json_nodes(*value)),
{
    StreamRecord {
        codec_type: read_text(value, "codec_type"),
        codec_name: read_text(value, "codec_name"),
        codec_long_name: read_text(value, "codec_long_name"),
        width: read_unsigned(value, "width"),
        height: read_unsigned(value, "height"),
        pix_fmt: read_text(value, "pix_fmt"),
        color_space: read_text(value, "color_space"),
        bit_rate: read_text(value, "bit_rate"),
        r_frame_rate: read_text(value, "r_frame_rate"),
        duration: read_text(value, "duration"),
        channels: read_unsigned(value, "channels"),
        channel_layout: read_text(value, "channel_layout"),
        sample_rate: read_text(value, "sample_rate"),
    }
}

/// Reads the record of the container.
fn read_format(document: &serde_json::Value) -> (r: FormatRecord)
    ensures
        r@ == format_record_of(json_nodes(*document)),
{
    let ghost nodes = json_nodes(*document);
    match member(document, "format") {
        Some(format) => FormatRecord {
            format_name: read_text(format, "format_name"),
            format_long_name: read_text(format, "format_long_name"),
            duration: read_text(format, "duration"),
            bit_rate: read_text(format, "bit_rate"),
        },
        None => {
            FormatRecord { format_name: None, format_long_name: None, duration: None, bit_rate: None }
        },
    }
}

/// What the report says, as far as the summary needs it.
#[derive(Debug)]
pub struct ProbeReport {
    pub format: FormatRecord,
    pub streams: Vec<StreamRecord>,
}

/// What a [`ProbeReport`] says.
pub struct ProbeReportView {
    pub format: FormatRecordView,
    pub streams: Seq<StreamRecordView>,
}

impl View for ProbeReport {
    type V = ProbeReportView;

    open spec fn view(&self) -> ProbeReportView {
        ProbeReportView { format: self.format@, streams: stream_views(self.streams@) }
    }
}

/// The report that the document `nodes` holds.
pub open spec fn report_of(nodes: Nodes) -> ProbeReportView {
    ProbeReportView { format: format_record_of(nodes), streams: stream_records_of(nodes) }
}

/// Reads the report out of a parsed document.
fn read_report(document: &serde_json::Value) -> (r: ProbeReport)
    ensures
        r@ == report_of(json_nodes(*document)),
{
    let ghost nodes = json_nodes(*document);
    let format = read_format(document);
    let mut streams: Vec<StreamRecord> = Vec::new();
    proof {
        lemma_subtree_root(nodes, by_key("streams"@));
    }
    match member(document, "streams") {
        Some(list) => match items_of(list) {
            Some(items) => {
                let mut i: usize = 0;
                while i < items.len()
                    invariant
                        i <= items.len(),
                        nodes == json_nodes(*document),
                        stream_count_of(nodes) == items.len(),
                        json_nodes(*list) == subtree(nodes, by_key("streams"@)),
                        forall|k: int|
                            0 <= k < items.len() ==> json_nodes(#[trigger] items[k]) == subtree(
                                json_nodes(*list),
                                by_index(k as nat),
                            ),
                        streams.len() == i,
                        forall|k: int|
                            0 <= k < i ==> (#[trigger] streams[k])@ == stream_records_of(nodes)[k],
                    decreases items.len() - i,
                {
                    proof {
                        lemma_subtree_twice(nodes, by_key("streams"@), by_index(i as nat));
                    }
                    let record = read_stream(&items[i]);
                    streams.push(record);
                    i += 1;
                }
            },
            None => {},
        },
        None => {},
    }
    assert(stream_views(streams@) =~= stream_records_of(nodes));
    ProbeReport { format, streams }
}

/// The summary of a media file. Absent fields were not in the report.
#[derive(Debug)]
pub struct MediaMetadata {
    pub video_codec: Option<String>,
    pub video_codec_long: Option<String>,
    /// Picture width in pixels; zero where the report gives none.
    pub width: u32,
    /// Picture height in pixels; zero where the report gives none.
    pub height: u32,
    /// The frame rate as the prober writes it, a ratio such as `30000/1001`.
    pub frame_rate: Option<String>,
    /// The frame rate in thousandths of a frame per second.
    pub frame_rate_millis: Option<u64>,
    pub video_bitrate: Option<u64>,
    pub pixel_format: Option<String>,
    pub color_space: Option<String>,
    /// The duration in microseconds; zero where the report gives none. A
    /// summary that [`get_media_metadata`] hands out never has zero here.
    pub duration: u64,
    pub audio_codec: Option<String>,
    pub audio_codec_long: Option<String>,
    pub audio_channels: Option<u32>,
    pub audio_channel_layout: Option<String>,
    pub audio_sample_rate: Option<u32>,
    pub audio_bitrate: Option<u64>,
    pub format_name: Option<String>,
    pub format_long_name: Option<String>,
    pub overall_bitrate: Option<u64>,
}

/// What a [`MediaMetadata`] says.
pub struct MediaMetadataView {
    pub video_codec: Option<Seq<char>>,
    pub video_codec_long: Option<Seq<char>>,
    pub width: u32,
    pub height: u32,
    pub frame_rate: Option<Seq<char>>,
    pub frame_rate_millis: Option<u64>,
    pub video_bitrate: Option<u64>,
    pub pixel_format: Option<Seq<char>>,
    pub color_space: Option<Seq<char>>,
    pub duration: u64,
    pub audio_codec: Option<Seq<char>>,
    pub audio_codec_long: Option<Seq<char>>,
    pub audio_channels: Option<u32>,
    pub audio_channel_layout: Option<Seq<char>>,
    pub audio_sample_rate: Option<u32>,
    pub audio_bitrate: Option<u64>,
    pub format_name: Option<Seq<char>>,
    pub format_long_name: Option<Seq<char>>,
    pub overall_bitrate: Option<u64>,
}

impl View for MediaMetadata {
    type V = MediaMetadataView;

    open spec fn view(&self) -> MediaMetadataView {
        MediaMetadataView {
            video_codec: text_view(self.video_codec),
            video_codec_long: text_view(self.video_codec_long),
            width: self.width,
            height: self.height,
            frame_rate: text_view(self.frame_rate),
            frame_rate_millis: self.frame_rate_millis,
            video_bitrate: self.video_bitrate,
            pixel_format: text_view(self.pixel_format),
            color_space: text_view(self.color_space),
            duration: self.duration,
            audio_codec: text_view(self.audio_codec),
            audio_codec_long: text_view(self.audio_codec_long),
            audio_channels: self.audio_channels,
            audio_channel_layout: text_view(self.audio_channel_layout),
            audio_sample_rate: self.audio_sample_rate,
            audio_bitrate: self.audio_bitrate,
            format_name: text_view(self.format_name),
            format_long_name: text_view(self.format_long_name),
            overall_bitrate: self.overall_bitrate,
        }
    }
}

/// The 64-bit number that an optional text spells, if it spells one.
pub open spec fn spelled_u64(text: Option<Seq<char>>) -> Option<u64> {
    match text {
        Some(t) => u64_of_text(t),
        None => None,
    }
}

/// The 32-bit number that an optional text spells, if it spells one.
pub open spec fn spelled_u32(text: Option<Seq<char>>) -> Option<u32> {
    match text {
        Some(t) => u32_of_text(t),
        None => None,
    }
}

/// The microseconds that an optional text spells as seconds; zero where it
/// spells none.
pub open spec fn spelled_micros(text: Option<Seq<char>>) -> u64 {
    match text {
        Some(t) => match micros_of_text(t) {
            Some(d) => d,
            None => 0,
        },
        None => 0,
    }
}

/// The low 32 bits of an optional number; zero where there is none.
pub open spec fn low_bits(n: Option<u64>) -> u32 {
    match n {
        Some(n) => (n % 0x1_0000_0000) as u32,
        None => 0,
    }
}

/// The frame rate that a ratio spells, in thousandths of a frame per
/// second, rounded down. The ratio is two numbers with a stroke between
/// them, the second not zero. A rate too high for 64 bits counts as the
/// highest there is.
pub open spec fn frame_rate_millis_of(rate: Seq<char>) -> Option<u64> {
    let parts = split(rate, '/');
    if parts.len() == 2 {
        match (micros_of_text(parts[0]), micros_of_text(parts[1])) {
            (Some(num), Some(den)) => if den > 0 {
                let millis = num as nat * 1000 / den as nat;
                if millis > u64::MAX {
                    Some(u64::MAX)
                } else {
                    Some(millis as u64)
                }
            } else {
                None
            },
            _ => None,
        }
    } else {
        None
    }
}

/// The summary before any stream is looked at: what the container says.
pub open spec fn container_summary(format: FormatRecordView) -> MediaMetadataView {
    MediaMetadataView {
        video_codec: None,
        video_codec_long: None,
        width: 0,
        height: 0,
        frame_rate: None,
        frame_rate_millis: None,
        video_bitrate: None,
        pixel_format: None,
        color_space: None,
        duration: spelled_micros(format.duration),
        audio_codec: None,
        audio_codec_long: None,
        audio_channels: None,
        audio_channel_layout: None,
        audio_sample_rate: None,
        audio_bitrate: None,
        format_name: format.format_name,
        format_long_name: format.format_long_name,
        overall_bitrate: spelled_u64(format.bit_rate),
    }
}

/// The summary after one more stream.
///
/// A video stream is taken as long as no video codec is known, an audio
/// stream as long as no audio codec is known; any other stream changes
/// nothing. A video stream without a frame rate leaves the frame rate as it
/// was, and it gives the duration only where none is known.
pub open spec fn with_stream(meta: MediaMetadataView, stream: StreamRecordView) -> MediaMetadataView {
    if stream.codec_type == Some("video"@) && meta.video_codec is None {
        MediaMetadataView {
            video_codec: stream.codec_name,
            video_codec_long: stream.codec_long_name,
            width: low_bits(stream.width),
            height: low_bits(stream.height),
            pixel_format: stream.pix_fmt,
            color_space: stream.color_space,
            video_bitrate: spelled_u64(stream.bit_rate),
            frame_rate: match stream.r_frame_rate {
                Some(rate) => Some(rate),
                None => meta.frame_rate,
            },
            frame_rate_millis: match stream.r_frame_rate {
                Some(rate) => match frame_rate_millis_of(rate) {
                    Some(millis) => Some(millis),
                    None => meta.frame_rate_millis,
                },
                None => meta.frame_rate_millis,
            },
            duration: if meta.duration == 0 {
                spelled_micros(stream.duration)
            } else {
                meta.duration
            },
            ..meta
        }
    } else if stream.codec_type == Some("audio"@) && meta.audio_codec is None {
        MediaMetadataView {
            audio_codec: stream.codec_name,
            audio_codec_long: stream.codec_long_name,
            audio_channels: match stream.channels {
                Some(n) => Some(low_bits(Some(n))),
                None => None,
            },
            audio_channel_layout: stream.channel_layout,
            audio_sample_rate: spelled_u32(stream.sample_rate),
            audio_bitrate: spelled_u64(stream.bit_rate),
            ..meta
        }
    } else {
        meta
    }
}

/// The summary after the first `count` streams of a report.
pub open spec fn summary_after(report: ProbeReportView, count: nat) -> MediaMetadataView
    decreases count,
{
    if count == 0 {
        container_summary(report.format)
    } else {
        with_stream(summary_after(report, (count - 1) as nat), report.streams[count - 1])
    }
}

/// The summary of a report.
pub open spec fn metadata_of(report: ProbeReportView) -> MediaMetadataView {
    summary_after(report, report.streams.len())
}

fn spell_u64(text: &Option<String>) -> (r: Option<u64>)
    ensures
        r == spelled_u64(text_view(*text)),
{
    match text {
        Some(t) => parse_u64(&to_chars(t.as_str())),
        None => None,
    }
}

fn spell_u32(text: &Option<String>) -> (r: Option<u32>)
    ensures
        r == spelled_u32(text_view(*text)),
{
    match text {
        Some(t) => parse_u32(&to_chars(t.as_str())),
        None => None,
    }
}

fn spell_micros(text: &Option<String>) -> (r: u64)
    ensures
        r == spelled_micros(text_view(*text)),
{
    match text {
        Some(t) => match parse_seconds(&to_chars(t.as_str())) {
            Some(d) => d,
            None => 0,
        },
        None => 0,
    }
}

fn low_32(n: Option<u64>) -> (r: u32)
    ensures
        r == low_bits(n),
{
    match n {
        Some(n) => (n % 0x1_0000_0000) as u32,
        None => 0,
    }
}

/// Reads a frame rate; see [`frame_rate_millis_of`].
pub fn parse_frame_rate(rate: &str) -> (r: Option<u64>)
    ensures
        r == frame_rate_millis_of(rate@),
{
    let chars = to_chars(rate);
    let parts = split_chars(&chars, '/');
    if parts.len() != 2 {
        return None;
    }
    assert(char_views(parts@)[0] == parts@[0]@);
    assert(char_views(parts@)[1] == parts@[1]@);
    match (parse_seconds(&parts[0]), parse_seconds(&parts[1])) {
        (Some(num), Some(den)) => {
            if den > 0 {
                let millis = (num as u128) * 1000 / (den as u128);
                if millis > u64::MAX as u128 {
                    Some(u64::MAX)
                } else {
                    Some(millis as u64)
                }
            } else {
                None
            }
        },
        _ => None,
    }
}

fn is_kind(codec_type: &Option<String>, kind: &str) -> (r: bool)
    ensures
        r == (text_view(*codec_type) == Some(kind@)),
{
    match codec_type {
        Some(t) => str_eq(t.as_str(), kind),
        None => false,
    }
}

/// Takes one more stream into the summary; see [`with_stream`].
pub fn add_stream(meta: &mut MediaMetadata, stream: &StreamRecord)
    ensures
        final(meta)@ == with_stream(old(meta)@, stream@),
{
    if is_kind(&stream.codec_type, "video") && meta.video_codec.is_none() {
        meta.video_codec = clone_text(&stream.codec_name);
        meta.video_codec_long = clone_text(&stream.codec_long_name);
        meta.width = low_32(stream.width);
        meta.height = low_32(stream.height);
        meta.pixel_format = clone_text(&stream.pix_fmt);
        meta.color_space = clone_text(&stream.color_space);
        meta.video_bitrate = spell_u64(&stream.bit_rate);
        match &stream.r_frame_rate {
            Some(rate) => {
                meta.frame_rate = Some(rate.clone());
                match parse_frame_rate(rate.as_str()) {
                    Some(millis) => {
                        meta.frame_rate_millis = Some(millis);
                    },
                    None => {},
                }
            },
            None => {},
        }
        if meta.duration == 0 {
            meta.duration = spell_micros(&stream.duration);
        }
    } else if is_kind(&stream.codec_type, "audio") && meta.audio_codec.is_none() {
        meta.audio_codec = clone_text(&stream.codec_name);
        meta.audio_codec_long = clone_text(&stream.codec_long_name);
        meta.audio_channels = match stream.channels {
            Some(n) => Some(low_32(Some(n))),
            None => None,
        };
        meta.audio_channel_layout = clone_text(&stream.channel_layout);
        meta.audio_sample_rate = spell_u32(&stream.sample_rate);
        meta.audio_bitrate = spell_u64(&stream.bit_rate);
    }
}

/// Sums up a report: the container first, then the first video stream and
/// the first audio stream that name their codec; see [`metadata_of`].
pub fn summarize(report: &ProbeReport) -> (meta: MediaMetadata)
    ensures
        meta@ == metadata_of(report@),
{
    let mut meta = MediaMetadata {
        video_codec: None,
        video_codec_long: None,
        width: 0,
        height: 0,
        frame_rate: None,
        frame_rate_millis: None,
        video_bitrate: None,
        pixel_format: None,
        color_space: None,
        duration: spell_micros(&report.format.duration),
        audio_codec: None,
        audio_codec_long: None,
        audio_channels: None,
        audio_channel_layout: None,
        audio_sample_rate: None,
        audio_bitrate: None,
        format_name: clone_text(&report.format.format_name),
        format_long_name: clone_text(&report.format.format_long_name),
        overall_bitrate: spell_u64(&report.format.bit_rate),
    };
    let mut i: usize = 0;
    while i < report.streams.len()
        invariant
            i <= report.streams.len(),
            meta@ == summary_after(report@, i as nat),
        decreases report.streams.len() - i,
    {
        assert(report@.streams[i as int] == report.streams[i as int]@);
        add_stream(&mut meta, &report.streams[i]);
        i += 1;
    }
    meta
}

/// What a report that is no JSON document is answered with, in front of
/// the parser's words.
pub const PARSE_FAILED: &'static str = "Failed to parse ffprobe output: ";

/// What a report gives: its summary, or the failure where neither the
/// container nor any stream that is taken gives a duration other than zero.
pub open spec fn checked_metadata_of(report: ProbeReportView) -> Result<
    MediaMetadataView,
    ProbeFailure,
> {
    if metadata_of(report).duration == 0 {
        Err(ProbeFailure::NoDuration)
    } else {
        Ok(metadata_of(report))
    }
}

/// Sums up a report, and fails where the report gives no duration; see
/// [`checked_metadata_of`].
pub fn metadata_from_report(report: &ProbeReport) -> (r: Result<MediaMetadata, ProbeFailure>)
    ensures
        match r {
            Ok(meta) => checked_metadata_of(report@) == Ok::<MediaMetadataView, ProbeFailure>(
                meta@,
            ) && meta.duration > 0,
            Err(failure) => checked_metadata_of(report@) == Err::<MediaMetadataView, ProbeFailure>(
                failure,
            ),
        },
{
    let meta = summarize(report);
    if meta.duration == 0 {
        Err(ProbeFailure::NoDuration)
    } else {
        Ok(meta)
    }
}

/// Sums up the prober's JSON report `output`.
///
/// A report that is no JSON document is answered with [`PARSE_FAILED`] and
/// the parser's words. A document from which no duration can be told,
/// neither from the container nor from a stream, is answered with the
/// message of [`ProbeFailure::NoDuration`]. Every other report has a
/// summary, see [`metadata_of`] and [`report_of`], and its duration is not
/// zero.
pub fn get_media_metadata(output: &str) -> (r: Result<MediaMetadata, String>)
    ensures
        match json_document(output@) {
            Some(nodes) => match checked_metadata_of(report_of(nodes)) {
                Ok(meta) => r is Ok && r->Ok_0@ == meta && r->Ok_0.duration > 0,
                Err(failure) => r is Err && r->Err_0@ == failure_message(failure),
            },
            None => r is Err && r->Err_0@.len() >= PARSE_FAILED@.len() && r->Err_0@.subrange(
                0,
                PARSE_FAILED@.len() as int,
            ) == PARSE_FAILED@,
        },
{
    match parse_document(output) {
        Ok(document) => {
            let report = read_report(&document);
            match metadata_from_report(&report) {
                Ok(meta) => Ok(meta),
                Err(failure) => Err(String::from_str(failure.message())),
            }
        },
        Err(error) => {
            let mut message = String::from_str(PARSE_FAILED);
            let detail = error_text(&error);
            message.append(detail.as_str());
            assert(message@.subrange(0, PARSE_FAILED@.len() as int) =~= PARSE_FAILED@);
            Err(message)
        },
    }
}

/// The arguments that make the prober print the report that
/// [`get_media_metadata`] reads.
pub open spec fn media_metadata_args_of(input: Seq<char>) -> Seq<Seq<char>> {
    seq!["-v"@, "quiet"@, "-print_format"@, "json"@, "-show_format"@, "-show_streams"@, input]
}

/// The arguments that make the prober print the report that
/// [`get_media_metadata`] reads, for the file `input`.
pub fn media_metadata_args(input: &str) -> (args: Vec<String>)
    ensures
        string_views(args@) == media_metadata_args_of(input@),
{
    let mut args: Vec<String> = Vec::new();
    assert(string_views(args@) =~= Seq::<Seq<char>>::empty());
    let items = vec!["-v", "quiet", "-print_format", "json", "-show_format", "-show_streams"];
    push_texts(&mut args, items);
    push_text(&mut args, input);
    assert(string_views(args@) =~= media_metadata_args_of(input@));
    args
}

} // verus!
