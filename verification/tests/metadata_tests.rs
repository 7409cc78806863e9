use size_transcode::metadata::{
    add_stream, get_media_metadata, media_metadata_args, metadata_from_report, parse_frame_rate,
    summarize, FormatRecord, MediaMetadata, ProbeReport, StreamRecord, PARSE_FAILED,
};
use size_transcode::probe::ProbeFailure;

const NO_DURATION: &str = "Could not determine video duration";

const REPORT: &str = r#"{
  "streams": [
    {"index": 0, "codec_type": "data", "codec_name": "bin_data"},
    {"index": 1, "codec_name": "h264", "codec_long_name": "H.264 / AVC", "codec_type": "video",
     "width": 1920, "height": 1080, "pix_fmt": "yuv420p", "color_space": "bt709",
     "r_frame_rate": "30000/1001", "bit_rate": "4500000", "duration": "12.345000"},
    {"index": 2, "codec_name": "aac", "codec_long_name": "AAC (Advanced Audio Coding)",
     "codec_type": "audio", "channels": 2, "channel_layout": "stereo", "sample_rate": "48000",
     "bit_rate": "128000"},
    {"index": 3, "codec_name": "hevc", "codec_type": "video", "width": 640, "height": 360},
    {"index": 4, "codec_name": "mp3", "codec_type": "audio", "channels": 1}
  ],
  "format": {"format_name": "mov,mp4,m4a,3gp,3g2,mj2", "format_long_name": "QuickTime / MOV",
             "duration": "12.400000", "bit_rate": "4650000", "size": "7207500"}
}"#;

fn some(s: &str) -> Option<String> {
    Some(s.to_string())
}

#[test]
fn metadata_from_full_report() {
    let m = get_media_metadata(REPORT).unwrap();
    assert_eq!(m.video_codec, some("h264"));
    assert_eq!(m.video_codec_long, some("H.264 / AVC"));
    assert_eq!(m.width, 1920);
    assert_eq!(m.height, 1080);
    assert_eq!(m.frame_rate, some("30000/1001"));
    assert_eq!(m.frame_rate_millis, Some(29_970));
    assert_eq!(m.video_bitrate, Some(4_500_000));
    assert_eq!(m.pixel_format, some("yuv420p"));
    assert_eq!(m.color_space, some("bt709"));
    assert_eq!(m.duration, 12_400_000);
    assert_eq!(m.audio_codec, some("aac"));
    assert_eq!(m.audio_codec_long, some("AAC (Advanced Audio Coding)"));
    assert_eq!(m.audio_channels, Some(2));
    assert_eq!(m.audio_channel_layout, some("stereo"));
    assert_eq!(m.audio_sample_rate, Some(48_000));
    assert_eq!(m.audio_bitrate, Some(128_000));
    assert_eq!(m.format_name, some("mov,mp4,m4a,3gp,3g2,mj2"));
    assert_eq!(m.format_long_name, some("QuickTime / MOV"));
    assert_eq!(m.overall_bitrate, Some(4_650_000));
}

#[test]
fn metadata_duration_from_stream_when_format_has_none() {
    let m = get_media_metadata(
        r#"{"format": {"format_name": "matroska"},
            "streams": [{"codec_type": "video", "codec_name": "vp9", "duration": "3.5"}]}"#,
    )
    .unwrap();
    assert_eq!(m.duration, 3_500_000);
    assert_eq!(m.format_name, some("matroska"));
    assert_eq!(m.overall_bitrate, None);
    assert_eq!(m.width, 0);
    assert_eq!(m.frame_rate, None);
}

#[test]
fn metadata_of_documents_without_duration_fails() {
    for text in ["{}", "[]", "null", "7", "\"x\"", r#"{"streams": {}, "format": []}"#, r#"{"streams": []}"#] {
        assert_eq!(get_media_metadata(text).unwrap_err(), NO_DURATION, "{}", text);
    }
    // A still picture: a container and a video stream, and no duration anywhere.
    let still = r#"{"format":{"format_name":"image2"},"streams":[{"codec_type":"video","codec_name":"png","width":10,"height":10}]}"#;
    assert_eq!(get_media_metadata(still).unwrap_err(), NO_DURATION);
    // A duration of zero is no duration.
    let zero = r#"{"format":{"duration":"0.000000"},"streams":[{"codec_type":"video","codec_name":"png","duration":"0"}]}"#;
    assert_eq!(get_media_metadata(zero).unwrap_err(), NO_DURATION);
    // The duration of a stream that is not taken does not count.
    let other = r#"{"streams":[{"codec_type":"subtitle","codec_name":"srt","duration":"5.0"}]}"#;
    assert_eq!(get_media_metadata(other).unwrap_err(), NO_DURATION);
    // It does not begin like the answer to what is no document.
    assert!(!NO_DURATION.starts_with(PARSE_FAILED));
}

#[test]
fn metadata_duration_alone_is_enough() {
    let m = get_media_metadata(r#"{"format": {"duration": "0.000001"}}"#).unwrap();
    assert_eq!(m.duration, 1);
    assert_eq!(m.video_codec, None);
    assert_eq!(m.audio_codec, None);
    assert_eq!(m.width, 0);
    assert_eq!(m.format_name, None);
    let m = get_media_metadata(r#"{"streams": [{"codec_type": "video", "duration": "2"}]}"#).unwrap();
    assert_eq!(m.duration, 2_000_000);
    assert_eq!(m.video_codec, None);
}

#[test]
fn metadata_fields_of_the_wrong_type_are_absent() {
    // The container's duration is a number, not a string: it does not count.
    let without = r#"{"format": {"format_name": 5, "duration": 12.5, "bit_rate": 1000},
            "streams": [{"codec_type": "video", "codec_name": "h264", "width": "1920", "height": -5,
                         "bit_rate": 99, "r_frame_rate": 30, "duration": 3},
                        {"codec_type": "audio", "codec_name": "aac", "channels": 2.0,
                         "sample_rate": 48000}]}"#;
    assert_eq!(get_media_metadata(without).unwrap_err(), NO_DURATION);
    let m = get_media_metadata(
        r#"{"format": {"format_name": 5, "duration": 12.5, "bit_rate": 1000},
            "streams": [{"codec_type": "video", "codec_name": "h264", "width": "1920", "height": -5,
                         "bit_rate": 99, "r_frame_rate": 30, "duration": "3"},
                        {"codec_type": "audio", "codec_name": "aac", "channels": 2.0,
                         "sample_rate": 48000}]}"#,
    )
    .unwrap();
    assert_eq!(m.format_name, None);
    assert_eq!(m.duration, 3_000_000);
    assert_eq!(m.overall_bitrate, None);
    assert_eq!(m.video_codec, some("h264"));
    assert_eq!(m.width, 0);
    assert_eq!(m.height, 0);
    assert_eq!(m.video_bitrate, None);
    assert_eq!(m.frame_rate, None);
    assert_eq!(m.audio_codec, some("aac"));
    assert_eq!(m.audio_channels, None);
    assert_eq!(m.audio_sample_rate, None);
}

#[test]
fn metadata_video_stream_without_codec_name_is_overridden() {
    let m = get_media_metadata(
        r#"{"format": {"duration": "8"},
            "streams": [{"codec_type": "video", "width": 100, "height": 50, "r_frame_rate": "25/1"},
                        {"codec_type": "video", "codec_name": "h264", "width": 200, "height": 80},
                        {"codec_type": "video", "codec_name": "vp9", "width": 300}]}"#,
    )
    .unwrap();
    assert_eq!(m.video_codec, some("h264"));
    assert_eq!(m.width, 200);
    assert_eq!(m.height, 80);
    // The second stream gives no frame rate, so that of the first stays.
    assert_eq!(m.frame_rate, some("25/1"));
    assert_eq!(m.frame_rate_millis, Some(25_000));
}

#[test]
fn metadata_dimensions_keep_their_low_32_bits() {
    let m = get_media_metadata(
        r#"{"format": {"duration": "1.5"},
            "streams": [{"codec_type": "video", "codec_name": "x", "width": 4294967297, "height": 4294967296},
                        {"codec_type": "audio", "codec_name": "y", "channels": 4294967298}]}"#,
    )
    .unwrap();
    assert_eq!(m.width, 1);
    assert_eq!(m.height, 0);
    assert_eq!(m.audio_channels, Some(2));
    assert_eq!(m.duration, 1_500_000);
}

#[test]
fn metadata_rejects_what_is_no_json() {
    for text in ["", "{", "{\"a\": }", "not json", "{} trailing"] {
        let e = get_media_metadata(text).unwrap_err();
        assert!(e.starts_with("Failed to parse ffprobe output: "), "{}", e);
        assert!(e.len() > PARSE_FAILED.len());
    }
}

#[test]
fn metadata_frame_rates() {
    assert_eq!(parse_frame_rate("30/1"), Some(30_000));
    assert_eq!(parse_frame_rate("30000/1001"), Some(29_970));
    assert_eq!(parse_frame_rate("24000/1001"), Some(23_976));
    assert_eq!(parse_frame_rate("25/2"), Some(12_500));
    assert_eq!(parse_frame_rate("0/1"), Some(0));
    assert_eq!(parse_frame_rate("29.97/1"), Some(29_970));
    assert_eq!(parse_frame_rate("1/0"), None);
    assert_eq!(parse_frame_rate("0/0"), None);
    assert_eq!(parse_frame_rate("30"), None);
    assert_eq!(parse_frame_rate("30/1/1"), None);
    assert_eq!(parse_frame_rate("a/b"), None);
    assert_eq!(parse_frame_rate("/"), None);
    assert_eq!(parse_frame_rate(""), None);
    assert_eq!(parse_frame_rate("18446744073709/0.000001"), Some(u64::MAX));
}

fn blank_stream() -> StreamRecord {
    StreamRecord {
        codec_type: None,
        codec_name: None,
        codec_long_name: None,
        width: None,
        height: None,
        pix_fmt: None,
        color_space: None,
        bit_rate: None,
        r_frame_rate: None,
        duration: None,
        channels: None,
        channel_layout: None,
        sample_rate: None,
    }
}

#[test]
fn metadata_summary_of_records() {
    let report = ProbeReport {
        format: FormatRecord {
            format_name: some("avi"),
            format_long_name: None,
            duration: some("N/A"),
            bit_rate: some("+77"),
        },
        streams: vec![
            StreamRecord { codec_type: some("subtitle"), codec_name: some("srt"), ..blank_stream() },
            StreamRecord {
                codec_type: some("audio"),
                codec_name: some("pcm"),
                sample_rate: some("99999999999"),
                bit_rate: some("18446744073709551616"),
                ..blank_stream()
            },
            StreamRecord {
                codec_type: some("video"),
                codec_name: some("mjpeg"),
                duration: some("2"),
                r_frame_rate: some("bad"),
                ..blank_stream()
            },
        ],
    };
    let m: MediaMetadata = summarize(&report);
    assert_eq!(m.format_name, some("avi"));
    assert_eq!(m.overall_bitrate, Some(77));
    assert_eq!(m.audio_codec, some("pcm"));
    assert_eq!(m.audio_sample_rate, None);
    assert_eq!(m.audio_bitrate, None);
    assert_eq!(m.video_codec, some("mjpeg"));
    assert_eq!(m.duration, 2_000_000);
    assert_eq!(m.frame_rate, some("bad"));
    assert_eq!(m.frame_rate_millis, None);
}

#[test]
fn metadata_add_stream_keeps_known_duration() {
    let report = ProbeReport {
        format: FormatRecord { format_name: None, format_long_name: None, duration: some("9"), bit_rate: None },
        streams: Vec::new(),
    };
    let mut m = summarize(&report);
    add_stream(
        &mut m,
        &StreamRecord { codec_type: some("video"), codec_name: some("h264"), duration: some("1"), ..blank_stream() },
    );
    assert_eq!(m.duration, 9_000_000);
    assert_eq!(m.video_codec, some("h264"));
}

#[test]
fn metadata_from_report_fails_without_duration() {
    let report = ProbeReport {
        format: FormatRecord {
            format_name: some("image2"),
            format_long_name: None,
            duration: None,
            bit_rate: None,
        },
        streams: vec![StreamRecord {
            codec_type: some("video"),
            codec_name: some("png"),
            width: Some(10),
            height: Some(10),
            ..blank_stream()
        }],
    };
    assert_eq!(metadata_from_report(&report).unwrap_err(), ProbeFailure::NoDuration);
    // The summary itself is total, and says that the duration is not known.
    let m = summarize(&report);
    assert_eq!(m.duration, 0);
    assert_eq!(m.video_codec, some("png"));
    assert_eq!(m.width, 10);
    let report = ProbeReport {
        format: FormatRecord { format_name: None, format_long_name: None, duration: some("0.5"), bit_rate: None },
        streams: Vec::new(),
    };
    let m = metadata_from_report(&report).unwrap();
    assert_eq!(m.duration, 500_000);
    assert_eq!(m.video_codec, None);
}

#[test]
fn metadata_arguments() {
    assert_eq!(
        media_metadata_args("a.mp4"),
        vec!["-v", "quiet", "-print_format", "json", "-show_format", "-show_streams", "a.mp4"]
    );
}
