use size_transcode::probe::{
    get_video_info, parse_dimension, parse_seconds, parse_video_info, scan_fields, video_info_args,
    ProbeFailure, Scan, VideoInfo,
};
use size_transcode::text::{split_chars, trim_chars};

fn chars(s: &str) -> Vec<char> {
    s.chars().collect()
}

fn text(v: &[char]) -> String {
    v.iter().collect()
}

#[test]
fn probe_stream_line_with_duration() {
    let info = get_video_info("1920,1080,30/1,12.345678\n12.400000\n");
    assert_eq!(info, Ok(VideoInfo { duration: 12_345_678, width: 1920, height: 1080 }));
}

#[test]
fn probe_container_duration_fills_in() {
    // The stream has no duration of its own.
    let info = get_video_info("1280,720,25/1,N/A\n7.5\n");
    assert_eq!(info, Ok(VideoInfo { duration: 7_500_000, width: 1280, height: 720 }));
    let info = get_video_info("1280,720,25/1\r\n7.5\r\n");
    assert_eq!(info, Ok(VideoInfo { duration: 7_500_000, width: 1280, height: 720 }));
}

#[test]
fn probe_container_line_first_and_stream_overrides() {
    let info = get_video_info("3.0\n640,480,30/1,4.0\n5.0");
    assert_eq!(info, Ok(VideoInfo { duration: 4_000_000, width: 640, height: 480 }));
}

#[test]
fn probe_only_container_duration() {
    let info = get_video_info("\n  9.000001  \n");
    assert_eq!(info, Ok(VideoInfo { duration: 9_000_001, width: 0, height: 0 }));
}

#[test]
fn probe_empty_output_has_no_stream() {
    assert_eq!(get_video_info(""), Err("No video stream found".to_string()));
    assert_eq!(get_video_info(" \n\t\r\n\u{a0}"), Err("No video stream found".to_string()));
    assert_eq!(parse_video_info(""), Err(ProbeFailure::NoVideoStream));
}

#[test]
fn probe_without_duration_fails() {
    assert_eq!(get_video_info("1920,1080,30/1,N/A\nN/A\n"), Err("Could not determine video duration".to_string()));
    assert_eq!(get_video_info("1920,1080,30/1,0.000000\n0\n"), Err("Could not determine video duration".to_string()));
    assert_eq!(get_video_info("1920,1080"), Err("Could not determine video duration".to_string()));
    assert_eq!(parse_video_info("garbage"), Err(ProbeFailure::NoDuration));
    assert_eq!(ProbeFailure::NoDuration.message(), "Could not determine video duration");
    assert_eq!(ProbeFailure::NoVideoStream.message(), "No video stream found");
}

#[test]
fn probe_two_fields_are_skipped() {
    let info = get_video_info("1920,1080\n5\n");
    assert_eq!(info, Ok(VideoInfo { duration: 5_000_000, width: 0, height: 0 }));
}

#[test]
fn probe_later_stream_lines_override() {
    let info = get_video_info("100,200,1/1,1.0\n300,x,1/1,2.0\n");
    assert_eq!(info, Ok(VideoInfo { duration: 2_000_000, width: 300, height: 200 }));
}

#[test]
fn probe_dimensions() {
    assert_eq!(parse_dimension(&chars("1920")), Some(1920));
    assert_eq!(parse_dimension(&chars("+7")), Some(7));
    assert_eq!(parse_dimension(&chars("007")), Some(7));
    assert_eq!(parse_dimension(&chars("4294967295")), Some(u32::MAX));
    assert_eq!(parse_dimension(&chars("4294967296")), None);
    assert_eq!(parse_dimension(&chars("99999999999999999999999")), None);
    assert_eq!(parse_dimension(&chars("")), None);
    assert_eq!(parse_dimension(&chars("+")), None);
    assert_eq!(parse_dimension(&chars("-1")), None);
    assert_eq!(parse_dimension(&chars("12 ")), None);
    assert_eq!(parse_dimension(&chars("++1")), None);
}

#[test]
fn probe_seconds() {
    assert_eq!(parse_seconds(&chars("10.5")), Some(10_500_000));
    assert_eq!(parse_seconds(&chars("10")), Some(10_000_000));
    assert_eq!(parse_seconds(&chars("10.")), Some(10_000_000));
    assert_eq!(parse_seconds(&chars(".25")), Some(250_000));
    assert_eq!(parse_seconds(&chars("0.000001")), Some(1));
    assert_eq!(parse_seconds(&chars("0.0000019")), Some(1));
    assert_eq!(parse_seconds(&chars("1.123456789")), Some(1_123_456));
    assert_eq!(parse_seconds(&chars("0")), Some(0));
    assert_eq!(parse_seconds(&chars("")), None);
    assert_eq!(parse_seconds(&chars(".")), None);
    assert_eq!(parse_seconds(&chars("1.2.3")), None);
    assert_eq!(parse_seconds(&chars("N/A")), None);
    assert_eq!(parse_seconds(&chars("-1.0")), None);
    assert_eq!(parse_seconds(&chars("1e3")), None);
    assert_eq!(parse_seconds(&chars("18446744073709.551615")), Some(u64::MAX));
    assert_eq!(parse_seconds(&chars("18446744073709.551614")), Some(u64::MAX - 1));
    assert_eq!(parse_seconds(&chars("18446744073710")), Some(u64::MAX));
    assert_eq!(parse_seconds(&chars("99999999999999999999999999.5")), Some(u64::MAX));
}

#[test]
fn probe_scan_fields() {
    let start = Scan { width: 1, height: 2, duration: 3 };
    let fields: Vec<Vec<char>> = vec![chars("10"), chars("x"), chars("r")];
    assert_eq!(scan_fields(start, &fields), Scan { width: 10, height: 2, duration: 3 });
    let fields: Vec<Vec<char>> = vec![chars("9.0")];
    assert_eq!(scan_fields(start, &fields), start);
    let empty = Scan { width: 1, height: 2, duration: 0 };
    assert_eq!(scan_fields(empty, &fields), Scan { width: 1, height: 2, duration: 9_000_000 });
}

#[test]
fn text_split_and_trim() {
    let pieces: Vec<String> = split_chars(&chars("a,,b,"), ',').iter().map(|p| text(p)).collect();
    assert_eq!(pieces, vec!["a", "", "b", ""]);
    let pieces: Vec<String> = split_chars(&chars(""), ',').iter().map(|p| text(p)).collect();
    assert_eq!(pieces, vec![""]);
    let pieces: Vec<String> = split_chars(&chars("abc"), ',').iter().map(|p| text(p)).collect();
    assert_eq!(pieces, vec!["abc"]);
    assert_eq!(text(&trim_chars(&chars("  a b \n"))), "a b");
    assert_eq!(text(&trim_chars(&chars("\u{3000}x\u{2003}"))), "x");
    assert_eq!(text(&trim_chars(&chars(" \t "))), "");
    assert_eq!(text(&trim_chars(&chars(""))), "");
    assert_eq!(text(&trim_chars(&chars("x"))), "x");
    for c in ['\u{9}', '\u{a}', '\u{b}', '\u{c}', '\u{d}', ' ', '\u{85}', '\u{a0}', '\u{1680}', '\u{2000}', '\u{200a}', '\u{2028}', '\u{2029}', '\u{202f}', '\u{205f}', '\u{3000}'] {
        assert!(c.is_whitespace());
        assert_eq!(text(&trim_chars(&vec![c, 'x', c])), "x");
    }
    for c in ['\u{200b}', '\u{feff}', '\u{1c}', 'a', '\u{180e}'] {
        assert_eq!(c.is_whitespace(), trim_chars(&vec![c]).is_empty());
    }
}

#[test]
fn probe_arguments() {
    assert_eq!(
        video_info_args("/media/in.mov"),
        vec![
            "-v", "error", "-select_streams", "v:0", "-show_entries",
            "stream=width,height,r_frame_rate,duration", "-show_entries", "format=duration", "-of",
            "csv=p=0", "/media/in.mov",
        ]
    );
}
