use size_transcode::bitrate::plan_bitrate;
use size_transcode::command::{
    first_pass_run, gif_filter_string, gif_run, hardware_h264_run, hardware_hevc_run, pass_logs,
    second_pass_run, tier_filter_string, webp_run, Clip, SoftwareCodec,
};
use size_transcode::scale::ScalePolicy;
use size_transcode::text::{decimal_string, seconds_string, str_contains, str_ends_with, str_eq};
use size_transcode::tiers::Tier;

fn clip(trim_start: Option<u64>, trim_duration: Option<u64>) -> Clip {
    Clip {
        input_path: "/media/in.mov".to_string(),
        output_path: "/media/out.mp4".to_string(),
        trim_start,
        trim_duration,
    }
}

#[test]
fn text_decimal_and_seconds() {
    assert_eq!(decimal_string(0), "0");
    assert_eq!(decimal_string(9), "9");
    assert_eq!(decimal_string(10), "10");
    assert_eq!(decimal_string(1205), "1205");
    assert_eq!(decimal_string(u64::MAX), "18446744073709551615");
    assert_eq!(seconds_string(0), "0.000");
    assert_eq!(seconds_string(1_500_000), "1.500");
    assert_eq!(seconds_string(12_345_678), "12.346");
    assert_eq!(seconds_string(499), "0.000");
    assert_eq!(seconds_string(500), "0.001");
    assert_eq!(seconds_string(999_500), "1.000");
    assert_eq!(seconds_string(2_007_000), "2.007");
    assert_eq!(seconds_string(u64::MAX), "18446744073709.552");
}

#[test]
fn text_comparisons() {
    assert!(str_eq("mkv", "mkv"));
    assert!(!str_eq("mkv", "mkv "));
    assert!(!str_eq("mkv", "mkV"));
    assert!(str_eq("", ""));
    assert!(str_ends_with("clip.mkv", ".mkv"));
    assert!(!str_ends_with("clip.mkv.mp4", ".mkv"));
    assert!(!str_ends_with("kv", ".mkv"));
    assert!(str_ends_with("clip", ""));
    assert!(str_contains("abcabd", "abd"));
    assert!(!str_contains("abcabd", "abe"));
    assert!(str_contains("abc", ""));
    assert!(str_contains("", ""));
    assert!(!str_contains("", "a"));
    assert!(str_contains("h\u{e9}llo w\u{f6}rld", "w\u{f6}r"));
}

#[test]
fn command_hardware_h264_untrimmed() {
    let plan = plan_bitrate(10_000_000, 60_000_000);
    let args = hardware_h264_run(&clip(None, None), plan, ScalePolicy::EvenOnly, None);
    assert_eq!(
        args,
        vec![
            "-y", "-i", "/media/in.mov", "-c:v", "h264_nvenc", "-preset", "p7", "-tune", "hq", "-rc",
            "vbr", "-b:v", "1205k", "-maxrate", "1807k", "-bufsize", "2410k", "-profile:v", "high",
            "-vf", "scale=trunc(iw/2)*2:trunc(ih/2)*2", "-c:a", "aac", "-b:a", "128k", "-movflags",
            "+faststart", "/media/out.mp4",
        ]
    );
}

#[test]
fn command_hardware_h264_trimmed_with_chapters() {
    let plan = plan_bitrate(10_000_000, 60_000_000);
    let args = hardware_h264_run(
        &clip(Some(1_500_000), Some(60_000_000)),
        plan,
        ScalePolicy::FitHeight,
        Some("/tmp/chapters_7.txt"),
    );
    assert_eq!(
        args,
        vec![
            "-y", "-ss", "1.500", "-i", "/media/in.mov", "-i", "/tmp/chapters_7.txt", "-t", "60.000",
            "-c:v", "h264_nvenc", "-preset", "p7", "-tune", "hq", "-rc", "vbr", "-b:v", "1205k",
            "-maxrate", "1807k", "-bufsize", "2410k", "-profile:v", "high", "-vf", "scale=-2:1080",
            "-c:a", "aac", "-b:a", "128k", "-map", "0", "-map_metadata", "1", "/media/out.mp4",
        ]
    );
}

#[test]
fn command_hardware_hevc() {
    let plan = plan_bitrate(10_000_000, 60_000_000);
    let args = hardware_hevc_run(&clip(Some(2_000_000), None), plan, ScalePolicy::FitWidth);
    assert_eq!(
        args,
        vec![
            "-y", "-ss", "2.000", "-i", "/media/in.mov", "-c:v", "hevc_nvenc", "-preset", "p7",
            "-tune", "hq", "-rc", "vbr", "-b:v", "1205k", "-maxrate", "1807k", "-bufsize", "2410k",
            "-profile:v", "main", "-vf", "scale=1920:-2", "-c:a", "aac", "-b:a", "128k", "-movflags",
            "+faststart", "-tag:v", "hvc1", "/media/out.mp4",
        ]
    );
}

#[test]
fn command_x264_first_pass() {
    let plan = plan_bitrate(10_000_000, 60_000_000);
    let args = first_pass_run(
        SoftwareCodec::X264,
        &clip(Some(1_000_000), Some(5_000_000)),
        plan,
        ScalePolicy::EvenOnly,
        "/dev/null",
    );
    assert_eq!(
        args,
        vec![
            "-y", "-ss", "1.000", "-i", "/media/in.mov", "-t", "5.000", "-c:v", "libx264", "-preset",
            "slow", "-b:v", "1205k", "-maxrate", "1807k", "-bufsize", "2410k", "-vf",
            "scale=trunc(iw/2)*2:trunc(ih/2)*2", "-pass", "1", "-passlogfile", "/media/out.mp4",
            "-an", "-f", "null", "/dev/null",
        ]
    );
}

#[test]
fn command_x264_second_pass() {
    let plan = plan_bitrate(10_000_000, 60_000_000);
    let args = second_pass_run(
        SoftwareCodec::X264,
        &clip(Some(1_000_000), Some(5_000_000)),
        plan,
        ScalePolicy::EvenOnly,
        None,
    );
    assert_eq!(
        args,
        vec![
            "-y", "-ss", "1.000", "-i", "/media/in.mov", "-t", "5.000", "-c:v", "libx264", "-preset",
            "slow", "-b:v", "1205k", "-maxrate", "1807k", "-bufsize", "2410k", "-vf",
            "scale=trunc(iw/2)*2:trunc(ih/2)*2", "-pass", "2", "-passlogfile", "/media/out.mp4",
            "-c:a", "aac", "-b:a", "128k", "-movflags", "+faststart", "/media/out.mp4",
        ]
    );
    let with_chapters = second_pass_run(
        SoftwareCodec::X264,
        &clip(None, None),
        plan,
        ScalePolicy::EvenOnly,
        Some("/tmp/c.txt"),
    );
    assert_eq!(
        with_chapters,
        vec![
            "-y", "-i", "/media/in.mov", "-i", "/tmp/c.txt", "-c:v", "libx264", "-preset", "slow",
            "-b:v", "1205k", "-maxrate", "1807k", "-bufsize", "2410k", "-vf",
            "scale=trunc(iw/2)*2:trunc(ih/2)*2", "-pass", "2", "-passlogfile", "/media/out.mp4",
            "-c:a", "aac", "-b:a", "128k", "-map", "0", "-map_metadata", "1", "/media/out.mp4",
        ]
    );
}

#[test]
fn command_x265_passes() {
    let plan = plan_bitrate(10_000_000, 60_000_000);
    let first = first_pass_run(SoftwareCodec::X265, &clip(None, None), plan, ScalePolicy::FitHeight, "NUL");
    assert_eq!(
        first,
        vec![
            "-y", "-i", "/media/in.mov", "-c:v", "libx265", "-preset", "medium", "-b:v", "1205k",
            "-maxrate", "1807k", "-bufsize", "2410k", "-vf", "scale=-2:1080", "-pass", "1",
            "-passlogfile", "/media/out.mp4", "-an", "-f", "null", "NUL",
        ]
    );
    let second = second_pass_run(SoftwareCodec::X265, &clip(None, None), plan, ScalePolicy::FitHeight, None);
    assert_eq!(
        second,
        vec![
            "-y", "-i", "/media/in.mov", "-c:v", "libx265", "-preset", "medium", "-b:v", "1205k",
            "-maxrate", "1807k", "-bufsize", "2410k", "-vf", "scale=-2:1080", "-pass", "2",
            "-passlogfile", "/media/out.mp4", "-c:a", "aac", "-b:a", "128k", "-movflags",
            "+faststart", "-tag:v", "hvc1", "/media/out.mp4",
        ]
    );
}

#[test]
fn command_pass_logs() {
    let (log, tree) = pass_logs("/media/out.mp4");
    assert_eq!(log, "/media/out.mp4-0.log");
    assert_eq!(tree, "/media/out.mp4-0.log.mbtree");
}

#[test]
fn command_tier_filters() {
    let tier = Tier { max_dimension: 600, fps: 30, quality: Some(70) };
    assert_eq!(
        tier_filter_string(tier),
        "scale='min(600,iw)':'min(600,ih)':force_original_aspect_ratio=decrease,scale=trunc(iw/2)*2:trunc(ih/2)*2,fps=30"
    );
    let tier = Tier { max_dimension: 480, fps: 15, quality: None };
    assert_eq!(
        gif_filter_string(tier),
        "scale='min(480,iw)':'min(480,ih)':force_original_aspect_ratio=decrease,scale=trunc(iw/2)*2:trunc(ih/2)*2,fps=15,split[s0][s1];[s0]palettegen=stats_mode=diff[p];[s1][p]paletteuse=dither=bayer:bayer_scale=5"
    );
}

#[test]
fn command_webp_with_split_seek() {
    let tier = Tier { max_dimension: 500, fps: 20, quality: Some(60) };
    let args = webp_run(&clip(Some(12_345_678), Some(3_000_000)), tier);
    assert_eq!(
        args,
        vec![
            "-y", "-ss", "12", "-i", "/media/in.mov", "-ss", "0.346", "-t", "3.000", "-vf",
            "scale='min(500,iw)':'min(500,ih)':force_original_aspect_ratio=decrease,scale=trunc(iw/2)*2:trunc(ih/2)*2,fps=20",
            "-vcodec", "libwebp", "-lossless", "0", "-compression_level", "4", "-quality", "60",
            "-loop", "0", "-an", "/media/out.mp4",
        ]
    );
}

#[test]
fn command_webp_seek_without_fraction() {
    let tier = Tier { max_dimension: 300, fps: 20, quality: Some(45) };
    // One millisecond or less after the whole second: no second seek.
    let args = webp_run(&clip(Some(7_001_000), None), tier);
    assert_eq!(&args[..5], &["-y", "-ss", "7", "-i", "/media/in.mov"]);
    assert_eq!(args[5], "-vf");
    let args = webp_run(&clip(Some(7_001_001), None), tier);
    assert_eq!(&args[..7], &["-y", "-ss", "7", "-i", "/media/in.mov", "-ss", "0.001"]);
    let args = webp_run(&clip(None, None), tier);
    assert_eq!(&args[..4], &["-y", "-i", "/media/in.mov", "-vf"]);
}

#[test]
fn command_gif() {
    let tier = Tier { max_dimension: 240, fps: 8, quality: None };
    let args = gif_run(&clip(Some(500_000), Some(2_500_000)), tier);
    assert_eq!(
        args,
        vec![
            "-y", "-ss", "0", "-i", "/media/in.mov", "-ss", "0.500", "-t", "2.500", "-vf",
            "scale='min(240,iw)':'min(240,ih)':force_original_aspect_ratio=decrease,scale=trunc(iw/2)*2:trunc(ih/2)*2,fps=8,split[s0][s1];[s0]palettegen=stats_mode=diff[p];[s1][p]paletteuse=dither=bayer:bayer_scale=5",
            "-loop", "0", "-an", "/media/out.mp4",
        ]
    );
}
