use size_transcode::chapters::generate_chapter_metadata;
use size_transcode::markers::{adjust_markers_for_trim, Marker};

fn marker(id: u32, time: i64, name: Option<&str>) -> Marker {
    Marker { id, time, name: name.map(|n| n.to_string()) }
}

fn times(ms: &[Marker]) -> Vec<(u32, i64)> {
    ms.iter().map(|m| (m.id, m.time)).collect()
}

#[test]
fn adjust_keeps_markers_in_the_window() {
    let ms = vec![
        marker(1, 1_000_000, None),
        marker(2, 2_000_000, Some("two")),
        marker(3, 5_000_000, None),
        marker(4, 7_000_000, None),
        marker(5, 7_000_001, None),
    ];
    let out = adjust_markers_for_trim(&ms, Some(2_000_000), Some(5_000_000));
    assert_eq!(times(&out), vec![(2, 0), (3, 3_000_000), (4, 5_000_000)]);
    assert_eq!(out[0].name.as_deref(), Some("two"));
    assert_eq!(out[1].name, None);
    // The input is left as it was.
    assert_eq!(times(&ms)[1], (2, 2_000_000));
}

#[test]
fn adjust_marker_at_end_of_window_is_kept_at_the_duration() {
    let out = adjust_markers_for_trim(&vec![marker(9, 12_500_000, None)], Some(10_000_000), Some(2_500_000));
    assert_eq!(times(&out), vec![(9, 2_500_000)]);
}

#[test]
fn adjust_marker_before_start_is_dropped() {
    let out = adjust_markers_for_trim(&vec![marker(9, 9_999_999, None)], Some(10_000_000), Some(2_500_000));
    assert!(out.is_empty());
}

#[test]
fn adjust_without_trim_keeps_all_but_negative_times() {
    let ms = vec![marker(1, -1, None), marker(2, 0, None), marker(3, i64::MAX, None)];
    let out = adjust_markers_for_trim(&ms, None, None);
    assert_eq!(times(&out), vec![(2, 0), (3, i64::MAX)]);
}

#[test]
fn adjust_without_duration_has_no_end() {
    let ms = vec![marker(1, 3_000_000, None), marker(2, i64::MAX, None)];
    let out = adjust_markers_for_trim(&ms, Some(3_000_000), None);
    assert_eq!(times(&out), vec![(1, 0), (2, i64::MAX - 3_000_000)]);
}

#[test]
fn adjust_with_huge_window_does_not_overflow() {
    let ms = vec![marker(1, 5, None)];
    let out = adjust_markers_for_trim(&ms, Some(u64::MAX), Some(u64::MAX));
    assert!(out.is_empty());
    let out = adjust_markers_for_trim(&ms, Some(1), Some(u64::MAX));
    assert_eq!(times(&out), vec![(1, 4)]);
}

#[test]
fn adjust_keeps_input_order() {
    let ms = vec![marker(1, 9, None), marker(2, 3, None), marker(3, 6, None)];
    let out = adjust_markers_for_trim(&ms, Some(1), Some(100));
    assert_eq!(times(&out), vec![(1, 8), (2, 2), (3, 5)]);
}

#[test]
fn chapters_for_three_markers() {
    let ms = vec![marker(1, 2_000_000, None), marker(2, 5_000_000, None), marker(3, 5_000_000, None)];
    let text = generate_chapter_metadata(&ms, 10_000_000);
    let expected = ";FFMETADATA1\n\
        [CHAPTER]\nTIMEBASE=1/1000\nSTART=2000\nEND=5000\ntitle=Chapter 1\n\n\
        [CHAPTER]\nTIMEBASE=1/1000\nSTART=5000\nEND=5000\ntitle=Chapter 2\n\n\
        [CHAPTER]\nTIMEBASE=1/1000\nSTART=5000\nEND=10000\ntitle=Chapter 3\n\n";
    assert_eq!(text, expected);
}

#[test]
fn chapters_are_sorted_and_equal_times_keep_their_order() {
    let ms = vec![
        marker(1, 5_000_000, Some("b")),
        marker(2, 9_000_000, Some("d")),
        marker(3, 5_000_000, Some("c")),
        marker(4, 0, Some("a")),
        marker(5, 9_000_000, None),
    ];
    let text = generate_chapter_metadata(&ms, 12_345_678);
    let expected = ";FFMETADATA1\n\
        [CHAPTER]\nTIMEBASE=1/1000\nSTART=0\nEND=5000\ntitle=a\n\n\
        [CHAPTER]\nTIMEBASE=1/1000\nSTART=5000\nEND=5000\ntitle=b\n\n\
        [CHAPTER]\nTIMEBASE=1/1000\nSTART=5000\nEND=9000\ntitle=c\n\n\
        [CHAPTER]\nTIMEBASE=1/1000\nSTART=9000\nEND=9000\ntitle=d\n\n\
        [CHAPTER]\nTIMEBASE=1/1000\nSTART=9000\nEND=12345\ntitle=Chapter 5\n\n";
    assert_eq!(text, expected);
}

#[test]
fn chapters_without_markers_are_empty() {
    assert_eq!(generate_chapter_metadata(&Vec::new(), 10_000_000), "");
}

#[test]
fn chapters_round_times_down_to_milliseconds() {
    let ms = vec![marker(1, 1_999, None), marker(2, -5, None)];
    let text = generate_chapter_metadata(&ms, 999);
    let expected = ";FFMETADATA1\n\
        [CHAPTER]\nTIMEBASE=1/1000\nSTART=0\nEND=1\ntitle=Chapter 1\n\n\
        [CHAPTER]\nTIMEBASE=1/1000\nSTART=1\nEND=0\ntitle=Chapter 2\n\n";
    assert_eq!(text, expected);
}
