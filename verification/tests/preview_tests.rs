use size_transcode::preview::{
    detect_scenes, filmstrip_timestamps, frame_args, frame_data_url, frame_file_name, frame_or_blank,
    scene_args, scene_filter, scene_time,
};

#[test]
fn preview_frame_data_url() {
    assert_eq!(
        frame_data_url(&b"hello world~".to_vec()),
        Some("data:image/jpeg;base64,aGVsbG8gd29ybGR+".to_string())
    );
    assert_eq!(frame_data_url(&Vec::new()), Some("data:image/jpeg;base64,".to_string()));
    assert_eq!(frame_data_url(&vec![0xff, 0xd8]), Some("data:image/jpeg;base64,/9g=".to_string()));
    assert_eq!(frame_data_url(&vec![0xfb]), Some("data:image/jpeg;base64,+w==".to_string()));
}

#[test]
fn preview_frame_arguments() {
    assert_eq!(
        frame_args("/m/in.mp4", 1_234_567, "/tmp/frame_1_2.jpg"),
        vec!["-ss", "1.235", "-i", "/m/in.mp4", "-vframes", "1", "-q:v", "5", "-y", "/tmp/frame_1_2.jpg"]
    );
    assert_eq!(frame_file_name("77_123456789"), "frame_77_123456789.jpg");
}

#[test]
fn preview_filmstrip_times() {
    assert_eq!(filmstrip_timestamps(10_000_000, 4), vec![0, 2_500_000, 5_000_000, 7_500_000]);
    assert_eq!(filmstrip_timestamps(10, 3), vec![0, 3, 6]);
    assert_eq!(filmstrip_timestamps(10, 1), vec![0]);
    assert_eq!(filmstrip_timestamps(10, 0), Vec::<u64>::new());
    assert_eq!(filmstrip_timestamps(0, 2), vec![0, 0]);
    assert_eq!(filmstrip_timestamps(u64::MAX, 2), vec![0, u64::MAX / 2]);
}

#[test]
fn preview_blank_for_failed_frame() {
    assert_eq!(frame_or_blank(Ok("data:x".to_string())), "data:x");
    assert_eq!(frame_or_blank(Err("Failed to extract frame".to_string())), "");
}

#[test]
fn preview_scene_filter_and_arguments() {
    assert_eq!(scene_filter(300), "select='gt(scene,0.3)',showinfo");
    assert_eq!(scene_filter(250), "select='gt(scene,0.25)',showinfo");
    assert_eq!(scene_filter(125), "select='gt(scene,0.125)',showinfo");
    assert_eq!(scene_filter(50), "select='gt(scene,0.05)',showinfo");
    assert_eq!(scene_filter(5), "select='gt(scene,0.005)',showinfo");
    assert_eq!(scene_filter(1000), "select='gt(scene,1)',showinfo");
    assert_eq!(scene_filter(0), "select='gt(scene,0)',showinfo");
    assert_eq!(scene_filter(12_340), "select='gt(scene,12.34)',showinfo");
    assert_eq!(
        scene_args("in.mp4", None),
        vec!["-i", "in.mp4", "-vf", "select='gt(scene,0.3)',showinfo", "-f", "null", "-"]
    );
    assert_eq!(
        scene_args("in.mp4", Some(450)),
        vec!["-i", "in.mp4", "-vf", "select='gt(scene,0.45)',showinfo", "-f", "null", "-"]
    );
}

fn chars(s: &str) -> Vec<char> {
    s.chars().collect()
}

#[test]
fn preview_scene_time_of_a_line() {
    let line = "[Parsed_showinfo_1 @ 0x55d] n:   0 pts:  12012 pts_time:0.500417 duration:1";
    assert_eq!(scene_time(&chars(line)), Some(500_417));
    assert_eq!(scene_time(&chars("pts_time:12")), Some(12_000_000));
    assert_eq!(scene_time(&chars("pts_time:12\r")), Some(12_000_000));
    // Not more than a tenth of a second.
    assert_eq!(scene_time(&chars("pts_time:0.1 x")), None);
    assert_eq!(scene_time(&chars("pts_time:0.100001 x")), Some(100_001));
    assert_eq!(scene_time(&chars("pts_time:0 x")), None);
    // No number behind the mark.
    assert_eq!(scene_time(&chars("pts_time: 5.0")), None);
    assert_eq!(scene_time(&chars("pts_time:abc")), None);
    assert_eq!(scene_time(&chars("pts_time:")), None);
    assert_eq!(scene_time(&chars("pts_time 5.0")), None);
    assert_eq!(scene_time(&chars("")), None);
    // Only the first mark counts.
    assert_eq!(scene_time(&chars("pts_time:x pts_time:5.0")), None);
    assert_eq!(scene_time(&chars("pts_time:2.0 pts_time:5.0")), Some(2_000_000));
}

#[test]
fn preview_detect_scenes() {
    let report = "Input #0, mov\n\
        [Parsed_showinfo_1 @ 0x1] n:   0 pts:      0 pts_time:0       duration: 512\n\
        [Parsed_showinfo_1 @ 0x1] n:   1 pts:  64064 pts_time:4.170833 duration: 512\r\n\
        frame=    2 fps=0.0\n\
        [Parsed_showinfo_1 @ 0x1] n:   2 pts: 153600 pts_time:10      duration: 512\n";
    assert_eq!(detect_scenes(report), vec![4_170_833, 10_000_000]);
    assert_eq!(detect_scenes(""), Vec::<u64>::new());
    assert_eq!(detect_scenes("pts_time:3"), vec![3_000_000]);
}
