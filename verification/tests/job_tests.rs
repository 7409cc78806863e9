use size_transcode::capability::CapabilityKind;
use size_transcode::job::{
    convert_file_impl, plan_job, select_strategy, Action, Event, Job, OutputKind, Phase, Strategy,
    Submission, OUT_OF_TURN,
};
use size_transcode::markers::Marker;
use size_transcode::probe::VideoInfo;
use size_transcode::progress::{Stage, Status, FULL};
use size_transcode::result::ConversionResult;
use size_transcode::scale::ScalePolicy;

fn submit(tag: &str, output_name: &str, markers: Option<Vec<Marker>>, trim: (Option<u64>, Option<u64>)) -> Submission {
    convert_file_impl(
        "job-1".to_string(),
        "/media/in.mov".to_string(),
        output_name.to_string(),
        format!("/media/{}", output_name),
        "/dev/null".to_string(),
        10_000_000,
        tag.to_string(),
        trim.0,
        trim.1,
        markers,
    )
}

fn accepted(s: Submission) -> (Job, Action) {
    match s {
        Submission::Accepted { job, first } => (job, first),
        Submission::Rejected(r) => panic!("rejected: {:?}", r),
    }
}

fn info() -> VideoInfo {
    VideoInfo { duration: 60_000_000, width: 1920, height: 1080 }
}

/// A short description of an action, for comparing runs.
fn brief(action: &Action) -> String {
    match action {
        Action::Report(e) => format!("report {} {} {}", e.id, e.progress, e.status.label()),
        Action::Probe => "probe".to_string(),
        Action::QueryCapability(CapabilityKind::HardwareH264) => "capability h264".to_string(),
        Action::QueryCapability(CapabilityKind::HardwareHevc) => "capability hevc".to_string(),
        Action::WriteSidecar { file_name, .. } => format!("write {}", file_name),
        Action::Encode { args, duration, stage } => {
            let codec = args.iter().position(|a| a == "-c:v" || a == "-vcodec").map(|i| args[i + 1].clone());
            let pass = args.iter().position(|a| a == "-pass").map(|i| args[i + 1].clone());
            format!("encode {:?} pass {:?} {} {:?}", codec, pass, duration, stage)
        }
        Action::Remove { path } => format!("remove {}", path),
        Action::Measure => "measure".to_string(),
        Action::Finish(r) => format!("finish {} {:?} {:?} {:?}", r.success, r.output_path, r.output_size, r.error),
    }
}

/// Drives a job to its end, answering each action from the scripted values.
fn drive(
    submission: Submission,
    probed: Result<VideoInfo, String>,
    hardware: bool,
    encodes: Vec<Result<(), String>>,
    sizes: Vec<u64>,
) -> (Vec<String>, Vec<Phase>, ConversionResult) {
    let (mut job, mut action) = accepted(submission);
    let mut trace = Vec::new();
    let mut phases = Vec::new();
    let mut encodes = encodes.into_iter();
    let mut sizes = sizes.into_iter();
    loop {
        trace.push(brief(&action));
        phases.push(job.phase());
        let event = match action {
            Action::Report(_) | Action::Remove { .. } => Event::Done,
            Action::Probe => Event::Probed(probed.clone()),
            Action::QueryCapability(_) => Event::Capability(hardware),
            Action::WriteSidecar { file_name, .. } => Event::SidecarWritten(Ok(format!("/tmp/{}", file_name))),
            Action::Encode { .. } => Event::Encoded(encodes.next().unwrap()),
            Action::Measure => Event::Measured(sizes.next().unwrap()),
            Action::Finish(result) => {
                assert!(job.is_over());
                return (trace, phases, result);
            }
        };
        assert!(!job.is_over());
        action = job.step(event);
    }
}

#[test]
fn job_kind_tags() {
    assert_eq!(OutputKind::from_tag("mp4"), Ok(OutputKind::Mp4));
    assert_eq!(OutputKind::from_tag("mov"), Ok(OutputKind::Mov));
    assert_eq!(OutputKind::from_tag("mkv"), Ok(OutputKind::Mkv));
    assert_eq!(OutputKind::from_tag("mp4_hevc"), Ok(OutputKind::Mp4Hevc));
    assert_eq!(OutputKind::from_tag("webp"), Ok(OutputKind::Webp));
    assert_eq!(OutputKind::from_tag("gif"), Ok(OutputKind::Gif));
    assert_eq!(OutputKind::from_tag("MP4"), Err("Unknown conversion type: MP4".to_string()));
    assert_eq!(OutputKind::from_tag(""), Err("Unknown conversion type: ".to_string()));
}

#[test]
fn job_kind_capabilities_and_tiers() {
    assert_eq!(OutputKind::Mp4.capability(), Some(CapabilityKind::HardwareH264));
    assert_eq!(OutputKind::Mov.capability(), Some(CapabilityKind::HardwareH264));
    assert_eq!(OutputKind::Mkv.capability(), Some(CapabilityKind::HardwareH264));
    assert_eq!(OutputKind::Mp4Hevc.capability(), Some(CapabilityKind::HardwareHevc));
    assert_eq!(OutputKind::Webp.capability(), None);
    assert_eq!(OutputKind::Gif.capability(), None);
    assert_eq!(OutputKind::Webp.tiers().len(), 6);
    assert_eq!(OutputKind::Gif.tiers().len(), 6);
    assert_eq!(OutputKind::Mp4.tiers().len(), 0);
}

#[test]
fn job_strategy_selection() {
    assert_eq!(select_strategy(OutputKind::Mp4, true), Strategy::HardwareSinglePass);
    assert_eq!(select_strategy(OutputKind::Mp4, false), Strategy::SoftwareTwoPass);
    assert_eq!(select_strategy(OutputKind::Mkv, false), Strategy::SoftwareTwoPass);
    assert_eq!(select_strategy(OutputKind::Mp4Hevc, true), Strategy::HardwareSinglePass);
    assert_eq!(select_strategy(OutputKind::Mp4Hevc, false), Strategy::SoftwareTwoPass);
    assert_eq!(select_strategy(OutputKind::Webp, true), Strategy::Tiered);
    assert_eq!(select_strategy(OutputKind::Gif, false), Strategy::Tiered);
}

#[test]
fn job_unknown_kind_is_rejected() {
    match submit("avi", "out.avi", None, (None, None)) {
        Submission::Rejected(result) => {
            assert!(!result.success);
            assert_eq!(result.error, Some("Unknown conversion type: avi".to_string()));
            assert_eq!(result.output_path, None);
            assert_eq!(result.output_size, None);
        }
        Submission::Accepted { .. } => panic!("accepted"),
    }
}

#[test]
fn job_plan_uses_trim_duration() {
    let (job, _) = accepted(submit("mp4", "out.mp4", None, (Some(1_000_000), Some(10_000_000))));
    let plan = plan_job(job.request(), VideoInfo { duration: 60_000_000, width: 3840, height: 2160 }, false);
    assert_eq!(plan.duration, 10_000_000);
    assert_eq!(plan.bitrate.target_kbps, 8000 - 128);
    assert_eq!(plan.scale, ScalePolicy::FitHeight);
    assert_eq!(plan.strategy, Strategy::SoftwareTwoPass);
    let (job, _) = accepted(submit("mp4", "out.mp4", None, (None, None)));
    let plan = plan_job(job.request(), info(), true);
    assert_eq!(plan.duration, 60_000_000);
    assert_eq!(plan.bitrate.target_kbps, 1205);
    assert_eq!(plan.strategy, Strategy::HardwareSinglePass);
}

#[test]
fn job_hardware_single_pass() {
    let (trace, phases, result) =
        drive(submit("mp4", "out.mp4", None, (None, None)), Ok(info()), true, vec![Ok(())], vec![9_000_000]);
    assert_eq!(
        trace,
        vec![
            "report job-1 0 analyzing",
            "probe",
            "capability h264",
            "report job-1 5000 converting",
            "encode Some(\"h264_nvenc\") pass None 60000000 SinglePass",
            "measure",
            "report job-1 100000 completed",
            "finish true Some(\"/media/out.mp4\") Some(9000000) None",
        ]
    );
    assert_eq!(
        phases,
        vec![
            Phase::Analyzing,
            Phase::Analyzing,
            Phase::Analyzing,
            Phase::Converting,
            Phase::Converting,
            Phase::Completed,
            Phase::Completed,
            Phase::Completed,
        ]
    );
    assert!(result.success);
}

#[test]
fn job_software_two_pass_removes_statistics() {
    let (trace, phases, result) = drive(
        submit("mov", "out.mov", None, (None, None)),
        Ok(info()),
        false,
        vec![Ok(()), Ok(())],
        vec![0],
    );
    assert_eq!(
        trace,
        vec![
            "report job-1 0 analyzing",
            "probe",
            "capability h264",
            "report job-1 5000 converting",
            "encode Some(\"libx264\") pass Some(\"1\") 60000000 FirstPass",
            "encode Some(\"libx264\") pass Some(\"2\") 60000000 SecondPass",
            "remove /media/out.mov-0.log",
            "remove /media/out.mov-0.log.mbtree",
            "measure",
            "report job-1 100000 completed",
            "finish true Some(\"/media/out.mov\") Some(0) None",
        ]
    );
    assert_eq!(phases[6], Phase::Finalizing);
    assert_eq!(phases[7], Phase::Finalizing);
    assert_eq!(phases[8], Phase::Completed);
    assert!(result.success);
}

#[test]
fn job_hevc_strategies() {
    let (trace, _, _) =
        drive(submit("mp4_hevc", "out.mp4", None, (None, None)), Ok(info()), true, vec![Ok(())], vec![5]);
    assert_eq!(trace[2], "capability hevc");
    assert_eq!(trace[4], "encode Some(\"hevc_nvenc\") pass None 60000000 SinglePass");
    let (trace, _, _) = drive(
        submit("mp4_hevc", "out.mp4", None, (None, None)),
        Ok(info()),
        false,
        vec![Ok(()), Ok(())],
        vec![5],
    );
    assert_eq!(trace[4], "encode Some(\"libx265\") pass Some(\"1\") 60000000 FirstPass");
    assert_eq!(trace[5], "encode Some(\"libx265\") pass Some(\"2\") 60000000 SecondPass");
    assert_eq!(trace[6], "remove /media/out.mp4-0.log");
}

fn markers() -> Vec<Marker> {
    vec![
        Marker { id: 1, time: 2_000_000, name: None },
        Marker { id: 2, time: 5_000_000, name: Some("Middle".to_string()) },
        Marker { id: 3, time: 90_000_000, name: None },
    ]
}

#[test]
fn job_mkv_with_chapters() {
    let submission = submit("mkv", "out.mkv", Some(markers()), (Some(1_000_000), Some(10_000_000)));
    let (mut job, first) = accepted(submission);
    assert_eq!(brief(&first), "report job-1 0 analyzing");
    assert_eq!(brief(&job.step(Event::Done)), "probe");
    assert_eq!(brief(&job.step(Event::Probed(Ok(info())))), "capability h264");
    match job.step(Event::Capability(false)) {
        Action::WriteSidecar { file_name, content } => {
            assert_eq!(file_name, "chapters_job-1.txt");
            assert_eq!(
                content,
                ";FFMETADATA1\n\
                 [CHAPTER]\nTIMEBASE=1/1000\nSTART=1000\nEND=4000\ntitle=Chapter 1\n\n\
                 [CHAPTER]\nTIMEBASE=1/1000\nSTART=4000\nEND=10000\ntitle=Middle\n\n"
            );
        }
        other => panic!("{:?}", other),
    }
    assert_eq!(job.phase(), Phase::Analyzing);
    assert_eq!(
        brief(&job.step(Event::SidecarWritten(Ok("/tmp/chapters_job-1.txt".to_string())))),
        "report job-1 5000 converting"
    );
    match job.step(Event::Done) {
        Action::Encode { args, stage, .. } => {
            assert_eq!(stage, Stage::FirstPass);
            assert!(!args.contains(&"/tmp/chapters_job-1.txt".to_string()));
        }
        other => panic!("{:?}", other),
    }
    match job.step(Event::Encoded(Ok(()))) {
        Action::Encode { args, stage, .. } => {
            assert_eq!(stage, Stage::SecondPass);
            assert_eq!(&args[..7], &["-y", "-ss", "1.000", "-i", "/media/in.mov", "-i", "/tmp/chapters_job-1.txt"]);
            assert!(args.windows(2).any(|w| w[0] == "-map_metadata" && w[1] == "1"));
        }
        other => panic!("{:?}", other),
    }
    assert_eq!(brief(&job.step(Event::Encoded(Ok(())))), "remove /media/out.mkv-0.log");
    assert_eq!(brief(&job.step(Event::Done)), "remove /media/out.mkv-0.log.mbtree");
    assert_eq!(brief(&job.step(Event::Done)), "remove /tmp/chapters_job-1.txt");
    assert_eq!(brief(&job.step(Event::Done)), "measure");
    assert_eq!(brief(&job.step(Event::Measured(123))), "report job-1 100000 completed");
    assert_eq!(brief(&job.step(Event::Done)), "finish true Some(\"/media/out.mkv\") Some(123) None");
    assert!(job.is_over());
}

#[test]
fn job_chapters_only_for_mkv_names_and_markers_in_the_window() {
    // Not an MKV file name.
    let (trace, _, _) = drive(
        submit("mkv", "out.mp4", Some(markers()), (None, None)),
        Ok(info()),
        true,
        vec![Ok(())],
        vec![1],
    );
    assert!(trace.iter().all(|a| !a.starts_with("write")));
    // Not the MKV kind.
    let (trace, _, _) = drive(
        submit("mp4", "out.mkv", Some(markers()), (None, None)),
        Ok(info()),
        true,
        vec![Ok(())],
        vec![1],
    );
    assert!(trace.iter().all(|a| !a.starts_with("write")));
    // No marker in the window.
    let (trace, _, _) = drive(
        submit("mkv", "out.mkv", Some(markers()), (Some(50_000_000), Some(1_000_000))),
        Ok(info()),
        true,
        vec![Ok(())],
        vec![1],
    );
    assert!(trace.iter().all(|a| !a.starts_with("write")));
    // No markers at all.
    let (trace, _, _) =
        drive(submit("mkv", "out.mkv", None, (None, None)), Ok(info()), true, vec![Ok(())], vec![1]);
    assert!(trace.iter().all(|a| !a.starts_with("write")));
    // With the hardware encoder the sidecar is removed after the run.
    let (trace, _, _) = drive(
        submit("mkv", "out.mkv", Some(markers()), (None, None)),
        Ok(info()),
        true,
        vec![Ok(())],
        vec![1],
    );
    assert_eq!(trace[3], "write chapters_job-1.txt");
    assert_eq!(trace[6], "remove /tmp/chapters_job-1.txt");
    assert_eq!(trace[7], "measure");
}

#[test]
fn job_tiered_stops_at_first_fit() {
    let submission = convert_file_impl(
        "g".to_string(),
        "/media/in.mov".to_string(),
        "out.gif".to_string(),
        "/media/out.gif".to_string(),
        "/dev/null".to_string(),
        200,
        "gif".to_string(),
        None,
        Some(4_000_000),
        None,
    );
    let (trace, phases, result) =
        drive(submission, Ok(info()), true, vec![Ok(()), Ok(()), Ok(())], vec![500, 300, 150]);
    assert_eq!(
        trace,
        vec![
            "report g 0 analyzing",
            "probe",
            "report g 0 converting",
            "remove /media/out.gif",
            "encode None pass None 4000000 Tier { index: 0, count: 6 }",
            "measure",
            "report g 15000 converting",
            "remove /media/out.gif",
            "encode None pass None 4000000 Tier { index: 1, count: 6 }",
            "measure",
            "report g 30000 converting",
            "remove /media/out.gif",
            "encode None pass None 4000000 Tier { index: 2, count: 6 }",
            "measure",
            "report g 100000 completed",
            "finish true Some(\"/media/out.gif\") Some(150) None",
        ]
    );
    assert!(phases[2..14].iter().all(|p| *p == Phase::Converting));
    assert_eq!(result.output_size, Some(150));
}

#[test]
fn job_tiered_accepts_the_last_tier() {
    let submission = convert_file_impl(
        "w".to_string(),
        "/media/in.mov".to_string(),
        "out.webp".to_string(),
        "/media/out.webp".to_string(),
        "/dev/null".to_string(),
        200,
        "webp".to_string(),
        None,
        None,
        None,
    );
    let (trace, _, result) =
        drive(submission, Ok(info()), false, vec![Ok(()); 6], vec![900, 800, 700, 600, 500, 400]);
    assert_eq!(trace.iter().filter(|a| a.starts_with("encode Some(\"libwebp\")")).count(), 6);
    assert_eq!(trace[trace.len() - 4], "encode Some(\"libwebp\") pass None 60000000 Tier { index: 5, count: 6 }");
    assert_eq!(trace[trace.len() - 5], "remove /media/out.webp");
    assert_eq!(trace[trace.len() - 6], "report w 75000 converting");
    assert_eq!(result.output_size, Some(400));
    assert!(result.success);
}

#[test]
fn job_fails_when_the_probe_fails() {
    let (trace, phases, result) = drive(
        submit("mp4", "out.mp4", None, (None, None)),
        Err("Could not determine video duration".to_string()),
        true,
        vec![],
        vec![],
    );
    assert_eq!(
        trace,
        vec![
            "report job-1 0 analyzing",
            "probe",
            "finish false None None Some(\"Could not determine video duration\")",
        ]
    );
    assert_eq!(phases[2], Phase::Failed);
    assert!(!result.success);
}

#[test]
fn job_fails_when_a_pass_fails_and_leaves_the_rest_undone() {
    let (trace, _, result) = drive(
        submit("mp4", "out.mp4", None, (None, None)),
        Ok(info()),
        false,
        vec![Ok(()), Err("FFmpeg encoding failed".to_string())],
        vec![],
    );
    assert_eq!(trace.len(), 7);
    assert_eq!(trace[6], "finish false None None Some(\"FFmpeg encoding failed\")");
    assert_eq!(result.error, Some("FFmpeg encoding failed".to_string()));
    let (trace, _, _) = drive(
        submit("mp4", "out.mp4", None, (None, None)),
        Ok(info()),
        false,
        vec![Err("Failed to spawn ffmpeg: not found".to_string())],
        vec![],
    );
    assert_eq!(trace.len(), 6);
    assert_eq!(trace[5], "finish false None None Some(\"Failed to spawn ffmpeg: not found\")");
}

#[test]
fn job_fails_when_the_sidecar_cannot_be_written() {
    let (mut job, _) = accepted(submit("mkv", "out.mkv", Some(markers()), (None, None)));
    job.step(Event::Done);
    job.step(Event::Probed(Ok(info())));
    job.step(Event::Capability(true));
    let action = job.step(Event::SidecarWritten(Err("disk full".to_string())));
    assert_eq!(brief(&action), "finish false None None Some(\"Failed to write chapter metadata: disk full\")");
    assert_eq!(job.phase(), Phase::Failed);
    assert!(job.is_over());
}

#[test]
fn job_answer_out_of_turn_fails_the_job() {
    let (mut job, _) = accepted(submit("mp4", "out.mp4", None, (None, None)));
    let action = job.step(Event::Measured(5));
    assert_eq!(brief(&action), format!("finish false None None Some(\"{}\")", OUT_OF_TURN));
    assert!(job.is_over());
    // A job that is over takes no more answers.
    let action = job.step(Event::Done);
    assert_eq!(brief(&action), format!("finish false None None Some(\"{}\")", OUT_OF_TURN));
}

#[test]
fn job_reports_are_in_order() {
    let (trace, _, _) = drive(
        submit("mov", "out.mov", None, (None, None)),
        Ok(info()),
        false,
        vec![Ok(()), Ok(())],
        vec![0],
    );
    let reports: Vec<u32> = trace
        .iter()
        .filter(|a| a.starts_with("report"))
        .map(|a| a.split(' ').nth(2).unwrap().parse().unwrap())
        .collect();
    assert_eq!(reports, vec![0, 5_000, FULL]);
    assert_eq!(Status::Completed.label(), "completed");
}
