//! The job: from a request to its result, one step at a time.
//!
//! A job never touches a file or a process. It tells its caller what to do
//! next, the caller does it and hands back what came of it, and so on until
//! the job hands out its result.

use crate::bitrate::{plan_bitrate, plan_of, video_kbps, BitratePlan};
use crate::capability::CapabilityKind;
use crate::chapters::{chapter_metadata, generate_chapter_metadata};
use crate::command::{
    first_pass_args, first_pass_run, gif_args, gif_run, hardware_h264_args, hardware_h264_run,
    hardware_hevc_args, hardware_hevc_run, pass_log_paths, pass_logs, second_pass_args,
    second_pass_run, webp_args, webp_run, Clip, ClipView, SoftwareCodec,
};
use crate::markers::{
    adjust_markers_for_trim, adjusted, marker_views, window_duration, window_start, Marker,
    MarkerView,
};
use crate::probe::VideoInfo;
use crate::progress::{stage_base, ProgressEvent, Stage, Status, FULL};
use crate::result::{failure_of, success_of, ConversionResult, ConversionResultView};
use crate::scale::{policy_for, scale_policy, ScalePolicy};
use crate::text::{str_ends_with, str_eq, string_views, text_view};
use crate::tiers::{
    after_tier, decision_after, gif_tier_table, gif_tiers, webp_tier_table, webp_tiers, Tier,
    TierDecision,
};
use vstd::prelude::*;
use vstd::string::*;

verus! {

/// The kinds of output that a job can make.
#[derive(Clone, Copy, Debug, PartialEq, Eq, Structural)]
pub enum OutputKind {
    /// H.264 in MP4.
    Mp4,
    /// H.264 in MOV.
    Mov,
    /// H.264 in MKV, with chapters where markers are given.
    Mkv,
    /// HEVC in MP4.
    Mp4Hevc,
    /// Animated WebP.
    Webp,
    /// Animated GIF.
    Gif,
}

/// The kind that a tag names, if it names one.
pub open spec fn kind_of_tag(tag: Seq<char>) -> Option<OutputKind> {
    if tag == "mp4"@ {
        Some(OutputKind::Mp4)
    } else if tag == "mov"@ {
        Some(OutputKind::Mov)
    } else if tag == "mkv"@ {
        Some(OutputKind::Mkv)
    } else if tag == "mp4_hevc"@ {
        Some(OutputKind::Mp4Hevc)
    } else if tag == "webp"@ {
        Some(OutputKind::Webp)
    } else if tag == "gif"@ {
        Some(OutputKind::Gif)
    } else {
        None
    }
}

/// What a request with a tag that names no kind is answered.
pub open spec fn unknown_kind_message(tag: Seq<char>) -> Seq<char> {
    "Unknown conversion type: "@ + tag
}

/// The hardware capability that a kind can make use of, if any.
pub open spec fn capability_for(kind: OutputKind) -> Option<CapabilityKind> {
    match kind {
        OutputKind::Mp4 | OutputKind::Mov | OutputKind::Mkv => Some(CapabilityKind::HardwareH264),
        OutputKind::Mp4Hevc => Some(CapabilityKind::HardwareHevc),
        OutputKind::Webp | OutputKind::Gif => None,
    }
}

/// The tiers of a kind whose size cannot be asked for directly; none for
/// the other kinds.
pub open spec fn tiers_for(kind: OutputKind) -> Seq<Tier> {
    match kind {
        OutputKind::Webp => webp_tier_table(),
        OutputKind::Gif => gif_tier_table(),
        _ => Seq::empty(),
    }
}

impl OutputKind {
    /// The kind that `tag` names, or the message for a tag that names none.
    pub fn from_tag(tag: &str) -> (r: Result<OutputKind, String>)
        ensures
            match r {
                Ok(kind) => kind_of_tag(tag@) == Some(kind),
                Err(message) => kind_of_tag(tag@) is None && message@ == unknown_kind_message(
                    tag@,
                ),
            },
    {
        if str_eq(tag, "mp4") {
            Ok(OutputKind::Mp4)
        } else if str_eq(tag, "mov") {
            Ok(OutputKind::Mov)
        } else if str_eq(tag, "mkv") {
            Ok(OutputKind::Mkv)
        } else if str_eq(tag, "mp4_hevc") {
            Ok(OutputKind::Mp4Hevc)
        } else if str_eq(tag, "webp") {
            Ok(OutputKind::Webp)
        } else if str_eq(tag, "gif") {
            Ok(OutputKind::Gif)
        } else {
            let mut message = String::from_str("Unknown conversion type: ");
            message.append(tag);
            Err(message)
        }
    }

    /// The hardware capability that this kind can make use of, if any.
    pub fn capability(&self) -> (r: Option<CapabilityKind>)
        ensures
            r == capability_for(*self),
    {
        match self {
            OutputKind::Mp4 | OutputKind::Mov | OutputKind::Mkv => Some(
                CapabilityKind::HardwareH264,
            ),
            OutputKind::Mp4Hevc => Some(CapabilityKind::HardwareHevc),
            OutputKind::Webp | OutputKind::Gif => None,
        }
    }

    /// The tiers of this kind, best first; none for a kind that is encoded
    /// at a bitrate.
    pub fn tiers(&self) -> (r: Vec<Tier>)
        ensures
            r@ == tiers_for(*self),
    {
        match self {
            OutputKind::Webp => webp_tiers(),
            OutputKind::Gif => gif_tiers(),
            _ => Vec::new(),
        }
    }
}

/// How a job is encoded.
#[derive(Clone, Copy, Debug, PartialEq, Eq, Structural)]
pub enum Strategy {
    /// One run of a hardware encoder at a variable bitrate.
    HardwareSinglePass,
    /// Two runs of a software encoder: one for statistics, one to encode.
    SoftwareTwoPass,
    /// One run per quality tier, until the output fits.
    Tiered,
}

/// The strategy for a kind: by tiers where the kind has tiers; else on the
/// hardware where it is there, and in two passes of software where not.
pub open spec fn strategy_for(kind: OutputKind, hardware: bool) -> Strategy {
    if capability_for(kind) is None {
        Strategy::Tiered
    } else if hardware {
        Strategy::HardwareSinglePass
    } else {
        Strategy::SoftwareTwoPass
    }
}

/// Chooses the strategy for a kind; see [`strategy_for`].
pub fn select_strategy(kind: OutputKind, hardware: bool) -> (s: Strategy)
    ensures
        s == strategy_for(kind, hardware),
{
    match kind.capability() {
        None => Strategy::Tiered,
        Some(_) => if hardware {
            Strategy::HardwareSinglePass
        } else {
            Strategy::SoftwareTwoPass
        },
    }
}

/// The duration that the encoder will produce: that of the trim where
/// there is one, else that of the source.
pub open spec fn effective_duration_of(trim_duration: Option<u64>, source: u64) -> u64 {
    match trim_duration {
        Some(d) => d,
        None => source,
    }
}

/// What is settled once for a job, before its first run.
#[derive(Clone, Copy, Debug, PartialEq, Eq, Structural)]
pub struct EncodePlan {
    /// The rate control; for a tiered job it is planned and not used.
    pub bitrate: BitratePlan,
    /// The picture size policy.
    pub scale: ScalePolicy,
    pub strategy: Strategy,
    /// The duration of the output, in microseconds.
    pub duration: u64,
}

/// What is asked of a job.
#[derive(Debug)]
pub struct TranscodeRequest {
    /// The name under which the job reports its progress.
    pub id: String,
    /// Source, output and trim.
    pub clip: Clip,
    /// The file name of the output, as the caller gave it.
    pub output_name: String,
    /// The byte budget.
    pub target_bytes: u64,
    pub kind: OutputKind,
    /// Markers on the timeline of the source; they become chapters of an
    /// MKV output.
    pub markers: Vec<Marker>,
    /// The file that swallows what is written to it.
    pub null_output: String,
}

/// What a [`TranscodeRequest`] says.
pub struct RequestView {
    pub id: Seq<char>,
    pub clip: ClipView,
    pub output_name: Seq<char>,
    pub target_bytes: u64,
    pub kind: OutputKind,
    pub markers: Seq<MarkerView>,
    pub null_output: Seq<char>,
}

impl View for TranscodeRequest {
    type V = RequestView;

    open spec fn view(&self) -> RequestView {
        RequestView {
            id: self.id@,
            clip: self.clip@,
            output_name: self.output_name@,
            target_bytes: self.target_bytes,
            kind: self.kind,
            markers: marker_views(self.markers@),
            null_output: self.null_output@,
        }
    }
}

/// The plan for a request, a source and what is known of the hardware.
pub open spec fn plan_for(request: RequestView, info: VideoInfo, hardware: bool) -> EncodePlan {
    let duration = effective_duration_of(request.clip.trim_duration, info.duration);
    EncodePlan {
        bitrate: plan_of(video_kbps(request.target_bytes as nat, duration as nat)),
        scale: policy_for(info.width as nat, info.height as nat),
        strategy: strategy_for(request.kind, hardware),
        duration,
    }
}

/// Settles the plan of a job; see [`plan_for`].
pub fn plan_job(request: &TranscodeRequest, info: VideoInfo, hardware: bool) -> (plan: EncodePlan)
    ensures
        plan == plan_for(request@, info, hardware),
{
    let duration = match request.clip.trim_duration {
        Some(d) => d,
        None => info.duration,
    };
    EncodePlan {
        bitrate: plan_bitrate(request.target_bytes, duration),
        scale: scale_policy(info.width, info.height),
        strategy: select_strategy(request.kind, hardware),
        duration,
    }
}

/// The ending of `s` that makes it an MKV file name.
pub open spec fn has_mkv_ending(s: Seq<char>) -> bool {
    ".mkv"@.len() <= s.len() && s.subrange(s.len() - ".mkv"@.len(), s.len() as int) == ".mkv"@
}

/// The markers that become chapters: those in the trim window, and only
/// for an MKV output with an MKV file name.
pub open spec fn chapter_markers(request: RequestView) -> Seq<MarkerView> {
    if request.kind == OutputKind::Mkv && has_mkv_ending(request.output_name) {
        adjusted(
            request.markers,
            window_start(request.clip.trim_start),
            window_duration(request.clip.trim_duration),
        )
    } else {
        Seq::empty()
    }
}

/// The file name of the chapter sidecar of a job.
pub open spec fn sidecar_name(id: Seq<char>) -> Seq<char> {
    "chapters_"@ + id + ".txt"@
}

/// What a [`ProgressEvent`] says.
pub struct ProgressEventView {
    pub id: Seq<char>,
    pub progress: u32,
    pub status: Status,
}

/// What the caller is to do next.
#[derive(Debug)]
pub enum Action {
    /// Tell the observers. Answered by [`Event::Done`].
    Report(ProgressEvent),
    /// Ask the prober for length and picture size of the input. Answered by
    /// [`Event::Probed`].
    Probe,
    /// Find out whether the encoder has the capability. Answered by
    /// [`Event::Capability`].
    QueryCapability(CapabilityKind),
    /// Write `content` to a file named `file_name` in the directory for
    /// temporary files. Answered by [`Event::SidecarWritten`].
    WriteSidecar { file_name: String, content: String },
    /// Run the encoder with `args` for an output of `duration`
    /// microseconds, and report its progress as that of `stage`. Answered
    /// by [`Event::Encoded`].
    Encode { args: Vec<String>, duration: u64, stage: Stage },
    /// Remove the file at `path`, if it is there. Answered by
    /// [`Event::Done`], whether or not a file was removed.
    Remove { path: String },
    /// Measure the output file. Answered by [`Event::Measured`].
    Measure,
    /// The job is over, and this is its result.
    Finish(ConversionResult),
}

/// What an [`Action`] says.
pub enum ActionView {
    Report(ProgressEventView),
    Probe,
    QueryCapability(CapabilityKind),
    WriteSidecar { file_name: Seq<char>, content: Seq<char> },
    Encode { args: Seq<Seq<char>>, duration: u64, stage: Stage },
    Remove { path: Seq<char> },
    Measure,
    Finish(ConversionResultView),
}

impl View for Action {
    type V = ActionView;

    open spec fn view(&self) -> ActionView {
        match self {
            Action::Report(e) => ActionView::Report(
                ProgressEventView { id: e.id@, progress: e.progress, status: e.status },
            ),
            Action::Probe => ActionView::Probe,
            Action::QueryCapability(kind) => ActionView::QueryCapability(*kind),
            Action::WriteSidecar { file_name, content } => ActionView::WriteSidecar {
                file_name: file_name@,
                content: content@,
            },
            Action::Encode { args, duration, stage } => ActionView::Encode {
                args: string_views(args@),
                duration: *duration,
                stage: *stage,
            },
            Action::Remove { path } => ActionView::Remove { path: path@ },
            Action::Measure => ActionView::Measure,
            Action::Finish(result) => ActionView::Finish(result@),
        }
    }
}

/// The views of a list of actions, in order.
pub open spec fn action_views(actions: Seq<Action>) -> Seq<ActionView> {
    Seq::new(actions.len(), |i: int| actions[i]@)
}

/// What came of the action that the job asked for.
#[derive(Debug)]
pub enum Event {
    /// The action is done; there is nothing to tell.
    Done,
    /// What the prober found, or why it found nothing.
    Probed(Result<VideoInfo, String>),
    /// Whether the encoder has the capability.
    Capability(bool),
    /// The path of the sidecar that was written, or why it was not.
    SidecarWritten(Result<String, String>),
    /// Whether the encoder succeeded, and the reason if it did not.
    Encoded(Result<(), String>),
    /// The size of the output file in bytes; zero where it cannot be told.
    Measured(u64),
}

/// What an [`Event`] says.
pub enum EventView {
    Done,
    Probed(Result<VideoInfo, Seq<char>>),
    Capability(bool),
    SidecarWritten(Result<Seq<char>, Seq<char>>),
    Encoded(Result<(), Seq<char>>),
    Measured(u64),
}

impl View for Event {
    type V = EventView;

    open spec fn view(&self) -> EventView {
        match self {
            Event::Done => EventView::Done,
            Event::Probed(Ok(info)) => EventView::Probed(Ok(*info)),
            Event::Probed(Err(e)) => EventView::Probed(Err(e@)),
            Event::Capability(b) => EventView::Capability(*b),
            Event::SidecarWritten(Ok(path)) => EventView::SidecarWritten(Ok(path@)),
            Event::SidecarWritten(Err(e)) => EventView::SidecarWritten(Err(e@)),
            Event::Encoded(Ok(_)) => EventView::Encoded(Ok(())),
            Event::Encoded(Err(e)) => EventView::Encoded(Err(e@)),
            Event::Measured(size) => EventView::Measured(*size),
        }
    }
}

/// The kind of answer that a job waits for.
#[derive(Clone, Copy, Debug, PartialEq, Eq, Structural)]
pub enum Awaiting {
    Done,
    Probed,
    Capability,
    SidecarWritten,
    Encoded,
    Measured,
    /// The job is over and waits for nothing.
    Nothing,
}

/// The answer that an action calls for.
pub open spec fn awaited_after(action: ActionView) -> Awaiting {
    match action {
        ActionView::Report(_) => Awaiting::Done,
        ActionView::Probe => Awaiting::Probed,
        ActionView::QueryCapability(_) => Awaiting::Capability,
        ActionView::WriteSidecar { .. } => Awaiting::SidecarWritten,
        ActionView::Encode { .. } => Awaiting::Encoded,
        ActionView::Remove { .. } => Awaiting::Done,
        ActionView::Measure => Awaiting::Measured,
        ActionView::Finish(_) => Awaiting::Nothing,
    }
}

/// The kind of answer that an event is.
pub open spec fn answer_kind(event: EventView) -> Awaiting {
    match event {
        EventView::Done => Awaiting::Done,
        EventView::Probed(_) => Awaiting::Probed,
        EventView::Capability(_) => Awaiting::Capability,
        EventView::SidecarWritten(_) => Awaiting::SidecarWritten,
        EventView::Encoded(_) => Awaiting::Encoded,
        EventView::Measured(_) => Awaiting::Measured,
    }
}

/// The states that a job goes through.
#[derive(Clone, Copy, Debug, PartialEq, Eq, Structural)]
pub enum Phase {
    /// The source is examined and the plan is made.
    Analyzing,
    /// The encoder runs.
    Converting,
    /// Side files are removed.
    Finalizing,
    /// The job has succeeded, or is about to say so.
    Completed,
    /// The job has failed.
    Failed,
}

/// The message of a job that was handed an answer it did not wait for.
pub const OUT_OF_TURN: &'static str = "Unexpected answer to the job";

/// What a failure to write the chapter sidecar is reported with, in front
/// of the reason.
pub const SIDECAR_FAILED: &'static str = "Failed to write chapter metadata: ";

/// The state of a job, as its contracts speak of it.
pub struct JobView {
    pub request: RequestView,
    /// The state that the job is in.
    pub phase: Phase,
    /// The answer that the job waits for.
    pub awaiting: Awaiting,
    /// The actions that follow once the one under way is done, in order.
    pub pending: Seq<ActionView>,
    /// What the prober found, once it has.
    pub info: Option<VideoInfo>,
    /// The plan, once it is made.
    pub plan: Option<EncodePlan>,
    /// The tier that is run, for a tiered job.
    pub tier: nat,
}

/// A report of the job `id`.
pub open spec fn report_of(id: Seq<char>, progress: u32, status: Status) -> ActionView {
    ActionView::Report(ProgressEventView { id, progress, status })
}

/// The runs of the encoder for a job that is encoded at a bitrate.
pub open spec fn encode_script(request: RequestView, plan: EncodePlan, sidecar: Option<Seq<char>>)
    -> Seq<ActionView> {
    let codec = if request.kind == OutputKind::Mp4Hevc {
        SoftwareCodec::X265
    } else {
        SoftwareCodec::X264
    };
    match plan.strategy {
        Strategy::HardwareSinglePass => seq![
            ActionView::Encode {
                args: if request.kind == OutputKind::Mp4Hevc {
                    hardware_hevc_args(request.clip, plan.bitrate, plan.scale)
                } else {
                    hardware_h264_args(request.clip, plan.bitrate, plan.scale, sidecar)
                },
                duration: plan.duration,
                stage: Stage::SinglePass,
            },
        ],
        _ => seq![
            ActionView::Encode {
                args: first_pass_args(
                    codec,
                    request.clip,
                    plan.bitrate,
                    plan.scale,
                    request.null_output,
                ),
                duration: plan.duration,
                stage: Stage::FirstPass,
            },
            ActionView::Encode {
                args: second_pass_args(codec, request.clip, plan.bitrate, plan.scale, sidecar),
                duration: plan.duration,
                stage: Stage::SecondPass,
            },
        ],
    }
}

/// The side files that are removed once the runs of a job have succeeded:
/// the statistics of a two-pass job, then the chapter sidecar.
pub open spec fn cleanup_script(request: RequestView, plan: EncodePlan, sidecar: Option<Seq<char>>)
    -> Seq<ActionView> {
    let logs = if plan.strategy == Strategy::SoftwareTwoPass {
        seq![
            ActionView::Remove { path: pass_log_paths(request.clip.output_path)[0] },
            ActionView::Remove { path: pass_log_paths(request.clip.output_path)[1] },
        ]
    } else {
        Seq::empty()
    };
    match sidecar {
        Some(path) => logs.push(ActionView::Remove { path }),
        None => logs,
    }
}

/// All that a job encoded at a bitrate does once its plan is made, up to
/// the measuring of its output.
pub open spec fn video_script(request: RequestView, plan: EncodePlan, sidecar: Option<Seq<char>>)
    -> Seq<ActionView> {
    seq![report_of(request.id, 5_000, Status::Converting)] + encode_script(request, plan, sidecar)
        + cleanup_script(request, plan, sidecar) + seq![ActionView::Measure]
}

/// The stage of the tier at `index` of `count`.
pub open spec fn tier_stage(index: nat, count: nat) -> Stage {
    Stage::Tier { index: index as u32, count: count as u32 }
}

/// All that a tiered job does for the tier at `index`: report where the
/// job stands, remove the output of the tier before, run the encoder, and
/// measure what it wrote.
pub open spec fn tier_script(request: RequestView, duration: u64, index: nat) -> Seq<ActionView>
    recommends
        index < tiers_for(request.kind).len(),
{
    let tiers = tiers_for(request.kind);
    let stage = tier_stage(index, tiers.len());
    seq![
        report_of(request.id, stage_base(stage) as u32, Status::Converting),
        ActionView::Remove { path: request.clip.output_path },
        ActionView::Encode {
            args: if request.kind == OutputKind::Gif {
                gif_args(request.clip, tiers[index as int])
            } else {
                webp_args(request.clip, tiers[index as int])
            },
            duration,
            stage,
        },
        ActionView::Measure,
    ]
}

/// How a job that wrote `size` bytes closes: with the last report, and
/// with its result.
pub open spec fn closing_script(request: RequestView, size: u64) -> Seq<ActionView> {
    seq![
        report_of(request.id, FULL, Status::Completed),
        ActionView::Finish(success_of(request.clip.output_path, size)),
    ]
}

/// The state that the job is in while `action` is under way.
pub open spec fn phase_during(action: ActionView, tiered: bool) -> Phase {
    match action {
        ActionView::Report(e) => match e.status {
            Status::Analyzing => Phase::Analyzing,
            Status::Converting => Phase::Converting,
            Status::Completed => Phase::Completed,
        },
        ActionView::Probe => Phase::Analyzing,
        ActionView::QueryCapability(_) => Phase::Analyzing,
        ActionView::WriteSidecar { .. } => Phase::Analyzing,
        ActionView::Encode { .. } => Phase::Converting,
        ActionView::Remove { .. } => if tiered {
            Phase::Converting
        } else {
            Phase::Finalizing
        },
        ActionView::Measure => if tiered {
            Phase::Converting
        } else {
            Phase::Completed
        },
        ActionView::Finish(result) => if result.success {
            Phase::Completed
        } else {
            Phase::Failed
        },
    }
}

/// The job goes on with `script`: its first action is handed out, the rest
/// is kept for later.
pub open spec fn issue(job: JobView, script: Seq<ActionView>) -> (JobView, ActionView)
    recommends
        script.len() > 0,
{
    let action = script[0];
    (
        JobView {
            phase: phase_during(action, capability_for(job.request.kind) is None),
            awaiting: awaited_after(action),
            pending: script.drop_first(),
            ..job
        },
        action,
    )
}

/// The job fails for the reason `message`: whatever was still to do is
/// dropped, and the failed result is handed out.
pub open spec fn fail_with(job: JobView, message: Seq<char>) -> (JobView, ActionView) {
    (
        JobView { phase: Phase::Failed, awaiting: Awaiting::Nothing, pending: Seq::empty(), ..job },
        ActionView::Finish(failure_of(message)),
    )
}

/// How a new job for `request` begins: it reports that the source is
/// analysed, and will ask for the probe next.
pub open spec fn begin(request: RequestView) -> (JobView, ActionView) {
    issue(
        JobView {
            request,
            phase: Phase::Analyzing,
            awaiting: Awaiting::Nothing,
            pending: Seq::empty(),
            info: None,
            plan: None,
            tier: 0,
        },
        seq![report_of(request.id, 0, Status::Analyzing), ActionView::Probe],
    )
}

/// What a job does when the answer `event` comes in.
///
/// An answer of the wrong kind, or one that leaves the job with nothing to
/// go on with, fails the job. So does every answer that reports a failure.
/// Otherwise:
/// - the probe is followed by the query for the capability where the kind
///   can use one, and by the first tier where not;
/// - the capability settles the plan, and is followed by the writing of the
///   chapter sidecar where chapters are due, else by the runs;
/// - the sidecar is followed by the runs;
/// - the measured size closes a job that is encoded at a bitrate; for a
///   tiered job it is held against the budget, and either closes the job or
///   is followed by the next tier;
/// - everything else is followed by what is pending.
pub open spec fn next(job: JobView, event: EventView) -> (JobView, ActionView) {
    if answer_kind(event) != job.awaiting {
        fail_with(job, OUT_OF_TURN@)
    } else {
        match event {
            EventView::Done | EventView::Encoded(Ok(_)) => if job.pending.len() > 0 {
                issue(job, job.pending)
            } else {
                fail_with(job, OUT_OF_TURN@)
            },
            EventView::Encoded(Err(reason)) => fail_with(job, reason),
            EventView::Probed(Err(reason)) => fail_with(job, reason),
            EventView::Probed(Ok(info)) => {
                let known = JobView { info: Some(info), ..job };
                match capability_for(job.request.kind) {
                    Some(kind) => issue(known, seq![ActionView::QueryCapability(kind)]),
                    None => {
                        let plan = plan_for(job.request, info, false);
                        issue(
                            JobView { plan: Some(plan), tier: 0, ..known },
                            tier_script(job.request, plan.duration, 0),
                        )
                    },
                }
            },
            EventView::Capability(hardware) => match job.info {
                Some(info) => {
                    let plan = plan_for(job.request, info, hardware);
                    let planned = JobView { plan: Some(plan), ..job };
                    let chapters = chapter_markers(job.request);
                    if plan.strategy == Strategy::Tiered {
                        fail_with(job, OUT_OF_TURN@)
                    } else if chapters.len() > 0 {
                        issue(
                            planned,
                            seq![
                                ActionView::WriteSidecar {
                                    file_name: sidecar_name(job.request.id),
                                    content: chapter_metadata(chapters, plan.duration as nat),
                                },
                            ],
                        )
                    } else {
                        issue(planned, video_script(job.request, plan, None))
                    }
                },
                None => fail_with(job, OUT_OF_TURN@),
            },
            EventView::SidecarWritten(Err(reason)) => fail_with(job, SIDECAR_FAILED@ + reason),
            EventView::SidecarWritten(Ok(path)) => match job.plan {
                Some(plan) => issue(job, video_script(job.request, plan, Some(path))),
                None => fail_with(job, OUT_OF_TURN@),
            },
            EventView::Measured(size) => match job.plan {
                Some(plan) => {
                    let count = tiers_for(job.request.kind).len();
                    if plan.strategy != Strategy::Tiered {
                        issue(job, closing_script(job.request, size))
                    } else if job.tier >= count {
                        fail_with(job, OUT_OF_TURN@)
                    } else {
                        match decision_after(
                            job.tier,
                            count,
                            size as nat,
                            job.request.target_bytes as nat,
                        ) {
                            TierDecision::Accept => issue(job, closing_script(job.request, size)),
                            TierDecision::Retry(index) => issue(
                                JobView { tier: index as nat, ..job },
                                tier_script(job.request, plan.duration, index as nat),
                            ),
                        }
                    }
                },
                None => fail_with(job, OUT_OF_TURN@),
            },
        }
    }
}

/// A job under way.
#[derive(Debug)]
pub struct Job {
    request: TranscodeRequest,
    phase: Phase,
    awaiting: Awaiting,
    pending: Vec<Action>,
    info: Option<VideoInfo>,
    plan: Option<EncodePlan>,
    tier: usize,
}

impl View for Job {
    type V = JobView;

    closed spec fn view(&self) -> JobView {
        JobView {
            request: self.request@,
            phase: self.phase,
            awaiting: self.awaiting,
            pending: action_views(self.pending@),
            info: self.info,
            plan: self.plan,
            tier: self.tier as nat,
        }
    }
}

/// How a request is received.
#[derive(Debug)]
pub enum Submission {
    /// The job has begun; `first` is what the caller is to do first.
    Accepted { job: Job, first: Action },
    /// The request asks for a kind of output that is not known. Nothing has
    /// been done and nothing is to be done; this is the result.
    Rejected(ConversionResult),
}

/// The request that the arguments of [`convert_file_impl`] make, for a tag
/// that names `kind`.
pub open spec fn request_of(
    id: Seq<char>,
    input_path: Seq<char>,
    output_name: Seq<char>,
    output_path: Seq<char>,
    null_output: Seq<char>,
    target_bytes: u64,
    kind: OutputKind,
    trim_start: Option<u64>,
    trim_duration: Option<u64>,
    markers: Option<Vec<Marker>>,
) -> RequestView {
    RequestView {
        id,
        clip: ClipView { input_path, output_path, trim_start, trim_duration },
        output_name,
        target_bytes,
        kind,
        markers: match markers {
            Some(ms) => marker_views(ms@),
            None => Seq::empty(),
        },
        null_output,
    }
}

fn report(id: &String, progress: u32, status: Status) -> (action: Action)
    ensures
        action@ == report_of(id@, progress, status),
{
    Action::Report(ProgressEvent { id: id.clone(), progress, status })
}

fn awaited(action: &Action) -> (r: Awaiting)
    ensures
        r == awaited_after(action@),
{
    match action {
        Action::Report(_) => Awaiting::Done,
        Action::Probe => Awaiting::Probed,
        Action::QueryCapability(_) => Awaiting::Capability,
        Action::WriteSidecar { .. } => Awaiting::SidecarWritten,
        Action::Encode { .. } => Awaiting::Encoded,
        Action::Remove { .. } => Awaiting::Done,
        Action::Measure => Awaiting::Measured,
        Action::Finish(_) => Awaiting::Nothing,
    }
}

fn phase_of(action: &Action, tiered: bool) -> (r: Phase)
    ensures
        r == phase_during(action@, tiered),
{
    match action {
        Action::Report(e) => match e.status {
            Status::Analyzing => Phase::Analyzing,
            Status::Converting => Phase::Converting,
            Status::Completed => Phase::Completed,
        },
        Action::Probe => Phase::Analyzing,
        Action::QueryCapability(_) => Phase::Analyzing,
        Action::WriteSidecar { .. } => Phase::Analyzing,
        Action::Encode { .. } => Phase::Converting,
        Action::Remove { .. } => if tiered {
            Phase::Converting
        } else {
            Phase::Finalizing
        },
        Action::Measure => if tiered {
            Phase::Converting
        } else {
            Phase::Completed
        },
        Action::Finish(result) => if result.success {
            Phase::Completed
        } else {
            Phase::Failed
        },
    }
}

fn answer_of(event: &Event) -> (r: Awaiting)
    ensures
        r == answer_kind(event@),
{
    match event {
        Event::Done => Awaiting::Done,
        Event::Probed(_) => Awaiting::Probed,
        Event::Capability(_) => Awaiting::Capability,
        Event::SidecarWritten(_) => Awaiting::SidecarWritten,
        Event::Encoded(_) => Awaiting::Encoded,
        Event::Measured(_) => Awaiting::Measured,
    }
}

fn push_action(script: &mut Vec<Action>, action: Action)
    ensures
        action_views(final(script)@) == action_views(old(script)@).push(action@),
{
    script.push(action);
    assert(action_views(script@) =~= action_views(old(script)@).push(action@));
}

fn path_of(sidecar: &Option<String>) -> (r: Option<&str>)
    ensures
        crate::command::path_view(r) == text_view(*sidecar),
{
    match sidecar {
        Some(path) => Some(path.as_str()),
        None => None,
    }
}

fn push_encodes(
    script: &mut Vec<Action>,
    request: &TranscodeRequest,
    plan: EncodePlan,
    sidecar: &Option<String>,
)
    ensures
        action_views(final(script)@) == action_views(old(script)@) + encode_script(
            request@,
            plan,
            text_view(*sidecar),
        ),
{
    let hevc = match request.kind {
        OutputKind::Mp4Hevc => true,
        _ => false,
    };
    let codec = if hevc {
        SoftwareCodec::X265
    } else {
        SoftwareCodec::X264
    };
    match plan.strategy {
        Strategy::HardwareSinglePass => {
            let args = if hevc {
                hardware_hevc_run(&request.clip, plan.bitrate, plan.scale)
            } else {
                hardware_h264_run(&request.clip, plan.bitrate, plan.scale, path_of(sidecar))
            };
            push_action(
                script,
                Action::Encode { args, duration: plan.duration, stage: Stage::SinglePass },
            );
        },
        _ => {
            let first = first_pass_run(
                codec,
                &request.clip,
                plan.bitrate,
                plan.scale,
                request.null_output.as_str(),
            );
            push_action(
                script,
                Action::Encode { args: first, duration: plan.duration, stage: Stage::FirstPass },
            );
            let second = second_pass_run(
                codec,
                &request.clip,
                plan.bitrate,
                plan.scale,
                path_of(sidecar),
            );
            push_action(
                script,
                Action::Encode { args: second, duration: plan.duration, stage: Stage::SecondPass },
            );
        },
    }
    assert(action_views(script@) =~= action_views(old(script)@) + encode_script(
        request@,
        plan,
        text_view(*sidecar),
    ));
}

fn push_cleanup(
    script: &mut Vec<Action>,
    request: &TranscodeRequest,
    plan: EncodePlan,
    sidecar: &Option<String>,
)
    ensures
        action_views(final(script)@) == action_views(old(script)@) + cleanup_script(
            request@,
            plan,
            text_view(*sidecar),
        ),
{
    match plan.strategy {
        Strategy::SoftwareTwoPass => {
            let (log, tree) = pass_logs(request.clip.output_path.as_str());
            push_action(script, Action::Remove { path: log });
            push_action(script, Action::Remove { path: tree });
        },
        _ => {},
    }
    match sidecar {
        Some(path) => {
            push_action(script, Action::Remove { path: path.clone() });
        },
        None => {},
    }
    assert(action_views(script@) =~= action_views(old(script)@) + cleanup_script(
        request@,
        plan,
        text_view(*sidecar),
    ));
}

/// All that a job encoded at a bitrate does once its plan is made; see
/// [`video_script`].
pub fn video_actions(request: &TranscodeRequest, plan: EncodePlan, sidecar: &Option<String>) -> (script:
    Vec<Action>)
    ensures
        action_views(script@) == video_script(request@, plan, text_view(*sidecar)),
        script.len() > 0,
{
    let mut script: Vec<Action> = Vec::new();
    assert(action_views(script@) =~= Seq::<ActionView>::empty());
    push_action(&mut script, report(&request.id, 5_000, Status::Converting));
    assert(action_views(script@) =~= seq![report_of(request@.id, 5_000, Status::Converting)]);
    push_encodes(&mut script, request, plan, sidecar);
    push_cleanup(&mut script, request, plan, sidecar);
    let ghost before = action_views(script@);
    push_action(&mut script, Action::Measure);
    assert(action_views(script@) =~= before + seq![ActionView::Measure]);
    script
}

/// All that a tiered job does for the tier at `index`; see [`tier_script`].
pub fn tier_actions(request: &TranscodeRequest, duration: u64, index: usize) -> (script: Vec<Action>)
    requires
        index < tiers_for(request.kind).len(),
    ensures
        action_views(script@) == tier_script(request@, duration, index as nat),
        script.len() > 0,
{
    let tiers = request.kind.tiers();
    proof {
        crate::tiers::lemma_tier_tables_descend();
    }
    let stage = Stage::Tier { index: index as u32, count: tiers.len() as u32 };
    let gif = match request.kind {
        OutputKind::Gif => true,
        _ => false,
    };
    let args = if gif {
        gif_run(&request.clip, tiers[index])
    } else {
        webp_run(&request.clip, tiers[index])
    };
    let mut script: Vec<Action> = Vec::new();
    script.push(report(&request.id, stage.overall(0), Status::Converting));
    script.push(Action::Remove { path: request.clip.output_path.clone() });
    script.push(Action::Encode { args, duration, stage });
    script.push(Action::Measure);
    proof {
        crate::progress::lemma_overall_progress(stage, 0, 0);
        assert(action_views(script@) =~= tier_script(request@, duration, index as nat));
    }
    script
}

/// How a job that wrote `size` bytes closes; see [`closing_script`].
pub fn closing_actions(request: &TranscodeRequest, size: u64) -> (script: Vec<Action>)
    ensures
        action_views(script@) == closing_script(request@, size),
        script.len() > 0,
{
    let mut script: Vec<Action> = Vec::new();
    script.push(report(&request.id, FULL, Status::Completed));
    script.push(
        Action::Finish(ConversionResult::succeeded(request.clip.output_path.clone(), size)),
    );
    assert(action_views(script@) =~= closing_script(request@, size));
    script
}

/// Receives a request. The tag `conversion_type` names the kind of output;
/// where it names none, the request is rejected with a failed result that
/// names the tag, and nothing else happens. Otherwise the job begins.
///
/// `output_path` is where the output goes, `null_output` the file that
/// swallows what is written to it. Times are in microseconds.
pub fn convert_file_impl(
    id: String,
    input_path: String,
    output_name: String,
    output_path: String,
    null_output: String,
    target_bytes: u64,
    conversion_type: String,
    trim_start: Option<u64>,
    trim_duration: Option<u64>,
    markers: Option<Vec<Marker>>,
) -> (submission: Submission)
    ensures
        match kind_of_tag(conversion_type@) {
            Some(kind) => submission matches Submission::Accepted { job, first } && (job@, first@)
                == begin(
                request_of(
                    id@,
                    input_path@,
                    output_name@,
                    output_path@,
                    null_output@,
                    target_bytes,
                    kind,
                    trim_start,
                    trim_duration,
                    markers,
                ),
            ),
            None => submission matches Submission::Rejected(result) && result@ == failure_of(
                unknown_kind_message(conversion_type@),
            ),
        },
{
    let kind = match OutputKind::from_tag(conversion_type.as_str()) {
        Ok(kind) => kind,
        Err(message) => {
            return Submission::Rejected(ConversionResult::failed(message));
        },
    };
    let markers = match markers {
        Some(ms) => ms,
        None => {
            let none: Vec<Marker> = Vec::new();
            assert(marker_views(none@) =~= Seq::<MarkerView>::empty());
            none
        },
    };
    let request = TranscodeRequest {
        id,
        clip: Clip { input_path, output_path, trim_start, trim_duration },
        output_name,
        target_bytes,
        kind,
        markers,
        null_output,
    };
    let first = report(&request.id, 0, Status::Analyzing);
    let mut pending: Vec<Action> = Vec::new();
    pending.push(Action::Probe);
    let job = Job {
        request,
        phase: Phase::Analyzing,
        awaiting: Awaiting::Done,
        pending,
        info: None,
        plan: None,
        tier: 0,
    };
    proof {
        let script = seq![report_of(job@.request.id, 0, Status::Analyzing), ActionView::Probe];
        assert(job@.pending =~= script.drop_first());
    }
    Submission::Accepted { job, first }
}

impl Job {
    /// The state that the job is in.
    pub fn phase(&self) -> (r: Phase)
        ensures
            r == self@.phase,
    {
        self.phase
    }

    /// Whether the job is over: it has handed out its result and waits for
    /// nothing.
    pub fn is_over(&self) -> (r: bool)
        ensures
            r == (self@.awaiting == Awaiting::Nothing),
    {
        match self.awaiting {
            Awaiting::Nothing => true,
            _ => false,
        }
    }

    /// The request that the job works on.
    pub fn request(&self) -> (r: &TranscodeRequest)
        ensures
            r@ == self@.request,
    {
        &self.request
    }

    /// The plan of the job, once it is made.
    pub fn plan(&self) -> (r: Option<EncodePlan>)
        ensures
            r == self@.plan,
    {
        self.plan
    }

    fn issue(&mut self, script: Vec<Action>) -> (action: Action)
        requires
            script.len() > 0,
        ensures
            (final(self)@, action@) == issue(old(self)@, action_views(script@)),
    {
        let mut script = script;
        let ghost all = action_views(script@);
        let action = script.remove(0);
        assert(action_views(script@) =~= all.drop_first());
        let tiered = self.request.kind.capability().is_none();
        self.phase = phase_of(&action, tiered);
        self.awaiting = awaited(&action);
        self.pending = script;
        action
    }

    fn fail(&mut self, message: String) -> (action: Action)
        ensures
            (final(self)@, action@) == fail_with(old(self)@, message@),
    {
        self.phase = Phase::Failed;
        self.awaiting = Awaiting::Nothing;
        self.pending = Vec::new();
        assert(action_views(self.pending@) =~= Seq::<ActionView>::empty());
        Action::Finish(ConversionResult::failed(message))
    }

    fn out_of_turn(&mut self) -> (action: Action)
        ensures
            (final(self)@, action@) == fail_with(old(self)@, OUT_OF_TURN@),
    {
        self.fail(String::from_str(OUT_OF_TURN))
    }

    fn on_probed(&mut self, info: VideoInfo) -> (action: Action)
        requires
            old(self)@.awaiting == Awaiting::Probed,
        ensures
            (final(self)@, action@) == next(old(self)@, EventView::Probed(Ok(info))),
    {
        self.info = Some(info);
        match self.request.kind.capability() {
            Some(kind) => {
                let mut script: Vec<Action> = Vec::new();
                script.push(Action::QueryCapability(kind));
                assert(action_views(script@) =~= seq![ActionView::QueryCapability(kind)]);
                self.issue(script)
            },
            None => {
                let plan = plan_job(&self.request, info, false);
                self.plan = Some(plan);
                self.tier = 0;
                proof {
                    crate::tiers::lemma_tier_tables_descend();
                }
                let script = tier_actions(&self.request, plan.duration, 0);
                self.issue(script)
            },
        }
    }

    fn on_capability(&mut self, hardware: bool) -> (action: Action)
        requires
            old(self)@.awaiting == Awaiting::Capability,
        ensures
            (final(self)@, action@) == next(old(self)@, EventView::Capability(hardware)),
    {
        let info = match self.info {
            Some(info) => info,
            None => {
                return self.out_of_turn();
            },
        };
        let plan = plan_job(&self.request, info, hardware);
        match plan.strategy {
            Strategy::Tiered => {
                return self.out_of_turn();
            },
            _ => {},
        }
        let mkv = match self.request.kind {
            OutputKind::Mkv => true,
            _ => false,
        };
        let chapters = if mkv && str_ends_with(self.request.output_name.as_str(), ".mkv") {
            adjust_markers_for_trim(
                &self.request.markers,
                self.request.clip.trim_start,
                self.request.clip.trim_duration,
            )
        } else {
            let none: Vec<Marker> = Vec::new();
            assert(marker_views(none@) =~= Seq::<MarkerView>::empty());
            none
        };
        assert(marker_views(chapters@) == chapter_markers(self@.request));
        self.plan = Some(plan);
        if chapters.len() > 0 {
            let mut file_name = String::from_str("chapters_");
            file_name.append(self.request.id.as_str());
            file_name.append(".txt");
            let content = generate_chapter_metadata(&chapters, plan.duration);
            let mut script: Vec<Action> = Vec::new();
            script.push(Action::WriteSidecar { file_name, content });
            assert(action_views(script@) =~= seq![
                ActionView::WriteSidecar {
                    file_name: sidecar_name(self@.request.id),
                    content: chapter_metadata(chapter_markers(self@.request), plan.duration as nat),
                },
            ]);
            self.issue(script)
        } else {
            let script = video_actions(&self.request, plan, &None);
            self.issue(script)
        }
    }

    fn on_sidecar(&mut self, path: String) -> (action: Action)
        requires
            old(self)@.awaiting == Awaiting::SidecarWritten,
        ensures
            (final(self)@, action@) == next(old(self)@, EventView::SidecarWritten(Ok(path@))),
    {
        match self.plan {
            Some(plan) => {
                let script = video_actions(&self.request, plan, &Some(path));
                self.issue(script)
            },
            None => self.out_of_turn(),
        }
    }

    fn on_measured(&mut self, size: u64) -> (action: Action)
        requires
            old(self)@.awaiting == Awaiting::Measured,
        ensures
            (final(self)@, action@) == next(old(self)@, EventView::Measured(size)),
    {
        let plan = match self.plan {
            Some(plan) => plan,
            None => {
                return self.out_of_turn();
            },
        };
        match plan.strategy {
            Strategy::Tiered => {},
            _ => {
                let script = closing_actions(&self.request, size);
                return self.issue(script);
            },
        }
        let count = self.request.kind.tiers().len();
        if self.tier >= count {
            return self.out_of_turn();
        }
        match after_tier(self.tier, count, size, self.request.target_bytes) {
            TierDecision::Accept => {
                let script = closing_actions(&self.request, size);
                self.issue(script)
            },
            TierDecision::Retry(index) => {
                self.tier = index;
                let script = tier_actions(&self.request, plan.duration, index);
                self.issue(script)
            },
        }
    }

    /// Takes the answer to the action that the job asked for last, and
    /// tells what to do next; see [`next`]. Once the job has handed out its
    /// result with [`Action::Finish`], it is over.
    pub fn step(&mut self, event: Event) -> (action: Action)
        ensures
            (final(self)@, action@) == next(old(self)@, event@),
    {
        let kind = answer_of(&event);
        if kind != self.awaiting {
            return self.out_of_turn();
        }
        match event {
            Event::Done | Event::Encoded(Ok(_)) => {
                if self.pending.len() > 0 {
                    let mut script: Vec<Action> = Vec::new();
                    std::mem::swap(&mut script, &mut self.pending);
                    self.issue(script)
                } else {
                    self.out_of_turn()
                }
            },
            Event::Encoded(Err(reason)) => self.fail(reason),
            Event::Probed(Err(reason)) => self.fail(reason),
            Event::Probed(Ok(info)) => self.on_probed(info),
            Event::Capability(hardware) => self.on_capability(hardware),
            Event::SidecarWritten(Err(reason)) => {
                let mut message = String::from_str(SIDECAR_FAILED);
                message.append(reason.as_str());
                self.fail(message)
            },
            Event::SidecarWritten(Ok(path)) => self.on_sidecar(path),
            Event::Measured(size) => self.on_measured(size),
        }
    }
}

} // verus!
