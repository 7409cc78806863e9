//! Whole runs of a job: what holds of every sequence of answers.

use crate::command::pass_log_paths;
use crate::job::{
    awaited_after, begin, capability_for, chapter_markers, cleanup_script, closing_script,
    encode_script, fail_with, issue, next, plan_for, report_of, tier_script, tiers_for,
    video_script, ActionView, Awaiting, EncodePlan, EventView, JobView, RequestView, Strategy,
};
use crate::probe::VideoInfo;
use crate::progress::Status;
use crate::result::success_of;
use crate::tiers::{accepted_tier, decision_after, first_fit, fits_budget, TierDecision};
use vstd::prelude::*;

verus! {

/// The job after the answers `events`, and the actions that it asked for
/// in return, in order.
pub open spec fn run(job: JobView, events: Seq<EventView>) -> (JobView, Seq<ActionView>)
    decreases events.len(),
{
    if events.len() == 0 {
        (job, Seq::empty())
    } else {
        let (before, actions) = run(job, events.drop_last());
        let (after, action) = next(before, events.last());
        (after, actions.push(action))
    }
}

/// Whether a successful result is among `actions`.
pub open spec fn success_among(actions: Seq<ActionView>) -> bool {
    exists|i: int|
        0 <= i < actions.len() && (#[trigger] actions[i] matches ActionView::Finish(result)
            && result.success)
}

/// The removal of the first statistics file of a two-pass job.
pub open spec fn remove_log(request: RequestView) -> ActionView {
    ActionView::Remove { path: pass_log_paths(request.clip.output_path)[0] }
}

/// The removal of the second statistics file of a two-pass job.
pub open spec fn remove_tree(request: RequestView) -> ActionView {
    ActionView::Remove { path: pass_log_paths(request.clip.output_path)[1] }
}

/// Whether the removal of both statistics files has been asked for, where
/// the plan is one of two passes.
pub open spec fn cleaned(request: RequestView, plan: Option<EncodePlan>, actions: Seq<ActionView>) -> bool {
    plan matches Some(p) && p.strategy == Strategy::SoftwareTwoPass ==> actions.contains(
        remove_log(request),
    ) && actions.contains(remove_tree(request))
}

/// The job stands in the script of its runs, at position `at`: everything
/// up to there has been asked for, the rest is pending.
spec fn in_script(
    request: RequestView,
    job: JobView,
    actions: Seq<ActionView>,
    sidecar: Option<Seq<char>>,
    at: int,
) -> bool {
    &&& job.plan matches Some(plan)
    &&& plan.strategy != Strategy::Tiered
    &&& {
        let script = video_script(request, plan, sidecar);
        &&& 0 <= at < script.len()
        &&& job.pending == script.skip(at + 1)
        &&& job.awaiting == awaited_after(script[at])
        &&& forall|m: int| 0 <= m <= at ==> actions.contains(#[trigger] script[m])
    }
}

/// What holds of a job for a kind that is encoded at a bitrate, after any
/// answers: where it stands, and that no success has been handed out
/// before the side files were dealt with.
spec fn on_track(request: RequestView, job: JobView, actions: Seq<ActionView>) -> bool {
    &&& job.request == request
    &&& capability_for(request.kind) is Some
    &&& match job.awaiting {
        Awaiting::Nothing => job.pending.len() == 0 && (success_among(actions) ==> cleaned(
            request,
            job.plan,
            actions,
        )),
        Awaiting::Probed => job.pending.len() == 0 && !success_among(actions),
        Awaiting::Capability => job.pending.len() == 0 && job.info is Some && !success_among(
            actions,
        ),
        Awaiting::SidecarWritten => job.pending.len() == 0 && !success_among(actions) && (
        job.plan matches Some(plan) && plan.strategy != Strategy::Tiered),
        _ => {
            ||| (job.awaiting == Awaiting::Done && job.pending == seq![ActionView::Probe]
                && !success_among(actions))
            ||| (!success_among(actions) && exists|sidecar: Option<Seq<char>>, at: int|
                in_script(request, job, actions, sidecar, at))
            ||| (job.awaiting == Awaiting::Done && cleaned(request, job.plan, actions)
                && !success_among(actions) && (job.plan matches Some(plan) && plan.strategy
                != Strategy::Tiered) && exists|size: u64|
                job.pending == seq![
                    ActionView::Finish(success_of(request.clip.output_path, size)),
                ])
        },
    }
}

/// The shape of the script of a job encoded at a bitrate: it ends with the
/// measuring, nothing before that waits for a measure, no result is in it,
/// and in two passes the removal of the statistics stands at the fourth
/// and fifth place.
proof fn lemma_script_shape(request: RequestView, plan: EncodePlan, sidecar: Option<Seq<char>>)
    requires
        plan.strategy != Strategy::Tiered,
    ensures
        ({
            let script = video_script(request, plan, sidecar);
            &&& script.len() >= 3
            &&& script[script.len() - 1] == ActionView::Measure
            &&& script[0] == report_of(request.id, 5_000, Status::Converting)
            &&& forall|m: int|
                0 <= m < script.len() - 1 ==> awaited_after(#[trigger] script[m]) == Awaiting::Done
                    || awaited_after(script[m]) == Awaiting::Encoded
            &&& forall|m: int| 0 <= m < script.len() ==> !(#[trigger] script[m] is Finish)
            &&& plan.strategy == Strategy::SoftwareTwoPass ==> script.len() >= 6 && script[3]
                == remove_log(request) && script[4] == remove_tree(request)
        }),
{
    let head = seq![report_of(request.id, 5_000, Status::Converting)];
    let runs = encode_script(request, plan, sidecar);
    let clean = cleanup_script(request, plan, sidecar);
    let tail = seq![ActionView::Measure];
    let script = video_script(request, plan, sidecar);
    assert(script == head + runs + clean + tail);
    assert(head.len() == 1);
    assert(tail.len() == 1);
    assert forall|m: int| 0 <= m < runs.len() implies awaited_after(#[trigger] runs[m])
        == Awaiting::Encoded by {}
    assert forall|m: int| 0 <= m < clean.len() implies awaited_after(#[trigger] clean[m])
        == Awaiting::Done by {}
    assert forall|m: int| 0 <= m < script.len() - 1 implies awaited_after(#[trigger] script[m])
        == Awaiting::Done || awaited_after(script[m]) == Awaiting::Encoded by {
        if m < 1 {
            assert(script[m] == head[m]);
        } else if m < 1 + runs.len() {
            assert(script[m] == runs[m - 1]);
        } else {
            assert(script[m] == clean[m - 1 - runs.len()]);
        }
    }
    assert forall|m: int| 0 <= m < script.len() implies !(#[trigger] script[m] is Finish) by {
        if m < 1 {
            assert(script[m] == head[m]);
        } else if m < 1 + runs.len() {
            assert(script[m] == runs[m - 1]);
        } else if m < 1 + runs.len() + clean.len() {
            assert(script[m] == clean[m - 1 - runs.len()]);
        } else {
            assert(script[m] == tail[0]);
        }
    }
    if plan.strategy == Strategy::SoftwareTwoPass {
        assert(runs.len() == 2);
        assert(clean.len() >= 2);
        assert(script[3] == clean[0]);
        assert(script[4] == clean[1]);
    }
}

/// Asking for one more action that is no successful result hands out no
/// success.
proof fn lemma_no_success_pushed(actions: Seq<ActionView>, action: ActionView)
    requires
        !success_among(actions),
        !(action matches ActionView::Finish(result) && result.success),
    ensures
        !success_among(actions.push(action)),
{
    let more = actions.push(action);
    assert forall|i: int| 0 <= i < more.len() implies !(#[trigger] more[i] matches ActionView::Finish(
        result,
    ) && result.success) by {
        if i < actions.len() {
            assert(more[i] == actions[i]);
        }
    }
}

/// What was asked for stays asked for.
proof fn lemma_contains_pushed(actions: Seq<ActionView>, action: ActionView, wanted: ActionView)
    requires
        actions.contains(wanted) || wanted == action,
    ensures
        actions.push(action).contains(wanted),
{
    let more = actions.push(action);
    if actions.contains(wanted) {
        let i = choose|i: int| 0 <= i < actions.len() && actions[i] == wanted;
        assert(more[i] == wanted);
    } else {
        assert(more[actions.len() as int] == wanted);
    }
}

/// The job enters the script of its runs at its start.
proof fn lemma_enter_script(
    request: RequestView,
    job: JobView,
    actions: Seq<ActionView>,
    plan: EncodePlan,
    sidecar: Option<Seq<char>>,
)
    requires
        job.request == request,
        capability_for(request.kind) is Some,
        job.plan == Some(plan),
        plan.strategy != Strategy::Tiered,
        !success_among(actions),
    ensures
        ({
            let (after, action) = issue(job, video_script(request, plan, sidecar));
            on_track(request, after, actions.push(action))
        }),
{
    let script = video_script(request, plan, sidecar);
    lemma_script_shape(request, plan, sidecar);
    let (after, action) = issue(job, script);
    let more = actions.push(action);
    lemma_no_success_pushed(actions, action);
    assert(script.drop_first() =~= script.skip(1));
    assert forall|m: int| 0 <= m <= 0 implies more.contains(#[trigger] script[m]) by {
        lemma_contains_pushed(actions, action, script[0]);
    }
    assert(in_script(request, after, more, sidecar, 0));
    assert(after.awaiting == Awaiting::Done);
}

/// Failing keeps the job on track.
proof fn lemma_fail_on_track(
    request: RequestView,
    job: JobView,
    actions: Seq<ActionView>,
    message: Seq<char>,
)
    requires
        job.request == request,
        capability_for(request.kind) is Some,
        success_among(actions) ==> cleaned(request, job.plan, actions),
    ensures
        ({
            let (after, action) = fail_with(job, message);
            on_track(request, after, actions.push(action))
        }),
{
    let (after, action) = fail_with(job, message);
    let more = actions.push(action);
    if success_among(actions) {
        if job.plan matches Some(p) && p.strategy == Strategy::SoftwareTwoPass {
            lemma_contains_pushed(actions, action, remove_log(request));
            lemma_contains_pushed(actions, action, remove_tree(request));
        }
    } else {
        lemma_no_success_pushed(actions, action);
    }
}

/// An answer out of turn keeps the job on track.
proof fn lemma_step_out_of_turn(
    request: RequestView,
    job: JobView,
    actions: Seq<ActionView>,
    event: EventView,
)
    requires
        on_track(request, job, actions),
        crate::job::answer_kind(event) != job.awaiting,
    ensures
        on_track(request, next(job, event).0, actions.push(next(job, event).1)),
{
    lemma_track_knows_cleaned(request, job, actions);
    lemma_fail_on_track(request, job, actions, crate::job::OUT_OF_TURN@);
}

/// An answer that reports a failure keeps the job on track.
proof fn lemma_step_failure(
    request: RequestView,
    job: JobView,
    actions: Seq<ActionView>,
    event: EventView,
)
    requires
        on_track(request, job, actions),
        crate::job::answer_kind(event) == job.awaiting,
        event matches EventView::Encoded(Err(_)) || event matches EventView::Probed(Err(_))
            || event matches EventView::SidecarWritten(Err(_)),
    ensures
        on_track(request, next(job, event).0, actions.push(next(job, event).1)),
{
    lemma_track_knows_cleaned(request, job, actions);
    match event {
        EventView::Encoded(Err(reason)) => {
            lemma_fail_on_track(request, job, actions, reason);
        },
        EventView::Probed(Err(reason)) => {
            lemma_fail_on_track(request, job, actions, reason);
        },
        EventView::SidecarWritten(Err(reason)) => {
            lemma_fail_on_track(request, job, actions, crate::job::SIDECAR_FAILED@ + reason);
        },
        _ => {},
    }
}

/// Going on with what is pending keeps the job on track.
proof fn lemma_step_onward(
    request: RequestView,
    job: JobView,
    actions: Seq<ActionView>,
    event: EventView,
)
    requires
        on_track(request, job, actions),
        crate::job::answer_kind(event) == job.awaiting,
        event is Done || event matches EventView::Encoded(Ok(_)),
    ensures
        on_track(request, next(job, event).0, actions.push(next(job, event).1)),
{
    let (after, action) = next(job, event);
    let more = actions.push(action);
    lemma_track_knows_cleaned(request, job, actions);
    if job.pending.len() == 0 {
        lemma_fail_on_track(request, job, actions, crate::job::OUT_OF_TURN@);
    } else {
        assert((after, action) == issue(job, job.pending));
        if job.awaiting == Awaiting::Done && job.pending == seq![ActionView::Probe]
            && !success_among(actions) {
            lemma_no_success_pushed(actions, action);
            assert(after.pending =~= Seq::<ActionView>::empty());
        } else if !success_among(actions) && exists|sidecar: Option<Seq<char>>, at: int|
            in_script(request, job, actions, sidecar, at) {
            let (sidecar, at) = choose|sidecar: Option<Seq<char>>, at: int|
                in_script(request, job, actions, sidecar, at);
            let plan = job.plan->0;
            let script = video_script(request, plan, sidecar);
            lemma_script_shape(request, plan, sidecar);
            assert(job.pending[0] == script[at + 1]);
            assert(action == script[at + 1]);
            lemma_no_success_pushed(actions, action);
            assert(job.pending.drop_first() =~= script.skip(at + 2));
            assert forall|m: int| 0 <= m <= at + 1 implies more.contains(#[trigger] script[m]) by {
                lemma_contains_pushed(actions, action, script[m]);
            }
            assert(in_script(request, after, more, sidecar, at + 1));
        } else {
            // The closing report is done: the result goes out.
            assert(after.pending =~= Seq::<ActionView>::empty());
            assert(after.awaiting == Awaiting::Nothing);
            if job.plan matches Some(p) && p.strategy == Strategy::SoftwareTwoPass {
                lemma_contains_pushed(actions, action, remove_log(request));
                lemma_contains_pushed(actions, action, remove_tree(request));
            }
        }
    }
}

/// What the prober found keeps the job on track.
proof fn lemma_step_probed(
    request: RequestView,
    job: JobView,
    actions: Seq<ActionView>,
    info: crate::probe::VideoInfo,
)
    requires
        on_track(request, job, actions),
        job.awaiting == Awaiting::Probed,
    ensures
        on_track(
            request,
            next(job, EventView::Probed(Ok(info))).0,
            actions.push(next(job, EventView::Probed(Ok(info))).1),
        ),
{
    let (after, action) = next(job, EventView::Probed(Ok(info)));
    let kind = capability_for(request.kind)->0;
    let script = seq![ActionView::QueryCapability(kind)];
    assert((after, action) == issue(JobView { info: Some(info), ..job }, script));
    lemma_no_success_pushed(actions, action);
    assert(script.drop_first() =~= Seq::<ActionView>::empty());
}

/// What is known of the hardware keeps the job on track.
proof fn lemma_step_capability(
    request: RequestView,
    job: JobView,
    actions: Seq<ActionView>,
    hardware: bool,
)
    requires
        on_track(request, job, actions),
        job.awaiting == Awaiting::Capability,
    ensures
        on_track(
            request,
            next(job, EventView::Capability(hardware)).0,
            actions.push(next(job, EventView::Capability(hardware)).1),
        ),
{
    let (after, action) = next(job, EventView::Capability(hardware));
    let plan = plan_for(request, job.info->0, hardware);
    let planned = JobView { plan: Some(plan), ..job };
    assert(plan.strategy != Strategy::Tiered);
    if chapter_markers(request).len() > 0 {
        let script = seq![
            ActionView::WriteSidecar {
                file_name: crate::job::sidecar_name(request.id),
                content: crate::chapters::chapter_metadata(
                    chapter_markers(request),
                    plan.duration as nat,
                ),
            },
        ];
        assert((after, action) == issue(planned, script));
        lemma_no_success_pushed(actions, action);
        assert(script.drop_first() =~= Seq::<ActionView>::empty());
    } else {
        assert((after, action) == issue(planned, video_script(request, plan, None)));
        lemma_enter_script(request, planned, actions, plan, None);
    }
}

/// The written sidecar keeps the job on track.
proof fn lemma_step_sidecar(
    request: RequestView,
    job: JobView,
    actions: Seq<ActionView>,
    path: Seq<char>,
)
    requires
        on_track(request, job, actions),
        job.awaiting == Awaiting::SidecarWritten,
    ensures
        on_track(
            request,
            next(job, EventView::SidecarWritten(Ok(path))).0,
            actions.push(next(job, EventView::SidecarWritten(Ok(path))).1),
        ),
{
    lemma_enter_script(request, job, actions, job.plan->0, Some(path));
}

/// The measured size keeps the job on track.
proof fn lemma_step_measured(
    request: RequestView,
    job: JobView,
    actions: Seq<ActionView>,
    size: u64,
)
    requires
        on_track(request, job, actions),
        job.awaiting == Awaiting::Measured,
    ensures
        on_track(
            request,
            next(job, EventView::Measured(size)).0,
            actions.push(next(job, EventView::Measured(size)).1),
        ),
{
    let (after, action) = next(job, EventView::Measured(size));
    let (sidecar, at) = choose|sidecar: Option<Seq<char>>, at: int|
        in_script(request, job, actions, sidecar, at);
    let plan = job.plan->0;
    let script = video_script(request, plan, sidecar);
    lemma_script_shape(request, plan, sidecar);
    assert(at == script.len() - 1);
    let closing = closing_script(request, size);
    assert((after, action) == issue(job, closing));
    assert(closing.drop_first() =~= seq![
        ActionView::Finish(success_of(request.clip.output_path, size)),
    ]);
    lemma_no_success_pushed(actions, action);
    if plan.strategy == Strategy::SoftwareTwoPass {
        assert(actions.contains(script[3]));
        assert(actions.contains(script[4]));
        lemma_contains_pushed(actions, action, remove_log(request));
        lemma_contains_pushed(actions, action, remove_tree(request));
    }
}

/// One more answer keeps the job on track.
proof fn lemma_step_on_track(
    request: RequestView,
    job: JobView,
    actions: Seq<ActionView>,
    event: EventView,
)
    requires
        on_track(request, job, actions),
    ensures
        on_track(request, next(job, event).0, actions.push(next(job, event).1)),
{
    if crate::job::answer_kind(event) != job.awaiting {
        lemma_step_out_of_turn(request, job, actions, event);
    } else {
        match event {
            EventView::Done => {
                lemma_step_onward(request, job, actions, event);
            },
            EventView::Encoded(Ok(_)) => {
                lemma_step_onward(request, job, actions, event);
            },
            EventView::Encoded(Err(_)) => {
                lemma_step_failure(request, job, actions, event);
            },
            EventView::Probed(Err(_)) => {
                lemma_step_failure(request, job, actions, event);
            },
            EventView::SidecarWritten(Err(_)) => {
                lemma_step_failure(request, job, actions, event);
            },
            EventView::Probed(Ok(info)) => {
                lemma_step_probed(request, job, actions, info);
            },
            EventView::Capability(hardware) => {
                lemma_step_capability(request, job, actions, hardware);
            },
            EventView::SidecarWritten(Ok(path)) => {
                lemma_step_sidecar(request, job, actions, path);
            },
            EventView::Measured(size) => {
                lemma_step_measured(request, job, actions, size);
            },
        }
    }
}

/// On track, a success that was handed out was handed out after the side
/// files were dealt with.
proof fn lemma_track_knows_cleaned(request: RequestView, job: JobView, actions: Seq<ActionView>)
    requires
        on_track(request, job, actions),
    ensures
        success_among(actions) ==> cleaned(request, job.plan, actions),
{
}

/// A job for a kind that is encoded at a bitrate is on track after any
/// answers.
proof fn lemma_run_on_track(request: RequestView, events: Seq<EventView>)
    requires
        capability_for(request.kind) is Some,
    ensures
        on_track(
            request,
            run(begin(request).0, events).0,
            seq![begin(request).1] + run(begin(request).0, events).1,
        ),
    decreases events.len(),
{
    let (job, first) = begin(request);
    if events.len() == 0 {
        let actions = seq![first] + Seq::<ActionView>::empty();
        assert(actions =~= seq![first]);
        assert(!success_among(actions));
        let script = seq![report_of(request.id, 0, Status::Analyzing), ActionView::Probe];
        assert(script.drop_first() =~= seq![ActionView::Probe]);
    } else {
        lemma_run_on_track(request, events.drop_last());
        let (before, actions) = run(job, events.drop_last());
        lemma_step_on_track(request, before, seq![first] + actions, events.last());
        let (after, action) = next(before, events.last());
        assert((seq![first] + actions).push(action) =~= seq![first] + actions.push(action));
    }
}

/// The plan of a job is never one of two passes for a kind that is encoded
/// by tiers.
proof fn lemma_tiered_plan(request: RequestView, events: Seq<EventView>)
    requires
        capability_for(request.kind) is None,
    ensures
        run(begin(request).0, events).0.request == request,
        run(begin(request).0, events).0.plan matches Some(plan) ==> plan.strategy
            == Strategy::Tiered,
    decreases events.len(),
{
    if events.len() > 0 {
        lemma_tiered_plan(request, events.drop_last());
    }
}

/// A job that is over stays over: whatever it is handed, it asks for
/// nothing more and answers with a failed result.
pub proof fn lemma_over_stays_over(job: JobView, event: EventView)
    requires
        job.awaiting == Awaiting::Nothing,
    ensures
        next(job, event) == fail_with(job, crate::job::OUT_OF_TURN@),
        next(job, event).0.awaiting == Awaiting::Nothing,
        next(job, event).0.pending.len() == 0,
{
}

/// A failure ends the job at once: where the prober, the writing of the
/// sidecar or a run of the encoder fails, the job hands out a failed result
/// with the reason, drops whatever was pending, and is over. Nothing that
/// was written is taken back.
pub proof fn lemma_failure_ends_job(job: JobView, event: EventView)
    requires
        crate::job::answer_kind(event) == job.awaiting,
        event matches EventView::Encoded(Err(_)) || event matches EventView::Probed(Err(_))
            || event matches EventView::SidecarWritten(Err(_)),
    ensures
        next(job, event).1 matches ActionView::Finish(result) && !result.success && result.error
            == Some(
            match event {
                EventView::Encoded(Err(reason)) => reason,
                EventView::Probed(Err(reason)) => reason,
                EventView::SidecarWritten(Err(reason)) => crate::job::SIDECAR_FAILED@ + reason,
                _ => Seq::empty(),
            },
        ),
        next(job, event).0.awaiting == Awaiting::Nothing,
        next(job, event).0.pending.len() == 0,
        next(job, event).0.phase == crate::job::Phase::Failed,
{
}

/// No job leaves statistics behind: whenever a job whose plan is one of
/// two passes has handed out a successful result, the removal of both
/// statistics files of the first pass is among the actions that it has
/// asked for. This holds after any answers, whatever they say and in
/// whatever order they come; so it holds at the moment the result goes
/// out, and the removals come before the result.
pub proof fn lemma_two_pass_leaves_no_statistics(request: RequestView, events: Seq<EventView>)
    ensures
        ({
            let (job, first) = begin(request);
            let (after, actions) = run(job, events);
            success_among(actions) && (after.plan matches Some(plan) && plan.strategy
                == Strategy::SoftwareTwoPass) ==> actions.contains(remove_log(request))
                && actions.contains(remove_tree(request))
        }),
{
    let (job, first) = begin(request);
    let (after, actions) = run(job, events);
    if capability_for(request.kind) is Some {
        lemma_run_on_track(request, events);
        let all = seq![first] + actions;
        if success_among(actions) && (after.plan matches Some(plan) && plan.strategy
            == Strategy::SoftwareTwoPass) {
            let i = choose|i: int|
                0 <= i < actions.len() && (#[trigger] actions[i] matches ActionView::Finish(result)
                    && result.success);
            assert(all[i + 1] == actions[i]);
            assert(success_among(all));
            lemma_track_knows_cleaned(request, after, all);
            assert(all.contains(remove_log(request)));
            assert(all.contains(remove_tree(request)));
            assert(first != remove_log(request) && first != remove_tree(request));
            let a = choose|a: int| 0 <= a < all.len() && all[a] == remove_log(request);
            assert(actions[a - 1] == remove_log(request));
            let b = choose|b: int| 0 <= b < all.len() && all[b] == remove_tree(request);
            assert(actions[b - 1] == remove_tree(request));
        }
    } else {
        lemma_tiered_plan(request, events);
    }
}

/// The answers to a tiered job whose first `tiers` tiers run without
/// failure, tier `i` writing `sizes[i]` bytes: the first report is done and
/// the prober has found `info`; then, tier by tier, the report is done, the
/// output of the tier before is removed, the encoder succeeds, and the
/// output is measured.
pub open spec fn tiered_answers(info: VideoInfo, sizes: Seq<u64>, tiers: nat) -> Seq<EventView>
    decreases tiers,
{
    if tiers == 0 {
        seq![EventView::Done, EventView::Probed(Ok(info))]
    } else {
        tiered_answers(info, sizes, (tiers - 1) as nat).push(EventView::Done).push(
            EventView::Done,
        ).push(EventView::Encoded(Ok(()))).push(EventView::Measured(sizes[tiers - 1]))
    }
}

/// One more answer is one more step.
proof fn lemma_run_push(job: JobView, events: Seq<EventView>, event: EventView)
    ensures
        run(job, events.push(event)).0 == next(run(job, events).0, event).0,
        run(job, events.push(event)).1 == run(job, events).1.push(
            next(run(job, events).0, event).1,
        ),
{
    assert(events.push(event).drop_last() =~= events);
}

/// The job stands at the start of tier `tier`: its report is under way,
/// the rest of the tier is pending.
spec fn at_tier(request: RequestView, info: VideoInfo, job: JobView, tier: nat) -> bool {
    let plan = plan_for(request, info, false);
    &&& job.request == request
    &&& job.plan == Some(plan)
    &&& job.tier == tier
    &&& job.awaiting == Awaiting::Done
    &&& job.pending == tier_script(request, plan.duration, tier).skip(1)
}

/// The job has accepted an output of `size` bytes: the closing report is
/// under way, the result is pending.
spec fn at_closing(request: RequestView, job: JobView, size: u64) -> bool {
    &&& job.request == request
    &&& job.awaiting == Awaiting::Done
    &&& job.pending == seq![ActionView::Finish(success_of(request.clip.output_path, size))]
}

/// A tier that runs without failure either closes the job or leads to the
/// start of the next tier, as its size is held against the budget.
proof fn lemma_tier_runs(request: RequestView, info: VideoInfo, job: JobView, tier: nat, size: u64)
    requires
        capability_for(request.kind) is None,
        tier < tiers_for(request.kind).len(),
        at_tier(request, info, job, tier),
    ensures
        ({
            let j1 = next(job, EventView::Done).0;
            let j2 = next(j1, EventView::Done).0;
            let j3 = next(j2, EventView::Encoded(Ok(()))).0;
            let j4 = next(j3, EventView::Measured(size)).0;
            match decision_after(
                tier,
                tiers_for(request.kind).len(),
                size as nat,
                request.target_bytes as nat,
            ) {
                TierDecision::Accept => at_closing(request, j4, size),
                TierDecision::Retry(index) => index == tier + 1 && at_tier(
                    request,
                    info,
                    j4,
                    tier + 1,
                ),
            }
        }),
{
    let plan = plan_for(request, info, false);
    let script = tier_script(request, plan.duration, tier);
    let count = tiers_for(request.kind).len();
    assert(count == 6) by {
        crate::tiers::lemma_tier_tables_descend();
    }
    assert(script.len() == 4);
    let j1 = next(job, EventView::Done).0;
    assert(job.pending[0] == script[1]);
    assert(job.pending.drop_first() =~= script.skip(2));
    assert(j1.awaiting == Awaiting::Done);
    assert(j1.pending == script.skip(2));
    let j2 = next(j1, EventView::Done).0;
    assert(j1.pending[0] == script[2]);
    assert(j1.pending.drop_first() =~= script.skip(3));
    assert(j2.awaiting == Awaiting::Encoded);
    let j3 = next(j2, EventView::Encoded(Ok(()))).0;
    assert(j2.pending[0] == script[3]);
    assert(j3.awaiting == Awaiting::Measured);
    assert(j3.plan == Some(plan));
    assert(j3.tier == tier);
    let j4 = next(j3, EventView::Measured(size)).0;
    match decision_after(tier, count, size as nat, request.target_bytes as nat) {
        TierDecision::Accept => {
            let closing = closing_script(request, size);
            assert(closing.drop_first() =~= seq![
                ActionView::Finish(success_of(request.clip.output_path, size)),
            ]);
        },
        TierDecision::Retry(index) => {
            let following = tier_script(request, plan.duration, index as nat);
            assert(following.drop_first() =~= following.skip(1));
        },
    }
}

/// As long as no output fits the budget and a tier is left, the job goes
/// from tier to tier.
proof fn lemma_tiers_run(request: RequestView, info: VideoInfo, sizes: Seq<u64>, tier: nat)
    requires
        capability_for(request.kind) is None,
        sizes.len() == tiers_for(request.kind).len(),
        tier < sizes.len(),
        forall|j: int| 0 <= j < tier ==> !fits_budget(#[trigger] sizes[j] as nat, request.target_bytes as nat),
    ensures
        ({
            let before = run(begin(request).0, tiered_answers(info, sizes, tier)).0;
            let after = run(begin(request).0, tiered_answers(info, sizes, tier + 1)).0;
            &&& at_tier(request, info, before, tier)
            &&& match decision_after(
                tier,
                sizes.len(),
                sizes[tier as int] as nat,
                request.target_bytes as nat,
            ) {
                TierDecision::Accept => at_closing(request, after, sizes[tier as int]),
                TierDecision::Retry(index) => at_tier(request, info, after, tier + 1),
            }
        }),
    decreases tier,
{
    let start = begin(request).0;
    let plan = plan_for(request, info, false);
    if tier == 0 {
        let first = seq![report_of(request.id, 0, Status::Analyzing), ActionView::Probe];
        assert(first.drop_first() =~= seq![ActionView::Probe]);
        let none = Seq::<EventView>::empty();
        assert(tiered_answers(info, sizes, 0) =~= none.push(EventView::Done).push(
            EventView::Probed(Ok(info)),
        ));
        lemma_run_push(start, none, EventView::Done);
        lemma_run_push(start, none.push(EventView::Done), EventView::Probed(Ok(info)));
        let j1 = next(start, EventView::Done).0;
        assert(start.pending.drop_first() =~= Seq::<ActionView>::empty());
        assert(j1.awaiting == Awaiting::Probed);
        let opening = tier_script(request, plan.duration, 0);
        assert(opening.drop_first() =~= opening.skip(1));
    } else {
        lemma_tiers_run(request, info, sizes, (tier - 1) as nat);
        assert(!fits_budget(sizes[tier - 1] as nat, request.target_bytes as nat));
    }
    let answers = tiered_answers(info, sizes, tier);
    let before = run(start, answers).0;
    assert(at_tier(request, info, before, tier));
    lemma_tier_runs(request, info, before, tier, sizes[tier as int]);
    lemma_run_push(start, answers, EventView::Done);
    lemma_run_push(start, answers.push(EventView::Done), EventView::Done);
    lemma_run_push(
        start,
        answers.push(EventView::Done).push(EventView::Done),
        EventView::Encoded(Ok(())),
    );
    lemma_run_push(
        start,
        answers.push(EventView::Done).push(EventView::Done).push(EventView::Encoded(Ok(()))),
        EventView::Measured(sizes[tier as int]),
    );
}

/// A tiered job ends with the output of the first tier that fits the
/// budget, and with that of the last tier where none fits: where tier `i`
/// writes `sizes[i]` bytes and nothing fails, the job runs the tiers up to
/// the accepted one and no further, and hands out a successful result with
/// the size of that tier.
pub proof fn lemma_tiered_job_accepts(
    request: RequestView,
    info: VideoInfo,
    sizes: Seq<u64>,
    accepted: nat,
)
    requires
        capability_for(request.kind) is None,
        sizes.len() == tiers_for(request.kind).len(),
        accepted_tier(sizes, request.target_bytes as nat) == Some(accepted as int),
    ensures
        ({
            let answers = tiered_answers(info, sizes, accepted + 1).push(EventView::Done);
            let (job, actions) = run(begin(request).0, answers);
            &&& actions.last() == ActionView::Finish(
                success_of(request.clip.output_path, sizes[accepted as int]),
            )
            &&& job.awaiting == Awaiting::Nothing
            &&& job.phase == crate::job::Phase::Completed
        }),
{
    let target = request.target_bytes as nat;
    if exists|i: int| 0 <= i < sizes.len() && fits_budget(sizes[i] as nat, target) {
        let chosen = choose|i: int| first_fit(sizes, target, i);
        let witness = choose|i: int| 0 <= i < sizes.len() && fits_budget(sizes[i] as nat, target);
        lemma_first_fit_exists(sizes, target, witness);
        assert(first_fit(sizes, target, accepted as int));
    } else {
        assert(accepted == sizes.len() - 1);
    }
    lemma_tiers_run(request, info, sizes, accepted);
    let start = begin(request).0;
    let answers = tiered_answers(info, sizes, accepted + 1);
    let closing = run(start, answers).0;
    assert(at_closing(request, closing, sizes[accepted as int]));
    lemma_run_push(start, answers, EventView::Done);
    assert(closing.pending.drop_first() =~= Seq::<ActionView>::empty());
}

/// Where some output fits the budget, some output is the first to fit.
proof fn lemma_first_fit_exists(sizes: Seq<u64>, target: nat, witness: int)
    requires
        0 <= witness < sizes.len(),
        fits_budget(sizes[witness] as nat, target),
    ensures
        exists|i: int| first_fit(sizes, target, i),
    decreases witness,
{
    if forall|j: int| 0 <= j < witness ==> !fits_budget(#[trigger] sizes[j] as nat, target) {
        assert(first_fit(sizes, target, witness));
    } else {
        let earlier = choose|j: int| 0 <= j < witness && fits_budget(#[trigger] sizes[j] as nat, target);
        lemma_first_fit_exists(sizes, target, earlier);
    }
}

/// The answer to `action` when all goes well: a run of the encoder
/// succeeds, the measuring finds `size` bytes, and everything else is
/// simply done.
pub open spec fn good_answer(action: ActionView, size: u64) -> EventView {
    match action {
        ActionView::Encode { .. } => EventView::Encoded(Ok(())),
        ActionView::Measure => EventView::Measured(size),
        _ => EventView::Done,
    }
}

/// The answers `before`, and then the answers to the first `count` actions
/// of `script` when all goes well.
pub open spec fn answered(before: Seq<EventView>, script: Seq<ActionView>, size: u64, count: nat) -> Seq<
    EventView,
>
    decreases count,
{
    if count == 0 {
        before
    } else {
        answered(before, script, size, (count - 1) as nat).push(
            good_answer(script[count - 1], size),
        )
    }
}

/// The sidecar that the runs of a job are given: the one that was written,
/// where chapters are due.
pub open spec fn sidecar_given(request: RequestView, path: Seq<char>) -> Option<Seq<char>> {
    if chapter_markers(request).len() > 0 {
        Some(path)
    } else {
        None
    }
}

/// The answers up to the start of the runs of a job that is encoded at a
/// bitrate, when all goes well: the first report is done, the prober has
/// found `info`, the hardware is known, and the sidecar, where chapters are
/// due, is written to `path`.
pub open spec fn opening_answers(request: RequestView, info: VideoInfo, hardware: bool, path: Seq<char>) -> Seq<
    EventView,
> {
    let asked = Seq::<EventView>::empty().push(EventView::Done).push(EventView::Probed(Ok(info))).push(
        EventView::Capability(hardware),
    );
    if chapter_markers(request).len() > 0 {
        asked.push(EventView::SidecarWritten(Ok(path)))
    } else {
        asked
    }
}

/// The job stands in `script` at position `at`, with the plan `plan`.
spec fn at_script(
    request: RequestView,
    plan: EncodePlan,
    job: JobView,
    script: Seq<ActionView>,
    at: int,
) -> bool {
    &&& job.request == request
    &&& job.plan == Some(plan)
    &&& 0 <= at < script.len()
    &&& job.pending == script.skip(at + 1)
    &&& job.awaiting == awaited_after(script[at])
}

/// When all goes well, the job reaches the start of its runs.
proof fn lemma_opening(request: RequestView, info: VideoInfo, hardware: bool, path: Seq<char>)
    requires
        capability_for(request.kind) is Some,
    ensures
        at_script(
            request,
            plan_for(request, info, hardware),
            run(begin(request).0, opening_answers(request, info, hardware, path)).0,
            video_script(
                request,
                plan_for(request, info, hardware),
                sidecar_given(request, path),
            ),
            0,
        ),
{
    let start = begin(request).0;
    let plan = plan_for(request, info, hardware);
    let script = video_script(request, plan, sidecar_given(request, path));
    lemma_script_shape(request, plan, sidecar_given(request, path));
    let first = seq![report_of(request.id, 0, Status::Analyzing), ActionView::Probe];
    assert(first.drop_first() =~= seq![ActionView::Probe]);
    let e0 = Seq::<EventView>::empty();
    let e1 = e0.push(EventView::Done);
    let e2 = e1.push(EventView::Probed(Ok(info)));
    let e3 = e2.push(EventView::Capability(hardware));
    lemma_run_push(start, e0, EventView::Done);
    lemma_run_push(start, e1, EventView::Probed(Ok(info)));
    lemma_run_push(start, e2, EventView::Capability(hardware));
    let j1 = run(start, e1).0;
    assert(start.pending.drop_first() =~= Seq::<ActionView>::empty());
    assert(j1.awaiting == Awaiting::Probed);
    let j2 = run(start, e2).0;
    let query = seq![ActionView::QueryCapability(capability_for(request.kind)->0)];
    assert(query.drop_first() =~= Seq::<ActionView>::empty());
    assert(j2.awaiting == Awaiting::Capability);
    assert(j2.info == Some(info));
    let j3 = run(start, e3).0;
    assert(plan.strategy != Strategy::Tiered);
    assert(script.drop_first() =~= script.skip(1));
    if chapter_markers(request).len() > 0 {
        let write = seq![
            ActionView::WriteSidecar {
                file_name: crate::job::sidecar_name(request.id),
                content: crate::chapters::chapter_metadata(
                    chapter_markers(request),
                    plan.duration as nat,
                ),
            },
        ];
        assert(write.drop_first() =~= Seq::<ActionView>::empty());
        assert(j3.awaiting == Awaiting::SidecarWritten);
        assert(j3.plan == Some(plan));
        lemma_run_push(start, e3, EventView::SidecarWritten(Ok(path)));
    }
}

/// When all goes well, the job goes through its script action by action.
proof fn lemma_script_runs(
    request: RequestView,
    plan: EncodePlan,
    sidecar: Option<Seq<char>>,
    start: JobView,
    before: Seq<EventView>,
    size: u64,
    count: nat,
)
    requires
        plan.strategy != Strategy::Tiered,
        count < video_script(request, plan, sidecar).len(),
        at_script(request, plan, run(start, before).0, video_script(request, plan, sidecar), 0),
    ensures
        at_script(
            request,
            plan,
            run(start, answered(before, video_script(request, plan, sidecar), size, count)).0,
            video_script(request, plan, sidecar),
            count as int,
        ),
    decreases count,
{
    let script = video_script(request, plan, sidecar);
    if count > 0 {
        lemma_script_runs(request, plan, sidecar, start, before, size, (count - 1) as nat);
        lemma_script_shape(request, plan, sidecar);
        let earlier = answered(before, script, size, (count - 1) as nat);
        let job = run(start, earlier).0;
        let answer = good_answer(script[count - 1], size);
        lemma_run_push(start, earlier, answer);
        assert(awaited_after(script[count - 1]) == Awaiting::Done || awaited_after(
            script[count - 1],
        ) == Awaiting::Encoded);
        assert(job.pending[0] == script[count as int]);
        assert(job.pending.drop_first() =~= script.skip(count as int + 1));
    }
}

/// A job that is encoded at a bitrate and meets no failure ends with a
/// successful result: where the prober finds `info`, the sidecar, if
/// chapters are due, is written to `path`, every run of the encoder
/// succeeds and the output measures `size` bytes, the last action of the
/// job hands out the output path and `size`, and the job is over.
pub proof fn lemma_video_job_succeeds(
    request: RequestView,
    info: VideoInfo,
    hardware: bool,
    path: Seq<char>,
    size: u64,
)
    requires
        capability_for(request.kind) is Some,
    ensures
        ({
            let plan = plan_for(request, info, hardware);
            let script = video_script(request, plan, sidecar_given(request, path));
            let answers = answered(
                opening_answers(request, info, hardware, path),
                script,
                size,
                script.len(),
            ).push(EventView::Done);
            let (job, actions) = run(begin(request).0, answers);
            &&& actions.last() == ActionView::Finish(success_of(request.clip.output_path, size))
            &&& job.awaiting == Awaiting::Nothing
            &&& job.phase == crate::job::Phase::Completed
            &&& job.plan == Some(plan)
        }),
{
    let start = begin(request).0;
    let plan = plan_for(request, info, hardware);
    let sidecar = sidecar_given(request, path);
    let script = video_script(request, plan, sidecar);
    let opening = opening_answers(request, info, hardware, path);
    lemma_opening(request, info, hardware, path);
    lemma_script_shape(request, plan, sidecar);
    let last = (script.len() - 1) as nat;
    lemma_script_runs(request, plan, sidecar, start, opening, size, last);
    let measuring = answered(opening, script, size, last);
    let job = run(start, measuring).0;
    assert(job.awaiting == Awaiting::Measured);
    lemma_run_push(start, measuring, EventView::Measured(size));
    let measured = answered(opening, script, size, script.len());
    assert(measured == measuring.push(EventView::Measured(size)));
    let closing = closing_script(request, size);
    assert(closing.drop_first() =~= seq![
        ActionView::Finish(success_of(request.clip.output_path, size)),
    ]);
    let closed = run(start, measured).0;
    assert(at_closing(request, closed, size));
    lemma_run_push(start, measured, EventView::Done);
    assert(closed.pending.drop_first() =~= Seq::<ActionView>::empty());
}

} // verus!
