//! The bitrate planner: from a byte budget and a duration to the video
//! bitrate that the encoder is asked for.

use vstd::prelude::*;

verus! {

/// Kilobits per second set aside for the audio track.
pub const AUDIO_KBPS: u64 = 128;

/// The lowest video bitrate that is ever planned, in kilobits per second.
pub const MIN_VIDEO_KBPS: u64 = 100;

/// The highest video bitrate that is ever planned, in kilobits per second.
pub const MAX_VIDEO_KBPS: u64 = 0xffff_ffff;

/// Rate-control parameters of one job, all in kilobits per second.
#[derive(Clone, Copy, Debug, PartialEq, Eq, Structural)]
pub struct BitratePlan {
    /// The average video bitrate.
    pub target_kbps: u64,
    /// The ceiling of the instantaneous bitrate: one and a half times the target.
    pub max_kbps: u64,
    /// The rate-control buffer: twice the target.
    pub buffer_kbps: u64,
}

/// The whole budget as a bitrate: `target_bytes` spread over `duration_us`
/// microseconds, in kilobits per second, rounded down.
pub open spec fn total_kbps(target_bytes: nat, duration_us: nat) -> nat
    recommends
        duration_us > 0,
{
    (target_bytes * 8000 / duration_us) as nat
}

/// The video share of the budget: what is left after the audio allocation,
/// but never under [`MIN_VIDEO_KBPS`] nor over [`MAX_VIDEO_KBPS`].
///
/// A duration of zero stands for an unbounded rate: the floor when there is
/// nothing to spend, the ceiling otherwise.
pub open spec fn video_kbps(target_bytes: nat, duration_us: nat) -> nat {
    if duration_us == 0 {
        if target_bytes == 0 {
            MIN_VIDEO_KBPS as nat
        } else {
            MAX_VIDEO_KBPS as nat
        }
    } else {
        let total = total_kbps(target_bytes, duration_us);
        if total < AUDIO_KBPS + MIN_VIDEO_KBPS {
            MIN_VIDEO_KBPS as nat
        } else if total - AUDIO_KBPS > MAX_VIDEO_KBPS {
            MAX_VIDEO_KBPS as nat
        } else {
            (total - AUDIO_KBPS) as nat
        }
    }
}

/// The plan that belongs to a video bitrate.
pub open spec fn plan_of(video: nat) -> BitratePlan {
    BitratePlan {
        target_kbps: video as u64,
        max_kbps: (video * 3 / 2) as u64,
        buffer_kbps: (video * 2) as u64,
    }
}

/// The planned video bitrate never falls under the floor, and wherever the
/// budget covers the floor and the audio allocation, video and audio together
/// stay within the budget: `(video + audio) * duration <= 8000 * bytes`, both
/// sides in kilobits per second times microseconds.
pub proof fn lemma_video_bitrate_within_budget(target_bytes: nat, duration_us: nat)
    requires
        duration_us > 0,
    ensures
        video_kbps(target_bytes, duration_us) >= MIN_VIDEO_KBPS,
        8000 * target_bytes >= (AUDIO_KBPS + MIN_VIDEO_KBPS) * duration_us ==> (video_kbps(
            target_bytes,
            duration_us,
        ) + AUDIO_KBPS) * duration_us <= 8000 * target_bytes,
        8000 * target_bytes >= (AUDIO_KBPS + MIN_VIDEO_KBPS) * duration_us ==> video_kbps(
            target_bytes,
            duration_us,
        ) + AUDIO_KBPS <= total_kbps(target_bytes, duration_us),
{
    let budget = target_bytes * 8000;
    let total = total_kbps(target_bytes, duration_us);
    assert(total * duration_us <= budget) by (nonlinear_arith)
        requires
            duration_us > 0,
            total == budget / duration_us,
    ;
    if 8000 * target_bytes >= (AUDIO_KBPS + MIN_VIDEO_KBPS) * duration_us {
        assert(total >= 228) by (nonlinear_arith)
            requires
                duration_us > 0,
                total == budget / duration_us,
                budget >= 228 * duration_us,
        ;
        let video = video_kbps(target_bytes, duration_us);
        assert(video + 128 <= total);
        assert((video + 128) * duration_us <= total * duration_us) by (nonlinear_arith)
            requires
                video + 128 <= total,
        ;
    }
}

/// Plans the video bitrate of a job that must fit `target_bytes` into
/// `duration_us` microseconds of output.
pub fn plan_bitrate(target_bytes: u64, duration_us: u64) -> (plan: BitratePlan)
    ensures
        plan == plan_of(video_kbps(target_bytes as nat, duration_us as nat)),
        MIN_VIDEO_KBPS <= plan.target_kbps <= MAX_VIDEO_KBPS,
        plan.max_kbps == plan.target_kbps * 3 / 2,
        plan.buffer_kbps == plan.target_kbps * 2,
        duration_us > 0 && 8000 * target_bytes >= (AUDIO_KBPS + MIN_VIDEO_KBPS) * duration_us ==> (
        plan.target_kbps + AUDIO_KBPS) * duration_us <= 8000 * target_bytes,
{
    proof {
        if duration_us > 0 {
            lemma_video_bitrate_within_budget(target_bytes as nat, duration_us as nat);
        }
    }
    let video: u64 = if duration_us == 0 {
        if target_bytes == 0 {
            MIN_VIDEO_KBPS
        } else {
            MAX_VIDEO_KBPS
        }
    } else {
        let total: u128 = (target_bytes as u128) * 8000 / (duration_us as u128);
        if total < (AUDIO_KBPS + MIN_VIDEO_KBPS) as u128 {
            MIN_VIDEO_KBPS
        } else if total - (AUDIO_KBPS as u128) > MAX_VIDEO_KBPS as u128 {
            MAX_VIDEO_KBPS
        } else {
            (total - AUDIO_KBPS as u128) as u64
        }
    };
    BitratePlan { target_kbps: video, max_kbps: video * 3 / 2, buffer_kbps: video * 2 }
}

} // verus!
