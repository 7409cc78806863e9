use size_transcode::bitrate::{plan_bitrate, BitratePlan, AUDIO_KBPS, MAX_VIDEO_KBPS, MIN_VIDEO_KBPS};

#[test]
fn bitrate_for_ten_megabytes_in_sixty_seconds() {
    // 10_000_000 bytes * 8 / 60 s = 1_333_333 bit/s; minus 128_000 audio.
    let plan = plan_bitrate(10_000_000, 60_000_000);
    assert_eq!(plan, BitratePlan { target_kbps: 1205, max_kbps: 1807, buffer_kbps: 2410 });
}

#[test]
fn bitrate_floor_for_tiny_budget() {
    let plan = plan_bitrate(1000, 3_600_000_000);
    assert_eq!(plan.target_kbps, MIN_VIDEO_KBPS);
    assert_eq!(plan.max_kbps, 150);
    assert_eq!(plan.buffer_kbps, 200);
}

#[test]
fn bitrate_floor_when_budget_is_below_audio() {
    // 8000 * 15 / 1_000_000 s = 120 kbit/s in total, less than the audio share.
    let plan = plan_bitrate(15_000, 1_000_000);
    assert_eq!(plan.target_kbps, 100);
}

#[test]
fn bitrate_just_above_floor() {
    // 229 kbit/s in total leaves 101 for video.
    let plan = plan_bitrate(229 * 125, 1_000_000);
    assert_eq!(plan.target_kbps, 101);
    assert!((plan.target_kbps + AUDIO_KBPS) * 1_000_000 <= 8000 * 229 * 125);
}

#[test]
fn bitrate_ceiling_for_huge_budget() {
    let plan = plan_bitrate(u64::MAX, 1);
    assert_eq!(plan.target_kbps, MAX_VIDEO_KBPS);
    assert_eq!(plan.max_kbps, MAX_VIDEO_KBPS * 3 / 2);
    assert_eq!(plan.buffer_kbps, MAX_VIDEO_KBPS * 2);
}

#[test]
fn bitrate_with_zero_duration() {
    assert_eq!(plan_bitrate(0, 0).target_kbps, MIN_VIDEO_KBPS);
    assert_eq!(plan_bitrate(1, 0).target_kbps, MAX_VIDEO_KBPS);
}

#[test]
fn bitrate_uses_the_trimmed_duration() {
    // The same budget over a tenth of the time buys ten times the total rate.
    let whole = plan_bitrate(5_000_000, 100_000_000);
    let trimmed = plan_bitrate(5_000_000, 10_000_000);
    assert_eq!(whole.target_kbps, 400 - 128);
    assert_eq!(trimmed.target_kbps, 4000 - 128);
}
