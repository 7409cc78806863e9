use size_transcode::scale::{scale_policy, scaled_dimensions, ScalePolicy};

#[test]
fn scale_tall_source_fits_height() {
    assert_eq!(scale_policy(3840, 2160), ScalePolicy::FitHeight);
    assert_eq!(ScalePolicy::FitHeight.filter(), "scale=-2:1080");
    assert_eq!(scaled_dimensions(3840, 2160), (1920, 1080));
}

#[test]
fn scale_wide_source_fits_width() {
    assert_eq!(scale_policy(2560, 1080), ScalePolicy::FitWidth);
    assert_eq!(ScalePolicy::FitWidth.filter(), "scale=1920:-2");
    assert_eq!(scaled_dimensions(2560, 1080), (1920, 810));
}

#[test]
fn scale_small_source_only_made_even() {
    assert_eq!(scale_policy(1279, 721), ScalePolicy::EvenOnly);
    assert_eq!(ScalePolicy::EvenOnly.filter(), "scale=trunc(iw/2)*2:trunc(ih/2)*2");
    assert_eq!(scaled_dimensions(1279, 721), (1278, 720));
}

#[test]
fn scale_height_is_tested_first() {
    assert_eq!(scale_policy(4000, 1200), ScalePolicy::FitHeight);
    assert_eq!(scale_policy(1920, 1081), ScalePolicy::FitHeight);
    assert_eq!(scale_policy(1921, 1080), ScalePolicy::FitWidth);
    assert_eq!(scale_policy(1920, 1080), ScalePolicy::EvenOnly);
}

#[test]
fn scale_is_idempotent_on_conformant_sizes() {
    for &(w, h) in &[(1920u32, 1080u32), (1280, 720), (2, 2), (0, 0), (640, 360)] {
        assert_eq!(scaled_dimensions(w, h), (w as u64, h as u64));
    }
    let once = scaled_dimensions(3840, 2160);
    assert_eq!(scaled_dimensions(once.0 as u32, once.1 as u32), once);
    let once = scaled_dimensions(1279, 721);
    assert_eq!(scaled_dimensions(once.0 as u32, once.1 as u32), once);
}

#[test]
fn scale_rounds_to_the_nearest_even_width() {
    // 1000 * 1080 / 1084 = 996.3: the nearest even number is 996.
    assert_eq!(scaled_dimensions(1000, 1084), (996, 1080));
    // 1001 * 1080 / 1082 = 999.1: the nearest even number is 1000.
    assert_eq!(scaled_dimensions(1001, 1082), (1000, 1080));
}
