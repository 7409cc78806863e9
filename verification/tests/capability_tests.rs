use size_transcode::capability::{
    capability_available, listing_shows, probe_args, CapabilityCache, CapabilityKind, CapabilityStep,
};
use std::cell::Cell;

const LISTING: &str = "Encoders:\n V....D libx264              libx264 H.264\n V....D h264_nvenc           NVIDIA NVENC H.264 encoder (codec h264)\n V....D libx265              libx265 H.265 / HEVC\n";

#[test]
fn capability_listing_names_encoder() {
    assert!(listing_shows(CapabilityKind::HardwareH264, LISTING));
    assert!(!listing_shows(CapabilityKind::HardwareHevc, LISTING));
    assert!(listing_shows(CapabilityKind::HardwareHevc, "hevc_nvenc"));
    assert!(!listing_shows(CapabilityKind::HardwareHevc, "hevc_nven"));
    assert!(!listing_shows(CapabilityKind::HardwareH264, ""));
    assert!(!listing_shows(CapabilityKind::HardwareH264, "h264_\u{fffd}nvenc"));
}

#[test]
fn capability_encoder_names_and_probe_args() {
    assert_eq!(CapabilityKind::HardwareH264.encoder_name(), "h264_nvenc");
    assert_eq!(CapabilityKind::HardwareHevc.encoder_name(), "hevc_nvenc");
    assert_eq!(probe_args(), vec!["-hide_banner", "-encoders"]);
}

#[test]
fn capability_cache_starts_empty_and_asks_for_a_probe() {
    let cache = CapabilityCache::new();
    assert_eq!(cache.get(CapabilityKind::HardwareH264), None);
    assert_eq!(cache.get(CapabilityKind::HardwareHevc), None);
    assert_eq!(cache.query(CapabilityKind::HardwareH264), CapabilityStep::Probe);
}

#[test]
fn capability_cache_is_written_once_per_kind() {
    let mut cache = CapabilityCache::new();
    assert!(cache.record_probe(CapabilityKind::HardwareH264, Some(LISTING)));
    assert_eq!(cache.query(CapabilityKind::HardwareH264), CapabilityStep::Known(true));
    // A later probe that shows nothing does not change the answer.
    assert!(cache.record_probe(CapabilityKind::HardwareH264, None));
    assert!(cache.set(CapabilityKind::HardwareH264, false));
    assert_eq!(cache.get(CapabilityKind::HardwareH264), Some(true));
    // The other kind has its own slot.
    assert_eq!(cache.query(CapabilityKind::HardwareHevc), CapabilityStep::Probe);
    assert!(!cache.record_probe(CapabilityKind::HardwareHevc, Some(LISTING)));
    assert_eq!(cache.get(CapabilityKind::HardwareHevc), Some(false));
    assert_eq!(cache.get(CapabilityKind::HardwareH264), Some(true));
}

#[test]
fn capability_probe_that_could_not_run_means_unavailable() {
    let mut cache = CapabilityCache::new();
    assert!(!cache.record_probe(CapabilityKind::HardwareH264, None));
    assert_eq!(cache.query(CapabilityKind::HardwareH264), CapabilityStep::Known(false));
}

#[test]
fn capability_two_queries_probe_once() {
    let probes = Cell::new(0u32);
    let mut cache = CapabilityCache::new();
    let first = capability_available(&mut cache, CapabilityKind::HardwareH264, || {
        probes.set(probes.get() + 1);
        Some(LISTING.to_string())
    });
    let second = capability_available(&mut cache, CapabilityKind::HardwareH264, || {
        probes.set(probes.get() + 1);
        None
    });
    assert!(first);
    assert!(second);
    assert_eq!(probes.get(), 1);
    // The other kind is probed on its own.
    let hevc = capability_available(&mut cache, CapabilityKind::HardwareHevc, || {
        probes.set(probes.get() + 1);
        Some(LISTING.to_string())
    });
    assert!(!hevc);
    assert_eq!(probes.get(), 2);
}
