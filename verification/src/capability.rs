//! Encoder capabilities: which hardware encoders the encoder binary offers.
//!
//! A capability is looked up in the binary's list of encoders once, and the
//! answer is kept for as long as the cache lives.

use crate::text::{contains_text, str_contains, str_views};
use vstd::prelude::*;

verus! {

/// A capability that a job may depend on.
#[derive(Clone, Copy, Debug, PartialEq, Eq, Structural)]
pub enum CapabilityKind {
    /// A hardware encoder for H.264.
    HardwareH264,
    /// A hardware encoder for HEVC.
    HardwareHevc,
}

/// The name by which the encoder binary lists the encoder of `kind`.
pub open spec fn encoder_name_of(kind: CapabilityKind) -> Seq<char> {
    match kind {
        CapabilityKind::HardwareH264 => "h264_nvenc"@,
        CapabilityKind::HardwareHevc => "hevc_nvenc"@,
    }
}

/// Whether a probe that ended with `listing` shows the capability. A probe
/// that could not run the binary has no listing and shows nothing.
pub open spec fn probe_shows(kind: CapabilityKind, listing: Option<Seq<char>>) -> bool {
    match listing {
        Some(text) => contains_text(text, encoder_name_of(kind)),
        None => false,
    }
}

impl CapabilityKind {
    /// The name by which the encoder binary lists this encoder.
    pub fn encoder_name(&self) -> (r: &'static str)
        ensures
            r@ == encoder_name_of(*self),
    {
        match self {
            CapabilityKind::HardwareH264 => "h264_nvenc",
            CapabilityKind::HardwareHevc => "hevc_nvenc",
        }
    }
}

/// The arguments that make the encoder binary list its encoders.
pub open spec fn probe_args_of() -> Seq<Seq<char>> {
    seq!["-hide_banner"@, "-encoders"@]
}

/// The arguments that make the encoder binary list its encoders.
pub fn probe_args() -> (args: Vec<&'static str>)
    ensures
        str_views(args@) == probe_args_of(),
{
    let args = vec!["-hide_banner", "-encoders"];
    assert(str_views(args@) =~= probe_args_of());
    args
}

/// Whether the encoder list `listing` names the encoder of `kind`.
pub fn listing_shows(kind: CapabilityKind, listing: &str) -> (r: bool)
    ensures
        r == probe_shows(kind, Some(listing@)),
{
    str_contains(listing, kind.encoder_name())
}

/// What is known of the capabilities: one slot per kind, empty until the
/// kind has been probed, and never changed once it is filled.
#[derive(Clone, Copy, Debug, PartialEq, Eq, Structural)]
pub struct CapabilityCache {
    h264: Option<bool>,
    hevc: Option<bool>,
}

/// What a query of the cache asks the caller to do.
#[derive(Clone, Copy, Debug, PartialEq, Eq, Structural)]
pub enum CapabilityStep {
    /// The answer is known; no probe is to be made.
    Known(bool),
    /// The kind was never probed: run the probe and record what it shows.
    Probe,
}

impl CapabilityCache {
    /// What the cache holds for `kind`.
    pub closed spec fn slot(&self, kind: CapabilityKind) -> Option<bool> {
        match kind {
            CapabilityKind::HardwareH264 => self.h264,
            CapabilityKind::HardwareHevc => self.hevc,
        }
    }

    /// The cache after `available` has been offered for `kind`: a filled
    /// slot keeps what it has.
    pub open spec fn with(&self, kind: CapabilityKind, available: bool) -> Option<bool> {
        match self.slot(kind) {
            Some(known) => Some(known),
            None => Some(available),
        }
    }

    /// A cache that knows nothing yet.
    pub fn new() -> (cache: Self)
        ensures
            forall|kind: CapabilityKind| cache.slot(kind) is None,
    {
        CapabilityCache { h264: None, hevc: None }
    }

    /// What the cache holds for `kind`.
    pub fn get(&self, kind: CapabilityKind) -> (r: Option<bool>)
        ensures
            r == self.slot(kind),
    {
        match kind {
            CapabilityKind::HardwareH264 => self.h264,
            CapabilityKind::HardwareHevc => self.hevc,
        }
    }

    /// Whether a probe is needed to answer for `kind`.
    pub fn query(&self, kind: CapabilityKind) -> (step: CapabilityStep)
        ensures
            step == match self.slot(kind) {
                Some(known) => CapabilityStep::Known(known),
                None => CapabilityStep::Probe,
            },
    {
        match self.get(kind) {
            Some(known) => CapabilityStep::Known(known),
            None => CapabilityStep::Probe,
        }
    }

    /// Offers `available` as the answer for `kind` and returns the answer
    /// that the cache holds from now on. Only an empty slot takes the
    /// offer; the other slot is not touched.
    pub fn set(&mut self, kind: CapabilityKind, available: bool) -> (r: bool)
        ensures
            final(self).slot(kind) == old(self).with(kind, available),
            final(self).slot(kind) == Some(r),
            forall|other: CapabilityKind| other != kind ==> final(self).slot(other) == old(self).slot(other),
    {
        match kind {
            CapabilityKind::HardwareH264 => {
                if self.h264.is_none() {
                    self.h264 = Some(available);
                }
            },
            CapabilityKind::HardwareHevc => {
                if self.hevc.is_none() {
                    self.hevc = Some(available);
                }
            },
        }
        match self.get(kind) {
            Some(known) => known,
            None => available,
        }
    }

    /// Records the outcome of a probe for `kind`: the list of encoders that
    /// the binary printed, or nothing where the binary could not be run.
    /// Returns the answer that the cache holds from now on.
    pub fn record_probe(&mut self, kind: CapabilityKind, listing: Option<&str>) -> (r: bool)
        ensures
            final(self).slot(kind) == old(self).with(
                kind,
                probe_shows(
                    kind,
                    match listing {
                        Some(text) => Some(text@),
                        None => None,
                    },
                ),
            ),
            final(self).slot(kind) == Some(r),
            forall|other: CapabilityKind| other != kind ==> final(self).slot(other) == old(self).slot(other),
    {
        let available = match listing {
            Some(text) => listing_shows(kind, text),
            None => false,
        };
        self.set(kind, available)
    }
}

/// Answers for `kind` from the cache alone where it can, and runs `probe`
/// where it cannot. `probe` stands for running the encoder binary with
/// [`probe_args`]: it gives the list that the binary printed, or nothing
/// where the binary could not be run.
pub fn capability_available<F: FnOnce() -> Option<String>>(
    cache: &mut CapabilityCache,
    kind: CapabilityKind,
    probe: F,
) -> (r: bool)
    requires
        probe.requires(()),
    ensures
        final(cache).slot(kind) == Some(r),
        old(cache).slot(kind) is Some ==> *final(cache) == *old(cache),
        old(cache).slot(kind) is None ==> exists|listing: Option<String>|
            probe.ensures((), listing) && r == probe_shows(
                kind,
                match listing {
                    Some(text) => Some(text@),
                    None => None,
                },
            ),
        forall|other: CapabilityKind| other != kind ==> final(cache).slot(other) == old(cache).slot(other),
{
    match cache.query(kind) {
        CapabilityStep::Known(known) => known,
        CapabilityStep::Probe => {
            let listing = probe();
            match &listing {
                Some(text) => cache.record_probe(kind, Some(text.as_str())),
                None => cache.record_probe(kind, None),
            }
        },
    }
}

/// Once a probe for a kind has been recorded, every later query for it is
/// answered from the cache: it asks for no probe, and whatever is offered
/// afterwards, the first answer stays.
pub proof fn lemma_probe_once(
    before: CapabilityCache,
    after: CapabilityCache,
    kind: CapabilityKind,
    first: bool,
    later: bool,
)
    requires
        after.slot(kind) == before.with(kind, first),
    ensures
        after.slot(kind) is Some,
        before.slot(kind) is None ==> after.slot(kind) == Some(first),
        before.slot(kind) is Some ==> after.slot(kind) == before.slot(kind),
        after.with(kind, later) == after.slot(kind),
{
}

} // verus!
