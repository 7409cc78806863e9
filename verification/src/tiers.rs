//! Quality tiers for the formats whose size cannot be asked for directly:
//! the encoder is run at one tier after the other, from the best on down,
//! until the output fits the byte budget.

use vstd::prelude::*;

verus! {

/// One setting of the encoder for an animated image.
#[derive(Clone, Copy, Debug, PartialEq, Eq, Structural)]
pub struct Tier {
    /// The longest side of the picture, in pixels.
    pub max_dimension: u32,
    /// Frames per second.
    pub fps: u32,
    /// The quality asked of the codec, where the codec takes one.
    pub quality: Option<u32>,
}

/// A tier with a quality.
pub open spec fn tier_with_quality(max_dimension: u32, fps: u32, quality: u32) -> Tier {
    Tier { max_dimension, fps, quality: Some(quality) }
}

/// A tier without a quality.
pub open spec fn tier_plain(max_dimension: u32, fps: u32) -> Tier {
    Tier { max_dimension, fps, quality: None }
}

/// The tiers of animated WebP, best first.
pub open spec fn webp_tier_table() -> Seq<Tier> {
    seq![
        tier_with_quality(600, 30, 70),
        tier_with_quality(600, 24, 65),
        tier_with_quality(500, 20, 60),
        tier_with_quality(400, 20, 55),
        tier_with_quality(350, 20, 50),
        tier_with_quality(300, 20, 45),
    ]
}

/// The tiers of animated GIF, best first.
pub open spec fn gif_tier_table() -> Seq<Tier> {
    seq![
        tier_plain(480, 15),
        tier_plain(400, 12),
        tier_plain(320, 10),
        tier_plain(280, 10),
        tier_plain(240, 8),
        tier_plain(200, 8),
    ]
}

/// Whether `lower` asks for less than `higher`: in no respect more, and in
/// at least one respect less.
pub open spec fn tier_below(lower: Tier, higher: Tier) -> bool {
    &&& lower.max_dimension <= higher.max_dimension
    &&& lower.fps <= higher.fps
    &&& match (lower.quality, higher.quality) {
        (Some(l), Some(h)) => l <= h,
        (None, None) => true,
        _ => false,
    }
    &&& lower != higher
}

/// Whether each tier of `tiers` asks for less than the one before it.
pub open spec fn tiers_descend(tiers: Seq<Tier>) -> bool {
    forall|i: int| 0 <= i && i + 1 < tiers.len() ==> tier_below(#[trigger] tiers[i + 1], tiers[i])
}

/// Both tables run from the best tier down, which is what stopping at the
/// first fit relies on.
pub proof fn lemma_tier_tables_descend()
    ensures
        webp_tier_table().len() == 6,
        gif_tier_table().len() == 6,
        tiers_descend(webp_tier_table()),
        tiers_descend(gif_tier_table()),
{
    let w = webp_tier_table();
    assert forall|i: int| 0 <= i && i + 1 < w.len() implies tier_below(#[trigger] w[i + 1], w[i]) by {
        if i == 0 {
        } else if i == 1 {
        } else if i == 2 {
        } else if i == 3 {
        } else {
        }
    }
    let g = gif_tier_table();
    assert forall|i: int| 0 <= i && i + 1 < g.len() implies tier_below(#[trigger] g[i + 1], g[i]) by {
        if i == 0 {
        } else if i == 1 {
        } else if i == 2 {
        } else if i == 3 {
        } else {
        }
    }
}

/// The tiers of animated WebP, best first.
pub fn webp_tiers() -> (tiers: Vec<Tier>)
    ensures
        tiers@ == webp_tier_table(),
{
    let mut tiers: Vec<Tier> = Vec::new();
    tiers.push(Tier { max_dimension: 600, fps: 30, quality: Some(70) });
    tiers.push(Tier { max_dimension: 600, fps: 24, quality: Some(65) });
    tiers.push(Tier { max_dimension: 500, fps: 20, quality: Some(60) });
    tiers.push(Tier { max_dimension: 400, fps: 20, quality: Some(55) });
    tiers.push(Tier { max_dimension: 350, fps: 20, quality: Some(50) });
    tiers.push(Tier { max_dimension: 300, fps: 20, quality: Some(45) });
    assert(tiers@ =~= webp_tier_table());
    tiers
}

/// The tiers of animated GIF, best first.
pub fn gif_tiers() -> (tiers: Vec<Tier>)
    ensures
        tiers@ == gif_tier_table(),
{
    let mut tiers: Vec<Tier> = Vec::new();
    tiers.push(Tier { max_dimension: 480, fps: 15, quality: None });
    tiers.push(Tier { max_dimension: 400, fps: 12, quality: None });
    tiers.push(Tier { max_dimension: 320, fps: 10, quality: None });
    tiers.push(Tier { max_dimension: 280, fps: 10, quality: None });
    tiers.push(Tier { max_dimension: 240, fps: 8, quality: None });
    tiers.push(Tier { max_dimension: 200, fps: 8, quality: None });
    assert(tiers@ =~= gif_tier_table());
    tiers
}

/// Whether an output of `size` bytes is accepted for a budget of `target`
/// bytes: it may be over the budget by a tenth.
pub open spec fn fits_budget(size: nat, target: nat) -> bool {
    10 * size <= 11 * target
}

/// Whether an output of `size` bytes is accepted for a budget of `target`
/// bytes.
pub fn within_budget(size: u64, target: u64) -> (r: bool)
    ensures
        r == fits_budget(size as nat, target as nat),
{
    10 * (size as u128) <= 11 * (target as u128)
}

/// What follows the run of one tier.
#[derive(Clone, Copy, Debug, PartialEq, Eq, Structural)]
pub enum TierDecision {
    /// The output of this tier is the result of the job.
    Accept,
    /// The output is too large: the tier with this index is run next.
    Retry(usize),
}

/// What follows the run of the tier at `index`, of `count` tiers, that
/// wrote `size` bytes: the output is accepted where it fits the budget and
/// where no tier is left, and the next tier is run otherwise.
pub open spec fn decision_after(index: nat, count: nat, size: nat, target: nat) -> TierDecision {
    if fits_budget(size, target) || index + 1 >= count {
        TierDecision::Accept
    } else {
        TierDecision::Retry((index + 1) as usize)
    }
}

/// Decides what follows the run of one tier; see [`decision_after`].
pub fn after_tier(index: usize, count: usize, size: u64, target: u64) -> (d: TierDecision)
    requires
        index < count,
    ensures
        d == decision_after(index as nat, count as nat, size as nat, target as nat),
{
    if within_budget(size, target) || index + 1 >= count {
        TierDecision::Accept
    } else {
        TierDecision::Retry(index + 1)
    }
}

/// The tier whose output a job ends with, where tier `i` writes `sizes[i]`
/// bytes: the first one that fits the budget, or the last one where none
/// fits. Only a job without tiers ends with none.
pub open spec fn accepted_tier(sizes: Seq<u64>, target: nat) -> Option<int> {
    if sizes.len() == 0 {
        None
    } else if exists|i: int| 0 <= i < sizes.len() && fits_budget(sizes[i] as nat, target) {
        Some(choose|i: int| first_fit(sizes, target, i))
    } else {
        Some(sizes.len() - 1)
    }
}

/// Whether `i` is the first tier whose output fits the budget.
pub open spec fn first_fit(sizes: Seq<u64>, target: nat, i: int) -> bool {
    &&& 0 <= i < sizes.len()
    &&& fits_budget(sizes[i] as nat, target)
    &&& forall|j: int| 0 <= j < i ==> !fits_budget(#[trigger] sizes[j] as nat, target)
}

/// There is at most one first fit.
pub proof fn lemma_first_fit_unique(sizes: Seq<u64>, target: nat, a: int, b: int)
    requires
        first_fit(sizes, target, a),
        first_fit(sizes, target, b),
    ensures
        a == b,
{
    if a < b {
        assert(!fits_budget(sizes[a] as nat, target));
    } else if b < a {
        assert(!fits_budget(sizes[b] as nat, target));
    }
}

/// Runs the tiers in order against outputs of known sizes, `sizes[i]` for
/// tier `i`, and tells at which tier the job ends and with how many bytes.
pub fn select_tier(sizes: &Vec<u64>, target: u64) -> (r: Option<(usize, u64)>)
    ensures
        match r {
            Some((index, size)) => {
                &&& accepted_tier(sizes@, target as nat) == Some(index as int)
                &&& index < sizes.len()
                &&& size == sizes[index as int]
                &&& first_fit(sizes@, target as nat, index as int) || (index == sizes.len() - 1
                    && forall|j: int|
                    0 <= j < sizes.len() ==> !fits_budget(#[trigger] sizes[j] as nat, target as nat))
            },
            None => sizes.len() == 0 && accepted_tier(sizes@, target as nat) is None,
        },
{
    if sizes.len() == 0 {
        return None;
    }
    let count = sizes.len();
    let mut index: usize = 0;
    loop
        invariant
            index < count,
            count == sizes.len(),
            forall|j: int| 0 <= j < index ==> !fits_budget(#[trigger] sizes[j] as nat, target as nat),
        decreases count - index,
    {
        let size = sizes[index];
        match after_tier(index, count, size, target) {
            TierDecision::Accept => {
                proof {
                    if fits_budget(size as nat, target as nat) {
                        assert(first_fit(sizes@, target as nat, index as int));
                        let chosen = choose|i: int| first_fit(sizes@, target as nat, i);
                        lemma_first_fit_unique(sizes@, target as nat, chosen, index as int);
                    }
                }
                return Some((index, size));
            },
            TierDecision::Retry(next) => {
                index = next;
            },
        }
    }
}

} // verus!
