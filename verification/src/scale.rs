//! The scale policy: sources larger than 1080p are brought down to it, and
//! every output has even dimensions.

use vstd::prelude::*;

verus! {

/// The tallest output, in pixels.
pub const MAX_HEIGHT: u32 = 1080;

/// The widest output of a source that is not too tall, in pixels.
pub const MAX_WIDTH: u32 = 1920;

/// What is done to the picture size of a source.
#[derive(Clone, Copy, Debug, PartialEq, Eq, Structural)]
pub enum ScalePolicy {
    /// The height becomes [`MAX_HEIGHT`]; the width follows, rounded to even.
    FitHeight,
    /// The width becomes [`MAX_WIDTH`]; the height follows, rounded to even.
    FitWidth,
    /// No resize: each dimension is only brought down to an even number.
    EvenOnly,
}

/// The policy for a source of `width` by `height` pixels.
pub open spec fn policy_for(width: nat, height: nat) -> ScalePolicy {
    if height > MAX_HEIGHT {
        ScalePolicy::FitHeight
    } else if width > MAX_WIDTH {
        ScalePolicy::FitWidth
    } else {
        ScalePolicy::EvenOnly
    }
}

/// `n` brought down to an even number.
pub open spec fn even_floor(n: nat) -> nat {
    (n - n % 2) as nat
}

/// The even number nearest to `num / den`; halfway cases go up.
pub open spec fn nearest_even(num: nat, den: nat) -> nat
    recommends
        den > 0,
{
    2 * ((num + den) / (2 * den)) as nat
}

/// The picture size that the policy gives a source of `width` by `height`.
pub open spec fn scaled_size(width: nat, height: nat) -> (nat, nat) {
    match policy_for(width, height) {
        ScalePolicy::FitHeight => (nearest_even(width * MAX_HEIGHT as nat, height), MAX_HEIGHT as nat),
        ScalePolicy::FitWidth => (MAX_WIDTH as nat, nearest_even(height * MAX_WIDTH as nat, width)),
        ScalePolicy::EvenOnly => (even_floor(width), even_floor(height)),
    }
}

/// A picture size that the policy leaves alone: within both limits and even
/// in both dimensions.
pub open spec fn conformant(width: nat, height: nat) -> bool {
    &&& width <= MAX_WIDTH
    &&& height <= MAX_HEIGHT
    &&& width % 2 == 0
    &&& height % 2 == 0
}

/// The filter text that makes the encoder apply `policy`.
pub open spec fn filter_text(policy: ScalePolicy) -> Seq<char> {
    match policy {
        ScalePolicy::FitHeight => "scale=-2:1080"@,
        ScalePolicy::FitWidth => "scale=1920:-2"@,
        ScalePolicy::EvenOnly => "scale=trunc(iw/2)*2:trunc(ih/2)*2"@,
    }
}

/// Chooses the policy for a source of `width` by `height` pixels.
pub fn scale_policy(width: u32, height: u32) -> (policy: ScalePolicy)
    ensures
        policy == policy_for(width as nat, height as nat),
{
    if height > MAX_HEIGHT {
        ScalePolicy::FitHeight
    } else if width > MAX_WIDTH {
        ScalePolicy::FitWidth
    } else {
        ScalePolicy::EvenOnly
    }
}

impl ScalePolicy {
    /// The encoder's filter for this policy.
    pub fn filter(&self) -> (r: &'static str)
        ensures
            r@ == filter_text(*self),
    {
        match self {
            ScalePolicy::FitHeight => "scale=-2:1080",
            ScalePolicy::FitWidth => "scale=1920:-2",
            ScalePolicy::EvenOnly => "scale=trunc(iw/2)*2:trunc(ih/2)*2",
        }
    }
}

/// The picture size of the output for a source of `width` by `height`.
pub fn scaled_dimensions(width: u32, height: u32) -> (size: (u64, u64))
    ensures
        (size.0 as nat, size.1 as nat) == scaled_size(width as nat, height as nat),
        size.0 % 2 == 0,
        size.1 % 2 == 0,
{
    let w = width as u64;
    let h = height as u64;
    let max_w = MAX_WIDTH as u64;
    let max_h = MAX_HEIGHT as u64;
    match scale_policy(width, height) {
        ScalePolicy::FitHeight => (2 * ((w * max_h + h) / (2 * h)), max_h),
        ScalePolicy::FitWidth => (max_w, 2 * ((h * max_w + w) / (2 * w))),
        ScalePolicy::EvenOnly => (w - w % 2, h - h % 2),
    }
}

/// A source within both limits is never resized: the policy only takes the
/// odd pixel off each dimension.
pub proof fn lemma_small_source_keeps_size(width: nat, height: nat)
    requires
        width <= MAX_WIDTH,
        height <= MAX_HEIGHT,
    ensures
        policy_for(width, height) == ScalePolicy::EvenOnly,
        scaled_size(width, height) == (even_floor(width), even_floor(height)),
        conformant(scaled_size(width, height).0, scaled_size(width, height).1),
{
}

/// The policy is idempotent on conformant sizes: applied to one, it gives
/// the same size back.
pub proof fn lemma_conformant_is_fixed(width: nat, height: nat)
    requires
        conformant(width, height),
    ensures
        scaled_size(width, height) == (width, height),
{
}

/// Applying the policy twice gives what applying it once gives, wherever
/// the first result is within both limits. (A source that is too tall and
/// more than 16:9 wide comes out wider than [`MAX_WIDTH`].)
pub proof fn lemma_scale_idempotent(width: nat, height: nat)
    requires
        scaled_size(width, height).0 <= MAX_WIDTH,
    ensures
        scaled_size(scaled_size(width, height).0, scaled_size(width, height).1) == scaled_size(
            width,
            height,
        ),
{
    let (w, h) = scaled_size(width, height);
    match policy_for(width, height) {
        ScalePolicy::FitHeight => {
            let half = (width * 1080 + height) / (2 * height);
            assert(w == 2 * half);
        },
        ScalePolicy::FitWidth => {
            lemma_fit_width_height(width, height);
        },
        ScalePolicy::EvenOnly => {},
    }
}

/// Fitting the width of a source that is not too tall never makes it taller
/// than it was.
pub proof fn lemma_fit_width_height(width: nat, height: nat)
    requires
        width > MAX_WIDTH,
        height <= MAX_HEIGHT,
    ensures
        nearest_even(height * MAX_WIDTH as nat, width) <= MAX_HEIGHT,
        nearest_even(height * MAX_WIDTH as nat, width) % 2 == 0,
{
    let q = (height * 1920 + width) / (2 * width);
    assert(q <= 540) by (nonlinear_arith)
        requires
            width > 1920,
            height <= 1080,
            q == (height * 1920 + width) / (2 * width),
    ;
}

} // verus!
