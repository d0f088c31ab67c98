//! Blend functions: how one layer's color is laid over the image below it.
//!
//! Opacity is a fixed-point fraction with sixteen fractional bits, so that
//! `OPACITY_ONE` stands for 1.0. A mask value is a fraction of 255. The two
//! multiply into the coverage `a` of a pixel, and every channel of the result
//! is `base * (1 - a) + color * a`, computed exactly and rounded to the
//! nearest storable value (halves round up).

use vstd::prelude::*;

verus! {

/// The opacity that stands for 1.0.
pub const OPACITY_ONE: u32 = 65536;

/// The denominator of a coverage: `OPACITY_ONE * 255`.
pub const COVERAGE_ONE: u64 = 16711680;

/// Numerator of the coverage of a pixel, over `COVERAGE_ONE`: opacity and mask
/// multiply.
pub open spec fn coverage(opacity: u32, mask: u8) -> int {
    opacity as int * mask as int
}

/// Numerator, over `COVERAGE_ONE`, of the exact value `base * (1 - a) + color * a`.
pub open spec fn mix_numerator(base: u8, color: u8, opacity: u32, mask: u8) -> int {
    base as int * (COVERAGE_ONE as int - coverage(opacity, mask)) + color as int * coverage(
        opacity,
        mask,
    )
}

/// One channel of the "normal" blend: the exact mix, rounded to the nearest
/// integer, halves up.
pub open spec fn blended_channel(base: u8, color: u8, opacity: u32, mask: u8) -> u8
    recommends
        opacity <= OPACITY_ONE,
{
    ((mix_numerator(base, color, opacity, mask) + COVERAGE_ONE as int / 2) / (
    COVERAGE_ONE as int)) as u8
}

/// The "normal" blend of a whole image. `color` and `base` hold four channels
/// per pixel, `mask` one value per pixel.
pub open spec fn blended(base: Seq<u8>, color: Seq<u8>, mask: Seq<u8>, opacity: u32) -> Seq<u8> {
    Seq::new(color.len(), |j: int| blended_channel(base[j], color[j], opacity, mask[j / 4]))
}

/// The fully transparent image of `len` bytes.
pub open spec fn transparent(len: nat) -> Seq<u8> {
    Seq::new(len, |j: int| 0u8)
}

/// The mix stays within the range of a channel, and the rounded value is the
/// integer nearest to the exact one.
pub proof fn lemma_blended_channel_nearest(base: u8, color: u8, opacity: u32, mask: u8)
    requires
        opacity <= OPACITY_ONE,
    ensures
        0 <= mix_numerator(base, color, opacity, mask) <= 255 * COVERAGE_ONE,
        ({
            let exact = mix_numerator(base, color, opacity, mask);
            let out = blended_channel(base, color, opacity, mask) as int;
            &&& out == (exact + COVERAGE_ONE / 2) / (COVERAGE_ONE as int)
            &&& 2 * (out * COVERAGE_ONE - exact) <= COVERAGE_ONE
            &&& 2 * (exact - out * COVERAGE_ONE) < COVERAGE_ONE
        }),
{
    let w = coverage(opacity, mask);
    let d = COVERAGE_ONE as int;
    assert(0 <= w <= d) by (nonlinear_arith)
        requires
            w == opacity as int * mask as int,
            0 <= opacity <= 65536,
            0 <= mask <= 255,
            d == 16711680,
    ;
    let exact = mix_numerator(base, color, opacity, mask);
    assert(0 <= exact <= 255 * d) by (nonlinear_arith)
        requires
            exact == base as int * (d - w) + color as int * w,
            0 <= w <= d,
            0 <= base <= 255,
            0 <= color <= 255,
    ;
    let q = (exact + d / 2) / d;
    assert(0 <= q <= 255 && q * d <= exact + d / 2 < q * d + d) by (nonlinear_arith)
        requires
            q == (exact + d / 2) / d,
            0 <= exact <= 255 * d,
            d == 16711680,
    ;
}

/// With no coverage the base shows through unchanged.
pub proof fn lemma_blended_channel_zero(base: u8, color: u8, opacity: u32, mask: u8)
    requires
        opacity == 0 || mask == 0,
    ensures
        blended_channel(base, color, opacity, mask) == base,
{
    let d = COVERAGE_ONE as int;
    assert(coverage(opacity, mask) == 0) by (nonlinear_arith)
        requires
            opacity == 0 || mask == 0,
    ;
    assert((base as int * d + d / 2) / d == base as int) by (nonlinear_arith)
        requires
            d == 16711680,
            0 <= base <= 255,
    ;
}

/// With full coverage the layer's color replaces the base.
pub proof fn lemma_blended_channel_full(base: u8, color: u8)
    ensures
        blended_channel(base, color, OPACITY_ONE, 255) == color,
{
    let d = COVERAGE_ONE as int;
    assert(coverage(OPACITY_ONE, 255) == d);
    assert((color as int * d + d / 2) / d == color as int) by (nonlinear_arith)
        requires
            d == 16711680,
            0 <= color <= 255,
    ;
}

/// A layer of opacity zero leaves the image below it as it is.
pub proof fn lemma_blended_opacity_zero(base: Seq<u8>, color: Seq<u8>, mask: Seq<u8>)
    requires
        base.len() == color.len(),
    ensures
        blended(base, color, mask, 0) == base,
{
    assert forall|j: int| 0 <= j < color.len() implies #[trigger] blended(base, color, mask, 0)[j]
        == base[j] by {
        lemma_blended_channel_zero(base[j], color[j], 0, mask[j / 4]);
    }
}

/// A layer of full opacity under a fully opaque mask shows its own color,
/// whatever lies below.
pub proof fn lemma_blended_opaque(base: Seq<u8>, color: Seq<u8>, mask: Seq<u8>)
    requires
        color.len() == 4 * mask.len(),
        forall|p: int| 0 <= p < mask.len() ==> mask[p] == 255,
    ensures
        blended(base, color, mask, OPACITY_ONE) == color,
{
    assert forall|j: int| 0 <= j < color.len() implies #[trigger] blended(
        base,
        color,
        mask,
        OPACITY_ONE,
    )[j] == color[j] by {
        lemma_blended_channel_full(base[j], color[j]);
    }
}

/// Blends one channel.
pub fn blend_channel(base: u8, color: u8, opacity: u32, mask: u8) -> (out: u8)
    requires
        opacity <= OPACITY_ONE,
    ensures
        out == blended_channel(base, color, opacity, mask),
{
    proof {
        lemma_blended_channel_nearest(base, color, opacity, mask);
        assert(0 <= opacity as int * mask as int <= 16711680) by (nonlinear_arith)
            requires
                0 <= opacity <= 65536,
                0 <= mask <= 255,
        ;
    }
    let w: u64 = (opacity as u64) * (mask as u64);
    proof {
        assert(base as int * (16711680 - w as int) <= 255 * 16711680) by (nonlinear_arith)
            requires
                0 <= base <= 255,
                0 <= w <= 16711680,
        ;
        assert(color as int * w as int <= 255 * 16711680) by (nonlinear_arith)
            requires
                0 <= color <= 255,
                0 <= w <= 16711680,
        ;
    }
    let exact: u64 = (base as u64) * (COVERAGE_ONE - w) + (color as u64) * w;
    let q: u64 = (exact + COVERAGE_ONE / 2) / COVERAGE_ONE;
    q as u8
}

/// Lays `color` over `base` with the "normal" blend. Without a base the
/// layer is laid over the fully transparent image.
pub fn blend_normal(base: Option<&Vec<u8>>, color: &Vec<u8>, mask: &Vec<u8>, opacity: u32) -> (out:
    Vec<u8>)
    requires
        opacity <= OPACITY_ONE,
        color.len() == 4 * mask.len(),
        base matches Some(b) ==> b.len() == color.len(),
    ensures
        out@ == blended(
            match base {
                Some(b) => b@,
                None => transparent(color@.len()),
            },
            color@,
            mask@,
            opacity,
        ),
{
    let ghost below = match base {
        Some(b) => b@,
        None => transparent(color@.len()),
    };
    let n = color.len();
    let mut out: Vec<u8> = Vec::with_capacity(n);
    let mut j: usize = 0;
    while j < n
        invariant
            n == color.len(),
            color.len() == 4 * mask.len(),
            opacity <= OPACITY_ONE,
            base matches Some(b) ==> b.len() == color.len(),
            below == match base {
                Some(b) => b@,
                None => transparent(color@.len()),
            },
            j <= n,
            out.len() == j,
            forall|k: int|
                0 <= k < j ==> out[k] == blended_channel(
                    below[k],
                    color[k],
                    opacity,
                    mask[k / 4],
                ),
        decreases n - j,
    {
        let under: u8 = match base {
            Some(b) => b[j],
            None => 0,
        };
        out.push(blend_channel(under, color[j], opacity, mask[j / 4]));
        j += 1;
    }
    out
}

/// The compositing functions that a blend-mode name can select.
#[derive(Clone, Copy, Debug, PartialEq, Eq)]
pub enum BlendFunction {
    /// Standard alpha-over, with the mask as a per-pixel multiplier on the
    /// opacity.
    Normal,
}

/// The function that a blend-mode name selects, if the name is known.
pub open spec fn resolved_blend_mode(name: Seq<char>) -> Option<BlendFunction> {
    if name == "normal"@ {
        Some(BlendFunction::Normal)
    } else {
        None
    }
}

/// What a blend function makes of a layer and the image below it.
pub open spec fn applied(
    function: BlendFunction,
    base: Seq<u8>,
    color: Seq<u8>,
    mask: Seq<u8>,
    opacity: u32,
) -> Seq<u8> {
    match function {
        BlendFunction::Normal => blended(base, color, mask, opacity),
    }
}

/// Looks a blend mode up by its name.
pub fn resolve_blend_mode(name: &str) -> (r: Option<BlendFunction>)
    ensures
        r == resolved_blend_mode(name@),
{
    if str_equal(name, "normal") {
        Some(BlendFunction::Normal)
    } else {
        None
    }
}

/// Whether two strings hold the same characters.
fn str_equal(a: &str, b: &str) -> (r: bool)
    ensures
        r == (a@ == b@),
{
    let left = a.to_owned();
    let right = b.to_owned();
    left == right
}

} // verus!
