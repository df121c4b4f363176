//! Pixels and the quantization of accumulated occlusion into channel values.
//!
//! Every ambient-occlusion estimate in this renderer is a ratio of two
//! integers: the number of unoccluded hemisphere sample rays over the number
//! cast (`NAO_SAMPLES * NAO_SAMPLES`).  A pixel accumulates one such estimate
//! per subsample, so the accumulated occlusion of a pixel is wholly described
//! by the total unoccluded-ray count across its subsamples, an integer in
//! `0 ..= TOTAL_SAMPLES`.  Because every divisor involved is a power of two,
//! the floating-point accumulation the renderer performs is exact, and the
//! final channel value is exactly `255 * total / TOTAL_SAMPLES`, rounded
//! toward zero and clamped to 255 — except that a pixel whose accumulated
//! occlusion is below the near-zero threshold (a total of zero unoccluded
//! rays) is pure black.

use vstd::prelude::*;

use crate::NAO_SAMPLES;
use crate::NSUBSAMPLES;

verus! {

/// Hemisphere sample rays cast per subsample.
pub const SAMPLES_PER_SUBSAMPLE: usize = NAO_SAMPLES * NAO_SAMPLES;

/// Largest possible unoccluded-ray total for one pixel: every sample ray of
/// every subsample escaped the scene.
pub const TOTAL_SAMPLES: usize = NSUBSAMPLES * NSUBSAMPLES * NAO_SAMPLES * NAO_SAMPLES;

/// One 8-bit RGB pixel.  Channel values are inherently confined to
/// `0 ..= 255` by the type.
#[derive(Clone, Copy, PartialEq, Eq, Structural, Debug)]
pub struct Pixel {
    pub r: u8,
    pub g: u8,
    pub b: u8,
}

impl Pixel {
    /// Builds a pixel from its three channel values.
    pub fn new(r: u8, g: u8, b: u8) -> (p: Pixel)
        ensures
            p.r == r,
            p.g == g,
            p.b == b,
    {
        Pixel { r, g, b }
    }
}

/// The channel value a pixel with unoccluded-ray total `unocc` quantizes to:
/// zero when the accumulated occlusion is below the near-zero threshold
/// (that is, when no sample ray escaped at all), otherwise
/// `255 * unocc / TOTAL_SAMPLES` rounded toward zero and clamped to 255.
pub open spec fn channel_level(unocc: nat) -> nat {
    if unocc == 0 {
        0
    } else if 255 * unocc / (TOTAL_SAMPLES as nat) > 255 {
        255
    } else {
        255 * unocc / (TOTAL_SAMPLES as nat)
    }
}

/// Quantizes an unoccluded-ray total into one grayscale channel value.
pub fn pixel_value(unocc: usize) -> (v: u8)
    requires
        unocc <= TOTAL_SAMPLES,
    ensures
        v as nat == channel_level(unocc as nat),
{
    if unocc == 0 {
        0
    } else {
        let scaled: usize = 255 * unocc / TOTAL_SAMPLES;
        if scaled > 255 {
            255
        } else {
            scaled as u8
        }
    }
}

/// Shades one pixel from its unoccluded-ray total: the quantized channel
/// value replicated into R, G and B (grayscale output).  A pixel whose
/// accumulated occlusion is below the near-zero threshold — a total of zero —
/// is exactly (0, 0, 0).
pub fn shade(unocc: usize) -> (p: Pixel)
    requires
        unocc <= TOTAL_SAMPLES,
    ensures
        p.r as nat == channel_level(unocc as nat),
        p.g as nat == channel_level(unocc as nat),
        p.b as nat == channel_level(unocc as nat),
        unocc == 0 ==> p == (Pixel { r: 0, g: 0, b: 0 }),
{
    let v = pixel_value(unocc);
    Pixel::new(v, v, v)
}

/// Sum of the per-subsample unoccluded-ray counts of one pixel.
pub open spec fn total_unoccluded(counts: Seq<usize>) -> nat
    decreases counts.len(),
{
    if counts.len() == 0 {
        0
    } else {
        total_unoccluded(counts.drop_last()) + counts.last() as nat
    }
}

/// Shades one pixel from its per-subsample unoccluded-ray counts, one count
/// per jittered primary ray (a primary ray that missed the scene contributes
/// a count of zero).
pub fn shade_from_subsamples(counts: &Vec<usize>) -> (p: Pixel)
    requires
        counts.len() == NSUBSAMPLES * NSUBSAMPLES,
        forall|k: int| 0 <= k < counts.len() ==> #[trigger] counts[k] <= SAMPLES_PER_SUBSAMPLE,
    ensures
        p.r as nat == channel_level(total_unoccluded(counts@)),
        p.g == p.r,
        p.b == p.r,
        total_unoccluded(counts@) == 0 ==> p == (Pixel { r: 0, g: 0, b: 0 }),
{
    let mut total: usize = 0;
    let mut k: usize = 0;
    while k < counts.len()
        invariant
            k <= counts.len(),
            counts.len() == NSUBSAMPLES * NSUBSAMPLES,
            forall|j: int| 0 <= j < counts.len() ==> #[trigger] counts[j] <= SAMPLES_PER_SUBSAMPLE,
            total == total_unoccluded(counts@.subrange(0, k as int)),
            total <= k * SAMPLES_PER_SUBSAMPLE,
        decreases counts.len() - k,
    {
        proof {
            assert(total + counts[k as int] <= (k + 1) * SAMPLES_PER_SUBSAMPLE) by (nonlinear_arith)
                requires
                    total <= k * SAMPLES_PER_SUBSAMPLE,
                    counts[k as int] <= SAMPLES_PER_SUBSAMPLE,
            ;
            assert((k + 1) * SAMPLES_PER_SUBSAMPLE <= TOTAL_SAMPLES) by (nonlinear_arith)
                requires
                    k + 1 <= NSUBSAMPLES * NSUBSAMPLES,
                    SAMPLES_PER_SUBSAMPLE == NAO_SAMPLES * NAO_SAMPLES,
                    TOTAL_SAMPLES == NSUBSAMPLES * NSUBSAMPLES * NAO_SAMPLES * NAO_SAMPLES,
            ;
        }
        total = total + counts[k];
        proof {
            assert(counts@.subrange(0, k + 1).drop_last() =~= counts@.subrange(0, k as int));
        }
        k = k + 1;
    }
    proof {
        assert(counts@.subrange(0, counts@.len() as int) =~= counts@);
    }
    shade(total)
}

/// Shades one scanline: element `x` of `line` is the shading of the
/// per-subsample unoccluded-ray counts in element `x` of `pixels`.
pub fn shade_line(pixels: &Vec<Vec<usize>>) -> (line: Vec<Pixel>)
    requires
        forall|x: int| 0 <= x < pixels.len() ==> (#[trigger] pixels[x])@.len() == NSUBSAMPLES
            * NSUBSAMPLES,
        forall|x: int, k: int|
            0 <= x < pixels.len() && 0 <= k < pixels[x]@.len() ==> (#[trigger] pixels[x]@[k])
                <= SAMPLES_PER_SUBSAMPLE,
    ensures
        line.len() == pixels.len(),
        forall|x: int|
            0 <= x < pixels.len() ==> (#[trigger] line[x]).r as nat == channel_level(
                total_unoccluded(pixels[x]@),
            ) && line[x].g == line[x].r && line[x].b == line[x].r,
{
    let mut line: Vec<Pixel> = Vec::new();
    let mut x: usize = 0;
    while x < pixels.len()
        invariant
            x <= pixels.len(),
            line.len() == x,
            forall|j: int| 0 <= j < pixels.len() ==> (#[trigger] pixels[j])@.len() == NSUBSAMPLES
                * NSUBSAMPLES,
            forall|j: int, k: int|
                0 <= j < pixels.len() && 0 <= k < pixels[j]@.len() ==> (#[trigger] pixels[j]@[k])
                    <= SAMPLES_PER_SUBSAMPLE,
            forall|j: int|
                0 <= j < x ==> (#[trigger] line[j]).r as nat == channel_level(
                    total_unoccluded(pixels[j]@),
                ) && line[j].g == line[j].r && line[j].b == line[j].r,
        decreases pixels.len() - x,
    {
        let p = shade_from_subsamples(&pixels[x]);
        line.push(p);
        x = x + 1;
    }
    line
}

} // verus!
