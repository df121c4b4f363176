//! Verified core of a small ambient-occlusion renderer.
//!
//! The image is shaded one scanline at a time: every pixel accumulates, over a
//! fixed grid of hemisphere samples per subsample, how many sample rays escaped
//! the scene unoccluded, and that integer count determines the grayscale pixel
//! exactly.  This crate holds the parts of the renderer whose behaviour is a
//! function of such plain values: occlusion counting, pixel quantization, and
//! the scanline scheduler that hands rows to a worker pool and reassembles the
//! image in row order.  The floating-point ray/scene geometry that produces
//! the counts lives outside, in the unverified shell around this library.

pub mod occlusion;
pub mod pixel;
pub mod scheduler;

use vstd::prelude::*;

verus! {

/// Width of the rendered image, in pixels.
pub const IMAGE_WIDTH: usize = 256;

/// Height of the rendered image, in scanlines.
pub const IMAGE_HEIGHT: usize = 256;

/// Subsamples per pixel dimension; each pixel accumulates
/// `NSUBSAMPLES * NSUBSAMPLES` jittered primary rays.
pub const NSUBSAMPLES: usize = 2;

/// Hemisphere sample grid dimension for the ambient-occlusion estimate;
/// each hit casts `NAO_SAMPLES * NAO_SAMPLES` secondary rays.
pub const NAO_SAMPLES: usize = 8;

} // verus!
