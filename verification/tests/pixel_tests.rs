use aobench::pixel::Pixel;
use aobench::pixel::SAMPLES_PER_SUBSAMPLE;
use aobench::pixel::TOTAL_SAMPLES;
use aobench::pixel::pixel_value;
use aobench::pixel::shade;
use aobench::pixel::shade_from_subsamples;
use aobench::pixel::shade_line;

#[test]
fn new_keeps_channels() {
    let p = Pixel::new(3, 5, 7);
    assert_eq!(p.r, 3);
    assert_eq!(p.g, 5);
    assert_eq!(p.b, 7);
}

#[test]
fn sample_grid_constants() {
    assert_eq!(SAMPLES_PER_SUBSAMPLE, 64);
    assert_eq!(TOTAL_SAMPLES, 256);
}

#[test]
fn fixed_render_parameters() {
    assert_eq!(aobench::IMAGE_WIDTH, 256);
    assert_eq!(aobench::IMAGE_HEIGHT, 256);
    assert_eq!(aobench::NSUBSAMPLES, 2);
    assert_eq!(aobench::NAO_SAMPLES, 8);
}

#[test]
fn missed_ray_pixel_is_black() {
    // A pixel whose every primary ray misses all geometry accumulates no
    // occlusion at all and must be exactly (0, 0, 0).
    assert_eq!(shade(0), Pixel::new(0, 0, 0));
}

#[test]
fn unit_occlusion_sum_quantizes_to_63() {
    // An accumulated occlusion sum of 1.0 over 4 subsamples — 64 unoccluded
    // sample rays — quantizes to 1.0 / 4 * 255 rounded down: (63, 63, 63).
    assert_eq!(shade(64), Pixel::new(63, 63, 63));
}

#[test]
fn isolated_plane_pixel_is_fully_lit() {
    // Isolated ground plane, no occluders: every hemisphere sample ray of
    // every subsample points into the open half-space and escapes, so each of
    // the 4 subsamples contributes a full estimate of 1.0 (64 unoccluded
    // rays) and the pixel saturates at (255, 255, 255).
    let counts: Vec<usize> = vec![64, 64, 64, 64];
    assert_eq!(shade_from_subsamples(&counts), Pixel::new(255, 255, 255));
}

#[test]
fn tiny_positive_sum_still_quantizes_to_zero() {
    // One escaped ray clears the near-zero threshold but quantizes to a zero
    // channel value: 255 * 1 / 256 rounds down to 0.
    assert_eq!(pixel_value(1), 0);
}

#[test]
fn quantization_matches_float_accumulation() {
    // The renderer accumulates occlusion estimates in f64: each subsample
    // adds unoccluded / 64.0, the pixel divides by 4 subsamples and scales by
    // 255. Every divisor is a power of two, so that accumulation is exact
    // and the verified integer quantization must reproduce it everywhere.
    for unocc in 0..=256usize {
        let sum: f64 = unocc as f64 / 64.0;
        let expected: u8 = if sum > 0.0001 {
            let v = (sum / 4.0 * 255.0) as usize;
            v.min(255) as u8
        } else {
            0
        };
        assert_eq!(pixel_value(unocc), expected, "unocc = {}", unocc);
    }
}

#[test]
fn shading_is_grayscale() {
    for unocc in [0usize, 1, 17, 64, 100, 255, 256] {
        let p = shade(unocc);
        assert_eq!(p.r, p.g);
        assert_eq!(p.g, p.b);
    }
}

#[test]
fn subsample_counts_are_summed() {
    // 10 + 20 + 30 + 4 = 64 unoccluded rays, same pixel as a lone full
    // subsample.
    let counts: Vec<usize> = vec![10, 20, 30, 4];
    assert_eq!(shade_from_subsamples(&counts), Pixel::new(63, 63, 63));
}

#[test]
fn line_shades_each_pixel_independently() {
    let pixels: Vec<Vec<usize>> = vec![
        vec![0, 0, 0, 0],
        vec![64, 64, 64, 64],
        vec![10, 20, 30, 4],
        vec![0, 0, 0, 1],
    ];
    let line = shade_line(&pixels);
    assert_eq!(line.len(), 4);
    assert_eq!(line[0], Pixel::new(0, 0, 0));
    assert_eq!(line[1], Pixel::new(255, 255, 255));
    assert_eq!(line[2], Pixel::new(63, 63, 63));
    assert_eq!(line[3], Pixel::new(0, 0, 0));
}
