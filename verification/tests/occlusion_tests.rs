use aobench::occlusion::Axis;
use aobench::occlusion::count_unoccluded;
use aobench::occlusion::reference_axis;

#[test]
fn counts_unoccluded_rays() {
    let hits: Vec<bool> = vec![true, false, false, true, false];
    assert_eq!(count_unoccluded(&hits), 3);
}

#[test]
fn no_rays_cast_counts_zero() {
    let hits: Vec<bool> = Vec::new();
    assert_eq!(count_unoccluded(&hits), 0);
}

#[test]
fn all_occluded_counts_zero() {
    let hits: Vec<bool> = vec![true; 64];
    assert_eq!(count_unoccluded(&hits), 0);
}

#[test]
fn estimate_lies_in_unit_interval() {
    // The ambient-occlusion estimate is unoccluded / total; whatever the
    // per-ray verdicts, it lies in [0, 1] inclusive.
    let cases: Vec<Vec<bool>> = vec![
        vec![true; 64],
        vec![false; 64],
        vec![true, false, true, false, false],
        vec![false],
        vec![true],
    ];
    for hits in &cases {
        let unocc = count_unoccluded(hits);
        assert!(unocc <= hits.len());
        let estimate: f64 = unocc as f64 / hits.len() as f64;
        assert!((0.0..=1.0).contains(&estimate));
    }
}

#[test]
fn reference_axis_picks_first_below_threshold() {
    assert_eq!(reference_axis(true, true, true), Axis::X);
    assert_eq!(reference_axis(true, false, false), Axis::X);
    assert_eq!(reference_axis(false, true, true), Axis::Y);
    assert_eq!(reference_axis(false, true, false), Axis::Y);
    assert_eq!(reference_axis(false, false, true), Axis::Z);
}

#[test]
fn reference_axis_falls_back_to_x() {
    // No component below the threshold: the degenerate-but-safe default.
    assert_eq!(reference_axis(false, false, false), Axis::X);
}
