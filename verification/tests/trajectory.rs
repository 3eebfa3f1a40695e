use tower_defense::geometry::{Point, MAX_COORD};
use tower_defense::trajectory::{LineTrajectory, SampledTrajectory, Trajectory};

#[test]
fn line_maps_parameter_to_x() {
    let line = LineTrajectory {};
    assert_eq!(line.point_from_t(0), Point { x: 0, y: 0 });
    assert_eq!(line.point_from_t(123_456), Point { x: 123_456, y: 0 });
    assert_eq!(line.point_from_t(-7), Point { x: -7, y: 0 });
}

#[test]
fn sampled_interpolates_between_samples() {
    let tr = SampledTrajectory::new(vec![0, 1_000_000], 1_000_000).unwrap();
    assert_eq!(tr.point_from_t(0), Point { x: 0, y: 0 });
    assert_eq!(tr.point_from_t(500_000), Point { x: 500_000, y: 500_000 });
    assert_eq!(tr.point_from_t(250_000), Point { x: 250_000, y: 250_000 });
}

#[test]
fn sampled_interpolates_downhill() {
    let tr = SampledTrajectory::new(vec![1_000_000, 0], 1_000_000).unwrap();
    assert_eq!(tr.point_from_t(250_000), Point { x: 250_000, y: 750_000 });
}

#[test]
fn sampled_holds_boundary_samples_beyond_the_ends() {
    let tr = SampledTrajectory::new(vec![5, 9], 1_000_000).unwrap();
    assert_eq!(tr.point_from_t(-3).y, 5);
    assert_eq!(tr.point_from_t(2_000_000).y, 9);
}

#[test]
fn sampled_rejects_short_tables() {
    assert!(SampledTrajectory::new(vec![1], 1_000).is_none());
    assert!(SampledTrajectory::new(vec![], 1_000).is_none());
}

#[test]
fn sampled_rejects_bad_spacing() {
    assert!(SampledTrajectory::new(vec![0, 0], 0).is_none());
    assert!(SampledTrajectory::new(vec![0, 0], -5).is_none());
}

#[test]
fn sampled_rejects_out_of_world_samples() {
    assert!(SampledTrajectory::new(vec![0, MAX_COORD + 1], 1_000).is_none());
}
