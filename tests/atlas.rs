use rusty_runner::atlas::{PoseAtlas, Region};
use rusty_runner::controller::POSE_COUNT;

#[test]
fn sample_atlas_has_two_rows_of_five() {
    let a = PoseAtlas::sample();
    assert_eq!(a.region(0), Region { x: 0, y: 0, w: 20, h: 50 });
    assert_eq!(a.region(3), Region { x: 60, y: 0, w: 20, h: 50 });
    assert_eq!(a.region(4), Region { x: 80, y: 0, w: 20, h: 50 });
    assert_eq!(a.region(5), Region { x: 0, y: 55, w: 20, h: 50 });
    assert_eq!(a.region(9), Region { x: 80, y: 55, w: 20, h: 50 });
}

#[test]
fn from_regions_needs_one_region_per_pose() {
    let r = Region { x: 1, y: 2, w: 3, h: 4 };
    assert!(PoseAtlas::from_regions(vec![r; POSE_COUNT - 1]).is_none());
    assert!(PoseAtlas::from_regions(vec![r; POSE_COUNT + 1]).is_none());
    assert!(PoseAtlas::from_regions(Vec::new()).is_none());
    let mut regions = vec![r; POSE_COUNT];
    regions[7] = Region { x: 9, y: 9, w: 9, h: 9 };
    let a = PoseAtlas::from_regions(regions).unwrap();
    assert_eq!(a.region(7), Region { x: 9, y: 9, w: 9, h: 9 });
    assert_eq!(a.region(0), r);
}
