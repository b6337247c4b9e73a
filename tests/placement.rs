use lsystem_fractals::placement::{place, place_one, Placement, PlacementBounds, PlacementError};

fn bounds() -> PlacementBounds {
    PlacementBounds { x_min: -5, x_max: 5, z_min: 2, z_max: 3 }
}

#[test]
fn placement_picks_from_samples() {
    let p = place_one(&bounds(), (12_345, 999, 720_001)).unwrap();
    assert_eq!(p, Placement { x_milli: -5000 + 2345, z_milli: 2000 + 999, yaw_millidegrees: 1 });
}

#[test]
fn placements_stay_in_bounds() {
    let samples: Vec<(u64, u64, u64)> = (0..200u64)
        .map(|i| (i.wrapping_mul(0x9E37_79B9_7F4A_7C15), u64::MAX - i * 7919, i * 104_729))
        .collect();
    let placements = place(&bounds(), &samples).unwrap();
    assert_eq!(placements.len(), 200);
    for p in &placements {
        assert!((-5000..5000).contains(&p.x_milli));
        assert!((2000..3000).contains(&p.z_milli));
        assert!(p.yaw_millidegrees < 360_000);
    }
}

#[test]
fn largest_samples_stay_in_bounds() {
    let wide = PlacementBounds { x_min: i32::MIN, x_max: i32::MAX, z_min: 0, z_max: 1 };
    let p = place_one(&wide, (u64::MAX, u64::MAX, u64::MAX)).unwrap();
    assert!(p.x_milli >= i32::MIN as i64 * 1000 && p.x_milli < i32::MAX as i64 * 1000);
    assert!(p.z_milli < 1000);
    assert_eq!(p.yaw_millidegrees, (u64::MAX % 360_000) as u32);
}

#[test]
fn empty_range_is_rejected() {
    let flat = PlacementBounds { x_min: 1, x_max: 1, z_min: 0, z_max: 4 };
    assert_eq!(place_one(&flat, (0, 0, 0)), Err(PlacementError::InvalidBounds));
    let reversed = PlacementBounds { x_min: 0, x_max: 4, z_min: 3, z_max: -3 };
    assert_eq!(place(&reversed, &vec![(1, 2, 3)]), Err(PlacementError::InvalidBounds));
}

#[test]
fn no_samples_no_placements() {
    assert_eq!(place(&bounds(), &Vec::new()), Ok(Vec::new()));
}
