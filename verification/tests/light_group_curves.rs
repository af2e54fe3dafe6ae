use v1bectl::light_group::BrightnessCurve;
use v1bectl::light_group_linear::linear_brightness;

#[test]
fn test_brightness_curve_interpolation() {
    let curve = BrightnessCurve {
        breakpoints: vec![(0, 0), (25, 50), (75, 75), (100, 100)],
    };

    assert_eq!(curve.interpolate(0), 0);
    assert_eq!(curve.interpolate(12), 24);
    assert_eq!(curve.interpolate(25), 50);
    assert_eq!(curve.interpolate(50), 63);
    assert_eq!(curve.interpolate(75), 75);
    assert_eq!(curve.interpolate(100), 100);
}

#[test]
fn test_brightness_curve_edge_cases() {
    let curve = BrightnessCurve {
        breakpoints: vec![(20, 100), (80, 0)],
    };

    assert_eq!(curve.interpolate(0), 100);
    assert_eq!(curve.interpolate(50), 50);
    assert_eq!(curve.interpolate(100), 0);
}

#[test]
fn curve_breakpoints_in_any_order() {
    let curve = BrightnessCurve {
        breakpoints: vec![(100, 100), (0, 0), (50, 10)],
    };
    assert_eq!(curve.interpolate(50), 10);
    assert_eq!(curve.interpolate(25), 5);
    assert_eq!(curve.interpolate(75), 55);
}

#[test]
fn default_curve_is_identity() {
    let curve = BrightnessCurve { breakpoints: vec![(0, 0), (100, 100)] };
    for g in 0..=100u8 {
        assert_eq!(curve.interpolate(g), g);
    }
}

#[test]
fn empty_curve_passes_brightness_through() {
    let curve = BrightnessCurve { breakpoints: vec![] };
    assert_eq!(curve.interpolate(37), 37);
}

fn reference_segment(gb1: u8, db1: u8, gb2: u8, db2: u8, g: u8) -> u8 {
    let ratio = (g - gb1) as f32 / (gb2 - gb1) as f32;
    let interpolated = db1 as f32 + ratio * (db2 as f32 - db1 as f32);
    interpolated.round() as u8
}

fn reference_linear(min: u8, max: u8, g: u8) -> u8 {
    if g == 0 {
        return 0;
    }
    let range = (max as f32) - (min as f32);
    let normalized = (g as f32) / 100.0;
    let mapped = (min as f32) + (normalized * range);
    mapped.round().clamp(0.0, 100.0) as u8
}

#[test]
fn segment_rounding_is_single_precision() {
    let curve = BrightnessCurve { breakpoints: vec![(0, 0), (12, 54)] };
    assert_eq!(curve.interpolate(7), 31);
    for (gb1, db1, gb2, db2) in [(0u8, 0u8, 12u8, 54u8), (3, 200, 250, 7), (10, 255, 11, 0), (0, 1, 255, 254), (40, 33, 97, 180)] {
        let c = BrightnessCurve { breakpoints: vec![(gb1, db1), (gb2, db2)] };
        for g in gb1..=gb2 {
            assert_eq!(c.interpolate(g), reference_segment(gb1, db1, gb2, db2, g), "curve {:?} at {}", c.breakpoints, g);
        }
    }
}

#[test]
fn linear_mapping_is_single_precision() {
    assert_eq!(linear_brightness(Some((0, 50)), 53), 26);
    for min in (0..=255u8).step_by(5) {
        for max in (0..=255u8).step_by(7) {
            for g in 0..=255u8 {
                assert_eq!(linear_brightness(Some((min, max)), g), reference_linear(min, max, g), "({}, {}) at {}", min, max, g);
            }
        }
    }
}

#[test]
fn segment_rounding_matches_on_a_spread_of_curves() {
    for gb1 in (0..=250u8).step_by(25) {
        for gb2 in ((gb1 as u16 + 1)..=255u16).step_by(37) {
            let gb2 = gb2 as u8;
            for db1 in (0..=255u8).step_by(51) {
                for db2 in (0..=255u8).step_by(43) {
                    let c = BrightnessCurve { breakpoints: vec![(gb2, db2), (gb1, db1)] };
                    for g in gb1..=gb2 {
                        assert_eq!(c.interpolate(g), reference_segment(gb1, db1, gb2, db2, g));
                    }
                }
            }
        }
    }
}
