use linden_tree::geometry::{compute_bounds, Bounds, Point};
use linden_tree::ieee;

fn pt(x: f32, y: f32) -> Point {
    Point { x: x.to_bits(), y: y.to_bits() }
}

#[test]
fn bounds_fold_matches_native_fold() {
    let values = [
        (1.5f32, -2.25f32),
        (3.0, 4.5),
        (-7.125, 0.5),
        (2.5, -9.75),
        (0.0, 0.0),
    ];
    let points: Vec<Point> = values.iter().map(|&(x, y)| pt(x, y)).collect();
    let b = compute_bounds(&points);
    let (mut xmin, mut ymin, mut xmax, mut ymax) = (0.0f32, 0.0f32, 0.0f32, 0.0f32);
    for &(x, y) in values.iter() {
        if x < xmin {
            xmin = x;
        }
        if y < ymin {
            ymin = y;
        }
        if x > xmax {
            xmax = x;
        }
        if y > ymax {
            ymax = y;
        }
    }
    assert_eq!(b.xmin, xmin.to_bits());
    assert_eq!(b.ymin, ymin.to_bits());
    assert_eq!(b.xmax, xmax.to_bits());
    assert_eq!(b.ymax, ymax.to_bits());
}

#[test]
fn bounds_always_contain_origin() {
    let points = vec![pt(5.0, 3.0), pt(9.5, 7.25)];
    let b = compute_bounds(&points);
    // Every point lies in the upper-right quadrant, yet the box is seeded at
    // the origin and keeps it.
    assert_eq!(b.xmin, 0.0f32.to_bits());
    assert_eq!(b.ymin, 0.0f32.to_bits());
    assert_eq!(b.xmax, 9.5f32.to_bits());
    assert_eq!(b.ymax, 7.25f32.to_bits());
}

#[test]
fn bounds_contain_every_point() {
    let points = vec![pt(-1.5, 2.0), pt(4.0, -3.5), pt(0.25, 0.75)];
    let b = compute_bounds(&points);
    for p in &points {
        assert!(ieee::le(b.xmin, p.x));
        assert!(ieee::le(p.x, b.xmax));
        assert!(ieee::le(b.ymin, p.y));
        assert!(ieee::le(p.y, b.ymax));
    }
}

#[test]
fn empty_point_list_gives_origin_box() {
    let b = compute_bounds(&Vec::new());
    assert_eq!(b.xmin, 0.0f32.to_bits());
    assert_eq!(b.ymin, 0.0f32.to_bits());
    assert_eq!(b.xmax, 0.0f32.to_bits());
    assert_eq!(b.ymax, 0.0f32.to_bits());
}

#[test]
fn nan_coordinate_never_widens_a_side() {
    let points = vec![pt(f32::NAN, 1.0), pt(2.0, f32::NAN)];
    let b = compute_bounds(&points);
    assert_eq!(b.xmin, 0.0f32.to_bits());
    assert_eq!(b.ymin, 0.0f32.to_bits());
    assert_eq!(b.xmax, 2.0f32.to_bits());
    assert_eq!(b.ymax, 1.0f32.to_bits());
}

#[test]
fn comparisons_match_native_semantics() {
    let samples = [
        0.0f32,
        -0.0,
        1.0,
        -1.0,
        1.5,
        -1.5,
        0.1,
        -0.1,
        100.25,
        -7.125,
        f32::INFINITY,
        f32::NEG_INFINITY,
        f32::NAN,
        f32::MIN_POSITIVE,
        1.0e-45,
        -1.0e-45,
        f32::MAX,
        f32::MIN,
        0.99,
        4294967040.0,
        2147483648.0,
    ];
    for &a in samples.iter() {
        for &b in samples.iter() {
            let (ab, bb) = (a.to_bits(), b.to_bits());
            assert_eq!(ieee::lt(ab, bb), a < b, "lt on {a} {b}");
            assert_eq!(ieee::le(ab, bb), a <= b, "le on {a} {b}");
            assert_eq!(ieee::eq(ab, bb), a == b, "eq on {a} {b}");
        }
    }
}

#[test]
fn truncation_matches_native_cast() {
    let samples = [
        0.0f32,
        -0.0,
        0.5,
        0.99,
        1.0,
        1.5,
        2.75,
        800.0,
        -1.0,
        -0.25,
        -1000.0,
        f32::INFINITY,
        f32::NEG_INFINITY,
        f32::NAN,
        f32::MIN_POSITIVE,
        1.0e-45,
        f32::MAX,
        f32::MIN,
        16777215.0,
        16777216.0,
        2147483648.0,
        4294967040.0,
        4294967296.0,
        123456.78,
    ];
    for &a in samples.iter() {
        assert_eq!(ieee::trunc(a.to_bits()), a as u32, "trunc on {a}");
    }
}

#[test]
fn degenerate_axis_is_detected() {
    let square = Bounds {
        xmin: 0.0f32.to_bits(),
        ymin: 0.0f32.to_bits(),
        xmax: 10.0f32.to_bits(),
        ymax: 10.0f32.to_bits(),
    };
    assert!(!square.has_degenerate_axis());
    let flat = Bounds {
        xmin: 0.0f32.to_bits(),
        ymin: 3.0f32.to_bits(),
        xmax: 10.0f32.to_bits(),
        ymax: 3.0f32.to_bits(),
    };
    assert!(flat.has_degenerate_axis());
    let signed_zero = Bounds {
        xmin: (-0.0f32).to_bits(),
        ymin: 0.0f32.to_bits(),
        xmax: 0.0f32.to_bits(),
        ymax: 10.0f32.to_bits(),
    };
    assert!(signed_zero.has_degenerate_axis());
    let single_point = compute_bounds(&vec![Point {
        x: 0.0f32.to_bits(),
        y: 0.0f32.to_bits(),
    }]);
    assert!(single_point.has_degenerate_axis());
}
