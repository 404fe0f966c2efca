use difbuilder::bsp::{ray_case, RayCase};
use difbuilder::float::Side;
use difbuilder::types::{BoxF, Point3F, F32};

fn f(x: f32) -> F32 {
    F32::from_bits(x.to_bits())
}

fn back(x: F32) -> f32 {
    f32::from_bits(x.to_bits())
}

fn samples() -> Vec<f32> {
    vec![
        0.0,
        -0.0,
        1.0,
        -1.0,
        0.5,
        -0.5,
        1e-6,
        -1e-6,
        3.25,
        -100.0,
        f32::MAX,
        f32::MIN,
        f32::MIN_POSITIVE,
        f32::INFINITY,
        f32::NEG_INFINITY,
        f32::NAN,
        -f32::NAN,
    ]
}

#[test]
fn comparisons_are_those_of_the_numbers() {
    for &a in &samples() {
        assert_eq!(f(a).is_nan(), a.is_nan());
        for &b in &samples() {
            assert_eq!(f(a).lt(f(b)), a < b, "{} < {}", a, b);
            assert_eq!(f(a).le(f(b)), a <= b, "{} <= {}", a, b);
            assert_eq!(f(a).gt(f(b)), a > b, "{} > {}", a, b);
            assert_eq!(f(a).ge(f(b)), a >= b, "{} >= {}", a, b);
        }
    }
}

#[test]
fn min_and_max_pass_over_what_is_no_number() {
    for &a in &samples() {
        for &b in &samples() {
            let lo = back(f(a).min(f(b)));
            let hi = back(f(a).max(f(b)));
            if a.is_nan() && b.is_nan() {
                assert!(lo.is_nan() && hi.is_nan());
            } else {
                assert_eq!(lo, a.min(b), "min {} {}", a, b);
                assert_eq!(hi, a.max(b), "max {} {}", a, b);
            }
        }
    }
    // of two that are equal the first one is kept
    assert_eq!(f(0.0).min(f(-0.0)).to_bits(), 0.0f32.to_bits());
    assert_eq!(f(-0.0).max(f(0.0)).to_bits(), (-0.0f32).to_bits());
}

#[test]
fn total_order_is_that_of_ieee() {
    for &a in &samples() {
        for &b in &samples() {
            let side = f(a).total_order(f(b));
            let expected = if a.total_cmp(&b).is_lt() {
                Side::Less
            } else if a.total_cmp(&b).is_gt() {
                Side::Greater
            } else {
                Side::Equal
            };
            assert_eq!(side, expected, "{} {}", a, b);
        }
    }
    assert_eq!(f(-0.0).total_order(f(0.0)), Side::Less);
}

#[test]
fn box_around_points() {
    let points = vec![
        Point3F { x: f(1.0), y: f(-2.0), z: f(0.5) },
        Point3F { x: f(-3.0), y: f(4.0), z: f(0.25) },
        Point3F { x: f(0.0), y: f(0.0), z: f(9.0) },
    ];
    let b = BoxF::from_vertices(&points);
    assert_eq!(back(b.min.x), -3.0);
    assert_eq!(back(b.min.y), -2.0);
    assert_eq!(back(b.min.z), 0.25);
    assert_eq!(back(b.max.x), 1.0);
    assert_eq!(back(b.max.y), 4.0);
    assert_eq!(back(b.max.z), 9.0);
    for p in &points {
        assert!(b.contains(p));
    }
    assert!(!b.contains(&Point3F { x: f(2.0), y: f(0.0), z: f(1.0) }));
    let empty = BoxF::from_vertices(&vec![]);
    assert_eq!(back(empty.min.x), f32::INFINITY);
    assert_eq!(back(empty.max.z), f32::NEG_INFINITY);
    let other = BoxF {
        min: Point3F { x: f(5.0), y: f(5.0), z: f(5.0) },
        max: Point3F { x: f(6.0), y: f(6.0), z: f(6.0) },
    };
    let u = b.union(&other);
    assert_eq!(back(u.min.x), -3.0);
    assert_eq!(back(u.max.x), 6.0);
    let grown = b.union_point(&Point3F { x: f(10.0), y: f(0.0), z: f(0.0) });
    assert_eq!(back(grown.max.x), 10.0);
    assert!(!b.overlaps_xy(&other));
    assert!(u.overlaps_xy(&other));
}

#[test]
fn ray_cases() {
    assert_eq!(ray_case(f(0.1), f(0.2)), RayCase::Front);
    assert_eq!(ray_case(f(0.1), f(0.0)), RayCase::Front);
    assert_eq!(ray_case(f(0.0), f(0.3)), RayCase::Front);
    assert_eq!(ray_case(f(-0.1), f(-0.2)), RayCase::Back);
    assert_eq!(ray_case(f(-0.1), f(0.0)), RayCase::Back);
    assert_eq!(ray_case(f(0.0), f(-0.0)), RayCase::Back);
    assert_eq!(ray_case(f(0.1), f(-0.1)), RayCase::FrontToBack);
    assert_eq!(ray_case(f(-0.1), f(0.1)), RayCase::BackToFront);
    assert_eq!(ray_case(f(0.0), f(0.0)), RayCase::Within);
}
