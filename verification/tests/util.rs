use rts_units::util::are_positions_near;
use rts_units::util::Vec3;

/// World units to thousandths of a world unit.
fn milli(units: f32) -> i64 {
    (units * 1000.0).round() as i64
}

/// The point at the given world units.
fn point(x: f32, y: f32, z: f32) -> Vec3 {
    Vec3::new(milli(x), milli(y), milli(z))
}

#[test]
fn point_v1_is_near_v2_by_1_1_gameplay_units_when_v2_in_quad_1() {
    let v1 = point(8., 0., 8.);
    let v2 = point(7., 0., 7.);

    assert!(are_positions_near(&v1, &v2, milli(1.1)));
}

#[test]
fn point_v1_is_near_v2_by_1_1_gameplay_units_when_v2_in_quad_2() {
    let v1 = point(8., 0., 8.);
    let v2 = point(9., 0., 7.);

    assert!(are_positions_near(&v1, &v2, milli(1.1)));
}

#[test]
fn point_v1_is_near_v2_by_1_1_gameplay_units_when_v2_in_quad_3() {
    let v1 = point(8., 0., 8.);
    let v2 = point(9., 0., 9.);

    assert!(are_positions_near(&v1, &v2, milli(1.1)));
}

#[test]
fn point_v1_is_near_v2_by_1_1_gameplay_units_when_v2_in_quad_4() {
    let v1 = point(8., 0., 8.);
    let v2 = point(7., 0., 9.);

    assert!(are_positions_near(&v1, &v2, milli(1.1)));
}

#[test]
fn point_v2_is_near_v1_by_1_1_gameplay_units_when_v2_in_quad_1() {
    let v1 = point(8., 0., 8.);
    let v2 = point(7., 0., 7.);

    assert!(are_positions_near(&v2, &v1, milli(1.1)));
}

#[test]
fn point_v2_is_near_v1_by_1_1_gameplay_units_when_v2_in_quad_2() {
    let v1 = point(8., 0., 8.);
    let v2 = point(9., 0., 7.);

    assert!(are_positions_near(&v2, &v1, milli(1.1)));
}

#[test]
fn point_v2_is_near_v1_by_1_1_gameplay_units_when_v2_in_quad_3() {
    let v1 = point(8., 0., 8.);
    let v2 = point(9., 0., 9.);

    assert!(are_positions_near(&v2, &v1, milli(1.1)));
}

#[test]
fn point_v2_is_near_v1_by_1_1_gameplay_units_when_v2_in_quad_4() {
    let v1 = point(8., 0., 8.);
    let v2 = point(7., 0., 9.);

    assert!(are_positions_near(&v2, &v1, milli(1.1)));
}

#[test]
fn point_v1_not_near_v2_in_quad_1() {
    let v1 = point(8., 0., 8.);
    let v2 = point(2., 0., 2.);

    assert!(!are_positions_near(&v1, &v2, milli(1.1)));
}

#[test]
fn point_v1_not_near_v2_in_quad_3() {
    let v1 = point(8., 0., 8.);
    let v2 = point(11., 0., 11.);

    assert!(!are_positions_near(&v1, &v2, milli(1.1)));
}
