use phong::vector::{cos_fixed, Vec3, FIXED_ONE};

#[test]
fn dot_and_norm_sq() {
    let a = Vec3 { x: 1, y: -2, z: 3 };
    let b = Vec3 { x: 4, y: 5, z: -6 };
    assert_eq!(a.dot(&b), 4 - 10 - 18);
    assert_eq!(a.norm_sq(), 14);
    let big = Vec3 { x: -32768, y: -32768, z: -32768 };
    assert_eq!(big.norm_sq(), 3 * 1073741824);
}

#[test]
fn cos_of_parallel_and_opposite() {
    let a = Vec3 { x: 3, y: 0, z: 0 };
    let b = Vec3 { x: 1, y: 0, z: 0 };
    let c = Vec3 { x: -5, y: 0, z: 0 };
    assert_eq!(cos_fixed(&a, &b), FIXED_ONE as i64);
    assert_eq!(cos_fixed(&a, &c), -(FIXED_ONE as i64));
}

#[test]
fn cos_at_forty_five_degrees() {
    let a = Vec3 { x: 1, y: 1, z: 0 };
    let b = Vec3 { x: 1, y: 0, z: 0 };
    assert_eq!(cos_fixed(&a, &b), 46340);
    let c = Vec3 { x: -1, y: 1, z: 0 };
    assert_eq!(cos_fixed(&c, &b), -46340);
}

#[test]
fn cos_with_zero_vector_is_zero() {
    let z = Vec3 { x: 0, y: 0, z: 0 };
    let b = Vec3 { x: 1, y: 2, z: 3 };
    assert_eq!(cos_fixed(&z, &b), 0);
    assert_eq!(cos_fixed(&b, &z), 0);
}

#[test]
fn cos_at_right_angle_is_zero() {
    let a = Vec3 { x: 1, y: 2, z: 0 };
    let b = Vec3 { x: -2, y: 1, z: 7 };
    assert_eq!(cos_fixed(&a, &b), 0);
}
