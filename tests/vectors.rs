use raycast::vec3::Vec3;

#[test]
fn new_keeps_components() {
    let v = Vec3::new(1, -2, 3);
    assert_eq!((v.x, v.y, v.z), (1, -2, 3));
}

#[test]
fn dot_sums_products() {
    let a = Vec3::new(1, 2, 3);
    let b = Vec3::new(4, -5, 6);
    assert_eq!(a.dot(&b), 4 - 10 + 18);
}

#[test]
fn dot_of_self_is_squared_length() {
    let v = Vec3::new(3, 4, 12);
    assert_eq!(v.dot(&v), 169);
    assert_eq!(v.norm_squared(), 169);
}

#[test]
fn dot_of_extreme_components_does_not_overflow() {
    let v = Vec3::new(i32::MIN, i32::MIN, i32::MIN);
    assert_eq!(v.norm_squared(), 3 * (1i128 << 62));
}

#[test]
fn sub_is_componentwise() {
    let a = Vec3::new(10, 0, -3);
    let b = Vec3::new(4, 7, -8);
    assert_eq!(a.sub(&b), Vec3::new(6, -7, 5));
}

#[test]
fn sub_then_add_recovers_the_original() {
    let a = Vec3::new(-3, 0, -16);
    let b = Vec3::new(5, -9, 2);
    let d = a.sub(&b);
    assert_eq!(Vec3::new(d.x + b.x, d.y + b.y, d.z + b.z), a);
}

#[test]
fn scale_multiplies_each_component() {
    assert_eq!(Vec3::new(1, -2, 3).scale(-4), Vec3::new(-4, 8, -12));
}

#[test]
fn mul_components_is_hadamard_product() {
    let a = Vec3::new(2, 3, -4);
    let b = Vec3::new(5, -6, 7);
    assert_eq!(a.mul_components(&b), Vec3::new(10, -18, -28));
}
