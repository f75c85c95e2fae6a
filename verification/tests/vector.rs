use fps_controller::vector::{Vec3, UNIT, UNIT_SQUARED};

#[test]
fn unit_squared_is_the_square_of_unit() {
    assert_eq!(UNIT_SQUARED, UNIT as u64 * UNIT as u64);
}

#[test]
fn new_and_zero() {
    assert_eq!(Vec3::new(1, -2, 3), Vec3 { x: 1, y: -2, z: 3 });
    assert_eq!(Vec3::zero(), Vec3 { x: 0, y: 0, z: 0 });
    assert!(Vec3::zero().is_zero());
    assert!(!Vec3::new(0, 0, 1).is_zero());
    assert!(!Vec3::new(0, -1, 0).is_zero());
    assert!(!Vec3::new(1, 0, 0).is_zero());
}

#[test]
fn horizontal_drops_the_vertical_component() {
    assert_eq!(Vec3::new(4, 5, -6).horizontal(), Vec3::new(4, 0, -6));
    assert_eq!(Vec3::new(0, 9, 0).horizontal(), Vec3::zero());
}

#[test]
fn length_squared_sums_the_squares() {
    assert_eq!(Vec3::new(3, 4, 0).length_squared(), 25);
    assert_eq!(Vec3::new(1, -2, 2).length_squared(), 9);
    assert_eq!(Vec3::zero().length_squared(), 0);
}

#[test]
fn length_squared_of_the_longest_vector() {
    let v = Vec3::new(i32::MIN, i32::MIN, i32::MIN);
    assert_eq!(v.length_squared(), 3 * (1u64 << 62));
}

#[test]
fn normalize_zero_is_zero() {
    assert_eq!(Vec3::zero().normalize_or_zero(), Vec3::zero());
}

#[test]
fn normalize_along_an_axis() {
    assert_eq!(Vec3::new(-7, 0, 0).normalize_or_zero(), Vec3::new(-UNIT, 0, 0));
    assert_eq!(Vec3::new(0, 1, 0).normalize_or_zero(), Vec3::new(0, UNIT, 0));
    assert_eq!(Vec3::new(0, 0, i32::MAX).normalize_or_zero(), Vec3::new(0, 0, UNIT));
    assert_eq!(Vec3::new(0, 0, i32::MIN).normalize_or_zero(), Vec3::new(0, 0, -UNIT));
}

#[test]
fn normalize_exact_ratios() {
    assert_eq!(Vec3::new(3, 4, 0).normalize_or_zero(), Vec3::new(600_000, 800_000, 0));
    assert_eq!(Vec3::new(0, -30, 40).normalize_or_zero(), Vec3::new(0, -600_000, 800_000));
}

#[test]
fn normalize_rounds_toward_zero() {
    assert_eq!(Vec3::new(1, 1, 0).normalize_or_zero(), Vec3::new(707_107, 707_107, 0));
    assert_eq!(Vec3::new(1, 2, 2).normalize_or_zero(), Vec3::new(333_333, 666_666, 666_666));
    assert_eq!(Vec3::new(1, -1, 1).normalize_or_zero(), Vec3::new(577_350, -577_350, 577_350));
}

#[test]
fn normalize_the_longest_vectors() {
    assert_eq!(
        Vec3::new(i32::MAX, i32::MIN, i32::MAX).normalize_or_zero(),
        Vec3::new(577_350, -577_350, 577_350)
    );
}

#[test]
fn normalize_keeps_a_unit_vector() {
    let v = Vec3::new(-500_000, 0, -866_025);
    assert_eq!(v.normalize_or_zero(), v);
}

fn sample(seed: &mut u64) -> i32 {
    *seed = seed.wrapping_mul(6_364_136_223_846_793_005).wrapping_add(1_442_695_040_888_963_407);
    let raw = (*seed >> 32) as u32 as i32;
    // Mix large and small magnitudes.
    match (*seed >> 29) & 3 {
        0 => raw,
        1 => raw % 1_000,
        2 => raw % 3,
        _ => raw % 1_000_003,
    }
}

#[test]
fn normalized_vectors_are_a_unit_long() {
    let unit = UNIT as i64;
    let mut seed = 7;
    for _ in 0..2_000 {
        let v = Vec3::new(sample(&mut seed), sample(&mut seed), sample(&mut seed));
        if v.is_zero() {
            continue;
        }
        let o = v.normalize_or_zero();
        let (x, y, z) = (o.x as i64, o.y as i64, o.z as i64);
        assert!(x * x + y * y + z * z <= unit * unit + 2 * unit);
        let (a, b, c) = (x.abs() + 1, y.abs() + 1, z.abs() + 1);
        assert!(a * a + b * b + c * c > unit * unit);
    }
}

#[test]
fn normalized_vectors_keep_their_direction() {
    let mut seed = 11;
    for _ in 0..2_000 {
        let v = Vec3::new(sample(&mut seed), sample(&mut seed), sample(&mut seed));
        let o = v.normalize_or_zero();
        let (vx, vy, vz) = (v.x as i64, v.y as i64, v.z as i64);
        let (ox, oy, oz) = (o.x as i64, o.y as i64, o.z as i64);
        assert!((ox * vy - oy * vx).abs() <= vx.abs() + vy.abs());
        assert!((oy * vz - oz * vy).abs() <= vy.abs() + vz.abs());
        assert!((oz * vx - ox * vz).abs() <= vz.abs() + vx.abs());
        assert!(ox.signum() * vx.signum() >= 0);
        assert!(oy.signum() * vy.signum() >= 0);
        assert!(oz.signum() * vz.signum() >= 0);
    }
}
