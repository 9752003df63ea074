use flight_combat::geometry::{ceil_sqrt, clamp_length, distance, distance_squared, floor_sqrt, perpendicular, Vec3i};

fn v(x: i64, y: i64, z: i64) -> Vec3i {
    Vec3i { x, y, z }
}

#[test]
fn floor_sqrt_rounds_down() {
    assert_eq!(floor_sqrt(0), 0);
    assert_eq!(floor_sqrt(1), 1);
    assert_eq!(floor_sqrt(15), 3);
    assert_eq!(floor_sqrt(16), 4);
    assert_eq!(floor_sqrt(1_000_000_000_000_000_000), 1_000_000_000);
}

#[test]
fn ceil_sqrt_rounds_up() {
    assert_eq!(ceil_sqrt(0), 0);
    assert_eq!(ceil_sqrt(15), 4);
    assert_eq!(ceil_sqrt(16), 4);
    assert_eq!(ceil_sqrt(17), 5);
}

#[test]
fn distance_of_a_345_triangle() {
    assert_eq!(distance(v(0, 0, 0), v(3000, 4000, 0)), 5000);
    assert_eq!(distance_squared(v(1, 2, 3), v(-1, 2, 5)), 8);
}

#[test]
fn perpendicular_drops_the_parallel_part() {
    assert_eq!(perpendicular(v(10, 10, 0), v(1, 0, 0)), v(0, 10, 0));
    assert_eq!(perpendicular(v(7, -3, 2), v(0, 0, 0)), v(7, -3, 2));
    assert_eq!(perpendicular(v(0, 0, 5), v(0, 0, -3)), v(0, 0, 0));
}

#[test]
fn clamp_length_scales_long_vectors_only() {
    assert_eq!(clamp_length(v(3000, 4000, 0), 1000), v(600, 800, 0));
    assert_eq!(clamp_length(v(3, 4, 0), 10), v(3, 4, 0));
    assert_eq!(clamp_length(v(0, 0, -12800), 800), v(0, 0, -800));
}
