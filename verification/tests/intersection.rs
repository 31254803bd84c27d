use circle::{Color, Sphere, Vector3};

fn sphere(x: i32, y: i32, z: i32, radius: u32) -> Sphere {
    Sphere { center: Vector3::new(x, y, z), radius, color: Color::new(200, 100, 50, 255) }
}

#[test]
fn ray_through_center_hits_for_any_radius() {
    let origin = Vector3::new(1, 2, 3);
    let direction = Vector3::new(2, -1, 4);
    for radius in [0u32, 1, 2, 17, 1000, u32::MAX] {
        let s = sphere(1 + 7 * 2, 2 - 7, 3 + 7 * 4, radius);
        assert!(s.ray_intersect(&origin, &direction), "radius {radius}");
    }
}

#[test]
fn ray_through_center_behind_origin_hits() {
    // The test is one of the whole line: a centre behind the origin counts.
    let origin = Vector3::new(0, 0, 0);
    let direction = Vector3::new(0, 0, -1);
    assert!(sphere(0, 0, 5, 1).ray_intersect(&origin, &direction));
}

#[test]
fn ray_passing_beyond_radius_misses() {
    let origin = Vector3::new(0, 0, 0);
    // The line along x stays 5 away from the centre.
    assert!(!sphere(0, 0, -5, 1).ray_intersect(&origin, &Vector3::new(1, 0, 0)));
    assert!(!sphere(0, 0, -5, 4).ray_intersect(&origin, &Vector3::new(1, 0, 0)));
    // The line along -z stays 2 away from the centre.
    assert!(!sphere(2, 0, -5, 1).ray_intersect(&origin, &Vector3::new(0, 0, -1)));
}

#[test]
fn tangent_ray_hits() {
    let origin = Vector3::new(0, 0, 0);
    let direction = Vector3::new(0, 0, -1);
    assert!(sphere(1, 0, -5, 1).ray_intersect(&origin, &direction));
    assert!(sphere(0, -7, -5, 7).ray_intersect(&origin, &direction));
    assert!(!sphere(0, -7, -5, 6).ray_intersect(&origin, &direction));
}

#[test]
fn tangent_ray_with_slanted_direction() {
    // Distance from (5, 0, 0) to the line along (3, 4, 0) is 4.
    let origin = Vector3::new(0, 0, 0);
    let direction = Vector3::new(3, 4, 0);
    assert!(sphere(5, 0, 0, 4).ray_intersect(&origin, &direction));
    assert!(!sphere(5, 0, 0, 3).ray_intersect(&origin, &direction));
    assert!(sphere(5, 0, 0, 5).ray_intersect(&origin, &direction));
}

#[test]
fn origin_inside_sphere_hits_in_every_direction() {
    let s = sphere(1, 1, 1, 3);
    let origin = Vector3::new(0, 0, 0);
    for direction in [
        Vector3::new(1, 0, 0),
        Vector3::new(0, -1, 0),
        Vector3::new(5, 7, -9),
        Vector3::new(-1, -1, -1),
    ] {
        assert!(s.ray_intersect(&origin, &direction));
    }
}

#[test]
fn direction_length_and_sense_do_not_matter() {
    let origin = Vector3::new(3, -2, 1);
    let spheres = [sphere(0, 0, -50, 10), sphere(40, 0, -50, 10), sphere(12, 3, -40, 2)];
    let direction = Vector3::new(1, 0, -4);
    for s in &spheres {
        let expected = s.ray_intersect(&origin, &direction);
        for k in [2, 3, -1, -5, 1000] {
            let scaled = Vector3::new(direction.x * k, direction.y * k, direction.z * k);
            assert_eq!(s.ray_intersect(&origin, &scaled), expected);
        }
    }
}

#[test]
fn zero_direction_counts_as_hit() {
    // With a zero direction the quadratic degenerates and its discriminant
    // is zero, which counts as a hit wherever the sphere lies.
    let origin = Vector3::new(0, 0, 0);
    let direction = Vector3::new(0, 0, 0);
    assert!(sphere(0, 0, -5, 1).ray_intersect(&origin, &direction));
    assert!(sphere(0, 0, 0, 1).ray_intersect(&origin, &direction));
}

#[test]
fn extreme_coordinates_through_center() {
    let origin = Vector3::new(i32::MAX, i32::MAX, i32::MAX);
    let direction = Vector3::new(i32::MAX, i32::MAX, i32::MAX);
    let s = sphere(i32::MIN, i32::MIN, i32::MIN, 0);
    assert!(s.ray_intersect(&origin, &direction));
    let direction = Vector3::new(i32::MIN, i32::MIN, i32::MIN);
    assert!(s.ray_intersect(&origin, &direction));
}

#[test]
fn extreme_coordinates_near_miss() {
    // The centre lies off the line by (1, -1, 0) / 3 in squared terms:
    // the line is hit exactly when 3 * radius^2 >= 2.
    let origin = Vector3::new(i32::MAX, i32::MAX, i32::MAX);
    let direction = Vector3::new(i32::MAX, i32::MAX, i32::MAX);
    assert!(!sphere(i32::MIN, i32::MIN, i32::MIN + 1, 0).ray_intersect(&origin, &direction));
    assert!(sphere(i32::MIN, i32::MIN, i32::MIN + 1, 1).ray_intersect(&origin, &direction));
}

#[test]
fn extreme_coordinates_tangent() {
    // Distance from the centre to the z axis is exactly the radius.
    let origin = Vector3::new(0, 0, i32::MAX);
    let direction = Vector3::new(0, 0, i32::MIN);
    assert!(sphere(i32::MAX, 0, i32::MIN, 2147483647).ray_intersect(&origin, &direction));
    assert!(!sphere(i32::MAX, 0, i32::MIN, 2147483646).ray_intersect(&origin, &direction));
    assert!(sphere(i32::MIN, 0, i32::MIN, 2147483648).ray_intersect(&origin, &direction));
    assert!(!sphere(i32::MIN, 0, i32::MIN, 2147483647).ray_intersect(&origin, &direction));
}

#[test]
fn extreme_radius() {
    let origin = Vector3::new(i32::MAX, i32::MAX, i32::MAX);
    let s = sphere(i32::MIN, i32::MIN, i32::MIN, u32::MAX);
    // The origin is farther than the radius from the centre along each axis
    // combined, and a direction across the diagonal passes it by.
    assert!(!s.ray_intersect(&origin, &Vector3::new(1, -1, 0)));
    assert!(s.ray_intersect(&origin, &Vector3::new(1, 1, 1)));
}
