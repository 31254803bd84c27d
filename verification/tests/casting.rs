use circle::camera::{camera_origin, camera_ray, PERSPECTIVE_DEN, PERSPECTIVE_NUM};
use circle::unit::DIRECTION_UNIT;
use circle::{cast_ray, render, Color, Framebuffer, RayIntersect, Sphere, Vector3};

const BACKGROUND: Color = Color { r: 4, g: 12, b: 36, a: 255 };
const RED: Color = Color { r: 255, g: 0, b: 0, a: 255 };
const GREEN: Color = Color { r: 0, g: 255, b: 0, a: 255 };
const BLUE: Color = Color { r: 0, g: 0, b: 255, a: 255 };

fn sphere(x: i32, y: i32, z: i32, radius: u32, color: Color) -> Sphere {
    Sphere { center: Vector3::new(x, y, z), radius, color }
}

#[test]
fn color_new_keeps_channels() {
    let c = Color::new(1, 2, 3, 4);
    assert_eq!((c.r, c.g, c.b, c.a), (1, 2, 3, 4));
}

#[test]
fn empty_scene_shows_background() {
    let c = cast_ray(&Vector3::new(0, 0, 0), &Vector3::new(0, 0, -1), &[]);
    assert_eq!(c, BACKGROUND);
}

#[test]
fn missed_scene_shows_background() {
    let objects = [sphere(0, 0, -5, 1, RED), sphere(10, 0, -5, 2, GREEN)];
    let c = cast_ray(&Vector3::new(0, 0, 0), &Vector3::new(0, 1, 0), &objects);
    assert_eq!(c, BACKGROUND);
}

#[test]
fn single_hit_shows_its_color() {
    let objects = [sphere(10, 0, -5, 2, GREEN), sphere(0, 0, -5, 1, RED)];
    let c = cast_ray(&Vector3::new(0, 0, 0), &Vector3::new(0, 0, -1), &objects);
    assert_eq!(c, RED);
}

#[test]
fn earliest_declared_sphere_wins_over_nearer_one() {
    let origin = Vector3::new(0, 0, 0);
    let direction = Vector3::new(0, 0, -1);
    let far = sphere(0, 0, -900, 100, RED);
    let near = sphere(0, 0, -500, 100, GREEN);
    assert_eq!(cast_ray(&origin, &direction, &[far, near]), RED);
    assert_eq!(cast_ray(&origin, &direction, &[near, far]), GREEN);
}

#[test]
fn earliest_of_the_spheres_hit_wins() {
    let origin = Vector3::new(0, 0, 0);
    let direction = Vector3::new(0, 0, -1);
    let aside = sphere(500, 0, -500, 100, BLUE);
    let far = sphere(0, 0, -900, 100, RED);
    let near = sphere(50, 0, -500, 100, GREEN);
    assert_eq!(cast_ray(&origin, &direction, &[aside, far, near]), RED);
    assert_eq!(cast_ray(&origin, &direction, &[aside, near, far, aside]), GREEN);
    assert_eq!(cast_ray(&origin, &direction, &[aside, aside]), BACKGROUND);
}

#[test]
fn perspective_scale_squared_is_a_third() {
    let n = PERSPECTIVE_NUM as i64;
    let d = PERSPECTIVE_DEN as i64;
    assert_eq!(3 * n * n + 1, d * d);
}

#[test]
fn camera_starts_at_the_origin() {
    assert_eq!(camera_origin(), Vector3::new(0, 0, 0));
}

#[test]
fn camera_ray_values() {
    assert_eq!(camera_ray(640, 360, 1280, 720), Vector3::new(861006, -861006, -1073741133));
    assert_eq!(camera_ray(0, 0, 1280, 720), Vector3::new(-713182099, 400920977, -695381310));
    assert_eq!(camera_ray(1279, 719, 1280, 720), Vector3::new(713182099, -400920977, -695381310));
    assert_eq!(camera_ray(0, 0, 1, 1), Vector3::new(0, 0, -1073741824));
}

#[test]
fn camera_ray_of_center_pixel_looks_down_the_axis() {
    for size in [1u16, 3, 5, 101, 721, 65535] {
        let d = camera_ray(size / 2, size / 2, size, size);
        assert_eq!(d, Vector3::new(0, 0, -DIRECTION_UNIT));
    }
    // Nor does the aspect ratio matter.
    let d = camera_ray(640, 360, 1281, 721);
    assert_eq!(d, Vector3::new(0, 0, -DIRECTION_UNIT));
}

#[test]
fn camera_ray_is_total_on_extreme_arguments() {
    assert_eq!(camera_ray(65535, 65535, 0, 0), Vector3::new(759250124, -759250124, 0));
    assert_eq!(
        camera_ray(0, 0, 65535, 65535),
        Vector3::new(-480187544, 480187544, -831721917)
    );
}

fn length(d: Vector3) -> f64 {
    let (x, y, z) = (d.x as f64, d.y as f64, d.z as f64);
    (x * x + y * y + z * z).sqrt() / DIRECTION_UNIT as f64
}

#[test]
fn camera_ray_has_unit_length() {
    let (w, h) = (1280u16, 720u16);
    for y in (0..h).step_by(7).chain([h - 1]) {
        for x in (0..w).step_by(11).chain([w - 1]) {
            let d = camera_ray(x, y, w, h);
            assert!((length(d) - 1.0).abs() <= 1e-6, "pixel ({x}, {y})");
            assert!(d.z < 0);
            let norm_sq = d.x as i128 * d.x as i128 + d.y as i128 * d.y as i128
                + d.z as i128 * d.z as i128;
            let unit = DIRECTION_UNIT as i128;
            assert!((unit - 2) * (unit - 2) <= norm_sq && norm_sq <= unit * unit);
        }
    }
}

#[test]
fn camera_ray_has_unit_length_for_extreme_images() {
    for (x, y, w, h) in [
        (0u16, 0u16, 1u16, 1u16),
        (0, 0, 65535, 65535),
        (65534, 65534, 65535, 65535),
        (65535, 65535, 0, 0),
        (0, 65535, 65535, 1),
        (65535, 0, 1, 65535),
        (12, 0, 65535, 0),
    ] {
        let d = camera_ray(x, y, w, h);
        assert!((length(d) - 1.0).abs() <= 1e-6, "{x} {y} {w} {h}");
        if h > 0 {
            assert!(d.z < 0);
        }
    }
}

#[test]
fn camera_ray_passes_through_the_trait_as_well() {
    let s = sphere(0, 0, -5000, 1000, RED);
    let origin = camera_origin();
    for (x, y) in [(640u16, 360u16), (0, 0), (700, 400), (513, 360), (512, 360)] {
        let d = camera_ray(x, y, 1280, 720);
        assert_eq!(RayIntersect::ray_intersect(&s, &origin, &d), s.ray_intersect(&origin, &d));
    }
    assert!(RayIntersect::ray_intersect(&s, &origin, &camera_ray(640, 360, 1280, 720)));
    assert!(!RayIntersect::ray_intersect(&s, &origin, &camera_ray(0, 0, 1280, 720)));
}

#[test]
fn camera_ray_has_field_of_view_of_sixty_degrees() {
    // At the middle of the top edge of a tall image the ray makes thirty
    // degrees with the axis, within the rounding of the pixel's half width.
    let d = camera_ray(500, 0, 1001, 1001);
    let up = d.y as f64;
    let forward = -d.z as f64;
    let angle = (up / forward).atan().to_degrees();
    assert!((angle - 30.0).abs() < 0.05, "angle {angle}");
}

#[test]
fn camera_ray_direction_matches_floating_point_formula() {
    let (w, h) = (1280u16, 720u16);
    let scale = (std::f64::consts::PI / 6.0).tan();
    for (x, y) in [(0u16, 0u16), (17, 400), (640, 360), (1279, 0), (1000, 719)] {
        let d = camera_ray(x, y, w, h);
        let screen_x = 2.0 * (x as f64 + 0.5) / w as f64 - 1.0;
        let screen_y = 1.0 - 2.0 * (y as f64 + 0.5) / h as f64;
        let cx = screen_x * (w as f64 / h as f64) * scale;
        let cy = screen_y * scale;
        let z = -(d.z as f64);
        assert!((d.x as f64 / z - cx).abs() < 1e-8);
        assert!((d.y as f64 / z - cy).abs() < 1e-8);
    }
}

#[test]
fn single_sphere_fills_center_and_not_corners() {
    let color = Color::new(181, 101, 29, 255);
    let objects = [sphere(0, 0, -5000, 1000, color)];
    let mut fb = Framebuffer::new(1280, 720);
    render(&mut fb, &objects);
    for (x, y) in [(640u16, 360u16), (639, 360), (640, 359), (639, 359)] {
        assert_eq!(fb.get_pixel(x, y), Some(color));
    }
    for (x, y) in [(0u16, 0u16), (1279, 0), (0, 719), (1279, 719)] {
        assert_eq!(fb.get_pixel(x, y), Some(BACKGROUND));
    }
}

#[test]
fn single_sphere_silhouette_has_expected_extent() {
    // The sphere subtends asin(1/5) to either side of the axis; on the
    // middle row of 720 that is 720 / 2 * tan(asin(0.2)) / tan(30 deg),
    // about 127.3 pixels from the centre.
    let color = Color::new(1, 2, 3, 255);
    let objects = [sphere(0, 0, -5000, 1000, color)];
    let mut fb = Framebuffer::new(1280, 720);
    render(&mut fb, &objects);
    let y = 360u16;
    let lit: Vec<u16> = (0..1280u16).filter(|&x| fb.get_pixel(x, y) == Some(color)).collect();
    assert_eq!(lit.first().copied(), Some(513));
    assert_eq!(lit.last().copied(), Some(766));
    assert_eq!(lit.len(), 254);
}

#[test]
fn render_overwrites_every_pixel() {
    let marker = Color::new(9, 9, 9, 9);
    let objects = [sphere(0, 0, -50, 10, RED), sphere(30, 20, -60, 10, GREEN)];
    let mut fb = Framebuffer::new(64, 48);
    fb.set_background_color(marker);
    fb.clear();
    render(&mut fb, &objects);
    let origin = camera_origin();
    for y in 0..48u16 {
        for x in 0..64u16 {
            let expected = cast_ray(&origin, &camera_ray(x, y, 64, 48), &objects);
            assert_ne!(expected, marker);
            assert_eq!(fb.get_pixel(x, y), Some(expected));
        }
    }
    assert_eq!(fb.width(), 64);
    assert_eq!(fb.height(), 48);
}

#[test]
fn render_of_empty_scene_is_background() {
    let mut fb = Framebuffer::new(7, 5);
    render(&mut fb, &[]);
    for y in 0..5u16 {
        for x in 0..7u16 {
            assert_eq!(fb.get_pixel(x, y), Some(BACKGROUND));
        }
    }
}

#[test]
fn render_of_empty_framebuffer_does_nothing() {
    let objects = [sphere(0, 0, -50, 10, RED)];
    let mut fb = Framebuffer::new(0, 9);
    render(&mut fb, &objects);
    assert_eq!(fb.get_pixel(0, 0), None);
    let mut fb = Framebuffer::new(9, 0);
    render(&mut fb, &objects);
    assert_eq!(fb.get_pixel(0, 0), None);
}

#[test]
fn render_puts_row_zero_on_top() {
    // A sphere above the axis shows in the upper half of the image only.
    let objects = [sphere(0, 300, -1000, 100, BLUE)];
    let mut fb = Framebuffer::new(101, 101);
    render(&mut fb, &objects);
    let mut rows = Vec::new();
    for y in 0..101u16 {
        if (0..101u16).any(|x| fb.get_pixel(x, y) == Some(BLUE)) {
            rows.push(y);
        }
    }
    assert!(!rows.is_empty());
    assert!(rows.iter().all(|&y| y < 50));
}

#[test]
fn render_puts_positive_x_on_the_right() {
    let objects = [sphere(300, 0, -1000, 100, BLUE)];
    let mut fb = Framebuffer::new(101, 101);
    render(&mut fb, &objects);
    let mut columns = Vec::new();
    for x in 0..101u16 {
        if (0..101u16).any(|y| fb.get_pixel(x, y) == Some(BLUE)) {
            columns.push(x);
        }
    }
    assert!(!columns.is_empty());
    assert!(columns.iter().all(|&x| x > 50));
}

#[test]
fn render_keeps_declaration_order_where_spheres_overlap() {
    let far = sphere(0, 0, -900, 300, RED);
    let near = sphere(0, 0, -500, 100, GREEN);
    let mut fb = Framebuffer::new(33, 33);
    render(&mut fb, &[far, near]);
    assert_eq!(fb.get_pixel(16, 16), Some(RED));
    render(&mut fb, &[near, far]);
    assert_eq!(fb.get_pixel(16, 16), Some(GREEN));
}
