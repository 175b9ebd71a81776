use raycast::render::{pixel_direction, render, Color, RenderConfig};
use raycast::sphere::Sphere;
use raycast::vec3::Vec3;

fn default_sphere() -> Sphere {
    Sphere::new(Vec3::new(-3, 0, -16), 2)
}

#[test]
fn standard_config_values() {
    let c = RenderConfig::standard();
    assert_eq!((c.width, c.height, c.fov_tan_num, c.fov_tan_den), (1024, 768, 1, 1));
    assert_eq!(c, RenderConfig::new(1024, 768, 1, 1));
}

#[test]
fn pixel_directions_of_corners() {
    let c = RenderConfig::standard();
    assert_eq!(pixel_direction(&c, 0, 0), Vec3::new(-1023, 1023, -768));
    assert_eq!(pixel_direction(&c, 1023, 767), Vec3::new(1023, -511, -768));
    assert_eq!(pixel_direction(&c, 512, 384), Vec3::new(1, 255, -768));
}

#[test]
fn pixel_direction_uses_field_of_view_ratio() {
    let c = RenderConfig::new(4, 2, 3, 2);
    assert_eq!(pixel_direction(&c, 0, 0), Vec3::new(-9, 9, -4));
    assert_eq!(pixel_direction(&c, 3, 1), Vec3::new(9, 3, -4));
}

#[test]
fn framebuffer_has_one_color_per_pixel() {
    let fb = render(&RenderConfig::standard(), &default_sphere());
    assert_eq!(fb.len(), 1024 * 768);
}

#[test]
fn top_left_corner_is_background() {
    let fb = render(&RenderConfig::standard(), &default_sphere());
    assert_eq!(fb[0], Color::background());
}

#[test]
fn pixel_toward_the_sphere_center_is_object() {
    // The centre (-3, 0, -16) projects onto column 440 and, rows being normalised
    // by the width, onto row 511.
    let fb = render(&RenderConfig::standard(), &default_sphere());
    assert_eq!(fb[511 * 1024 + 440], Color::object());
}

#[test]
fn frame_center_is_background_for_default_scene() {
    // Pixel (512, 384) looks along (1, 255, -768), about 0.33 above the axis,
    // while the sphere spans about 0.125 around (-0.19, 0).
    let fb = render(&RenderConfig::standard(), &default_sphere());
    assert_eq!(fb[384 * 1024 + 512], Color::background());
}

#[test]
fn camera_inside_sphere_sees_only_object() {
    let fb = render(&RenderConfig::new(4, 3, 1, 1), &Sphere::new(Vec3::new(0, 0, 0), 5));
    assert_eq!(fb.len(), 12);
    assert!(fb.iter().all(|c| *c == Color::object()));
}

#[test]
fn empty_image_has_no_pixels() {
    assert!(render(&RenderConfig::new(0, 5, 1, 1), &default_sphere()).is_empty());
    assert!(render(&RenderConfig::new(5, 0, 1, 1), &default_sphere()).is_empty());
}

#[test]
fn rows_are_stored_top_to_bottom() {
    // A sphere above the line of sight: the top row sees it, the bottom row does not.
    let fb = render(&RenderConfig::new(3, 3, 1, 1), &Sphere::new(Vec3::new(0, 2, -3), 3));
    let row = |j: usize| fb[j * 3..j * 3 + 3].to_vec();
    assert_eq!(row(0), vec![Color::object(); 3]);
    assert_eq!(row(2), vec![Color::background(); 3]);
}

fn float_hit(center: [f32; 3], radius: f32, dir: [f32; 3]) -> bool {
    let l = center;
    let tca = l[0] * dir[0] + l[1] * dir[1] + l[2] * dir[2];
    let d2 = l[0] * l[0] + l[1] * l[1] + l[2] * l[2] - tca * tca;
    if d2 > radius * radius {
        return false;
    }
    let thc = (radius * radius - d2).sqrt();
    let mut t0 = tca - thc;
    let t1 = tca + thc;
    if t0 < 0.0 {
        t0 = t1;
    }
    t0 >= 0.0
}

#[test]
fn default_scene_agrees_with_floating_point_projection() {
    let (w, h) = (1024usize, 768usize);
    let fov = std::f32::consts::FRAC_PI_2;
    let fb = render(&RenderConfig::standard(), &default_sphere());
    let mut differing = 0usize;
    for j in 0..h {
        for i in 0..w {
            let x = (2.0 * ((i as f32) + 0.5) / (w as f32) - 1.0) * (fov / 2.0).tan() * (w as f32)
                / (h as f32);
            let y = -(2.0 * ((j as f32) + 0.5) / (w as f32) - 1.0) * (fov / 2.0).tan()
                * (w as f32)
                / (h as f32);
            let n = (x * x + y * y + 1.0).sqrt();
            let d = [x / n, y / n, -1.0 / n];
            let expected = if float_hit([-3.0, 0.0, -16.0], 2.0, d) {
                Color::object()
            } else {
                Color::background()
            };
            if fb[j * w + i] != expected {
                differing += 1;
            }
        }
    }
    assert_eq!(differing, 0);
}
