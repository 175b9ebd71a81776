use raycast::ppm::{channel_byte, encode_header, encode_ppm, render_image};
use raycast::render::{Color, RenderConfig};
use raycast::sphere::Sphere;
use raycast::vec3::Vec3;

fn default_sphere() -> Sphere {
    Sphere::new(Vec3::new(-3, 0, -16), 2)
}

#[test]
fn channel_bytes_of_scene_colors() {
    assert_eq!(channel_byte(200), 51);
    assert_eq!(channel_byte(700), 178);
    assert_eq!(channel_byte(800), 204);
    assert_eq!(channel_byte(400), 102);
    assert_eq!(channel_byte(300), 76);
}

#[test]
fn channel_bytes_are_clamped() {
    assert_eq!(channel_byte(-250), 0);
    assert_eq!(channel_byte(0), 0);
    assert_eq!(channel_byte(1000), 255);
    assert_eq!(channel_byte(4000), 255);
    assert_eq!(channel_byte(i32::MAX), 255);
    assert_eq!(channel_byte(i32::MIN), 0);
}

#[test]
fn header_of_default_size() {
    assert_eq!(encode_header(1024, 768), b"P6\n1024 768\n255\n".to_vec());
}

#[test]
fn header_of_small_and_zero_sizes() {
    assert_eq!(encode_header(0, 7), b"P6\n0 7\n255\n".to_vec());
    assert_eq!(encode_header(10, 4294967295), b"P6\n10 4294967295\n255\n".to_vec());
}

#[test]
fn encode_lays_out_pixels_in_order() {
    let px = vec![Color::background(), Color::object(), Color::new(1000, -3, 500)];
    let out = encode_ppm(3, 1, &px);
    let mut expected = b"P6\n3 1\n255\n".to_vec();
    expected.extend_from_slice(&[51, 178, 204, 102, 102, 76, 255, 0, 127]);
    assert_eq!(out, expected);
}

#[test]
fn default_image_has_header_and_exact_pixel_data_length() {
    let out = render_image(&RenderConfig::standard(), &default_sphere());
    let header = b"P6\n1024 768\n255\n";
    assert_eq!(&out[..header.len()], &header[..]);
    assert_eq!(out.len() - header.len(), 1024 * 768 * 3);
    assert_eq!(&out[header.len()..header.len() + 3], &[51, 178, 204]);
}

#[test]
fn rendering_twice_gives_identical_bytes() {
    let a = render_image(&RenderConfig::standard(), &default_sphere());
    let b = render_image(&RenderConfig::standard(), &default_sphere());
    assert_eq!(a, b);
}
