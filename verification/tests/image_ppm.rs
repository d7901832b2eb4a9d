// Pixel buffer layout, color conversion, the camera/viewport mapping, and
// the PPM text encoding.

use raytracer::camera::Camera;
use raytracer::fixed::Fx;
use raytracer::image::Image;
use raytracer::ppm::ppm_encode;
use raytracer::types::{
    normal3f_to_rgb8, rgb8_to_vector3f, scale_rgb8, vector3f_to_rgb8, PointwiseSqrtExt, Rgb8,
    Size2, Vector2i, Vector3,
};
use raytracer::viewport::Viewport;

fn v(x: i64, y: i64, z: i64) -> Vector3 {
    Vector3::new(Fx::from_int(x), Fx::from_int(y), Fx::from_int(z))
}

// set_pixel writes each channel into its plane at c*w*h + y*w + x.
#[test]
fn set_pixel_uses_planar_layout() {
    let size = Size2::new(2, 3);  // height 2, width 3
    let mut image = Image::new(size);
    assert_eq!(image.data.len(), 18);
    image.set_pixel(Vector2i::new(1, 0), Rgb8::new(10, 20, 30));
    image.set_pixel(Vector2i::new(2, 1), Rgb8::new(40, 50, 60));
    let wh = 6;
    let first = 0 * 3 + 1;
    let second = 1 * 3 + 2;
    assert_eq!(image.data[first], 10);
    assert_eq!(image.data[wh + first], 20);
    assert_eq!(image.data[2 * wh + first], 30);
    assert_eq!(image.data[second], 40);
    assert_eq!(image.data[wh + second], 50);
    assert_eq!(image.data[2 * wh + second], 60);
    // Every other byte stays zero.
    let touched = [first, wh + first, 2 * wh + first, second, wh + second, 2 * wh + second];
    for i in 0..18 {
        if !touched.contains(&i) {
            assert_eq!(image.data[i], 0);
        }
    }
}

// An image can wrap an existing planar buffer of the right length.
#[test]
fn new_with_data_keeps_the_buffer() {
    let size = Size2::new(1, 2);  // height 1, width 2
    let data = vec![1u8, 2, 3, 4, 5, 6];
    let image = Image::new_with_data(size, data.clone());
    assert_eq!(image.size.width(), 2);
    assert_eq!(image.size.height(), 1);
    assert_eq!(image.data, data);
}

// Quantization clamps into [0,1] before scaling, so over-bright and
// negative channels cannot wrap.
#[test]
fn color_quantization_clamps() {
    assert_eq!(vector3f_to_rgb8(v(1, 1, 1)), Rgb8::new(255, 255, 255));
    assert_eq!(vector3f_to_rgb8(v(0, 0, 0)), Rgb8::new(0, 0, 0));
    assert_eq!(vector3f_to_rgb8(v(2, -1, 1)), Rgb8::new(255, 0, 255));
    let half = Vector3::new(Fx::from_ratio(1, 2), Fx::from_ratio(1, 2), Fx::from_ratio(1, 2));
    assert_eq!(vector3f_to_rgb8(half), Rgb8::new(127, 127, 127));
}

#[test]
fn rgb8_to_linear_and_scaling() {
    let lin = rgb8_to_vector3f(Rgb8::new(255, 0, 51));
    assert_eq!(lin.x.bits, 65536);
    assert_eq!(lin.y.bits, 0);
    assert_eq!(lin.z.bits, 51 * 65536 / 255);
    // Halving a pure white color gives mid gray.
    assert_eq!(scale_rgb8(Rgb8::new(255, 255, 255), Fx::from_ratio(1, 2)), Rgb8::new(127, 127, 127));
    // Scaling by one round-trips exactly for channels on the grid; other
    // channels may lose one step to the floor, e.g. 200 comes back as 199.
    assert_eq!(scale_rgb8(Rgb8::new(255, 0, 255), Fx::from_int(1)), Rgb8::new(255, 0, 255));
    assert_eq!(scale_rgb8(Rgb8::new(200, 100, 0), Fx::from_int(1)), Rgb8::new(199, 99, 0));
}

#[test]
fn unit_normals_display_as_half_tones() {
    assert_eq!(normal3f_to_rgb8(v(0, 0, 0)), Rgb8::new(127, 127, 127));
    assert_eq!(normal3f_to_rgb8(v(1, -1, 0)), Rgb8::new(255, 0, 127));
}

#[test]
fn pointwise_sqrt_is_componentwise() {
    let c = Vector3::new(Fx::from_int(4), Fx::from_ratio(1, 4), Fx::zero());
    let r = c.pointwise_sqrt();
    assert_eq!(r.x.bits, 2 * 65536);
    assert_eq!(r.y.bits, 32768);
    assert_eq!(r.z.bits, 0);
}

// The derived viewport height follows width / aspect, and the pixel-to-image
// mapping sends the borders to -1/2 and +1/2 (top row positive).
#[test]
fn viewport_mapping_and_derived_height() {
    let vp = Viewport::new_by_width(Fx::from_int(2), 200);
    assert_eq!(vp.image_width(), 200);
    assert_eq!(vp.image_height(), 100);
    assert_eq!(vp.to_image_u(Fx::zero()).bits, -32768);
    assert_eq!(vp.to_image_u(Fx::from_int(100)).bits, 0);
    assert_eq!(vp.to_image_u(Fx::from_int(200)).bits, 32768);
    assert_eq!(vp.to_image_v(Fx::zero()).bits, 32768);
    assert_eq!(vp.to_image_v(Fx::from_int(50)).bits, 0);
    assert_eq!(vp.to_image_v(Fx::from_int(100)).bits, -32768);
    assert_eq!(vp.aspect_ratio().bits, 2 * 65536);
    assert_eq!(vp.viewport_height().bits, 65536);
    assert_eq!(vp.viewport_width().bits, 2 * 65536);
}

// A square camera's center pixel looks straight down -z at the focal
// length; the camera re-derives its pixel height from the aspect ratio.
#[test]
fn camera_center_ray_looks_down_z() {
    let camera = Camera::new(10, 10);
    assert_eq!(camera.viewport.image_width(), 10);
    assert_eq!(camera.viewport.image_height(), 10);
    let ray = camera.get_ray_from_image_xy(Vector2i::new(5, 5));
    assert_eq!(ray.origin, v(0, 0, 0));
    assert_eq!(ray.direction.x.bits, 0);
    assert_eq!(ray.direction.y.bits, 0);
    assert_eq!(ray.direction.z.bits, -39322);
    let wide = Camera::new(200, 120);
    assert_eq!(wide.viewport.image_width(), 200);
    assert_eq!(wide.viewport.image_height(), 120);
}

#[test]
fn camera_fps_move_shifts_origin() {
    let mut camera = Camera::new(10, 10);
    camera.fps_move(v(1, 0, -2));
    assert_eq!(camera.origin, v(1, 0, -2));
    camera.fps_move(v(0, 3, 0));
    assert_eq!(camera.origin, v(1, 3, -2));
}

// The text encoding of a 3x3 planar buffer, byte for byte.
#[test]
fn ppm_encoding_matches_expected_text() {
    let bufvec = vec![
        255, 255, 255, 0, 0, 0, 0, 0, 0,
        0, 0, 0, 255, 255, 255, 0, 0, 0,
        0, 0, 0, 0, 0, 0, 255, 255, 255,
    ];
    let encoded = ppm_encode(&bufvec, 3, 3);
    let expected = "P3\n3 3\n255\n\
                    255 0 0\n255 0 0\n255 0 0\n\
                    0 255 0\n0 255 0\n0 255 0\n\
                    0 0 255\n0 0 255\n0 0 255\n";
    assert_eq!(String::from_utf8(encoded).unwrap(), expected);
}

#[test]
fn ppm_encoding_of_empty_image_is_header_only() {
    let empty: Vec<u8> = vec![];
    let encoded = ppm_encode(&empty, 0, 0);
    assert_eq!(String::from_utf8(encoded).unwrap(), "P3\n0 0\n255\n");
}
