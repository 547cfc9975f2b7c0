use sloth_engine::renderer::{Color, Renderer, DEPTH_SENTINEL};
use sloth_engine::texture::Texture;
use sloth_engine::geometry::{Vec2Fx, Vec3Fx};

const S: i64 = 65536;

fn red_1x1() -> Texture {
    Texture { width: 1, height: 1, pixels: vec![255, 0, 0, 255] }
}

fn blue_1x1() -> Texture {
    Texture { width: 1, height: 1, pixels: vec![0, 0, 255, 255] }
}

#[test]
fn clear_round_trip_returns_background_everywhere() {
    let mut r = Renderer::new(4, 4);
    let c = Color::new(10, 20, 30, 40);
    r.clear(c);
    for i in 0..16usize {
        assert_eq!(r.get_pixel_color(i).unwrap(), Color::new(10, 20, 30, 40));
    }
}

#[test]
fn clear_leaves_depth_buffer_alone() {
    let mut r = Renderer::new(2, 2);
    r.clear(Color::new(1, 2, 3, 4));
    for i in 0..4usize {
        assert_eq!(r.get_depth(i).unwrap(), DEPTH_SENTINEL);
    }
}

#[test]
fn set_and_get_pixel_round_trip() {
    let mut r = Renderer::new(3, 2);
    let c = Color::new(9, 8, 7, 6);
    assert!(r.set_pixel(4, c).is_ok());
    assert_eq!(r.get_pixel_color(4).unwrap(), c);
}

#[test]
fn out_of_bounds_pixel_access_is_reported() {
    let mut r = Renderer::new(2, 2);
    assert!(r.set_pixel(4, Color::new(0, 0, 0, 0)).is_err());
    assert!(r.get_pixel_color(4).is_err());
    assert!(r.get_depth(4).is_err());
}

#[test]
fn triangle_fills_exactly_the_covered_pixels() {
    // A 4x4 framebuffer, depth reset to the sentinel, one triangle with
    // screen corners (0,0), (3,0), (0,3), all at depth 1.0, full intensity,
    // and a solid red 1x1 texture: exactly the pixels with x + y <= 3 are
    // filled opaque red at depth 1.0; everything else keeps the background.
    let background = Color::new(7, 7, 7, 7);
    let mut r = Renderer::new(4, 4);
    r.clear(background);
    r.reset_z_buffer();
    let tex = red_1x1();
    r.triangle2d(
        Vec3Fx::new(0, 0, S),
        Vec3Fx::new(3 * S, 0, S),
        Vec3Fx::new(0, 3 * S, S),
        Vec2Fx::new(0, 0),
        Vec2Fx::new(0, 0),
        Vec2Fx::new(0, 0),
        &tex,
        S,
    );
    for y in 0..4usize {
        for x in 0..4usize {
            let idx = x + y * 4;
            if x + y <= 3 {
                assert_eq!(r.get_pixel_color(idx).unwrap(), Color::new(255, 0, 0, 255));
                assert_eq!(r.get_depth(idx).unwrap(), S);
            } else {
                assert_eq!(r.get_pixel_color(idx).unwrap(), background);
                assert_eq!(r.get_depth(idx).unwrap(), DEPTH_SENTINEL);
            }
        }
    }
}

#[test]
fn depth_test_is_order_independent() {
    // Two triangles covering the whole 2x2 viewport at depths 1.0 and 2.0:
    // in either draw order, the deeper (greater) one wins every pixel.
    let red = red_1x1();
    let blue = blue_1x1();
    let shallow = [Vec3Fx::new(0, 0, S), Vec3Fx::new(8 * S, 0, S), Vec3Fx::new(0, 8 * S, S)];
    let deep = [
        Vec3Fx::new(0, 0, 2 * S),
        Vec3Fx::new(8 * S, 0, 2 * S),
        Vec3Fx::new(0, 8 * S, 2 * S),
    ];
    let uv = Vec2Fx::new(0, 0);

    let mut ab = Renderer::new(2, 2);
    ab.reset_z_buffer();
    ab.triangle2d(shallow[0], shallow[1], shallow[2], uv, uv, uv, &red, S);
    ab.triangle2d(deep[0], deep[1], deep[2], uv, uv, uv, &blue, S);

    let mut ba = Renderer::new(2, 2);
    ba.reset_z_buffer();
    ba.triangle2d(deep[0], deep[1], deep[2], uv, uv, uv, &blue, S);
    ba.triangle2d(shallow[0], shallow[1], shallow[2], uv, uv, uv, &red, S);

    for i in 0..4usize {
        assert_eq!(ab.get_pixel_color(i).unwrap(), Color::new(0, 0, 255, 255));
        assert_eq!(ba.get_pixel_color(i).unwrap(), Color::new(0, 0, 255, 255));
        assert_eq!(ab.get_depth(i).unwrap(), 2 * S);
        assert_eq!(ba.get_depth(i).unwrap(), 2 * S);
    }
}

#[test]
fn degenerate_triangle_fills_nothing() {
    // All three corners on one line: the weight basis is degenerate and no
    // pixel passes the inside test.
    let background = Color::new(0, 0, 0, 0);
    let mut r = Renderer::new(4, 4);
    r.reset_z_buffer();
    let tex = red_1x1();
    let uv = Vec2Fx::new(0, 0);
    r.triangle2d(
        Vec3Fx::new(0, 0, S),
        Vec3Fx::new(S, S, S),
        Vec3Fx::new(2 * S, 2 * S, S),
        uv,
        uv,
        uv,
        &tex,
        S,
    );
    for i in 0..16usize {
        assert_eq!(r.get_pixel_color(i).unwrap(), background);
        assert_eq!(r.get_depth(i).unwrap(), DEPTH_SENTINEL);
    }
}

#[test]
fn scale_by_intensity_truncates_each_channel() {
    let c = Color::new(100, 200, 50, 255);
    let half = c.scale_by_intensity(S / 2);
    assert_eq!(half, Color::new(50, 100, 25, 127));
    let full = c.scale_by_intensity(S);
    assert_eq!(full, c);
    let off = c.scale_by_intensity(0);
    assert_eq!(off, Color::new(0, 0, 0, 0));
}

#[test]
fn flip_vertically_reverses_rows() {
    let mut r = Renderer::new(1, 2);
    let top = Color::new(1, 1, 1, 1);
    let bottom = Color::new(2, 2, 2, 2);
    r.set_pixel(0, bottom).unwrap();
    r.set_pixel(1, top).unwrap();
    r.flip_vertically();
    assert_eq!(r.get_pixel_color(0).unwrap(), top);
    assert_eq!(r.get_pixel_color(1).unwrap(), bottom);
}

#[test]
fn write_to_buffer_copies_pixels_and_keeps_the_rest() {
    let mut r = Renderer::new(2, 1);
    r.set_pixel(0, Color::new(1, 2, 3, 4)).unwrap();
    r.set_pixel(1, Color::new(5, 6, 7, 8)).unwrap();
    let mut frame = vec![9u8; 9];
    r.write_to_buffer(&mut frame);
    assert_eq!(frame, vec![1, 2, 3, 4, 5, 6, 7, 8, 9]);
}

#[test]
fn line_draws_up_to_the_final_column() {
    let mut r = Renderer::new(4, 4);
    let c = Color::new(255, 255, 255, 255);
    r.line((0, 0), (3, 0), c);
    assert_eq!(r.get_pixel_color(0).unwrap(), c);
    assert_eq!(r.get_pixel_color(1).unwrap(), c);
    assert_eq!(r.get_pixel_color(2).unwrap(), c);
    // the scan is exclusive of the final column
    assert_eq!(r.get_pixel_color(3).unwrap(), Color::new(0, 0, 0, 0));
}

#[test]
fn uv_interpolation_hits_the_corner_texels() {
    // 2x2 texture, texel (x, y) holds 10*x + y in red; the triangle's corner
    // pixels carry the corner UVs, so each samples its own texel.
    let tex = Texture {
        width: 2,
        height: 2,
        pixels: vec![
            0, 0, 0, 255, 10, 0, 0, 255, 1, 0, 0, 255, 11, 0, 0, 255,
        ],
    };
    let mut r = Renderer::new(4, 4);
    r.reset_z_buffer();
    r.triangle2d(
        Vec3Fx::new(0, 0, S),
        Vec3Fx::new(3 * S, 0, S),
        Vec3Fx::new(0, 3 * S, S),
        Vec2Fx::new(0, 0),
        Vec2Fx::new(S, 0),
        Vec2Fx::new(S, S),
        &tex,
        S,
    );
    // (0,0): third weight is one, so the third UV (1,1) is sampled
    assert_eq!(r.get_pixel_color(0).unwrap(), Color::new(11, 0, 0, 255));
    // (3,0): first weight is one, so the first UV (0,0) is sampled
    assert_eq!(r.get_pixel_color(3).unwrap(), Color::new(0, 0, 0, 255));
    // (0,3): second weight is one, so the second UV (1,0) is sampled
    assert_eq!(r.get_pixel_color(12).unwrap(), Color::new(10, 0, 0, 255));
}

#[test]
fn triangle_is_clamped_to_the_viewport() {
    // a triangle covering far beyond the viewport fills every pixel but
    // writes nothing out of bounds
    let mut r = Renderer::new(2, 2);
    r.reset_z_buffer();
    let tex = red_1x1();
    let uv = Vec2Fx::new(0, 0);
    r.triangle2d(
        Vec3Fx::new(-100 * S, -100 * S, S),
        Vec3Fx::new(300 * S, -100 * S, S),
        Vec3Fx::new(-100 * S, 300 * S, S),
        uv,
        uv,
        uv,
        &tex,
        S,
    );
    for i in 0..4usize {
        assert_eq!(r.get_pixel_color(i).unwrap(), Color::new(255, 0, 0, 255));
    }
}

#[test]
fn flip_vertically_keeps_the_middle_row_of_an_odd_height() {
    let mut r = Renderer::new(1, 3);
    r.set_pixel(0, Color::new(1, 0, 0, 0)).unwrap();
    r.set_pixel(1, Color::new(2, 0, 0, 0)).unwrap();
    r.set_pixel(2, Color::new(3, 0, 0, 0)).unwrap();
    r.flip_vertically();
    assert_eq!(r.get_pixel_color(0).unwrap(), Color::new(3, 0, 0, 0));
    assert_eq!(r.get_pixel_color(1).unwrap(), Color::new(2, 0, 0, 0));
    assert_eq!(r.get_pixel_color(2).unwrap(), Color::new(1, 0, 0, 0));
}

#[test]
fn line_with_an_endpoint_outside_draws_nothing() {
    let mut r = Renderer::new(4, 4);
    r.line((0, 0), (5, 0), Color::new(255, 255, 255, 255));
    for i in 0..16usize {
        assert_eq!(r.get_pixel_color(i).unwrap(), Color::new(0, 0, 0, 0));
    }
}
