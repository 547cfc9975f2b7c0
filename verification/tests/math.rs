use sloth_engine::fixed::{div_i128, fx_abs, fx_div, fx_mul, isqrt_i128, SCALE};
use sloth_engine::geometry::{compute_line_parameters, Vec2i, Vec3Fx};
use sloth_engine::renderer::Color;
use sloth_engine::texture::Texture;
use sloth_engine::trig::{cos_fx, sin_fx};

const S: i64 = 65536;

#[test]
fn fixed_point_products_truncate_toward_zero() {
    assert_eq!(fx_mul(3 * S, 2 * S), 6 * S);
    assert_eq!(fx_mul(-3 * S, 2 * S), -6 * S);
    assert_eq!(fx_mul(S / 2, S / 2), S / 4);
    assert_eq!(fx_mul(3, 3), 0);
}

#[test]
fn fixed_point_division_is_total() {
    assert_eq!(fx_div(6 * S, 2 * S), 3 * S);
    assert_eq!(fx_div(-6 * S, 2 * S), -3 * S);
    assert_eq!(fx_div(S, 0), 1099511627776);
    assert_eq!(fx_div(-S, 0), -1099511627776);
    assert_eq!(fx_div(0, 0), 0);
}

#[test]
fn truncating_division_matches_the_spec() {
    assert_eq!(div_i128(7, 2), 3);
    assert_eq!(div_i128(-7, 2), -3);
    assert_eq!(div_i128(7, -2), -3);
    assert_eq!(div_i128(-7, -2), 3);
}

#[test]
fn integer_square_root_is_the_floor() {
    assert_eq!(isqrt_i128(0), 0);
    assert_eq!(isqrt_i128(15), 3);
    assert_eq!(isqrt_i128(16), 4);
    assert_eq!(isqrt_i128(17), 4);
}

#[test]
fn absolute_value_saturates_the_minimum() {
    assert_eq!(fx_abs(-5), 5);
    assert_eq!(fx_abs(5), 5);
    assert_eq!(fx_abs(i64::MIN), i64::MAX);
}

#[test]
fn vector_length_and_normalize_on_a_pythagorean_triple() {
    let v = Vec3Fx::new(3 * S, 4 * S, 0);
    assert_eq!(v.length(), 5 * S);
    let n = v.normalize();
    assert_eq!(n.x, (3 * S) / 5);
    assert_eq!(n.y, (4 * S) / 5);
    assert_eq!(n.z, 0);
    let zero = Vec3Fx::new(0, 0, 0);
    assert_eq!(zero.normalize(), Vec3Fx::new(0, 0, 0));
}

#[test]
fn cross_product_of_axes() {
    let x = Vec3Fx::new(S, 0, 0);
    let y = Vec3Fx::new(0, S, 0);
    assert_eq!(x.cross(y), Vec3Fx::new(0, 0, S));
    assert_eq!(y.cross(x), Vec3Fx::new(0, 0, -S));
}

#[test]
fn sine_and_cosine_at_zero() {
    assert_eq!(sin_fx(0), 0);
    assert_eq!(cos_fx(0), S);
}

#[test]
fn sine_is_odd_on_the_grid() {
    let a = 20000;
    assert_eq!(sin_fx(a), -sin_fx(-a));
}

#[test]
fn line_parameters_of_a_diagonal() {
    let r = compute_line_parameters((0, 0), (2, 2)).unwrap();
    assert_eq!(r.0, S);
    assert_eq!(r.1, 0);
}

#[test]
fn line_parameters_with_an_intercept() {
    // through (1, 3) and (3, 7): gradient two, intercept one
    let r = compute_line_parameters(Vec2i::new(1, 3), Vec2i::new(3, 7)).unwrap();
    assert_eq!(r.0, 2 * S);
    assert_eq!(r.1, S);
}

#[test]
fn vertical_line_has_no_parameters() {
    assert!(compute_line_parameters((5, 0), (5, 9)).is_none());
}

#[test]
fn sampling_clamps_u_and_v_into_the_texture() {
    // 2x2 texture: texels (x, y) hold value 10*x + y in the red channel
    let tex = Texture {
        width: 2,
        height: 2,
        pixels: vec![
            0, 0, 0, 255,  // (0,0)
            10, 0, 0, 255,  // (1,0)
            1, 0, 0, 255,  // (0,1)
            11, 0, 0, 255,  // (1,1)
        ],
    };
    // u past one reads the same texel as u exactly one
    assert_eq!(tex.sample(3 * S / 2, 0), tex.sample(S, 0));
    // u below zero reads the same texel as u exactly zero
    assert_eq!(tex.sample(-S / 2, 0), tex.sample(0, 0));
    // and the same for v
    assert_eq!(tex.sample(0, 3 * S / 2), tex.sample(0, S));
    assert_eq!(tex.sample(0, -S / 2), tex.sample(0, 0));
    // nearest-neighbour addressing
    assert_eq!(tex.sample(0, 0), Color::new(0, 0, 0, 255));
    assert_eq!(tex.sample(S, 0), Color::new(10, 0, 0, 255));
    assert_eq!(tex.sample(0, S), Color::new(1, 0, 0, 255));
    assert_eq!(tex.sample(S, S), Color::new(11, 0, 0, 255));
    assert_eq!(tex.sample(S / 4, S / 4), Color::new(0, 0, 0, 255));
}
