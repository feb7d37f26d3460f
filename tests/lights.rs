use phong::color::{Coeffs, RGB};
use phong::lights::LightConfig;
use phong::vector::Vec3;

fn v(x: i16, y: i16, z: i16) -> Vec3 {
    Vec3 { x, y, z }
}

fn rgb(red: u8, green: u8, blue: u8) -> RGB {
    RGB { red, green, blue }
}

fn coeffs(red: u16, green: u16, blue: u16) -> Coeffs {
    Coeffs { red, green, blue }
}

#[test]
fn test_light_fixture_fields() {
    let l = LightConfig::test_light();
    assert_eq!(l.view, v(0, 0, 1));
    assert_eq!(l.ambient_color, rgb(0, 0, 0));
    assert_eq!(l.dir_color, rgb(252, 219, 3));
    assert_eq!(l.dir_vec, v(2, 3, 4));
    assert_eq!(l.areflect, coeffs(100, 100, 100));
    assert_eq!(l.dreflect, coeffs(500, 500, 500));
    assert_eq!(l.sreflect, coeffs(500, 500, 500));
}

#[test]
fn test_light_normal_along_z() {
    let l = LightConfig::test_light();
    let c = l.get_color_from_norm(v(0, 0, 1));
    assert_eq!(c, rgb(100, 86, 1));
}

#[test]
fn test_light_normal_along_z_matches_floats() {
    let l = LightConfig::test_light();
    let c = l.get_color_from_norm(v(0, 0, 1));
    let d = [0.5f64, 0.75, 1.0];
    let len = (d[0] * d[0] + d[1] * d[1] + d[2] * d[2]).sqrt();
    let ndotdir = d[2] / len;
    let refl = 2.0 * ndotdir - d[2] / len;
    let spec = refl.max(0.0).powi(10);
    let expected: Vec<f64> = [252.0f64, 219.0, 3.0]
        .iter()
        .map(|ch| (ch * 0.5 * ndotdir).min(255.0) + (ch * 0.5 * spec).min(255.0))
        .collect();
    let got = [c.red as f64, c.green as f64, c.blue as f64];
    for i in 0..3 {
        assert!((got[i] - expected[i]).abs() <= 1.0, "channel {} {} {}", i, got[i], expected[i]);
    }
}

#[test]
fn normal_along_light_direction() {
    let l = LightConfig::test_light();
    assert_eq!(l.get_color_from_norm(v(2, 3, 4)), rgb(132, 115, 1));
}

#[test]
fn normal_at_right_angle_to_view() {
    let l = LightConfig::test_light();
    assert_eq!(l.get_color_from_norm(v(1, 0, 0)), rgb(46, 40, 0));
    assert_eq!(l.get_color_from_norm(v(0, 1, 0)), rgb(70, 61, 0));
}

#[test]
fn scaled_normal_gives_same_color() {
    let l = LightConfig::test_light();
    assert_eq!(l.get_color_from_norm(v(0, 0, 7)), l.get_color_from_norm(v(0, 0, 1)));
    assert_eq!(l.get_color_from_norm(v(4, 6, 8)), l.get_color_from_norm(v(2, 3, 4)));
    assert_eq!(
        l.get_color_from_norm(v(300, -200, 1000)),
        l.get_color_from_norm(v(3, -2, 10))
    );
}

#[test]
fn light_behind_surface_gives_only_ambient() {
    let mut l = LightConfig::test_light();
    assert_eq!(l.get_color_from_norm(v(0, 0, -1)), rgb(0, 0, 0));
    l.ambient_color = rgb(200, 100, 50);
    assert_eq!(l.get_color_from_norm(v(-2, -3, -4)), rgb(20, 10, 5));
}

#[test]
fn light_behind_with_viewer_facing_the_light() {
    let l = LightConfig {
        view: v(0, 0, -1),
        ambient_color: rgb(0, 0, 0),
        dir_color: rgb(100, 100, 100),
        dir_vec: v(0, 0, 1),
        areflect: coeffs(0, 0, 0),
        dreflect: coeffs(1000, 1000, 1000),
        sreflect: coeffs(1000, 1000, 1000),
    };
    assert_eq!(l.get_color_from_norm(v(0, 0, -1)), rgb(100, 100, 100));
}

#[test]
fn black_directional_light_leaves_ambient_only() {
    let l = LightConfig {
        view: v(0, 0, 1),
        ambient_color: rgb(200, 100, 50),
        dir_color: rgb(0, 0, 0),
        dir_vec: v(0, 0, 1),
        areflect: coeffs(500, 250, 1000),
        dreflect: coeffs(500, 500, 500),
        sreflect: coeffs(500, 500, 500),
    };
    assert_eq!(l.get_color_from_norm(v(1, 2, 3)), rgb(100, 25, 50));
    assert_eq!(l.get_color_from_norm(v(0, 0, 1)), rgb(100, 25, 50));
}

#[test]
fn zero_normal_is_deterministic() {
    let l = LightConfig::test_light();
    assert_eq!(l.get_color_from_norm(v(0, 0, 0)), rgb(0, 0, 0));
    let facing = LightConfig {
        view: v(0, 0, -1),
        ambient_color: rgb(0, 0, 0),
        dir_color: rgb(100, 100, 100),
        dir_vec: v(0, 0, 1),
        areflect: coeffs(0, 0, 0),
        dreflect: coeffs(1000, 1000, 1000),
        sreflect: coeffs(1000, 1000, 1000),
    };
    assert_eq!(facing.get_color_from_norm(v(0, 0, 0)), rgb(100, 100, 100));
}

#[test]
fn sum_of_terms_saturates_at_255() {
    let l = LightConfig {
        view: v(0, 0, 1),
        ambient_color: rgb(255, 255, 255),
        dir_color: rgb(255, 255, 255),
        dir_vec: v(0, 0, 1),
        areflect: coeffs(1000, 1000, 1000),
        dreflect: coeffs(1000, 1000, 1000),
        sreflect: coeffs(1000, 1000, 1000),
    };
    assert_eq!(l.get_color_from_norm(v(0, 0, 1)), rgb(255, 255, 255));
}

#[test]
fn large_coefficients_clamp_each_term() {
    let l = LightConfig {
        view: v(0, 0, 1),
        ambient_color: rgb(100, 0, 0),
        dir_color: rgb(0, 0, 0),
        dir_vec: v(0, 0, 1),
        areflect: coeffs(65535, 0, 0),
        dreflect: coeffs(0, 0, 0),
        sreflect: coeffs(0, 0, 0),
    };
    assert_eq!(l.get_color_from_norm(v(0, 0, 1)), rgb(255, 0, 0));
}
