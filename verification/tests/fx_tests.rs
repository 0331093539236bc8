use heli::fx::{add_fx, div_fx, emod_fx, isqrt, mul_fx, sub_fx, MAX_FX};
use heli::rot::{cos_fx, norm_angle, rotate_v, sin_fx, HALF_PI_FX, PI_FX, TAU_FX};
use heli::vec2::{add_v, cross, dot, len_v, norm_v, sub_v, V2};

#[test]
fn fixed_point_arithmetic_is_exact_in_range() {
    assert_eq!(add_fx(1500, -300), 1200);
    assert_eq!(sub_fx(1500, -300), 1800);
    assert_eq!(mul_fx(2000, 3000), 6000);
    assert_eq!(mul_fx(-2000, 3000), -6000);
    assert_eq!(mul_fx(1, 999), 0);
    assert_eq!(mul_fx(-1, 999), 0);
    assert_eq!(div_fx(1000, 3000), 333);
    assert_eq!(div_fx(-1000, 3000), -333);
}

#[test]
fn fixed_point_saturates_at_the_edges() {
    assert_eq!(add_fx(MAX_FX, 1), MAX_FX);
    assert_eq!(sub_fx(-MAX_FX, 1), -MAX_FX);
    assert_eq!(mul_fx(MAX_FX, 2000), MAX_FX);
    assert_eq!(mul_fx(MAX_FX, -2000), -MAX_FX);
}

#[test]
fn euclidean_remainder_is_never_negative() {
    assert_eq!(emod_fx(7, 3), 1);
    assert_eq!(emod_fx(-7, 3), 2);
    assert_eq!(emod_fx(-6, 3), 0);
}

#[test]
fn integer_square_root_rounds_down() {
    assert_eq!(isqrt(0), 0);
    assert_eq!(isqrt(10), 3);
    assert_eq!(isqrt(25), 5);
    assert_eq!(isqrt(24), 4);
}

#[test]
fn vector_ops() {
    let a = V2 { x: 3000, y: 4000 };
    let b = V2 { x: 1000, y: -2000 };
    assert_eq!(add_v(a, b), V2 { x: 4000, y: 2000 });
    assert_eq!(sub_v(a, b), V2 { x: 2000, y: 6000 });
    assert_eq!(dot(a, b), 3000 - 8000);
    assert_eq!(cross(a, b), -6000 - 4000);
    assert_eq!(len_v(a), 5000);
    assert_eq!(norm_v(a), V2 { x: 600, y: 800 });
    assert_eq!(norm_v(V2 { x: 0, y: 0 }), V2 { x: 0, y: 0 });
}

#[test]
fn trig_is_exact_at_the_axes() {
    assert_eq!(sin_fx(0), 0);
    assert_eq!(cos_fx(0), 1000);
    assert_eq!(sin_fx(HALF_PI_FX), 1000);
    assert_eq!(sin_fx(PI_FX), 0);
    assert_eq!(sin_fx(PI_FX + HALF_PI_FX), -1000);
    assert_eq!(sin_fx(-HALF_PI_FX), -1000);
}

#[test]
fn rotate_by_zero_is_identity() {
    let v = V2 { x: 123, y: -456 };
    assert_eq!(rotate_v(0, v), v);
}

#[test]
fn rotate_quarter_turn_sends_up_to_left() {
    let up = V2 { x: 0, y: 1000 };
    let r = rotate_v(HALF_PI_FX, up);
    assert_eq!(r, V2 { x: -1000, y: 0 });
}

#[test]
fn angles_fold_into_one_turn() {
    assert_eq!(norm_angle(0), 0);
    assert_eq!(norm_angle(TAU_FX), 0);
    assert_eq!(norm_angle(PI_FX + TAU_FX), -PI_FX);
    assert!(norm_angle(123456) >= -PI_FX && norm_angle(123456) < PI_FX);
}
