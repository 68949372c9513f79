use planets::fixed::fx_add;
use planets::fixed::fx_sub;
use planets::fixed::fx_mul;
use planets::fixed::fx_div;
use planets::fixed::fx_sqrt;
use planets::fixed::fx_sin;
use planets::fixed::fx_cos;
use planets::fixed::euclid_div_rem;
use planets::fixed::isqrt;
use planets::fixed::FX_ONE;
use planets::fixed::FX_MAX;
use planets::fixed::FX_MIN;
use planets::fixed::FX_PI;

#[test]
fn add_and_sub_are_exact_in_range() {
    assert_eq!(fx_add(65536, 65536), 131072);
    assert_eq!(fx_sub(65536, 131072), -65536);
    assert_eq!(fx_add(FX_MAX, FX_MAX), FX_MAX);
    assert_eq!(fx_sub(FX_MIN, FX_MAX), FX_MIN);
}

#[test]
fn mul_matches_fixed_point_product() {
    // 2.0 * 3.0 == 6.0
    assert_eq!(fx_mul(131072, 196608), 393216);
    // 0.5 * 0.5 == 0.25
    assert_eq!(fx_mul(32768, 32768), 16384);
    // signs round toward zero
    assert_eq!(fx_mul(-131072, 196608), -393216);
    assert_eq!(fx_mul(1, 1), 0);
}

#[test]
fn div_matches_fixed_point_quotient() {
    // 6.0 / 3.0 == 2.0
    assert_eq!(fx_div(393216, 196608), 131072);
    // 1.0 / 2.0 == 0.5
    assert_eq!(fx_div(FX_ONE, 131072), 32768);
    assert_eq!(fx_div(FX_ONE, 0), 0);
    assert_eq!(fx_div(-393216, 196608), -131072);
}

#[test]
fn integer_square_root_is_exact() {
    assert_eq!(isqrt(0), 0);
    assert_eq!(isqrt(1), 1);
    assert_eq!(isqrt(3), 1);
    assert_eq!(isqrt(4), 2);
    assert_eq!(isqrt(1 << 40), 1 << 20);
    // 4.0 in fixed point has square root 2.0
    assert_eq!(fx_sqrt(4 * FX_ONE), 2 * FX_ONE);
}

#[test]
fn euclidean_division_floors() {
    assert_eq!(euclid_div_rem(7, 3), (2, 1));
    assert_eq!(euclid_div_rem(-7, 3), (-3, 2));
    assert_eq!(euclid_div_rem(-6, 3), (-2, 0));
}

#[test]
fn sine_and_cosine_at_key_angles() {
    assert_eq!(fx_sin(0), 0);
    assert_eq!(fx_sin(FX_PI), 0);
    // cos 0 is 1 up to the approximation's rounding
    let c0 = fx_cos(0);
    assert!(c0 > 65000 && c0 <= FX_ONE, "cos(0) = {c0}");
    // sin(pi/2) is 1 up to rounding
    let s = fx_sin(102944);
    assert!(s > 65000 && s <= FX_ONE, "sin(pi/2) = {s}");
    // odd symmetry over the period: sin(3 pi / 2) is about -1
    let s2 = fx_sin(308831);
    assert!(s2 < -65000 && s2 >= -FX_ONE, "sin(3pi/2) = {s2}");
    // bounded everywhere
    for k in 0..200 {
        let v = fx_sin(k * 12345 - 1000000);
        assert!(-FX_ONE <= v && v <= FX_ONE);
    }
}
