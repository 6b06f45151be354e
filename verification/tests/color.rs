use pathtracer::decimal::push_numeral;
use pathtracer::scalar::Scalar;
use pathtracer::vec3::{channel, Vec3, BRIGHTEST_BITS, NEAR_ZERO_BITS};
use rand::rngs::StdRng;
use rand::{Rng, SeedableRng};

fn s(x: f32) -> Scalar {
    Scalar::from_bits(x.to_bits())
}

fn v(x: f32, y: f32, z: f32) -> Vec3 {
    Vec3::new(s(x), s(y), s(z))
}

fn by_hardware(x: f32) -> u32 {
    (256.0 * x.clamp(0.0, 0.999)) as u32
}

#[test]
fn colour_constants_are_the_patterns_they_name() {
    assert_eq!(BRIGHTEST_BITS, 0.999f32.to_bits());
    assert_eq!(NEAR_ZERO_BITS, 1.0e-8f32.to_bits());
}

#[test]
fn channel_of_black_is_0() {
    assert_eq!(channel(s(0.0)), 0);
    assert_eq!(channel(s(-0.0)), 0);
}

#[test]
fn channel_of_full_white_is_255() {
    assert_eq!(channel(s(1.0)), 255);
}

#[test]
fn channel_cuts_to_the_integer_part() {
    assert_eq!(channel(s(0.5)), 128);
    assert_eq!(channel(s(0.25)), 64);
    assert_eq!(channel(s(0.7)), 179);
    assert_eq!(channel(s(0.003_906_25)), 1);
    assert_eq!(channel(s(0.003_906)), 0);
    assert_eq!(channel(s(0.999)), 255);
    assert_eq!(channel(s(0.996_093_75)), 255);
    assert_eq!(channel(s(0.996_093_7)), 254);
}

#[test]
fn channel_clamps_what_lies_outside() {
    assert_eq!(channel(s(-1.0)), 0);
    assert_eq!(channel(s(f32::NEG_INFINITY)), 0);
    assert_eq!(channel(s(2.0)), 255);
    assert_eq!(channel(s(f32::MAX)), 255);
    assert_eq!(channel(s(f32::INFINITY)), 255);
}

#[test]
fn channel_of_a_nan_is_0() {
    assert_eq!(channel(s(f32::NAN)), 0);
    assert_eq!(channel(s(-f32::NAN)), 0);
    assert_eq!(channel(s((-1.0f32).sqrt())), 0);
}

#[test]
fn channel_of_a_subnormal_is_0() {
    assert_eq!(channel(s(f32::from_bits(1))), 0);
    assert_eq!(channel(s(f32::from_bits(0x007f_ffff))), 0);
    assert_eq!(channel(s(f32::MIN_POSITIVE)), 0);
}

#[test]
fn channel_agrees_with_the_hardware_on_random_patterns() {
    let mut rng = StdRng::seed_from_u64(0xc0105);
    for _ in 0..200_000 {
        let x = f32::from_bits(rng.gen::<u32>());
        assert_eq!(channel(s(x)), by_hardware(x), "{:?}", x);
    }
}

#[test]
fn channel_agrees_with_the_hardware_between_0_and_1() {
    let mut rng = StdRng::seed_from_u64(0xc0106);
    for _ in 0..200_000 {
        let x: f32 = rng.gen();
        assert_eq!(channel(s(x)), by_hardware(x), "{:?}", x);
        assert!(channel(s(x)) <= 255);
    }
    for k in 0..=256u32 {
        let x = k as f32 / 256.0;
        assert_eq!(channel(s(x)), by_hardware(x), "{:?}", x);
        let below = f32::from_bits(x.to_bits().wrapping_sub(1));
        assert_eq!(channel(s(below)), by_hardware(below), "{:?}", below);
    }
}

#[test]
fn gamma_corrected_average_of_identical_samples() {
    for n in [1u32, 2, 10, 300] {
        let mut black = 0.0f32;
        let mut white = 0.0f32;
        for _ in 0..n {
            black += 0.0;
            white += 1.0;
        }
        let black = (black / n as f32).sqrt();
        let white = (white / n as f32).sqrt();
        assert_eq!(v(black, black, black).format_color(), "0 0 0");
        assert_eq!(v(white, white, white).format_color(), "255 255 255");
    }
}

#[test]
fn format_color_writes_three_display_values() {
    assert_eq!(v(0.0, 0.0, 0.0).format_color(), "0 0 0");
    assert_eq!(v(1.0, 1.0, 1.0).format_color(), "255 255 255");
    assert_eq!(v(0.5, 0.25, 0.7).format_color(), "128 64 179");
    assert_eq!(v(2.0, -1.0, f32::NAN).format_color(), "255 0 0");
    assert_eq!(v(0.04, 0.4, 0.999).format_color(), "10 102 255");
}

#[test]
fn format_color_agrees_with_the_hardware() {
    let mut rng = StdRng::seed_from_u64(99);
    for _ in 0..20_000 {
        let (r, g, b): (f32, f32, f32) = (rng.gen(), rng.gen(), rng.gen());
        let expected = format!("{} {} {}", by_hardware(r), by_hardware(g), by_hardware(b));
        assert_eq!(v(r, g, b).format_color(), expected);
    }
}

#[test]
fn push_numeral_appends_the_decimal_digits() {
    let mut text = String::new();
    push_numeral(&mut text, 0);
    assert_eq!(text, "0");
    push_numeral(&mut text, 7);
    assert_eq!(text, "07");
    push_numeral(&mut text, 10);
    assert_eq!(text, "0710");
    push_numeral(&mut text, 4_294_967_295);
    assert_eq!(text, "07104294967295");
    let mut other = String::from("n=");
    push_numeral(&mut other, 1_000_000);
    assert_eq!(other, "n=1000000");
}

#[test]
fn push_numeral_agrees_with_std() {
    let mut rng = StdRng::seed_from_u64(5);
    for _ in 0..20_000 {
        let n: u32 = rng.gen();
        let n = n >> (rng.gen::<u32>() % 32);
        let mut text = String::new();
        push_numeral(&mut text, n);
        assert_eq!(text, format!("{}", n));
    }
}

#[test]
fn neg_negates_every_component() {
    assert_eq!(v(1.0, -2.0, 0.0).neg(), v(-1.0, 2.0, -0.0));
    assert_eq!(v(1.0, -2.0, 3.0).neg().neg(), v(1.0, -2.0, 3.0));
}

#[test]
fn new_keeps_the_components() {
    let a = v(1.0, 2.0, 3.0);
    assert_eq!(a.x.to_bits(), 1.0f32.to_bits());
    assert_eq!(a.y.to_bits(), 2.0f32.to_bits());
    assert_eq!(a.z.to_bits(), 3.0f32.to_bits());
}

#[test]
fn near_zero_tells_short_vectors() {
    assert!(v(0.0, 0.0, 0.0).near_zero());
    assert!(v(-0.0, 0.0, -0.0).near_zero());
    assert!(v(9.0e-9, -9.0e-9, 1.0e-20).near_zero());
    assert!(!v(1.0e-8, 0.0, 0.0).near_zero());
    assert!(!v(0.0, -1.0e-8, 0.0).near_zero());
    assert!(!v(0.0, 0.0, 1.0).near_zero());
    assert!(!v(0.0, f32::NAN, 0.0).near_zero());
    assert!(!v(f32::INFINITY, 0.0, 0.0).near_zero());
}

#[test]
fn near_zero_agrees_with_the_hardware() {
    let mut rng = StdRng::seed_from_u64(31);
    for _ in 0..100_000 {
        let x = f32::from_bits(rng.gen::<u32>() % 0x3400_0000 + 0x3000_0000 * (rng.gen::<u32>() % 2));
        let y = f32::from_bits(rng.gen::<u32>() % 0x3400_0000);
        let z = -f32::from_bits(rng.gen::<u32>() % 0x3400_0000);
        let eps = 1.0e-8f32;
        let expected = x.abs() < eps && y.abs() < eps && z.abs() < eps;
        assert_eq!(v(x, y, z).near_zero(), expected, "{:?} {:?} {:?}", x, y, z);
    }
}
