use raytracer::key::{key_bits, order_key};

fn key(x: f32) -> i64 {
    order_key(x.to_bits()).unwrap()
}

#[test]
fn keys_order_as_floats() {
    let xs = [
        f32::NEG_INFINITY,
        f32::MIN,
        -100.5,
        -1.0,
        -f32::MIN_POSITIVE,
        -1.0e-45,
        0.0,
        1.0e-45,
        f32::MIN_POSITIVE,
        0.5,
        1.0,
        100.0,
        f32::MAX,
        f32::INFINITY,
    ];
    for a in xs {
        for b in xs {
            assert_eq!(a < b, key(a) < key(b), "{} {}", a, b);
            assert_eq!(a == b, key(a) == key(b), "{} {}", a, b);
        }
    }
}

#[test]
fn zeros_share_a_key() {
    assert_eq!(key(0.0), 0);
    assert_eq!(key(-0.0), 0);
}

#[test]
fn nan_has_no_key() {
    assert_eq!(order_key(f32::NAN.to_bits()), None);
    assert_eq!(order_key((-f32::NAN).to_bits()), None);
    assert_eq!(order_key(0x7fc0_0001), None);
}

#[test]
fn exact_keys() {
    assert_eq!(key(1.0), 0x3f80_0000);
    assert_eq!(key(-1.0), -0x3f80_0000);
    assert_eq!(key(f32::INFINITY), 0x7f80_0000);
}

#[test]
fn bits_come_back_from_keys() {
    for x in [-3.25f32, -0.5, 0.0, 0.75, 1.0, 2.5e10, f32::MAX, f32::NEG_INFINITY] {
        assert_eq!(f32::from_bits(key_bits(key(x))), x);
        assert_eq!(key_bits(key(x)), x.to_bits());
    }
    assert_eq!(key_bits(0), 0);
}
