use conectastore::models::price::{binary64_of_whole, binary64_value_of_whole, valid_price};

fn samples() -> Vec<u128> {
    let mut v: Vec<u128> = vec![0, 1, 2, 3, 7, 100, 101, 12345, 1 << 52, (1 << 53) - 1];
    for base in [53u32, 54, 55, 60, 63, 64, 65] {
        let b: u128 = 1 << base;
        for d in [0u128, 1, 2, 3, 4, 5, 6, 7, 8, 9, 100, 1023, 1024, 1025, 2047, 2048, 4095] {
            v.push(b + d);
            v.push(b - 1 - d.min(b - 1));
        }
    }
    v.push((1u128 << 66) - 1);
    let mut x: u128 = 0x9E37_79B9_7F4A_7C15;
    for _ in 0..500 {
        x = x.wrapping_mul(6364136223846793005).wrapping_add(1442695040888963407) & ((1u128 << 66) - 1);
        v.push(x);
        v.push(x >> (x % 64) as u32);
    }
    v
}

#[test]
fn whole_numbers_round_as_floats_do() {
    for n in samples() {
        assert_eq!(binary64_of_whole(n), (n as f64).to_bits(), "n = {n}");
        assert_eq!(binary64_value_of_whole(n), (n as f64) as u128, "n = {n}");
    }
}

#[test]
fn prices_must_be_finite_and_not_negative() {
    for good in [0.0, -0.0, 1.5, 1e300, f64::MAX, f64::MIN_POSITIVE, 5e-324] {
        assert!(valid_price(f64::to_bits(good)), "{good}");
    }
    for bad in [-1.5, -5e-324, f64::NAN, -f64::NAN, f64::INFINITY, f64::NEG_INFINITY, f64::MIN] {
        assert!(!valid_price(f64::to_bits(bad)), "{bad}");
    }
}
