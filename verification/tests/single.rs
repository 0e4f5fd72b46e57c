use archet::double::Double;
use archet::single::Single;

fn s(x: f32) -> Single {
    Single { bits: x.to_bits() }
}

fn samples() -> Vec<f32> {
    let mut v = vec![
        0.0, -0.0, 1.0, -1.0, 0.5, 1.5, 2.0, 1e-4, 1e-3, 1e-45, -1e-45, 1e-38, 3.4e38, -3.4e38,
        f32::INFINITY, f32::NEG_INFINITY, f32::NAN, -f32::NAN, 0.99999994, 1.0000001, 123.456, -7.25,
        f32::MIN_POSITIVE, 8388608.0, 16777216.0,
    ];
    let mut x: u32 = 0x1234_5678;
    for _ in 0..200 {
        x ^= x << 13;
        x ^= x >> 17;
        x ^= x << 5;
        v.push(f32::from_bits(x));
    }
    v
}

#[test]
fn comparisons_are_the_machines_own() {
    for &a in &samples() {
        for &b in &samples() {
            assert_eq!(s(a).lt(s(b)), a < b, "{a} < {b}");
            assert_eq!(s(a).gt(s(b)), a > b, "{a} > {b}");
            assert_eq!(s(a).ge(s(b)), a >= b, "{a} >= {b}");
            assert_eq!(s(a).le(s(b)), a <= b, "{a} <= {b}");
            assert_eq!(s(a).same(s(b)), a == b, "{a} == {b}");
        }
        assert_eq!(s(a).is_number(), !a.is_nan());
        assert_eq!(s(a).is_below_zero(), a < 0.0);
        assert_eq!(s(a).abs().bits, a.abs().to_bits());
        assert_eq!(s(a).neg().bits, (-a).to_bits());
    }
}

#[test]
fn the_larger_of_two_is_the_machines_own() {
    for &a in &samples() {
        for &b in &samples() {
            if a.is_nan() && b.is_nan() {
                assert!(!s(a).max(s(b)).is_number());
            } else if a != b {
                assert_eq!(s(a).max(s(b)).bits, a.max(b).to_bits(), "{a} {b}");
            }
        }
    }
}

#[test]
fn a_ratio_reads_as_the_decimal_literal() {
    assert_eq!(Single::ratio(13, 100).bits, 0.13f32.to_bits());
    assert_eq!(Single::ratio(45, 1000).bits, 0.045f32.to_bits());
    assert_eq!(Single::ratio(58, 10).bits, 5.8f32.to_bits());
    assert_eq!(Single::ratio(1947, 10).bits, 194.7f32.to_bits());
    assert_eq!(Single::ratio(0, 7).bits, 0.0f32.to_bits());
    assert_eq!(Single::ratio(1, 1_000_000_000).bits, 1e-9f32.to_bits());
    assert_eq!(Single::ratio(2, 100_000).bits, 2.0e-5f32.to_bits());
    // A tie goes to the even pattern: 16777215 over 2 has no exact single.
    for n in 0..2000u32 {
        for d in [1u32, 2, 3, 7, 10, 100, 1000, 12345, 16_777_215] {
            assert_eq!(Single::ratio(n, d).bits, (n as f32 / d as f32).to_bits(), "{n}/{d}");
        }
    }
    for n in [16_777_213u32, 16_777_214, 16_777_215] {
        for d in [1u32, 2, 3, 4, 8, 16_777_215] {
            assert_eq!(Single::ratio(n, d).bits, (n as f32 / d as f32).to_bits(), "{n}/{d}");
        }
    }
}

#[test]
fn a_whole_part_is_cut_and_a_count_is_rounded() {
    for &a in &samples() {
        assert_eq!(s(a).whole(3) as usize, (a as usize).min(3), "{a}");
        assert_eq!(s(a).rounded(8) as usize, (a.round() as usize).min(8), "{a}");
    }
    for i in 0..200 {
        let a = i as f32 * 0.0625;
        assert_eq!(s(a).whole(8) as usize, (a as usize).min(8), "{a}");
        assert_eq!(s(a).rounded(8) as usize, (a.round() as usize).min(8), "{a}");
    }
}

#[test]
fn a_clamp_is_the_machines_own() {
    for &a in &samples() {
        assert_eq!(s(a).clamp(s(0.0), s(2.0)).bits, a.clamp(0.0, 2.0).to_bits(), "{a}");
    }
}

#[test]
fn decimals_keep_their_order() {
    let mut last = Single::ratio(0, 1000);
    for n in 1..5000u32 {
        let next = Single::ratio(n, 1000);
        assert!(last.le(next));
        last = next;
    }
}

#[test]
fn doubles_compare_as_the_machines_own() {
    let v: Vec<f64> = vec![
        0.0, -0.0, 1.0, -1.0, 1e-300, -1e-300, 5e-324, 1e300, f64::INFINITY, f64::NEG_INFINITY, f64::NAN, 0.1, 0.3,
    ];
    for &a in &v {
        for &b in &v {
            let (x, y) = (Double { bits: a.to_bits() }, Double { bits: b.to_bits() });
            assert_eq!(x.lt(y), a < b, "{a} {b}");
            assert_eq!(x.le(y), a <= b, "{a} {b}");
        }
    }
}

#[test]
fn a_count_is_carried_exactly() {
    for n in [0i32, 1, -1, 7, -48, 16_777_215, -16_777_215, 65_536, -3] {
        assert_eq!(Single::of_count(n), s(n as f32), "{n}");
    }
}

/// A count too long for a pattern is rounded as a cast rounds it, ties to
/// even.
#[test]
fn long_counts_are_rounded() {
    for n in [
        0, 1, -1, 16_777_215, 16_777_216, 16_777_217, 16_777_218, 16_777_219, 16_777_221, -16_777_217,
        33_554_431, 33_554_434, 33_554_438, 123_456_789, -987_654_321, 2_147_483_520, 2_147_483_583,
        2_147_483_584, 2_147_483_585, i32::MAX, i32::MIN, i32::MIN + 1,
    ] {
        assert_eq!(Single::of_count(n), s(n as f32), "{n}");
    }
    for n in [0u32, 4_294_967_295, 4_294_967_167, 4_294_967_168, 3_000_000_001, 1 << 31] {
        assert_eq!(Single::of_size(n), s(n as f32), "{n}");
    }
}
