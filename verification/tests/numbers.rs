use sllm_hip::number::{
    bf16_to_f32, bf16_ulp_distance, f16_to_f32, f32_quotient_bits, f64_to_bf16_by_way_of_f32,
    f64_to_bf16_rne, finite_bf16_ulp_distance, float_to_bf16_rne, is_finite_f32, ordered_bf16,
    ordered_bf16_bits, rank_f32,
};

fn round(value: f32) -> u16 {
    float_to_bf16_rne(value.to_bits())
}

#[test]
fn bf16_rne_ties_round_to_even_and_specials_are_stable() {
    assert_eq!(round(f32::from_bits(0x3f80_8000)), 0x3f80);
    assert_eq!(round(f32::from_bits(0x3f81_8000)), 0x3f82);
    assert_eq!(round(f32::from_bits(0x3f80_8001)), 0x3f81);
    assert_eq!(round(0.0), 0x0000);
    assert_eq!(round(-0.0), 0x8000);
    assert_eq!(round(f32::from_bits(0x0001)), 0x0000);
    assert_eq!(round(f32::INFINITY), 0x7f80);
    assert_eq!(round(f32::from_bits(0x7fc1_2345)), 0x7fc1);
}

#[test]
fn bf16_rne_preserves_specials_and_ties() {
    assert_eq!(round(f32::from_bits(0x3f80_8000)), 0x3f80);
    assert_eq!(round(f32::from_bits(0x3f81_8000)), 0x3f82);
    assert_eq!(round(f32::INFINITY), 0x7f80);
    assert_eq!(round(f32::NEG_INFINITY), 0xff80);
    assert_eq!(round(f32::from_bits(0x7fc1_2345)), 0x7fc1);
}

#[test]
fn f64_oracle_rounds_directly_to_bf16() {
    let direct = |value: f64| f64_to_bf16_rne(value.to_bits());
    assert_eq!(direct(1.0 + 2.0_f64.powi(-8)), 0x3f80);
    assert_eq!(direct(1.0 + 3.0 * 2.0_f64.powi(-8)), 0x3f82);
    assert_eq!(direct(3.0 * 2.0_f64.powi(-134)), 0x0002);
    assert!(f32::from_bits(bf16_to_f32(direct(f64::NAN))).is_nan());
}

#[test]
fn direct_and_stepwise_rounding_differ_only_next_to_a_tie() {
    let value = 1.0 + 2.0_f64.powi(-8) + 2.0_f64.powi(-40);
    assert_eq!(f64_to_bf16_rne(value.to_bits()), 0x3f81);
    assert_eq!(f64_to_bf16_by_way_of_f32(value.to_bits()), 0x3f80);
    assert_eq!(f64_to_bf16_by_way_of_f32(1.5_f64.to_bits()), 0x3fc0);
}

#[test]
fn fp16_decoder_preserves_subnormals_zero_and_specials() {
    assert_eq!(f16_to_f32(0x0000), 0x0000_0000);
    assert_eq!(f16_to_f32(0x8000), 0x8000_0000);
    assert_eq!(f16_to_f32(0x0001), 0x3380_0000);
    assert_eq!(f16_to_f32(0x8001), 0xb380_0000);
    assert_eq!(f16_to_f32(0x03ff), 0x387f_c000);
    assert_eq!(f16_to_f32(0x83ff), 0xb87f_c000);
    assert_eq!(f32::from_bits(f16_to_f32(0x7c00)), f32::INFINITY);
    assert_eq!(f32::from_bits(f16_to_f32(0xfc00)), f32::NEG_INFINITY);
    assert!(f32::from_bits(f16_to_f32(0x7e01)).is_nan());
}

#[test]
fn steps_are_counted_across_zero() {
    assert_eq!(ordered_bf16(0x0000), 0x8000);
    assert_eq!(ordered_bf16(0x8000), 0x7fff);
    assert_eq!(ordered_bf16_bits(0x8000), ordered_bf16_bits(0x0000));
    assert_eq!(finite_bf16_ulp_distance(0x3f80, 0x3f82), 2);
    assert_eq!(finite_bf16_ulp_distance(0x0000, 0x8000), 1);
    assert_eq!(bf16_ulp_distance(0xbf80, 0xbf81), 1);
}

#[test]
fn ranks_follow_the_values() {
    let values = [-3.5_f32, -1.0, 0.0, 1.0e-40, 2.0, 1.0e30];
    for pair in values.windows(2) {
        assert!(rank_f32(pair[0].to_bits()) < rank_f32(pair[1].to_bits()));
    }
    assert_eq!(rank_f32((-0.0_f32).to_bits()), rank_f32(0.0_f32.to_bits()));
    assert!(is_finite_f32(1.0e30_f32.to_bits()));
    assert!(!is_finite_f32(f32::INFINITY.to_bits()));
    assert!(!is_finite_f32(f32::NAN.to_bits()));
}

#[test]
fn quotient_bits_are_those_of_a_division() {
    for num in [-1000_i64, -31, -1, 0, 1, 2, 30, 502, 65_537] {
        for den in [1_u64, 3, 31, 47, 257, 10_007] {
            let expected = if num == 0 {
                0
            } else {
                (num as f32 / den as f32).to_bits()
            };
            assert_eq!(f32_quotient_bits(num, den), expected, "{num}/{den}");
        }
    }
}
