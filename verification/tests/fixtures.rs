//! The generated inputs, held against the divisions and sums of single precision that they stand
//! for.

use sllm_hip::attention_cases::Case;
use sllm_hip::attention_inputs::{
    input_k_words, input_mixed_k_words, input_mixed_q_words, input_mixed_v_words, input_q_words,
    input_v_words,
};
use sllm_hip::attention_provider::{HEAD_DIM, KV_HEADS, Q_HEADS};
use sllm_hip::attention_run::case_inputs;
use sllm_hip::gemma_slice::{make_activation, small_activation, unit_scale, ROWS, WIDTH};
use sllm_hip::gqa6_run;
use sllm_hip::preprocess_inputs::{make_k, make_packed_q_gate, make_scale};
use sllm_hip::research_args::PhysicalVariant;
use sllm_hip::research_inputs::{attention_query, source_words, ValuesKind};

fn round(value: f32) -> u16 {
    if value.is_nan() {
        return ((value.to_bits() >> 16) as u16) | 0x0040;
    }
    let bits = value.to_bits();
    ((bits.wrapping_add(0x7fff + ((bits >> 16) & 1))) >> 16) as u16
}

fn fill(rows: usize, heads: usize, word: impl Fn(usize, usize, usize) -> f32) -> Vec<u16> {
    let mut words = Vec::new();
    for row in 0..rows {
        for head in 0..heads {
            for dimension in 0..HEAD_DIM {
                words.push(round(word(row, head, dimension)));
            }
        }
    }
    words
}

#[test]
fn attention_queries_hold_their_three_lanes() {
    let expected = fill(3, Q_HEADS, |_, head, dimension| match dimension {
        0 => 16.0,
        1 => 1.0 + (head % 4) as f32,
        2 => 1_048_576.0,
        _ => 0.0,
    });
    assert_eq!(input_q_words(3), expected);
}

#[test]
fn attention_keys_follow_their_positions() {
    for start in [0_u64, 1, 8_192] {
        let expected = fill(4, KV_HEADS, |token, head, dimension| {
            let absolute = start + token as u64;
            match dimension {
                0 => (absolute % 5) as f32 - 2.0,
                1 => head as f32 * 0.25,
                2 if (absolute + head as u64) % 2 == 0 => f32::from_bits(0x3380_0000),
                2 => f32::from_bits(0xb380_0000),
                _ => 0.0,
            }
        });
        assert_eq!(input_k_words(4, start), expected, "{start}");
    }
}

#[test]
fn attention_values_are_level_over_a_head() {
    for seed in [0_u64, 1, 7] {
        let expected = fill(1_026, KV_HEADS, |token, head, _| {
            1.0 + token as f32 + head as f32 * 32.0 + (seed % 2) as f32
        });
        assert_eq!(input_v_words(1_026, seed), expected, "{seed}");
    }
}

#[test]
fn mixed_attention_inputs_are_codes_over_powers_of_two() {
    let query = fill(2, Q_HEADS, |row, head, dimension| {
        (((row * 19 + head * 11 + dimension * 7) % 31) as i32 - 15) as f32 / 16.0
    });
    assert_eq!(input_mixed_q_words(2), query);
    let key = fill(3, KV_HEADS, |token, head, dimension| {
        (((((4_095 + token) * 13) + head * 17 + dimension * 5) % 37) as i32 - 18) as f32 / 32.0
    });
    assert_eq!(input_mixed_k_words(3, 4_095), key);
    let value = fill(3, KV_HEADS, |token, head, dimension| {
        (((((4_095 + token) * 29) + head * 23 + dimension * 3) % 127) as i32 - 63) as f32 / 32.0
    });
    assert_eq!(input_mixed_v_words(3, 4_095), value);
}

#[test]
fn special_cases_overwrite_what_they_name() {
    let case = |id, m, start_position| Case {
        id,
        m,
        start_position,
    };
    let mixed = case_inputs(case("decode-mixed-kv4097", 1, 4_096), 22);
    assert_eq!(mixed.prefix_key, input_mixed_k_words(4_096, 0));
    assert_eq!(mixed.prefix_value, input_mixed_v_words(4_096, 0));
    assert_eq!(mixed.key, input_mixed_k_words(1, 4_096));
    assert_eq!(mixed.value, input_mixed_v_words(1, 4_096));
    assert_eq!(mixed.query, input_mixed_q_words(1));
    let plain = case_inputs(case("decode-prefix3", 1, 3), 14);
    assert_eq!(plain.prefix_key, input_k_words(3, 0));
    assert_eq!(plain.prefix_value, input_v_words(3, 15));
    assert_eq!(plain.key, input_k_words(1, 3));
    assert_eq!(plain.value, input_v_words(1, 16));
    assert_eq!(plain.query, input_q_words(1));
    let infinite = case_inputs(case("special-value-pos-inf", 1, 0), 0);
    assert!(infinite.value.iter().all(|word| *word == 0x7f80));
    let row = KV_HEADS * HEAD_DIM;
    let signed = case_inputs(case("special-value-pos-neg-inf", 2, 0), 0);
    assert!(signed.value[..row].iter().all(|word| *word == 0x7f80));
    assert!(signed.value[row..].iter().all(|word| *word == 0xff80));
    let mingled = case_inputs(case("special-value-nan-pos-inf", 2, 0), 0);
    assert!(mingled.value[..row].iter().all(|word| *word == 0x7fc1));
    assert!(mingled.value[row..].iter().all(|word| *word == 0x7f80));
    let unknown = case_inputs(case("special-query-nan", 1, 0), 0);
    for (index, word) in unknown.query.iter().enumerate() {
        if index % HEAD_DIM == 0 {
            assert_eq!(*word, 0x7fc1);
        } else {
            assert_eq!(*word, input_q_words(1)[index]);
        }
    }
}

#[test]
fn gqa6_inputs_are_sums_of_two_fractions() {
    let query = fill(2, gqa6_run::Q_HEADS, |row, head, dimension| {
        let code = ((row * 17 + head * 31 + dimension * 7) % 97) as i32 - 48;
        code as f32 / 64.0 + (head % gqa6_run::GQA_RATIO) as f32 / 32.0
    });
    assert_eq!(gqa6_run::input_query_words(2), query);
    let mut key = fill(3, KV_HEADS, |token, head, dimension| {
        let code = (((9_216 + token) * 13 + head * 23 + dimension * 7) % 89) as i32 - 44;
        code as f32 / 64.0 + head as f32 / 16.0
    });
    key[0] = 0x3300;
    assert_eq!(gqa6_run::input_key_words(3, 9_216), key);
    assert!(gqa6_run::input_key_words(0, 5).is_empty());
    let value = fill(3, KV_HEADS, |token, head, dimension| {
        let code = (((9_216 + token) * 29 + head * 37 + dimension * 11) % 113) as i32 - 56;
        code as f32 / 32.0 + head as f32 * 0.5
    });
    assert_eq!(gqa6_run::input_value_words(3, 9_216), value);
}

fn research(token: usize, head: usize, column: usize, value_plane: bool, kind: ValuesKind) -> f32 {
    match kind {
        ValuesKind::SignedZero if (token + head + column) % 2 == 0 => 0.0,
        ValuesKind::SignedZero => -0.0,
        ValuesKind::RecipeDistinguishing => {
            let base = if column == 0 { 3.25 } else { 0.75 };
            base + (token * 3 + head) as f32 * 0.03125
        }
        ValuesKind::Attention => {
            let base = (((column * 13 + head * 7 + token * 11) % 61) as f32 - 30.0) / 32.0;
            if value_plane {
                base / 8.0
            } else {
                base
            }
        }
        ValuesKind::Boundary => {
            (((column * 13 + head * 7 + token * 5) % 61) as f32 - 30.0) / 8.0
        }
    }
}

fn boundary(
    token: usize,
    head: usize,
    column: usize,
    value_plane: bool,
    variant: PhysicalVariant,
) -> f32 {
    let maximum = match variant {
        PhysicalVariant::E4M3FnuZ => 240.0,
        PhysicalVariant::OcpE4M3Fn => 448.0,
        PhysicalVariant::OcpE5M2 => 57_344.0,
    };
    let multiplier = if value_plane { 1.0 / 64.0 } else { 1.0 };
    let base = match column {
        0 => 0.0,
        1 => -0.0,
        2 => 2.0_f32.powi(-120),
        3 if value_plane => maximum / (multiplier * 64.0),
        3 => maximum,
        4 if !value_plane => f32::NAN,
        5 if !value_plane => f32::INFINITY,
        6 if !value_plane => f32::NEG_INFINITY,
        7 if variant == PhysicalVariant::OcpE5M2 => 65_535.0,
        7 => 511.0,
        _ => research(token, head, column, value_plane, ValuesKind::Boundary),
    };
    base * multiplier
}

#[test]
fn research_words_are_what_their_kind_says() {
    let variants = [
        PhysicalVariant::OcpE4M3Fn,
        PhysicalVariant::OcpE5M2,
        PhysicalVariant::E4M3FnuZ,
    ];
    let kinds = [
        ValuesKind::Boundary,
        ValuesKind::SignedZero,
        ValuesKind::RecipeDistinguishing,
        ValuesKind::Attention,
    ];
    for variant in variants {
        for kind in kinds {
            for value_plane in [false, true] {
                for width in [15_usize, 32, 257] {
                    let mut expected = Vec::new();
                    for token in 0..2 {
                        for head in 0..4 {
                            for column in 0..width {
                                expected.push(round(match kind {
                                    ValuesKind::Boundary => {
                                        boundary(token, head, column, value_plane, variant)
                                    }
                                    _ => research(token, head, column, value_plane, kind),
                                }));
                            }
                        }
                    }
                    let actual = source_words(2, width, value_plane, variant, kind);
                    assert_eq!(actual, expected, "{variant:?} {kind:?} {value_plane} {width}");
                }
            }
        }
    }
}

#[test]
fn research_queries_are_sixteenths() {
    let expected = fill(1, 16, |_, head, column| {
        ((column * 7 + head * 5) % 37) as f32 / 16.0 - 1.0
    });
    assert_eq!(attention_query(), expected);
}

#[test]
fn gemma_activations_are_fractions_over_powers_of_two() {
    let expected: Vec<u16> = (0..ROWS * WIDTH)
        .map(|index| round((((index * 37 + 11) % 509) as f32 - 254.0) / 64.0))
        .collect();
    assert_eq!(make_activation(), expected);
    let expected: Vec<u16> = (0..ROWS * 17)
        .map(|index| round(((index * 19 + 7) % 97) as f32 / 32.0 - 1.5))
        .collect();
    assert_eq!(small_activation(), expected);
    assert_eq!(unit_scale(), vec![round(1.0); 6]);
}

fn generated(index: usize, seed: usize) -> u16 {
    round((((index * 37 + seed * 13) % 251) as f32 - 125.0) / 32.0)
}

#[test]
fn preprocess_inputs_are_generated_behind_their_specials() {
    let packed = make_packed_q_gate(2, 4);
    for (index, word) in packed.iter().enumerate().skip(7) {
        let (head, place) = (index / 512, index % 512);
        let seed = if place < 256 { 5 } else { 105 };
        assert_eq!(*word, generated(head * 256 + place % 256, seed), "{index}");
    }
    let keys = make_k(3, 5);
    assert_eq!(keys.len(), 3 * 4 * 256);
    for (index, word) in keys.iter().enumerate().skip(7) {
        assert_eq!(*word, generated(index, 216), "{index}");
    }
    let scale = make_scale(16, 6);
    assert_eq!(scale.len(), 16 * 256);
    for (index, word) in scale.iter().enumerate().skip(7) {
        assert_eq!(*word, generated(index, 313), "{index}");
    }
    let specials = [0x0000, 0x8000, 0x0001, 0x7f00, 0x7fc1, 0x7f80, 0xff80];
    for front in [&packed[..7], &keys[..7], &scale[..7]] {
        assert_eq!(front, specials);
    }
}
