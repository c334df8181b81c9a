use sllm_hip::audit::DispatchEvidence;
use sllm_hip::native::PositionMode;
use sllm_hip::preprocess_inputs::{
    expected_gate, generated_word, inject_specials, make_k, make_packed_q_gate, make_scale,
    plain_head, query_head, special_values, HEAD_DIM, QGATE_HEAD_WIDTH, Q_HEADS,
};
use sllm_hip::preprocess_run::{
    cases, check_gate, check_output_bytes, compare_bf16_words, default_on_env, last_position,
    positions, rounding_order_changed, validate_dispatch, PreprocessCase,
};

#[test]
fn wave32_gate_defaults_on_and_accepts_only_explicit_disable() {
    assert!(default_on_env(None));
    assert!(default_on_env(Some("1")));
    assert!(!default_on_env(Some("0")));
    assert!(!default_on_env(Some("unknown")));
}

#[test]
fn packed_q_gate_generation_is_head_wise_not_flat() {
    let packed = make_packed_q_gate(2, 0);
    let first_head = 0;
    let second_head = QGATE_HEAD_WIDTH;
    assert_eq!(packed[first_head + 7], generated_word(7, 1));
    assert_eq!(packed[second_head + 7], generated_word(HEAD_DIM + 7, 1));
    assert_ne!(
        packed[first_head + 7],
        packed[second_head + 7],
        "head 1 must not be read as a flat continuation of head 0"
    );
    assert_eq!(
        packed[second_head + HEAD_DIM + 3],
        generated_word(HEAD_DIM + 3, 101)
    );
    assert_eq!(packed.len(), 2 * Q_HEADS * QGATE_HEAD_WIDTH);
}

#[test]
fn coverage_includes_requested_sizes_modes_and_absolute_positions() {
    let all = cases();
    assert_eq!(all.len(), 8);
    for size in [1, 3, 17] {
        assert!(all.iter().any(|case| case.m == size));
    }
    assert!(all
        .iter()
        .any(|case| case.mode == PositionMode::Prefill && case.start_position == 0));
    assert!(all.iter().any(|case| {
        case.mode == PositionMode::DecodeContinuation && case.start_position > 0
    }));
    let mut absolute_positions = Vec::new();
    for case in &all {
        absolute_positions.extend(positions(*case));
    }
    for position in [0, 1, 3, 255, 256, 257] {
        assert!(absolute_positions.contains(&position));
    }
    assert!(all.iter().map(|case| case.m).sum::<usize>() < 64);
}

#[test]
fn generated_inputs_cover_all_required_bf16_classes_without_large_buffers() {
    let packed = make_packed_q_gate(17, 0);
    let k = make_k(17, 1);
    let scales = make_scale(Q_HEADS, 2);
    for values in [&packed, &k, &scales] {
        for word in special_values() {
            assert!(
                values.contains(&word),
                "missing special BF16 word 0x{word:04x}"
            );
        }
    }
    assert!(packed.len() < 200_000);
    assert!(k.len() < 40_000);
}

#[test]
fn generated_words_are_exact_fractions() {
    for (index, seed) in [(0_usize, 1_usize), (7, 1), (300, 101), (usize::MAX, 5)] {
        let value = (index.wrapping_mul(37).wrapping_add(seed.wrapping_mul(13)) % 251) as f32;
        let expected = ((value - 125.0) / 32.0).to_bits() >> 16;
        assert_eq!(u32::from(generated_word(index, seed)), expected);
    }
}

#[test]
fn specials_take_the_front_only() {
    let mut values = vec![5_u16; 9];
    inject_specials(&mut values, 1);
    assert_eq!(&values[..7], special_values().as_slice());
    assert_eq!(&values[7..], &[5, 5]);
}

#[test]
fn heads_are_read_apart_from_their_gates() {
    let packed = make_packed_q_gate(1, 3);
    let query = query_head(&packed, 1);
    assert_eq!(query, packed[512..768].to_vec());
    let gate = expected_gate(&packed, Q_HEADS);
    assert_eq!(gate.len(), Q_HEADS * HEAD_DIM);
    assert_eq!(gate[..256], packed[256..512]);
    assert_eq!(gate[256..512], packed[768..1024]);
    let keys = make_k(1, 0);
    assert_eq!(plain_head(&keys, 3), keys[768..1024].to_vec());
}

#[test]
fn comparison_policy_is_narrow_and_fail_closed() {
    let expected = [0x3f80, 0x0000, 0x8000, 0x7fc1, 0x7f80];
    let actual = [0x3f82, 0x0000, 0x8000, 0x7fc0, 0x7f80];
    let mut max_finite_ulp = 0;
    compare_bf16_words(&expected, &actual, "test", &mut max_finite_ulp).unwrap();
    assert_eq!(max_finite_ulp, 2);

    let mut max_finite_ulp = 0;
    let error = compare_bf16_words(&[0x3f80], &[0x3f84], "test", &mut max_finite_ulp)
        .expect_err("three BF16 ULPs must exceed the explicit bound");
    assert!(error.contains("bound is 2"));

    let mut max_finite_ulp = 0;
    let error = compare_bf16_words(&[0x0000], &[0x8000], "test", &mut max_finite_ulp)
        .expect_err("zero sign must be exact");
    assert!(error.contains("zero classification/sign"));
}

#[test]
fn every_class_of_mismatch_has_its_message() {
    let refused = |expected: u16, actual: u16| {
        let mut largest = 0;
        compare_bf16_words(&[expected], &[actual], "Q", &mut largest).unwrap_err()
    };
    assert_eq!(
        refused(0x7fc1, 0xffc1),
        "Q[0] NaN classification/sign mismatch: expected 0x7fc1, got 0xffc1"
    );
    assert_eq!(
        refused(0x7f80, 0xff80),
        "Q[0] infinity classification/sign mismatch: expected 0x7f80, got 0xff80"
    );
    assert_eq!(
        refused(0x8000, 0x0001),
        "Q[0] zero classification/sign mismatch: expected 0x8000, got 0x0001"
    );
    assert_eq!(
        refused(0x3f80, 0x7f80),
        "Q[0] finite classification mismatch: expected 0x3f80, got 0x7f80"
    );
    assert_eq!(
        refused(0x3f80, 0x3f84),
        "Q[0] finite BF16 error is 4 ULPs, bound is 2: expected 0x3f80, got 0x3f84"
    );
    let mut largest = 1;
    assert_eq!(
        compare_bf16_words(&[1, 2], &[1], "Q", &mut largest),
        Err("Q length mismatch: expected 2, got 1".to_owned())
    );
    assert_eq!(largest, 1);
}

fn dispatch(case: PreprocessCase, target: &str, wave32: bool) -> DispatchEvidence {
    DispatchEvidence {
        abi_version: 1,
        info_version: 1,
        dispatch_id: 5,
        dispatch_count: 1,
        kernel_id: if wave32 { 2 } else { 1 },
        workgroup_size_x: if wave32 { 32 } else { 1 },
        grid_size_x: case.m as u32 * 20,
        row_count: case.m as u64,
        normalized_size: 256,
        backend: 1,
        fallback_allowed: false,
        fallback_used: false,
        kernel_symbol: if wave32 {
            "attention_preprocess.headwise_norm_rope.wave32.v1".to_owned()
        } else {
            "attention_preprocess.headwise_norm_rope.v1".to_owned()
        },
        device_symbol: if wave32 {
            "sllm_attention_preprocess_headwise_norm_rope_wave32_v1".to_owned()
        } else {
            "sllm_attention_preprocess_headwise_norm_rope_v1".to_owned()
        },
        target: target.to_owned(),
    }
}

#[test]
fn wave_kernels_are_expected_where_they_are_on() {
    let case = cases()[1];
    assert!(validate_dispatch(&dispatch(case, "gfx1030", true), case, "gfx1030", None).is_ok());
    assert!(
        validate_dispatch(&dispatch(case, "gfx1030", false), case, "gfx1030", Some("0")).is_ok()
    );
    assert!(validate_dispatch(&dispatch(case, "gfx1201", false), case, "gfx1201", None).is_ok());
    assert_eq!(
        validate_dispatch(&dispatch(case, "gfx1030", false), case, "gfx1030", None),
        Err(
            "attention preprocess dispatch metadata violated the exact contract for M=3 start=0 target=gfx1030"
                .to_owned()
        )
    );
    let wide = PreprocessCase {
        m: usize::MAX,
        ..case
    };
    assert_eq!(
        validate_dispatch(&dispatch(case, "gfx1030", true), wide, "gfx1030", None),
        Err("attention preprocess grid size overflowed usize".to_owned())
    );
    let tall = PreprocessCase {
        m: 0x1000_0000,
        ..case
    };
    assert_eq!(
        validate_dispatch(&dispatch(case, "gfx1030", true), tall, "gfx1030", None),
        Err("attention preprocess grid size does not fit u32".to_owned())
    );
    assert!(rounding_order_changed("gfx1030", None));
    assert!(!rounding_order_changed("gfx942", None));
    assert_eq!(case.mode.name(), "prefill");
    assert_eq!(cases()[7].mode.name(), "decode_continuation");
}

#[test]
fn outputs_are_counted_and_gates_copied() {
    let case = cases()[7];
    assert_eq!(last_position(case), 259);
    assert!(check_output_bytes(1, 8, 8).is_ok());
    assert_eq!(
        check_output_bytes(1, 8, 6),
        Err("output 1 byte count mismatch: expected 8, got 6".to_owned())
    );
    assert!(check_gate(case, &[0x3f80], &[0x80, 0x3f]).is_ok());
    assert_eq!(
        check_gate(case, &[0x3f80], &[0x3f, 0x80]),
        Err("gate output byte mismatch for M=3 start=257".to_owned())
    );
}
