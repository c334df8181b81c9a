use sllm_hip::attention_cases::Case;
use sllm_hip::attention_provider::AttentionAbi;
use sllm_hip::audit::{CleanupCounts, DispatchEvidence};
use sllm_hip::gqa6_config::{configure_mode, parse_config, Config, Defaults, Mode};
use sllm_hip::gqa6_run::{
    benchmark_case, compare_row, expected_kernel, gqa6_case_flags, gqa6_cases, gqa6_metadata_matches,
    gqa6_oracle_scope, input_key_words, input_query_words, input_value_words, judge_gqa6, oracle_rows, selected_cases,
    Gqa6CaseFlags, DEVICE_BLOCKSOFTMAX, DEVICE_BLOCKSOFTMAX_Q8, DEVICE_DECODE_GQA6_P64, GQA_RATIO,
    HEAD_DIM, KERNEL_BASELINE, KERNEL_BLOCKSOFTMAX, KERNEL_BLOCKSOFTMAX_Q8,
    KERNEL_DECODE_GQA6_P64, KERNEL_DECODE_WAVE_Q_PRELOAD, KERNEL_WAVE1201, KV_HEADS, Q_HEADS,
    WORKGROUP_SIZE,
};
use sllm_hip::stats::{median, median_mad, sorted_samples};

fn config(target: &str, mode: Mode) -> Config {
    Config {
        device_index: 0,
        target: target.to_owned(),
        mode,
        benchmark: false,
        case_filter: None,
        benchmark_filter: None,
    }
}

fn case(id: &'static str, m: usize, start_position: u64) -> Case {
    Case {
        id,
        m,
        start_position,
    }
}

#[test]
fn fixture_keeps_six_query_heads_distinct_per_kv_head() {
    let words = input_query_words(1);
    for group in 0..KV_HEADS {
        let first = (group * GQA_RATIO) * HEAD_DIM;
        let second = first + HEAD_DIM;
        assert_ne!(words[first], words[second]);
    }
}

#[test]
fn case_boundaries_cover_requested_non_aligned_shapes() {
    let all = gqa6_cases();
    for m in [3, 4, 5, 127, 128, 129, 219] {
        assert!(all.iter().any(|case| case.m == m && case.start_position == 0));
    }
    for committed in [31, 32, 33] {
        assert!(all.iter().any(|case| { case.start_position + case.m as u64 == committed }));
    }
    assert!(all.iter().any(|case| { case.start_position == 9_216 && case.m == 219 }));
}

#[test]
fn key_fixture_starts_with_a_word_that_binary16_cannot_hold() {
    let words = input_key_words(1, 0);
    assert_eq!(words[0], 0x3300);
    assert_eq!(words.len(), KV_HEADS * HEAD_DIM);
    assert_eq!(input_value_words(2, 0).len(), 2 * KV_HEADS * HEAD_DIM);
    assert_eq!(input_query_words(2).len(), 2 * Q_HEADS * HEAD_DIM);
}

#[test]
fn median_and_mad_are_deterministic() {
    assert_eq!(median(&[9, 1, 5]), Some(5));
    assert_eq!(median_mad(&[9, 1, 5, 5]), (Some(5), Some(4)));
}

#[test]
fn sample_order_does_not_matter() {
    assert_eq!(sorted_samples(&[3, 1, 2, 2]), vec![1, 2, 2, 3]);
    assert_eq!(median(&[]), None);
    assert_eq!(median_mad(&[]), (None, None));
    assert_eq!(median(&[4, 8]), median(&[8, 4]));
}

#[test]
fn decode_p64_metadata_is_reserved_for_long_m1_decode() {
    let config = config("gfx1030", Mode::DecodeP64);
    assert_eq!(
        expected_kernel(&config, case("decode-context4096", 1, 4_095)).0,
        KERNEL_DECODE_WAVE_Q_PRELOAD
    );
    assert_eq!(
        expected_kernel(&config, case("decode-context9435", 1, 9_434)),
        (KERNEL_DECODE_GQA6_P64, DEVICE_DECODE_GQA6_P64, 256, 2, 192,)
    );
    assert_ne!(
        expected_kernel(&config, case("context33", 1, 32)).0,
        KERNEL_DECODE_GQA6_P64
    );
}

#[test]
fn blocksoftmax_metadata_is_reserved_for_prefill_boundary() {
    let config = config("gfx1030", Mode::BlockSoftmax);
    assert_eq!(
        expected_kernel(&config, case("prefill-m128", 128, 0)),
        (KERNEL_BLOCKSOFTMAX, DEVICE_BLOCKSOFTMAX, 128, 1, WORKGROUP_SIZE,)
    );
    assert_eq!(
        expected_kernel(&config, case("prefill-m127", 127, 0)).0,
        KERNEL_BASELINE
    );
}

#[test]
fn blocksoftmax_q8_metadata_is_gfx1201_only_and_uses_q8_grid() {
    let gfx1201 = config("gfx1201", Mode::BlockSoftmaxQ8);
    assert_eq!(
        expected_kernel(&gfx1201, case("prefill-m128", 128, 0)),
        (KERNEL_BLOCKSOFTMAX_Q8, DEVICE_BLOCKSOFTMAX_Q8, 64, 1, WORKGROUP_SIZE,)
    );
    let gfx1030 = config("gfx1030", Mode::BlockSoftmaxQ8);
    assert_eq!(
        expected_kernel(&gfx1030, case("prefill-m128", 128, 0)).0,
        KERNEL_BASELINE
    );
    assert_eq!(
        expected_kernel(&gfx1201, case("prefill-m127", 127, 0)).0,
        KERNEL_WAVE1201
    );
}

#[test]
fn a_dispatch_must_name_the_kernel_of_its_mode() {
    let config = config("gfx1030", Mode::BlockSoftmax);
    let case = case("prefill-m128", 128, 0);
    let abi = AttentionAbi {
        abi_version: 1,
        dispatch_info_version: 1,
        kernel_online_softmax_v2: 2,
        kernel_packed_kv_v3: 3,
        backend_hip: 1,
    };
    let (kernel, device, grid, count, workgroup) = expected_kernel(&config, case);
    let dispatch = DispatchEvidence {
        abi_version: 1,
        info_version: 1,
        dispatch_id: 4,
        dispatch_count: count,
        kernel_id: 2,
        workgroup_size_x: workgroup,
        grid_size_x: grid,
        row_count: 128,
        normalized_size: 256,
        backend: 1,
        fallback_allowed: false,
        fallback_used: false,
        kernel_symbol: kernel.to_owned(),
        device_symbol: device.to_owned(),
        target: "gfx1030".to_owned(),
    };
    assert!(gqa6_metadata_matches(&dispatch, &config, case, &abi));
    let other = DispatchEvidence {
        kernel_symbol: KERNEL_BASELINE.to_owned(),
        ..dispatch
    };
    assert!(!gqa6_metadata_matches(&other, &config, case, &abi));
}

#[test]
fn filters_keep_named_cases_only() {
    assert_eq!(selected_cases(None).unwrap().len(), gqa6_cases().len());
    let first = gqa6_cases()[0];
    let kept = selected_cases(Some(first.id)).unwrap();
    assert_eq!(kept.len(), 1);
    assert_eq!(kept[0].id, first.id);
    assert!(selected_cases(Some("no-such-case")).is_err());
    assert!(benchmark_case(first, Some(first.id)).is_ok());
}

#[test]
fn modes_are_named_and_set_one_variable() {
    assert_eq!(Mode::Baseline.name(), "baseline");
    let baseline = configure_mode(Mode::Baseline, "gfx1030");
    let staged = configure_mode(Mode::BlockSoftmax, "gfx1030");
    assert_eq!(baseline.removed, staged.removed);
    assert!(staged.set.is_some());
}

#[test]
fn gqa6_arguments_fall_back_to_defaults() {
    let none = Defaults {
        mode: Some("baseline".to_owned()),
        case_filter: None,
        benchmark_filter: None,
    };
    let list = vec![
        "--device-index".to_owned(),
        "1".to_owned(),
        "--target".to_owned(),
        "gfx1030".to_owned(),
    ];
    let parsed = parse_config(&list, none).unwrap();
    assert_eq!(parsed.device_index, 1);
    assert_eq!(parsed.target, "gfx1030");
    assert!(!parsed.benchmark);
    assert_eq!(parsed.mode, Mode::Baseline);
    let without = Defaults {
        mode: None,
        case_filter: None,
        benchmark_filter: None,
    };
    assert_eq!(
        parse_config(&list, without).unwrap_err(),
        "missing --mode or SLLM_GQA6_ATTENTION_MODE"
    );
    assert!(parse_config(
        &vec![],
        Defaults {
            mode: None,
            case_filter: None,
            benchmark_filter: None,
        }
    )
    .is_err());
}

#[test]
fn rows_of_the_oracle_stay_inside_the_case() {
    for case in gqa6_cases() {
        for row in oracle_rows(case) {
            assert!(row < case.m);
        }
    }
    assert_eq!(compare_row(&[0x3f80, 0x3f80], &[0x3f80, 0x3f83]), (3, 1));
}

#[test]
fn a_case_shows_what_its_rows_found() {
    let case = Case {
        id: "a",
        m: 3,
        start_position: 4,
    };
    let passed = gqa6_case_flags(case, true, true, true, Some(7), true, true);
    assert_eq!(passed, flags());
    let failed = gqa6_case_flags(case, false, false, true, Some(6), true, false);
    assert!(!failed.numerical_match && !failed.gqa_mapping_match);
    assert!(!failed.nonuniform_softmax_checked && failed.bf16_to_fp16_to_f32_checked);
    assert!(!failed.causal_visibility_match);
    assert!(failed.metadata_match && failed.hip_execution && !failed.no_fallback);
    let unread = gqa6_case_flags(case, true, true, false, None, false, true);
    assert!(!unread.causal_visibility_match && !unread.metadata_match);
    assert_eq!(gqa6_oracle_scope(3, case), "all-rows-all-24-heads-scalar-v1");
    assert_eq!(gqa6_oracle_scope(2, case), "sampled-rows-all-24-heads-scalar-v1");
}

fn flags() -> Gqa6CaseFlags {
    Gqa6CaseFlags {
        numerical_match: true,
        nonuniform_softmax_checked: true,
        bf16_to_fp16_to_f32_checked: true,
        causal_visibility_match: true,
        gqa_mapping_match: true,
        metadata_match: true,
        hip_execution: true,
        no_fallback: true,
    }
}

#[test]
fn gqa6_runs_pass_only_when_every_case_does() {
    let clean = CleanupCounts {
        retryable_cleanup: 0,
        durable_quarantine: 0,
    };
    assert!(judge_gqa6(&vec![flags()], &clean).pass);
    let failed = Gqa6CaseFlags {
        no_fallback: false,
        ..flags()
    };
    assert!(!judge_gqa6(&vec![flags(), failed], &clean).pass);
}
