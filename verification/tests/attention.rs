use sllm_hip::attention_cases::{
    cases, is_phase33_common_target, phase12_cases, phase49_operator_cases, phase49_oracle_rows,
    phase49_short_decode_cases, selected_cases, Case,
};
use sllm_hip::attention_config::{kv_encoding_name, parse_config_from, KvCacheEncoding};
use sllm_hip::attention_inputs::{
    bf16_quotient_word, input_k_words, input_mixed_k_words, input_mixed_q_words,
    input_mixed_v_words, input_q_words, input_v_words, round_to_f32,
};
use sllm_hip::attention_provider::{
    decode_gqa4_split_enabled, decode_wave_split_fp16_pair_enabled,
    decode_wave_split_q_preload_enabled, decode_wave_split_short_enabled,
    decode_wave_split_short_q_preload_enabled, long_prefill_v2_enabled, metadata_matches,
    scaled_prefill_gemm_enabled, select_provider, AttentionAbi, Provider, ProviderSettings,
    HEAD_DIM, KV_HEADS, Q_HEADS,
};
use sllm_hip::attention_run::{
    append_token_count, case_flags, case_inputs, check_elapsed, check_oracle_inputs, check_word,
    committed_length, fp16_committed_bytes, fp16_logical_bytes, judge_run, keep_sample,
    oracle_scope, run_state, sampled_row, uses_sampled_oracle, CaseFlags, KvMemoryKind, OracleMatch,
    RunEnd, WordCheck, TIMING_WARMUPS,
};
use sllm_hip::audit::{CleanupCounts, DispatchEvidence};

fn arguments(list: &[&str]) -> Vec<String> {
    list.iter().map(|text| text.to_string()).collect()
}

#[test]
fn boundary_case_set_is_bounded_and_non_cartesian() {
    let all = cases();
    assert_eq!(all.len(), 29);
    assert!(all.iter().any(|case| case.m == 37));
    for query_count in [63, 64, 65, 127, 128, 129] {
        assert!(all.iter().any(|case| case.m == query_count));
    }
    assert!(all.iter().any(|case| case.m == 257));
    assert!(all.iter().any(|case| case.start_position == 257));
    for committed in [1023, 1024, 1025] {
        assert!(all
            .iter()
            .any(|case| { case.start_position + u64::try_from(case.m).unwrap() == committed }));
    }
    assert!(all
        .iter()
        .any(|case| { case.start_position + u64::try_from(case.m).unwrap() == 8193 }));
    assert!(all.iter().any(|case| case.id == "special-query-nan"));
    assert!(all.iter().any(|case| case.id == "special-value-pos-inf"));
    assert!(all.iter().any(|case| case.id == "special-decode1024-query-nan"));
    assert!(all.iter().any(|case| case.id == "special-decode1024-value-pos-inf"));
    assert!(all.iter().any(|case| case.id == "special-prefill64-query-nan"));
    assert!(all.iter().any(|case| case.id == "special-prefill64-value-pos-inf"));
    assert!(all.iter().all(|case| case.m > 0));
}

#[test]
fn phase12_subset_selects_the_original_sixteen_cases() {
    let ids = selected_cases(true, false, false, false)
        .iter()
        .map(|case| case.id)
        .collect::<Vec<_>>();
    assert_eq!(
        ids,
        vec![
            "prefill-m1",
            "prefill-m3",
            "prefill-m17",
            "prefill-m37",
            "prefill-m255",
            "prefill-m256",
            "prefill-m257",
            "decode-prefix3",
            "decode-prefix255",
            "decode-prefix256",
            "decode-prefix257",
            "decode-kv1023",
            "decode-kv1024",
            "decode-kv1025",
            "special-query-nan",
            "special-value-pos-inf",
        ]
    );
    assert_eq!(selected_cases(true, false, false, false).len(), 16);
    assert_eq!(selected_cases(false, false, false, false).len(), cases().len());
    assert_eq!(selected_cases(false, false, false, false)[0].id, cases()[0].id);
    assert_eq!(selected_cases(false, false, false, false)[28].id, cases()[28].id);
    assert_eq!(
        selected_cases(false, true, false, false).len(),
        phase49_operator_cases().len()
    );
    assert_eq!(selected_cases(false, true, false, false)[0].m, 127);
    assert_eq!(
        selected_cases(false, true, false, false)
            .iter()
            .map(|case| case.m)
            .collect::<Vec<_>>(),
        vec![
            127, 128, 129, 255, 256, 257, 1024, 1023, 1025, 4096, 10_001, 1024, 1024, 1024, 1024,
            1024, 1, 1, 1, 1, 1, 1,
        ]
    );
    assert_eq!(selected_cases(false, false, true, false).len(), 6);
    assert_eq!(
        selected_cases(false, false, true, false)
            .iter()
            .map(|case| case.start_position + 1)
            .collect::<Vec<_>>(),
        vec![1023, 1024, 1025, 4096, 8192, 16384]
    );
    assert_eq!(selected_cases(false, false, false, true).len(), 6);
    assert_eq!(
        selected_cases(false, false, false, true)
            .iter()
            .map(|case| case.start_position + 1)
            .collect::<Vec<_>>(),
        vec![31, 32, 33, 128, 287, 1023]
    );
}

#[test]
fn the_subset_is_the_list_of_its_own() {
    let listed = phase12_cases();
    let selected = selected_cases(true, false, false, false);
    assert_eq!(listed.len(), selected.len());
    for (left, right) in listed.iter().zip(&selected) {
        assert_eq!(left.id, right.id);
        assert_eq!(left.m, right.m);
        assert_eq!(left.start_position, right.start_position);
    }
}

#[test]
fn phase12_subset_flag_is_parsed_without_changing_defaults() {
    let default =
        parse_config_from(&arguments(&["--device-index", "0", "--target", "gfx942"])).unwrap();
    assert!(!default.phase12_subset);
    assert!(!default.phase49_operator);
    assert!(!default.phase49_decode_operator);
    assert!(!default.phase49_decode_short);

    let subset = parse_config_from(&arguments(&[
        "--device-index",
        "0",
        "--target",
        "gfx942",
        "--phase12-subset",
    ]))
    .unwrap();
    assert!(subset.phase12_subset);
    assert!(!subset.phase49_operator);
    assert!(!subset.phase49_decode_operator);
    assert!(!subset.phase49_decode_short);
    assert_eq!(subset.device_index, default.device_index);
    assert_eq!(subset.target, default.target);
    assert_eq!(subset.kv_encoding, default.kv_encoding);

    let operator = parse_config_from(&arguments(&[
        "--device-index",
        "0",
        "--target",
        "gfx1030",
        "--phase49-operator",
    ]))
    .unwrap();
    assert!(operator.phase49_operator);
    assert!(!operator.phase12_subset);
    assert!(!operator.phase49_decode_operator);
    assert!(!operator.phase49_decode_short);

    let decode_operator = parse_config_from(&arguments(&[
        "--device-index",
        "0",
        "--target",
        "gfx1030",
        "--phase49-decode-operator",
    ]))
    .unwrap();
    assert!(decode_operator.phase49_decode_operator);
    assert!(!decode_operator.phase49_operator);
    assert!(!decode_operator.phase12_subset);
    assert!(!decode_operator.phase49_decode_short);

    let decode_short = parse_config_from(&arguments(&[
        "--device-index",
        "0",
        "--target",
        "gfx1030",
        "--phase49-decode-short",
    ]))
    .unwrap();
    assert!(decode_short.phase49_decode_short);
    assert!(!decode_short.phase49_decode_operator);
    assert!(!decode_short.phase49_operator);
    assert!(!decode_short.phase12_subset);

    let duplicate = parse_config_from(&arguments(&[
        "--device-index",
        "0",
        "--target",
        "gfx942",
        "--phase12-subset",
        "--phase12-subset",
    ]));
    assert_eq!(duplicate.unwrap_err(), "duplicate --phase12-subset".to_owned());
}

#[test]
fn attention_arguments_name_a_device_a_target_and_an_encoding() {
    assert!(parse_config_from(&arguments(&[])).is_err());
    assert!(parse_config_from(&arguments(&["--device-index", "0"])).is_err());
    assert!(parse_config_from(&arguments(&["--target", "gfx1030"])).is_err());
    assert!(parse_config_from(&arguments(&["--device-index", "x", "--target", "gfx1030"])).is_err());
    assert!(parse_config_from(&arguments(&["--device-index", "0", "--target", "gfx900"])).is_err());
    assert_eq!(kv_encoding_name(KvCacheEncoding::Fp16), "fp16-v1");
}

#[test]
fn phase49_operator_oracle_uses_deterministic_boundary_rows() {
    assert_eq!(phase49_oracle_rows(1024), vec![0, 255, 256, 257, 512, 1023]);
    assert_eq!(
        phase49_oracle_rows(10_001),
        vec![0, 255, 256, 257, 5_000, 10_000]
    );
    assert_eq!(phase49_oracle_rows(1), vec![0]);
}

#[test]
fn phase49_operator_cases_use_bounded_scalar_oracle_only_at_large_m() {
    let all = phase49_operator_cases();
    assert!(all
        .iter()
        .filter(|case| case.m < 1024)
        .all(|case| phase49_oracle_rows(case.m).len() <= 6));
    assert_eq!(all[6].m, 1024);
    assert_eq!(all[10].m, 10_001);
    assert_eq!(
        all[16..]
            .iter()
            .map(|case| case.start_position + 1)
            .collect::<Vec<_>>(),
        vec![1023, 1024, 1025, 4096, 8192, 16384]
    );
}

#[test]
fn phase49_short_decode_cases_cover_the_requested_kv_boundaries() {
    let all = phase49_short_decode_cases();
    assert_eq!(
        all.iter()
            .map(|case| case.start_position + case.m as u64)
            .collect::<Vec<_>>(),
        vec![31, 32, 33, 128, 287, 1023]
    );
    assert!(all.iter().all(|case| case.m == 1));
}

#[test]
fn phase33_and_phase35_prefill_providers_remain_rdna_scoped() {
    assert!(is_phase33_common_target("gfx1030"));
    assert!(is_phase33_common_target("gfx1201"));
    assert!(!is_phase33_common_target("gfx942"));
}

#[test]
fn decode_q_preload_guard_defaults_on_and_accepts_only_explicit_disable() {
    assert!(decode_wave_split_q_preload_enabled("gfx1030", true, None));
    assert!(decode_wave_split_q_preload_enabled("gfx1030", true, Some("1")));
    assert!(!decode_wave_split_q_preload_enabled("gfx1030", true, Some("0")));
    assert!(!decode_wave_split_q_preload_enabled("gfx1030", true, Some("invalid")));
    assert!(!decode_wave_split_q_preload_enabled("gfx1201", true, None));
    assert!(!decode_wave_split_q_preload_enabled("gfx1030", false, None));
}

#[test]
fn decode_fp16_pair_guard_defaults_on_for_long_gfx1030_shape_and_force_safe() {
    let enabled = Some("1");
    let boundary_case = |start_position| Case {
        id: "fp16-pair",
        m: 1,
        start_position,
    };
    assert!(decode_wave_split_fp16_pair_enabled(
        "gfx1030",
        boundary_case(1023),
        KvCacheEncoding::Fp16,
        enabled,
        false,
    ));
    assert!(decode_wave_split_fp16_pair_enabled(
        "gfx1030",
        Case {
            id: "fp16-pair-long",
            m: 1,
            start_position: 99_999,
        },
        KvCacheEncoding::Fp16,
        enabled,
        false,
    ));
    assert!(!decode_wave_split_fp16_pair_enabled(
        "gfx1030",
        boundary_case(1022),
        KvCacheEncoding::Fp16,
        enabled,
        false,
    ));
    assert!(!decode_wave_split_fp16_pair_enabled(
        "gfx1030",
        Case {
            id: "fp16-pair-batch",
            m: 2,
            start_position: 1023,
        },
        KvCacheEncoding::Fp16,
        enabled,
        false,
    ));
    assert!(decode_wave_split_fp16_pair_enabled(
        "gfx1030",
        boundary_case(1023),
        KvCacheEncoding::Fp16,
        None,
        false,
    ));
    for opt_in in [Some("0"), Some("unknown")] {
        assert!(!decode_wave_split_fp16_pair_enabled(
            "gfx1030",
            boundary_case(1023),
            KvCacheEncoding::Fp16,
            opt_in,
            false,
        ));
    }
    assert!(!decode_wave_split_fp16_pair_enabled(
        "gfx1201",
        boundary_case(1023),
        KvCacheEncoding::Fp16,
        enabled,
        false,
    ));
    assert!(!decode_wave_split_fp16_pair_enabled(
        "gfx1030",
        boundary_case(1023),
        KvCacheEncoding::Fp8E4M3Fn,
        enabled,
        false,
    ));
    assert!(!decode_wave_split_fp16_pair_enabled(
        "gfx1030",
        boundary_case(1023),
        KvCacheEncoding::Fp16,
        enabled,
        true,
    ));
}

#[test]
fn decode_short_wave_guard_is_exact_target_shape_encoding_and_default_on() {
    let enabled = Some("1");
    let short = phase49_short_decode_cases();
    assert!(decode_wave_split_short_enabled("gfx1030", short[1], KvCacheEncoding::Fp16, enabled));
    assert!(decode_wave_split_short_enabled("gfx1030", short[5], KvCacheEncoding::Fp16, enabled));
    assert!(decode_wave_split_short_enabled("gfx1030", short[1], KvCacheEncoding::Fp16, None));
    assert!(!decode_wave_split_short_enabled("gfx1030", short[0], KvCacheEncoding::Fp16, enabled));
    assert!(!decode_wave_split_short_enabled(
        "gfx1030",
        short[1],
        KvCacheEncoding::Fp8E4M3Fn,
        enabled,
    ));
    assert!(!decode_wave_split_short_enabled("gfx1201", short[1], KvCacheEncoding::Fp16, enabled));
    assert!(!decode_wave_split_short_enabled(
        "gfx1030",
        short[1],
        KvCacheEncoding::Fp16,
        Some("0"),
    ));
    assert!(!decode_wave_split_short_enabled(
        "gfx1030",
        short[1],
        KvCacheEncoding::Fp16,
        Some("unknown"),
    ));
    assert!(!decode_wave_split_short_q_preload_enabled(false, Some("1")));
    assert!(!decode_wave_split_short_q_preload_enabled(true, Some("0")));
    assert!(decode_wave_split_short_q_preload_enabled(true, None));
    assert!(!decode_wave_split_short_q_preload_enabled(true, Some("unknown")));
    assert!(decode_wave_split_short_q_preload_enabled(true, Some("1")));
}

#[test]
fn scaled_prefill_gemm_guard_covers_long_shape_edges() {
    let enabled = Some("1");
    let case = |m| Case {
        id: "scaled",
        m,
        start_position: 257,
    };
    for m in [1024, 4096, 10_001, 100_000, 1 << 20] {
        assert!(scaled_prefill_gemm_enabled(
            "gfx1030",
            case(m),
            KvCacheEncoding::Fp16,
            enabled,
            false,
        ));
    }
    assert!(scaled_prefill_gemm_enabled(
        "gfx1030",
        case(1024),
        KvCacheEncoding::Fp16,
        None,
        false,
    ));
    for value in ["0", "unknown"] {
        assert!(!scaled_prefill_gemm_enabled(
            "gfx1030",
            case(1024),
            KvCacheEncoding::Fp16,
            Some(value),
            false,
        ));
    }
    assert!(!scaled_prefill_gemm_enabled(
        "gfx1030",
        case(1024),
        KvCacheEncoding::Fp8E4M3Fn,
        enabled,
        false,
    ));
    assert!(!scaled_prefill_gemm_enabled(
        "gfx1201",
        case(1024),
        KvCacheEncoding::Fp16,
        enabled,
        false,
    ));
}

#[test]
fn long_prefill_v2_is_explicit_gfx1030_fp16_opt_in() {
    let enabled = Some("1");
    for m in [1024, 4096, 10_001, 100_000] {
        assert!(long_prefill_v2_enabled(
            "gfx1030",
            Case {
                id: "long-v2",
                m,
                start_position: 257,
            },
            KvCacheEncoding::Fp16,
            enabled,
            false,
        ));
    }
    let case = Case {
        id: "long-v2",
        m: 1024,
        start_position: 257,
    };
    assert!(!long_prefill_v2_enabled("gfx1030", case, KvCacheEncoding::Fp16, None, false));
    assert!(!long_prefill_v2_enabled("gfx1030", case, KvCacheEncoding::Fp16, enabled, true));
    assert!(!long_prefill_v2_enabled("gfx1201", case, KvCacheEncoding::Fp16, enabled, false));
    assert!(!long_prefill_v2_enabled(
        "gfx1030",
        Case { m: 1023, ..case },
        KvCacheEncoding::Fp16,
        enabled,
        false,
    ));
    assert!(!long_prefill_v2_enabled(
        "gfx1030",
        case,
        KvCacheEncoding::Fp8E4M3Fn,
        enabled,
        false,
    ));
}

fn no_settings<'a>() -> ProviderSettings<'a> {
    ProviderSettings {
        force_baseline: None,
        short_decode: None,
        fp16_pair: None,
        gqa4_split: None,
        gqa4_split_p32: None,
        q_preload: None,
        short_q_preload: None,
        scaled_prefill: None,
        long_prefill_v2: None,
    }
}

#[test]
fn a_forced_baseline_takes_the_opted_in_kernels_away() {
    let decode = Case {
        id: "decode",
        m: 1,
        start_position: 2047,
    };
    let settings = no_settings();
    assert_eq!(
        select_provider(decode, "gfx1030", KvCacheEncoding::Fp16, &settings),
        Provider::DecodeWaveFp16Pair
    );
    let forced = ProviderSettings {
        force_baseline: Some("1"),
        ..no_settings()
    };
    assert!(!decode_gqa4_split_enabled(
        "gfx1030",
        decode,
        KvCacheEncoding::Fp16,
        Some("1"),
        true
    ));
    assert_eq!(
        select_provider(decode, "gfx1030", KvCacheEncoding::Fp16, &forced),
        Provider::DecodeWaveQPreload
    );
}

fn abi() -> AttentionAbi {
    AttentionAbi {
        abi_version: 1,
        dispatch_info_version: 1,
        kernel_online_softmax_v2: 2,
        kernel_packed_kv_v3: 3,
        backend_hip: 1,
    }
}

#[test]
fn a_dispatch_from_a_fallback_never_matches() {
    let case = cases()[0];
    let dispatch = DispatchEvidence {
        abi_version: 1,
        info_version: 1,
        dispatch_id: 1,
        dispatch_count: 1,
        kernel_id: 2,
        workgroup_size_x: 256,
        grid_size_x: 16,
        row_count: 1,
        normalized_size: 256,
        backend: 1,
        fallback_allowed: false,
        fallback_used: true,
        kernel_symbol: "causal_attention.online_softmax_gqa.v2".to_owned(),
        device_symbol: "sllm_causal_attention_online_softmax_gqa_v2".to_owned(),
        target: "gfx942".to_owned(),
    };
    assert!(!metadata_matches(
        &dispatch,
        case,
        "gfx942",
        KvCacheEncoding::Fp16,
        &no_settings(),
        &abi()
    ));
    let honest = DispatchEvidence {
        fallback_used: false,
        ..dispatch
    };
    assert!(metadata_matches(
        &honest,
        case,
        "gfx942",
        KvCacheEncoding::Fp16,
        &no_settings(),
        &abi()
    ));
    assert!(!metadata_matches(
        &honest,
        case,
        "gfx1030",
        KvCacheEncoding::Fp16,
        &no_settings(),
        &abi()
    ));
}

#[test]
fn quotients_are_rounded_like_single_precision_divisions() {
    for (num, den) in [(1_i64, 3_u64), (-7, 31), (250, 7), (-1, 47), (125, 32), (0, 5), (16, 1)] {
        let value = num as f32 / den as f32;
        let bits = value.to_bits();
        let upper = bits >> 16;
        let lower = bits & 0xffff;
        let carry = u32::from(lower > 0x8000 || (lower == 0x8000 && upper & 1 != 0));
        assert_eq!(bf16_quotient_word(num, den), (upper + carry) as u16, "{num}/{den}");
    }
}

#[test]
fn integers_are_rounded_like_single_precision_conversions() {
    for n in [0_u64, 1, 16_777_215, 16_777_217, 16_777_219, 1 << 40, (1 << 40) + (1 << 16)] {
        assert_eq!(round_to_f32(n), (n as f32) as u64, "{n}");
    }
}

#[test]
fn generated_attention_inputs_have_their_shapes() {
    assert_eq!(input_q_words(2).len(), 2 * Q_HEADS * HEAD_DIM);
    assert_eq!(input_k_words(3, 5).len(), 3 * KV_HEADS * HEAD_DIM);
    assert_eq!(input_v_words(3, 0).len(), 3 * KV_HEADS * HEAD_DIM);
    assert_eq!(input_mixed_q_words(1).len(), Q_HEADS * HEAD_DIM);
    assert_eq!(input_mixed_k_words(2, 9).len(), 2 * KV_HEADS * HEAD_DIM);
    assert_eq!(input_mixed_v_words(2, 9).len(), 2 * KV_HEADS * HEAD_DIM);
    let keys = input_k_words(3, 5);
    assert_eq!(input_k_words(2, 6), keys[KV_HEADS * HEAD_DIM..].to_vec());
}

#[test]
fn adjoining_keys_make_one_stretch() {
    let joined = [input_k_words(2, 5), input_k_words(3, 7)].concat();
    assert_eq!(joined, input_k_words(5, 5));
    let last = u64::MAX;
    let at_the_end = [input_k_words(1, last - 1), input_k_words(1, last)].concat();
    assert_eq!(at_the_end, input_k_words(2, last - 1));
    assert!(input_k_words(0, last).is_empty());
}

#[test]
fn case_inputs_hold_a_prefix_and_the_case() {
    let case = Case {
        id: "decode",
        m: 2,
        start_position: 3,
    };
    let inputs = case_inputs(case, 7);
    assert_eq!(inputs.prefix_key.len(), 3 * KV_HEADS * HEAD_DIM);
    assert_eq!(inputs.key.len(), 2 * KV_HEADS * HEAD_DIM);
    assert_eq!(inputs.query.len(), 2 * Q_HEADS * HEAD_DIM);
    assert_eq!(inputs.prefix_value.len(), inputs.prefix_key.len());
    assert_eq!(inputs.value.len(), inputs.key.len());
    assert_eq!(committed_length(case), Ok(5));
    assert!(committed_length(Case {
        id: "overflow",
        m: 1,
        start_position: u64::MAX
    })
    .is_err());
}

#[test]
fn appended_words_make_whole_tokens() {
    assert_eq!(append_token_count(2048, 2048), Ok(2));
    assert_eq!(
        append_token_count(0, 0),
        Err("malformed non-empty KV append input".to_owned())
    );
    assert!(append_token_count(1024, 2048).is_err());
}

#[test]
fn virtual_caches_commit_whole_pages() {
    let logical = fp16_logical_bytes(3).unwrap();
    assert_eq!(logical, 3 * 4 * 256 * 2);
    assert_eq!(
        fp16_committed_bytes(KvMemoryKind::ContiguousResident, logical, 4096),
        Ok(logical)
    );
    assert_eq!(
        fp16_committed_bytes(KvMemoryKind::VirtualContiguous, logical, 4096),
        Ok(8192)
    );
}

#[test]
fn kernel_times_must_be_there_and_above_zero() {
    assert_eq!(check_elapsed("attention", Some(5)), Ok(5));
    assert!(check_elapsed("attention", None).is_err());
    assert!(check_elapsed("attention", Some(0)).is_err());
}

#[test]
fn oracle_inputs_must_have_the_case_shape() {
    assert!(check_oracle_inputs(2 * 4096, 3 * 1024, 3 * 1024, 2, 1).is_ok());
    assert!(check_oracle_inputs(4096, 3 * 1024, 3 * 1024, 2, 1).is_err());
    let row = sampled_row(1, 1, 2 * 4096, 3 * 1024, 3 * 1024).unwrap();
    assert_eq!(row.query_start, 4096);
    assert_eq!(row.query_end, 8192);
    assert_eq!(row.committed_words, 3 * 1024);
    assert!(sampled_row(2, 1, 2 * 4096, 3 * 1024, 3 * 1024).is_err());
}

#[test]
fn special_words_are_decided_without_a_tolerance() {
    assert_eq!(check_word(0x7fc0, 0x7fc1), WordCheck::Decided(true));
    assert_eq!(check_word(0x3f80, 0x7fc1), WordCheck::Decided(false));
    assert_eq!(check_word(0x7f80, 0x7f80), WordCheck::Decided(true));
    assert_eq!(check_word(0xff80, 0x7f80), WordCheck::Decided(false));
    assert_eq!(check_word(0x3f80, 0x3f81), WordCheck::ByTolerance);
}

#[test]
fn warm_ups_are_not_kept() {
    let mut samples = Vec::new();
    for repetition in 0..TIMING_WARMUPS + 2 {
        keep_sample(&mut samples, repetition, 10 + repetition as u64);
    }
    assert_eq!(samples, vec![15, 16]);
}

#[test]
fn long_cases_of_the_operator_run_are_sampled() {
    let case = |m: usize| Case {
        id: "a",
        m,
        start_position: 0,
    };
    assert!(uses_sampled_oracle(true, case(1_024)));
    assert!(!uses_sampled_oracle(true, case(1_023)));
    assert!(!uses_sampled_oracle(false, case(4_096)));
    assert_eq!(oracle_scope(true), "sampled-rows-scalar-v1");
    assert_eq!(oracle_scope(false), "full-scalar-v1");
}

#[test]
fn sampled_rows_are_read_together() {
    let good = OracleMatch {
        matches: true,
        nonuniform_softmax: true,
        subnormal_score_contribution: true,
    };
    let bad = OracleMatch {
        matches: false,
        nonuniform_softmax: false,
        subnormal_score_contribution: false,
    };
    assert_eq!(OracleMatch::start().with_row(good), good);
    let mixed = OracleMatch::start().with_row(good).with_row(bad);
    assert!(!mixed.matches);
    assert!(mixed.nonuniform_softmax);
    assert!(!mixed.subnormal_score_contribution);
    assert!(!OracleMatch::start().nonuniform_softmax);
}

#[test]
fn a_case_shows_what_its_comparison_found() {
    let case = Case {
        id: "a",
        m: 3,
        start_position: 4,
    };
    let found = OracleMatch {
        matches: false,
        nonuniform_softmax: true,
        subnormal_score_contribution: false,
    };
    let flags = case_flags(case, true, found, 7, true, false);
    assert_eq!(flags.id, "a");
    assert!(!flags.numerical_match && !flags.gqa_mapping_match);
    assert!(flags.nonuniform_softmax_checked && !flags.subnormal_score_contribution_checked);
    assert!(flags.causal_visibility_match && flags.sampled_rows_causal_visibility_match);
    assert!(!flags.sampled_rows_gqa_mapping_match);
    assert!(flags.metadata_match && !flags.no_fallback);
    let flags = case_flags(case, false, found, 8, false, true);
    assert!(flags.sampled_rows_gqa_mapping_match);
    assert!(!flags.causal_visibility_match);
    assert!(!flags.metadata_match && flags.no_fallback);
}

fn passing_flags(id: &'static str) -> CaseFlags {
    CaseFlags {
        id,
        numerical_match: true,
        nonuniform_softmax_checked: true,
        subnormal_score_contribution_checked: true,
        causal_visibility_match: true,
        gqa_mapping_match: true,
        sampled_rows_causal_visibility_match: true,
        sampled_rows_gqa_mapping_match: true,
        metadata_match: true,
        no_fallback: true,
    }
}

#[test]
fn one_failed_case_fails_the_run() {
    let clean = CleanupCounts {
        retryable_cleanup: 0,
        durable_quarantine: 0,
    };
    let leaked = CleanupCounts {
        retryable_cleanup: 0,
        durable_quarantine: 1,
    };
    let good = vec![passing_flags("a"), passing_flags("b")];
    assert!(judge_run(&good, &clean).pass);
    assert!(!judge_run(&good, &leaked).pass);
    let bad = vec![
        passing_flags("a"),
        CaseFlags {
            metadata_match: false,
            ..passing_flags("b")
        },
    ];
    assert!(!judge_run(&bad, &clean).pass);
    assert_eq!(run_state(RunEnd::Complete(true)), "PASS");
    assert_eq!(run_state(RunEnd::Complete(false)), "INCOMPLETE");
    assert_eq!(run_state(RunEnd::Failed), "FAIL");
}
