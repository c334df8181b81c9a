use sllm_hip::audit::{CleanupCounts, DispatchEvidence};
use sllm_hip::gemma_args::{parse_gemma_config, parse_gemma_full_config};
use sllm_hip::gemma_full::{
    check_quantized_audit, check_session_cleanup, required_memory, GenerationRun, TokenRun,
    Transition, WorkCounts, REFERENCE_TOKEN,
};
use sllm_hip::gemma_profile::{
    check_profile_audit, check_profile_cleanup, check_run_cleanup, decode_stats, elapsed_ns,
    profile_request, profiles, token_digest,
};
use sllm_hip::gemma_slice::{
    bytes_to_words, check_attention_shape, check_dispatch, check_embedding, check_gelu_shape,
    check_rmsnorm_shape, check_rotary_shape, check_slice_contract, embedding_ids,
    expected_embedding, make_activation, matmul_plan, small_activation, unit_scale, MatmulRequest,
    SliceOp, TensorInfo,
};
use sllm_hip::gemma_slice_run::{SliceRun, SliceStep, StepOutput, STEPS};

fn arguments(list: &[&str]) -> Vec<String> {
    list.iter().map(|text| text.to_string()).collect()
}

#[test]
fn gemma_arguments_are_read_in_pairs() {
    let list = [
        "--lock", "l", "--cache", "c", "--device-index", "1", "--target", "gfx1030",
    ];
    let config = parse_gemma_config(&arguments(&list)).unwrap();
    assert_eq!(config.lock, "l");
    assert_eq!(config.device_index, 1);
    assert_eq!(config.token_id, 2);
    assert_eq!(parse_gemma_config(&arguments(&list[..1])).unwrap_err(), "--lock requires a value");
    assert_eq!(
        parse_gemma_config(&arguments(&["--target", "gfx942"])).unwrap_err(),
        "--target must be exactly gfx1030 or gfx1201"
    );
    assert!(parse_gemma_config(&arguments(&["--token-id", "2"])).is_err());
    let with_token = [&list[..], &["--token-id", "2"]].concat();
    assert!(parse_gemma_full_config(&arguments(&with_token)).is_ok());
    let other = [&list[..], &["--token-id", "3"]].concat();
    assert_eq!(
        parse_gemma_full_config(&arguments(&other)).unwrap_err(),
        "--token-id must match the fixed CPU reference input 2"
    );
    assert_eq!(parse_gemma_config(&arguments(&list[..6])).unwrap_err(), "missing --target");
}

#[test]
fn layouts_must_fit_the_device() {
    assert_eq!(required_memory(1, 2, 3, None, "Gemma"), Ok(6));
    assert_eq!(required_memory(1, 2, 3, Some(6), "Gemma"), Ok(6));
    assert_eq!(
        required_memory(1, 2, 3, Some(5), "Gemma").unwrap_err(),
        "Gemma exact layout requires 6 bytes but only 5 are available"
    );
    assert_eq!(
        required_memory(u64::MAX, 2, 3, None, "Gemma").unwrap_err(),
        "Gemma required memory overflowed"
    );
}

fn transition(committed_length: u64, token: Option<i32>) -> Transition {
    Transition {
        token,
        fallback_used: false,
        backend: 1,
        target: "gfx1030".to_owned(),
        poisoned: false,
        committed_length,
        state_generation: committed_length,
        work: WorkCounts {
            submission_count: 1,
            kernel_dispatch_count: 10,
            segment_count: 2,
            boundary_count: 3,
        },
    }
}

#[test]
fn generation_goes_on_until_all_transitions_were_made() {
    let mut run = GenerationRun::start("gfx1030", &transition(1, Some(REFERENCE_TOKEN))).unwrap();
    let mut steps = 0;
    while let Some(next) = run.next() {
        assert_eq!(next.token, REFERENCE_TOKEN);
        run.record(&transition(next.start_position + 1, Some(REFERENCE_TOKEN))).unwrap();
        steps += 1;
    }
    assert_eq!(run.tokens.len(), 8);
    assert_eq!(steps, 7);
    assert_eq!(run.work.kernel_dispatch_count, 80);
    assert!(run.finish().is_ok());
}

#[test]
fn generation_refuses_what_is_not_exact() {
    assert_eq!(
        GenerationRun::start("gfx1201", &transition(1, Some(5))).unwrap_err(),
        "Gemma full prefill audit is not exact/no-fallback"
    );
    assert_eq!(
        GenerationRun::start("gfx1030", &transition(1, None)).unwrap_err(),
        "Gemma prefill returned no token"
    );
    let mut run = GenerationRun::start("gfx1030", &transition(1, Some(5))).unwrap();
    assert_eq!(
        run.record(&transition(5, Some(5))).unwrap_err(),
        "Gemma full decode audit is not exact/no-fallback"
    );
    assert_eq!(
        run.record(&transition(2, None)).unwrap_err(),
        "Gemma decode returned no token"
    );
    assert!(run.finish().is_err());
}

#[test]
fn generations_decode_their_last_token_until_they_are_whole() {
    let mut run = TokenRun::start("quantized Gemma", 3, Some(4)).unwrap();
    assert_eq!(run.next(), Some(4));
    assert_eq!(run.record(Some(9)), Ok(()));
    assert_eq!(run.next(), Some(9));
    assert_eq!(run.record(None).unwrap_err(), "quantized Gemma decode returned no token");
    assert_eq!(run.tokens, vec![4, 9]);
    assert_eq!(run.record(Some(-1)), Ok(()));
    assert_eq!(run.next(), None);
    assert_eq!(run.tokens, vec![4, 9, -1]);
}

#[test]
fn a_generation_without_wanted_tokens_keeps_that_of_its_prefill() {
    let run = TokenRun::start("profile", 0, Some(7)).unwrap();
    assert_eq!(run.next(), None);
    assert_eq!(run.tokens, vec![7]);
    assert_eq!(
        TokenRun::start("profile", 17, None).unwrap_err(),
        "profile prefill returned no token"
    );
}

#[test]
fn two_norms_of_a_slice_have_a_tensor() {
    assert_eq!(
        SliceStep::QueryNorm.scale_tensor(),
        Some("model.language_model.layers.0.self_attn.q_norm.weight")
    );
    assert_eq!(
        SliceStep::KeyNorm.scale_tensor(),
        Some("model.language_model.layers.0.self_attn.k_norm.weight")
    );
    assert_eq!(SliceStep::ValueNorm.scale_tensor(), None);
    assert_eq!(SliceStep::FinalNorm.scale_tensor(), None);
    assert_eq!(SliceStep::Gate.scale_tensor(), None);
}

#[test]
fn quantized_runs_are_audited() {
    assert!(check_quantized_audit(false, "gfx1030", "gfx1030").is_ok());
    assert!(check_quantized_audit(true, "gfx1030", "gfx1030").is_err());
    let held = CleanupCounts {
        retryable_cleanup: 0,
        durable_quarantine: 1,
    };
    assert!(check_session_cleanup(&held).is_err());
}

#[test]
fn profiles_are_timed_and_summarized() {
    assert_eq!(profiles().len(), 2);
    assert_eq!(profiles()[0].name, "short-odd-3-17");
    let request = profile_request(3, 17).unwrap();
    assert_eq!(request.input, vec![2, 2, 2]);
    assert!(profile_request(usize::MAX, 2).is_err());
    assert_eq!(elapsed_ns(7), 7);
    assert_eq!(elapsed_ns(u128::MAX), u64::MAX);
    let stats = decode_stats(&[4, 1, 3]).unwrap();
    assert_eq!((stats.total_ns, stats.min_ns, stats.median_ns, stats.max_ns), (8, 1, 3, 4));
    assert!(decode_stats(&[u64::MAX, 1]).is_err());
    assert_eq!(token_digest(&[1]), token_digest(&[1]));
    assert_ne!(token_digest(&[1]), token_digest(&[2]));
    assert!(check_profile_audit(false).is_ok());
    assert!(check_profile_audit(true).is_err());
    assert!(check_profile_cleanup(0, 0).is_ok());
    assert!(check_profile_cleanup(1, 0).is_err());
    let clean = CleanupCounts {
        retryable_cleanup: 0,
        durable_quarantine: 0,
    };
    assert!(check_run_cleanup(0, &clean).is_ok());
    assert!(check_run_cleanup(1, &clean).is_err());
}

#[test]
fn slice_shapes_are_checked() {
    assert_eq!(bytes_to_words(&[0x80, 0x3f]), Ok(vec![0x3f80]));
    assert!(bytes_to_words(&[1]).is_err());
    assert_eq!(make_activation().len(), 3 * 3_840);
    assert_eq!(small_activation().len(), 51);
    assert_eq!(unit_scale(), vec![0x3f80; 6]);
    assert!(check_gelu_shape(9, 9).is_ok());
    assert!(check_gelu_shape(9, 8).is_err());
    assert!(check_rmsnorm_shape(18, 6, 3, 6).is_ok());
    assert!(check_rmsnorm_shape(18, 5, 3, 6).is_err());
    assert!(check_rotary_shape(54, 18).is_ok());
    assert!(check_rotary_shape(54, 17).is_err());
    assert!(check_attention_shape(54, 18, 18).is_ok());
    assert!(check_attention_shape(54, 18, 17).is_err());
    assert!(check_slice_contract(&[3_840], true, 7_680).is_ok());
    assert!(check_slice_contract(&[3_840], false, 7_680).is_err());
}

#[test]
fn slices_of_products_are_planned() {
    let request = MatmulRequest {
        tensor_name: "w",
        m: 3,
        k: 17,
        n: 3,
    };
    let tensor = TensorInfo {
        is_bf16: true,
        shape: vec![15_360, 3_840],
    };
    let plan = matmul_plan(&request, 51, Some(&tensor)).unwrap();
    assert_eq!(plan.rows, 3);
    assert_eq!(plan.row_bytes, 34);
    assert_eq!(plan.stride_bytes, 7_680);
    assert_eq!(plan.row_offset(2), 15_360);
    assert_eq!(
        matmul_plan(&request, 50, Some(&tensor)).unwrap_err(),
        "matmul slice activation shape differs"
    );
    assert_eq!(
        matmul_plan(&request, 51, None).unwrap_err(),
        "verified tensor is missing: w"
    );
    let flat = TensorInfo {
        is_bf16: true,
        shape: vec![3_840],
    };
    assert_eq!(
        matmul_plan(&request, 51, Some(&flat)).unwrap_err(),
        "matmul tensor is not rank-2 BF16: w"
    );
    let small = TensorInfo {
        is_bf16: true,
        shape: vec![2, 17],
    };
    assert_eq!(
        matmul_plan(&request, 51, Some(&small)).unwrap_err(),
        "matmul slice exceeds verified tensor: w"
    );
}

#[test]
fn real_rows_are_gathered_bit_for_bit() {
    let table: Vec<u8> = (0..3 * 7_680).map(|index| (index % 251) as u8).collect();
    let expected = expected_embedding(&table);
    let mut by_hand = Vec::new();
    for id in embedding_ids() {
        let start = id as usize * 7_680;
        by_hand.extend_from_slice(&table[start..start + 7_680]);
    }
    assert_eq!(expected, by_hand);
    assert!(check_embedding(&expected, &by_hand).is_ok());
    assert!(check_embedding(&expected, &by_hand[1..]).is_err());
}

fn dispatch(kernel: &str, device: &str) -> DispatchEvidence {
    DispatchEvidence {
        abi_version: 1,
        info_version: 1,
        dispatch_id: 1,
        dispatch_count: 1,
        kernel_id: 1,
        workgroup_size_x: 1,
        grid_size_x: 1,
        row_count: 1,
        normalized_size: 1,
        backend: 1,
        fallback_allowed: false,
        fallback_used: false,
        kernel_symbol: kernel.to_owned(),
        device_symbol: device.to_owned(),
        target: "gfx1030".to_owned(),
    }
}

fn step_dispatch(step: SliceStep) -> DispatchEvidence {
    match step.op() {
        SliceOp::Embedding => dispatch(
            "embedding.gather.bf16_i32.v1",
            "sllm_embedding_gather_bf16_i32_v1",
        ),
        SliceOp::Matmul => dispatch("matmul.bf16.v1", ""),
        SliceOp::GeluTanhMul => dispatch("elementwise.gelu_tanh_mul.bf16_fp32.v1", ""),
        SliceOp::CompactRmsNorm => dispatch("rmsnorm.baseline.wave32.v1", ""),
        SliceOp::Rotary => dispatch("rotary.split_half.bf16_fp32.v1", ""),
        SliceOp::Attention => dispatch("gemma_causal_attention.online_softmax_gqa_bf16.v1", ""),
        SliceOp::FinalRmsNorm => dispatch(
            "rmsnorm.baseline.wave32.v1",
            "sllm_rmsnorm_baseline_wave32_v1",
        ),
    }
}

fn step_output(step: SliceStep) -> StepOutput {
    let (first, second) = match step {
        SliceStep::Embedding | SliceStep::FinalNorm => (3 * 3_840, 0),
        SliceStep::QueryProjection | SliceStep::QueryNorm | SliceStep::Attention => (54, 0),
        SliceStep::KeyProjection
        | SliceStep::ValueProjection
        | SliceStep::KeyNorm
        | SliceStep::ValueNorm => (18, 0),
        SliceStep::Rotary => (54, 18),
        _ => (9, 0),
    };
    StepOutput {
        first: vec![step as u16; first],
        second: vec![100; second],
    }
}

#[test]
fn a_slice_run_feeds_each_step_with_earlier_results() {
    let mut run = SliceRun::start();
    let mut made = 0;
    while let Some(action) = run.next() {
        match action.step {
            SliceStep::Embedding => assert!(action.inputs.is_empty()),
            SliceStep::Gate => {
                assert_eq!(action.inputs, vec![small_activation()]);
                let request = action.step.matmul_request().unwrap();
                assert_eq!((request.m, request.k, request.n), (3, 17, 3));
            }
            SliceStep::Activation => assert_eq!(action.inputs, vec![vec![1; 9], vec![2; 9]]),
            SliceStep::Down => assert_eq!(action.inputs, vec![vec![3; 9]]),
            SliceStep::ValueNorm => assert_eq!(action.inputs, vec![vec![8; 18], unit_scale()]),
            SliceStep::Rotary => assert_eq!(action.inputs, vec![vec![9; 54], vec![10; 18]]),
            SliceStep::Attention => {
                assert_eq!(action.inputs, vec![vec![12; 54], vec![100; 18], vec![11; 18]])
            }
            SliceStep::FinalNorm => assert_eq!(action.inputs, vec![make_activation()]),
            _ => assert_eq!(action.inputs.len(), 1),
        }
        run.record(&step_dispatch(action.step), "gfx1030", step_output(action.step)).unwrap();
        made += 1;
    }
    assert_eq!(made, STEPS);
}

#[test]
fn a_slice_run_refuses_other_dispatches_and_lengths() {
    let mut run = SliceRun::start();
    assert_eq!(
        run.record(&dispatch("matmul.bf16.v1", ""), "gfx1030", step_output(SliceStep::Embedding))
            .unwrap_err(),
        "embedding dispatch evidence is not exact/no-fallback"
    );
    assert_eq!(
        run.record(
            &step_dispatch(SliceStep::Embedding),
            "gfx1030",
            step_output(SliceStep::Gate)
        )
        .unwrap_err(),
        "embedding output readback length differs"
    );
    assert!(run.outputs.is_empty());
    assert!(check_dispatch(SliceOp::Matmul, &dispatch("matmul.bf16.v1", ""), "gfx1030").is_ok());
    assert!(check_dispatch(SliceOp::Matmul, &dispatch("gemm", ""), "gfx1030").is_err());
}
