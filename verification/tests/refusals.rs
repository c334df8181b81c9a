//! Each refusal in its own words.

use sllm_hip::attention_cases::Case;
use sllm_hip::attention_config::{kv_encoding_name, parse_config_from, KvCacheEncoding};
use sllm_hip::attention_run::{
    append_token_count, check_elapsed, check_oracle_inputs, committed_length,
    fp16_committed_bytes, fp16_logical_bytes, sampled_row, KvMemoryKind,
};
use sllm_hip::audit::CleanupCounts;
use sllm_hip::catch_up::{
    bf16_rows_to_f32, check_mode, forced_block_decision, forced_block_decision_for_count,
    parse_catch_up, parse_mode, top_summary, CatchUpMode,
};
use sllm_hip::catch_up_entry::{
    check_draft_rows, check_target_block, next_target_hidden, prime_requests, row_one_hidden,
};
use sllm_hip::catch_up_ledger::{check_draft_row, check_target_row};
use sllm_hip::catch_up_report::{prepare_prefixes_only, stage1_prefix_path, PathArg};
use sllm_hip::companion::{check_candidate_encoding, check_priming_capacity, companion_bytes};
use sllm_hip::device_args::{parse_device_config, parse_embedding_config, DeviceTool};
use sllm_hip::diagnostic::{
    check_cleanup, check_measured, check_no_companion, check_tokenizer_size, expected_uuid,
    unsigned_prompt,
};
use sllm_hip::embedding::{check_rows, check_table, negative_token_rejected, NegativeSubmission};
use sllm_hip::fp8_accuracy::{check_logits, check_usage, judge_accuracy, parse_accuracy_arguments};
use sllm_hip::fp8_matmul::{median_u64, parse_arguments, planned_cases};
use sllm_hip::gemma_args::{parse_gemma_config, parse_gemma_full_config};
use sllm_hip::gemma_full::{
    check_quantized_audit, check_session_cleanup, required_memory, TokenRun,
};
use sllm_hip::gemma_profile::{
    check_profile_audit, check_profile_cleanup, check_run_cleanup, decode_stats, profile_request,
};
use sllm_hip::gemma_slice::{
    bytes_to_words, check_attention_shape, check_embedding, check_gelu_shape, check_rmsnorm_shape,
    check_rotary_shape, check_slice_contract, matmul_plan, readback_refusal, MatmulRequest,
    SliceOp, TensorInfo,
};
use sllm_hip::gqa6_run::{benchmark_case, selected_cases};
use sllm_hip::mtp_case::check_prefix_rows;
use sllm_hip::mtp_numeric::numeric_diff;
use sllm_hip::mtp_path::{
    block_inputs, check_prompt_fits, check_proposal_row, prime_mtp, prompt_cases,
};
use sllm_hip::preprocess_run::check_output_bytes;
use sllm_hip::research_args::{
    encoding_name, parse_research_arguments, production_descriptor, target_config, variant_name,
    Block16Encoding, PhysicalVariant,
};
use sllm_hip::research_candidate::{set_and_verify_recipe_pair, Recipe, RecipeRead};
use sllm_hip::session::{check_released, wait_ok, wait_success, DeviceState};
use sllm_hip::state_check::{
    check_block_shape, check_prefill_shape, check_rewind, check_truncation_replay,
    logit_refusal_message, truncation_plan, LogitRefusal,
};
use sllm_hip::transfer::check_transfer_limit;

fn list(items: &[&str]) -> Vec<String> {
    items.iter().map(|text| text.to_string()).collect()
}

fn refused<T: std::fmt::Debug>(result: Result<T, String>) -> String {
    result.expect_err("must be refused")
}

#[test]
fn attention_command_lines_are_refused_in_order() {
    let refusal = |items: &[&str]| refused(parse_config_from(&list(items)));
    assert_eq!(refusal(&[]), "missing --device-index");
    assert_eq!(refusal(&["--device-index", "0"]), "missing --target");
    assert_eq!(refusal(&["--device-index"]), "--device-index requires a value");
    assert_eq!(refusal(&["--device-index", "-1"]), "--device-index must be a u32");
    assert_eq!(refusal(&["--device-index", "4294967296"]), "--device-index must be a u32");
    assert_eq!(
        refusal(&["--device-index", "0", "--device-index", "0"]),
        "duplicate --device-index"
    );
    assert_eq!(refusal(&["--target"]), "--target requires a value");
    assert_eq!(
        refusal(&["--target", "gfx900"]),
        "--target must be gfx1030, gfx1201, or gfx942"
    );
    assert_eq!(
        refusal(&["--target", "gfx942", "--target", "gfx942"]),
        "duplicate --target"
    );
    assert_eq!(refusal(&["--kv-encoding"]), "--kv-encoding requires a value");
    assert_eq!(
        refusal(&["--kv-encoding", "fp4"]),
        "--kv-encoding must be fp16, fp8, fp8-static, or nvfp4"
    );
    for flag in [
        "--phase12-subset",
        "--phase49-operator",
        "--phase49-decode-operator",
        "--phase49-decode-short",
    ] {
        assert_eq!(refusal(&[flag, flag]), format!("duplicate {flag}"));
    }
    assert_eq!(refusal(&["now"]), "unexpected argument now");
    let config = parse_config_from(&list(&[
        "--kv-encoding",
        "fp8",
        "--kv-encoding",
        "nvfp4",
        "--device-index",
        "+7",
        "--target",
        "gfx942",
    ]))
    .unwrap();
    assert_eq!(config.device_index, 7);
    assert_eq!(config.target, "gfx942");
    assert_eq!(config.kv_encoding, KvCacheEncoding::Nvfp4);
}

#[test]
fn cache_encodings_have_their_names() {
    assert_eq!(kv_encoding_name(KvCacheEncoding::Fp16), "fp16-v1");
    assert_eq!(kv_encoding_name(KvCacheEncoding::Fp8E4M3Fn), "kv-fp8-v1");
    assert_eq!(kv_encoding_name(KvCacheEncoding::Fp8E4M3FnStatic), "kv-fp8-static-v1");
    assert_eq!(kv_encoding_name(KvCacheEncoding::Nvfp4), "kv-nvfp4-v1");
    assert_eq!(encoding_name(Block16Encoding::Fp8E4M3Block16), "kv-fp8-e4-block16");
    assert_eq!(encoding_name(Block16Encoding::Fp8E5M2Block16), "kv-fp8-e5-block16");
    assert_eq!(variant_name(PhysicalVariant::OcpE4M3Fn), "E4M3-OCP");
    assert_eq!(variant_name(PhysicalVariant::OcpE5M2), "E5M2-software");
    assert_eq!(variant_name(PhysicalVariant::E4M3FnuZ), "E4M3-FNUZ");
    assert_eq!(production_descriptor(Block16Encoding::Fp8E4M3Block16), "kv-fp8-e4-block16-v2");
    assert_eq!(production_descriptor(Block16Encoding::Fp8E5M2Block16), "kv-fp8-e5-block16-v2");
}

#[test]
fn attention_cases_are_refused_in_their_words() {
    let endless = Case {
        id: "endless",
        m: 1,
        start_position: u64::MAX,
    };
    assert_eq!(refused(committed_length(endless)), "case committed length overflow");
    let append = "malformed non-empty KV append input";
    assert_eq!(refused(append_token_count(1_023, 1_023)), append);
    assert_eq!(refused(append_token_count(1_024, 2_048)), append);
    assert_eq!(
        refused(check_elapsed("HIP causal attention", None)),
        "HIP causal attention omitted device timing"
    );
    assert_eq!(
        refused(check_elapsed("timed attention", Some(0))),
        "timed attention returned zero device time"
    );
    let shape = "oracle input lengths do not match the fixed contract";
    assert_eq!(refused(check_oracle_inputs(4_096, 1_024, 1_023, 1, 0)), shape);
    assert_eq!(refused(check_oracle_inputs(4_096, 1_023, 1_023, 1, 0)), shape);
    assert_eq!(
        refused(check_oracle_inputs(4_096, 1_024, 1_024, 1, u64::MAX)),
        "oracle position overflow"
    );
    assert_eq!(
        refused(sampled_row(1, 0, 4_096, 2_048, 2_048)),
        "sampled oracle query row was out of bounds"
    );
    assert_eq!(
        refused(sampled_row(0, 1, 4_096, 1_024, 2_048)),
        "sampled oracle key prefix was out of bounds"
    );
    assert_eq!(
        refused(sampled_row(0, 1, 4_096, 2_048, 1_024)),
        "sampled oracle value prefix was out of bounds"
    );
    assert_eq!(
        refused(fp16_logical_bytes(u64::MAX)),
        "FP16 KV logical resident-byte calculation overflowed"
    );
    assert_eq!(
        refused(fp16_committed_bytes(KvMemoryKind::VirtualContiguous, u64::MAX, 4_096)),
        "FP16 KV committed-byte calculation overflowed"
    );
}

#[test]
fn case_filters_are_refused_in_their_words() {
    assert_eq!(refused(selected_cases(Some("prefill-m3,none"))), "unknown case id none");
    assert_eq!(refused(selected_cases(Some(" , "))), "case filter selected no cases");
    let picked = selected_cases(Some(" prefill-m5 ,prefill-m3,\u{3000}prefill-m5")).unwrap();
    let ids: Vec<&str> = picked.iter().map(|case| case.id).collect();
    assert_eq!(ids, ["prefill-m5", "prefill-m3"]);
    let case = picked[0];
    assert_eq!(refused(benchmark_case(case, Some("none"))), "unknown benchmark case id none");
    assert_eq!(
        refused(benchmark_case(case, Some(","))),
        "benchmark case filter selected no cases"
    );
    assert_eq!(benchmark_case(case, Some("prefill-m3, prefill-m5")), Ok(true));
    assert_eq!(benchmark_case(case, Some("prefill-m3")), Ok(false));
    assert_eq!(benchmark_case(case, None), Ok(false));
}

#[test]
fn research_command_lines_are_refused_in_order() {
    let refusal = |items: &[&str]| refused(parse_research_arguments(&list(items)));
    let usage = "usage: DEVICE_INDEX TARGET [ENCODING] CANDIDATE_SPEC_JSON [OUTPUT_JSON]";
    assert_eq!(refusal(&[]), usage);
    assert_eq!(refusal(&["0", "gfx1030"]), usage);
    assert_eq!(refusal(&["0", "gfx1030", "e5", "c", "o", "x"]), usage);
    assert_eq!(refusal(&["x", "gfx1030", "c"]), "DEVICE_INDEX must be u32");
    assert_eq!(refusal(&["0", "gfx900", "c"]), "--target must be exact gfx1030 or gfx1201");
    assert_eq!(
        refusal(&["0", "gfx1030", "e4", "c"]),
        "encoding e4 is incompatible with target gfx1030 (expected kv-fp8-e5-block16)"
    );
    assert_eq!(refusal(&["--device-index"]), "--device-index needs a value");
    assert_eq!(refusal(&["--device-index", "x"]), "--device-index must be u32");
    assert_eq!(refusal(&["--nothing", "0"]), "unexpected argument --nothing");
    assert_eq!(refusal(&["--target", "gfx1030"]), "missing --device-index");
    assert_eq!(refusal(&["--device-index", "0"]), "missing --target");
    assert_eq!(
        refusal(&["--device-index", "0", "--target", "gfx1030"]),
        "missing --candidate-spec"
    );
    assert_eq!(refused(target_config("gfx942")), "--target must be exact gfx1030 or gfx1201");
    let placed = parse_research_arguments(&list(&["3", "gfx1201", "e4", "c", "o"])).unwrap();
    assert_eq!(placed.device_index, 3);
    assert_eq!(placed.candidate_path, "c");
    assert_eq!(placed.output, Some("o".to_owned()));
    assert_eq!(placed.variant, PhysicalVariant::OcpE4M3Fn);
    let bare = parse_research_arguments(&list(&["3", "gfx1201", "spec", "o"])).unwrap();
    assert_eq!(bare.candidate_path, "spec");
    assert_eq!(bare.output, Some("o".to_owned()));
}

#[test]
fn recipe_pairs_are_refused_in_their_words() {
    let read = |status, key, value| RecipeRead { status, key, value };
    let set = |status, found| {
        refused(set_and_verify_recipe_pair(Recipe::Ceil, Recipe::Floor, status, found))
    };
    assert_eq!(set(-3, read(0, 1, 0)), "set Phase 54 recipe pair failed with status -3");
    assert_eq!(set(0, read(9, 1, 0)), "get Phase 54 recipe pair failed with status 9");
    assert_eq!(
        set(0, read(0, 0, 1)),
        "Phase 54 recipe getter did not preserve the selected pair"
    );
}

#[test]
fn device_command_lines_are_refused_in_order() {
    let refusal = |tool, items: &[&str]| refused(parse_device_config(tool, &list(items)));
    let transfer = DeviceTool::Transfer;
    assert_eq!(refusal(transfer, &[]), "missing --device-index");
    assert_eq!(refusal(transfer, &["--device-index", "1"]), "missing --target");
    assert_eq!(
        refusal(transfer, &["--target", "gfx942"]),
        "--target must be gfx1030 or gfx1201"
    );
    assert_eq!(refusal(transfer, &["--gemma-ops"]), "unexpected argument `--gemma-ops`");
    let elementwise = DeviceTool::Elementwise;
    assert_eq!(
        refusal(elementwise, &["--target", "gfx900"]),
        "--target must be gfx1030, gfx1201, or gfx942"
    );
    assert_eq!(
        refusal(elementwise, &["--gemma-ops", "--gemma-ops"]),
        "duplicate --gemma-ops"
    );
    let refusal = |items: &[&str]| refused(parse_embedding_config(&list(items)));
    assert_eq!(refusal(&["--target"]), "--target requires a value");
    assert_eq!(refusal(&["--target", "gfx942"]), "--target must be gfx1030 or gfx1201");
    assert_eq!(refusal(&["--nothing", "1"]), "unexpected argument `--nothing`");
}

#[test]
fn operators_are_refused_in_their_words() {
    assert_eq!(
        refused(check_transfer_limit(1 << 29)),
        "HIP transfer capability differs from the public 1 GiB ABI"
    );
    assert_eq!(refused(check_table(3, 4, 23)), "embedding weight bytes do not match shape");
    assert_eq!(
        refused(check_rows(&[1, 2], &[1, 2], 1, 1)),
        "embedding output byte count mismatch"
    );
    assert_eq!(
        refused(negative_token_rejected(NegativeSubmission::Accepted, "")),
        "negative token unexpectedly dispatched"
    );
    assert_eq!(
        refused(negative_token_rejected(NegativeSubmission::OtherError, "lost")),
        "negative token returned the wrong error: lost"
    );
    assert_eq!(negative_token_rejected(NegativeSubmission::BackendStatus(0x117), ""), Ok(true));
    assert!(check_output_bytes(1, 8, 8).is_ok());
    assert!(refused(check_output_bytes(1, 8, 7)).contains('7'));
    assert_eq!(
        refused(median_u64(&[])),
        "cannot compute median of empty timing samples"
    );
    assert_eq!(
        refused(parse_arguments(&list(&["0"]))),
        "usage: sllm-fp8-matmul-evidence DEVICE_INDEX gfx1030|gfx1201|gfx942"
    );
    assert_eq!(
        refused(planned_cases(true, Some("none"), None)),
        "SLLM_FP8_BENCHMARK_SCOPE must be all, decode, or prefill"
    );
}

#[test]
fn accuracy_runs_are_refused_in_their_words() {
    let usage = "usage: LOCK CACHE MANIFEST ARTIFACT DEVICE_INDEX TARGET";
    assert_eq!(refused(check_usage(&list(&["l"]))), usage);
    assert_eq!(
        refused(parse_accuracy_arguments(&list(&["l", "c", "m", "a", "x", "t"]))),
        "device index must be u32"
    );
    assert_eq!(
        refused(check_logits(None)),
        "full-model evidence did not publish logits"
    );
    assert_eq!(
        refused(check_logits(Some(&[f32::NAN.to_bits()]))),
        "full-model evidence produced non-finite logits"
    );
    assert_eq!(
        refused(judge_accuracy(&[1], &[2], false, "0.01")),
        "full-model FP8 accuracy gate failed: all_top1=false max_kld=0.01"
    );
    assert_eq!(
        refused(judge_accuracy(&[1], &[1], true, "0.06")),
        "full-model FP8 accuracy gate failed: all_top1=true max_kld=0.06"
    );
}

#[test]
fn waits_are_refused_in_their_words() {
    assert_eq!(refused(wait_success(Err("lost"), "upload")), "upload failed: lost");
    assert_eq!(
        refused(wait_success(Ok(DeviceState::Pending), "upload")),
        "upload remained pending"
    );
    assert_eq!(
        refused(wait_success(Ok(DeviceState::Failure), "upload")),
        "upload reported failure"
    );
    assert_eq!(refused(wait_ok(Err("lost"), "matmul")), "matmul: lost");
    assert_eq!(
        refused(wait_ok(Ok(DeviceState::Failure), "matmul")),
        "matmul: unexpected state Failure"
    );
    let held = CleanupCounts {
        retryable_cleanup: 0,
        durable_quarantine: 1,
    };
    assert_eq!(refused(check_released(&held, "still held")), "still held");
    assert_eq!(
        refused(sllm_hip::gemma_slice::wait_success(Err("lost"), "upload")),
        "upload: lost"
    );
}

#[test]
fn gemma_command_lines_are_refused_in_order() {
    let refusal = |items: &[&str]| refused(parse_gemma_full_config(&list(items)));
    assert_eq!(refusal(&["--lock"]), "--lock requires a value");
    assert_eq!(refusal(&["--lock", "a", "--lock", "b"]), "duplicate or unknown argument: --lock");
    assert_eq!(refusal(&["--device-index", "x"]), "--device-index must be a u32");
    let target = "--target must be exactly gfx1030 or gfx1201";
    assert_eq!(refusal(&["--target", "gfx942"]), target);
    assert_eq!(refusal(&["--target", "gfx1030", "--target", "gfx1030"]), target);
    assert_eq!(refusal(&["--token-id", "x"]), "--token-id must be an i32");
    assert_eq!(
        refusal(&["--token-id", "3"]),
        "--token-id must match the fixed CPU reference input 2"
    );
    assert_eq!(refusal(&[]), "missing --lock");
    assert_eq!(refusal(&["--lock", "l"]), "missing --cache");
    assert_eq!(refusal(&["--lock", "l", "--cache", "c"]), "missing --device-index");
    assert_eq!(
        refusal(&["--lock", "l", "--cache", "c", "--device-index", "0"]),
        "missing --target"
    );
    assert_eq!(
        refused(parse_gemma_config(&list(&["--token-id", "2"]))),
        "duplicate or unknown argument: --token-id"
    );
}

#[test]
fn gemma_runs_are_refused_in_their_words() {
    assert_eq!(
        refused(required_memory(u64::MAX, 1, 0, None, "Gemma")),
        "Gemma required memory overflowed"
    );
    assert_eq!(
        refused(required_memory(5, 6, 7, Some(17), "quantized Gemma")),
        "quantized Gemma exact layout requires 18 bytes but only 17 are available"
    );
    assert_eq!(
        refused(TokenRun::start("quantized Gemma", 8, None)),
        "quantized Gemma prefill returned no token"
    );
    assert_eq!(
        refused(check_quantized_audit(false, "gfx1030", "gfx1201")),
        "quantized Gemma execution was not exact HIP/no-fallback"
    );
    let held = CleanupCounts {
        retryable_cleanup: 1,
        durable_quarantine: 0,
    };
    assert_eq!(
        refused(check_session_cleanup(&held)),
        "session cleanup retained resources"
    );
    assert_eq!(refused(profile_request(usize::MAX, 2)), "profile capacity overflowed");
    let mut profile = TokenRun::start("profile", 17, Some(1)).unwrap();
    assert_eq!(refused(profile.record(None)), "profile decode returned no token");
    assert_eq!(refused(decode_stats(&[u64::MAX, 1])), "decode timing overflowed");
    assert_eq!(
        refused(check_profile_audit(true)),
        "profile used an execution fallback"
    );
    assert_eq!(
        refused(check_profile_cleanup(0, 1)),
        "profile request cleanup retained dynamic memory"
    );
    assert_eq!(
        refused(check_run_cleanup(0, &held)),
        "profile cleanup retained runtime resources"
    );
}

#[test]
fn gemma_slices_are_refused_in_their_words() {
    assert_eq!(refused(bytes_to_words(&[1])), "BF16 payload has an odd byte length");
    assert_eq!(refused(check_gelu_shape(0, 0)), "GELU-tanh slice inputs differ");
    assert_eq!(refused(check_rmsnorm_shape(17, 6, 3, 6)), "compact RMSNorm shape differs");
    assert_eq!(
        refused(check_rotary_shape(53, 18)),
        "rotary real-weight projection shape differs"
    );
    assert_eq!(
        refused(check_attention_shape(54, 18, 17)),
        "attention real-weight projection shape differs"
    );
    assert_eq!(
        refused(check_slice_contract(&[3_841], true, 7_680)),
        "locked Gemma slice is not the reviewed final RMSNorm weight"
    );
    assert_eq!(
        refused(check_embedding(&[1], &[2])),
        "real-weight embedding gather differs bit-for-bit"
    );
    let request = MatmulRequest {
        tensor_name: "w",
        m: 3,
        k: 17,
        n: 3,
    };
    let tensor = |shape: &[u64], is_bf16| TensorInfo {
        is_bf16,
        shape: shape.to_vec(),
    };
    assert_eq!(
        refused(matmul_plan(&request, 50, None)),
        "matmul slice activation shape differs"
    );
    assert_eq!(refused(matmul_plan(&request, 51, None)), "verified tensor is missing: w");
    assert_eq!(
        refused(matmul_plan(&request, 51, Some(&tensor(&[3], true)))),
        "matmul tensor is not rank-2 BF16: w"
    );
    assert_eq!(
        refused(matmul_plan(&request, 51, Some(&tensor(&[3, 17], false)))),
        "matmul tensor is not rank-2 BF16: w"
    );
    assert_eq!(
        refused(matmul_plan(&request, 51, Some(&tensor(&[3, 16], true)))),
        "matmul slice exceeds verified tensor: w"
    );
    assert_eq!(
        readback_refusal(SliceOp::Matmul),
        "matmul slice readback length differs"
    );
    assert_eq!(
        readback_refusal(SliceOp::Rotary),
        "rotary slice readback length differs"
    );
}

#[test]
fn draft_paths_are_refused_in_their_words() {
    assert_eq!(refused(numeric_diff(&[1], &[1, 2])), "numeric row length differs: 1 vs 2");
    assert_eq!(
        refused(numeric_diff(&[0, 0x7f80], &[0, 0x00ab])),
        "non-finite BF16 value observed at index 1: left=0x7f80 right=0x00ab"
    );
    assert_eq!(refused(prime_mtp(&[], &[], 2)), "MTP prefix shape mismatch");
    let (coding, japanese) = (vec![1_u32; 127], vec![2_u32; 129]);
    assert_eq!(
        refused(prompt_cases(&coding[..126], &japanese)),
        "raw coding diagnostic fixture tokenized to 126, expected 127"
    );
    assert_eq!(
        refused(prompt_cases(&coding, &japanese[..128])),
        "Japanese prompt did not reach the 129-token boundary"
    );
    assert_eq!(refused(prompt_cases(&[u32::MAX], &japanese)), "token ID overflow");
    assert_eq!(
        refused(check_prompt_fits(253)),
        "diagnostic prompt does not fit state capacity"
    );
    assert!(check_prompt_fits(252).is_ok());
    assert_eq!(refused(block_inputs(1, &[2, u32::MAX])), "draft token overflow");
    assert_eq!(
        refused(check_proposal_row(1, Some(9), &[2, 3], Some(&[1]))),
        "optimized rewind proposal token mismatch at row 1: selected=9 expected=3"
    );
    assert_eq!(
        refused(check_proposal_row(0, None, &[2, 3], Some(&[1]))),
        "optimized rewind proposal selection missing"
    );
    assert_eq!(
        refused(check_proposal_row(0, Some(2), &[2, 3], None)),
        "optimized MTP proposal hidden row missing"
    );
    assert_eq!(refused(check_prefix_rows(2, 3, 2)), "target MTP hidden row is empty");
    assert_eq!(refused(check_tokenizer_size(5, 6)), "verified tokenizer size changed");
    assert_eq!(
        refused(check_no_companion(true)),
        "Phase84.5 diagnostic requires BF16 MTP companion; unset SLLM_PHASE84_MTP_COMPANION_PATH"
    );
    assert_eq!(
        refused(check_measured(0, "[\"x\"]")),
        "all diagnostic cases failed before producing evidence: [\"x\"]"
    );
    let held = CleanupCounts {
        retryable_cleanup: 1,
        durable_quarantine: 0,
    };
    assert_eq!(refused(check_cleanup(&held)), "diagnostic cleanup was not empty");
    assert_eq!(refused(unsigned_prompt(&[1, -1])), "negative prompt token");
    assert_eq!(refused(expected_uuid("gfx942")).as_str(), "unsupported Phase86 target: gfx942");
}

#[test]
fn state_checks_are_refused_in_their_words() {
    assert_eq!(
        refused(check_prefill_shape(3, 5, 2)),
        "target prefill hidden shape differs from prompt rows"
    );
    assert_eq!(
        refused(check_block_shape(3, 5, 3, 2)),
        "target block hidden row count differs from draft width"
    );
    assert_eq!(
        refused(check_block_shape(3, 6, 2, 2)),
        "target block token rows differ from draft width"
    );
    assert_eq!(refused(truncation_plan(3, 10)), "invalid truncation row count: 3");
    assert_eq!(
        refused(check_truncation_replay(1, 7, 8)),
        "truncation draft replay row 1: observed 7, expected 8"
    );
    assert_eq!(refused(check_rewind(9, 10)), "rewind did not restore base length: 9 vs 10");
    assert_eq!(
        logit_refusal_message(LogitRefusal::Length { left: 1, right: 2 }, "", ""),
        "next proposal logits length differs: 1 vs 2"
    );
    assert_eq!(
        logit_refusal_message(LogitRefusal::NonFinite { index: 4 }, "inf", "1"),
        "non-finite next proposal logit at index 4: left=inf right=1"
    );
}

#[test]
fn forced_columns_are_refused_in_their_words() {
    assert_eq!(
        refused(forced_block_decision_for_count(0, 3, 3).map(|_| ())),
        "Phase86 accepted count exceeds forced width"
    );
    assert_eq!(
        refused(forced_block_decision(4, 3, true, true).map(|_| ())),
        "Phase86 block input start exceeds output length"
    );
    assert_eq!(
        refused(forced_block_decision(2, 4, true, true).map(|_| ())),
        "Phase86 forced width-two block has an incomplete tail"
    );
    assert_eq!(refused(parse_mode(Some("Q"))), "SLLM_PHASE86_MODE must be T or P, got Q");
    assert_eq!(refused(parse_mode(None)), "SLLM_PHASE86_MODE is required for Phase86");
    assert_eq!(
        refused(parse_catch_up(Some("x"))),
        "SLLM_QWEN_MTP_CATCH_UP must be unset or separate, got x"
    );
    assert_eq!(
        refused(check_mode(CatchUpMode::T, true)),
        "Phase86 T baseline does not accept separate catch-up"
    );
    assert_eq!(
        refused(bf16_rows_to_f32(&[1], 0)),
        "BF16 logits do not contain whole rows"
    );
    assert_eq!(
        refused(top_summary(&[0]).map(|_| ())),
        "logit row is empty, too short, or non-finite"
    );
    assert_eq!(
        refused(prime_requests(&[], None, 2).map(|_| ())),
        "Phase86 prompt is empty"
    );
    assert_eq!(
        refused(prime_requests(&[1], None, 2).map(|_| ())),
        "Phase86 target prompt omitted hidden rows"
    );
    assert_eq!(
        refused(prime_requests(&[1, 2], Some(&[1]), 2).map(|_| ())),
        "Phase86 target hidden width is invalid"
    );
    assert_eq!(
        refused(prime_requests(&[1, 2], Some(&[1, 2, 3]), 2).map(|_| ())),
        "Phase86 target prompt hidden rows are invalid"
    );
}

#[test]
fn forced_rows_are_refused_in_their_words() {
    let inputs = [1, 2, 3];
    let hidden = [0_u16; 6];
    let block = |hidden: Option<&[u16]>, logits: Option<&[u16]>| {
        refused(check_target_block(5, &inputs, hidden, logits, 2, 4).map(|_| ()))
    };
    assert_eq!(block(None, None), "Phase86 target block omitted hidden rows at 5");
    assert_eq!(block(Some(&[0; 5]), None), "Phase86 target hidden rows differ at 5");
    assert_eq!(block(Some(&hidden), None), "Phase86 target block omitted logits at 5");
    assert_eq!(block(Some(&hidden), Some(&[0; 8])), "Phase86 target logits rows differ at 5");
    let first = |hidden_row: Option<&[u16]>, logits: Option<&[u32]>| {
        refused(row_one_hidden(5, CatchUpMode::P, hidden_row, logits, &hidden, 2))
    };
    assert_eq!(first(None, None), "Phase86 draft row 0 omitted hidden at 5");
    assert_eq!(first(Some(&[1, 2]), None), "Phase86 draft row 0 omitted logits at 5");
    assert_eq!(
        refused(check_draft_rows(5, CatchUpMode::P, &inputs, &[0; 4], None).map(|_| ())),
        "Phase86 draft row 1 omitted logits at 5"
    );
    assert_eq!(
        refused(next_target_hidden(5, 2, Some(&[1]), &hidden, 2)),
        "Phase86 replay hidden rows differ at 5"
    );
    let teacher = |hidden: Option<&[u16]>, logits: Option<&[u16]>| {
        refused(check_target_row(6, 1, None, hidden, logits, 2, 4).map(|_| ()))
    };
    assert_eq!(teacher(None, None), "Phase86 T target hidden missing at 6");
    assert_eq!(teacher(Some(&[1]), None), "Phase86 T target hidden width differs at 6");
    assert_eq!(teacher(Some(&[1, 2]), None), "Phase86 T target logits missing at 6");
    assert_eq!(
        teacher(Some(&[1, 2]), Some(&[])),
        "Phase86 T target logits row missing at 6"
    );
    assert_eq!(
        refused(check_draft_row(6, 1, None, None).map(|_| ())),
        "Phase86 T draft logits missing at 6"
    );
}

#[test]
fn prefix_paths_are_refused_in_their_words() {
    let path = |text: &str, absolute| PathArg {
        text: text.to_owned(),
        absolute,
    };
    let default = || path("/out/phase86/prefixes", true);
    assert_eq!(
        refused(prepare_prefixes_only(None, None, default())),
        "SLLM_PHASE86_BENCH_MANIFEST is required"
    );
    assert_eq!(
        refused(prepare_prefixes_only(Some(path("m", false)), None, default())),
        "SLLM_PHASE86_BENCH_MANIFEST must be an absolute path"
    );
    assert_eq!(
        refused(prepare_prefixes_only(
            Some(path("/m", true)),
            Some(path("o", false)),
            default()
        )),
        "SLLM_PHASE86_PREFIX_OUTPUT must be an absolute path"
    );
    assert_eq!(
        refused(stage1_prefix_path(None, None, default(), Some(path("p", false))).map(|_| ())),
        "SLLM_PHASE86_PREFIX_FILE must be an absolute path"
    );
}

#[test]
fn companions_are_refused_in_their_words() {
    assert_eq!(
        refused(check_candidate_encoding(false)),
        "Stage3 AB/BA candidate must be the calibrated NVFP4 MTP sidecar"
    );
    let outside = "Stage3 MTP priming capacity is outside request state";
    assert_eq!(refused(check_priming_capacity(0, 8)), outside);
    assert_eq!(refused(check_priming_capacity(9, 8)), outside);
    assert_eq!(
        refused(companion_bytes(10, 9, 22).map(|_| ())),
        "Stage3 BF16 resident memory decreased after load"
    );
    assert_eq!(
        refused(companion_bytes(10, 15, 14).map(|_| ())),
        "Stage3 NVFP4 resident memory decreased after load"
    );
}
