use sllm_hip::audit::{AuditReport, CleanupCounts};
use sllm_hip::candidates::top_candidates;
use sllm_hip::diagnostic::{
    check_cleanup, check_measured, check_no_companion, check_tokenizer_size, diagnostic_config,
    diagnostic_state, expected_uuid, merge_case, merge_unmeasured, record_frontend, state_check_config,
    unsigned_prompt, SettingNames, Settings,
};
use sllm_hip::kv_image::LayerPayload;
use sllm_hip::mtp_case::{
    block_failure, check_prefix_rows, compare_block, compare_draft, compare_target, record_block,
    record_draft_row, record_prefill, record_resolve, record_unmeasured_resolve, BlockRefusal,
    BlockSide, BlockTexts, DraftSide, ResolveReport, SelectionTexts, TargetSide,
};
use sllm_hip::mtp_numeric::{dump_file_name, hash_f32, hash_words, numeric_diff};
use sllm_hip::draft_run::{DraftPair, DraftRun};
use sllm_hip::mtp_path::{
    block_inputs, check_prompt_fits, check_proposal_row, prime_mtp, prompt_cases, resolve_plan,
};

#[test]
fn bf16_ulp_metric_uses_bf16_steps() {
    assert_eq!(numeric_diff(&[0x3f80], &[0x3f81]).unwrap().max_ulp, 1);
    assert_eq!(numeric_diff(&[0xbf80], &[0xbf81]).unwrap().max_ulp, 1);
    assert_eq!(numeric_diff(&[0x0000], &[0x8000]).unwrap().max_ulp, 0);
    assert_eq!(numeric_diff(&[0x7f7d], &[0x7f7e]).unwrap().max_ulp, 1);
    assert!(numeric_diff(&[0x7f80], &[0x7f80]).is_err());
}

#[test]
fn differences_name_their_first_place() {
    let diff = numeric_diff(&[1, 2, 3], &[1, 4, 9]).unwrap();
    assert_eq!(diff.max_ulp, 6);
    let first = diff.first_mismatch.unwrap();
    assert_eq!(first.index, 1);
    assert_eq!(first.ulp, 2);
    assert!(numeric_diff(&[1], &[4]).unwrap().within_threshold());
    assert!(!numeric_diff(&[1], &[5]).unwrap().within_threshold());
    assert_eq!(
        numeric_diff(&[1], &[]).unwrap_err(),
        "numeric row length differs: 1 vs 0"
    );
    assert_eq!(
        numeric_diff(&[0x7fc0], &[0]).unwrap_err(),
        "non-finite BF16 value observed at index 0: left=0x7fc0 right=0x0000"
    );
}

#[test]
fn word_digests_are_those_of_their_bytes() {
    assert_eq!(
        hash_words(&[0x3f80, 0x3f81]),
        "sha256:611a5930b7a2e0a3a9a9c1a6e0d94aac893c4e542013b1c0b7945046844e61bc"
    );
    assert_eq!(
        hash_f32(&[]),
        "sha256:e3b0c44298fc1c149afbf4c8996fb92427ae41e4649b934ca495991b7852b855"
    );
    assert!(dump_file_name("case one", "hidden").starts_with("phase84_5_"));
}

#[test]
fn the_largest_finite_logits_are_candidates() {
    let logits: Vec<u32> = [1.0_f32, f32::INFINITY, 4.0, 4.0, f32::NAN, -2.0]
        .iter()
        .map(|value| value.to_bits())
        .collect();
    assert_eq!(top_candidates(&logits), Ok(vec![2, 3, 0, 5]));
    let many: Vec<u32> = (0..30).map(|index| (index as f32).to_bits()).collect();
    let top = top_candidates(&many).unwrap();
    assert_eq!(top.len(), 20);
    assert_eq!(top[0], 29);
    assert_eq!(
        top_candidates(&[f32::NAN.to_bits()]),
        Err("fixed p oracle has no finite candidates".to_owned())
    );
}

#[test]
fn priming_shifts_the_hidden_rows_by_one() {
    let plan = prime_mtp(&[1, 2, 3], &[10, 11, 20, 21, 30, 31], 2).unwrap();
    assert_eq!(plan.first_token, 1);
    assert_eq!(plan.first_hidden, vec![0, 0]);
    let batch = plan.batch.unwrap();
    assert_eq!(batch.tokens, vec![2, 3]);
    assert_eq!(batch.hidden, vec![10, 11, 20, 21]);
    assert!(prime_mtp(&[1], &[10, 11], 2).unwrap().batch.is_none());
    assert_eq!(
        prime_mtp(&[1, 2], &[10, 11], 2).unwrap_err(),
        "MTP prefix shape mismatch"
    );
}

#[test]
fn diagnostic_prompts_have_their_lengths() {
    let coding = vec![5_u32; 127];
    let japanese = vec![6_u32; 200];
    let cases = prompt_cases(&coding, &japanese).unwrap();
    assert_eq!(cases.coding.len(), 127);
    assert_eq!(cases.japanese.len(), 129);
    assert!(prompt_cases(&coding[..126], &japanese).is_err());
    assert!(prompt_cases(&coding, &japanese[..128]).is_err());
    assert!(prompt_cases(&[u32::MAX], &japanese).is_err());
    assert!(check_prompt_fits(127).is_ok());
    assert!(check_prompt_fits(1_000).is_err());
}

#[test]
fn blocks_take_the_target_token_and_the_drafts() {
    assert_eq!(block_inputs(1, &[2, 3]), Ok(vec![1, 2, 3]));
    assert_eq!(block_inputs(1, &[u32::MAX]), Err("draft token overflow".to_owned()));
    assert_eq!(check_proposal_row(0, Some(2), &[2, 3], Some(&[9])), Ok((2, vec![9])));
    assert_eq!(
        check_proposal_row(1, Some(2), &[2, 3], Some(&[9])).unwrap_err(),
        "optimized rewind proposal token mismatch at row 1: selected=2 expected=3"
    );
    assert!(check_proposal_row(0, None, &[2, 3], Some(&[9])).is_err());
    assert!(check_proposal_row(2, Some(2), &[2, 3], Some(&[9])).is_err());
    assert!(check_proposal_row(0, Some(2), &[2, 3], None).is_err());
}

#[test]
fn proposals_select_the_observed_drafts_again() {
    let mut run = DraftRun::start(1, &[9]);
    assert_eq!(
        run.record_selected(&[2, 3], Some(4), Some(&[5])).unwrap_err(),
        "optimized rewind proposal token mismatch at row 0: selected=4 expected=2"
    );
    assert_eq!(run.record_selected(&[2, 3], Some(2), Some(&[5])), Ok(()));
    let step = run.next().unwrap();
    assert_eq!((step.row, step.token, step.hidden), (1, 2, vec![5]));
    assert_eq!(run.record_selected(&[2, 3], Some(3), Some(&[6])), Ok(()));
    assert!(run.next().is_none());
    assert_eq!(run.hidden, vec![vec![5], vec![6]]);
}

#[test]
fn both_routes_follow_the_selected_tokens() {
    let mut routes = DraftPair::start(1, &[9]);
    let step = routes.next().unwrap();
    assert_eq!((step.row, step.token), (0, 1));
    assert_eq!((step.proposal_hidden, step.replay_hidden), (vec![9], vec![9]));
    assert_eq!(
        routes.record(1 << 31, vec![5], vec![6]).unwrap_err(),
        "draft token overflow"
    );
    assert_eq!(routes.record(7, vec![5], vec![6]), Ok(()));
    let step = routes.next().unwrap();
    assert_eq!((step.row, step.token), (1, 7));
    assert_eq!((step.proposal_hidden, step.replay_hidden), (vec![5], vec![6]));
    assert_eq!(routes.record(8, vec![1], vec![2]), Ok(()));
    assert!(routes.next().is_none());
}

#[test]
fn resolving_commits_rewinds_and_goes_on() {
    let all = resolve_plan(3, 1, &[2, 3], &[7], &[8], &[2, 3, 4], &[20, 30, 40]);
    assert_eq!(all.rewinds, 0);
    assert!(all.bonus.is_some());
    assert_eq!(all.committed.len(), 3);
    assert_eq!(all.next_input, 4);
    assert_eq!(all.next_hidden, vec![40]);
    let one = resolve_plan(1, 1, &[2, 3], &[7], &[8], &[2, 3, 4], &[20, 30, 40]);
    assert_eq!(one.rewinds, 1);
    assert!(one.bonus.is_none());
    assert_eq!(one.committed.len(), 1);
    assert_eq!(one.next_input, 2);
}

#[test]
fn committed_rows_are_cut_by_the_width() {
    let rows = |committed: usize, last: &[u16], proposal: &[u16], block: &[u16]| {
        let plan = resolve_plan(committed, 1, &[2, 3], last, proposal, &[2, 3, 4], block);
        plan.committed
            .into_iter()
            .map(|row| (row.tokens, row.hidden))
            .collect::<Vec<_>>()
    };
    let first = || (vec![1], vec![7]);
    assert_eq!(
        rows(3, &[7], &[8], &[20, 30, 40]),
        vec![first(), (vec![2], vec![8]), (vec![3], vec![30])]
    );
    assert_eq!(rows(2, &[7], &[8, 9], &[20, 30]), vec![first(), (vec![2], vec![8])]);
    assert_eq!(
        rows(3, &[7], &[8, 9], &[20, 30, 40]),
        vec![first(), (vec![2], vec![8]), (vec![3], vec![9])]
    );
    assert_eq!(rows(2, &[7], &[], &[20, 30]), vec![first()]);
    assert_eq!(
        rows(2, &[7, 6], &[8], &[20, 21, 30, 31]),
        vec![(vec![1], vec![7, 6]), (vec![2], vec![8])]
    );
}

fn payload(byte: u8) -> Vec<LayerPayload> {
    vec![LayerPayload {
        layer: 0,
        key: vec![byte],
        value: vec![byte],
    }]
}

fn target_side(token: i32) -> TargetSide {
    TargetSide {
        prefill_hidden: vec![0x3f80],
        tokens: vec![token],
        hidden: vec![0x3f80],
        kv: payload(1),
        next_tokens: vec![token],
        next_hidden: vec![0x3f80],
        next_logits: vec![0x3f80, 0x0000],
        committed_length: 4,
    }
}

fn draft_side(token: u32) -> DraftSide {
    DraftSide {
        kv: payload(2),
        next_hidden: vec![0x3f80],
        next_token: token,
    }
}

#[test]
fn resolves_pass_when_both_routes_agree() {
    let target = compare_target(&target_side(1), &target_side(1)).unwrap();
    let draft = compare_draft(&draft_side(5), &draft_side(5)).unwrap();
    assert!(target.kv_match && target.next_token_match);
    let report = ResolveReport::new(2, target, draft);
    assert_eq!(report.accepted_draft_tokens, 1);
    assert!(report.passes(true));
    assert!(!report.passes(false));
    let mut failures = Vec::new();
    record_resolve(&mut failures, &report, true, "details");
    assert!(failures.is_empty());
    record_resolve(&mut failures, &report, false, "details");
    assert_eq!(failures, vec!["resolve rows=2 mismatch: details".to_owned()]);
    record_unmeasured_resolve(&mut failures, 3, "lost");
    assert_eq!(failures[1], "resolve rows=3 could not be measured: lost");

    let target = compare_target(&target_side(1), &target_side(2)).unwrap();
    let draft = compare_draft(&draft_side(5), &draft_side(5)).unwrap();
    assert!(!ResolveReport::new(1, target, draft).passes(true));
}

#[test]
fn prefix_rows_need_a_width() {
    assert!(check_prefix_rows(2, 4, 2).is_ok());
    assert!(check_prefix_rows(2, 4, 0).is_err());
    assert!(check_prefix_rows(2, 3, 2).is_err());
}

#[test]
fn draft_rows_record_what_differs() {
    let mut failures = Vec::new();
    let texts = SelectionTexts {
        observed: "-1".to_owned(),
        oracle: "-2".to_owned(),
        abs_error: "1".to_owned(),
    };
    let far = numeric_diff(&[1], &[9]).unwrap();
    record_draft_row(&mut failures, 1, &far, false, &texts);
    assert_eq!(
        failures,
        vec![
            "MTP optimized/sequential hidden mismatch at draft row 1: 8 BF16 ULP".to_owned(),
            "GPU selector logprob mismatch at draft row 1: observed=-1 oracle=-2 abs_error=1"
                .to_owned(),
        ]
    );
}

#[test]
fn prefills_agree_across_requests() {
    let mut failures = Vec::new();
    assert!(record_prefill(&mut failures, &[1], &[1], &[1]).matches);
    assert!(failures.is_empty());
    assert!(!record_prefill(&mut failures, &[1], &[1], &[2]).matches);
    assert_eq!(failures.len(), 1);
}

fn block_side(token: i32, word: u16) -> BlockSide {
    BlockSide {
        tokens: vec![token],
        hidden: vec![word],
        logits: vec![word],
    }
}

fn block_texts() -> BlockTexts {
    BlockTexts {
        hidden_diff: "h".to_owned(),
        logits_diff: "l".to_owned(),
        draft_logprob_errors: "e".to_owned(),
        dump: "d".to_owned(),
    }
}

#[test]
fn blocks_are_compared_with_single_steps() {
    let mut failures = Vec::new();
    let same = compare_block(&block_side(1, 0x3f80), &block_side(1, 0x3f80)).unwrap();
    record_block(&mut failures, &same, &[2, 3], &block_texts());
    assert!(failures.is_empty());
    let other = compare_block(&block_side(1, 0x3f80), &block_side(2, 0x3f80)).unwrap();
    assert!(!other.token_match);
    record_block(&mut failures, &other, &[2, 3], &block_texts());
    assert_eq!(
        failures,
        vec![
            "target block mismatch: tokens=false, hidden_diff=h, logits_diff=l, draft_tokens=[2, 3], draft_logprob_errors=e, dump=d"
                .to_owned()
        ]
    );
    let refusal = compare_block(&block_side(1, 0x7fc0), &block_side(1, 0x3f80)).unwrap_err();
    assert!(matches!(refusal, BlockRefusal::Hidden(_)));
    assert!(block_failure(&refusal, &[2], &block_texts())
        .starts_with("target block hidden numeric failure: "));
}

fn names() -> SettingNames {
    SettingNames {
        target: "TARGET".to_owned(),
        device: "DEVICE".to_owned(),
        model: "MODEL".to_owned(),
        compat_model: "OLD_MODEL".to_owned(),
        state_capacity: "CAPACITY".to_owned(),
        companion: "COMPANION".to_owned(),
    }
}

fn settings() -> Settings {
    Settings {
        target: Some("gfx1030".to_owned()),
        device: Some("1".to_owned()),
        model_given: true,
        state_capacity: None,
        companion_given: false,
    }
}

#[test]
fn diagnostics_are_configured_by_their_settings() {
    let config = diagnostic_config(&names(), &settings()).unwrap();
    assert_eq!(config.target, "gfx1030");
    assert_eq!(config.device_index, 1);
    assert_eq!(config.state_capacity, 256);
    let refused = |settings: Settings| diagnostic_config(&names(), &settings).unwrap_err();
    assert_eq!(
        refused(Settings {
            target: None,
            ..settings()
        }),
        "TARGET is required"
    );
    assert_eq!(
        refused(Settings {
            target: Some("gfx942".to_owned()),
            ..settings()
        }),
        "TARGET must be gfx1030 or gfx1201"
    );
    assert_eq!(
        refused(Settings {
            device: Some("x".to_owned()),
            ..settings()
        }),
        "DEVICE must be a u32"
    );
    assert_eq!(
        refused(Settings {
            model_given: false,
            ..settings()
        }),
        "MODEL or OLD_MODEL is required"
    );
    assert_eq!(
        refused(Settings {
            state_capacity: Some("255".to_owned()),
            ..settings()
        }),
        "CAPACITY must be at least 256"
    );
    assert!(state_check_config(&names(), &settings()).is_ok());
    assert_eq!(
        state_check_config(
            &names(),
            &Settings {
                companion_given: true,
                ..settings()
            }
        )
        .unwrap_err(),
        "Phase86 Stage2a requires BF16 MTP; COMPANION must be unset"
    );
}

#[test]
fn targets_have_their_device() {
    assert_eq!(expected_uuid("gfx1030"), Ok("GPU-76a08c022586fed6"));
    assert_eq!(expected_uuid("gfx1201"), Ok("GPU-a8e9ddefa2d60f55"));
    assert_eq!(
        expected_uuid("gfx942"),
        Err("unsupported Phase86 target: gfx942".to_owned())
    );
}

fn audit(backend: &str) -> AuditReport {
    AuditReport {
        selected_backend: backend.to_owned(),
        target: "gfx1030".to_owned(),
        submission_count: 1,
        kernel_dispatch_count: 3,
        fallback_used: false,
        all_dispatches_hip: backend == "hip",
    }
}

#[test]
fn refusals_name_the_settings_that_are_read() {
    let names = SettingNames::known();
    assert_eq!(
        diagnostic_config(&names, &Settings { target: None, ..settings() }).unwrap_err(),
        "SLLM_BENCH_TARGET is required"
    );
    assert_eq!(
        diagnostic_config(&names, &Settings { device: None, ..settings() }).unwrap_err(),
        "SLLM_BENCH_DEVICE_INDEX is required"
    );
    assert_eq!(
        diagnostic_config(&names, &Settings { model_given: false, ..settings() }).unwrap_err(),
        "SLLM_BENCH_MODEL or SLLM_MODEL_ROOT is required"
    );
    assert_eq!(names.state_capacity, "SLLM_BENCH_STATE_CAPACITY");
    assert_eq!(names.companion, "SLLM_PHASE84_MTP_COMPANION_PATH");
}

#[test]
fn diagnostics_pass_without_failures() {
    assert_eq!(diagnostic_state(&vec![]), "PASS");
    assert_eq!(diagnostic_state(&vec!["case=coding: a".to_owned()]), "FAIL");
}

#[test]
fn diagnostics_gather_their_failures() {
    let mut failures = Vec::new();
    merge_case(&mut failures, "a", &vec!["x".to_owned(), "y".to_owned()]);
    merge_unmeasured(&mut failures, "b", "z");
    assert_eq!(
        failures,
        vec![
            "case=a: x".to_owned(),
            "case=a: y".to_owned(),
            "case=b could not be measured: z".to_owned()
        ]
    );
    assert!(check_measured(1, "").is_ok());
    assert!(check_measured(0, "f").is_err());
    let mut failures = Vec::new();
    record_frontend(&mut failures, &audit("hip"), &audit("hip"));
    assert!(failures.is_empty());
    let seen = record_frontend(&mut failures, &audit("hip"), &audit("cpu"));
    assert!(!seen.all_dispatches_hip);
    assert_eq!(failures.len(), 1);
    assert!(check_tokenizer_size(5, 5).is_ok());
    assert!(check_tokenizer_size(5, 6).is_err());
    assert!(check_no_companion(false).is_ok());
    assert!(check_no_companion(true).is_err());
    assert!(check_cleanup(&CleanupCounts {
        retryable_cleanup: 1,
        durable_quarantine: 0
    })
    .is_err());
    assert_eq!(unsigned_prompt(&[1, 2]), Ok(vec![1, 2]));
    assert_eq!(unsigned_prompt(&[1, -2]), Err("negative prompt token".to_owned()));
}
