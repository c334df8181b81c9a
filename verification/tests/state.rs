use sllm_hip::audit::{AuditReport, CleanupCounts};
use sllm_hip::companion::{
    check_candidate_encoding, check_companion_config, check_priming_capacity, companion_bytes,
    error_after_cleanup, generated_tokens_equal, judge_companions, round_orders, CompanionConfig,
    RoundFlags, RoundOrder, RowSpec, VariantFlags,
};
use sllm_hip::kv_image::LayerPayload;
use sllm_hip::draft_run::{catch_up_steps, single_rows, DraftRun};
use sllm_hip::state_check::{
    catch_up_plan, check_block_shape, check_prefill_shape, check_rewind, check_truncation_replay,
    float_diff, logit_refusal_message, record_replay, record_rewind, target_hidden_rows,
    truncation_plan, LogitRefusal,
};
use sllm_hip::state_report::{
    catch_up_report, compare_states, finish_state_check, merge_accepted, merge_case_error,
    read_audits, record_catch_up, record_truncation, record_unmeasured_truncation,
    truncation_report, uuid_matches, CaughtUp, CleanupReport, DispatchTotals,
};

fn bits(values: &[f32]) -> Vec<u32> {
    values.iter().map(|value| value.to_bits()).collect()
}

#[test]
fn logits_differ_at_their_first_unequal_place() {
    assert_eq!(float_diff(&bits(&[1.0, 2.0]), &bits(&[1.0, 2.0])), Ok(None));
    assert_eq!(float_diff(&bits(&[1.0, 2.0]), &bits(&[1.0, 3.0])), Ok(Some(1)));
    let short = float_diff(&bits(&[1.0]), &[]).unwrap_err();
    assert_eq!(short, LogitRefusal::Length { left: 1, right: 0 });
    assert_eq!(
        logit_refusal_message(short, "", ""),
        "next proposal logits length differs: 1 vs 0"
    );
    let nan = float_diff(&bits(&[1.0, f32::NAN]), &bits(&[1.0, 1.0])).unwrap_err();
    assert_eq!(nan, LogitRefusal::NonFinite { index: 1 });
    assert_eq!(
        logit_refusal_message(nan, "NaN", "1"),
        "non-finite next proposal logit at index 1: left=NaN right=1"
    );
}

#[test]
fn block_shapes_follow_the_draft_width() {
    assert!(check_prefill_shape(3, 6, 2).is_ok());
    assert!(check_prefill_shape(3, 5, 2).is_err());
    assert!(check_block_shape(3, 6, 3, 2).is_ok());
    assert_eq!(
        check_block_shape(3, 5, 3, 2).unwrap_err(),
        "target block hidden row count differs from draft width"
    );
    assert_eq!(
        check_block_shape(3, 6, 2, 2).unwrap_err(),
        "target block token rows differ from draft width"
    );
    assert_eq!(target_hidden_rows(&[9], &[1, 2, 3]), vec![9, 1, 2]);
}

#[test]
fn catching_up_feeds_the_rows_that_were_committed() {
    let plan = catch_up_plan(2, &[1, 2, 3], &[9, 1, 2], &[2, 3, 4], &[1, 2, 3], 1);
    assert_eq!(plan.tokens, vec![1, 2]);
    assert_eq!(plan.hidden, vec![9, 1]);
    assert_eq!(plan.next_input, 3);
    assert_eq!(plan.next_hidden, vec![2]);
}

#[test]
fn draft_rows_run_on_the_row_before_them() {
    let mut run = DraftRun::start(5, &[7, 8]);
    let step = run.next().unwrap();
    assert_eq!((step.row, step.token, step.hidden), (0, 5, vec![7, 8]));
    assert_eq!(run.record_proposed(None, Some(vec![1])).unwrap_err(), "MTP proposal omitted token");
    assert_eq!(
        run.record_proposed(Some(1), None).unwrap_err(),
        "MTP proposal omitted hidden row"
    );
    assert_eq!(run.record_proposed(Some(6), Some(vec![1, 2])), Ok(()));
    let step = run.next().unwrap();
    assert_eq!((step.row, step.token, step.hidden), (1, 6, vec![1, 2]));
    assert_eq!(run.record_proposed(Some(9), Some(vec![3, 4])), Ok(()));
    assert!(run.next().is_none());
    assert_eq!(run.rewinds(), 2);
    assert_eq!(run.block_inputs(), vec![5, 6, 9]);
}

#[test]
fn replayed_drafts_may_differ_and_go_on() {
    let mut failures = Vec::new();
    let mut run = DraftRun::start(5, &[7]);
    assert_eq!(
        run.record_replayed(&mut failures, &[6, 9], None, Some(vec![1])).unwrap_err(),
        "MTP replay proposal omitted token"
    );
    assert!(failures.is_empty());
    assert_eq!(run.record_replayed(&mut failures, &[6, 9], Some(8), Some(vec![1])), Ok(()));
    assert_eq!(failures, vec!["draft replay row 0 selected 8, expected 6".to_owned()]);
    assert_eq!(run.next().unwrap().token, 8);
    assert_eq!(
        run.record_replayed(&mut failures, &[6, 9], Some(-3), None).unwrap_err(),
        "MTP replay proposal omitted hidden row"
    );
    assert_eq!(failures[1], "draft replay row 1 selected -3, expected 9");
    assert_eq!(run.tokens, vec![8]);
}

#[test]
fn drafts_of_a_cut_must_be_replayed_exactly() {
    let mut run = DraftRun::start(5, &[7]);
    assert_eq!(
        run.record_truncated(&[6, 9], Some(8), None).unwrap_err(),
        "truncation draft replay row 0: observed 8, expected 6"
    );
    assert_eq!(
        run.record_truncated(&[6, 9], Some(6), None).unwrap_err(),
        "truncation draft replay omitted hidden row"
    );
    assert_eq!(
        run.record_truncated(&[6, 9], None, None).unwrap_err(),
        "truncation draft replay omitted token"
    );
    assert_eq!(run.record_truncated(&[6, 9], Some(6), Some(vec![2])), Ok(()));
    assert_eq!(run.next().unwrap().hidden, vec![2]);
}

#[test]
fn catch_ups_accept_none_to_all_drafts() {
    let steps = catch_up_steps();
    assert_eq!(steps.len(), 3);
    assert_eq!(steps.iter().map(|step| step.accepted).collect::<Vec<_>>(), vec![0, 1, 2]);
    assert_eq!(steps.iter().map(|step| step.rows).collect::<Vec<_>>(), vec![1, 2, 3]);
    assert!(steps[0].on_the_proposal);
    assert!(!steps[1].on_the_proposal && !steps[2].on_the_proposal);
    assert!(steps[0].cuts.is_empty() && steps[1].cuts.is_empty());
    assert_eq!(steps[2].cuts, vec![1, 2]);
}

#[test]
fn rows_of_a_catch_up_stand_one_by_one() {
    let words = [9, 8, 1, 2, 3, 4];
    let plan = catch_up_plan(2, &[1, 2, 3], &words, &[2, 3, 4], &words, 2);
    let rows = single_rows(&plan, 2);
    assert_eq!(rows.len(), 2);
    assert_eq!((rows[0].tokens.clone(), rows[0].hidden.clone()), (vec![1], vec![9, 8]));
    assert_eq!((rows[1].tokens.clone(), rows[1].hidden.clone()), (vec![2], vec![1, 2]));
}

#[test]
fn truncations_go_from_three_rows_to_fewer() {
    let plan = truncation_plan(1, 10).unwrap();
    assert_eq!(plan.from_rows, 3);
    assert_eq!(plan.rewind_rows, 2);
    assert_eq!(plan.expected_length, 11);
    assert!(truncation_plan(0, 10).is_err());
    assert!(truncation_plan(3, 10).is_err());
    assert!(check_truncation_replay(0, 5, 5).is_ok());
    assert_eq!(
        check_truncation_replay(1, -5, 6).unwrap_err(),
        "truncation draft replay row 1: observed -5, expected 6"
    );
    assert!(check_rewind(5, 5).is_ok());
    assert_eq!(
        check_rewind(4, 5).unwrap_err(),
        "rewind did not restore base length: 4 vs 5"
    );
    let mut failures = Vec::new();
    record_replay(&mut failures, 0, 5, 5);
    record_rewind(&mut failures, 5, 5);
    assert!(failures.is_empty());
    record_replay(&mut failures, 0, 5, 6);
    record_rewind(&mut failures, 4, 5);
    assert_eq!(
        failures,
        vec![
            "draft replay row 0 selected 5, expected 6".to_owned(),
            "draft rewind restored 4 rows, expected base 5".to_owned()
        ]
    );
}

fn audit(target: &str) -> AuditReport {
    AuditReport {
        selected_backend: "hip".to_owned(),
        target: target.to_owned(),
        submission_count: 1,
        kernel_dispatch_count: 7,
        fallback_used: false,
        all_dispatches_hip: true,
    }
}

fn caught_up(length: u64, word: u16) -> CaughtUp {
    CaughtUp {
        committed_length: length,
        kv: vec![LayerPayload {
            layer: 0,
            key: vec![1],
            value: vec![2],
        }],
        next_hidden: vec![word],
        next_logits: bits(&[1.0, 2.0]),
        next_token: Some(1),
        audit: audit("gfx1030"),
    }
}

#[test]
fn states_are_exact_when_nothing_differs() {
    assert!(compare_states(&caught_up(4, 1), &caught_up(4, 1)).unwrap().exact());
    assert!(!compare_states(&caught_up(4, 1), &caught_up(4, 2)).unwrap().exact());
    assert!(compare_states(&caught_up(4, 0x7f80), &caught_up(4, 1)).is_err());
}

#[test]
fn truncation_reports_pass_when_exact() {
    let plan = truncation_plan(1, 3).unwrap();
    let report = truncation_report(plan, &caught_up(4, 1), &caught_up(4, 1), "gfx1030").unwrap();
    assert!(report.exact);
    let mut failures = Vec::new();
    record_truncation(&mut failures, &report, "0");
    assert!(failures.is_empty());
    let mut totals = DispatchTotals { target: 7, mtp: 5 };
    totals.add_truncation(&report);
    let (first, second) = (
        report.dispatch.first_kernel_dispatches,
        report.dispatch.second_kernel_dispatches,
    );
    assert!(first > 0 && second > 0);
    assert_eq!((totals.target, totals.mtp), (7, 5 + first + second));
    let plan = truncation_plan(1, 3).unwrap();
    let report = truncation_report(plan, &caught_up(5, 1), &caught_up(4, 1), "gfx1030").unwrap();
    assert!(!report.length_match);
    record_truncation(&mut failures, &report, "0");
    record_unmeasured_truncation(&mut failures, 2, "lost");
    assert_eq!(failures.len(), 2);
    assert_eq!(failures[1], "truncation 3->2 could not be measured: lost");
}

#[test]
fn catch_up_reports_count_their_dispatches() {
    let report =
        catch_up_report(1, 2, &caught_up(4, 1), &caught_up(4, 1), true, "gfx1030").unwrap();
    assert!(report.length_match);
    assert_eq!(report.expected_length, 4);
    assert_eq!(report.catch_up_rows, 2);
    let mut failures = Vec::new();
    record_catch_up(&mut failures, &report, "0");
    assert!(failures.is_empty());
    let mut totals = DispatchTotals::zero();
    totals.add_catch_up(&report);
    let mut sum = DispatchTotals::zero();
    sum.add_case(&totals);
    sum.add_case(&totals);
    assert_eq!(sum.mtp, 2 * totals.mtp);
    let refused =
        catch_up_report(0, 2, &caught_up(4, 1), &caught_up(4, 1), true, "gfx1030").unwrap();
    record_catch_up(&mut failures, &refused, "0");
    assert_eq!(failures.len(), 1);
}

#[test]
fn a_state_check_ends_with_every_failure() {
    let mut failures = Vec::new();
    merge_accepted(&mut failures, "a", 1, &vec!["x".to_owned()]);
    merge_case_error(&mut failures, "b", "y");
    assert_eq!(
        failures,
        vec!["case=a accepted=1: x".to_owned(), "case=b: y".to_owned()]
    );
    let totals = DispatchTotals { target: 1, mtp: 1 };
    let dispatch = read_audits(&vec![audit("gfx1030")], "gfx1030", totals);
    assert!(dispatch.exact_target && dispatch.all_hip && dispatch.nonzero);
    let cleanup = CleanupReport {
        current_bytes_before_shutdown: 0,
        poisoned_before_shutdown: false,
        cleanup: CleanupCounts {
            retryable_cleanup: 0,
            durable_quarantine: 0,
        },
    };
    assert!(cleanup.zero());
    let mut none = Vec::new();
    assert!(finish_state_check(&mut none, "u", "u", true, 1, &cleanup, &dispatch));
    let held = CleanupReport {
        current_bytes_before_shutdown: 3,
        ..cleanup
    };
    let other = read_audits(&vec![audit("gfx1201")], "gfx1030", totals);
    let mut all = Vec::new();
    assert!(!finish_state_check(&mut all, "u", "v", false, 0, &held, &other));
    assert_eq!(
        all,
        vec![
            "GPU UUID visibility mismatch: expected=u observed=v".to_owned(),
            "all Phase86 state-check cases failed before producing evidence".to_owned(),
            "cleanup was not zero: current_bytes=3 poisoned=false retryable=0 durable=0".to_owned(),
            "dispatch audit failed: nonzero=true exact_target=false all_hip=true fallback_used=false"
                .to_owned(),
        ]
    );
    assert!(uuid_matches("u", Some("u")));
    assert!(!uuid_matches("u", None));
}

fn companion_config() -> CompanionConfig {
    CompanionConfig {
        phase83: true,
        mtp_enabled: true,
        draft_width: 2,
        gpu_fixed_sampling: true,
        replay_inputs: false,
        rows: vec![RowSpec {
            prompt_tokens: 8192,
            output_tokens: 128,
        }],
        warmups: 1,
        measured: 3,
        companion_given: true,
    }
}

#[test]
fn companion_runs_need_their_exact_configuration() {
    assert!(check_companion_config(&companion_config(), 8192, "SWITCH", "COMPANION").is_ok());
    assert_eq!(
        check_companion_config(
            &CompanionConfig {
                measured: 2,
                ..companion_config()
            },
            8192,
            "SWITCH",
            "COMPANION"
        )
        .unwrap_err(),
        "SWITCH=1 requires Phase83 coding8192, MTP width2, gpu-fixed sampling, row 8192/128, warmup1, measured3"
    );
    assert_eq!(
        check_companion_config(
            &CompanionConfig {
                companion_given: false,
                ..companion_config()
            },
            8192,
            "SWITCH",
            "COMPANION"
        )
        .unwrap_err(),
        "SWITCH=1 requires COMPANION"
    );
    assert!(check_candidate_encoding(true).is_ok());
    assert!(check_candidate_encoding(false).is_err());
    assert!(check_priming_capacity(4, 8).is_ok());
    assert!(check_priming_capacity(9, 8).is_err());
}

#[test]
fn companion_memory_only_grows() {
    let bytes = companion_bytes(10, 15, 22).unwrap();
    assert_eq!((bytes.bf16, bytes.nvfp4), (5, 7));
    assert!(companion_bytes(10, 9, 22).is_err());
    assert!(companion_bytes(10, 15, 14).is_err());
}

#[test]
fn rounds_alternate_their_order() {
    let orders = round_orders();
    assert!(orders.iter().any(|(_, order)| *order == RoundOrder::Ab));
    assert!(orders.iter().any(|(_, order)| *order == RoundOrder::Ba));
    assert!(RoundOrder::Ab.bf16_first());
    assert_eq!(RoundOrder::Ba.name(), "BA");
    assert!(generated_tokens_equal(&vec![vec![1]], &vec![vec![1]]));
    assert!(!generated_tokens_equal(&vec![vec![1]], &vec![vec![2]]));
}

#[test]
fn rounds_must_be_clean_and_may_be_slow() {
    let variant = VariantFlags {
        all_dispatches_hip: true,
        fallback_used: false,
        request_cleanup_zero: true,
    };
    let round = RoundFlags {
        bf16: variant,
        nvfp4: variant,
        nvfp4_faster: true,
        nvfp4_meets_one_percent: true,
    };
    let cleanup = CleanupReport {
        current_bytes_before_shutdown: 0,
        poisoned_before_shutdown: false,
        cleanup: CleanupCounts {
            retryable_cleanup: 0,
            durable_quarantine: 0,
        },
    };
    assert!(judge_companions(&vec![round, round], &cleanup).passed);
    let slower = RoundFlags {
        nvfp4_faster: false,
        nvfp4_meets_one_percent: false,
        ..round
    };
    let verdict = judge_companions(&vec![round, slower], &cleanup);
    assert!(verdict.passed);
    assert!(!verdict.all_rounds_candidate_faster);
    assert!(!verdict.all_rounds_meet_one_percent);
    let fallen_back = RoundFlags {
        nvfp4: VariantFlags {
            fallback_used: true,
            ..variant
        },
        ..round
    };
    assert!(!judge_companions(&vec![round, fallen_back], &cleanup).passed);
    let message = error_after_cleanup("first", Ok(&cleanup));
    assert!(message.starts_with("first"));
    assert!(error_after_cleanup("first", Err("second")).contains("second"));
}
