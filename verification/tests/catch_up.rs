use sllm_hip::audit::AuditReport;
use sllm_hip::catch_up::{
    bf16_rows_to_f32, canonical_sequence_hash, check_mode, digest_matches, forced_block_decision,
    forced_block_decision_for_count, measured_rows_present, parse_catch_up, parse_mode,
    top_summary, CatchUpMode,
};
use sllm_hip::catch_up_entry::{
    audit_pair, check_draft_rows, check_target_block, next_target_hidden, prime_requests,
    realign_labels, retain_or_catch_up, row_one_hidden, HiddenConditioning,
};
use sllm_hip::catch_up_ledger::{
    all_entries_valid, check_draft_row, check_target_row, logits_file_names, report_state,
    EntryIdentity, EntryRun, TeacherRun,
};
use sllm_hip::catch_up_report::{
    prepare_prefixes_only, prepare_report, run, stage1_prefix_path, PathArg, PrefixPlan,
};

#[test]
fn zero_measurement_rows_cannot_pass_on_prefill_dispatches_alone() {
    assert!(!measured_rows_present(0, 0, 0));
    assert!(!measured_rows_present(1, 0, 2));
    assert!(!measured_rows_present(1, 3, 0));
    assert!(measured_rows_present(1, 3, 2));
}

#[test]
fn manifest_hash_accepts_bare_and_prefixed_forms() {
    assert!(digest_matches("abcd", "sha256:abcd"));
    assert!(digest_matches("sha256:abcd", "sha256:abcd"));
    assert!(!digest_matches("abce", "sha256:abcd"));
}

#[test]
fn frozen_sequence_hash_uses_decimal_csv_contract() {
    let hash = canonical_sequence_hash(&[1, -2, 3]);
    assert!(hash.starts_with("sha256:"));
    assert_eq!(hash, canonical_sequence_hash(&[1, -2, 3]));
    assert_ne!(hash, canonical_sequence_hash(&[1, 2, 3]));
}

#[test]
fn the_sequence_hash_is_the_digest_of_the_text() {
    assert_eq!(
        canonical_sequence_hash(&[1, -2, 3]),
        "sha256:94d7150b9d62f89f1b8b3dd64e024c3bd7fe7f7e03291eb0669ca452f8ba8337"
    );
    assert_eq!(
        canonical_sequence_hash(&[]),
        "sha256:e3b0c44298fc1c149afbf4c8996fb92427ae41e4649b934ca495991b7852b855"
    );
}

#[test]
fn forced_width_two_acceptance_is_prefix_ordered() {
    let decision = forced_block_decision(0, 3, true, true).unwrap();
    assert_eq!(decision.accepted, 2);
    assert_eq!(decision.committed_rows, 3);
    assert_eq!(decision.rewind_rows, 0);
    assert!(decision.needs_bonus_state);
    assert_eq!(decision.next_input_start, 3);
    assert_eq!(decision.tail_tokens_omitted, 0);
}

#[test]
fn forced_width_two_rejection_does_not_accept_second_row() {
    let decision = forced_block_decision(0, 4, false, true).unwrap();
    assert_eq!(decision.accepted, 0);
    assert_eq!(decision.committed_rows, 1);
    assert_eq!(decision.rewind_rows, 1);
    assert!(!decision.needs_bonus_state);
    assert_eq!(decision.next_input_start, 1);
    assert_eq!(decision.tail_tokens_omitted, 3);
}

#[test]
fn forced_width_two_boundary_lengths_preserve_tail_contract() {
    for length in [3_usize, 4, 7, 8] {
        for (row0, row1, expected) in [(false, false, 0), (true, false, 1), (true, true, 2)] {
            let decision = forced_block_decision(0, length, row0, row1).unwrap();
            assert_eq!(decision.accepted, expected);
            assert_eq!(
                decision.tail_tokens_omitted,
                length - decision.next_input_start
            );
        }
    }
    assert!(forced_block_decision(2, 4, true, true).is_err());
    assert!(forced_block_decision(0, 2, true, true).is_err());
    assert!(forced_block_decision_for_count(0, 3, 3).is_err());
}

#[test]
fn modes_and_catch_up_are_read_from_their_settings() {
    assert_eq!(parse_mode(Some("T")), Ok(CatchUpMode::T));
    assert_eq!(parse_mode(Some("P")), Ok(CatchUpMode::P));
    assert!(parse_mode(Some("Q")).is_err());
    assert_eq!(parse_catch_up(None), Ok(false));
    assert_eq!(parse_catch_up(Some("separate")), Ok(true));
    assert_eq!(
        parse_catch_up(Some("joint")),
        Err("SLLM_QWEN_MTP_CATCH_UP must be unset or separate, got joint".to_owned())
    );
    assert!(check_mode(CatchUpMode::T, true).is_err());
    assert!(check_mode(CatchUpMode::P, true).is_ok());
    assert_eq!(CatchUpMode::T.name(), "T");
}

#[test]
fn realignments_are_called_by_their_kind() {
    assert_eq!(
        realign_labels(CatchUpMode::P, true),
        ("Phase86 catch-up rewind failed", "Phase86 separate catch-up failed")
    );
    for (mode, separate) in [(CatchUpMode::P, false), (CatchUpMode::T, true)] {
        assert_eq!(
            realign_labels(mode, separate),
            ("Phase86 draft rewind failed", "Phase86 all-accept state alignment failed")
        );
    }
}

#[test]
fn rows_are_widened_whole() {
    let rows = bf16_rows_to_f32(&[0x3f80, 0x4000, 0xbf80, 0x0000], 2).unwrap();
    assert_eq!(
        rows,
        vec![
            vec![1.0_f32.to_bits(), 2.0_f32.to_bits()],
            vec![(-1.0_f32).to_bits(), 0]
        ]
    );
    assert_eq!(
        bf16_rows_to_f32(&[0x3f80, 0x4000, 0xbf80], 2),
        Err("BF16 logits do not contain whole rows".to_owned())
    );
}

fn bits(values: &[f32]) -> Vec<u32> {
    values.iter().map(|value| value.to_bits()).collect()
}

#[test]
fn the_two_largest_logits_are_summarized() {
    let summary = top_summary(&bits(&[1.0, 4.0, -2.0, 3.0])).unwrap();
    assert_eq!(summary.first, 1);
    assert_eq!(summary.second, 3);
    assert_eq!(summary.first_bits, 4.0_f32.to_bits());
    assert_eq!(summary.second_bits, 3.0_f32.to_bits());
    assert!(top_summary(&bits(&[1.0])).is_err());
    assert!(top_summary(&bits(&[1.0, f32::NAN])).is_err());
}

fn audit(target: &str, dispatches: u64) -> AuditReport {
    AuditReport {
        selected_backend: "hip".to_owned(),
        target: target.to_owned(),
        submission_count: 1,
        kernel_dispatch_count: dispatches,
        fallback_used: false,
        all_dispatches_hip: true,
    }
}

#[test]
fn audits_must_be_hip_only_on_both_sides() {
    assert!(audit_pair(audit("gfx1030", 3), audit("gfx1030", 2), "gfx1030", "t", "d").is_ok());
    let refused = audit_pair(audit("gfx1030", 0), audit("gfx1030", 2), "gfx1030", "t", "d");
    assert_eq!(
        refused.unwrap_err(),
        "Phase86 dispatch audit is not HIP-only: target=t draft=d"
    );
}

#[test]
fn priming_leads_every_token_by_the_hidden_row_before_it() {
    let primed = prime_requests(&[5, 6, 7], Some(&[1, 2, 3, 4, 5, 6]), 2).unwrap();
    assert_eq!(primed.hidden_width, 2);
    assert_eq!(primed.first_token, 5);
    assert_eq!(primed.first_hidden, vec![0, 0]);
    assert_eq!(primed.last_target_hidden, vec![5, 6]);
    let tokens: Vec<i32> = primed
        .batches
        .iter()
        .flat_map(|batch| batch.tokens.iter().copied())
        .collect();
    assert_eq!(tokens, vec![6, 7]);
    assert!(prime_requests(&[], Some(&[]), 2).is_err());
    assert!(prime_requests(&[1], None, 2).is_err());
    assert!(prime_requests(&[1, 2], Some(&[1, 2, 3]), 2).is_err());
}

fn row_logits(top: usize) -> Vec<u32> {
    let mut row = vec![0.0_f32.to_bits(); 4];
    row[top] = 2.0_f32.to_bits();
    row
}

#[test]
fn a_run_walks_its_output_block_by_block() {
    let output = vec![1, 2, 3, 1];
    let primed = prime_requests(&[3], Some(&[7, 8]), 4).unwrap();
    let mut entry = EntryRun::start(CatchUpMode::P, false, output, &[7, 8], &primed);
    let inputs = entry.next_block().unwrap();
    assert_eq!(inputs, vec![1, 2, 3]);
    let target_hidden = vec![1, 1, 2, 2, 3, 3];
    let logits: Vec<u16> = vec![0x4000, 0, 0, 0, 0, 0x4000, 0, 0, 0, 0, 0x4000, 0];
    let target_rows = check_target_block(
        0,
        &inputs,
        Some(&target_hidden),
        Some(&logits),
        2,
        4,
    )
    .unwrap();
    assert_eq!(target_rows.len(), 3);
    let q0 = row_logits(2);
    let q1 = row_logits(0);
    let hidden = row_one_hidden(
        0,
        CatchUpMode::P,
        Some(&[9, 9]),
        Some(&q0),
        &target_hidden,
        2,
    )
    .unwrap();
    assert_eq!(hidden, vec![9, 9]);
    let draft = check_draft_rows(0, CatchUpMode::P, &inputs, &q0, Some(&q1)).unwrap();
    assert_eq!(draft.row0.top1_token, 2);
    assert_eq!(draft.row0.top1_matches_forced, Some(true));
    assert_eq!(draft.row1.top1_matches_forced, Some(false));
    let decision = entry.decide(&draft).unwrap();
    assert_eq!(decision.accepted, 1);
    let plan = retain_or_catch_up(
        CatchUpMode::P,
        false,
        &inputs,
        &[7, 8],
        &target_hidden,
        2,
        &decision,
    );
    let committed = entry
        .commit_block(&decision, &target_hidden, target_rows, &draft, None)
        .unwrap();
    assert_eq!(committed.rewinds, plan.rewinds);
    assert!(entry.next_block().is_none());
    assert_eq!(
        next_target_hidden(0, 2, None, &target_hidden, 2).unwrap(),
        vec![2, 2]
    );
    assert!(next_target_hidden(0, 2, Some(&[1]), &target_hidden, 2).is_err());
    let report = entry.finish(
        identity(),
        audit_pair(audit("gfx1030", 1), audit("gfx1030", 1), "gfx1030", "", "").unwrap(),
    );
    assert_eq!(report.blocks, 1);
    assert_eq!(report.accepted_draft_tokens, 1);
    assert_eq!(report.proposed_draft_tokens, 2);
    assert!(report.valid(true));
    assert!(!report.valid(false));
    assert!(all_entries_valid(&vec![report], &vec![true]));
}

fn identity() -> EntryIdentity {
    let (target_logits_file, draft_logits_file) = logits_file_names("case", 7, CatchUpMode::P);
    EntryIdentity {
        case_id: "case".to_owned(),
        seed: 7,
        prompt_token_count: 1,
        prompt_sha256: String::new(),
        output_prefix_sha256: String::new(),
        full_prefix_sha256: String::new(),
        target_logits_file,
        target_logits_sha256: String::new(),
        draft_logits_file,
        draft_logits_sha256: String::new(),
    }
}

#[test]
fn logit_files_are_named_by_case_seed_and_mode() {
    assert_eq!(
        logits_file_names("case", 7, CatchUpMode::P),
        ("case-seed-7-target.f32".to_owned(), "case-seed-7-draft-P.f32".to_owned())
    );
    assert_eq!(report_state(true), "PASS");
    assert_eq!(report_state(false), "FAIL");
}

#[test]
fn the_baseline_takes_one_token_at_a_time() {
    let primed = prime_requests(&[3], Some(&[7, 8]), 4).unwrap();
    let mut teacher = TeacherRun::start(vec![1, 2], &[7, 8], &primed);
    assert_eq!(teacher.next_row(), Some((1, Some(2))));
    let logits: Vec<u16> = vec![0, 0, 0x4000, 0];
    let target_row =
        check_target_row(0, 1, Some(2), Some(&[4, 4]), Some(&logits), 2, 4).unwrap();
    let draft_row = check_draft_row(0, 1, Some(2), Some(&row_logits(2))).unwrap();
    assert_eq!(draft_row.hidden_conditioning, HiddenConditioning::Target);
    teacher.record(&[4, 4], target_row, draft_row);
    assert_eq!(teacher.next_row(), Some((2, None)));
    assert!(check_draft_row(0, 1, None, None).is_err());
    assert!(check_target_row(0, 1, None, None, None, 2, 4).is_err());
}

fn path(text: &str, absolute: bool) -> PathArg {
    PathArg {
        text: text.to_owned(),
        absolute,
    }
}

#[test]
fn prefixes_come_from_a_manifest_a_file_or_the_stage_before() {
    let plan = stage1_prefix_path(
        Some(path("/m.json", true)),
        Some(path("/out.json", true)),
        path("/default.json", true),
        None,
    )
    .unwrap();
    assert!(matches!(
        plan,
        PrefixPlan::Prepare { manifest, output } if manifest == "/m.json" && output == "/out.json"
    ));
    let plan =
        stage1_prefix_path(None, None, path("/default.json", true), Some(path("/p.json", true)));
    assert!(matches!(plan, Ok(PrefixPlan::File { path }) if path == "/p.json"));
    let plan = stage1_prefix_path(None, None, path("/default.json", true), None);
    assert!(matches!(plan, Ok(PrefixPlan::Stage0)));
    assert!(stage1_prefix_path(
        Some(path("m.json", false)),
        None,
        path("/default.json", true),
        None
    )
    .is_err());
    assert!(prepare_prefixes_only(None, None, path("/default.json", true)).is_err());
    assert_eq!(
        prepare_prefixes_only(Some(path("/m.json", true)), None, path("/default.json", true)),
        Ok(("/m.json".to_owned(), "/default.json".to_owned()))
    );
}

#[test]
fn reports_pass_when_every_entry_is_valid() {
    let report = run(
        CatchUpMode::P,
        false,
        "/p.json".to_owned(),
        "sha256:00".to_owned(),
        false,
        vec![],
        &vec![],
    );
    assert_eq!(report.mode, "P");
    assert_eq!(report.prefix_provenance, "existing Stage0 frozen prefix file");
    let prepared = prepare_report("/p.json".to_owned(), "sha256:00".to_owned(), 26);
    assert_eq!(prepared.entry_count, 26);
}

#[test]
fn realigned_drafts_hold_the_committed_inputs() {
    let inputs = [4, 5, 6];
    let (before, rows) = ([1_u16, 1], [2_u16, 2, 3, 3, 4, 4]);
    for separate in [false, true] {
        for accepted in 0..=2 {
            let decision = forced_block_decision_for_count(0, 3, accepted).unwrap();
            let plan = retain_or_catch_up(
                CatchUpMode::P,
                separate,
                &inputs,
                &before,
                &rows,
                2,
                &decision,
            );
            let mut held = inputs[..2 - plan.rewinds].to_vec();
            if let Some(batch) = &plan.batch {
                held.extend(&batch.tokens);
                assert_eq!(batch.hidden.len(), 2 * batch.tokens.len());
            }
            assert_eq!(held, inputs[..=accepted]);
        }
    }
}
