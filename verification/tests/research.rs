use sllm_hip::audit::{CleanupCounts, DispatchEvidence};
use sllm_hip::research_args::{
    encoding_name, parse_research_arguments, production_descriptor, target_config, variant_name,
    Block16Encoding, PhysicalVariant,
};
use sllm_hip::research_candidate::{
    set_and_verify_recipe_pair, CandidateKind, CandidateSpec, Recipe, RecipeRead,
    TransformSelectors,
};
use sllm_hip::research_inputs::{
    attention_query, padding_zero, source_words, transform_key_rows, transform_query_rows,
    transpose16x16_index, transpose_f32_rows, words_are_finite, zero_plane, ValuesKind,
    ATTENTION_DIM, HEADS, Q_HEADS,
};
use sllm_hip::research_run::{
    case_evidence, case_id, case_passes, direct_dispatch, host_evidence, measured_transform,
    partial_name, pending_transform, planned_cases, production_descriptor_id, run_passes,
    transform_passes, transform_plan, AttentionFlags, CaseEvidence, Invariance, PlaneSet,
};

fn selectors() -> TransformSelectors {
    TransformSelectors {
        vo: "transpose16x16-vo-layer19".to_owned(),
        vo_layers19_31: "transpose16x16-vo-layers19-31".to_owned(),
    }
}

fn candidate(k_recipe: Recipe, v_recipe: Recipe) -> CandidateSpec {
    let production = k_recipe == Recipe::Floor && v_recipe == Recipe::Floor;
    CandidateSpec {
        schema_version: "sllm-phase54-kv-candidate-spec-v1".to_owned(),
        candidate_id: if production {
            "production-control-v2".to_owned()
        } else {
            format!("phase54-k-{}-v-{}-v1", k_recipe.id(), v_recipe.id())
        },
        scale_selector: "independent-k-v-closed-enum-v1".to_owned(),
        rounding: "nearest-even".to_owned(),
        k_recipe,
        v_recipe,
        transform: "none".to_owned(),
        calibration_digest: None,
        descriptor_compatibility: if production {
            "exact-production-v2".to_owned()
        } else {
            "research-build-semantic-override-not-v2-compatible".to_owned()
        },
    }
}

fn transformed(candidate_id: &str, transform: &str) -> CandidateSpec {
    CandidateSpec {
        schema_version: "sllm-phase54-kv-candidate-spec-v1".to_owned(),
        candidate_id: candidate_id.to_owned(),
        scale_selector: "independent-k-v-closed-enum-v1".to_owned(),
        rounding: "nearest-even".to_owned(),
        k_recipe: Recipe::Floor,
        v_recipe: Recipe::Floor,
        transform: transform.to_owned(),
        calibration_digest: None,
        descriptor_compatibility: "research-build-semantic-override-not-v2-compatible".to_owned(),
    }
}

fn transform_candidate() -> CandidateSpec {
    transformed("phase54-kq-transpose16x16-all-full-v1", "transpose16x16-all-full")
}

fn vo_transform_candidate() -> CandidateSpec {
    transformed("phase54-vo-transpose16x16-layer19-v1", &selectors().vo)
}

fn vo_layers19_31_transform_candidate() -> CandidateSpec {
    transformed(
        "phase54-vo-transpose16x16-layers19-31-v1",
        &selectors().vo_layers19_31,
    )
}

#[test]
fn candidate_identity_is_closed_and_recipe_specific() {
    let selectors = selectors();
    assert!(candidate(Recipe::Floor, Recipe::Floor).validate(&selectors).is_ok());
    assert!(candidate(Recipe::Ceil, Recipe::NearestEven).validate(&selectors).is_ok());
    assert!(candidate(Recipe::Parent32Duplicate, Recipe::Parent32Duplicate)
        .validate(&selectors)
        .is_ok());
    let transform = transform_candidate();
    assert!(transform.validate(&selectors).is_ok());
    assert!(transform.transform_candidate());
    assert!(!transform.production_control());
    let vo_transform = vo_transform_candidate();
    assert!(vo_transform.validate(&selectors).is_ok());
    assert!(vo_transform.vo_transform_candidate(&selectors));
    assert!(!vo_transform.production_control());
    let vo_layers19_31 = vo_layers19_31_transform_candidate();
    assert!(vo_layers19_31.validate(&selectors).is_ok());
    assert!(vo_layers19_31.vo_layers19_31_transform_candidate(&selectors));
    assert!(!vo_layers19_31.vo_transform_candidate(&selectors));
    assert_eq!(
        vo_layers19_31.expected_id(&selectors),
        "phase54-vo-transpose16x16-layers19-31-v1"
    );
    let mut invalid = candidate(Recipe::Floor, Recipe::Floor);
    invalid.candidate_id = "phase54-k-floor-v-floor-v1".to_owned();
    assert!(invalid.validate(&selectors).is_err());
    let mut invalid_transform = transform_candidate();
    invalid_transform.k_recipe = Recipe::Ceil;
    assert!(invalid_transform.validate(&selectors).is_err());
    let mut invalid_transform_id = transform_candidate();
    invalid_transform_id.candidate_id = "production-control-v2".to_owned();
    assert!(invalid_transform_id.validate(&selectors).is_err());
    let mut invalid_vo_transform = vo_transform_candidate();
    invalid_vo_transform.v_recipe = Recipe::Ceil;
    assert!(invalid_vo_transform.validate(&selectors).is_err());
    let mut invalid_vo_layers19_31 = vo_layers19_31_transform_candidate();
    invalid_vo_layers19_31.k_recipe = Recipe::Ceil;
    assert!(invalid_vo_layers19_31.validate(&selectors).is_err());
}

#[test]
fn closed_candidates_have_identities_of_their_own() {
    let selectors = selectors();
    let recipes = [
        Recipe::Floor,
        Recipe::Ceil,
        Recipe::NearestEven,
        Recipe::Parent32Duplicate,
    ];
    let mut valid = vec![
        transform_candidate(),
        vo_transform_candidate(),
        vo_layers19_31_transform_candidate(),
    ];
    for key in recipes {
        for value in recipes {
            let pair = candidate(key, value);
            if pair.validate(&selectors).is_ok() {
                valid.push(pair);
            }
        }
    }
    let mut identities: Vec<String> =
        valid.iter().map(|candidate| candidate.expected_id(&selectors)).collect();
    assert!(valid.iter().all(|candidate| candidate.validate(&selectors).is_ok()));
    assert_eq!(identities.len(), 13);
    identities.sort();
    identities.dedup();
    assert_eq!(identities.len(), 13);
}

#[test]
fn only_production_candidates_name_a_descriptor() {
    for encoding in [Block16Encoding::Fp8E4M3Block16, Block16Encoding::Fp8E5M2Block16] {
        assert_eq!(
            production_descriptor_id(CandidateKind::ProductionControl, encoding),
            Some(production_descriptor(encoding))
        );
        let others = [transform_candidate(), candidate(Recipe::Ceil, Recipe::Floor)];
        for other in others {
            assert_eq!(production_descriptor_id(other.kind(&selectors()), encoding), None);
        }
    }
}

#[test]
fn report_identity_never_claims_v2_for_non_floor_recipe() {
    let candidate = candidate(Recipe::Ceil, Recipe::Floor);
    assert!(!candidate.production_control());
    assert_eq!(
        candidate.descriptor_compatibility,
        "research-build-semantic-override-not-v2-compatible"
    );
}

#[test]
fn kinds_follow_the_transform() {
    let selectors = selectors();
    assert_eq!(
        candidate(Recipe::Floor, Recipe::Floor).kind(&selectors),
        CandidateKind::ProductionControl
    );
    assert_eq!(
        candidate(Recipe::Ceil, Recipe::Floor).kind(&selectors),
        CandidateKind::RecipePair
    );
    assert_eq!(transform_candidate().kind(&selectors), CandidateKind::KeyQueryTransform);
    assert_eq!(vo_transform_candidate().kind(&selectors), CandidateKind::ValueOutputTransform);
    assert_eq!(
        vo_layers19_31_transform_candidate().kind(&selectors),
        CandidateKind::ValueOutputLayersTransform
    );
    assert!(candidate(Recipe::Parent32Duplicate, Recipe::Parent32Duplicate)
        .parent32_duplicate_candidate());
}

#[test]
fn recipes_must_read_back_as_they_were_set() {
    let read = RecipeRead {
        status: 0,
        key: Recipe::Ceil.runtime_value(),
        value: Recipe::Floor.runtime_value(),
    };
    assert!(set_and_verify_recipe_pair(Recipe::Ceil, Recipe::Floor, 0, read).is_ok());
    assert!(set_and_verify_recipe_pair(Recipe::Ceil, Recipe::Floor, 1, read).is_err());
    assert!(set_and_verify_recipe_pair(Recipe::Floor, Recipe::Floor, 0, read).is_err());
}

fn passing_attention_case() -> CaseEvidence {
    CaseEvidence {
        id: "attention-kv2".to_owned(),
        head_dim: ATTENTION_DIM,
        token_count: 2,
        transform_applied: false,
        signed_zero_only: false,
        recipe_distinguishing: false,
        key_values_exact: true,
        value_values_exact: true,
        key_scales_exact: true,
        value_scales_exact: true,
        tail_padding_zero: true,
        append_direct: true,
        attention_direct: true,
        attention_numerical_match: true,
        attention_key_contributes: true,
        finite: true,
    }
}

#[test]
fn attention_case_is_fail_closed_on_direct_and_oracle_evidence() {
    let passing = passing_attention_case();
    assert!(case_passes(&passing));

    let mut fallback = passing_attention_case();
    fallback.attention_direct = false;
    assert!(!case_passes(&fallback));

    let mut mismatch = passing_attention_case();
    mismatch.attention_numerical_match = false;
    assert!(!case_passes(&mismatch));

    let mut insensitive = passing_attention_case();
    insensitive.attention_key_contributes = false;
    assert!(!case_passes(&insensitive));
}

fn widen(word: u16) -> f64 {
    f64::from(f32::from_bits(u32::from(word) << 16))
}

fn scores(query: &[u16], key: &[u16], tokens: usize) -> Vec<f64> {
    let mut out = Vec::new();
    for query_head in 0..Q_HEADS {
        let kv_head = query_head / (Q_HEADS / HEADS);
        for token in 0..tokens {
            let key_offset = (token * HEADS + kv_head) * ATTENTION_DIM;
            let mut dot = 0.0_f64;
            for dimension in 0..ATTENTION_DIM {
                dot += widen(query[query_head * ATTENTION_DIM + dimension])
                    * widen(key[key_offset + dimension]);
            }
            out.push(dot);
        }
    }
    out
}

#[test]
fn transform_preserves_fp64_unquantized_qk_with_nonzero_query() {
    let query = attention_query();
    assert!(query.iter().any(|word| *word != 0));
    let key = source_words(
        2,
        ATTENTION_DIM,
        false,
        PhysicalVariant::OcpE5M2,
        ValuesKind::Attention,
    );
    let transformed_key = transform_key_rows(&key, 2, ATTENTION_DIM, true).unwrap();
    let transformed_query = transform_query_rows(&query);
    let maximum_delta = scores(&query, &key, 2)
        .iter()
        .zip(scores(&transformed_query, &transformed_key, 2))
        .map(|(original, transformed)| (original - transformed).abs())
        .fold(0.0_f64, f64::max);
    assert!(maximum_delta <= 1.0e-12, "maximum QK delta was {maximum_delta}");
    assert_ne!(key, transformed_key);
}

#[test]
fn untransformed_rows_are_left_as_they_are() {
    let boundary = source_words(1, 256, false, PhysicalVariant::OcpE5M2, ValuesKind::Boundary);
    let signed_zero = source_words(1, 16, false, PhysicalVariant::OcpE5M2, ValuesKind::SignedZero);
    assert_eq!(transform_key_rows(&boundary, 1, 256, false).unwrap(), boundary);
    assert_eq!(transform_key_rows(&signed_zero, 1, 16, false).unwrap(), signed_zero);
}

#[test]
fn transposing_twice_leads_back() {
    for column in 0..ATTENTION_DIM {
        assert_eq!(transpose16x16_index(transpose16x16_index(column)), column);
    }
    assert_eq!(transpose16x16_index(1), 16);
    let value = source_words(
        2,
        ATTENTION_DIM,
        true,
        PhysicalVariant::OcpE5M2,
        ValuesKind::Attention,
    );
    let moved = transform_key_rows(&value, 2, ATTENTION_DIM, true).unwrap();
    assert_ne!(value, moved);
    let widened: Vec<u32> = value.iter().map(|word| u32::from(*word) << 16).collect();
    let moved_bits: Vec<u32> = moved.iter().map(|word| u32::from(*word) << 16).collect();
    assert_eq!(transpose_f32_rows(&moved_bits, 2 * HEADS).unwrap(), widened);
    assert_eq!(
        transpose_f32_rows(&moved_bits, HEADS).unwrap_err(),
        "V/O f32 transform shape differs"
    );
    assert_eq!(
        transpose_f32_rows(&moved_bits, usize::MAX).unwrap_err(),
        "V/O f32 transform shape overflow"
    );
}

#[test]
fn padding_stands_behind_the_last_value() {
    let mut plane = vec![1_u8; 17];
    plane.extend([0; 15]);
    assert!(padding_zero(&plane, 1, 17));
    plane[31] = 2;
    assert!(!padding_zero(&plane, 1, 17));
    assert!(words_are_finite(&[0x3f80]));
    assert!(!words_are_finite(&[0x3f80, 0x7f80]));
    assert!(zero_plane(&[127, 127], &[0, 0], &[0x8000_0000, 0]));
    assert!(!zero_plane(&[126], &[0], &[0]));
}

#[test]
fn targets_have_one_encoding_and_variant() {
    let (encoding, variant) = target_config("gfx1030").unwrap();
    assert_eq!(encoding, Block16Encoding::Fp8E5M2Block16);
    assert_eq!(variant, PhysicalVariant::OcpE5M2);
    assert!(target_config("gfx900").is_err());
    assert!(!encoding_name(encoding).is_empty());
    assert!(!variant_name(variant).is_empty());
    assert!(!production_descriptor(encoding).is_empty());
}

#[test]
fn research_arguments_need_a_candidate() {
    let list = |items: &[&str]| items.iter().map(|text| text.to_string()).collect::<Vec<_>>();
    assert!(parse_research_arguments(&list(&[])).is_err());
    assert!(parse_research_arguments(&list(&["--device-index", "0"])).is_err());
    assert!(parse_research_arguments(&list(&["--nothing", "0"])).is_err());
}

fn planes(byte: u8) -> PlaneSet {
    PlaneSet {
        key_values: vec![byte],
        value_values: vec![1],
        key_scales: vec![2],
        value_scales: vec![3],
    }
}

#[test]
fn cases_compare_all_four_planes() {
    let plan = planned_cases().into_iter().find(|plan| plan.attention).unwrap();
    assert!(!case_id(&plan).is_empty());
    let transforms = transform_plan(CandidateKind::KeyQueryTransform, plan.attention);
    assert!(transforms.key_query);
    assert!(!transforms.value_output);
    let flags = AttentionFlags {
        direct: true,
        numerical_match: true,
        key_contributes: true,
    };
    let good = case_evidence(
        &plan,
        transforms,
        &planes(9),
        &planes(9),
        &[2],
        true,
        true,
        Some(flags),
        true,
    );
    assert!(good.key_values_exact);
    let bad = case_evidence(
        &plan,
        transforms,
        &planes(8),
        &planes(9),
        &[2],
        true,
        true,
        Some(flags),
        true,
    );
    assert!(!bad.key_values_exact);
    assert!(!case_passes(&bad));
}

#[test]
fn pending_transforms_do_not_pass() {
    let kind = CandidateKind::ValueOutputTransform;
    let pending = pending_transform(kind);
    assert!(pending.is_some());
    assert!(!transform_passes(kind, pending.as_ref()));
    let measured = Invariance {
        query_transformed: true,
        qk_invariant: true,
        qk_within_bound: true,
        vo_invariant: true,
        vo_within_bound: true,
        output_inverse_transformed: true,
    };
    let evidence = measured_transform(kind, measured);
    assert!(transform_passes(kind, evidence.as_ref()));
    assert!(pending_transform(CandidateKind::RecipePair).is_none());
}

#[test]
fn a_research_run_needs_host_cases_and_cleanup() {
    let clean = CleanupCounts {
        retryable_cleanup: 0,
        durable_quarantine: 0,
    };
    let host = host_evidence(&vec![Some(true), Some(true)], true, true, true);
    assert!(host.pass);
    assert!(!host_evidence(&vec![Some(true), None], true, true, true).pass);
    let mut zeros = passing_attention_case();
    zeros.signed_zero_only = true;
    let mut distinguishing = passing_attention_case();
    distinguishing.recipe_distinguishing = true;
    let cases = vec![zeros, distinguishing];
    assert!(run_passes(&host, &cases, true, &clean));
    assert!(!run_passes(&host, &cases, false, &clean));
    assert!(!run_passes(&host, &vec![passing_attention_case()], true, &clean));
    let dispatch = DispatchEvidence {
        abi_version: 1,
        info_version: 1,
        dispatch_id: 1,
        dispatch_count: 1,
        kernel_id: 1,
        workgroup_size_x: 1,
        grid_size_x: 1,
        row_count: 1,
        normalized_size: 1,
        backend: 1,
        fallback_allowed: false,
        fallback_used: true,
        kernel_symbol: "kv_block16".to_owned(),
        device_symbol: String::new(),
        target: String::new(),
    };
    assert!(!direct_dispatch(&dispatch, "block16"));
    assert!(partial_name("report.json", 12).contains("12"));
}
