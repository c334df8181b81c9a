use sllm_hip::digest::{digest, digest_hex};
use sllm_hip::json::{parse_json, Json};
use sllm_hip::manifest::{
    adopt_existing, check_complete, check_output_hash, check_prompt_hash, check_prompt_tokens,
    check_sequence, condition_sources, decode_manifest, merge_condition, read_condition,
    read_manifest, IdSet, PrefixEntry, PrefixSet,
};

#[test]
fn digests_are_those_of_sha256() {
    assert_eq!(
        digest(b"abc"),
        "sha256:ba7816bf8f01cfea414140de5dae2223b00361a396177a9cb410ff61f20015ad"
    );
    assert_eq!(
        digest_hex(b""),
        "e3b0c44298fc1c149afbf4c8996fb92427ae41e4649b934ca495991b7852b855"
    );
}

#[test]
fn documents_are_read_value_by_value() {
    let document =
        parse_json(br#"{"a": [1, -2, 3.5, "x", null, true], "b": {"c": 18446744073709551615}}"#)
            .unwrap();
    let list = document.get("a").unwrap();
    match list {
        Json::List(items) => {
            assert_eq!(items.len(), 6);
            assert_eq!(items[0].as_i32(), Some(1));
            assert_eq!(items[1].as_i32(), Some(-2));
            assert_eq!(items[2].as_i32(), None);
            assert!(matches!(&items[3], Json::Text(text) if text == "x"));
            assert!(matches!(items[4], Json::Null));
            assert!(matches!(items[5], Json::Bool(true)));
        }
        _ => panic!("a list was expected"),
    }
    let inner = document.get("b").and_then(|value| value.get("c")).unwrap();
    assert!(matches!(inner, Json::Unsigned(18446744073709551615)));
    assert!(document.get("missing").is_none());
    assert!(parse_json(b"{").is_err());
}

fn manifest_text(count: usize, with_seed: bool) -> String {
    let mut text = String::from("{");
    if with_seed {
        text.push_str(r#""reference_sequence_provenance": {"sampling": {"seed": 42}}, "#);
    }
    text.push_str(r#""conditions": ["#);
    for index in 0..count {
        if index > 0 {
            text.push(',');
        }
        text.push_str(&format!(
            r#"{{"tier": "A", "cond_id": "c{index}", "prompt_file": "p{index}"}}"#
        ));
    }
    text.push_str(r#", {"tier": "B", "cond_id": "other"}]}"#);
    text
}

#[test]
fn a_manifest_names_twenty_six_conditions() {
    let document = decode_manifest(manifest_text(26, true).as_bytes()).unwrap();
    let manifest = read_manifest(&document).unwrap();
    assert_eq!(manifest.seed, 42);
    assert_eq!(manifest.tier_a_ids.ids.len(), 26);
    assert!(manifest.tier_a_ids.contains("c25"));
    assert!(!manifest.tier_a_ids.contains("other"));

    let short = decode_manifest(manifest_text(25, true).as_bytes()).unwrap();
    assert_eq!(
        read_manifest(&short).unwrap_err(),
        "Phase86 manifest must provide 26 Tier A IDs, got 25"
    );
    let seedless = decode_manifest(manifest_text(26, false).as_bytes()).unwrap();
    assert_eq!(
        read_manifest(&seedless).unwrap_err(),
        "Phase86 manifest has no reference seed"
    );
    assert!(decode_manifest(b"nothing").unwrap_err().starts_with("decode Phase86 manifest: "));
}

fn condition(sequence: &[u8], output: &str) -> String {
    format!(
        r#"{{"tier": "A", "cond_id": "c", "prompt_file": "p", "prompt_sha256": "{}",
            "prompt_tokens_rendered": 2,
            "reference_sequences": {{"bf16": {{"sequence_file": "s", "sequence_sha256": "{}",
            "committed_token_count": 2, "committed_token_sha256": "{output}"}}}}}}"#,
        digest(b"prompt"),
        digest(sequence),
    )
}

#[test]
fn a_condition_is_held_against_its_files() {
    let sequence = br#"{"committed_token_ids": [7, -8]}"#;
    let output = sllm_hip::catch_up::canonical_sequence_hash(&[7, -8]);
    let document = parse_json(condition(sequence, &output).as_bytes()).unwrap();
    let condition = read_condition(&document);
    assert!(condition.is_tier_a());
    let sources = condition_sources(&condition).unwrap();
    assert_eq!(sources.case_id, "c");
    assert_eq!(sources.prompt_file, "p");
    assert_eq!(sources.sequence_file, "s");
    assert!(check_prompt_hash("c", &condition, &digest(b"prompt")).is_ok());
    assert_eq!(
        check_prompt_hash("c", &condition, &digest(b"other")).unwrap_err(),
        "Phase86 prompt hash differs for c"
    );
    assert_eq!(check_prompt_tokens("c", &condition, &[3, 4]), Ok(vec![3, 4]));
    assert_eq!(
        check_prompt_tokens("c", &condition, &[3]).unwrap_err(),
        "Phase86 rendered prompt length differs for c"
    );
    assert_eq!(
        check_prompt_tokens("c", &condition, &[3, u32::MAX]).unwrap_err(),
        "token overflows i32: 4294967295"
    );
    let tokens = check_sequence("c", &condition, sequence).unwrap();
    assert_eq!(tokens, vec![7, -8]);
    assert_eq!(
        check_sequence("c", &condition, b"{}").unwrap_err(),
        "Phase86 sequence file hash differs for c"
    );
    assert!(check_output_hash("c", &condition, &tokens).is_ok());
    assert_eq!(
        check_output_hash("c", &condition, &[7]).unwrap_err(),
        "Phase86 output hash differs for c"
    );
}

fn entry(case_id: &str, token: i32) -> PrefixEntry {
    PrefixEntry {
        case_id: case_id.to_owned(),
        seed: 1,
        prompt_tokens: vec![token],
        output_prefix_tokens: vec![token],
    }
}

#[test]
fn prefixes_are_kept_in_order_and_once() {
    let mut ids = IdSet { ids: Vec::new() };
    ids.add("a".to_owned());
    ids.add("b".to_owned());
    ids.add("a".to_owned());
    assert_eq!(ids.ids.len(), 2);
    let mut set = PrefixSet::empty();
    assert!(check_complete(&set, &ids).is_err());
    adopt_existing(&mut set, &ids, entry("b", 2)).unwrap();
    assert_eq!(
        adopt_existing(&mut set, &ids, entry("z", 2)).unwrap_err(),
        "existing Phase86 prefix is outside Tier A: z"
    );
    assert!(merge_condition(&mut set, entry("a", 1)).is_ok());
    assert!(merge_condition(&mut set, entry("b", 2)).is_ok());
    assert!(merge_condition(&mut set, entry("b", 3)).is_err());
    assert!(check_complete(&set, &ids).is_ok());
    assert_eq!(
        set.entries.iter().map(|entry| entry.case_id.as_str()).collect::<Vec<_>>(),
        vec!["a", "b"]
    );
    assert_eq!(set.find("a").unwrap().prompt_tokens, vec![1]);
    assert!(set.find("z").is_none());
}

#[test]
fn existing_prefixes_outlive_the_conditions() {
    let mut ids = IdSet { ids: Vec::new() };
    ids.add("a".to_owned());
    ids.add("b".to_owned());
    let mut set = PrefixSet::empty();
    let mut older = entry("b", 2);
    older.output_prefix_tokens = vec![5, 6];
    adopt_existing(&mut set, &ids, older).unwrap();
    for condition in [entry("b", 2), entry("a", 1), entry("b", 2)] {
        merge_condition(&mut set, condition).unwrap();
    }
    assert_eq!(
        merge_condition(&mut set, entry("b", 3)).unwrap_err(),
        "existing Phase86 prefix differs for b"
    );
    assert_eq!(set.find("b").unwrap().output_prefix_tokens, vec![5, 6]);
    assert_eq!(set.find("a").unwrap().output_prefix_tokens, vec![1]);
    assert_eq!(set.entries.len(), 2);
}
