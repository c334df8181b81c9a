use sllm_hip::audit::DispatchEvidence;
use sllm_hip::fp8_accuracy::{
    case_prompts, check_logits, judge_accuracy, parse_accuracy_arguments, top1,
};
use sllm_hip::fp8_matmul::{
    check_dispatch, filter_benchmark_shape, make_matrix, median_u64, parse_arguments, plan_product,
    planned_cases, provider_name, resident_dtype, sampled, words_bytes, KernelSettings, Shape,
};

fn settings() -> KernelSettings {
    KernelSettings {
        benchmark: false,
        prefill_baseline: false,
        prefill_f16_staging: false,
        prefill_half2_64x64: false,
        prefill_half2_128x64: false,
        decode_baseline: false,
        decode_half2: false,
        decode_dword8: false,
    }
}

#[test]
fn shapes_are_filtered_by_scope_and_by_name() {
    assert_eq!(planned_cases(false, None, None).unwrap().len(), 10);
    assert_eq!(planned_cases(true, Some("all"), None).unwrap().len(), 17);
    assert_eq!(planned_cases(false, Some("decode"), None).unwrap().len(), 4);
    assert_eq!(planned_cases(false, Some("prefill"), None).unwrap().len(), 6);
    assert_eq!(
        planned_cases(false, Some("both"), None),
        Err("SLLM_FP8_BENCHMARK_SCOPE must be all, decode, or prefill".to_owned())
    );
    assert_eq!(
        planned_cases(true, None, Some("5120x17408")).unwrap().len(),
        4
    );
    assert_eq!(
        planned_cases(true, None, Some("512x5120x17408")).unwrap(),
        vec![Shape {
            m: 512,
            k: 5120,
            n: 17408
        }]
    );
    let refused = |text| {
        filter_benchmark_shape(
            vec![Shape { m: 1, k: 2, n: 3 }],
            Some(text),
        )
        .unwrap_err()
    };
    let malformed = "SLLM_FP8_BENCHMARK_SHAPE must be KxN or MxKxN with decimal dimensions";
    assert_eq!(refused("2xy"), malformed);
    assert_eq!(refused("2"), malformed);
    assert_eq!(refused("1x2x3x4"), malformed);
    assert_eq!(refused("2x"), malformed);
    assert_eq!(
        refused("2x4"),
        "SLLM_FP8_BENCHMARK_SHAPE=\"2x4\" does not match a benchmark case"
    );
}

#[test]
fn matrices_are_thirty_firsts() {
    let words = make_matrix(3, 5, 2);
    assert_eq!(words.len(), 15);
    for (index, word) in words.iter().enumerate() {
        let signed = ((index * 37 + 2 * 19) % 257) as i32 - 128;
        let bits = (signed as f32 / 31.0).to_bits();
        let upper = bits >> 16;
        let lower = bits & 0xffff;
        let carry = u32::from(lower > 0x8000 || (lower == 0x8000 && upper & 1 != 0));
        assert_eq!(u32::from(*word), upper + carry);
    }
    assert_eq!(words_bytes(&[0x1234]), vec![0x34, 0x12]);
}

#[test]
fn the_median_is_the_upper_one() {
    assert_eq!(median_u64(&[4, 1, 3, 2]), Ok(3));
    assert_eq!(
        median_u64(&[]),
        Err("cannot compute median of empty timing samples".to_owned())
    );
}

#[test]
fn kernels_follow_the_target_the_shape_and_the_settings() {
    let decode = Shape {
        m: 1,
        k: 5120,
        n: 1024,
    };
    let prefill = Shape {
        m: 128,
        k: 5120,
        n: 17408,
    };
    let id = |shape, target, settings: &KernelSettings| plan_product(shape, target, settings).kernel_id;
    assert_eq!(id(decode, "gfx1201", &settings()), 5);
    assert_eq!(id(prefill, "gfx942", &settings()), 5);
    assert_eq!(id(decode, "gfx1030", &settings()), 6);
    let half2 = KernelSettings {
        decode_half2: true,
        ..settings()
    };
    assert_eq!(id(decode, "gfx1030", &half2), 66);
    let dword8 = KernelSettings {
        decode_dword8: true,
        ..half2
    };
    assert_eq!(id(decode, "gfx1030", &dword8), 68);
    let odd = Shape { k: 65, ..decode };
    assert_eq!(id(odd, "gfx1030", &dword8), 6);
    assert_eq!(id(prefill, "gfx1030", &settings()), 71);
    let staging = KernelSettings {
        prefill_f16_staging: true,
        ..settings()
    };
    assert_eq!(id(prefill, "gfx1030", &staging), 70);
    assert_eq!(plan_product(prefill, "gfx1030", &staging).dispatch_count, 4);
    let wide = KernelSettings {
        prefill_half2_128x64: true,
        ..settings()
    };
    assert_eq!(id(prefill, "gfx1030", &wide), 63);
    assert_eq!(id(prefill, "gfx900", &settings()), 60);
    let baseline = KernelSettings {
        prefill_baseline: true,
        prefill_f16_staging: true,
        ..settings()
    };
    assert_eq!(id(prefill, "gfx1030", &baseline), 6);
    let benchmark = KernelSettings {
        benchmark: true,
        ..settings()
    };
    let focused = plan_product(prefill, "gfx1030", &benchmark);
    assert_eq!((focused.warmups, focused.measured), (5, 21));
    let plain = plan_product(decode, "gfx1030", &benchmark);
    assert_eq!((plain.warmups, plain.measured), (3, 10));
}

#[test]
fn product_dispatches_are_held_to_their_plan() {
    let shape = Shape {
        m: 1,
        k: 64,
        n: 31,
    };
    let plan = plan_product(shape, "gfx1030", &settings());
    let dispatch = DispatchEvidence {
        abi_version: 1,
        info_version: 1,
        dispatch_id: 1,
        dispatch_count: 2,
        kernel_id: 6,
        workgroup_size_x: 64,
        grid_size_x: 1,
        row_count: 1,
        normalized_size: 1,
        backend: 1,
        fallback_allowed: false,
        fallback_used: false,
        kernel_symbol: String::new(),
        device_symbol: String::new(),
        target: "gfx1030".to_owned(),
    };
    assert!(check_dispatch(&dispatch, &plan, "gfx1030", "d").is_ok());
    assert_eq!(
        check_dispatch(&dispatch, &plan, "gfx1201", "d"),
        Err("unexpected FP8 dispatch metadata: d".to_owned())
    );
}

#[test]
fn benchmarks_look_at_a_sample() {
    let shape = Shape {
        m: 8,
        k: 1,
        n: 9,
    };
    assert!(sampled(&shape, 5, 5, false));
    let rows: Vec<usize> = (0..8).filter(|row| sampled(&shape, *row, 0, true)).collect();
    assert_eq!(rows, vec![0, 1, 4, 7]);
    let columns: Vec<usize> = (0..9).filter(|column| sampled(&shape, 0, *column, true)).collect();
    assert_eq!(columns, vec![0, 1, 3, 6, 8]);
}

#[test]
fn providers_are_named_by_their_kernels() {
    assert_eq!(provider_name(&[5, 5]), "hipblaslt-native");
    assert_eq!(provider_name(&[]), "gfx1030-software");
    assert_eq!(provider_name(&[71, 70]), "f16-staging-rocblas");
    assert_eq!(provider_name(&[6, 71]), "gfx1030-half2-64x64-k32");
    assert_eq!(provider_name(&[6]), "gfx1030-software");
    assert_eq!(resident_dtype("gfx942"), "e4m3fnuz");
    assert_eq!(resident_dtype("gfx1030"), "e4m3fn");
}

fn arguments(list: &[&str]) -> Vec<String> {
    list.iter().map(|text| text.to_string()).collect()
}

#[test]
fn fp8_arguments_are_a_device_and_a_target() {
    assert_eq!(
        parse_arguments(&arguments(&["1", "gfx942"])),
        Ok((1, "gfx942".to_owned()))
    );
    assert!(parse_arguments(&arguments(&["1"])).unwrap_err().starts_with("usage: "));
    assert_eq!(
        parse_arguments(&arguments(&["x", "gfx942"])),
        Err("device index must be u32".to_owned())
    );
    assert_eq!(
        parse_arguments(&arguments(&["1", "gfx9"])),
        Err("target must be gfx1030, gfx1201, or gfx942".to_owned())
    );
    let config =
        parse_accuracy_arguments(&arguments(&["l", "c", "m", "a", "2", "gfx1201"])).unwrap();
    assert_eq!(config.artifact, "a");
    assert_eq!(config.device_index, 2);
    assert!(parse_accuracy_arguments(&arguments(&["l"])).is_err());
    assert!(parse_accuracy_arguments(&arguments(&["l", "c", "m", "a", "", "t"])).is_err());
}

fn bits(values: &[f32]) -> Vec<u32> {
    values.iter().map(|value| value.to_bits()).collect()
}

#[test]
fn the_last_largest_logit_is_first() {
    assert_eq!(top1(&[]), 0);
    assert_eq!(top1(&bits(&[-1.0, 3.0, 3.0, 2.0])), 2);
    assert_eq!(top1(&bits(&[-0.0, 0.0, -0.0])), 1);
    assert_eq!(case_prompts()[2], vec![127, 128, 129, 255, 256, 257]);
}

#[test]
fn logits_must_be_there_and_finite() {
    assert!(check_logits(Some(&bits(&[1.0]))).is_ok());
    assert_eq!(
        check_logits(None),
        Err("full-model evidence did not publish logits".to_owned())
    );
    assert_eq!(
        check_logits(Some(&bits(&[1.0, f32::INFINITY]))),
        Err("full-model evidence produced non-finite logits".to_owned())
    );
}

#[test]
fn accuracy_needs_every_prompt() {
    assert!(judge_accuracy(&[1, 2], &[1, 2], false, "0.01").is_ok());
    assert_eq!(
        judge_accuracy(&[1, 2], &[1, 3], false, "0.01"),
        Err("full-model FP8 accuracy gate failed: all_top1=false max_kld=0.01".to_owned())
    );
    assert_eq!(
        judge_accuracy(&[1], &[1], true, "0.06"),
        Err("full-model FP8 accuracy gate failed: all_top1=true max_kld=0.06".to_owned())
    );
}
