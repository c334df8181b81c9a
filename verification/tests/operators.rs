use sllm_hip::audit::{CleanupCounts, DispatchEvidence};
use sllm_hip::device_args::{
    parse_device_config, parse_embedding_config, DeviceTool,
};
use sllm_hip::elementwise::{
    case_inputs, check_result, dispatch_grid_size, make_inputs, planned_cases, validate_dispatch,
    ElementwiseKind, EMBEDDING_SCALE, SILU_BOUNDARY_GATE, SILU_BOUNDARY_UP,
};
use sllm_hip::embedding::{
    check_rows, check_table, expected_rows, i32_bytes, negative_token_rejected, synthetic_weight,
    NegativeSubmission,
};
use sllm_hip::number::{bf16_to_f32, float_to_bf16_rne};
use sllm_hip::session::{check_released, wait_ok, wait_success, DeviceState};
use sllm_hip::transfer::{case_id, case_input, check_case, check_transfer_limit};

fn arguments(list: &[&str]) -> Vec<String> {
    list.iter().map(|text| text.to_string()).collect()
}

#[test]
fn dispatch_grid_is_exact_at_workgroup_boundaries() {
    assert_eq!(dispatch_grid_size(1), Ok(1));
    assert_eq!(dispatch_grid_size(255), Ok(1));
    assert_eq!(dispatch_grid_size(256), Ok(1));
    assert_eq!(dispatch_grid_size(257), Ok(2));
}

#[test]
fn grids_must_fit_their_field() {
    assert_eq!(dispatch_grid_size(0), Ok(0));
    assert_eq!(
        dispatch_grid_size(usize::MAX),
        Err("grid size does not fit u32".to_owned())
    );
}

fn round(value: f32) -> u16 {
    float_to_bf16_rne(value.to_bits())
}

#[test]
fn elementwise_inputs_are_those_of_single_precision_arithmetic() {
    let (left, right) = make_inputs(2_560);
    for index in 3..2_560 {
        let first = ((index * 37 + 11) % 503) as f32 / 31.0 - 8.0;
        let second = ((index * 19 + 7) % 257) as f32 / 47.0 - 2.0;
        assert_eq!(left[index], round(first), "left {index}");
        assert_eq!(right[index], round(second), "right {index}");
    }
    assert_eq!(&left[..3], &[0x7f80, 0x7fc1, 0x8000]);
    assert_eq!(&right[..3], &[0xff80, 0x3f80, 0x0000]);
    let (short, _) = make_inputs(1);
    assert_eq!(short, vec![round(11.0 / 31.0 - 8.0)]);
}

#[test]
fn operations_get_the_inputs_they_take() {
    let (_, scale) = case_inputs(ElementwiseKind::ScalarMul, 17);
    assert_eq!(scale, vec![EMBEDDING_SCALE]);
    assert_eq!(EMBEDDING_SCALE, round(3840.0_f32.sqrt()));
    let (_, cap) = case_inputs(ElementwiseKind::TanhSoftcap, 17);
    assert_eq!(cap, vec![round(30.0)]);
    let (first, second) = case_inputs(ElementwiseKind::SiluMul, 17);
    assert_eq!(first[3], SILU_BOUNDARY_GATE);
    assert_eq!(second[3], SILU_BOUNDARY_UP);
    let (left, right) = case_inputs(ElementwiseKind::Add, 3);
    assert_eq!(left, vec![0x7f80, 0xff80, 0x8000]);
    assert_eq!(right, vec![0x3f80, 0xbf80, 0x0000]);
}

fn widen(word: u16) -> f32 {
    f32::from_bits(bf16_to_f32(word))
}

fn silu(first: u16) -> f32 {
    let value = widen(first);
    value / (1.0 + (-value).exp())
}

fn silu_mul_bf16_intermediate(first: u16, second: u16) -> u16 {
    round(widen(round(silu(first))) * widen(second))
}

fn silu_mul_f32_fused(first: u16, second: u16) -> u16 {
    round(silu(first) * widen(second))
}

#[test]
fn silu_oracle_requires_the_bf16_intermediate_boundary() {
    let fused = silu_mul_f32_fused(SILU_BOUNDARY_GATE, SILU_BOUNDARY_UP);
    let corrected = silu_mul_bf16_intermediate(SILU_BOUNDARY_GATE, SILU_BOUNDARY_UP);

    assert_ne!(fused, corrected);
    assert_eq!(corrected, silu_mul_bf16_intermediate(0xc100, 0xc0fe));
}

#[test]
fn the_run_crosses_sizes_and_operations() {
    let plain = planned_cases(false);
    assert_eq!(plain.len(), 21);
    assert_eq!(plain[0], (1, ElementwiseKind::Copy));
    assert_eq!(plain[20], (2_560, ElementwiseKind::SiluMul));
    let gemma = planned_cases(true);
    assert_eq!(gemma.len(), 30);
    assert_eq!(gemma[29], (262_144, ElementwiseKind::TanhSoftcap));
    assert!(ElementwiseKind::TanhSoftcap.takes_scalar());
    assert!(!ElementwiseKind::Add.takes_scalar());
}

fn dispatch(kernel_id: u32, kernel: &str, device: &str, grid: u32, rows: u64, width: u64) -> DispatchEvidence {
    DispatchEvidence {
        abi_version: 1,
        info_version: 1,
        dispatch_id: 9,
        dispatch_count: 1,
        kernel_id,
        workgroup_size_x: 256,
        grid_size_x: grid,
        row_count: rows,
        normalized_size: width,
        backend: 1,
        fallback_allowed: false,
        fallback_used: false,
        kernel_symbol: kernel.to_owned(),
        device_symbol: device.to_owned(),
        target: "gfx1030".to_owned(),
    }
}

#[test]
fn elementwise_dispatches_are_held_to_their_kernel() {
    let good = dispatch(
        3,
        "elementwise.silu_mul.bf16_fp32.v1",
        "sllm_elementwise_silu_mul_bf16_fp32_v1",
        2,
        1,
        257,
    );
    assert!(validate_dispatch(&good, ElementwiseKind::SiluMul, "silu_mul", 257, "gfx1030").is_ok());
    assert_eq!(
        validate_dispatch(&good, ElementwiseKind::Add, "add", 257, "gfx1030"),
        Err("add dispatch metadata violated the exact contract".to_owned())
    );
    assert_eq!(
        validate_dispatch(&good, ElementwiseKind::Other, "matmul", 257, "gfx1030"),
        Err("evidence received a non-elementwise operation".to_owned())
    );
    assert_eq!(
        validate_dispatch(&good, ElementwiseKind::SiluMul, "silu_mul", usize::MAX, "gfx1030"),
        Err("grid size does not fit u32".to_owned())
    );
}

#[test]
fn elementwise_results_are_compared_byte_for_byte() {
    let expected = [0x3f80, 0x4000];
    let bytes = [0x80, 0x3f, 0x00, 0x40];
    assert!(check_result(ElementwiseKind::Copy, "copy", 2, &expected, &[], &bytes).is_ok());
    assert_eq!(
        check_result(ElementwiseKind::Copy, "copy", 2, &expected, &[], &bytes[..2]),
        Err("copy numerical oracle mismatch at 2 elements".to_owned())
    );
    let four = [1, 2, 3, 4];
    assert_eq!(
        check_result(ElementwiseKind::SiluMul, "silu_mul", 4, &four, &four, &[]),
        Err(
            "silu_mul oracle did not exercise the BF16 intermediate boundary at 4 elements"
                .to_owned()
        )
    );
}

#[test]
fn device_arguments_are_read_once_each() {
    let config = parse_device_config(
        DeviceTool::Elementwise,
        &arguments(&["--target", "gfx942", "--gemma-ops", "--device-index", "3"]),
    )
    .unwrap();
    assert_eq!(config.device_index, 3);
    assert_eq!(config.target, "gfx942");
    assert!(config.gemma_ops);
    let refused = |tool, list: &[&str]| parse_device_config(tool, &arguments(list)).unwrap_err();
    assert_eq!(
        refused(DeviceTool::Transfer, &["--target", "gfx942"]),
        "--target must be gfx1030 or gfx1201"
    );
    assert_eq!(
        refused(DeviceTool::AttentionPreprocess, &["--target", "gfx9"]),
        "--target must be the exact gfx1030, gfx1201, or gfx942 target"
    );
    assert_eq!(
        refused(DeviceTool::Elementwise, &["--target", "gfx9"]),
        "--target must be gfx1030, gfx1201, or gfx942"
    );
    assert_eq!(
        refused(DeviceTool::Transfer, &["--gemma-ops"]),
        "unexpected argument `--gemma-ops`"
    );
    assert_eq!(
        refused(DeviceTool::Elementwise, &["--gemma-ops", "--gemma-ops"]),
        "duplicate --gemma-ops"
    );
    assert_eq!(
        refused(DeviceTool::Transfer, &["--device-index"]),
        "--device-index requires a value"
    );
    assert_eq!(
        refused(DeviceTool::Transfer, &["--device-index", "-1"]),
        "--device-index must be a u32"
    );
    assert_eq!(
        refused(DeviceTool::Transfer, &["--device-index", "1", "--device-index", "1"]),
        "duplicate --device-index"
    );
    assert_eq!(
        refused(DeviceTool::Transfer, &["--target", "gfx1030", "--target", "gfx1030"]),
        "duplicate --target"
    );
    assert_eq!(refused(DeviceTool::Transfer, &["--target"]), "--target requires a value");
    assert_eq!(
        refused(DeviceTool::Transfer, &["--target", "gfx1030"]),
        "missing --device-index"
    );
    assert_eq!(refused(DeviceTool::Transfer, &["--device-index", "0"]), "missing --target");
}

#[test]
fn embedding_arguments_come_in_pairs_and_may_be_repeated() {
    let list = [
        "--device-index",
        "0",
        "--target",
        "gfx1030",
        "--weight-shard",
        "/w",
        "--weight-offset",
        "18446744073709551615",
        "--device-index",
        "2",
    ];
    let config = parse_embedding_config(&arguments(&list)).unwrap();
    assert_eq!(config.device_index, 2);
    assert_eq!(config.weight_shard, "/w");
    assert_eq!(config.weight_offset, u64::MAX);
    let refused = |list: &[&str]| parse_embedding_config(&arguments(list)).unwrap_err();
    assert_eq!(refused(&["--target"]), "--target requires a value");
    assert_eq!(refused(&["--target", "gfx942"]), "--target must be gfx1030 or gfx1201");
    assert_eq!(refused(&["--weight-offset", "x"]), "--weight-offset must be a u64");
    assert_eq!(refused(&["--device-index", "x"]), "--device-index must be a u32");
    assert_eq!(refused(&["--other", "x"]), "unexpected argument `--other`");
    assert_eq!(refused(&[]), "missing --device-index");
    assert_eq!(refused(&list[..2]), "missing --target");
    assert_eq!(refused(&list[..4]), "missing --weight-shard");
    assert_eq!(refused(&list[..6]), "missing --weight-offset");
}

#[test]
fn device_work_must_end_in_success() {
    assert!(wait_success(Ok(DeviceState::Success), "copy").is_ok());
    assert_eq!(
        wait_success(Err("lost"), "copy"),
        Err("copy failed: lost".to_owned())
    );
    assert_eq!(
        wait_success(Ok(DeviceState::Pending), "copy"),
        Err("copy remained pending".to_owned())
    );
    assert_eq!(
        wait_success(Ok(DeviceState::Failure), "copy"),
        Err("copy reported failure".to_owned())
    );
    assert!(wait_ok(Ok(DeviceState::Success), "matmul").is_ok());
    assert_eq!(
        wait_ok(Ok(DeviceState::Pending), "matmul"),
        Err("matmul: unexpected state Pending".to_owned())
    );
    assert_eq!(
        wait_ok(Ok(DeviceState::Failure), "matmul"),
        Err("matmul: unexpected state Failure".to_owned())
    );
    assert_eq!(wait_ok(Err("lost"), "matmul"), Err("matmul: lost".to_owned()));
    let clean = CleanupCounts {
        retryable_cleanup: 0,
        durable_quarantine: 0,
    };
    let held = CleanupCounts {
        retryable_cleanup: 1,
        durable_quarantine: 0,
    };
    assert!(check_released(&clean, "held").is_ok());
    assert_eq!(check_released(&held, "held"), Err("held".to_owned()));
}

#[test]
fn synthetic_tables_hold_truncated_products() {
    let table = synthetic_weight(5, 2_560);
    assert_eq!(table.len(), 2 * 5 * 2_560);
    for index in [0_usize, 1, 2_000, 12_799] {
        let word = u16::from_le_bytes([table[2 * index], table[2 * index + 1]]);
        assert_eq!(word, (index * 37 + 11) as u16);
    }
    assert_eq!(i32_bytes(&[-1, 258]), vec![255, 255, 255, 255, 2, 1, 0, 0]);
}

#[test]
fn gathers_copy_the_named_rows() {
    let cases = sllm_hip::embedding::planned_cases();
    assert_eq!(cases.len(), 8);
    assert_eq!(cases[7].ids, vec![2, 0, 2]);
    assert!(!cases[7].synthetic);
    let table = [1, 2, 3, 4, 5, 6, 7, 8];
    assert_eq!(expected_rows(&table, &[1, 0, 1], 2), Ok(vec![5, 6, 7, 8, 1, 2, 3, 4, 5, 6, 7, 8]));
    assert_eq!(
        expected_rows(&table, &[1, -1], 2),
        Err("negative oracle ID".to_owned())
    );
    assert!(check_table(2, 2, 8).is_ok());
    assert_eq!(
        check_table(2, 2, 7),
        Err("embedding weight bytes do not match shape".to_owned())
    );
    assert_eq!(
        check_table(usize::MAX, 2, 7),
        Err("embedding weight size overflow".to_owned())
    );
    assert!(check_rows(&[1, 2], &[1, 2], 2, 1).is_ok());
    assert_eq!(
        check_rows(&[1, 2], &[1, 2], 1, 1),
        Err("embedding output byte count mismatch".to_owned())
    );
    assert_eq!(
        check_rows(&[1, 2], &[1, 3], 2, 1),
        Err("embedding byte oracle mismatch for hidden=1".to_owned())
    );
    let good = dispatch(
        1,
        "embedding.gather.bf16_i32.v1",
        "sllm_embedding_gather_bf16_i32_v1",
        4,
        3,
        257,
    );
    assert!(sllm_hip::embedding::validate_dispatch(&good, 3, 257, "gfx1030").is_ok());
    assert_eq!(
        sllm_hip::embedding::validate_dispatch(&good, 3, 256, "gfx1030"),
        Err("embedding dispatch metadata violated the exact contract".to_owned())
    );
}

#[test]
fn negative_identifiers_are_refused_before_dispatch() {
    assert_eq!(
        negative_token_rejected(NegativeSubmission::BackendStatus(0x117), "range"),
        Ok(true)
    );
    assert_eq!(
        negative_token_rejected(NegativeSubmission::BackendStatus(0x118), "range"),
        Err("negative token returned the wrong error: range".to_owned())
    );
    assert_eq!(
        negative_token_rejected(NegativeSubmission::OtherError, "lost"),
        Err("negative token returned the wrong error: lost".to_owned())
    );
    assert_eq!(
        negative_token_rejected(NegativeSubmission::Accepted, ""),
        Err("negative token unexpectedly dispatched".to_owned())
    );
}

#[test]
fn transfers_come_back_as_they_were() {
    let cases = sllm_hip::transfer::planned_cases();
    assert_eq!(cases.len(), 6);
    assert_eq!(cases[5].offset, 16);
    assert_eq!(cases[5].allocation, 16 + 257 + 1);
    let input = case_input(2, 17);
    assert_eq!(input[3], ((3 * 37 + 2 * 19 + 11) % 251) as u8);
    assert!(check_case(2, &input, 17, &input).is_ok());
    assert_eq!(
        check_case(2, &input, 16, &input),
        Err("case 2 byte-exact comparison failed".to_owned())
    );
    assert_eq!(case_id(257), "bytes-257");
    assert!(check_transfer_limit(1 << 30).is_ok());
    assert!(check_transfer_limit(1 << 29).is_err());
}
