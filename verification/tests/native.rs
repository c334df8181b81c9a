use sllm_hip::argmax::{
    ArgmaxDescriptor, ArgmaxDispatchInfo, RawArgmaxDispatch,
};
use sllm_hip::attention_preprocess::{
    dispatch_info_from_raw, raw_descriptor, AttentionPreprocessDescriptor,
    RawAttentionPreprocessDispatch, Roles, DISPATCH_INFO_BYTES,
};
use sllm_hip::native::{
    binding_offset, read_c_string, AttentionPreprocessContract, DType, Encoding, HipBackend,
    NativeAbi, PositionMode, RawBinding, RuntimeError, RuntimeStatus, SemanticOpDescriptor,
    SemanticOpKind, TensorBinding, TensorView,
};

fn contiguous(dtype: DType, shape: &[u64]) -> TensorView {
    let mut strides = vec![1; shape.len()];
    for axis in (1..shape.len()).rev() {
        strides[axis - 1] = strides[axis] * shape[axis];
    }
    TensorView {
        dtype,
        encoding: Encoding::Unquantized,
        shape: shape.to_vec(),
        strides,
    }
}

fn bound(buffer: u64, dtype: DType, shape: &[u64]) -> TensorBinding {
    TensorBinding {
        buffer,
        view: contiguous(dtype, shape),
    }
}

fn bindings() -> Roles<TensorBinding> {
    Roles {
        packed_q_gate: bound(1, DType::Bf16, &[3, 16, 512]),
        k: bound(2, DType::Bf16, &[3, 4, 256]),
        q_raw_scale: bound(3, DType::Bf16, &[16, 256]),
        k_raw_scale: bound(4, DType::Bf16, &[4, 256]),
        positions: bound(5, DType::I32, &[3]),
        q_output: bound(6, DType::Bf16, &[3, 16, 256]),
        gate_output: bound(7, DType::Bf16, &[3, 16, 256]),
        k_output: bound(8, DType::Bf16, &[3, 4, 256]),
    }
}

fn contract(start_position: u32) -> AttentionPreprocessContract {
    AttentionPreprocessContract {
        mode: if start_position == 0 {
            PositionMode::Prefill
        } else {
            PositionMode::DecodeContinuation
        },
        start_position,
        token_count: 3,
    }
}

#[test]
fn semantic_lowering_preserves_all_roles_and_explicit_start_position() {
    let descriptor = AttentionPreprocessDescriptor::new(bindings(), contract(0), None)
        .expect("valid attention preprocess descriptor");
    let semantic = descriptor.semantic();
    assert_eq!(semantic.kind, SemanticOpKind::AttentionPreprocess);
    assert_eq!(semantic.inputs.len(), 5);
    assert_eq!(semantic.outputs.len(), 3);
    assert_eq!(semantic.inputs[0].shape, &[3, 16, 512]);
    assert_eq!(semantic.inputs[4].dtype, DType::I32);
    assert_eq!(semantic.outputs[2].shape, &[3, 4, 256]);
    assert_eq!(
        semantic.contract.expect("contract retained").start_position,
        0
    );
}

const BF16: u32 = 7;
const I32: u32 = 3;

fn raw_binding(
    byte_offset: u64,
    rank: u32,
    shape: [u64; 8],
    stride_elements: [u64; 8],
    dtype: u32,
) -> RawBinding {
    RawBinding {
        buffer: 1,
        byte_offset,
        dtype,
        encoding: 0,
        rank,
        shape,
        stride_elements,
    }
}

#[test]
fn raw_abi_fields_and_layout_are_exact() {
    let mut packed_shape = [0; 8];
    packed_shape[..3].copy_from_slice(&[3, 16, 512]);
    let mut packed_stride = [0; 8];
    packed_stride[..3].copy_from_slice(&[8192, 512, 1]);
    let mut k_shape = [0; 8];
    k_shape[..3].copy_from_slice(&[3, 4, 256]);
    let mut k_stride = [0; 8];
    k_stride[..3].copy_from_slice(&[1024, 256, 1]);
    let mut q_scale_shape = [0; 8];
    q_scale_shape[..2].copy_from_slice(&[16, 256]);
    let mut q_scale_stride = [0; 8];
    q_scale_stride[..2].copy_from_slice(&[256, 1]);
    let mut k_scale_shape = [0; 8];
    k_scale_shape[..2].copy_from_slice(&[4, 256]);
    let mut k_scale_stride = [0; 8];
    k_scale_stride[..2].copy_from_slice(&[256, 1]);
    let mut position_shape = [0; 8];
    position_shape[0] = 3;
    let mut position_stride = [0; 8];
    position_stride[0] = 1;
    let abi = NativeAbi {
        abi_version: 4,
        op_version: 2,
    };
    let raw = raw_descriptor(
        contract(257),
        &abi,
        Roles {
            packed_q_gate: raw_binding(8, 3, packed_shape, packed_stride, BF16),
            k: raw_binding(16, 3, k_shape, k_stride, BF16),
            q_raw_scale: raw_binding(24, 2, q_scale_shape, q_scale_stride, BF16),
            k_raw_scale: raw_binding(32, 2, k_scale_shape, k_scale_stride, BF16),
            positions: raw_binding(40, 1, position_shape, position_stride, I32),
            q_output: raw_binding(48, 3, packed_shape, packed_stride, BF16),
            gate_output: raw_binding(56, 3, packed_shape, packed_stride, BF16),
            k_output: raw_binding(64, 3, k_shape, k_stride, BF16),
        },
    );
    assert_eq!(raw.abi_version, abi.abi_version);
    assert_eq!(raw.op_version, abi.op_version);
    assert_eq!(raw.start_position, 257);
    assert_eq!(raw.reserved, [0; 4]);
    assert_eq!(raw.bindings.packed_q_gate.byte_offset, 8);
    assert_eq!(raw.bindings.k.byte_offset, 16);
    assert_eq!(raw.bindings.q_raw_scale.rank, 2);
    assert_eq!(raw.bindings.positions.dtype, I32);
    assert_eq!(raw.bindings.q_output.shape, packed_shape);
    assert_eq!(raw.bindings.k_output.shape, k_shape);
    assert_eq!(raw.struct_size, 1504);
    assert_eq!(binding_offset(0), 32);
    assert_eq!(binding_offset(7), 32 + 7 * 184);
    assert_eq!(DISPATCH_INFO_BYTES, 304);
}

fn name(text: &[u8]) -> Vec<i8> {
    let mut out = vec![0_i8; 64];
    for (destination, source) in out.iter_mut().zip(text) {
        *destination = *source as i8;
    }
    out
}

fn raw_dispatch() -> RawAttentionPreprocessDispatch {
    RawAttentionPreprocessDispatch {
        abi_version: 1,
        info_version: 1,
        backend: 1,
        dispatch_id: 9,
        dispatch_count: 1,
        kernel_id: 1,
        workgroup_size_x: 1,
        grid_size_x: 60,
        m: 3,
        q_heads: 16,
        k_heads: 4,
        q_head_dim: 256,
        k_head_dim: 256,
        rotary_dim: 64,
        start_position: 257,
        fallback_allowed: 0,
        fallback_used: 0,
        kernel_symbol: name(b"test"),
        device_symbol: name(b"device"),
        gcn_arch_name: name(b"gfx1201"),
    }
}

#[test]
fn dispatch_info_maps_all_native_fields() {
    let mapped = dispatch_info_from_raw(&raw_dispatch());
    assert_eq!(mapped.m, 3);
    assert_eq!(mapped.start_position, 257);
    assert_eq!(mapped.kernel_symbol, "test");
    assert_eq!(mapped.device_symbol, "device");
    assert_eq!(mapped.gcn_arch_name, "gfx1201");
    assert!(!mapped.fallback_allowed);
    assert!(!mapped.fallback_used);
}

#[test]
fn names_end_at_the_first_zero_byte() {
    assert_eq!(read_c_string(&[104, 105, 0, 120]), "hi");
    assert_eq!(read_c_string(&[104, 105]), "hi");
    assert_eq!(read_c_string(&[0]), "");
    assert_eq!(read_c_string(&[-23]), "\u{e9}");
}

#[test]
fn a_failed_release_keeps_the_whole_owner_graph() {
    let descriptor = AttentionPreprocessDescriptor::new(bindings(), contract(0), None).unwrap();
    let prepared = HipBackend
        .prepare_attention_preprocess(11, descriptor, Ok(()), Some(77))
        .unwrap();
    let (submission, info) = prepared.execute(Ok(()), Some(5), &raw_dispatch()).unwrap();
    assert_eq!(submission.completion, 5);
    assert_eq!(submission.plan, 77);
    assert_eq!(submission.buffer, 1);
    assert_eq!(info.dispatch_id, 9);
    let cleanup = prepared
        .release(RuntimeStatus::InternalError, Some(77))
        .expect("the plan was not consumed");
    assert_eq!(cleanup.plan, 77);
    assert_eq!(cleanup.context, 11);
    assert_eq!(cleanup.descriptor.bindings.k.buffer, 2);
    let descriptor = AttentionPreprocessDescriptor::new(bindings(), contract(0), None).unwrap();
    let prepared = HipBackend
        .prepare_attention_preprocess(11, descriptor, Ok(()), Some(77))
        .unwrap();
    assert!(prepared.release(RuntimeStatus::InternalError, None).is_none());
}

#[test]
fn native_success_without_a_handle_is_an_internal_error() {
    let descriptor = AttentionPreprocessDescriptor::new(bindings(), contract(0), None).unwrap();
    let error = HipBackend
        .prepare_attention_preprocess(11, descriptor, Ok(()), None)
        .unwrap_err();
    assert_eq!(error.status, RuntimeStatus::InternalError);
    assert_eq!(
        error.message,
        "native attention preprocess prepare returned a null plan on success"
    );
    let descriptor = AttentionPreprocessDescriptor::new(bindings(), contract(0), None).unwrap();
    let refused = RuntimeError {
        status: RuntimeStatus::Native(0x11a),
        message: "positions".to_owned(),
    };
    let error = HipBackend
        .prepare_attention_preprocess(11, descriptor, Err(refused), Some(1))
        .unwrap_err();
    assert_eq!(error.status, RuntimeStatus::Native(0x11a));
}

#[test]
fn bound_tensors_must_be_those_of_the_operation() {
    let descriptor = AttentionPreprocessDescriptor::new(bindings(), contract(0), None).unwrap();
    assert!(AttentionPreprocessDescriptor::from_validated_semantic(
        descriptor.semantic,
        bindings(),
        None
    )
    .is_ok());
    let descriptor = AttentionPreprocessDescriptor::new(bindings(), contract(0), None).unwrap();
    let error = AttentionPreprocessDescriptor::from_validated_semantic(
        descriptor.semantic,
        Roles {
            k: bound(2, DType::Bf16, &[3, 4, 255]),
            ..bindings()
        },
        None,
    )
    .unwrap_err();
    assert_eq!(
        error.message,
        "bound HIP input tensor views differ from the core semantic descriptor"
    );
    let descriptor = AttentionPreprocessDescriptor::new(bindings(), contract(0), None).unwrap();
    let error = AttentionPreprocessDescriptor::from_validated_semantic(
        descriptor.semantic,
        Roles {
            k_output: bound(8, DType::I32, &[3, 4, 256]),
            ..bindings()
        },
        None,
    )
    .unwrap_err();
    assert_eq!(
        error.message,
        "bound HIP output tensor views differ from the core semantic descriptor"
    );
    let bare = SemanticOpDescriptor {
        kind: SemanticOpKind::Argmax,
        inputs: vec![],
        outputs: vec![],
        contract: None,
    };
    let error =
        AttentionPreprocessDescriptor::from_validated_semantic(bare, bindings(), None).unwrap_err();
    assert_eq!(
        error.message,
        "semantic descriptor is not a canonical attention preprocess operation"
    );
    let descriptor = AttentionPreprocessDescriptor::new(bindings(), contract(0), None).unwrap();
    let error = AttentionPreprocessDescriptor::from_validated_semantic(
        descriptor.semantic,
        bindings(),
        Some("rank".to_owned()),
    )
    .unwrap_err();
    assert_eq!(
        error.message,
        "invalid validated attention preprocess descriptor: rank"
    );
    assert_eq!(error.status, RuntimeStatus::InvalidAttentionPreprocessDescriptor);
    assert_eq!(
        AttentionPreprocessDescriptor::new(bindings(), contract(0), Some("bad".to_owned()))
            .unwrap_err(),
        "bad"
    );
}

fn quantized(binding: TensorBinding) -> TensorBinding {
    TensorBinding {
        view: TensorView {
            encoding: Encoding::Other(1),
            ..binding.view
        },
        ..binding
    }
}

#[test]
fn bound_tensors_must_have_the_encoding_of_the_operation() {
    let descriptor = AttentionPreprocessDescriptor::new(bindings(), contract(0), None).unwrap();
    let roles = bindings();
    let error = AttentionPreprocessDescriptor::from_validated_semantic(
        descriptor.semantic,
        Roles {
            k: quantized(roles.k),
            ..roles
        },
        None,
    )
    .unwrap_err();
    assert_eq!(
        error.message,
        "bound HIP input tensor views differ from the core semantic descriptor"
    );
    let (logits, output) = argmax_bindings();
    let descriptor = ArgmaxDescriptor::new(logits, output, None).unwrap();
    let (logits, output) = argmax_bindings();
    let error = ArgmaxDescriptor::from_validated_semantic(
        descriptor.semantic,
        quantized(logits),
        output,
        None,
    )
    .unwrap_err();
    assert_eq!(
        error.message,
        "bound HIP tensor views differ from the core argmax descriptor"
    );
}

fn raw_ok() -> Result<RawBinding, RuntimeError> {
    Ok(raw_binding(0, 1, [0; 8], [0; 8], BF16))
}

#[test]
fn the_first_unbound_tensor_is_reported() {
    let abi = NativeAbi {
        abi_version: 4,
        op_version: 2,
    };
    let roles = || Roles {
        packed_q_gate: raw_ok(),
        k: raw_ok(),
        q_raw_scale: raw_ok(),
        k_raw_scale: raw_ok(),
        positions: raw_ok(),
        q_output: raw_ok(),
        gate_output: raw_ok(),
        k_output: raw_ok(),
    };
    let descriptor = AttentionPreprocessDescriptor::new(bindings(), contract(9), None).unwrap();
    assert_eq!(descriptor.raw(&abi, roles()).unwrap().start_position, 9);
    let refused = Roles {
        positions: Err(RuntimeError {
            status: RuntimeStatus::InternalError,
            message: "released".to_owned(),
        }),
        ..roles()
    };
    assert_eq!(descriptor.raw(&abi, refused).unwrap_err().message, "released");
    let bare = AttentionPreprocessDescriptor {
        semantic: SemanticOpDescriptor {
            contract: None,
            ..descriptor.semantic
        },
        bindings: descriptor.bindings,
    };
    assert_eq!(
        bare.raw(&abi, roles()).unwrap_err().message,
        "attention preprocess contract is absent"
    );
}

fn argmax_bindings() -> (TensorBinding, TensorBinding) {
    (bound(1, DType::Bf16, &[2, 100]), bound(2, DType::I32, &[2]))
}

#[test]
fn argmax_binds_its_two_tensors() {
    let (logits, output) = argmax_bindings();
    let descriptor = ArgmaxDescriptor::new(logits, output, None).unwrap();
    assert_eq!(descriptor.semantic().kind, SemanticOpKind::Argmax);
    assert_eq!(descriptor.semantic().inputs[0].shape, vec![2, 100]);
    let abi = NativeAbi {
        abi_version: 4,
        op_version: 2,
    };
    assert_eq!(descriptor.raw(&abi, raw_ok(), raw_ok()).unwrap().struct_size, 32 + 2 * 184);
    let (logits, _) = argmax_bindings();
    let error = ArgmaxDescriptor::from_validated_semantic(
        descriptor.semantic,
        logits,
        bound(2, DType::I32, &[3]),
        None,
    )
    .unwrap_err();
    assert_eq!(error.status, RuntimeStatus::InvalidArgmaxDescriptor);
    assert_eq!(
        error.message,
        "bound HIP tensor views differ from the core argmax descriptor"
    );
}

#[test]
fn argmax_reports_its_dispatch() {
    let (logits, output) = argmax_bindings();
    let descriptor = ArgmaxDescriptor::new(logits, output, None).unwrap();
    let prepared = HipBackend.prepare_argmax(3, descriptor, Ok(()), Some(4)).unwrap();
    let info = RawArgmaxDispatch {
        abi_version: 1,
        info_version: 1,
        backend: 1,
        dispatch_id: 2,
        dispatch_count: 1,
        kernel_id: 6,
        workgroup_size_x: 256,
        grid_size_x: 2,
        row_count: 2,
        vocab_size: 100,
        fallback_allowed: 1,
        fallback_used: 0,
        kernel_symbol: name(b"argmax"),
        device_symbol: name(b"d"),
        gcn_arch_name: name(b"gfx1030"),
    };
    let (submission, report) = prepared.execute(Ok(()), Some(8), &info).unwrap();
    assert_eq!(submission.completion, 8);
    assert_eq!(
        report,
        ArgmaxDispatchInfo {
            abi_version: 1,
            info_version: 1,
            dispatch_id: 2,
            dispatch_count: 1,
            kernel_id: 6,
            workgroup_size_x: 256,
            grid_size_x: 2,
            row_count: 2,
            vocab_size: 100,
            backend: 1,
            fallback_allowed: true,
            fallback_used: false,
            kernel_symbol: "argmax".to_owned(),
            device_symbol: "d".to_owned(),
            gcn_arch_name: "gfx1030".to_owned(),
        }
    );
    assert_eq!(
        prepared.execute(Ok(()), None, &info).unwrap_err().message,
        "native argmax execute returned a null completion on success"
    );
    assert!(prepared.release(RuntimeStatus::InternalError, None).is_none());
}
