//! Attention preprocessing: its descriptor, its prepared plan, and what a dispatch reports.
use crate::native::{
    binding_offset, c_text, checked_handle, handle_refusal, read_c_string, shapes_of,
    AttentionPreprocessContract, HipBackend, NativeAbi, RawBinding, RuntimeError, RuntimeStatus,
    SemanticOpDescriptor, SemanticOpKind, TensorBinding, TensorShape, TensorView, BINDING_BYTES,
    DESCRIPTOR_HEADER_BYTES,
};
use vstd::prelude::*;

verus! {

/// One value for each tensor of the operation.
#[derive(Debug)]
pub struct Roles<T> {
    pub packed_q_gate: T,
    pub k: T,
    pub q_raw_scale: T,
    pub k_raw_scale: T,
    pub positions: T,
    pub q_output: T,
    pub gate_output: T,
    pub k_output: T,
}

/// The number of tensors of the operation.
pub const ROLES: u8 = 8;

/// What the input tensors of the operation look like, in order.
pub open spec fn input_shapes(bindings: Roles<TensorBinding>) -> Seq<TensorShape> {
    seq![
        bindings.packed_q_gate.view@,
        bindings.k.view@,
        bindings.q_raw_scale.view@,
        bindings.k_raw_scale.view@,
        bindings.positions.view@,
    ]
}

/// What the output tensors of the operation look like, in order.
pub open spec fn output_shapes(bindings: Roles<TensorBinding>) -> Seq<TensorShape> {
    seq![bindings.q_output.view@, bindings.gate_output.view@, bindings.k_output.view@]
}

/// Whether an operation is an attention preprocess of five tensors into three.
pub open spec fn is_canonical_preprocess(semantic: SemanticOpDescriptor) -> bool {
    &&& semantic.kind == SemanticOpKind::AttentionPreprocess
    &&& semantic.inputs@.len() == 5
    &&& semantic.outputs@.len() == 3
}

/// Why an operation and its bindings do not make an attention preprocess.
pub open spec fn preprocess_refusal(
    semantic: SemanticOpDescriptor,
    bindings: Roles<TensorBinding>,
    invalid: Option<String>,
) -> Option<Seq<char>> {
    if invalid is Some {
        Some("invalid validated attention preprocess descriptor: "@ + invalid->Some_0@)
    } else if !is_canonical_preprocess(semantic) {
        Some("semantic descriptor is not a canonical attention preprocess operation"@)
    } else if shapes_of(semantic.inputs@) != input_shapes(bindings) {
        Some("bound HIP input tensor views differ from the core semantic descriptor"@)
    } else if shapes_of(semantic.outputs@) != output_shapes(bindings) {
        Some("bound HIP output tensor views differ from the core semantic descriptor"@)
    } else {
        None
    }
}

/// An attention preprocess over bound tensors.
#[derive(Debug)]
pub struct AttentionPreprocessDescriptor {
    pub bindings: Roles<TensorBinding>,
    pub semantic: SemanticOpDescriptor,
}

/// An attention preprocess as the native library reads it.
#[derive(Debug)]
pub struct RawAttentionPreprocess {
    pub struct_size: u32,
    pub abi_version: u32,
    pub op_version: u32,
    pub start_position: u32,
    pub reserved: [u32; 4],
    pub bindings: Roles<RawBinding>,
}

fn same_inputs(bindings: &Roles<TensorBinding>, views: &Vec<TensorView>) -> (out: bool)
    requires
        views@.len() == 5,
    ensures
        out == (shapes_of(views@) == input_shapes(*bindings)),
{
    let out = bindings.packed_q_gate.view.same(&views[0]) && bindings.k.view.same(&views[1])
        && bindings.q_raw_scale.view.same(&views[2]) && bindings.k_raw_scale.view.same(&views[3])
        && bindings.positions.view.same(&views[4]);
    proof {
        let shapes = shapes_of(views@);
        if out {
            assert(shapes =~= input_shapes(*bindings));
        } else {
            assert(shapes[0] == views@[0]@ && shapes[1] == views@[1]@ && shapes[2] == views@[2]@
                && shapes[3] == views@[3]@ && shapes[4] == views@[4]@);
        }
    }
    out
}

fn same_outputs(bindings: &Roles<TensorBinding>, views: &Vec<TensorView>) -> (out: bool)
    requires
        views@.len() == 3,
    ensures
        out == (shapes_of(views@) == output_shapes(*bindings)),
{
    let out = bindings.q_output.view.same(&views[0]) && bindings.gate_output.view.same(&views[1])
        && bindings.k_output.view.same(&views[2]);
    proof {
        let shapes = shapes_of(views@);
        if out {
            assert(shapes =~= output_shapes(*bindings));
        } else {
            assert(shapes[0] == views@[0]@ && shapes[1] == views@[1]@ && shapes[2] == views@[2]@);
        }
    }
    out
}

/// The bindings of a native descriptor, or the error of the first that has one.
pub open spec fn first_binding_error(bindings: Roles<Result<RawBinding, RuntimeError>>) -> Option<
    RuntimeError,
> {
    if bindings.packed_q_gate is Err {
        Some(bindings.packed_q_gate->Err_0)
    } else if bindings.k is Err {
        Some(bindings.k->Err_0)
    } else if bindings.q_raw_scale is Err {
        Some(bindings.q_raw_scale->Err_0)
    } else if bindings.k_raw_scale is Err {
        Some(bindings.k_raw_scale->Err_0)
    } else if bindings.positions is Err {
        Some(bindings.positions->Err_0)
    } else if bindings.q_output is Err {
        Some(bindings.q_output->Err_0)
    } else if bindings.gate_output is Err {
        Some(bindings.gate_output->Err_0)
    } else if bindings.k_output is Err {
        Some(bindings.k_output->Err_0)
    } else {
        None
    }
}

/// The bindings of a native descriptor, where each has one.
pub open spec fn all_bindings(bindings: Roles<Result<RawBinding, RuntimeError>>) -> Roles<
    RawBinding,
> {
    Roles {
        packed_q_gate: bindings.packed_q_gate->Ok_0,
        k: bindings.k->Ok_0,
        q_raw_scale: bindings.q_raw_scale->Ok_0,
        k_raw_scale: bindings.k_raw_scale->Ok_0,
        positions: bindings.positions->Ok_0,
        q_output: bindings.q_output->Ok_0,
        gate_output: bindings.gate_output->Ok_0,
        k_output: bindings.k_output->Ok_0,
    }
}

fn collect_bindings(bindings: Roles<Result<RawBinding, RuntimeError>>) -> (out: Result<
    Roles<RawBinding>,
    RuntimeError,
>)
    ensures
        match first_binding_error(bindings) {
            Some(error) => out is Err && out->Err_0 == error,
            None => out is Ok && out->Ok_0 == all_bindings(bindings),
        },
{
    let packed_q_gate = match bindings.packed_q_gate {
        Ok(binding) => binding,
        Err(error) => {
            return Err(error);
        },
    };
    let k = match bindings.k {
        Ok(binding) => binding,
        Err(error) => {
            return Err(error);
        },
    };
    let q_raw_scale = match bindings.q_raw_scale {
        Ok(binding) => binding,
        Err(error) => {
            return Err(error);
        },
    };
    let k_raw_scale = match bindings.k_raw_scale {
        Ok(binding) => binding,
        Err(error) => {
            return Err(error);
        },
    };
    let positions = match bindings.positions {
        Ok(binding) => binding,
        Err(error) => {
            return Err(error);
        },
    };
    let q_output = match bindings.q_output {
        Ok(binding) => binding,
        Err(error) => {
            return Err(error);
        },
    };
    let gate_output = match bindings.gate_output {
        Ok(binding) => binding,
        Err(error) => {
            return Err(error);
        },
    };
    let k_output = match bindings.k_output {
        Ok(binding) => binding,
        Err(error) => {
            return Err(error);
        },
    };
    Ok(
        Roles {
            packed_q_gate,
            k,
            q_raw_scale,
            k_raw_scale,
            positions,
            q_output,
            gate_output,
            k_output,
        },
    )
}

/// The descriptor of an operation for the native library.
pub fn raw_descriptor(
    contract: AttentionPreprocessContract,
    abi: &NativeAbi,
    bindings: Roles<RawBinding>,
) -> (out: RawAttentionPreprocess)
    ensures
        out.struct_size == DESCRIPTOR_HEADER_BYTES + ROLES * BINDING_BYTES,
        out.abi_version == abi.abi_version,
        out.op_version == abi.op_version,
        out.start_position == contract.start_position,
        out.reserved@ == seq![0u32, 0, 0, 0],
        out.bindings == bindings,
{
    let reserved: [u32; 4] = [0, 0, 0, 0];
    assert(reserved@ =~= seq![0u32, 0, 0, 0]);
    RawAttentionPreprocess {
        struct_size: binding_offset(ROLES),
        abi_version: abi.abi_version,
        op_version: abi.op_version,
        start_position: contract.start_position,
        reserved,
        bindings,
    }
}

impl AttentionPreprocessDescriptor {
    /// The bound tensors are those of the operation.
    pub open spec fn wf(self) -> bool {
        &&& is_canonical_preprocess(self.semantic)
        &&& shapes_of(self.semantic.inputs@) == input_shapes(self.bindings)
        &&& shapes_of(self.semantic.outputs@) == output_shapes(self.bindings)
    }

    /// The operation that eight bindings make up, if it is a valid one. `invalid` says what the
    /// operation checks found wrong with the views and the contract.
    pub fn new(
        bindings: Roles<TensorBinding>,
        contract: AttentionPreprocessContract,
        invalid: Option<String>,
    ) -> (out: Result<AttentionPreprocessDescriptor, String>)
        ensures
            match invalid {
                Some(error) => out is Err && out->Err_0@ == error@,
                None => {
                    &&& out is Ok
                    &&& out->Ok_0.wf()
                    &&& out->Ok_0.bindings == bindings
                    &&& out->Ok_0.semantic.contract == Some(contract)
                },
            },
    {
        match invalid {
            Some(error) => {
                return Err(error);
            },
            None => {},
        }
        let mut inputs = Vec::new();
        inputs.push(bindings.packed_q_gate.view.copy());
        inputs.push(bindings.k.view.copy());
        inputs.push(bindings.q_raw_scale.view.copy());
        inputs.push(bindings.k_raw_scale.view.copy());
        inputs.push(bindings.positions.view.copy());
        let mut outputs = Vec::new();
        outputs.push(bindings.q_output.view.copy());
        outputs.push(bindings.gate_output.view.copy());
        outputs.push(bindings.k_output.view.copy());
        assert(shapes_of(inputs@) =~= input_shapes(bindings));
        assert(shapes_of(outputs@) =~= output_shapes(bindings));
        Ok(
            AttentionPreprocessDescriptor {
                bindings,
                semantic: SemanticOpDescriptor {
                    kind: SemanticOpKind::AttentionPreprocess,
                    inputs,
                    outputs,
                    contract: Some(contract),
                },
            },
        )
    }

    /// The operation without its bindings.
    pub fn semantic(&self) -> (out: &SemanticOpDescriptor)
        ensures
            *out == self.semantic,
    {
        &self.semantic
    }

    /// Binds an operation, which must be an attention preprocess of just these tensors. `invalid`
    /// says what the operation checks found wrong with it.
    pub fn from_validated_semantic(
        semantic: SemanticOpDescriptor,
        bindings: Roles<TensorBinding>,
        invalid: Option<String>,
    ) -> (out: Result<AttentionPreprocessDescriptor, RuntimeError>)
        ensures
            match preprocess_refusal(semantic, bindings, invalid) {
                Some(message) => {
                    &&& out is Err
                    &&& out->Err_0.says(
                        RuntimeStatus::InvalidAttentionPreprocessDescriptor,
                        message,
                    )
                },
                None => {
                    &&& out is Ok
                    &&& out->Ok_0.wf()
                    &&& out->Ok_0.bindings == bindings
                    &&& out->Ok_0.semantic == semantic
                },
            },
    {
        match invalid {
            Some(error) => {
                return Err(
                    RuntimeError::caused(
                        RuntimeStatus::InvalidAttentionPreprocessDescriptor,
                        "invalid validated attention preprocess descriptor: ",
                        error.as_str(),
                    ),
                );
            },
            None => {},
        }
        if semantic.kind != SemanticOpKind::AttentionPreprocess || semantic.inputs.len() != 5
            || semantic.outputs.len() != 3 {
            return Err(
                RuntimeError::local(
                    RuntimeStatus::InvalidAttentionPreprocessDescriptor,
                    "semantic descriptor is not a canonical attention preprocess operation",
                ),
            );
        }
        if !same_inputs(&bindings, &semantic.inputs) {
            return Err(
                RuntimeError::local(
                    RuntimeStatus::InvalidAttentionPreprocessDescriptor,
                    "bound HIP input tensor views differ from the core semantic descriptor",
                ),
            );
        }
        if !same_outputs(&bindings, &semantic.outputs) {
            return Err(
                RuntimeError::local(
                    RuntimeStatus::InvalidAttentionPreprocessDescriptor,
                    "bound HIP output tensor views differ from the core semantic descriptor",
                ),
            );
        }
        Ok(AttentionPreprocessDescriptor { bindings, semantic })
    }

    /// The descriptor for the native library, or the error of the first binding that has one. An
    /// operation without a contract comes first.
    pub fn raw(&self, abi: &NativeAbi, bindings: Roles<Result<RawBinding, RuntimeError>>) -> (out:
        Result<RawAttentionPreprocess, RuntimeError>)
        ensures
            match (self.semantic.contract, first_binding_error(bindings)) {
                (None, _) => {
                    &&& out is Err
                    &&& out->Err_0.says(
                        RuntimeStatus::InvalidAttentionPreprocessDescriptor,
                        "attention preprocess contract is absent"@,
                    )
                },
                (Some(_), Some(error)) => out is Err && out->Err_0 == error,
                (Some(contract), None) => {
                    &&& out is Ok
                    &&& out->Ok_0.struct_size == DESCRIPTOR_HEADER_BYTES + ROLES * BINDING_BYTES
                    &&& out->Ok_0.abi_version == abi.abi_version
                    &&& out->Ok_0.op_version == abi.op_version
                    &&& out->Ok_0.start_position == contract.start_position
                    &&& out->Ok_0.reserved@ == seq![0u32, 0, 0, 0]
                    &&& out->Ok_0.bindings == all_bindings(bindings)
                },
            },
    {
        let contract = match self.semantic.contract {
            Some(contract) => contract,
            None => {
                return Err(
                    RuntimeError::local(
                        RuntimeStatus::InvalidAttentionPreprocessDescriptor,
                        "attention preprocess contract is absent",
                    ),
                );
            },
        };
        match collect_bindings(bindings) {
            Ok(bindings) => Ok(raw_descriptor(contract, abi, bindings)),
            Err(error) => Err(error),
        }
    }
}

/// A prepared attention preprocess: the native plan, and what it keeps alive.
#[derive(Debug)]
pub struct PreparedAttentionPreprocess {
    pub plan: u64,
    pub context: u64,
    pub descriptor: AttentionPreprocessDescriptor,
}

/// A plan whose release failed, kept with its owners until it can be released.
#[derive(Debug)]
pub struct AttentionPreprocessCleanup {
    pub plan: u64,
    pub context: u64,
    pub descriptor: AttentionPreprocessDescriptor,
    pub status: RuntimeStatus,
}

/// A submitted attention preprocess: its completion, and the plan that it keeps alive.
#[derive(Clone, Copy, Debug, PartialEq, Eq, Structural)]
pub struct AttentionPreprocessSubmission {
    pub completion: u64,
    pub plan: u64,
    pub buffer: u64,
}

/// The bytes of what the native library reports about an attention preprocess dispatch.
pub const DISPATCH_INFO_BYTES: u32 = 304;

/// What the native library reports about an attention preprocess dispatch.
#[derive(Debug)]
pub struct RawAttentionPreprocessDispatch {
    pub abi_version: u32,
    pub info_version: u32,
    pub backend: u32,
    pub dispatch_id: u64,
    pub dispatch_count: u32,
    pub kernel_id: u32,
    pub workgroup_size_x: u32,
    pub grid_size_x: u32,
    pub m: u64,
    pub q_heads: u32,
    pub k_heads: u32,
    pub q_head_dim: u32,
    pub k_head_dim: u32,
    pub rotary_dim: u32,
    pub start_position: u32,
    pub fallback_allowed: u32,
    pub fallback_used: u32,
    pub kernel_symbol: Vec<i8>,
    pub device_symbol: Vec<i8>,
    pub gcn_arch_name: Vec<i8>,
}

/// What an attention preprocess dispatch reports.
#[derive(Clone, Debug, PartialEq, Eq)]
pub struct AttentionPreprocessDispatchInfo {
    pub abi_version: u32,
    pub info_version: u32,
    pub dispatch_id: u64,
    pub dispatch_count: u32,
    pub kernel_id: u32,
    pub workgroup_size_x: u32,
    pub grid_size_x: u32,
    pub m: u64,
    pub q_heads: u32,
    pub k_heads: u32,
    pub q_head_dim: u32,
    pub k_head_dim: u32,
    pub rotary_dim: u32,
    pub start_position: u32,
    pub backend: u32,
    pub fallback_allowed: bool,
    pub fallback_used: bool,
    pub kernel_symbol: String,
    pub device_symbol: String,
    pub gcn_arch_name: String,
}

impl AttentionPreprocessDispatchInfo {
    /// Whether a report says what the native library said.
    pub open spec fn reports(self, info: RawAttentionPreprocessDispatch) -> bool {
        &&& self.abi_version == info.abi_version
        &&& self.info_version == info.info_version
        &&& self.dispatch_id == info.dispatch_id
        &&& self.dispatch_count == info.dispatch_count
        &&& self.kernel_id == info.kernel_id
        &&& self.workgroup_size_x == info.workgroup_size_x
        &&& self.grid_size_x == info.grid_size_x
        &&& self.m == info.m
        &&& self.q_heads == info.q_heads
        &&& self.k_heads == info.k_heads
        &&& self.q_head_dim == info.q_head_dim
        &&& self.k_head_dim == info.k_head_dim
        &&& self.rotary_dim == info.rotary_dim
        &&& self.start_position == info.start_position
        &&& self.backend == info.backend
        &&& self.fallback_allowed == (info.fallback_allowed != 0)
        &&& self.fallback_used == (info.fallback_used != 0)
        &&& self.kernel_symbol@ == c_text(info.kernel_symbol@)
        &&& self.device_symbol@ == c_text(info.device_symbol@)
        &&& self.gcn_arch_name@ == c_text(info.gcn_arch_name@)
    }
}

/// The report of a dispatch.
pub fn dispatch_info_from_raw(info: &RawAttentionPreprocessDispatch) -> (out:
    AttentionPreprocessDispatchInfo)
    ensures
        out.reports(*info),
{
    AttentionPreprocessDispatchInfo {
        abi_version: info.abi_version,
        info_version: info.info_version,
        dispatch_id: info.dispatch_id,
        dispatch_count: info.dispatch_count,
        kernel_id: info.kernel_id,
        workgroup_size_x: info.workgroup_size_x,
        grid_size_x: info.grid_size_x,
        m: info.m,
        q_heads: info.q_heads,
        k_heads: info.k_heads,
        q_head_dim: info.q_head_dim,
        k_head_dim: info.k_head_dim,
        rotary_dim: info.rotary_dim,
        start_position: info.start_position,
        backend: info.backend,
        fallback_allowed: info.fallback_allowed != 0,
        fallback_used: info.fallback_used != 0,
        kernel_symbol: read_c_string(info.kernel_symbol.as_slice()),
        device_symbol: read_c_string(info.device_symbol.as_slice()),
        gcn_arch_name: read_c_string(info.gcn_arch_name.as_slice()),
    }
}

impl HipBackend {
    /// The plan that the native library made of a descriptor: its own error, or an internal error
    /// where it claims success without a plan.
    pub fn prepare_attention_preprocess(
        &self,
        context: u64,
        descriptor: AttentionPreprocessDescriptor,
        status: Result<(), RuntimeError>,
        plan: Option<u64>,
    ) -> (out: Result<PreparedAttentionPreprocess, RuntimeError>)
        ensures
            match handle_refusal(
                status,
                plan,
                "native attention preprocess prepare returned a null plan on success"@,
            ) {
                Some((code, message)) => out is Err && out->Err_0.says(code, message),
                None => {
                    &&& out is Ok
                    &&& plan == Some(out->Ok_0.plan)
                    &&& out->Ok_0.context == context
                    &&& out->Ok_0.descriptor == descriptor
                },
            },
    {
        match checked_handle(
            status,
            plan,
            "native attention preprocess prepare returned a null plan on success",
        ) {
            Ok(plan) => Ok(PreparedAttentionPreprocess { plan, context, descriptor }),
            Err(error) => Err(error),
        }
    }
}

impl PreparedAttentionPreprocess {
    /// The submission that the native library made of a plan, with the report of its dispatch: its
    /// own error, or an internal error where it claims success without a completion.
    pub fn execute(
        &self,
        status: Result<(), RuntimeError>,
        completion: Option<u64>,
        info: &RawAttentionPreprocessDispatch,
    ) -> (out: Result<
        (AttentionPreprocessSubmission, AttentionPreprocessDispatchInfo),
        RuntimeError,
    >)
        ensures
            match handle_refusal(
                status,
                completion,
                "native attention preprocess execute returned a null completion on success"@,
            ) {
                Some((code, message)) => out is Err && out->Err_0.says(code, message),
                None => {
                    &&& out is Ok
                    &&& completion == Some(out->Ok_0.0.completion)
                    &&& out->Ok_0.0.plan == self.plan
                    &&& out->Ok_0.0.buffer == self.descriptor.bindings.packed_q_gate.buffer
                    &&& out->Ok_0.1.reports(*info)
                },
            },
    {
        match checked_handle(
            status,
            completion,
            "native attention preprocess execute returned a null completion on success",
        ) {
            Ok(completion) => Ok(
                (
                    AttentionPreprocessSubmission {
                        completion,
                        plan: self.plan,
                        buffer: self.descriptor.bindings.packed_q_gate.buffer,
                    },
                    dispatch_info_from_raw(info),
                ),
            ),
            Err(error) => Err(error),
        }
    }

    /// What is left to clean up once the plan's release was tried: nothing where it was consumed,
    /// and otherwise the plan with everything that it needs to stay alive.
    pub fn release(self, status: RuntimeStatus, remaining: Option<u64>) -> (out: Option<
        AttentionPreprocessCleanup,
    >)
        ensures
            match remaining {
                None => out is None,
                Some(plan) => {
                    &&& out is Some
                    &&& out->Some_0.plan == plan
                    &&& out->Some_0.context == self.context
                    &&& out->Some_0.descriptor == self.descriptor
                    &&& out->Some_0.status == status
                },
            },
    {
        match remaining {
            None => None,
            Some(plan) => Some(
                AttentionPreprocessCleanup {
                    plan,
                    context: self.context,
                    descriptor: self.descriptor,
                    status,
                },
            ),
        }
    }
}

/// A descriptor that was made of eight bindings is accepted when its operation is bound to them
/// again.
pub proof fn own_operations_are_accepted(descriptor: AttentionPreprocessDescriptor)
    requires
        descriptor.wf(),
    ensures
        preprocess_refusal(descriptor.semantic, descriptor.bindings, None) is None,
{
}

/// The operation lists its tensors by their roles: queries with gates, keys, both scales and the
/// positions go in, and queries, gates and keys come out.
pub proof fn operations_list_their_tensors_by_role(
    bindings: Roles<TensorBinding>,
    contract: AttentionPreprocessContract,
    descriptor: AttentionPreprocessDescriptor,
)
    requires
        call_ensures(
            AttentionPreprocessDescriptor::new,
            (bindings, contract, None),
            Ok(descriptor),
        ),
    ensures
        ({
            let inputs = descriptor.semantic.inputs@;
            let outputs = descriptor.semantic.outputs@;
            &&& descriptor.semantic.kind == SemanticOpKind::AttentionPreprocess
            &&& inputs.len() == 5 && outputs.len() == 3
            &&& inputs[0]@ == bindings.packed_q_gate.view@
            &&& inputs[1]@ == bindings.k.view@
            &&& inputs[2]@ == bindings.q_raw_scale.view@
            &&& inputs[3]@ == bindings.k_raw_scale.view@
            &&& inputs[4]@ == bindings.positions.view@
            &&& outputs[0]@ == bindings.q_output.view@
            &&& outputs[1]@ == bindings.gate_output.view@
            &&& outputs[2]@ == bindings.k_output.view@
            &&& descriptor.semantic.contract == Some(contract)
        }),
{
    let inputs = descriptor.semantic.inputs@;
    let outputs = descriptor.semantic.outputs@;
    assert forall|i: int| 0 <= i < 5 implies #[trigger] inputs[i]@ == shapes_of(inputs)[i] by {}
    assert forall|i: int| 0 <= i < 3 implies #[trigger] outputs[i]@ == shapes_of(outputs)[i] by {}
}

/// An operation is bound just where it was found valid, is an attention preprocess of five tensors into
/// three, and each bound tensor looks like the one of its role.
pub proof fn bound_tensors_are_those_of_their_role(
    semantic: SemanticOpDescriptor,
    bindings: Roles<TensorBinding>,
    invalid: Option<String>,
    out: Result<AttentionPreprocessDescriptor, RuntimeError>,
)
    requires
        call_ensures(
            AttentionPreprocessDescriptor::from_validated_semantic,
            (semantic, bindings, invalid),
            out,
        ),
    ensures
        out is Ok <==> {
            &&& invalid is None
            &&& semantic.kind == SemanticOpKind::AttentionPreprocess
            &&& semantic.inputs@.len() == 5
            &&& semantic.outputs@.len() == 3
            &&& semantic.inputs@[0]@ == bindings.packed_q_gate.view@
            &&& semantic.inputs@[1]@ == bindings.k.view@
            &&& semantic.inputs@[2]@ == bindings.q_raw_scale.view@
            &&& semantic.inputs@[3]@ == bindings.k_raw_scale.view@
            &&& semantic.inputs@[4]@ == bindings.positions.view@
            &&& semantic.outputs@[0]@ == bindings.q_output.view@
            &&& semantic.outputs@[1]@ == bindings.gate_output.view@
            &&& semantic.outputs@[2]@ == bindings.k_output.view@
        },
        out matches Err(error) ==> error.status
            == RuntimeStatus::InvalidAttentionPreprocessDescriptor,
        out matches Ok(bound) ==> bound.bindings == bindings && bound.semantic == semantic,
{
    let inputs = semantic.inputs@;
    let outputs = semantic.outputs@;
    if inputs.len() == 5 && outputs.len() == 3 {
        assert forall|i: int| 0 <= i < 5 implies #[trigger] inputs[i]@ == shapes_of(inputs)[i] by {}
        assert forall|i: int| 0 <= i < 3 implies #[trigger] outputs[i]@ == shapes_of(
            outputs,
        )[i] by {}
        if inputs[0]@ == bindings.packed_q_gate.view@ && inputs[1]@ == bindings.k.view@
            && inputs[2]@ == bindings.q_raw_scale.view@ && inputs[3]@ == bindings.k_raw_scale.view@
            && inputs[4]@ == bindings.positions.view@ {
            assert(shapes_of(inputs) =~= input_shapes(bindings));
        }
        if outputs[0]@ == bindings.q_output.view@ && outputs[1]@ == bindings.gate_output.view@
            && outputs[2]@ == bindings.k_output.view@ {
            assert(shapes_of(outputs) =~= output_shapes(bindings));
        }
    }
}

/// A native descriptor has room for its head and eight bindings, each under its own role, and tells the
/// position at which the operation starts. It is made just where there is a contract and every tensor
/// could be bound.
pub proof fn native_descriptors_keep_the_roles(
    descriptor: &AttentionPreprocessDescriptor,
    abi: &NativeAbi,
    given: Roles<Result<RawBinding, RuntimeError>>,
    out: Result<RawAttentionPreprocess, RuntimeError>,
)
    requires
        call_ensures(AttentionPreprocessDescriptor::raw, (descriptor, abi, given), out),
    ensures
        out is Ok <==> descriptor.semantic.contract is Some && given.packed_q_gate is Ok && given.k
            is Ok && given.q_raw_scale is Ok && given.k_raw_scale is Ok && given.positions is Ok
            && given.q_output is Ok && given.gate_output is Ok && given.k_output is Ok,
        out matches Ok(raw) ==> {
            &&& raw.struct_size == 1504
            &&& raw.abi_version == abi.abi_version && raw.op_version == abi.op_version
            &&& raw.start_position == descriptor.semantic.contract->Some_0.start_position
            &&& given.packed_q_gate->Ok_0 == raw.bindings.packed_q_gate
            &&& given.k->Ok_0 == raw.bindings.k
            &&& given.q_raw_scale->Ok_0 == raw.bindings.q_raw_scale
            &&& given.k_raw_scale->Ok_0 == raw.bindings.k_raw_scale
            &&& given.positions->Ok_0 == raw.bindings.positions
            &&& given.q_output->Ok_0 == raw.bindings.q_output
            &&& given.gate_output->Ok_0 == raw.bindings.gate_output
            &&& given.k_output->Ok_0 == raw.bindings.k_output
            &&& forall|i: int| 0 <= i < 4 ==> #[trigger] raw.reserved@[i] == 0
        },
{
}

/// A prepared operation keeps what it was made of, its submission names the plan and the buffer that it
/// reads, and a release that left the plan over keeps all of it.
pub proof fn plans_keep_what_they_need(
    backend: &HipBackend,
    context: u64,
    descriptor: AttentionPreprocessDescriptor,
    plan: Option<u64>,
    prepared: PreparedAttentionPreprocess,
    completion: Option<u64>,
    info: &RawAttentionPreprocessDispatch,
    submitted: (AttentionPreprocessSubmission, AttentionPreprocessDispatchInfo),
    status: RuntimeStatus,
    remaining: Option<u64>,
    left: Option<AttentionPreprocessCleanup>,
)
    requires
        call_ensures(
            HipBackend::prepare_attention_preprocess,
            (backend, context, descriptor, Ok(()), plan),
            Ok(prepared),
        ),
        call_ensures(
            PreparedAttentionPreprocess::execute,
            (&prepared, Ok(()), completion, info),
            Ok(submitted),
        ),
        call_ensures(PreparedAttentionPreprocess::release, (prepared, status, remaining), left),
    ensures
        plan == Some(prepared.plan) && prepared.context == context && prepared.descriptor
            == descriptor,
        completion == Some(submitted.0.completion),
        submitted.0.plan == prepared.plan,
        submitted.0.buffer == descriptor.bindings.packed_q_gate.buffer,
        submitted.1.m == info.m && submitted.1.start_position == info.start_position,
        submitted.1.q_heads == info.q_heads && submitted.1.k_heads == info.k_heads,
        submitted.1.q_head_dim == info.q_head_dim && submitted.1.k_head_dim == info.k_head_dim,
        submitted.1.rotary_dim == info.rotary_dim && submitted.1.grid_size_x == info.grid_size_x,
        submitted.1.workgroup_size_x == info.workgroup_size_x && submitted.1.kernel_id
            == info.kernel_id,
        submitted.1.fallback_used <==> info.fallback_used != 0,
        submitted.1.fallback_allowed <==> info.fallback_allowed != 0,
        submitted.1.kernel_symbol@ == c_text(info.kernel_symbol@),
        submitted.1.device_symbol@ == c_text(info.device_symbol@),
        submitted.1.gcn_arch_name@ == c_text(info.gcn_arch_name@),
        left is Some <==> remaining is Some,
        left matches Some(kept) ==> remaining == Some(kept.plan) && kept.context == context
            && kept.descriptor == descriptor && kept.status == status,
{
}

/// The report of a dispatch tells what the device told: the sizes in their own places, and a flag
/// wherever its byte is not zero.
pub proof fn reports_tell_what_the_device_told(
    info: &RawAttentionPreprocessDispatch,
    report: AttentionPreprocessDispatchInfo,
)
    requires
        call_ensures(dispatch_info_from_raw, (info,), report),
    ensures
        report.m == info.m && report.start_position == info.start_position,
        report.q_heads == info.q_heads && report.k_heads == info.k_heads,
        report.q_head_dim == info.q_head_dim && report.k_head_dim == info.k_head_dim,
        report.rotary_dim == info.rotary_dim,
        report.workgroup_size_x == info.workgroup_size_x && report.grid_size_x == info.grid_size_x,
        report.dispatch_id == info.dispatch_id && report.dispatch_count == info.dispatch_count,
        report.kernel_id == info.kernel_id && report.backend == info.backend,
        report.abi_version == info.abi_version && report.info_version == info.info_version,
        !report.fallback_used <==> info.fallback_used == 0,
        !report.fallback_allowed <==> info.fallback_allowed == 0,
        report.kernel_symbol@ == c_text(info.kernel_symbol@),
        report.device_symbol@ == c_text(info.device_symbol@),
        report.gcn_arch_name@ == c_text(info.gcn_arch_name@),
{
}

} // verus!
