//! Greedy argmax: its descriptor, its prepared plan, and what a dispatch reports.
use crate::native::{
    binding_offset, c_text, checked_handle, handle_refusal, read_c_string, shapes_of, HipBackend,
    NativeAbi, RawBinding, RuntimeError, RuntimeStatus, SemanticOpDescriptor, SemanticOpKind,
    TensorBinding, BINDING_BYTES, DESCRIPTOR_HEADER_BYTES,
};
use vstd::prelude::*;

verus! {

/// An argmax over bound tensors.
#[derive(Debug)]
pub struct ArgmaxDescriptor {
    pub logits: TensorBinding,
    pub output: TensorBinding,
    pub semantic: SemanticOpDescriptor,
}

/// An argmax as the native library reads it.
#[derive(Clone, Copy, Debug)]
pub struct RawArgmax {
    pub struct_size: u32,
    pub abi_version: u32,
    pub op_version: u32,
    pub reserved: [u32; 5],
    pub logits: RawBinding,
    pub output: RawBinding,
}

/// Whether an operation is an argmax of one tensor into one.
pub open spec fn is_canonical_argmax(semantic: SemanticOpDescriptor) -> bool {
    &&& semantic.kind == SemanticOpKind::Argmax
    &&& semantic.inputs@.len() == 1
    &&& semantic.outputs@.len() == 1
}

/// Why an operation and two bindings do not make an argmax.
pub open spec fn argmax_refusal(
    semantic: SemanticOpDescriptor,
    logits: TensorBinding,
    output: TensorBinding,
    invalid: Option<String>,
) -> Option<Seq<char>> {
    if invalid is Some {
        Some("invalid validated argmax descriptor: "@ + invalid->Some_0@)
    } else if !is_canonical_argmax(semantic) {
        Some("semantic descriptor is not a canonical argmax operation"@)
    } else if logits.view@ != semantic.inputs@[0]@ || output.view@ != semantic.outputs@[0]@ {
        Some("bound HIP tensor views differ from the core argmax descriptor"@)
    } else {
        None
    }
}

impl ArgmaxDescriptor {
    /// The bound tensors are those of the operation.
    pub open spec fn wf(self) -> bool {
        &&& is_canonical_argmax(self.semantic)
        &&& self.semantic.inputs@[0]@ == self.logits.view@
        &&& self.semantic.outputs@[0]@ == self.output.view@
    }

    /// The operation that two bindings make up, if it is a valid one. `invalid` says what the
    /// operation checks found wrong with the views.
    pub fn new(logits: TensorBinding, output: TensorBinding, invalid: Option<String>) -> (out:
        Result<ArgmaxDescriptor, String>)
        ensures
            match invalid {
                Some(error) => out is Err && out->Err_0@ == error@,
                None => {
                    &&& out is Ok
                    &&& out->Ok_0.wf()
                    &&& out->Ok_0.logits == logits
                    &&& out->Ok_0.output == output
                    &&& out->Ok_0.semantic.contract is None
                },
            },
    {
        match invalid {
            Some(error) => Err(error),
            None => {
                let mut inputs = Vec::new();
                inputs.push(logits.view.copy());
                let mut outputs = Vec::new();
                outputs.push(output.view.copy());
                Ok(
                    ArgmaxDescriptor {
                        logits,
                        output,
                        semantic: SemanticOpDescriptor {
                            kind: SemanticOpKind::Argmax,
                            inputs,
                            outputs,
                            contract: None,
                        },
                    },
                )
            },
        }
    }

    /// The operation without its bindings.
    pub fn semantic(&self) -> (out: &SemanticOpDescriptor)
        ensures
            *out == self.semantic,
    {
        &self.semantic
    }

    /// Binds an operation, which must be an argmax of just these tensors. `invalid` says what the
    /// operation checks found wrong with it.
    pub fn from_validated_semantic(
        semantic: SemanticOpDescriptor,
        logits: TensorBinding,
        output: TensorBinding,
        invalid: Option<String>,
    ) -> (out: Result<ArgmaxDescriptor, RuntimeError>)
        ensures
            match argmax_refusal(semantic, logits, output, invalid) {
                Some(message) => {
                    &&& out is Err
                    &&& out->Err_0.says(RuntimeStatus::InvalidArgmaxDescriptor, message)
                },
                None => {
                    &&& out is Ok
                    &&& out->Ok_0.wf()
                    &&& out->Ok_0.logits == logits
                    &&& out->Ok_0.output == output
                    &&& out->Ok_0.semantic == semantic
                },
            },
    {
        match invalid {
            Some(error) => {
                return Err(
                    RuntimeError::caused(
                        RuntimeStatus::InvalidArgmaxDescriptor,
                        "invalid validated argmax descriptor: ",
                        error.as_str(),
                    ),
                );
            },
            None => {},
        }
        if semantic.kind != SemanticOpKind::Argmax || semantic.inputs.len() != 1
            || semantic.outputs.len() != 1 {
            return Err(
                RuntimeError::local(
                    RuntimeStatus::InvalidArgmaxDescriptor,
                    "semantic descriptor is not a canonical argmax operation",
                ),
            );
        }
        if !logits.view.same(&semantic.inputs[0]) || !output.view.same(&semantic.outputs[0]) {
            return Err(
                RuntimeError::local(
                    RuntimeStatus::InvalidArgmaxDescriptor,
                    "bound HIP tensor views differ from the core argmax descriptor",
                ),
            );
        }
        Ok(ArgmaxDescriptor { logits, output, semantic })
    }

    /// The descriptor for the native library, or the first binding's error.
    pub fn raw(
        &self,
        abi: &NativeAbi,
        logits: Result<RawBinding, RuntimeError>,
        output: Result<RawBinding, RuntimeError>,
    ) -> (out: Result<RawArgmax, RuntimeError>)
        ensures
            match (logits, output) {
                (Err(error), _) => out is Err && out->Err_0 == error,
                (Ok(_), Err(error)) => out is Err && out->Err_0 == error,
                (Ok(logits), Ok(output)) => {
                    &&& out is Ok
                    &&& out->Ok_0.struct_size == DESCRIPTOR_HEADER_BYTES + 2 * BINDING_BYTES
                    &&& out->Ok_0.abi_version == abi.abi_version
                    &&& out->Ok_0.op_version == abi.op_version
                    &&& out->Ok_0.reserved@ == seq![0u32, 0, 0, 0, 0]
                    &&& out->Ok_0.logits == logits
                    &&& out->Ok_0.output == output
                },
            },
    {
        let logits = match logits {
            Ok(binding) => binding,
            Err(error) => {
                return Err(error);
            },
        };
        let output = match output {
            Ok(binding) => binding,
            Err(error) => {
                return Err(error);
            },
        };
        let reserved: [u32; 5] = [0, 0, 0, 0, 0];
        assert(reserved@ =~= seq![0u32, 0, 0, 0, 0]);
        Ok(
            RawArgmax {
                struct_size: binding_offset(2),
                abi_version: abi.abi_version,
                op_version: abi.op_version,
                reserved,
                logits,
                output,
            },
        )
    }
}

/// A prepared argmax: the native plan, and what it keeps alive.
#[derive(Debug)]
pub struct PreparedArgmax {
    pub plan: u64,
    pub context: u64,
    pub descriptor: ArgmaxDescriptor,
}

/// A plan whose release failed, kept with its owners until it can be released.
#[derive(Debug)]
pub struct ArgmaxCleanup {
    pub plan: u64,
    pub context: u64,
    pub descriptor: ArgmaxDescriptor,
    pub status: RuntimeStatus,
}

/// A submitted argmax: its completion, and the plan that it keeps alive.
#[derive(Clone, Copy, Debug, PartialEq, Eq, Structural)]
pub struct ArgmaxSubmission {
    pub completion: u64,
    pub plan: u64,
    pub buffer: u64,
}

/// What the native library reports about an argmax dispatch.
#[derive(Debug)]
pub struct RawArgmaxDispatch {
    pub abi_version: u32,
    pub info_version: u32,
    pub backend: u32,
    pub dispatch_id: u64,
    pub dispatch_count: u32,
    pub kernel_id: u32,
    pub workgroup_size_x: u32,
    pub grid_size_x: u32,
    pub row_count: u64,
    pub vocab_size: u64,
    pub fallback_allowed: u32,
    pub fallback_used: u32,
    pub kernel_symbol: Vec<i8>,
    pub device_symbol: Vec<i8>,
    pub gcn_arch_name: Vec<i8>,
}

/// What an argmax dispatch reports.
#[derive(Clone, Debug, PartialEq, Eq)]
pub struct ArgmaxDispatchInfo {
    pub abi_version: u32,
    pub info_version: u32,
    pub dispatch_id: u64,
    pub dispatch_count: u32,
    pub kernel_id: u32,
    pub workgroup_size_x: u32,
    pub grid_size_x: u32,
    pub row_count: u64,
    pub vocab_size: u64,
    pub backend: u32,
    pub fallback_allowed: bool,
    pub fallback_used: bool,
    pub kernel_symbol: String,
    pub device_symbol: String,
    pub gcn_arch_name: String,
}

impl ArgmaxDispatchInfo {
    /// Whether a report says what the native library said.
    pub open spec fn reports(self, info: RawArgmaxDispatch) -> bool {
        &&& self.abi_version == info.abi_version
        &&& self.info_version == info.info_version
        &&& self.dispatch_id == info.dispatch_id
        &&& self.dispatch_count == info.dispatch_count
        &&& self.kernel_id == info.kernel_id
        &&& self.workgroup_size_x == info.workgroup_size_x
        &&& self.grid_size_x == info.grid_size_x
        &&& self.row_count == info.row_count
        &&& self.vocab_size == info.vocab_size
        &&& self.backend == info.backend
        &&& self.fallback_allowed == (info.fallback_allowed != 0)
        &&& self.fallback_used == (info.fallback_used != 0)
        &&& self.kernel_symbol@ == c_text(info.kernel_symbol@)
        &&& self.device_symbol@ == c_text(info.device_symbol@)
        &&& self.gcn_arch_name@ == c_text(info.gcn_arch_name@)
    }
}

/// The report of a dispatch.
pub fn dispatch_info_from_raw(info: &RawArgmaxDispatch) -> (out: ArgmaxDispatchInfo)
    ensures
        out.reports(*info),
{
    ArgmaxDispatchInfo {
        abi_version: info.abi_version,
        info_version: info.info_version,
        dispatch_id: info.dispatch_id,
        dispatch_count: info.dispatch_count,
        kernel_id: info.kernel_id,
        workgroup_size_x: info.workgroup_size_x,
        grid_size_x: info.grid_size_x,
        row_count: info.row_count,
        vocab_size: info.vocab_size,
        backend: info.backend,
        fallback_allowed: info.fallback_allowed != 0,
        fallback_used: info.fallback_used != 0,
        kernel_symbol: read_c_string(info.kernel_symbol.as_slice()),
        device_symbol: read_c_string(info.device_symbol.as_slice()),
        gcn_arch_name: read_c_string(info.gcn_arch_name.as_slice()),
    }
}

impl HipBackend {
    /// The plan that the native library made of a descriptor: its own error, or an internal error where
    /// it claims success without a plan.
    pub fn prepare_argmax(
        &self,
        context: u64,
        descriptor: ArgmaxDescriptor,
        status: Result<(), RuntimeError>,
        plan: Option<u64>,
    ) -> (out: Result<PreparedArgmax, RuntimeError>)
        ensures
            match handle_refusal(
                status,
                plan,
                "native argmax prepare returned a null plan on success"@,
            ) {
                Some((code, message)) => out is Err && out->Err_0.says(code, message),
                None => {
                    &&& out is Ok
                    &&& plan == Some(out->Ok_0.plan)
                    &&& out->Ok_0.context == context
                    &&& out->Ok_0.descriptor == descriptor
                },
            },
    {
        match checked_handle(status, plan, "native argmax prepare returned a null plan on success") {
            Ok(plan) => Ok(PreparedArgmax { plan, context, descriptor }),
            Err(error) => Err(error),
        }
    }
}

impl PreparedArgmax {
    /// The submission that the native library made of a plan, with the report of its dispatch: its
    /// own error, or an internal error where it claims success without a completion.
    pub fn execute(
        &self,
        status: Result<(), RuntimeError>,
        completion: Option<u64>,
        info: &RawArgmaxDispatch,
    ) -> (out: Result<(ArgmaxSubmission, ArgmaxDispatchInfo), RuntimeError>)
        ensures
            match handle_refusal(
                status,
                completion,
                "native argmax execute returned a null completion on success"@,
            ) {
                Some((code, message)) => out is Err && out->Err_0.says(code, message),
                None => {
                    &&& out is Ok
                    &&& completion == Some(out->Ok_0.0.completion)
                    &&& out->Ok_0.0.plan == self.plan
                    &&& out->Ok_0.0.buffer == self.descriptor.logits.buffer
                    &&& out->Ok_0.1.reports(*info)
                },
            },
    {
        match checked_handle(
            status,
            completion,
            "native argmax execute returned a null completion on success",
        ) {
            Ok(completion) => Ok(
                (
                    ArgmaxSubmission {
                        completion,
                        plan: self.plan,
                        buffer: self.descriptor.logits.buffer,
                    },
                    dispatch_info_from_raw(info),
                ),
            ),
            Err(error) => Err(error),
        }
    }

    /// What is left to clean up once the plan's release was tried: nothing where it was consumed,
    /// and otherwise the plan with everything that it needs to stay alive.
    pub fn release(self, status: RuntimeStatus, remaining: Option<u64>) -> (out: Option<
        ArgmaxCleanup,
    >)
        ensures
            match remaining {
                None => out is None,
                Some(plan) => {
                    &&& out is Some
                    &&& out->Some_0.plan == plan
                    &&& out->Some_0.context == self.context
                    &&& out->Some_0.descriptor == self.descriptor
                    &&& out->Some_0.status == status
                },
            },
    {
        match remaining {
            None => None,
            Some(plan) => Some(
                ArgmaxCleanup { plan, context: self.context, descriptor: self.descriptor, status },
            ),
        }
    }
}

/// A descriptor that was made of two bindings is accepted when its operation is bound to them
/// again.
pub proof fn own_operations_are_accepted(descriptor: ArgmaxDescriptor)
    requires
        descriptor.wf(),
    ensures
        argmax_refusal(descriptor.semantic, descriptor.logits, descriptor.output, None) is None,
        shapes_of(descriptor.semantic.inputs@) == seq![descriptor.logits.view@],
        shapes_of(descriptor.semantic.outputs@) == seq![descriptor.output.view@],
{
    assert(shapes_of(descriptor.semantic.inputs@) =~= seq![descriptor.logits.view@]);
    assert(shapes_of(descriptor.semantic.outputs@) =~= seq![descriptor.output.view@]);
}

/// An operation is bound just where it was found valid, is an argmax of one tensor into one, and both
/// bound tensors look like its own.
pub proof fn bound_tensors_are_those_of_the_operation(
    semantic: SemanticOpDescriptor,
    logits: TensorBinding,
    output: TensorBinding,
    invalid: Option<String>,
    out: Result<ArgmaxDescriptor, RuntimeError>,
)
    requires
        call_ensures(
            ArgmaxDescriptor::from_validated_semantic,
            (semantic, logits, output, invalid),
            out,
        ),
    ensures
        out is Ok <==> {
            &&& invalid is None
            &&& semantic.kind == SemanticOpKind::Argmax
            &&& semantic.inputs@.len() == 1
            &&& semantic.outputs@.len() == 1
            &&& semantic.inputs@[0]@ == logits.view@
            &&& semantic.outputs@[0]@ == output.view@
        },
        out matches Err(error) ==> error.status == RuntimeStatus::InvalidArgmaxDescriptor,
        out matches Ok(bound) ==> bound.logits == logits && bound.output == output
            && bound.semantic == semantic,
{
}

/// A native descriptor has room for its head and two bindings, the logits first; it is made just where
/// both tensors could be bound.
pub proof fn native_descriptors_hold_both_tensors(
    descriptor: &ArgmaxDescriptor,
    abi: &NativeAbi,
    logits: Result<RawBinding, RuntimeError>,
    output: Result<RawBinding, RuntimeError>,
    out: Result<RawArgmax, RuntimeError>,
)
    requires
        call_ensures(ArgmaxDescriptor::raw, (descriptor, abi, logits, output), out),
    ensures
        out is Ok <==> logits is Ok && output is Ok,
        out matches Ok(raw) ==> {
            &&& raw.struct_size == 400
            &&& raw.abi_version == abi.abi_version && raw.op_version == abi.op_version
            &&& logits->Ok_0 == raw.logits
            &&& output->Ok_0 == raw.output
            &&& forall|i: int| 0 <= i < 5 ==> #[trigger] raw.reserved@[i] == 0
        },
{
}

/// A prepared operation keeps what it was made of, its submission names the plan and the buffer that it
/// reads, and a release that left the plan over keeps all of it.
pub proof fn plans_keep_what_they_need(
    backend: &HipBackend,
    context: u64,
    descriptor: ArgmaxDescriptor,
    plan: Option<u64>,
    prepared: PreparedArgmax,
    completion: Option<u64>,
    info: &RawArgmaxDispatch,
    submitted: (ArgmaxSubmission, ArgmaxDispatchInfo),
    status: RuntimeStatus,
    remaining: Option<u64>,
    left: Option<ArgmaxCleanup>,
)
    requires
        call_ensures(
            HipBackend::prepare_argmax,
            (backend, context, descriptor, Ok(()), plan),
            Ok(prepared),
        ),
        call_ensures(
            PreparedArgmax::execute,
            (&prepared, Ok(()), completion, info),
            Ok(submitted),
        ),
        call_ensures(PreparedArgmax::release, (prepared, status, remaining), left),
    ensures
        plan == Some(prepared.plan) && prepared.context == context && prepared.descriptor
            == descriptor,
        completion == Some(submitted.0.completion),
        submitted.0.plan == prepared.plan,
        submitted.0.buffer == descriptor.logits.buffer,
        submitted.1.row_count == info.row_count && submitted.1.vocab_size == info.vocab_size,
        submitted.1.grid_size_x == info.grid_size_x && submitted.1.workgroup_size_x
            == info.workgroup_size_x && submitted.1.kernel_id == info.kernel_id,
        submitted.1.fallback_used <==> info.fallback_used != 0,
        submitted.1.fallback_allowed <==> info.fallback_allowed != 0,
        submitted.1.kernel_symbol@ == c_text(info.kernel_symbol@),
        submitted.1.device_symbol@ == c_text(info.device_symbol@),
        submitted.1.gcn_arch_name@ == c_text(info.gcn_arch_name@),
        left is Some <==> remaining is Some,
        left matches Some(kept) ==> remaining == Some(kept.plan) && kept.context == context
            && kept.descriptor == descriptor && kept.status == status,
{
}

/// The report of a dispatch tells what the device told: the sizes in their own places, and a flag
/// wherever its byte is not zero.
pub proof fn reports_tell_what_the_device_told(info: &RawArgmaxDispatch, report: ArgmaxDispatchInfo)
    requires
        call_ensures(dispatch_info_from_raw, (info,), report),
    ensures
        report.row_count == info.row_count && report.vocab_size == info.vocab_size,
        report.workgroup_size_x == info.workgroup_size_x && report.grid_size_x == info.grid_size_x,
        report.dispatch_id == info.dispatch_id && report.dispatch_count == info.dispatch_count,
        report.kernel_id == info.kernel_id && report.backend == info.backend,
        report.abi_version == info.abi_version && report.info_version == info.info_version,
        !report.fallback_used <==> info.fallback_used == 0,
        !report.fallback_allowed <==> info.fallback_allowed == 0,
        report.kernel_symbol@ == c_text(info.kernel_symbol@),
        report.device_symbol@ == c_text(info.device_symbol@),
        report.gcn_arch_name@ == c_text(info.gcn_arch_name@),
{
}

} // verus!
