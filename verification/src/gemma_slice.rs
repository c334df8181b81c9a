//! The operations of the Gemma slice run: their inputs, the shapes they take, and the dispatches
//! they must come from.
use crate::attention_inputs::{bf16_quotient, bf16_quotient_word, code_is_the_rest};
use crate::audit::DispatchEvidence;
use crate::bytes::{decode_words, image_words, push_bytes, same_items};
use crate::session::DeviceState;
use crate::text::{begins_with, joined, joined3, same_text, starts_with};
use vstd::prelude::*;
use vstd::slice::slice_subrange;

verus! {

broadcast use vstd::string::group_string_axioms;

/// The rows of the run's activations.
pub const ROWS: usize = 3;

/// The width of the model.
pub const WIDTH: usize = 3_840;

/// The width of the small activation.
pub const SMALL_WIDTH: usize = 17;

/// Reads a payload of BF16 words.
pub fn bytes_to_words(bytes: &[u8]) -> (out: Result<Vec<u16>, String>)
    ensures
        if bytes@.len() % 2 != 0 {
            out is Err && out->Err_0@ == "BF16 payload has an odd byte length"@
        } else {
            out is Ok && out->Ok_0@ == image_words(bytes@)
        },
{
    match decode_words(bytes) {
        Some(words) => Ok(words),
        None => Err("BF16 payload has an odd byte length".to_owned()),
    }
}

/// The activation of the final normalization.
pub open spec fn activation_words() -> Seq<u16> {
    Seq::new(
        (ROWS * WIDTH) as nat,
        |i: int| bf16_quotient((i * 37 + 11) % 509 - 254, 64),
    )
}

/// The activation of the final normalization.
pub fn make_activation() -> (out: Vec<u16>)
    ensures
        out@ == activation_words(),
{
    let count: usize = ROWS * WIDTH;
    let ghost all = activation_words();
    let mut words: Vec<u16> = Vec::new();
    for i in 0..count
        invariant
            count == 11520,
            all == activation_words(),
            all.len() == count,
            words@ == all.take(i as int),
    {
        words.push(bf16_quotient_word(((i * 37 + 11) % 509) as i64 - 254, 64));
        assert(all.take(i + 1) =~= all.take(i as int).push(all[i as int]));
    }
    assert(all.take(count as int) =~= all);
    words
}

/// The activation of the small projections.
pub open spec fn small_words() -> Seq<u16> {
    Seq::new(
        (ROWS * SMALL_WIDTH) as nat,
        |i: int| bf16_quotient((i * 19 + 7) % 97 - 48, 32),
    )
}

/// The activation of the small projections.
pub fn small_activation() -> (out: Vec<u16>)
    ensures
        out@ == small_words(),
{
    let count: usize = ROWS * SMALL_WIDTH;
    let ghost all = small_words();
    let mut words: Vec<u16> = Vec::new();
    for i in 0..count
        invariant
            count == 51,
            all == small_words(),
            all.len() == count,
            words@ == all.take(i as int),
    {
        words.push(bf16_quotient_word(((i * 19 + 7) % 97) as i64 - 48, 32));
        assert(all.take(i + 1) =~= all.take(i as int).push(all[i as int]));
    }
    assert(all.take(count as int) =~= all);
    words
}

/// A scale of ones.
pub open spec fn unit_words() -> Seq<u16> {
    Seq::new(6, |i: int| bf16_quotient(1, 1))
}

/// A scale of ones.
pub fn unit_scale() -> (out: Vec<u16>)
    ensures
        out@ == unit_words(),
{
    let one: u16 = bf16_quotient_word(1, 1);
    let words: Vec<u16> = vec![one; 6];
    assert(words@ =~= unit_words());
    words
}

/// Refuses an operation that did not succeed; `label` names it.
pub fn wait_success(state: Result<DeviceState, &str>, label: &str) -> (out: Result<(), String>)
    ensures
        match state {
            Err(error) => out is Err && out->Err_0@ == label@ + ": "@ + error@,
            Ok(DeviceState::Success) => out is Ok,
            Ok(DeviceState::Pending) => out is Err && out->Err_0@ == label@ + " remained pending"@,
            Ok(DeviceState::Failure) => out is Err && out->Err_0@ == label@ + " reported failure"@,
        },
{
    match state {
        Err(error) => Err(joined3(label, ": ", error)),
        Ok(DeviceState::Success) => Ok(()),
        Ok(DeviceState::Pending) => Err(joined(label, " remained pending")),
        Ok(DeviceState::Failure) => Err(joined(label, " reported failure")),
    }
}

/// The rows of a table that identifiers name, one behind the other.
pub open spec fn gathered(table: Seq<u8>, ids: Seq<i32>, row_bytes: int) -> Seq<u8>
    decreases ids.len(),
{
    if ids.len() == 0 {
        Seq::empty()
    } else {
        gathered(table, ids.drop_last(), row_bytes) + table.subrange(
            ids.last() * row_bytes,
            ids.last() * row_bytes + row_bytes,
        )
    }
}

/// Whether every identifier names a row of a table.
pub open spec fn ids_in_table(table: Seq<u8>, ids: Seq<i32>, row_bytes: int) -> bool {
    forall|i: int|
        0 <= i < ids.len() ==> 0 <= #[trigger] ids[i] && ids[i] * row_bytes + row_bytes
            <= table.len()
}

/// Gathers the rows of a table that identifiers name.
pub fn gather_rows(table: &[u8], ids: &[i32], row_bytes: usize) -> (out: Vec<u8>)
    requires
        ids_in_table(table@, ids@, row_bytes as int),
    ensures
        out@ == gathered(table@, ids@, row_bytes as int),
{
    let size: usize = table.len();
    let mut out: Vec<u8> = Vec::new();
    for i in 0..ids.len()
        invariant
            size == table@.len(),
            ids_in_table(table@, ids@, row_bytes as int),
            out@ == gathered(table@, ids@.take(i as int), row_bytes as int),
    {
        let id: i32 = ids[i];
        assert(0 <= ids@[i as int] && ids@[i as int] * row_bytes + row_bytes <= table@.len());
        proof {
            assert(0 <= id * row_bytes) by (nonlinear_arith)
                requires
                    id >= 0,
                    row_bytes >= 0,
            ;
        }
        let base: usize = id as usize * row_bytes;
        push_bytes(&mut out, slice_subrange(table, base, base + row_bytes));
        assert(ids@.take(i + 1).drop_last() =~= ids@.take(i as int));
    }
    assert(ids@.take(ids.len() as int) =~= ids@);
    out
}

/// The rows of the embedding table that the run reads.
pub const EMBEDDING_ROWS: usize = 3;

/// The bytes of an embedding row.
pub const EMBEDDING_ROW_BYTES: usize = 7_680;

/// The identifiers that the run gathers.
pub open spec fn embedding_id_list() -> Seq<i32> {
    seq![2i32, 0i32, 2i32]
}

/// The identifiers that the run gathers: out of order, and one of them twice.
pub fn embedding_ids() -> (out: Vec<i32>)
    ensures
        out@ == embedding_id_list(),
{
    let mut ids: Vec<i32> = Vec::new();
    ids.push(2);
    ids.push(0);
    ids.push(2);
    assert(ids@ =~= embedding_id_list());
    ids
}

/// The bytes that the embedding must give for the first rows of the table.
pub fn expected_embedding(table: &[u8]) -> (out: Vec<u8>)
    requires
        table@.len() == EMBEDDING_ROWS * EMBEDDING_ROW_BYTES,
    ensures
        out@ == gathered(table@, embedding_id_list(), EMBEDDING_ROW_BYTES as int),
{
    let ids = embedding_ids();
    gather_rows(table, ids.as_slice(), EMBEDDING_ROW_BYTES)
}

/// Refuses an embedding that is not what it must be, to the byte.
pub fn check_embedding(observed: &[u8], expected: &[u8]) -> (out: Result<(), String>)
    ensures
        if observed@ == expected@ {
            out is Ok
        } else {
            out is Err && out->Err_0@ == "real-weight embedding gather differs bit-for-bit"@
        },
{
    if same_items(observed, expected) {
        Ok(())
    } else {
        Err("real-weight embedding gather differs bit-for-bit".to_owned())
    }
}

/// A tensor of the model.
#[derive(Debug)]
pub struct TensorInfo {
    pub is_bf16: bool,
    pub shape: Vec<u64>,
}

/// A product of an activation with a corner of a tensor.
#[derive(Clone, Copy, Debug)]
pub struct MatmulRequest<'a> {
    pub tensor_name: &'a str,
    pub m: usize,
    pub k: usize,
    pub n: usize,
}

/// The corner of a tensor that a product reads, row by row.
#[derive(Clone, Copy, Debug, PartialEq, Eq, Structural)]
pub struct MatmulPlan {
    pub rows: usize,
    pub row_bytes: u64,
    pub stride_bytes: u64,
}

/// The message that refuses a product, if there is one.
pub open spec fn matmul_refusal(
    request: MatmulRequest,
    activation_len: nat,
    tensor: Option<TensorInfo>,
) -> Option<Seq<char>> {
    let name = request.tensor_name@;
    if activation_len != request.m * request.k {
        Some("matmul slice activation shape differs"@)
    } else {
        match tensor {
            None => Some("verified tensor is missing: "@ + name),
            Some(info) => if !info.is_bf16 || info.shape@.len() != 2 {
                Some("matmul tensor is not rank-2 BF16: "@ + name)
            } else if info.shape@[0] > usize::MAX {
                Some("matmul source N does not fit usize"@)
            } else if info.shape@[1] > usize::MAX {
                Some("matmul source K does not fit usize"@)
            } else if request.n > info.shape@[0] || request.k > info.shape@[1] {
                Some("matmul slice exceeds verified tensor: "@ + name)
            } else {
                None
            },
        }
    }
}

/// Plans what a product reads. The width of the tensor is bounded by its bytes.
pub fn matmul_plan(request: &MatmulRequest, activation_len: usize, tensor: Option<&TensorInfo>) -> (out:
    Result<MatmulPlan, String>)
    requires
        tensor is Some && tensor->Some_0.shape@.len() == 2 ==> tensor->Some_0.shape@[1]
            <= 0x7fff_ffff_ffff_ffff,
    ensures
        match matmul_refusal(
            *request,
            activation_len as nat,
            match tensor {
                Some(info) => Some(*info),
                None => None,
            },
        ) {
            Some(message) => out is Err && out->Err_0@ == message,
            None => {
                &&& out is Ok
                &&& tensor is Some
                &&& out->Ok_0.rows == request.n
                &&& out->Ok_0.row_bytes == request.k * 2
                &&& out->Ok_0.stride_bytes == tensor->Some_0.shape@[1] * 2
                &&& out->Ok_0.row_bytes <= out->Ok_0.stride_bytes
            },
        },
{
    let fits = match request.m.checked_mul(request.k) {
        Some(expected) => activation_len == expected,
        None => false,
    };
    if !fits {
        return Err("matmul slice activation shape differs".to_owned());
    }
    let info = match tensor {
        Some(info) => info,
        None => {
            return Err(joined("verified tensor is missing: ", request.tensor_name));
        },
    };
    if !info.is_bf16 || info.shape.len() != 2 {
        return Err(joined("matmul tensor is not rank-2 BF16: ", request.tensor_name));
    }
    if info.shape[0] > usize::MAX as u64 {
        return Err("matmul source N does not fit usize".to_owned());
    }
    if info.shape[1] > usize::MAX as u64 {
        return Err("matmul source K does not fit usize".to_owned());
    }
    if request.n as u64 > info.shape[0] || request.k as u64 > info.shape[1] {
        return Err(joined("matmul slice exceeds verified tensor: ", request.tensor_name));
    }
    Ok(
        MatmulPlan {
            rows: request.n,
            row_bytes: request.k as u64 * 2,
            stride_bytes: info.shape[1] * 2,
        },
    )
}

impl MatmulPlan {
    /// Where a row of the corner begins in the tensor.
    pub fn row_offset(&self, row: usize) -> (out: u64)
        requires
            row < self.rows,
            self.rows * self.stride_bytes <= u64::MAX,
        ensures
            out == row * self.stride_bytes,
            out + self.stride_bytes <= self.rows * self.stride_bytes,
    {
        assert(0 <= row * self.stride_bytes && row * self.stride_bytes + self.stride_bytes
            <= self.rows * self.stride_bytes) by (nonlinear_arith)
            requires
                row < self.rows,
                row >= 0,
                self.stride_bytes >= 0,
        ;
        row as u64 * self.stride_bytes
    }
}

/// Refuses gate and up rows that do not belong together.
pub fn check_gelu_shape(gate: usize, up: usize) -> (out: Result<(), String>)
    ensures
        if gate != up || gate == 0 {
            out is Err && out->Err_0@ == "GELU-tanh slice inputs differ"@
        } else {
            out is Ok
        },
{
    if gate != up || gate == 0 {
        Err("GELU-tanh slice inputs differ".to_owned())
    } else {
        Ok(())
    }
}

/// Refuses rows and a scale that do not belong together.
pub fn check_rmsnorm_shape(input: usize, scale: usize, rows: usize, width: usize) -> (out: Result<
    (),
    String,
>)
    ensures
        if input != rows * width || scale != width {
            out is Err && out->Err_0@ == "compact RMSNorm shape differs"@
        } else {
            out is Ok
        },
{
    let fits = match rows.checked_mul(width) {
        Some(expected) => input == expected && scale == width,
        None => false,
    };
    if fits {
        Ok(())
    } else {
        Err("compact RMSNorm shape differs".to_owned())
    }
}

/// The words of the projected queries: three heads of six in each row.
pub const QUERY_WORDS: usize = 54;

/// The words of the projected keys or values: one head of six in each row.
pub const KEY_WORDS: usize = 18;

/// Refuses projections that the rotation cannot take.
pub fn check_rotary_shape(query: usize, key: usize) -> (out: Result<(), String>)
    ensures
        if query != QUERY_WORDS || key != KEY_WORDS {
            out is Err && out->Err_0@ == "rotary real-weight projection shape differs"@
        } else {
            out is Ok
        },
{
    if query != QUERY_WORDS || key != KEY_WORDS {
        Err("rotary real-weight projection shape differs".to_owned())
    } else {
        Ok(())
    }
}

/// Refuses projections that the attention cannot take.
pub fn check_attention_shape(query: usize, key: usize, value: usize) -> (out: Result<(), String>)
    ensures
        if query != QUERY_WORDS || key != KEY_WORDS || value != key {
            out is Err && out->Err_0@ == "attention real-weight projection shape differs"@
        } else {
            out is Ok
        },
{
    if query != QUERY_WORDS || key != KEY_WORDS || value != key {
        Err("attention real-weight projection shape differs".to_owned())
    } else {
        Ok(())
    }
}

/// Refuses a locked slice that is not the weight of the final normalization.
pub fn check_slice_contract(shape: &[u64], is_bf16: bool, byte_size: u64) -> (out: Result<
    (),
    String,
>)
    ensures
        if shape@ == seq![WIDTH as u64] && is_bf16 && byte_size == 2 * WIDTH {
            out is Ok
        } else {
            out is Err && out->Err_0@
                == "locked Gemma slice is not the reviewed final RMSNorm weight"@
        },
{
    let matches = shape.len() == 1 && shape[0] == WIDTH as u64;
    proof {
        if matches {
            assert(shape@ =~= seq![WIDTH as u64]);
        } else if shape@.len() == 1 {
            assert(shape@[0] != seq![WIDTH as u64][0]);
        } else {
            assert(shape@.len() != seq![WIDTH as u64].len());
        }
    }
    if matches && is_bf16 && byte_size == 7_680 {
        Ok(())
    } else {
        Err("locked Gemma slice is not the reviewed final RMSNorm weight".to_owned())
    }
}

/// An operation of the run.
#[derive(Clone, Copy, Debug, PartialEq, Eq, Structural)]
pub enum SliceOp {
    Embedding,
    Matmul,
    GeluTanhMul,
    CompactRmsNorm,
    Rotary,
    Attention,
    FinalRmsNorm,
}

/// Whether a dispatch is exactly that of an operation: on the target, without a fallback, from the
/// kernel of the operation.
pub open spec fn is_exact_dispatch(op: SliceOp, dispatch: DispatchEvidence, target: Seq<char>) -> bool {
    let kernel = dispatch.kernel_symbol@;
    &&& dispatch.target@ == target
    &&& !dispatch.fallback_allowed
    &&& !dispatch.fallback_used
    &&& match op {
        SliceOp::Embedding => {
            &&& dispatch.dispatch_count == 1
            &&& kernel == "embedding.gather.bf16_i32.v1"@
            &&& dispatch.device_symbol@ == "sllm_embedding_gather_bf16_i32_v1"@
        },
        SliceOp::Matmul => dispatch.dispatch_count == 1 && begins_with(kernel, "matmul."@),
        SliceOp::GeluTanhMul => kernel == "elementwise.gelu_tanh_mul.bf16_fp32.v1"@,
        SliceOp::CompactRmsNorm => kernel == "rmsnorm.baseline.wave32.v1"@,
        SliceOp::Rotary => kernel == "rotary.split_half.bf16_fp32.v1"@,
        SliceOp::Attention => kernel == "gemma_causal_attention.online_softmax_gqa_bf16.v1"@,
        SliceOp::FinalRmsNorm => {
            &&& dispatch.dispatch_count == 1
            &&& kernel == "rmsnorm.baseline.wave32.v1"@
            &&& dispatch.device_symbol@ == "sllm_rmsnorm_baseline_wave32_v1"@
        },
    }
}

/// The message about a dispatch that is not exactly that of an operation.
pub open spec fn dispatch_message(op: SliceOp) -> Seq<char> {
    match op {
        SliceOp::Embedding => "embedding dispatch evidence is not exact/no-fallback"@,
        SliceOp::Matmul => "matmul slice dispatch is not exact/no-fallback"@,
        SliceOp::GeluTanhMul => "GELU-tanh dispatch is not exact/no-fallback"@,
        SliceOp::CompactRmsNorm => "compact RMSNorm dispatch is not exact/no-fallback"@,
        SliceOp::Rotary => "rotary slice dispatch is not exact/no-fallback"@,
        SliceOp::Attention => "attention slice dispatch is not exact/no-fallback"@,
        SliceOp::FinalRmsNorm => "RMSNorm dispatch evidence is not exact/no-fallback"@,
    }
}

/// Refuses a dispatch that is not exactly that of an operation.
pub fn check_dispatch(op: SliceOp, dispatch: &DispatchEvidence, target: &str) -> (out: Result<
    (),
    String,
>)
    ensures
        if is_exact_dispatch(op, *dispatch, target@) {
            out is Ok
        } else {
            out is Err && out->Err_0@ == dispatch_message(op)
        },
{
    let kernel = dispatch.kernel_symbol.as_str();
    let device = dispatch.device_symbol.as_str();
    let exact = same_text(dispatch.target.as_str(), target) && !dispatch.fallback_allowed
        && !dispatch.fallback_used && match op {
        SliceOp::Embedding => dispatch.dispatch_count == 1 && same_text(
            kernel,
            "embedding.gather.bf16_i32.v1",
        ) && same_text(device, "sllm_embedding_gather_bf16_i32_v1"),
        SliceOp::Matmul => dispatch.dispatch_count == 1 && starts_with(kernel, "matmul."),
        SliceOp::GeluTanhMul => same_text(kernel, "elementwise.gelu_tanh_mul.bf16_fp32.v1"),
        SliceOp::CompactRmsNorm => same_text(kernel, "rmsnorm.baseline.wave32.v1"),
        SliceOp::Rotary => same_text(kernel, "rotary.split_half.bf16_fp32.v1"),
        SliceOp::Attention => same_text(
            kernel,
            "gemma_causal_attention.online_softmax_gqa_bf16.v1",
        ),
        SliceOp::FinalRmsNorm => dispatch.dispatch_count == 1 && same_text(
            kernel,
            "rmsnorm.baseline.wave32.v1",
        ) && same_text(device, "sllm_rmsnorm_baseline_wave32_v1"),
    };
    if exact {
        return Ok(());
    }
    Err(
        match op {
            SliceOp::Embedding => "embedding dispatch evidence is not exact/no-fallback".to_owned(),
            SliceOp::Matmul => "matmul slice dispatch is not exact/no-fallback".to_owned(),
            SliceOp::GeluTanhMul => "GELU-tanh dispatch is not exact/no-fallback".to_owned(),
            SliceOp::CompactRmsNorm => "compact RMSNorm dispatch is not exact/no-fallback".to_owned(),
            SliceOp::Rotary => "rotary slice dispatch is not exact/no-fallback".to_owned(),
            SliceOp::Attention => "attention slice dispatch is not exact/no-fallback".to_owned(),
            SliceOp::FinalRmsNorm => "RMSNorm dispatch evidence is not exact/no-fallback".to_owned(),
        },
    )
}

/// The message about an output of another length than expected.
pub open spec fn readback_message(op: SliceOp) -> Seq<char> {
    match op {
        SliceOp::Embedding => "embedding output readback length differs"@,
        SliceOp::Matmul => "matmul slice readback length differs"@,
        SliceOp::GeluTanhMul => "GELU-tanh readback length differs"@,
        SliceOp::CompactRmsNorm => "compact RMSNorm readback length differs"@,
        SliceOp::Rotary => "rotary slice readback length differs"@,
        SliceOp::Attention => "attention slice readback length differs"@,
        SliceOp::FinalRmsNorm => "output readback length differs"@,
    }
}

/// The message about an output of another length than expected.
pub fn readback_refusal(op: SliceOp) -> (out: String)
    ensures
        out@ == readback_message(op),
{
    match op {
        SliceOp::Embedding => "embedding output readback length differs".to_owned(),
        SliceOp::Matmul => "matmul slice readback length differs".to_owned(),
        SliceOp::GeluTanhMul => "GELU-tanh readback length differs".to_owned(),
        SliceOp::CompactRmsNorm => "compact RMSNorm readback length differs".to_owned(),
        SliceOp::Rotary => "rotary slice readback length differs".to_owned(),
        SliceOp::Attention => "attention slice readback length differs".to_owned(),
        SliceOp::FinalRmsNorm => "output readback length differs".to_owned(),
    }
}

/// The activations go through their numerators in even steps: from one word to the next by thirty-seven
/// modulo 509 over sixty-four, and by nineteen modulo ninety-seven over thirty-two for the small ones.
/// A scale is six ones.
pub proof fn activations_follow_their_pattern(
    large: Vec<u16>,
    small: Vec<u16>,
    scale: Vec<u16>,
    at: int,
    code: int,
    small_code: int,
)
    requires
        call_ensures(make_activation, (), large),
        call_ensures(small_activation, (), small),
        call_ensures(unit_scale, (), scale),
        0 <= code < 509,
        (37 * at + 11 - code) % 509 == 0,
        0 <= small_code < 97,
        (19 * at + 7 - small_code) % 97 == 0,
    ensures
        large@.len() == 3 * 3840,
        small@.len() == 3 * 17,
        scale@.len() == 6,
        0 <= at < large@.len() ==> large@[at] == bf16_quotient(code - 254, 64),
        0 <= at < small@.len() ==> small@[at] == bf16_quotient(small_code - 48, 32),
        0 <= at < 6 ==> scale@[at] == bf16_quotient(1, 1),
{
    code_is_the_rest(37 * at + 11, code, 509);
    code_is_the_rest(19 * at + 7, small_code, 97);
}

pub(crate) proof fn gathered_rows_stand_in_order(
    table: Seq<u8>,
    ids: Seq<i32>,
    row_bytes: int,
    row: int,
    column: int,
)
    requires
        ids_in_table(table, ids, row_bytes),
        row_bytes >= 0,
        0 <= row < ids.len(),
        0 <= column < row_bytes,
    ensures
        gathered(table, ids, row_bytes).len() == ids.len() * row_bytes,
        gathered(table, ids, row_bytes)[row * row_bytes + column] == table[ids[row] * row_bytes
            + column],
    decreases ids.len(),
{
    let front = ids.drop_last();
    let n = front.len() as int;
    let last = ids.last() as int;
    assert(ids[n] == last);
    assert(0 <= last * row_bytes) by (nonlinear_arith)
        requires
            last >= 0,
            row_bytes >= 0,
    ;
    assert(n * row_bytes + row_bytes == (n + 1) * row_bytes && 0 <= row * row_bytes)
        by (nonlinear_arith)
        requires
            row >= 0,
            row_bytes >= 0,
    ;
    assert forall|i: int| 0 <= i < front.len() implies 0 <= #[trigger] front[i] && front[i]
        * row_bytes + row_bytes <= table.len() by {
        assert(front[i] == ids[i]);
    }
    if n > 0 {
        gathered_rows_stand_in_order(
            table,
            front,
            row_bytes,
            if row < n {
                row
            } else {
                0
            },
            column,
        );
        if row < n {
            assert(row * row_bytes + column < n * row_bytes) by (nonlinear_arith)
                requires
                    0 <= row < n,
                    0 <= column < row_bytes,
            ;
        }
    } else {
        assert(gathered(table, front, row_bytes).len() == 0);
        assert(n * row_bytes == 0) by (nonlinear_arith)
            requires
                n == 0,
        ;
    }
}

/// A gathered row is the row of the table that its identifier names, byte by byte.
pub proof fn gathered_rows_are_those_named(
    table: &[u8],
    ids: &[i32],
    row_bytes: usize,
    out: Vec<u8>,
    row: int,
    column: int,
)
    requires
        ids_in_table(table@, ids@, row_bytes as int),
        call_ensures(gather_rows, (table, ids, row_bytes), out),
        0 <= row < ids@.len(),
        0 <= column < row_bytes,
    ensures
        out@.len() == ids@.len() * row_bytes,
        out@[row * row_bytes + column] == table@[ids@[row] * row_bytes + column],
{
    gathered_rows_stand_in_order(table@, ids@, row_bytes as int, row, column);
}

/// The embedding must give the third row of the table, its first row and its third row again.
pub proof fn the_embedding_gives_rows_out_of_order(table: &[u8], out: Vec<u8>, column: int)
    requires
        table@.len() == 3 * 7680,
        call_ensures(expected_embedding, (table,), out),
        0 <= column < 7680,
    ensures
        out@.len() == 3 * 7680,
        out@[column] == table@[2 * 7680 + column],
        out@[7680 + column] == table@[column],
        out@[2 * 7680 + column] == table@[2 * 7680 + column],
{
    let ids = embedding_id_list();
    assert(ids_in_table(table@, ids, 7680));
    gathered_rows_stand_in_order(table@, ids, 7680, 0, column);
    gathered_rows_stand_in_order(table@, ids, 7680, 1, column);
    gathered_rows_stand_in_order(table@, ids, 7680, 2, column);
}

/// A product reads a corner of its tensor: as many rows as it has columns, of each as many words as it
/// is deep, and rows that lie as far apart as the tensor is wide. It is planned just where the corner
/// lies inside a BF16 tensor of two dimensions and the activation fits.
pub proof fn products_read_a_corner(
    request: &MatmulRequest,
    activation: usize,
    tensor: &TensorInfo,
    out: Result<MatmulPlan, String>,
)
    requires
        tensor.shape@.len() == 2 ==> tensor.shape@[1] <= 0x7fff_ffff_ffff_ffff,
        call_ensures(matmul_plan, (request, activation, Some(tensor)), out),
    ensures
        out is Ok <==> {
            &&& activation == request.m * request.k
            &&& tensor.is_bf16
            &&& tensor.shape@.len() == 2
            &&& tensor.shape@[0] <= usize::MAX && tensor.shape@[1] <= usize::MAX
            &&& request.n <= tensor.shape@[0]
            &&& request.k <= tensor.shape@[1]
        },
        out matches Ok(plan) ==> {
            &&& plan.rows == request.n
            &&& plan.row_bytes == 2 * request.k
            &&& plan.stride_bytes == 2 * tensor.shape@[1]
        },
{
}

/// A row of the corner begins one stride behind the row before it.
pub proof fn corner_rows_lie_a_stride_apart(plan: &MatmulPlan, row: usize, a: u64, b: u64, c: u64)
    requires
        row + 1 < plan.rows,
        plan.rows * plan.stride_bytes <= u64::MAX,
        call_ensures(MatmulPlan::row_offset, (plan, 0), a),
        call_ensures(MatmulPlan::row_offset, (plan, row), b),
        call_ensures(MatmulPlan::row_offset, (plan, (row + 1) as usize), c),
    ensures
        a == 0,
        c - b == plan.stride_bytes,
{
    assert((row + 1) * plan.stride_bytes == row * plan.stride_bytes + plan.stride_bytes)
        by (nonlinear_arith);
    assert(0 * plan.stride_bytes == 0) by (nonlinear_arith);
}

/// An accepted dispatch ran on the target without fallback, and its kernel tells the operation: only
/// the two normalizations share one. The embedding, the products and the last normalization are single
/// dispatches.
pub proof fn kernels_tell_the_operation(
    op: SliceOp,
    other: SliceOp,
    dispatch: &DispatchEvidence,
    target: &str,
)
    requires
        call_ensures(check_dispatch, (op, dispatch, target), Ok(())),
        call_ensures(check_dispatch, (other, dispatch, target), Ok(())),
    ensures
        dispatch.target@ == target@,
        !dispatch.fallback_allowed && !dispatch.fallback_used,
        op == SliceOp::Embedding || op == SliceOp::Matmul || op == SliceOp::FinalRmsNorm
            ==> dispatch.dispatch_count == 1,
        op == other || op == SliceOp::CompactRmsNorm && other == SliceOp::FinalRmsNorm || op
            == SliceOp::FinalRmsNorm && other == SliceOp::CompactRmsNorm,
{
    reveal_strlit("embedding.gather.bf16_i32.v1");
    reveal_strlit("matmul.");
    reveal_strlit("elementwise.gelu_tanh_mul.bf16_fp32.v1");
    reveal_strlit("rmsnorm.baseline.wave32.v1");
    reveal_strlit("rotary.split_half.bf16_fp32.v1");
    reveal_strlit("gemma_causal_attention.online_softmax_gqa_bf16.v1");
    let kernel = dispatch.kernel_symbol@;
    if begins_with(kernel, "matmul."@) {
        assert(kernel.take(7)[0] == kernel[0]);
        assert("matmul."@[0] == 'm');
    }
    assert("embedding.gather.bf16_i32.v1"@[0] == 'e' && "embedding.gather.bf16_i32.v1"@[1] == 'm');
    assert("elementwise.gelu_tanh_mul.bf16_fp32.v1"@[0] == 'e'
        && "elementwise.gelu_tanh_mul.bf16_fp32.v1"@[1] == 'l');
    assert("rmsnorm.baseline.wave32.v1"@[0] == 'r' && "rmsnorm.baseline.wave32.v1"@[1] == 'm');
    assert("rotary.split_half.bf16_fp32.v1"@[0] == 'r' && "rotary.split_half.bf16_fp32.v1"@[1]
        == 'o');
    assert("gemma_causal_attention.online_softmax_gqa_bf16.v1"@[0] == 'g');
}

/// The shapes of a slice are those of its operations: every row of a norm has a scale of its width, the
/// queries have three times the words of the keys, the values as many as the keys, and both sides of a
/// gate are of one length.
pub proof fn slices_have_the_shapes_of_their_operations(
    rows: usize,
    width: usize,
    input: usize,
    scale: usize,
    query: usize,
    key: usize,
    value: usize,
    gate: usize,
    up: usize,
    norm: Result<(), String>,
    rotary: Result<(), String>,
    attention: Result<(), String>,
    gelu: Result<(), String>,
)
    requires
        call_ensures(check_rmsnorm_shape, (input, scale, rows, width), norm),
        call_ensures(check_rotary_shape, (query, key), rotary),
        call_ensures(check_attention_shape, (query, key, value), attention),
        call_ensures(check_gelu_shape, (gate, up), gelu),
    ensures
        norm is Ok <==> input == rows * width && scale == width,
        rotary is Ok <==> query == 54 && key == 18,
        rotary is Ok ==> query == 3 * key,
        attention is Ok <==> rotary is Ok && value == key,
        gelu is Ok <==> gate == up && gate > 0,
{
}

/// The weight of the final norm is one row of 3840 words of two bytes.
pub proof fn the_norm_weight_is_one_row(shape: &[u64], is_bf16: bool, byte_size: u64, out: Result<(), String>)
    requires
        call_ensures(check_slice_contract, (shape, is_bf16, byte_size), out),
    ensures
        out is Ok <==> shape@.len() == 1 && shape@[0] == 3840 && is_bf16 && byte_size == 7680,
        out is Ok ==> byte_size == 2 * shape@[0],
{
    if shape@.len() == 1 && shape@[0] == 3840 {
        assert(shape@ =~= seq![WIDTH as u64]);
    }
}

/// A payload is read as words exactly where it has no odd byte, and gathered rows are taken only where
/// they are the same bytes.
pub proof fn payloads_are_whole_words(
    bytes: &[u8],
    expected: &[u8],
    words: Result<Vec<u16>, String>,
    same: Result<(), String>,
)
    requires
        call_ensures(bytes_to_words, (bytes,), words),
        call_ensures(check_embedding, (bytes, expected), same),
    ensures
        words is Ok <==> bytes@.len() % 2 == 0,
        words matches Ok(read) ==> 2 * read@.len() == bytes@.len() && forall|i: int|
            0 <= i < read@.len() ==> #[trigger] read@[i] == bytes@[2 * i] + 256 * bytes@[2 * i + 1],
        same is Ok <==> bytes@ == expected@,
{
}

} // verus!
