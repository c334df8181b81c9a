//! The elementwise run: its cases, the inputs they take, and the dispatches they must come from.
use crate::attention_inputs::{bf16_quotient, bf16_quotient_word};
use crate::audit::DispatchEvidence;
use crate::bytes::{same_items, words_image, words_to_bytes};
use crate::number::{
    bf16_rne, f32_exponent, f32_fraction, f32_magnitude, f32_quotient, f32_quotient_bits,
    float_to_bf16_rne,
};
use crate::text::{append_decimal, decimal, joined, same_text};
use vstd::arithmetic::power2::{lemma2_to64, pow2};
use vstd::prelude::*;
use vstd::string::StringExecFns;

verus! {

broadcast use vstd::string::group_string_axioms;

/// The operations of the run, and everything that is none of them.
#[derive(Clone, Copy, Debug, PartialEq, Eq, Structural)]
pub enum ElementwiseKind {
    Copy,
    Add,
    SiluMul,
    ScalarMul,
    GeluTanhMul,
    TanhSoftcap,
    Other,
}

impl ElementwiseKind {
    /// The kernel of an operation: its number, its name, and its name on the device.
    pub open spec fn kernel(self) -> Option<(u32, Seq<char>, Seq<char>)> {
        match self {
            ElementwiseKind::Copy => Some(
                (1, "elementwise.copy.bf16.v1"@, "sllm_elementwise_copy_bf16_v1"@),
            ),
            ElementwiseKind::Add => Some(
                (2, "elementwise.add.bf16_fp32.v1"@, "sllm_elementwise_add_bf16_fp32_v1"@),
            ),
            ElementwiseKind::SiluMul => Some(
                (
                    3,
                    "elementwise.silu_mul.bf16_fp32.v1"@,
                    "sllm_elementwise_silu_mul_bf16_fp32_v1"@,
                ),
            ),
            ElementwiseKind::ScalarMul => Some(
                (
                    5,
                    "elementwise.scalar_mul.bf16_fp32.v1"@,
                    "sllm_elementwise_scalar_mul_bf16_fp32_v1"@,
                ),
            ),
            ElementwiseKind::GeluTanhMul => Some(
                (
                    6,
                    "elementwise.gelu_tanh_mul.bf16_fp32.v1"@,
                    "sllm_elementwise_gelu_tanh_mul_bf16_fp32_v1"@,
                ),
            ),
            ElementwiseKind::TanhSoftcap => Some(
                (
                    7,
                    "elementwise.tanh_softcap.bf16_fp32.v1"@,
                    "sllm_elementwise_tanh_softcap_bf16_fp32_v1"@,
                ),
            ),
            ElementwiseKind::Other => None,
        }
    }

    fn expected_kernel(self) -> (out: Option<(u32, &'static str, &'static str)>)
        ensures
            match self.kernel() {
                Some((id, kernel_symbol, device_symbol)) => {
                    &&& out is Some
                    &&& out->Some_0.0 == id
                    &&& out->Some_0.1@ == kernel_symbol
                    &&& out->Some_0.2@ == device_symbol
                },
                None => out is None,
            },
    {
        match self {
            ElementwiseKind::Copy => Some(
                (1, "elementwise.copy.bf16.v1", "sllm_elementwise_copy_bf16_v1"),
            ),
            ElementwiseKind::Add => Some(
                (2, "elementwise.add.bf16_fp32.v1", "sllm_elementwise_add_bf16_fp32_v1"),
            ),
            ElementwiseKind::SiluMul => Some(
                (3, "elementwise.silu_mul.bf16_fp32.v1", "sllm_elementwise_silu_mul_bf16_fp32_v1"),
            ),
            ElementwiseKind::ScalarMul => Some(
                (
                    5,
                    "elementwise.scalar_mul.bf16_fp32.v1",
                    "sllm_elementwise_scalar_mul_bf16_fp32_v1",
                ),
            ),
            ElementwiseKind::GeluTanhMul => Some(
                (
                    6,
                    "elementwise.gelu_tanh_mul.bf16_fp32.v1",
                    "sllm_elementwise_gelu_tanh_mul_bf16_fp32_v1",
                ),
            ),
            ElementwiseKind::TanhSoftcap => Some(
                (
                    7,
                    "elementwise.tanh_softcap.bf16_fp32.v1",
                    "sllm_elementwise_tanh_softcap_bf16_fp32_v1",
                ),
            ),
            ElementwiseKind::Other => None,
        }
    }

    /// Whether the second input of an operation is a single word.
    pub fn takes_scalar(self) -> (out: bool)
        ensures
            out == (self == ElementwiseKind::ScalarMul || self == ElementwiseKind::TanhSoftcap),
    {
        match self {
            ElementwiseKind::ScalarMul => true,
            ElementwiseKind::TanhSoftcap => true,
            _ => false,
        }
    }
}

/// Two operations have the same kernel number only if they are the same.
pub proof fn kernel_numbers_are_distinct(a: ElementwiseKind, b: ElementwiseKind)
    requires
        a.kernel() is Some,
        b.kernel() is Some,
    ensures
        a.kernel()->Some_0.0 == b.kernel()->Some_0.0 <==> a == b,
{
}

/// How many workgroups of two hundred and fifty-six cover a number of elements.
pub open spec fn covering_groups(elements: nat) -> nat {
    ((elements + 255) / 256) as nat
}

/// The workgroups of a dispatch.
pub fn dispatch_grid_size(element_count: usize) -> (out: Result<u32, String>)
    ensures
        if covering_groups(element_count as nat) <= u32::MAX {
            out is Ok && out->Ok_0 == covering_groups(element_count as nat)
        } else {
            out is Err && out->Err_0@ == "grid size does not fit u32"@
        },
{
    let rest: usize = if element_count % 256 != 0 {
        1
    } else {
        0
    };
    let blocks: usize = element_count / 256 + rest;
    if blocks as u64 <= u32::MAX as u64 {
        Ok(blocks as u32)
    } else {
        Err("grid size does not fit u32".to_owned())
    }
}

/// A number of workgroups covers the elements, and one fewer would not.
pub proof fn groups_just_cover(elements: nat)
    ensures
        covering_groups(elements) * 256 >= elements,
        elements > 0 ==> (covering_groups(elements) - 1) * 256 < elements,
        elements == 0 ==> covering_groups(elements) == 0,
{
}

/// Whether a dispatch is exactly the one of an operation.
pub open spec fn is_exact_elementwise(
    dispatch: DispatchEvidence,
    kind: ElementwiseKind,
    element_count: nat,
    target: Seq<char>,
) -> bool {
    &&& dispatch.abi_version == 1
    &&& dispatch.info_version == 1
    &&& dispatch.dispatch_id != 0
    &&& dispatch.dispatch_count == 1
    &&& dispatch.kernel_id == kind.kernel()->Some_0.0
    &&& dispatch.workgroup_size_x == 256
    &&& dispatch.grid_size_x == covering_groups(element_count)
    &&& dispatch.row_count == 1
    &&& dispatch.normalized_size == element_count
    &&& dispatch.backend == 1
    &&& !dispatch.fallback_allowed
    &&& !dispatch.fallback_used
    &&& dispatch.kernel_symbol@ == kind.kernel()->Some_0.1
    &&& dispatch.device_symbol@ == kind.kernel()->Some_0.2
    &&& dispatch.target@ == target
}

/// Why a dispatch is not the one of an operation.
pub open spec fn dispatch_refusal(
    dispatch: DispatchEvidence,
    kind: ElementwiseKind,
    name: Seq<char>,
    element_count: nat,
    target: Seq<char>,
) -> Option<Seq<char>> {
    if kind.kernel() is None {
        Some("evidence received a non-elementwise operation"@)
    } else if covering_groups(element_count) > u32::MAX {
        Some("grid size does not fit u32"@)
    } else if !is_exact_elementwise(dispatch, kind, element_count, target) {
        Some(name + " dispatch metadata violated the exact contract"@)
    } else {
        None
    }
}

/// Refuses a dispatch that is not the one of an operation; `name` is the operation's name.
pub fn validate_dispatch(
    dispatch: &DispatchEvidence,
    kind: ElementwiseKind,
    name: &str,
    element_count: usize,
    target: &str,
) -> (out: Result<(), String>)
    ensures
        match dispatch_refusal(*dispatch, kind, name@, element_count as nat, target@) {
            Some(message) => out is Err && out->Err_0@ == message,
            None => out is Ok,
        },
{
    let (kernel_id, kernel_symbol, device_symbol) = match kind.expected_kernel() {
        Some(kernel) => kernel,
        None => {
            return Err("evidence received a non-elementwise operation".to_owned());
        },
    };
    let grid: u32 = match dispatch_grid_size(element_count) {
        Ok(grid) => grid,
        Err(message) => {
            return Err(message);
        },
    };
    if dispatch.abi_version != 1 || dispatch.info_version != 1 || dispatch.dispatch_id == 0
        || dispatch.dispatch_count != 1 || dispatch.kernel_id != kernel_id
        || dispatch.workgroup_size_x != 256 || dispatch.grid_size_x != grid || dispatch.row_count
        != 1 || dispatch.normalized_size != element_count as u64 || dispatch.backend != 1
        || dispatch.fallback_allowed || dispatch.fallback_used || !same_text(
        dispatch.kernel_symbol.as_str(),
        kernel_symbol,
    ) || !same_text(dispatch.device_symbol.as_str(), device_symbol) || !same_text(
        dispatch.target.as_str(),
        target,
    ) {
        return Err(joined(name, " dispatch metadata violated the exact contract"));
    }
    Ok(())
}

/// How many units of 2^-29 a binary32 value from 2^-6 on makes up.
pub open spec fn f32_units(bits: u32) -> int {
    if bits == 0 {
        0
    } else {
        (0x80_0000 + f32_fraction(bits) as int) * pow2((f32_exponent(bits) - 121) as nat)
    }
}

/// A binary32 value less an integer, rounded to the nearest value.
pub open spec fn f32_less(bits: u32, integer: int) -> u32 {
    f32_quotient(f32_units(bits) - integer * 0x2000_0000, 0x2000_0000)
}

proof fn quotient_range(n: nat, d: nat)
    requires
        1 <= n < 503 && d == 31 || 1 <= n < 257 && d == 47,
    ensures
        121 * 0x80_0000 <= f32_magnitude(n, d) < 132 * 0x80_0000,
{
    reveal_with_fuel(f32_magnitude, 8);
}

fn ratio_less(n: u64, d: u64, integer: i64) -> (out: u16)
    requires
        n < 503 && d == 31 || n < 257 && d == 47,
        0 <= integer <= 8,
    ensures
        out == bf16_rne(f32_less(f32_quotient(n as int, d as nat), integer as int)),
{
    let bits: u32 = f32_quotient_bits(n as i64, d);
    let units: i64 = if n == 0 {
        0
    } else {
        proof {
            quotient_range(n as nat, d as nat);
            lemma2_to64();
        }
        assert(bits == f32_magnitude(n as nat, d as nat));
        let exponent: u32 = bits / 0x80_0000 % 256;
        let significand: i64 = 0x80_0000 + (bits % 0x80_0000) as i64;
        assert(121 <= exponent < 132);
        let scale: i64 = if exponent == 121 {
            1
        } else if exponent == 122 {
            2
        } else if exponent == 123 {
            4
        } else if exponent == 124 {
            8
        } else if exponent == 125 {
            16
        } else if exponent == 126 {
            32
        } else if exponent == 127 {
            64
        } else if exponent == 128 {
            128
        } else if exponent == 129 {
            256
        } else if exponent == 130 {
            512
        } else {
            1024
        };
        assert(scale == pow2((exponent - 121) as nat));
        assert(0 <= significand * scale <= 0x100_0000 * 1024) by (nonlinear_arith)
            requires
                0 <= significand <= 0x100_0000,
                0 <= scale <= 1024,
        ;
        significand * scale
    };
    float_to_bf16_rne(f32_quotient_bits(units - integer * 0x2000_0000, 0x2000_0000))
}

/// A word of the first input: a thirty-first less eight.
pub open spec fn left_word(index: int) -> u16 {
    bf16_rne(f32_less(f32_quotient((index * 37 + 11) % 503, 31), 8))
}

/// A word of the second input: a forty-seventh less two.
pub open spec fn right_word(index: int) -> u16 {
    bf16_rne(f32_less(f32_quotient((index * 19 + 7) % 257, 47), 2))
}

/// The first input of a number of elements: from three elements on it starts with an infinity, a
/// NaN and a zero.
pub open spec fn left_words(count: nat) -> Seq<u16> {
    Seq::new(
        count,
        |i: int|
            if count >= 3 && i == 0 {
                0x7f80
            } else if count >= 3 && i == 1 {
                0x7fc1
            } else if count >= 3 && i == 2 {
                0x8000
            } else {
                left_word(i)
            },
    )
}

/// The second input of a number of elements.
pub open spec fn right_words(count: nat) -> Seq<u16> {
    Seq::new(
        count,
        |i: int|
            if count >= 3 && i == 0 {
                0xff80
            } else if count >= 3 && i == 1 {
                bf16_quotient(1, 1)
            } else if count >= 3 && i == 2 {
                0x0000
            } else {
                right_word(i)
            },
    )
}

/// The inputs of a number of elements.
pub fn make_inputs(element_count: usize) -> (out: (Vec<u16>, Vec<u16>))
    requires
        element_count * 37 + 11 <= usize::MAX,
    ensures
        out.0@ == left_words(element_count as nat),
        out.1@ == right_words(element_count as nat),
{
    let mut left: Vec<u16> = Vec::new();
    let mut right: Vec<u16> = Vec::new();
    for index in 0..element_count
        invariant
            element_count * 37 + 11 <= usize::MAX,
            left@ == Seq::new(index as nat, |i: int| left_word(i)),
            right@ == Seq::new(index as nat, |i: int| right_word(i)),
    {
        left.push(ratio_less(((index * 37 + 11) % 503) as u64, 31, 8));
        right.push(ratio_less(((index * 19 + 7) % 257) as u64, 47, 2));
        assert(left@ =~= Seq::new((index + 1) as nat, |i: int| left_word(i)));
        assert(right@ =~= Seq::new((index + 1) as nat, |i: int| right_word(i)));
    }
    if element_count >= 3 {
        left.set(0, 0x7f80);
        right.set(0, 0xff80);
        left.set(1, 0x7fc1);
        right.set(1, bf16_quotient_word(1, 1));
        left.set(2, 0x8000);
        right.set(2, 0x0000);
    }
    assert(left@ =~= left_words(element_count as nat));
    assert(right@ =~= right_words(element_count as nat));
    (left, right)
}

/// The place at which the inputs of the gated operation tell whether its intermediate is rounded.
pub const SILU_BOUNDARY_INDEX: usize = 3;

/// The word of the first input at that place.
pub const SILU_BOUNDARY_GATE: u16 = 0xc100;

/// The word of the second input at that place.
pub const SILU_BOUNDARY_UP: u16 = 0xc0fe;

/// The BF16 word nearest to the square root of 3840, which is 62.
pub const EMBEDDING_SCALE: u16 = 0x4278;

/// The inputs of an operation.
pub open spec fn operation_inputs(kind: ElementwiseKind, count: nat) -> (Seq<u16>, Seq<u16>) {
    let left = left_words(count);
    let right = right_words(count);
    match kind {
        ElementwiseKind::ScalarMul => (left, seq![EMBEDDING_SCALE]),
        ElementwiseKind::TanhSoftcap => (left, seq![bf16_quotient(30, 1)]),
        ElementwiseKind::SiluMul => if count > SILU_BOUNDARY_INDEX {
            (
                left.update(SILU_BOUNDARY_INDEX as int, SILU_BOUNDARY_GATE),
                right.update(SILU_BOUNDARY_INDEX as int, SILU_BOUNDARY_UP),
            )
        } else {
            (left, right)
        },
        ElementwiseKind::Add => if count >= 3 {
            (
                left.update(0, 0x7f80).update(1, 0xff80).update(2, 0x8000),
                right.update(0, bf16_quotient(1, 1)).update(1, bf16_quotient(-1, 1)).update(
                    2,
                    0x0000,
                ),
            )
        } else {
            (left, right)
        },
        _ => (left, right),
    }
}

/// The inputs of an operation.
pub fn case_inputs(kind: ElementwiseKind, element_count: usize) -> (out: (Vec<u16>, Vec<u16>))
    requires
        element_count * 37 + 11 <= usize::MAX,
    ensures
        (out.0@, out.1@) == operation_inputs(kind, element_count as nat),
{
    let (mut left, mut right) = make_inputs(element_count);
    match kind {
        ElementwiseKind::ScalarMul => {
            right = vec![EMBEDDING_SCALE];
            assert(right@ =~= seq![EMBEDDING_SCALE]);
        },
        ElementwiseKind::TanhSoftcap => {
            let cap: u16 = bf16_quotient_word(30, 1);
            right = vec![cap];
            assert(right@ =~= seq![bf16_quotient(30, 1)]);
        },
        ElementwiseKind::SiluMul => {
            if element_count > SILU_BOUNDARY_INDEX {
                left.set(SILU_BOUNDARY_INDEX, SILU_BOUNDARY_GATE);
                right.set(SILU_BOUNDARY_INDEX, SILU_BOUNDARY_UP);
            }
        },
        ElementwiseKind::Add => {
            if element_count >= 3 {
                left.set(0, 0x7f80);
                right.set(0, bf16_quotient_word(1, 1));
                left.set(1, 0xff80);
                right.set(1, bf16_quotient_word(-1, 1));
                left.set(2, 0x8000);
                right.set(2, 0x0000);
            }
        },
        _ => {},
    }
    (left, right)
}

/// The inputs of an operation are as long as it takes them.
pub proof fn inputs_have_the_operation_lengths(kind: ElementwiseKind, count: nat)
    ensures
        operation_inputs(kind, count).0.len() == count,
        operation_inputs(kind, count).1.len() == if kind == ElementwiseKind::ScalarMul || kind
            == ElementwiseKind::TanhSoftcap {
            1
        } else {
            count
        },
{
}

/// The sizes of the run.
pub open spec fn case_sizes(gemma_ops: bool) -> Seq<usize> {
    if gemma_ops {
        seq![1usize, 3, 17, 255, 256, 257, 3_839, 3_840, 3_841, 262_144]
    } else {
        seq![1usize, 3, 17, 255, 256, 257, 2_560]
    }
}

/// The operations of the run.
pub open spec fn case_kinds(gemma_ops: bool) -> Seq<ElementwiseKind> {
    if gemma_ops {
        seq![
            ElementwiseKind::ScalarMul,
            ElementwiseKind::GeluTanhMul,
            ElementwiseKind::TanhSoftcap,
        ]
    } else {
        seq![ElementwiseKind::Copy, ElementwiseKind::Add, ElementwiseKind::SiluMul]
    }
}

/// The cases of the run: every size with every operation, the sizes outermost.
pub open spec fn case_plan(gemma_ops: bool) -> Seq<(usize, ElementwiseKind)> {
    let sizes = case_sizes(gemma_ops);
    Seq::new(
        sizes.len() * 3,
        |i: int| (sizes[i / 3], case_kinds(gemma_ops)[i % 3]),
    )
}

/// The cases of the run.
pub fn planned_cases(gemma_ops: bool) -> (out: Vec<(usize, ElementwiseKind)>)
    ensures
        out@ == case_plan(gemma_ops),
{
    let sizes: Vec<usize> = if gemma_ops {
        vec![1, 3, 17, 255, 256, 257, 3_839, 3_840, 3_841, 262_144]
    } else {
        vec![1, 3, 17, 255, 256, 257, 2_560]
    };
    assert(sizes@ =~= case_sizes(gemma_ops));
    let kinds: Vec<ElementwiseKind> = if gemma_ops {
        vec![ElementwiseKind::ScalarMul, ElementwiseKind::GeluTanhMul, ElementwiseKind::TanhSoftcap]
    } else {
        vec![ElementwiseKind::Copy, ElementwiseKind::Add, ElementwiseKind::SiluMul]
    };
    assert(kinds@ =~= case_kinds(gemma_ops));
    let ghost all = case_plan(gemma_ops);
    let total: usize = sizes.len() * 3;
    let mut plan: Vec<(usize, ElementwiseKind)> = Vec::new();
    for i in 0..total
        invariant
            sizes@ == case_sizes(gemma_ops),
            kinds@ == case_kinds(gemma_ops),
            total == sizes@.len() * 3,
            all == case_plan(gemma_ops),
            plan@ == all.take(i as int),
    {
        plan.push((sizes[i / 3], kinds[i % 3]));
        assert(all.take(i + 1) =~= all.take(i as int).push(all[i as int]));
    }
    assert(all.take(total as int) =~= all);
    plan
}

/// Whether the result of a case must differ from the one without a rounded intermediate.
pub fn boundary_is_exercised(kind: ElementwiseKind, element_count: usize) -> (out: bool)
    ensures
        out == (kind == ElementwiseKind::SiluMul && element_count > SILU_BOUNDARY_INDEX),
{
    kind == ElementwiseKind::SiluMul && element_count > SILU_BOUNDARY_INDEX
}

/// Why a result is refused: where the boundary is exercised the expected words must show it, and
/// the bytes must be those of the expected words.
pub open spec fn result_refusal(
    kind: ElementwiseKind,
    name: Seq<char>,
    count: nat,
    expected: Seq<u16>,
    fused: Seq<u16>,
    actual: Seq<u8>,
) -> Option<Seq<char>> {
    if kind == ElementwiseKind::SiluMul && count > SILU_BOUNDARY_INDEX && expected == fused {
        Some(
            "silu_mul oracle did not exercise the BF16 intermediate boundary at "@ + decimal(count)
                + " elements"@,
        )
    } else if words_image(expected) != actual {
        Some(name + " numerical oracle mismatch at "@ + decimal(count) + " elements"@)
    } else {
        None
    }
}

/// Compares the bytes of a result with the expected words; `fused` is what the gated operation
/// would give without a rounded intermediate.
pub fn check_result(
    kind: ElementwiseKind,
    name: &str,
    element_count: usize,
    expected: &[u16],
    fused: &[u16],
    actual: &[u8],
) -> (out: Result<(), String>)
    ensures
        match result_refusal(kind, name@, element_count as nat, expected@, fused@, actual@) {
            Some(message) => out is Err && out->Err_0@ == message,
            None => out is Ok,
        },
{
    if boundary_is_exercised(kind, element_count) && same_items(expected, fused) {
        let mut message =
            "silu_mul oracle did not exercise the BF16 intermediate boundary at ".to_owned();
        append_decimal(&mut message, element_count as u64);
        message.append(" elements");
        return Err(message);
    }
    let bytes = words_to_bytes(expected);
    if !same_items(bytes.as_slice(), actual) {
        let mut message = joined(name, " numerical oracle mismatch at ");
        append_decimal(&mut message, element_count as u64);
        message.append(" elements");
        return Err(message);
    }
    Ok(())
}

/// A dispatch is accepted just where it is a fresh single one of the operation's kernel, on the HIP
/// backend of the target without fallback, over all elements in one row, with just as many groups of
/// 256 as cover them.
pub proof fn dispatches_cover_every_element(
    dispatch: &DispatchEvidence,
    kind: ElementwiseKind,
    name: &str,
    count: usize,
    target: &str,
    groups: int,
)
    requires
        call_ensures(validate_dispatch, (dispatch, kind, name, count, target), Ok(())),
        256 * (groups - 1) < count <= 256 * groups,
    ensures
        dispatch.grid_size_x == groups,
        dispatch.workgroup_size_x == 256,
        dispatch.row_count == 1 && dispatch.normalized_size == count,
        dispatch.dispatch_id != 0 && dispatch.dispatch_count == 1,
        dispatch.abi_version == 1 && dispatch.info_version == 1 && dispatch.backend == 1,
        !dispatch.fallback_allowed && !dispatch.fallback_used,
        dispatch.target@ == target@,
        dispatch.kernel_id == match kind {
            ElementwiseKind::Copy => 1,
            ElementwiseKind::Add => 2,
            ElementwiseKind::SiluMul => 3,
            ElementwiseKind::ScalarMul => 5,
            ElementwiseKind::GeluTanhMul => 6,
            ElementwiseKind::TanhSoftcap => 7,
            ElementwiseKind::Other => 0int,
        },
{
    assert((count + 255) / 256 == groups);
}

/// Every other dispatch of the same case is accepted just where it differs in its number at most.
pub proof fn a_case_fixes_its_dispatch(
    a: &DispatchEvidence,
    b: &DispatchEvidence,
    kind: ElementwiseKind,
    name: &str,
    count: usize,
    target: &str,
    out: Result<(), String>,
)
    requires
        call_ensures(validate_dispatch, (a, kind, name, count, target), Ok(())),
        call_ensures(validate_dispatch, (b, kind, name, count, target), out),
    ensures
        out is Ok <==> {
            &&& b.dispatch_id != 0
            &&& a.abi_version == b.abi_version
            &&& a.info_version == b.info_version
            &&& a.dispatch_count == b.dispatch_count
            &&& a.kernel_id == b.kernel_id
            &&& a.workgroup_size_x == b.workgroup_size_x
            &&& a.grid_size_x == b.grid_size_x
            &&& a.row_count == b.row_count
            &&& a.normalized_size == b.normalized_size
            &&& a.backend == b.backend
            &&& a.fallback_allowed == b.fallback_allowed
            &&& a.fallback_used == b.fallback_used
            &&& a.kernel_symbol@ == b.kernel_symbol@
            &&& a.device_symbol@ == b.device_symbol@
            &&& a.target@ == b.target@
        },
{
}

/// A result is accepted just where its bytes are those of the expected words; where the gated operation
/// reaches its boundary, these must differ from the words without a rounded intermediate.
pub proof fn results_are_exact(
    kind: ElementwiseKind,
    name: &str,
    count: usize,
    expected: &[u16],
    fused: &[u16],
    actual: &[u8],
    out: Result<(), String>,
)
    requires
        call_ensures(check_result, (kind, name, count, expected, fused, actual), out),
    ensures
        out is Ok <==> actual@ == words_image(expected@) && (kind == ElementwiseKind::SiluMul && count
            >= 4 ==> expected@ != fused@),
{
}

/// The run crosses its sizes with its three operations, the sizes outermost; all sizes lie around a
/// power of two or a width of the models.
pub proof fn sizes_are_crossed_with_operations(
    gemma_ops: bool,
    cases: Vec<(usize, ElementwiseKind)>,
    at: int,
)
    requires
        call_ensures(planned_cases, (gemma_ops,), cases),
        0 <= at < cases@.len(),
    ensures
        cases@.len() == if gemma_ops {
            30int
        } else {
            21
        },
        cases@[at].0 == cases@[at / 3 * 3].0,
        at >= 3 ==> cases@[at].0 > cases@[at - 3].0 && cases@[at].1 == cases@[at - 3].1,
        gemma_ops ==> cases@[0].1 == ElementwiseKind::ScalarMul && cases@[1].1
            == ElementwiseKind::GeluTanhMul && cases@[2].1 == ElementwiseKind::TanhSoftcap,
        !gemma_ops ==> cases@[0].1 == ElementwiseKind::Copy && cases@[1].1 == ElementwiseKind::Add
            && cases@[2].1 == ElementwiseKind::SiluMul,
{
    let sizes = case_sizes(gemma_ops);
    assert(sizes.len() * 3 == cases@.len());
    assert(at / 3 * 3 / 3 == at / 3);
    if at >= 3 {
        assert((at - 3) / 3 == at / 3 - 1 && (at - 3) % 3 == at % 3);
    }
}

/// From three elements on the inputs begin with an infinity of either sign, a NaN and zeros of either
/// sign; the sum meets its infinities with ones. The gated product has its boundary words behind them,
/// the scaled ones a single second word.
pub proof fn inputs_begin_with_special_words(
    kind: ElementwiseKind,
    count: usize,
    inputs: (Vec<u16>, Vec<u16>),
)
    requires
        call_ensures(case_inputs, (kind, count), inputs),
    ensures
        inputs.0@.len() == count,
        kind == ElementwiseKind::ScalarMul || kind == ElementwiseKind::TanhSoftcap
            ==> inputs.1@.len() == 1,
        kind == ElementwiseKind::ScalarMul ==> inputs.1@[0] == 0x4278,
        kind == ElementwiseKind::TanhSoftcap ==> inputs.1@[0] == bf16_quotient(30, 1),
        kind != ElementwiseKind::ScalarMul && kind != ElementwiseKind::TanhSoftcap
            ==> inputs.1@.len() == count,
        count >= 3 ==> inputs.0@[0] == 0x7f80 && inputs.0@[2] == 0x8000,
        count >= 3 && kind != ElementwiseKind::Add ==> inputs.0@[1] == 0x7fc1,
        count >= 3 && kind == ElementwiseKind::Add ==> inputs.0@[1] == 0xff80 && inputs.1@[0]
            == bf16_quotient(1, 1) && inputs.1@[1] == bf16_quotient(-1, 1) && inputs.1@[2] == 0,
        count >= 3 && (kind == ElementwiseKind::SiluMul || kind == ElementwiseKind::Copy || kind
            == ElementwiseKind::GeluTanhMul) ==> inputs.1@[0] == 0xff80 && inputs.1@[1]
            == bf16_quotient(1, 1) && inputs.1@[2] == 0,
        count >= 4 && kind == ElementwiseKind::SiluMul ==> inputs.0@[3] == 0xc100 && inputs.1@[3]
            == 0xc0fe,
{
}

/// A grid has as many groups of 256 as cover the elements, and no more.
pub proof fn grids_cover_the_elements(element_count: usize, groups: u32)
    requires
        call_ensures(dispatch_grid_size, (element_count,), Ok(groups)),
    ensures
        256 * groups >= element_count,
        256 * groups < element_count + 256,
{
}

/// Behind the special words the left input goes through 503 values that lie a 31st apart from minus eight
/// on, in steps of 37, and the right one through 257 that lie a 47th apart from minus two on, in steps of
/// 19.
pub proof fn inputs_follow_their_pattern(
    count: usize,
    inputs: (Vec<u16>, Vec<u16>),
    at: int,
    left: int,
    right: int,
    left_turns: int,
    right_turns: int,
)
    requires
        call_ensures(make_inputs, (count,), inputs),
        3 <= at < count,
        0 <= left < 503,
        0 <= right < 257,
        37 * at + 11 == left + 503 * left_turns,
        19 * at + 7 == right + 257 * right_turns,
    ensures
        inputs.0@[at] == bf16_rne(f32_less(f32_quotient(left, 31), 8)),
        inputs.1@[at] == bf16_rne(f32_less(f32_quotient(right, 47), 2)),
{
    vstd::arithmetic::div_mod::lemma_fundamental_div_mod_converse(37 * at + 11, 503, left_turns, left);
    vstd::arithmetic::div_mod::lemma_fundamental_div_mod_converse(19 * at + 7, 257, right_turns, right);
    assert(at * 37 + 11 == 37 * at + 11 && at * 19 + 7 == 19 * at + 7);
}

} // verus!
