//! The FP8 matrix product run: its shapes, the kernel that each must come from, and which elements
//! of a result are looked at.
use crate::attention_inputs::{bf16_quotient, bf16_quotient_word, code_is_the_rest};
use crate::audit::DispatchEvidence;
use crate::bytes::{words_image, words_to_bytes};
use crate::stats::{median, upper_median};
use crate::text::{
    joined, joined3, parse_u32, parse_unsigned, pieces_between, same_text, split_at, str_opt, texts,
    unsigned_number,
};
use vstd::prelude::*;

verus! {

broadcast use vstd::string::group_string_axioms;

/// The rows, the depth and the columns of a product.
#[derive(Clone, Copy, Debug, PartialEq, Eq, Structural)]
pub struct Shape {
    pub m: usize,
    pub k: usize,
    pub n: usize,
}

/// A shape.
pub open spec fn shape_of(m: usize, k: usize, n: usize) -> Shape {
    Shape { m, k, n }
}

fn make_shape(m: usize, k: usize, n: usize) -> (out: Shape)
    ensures
        out == shape_of(m, k, n),
{
    Shape { m, k, n }
}

/// The shapes of a plain run.
pub open spec fn plain_shapes() -> Seq<Shape> {
    seq![
        shape_of(1, 64, 31),
        shape_of(1, 64, 32),
        shape_of(1, 64, 33),
        shape_of(1, 128, 256),
        shape_of(3, 128, 256),
        shape_of(17, 31, 32),
        shape_of(128, 33, 16),
        shape_of(128, 16, 16),
        shape_of(512, 31, 32),
        shape_of(1_024, 33, 16),
    ]
}

/// The shapes of a benchmark run: those of the model, and a few older ones.
pub open spec fn benchmark_shapes() -> Seq<Shape> {
    seq![
        shape_of(1, 5_120, 1_024),
        shape_of(1, 6_144, 5_120),
        shape_of(1, 5_120, 6_144),
        shape_of(1, 5_120, 10_240),
        shape_of(1, 5_120, 12_288),
        shape_of(1, 2_560, 9_216),
        shape_of(1, 9_216, 2_560),
        shape_of(1, 5_120, 17_408),
        shape_of(1, 17_408, 5_120),
        shape_of(32, 2_560, 9_216),
        shape_of(32, 9_216, 2_560),
        shape_of(128, 5_120, 17_408),
        shape_of(128, 17_408, 5_120),
        shape_of(512, 5_120, 17_408),
        shape_of(512, 17_408, 5_120),
        shape_of(1_024, 5_120, 17_408),
        shape_of(1_024, 17_408, 5_120),
    ]
}

/// The shapes of a run.
pub open spec fn run_shapes(benchmark: bool) -> Seq<Shape> {
    if benchmark {
        benchmark_shapes()
    } else {
        plain_shapes()
    }
}

fn all_shapes(benchmark: bool) -> (out: Vec<Shape>)
    ensures
        out@ == run_shapes(benchmark),
{
    if benchmark {
        let out: Vec<Shape> = vec![
            make_shape(1, 5_120, 1_024),
            make_shape(1, 6_144, 5_120),
            make_shape(1, 5_120, 6_144),
            make_shape(1, 5_120, 10_240),
            make_shape(1, 5_120, 12_288),
            make_shape(1, 2_560, 9_216),
            make_shape(1, 9_216, 2_560),
            make_shape(1, 5_120, 17_408),
            make_shape(1, 17_408, 5_120),
            make_shape(32, 2_560, 9_216),
            make_shape(32, 9_216, 2_560),
            make_shape(128, 5_120, 17_408),
            make_shape(128, 17_408, 5_120),
            make_shape(512, 5_120, 17_408),
            make_shape(512, 17_408, 5_120),
            make_shape(1_024, 5_120, 17_408),
            make_shape(1_024, 17_408, 5_120),
        ];
        assert(out@ =~= benchmark_shapes());
        out
    } else {
        let out: Vec<Shape> = vec![
            make_shape(1, 64, 31),
            make_shape(1, 64, 32),
            make_shape(1, 64, 33),
            make_shape(1, 128, 256),
            make_shape(3, 128, 256),
            make_shape(17, 31, 32),
            make_shape(128, 33, 16),
            make_shape(128, 16, 16),
            make_shape(512, 31, 32),
            make_shape(1_024, 33, 16),
        ];
        assert(out@ =~= plain_shapes());
        out
    }
}

/// Which shapes of a run are kept.
#[derive(Clone, Copy, Debug, PartialEq, Eq, Structural)]
pub enum Scope {
    All,
    Decode,
    Prefill,
}

impl Scope {
    /// Whether a scope keeps a shape.
    pub open spec fn keeps(self, shape: Shape) -> bool {
        match self {
            Scope::All => true,
            Scope::Decode => shape.m == 1,
            Scope::Prefill => shape.m > 1,
        }
    }

    fn kept(self, shape: &Shape) -> (out: bool)
        ensures
            out == self.keeps(*shape),
    {
        match self {
            Scope::All => true,
            Scope::Decode => shape.m == 1,
            Scope::Prefill => shape.m > 1,
        }
    }
}

/// The scope that a setting names; all shapes where it is not set.
pub open spec fn scope_of(setting: Option<Seq<char>>) -> Option<Scope> {
    match setting {
        None => Some(Scope::All),
        Some(name) => if name == "all"@ {
            Some(Scope::All)
        } else if name == "decode"@ {
            Some(Scope::Decode)
        } else if name == "prefill"@ {
            Some(Scope::Prefill)
        } else {
            None
        },
    }
}

fn read_scope(setting: Option<&str>) -> (out: Option<Scope>)
    ensures
        out == scope_of(str_opt(setting)),
{
    match setting {
        None => Some(Scope::All),
        Some(name) => {
            if same_text(name, "all") {
                Some(Scope::All)
            } else if same_text(name, "decode") {
                Some(Scope::Decode)
            } else if same_text(name, "prefill") {
                Some(Scope::Prefill)
            } else {
                None
            }
        },
    }
}

/// The numbers of a list of texts, if each is one.
pub open spec fn numbers(parts: Seq<Seq<char>>) -> Option<Seq<nat>>
    decreases parts.len(),
{
    if parts.len() == 0 {
        Some(Seq::empty())
    } else {
        match (numbers(parts.drop_last()), unsigned_number(parts.last(), usize::MAX as nat)) {
            (Some(front), Some(last)) => Some(front.push(last)),
            _ => None,
        }
    }
}

/// Whether a shape is one that two or three dimensions name.
pub open spec fn is_named(shape: Shape, dimensions: Seq<nat>) -> bool {
    if dimensions.len() == 2 {
        shape.k == dimensions[0] && shape.n == dimensions[1]
    } else if dimensions.len() == 3 {
        shape.m == dimensions[0] && shape.k == dimensions[1] && shape.n == dimensions[2]
    } else {
        false
    }
}

/// The shapes that a text names, in their order: dimensions with `x` between them, and at least
/// one shape must have them. Without a text all are kept.
pub open spec fn filtered_shapes(shapes: Seq<Shape>, setting: Option<Seq<char>>) -> Result<
    Seq<Shape>,
    Seq<char>,
> {
    match setting {
        None => Ok(shapes),
        Some(text) => match numbers(pieces_between(text, 'x')) {
            None => Err(
                "SLLM_FP8_BENCHMARK_SHAPE must be KxN or MxKxN with decimal dimensions"@,
            ),
            Some(dimensions) => {
                let kept = shapes.filter(|shape: Shape| is_named(shape, dimensions));
                if dimensions.len() != 2 && dimensions.len() != 3 {
                    Err("SLLM_FP8_BENCHMARK_SHAPE must be KxN or MxKxN with decimal dimensions"@)
                } else if kept.len() == 0 {
                    Err(
                        "SLLM_FP8_BENCHMARK_SHAPE=\""@ + text
                            + "\" does not match a benchmark case"@,
                    )
                } else {
                    Ok(kept)
                }
            },
        },
    }
}

/// The contents of a list of dimensions.
pub open spec fn dimensions_of(dimensions: Seq<usize>) -> Seq<nat> {
    Seq::new(dimensions.len(), |i: int| dimensions[i] as nat)
}

fn read_numbers(parts: &Vec<String>) -> (out: Option<Vec<usize>>)
    ensures
        match numbers(texts(parts@)) {
            Some(values) => out is Some && dimensions_of(out->Some_0@) == values,
            None => out is None,
        },
{
    let ghost all = texts(parts@);
    let mut values: Vec<usize> = Vec::new();
    assert(dimensions_of(values@) =~= Seq::<nat>::empty());
    assert(all.take(0) =~= Seq::empty());
    for i in 0..parts.len()
        invariant
            all == texts(parts@),
            numbers(all.take(i as int)) == Some(dimensions_of(values@)),
    {
        let ghost before = values@;
        assert(all.take(i + 1).drop_last() =~= all.take(i as int));
        assert(all.take(i + 1).last() == parts@[i as int]@);
        match parse_unsigned(parts[i].as_str(), usize::MAX as u64) {
            Some(value) => {
                values.push(value as usize);
                assert(dimensions_of(values@) =~= dimensions_of(before).push(value as nat));
            },
            None => {
                proof {
                    assert(numbers(all.take(i + 1)) is None);
                    unread_parts_stay_unread(all, i + 1);
                }
                return None;
            },
        }
    }
    assert(all.take(parts.len() as int) =~= all);
    Some(values)
}

proof fn unread_parts_stay_unread(parts: Seq<Seq<char>>, upto: int)
    requires
        0 <= upto <= parts.len(),
        numbers(parts.take(upto)) is None,
    ensures
        numbers(parts) is None,
    decreases parts.len() - upto,
{
    if upto < parts.len() {
        assert(parts.take(upto + 1).drop_last() =~= parts.take(upto));
        unread_parts_stay_unread(parts, upto + 1);
    } else {
        assert(parts.take(upto) =~= parts);
    }
}

fn named_by(shape: &Shape, dimensions: &Vec<usize>) -> (out: bool)
    ensures
        out == is_named(*shape, dimensions_of(dimensions@)),
{
    if dimensions.len() == 2 {
        shape.k == dimensions[0] && shape.n == dimensions[1]
    } else if dimensions.len() == 3 {
        shape.m == dimensions[0] && shape.k == dimensions[1] && shape.n == dimensions[2]
    } else {
        false
    }
}

/// The shapes that a text names.
pub fn filter_benchmark_shape(cases: Vec<Shape>, setting: Option<&str>) -> (out: Result<
    Vec<Shape>,
    String,
>)
    ensures
        match filtered_shapes(cases@, str_opt(setting)) {
            Ok(kept) => out is Ok && out->Ok_0@ == kept,
            Err(message) => out is Err && out->Err_0@ == message,
        },
{
    let text = match setting {
        None => {
            return Ok(cases);
        },
        Some(text) => text,
    };
    let parts = split_at(text, 'x');
    let dimensions = match read_numbers(&parts) {
        Some(dimensions) => dimensions,
        None => {
            return Err(
                "SLLM_FP8_BENCHMARK_SHAPE must be KxN or MxKxN with decimal dimensions".to_owned(),
            );
        },
    };
    if dimensions.len() != 2 && dimensions.len() != 3 {
        return Err(
            "SLLM_FP8_BENCHMARK_SHAPE must be KxN or MxKxN with decimal dimensions".to_owned(),
        );
    }
    let ghost wanted = dimensions_of(dimensions@);
    let ghost is_kept = |shape: Shape| is_named(shape, wanted);
    let mut kept: Vec<Shape> = Vec::new();
    proof {
        reveal(Seq::filter);
        assert(cases@.take(0) =~= Seq::empty());
    }
    for i in 0..cases.len()
        invariant
            wanted == dimensions_of(dimensions@),
            is_kept == (|shape: Shape| is_named(shape, wanted)),
            kept@ == cases@.take(i as int).filter(is_kept),
    {
        proof {
            reveal(Seq::filter);
            assert(cases@.take(i + 1).drop_last() =~= cases@.take(i as int));
        }
        if named_by(&cases[i], &dimensions) {
            kept.push(cases[i]);
        }
    }
    assert(cases@.take(cases.len() as int) =~= cases@);
    if kept.len() == 0 {
        return Err(
            joined3("SLLM_FP8_BENCHMARK_SHAPE=\"", text, "\" does not match a benchmark case"),
        );
    }
    Ok(kept)
}

/// The shapes of a run: those of its kind, within the scope, and with the dimensions named.
pub open spec fn planned_shapes(
    benchmark: bool,
    scope: Option<Seq<char>>,
    dimensions: Option<Seq<char>>,
) -> Result<Seq<Shape>, Seq<char>> {
    match scope_of(scope) {
        None => Err("SLLM_FP8_BENCHMARK_SCOPE must be all, decode, or prefill"@),
        Some(scope) => filtered_shapes(
            run_shapes(benchmark).filter(|shape: Shape| scope.keeps(shape)),
            dimensions,
        ),
    }
}

/// The shapes of a run.
pub fn planned_cases(benchmark: bool, scope: Option<&str>, dimensions: Option<&str>) -> (out:
    Result<Vec<Shape>, String>)
    ensures
        match planned_shapes(benchmark, str_opt(scope), str_opt(dimensions)) {
            Ok(shapes) => out is Ok && out->Ok_0@ == shapes,
            Err(message) => out is Err && out->Err_0@ == message,
        },
{
    let shapes = all_shapes(benchmark);
    let scope = match read_scope(scope) {
        Some(scope) => scope,
        None => {
            return Err("SLLM_FP8_BENCHMARK_SCOPE must be all, decode, or prefill".to_owned());
        },
    };
    let ghost is_kept = |shape: Shape| scope.keeps(shape);
    let mut kept: Vec<Shape> = Vec::new();
    proof {
        reveal(Seq::filter);
        assert(shapes@.take(0) =~= Seq::empty());
    }
    for i in 0..shapes.len()
        invariant
            is_kept == (|shape: Shape| scope.keeps(shape)),
            kept@ == shapes@.take(i as int).filter(is_kept),
    {
        proof {
            reveal(Seq::filter);
            assert(shapes@.take(i + 1).drop_last() =~= shapes@.take(i as int));
        }
        if scope.kept(&shapes[i]) {
            kept.push(shapes[i]);
        }
    }
    assert(shapes@.take(shapes.len() as int) =~= shapes@);
    filter_benchmark_shape(kept, dimensions)
}

/// The word at a place of a matrix.
pub open spec fn matrix_word(index: int, phase: int) -> u16 {
    bf16_quotient((index * 37 + phase * 19) % 257 - 128, 31)
}

/// The words of a matrix.
pub fn make_matrix(rows: usize, columns: usize, phase: usize) -> (out: Vec<u16>)
    requires
        rows * columns * 37 + phase * 19 <= usize::MAX,
    ensures
        out@ == Seq::new((rows * columns) as nat, |i: int| matrix_word(i, phase as int)),
{
    proof {
        assert(0 <= rows * columns) by (nonlinear_arith)
            requires
                rows >= 0,
                columns >= 0,
        ;
    }
    let count: usize = rows * columns;
    let ghost all = Seq::new(count as nat, |i: int| matrix_word(i, phase as int));
    let mut words: Vec<u16> = Vec::new();
    for i in 0..count
        invariant
            count * 37 + phase * 19 <= usize::MAX,
            all == Seq::new(count as nat, |i: int| matrix_word(i, phase as int)),
            words@ == all.take(i as int),
    {
        let signed: i64 = ((i * 37 + phase * 19) % 257) as i64 - 128;
        words.push(bf16_quotient_word(signed, 31));
        assert(all.take(i + 1) =~= all.take(i as int).push(all[i as int]));
    }
    assert(all.take(count as int) =~= all);
    words
}

/// The bytes of a list of words.
pub fn words_bytes(values: &[u16]) -> (out: Vec<u8>)
    ensures
        out@ == words_image(values@),
{
    words_to_bytes(values)
}

/// The middle one of timing samples, of two the larger.
pub fn median_u64(values: &[u64]) -> (out: Result<u64, String>)
    ensures
        match upper_median(values@) {
            Some(middle) => out is Ok && out->Ok_0 == middle,
            None => {
                &&& out is Err
                &&& out->Err_0@ == "cannot compute median of empty timing samples"@
            },
        },
{
    match median(values) {
        Some(middle) => Ok(middle),
        None => Err("cannot compute median of empty timing samples".to_owned()),
    }
}

/// What the environment says about the kernels.
#[derive(Clone, Copy, Debug, PartialEq, Eq, Structural)]
pub struct KernelSettings {
    pub benchmark: bool,
    pub prefill_baseline: bool,
    pub prefill_f16_staging: bool,
    pub prefill_half2_64x64: bool,
    pub prefill_half2_128x64: bool,
    pub decode_baseline: bool,
    pub decode_half2: bool,
    pub decode_dword8: bool,
}

/// Whether a product goes through half-precision copies of its factors.
pub open spec fn stages_f16(shape: Shape, target: Seq<char>, settings: KernelSettings) -> bool {
    &&& target == "gfx1030"@
    &&& !settings.prefill_baseline
    &&& settings.prefill_f16_staging
    &&& shape.m >= 128
    &&& shape.m % 128 == 0
    &&& 1 <= shape.k <= 17_408
    &&& shape.k % 16 == 0
    &&& 1 <= shape.n <= 17_408
    &&& shape.n % 16 == 0
}

/// Whether a product uses the square half-precision tiles.
pub open spec fn uses_half2_64x64(
    shape: Shape,
    target: Seq<char>,
    settings: KernelSettings,
) -> bool {
    &&& target == "gfx1030"@
    &&& !settings.prefill_baseline
    &&& !stages_f16(shape, target, settings)
    &&& shape.m > 1
    &&& settings.prefill_half2_64x64 || !(settings.prefill_half2_128x64 && shape.k % 2 == 0)
}

/// Whether the depth of a single row suits the decode kernels.
pub open spec fn decode_depth_fits(shape: Shape) -> bool {
    64 <= shape.k <= 17_408 && shape.k % 64 == 0
}

/// The number of the kernel that a product must come from.
pub open spec fn kernel_number(shape: Shape, target: Seq<char>, settings: KernelSettings) -> u32 {
    if target == "gfx1201"@ || target == "gfx942"@ {
        5
    } else if shape.m == 1 {
        if !settings.decode_baseline && settings.decode_dword8 && decode_depth_fits(shape) {
            68
        } else if !settings.decode_baseline && settings.decode_half2 && decode_depth_fits(shape) {
            66
        } else {
            6
        }
    } else if settings.prefill_baseline {
        6
    } else if stages_f16(shape, target, settings) {
        70
    } else if uses_half2_64x64(shape, target, settings) {
        71
    } else if settings.prefill_half2_128x64 && shape.k % 2 == 0 {
        63
    } else {
        60
    }
}

/// How a product is run: how often without measuring, how often with, and the kernel and the
/// number of dispatches that it must come from.
#[derive(Clone, Copy, Debug, PartialEq, Eq, Structural)]
pub struct ProductPlan {
    pub warmups: usize,
    pub measured: usize,
    pub kernel_id: u32,
    pub dispatch_count: u32,
}

/// How a product is run.
pub open spec fn plan_of(shape: Shape, target: Seq<char>, settings: KernelSettings) -> ProductPlan {
    let focused = stages_f16(shape, target, settings) || uses_half2_64x64(shape, target, settings);
    let kernel_id = kernel_number(shape, target, settings);
    ProductPlan {
        warmups: if !settings.benchmark {
            0
        } else if focused {
            5
        } else {
            3
        },
        measured: if !settings.benchmark {
            1
        } else if focused {
            21
        } else {
            10
        },
        kernel_id,
        dispatch_count: if kernel_id == 70 {
            4
        } else {
            2
        },
    }
}

/// How a product is run.
pub fn plan_product(shape: Shape, target: &str, settings: &KernelSettings) -> (out: ProductPlan)
    ensures
        out == plan_of(shape, target@, *settings),
{
    let staging = same_text(target, "gfx1030") && !settings.prefill_baseline
        && settings.prefill_f16_staging && shape.m >= 128 && shape.m % 128 == 0 && shape.k >= 1
        && shape.k <= 17_408 && shape.k % 16 == 0 && shape.n >= 1 && shape.n <= 17_408 && shape.n
        % 16 == 0;
    let half2 = same_text(target, "gfx1030") && !settings.prefill_baseline && !staging && shape.m
        > 1 && (settings.prefill_half2_64x64 || !(settings.prefill_half2_128x64 && shape.k % 2
        == 0));
    let depth_fits = shape.k >= 64 && shape.k <= 17_408 && shape.k % 64 == 0;
    let kernel_id: u32 = if same_text(target, "gfx1201") || same_text(target, "gfx942") {
        5
    } else if shape.m == 1 {
        if !settings.decode_baseline && settings.decode_dword8 && depth_fits {
            68
        } else if !settings.decode_baseline && settings.decode_half2 && depth_fits {
            66
        } else {
            6
        }
    } else if settings.prefill_baseline {
        6
    } else if staging {
        70
    } else if half2 {
        71
    } else if settings.prefill_half2_128x64 && shape.k % 2 == 0 {
        63
    } else {
        60
    };
    let focused = staging || half2;
    ProductPlan {
        warmups: if !settings.benchmark {
            0
        } else if focused {
            5
        } else {
            3
        },
        measured: if !settings.benchmark {
            1
        } else if focused {
            21
        } else {
            10
        },
        kernel_id,
        dispatch_count: if kernel_id == 70 {
            4
        } else {
            2
        },
    }
}

/// A forced baseline is respected: no product that has one comes from another kernel than the
/// baseline's or the target's own.
pub proof fn forced_baselines_are_respected(
    shape: Shape,
    target: Seq<char>,
    settings: KernelSettings,
)
    requires
        settings.prefill_baseline,
        settings.decode_baseline,
    ensures
        kernel_number(shape, target, settings) == 5 || kernel_number(shape, target, settings) == 6,
{
}

/// A single row never comes from a kernel for many rows, and many rows never from one for a single
/// row, the baseline excepted.
pub proof fn decode_and_prefill_kernels_are_disjoint(
    decode: Shape,
    prefill: Shape,
    target: Seq<char>,
    settings: KernelSettings,
)
    requires
        decode.m == 1,
        prefill.m > 1,
        target != "gfx1201"@,
        target != "gfx942"@,
    ensures
        kernel_number(decode, target, settings) != kernel_number(prefill, target, settings)
            || kernel_number(decode, target, settings) == 6,
{
}

/// Refuses a dispatch that is not the one that a product must come from; `described` tells the
/// dispatch in words.
pub fn check_dispatch(
    dispatch: &DispatchEvidence,
    plan: &ProductPlan,
    target: &str,
    described: &str,
) -> (out: Result<(), String>)
    ensures
        if dispatch.dispatch_count == plan.dispatch_count && dispatch.kernel_id == plan.kernel_id
            && !dispatch.fallback_allowed && !dispatch.fallback_used && dispatch.target@ == target@ {
            out is Ok
        } else {
            &&& out is Err
            &&& out->Err_0@ == "unexpected FP8 dispatch metadata: "@ + described@
        },
{
    if dispatch.dispatch_count != plan.dispatch_count || dispatch.kernel_id != plan.kernel_id
        || dispatch.fallback_allowed || dispatch.fallback_used || !same_text(
        dispatch.target.as_str(),
        target,
    ) {
        return Err(joined("unexpected FP8 dispatch metadata: ", described));
    }
    Ok(())
}

/// Whether an element of a result is looked at: every one of a plain run, and of a benchmark those
/// of the first two and the last, the middle row, and the columns at the thirds.
pub open spec fn is_sampled(shape: Shape, row: int, column: int, benchmark: bool) -> bool {
    !benchmark || {
        &&& row == 0 || row == 1 || row == shape.m as int / 2 || row + 1 == shape.m
        &&& column == 0 || column == 1 || column == shape.n as int / 3 || column == shape.n * 2 / 3
            || column + 1 == shape.n
    }
}

/// Whether an element of a result is looked at.
pub fn sampled(shape: &Shape, row: usize, column: usize, benchmark: bool) -> (out: bool)
    requires
        row < shape.m,
        column < shape.n,
        shape.n * 2 <= usize::MAX,
    ensures
        out == is_sampled(*shape, row as int, column as int, benchmark),
{
    if !benchmark {
        return true;
    }
    (row == 0 || row == 1 || row == shape.m / 2 || row + 1 == shape.m) && (column == 0 || column
        == 1 || column == shape.n / 3 || column == shape.n * 2 / 3 || column + 1 == shape.n)
}

/// The name of what computed the products of a run.
pub open spec fn provider(kernel_ids: Seq<u32>) -> Seq<char> {
    if kernel_ids.len() > 0 && (forall|i: int|
        0 <= i < kernel_ids.len() ==> kernel_ids[i] == 5) {
        "hipblaslt-native"@
    } else if kernel_ids.contains(70) {
        "f16-staging-rocblas"@
    } else if kernel_ids.contains(71) {
        "gfx1030-half2-64x64-k32"@
    } else {
        "gfx1030-software"@
    }
}

/// The name of what computed the products of a run.
pub fn provider_name(kernel_ids: &[u32]) -> (out: &'static str)
    ensures
        out@ == provider(kernel_ids@),
{
    let mut native = kernel_ids.len() > 0;
    let mut staging = false;
    let mut half2 = false;
    for i in 0..kernel_ids.len()
        invariant
            native == (kernel_ids@.len() > 0 && forall|j: int|
                0 <= j < i ==> kernel_ids@[j] == 5),
            staging == exists|j: int| 0 <= j < i && kernel_ids@[j] == 70,
            half2 == exists|j: int| 0 <= j < i && kernel_ids@[j] == 71,
    {
        let kernel_id: u32 = kernel_ids[i];
        assert(kernel_id == kernel_ids@[i as int]);
        native = native && kernel_id == 5;
        staging = staging || kernel_id == 70;
        half2 = half2 || kernel_id == 71;
    }
    if native {
        "hipblaslt-native"
    } else if staging {
        "f16-staging-rocblas"
    } else if half2 {
        "gfx1030-half2-64x64-k32"
    } else {
        "gfx1030-software"
    }
}

/// The format in which a target keeps its weights.
pub fn resident_dtype(target: &str) -> (out: &'static str)
    ensures
        out@ == if target@ == "gfx942"@ {
            "e4m3fnuz"@
        } else {
            "e4m3fn"@
        },
{
    if same_text(target, "gfx942") {
        "e4m3fnuz"
    } else {
        "e4m3fn"
    }
}

/// The device and the target that a command line names.
pub open spec fn arguments_outcome(arguments: Seq<Seq<char>>) -> Result<(nat, Seq<char>), Seq<char>> {
    if arguments.len() != 2 {
        Err("usage: sllm-fp8-matmul-evidence DEVICE_INDEX gfx1030|gfx1201|gfx942"@)
    } else {
        match unsigned_number(arguments[0], u32::MAX as nat) {
            None => Err("device index must be u32"@),
            Some(device_index) => {
                let target = arguments[1];
                if target != "gfx1030"@ && target != "gfx1201"@ && target != "gfx942"@ {
                    Err("target must be gfx1030, gfx1201, or gfx942"@)
                } else {
                    Ok((device_index, target))
                }
            },
        }
    }
}

/// Reads the command line of the run.
pub fn parse_arguments(arguments: &Vec<String>) -> (out: Result<(u32, String), String>)
    ensures
        match arguments_outcome(texts(arguments@)) {
            Err(message) => out is Err && out->Err_0@ == message,
            Ok((device_index, target)) => {
                &&& out is Ok
                &&& out->Ok_0.0 == device_index
                &&& out->Ok_0.1@ == target
            },
        },
{
    if arguments.len() != 2 {
        return Err(
            "usage: sllm-fp8-matmul-evidence DEVICE_INDEX gfx1030|gfx1201|gfx942".to_owned(),
        );
    }
    let ghost all = texts(arguments@);
    assert(all[0] == arguments@[0]@ && all[1] == arguments@[1]@);
    let device_index: u32 = match parse_u32(arguments[0].as_str()) {
        Some(device_index) => device_index,
        None => {
            return Err("device index must be u32".to_owned());
        },
    };
    let target = arguments[1].as_str();
    if !same_text(target, "gfx1030") && !same_text(target, "gfx1201") && !same_text(
        target,
        "gfx942",
    ) {
        return Err("target must be gfx1030, gfx1201, or gfx942".to_owned());
    }
    Ok((device_index, target.to_owned()))
}

/// Which products come from which kernel. Two targets have one of their own. On the third a single row
/// goes to one of two decode kernels where one is asked for and the depth is a multiple of 64 up to
/// 17408, many rows through half-precision copies where that is asked for and the shape fits, else to
/// the square tiles, unless the wide tiles are asked for and the depth is even.
pub proof fn products_come_from_their_kernel(
    shape: Shape,
    target: &str,
    settings: &KernelSettings,
    plan: ProductPlan,
)
    requires
        shape.m >= 1,
        target@ == "gfx1030"@ || target@ == "gfx1201"@ || target@ == "gfx942"@,
        call_ensures(plan_product, (shape, target, settings), plan),
    ensures
        ({
            let own = target@ != "gfx1030"@;
            let deep = shape.k >= 64 && shape.k <= 17408 && shape.k % 64 == 0;
            let dword8 = !own && shape.m == 1 && deep && settings.decode_dword8
                && !settings.decode_baseline;
            let half2 = !own && shape.m == 1 && deep && settings.decode_half2
                && !settings.decode_baseline && !dword8;
            let staged = !own && shape.m > 1 && shape.m % 128 == 0 && 1 <= shape.k <= 17408
                && shape.k % 16 == 0 && 1 <= shape.n <= 17408 && shape.n % 16 == 0
                && settings.prefill_f16_staging && !settings.prefill_baseline;
            let wide = !own && shape.m > 1 && !staged && !settings.prefill_baseline
                && !settings.prefill_half2_64x64 && settings.prefill_half2_128x64 && shape.k % 2
                == 0;
            let square = !own && shape.m > 1 && !staged && !settings.prefill_baseline && !wide;
            &&& plan.kernel_id == 5 <==> own
            &&& plan.kernel_id == 68 <==> dword8
            &&& plan.kernel_id == 66 <==> half2
            &&& plan.kernel_id == 70 <==> staged
            &&& plan.kernel_id == 63 <==> wide
            &&& plan.kernel_id == 71 <==> square
            &&& plan.kernel_id == 6 <==> !own && !dword8 && !half2 && !staged && !wide && !square
            &&& plan.dispatch_count == if staged {
                4u32
            } else {
                2
            }
            &&& !settings.benchmark ==> plan.warmups == 0 && plan.measured == 1
            &&& settings.benchmark && (staged || square) ==> plan.warmups == 5 && plan.measured == 21
            &&& settings.benchmark && !(staged || square) ==> plan.warmups == 3 && plan.measured
                == 10
        }),
{
    reveal_strlit("gfx1030");
    reveal_strlit("gfx1201");
    reveal_strlit("gfx942");
    assert("gfx1030"@.len() == 7 && "gfx942"@.len() == 6);
    assert("gfx1030"@[4] != "gfx1201"@[4] || "gfx1030"@[3] != "gfx1201"@[3]);
}

/// A plain run looks at every element. A benchmark looks at the corners of the result among others:
/// whatever the shape, its first two and its last row and column are seen, with the middle row and the
/// columns at both thirds, and a row that is seen at one such column is seen at all of them.
pub proof fn benchmarks_see_the_corners(
    shape: &Shape,
    row: usize,
    column: usize,
    plain: bool,
    benchmark: bool,
)
    requires
        row < shape.m,
        column < shape.n,
        shape.n * 2 <= usize::MAX,
        call_ensures(sampled, (shape, row, column, false), plain),
        call_ensures(sampled, (shape, row, column, true), benchmark),
    ensures
        plain,
        ({
            let seen_row = row < 2 || row == shape.m - 1 || 2 * row == shape.m || 2 * row + 1
                == shape.m;
            let seen_column = column < 2 || column == shape.n - 1 || 3 * column <= shape.n < 3
                * column + 3 || 3 * column <= 2 * shape.n < 3 * column + 3;
            benchmark <==> seen_row && seen_column
        }),
{
}

/// A matrix word is a thirty-first of a whole number from minus 128 to 128 that goes up by 37 from one
/// place to the next, modulo 257, and by 19 from one phase to the next.
pub proof fn matrices_follow_their_pattern(
    rows: usize,
    columns: usize,
    phase: usize,
    words: Vec<u16>,
    at: int,
    code: int,
)
    requires
        call_ensures(make_matrix, (rows, columns, phase), words),
        0 <= at < rows * columns,
        0 <= code < 257,
        (37 * at + 19 * phase - code) % 257 == 0,
    ensures
        words@.len() == rows * columns,
        words@[at] == bf16_quotient(code - 128, 31),
{
    code_is_the_rest(37 * at + 19 * phase, code, 257);
}

/// Scopes part the shapes: decode keeps single rows, prefill all others, and the shapes named by their
/// dimensions are kept in order.
pub proof fn scopes_part_the_shapes(
    benchmark: bool,
    decode: Vec<Shape>,
    prefill: Vec<Shape>,
    all: Vec<Shape>,
    shape: Shape,
)
    requires
        call_ensures(planned_cases, (benchmark, Some("decode"), None), Ok(decode)),
        call_ensures(planned_cases, (benchmark, Some("prefill"), None), Ok(prefill)),
        call_ensures(planned_cases, (benchmark, None, None), Ok(all)),
    ensures
        decode@.contains(shape) <==> all@.contains(shape) && shape.m == 1,
        prefill@.contains(shape) <==> all@.contains(shape) && shape.m > 1,
{
    reveal_strlit("all");
    reveal_strlit("decode");
    reveal_strlit("prefill");
    assert("decode"@.len() == 6 && "all"@.len() == 3 && "prefill"@.len() == 7);
    let shapes = run_shapes(benchmark);
    members_of_a_filter(shapes, |s: Shape| Scope::Decode.keeps(s), shape);
    members_of_a_filter(shapes, |s: Shape| Scope::Prefill.keeps(s), shape);
    members_of_a_filter(shapes, |s: Shape| Scope::All.keeps(s), shape);
    let (d, p, a) = (Scope::Decode, Scope::Prefill, Scope::All);
    assert(decode@ == shapes.filter(|s: Shape| d.keeps(s)));
    assert(prefill@ == shapes.filter(|s: Shape| p.keeps(s)));
    assert(all@ == shapes.filter(|s: Shape| a.keeps(s)));
}

proof fn members_of_a_filter(shapes: Seq<Shape>, keeps: spec_fn(Shape) -> bool, shape: Shape)
    ensures
        shapes.filter(keeps).contains(shape) <==> shapes.contains(shape) && keeps(shape),
{
    if shapes.filter(keeps).contains(shape) {
        shapes.lemma_filter_contains_rev(keeps, shape);
        let at = choose|i: int|
            0 <= i < shapes.filter(keeps).len() && shapes.filter(keeps)[i] == shape;
        shapes.lemma_filter_pred(keeps, at);
    }
    if shapes.contains(shape) && keeps(shape) {
        let at = choose|i: int| 0 <= i < shapes.len() && shapes[i] == shape;
        shapes.lemma_filter_contains(keeps, at);
    }
}

/// A run is named by its products: the library's own where all come from it, else the staged copies or
/// the square tiles where any product came from those, in this order.
pub proof fn runs_are_named_by_their_products(kernel_ids: &[u32], name: &'static str)
    requires
        call_ensures(provider_name, (kernel_ids,), name),
    ensures
        ({
            let native = kernel_ids@.len() > 0 && forall|i: int|
                0 <= i < kernel_ids@.len() ==> #[trigger] kernel_ids@[i] == 5;
            let staged = exists|i: int|
                0 <= i < kernel_ids@.len() && #[trigger] kernel_ids@[i] == 70;
            let square = exists|i: int|
                0 <= i < kernel_ids@.len() && #[trigger] kernel_ids@[i] == 71;
            &&& native ==> name@ == "hipblaslt-native"@
            &&& staged ==> name@ == "f16-staging-rocblas"@
            &&& square && !staged ==> name@ == "gfx1030-half2-64x64-k32"@
            &&& !native && !staged && !square ==> name@ == "gfx1030-software"@
        }),
{
}

/// A filter keeps the shapes whose sides it names, in their order, and every one of them: two numbers are
/// the last two sides, three are all of them.
pub proof fn filters_keep_the_named_shapes(
    cases: Vec<Shape>,
    setting: Option<&str>,
    kept: Vec<Shape>,
)
    requires
        call_ensures(filter_benchmark_shape, (cases, setting), Ok(kept)),
    ensures
        setting is None ==> kept@ == cases@,
        setting matches Some(text) ==> kept@.len() > 0 && exists|sides: Seq<nat>|
            {
                &&& #[trigger] numbers(pieces_between(text@, 'x')) == Some(sides)
                &&& sides.len() == 2 || sides.len() == 3
                &&& forall|shape: Shape|
                    kept@.contains(shape) <==> #[trigger] cases@.contains(shape) && shape.n
                        == sides.last() && shape.k == sides[sides.len() - 2] && (sides.len() == 3
                        ==> shape.m == sides[0])
            },
{
    if let Some(text) = setting {
        let sides = numbers(pieces_between(text@, 'x'))->Some_0;
        let wanted = |shape: Shape| is_named(shape, sides);
        assert(kept@ == cases@.filter(wanted));
        assert forall|shape: Shape|
            kept@.contains(shape) <==> #[trigger] cases@.contains(shape) && shape.n == sides.last()
                && shape.k == sides[sides.len() - 2] && (sides.len() == 3 ==> shape.m == sides[0]) by {
            if kept@.contains(shape) {
                let i = choose|i: int| 0 <= i < kept@.len() && kept@[i] == shape;
                cases@.lemma_filter_pred(wanted, i);
                cases@.lemma_filter_contains_rev(wanted, shape);
            }
            if cases@.contains(shape) && wanted(shape) {
                let i = choose|i: int| 0 <= i < cases@.len() && cases@[i] == shape;
                cases@.lemma_filter_contains(wanted, i);
            }
        }
        assert(numbers(pieces_between(text@, 'x')) == Some(sides));
    }
}

/// A run takes two arguments: the number of a device, and one of three targets.
pub proof fn arguments_name_device_and_target(
    arguments: &Vec<String>,
    device_index: u32,
    target: String,
)
    requires
        call_ensures(parse_arguments, (arguments,), Ok((device_index, target))),
    ensures
        arguments@.len() == 2,
        unsigned_number(arguments@[0]@, u32::MAX as nat) == Some(device_index as nat),
        target@ == arguments@[1]@,
        target@ == "gfx1030"@ || target@ == "gfx1201"@ || target@ == "gfx942"@,
{
    let all = texts(arguments@);
    assert(all.len() == arguments@.len());
    assert(all[0] == arguments@[0]@ && all[1] == arguments@[1]@);
}

} // verus!
