//! The cases of the cache research run, what they must show, and the run's verdict.
use crate::audit::{CleanupCounts, DispatchEvidence};
use crate::bytes::same_items;
use crate::research_args::{descriptor_label, production_descriptor, Block16Encoding};
use crate::research_candidate::CandidateKind;
use crate::research_inputs::{ValuesKind, ATTENTION_DIM};
use crate::text::{contains, contains_text, decimal, decimal_string, joined, joined3, same_text};
use vstd::prelude::*;
use vstd::string::StringExecFns;

verus! {

broadcast use vstd::string::group_string_axioms;

/// A case of the run.
#[derive(Clone, Copy, Debug, PartialEq, Eq, Structural)]
pub struct CasePlan {
    pub index: usize,
    pub head_dim: usize,
    pub token_count: usize,
    pub kind: ValuesKind,
    pub attention: bool,
}

/// A case.
pub open spec fn plan_of(
    index: usize,
    head_dim: usize,
    token_count: usize,
    kind: ValuesKind,
    attention: bool,
) -> CasePlan {
    CasePlan { index, head_dim, token_count, kind, attention }
}

/// The cases of the run: boundary values at widths around the block size and around the attention
/// width, the attention case itself, zeros, and values on which the recipes differ.
pub open spec fn case_plans() -> Seq<CasePlan> {
    seq![
        plan_of(0, 15, 1, ValuesKind::Boundary, false),
        plan_of(1, 16, 1, ValuesKind::Boundary, false),
        plan_of(2, 17, 1, ValuesKind::Boundary, false),
        plan_of(3, 255, 1, ValuesKind::Boundary, false),
        plan_of(4, ATTENTION_DIM, 2, ValuesKind::Attention, true),
        plan_of(5, 257, 1, ValuesKind::Boundary, false),
        plan_of(6, 16, 1, ValuesKind::SignedZero, false),
        plan_of(7, 32, 1, ValuesKind::RecipeDistinguishing, false),
    ]
}

fn make_plan(
    index: usize,
    head_dim: usize,
    token_count: usize,
    kind: ValuesKind,
    attention: bool,
) -> (out: CasePlan)
    ensures
        out == plan_of(index, head_dim, token_count, kind, attention),
{
    CasePlan { index, head_dim, token_count, kind, attention }
}

/// The cases of the run.
pub fn planned_cases() -> (out: Vec<CasePlan>)
    ensures
        out@ == case_plans(),
{
    let mut plans: Vec<CasePlan> = Vec::new();
    plans.push(make_plan(0, 15, 1, ValuesKind::Boundary, false));
    plans.push(make_plan(1, 16, 1, ValuesKind::Boundary, false));
    plans.push(make_plan(2, 17, 1, ValuesKind::Boundary, false));
    plans.push(make_plan(3, 255, 1, ValuesKind::Boundary, false));
    plans.push(make_plan(4, ATTENTION_DIM, 2, ValuesKind::Attention, true));
    plans.push(make_plan(5, 257, 1, ValuesKind::Boundary, false));
    plans.push(make_plan(6, 16, 1, ValuesKind::SignedZero, false));
    plans.push(make_plan(7, 32, 1, ValuesKind::RecipeDistinguishing, false));
    assert(plans@ =~= case_plans());
    plans
}

/// The name of a case.
pub open spec fn case_name(plan: CasePlan) -> Seq<char> {
    match plan.kind {
        ValuesKind::SignedZero => "signed-zero-only"@,
        ValuesKind::RecipeDistinguishing => "recipe-distinguishing"@,
        _ => if plan.attention {
            "attention-kv2"@
        } else {
            "append-head-dim-"@ + decimal(plan.head_dim as nat)
        },
    }
}

/// The name of a case.
pub fn case_id(plan: &CasePlan) -> (out: String)
    ensures
        out@ == case_name(*plan),
{
    match plan.kind {
        ValuesKind::SignedZero => "signed-zero-only".to_owned(),
        ValuesKind::RecipeDistinguishing => "recipe-distinguishing".to_owned(),
        _ => if plan.attention {
            "attention-kv2".to_owned()
        } else {
            let width = decimal_string(plan.head_dim as u64);
            joined("append-head-dim-", width.as_str())
        },
    }
}

/// Which rows of a case are permuted: those of keys and queries, or those of values.
#[derive(Clone, Copy, Debug, PartialEq, Eq, Structural)]
pub struct TransformPlan {
    pub key_query: bool,
    pub value_output: bool,
}

/// The permutations of a case: only the attention case has any.
pub open spec fn transforms_of(kind: CandidateKind, attention: bool) -> TransformPlan {
    TransformPlan {
        key_query: attention && kind == CandidateKind::KeyQueryTransform,
        value_output: attention && (kind == CandidateKind::ValueOutputTransform || kind
            == CandidateKind::ValueOutputLayersTransform),
    }
}

/// The permutations of a case.
pub fn transform_plan(kind: CandidateKind, attention: bool) -> (out: TransformPlan)
    ensures
        out == transforms_of(kind, attention),
{
    TransformPlan {
        key_query: attention && kind == CandidateKind::KeyQueryTransform,
        value_output: attention && (kind == CandidateKind::ValueOutputTransform || kind
            == CandidateKind::ValueOutputLayersTransform),
    }
}

/// Whether a dispatch ran on the device, without a fallback, in a kernel of the kind named.
pub open spec fn is_direct(dispatch: DispatchEvidence, marker: Seq<char>) -> bool {
    &&& dispatch.backend != 0
    &&& !dispatch.fallback_allowed
    &&& !dispatch.fallback_used
    &&& dispatch.dispatch_count > 0
    &&& contains_text(dispatch.kernel_symbol@, marker)
}

/// Whether a dispatch ran on the device, without a fallback, in a kernel of the kind named.
pub fn direct_dispatch(dispatch: &DispatchEvidence, marker: &str) -> (out: bool)
    ensures
        out == is_direct(*dispatch, marker@),
{
    dispatch.backend != 0 && !dispatch.fallback_allowed && !dispatch.fallback_used
        && dispatch.dispatch_count > 0 && contains(dispatch.kernel_symbol.as_str(), marker)
}

/// What the device's planes of a case must be.
#[derive(Debug)]
pub struct PlaneSet {
    pub key_values: Vec<u8>,
    pub value_values: Vec<u8>,
    pub key_scales: Vec<u8>,
    pub value_scales: Vec<u8>,
}

/// What the attention of a case showed.
#[derive(Clone, Copy, Debug, PartialEq, Eq, Structural)]
pub struct AttentionFlags {
    pub direct: bool,
    pub numerical_match: bool,
    pub key_contributes: bool,
}

/// What a case showed.
#[derive(Debug)]
pub struct CaseEvidence {
    pub id: String,
    pub head_dim: usize,
    pub token_count: usize,
    pub transform_applied: bool,
    pub signed_zero_only: bool,
    pub recipe_distinguishing: bool,
    pub key_values_exact: bool,
    pub value_values_exact: bool,
    pub key_scales_exact: bool,
    pub value_scales_exact: bool,
    pub tail_padding_zero: bool,
    pub append_direct: bool,
    pub attention_direct: bool,
    pub attention_numerical_match: bool,
    pub attention_key_contributes: bool,
    pub finite: bool,
}

impl CaseEvidence {
    /// Whether the case passed.
    pub open spec fn holds(self) -> bool {
        &&& self.key_values_exact
        &&& self.value_values_exact
        &&& self.key_scales_exact
        &&& self.value_scales_exact
        &&& self.tail_padding_zero
        &&& self.append_direct
        &&& self.finite
        &&& if self.id@ == "attention-kv2"@ {
            self.attention_direct && self.attention_numerical_match && self.attention_key_contributes
        } else {
            !self.attention_direct
        }
    }

    /// The evidence of a case.
    pub open spec fn shows(
        self,
        plan: CasePlan,
        transforms: TransformPlan,
        device: PlaneSet,
        oracle: PlaneSet,
        floor_key_scales: Seq<u8>,
        padding_zero: bool,
        append_direct: bool,
        attention: Option<AttentionFlags>,
        words_finite: bool,
    ) -> bool {
        &&& self.id@ == case_name(plan)
        &&& self.head_dim == plan.head_dim
        &&& self.token_count == plan.token_count
        &&& self.transform_applied == (transforms.key_query || transforms.value_output)
        &&& self.signed_zero_only == (plan.kind == ValuesKind::SignedZero)
        &&& self.recipe_distinguishing == (plan.kind == ValuesKind::RecipeDistinguishing
            || oracle.key_scales@ != floor_key_scales)
        &&& self.key_values_exact == (device.key_values@ == oracle.key_values@)
        &&& self.value_values_exact == (device.value_values@ == oracle.value_values@)
        &&& self.key_scales_exact == (device.key_scales@ == oracle.key_scales@)
        &&& self.value_scales_exact == (device.value_scales@ == oracle.value_scales@)
        &&& self.tail_padding_zero == padding_zero
        &&& self.append_direct == append_direct
        &&& self.attention_direct == (attention is Some && attention->Some_0.direct)
        &&& self.attention_numerical_match == (attention is None
            || attention->Some_0.numerical_match)
        &&& self.attention_key_contributes == (attention is Some
            && attention->Some_0.key_contributes)
        &&& self.finite == (words_finite || !plan.attention)
    }
}

/// Gathers the evidence of a case: the device's planes held against those of the oracle, and the
/// oracle's key scales against those of the plain recipe.
pub fn case_evidence(
    plan: &CasePlan,
    transforms: TransformPlan,
    device: &PlaneSet,
    oracle: &PlaneSet,
    floor_key_scales: &[u8],
    padding_zero: bool,
    append_direct: bool,
    attention: Option<AttentionFlags>,
    words_finite: bool,
) -> (out: CaseEvidence)
    ensures
        out.shows(
            *plan,
            transforms,
            *device,
            *oracle,
            floor_key_scales@,
            padding_zero,
            append_direct,
            attention,
            words_finite,
        ),
{
    let (direct, numerical, contributes) = match attention {
        Some(flags) => (flags.direct, flags.numerical_match, flags.key_contributes),
        None => (false, true, false),
    };
    CaseEvidence {
        id: case_id(plan),
        head_dim: plan.head_dim,
        token_count: plan.token_count,
        transform_applied: transforms.key_query || transforms.value_output,
        signed_zero_only: plan.kind == ValuesKind::SignedZero,
        recipe_distinguishing: plan.kind == ValuesKind::RecipeDistinguishing || !same_items(
            oracle.key_scales.as_slice(),
            floor_key_scales,
        ),
        key_values_exact: same_items(device.key_values.as_slice(), oracle.key_values.as_slice()),
        value_values_exact: same_items(
            device.value_values.as_slice(),
            oracle.value_values.as_slice(),
        ),
        key_scales_exact: same_items(device.key_scales.as_slice(), oracle.key_scales.as_slice()),
        value_scales_exact: same_items(
            device.value_scales.as_slice(),
            oracle.value_scales.as_slice(),
        ),
        tail_padding_zero: padding_zero,
        append_direct,
        attention_direct: direct,
        attention_numerical_match: numerical,
        attention_key_contributes: contributes,
        finite: words_finite || !plan.attention,
    }
}

/// Whether a case passed.
pub fn case_passes(case: &CaseEvidence) -> (out: bool)
    ensures
        out == case.holds(),
{
    let attention_pass = if same_text(case.id.as_str(), "attention-kv2") {
        case.attention_direct && case.attention_numerical_match && case.attention_key_contributes
    } else {
        !case.attention_direct
    };
    case.key_values_exact && case.value_values_exact && case.key_scales_exact
        && case.value_scales_exact && case.tail_padding_zero && case.append_direct && case.finite
        && attention_pass
}

/// What a permutation showed. The bounds on the largest differences are taken as met or not.
#[derive(Debug)]
pub struct TransformEvidence {
    pub key_rows_transformed: bool,
    pub query_rows_transformed: bool,
    pub value_untransformed: bool,
    pub qk_invariant: bool,
    pub qk_within_bound: bool,
    pub value_rows_transformed: Option<bool>,
    pub output_rows_inverse_transformed: Option<bool>,
    pub vo_invariant: Option<bool>,
    pub vo_within_bound: Option<bool>,
    pub semantic_layer: Option<u32>,
    pub semantic_layers: Option<Vec<u32>>,
}

/// The contents of an optional list.
pub open spec fn list_opt(list: Option<Vec<u32>>) -> Option<Seq<u32>> {
    match list {
        Some(items) => Some(items@),
        None => None,
    }
}

impl TransformEvidence {
    /// The layers that the permutation of a kind of candidate is about.
    pub open spec fn names_layers(self, kind: CandidateKind) -> bool {
        &&& self.semantic_layer == if kind == CandidateKind::ValueOutputTransform {
            Some(19u32)
        } else {
            None
        }
        &&& list_opt(self.semantic_layers) == if kind == CandidateKind::ValueOutputLayersTransform {
            Some(seq![19u32, 31u32])
        } else {
            None
        }
    }

    /// Before a device has run: nothing is permuted, and what is not about the permutation holds.
    pub open spec fn is_pending(self, kind: CandidateKind) -> bool {
        let key_query = kind == CandidateKind::KeyQueryTransform;
        let open = if key_query {
            None
        } else {
            Some(false)
        };
        &&& !self.key_rows_transformed
        &&& !self.query_rows_transformed
        &&& !self.value_untransformed
        &&& self.qk_invariant == !key_query
        &&& self.qk_within_bound
        &&& self.value_rows_transformed == open
        &&& self.output_rows_inverse_transformed == open
        &&& self.vo_invariant == open
        &&& self.vo_within_bound == if key_query {
            None
        } else {
            Some(true)
        }
        &&& self.names_layers(kind)
    }

    /// After the attention case has run.
    pub open spec fn is_measured(self, kind: CandidateKind, measured: Invariance) -> bool {
        let key_query = kind == CandidateKind::KeyQueryTransform;
        &&& self.key_rows_transformed == key_query
        &&& self.query_rows_transformed == (key_query && measured.query_transformed)
        &&& self.value_untransformed == key_query
        &&& self.qk_invariant == measured.qk_invariant
        &&& self.qk_within_bound == measured.qk_within_bound
        &&& self.value_rows_transformed == if key_query {
            None
        } else {
            Some(true)
        }
        &&& self.output_rows_inverse_transformed == if key_query {
            None
        } else {
            Some(measured.output_inverse_transformed)
        }
        &&& self.vo_invariant == if key_query {
            None
        } else {
            Some(measured.vo_invariant)
        }
        &&& self.vo_within_bound == if key_query {
            None
        } else {
            Some(measured.vo_within_bound)
        }
        &&& self.names_layers(kind)
    }
}

/// What the attention case measured of a permutation.
#[derive(Clone, Copy, Debug, PartialEq, Eq, Structural)]
pub struct Invariance {
    pub query_transformed: bool,
    pub qk_invariant: bool,
    pub qk_within_bound: bool,
    pub vo_invariant: bool,
    pub vo_within_bound: bool,
    pub output_inverse_transformed: bool,
}

/// Whether a kind of candidate has a permutation.
pub open spec fn has_transform(kind: CandidateKind) -> bool {
    ||| kind == CandidateKind::KeyQueryTransform
    ||| kind == CandidateKind::ValueOutputTransform
    ||| kind == CandidateKind::ValueOutputLayersTransform
}

fn layers_of(kind: CandidateKind) -> (out: (Option<u32>, Option<Vec<u32>>))
    ensures
        out.0 == if kind == CandidateKind::ValueOutputTransform {
            Some(19u32)
        } else {
            None
        },
        list_opt(out.1) == if kind == CandidateKind::ValueOutputLayersTransform {
            Some(seq![19u32, 31u32])
        } else {
            None
        },
{
    match kind {
        CandidateKind::ValueOutputTransform => (Some(19), None),
        CandidateKind::ValueOutputLayersTransform => {
            let mut layers: Vec<u32> = Vec::new();
            layers.push(19);
            layers.push(31);
            assert(layers@ =~= seq![19u32, 31u32]);
            (None, Some(layers))
        },
        _ => (None, None),
    }
}

/// The evidence on a permutation before a device has run.
pub fn pending_transform(kind: CandidateKind) -> (out: Option<TransformEvidence>)
    ensures
        match out {
            Some(evidence) => has_transform(kind) && evidence.is_pending(kind),
            None => !has_transform(kind),
        },
{
    let key_query = kind == CandidateKind::KeyQueryTransform;
    let value_output = kind == CandidateKind::ValueOutputTransform || kind
        == CandidateKind::ValueOutputLayersTransform;
    if !key_query && !value_output {
        return None;
    }
    let open = if key_query {
        None
    } else {
        Some(false)
    };
    let (semantic_layer, semantic_layers) = layers_of(kind);
    Some(
        TransformEvidence {
            key_rows_transformed: false,
            query_rows_transformed: false,
            value_untransformed: false,
            qk_invariant: !key_query,
            qk_within_bound: true,
            value_rows_transformed: open,
            output_rows_inverse_transformed: open,
            vo_invariant: open,
            vo_within_bound: if key_query {
                None
            } else {
                Some(true)
            },
            semantic_layer,
            semantic_layers,
        },
    )
}

/// The evidence on a permutation after the attention case has run.
pub fn measured_transform(kind: CandidateKind, measured: Invariance) -> (out: Option<
    TransformEvidence,
>)
    ensures
        match out {
            Some(evidence) => has_transform(kind) && evidence.is_measured(kind, measured),
            None => !has_transform(kind),
        },
{
    let key_query = kind == CandidateKind::KeyQueryTransform;
    let value_output = kind == CandidateKind::ValueOutputTransform || kind
        == CandidateKind::ValueOutputLayersTransform;
    if !key_query && !value_output {
        return None;
    }
    let (semantic_layer, semantic_layers) = layers_of(kind);
    Some(
        TransformEvidence {
            key_rows_transformed: key_query,
            query_rows_transformed: key_query && measured.query_transformed,
            value_untransformed: key_query,
            qk_invariant: measured.qk_invariant,
            qk_within_bound: measured.qk_within_bound,
            value_rows_transformed: if key_query {
                None
            } else {
                Some(true)
            },
            output_rows_inverse_transformed: if key_query {
                None
            } else {
                Some(measured.output_inverse_transformed)
            },
            vo_invariant: if key_query {
                None
            } else {
                Some(measured.vo_invariant)
            },
            vo_within_bound: if key_query {
                None
            } else {
                Some(measured.vo_within_bound)
            },
            semantic_layer,
            semantic_layers,
        },
    )
}

/// Whether the evidence on a permutation is what its kind of candidate calls for.
pub open spec fn transform_holds(kind: CandidateKind, evidence: Option<TransformEvidence>) -> bool {
    match kind {
        CandidateKind::KeyQueryTransform => {
            &&& evidence is Some
            &&& evidence->Some_0.key_rows_transformed
            &&& evidence->Some_0.query_rows_transformed
            &&& evidence->Some_0.value_untransformed
            &&& evidence->Some_0.qk_invariant
            &&& evidence->Some_0.qk_within_bound
        },
        CandidateKind::ValueOutputTransform | CandidateKind::ValueOutputLayersTransform => {
            &&& evidence is Some
            &&& evidence->Some_0.value_rows_transformed == Some(true)
            &&& evidence->Some_0.output_rows_inverse_transformed == Some(true)
            &&& evidence->Some_0.vo_invariant == Some(true)
            &&& evidence->Some_0.vo_within_bound == Some(true)
        },
        _ => true,
    }
}

/// Pending evidence never passes.
pub proof fn pending_evidence_is_not_enough(kind: CandidateKind, evidence: TransformEvidence)
    requires
        has_transform(kind),
        evidence.is_pending(kind),
    ensures
        !transform_holds(kind, Some(evidence)),
{
}

fn is_true(flag: Option<bool>) -> (out: bool)
    ensures
        out == (flag == Some(true)),
{
    match flag {
        Some(value) => value,
        None => false,
    }
}

/// Whether the evidence on a permutation is what its kind of candidate calls for.
pub fn transform_passes(kind: CandidateKind, evidence: Option<&TransformEvidence>) -> (out: bool)
    ensures
        out == transform_holds(
            kind,
            match evidence {
                Some(value) => Some(*value),
                None => None,
            },
        ),
{
    match kind {
        CandidateKind::KeyQueryTransform => match evidence {
            Some(value) => value.key_rows_transformed && value.query_rows_transformed
                && value.value_untransformed && value.qk_invariant && value.qk_within_bound,
            None => false,
        },
        CandidateKind::ValueOutputTransform | CandidateKind::ValueOutputLayersTransform => match evidence {
            Some(value) => is_true(value.value_rows_transformed) && is_true(
                value.output_rows_inverse_transformed,
            ) && is_true(value.vo_invariant) && is_true(value.vo_within_bound),
            None => false,
        },
        _ => true,
    }
}

/// What the host's own quantization showed.
#[derive(Clone, Copy, Debug, PartialEq, Eq, Structural)]
pub struct HostEvidence {
    pub pass: bool,
    pub signed_zero_only: bool,
    pub recipe_distinguishing: bool,
    pub tail_padding_zero: bool,
    pub finite: bool,
}

/// Judges the host's own quantization: every width must quantize with zero padding, zeros must stay
/// zeros, and the attention words must be finite. A width is `None` where it does not quantize,
/// else it says whether its padding is zero.
pub fn host_evidence(
    widths: &Vec<Option<bool>>,
    signed_zero_only: bool,
    recipe_distinguishing: bool,
    finite: bool,
) -> (out: HostEvidence)
    ensures
        out.signed_zero_only == signed_zero_only,
        out.recipe_distinguishing == recipe_distinguishing,
        out.finite == finite,
        out.tail_padding_zero == forall|i: int|
            0 <= i < widths@.len() ==> #[trigger] widths@[i] != Some(false),
        out.pass == (signed_zero_only && finite && forall|i: int|
            0 <= i < widths@.len() ==> #[trigger] widths@[i] == Some(true)),
{
    let mut padding = true;
    let mut quantized = true;
    for i in 0..widths.len()
        invariant
            padding == forall|j: int| 0 <= j < i ==> #[trigger] widths@[j] != Some(false),
            (padding && quantized) == forall|j: int|
                0 <= j < i ==> #[trigger] widths@[j] == Some(true),
            quantized == forall|j: int| 0 <= j < i ==> (#[trigger] widths@[j]) is Some,
    {
        match widths[i] {
            Some(zero) => {
                padding = padding && zero;
            },
            None => {
                quantized = false;
            },
        }
        assert(widths@[i as int] == widths@[i as int]);
    }
    HostEvidence {
        pass: quantized && padding && signed_zero_only && finite,
        signed_zero_only,
        recipe_distinguishing,
        tail_padding_zero: padding,
        finite,
    }
}

/// Whether a run that ran all its cases passed.
pub open spec fn run_holds(
    host: HostEvidence,
    cases: Seq<CaseEvidence>,
    transform_pass: bool,
    cleanup: CleanupCounts,
) -> bool {
    &&& host.pass
    &&& forall|i: int| 0 <= i < cases.len() ==> (#[trigger] cases[i]).holds()
    &&& exists|i: int| 0 <= i < cases.len() && (#[trigger] cases[i]).signed_zero_only
    &&& exists|i: int| 0 <= i < cases.len() && (#[trigger] cases[i]).recipe_distinguishing
    &&& transform_pass
    &&& cleanup.is_zero()
}

/// Whether a run that ran all its cases passed.
pub fn run_passes(
    host: &HostEvidence,
    cases: &Vec<CaseEvidence>,
    transform_pass: bool,
    cleanup: &CleanupCounts,
) -> (out: bool)
    ensures
        out == run_holds(*host, cases@, transform_pass, *cleanup),
{
    let mut all = true;
    let mut zero = false;
    let mut distinguishing = false;
    for i in 0..cases.len()
        invariant
            all == forall|j: int| 0 <= j < i ==> (#[trigger] cases@[j]).holds(),
            zero == exists|j: int| 0 <= j < i && (#[trigger] cases@[j]).signed_zero_only,
            distinguishing == exists|j: int|
                0 <= j < i && (#[trigger] cases@[j]).recipe_distinguishing,
    {
        let case = &cases[i];
        assert(*case == cases@[i as int]);
        all = all && case_passes(case);
        zero = zero || case.signed_zero_only;
        distinguishing = distinguishing || case.recipe_distinguishing;
    }
    host.pass && all && zero && distinguishing && transform_pass && cleanup.terminal_zero()
}

/// The production descriptor that a report names: that of the encoding, and only where the
/// candidate is the production recipe.
pub fn production_descriptor_id(kind: CandidateKind, encoding: Block16Encoding) -> (out: Option<
    &'static str,
>)
    ensures
        match out {
            Some(name) => {
                &&& kind == CandidateKind::ProductionControl
                &&& name@ == descriptor_label(encoding)
            },
            None => kind != CandidateKind::ProductionControl,
        },
{
    if kind == CandidateKind::ProductionControl {
        Some(production_descriptor(encoding))
    } else {
        None
    }
}

/// The name of the file that a report is written to before it gets its own name.
pub fn partial_name(name: &str, process: u32) -> (out: String)
    ensures
        out@ == "."@ + name@ + ".partial."@ + decimal(process as nat),
{
    let mut out = joined3(".", name, ".partial.");
    let number = decimal_string(process as u64);
    out.append(number.as_str());
    out
}

/// A case passes just where all four planes are those of the oracle, the padding is zero and the append
/// ran on the device; the attention case also where its words are finite and its attention ran on the
/// device, matched, and depended on the keys, while no other case may have one that ran there.
pub proof fn cases_pass_where_every_plane_is_exact(
    plan: &CasePlan,
    transforms: TransformPlan,
    device: &PlaneSet,
    oracle: &PlaneSet,
    floor_key_scales: &[u8],
    padding: bool,
    append: bool,
    attention: Option<AttentionFlags>,
    finite: bool,
    evidence: CaseEvidence,
    passes: bool,
)
    requires
        call_ensures(
            case_evidence,
            (
                plan,
                transforms,
                device,
                oracle,
                floor_key_scales,
                padding,
                append,
                attention,
                finite,
            ),
            evidence,
        ),
        call_ensures(case_passes, (&evidence,), passes),
        plan.attention <==> evidence.id@ == "attention-kv2"@,
    ensures
        passes <==> {
            &&& device.key_values@ == oracle.key_values@
            &&& device.value_values@ == oracle.value_values@
            &&& device.key_scales@ == oracle.key_scales@
            &&& device.value_scales@ == oracle.value_scales@
            &&& padding
            &&& append
            &&& plan.attention ==> finite && attention is Some && attention->Some_0.direct
                && attention->Some_0.numerical_match && attention->Some_0.key_contributes
            &&& !plan.attention ==> attention is None || !attention->Some_0.direct
        },
        evidence.signed_zero_only <==> plan.kind == ValuesKind::SignedZero,
        plan.kind == ValuesKind::RecipeDistinguishing ==> evidence.recipe_distinguishing,
        oracle.key_scales@ != floor_key_scales@ ==> evidence.recipe_distinguishing,
{
}

/// A measured permutation passes just where what was measured holds of the rows that it is about; a
/// candidate without one passes by itself.
pub proof fn measured_permutations_pass_where_they_are_invariant(
    kind: CandidateKind,
    measured: Invariance,
    evidence: TransformEvidence,
    passes: bool,
)
    requires
        call_ensures(measured_transform, (kind, measured), Some(evidence)),
        call_ensures(transform_passes, (kind, Some(&evidence)), passes),
    ensures
        kind == CandidateKind::KeyQueryTransform ==> (passes <==> measured.query_transformed
            && measured.qk_invariant && measured.qk_within_bound),
        kind != CandidateKind::KeyQueryTransform ==> (passes <==> measured.output_inverse_transformed
            && measured.vo_invariant && measured.vo_within_bound),
        kind == CandidateKind::ValueOutputTransform ==> evidence.semantic_layer == Some(19u32)
            && evidence.semantic_layers is None,
        kind == CandidateKind::ValueOutputLayersTransform ==> evidence.semantic_layer is None
            && list_opt(evidence.semantic_layers) == Some(seq![19u32, 31u32]),
{
}

/// Only the attention case is permuted: keys and queries by one kind of candidate, values and outputs
/// by the two others that have a permutation.
pub proof fn only_the_attention_case_is_permuted(
    kind: CandidateKind,
    attention: bool,
    plan: TransformPlan,
    pending: Option<TransformEvidence>,
)
    requires
        call_ensures(transform_plan, (kind, attention), plan),
        call_ensures(pending_transform, (kind,), pending),
    ensures
        plan.key_query || plan.value_output <==> attention && pending is Some,
        plan.key_query <==> attention && kind == CandidateKind::KeyQueryTransform,
        !(plan.key_query && plan.value_output),
        pending is Some <==> kind != CandidateKind::ProductionControl && kind
            != CandidateKind::RecipePair,
{
}

/// A run passes just where the host's own quantization does, every case does, zeros and values that
/// part the recipes were among them, the permutation does, and everything was released.
pub proof fn one_failed_case_fails_the_run(
    host: &HostEvidence,
    cases: &Vec<CaseEvidence>,
    transform: bool,
    cleanup: &CleanupCounts,
    passes: bool,
    at: int,
    one: bool,
)
    requires
        call_ensures(run_passes, (host, cases, transform, cleanup), passes),
        0 <= at < cases@.len(),
        call_ensures(case_passes, (&cases@[at],), one),
    ensures
        passes ==> host.pass && transform && one && cleanup.retryable_cleanup == 0
            && cleanup.durable_quarantine == 0,
        passes ==> exists|i: int| 0 <= i < cases@.len() && (#[trigger] cases@[i]).signed_zero_only,
        passes ==> exists|i: int|
            0 <= i < cases@.len() && (#[trigger] cases@[i]).recipe_distinguishing,
        cases@.len() == 1 && one && cases@[0].signed_zero_only && cases@[0].recipe_distinguishing
            && host.pass && transform && cleanup.retryable_cleanup == 0
            && cleanup.durable_quarantine == 0 ==> passes,
{
    if cases@.len() == 1 {
        assert(cases@[at] == cases@[0]);
    }
}

/// A dispatch is direct just where it ran on a device at all, without fallback, in a kernel of the kind
/// that is asked for.
pub proof fn direct_dispatches_ran_on_the_device(
    dispatch: &DispatchEvidence,
    marker: &str,
    direct: bool,
)
    requires
        call_ensures(direct_dispatch, (dispatch, marker), direct),
    ensures
        direct <==> dispatch.backend != 0 && dispatch.dispatch_count >= 1
            && !dispatch.fallback_allowed && !dispatch.fallback_used && contains_text(
            dispatch.kernel_symbol@,
            marker@,
        ),
{
}

/// A case passes on the host exactly where every plane is of its width, every zero that is left is a
/// signed one and every value finite; padding that is not zero is one way to fail.
pub proof fn host_cases_pass_where_every_width_fits(
    widths: &Vec<Option<bool>>,
    signed_zero_only: bool,
    recipe_distinguishing: bool,
    finite: bool,
    found: HostEvidence,
    at: int,
)
    requires
        0 <= at < widths@.len(),
        call_ensures(
            host_evidence,
            (widths, signed_zero_only, recipe_distinguishing, finite),
            found,
        ),
    ensures
        found.pass ==> signed_zero_only && finite && found.tail_padding_zero && widths@[at] == Some(
            true,
        ),
        widths@[at] == Some(false) ==> !found.tail_padding_zero && !found.pass,
        widths@[at] is None ==> !found.pass,
        found.recipe_distinguishing == recipe_distinguishing,
        widths@.len() == 1 && widths@[0] == Some(true) && signed_zero_only && finite ==> found.pass,
{
    assert(widths@[at] == widths@[at]);
}

} // verus!
