//! The cases, inputs and verdict of the grouped-query attention evidence run.
use crate::attention_cases::{case_of, make_case, Case};
use crate::attention_inputs::{
    bf16_quotient, bf16_quotient_word, code_is_the_rest, pattern_fits, place_parts,
};
use crate::attention_provider::{committed, AttentionAbi};
use crate::audit::{CleanupCounts, DispatchEvidence};
use crate::gqa6_config::{Config, Mode};
use crate::number::{bf16_ulp_distance, distance, signed_zero_rank};
use crate::text::{joined, listed_ids, same_text, split_ids, str_opt, texts};
use vstd::prelude::*;

verus! {

broadcast use vstd::string::group_string_axioms;

/// The query heads of the run.
pub const Q_HEADS: usize = 24;

/// The key-value heads of the run.
pub const KV_HEADS: usize = 4;

/// The query heads of each key-value head.
pub const GQA_RATIO: usize = 6;

/// The width of a head.
pub const HEAD_DIM: usize = 256;

/// The workgroup size of all providers but the split decodes.
pub const WORKGROUP_SIZE: u32 = 256;

/// The kernel symbol of a provider.
pub const KERNEL_BASELINE: &'static str = "causal_attention.online_softmax_gqa.v2";

/// The device symbol of a provider.
pub const DEVICE_BASELINE: &'static str = "sllm_causal_attention_online_softmax_gqa_v2";

/// The kernel symbol of a provider.
pub const KERNEL_WAVE1201: &'static str = "causal_attention.online_softmax_gqa.gfx1201_wave.v4";

/// The device symbol of a provider.
pub const DEVICE_WAVE1201: &'static str = "sllm_causal_attention_gfx1201_wave_v4";

/// The kernel symbol of a provider.
pub const KERNEL_QTILE1: &'static str = "causal_attention.prefill.gqa6_qtile4.v1";

/// The device symbol of a provider.
pub const DEVICE_QTILE1: &'static str = "sllm_causal_attention_prefill_gqa6_qtile4_v1";

/// The kernel symbol of a provider.
pub const KERNEL_K4: &'static str = "causal_attention.prefill.gqa6_qtile4_k4.fp16.v1";

/// The device symbol of a provider.
pub const DEVICE_K4: &'static str = "sllm_causal_attention_prefill_gqa6_qtile4_k4_fp16_v1";

/// The kernel symbol of a provider.
pub const KERNEL_K8: &'static str = "causal_attention.prefill.gqa6_qtile4_k8.fp16.v1";

/// The device symbol of a provider.
pub const DEVICE_K8: &'static str = "sllm_causal_attention_prefill_gqa6_qtile4_k8_fp16_v1";

/// The kernel symbol of a provider.
pub const KERNEL_K16: &'static str = "causal_attention.prefill.gqa6_qtile4_k16.fp16.v1";

/// The device symbol of a provider.
pub const DEVICE_K16: &'static str = "sllm_causal_attention_prefill_gqa6_qtile4_k16_fp16_v1";

/// The kernel symbol of a provider.
pub const KERNEL_K32: &'static str = "causal_attention.prefill.gqa6_qtile4_k32.fp16.v1";

/// The device symbol of a provider.
pub const DEVICE_K32: &'static str = "sllm_causal_attention_prefill_gqa6_qtile4_k32_fp16_v1";

/// The kernel symbol of a provider.
pub const KERNEL_BLOCKSOFTMAX: &'static str = "causal_attention.prefill.gqa6_blocksoftmax.fp16.v1";

/// The device symbol of a provider.
pub const DEVICE_BLOCKSOFTMAX: &'static str = "sllm_causal_attention_prefill_gqa6_blocksoftmax_fp16_v1";

/// The kernel symbol of a provider.
pub const KERNEL_BLOCKSOFTMAX_Q8: &'static str = "causal_attention.prefill.gqa6_blocksoftmax_q8.fp16.v1";

/// The device symbol of a provider.
pub const DEVICE_BLOCKSOFTMAX_Q8: &'static str = "sllm_causal_attention_prefill_gqa6_blocksoftmax_q8_fp16_v1";

/// The kernel symbol of a provider.
pub const KERNEL_DECODE_WAVE: &'static str = "causal_attention.decode.wave8_split.v5";

/// The device symbol of a provider.
pub const DEVICE_DECODE_WAVE: &'static str = "sllm_causal_attention_decode_wave8_split_v5";

/// The kernel symbol of a provider.
pub const KERNEL_DECODE_WAVE_Q_PRELOAD: &'static str = "causal_attention.decode.wave8_split.q_preload.v1";

/// The device symbol of a provider.
pub const DEVICE_DECODE_WAVE_Q_PRELOAD: &'static str = "sllm_causal_attention_decode_wave8_split_q_preload_v1";

/// The kernel symbol of a provider.
pub const KERNEL_DECODE_GQA6_P32: &'static str = "causal_attention.decode.gqa6_split_p32.fp16.v1";

/// The device symbol of a provider.
pub const DEVICE_DECODE_GQA6_P32: &'static str = "sllm_causal_attention_decode_gqa6_split_p32_v1";

/// The kernel symbol of a provider.
pub const KERNEL_DECODE_GQA6_P64: &'static str = "causal_attention.decode.gqa6_split_p64.fp16.v1";

/// The device symbol of a provider.
pub const DEVICE_DECODE_GQA6_P64: &'static str = "sllm_causal_attention_decode_gqa6_split_p64_v1";

/// Prefill rows around the tiles, full contexts, and decodes.
pub open spec fn gqa6_case_list() -> Seq<Case> {
    seq![
        case_of("prefill-m3", 3, 0),
        case_of("prefill-m4", 4, 0),
        case_of("prefill-m5", 5, 0),
        case_of("prefill-m127", 127, 0),
        case_of("prefill-m128", 128, 0),
        case_of("prefill-m129", 129, 0),
        case_of("prefill-m219", 219, 0),
        case_of("v620-last-full-context9216", 512, 8704),
        case_of("r9700-last-full-context9216", 1024, 8192),
        case_of("context31", 1, 30),
        case_of("context32", 1, 31),
        case_of("context33", 1, 32),
        case_of("decode-context4096", 1, 4095),
        case_of("decode-context9435", 1, 9434),
        case_of("long-tail-context9435", 219, 9216),
    ]
}

/// Prefill rows around the tiles, full contexts, and decodes.
pub fn gqa6_cases() -> (out: Vec<Case>)
    ensures
        out@ == gqa6_case_list(),
{
    let mut cases: Vec<Case> = Vec::new();
    cases.push(make_case("prefill-m3", 3, 0));
    cases.push(make_case("prefill-m4", 4, 0));
    cases.push(make_case("prefill-m5", 5, 0));
    cases.push(make_case("prefill-m127", 127, 0));
    cases.push(make_case("prefill-m128", 128, 0));
    cases.push(make_case("prefill-m129", 129, 0));
    cases.push(make_case("prefill-m219", 219, 0));
    cases.push(make_case("v620-last-full-context9216", 512, 8704));
    cases.push(make_case("r9700-last-full-context9216", 1024, 8192));
    cases.push(make_case("context31", 1, 30));
    cases.push(make_case("context32", 1, 31));
    cases.push(make_case("context33", 1, 32));
    cases.push(make_case("decode-context4096", 1, 4095));
    cases.push(make_case("decode-context9435", 1, 9434));
    cases.push(make_case("long-tail-context9435", 219, 9216));
    assert(cases@ =~= gqa6_case_list());
    cases
}

/// The place from `from` on of the first case with a name, or the number of cases.
pub open spec fn place_of(id: Seq<char>, from: int) -> int
    decreases gqa6_case_list().len() - from,
{
    if from >= gqa6_case_list().len() {
        gqa6_case_list().len() as int
    } else if gqa6_case_list()[from].id@ == id {
        from
    } else {
        place_of(id, from + 1)
    }
}

/// Whether a case has a name.
pub open spec fn is_case_id(id: Seq<char>) -> bool {
    place_of(id, 0) < gqa6_case_list().len()
}

fn find_case(cases: &Vec<Case>, id: &str) -> (out: Option<usize>)
    requires
        cases@ == gqa6_case_list(),
    ensures
        match out {
            Some(place) => place == place_of(id@, 0) && place < cases@.len(),
            None => !is_case_id(id@),
        },
{
    for i in 0..cases.len()
        invariant
            cases@ == gqa6_case_list(),
            place_of(id@, 0) == place_of(id@, i as int),
    {
        if same_text(cases[i].id, id) {
            return Some(i);
        }
    }
    None
}

/// The first name that no case has.
pub open spec fn first_unknown(ids: Seq<Seq<char>>) -> Option<Seq<char>>
    decreases ids.len(),
{
    if ids.len() == 0 {
        None
    } else if !is_case_id(ids[0]) {
        Some(ids[0])
    } else {
        first_unknown(ids.skip(1))
    }
}

/// The places of the named cases, each where it is named first.
pub open spec fn selected_places(ids: Seq<Seq<char>>) -> Seq<int>
    decreases ids.len(),
{
    if ids.len() == 0 {
        Seq::empty()
    } else {
        let front = selected_places(ids.drop_last());
        let place = place_of(ids.last(), 0);
        if front.contains(place) {
            front
        } else {
            front.push(place)
        }
    }
}

/// A filter selects each case that it names once, and no other.
pub proof fn selected_places_are_distinct(ids: Seq<Seq<char>>)
    ensures
        selected_places(ids).no_duplicates(),
        forall|i: int|
            0 <= i < ids.len() ==> selected_places(ids).contains(place_of(#[trigger] ids[i], 0)),
        forall|place: int| #[trigger]
            selected_places(ids).contains(place) ==> exists|i: int|
                0 <= i < ids.len() && place_of(#[trigger] ids[i], 0) == place,
    decreases ids.len(),
{
    if ids.len() > 0 {
        let front = ids.drop_last();
        let before = selected_places(front);
        let after = selected_places(ids);
        let last = place_of(ids.last(), 0);
        selected_places_are_distinct(front);
        assert forall|i: int| 0 <= i < ids.len() implies after.contains(
            place_of(#[trigger] ids[i], 0),
        ) by {
            if i < front.len() {
                assert(front[i] == ids[i]);
                let at = before.index_of(place_of(front[i], 0));
                assert(before.contains(place_of(front[i], 0)));
                assert(after[at] == before[at]);
            } else if !before.contains(last) {
                assert(after[before.len() as int] == last);
            }
        }
        assert forall|place: int| #[trigger] after.contains(place) implies exists|i: int|
            0 <= i < ids.len() && place_of(#[trigger] ids[i], 0) == place by {
            if before.contains(place) {
                let i = choose|i: int|
                    0 <= i < front.len() && place_of(#[trigger] front[i], 0) == place;
                assert(ids[i] == front[i]);
            } else {
                assert(place == last);
                assert(ids[ids.len() - 1] == ids.last());
            }
        }
    }
}

/// The message that refuses a filter, if there is one.
pub open spec fn filter_refusal(filter: Option<Seq<char>>) -> Option<Seq<char>> {
    match filter {
        None => None,
        Some(text) => match first_unknown(listed_ids(text)) {
            Some(id) => Some("unknown case id "@ + id),
            None => if listed_ids(text).len() == 0 {
                Some("case filter selected no cases"@)
            } else {
                None
            },
        },
    }
}

/// The places of the cases that a filter selects: all without one.
pub open spec fn filtered_places(filter: Option<Seq<char>>) -> Seq<int> {
    match filter {
        None => Seq::new(gqa6_case_list().len(), |i: int| i),
        Some(text) => selected_places(listed_ids(text)),
    }
}

/// The cases that a filter selects, in the order in which it names them.
#[verifier::loop_isolation(false)]
pub fn selected_cases(filter: Option<&str>) -> (out: Result<Vec<Case>, String>)
    ensures
        match filter_refusal(str_opt(filter)) {
            Some(message) => out is Err && out->Err_0@ == message,
            None => out is Ok && out->Ok_0@ == Seq::new(
                filtered_places(str_opt(filter)).len(),
                |i: int| gqa6_case_list()[filtered_places(str_opt(filter))[i]],
            ),
        },
{
    let cases = gqa6_cases();
    let filter = match filter {
        None => {
            assert(cases@ =~= Seq::new(
                cases@.len(),
                |i: int| gqa6_case_list()[Seq::new(gqa6_case_list().len(), |i: int| i)[i]],
            ));
            return Ok(cases);
        },
        Some(filter) => filter,
    };
    let requested = split_ids(filter);
    let ghost ids = texts(requested@);
    let mut places: Vec<usize> = Vec::new();
    let mut selected: Vec<Case> = Vec::new();
    assert(ids.skip(0) =~= ids);
    assert(ids.take(0) =~= Seq::<Seq<char>>::empty());
    for i in 0..requested.len()
        invariant
            ids == texts(requested@),
            ids == listed_ids(filter@),
            cases@ == gqa6_case_list(),
            first_unknown(ids) == first_unknown(ids.skip(i as int)),
            places@.len() == selected_places(ids.take(i as int)).len(),
            forall|j: int|
                0 <= j < places@.len() ==> #[trigger] places@[j] == selected_places(
                    ids.take(i as int),
                )[j],
            i > 0 ==> places@.len() > 0,
            selected@ == Seq::new(
                places@.len(),
                |j: int| gqa6_case_list()[places@[j] as int],
            ),
    {
        let id = requested[i].as_str();
        assert(ids.skip(i as int)[0] == id@);
        assert(ids.skip(i as int).skip(1) =~= ids.skip(i + 1));
        assert(ids.take(i + 1).drop_last() =~= ids.take(i as int));
        assert(ids.take(i + 1).last() == id@);
        let place: usize = match find_case(&cases, id) {
            Some(place) => place,
            None => {
                return Err(joined("unknown case id ", id));
            },
        };
        let mut known = false;
        let ghost before = selected_places(ids.take(i as int));
        for k in 0..places.len()
            invariant
                known == exists|j: int| 0 <= j < k && #[trigger] places@[j] == place,
        {
            if places[k] == place {
                assert(places@[k as int] == place);
                known = true;
            }
        }
        proof {
            if known {
                let j = choose|j: int| 0 <= j < places@.len() && #[trigger] places@[j] == place;
                assert(before[j] == place);
                assert(before.contains(place as int));
            } else if before.contains(place as int) {
                let j = choose|j: int| 0 <= j < before.len() && before[j] == place;
                assert(places@[j] == place);
            }
        }
        if !known {
            places.push(place);
            selected.push(cases[place]);
            assert(selected@ =~= Seq::new(
                places@.len(),
                |j: int| gqa6_case_list()[places@[j] as int],
            ));
        }
    }
    assert(ids.skip(requested.len() as int) =~= Seq::<Seq<char>>::empty());
    assert(ids.take(requested.len() as int) =~= ids);
    if selected.len() == 0 {
        return Err("case filter selected no cases".to_owned());
    }
    assert(selected@ =~= Seq::new(
        selected_places(ids).len(),
        |j: int| gqa6_case_list()[selected_places(ids)[j]],
    ));
    Ok(selected)
}

/// A filter selects just the cases that it names, each once; a name that no case has is refused, and
/// without a filter all are selected.
pub proof fn filters_select_what_they_name(filter: Option<&str>, out: Vec<Case>, i: int, j: int)
    requires
        call_ensures(selected_cases, (filter,), Ok(out)),
    ensures
        filter is None ==> out@ == gqa6_case_list(),
        filter matches Some(text) ==> {
            let ids = listed_ids(text@);
            &&& 0 <= i < out@.len() ==> ids.contains(out@[i].id@)
            &&& 0 <= j < ids.len() ==> exists|k: int|
                0 <= k < out@.len() && (#[trigger] out@[k]).id@ == ids[j]
            &&& out@.len() >= 1
        },
{
    if filter is None {
        assert(out@ =~= gqa6_case_list());
    } else {
        let ids = listed_ids(filter->Some_0@);
        let places = selected_places(ids);
        selected_places_are_distinct(ids);
        known_ids_have_a_place(ids);
        if 0 <= i < out@.len() {
            assert(places.contains(places[i]));
            let n = choose|n: int| 0 <= n < ids.len() && place_of(#[trigger] ids[n], 0) == places[i];
            place_has_the_name(ids[n], 0);
            assert(out@[i].id@ == ids[n]);
        }
        if 0 <= j < ids.len() {
            assert(places.contains(place_of(ids[j], 0)));
            let k = choose|k: int| 0 <= k < places.len() && places[k] == place_of(ids[j], 0);
            place_has_the_name(ids[j], 0);
            assert(out@[k].id@ == ids[j]);
        }
        assert(places.contains(place_of(ids[0], 0)));
    }
}

proof fn place_has_the_name(id: Seq<char>, from: int)
    requires
        0 <= from <= gqa6_case_list().len(),
        place_of(id, from) < gqa6_case_list().len(),
    ensures
        from <= place_of(id, from),
        gqa6_case_list()[place_of(id, from)].id@ == id,
    decreases gqa6_case_list().len() - from,
{
    if from < gqa6_case_list().len() && gqa6_case_list()[from].id@ != id {
        place_has_the_name(id, from + 1);
    }
}

proof fn known_ids_have_a_place(ids: Seq<Seq<char>>)
    ensures
        first_unknown(ids) is None ==> forall|i: int|
            0 <= i < ids.len() ==> is_case_id(#[trigger] ids[i]),
    decreases ids.len(),
{
    if ids.len() > 0 && is_case_id(ids[0]) {
        known_ids_have_a_place(ids.skip(1));
        if first_unknown(ids) is None {
            assert forall|i: int| 0 <= i < ids.len() implies is_case_id(#[trigger] ids[i]) by {
                if i > 0 {
                    assert(ids.skip(1)[i - 1] == ids[i]);
                }
            }
        }
    }
}

/// The full contexts end at 9216 tokens on either target, the decodes and the long tail lie behind the
/// lengths at which the split kernels take over.
pub proof fn cases_reach_the_long_contexts(list: Vec<Case>)
    requires
        call_ensures(gqa6_cases, (), list),
    ensures
        list@.len() == 15,
        exists|i: int|
            0 <= i < 15 && (#[trigger] list@[i]).m == 512 && list@[i].start_position + 512 == 9216,
        exists|i: int|
            0 <= i < 15 && (#[trigger] list@[i]).m == 1024 && list@[i].start_position + 1024
                == 9216,
        exists|i: int|
            0 <= i < 15 && (#[trigger] list@[i]).m == 1 && list@[i].start_position + 1 == 4096,
        exists|i: int|
            0 <= i < 15 && (#[trigger] list@[i]).m == 1 && list@[i].start_position + 1 == 9435,
        exists|i: int|
            0 <= i < 15 && (#[trigger] list@[i]).m == 219 && list@[i].start_position + 219 == 9435,
        forall|i: int| 0 <= i < 15 ==> (#[trigger] list@[i]).m >= 1,
{
    assert(list@[7].m == 512 && list@[8].m == 1024 && list@[12].m == 1 && list@[13].m == 1
        && list@[14].m == 219);
}

/// Whether a case is timed, by the names from `from` on: up to its own name each must be that of a
/// case.
pub open spec fn timed_by(ids: Seq<Seq<char>>, id: Seq<char>, from: int) -> Result<bool, Seq<char>>
    decreases ids.len() - from,
{
    if from >= ids.len() {
        Ok(false)
    } else if !is_case_id(ids[from]) {
        Err("unknown benchmark case id "@ + ids[from])
    } else if ids[from] == id {
        Ok(true)
    } else {
        timed_by(ids, id, from + 1)
    }
}

/// Whether a case is timed: by the filter, or without one if it is one of two prefills.
pub open spec fn benchmark_outcome(id: Seq<char>, filter: Option<Seq<char>>) -> Result<
    bool,
    Seq<char>,
> {
    match filter {
        None => Ok(id == "prefill-m128"@ || id == "prefill-m219"@),
        Some(text) => if listed_ids(text).len() == 0 {
            Err("benchmark case filter selected no cases"@)
        } else {
            timed_by(listed_ids(text), id, 0)
        },
    }
}

/// Whether a case is timed.
#[verifier::loop_isolation(false)]
pub fn benchmark_case(case: Case, filter: Option<&str>) -> (out: Result<bool, String>)
    ensures
        match benchmark_outcome(case.id@, str_opt(filter)) {
            Ok(timed) => out is Ok && out->Ok_0 == timed,
            Err(message) => out is Err && out->Err_0@ == message,
        },
{
    let filter = match filter {
        None => {
            return Ok(same_text(case.id, "prefill-m128") || same_text(case.id, "prefill-m219"));
        },
        Some(filter) => filter,
    };
    let cases = gqa6_cases();
    let requested = split_ids(filter);
    let ghost ids = texts(requested@);
    if requested.len() == 0 {
        return Err("benchmark case filter selected no cases".to_owned());
    }
    for i in 0..requested.len()
        invariant
            ids == texts(requested@),
            cases@ == gqa6_case_list(),
            timed_by(ids, case.id@, 0) == timed_by(ids, case.id@, i as int),
            ids == listed_ids(filter@),
            ids.len() > 0,
    {
        let id = requested[i].as_str();
        assert(ids[i as int] == id@);
        if find_case(&cases, id).is_none() {
            return Err(joined("unknown benchmark case id ", id));
        }
        if same_text(id, case.id) {
            return Ok(true);
        }
    }
    Ok(false)
}

/// A query word: by row, head and dimension, and apart from the other heads of its group.
pub open spec fn query_word(i: int) -> u16 {
    let row = i / HEAD_DIM as int / Q_HEADS as int;
    let head = i / HEAD_DIM as int % Q_HEADS as int;
    let dimension = i % HEAD_DIM as int;
    bf16_quotient((row * 17 + head * 31 + dimension * 7) % 97 - 48 + 2 * (head % 6), 64)
}

/// The queries of `m` rows.
pub fn input_query_words(m: usize) -> (out: Vec<u16>)
    requires
        m * (Q_HEADS * HEAD_DIM) <= usize::MAX,
    ensures
        out@ == Seq::new((m * (Q_HEADS * HEAD_DIM)) as nat, |i: int| query_word(i)),
{
    let count: usize = m * (Q_HEADS * HEAD_DIM);
    let ghost all = Seq::new(count as nat, |i: int| query_word(i));
    let mut words: Vec<u16> = Vec::new();
    for i in 0..count
        invariant
            all == Seq::new(count as nat, |i: int| query_word(i)),
            words@ == all.take(i as int),
    {
        let row: usize = i / HEAD_DIM / Q_HEADS;
        let head: usize = i / HEAD_DIM % Q_HEADS;
        let dimension: usize = i % HEAD_DIM;
        assert(row * 6144 <= i);
        let code: i64 = ((row * 17 + head * 31 + dimension * 7) % 97) as i64 - 48;
        words.push(bf16_quotient_word(code + 2 * (head % GQA_RATIO) as i64, 64));
        assert(all.take(i + 1) =~= all.take(i as int).push(all[i as int]));
    }
    assert(all.take(count as int) =~= all);
    words
}

/// The pattern of a key word or a value word, by its position, head and dimension.
pub open spec fn pattern_word(
    start_position: int,
    i: int,
    by_position: int,
    by_head: int,
    by_dimension: int,
    period: int,
    head_step: int,
    den: nat,
) -> u16 {
    let absolute = start_position + i / HEAD_DIM as int / KV_HEADS as int;
    let head = i / HEAD_DIM as int % KV_HEADS as int;
    let dimension = i % HEAD_DIM as int;
    bf16_quotient(
        (absolute * by_position + head * by_head + dimension * by_dimension) % period - period / 2
            + head * head_step,
        den,
    )
}


fn pattern_words(
    token_count: usize,
    start_position: u64,
    by_position: u64,
    by_head: u64,
    by_dimension: u64,
    period: u64,
    head_step: u64,
    den: u64,
) -> (out: Vec<u16>)
    requires
        token_count * (KV_HEADS * HEAD_DIM) <= usize::MAX,
        pattern_fits(
            token_count as int,
            start_position as int,
            by_position as int,
            by_head as int,
            by_dimension as int,
        ),
        1 <= by_position <= 37,
        by_head <= 37,
        by_dimension <= 37,
        head_step <= 37,
        1 <= period <= 127,
        1 <= den <= 64,
    ensures
        out@ == Seq::new(
            (token_count * (KV_HEADS * HEAD_DIM)) as nat,
            |i: int|
                pattern_word(
                    start_position as int,
                    i,
                    by_position as int,
                    by_head as int,
                    by_dimension as int,
                    period as int,
                    head_step as int,
                    den as nat,
                ),
        ),
{
    let count: usize = token_count * (KV_HEADS * HEAD_DIM);
    let ghost pattern = |i: int|
        pattern_word(
            start_position as int,
            i,
            by_position as int,
            by_head as int,
            by_dimension as int,
            period as int,
            head_step as int,
            den as nat,
        );
    let ghost all = Seq::new(count as nat, pattern);
    let mut words: Vec<u16> = Vec::new();
    for i in 0..count
        invariant
            count == token_count * (KV_HEADS * HEAD_DIM),
            pattern_fits(
                token_count as int,
                start_position as int,
                by_position as int,
                by_head as int,
                by_dimension as int,
            ),
            1 <= by_position <= 37,
            by_head <= 37,
            by_dimension <= 37,
            head_step <= 37,
            1 <= period <= 127,
            1 <= den <= 64,
            all == Seq::new(count as nat, pattern),
            forall|k: int|
                #[trigger] pattern(k) == pattern_word(
                    start_position as int,
                    k,
                    by_position as int,
                    by_head as int,
                    by_dimension as int,
                    period as int,
                    head_step as int,
                    den as nat,
                ),
            words@ == all.take(i as int),
    {
        let token: usize = i / HEAD_DIM / KV_HEADS;
        assert(count == token_count * 1024) by (nonlinear_arith)
            requires
                count == token_count * (KV_HEADS * HEAD_DIM),
                KV_HEADS * HEAD_DIM == 1024,
        ;
        assert(token < token_count);
        let ghost last = start_position + token_count - 1;
        assert(last <= last * by_position) by (nonlinear_arith)
            requires
                last >= 0,
                by_position >= 1,
        ;
        let absolute: u64 = start_position + token as u64;
        let head: u64 = (i / HEAD_DIM % KV_HEADS) as u64;
        let dimension: u64 = (i % HEAD_DIM) as u64;
        assert(0 <= absolute * by_position <= last * by_position && 0 <= head * by_head <= 3
            * by_head && 0 <= dimension * by_dimension <= 255 * by_dimension && 0 <= head
            * head_step <= 3 * 37) by (nonlinear_arith)
            requires
                0 <= absolute <= last,
                0 <= head <= 3,
                0 <= dimension <= 255,
                by_position >= 0,
                by_head >= 0,
                by_dimension >= 0,
                0 <= head_step <= 37,
        ;
        let code: u64 = (absolute * by_position + head * by_head + dimension * by_dimension)
            % period;
        let word: u16 = bf16_quotient_word(
            code as i64 - (period / 2) as i64 + (head * head_step) as i64,
            den,
        );
        words.push(word);
        assert(word == pattern(i as int));
        assert(all.take(i + 1) =~= all.take(i as int).push(all[i as int]));
    }
    assert(all.take(count as int) =~= all);
    words
}

/// A key word. The first word of all is one that BF16 can hold and binary16 cannot.
pub open spec fn key_word(start_position: int, i: int) -> u16 {
    if i == 0 {
        0x3300
    } else {
        pattern_word(start_position, i, 13, 23, 7, 89, 4, 64)
    }
}

/// The keys of some tokens from a position on.
pub fn input_key_words(token_count: usize, start_position: u64) -> (out: Vec<u16>)
    requires
        token_count * (KV_HEADS * HEAD_DIM) <= usize::MAX,
        pattern_fits(token_count as int, start_position as int, 13, 23, 7),
    ensures
        out@ == Seq::new(
            (token_count * (KV_HEADS * HEAD_DIM)) as nat,
            |i: int| key_word(start_position as int, i),
        ),
{
    let mut words = pattern_words(token_count, start_position, 13, 23, 7, 89, 4, 64);
    if words.len() > 0 {
        words.set(0, 0x3300);
    }
    assert(words@ =~= Seq::new(
        (token_count * (KV_HEADS * HEAD_DIM)) as nat,
        |i: int| key_word(start_position as int, i),
    ));
    words
}

/// A value word.
pub open spec fn value_word(start_position: int, i: int) -> u16 {
    pattern_word(start_position, i, 29, 37, 11, 113, 16, 32)
}

/// The values of some tokens from a position on.
pub fn input_value_words(token_count: usize, start_position: u64) -> (out: Vec<u16>)
    requires
        token_count * (KV_HEADS * HEAD_DIM) <= usize::MAX,
        pattern_fits(token_count as int, start_position as int, 29, 37, 11),
    ensures
        out@ == Seq::new(
            (token_count * (KV_HEADS * HEAD_DIM)) as nat,
            |i: int| value_word(start_position as int, i),
        ),
{
    let words = pattern_words(token_count, start_position, 29, 37, 11, 113, 16, 32);
    assert(words@ =~= Seq::new(
        (token_count * (KV_HEADS * HEAD_DIM)) as nat,
        |i: int| value_word(start_position as int, i),
    ));
    words
}

/// A query follows its row, head and dimension: each step adds seventeen, thirty-one and seven modulo
/// ninety-seven, and the six heads of a group lie two apart.
pub proof fn queries_follow_their_pattern(
    m: usize,
    words: Vec<u16>,
    row: int,
    head: int,
    dimension: int,
    code: int,
)
    requires
        call_ensures(input_query_words, (m,), words),
        0 <= row < m,
        0 <= head < 24,
        0 <= dimension < 256,
        0 <= code < 97,
        (17 * row + 31 * head + 7 * dimension - code) % 97 == 0,
    ensures
        words@.len() == m * 6144,
        words@[(row * 24 + head) * 256 + dimension] == bf16_quotient(code - 48 + 2 * (head % 6), 64),
{
    code_is_the_rest(17 * row + 31 * head + 7 * dimension, code, 97);
    place_parts(row, head, dimension, 24);
    assert(0 <= (row * 24 + head) * 256 + dimension < m * 6144) by (nonlinear_arith)
        requires
            0 <= row < m,
            0 <= head < 24,
            0 <= dimension < 256,
    ;
}

/// A key follows its position, head and dimension: each step adds thirteen, twenty-three and seven
/// modulo eighty-nine, and the heads lie four apart. The first word of all is another.
pub proof fn keys_follow_their_pattern(
    token_count: usize,
    start_position: u64,
    words: Vec<u16>,
    token: int,
    head: int,
    dimension: int,
    code: int,
)
    requires
        call_ensures(input_key_words, (token_count, start_position), words),
        0 <= token < token_count,
        0 <= head < 4,
        0 <= dimension < 256,
        0 <= code < 89,
        (13 * (start_position + token) + 23 * head + 7 * dimension - code) % 89 == 0,
    ensures
        words@.len() == token_count * 1024,
        words@[(token * 4 + head) * 256 + dimension] == if token == 0 && head == 0 && dimension
            == 0 {
            0x3300u16
        } else {
            bf16_quotient(code - 44 + 4 * head, 64)
        },
{
    code_is_the_rest(13 * (start_position + token) + 23 * head + 7 * dimension, code, 89);
    place_parts(token, head, dimension, 4);
    assert(0 <= (token * 4 + head) * 256 + dimension < token_count * 1024) by (nonlinear_arith)
        requires
            0 <= token < token_count,
            0 <= head < 4,
            0 <= dimension < 256,
    ;
}

/// A value follows its position, head and dimension: each step adds twenty-nine, thirty-seven and
/// eleven modulo 113, and the heads lie sixteen apart.
pub proof fn values_follow_their_pattern(
    token_count: usize,
    start_position: u64,
    words: Vec<u16>,
    token: int,
    head: int,
    dimension: int,
    code: int,
)
    requires
        call_ensures(input_value_words, (token_count, start_position), words),
        0 <= token < token_count,
        0 <= head < 4,
        0 <= dimension < 256,
        0 <= code < 113,
        (29 * (start_position + token) + 37 * head + 11 * dimension - code) % 113 == 0,
    ensures
        words@.len() == token_count * 1024,
        words@[(token * 4 + head) * 256 + dimension] == bf16_quotient(code - 56 + 16 * head, 32),
{
    code_is_the_rest(29 * (start_position + token) + 37 * head + 11 * dimension, code, 113);
    place_parts(token, head, dimension, 4);
    assert(0 <= (token * 4 + head) * 256 + dimension < token_count * 1024) by (nonlinear_arith)
        requires
            0 <= token < token_count,
            0 <= head < 4,
            0 <= dimension < 256,
    ;
}

/// The work that checking every row of a case takes.
pub open spec fn oracle_work(case: Case) -> int {
    case.m * committed(case) * 24 * 256
}

/// The rows of a case that are checked: all of them where that is not too much work.
pub open spec fn checked_rows(case: Case) -> Seq<usize> {
    if case.m == 1 {
        seq![0usize]
    } else if oracle_work(case) > 50_000_000 {
        seq![0usize, (case.m / 2) as usize, (case.m - 1) as usize]
    } else {
        Seq::new(case.m as nat, |i: int| i as usize)
    }
}

/// The rows of a case that are checked.
pub fn oracle_rows(case: Case) -> (out: Vec<usize>)
    requires
        committed(case) <= usize::MAX,
    ensures
        out@ == checked_rows(case),
{
    let length: usize = case.start_position as usize + case.m;
    let too_much = match case.m.checked_mul(length) {
        None => true,
        Some(product) => match product.checked_mul(Q_HEADS * HEAD_DIM) {
            None => true,
            Some(work) => work > 50_000_000,
        },
    };
    assert(case.m * length == case.m * committed(case));
    assert(Q_HEADS * HEAD_DIM == 6144);
    let mut rows: Vec<usize> = Vec::new();
    if case.m == 1 {
        rows.push(0);
        assert(rows@ =~= seq![0usize]);
    } else if too_much {
        proof {
            if case.m == 0 {
                assert(case.m * committed(case) == 0) by (nonlinear_arith)
                    requires
                        case.m == 0,
                ;
            }
        }
        rows.push(0);
        rows.push(case.m / 2);
        rows.push(case.m - 1);
        assert(rows@ =~= checked_rows(case));
    } else {
        for i in 0..case.m
            invariant
                rows@ == Seq::new(i as nat, |k: int| k as usize),
        {
            rows.push(i);
            assert(rows@ =~= Seq::new((i + 1) as nat, |k: int| k as usize));
        }
    }
    rows
}

/// Every row of a case is checked, in order, where checking all of them takes at most fifty million
/// steps. Otherwise the first, the middle and the last one are. No row lies outside the case, and
/// none is checked twice unless the middle row of a case of two rows is its last.
pub proof fn checked_rows_reach_from_first_to_last(case: Case, rows: Vec<usize>)
    requires
        case.m > 0,
        committed(case) <= usize::MAX,
        call_ensures(oracle_rows, (case,), rows),
    ensures
        rows@.contains(0),
        rows@.contains((case.m / 2) as usize),
        rows@.contains((case.m - 1) as usize),
        forall|i: int| 0 <= i < rows@.len() ==> #[trigger] rows@[i] < case.m,
        forall|i: int, j: int|
            0 <= i < j < rows@.len() ==> #[trigger] rows@[i] <= #[trigger] rows@[j],
        case.m != 2 || case.m * (case.start_position + case.m) * 6144 <= 50_000_000
            ==> rows@.no_duplicates(),
        case.m * (case.start_position + case.m) * 6144 <= 50_000_000 ==> forall|row: usize|
            row < case.m ==> #[trigger] rows@.contains(row),
        case.m > 1 && case.m * (case.start_position + case.m) * 6144 > 50_000_000 ==> rows@.len()
            == 3,
        case.m == 1 ==> rows@.len() == 1,
{
    assert(rows@ == checked_rows(case));
    let work = case.m * (case.start_position + case.m) * 6144;
    assert(oracle_work(case) == work);
    if case.m == 1 {
        assert(rows@[0] == 0);
    } else if work > 50_000_000 {
        assert(rows@[0] == 0 && rows@[1] == case.m / 2 && rows@[2] == case.m - 1);
    } else {
        assert forall|row: usize| row < case.m implies #[trigger] rows@.contains(row) by {
            assert(rows@[row as int] == row);
        }
    }
}

/// How far the observed words of a row are off.
pub open spec fn worst_step(observed: Seq<u16>, expected: Seq<u16>) -> int
    decreases observed.len(),
{
    if observed.len() == 0 {
        0
    } else {
        let front = worst_step(observed.drop_last(), expected.drop_last());
        let last = distance(
            signed_zero_rank(observed.last()) as int,
            signed_zero_rank(expected.last()) as int,
        ) as int;
        if last > front {
            last
        } else {
            front
        }
    }
}

/// How many observed words of a row are off.
pub open spec fn steps_off(observed: Seq<u16>, expected: Seq<u16>) -> nat
    decreases observed.len(),
{
    if observed.len() == 0 {
        0
    } else {
        steps_off(observed.drop_last(), expected.drop_last()) + if signed_zero_rank(observed.last())
            == signed_zero_rank(expected.last()) {
            0nat
        } else {
            1
        }
    }
}

/// How far the words of a row are off at most, and how many of them are.
pub fn compare_row(observed: &[u16], expected: &[u16]) -> (out: (u32, u64))
    requires
        observed@.len() == expected@.len(),
    ensures
        out.0 == worst_step(observed@, expected@),
        out.1 == steps_off(observed@, expected@),
{
    let mut worst: u32 = 0;
    let mut off: u64 = 0;
    for i in 0..observed.len()
        invariant
            observed@.len() == expected@.len(),
            worst == worst_step(observed@.take(i as int), expected@.take(i as int)),
            off == steps_off(observed@.take(i as int), expected@.take(i as int)),
            off <= i,
    {
        assert(observed@.take(i + 1).drop_last() =~= observed@.take(i as int));
        assert(expected@.take(i + 1).drop_last() =~= expected@.take(i as int));
        let ulp: u32 = bf16_ulp_distance(observed[i], expected[i]);
        if ulp > worst {
            worst = ulp;
        }
        if ulp != 0 {
            off += 1;
        }
    }
    assert(observed@.take(observed.len() as int) =~= observed@);
    assert(expected@.take(observed.len() as int) =~= expected@);
    (worst, off)
}

/// The worst step of a row is that of one of its words and bounds that of every other, and as many
/// words are off as differ in their rank.
pub proof fn every_word_counts(observed: &[u16], expected: &[u16], out: (u32, u64), at: int)
    requires
        observed@.len() == expected@.len(),
        call_ensures(compare_row, (observed, expected), out),
        0 <= at < observed@.len(),
    ensures
        ({
            let a = signed_zero_rank(observed@[at]) as int;
            let b = signed_zero_rank(expected@[at]) as int;
            &&& out.0 >= a - b
            &&& out.0 >= b - a
            &&& a != b ==> out.0 > 0 && out.1 > 0
        }),
        out.1 <= observed@.len(),
        out.0 == 0 <==> out.1 == 0,
{
    worst_step_bounds(observed@, expected@, at);
}

proof fn worst_step_bounds(observed: Seq<u16>, expected: Seq<u16>, at: int)
    requires
        observed.len() == expected.len(),
        0 <= at < observed.len(),
    ensures
        worst_step(observed, expected) >= distance(
            signed_zero_rank(observed[at]) as int,
            signed_zero_rank(expected[at]) as int,
        ),
        signed_zero_rank(observed[at]) != signed_zero_rank(expected[at]) ==> steps_off(
            observed,
            expected,
        ) > 0,
        worst_step(observed, expected) == 0 <==> steps_off(observed, expected) == 0,
        worst_step(observed, expected) >= 0,
        steps_off(observed, expected) <= observed.len(),
    decreases observed.len(),
{
    if observed.len() > 1 {
        worst_step_bounds(
            observed.drop_last(),
            expected.drop_last(),
            if at < observed.len() - 1 {
                at
            } else {
                0
            },
        );
    } else {
        assert(worst_step(observed.drop_last(), expected.drop_last()) == 0);
        assert(steps_off(observed.drop_last(), expected.drop_last()) == 0);
    }
}

/// The kernel that a dispatch must come from: its symbols, grid, dispatches and workgroup size.
pub open spec fn kernel_of(mode: Mode, target: Seq<char>, case: Case) -> (
    Seq<char>,
    Seq<char>,
    int,
    u32,
    u32,
) {
    let length = committed(case);
    let quarter_grid = (case.m + 3) / 4 * KV_HEADS;
    let row_grid = case.m * Q_HEADS;
    if case.m == 1 && mode == Mode::DecodeP64 && (target == "gfx1030"@ && length >= 8192 || target
        == "gfx1201"@ && length >= 4096) {
        (KERNEL_DECODE_GQA6_P64@, DEVICE_DECODE_GQA6_P64@, 256, 2, 192)
    } else if case.m == 1 && mode == Mode::DecodeP32 && length >= 4096 {
        (KERNEL_DECODE_GQA6_P32@, DEVICE_DECODE_GQA6_P32@, 128, 2, 192)
    } else if case.m == 1 && length >= 1024 {
        if target == "gfx1030"@ {
            (KERNEL_DECODE_WAVE_Q_PRELOAD@, DEVICE_DECODE_WAVE_Q_PRELOAD@, 24, 1, WORKGROUP_SIZE)
        } else {
            (KERNEL_DECODE_WAVE@, DEVICE_DECODE_WAVE@, 24, 1, WORKGROUP_SIZE)
        }
    } else if case.m >= 128 && mode == Mode::K4 {
        (KERNEL_K4@, DEVICE_K4@, quarter_grid, 1, WORKGROUP_SIZE)
    } else if case.m >= 128 && mode == Mode::K8 {
        (KERNEL_K8@, DEVICE_K8@, quarter_grid, 1, WORKGROUP_SIZE)
    } else if case.m >= 128 && mode == Mode::K16 {
        (KERNEL_K16@, DEVICE_K16@, quarter_grid, 1, WORKGROUP_SIZE)
    } else if case.m >= 128 && mode == Mode::K32 {
        (KERNEL_K32@, DEVICE_K32@, quarter_grid, 1, WORKGROUP_SIZE)
    } else if case.m >= 128 && mode == Mode::BlockSoftmax {
        (KERNEL_BLOCKSOFTMAX@, DEVICE_BLOCKSOFTMAX@, quarter_grid, 1, WORKGROUP_SIZE)
    } else if case.m >= 128 && mode == Mode::BlockSoftmaxQ8 && target == "gfx1201"@ {
        (
            KERNEL_BLOCKSOFTMAX_Q8@,
            DEVICE_BLOCKSOFTMAX_Q8@,
            (case.m + 7) / 8 * KV_HEADS,
            1,
            WORKGROUP_SIZE,
        )
    } else if case.m >= 128 && mode == Mode::QTile1 {
        (KERNEL_QTILE1@, DEVICE_QTILE1@, quarter_grid, 1, WORKGROUP_SIZE)
    } else if target == "gfx1201"@ && (case.m == 1 || case.m >= 32) {
        (KERNEL_WAVE1201@, DEVICE_WAVE1201@, row_grid, 1, WORKGROUP_SIZE)
    } else {
        (KERNEL_BASELINE@, DEVICE_BASELINE@, row_grid, 1, WORKGROUP_SIZE)
    }
}

/// The kernel that a dispatch must come from: its symbols, grid, dispatches and workgroup size. The
/// grid must fit its field.
pub fn expected_kernel(config: &Config, case: Case) -> (out: (
    &'static str,
    &'static str,
    u32,
    u32,
    u32,
))
    requires
        committed(case) <= u64::MAX,
        kernel_of(config.mode, config.target@, case).2 <= u32::MAX,
    ensures
        ({
            let kernel = kernel_of(config.mode, config.target@, case);
            &&& out.0@ == kernel.0
            &&& out.1@ == kernel.1
            &&& out.2 == kernel.2
            &&& out.3 == kernel.3
            &&& out.4 == kernel.4
        }),
{
    let target = config.target.as_str();
    let mode = config.mode;
    let length: u64 = case.start_position + case.m as u64;
    let m: u64 = case.m as u64;
    let gfx1030 = same_text(target, "gfx1030");
    let gfx1201 = same_text(target, "gfx1201");
    if m == 1 && mode == Mode::DecodeP64 && ((gfx1030 && length >= 8192) || (gfx1201 && length
        >= 4096)) {
        return (KERNEL_DECODE_GQA6_P64, DEVICE_DECODE_GQA6_P64, 256, 2, 192);
    }
    if m == 1 && mode == Mode::DecodeP32 && length >= 4096 {
        return (KERNEL_DECODE_GQA6_P32, DEVICE_DECODE_GQA6_P32, 128, 2, 192);
    }
    if m == 1 && length >= 1024 {
        if gfx1030 {
            return (
                KERNEL_DECODE_WAVE_Q_PRELOAD,
                DEVICE_DECODE_WAVE_Q_PRELOAD,
                24,
                1,
                WORKGROUP_SIZE,
            );
        }
        return (KERNEL_DECODE_WAVE, DEVICE_DECODE_WAVE, 24, 1, WORKGROUP_SIZE);
    }
    if m >= 128 {
        match mode {
            Mode::K4 => {
                return (KERNEL_K4, DEVICE_K4, ((m + 3) / 4 * 4) as u32, 1, WORKGROUP_SIZE);
            },
            Mode::K8 => {
                return (KERNEL_K8, DEVICE_K8, ((m + 3) / 4 * 4) as u32, 1, WORKGROUP_SIZE);
            },
            Mode::K16 => {
                return (KERNEL_K16, DEVICE_K16, ((m + 3) / 4 * 4) as u32, 1, WORKGROUP_SIZE);
            },
            Mode::K32 => {
                return (KERNEL_K32, DEVICE_K32, ((m + 3) / 4 * 4) as u32, 1, WORKGROUP_SIZE);
            },
            Mode::BlockSoftmax => {
                return (
                    KERNEL_BLOCKSOFTMAX,
                    DEVICE_BLOCKSOFTMAX,
                    ((m + 3) / 4 * 4) as u32,
                    1,
                    WORKGROUP_SIZE,
                );
            },
            Mode::BlockSoftmaxQ8 => {
                if gfx1201 {
                    return (
                        KERNEL_BLOCKSOFTMAX_Q8,
                        DEVICE_BLOCKSOFTMAX_Q8,
                        ((m + 7) / 8 * 4) as u32,
                        1,
                        WORKGROUP_SIZE,
                    );
                }
            },
            Mode::QTile1 => {
                return (KERNEL_QTILE1, DEVICE_QTILE1, ((m + 3) / 4 * 4) as u32, 1, WORKGROUP_SIZE);
            },
            _ => {},
        }
    }
    if gfx1201 && (m == 1 || m >= 32) {
        return (KERNEL_WAVE1201, DEVICE_WAVE1201, (m * 24) as u32, 1, WORKGROUP_SIZE);
    }
    (KERNEL_BASELINE, DEVICE_BASELINE, (m * 24) as u32, 1, WORKGROUP_SIZE)
}

/// Which decodes come from which kernel: the split modes take one token behind a long enough
/// context, and every other decode behind 1023 tokens is split over waves.
pub proof fn decodes_come_from_their_kernel(
    config: &Config,
    case: Case,
    out: (&'static str, &'static str, u32, u32, u32),
)
    requires
        case.m == 1,
        committed(case) <= u64::MAX,
        call_ensures(expected_kernel, (config, case), out),
    ensures
        ({
            let length = case.start_position + 1;
            let p64 = config.mode == Mode::DecodeP64 && (config.target@ == "gfx1030"@ && length
                >= 8192 || config.target@ == "gfx1201"@ && length >= 4096);
            let p32 = config.mode == Mode::DecodeP32 && length >= 4096;
            let wave = length >= 1024 && !p64 && !p32;
            &&& p64 ==> out.0@ == KERNEL_DECODE_GQA6_P64@ && out.1@ == DEVICE_DECODE_GQA6_P64@
                && out.2 == 4 * 64 && out.3 == 2 && out.4 == 192
            &&& p32 ==> out.0@ == KERNEL_DECODE_GQA6_P32@ && out.1@ == DEVICE_DECODE_GQA6_P32@
                && out.2 == 4 * 32 && out.3 == 2 && out.4 == 192
            &&& !p64 && !p32 ==> out.2 == 24 && out.3 == 1 && out.4 == 256
            &&& wave && config.target@ == "gfx1030"@ ==> out.0@ == KERNEL_DECODE_WAVE_Q_PRELOAD@
                && out.1@ == DEVICE_DECODE_WAVE_Q_PRELOAD@
            &&& wave && config.target@ != "gfx1030"@ ==> out.0@ == KERNEL_DECODE_WAVE@ && out.1@
                == DEVICE_DECODE_WAVE@
            &&& length < 1024 && config.target@ == "gfx1201"@ ==> out.0@ == KERNEL_WAVE1201@
                && out.1@ == DEVICE_WAVE1201@
            &&& length < 1024 && config.target@ != "gfx1201"@ ==> out.0@ == KERNEL_BASELINE@
                && out.1@ == DEVICE_BASELINE@
        }),
{
}

/// Which prefills come from which kernel: from 128 rows on the mode's own, with a group for each
/// cache head and each tile of four rows, or of eight in the one mode that has them; else the general
/// kernels with a group for each query head and row.
pub proof fn prefills_come_from_their_kernel(
    config: &Config,
    case: Case,
    out: (&'static str, &'static str, u32, u32, u32),
    fours: int,
    eights: int,
)
    requires
        case.m != 1,
        committed(case) <= u64::MAX,
        call_ensures(expected_kernel, (config, case), out),
        4 * (fours - 1) < case.m <= 4 * fours,
        8 * (eights - 1) < case.m <= 8 * eights,
    ensures
        ({
            let mode = config.mode;
            let tiled = case.m >= 128 && (mode == Mode::K4 || mode == Mode::K8 || mode == Mode::K16
                || mode == Mode::K32 || mode == Mode::BlockSoftmax || mode == Mode::QTile1);
            let eight = case.m >= 128 && mode == Mode::BlockSoftmaxQ8 && config.target@
                == "gfx1201"@;
            &&& out.3 == 1 && out.4 == 256
            &&& tiled ==> out.2 == 4 * fours
            &&& eight ==> out.2 == 4 * eights && out.0@ == KERNEL_BLOCKSOFTMAX_Q8@ && out.1@
                == DEVICE_BLOCKSOFTMAX_Q8@
            &&& tiled && mode == Mode::K4 ==> out.0@ == KERNEL_K4@ && out.1@ == DEVICE_K4@
            &&& tiled && mode == Mode::K8 ==> out.0@ == KERNEL_K8@ && out.1@ == DEVICE_K8@
            &&& tiled && mode == Mode::K16 ==> out.0@ == KERNEL_K16@ && out.1@ == DEVICE_K16@
            &&& tiled && mode == Mode::K32 ==> out.0@ == KERNEL_K32@ && out.1@ == DEVICE_K32@
            &&& tiled && mode == Mode::BlockSoftmax ==> out.0@ == KERNEL_BLOCKSOFTMAX@ && out.1@
                == DEVICE_BLOCKSOFTMAX@
            &&& tiled && mode == Mode::QTile1 ==> out.0@ == KERNEL_QTILE1@ && out.1@
                == DEVICE_QTILE1@
            &&& !tiled && !eight ==> out.2 == 24 * case.m
            &&& !tiled && !eight && config.target@ == "gfx1201"@ && case.m >= 32 ==> out.0@
                == KERNEL_WAVE1201@ && out.1@ == DEVICE_WAVE1201@
            &&& !tiled && !eight && (config.target@ != "gfx1201"@ || case.m < 32) ==> out.0@
                == KERNEL_BASELINE@ && out.1@ == DEVICE_BASELINE@
        }),
{
    assert((case.m + 3) / 4 == fours);
    assert((case.m + 7) / 8 == eights);
}

/// Whether a dispatch is the one that a case must make.
pub open spec fn is_expected_dispatch(
    dispatch: DispatchEvidence,
    mode: Mode,
    target: Seq<char>,
    case: Case,
    abi: AttentionAbi,
) -> bool {
    let kernel = kernel_of(mode, target, case);
    &&& dispatch.abi_version == abi.abi_version
    &&& dispatch.info_version == abi.dispatch_info_version
    &&& dispatch.dispatch_id != 0
    &&& dispatch.dispatch_count == kernel.3
    &&& dispatch.kernel_id == abi.kernel_online_softmax_v2
    &&& dispatch.workgroup_size_x == kernel.4
    &&& dispatch.grid_size_x == kernel.2
    &&& dispatch.row_count == case.m
    &&& dispatch.normalized_size == HEAD_DIM
    &&& dispatch.backend == abi.backend_hip
    &&& !dispatch.fallback_allowed
    &&& !dispatch.fallback_used
    &&& dispatch.kernel_symbol@ == kernel.0
    &&& dispatch.device_symbol@ == kernel.1
    &&& dispatch.target@ == target
}

/// Whether a dispatch is the one that a case must make.
pub fn gqa6_metadata_matches(
    dispatch: &DispatchEvidence,
    config: &Config,
    case: Case,
    abi: &AttentionAbi,
) -> (out: bool)
    requires
        committed(case) <= u64::MAX,
        kernel_of(config.mode, config.target@, case).2 <= u32::MAX,
    ensures
        out == is_expected_dispatch(*dispatch, config.mode, config.target@, case, *abi),
{
    let (kernel, device, grid, dispatch_count, workgroup_size) = expected_kernel(config, case);
    dispatch.abi_version == abi.abi_version && dispatch.info_version == abi.dispatch_info_version
        && dispatch.dispatch_id != 0 && dispatch.dispatch_count == dispatch_count
        && dispatch.kernel_id == abi.kernel_online_softmax_v2 && dispatch.workgroup_size_x
        == workgroup_size && dispatch.grid_size_x == grid && dispatch.row_count == case.m as u64
        && dispatch.normalized_size == HEAD_DIM as u64 && dispatch.backend == abi.backend_hip
        && !dispatch.fallback_allowed && !dispatch.fallback_used && same_text(
        dispatch.kernel_symbol.as_str(),
        kernel,
    ) && same_text(dispatch.device_symbol.as_str(), device) && same_text(
        dispatch.target.as_str(),
        config.target.as_str(),
    )
}

/// A dispatch matches just where it is a fresh one of the HIP backend without fallback, on the
/// case's target and rows, and comes from the kernel that the case must come from.
pub proof fn matching_dispatches_come_from_the_kernel(
    dispatch: &DispatchEvidence,
    config: &Config,
    case: Case,
    abi: &AttentionAbi,
    kernel: (&'static str, &'static str, u32, u32, u32),
    matches: bool,
)
    requires
        committed(case) <= u64::MAX,
        call_ensures(expected_kernel, (config, case), kernel),
        call_ensures(gqa6_metadata_matches, (dispatch, config, case, abi), matches),
    ensures
        matches <==> {
            &&& dispatch.dispatch_id != 0
            &&& dispatch.backend == abi.backend_hip
            &&& !dispatch.fallback_allowed
            &&& !dispatch.fallback_used
            &&& dispatch.abi_version == abi.abi_version
            &&& dispatch.info_version == abi.dispatch_info_version
            &&& dispatch.kernel_id == abi.kernel_online_softmax_v2
            &&& dispatch.target@ == config.target@
            &&& dispatch.row_count == case.m
            &&& dispatch.normalized_size == 256
            &&& dispatch.kernel_symbol@ == kernel.0@
            &&& dispatch.device_symbol@ == kernel.1@
            &&& dispatch.grid_size_x == kernel.2
            &&& dispatch.dispatch_count == kernel.3
            &&& dispatch.workgroup_size_x == kernel.4
        },
{
}

/// What a case showed.
#[derive(Clone, Copy, Debug, PartialEq, Eq, Structural)]
pub struct Gqa6CaseFlags {
    pub numerical_match: bool,
    pub nonuniform_softmax_checked: bool,
    pub bf16_to_fp16_to_f32_checked: bool,
    pub causal_visibility_match: bool,
    pub gqa_mapping_match: bool,
    pub metadata_match: bool,
    pub hip_execution: bool,
    pub no_fallback: bool,
}

impl Gqa6CaseFlags {
    /// Whether the case passed.
    pub open spec fn holds(self) -> bool {
        &&& self.numerical_match
        &&& self.causal_visibility_match
        &&& self.gqa_mapping_match
        &&& self.metadata_match
        &&& self.hip_execution
        &&& self.no_fallback
    }
}

/// What a case showed: the heads map as they should where the output matches, and nothing is seen
/// that should not be where the cache is known to hold just the tokens of the case.
pub fn gqa6_case_flags(
    case: Case,
    matches: bool,
    nonuniform_softmax: bool,
    roundtrip: bool,
    cache_length: Option<u64>,
    metadata_match: bool,
    no_fallback: bool,
) -> (out: Gqa6CaseFlags)
    ensures
        out.numerical_match == matches,
        out.nonuniform_softmax_checked == nonuniform_softmax,
        out.bf16_to_fp16_to_f32_checked == roundtrip,
        out.causal_visibility_match == (cache_length is Some && cache_length->Some_0 == committed(
            case,
        )),
        out.gqa_mapping_match == matches,
        out.metadata_match == metadata_match,
        out.hip_execution,
        out.no_fallback == no_fallback,
{
    let length: Option<u64> = case.start_position.checked_add(case.m as u64);
    let causal_visibility_match = match (cache_length, length) {
        (Some(found), Some(expected)) => found == expected,
        _ => false,
    };
    Gqa6CaseFlags {
        numerical_match: matches,
        nonuniform_softmax_checked: nonuniform_softmax,
        bf16_to_fp16_to_f32_checked: roundtrip,
        causal_visibility_match,
        gqa_mapping_match: matches,
        metadata_match,
        hip_execution: true,
        no_fallback,
    }
}

/// The name of what a case is compared with, from the number of rows that are compared.
pub fn gqa6_oracle_scope(rows: usize, case: Case) -> (out: &'static str)
    ensures
        out@ == if rows == case.m {
            "all-rows-all-24-heads-scalar-v1"@
        } else {
            "sampled-rows-all-24-heads-scalar-v1"@
        },
{
    if rows == case.m {
        "all-rows-all-24-heads-scalar-v1"
    } else {
        "sampled-rows-all-24-heads-scalar-v1"
    }
}

/// What the cases of a run showed, and whether it passed.
#[derive(Clone, Copy, Debug, PartialEq, Eq, Structural)]
pub struct Gqa6Verdict {
    pub scalar_ordered_dot_softmax_v: bool,
    pub all_24_query_heads_checked: bool,
    pub bf16_kv_roundtrip_checked: bool,
    pub final_bf16_rne_checked: bool,
    pub pass: bool,
}

impl Gqa6Verdict {
    /// The verdict on a list of cases and the cleanup after them.
    pub open spec fn judges(self, cases: Seq<Gqa6CaseFlags>, cleanup: CleanupCounts) -> bool {
        &&& self.scalar_ordered_dot_softmax_v == exists|i: int|
            0 <= i < cases.len() && (#[trigger] cases[i]).nonuniform_softmax_checked
        &&& self.all_24_query_heads_checked == forall|i: int|
            0 <= i < cases.len() ==> (#[trigger] cases[i]).gqa_mapping_match
        &&& self.bf16_kv_roundtrip_checked == forall|i: int|
            0 <= i < cases.len() ==> (#[trigger] cases[i]).bf16_to_fp16_to_f32_checked
        &&& self.final_bf16_rne_checked == forall|i: int|
            0 <= i < cases.len() ==> (#[trigger] cases[i]).numerical_match
        &&& self.pass == ((forall|i: int|
            0 <= i < cases.len() ==> (#[trigger] cases[i]).holds())
            && self.scalar_ordered_dot_softmax_v && self.all_24_query_heads_checked
            && self.bf16_kv_roundtrip_checked && self.final_bf16_rne_checked && cleanup.is_zero())
    }
}

/// Judges a run that ran all its cases.
pub fn judge_gqa6(cases: &Vec<Gqa6CaseFlags>, cleanup: &CleanupCounts) -> (out: Gqa6Verdict)
    ensures
        out.judges(cases@, *cleanup),
{
    let mut nonuniform = false;
    let mut heads = true;
    let mut roundtrip = true;
    let mut numerical = true;
    let mut all = true;
    for i in 0..cases.len()
        invariant
            nonuniform == exists|j: int|
                0 <= j < i && (#[trigger] cases@[j]).nonuniform_softmax_checked,
            heads == forall|j: int| 0 <= j < i ==> (#[trigger] cases@[j]).gqa_mapping_match,
            roundtrip == forall|j: int|
                0 <= j < i ==> (#[trigger] cases@[j]).bf16_to_fp16_to_f32_checked,
            numerical == forall|j: int| 0 <= j < i ==> (#[trigger] cases@[j]).numerical_match,
            all == forall|j: int| 0 <= j < i ==> (#[trigger] cases@[j]).holds(),
    {
        let case = cases[i];
        assert(case == cases@[i as int]);
        nonuniform = nonuniform || case.nonuniform_softmax_checked;
        heads = heads && case.gqa_mapping_match;
        roundtrip = roundtrip && case.bf16_to_fp16_to_f32_checked;
        numerical = numerical && case.numerical_match;
        all = all && case.numerical_match && case.causal_visibility_match && case.gqa_mapping_match
            && case.metadata_match && case.hip_execution && case.no_fallback;
    }
    Gqa6Verdict {
        scalar_ordered_dot_softmax_v: nonuniform,
        all_24_query_heads_checked: heads,
        bf16_kv_roundtrip_checked: roundtrip,
        final_bf16_rne_checked: numerical,
        pass: all && nonuniform && heads && roundtrip && numerical && cleanup.terminal_zero(),
    }
}

/// A run passes just where it released everything, some case had a softmax that is not uniform, and
/// every case matched its oracle, its causal bound, its head mapping and its kernel, went through
/// binary16, and ran on the device without fallback.
pub proof fn one_failed_case_fails_the_run(
    cases: &Vec<Gqa6CaseFlags>,
    cleanup: &CleanupCounts,
    verdict: Gqa6Verdict,
)
    requires
        call_ensures(judge_gqa6, (cases, cleanup), verdict),
    ensures
        verdict.pass <==> {
            &&& cleanup.retryable_cleanup == 0 && cleanup.durable_quarantine == 0
            &&& exists|i: int|
                0 <= i < cases@.len() && (#[trigger] cases@[i]).nonuniform_softmax_checked
            &&& forall|i: int|
                0 <= i < cases@.len() ==> {
                    &&& (#[trigger] cases@[i]).numerical_match
                    &&& cases@[i].causal_visibility_match
                    &&& cases@[i].gqa_mapping_match
                    &&& cases@[i].metadata_match
                    &&& cases@[i].hip_execution
                    &&& cases@[i].no_fallback
                    &&& cases@[i].bf16_to_fp16_to_f32_checked
                }
        },
{
    if verdict.pass {
        assert forall|i: int| 0 <= i < cases@.len() implies {
            &&& (#[trigger] cases@[i]).numerical_match
            &&& cases@[i].causal_visibility_match
            &&& cases@[i].gqa_mapping_match
            &&& cases@[i].metadata_match
            &&& cases@[i].hip_execution
            &&& cases@[i].no_fallback
            &&& cases@[i].bf16_to_fp16_to_f32_checked
        } by {
            assert(cases@[i].holds());
        }
    }
}

proof fn timed_cases_are_listed(ids: Seq<Seq<char>>, id: Seq<char>, from: int)
    requires
        0 <= from <= ids.len(),
    ensures
        match timed_by(ids, id, from) {
            Ok(true) => ids.contains(id),
            Ok(false) => forall|i: int|
                from <= i < ids.len() ==> #[trigger] ids[i] != id && is_case_id(ids[i]),
            Err(_) => exists|i: int| from <= i < ids.len() && !is_case_id(#[trigger] ids[i]),
        },
    decreases ids.len() - from,
{
    if from < ids.len() && is_case_id(ids[from]) && ids[from] != id {
        timed_cases_are_listed(ids, id, from + 1);
    }
}

/// A filter times the cases that it lists and no others; where it names no case or an unknown one nothing
/// is silently skipped. Without a filter the two short prefills are timed.
pub proof fn filters_time_what_they_list(case: Case, filter: Option<&str>, out: Result<bool, String>)
    requires
        call_ensures(benchmark_case, (case, filter), out),
    ensures
        filter is None ==> (out == Ok::<bool, String>(true) <==> case.id@ == "prefill-m128"@ || case.id@
            == "prefill-m219"@) && out is Ok,
        filter matches Some(text) ==> {
            let ids = listed_ids(text@);
            &&& out matches Ok(timed) ==> ids.len() > 0 && (timed <==> ids.contains(case.id@))
            &&& out is Err ==> ids.len() == 0 || exists|i: int|
                0 <= i < ids.len() && !is_case_id(#[trigger] ids[i])
        },
{
    if let Some(text) = filter {
        let ids = listed_ids(text@);
        timed_cases_are_listed(ids, case.id@, 0);
        if ids.len() > 0 && timed_by(ids, case.id@, 0) == Ok::<bool, Seq<char>>(false) {
            assert(!ids.contains(case.id@));
        }
    }
}

/// The flags of a case follow what was found of it, and its cache is seen exactly where it holds the
/// prefix and the rows; whether all rows were checked is told by their number.
pub proof fn flags_follow_what_was_found(
    case: Case,
    matches: bool,
    nonuniform_softmax: bool,
    roundtrip: bool,
    cache_length: Option<u64>,
    metadata_match: bool,
    no_fallback: bool,
    flags: Gqa6CaseFlags,
    rows: usize,
    scope: &'static str,
)
    requires
        call_ensures(
            gqa6_case_flags,
            (case, matches, nonuniform_softmax, roundtrip, cache_length, metadata_match, no_fallback),
            flags,
        ),
        call_ensures(gqa6_oracle_scope, (rows, case), scope),
    ensures
        flags.numerical_match == matches,
        flags.gqa_mapping_match == matches,
        flags.nonuniform_softmax_checked == nonuniform_softmax,
        flags.bf16_to_fp16_to_f32_checked == roundtrip,
        flags.metadata_match == metadata_match,
        flags.no_fallback == no_fallback,
        flags.causal_visibility_match <==> cache_length is Some && cache_length->Some_0
            == case.start_position + case.m,
        scope@[0] == 'a' <==> rows == case.m,
{
    reveal_strlit("all-rows-all-24-heads-scalar-v1");
    reveal_strlit("sampled-rows-all-24-heads-scalar-v1");
    assert("all-rows-all-24-heads-scalar-v1"@[0] == 'a');
    assert("sampled-rows-all-24-heads-scalar-v1"@[0] == 's');
}

} // verus!
