//! How a case of the causal attention evidence run is set up, and what the run's verdict is.
use crate::attention_cases::Case;
use crate::attention_inputs::{
    dimension_at, head_at, input_k_words, input_mixed_k_words, input_mixed_q_words,
    input_mixed_v_words, input_q_words,
    input_v_words, k_word, mixed_k_word, mixed_q_word, mixed_v_word, q_word, row_at, v_word,
};
use crate::attention_provider::{committed, HEAD_DIM, KV_HEADS, Q_HEADS};
use crate::audit::CleanupCounts;
use crate::number::{bf16_is_finite, bf16_is_infinite, bf16_is_nan};
use crate::text::{begins_with, contains, contains_text, joined, same_text, starts_with};
use vstd::arithmetic::div_mod::{
    lemma_fundamental_div_mod, lemma_fundamental_div_mod_converse, lemma_mod_multiples_basic,
};
use vstd::prelude::*;

verus! {

broadcast use vstd::string::group_string_axioms;

/// The runs before the timed ones.
pub const TIMING_WARMUPS: usize = 5;

/// The timed runs.
pub const TIMING_MEASURED: usize = 21;

/// The tokens that a case ends with.
pub fn committed_length(case: Case) -> (out: Result<u64, String>)
    ensures
        if committed(case) <= u64::MAX {
            out is Ok && out->Ok_0 == committed(case)
        } else {
            out is Err && out->Err_0@ == "case committed length overflow"@
        },
{
    match case.start_position.checked_add(case.m as u64) {
        Some(length) => Ok(length),
        None => Err("case committed length overflow".to_owned()),
    }
}

/// Whether a case runs on the mixed inputs.
pub open spec fn is_mixed(case: Case) -> bool {
    case.id@ == "decode-mixed-kv4097"@
}

/// The value word of a case that is about infinities and NaNs.
pub open spec fn special_value(id: Seq<char>, i: int, word: u16) -> u16 {
    let even = row_at(i, KV_HEADS as int) % 2 == 0;
    if contains_text(id, "value-nan-pos-inf"@) {
        if even {
            0x7fc1
        } else {
            0x7f80
        }
    } else if contains_text(id, "value-pos-neg-inf"@) {
        if even {
            0x7f80
        } else {
            0xff80
        }
    } else if contains_text(id, "value-pos-inf"@) {
        0x7f80
    } else {
        word
    }
}

/// The query word of a case that is about NaNs.
pub open spec fn special_query(id: Seq<char>, i: int, word: u16) -> u16 {
    if contains_text(id, "query-nan"@) && i % HEAD_DIM as int == 0 {
        0x7fc1
    } else {
        word
    }
}

/// The inputs of a case: the keys and values before it, and its own queries, keys and values.
#[derive(Debug)]
pub struct CaseInputs {
    pub prefix_key: Vec<u16>,
    pub prefix_value: Vec<u16>,
    pub key: Vec<u16>,
    pub value: Vec<u16>,
    pub query: Vec<u16>,
}

/// The words of the cache rows of some tokens.
pub open spec fn kv_words(tokens: int) -> nat {
    (tokens * (KV_HEADS * HEAD_DIM)) as nat
}

impl CaseInputs {
    /// The inputs of a case with a seed.
    pub open spec fn fit(self, case: Case, seed: nat) -> bool {
        let start = case.start_position as int;
        let mixed = is_mixed(case);
        &&& self.prefix_key@ == Seq::new(
            kv_words(start),
            |i: int|
                if mixed {
                    mixed_k_word(0, i)
                } else {
                    k_word(0, i)
                },
        )
        &&& self.prefix_value@ == Seq::new(
            kv_words(start),
            |i: int|
                if mixed {
                    mixed_v_word(0, i)
                } else {
                    v_word(seed + 1, i)
                },
        )
        &&& self.key@ == Seq::new(
            kv_words(case.m as int),
            |i: int|
                if mixed {
                    mixed_k_word(start, i)
                } else {
                    k_word(start, i)
                },
        )
        &&& self.value@ == Seq::new(
            kv_words(case.m as int),
            |i: int|
                special_value(
                    case.id@,
                    i,
                    if mixed {
                        mixed_v_word(start, i)
                    } else {
                        v_word(seed + 2, i)
                    },
                ),
        )
        &&& self.query@ == Seq::new(
            (case.m * (Q_HEADS * HEAD_DIM)) as nat,
            |i: int|
                special_query(
                    case.id@,
                    i,
                    if mixed {
                        mixed_q_word(i)
                    } else {
                        q_word(i)
                    },
                ),
        )
    }
}

fn special_values(id: &str, words: Vec<u16>) -> (out: Vec<u16>)
    ensures
        out@ == Seq::new(words@.len(), |i: int| special_value(id@, i, words@[i])),
{
    let nan_inf = contains(id, "value-nan-pos-inf");
    let signed_inf = contains(id, "value-pos-neg-inf");
    let inf = contains(id, "value-pos-inf");
    let ghost all = Seq::new(words@.len(), |i: int| special_value(id@, i, words@[i]));
    let mut out: Vec<u16> = Vec::new();
    for i in 0..words.len()
        invariant
            nan_inf == contains_text(id@, "value-nan-pos-inf"@),
            signed_inf == contains_text(id@, "value-pos-neg-inf"@),
            inf == contains_text(id@, "value-pos-inf"@),
            all == Seq::new(words@.len(), |i: int| special_value(id@, i, words@[i])),
            out@ == all.take(i as int),
    {
        let even = i / HEAD_DIM / KV_HEADS % 2 == 0;
        let word: u16 = if nan_inf {
            if even {
                0x7fc1
            } else {
                0x7f80
            }
        } else if signed_inf {
            if even {
                0x7f80
            } else {
                0xff80
            }
        } else if inf {
            0x7f80
        } else {
            words[i]
        };
        out.push(word);
        assert(all.take(i + 1) =~= all.take(i as int).push(all[i as int]));
    }
    assert(all.take(words.len() as int) =~= all);
    out
}

fn special_queries(id: &str, words: Vec<u16>) -> (out: Vec<u16>)
    ensures
        out@ == Seq::new(words@.len(), |i: int| special_query(id@, i, words@[i])),
{
    let nan = contains(id, "query-nan");
    let ghost all = Seq::new(words@.len(), |i: int| special_query(id@, i, words@[i]));
    let mut out: Vec<u16> = Vec::new();
    for i in 0..words.len()
        invariant
            nan == contains_text(id@, "query-nan"@),
            all == Seq::new(words@.len(), |i: int| special_query(id@, i, words@[i])),
            out@ == all.take(i as int),
    {
        out.push(if nan && i % HEAD_DIM == 0 { 0x7fc1 } else { words[i] });
        assert(all.take(i + 1) =~= all.take(i as int).push(all[i as int]));
    }
    assert(all.take(words.len() as int) =~= all);
    out
}

/// Makes the inputs of a case. The bounds are those of memory and of the position arithmetic.
pub fn case_inputs(case: Case, seed: u64) -> (out: CaseInputs)
    requires
        case.m <= 0x8_0000_0000,
        case.start_position <= 0x8_0000_0000,
        case.m * (Q_HEADS * HEAD_DIM) <= usize::MAX,
        case.start_position * (KV_HEADS * HEAD_DIM) <= usize::MAX,
        seed + 2 <= u64::MAX,
    ensures
        out.fit(case, seed as nat),
{
    let mixed = same_text(case.id, "decode-mixed-kv4097");
    proof {
        assert(KV_HEADS * HEAD_DIM == 1024 && Q_HEADS * HEAD_DIM == 4096) by (nonlinear_arith)
            requires
                KV_HEADS == 4,
                Q_HEADS == 16,
                HEAD_DIM == 256,
        ;
        assert(case.m * 1024 <= case.m * 4096 && case.start_position <= case.start_position * 1024);
    }
    let start: usize = case.start_position as usize;
    let prefix_key = if mixed {
        input_mixed_k_words(start, 0)
    } else {
        input_k_words(start, 0)
    };
    let prefix_value = if mixed {
        input_mixed_v_words(start, 0)
    } else {
        input_v_words(start, seed + 1)
    };
    let key = if mixed {
        input_mixed_k_words(case.m, case.start_position)
    } else {
        input_k_words(case.m, case.start_position)
    };
    let plain_value = if mixed {
        input_mixed_v_words(case.m, case.start_position)
    } else {
        input_v_words(case.m, seed + 2)
    };
    let plain_query = if mixed {
        input_mixed_q_words(case.m)
    } else {
        input_q_words(case.m)
    };
    let value = special_values(case.id, plain_value);
    let query = special_queries(case.id, plain_query);
    let out = CaseInputs { prefix_key, prefix_value, key, value, query };
    proof {
        let s = case.start_position as int;
        let m = is_mixed(case);
        assert(out.prefix_key@ =~= Seq::new(
            kv_words(s),
            |i: int|
                if m {
                    mixed_k_word(0, i)
                } else {
                    k_word(0, i)
                },
        ));
        assert(out.prefix_value@ =~= Seq::new(
            kv_words(s),
            |i: int|
                if m {
                    mixed_v_word(0, i)
                } else {
                    v_word((seed + 1) as nat, i)
                },
        ));
        assert(out.key@ =~= Seq::new(
            kv_words(case.m as int),
            |i: int|
                if m {
                    mixed_k_word(s, i)
                } else {
                    k_word(s, i)
                },
        ));
        assert(out.value@ =~= Seq::new(
            kv_words(case.m as int),
            |i: int|
                special_value(
                    case.id@,
                    i,
                    if m {
                        mixed_v_word(s, i)
                    } else {
                        v_word((seed + 2) as nat, i)
                    },
                ),
        ));
        assert(out.query@ =~= Seq::new(
            (case.m * (Q_HEADS * HEAD_DIM)) as nat,
            |i: int|
                special_query(
                    case.id@,
                    i,
                    if m {
                        mixed_q_word(i)
                    } else {
                        q_word(i)
                    },
                ),
        ));
    }
    out
}

/// How many tokens an append takes: it must take one at least, and as many values as keys.
pub fn append_token_count(key_words: usize, value_words: usize) -> (out: Result<usize, String>)
    ensures
        if key_words < KV_HEADS * HEAD_DIM || value_words != key_words {
            out is Err && out->Err_0@ == "malformed non-empty KV append input"@
        } else {
            out is Ok && out->Ok_0 == key_words / 1024
        },
{
    let token_count: usize = key_words / (KV_HEADS * HEAD_DIM);
    assert(KV_HEADS * HEAD_DIM == 1024);
    if token_count == 0 || value_words != key_words {
        Err("malformed non-empty KV append input".to_owned())
    } else {
        Ok(token_count)
    }
}

/// How a cache is laid out in memory.
#[derive(Clone, Copy, Debug, PartialEq, Eq, Structural)]
pub enum KvMemoryKind {
    VirtualContiguous,
    ContiguousResident,
}

impl KvMemoryKind {
    /// The layout's name.
    pub fn name(self) -> (out: &'static str)
        ensures
            out@ == match self {
                KvMemoryKind::VirtualContiguous => "virtual-contiguous"@,
                KvMemoryKind::ContiguousResident => "contiguous-resident"@,
            },
    {
        match self {
            KvMemoryKind::VirtualContiguous => "virtual-contiguous",
            KvMemoryKind::ContiguousResident => "contiguous-resident",
        }
    }
}

/// The bytes of a binary16 plane of a cache.
pub open spec fn fp16_plane(capacity: int) -> int {
    capacity * (KV_HEADS * HEAD_DIM * 2)
}

/// The bytes that a binary16 plane would hold.
pub fn fp16_logical_bytes(capacity: u64) -> (out: Result<u64, String>)
    ensures
        if fp16_plane(capacity as int) <= u64::MAX {
            out is Ok && out->Ok_0 == fp16_plane(capacity as int)
        } else {
            out is Err && out->Err_0@ == "FP16 KV logical resident-byte calculation overflowed"@
        },
{
    assert(KV_HEADS * HEAD_DIM * 2 == 2048);
    match capacity.checked_mul(2048) {
        Some(bytes) => Ok(bytes),
        None => Err("FP16 KV logical resident-byte calculation overflowed".to_owned()),
    }
}

/// The bytes that a binary16 plane would take in memory.
pub open spec fn fp16_committed(kind: KvMemoryKind, logical: int, page: int) -> int {
    match kind {
        KvMemoryKind::VirtualContiguous => (logical + page - 1) / page * page,
        KvMemoryKind::ContiguousResident => logical,
    }
}

/// The bytes that a binary16 plane would take in memory: whole pages, where it is mapped by pages.
pub fn fp16_committed_bytes(kind: KvMemoryKind, logical: u64, page: u64) -> (out: Result<
    u64,
    String,
>)
    requires
        page > 0,
    ensures
        if kind == KvMemoryKind::VirtualContiguous && logical + page - 1 > u64::MAX {
            out is Err && out->Err_0@ == "FP16 KV committed-byte calculation overflowed"@
        } else {
            out is Ok && out->Ok_0 == fp16_committed(kind, logical as int, page as int)
        },
{
    match kind {
        KvMemoryKind::ContiguousResident => Ok(logical),
        KvMemoryKind::VirtualContiguous => {
            match logical.checked_add(page - 1) {
                Some(sum) => {
                    let pages: u64 = sum / page;
                    assert(pages * page <= sum) by (nonlinear_arith)
                        requires
                            pages == sum / page,
                            page > 0,
                    ;
                    Ok(pages * page)
                },
                None => Err("FP16 KV committed-byte calculation overflowed".to_owned()),
            }
        },
    }
}

/// Committed pages cover the plane, and by less than a page too much.
pub proof fn committed_pages_cover_the_plane(logical: int, page: int)
    requires
        page > 0,
        logical >= 0,
    ensures
        logical <= fp16_committed(KvMemoryKind::VirtualContiguous, logical, page) < logical + page,
        fp16_committed(KvMemoryKind::VirtualContiguous, logical, page) % page == 0,
{
    let sum = logical + page - 1;
    let pages = sum / page;
    lemma_fundamental_div_mod(sum, page);
    lemma_mod_multiples_basic(pages, page);
    assert(page * pages == pages * page) by (nonlinear_arith);
}

/// Takes the time of a timed run, where it is past the warm-ups.
pub fn keep_sample(samples: &mut Vec<u64>, repetition: usize, elapsed: u64)
    ensures
        final(samples)@ == if repetition < TIMING_WARMUPS {
            old(samples)@
        } else {
            old(samples)@.push(elapsed)
        },
{
    if repetition >= TIMING_WARMUPS {
        samples.push(elapsed);
    }
}

/// The first five runs are warm-ups and leave no sample; every later one leaves its own behind those
/// before it.
pub proof fn warm_ups_leave_no_sample(samples: &mut Vec<u64>, repetition: usize, elapsed: u64)
    requires
        call_ensures(keep_sample, (samples, repetition, elapsed), ()),
    ensures
        repetition < 5 ==> final(samples)@ == old(samples)@,
        repetition >= 5 ==> final(samples)@ == old(samples)@.push(elapsed),
{
}

/// The keys before a case and its own keys make one stretch from the first position on, of the
/// plain or of the mixed inputs; its queries and values are those of the inputs of its kind.
pub proof fn cases_continue_their_prefix(
    case: Case,
    seed: u64,
    inputs: CaseInputs,
    keys: Vec<u16>,
    prefix_values: Vec<u16>,
)
    requires
        case.m <= 0x8_0000_0000,
        case.start_position <= 0x8_0000_0000,
        call_ensures(case_inputs, (case, seed), inputs),
        case.id@ != "decode-mixed-kv4097"@ ==> {
            &&& call_ensures(
                input_k_words,
                ((case.start_position + case.m) as usize, 0),
                keys,
            )
            &&& call_ensures(
                input_v_words,
                (case.start_position as usize, (seed + 1) as u64),
                prefix_values,
            )
        },
        case.id@ == "decode-mixed-kv4097"@ ==> {
            &&& call_ensures(
                input_mixed_k_words,
                ((case.start_position + case.m) as usize, 0),
                keys,
            )
            &&& call_ensures(
                input_mixed_v_words,
                (case.start_position as usize, 0),
                prefix_values,
            )
        },
        case.start_position + case.m <= usize::MAX,
        seed + 1 <= u64::MAX,
    ensures
        inputs.prefix_key@ + inputs.key@ == keys@,
        inputs.prefix_value@ == prefix_values@,
        inputs.key@.len() == case.m * 1024,
        inputs.value@.len() == case.m * 1024,
        inputs.query@.len() == case.m * 4096,
{
    let start = case.start_position as int;
    let m = case.m as int;
    assert(kv_words(start) == start * 1024 && kv_words(m) == m * 1024);
    let joined = inputs.prefix_key@ + inputs.key@;
    assert(joined.len() == keys@.len());
    assert forall|at: int| 0 <= at < joined.len() implies joined[at] == keys@[at] by {
        if at >= start * 1024 {
            later_tokens_keep_their_place(at - start * 1024, start);
        }
    }
    assert(joined =~= keys@);
    assert(inputs.prefix_value@ =~= prefix_values@);
}

proof fn later_tokens_keep_their_place(i: int, tokens: int)
    requires
        i >= 0,
        tokens >= 0,
    ensures
        row_at(i + tokens * 1024, 4) == tokens + row_at(i, 4),
        head_at(i + tokens * 1024, 4) == head_at(i, 4),
        dimension_at(i + tokens * 1024) == dimension_at(i),
{
    let line = i / 256;
    lemma_fundamental_div_mod(i, 256);
    lemma_fundamental_div_mod_converse(i + tokens * 1024, 256, line + tokens * 4, i % 256);
    lemma_fundamental_div_mod(line, 4);
    lemma_fundamental_div_mod_converse(line + tokens * 4, 4, line / 4 + tokens, line % 4);
}

/// A case about special values replaces just what its name says: a NaN in the first dimension of
/// every query head, or infinities and NaNs in its values, which alternate from token to token
/// where there are two of them. All other words are those of the plain case.
pub proof fn special_cases_replace_what_they_name(
    case: Case,
    seed: u64,
    inputs: CaseInputs,
    queries: Vec<u16>,
    values: Vec<u16>,
    at: int,
)
    requires
        case.id@ != "decode-mixed-kv4097"@,
        seed + 2 <= u64::MAX,
        call_ensures(case_inputs, (case, seed), inputs),
        call_ensures(input_q_words, (case.m,), queries),
        call_ensures(input_v_words, (case.m, (seed + 2) as u64), values),
    ensures
        0 <= at < case.m * 4096 ==> inputs.query@[at] == if contains_text(
            case.id@,
            "query-nan"@,
        ) && at % 256 == 0 {
            0x7fc1u16
        } else {
            queries@[at]
        },
        0 <= at < case.m * 1024 ==> {
            let even = at / 1024 % 2 == 0;
            let word = inputs.value@[at];
            let nan = contains_text(case.id@, "value-nan-pos-inf"@);
            let signed = contains_text(case.id@, "value-pos-neg-inf"@);
            let plain = contains_text(case.id@, "value-pos-inf"@);
            &&& nan ==> word == if even {
                0x7fc1u16
            } else {
                0x7f80
            }
            &&& signed && !nan ==> word == if even {
                0x7f80u16
            } else {
                0xff80
            }
            &&& plain && !nan && !signed ==> word == 0x7f80u16
            &&& !plain && !nan && !signed ==> word == values@[at]
        },
{
    assert(KV_HEADS * HEAD_DIM == 1024 && Q_HEADS * HEAD_DIM == 4096);
    assert(at >= 0 ==> at / 256 / 4 == at / 1024);
}

/// The device time of an attention; `label` stands before it in messages.
pub fn check_elapsed(label: &str, elapsed: Option<u64>) -> (out: Result<u64, String>)
    ensures
        match elapsed {
            None => out is Err && out->Err_0@ == label@ + " omitted device timing"@,
            Some(0) => out is Err && out->Err_0@ == label@ + " returned zero device time"@,
            Some(time) => out is Ok && out->Ok_0 == time,
        },
{
    match elapsed {
        None => Err(joined(label, " omitted device timing")),
        Some(time) => if time == 0 {
            Err(joined(label, " returned zero device time"))
        } else {
            Ok(time)
        },
    }
}

/// The message that refuses the inputs of an oracle, if there is one.
pub open spec fn oracle_refusal(
    query_words: nat,
    key_words: nat,
    value_words: nat,
    m: nat,
    start_position: nat,
) -> Option<Seq<char>> {
    if start_position + m > u64::MAX {
        Some("oracle position overflow"@)
    } else if query_words != m * 4096 || key_words != (start_position + m) * 1024 || value_words
        != key_words {
        Some("oracle input lengths do not match the fixed contract"@)
    } else {
        None
    }
}

/// Refuses inputs of an oracle that do not have a query row for each row and a cache row for each
/// position.
pub fn check_oracle_inputs(
    query_words: usize,
    key_words: usize,
    value_words: usize,
    m: usize,
    start_position: u64,
) -> (out: Result<(), String>)
    ensures
        match oracle_refusal(
            query_words as nat,
            key_words as nat,
            value_words as nat,
            m as nat,
            start_position as nat,
        ) {
            Some(message) => out is Err && out->Err_0@ == message,
            None => out is Ok,
        },
{
    match start_position.checked_add(m as u64) {
        None => Err("oracle position overflow".to_owned()),
        Some(length) => {
            let fits = match m.checked_mul(4096) {
                None => false,
                Some(queries) => match length.checked_mul(1024) {
                    None => false,
                    Some(keys) => query_words == queries && key_words as u64 == keys && value_words
                        == key_words,
                },
            };
            if fits {
                Ok(())
            } else {
                Err("oracle input lengths do not match the fixed contract".to_owned())
            }
        },
    }
}

/// Where a sampled row of a prefill stands: its query words and the cache words that it sees.
#[derive(Clone, Copy, Debug, PartialEq, Eq, Structural)]
pub struct SampledRow {
    pub query_start: usize,
    pub query_end: usize,
    pub committed_words: usize,
}

/// The message that refuses a sampled row, if there is one.
pub open spec fn sampled_refusal(
    row: nat,
    start_position: nat,
    query_words: nat,
    key_words: nat,
    value_words: nat,
) -> Option<Seq<char>> {
    let committed_words = (start_position + row + 1) * 1024;
    if row * 4096 > usize::MAX {
        Some("sampled oracle query offset overflowed"@)
    } else if row * 4096 + 4096 > usize::MAX {
        Some("sampled oracle query end overflowed"@)
    } else if row * 4096 + 4096 > query_words {
        Some("sampled oracle query row was out of bounds"@)
    } else if committed_words > u64::MAX {
        Some("sampled oracle KV offset overflowed"@)
    } else if committed_words > key_words {
        Some("sampled oracle key prefix was out of bounds"@)
    } else if committed_words > value_words {
        Some("sampled oracle value prefix was out of bounds"@)
    } else {
        None
    }
}

/// Finds a sampled row of a prefill.
pub fn sampled_row(
    row: usize,
    start_position: u64,
    query_words: usize,
    key_words: usize,
    value_words: usize,
) -> (out: Result<SampledRow, String>)
    requires
        start_position + row + 1 <= u64::MAX,
    ensures
        match sampled_refusal(
            row as nat,
            start_position as nat,
            query_words as nat,
            key_words as nat,
            value_words as nat,
        ) {
            Some(message) => out is Err && out->Err_0@ == message,
            None => {
                &&& out is Ok
                &&& out->Ok_0.query_start == row * 4096
                &&& out->Ok_0.query_end == row * 4096 + 4096
                &&& out->Ok_0.committed_words == (start_position + row + 1) * 1024
            },
        },
{
    let query_start: usize = match row.checked_mul(4096) {
        Some(start) => start,
        None => {
            return Err("sampled oracle query offset overflowed".to_owned());
        },
    };
    let query_end: usize = match query_start.checked_add(4096) {
        Some(end) => end,
        None => {
            return Err("sampled oracle query end overflowed".to_owned());
        },
    };
    if query_end > query_words {
        return Err("sampled oracle query row was out of bounds".to_owned());
    }
    let words: u64 = match (start_position + row as u64 + 1).checked_mul(1024) {
        Some(words) => words,
        None => {
            return Err("sampled oracle KV offset overflowed".to_owned());
        },
    };
    if words > key_words as u64 {
        return Err("sampled oracle key prefix was out of bounds".to_owned());
    }
    if words > value_words as u64 {
        return Err("sampled oracle value prefix was out of bounds".to_owned());
    }
    Ok(SampledRow { query_start, query_end, committed_words: words as usize })
}

/// Every row of inputs that fit an oracle can be sampled. Its query words are its own, and it sees
/// the cache up to its own position: the last row sees all of it, each row one token more than the
/// row before.
pub proof fn sampled_rows_see_up_to_themselves(
    row: usize,
    m: usize,
    start_position: u64,
    query_words: usize,
    key_words: usize,
    value_words: usize,
    out: Result<SampledRow, String>,
)
    requires
        call_ensures(
            check_oracle_inputs,
            (query_words, key_words, value_words, m, start_position),
            Ok(()),
        ),
        call_ensures(sampled_row, (row, start_position, query_words, key_words, value_words), out),
        row < m,
    ensures
        key_words == value_words,
        out matches Ok(place) && {
            &&& place.query_start == row * 4096
            &&& place.query_end - place.query_start == 4096
            &&& key_words - place.committed_words == (m - 1 - row) * 1024
            &&& row == m - 1 ==> place.query_end == query_words
        },
{
}

/// Inputs fit an oracle just where there are sixteen query heads for each row, and four heads of
/// keys and of values for each position up to the last row.
pub proof fn oracles_take_whole_rows(
    m: usize,
    start_position: u64,
    query_words: usize,
    key_words: usize,
    value_words: usize,
    out: Result<(), String>,
)
    requires
        call_ensures(
            check_oracle_inputs,
            (query_words, key_words, value_words, m, start_position),
            out,
        ),
    ensures
        out is Ok <==> start_position + m <= u64::MAX && query_words == 4096 * m && key_words
            == 1024 * (start_position + m) && value_words == 1024 * (start_position + m),
{
}

/// How an observed word is held against a reference word.
#[derive(Clone, Copy, Debug, PartialEq, Eq, Structural)]
pub enum WordCheck {
    Decided(bool),
    ByTolerance,
}

/// A NaN must be met by a NaN and an infinity by itself; a finite value is met by a finite one
/// within the tolerance of the encoding.
pub open spec fn word_check(observed: u16, reference: u16) -> WordCheck {
    if bf16_is_nan(reference) {
        WordCheck::Decided(bf16_is_nan(observed))
    } else if bf16_is_infinite(reference) {
        WordCheck::Decided(observed == reference)
    } else if !bf16_is_finite(observed) {
        WordCheck::Decided(false)
    } else {
        WordCheck::ByTolerance
    }
}

/// How an observed word is held against a reference word.
pub fn check_word(observed: u16, reference: u16) -> (out: WordCheck)
    ensures
        out == word_check(observed, reference),
{
    let magnitude: u16 = reference % 0x8000;
    let seen: u16 = observed % 0x8000;
    if magnitude > 0x7f80 {
        WordCheck::Decided(seen > 0x7f80)
    } else if magnitude == 0x7f80 {
        WordCheck::Decided(observed == reference)
    } else if seen >= 0x7f80 {
        WordCheck::Decided(false)
    } else {
        WordCheck::ByTolerance
    }
}

/// A pair of words is left to the tolerance just where both are finite. Else it is accepted just
/// where both are NaN or both the same infinity.
pub proof fn tolerance_is_for_finite_words(observed: u16, reference: u16, out: WordCheck)
    requires
        call_ensures(check_word, (observed, reference), out),
    ensures
        ({
            let finite = |word: u16| word % 0x8000 < 0x7f80;
            let nan = |word: u16| word % 0x8000 > 0x7f80;
            &&& out == WordCheck::ByTolerance <==> finite(observed) && finite(reference)
            &&& out == WordCheck::Decided(true) <==> nan(observed) && nan(reference)
                || !finite(reference) && !nan(reference) && observed == reference
        }),
{
}

/// What a case showed.
#[derive(Clone, Copy, Debug)]
pub struct CaseFlags {
    pub id: &'static str,
    pub numerical_match: bool,
    pub nonuniform_softmax_checked: bool,
    pub subnormal_score_contribution_checked: bool,
    pub causal_visibility_match: bool,
    pub gqa_mapping_match: bool,
    pub sampled_rows_causal_visibility_match: bool,
    pub sampled_rows_gqa_mapping_match: bool,
    pub metadata_match: bool,
    pub no_fallback: bool,
}

/// The rows from which on a case of the operator run is compared on sampled rows only.
pub const SAMPLED_ROWS_FROM: usize = 1_024;

/// Whether a case is compared on sampled rows only.
pub open spec fn is_sampled(operator_run: bool, case: Case) -> bool {
    operator_run && case.m >= SAMPLED_ROWS_FROM
}

/// Whether a case is compared on sampled rows only.
pub fn uses_sampled_oracle(operator_run: bool, case: Case) -> (out: bool)
    ensures
        out == is_sampled(operator_run, case),
{
    operator_run && case.m >= SAMPLED_ROWS_FROM
}

/// The name of what a case is compared with.
pub fn oracle_scope(sampled: bool) -> (out: &'static str)
    ensures
        out@ == if sampled {
            "sampled-rows-scalar-v1"@
        } else {
            "full-scalar-v1"@
        },
{
    if sampled {
        "sampled-rows-scalar-v1"
    } else {
        "full-scalar-v1"
    }
}

/// What the comparison of an output with its oracle found.
#[derive(Clone, Copy, Debug, PartialEq, Eq, Structural)]
pub struct OracleMatch {
    pub matches: bool,
    pub nonuniform_softmax: bool,
    pub subnormal_score_contribution: bool,
}

impl OracleMatch {
    /// What a comparison on sampled rows starts from.
    pub fn start() -> (out: OracleMatch)
        ensures
            out.matches,
            !out.nonuniform_softmax,
            out.subnormal_score_contribution,
    {
        OracleMatch { matches: true, nonuniform_softmax: false, subnormal_score_contribution: true }
    }

    /// Takes in one more row: every row must match and show the contribution of a subnormal score,
    /// and one must show a softmax that is not uniform.
    pub fn with_row(self, row: OracleMatch) -> (out: OracleMatch)
        ensures
            out.matches == (self.matches && row.matches),
            out.nonuniform_softmax == (self.nonuniform_softmax || row.nonuniform_softmax),
            out.subnormal_score_contribution == (self.subnormal_score_contribution
                && row.subnormal_score_contribution),
    {
        OracleMatch {
            matches: self.matches && row.matches,
            nonuniform_softmax: self.nonuniform_softmax || row.nonuniform_softmax,
            subnormal_score_contribution: self.subnormal_score_contribution
                && row.subnormal_score_contribution,
        }
    }
}

/// What a case showed: the heads map as they should where the output matches, and nothing is seen
/// that should not be where the cache holds just the tokens of the case. Sampled rows count only
/// where the case is compared on them.
pub fn case_flags(
    case: Case,
    sampled: bool,
    found: OracleMatch,
    cache_length: u64,
    metadata_match: bool,
    no_fallback: bool,
) -> (out: CaseFlags)
    ensures
        out.id == case.id,
        out.numerical_match == found.matches,
        out.nonuniform_softmax_checked == found.nonuniform_softmax,
        out.subnormal_score_contribution_checked == found.subnormal_score_contribution,
        out.causal_visibility_match == (cache_length == committed(case)),
        out.gqa_mapping_match == found.matches,
        out.sampled_rows_causal_visibility_match,
        out.sampled_rows_gqa_mapping_match == (sampled ==> found.matches),
        out.metadata_match == metadata_match,
        out.no_fallback == no_fallback,
{
    CaseFlags {
        id: case.id,
        numerical_match: found.matches,
        nonuniform_softmax_checked: found.nonuniform_softmax,
        subnormal_score_contribution_checked: found.subnormal_score_contribution,
        causal_visibility_match: case.start_position.checked_add(case.m as u64) == Some(
            cache_length,
        ),
        gqa_mapping_match: found.matches,
        sampled_rows_causal_visibility_match: true,
        sampled_rows_gqa_mapping_match: !sampled || found.matches,
        metadata_match,
        no_fallback,
    }
}

impl CaseFlags {
    /// Whether the case passed.
    pub open spec fn holds(self) -> bool {
        &&& self.numerical_match
        &&& self.causal_visibility_match
        &&& self.gqa_mapping_match
        &&& self.sampled_rows_causal_visibility_match
        &&& self.sampled_rows_gqa_mapping_match
        &&& self.metadata_match
        &&& self.no_fallback
    }
}

/// What the cases of a run showed of its oracle.
#[derive(Clone, Copy, Debug, PartialEq, Eq, Structural)]
pub struct OracleEvidence {
    pub scalar_ordered_dot_softmax_v: bool,
    pub fp16_subnormal_affects_score: bool,
    pub final_bf16_rne_checked: bool,
    pub gqa_heads_checked: bool,
}

impl OracleEvidence {
    /// What a list of cases shows.
    pub open spec fn reads(self, cases: Seq<CaseFlags>) -> bool {
        &&& self.scalar_ordered_dot_softmax_v == exists|i: int|
            0 <= i < cases.len() && (#[trigger] cases[i]).nonuniform_softmax_checked
                && cases[i].numerical_match
        &&& self.fp16_subnormal_affects_score == forall|i: int|
            0 <= i < cases.len() && !begins_with((#[trigger] cases[i]).id@, "special-"@)
                ==> cases[i].subnormal_score_contribution_checked
        &&& self.final_bf16_rne_checked == forall|i: int|
            0 <= i < cases.len() ==> (#[trigger] cases[i]).numerical_match
        &&& self.gqa_heads_checked == forall|i: int|
            0 <= i < cases.len() ==> (#[trigger] cases[i]).gqa_mapping_match
    }
}

/// The verdict on a run that ran all its cases.
#[derive(Clone, Copy, Debug, PartialEq, Eq, Structural)]
pub struct RunVerdict {
    pub oracle: OracleEvidence,
    pub pass: bool,
}

/// Whether every case passed.
pub open spec fn all_hold(cases: Seq<CaseFlags>) -> bool {
    forall|i: int| 0 <= i < cases.len() ==> (#[trigger] cases[i]).holds()
}

/// Judges a run that ran all its cases: each case must pass, the oracle must have been put to the
/// test, and the session must have released everything.
pub fn judge_run(cases: &Vec<CaseFlags>, cleanup: &CleanupCounts) -> (out: RunVerdict)
    ensures
        out.oracle.reads(cases@),
        out.pass == (all_hold(cases@) && out.oracle.scalar_ordered_dot_softmax_v
            && out.oracle.fp16_subnormal_affects_score && out.oracle.final_bf16_rne_checked
            && out.oracle.gqa_heads_checked && cleanup.is_zero()),
{
    let mut nonuniform = false;
    let mut subnormal = true;
    let mut numerical = true;
    let mut gqa = true;
    let mut all = true;
    for i in 0..cases.len()
        invariant
            nonuniform == exists|j: int|
                0 <= j < i && (#[trigger] cases@[j]).nonuniform_softmax_checked
                    && cases@[j].numerical_match,
            subnormal == forall|j: int|
                0 <= j < i && !begins_with((#[trigger] cases@[j]).id@, "special-"@)
                    ==> cases@[j].subnormal_score_contribution_checked,
            numerical == forall|j: int| 0 <= j < i ==> (#[trigger] cases@[j]).numerical_match,
            gqa == forall|j: int| 0 <= j < i ==> (#[trigger] cases@[j]).gqa_mapping_match,
            all == forall|j: int| 0 <= j < i ==> (#[trigger] cases@[j]).holds(),
    {
        let case = cases[i];
        assert(case == cases@[i as int]);
        nonuniform = nonuniform || (case.nonuniform_softmax_checked && case.numerical_match);
        subnormal = subnormal && (starts_with(case.id, "special-")
            || case.subnormal_score_contribution_checked);
        numerical = numerical && case.numerical_match;
        gqa = gqa && case.gqa_mapping_match;
        all = all && case.numerical_match && case.causal_visibility_match && case.gqa_mapping_match
            && case.sampled_rows_causal_visibility_match && case.sampled_rows_gqa_mapping_match
            && case.metadata_match && case.no_fallback;
    }
    let oracle = OracleEvidence {
        scalar_ordered_dot_softmax_v: nonuniform,
        fp16_subnormal_affects_score: subnormal,
        final_bf16_rne_checked: numerical,
        gqa_heads_checked: gqa,
    };
    RunVerdict {
        oracle,
        pass: all && nonuniform && subnormal && numerical && gqa && cleanup.terminal_zero(),
    }
}

/// A run passes just where it released everything, some case that matched had a softmax that is not
/// uniform, every case matched, and every case that is not about special values had a score that a
/// subnormal adds to.
pub proof fn one_failed_case_fails_the_run(
    cases: &Vec<CaseFlags>,
    cleanup: &CleanupCounts,
    verdict: RunVerdict,
)
    requires
        call_ensures(judge_run, (cases, cleanup), verdict),
    ensures
        verdict.pass <==> {
            &&& cleanup.retryable_cleanup == 0 && cleanup.durable_quarantine == 0
            &&& exists|i: int|
                0 <= i < cases@.len() && (#[trigger] cases@[i]).nonuniform_softmax_checked
            &&& forall|i: int|
                0 <= i < cases@.len() ==> {
                    &&& (#[trigger] cases@[i]).numerical_match
                    &&& cases@[i].causal_visibility_match
                    &&& cases@[i].gqa_mapping_match
                    &&& cases@[i].sampled_rows_causal_visibility_match
                    &&& cases@[i].sampled_rows_gqa_mapping_match
                    &&& cases@[i].metadata_match
                    &&& cases@[i].no_fallback
                    &&& begins_with(cases@[i].id@, "special-"@)
                        || cases@[i].subnormal_score_contribution_checked
                }
        },
{
    if verdict.pass {
        assert forall|i: int| 0 <= i < cases@.len() implies {
            &&& (#[trigger] cases@[i]).numerical_match
            &&& cases@[i].causal_visibility_match
            &&& cases@[i].gqa_mapping_match
            &&& cases@[i].sampled_rows_causal_visibility_match
            &&& cases@[i].sampled_rows_gqa_mapping_match
            &&& cases@[i].metadata_match
            &&& cases@[i].no_fallback
            &&& begins_with(cases@[i].id@, "special-"@)
                || cases@[i].subnormal_score_contribution_checked
        } by {
            assert(cases@[i].holds());
        }
    } else {
        assert(!(verdict.oracle.scalar_ordered_dot_softmax_v
            && verdict.oracle.fp16_subnormal_affects_score && verdict.oracle.final_bf16_rne_checked
            && verdict.oracle.gqa_heads_checked && cleanup.is_zero() && all_hold(cases@)));
    }
}

/// How far a run came.
#[derive(Clone, Copy, Debug, PartialEq, Eq, Structural)]
pub enum RunEnd {
    /// No device, or a session that could not be closed.
    Unavailable,
    /// A case that could not be run.
    Failed,
    /// All cases, which passed or not.
    Complete(bool),
}

/// The state that a report carries.
pub fn run_state(end: RunEnd) -> (out: &'static str)
    ensures
        out@ == match end {
            RunEnd::Unavailable => "UNAVAILABLE"@,
            RunEnd::Failed => "FAIL"@,
            RunEnd::Complete(true) => "PASS"@,
            RunEnd::Complete(false) => "INCOMPLETE"@,
        },
{
    match end {
        RunEnd::Unavailable => "UNAVAILABLE",
        RunEnd::Failed => "FAIL",
        RunEnd::Complete(pass) => if pass {
            "PASS"
        } else {
            "INCOMPLETE"
        },
    }
}

/// What is committed for a plane covers it with whole pages where memory is mapped by the page, and
/// with less than a page to spare; resident memory is committed as it is.
pub proof fn committed_bytes_are_whole_pages(
    kind: KvMemoryKind,
    logical: u64,
    page: u64,
    bytes: u64,
)
    requires
        page > 0,
        call_ensures(fp16_committed_bytes, (kind, logical, page), Ok(bytes)),
    ensures
        kind == KvMemoryKind::ContiguousResident ==> bytes == logical,
        kind == KvMemoryKind::VirtualContiguous ==> logical <= bytes < logical + page && bytes % page
            == 0,
{
    if kind == KvMemoryKind::VirtualContiguous {
        let pages = (logical + page - 1) / (page as int);
        vstd::arithmetic::div_mod::lemma_fundamental_div_mod(logical + page - 1, page as int);
        vstd::arithmetic::mul::lemma_mul_is_commutative(pages, page as int);
        vstd::arithmetic::div_mod::lemma_mod_multiples_basic(pages, page as int);
    }
}

/// A plane of a cache holds two bytes for each of the 256 values of its four heads at every position.
pub proof fn planes_hold_every_position(capacity: u64, next: u64, bytes: u64, next_bytes: u64)
    requires
        call_ensures(fp16_logical_bytes, (capacity,), Ok(bytes)),
        call_ensures(fp16_logical_bytes, (next,), Ok(next_bytes)),
        next == capacity + 1,
    ensures
        next_bytes == bytes + 2048,
        capacity == 0 ==> bytes == 0,
{
    assert(KV_HEADS * HEAD_DIM * 2 == 2048) by (nonlinear_arith);
    assert(fp16_plane(capacity as int) == capacity * 2048);
    assert(fp16_plane(next as int) == next * 2048);
}

/// Appended words are a key and a value of 1024 words for each token: as many tokens as whole keys.
pub proof fn appended_tokens_are_counted(key_words: usize, value_words: usize, out: Result<usize, String>)
    requires
        call_ensures(append_token_count, (key_words, value_words), out),
    ensures
        out is Ok <==> key_words == value_words && key_words >= 1024,
        out matches Ok(tokens) ==> tokens >= 1 && tokens * 1024 <= key_words < tokens * 1024 + 1024,
{
}

/// The positions behind a case are those of its prefix and its rows; the rows are sampled in operator
/// runs alone.
pub proof fn rows_stand_behind_their_prefix(case: Case, length: u64, sampled: bool, whole: bool)
    requires
        call_ensures(committed_length, (case,), Ok(length)),
        call_ensures(uses_sampled_oracle, (true, case), sampled),
        call_ensures(uses_sampled_oracle, (false, case), whole),
    ensures
        length == case.start_position + case.m,
        !whole,
        sampled <==> case.m >= 1024,
{
}

/// A row of an oracle never mends another: all rows must match, and one row shows that the softmax is
/// not uniform.
pub proof fn rows_are_taken_together(a: OracleMatch, b: OracleMatch, both: OracleMatch, swapped: OracleMatch)
    requires
        call_ensures(OracleMatch::with_row, (a, b), both),
        call_ensures(OracleMatch::with_row, (b, a), swapped),
    ensures
        both == swapped,
        both.matches ==> a.matches && b.matches,
        a.matches && b.matches ==> both.matches,
        !both.nonuniform_softmax <==> !a.nonuniform_softmax && !b.nonuniform_softmax,
        both.subnormal_score_contribution ==> a.subnormal_score_contribution
            && b.subnormal_score_contribution,
{
}

/// A device time is taken as it was measured, and only where it was measured at all.
pub proof fn only_measured_times_are_taken(label: &str, elapsed: Option<u64>, out: Result<u64, String>)
    requires
        call_ensures(check_elapsed, (label, elapsed), out),
    ensures
        out is Ok <==> elapsed is Some && elapsed->Some_0 > 0,
        out matches Ok(time) ==> elapsed == Some(time),
{
}

/// The flags of a case follow its oracle and the length of its cache; rows that were not sampled have
/// nothing to fail.
pub proof fn flags_follow_the_oracle(
    case: Case,
    sampled: bool,
    found: OracleMatch,
    cache_length: u64,
    metadata_match: bool,
    no_fallback: bool,
    flags: CaseFlags,
)
    requires
        call_ensures(
            case_flags,
            (case, sampled, found, cache_length, metadata_match, no_fallback),
            flags,
        ),
    ensures
        flags.numerical_match <==> found.matches,
        flags.gqa_mapping_match <==> found.matches,
        flags.causal_visibility_match <==> cache_length == case.start_position + case.m,
        flags.sampled_rows_gqa_mapping_match <==> !sampled || found.matches,
        flags.nonuniform_softmax_checked <==> found.nonuniform_softmax,
        flags.metadata_match <==> metadata_match,
        flags.no_fallback <==> no_fallback,
{
}

} // verus!
