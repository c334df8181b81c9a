//! The frozen prefixes of a catch-up run: what a manifest must provide, how each of its
//! conditions is checked, and how existing prefixes and conditions are merged.
use crate::bytes::same_items;
use crate::catch_up::{bare_digest, canonical_sequence_hash, canonical_text, digest_matches};
use crate::digest::{digest, digest_of};
use crate::json::{
    field, field_opt, get_in, i32_of, json_document, list_in, list_of, parse_json, text_in, text_of,
    unsigned_in, unsigned_of, Json,
};
use crate::text::{
    decimal, decimal_string, is_before, joined, joined3, same_text, text_before, text_opt,
    text_order_is_total, text_order_is_transitive, texts,
};
use vstd::prelude::*;
use vstd::string::StringExecFns;

verus! {

broadcast use vstd::string::group_string_axioms;

/// The number of conditions that a manifest must provide.
pub const TIER_A_COUNT: usize = 26;

/// What a condition of a manifest says, each part where it is there and of the right kind.
#[derive(Debug)]
pub struct Condition {
    pub tier: Option<String>,
    pub cond_id: Option<String>,
    pub prompt_file: Option<String>,
    pub sequence_file: Option<String>,
    pub prompt_sha256: Option<String>,
    pub prompt_tokens_rendered: Option<u64>,
    pub sequence_sha256: Option<String>,
    pub committed_token_count: Option<u64>,
    pub committed_token_sha256: Option<String>,
}

/// The reference sequence of a condition.
pub open spec fn bf16_reference(condition: Json) -> Option<Json> {
    field_opt(field(condition, "reference_sequences"@), "bf16"@)
}

impl Condition {
    /// The parts of a condition.
    pub open spec fn describes(self, condition: Json) -> bool {
        let reference = bf16_reference(condition);
        &&& text_opt(self.tier) == text_of(field(condition, "tier"@))
        &&& text_opt(self.cond_id) == text_of(field(condition, "cond_id"@))
        &&& text_opt(self.prompt_file) == text_of(field(condition, "prompt_file"@))
        &&& text_opt(self.sequence_file) == text_of(field_opt(reference, "sequence_file"@))
        &&& text_opt(self.prompt_sha256) == text_of(field(condition, "prompt_sha256"@))
        &&& self.prompt_tokens_rendered == unsigned_of(field(condition, "prompt_tokens_rendered"@))
        &&& text_opt(self.sequence_sha256) == text_of(field_opt(reference, "sequence_sha256"@))
        &&& self.committed_token_count == unsigned_of(
            field_opt(reference, "committed_token_count"@),
        )
        &&& text_opt(self.committed_token_sha256) == text_of(
            field_opt(reference, "committed_token_sha256"@),
        )
    }

    /// Whether the condition belongs to tier A.
    pub open spec fn in_tier_a(self) -> bool {
        text_opt(self.tier) == Some("A"@)
    }

    /// Whether the condition belongs to tier A.
    pub fn is_tier_a(&self) -> (out: bool)
        ensures
            out == self.in_tier_a(),
    {
        match &self.tier {
            Some(tier) => same_text(tier.as_str(), "A"),
            None => false,
        }
    }
}

/// Reads the parts of a condition.
pub fn read_condition(condition: &Json) -> (out: Condition)
    ensures
        out.describes(*condition),
{
    let reference = get_in(condition.get("reference_sequences"), "bf16");
    Condition {
        tier: text_in(condition.get("tier")),
        cond_id: text_in(condition.get("cond_id")),
        prompt_file: text_in(condition.get("prompt_file")),
        sequence_file: text_in(get_in(reference, "sequence_file")),
        prompt_sha256: text_in(condition.get("prompt_sha256")),
        prompt_tokens_rendered: unsigned_in(condition.get("prompt_tokens_rendered")),
        sequence_sha256: text_in(get_in(reference, "sequence_sha256")),
        committed_token_count: unsigned_in(get_in(reference, "committed_token_count")),
        committed_token_sha256: text_in(get_in(reference, "committed_token_sha256")),
    }
}

/// Whether the identifiers stand in order, each once.
pub open spec fn ids_sorted(ids: Seq<Seq<char>>) -> bool {
    forall|i: int, j: int| 0 <= i < j < ids.len() ==> text_before(#[trigger] ids[i], #[trigger] ids[j])
}

/// A set of identifiers in their order.
#[derive(Debug)]
pub struct IdSet {
    pub ids: Vec<String>,
}

impl IdSet {
    /// The identifiers stand in order, each once.
    pub open spec fn wf(self) -> bool {
        ids_sorted(texts(self.ids@))
    }

    /// The identifiers of the set.
    pub open spec fn members(self) -> Set<Seq<char>> {
        texts(self.ids@).to_set()
    }

    /// Whether the set holds an identifier.
    pub fn contains(&self, id: &str) -> (out: bool)
        ensures
            out == self.members().contains(id@),
    {
        for i in 0..self.ids.len()
            invariant
                forall|j: int| 0 <= j < i ==> (#[trigger] self.ids@[j])@ != id@,
        {
            if same_text(self.ids[i].as_str(), id) {
                assert(texts(self.ids@)[i as int] == id@);
                return true;
            }
        }
        assert(!texts(self.ids@).contains(id@)) by {
            assert forall|j: int| 0 <= j < texts(self.ids@).len() implies texts(self.ids@)[j]
                != id@ by {
                assert(self.ids@[j]@ != id@);
            }
        }
        false
    }

    /// Adds an identifier.
    pub fn add(&mut self, id: String)
        requires
            old(self).wf(),
        ensures
            final(self).wf(),
            final(self).members() == old(self).members().insert(id@),
    {
        let ghost before = texts(self.ids@);
        let mut at: usize = 0;
        while at < self.ids.len() && is_before(self.ids[at].as_str(), id.as_str())
            invariant
                at <= self.ids@.len(),
                before == texts(self.ids@),
                forall|j: int| 0 <= j < at ==> text_before(#[trigger] before[j], id@),
            decreases self.ids@.len() - at,
        {
            at = at + 1;
        }
        if at < self.ids.len() && same_text(self.ids[at].as_str(), id.as_str()) {
            proof {
                assert(before[at as int] == id@);
                assert(before.to_set() =~= before.to_set().insert(id@));
            }
            return;
        }
        let ghost new_id = id@;
        self.ids.insert(at, id);
        proof {
            let after = texts(self.ids@);
            assert(after =~= before.insert(at as int, new_id));
            insert_keeps_order(before, at as int, new_id);
            assert(after.to_set() =~= before.to_set().insert(new_id)) by {
                assert forall|x: Seq<char>| after.to_set().contains(x)
                    == before.to_set().insert(new_id).contains(x) by {
                    if after.contains(x) {
                        let k = choose|k: int| 0 <= k < after.len() && after[k] == x;
                        if k < at {
                            assert(before[k] == x);
                        } else if k > at {
                            assert(before[k - 1] == x);
                        }
                    }
                    if before.contains(x) {
                        let k = choose|k: int| 0 <= k < before.len() && before[k] == x;
                        if k < at {
                            assert(after[k] == x);
                        } else {
                            assert(after[k + 1] == x);
                        }
                    }
                    assert(after[at as int] == new_id);
                }
            }
        }
    }
}

proof fn insert_keeps_order(ids: Seq<Seq<char>>, at: int, id: Seq<char>)
    requires
        ids_sorted(ids),
        0 <= at <= ids.len(),
        forall|j: int| 0 <= j < at ==> text_before(#[trigger] ids[j], id),
        at < ids.len() ==> !text_before(ids[at], id) && ids[at] != id,
    ensures
        ids_sorted(ids.insert(at, id)),
{
    let after = ids.insert(at, id);
    assert forall|i: int, j: int| 0 <= i < j < after.len() implies text_before(
        #[trigger] after[i],
        #[trigger] after[j],
    ) by {
        if at < ids.len() {
            text_order_is_total(ids[at], id);
        }
        if i == at {
            if j - 1 > at {
                text_order_is_transitive(id, ids[at], ids[j - 1]);
            }
        } else if j == at {
            assert(after[i] == ids[i]);
        } else {
            let x = if i < at {
                i
            } else {
                i - 1
            };
            let y = if j < at {
                j
            } else {
                j - 1
            };
            assert(after[i] == ids[x] && after[j] == ids[y]);
        }
    }
}

proof fn sorted_ids_are_distinct(ids: Seq<Seq<char>>)
    requires
        ids_sorted(ids),
    ensures
        ids.no_duplicates(),
        ids.to_set().len() == ids.len(),
{
    assert forall|i: int, j: int| 0 <= i < ids.len() && 0 <= j < ids.len() && i != j implies ids[i]
        != ids[j] by {
        text_order_is_total(ids[i], ids[j]);
        if i < j {
            assert(text_before(ids[i], ids[j]));
        } else {
            assert(text_before(ids[j], ids[i]));
        }
    }
    ids.unique_seq_to_set();
}

/// The identifier of a condition, if it belongs to tier A and has one.
pub open spec fn tier_a_id(condition: Json) -> Option<Seq<char>> {
    if text_of(field(condition, "tier"@)) == Some("A"@) {
        text_of(field(condition, "cond_id"@))
    } else {
        None
    }
}

/// The identifiers of the tier A conditions.
pub open spec fn tier_a_ids(conditions: Seq<Json>) -> Set<Seq<char>>
    decreases conditions.len(),
{
    if conditions.len() == 0 {
        Set::empty()
    } else {
        let front = tier_a_ids(conditions.drop_last());
        match tier_a_id(conditions.last()) {
            Some(id) => front.insert(id),
            None => front,
        }
    }
}

/// The seed that a manifest names.
pub open spec fn manifest_seed(document: Json) -> Option<u64> {
    unsigned_of(
        field_opt(field_opt(field(document, "reference_sequence_provenance"@), "sampling"@), "seed"@),
    )
}

/// The conditions that a manifest lists.
pub open spec fn manifest_conditions(document: Json) -> Option<Seq<Json>> {
    list_of(field(document, "conditions"@))
}

/// What a manifest provides.
#[derive(Debug)]
pub struct Manifest {
    pub seed: u64,
    pub conditions: Vec<Condition>,
    pub tier_a_ids: IdSet,
}

impl Manifest {
    /// The manifest of a document.
    pub open spec fn describes(self, seed: u64, conditions: Seq<Json>) -> bool {
        &&& self.seed == seed
        &&& self.conditions@.len() == conditions.len()
        &&& forall|i: int|
            0 <= i < conditions.len() ==> (#[trigger] self.conditions@[i]).describes(conditions[i])
        &&& self.tier_a_ids.wf()
        &&& self.tier_a_ids.members() == tier_a_ids(conditions)
        &&& self.tier_a_ids.ids@.len() == TIER_A_COUNT
    }
}

/// Reads the seed, the conditions and the tier A identifiers of a manifest.
pub fn read_manifest(document: &Json) -> (out: Result<Manifest, String>)
    ensures
        match manifest_seed(*document) {
            None => out is Err && out->Err_0@ == "Phase86 manifest has no reference seed"@,
            Some(seed) => match manifest_conditions(*document) {
                None => out is Err && out->Err_0@ == "Phase86 manifest has no conditions"@,
                Some(conditions) => if tier_a_ids(conditions).len() != TIER_A_COUNT {
                    out is Err && out->Err_0@
                        == "Phase86 manifest must provide 26 Tier A IDs, got "@ + decimal(
                        tier_a_ids(conditions).len(),
                    )
                } else {
                    out is Ok && out->Ok_0.describes(seed, conditions)
                },
            },
        },
{
    let provenance = get_in(document.get("reference_sequence_provenance"), "sampling");
    let seed: u64 = match unsigned_in(get_in(provenance, "seed")) {
        Some(seed) => seed,
        None => {
            return Err("Phase86 manifest has no reference seed".to_owned());
        },
    };
    let items: &Vec<Json> = match list_in(document.get("conditions")) {
        Some(items) => items,
        None => {
            return Err("Phase86 manifest has no conditions".to_owned());
        },
    };
    let mut conditions: Vec<Condition> = Vec::new();
    let mut ids = IdSet { ids: Vec::new() };
    proof {
        assert(texts(ids.ids@).to_set() =~= Set::<Seq<char>>::empty());
        assert(items@.take(0) =~= Seq::<Json>::empty());
    }
    for i in 0..items.len()
        invariant
            conditions@.len() == i,
            forall|j: int|
                0 <= j < i ==> (#[trigger] conditions@[j]).describes(items@[j]),
            ids.wf(),
            ids.members() == tier_a_ids(items@.take(i as int)),
    {
        let condition = read_condition(&items[i]);
        assert(items@.take(i + 1).drop_last() =~= items@.take(i as int));
        if condition.is_tier_a() {
            match &condition.cond_id {
                Some(id) => {
                    ids.add(id.clone());
                },
                None => {},
            }
        }
        conditions.push(condition);
    }
    proof {
        assert(items@.take(items.len() as int) =~= items@);
        sorted_ids_are_distinct(texts(ids.ids@));
    }
    if ids.ids.len() != TIER_A_COUNT {
        let count = decimal_string(ids.ids.len() as u64);
        return Err(
            joined("Phase86 manifest must provide 26 Tier A IDs, got ", count.as_str()),
        );
    }
    Ok(Manifest { seed, conditions, tier_a_ids: ids })
}

/// Decodes the bytes of a manifest.
pub fn decode_manifest(bytes: &[u8]) -> (out: Result<Json, String>)
    ensures
        match json_document(bytes@) {
            Ok(document) => out == Ok::<Json, String>(document),
            Err(message) => out is Err && out->Err_0@ == "decode Phase86 manifest: "@ + message,
        },
{
    match parse_json(bytes) {
        Ok(document) => Ok(document),
        Err(message) => Err(joined("decode Phase86 manifest: ", message.as_str())),
    }
}

/// Where the parts of a condition lie.
#[derive(Debug)]
pub struct ConditionSources {
    pub case_id: String,
    pub prompt_file: String,
    pub sequence_file: String,
}

/// The identifier of a tier A condition and the files that it names.
pub fn condition_sources(condition: &Condition) -> (out: Result<ConditionSources, String>)
    ensures
        match text_opt(condition.cond_id) {
            None => out is Err && out->Err_0@ == "Phase86 condition has no cond_id"@,
            Some(id) => match text_opt(condition.prompt_file) {
                None => out is Err && out->Err_0@ == "Phase86 condition "@ + id
                    + " has no prompt_file"@,
                Some(prompt) => match text_opt(condition.sequence_file) {
                    None => out is Err && out->Err_0@ == "Phase86 condition "@ + id
                        + " has no BF16 sequence"@,
                    Some(sequence) => {
                        &&& out is Ok
                        &&& out->Ok_0.case_id@ == id
                        &&& out->Ok_0.prompt_file@ == prompt
                        &&& out->Ok_0.sequence_file@ == sequence
                    },
                },
            },
        },
{
    let id = match &condition.cond_id {
        Some(id) => id,
        None => {
            return Err("Phase86 condition has no cond_id".to_owned());
        },
    };
    let prompt = match &condition.prompt_file {
        Some(prompt) => prompt,
        None => {
            return Err(joined3("Phase86 condition ", id.as_str(), " has no prompt_file"));
        },
    };
    let sequence = match &condition.sequence_file {
        Some(sequence) => sequence,
        None => {
            return Err(joined3("Phase86 condition ", id.as_str(), " has no BF16 sequence"));
        },
    };
    Ok(
        ConditionSources {
            case_id: id.clone(),
            prompt_file: prompt.clone(),
            sequence_file: sequence.clone(),
        },
    )
}

/// The message that refuses a digest, if there is one: none was promised, or it differs.
pub open spec fn digest_refusal(
    case_id: Seq<char>,
    promised: Option<Seq<char>>,
    observed: Seq<char>,
    missing: Seq<char>,
    differs: Seq<char>,
) -> Option<Seq<char>> {
    match promised {
        None => Some("Phase86 condition "@ + case_id + missing),
        Some(digest) => if bare_digest(digest) == bare_digest(observed) {
            None
        } else {
            Some(differs + case_id)
        },
    }
}

fn check_digest(
    case_id: &str,
    promised: &Option<String>,
    observed: &str,
    missing: &str,
    differs: &str,
) -> (out: Result<(), String>)
    ensures
        match digest_refusal(case_id@, text_opt(*promised), observed@, missing@, differs@) {
            Some(message) => out is Err && out->Err_0@ == message,
            None => out is Ok,
        },
{
    match promised {
        None => Err(joined3("Phase86 condition ", case_id, missing)),
        Some(promised) => {
            if digest_matches(promised.as_str(), observed) {
                Ok(())
            } else {
                Err(joined(differs, case_id))
            }
        },
    }
}

/// Holds the digest of a prompt against the one that its condition promises.
pub fn check_prompt_hash(case_id: &str, condition: &Condition, prompt_hash: &str) -> (out: Result<
    (),
    String,
>)
    ensures
        match digest_refusal(
            case_id@,
            text_opt(condition.prompt_sha256),
            prompt_hash@,
            " has no prompt hash"@,
            "Phase86 prompt hash differs for "@,
        ) {
            Some(message) => out is Err && out->Err_0@ == message,
            None => out is Ok,
        },
{
    check_digest(
        case_id,
        &condition.prompt_sha256,
        prompt_hash,
        " has no prompt hash",
        "Phase86 prompt hash differs for ",
    )
}

/// The first token that does not fit an `i32`.
pub open spec fn first_overflow(tokens: Seq<u32>) -> Option<u32>
    decreases tokens.len(),
{
    if tokens.len() == 0 {
        None
    } else if tokens[0] > i32::MAX {
        Some(tokens[0])
    } else {
        first_overflow(tokens.drop_first())
    }
}

/// The tokens of a rendered prompt, when each fits and their number is the one promised.
pub fn check_prompt_tokens(case_id: &str, condition: &Condition, tokens: &[u32]) -> (out: Result<
    Vec<i32>,
    String,
>)
    ensures
        match first_overflow(tokens@) {
            Some(token) => out is Err && out->Err_0@ == "token overflows i32: "@ + decimal(
                token as nat,
            ),
            None => match condition.prompt_tokens_rendered {
                None => out is Err && out->Err_0@ == "Phase86 condition "@ + case_id@
                    + " has no rendered length"@,
                Some(count) => if tokens@.len() != count {
                    out is Err && out->Err_0@ == "Phase86 rendered prompt length differs for "@
                        + case_id@
                } else {
                    &&& out is Ok
                    &&& out->Ok_0@ == Seq::new(tokens@.len(), |i: int| tokens@[i] as i32)
                    &&& forall|i: int|
                        0 <= i < tokens@.len() ==> #[trigger] out->Ok_0@[i] == tokens@[i]
                },
            },
        },
{
    let mut prompt: Vec<i32> = Vec::new();
    assert(tokens@.skip(0) =~= tokens@);
    for i in 0..tokens.len()
        invariant
            prompt@.len() == i,
            forall|j: int|
                0 <= j < i ==> #[trigger] prompt@[j] == tokens@[j] && prompt@[j] == tokens@[j] as i32,
            first_overflow(tokens@) == first_overflow(tokens@.skip(i as int)),
    {
        assert(tokens@.skip(i as int)[0] == tokens@[i as int]);
        assert(tokens@.skip(i as int).drop_first() =~= tokens@.skip(i + 1));
        if tokens[i] > i32::MAX as u32 {
            let number = decimal_string(tokens[i] as u64);
            return Err(joined("token overflows i32: ", number.as_str()));
        }
        prompt.push(tokens[i] as i32);
    }
    match condition.prompt_tokens_rendered {
        None => Err(joined3("Phase86 condition ", case_id, " has no rendered length")),
        Some(count) => {
            if tokens.len() as u64 != count {
                Err(joined("Phase86 rendered prompt length differs for ", case_id))
            } else {
                assert(prompt@ =~= Seq::new(tokens@.len(), |i: int| tokens@[i] as i32));
                Ok(prompt)
            }
        },
    }
}

/// Whether every item is a 32-bit integer.
pub open spec fn all_i32(items: Seq<Json>) -> bool {
    forall|i: int| 0 <= i < items.len() ==> i32_of(#[trigger] items[i]) is Some
}

/// The message that refuses a decoded sequence, if there is one.
pub open spec fn sequence_refusal(
    case_id: Seq<char>,
    sequence: Json,
    count: Option<u64>,
) -> Option<Seq<char>> {
    match list_of(field(sequence, "committed_token_ids"@)) {
        None => Some("Phase86 sequence "@ + case_id + " has no committed tokens"@),
        Some(items) => if !all_i32(items) {
            Some("Phase86 sequence token is invalid for "@ + case_id)
        } else {
            match count {
                None => Some("Phase86 condition "@ + case_id + " has no token count"@),
                Some(n) => if items.len() != n {
                    Some("Phase86 token count differs for "@ + case_id)
                } else {
                    None
                },
            }
        },
    }
}

/// The committed tokens of a decoded sequence.
pub fn sequence_tokens(case_id: &str, sequence: &Json, count: Option<u64>) -> (out: Result<
    Vec<i32>,
    String,
>)
    ensures
        match sequence_refusal(case_id@, *sequence, count) {
            Some(message) => out is Err && out->Err_0@ == message,
            None => {
                let items = list_of(field(*sequence, "committed_token_ids"@))->Some_0;
                &&& out is Ok
                &&& out->Ok_0@.len() == items.len()
                &&& forall|i: int|
                    0 <= i < items.len() ==> i32_of(items[i]) == Some(#[trigger] out->Ok_0@[i])
            },
        },
{
    let items: &Vec<Json> = match list_in(sequence.get("committed_token_ids")) {
        Some(items) => items,
        None => {
            return Err(joined3("Phase86 sequence ", case_id, " has no committed tokens"));
        },
    };
    let mut output: Vec<i32> = Vec::new();
    for i in 0..items.len()
        invariant
            list_of(field(*sequence, "committed_token_ids"@)) == Some(items@),
            output@.len() == i,
            forall|j: int| 0 <= j < i ==> i32_of(items@[j]) == Some(#[trigger] output@[j]),
    {
        match items[i].as_i32() {
            Some(token) => {
                output.push(token);
            },
            None => {
                assert(!all_i32(items@)) by {
                    assert(i32_of(items@[i as int]) is None);
                }
                return Err(joined("Phase86 sequence token is invalid for ", case_id));
            },
        }
    }
    proof {
        assert forall|i: int| 0 <= i < items@.len() implies i32_of(#[trigger] items@[i]) is Some by {
            assert(i32_of(items@[i]) == Some(output@[i]));
        }
    }
    match count {
        None => Err(joined3("Phase86 condition ", case_id, " has no token count")),
        Some(n) => {
            if output.len() as u64 != n {
                Err(joined("Phase86 token count differs for ", case_id))
            } else {
                Ok(output)
            }
        },
    }
}

/// The message that refuses a sequence file, if there is one.
pub open spec fn sequence_file_refusal(
    case_id: Seq<char>,
    promised: Option<Seq<char>>,
    count: Option<u64>,
    observed: Seq<char>,
    document: Result<Json, Seq<char>>,
) -> Option<Seq<char>> {
    match digest_refusal(
        case_id,
        promised,
        observed,
        " has no sequence hash"@,
        "Phase86 sequence file hash differs for "@,
    ) {
        Some(message) => Some(message),
        None => match document {
            Err(message) => Some("decode Phase86 sequence "@ + case_id + ": "@ + message),
            Ok(sequence) => sequence_refusal(case_id, sequence, count),
        },
    }
}

/// Checks the bytes of a sequence file against its condition and gives its committed tokens.
pub fn check_sequence(case_id: &str, condition: &Condition, bytes: &[u8]) -> (out: Result<
    Vec<i32>,
    String,
>)
    ensures
        match sequence_file_refusal(
            case_id@,
            text_opt(condition.sequence_sha256),
            condition.committed_token_count,
            digest_of(bytes@),
            json_document(bytes@),
        ) {
            Some(message) => out is Err && out->Err_0@ == message,
            None => {
                let items = list_of(
                    field(json_document(bytes@)->Ok_0, "committed_token_ids"@),
                )->Some_0;
                &&& out is Ok
                &&& out->Ok_0@.len() == items.len()
                &&& forall|i: int|
                    0 <= i < items.len() ==> i32_of(items[i]) == Some(#[trigger] out->Ok_0@[i])
            },
        },
{
    let observed = digest(bytes);
    match check_digest(
        case_id,
        &condition.sequence_sha256,
        observed.as_str(),
        " has no sequence hash",
        "Phase86 sequence file hash differs for ",
    ) {
        Ok(()) => {},
        Err(message) => {
            return Err(message);
        },
    }
    match parse_json(bytes) {
        Ok(sequence) => sequence_tokens(case_id, &sequence, condition.committed_token_count),
        Err(message) => {
            let mut text = joined3("decode Phase86 sequence ", case_id, ": ");
            text.append(message.as_str());
            Err(text)
        },
    }
}

/// Holds the digest of a committed sequence against the one that its condition promises.
pub fn check_output_hash(case_id: &str, condition: &Condition, output: &[i32]) -> (out: Result<
    (),
    String,
>)
    ensures
        match digest_refusal(
            case_id@,
            text_opt(condition.committed_token_sha256),
            digest_of(vstd::utf8::encode_utf8(canonical_text(output@))),
            " has no output hash"@,
            "Phase86 output hash differs for "@,
        ) {
            Some(message) => out is Err && out->Err_0@ == message,
            None => out is Ok,
        },
{
    let observed = canonical_sequence_hash(output);
    check_digest(
        case_id,
        &condition.committed_token_sha256,
        observed.as_str(),
        " has no output hash",
        "Phase86 output hash differs for ",
    )
}

/// One frozen prefix.
#[derive(Debug)]
pub struct PrefixEntry {
    pub case_id: String,
    pub seed: u64,
    pub prompt_tokens: Vec<i32>,
    pub output_prefix_tokens: Vec<i32>,
}

/// The contents of a frozen prefix.
pub struct PrefixEntryView {
    pub case_id: Seq<char>,
    pub seed: u64,
    pub prompt_tokens: Seq<i32>,
    pub output_prefix_tokens: Seq<i32>,
}

impl View for PrefixEntry {
    type V = PrefixEntryView;

    open spec fn view(&self) -> PrefixEntryView {
        PrefixEntryView {
            case_id: self.case_id@,
            seed: self.seed,
            prompt_tokens: self.prompt_tokens@,
            output_prefix_tokens: self.output_prefix_tokens@,
        }
    }
}

/// The identifiers of a list of prefixes.
pub open spec fn entry_ids(entries: Seq<PrefixEntry>) -> Seq<Seq<char>> {
    Seq::new(entries.len(), |i: int| entries[i].case_id@)
}

/// The position of an identifier in a list.
pub open spec fn position_of(ids: Seq<Seq<char>>, id: Seq<char>) -> int {
    choose|i: int| 0 <= i < ids.len() && #[trigger] ids[i] == id
}

/// The frozen prefixes, by identifier and in their order.
#[derive(Debug)]
pub struct PrefixSet {
    pub entries: Vec<PrefixEntry>,
}

impl PrefixSet {
    /// The prefixes stand in the order of their identifiers, one for each.
    pub open spec fn wf(self) -> bool {
        ids_sorted(entry_ids(self.entries@))
    }

    /// The identifiers that have a prefix.
    pub open spec fn ids(self) -> Set<Seq<char>> {
        entry_ids(self.entries@).to_set()
    }

    /// The prefixes by identifier.
    pub open spec fn contents(self) -> Map<Seq<char>, PrefixEntryView> {
        Map::new(
            |id: Seq<char>| entry_ids(self.entries@).contains(id),
            |id: Seq<char>| self.entries@[position_of(entry_ids(self.entries@), id)]@,
        )
    }

    /// A set without prefixes.
    pub fn empty() -> (out: PrefixSet)
        ensures
            out.wf(),
            out.contents() == Map::<Seq<char>, PrefixEntryView>::empty(),
    {
        let out = PrefixSet { entries: Vec::new() };
        assert(out.contents() =~= Map::<Seq<char>, PrefixEntryView>::empty());
        out
    }

    /// The least position whose identifier does not stand before `id`.
    fn slot(&self, id: &str) -> (at: usize)
        requires
            self.wf(),
        ensures
            at <= self.entries@.len(),
            forall|j: int| 0 <= j < at ==> text_before(#[trigger] entry_ids(self.entries@)[j], id@),
            at < self.entries@.len() ==> !text_before(entry_ids(self.entries@)[at as int], id@),
    {
        let mut at: usize = 0;
        while at < self.entries.len() && is_before(self.entries[at].case_id.as_str(), id)
            invariant
                at <= self.entries@.len(),
                forall|j: int|
                    0 <= j < at ==> text_before(#[trigger] entry_ids(self.entries@)[j], id@),
            decreases self.entries@.len() - at,
        {
            at = at + 1;
        }
        at
    }

    /// The prefix of an identifier.
    pub fn find(&self, id: &str) -> (out: Option<&PrefixEntry>)
        requires
            self.wf(),
        ensures
            match out {
                Some(entry) => self.contents().contains_key(id@) && self.contents()[id@]
                    == entry@,
                None => !self.contents().contains_key(id@),
            },
    {
        let at: usize = self.slot(id);
        let ghost ids = entry_ids(self.entries@);
        if at < self.entries.len() && same_text(self.entries[at].case_id.as_str(), id) {
            proof {
                assert(ids[at as int] == id@);
                position_is_unique(ids, at as int);
            }
            Some(&self.entries[at])
        } else {
            proof {
                absent_beyond_slot(ids, at as int, id@);
            }
            None
        }
    }

    /// Puts a prefix in, in place of the one with the same identifier where there is one.
    pub fn insert(&mut self, entry: PrefixEntry)
        requires
            old(self).wf(),
        ensures
            final(self).wf(),
            final(self).contents() == old(self).contents().insert(entry.case_id@, entry@),
    {
        let at: usize = self.slot(entry.case_id.as_str());
        let ghost before = *self;
        let ghost ids = entry_ids(self.entries@);
        let ghost id = entry.case_id@;
        let ghost new = entry@;
        if at < self.entries.len() && same_text(
            self.entries[at].case_id.as_str(),
            entry.case_id.as_str(),
        ) {
            self.entries.set(at, entry);
            proof {
                let after = entry_ids(self.entries@);
                assert(after =~= ids);
                assert forall|x: Seq<char>| self.contents().contains_key(x) implies
                    #[trigger] self.contents()[x] == before.contents().insert(id, new)[x] by {
                    let k = position_of(ids, x);
                    assert(ids[k] == x);
                    position_is_unique(ids, at as int);
                    position_is_unique(ids, k);
                }
                assert(ids[at as int] == id);
                assert(self.contents() =~= before.contents().insert(id, new));
            }
        } else {
            proof {
                absent_beyond_slot(ids, at as int, id);
                if at < ids.len() {
                    assert(ids[at as int] != id);
                }
                insert_keeps_order(ids, at as int, id);
            }
            self.entries.insert(at, entry);
            proof {
                let after = entry_ids(self.entries@);
                assert(after =~= ids.insert(at as int, id));
                inserted_contents(before, *self, at as int, new);
            }
        }
    }
}

proof fn position_is_unique(ids: Seq<Seq<char>>, at: int)
    requires
        ids_sorted(ids),
        0 <= at < ids.len(),
    ensures
        position_of(ids, ids[at]) == at,
{
    sorted_ids_are_distinct(ids);
    let k = position_of(ids, ids[at]);
    assert(ids[at] == ids[at]);
    assert(0 <= k < ids.len() && ids[k] == ids[at]);
}

proof fn absent_beyond_slot(ids: Seq<Seq<char>>, at: int, id: Seq<char>)
    requires
        ids_sorted(ids),
        0 <= at <= ids.len(),
        forall|j: int| 0 <= j < at ==> text_before(#[trigger] ids[j], id),
        at < ids.len() ==> !text_before(ids[at], id) && ids[at] != id,
    ensures
        !ids.contains(id),
{
    if ids.contains(id) {
        let k = choose|k: int| 0 <= k < ids.len() && ids[k] == id;
        if k < at {
            text_order_is_total(ids[k], id);
        } else if k > at {
            text_order_is_total(ids[at], id);
            assert(text_before(ids[at], ids[k]));
        }
    }
}

proof fn inserted_contents(before: PrefixSet, after: PrefixSet, at: int, new: PrefixEntryView)
    requires
        before.wf(),
        after.wf(),
        0 <= at <= before.entries@.len(),
        after.entries@.len() == before.entries@.len() + 1,
        after.entries@[at]@ == new,
        after.entries@ == before.entries@.insert(at, after.entries@[at]),
        !entry_ids(before.entries@).contains(new.case_id),
    ensures
        after.contents() == before.contents().insert(new.case_id, new),
{
    let old_ids = entry_ids(before.entries@);
    let new_ids = entry_ids(after.entries@);
    assert(new_ids[at] == new.case_id);
    assert forall|x: Seq<char>| after.contents().contains_key(x) == before.contents().insert(
        new.case_id,
        new,
    ).contains_key(x) by {
        if new_ids.contains(x) {
            let k = choose|k: int| 0 <= k < new_ids.len() && new_ids[k] == x;
            if k < at {
                assert(old_ids[k] == x);
            } else if k > at {
                assert(old_ids[k - 1] == x);
            }
        }
        if old_ids.contains(x) {
            let k = choose|k: int| 0 <= k < old_ids.len() && old_ids[k] == x;
            if k < at {
                assert(new_ids[k] == x);
            } else {
                assert(new_ids[k + 1] == x);
            }
        }
    }
    assert forall|x: Seq<char>| after.contents().contains_key(x) implies
        #[trigger] after.contents()[x] == before.contents().insert(new.case_id, new)[x] by {
        let k = position_of(new_ids, x);
        assert(new_ids[k] == x);
        if k == at {
            assert(x == new.case_id);
        } else {
            let j = if k < at {
                k
            } else {
                k - 1
            };
            assert(old_ids[j] == x);
            position_is_unique(old_ids, j);
            assert(x != new.case_id) by {
                if x == new.case_id {
                    assert(old_ids.contains(x));
                }
            }
        }
    }
    assert(after.contents() =~= before.contents().insert(new.case_id, new));
}

/// Takes over an existing prefix, which must belong to tier A.
pub fn adopt_existing(set: &mut PrefixSet, tier_a: &IdSet, entry: PrefixEntry) -> (out: Result<
    (),
    String,
>)
    requires
        old(set).wf(),
    ensures
        final(set).wf(),
        if tier_a.members().contains(entry.case_id@) {
            out is Ok && final(set).contents() == old(set).contents().insert(
                entry.case_id@,
                entry@,
            )
        } else {
            &&& out is Err
            &&& out->Err_0@ == "existing Phase86 prefix is outside Tier A: "@ + entry.case_id@
            &&& *final(set) == *old(set)
        },
{
    if !tier_a.contains(entry.case_id.as_str()) {
        return Err(
            joined("existing Phase86 prefix is outside Tier A: ", entry.case_id.as_str()),
        );
    }
    set.insert(entry);
    Ok(())
}

/// Whether an existing prefix bars a checked condition: its prompt differs or it is empty.
pub open spec fn existing_differs(
    existing: Map<Seq<char>, PrefixEntryView>,
    case_id: Seq<char>,
    prompt: Seq<i32>,
) -> bool {
    existing.contains_key(case_id) && (existing[case_id].prompt_tokens != prompt
        || existing[case_id].output_prefix_tokens.len() == 0)
}

/// The prefixes after a condition was merged: one that is there stays, a missing one is added.
pub open spec fn merged_with(
    existing: Map<Seq<char>, PrefixEntryView>,
    entry: PrefixEntryView,
) -> Map<Seq<char>, PrefixEntryView> {
    if existing.contains_key(entry.case_id) {
        existing
    } else {
        existing.insert(entry.case_id, entry)
    }
}

/// The prefixes after a list of conditions was merged, one after the other.
pub open spec fn merged_all(
    existing: Map<Seq<char>, PrefixEntryView>,
    entries: Seq<PrefixEntryView>,
) -> Map<Seq<char>, PrefixEntryView>
    decreases entries.len(),
{
    if entries.len() == 0 {
        existing
    } else {
        merged_with(merged_all(existing, entries.drop_last()), entries.last())
    }
}

/// Merging preserves every existing prefix as it is, gives each condition a prefix, and adds none
/// that is not a condition's own.
pub proof fn existing_prefixes_are_preserved(
    existing: Map<Seq<char>, PrefixEntryView>,
    entries: Seq<PrefixEntryView>,
)
    ensures
        forall|id: Seq<char>| #[trigger]
            existing.contains_key(id) ==> merged_all(existing, entries).contains_key(id)
                && merged_all(existing, entries)[id] == existing[id],
        forall|i: int|
            0 <= i < entries.len() ==> merged_all(existing, entries).contains_key(
                (#[trigger] entries[i]).case_id,
            ),
        forall|id: Seq<char>| #[trigger]
            merged_all(existing, entries).contains_key(id) && !existing.contains_key(id)
                ==> entries.contains(merged_all(existing, entries)[id])
                && merged_all(existing, entries)[id].case_id == id,
    decreases entries.len(),
{
    if entries.len() > 0 {
        let front = entries.drop_last();
        let before = merged_all(existing, front);
        let after = merged_all(existing, entries);
        existing_prefixes_are_preserved(existing, front);
        assert forall|i: int| 0 <= i < entries.len() implies after.contains_key(
            (#[trigger] entries[i]).case_id,
        ) by {
            if i < front.len() {
                assert(front[i] == entries[i]);
                assert(before.contains_key(front[i].case_id));
            }
        }
        assert forall|id: Seq<char>| #[trigger]
            after.contains_key(id) && !existing.contains_key(id) implies entries.contains(after[id])
            && after[id].case_id == id by {
            if before.contains_key(id) {
                let at = choose|at: int| 0 <= at < front.len() && front[at] == before[id];
                assert(entries[at] == before[id]);
            } else {
                assert(entries[entries.len() - 1] == after[id]);
            }
        }
    }
}

/// Merges a checked condition. An existing prefix of the same identifier is authoritative: it
/// stays as it is when its prompt agrees and it is not empty, and bars the condition otherwise.
pub fn merge_condition(set: &mut PrefixSet, entry: PrefixEntry) -> (out: Result<(), String>)
    requires
        old(set).wf(),
    ensures
        final(set).wf(),
        if existing_differs(old(set).contents(), entry.case_id@, entry.prompt_tokens@) {
            &&& out is Err
            &&& out->Err_0@ == "existing Phase86 prefix differs for "@ + entry.case_id@
            &&& *final(set) == *old(set)
        } else {
            &&& out is Ok
            &&& final(set).contents() == merged_with(old(set).contents(), entry@)
            &&& old(set).contents().contains_key(entry.case_id@) ==> *final(set) == *old(set)
        },
{
    match set.find(entry.case_id.as_str()) {
        Some(existing) => {
            if !same_items(existing.prompt_tokens.as_slice(), entry.prompt_tokens.as_slice())
                || existing.output_prefix_tokens.len() == 0 {
                Err(joined("existing Phase86 prefix differs for ", entry.case_id.as_str()))
            } else {
                Ok(())
            }
        },
        None => {
            set.insert(entry);
            Ok(())
        },
    }
}

/// Accepts the merged prefixes when they are one for each tier A identifier and no others.
pub fn check_complete(set: &PrefixSet, tier_a: &IdSet) -> (out: Result<(), String>)
    requires
        set.wf(),
        tier_a.wf(),
    ensures
        if set.ids() == tier_a.members() {
            out is Ok
        } else {
            out is Err && out->Err_0@ == "Phase86 manifest must provide 26 Tier A entries, got "@
                + decimal(set.entries@.len())
        },
{
    let ghost ids = entry_ids(set.entries@);
    let ghost wanted = texts(tier_a.ids@);
    proof {
        sorted_ids_are_distinct(ids);
        sorted_ids_are_distinct(wanted);
    }
    let mut complete: bool = set.entries.len() == tier_a.ids.len();
    for i in 0..set.entries.len()
        invariant
            ids == entry_ids(set.entries@),
            wanted == texts(tier_a.ids@),
            complete == (ids.len() == wanted.len() && forall|j: int|
                0 <= j < i ==> wanted.to_set().contains(#[trigger] ids[j])),
    {
        if !tier_a.contains(set.entries[i].case_id.as_str()) {
            assert(!wanted.to_set().contains(ids[i as int]));
            complete = false;
        }
    }
    proof {
        if complete {
            assert(ids.to_set().subset_of(wanted.to_set())) by {
                assert forall|x: Seq<char>| ids.to_set().contains(x) implies wanted.to_set().contains(
                    x,
                ) by {
                    let k = choose|k: int| 0 <= k < ids.len() && ids[k] == x;
                    assert(wanted.to_set().contains(ids[k]));
                }
            }
            vstd::set_lib::lemma_subset_equality(ids.to_set(), wanted.to_set());
        } else if ids.to_set() == wanted.to_set() {
            assert forall|j: int| 0 <= j < ids.len() implies wanted.to_set().contains(
                #[trigger] ids[j],
            ) by {
                assert(ids.to_set().contains(ids[j]));
            }
        }
    }
    if complete {
        Ok(())
    } else {
        let count = decimal_string(set.entries.len() as u64);
        Err(joined("Phase86 manifest must provide 26 Tier A entries, got ", count.as_str()))
    }
}

/// Merging leaves every prefix of another identifier as it is. An existing prefix of the same
/// identifier is left as it is too, and is accepted just where its prompt is the same and it is not
/// empty; without one the condition's own is added.
pub proof fn merging_never_replaces_a_prefix(
    set: &mut PrefixSet,
    entry: PrefixEntry,
    out: Result<(), String>,
    other: Seq<char>,
)
    requires
        old(set).wf(),
        call_ensures(merge_condition, (set, entry), out),
    ensures
        ({
            let before = old(set).contents();
            let after = final(set).contents();
            let id = entry.case_id@;
            &&& before.contains_key(id) ==> after.contains_key(id) && after[id] == before[id]
            &&& before.contains_key(id) ==> (out is Ok <==> before[id].prompt_tokens
                == entry.prompt_tokens@ && before[id].output_prefix_tokens.len() >= 1)
            &&& !before.contains_key(id) ==> out is Ok && after.contains_key(id) && after[id]
                == entry@
            &&& other != id ==> (after.contains_key(other) <==> before.contains_key(other))
            &&& other != id && before.contains_key(other) ==> after[other] == before[other]
        }),
{
}

/// An existing prefix is taken over just where its identifier belongs to tier A, and then stands under
/// that identifier; all others stay.
pub proof fn existing_prefixes_belong_to_tier_a(
    set: &mut PrefixSet,
    tier_a: &IdSet,
    entry: PrefixEntry,
    out: Result<(), String>,
    other: Seq<char>,
)
    requires
        old(set).wf(),
        call_ensures(adopt_existing, (set, tier_a, entry), out),
    ensures
        out is Ok <==> texts(tier_a.ids@).contains(entry.case_id@),
        out is Ok ==> final(set).contents().contains_key(entry.case_id@)
            && final(set).contents()[entry.case_id@] == entry@,
        other != entry.case_id@ && old(set).contents().contains_key(other)
            ==> final(set).contents().contains_key(other) && final(set).contents()[other]
            == old(set).contents()[other],
        out is Err ==> *final(set) == *old(set),
{
}

/// The prefixes are complete just where every identifier of tier A has one and no other has.
pub proof fn complete_prefixes_are_those_of_tier_a(
    set: &PrefixSet,
    tier_a: &IdSet,
    out: Result<(), String>,
)
    requires
        set.wf(),
        tier_a.wf(),
        call_ensures(check_complete, (set, tier_a), out),
    ensures
        out is Ok <==> forall|id: Seq<char>|
            texts(tier_a.ids@).contains(id) <==> #[trigger] set.contents().contains_key(id),
{
    let ids = entry_ids(set.entries@);
    assert forall|id: Seq<char>| set.ids().contains(id) <==> #[trigger] set.contents().contains_key(
        id,
    ) by {}
    if forall|id: Seq<char>|
        texts(tier_a.ids@).contains(id) <==> #[trigger] set.contents().contains_key(id) {
        assert forall|id: Seq<char>| set.ids().contains(id) <==> #[trigger] tier_a.members().contains(
            id,
        ) by {
            assert(set.contents().contains_key(id) <==> texts(tier_a.ids@).contains(id));
        }
        assert(set.ids() =~= tier_a.members());
    } else if set.ids() == tier_a.members() {
        assert forall|id: Seq<char>|
            texts(tier_a.ids@).contains(id) <==> #[trigger] set.contents().contains_key(id) by {
            assert(set.ids().contains(id) <==> tier_a.members().contains(id));
        }
    }
}

proof fn tier_a_conditions_are_listed(conditions: Seq<Json>, at: int)
    requires
        0 <= at < conditions.len(),
    ensures
        tier_a_id(conditions[at]) matches Some(id) ==> tier_a_ids(conditions).contains(id),
    decreases conditions.len(),
{
    if at < conditions.len() - 1 {
        tier_a_conditions_are_listed(conditions.drop_last(), at);
    }
}

/// A manifest is read with all its conditions in order, and with the identifiers of those of tier A,
/// of which there are twenty-six. Each condition of tier A that has an identifier is among them.
pub proof fn manifests_list_their_tier_a(document: &Json, manifest: Manifest, at: int)
    requires
        call_ensures(read_manifest, (document,), Ok(manifest)),
        0 <= at < manifest.conditions@.len(),
    ensures
        manifest.tier_a_ids.ids@.len() == 26,
        text_opt(manifest.conditions@[at].tier) == Some("A"@) ==> (text_opt(
            manifest.conditions@[at].cond_id,
        ) matches Some(id) ==> texts(manifest.tier_a_ids.ids@).contains(id)),
{
    let conditions = manifest_conditions(*document)->Some_0;
    assert(manifest.conditions@[at].describes(conditions[at]));
    tier_a_conditions_are_listed(conditions, at);
    assert(manifest.tier_a_ids.members() == tier_a_ids(conditions));
}

/// A sequence is accepted only with the promised digest, and then holds as many tokens as promised,
/// each the one that stands at its place in the file.
pub proof fn sequences_hold_the_promised_tokens(
    case_id: &str,
    condition: &Condition,
    bytes: &[u8],
    tokens: Vec<i32>,
)
    requires
        call_ensures(check_sequence, (case_id, condition, bytes), Ok(tokens)),
    ensures
        condition.sequence_sha256 is Some,
        bare_digest(condition.sequence_sha256->Some_0@) == bare_digest(digest_of(bytes@)),
        condition.committed_token_count == Some(tokens@.len() as u64),
        json_document(bytes@) is Ok,
        list_of(field(json_document(bytes@)->Ok_0, "committed_token_ids"@)) matches Some(items) && {
            &&& items.len() == tokens@.len()
            &&& forall|i: int|
                0 <= i < items.len() ==> #[trigger] i32_of(items[i]) == Some(tokens@[i])
        },
{
}

/// A prompt is accepted only with the promised number of tokens, all of which fit and stay as they
/// are.
pub proof fn prompts_keep_their_tokens(
    case_id: &str,
    condition: &Condition,
    tokens: &[u32],
    out: Vec<i32>,
    at: int,
)
    requires
        call_ensures(check_prompt_tokens, (case_id, condition, tokens), Ok(out)),
    ensures
        condition.prompt_tokens_rendered == Some(tokens@.len() as u64),
        out@.len() == tokens@.len(),
        0 <= at < tokens@.len() ==> out@[at] == tokens@[at],
{
}

/// Digests agree just where they are the same but for the case of their letters and the name in front
/// of them; without a promised one nothing is accepted.
pub proof fn promised_digests_are_kept(
    case_id: &str,
    condition: &Condition,
    observed: &str,
    out: Result<(), String>,
    output: &[i32],
    held: Result<(), String>,
)
    requires
        call_ensures(check_prompt_hash, (case_id, condition, observed), out),
        call_ensures(check_output_hash, (case_id, condition, output), held),
    ensures
        out is Ok <==> condition.prompt_sha256 is Some && bare_digest(
            condition.prompt_sha256->Some_0@,
        ) == bare_digest(observed@),
        held is Ok <==> condition.committed_token_sha256 is Some && bare_digest(
            condition.committed_token_sha256->Some_0@,
        ) == bare_digest(digest_of(vstd::utf8::encode_utf8(canonical_text(output@)))),
{
}

/// What is put into a set of prefixes is found there under its own case, and everything else is found
/// as before.
pub proof fn inserted_prefixes_are_found(
    set: &mut PrefixSet,
    entry: PrefixEntry,
    id: &str,
    before: Option<&PrefixEntry>,
    after: Option<&PrefixEntry>,
)
    requires
        call_ensures(PrefixSet::insert, (set, entry), ()),
        call_ensures(PrefixSet::find, (&*old(set), id), before),
        call_ensures(PrefixSet::find, (&*final(set), id), after),
    ensures
        id@ == entry.case_id@ ==> after is Some && after->Some_0@ == entry@,
        id@ != entry.case_id@ ==> (after is Some <==> before is Some),
        id@ != entry.case_id@ && after is Some ==> after->Some_0@ == before->Some_0@,
{
}

/// A set holds what was added to it and what it held before, and nothing else.
pub proof fn added_identifiers_are_held(
    set: &mut IdSet,
    added: String,
    id: &str,
    before: bool,
    after: bool,
)
    requires
        call_ensures(IdSet::add, (set, added), ()),
        call_ensures(IdSet::contains, (&*old(set), id), before),
        call_ensures(IdSet::contains, (&*final(set), id), after),
    ensures
        after <==> before || id@ == added@,
{
}

/// A sequence is taken exactly where it lists as many tokens as were promised and each of them fits; they
/// keep their order.
pub proof fn listed_tokens_are_taken_in_order(
    case_id: &str,
    sequence: &Json,
    count: Option<u64>,
    out: Result<Vec<i32>, String>,
)
    requires
        call_ensures(sequence_tokens, (case_id, sequence, count), out),
    ensures
        ({
            let items = list_of(field(*sequence, "committed_token_ids"@));
            &&& out is Ok <==> items is Some && count is Some && items->Some_0.len()
                == count->Some_0 && forall|i: int|
                0 <= i < items->Some_0.len() ==> i32_of(#[trigger] items->Some_0[i]) is Some
            &&& out matches Ok(tokens) ==> tokens@.len() == count->Some_0 && forall|i: int|
                0 <= i < tokens@.len() ==> #[trigger] i32_of(items->Some_0[i]) == Some(tokens@[i])
        }),
{
}

/// The sources of a condition are its own: its name, its prompt and its sequence, all of which it must
/// have.
pub proof fn conditions_name_their_sources(
    condition: &Condition,
    out: Result<ConditionSources, String>,
)
    requires
        call_ensures(condition_sources, (condition,), out),
    ensures
        out is Ok <==> condition.cond_id is Some && condition.prompt_file is Some
            && condition.sequence_file is Some,
        out matches Ok(sources) ==> sources.case_id@ == condition.cond_id->Some_0@
            && sources.prompt_file@ == condition.prompt_file->Some_0@ && sources.sequence_file@
            == condition.sequence_file->Some_0@,
{
}

} // verus!
