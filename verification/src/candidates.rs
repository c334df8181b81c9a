//! The candidates of a fixed sampling profile: the largest finite logits of a row.
use crate::number::{f32_is_finite, is_finite_f32};
use vstd::prelude::*;

verus! {

/// How many candidates the profile keeps.
pub const TOP_K: usize = 20;

/// The place of a binary32 value in the total order of its bits: from the smallest up, the negative
/// zero before the positive one.
pub open spec fn total_rank(bits: u32) -> int {
    if bits >= 0x8000_0000 {
        0x7fff_ffff - bits
    } else {
        bits as int
    }
}

pub(crate) fn rank_total(bits: u32) -> (out: i64)
    ensures
        out == total_rank(bits),
{
    if bits >= 0x8000_0000 {
        0x7fff_ffff - bits as i64
    } else {
        bits as i64
    }
}

/// Whether token `a` comes before token `b`: by the larger logit, then by the smaller number.
pub open spec fn comes_before(logits: Seq<u32>, a: int, b: int) -> bool {
    ||| total_rank(logits[a]) > total_rank(logits[b])
    ||| total_rank(logits[a]) == total_rank(logits[b]) && a < b
}

/// Whether a token has a finite logit.
pub open spec fn is_candidate(logits: Seq<u32>, token: int) -> bool {
    0 <= token < logits.len() && f32_is_finite(logits[token])
}

/// Whether a list holds the first `limit` tokens with a finite logit, in order.
pub open spec fn is_top(logits: Seq<u32>, tokens: Seq<u32>, limit: int) -> bool {
    &&& tokens.len() <= limit
    &&& forall|i: int| 0 <= i < tokens.len() ==> is_candidate(logits, #[trigger] tokens[i] as int)
    &&& forall|i: int, j: int|
        0 <= i < j < tokens.len() ==> comes_before(
            logits,
            #[trigger] tokens[i] as int,
            #[trigger] tokens[j] as int,
        )
    &&& forall|t: u32| #[trigger]
        is_candidate(logits, t as int) && !tokens.contains(t) ==> tokens.len() == limit
            && forall|i: int|
            0 <= i < tokens.len() ==> comes_before(logits, #[trigger] tokens[i] as int, t as int)
}

/// The tokens of the largest finite logits of a row, at most as many as the profile keeps, from
/// the largest down and among equal ones from the smallest number up.
pub fn top_candidates(logits: &[u32]) -> (out: Result<Vec<u32>, String>)
    requires
        logits@.len() <= u32::MAX,
    ensures
        if exists|t: int| is_candidate(logits@, t) {
            out is Ok && is_top(logits@, out->Ok_0@, TOP_K as int)
        } else {
            out is Err && out->Err_0@ == "fixed p oracle has no finite candidates"@
        },
{
    let mut tokens: Vec<u32> = Vec::new();
    for i in 0..logits.len()
        invariant
            logits@.len() <= u32::MAX,
            is_top(logits@.take(i as int), tokens@, TOP_K as int),
    {
        let ghost before = tokens@;
        let ghost seen = logits@.take(i as int);
        let ghost now = logits@.take(i + 1);
        if is_finite_f32(logits[i]) {
            let rank: i64 = rank_total(logits[i]);
            let mut at: usize = 0;
            while at < tokens.len() && rank <= rank_total(logits[tokens[at] as usize])
                invariant
                    i < logits@.len(),
                    rank == total_rank(logits@[i as int]),
                    at <= tokens@.len(),
                    forall|j: int|
                        0 <= j < tokens@.len() ==> is_candidate(
                            logits@.take(i as int),
                            #[trigger] tokens@[j] as int,
                        ),
                    forall|j: int|
                        0 <= j < at ==> comes_before(logits@, #[trigger] tokens@[j] as int, i as int),
                decreases tokens@.len() - at,
            {
                assert(is_candidate(logits@.take(i as int), tokens@[at as int] as int));
                at += 1;
            }
            proof {
                if at < before.len() {
                    assert(is_candidate(seen, before[at as int] as int));
                    assert(comes_before(logits@, i as int, before[at as int] as int));
                }
            }
            tokens.insert(at, i as u32);
            let ghost longer = tokens@;
            if tokens.len() > TOP_K {
                tokens.pop();
            }
            proof {
                insertion_keeps_top(logits@, i as int, before, at as int, TOP_K as int);
                assert(longer =~= before.insert(at as int, i as u32));
                if longer.len() > TOP_K {
                    assert(tokens@ =~= longer.take(TOP_K as int));
                } else {
                    assert(tokens@ =~= longer);
                }
            }
        } else {
            proof {
                assert forall|t: u32| #[trigger] is_candidate(now, t as int) implies is_candidate(
                    seen,
                    t as int,
                ) by {
                    assert(t as int != i);
                }
                assert forall|j: int| 0 <= j < tokens@.len() implies is_candidate(
                    now,
                    #[trigger] tokens@[j] as int,
                ) by {
                    assert(is_candidate(seen, tokens@[j] as int));
                }
                assert forall|a: int, b: int| 0 <= a < b < tokens@.len() implies comes_before(
                    now,
                    #[trigger] tokens@[a] as int,
                    #[trigger] tokens@[b] as int,
                ) by {
                    assert(is_candidate(seen, tokens@[a] as int));
                    assert(is_candidate(seen, tokens@[b] as int));
                }
                assert forall|t: u32| #[trigger]
                    is_candidate(now, t as int) && !tokens@.contains(t) implies tokens@.len()
                    == TOP_K && forall|j: int|
                    0 <= j < tokens@.len() ==> comes_before(
                        now,
                        #[trigger] tokens@[j] as int,
                        t as int,
                    ) by {
                    assert(is_candidate(seen, t as int));
                    assert forall|j: int| 0 <= j < tokens@.len() implies comes_before(
                        now,
                        #[trigger] tokens@[j] as int,
                        t as int,
                    ) by {
                        assert(is_candidate(seen, tokens@[j] as int));
                    }
                }
            }
        }
    }
    assert(logits@.take(logits.len() as int) =~= logits@);
    if tokens.len() == 0 {
        assert forall|t: int| !is_candidate(logits@, t) by {
            if is_candidate(logits@, t) {
                assert(is_candidate(logits@, (t as u32) as int));
            }
        }
        Err("fixed p oracle has no finite candidates".to_owned())
    } else {
        assert(is_candidate(logits@, tokens@[0] as int));
        Ok(tokens)
    }
}

/// Putting the next token in its place, and dropping the last one where there are too many, gives
/// the first tokens of the longer row.
proof fn insertion_keeps_top(logits: Seq<u32>, i: int, before: Seq<u32>, at: int, limit: int)
    requires
        0 <= i < logits.len() <= u32::MAX,
        limit >= 1,
        f32_is_finite(logits[i]),
        is_top(logits.take(i), before, limit),
        0 <= at <= before.len(),
        forall|j: int| 0 <= j < at ==> comes_before(logits, #[trigger] before[j] as int, i),
        at < before.len() ==> comes_before(logits, i, before[at] as int),
    ensures
        ({
            let longer = before.insert(at, i as u32);
            is_top(
                logits.take(i + 1),
                if longer.len() > limit {
                    longer.take(limit)
                } else {
                    longer
                },
                limit,
            )
        }),
{
    let seen = logits.take(i);
    let now = logits.take(i + 1);
    let longer = before.insert(at, i as u32);
    let kept = if longer.len() > limit {
        longer.take(limit)
    } else {
        longer
    };
    assert forall|j: int| 0 <= j < before.len() implies is_candidate(
        now,
        #[trigger] before[j] as int,
    ) && before[j] < i by {
        assert(is_candidate(seen, before[j] as int));
    }
    assert forall|a: int, b: int| 0 <= a < b < before.len() implies comes_before(
        now,
        #[trigger] before[a] as int,
        #[trigger] before[b] as int,
    ) by {
        assert(is_candidate(seen, before[a] as int));
        assert(is_candidate(seen, before[b] as int));
        assert(comes_before(seen, before[a] as int, before[b] as int));
    }
    assert forall|j: int| at <= j < before.len() implies comes_before(
        now,
        i,
        #[trigger] before[j] as int,
    ) by {
        assert(comes_before(now, i, before[at] as int));
        if j > at {
            assert(comes_before(now, before[at] as int, before[j] as int));
        }
    }
    assert forall|j: int| 0 <= j < at implies comes_before(now, #[trigger] before[j] as int, i) by {
        assert(comes_before(logits, before[j] as int, i));
    }
    assert forall|j: int| 0 <= j < longer.len() implies is_candidate(
        now,
        #[trigger] longer[j] as int,
    ) by {
        if j < at {
            assert(longer[j] == before[j]);
        } else if j > at {
            assert(longer[j] == before[j - 1]);
        }
    }
    assert forall|a: int, b: int| 0 <= a < b < longer.len() implies comes_before(
        now,
        #[trigger] longer[a] as int,
        #[trigger] longer[b] as int,
    ) by {
        if b < at {
            assert(longer[a] == before[a] && longer[b] == before[b]);
        } else if a < at && b == at {
            assert(longer[a] == before[a]);
        } else if a < at {
            assert(longer[a] == before[a] && longer[b] == before[b - 1]);
        } else if a == at {
            assert(longer[b] == before[b - 1]);
        } else {
            assert(longer[a] == before[a - 1] && longer[b] == before[b - 1]);
        }
    }
    assert forall|j: int| 0 <= j < kept.len() implies #[trigger] kept[j] == longer[j] by {}
    assert forall|t: u32| #[trigger] is_candidate(now, t as int) && !kept.contains(t) implies
        kept.len() == limit && forall|j: int|
        0 <= j < kept.len() ==> comes_before(now, #[trigger] kept[j] as int, t as int) by {
        if longer.contains(t) {
            let place = choose|p: int| 0 <= p < longer.len() && longer[p] == t;
            if place < kept.len() {
                assert(kept[place] == t);
            }
            assert forall|j: int| 0 <= j < kept.len() implies comes_before(
                now,
                #[trigger] kept[j] as int,
                t as int,
            ) by {
                assert(comes_before(now, longer[j] as int, longer[place] as int));
            }
        } else {
            assert(longer[at] == i as u32);
            assert(t != i as u32);
            if before.contains(t) {
                let place = choose|p: int| 0 <= p < before.len() && before[p] == t;
                if place < at {
                    assert(longer[place] == t);
                } else {
                    assert(longer[place + 1] == t);
                }
            }
            assert(is_candidate(seen, t as int));
            assert(before.len() == limit);
            assert forall|j: int| 0 <= j < kept.len() implies comes_before(
                now,
                #[trigger] kept[j] as int,
                t as int,
            ) by {
                if j < at {
                    assert(kept[j] == before[j]);
                    assert(comes_before(seen, before[j] as int, t as int));
                    assert(is_candidate(seen, before[j] as int));
                } else if j > at {
                    assert(kept[j] == before[j - 1]);
                    assert(comes_before(seen, before[j - 1] as int, t as int));
                    assert(is_candidate(seen, before[j - 1] as int));
                } else {
                    assert(at < before.len());
                    assert(comes_before(now, i, before[at] as int));
                    assert(comes_before(seen, before[at] as int, t as int));
                    assert(is_candidate(seen, before[at] as int));
                }
            }
        }
    }
}

/// Where two lists of first tokens agree up to a place that the one reaches, the other reaches it
/// too, with a token that does not come later.
proof fn no_earlier_departure(logits: Seq<u32>, a: Seq<u32>, b: Seq<u32>, limit: int, k: int)
    requires
        is_top(logits, a, limit),
        is_top(logits, b, limit),
        0 <= k < a.len(),
        k <= b.len(),
        forall|i: int| 0 <= i < k ==> #[trigger] a[i] == b[i],
    ensures
        k < b.len(),
        !comes_before(logits, a[k] as int, b[k] as int),
{
    assert(is_candidate(logits, a[k] as int));
    if b.contains(a[k]) {
        let j = choose|j: int| 0 <= j < b.len() && b[j] == a[k];
        if j < k {
            assert(a[j] == b[j]);
            assert(comes_before(logits, a[j] as int, a[k] as int));
        } else if j > k {
            assert(comes_before(logits, b[k] as int, b[j] as int));
        }
    } else if k < b.len() {
        assert(comes_before(logits, b[k] as int, a[k] as int));
    }
}

/// A row has one list of first tokens: two lists that both hold them are the same.
pub proof fn top_is_unique(logits: Seq<u32>, a: Seq<u32>, b: Seq<u32>, limit: int)
    requires
        is_top(logits, a, limit),
        is_top(logits, b, limit),
    ensures
        a == b,
{
    top_prefixes_agree(logits, a, b, limit, a.len() as int);
    if a.len() > b.len() {
        no_earlier_departure(logits, a, b, limit, b.len() as int);
    }
    if b.len() > a.len() {
        no_earlier_departure(logits, b, a, limit, a.len() as int);
    }
    assert(a =~= b);
}

/// Two lists of first tokens agree as far as both go.
proof fn top_prefixes_agree(logits: Seq<u32>, a: Seq<u32>, b: Seq<u32>, limit: int, k: int)
    requires
        is_top(logits, a, limit),
        is_top(logits, b, limit),
        0 <= k <= a.len(),
    ensures
        forall|i: int| 0 <= i < k && i < b.len() ==> #[trigger] a[i] == b[i],
    decreases k,
{
    if k > 0 {
        top_prefixes_agree(logits, a, b, limit, k - 1);
        if k - 1 < b.len() && a[k - 1] != b[k - 1] {
            if comes_before(logits, a[k - 1] as int, b[k - 1] as int) {
                no_earlier_departure(logits, a, b, limit, k - 1);
            } else {
                no_earlier_departure(logits, b, a, limit, k - 1);
            }
        }
    }
}

/// At most twenty tokens are kept, all with finite logits, no token twice. A token with a finite logit
/// is left out only behind twenty kept ones, none of which is smaller, and of equal logits the smaller
/// token is kept and stands first.
pub proof fn no_larger_logit_is_left_out(
    logits: &[u32],
    tokens: Vec<u32>,
    kept: int,
    later: int,
    other: u32,
)
    requires
        logits@.len() <= u32::MAX,
        call_ensures(top_candidates, (logits,), Ok(tokens)),
        0 <= kept < later < tokens@.len(),
        other < logits@.len(),
        f32_is_finite(logits@[other as int]),
        !tokens@.contains(other),
    ensures
        tokens@.len() == 20,
        tokens@[kept] < logits@.len() && f32_is_finite(logits@[tokens@[kept] as int]),
        tokens@[kept] != tokens@[later],
        ({
            let first = total_rank(logits@[tokens@[kept] as int]);
            let second = total_rank(logits@[tokens@[later] as int]);
            let third = total_rank(logits@[other as int]);
            &&& first >= second && second >= third
            &&& first == second ==> tokens@[kept] < tokens@[later]
            &&& second == third ==> tokens@[later] < other
        }),
{
    assert(is_candidate(logits@, other as int));
    assert(is_candidate(logits@, tokens@[kept] as int));
    assert(comes_before(logits@, tokens@[kept] as int, tokens@[later] as int));
    assert(comes_before(logits@, tokens@[later] as int, other as int));
}

/// No more than twenty are kept, and every finite one where there are fewer.
pub proof fn short_rows_are_kept_whole(logits: &[u32], tokens: Vec<u32>, other: u32)
    requires
        logits@.len() <= u32::MAX,
        call_ensures(top_candidates, (logits,), Ok(tokens)),
        other < logits@.len(),
        f32_is_finite(logits@[other as int]),
    ensures
        tokens@.len() <= 20,
        tokens@.len() < 20 ==> tokens@.contains(other),
{
    assert(is_candidate(logits@, other as int));
}

/// The rank grows with the value: among positive values with the bits, among negative ones against
/// them, every negative one below every positive one, and the negative zero right below the positive.
pub proof fn ranks_grow_with_the_value(a: u32, b: u32)
    ensures
        a < b < 0x8000_0000 ==> total_rank(a) < total_rank(b),
        0x8000_0000 <= a < b ==> total_rank(a) > total_rank(b),
        a >= 0x8000_0000 && b < 0x8000_0000 ==> total_rank(a) < total_rank(b),
        total_rank(0x8000_0000) + 1 == total_rank(0),
{
}

} // verus!
