//! Order statistics of samples.
use crate::number::distance;
use vstd::prelude::*;
use vstd::relations::{sorted_by, total_ordering};
use vstd::seq_lib::lemma_sorted_unique;

verus! {

/// An ascending list with one more sample in its place, behind its equals.
pub open spec fn placed(sorted: Seq<u64>, sample: u64) -> Seq<u64>
    decreases sorted.len(),
{
    if sorted.len() == 0 {
        seq![sample]
    } else if sorted.last() <= sample {
        sorted.push(sample)
    } else {
        placed(sorted.drop_last(), sample).push(sorted.last())
    }
}

/// The samples in ascending order.
pub open spec fn ascending(samples: Seq<u64>) -> Seq<u64>
    decreases samples.len(),
{
    if samples.len() == 0 {
        Seq::empty()
    } else {
        placed(ascending(samples.drop_last()), samples.last())
    }
}

/// Whether a list rises or stays level.
pub open spec fn is_ascending(samples: Seq<u64>) -> bool {
    forall|i: int, j: int| 0 <= i <= j < samples.len() ==> #[trigger] samples[i] <= #[trigger] samples[j]
}

proof fn placing_keeps_order(sorted: Seq<u64>, sample: u64)
    requires
        is_ascending(sorted),
    ensures
        is_ascending(placed(sorted, sample)),
        placed(sorted, sample).len() == sorted.len() + 1,
        placed(sorted, sample).to_multiset() == sorted.to_multiset().insert(sample),
        sorted.len() > 0 ==> placed(sorted, sample).last() == if sorted.last() <= sample {
            sample
        } else {
            sorted.last()
        },
    decreases sorted.len(),
{
    broadcast use vstd::seq_lib::group_to_multiset_ensures;

    if sorted.len() == 0 {
        assert(placed(sorted, sample) =~= sorted.push(sample));
    } else if sorted.last() > sample {
        let front = sorted.drop_last();
        placing_keeps_order(front, sample);
        let rest = placed(front, sample);
        assert(sorted =~= front.push(sorted.last()));
        assert forall|i: int| 0 <= i < rest.len() implies #[trigger] rest[i] <= sorted.last() by {
            assert(rest[i] <= rest.last());
            if front.len() == 0 {
                assert(rest =~= seq![sample]);
            } else {
                assert(front.last() == sorted[sorted.len() - 2]);
            }
        }
        assert(front.to_multiset().insert(sample).insert(sorted.last())
            =~= front.to_multiset().insert(sorted.last()).insert(sample));
    }
}

/// Sorting gives an ascending list of the very same samples.
pub proof fn ascending_is_a_sorted_permutation(samples: Seq<u64>)
    ensures
        is_ascending(ascending(samples)),
        ascending(samples).len() == samples.len(),
        ascending(samples).to_multiset() == samples.to_multiset(),
    decreases samples.len(),
{
    broadcast use vstd::seq_lib::group_to_multiset_ensures;

    if samples.len() > 0 {
        let front = samples.drop_last();
        ascending_is_a_sorted_permutation(front);
        placing_keeps_order(ascending(front), samples.last());
        assert(samples =~= front.push(samples.last()));
    } else {
        assert(samples =~= Seq::empty());
    }
}

/// The order in which samples were taken does not matter to any order statistic.
pub proof fn sample_order_is_irrelevant(a: Seq<u64>, b: Seq<u64>)
    requires
        a.to_multiset() == b.to_multiset(),
    ensures
        ascending(a) == ascending(b),
{
    ascending_is_a_sorted_permutation(a);
    ascending_is_a_sorted_permutation(b);
    let leq = |x: u64, y: u64| x <= y;
    assert(total_ordering(leq));
    assert(sorted_by(ascending(a), leq));
    assert(sorted_by(ascending(b), leq));
    lemma_sorted_unique(ascending(a), ascending(b), leq);
}

/// Sorts samples into ascending order.
pub fn sorted_samples(samples: &[u64]) -> (out: Vec<u64>)
    ensures
        out@ == ascending(samples@),
        out@.len() == samples@.len(),
{
    let mut sorted: Vec<u64> = Vec::new();
    for i in 0..samples.len()
        invariant
            sorted@ == ascending(samples@.take(i as int)),
            sorted@.len() == i,
    {
        let sample: u64 = samples[i];
        let ghost before = sorted@;
        let mut at: usize = sorted.len();
        assert(before.take(at as int) =~= before);
        assert(before.skip(at as int) =~= Seq::<u64>::empty());
        assert(placed(before, sample) + Seq::<u64>::empty() =~= placed(before, sample));
        while at > 0 && sorted[at - 1] > sample
            invariant
                at <= sorted@.len(),
                sorted@ == before,
                placed(before, sample) == placed(before.take(at as int), sample) + before.skip(
                    at as int,
                ),
            decreases at,
        {
            proof {
                let front = before.take(at as int);
                assert(front.last() == before[at - 1]);
                assert(front.drop_last() =~= before.take(at - 1));
                assert(placed(before.take(at - 1), sample).push(before[at - 1]) + before.skip(
                    at as int,
                ) =~= placed(before.take(at - 1), sample) + before.skip(at - 1));
            }
            at -= 1;
        }
        sorted.insert(at, sample);
        proof {
            let front = before.take(at as int);
            if at > 0 {
                assert(front.last() == before[at - 1]);
            }
            assert(placed(front, sample) =~= front.push(sample));
            assert(sorted@ =~= placed(before, sample));
            assert(samples@.take(i + 1).drop_last() =~= samples@.take(i as int));
        }
    }
    assert(samples@.take(samples.len() as int) =~= samples@);
    sorted
}

/// The middle of samples: the upper one of two.
pub open spec fn upper_median(samples: Seq<u64>) -> Option<u64> {
    if samples.len() == 0 {
        None
    } else {
        Some(ascending(samples)[samples.len() as int / 2])
    }
}

/// The middle of samples: the upper one of two.
pub fn median(values: &[u64]) -> (out: Option<u64>)
    ensures
        out == upper_median(values@),
{
    if values.len() == 0 {
        return None;
    }
    let sorted = sorted_samples(values);
    Some(sorted[sorted.len() / 2])
}

/// The distances of samples from a middle.
pub open spec fn deviations(samples: Seq<u64>, middle: u64) -> Seq<u64> {
    Seq::new(samples.len(), |i: int| distance(samples[i] as int, middle as int) as u64)
}

/// The middle of samples, and the middle of their distances from it.
pub fn median_mad(values: &[u64]) -> (out: (Option<u64>, Option<u64>))
    ensures
        out.0 == upper_median(values@),
        out.1 == match upper_median(values@) {
            None => None,
            Some(middle) => upper_median(deviations(values@, middle)),
        },
{
    let middle: u64 = match median(values) {
        None => {
            return (None, None);
        },
        Some(middle) => middle,
    };
    let ghost all = deviations(values@, middle);
    let mut found: Vec<u64> = Vec::new();
    for i in 0..values.len()
        invariant
            all == deviations(values@, middle),
            found@ == all.take(i as int),
    {
        let value: u64 = values[i];
        found.push(if value >= middle { value - middle } else { middle - value });
        assert(all.take(i + 1) =~= all.take(i as int).push(all[i as int]));
    }
    assert(all.take(values.len() as int) =~= all);
    (Some(middle), median(found.as_slice()))
}

/// The middle of samples is one that stands half way up when they are put in order, the upper one of
/// two; only without samples there is none.
pub proof fn the_median_stands_half_way_up(
    values: &[u64],
    out: Option<u64>,
    pair: (Option<u64>, Option<u64>),
)
    requires
        call_ensures(median, (values,), out),
        call_ensures(median_mad, (values,), pair),
    ensures
        pair.0 == out,
        out is None <==> values@.len() == 0,
        pair.1 is None <==> values@.len() == 0,
        out matches Some(middle) ==> exists|sorted: Seq<u64>| #[trigger]
            is_ascending(sorted) && sorted.to_multiset() == values@.to_multiset() && sorted.len()
                == values@.len() && middle == sorted[values@.len() as int / 2],
        out matches Some(middle) ==> exists|sorted: Seq<u64>, apart: Seq<u64>|
            #![trigger is_ascending(sorted), apart.to_multiset()]
            {
                &&& apart.len() == values@.len()
                &&& forall|i: int|
                    0 <= i < apart.len() ==> #[trigger] apart[i] == if values@[i] >= middle {
                        values@[i] - middle
                    } else {
                        middle - values@[i]
                    }
                &&& is_ascending(sorted)
                &&& sorted.to_multiset() == apart.to_multiset()
                &&& pair.1 == Some(sorted[values@.len() as int / 2])
            },
{
    ascending_is_a_sorted_permutation(values@);
    if out is Some {
        let middle = out->Some_0;
        let apart = deviations(values@, middle);
        ascending_is_a_sorted_permutation(apart);
        assert(is_ascending(ascending(values@)));
        assert(is_ascending(ascending(apart)) && ascending(apart).to_multiset()
            == apart.to_multiset());
    }
}

} // verus!
