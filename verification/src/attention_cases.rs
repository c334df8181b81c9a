//! The cases of the causal attention evidence run.
use crate::text::{begins_with, decimal, same_text};
use vstd::prelude::*;

verus! {

/// A case: how many query rows there are, and how many tokens stand before them.
#[derive(Clone, Copy, Debug)]
pub struct Case {
    pub id: &'static str,
    pub m: usize,
    pub start_position: u64,
}

/// A case.
pub open spec fn case_of(id: &'static str, m: usize, start_position: u64) -> Case {
    Case { id, m, start_position }
}

pub(crate) fn make_case(id: &'static str, m: usize, start_position: u64) -> (out: Case)
    ensures
        out == case_of(id, m, start_position),
{
    Case { id, m, start_position }
}

/// Prefill row boundaries and decode prefixes.
pub open spec fn boundary_cases() -> Seq<Case> {
    seq![
        case_of("prefill-m1", 1, 0),
        case_of("prefill-m3", 3, 0),
        case_of("prefill-m17", 17, 0),
        case_of("prefill-m37", 37, 0),
        case_of("prefill-m63", 63, 0),
        case_of("prefill-m64", 64, 0),
        case_of("prefill-m65", 65, 0),
        case_of("prefill-m64-start3", 64, 3),
        case_of("prefill-m127", 127, 0),
        case_of("prefill-m128", 128, 0),
        case_of("prefill-m129", 129, 0),
        case_of("prefill-m255", 255, 0),
        case_of("prefill-m256", 256, 0),
        case_of("prefill-m257", 257, 0),
        case_of("decode-prefix3", 1, 3),
        case_of("decode-prefix255", 1, 255),
        case_of("decode-prefix256", 1, 256),
        case_of("decode-prefix257", 1, 257),
        case_of("decode-kv1023", 1, 1022),
        case_of("decode-kv1024", 1, 1023),
        case_of("decode-kv1025", 1, 1024),
        case_of("decode-long-kv8193", 1, 8192),
        case_of("decode-mixed-kv4097", 1, 4096),
        case_of("special-query-nan", 1, 0),
        case_of("special-value-pos-inf", 1, 0),
        case_of("special-decode1024-query-nan", 1, 1023),
        case_of("special-decode1024-value-pos-inf", 1, 1023),
        case_of("special-prefill64-query-nan", 64, 0),
        case_of("special-prefill64-value-pos-inf", 64, 0),
    ]
}

/// Prefill row boundaries and decode prefixes.
pub fn cases() -> (out: Vec<Case>)
    ensures
        out@ == boundary_cases(),
{
    let mut cases: Vec<Case> = Vec::new();
    cases.push(make_case("prefill-m1", 1, 0));
    cases.push(make_case("prefill-m3", 3, 0));
    cases.push(make_case("prefill-m17", 17, 0));
    cases.push(make_case("prefill-m37", 37, 0));
    cases.push(make_case("prefill-m63", 63, 0));
    cases.push(make_case("prefill-m64", 64, 0));
    cases.push(make_case("prefill-m65", 65, 0));
    cases.push(make_case("prefill-m64-start3", 64, 3));
    cases.push(make_case("prefill-m127", 127, 0));
    cases.push(make_case("prefill-m128", 128, 0));
    cases.push(make_case("prefill-m129", 129, 0));
    cases.push(make_case("prefill-m255", 255, 0));
    cases.push(make_case("prefill-m256", 256, 0));
    cases.push(make_case("prefill-m257", 257, 0));
    cases.push(make_case("decode-prefix3", 1, 3));
    cases.push(make_case("decode-prefix255", 1, 255));
    cases.push(make_case("decode-prefix256", 1, 256));
    cases.push(make_case("decode-prefix257", 1, 257));
    cases.push(make_case("decode-kv1023", 1, 1022));
    cases.push(make_case("decode-kv1024", 1, 1023));
    cases.push(make_case("decode-kv1025", 1, 1024));
    cases.push(make_case("decode-long-kv8193", 1, 8192));
    cases.push(make_case("decode-mixed-kv4097", 1, 4096));
    cases.push(make_case("special-query-nan", 1, 0));
    cases.push(make_case("special-value-pos-inf", 1, 0));
    cases.push(make_case("special-decode1024-query-nan", 1, 1023));
    cases.push(make_case("special-decode1024-value-pos-inf", 1, 1023));
    cases.push(make_case("special-prefill64-query-nan", 64, 0));
    cases.push(make_case("special-prefill64-value-pos-inf", 64, 0));
    assert(cases@ =~= boundary_cases());
    cases
}

/// The matrix of the first evidence run.
pub open spec fn phase12_case_list() -> Seq<Case> {
    seq![
        case_of("prefill-m1", 1, 0),
        case_of("prefill-m3", 3, 0),
        case_of("prefill-m17", 17, 0),
        case_of("prefill-m37", 37, 0),
        case_of("prefill-m255", 255, 0),
        case_of("prefill-m256", 256, 0),
        case_of("prefill-m257", 257, 0),
        case_of("decode-prefix3", 1, 3),
        case_of("decode-prefix255", 1, 255),
        case_of("decode-prefix256", 1, 256),
        case_of("decode-prefix257", 1, 257),
        case_of("decode-kv1023", 1, 1022),
        case_of("decode-kv1024", 1, 1023),
        case_of("decode-kv1025", 1, 1024),
        case_of("special-query-nan", 1, 0),
        case_of("special-value-pos-inf", 1, 0),
    ]
}

/// The matrix of the first evidence run.
pub fn phase12_cases() -> (out: Vec<Case>)
    ensures
        out@ == phase12_case_list(),
{
    let mut cases: Vec<Case> = Vec::new();
    cases.push(make_case("prefill-m1", 1, 0));
    cases.push(make_case("prefill-m3", 3, 0));
    cases.push(make_case("prefill-m17", 17, 0));
    cases.push(make_case("prefill-m37", 37, 0));
    cases.push(make_case("prefill-m255", 255, 0));
    cases.push(make_case("prefill-m256", 256, 0));
    cases.push(make_case("prefill-m257", 257, 0));
    cases.push(make_case("decode-prefix3", 1, 3));
    cases.push(make_case("decode-prefix255", 1, 255));
    cases.push(make_case("decode-prefix256", 1, 256));
    cases.push(make_case("decode-prefix257", 1, 257));
    cases.push(make_case("decode-kv1023", 1, 1022));
    cases.push(make_case("decode-kv1024", 1, 1023));
    cases.push(make_case("decode-kv1025", 1, 1024));
    cases.push(make_case("special-query-nan", 1, 0));
    cases.push(make_case("special-value-pos-inf", 1, 0));
    assert(cases@ =~= phase12_case_list());
    cases
}

/// Rows around the prefill provider boundaries, long rows and long decodes.
pub open spec fn operator_case_list() -> Seq<Case> {
    seq![
        case_of("prefill-m127", 127, 0),
        case_of("prefill-m128", 128, 0),
        case_of("prefill-m129", 129, 0),
        case_of("prefill-m255", 255, 0),
        case_of("prefill-m256", 256, 0),
        case_of("prefill-m257", 257, 0),
        case_of("prefill-m1024", 1024, 0),
        case_of("prefill-m1023", 1023, 0),
        case_of("prefill-m1025", 1025, 0),
        case_of("prefill-m4096", 4096, 0),
        case_of("prefill-m10001", 10001, 0),
        case_of("prefill-m1024-start257", 1024, 257),
        case_of("special-prefill1024-query-nan", 1024, 0),
        case_of("special-prefill1024-value-pos-inf", 1024, 0),
        case_of("special-prefill1024-value-pos-neg-inf", 1024, 0),
        case_of("special-prefill1024-value-nan-pos-inf", 1024, 0),
        case_of("decode-kv1023-operator", 1, 1022),
        case_of("decode-kv1024-operator", 1, 1023),
        case_of("decode-kv1025-operator", 1, 1024),
        case_of("decode-kv4096-operator", 1, 4095),
        case_of("decode-kv8192-operator", 1, 8191),
        case_of("decode-kv16384-operator", 1, 16383),
    ]
}

/// Rows around the prefill provider boundaries, long rows and long decodes.
pub fn phase49_operator_cases() -> (out: Vec<Case>)
    ensures
        out@ == operator_case_list(),
{
    let mut cases: Vec<Case> = Vec::new();
    cases.push(make_case("prefill-m127", 127, 0));
    cases.push(make_case("prefill-m128", 128, 0));
    cases.push(make_case("prefill-m129", 129, 0));
    cases.push(make_case("prefill-m255", 255, 0));
    cases.push(make_case("prefill-m256", 256, 0));
    cases.push(make_case("prefill-m257", 257, 0));
    cases.push(make_case("prefill-m1024", 1024, 0));
    cases.push(make_case("prefill-m1023", 1023, 0));
    cases.push(make_case("prefill-m1025", 1025, 0));
    cases.push(make_case("prefill-m4096", 4096, 0));
    cases.push(make_case("prefill-m10001", 10001, 0));
    cases.push(make_case("prefill-m1024-start257", 1024, 257));
    cases.push(make_case("special-prefill1024-query-nan", 1024, 0));
    cases.push(make_case("special-prefill1024-value-pos-inf", 1024, 0));
    cases.push(make_case("special-prefill1024-value-pos-neg-inf", 1024, 0));
    cases.push(make_case("special-prefill1024-value-nan-pos-inf", 1024, 0));
    cases.push(make_case("decode-kv1023-operator", 1, 1022));
    cases.push(make_case("decode-kv1024-operator", 1, 1023));
    cases.push(make_case("decode-kv1025-operator", 1, 1024));
    cases.push(make_case("decode-kv4096-operator", 1, 4095));
    cases.push(make_case("decode-kv8192-operator", 1, 8191));
    cases.push(make_case("decode-kv16384-operator", 1, 16383));
    assert(cases@ =~= operator_case_list());
    cases
}

/// Decodes on both sides of the short decode gate.
pub open spec fn short_decode_case_list() -> Seq<Case> {
    seq![
        case_of("decode-kv31-short", 1, 30),
        case_of("decode-kv32-short", 1, 31),
        case_of("decode-kv33-short", 1, 32),
        case_of("decode-kv128-short", 1, 127),
        case_of("decode-kv287-short", 1, 286),
        case_of("decode-kv1023-short", 1, 1022),
    ]
}

/// Decodes on both sides of the short decode gate.
pub fn phase49_short_decode_cases() -> (out: Vec<Case>)
    ensures
        out@ == short_decode_case_list(),
{
    let mut cases: Vec<Case> = Vec::new();
    cases.push(make_case("decode-kv31-short", 1, 30));
    cases.push(make_case("decode-kv32-short", 1, 31));
    cases.push(make_case("decode-kv33-short", 1, 32));
    cases.push(make_case("decode-kv128-short", 1, 127));
    cases.push(make_case("decode-kv287-short", 1, 286));
    cases.push(make_case("decode-kv1023-short", 1, 1022));
    assert(cases@ =~= short_decode_case_list());
    cases
}

/// The decodes among the operator cases stand behind its prefills.
pub const OPERATOR_DECODES: usize = 16;

/// The cases that a run selects.
pub open spec fn selection(
    phase12_subset: bool,
    phase49_operator: bool,
    phase49_decode_operator: bool,
    phase49_decode_short: bool,
) -> Seq<Case> {
    if phase49_decode_short {
        short_decode_case_list()
    } else if phase49_decode_operator {
        operator_case_list().skip(OPERATOR_DECODES as int)
    } else if phase49_operator {
        operator_case_list()
    } else if phase12_subset {
        phase12_case_list()
    } else {
        boundary_cases()
    }
}

/// The cases that a run selects.
pub fn selected_cases(
    phase12_subset: bool,
    phase49_operator: bool,
    phase49_decode_operator: bool,
    phase49_decode_short: bool,
) -> (out: Vec<Case>)
    ensures
        out@ == selection(
            phase12_subset,
            phase49_operator,
            phase49_decode_operator,
            phase49_decode_short,
        ),
{
    if phase49_decode_short {
        phase49_short_decode_cases()
    } else if phase49_decode_operator {
        let all = phase49_operator_cases();
        let mut decodes: Vec<Case> = Vec::new();
        for i in OPERATOR_DECODES..all.len()
            invariant
                all@ == operator_case_list(),
                decodes@ == all@.subrange(OPERATOR_DECODES as int, i as int),
                OPERATOR_DECODES <= all@.len(),
        {
            decodes.push(all[i]);
            assert(all@.subrange(OPERATOR_DECODES as int, i + 1) =~= all@.subrange(
                OPERATOR_DECODES as int,
                i as int,
            ).push(all@[i as int]));
        }
        assert(decodes@ =~= operator_case_list().skip(OPERATOR_DECODES as int));
        decodes
    } else if phase49_operator {
        phase49_operator_cases()
    } else if phase12_subset {
        phase12_cases()
    } else {
        cases()
    }
}

/// Whether a target has the providers that the RDNA targets share.
pub open spec fn is_rdna(target: Seq<char>) -> bool {
    target == "gfx1030"@ || target == "gfx1201"@
}

/// Whether a target has the providers that the RDNA targets share.
pub fn is_phase33_common_target(target: &str) -> (out: bool)
    ensures
        out == is_rdna(target@),
{
    same_text(target, "gfx1030") || same_text(target, "gfx1201")
}

/// The rows of a long prefill that are checked one by one: the first, the middle and the last,
/// and those around the provider boundary.
pub open spec fn is_oracle_row(m: int, row: int) -> bool {
    &&& 0 <= row < m
    &&& (row == 0 || row == m / 2 || row == m - 1 || 255 <= row <= 257)
}

/// Whether numbers rise.
pub open spec fn rises(rows: Seq<usize>) -> bool {
    forall|i: int, j: int| 0 <= i < j < rows.len() ==> #[trigger] rows[i] < #[trigger] rows[j]
}

fn insert_row(rows: &mut Vec<usize>, row: usize)
    requires
        rises(old(rows)@),
    ensures
        rises(final(rows)@),
        forall|r: usize| final(rows)@.contains(r) <==> old(rows)@.contains(r) || r == row,
        final(rows)@.len() <= old(rows)@.len() + 1,
{
    let mut at: usize = 0;
    while at < rows.len() && rows[at] < row
        invariant
            at <= rows@.len(),
            *rows == *old(rows),
            forall|j: int| 0 <= j < at ==> #[trigger] rows@[j] < row,
        decreases rows@.len() - at,
    {
        at += 1;
    }
    if at < rows.len() && rows[at] == row {
        assert(rows@[at as int] == row);
        return ;
    }
    let ghost before = rows@;
    rows.insert(at, row);
    proof {
        let after = before.insert(at as int, row);
        assert(rows@ =~= after);
        assert forall|i: int, j: int| 0 <= i < j < after.len() implies #[trigger] after[i]
            < #[trigger] after[j] by {
            let a = if i < at {
                i
            } else {
                i - 1
            };
            let b = if j < at {
                j
            } else {
                j - 1
            };
            if i != at {
                assert(after[i] == before[a]);
            }
            if j != at {
                assert(after[j] == before[b]);
            }
            if i == at && at < before.len() {
                assert(row < before[at as int]);
                if b > at {
                    assert(before[at as int] < before[b]);
                }
            }
        }
        assert forall|r: usize| after.contains(r) <==> before.contains(r) || r == row by {
            if before.contains(r) {
                let p = choose|p: int| 0 <= p < before.len() && before[p] == r;
                if p < at {
                    assert(after[p] == r);
                } else {
                    assert(after[p + 1] == r);
                }
            }
            if r == row {
                assert(after[at as int] == row);
            }
            if after.contains(r) && r != row {
                let p = choose|p: int| 0 <= p < after.len() && after[p] == r;
                if p < at {
                    assert(before[p] == r);
                } else {
                    assert(before[p - 1] == r);
                }
            }
        }
    }
}

/// The rows of a prefill that are checked one by one, each once and in order.
pub fn phase49_oracle_rows(m: usize) -> (out: Vec<usize>)
    requires
        m > 0,
    ensures
        rises(out@),
        forall|row: usize| #[trigger]
            out@.contains(row) <==> is_oracle_row(m as int, row as int),
        out@.len() <= 6,
{
    let mut rows: Vec<usize> = Vec::new();
    insert_row(&mut rows, 0);
    insert_row(&mut rows, m / 2);
    insert_row(&mut rows, m - 1);
    if 255 < m {
        insert_row(&mut rows, 255);
    }
    if 256 < m {
        insert_row(&mut rows, 256);
    }
    if 257 < m {
        insert_row(&mut rows, 257);
    }
    rows
}

/// A case's name tells its shape: the rows of a prefill and where it starts, the tokens before a decode
/// or those that it ends with.
pub proof fn names_tell_the_shape(list: Vec<Case>, at: int)
    requires
        call_ensures(cases, (), list),
        0 <= at < list@.len(),
    ensures
        ({
            let case = list@[at];
            let (id, m, start) = (case.id@, case.m as nat, case.start_position as nat);
            &&& begins_with(id, "prefill-m"@) && start == 0 ==> id == "prefill-m"@ + decimal(m)
            &&& begins_with(id, "prefill-m"@) && start > 0 ==> id == "prefill-m"@ + decimal(m)
                + "-start"@ + decimal(start)
            &&& begins_with(id, "decode-prefix"@) ==> m == 1 && id == "decode-prefix"@ + decimal(
                start,
            )
            &&& begins_with(id, "decode-kv"@) ==> m == 1 && id == "decode-kv"@ + decimal(start + 1)
        }),
{
    boundary_names();
    let id = list@[at].id@;
    reveal_strlit("prefill-m");
    reveal_strlit("decode-prefix");
    reveal_strlit("decode-kv");
    reveal_strlit("decode-long-kv8193");
    reveal_strlit("decode-mixed-kv4097");
    reveal_strlit("special-query-nan");
    reveal_strlit("special-value-pos-inf");
    reveal_strlit("special-decode1024-query-nan");
    reveal_strlit("special-decode1024-value-pos-inf");
    reveal_strlit("special-prefill64-query-nan");
    reveal_strlit("special-prefill64-value-pos-inf");
    if begins_with(id, "prefill-m"@) {
        assert(id.take(9)[0] == id[0]);
        assert("prefill-m"@[0] == 'p');
    }
    if begins_with(id, "decode-prefix"@) {
        assert(id.take(13)[0] == id[0] && id.take(13)[7] == id[7]);
        assert("decode-prefix"@[0] == 'd' && "decode-prefix"@[7] == 'p');
    }
    if begins_with(id, "decode-kv"@) {
        assert(id.take(9)[0] == id[0] && id.take(9)[7] == id[7]);
        assert("decode-kv"@[0] == 'd' && "decode-kv"@[7] == 'k');
    }
    if 14 <= at <= 17 {
        assert(("decode-prefix"@ + decimal(list@[at].start_position as nat))[7] == 'p');
        assert(("decode-prefix"@ + decimal(list@[at].start_position as nat))[0] == 'd');
    }
    if 18 <= at <= 20 {
        assert(("decode-kv"@ + decimal((list@[at].start_position + 1) as nat))[7] == 'k');
        assert(("decode-kv"@ + decimal((list@[at].start_position + 1) as nat))[0] == 'd');
    }
    if at <= 13 {
        assert(id[0] == 'p') by {
            assert(("prefill-m"@ + decimal(list@[at].m as nat))[0] == 'p');
            assert(("prefill-m"@ + decimal(list@[at].m as nat) + "-start"@ + decimal(
                list@[at].start_position as nat,
            ))[0] == 'p');
        }
    }
}

proof fn boundary_names()
    ensures
        "prefill-m1"@ == "prefill-m"@ + decimal(1),
        "prefill-m3"@ == "prefill-m"@ + decimal(3),
        "prefill-m17"@ == "prefill-m"@ + decimal(17),
        "prefill-m37"@ == "prefill-m"@ + decimal(37),
        "prefill-m63"@ == "prefill-m"@ + decimal(63),
        "prefill-m64"@ == "prefill-m"@ + decimal(64),
        "prefill-m65"@ == "prefill-m"@ + decimal(65),
        "prefill-m64-start3"@ == "prefill-m"@ + decimal(64) + "-start"@ + decimal(3),
        "prefill-m127"@ == "prefill-m"@ + decimal(127),
        "prefill-m128"@ == "prefill-m"@ + decimal(128),
        "prefill-m129"@ == "prefill-m"@ + decimal(129),
        "prefill-m255"@ == "prefill-m"@ + decimal(255),
        "prefill-m256"@ == "prefill-m"@ + decimal(256),
        "prefill-m257"@ == "prefill-m"@ + decimal(257),
        "decode-prefix3"@ == "decode-prefix"@ + decimal(3),
        "decode-prefix255"@ == "decode-prefix"@ + decimal(255),
        "decode-prefix256"@ == "decode-prefix"@ + decimal(256),
        "decode-prefix257"@ == "decode-prefix"@ + decimal(257),
        "decode-kv1023"@ == "decode-kv"@ + decimal(1023),
        "decode-kv1024"@ == "decode-kv"@ + decimal(1024),
        "decode-kv1025"@ == "decode-kv"@ + decimal(1025),
{
    assert("prefill-m1"@ == "prefill-m"@ + decimal(1)) by {
        reveal_strlit("prefill-m1");
        reveal_strlit("prefill-m");
        reveal_with_fuel(decimal, 5);
        assert("prefill-m1"@ =~= "prefill-m"@ + decimal(1));
    }
    assert("prefill-m3"@ == "prefill-m"@ + decimal(3)) by {
        reveal_strlit("prefill-m3");
        reveal_strlit("prefill-m");
        reveal_with_fuel(decimal, 5);
        assert("prefill-m3"@ =~= "prefill-m"@ + decimal(3));
    }
    assert("prefill-m17"@ == "prefill-m"@ + decimal(17)) by {
        reveal_strlit("prefill-m17");
        reveal_strlit("prefill-m");
        reveal_with_fuel(decimal, 5);
        assert("prefill-m17"@ =~= "prefill-m"@ + decimal(17));
    }
    assert("prefill-m37"@ == "prefill-m"@ + decimal(37)) by {
        reveal_strlit("prefill-m37");
        reveal_strlit("prefill-m");
        reveal_with_fuel(decimal, 5);
        assert("prefill-m37"@ =~= "prefill-m"@ + decimal(37));
    }
    assert("prefill-m63"@ == "prefill-m"@ + decimal(63)) by {
        reveal_strlit("prefill-m63");
        reveal_strlit("prefill-m");
        reveal_with_fuel(decimal, 5);
        assert("prefill-m63"@ =~= "prefill-m"@ + decimal(63));
    }
    assert("prefill-m64"@ == "prefill-m"@ + decimal(64)) by {
        reveal_strlit("prefill-m64");
        reveal_strlit("prefill-m");
        reveal_with_fuel(decimal, 5);
        assert("prefill-m64"@ =~= "prefill-m"@ + decimal(64));
    }
    assert("prefill-m65"@ == "prefill-m"@ + decimal(65)) by {
        reveal_strlit("prefill-m65");
        reveal_strlit("prefill-m");
        reveal_with_fuel(decimal, 5);
        assert("prefill-m65"@ =~= "prefill-m"@ + decimal(65));
    }
    assert("prefill-m64-start3"@ == "prefill-m"@ + decimal(64) + "-start"@ + decimal(3)) by {
        reveal_strlit("prefill-m64-start3");
        reveal_strlit("prefill-m");
        reveal_strlit("-start");
        reveal_with_fuel(decimal, 5);
        assert("prefill-m64-start3"@ =~= "prefill-m"@ + decimal(64) + "-start"@ + decimal(3));
    }
    assert("prefill-m127"@ == "prefill-m"@ + decimal(127)) by {
        reveal_strlit("prefill-m127");
        reveal_strlit("prefill-m");
        reveal_with_fuel(decimal, 5);
        assert("prefill-m127"@ =~= "prefill-m"@ + decimal(127));
    }
    assert("prefill-m128"@ == "prefill-m"@ + decimal(128)) by {
        reveal_strlit("prefill-m128");
        reveal_strlit("prefill-m");
        reveal_with_fuel(decimal, 5);
        assert("prefill-m128"@ =~= "prefill-m"@ + decimal(128));
    }
    assert("prefill-m129"@ == "prefill-m"@ + decimal(129)) by {
        reveal_strlit("prefill-m129");
        reveal_strlit("prefill-m");
        reveal_with_fuel(decimal, 5);
        assert("prefill-m129"@ =~= "prefill-m"@ + decimal(129));
    }
    assert("prefill-m255"@ == "prefill-m"@ + decimal(255)) by {
        reveal_strlit("prefill-m255");
        reveal_strlit("prefill-m");
        reveal_with_fuel(decimal, 5);
        assert("prefill-m255"@ =~= "prefill-m"@ + decimal(255));
    }
    assert("prefill-m256"@ == "prefill-m"@ + decimal(256)) by {
        reveal_strlit("prefill-m256");
        reveal_strlit("prefill-m");
        reveal_with_fuel(decimal, 5);
        assert("prefill-m256"@ =~= "prefill-m"@ + decimal(256));
    }
    assert("prefill-m257"@ == "prefill-m"@ + decimal(257)) by {
        reveal_strlit("prefill-m257");
        reveal_strlit("prefill-m");
        reveal_with_fuel(decimal, 5);
        assert("prefill-m257"@ =~= "prefill-m"@ + decimal(257));
    }
    assert("decode-prefix3"@ == "decode-prefix"@ + decimal(3)) by {
        reveal_strlit("decode-prefix3");
        reveal_strlit("decode-prefix");
        reveal_with_fuel(decimal, 5);
        assert("decode-prefix3"@ =~= "decode-prefix"@ + decimal(3));
    }
    assert("decode-prefix255"@ == "decode-prefix"@ + decimal(255)) by {
        reveal_strlit("decode-prefix255");
        reveal_strlit("decode-prefix");
        reveal_with_fuel(decimal, 5);
        assert("decode-prefix255"@ =~= "decode-prefix"@ + decimal(255));
    }
    assert("decode-prefix256"@ == "decode-prefix"@ + decimal(256)) by {
        reveal_strlit("decode-prefix256");
        reveal_strlit("decode-prefix");
        reveal_with_fuel(decimal, 5);
        assert("decode-prefix256"@ =~= "decode-prefix"@ + decimal(256));
    }
    assert("decode-prefix257"@ == "decode-prefix"@ + decimal(257)) by {
        reveal_strlit("decode-prefix257");
        reveal_strlit("decode-prefix");
        reveal_with_fuel(decimal, 5);
        assert("decode-prefix257"@ =~= "decode-prefix"@ + decimal(257));
    }
    assert("decode-kv1023"@ == "decode-kv"@ + decimal(1023)) by {
        reveal_strlit("decode-kv1023");
        reveal_strlit("decode-kv");
        reveal_with_fuel(decimal, 5);
        assert("decode-kv1023"@ =~= "decode-kv"@ + decimal(1023));
    }
    assert("decode-kv1024"@ == "decode-kv"@ + decimal(1024)) by {
        reveal_strlit("decode-kv1024");
        reveal_strlit("decode-kv");
        reveal_with_fuel(decimal, 5);
        assert("decode-kv1024"@ =~= "decode-kv"@ + decimal(1024));
    }
    assert("decode-kv1025"@ == "decode-kv"@ + decimal(1025)) by {
        reveal_strlit("decode-kv1025");
        reveal_strlit("decode-kv");
        reveal_with_fuel(decimal, 5);
        assert("decode-kv1025"@ =~= "decode-kv"@ + decimal(1025));
    }
}

/// Cases lie on both sides of every number of rows and of tokens at which a provider takes over, and at
/// long contexts on either side of a power of two; the first matrix is part of the whole one.
pub proof fn cases_lie_on_both_sides_of_every_gate(list: Vec<Case>, subset: Vec<Case>, at: int)
    requires
        call_ensures(cases, (), list),
        call_ensures(phase12_cases, (), subset),
        0 <= at < subset@.len(),
    ensures
        subset@.len() == 16,
        list@.contains(subset@[at]),
        forall|gate: int, side: int|
            (gate == 64 || gate == 128 || gate == 256) && -1 <= side <= 1 ==> exists|i: int|
                0 <= i < list@.len() && (#[trigger] list@[i]).m == #[trigger] (gate + side)
                    && list@[i].start_position == 0,
        forall|side: int|
            -1 <= side <= 1 ==> exists|i: int|
                0 <= i < list@.len() && (#[trigger] list@[i]).m == 1 && list@[i].start_position + 1
                    == #[trigger] (1024 + side),
{
    let place = if at < 4 {
        at
    } else if at < 14 {
        at + 7
    } else {
        at + 9
    };
    assert(list@[place] == subset@[at]);
    assert forall|gate: int, side: int|
        (gate == 64 || gate == 128 || gate == 256) && -1 <= side <= 1 implies exists|i: int|
        0 <= i < list@.len() && (#[trigger] list@[i]).m == #[trigger] (gate + side)
            && list@[i].start_position == 0 by {
        let i = if gate == 64 {
            5 + side
        } else if gate == 128 {
            9 + side
        } else {
            12 + side
        };
        assert(list@[i].m == gate + side);
    }
    assert forall|side: int| -1 <= side <= 1 implies exists|i: int|
        0 <= i < list@.len() && (#[trigger] list@[i]).m == 1 && list@[i].start_position + 1
            == #[trigger] (1024 + side) by {
        assert(list@[19 + side].m == 1);
    }
}

/// One matrix is selected at a time: short decodes go before the decodes of the operator run, these
/// before all of that run, and that before the first matrix. The decodes of the operator run are its
/// cases of one row.
pub proof fn one_matrix_is_selected(
    subset: bool,
    operator: bool,
    decode: bool,
    short: bool,
    selected: Vec<Case>,
    all_operator: Vec<Case>,
    all_short: Vec<Case>,
    all_subset: Vec<Case>,
    all: Vec<Case>,
    at: int,
)
    requires
        call_ensures(selected_cases, (subset, operator, decode, short), selected),
        call_ensures(phase49_operator_cases, (), all_operator),
        call_ensures(phase49_short_decode_cases, (), all_short),
        call_ensures(phase12_cases, (), all_subset),
        call_ensures(cases, (), all),
    ensures
        short ==> selected@ == all_short@,
        !short && !decode && operator ==> selected@ == all_operator@,
        !short && !decode && !operator && subset ==> selected@ == all_subset@,
        !short && !decode && !operator && !subset ==> selected@ == all@,
        !short && decode && 0 <= at < all_operator@.len() && all_operator@[at].m == 1
            ==> selected@.contains(all_operator@[at]),
        !short && decode && 0 <= at < selected@.len() ==> all_operator@.contains(selected@[at])
            && selected@[at].m == 1,
{
    if !short && decode {
        if 0 <= at < all_operator@.len() && all_operator@[at].m == 1 {
            assert(at >= 16);
            assert(selected@[at - 16] == all_operator@[at]);
        }
        if 0 <= at < selected@.len() {
            assert(all_operator@[at + 16] == selected@[at]);
        }
    }
}

/// The rows of a long prefill that are compared are its first, its middle and its last, and those
/// around the end of the first page, each once and in order.
pub proof fn compared_rows_reach_from_first_to_last(m: usize, rows: Vec<usize>)
    requires
        m > 0,
        call_ensures(phase49_oracle_rows, (m,), rows),
    ensures
        rows@.contains(0) && rows@.contains((m / 2) as usize) && rows@.contains((m - 1) as usize),
        m > 255 ==> rows@.contains(255),
        m > 256 ==> rows@.contains(256),
        m > 257 ==> rows@.contains(257),
        forall|i: int| 0 <= i < rows@.len() ==> #[trigger] rows@[i] < m,
        forall|i: int, j: int|
            0 <= i < j < rows@.len() ==> #[trigger] rows@[i] < #[trigger] rows@[j],
        rows@.len() <= 6,
{
    let middle: usize = (m / 2) as usize;
    let last: usize = (m - 1) as usize;
    assert(rows@.contains(0usize) <==> is_oracle_row(m as int, 0usize as int));
    assert(rows@.contains(middle) <==> is_oracle_row(m as int, middle as int));
    assert(rows@.contains(last) <==> is_oracle_row(m as int, last as int));
    assert(rows@.contains(255usize) <==> is_oracle_row(m as int, 255usize as int));
    assert(rows@.contains(256usize) <==> is_oracle_row(m as int, 256usize as int));
    assert(rows@.contains(257usize) <==> is_oracle_row(m as int, 257usize as int));
    assert forall|i: int| 0 <= i < rows@.len() implies #[trigger] rows@[i] < m by {
        let row: usize = rows@[i];
        assert(rows@.contains(row) <==> is_oracle_row(m as int, row as int));
    }
}

} // verus!
