//! The transfer run: what is written to a device buffer must be read back byte for byte.
use crate::attention_inputs::code_is_the_rest;
use crate::bytes::same_items;
use crate::text::{append_decimal, decimal};
use vstd::prelude::*;
use vstd::string::StringExecFns;

verus! {

broadcast use vstd::string::group_string_axioms;

/// The most bytes that a transfer may move.
pub const MAX_TRANSFER_BYTES: u64 = 1_073_741_824;

/// Refuses a device that moves another number of bytes at most.
pub fn check_transfer_limit(max_transfer_bytes: u64) -> (out: Result<(), String>)
    ensures
        if max_transfer_bytes == MAX_TRANSFER_BYTES {
            out is Ok
        } else {
            &&& out is Err
            &&& out->Err_0@ == "HIP transfer capability differs from the public 1 GiB ABI"@
        },
{
    if max_transfer_bytes == MAX_TRANSFER_BYTES {
        Ok(())
    } else {
        Err("HIP transfer capability differs from the public 1 GiB ABI".to_owned())
    }
}

/// The sizes of the run's cases.
pub open spec fn case_sizes() -> Seq<usize> {
    seq![1usize, 3, 17, 255, 256, 257]
}

/// A case: a range of a buffer, and the buffer.
#[derive(Clone, Copy, Debug, PartialEq, Eq, Structural)]
pub struct TransferCase {
    pub order: usize,
    pub size: usize,
    pub offset: u64,
    pub allocation: u64,
}

/// The case of an order: it starts off the boundary, and the buffer has a byte behind it.
pub open spec fn case_at(order: int) -> TransferCase {
    let size = case_sizes()[order];
    TransferCase {
        order: order as usize,
        size,
        offset: (order * 3 + 1) as u64,
        allocation: (order * 3 + 1 + size + 1) as u64,
    }
}

/// The cases of the run.
pub fn planned_cases() -> (out: Vec<TransferCase>)
    ensures
        out@ == Seq::new(6, |order: int| case_at(order)),
{
    let sizes: Vec<usize> = vec![1, 3, 17, 255, 256, 257];
    assert(sizes@ =~= case_sizes());
    let ghost all = Seq::new(6, |order: int| case_at(order));
    let mut cases: Vec<TransferCase> = Vec::new();
    for order in 0..6
        invariant
            sizes@ == case_sizes(),
            all == Seq::new(6, |order: int| case_at(order)),
            cases@ == all.take(order as int),
    {
        assert(sizes@[order as int] <= 257);
        let offset: u64 = (order * 3 + 1) as u64;
        cases.push(
            TransferCase {
                order,
                size: sizes[order],
                offset,
                allocation: offset + sizes[order] as u64 + 1,
            },
        );
        assert(all.take(order + 1) =~= all.take(order as int).push(all[order as int]));
    }
    assert(all.take(6) =~= all);
    cases
}

/// The range of every case lies inside its buffer, with a byte to spare on either side.
pub proof fn ranges_lie_inside_their_buffers(order: int)
    requires
        0 <= order < 6,
    ensures
        1 <= case_at(order).offset,
        case_at(order).offset + case_at(order).size < case_at(order).allocation,
        case_at(order).size <= MAX_TRANSFER_BYTES,
{
}

/// The bytes of a case.
pub open spec fn case_bytes(order: int, size: nat) -> Seq<u8> {
    Seq::new(size, |i: int| ((i * 37 + order * 19 + 11) % 251) as u8)
}

/// The bytes of a case.
pub fn case_input(order: usize, size: usize) -> (out: Vec<u8>)
    requires
        size * 37 + order * 19 + 11 <= usize::MAX,
    ensures
        out@ == case_bytes(order as int, size as nat),
{
    let ghost all = case_bytes(order as int, size as nat);
    let mut bytes: Vec<u8> = Vec::new();
    for i in 0..size
        invariant
            size * 37 + order * 19 + 11 <= usize::MAX,
            all == case_bytes(order as int, size as nat),
            bytes@ == all.take(i as int),
    {
        bytes.push(((i * 37 + order * 19 + 11) % 251) as u8);
        assert(all.take(i + 1) =~= all.take(i as int).push(all[i as int]));
    }
    assert(all.take(size as int) =~= all);
    bytes
}

/// Refuses a case whose bytes did not come back as they were.
pub fn check_case(order: usize, input: &[u8], copied: u64, output: &[u8]) -> (out: Result<
    (),
    String,
>)
    ensures
        if copied == input@.len() && output@ == input@ {
            out is Ok
        } else {
            &&& out is Err
            &&& out->Err_0@ == "case "@ + decimal(order as nat)
                + " byte-exact comparison failed"@
        },
{
    if copied == input.len() as u64 && same_items(output, input) {
        return Ok(());
    }
    let mut message = "case ".to_owned();
    append_decimal(&mut message, order as u64);
    message.append(" byte-exact comparison failed");
    Err(message)
}

/// The name of a case.
pub fn case_id(size: usize) -> (out: String)
    ensures
        out@ == "bytes-"@ + decimal(size as nat),
{
    let mut id = "bytes-".to_owned();
    append_decimal(&mut id, size as u64);
    id
}

/// The cases lie around a page of 256 bytes and grow from one to the next. Each starts three bytes
/// later than the one before, off every boundary, and its buffer ends one byte behind it.
pub proof fn cases_lie_off_the_boundaries(cases: Vec<TransferCase>, at: int)
    requires
        call_ensures(planned_cases, (), cases),
        0 <= at < cases@.len(),
    ensures
        cases@.len() == 6,
        cases@[at].order == at,
        cases@[0].offset == 1 && cases@[0].size == 1,
        at + 1 < 6 ==> cases@[at + 1].offset == cases@[at].offset + 3 && cases@[at].size
            < cases@[at + 1].size,
        cases@[at].offset + cases@[at].size + 1 == cases@[at].allocation,
        cases@[1].size == 3 && cases@[2].size == 17 && cases@[3].size == 255 && cases@[4].size
            == 256 && cases@[5].size == 257,
{
}

/// The bytes of a case go up by 37 from one to the next and by 19 from one case to the next, modulo
/// 251.
pub proof fn case_bytes_follow_their_pattern(
    order: usize,
    size: usize,
    bytes: Vec<u8>,
    at: int,
    code: int,
)
    requires
        call_ensures(case_input, (order, size), bytes),
        0 <= at < size,
        0 <= code < 251,
        (37 * at + 19 * order + 11 - code) % 251 == 0,
    ensures
        bytes@.len() == size,
        bytes@[at] == code,
{
    code_is_the_rest(37 * at + 19 * order + 11, code, 251);
}

/// A case is accepted just where all its bytes were copied and came back as they were.
pub proof fn transfers_give_back_what_was_written(
    order: usize,
    input: &[u8],
    copied: u64,
    output: &[u8],
    out: Result<(), String>,
)
    requires
        call_ensures(check_case, (order, input, copied, output), out),
    ensures
        out is Ok <==> copied == input@.len() && input@ == output@,
{
}

/// A device is accepted just where it moves a gibibyte at once.
pub proof fn transfers_are_limited_to_a_gibibyte(limit: u64, out: Result<(), String>)
    requires
        call_ensures(check_transfer_limit, (limit,), out),
    ensures
        out is Ok <==> limit == 1024 * 1024 * 1024,
{
    assert(1024 * 1024 * 1024 == 1_073_741_824) by (nonlinear_arith);
}

} // verus!
