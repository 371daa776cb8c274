//! Answers to ESC/POS real-time status requests received over the network.

use crate::escpos::parser::{DLE, EOT};
use vstd::prelude::*;

verus! {

/// Status byte reported for "printer status" (`n == 1`): online.
pub const STATUS_ONLINE: u8 = 0x16;

/// Status byte reported for every other request: no error, paper present.
pub const STATUS_NO_ERROR: u8 = 0x12;

/// The answer to one `DLE EOT n` request.
pub open spec fn status_byte(n: u8) -> u8 {
    if n == 1 {
        STATUS_ONLINE
    } else {
        STATUS_NO_ERROR
    }
}

/// The status bytes answering the `DLE EOT n` requests in `data` from position `i` on,
/// one byte per request, in order. A matched request is skipped whole; anything else
/// moves on by one byte.
pub open spec fn status_reply(data: Seq<u8>, i: int) -> Seq<u8>
    decreases data.len() - i,
{
    if i < 0 || i + 2 >= data.len() {
        seq![]
    } else if data[i] == DLE && data[i + 1] == EOT {
        seq![status_byte(data[i + 2])] + status_reply(data, i + 3)
    } else {
        status_reply(data, i + 1)
    }
}

/// Only a "printer status" request (`DLE EOT 1`) is answered "online" (0x16); every
/// other `DLE EOT n` is answered "no error, paper present" (0x12). A chunk holding just
/// one request gets just that answer.
pub proof fn law_status_answers(n: u8)
    ensures
        status_byte(n) == 0x16 <==> n == 1,
        status_byte(n) == 0x12 <==> n != 1,
        status_reply(seq![0x10u8, 0x04u8, n], 0) == seq![if n == 1 { 0x16u8 } else { 0x12u8 }],
{
    let d = seq![0x10u8, 0x04u8, n];
    assert(d[0] == 0x10 && d[1] == 0x04 && d[2] == n);
    assert(status_reply(d, 3) =~= Seq::<u8>::empty());
    assert(status_reply(d, 0) =~= seq![status_byte(n)] + status_reply(d, 3));
}

/// Each request in a chunk gets exactly one answer byte, in order: the answer to a chunk
/// that begins with a complete request is that request's answer followed by the answer
/// to the rest of the chunk.
pub proof fn law_status_answers_in_order(n: u8, rest: Seq<u8>)
    ensures
        status_reply(seq![0x10u8, 0x04u8, n] + rest, 0) == seq![if n == 1 { 0x16u8 } else { 0x12u8 }]
            + status_reply(rest, 0),
{
    let d = seq![0x10u8, 0x04u8, n] + rest;
    assert(d[0] == 0x10 && d[1] == 0x04 && d[2] == n);
    lemma_status_reply_shift(seq![0x10u8, 0x04u8, n], rest, 0);
}

/// Bytes that do not begin a request get no answer: a chunk that begins with a byte
/// other than DLE is answered as the rest of the chunk, and a chunk of fewer than three
/// bytes is not answered at all.
pub proof fn law_status_other_bytes(b: u8, rest: Seq<u8>)
    ensures
        b != 0x10 ==> status_reply(seq![b] + rest, 0) == status_reply(rest, 0),
        rest.len() < 3 ==> status_reply(rest, 0) == Seq::<u8>::empty(),
{
    if b != 0x10 {
        let d = seq![b] + rest;
        assert(d[0] == b);
        lemma_status_reply_shift(seq![b], rest, 0);
    }
}

proof fn lemma_status_reply_shift(pre: Seq<u8>, rest: Seq<u8>, k: int)
    requires
        0 <= k <= rest.len(),
    ensures
        status_reply(pre + rest, pre.len() + k) == status_reply(rest, k),
    decreases rest.len() - k,
{
    let all = pre + rest;
    let i = pre.len() + k;
    if k + 2 < rest.len() {
        assert(all[i] == rest[k] && all[i + 1] == rest[k + 1] && all[i + 2] == rest[k + 2]);
        if rest[k] == 0x10 && rest[k + 1] == 0x04 {
            lemma_status_reply_shift(pre, rest, k + 3);
        } else {
            lemma_status_reply_shift(pre, rest, k + 1);
        }
    }
}

/// Builds the answer to the real-time status requests (`DLE EOT n`) in one chunk of
/// received data: "online, paper present, no error" for each, so that point-of-sale
/// applications proceed. `None` when the chunk holds no request.
pub fn status_responses(data: &[u8]) -> (r: Option<Vec<u8>>)
    ensures
        match r {
            None => status_reply(data@, 0).len() == 0,
            Some(out) => out@ == status_reply(data@, 0) && out@.len() > 0,
        },
{
    let mut out: Vec<u8> = Vec::new();
    let mut i: usize = 0;
    while i < data.len() && data.len() - i > 2
        invariant
            0 <= i <= data.len(),
            out@ + status_reply(data@, i as int) == status_reply(data@, 0),
        decreases data.len() - i,
    {
        if data[i] == DLE && data[i + 1] == EOT {
            let n = data[i + 2];
            let ghost before = out@;
            out.push(if n == 1 { STATUS_ONLINE } else { STATUS_NO_ERROR });
            assert(out@ + status_reply(data@, i + 3) =~= before + status_reply(data@, i as int));
            i += 3;
        } else {
            i += 1;
        }
    }
    assert(out@ =~= status_reply(data@, 0));
    if out.len() == 0 {
        None
    } else {
        Some(out)
    }
}

} // verus!
