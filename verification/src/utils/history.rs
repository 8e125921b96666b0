//! What holds of a ring over any sequence of writes and reads.
//!
//! A ring is followed here by its contents alone: `RingBuffer::write` and
//! `RingBuffer::read` change the view of a ring exactly as `contents_step`
//! changes a sequence of bytes.

use super::accepted_len;
use vstd::prelude::*;

verus! {

/// One call on a ring.
pub enum RingOp {
    /// `write` with these bytes.
    Write(Seq<u8>),
    /// `read` of this many bytes.
    Read(nat),
}

/// The bytes that `op` adds to a ring of `capacity` bytes that holds `held`.
pub open spec fn accepted_by(capacity: nat, held: Seq<u8>, op: RingOp) -> Seq<u8> {
    match op {
        RingOp::Write(data) => data.take(accepted_len(capacity, held.len(), data.len()) as int),
        RingOp::Read(size) => Seq::empty(),
    }
}

/// The bytes that `op` hands out of a ring that holds `held`.
pub open spec fn returned_by(held: Seq<u8>, op: RingOp) -> Seq<u8> {
    match op {
        RingOp::Write(data) => Seq::empty(),
        RingOp::Read(size) => if size <= held.len() {
            held.take(size as int)
        } else {
            Seq::empty()
        },
    }
}

/// What a ring of `capacity` bytes that held `held` holds after `op`.
pub open spec fn contents_step(capacity: nat, held: Seq<u8>, op: RingOp) -> Seq<u8> {
    match op {
        RingOp::Write(data) => held + accepted_by(capacity, held, op),
        RingOp::Read(size) => if size <= held.len() {
            held.skip(size as int)
        } else {
            held
        },
    }
}

/// What a new ring of `capacity` bytes holds after the calls `ops`.
pub open spec fn contents_after(capacity: nat, ops: Seq<RingOp>) -> Seq<u8>
    decreases ops.len(),
{
    if ops.len() == 0 {
        Seq::empty()
    } else {
        contents_step(capacity, contents_after(capacity, ops.drop_last()), ops.last())
    }
}

/// All bytes that the writes among `ops` put into a new ring, in the order
/// of the calls.
pub open spec fn accepted_so_far(capacity: nat, ops: Seq<RingOp>) -> Seq<u8>
    decreases ops.len(),
{
    if ops.len() == 0 {
        Seq::empty()
    } else {
        accepted_so_far(capacity, ops.drop_last()) + accepted_by(
            capacity,
            contents_after(capacity, ops.drop_last()),
            ops.last(),
        )
    }
}

/// All bytes that the reads among `ops` got from a new ring, in the order of
/// the calls.
pub open spec fn returned_so_far(capacity: nat, ops: Seq<RingOp>) -> Seq<u8>
    decreases ops.len(),
{
    if ops.len() == 0 {
        Seq::empty()
    } else {
        returned_so_far(capacity, ops.drop_last()) + returned_by(
            contents_after(capacity, ops.drop_last()),
            ops.last(),
        )
    }
}

/// First in, first out. After any calls, the bytes handed out so far followed
/// by the bytes still held are the bytes accepted so far: every accepted byte
/// comes out once, in the order of writing, and none is made up.
pub proof fn lemma_first_in_first_out(capacity: nat, ops: Seq<RingOp>)
    ensures
        returned_so_far(capacity, ops) + contents_after(capacity, ops) == accepted_so_far(
            capacity,
            ops,
        ),
    decreases ops.len(),
{
    if ops.len() > 0 {
        let before = ops.drop_last();
        lemma_first_in_first_out(capacity, before);
        let held = contents_after(capacity, before);
        let out = returned_so_far(capacity, before);
        match ops.last() {
            RingOp::Write(data) => {
                let taken = accepted_by(capacity, held, ops.last());
                assert((out + Seq::<u8>::empty()) + (held + taken) =~= (out + held) + taken);
            },
            RingOp::Read(size) => {
                if size <= held.len() {
                    assert((out + held.take(size as int)) + held.skip(size as int) =~= (out + held)
                        + Seq::<u8>::empty());
                } else {
                    assert((out + Seq::<u8>::empty()) + held =~= (out + held) + Seq::<u8>::empty());
                }
            },
        }
    }
}

/// Conservation. After any calls, the number of bytes held is the number
/// accepted by the writes less the number handed out by the reads, and it
/// never exceeds the capacity.
pub proof fn lemma_available_is_balance(capacity: nat, ops: Seq<RingOp>)
    ensures
        contents_after(capacity, ops).len() == accepted_so_far(capacity, ops).len()
            - returned_so_far(capacity, ops).len(),
        contents_after(capacity, ops).len() <= capacity,
    decreases ops.len(),
{
    lemma_first_in_first_out(capacity, ops);
    if ops.len() > 0 {
        lemma_available_is_balance(capacity, ops.drop_last());
    }
}

} // verus!
