//! The shift-register model shared by the ring buffers of the library.
//!
//! A ring of `n` slots whose next write goes to slot `write_pos` is seen as a
//! history of `n` samples, most recent first: entry `i` is the sample that was
//! written `i + 1` writes ago. Writing a sample shifts it in at the front and
//! drops the oldest entry.
use vstd::prelude::*;

verus! {

/// The slot that holds the sample written `i + 1` writes ago, in a ring of
/// `n` slots whose next write goes to slot `write_pos`.
pub open spec fn slot_of(n: int, write_pos: int, i: int) -> int {
    if i < write_pos {
        write_pos - 1 - i
    } else {
        write_pos - 1 - i + n
    }
}

/// The contents of the ring `slots`, most recent first.
pub open spec fn ring_history<T>(slots: Seq<T>, write_pos: int) -> Seq<T> {
    Seq::new(slots.len(), |i: int| slots[slot_of(slots.len() as int, write_pos, i)])
}

/// The history after one more sample `x` is written: `x` comes first and the
/// oldest entry is dropped, so the length stays the same.
pub open spec fn shift_in<T>(history: Seq<T>, x: T) -> Seq<T> {
    seq![x] + history.take(history.len() - 1)
}

/// The history after the samples `xs` are written in order.
pub open spec fn shift_in_all<T>(history: Seq<T>, xs: Seq<T>) -> Seq<T>
    decreases xs.len(),
{
    if xs.len() == 0 {
        history
    } else {
        shift_in(shift_in_all(history, xs.drop_last()), xs.last())
    }
}

/// A history of `n` copies of `x`.
pub open spec fn constant_history<T>(n: nat, x: T) -> Seq<T> {
    Seq::new(n, |i: int| x)
}

/// Writing `x` into the slot `write_pos` and moving on to the next slot
/// shifts `x` into the history.
pub proof fn lemma_ring_write<T>(slots: Seq<T>, write_pos: int, next_pos: int, x: T)
    requires
        0 <= write_pos < slots.len(),
        next_pos == (if write_pos + 1 == slots.len() { 0 } else { write_pos + 1 }),
    ensures
        ring_history(slots.update(write_pos, x), next_pos) =~= shift_in(
            ring_history(slots, write_pos),
            x,
        ),
{
}

/// A ring whose slots all hold `x` has a history made of `x` only, wherever
/// the next write goes.
pub proof fn lemma_ring_constant<T>(n: nat, write_pos: int, x: T)
    requires
        0 <= write_pos < n,
    ensures
        ring_history(constant_history(n, x), write_pos) =~= constant_history(n, x),
{
}

/// After the samples `xs` are written, the history starts with them, latest
/// first, followed by what was there before, and keeps its length.
pub proof fn lemma_shift_in_all<T>(history: Seq<T>, xs: Seq<T>)
    requires
        history.len() >= 1,
    ensures
        shift_in_all(history, xs).len() == history.len(),
        forall|i: int|
            0 <= i < history.len() ==> #[trigger] shift_in_all(history, xs)[i] == if i
                < xs.len() {
                xs[xs.len() - 1 - i]
            } else {
                history[i - xs.len()]
            },
    decreases xs.len(),
{
    if xs.len() > 0 {
        lemma_shift_in_all(history, xs.drop_last());
    }
}

} // verus!
