//! Fixed-delay ring used by the reverb's comb and all-pass filters.
//!
//! The ring is sized to the next power of two above `delay + 64` and is read
//! `delay` slots behind the write head. Like the circular buffer it is
//! generic over the sample type and its view is the history of written
//! samples, most recent first.
use vstd::prelude::*;
use vstd::arithmetic::div_mod::{lemma_fundamental_div_mod_converse, lemma_small_mod};
use vstd::arithmetic::power2::is_pow2;
use crate::power_of_two::{
    is_next_power_of_two,
    lemma_next_power_of_two_bounds,
    max_rounded_size,
    next_power_of_two,
};
use crate::ring::{
    constant_history,
    lemma_ring_constant,
    lemma_ring_write,
    lemma_shift_in_all,
    ring_history,
    shift_in,
    shift_in_all,
    slot_of,
};

verus! {

/// Slots a delay line keeps beyond its delay.
pub const DELAY_HEADROOM: usize = 64;

/// The history entry a delay line with delay `delay` reads, in a history of
/// `len` entries: the sample written `delay` writes ago, or, for a delay of
/// 0, the oldest sample the ring still holds.
pub open spec fn delayed_index(delay: int, len: int) -> int {
    if delay == 0 {
        len - 1
    } else {
        delay - 1
    }
}

pub struct DelayLine<T> {
    buffer: Vec<T>,
    write_pos: usize,
    delay: usize,
    buf_len: usize,
    silence: T,
}

impl<T> View for DelayLine<T> {
    type V = Seq<T>;

    closed spec fn view(&self) -> Seq<T> {
        ring_history(self.buffer@, self.write_pos as int)
    }
}

impl<T: Copy> DelayLine<T> {
    /// The internal invariant: the ring length is a power of two at least
    /// `delay + 64`, small enough that `write_pos + len` fits in a `usize`.
    pub closed spec fn wf(&self) -> bool {
        &&& self.buffer.len() == self.buf_len
        &&& is_pow2(self.buf_len as int)
        &&& self.delay + DELAY_HEADROOM <= self.buf_len
        &&& self.buf_len <= max_rounded_size()
        &&& self.write_pos < self.buf_len
    }

    /// The delay, in samples, the line was created with.
    pub closed spec fn delay(&self) -> nat {
        self.delay as nat
    }

    /// The sample that fills the line when it is created or reset.
    pub closed spec fn silence(&self) -> T {
        self.silence
    }

    /// A line reading `delay` samples behind its write head, in a ring of the
    /// smallest power of two of at least `delay + 64` slots, all `silence`.
    pub fn new(delay: usize, silence: T) -> (line: Self)
        requires
            delay + DELAY_HEADROOM <= max_rounded_size(),
        ensures
            line.wf(),
            line.delay() == delay,
            line.silence() == silence,
            is_next_power_of_two(delay + DELAY_HEADROOM, line@.len() as int),
            line@.len() >= delay + DELAY_HEADROOM,
            line@.len() < 2 * (delay + DELAY_HEADROOM),
            is_pow2(line@.len() as int),
            line@ == constant_history(line@.len(), silence),
    {
        let buf_len = next_power_of_two(delay + DELAY_HEADROOM);
        let mut buffer: Vec<T> = Vec::new();
        let mut i: usize = 0;
        while i < buf_len
            invariant
                i <= buf_len,
                buffer@ == constant_history(i as nat, silence),
            decreases buf_len - i,
        {
            buffer.push(silence);
            i = i + 1;
        }
        proof {
            lemma_ring_constant(buf_len as nat, 0, silence);
        }
        DelayLine { buffer, write_pos: 0, delay, buf_len, silence }
    }

    /// The sample `delay` slots behind the write head.
    pub fn read_delayed(&self) -> (sample: T)
        requires
            self.wf(),
        ensures
            sample == self@[delayed_index(self.delay() as int, self@.len() as int)],
    {
        let x = self.write_pos + self.buf_len - self.delay;
        proof {
            let n = self.buf_len as int;
            let wp = self.write_pos as int;
            let d = self.delay as int;
            if wp >= d {
                lemma_fundamental_div_mod_converse(x as int, n, 1, x - n);
            } else {
                lemma_small_mod(x as nat, n as nat);
            }
            assert(slot_of(n, wp, delayed_index(d, n)) == (x as int) % n);
        }
        let read_pos = x % self.buf_len;
        self.buffer[read_pos]
    }

    /// Write one sample at the write head and advance it.
    pub fn write(&mut self, sample: T)
        requires
            old(self).wf(),
        ensures
            final(self).wf(),
            final(self)@ == shift_in(old(self)@, sample),
            final(self).delay() == old(self).delay(),
            final(self).silence() == old(self).silence(),
    {
        let pos = self.write_pos;
        let n = self.buf_len;
        proof {
            if pos + 1 < n {
                lemma_small_mod((pos + 1) as nat, n as nat);
            } else {
                lemma_fundamental_div_mod_converse((pos + 1) as int, n as int, 1, 0);
            }
            let next = if pos + 1 == n { 0 } else { pos + 1 };
            lemma_ring_write(self.buffer@, pos as int, next, sample);
        }
        self.buffer.set(pos, sample);
        self.write_pos = (pos + 1) % n;
    }

    /// Fill the ring with silence and move the write head back to the start.
    pub fn reset(&mut self)
        requires
            old(self).wf(),
        ensures
            final(self).wf(),
            final(self)@ == constant_history(old(self)@.len(), old(self).silence()),
            final(self).delay() == old(self).delay(),
            final(self).silence() == old(self).silence(),
    {
        let n = self.buffer.len();
        let silence = self.silence;
        let mut i: usize = 0;
        while i < n
            invariant
                n == self.buffer.len(),
                self.wf(),
                self.silence == silence,
                self.delay == old(self).delay,
                i <= n,
                forall|j: int| 0 <= j < i ==> self.buffer@[j] == silence,
            decreases n - i,
        {
            self.buffer.set(i, silence);
            i = i + 1;
        }
        self.write_pos = 0;
        proof {
            assert(self.buffer@ =~= constant_history(n as nat, silence));
            lemma_ring_constant(n as nat, 0, silence);
        }
    }
}

/// A delay line with delay 0 reads back the sample written a whole ring ago:
/// after the samples `xs` are written (at least as many as the ring holds),
/// the read gives `xs[xs.len() - len]`.
pub proof fn lemma_zero_delay_reads_ring_length_ago<T>(history: Seq<T>, xs: Seq<T>)
    requires
        1 <= history.len() <= xs.len(),
    ensures
        shift_in_all(history, xs)[delayed_index(0, history.len() as int)] == xs[xs.len()
            - history.len()],
{
    lemma_shift_in_all(history, xs);
    assert(shift_in_all(history, xs)[history.len() - 1] == xs[xs.len() - history.len()]);
}

/// The ring of a delay line with delay `delay` holds at least `delay + 64`
/// samples, less than twice that, and is a power of two.
pub proof fn lemma_ring_size_holds_delay(delay: int, size: int)
    requires
        delay >= 0,
        is_next_power_of_two(delay + DELAY_HEADROOM, size),
    ensures
        delay + DELAY_HEADROOM <= size < 2 * (delay + DELAY_HEADROOM),
        is_pow2(size),
{
    lemma_next_power_of_two_bounds(delay + DELAY_HEADROOM, size);
}

/// A delay line with delay `d >= 1` reads back the sample written `d` writes
/// earlier: after the samples `xs` are written (at least `d` of them), the
/// read gives `xs[xs.len() - d]`.
pub proof fn lemma_delayed_read_returns_written<T>(history: Seq<T>, xs: Seq<T>, delay: int)
    requires
        1 <= delay <= xs.len(),
        delay <= history.len(),
    ensures
        shift_in_all(history, xs)[delayed_index(delay, history.len() as int)] == xs[xs.len()
            - delay],
{
    lemma_shift_in_all(history, xs);
    assert(shift_in_all(history, xs)[delay - 1] == xs[xs.len() - delay]);
}

} // verus!
