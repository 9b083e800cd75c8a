//! Power-of-two circular buffer with single-sample reads behind the write head.
//!
//! The buffer is generic over the sample type: it stores, moves and returns
//! samples but never computes with them. Its view is the history of the
//! buffer, most recent sample first (see `ring`).
use vstd::prelude::*;
use vstd::arithmetic::power2::is_pow2;
use crate::power_of_two::{
    is_next_power_of_two,
    lemma_mask_step,
    lemma_mask_step_back,
    lemma_next_power_of_two_bounds,
    max_rounded_size,
    next_power_of_two,
};
use crate::ring::{
    constant_history,
    lemma_ring_constant,
    lemma_ring_write,
    lemma_shift_in_all,
    ring_history,
    shift_in,
    shift_in_all,
    slot_of,
};

verus! {

/// The smallest size a buffer is created with.
pub const MIN_BUFFER_SIZE: usize = 4;

/// The delay that a read at `delay` actually uses in a buffer of `len`
/// samples: at least 1 and at most `len - 1`.
pub open spec fn clamp_delay(delay: int, len: int) -> int {
    if delay < 1 {
        1
    } else if delay > len - 1 {
        len - 1
    } else {
        delay
    }
}

/// What a read at `delay` returns from a buffer whose history is `history`:
/// the sample written `clamp_delay(delay)` writes ago.
pub open spec fn read_at<T>(history: Seq<T>, delay: int) -> T {
    history[clamp_delay(delay, history.len() as int) - 1]
}

/// The size a buffer asked for at least `min_size` samples gets: the
/// smallest power of two that is at least `max(min_size, 4)`.
pub open spec fn buffer_size_for(min_size: int, size: int) -> bool {
    is_next_power_of_two(if min_size > 4 { min_size } else { 4 }, size)
}

pub struct CircularBuffer<T> {
    buffer: Vec<T>,
    write_pos: usize,
    mask: usize,
    silence: T,
}

impl<T> View for CircularBuffer<T> {
    type V = Seq<T>;

    closed spec fn view(&self) -> Seq<T> {
        ring_history(self.buffer@, self.write_pos as int)
    }
}

impl<T: Copy> CircularBuffer<T> {
    /// The buffer's internal invariant: its length is a power of two of at
    /// least 4, `mask` is that length minus one, and the write head is a
    /// valid index.
    pub closed spec fn wf(&self) -> bool {
        &&& self.buffer.len() == self.mask + 1
        &&& self.mask & ((self.mask + 1) as usize) == 0
        &&& self.mask >= 3
        &&& is_pow2(self.buffer.len() as int)
        &&& self.write_pos <= self.mask
    }

    /// The sample that fills the buffer when it is created or cleared.
    pub closed spec fn silence(&self) -> T {
        self.silence
    }

    /// A buffer of at least `min_size` samples (rounded up to a power of two,
    /// and to no less than 4), filled with `silence`.
    pub fn new(min_size: usize, silence: T) -> (buf: Self)
        requires
            min_size <= max_rounded_size(),
        ensures
            buf.wf(),
            buffer_size_for(min_size as int, buf@.len() as int),
            buf@.len() >= min_size,
            buf@.len() >= MIN_BUFFER_SIZE,
            is_pow2(buf@.len() as int),
            buf@.len() < 2 * (if min_size > MIN_BUFFER_SIZE {
                min_size as int
            } else {
                MIN_BUFFER_SIZE as int
            }),
            buf@ == constant_history(buf@.len(), silence),
            buf.silence() == silence,
    {
        let wanted = if min_size > MIN_BUFFER_SIZE {
            min_size
        } else {
            MIN_BUFFER_SIZE
        };
        let size = next_power_of_two(wanted);
        let mut buffer: Vec<T> = Vec::new();
        let mut i: usize = 0;
        while i < size
            invariant
                i <= size,
                buffer@ == constant_history(i as nat, silence),
            decreases size - i,
        {
            buffer.push(silence);
            i = i + 1;
        }
        proof {
            lemma_ring_constant(size as nat, 0, silence);
        }
        let mask = size - 1;
        proof {
            assert(mask & size == 0) by (bit_vector)
                requires
                    size & mask == 0,
            ;
        }
        CircularBuffer { buffer, write_pos: 0, mask, silence }
    }

    /// Write one sample and advance the write head: the sample becomes the
    /// most recent entry of the history and the oldest entry is dropped.
    pub fn write_sample(&mut self, sample: T)
        requires
            old(self).wf(),
        ensures
            final(self).wf(),
            final(self)@ == shift_in(old(self)@, sample),
            final(self).silence() == old(self).silence(),
    {
        let pos = self.write_pos;
        let size = self.buffer.len();
        proof {
            lemma_mask_step(pos, self.mask, size);
            let next = if pos + 1 == size { 0 } else { pos + 1 };
            lemma_ring_write(self.buffer@, pos as int, next, sample);
        }
        self.buffer.set(pos, sample);
        self.write_pos = (pos + 1) & self.mask;
    }

    /// Read the sample written `delay` writes ago. `delay == 1` gives the
    /// most recently written sample; `delay` is clamped to `1..=len - 1`.
    pub fn read_sample(&self, delay: usize) -> (sample: T)
        requires
            self.wf(),
        ensures
            sample == read_at(self@, delay as int),
    {
        let at_least_one = if delay > 1 {
            delay
        } else {
            1
        };
        let d = if at_least_one < self.mask {
            at_least_one
        } else {
            self.mask
        };
        proof {
            lemma_mask_step_back(self.write_pos, d, self.mask, self.buffer.len());
            assert(slot_of(self.buffer.len() as int, self.write_pos as int, d - 1) == (
            self.write_pos.wrapping_sub(d) & self.mask));
        }
        let pos = self.write_pos.wrapping_sub(d) & self.mask;
        self.buffer[pos]
    }

    /// Fill the buffer with silence and move the write head back to the start.
    pub fn clear(&mut self)
        requires
            old(self).wf(),
        ensures
            final(self).wf(),
            final(self)@ == constant_history(old(self)@.len(), old(self).silence()),
            final(self).silence() == old(self).silence(),
    {
        let n = self.buffer.len();
        let silence = self.silence;
        let mut i: usize = 0;
        while i < n
            invariant
                n == self.buffer.len(),
                self.wf(),
                self.silence == silence,
                i <= n,
                forall|j: int| 0 <= j < i ==> self.buffer@[j] == silence,
            decreases n - i,
        {
            self.buffer.set(i, silence);
            i = i + 1;
        }
        self.write_pos = 0;
        proof {
            assert(self.buffer@ =~= constant_history(n as nat, silence));
            lemma_ring_constant(n as nat, 0, silence);
        }
    }

    /// Write `len` samples of silence, so that every slot has been written
    /// once since: the whole history is then silence.
    pub fn prefill_silence(&mut self)
        requires
            old(self).wf(),
        ensures
            final(self).wf(),
            final(self)@ == constant_history(old(self)@.len(), old(self).silence()),
            final(self).silence() == old(self).silence(),
    {
        let n = self.buffer.len();
        let silence = self.silence;
        let ghost start = self@;
        let mut i: usize = 0;
        while i < n
            invariant
                self.wf(),
                n == self@.len(),
                n == start.len(),
                self.silence() == silence,
                i <= n,
                self@ == shift_in_all(start, constant_history(i as nat, silence)),
            decreases n - i,
        {
            proof {
                assert(constant_history((i + 1) as nat, silence).drop_last() =~= constant_history(
                    i as nat,
                    silence,
                ));
            }
            self.write_sample(silence);
            i = i + 1;
        }
        proof {
            lemma_shift_in_all(start, constant_history(n as nat, silence));
            assert(self@ =~= constant_history(n as nat, silence));
        }
    }

    /// The number of samples the buffer holds.
    pub fn len(&self) -> (n: usize)
        requires
            self.wf(),
        ensures
            n == self@.len(),
            n >= MIN_BUFFER_SIZE,
            is_pow2(n as int),
    {
        self.buffer.len()
    }
}

/// A buffer of the size `new` gives for `min_size` holds at least `min_size`
/// samples and at least 4, is a power of two, and is less than twice
/// `max(min_size, 4)`.
pub proof fn lemma_buffer_size_holds_request(min_size: int, size: int)
    requires
        min_size >= 0,
        buffer_size_for(min_size, size),
    ensures
        size >= min_size,
        size >= MIN_BUFFER_SIZE,
        is_pow2(size),
        size < 2 * (if min_size > 4 { min_size } else { 4 }),
{
    lemma_next_power_of_two_bounds(if min_size > 4 { min_size } else { 4 }, size);
}

/// A read at delay 0 is a read at delay 1.
pub proof fn lemma_read_zero_is_read_one<T>(history: Seq<T>)
    requires
        history.len() >= MIN_BUFFER_SIZE,
    ensures
        read_at(history, 0) == read_at(history, 1),
{
}

/// Right after a sample is written, a read at delay 1 gives it back.
pub proof fn lemma_read_latest<T>(history: Seq<T>, sample: T)
    requires
        history.len() >= MIN_BUFFER_SIZE,
    ensures
        read_at(shift_in(history, sample), 1) == sample,
{
}

/// After the samples `xs` are written, a read at a delay `d` with
/// `1 <= d <= xs.len()` and `d < len` gives back the sample written `d` writes
/// before the read, `xs[xs.len() - d]`.
pub proof fn lemma_read_returns_written<T>(history: Seq<T>, xs: Seq<T>, delay: int)
    requires
        1 <= delay <= xs.len(),
        delay < history.len(),
    ensures
        read_at(shift_in_all(history, xs), delay) == xs[xs.len() - delay],
{
    lemma_shift_in_all(history, xs);
    assert(shift_in_all(history, xs)[delay - 1] == xs[xs.len() - delay]);
}

/// A cleared buffer reads silence at every delay.
pub proof fn lemma_cleared_reads_silence<T>(len: nat, silence: T, delay: int)
    requires
        len >= MIN_BUFFER_SIZE,
    ensures
        read_at(constant_history(len, silence), delay) == silence,
{
}

} // verus!
