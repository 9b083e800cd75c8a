//! Sample-rate reduction of the bit crusher: per-channel sample-and-hold.
//!
//! Each channel keeps the last sample it took and a counter. Every call
//! advances the counter; once it reaches the downsampling factor the counter
//! restarts and the channel takes the new (already bit-reduced) sample.
//! Between takes the held sample is repeated. The state is generic over the
//! sample type.
use vstd::prelude::*;
use vstd::arithmetic::div_mod::{lemma_fundamental_div_mod, lemma_fundamental_div_mod_converse};

verus! {

/// The downsampling factor in effect: at least 1.
pub open spec fn effective_downsample(downsample: u32) -> int {
    if downsample < 1 {
        1
    } else {
        downsample as int
    }
}

/// Whether a channel whose counter is `counter` takes a new sample on this
/// call, with downsampling factor `factor`.
pub open spec fn takes_sample(counter: int, factor: int) -> bool {
    counter + 1 >= factor
}

/// The counter after one call.
pub open spec fn next_counter(counter: int, factor: int) -> int {
    if takes_sample(counter, factor) {
        0
    } else {
        counter + 1
    }
}

/// The counter after `calls` calls from a fresh start, with a fixed factor.
pub open spec fn counter_after(factor: int, calls: nat) -> int
    decreases calls,
{
    if calls == 0 {
        0
    } else {
        next_counter(counter_after(factor, (calls - 1) as nat), factor)
    }
}

/// Sample-and-hold state of a stereo bit crusher.
pub struct StereoBitCrush<T> {
    hold_l: T,
    hold_r: T,
    counter_l: u32,
    counter_r: u32,
    silence: T,
}

impl<T: Copy> StereoBitCrush<T> {
    /// The internal invariant: neither counter is at `u32::MAX`, so advancing
    /// it cannot overflow.
    pub closed spec fn wf(&self) -> bool {
        &&& self.counter_l < u32::MAX
        &&& self.counter_r < u32::MAX
    }

    pub closed spec fn hold_left(&self) -> T {
        self.hold_l
    }

    pub closed spec fn hold_right(&self) -> T {
        self.hold_r
    }

    pub closed spec fn counter_left(&self) -> int {
        self.counter_l as int
    }

    pub closed spec fn counter_right(&self) -> int {
        self.counter_r as int
    }

    /// The sample held after creation and after a reset.
    pub closed spec fn silence(&self) -> T {
        self.silence
    }

    /// A crusher holding `silence` on both channels, with both counters at 0.
    pub fn new(silence: T) -> (c: Self)
        ensures
            c.wf(),
            c.hold_left() == silence,
            c.hold_right() == silence,
            c.counter_left() == 0,
            c.counter_right() == 0,
            c.silence() == silence,
    {
        StereoBitCrush { hold_l: silence, hold_r: silence, counter_l: 0, counter_r: 0, silence }
    }

    /// Advance both channels by one sample with downsampling factor
    /// `downsample` (0 counts as 1). A channel whose counter reaches the
    /// factor restarts its counter and takes its crushed sample; the other
    /// keeps its held sample. Returns the held samples `(left, right)`.
    pub fn sample_and_hold(&mut self, downsample: u32, crushed_l: T, crushed_r: T) -> (held: (
        T,
        T,
    ))
        requires
            old(self).wf(),
        ensures
            final(self).wf(),
            final(self).silence() == old(self).silence(),
            final(self).counter_left() == next_counter(
                old(self).counter_left(),
                effective_downsample(downsample),
            ),
            final(self).counter_right() == next_counter(
                old(self).counter_right(),
                effective_downsample(downsample),
            ),
            final(self).hold_left() == if takes_sample(
                old(self).counter_left(),
                effective_downsample(downsample),
            ) {
                crushed_l
            } else {
                old(self).hold_left()
            },
            final(self).hold_right() == if takes_sample(
                old(self).counter_right(),
                effective_downsample(downsample),
            ) {
                crushed_r
            } else {
                old(self).hold_right()
            },
            held == (final(self).hold_left(), final(self).hold_right()),
            // A channel whose counter reaches the factor (0 counting as 1) takes
            // its crushed sample and restarts its counter at 0, whatever the
            // counter was; any other channel counts one more call and holds.
            old(self).counter_left() + 1 >= downsample ==> final(self).counter_left() == 0
                && final(self).hold_left() == crushed_l,
            old(self).counter_left() + 1 < downsample ==> final(self).counter_left()
                == old(self).counter_left() + 1 && final(self).hold_left() == old(
                self,
            ).hold_left(),
            old(self).counter_right() + 1 >= downsample ==> final(self).counter_right() == 0
                && final(self).hold_right() == crushed_r,
            old(self).counter_right() + 1 < downsample ==> final(self).counter_right()
                == old(self).counter_right() + 1 && final(self).hold_right() == old(
                self,
            ).hold_right(),
            final(self).counter_left() >= 0,
            final(self).counter_right() >= 0,
    {
        let ds = if downsample > 1 {
            downsample
        } else {
            1
        };

        self.counter_l = self.counter_l + 1;
        if self.counter_l >= ds {
            self.counter_l = 0;
            self.hold_l = crushed_l;
        }
        self.counter_r = self.counter_r + 1;
        if self.counter_r >= ds {
            self.counter_r = 0;
            self.hold_r = crushed_r;
        }
        (self.hold_l, self.hold_r)
    }

    /// Hold silence on both channels and restart both counters.
    pub fn reset(&mut self)
        ensures
            final(self).wf(),
            final(self).hold_left() == old(self).silence(),
            final(self).hold_right() == old(self).silence(),
            final(self).counter_left() == 0,
            final(self).counter_right() == 0,
            final(self).silence() == old(self).silence(),
    {
        self.hold_l = self.silence;
        self.hold_r = self.silence;
        self.counter_l = 0;
        self.counter_r = 0;
    }
}

/// Whenever a channel takes a sample its counter restarts at 0, whatever it
/// was before (also when it was past a factor that has just been lowered).
pub proof fn lemma_take_restarts_counter(counter: int, factor: int)
    requires
        counter >= 0,
        factor >= 1,
        counter + 1 >= factor,
    ensures
        takes_sample(counter, factor),
        next_counter(counter, factor) == 0,
{
}

/// A channel whose counter has not reached the factor holds its sample and
/// counts one more call.
pub proof fn lemma_no_take_counts_up(counter: int, factor: int)
    requires
        counter >= 0,
        factor >= 1,
        counter + 1 < factor,
    ensures
        !takes_sample(counter, factor),
        next_counter(counter, factor) == counter + 1,
{
}

/// A downsample of 0 acts as 1, and any other downsample is the factor in
/// effect as asked, however large.
pub proof fn lemma_factor_is_downsample(downsample: u32)
    ensures
        downsample >= 1 ==> effective_downsample(downsample) == downsample,
        downsample == 0 ==> effective_downsample(downsample) == 1,
{
}

/// From a fresh start with a fixed downsample `d >= 1`, the first call that
/// takes a sample is call number `d`: calls 1 to `d - 1` hold.
pub proof fn lemma_first_take_is_call_downsample(d: u32)
    requires
        d >= 1,
    ensures
        forall|n: nat|
            1 <= n <= d ==> (takes_sample(
                #[trigger] counter_after(effective_downsample(d), (n - 1) as nat),
                effective_downsample(d),
            ) <==> n == d),
{
    assert forall|n: nat| 1 <= n <= d implies (takes_sample(
        #[trigger] counter_after(effective_downsample(d), (n - 1) as nat),
        effective_downsample(d),
    ) <==> n == d) by {
        lemma_takes_every_factor_calls(d as int, n);
        if n < d {
            vstd::arithmetic::div_mod::lemma_small_mod(n, d as nat);
        } else {
            lemma_fundamental_div_mod_converse(n as int, d as int, 1, 0);
        }
    }
}

/// With a fixed factor `factor >= 1`, the counter after `calls` calls from a
/// fresh start is `calls % factor`.
pub proof fn lemma_counter_after_is_mod(factor: int, calls: nat)
    requires
        factor >= 1,
    ensures
        counter_after(factor, calls) == (calls as int) % factor,
    decreases calls,
{
    if calls == 0 {
        lemma_fundamental_div_mod_converse(0, factor, 0, 0);
    } else {
        let prev = (calls - 1) as nat;
        lemma_counter_after_is_mod(factor, prev);
        lemma_fundamental_div_mod(prev as int, factor);
        let q = prev as int / factor;
        let r = prev as int % factor;
        if r + 1 >= factor {
            assert(calls == (q + 1) * factor + 0) by (nonlinear_arith)
                requires
                    calls == prev + 1,
                    prev == factor * q + r,
                    r + 1 == factor,
            ;
            lemma_fundamental_div_mod_converse(calls as int, factor, q + 1, 0);
        } else {
            assert(calls == q * factor + (r + 1)) by (nonlinear_arith)
                requires
                    calls == prev + 1,
                    prev == factor * q + r,
            ;
            lemma_fundamental_div_mod_converse(calls as int, factor, q, r + 1);
        }
    }
}

/// With a fixed factor `factor >= 1`, starting fresh, the crusher takes a
/// new sample on call number `calls` (counting from 1) exactly when `calls`
/// is a multiple of `factor`: every `factor`-th call.
pub proof fn lemma_takes_every_factor_calls(factor: int, calls: nat)
    requires
        factor >= 1,
        calls >= 1,
    ensures
        takes_sample(counter_after(factor, (calls - 1) as nat), factor) <==> (calls as int) % factor
            == 0,
{
    lemma_counter_after_is_mod(factor, calls);
    lemma_counter_after_is_mod(factor, (calls - 1) as nat);
    let prev = (calls - 1) as nat;
    assert(counter_after(factor, calls) == next_counter(counter_after(factor, prev), factor));
    assert(0 <= prev as int % factor < factor) by {
        lemma_fundamental_div_mod(prev as int, factor);
        vstd::arithmetic::div_mod::lemma_mod_bound(prev as int, factor);
    }
}

} // verus!
