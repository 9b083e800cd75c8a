# delay_reverb_fx

A stereo delay and reverb audio effect (with chorus, compressor and bit
crusher sub-effects), built around a Verus-verified library.

- `src/` — the verified library: the power-of-two circular buffer and the
  fixed delay line that hold past samples (modelled as a shift register of
  past samples, most recent first), the bit crusher's sample-and-hold
  counters, the tempo-sync divisions (exact, in ticks of 1/24 beat) and the
  routing plan that decides which effect runs, in which order and on which
  input. The buffers are generic over the sample type.
- `tests/` — tests of the library on concrete values.
- `app/` — the plugin: host integration, the editor, and all floating-point
  signal processing (filters, compressor, interpolation, mixing), which
  calls into the library for buffers, counters, divisions and routing.
