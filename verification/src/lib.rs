//! Verified core of a stereo delay and reverb effect: the ring buffers that
//! hold delayed samples, the sample-and-hold of the bit crusher, the
//! tempo-sync divisions and the routing of the signal through the effects.
//! The sample arithmetic itself (filters, gains, mixing) is floating point
//! and lives with the plugin host glue outside this crate.
pub mod bitcrush;
pub mod circular_buffer;
pub mod delay_line;
pub mod params;
pub mod power_of_two;
pub mod ring;
pub mod routing;
