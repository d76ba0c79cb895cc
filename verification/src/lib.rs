//! A feedback delay line over a circular sample buffer.
//!
//! A delay line stores the samples it is fed in a fixed number of slots and
//! hands each one back a chosen number of steps later. One processing step
//! reads the delayed sample, stores a combination of it with the input (the
//! feedback path) and returns another combination of the two (the wet/dry
//! mix).
//!
//! The executable code is generic over the sample type. It owns the buffer,
//! the index arithmetic and the order of reading, writing and advancing; the
//! two combinations are functions handed in by the caller, so that the same
//! code runs on whatever number type the caller computes in.
//!
//! - [`state`]: the mathematical model of a line, over which the contracts
//!   are stated.
//! - [`laws`]: what holds of every line: where the read lands, how the stored
//!   samples age.
//! - [`effect`]: the delay effect over exact arithmetic, on lines of real
//!   numbers.
//! - [`effect_laws`]: what holds of the effect: the output is affine in the
//!   mix, the stored samples stay bounded and the echo decays geometrically.
//! - [`exact`]: a step with functions that compute without rounding is a step
//!   of the effect.
//! - [`line`]: the executable delay line of one channel.
//! - [`bank`]: one line for each channel of a stream.

pub mod state;
pub mod laws;
pub mod effect;
pub mod effect_laws;
pub mod exact;
pub mod line;
pub mod bank;
