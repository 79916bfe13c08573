//! A single-producer / single-consumer pipeline for audio samples:
//! owned sample signals, their synthesis, and a bounded circular buffer
//! with an explicit lifecycle.
//!
//! Samples are carried as the raw bit patterns of IEEE-754 single-precision
//! values (`f32::to_bits`); the library only moves and copies them.
#![allow(non_camel_case_types)]

pub mod laws;
pub mod ring;
pub mod signal;
pub mod wave;

pub use ring::{RingError, RingState, SIGNAL_RING_B_, DEFAULT_RING_BUFFER_SIZE};
pub use signal::{Sample, SIGNAL_};
pub use wave::{build_blank_wave, build_wave, SILENCE};
