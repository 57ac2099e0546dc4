//! A transient-shaping gain engine.
//!
//! Given an audio signal, the engine computes, sample by sample, a
//! multiplicative gain curve that boosts or attenuates the attack (onset)
//! and sustain (tail) portions of transient events.  All signal values,
//! levels, times and gains are carried as Q24 fixed-point integers, so the
//! whole signal path is exact integer arithmetic.

pub mod beat;
pub mod dezipper;
pub mod engine;
pub mod envelope;
pub mod fixed;

pub use beat::BeatDetector;
pub use dezipper::Dezipper;
pub use engine::BlockOutput;
pub use engine::ControlParams;
pub use engine::Envolvigo;
pub use engine::State;
pub use envelope::EnvelopeDetector;
