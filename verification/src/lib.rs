//! Core of a terminal audio level visualizer: amplitudes arrive from a
//! capture thread as fixed-point sample buffers, are reduced to one RMS
//! energy value per display bar, and a small state machine coordinates
//! stop/quit input with the one-shot shutdown signal for the capture thread.
//!
//! Amplitudes are fixed-point throughout: a sample value of `SCALE` stands
//! for a full-scale amplitude of 1.0, so the nominal sample range [-1.0, 1.0]
//! is the integer range [-SCALE, SCALE].

pub mod control;
pub mod math;
pub mod render;
pub mod rms;
pub mod store;
