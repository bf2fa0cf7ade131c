//! Core logic of a scanned-input/multiplexed-output control surface:
//! a button-matrix scanner, a multiplexed rotary-encoder bank, a
//! multiplexed LED-bank driver, and an interrupt-safe diagnostic logger.
//!
//! Each hardware driver is a small state machine over a plain-value model
//! of its output lines; the surrounding firmware mirrors the modeled line
//! levels onto the real pins and feeds sampled input levels back in.

pub mod encoders;
pub mod leds;
pub mod log;
pub mod matrix;
