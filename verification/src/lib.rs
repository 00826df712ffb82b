//! A verified interpreter for a classic 8-bit byte-code virtual machine
//! with a 64x32 monochrome display, sixteen registers, a call stack and
//! two free-running countdown timers.
//!
//! The machine lives in [`machine`], its mathematical state and the
//! fetch-decode-execute relation in [`state`], the frame buffer and the
//! sprite-drawing semantics in [`frame`], the frame sinks in [`display`],
//! and the laws the instruction set obeys in [`laws`].

pub mod decode;
pub mod display;
pub mod frame;
pub mod laws;
pub mod machine;
mod rng;
pub mod state;
