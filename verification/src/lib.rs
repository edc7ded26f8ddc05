//! Screen capture for compositors that speak the wlr screencopy protocol:
//! the output registry and its capture state machine, the geometry of
//! capture regions, pixel format normalisation and the compositing of the
//! captured frames into one bitmap.
//!
//! The library decides and computes; it performs no input or output. The
//! caller speaks to the compositor, hands each event to the session, does
//! what the session asks for, and hands the captured frames back to be
//! composed and encoded.

pub mod backend;
pub mod bitmap;
pub mod compose;
pub mod convert;
pub mod encode;
pub mod geometry;
pub mod output;
pub mod parse;
pub mod plan;
pub mod run;
pub mod session;
pub mod shm;
pub mod text;
