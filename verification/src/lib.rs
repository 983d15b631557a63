//! Codec for a compact binary replay-macro format.
//!
//! A replay is a list of timestamped input events together with playback
//! metadata.  Two on-disk versions share one envelope (a fixed header and a
//! 64-byte metadata block) and differ in how the input stream is laid out.
//! Every function here is a pure transform between byte sequences and
//! in-memory values; reading and writing the bytes is left to the caller.
//!
//! Floating-point quantities are carried as their IEEE-754 bit patterns
//! ([`FloatBits`]) and are never computed with.
use vstd::prelude::*;

pub mod error;
pub mod input;
pub mod meta;
pub mod replay;

pub use replay::{DynamicReplay, Replay};

verus! {

/// A tick count on the replay's time line.
pub type Frame = u64;

/// The IEEE-754 single-precision bit pattern of a floating-point quantity.
pub type FloatBits = u32;

} // verus!
