//! Epilepsy-safe display brightness control engine.
//!
//! Brightness is represented throughout as an integer number of
//! milli-percent (thousandths of a percent of maximum display output),
//! so that `50_000` means 50%. Times are integer milliseconds from a
//! monotonic clock supplied by the caller.

pub mod config;
pub mod content;
pub mod digits;
pub mod context;
pub mod epilepsy;
pub mod fusion;
pub mod hardware;
pub mod ipc;
pub mod state;

use vstd::prelude::*;

verus! {

/// Milli-percent units per percent of display output: brightness
/// values run from 0 to 100 times this scale.
pub const BRIGHTNESS_SCALE: i64 = 1000;

} // verus!
