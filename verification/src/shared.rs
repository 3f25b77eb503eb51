//! Constants and plain types shared across the engine.

use vstd::prelude::*;

verus! {

/// Milliseconds since the clock was armed; wraps at 2^32. The value 0 is the
/// sentinel for an unused pulse-history slot.
pub type Milliseconds = u32;

/// A digital output level.
pub type PinState = bool;

/// Idle / logic-low output level.
pub const LOW: bool = false;

/// Driven / logic-high output level.
pub const HIGH: bool = true;

/// Number of digits on the display.
pub const DIGITS: usize = 4;

/// Capacity of the pulse history ring buffer.
pub const HISTORY_LEN: usize = 64;

/// Staleness window: maximum age, in milliseconds, a recorded pulse may have
/// and still count toward the current rate estimate.
pub const MAX_DELTATIME: u32 = 10_000;

/// How long the main loop waits between display refreshes, in milliseconds.
pub const UPDATE_DELTATIME: u32 = 250;

} // verus!
