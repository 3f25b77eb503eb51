//! The interface a display backend offers to the engine.
//!
//! Concrete backends (the I2C seven-segment controller, or a chain of shift
//! registers) live outside the verified core; they only need to accept
//! decimal digits to render.

use vstd::prelude::*;

verus! {

use crate::state::State;

/// A sink for decimal digits: anything that can render the digits held by a
/// [`State`].
pub trait Display {
    /// Render the digits held by `state`.
    fn display(&mut self, state: &State);
}

} // verus!
