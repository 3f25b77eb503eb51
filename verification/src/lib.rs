//! Timing and measurement engine of a shaft tachometer.
//!
//! The crate holds the verified core of the device: the monotonic millisecond
//! clock, the interrupt-driven pulse history with its windowed snapshot, the
//! pure RPM formula, the decomposition of a rate into display digits, and the
//! bit-banged shift-register protocol expressed as a state machine that emits
//! pin actions. Hardware access (pins, timers, busy-waits, the I2C display
//! backend) lives outside the crate and consumes plain values from it.

pub mod clock;
pub mod history;
pub mod rpm;
pub mod seven_segment_display;
pub mod shared;
pub mod shift_register;
pub mod state;
