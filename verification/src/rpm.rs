//! The windowed RPM formula: a pure function from a pulse-window snapshot to
//! a rate in revolutions per minute.

use vstd::prelude::*;

verus! {

use vstd::wrapping::u32_specs;

use crate::shared::{Milliseconds, HISTORY_LEN};

/// A consistent snapshot of the pulse window: how many recent pulses fall
/// inside the staleness window and how old the earliest of them is.
/// `count == 0` means no valid window.
#[derive(Clone, Copy, Debug, PartialEq, Eq, Structural)]
pub struct RpmInfo {
    /// Timestamp of the oldest pulse inside the staleness window; 0 is the
    /// sentinel for "no window".
    pub oldest_sensor_hit_time: Milliseconds,
    /// Number of history slots from that pulse through the newest one.
    pub count: usize,
}

/// What `calculate_rpm` returns: 0 when the snapshot holds no valid window,
/// otherwise the pulse count scaled from the elapsed window to one minute.
///
/// The elapsed time is a wrapping 32-bit difference, so a window that
/// straddles the clock's 2^32 rollover still measures its true width.
/// `deltatime == current_time` is exactly the case `oldest_sensor_hit_time
/// == 0`, the sentinel for "no window".
pub open spec fn rpm_spec(current_time: u32, info: RpmInfo) -> u32 {
    let deltatime = u32_specs::wrapping_sub(current_time, info.oldest_sensor_hit_time);
    if deltatime == current_time || info.count == 0 || deltatime == 0 {
        0
    } else {
        ((60_000 * info.count as int) / deltatime as int) as u32
    }
}

/// Convert a pulse-window snapshot into revolutions per minute.
///
/// Returns 0 when there is no valid window: a zero pulse count, the sentinel
/// oldest time, or an elapsed time of zero, which would otherwise divide by
/// zero. Otherwise the rate is `60_000 * count / deltatime`, computed without
/// truncating the numerator before the division.
pub fn calculate_rpm(current_time: Milliseconds, info: &RpmInfo) -> (rpm: u32)
    requires
        info.count <= HISTORY_LEN,
    ensures
        rpm == rpm_spec(current_time, *info),
{
    let deltatime = current_time.wrapping_sub(info.oldest_sensor_hit_time);
    if deltatime == current_time || info.count == 0 || deltatime == 0 {
        return 0;
    }
    (60_000u32 * (info.count as u32)) / deltatime
}

/// A snapshot without a window always yields a zero rate, whatever the
/// current time is.
pub proof fn lemma_rpm_no_window(current_time: u32)
    ensures
        rpm_spec(current_time, (RpmInfo { oldest_sensor_hit_time: 0, count: 0 })) == 0,
{
}

} // verus!
