//! The bus and pin bring-up plan: the fixed constants the board is brought
//! up with before either session opens.
//!
//! The settle delay matters: the sensor needs its power rail stable before
//! its bus is first used, and skipping the pause makes initialization fail
//! intermittently. A failed pin or peripheral claim is a boot-time fatal
//! condition with no retry.

use vstd::prelude::*;

verus! {

/// Clock rate of both I2C buses, in hertz.
pub const BUS_FREQUENCY_HZ: u32 = 400000;

/// Pause after driving the power-enable lines high, before the sensor bus
/// is first used, in milliseconds.
pub const BOOT_SETTLE_MS: u32 = 100;

/// Fixed pause at the end of every render-loop iteration, in milliseconds;
/// it bounds the refresh rate and the bus utilization.
pub const LOOP_DELAY_MS: u32 = 100;

/// What bring-up must do, in order: drive the power and pull-up enable
/// lines high, wait out the settle delay, then open the two independent
/// buses at the fixed clock rate so the sensor and the display never
/// contend for one bus.
pub struct BringUpPlan {
    /// Drive the sensor power-enable line high.
    pub power_enable_high: bool,
    /// Drive the bus pull-up enable line high.
    pub pullup_enable_high: bool,
    /// Milliseconds to wait after power-on before using the sensor bus.
    pub settle_ms: u32,
    /// Clock rate of each of the two I2C buses, in hertz.
    pub bus_frequency_hz: u32,
    /// Milliseconds to sleep at the end of each loop iteration.
    pub loop_delay_ms: u32,
}

/// The one plan every variant boots with.
pub fn bring_up_plan() -> (r: BringUpPlan)
    ensures
        r.power_enable_high,
        r.pullup_enable_high,
        r.settle_ms == BOOT_SETTLE_MS,
        r.bus_frequency_hz == BUS_FREQUENCY_HZ,
        r.loop_delay_ms == LOOP_DELAY_MS,
{
    BringUpPlan {
        power_enable_high: true,
        pullup_enable_high: true,
        settle_ms: BOOT_SETTLE_MS,
        bus_frequency_hz: BUS_FREQUENCY_HZ,
        loop_delay_ms: LOOP_DELAY_MS,
    }
}

} // verus!
