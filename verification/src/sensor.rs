//! The sensor session: device configuration, the initialization handshake,
//! and the blocking read discipline.
//!
//! Three sensor families are supported: a 9-axis inertial unit, a
//! humidity-and-temperature device, and an ambient light and color device.
//! Each transports its values as plain integers: the inertial rates in
//! ten-thousandths of a unit, humidity as twice its percentage,
//! temperature as eight times its degrees, and the light channels as raw
//! counts.

use vstd::prelude::*;

use crate::fault::{BusResponse, FatalError};

verus! {

/// Accelerometer-gyroscope device address of the inertial unit.
pub const INERTIAL_AG_ADDR: u8 = 0x6B;

/// Magnetometer device address of the inertial unit.
pub const INERTIAL_MAG_ADDR: u8 = 0x1E;

/// Humidity is transported as twice its percentage, preserving half a
/// percent over integer transport.
pub const HUMIDITY_SCALE: u32 = 2;

/// Temperature is transported as eight times its degrees, preserving one
/// eighth of a degree over integer transport.
pub const TEMPERATURE_SCALE: u32 = 8;

/// The fixed configuration a sensor device is initialized with.
#[derive(Clone, Copy, PartialEq, Eq, Structural, Debug)]
pub struct SensorConfig {
    /// Bus address of the accelerometer-gyroscope part.
    pub ag_addr: u8,
    /// Bus address of the magnetometer part.
    pub mag_addr: u8,
    /// Enable the accelerometer channel.
    pub accel: bool,
    /// Enable the gyroscope channel.
    pub gyro: bool,
    /// Enable the magnetometer channel.
    pub mag: bool,
}

/// The configuration the inertial variant uses: both device addresses as
/// the board wires them, every channel enabled.
pub fn inertial_config() -> (r: SensorConfig)
    ensures
        r.ag_addr == INERTIAL_AG_ADDR,
        r.mag_addr == INERTIAL_MAG_ADDR,
        r.accel && r.gyro && r.mag,
{
    SensorConfig {
        ag_addr: INERTIAL_AG_ADDR,
        mag_addr: INERTIAL_MAG_ADDR,
        accel: true,
        gyro: true,
        mag: true,
    }
}

/// One sample set, produced by one read call and consumed immediately by
/// formatting; never persisted.
#[derive(Clone, Copy, PartialEq, Eq, Structural, Debug)]
pub enum Reading {
    /// Gyroscope rates in ten-thousandths of a unit per axis.
    Inertial { gx: i32, gy: i32, gz: i32 },
    /// Humidity as twice its percentage and temperature as eight times
    /// its degrees.
    Climate { humidity_x2: u32, temperature_x8: u32 },
    /// Raw counts of the clear, red, green and blue channels.
    Light { clear: u16, red: u16, green: u16, blue: u16 },
}

/// What one bus read handed back, before the read discipline decides.
#[derive(Clone, Copy, PartialEq, Eq, Structural, Debug)]
pub enum SampleStatus {
    /// A sample was available.
    Ready(Reading),
    /// The device has no fresh sample yet; only the light sensor reports
    /// this, and it is not a failure.
    NotReady,
    /// The bus transaction failed.
    Fault,
}

/// What the read discipline does with one bus response.
#[derive(Clone, Copy, PartialEq, Eq, Structural, Debug)]
pub enum ReadStep {
    /// Hand the sample to the render loop.
    Deliver(Reading),
    /// Busy-poll: issue the read again, with no backoff and no timeout.
    RetryRead,
    /// A bus failure is fatal; the process aborts.
    Abort,
}

/// The blocking-read policy of one poll: a ready sample is delivered, a
/// not-yet-ready device is retried until it answers, and a bus fault
/// aborts. "Not ready" is therefore never surfaced to the render loop.
pub fn read_step(status: SampleStatus) -> (r: ReadStep)
    ensures
        status matches SampleStatus::Ready(v) ==> r == ReadStep::Deliver(v),
        r is Deliver ==> status is Ready,
        status is NotReady <==> r is RetryRead,
        status is Fault <==> r is Abort,
{
    match status {
        SampleStatus::Ready(v) => ReadStep::Deliver(v),
        SampleStatus::NotReady => ReadStep::RetryRead,
        SampleStatus::Fault => ReadStep::Abort,
    }
}

/// A session with one sensor device. A value of this type exists only
/// after a successful initialization handshake, so a read is never
/// attempted against an unconfigured device.
pub struct SensorSession {
    /// The configuration the device acknowledged at initialization.
    pub config: SensorConfig,
}

impl SensorSession {
    /// Open the session after the device's configuration handshake. A
    /// device that does not acknowledge on the bus or rejects its
    /// configuration is fatal: the process aborts before the render loop
    /// ever runs.
    pub fn initialize(config: SensorConfig, handshake: BusResponse) -> (r: Result<
        SensorSession,
        FatalError,
    >)
        ensures
            r is Ok <==> handshake is Ack,
            r matches Ok(s) ==> s.config == config,
    {
        match handshake {
            BusResponse::Ack => Ok(SensorSession { config }),
            BusResponse::Nack => Err(FatalError),
        }
    }
}

} // verus!
