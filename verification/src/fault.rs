//! The two-valued error taxonomy of the firmware.
//!
//! Every bus transaction failure, device handshake rejection, peripheral
//! claim failure, or line-buffer overflow is fatal: the process aborts and
//! nothing is recovered. The only non-fatal condition is a sensor sample
//! that is not yet ready, which is retried inside the read path and never
//! surfaced to the render loop.

use vstd::prelude::*;

verus! {

/// A condition from which the firmware never recovers; the process aborts.
#[derive(Clone, Copy, PartialEq, Eq, Structural, Debug)]
pub struct FatalError;

/// What a bus transaction with a device reported back.
#[derive(Clone, Copy, PartialEq, Eq, Structural, Debug)]
pub enum BusResponse {
    /// The device acknowledged the transaction.
    Ack,
    /// The device did not acknowledge; for this firmware that is fatal.
    Nack,
}

} // verus!
