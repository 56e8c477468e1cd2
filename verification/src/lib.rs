//! Drivers for the flight computer's I2C peripherals, written as verified
//! decisions over bus operations.
//!
//! Every driver operation is described by a plan of bus operations
//! ([`bus::BusOp`]) and by functions that turn the bytes read back into a
//! result. A [`bus::Runner`] steps through a plan: it names the next bus
//! transfer, takes its outcome, and decides what comes next, so the code that
//! owns the I2C bus only performs the transfers it is asked for.

pub mod bus;
pub mod calendar;
pub mod drivers;
pub mod checkout;
