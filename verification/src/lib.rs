//! Verified core of a driver for the two SPI controllers of the Kendryte K210.
//!
//! The driver touches no hardware itself. Every operation is planned as a
//! [`transaction::Transaction`]: a small machine that names the next access to
//! the controller, takes the value the hardware answered with, and decides what
//! follows. The platform code performs the accesses; everything that is decided
//! (what is written where, when a busy-wait may end, which error is reported)
//! is decided here and proved against the models in this crate.

pub mod bus;
pub mod dmac;
pub mod fifo;
pub mod protocol;
pub mod run;
pub mod setup;
pub mod sleep;
pub mod spi;
pub mod sysctl;
pub mod time;
pub mod transaction;
