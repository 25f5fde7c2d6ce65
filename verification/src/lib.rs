//! A client for the SPIDriver USB-to-SPI adapter that does no I/O of its own.
//!
//! The adapter is driven over a serial line by short command frames. This
//! crate turns each operation into the steps that have to happen on that
//! line and queues them; whoever owns the serial port asks for the next
//! step, carries it out, and reports what came of it:
//!
//! ```text
//! sd.select();
//! while let Some(step) = sd.next_step() {
//!     let event = match step {
//!         Step::Send(byte) => /* write the byte */,
//!         Step::Flush => /* flush the write side */,
//!         Step::Receive => /* read a byte */,
//!     };
//!     sd.advance(event)?;
//! }
//! ```
//!
//! Everything that decides what goes over the line, in which order, and when
//! an operation is abandoned lives here.
//!
//! [`SPIDriver`] is the protocol engine. [`SPIDriverHAL`] splits payloads of
//! any length into frames and fixes the polarity of the chip select line,
//! and [`hal::Parts`] hands out the four capabilities of the adapter, one at
//! a time.

pub mod adapter;
pub mod channel;
pub mod driver;
pub mod error;
pub mod hal;
pub mod mutex;
pub mod wire;

pub use adapter::SPIDriverHAL;
pub use channel::{Channel, Line};
pub use driver::SPIDriver;
pub use error::Error;
pub use wire::{Event, Step};
