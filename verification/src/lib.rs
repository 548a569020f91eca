//! A master for the 1-Wire bus: reset and presence detection, time slots for single
//! bits, bytes, device selection, and the ROM search that finds every device on a
//! shared line.
//!
//! The protocol is a matter of timing, and waiting is the business of whoever runs the
//! code. So the library never waits. Every operation is a *task*: a state machine that
//! names one request at a time (drive the line low, release it, sense it, let so many
//! microseconds pass, wait for the idle line) and takes the reply to it. A driver
//! carries the requests out, on the pin through [`OneWireAsync::perform`] and by
//! waiting in its own way, and feeds the replies back until the task is over.
//!
//! - [`bus`]: the bus master, which owns the pin and hands out the tasks.
//! - [`pin`]: what the bus master asks of a pin. [`pullup`]: a pin on an empty line.
//! - [`line`]: requests and replies.
//! - [`slot`]: the reset pulse and the time slots, request by request.
//! - [`transfer`]: tasks that write and read bytes.
//! - [`search`]: the ROM search, as a pass over 64 bit positions and as a task.
//! - [`enumeration`]: what the search does on a bus whose devices stay the same.
//! - [`address`], [`bits`], [`crc`], [`commands`], [`timing`], [`error`]: the values
//!   that the above work with.

pub mod address;
pub mod bits;
pub mod bus;
pub mod commands;
pub mod crc;
pub mod enumeration;
pub mod error;
pub mod line;
pub mod pin;
pub mod pullup;
pub mod search;
pub mod slot;
pub mod timing;
pub mod transfer;

pub use crate::address::{Address, SearchState};
pub use crate::bus::OneWireAsync;
pub use crate::error::{OneWireError, OneWireResult};
pub use crate::line::{Line, Reply};
pub use crate::pin::BusPin;
pub use crate::pullup::PulledUp;
pub use crate::search::{DeviceSearch, Pass, Search, Stage};
pub use crate::slot::{Slot, SlotKind};
pub use crate::transfer::{Reader, Writer};
