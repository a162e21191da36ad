//! Drivers for the GPIO bank and the PL011 UART of the Raspberry Pi 3 and 4,
//! the capabilities through which a kernel uses them, the order in which a
//! board brings them up, and a loader that takes a kernel over the console.
//!
//! Nothing in this crate touches the machine. A driver decides; whoever owns
//! the bus performs. Every operation that needs the hardware answers with a
//! [`bus::Poll`]: either the one [`bus::Access`] that has to be performed
//! next, or the operation's result. The caller performs the access and calls
//! the operation again with what the access returned.
//!
//! - [`fields`] and [`bus`]: settings of register bits, plans made of steps
//!   on registers, and how a plan is walked one access at a time.
//! - [`mmio`] and [`synchronization`]: the overlay of a register bank on the
//!   address space, and the lock round a driver.
//! - [`driver`] and [`console`]: what drivers, device managers and consoles
//!   offer, and the bring-up of a board.
//! - [`gpio`] and [`uart`]: the two drivers.
//! - [`board`]: the addresses, the device manager and the consoles of the
//!   two boards.
//! - [`loader`]: the conversation that brings a kernel in.

pub mod fields;
pub mod bus;
pub mod mmio;
pub mod synchronization;
pub mod driver;
pub mod console;
pub mod gpio;
pub mod uart;
pub mod board;
pub mod loader;
