//! A verified CHIP-8 interpreter core.
//!
//! The library models the classic CHIP-8 virtual machine: 4096 bytes of
//! memory, sixteen 8-bit registers, a 16-entry call stack, a 64x32
//! monochrome display, a 16-key keypad and two countdown timers.  The
//! decoder and the per-cycle execution step are specified against a
//! mathematical model of the machine state and proved to follow it.
//!
//! Rendering, keyboard handling and ROM loading from disk are left to a
//! driver; the core performs no I/O of its own.  The one blocking point is
//! the key-wait instruction, which calls a provider supplied by the driver.

pub mod display;
pub mod error;
pub mod instruction;
pub mod laws;
pub mod machine;
pub mod step;
