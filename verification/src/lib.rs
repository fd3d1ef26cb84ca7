//! A verified CHIP-8 virtual machine core.
//!
//! The machine state (memory, registers, call stack, timers, display and
//! keypad) lives in [`chip::Chip_8`]; its mathematical model and the
//! single-instruction transition relation live in [`machine`]. The host loop
//! around the core (terminal rendering, raw key capture, ROM file reading) is
//! deliberately outside: the core exchanges only plain values with it.

pub mod font;
pub mod keyboard;
pub mod machine;
pub mod chip;
