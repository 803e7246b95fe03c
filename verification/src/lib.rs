//! A CHIP-8 virtual machine: a 4096-byte memory with a resident font table, a
//! 64x32 monochrome display, two wall-clock-paced countdown timers, and a
//! fetch/decode/execute engine for the standard instruction set.

pub mod cpu;
pub mod display;
pub mod memory;
pub mod timer;
