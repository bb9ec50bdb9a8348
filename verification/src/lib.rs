//! Register file of one ARM64-style processor core.
//!
//! A core holds 34 architectural registers: the general-purpose registers
//! 0 to 30, the zero register (31), the stack pointer (32) and the program
//! counter (33). Each register stores 64 bits; its 32-bit view is the low half
//! of that value.
pub mod bits;
pub mod cpu;
pub mod digits;
pub mod error;
pub mod laws;
pub mod names;
