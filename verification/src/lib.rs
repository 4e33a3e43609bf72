//! An emulator core for an 8-bit microprocessor of the 6502 family.
//!
//! The crate has three verified pieces: a bus that routes byte reads and
//! writes to memory-mapped devices ([`bus::Bus`]), a memory device backed by
//! a byte array ([`memory::RandomAccessMemory`]), and the processor core
//! itself ([`cpu6502::CPU6502`]), which fetches, decodes and executes one
//! instruction per `tick`.  A second, much simpler stack-machine processor
//! ([`stack_cpu::ScottCPU`]) shares the same bus.

pub mod bus;
pub mod cpu6502;
pub mod device;
pub mod memory;
pub mod stack_cpu;
