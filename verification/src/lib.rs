//! A cycle-counting emulator core for a 6502-family console: CPU instruction
//! engine, tile/sprite picture processor, and the memory-mapped bus that ties
//! them together.  Cartridge loading, input polling and presentation are left
//! to the host; the core works on plain bytes handed in by the caller.

use vstd::prelude::*;

pub mod controller;
pub mod cpu;
pub mod ines;
pub mod main_memory;
pub mod mapper_0;
pub mod mapper_4;
pub mod mem;
pub mod memory;
pub mod nes;
pub mod ppu;

verus! {

/// The unrecoverable fault taxonomy: every path that the original hardware
/// model would treat as a wedged machine is surfaced as a typed error and
/// propagated to the caller instead of aborting.
#[derive(Clone, Copy, Debug, PartialEq, Eq, Structural)]
pub enum EmuError {
    /// A read or write touched an address outside every defined bus region.
    BusFault(u16),
    /// The fetched opcode matches neither the dispatch table nor the fallback.
    IllegalOpcode(u8),
    /// The cartridge mapper was asked to serve an address outside its
    /// declared geometry, or its banks are too small for the request.
    MapperFault(u16),
    /// Construction asked for a mapper id this core does not support.
    UnsupportedMapper(u8),
}

} // verus!
