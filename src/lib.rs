//! Core of a home-console emulator: a cartridge image loader, an address bus
//! of mirrored, bank-switchable segments, and an instruction interpreter that
//! drives every memory access through that bus.

pub mod memory_map;
pub mod ines;
pub mod cpu;
pub mod ppu;
pub mod nes;
