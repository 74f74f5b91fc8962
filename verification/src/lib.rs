//! CHIP-8 device library: keypad, display planes, memory, fonts, CPU and the
//! device that ties them together, each with its behaviour stated as a contract.

pub mod audio;
pub mod cpu;
pub mod device;
pub mod display;
pub mod fonts;
pub mod input;
pub mod isa;
pub mod keyboard;
pub mod laws;
pub mod keypad;
pub mod locale;
pub mod memory;
pub mod message;
pub mod observer;
pub mod palette;
pub mod quirks;
pub mod render;
pub mod roms;
pub mod sprite;

use vstd::prelude::*;

verus! {

/// Address at which programs are loaded and execution starts.
pub const PROGRAM_START: u16 = 0x200;

} // verus!
