//! Messages that the device hands to its host.

use vstd::prelude::*;
use crate::display::DisplayResolution;

verus! {

/// Device messages
#[derive(Debug, Clone, Copy, PartialEq, Eq, Structural)]
pub enum DeviceMessage {
    /// The display resolution changed (the display is already cleared at
    /// the new size); at the end of the frame the device sets it again, and
    /// the host resizes its screen
    ChangeResolution(DisplayResolution),
    /// Exit the device (`00FD`); the device resets
    Exit,
    /// An instruction outside the instruction set; it changed nothing
    UnknownOpCode(u16),
    /// Waiting for a key to be pressed, to be stored in the given register
    WaitingForKey(Option<usize>),
    /// Beep for the given number of timer ticks
    Beep(u8),
    /// Set the pitch of the beeper
    SetPitch(u8),
    /// New audio buffer created
    NewAudioBuffer,
    /// The step at the given program counter could not be carried out
    /// (an instruction out of memory, a return with an empty stack, an
    /// address overflow); the device stopped.
    Fault(u16),
}

} // verus!
