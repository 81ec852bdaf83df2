use vstd::prelude::*;

verus! {

/// What can go wrong while loading assets or running bytecode.
#[derive(Clone, Copy, Debug, PartialEq, Eq, Structural)]
pub enum Error {
    /// A file that the game needs is absent.
    AssetNotFound,
    /// A file could not be read.
    AssetIo,
    /// The resource table is truncated or has an unknown state byte.
    MemlistCorrupt,
    /// A bank or a resource in it has a wrong size or an offset out of range.
    BankCorrupt,
    /// The checksum of a packed resource is not zero after unpacking.
    ChecksumMismatch,
    /// A resource does not fit in what is left of the arena.
    OutOfArena,
    /// A part id outside the ten parts of the game.
    InvalidPart,
    /// A call with the return stack full.
    StackOverflow,
    /// A return with the return stack empty.
    StackUnderflow,
    /// A byte that is no opcode, or an operand that the opcode does not take.
    UnknownOpcode,
    /// The host could not open the audio device.
    HostAudio,
    /// The host could not open the display.
    HostVideo,
}

} // verus!
