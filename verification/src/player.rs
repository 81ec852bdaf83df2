use vstd::prelude::*;

verus! {

/// The bit of a set of directions that stands for left.
pub const LEFT: u8 = 0b0000_0001;

/// The bit of a set of directions that stands for right.
pub const RIGHT: u8 = 0b0000_0010;

/// The bit of a set of directions that stands for up.
pub const UP: u8 = 0b0000_0100;

/// The bit of a set of directions that stands for down.
pub const DOWN: u8 = 0b0000_1000;

/// The directions that the player holds, a bit for each.
#[derive(Clone, Copy, Debug, PartialEq, Eq, Structural)]
pub struct PlayerDirection {
    pub bits: u8,
}

impl PlayerDirection {
    /// No direction.
    pub fn empty() -> (d: PlayerDirection)
        ensures
            d.bits == 0,
    {
        PlayerDirection { bits: 0 }
    }

    /// Whether all directions of `flags` are held.
    pub open spec fn spec_contains(self, flags: u8) -> bool {
        self.bits & flags == flags
    }

    /// Whether all directions of `flags` are held.
    pub fn contains(&self, flags: u8) -> (r: bool)
        ensures
            r == self.spec_contains(flags),
    {
        self.bits & flags == flags
    }

    /// Holds the directions of `flags` too.
    pub fn insert(&mut self, flags: u8)
        ensures
            final(self).bits == old(self).bits | flags,
    {
        self.bits = self.bits | flags;
    }

    /// Lets go of the directions of `flags`.
    pub fn remove(&mut self, flags: u8)
        ensures
            final(self).bits == old(self).bits & !flags,
    {
        self.bits = self.bits & !flags;
    }
}

/// What the player does, as the host reports it once a frame.
#[derive(Clone, Copy)]
pub struct PlayerInput {
    pub direction: PlayerDirection,
    pub button: bool,
    pub code: bool,
    pub pause: bool,
    pub quit: bool,
    pub last_char: char,
    pub save: bool,
    pub load: bool,
    pub state_slot: i8,
}

impl PlayerInput {
    /// A player who does nothing.
    pub fn new() -> (p: PlayerInput)
        ensures
            p.direction.bits == 0,
            !p.button,
            !p.code,
            !p.pause,
            !p.quit,
            p.last_char == '\0',
            !p.save,
            !p.load,
            p.state_slot == 0,
    {
        PlayerInput {
            direction: PlayerDirection::empty(),
            button: false,
            code: false,
            pause: false,
            quit: false,
            last_char: '\0',
            save: false,
            load: false,
            state_slot: 0,
        }
    }
}

impl Default for PlayerInput {
    fn default() -> (p: PlayerInput)
        ensures
            p.direction.bits == 0,
            !p.button,
            !p.code,
            !p.pause,
            !p.quit,
            p.last_char == '\0',
            !p.save,
            !p.load,
            p.state_slot == 0,
    {
        PlayerInput::new()
    }
}

} // verus!
