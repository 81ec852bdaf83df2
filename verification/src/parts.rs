use crate::error::Error;
use vstd::prelude::*;

verus! {

/// The resources of one part of the game: the ids of its palettes, its
/// bytecode, its cinematic polygons and, for some parts, a second set of
/// polygons.
#[derive(Copy, Clone, Debug, PartialEq, Eq, Structural)]
pub struct Part {
    pub palette: usize,
    pub code: usize,
    pub video1: usize,
    pub video2: Option<usize>,
}

/// Number of parts of the game.
pub const NUM_PARTS: usize = 10;

/// The resource ids of the parts of the game, by part id less
/// `GAME_PART_FIRST`: palettes, bytecode, cinematic polygons, and the
/// second set of polygons or 0 where the part has none.
pub const PARTS: [(usize, usize, usize, usize); 10] = [
    (0x14, 0x15, 0x16, 0),
    (0x17, 0x18, 0x19, 0),
    (0x1A, 0x1B, 0x1C, 0x11),
    (0x1D, 0x1E, 0x1F, 0x11),
    (0x20, 0x21, 0x22, 0x11),
    (0x23, 0x24, 0x25, 0),
    (0x26, 0x27, 0x28, 0x11),
    (0x29, 0x2A, 0x2B, 0x11),
    (0x7D, 0x7E, 0x7F, 0),
    (0x7D, 0x7E, 0x7F, 0),
];

/// The protection screens.
pub const GAME_PART1: u16 = 0x3E80;

/// The introduction.
pub const GAME_PART2: u16 = 0x3E81;

pub const GAME_PART3: u16 = 0x3E82;

pub const GAME_PART4: u16 = 0x3E83;

pub const GAME_PART5: u16 = 0x3E84;

pub const GAME_PART6: u16 = 0x3E85;

pub const GAME_PART7: u16 = 0x3E86;

pub const GAME_PART8: u16 = 0x3E87;

pub const GAME_PART9: u16 = 0x3E88;

/// The password screen.
pub const GAME_PART10: u16 = 0x3E89;

pub const GAME_PART_FIRST: u16 = 0x3E80;

pub const GAME_PART_LAST: u16 = 0x3E89;

/// Whether `part_id` is the id of a part.
pub open spec fn spec_is_part(part_id: u16) -> bool {
    GAME_PART_FIRST <= part_id <= GAME_PART_LAST
}

/// The part with id `part_id`.
pub open spec fn spec_part(part_id: u16) -> Part {
    let t = PARTS[part_id - GAME_PART_FIRST];
    Part {
        palette: t.0,
        code: t.1,
        video1: t.2,
        video2: if t.3 == 0 {
            None
        } else {
            Some(t.3)
        },
    }
}

/// The part with id `part_id`, if there is one.
pub fn part(part_id: u16) -> (r: Option<Part>)
    ensures
        r == if spec_is_part(part_id) {
            Some(spec_part(part_id))
        } else {
            None
        },
{
    if part_id < GAME_PART_FIRST || part_id > GAME_PART_LAST {
        None
    } else {
        let t = PARTS[(part_id - GAME_PART_FIRST) as usize];
        Some(
            Part {
                palette: t.0,
                code: t.1,
                video1: t.2,
                video2: if t.3 == 0 {
                    None
                } else {
                    Some(t.3)
                },
            },
        )
    }
}

/// The id of the part that a number from 1 to 10 names. Any other
/// number names no part.
pub fn game_part(part_num: u8) -> (r: Result<u16, Error>)
    ensures
        r == if 1 <= part_num <= NUM_PARTS {
            Ok::<u16, Error>((GAME_PART_FIRST + part_num - 1) as u16)
        } else {
            Err::<u16, Error>(Error::InvalidPart)
        },
{
    if part_num >= 1 && part_num as usize <= NUM_PARTS {
        Ok(GAME_PART_FIRST + (part_num as u16 - 1))
    } else {
        Err(Error::InvalidPart)
    }
}

} // verus!
