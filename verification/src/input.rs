use crate::player::PlayerDirection;
use crate::player::PlayerInput;
use crate::player::DOWN;
use crate::player::LEFT;
use crate::player::RIGHT;
use crate::player::UP;
use vstd::prelude::*;

verus! {

/// A key of the keyboard, as far as the game tells keys apart.
#[derive(Clone, Copy, Debug, PartialEq, Eq, Structural)]
pub enum Key {
    Escape,
    Left,
    Right,
    Up,
    Down,
    LShift,
    Space,
    Return,
    Backspace,
    /// A letter key, by the upper-case letter on it.
    Letter(u8),
    Other,
}

/// What the host saw happen since the last frame.
#[derive(Clone, Copy, Debug, PartialEq, Eq, Structural)]
pub enum InputEvent {
    Quit,
    KeyDown(Key),
    KeyUp(Key),
    Other,
}

/// The directions that a key steers to: an arrow key, or one of the
/// letters A, D, W and S.
pub open spec fn spec_key_direction(key: Key) -> u8 {
    match key {
        Key::Left => LEFT,
        Key::Right => RIGHT,
        Key::Up => UP,
        Key::Down => DOWN,
        Key::Letter(c) => if c == 0x41 {
            LEFT
        } else if c == 0x44 {
            RIGHT
        } else if c == 0x57 {
            UP
        } else if c == 0x53 {
            DOWN
        } else {
            0u8
        },
        _ => 0u8,
    }
}

/// Whether a key is one of the keys of the button.
pub open spec fn spec_key_is_button(key: Key) -> bool {
    key == Key::LShift || key == Key::Space || key == Key::Return
}

/// The input after one event. Closing the window and the escape key
/// ask to quit. A key that goes down steers, presses the button, or
/// types a character: a letter key its letter, backspace the backspace
/// character; the letter C also asks for the code screen. A key that
/// goes up stops steering or lets go of the button.
pub open spec fn spec_apply_event(input: PlayerInput, event: InputEvent) -> PlayerInput {
    match event {
        InputEvent::Quit => PlayerInput { quit: true, ..input },
        InputEvent::KeyDown(Key::Escape) => PlayerInput { quit: true, ..input },
        InputEvent::KeyDown(key) => PlayerInput {
            direction: PlayerDirection { bits: input.direction.bits | spec_key_direction(key) },
            button: input.button || spec_key_is_button(key),
            code: input.code || key == Key::Letter(0x43),
            last_char: match key {
                Key::Backspace => '\x08',
                Key::Letter(c) => if 0x41 <= c <= 0x5a {
                    c as char
                } else {
                    input.last_char
                },
                _ => input.last_char,
            },
            ..input
        },
        InputEvent::KeyUp(key) => PlayerInput {
            direction: PlayerDirection { bits: input.direction.bits & !spec_key_direction(key) },
            button: input.button && !spec_key_is_button(key),
            ..input
        },
        InputEvent::Other => input,
    }
}

/// The input after the events from index `from` on.
pub open spec fn spec_apply_events(input: PlayerInput, events: Seq<InputEvent>, from: int) -> PlayerInput
    decreases events.len() - from,
{
    if from < 0 || from >= events.len() {
        input
    } else {
        spec_apply_events(spec_apply_event(input, events[from]), events, from + 1)
    }
}

/// The directions that a key steers to.
pub fn key_direction(key: Key) -> (r: u8)
    ensures
        r == spec_key_direction(key),
{
    match key {
        Key::Left => LEFT,
        Key::Right => RIGHT,
        Key::Up => UP,
        Key::Down => DOWN,
        Key::Letter(c) => if c == 0x41 {
            LEFT
        } else if c == 0x44 {
            RIGHT
        } else if c == 0x57 {
            UP
        } else if c == 0x53 {
            DOWN
        } else {
            0
        },
        _ => 0,
    }
}

/// Whether a key is one of the keys of the button.
pub fn key_is_button(key: Key) -> (r: bool)
    ensures
        r == spec_key_is_button(key),
{
    match key {
        Key::LShift => true,
        Key::Space => true,
        Key::Return => true,
        _ => false,
    }
}

/// The keeper of the player's input between frames.
pub struct UserInput {
    pub player_input: PlayerInput,
}

impl UserInput {
    /// A keeper for a player who does nothing yet.
    pub fn new() -> (u: UserInput)
        ensures
            u.player_input.direction.bits == 0,
            !u.player_input.button,
            !u.player_input.code,
            !u.player_input.pause,
            !u.player_input.quit,
            u.player_input.last_char == '\0',
            !u.player_input.save,
            !u.player_input.load,
            u.player_input.state_slot == 0,
    {
        UserInput { player_input: PlayerInput::new() }
    }

    /// Takes one event into the input.
    pub fn apply_event(&mut self, event: InputEvent)
        ensures
            final(self).player_input == spec_apply_event(old(self).player_input, event),
    {
        match event {
            InputEvent::Quit => {
                self.player_input.quit = true;
            },
            InputEvent::KeyDown(key) => {
                if let Key::Escape = key {
                    self.player_input.quit = true;
                } else {
                    let bits = self.player_input.direction.bits | key_direction(key);
                    self.player_input.direction = PlayerDirection { bits };
                    if key_is_button(key) {
                        self.player_input.button = true;
                    }
                    match key {
                        Key::Backspace => {
                            self.player_input.last_char = '\x08';
                        },
                        Key::Letter(c) => {
                            if c == 0x43 {
                                self.player_input.code = true;
                            }
                            if 0x41 <= c && c <= 0x5a {
                                self.player_input.last_char = c as char;
                            }
                        },
                        _ => {},
                    }
                }
            },
            InputEvent::KeyUp(key) => {
                let bits = self.player_input.direction.bits & !key_direction(key);
                self.player_input.direction = PlayerDirection { bits };
                if key_is_button(key) {
                    self.player_input.button = false;
                }
            },
            InputEvent::Other => {},
        }
    }

    /// Takes the events of one frame into the input and returns the
    /// input of that frame. The last character typed is that of this
    /// frame alone, and a request for the code screen is handed out once.
    pub fn process_events(&mut self, events: &[InputEvent]) -> (r: PlayerInput)
        ensures
            r == spec_apply_events((PlayerInput { last_char: '\0', ..old(self).player_input }), events@, 0),
            final(self).player_input == (PlayerInput { code: false, ..r }),
    {
        self.player_input.last_char = '\0';
        let n = events.len();
        let mut k: usize = 0;
        let ghost goal = spec_apply_events(self.player_input, events@, 0);
        while k < n
            invariant
                k <= n,
                n == events@.len(),
                spec_apply_events(self.player_input, events@, k as int) == goal,
            decreases n - k,
        {
            self.apply_event(events[k]);
            k = k + 1;
        }
        let result = self.player_input;
        self.player_input.code = false;
        result
    }
}

} // verus!
