use crate::buffer::spec_be_u16;
use crate::buffer::spec_word_at;
use crate::error::Error;
use crate::mixer::spec_clamp_volume;
use crate::mixer::Mixer;
use crate::mixer::MixerChunk;
use crate::mixer::MixerChunkView;
use crate::mixer::FREQUENCE_TABLE;
use crate::opcode::spec_decode;
use crate::opcode::Opcode;
use crate::parts::GAME_PART_FIRST;
use crate::parts::GAME_PART_LAST;
use crate::player::PlayerInput;
use crate::player::DOWN;
use crate::player::LEFT;
use crate::player::RIGHT;
use crate::player::UP;
use crate::polygon::spec_read_polygons;
use crate::polygon::Point;
use crate::polygon::MAX_DEPTH;
use crate::resource::AssetPlatform;
use crate::resource::Resource;
use crate::resource::ResourceView;
use crate::sfxplayer::SfxModule;
use crate::sfxplayer::SfxModuleView;
use crate::sfxplayer::SfxPlayer;
use crate::util::spec_resize;
use crate::video::palette_view;
use crate::video::spec_palette;
use crate::video::Color;
use crate::video::Palette;
use crate::video::Video;
use crate::video::VideoView;
use vstd::prelude::*;

verus! {

/// Number of variables of the virtual machine.
pub const NUM_VARIABLES: usize = 256;

/// Number of threads of the virtual machine.
pub const NUM_THREADS: usize = 64;

/// The requested program counter that makes a thread inactive.
pub const SET_INACTIVE_THREAD: usize = 0xfffe;

/// The program counter of an inactive thread.
pub const INACTIVE_THREAD: usize = 0xffff;

/// The colour that lets a polygon bring its own.
pub const COLOR_BLACK: u8 = 0xff;

/// The zoom of a polygon drawn at its own size.
pub const DEFAULT_ZOOM: u32 = 0x40;

/// Number of return addresses that the stack holds.
pub const STACK_SIZE: usize = 0xff;

/// Milliseconds of one slice of the frame time.
pub const SLICE_MS: u64 = 20;

/// Palettes of a part have ids below this.
pub const NUM_PALETTES: u8 = 32;

/// Size of the raw bytes of a palette.
pub const PALETTE_BYTES: usize = 32;

pub const VM_VARIABLE_RANDOM_SEED: usize = 0x3c;

pub const VM_VARIABLE_LAST_KEYCHAR: usize = 0xda;

pub const VM_VARIABLE_HERO_POS_UP_DOWN: usize = 0xe5;

pub const VM_VARIABLE_MUS_MARK: usize = 0xf4;

pub const VM_VARIABLE_SCROLL_Y: usize = 0xf9;

pub const VM_VARIABLE_HERO_ACTION: usize = 0xfa;

pub const VM_VARIABLE_HERO_POS_JUMP_DOWN: usize = 0xfb;

pub const VM_VARIABLE_HERO_POS_LEFT_RIGHT: usize = 0xfc;

pub const VM_VARIABLE_HERO_POS_MASK: usize = 0xfd;

pub const VM_VARIABLE_HERO_ACTION_POS_MASK: usize = 0xfe;

pub const VM_VARIABLE_PAUSE_SLICES: usize = 0xff;

/// One of the threads of the bytecode: where it goes on, where it is
/// asked to go on from the next frame, whether it is paused, and whether
/// it is asked to be paused from the next frame.
#[derive(Copy, Clone, Debug, PartialEq, Eq, Structural)]
pub struct Thread {
    pub pc: usize,
    pub requested_pc_offset: Option<usize>,
    pub is_channel_active_current: bool,
    pub is_channel_active_requested: bool,
}

/// An inactive thread without requests.
pub open spec fn spec_thread_new() -> Thread {
    Thread {
        pc: INACTIVE_THREAD,
        requested_pc_offset: None,
        is_channel_active_current: false,
        is_channel_active_requested: false,
    }
}

/// A thread with its requests taken over: it is paused if that was asked
/// for, and it goes on where it was asked to, or is inactive if that was
/// asked for.
pub open spec fn spec_thread_synced(t: Thread) -> Thread {
    Thread {
        pc: match t.requested_pc_offset {
            Some(o) => if o == SET_INACTIVE_THREAD {
                INACTIVE_THREAD
            } else {
                o
            },
            None => t.pc,
        },
        requested_pc_offset: None,
        is_channel_active_current: t.is_channel_active_requested,
        is_channel_active_requested: t.is_channel_active_requested,
    }
}

impl Thread {
    /// An inactive thread without requests.
    pub fn new() -> (t: Thread)
        ensures
            t == spec_thread_new(),
    {
        Thread {
            pc: INACTIVE_THREAD,
            requested_pc_offset: None,
            is_channel_active_current: false,
            is_channel_active_requested: false,
        }
    }
}

/// The segment that polygons are read from.
#[derive(Copy, Clone, Debug, PartialEq, Eq, Structural)]
pub enum VideoBufferSeg {
    Cinematic,
    Video2,
}

/// What the host has to do after an instruction.
pub enum Effect {
    /// Nothing.
    Nothing,
    /// Stop the music and silence the mixer.
    StopAudio,
    /// Silence a channel of the mixer.
    StopChannel(u8),
    /// Play a sound on a channel, at a rate in Hz and at a volume.
    PlayChannel(u8, MixerChunk, u16, u8),
    /// Play a music module at a tempo.
    StartMusic(SfxModule, u16),
    /// Set the tempo of the music.
    SetMusicDelay(u16),
    /// Stop the music.
    StopMusic,
    /// Show the front page once the frame time is over, which the second
    /// part gives in slices, with the palette of the first part if there
    /// is one.
    Blit(Option<Palette>, i16),
}

/// What the host has to do, as mathematical values.
pub enum EffectView {
    Nothing,
    StopAudio,
    StopChannel(u8),
    PlayChannel(u8, MixerChunkView, u16, u8),
    StartMusic(SfxModuleView, u16),
    SetMusicDelay(u16),
    StopMusic,
    Blit(Option<Seq<Color>>, i16),
}

impl Effect {
    pub open spec fn view(&self) -> EffectView {
        match *self {
            Effect::Nothing => EffectView::Nothing,
            Effect::StopAudio => EffectView::StopAudio,
            Effect::StopChannel(c) => EffectView::StopChannel(c),
            Effect::PlayChannel(c, chunk, f, v) => EffectView::PlayChannel(c, chunk@, f, v),
            Effect::StartMusic(m, d) => EffectView::StartMusic(m@, d),
            Effect::SetMusicDelay(d) => EffectView::SetMusicDelay(d),
            Effect::StopMusic => EffectView::StopMusic,
            Effect::Blit(p, s) => EffectView::Blit(palette_view(p), s),
        }
    }
}

/// What an instruction returned, as mathematical values.
pub open spec fn effect_result(r: Result<Effect, Error>) -> Result<EffectView, Error> {
    match r {
        Ok(e) => Ok(e@),
        Err(e) => Err(e),
    }
}

/// The operands of an instruction that draws a sprite: half the place of
/// the polygon in its segment, the place to draw it at, the zoom,
/// whether the polygon is read from the second segment, and the length
/// of the operands in the bytecode.
pub struct SpriteOperands {
    pub offset: usize,
    pub x: i32,
    pub y: i32,
    pub zoom: u32,
    pub video2: bool,
    pub len: usize,
}

/// The virtual machine: the variables, the threads, the resources, the
/// renderer, the part to switch to, the place of the next instruction in
/// the bytecode, the return stack, whether the current thread is done
/// for this frame, the time of the last frame, and the scale of the
/// display.
pub struct VirtualMachine {
    pub variables: [i16; NUM_VARIABLES],
    pub threads: [Thread; NUM_THREADS],
    pub resource: Resource,
    pub video: Video,
    pub requested_next_part: Option<u16>,
    pub script_ptr: usize,
    pub stack_ptr: usize,
    pub goto_next_thread: bool,
    pub video_buffer_seg: VideoBufferSeg,
    pub script_stack_calls: [usize; STACK_SIZE],
    pub last_timestamp: u64,
    pub scale: u32,
}

/// A virtual machine as mathematical values.
#[verifier::ext_equal]
pub struct VmView {
    pub variables: Seq<i16>,
    pub threads: Seq<Thread>,
    pub resource: ResourceView,
    pub video: VideoView,
    pub requested_next_part: Option<u16>,
    pub script_ptr: usize,
    pub stack_ptr: usize,
    pub goto_next_thread: bool,
    pub video_buffer_seg: VideoBufferSeg,
    pub script_stack_calls: Seq<usize>,
    pub last_timestamp: u64,
    pub scale: u32,
}

/// The time of a frame in milliseconds, for a number of slices.
pub open spec fn spec_pause_time(pause_slices: i16) -> u64 {
    if pause_slices > 0 {
        (pause_slices * SLICE_MS) as u64
    } else {
        0
    }
}

/// How long to wait before a frame is shown: what is left of the frame
/// time at `now`, when the last frame was shown at `last`.
pub open spec fn spec_time_to_sleep(pause_slices: i16, now: u64, last: u64) -> u64 {
    let elapsed = if now >= last {
        now - last
    } else {
        0
    };
    if spec_pause_time(pause_slices) > elapsed {
        (spec_pause_time(pause_slices) - elapsed) as u64
    } else {
        0
    }
}

/// How long to wait before a frame is shown.
pub fn time_to_sleep(pause_slices: i16, now: u64, last: u64) -> (r: u64)
    ensures
        r == spec_time_to_sleep(pause_slices, now, last),
{
    let pause_time: u64 = if pause_slices > 0 {
        pause_slices as u64 * SLICE_MS
    } else {
        0
    };
    let elapsed: u64 = if now >= last {
        now - last
    } else {
        0
    };
    if pause_time > elapsed {
        pause_time - elapsed
    } else {
        0
    }
}

/// A frame is shown no sooner than its frame time after the last one:
/// the time since the last frame and the time to wait come to the frame
/// time at least, and no wait is longer than the frame time.
pub proof fn lemma_frame_pacing(pause_slices: i16, now: u64, last: u64)
    requires
        now >= last,
    ensures
        (now - last) + spec_time_to_sleep(pause_slices, now, last) >= pause_slices * SLICE_MS,
        spec_time_to_sleep(pause_slices, now, last) <= spec_pause_time(pause_slices),
        pause_slices >= 0 ==> spec_pause_time(pause_slices) == pause_slices * SLICE_MS,
{
}

/// The comparison that a conditional jump makes between the variable
/// `b` and the operand `a`: the low three bits of the opcode choose
/// equal, not equal, greater, greater or equal, less, or less or equal;
/// 6 and 7 never jump.
pub open spec fn spec_condition(op: u8, b: i16, a: i16) -> bool {
    let c = op & 7;
    if c == 0 {
        b == a
    } else if c == 1 {
        b != a
    } else if c == 2 {
        b > a
    } else if c == 3 {
        b >= a
    } else if c == 4 {
        b < a
    } else if c == 5 {
        b <= a
    } else {
        false
    }
}

/// A variable shifted left as 16 bits; a shift by 16 or more leaves 0.
pub open spec fn spec_shl(v: i16, shift: u16) -> i16 {
    if shift < 16 {
        ((v as u16) << shift) as i16
    } else {
        0
    }
}

/// A variable shifted right as 16 unsigned bits; a shift by 16 or more
/// leaves 0.
pub open spec fn spec_shr(v: i16, shift: u16) -> i16 {
    if shift < 16 {
        ((v as u16) >> shift) as i16
    } else {
        0
    }
}

/// The value of the variable that tells which way the player steers on
/// one axis: 1 for the first direction, -1 for the second, which wins.
pub open spec fn spec_axis(first: bool, second: bool) -> i16 {
    if second {
        -1i16
    } else if first {
        1i16
    } else {
        0i16
    }
}

/// The directions that the player holds as a mask: 1 for right, 2 for
/// left, 4 for down and 8 for up.
pub open spec fn spec_direction_mask(input: PlayerInput) -> i16 {
    ((if input.direction.spec_contains(RIGHT) {
        1int
    } else {
        0int
    }) + (if input.direction.spec_contains(LEFT) {
        2int
    } else {
        0int
    }) + (if input.direction.spec_contains(DOWN) {
        4int
    } else {
        0int
    }) + (if input.direction.spec_contains(UP) {
        8int
    } else {
        0int
    })) as i16
}

/// Whether a character is one that the password screen takes.
pub open spec fn spec_is_key_char(c: char) -> bool {
    c == '\x08' || c == '\0' || ('A' <= c && c <= 'Z')
}

impl VmView {
    /// The parts have the lengths that a virtual machine gives them, and
    /// the resources and the renderer are well formed.
    pub open spec fn wf(self) -> bool {
        &&& self.variables.len() == NUM_VARIABLES
        &&& self.threads.len() == NUM_THREADS
        &&& self.script_stack_calls.len() == STACK_SIZE
        &&& self.stack_ptr <= STACK_SIZE
        &&& self.resource.wf()
        &&& self.video.wf()
    }

    /// Where the next byte of the bytecode lies in the arena.
    pub open spec fn code_addr(self) -> int {
        self.resource.seg_bytecode + self.script_ptr
    }

    /// Whether the next `k` bytes of the bytecode lie in the arena.
    pub open spec fn has_bytes(self, k: int) -> bool {
        self.code_addr() + k <= self.resource.memory.len()
    }

    /// The byte `k` bytes after the next byte of the bytecode.
    pub open spec fn byte(self, k: int) -> u8 {
        self.resource.memory[self.code_addr() + k]
    }

    /// The word `k` bytes after the next byte of the bytecode.
    pub open spec fn word(self, k: int) -> u16 {
        spec_word_at(self.resource.memory, self.code_addr() + k)
    }

    /// The machine `k` bytes further in the bytecode.
    pub open spec fn skip(self, k: int) -> VmView {
        VmView { script_ptr: (self.script_ptr + k) as usize, ..self }
    }

    /// The machine at place `target` of the bytecode.
    pub open spec fn jump(self, target: u16) -> VmView {
        VmView { script_ptr: target as usize, ..self }
    }

    /// The value of a variable.
    pub open spec fn var(self, i: int) -> i16 {
        self.variables[i]
    }

    /// The machine with one variable set.
    pub open spec fn set_var(self, i: int, v: i16) -> VmView {
        VmView { variables: self.variables.update(i, v), ..self }
    }

    /// The machine with another renderer.
    pub open spec fn with_video(self, video: VideoView) -> VmView {
        VmView { video, ..self }
    }

    /// The machine with other resources.
    pub open spec fn with_resource(self, resource: ResourceView) -> VmView {
        VmView { resource, ..self }
    }

    /// The machine with one thread replaced.
    pub open spec fn with_thread(self, i: int, t: Thread) -> VmView {
        VmView { threads: self.threads.update(i, t), ..self }
    }

    /// The instruction went well and asks nothing of the host.
    pub open spec fn done(self) -> (VmView, Result<EffectView, Error>) {
        (self, Ok(EffectView::Nothing))
    }

    /// The instruction went well and asks `effect` of the host.
    pub open spec fn with_effect(self, effect: EffectView) -> (VmView, Result<EffectView, Error>) {
        (self, Ok(effect))
    }

    /// The instruction failed.
    pub open spec fn failed(self, e: Error) -> (VmView, Result<EffectView, Error>) {
        (self, Err(e))
    }

    /// Sets a variable to a constant.
    #[verifier::opaque]
    pub open spec fn op_mov_const(self) -> (VmView, Result<EffectView, Error>) {
        if !self.has_bytes(3) {
            self.failed(Error::BankCorrupt)
        } else {
            self.set_var(self.byte(0) as int, self.word(1) as i16).skip(3).done()
        }
    }

    /// Sets a variable to the value of another.
    #[verifier::opaque]
    pub open spec fn op_mov(self) -> (VmView, Result<EffectView, Error>) {
        if !self.has_bytes(2) {
            self.failed(Error::BankCorrupt)
        } else {
            self.set_var(self.byte(0) as int, self.var(self.byte(1) as int)).skip(2).done()
        }
    }

    /// Adds a variable to another, wrapping round.
    #[verifier::opaque]
    pub open spec fn op_add(self) -> (VmView, Result<EffectView, Error>) {
        if !self.has_bytes(2) {
            self.failed(Error::BankCorrupt)
        } else {
            self.set_var(
                self.byte(0) as int,
                self.var(self.byte(0) as int).wrapping_add(self.var(self.byte(1) as int)),
            ).skip(2).done()
        }
    }

    /// Adds a constant to a variable, wrapping round.
    #[verifier::opaque]
    pub open spec fn op_add_const(self) -> (VmView, Result<EffectView, Error>) {
        if !self.has_bytes(3) {
            self.failed(Error::BankCorrupt)
        } else {
            self.set_var(self.byte(0) as int, self.var(self.byte(0) as int).wrapping_add(self.word(1) as i16)).skip(
                3,
            ).done()
        }
    }

    /// Subtracts a variable from another, wrapping round.
    #[verifier::opaque]
    pub open spec fn op_sub(self) -> (VmView, Result<EffectView, Error>) {
        if !self.has_bytes(2) {
            self.failed(Error::BankCorrupt)
        } else {
            self.set_var(
                self.byte(0) as int,
                self.var(self.byte(0) as int).wrapping_sub(self.var(self.byte(1) as int)),
            ).skip(2).done()
        }
    }

    /// Keeps the bits of a variable that a constant has too.
    #[verifier::opaque]
    pub open spec fn op_and(self) -> (VmView, Result<EffectView, Error>) {
        if !self.has_bytes(3) {
            self.failed(Error::BankCorrupt)
        } else {
            self.set_var(self.byte(0) as int, self.var(self.byte(0) as int) & (self.word(1) as i16)).skip(3).done()
        }
    }

    /// Gives a variable the bits of a constant too.
    #[verifier::opaque]
    pub open spec fn op_or(self) -> (VmView, Result<EffectView, Error>) {
        if !self.has_bytes(3) {
            self.failed(Error::BankCorrupt)
        } else {
            self.set_var(self.byte(0) as int, self.var(self.byte(0) as int) | (self.word(1) as i16)).skip(3).done()
        }
    }

    /// Shifts a variable left by a constant.
    #[verifier::opaque]
    pub open spec fn op_shl(self) -> (VmView, Result<EffectView, Error>) {
        if !self.has_bytes(3) {
            self.failed(Error::BankCorrupt)
        } else {
            self.set_var(self.byte(0) as int, spec_shl(self.var(self.byte(0) as int), self.word(1))).skip(3).done()
        }
    }

    /// Shifts a variable right by a constant.
    #[verifier::opaque]
    pub open spec fn op_shr(self) -> (VmView, Result<EffectView, Error>) {
        if !self.has_bytes(3) {
            self.failed(Error::BankCorrupt)
        } else {
            self.set_var(self.byte(0) as int, spec_shr(self.var(self.byte(0) as int), self.word(1))).skip(3).done()
        }
    }

    /// Calls a subroutine: the place after the call goes on the stack. A
    /// full stack is a stack overflow.
    #[verifier::opaque]
    pub open spec fn op_call(self) -> (VmView, Result<EffectView, Error>) {
        if !self.has_bytes(2) {
            self.failed(Error::BankCorrupt)
        } else if self.stack_ptr >= STACK_SIZE {
            self.skip(2).failed(Error::StackOverflow)
        } else {
            (VmView {
                script_stack_calls: self.script_stack_calls.update(
                    self.stack_ptr as int,
                    (self.script_ptr + 2) as usize,
                ),
                stack_ptr: (self.stack_ptr + 1) as usize,
                script_ptr: self.word(0) as usize,
                ..self
            }).done()
        }
    }

    /// Returns from a subroutine to the place on top of the stack. An
    /// empty stack is a stack underflow.
    #[verifier::opaque]
    pub open spec fn op_ret(self) -> (VmView, Result<EffectView, Error>) {
        if self.stack_ptr == 0 {
            self.failed(Error::StackUnderflow)
        } else {
            (VmView {
                stack_ptr: (self.stack_ptr - 1) as usize,
                script_ptr: self.script_stack_calls[self.stack_ptr - 1],
                ..self
            }).done()
        }
    }

    /// Ends the run of the thread for this frame.
    #[verifier::opaque]
    pub open spec fn op_pause_thread(self) -> (VmView, Result<EffectView, Error>) {
        (VmView { goto_next_thread: true, ..self }).done()
    }

    /// Goes on at another place of the bytecode.
    #[verifier::opaque]
    pub open spec fn op_jmp(self) -> (VmView, Result<EffectView, Error>) {
        if !self.has_bytes(2) {
            self.failed(Error::BankCorrupt)
        } else {
            self.jump(self.word(0)).done()
        }
    }

    /// Asks a thread to go on at a place from the next frame on. The
    /// machine has no thread of a number of `NUM_THREADS` or more.
    #[verifier::opaque]
    pub open spec fn op_set_set_vect(self) -> (VmView, Result<EffectView, Error>) {
        if !self.has_bytes(3) {
            self.failed(Error::BankCorrupt)
        } else if self.byte(0) >= NUM_THREADS {
            self.skip(3).failed(Error::UnknownOpcode)
        } else {
            let t = self.byte(0) as int;
            self.with_thread(
                t,
                Thread { requested_pc_offset: Some(self.word(1) as usize), ..self.threads[t] },
            ).skip(3).done()
        }
    }

    /// Takes one off a variable and jumps unless it is 0 then.
    #[verifier::opaque]
    pub open spec fn op_jnz(self) -> (VmView, Result<EffectView, Error>) {
        if !self.has_bytes(3) {
            self.failed(Error::BankCorrupt)
        } else {
            let v = self.var(self.byte(0) as int).wrapping_sub(1);
            let next = self.set_var(self.byte(0) as int, v);
            if v != 0 {
                next.jump(self.word(1)).done()
            } else {
                next.skip(3).done()
            }
        }
    }

    /// The length of the operands of a conditional jump: a variable or a
    /// byte as second operand makes five bytes, a word six.
    pub open spec fn cond_jmp_len(self) -> int {
        if self.byte(0) & 0x80 == 0 && self.byte(0) & 0x40 != 0 {
            6
        } else {
            5
        }
    }

    /// The second operand of a conditional jump: a variable if the
    /// opcode has bit 7, else a word if it has bit 6, else a byte.
    pub open spec fn cond_jmp_operand(self) -> i16 {
        if self.byte(0) & 0x80 != 0 {
            self.var(self.byte(2) as int)
        } else if self.byte(0) & 0x40 != 0 {
            self.word(2) as i16
        } else {
            self.byte(2) as i16
        }
    }

    /// Jumps if a variable compares to the second operand as the opcode
    /// asks.
    #[verifier::opaque]
    pub open spec fn op_cond_jmp(self) -> (VmView, Result<EffectView, Error>) {
        if !self.has_bytes(1) || !self.has_bytes(self.cond_jmp_len()) {
            self.failed(Error::BankCorrupt)
        } else if spec_condition(self.byte(0), self.var(self.byte(1) as int), self.cond_jmp_operand()) {
            self.jump(self.word(self.cond_jmp_len() - 2)).done()
        } else {
            self.skip(self.cond_jmp_len()).done()
        }
    }

    /// Stages the palette whose number is the high byte of the operand.
    /// A number of `NUM_PALETTES` or more is passed over.
    #[verifier::opaque]
    pub open spec fn op_set_palette(self) -> (VmView, Result<EffectView, Error>) {
        let id = (self.word(0) >> 8) as u8;
        let start = self.resource.seg_palettes + id * PALETTE_BYTES;
        if !self.has_bytes(2) {
            self.failed(Error::BankCorrupt)
        } else if id >= NUM_PALETTES {
            self.skip(2).done()
        } else if start + PALETTE_BYTES > self.resource.memory.len() {
            self.skip(2).failed(Error::BankCorrupt)
        } else {
            self.with_video(
                VideoView {
                    palette_requested: Some(
                        spec_palette(self.resource.memory.subrange(start as int, start + PALETTE_BYTES)),
                    ),
                    ..self.video
                },
            ).skip(2).done()
        }
    }

    /// The threads from `from` to `to` asked to be paused or not.
    pub open spec fn threads_paused(self, from: int, to: int, paused: bool) -> VmView {
        VmView {
            threads: Seq::new(
                self.threads.len(),
                |i: int|
                    if from <= i <= to {
                        Thread { is_channel_active_requested: paused, ..self.threads[i] }
                    } else {
                        self.threads[i]
                    },
            ),
            ..self
        }
    }

    /// The threads from `from` to `to` asked to become inactive.
    pub open spec fn threads_killed(self, from: int, to: int) -> VmView {
        VmView {
            threads: Seq::new(
                self.threads.len(),
                |i: int|
                    if from <= i <= to {
                        Thread { requested_pc_offset: Some(SET_INACTIVE_THREAD), ..self.threads[i] }
                    } else {
                        self.threads[i]
                    },
            ),
            ..self
        }
    }

    /// Asks the threads from the first operand to the second, taken
    /// modulo `NUM_THREADS`, to run on for mode 0, to be paused for mode
    /// 1, or to become inactive for mode 2, from the next frame on. A
    /// second operand below the first is passed over, the mode not read.
    #[verifier::opaque]
    pub open spec fn op_reset_thread(self) -> (VmView, Result<EffectView, Error>) {
        let from = self.byte(0) as int;
        let to = (self.byte(1) & 0x3f) as int;
        if !self.has_bytes(2) {
            self.failed(Error::BankCorrupt)
        } else if to < from {
            self.skip(2).done()
        } else if !self.has_bytes(3) {
            self.failed(Error::BankCorrupt)
        } else if self.byte(2) == 0 || self.byte(2) == 1 {
            self.threads_paused(from, to, self.byte(2) != 0).skip(3).done()
        } else if self.byte(2) == 2 {
            self.threads_killed(from, to).skip(3).done()
        } else {
            self.skip(3).failed(Error::UnknownOpcode)
        }
    }

    /// Chooses the page to draw on.
    #[verifier::opaque]
    pub open spec fn op_select_video_page(self) -> (VmView, Result<EffectView, Error>) {
        if !self.has_bytes(1) {
            self.failed(Error::BankCorrupt)
        } else {
            self.with_video(self.video.select_page(self.byte(0))).skip(1).done()
        }
    }

    /// Fills a page with a colour.
    #[verifier::opaque]
    pub open spec fn op_fill_video_page(self) -> (VmView, Result<EffectView, Error>) {
        if !self.has_bytes(2) {
            self.failed(Error::BankCorrupt)
        } else {
            self.with_video(self.video.fill_page(self.byte(0), self.byte(1))).skip(2).done()
        }
    }

    /// Copies a page to another, scrolled by the scroll variable.
    #[verifier::opaque]
    pub open spec fn op_copy_video_page(self) -> (VmView, Result<EffectView, Error>) {
        if !self.has_bytes(2) {
            self.failed(Error::BankCorrupt)
        } else {
            self.with_video(
                self.video.copy_page(self.byte(0), self.byte(1), self.var(VM_VARIABLE_SCROLL_Y as int)),
            ).skip(2).done()
        }
    }

    /// Makes a frame ready to show and ends the run of the thread for
    /// this frame. The host shows the front page when the frame time is
    /// over.
    #[verifier::opaque]
    pub open spec fn op_blit_frame_buffer(self) -> (VmView, Result<EffectView, Error>) {
        if !self.has_bytes(1) {
            self.failed(Error::BankCorrupt)
        } else {
            (VmView {
                video: self.video.blit(self.byte(0)),
                goto_next_thread: true,
                ..self.set_var(0xf7, 0).skip(1)
            }).with_effect(
                EffectView::Blit(self.video.palette_requested, self.var(VM_VARIABLE_PAUSE_SLICES as int)),
            )
        }
    }

    /// Makes the thread inactive and ends its run.
    #[verifier::opaque]
    pub open spec fn op_kill_thread(self) -> (VmView, Result<EffectView, Error>) {
        (VmView { script_ptr: INACTIVE_THREAD, goto_next_thread: true, ..self }).done()
    }

    /// Draws a text of the table of texts.
    #[verifier::opaque]
    pub open spec fn op_draw_string(self) -> (VmView, Result<EffectView, Error>) {
        if !self.has_bytes(5) {
            self.failed(Error::BankCorrupt)
        } else {
            self.with_video(
                self.video.draw_string_id(
                    self.byte(4),
                    self.byte(2) as u16,
                    self.byte(3) as u16,
                    self.word(0),
                    self.scale,
                ),
            ).skip(5).done()
        }
    }

    /// Plays a sound on a channel, or silences the channel if the volume
    /// is 0. The channel is taken modulo 4. A sound that is not loaded is
    /// passed over; a rate that the table of rates does not have is an
    /// unknown opcode.
    #[verifier::opaque]
    pub open spec fn op_play_sound(self) -> (VmView, Result<EffectView, Error>) {
        let next = self.skip(5);
        if !self.has_bytes(5) {
            self.failed(Error::BankCorrupt)
        } else if self.byte(3) == 0 {
            next.with_effect(EffectView::StopChannel(self.byte(4) & 3))
        } else {
            match self.resource.mixer_chunk(self.word(0)) {
                None => next.done(),
                Some(chunk) => if self.byte(2) >= 40 {
                    next.failed(Error::UnknownOpcode)
                } else {
                    next.with_effect(
                        EffectView::PlayChannel(
                            self.byte(4) & 3,
                            chunk,
                            FREQUENCE_TABLE[self.byte(2) as int],
                            spec_clamp_volume(self.byte(3)),
                        ),
                    )
                },
            }
        }
    }

    /// Plays the music of a resource from a place of its order table, or
    /// sets the tempo if the resource is 0 and the tempo is not, or stops
    /// the music if both are 0.
    #[verifier::opaque]
    pub open spec fn op_play_music(self) -> (VmView, Result<EffectView, Error>) {
        let next = self.skip(5);
        if !self.has_bytes(5) {
            self.failed(Error::BankCorrupt)
        } else if self.word(0) != 0 {
            match self.resource.sfx_module(self.word(0), self.byte(4)) {
                Err(e) => next.failed(e),
                Ok(None) => next.done(),
                Ok(Some(m)) => next.with_effect(
                    EffectView::StartMusic(m, self.resource.sfx_delay(self.word(0), self.word(2))),
                ),
            }
        } else if self.word(2) != 0 {
            next.with_effect(EffectView::SetMusicDelay(self.word(2)))
        } else {
            next.with_effect(EffectView::StopMusic)
        }
    }

    /// The background that the resources hold taken over as page 0,
    /// scaled to the display, if the resources flag one. An image of
    /// another size than a page is an error of the host's display.
    pub open spec fn refresh_background(self) -> (VmView, Result<EffectView, Error>) {
        let data = self.resource.video_page_data();
        let image = if self.scale == 1 {
            data
        } else {
            spec_resize(data, self.scale as u16)
        };
        if !self.resource.copy_vid_ptr {
            self.done()
        } else if self.scale > 0xffff || image.len() != self.video.width * self.video.height {
            self.failed(Error::HostVideo)
        } else {
            (VmView {
                video: self.video.copy_page_buffer(image),
                resource: ResourceView { copy_vid_ptr: false, ..self.resource },
                ..self
            }).done()
        }
    }

    /// Frees what is loaded besides the part for resource 0, asks for
    /// the switch to a part for the id of a part or more, and else loads
    /// a resource and takes over a background that comes with it.
    #[verifier::opaque]
    pub open spec fn op_update_memlist(self) -> (VmView, Result<EffectView, Error>) {
        let next = self.skip(2);
        if !self.has_bytes(2) {
            self.failed(Error::BankCorrupt)
        } else if self.word(0) == 0 {
            next.with_resource(self.resource.invalidate_resource()).with_effect(EffectView::StopAudio)
        } else if self.word(0) >= GAME_PART_FIRST {
            (VmView { requested_next_part: Some(self.word(0)), ..next }).done()
        } else {
            let run = self.resource.load_memory_entry(self.word(0));
            match run.error {
                Some(e) => next.with_resource(run.view).failed(e),
                None => next.with_resource(run.view).refresh_background(),
            }
        }
    }

    /// The polygons at place `offset` of a segment of the arena drawn at
    /// `point`.
    pub open spec fn draw_polygons(self, segment: usize, offset: usize, color: u8, zoom: u32, point: Point) -> (
        VmView,
        Result<EffectView, Error>,
    ) {
        if segment > self.resource.memory.len() {
            self.failed(Error::BankCorrupt)
        } else {
            match spec_read_polygons(
                self.resource.memory.subrange(segment as int, self.resource.memory.len() as int),
                offset as int,
                color,
                zoom,
                point,
                MAX_DEPTH as nat,
            ) {
                Err(e) => self.failed(e),
                Ok(t) => self.with_video(self.video.draw_items(t.0)).done(),
            }
        }
    }

    /// The length of the operands of an instruction that draws a sprite.
    pub open spec fn sprite_len(self, flags: u8) -> int {
        4 + (if flags & 0x30 == 0 {
            1int
        } else {
            0int
        }) + (if flags & 0x0c == 0 {
            1int
        } else {
            0int
        }) + (if flags & 3 == 1 || flags & 3 == 2 {
            1int
        } else {
            0int
        })
    }

    /// The x coordinate of a sprite: a word for the bits 00 of the flags,
    /// a variable for 01, and a byte plus 0x100 for 10 and 11.
    pub open spec fn sprite_x(self, flags: u8) -> i32 {
        if flags & 0x30 == 0 {
            self.word(2) as i32
        } else if flags & 0x30 == 0x10 {
            self.var(self.byte(2) as int) as i32
        } else {
            (self.byte(2) + 0x100) as i32
        }
    }

    /// Where the y coordinate of a sprite starts in the operands.
    pub open spec fn sprite_y_at(self, flags: u8) -> int {
        if flags & 0x30 == 0 {
            4
        } else {
            3
        }
    }

    /// The y coordinate of a sprite: a word for the bits 00 of the flags,
    /// a variable for 01, and a byte for 10 and 11.
    pub open spec fn sprite_y(self, flags: u8) -> i32 {
        let at = self.sprite_y_at(flags);
        if flags & 0x0c == 0 {
            self.word(at) as i32
        } else if flags & 0x0c == 0x04 {
            self.var(self.byte(at) as int) as i32
        } else {
            self.byte(at) as i32
        }
    }

    /// Where the zoom of a sprite lies in the operands, if it has one.
    pub open spec fn sprite_zoom_at(self, flags: u8) -> int {
        self.sprite_y_at(flags) + if flags & 0x0c == 0 {
            2int
        } else {
            1int
        }
    }

    /// The zoom of a sprite: a variable for the bits 01 of the flags, a
    /// byte for 10, and the default zoom for 00 and 11.
    pub open spec fn sprite_zoom(self, flags: u8) -> u32 {
        if flags & 3 == 1 {
            self.var(self.byte(self.sprite_zoom_at(flags)) as int) as u32
        } else if flags & 3 == 2 {
            self.byte(self.sprite_zoom_at(flags)) as u32
        } else {
            DEFAULT_ZOOM
        }
    }

    /// Draws a polygon as a sprite: from the second segment for the bits
    /// 11 of the flags, else from the cinematic segment, at twice the
    /// place that the first operand gives, scaled to the display.
    #[verifier::opaque]
    pub open spec fn op_draw_poly_sprite(self, flags: u8) -> (VmView, Result<EffectView, Error>) {
        let video2 = flags & 3 == 3;
        if !self.has_bytes(self.sprite_len(flags)) {
            self.failed(Error::BankCorrupt)
        } else {
            (VmView {
                video_buffer_seg: if video2 {
                    VideoBufferSeg::Video2
                } else {
                    VideoBufferSeg::Cinematic
                },
                ..self.skip(self.sprite_len(flags))
            }).draw_polygons(
                if video2 {
                    self.resource.seg_video2
                } else {
                    self.resource.seg_cinematic
                },
                self.word(0).wrapping_mul(2) as usize,
                COLOR_BLACK,
                self.sprite_zoom(flags).wrapping_mul(self.scale),
                Point {
                    x: self.sprite_x(flags).wrapping_mul(self.scale as i32),
                    y: self.sprite_y(flags).wrapping_mul(self.scale as i32),
                },
            )
        }
    }

    /// Draws a polygon of the background from the cinematic segment, at
    /// twice the place that the opcode and the first operand give. A
    /// place below the page is moved up to its last row and as far to
    /// the right.
    #[verifier::opaque]
    pub open spec fn op_draw_poly_background(self, val: u8) -> (VmView, Result<EffectView, Error>) {
        let h = self.byte(2) - (self.video.height - 1);
        let x = if h > 0 {
            self.byte(1) + h
        } else {
            self.byte(1) as int
        };
        let y = if h > 0 {
            self.video.height - 1
        } else {
            self.byte(2) as int
        };
        if !self.has_bytes(3) {
            self.failed(Error::BankCorrupt)
        } else {
            (VmView { video_buffer_seg: VideoBufferSeg::Cinematic, ..self.skip(3) }).draw_polygons(
                self.resource.seg_cinematic,
                (spec_be_u16(val & 0x7f, self.byte(0)) * 2) as usize,
                COLOR_BLACK,
                DEFAULT_ZOOM.wrapping_mul(self.scale),
                Point { x: (x as i32).wrapping_mul(self.scale as i32), y: (y as i32).wrapping_mul(self.scale as i32) },
            )
        }
    }

    /// What an instruction does once it is read.
    pub open spec fn execute(self, opcode: Opcode) -> (VmView, Result<EffectView, Error>) {
        match opcode {
            Opcode::MovConst => self.op_mov_const(),
            Opcode::Mov => self.op_mov(),
            Opcode::Add => self.op_add(),
            Opcode::AddConst => self.op_add_const(),
            Opcode::Call => self.op_call(),
            Opcode::Ret => self.op_ret(),
            Opcode::PauseThread => self.op_pause_thread(),
            Opcode::Jmp => self.op_jmp(),
            Opcode::SetSetVect => self.op_set_set_vect(),
            Opcode::Jnz => self.op_jnz(),
            Opcode::CondJmp => self.op_cond_jmp(),
            Opcode::SetPalette => self.op_set_palette(),
            Opcode::ResetThread => self.op_reset_thread(),
            Opcode::SelectVideoPage => self.op_select_video_page(),
            Opcode::FillVideoPage => self.op_fill_video_page(),
            Opcode::CopyVideoPage => self.op_copy_video_page(),
            Opcode::BlitFrameBuffer => self.op_blit_frame_buffer(),
            Opcode::KillThread => self.op_kill_thread(),
            Opcode::DrawString => self.op_draw_string(),
            Opcode::Sub => self.op_sub(),
            Opcode::And => self.op_and(),
            Opcode::Or => self.op_or(),
            Opcode::Shl => self.op_shl(),
            Opcode::Shr => self.op_shr(),
            Opcode::PlaySound => self.op_play_sound(),
            Opcode::UpdateMemList => self.op_update_memlist(),
            Opcode::PlayMusic => self.op_play_music(),
            Opcode::DrawPolySprite(flags) => self.op_draw_poly_sprite(flags),
            Opcode::DrawPolyBackground(val) => self.op_draw_poly_background(val),
        }
    }

    /// One instruction of the current thread: a mark that the music has
    /// posted goes into its variable, then the instruction at the place
    /// of the machine in the bytecode is read and done.
    pub open spec fn step(self, mark: Option<i16>) -> (VmView, Result<EffectView, Error>) {
        let marked = match mark {
            Some(v) => self.set_var(VM_VARIABLE_MUS_MARK as int, v),
            None => self,
        };
        if !marked.has_bytes(1) {
            marked.failed(Error::BankCorrupt)
        } else {
            match spec_decode(marked.byte(0)) {
                Err(e) => marked.skip(1).failed(e),
                Ok(opcode) => marked.skip(1).execute(opcode),
            }
        }
    }

    /// The machine ready to run a part: variable 0xe4 set, the part set
    /// up, its background taken over, and all threads inactive but the
    /// first, which starts at the start of the bytecode. The host stops
    /// the audio.
    pub open spec fn init_for_part(self, part_id: u16) -> (VmView, Result<EffectView, Error>) {
        let marked = self.set_var(0xe4, 0x14);
        let run = marked.resource.setup_part(part_id);
        let loaded = marked.with_resource(run.view);
        match run.error {
            Some(e) => loaded.failed(e),
            None => {
                let (next, r) = loaded.refresh_background();
                match r {
                    Err(e) => next.failed(e),
                    Ok(_) => (VmView {
                        threads: Seq::new(
                            NUM_THREADS as nat,
                            |i: int|
                                if i == 0 {
                                    Thread { pc: 0, ..spec_thread_new() }
                                } else {
                                    spec_thread_new()
                                },
                        ),
                        ..next
                    }).with_effect(EffectView::StopAudio),
                }
            },
        }
    }

    /// The requests of all threads taken over.
    pub open spec fn threads_synced(self) -> VmView {
        VmView { threads: Seq::new(self.threads.len(), |i: int| spec_thread_synced(self.threads[i])), ..self }
    }

    /// The start of a frame: a switch of part that was asked for is made,
    /// and then the requests of all threads are taken over. An error in
    /// the switch leaves the request and the threads as they are.
    pub open spec fn check_thread_requests(self) -> (VmView, Result<EffectView, Error>) {
        match self.requested_next_part {
            None => self.threads_synced().done(),
            Some(part_id) => {
                let (next, r) = self.init_for_part(part_id);
                match r {
                    Err(e) => next.failed(e),
                    Ok(effect) => (VmView { requested_next_part: None, ..next }).threads_synced().with_effect(effect),
                }
            },
        }
    }

    /// The machine after the input of the player for a frame: on the
    /// password screen the character typed goes into its variable; then,
    /// unless the player quits, a request for the code screen asks for
    /// the switch to the last part from any part but the first and the
    /// last, and the variables of the hero are set.
    pub open spec fn update_player_input(self, input: PlayerInput) -> VmView {
        let typed = if self.resource.current_part_id == GAME_PART_LAST && spec_is_key_char(input.last_char) {
            self.set_var(VM_VARIABLE_LAST_KEYCHAR as int, input.last_char as i16)
        } else {
            self
        };
        let asked = if input.code && self.resource.current_part_id != GAME_PART_LAST && self.resource.current_part_id
            != GAME_PART_FIRST {
            VmView { requested_next_part: Some(GAME_PART_LAST), ..typed }
        } else {
            typed
        };
        let ud = spec_axis(input.direction.spec_contains(DOWN), input.direction.spec_contains(UP));
        let lr = spec_axis(input.direction.spec_contains(RIGHT), input.direction.spec_contains(LEFT));
        let m = spec_direction_mask(input);
        if input.quit {
            typed
        } else {
            asked.set_var(VM_VARIABLE_HERO_POS_UP_DOWN as int, ud).set_var(
                VM_VARIABLE_HERO_POS_JUMP_DOWN as int,
                ud,
            ).set_var(VM_VARIABLE_HERO_POS_LEFT_RIGHT as int, lr).set_var(VM_VARIABLE_HERO_POS_MASK as int, m).set_var(
                VM_VARIABLE_HERO_ACTION as int,
                if input.button {
                    1i16
                } else {
                    0i16
                },
            ).set_var(
                VM_VARIABLE_HERO_ACTION_POS_MASK as int,
                if input.button {
                    (m + 0x80) as i16
                } else {
                    m
                },
            )
        }
    }

    /// Whether a thread runs in this frame: it is not paused and not
    /// inactive.
    pub open spec fn runs(self, thread_id: int) -> bool {
        !self.threads[thread_id].is_channel_active_current && self.threads[thread_id].pc != INACTIVE_THREAD
    }

    /// The machine at the start of the run of a thread: at the place of
    /// the thread in the bytecode, with an empty stack.
    pub open spec fn begin_thread(self, thread_id: int) -> VmView {
        if self.runs(thread_id) {
            VmView { script_ptr: self.threads[thread_id].pc, stack_ptr: 0, goto_next_thread: false, ..self }
        } else {
            self
        }
    }

    /// The machine after the run of a thread: the thread goes on from
    /// where the machine stands.
    pub open spec fn end_thread(self, thread_id: int) -> VmView {
        self.with_thread(thread_id, Thread { pc: self.script_ptr, ..self.threads[thread_id] })
    }

    /// The variables that let the game start without its code wheel.
    pub open spec fn bypass_protection(self) -> VmView {
        self.set_var(0xbc, 0x10).set_var(0xc6, 0x80).set_var(0xdc, 33).set_var(
            0xf2,
            if self.resource.asset_platform == AssetPlatform::PC {
                4000i16
            } else {
                6000i16
            },
        )
    }
}

/// A new machine: all variables 0 but 0x54 and the random seed, all
/// threads inactive, nothing on the stack.
pub open spec fn spec_vm_new(resource: ResourceView, video: VideoView, scale: u32, seed: i16) -> VmView {
    VmView {
        variables: Seq::new(NUM_VARIABLES as nat, |i: int| 0i16).update(0x54, 0x81).update(
            VM_VARIABLE_RANDOM_SEED as int,
            seed,
        ),
        threads: Seq::new(NUM_THREADS as nat, |i: int| spec_thread_new()),
        resource,
        video,
        requested_next_part: None,
        script_ptr: 0,
        stack_ptr: 0,
        goto_next_thread: false,
        video_buffer_seg: VideoBufferSeg::Cinematic,
        script_stack_calls: Seq::new(STACK_SIZE as nat, |i: int| 0usize),
        last_timestamp: 0,
        scale,
    }
}

/// `rand::random::<i16>()`: trusted to return a number; nothing is claimed
/// of which.
#[verifier::external_body]
fn random_seed() -> (r: i16) {
    rand::random::<i16>()
}

/// A channel number taken modulo 4.
pub fn channel_of(channel: u8) -> (r: u8)
    ensures
        r == channel & 3,
        r < 4,
{
    let r = channel & 3;
    assert(channel & 3 < 4) by (bit_vector);
    r
}

impl Effect {
    /// Does what an instruction asks of the audio: on the mixer and on
    /// the sequencer of the music. A frame to show asks nothing of them.
    pub fn apply(self, mixer: &mut Mixer, player: &mut SfxPlayer)
        ensures
            match self@ {
                EffectView::Nothing => final(mixer)@ == old(mixer)@ && *final(player) == *old(player),
                EffectView::Blit(_, _) => final(mixer)@ == old(mixer)@ && *final(player) == *old(player),
                EffectView::StopAudio => final(mixer)@ == old(mixer)@.stop_all() && !final(player).playing && final(player).delay == old(player).delay && final(player).sfx_module == old(player).sfx_module,
                EffectView::StopChannel(c) => final(mixer)@ == old(mixer)@.stop(c & 3) && *final(player) == *old(player),
                EffectView::PlayChannel(c, chunk, f, v) => final(mixer)@ == old(mixer)@.play(c & 3, chunk, f, v)
                    && *final(player) == *old(player),
                EffectView::StartMusic(m, d) => final(mixer)@ == old(mixer)@ && final(player).playing && final(player).sfx_module is Some && final(player).sfx_module->Some_0@ == m && final(player).delay
                    == crate::sfxplayer::spec_events_delay(d),
                EffectView::SetMusicDelay(d) => final(mixer)@ == old(mixer)@ && final(player).delay
                    == crate::sfxplayer::spec_events_delay(d) && final(player).playing == old(player).playing && final(
                    player).sfx_module == old(player).sfx_module,
                EffectView::StopMusic => final(mixer)@ == old(mixer)@ && !final(player).playing && final(player).delay
                    == old(player).delay && final(player).sfx_module == old(player).sfx_module,
            },
    {
        match self {
            Effect::Nothing => {},
            Effect::Blit(_, _) => {},
            Effect::StopAudio => {
                player.stop();
                mixer.stop_all();
            },
            Effect::StopChannel(c) => {
                mixer.stop_channel(channel_of(c));
            },
            Effect::PlayChannel(c, chunk, f, v) => {
                mixer.play_channel(channel_of(c), chunk, f, v);
            },
            Effect::StartMusic(m, d) => {
                player.set_sfx_module(m);
                player.set_events_delay(d);
                let _ = player.start();
            },
            Effect::SetMusicDelay(d) => {
                player.set_events_delay(d);
            },
            Effect::StopMusic => {
                player.stop();
            },
        }
    }
}

impl VirtualMachine {
    pub open spec fn view(&self) -> VmView {
        VmView {
            variables: self.variables@,
            threads: self.threads@,
            resource: self.resource@,
            video: self.video@,
            requested_next_part: self.requested_next_part,
            script_ptr: self.script_ptr,
            stack_ptr: self.stack_ptr,
            goto_next_thread: self.goto_next_thread,
            video_buffer_seg: self.video_buffer_seg,
            script_stack_calls: self.script_stack_calls@,
            last_timestamp: self.last_timestamp,
            scale: self.scale,
        }
    }

    /// The invariant of a virtual machine.
    pub open spec fn wf(&self) -> bool {
        self@.wf()
    }

    /// A new machine with a given random seed.
    pub fn with_seed(resource: Resource, video: Video, scale: u32, seed: i16) -> (vm: VirtualMachine)
        requires
            resource.wf(),
            video.wf(),
        ensures
            vm.wf(),
            vm@ == spec_vm_new(resource@, video@, scale, seed),
    {
        let mut variables = [0i16;NUM_VARIABLES];
        variables[0x54] = 0x81;
        variables[VM_VARIABLE_RANDOM_SEED] = seed;
        let thread = Thread::new();
        let vm = VirtualMachine {
            variables,
            threads: [thread;NUM_THREADS],
            resource,
            video,
            requested_next_part: None,
            script_ptr: 0,
            stack_ptr: 0,
            goto_next_thread: false,
            video_buffer_seg: VideoBufferSeg::Cinematic,
            script_stack_calls: [0usize;STACK_SIZE],
            last_timestamp: 0,
            scale,
        };
        assert(vm@.variables =~= spec_vm_new(resource@, video@, scale, seed).variables);
        assert(vm@.threads =~= spec_vm_new(resource@, video@, scale, seed).threads);
        assert(vm@.script_stack_calls =~= spec_vm_new(resource@, video@, scale, seed).script_stack_calls);
        vm
    }

    /// A new machine with a random seed drawn by chance.
    pub fn new(resource: Resource, video: Video, scale: u32) -> (vm: VirtualMachine)
        requires
            resource.wf(),
            video.wf(),
        ensures
            vm.wf(),
            exists|seed: i16| vm@ == spec_vm_new(resource@, video@, scale, seed),
    {
        let seed = random_seed();
        VirtualMachine::with_seed(resource, video, scale, seed)
    }

    /// Sets a variable.
    pub fn set_variable(&mut self, var: usize, value: i16)
        requires
            var < NUM_VARIABLES,
        ensures
            final(self)@ == old(self)@.set_var(var as int, value),
    {
        self.variables[var] = value;
    }

    /// Sets the variables that let the game start without its code wheel.
    pub fn bypass_protection(&mut self)
        ensures
            final(self)@ == old(self)@.bypass_protection(),
    {
        self.variables[0xbc] = 0x10;
        self.variables[0xc6] = 0x80;
        self.variables[0xdc] = 33;
        self.variables[0xf2] = match self.resource.asset_platform {
            AssetPlatform::PC => 4000,
            _ => 6000,
        };
    }

    /// Notes the time at which a frame was shown.
    pub fn blit_done(&mut self, now: u64)
        ensures
            final(self)@ == (VmView { last_timestamp: now, ..old(self)@ }),
    {
        self.last_timestamp = now;
    }

    /// How long the host waits before it shows the frame of a blit, at
    /// the time `now`.
    pub fn frame_delay(&self, pause_slices: i16, now: u64) -> (r: u64)
        ensures
            r == spec_time_to_sleep(pause_slices, now, self@.last_timestamp),
    {
        time_to_sleep(pause_slices, now, self.last_timestamp)
    }

    /// Whether the next `k` bytes of the bytecode lie in the arena.
    pub fn has_bytes(&self, k: usize) -> (r: bool)
        requires
            self.wf(),
        ensures
            r == self@.has_bytes(k as int),
    {
        let total = self.resource.memory.len();
        let seg = self.resource.seg_bytecode;
        seg <= total && self.script_ptr <= total - seg && k <= total - seg - self.script_ptr
    }

    /// The byte `k` bytes after the next byte of the bytecode.
    pub fn byte_at(&self, k: usize) -> (r: u8)
        requires
            self.wf(),
            self@.has_bytes(k + 1),
        ensures
            r == self@.byte(k as int),
    {
        self.resource.read_byte(self.resource.seg_bytecode + self.script_ptr + k)
    }

    /// The word `k` bytes after the next byte of the bytecode.
    pub fn word_at(&self, k: usize) -> (r: u16)
        requires
            self.wf(),
            self@.has_bytes(k + 2),
        ensures
            r == self@.word(k as int),
    {
        self.resource.read_word(self.resource.seg_bytecode + self.script_ptr + k)
    }

    /// Reads the next byte of the bytecode and steps over it.
    pub fn fetch_byte(&mut self) -> (r: Result<u8, Error>)
        requires
            old(self).wf(),
        ensures
            final(self).wf(),
            old(self)@.has_bytes(1) ==> r == Ok::<u8, Error>(old(self)@.byte(0)) && final(self)@ == old(self)@.skip(1),
            !old(self)@.has_bytes(1) ==> r == Err::<u8, Error>(Error::BankCorrupt) && final(self)@ == old(self)@,
    {
        if !self.has_bytes(1) {
            return Err(Error::BankCorrupt);
        }
        let result = self.byte_at(0);
        self.script_ptr = self.script_ptr + 1;
        Ok(result)
    }

    /// Reads the next word of the bytecode and steps over it.
    pub fn fetch_word(&mut self) -> (r: Result<u16, Error>)
        requires
            old(self).wf(),
        ensures
            final(self).wf(),
            old(self)@.has_bytes(2) ==> r == Ok::<u16, Error>(old(self)@.word(0)) && final(self)@ == old(self)@.skip(2),
            !old(self)@.has_bytes(2) ==> r == Err::<u16, Error>(Error::BankCorrupt) && final(self)@ == old(self)@,
    {
        if !self.has_bytes(2) {
            return Err(Error::BankCorrupt);
        }
        let result = self.word_at(0);
        self.script_ptr = self.script_ptr + 2;
        Ok(result)
    }
}

impl VmView {
    /// The machine after the instructions that `marks` gives a mark
    /// each, and what they ask of the host, up to the first instruction
    /// that fails.
    pub open spec fn run(self, marks: Seq<Option<i16>>) -> (VmView, Seq<EffectView>)
        decreases marks.len(),
    {
        if marks.len() == 0 {
            (self, Seq::empty())
        } else {
            let (before, effects) = self.run(marks.drop_last());
            let (next, r) = before.step(marks.last());
            match r {
                Ok(effect) => (next, effects.push(effect)),
                Err(_) => (before, effects),
            }
        }
    }
}

/// Two machines that hold the same values run alike: the same
/// instructions with the same marks leave the same pages, variables and
/// threads, and ask the same of the host.
pub proof fn lemma_run_is_deterministic(a: VirtualMachine, b: VirtualMachine, marks: Seq<Option<i16>>)
    requires
        a@ == b@,
    ensures
        a@.run(marks) == b@.run(marks),
        a@.run(marks).0.video.pages == b@.run(marks).0.video.pages,
        a@.run(marks).1 == b@.run(marks).1,
{
}

/// Two new machines with the same resources, renderer, scale and random
/// seed run alike.
pub proof fn lemma_same_seed_same_run(
    resource: ResourceView,
    video: VideoView,
    scale: u32,
    seed: i16,
    a: VirtualMachine,
    b: VirtualMachine,
    marks: Seq<Option<i16>>,
)
    requires
        a@ == spec_vm_new(resource, video, scale, seed),
        b@ == spec_vm_new(resource, video, scale, seed),
    ensures
        a@.run(marks) == b@.run(marks),
{
}

} // verus!
