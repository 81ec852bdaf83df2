use crate::error::Error;
use crate::invariants::lemma_step_keeps_threads;
use crate::invariants::lemma_step_keeps_wf;
use crate::opcode::Opcode;
use crate::parts::GAME_PART_FIRST;
use crate::parts::GAME_PART_LAST;
use crate::player::DOWN;
use crate::player::LEFT;
use crate::player::PlayerInput;
use crate::player::RIGHT;
use crate::player::UP;
use crate::vm::Effect;
use crate::vm::EffectView;
use crate::vm::INACTIVE_THREAD;
use crate::vm::NUM_THREADS;
use crate::vm::SET_INACTIVE_THREAD;
use crate::vm::Thread;
use crate::vm::VM_VARIABLE_HERO_ACTION;
use crate::vm::VM_VARIABLE_HERO_ACTION_POS_MASK;
use crate::vm::VM_VARIABLE_HERO_POS_JUMP_DOWN;
use crate::vm::VM_VARIABLE_HERO_POS_LEFT_RIGHT;
use crate::vm::VM_VARIABLE_HERO_POS_MASK;
use crate::vm::VM_VARIABLE_HERO_POS_UP_DOWN;
use crate::vm::VM_VARIABLE_LAST_KEYCHAR;
use crate::vm::VM_VARIABLE_MUS_MARK;
use crate::vm::VirtualMachine;
use crate::vm::VmView;
use crate::vm::effect_result;
use crate::vm::spec_thread_synced;
use vstd::prelude::*;

verus! {

impl VirtualMachine {
    /// Does one instruction once it is read.
    #[verifier::rlimit(50)]
    pub fn execute(&mut self, opcode: Opcode) -> (r: Result<Effect, Error>)
        requires
            old(self).wf(),
        ensures
            final(self).wf(),
            final(self)@ == old(self)@.execute(opcode).0,
            effect_result(r) == old(self)@.execute(opcode).1,
    {
        match opcode {
            Opcode::MovConst => self.op_mov_const(),
            Opcode::Mov => self.op_mov(),
            Opcode::Add => self.op_add(),
            Opcode::AddConst => self.op_add_const(),
            Opcode::Call => self.op_call(),
            Opcode::Ret => self.op_ret(),
            Opcode::PauseThread => self.op_pause_thread(),
            Opcode::Jmp => self.op_jmp(),
            Opcode::SetSetVect => self.op_set_set_vect(),
            Opcode::Jnz => self.op_jnz(),
            Opcode::CondJmp => self.op_cond_jmp(),
            Opcode::SetPalette => self.op_set_palette(),
            Opcode::ResetThread => self.op_reset_thread(),
            Opcode::SelectVideoPage => self.op_select_video_page(),
            Opcode::FillVideoPage => self.op_fill_video_page(),
            Opcode::CopyVideoPage => self.op_copy_video_page(),
            Opcode::BlitFrameBuffer => self.op_blit_frame_buffer(),
            Opcode::KillThread => self.op_kill_thread(),
            Opcode::DrawString => self.op_draw_string(),
            Opcode::Sub => self.op_sub(),
            Opcode::And => self.op_and(),
            Opcode::Or => self.op_or(),
            Opcode::Shl => self.op_shl(),
            Opcode::Shr => self.op_shr(),
            Opcode::PlaySound => self.op_play_sound(),
            Opcode::UpdateMemList => self.op_update_memlist(),
            Opcode::PlayMusic => self.op_play_music(),
            Opcode::DrawPolySprite(val) => self.op_draw_poly_sprite(val),
            Opcode::DrawPolyBackground(val) => self.op_draw_poly_background(val),
        }
    }

    /// Runs one instruction of the current thread. `mark` is what the
    /// music has posted since the last instruction, if anything. Returns
    /// what the host has to do; the thread is done for this frame when
    /// `goto_next_thread` is set.
    #[verifier::rlimit(50)]
    pub fn step(&mut self, mark: Option<i16>) -> (r: Result<Effect, Error>)
        requires
            old(self).wf(),
        ensures
            final(self).wf(),
            final(self)@ == old(self)@.step(mark).0,
            effect_result(r) == old(self)@.step(mark).1,
    {
        match mark {
            Some(value) => {
                self.variables[VM_VARIABLE_MUS_MARK] = value;
            },
            None => {},
        }
        let byte = match self.fetch_byte() {
            Ok(byte) => byte,
            Err(e) => {
                return Err(e);
            },
        };
        match Opcode::decode(byte) {
            Ok(opcode) => self.execute(opcode),
            Err(e) => Err(e),
        }
    }

    /// Makes the machine ready to run a part of the game. The host stops
    /// the audio.
    #[verifier::rlimit(50)]
    pub fn init_for_part(&mut self, part_id: u16) -> (r: Result<Effect, Error>)
        requires
            old(self).wf(),
        ensures
            final(self).wf(),
            final(self)@ == old(self)@.init_for_part(part_id).0,
            effect_result(r) == old(self)@.init_for_part(part_id).1,
    {
        self.variables[0xe4] = 0x14;
        match self.resource.setup_part(part_id) {
            Err(e) => {
                return Err(e);
            },
            Ok(_) => {},
        }
        match self.refresh_background() {
            Err(e) => {
                return Err(e);
            },
            Ok(_) => {},
        }
        let thread = Thread::new();
        self.threads = [thread;NUM_THREADS];
        self.threads[0] = Thread { pc: 0, ..thread };
        assert(self@.threads =~= old(self)@.init_for_part(part_id).0.threads);
        Ok(Effect::StopAudio)
    }

    /// Takes over the requests of all threads.
    #[verifier::rlimit(50)]
    pub fn sync_threads(&mut self)
        ensures
            final(self)@ == old(self)@.threads_synced(),
    {
        let mut i: usize = 0;
        while i < NUM_THREADS
            invariant
                i <= NUM_THREADS,
                self@ == (VmView { threads: self@.threads, ..old(self)@ }),
                forall|k: int|
                    0 <= k < NUM_THREADS ==> #[trigger] self@.threads[k] == if k < i {
                        spec_thread_synced(old(self)@.threads[k])
                    } else {
                        old(self)@.threads[k]
                    },
            decreases NUM_THREADS - i,
        {
            let t = self.threads[i];
            let pc = match t.requested_pc_offset {
                Some(pc_offset) => if pc_offset == SET_INACTIVE_THREAD {
                    INACTIVE_THREAD
                } else {
                    pc_offset
                },
                None => t.pc,
            };
            self.threads[i] = Thread {
                pc,
                requested_pc_offset: None,
                is_channel_active_current: t.is_channel_active_requested,
                is_channel_active_requested: t.is_channel_active_requested,
            };
            i = i + 1;
        }
        assert(self@.threads =~= old(self)@.threads_synced().threads);
    }

    /// Starts a frame: makes the switch of part that was asked for, and
    /// takes over the requests of all threads.
    #[verifier::rlimit(50)]
    pub fn check_thread_requests(&mut self) -> (r: Result<Effect, Error>)
        requires
            old(self).wf(),
        ensures
            final(self).wf(),
            final(self)@ == old(self)@.check_thread_requests().0,
            effect_result(r) == old(self)@.check_thread_requests().1,
    {
        let mut effect = Effect::Nothing;
        match self.requested_next_part {
            Some(part) => {
                match self.init_for_part(part) {
                    Err(e) => {
                        return Err(e);
                    },
                    Ok(e) => {
                        effect = e;
                    },
                }
                self.requested_next_part = None;
            },
            None => {},
        }
        self.sync_threads();
        Ok(effect)
    }

    /// Takes the input of the player for a frame into the variables.
    /// Returns whether the game goes on: the player did not quit.
    #[verifier::rlimit(50)]
    pub fn update_player_input(&mut self, input: PlayerInput) -> (r: bool)
        ensures
            r == !input.quit,
            final(self)@ == old(self)@.update_player_input(input),
    {
        if self.resource.current_part_id == GAME_PART_LAST {
            let c = input.last_char;
            if c == '\x08' || c == '\0' || (c >= 'A' && c <= 'Z') {
                self.variables[VM_VARIABLE_LAST_KEYCHAR] = c as i16;
            }
        }
        if input.quit {
            return false;
        }
        if input.code && self.resource.current_part_id != GAME_PART_LAST && self.resource.current_part_id
            != GAME_PART_FIRST {
            self.requested_next_part = Some(GAME_PART_LAST);
        }
        let mut lr: i16 = 0;
        let mut m: i16 = 0;
        let mut ud: i16 = 0;
        if input.direction.contains(RIGHT) {
            lr = 1;
            m = m + 1;
        }
        if input.direction.contains(LEFT) {
            lr = -1;
            m = m + 2;
        }
        if input.direction.contains(DOWN) {
            ud = 1;
            m = m + 4;
        }
        if input.direction.contains(UP) {
            ud = -1;
            m = m + 8;
        }
        self.variables[VM_VARIABLE_HERO_POS_UP_DOWN] = ud;
        self.variables[VM_VARIABLE_HERO_POS_JUMP_DOWN] = ud;
        self.variables[VM_VARIABLE_HERO_POS_LEFT_RIGHT] = lr;
        self.variables[VM_VARIABLE_HERO_POS_MASK] = m;
        if input.button {
            self.variables[VM_VARIABLE_HERO_ACTION] = 1;
            m = m + 0x80;
        } else {
            self.variables[VM_VARIABLE_HERO_ACTION] = 0;
        }
        self.variables[VM_VARIABLE_HERO_ACTION_POS_MASK] = m;
        true
    }

    /// Starts the run of a thread for this frame, if the thread runs:
    /// puts the machine at the place of the thread in the bytecode, with
    /// an empty stack. Returns whether the thread runs.
    pub fn begin_thread(&mut self, thread_id: usize) -> (r: bool)
        requires
            thread_id < NUM_THREADS,
        ensures
            r == old(self)@.runs(thread_id as int),
            final(self)@ == old(self)@.begin_thread(thread_id as int),
    {
        if self.threads[thread_id].is_channel_active_current {
            return false;
        }
        let n = self.threads[thread_id].pc;
        if n == INACTIVE_THREAD {
            return false;
        }
        self.script_ptr = n;
        self.stack_ptr = 0;
        self.goto_next_thread = false;
        true
    }

    /// Ends the run of a thread for this frame: the thread goes on from
    /// where the machine stands.
    pub fn end_thread(&mut self, thread_id: usize)
        requires
            thread_id < NUM_THREADS,
        ensures
            final(self)@ == old(self)@.end_thread(thread_id as int),
    {
        let t = self.threads[thread_id];
        self.threads[thread_id] = Thread { pc: self.script_ptr, ..t };
    }
}

/// Where a frame stands when the host is asked for something: the
/// machine, the thread that runs or is looked at next, whether that
/// thread is in its run, and what is asked of the host.
pub struct FrameView {
    pub vm: VmView,
    pub thread_id: int,
    pub running: bool,
    pub result: Result<EffectView, Error>,
}

/// Where a frame stands, made of its parts.
pub open spec fn spec_frame(vm: VmView, thread_id: int, running: bool, result: Result<EffectView, Error>) -> FrameView {
    FrameView { vm, thread_id, running, result }
}

impl VmView {
    /// The instructions of the current thread, up to `budget` of them,
    /// until the thread is done for this frame, fails, or asks something
    /// of the host. The mark goes to the first instruction.
    pub open spec fn execute_thread(self, mark: Option<i16>, budget: nat) -> (VmView, Result<EffectView, Error>)
        decreases budget,
    {
        if budget == 0 || self.goto_next_thread {
            self.done()
        } else {
            let (next, r) = self.step(mark);
            if r == Ok::<EffectView, Error>(EffectView::Nothing) {
                next.execute_thread(None, (budget - 1) as nat)
            } else {
                (next, r)
            }
        }
    }

    /// The threads of a frame, each in turn from `thread_id` on, up to
    /// `budget` instructions in all: a thread that runs starts at its
    /// place with an empty stack, runs until it is done for this frame,
    /// and goes on from where it stopped in the next frame. The frame
    /// stands still when an instruction fails or asks something of the
    /// host, and when the budget is used up; it is over when the thread
    /// to look at next is `NUM_THREADS`.
    pub open spec fn host_frame(self, thread_id: int, running: bool, mark: Option<i16>, budget: nat) -> FrameView
        decreases budget, 2 * (NUM_THREADS - thread_id) + (if running {
            0int
        } else {
            1int
        }),
    {
        if thread_id < 0 || thread_id >= NUM_THREADS {
            spec_frame(self, NUM_THREADS as int, false, Ok(EffectView::Nothing))
        } else if !running {
            if self.runs(thread_id) {
                self.begin_thread(thread_id).host_frame(thread_id, true, mark, budget)
            } else {
                self.host_frame(thread_id + 1, false, mark, budget)
            }
        } else if self.goto_next_thread {
            self.end_thread(thread_id).host_frame(thread_id + 1, false, mark, budget)
        } else if budget == 0 {
            spec_frame(self, thread_id, true, Ok(EffectView::Nothing))
        } else {
            let (next, r) = self.step(mark);
            if r == Ok::<EffectView, Error>(EffectView::Nothing) {
                next.host_frame(thread_id, true, None, (budget - 1) as nat)
            } else {
                spec_frame(next, thread_id, true, r)
            }
        }
    }
}

/// No request is taken over while the threads of a frame run: from
/// wherever the frame stood to wherever it stands next, every thread
/// keeps its pause, a place that is asked of a thread stays asked of it,
/// and a thread has another place only if its turn came and it ran, so that
/// the place is its own, saved at the end of its run.
pub proof fn lemma_host_frame_applies_no_request(
    v: VmView,
    thread_id: int,
    running: bool,
    mark: Option<i16>,
    budget: nat,
    t: int,
)
    requires
        v.threads.len() == NUM_THREADS,
        0 <= t < NUM_THREADS,
    ensures
        v.host_frame(thread_id, running, mark, budget).vm.threads.len() == NUM_THREADS,
        v.host_frame(thread_id, running, mark, budget).vm.threads[t].is_channel_active_current
            == v.threads[t].is_channel_active_current,
        v.threads[t].requested_pc_offset is Some ==> v.host_frame(
            thread_id,
            running,
            mark,
            budget,
        ).vm.threads[t].requested_pc_offset is Some,
        v.host_frame(thread_id, running, mark, budget).vm.threads[t].pc != v.threads[t].pc ==> thread_id <= t && (
        v.runs(t) || (t == thread_id && running)),
    decreases budget, 2 * (NUM_THREADS - thread_id) + (if running {
        0int
    } else {
        1int
    }),
{
    if thread_id < 0 || thread_id >= NUM_THREADS {
    } else if !running {
        if v.runs(thread_id) {
            lemma_host_frame_applies_no_request(v.begin_thread(thread_id), thread_id, true, mark, budget, t);
        } else {
            lemma_host_frame_applies_no_request(v, thread_id + 1, false, mark, budget, t);
        }
    } else if v.goto_next_thread {
        lemma_host_frame_applies_no_request(v.end_thread(thread_id), thread_id + 1, false, mark, budget, t);
    } else if budget == 0 {
    } else {
        lemma_step_keeps_threads(v, mark, t);
        let (next, r) = v.step(mark);
        if r == Ok::<EffectView, Error>(EffectView::Nothing) {
            lemma_host_frame_applies_no_request(next, thread_id, true, None, (budget - 1) as nat, t);
        }
    }
}

/// The threads of a frame keep the machine well formed.
pub proof fn lemma_host_frame_keeps_wf(v: VmView, thread_id: int, running: bool, mark: Option<i16>, budget: nat)
    requires
        v.wf(),
    ensures
        v.host_frame(thread_id, running, mark, budget).vm.wf(),
    decreases budget, 2 * (NUM_THREADS - thread_id) + (if running {
        0int
    } else {
        1int
    }),
{
    if thread_id < 0 || thread_id >= NUM_THREADS {
    } else if !running {
        if v.runs(thread_id) {
            lemma_host_frame_keeps_wf(v.begin_thread(thread_id), thread_id, true, mark, budget);
        } else {
            lemma_host_frame_keeps_wf(v, thread_id + 1, false, mark, budget);
        }
    } else if v.goto_next_thread {
        lemma_host_frame_keeps_wf(v.end_thread(thread_id), thread_id + 1, false, mark, budget);
    } else if budget == 0 {
    } else {
        lemma_step_keeps_wf(v, mark);
        let (next, r) = v.step(mark);
        if r == Ok::<EffectView, Error>(EffectView::Nothing) {
            lemma_host_frame_keeps_wf(next, thread_id, true, None, (budget - 1) as nat);
        }
    }
}

impl VirtualMachine {
    /// Runs the current thread: up to `budget` instructions, until the
    /// thread is done for this frame, which `goto_next_thread` tells, or
    /// an instruction fails or asks something of the host. `mark` is what
    /// the music has posted since the last instruction.
    pub fn execute_thread(&mut self, mark: Option<i16>, budget: usize) -> (r: Result<Effect, Error>)
        requires
            old(self).wf(),
        ensures
            final(self).wf(),
            final(self)@ == old(self)@.execute_thread(mark, budget as nat).0,
            effect_result(r) == old(self)@.execute_thread(mark, budget as nat).1,
    {
        let mut left = budget;
        let mut next_mark = mark;
        let ghost goal = old(self)@.execute_thread(mark, budget as nat);
        while left > 0 && !self.goto_next_thread
            invariant
                self.wf(),
                self@.execute_thread(next_mark, left as nat) == goal,
                goal == old(self)@.execute_thread(mark, budget as nat),
            decreases left,
        {
            match self.step(next_mark) {
                Ok(Effect::Nothing) => {},
                other => {
                    return other;
                },
            }
            next_mark = None;
            left = left - 1;
        }
        Ok(Effect::Nothing)
    }

    /// Runs the threads of a frame, each in turn from `thread_id` on, up
    /// to `budget` instructions in all. `running` tells whether the
    /// thread `thread_id` is in its run already. Returns the thread to go
    /// on with, whether it is in its run, and what the host has to do
    /// before it calls again with these. The frame is over when the
    /// thread returned is `NUM_THREADS`.
    pub fn host_frame(&mut self, thread_id: usize, running: bool, mark: Option<i16>, budget: usize) -> (r: (
        usize,
        bool,
        Result<Effect, Error>,
    ))
        requires
            old(self).wf(),
        ensures
            final(self).wf(),
            spec_frame(final(self)@, r.0 as int, r.1, effect_result(r.2)) == old(self)@.host_frame(
                thread_id as int,
                running,
                mark,
                budget as nat,
            ),
            r.0 <= NUM_THREADS,
    {
        let mut current = thread_id;
        let mut in_run = running;
        let mut next_mark = mark;
        let mut left = budget;
        let ghost goal = old(self)@.host_frame(thread_id as int, running, mark, budget as nat);
        loop
            invariant
                self.wf(),
                self@.host_frame(current as int, in_run, next_mark, left as nat) == goal,
                goal == old(self)@.host_frame(thread_id as int, running, mark, budget as nat),
            decreases
                    left,
                    2 * (NUM_THREADS - current) + (if in_run {
                        0int
                    } else {
                        1int
                    }),
        {
            if current >= NUM_THREADS {
                return (NUM_THREADS, false, Ok(Effect::Nothing));
            }
            if !in_run {
                if self.begin_thread(current) {
                    in_run = true;
                } else {
                    current = current + 1;
                }
            } else if self.goto_next_thread {
                self.end_thread(current);
                current = current + 1;
                in_run = false;
            } else if left == 0 {
                return (current, true, Ok(Effect::Nothing));
            } else {
                match self.step(next_mark) {
                    Ok(Effect::Nothing) => {},
                    other => {
                        return (current, true, other);
                    },
                }
                next_mark = None;
                left = left - 1;
            }
        }
    }
}

} // verus!
