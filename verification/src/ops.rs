use crate::error::Error;
use crate::vm::Effect;
use crate::vm::NUM_THREADS;
use crate::vm::SET_INACTIVE_THREAD;
use crate::vm::STACK_SIZE;
use crate::vm::Thread;
use crate::vm::VirtualMachine;
use crate::vm::VmView;
use crate::vm::effect_result;
use vstd::prelude::*;

verus! {

impl VirtualMachine {
    /// Sets a variable to a constant.
    pub fn op_mov_const(&mut self) -> (r: Result<Effect, Error>)
        requires
            old(self).wf(),
        ensures
            final(self).wf(),
            final(self)@ == old(self)@.op_mov_const().0,
            effect_result(r) == old(self)@.op_mov_const().1,
    {
        proof {
            reveal(VmView::op_mov_const);
        }
        if !self.has_bytes(3) {
            return Err(Error::BankCorrupt);
        }
        let variable_id = self.byte_at(0) as usize;
        let value = #[verifier::truncate] (self.word_at(1) as i16);
        self.variables[variable_id] = value;
        self.script_ptr = self.script_ptr + 3;
        Ok(Effect::Nothing)
    }

    /// Sets a variable to the value of another.
    pub fn op_mov(&mut self) -> (r: Result<Effect, Error>)
        requires
            old(self).wf(),
        ensures
            final(self).wf(),
            final(self)@ == old(self)@.op_mov().0,
            effect_result(r) == old(self)@.op_mov().1,
    {
        proof {
            reveal(VmView::op_mov);
        }
        if !self.has_bytes(2) {
            return Err(Error::BankCorrupt);
        }
        let dst_variable_id = self.byte_at(0) as usize;
        let src_variable_id = self.byte_at(1) as usize;
        self.variables[dst_variable_id] = self.variables[src_variable_id];
        self.script_ptr = self.script_ptr + 2;
        Ok(Effect::Nothing)
    }

    /// Adds a variable to another, wrapping round.
    pub fn op_add(&mut self) -> (r: Result<Effect, Error>)
        requires
            old(self).wf(),
        ensures
            final(self).wf(),
            final(self)@ == old(self)@.op_add().0,
            effect_result(r) == old(self)@.op_add().1,
    {
        proof {
            reveal(VmView::op_add);
        }
        if !self.has_bytes(2) {
            return Err(Error::BankCorrupt);
        }
        let dst_variable_id = self.byte_at(0) as usize;
        let src_variable_id = self.byte_at(1) as usize;
        self.variables[dst_variable_id] = self.variables[dst_variable_id].wrapping_add(
            self.variables[src_variable_id],
        );
        self.script_ptr = self.script_ptr + 2;
        Ok(Effect::Nothing)
    }

    /// Adds a constant to a variable, wrapping round.
    pub fn op_add_const(&mut self) -> (r: Result<Effect, Error>)
        requires
            old(self).wf(),
        ensures
            final(self).wf(),
            final(self)@ == old(self)@.op_add_const().0,
            effect_result(r) == old(self)@.op_add_const().1,
    {
        proof {
            reveal(VmView::op_add_const);
        }
        if !self.has_bytes(3) {
            return Err(Error::BankCorrupt);
        }
        let variable_id = self.byte_at(0) as usize;
        let value = #[verifier::truncate] (self.word_at(1) as i16);
        self.variables[variable_id] = self.variables[variable_id].wrapping_add(value);
        self.script_ptr = self.script_ptr + 3;
        Ok(Effect::Nothing)
    }

    /// Subtracts a variable from another, wrapping round.
    pub fn op_sub(&mut self) -> (r: Result<Effect, Error>)
        requires
            old(self).wf(),
        ensures
            final(self).wf(),
            final(self)@ == old(self)@.op_sub().0,
            effect_result(r) == old(self)@.op_sub().1,
    {
        proof {
            reveal(VmView::op_sub);
        }
        if !self.has_bytes(2) {
            return Err(Error::BankCorrupt);
        }
        let i = self.byte_at(0) as usize;
        let j = self.byte_at(1) as usize;
        self.variables[i] = self.variables[i].wrapping_sub(self.variables[j]);
        self.script_ptr = self.script_ptr + 2;
        Ok(Effect::Nothing)
    }

    /// Keeps the bits of a variable that a constant has too.
    pub fn op_and(&mut self) -> (r: Result<Effect, Error>)
        requires
            old(self).wf(),
        ensures
            final(self).wf(),
            final(self)@ == old(self)@.op_and().0,
            effect_result(r) == old(self)@.op_and().1,
    {
        proof {
            reveal(VmView::op_and);
        }
        if !self.has_bytes(3) {
            return Err(Error::BankCorrupt);
        }
        let variable_id = self.byte_at(0) as usize;
        let value = #[verifier::truncate] (self.word_at(1) as i16);
        self.variables[variable_id] = self.variables[variable_id] & value;
        self.script_ptr = self.script_ptr + 3;
        Ok(Effect::Nothing)
    }

    /// Gives a variable the bits of a constant too.
    pub fn op_or(&mut self) -> (r: Result<Effect, Error>)
        requires
            old(self).wf(),
        ensures
            final(self).wf(),
            final(self)@ == old(self)@.op_or().0,
            effect_result(r) == old(self)@.op_or().1,
    {
        proof {
            reveal(VmView::op_or);
        }
        if !self.has_bytes(3) {
            return Err(Error::BankCorrupt);
        }
        let variable_id = self.byte_at(0) as usize;
        let value = #[verifier::truncate] (self.word_at(1) as i16);
        self.variables[variable_id] = self.variables[variable_id] | value;
        self.script_ptr = self.script_ptr + 3;
        Ok(Effect::Nothing)
    }

    /// Shifts a variable left by a constant.
    pub fn op_shl(&mut self) -> (r: Result<Effect, Error>)
        requires
            old(self).wf(),
        ensures
            final(self).wf(),
            final(self)@ == old(self)@.op_shl().0,
            effect_result(r) == old(self)@.op_shl().1,
    {
        proof {
            reveal(VmView::op_shl);
        }
        if !self.has_bytes(3) {
            return Err(Error::BankCorrupt);
        }
        let variable_id = self.byte_at(0) as usize;
        let left_shift = self.word_at(1);
        let v = self.variables[variable_id];
        self.variables[variable_id] = if left_shift < 16 {
            #[verifier::truncate]
            (((#[verifier::truncate] (v as u16)) << left_shift) as i16)
        } else {
            0
        };
        self.script_ptr = self.script_ptr + 3;
        Ok(Effect::Nothing)
    }

    /// Shifts a variable right by a constant.
    pub fn op_shr(&mut self) -> (r: Result<Effect, Error>)
        requires
            old(self).wf(),
        ensures
            final(self).wf(),
            final(self)@ == old(self)@.op_shr().0,
            effect_result(r) == old(self)@.op_shr().1,
    {
        proof {
            reveal(VmView::op_shr);
        }
        if !self.has_bytes(3) {
            return Err(Error::BankCorrupt);
        }
        let variable_id = self.byte_at(0) as usize;
        let right_shift = self.word_at(1);
        let v = self.variables[variable_id];
        self.variables[variable_id] = if right_shift < 16 {
            #[verifier::truncate]
            (((#[verifier::truncate] (v as u16)) >> right_shift) as i16)
        } else {
            0
        };
        self.script_ptr = self.script_ptr + 3;
        Ok(Effect::Nothing)
    }

    /// Calls a subroutine: the place after the call goes on the stack. A
    /// full stack is a stack overflow.
    pub fn op_call(&mut self) -> (r: Result<Effect, Error>)
        requires
            old(self).wf(),
        ensures
            final(self).wf(),
            final(self)@ == old(self)@.op_call().0,
            effect_result(r) == old(self)@.op_call().1,
    {
        proof {
            reveal(VmView::op_call);
        }
        if !self.has_bytes(2) {
            return Err(Error::BankCorrupt);
        }
        let offset = self.word_at(0);
        self.script_ptr = self.script_ptr + 2;
        if self.stack_ptr >= STACK_SIZE {
            return Err(Error::StackOverflow);
        }
        self.script_stack_calls[self.stack_ptr] = self.script_ptr;
        self.stack_ptr = self.stack_ptr + 1;
        self.script_ptr = offset as usize;
        Ok(Effect::Nothing)
    }

    /// Returns from a subroutine to the place on top of the stack. An
    /// empty stack is a stack underflow.
    pub fn op_ret(&mut self) -> (r: Result<Effect, Error>)
        requires
            old(self).wf(),
        ensures
            final(self).wf(),
            final(self)@ == old(self)@.op_ret().0,
            effect_result(r) == old(self)@.op_ret().1,
    {
        proof {
            reveal(VmView::op_ret);
        }
        if self.stack_ptr == 0 {
            return Err(Error::StackUnderflow);
        }
        self.stack_ptr = self.stack_ptr - 1;
        self.script_ptr = self.script_stack_calls[self.stack_ptr];
        Ok(Effect::Nothing)
    }

    /// Ends the run of the thread for this frame.
    pub fn op_pause_thread(&mut self) -> (r: Result<Effect, Error>)
        requires
            old(self).wf(),
        ensures
            final(self).wf(),
            final(self)@ == old(self)@.op_pause_thread().0,
            effect_result(r) == old(self)@.op_pause_thread().1,
    {
        proof {
            reveal(VmView::op_pause_thread);
        }
        self.goto_next_thread = true;
        Ok(Effect::Nothing)
    }

    /// Goes on at another place of the bytecode.
    pub fn op_jmp(&mut self) -> (r: Result<Effect, Error>)
        requires
            old(self).wf(),
        ensures
            final(self).wf(),
            final(self)@ == old(self)@.op_jmp().0,
            effect_result(r) == old(self)@.op_jmp().1,
    {
        proof {
            reveal(VmView::op_jmp);
        }
        if !self.has_bytes(2) {
            return Err(Error::BankCorrupt);
        }
        let pc_offset = self.word_at(0) as usize;
        self.script_ptr = pc_offset;
        Ok(Effect::Nothing)
    }

    /// Asks a thread to go on at a place from the next frame on. The
    /// machine has no thread of a number of `NUM_THREADS` or more.
    pub fn op_set_set_vect(&mut self) -> (r: Result<Effect, Error>)
        requires
            old(self).wf(),
        ensures
            final(self).wf(),
            final(self)@ == old(self)@.op_set_set_vect().0,
            effect_result(r) == old(self)@.op_set_set_vect().1,
    {
        proof {
            reveal(VmView::op_set_set_vect);
        }
        if !self.has_bytes(3) {
            return Err(Error::BankCorrupt);
        }
        let thread_id = self.byte_at(0) as usize;
        let pc_offset_requested = self.word_at(1) as usize;
        self.script_ptr = self.script_ptr + 3;
        if thread_id >= NUM_THREADS {
            return Err(Error::UnknownOpcode);
        }
        let t = self.threads[thread_id];
        self.threads[thread_id] = Thread { requested_pc_offset: Some(pc_offset_requested), ..t };
        Ok(Effect::Nothing)
    }

    /// Takes one off a variable and jumps unless it is 0 then.
    pub fn op_jnz(&mut self) -> (r: Result<Effect, Error>)
        requires
            old(self).wf(),
        ensures
            final(self).wf(),
            final(self)@ == old(self)@.op_jnz().0,
            effect_result(r) == old(self)@.op_jnz().1,
    {
        proof {
            reveal(VmView::op_jnz);
        }
        if !self.has_bytes(3) {
            return Err(Error::BankCorrupt);
        }
        let i = self.byte_at(0) as usize;
        let target = self.word_at(1) as usize;
        self.variables[i] = self.variables[i].wrapping_sub(1);
        if self.variables[i] != 0 {
            self.script_ptr = target;
        } else {
            self.script_ptr = self.script_ptr + 3;
        }
        Ok(Effect::Nothing)
    }

    /// Jumps if a variable compares to the second operand as the opcode
    /// asks.
    pub fn op_cond_jmp(&mut self) -> (r: Result<Effect, Error>)
        requires
            old(self).wf(),
        ensures
            final(self).wf(),
            final(self)@ == old(self)@.op_cond_jmp().0,
            effect_result(r) == old(self)@.op_cond_jmp().1,
    {
        proof {
            reveal(VmView::op_cond_jmp);
        }
        if !self.has_bytes(1) {
            return Err(Error::BankCorrupt);
        }
        let opcode = self.byte_at(0);
        let len: usize = if opcode & 0x80 == 0 && opcode & 0x40 != 0 {
            6
        } else {
            5
        };
        if !self.has_bytes(len) {
            return Err(Error::BankCorrupt);
        }
        let var = self.byte_at(1) as usize;
        let b = self.variables[var];
        let a: i16 = if opcode & 0x80 != 0 {
            let var = self.byte_at(2) as usize;
            self.variables[var]
        } else if opcode & 0x40 != 0 {
            #[verifier::truncate]
            (self.word_at(2) as i16)
        } else {
            self.byte_at(2) as i16
        };
        let c = opcode & 7;
        let expr = if c == 0 {
            b == a
        } else if c == 1 {
            b != a
        } else if c == 2 {
            b > a
        } else if c == 3 {
            b >= a
        } else if c == 4 {
            b < a
        } else if c == 5 {
            b <= a
        } else {
            false
        };
        if expr {
            self.script_ptr = self.word_at(len - 2) as usize;
        } else {
            self.script_ptr = self.script_ptr + len;
        }
        Ok(Effect::Nothing)
    }

    /// Asks the threads from the first operand to the second, taken
    /// modulo `NUM_THREADS`, to run on for mode 0, to be paused for mode
    /// 1, or to become inactive for mode 2, from the next frame on. A
    /// second operand below the first is passed over, the mode not read.
    pub fn op_reset_thread(&mut self) -> (r: Result<Effect, Error>)
        requires
            old(self).wf(),
        ensures
            final(self).wf(),
            final(self)@ == old(self)@.op_reset_thread().0,
            effect_result(r) == old(self)@.op_reset_thread().1,
    {
        proof {
            reveal(VmView::op_reset_thread);
        }
        if !self.has_bytes(2) {
            return Err(Error::BankCorrupt);
        }
        let from = self.byte_at(0) as usize;
        let raw = self.byte_at(1);
        let to: usize = (raw & 0x3f) as usize;
        assert(raw & 0x3f < 64) by (bit_vector);
        if to < from {
            self.script_ptr = self.script_ptr + 2;
            return Ok(Effect::Nothing);
        }
        if !self.has_bytes(3) {
            return Err(Error::BankCorrupt);
        }
        let a = self.byte_at(2);
        self.script_ptr = self.script_ptr + 3;
        if a > 2 {
            return Err(Error::UnknownOpcode);
        }
        let ghost start = self@;
        let mut i: usize = from;
        while i <= to
            invariant
                from <= i <= to + 1,
                to < NUM_THREADS,
                a <= 2,
                self@ == (VmView { threads: self@.threads, ..start }),
                forall|k: int|
                    0 <= k < NUM_THREADS ==> #[trigger] self@.threads[k] == if from <= k < i {
                        if a == 2 {
                            Thread { requested_pc_offset: Some(SET_INACTIVE_THREAD), ..start.threads[k] }
                        } else {
                            Thread { is_channel_active_requested: a != 0, ..start.threads[k] }
                        }
                    } else {
                        start.threads[k]
                    },
            decreases to + 1 - i,
        {
            let t = self.threads[i];
            if a == 2 {
                self.threads[i] = Thread { requested_pc_offset: Some(SET_INACTIVE_THREAD), ..t };
            } else {
                self.threads[i] = Thread { is_channel_active_requested: a != 0, ..t };
            }
            i = i + 1;
        }
        proof {
            if a == 2 {
                assert(self@.threads =~= start.threads_killed(from as int, to as int).threads);
            } else {
                assert(self@.threads =~= start.threads_paused(from as int, to as int, a != 0).threads);
            }
        }
        Ok(Effect::Nothing)
    }
}

} // verus!
