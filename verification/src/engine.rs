use crate::error::Error;
use crate::parts::game_part;
use crate::parts::GAME_PART_FIRST;
use crate::parts::NUM_PARTS;
use crate::vm::Effect;
use crate::vm::EffectView;
use crate::vm::VirtualMachine;
use vstd::prelude::*;

verus! {

/// The game: a virtual machine made ready for the part to start with.
pub struct Engine {
    pub vm: VirtualMachine,
}

/// The id of the part that a number from 1 to `NUM_PARTS` names.
pub open spec fn spec_game_part(part_num: u8) -> u16 {
    (GAME_PART_FIRST + part_num - 1) as u16
}

/// What an engine or the error of its start is, as mathematical values.
pub open spec fn engine_result(r: Result<(Engine, Effect), Error>) -> Result<EffectView, Error> {
    match r {
        Ok(t) => Ok(t.1@),
        Err(e) => Err(e),
    }
}

impl Engine {
    /// Makes the machine ready for the part that a number from 1 to 10
    /// names, and returns the engine with what the host has to do.
    /// Any other number names no part and is an invalid part. An error
    /// while the part is set up is handed on.
    pub fn new(vm: VirtualMachine, part_num: u8) -> (r: Result<(Engine, Effect), Error>)
        requires
            vm.wf(),
        ensures
            !(1 <= part_num <= NUM_PARTS) ==> r is Err && r->Err_0 == Error::InvalidPart,
            1 <= part_num <= NUM_PARTS ==> engine_result(r) == vm@.init_for_part(spec_game_part(part_num)).1,
            r is Ok ==> r->Ok_0.0.vm.wf() && r->Ok_0.0.vm@ == vm@.init_for_part(spec_game_part(part_num)).0,
            r is Ok ==> r->Ok_0.0.vm@.resource.current_part_id == spec_game_part(part_num),
    {
        let part_id = match game_part(part_num) {
            Ok(part_id) => part_id,
            Err(e) => {
                return Err(e);
            },
        };
        let mut vm = vm;
        proof {
            vm@.set_var(0xe4, 0x14).resource.lemma_setup_part(part_id);
        }
        match vm.init_for_part(part_id) {
            Ok(effect) => Ok((Engine { vm }, effect)),
            Err(e) => Err(e),
        }
    }
}

} // verus!
