use vstd::prelude::*;
use crate::chip8::cpu::{Emulator, Machine};
use crate::chip8::module::Versions;

verus! {

/// A machine at power-on for the given dialect.
pub fn create_emulator(mode: Versions) -> (r: Emulator)
    ensures
        r@ == Machine::initial(mode),
        r.wf(),
{
    Emulator::new(mode)
}

} // verus!
