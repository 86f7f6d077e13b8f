//! The register file: sixteen byte registers `V0..VF`, the index register
//! `I` and the program counter `PC`. `VF` doubles as the carry, borrow and
//! collision flag.

use vstd::prelude::*;

verus! {

/// Number of general-purpose registers.
pub const DATA_REGISTER_COUNT: usize = 16;

#[derive(Debug)]
pub struct Registers {
    /// The general registers `V0..VF`.
    pub v: [u8; DATA_REGISTER_COUNT],
    /// The index register `I`.
    pub i: u16,
    /// The program counter.
    pub pc: u16,
}

impl Registers {
    /// The contents of `V0..VF`, in order.
    pub open spec fn data(&self) -> Seq<u8> {
        self.v@
    }

    /// A register file with every register zero.
    pub fn new() -> (registers: Registers)
        ensures
            registers.data() == Seq::new(DATA_REGISTER_COUNT as nat, |r: int| 0u8),
            registers.i == 0,
            registers.pc == 0,
    {
        let registers = Registers { v: [0; DATA_REGISTER_COUNT], i: 0, pc: 0 };
        assert(registers.data() =~= Seq::new(DATA_REGISTER_COUNT as nat, |r: int| 0u8));
        registers
    }

    /// The value of register `V<register>`.
    pub fn read_v(&self, register: u8) -> (value: u8)
        requires
            register < DATA_REGISTER_COUNT,
        ensures
            self.data().len() == DATA_REGISTER_COUNT,
            value == self.data()[register as int],
    {
        self.v[register as usize]
    }

    /// Sets register `V<register>` and nothing else.
    pub fn write_v(&mut self, register: u8, value: u8)
        requires
            register < DATA_REGISTER_COUNT,
        ensures
            final(self).data() == old(self).data().update(register as int, value),
            final(self).data().len() == DATA_REGISTER_COUNT,
            final(self).i == old(self).i,
            final(self).pc == old(self).pc,
    {
        self.v[register as usize] = value;
    }
}

} // verus!
