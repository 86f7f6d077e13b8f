//! The machine: memory, registers, call stack, timers, display and key
//! latch under one owner, and the engine that executes instructions on them.
//!
//! The engine is specified as a transition function on `MachineState`, the
//! mathematical picture of a machine. Every executable operation states
//! which transition it performs.

use vstd::prelude::*;
use crate::display::{
    blank, Display, DisplayError, SpriteValue, BUILT_IN_SPRITES, DISPLAY_HEIGHT, DISPLAY_WIDTH,
    MAX_SPRITE_ROWS, SPRITE_LEN, SPRITE_START_ADDRESS,
};
use crate::input::{Error, Input};
use crate::memory::{Memory, MemoryError, MEMORY_SIZE};
use crate::opcodes::{Opcode, OpcodeError};
use crate::registers::Registers;
use crate::stack::{Stack, StackError};
use crate::state::{
    font_byte, with_font, with_program, Fault, MachineState, Step, PROGRAM_START_ADDRESS,
};
use crate::timers::Timers;

verus! {

/// What the engine reports when an operation fails: the error of the
/// part that refused, unchanged. Its view is a `Fault`.
#[derive(Debug, PartialEq)]
pub enum Chip8Error {
    /// A call found the stack full, or a return found it empty.
    StackError(StackError),
    /// An address lay outside memory.
    MemoryError(MemoryError),
    /// A word did not decode, or an undefined opcode was to be executed.
    OpcodeError(OpcodeError),
    /// A glyph was asked for a value that is no hexadecimal digit.
    DisplayError(DisplayError),
    /// A key code was asked for while the latch held a name without one.
    InputError(Error),
}

impl View for Chip8Error {
    type V = Fault;

    open spec fn view(&self) -> Fault {
        match self {
            Chip8Error::StackError(e) => Fault::Stack(*e),
            Chip8Error::MemoryError(e) => Fault::Memory(*e),
            Chip8Error::OpcodeError(e) => Fault::Opcode(*e),
            Chip8Error::DisplayError(e) => Fault::Display(*e),
            Chip8Error::InputError(e) => Fault::InvalidKey(e@),
        }
    }
}

impl From<StackError> for Chip8Error {
    fn from(err: StackError) -> (error: Chip8Error) {
        Chip8Error::StackError(err)
    }
}

impl vstd::std_specs::convert::FromSpecImpl<StackError> for Chip8Error {
    open spec fn obeys_from_spec() -> bool {
        true
    }

    open spec fn from_spec(err: StackError) -> Chip8Error {
        Chip8Error::StackError(err)
    }
}

impl From<MemoryError> for Chip8Error {
    fn from(err: MemoryError) -> (error: Chip8Error) {
        Chip8Error::MemoryError(err)
    }
}

impl vstd::std_specs::convert::FromSpecImpl<MemoryError> for Chip8Error {
    open spec fn obeys_from_spec() -> bool {
        true
    }

    open spec fn from_spec(err: MemoryError) -> Chip8Error {
        Chip8Error::MemoryError(err)
    }
}

impl From<OpcodeError> for Chip8Error {
    fn from(err: OpcodeError) -> (error: Chip8Error) {
        Chip8Error::OpcodeError(err)
    }
}

impl vstd::std_specs::convert::FromSpecImpl<OpcodeError> for Chip8Error {
    open spec fn obeys_from_spec() -> bool {
        true
    }

    open spec fn from_spec(err: OpcodeError) -> Chip8Error {
        Chip8Error::OpcodeError(err)
    }
}

impl From<DisplayError> for Chip8Error {
    fn from(err: DisplayError) -> (error: Chip8Error) {
        Chip8Error::DisplayError(err)
    }
}

impl vstd::std_specs::convert::FromSpecImpl<DisplayError> for Chip8Error {
    open spec fn obeys_from_spec() -> bool {
        true
    }

    open spec fn from_spec(err: DisplayError) -> Chip8Error {
        Chip8Error::DisplayError(err)
    }
}

impl From<Error> for Chip8Error {
    fn from(err: Error) -> (error: Chip8Error) {
        Chip8Error::InputError(err)
    }
}

impl vstd::std_specs::convert::FromSpecImpl<Error> for Chip8Error {
    open spec fn obeys_from_spec() -> bool {
        true
    }

    open spec fn from_spec(err: Error) -> Chip8Error {
        Chip8Error::InputError(err)
    }
}

/// The fault that a result reports, if any.
pub open spec fn fault_of(res: Result<(), Chip8Error>) -> Option<Fault> {
    match res {
        Ok(_) => None,
        Err(e) => Some(e@),
    }
}

/// Calls `rand::random::<u8>()`, which draws a byte from the generator of
/// the running thread. Nothing is claimed of the byte: every value may
/// come back. The generator seeds itself from the operating system and
/// panics if that source fails.
#[verifier::external_body]
fn random_byte() -> (byte: u8) {
    rand::random::<u8>()
}

/// One machine, sole owner of all its parts. Its view is the
/// `MachineState` that the parts make up.
#[derive(Debug)]
pub struct Chip8 {
    pub memory: Memory,
    pub registers: Registers,
    pub stack: Stack,
    pub timers: Timers,
    pub display: Display,
    pub input: Input,
}

impl View for Chip8 {
    type V = MachineState;

    open spec fn view(&self) -> MachineState {
        MachineState {
            memory: self.memory@,
            v: self.registers.data(),
            i: self.registers.i,
            pc: self.registers.pc,
            stack: self.stack@,
            delay: self.timers.delay(),
            sound: self.timers.sound(),
            pixels: self.display@,
            key: self.input@,
        }
    }
}

impl Chip8 {
    /// A machine with zeroed memory and registers, an empty stack, stopped
    /// timers, a dark display and no key held down.
    pub fn new() -> (chip8: Chip8)
        ensures
            chip8@ == (MachineState {
                memory: Seq::new(MEMORY_SIZE as nat, |a: int| 0u8),
                v: Seq::new(16, |r: int| 0u8),
                i: 0,
                pc: 0,
                stack: Seq::empty(),
                delay: 0,
                sound: 0,
                pixels: blank(),
                key: None,
            }),
            chip8.display.width == DISPLAY_WIDTH,
            chip8.display.height == DISPLAY_HEIGHT,
    {
        Chip8 {
            memory: Memory::new(),
            registers: Registers::new(),
            stack: Stack::new(),
            timers: Timers::new(),
            display: Display::new(),
            input: Input::new(),
        }
    }

    /// Copies a program into memory, starting at `PROGRAM_START_ADDRESS`.
    pub fn load_rom(&mut self, rom: &[u8])
        requires
            rom@.len() <= MEMORY_SIZE - PROGRAM_START_ADDRESS,
        ensures
            final(self)@ == (MachineState {
                memory: with_program(old(self)@.memory, rom@),
                ..old(self)@
            }),
            final(self).display == old(self).display,
    {
        let mut i: usize = 0;
        proof {
            self.memory.lemma_len();
            assert(self@.memory =~= with_program(old(self)@.memory, rom@.take(0)));
        }
        while i < rom.len()
            invariant
                i <= rom@.len() <= MEMORY_SIZE - PROGRAM_START_ADDRESS,
                self@ == (MachineState {
                    memory: with_program(old(self)@.memory, rom@.take(i as int)),
                    ..old(self)@
                }),
                self.display == old(self).display,
            decreases rom@.len() - i,
        {
            let byte = rom[i];
            let addr = PROGRAM_START_ADDRESS + i;
            self.memory.write_byte(addr, byte).unwrap();
            proof {
                assert(self@.memory =~= with_program(old(self)@.memory, rom@.take(i + 1)));
            }
            i += 1;
        }
        proof {
            assert(rom@.take(i as int) =~= rom@);
        }
    }

    /// Readies the machine for its first instruction: the program counter
    /// goes to `PROGRAM_START_ADDRESS` and the font to its place in memory.
    /// This never fails.
    pub fn boot(&mut self) -> (res: Result<(), Chip8Error>)
        ensures
            res is Ok,
            final(self)@ == (MachineState {
                pc: PROGRAM_START_ADDRESS as u16,
                memory: with_font(old(self)@.memory),
                ..old(self)@
            }),
            final(self).display == old(self).display,
    {
        self.registers.pc = PROGRAM_START_ADDRESS as u16;
        self.load_sprites()
    }

    /// Copies the built-in font into memory at `SPRITE_START_ADDRESS`.
    /// This never fails.
    pub fn load_sprites(&mut self) -> (res: Result<(), Chip8Error>)
        ensures
            res is Ok,
            final(self)@ == (MachineState { memory: with_font(old(self)@.memory), ..old(self)@ }),
            final(self).display == old(self).display,
    {
        let sprite_size = SPRITE_LEN;
        let mut sprite_idx: usize = 0;
        proof {
            self.memory.lemma_len();
        }
        while sprite_idx < BUILT_IN_SPRITES.len()
            invariant
                sprite_idx <= 16,
                sprite_size == SPRITE_LEN,
                self@.memory.len() == MEMORY_SIZE,
                forall|a: int|
                    0 <= a < MEMORY_SIZE ==> #[trigger] self@.memory[a] == if a < sprite_idx
                        * SPRITE_LEN {
                        font_byte(a)
                    } else {
                        old(self)@.memory[a]
                    },
                self@ == (MachineState { memory: self@.memory, ..old(self)@ }),
                self.display == old(self).display,
            decreases 16 - sprite_idx,
        {
            let mut byte_idx: usize = 0;
            while byte_idx < sprite_size
                invariant
                    sprite_idx < 16,
                    byte_idx <= SPRITE_LEN,
                    sprite_size == SPRITE_LEN,
                    self@.memory.len() == MEMORY_SIZE,
                    forall|a: int|
                        0 <= a < MEMORY_SIZE ==> #[trigger] self@.memory[a] == if a < sprite_idx
                            * SPRITE_LEN + byte_idx {
                            font_byte(a)
                        } else {
                            old(self)@.memory[a]
                        },
                    self@ == (MachineState { memory: self@.memory, ..old(self)@ }),
                    self.display == old(self).display,
                decreases SPRITE_LEN - byte_idx,
            {
                let byte = BUILT_IN_SPRITES[sprite_idx][byte_idx];
                let write_addr = SPRITE_START_ADDRESS + sprite_idx * sprite_size + byte_idx;
                match self.memory.write_byte(write_addr, byte) {
                    Ok(()) => {},
                    Err(e) => {
                        return Err(Chip8Error::from(e));
                    },
                }
                byte_idx += 1;
            }
            sprite_idx += 1;
        }
        proof {
            assert(self@.memory =~= with_font(old(self)@.memory));
        }
        Ok(())
    }

    /// The size that the display reports. The engine never changes it.
    pub open spec fn screen_size(&self) -> (usize, usize) {
        (self.display.width, self.display.height)
    }

    /// Holds the key named `key` down, replacing any key held before.
    pub fn press_key(&mut self, key: &str)
        ensures
            final(self)@ == (MachineState { key: Some(key@), ..old(self)@ }),
            final(self).screen_size() == old(self).screen_size(),
    {
        self.input.set_key(key);
    }

    /// Releases the key.
    pub fn release_key(&mut self)
        ensures
            final(self)@ == (MachineState { key: None, ..old(self)@ }),
            final(self).screen_size() == old(self).screen_size(),
    {
        self.input.clear_key();
    }

    /// One tick of the timer clock: each timer counts down by one,
    /// stopping at zero.
    pub fn tick_timers(&mut self)
        ensures
            final(self)@ == old(self)@.tick(),
            final(self).screen_size() == old(self).screen_size(),
    {
        self.timers.decrement_timers();
    }

    /// Fetches and decodes the instruction at the program counter.
    pub fn fetch(&self) -> (res: Result<Opcode, Chip8Error>)
        ensures
            match res {
                Ok(op) => self@.fetch() == Ok::<Opcode, Fault>(op) && op.well_formed(),
                Err(e) => self@.fetch() == Err::<Opcode, Fault>(e@),
            },
    {
        let pc = self.registers.pc as usize;
        let msb = match self.memory.read_byte(pc) {
            Ok(byte) => byte,
            Err(e) => {
                return Err(Chip8Error::from(e));
            },
        };
        let lsb = match self.memory.read_byte(pc + 1) {
            Ok(byte) => byte,
            Err(e) => {
                return Err(Chip8Error::from(e));
            },
        };
        match Opcode::from_bytes(msb, lsb) {
            Ok(op) => Ok(op),
            Err(e) => Err(Chip8Error::from(e)),
        }
    }

    /// One engine step: fetches the instruction at the program counter,
    /// moves the program counter past it and executes it.
    ///
    /// A step that fails leaves the program counter where it was before
    /// the step, on the instruction that failed. If no instruction can be
    /// fetched the machine is left as it was; if the instruction itself
    /// fails, what it had done by then stays, as `MachineState::execute`
    /// says of each instruction.
    ///
    /// The outcome is that of the transition `MachineState::step` for
    /// some random byte; only `Random` depends on which.
    pub fn step(&mut self) -> (res: Result<(), Chip8Error>)
        ensures
            exists|random_byte: u8| #[trigger]
                old(self)@.step(random_byte) == (Step {
                    state: final(self)@,
                    fault: fault_of(res),
                }),
            final(self).screen_size() == old(self).screen_size(),
    {
        let op = match self.fetch() {
            Ok(op) => op,
            Err(e) => {
                assert(old(self)@.step(0) == Step { state: self@, fault: Some(e@) });
                return Err(e);
            },
        };
        let pc = self.registers.pc;
        self.registers.pc = pc.wrapping_add(2);
        let ghost advanced = self@;
        let res = self.execute(op);
        let ghost executed = self@;
        match &res {
            Ok(_) => {},
            Err(_) => {
                self.registers.pc = pc;
            },
        }
        proof {
            let random_byte = choose|random_byte: u8| #[trigger]
                advanced.execute(op, random_byte) == (Step {
                    state: executed,
                    fault: fault_of(res),
                });
            assert(old(self)@.step(random_byte) == Step { state: self@, fault: fault_of(res) });
        }
        res
    }

    /// Executes one decoded instruction.
    ///
    /// The outcome is that of the transition `MachineState::execute` for
    /// some random byte; only `Random` depends on which.
    pub fn execute(&mut self, op: Opcode) -> (res: Result<(), Chip8Error>)
        requires
            op.well_formed(),
        ensures
            exists|random_byte: u8| #[trigger]
                old(self)@.execute(op, random_byte) == (Step {
                    state: final(self)@,
                    fault: fault_of(res),
                }),
            final(self).screen_size() == old(self).screen_size(),
    {
        let byte = match op {
            Opcode::Random(_, _) => random_byte(),
            _ => 0,
        };
        let res = self.execute_with(op, byte);
        assert(old(self)@.execute(op, byte) == Step { state: self@, fault: fault_of(res) });
        res
    }

    /// Executes one decoded instruction, with `random_byte` as the byte
    /// that `Random` consumes.
    pub fn execute_with(&mut self, op: Opcode, random_byte: u8) -> (res: Result<(), Chip8Error>)
        requires
            op.well_formed(),
        ensures
            old(self)@.execute(op, random_byte) == (Step {
                state: final(self)@,
                fault: fault_of(res),
            }),
            final(self).screen_size() == old(self).screen_size(),
    {
        reveal(MachineState::execute);
        match op {
            Opcode::AddByte(vx, val) => self.add_vx_byte(vx, val),
            Opcode::AddI(vx) => self.add_i_vx(vx),
            Opcode::AddReg(vx, vy) => self.add_reg(vx, vy),
            Opcode::And(vx, vy) => self.and(vx, vy),
            Opcode::Call(addr) => {
                return self.call(addr);
            },
            Opcode::Jump(addr) => self.jump(addr),
            Opcode::JumpV0(addr) => self.jump_v0(addr),
            Opcode::LoadByte(vx, byte) => self.load_byte(vx, byte),
            Opcode::LoadDelayTimer(vx) => self.load_delay_timer(vx),
            Opcode::LoadReg(vx, vy) => self.load_register(vx, vy),
            Opcode::Or(vx, vy) => self.or(vx, vy),
            Opcode::Random(vx, byte) => self.random(vx, byte, random_byte),
            Opcode::RegDump(vx) => {
                return self.reg_dump(vx);
            },
            Opcode::RegLoad(vx) => {
                return self.reg_load(vx);
            },
            Opcode::Return => {
                return self.return_from();
            },
            Opcode::SetDelayTimer(vx) => self.set_delay_timer(vx),
            Opcode::SetIndex(addr) => self.set_index(addr),
            Opcode::SetSoundTimer(vx) => self.set_sound_timer(vx),
            Opcode::ShiftLeft(vx) => self.shift_left(vx),
            Opcode::ShiftRight(vx) => self.shift_right(vx),
            Opcode::SkipIfEqual(vx, byte) => self.skip_if_equal(vx, byte),
            Opcode::SkipIfNotEqual(vx, byte) => self.skip_if_not_equal(vx, byte),
            Opcode::SkipIfRegEqual(vx, vy) => self.skip_if_reg_equal(vx, vy),
            Opcode::SkipIfRegNotEqual(vx, vy) => self.skip_if_reg_not_equal(vx, vy),
            Opcode::Sub(vx, vy) => self.sub(vx, vy),
            Opcode::SubN(vx, vy) => self.subn(vx, vy),
            Opcode::Xor(vx, vy) => self.xor(vx, vy),
            Opcode::StoreBCD(vx) => {
                return self.store_bcd(vx);
            },
            Opcode::SysAddr(_) => {},
            Opcode::LoadSpriteAddr(vx) => {
                return self.load_sprite_addr(vx);
            },
            Opcode::Draw(vx, vy, n) => {
                return self.draw(vx, vy, n);
            },
            Opcode::SkipIfKeyNotPressed(vx) => {
                return self.skip_if_key_not_pressed(vx);
            },
            Opcode::SkipIfKeyPressed(vx) => {
                return self.skip_if_key_pressed(vx);
            },
            Opcode::ClearDisplay => self.clear_display(),
            Opcode::WaitForKey(vx) => {
                return self.wait_for_key(vx);
            },
            Opcode::Undefined(opcode) => {
                return Err(Chip8Error::OpcodeError(OpcodeError::InvalidOpcode(opcode)));
            },
        }
        Ok(())
    }

    fn subn(&mut self, vx: u8, vy: u8)
        requires
            vx < 16,
            vy < 16,
        ensures
            final(self)@ == old(self)@.subn(vx, vy),
            final(self).screen_size() == old(self).screen_size(),
    {
        let vx_val = self.registers.read_v(vx);
        let vy_val = self.registers.read_v(vy);

        let result = vy_val.wrapping_sub(vx_val);
        let borrow = vy_val < vx_val;

        self.registers.write_v(vx, result);
        self.registers.write_v(0xF, if borrow { 0 } else { 1 });
    }

    fn skip_if_reg_not_equal(&mut self, vx: u8, vy: u8)
        requires
            vx < 16,
            vy < 16,
        ensures
            final(self)@ == old(self)@.skip_if_reg_not_equal(vx, vy),
            final(self).screen_size() == old(self).screen_size(),
    {
        let vx_val = self.registers.read_v(vx);
        let vy_val = self.registers.read_v(vy);

        if vx_val != vy_val {
            self.registers.pc = self.registers.pc.wrapping_add(2);
        }
    }

    fn xor(&mut self, vx: u8, vy: u8)
        requires
            vx < 16,
            vy < 16,
        ensures
            final(self)@ == old(self)@.xor(vx, vy),
            final(self).screen_size() == old(self).screen_size(),
    {
        let vx_val = self.registers.read_v(vx);
        let vy_val = self.registers.read_v(vy);

        let result = vx_val ^ vy_val;

        self.registers.write_v(vx, result);
    }

    fn store_bcd(&mut self, vx: u8) -> (res: Result<(), Chip8Error>)
        requires
            vx < 16,
        ensures
            old(self)@.store_bcd(vx) == (Step { state: final(self)@, fault: fault_of(res) }),
            final(self).screen_size() == old(self).screen_size(),
    {
        let vx_val = self.registers.read_v(vx);
        let i = self.registers.i as usize;
        let digits = [vx_val / 100, (vx_val / 10) % 10, vx_val % 10];

        let mut place: usize = 0;
        proof {
            self.memory.lemma_len();
            assert(self@.memory =~= Seq::new(
                MEMORY_SIZE as nat,
                |a: int|
                    if i <= a < i + 0 {
                        digits@[a - i]
                    } else {
                        old(self)@.memory[a]
                    },
            ));
        }
        while place < 3
            invariant
                place <= 3,
                vx < 16,
                old(self)@.v.len() == 16,
                old(self)@.memory.len() == MEMORY_SIZE,
                i == old(self)@.i,
                place > 0 ==> i + place <= MEMORY_SIZE,
                digits@ == seq![
                    (old(self)@.v[vx as int] / 100) as u8,
                    ((old(self)@.v[vx as int] / 10) % 10) as u8,
                    (old(self)@.v[vx as int] % 10) as u8,
                ],
                self@ == (MachineState {
                    memory: Seq::new(
                        MEMORY_SIZE as nat,
                        |a: int|
                            if i <= a < i + place {
                                digits@[a - i]
                            } else {
                                old(self)@.memory[a]
                            },
                    ),
                    ..old(self)@
                }),
                self.screen_size() == old(self).screen_size(),
            decreases 3 - place,
        {
            match self.memory.write_byte(i + place, digits[place]) {
                Ok(()) => {},
                Err(e) => {
                    proof {
                        assert(self@.memory =~= old(self)@.store_bcd(vx).state.memory);
                    }
                    return Err(Chip8Error::from(e));
                },
            }
            proof {
                assert(self@.memory =~= Seq::new(
                    MEMORY_SIZE as nat,
                    |a: int|
                        if i <= a < i + place + 1 {
                            digits@[a - i]
                        } else {
                            old(self)@.memory[a]
                        },
                ));
            }
            place += 1;
        }
        proof {
            assert(self@.memory =~= old(self)@.store_bcd(vx).state.memory);
        }
        Ok(())
    }

    fn sub(&mut self, vx: u8, vy: u8)
        requires
            vx < 16,
            vy < 16,
        ensures
            final(self)@ == old(self)@.sub(vx, vy),
            final(self).screen_size() == old(self).screen_size(),
    {
        let vx_val = self.registers.read_v(vx);
        let vy_val = self.registers.read_v(vy);

        let result = vx_val.wrapping_sub(vy_val);
        let borrow = vx_val < vy_val;

        self.registers.write_v(vx, result);
        self.registers.write_v(0xF, if borrow { 0 } else { 1 });
    }

    fn skip_if_not_equal(&mut self, vx: u8, byte: u8)
        requires
            vx < 16,
        ensures
            final(self)@ == old(self)@.skip_if_not_equal(vx, byte),
            final(self).screen_size() == old(self).screen_size(),
    {
        let vx_val = self.registers.read_v(vx);
        if vx_val != byte {
            self.registers.pc = self.registers.pc.wrapping_add(2);
        }
    }

    fn skip_if_reg_equal(&mut self, vx: u8, vy: u8)
        requires
            vx < 16,
            vy < 16,
        ensures
            final(self)@ == old(self)@.skip_if_reg_equal(vx, vy),
            final(self).screen_size() == old(self).screen_size(),
    {
        let vx_val = self.registers.read_v(vx);
        let vy_val = self.registers.read_v(vy);

        if vx_val == vy_val {
            self.registers.pc = self.registers.pc.wrapping_add(2);
        }
    }

    fn skip_if_equal(&mut self, vx: u8, byte: u8)
        requires
            vx < 16,
        ensures
            final(self)@ == old(self)@.skip_if_equal(vx, byte),
            final(self).screen_size() == old(self).screen_size(),
    {
        let vx_val = self.registers.read_v(vx);
        if vx_val == byte {
            self.registers.pc = self.registers.pc.wrapping_add(2);
        }
    }

    fn shift_right(&mut self, vx: u8)
        requires
            vx < 16,
        ensures
            final(self)@ == old(self)@.shift_right(vx),
            final(self).screen_size() == old(self).screen_size(),
    {
        let vx_val = self.registers.read_v(vx);
        let lsb = vx_val & 0b00000001;
        assert(vx_val & 0b00000001 == vx_val % 2 && vx_val >> 1 == vx_val / 2) by (bit_vector);

        self.registers.write_v(vx, vx_val >> 1);
        self.registers.write_v(0xF, lsb);
    }

    fn shift_left(&mut self, vx: u8)
        requires
            vx < 16,
        ensures
            final(self)@ == old(self)@.shift_left(vx),
            final(self).screen_size() == old(self).screen_size(),
    {
        let vx_val = self.registers.read_v(vx);
        let overflow = vx_val & 0b10000000 != 0;
        assert((vx_val & 0b10000000 != 0) == (vx_val >= 0x80) && (vx_val << 1) as int == (vx_val
            as int * 2) % 0x100) by (bit_vector);

        self.registers.write_v(vx, vx_val << 1);
        self.registers.write_v(0xF, if overflow { 1 } else { 0 });
    }

    fn set_sound_timer(&mut self, vx: u8)
        requires
            vx < 16,
        ensures
            final(self)@ == old(self)@.set_sound_timer(vx),
            final(self).screen_size() == old(self).screen_size(),
    {
        let vx_val = self.registers.read_v(vx);
        self.timers.set_sound_timer(vx_val);
    }

    fn set_index(&mut self, addr: u16)
        ensures
            final(self)@ == old(self)@.set_index(addr),
            final(self).screen_size() == old(self).screen_size(),
    {
        self.registers.i = addr;
    }

    fn set_delay_timer(&mut self, vx: u8)
        requires
            vx < 16,
        ensures
            final(self)@ == old(self)@.set_delay_timer(vx),
            final(self).screen_size() == old(self).screen_size(),
    {
        let vx_val = self.registers.read_v(vx);
        self.timers.set_delay_timer(vx_val);
    }

    fn return_from(&mut self) -> (res: Result<(), Chip8Error>)
        ensures
            old(self)@.return_from() == (Step { state: final(self)@, fault: fault_of(res) }),
            final(self).screen_size() == old(self).screen_size(),
    {
        match self.stack.pop() {
            Ok(addr) => {
                self.registers.pc = addr;
                Ok(())
            },
            Err(e) => Err(Chip8Error::from(e)),
        }
    }

    fn reg_load(&mut self, vx: u8) -> (res: Result<(), Chip8Error>)
        requires
            vx < 16,
        ensures
            old(self)@.reg_load(vx) == (Step { state: final(self)@, fault: fault_of(res) }),
            final(self).screen_size() == old(self).screen_size(),
    {
        let mut reg: u8 = 0;
        proof {
            self.memory.lemma_len();
            assert(self@.v =~= Seq::new(
                16,
                |r: int|
                    if r < 0 {
                        old(self)@.memory[old(self)@.i + r]
                    } else {
                        old(self)@.v[r]
                    },
            ));
        }
        while reg <= vx
            invariant
                vx < 16,
                reg <= vx + 1,
                self@.memory.len() == MEMORY_SIZE,
                reg > 0 ==> old(self)@.i + reg - 1 < MEMORY_SIZE,
                self@ == (MachineState {
                    v: Seq::new(
                        16,
                        |r: int|
                            if r < reg {
                                old(self)@.memory[old(self)@.i + r]
                            } else {
                                old(self)@.v[r]
                            },
                    ),
                    ..old(self)@
                }),
                self.screen_size() == old(self).screen_size(),
            decreases vx + 1 - reg,
        {
            let reg_val = match self.memory.read_byte(self.registers.i as usize + reg as usize) {
                Ok(byte) => byte,
                Err(e) => {
                    proof {
                        assert(self@.v =~= old(self)@.reg_load(vx).state.v);
                    }
                    return Err(Chip8Error::from(e));
                },
            };
            self.registers.write_v(reg, reg_val);
            proof {
                assert(self@.v =~= Seq::new(
                    16,
                    |r: int|
                        if r < reg + 1 {
                            old(self)@.memory[old(self)@.i + r]
                        } else {
                            old(self)@.v[r]
                        },
                ));
            }
            reg += 1;
        }
        proof {
            assert(self@.v =~= old(self)@.reg_load(vx).state.v);
        }
        Ok(())
    }

    fn reg_dump(&mut self, vx: u8) -> (res: Result<(), Chip8Error>)
        requires
            vx < 16,
        ensures
            old(self)@.reg_dump(vx) == (Step { state: final(self)@, fault: fault_of(res) }),
            final(self).screen_size() == old(self).screen_size(),
    {
        let mut reg: u8 = 0;
        proof {
            self.memory.lemma_len();
            assert(self@.memory =~= Seq::new(
                MEMORY_SIZE as nat,
                |a: int|
                    if old(self)@.i <= a < old(self)@.i + 0 {
                        old(self)@.v[a - old(self)@.i]
                    } else {
                        old(self)@.memory[a]
                    },
            ));
        }
        while reg <= vx
            invariant
                vx < 16,
                reg <= vx + 1,
                old(self)@.memory.len() == MEMORY_SIZE,
                reg > 0 ==> old(self)@.i + reg <= MEMORY_SIZE,
                self@ == (MachineState {
                    memory: Seq::new(
                        MEMORY_SIZE as nat,
                        |a: int|
                            if old(self)@.i <= a < old(self)@.i + reg {
                                old(self)@.v[a - old(self)@.i]
                            } else {
                                old(self)@.memory[a]
                            },
                    ),
                    ..old(self)@
                }),
                self.screen_size() == old(self).screen_size(),
            decreases vx + 1 - reg,
        {
            let reg_val = self.registers.read_v(reg);
            match self.memory.write_byte(self.registers.i as usize + reg as usize, reg_val) {
                Ok(()) => {},
                Err(e) => {
                    proof {
                        assert(self@.memory =~= old(self)@.reg_dump(vx).state.memory);
                    }
                    return Err(Chip8Error::from(e));
                },
            }
            proof {
                assert(self@.memory =~= Seq::new(
                    MEMORY_SIZE as nat,
                    |a: int|
                        if old(self)@.i <= a < old(self)@.i + reg + 1 {
                            old(self)@.v[a - old(self)@.i]
                        } else {
                            old(self)@.memory[a]
                        },
                ));
            }
            reg += 1;
        }
        proof {
            assert(self@.memory =~= old(self)@.reg_dump(vx).state.memory);
        }
        Ok(())
    }

    fn random(&mut self, vx: u8, byte: u8, random_byte: u8)
        requires
            vx < 16,
        ensures
            final(self)@ == old(self)@.random(vx, byte, random_byte),
            final(self).screen_size() == old(self).screen_size(),
    {
        self.registers.write_v(vx, random_byte & byte);
    }

    fn or(&mut self, vx: u8, vy: u8)
        requires
            vx < 16,
            vy < 16,
        ensures
            final(self)@ == old(self)@.or(vx, vy),
            final(self).screen_size() == old(self).screen_size(),
    {
        let vx_val = self.registers.read_v(vx);
        let vy_val = self.registers.read_v(vy);

        let result = vx_val | vy_val;

        self.registers.write_v(vx, result);
    }

    fn load_register(&mut self, vx: u8, vy: u8)
        requires
            vx < 16,
            vy < 16,
        ensures
            final(self)@ == old(self)@.load_register(vx, vy),
            final(self).screen_size() == old(self).screen_size(),
    {
        let vy_val = self.registers.read_v(vy);
        self.registers.write_v(vx, vy_val);
    }

    fn load_delay_timer(&mut self, vx: u8)
        requires
            vx < 16,
        ensures
            final(self)@ == old(self)@.load_delay_timer(vx),
            final(self).screen_size() == old(self).screen_size(),
    {
        let delay_timer = self.timers.get_delay_timer();
        self.registers.write_v(vx, delay_timer);
    }

    fn load_byte(&mut self, vx: u8, byte: u8)
        requires
            vx < 16,
        ensures
            final(self)@ == old(self)@.load_byte(vx, byte),
            final(self).screen_size() == old(self).screen_size(),
    {
        self.registers.write_v(vx, byte);
    }

    fn jump_v0(&mut self, addr: u16)
        ensures
            final(self)@ == old(self)@.jump_v0(addr),
            final(self).screen_size() == old(self).screen_size(),
    {
        let offset = self.registers.read_v(0) as u16;
        self.jump(offset.wrapping_add(addr));
    }

    fn jump(&mut self, addr: u16)
        ensures
            final(self)@ == old(self)@.jump(addr),
            final(self).screen_size() == old(self).screen_size(),
    {
        self.registers.pc = addr;
    }

    fn call(&mut self, addr: u16) -> (res: Result<(), Chip8Error>)
        ensures
            old(self)@.call(addr) == (Step { state: final(self)@, fault: fault_of(res) }),
            final(self).screen_size() == old(self).screen_size(),
    {
        match self.stack.push(self.registers.pc) {
            Ok(()) => {
                self.registers.pc = addr;
                Ok(())
            },
            Err(e) => Err(Chip8Error::from(e)),
        }
    }

    fn and(&mut self, vx: u8, vy: u8)
        requires
            vx < 16,
            vy < 16,
        ensures
            final(self)@ == old(self)@.and(vx, vy),
            final(self).screen_size() == old(self).screen_size(),
    {
        let vx_val = self.registers.read_v(vx);
        let vy_val = self.registers.read_v(vy);

        let result = vx_val & vy_val;

        self.registers.write_v(vx, result);
    }

    fn add_reg(&mut self, vx: u8, vy: u8)
        requires
            vx < 16,
            vy < 16,
        ensures
            final(self)@ == old(self)@.add_reg(vx, vy),
            final(self).screen_size() == old(self).screen_size(),
    {
        let vx_val = self.registers.read_v(vx);
        let vy_val = self.registers.read_v(vy);

        let result = vx_val.wrapping_add(vy_val);
        let overflow = vx_val as u16 + vy_val as u16 > 0xFF;

        self.registers.write_v(vx, result);
        self.registers.write_v(0xF, if overflow { 1 } else { 0 });
    }

    fn add_vx_byte(&mut self, vx: u8, val: u8)
        requires
            vx < 16,
        ensures
            final(self)@ == old(self)@.add_vx_byte(vx, val),
            final(self).screen_size() == old(self).screen_size(),
    {
        let result = self.registers.read_v(vx).wrapping_add(val);
        self.registers.write_v(vx, result);
    }

    fn add_i_vx(&mut self, vx: u8)
        requires
            vx < 16,
        ensures
            final(self)@ == old(self)@.add_i_vx(vx),
            final(self).screen_size() == old(self).screen_size(),
    {
        let vx_val = self.registers.read_v(vx) as u16;
        self.registers.i = vx_val.wrapping_add(self.registers.i)
    }

    fn load_sprite_addr(&mut self, vx: u8) -> (res: Result<(), Chip8Error>)
        requires
            vx < 16,
        ensures
            old(self)@.load_sprite_addr(vx) == (Step { state: final(self)@, fault: fault_of(res) }),
            final(self).screen_size() == old(self).screen_size(),
    {
        let digit = self.registers.read_v(vx);
        match Display::get_sprite_address(digit) {
            Ok(addr) => {
                self.registers.i = addr as u16;
                Ok(())
            },
            Err(e) => Err(Chip8Error::from(e)),
        }
    }

    fn clear_display(&mut self)
        ensures
            final(self)@ == old(self)@.clear_display(),
            final(self).screen_size() == old(self).screen_size(),
    {
        self.display.clear();
    }

    fn draw(&mut self, vx: u8, vy: u8, n: u8) -> (res: Result<(), Chip8Error>)
        requires
            vx < 16,
            vy < 16,
            n <= MAX_SPRITE_ROWS,
        ensures
            old(self)@.draw(vx, vy, n) == (Step { state: final(self)@, fault: fault_of(res) }),
            final(self).screen_size() == old(self).screen_size(),
    {
        let mut sprite: SpriteValue = Vec::new();
        let mut offset: u8 = 0;
        proof {
            self.memory.lemma_len();
        }
        while offset < n
            invariant
                offset <= n <= MAX_SPRITE_ROWS,
                self@.memory.len() == MEMORY_SIZE,
                offset > 0 ==> self@.i + offset <= MEMORY_SIZE,
                sprite@ == self@.sprite_at_index(offset),
            decreases n - offset,
        {
            let byte = match self.memory.read_byte(self.registers.i as usize + offset as usize) {
                Ok(byte) => byte,
                Err(e) => {
                    return Err(Chip8Error::from(e));
                },
            };
            sprite.push(byte);
            proof {
                assert(sprite@ =~= self@.sprite_at_index((offset + 1) as u8));
            }
            offset += 1;
        }
        let row = self.registers.read_v(vy) as usize;
        let col = self.registers.read_v(vx) as usize;
        let erased = self.display.draw_sprite(row, col, &sprite);
        self.registers.write_v(0xF, if erased { 1 } else { 0 });
        Ok(())
    }

    fn skip_if_key_pressed(&mut self, vx: u8) -> (res: Result<(), Chip8Error>)
        requires
            vx < 16,
        ensures
            old(self)@.skip_if_key_pressed(vx) == (Step {
                state: final(self)@,
                fault: fault_of(res),
            }),
            final(self).screen_size() == old(self).screen_size(),
    {
        let vx_val = self.registers.read_v(vx);
        match self.input.get_key_u8() {
            Ok(Some(code)) => {
                if code == vx_val {
                    self.registers.pc = self.registers.pc.wrapping_add(2);
                }
                Ok(())
            },
            Ok(None) => Ok(()),
            Err(e) => Err(Chip8Error::from(e)),
        }
    }

    fn skip_if_key_not_pressed(&mut self, vx: u8) -> (res: Result<(), Chip8Error>)
        requires
            vx < 16,
        ensures
            old(self)@.skip_if_key_not_pressed(vx) == (Step {
                state: final(self)@,
                fault: fault_of(res),
            }),
            final(self).screen_size() == old(self).screen_size(),
    {
        let vx_val = self.registers.read_v(vx);
        match self.input.get_key_u8() {
            Ok(Some(code)) => {
                if code != vx_val {
                    self.registers.pc = self.registers.pc.wrapping_add(2);
                }
                Ok(())
            },
            Ok(None) => {
                self.registers.pc = self.registers.pc.wrapping_add(2);
                Ok(())
            },
            Err(e) => Err(Chip8Error::from(e)),
        }
    }

    fn wait_for_key(&mut self, vx: u8) -> (res: Result<(), Chip8Error>)
        requires
            vx < 16,
        ensures
            old(self)@.wait_for_key(vx) == (Step { state: final(self)@, fault: fault_of(res) }),
            final(self).screen_size() == old(self).screen_size(),
    {
        match self.input.get_key_u8() {
            Ok(Some(code)) => {
                self.registers.write_v(vx, code);
                Ok(())
            },
            Ok(None) => {
                self.registers.pc = self.registers.pc.wrapping_sub(2);
                Ok(())
            },
            Err(e) => Err(Chip8Error::from(e)),
        }
    }
}

} // verus!
