//! The engine as mathematics: the state of a machine and the transition
//! that each instruction performs on it.

use vstd::prelude::*;
use crate::display::{
    blank, drawn, erases, DisplayError, BUILT_IN_SPRITES, DISPLAY_HEIGHT, DISPLAY_WIDTH,
    SPRITE_LEN, SPRITE_START_ADDRESS,
};
use crate::input::key_code;
use crate::memory::{MemoryError, MEMORY_SIZE};
use crate::opcodes::{decode, lemma_decoded_is_encodable, Opcode, OpcodeError};
use crate::registers::DATA_REGISTER_COUNT;
use crate::stack::{popped, pushed, StackError, STACK_SIZE};
use crate::timers::ticked;

verus! {

/// Where a loaded program starts, and where execution begins.
pub const PROGRAM_START_ADDRESS: usize = 0x200;

/// Number of bytes the built-in font takes in memory.
pub const FONT_SIZE: usize = 80;

/// What went wrong in a transition.
pub enum Fault {
    Stack(StackError),
    Memory(MemoryError),
    Opcode(OpcodeError),
    Display(DisplayError),
    /// A key code was asked for while the latch held this name, which is
    /// no lowercase hexadecimal digit.
    InvalidKey(Seq<char>),
}

/// The mathematical picture of a machine.
pub struct MachineState {
    /// The `MEMORY_SIZE` bytes of memory.
    pub memory: Seq<u8>,
    /// The sixteen registers `V0..VF`.
    pub v: Seq<u8>,
    /// The index register.
    pub i: u16,
    /// The program counter.
    pub pc: u16,
    /// The return addresses, the top last.
    pub stack: Seq<u16>,
    /// The delay timer.
    pub delay: u8,
    /// The sound timer.
    pub sound: u8,
    /// The pixel grid.
    pub pixels: Seq<Seq<bool>>,
    /// The name of the key held down.
    pub key: Option<Seq<char>>,
}

/// The outcome of a transition: the state it leaves, and the fault if it
/// failed.
pub struct Step {
    pub state: MachineState,
    pub fault: Option<Fault>,
}

/// An integer reduced to eight bits.
pub open spec fn wrap8(n: int) -> u8 {
    (n % 0x100) as u8
}

/// An integer reduced to sixteen bits.
pub open spec fn wrap16(n: int) -> u16 {
    (n % 0x1_0000) as u16
}

/// The built-in font as it lies in memory: the byte at offset `offset`
/// from `SPRITE_START_ADDRESS`.
pub open spec fn font_byte(offset: int) -> u8 {
    BUILT_IN_SPRITES@[offset / SPRITE_LEN as int]@[offset % SPRITE_LEN as int]
}

/// Memory after the font is copied to its place.
pub open spec fn with_font(memory: Seq<u8>) -> Seq<u8> {
    Seq::new(
        MEMORY_SIZE as nat,
        |a: int|
            if SPRITE_START_ADDRESS <= a < SPRITE_START_ADDRESS + FONT_SIZE {
                font_byte(a - SPRITE_START_ADDRESS)
            } else {
                memory[a]
            },
    )
}

/// Memory after a program is copied to `PROGRAM_START_ADDRESS`.
pub open spec fn with_program(memory: Seq<u8>, rom: Seq<u8>) -> Seq<u8> {
    Seq::new(
        MEMORY_SIZE as nat,
        |a: int|
            if PROGRAM_START_ADDRESS <= a < PROGRAM_START_ADDRESS + rom.len() {
                rom[a - PROGRAM_START_ADDRESS]
            } else {
                memory[a]
            },
    )
}

impl MachineState {
    /// Whether the parts have the sizes of a machine's.
    pub open spec fn well_formed(self) -> bool {
        &&& self.memory.len() == MEMORY_SIZE
        &&& self.v.len() == DATA_REGISTER_COUNT
        &&& self.stack.len() <= STACK_SIZE
        &&& self.pixels.len() == DISPLAY_HEIGHT
        &&& forall|y: int| 0 <= y < DISPLAY_HEIGHT ==> (#[trigger] self.pixels[y]).len() == DISPLAY_WIDTH
    }

    /// The transition that ends here without a fault.
    pub open spec fn ok(self) -> Step {
        Step { state: self, fault: None }
    }

    /// The transition that ends here with a fault.
    pub open spec fn fail(self, fault: Fault) -> Step {
        Step { state: self, fault: Some(fault) }
    }

    /// Register `V<x>` set to `value`.
    pub open spec fn set_v(self, x: u8, value: u8) -> MachineState {
        MachineState { v: self.v.update(x as int, value), ..self }
    }

    /// The flag register `VF` set to 1 or 0.
    pub open spec fn set_flag(self, flag: bool) -> MachineState {
        self.set_v(
            0xF,
            if flag {
                1u8
            } else {
                0u8
            },
        )
    }

    /// The program counter moved past one more instruction if `taken`.
    pub open spec fn skip_if(self, taken: bool) -> MachineState {
        if taken {
            MachineState { pc: wrap16(self.pc + 2), ..self }
        } else {
            self
        }
    }

    /// The key code of the key held down, or the fault for a name that
    /// has none.
    pub open spec fn key_pressed(self) -> Result<Option<u8>, Fault> {
        match self.key {
            None => Ok(None),
            Some(name) => match key_code(name) {
                Some(code) => Ok(Some(code)),
                None => Err(Fault::InvalidKey(name)),
            },
        }
    }

    /// The `n` bytes of memory from address `I` on.
    pub open spec fn sprite_at_index(self, n: u8) -> Seq<u8> {
        Seq::new(n as nat, |k: int| self.memory[self.i + k])
    }

    /// `7XKK`: `VX += KK`, wrapping; the flag is left alone.
    pub open spec fn add_vx_byte(self, vx: u8, val: u8) -> MachineState {
        self.set_v(vx, wrap8(self.v[vx as int] + val))
    }

    /// `FX1E`: `I += VX`, wrapping.
    pub open spec fn add_i_vx(self, vx: u8) -> MachineState {
        MachineState { i: wrap16(self.i + self.v[vx as int]), ..self }
    }

    /// `8XY4`: `VX += VY`, wrapping, then `VF` is 1 if the sum did not fit
    /// in a byte and 0 otherwise.
    pub open spec fn add_reg(self, vx: u8, vy: u8) -> MachineState {
        let sum = self.v[vx as int] + self.v[vy as int];
        self.set_v(vx, wrap8(sum)).set_flag(sum > 0xFF)
    }

    /// `8XY2`: `VX &= VY`.
    pub open spec fn and(self, vx: u8, vy: u8) -> MachineState {
        self.set_v(vx, self.v[vx as int] & self.v[vy as int])
    }

    /// `8XY1`: `VX |= VY`.
    pub open spec fn or(self, vx: u8, vy: u8) -> MachineState {
        self.set_v(vx, self.v[vx as int] | self.v[vy as int])
    }

    /// `8XY3`: `VX ^= VY`.
    pub open spec fn xor(self, vx: u8, vy: u8) -> MachineState {
        self.set_v(vx, self.v[vx as int] ^ self.v[vy as int])
    }

    /// `8XY5`: `VX -= VY`, wrapping, then `VF` is 1 if nothing was
    /// borrowed, that is if `VX >= VY` before, and 0 otherwise.
    pub open spec fn sub(self, vx: u8, vy: u8) -> MachineState {
        let x = self.v[vx as int];
        let y = self.v[vy as int];
        self.set_v(vx, wrap8(x - y)).set_flag(x >= y)
    }

    /// `8XY7`: `VX = VY - VX`, wrapping, then `VF` is 1 if nothing was
    /// borrowed, that is if `VY >= VX` before, and 0 otherwise.
    pub open spec fn subn(self, vx: u8, vy: u8) -> MachineState {
        let x = self.v[vx as int];
        let y = self.v[vy as int];
        self.set_v(vx, wrap8(y - x)).set_flag(y >= x)
    }

    /// `8X_6`: `VX` is halved, then `VF` is the bit that fell off.
    pub open spec fn shift_right(self, vx: u8) -> MachineState {
        let x = self.v[vx as int];
        self.set_v(vx, (x / 2) as u8).set_flag(x % 2 == 1)
    }

    /// `8X_E`: `VX` is doubled, wrapping, then `VF` is the bit that fell off.
    pub open spec fn shift_left(self, vx: u8) -> MachineState {
        let x = self.v[vx as int];
        self.set_v(vx, wrap8(x * 2)).set_flag(x >= 0x80)
    }

    /// `6XKK`: `VX = KK`.
    pub open spec fn load_byte(self, vx: u8, byte: u8) -> MachineState {
        self.set_v(vx, byte)
    }

    /// `8XY0`: `VX = VY`.
    pub open spec fn load_register(self, vx: u8, vy: u8) -> MachineState {
        self.set_v(vx, self.v[vy as int])
    }

    /// `FX07`: `VX` takes the delay timer.
    pub open spec fn load_delay_timer(self, vx: u8) -> MachineState {
        self.set_v(vx, self.delay)
    }

    /// `FX15`: the delay timer takes `VX`.
    pub open spec fn set_delay_timer(self, vx: u8) -> MachineState {
        MachineState { delay: self.v[vx as int], ..self }
    }

    /// `FX18`: the sound timer takes `VX`.
    pub open spec fn set_sound_timer(self, vx: u8) -> MachineState {
        MachineState { sound: self.v[vx as int], ..self }
    }

    /// `ANNN`: `I = NNN`.
    pub open spec fn set_index(self, addr: u16) -> MachineState {
        MachineState { i: addr, ..self }
    }

    /// `CXKK`: `VX` takes the random byte masked by `KK`.
    pub open spec fn random(self, vx: u8, byte: u8, random_byte: u8) -> MachineState {
        self.set_v(vx, random_byte & byte)
    }

    /// `1NNN`: the program counter goes to `NNN`.
    pub open spec fn jump(self, addr: u16) -> MachineState {
        MachineState { pc: addr, ..self }
    }

    /// `BNNN`: the program counter goes to `NNN + V0`, wrapping.
    pub open spec fn jump_v0(self, addr: u16) -> MachineState {
        self.jump(wrap16(self.v[0] + addr))
    }

    /// `2NNN`: the program counter is pushed and goes to `NNN`. On a full
    /// stack nothing changes.
    pub open spec fn call(self, addr: u16) -> Step {
        if self.stack.len() < STACK_SIZE {
            MachineState { stack: pushed(self.stack, self.pc), pc: addr, ..self }.ok()
        } else {
            self.fail(Fault::Stack(StackError::StackOverflow))
        }
    }

    /// `00EE`: the program counter takes the address popped off the stack.
    /// On an empty stack nothing changes.
    pub open spec fn return_from(self) -> Step {
        if self.stack.len() > 0 {
            MachineState { stack: popped(self.stack), pc: self.stack.last(), ..self }.ok()
        } else {
            self.fail(Fault::Stack(StackError::StackUnderflow))
        }
    }

    /// `3XKK`: skips the next instruction if `VX == KK`.
    pub open spec fn skip_if_equal(self, vx: u8, byte: u8) -> MachineState {
        self.skip_if(self.v[vx as int] == byte)
    }

    /// `4XKK`: skips the next instruction if `VX != KK`.
    pub open spec fn skip_if_not_equal(self, vx: u8, byte: u8) -> MachineState {
        self.skip_if(self.v[vx as int] != byte)
    }

    /// `5XY_`: skips the next instruction if `VX == VY`.
    pub open spec fn skip_if_reg_equal(self, vx: u8, vy: u8) -> MachineState {
        self.skip_if(self.v[vx as int] == self.v[vy as int])
    }

    /// `9XY0`: skips the next instruction if `VX != VY`.
    pub open spec fn skip_if_reg_not_equal(self, vx: u8, vy: u8) -> MachineState {
        self.skip_if(self.v[vx as int] != self.v[vy as int])
    }

    /// `FX55`: copies `V0..=VX` to memory from address `I` on. The copy
    /// stops at the end of memory with a fault, and what was copied by
    /// then stays.
    pub open spec fn reg_dump(self, vx: u8) -> Step {
        let state = MachineState {
            memory: Seq::new(
                self.memory.len(),
                |a: int|
                    if self.i <= a <= self.i + vx {
                        self.v[a - self.i]
                    } else {
                        self.memory[a]
                    },
            ),
            ..self
        };
        if self.i + vx < MEMORY_SIZE {
            state.ok()
        } else {
            state.fail(Fault::Memory(MemoryError::AddressOutOfBounds))
        }
    }

    /// `FX65`: copies memory from address `I` on to `V0..=VX`. The copy
    /// stops at the end of memory with a fault, and what was copied by
    /// then stays.
    pub open spec fn reg_load(self, vx: u8) -> Step {
        let state = MachineState {
            v: Seq::new(
                self.v.len(),
                |r: int|
                    if r <= vx && self.i + r < MEMORY_SIZE {
                        self.memory[self.i + r]
                    } else {
                        self.v[r]
                    },
            ),
            ..self
        };
        if self.i + vx < MEMORY_SIZE {
            state.ok()
        } else {
            state.fail(Fault::Memory(MemoryError::AddressOutOfBounds))
        }
    }

    /// `FX33`: stores the hundreds, tens and units of `VX` at addresses
    /// `I`, `I + 1` and `I + 2`. The stores stop at the end of memory with
    /// a fault, and what was stored by then stays.
    pub open spec fn store_bcd(self, vx: u8) -> Step {
        let x = self.v[vx as int];
        let state = MachineState {
            memory: Seq::new(
                self.memory.len(),
                |a: int|
                    if a == self.i {
                        (x / 100) as u8
                    } else if a == self.i + 1 {
                        ((x / 10) % 10) as u8
                    } else if a == self.i + 2 {
                        (x % 10) as u8
                    } else {
                        self.memory[a]
                    },
            ),
            ..self
        };
        if self.i + 2 < MEMORY_SIZE {
            state.ok()
        } else {
            state.fail(Fault::Memory(MemoryError::AddressOutOfBounds))
        }
    }

    /// `FX29`: `I` takes the address of the glyph for the digit in `VX`.
    /// A value that is no hexadecimal digit is a fault.
    pub open spec fn load_sprite_addr(self, vx: u8) -> Step {
        let digit = self.v[vx as int];
        if digit < 16 {
            MachineState { i: (SPRITE_START_ADDRESS + digit * SPRITE_LEN) as u16, ..self }.ok()
        } else {
            self.fail(Fault::Display(DisplayError::InvalidSprite(digit)))
        }
    }

    /// `00E0`: every pixel goes dark.
    pub open spec fn clear_display(self) -> MachineState {
        MachineState { pixels: blank(), ..self }
    }

    /// `DXYN`: draws the `N` bytes at address `I` as a sprite with its top
    /// left pixel at row `VY`, column `VX`, then `VF` is 1 if a lit pixel
    /// went dark and 0 otherwise. If the sprite does not lie within memory
    /// nothing changes.
    pub open spec fn draw(self, vx: u8, vy: u8, n: u8) -> Step {
        if n > 0 && self.i + n > MEMORY_SIZE {
            self.fail(Fault::Memory(MemoryError::AddressOutOfBounds))
        } else {
            let sprite = self.sprite_at_index(n);
            let row = self.v[vy as int] as int;
            let col = self.v[vx as int] as int;
            MachineState { pixels: drawn(self.pixels, row, col, sprite), ..self }.set_flag(
                erases(self.pixels, row, col, sprite),
            ).ok()
        }
    }

    /// `EX9E`: skips the next instruction if the key with code `VX` is
    /// held down.
    pub open spec fn skip_if_key_pressed(self, vx: u8) -> Step {
        match self.key_pressed() {
            Ok(key) => self.skip_if(key == Some(self.v[vx as int])).ok(),
            Err(fault) => self.fail(fault),
        }
    }

    /// `EXA1`: skips the next instruction unless the key with code `VX` is
    /// held down.
    pub open spec fn skip_if_key_not_pressed(self, vx: u8) -> Step {
        match self.key_pressed() {
            Ok(key) => self.skip_if(key != Some(self.v[vx as int])).ok(),
            Err(fault) => self.fail(fault),
        }
    }

    /// `FX0A`: with a key held down, `VX` takes its code. With none, the
    /// program counter steps back over this instruction, so that it is
    /// executed again.
    pub open spec fn wait_for_key(self, vx: u8) -> Step {
        match self.key_pressed() {
            Ok(Some(code)) => self.set_v(vx, code).ok(),
            Ok(None) => MachineState { pc: wrap16(self.pc - 2), ..self }.ok(),
            Err(fault) => self.fail(fault),
        }
    }

    /// The transition of one decoded instruction. `random_byte` is the
    /// byte that `Random` consumes; no other instruction looks at it.
    ///
    /// The definition is opaque: a proof that needs to look inside says
    /// `reveal(MachineState::execute)`.
    #[verifier::opaque]
    pub open spec fn execute(self, op: Opcode, random_byte: u8) -> Step {
        match op {
            Opcode::AddByte(vx, val) => self.add_vx_byte(vx, val).ok(),
            Opcode::AddI(vx) => self.add_i_vx(vx).ok(),
            Opcode::AddReg(vx, vy) => self.add_reg(vx, vy).ok(),
            Opcode::And(vx, vy) => self.and(vx, vy).ok(),
            Opcode::Call(addr) => self.call(addr),
            Opcode::Jump(addr) => self.jump(addr).ok(),
            Opcode::JumpV0(addr) => self.jump_v0(addr).ok(),
            Opcode::LoadByte(vx, byte) => self.load_byte(vx, byte).ok(),
            Opcode::LoadDelayTimer(vx) => self.load_delay_timer(vx).ok(),
            Opcode::LoadReg(vx, vy) => self.load_register(vx, vy).ok(),
            Opcode::Or(vx, vy) => self.or(vx, vy).ok(),
            Opcode::Random(vx, byte) => self.random(vx, byte, random_byte).ok(),
            Opcode::RegDump(vx) => self.reg_dump(vx),
            Opcode::RegLoad(vx) => self.reg_load(vx),
            Opcode::Return => self.return_from(),
            Opcode::SetDelayTimer(vx) => self.set_delay_timer(vx).ok(),
            Opcode::SetIndex(addr) => self.set_index(addr).ok(),
            Opcode::SetSoundTimer(vx) => self.set_sound_timer(vx).ok(),
            Opcode::ShiftLeft(vx) => self.shift_left(vx).ok(),
            Opcode::ShiftRight(vx) => self.shift_right(vx).ok(),
            Opcode::SkipIfEqual(vx, byte) => self.skip_if_equal(vx, byte).ok(),
            Opcode::SkipIfNotEqual(vx, byte) => self.skip_if_not_equal(vx, byte).ok(),
            Opcode::SkipIfRegEqual(vx, vy) => self.skip_if_reg_equal(vx, vy).ok(),
            Opcode::SkipIfRegNotEqual(vx, vy) => self.skip_if_reg_not_equal(vx, vy).ok(),
            Opcode::Sub(vx, vy) => self.sub(vx, vy).ok(),
            Opcode::SubN(vx, vy) => self.subn(vx, vy).ok(),
            Opcode::Xor(vx, vy) => self.xor(vx, vy).ok(),
            Opcode::StoreBCD(vx) => self.store_bcd(vx),
            Opcode::SysAddr(_) => self.ok(),
            Opcode::LoadSpriteAddr(vx) => self.load_sprite_addr(vx),
            Opcode::Draw(vx, vy, n) => self.draw(vx, vy, n),
            Opcode::SkipIfKeyNotPressed(vx) => self.skip_if_key_not_pressed(vx),
            Opcode::SkipIfKeyPressed(vx) => self.skip_if_key_pressed(vx),
            Opcode::ClearDisplay => self.clear_display().ok(),
            Opcode::WaitForKey(vx) => self.wait_for_key(vx),
            Opcode::Undefined(word) => self.fail(Fault::Opcode(OpcodeError::InvalidOpcode(word))),
        }
    }

    /// The instruction at the program counter, or the fault for a program
    /// counter whose two bytes do not lie within memory or for a word that
    /// does not decode.
    pub open spec fn fetch(self) -> Result<Opcode, Fault> {
        if self.pc + 1 < MEMORY_SIZE {
            match decode(self.memory[self.pc as int], self.memory[self.pc + 1]) {
                Ok(op) => Ok(op),
                Err(e) => Err(Fault::Opcode(e)),
            }
        } else {
            Err(Fault::Memory(MemoryError::AddressOutOfBounds))
        }
    }

    /// One engine step: the instruction at the program counter is
    /// fetched, the program counter moves past it, and the instruction is
    /// executed.
    ///
    /// A step that fails leaves the program counter where it was before
    /// the step, on the instruction that failed. If no instruction can be
    /// fetched nothing else changes either; if the instruction itself
    /// fails, what it had done by then stays.
    pub open spec fn step(self, random_byte: u8) -> Step {
        match self.fetch() {
            Ok(op) => {
                let done = MachineState { pc: wrap16(self.pc + 2), ..self }.execute(
                    op,
                    random_byte,
                );
                if done.fault is Some {
                    Step { state: MachineState { pc: self.pc, ..done.state }, fault: done.fault }
                } else {
                    done
                }
            },
            Err(fault) => self.fail(fault),
        }
    }

    /// One tick of the timer clock.
    pub open spec fn tick(self) -> MachineState {
        MachineState { delay: ticked(self.delay), sound: ticked(self.sound), ..self }
    }
}

/// While no key is held down, waiting for a key moves the program
/// counter two back and changes nothing else.
pub proof fn lemma_wait_without_key(state: MachineState, vx: u8, random_byte: u8)
    requires
        state.key is None,
    ensures
        state.execute(Opcode::WaitForKey(vx), random_byte) == (MachineState {
            pc: wrap16(state.pc - 2),
            ..state
        }).ok(),
{
    reveal(MachineState::execute);
}

/// While a key with a code is held down, waiting for a key puts the code
/// in the register and leaves the program counter and all else alone.
pub proof fn lemma_wait_with_key(state: MachineState, vx: u8, random_byte: u8)
    requires
        state.key matches Some(name) && key_code(name) is Some,
    ensures
        state.execute(Opcode::WaitForKey(vx), random_byte) == state.set_v(
            vx,
            key_code(state.key->Some_0)->Some_0,
        ).ok(),
        state.execute(Opcode::WaitForKey(vx), random_byte).state.pc == state.pc,
{
    reveal(MachineState::execute);
}

/// A step that meets a wait for a key while none is held down leaves the
/// machine exactly as it was, so the next step meets the same instruction.
pub proof fn lemma_waiting_step_changes_nothing(state: MachineState, random_byte: u8)
    requires
        state.fetch() matches Ok(op) && op is WaitForKey,
        state.key is None,
    ensures
        state.step(random_byte) == state.ok(),
{
    reveal(MachineState::execute);
}

/// An instruction that fails never moves the program counter.
pub proof fn lemma_fault_keeps_program_counter(state: MachineState, op: Opcode, random_byte: u8)
    requires
        state.execute(op, random_byte).fault is Some,
    ensures
        state.execute(op, random_byte).state.pc == state.pc,
{
    reveal(MachineState::execute);
}

/// A step that fails leaves the program counter on the instruction that
/// failed.
pub proof fn lemma_failed_step_keeps_program_counter(state: MachineState, random_byte: u8)
    requires
        state.step(random_byte).fault is Some,
    ensures
        state.step(random_byte).state.pc == state.pc,
{
}

/// Only `Random` depends on the random byte.
pub proof fn lemma_only_random_is_random(state: MachineState, op: Opcode, one: u8, other: u8)
    requires
        !(op is Random),
    ensures
        state.execute(op, one) == state.execute(op, other),
{
    reveal(MachineState::execute);
}

/// A refused call or return changes nothing; above all the program
/// counter stays where it was.
pub proof fn lemma_stack_fault_changes_nothing(state: MachineState, op: Opcode, random_byte: u8)
    requires
        op is Call || op is Return,
        state.execute(op, random_byte).fault is Some,
    ensures
        state.execute(op, random_byte).state == state,
        state.execute(op, random_byte).fault == Some(
            Fault::Stack(
                if op is Call {
                    StackError::StackOverflow
                } else {
                    StackError::StackUnderflow
                },
            ),
        ),
{
    reveal(MachineState::execute);
}

/// A draw that cannot read its sprite leaves every pixel and register as
/// it was.
pub proof fn lemma_draw_fault_changes_nothing(
    state: MachineState,
    vx: u8,
    vy: u8,
    n: u8,
    random_byte: u8,
)
    requires
        state.execute(Opcode::Draw(vx, vy, n), random_byte).fault is Some,
    ensures
        state.execute(Opcode::Draw(vx, vy, n), random_byte).state == state,
{
    reveal(MachineState::execute);
}

/// The instructions that define the flag write it last of all: whatever
/// `VF` held, and even where `VF` is an operand or the target, it ends as
/// the flag computed from the operands as they were before.
pub proof fn lemma_flag_is_written_last(state: MachineState, op: Opcode, random_byte: u8)
    requires
        state.well_formed(),
        op.well_formed(),
    ensures
        ({
            let flag = state.execute(op, random_byte).state.v[0xF];
            match op {
                Opcode::AddReg(vx, vy) => flag == if state.v[vx as int] + state.v[vy as int]
                    > 0xFF {
                    1u8
                } else {
                    0u8
                },
                Opcode::Sub(vx, vy) => flag == if state.v[vx as int] >= state.v[vy as int] {
                    1u8
                } else {
                    0u8
                },
                Opcode::SubN(vx, vy) => flag == if state.v[vy as int] >= state.v[vx as int] {
                    1u8
                } else {
                    0u8
                },
                Opcode::ShiftRight(vx) => flag == state.v[vx as int] % 2,
                Opcode::ShiftLeft(vx) => flag == state.v[vx as int] / 0x80,
                Opcode::Draw(vx, vy, n) => state.execute(op, random_byte).fault is None ==> flag
                    == if erases(
                    state.pixels,
                    state.v[vy as int] as int,
                    state.v[vx as int] as int,
                    state.sprite_at_index(n),
                ) {
                    1u8
                } else {
                    0u8
                },
                _ => true,
            }
        }),
{
    reveal(MachineState::execute);
}

/// Every instruction keeps the parts of the machine at their sizes.
pub proof fn lemma_execute_keeps_well_formed(state: MachineState, op: Opcode, random_byte: u8)
    requires
        state.well_formed(),
        op.well_formed(),
    ensures
        state.execute(op, random_byte).state.well_formed(),
{
    reveal(MachineState::execute);
}

/// Every step keeps the parts of the machine at their sizes.
pub proof fn lemma_step_keeps_well_formed(state: MachineState, random_byte: u8)
    requires
        state.well_formed(),
    ensures
        state.step(random_byte).state.well_formed(),
{
    match state.fetch() {
        Ok(op) => {
            lemma_decoded_is_encodable(
                state.memory[state.pc as int],
                state.memory[state.pc + 1],
            );
            lemma_execute_keeps_well_formed(
                MachineState { pc: wrap16(state.pc + 2), ..state },
                op,
                random_byte,
            );
        },
        Err(_) => {},
    }
}

/// The timers never count below zero, and a tick touches nothing else.
pub proof fn lemma_tick_stops_at_zero(state: MachineState)
    ensures
        state.tick().delay == if state.delay == 0 {
            0
        } else {
            state.delay - 1
        },
        state.tick().sound == if state.sound == 0 {
            0
        } else {
            state.sound - 1
        },
        state.tick() == (MachineState {
            delay: state.tick().delay,
            sound: state.tick().sound,
            ..state
        }),
{
}

} // verus!
