//! The instruction set and its decoder.
//!
//! An instruction is a 16-bit word, stored high byte first. Its highest
//! nibble names the family; the three nibbles below are called `x`, `y`
//! and `n`, the low byte `kk`, and the low twelve bits the address field.

use vstd::prelude::*;

verus! {

#[derive(Debug, PartialEq, Eq, Structural, Clone, Copy)]
pub enum OpcodeError {
    /// The address lies beyond the twelve-bit address space. No
    /// instruction word holds such an address, so the decoder never
    /// reports this.
    InvalidAddress(u16),
    /// The word is no instruction.
    InvalidOpcode(u16),
}

#[derive(Debug, PartialEq, Eq, Structural, Clone, Copy)]
pub enum Opcode {
    /// `00E0`
    ClearDisplay,
    /// `00EE`
    Return,
    /// `0NNN`
    SysAddr(u16),
    /// `1NNN`
    Jump(u16),
    /// `2NNN`
    Call(u16),
    /// `3XKK`
    SkipIfEqual(u8, u8),
    /// `4XKK`
    SkipIfNotEqual(u8, u8),
    /// `5XY_`
    SkipIfRegEqual(u8, u8),
    /// `9XY0`
    SkipIfRegNotEqual(u8, u8),
    /// `6XKK`
    LoadByte(u8, u8),
    /// `7XKK`
    AddByte(u8, u8),
    /// `8XY0`
    LoadReg(u8, u8),
    /// `8XY1`
    Or(u8, u8),
    /// `8XY2`
    And(u8, u8),
    /// `8XY3`
    Xor(u8, u8),
    /// `8XY4`
    AddReg(u8, u8),
    /// `8XY5`
    Sub(u8, u8),
    /// `8X_6`
    ShiftRight(u8),
    /// `8XY7`
    SubN(u8, u8),
    /// `8X_E`
    ShiftLeft(u8),
    /// `ANNN`
    SetIndex(u16),
    /// `BNNN`
    JumpV0(u16),
    /// `CXKK`
    Random(u8, u8),
    /// `DXYN`
    Draw(u8, u8, u8),
    /// `EX9E`
    SkipIfKeyPressed(u8),
    /// `EXA1`
    SkipIfKeyNotPressed(u8),
    /// `FX07`
    LoadDelayTimer(u8),
    /// `FX0A`
    WaitForKey(u8),
    /// `FX15`
    SetDelayTimer(u8),
    /// `FX18`
    SetSoundTimer(u8),
    /// `FX1E`
    AddI(u8),
    /// `FX29`
    LoadSpriteAddr(u8),
    /// `FX33`
    StoreBCD(u8),
    /// `FX55`
    RegDump(u8),
    /// `FX65`
    RegLoad(u8),
    /// A word that is no instruction. The decoder never yields it; the
    /// engine refuses it.
    Undefined(u16),
}

/// The size of the address space: every address operand lies below it.
pub const ADDRESS_LIMIT: u16 = 0x1000;

/// The instruction word made of a high and a low byte.
pub open spec fn word(msb: u8, lsb: u8) -> u16 {
    (msb * 256 + lsb) as u16
}

/// The family nibble.
pub open spec fn field_code(msb: u8) -> u8 {
    (msb / 16) as u8
}

/// The `x` nibble.
pub open spec fn field_x(msb: u8) -> u8 {
    (msb % 16) as u8
}

/// The `y` nibble.
pub open spec fn field_y(lsb: u8) -> u8 {
    (lsb / 16) as u8
}

/// The `n` nibble.
pub open spec fn field_n(lsb: u8) -> u8 {
    (lsb % 16) as u8
}

/// The twelve-bit address field.
pub open spec fn field_address(msb: u8, lsb: u8) -> u16 {
    ((msb % 16) * 256 + lsb) as u16
}

/// The address operand of an address-carrying instruction: the address
/// field, refused only if it lay beyond the address space.
pub open spec fn address_operand(msb: u8, lsb: u8) -> Result<u16, OpcodeError> {
    let address = field_address(msb, lsb);
    if address < ADDRESS_LIMIT {
        Ok(address)
    } else {
        Err(OpcodeError::InvalidAddress(address))
    }
}

/// The twelve-bit address field always lies within the address space, so
/// every address-carrying instruction has its operand.
pub proof fn lemma_address_always_fits(msb: u8, lsb: u8)
    ensures
        address_operand(msb, lsb) == Ok::<u16, OpcodeError>(field_address(msb, lsb)),
{
}

/// The instruction table: what each pair of bytes decodes to.
pub open spec fn decode(msb: u8, lsb: u8) -> Result<Opcode, OpcodeError> {
    let code = field_code(msb);
    let x = field_x(msb);
    let y = field_y(lsb);
    let n = field_n(lsb);
    let address = address_operand(msb, lsb);
    let undefined = Err::<Opcode, OpcodeError>(OpcodeError::InvalidOpcode(word(msb, lsb)));
    if code == 0x0 {
        if msb == 0x00 && lsb == 0xE0 {
            Ok(Opcode::ClearDisplay)
        } else if msb == 0x00 && lsb == 0xEE {
            Ok(Opcode::Return)
        } else {
            match address {
                Ok(a) => Ok(Opcode::SysAddr(a)),
                Err(e) => Err(e),
            }
        }
    } else if code == 0x1 {
        match address {
            Ok(a) => Ok(Opcode::Jump(a)),
            Err(e) => Err(e),
        }
    } else if code == 0x2 {
        match address {
            Ok(a) => Ok(Opcode::Call(a)),
            Err(e) => Err(e),
        }
    } else if code == 0x3 {
        Ok(Opcode::SkipIfEqual(x, lsb))
    } else if code == 0x4 {
        Ok(Opcode::SkipIfNotEqual(x, lsb))
    } else if code == 0x5 {
        Ok(Opcode::SkipIfRegEqual(x, y))
    } else if code == 0x6 {
        Ok(Opcode::LoadByte(x, lsb))
    } else if code == 0x7 {
        Ok(Opcode::AddByte(x, lsb))
    } else if code == 0x8 {
        if n == 0x0 {
            Ok(Opcode::LoadReg(x, y))
        } else if n == 0x1 {
            Ok(Opcode::Or(x, y))
        } else if n == 0x2 {
            Ok(Opcode::And(x, y))
        } else if n == 0x3 {
            Ok(Opcode::Xor(x, y))
        } else if n == 0x4 {
            Ok(Opcode::AddReg(x, y))
        } else if n == 0x5 {
            Ok(Opcode::Sub(x, y))
        } else if n == 0x6 {
            Ok(Opcode::ShiftRight(x))
        } else if n == 0x7 {
            Ok(Opcode::SubN(x, y))
        } else if n == 0xE {
            Ok(Opcode::ShiftLeft(x))
        } else {
            undefined
        }
    } else if code == 0x9 {
        if n == 0x0 {
            Ok(Opcode::SkipIfRegNotEqual(x, y))
        } else {
            undefined
        }
    } else if code == 0xA {
        match address {
            Ok(a) => Ok(Opcode::SetIndex(a)),
            Err(e) => Err(e),
        }
    } else if code == 0xB {
        match address {
            Ok(a) => Ok(Opcode::JumpV0(a)),
            Err(e) => Err(e),
        }
    } else if code == 0xC {
        Ok(Opcode::Random(x, lsb))
    } else if code == 0xD {
        Ok(Opcode::Draw(x, y, n))
    } else if code == 0xE {
        if lsb == 0x9E {
            Ok(Opcode::SkipIfKeyPressed(x))
        } else if lsb == 0xA1 {
            Ok(Opcode::SkipIfKeyNotPressed(x))
        } else {
            undefined
        }
    } else {
        if lsb == 0x07 {
            Ok(Opcode::LoadDelayTimer(x))
        } else if lsb == 0x0A {
            Ok(Opcode::WaitForKey(x))
        } else if lsb == 0x15 {
            Ok(Opcode::SetDelayTimer(x))
        } else if lsb == 0x18 {
            Ok(Opcode::SetSoundTimer(x))
        } else if lsb == 0x1E {
            Ok(Opcode::AddI(x))
        } else if lsb == 0x29 {
            Ok(Opcode::LoadSpriteAddr(x))
        } else if lsb == 0x33 {
            Ok(Opcode::StoreBCD(x))
        } else if lsb == 0x55 {
            Ok(Opcode::RegDump(x))
        } else if lsb == 0x65 {
            Ok(Opcode::RegLoad(x))
        } else {
            undefined
        }
    }
}

/// The canonical instruction word of an opcode. Fields that the opcode
/// does not carry are zero; `Undefined` stands for its own word.
pub open spec fn encoding(op: Opcode) -> u16 {
    match op {
        Opcode::ClearDisplay => 0x00E0,
        Opcode::Return => 0x00EE,
        Opcode::SysAddr(a) => a,
        Opcode::Jump(a) => (0x1000 + a) as u16,
        Opcode::Call(a) => (0x2000 + a) as u16,
        Opcode::SkipIfEqual(x, kk) => (0x3000 + x * 256 + kk) as u16,
        Opcode::SkipIfNotEqual(x, kk) => (0x4000 + x * 256 + kk) as u16,
        Opcode::SkipIfRegEqual(x, y) => (0x5000 + x * 256 + y * 16) as u16,
        Opcode::SkipIfRegNotEqual(x, y) => (0x9000 + x * 256 + y * 16) as u16,
        Opcode::LoadByte(x, kk) => (0x6000 + x * 256 + kk) as u16,
        Opcode::AddByte(x, kk) => (0x7000 + x * 256 + kk) as u16,
        Opcode::LoadReg(x, y) => (0x8000 + x * 256 + y * 16) as u16,
        Opcode::Or(x, y) => (0x8001 + x * 256 + y * 16) as u16,
        Opcode::And(x, y) => (0x8002 + x * 256 + y * 16) as u16,
        Opcode::Xor(x, y) => (0x8003 + x * 256 + y * 16) as u16,
        Opcode::AddReg(x, y) => (0x8004 + x * 256 + y * 16) as u16,
        Opcode::Sub(x, y) => (0x8005 + x * 256 + y * 16) as u16,
        Opcode::ShiftRight(x) => (0x8006 + x * 256) as u16,
        Opcode::SubN(x, y) => (0x8007 + x * 256 + y * 16) as u16,
        Opcode::ShiftLeft(x) => (0x800E + x * 256) as u16,
        Opcode::SetIndex(a) => (0xA000 + a) as u16,
        Opcode::JumpV0(a) => (0xB000 + a) as u16,
        Opcode::Random(x, kk) => (0xC000 + x * 256 + kk) as u16,
        Opcode::Draw(x, y, n) => (0xD000 + x * 256 + y * 16 + n) as u16,
        Opcode::SkipIfKeyPressed(x) => (0xE09E + x * 256) as u16,
        Opcode::SkipIfKeyNotPressed(x) => (0xE0A1 + x * 256) as u16,
        Opcode::LoadDelayTimer(x) => (0xF007 + x * 256) as u16,
        Opcode::WaitForKey(x) => (0xF00A + x * 256) as u16,
        Opcode::SetDelayTimer(x) => (0xF015 + x * 256) as u16,
        Opcode::SetSoundTimer(x) => (0xF018 + x * 256) as u16,
        Opcode::AddI(x) => (0xF01E + x * 256) as u16,
        Opcode::LoadSpriteAddr(x) => (0xF029 + x * 256) as u16,
        Opcode::StoreBCD(x) => (0xF033 + x * 256) as u16,
        Opcode::RegDump(x) => (0xF055 + x * 256) as u16,
        Opcode::RegLoad(x) => (0xF065 + x * 256) as u16,
        Opcode::Undefined(w) => w,
    }
}

/// The high byte of an instruction word.
pub open spec fn high_byte(w: u16) -> u8 {
    (w / 256) as u8
}

/// The low byte of an instruction word.
pub open spec fn low_byte(w: u16) -> u8 {
    (w % 256) as u8
}

/// Decoding undoes encoding: the canonical word of an opcode decodes to
/// that opcode, whatever registers, bytes and twelve-bit address it
/// carries. Left out are `Undefined`, which is no instruction, and the two
/// system calls whose words are those of `ClearDisplay` and `Return`.
pub proof fn lemma_decode_encode(op: Opcode)
    requires
        op.encodable(),
        !(op is Undefined),
        op != Opcode::SysAddr(0x0E0),
        op != Opcode::SysAddr(0x0EE),
    ensures
        decode(high_byte(encoding(op)), low_byte(encoding(op))) == Ok::<Opcode, OpcodeError>(op),
{
    match op {
        Opcode::ClearDisplay => lemma_word_fields(0x0, 0x0, 0xE, 0x0),
        Opcode::Return => lemma_word_fields(0x0, 0x0, 0xE, 0xE),
        Opcode::SysAddr(a) => lemma_word_fields(0x0, a as int / 256, (a as int / 16) % 16, a as int % 16),
        Opcode::Jump(a) => lemma_word_fields(0x1, a as int / 256, (a as int / 16) % 16, a as int % 16),
        Opcode::Call(a) => lemma_word_fields(0x2, a as int / 256, (a as int / 16) % 16, a as int % 16),
        Opcode::SkipIfEqual(x, kk) => lemma_word_fields(0x3, x as int, kk as int / 16, kk as int % 16),
        Opcode::SkipIfNotEqual(x, kk) => lemma_word_fields(0x4, x as int, kk as int / 16, kk as int % 16),
        Opcode::SkipIfRegEqual(x, y) => lemma_word_fields(0x5, x as int, y as int, 0),
        Opcode::SkipIfRegNotEqual(x, y) => lemma_word_fields(0x9, x as int, y as int, 0),
        Opcode::LoadByte(x, kk) => lemma_word_fields(0x6, x as int, kk as int / 16, kk as int % 16),
        Opcode::AddByte(x, kk) => lemma_word_fields(0x7, x as int, kk as int / 16, kk as int % 16),
        Opcode::LoadReg(x, y) => lemma_word_fields(0x8, x as int, y as int, 0x0),
        Opcode::Or(x, y) => lemma_word_fields(0x8, x as int, y as int, 0x1),
        Opcode::And(x, y) => lemma_word_fields(0x8, x as int, y as int, 0x2),
        Opcode::Xor(x, y) => lemma_word_fields(0x8, x as int, y as int, 0x3),
        Opcode::AddReg(x, y) => lemma_word_fields(0x8, x as int, y as int, 0x4),
        Opcode::Sub(x, y) => lemma_word_fields(0x8, x as int, y as int, 0x5),
        Opcode::ShiftRight(x) => lemma_word_fields(0x8, x as int, 0, 0x6),
        Opcode::SubN(x, y) => lemma_word_fields(0x8, x as int, y as int, 0x7),
        Opcode::ShiftLeft(x) => lemma_word_fields(0x8, x as int, 0, 0xE),
        Opcode::SetIndex(a) => lemma_word_fields(0xA, a as int / 256, (a as int / 16) % 16, a as int % 16),
        Opcode::JumpV0(a) => lemma_word_fields(0xB, a as int / 256, (a as int / 16) % 16, a as int % 16),
        Opcode::Random(x, kk) => lemma_word_fields(0xC, x as int, kk as int / 16, kk as int % 16),
        Opcode::Draw(x, y, n) => lemma_word_fields(0xD, x as int, y as int, n as int),
        Opcode::SkipIfKeyPressed(x) => lemma_word_fields(0xE, x as int, 0x9, 0xE),
        Opcode::SkipIfKeyNotPressed(x) => lemma_word_fields(0xE, x as int, 0xA, 0x1),
        Opcode::LoadDelayTimer(x) => lemma_word_fields(0xF, x as int, 0x0, 0x7),
        Opcode::WaitForKey(x) => lemma_word_fields(0xF, x as int, 0x0, 0xA),
        Opcode::SetDelayTimer(x) => lemma_word_fields(0xF, x as int, 0x1, 0x5),
        Opcode::SetSoundTimer(x) => lemma_word_fields(0xF, x as int, 0x1, 0x8),
        Opcode::AddI(x) => lemma_word_fields(0xF, x as int, 0x1, 0xE),
        Opcode::LoadSpriteAddr(x) => lemma_word_fields(0xF, x as int, 0x2, 0x9),
        Opcode::StoreBCD(x) => lemma_word_fields(0xF, x as int, 0x3, 0x3),
        Opcode::RegDump(x) => lemma_word_fields(0xF, x as int, 0x5, 0x5),
        Opcode::RegLoad(x) => lemma_word_fields(0xF, x as int, 0x6, 0x5),
        Opcode::Undefined(_) => {},
    }
}

/// The bytes and fields of the word made of four nibbles.
proof fn lemma_word_fields(code: int, x: int, y: int, n: int)
    requires
        0 <= code < 16,
        0 <= x < 16,
        0 <= y < 16,
        0 <= n < 16,
    ensures
        ({
            let w = (code * 4096 + x * 256 + y * 16 + n) as u16;
            let msb = high_byte(w);
            let lsb = low_byte(w);
            &&& w == code * 4096 + x * 256 + y * 16 + n
            &&& msb == code * 16 + x
            &&& lsb == y * 16 + n
            &&& field_code(msb) == code
            &&& field_x(msb) == x
            &&& field_y(lsb) == y
            &&& field_n(lsb) == n
            &&& field_address(msb, lsb) == x * 256 + y * 16 + n
            &&& word(msb, lsb) == w
        }),
{
}

/// Whatever the decoder yields can be executed and encoded again.
pub proof fn lemma_decoded_is_encodable(msb: u8, lsb: u8)
    ensures
        decode(msb, lsb) matches Ok(op) ==> op.encodable() && !(op is Undefined),
{
}

/// The two bytes of an instruction word, high byte first.
pub struct Instruction {
    pub msb: u8,
    pub lsb: u8,
}

impl From<(u8, u8)> for Instruction {
    fn from(bytes: (u8, u8)) -> (instruction: Instruction) {
        Instruction { msb: bytes.0, lsb: bytes.1 }
    }
}

impl vstd::std_specs::convert::FromSpecImpl<(u8, u8)> for Instruction {
    open spec fn obeys_from_spec() -> bool {
        true
    }

    open spec fn from_spec(bytes: (u8, u8)) -> Instruction {
        Instruction { msb: bytes.0, lsb: bytes.1 }
    }
}

impl Instruction {
    fn get_address(&self) -> (res: Result<u16, OpcodeError>)
        ensures
            res == address_operand(self.msb, self.lsb),
    {
        let msb = self.msb;
        let lsb = self.lsb;
        let addr = ((msb as u16 & 0x0F) << 8) | lsb as u16;
        assert(((msb as u16 & 0x0F) << 8) | lsb as u16 == (msb as u16 % 16) * 256 + lsb as u16)
            by (bit_vector);
        assert((0xF000u16 & addr != 0) == (addr >= 0x1000)) by (bit_vector);
        // The address space is twelve bits wide.
        if 0xF000 & addr != 0 {
            Err(OpcodeError::InvalidAddress(addr))
        } else {
            Ok(addr)
        }
    }

    fn get_code(&self) -> (code: u8)
        ensures
            code == field_code(self.msb),
    {
        let msb = self.msb;
        assert((msb & 0xF0) >> 4 == msb / 16) by (bit_vector);
        (msb & 0xF0) >> 4
    }

    fn get_n(&self) -> (n: u8)
        ensures
            n == field_n(self.lsb),
    {
        let lsb = self.lsb;
        assert(lsb & 0x0F == lsb % 16) by (bit_vector);
        lsb & 0x0F
    }

    fn get_x(&self) -> (x: u8)
        ensures
            x == field_x(self.msb),
    {
        let msb = self.msb;
        assert(msb & 0x0F == msb % 16) by (bit_vector);
        msb & 0x0F
    }

    fn get_y(&self) -> (y: u8)
        ensures
            y == field_y(self.lsb),
    {
        let lsb = self.lsb;
        assert(lsb >> 4 == lsb / 16) by (bit_vector);
        lsb >> 4
    }

    fn get_kk(&self) -> (kk: u8)
        ensures
            kk == self.lsb,
    {
        self.lsb
    }

    fn get_byte(&self) -> (byte: u8)
        ensures
            byte == self.lsb,
    {
        self.lsb
    }
}

impl Opcode {
    /// Whether every register operand names one of the sixteen registers
    /// and a sprite height stays within a nibble.
    pub open spec fn well_formed(self) -> bool {
        match self {
            Opcode::SkipIfEqual(x, _)
            | Opcode::SkipIfNotEqual(x, _)
            | Opcode::LoadByte(x, _)
            | Opcode::AddByte(x, _)
            | Opcode::Random(x, _) => x < 16,
            Opcode::SkipIfRegEqual(x, y)
            | Opcode::SkipIfRegNotEqual(x, y)
            | Opcode::LoadReg(x, y)
            | Opcode::Or(x, y)
            | Opcode::And(x, y)
            | Opcode::Xor(x, y)
            | Opcode::AddReg(x, y)
            | Opcode::Sub(x, y)
            | Opcode::SubN(x, y) => x < 16 && y < 16,
            Opcode::Draw(x, y, n) => x < 16 && y < 16 && n < 16,
            Opcode::ShiftRight(x)
            | Opcode::ShiftLeft(x)
            | Opcode::SkipIfKeyPressed(x)
            | Opcode::SkipIfKeyNotPressed(x)
            | Opcode::LoadDelayTimer(x)
            | Opcode::WaitForKey(x)
            | Opcode::SetDelayTimer(x)
            | Opcode::SetSoundTimer(x)
            | Opcode::AddI(x)
            | Opcode::LoadSpriteAddr(x)
            | Opcode::StoreBCD(x)
            | Opcode::RegDump(x)
            | Opcode::RegLoad(x) => x < 16,
            _ => true,
        }
    }

    /// Whether the opcode fits an instruction word: its operands are well
    /// formed and an address fits the twelve-bit address field.
    pub open spec fn encodable(self) -> bool {
        self.well_formed() && match self {
            Opcode::SysAddr(a)
            | Opcode::Jump(a)
            | Opcode::Call(a)
            | Opcode::SetIndex(a)
            | Opcode::JumpV0(a) => a < ADDRESS_LIMIT,
            _ => true,
        }
    }

    /// The canonical instruction word of the opcode.
    pub fn encode(self) -> (w: u16)
        requires
            self.encodable(),
        ensures
            w == encoding(self),
    {
        match self {
            Opcode::ClearDisplay => 0x00E0,
            Opcode::Return => 0x00EE,
            Opcode::SysAddr(a) => a,
            Opcode::Jump(a) => 0x1000 + a,
            Opcode::Call(a) => 0x2000 + a,
            Opcode::SkipIfEqual(x, kk) => 0x3000 + x as u16 * 256 + kk as u16,
            Opcode::SkipIfNotEqual(x, kk) => 0x4000 + x as u16 * 256 + kk as u16,
            Opcode::SkipIfRegEqual(x, y) => 0x5000 + x as u16 * 256 + y as u16 * 16,
            Opcode::SkipIfRegNotEqual(x, y) => 0x9000 + x as u16 * 256 + y as u16 * 16,
            Opcode::LoadByte(x, kk) => 0x6000 + x as u16 * 256 + kk as u16,
            Opcode::AddByte(x, kk) => 0x7000 + x as u16 * 256 + kk as u16,
            Opcode::LoadReg(x, y) => 0x8000 + x as u16 * 256 + y as u16 * 16,
            Opcode::Or(x, y) => 0x8001 + x as u16 * 256 + y as u16 * 16,
            Opcode::And(x, y) => 0x8002 + x as u16 * 256 + y as u16 * 16,
            Opcode::Xor(x, y) => 0x8003 + x as u16 * 256 + y as u16 * 16,
            Opcode::AddReg(x, y) => 0x8004 + x as u16 * 256 + y as u16 * 16,
            Opcode::Sub(x, y) => 0x8005 + x as u16 * 256 + y as u16 * 16,
            Opcode::ShiftRight(x) => 0x8006 + x as u16 * 256,
            Opcode::SubN(x, y) => 0x8007 + x as u16 * 256 + y as u16 * 16,
            Opcode::ShiftLeft(x) => 0x800E + x as u16 * 256,
            Opcode::SetIndex(a) => 0xA000 + a,
            Opcode::JumpV0(a) => 0xB000 + a,
            Opcode::Random(x, kk) => 0xC000 + x as u16 * 256 + kk as u16,
            Opcode::Draw(x, y, n) => 0xD000 + x as u16 * 256 + y as u16 * 16 + n as u16,
            Opcode::SkipIfKeyPressed(x) => 0xE09E + x as u16 * 256,
            Opcode::SkipIfKeyNotPressed(x) => 0xE0A1 + x as u16 * 256,
            Opcode::LoadDelayTimer(x) => 0xF007 + x as u16 * 256,
            Opcode::WaitForKey(x) => 0xF00A + x as u16 * 256,
            Opcode::SetDelayTimer(x) => 0xF015 + x as u16 * 256,
            Opcode::SetSoundTimer(x) => 0xF018 + x as u16 * 256,
            Opcode::AddI(x) => 0xF01E + x as u16 * 256,
            Opcode::LoadSpriteAddr(x) => 0xF029 + x as u16 * 256,
            Opcode::StoreBCD(x) => 0xF033 + x as u16 * 256,
            Opcode::RegDump(x) => 0xF055 + x as u16 * 256,
            Opcode::RegLoad(x) => 0xF065 + x as u16 * 256,
            Opcode::Undefined(w) => w,
        }
    }

    /// Decodes the instruction stored as the bytes `msb`, `lsb`.
    pub fn from_bytes(msb: u8, lsb: u8) -> (res: Result<Opcode, OpcodeError>)
        ensures
            res == decode(msb, lsb),
            res matches Ok(op) ==> op.encodable() && !(op is Undefined),
            res matches Err(e) ==> e == OpcodeError::InvalidOpcode(word(msb, lsb)),
    {
        let instruction = Instruction::from((msb, lsb));
        let (code, x, y, n) = (
            instruction.get_code(),
            instruction.get_x(),
            instruction.get_y(),
            instruction.get_n(),
        );
        assert(lsb == y * 16 + n);
        assert(msb == code * 16 + x);
        assert(((msb as u16) << 8 | lsb as u16) == msb as u16 * 256 + lsb as u16) by (bit_vector);

        match (code, x, y, n) {
            (0, 0, 0xE, 0) => Ok(Opcode::ClearDisplay),
            (0, 0, 0xE, 0xE) => Ok(Opcode::Return),
            (0, _, _, _) => Ok(Opcode::SysAddr(instruction.get_address()?)),
            (0x1, _, _, _) => Ok(Opcode::Jump(instruction.get_address()?)),
            (0x2, _, _, _) => Ok(Opcode::Call(instruction.get_address()?)),
            (0x3, _, _, _) => Ok(Opcode::SkipIfEqual(instruction.get_x(), instruction.get_kk())),
            (0x4, _, _, _) => Ok(
                Opcode::SkipIfNotEqual(instruction.get_x(), instruction.get_kk()),
            ),
            (0x5, _, _, _) => Ok(Opcode::SkipIfRegEqual(instruction.get_x(), instruction.get_y())),
            (0x6, _, _, _) => Ok(Opcode::LoadByte(instruction.get_x(), instruction.get_byte())),
            (0x7, _, _, _) => Ok(Opcode::AddByte(instruction.get_x(), instruction.get_byte())),
            (0x8, _, _, 0x0) => Ok(Opcode::LoadReg(instruction.get_x(), instruction.get_y())),
            (0x8, _, _, 0x1) => Ok(Opcode::Or(instruction.get_x(), instruction.get_y())),
            (0x8, _, _, 0x2) => Ok(Opcode::And(instruction.get_x(), instruction.get_y())),
            (0x8, _, _, 0x3) => Ok(Opcode::Xor(instruction.get_x(), instruction.get_y())),
            (0x8, _, _, 0x4) => Ok(Opcode::AddReg(instruction.get_x(), instruction.get_y())),
            (0x8, _, _, 0x5) => Ok(Opcode::Sub(instruction.get_x(), instruction.get_y())),
            (0x8, _, _, 0x6) => Ok(Opcode::ShiftRight(instruction.get_x())),
            (0x8, _, _, 0x7) => Ok(Opcode::SubN(instruction.get_x(), instruction.get_y())),
            (0x8, _, _, 0xE) => Ok(Opcode::ShiftLeft(instruction.get_x())),
            (0x9, _, _, 0x0) => Ok(
                Opcode::SkipIfRegNotEqual(instruction.get_x(), instruction.get_y()),
            ),
            (0xA, _, _, _) => Ok(Opcode::SetIndex(instruction.get_address()?)),
            (0xB, _, _, _) => Ok(Opcode::JumpV0(instruction.get_address()?)),
            (0xC, _, _, _) => Ok(Opcode::Random(instruction.get_x(), instruction.get_byte())),
            (0xD, _, _, _) => Ok(
                Opcode::Draw(instruction.get_x(), instruction.get_y(), instruction.get_n()),
            ),
            (0xE, _, 0x9, 0xE) => Ok(Opcode::SkipIfKeyPressed(instruction.get_x())),
            (0xE, _, 0xA, 0x1) => Ok(Opcode::SkipIfKeyNotPressed(instruction.get_x())),
            (0xF, _, 0x0, 0x7) => Ok(Opcode::LoadDelayTimer(instruction.get_x())),
            (0xF, _, 0x0, 0xA) => Ok(Opcode::WaitForKey(instruction.get_x())),
            (0xF, _, 0x1, 0x5) => Ok(Opcode::SetDelayTimer(instruction.get_x())),
            (0xF, _, 0x1, 0x8) => Ok(Opcode::SetSoundTimer(instruction.get_x())),
            (0xF, _, 0x1, 0xE) => Ok(Opcode::AddI(instruction.get_x())),
            (0xF, _, 0x2, 0x9) => Ok(Opcode::LoadSpriteAddr(instruction.get_x())),
            (0xF, _, 0x3, 0x3) => Ok(Opcode::StoreBCD(instruction.get_x())),
            (0xF, _, 0x5, 0x5) => Ok(Opcode::RegDump(instruction.get_x())),
            (0xF, _, 0x6, 0x5) => Ok(Opcode::RegLoad(instruction.get_x())),
            _ => Err(OpcodeError::InvalidOpcode((msb as u16) << 8 | lsb as u16)),
        }
    }
}

} // verus!
