use chip8::opcodes::Opcode;
use chip8::state::PROGRAM_START_ADDRESS;
use chip8::{display, memory, stack, Chip8, Chip8Error};

#[test]
fn test_chip8_new() {
    Chip8::new();
}

#[test]
fn test_chip8_load_rom() {
    let mut chip8 = Chip8::new();
    let rom = [0x12, 0x34, 0x56, 0x78];
    chip8.load_rom(&rom);

    // Verify that the ROM is loaded correctly into memory
    assert_eq!(chip8.memory.read_byte(PROGRAM_START_ADDRESS), Ok(0x12));
    assert_eq!(chip8.memory.read_byte(PROGRAM_START_ADDRESS + 1), Ok(0x34));
    assert_eq!(chip8.memory.read_byte(PROGRAM_START_ADDRESS + 2), Ok(0x56));
    assert_eq!(chip8.memory.read_byte(PROGRAM_START_ADDRESS + 3), Ok(0x78));
}

#[test]
fn test_chip8_execute_add_byte() {
    let mut chip8 = Chip8::new();
    chip8.registers.write_v(0x0, 0x10);

    chip8.execute(Opcode::AddByte(0x0, 0x20)).unwrap();

    assert_eq!(chip8.registers.read_v(0x0), 0x30);
}

#[test]
fn test_chip8_execute_add_i() {
    let mut chip8 = Chip8::new();
    chip8.registers.write_v(0x0, 0x10);
    chip8.registers.i = 0x100;

    chip8.execute(Opcode::AddI(0x0)).unwrap();

    assert_eq!(chip8.registers.i, 0x110);
}

#[test]
fn test_chip8_execute_add_reg_no_overflow() {
    let mut chip8 = Chip8::new();
    chip8.registers.write_v(0x0, 0x10);
    chip8.registers.write_v(0x1, 0x20);

    chip8.execute(Opcode::AddReg(0x0, 0x1)).unwrap();

    assert_eq!(chip8.registers.read_v(0x0), 0x30);
    assert_eq!(chip8.registers.read_v(0xF), 0x0);
}

#[test]
fn test_chip8_execute_add_reg_with_overflow() {
    let mut chip8 = Chip8::new();
    chip8.registers.write_v(0x0, 0xFF);
    chip8.registers.write_v(0x1, 0x01);

    chip8.execute(Opcode::AddReg(0x0, 0x1)).unwrap();

    assert_eq!(chip8.registers.read_v(0x0), 0x00);
    assert_eq!(chip8.registers.read_v(0xF), 0x1);
}

#[test]
fn test_chip8_execute_and() {
    let mut chip8 = Chip8::new();
    chip8.registers.write_v(0x0, 0b10101010);
    chip8.registers.write_v(0x1, 0b11001100);

    chip8.execute(Opcode::And(0x0, 0x1)).unwrap();

    assert_eq!(chip8.registers.read_v(0x0), 0b10001000);
}
#[test]
fn test_chip8_execute_call() {
    let mut chip8 = Chip8::new();
    chip8.registers.pc = 0x200;

    chip8.execute(Opcode::Call(0x300)).unwrap();

    assert_eq!(chip8.stack.pop(), Ok(0x200));
    assert_eq!(chip8.registers.pc, 0x300);
}

#[test]
fn test_chip8_execute_call_stack_overflow() {
    let mut chip8 = Chip8::new();
    chip8.registers.pc = 0x200;
    for _ in 0..16 {
        chip8.stack.push(0x200).unwrap();
    }

    let result = chip8.execute(Opcode::Call(0x300));

    assert_eq!(
        result.unwrap_err(),
        Chip8Error::StackError(stack::StackError::StackOverflow)
    );
    assert_eq!(chip8.registers.pc, 0x200);
}
#[test]
fn test_chip8_execute_jump() {
    let mut chip8 = Chip8::new();

    chip8.execute(Opcode::Jump(0x300)).unwrap();

    assert_eq!(chip8.registers.pc, 0x300);
}

#[test]
fn test_chip8_execute_jump_v0() {
    let mut chip8 = Chip8::new();
    chip8.registers.write_v(0x0, 0x01);

    chip8.execute(Opcode::JumpV0(0x300)).unwrap();

    assert_eq!(chip8.registers.pc, 0x301);
}

#[test]
fn test_chip8_execute_load_byte() {
    let mut chip8 = Chip8::new();

    chip8.execute(Opcode::LoadByte(0x0, 0xFF)).unwrap();

    assert_eq!(chip8.registers.read_v(0x0), 0xFF);
}
#[test]
fn test_chip8_execute_load_delay_timer() {
    let mut chip8 = Chip8::new();
    chip8.timers.set_delay_timer(0x10);

    chip8.execute(Opcode::LoadDelayTimer(0x0)).unwrap();

    assert_eq!(chip8.registers.read_v(0x0), 0x10);
}
#[test]
fn test_chip8_execute_load_register() {
    let mut chip8 = Chip8::new();
    chip8.registers.write_v(0x1, 0x42);

    chip8.execute(Opcode::LoadReg(0x0, 0x1)).unwrap();

    assert_eq!(chip8.registers.read_v(0x0), 0x42);
}
#[test]
fn test_chip8_execute_or() {
    let mut chip8 = Chip8::new();
    chip8.registers.write_v(0x0, 0b10101010);
    chip8.registers.write_v(0x1, 0b11001100);

    chip8.execute(Opcode::Or(0x0, 0x1)).unwrap();

    assert_eq!(chip8.registers.read_v(0x0), 0b11101110);
}
#[test]
fn test_chip8_execute_random() {
    let mut chip8 = Chip8::new();

    chip8.execute(Opcode::Random(0x0, 0b11001100)).unwrap();

    let result = chip8.registers.read_v(0x0);
    assert_eq!(result & 0b11001100, result);
}
#[test]
fn test_chip8_execute_reg_dump() {
    let mut chip8 = Chip8::new();
    chip8.registers.write_v(0x0, 0x01);
    chip8.registers.write_v(0x1, 0x02);
    chip8.registers.write_v(0x2, 0x03);
    chip8.registers.write_v(0x3, 0x04);
    chip8.registers.i = 0x100;

    chip8.execute(Opcode::RegDump(0x3)).unwrap();

    assert_eq!(chip8.memory.read_byte(0x100), Ok(0x01));
    assert_eq!(chip8.memory.read_byte(0x101), Ok(0x02));
    assert_eq!(chip8.memory.read_byte(0x102), Ok(0x03));
    assert_eq!(chip8.memory.read_byte(0x103), Ok(0x04));
}

#[test]
fn test_chip8_execute_reg_dump_memory_error() {
    let mut chip8 = Chip8::new();
    chip8.registers.write_v(0x0, 0x01);
    chip8.registers.write_v(0x1, 0x02);
    chip8.registers.write_v(0x2, 0x03);
    chip8.registers.write_v(0x3, 0x04);
    chip8.registers.i = 0xFFFF;

    let result = chip8.execute(Opcode::RegDump(0x3));

    assert_eq!(
        result.unwrap_err(),
        Chip8Error::MemoryError(memory::MemoryError::AddressOutOfBounds)
    );
}
#[test]
fn test_chip8_execute_reg_load() {
    let mut chip8 = Chip8::new();
    chip8.registers.i = 0x100;
    chip8.memory.write_byte(0x100, 0x42).unwrap();
    chip8.memory.write_byte(0x101, 0x43).unwrap();

    chip8.execute(Opcode::RegLoad(0x01)).unwrap();

    assert_eq!(chip8.registers.read_v(0x0), 0x42);
    assert_eq!(chip8.registers.read_v(0x1), 0x43);
}

#[test]
fn test_chip8_execute_reg_load_memory_error() {
    let mut chip8 = Chip8::new();
    chip8.registers.i = 0xFFFF;

    let result = chip8.execute(Opcode::RegLoad(0x0));

    assert_eq!(
        result.unwrap_err(),
        Chip8Error::MemoryError(memory::MemoryError::AddressOutOfBounds)
    );
}
#[test]
fn test_chip8_execute_return() {
    let mut chip8 = Chip8::new();
    chip8.stack.push(0x300).unwrap();

    chip8.execute(Opcode::Return).unwrap();

    assert_eq!(chip8.registers.pc, 0x300);
}

#[test]
fn test_chip8_execute_return_empty_stack() {
    let mut chip8 = Chip8::new();
    chip8.registers.pc = 0x200;

    let result = chip8.execute(Opcode::Return);

    assert_eq!(
        result.unwrap_err(),
        Chip8Error::StackError(stack::StackError::StackUnderflow)
    );
    assert_eq!(chip8.registers.pc, 0x200);
}
#[test]
fn test_chip8_execute_set_delay_timer() {
    let mut chip8 = Chip8::new();
    chip8.registers.write_v(0x0, 0x10);

    chip8.execute(Opcode::SetDelayTimer(0x0)).unwrap();

    assert_eq!(chip8.timers.get_delay_timer(), 0x10);
}

#[test]
fn test_chip8_execute_set_index() {
    let mut chip8 = Chip8::new();

    chip8.execute(Opcode::SetIndex(0x300)).unwrap();

    assert_eq!(chip8.registers.i, 0x300);
}

#[test]
fn test_chip8_execute_set_sound_timer() {
    let mut chip8 = Chip8::new();
    chip8.registers.write_v(0x0, 0x10);

    chip8.execute(Opcode::SetSoundTimer(0x0)).unwrap();

    assert_eq!(chip8.timers.get_sound_timer(), 0x10);
}
#[test]
fn test_chip8_execute_shift_left() {
    let mut chip8 = Chip8::new();
    chip8.registers.write_v(0x0, 0b00101010);

    chip8.execute(Opcode::ShiftLeft(0x0)).unwrap();

    assert_eq!(chip8.registers.read_v(0x0), 0b01010100);
    assert_eq!(chip8.registers.read_v(0xF), 0x0);
}

#[test]
fn test_chip8_execute_shift_left_overflow() {
    let mut chip8 = Chip8::new();
    chip8.registers.write_v(0x0, 0b10000000);

    chip8.execute(Opcode::ShiftLeft(0x0)).unwrap();

    assert_eq!(chip8.registers.read_v(0x0), 0b00000000);
    assert_eq!(chip8.registers.read_v(0xF), 0x1);
}
#[test]
fn test_chip8_execute_shift_right() {
    let mut chip8 = Chip8::new();
    chip8.registers.write_v(0x0, 0b10101010);

    chip8.execute(Opcode::ShiftRight(0x0)).unwrap();

    assert_eq!(chip8.registers.read_v(0x0), 0b01010101);
    assert_eq!(chip8.registers.read_v(0xF), 0x0);
}

#[test]
fn test_chip8_execute_shift_right_overflow() {
    let mut chip8 = Chip8::new();
    chip8.registers.write_v(0x0, 0b00000001);

    chip8.execute(Opcode::ShiftRight(0x0)).unwrap();

    assert_eq!(chip8.registers.read_v(0x0), 0b00000000);
    assert_eq!(chip8.registers.read_v(0xF), 0x1);
}
#[test]
fn test_chip8_execute_skip_if_equal_skips() {
    let mut chip8 = Chip8::new();
    chip8.registers.write_v(0x0, 0x10);
    chip8.registers.pc = 0x200;

    chip8.execute(Opcode::SkipIfEqual(0x0, 0x10)).unwrap();

    assert_eq!(chip8.registers.pc, 0x202);
}

#[test]
fn test_chip8_execute_skip_if_equal_not_skips() {
    let mut chip8 = Chip8::new();
    chip8.registers.write_v(0x0, 0x10);
    chip8.registers.pc = 0x200;

    chip8.execute(Opcode::SkipIfEqual(0x0, 0x1)).unwrap();

    assert_eq!(chip8.registers.pc, 0x200);
}
#[test]
fn test_chip8_execute_skip_if_reg_equal_skips() {
    let mut chip8 = Chip8::new();
    chip8.registers.write_v(0x0, 0x10);
    chip8.registers.write_v(0x1, 0x10);
    chip8.registers.pc = 0x200;

    chip8.execute(Opcode::SkipIfRegEqual(0x0, 0x1)).unwrap();

    assert_eq!(chip8.registers.pc, 0x202);
}

#[test]
fn test_chip8_execute_skip_if_reg_equal_not_skips() {
    let mut chip8 = Chip8::new();
    chip8.registers.write_v(0x0, 0x10);
    chip8.registers.write_v(0x1, 0x20);
    chip8.registers.pc = 0x200;

    chip8.execute(Opcode::SkipIfRegEqual(0x0, 0x1)).unwrap();

    assert_eq!(chip8.registers.pc, 0x200);
}
#[test]
fn test_chip8_execute_skip_if_not_equal_skips() {
    let mut chip8 = Chip8::new();
    chip8.registers.write_v(0x0, 0x10);
    chip8.registers.pc = 0x200;

    chip8.execute(Opcode::SkipIfNotEqual(0x0, 0x1)).unwrap();

    assert_eq!(chip8.registers.pc, 0x202);
}

#[test]
fn test_chip8_execute_skip_if_not_equal_not_skips() {
    let mut chip8 = Chip8::new();
    chip8.registers.write_v(0x0, 0x10);
    chip8.registers.pc = 0x200;

    chip8.execute(Opcode::SkipIfNotEqual(0x0, 0x10)).unwrap();

    assert_eq!(chip8.registers.pc, 0x200);
}

#[test]
fn test_chip8_execute_sub() {
    let mut chip8 = Chip8::new();
    chip8.registers.write_v(0x0, 0x10);
    chip8.registers.write_v(0x1, 0x05);

    chip8.execute(Opcode::Sub(0x0, 0x1)).unwrap();

    assert_eq!(chip8.registers.read_v(0x0), 0x0B);
    assert_eq!(chip8.registers.read_v(0xF), 0x1);
}

#[test]
fn test_chip8_execute_sub_no_borrow() {
    let mut chip8 = Chip8::new();
    chip8.registers.write_v(0x0, 0x10);
    chip8.registers.write_v(0x1, 0x0F);

    chip8.execute(Opcode::Sub(0x0, 0x1)).unwrap();

    assert_eq!(chip8.registers.read_v(0x0), 0x01);
    assert_eq!(chip8.registers.read_v(0xF), 0x1);
}

#[test]
fn test_chip8_execute_sub_borrow() {
    let mut chip8 = Chip8::new();
    chip8.registers.write_v(0x0, 0x0F);
    chip8.registers.write_v(0x1, 0x10);
    chip8.execute(Opcode::Sub(0x0, 0x1)).unwrap();
    assert_eq!(chip8.registers.read_v(0x0), 0xFF);
    assert_eq!(chip8.registers.read_v(0xF), 0x0);
}
#[test]
fn test_chip8_execute_store_bcd() {
    let mut chip8 = Chip8::new();
    chip8.registers.write_v(0x0, 123);
    chip8.registers.i = 0x200;

    chip8.execute(Opcode::StoreBCD(0x0)).unwrap();

    assert_eq!(chip8.memory.read_byte(0x200), Ok(1));
    assert_eq!(chip8.memory.read_byte(0x201), Ok(2));
    assert_eq!(chip8.memory.read_byte(0x202), Ok(3));
}
#[test]
fn test_chip8_execute_xor() {
    let mut chip8 = Chip8::new();
    chip8.registers.write_v(0x0, 0b10101010);
    chip8.registers.write_v(0x1, 0b11001100);

    chip8.execute(Opcode::Xor(0x0, 0x1)).unwrap();

    assert_eq!(chip8.registers.read_v(0x0), 0b01100110);
}

#[test]
fn test_chip8_execute_skip_if_reg_not_equal_skips() {
    let mut chip8 = Chip8::new();
    chip8.registers.write_v(0x0, 0x10);
    chip8.registers.write_v(0x1, 0x20);
    chip8.registers.pc = 0x200;

    chip8.execute(Opcode::SkipIfRegNotEqual(0x0, 0x1)).unwrap();

    assert_eq!(chip8.registers.pc, 0x202);
}

#[test]
fn test_chip8_execute_skip_if_reg_not_equal_not_skips() {
    let mut chip8 = Chip8::new();
    chip8.registers.write_v(0x0, 0x10);
    chip8.registers.write_v(0x1, 0x10);
    chip8.registers.pc = 0x200;

    chip8.execute(Opcode::SkipIfRegNotEqual(0x0, 0x1)).unwrap();

    assert_eq!(chip8.registers.pc, 0x200);
}
#[test]
fn test_chip8_execute_subn() {
    let mut chip8 = Chip8::new();
    chip8.registers.write_v(0x0, 0x5);
    chip8.registers.write_v(0x1, 0x10);

    chip8.execute(Opcode::SubN(0x0, 0x1)).unwrap();

    assert_eq!(chip8.registers.read_v(0x0), 0xB);
    assert_eq!(chip8.registers.read_v(0xF), 0x1);
}

#[test]
fn test_chip8_execute_subn_no_borrow() {
    let mut chip8 = Chip8::new();
    chip8.registers.write_v(0x0, 0x0F);
    chip8.registers.write_v(0x1, 0x10);

    chip8.execute(Opcode::SubN(0x0, 0x1)).unwrap();

    assert_eq!(chip8.registers.read_v(0x0), 0x01);
    assert_eq!(chip8.registers.read_v(0xF), 0x1);
}

#[test]
fn test_chip8_execute_subn_borrow() {
    let mut chip8 = Chip8::new();
    chip8.registers.write_v(0x0, 0x10);
    chip8.registers.write_v(0x1, 0x0F);

    chip8.execute(Opcode::SubN(0x0, 0x1)).unwrap();

    assert_eq!(chip8.registers.read_v(0x0), 0xFF);
    assert_eq!(chip8.registers.read_v(0xF), 0x0);
}

#[test]
fn test_chip8_load_sprites() {
    let mut chip8 = Chip8::new();
    chip8.load_sprites();
    for (sprite_idx, sprite) in display::BUILT_IN_SPRITES.iter().enumerate() {
        for (byte_idx, &byte) in sprite.iter().enumerate() {
            let read_addr = display::SPRITE_START_ADDRESS + sprite_idx * sprite.len() + byte_idx;
            assert_eq!(chip8.memory.read_byte(read_addr), Ok(byte));
        }
    }
}
