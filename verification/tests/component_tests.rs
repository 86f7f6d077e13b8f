use chip8::display::{
    bit_erased, Display, DisplayError, BUILT_IN_SPRITES, DISPLAY_HEIGHT, DISPLAY_WIDTH,
    SPRITE_LEN,
};
use chip8::input::{Error, Input};
use chip8::memory::{Memory, MemoryError, MEMORY_SIZE};
use chip8::opcodes::{Opcode, OpcodeError};
use chip8::registers::Registers;
use chip8::stack::{Stack, StackError, STACK_SIZE};
use chip8::timers::Timers;

#[test]
fn memory_starts_zeroed() {
    let memory = Memory::new();
    for address in 0..MEMORY_SIZE {
        assert_eq!(memory.read_byte(address), Ok(0));
    }
}

#[test]
fn memory_write_then_read_at_every_address() {
    let mut memory = Memory::new();
    for address in 0..MEMORY_SIZE {
        let value = (address % 251) as u8;
        assert_eq!(memory.write_byte(address, value), Ok(()));
        assert_eq!(memory.read_byte(address), Ok(value));
    }
    for address in 0..MEMORY_SIZE {
        assert_eq!(memory.read_byte(address), Ok((address % 251) as u8));
    }
}

#[test]
fn memory_rejects_the_first_address_beyond_the_end() {
    let mut memory = Memory::new();
    assert_eq!(memory.write_byte(MEMORY_SIZE - 1, 7), Ok(()));
    assert_eq!(memory.read_byte(MEMORY_SIZE - 1), Ok(7));
    assert_eq!(memory.write_byte(MEMORY_SIZE, 9), Err(MemoryError::AddressOutOfBounds));
    assert_eq!(memory.read_byte(MEMORY_SIZE), Err(MemoryError::AddressOutOfBounds));
    assert_eq!(memory.read_byte(usize::MAX), Err(MemoryError::AddressOutOfBounds));
    assert_eq!(memory.read_byte(MEMORY_SIZE - 1), Ok(7));
}

#[test]
fn registers_hold_sixteen_independent_values() {
    let mut registers = Registers::new();
    for register in 0..16u8 {
        registers.write_v(register, 0xF0 | register);
    }
    for register in 0..16u8 {
        assert_eq!(registers.read_v(register), 0xF0 | register);
    }
    assert_eq!(registers.i, 0);
    assert_eq!(registers.pc, 0);
}

#[test]
fn stack_returns_a_full_load_in_reverse() {
    let mut stack = Stack::new();
    for value in 0..STACK_SIZE as u16 {
        assert_eq!(stack.push(0x200 + value), Ok(()));
    }
    assert_eq!(stack.depth(), STACK_SIZE);
    assert_eq!(stack.push(0xBAD), Err(StackError::StackOverflow));
    assert_eq!(stack.depth(), STACK_SIZE);
    for value in (0..STACK_SIZE as u16).rev() {
        assert_eq!(stack.pop(), Ok(0x200 + value));
    }
    assert_eq!(stack.depth(), 0);
    assert_eq!(stack.pop(), Err(StackError::StackUnderflow));
    assert_eq!(stack.depth(), 0);
}

#[test]
fn stack_overflow_keeps_every_entry() {
    let mut stack = Stack::new();
    for value in 0..STACK_SIZE as u16 {
        stack.push(value).unwrap();
    }
    let before = stack.slots();
    assert_eq!(stack.push(0xFFFF), Err(StackError::StackOverflow));
    assert_eq!(stack.slots(), before);
    assert_eq!(stack.pop(), Ok(15));
}

#[test]
fn stack_slots_keep_popped_values() {
    let mut stack = Stack::new();
    stack.push(0x111).unwrap();
    stack.push(0x222).unwrap();
    assert_eq!(stack.pop(), Ok(0x222));
    let slots = stack.slots();
    assert_eq!(slots[0], 0x111);
    assert_eq!(slots[1], 0x222);
    assert_eq!(slots[2], 0);
    assert_eq!(stack.depth(), 1);
}

#[test]
fn timers_count_down_independently_and_stop_at_zero() {
    let mut timers = Timers::new();
    timers.set_delay_timer(2);
    timers.set_sound_timer(255);
    timers.decrement_timers();
    assert_eq!((timers.get_delay_timer(), timers.get_sound_timer()), (1, 254));
    timers.decrement_timers();
    assert_eq!((timers.get_delay_timer(), timers.get_sound_timer()), (0, 253));
    timers.decrement_timers();
    assert_eq!((timers.get_delay_timer(), timers.get_sound_timer()), (0, 252));
}

#[test]
fn every_hex_digit_key_has_its_code() {
    let names = [
        "0", "1", "2", "3", "4", "5", "6", "7", "8", "9", "a", "b", "c", "d", "e", "f",
    ];
    let mut input = Input::new();
    for (code, name) in names.iter().enumerate() {
        input.set_key(name);
        assert_eq!(input.get_key(), Some(*name));
        assert_eq!(input.get_key_u8(), Ok(Some(code as u8)));
    }
}

#[test]
fn names_outside_the_key_alphabet_are_invalid() {
    let mut input = Input::new();
    for name in ["", "g", "A", "F", "10", "ff", "0a", "+1", " 1", "/", ":", "`", "é"] {
        input.set_key(name);
        assert_eq!(input.get_key(), Some(name));
        assert_eq!(input.get_key_u8(), Err(Error::InvalidKey(name.to_string())));
    }
}

#[test]
fn a_new_key_replaces_the_old_one() {
    let mut input = Input::new();
    input.set_key("3");
    input.set_key("c");
    assert_eq!(input.get_key(), Some("c"));
    assert_eq!(input.get_key_u8(), Ok(Some(12)));
    input.clear_key();
    assert_eq!(input.get_key(), None);
    assert_eq!(input.get_key_u8(), Ok(None));
}

#[test]
fn every_digit_has_a_glyph_address() {
    for digit in 0..16u8 {
        assert_eq!(Display::get_sprite_address(digit), Ok(digit as usize * SPRITE_LEN));
    }
    assert_eq!(Display::get_sprite_address(15), Ok(75));
    for digit in 16..=255u8 {
        assert_eq!(Display::get_sprite_address(digit), Err(DisplayError::InvalidSprite(digit)));
    }
}

#[test]
fn the_font_has_the_sixteen_hex_glyphs() {
    assert_eq!(BUILT_IN_SPRITES.len(), 16);
    assert_eq!(BUILT_IN_SPRITES[0x0], [0xF0, 0x90, 0x90, 0x90, 0xF0]);
    assert_eq!(BUILT_IN_SPRITES[0xA], [0xF0, 0x90, 0xF0, 0x90, 0x90]);
    assert_eq!(BUILT_IN_SPRITES[0xF], [0xF0, 0x80, 0xF0, 0x80, 0x80]);
}

fn lit_pixels(display: &Display) -> Vec<(usize, usize)> {
    let mut lit = Vec::new();
    for row in 0..DISPLAY_HEIGHT {
        for col in 0..DISPLAY_WIDTH {
            if display.get_pixel(row, col) {
                lit.push((row, col));
            }
        }
    }
    lit
}

#[test]
fn drawing_a_sprite_twice_restores_the_display() {
    let sprite = BUILT_IN_SPRITES[8].to_vec();
    for (row, col) in [(0, 0), (10, 13), (62, 125), (63, 127), (200, 1000)] {
        let mut display = Display::new();
        assert!(!display.draw_sprite(row, col, &sprite));
        assert_eq!(lit_pixels(&display).len(), 4 + 2 + 4 + 2 + 4);
        assert!(display.draw_sprite(row, col, &sprite));
        assert_eq!(lit_pixels(&display), vec![]);
        for packed_row in display.buffer.iter() {
            assert_eq!(*packed_row, [0u8; 16]);
        }
    }
}

#[test]
fn drawing_twice_restores_a_display_that_was_not_dark() {
    let mut display = Display::new();
    display.draw_sprite(3, 5, &BUILT_IN_SPRITES[4].to_vec());
    let before = display.buffer;
    let sprite = vec![0xFF, 0x81, 0xFF];
    let first = display.draw_sprite(4, 2, &sprite);
    assert!(first);
    assert_ne!(display.buffer, before);
    let second = display.draw_sprite(4, 2, &sprite);
    assert!(second);
    assert_eq!(display.buffer, before);
}

#[test]
fn sprites_that_lie_apart_erase_nothing() {
    let mut display = Display::new();
    assert!(!display.draw_sprite(0, 0, &BUILT_IN_SPRITES[1].to_vec()));
    assert!(!display.draw_sprite(0, 8, &BUILT_IN_SPRITES[2].to_vec()));
    assert!(!display.draw_sprite(5, 0, &BUILT_IN_SPRITES[3].to_vec()));
    assert!(!display.draw_sprite(40, 100, &vec![0xFF; 15]));
}

#[test]
fn an_erasure_in_the_first_row_is_reported() {
    let mut display = Display::new();
    display.draw_sprite(0, 0, &vec![0x80]);
    let erased = display.draw_sprite(0, 0, &vec![0x80, 0x00, 0x00, 0x40]);
    assert!(erased);
    assert!(!display.get_pixel(0, 0));
    assert!(display.get_pixel(3, 1));
}

#[test]
fn an_erasure_in_the_second_byte_is_reported() {
    let mut display = Display::new();
    assert!(!display.draw_sprite_row(7, 12, 0b0000_0001));
    assert_eq!(display.buffer[7][1], 0);
    assert_eq!(display.buffer[7][2], 0b0001_0000);
    assert!(display.draw_sprite_row(7, 12, 0b1000_0001));
    assert_eq!(display.buffer[7][1], 0b0000_1000);
    assert_eq!(display.buffer[7][2], 0);
}

#[test]
fn a_sprite_wraps_around_the_right_edge_without_losing_a_pixel() {
    let mut display = Display::new();
    let col = DISPLAY_WIDTH - 4;
    let value = 0b1011_0111;
    assert!(!display.draw_sprite_row(9, col, value));
    let last = display.buffer[9][15];
    let first = display.buffer[9][0];
    assert_eq!(last, 0b0000_1011);
    assert_eq!(first, 0b0111_0000);
    assert_eq!((last << 4) | (first >> 4), value);
    assert_eq!(lit_pixels(&display), vec![(9, 1), (9, 2), (9, 3), (9, 124), (9, 126), (9, 127)]);
}

#[test]
fn a_sprite_wraps_around_both_edges() {
    let mut display = Display::new();
    assert!(!display.draw_sprite(DISPLAY_HEIGHT - 1, DISPLAY_WIDTH - 1, &vec![0xC0, 0xC0]));
    assert_eq!(lit_pixels(&display), vec![(0, 0), (0, 127), (63, 0), (63, 127)]);
}

#[test]
fn positions_are_taken_modulo_the_display_size() {
    let mut far = Display::new();
    let mut near = Display::new();
    let sprite = BUILT_IN_SPRITES[0xB].to_vec();
    far.draw_sprite(3 + 5 * DISPLAY_HEIGHT, 9 + 7 * DISPLAY_WIDTH, &sprite);
    near.draw_sprite(3, 9, &sprite);
    assert_eq!(far.buffer, near.buffer);
    far.draw_sprite(usize::MAX, usize::MAX, &sprite);
    near.draw_sprite(usize::MAX % DISPLAY_HEIGHT, usize::MAX % DISPLAY_WIDTH, &sprite);
    assert_eq!(far.buffer, near.buffer);
}

#[test]
fn get_pixel_reads_the_leftmost_pixel_from_the_highest_bit() {
    let mut display = Display::new();
    display.draw_sprite_row(2, 16, 0b1000_0001);
    assert!(display.get_pixel(2, 16));
    assert!(!display.get_pixel(2, 17));
    assert!(display.get_pixel(2, 23));
    assert!(!display.get_pixel(2, 24));
    assert!(display.get_pixel(2 + DISPLAY_HEIGHT, 16 + DISPLAY_WIDTH));
    assert!(!display.get_pixel(1, 16));
}

#[test]
fn an_empty_sprite_draws_nothing() {
    let mut display = Display::new();
    display.draw_sprite(0, 0, &BUILT_IN_SPRITES[5].to_vec());
    let before = display.buffer;
    assert!(!display.draw_sprite(0, 0, &vec![]));
    assert_eq!(display.buffer, before);
}

#[test]
fn clear_keeps_the_dimensions() {
    let mut display = Display::new();
    display.draw_sprite(1, 1, &vec![0xFF; 15]);
    display.clear();
    assert_eq!(display.width, DISPLAY_WIDTH);
    assert_eq!(display.height, DISPLAY_HEIGHT);
    assert_eq!(lit_pixels(&display), vec![]);
}

#[test]
fn bit_erased_sees_each_single_bit() {
    for bit in 0..8 {
        let original = 1u8 << bit;
        assert!(bit_erased(original, 0));
        assert!(bit_erased(0xFF, !original));
        assert!(!bit_erased(original, original));
        assert!(!bit_erased(0, original));
        assert!(!bit_erased(original, 0xFF));
    }
}

fn decodable_opcodes() -> Vec<Opcode> {
    let mut opcodes = vec![Opcode::ClearDisplay, Opcode::Return];
    for addr in [0x000, 0x001, 0x0DF, 0x0E1, 0x0ED, 0x0EF, 0x123, 0x3FF, 0x400, 0xFFF] {
        opcodes.push(Opcode::SysAddr(addr));
    }
    for addr in [0x000, 0x0E0, 0x0EE, 0x200, 0x3FF, 0x400, 0x800, 0xC01, 0xFFF] {
        opcodes.push(Opcode::Jump(addr));
        opcodes.push(Opcode::Call(addr));
        opcodes.push(Opcode::SetIndex(addr));
        opcodes.push(Opcode::JumpV0(addr));
    }
    for x in 0..16u8 {
        for kk in [0x00u8, 0x0F, 0xE0, 0xFF] {
            opcodes.push(Opcode::SkipIfEqual(x, kk));
            opcodes.push(Opcode::SkipIfNotEqual(x, kk));
            opcodes.push(Opcode::LoadByte(x, kk));
            opcodes.push(Opcode::AddByte(x, kk));
            opcodes.push(Opcode::Random(x, kk));
        }
        for y in 0..16u8 {
            opcodes.push(Opcode::SkipIfRegEqual(x, y));
            opcodes.push(Opcode::SkipIfRegNotEqual(x, y));
            opcodes.push(Opcode::LoadReg(x, y));
            opcodes.push(Opcode::Or(x, y));
            opcodes.push(Opcode::And(x, y));
            opcodes.push(Opcode::Xor(x, y));
            opcodes.push(Opcode::AddReg(x, y));
            opcodes.push(Opcode::Sub(x, y));
            opcodes.push(Opcode::SubN(x, y));
            for n in [0u8, 1, 5, 15] {
                opcodes.push(Opcode::Draw(x, y, n));
            }
        }
        opcodes.push(Opcode::ShiftRight(x));
        opcodes.push(Opcode::ShiftLeft(x));
        opcodes.push(Opcode::SkipIfKeyPressed(x));
        opcodes.push(Opcode::SkipIfKeyNotPressed(x));
        opcodes.push(Opcode::LoadDelayTimer(x));
        opcodes.push(Opcode::WaitForKey(x));
        opcodes.push(Opcode::SetDelayTimer(x));
        opcodes.push(Opcode::SetSoundTimer(x));
        opcodes.push(Opcode::AddI(x));
        opcodes.push(Opcode::LoadSpriteAddr(x));
        opcodes.push(Opcode::StoreBCD(x));
        opcodes.push(Opcode::RegDump(x));
        opcodes.push(Opcode::RegLoad(x));
    }
    opcodes
}

#[test]
fn decoding_undoes_encoding() {
    for opcode in decodable_opcodes() {
        let word = opcode.encode();
        let decoded = Opcode::from_bytes((word >> 8) as u8, (word & 0xFF) as u8);
        assert_eq!(decoded, Ok(opcode), "word {:#06X}", word);
    }
}

#[test]
fn every_word_decodes_to_an_opcode_that_encodes_to_a_word_for_itself() {
    for word in 0..=0xFFFFu16 {
        let msb = (word >> 8) as u8;
        let lsb = (word & 0xFF) as u8;
        match Opcode::from_bytes(msb, lsb) {
            Ok(opcode) => {
                assert!(!matches!(opcode, Opcode::Undefined(_)));
                let canonical = opcode.encode();
                assert_eq!(
                    Opcode::from_bytes((canonical >> 8) as u8, (canonical & 0xFF) as u8),
                    Ok(opcode)
                );
            }
            Err(OpcodeError::InvalidOpcode(raw)) => {
                assert_eq!(raw, word);
                assert!(matches!(msb >> 4, 0x8 | 0x9 | 0xE | 0xF));
            }
            Err(OpcodeError::InvalidAddress(address)) => {
                panic!("word {:#06X} was refused for its address {:#05X}", word, address)
            }
        }
    }
}

#[test]
fn encoding_gives_the_documented_words() {
    assert_eq!(Opcode::ClearDisplay.encode(), 0x00E0);
    assert_eq!(Opcode::Return.encode(), 0x00EE);
    assert_eq!(Opcode::SysAddr(0x123).encode(), 0x0123);
    assert_eq!(Opcode::Jump(0x234).encode(), 0x1234);
    assert_eq!(Opcode::Call(0x345).encode(), 0x2345);
    assert_eq!(Opcode::SkipIfEqual(0xA, 0xBC).encode(), 0x3ABC);
    assert_eq!(Opcode::SkipIfNotEqual(0xA, 0xBC).encode(), 0x4ABC);
    assert_eq!(Opcode::SkipIfRegEqual(0xA, 0xB).encode(), 0x5AB0);
    assert_eq!(Opcode::LoadByte(0xA, 0xBC).encode(), 0x6ABC);
    assert_eq!(Opcode::AddByte(0xA, 0xBC).encode(), 0x7ABC);
    assert_eq!(Opcode::LoadReg(0xA, 0xB).encode(), 0x8AB0);
    assert_eq!(Opcode::Or(0xA, 0xB).encode(), 0x8AB1);
    assert_eq!(Opcode::And(0xA, 0xB).encode(), 0x8AB2);
    assert_eq!(Opcode::Xor(0xA, 0xB).encode(), 0x8AB3);
    assert_eq!(Opcode::AddReg(0xA, 0xB).encode(), 0x8AB4);
    assert_eq!(Opcode::Sub(0xA, 0xB).encode(), 0x8AB5);
    assert_eq!(Opcode::ShiftRight(0xA).encode(), 0x8A06);
    assert_eq!(Opcode::SubN(0xA, 0xB).encode(), 0x8AB7);
    assert_eq!(Opcode::ShiftLeft(0xA).encode(), 0x8A0E);
    assert_eq!(Opcode::SkipIfRegNotEqual(0xA, 0xB).encode(), 0x9AB0);
    assert_eq!(Opcode::SetIndex(0x3BC).encode(), 0xA3BC);
    assert_eq!(Opcode::JumpV0(0x3BC).encode(), 0xB3BC);
    assert_eq!(Opcode::Random(0xA, 0xBC).encode(), 0xCABC);
    assert_eq!(Opcode::Draw(0xA, 0xB, 0xC).encode(), 0xDABC);
    assert_eq!(Opcode::SkipIfKeyPressed(0xA).encode(), 0xEA9E);
    assert_eq!(Opcode::SkipIfKeyNotPressed(0xA).encode(), 0xEAA1);
    assert_eq!(Opcode::LoadDelayTimer(0xA).encode(), 0xFA07);
    assert_eq!(Opcode::WaitForKey(0xA).encode(), 0xFA0A);
    assert_eq!(Opcode::SetDelayTimer(0xA).encode(), 0xFA15);
    assert_eq!(Opcode::SetSoundTimer(0xA).encode(), 0xFA18);
    assert_eq!(Opcode::AddI(0xA).encode(), 0xFA1E);
    assert_eq!(Opcode::LoadSpriteAddr(0xA).encode(), 0xFA29);
    assert_eq!(Opcode::StoreBCD(0xA).encode(), 0xFA33);
    assert_eq!(Opcode::RegDump(0xA).encode(), 0xFA55);
    assert_eq!(Opcode::RegLoad(0xA).encode(), 0xFA65);
    assert_eq!(Opcode::Undefined(0xFABC).encode(), 0xFABC);
}

#[test]
fn words_outside_the_instruction_table_are_invalid() {
    for (msb, lsb) in [
        (0x80u8, 0x08u8),
        (0x8A, 0xBD),
        (0x8A, 0xBF),
        (0x90, 0x01),
        (0x9A, 0xBF),
        (0xE0, 0x00),
        (0xE0, 0x9F),
        (0xE1, 0xA0),
        (0xF0, 0x00),
        (0xF0, 0x08),
        (0xF0, 0x56),
        (0xFF, 0xFF),
        (0xFA, 0xBC),
    ] {
        let word = (msb as u16) << 8 | lsb as u16;
        assert_eq!(Opcode::from_bytes(msb, lsb), Err(OpcodeError::InvalidOpcode(word)));
    }
}

#[test]
fn every_twelve_bit_address_decodes() {
    for address in 0..=0xFFFu16 {
        let hi = (address >> 8) as u8;
        let lo = (address & 0xFF) as u8;
        assert_eq!(Opcode::from_bytes(0x10 | hi, lo), Ok(Opcode::Jump(address)));
        assert_eq!(Opcode::from_bytes(0x20 | hi, lo), Ok(Opcode::Call(address)));
        assert_eq!(Opcode::from_bytes(0xA0 | hi, lo), Ok(Opcode::SetIndex(address)));
        assert_eq!(Opcode::from_bytes(0xB0 | hi, lo), Ok(Opcode::JumpV0(address)));
        let system = match address {
            0x0E0 => Opcode::ClearDisplay,
            0x0EE => Opcode::Return,
            _ => Opcode::SysAddr(address),
        };
        assert_eq!(Opcode::from_bytes(hi, lo), Ok(system));
    }
}

#[test]
fn addresses_encode_into_the_low_twelve_bits() {
    assert_eq!(Opcode::Jump(0xFFF).encode(), 0x1FFF);
    assert_eq!(Opcode::Call(0x400).encode(), 0x2400);
    assert_eq!(Opcode::SetIndex(0xABC).encode(), 0xAABC);
    assert_eq!(Opcode::JumpV0(0x800).encode(), 0xB800);
    assert_eq!(Opcode::SysAddr(0xFFF).encode(), 0x0FFF);
}

#[test]
fn low_nibbles_that_an_instruction_does_not_read_are_ignored() {
    assert_eq!(Opcode::from_bytes(0x51, 0x2F), Ok(Opcode::SkipIfRegEqual(1, 2)));
    assert_eq!(Opcode::from_bytes(0x81, 0xF6), Ok(Opcode::ShiftRight(1)));
    assert_eq!(Opcode::from_bytes(0x81, 0xFE), Ok(Opcode::ShiftLeft(1)));
    assert_eq!(Opcode::from_bytes(0x00, 0xE1), Ok(Opcode::SysAddr(0x0E1)));
    assert_eq!(Opcode::from_bytes(0x01, 0xE0), Ok(Opcode::SysAddr(0x1E0)));
}
