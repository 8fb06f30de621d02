use my_chip8::{decode, Chip8, Chip8Error, Instruction, DISPLAY_HEIGHT, DISPLAY_WIDTH};

fn machine_with(program: &[u8]) -> Chip8 {
    let mut c = Chip8::new();
    c.load_rom(program).unwrap();
    c
}

fn run(c: &mut Chip8, cycles: usize) {
    for _ in 0..cycles {
        c.step(0).unwrap();
    }
}

fn lit(c: &Chip8, x: usize, y: usize) -> bool {
    c.display()[y * DISPLAY_WIDTH + x] == 1
}

#[test]
fn load_and_set_registers() {
    let mut c = machine_with(&[0x60, 0x05, 0x61, 0x0a]);
    run(&mut c, 2);
    assert_eq!(c.register(0), 5);
    assert_eq!(c.register(1), 10);
    assert_eq!(c.program_counter(), 0x204);
}

#[test]
fn clear_screen_blanks_grid() {
    // draw glyph 0, then clear
    let mut c = machine_with(&[0xf0, 0x29, 0xd0, 0x15, 0x00, 0xe0]);
    run(&mut c, 2);
    assert!(c.display().iter().any(|&p| p == 1));
    run(&mut c, 1);
    assert_eq!(c.display().len(), 2048);
    assert!(c.display().iter().all(|&p| p == 0));
    assert!(c.draw_flag());
}

#[test]
fn draw_font_glyph_zero() {
    let mut c = machine_with(&[0xf0, 0x29, 0xd0, 0x15]);
    run(&mut c, 1);
    assert_eq!(c.address_register(), 0x50);
    run(&mut c, 1);
    let glyph: [u8; 5] = [0xf0, 0x90, 0x90, 0x90, 0xf0];
    for y in 0..DISPLAY_HEIGHT {
        for x in 0..DISPLAY_WIDTH {
            let expected = y < 5 && x < 8 && (glyph[y] >> (7 - x)) & 1 == 1;
            assert_eq!(lit(&c, x, y), expected, "cell ({}, {})", x, y);
        }
    }
    assert_eq!(c.register(15), 0);
    assert!(c.draw_flag());
}

#[test]
fn call_then_return() {
    let mut rom = vec![0u8; 0x102];
    rom[0] = 0x23;
    rom[1] = 0x00;
    rom[0x100] = 0x00;
    rom[0x101] = 0xee;
    let mut c = machine_with(&rom);
    run(&mut c, 1);
    assert_eq!(c.program_counter(), 0x300);
    assert_eq!(c.stack_pointer(), 1);
    run(&mut c, 1);
    assert_eq!(c.program_counter(), 0x202);
    assert_eq!(c.stack_pointer(), 0);
}

#[test]
fn store_decimal_digits() {
    let mut c = machine_with(&[0x60, 0xff, 0xa3, 0x00, 0xf0, 0x33]);
    run(&mut c, 3);
    assert_eq!(c.memory_byte(0x300), 2);
    assert_eq!(c.memory_byte(0x301), 5);
    assert_eq!(c.memory_byte(0x302), 5);
}

#[test]
fn family_five_with_nonzero_nibble_is_unknown() {
    let mut c = machine_with(&[0x51, 0x21]);
    assert_eq!(c.step(0), Err(Chip8Error::UnknownInstruction(0x5121)));
    assert_eq!(decode(0x5121), Err(Chip8Error::UnknownInstruction(0x5121)));
    assert_eq!(decode(0x5120), Ok(Instruction::SkipIfRegEqReg(1, 2)));
}

#[test]
fn other_unknown_words() {
    for word in [0x0123u16, 0x8008, 0x800f, 0x9121, 0xe09f, 0xf0ff, 0xf000] {
        assert_eq!(decode(word), Err(Chip8Error::UnknownInstruction(word)), "{:04x}", word);
    }
}

#[test]
fn decode_fields() {
    assert_eq!(decode(0x00e0), Ok(Instruction::ClearDisplay));
    assert_eq!(decode(0x00ee), Ok(Instruction::Return));
    assert_eq!(decode(0x1abc), Ok(Instruction::Jump(0xabc)));
    assert_eq!(decode(0x2abc), Ok(Instruction::Call(0xabc)));
    assert_eq!(decode(0x3a42), Ok(Instruction::SkipIfRegEqImm(0xa, 0x42)));
    assert_eq!(decode(0x8ab7), Ok(Instruction::RsbRegFromReg(0xa, 0xb)));
    assert_eq!(decode(0x8abe), Ok(Instruction::LeftShift(0xa)));
    assert_eq!(decode(0xbfff), Ok(Instruction::JumpWithOffset(0xfff)));
    assert_eq!(decode(0xd12f), Ok(Instruction::Draw(1, 2, 0xf)));
    assert_eq!(decode(0xe7a1), Ok(Instruction::SkipIfKeyNotPressed(7)));
    assert_eq!(decode(0xf565), Ok(Instruction::RegLoad(5)));
}
